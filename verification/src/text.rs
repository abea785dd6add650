//! Character-level text utilities: whitespace trimming, character search and
//! string comparison, each with its specification-level counterpart.

use vstd::prelude::*;

verus! {

/// Whether `c` has the Unicode `White_Space` property; these are the
/// characters that trimming removes.
pub open spec fn is_space(c: char) -> bool {
    c == ' ' || c == '\t' || c == '\n' || c == '\u{000B}' || c == '\u{000C}' || c == '\r'
        || c == '\u{0085}' || c == '\u{00A0}' || c == '\u{1680}' || c == '\u{2000}'
        || c == '\u{2001}' || c == '\u{2002}' || c == '\u{2003}' || c == '\u{2004}'
        || c == '\u{2005}' || c == '\u{2006}' || c == '\u{2007}' || c == '\u{2008}'
        || c == '\u{2009}' || c == '\u{200A}' || c == '\u{2028}' || c == '\u{2029}'
        || c == '\u{202F}' || c == '\u{205F}' || c == '\u{3000}'
}

fn is_space_char(c: char) -> (r: bool)
    ensures
        r == is_space(c),
{
    c == ' ' || c == '\t' || c == '\n' || c == '\u{000B}' || c == '\u{000C}' || c == '\r'
        || c == '\u{0085}' || c == '\u{00A0}' || c == '\u{1680}' || c == '\u{2000}'
        || c == '\u{2001}' || c == '\u{2002}' || c == '\u{2003}' || c == '\u{2004}'
        || c == '\u{2005}' || c == '\u{2006}' || c == '\u{2007}' || c == '\u{2008}'
        || c == '\u{2009}' || c == '\u{200A}' || c == '\u{2028}' || c == '\u{2029}'
        || c == '\u{202F}' || c == '\u{205F}' || c == '\u{3000}'
}

/// `s` with leading whitespace removed.
pub open spec fn spec_trim_start(s: Seq<char>) -> Seq<char>
    decreases s.len(),
{
    if s.len() > 0 && is_space(s[0]) {
        spec_trim_start(s.drop_first())
    } else {
        s
    }
}

/// `s` with trailing whitespace removed.
pub open spec fn spec_trim_end(s: Seq<char>) -> Seq<char>
    decreases s.len(),
{
    if s.len() > 0 && is_space(s.last()) {
        spec_trim_end(s.drop_last())
    } else {
        s
    }
}

/// `s` with leading and trailing whitespace removed.
pub open spec fn spec_trim(s: Seq<char>) -> Seq<char> {
    spec_trim_end(spec_trim_start(s))
}

proof fn lemma_trim_start_subrange(s: Seq<char>, i: int)
    requires
        0 <= i <= s.len(),
        forall|j: int| 0 <= j < i ==> is_space(s[j]),
        i == s.len() || !is_space(s[i]),
    ensures
        spec_trim_start(s) == s.subrange(i, s.len() as int),
    decreases i,
{
    if i == 0 {
        assert(s.subrange(0, s.len() as int) =~= s);
    } else {
        lemma_trim_start_subrange(s.drop_first(), i - 1);
        assert(s.drop_first().subrange(i - 1, s.len() - 1) =~= s.subrange(i, s.len() as int));
    }
}

proof fn lemma_trim_end_subrange(s: Seq<char>, j: int)
    requires
        0 <= j <= s.len(),
        forall|k: int| j <= k < s.len() ==> is_space(s[k]),
        j == 0 || !is_space(s[j - 1]),
    ensures
        spec_trim_end(s) == s.subrange(0, j),
    decreases s.len() - j,
{
    if j == s.len() {
        assert(s.subrange(0, j) =~= s);
    } else {
        lemma_trim_end_subrange(s.drop_last(), j);
        assert(s.drop_last().subrange(0, j) =~= s.subrange(0, j));
    }
}

/// Returns `s` with leading and trailing whitespace removed.
pub fn trim(s: &str) -> (r: String)
    ensures
        r@ == spec_trim(s@),
{
    let n = s.unicode_len();
    let mut start: usize = 0;
    while start < n && is_space_char(s.get_char(start))
        invariant
            n == s@.len(),
            start <= n,
            forall|j: int| 0 <= j < start ==> is_space(s@[j]),
        decreases n - start,
    {
        start = start + 1;
    }
    proof {
        lemma_trim_start_subrange(s@, start as int);
    }
    let mut end: usize = n;
    while end > start && is_space_char(s.get_char(end - 1))
        invariant
            n == s@.len(),
            start <= end <= n,
            forall|k: int| end <= k < n ==> is_space(s@[k]),
        decreases end,
    {
        end = end - 1;
    }
    proof {
        let t = s@.subrange(start as int, n as int);
        lemma_trim_end_subrange(t, end - start);
        assert(t.subrange(0, end - start) =~= s@.subrange(start as int, end as int));
    }
    let r = s.substring_char(start, end);
    r.to_owned()
}

/// If `c` first occurs in `s` at index `i`, then `index_of_first` finds it
/// there.
pub(crate) proof fn lemma_index_of_first_is(s: Seq<char>, c: char, i: int)
    requires
        0 <= i < s.len(),
        s[i] == c,
        forall|j: int| 0 <= j < i ==> s[j] != c,
    ensures
        s.index_of_first(c) == Some(i),
{
    s.index_of_first_ensures(c);
    assert(s.contains(c)) by {
        assert(s[i] == c);
    }
    let found = s.index_of_first(c).unwrap();
    if found < i {
        assert(s[found] != c);
    }
    if found > i {
        assert(s[i] != c);
    }
}

/// If `c` occurs nowhere in `s`, `index_of_first` reports so.
pub(crate) proof fn lemma_index_of_first_none(s: Seq<char>, c: char)
    requires
        forall|j: int| 0 <= j < s.len() ==> s[j] != c,
    ensures
        s.index_of_first(c) is None,
{
    s.index_of_first_ensures(c);
}

/// Character-by-character string equality.
pub(crate) fn str_eq(a: &str, b: &str) -> (r: bool)
    ensures
        r == (a@ == b@),
{
    let n = a.unicode_len();
    if n != b.unicode_len() {
        return false;
    }
    let mut i: usize = 0;
    while i < n
        invariant
            n == a@.len(),
            n == b@.len(),
            i <= n,
            forall|j: int| 0 <= j < i ==> a@[j] == b@[j],
        decreases n - i,
    {
        if a.get_char(i) != b.get_char(i) {
            return false;
        }
        i = i + 1;
    }
    proof {
        assert(a@ =~= b@);
    }
    true
}

} // verus!
