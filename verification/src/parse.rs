//! The line parser: splits a line on the first `=` into a key and an
//! optional value.

use vstd::prelude::*;

use crate::text::{lemma_index_of_first_is, lemma_index_of_first_none};

verus! {

/// The key of a line: everything before the first `=`, or the whole line
/// when there is no `=`.
pub open spec fn spec_key(s: Seq<char>) -> Seq<char> {
    match s.index_of_first('=') {
        Some(i) => s.subrange(0, i),
        None => s,
    }
}

/// The value of a line: everything after the first `=` (possibly empty,
/// possibly holding further `=` characters), or nothing when there is
/// no `=`.
pub open spec fn spec_value(s: Seq<char>) -> Option<Seq<char>> {
    match s.index_of_first('=') {
        Some(i) => Some(s.subrange(i + 1, s.len() as int)),
        None => None,
    }
}

/// A string without `=` parses to itself as the key, with no value.
pub proof fn lemma_parse_without_separator(s: Seq<char>)
    requires
        forall|i: int| 0 <= i < s.len() ==> s[i] != '=',
    ensures
        spec_key(s) == s,
        spec_value(s) is None,
{
    lemma_index_of_first_none(s, '=');
}

/// A string `K=V` whose `K` holds no `=` parses to key `K` and value `V`,
/// whatever `V` holds — further `=` characters included.
pub proof fn lemma_parse_key_value(k: Seq<char>, v: Seq<char>)
    requires
        forall|i: int| 0 <= i < k.len() ==> k[i] != '=',
    ensures
        spec_key(k + seq!['='] + v) == k,
        spec_value(k + seq!['='] + v) == Some(v),
{
    let s = k + seq!['='] + v;
    assert(s[k.len() as int] == '=');
    assert(forall|j: int| 0 <= j < k.len() ==> s[j] == k[j]);
    lemma_index_of_first_is(s, '=', k.len() as int);
    assert(s.subrange(0, k.len() as int) =~= k);
    assert(s.subrange(k.len() + 1 as int, s.len() as int) =~= v);
}

/// Splits `in_string` on the first `=`, at most once. Without a separator
/// the whole string is the key and there is no value; with one, the value
/// is the raw remainder, empty or not. Never fails, trims nothing.
pub fn split_once(in_string: &str) -> (r: (String, Option<String>))
    ensures
        r.0@ == spec_key(in_string@),
        match r.1 {
            Some(v) => spec_value(in_string@) == Some(v@),
            None => spec_value(in_string@) is None,
        },
{
    let n = in_string.unicode_len();
    let mut i: usize = 0;
    while i < n
        invariant
            n == in_string@.len(),
            i <= n,
            forall|j: int| 0 <= j < i ==> in_string@[j] != '=',
        decreases n - i,
    {
        if in_string.get_char(i) == '=' {
            proof {
                lemma_index_of_first_is(in_string@, '=', i as int);
            }
            let key = in_string.substring_char(0, i);
            let value = in_string.substring_char(i + 1, n);
            return (key.to_owned(), Some(value.to_owned()));
        }
        i = i + 1;
    }
    proof {
        lemma_index_of_first_none(in_string@, '=');
    }
    (in_string.to_owned(), None)
}

} // verus!
