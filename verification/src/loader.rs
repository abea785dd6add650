//! The loader: splits configuration text into lines, then walks them in
//! order — trimming, skipping comments and keyless lines, parsing the rest
//! and handing each pair to the assignment policy. The first failure aborts
//! the load; lines already applied stay applied.

use vstd::prelude::*;

use crate::error::FaktorError;
use crate::parse::{spec_key, spec_value, split_once};
use crate::policy::SetEnvVar;
use crate::store::EnvStore;
use crate::text::{lemma_index_of_first_is, lemma_index_of_first_none, spec_trim, trim};

verus! {

/// The lines of `s`: the segments between newline characters. A trailing
/// newline yields a final empty segment, which the loader skips anyway.
pub open spec fn spec_lines(s: Seq<char>) -> Seq<Seq<char>>
    decreases s.len(),
    via spec_lines_decreases
{
    match s.index_of_first('\n') {
        Some(i) => seq![s.subrange(0, i)] + spec_lines(s.subrange(i + 1 as int, s.len() as int)),
        None => seq![s],
    }
}

#[via_fn]
proof fn spec_lines_decreases(s: Seq<char>) {
    s.index_of_first_ensures('\n');
}

/// A line the loader ignores: blank (or whitespace only), or a comment —
/// `#` as its first character after trimming.
pub open spec fn blank_or_comment(line: Seq<char>) -> bool {
    let t = spec_trim(line);
    t.len() == 0 || t[0] == '#'
}

/// The store contents after the loader processes a single raw `line`
/// against `env` under the policy `mode`.
pub open spec fn apply_line<T: SetEnvVar>(
    mode: T,
    env: Map<Seq<char>, Seq<char>>,
    line: Seq<char>,
) -> Map<Seq<char>, Seq<char>> {
    let t = spec_trim(line);
    if t.len() > 0 && t[0] == '#' {
        env
    } else {
        let key = spec_trim(spec_key(t));
        if key.len() == 0 {
            env
        } else {
            mode.spec_set(env, key, spec_value(t))
        }
    }
}

/// The store contents after the loader processes `lines` in order against
/// `env` under the policy `mode`.
pub open spec fn load_lines<T: SetEnvVar>(
    mode: T,
    env: Map<Seq<char>, Seq<char>>,
    lines: Seq<Seq<char>>,
) -> Map<Seq<char>, Seq<char>>
    decreases lines.len(),
{
    if lines.len() == 0 {
        env
    } else {
        load_lines(mode, apply_line(mode, env, lines[0]), lines.drop_first())
    }
}

/// A load over blank lines and comments alone leaves the store unchanged,
/// whatever the policy.
pub proof fn lemma_load_inert_lines_unchanged<T: SetEnvVar>(
    mode: T,
    env: Map<Seq<char>, Seq<char>>,
    lines: Seq<Seq<char>>,
)
    requires
        forall|i: int| 0 <= i < lines.len() ==> blank_or_comment(#[trigger] lines[i]),
    ensures
        load_lines(mode, env, lines) == env,
    decreases lines.len(),
{
    if lines.len() > 0 {
        assert(blank_or_comment(lines[0]));
        let t = spec_trim(lines[0]);
        if t.len() == 0 {
            lemma_index_of_first_none(t, '=');
            assert(spec_key(t) == t);
        }
        assert(apply_line(mode, env, lines[0]) == env);
        lemma_load_inert_lines_unchanged(mode, env, lines.drop_first());
    }
}

/// Splits `s` into its lines, per [`spec_lines`].
pub fn split_lines(s: &str) -> (r: Vec<String>)
    ensures
        r.deep_view() == spec_lines(s@),
{
    let n = s.unicode_len();
    let mut r: Vec<String> = Vec::new();
    let mut start: usize = 0;
    let mut i: usize = 0;
    proof {
        assert(s@.subrange(0, n as int) =~= s@);
        assert(r.deep_view() + spec_lines(s@) =~= spec_lines(s@));
    }
    while i < n
        invariant
            n == s@.len(),
            start <= i <= n,
            forall|j: int| start <= j < i ==> s@[j] != '\n',
            spec_lines(s@) == r.deep_view() + spec_lines(
                s@.subrange(start as int, n as int),
            ),
        decreases n - i,
    {
        if s.get_char(i) == '\n' {
            let ghost rest = s@.subrange(start as int, n as int);
            let line = s.substring_char(start, i);
            r.push(line.to_owned());
            proof {
                assert(rest[i - start] == '\n');
                assert(forall|j: int| 0 <= j < i - start ==> rest[j] == s@[start + j]);
                lemma_index_of_first_is(rest, '\n', i - start);
                assert(rest.subrange(0, i - start) =~= s@.subrange(start as int, i as int));
                assert(rest.subrange(i - start + 1 as int, rest.len() as int) =~= s@.subrange(
                    i + 1 as int,
                    n as int,
                ));
                assert(r.deep_view() =~= r.deep_view().drop_last() + seq![s@.subrange(
                    start as int,
                    i as int,
                )]);
                assert(r.deep_view() + spec_lines(s@.subrange(i + 1 as int, n as int))
                    =~= r.deep_view().drop_last() + spec_lines(rest));
            }
            start = i + 1;
        }
        i = i + 1;
    }
    let ghost rest = s@.subrange(start as int, n as int);
    let line = s.substring_char(start, n);
    r.push(line.to_owned());
    proof {
        assert(forall|j: int| 0 <= j < rest.len() ==> rest[j] == s@[start + j]);
        lemma_index_of_first_none(rest, '\n');
        assert(r.deep_view() =~= r.deep_view().drop_last() + seq![rest]);
    }
    r
}

/// Loads `lines` in file order into `store` under the policy `mode`: each
/// line is trimmed, comments and lines without a key are skipped, and the
/// rest are parsed and handed to the policy. The first failure would abort
/// the load; as every policy currently succeeds, so does the loader.
pub fn init_inner<T: SetEnvVar>(store: &mut EnvStore, lines: &Vec<String>, mode: T) -> (r: Result<
    (),
    FaktorError,
>)
    ensures
        r is Ok,
        final(store)@ == load_lines(mode, old(store)@, lines.deep_view()),
{
    let n = lines.len();
    let mut i: usize = 0;
    proof {
        assert(lines.deep_view().skip(0) =~= lines.deep_view());
    }
    while i < n
        invariant
            n == lines@.len(),
            i <= n,
            load_lines(mode, old(store)@, lines.deep_view()) == load_lines(
                mode,
                store@,
                lines.deep_view().skip(i as int),
            ),
        decreases n - i,
    {
        let ghost env_before = store@;
        let ghost raw = lines.deep_view()[i as int];
        let line = trim(lines[i].as_str());
        assert(line@ == spec_trim(raw));
        if !(line.as_str().unicode_len() > 0 && line.as_str().get_char(0) == '#') {
            let (key, value) = split_once(line.as_str());
            let key = trim(key.as_str());
            if key.as_str().unicode_len() != 0 {
                let value_ref: Option<&str> = match &value {
                    Some(v) => Some(v.as_str()),
                    None => None,
                };
                let res = mode.set(store, key.as_str(), value_ref);
                match res {
                    Ok(()) => (),
                    Err(e) => {
                        return Err(e);
                    },
                }
            }
        }
        proof {
            assert(store@ == apply_line(mode, env_before, raw));
            assert(lines.deep_view().skip(i as int).drop_first() =~= lines.deep_view().skip(
                i + 1 as int,
            ));
            assert(lines.deep_view().skip(i as int)[0] == raw);
        }
        i = i + 1;
    }
    proof {
        assert(lines.deep_view().skip(n as int) =~= Seq::<Seq<char>>::empty());
    }
    Ok(())
}

/// Loads the configuration text `content` into `store` under the policy
/// `mode`: the text is split into lines and processed in order. Reading the
/// text from a file is the caller's part; this function does the rest.
pub fn init<T: SetEnvVar>(store: &mut EnvStore, content: &str, mode: T) -> (r: Result<
    (),
    FaktorError,
>)
    ensures
        r is Ok,
        final(store)@ == load_lines(mode, old(store)@, spec_lines(content@)),
{
    let lines = split_lines(content);
    init_inner(store, &lines, mode)
}

} // verus!
