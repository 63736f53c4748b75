//! Information about the rclone installation: its version and backends.
use vstd::prelude::*;
use crate::operations::{args_of, strs, lines_of};
use crate::text::{
    first_word, first_word_chars, lemma_filter_map_step, lemma_take_all, lines, split_once,
    split_once_chars, string_of, trim, trim_chars, views,
};

verus! {

/// Arguments of `rclone version`.
pub fn version_args() -> (r: Vec<String>)
    ensures
        strs(r@) == seq!["version"@],
{
    let r = args_of(&["version"]);
    assert(strs(r@) =~= seq!["version"@]);
    r
}

/// Arguments of `rclone core stats`.
pub fn stats_args() -> (r: Vec<String>)
    ensures
        strs(r@) == seq!["core"@, "stats"@],
{
    let r = args_of(&["core", "stats"]);
    assert(strs(r@) =~= seq!["core"@, "stats"@]);
    r
}

/// Arguments of `rclone help backends`.
pub fn backends_args() -> (r: Vec<String>)
    ensures
        strs(r@) == seq!["help"@, "backends"@],
{
    let r = args_of(&["help", "backends"]);
    assert(strs(r@) =~= seq!["help"@, "backends"@]);
    r
}

/// A `key: value` line as a trimmed key and a trimmed value, split at the
/// first colon; lines without a colon carry nothing.
pub open spec fn version_entry(l: Seq<char>) -> Option<(Seq<char>, Seq<char>)> {
    match split_once(l, ':') {
        Some((k, v)) => Some((trim(k), trim(v))),
        None => None,
    }
}

pub open spec fn version_entry_fn() -> spec_fn(Seq<char>) -> Option<(Seq<char>, Seq<char>)> {
    |l: Seq<char>| version_entry(l)
}

/// The texts of a list of string pairs.
pub open spec fn pairs(v: Seq<(String, String)>) -> Seq<(Seq<char>, Seq<char>)> {
    v.map_values(|p: (String, String)| (p.0@, p.1@))
}

/// The version report from the answer to [`version_args`]: one entry per
/// line that holds a colon, in order. Collected into a map, a later entry
/// with the same key replaces an earlier one. A failure is passed on.
pub fn version(outcome: Result<String, String>) -> (r: Result<Vec<(String, String)>, String>)
    ensures
        match outcome {
            Ok(out) => r matches Ok(d) && pairs(d@) == lines(out@).filter_map(
                version_entry_fn(),
            ),
            Err(e) => r matches Err(e2) && e2@ == e@,
        },
{
    match outcome {
        Ok(out) => {
            let ls = lines_of(out.as_str());
            let ghost all = lines(out@);
            let ghost f = version_entry_fn();
            let mut d: Vec<(String, String)> = Vec::new();
            let mut i: usize = 0;
            while i < ls.len()
                invariant
                    i <= ls.len(),
                    views(ls@) == all,
                    f == version_entry_fn(),
                    pairs(d@) == all.take(i as int).filter_map(f),
                decreases ls.len() - i,
            {
                proof {
                    lemma_filter_map_step(all, f, i as int);
                    assert(all[i as int] == ls@[i as int]@);
                }
                match split_once_chars(&ls[i], ':') {
                    Some((k, v)) => {
                        let key = string_of(&trim_chars(&k));
                        let value = string_of(&trim_chars(&v));
                        let ghost before = d@;
                        d.push((key, value));
                        assert(pairs(d@) =~= pairs(before).push((key@, value@)));
                    },
                    None => {},
                }
                i += 1;
            }
            proof {
                lemma_take_all(all);
            }
            Ok(d)
        },
        Err(e) => Err(e),
    }
}

/// The backend of a `help backends` line: the first word of the trimmed
/// line; blank lines carry none.
pub open spec fn backend_entry(l: Seq<char>) -> Option<Seq<char>> {
    if trim(l).len() == 0 {
        None
    } else {
        Some(first_word(trim(l)))
    }
}

pub open spec fn backend_entry_fn() -> spec_fn(Seq<char>) -> Option<Seq<char>> {
    |l: Seq<char>| backend_entry(l)
}

/// The supported backend types from the answer to [`backends_args`]: the
/// first word of every non-blank line, in order. A failure is passed on.
pub fn backends(outcome: Result<String, String>) -> (r: Result<Vec<String>, String>)
    ensures
        match outcome {
            Ok(out) => r matches Ok(d) && strs(d@) == lines(out@).filter_map(backend_entry_fn()),
            Err(e) => r matches Err(e2) && e2@ == e@,
        },
{
    match outcome {
        Ok(out) => {
            let ls = lines_of(out.as_str());
            let ghost all = lines(out@);
            let ghost f = backend_entry_fn();
            let mut d: Vec<String> = Vec::new();
            let mut i: usize = 0;
            while i < ls.len()
                invariant
                    i <= ls.len(),
                    views(ls@) == all,
                    f == backend_entry_fn(),
                    strs(d@) == all.take(i as int).filter_map(f),
                decreases ls.len() - i,
            {
                proof {
                    lemma_filter_map_step(all, f, i as int);
                    assert(all[i as int] == ls@[i as int]@);
                }
                let t = trim_chars(&ls[i]);
                if t.len() > 0 {
                    let w = string_of(&first_word_chars(&t));
                    let ghost before = d@;
                    d.push(w);
                    assert(strs(d@) =~= strs(before).push(w@));
                }
                i += 1;
            }
            proof {
                lemma_take_all(all);
            }
            Ok(d)
        },
        Err(e) => Err(e),
    }
}

} // verus!
