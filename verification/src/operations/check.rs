//! Comparing two directories with `rclone check`.
use vstd::prelude::*;
use crate::operations::{args_of, strs, lines_of};
use crate::text::{lines, views, string_of, lemma_filter_map_step, lemma_take_all};

verus! {

/// Keeps a line when it is not empty.
pub open spec fn keep_nonempty(l: Seq<char>) -> Option<Seq<char>> {
    if l.len() > 0 {
        Some(l)
    } else {
        None
    }
}

pub open spec fn keep_nonempty_fn() -> spec_fn(Seq<char>) -> Option<Seq<char>> {
    |l: Seq<char>| keep_nonempty(l)
}

/// The non-empty lines of `s`, in order.
pub open spec fn nonempty_lines(s: Seq<char>) -> Seq<Seq<char>> {
    lines(s).filter_map(keep_nonempty_fn())
}

/// Arguments of `rclone check` that report every difference between `source`
/// and `dest` on standard output.
pub fn diff_args(source: &str, dest: &str) -> (r: Vec<String>)
    ensures
        strs(r@) == seq!["check"@, source@, dest@, "--combined"@, "-"@],
{
    let r = args_of(&["check", source, dest, "--combined", "-"]);
    assert(strs(r@) =~= seq!["check"@, source@, dest@, "--combined"@, "-"@]);
    r
}

/// The differences between two directories from the answer to
/// [`diff_args`]: each non-empty output line, in order; a failure of the
/// command is passed on unchanged.
pub fn diff(outcome: Result<String, String>) -> (r: Result<Vec<String>, String>)
    ensures
        match outcome {
            Ok(out) => r matches Ok(d) && strs(d@) == nonempty_lines(out@),
            Err(e) => r matches Err(e2) && e2@ == e@,
        },
{
    match outcome {
        Ok(out) => {
            let ls = lines_of(out.as_str());
            let ghost all = lines(out@);
            let ghost f = keep_nonempty_fn();
            let mut d: Vec<String> = Vec::new();
            let mut i: usize = 0;
            while i < ls.len()
                invariant
                    i <= ls.len(),
                    views(ls@) == all,
                    f == keep_nonempty_fn(),
                    strs(d@) == all.take(i as int).filter_map(f),
                decreases ls.len() - i,
            {
                proof {
                    lemma_filter_map_step(all, f, i as int);
                    assert(all[i as int] == ls@[i as int]@);
                }
                if ls[i].len() > 0 {
                    let s = string_of(&ls[i]);
                    let ghost before = d@;
                    d.push(s);
                    assert(strs(d@) =~= strs(before).push(s@));
                    assert(strs(d@) == all.take(i + 1).filter_map(f));
                } else {
                    assert(strs(d@) == all.take(i + 1).filter_map(f));
                }
                i += 1;
            }
            proof {
                lemma_take_all(all);
            }
            Ok(d)
        },
        Err(e) => Err(e),
    }
}

} // verus!
