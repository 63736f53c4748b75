//! Copying, synchronising, moving and deleting files.
use vstd::prelude::*;
use crate::operations::{
    args_of, bwlimit, flag, lines_of, push_bwlimit, push_flag, strs, CopyOptions, DeleteOptions,
    MoveOptions, SyncOptions,
};
use crate::text::{
    chars_of, contains, contains_chars, field, field_chars, lemma_filter_map_step, lemma_take_all,
    lines, remove_all, remove_all_chars, string_of, trim, trim_chars, views,
};

verus! {

/// Arguments of `rclone copy` from `source` to `dest` with the given flags.
pub fn copy_args(source: &str, dest: &str, options: &CopyOptions) -> (r: Vec<String>)
    ensures
        strs(r@) == seq!["copy"@, source@, dest@, "--progress"@, "--stats-one-line"@] + flag(
            options.verbose,
            "-v"@,
        ) + flag(options.dry_run, "--dry-run"@) + bwlimit(options.bandwidth_limit) + flag(
            options.no_traverse,
            "--no-traverse"@,
        ),
{
    let mut r = args_of(&["copy", source, dest, "--progress", "--stats-one-line"]);
    assert(strs(r@) =~= seq!["copy"@, source@, dest@, "--progress"@, "--stats-one-line"@]);
    push_flag(&mut r, options.verbose, "-v");
    push_flag(&mut r, options.dry_run, "--dry-run");
    push_bwlimit(&mut r, &options.bandwidth_limit);
    push_flag(&mut r, options.no_traverse, "--no-traverse");
    r
}

/// Arguments of `rclone sync`, which makes `dest` identical to `source`.
pub fn sync_args(source: &str, dest: &str, options: &SyncOptions) -> (r: Vec<String>)
    ensures
        strs(r@) == seq!["sync"@, source@, dest@, "--progress"@, "--stats-one-line"@] + flag(
            options.verbose,
            "-v"@,
        ) + flag(options.dry_run, "--dry-run"@) + flag(
            options.delete_excluded,
            "--delete-excluded"@,
        ) + bwlimit(options.bandwidth_limit) + flag(options.existing_only, "--existing-only"@),
{
    let mut r = args_of(&["sync", source, dest, "--progress", "--stats-one-line"]);
    assert(strs(r@) =~= seq!["sync"@, source@, dest@, "--progress"@, "--stats-one-line"@]);
    push_flag(&mut r, options.verbose, "-v");
    push_flag(&mut r, options.dry_run, "--dry-run");
    push_flag(&mut r, options.delete_excluded, "--delete-excluded");
    push_bwlimit(&mut r, &options.bandwidth_limit);
    push_flag(&mut r, options.existing_only, "--existing-only");
    r
}

/// Arguments of `rclone move` from `source` to `dest`.
pub fn move_args(source: &str, dest: &str, options: &MoveOptions) -> (r: Vec<String>)
    ensures
        strs(r@) == seq!["move"@, source@, dest@, "--progress"@, "--stats-one-line"@] + flag(
            options.verbose,
            "-v"@,
        ) + flag(options.dry_run, "--dry-run"@) + flag(
            options.delete_empty_src_dirs,
            "--delete-empty-src-dirs"@,
        ),
{
    let mut r = args_of(&["move", source, dest, "--progress", "--stats-one-line"]);
    assert(strs(r@) =~= seq!["move"@, source@, dest@, "--progress"@, "--stats-one-line"@]);
    push_flag(&mut r, options.verbose, "-v");
    push_flag(&mut r, options.dry_run, "--dry-run");
    push_flag(&mut r, options.delete_empty_src_dirs, "--delete-empty-src-dirs");
    r
}

/// Arguments that delete `path`: `rclone purge` (the directory and all it
/// holds) when recursive, `rclone delete` (the files) otherwise.
pub fn delete_args(path: &str, options: &DeleteOptions) -> (r: Vec<String>)
    ensures
        strs(r@) == seq![
            if options.recursive {
                "purge"@
            } else {
                "delete"@
            },
            path@,
            "--progress"@,
        ] + flag(options.verbose, "-v"@) + flag(options.dry_run, "--dry-run"@),
{
    let command = if options.recursive {
        "purge"
    } else {
        "delete"
    };
    let mut r = args_of(&[command, path, "--progress"]);
    assert(strs(r@) =~= seq![command@, path@, "--progress"@]);
    push_flag(&mut r, options.verbose, "-v");
    push_flag(&mut r, options.dry_run, "--dry-run");
    r
}

/// Arguments of the dry run of a copy from `source` to `dest`.
pub fn preview_args(source: &str, dest: &str) -> (r: Vec<String>)
    ensures
        strs(r@) == seq!["copy"@, source@, dest@, "--dry-run"@, "--progress"@],
{
    let r = args_of(&["copy", source, dest, "--dry-run", "--progress"]);
    assert(strs(r@) =~= seq!["copy"@, source@, dest@, "--dry-run"@, "--progress"@]);
    r
}

/// A dry-run line that names an affected file: it holds a colon and is not
/// one of the `Transferred:` or `Errors:` summary lines.
pub open spec fn preview_entry(l: Seq<char>) -> Option<Seq<char>> {
    if contains(l, ":"@) && !contains(l, "Transferred:"@) && !contains(l, "Errors:"@) {
        Some(l)
    } else {
        None
    }
}

pub open spec fn preview_entry_fn() -> spec_fn(Seq<char>) -> Option<Seq<char>> {
    |l: Seq<char>| preview_entry(l)
}

/// The lines of a dry-run copy (the answer to [`preview_args`]) that name
/// affected files, in order. A failure is passed on.
pub fn preview(outcome: Result<String, String>) -> (r: Result<Vec<String>, String>)
    ensures
        match outcome {
            Ok(out) => r matches Ok(d) && strs(d@) == lines(out@).filter_map(preview_entry_fn()),
            Err(e) => r matches Err(e2) && e2@ == e@,
        },
{
    match outcome {
        Ok(out) => {
            let colon = chars_of(":");
            let transferred = chars_of("Transferred:");
            let errors = chars_of("Errors:");
            let ls = lines_of(out.as_str());
            let ghost all = lines(out@);
            let ghost f = preview_entry_fn();
            let mut d: Vec<String> = Vec::new();
            let mut i: usize = 0;
            while i < ls.len()
                invariant
                    i <= ls.len(),
                    views(ls@) == all,
                    f == preview_entry_fn(),
                    colon@ == ":"@,
                    transferred@ == "Transferred:"@,
                    errors@ == "Errors:"@,
                    strs(d@) == all.take(i as int).filter_map(f),
                decreases ls.len() - i,
            {
                proof {
                    lemma_filter_map_step(all, f, i as int);
                    assert(all[i as int] == ls@[i as int]@);
                }
                let l = &ls[i];
                if contains_chars(l, &colon) && !contains_chars(l, &transferred)
                    && !contains_chars(l, &errors) {
                    let s = string_of(l);
                    let ghost before = d@;
                    d.push(s);
                    assert(strs(d@) =~= strs(before).push(s@));
                }
                i += 1;
            }
            proof {
                lemma_take_all(all);
            }
            Ok(d)
        },
        Err(e) => Err(e),
    }
}

/// The last line that holds `Transferred:`.
pub open spec fn last_transfer_line(ls: Seq<Seq<char>>) -> Option<Seq<char>>
    decreases ls.len(),
{
    if ls.len() == 0 {
        None
    } else if contains(ls.last(), "Transferred:"@) {
        Some(ls.last())
    } else {
        last_transfer_line(ls.drop_last())
    }
}

/// The speed figure of a transfer summary line: its third comma-separated
/// field, when that field is given in `MB/s`, with the unit removed and
/// surrounding blanks trimmed.
pub open spec fn speed_field(l: Seq<char>) -> Option<Seq<char>> {
    match field(l, ',', 2) {
        Some(f) => if contains(f, "MB/s"@) {
            Some(trim(remove_all(trim(f), "MB/s"@)))
        } else {
            None
        },
        None => None,
    }
}

/// The text of the transfer speed in MB/s reported by a copy, sync, move
/// or delete run, taken from its last `Transferred:` line; none when that
/// line is missing or gives no speed in MB/s.
pub open spec fn speed_text(output: Seq<char>) -> Option<Seq<char>> {
    match last_transfer_line(lines(output)) {
        Some(l) => speed_field(l),
        None => None,
    }
}

/// The MB/s figure of a transfer summary, as text to be read as a number.
pub fn transfer_speed_text(output: &str) -> (r: Option<String>)
    ensures
        match speed_text(output@) {
            Some(t) => r matches Some(s) && s@ == t,
            None => r is None,
        },
{
    let transferred = chars_of("Transferred:");
    let unit = chars_of("MB/s");
    proof {
        reveal_strlit("MB/s");
    }
    let ls = lines_of(output);
    let ghost all = lines(output@);
    let mut i: usize = ls.len();
    assert(all.take(i as int) =~= all);
    while i > 0
        invariant
            i <= ls.len(),
            views(ls@) == all,
            transferred@ == "Transferred:"@,
            unit@ == "MB/s"@,
            unit@.len() > 0,
            all == lines(output@),
            last_transfer_line(all) == last_transfer_line(all.take(i as int)),
        decreases i,
    {
        assert(all.take(i as int).last() == ls@[i - 1]@);
        if contains_chars(&ls[i - 1], &transferred) {
            assert(last_transfer_line(all.take(i as int)) == Some(ls@[i - 1]@));
            assert(speed_text(output@) == speed_field(ls@[i - 1]@));
            match field_chars(&ls[i - 1], ',', 2) {
                Some(f) => {
                    if contains_chars(&f, &unit) {
                        let stripped = remove_all_chars(&trim_chars(&f), &unit);
                        return Some(string_of(&trim_chars(&stripped)));
                    } else {
                        return None;
                    }
                },
                None => {
                    return None;
                },
            }
        }
        assert(all.take(i as int).drop_last() =~= all.take(i - 1));
        i -= 1;
    }
    None
}

} // verus!

verus! {

// ---------------------------------------------------------------------------
// Laws of reading the speed

proof fn lemma_last_line_holding(ls: Seq<Seq<char>>, k: int)
    requires
        0 <= k < ls.len(),
        contains(ls[k], "Transferred:"@),
        forall|j: int| k < j < ls.len() ==> !contains(#[trigger] ls[j], "Transferred:"@),
    ensures
        last_transfer_line(ls) == Some(ls[k]),
    decreases ls.len(),
{
    if k < ls.len() - 1 {
        assert(!contains(ls[ls.len() - 1], "Transferred:"@));
        assert(ls.last() == ls[ls.len() - 1]);
        let rest = ls.drop_last();
        assert forall|j: int| k < j < rest.len() implies !contains(
            #[trigger] rest[j],
            "Transferred:"@,
        ) by {
            assert(rest[j] == ls[j]);
        }
        lemma_last_line_holding(rest, k);
    } else {
        assert(ls.last() == ls[k]);
    }
}

proof fn lemma_no_line_holding(ls: Seq<Seq<char>>)
    requires
        forall|j: int| 0 <= j < ls.len() ==> !contains(#[trigger] ls[j], "Transferred:"@),
    ensures
        last_transfer_line(ls) is None,
    decreases ls.len(),
{
    if ls.len() > 0 {
        assert(!contains(ls[ls.len() - 1], "Transferred:"@));
        assert(ls.last() == ls[ls.len() - 1]);
        let rest = ls.drop_last();
        assert forall|j: int| 0 <= j < rest.len() implies !contains(
            #[trigger] rest[j],
            "Transferred:"@,
        ) by {
            assert(rest[j] == ls[j]);
        }
        lemma_no_line_holding(rest);
    }
}

/// A field of a line is a stretch of that line.
proof fn lemma_field_within(s: Seq<char>, c: char, k: nat) -> (r: (int, int))
    requires
        field(s, c, k) is Some,
    ensures
        0 <= r.0 <= r.1 <= s.len(),
        field(s, c, k).unwrap() == s.subrange(r.0, r.1),
    decreases k,
{
    let p = crate::text::find_char(s, c);
    crate::text::lemma_find_char_bound(s, c);
    if k == 0 {
        assert(s.take(p as int) =~= s.subrange(0, p as int));
        (0, p as int)
    } else {
        let t = s.skip(p + 1int);
        let (a, b) = lemma_field_within(t, c, (k - 1) as nat);
        assert(t.subrange(a, b) =~= s.subrange(p + 1 + a, p + 1 + b));
        (p + 1 + a, p + 1 + b)
    }
}

/// What a stretch of a text contains, the text contains.
proof fn lemma_contains_in_stretch(s: Seq<char>, a: int, b: int, x: Seq<char>)
    requires
        0 <= a <= b <= s.len(),
        contains(s.subrange(a, b), x),
    ensures
        contains(s, x),
{
    let f = s.subrange(a, b);
    let i = choose|i: int| crate::text::occurs_at(f, x, i);
    assert(f.subrange(i, i + x.len()) =~= s.subrange(a + i, a + i + x.len()));
    assert(crate::text::occurs_at(s, x, a + i));
}

/// The speed is read from the last line that holds `Transferred:`, whatever
/// that line holds: for the line at `k` with no later such line, the speed
/// is that line's field, and none when the line gives no figure in `MB/s`,
/// whatever earlier lines say.
pub proof fn law_speed_from_last_transfer_line(output: Seq<char>, k: int)
    requires
        0 <= k < lines(output).len(),
        contains(lines(output)[k], "Transferred:"@),
        forall|j: int|
            k < j < lines(output).len() ==> !contains(#[trigger] lines(output)[j], "Transferred:"@),
    ensures
        speed_text(output) == speed_field(lines(output)[k]),
        !contains(lines(output)[k], "MB/s"@) ==> speed_text(output) is None,
{
    let l = lines(output)[k];
    lemma_last_line_holding(lines(output), k);
    if !contains(l, "MB/s"@) {
        match field(l, ',', 2) {
            Some(f) => {
                if contains(f, "MB/s"@) {
                    let (a, b) = lemma_field_within(l, ',', 2);
                    lemma_contains_in_stretch(l, a, b, "MB/s"@);
                }
            },
            None => {},
        }
    }
}

/// Output without any line holding `Transferred:` gives no speed.
pub proof fn law_no_transfer_line_no_speed(output: Seq<char>)
    requires
        forall|j: int|
            0 <= j < lines(output).len() ==> !contains(#[trigger] lines(output)[j], "Transferred:"@),
    ensures
        speed_text(output) is None,
{
    lemma_no_line_holding(lines(output));
}

} // verus!

verus! {

/// The first field of `a + "," + b` split at commas is `a` when `a` holds no
/// comma, and the rest begins with `b`.
proof fn lemma_first_field(a: Seq<char>, b: Seq<char>)
    requires
        !a.contains(','),
    ensures
        crate::text::find_char(a + seq![','] + b, ',') == a.len(),
        (a + seq![','] + b).take(a.len() as int) == a,
        (a + seq![','] + b).skip(a.len() + 1int) == b,
{
    let s = a + seq![','] + b;
    assert forall|k: int| 0 <= k < a.len() implies s[k] != ',' by {
        assert(s[k] == a[k]);
        if a[k] == ',' {
            assert(a.contains(','));
        }
    }
    crate::text::lemma_find_char_is(s, ',', a.len() as int);
    assert(s.take(a.len() as int) =~= a);
    assert(s.skip(a.len() + 1int) =~= b);
}

/// The speed figure is taken from the third comma-separated field of the
/// summary line, wherever the commas stand: for a line `x,y,f` followed by
/// nothing or by a comma and more, where `x`, `y` and `f` hold no comma,
/// the field read is `f`.
pub proof fn law_speed_field_is_third(x: Seq<char>, y: Seq<char>, f: Seq<char>, rest: Seq<char>)
    requires
        !x.contains(','),
        !y.contains(','),
        !f.contains(','),
        rest.len() == 0 || rest[0] == ',',
    ensures
        speed_field(x + seq![','] + y + seq![','] + f + rest) == (if contains(f, "MB/s"@) {
            Some(trim(remove_all(trim(f), "MB/s"@)))
        } else {
            None
        }),
{
    let l = x + seq![','] + y + seq![','] + f + rest;
    let t1 = y + seq![','] + f + rest;
    let t2 = f + rest;
    assert(l =~= x + seq![','] + t1);
    lemma_first_field(x, t1);
    assert(t1 =~= y + seq![','] + t2);
    lemma_first_field(y, t2);
    crate::text::lemma_find_char_bound(t2, ',');
    assert forall|k: int| 0 <= k < f.len() implies t2[k] != ',' by {
        assert(t2[k] == f[k]);
        if f[k] == ',' {
            assert(f.contains(','));
        }
    }
    crate::text::lemma_find_char_is(t2, ',', f.len() as int);
    assert(t2.take(f.len() as int) =~= f);
    assert(field(t2, ',', 0) == Some(f));
    assert(field(t1, ',', 1) == Some(f));
    assert(field(l, ',', 2) == Some(f));
}

} // verus!
