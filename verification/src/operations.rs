//! Data types shared by the rclone operations, and the operations themselves.
//!
//! Each operation is split in two: a function that builds the exact argument
//! list handed to rclone, and a function that turns rclone's answer (its
//! standard output on success, its error text on failure) into the result.
use vstd::prelude::*;

pub mod check;
pub mod fileinfo;
pub mod files;
pub mod info;
pub mod json;
pub mod local_fs;
pub mod remotes;
pub mod search;
pub mod sync;

verus! {

/// A configured remote storage.
#[derive(Debug, Clone)]
pub struct Remote {
    pub name: String,
    /// The backend type, such as `drive` or `s3`.
    pub remote_type: String,
    /// The remote's settings other than its type, as key and value.
    pub config: Vec<(String, String)>,
}

impl Remote {
    /// No two settings have the same key.
    pub open spec fn wf(&self) -> bool {
        forall|i: int, j: int|
            0 <= i < j < self.config@.len() ==> #[trigger] self.config@[i].0@
                != #[trigger] self.config@[j].0@
    }
}

/// One entry of a directory listing.
#[derive(Debug, Clone)]
pub struct FileInfo {
    pub name: String,
    pub path: String,
    pub size: u64,
    pub is_dir: bool,
    pub modified: Option<String>,
}

/// Flags of `rclone copy`.
#[derive(Debug, Default)]
pub struct CopyOptions {
    pub verbose: bool,
    pub dry_run: bool,
    pub bandwidth_limit: Option<String>,
    pub no_traverse: bool,
}

/// Flags of `rclone sync`.
#[derive(Debug, Default)]
pub struct SyncOptions {
    pub verbose: bool,
    pub dry_run: bool,
    pub delete_excluded: bool,
    pub bandwidth_limit: Option<String>,
    pub existing_only: bool,
}

/// Flags of `rclone move`.
#[derive(Debug, Default)]
pub struct MoveOptions {
    pub verbose: bool,
    pub dry_run: bool,
    pub delete_empty_src_dirs: bool,
}

/// Flags of `rclone delete` / `rclone purge`.
#[derive(Debug, Default)]
pub struct DeleteOptions {
    pub verbose: bool,
    pub dry_run: bool,
    pub recursive: bool,
}

/// Settings of a name search.
#[derive(Debug, Default)]
pub struct FindOptions {
    pub recursive: bool,
    pub max_results: usize,
}

/// The texts held by a vector of strings.
pub open spec fn strs(v: Seq<String>) -> Seq<Seq<char>> {
    v.map_values(|s: String| s@)
}

/// Appends an owned copy of `s`.
pub fn push_arg(args: &mut Vec<String>, s: &str)
    ensures
        strs(final(args)@) == strs(old(args)@).push(s@),
{
    args.push(s.to_owned());
    assert(strs(args@) =~= strs(old(args)@).push(s@));
}

/// An argument list made of the given texts.
pub fn args_of(items: &[&str]) -> (r: Vec<String>)
    ensures
        strs(r@) == items@.map_values(|s: &str| s@),
{
    let mut r: Vec<String> = Vec::new();
    let mut i: usize = 0;
    while i < items.len()
        invariant
            i <= items.len(),
            strs(r@) == items@.take(i as int).map_values(|s: &str| s@),
        decreases items.len() - i,
    {
        push_arg(&mut r, items[i]);
        i += 1;
        assert(items@.take(i as int).map_values(|s: &str| s@) =~= items@.take(
            (i - 1) as int,
        ).map_values(|s: &str| s@).push(items@[i - 1]@));
    }
    assert(items@.take(items.len() as int) =~= items@);
    r
}

/// A flag when `on` holds, nothing otherwise.
pub open spec fn flag(on: bool, f: Seq<char>) -> Seq<Seq<char>> {
    if on {
        seq![f]
    } else {
        Seq::empty()
    }
}

/// Appends `f` when `on` holds.
pub fn push_flag(args: &mut Vec<String>, on: bool, f: &str)
    ensures
        strs(final(args)@) == strs(old(args)@) + flag(on, f@),
{
    if on {
        push_arg(args, f);
    }
    assert(strs(args@) =~= strs(old(args)@) + flag(on, f@));
}

/// `--bwlimit` and its value when a limit is set.
pub open spec fn bwlimit(limit: Option<String>) -> Seq<Seq<char>> {
    match limit {
        Some(b) => seq!["--bwlimit"@, b@],
        None => Seq::empty(),
    }
}

/// Appends `--bwlimit` and the limit when one is set.
pub fn push_bwlimit(args: &mut Vec<String>, limit: &Option<String>)
    ensures
        strs(final(args)@) == strs(old(args)@) + bwlimit(*limit),
{
    match limit {
        Some(b) => {
            push_arg(args, "--bwlimit");
            push_arg(args, b.as_str());
        },
        None => {},
    }
    assert(strs(args@) =~= strs(old(args)@) + bwlimit(*limit));
}

/// The lines of a text, as strings.
pub fn lines_of(s: &str) -> (r: Vec<Vec<char>>)
    ensures
        crate::text::views(r@) == crate::text::lines(s@),
{
    let v = crate::text::chars_of(s);
    crate::text::split_lines(&v)
}

} // verus!
