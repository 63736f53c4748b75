//! Listing a directory and measuring its size.
use vstd::prelude::*;
use crate::operations::{args_of, strs, FileInfo};
use crate::operations::json::{
    bool_field, field_bool, field_str, field_u64, opt_view, str_field, u64_field, Json,
};

verus! {

/// Arguments of `rclone lsjson`, which lists `remote_path` as a JSON array.
pub fn list_args(remote_path: &str) -> (r: Vec<String>)
    ensures
        strs(r@) == seq!["lsjson"@, remote_path@],
{
    let r = args_of(&["lsjson", remote_path]);
    assert(strs(r@) =~= seq!["lsjson"@, remote_path@]);
    r
}

/// A text field, or the empty text when it is missing or not a string.
pub open spec fn text_or_empty(o: Option<Seq<char>>) -> Seq<char> {
    match o {
        Some(s) => s,
        None => Seq::empty(),
    }
}

/// `f` is the entry that the `lsjson` item `item` describes: its `Name`,
/// `Path`, `Size`, `IsDir` and `ModTime`, with an empty name or path, size
/// 0, a file, and no time where a field is missing or of another type.
pub open spec fn file_from(f: FileInfo, item: Json) -> bool {
    &&& f.name@ == text_or_empty(field_str(item, "Name"@))
    &&& f.path@ == text_or_empty(field_str(item, "Path"@))
    &&& f.size == (match field_u64(item, "Size"@) {
        Some(n) => n,
        None => 0,
    })
    &&& f.is_dir == (match field_bool(item, "IsDir"@) {
        Some(b) => b,
        None => false,
    })
    &&& opt_view(f.modified) == field_str(item, "ModTime"@)
}

/// The entry an `lsjson` item describes (see [`file_from`]).
pub fn file_info_of(item: &Json) -> (r: FileInfo)
    ensures
        file_from(r, *item),
{
    let name = match str_field(item, "Name") {
        Some(s) => s,
        None => String::new(),
    };
    let path = match str_field(item, "Path") {
        Some(s) => s,
        None => String::new(),
    };
    let size = match u64_field(item, "Size") {
        Some(n) => n,
        None => 0,
    };
    let is_dir = match bool_field(item, "IsDir") {
        Some(b) => b,
        None => false,
    };
    let modified = str_field(item, "ModTime");
    FileInfo { name, path, size, is_dir, modified }
}

/// The entries of a directory from the items of its `lsjson` listing (the
/// answer to [`list_args`]), one per item, in order.
pub fn list(items: &Vec<Json>) -> (r: Vec<FileInfo>)
    ensures
        r@.len() == items@.len(),
        forall|i: int| 0 <= i < items@.len() ==> file_from(#[trigger] r@[i], items@[i]),
{
    let mut out: Vec<FileInfo> = Vec::new();
    let mut i: usize = 0;
    while i < items.len()
        invariant
            i <= items.len(),
            out@.len() == i,
            forall|k: int| 0 <= k < i ==> file_from(#[trigger] out@[k], items@[k]),
        decreases items.len() - i,
    {
        out.push(file_info_of(&items[i]));
        i += 1;
    }
    out
}

/// Arguments of `rclone size --json` for `path`.
pub fn size_args(path: &str) -> (r: Vec<String>)
    ensures
        strs(r@) == seq!["size"@, path@, "--json"@],
{
    let r = args_of(&["size", path, "--json"]);
    assert(strs(r@) =~= seq!["size"@, path@, "--json"@]);
    r
}

/// The total size in bytes and the number of files from the answer to
/// [`size_args`]: its `bytes` and `count` members, 0 where missing.
pub fn size(info: &Json) -> (r: (u64, u64))
    ensures
        r.0 == (match field_u64(*info, "bytes"@) {
            Some(n) => n,
            None => 0,
        }),
        r.1 == (match field_u64(*info, "count"@) {
            Some(n) => n,
            None => 0,
        }),
{
    let count = match u64_field(info, "count") {
        Some(n) => n,
        None => 0,
    };
    let bytes = match u64_field(info, "bytes") {
        Some(n) => n,
        None => 0,
    };
    (bytes, count)
}

/// Arguments of `rclone about --json` for `remote`.
pub fn about_args(remote: &str) -> (r: Vec<String>)
    ensures
        strs(r@) == seq!["about"@, remote@, "--json"@],
{
    let r = args_of(&["about", remote, "--json"]);
    assert(strs(r@) =~= seq!["about"@, remote@, "--json"@]);
    r
}

/// A figure of the answer to [`about_args`]: a member whose value is a
/// number, with the number when it is an unsigned 64-bit integer, or its
/// JSON text otherwise.
pub open spec fn about_entry(e: (String, Json)) -> Option<(Seq<char>, Result<u64, Seq<char>>)> {
    match e.1 {
        Json::Number { text, unsigned } => Some(
            (
                e.0@,
                match unsigned {
                    Some(n) => Ok(n),
                    None => Err(text@),
                },
            ),
        ),
        _ => None,
    }
}

pub open spec fn about_entry_fn() -> spec_fn((String, Json)) -> Option<
    (Seq<char>, Result<u64, Seq<char>>),
> {
    |e: (String, Json)| about_entry(e)
}

/// The texts of a list of figures.
pub open spec fn figures(v: Seq<(String, Result<u64, String>)>) -> Seq<
    (Seq<char>, Result<u64, Seq<char>>),
> {
    v.map_values(
        |f: (String, Result<u64, String>)|
            (
                f.0@,
                match f.1 {
                    Ok(n) => Ok(n),
                    Err(s) => Err(s@),
                },
            ),
    )
}

/// The space figures of a remote from the answer to [`about_args`]: every
/// member whose value is a number, in order (see [`about_entry`]); none
/// when the answer is not an object.
pub fn about_figures(info: &Json) -> (r: Vec<(String, Result<u64, String>)>)
    ensures
        figures(r@) == (match *info {
            Json::Object { entries, .. } => entries@.filter_map(about_entry_fn()),
            _ => Seq::empty(),
        }),
{
    let mut out: Vec<(String, Result<u64, String>)> = Vec::new();
    match info {
        Json::Object { entries, .. } => {
            let ghost f = about_entry_fn();
            let mut i: usize = 0;
            while i < entries.len()
                invariant
                    i <= entries.len(),
                    f == about_entry_fn(),
                    figures(out@) == entries@.take(i as int).filter_map(f),
                decreases entries.len() - i,
            {
                proof {
                    crate::text::lemma_filter_map_step(entries@, f, i as int);
                }
                match &entries[i].1 {
                    Json::Number { text, unsigned } => {
                        let figure = match unsigned {
                            Some(n) => Ok(*n),
                            None => Err(text.clone()),
                        };
                        let key = entries[i].0.clone();
                        let ghost before = out@;
                        out.push((key, figure));
                        assert(figures(out@) =~= figures(before).push(
                            about_entry(entries@[i as int]).unwrap(),
                        ));
                    },
                    _ => {},
                }
                i += 1;
            }
            proof {
                crate::text::lemma_take_all(entries@);
            }
        },
        _ => {},
    }
    out
}

} // verus!
