//! Locating and installing the rclone executable: the handle on an rclone
//! binary, and the rules that pick the release to download and the file to
//! take from its archive.
use vstd::prelude::*;
use std::io::Read;
use std::path::PathBuf;
use crate::operations::json::{field_str, str_field, Json};
use crate::text::{
    chars_of, chars_eq, concat, contains, contains_chars, ends_with, ends_with_chars, string_of,
    strip_start, strip_start_chars, trim, trim_chars,
};

verus! {

#[verifier::external_type_specification]
#[verifier::external_body]
pub struct ExPathBuf(PathBuf);

/// The rclone executable that commands are run with.
pub struct RcloneApp {
    rclone_path: PathBuf,
    using_system_rclone: bool,
}

impl RcloneApp {
    /// Where the executable is.
    pub closed spec fn path(&self) -> PathBuf {
        self.rclone_path
    }

    /// Whether it is the rclone found on the system search path (rather
    /// than one installed by this application).
    pub closed spec fn system(&self) -> bool {
        self.using_system_rclone
    }

    /// A handle on the executable at `rclone_path`.
    pub fn new_with_path(rclone_path: PathBuf, using_system_rclone: bool) -> (r: Self)
        ensures
            r.path() == rclone_path,
            r.system() == using_system_rclone,
    {
        RcloneApp { rclone_path, using_system_rclone }
    }

    pub fn get_rclone_path(&self) -> (r: &PathBuf)
        ensures
            *r == self.path(),
    {
        &self.rclone_path
    }

    pub fn is_using_system_rclone(&self) -> (r: bool)
        ensures
            r == self.system(),
    {
        self.using_system_rclone
    }

    pub fn set_rclone_path(&mut self, path: PathBuf)
        ensures
            final(self).path() == path,
            final(self).system() == old(self).system(),
    {
        self.rclone_path = path;
    }

    pub fn set_using_system_rclone(&mut self, value: bool)
        ensures
            final(self).system() == value,
            final(self).path() == old(self).path(),
    {
        self.using_system_rclone = value;
    }
}

/// A call that changes an rclone handle: `set_rclone_path` or
/// `set_using_system_rclone`, with its argument.
pub enum AppChange {
    Path(PathBuf),
    System(bool),
}

/// `b` is `a` after the change `c`: the property set takes the new value
/// and the other keeps its own.
pub open spec fn changed(a: RcloneApp, b: RcloneApp, c: AppChange) -> bool {
    match c {
        AppChange::Path(p) => b.path() == p && b.system() == a.system(),
        AppChange::System(s) => b.system() == s && b.path() == a.path(),
    }
}

/// The path set last among `cs`, or `p` when none sets one.
pub open spec fn last_path(p: PathBuf, cs: Seq<AppChange>) -> PathBuf
    decreases cs.len(),
{
    if cs.len() == 0 {
        p
    } else {
        match cs.last() {
            AppChange::Path(q) => q,
            AppChange::System(_) => last_path(p, cs.drop_last()),
        }
    }
}

/// The flag set last among `cs`, or `s` when none sets one.
pub open spec fn last_system(s: bool, cs: Seq<AppChange>) -> bool
    decreases cs.len(),
{
    if cs.len() == 0 {
        s
    } else {
        match cs.last() {
            AppChange::System(t) => t,
            AppChange::Path(_) => last_system(s, cs.drop_last()),
        }
    }
}

/// After any sequence of setter calls, the getters give back the path and
/// the flag set last, or those the handle was made with when none was set.
pub proof fn law_rclone_app_read_back(states: Seq<RcloneApp>, cs: Seq<AppChange>)
    requires
        states.len() == cs.len() + 1,
        forall|i: int| 0 <= i < cs.len() ==> #[trigger] changed(states[i], states[i + 1], cs[i]),
    ensures
        states.last().path() == last_path(states[0].path(), cs),
        states.last().system() == last_system(states[0].system(), cs),
    decreases cs.len(),
{
    if cs.len() > 0 {
        let n = cs.len() - 1;
        let st = states.take(n + 1);
        let cn = cs.take(n);
        assert forall|i: int| 0 <= i < cn.len() implies #[trigger] changed(st[i], st[i + 1], cn[i]) by {
            assert(changed(states[i], states[i + 1], cs[i]));
        }
        law_rclone_app_read_back(st, cn);
        assert(cs.drop_last() =~= cn);
        assert(changed(states[n], states[n + 1], cs[n]));
        assert(st.last() == states[n]);
    }
}

/// The address of the GitHub API that describes rclone's latest release.
pub const LATEST_RELEASE_API: &'static str = "https://api.github.com/repos/rclone/rclone/releases/latest";

/// The operating system's name in rclone's release file names, for a
/// Rust target OS name (`std::env::consts::OS`); none for an unsupported one.
pub open spec fn release_os_spec(os: Seq<char>) -> Option<Seq<char>> {
    if os == "linux"@ {
        Some("linux"@)
    } else if os == "macos"@ {
        Some("osx"@)
    } else if os == "windows"@ {
        Some("windows"@)
    } else {
        None
    }
}

/// The architecture's name in rclone's release file names, for a Rust
/// target architecture name (`std::env::consts::ARCH`); none for an
/// unsupported one.
pub open spec fn release_arch_spec(arch: Seq<char>) -> Option<Seq<char>> {
    if arch == "x86_64"@ {
        Some("amd64"@)
    } else if arch == "aarch64"@ {
        Some("arm64"@)
    } else if arch == "arm"@ {
        Some("arm"@)
    } else {
        None
    }
}

fn same_text(a: &str, b: &str) -> (r: bool)
    ensures
        r == (a@ == b@),
{
    chars_eq(&chars_of(a), &chars_of(b))
}

/// The release name of the operating system `os`.
pub fn release_os(os: &str) -> (r: Option<&'static str>)
    ensures
        match release_os_spec(os@) {
            Some(n) => r matches Some(x) && x@ == n,
            None => r is None,
        },
{
    if same_text(os, "linux") {
        Some("linux")
    } else if same_text(os, "macos") {
        Some("osx")
    } else if same_text(os, "windows") {
        Some("windows")
    } else {
        None
    }
}

/// The release name of the architecture `arch`.
pub fn release_arch(arch: &str) -> (r: Option<&'static str>)
    ensures
        match release_arch_spec(arch@) {
            Some(n) => r matches Some(x) && x@ == n,
            None => r is None,
        },
{
    if same_text(arch, "x86_64") {
        Some("amd64")
    } else if same_text(arch, "aarch64") {
        Some("arm64")
    } else if same_text(arch, "arm") {
        Some("arm")
    } else {
        None
    }
}

/// The version number of a release tag: the tag without its leading `v`s.
pub fn release_version(tag: &str) -> (r: String)
    ensures
        r@ == strip_start(tag@, 'v'),
{
    string_of(&strip_start_chars(&chars_of(tag), 'v'))
}

/// Where the zip archive of rclone `version` for `os` and `arch` is
/// published.
pub open spec fn download_url_spec(version: Seq<char>, os: Seq<char>, arch: Seq<char>) -> Seq<
    char,
> {
    "https://github.com/rclone/rclone/releases/download/v"@ + version + "/rclone-v"@ + version
        + "-"@ + os + "-"@ + arch + ".zip"@
}

pub fn download_url(version: &str, os: &str, arch: &str) -> (r: String)
    ensures
        r@ == download_url_spec(version@, os@, arch@),
{
    let v = chars_of(version);
    let mut u = chars_of("https://github.com/rclone/rclone/releases/download/v");
    u = concat(&u, &v);
    u = concat(&u, &chars_of("/rclone-v"));
    u = concat(&u, &v);
    u = concat(&u, &chars_of("-"));
    u = concat(&u, &chars_of(os));
    u = concat(&u, &chars_of("-"));
    u = concat(&u, &chars_of(arch));
    u = concat(&u, &chars_of(".zip"));
    string_of(&u)
}

/// An archive entry is the rclone executable when its name ends with
/// `rclone` or `rclone.exe`.
pub open spec fn is_rclone_binary_spec(name: Seq<char>) -> bool {
    ends_with(name, "rclone"@) || ends_with(name, "rclone.exe"@)
}

pub fn is_rclone_binary(name: &str) -> (r: bool)
    ensures
        r == is_rclone_binary_spec(name@),
{
    let n = chars_of(name);
    ends_with_chars(&n, &chars_of("rclone")) || ends_with_chars(&n, &chars_of("rclone.exe"))
}

/// The name of the executable file on the platform: `rclone.exe` on
/// Windows, `rclone` elsewhere.
pub fn binary_file_name(windows: bool) -> (r: &'static str)
    ensures
        r@ == (if windows {
            "rclone.exe"@
        } else {
            "rclone"@
        }),
{
    if windows {
        "rclone.exe"
    } else {
        "rclone"
    }
}

/// An rclone is recent enough unless its version report names release
/// 1.55.
pub open spec fn is_version_recent_spec(version_output: Seq<char>) -> bool {
    !contains(version_output, "rclone v1.55"@)
}

pub fn is_version_recent(version_output: &str) -> (r: bool)
    ensures
        r == is_version_recent_spec(version_output@),
{
    !contains_chars(&chars_of(version_output), &chars_of("rclone v1.55"))
}

/// What the status check reports: 0 when a usable, recent rclone is found
/// (the one on the search path first, then the application's own), 1 when
/// rclone must be installed or updated. Each argument is the version report
/// of that rclone when it exists and answered, none otherwise.
pub open spec fn rclone_status_spec(system: Option<Seq<char>>, local: Option<Seq<char>>) -> i32 {
    match system {
        Some(v) => if is_version_recent_spec(v) {
            0
        } else {
            1
        },
        None => match local {
            Some(v) => if is_version_recent_spec(v) {
                0
            } else {
                1
            },
            None => 1,
        },
    }
}

pub fn rclone_status(system: Option<&str>, local: Option<&str>) -> (r: i32)
    ensures
        r == rclone_status_spec(
            match system {
                Some(s) => Some(s@),
                None => None,
            },
            match local {
                Some(s) => Some(s@),
                None => None,
            },
        ),
{
    match system {
        Some(v) => if is_version_recent(v) {
            0
        } else {
            1
        },
        None => match local {
            Some(v) => if is_version_recent(v) {
                0
            } else {
                1
            },
            None => 1,
        },
    }
}

/// What a finished rclone command gives: its standard output when it
/// exited successfully, its error output otherwise.
pub fn command_result(success: bool, stdout: String, stderr: String) -> (r: Result<String, String>)
    ensures
        r == (if success {
            Ok::<String, String>(stdout)
        } else {
            Err::<String, String>(stderr)
        }),
{
    if success {
        Ok(stdout)
    } else {
        Err(stderr)
    }
}

/// Takes one line of a command's error output as it arrives: the line is
/// kept, followed by a line break, in `collected`, and what is shown of it
/// is the line without surrounding whitespace.
pub fn take_error_line(collected: &mut String, line: &str) -> (shown: String)
    ensures
        final(collected)@ == old(collected)@ + line@ + seq!['\n'],
        shown@ == trim(line@),
{
    let v = chars_of(line);
    let mut i: usize = 0;
    while i < v.len()
        invariant
            i <= v.len(),
            v@ == line@,
            collected@ == old(collected)@ + v@.take(i as int),
        decreases v.len() - i,
    {
        collected.push(v[i]);
        i += 1;
        assert(v@.take(i as int) =~= v@.take(i - 1).push(v@[i - 1]));
    }
    collected.push('\n');
    assert(v@.take(v.len() as int) =~= v@);
    string_of(&trim_chars(&v))
}

/// What a command whose error output was followed line by line gives: its
/// standard output on success; on failure the collected error output, or
/// the standard output when the error output holds nothing but whitespace.
pub fn streamed_command_result(success: bool, stdout: String, collected: String) -> (r: Result<
    String,
    String,
>)
    ensures
        r == (if success {
            Ok::<String, String>(stdout)
        } else if trim(collected@).len() == 0 {
            Err::<String, String>(stdout)
        } else {
            Err::<String, String>(collected)
        }),
{
    if success {
        Ok(stdout)
    } else if trim_chars(&chars_of(collected.as_str())).len() == 0 {
        Err(stdout)
    } else {
        Err(collected)
    }
}

/// The rclone to run with, when one is already there: the one on the
/// search path if there is one (`system`), else the application's own copy
/// at `local` if that file exists; none when rclone has to be installed.
pub fn locate_rclone(system: Option<PathBuf>, local: PathBuf, local_exists: bool) -> (r: Option<
    RcloneApp,
>)
    ensures
        match system {
            Some(p) => r matches Some(a) && a.path() == p && a.system(),
            None => if local_exists {
                r matches Some(a) && a.path() == local && !a.system()
            } else {
                r is None
            },
        },
{
    match system {
        Some(p) => Some(RcloneApp::new_with_path(p, true)),
        None => if local_exists {
            Some(RcloneApp::new_with_path(local, false))
        } else {
            None
        },
    }
}

// ---------------------------------------------------------------------------
// The release archive

/// The number of entries of the zip archive `archive`, as `zip` reads its
/// central directory; none when it is not a readable archive.
pub uninterp spec fn zip_count(archive: Seq<u8>) -> Option<nat>;

/// The name of the entry at `index` of the zip archive `archive`, as
/// `by_index_raw` gives it; none when the archive or that entry's header
/// cannot be read.
pub uninterp spec fn zip_name(archive: Seq<u8>, index: nat) -> Option<Seq<char>>;

/// The decompressed contents of the entry at `index` of the zip archive
/// `archive`, as `by_index_decrypt` with the empty password gives them;
/// none when they cannot be read.
pub uninterp spec fn zip_entry(archive: Seq<u8>, index: nat) -> Option<Seq<u8>>;

/// Calls `zip::ZipArchive::new` on the bytes and `len` on the archive: the
/// number of entries, named [`zip_count`]; the text of a failure is the
/// error's own and is not stated.
#[verifier::external_body]
fn zip_entry_count(archive: &[u8]) -> (r: Result<usize, String>)
    ensures
        r is Ok <==> zip_count(archive@) is Some,
        r matches Ok(n) ==> n == zip_count(archive@).unwrap(),
{
    match zip::ZipArchive::new(std::io::Cursor::new(archive)) {
        Ok(a) => Ok(a.len()),
        Err(e) => Err(e.to_string()),
    }
}

/// Calls `zip::ZipArchive::new`, then `by_index_raw(index)` (which builds
/// no decrypting or decompressing reader) and `name` on the entry: its name,
/// named [`zip_name`]; the text of a failure is not stated.
#[verifier::external_body]
fn zip_entry_name(archive: &[u8], index: usize) -> (r: Result<String, String>)
    ensures
        r is Ok <==> zip_name(archive@, index as nat) is Some,
        r matches Ok(s) ==> s@ == zip_name(archive@, index as nat).unwrap(),
{
    let mut a = match zip::ZipArchive::new(std::io::Cursor::new(archive)) {
        Ok(a) => a,
        Err(e) => return Err(e.to_string()),
    };
    let name = match a.by_index_raw(index) {
        Ok(file) => Ok(file.name().to_string()),
        Err(e) => Err(e.to_string()),
    };
    name
}

/// Calls `zip::ZipArchive::new`, then `by_index_decrypt(index, &[])` and
/// reads the entry to its end: its decompressed contents, named
/// [`zip_entry`]. For an entry not marked as encrypted the empty password is
/// dropped by `zip`, and an entry that would still need one (an AES field
/// without the flag) comes back as an invalid password, which is a failure
/// here; the text of a failure is not stated.
#[verifier::external_body]
fn zip_entry_bytes(archive: &[u8], index: usize) -> (r: Result<Vec<u8>, String>)
    ensures
        r is Ok <==> zip_entry(archive@, index as nat) is Some,
        r matches Ok(v) ==> v@ == zip_entry(archive@, index as nat).unwrap(),
{
    let mut a = match zip::ZipArchive::new(std::io::Cursor::new(archive)) {
        Ok(a) => a,
        Err(e) => return Err(e.to_string()),
    };
    let mut file = match a.by_index_decrypt(index, &[]) {
        Ok(Ok(f)) => f,
        Ok(Err(e)) => return Err(e.to_string()),
        Err(e) => return Err(e.to_string()),
    };
    let mut contents = Vec::new();
    match file.read_to_end(&mut contents) {
        Ok(_) => Ok(contents),
        Err(e) => Err(e.to_string()),
    }
}

/// Going through the entries `i..n` of an archive in order: none when a
/// name cannot be read before the executable is found; otherwise the
/// position of the first entry that is the rclone executable, or none such.
pub open spec fn scan_for_binary(archive: Seq<u8>, i: nat, n: nat) -> Option<Option<nat>>
    decreases n - i,
{
    if i >= n {
        Some(None)
    } else {
        match zip_name(archive, i) {
            None => None,
            Some(name) => if is_rclone_binary_spec(name) {
                Some(Some(i))
            } else {
                scan_for_binary(archive, i + 1, n)
            },
        }
    }
}

/// The message given when the archive holds no rclone executable.
pub open spec fn no_binary_message() -> Seq<char> {
    "Не удалось найти исполняемый файл rclone в архиве"@
}

/// The contents of the rclone executable in a downloaded release archive:
/// the entries are looked at in order, and the first whose name is that of
/// the executable (see [`is_rclone_binary_spec`]) is read; an archive,
/// name or contents that cannot be read is a failure, and so is an archive
/// without the executable.
pub fn rclone_binary_from_archive(archive: &[u8]) -> (r: Result<Vec<u8>, String>)
    ensures
        match zip_count(archive@) {
            None => r is Err,
            Some(n) => match scan_for_binary(archive@, 0, n) {
                None => r is Err,
                Some(None) => r matches Err(e) && e@ == no_binary_message(),
                Some(Some(i)) => match zip_entry(archive@, i) {
                    Some(b) => r matches Ok(v) && v@ == b,
                    None => r is Err,
                },
            },
        },
{
    let n = match zip_entry_count(archive) {
        Ok(n) => n,
        Err(e) => {
            return Err(e);
        },
    };
    let mut i: usize = 0;
    while i < n
        invariant
            i <= n,
            zip_count(archive@) == Some(n as nat),
            scan_for_binary(archive@, 0, n as nat) == scan_for_binary(archive@, i as nat, n as nat),
        decreases n - i,
    {
        let name = match zip_entry_name(archive, i) {
            Ok(s) => s,
            Err(e) => {
                return Err(e);
            },
        };
        if is_rclone_binary(name.as_str()) {
            return zip_entry_bytes(archive, i);
        }
        i += 1;
    }
    Err("Не удалось найти исполняемый файл rclone в архиве".to_owned())
}

/// The version number of the latest release from GitHub's description of
/// it: its `tag_name` string without leading `v`s; a failure when there is
/// no such string.
pub fn release_tag(release: &Json) -> (r: Result<String, String>)
    ensures
        match field_str(*release, "tag_name"@) {
            Some(t) => r matches Ok(v) && v@ == strip_start(t, 'v'),
            None => r matches Err(e) && e@ == "Не удалось получить версию"@,
        },
{
    match str_field(release, "tag_name") {
        Some(t) => Ok(release_version(t.as_str())),
        None => Err("Не удалось получить версию".to_owned()),
    }
}

} // verus!
