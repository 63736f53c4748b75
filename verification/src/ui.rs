//! The state of the file-manager window and the rules by which it changes:
//! navigation with back/forward history, selection, the transfer dialog,
//! the list of running operations, and the effect of each background
//! result. Drawing and the background threads live outside this module;
//! they call these methods and carry out the jobs they hand back.
use vstd::prelude::*;
use std::sync::Arc;
use crate::operations::{FileInfo, Remote};
use crate::operations::remotes::{ConfigQuestion, ConfigStep};
use crate::rclone_install::RcloneApp;
use crate::text::{
    chars_eq, chars_of, concat, contains, contains_chars, ends_with, ends_with_chars, push_dec,
    dec, string_of, trim, trim_chars,
};

verus! {

/// Where the application is in its start-up.
#[derive(Clone, PartialEq)]
pub enum AppState {
    Initializing,
    Ready,
    Error(String),
}

/// Which kind of destination the transfer dialog asks for.
#[derive(Debug, PartialEq, Eq, Clone, Copy, Structural)]
pub enum TransferTab {
    Remote,
    Local,
}

/// User preferences.
#[derive(Clone, Default)]
pub struct AppSettings {
    pub show_hidden: bool,
    pub bandwidth_limit: Option<String>,
}

/// How far an operation has come: `done` of `total` steps.
#[derive(Clone, Copy, Debug)]
pub struct Progress {
    pub done: u32,
    pub total: u32,
}

/// Where the dialog that adds a remote stands.
pub enum AddRemoteStep {
    /// Asking for the new remote's name and backend.
    Form,
    /// Showing a question rclone asked.
    Question(ConfigQuestion),
    /// Waiting for rclone.
    Busy,
}

impl AddRemoteStep {
    /// Whether rclone is being waited for.
    pub fn is_busy(&self) -> (r: bool)
        ensures
            r == self is Busy,
    {
        match self {
            AddRemoteStep::Busy => true,
            _ => false,
        }
    }
}

/// A running operation shown in the task list.
pub struct Operation {
    pub id: u32,
    pub description: String,
    pub progress: Progress,
    pub status: String,
}

/// What a background job reports back.
pub enum OperationResult {
    /// The operation finished.
    Success(u32, String),
    /// The operation failed with the given message.
    Failure(u32, String),
    /// The listing of the current directory.
    FileList(Vec<FileInfo>),
    /// The configured remotes.
    RemoteList(Vec<Remote>),
    /// An operation advanced, with a new status line.
    ProgressUpdate(u32, Progress, String),
    /// A remote was added; the configured remotes are now these.
    RemoteAdded(u32, Vec<Remote>),
    /// Setting up a remote needs an answer: the state to continue from and
    /// the question.
    ConfigQuestion(u32, String, ConfigQuestion),
}

/// The window's state.
pub struct RcloneUI {
    pub rclone: Option<Arc<RcloneApp>>,
    pub state: AppState,
    pub error_message: Option<String>,
    pub current_path: String,
    pub history_back: Vec<String>,
    pub history_forward: Vec<String>,
    pub remote_list: Vec<Remote>,
    pub current_files: Vec<FileInfo>,
    pub selected_paths: Vec<String>,
    pub transfer_source_info: Vec<(String, bool)>,
    pub transfer_dest: String,
    pub active_transfer_tab: TransferTab,
    pub show_transfer_dialog: bool,
    pub show_local_browser: bool,
    pub local_browser_path: String,
    pub local_browser_files: Vec<FileInfo>,
    pub is_move_mode: bool,
    pub settings: AppSettings,
    pub show_add_remote_dialog: bool,
    pub new_remote_name: String,
    pub new_remote_type: String,
    pub add_remote_step: AddRemoteStep,
    pub add_remote_state: Option<String>,
    pub add_remote_answer: String,
    pub add_remote_status: String,
    pub active_task_count: u32,
    pub pending_load_path: Option<String>,
    pub active_operations: Vec<Operation>,
    pub next_op_id: u32,
}

// ---------------------------------------------------------------------------
// Groups of fields, to say what a method leaves alone.

pub open spec fn same_session(a: RcloneUI, b: RcloneUI) -> bool {
    &&& a.rclone == b.rclone
    &&& a.state == b.state
    &&& a.error_message == b.error_message
    &&& a.remote_list == b.remote_list
}

pub open spec fn same_nav(a: RcloneUI, b: RcloneUI) -> bool {
    &&& a.current_path == b.current_path
    &&& a.history_back == b.history_back
    &&& a.history_forward == b.history_forward
    &&& a.pending_load_path == b.pending_load_path
}

pub open spec fn same_listing(a: RcloneUI, b: RcloneUI) -> bool {
    &&& a.current_files == b.current_files
    &&& a.selected_paths == b.selected_paths
}

pub open spec fn same_transfer(a: RcloneUI, b: RcloneUI) -> bool {
    &&& a.transfer_source_info == b.transfer_source_info
    &&& a.transfer_dest == b.transfer_dest
    &&& a.active_transfer_tab == b.active_transfer_tab
    &&& a.show_transfer_dialog == b.show_transfer_dialog
    &&& a.is_move_mode == b.is_move_mode
}

pub open spec fn same_local(a: RcloneUI, b: RcloneUI) -> bool {
    &&& a.show_local_browser == b.show_local_browser
    &&& a.local_browser_path == b.local_browser_path
    &&& a.local_browser_files == b.local_browser_files
    &&& a.settings == b.settings
}

pub open spec fn same_add_remote(a: RcloneUI, b: RcloneUI) -> bool {
    &&& a.show_add_remote_dialog == b.show_add_remote_dialog
    &&& a.new_remote_name == b.new_remote_name
    &&& a.new_remote_type == b.new_remote_type
    &&& a.add_remote_step == b.add_remote_step
    &&& a.add_remote_state == b.add_remote_state
    &&& a.add_remote_answer == b.add_remote_answer
    &&& a.add_remote_status == b.add_remote_status
}

pub open spec fn same_tasks(a: RcloneUI, b: RcloneUI) -> bool {
    &&& a.active_task_count == b.active_task_count
    &&& a.active_operations == b.active_operations
    &&& a.next_op_id == b.next_op_id
}

/// The identifiers of the listed operations increase strictly from first
/// to last and are all below the next identifier to hand out.
pub open spec fn ops_wf(ops: Seq<Operation>, next: u32) -> bool {
    &&& forall|i: int, j: int| 0 <= i < j < ops.len() ==> ops[i].id < ops[j].id
    &&& forall|i: int| 0 <= i < ops.len() ==> ops[i].id < next
}

impl RcloneUI {
    /// The state's well-formedness: see [`ops_wf`].
    pub open spec fn wf(&self) -> bool {
        ops_wf(self.active_operations@, self.next_op_id)
    }

    /// The state at start-up: no rclone yet, nothing listed, nothing
    /// selected, the local browser at `local_browser_path`, the first
    /// operation to be numbered 1.
    pub fn new(local_browser_path: String) -> (r: Self)
        ensures
            r.wf(),
            r.rclone is None,
            r.state == AppState::Initializing,
            r.error_message is None,
            r.current_path@.len() == 0,
            r.history_back@.len() == 0,
            r.history_forward@.len() == 0,
            r.remote_list@.len() == 0,
            r.current_files@.len() == 0,
            r.selected_paths@.len() == 0,
            r.transfer_source_info@.len() == 0,
            r.transfer_dest@.len() == 0,
            r.active_transfer_tab == TransferTab::Remote,
            !r.show_transfer_dialog,
            !r.show_local_browser,
            r.local_browser_path == local_browser_path,
            r.local_browser_files@.len() == 0,
            !r.is_move_mode,
            !r.settings.show_hidden,
            r.settings.bandwidth_limit is None,
            !r.show_add_remote_dialog,
            r.new_remote_name@.len() == 0,
            r.new_remote_type@ == "drive"@,
            r.add_remote_step is Form,
            r.add_remote_state is None,
            r.add_remote_answer@.len() == 0,
            r.add_remote_status@.len() == 0,
            r.active_task_count == 0,
            r.pending_load_path is None,
            r.active_operations@.len() == 0,
            r.next_op_id == 1,
    {
        RcloneUI {
            rclone: None,
            state: AppState::Initializing,
            error_message: None,
            current_path: String::new(),
            history_back: Vec::new(),
            history_forward: Vec::new(),
            remote_list: Vec::new(),
            current_files: Vec::new(),
            selected_paths: Vec::new(),
            transfer_source_info: Vec::new(),
            transfer_dest: String::new(),
            active_transfer_tab: TransferTab::Remote,
            show_transfer_dialog: false,
            show_local_browser: false,
            local_browser_path,
            local_browser_files: Vec::new(),
            is_move_mode: false,
            settings: AppSettings { show_hidden: false, bandwidth_limit: None },
            show_add_remote_dialog: false,
            new_remote_name: String::new(),
            new_remote_type: "drive".to_owned(),
            add_remote_step: AddRemoteStep::Form,
            add_remote_state: None,
            add_remote_answer: String::new(),
            add_remote_status: String::new(),
            active_task_count: 0,
            pending_load_path: None,
            active_operations: Vec::new(),
            next_op_id: 1,
        }
    }
}

// ---------------------------------------------------------------------------
// Navigation

/// `b` is `a` after asking to open `p`: nothing changes when `p` is already
/// the current path; otherwise the current path (when there is one) goes on
/// the back history, the forward history is dropped, and `p` is to be
/// loaded.
pub open spec fn navigated(a: RcloneUI, b: RcloneUI, p: Seq<char>) -> bool {
    if a.current_path@ == p {
        b == a
    } else {
        &&& b.history_back@ == (if a.current_path@.len() > 0 {
            a.history_back@.push(a.current_path)
        } else {
            a.history_back@
        })
        &&& b.history_forward@.len() == 0
        &&& b.pending_load_path matches Some(s) && s@ == p
        &&& b.current_path == a.current_path
        &&& same_session(a, b) && same_listing(a, b) && same_transfer(a, b)
        &&& same_local(a, b) && same_add_remote(a, b) && same_tasks(a, b)
    }
}

/// `b` is `a` after going back: with a back history, its last entry is
/// taken off and is to be loaded, and the current path goes on the forward
/// history; without one nothing changes.
pub open spec fn went_back(a: RcloneUI, b: RcloneUI) -> bool {
    if a.history_back@.len() > 0 {
        &&& b.history_back@ == a.history_back@.drop_last()
        &&& b.history_forward@ == a.history_forward@.push(a.current_path)
        &&& b.pending_load_path == Some(a.history_back@.last())
        &&& b.current_path == a.current_path
        &&& same_session(a, b) && same_listing(a, b) && same_transfer(a, b)
        &&& same_local(a, b) && same_add_remote(a, b) && same_tasks(a, b)
    } else {
        b == a
    }
}

/// `b` is `a` after going forward: the mirror image of [`went_back`].
pub open spec fn went_forward(a: RcloneUI, b: RcloneUI) -> bool {
    if a.history_forward@.len() > 0 {
        &&& b.history_forward@ == a.history_forward@.drop_last()
        &&& b.history_back@ == a.history_back@.push(a.current_path)
        &&& b.pending_load_path == Some(a.history_forward@.last())
        &&& b.current_path == a.current_path
        &&& same_session(a, b) && same_listing(a, b) && same_transfer(a, b)
        &&& same_local(a, b) && same_add_remote(a, b) && same_tasks(a, b)
    } else {
        b == a
    }
}

/// `b` is `a` after the pending path was opened: it becomes the current
/// path, the selection is cleared, and a listing is started (one more task)
/// when rclone is available; without a pending path nothing changes.
pub open spec fn applied_load(a: RcloneUI, b: RcloneUI) -> bool {
    match a.pending_load_path {
        Some(p) => {
            &&& b.current_path == p
            &&& b.pending_load_path is None
            &&& b.selected_paths@.len() == 0
            &&& b.history_back == a.history_back
            &&& b.history_forward == a.history_forward
            &&& b.current_files == a.current_files
            &&& b.active_task_count == (if a.rclone is Some {
                a.active_task_count + 1
            } else {
                a.active_task_count as int
            })
            &&& b.active_operations == a.active_operations
            &&& b.next_op_id == a.next_op_id
            &&& same_session(a, b) && same_transfer(a, b) && same_local(a, b)
            &&& same_add_remote(a, b)
        },
        None => b == a,
    }
}

/// The top of the remote `name`: the path `name:`.
pub fn remote_root(name: &str) -> (r: String)
    ensures
        r@ == name@ + ":"@,
{
    string_of(&concat(&chars_of(name), &chars_of(":")))
}

impl RcloneUI {
    /// Asks to open `new_path` (see [`navigated`]).
    pub fn navigate_to(&mut self, new_path: String)
        ensures
            navigated(*old(self), *final(self), new_path@),
            old(self).current_path@ != new_path@ ==> final(self).pending_load_path == Some(
                new_path,
            ),
    {
        if self.current_path == new_path {
            return;
        }
        if !self.current_path.as_str().is_empty() {
            self.history_back.push(self.current_path.clone());
        }
        self.history_forward.clear();
        self.pending_load_path = Some(new_path);
    }

    /// Goes back in the history (see [`went_back`]).
    pub fn go_back(&mut self)
        ensures
            went_back(*old(self), *final(self)),
    {
        if self.history_back.len() > 0 {
            if let Some(prev) = self.history_back.pop() {
                self.history_forward.push(self.current_path.clone());
                self.pending_load_path = Some(prev);
            }
        }
    }

    /// Goes forward in the history (see [`went_forward`]).
    pub fn go_forward(&mut self)
        ensures
            went_forward(*old(self), *final(self)),
    {
        if self.history_forward.len() > 0 {
            if let Some(next) = self.history_forward.pop() {
                self.history_back.push(self.current_path.clone());
                self.pending_load_path = Some(next);
            }
        }
    }

    /// Opens the pending path, if any (see [`applied_load`]), and hands back
    /// the rclone handle and the path to list when a listing is to start.
    pub fn apply_pending_load(&mut self) -> (r: Option<(Arc<RcloneApp>, String)>)
        requires
            old(self).pending_load_path is Some && old(self).rclone is Some ==> old(self).active_task_count
                < u32::MAX,
        ensures
            applied_load(*old(self), *final(self)),
            r is Some <==> (old(self).pending_load_path is Some && old(self).rclone is Some),
            r matches Some((a, p)) ==> Some(a) == old(self).rclone && p@ == final(self).current_path@,
    {
        match self.pending_load_path.take() {
            Some(path) => {
                self.current_path = path;
                self.selected_paths.clear();
                match self.load_files() {
                    Some(rclone) => Some((rclone, self.current_path.clone())),
                    None => None,
                }
            },
            None => None,
        }
    }

    /// Starts listing the current path when rclone is available: counts one
    /// more running task and hands back the rclone handle to list with.
    pub fn load_files(&mut self) -> (r: Option<Arc<RcloneApp>>)
        requires
            old(self).rclone is Some ==> old(self).active_task_count < u32::MAX,
        ensures
            r == old(self).rclone,
            final(self).active_task_count == (if old(self).rclone is Some {
                old(self).active_task_count + 1
            } else {
                old(self).active_task_count as int
            }),
            final(self).rclone == old(self).rclone,
            final(self).state == old(self).state,
            final(self).error_message == old(self).error_message,
            final(self).remote_list == old(self).remote_list,
            same_nav(*old(self), *final(self)),
            same_listing(*old(self), *final(self)),
            same_transfer(*old(self), *final(self)),
            same_local(*old(self), *final(self)),
            same_add_remote(*old(self), *final(self)),
            final(self).active_operations == old(self).active_operations,
            final(self).next_op_id == old(self).next_op_id,
    {
        match &self.rclone {
            Some(a) => {
                let rclone = a.clone();
                self.active_task_count = self.active_task_count + 1;
                Some(rclone)
            },
            None => None,
        }
    }

    /// Starts loading the list of remotes when rclone is available, as
    /// [`RcloneUI::load_files`] does for a listing.
    pub fn load_remotes(&mut self) -> (r: Option<Arc<RcloneApp>>)
        requires
            old(self).rclone is Some ==> old(self).active_task_count < u32::MAX,
        ensures
            r == old(self).rclone,
            final(self).active_task_count == (if old(self).rclone is Some {
                old(self).active_task_count + 1
            } else {
                old(self).active_task_count as int
            }),
            final(self).rclone == old(self).rclone,
            final(self).state == old(self).state,
            final(self).error_message == old(self).error_message,
            final(self).remote_list == old(self).remote_list,
            same_nav(*old(self), *final(self)),
            same_listing(*old(self), *final(self)),
            same_transfer(*old(self), *final(self)),
            same_local(*old(self), *final(self)),
            same_add_remote(*old(self), *final(self)),
            final(self).active_operations == old(self).active_operations,
            final(self).next_op_id == old(self).next_op_id,
    {
        self.load_files()
    }

    /// Takes the outcome of locating rclone at start-up. On success rclone
    /// is kept, the application is ready, and loading the remotes starts
    /// (its handle is handed back); on failure the message is shown and the
    /// application is in error.
    pub fn on_rclone_ready(&mut self, res: Result<Arc<RcloneApp>, String>) -> (r: Option<
        Arc<RcloneApp>,
    >)
        requires
            res is Ok ==> old(self).active_task_count < u32::MAX,
        ensures
            match res {
                Ok(a) => {
                    &&& final(self).rclone == Some(a)
                    &&& final(self).state == AppState::Ready
                    &&& r == Some(a)
                    &&& final(self).active_task_count == old(self).active_task_count + 1
                    &&& final(self).error_message == old(self).error_message
                },
                Err(e) => {
                    &&& final(self).rclone == old(self).rclone
                    &&& final(self).state == AppState::Error(e)
                    &&& final(self).error_message == Some(e)
                    &&& r is None
                    &&& final(self).active_task_count == old(self).active_task_count
                },
            },
            final(self).remote_list == old(self).remote_list,
            same_nav(*old(self), *final(self)),
            same_listing(*old(self), *final(self)),
            same_transfer(*old(self), *final(self)),
            same_local(*old(self), *final(self)),
            same_add_remote(*old(self), *final(self)),
            final(self).active_operations == old(self).active_operations,
            final(self).next_op_id == old(self).next_op_id,
    {
        match res {
            Ok(rclone) => {
                self.rclone = Some(rclone);
                let r = self.load_remotes();
                self.state = AppState::Ready;
                r
            },
            Err(e) => {
                self.error_message = Some(e.clone());
                self.state = AppState::Error(e);
                None
            },
        }
    }

    /// Opens the top of the remote `name`, the path `name:`.
    pub fn open_remote(&mut self, name: &str)
        ensures
            navigated(*old(self), *final(self), name@ + ":"@),
    {
        self.navigate_to(remote_root(name));
    }

    /// Asks to reload the current path.
    pub fn request_refresh(&mut self)
        ensures
            final(self).pending_load_path == Some(old(self).current_path),
            final(self).current_path == old(self).current_path,
            final(self).history_back == old(self).history_back,
            final(self).history_forward == old(self).history_forward,
            same_session(*old(self), *final(self)),
            same_listing(*old(self), *final(self)),
            same_transfer(*old(self), *final(self)),
            same_local(*old(self), *final(self)),
            same_add_remote(*old(self), *final(self)),
            same_tasks(*old(self), *final(self)),
    {
        self.pending_load_path = Some(self.current_path.clone());
    }
}

/// Going back and then forward again, each time opening the path asked
/// for, returns to the same place with the same history.
pub proof fn law_back_then_forward(s0: RcloneUI, s1: RcloneUI, s2: RcloneUI, s3: RcloneUI, s4: RcloneUI)
    requires
        s0.history_back@.len() > 0,
        went_back(s0, s1),
        applied_load(s1, s2),
        went_forward(s2, s3),
        applied_load(s3, s4),
    ensures
        s4.current_path == s0.current_path,
        s4.history_back@ == s0.history_back@,
        s4.history_forward@ == s0.history_forward@,
        s4.pending_load_path is None,
{
    assert(s2.history_back@.push(s2.current_path) =~= s0.history_back@);
    assert(s3.history_forward@ =~= s0.history_forward@);
}

/// Opening a new path and then going back returns to the path that was
/// open, restores the back history, and leaves the new path as the only
/// forward entry.
pub proof fn law_navigate_then_back(s0: RcloneUI, p: Seq<char>, s1: RcloneUI, s2: RcloneUI, s3: RcloneUI, s4: RcloneUI)
    requires
        s0.current_path@.len() > 0,
        s0.current_path@ != p,
        navigated(s0, s1, p),
        applied_load(s1, s2),
        went_back(s2, s3),
        applied_load(s3, s4),
    ensures
        s4.current_path == s0.current_path,
        s4.history_back@ == s0.history_back@,
        s4.history_forward@.len() == 1,
        s4.history_forward@[0]@ == p,
        s4.pending_load_path is None,
{
    assert(s2.history_back@.drop_last() =~= s0.history_back@);
}

} // verus!

verus! {

// ---------------------------------------------------------------------------
// Paths, selection and the transfer dialog

/// Asks the platform whether `path` is absolute; the answer differs
/// between platforms, so nothing is promised of it.
#[verifier::external_body]
fn path_is_absolute(path: &str) -> bool {
    std::path::Path::new(path).is_absolute()
}

/// Whether the transfer destination is acceptable: it is not empty, and it
/// names a remote (holds a colon) on the cloud tab, or on the local tab it
/// holds no colon or is an absolute path.
pub open spec fn path_valid(s: RcloneUI, dest_is_absolute: bool) -> bool {
    &&& s.transfer_dest@.len() > 0
    &&& match s.active_transfer_tab {
        TransferTab::Remote => contains(s.transfer_dest@, ":"@),
        TransferTab::Local => !contains(s.transfer_dest@, ":"@) || dest_is_absolute,
    }
}

/// The parent of a browsed path: the text before its last `/`; at the top
/// of a remote (no `/`), the remote itself (`name:`).
pub open spec fn parent_path_spec(p: Seq<char>) -> Option<Seq<char>> {
    match crate::text::rsplit_once(p, '/') {
        Some((a, _)) => Some(a),
        None => match crate::text::rsplit_once(p, ':') {
            Some((a, _)) => Some(a + ":"@),
            None => None,
        },
    }
}

/// The parent of `p`.
pub fn parent_path(p: &str) -> (r: Option<String>)
    ensures
        match parent_path_spec(p@) {
            Some(q) => r matches Some(s) && s@ == q,
            None => r is None,
        },
{
    let v = chars_of(p);
    match crate::text::rsplit_once_chars(&v, '/') {
        Some((a, _)) => Some(string_of(&a)),
        None => match crate::text::rsplit_once_chars(&v, ':') {
            Some((a, _)) => Some(string_of(&concat(&a, &chars_of(":")))),
            None => None,
        },
    }
}

/// The full path of the entry `name` in the directory `dir`: appended
/// directly after a remote's colon, after a `/` otherwise.
pub open spec fn entry_path_spec(dir: Seq<char>, name: Seq<char>) -> Seq<char> {
    if ends_with(dir, ":"@) {
        dir + name
    } else {
        dir + "/"@ + name
    }
}

/// Whether the entry at `full` is a directory, by the first listed entry
/// whose full path it is; an unlisted path counts as a file.
pub open spec fn dir_of(files: Seq<FileInfo>, dir: Seq<char>, full: Seq<char>) -> bool
    decreases files.len(),
{
    if files.len() == 0 {
        false
    } else if entry_path_spec(dir, files[0].name@) == full {
        files[0].is_dir
    } else {
        dir_of(files.drop_first(), dir, full)
    }
}

/// The selected paths with, for each, whether it is a directory.
pub open spec fn selected_info_spec(s: RcloneUI) -> Seq<(Seq<char>, bool)> {
    s.selected_paths@.map_values(
        |p: String| (p@, dir_of(s.current_files@, s.current_path@, p@)),
    )
}

/// The texts of a list of paths with flags.
pub open spec fn infos(v: Seq<(String, bool)>) -> Seq<(Seq<char>, bool)> {
    v.map_values(|x: (String, bool)| (x.0@, x.1))
}

/// Keeps every text but `full`.
pub open spec fn unselect(full: Seq<char>) -> spec_fn(Seq<char>) -> Option<Seq<char>> {
    |x: Seq<char>| if x == full { None } else { Some(x) }
}

/// `b` is `a` with `full` selected, or unselected when it already was.
pub open spec fn toggled(a: RcloneUI, b: RcloneUI, full: Seq<char>) -> bool {
    &&& if crate::operations::strs(a.selected_paths@).contains(full) {
        crate::operations::strs(b.selected_paths@) == crate::operations::strs(
            a.selected_paths@,
        ).filter_map(unselect(full))
    } else {
        crate::operations::strs(b.selected_paths@) == crate::operations::strs(
            a.selected_paths@,
        ).push(full)
    }
    &&& b.current_files == a.current_files
    &&& same_session(a, b) && same_nav(a, b) && same_transfer(a, b)
    &&& same_local(a, b) && same_add_remote(a, b) && same_tasks(a, b)
}

/// Dropping every occurrence of a text that does not occur changes nothing.
proof fn lemma_drop_absent(s: Seq<Seq<char>>, full: Seq<char>)
    requires
        !s.contains(full),
    ensures
        s.filter_map(unselect(full)) == s,
    decreases s.len(),
{
    let f = unselect(full);
    if s.len() > 0 {
        let t = s.drop_last();
        assert(!t.contains(full)) by {
            if t.contains(full) {
                let k = choose|k: int| 0 <= k < t.len() && t[k] == full;
                assert(s[k] == full);
            }
        }
        lemma_drop_absent(t, full);
        assert(s.last() != full) by {
            assert(s[s.len() - 1] == s.last());
        }
        assert(t.push(s.last()) =~= s);
    } else {
        assert(s.filter_map(f) =~= s);
    }
}

/// Selecting an entry that was not selected and then toggling it again
/// gives back the selection as it was.
pub proof fn law_toggle_twice(a: RcloneUI, b: RcloneUI, c: RcloneUI, full: Seq<char>)
    requires
        !crate::operations::strs(a.selected_paths@).contains(full),
        toggled(a, b, full),
        toggled(b, c, full),
    ensures
        crate::operations::strs(c.selected_paths@) == crate::operations::strs(a.selected_paths@),
{
    let sa = crate::operations::strs(a.selected_paths@);
    let sb = crate::operations::strs(b.selected_paths@);
    let f = unselect(full);
    assert(sb == sa.push(full));
    assert(sb[sa.len() as int] == full);
    assert(sb.contains(full));
    assert(sb.drop_last() =~= sa);
    assert(sb.last() == full);
    lemma_drop_absent(sa, full);
    assert(sb.filter_map(f) == sb.drop_last().filter_map(f));
    assert(crate::operations::strs(c.selected_paths@) == sb.filter_map(f));
}

impl RcloneUI {
    /// Whether the transfer destination is acceptable (see [`path_valid`]),
    /// with the platform's own answer to whether it is absolute.
    pub fn is_path_valid(&self) -> (r: bool)
        ensures
            r == path_valid(*self, false) || r == path_valid(*self, true),
            (self.active_transfer_tab == TransferTab::Remote || !contains(
                self.transfer_dest@,
                ":"@,
            )) ==> r == path_valid(*self, false),
    {
        if self.transfer_dest.as_str().is_empty() {
            return false;
        }
        let has_colon = contains_chars(&chars_of(self.transfer_dest.as_str()), &chars_of(":"));
        match self.active_transfer_tab {
            TransferTab::Remote => has_colon,
            TransferTab::Local => !has_colon || path_is_absolute(self.transfer_dest.as_str()),
        }
    }

    /// Whether the transfer destination is acceptable, given whether it is
    /// an absolute path.
    pub fn is_path_valid_with(&self, dest_is_absolute: bool) -> (r: bool)
        ensures
            r == path_valid(*self, dest_is_absolute),
    {
        if self.transfer_dest.as_str().is_empty() {
            return false;
        }
        let has_colon = contains_chars(&chars_of(self.transfer_dest.as_str()), &chars_of(":"));
        match self.active_transfer_tab {
            TransferTab::Remote => has_colon,
            TransferTab::Local => !has_colon || dest_is_absolute,
        }
    }

    /// Opens the parent of the current path, if it has one.
    pub fn go_up(&mut self)
        ensures
            match parent_path_spec(old(self).current_path@) {
                Some(q) => navigated(*old(self), *final(self), q),
                None => *final(self) == *old(self),
            },
    {
        match parent_path(self.current_path.as_str()) {
            Some(p) => self.navigate_to(p),
            None => {},
        }
    }

    /// The full path of the entry `name` of the current directory.
    pub fn entry_path(&self, name: &str) -> (r: String)
        ensures
            r@ == entry_path_spec(self.current_path@, name@),
    {
        let dir = chars_of(self.current_path.as_str());
        let n = chars_of(name);
        if ends_with_chars(&dir, &chars_of(":")) {
            string_of(&concat(&dir, &n))
        } else {
            let with_slash = concat(&dir, &chars_of("/"));
            let r = string_of(&concat(&with_slash, &n));
            assert(r@ =~= entry_path_spec(self.current_path@, name@));
            r
        }
    }

    /// Selects `full`, or unselects it when it is selected.
    pub fn toggle_selection(&mut self, full: String)
        ensures
            toggled(*old(self), *final(self), full@),
    {
        let ghost sel = crate::operations::strs(self.selected_paths@);
        let ghost f = unselect(full@);
        let mut found = false;
        let mut kept: Vec<String> = Vec::new();
        let mut i: usize = 0;
        while i < self.selected_paths.len()
            invariant
                i <= self.selected_paths.len(),
                sel == crate::operations::strs(self.selected_paths@),
                f == unselect(full@),
                found == sel.take(i as int).contains(full@),
                crate::operations::strs(kept@) == sel.take(i as int).filter_map(f),
            decreases self.selected_paths.len() - i,
        {
            proof {
                crate::text::lemma_filter_map_step(sel, f, i as int);
                assert(sel.take(i + 1) =~= sel.take(i as int).push(sel[i as int]));
            }
            if self.selected_paths[i] == full {
                found = true;
            } else {
                let c = self.selected_paths[i].clone();
                let ghost before = kept@;
                kept.push(c);
                assert(crate::operations::strs(kept@) =~= crate::operations::strs(before).push(
                    c@,
                ));
            }
            i += 1;
        }
        proof {
            crate::text::lemma_take_all(sel);
        }
        if found {
            self.selected_paths = kept;
        } else {
            self.selected_paths.push(full);
            assert(crate::operations::strs(self.selected_paths@) =~= sel.push(full@));
        }
    }

    /// Whether the entry at `full` is a directory (see [`dir_of`]).
    pub fn is_dir_entry(&self, full: &String) -> (r: bool)
        ensures
            r == dir_of(self.current_files@, self.current_path@, full@),
    {
        let mut j: usize = 0;
        assert(self.current_files@.skip(0) =~= self.current_files@);
        while j < self.current_files.len()
            invariant
                j <= self.current_files.len(),
                dir_of(self.current_files@, self.current_path@, full@) == dir_of(
                    self.current_files@.skip(j as int),
                    self.current_path@,
                    full@,
                ),
            decreases self.current_files.len() - j,
        {
            let p = self.entry_path(self.current_files[j].name.as_str());
            assert(self.current_files@.skip(j as int)[0] == self.current_files@[j as int]);
            if p == *full {
                return self.current_files[j].is_dir;
            }
            assert(self.current_files@.skip(j as int).drop_first() =~= self.current_files@.skip(
                j + 1,
            ));
            j += 1;
        }
        assert(self.current_files@.skip(j as int).len() == 0);
        false
    }

    /// The selected paths, in order, each with whether it is a directory
    /// (see [`dir_of`]).
    pub fn get_selected_info(&self) -> (r: Vec<(String, bool)>)
        ensures
            infos(r@) == selected_info_spec(*self),
    {
        let mut out: Vec<(String, bool)> = Vec::new();
        let mut i: usize = 0;
        while i < self.selected_paths.len()
            invariant
                i <= self.selected_paths.len(),
                infos(out@) == selected_info_spec(*self).take(i as int),
            decreases self.selected_paths.len() - i,
        {
            let p = &self.selected_paths[i];
            let is_dir = self.is_dir_entry(p);
            let ghost before = out@;
            let c = p.clone();
            out.push((c, is_dir));
            assert(infos(out@) =~= infos(before).push((c@, is_dir)));
            assert(selected_info_spec(*self)[i as int] == (p@, is_dir));
            assert(selected_info_spec(*self).take(i + 1) =~= selected_info_spec(*self).take(
                i as int,
            ).push(selected_info_spec(*self)[i as int]));
            i += 1;
        }
        assert(selected_info_spec(*self).take(i as int) =~= selected_info_spec(*self));
        out
    }

    /// Opens the transfer dialog for the selection: the selected entries
    /// become the sources, and the dialog copies, or moves when `is_move`.
    pub fn begin_transfer(&mut self, is_move: bool)
        ensures
            infos(final(self).transfer_source_info@) == selected_info_spec(*old(self)),
            final(self).is_move_mode == is_move,
            final(self).show_transfer_dialog,
            final(self).transfer_dest == old(self).transfer_dest,
            final(self).active_transfer_tab == old(self).active_transfer_tab,
            same_session(*old(self), *final(self)),
            same_nav(*old(self), *final(self)),
            same_listing(*old(self), *final(self)),
            same_local(*old(self), *final(self)),
            same_add_remote(*old(self), *final(self)),
            same_tasks(*old(self), *final(self)),
    {
        self.transfer_source_info = self.get_selected_info();
        self.is_move_mode = is_move;
        self.show_transfer_dialog = true;
    }
}

} // verus!

verus! {

// ---------------------------------------------------------------------------
// Operations

/// Position of the first listed operation with identifier `id`.
pub open spec fn first_op(s: Seq<Operation>, id: u32) -> Option<int>
    decreases s.len(),
{
    if s.len() == 0 {
        None
    } else if s[0].id == id {
        Some(0)
    } else {
        match first_op(s.drop_first(), id) {
            Some(k) => Some(k + 1),
            None => None,
        }
    }
}

pub proof fn lemma_first_op(s: Seq<Operation>, id: u32)
    ensures
        match first_op(s, id) {
            Some(k) => 0 <= k < s.len() && s[k].id == id && forall|j: int|
                0 <= j < k ==> s[j].id != id,
            None => forall|j: int| 0 <= j < s.len() ==> s[j].id != id,
        },
    decreases s.len(),
{
    if s.len() > 0 && s[0].id != id {
        lemma_first_op(s.drop_first(), id);
        assert forall|j: int| 1 <= j < s.len() implies s[j].id == s.drop_first()[j - 1].id by {}
    }
}

/// The operations without the one with identifier `id`.
pub open spec fn without_op(s: Seq<Operation>, id: u32) -> Seq<Operation> {
    match first_op(s, id) {
        Some(k) => s.remove(k),
        None => s,
    }
}

/// The operations with the one with identifier `id` advanced to
/// `progress` and showing `status`.
pub open spec fn with_progress(s: Seq<Operation>, id: u32, progress: Progress, status: String) -> Seq<
    Operation,
> {
    match first_op(s, id) {
        Some(k) => s.update(
            k,
            Operation { id: s[k].id, description: s[k].description, progress, status },
        ),
        None => s,
    }
}

/// Removing an operation keeps the identifiers well formed, and under
/// well-formed identifiers no operation with that identifier is left.
pub proof fn lemma_without_op(s: Seq<Operation>, id: u32, next: u32)
    requires
        ops_wf(s, next),
    ensures
        ops_wf(without_op(s, id), next),
        forall|j: int| 0 <= j < without_op(s, id).len() ==> without_op(s, id)[j].id != id,
{
    lemma_first_op(s, id);
    match first_op(s, id) {
        Some(k) => {
            let t = s.remove(k);
            assert forall|i: int, j: int| 0 <= i < j < t.len() implies t[i].id < t[j].id by {
                let si = if i < k { i } else { i + 1 };
                let sj = if j < k { j } else { j + 1 };
                assert(t[i] == s[si]);
                assert(t[j] == s[sj]);
            }
            assert forall|j: int| 0 <= j < t.len() implies t[j].id != id by {
                if j < k {
                    assert(t[j] == s[j]);
                    assert(s[j].id < s[k].id);
                } else {
                    assert(t[j] == s[j + 1]);
                    assert(s[k].id < s[j + 1].id);
                }
            }
        },
        None => {},
    }
}

/// Position of the first listed operation with identifier `id`.
pub fn find_op(ops: &Vec<Operation>, id: u32) -> (r: Option<usize>)
    ensures
        match first_op(ops@, id) {
            Some(k) => r == Some(k as usize),
            None => r is None,
        },
        r matches Some(k) ==> k < ops.len() && ops@[k as int].id == id,
{
    proof {
        lemma_first_op(ops@, id);
    }
    let mut i: usize = 0;
    while i < ops.len()
        invariant
            i <= ops.len(),
            forall|j: int| 0 <= j < i ==> ops@[j].id != id,
            match first_op(ops@, id) {
                Some(k) => 0 <= k < ops@.len() && ops@[k].id == id && forall|j: int|
                    0 <= j < k ==> ops@[j].id != id,
                None => forall|j: int| 0 <= j < ops@.len() ==> ops@[j].id != id,
            },
        decreases ops.len() - i,
    {
        if ops[i].id == id {
            return Some(i);
        }
        i += 1;
    }
    None
}

/// The task count after one task ended; it does not go below zero.
pub open spec fn one_less(n: u32) -> u32 {
    if n > 0 {
        (n - 1) as u32
    } else {
        0
    }
}

/// The add-remote fields of `b` equal those of `a`, but for the step and the
/// status line.
pub open spec fn same_add_remote_form(a: RcloneUI, b: RcloneUI) -> bool {
    &&& a.show_add_remote_dialog == b.show_add_remote_dialog
    &&& a.new_remote_name == b.new_remote_name
    &&& a.new_remote_type == b.new_remote_type
    &&& a.add_remote_state == b.add_remote_state
    &&& a.add_remote_answer == b.add_remote_answer
}

/// `b` is `a` after the background result `res` was taken in.
pub open spec fn took_result(a: RcloneUI, b: RcloneUI, res: OperationResult) -> bool {
    match res {
        OperationResult::Success(id, _) => {
            &&& b.active_task_count == one_less(a.active_task_count)
            &&& b.active_operations@ == without_op(a.active_operations@, id)
            &&& b.pending_load_path == Some(a.current_path)
            &&& b.next_op_id == a.next_op_id
            &&& b.current_path == a.current_path
            &&& b.history_back == a.history_back
            &&& b.history_forward == a.history_forward
            &&& same_session(a, b) && same_listing(a, b) && same_transfer(a, b)
            &&& same_local(a, b) && same_add_remote(a, b)
        },
        OperationResult::Failure(id, e) => {
            &&& b.active_task_count == one_less(a.active_task_count)
            &&& b.active_operations@ == without_op(a.active_operations@, id)
            &&& b.error_message == Some(e)
            &&& b.add_remote_step == (if a.add_remote_step is Busy {
                AddRemoteStep::Form
            } else {
                a.add_remote_step
            })
            &&& b.add_remote_status == a.add_remote_status
            &&& same_add_remote_form(a, b)
            &&& b.next_op_id == a.next_op_id
            &&& b.rclone == a.rclone && b.state == a.state && b.remote_list == a.remote_list
            &&& same_nav(a, b) && same_listing(a, b) && same_transfer(a, b) && same_local(a, b)
        },
        OperationResult::FileList(files) => {
            &&& b.current_files == files
            &&& b.active_task_count == one_less(a.active_task_count)
            &&& b.active_operations == a.active_operations && b.next_op_id == a.next_op_id
            &&& b.selected_paths == a.selected_paths
            &&& same_session(a, b) && same_nav(a, b) && same_transfer(a, b) && same_local(a, b)
            &&& same_add_remote(a, b)
        },
        OperationResult::RemoteList(remotes) => {
            &&& b.remote_list == remotes
            &&& b.active_task_count == one_less(a.active_task_count)
            &&& b.active_operations == a.active_operations && b.next_op_id == a.next_op_id
            &&& b.rclone == a.rclone && b.state == a.state && b.error_message == a.error_message
            &&& same_nav(a, b) && same_listing(a, b) && same_transfer(a, b) && same_local(a, b)
            &&& same_add_remote(a, b)
        },
        OperationResult::ProgressUpdate(id, progress, status) => {
            &&& b.active_operations@ == with_progress(a.active_operations@, id, progress, status)
            &&& b.active_task_count == a.active_task_count && b.next_op_id == a.next_op_id
            &&& b.add_remote_status == (if a.add_remote_step is Busy {
                status
            } else {
                a.add_remote_status
            })
            &&& b.add_remote_step == a.add_remote_step
            &&& same_add_remote_form(a, b)
            &&& same_session(a, b) && same_nav(a, b) && same_listing(a, b)
            &&& same_transfer(a, b) && same_local(a, b)
        },
        OperationResult::RemoteAdded(id, remotes) => {
            &&& b.remote_list == remotes
            &&& b.active_task_count == one_less(a.active_task_count)
            &&& b.active_operations@ == without_op(a.active_operations@, id)
            &&& b.next_op_id == a.next_op_id
            &&& !b.show_add_remote_dialog
            &&& b.add_remote_step == AddRemoteStep::Form
            &&& b.add_remote_state is None
            &&& b.new_remote_name@.len() == 0
            &&& b.add_remote_answer@.len() == 0
            &&& b.new_remote_type == a.new_remote_type
            &&& b.add_remote_status == a.add_remote_status
            &&& b.rclone == a.rclone && b.state == a.state && b.error_message == a.error_message
            &&& same_nav(a, b) && same_listing(a, b) && same_transfer(a, b) && same_local(a, b)
        },
        OperationResult::ConfigQuestion(id, state, question) => {
            &&& b.active_task_count == one_less(a.active_task_count)
            &&& b.active_operations@ == without_op(a.active_operations@, id)
            &&& b.next_op_id == a.next_op_id
            &&& b.add_remote_state == Some(state)
            &&& b.add_remote_answer == question.default
            &&& b.add_remote_step == AddRemoteStep::Question(question)
            &&& b.show_add_remote_dialog == a.show_add_remote_dialog
            &&& b.new_remote_name == a.new_remote_name
            &&& b.new_remote_type == a.new_remote_type
            &&& b.add_remote_status == a.add_remote_status
            &&& same_session(a, b) && same_nav(a, b) && same_listing(a, b)
            &&& same_transfer(a, b) && same_local(a, b)
        },
    }
}

impl RcloneUI {
    /// Lists a new operation, queued, under the next identifier, which it
    /// returns.
    pub fn add_operation(&mut self, description: String) -> (r: u32)
        requires
            old(self).wf(),
            old(self).next_op_id < u32::MAX,
        ensures
            final(self).wf(),
            r == old(self).next_op_id,
            final(self).next_op_id == old(self).next_op_id + 1,
            final(self).active_operations@.len() == old(self).active_operations@.len() + 1,
            final(self).active_operations@.take(old(self).active_operations@.len() as int)
                == old(self).active_operations@,
            final(self).active_operations@.last().id == r,
            final(self).active_operations@.last().description == description,
            final(self).active_operations@.last().progress == (Progress { done: 0, total: 1 }),
            final(self).active_operations@.last().status@ == "В очереди"@,
            final(self).active_task_count == old(self).active_task_count,
            same_session(*old(self), *final(self)),
            same_nav(*old(self), *final(self)),
            same_listing(*old(self), *final(self)),
            same_transfer(*old(self), *final(self)),
            same_local(*old(self), *final(self)),
            same_add_remote(*old(self), *final(self)),
    {
        let id = self.next_op_id;
        self.next_op_id = self.next_op_id + 1;
        self.active_operations.push(
            Operation {
                id,
                description,
                progress: Progress { done: 0, total: 1 },
                status: "В очереди".to_owned(),
            },
        );
        assert(self.active_operations@.take(old(self).active_operations@.len() as int)
            =~= old(self).active_operations@);
        id
    }

    /// Takes in one result of a background job (see [`took_result`]).
    #[verifier::rlimit(40)]
    pub fn handle_operation_result(&mut self, res: OperationResult)
        requires
            old(self).wf(),
        ensures
            final(self).wf(),
            took_result(*old(self), *final(self), res),
    {
        match res {
            OperationResult::Success(id, _) => {
                self.end_task();
                self.remove_operation(id);
                self.pending_load_path = Some(self.current_path.clone());
            },
            OperationResult::Failure(id, e) => {
                self.end_task();
                self.remove_operation(id);
                if self.add_remote_step.is_busy() {
                    self.add_remote_step = AddRemoteStep::Form;
                }
                self.error_message = Some(e);
            },
            OperationResult::FileList(files) => {
                self.current_files = files;
                self.end_task();
            },
            OperationResult::RemoteList(remotes) => {
                self.remote_list = remotes;
                self.end_task();
            },
            OperationResult::RemoteAdded(id, remotes) => {
                self.remote_list = remotes;
                self.end_task();
                self.remove_operation(id);
                self.show_add_remote_dialog = false;
                self.add_remote_step = AddRemoteStep::Form;
                self.add_remote_state = None;
                self.new_remote_name = String::new();
                self.add_remote_answer = String::new();
            },
            OperationResult::ConfigQuestion(id, state, question) => {
                self.end_task();
                self.remove_operation(id);
                self.add_remote_state = Some(state);
                self.add_remote_answer = question.default.clone();
                self.add_remote_step = AddRemoteStep::Question(question);
            },
            OperationResult::ProgressUpdate(id, progress, status) => {
                if self.add_remote_step.is_busy() {
                    self.add_remote_status = status.clone();
                }
                proof {
                    lemma_first_op(self.active_operations@, id);
                }
                match find_op(&self.active_operations, id) {
                    Some(k) => {
                        let ghost before = self.active_operations@;
                        let op = self.active_operations.remove(k);
                        let updated = Operation {
                            id: op.id,
                            description: op.description,
                            progress,
                            status,
                        };
                        self.active_operations.insert(k, updated);
                        assert(self.active_operations@ =~= with_progress(
                            before,
                            id,
                            progress,
                            status,
                        ));
                    },
                    None => {},
                }
            },
        }
    }

    /// Counts one task less, not going below zero.
    fn end_task(&mut self)
        ensures
            final(self).active_task_count == one_less(old(self).active_task_count),
            final(self).active_operations == old(self).active_operations,
            final(self).next_op_id == old(self).next_op_id,
            same_session(*old(self), *final(self)),
            same_nav(*old(self), *final(self)),
            same_listing(*old(self), *final(self)),
            same_transfer(*old(self), *final(self)),
            same_local(*old(self), *final(self)),
            same_add_remote(*old(self), *final(self)),
    {
        self.active_task_count = if self.active_task_count > 0 {
            self.active_task_count - 1
        } else {
            0
        };
    }

    /// Takes the operation with identifier `id` off the list.
    fn remove_operation(&mut self, id: u32)
        requires
            old(self).wf(),
        ensures
            final(self).wf(),
            final(self).active_operations@ == without_op(old(self).active_operations@, id),
            final(self).active_task_count == old(self).active_task_count,
            final(self).next_op_id == old(self).next_op_id,
            same_session(*old(self), *final(self)),
            same_nav(*old(self), *final(self)),
            same_listing(*old(self), *final(self)),
            same_transfer(*old(self), *final(self)),
            same_local(*old(self), *final(self)),
            same_add_remote(*old(self), *final(self)),
    {
        proof {
            lemma_without_op(self.active_operations@, id, self.next_op_id);
            lemma_first_op(self.active_operations@, id);
        }
        match find_op(&self.active_operations, id) {
            Some(k) => {
                self.active_operations.remove(k);
            },
            None => {},
        }
    }
}

/// Under well-formed identifiers, a new operation gets an identifier that
/// no listed operation has, and identifiers stay unique.
pub proof fn law_fresh_operation_id(a: RcloneUI, b: RcloneUI, r: u32)
    requires
        a.wf(),
        b.wf(),
        r == a.next_op_id,
        b.active_operations@.take(a.active_operations@.len() as int) == a.active_operations@,
        b.active_operations@.len() == a.active_operations@.len() + 1,
        b.active_operations@.last().id == r,
    ensures
        forall|i: int| 0 <= i < a.active_operations@.len() ==> a.active_operations@[i].id != r,
        forall|i: int, j: int|
            0 <= i < j < b.active_operations@.len() ==> b.active_operations@[i].id
                != b.active_operations@[j].id,
{
}

/// Advancing an operation keeps every identifier in its place.
proof fn lemma_with_progress_ids(s: Seq<Operation>, id: u32, progress: Progress, status: String)
    ensures
        with_progress(s, id, progress, status).len() == s.len(),
        forall|i: int|
            0 <= i < s.len() ==> (#[trigger] with_progress(s, id, progress, status)[i]).id
                == s[i].id,
{
    lemma_first_op(s, id);
}

/// Taking in any result keeps the state well formed.
pub proof fn lemma_took_result_wf(a: RcloneUI, b: RcloneUI, res: OperationResult)
    requires
        a.wf(),
        took_result(a, b, res),
    ensures
        b.wf(),
{
    match res {
        OperationResult::Success(id, _) => lemma_without_op(a.active_operations@, id, a.next_op_id),
        OperationResult::Failure(id, _) => lemma_without_op(a.active_operations@, id, a.next_op_id),
        OperationResult::RemoteAdded(id, _) => lemma_without_op(
            a.active_operations@,
            id,
            a.next_op_id,
        ),
        OperationResult::ConfigQuestion(id, _, _) => lemma_without_op(
            a.active_operations@,
            id,
            a.next_op_id,
        ),
        OperationResult::ProgressUpdate(id, progress, status) => {
            lemma_with_progress_ids(a.active_operations@, id, progress, status);
            let s = a.active_operations@;
            let t = b.active_operations@;
            assert forall|i: int, j: int| 0 <= i < j < t.len() implies t[i].id < t[j].id by {
                assert(t[i].id == s[i].id);
                assert(t[j].id == s[j].id);
            }
            assert forall|i: int| 0 <= i < t.len() implies t[i].id < b.next_op_id by {
                assert(t[i].id == s[i].id);
            }
        },
        _ => {},
    }
}

/// Whether a result ends a task: every kind but a progress report.
pub open spec fn ends_task(res: OperationResult) -> bool {
    !(res is ProgressUpdate)
}

/// How many of the results `rs` end a task.
pub open spec fn tasks_ended(rs: Seq<OperationResult>) -> nat
    decreases rs.len(),
{
    if rs.len() == 0 {
        0
    } else {
        tasks_ended(rs.drop_last()) + (if ends_task(rs.last()) {
            1nat
        } else {
            0nat
        })
    }
}

/// Taking in a batch of background results one after another, from a
/// well-formed state, keeps the state well formed and lowers the task
/// count by the number of results that end a task, stopping at zero.
pub proof fn law_results_batch(states: Seq<RcloneUI>, rs: Seq<OperationResult>)
    requires
        states.len() == rs.len() + 1,
        states[0].wf(),
        forall|i: int| 0 <= i < rs.len() ==> #[trigger] took_result(states[i], states[i + 1], rs[i]),
    ensures
        states.last().wf(),
        states.last().active_task_count == (if states[0].active_task_count >= tasks_ended(rs) {
            states[0].active_task_count - tasks_ended(rs)
        } else {
            0
        }),
    decreases rs.len(),
{
    if rs.len() > 0 {
        let n = rs.len() - 1;
        let st = states.take(n + 1);
        let rn = rs.take(n);
        assert forall|i: int| 0 <= i < rn.len() implies #[trigger] took_result(
            st[i],
            st[i + 1],
            rn[i],
        ) by {
            assert(took_result(states[i], states[i + 1], rs[i]));
        }
        law_results_batch(st, rn);
        assert(rs.drop_last() =~= rn);
        assert(st.last() == states[n]);
        assert(took_result(states[n], states[n + 1], rs[n]));
        lemma_took_result_wf(states[n], states[n + 1], rs[n]);
    }
}

impl RcloneUI {
    /// Takes in the background results that are waiting, one after another
    /// in order (see [`took_result`]); the task count falls by the number of
    /// them that end a task, stopping at zero (see [`law_results_batch`]).
    pub fn handle_operation_results(&mut self, results: Vec<OperationResult>)
        requires
            old(self).wf(),
        ensures
            final(self).wf(),
            final(self).active_task_count == (if old(self).active_task_count >= tasks_ended(
                results@,
            ) {
                old(self).active_task_count - tasks_ended(results@)
            } else {
                0
            }),
            exists|states: Seq<RcloneUI>|
                {
                    &&& states.len() == results@.len() + 1
                    &&& states[0] == *old(self)
                    &&& states.last() == *final(self)
                    &&& forall|i: int|
                        0 <= i < results@.len() ==> #[trigger] took_result(
                            states[i],
                            states[i + 1],
                            results@[i],
                        )
                },
    {
        let ghost all = results@;
        let ghost mut states: Seq<RcloneUI> = seq![*self];
        let mut rest = results;
        let n = rest.len();
        let mut i: usize = 0;
        while i < n
            invariant
                i <= n == all.len(),
                rest@ == all.skip(i as int),
                self.wf(),
                states.len() == i + 1,
                states[0] == *old(self),
                states.last() == *self,
                forall|k: int| 0 <= k < i ==> #[trigger] took_result(states[k], states[k + 1], all[k]),
            decreases n - i,
        {
            let res = rest.remove(0);
            assert(res == all[i as int]);
            self.handle_operation_result(res);
            proof {
                let before = states;
                states = states.push(*self);
                assert forall|k: int| 0 <= k < i + 1 implies #[trigger] took_result(
                    states[k],
                    states[k + 1],
                    all[k],
                ) by {
                    if k < i {
                        assert(states[k] == before[k] && states[k + 1] == before[k + 1]);
                    }
                }
            }
            i += 1;
            assert(rest@ =~= all.skip(i as int));
        }
        proof {
            law_results_batch(states, all);
        }
    }
}

/// A finished or failed operation, or a set-up step that ended with a new
/// remote or a question, leaves the task list: afterwards no listed
/// operation carries its identifier.
pub proof fn law_finished_operation_leaves(a: RcloneUI, b: RcloneUI, res: OperationResult, id: u32)
    requires
        a.wf(),
        took_result(a, b, res),
        match res {
            OperationResult::Success(i, _) => i == id,
            OperationResult::Failure(i, _) => i == id,
            OperationResult::RemoteAdded(i, _) => i == id,
            OperationResult::ConfigQuestion(i, _, _) => i == id,
            _ => false,
        },
    ensures
        forall|j: int| 0 <= j < b.active_operations@.len() ==> b.active_operations@[j].id != id,
{
    lemma_without_op(a.active_operations@, id, a.next_op_id);
}

} // verus!

verus! {

// ---------------------------------------------------------------------------
// Transfers and deletions

/// One source of a transfer: where it is, its last path part, and where it
/// goes.
pub struct TransferItem {
    pub source: String,
    pub name: String,
    pub dest: String,
}

/// A copy or move to carry out in the background, reported under `op_id`.
pub struct TransferJob {
    pub op_id: u32,
    pub rclone: Arc<RcloneApp>,
    pub is_move: bool,
    pub items: Vec<TransferItem>,
}

/// A deletion to carry out in the background, reported under `op_id`: each
/// path with whether it is a directory.
pub struct DeleteJob {
    pub op_id: u32,
    pub rclone: Arc<RcloneApp>,
    pub items: Vec<(String, bool)>,
}

/// The separator put between a remote destination and a directory's name:
/// `/` when the destination is on a remote and does not already end with
/// `:` or `/`, nothing otherwise.
pub open spec fn dest_separator(dest: Seq<char>) -> Seq<char> {
    if contains(dest, ":"@) && !ends_with(dest, ":"@) && !ends_with(dest, "/"@) {
        "/"@
    } else {
        Seq::empty()
    }
}

/// Where a transferred source goes: a directory goes into a directory of
/// its own name under the destination (without trailing slashes), a file
/// goes to the destination itself.
pub open spec fn transfer_dest_spec(source: Seq<char>, is_dir: bool, dest: Seq<char>) -> Seq<char> {
    if is_dir {
        crate::text::strip_end_slashes(dest) + dest_separator(dest) + crate::text::last_segment(
            source,
        )
    } else {
        dest
    }
}

/// Where `source` goes when transferred to `dest`.
pub fn transfer_destination(source: &str, is_dir: bool, dest: &str) -> (r: String)
    ensures
        r@ == transfer_dest_spec(source@, is_dir, dest@),
{
    if !is_dir {
        return dest.to_owned();
    }
    let d = chars_of(dest);
    let colon = chars_of(":");
    let slash = chars_of("/");
    let sep: Vec<char> = if contains_chars(&d, &colon) && !ends_with_chars(&d, &colon)
        && !ends_with_chars(&d, &slash) {
        slash
    } else {
        Vec::new()
    };
    assert(sep@ =~= dest_separator(dest@));
    let base = concat(&crate::text::strip_end_slashes_chars(&d), &sep);
    let name = crate::text::last_segment_chars(&chars_of(source));
    string_of(&concat(&base, &name))
}

/// The message of a transfer that failed on `name`.
pub open spec fn transfer_failure_spec(name: Seq<char>, error: Seq<char>) -> Seq<char> {
    "Ошибка на "@ + name + ": "@ + error
}

pub fn transfer_failure_text(name: &str, error: &str) -> (r: String)
    ensures
        r@ == transfer_failure_spec(name@, error@),
{
    let a = concat(&chars_of("Ошибка на "), &chars_of(name));
    let b = concat(&a, &chars_of(": "));
    string_of(&concat(&b, &chars_of(error)))
}

/// The task-list text of a transfer of `n` entries.
pub open spec fn transfer_description(is_move: bool, n: nat) -> Seq<char> {
    (if is_move {
        "Перенос"@
    } else {
        "Копия"@
    }) + " "@ + dec(n) + " эл."@
}

/// The task-list text of a deletion of `n` entries.
pub open spec fn delete_description(n: nat) -> Seq<char> {
    "Удаление "@ + dec(n) + " эл."@
}

fn count_text(prefix: &str, n: usize) -> (r: String)
    ensures
        r@ == prefix@ + dec(n as nat) + " эл."@,
{
    let mut v = chars_of(prefix);
    push_dec(&mut v, n as u64);
    string_of(&concat(&v, &chars_of(" эл.")))
}

/// `b` is `a` with one more operation listed, described by `desc`, and one
/// more task running.
pub open spec fn started_op(a: RcloneUI, b: RcloneUI, desc: Seq<char>) -> bool {
    &&& b.next_op_id == a.next_op_id + 1
    &&& b.active_operations@.len() == a.active_operations@.len() + 1
    &&& b.active_operations@.take(a.active_operations@.len() as int) == a.active_operations@
    &&& b.active_operations@.last().id == a.next_op_id
    &&& b.active_operations@.last().description@ == desc
    &&& b.active_operations@.last().progress == (Progress { done: 0, total: 1 })
    &&& b.active_operations@.last().status@ == "В очереди"@
    &&& b.active_task_count == a.active_task_count + 1
    &&& same_session(a, b) && same_nav(a, b) && same_listing(a, b) && same_transfer(a, b)
    &&& same_local(a, b) && same_add_remote(a, b)
}

impl RcloneUI {
    /// Starts the transfer set up in the dialog, unless another task is
    /// running or rclone is not available: lists the operation, counts the
    /// task, and hands back the job (see [`transfer_dest_spec`]).
    pub fn perform_transfer(&mut self, is_move: bool) -> (r: Option<TransferJob>)
        requires
            old(self).wf(),
            old(self).active_task_count == 0 && old(self).rclone is Some ==> old(self).next_op_id
                < u32::MAX,
        ensures
            final(self).wf(),
            if old(self).active_task_count > 0 || old(self).rclone is None {
                r is None && *final(self) == *old(self)
            } else {
                &&& r matches Some(job) && {
                    &&& job.op_id == old(self).next_op_id
                    &&& Some(job.rclone) == old(self).rclone
                    &&& job.is_move == is_move
                    &&& job.items@.len() == old(self).transfer_source_info@.len()
                    &&& forall|i: int|
                        0 <= i < job.items@.len() ==> {
                            let src = #[trigger] old(self).transfer_source_info@[i];
                            &&& job.items@[i].source@ == src.0@
                            &&& job.items@[i].name@ == crate::text::last_segment(src.0@)
                            &&& job.items@[i].dest@ == transfer_dest_spec(
                                src.0@,
                                src.1,
                                old(self).transfer_dest@,
                            )
                        }
                }
                &&& started_op(
                    *old(self),
                    *final(self),
                    transfer_description(is_move, old(self).transfer_source_info@.len()),
                )
            },
    {
        if self.active_task_count > 0 {
            return None;
        }
        let rclone = match &self.rclone {
            Some(a) => a.clone(),
            None => {
                return None;
            },
        };
        let n = self.transfer_source_info.len();
        let desc = count_text(
            if is_move {
                "Перенос "
            } else {
                "Копия "
            },
            n,
        );
        proof {
            reveal_strlit("Перенос ");
            reveal_strlit("Перенос");
            reveal_strlit("Копия ");
            reveal_strlit("Копия");
            reveal_strlit(" ");
            assert(desc@ =~= transfer_description(is_move, n as nat));
        }
        let op_id = self.add_operation(desc);
        self.active_task_count = self.active_task_count + 1;
        let mut items: Vec<TransferItem> = Vec::new();
        let mut i: usize = 0;
        while i < n
            invariant
                i <= n == self.transfer_source_info.len(),
                self.transfer_source_info == old(self).transfer_source_info,
                self.transfer_dest == old(self).transfer_dest,
                items@.len() == i,
                forall|k: int|
                    0 <= k < i ==> {
                        let src = #[trigger] old(self).transfer_source_info@[k];
                        &&& items@[k].source@ == src.0@
                        &&& items@[k].name@ == crate::text::last_segment(src.0@)
                        &&& items@[k].dest@ == transfer_dest_spec(
                            src.0@,
                            src.1,
                            old(self).transfer_dest@,
                        )
                    },
            decreases n - i,
        {
            let source = self.transfer_source_info[i].0.as_str();
            let is_dir = self.transfer_source_info[i].1;
            let item = TransferItem {
                source: source.to_owned(),
                name: string_of(&crate::text::last_segment_chars(&chars_of(source))),
                dest: transfer_destination(source, is_dir, self.transfer_dest.as_str()),
            };
            items.push(item);
            i += 1;
        }
        Some(TransferJob { op_id, rclone, is_move, items })
    }

    /// Starts deleting the selected entries, unless another task is running
    /// or rclone is not available: lists the operation, counts the task, and
    /// hands back the job with every selected path and whether it is a
    /// directory.
    pub fn delete_selected(&mut self) -> (r: Option<DeleteJob>)
        requires
            old(self).wf(),
            old(self).active_task_count == 0 && old(self).rclone is Some ==> old(self).next_op_id
                < u32::MAX,
        ensures
            final(self).wf(),
            if old(self).active_task_count > 0 || old(self).rclone is None {
                r is None && *final(self) == *old(self)
            } else {
                &&& r matches Some(job) && {
                    &&& job.op_id == old(self).next_op_id
                    &&& Some(job.rclone) == old(self).rclone
                    &&& infos(job.items@) == selected_info_spec(*old(self))
                }
                &&& started_op(
                    *old(self),
                    *final(self),
                    delete_description(old(self).selected_paths@.len()),
                )
            },
    {
        if self.active_task_count > 0 {
            return None;
        }
        let rclone = match &self.rclone {
            Some(a) => a.clone(),
            None => {
                return None;
            },
        };
        let paths = self.get_selected_info();
        assert(infos(paths@).len() == selected_info_spec(*self).len());
        assert(paths@.len() == self.selected_paths@.len());
        let desc = count_text("Удаление ", paths.len());
        proof {
            reveal_strlit("Удаление ");
            reveal_strlit("Удаление");
            assert(desc@ =~= delete_description(paths@.len()));
        }
        let op_id = self.add_operation(desc);
        self.active_task_count = self.active_task_count + 1;
        Some(DeleteJob { op_id, rclone, items: paths })
    }
}

/// The status line of a transfer that has handled `done` of `total`
/// entries.
pub open spec fn step_status(done: nat, total: nat) -> Seq<char> {
    dec(done) + "/"@ + dec(total)
}

/// What a transfer job reports once the entry `name`, the `done`-th of
/// `total`, has been copied or moved with the given outcome: the failure,
/// naming the entry, which ends the job; or the progress made.
pub fn transfer_step_report(
    op_id: u32,
    done: u32,
    total: u32,
    name: &str,
    outcome: Result<String, String>,
) -> (r: OperationResult)
    ensures
        match outcome {
            Ok(_) => r matches OperationResult::ProgressUpdate(id, pr, s) && id == op_id && pr
                == (Progress { done, total }) && s@ == step_status(done as nat, total as nat),
            Err(e) => r matches OperationResult::Failure(id, m) && id == op_id && m@
                == transfer_failure_spec(name@, e@),
        },
{
    match outcome {
        Ok(_) => {
            let mut v: Vec<char> = Vec::new();
            push_dec(&mut v, done as u64);
            v.push('/');
            push_dec(&mut v, total as u64);
            proof {
                reveal_strlit("/");
                assert(v@ =~= step_status(done as nat, total as nat));
            }
            let s = string_of(&v);
            OperationResult::ProgressUpdate(op_id, Progress { done, total }, s)
        },
        Err(e) => OperationResult::Failure(op_id, transfer_failure_text(name, e.as_str())),
    }
}

/// What a deletion job reports after one path: its failure, which ends the
/// job, or nothing.
pub fn delete_step_report(op_id: u32, outcome: Result<String, String>) -> (r: Option<
    OperationResult,
>)
    ensures
        match outcome {
            Ok(_) => r is None,
            Err(e) => r matches Some(OperationResult::Failure(id, m)) && id == op_id && m == e,
        },
{
    match outcome {
        Ok(_) => None,
        Err(e) => Some(OperationResult::Failure(op_id, e)),
    }
}

/// What a job reports when every entry went through.
pub fn job_done_report(op_id: u32) -> (r: OperationResult)
    ensures
        r matches OperationResult::Success(id, m) && id == op_id && m@ == "Ок"@,
{
    OperationResult::Success(op_id, "Ок".to_owned())
}

} // verus!


verus! {

// ---------------------------------------------------------------------------
// Adding a remote

/// One step of setting up the remote `name` of backend `remote_type`, to
/// run in the background and report under `op_id`: the first step, or,
/// with a state and an answer, the step that continues from a question.
pub struct AddRemoteJob {
    pub op_id: u32,
    pub rclone: Arc<RcloneApp>,
    pub name: String,
    pub remote_type: String,
    pub state: Option<String>,
    pub answer: Option<String>,
}

/// The task-list text of setting up the remote `name`.
pub open spec fn add_remote_description(name: Seq<char>) -> Seq<char> {
    "Создание облака "@ + name
}

/// `b` is `a` with a set-up step started: one more operation listed,
/// described by `desc`, one more task running, and the dialog waiting for
/// rclone with the status line `status`.
pub open spec fn started_add(a: RcloneUI, b: RcloneUI, desc: Seq<char>, status: Seq<char>) -> bool {
    &&& b.next_op_id == a.next_op_id + 1
    &&& b.active_operations@.len() == a.active_operations@.len() + 1
    &&& b.active_operations@.take(a.active_operations@.len() as int) == a.active_operations@
    &&& b.active_operations@.last().id == a.next_op_id
    &&& b.active_operations@.last().description@ == desc
    &&& b.active_operations@.last().progress == (Progress { done: 0, total: 1 })
    &&& b.active_operations@.last().status@ == "В очереди"@
    &&& b.active_task_count == a.active_task_count + 1
    &&& b.add_remote_step is Busy
    &&& b.add_remote_status@ == status
    &&& same_add_remote_form(a, b)
    &&& same_session(a, b) && same_nav(a, b) && same_listing(a, b) && same_transfer(a, b)
    &&& same_local(a, b)
}

fn add_remote_text(name: &str) -> (r: String)
    ensures
        r@ == add_remote_description(name@),
{
    string_of(&concat(&chars_of("Создание облака "), &chars_of(name)))
}

impl RcloneUI {
    /// Starts setting up the remote named in the dialog, with the backend
    /// chosen there (both without surrounding whitespace), unless either is
    /// empty or rclone is not available: lists the operation, counts the
    /// task, puts the dialog in waiting, and hands back the first step.
    pub fn start_add_remote(&mut self) -> (r: Option<AddRemoteJob>)
        requires
            old(self).wf(),
            trim(old(self).new_remote_name@).len() > 0 && trim(old(self).new_remote_type@).len()
                > 0 && old(self).rclone is Some ==> old(self).active_task_count < u32::MAX
                && old(self).next_op_id < u32::MAX,
        ensures
            final(self).wf(),
            if trim(old(self).new_remote_name@).len() == 0 || trim(old(self).new_remote_type@).len()
                == 0 || old(self).rclone is None {
                r is None && *final(self) == *old(self)
            } else {
                &&& r matches Some(job) && {
                    &&& job.op_id == old(self).next_op_id
                    &&& Some(job.rclone) == old(self).rclone
                    &&& job.name@ == trim(old(self).new_remote_name@)
                    &&& job.remote_type@ == trim(old(self).new_remote_type@)
                    &&& job.state is None
                    &&& job.answer is None
                }
                &&& started_add(
                    *old(self),
                    *final(self),
                    add_remote_description(trim(old(self).new_remote_name@)),
                    "Создание облака..."@,
                )
            },
    {
        let name = string_of(&trim_chars(&chars_of(self.new_remote_name.as_str())));
        let remote_type = string_of(&trim_chars(&chars_of(self.new_remote_type.as_str())));
        if name.as_str().is_empty() || remote_type.as_str().is_empty() {
            return None;
        }
        let rclone = match &self.rclone {
            Some(a) => a.clone(),
            None => {
                return None;
            },
        };
        self.active_task_count = self.active_task_count + 1;
        self.add_remote_step = AddRemoteStep::Busy;
        self.add_remote_status = "Создание облака...".to_owned();
        let op_id = self.add_operation(add_remote_text(name.as_str()));
        Some(AddRemoteJob { op_id, rclone, name, remote_type, state: None, answer: None })
    }

    /// Sends the answer typed in the dialog to the question rclone asked,
    /// when there is one and rclone is available: lists the operation,
    /// counts the task, puts the dialog in waiting, and hands back the step
    /// that continues the set-up.
    pub fn answer_add_remote(&mut self) -> (r: Option<AddRemoteJob>)
        requires
            old(self).wf(),
            old(self).rclone is Some && old(self).add_remote_state is Some ==> old(
                self,
            ).active_task_count < u32::MAX && old(self).next_op_id < u32::MAX,
        ensures
            final(self).wf(),
            if old(self).rclone is None || old(self).add_remote_state is None {
                r is None && *final(self) == *old(self)
            } else {
                &&& r matches Some(job) && {
                    &&& job.op_id == old(self).next_op_id
                    &&& Some(job.rclone) == old(self).rclone
                    &&& job.name == old(self).new_remote_name
                    &&& job.remote_type == old(self).new_remote_type
                    &&& job.state == old(self).add_remote_state
                    &&& job.answer == Some(old(self).add_remote_answer)
                }
                &&& started_add(
                    *old(self),
                    *final(self),
                    add_remote_description(old(self).new_remote_name@),
                    "Отправка ответа..."@,
                )
            },
    {
        let rclone = match &self.rclone {
            Some(a) => a.clone(),
            None => {
                return None;
            },
        };
        let state = match &self.add_remote_state {
            Some(s) => s.clone(),
            None => {
                return None;
            },
        };
        let answer = self.add_remote_answer.clone();
        let name = self.new_remote_name.clone();
        let remote_type = self.new_remote_type.clone();
        self.active_task_count = self.active_task_count + 1;
        self.add_remote_step = AddRemoteStep::Busy;
        self.add_remote_status = "Отправка ответа...".to_owned();
        let op_id = self.add_operation(add_remote_text(name.as_str()));
        Some(AddRemoteJob {
            op_id,
            rclone,
            name,
            remote_type,
            state: Some(state),
            answer: Some(answer),
        })
    }
}

/// What the background set-up does after a step.
pub enum AddRemoteAction {
    /// Run the next step with this state and answer, after reporting
    /// `notice`.
    Continue { state: String, answer: String, notice: OperationResult },
    /// The remote is created: reload the list of remotes and report it.
    ListRemotes,
    /// Report this and stop.
    Report(OperationResult),
}

/// The status line shown while the browser is open for authorisation.
pub open spec fn browser_notice() -> Seq<char> {
    "Открыт браузер для авторизации. Ожидание входа..."@
}

/// What the set-up reported under `op_id` does after a step with outcome
/// `step`: a created remote means reloading the remotes; the question
/// whether to authorise in a local web browser is answered `true` at once,
/// which opens the browser; any other question goes to the window; a
/// failure ends the set-up.
pub fn add_remote_next(op_id: u32, step: Result<ConfigStep, String>) -> (r: AddRemoteAction)
    ensures
        match step {
            Ok(ConfigStep::Done) => r is ListRemotes,
            Ok(ConfigStep::Question { state, question }) => if question.name@ == "config_is_local"@ {
                r matches AddRemoteAction::Continue {
                    state: s,
                    answer: a,
                    notice: OperationResult::ProgressUpdate(id, p, m),
                } && s == state && a@ == "true"@ && id == op_id && p == (Progress {
                    done: 0,
                    total: 1,
                }) && m@ == browser_notice()
            } else {
                r matches AddRemoteAction::Report(OperationResult::ConfigQuestion(id, s, q)) && id
                    == op_id && s == state && q == question
            },
            Err(e) => r matches AddRemoteAction::Report(OperationResult::Failure(id, m)) && id
                == op_id && m == e,
        },
{
    match step {
        Ok(ConfigStep::Done) => AddRemoteAction::ListRemotes,
        Ok(ConfigStep::Question { state, question }) => {
            if chars_eq(&chars_of(question.name.as_str()), &chars_of("config_is_local")) {
                AddRemoteAction::Continue {
                    state,
                    answer: "true".to_owned(),
                    notice: OperationResult::ProgressUpdate(
                        op_id,
                        Progress { done: 0, total: 1 },
                        "Открыт браузер для авторизации. Ожидание входа...".to_owned(),
                    ),
                }
            } else {
                AddRemoteAction::Report(OperationResult::ConfigQuestion(op_id, state, question))
            }
        },
        Err(e) => AddRemoteAction::Report(OperationResult::Failure(op_id, e)),
    }
}

/// What the set-up reports once the remote is created, from reloading the
/// list of remotes: the new list, or a failure that says the remote was
/// created all the same.
pub fn remote_added_report(op_id: u32, listed: Result<Vec<Remote>, String>) -> (r: OperationResult)
    ensures
        match listed {
            Ok(list) => r matches OperationResult::RemoteAdded(id, l) && id == op_id && l == list,
            Err(e) => r matches OperationResult::Failure(id, m) && id == op_id && m@
                == "Облако создано, но список обновить не удалось: "@ + e@,
        },
{
    match listed {
        Ok(list) => OperationResult::RemoteAdded(op_id, list),
        Err(e) => OperationResult::Failure(
            op_id,
            string_of(
                &concat(
                    &chars_of("Облако создано, но список обновить не удалось: "),
                    &chars_of(e.as_str()),
                ),
            ),
        ),
    }
}

/// What a line of rclone's error output during a set-up step is shown as:
/// the status of the operation, unless the line is empty.
pub fn feed_report(op_id: u32, line: &str) -> (r: Option<OperationResult>)
    ensures
        if line@.len() > 0 {
            r matches Some(OperationResult::ProgressUpdate(id, p, s)) && id == op_id && p == (
            Progress { done: 0, total: 1 }) && s@ == line@
        } else {
            r is None
        },
{
    if line.is_empty() {
        None
    } else {
        Some(OperationResult::ProgressUpdate(op_id, Progress { done: 0, total: 1 }, line.to_owned()))
    }
}

} // verus!

verus! {

// ---------------------------------------------------------------------------
// Laws of browsing and selecting

/// The last `/` of `q + "/" + s`, where `s` holds no `/`, is the one after
/// `q`.
proof fn lemma_last_slash(q: Seq<char>, s: Seq<char>)
    requires
        !s.contains('/'),
    ensures
        crate::text::rfind_char(q + seq!['/'] + s, '/') == Some(q.len()),
    decreases s.len(),
{
    let p = q + seq!['/'] + s;
    if s.len() == 0 {
        assert(p.last() == '/');
    } else {
        assert(p.last() == s.last());
        assert(s.last() != '/') by {
            assert(s[s.len() - 1] == s.last());
        }
        let t = s.drop_last();
        assert(!t.contains('/')) by {
            if t.contains('/') {
                let k = choose|k: int| 0 <= k < t.len() && t[k] == '/';
                assert(s[k] == '/');
            }
        }
        assert(p.drop_last() =~= q + seq!['/'] + t);
        lemma_last_slash(q, t);
    }
}

/// Going up from a path that holds a `/` removes exactly its last
/// `/`-separated part: the parent of `q + "/" + s`, where `s` holds no `/`,
/// is `q`, whatever `q` holds.
pub proof fn law_parent_drops_last_part(q: Seq<char>, s: Seq<char>)
    requires
        !s.contains('/'),
    ensures
        parent_path_spec(q + seq!['/'] + s) == Some(q),
{
    let p = q + seq!['/'] + s;
    lemma_last_slash(q, s);
    assert(p.take(q.len() as int) =~= q);
}

/// Whether `dir` ends with a colon, written out.
pub open spec fn ends_in_colon(dir: Seq<char>) -> bool {
    dir.len() > 0 && dir.last() == ':'
}

/// The full path of an entry `name` listed in `dir`, written out: right
/// after a colon that ends `dir`, after a `/` otherwise.
pub open spec fn full_path_of(dir: Seq<char>, name: Seq<char>) -> Seq<char> {
    if ends_in_colon(dir) {
        dir + name
    } else {
        dir + seq!['/'] + name
    }
}

proof fn lemma_entry_path_written_out(dir: Seq<char>, name: Seq<char>)
    ensures
        entry_path_spec(dir, name) == full_path_of(dir, name),
{
    reveal_strlit(":");
    reveal_strlit("/");
    if ends_with(dir, ":"@) {
        assert(dir.skip(dir.len() - 1)[0] == dir.last());
    } else if ends_in_colon(dir) {
        assert(dir.skip(dir.len() - 1) =~= ":"@);
    }
    assert("/"@ =~= seq!['/']);
}

/// The kind of a listed entry is found by its full path: for the entry at
/// `k`, when no earlier entry has the same full path, the path `dir:name`
/// or `dir/name` (see [`full_path_of`]) is a directory exactly when that
/// entry is one.
pub proof fn law_listed_entry_kind(files: Seq<FileInfo>, dir: Seq<char>, k: int)
    requires
        0 <= k < files.len(),
        forall|j: int|
            0 <= j < k ==> full_path_of(dir, #[trigger] files[j].name@) != full_path_of(
                dir,
                files[k].name@,
            ),
    ensures
        dir_of(files, dir, full_path_of(dir, files[k].name@)) == files[k].is_dir,
    decreases k,
{
    lemma_entry_path_written_out(dir, files[k].name@);
    lemma_entry_path_written_out(dir, files[0].name@);
    if k > 0 {
        let rest = files.drop_first();
        assert(rest[k - 1] == files[k]);
        assert forall|j: int| 0 <= j < k - 1 implies full_path_of(dir, #[trigger] rest[j].name@)
            != full_path_of(dir, rest[k - 1].name@) by {
            assert(rest[j] == files[j + 1]);
        }
        assert(full_path_of(dir, files[0].name@) != full_path_of(dir, files[k].name@));
        law_listed_entry_kind(rest, dir, k - 1);
    }
}

/// A selected path that is the full path of a listed entry (the first with
/// that full path) is reported with that entry's kind, so a selected folder
/// is copied into a folder of its own and deleted with `purge`.
pub proof fn law_selected_entry_kind(s: RcloneUI, i: int, k: int)
    requires
        0 <= i < s.selected_paths@.len(),
        0 <= k < s.current_files@.len(),
        s.selected_paths@[i]@ == full_path_of(s.current_path@, s.current_files@[k].name@),
        forall|j: int|
            0 <= j < k ==> full_path_of(s.current_path@, #[trigger] s.current_files@[j].name@)
                != full_path_of(s.current_path@, s.current_files@[k].name@),
    ensures
        selected_info_spec(s)[i] == (s.selected_paths@[i]@, s.current_files@[k].is_dir),
{
    law_listed_entry_kind(s.current_files@, s.current_path@, k);
}

/// Opening another path clears the selection: after asking for a path
/// other than the current one and opening it, it is the current path and
/// nothing is selected.
pub proof fn law_open_clears_selection(s0: RcloneUI, p: Seq<char>, s1: RcloneUI, s2: RcloneUI)
    requires
        s0.current_path@ != p,
        navigated(s0, s1, p),
        applied_load(s1, s2),
    ensures
        s2.current_path@ == p,
        s2.selected_paths@.len() == 0,
{
}

/// Going back, and opening the path gone back to, clears the selection too.
pub proof fn law_back_clears_selection(s0: RcloneUI, s1: RcloneUI, s2: RcloneUI)
    requires
        s0.history_back@.len() > 0,
        went_back(s0, s1),
        applied_load(s1, s2),
    ensures
        s2.current_path == s0.history_back@.last(),
        s2.selected_paths@.len() == 0,
{
}

} // verus!
