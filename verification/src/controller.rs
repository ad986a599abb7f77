//! The browsing controller: every user intent and every background
//! completion enters here as a message, and leaves as a new state plus a
//! list of actions for the process edge to perform (listings to request,
//! transfers to start, dialogs to show). All decisions are made
//! synchronously in one place; mode changes are atomic, so no handler
//! ever reads and re-writes a shared cell in the same reaction.

use vstd::prelude::*;
use vstd::string::*;

use crate::client::{sort_listings, sorted_listings, MkdirError, RcloneClient, RcloneFileListing};
use crate::history::NavigationHistory;
use crate::model::{FilePickerMode, RcloneJob, RcloneJobStatus, RcloneJobType};
use crate::path_tools::{
    has_filename_marker, parent_defined, spec_filename, spec_join, spec_parent, RclonePath,
};
use crate::registry::{with_status, JobRegistry};

verus! {

/// What the listing pane is showing.
pub enum FileListingViewState {
    Loading,
    Loaded,
    Error(String),
}

/// Every message the controller reacts to.
pub enum AppInMsg {
    PasswordReceived(String),
    ClientConnectionFailed,
    ClientConnected(RcloneClient),
    RemotesRefreshRequested,
    RemotesConfigurationRequested,
    RemoteSelectionChanged(usize),
    PathRefreshRequested,
    PathParentRequested,
    PathUndoRequested,
    PathRedoRequested,
    PathEntered(RclonePath),
    PathChanged(RclonePath),
    OpenRequested(RclonePath),
    UploadRequested(RclonePath, RclonePath),
    FileListingSelectionChanged,
    FileListingPositionActivated(u32),
    FileListingErrorDetailRequested,
    FilesDropped(Vec<RclonePath>),
    ReturnToSelectModeRequested,
    CreateFolderRequested,
    CreateFolderConfirmed(String),
    MoveKeyPressed,
    CopyKeyPressed,
    RenameKeyPressed,
    MoveSelectionRequested,
    MoveTargetConfirmed,
    CopySelectionRequested,
    CopyTargetConfirmed,
    RenameSelectionRequested,
    RenameConfirmed(RclonePath, String),
    DeleteSelectionRequested,
    DeleteConfirmed(RclonePath, bool),
    TriggerGenericError(String, String, bool),
    FilePickerModeChange(FilePickerMode),
}

/// Results delivered back from background work.
pub enum AppOutCmd {
    FileListingAvailable(Vec<RcloneFileListing>),
    CommandFailed(String),
    JobUpdated(u128, RcloneJobStatus),
}

/// What the process edge must do after a reaction.
pub enum Action {
    /// List the configured remotes and hand them to `apply_remotes`.
    RefreshRemotes,
    /// List the directory and deliver `FileListingAvailable` or
    /// `CommandFailed`.
    RequestListing(RclonePath),
    /// Probe the transfer tool with these credentials and deliver
    /// `ClientConnected` or `ClientConnectionFailed`.
    Connect { password: Option<String> },
    /// Run the transfer the job describes and deliver `JobUpdated`.
    StartTransfer(RcloneJob),
    /// Run the rename and deliver `JobUpdated` for the identifier.
    StartRename { uuid: u128, path: RclonePath, new_name: String },
    /// Pick a temporary local file for the download and call
    /// `start_open`.
    PrepareOpen(RclonePath),
    /// Hand the downloaded file to the default application.
    OpenLocalFile(RclonePath),
    /// Create the directory and hand the outcome to
    /// `apply_mkdir_result`.
    MakeDirectory(RclonePath),
    /// Read the widget selection and call `apply_selection`.
    ReadSelection,
    /// Clear the widget selection.
    ClearSelection,
    /// The picker mode changed: update row sensitivity and deliver
    /// `FilePickerModeChange`.
    ModeChanged(FilePickerMode),
    /// Deliver one notification to each listed subscriber.
    NotifySubscribers(Vec<u64>),
    /// Feed this message back into `update`.
    Forward(AppInMsg),
    ShowError { title: String, detail: String, fatal: bool },
    ShowNotice { title: String, detail: String },
    PromptNewFolderName,
    PromptRename(RclonePath),
    ConfirmDelete(RclonePath, bool),
}

/// The controller's whole state.
pub struct App {
    pub client: Option<RcloneClient>,
    pub requires_password: bool,
    pub path: RclonePath,
    pub history: NavigationHistory,
    pub picker_mode: FilePickerMode,
    pub registry: JobRegistry,
    pub remotes: Vec<String>,
    pub listings: Vec<RcloneFileListing>,
    pub selected_file_listing_copy: Option<RcloneFileListing>,
    pub file_listing_view_state: FileListingViewState,
}

pub open spec fn listing_paths_marked(s: Seq<RcloneFileListing>) -> bool {
    forall|i: int| 0 <= i < s.len() ==> has_filename_marker(#[trigger] s[i].path@)
}

pub open spec fn same_client(pre: App, post: App) -> bool {
    post.client == pre.client && post.requires_password == pre.requires_password
}

pub open spec fn same_history(pre: App, post: App) -> bool {
    post.history.back_seq() == pre.history.back_seq() && post.history.forward_seq()
        == pre.history.forward_seq()
}

pub open spec fn same_nav(pre: App, post: App) -> bool {
    post.path == pre.path && same_history(pre, post)
}

pub open spec fn same_picker(pre: App, post: App) -> bool {
    post.picker_mode == pre.picker_mode
}

pub open spec fn same_registry(pre: App, post: App) -> bool {
    post.registry == pre.registry
}

pub open spec fn same_remotes(pre: App, post: App) -> bool {
    post.remotes == pre.remotes
}

pub open spec fn same_listing_view(pre: App, post: App) -> bool {
    post.listings == pre.listings && post.selected_file_listing_copy
        == pre.selected_file_listing_copy && post.file_listing_view_state
        == pre.file_listing_view_state
}

pub open spec fn unchanged(pre: App, post: App) -> bool {
    same_client(pre, post) && same_nav(pre, post) && same_picker(pre, post) && same_registry(
        pre,
        post,
    ) && same_remotes(pre, post) && same_listing_view(pre, post)
}

/// The state change shared by every direct navigation: the selection is
/// forgotten, the pane shows the spinner, stale rows are dropped, and the
/// address becomes `dest`.
pub open spec fn went_to(pre: App, post: App, dest: RclonePath) -> bool {
    post.path == dest && post.selected_file_listing_copy is None
        && post.file_listing_view_state is Loading && post.listings@.len() == 0 && same_client(
        pre,
        post,
    ) && same_picker(pre, post) && same_registry(pre, post) && same_remotes(pre, post)
}

/// A fresh job for `job_type` was committed to the registry, and the
/// actions carry one notification round for it.
pub open spec fn job_started(pre: App, post: App, job: RcloneJob) -> bool {
    job.status is Ongoing && post.registry.job_map() == pre.registry.job_map().insert(
        job.uuid,
        job,
    ) && post.registry.mutations() == pre.registry.mutations() + 1
        && post.registry.subscribers_seq() == pre.registry.subscribers_seq()
}

/// What each message demands of the state it meets: a selected remote row
/// must exist, parent resolution must be defined where it is taken, paths
/// that will be named must carry a filename marker, and one more mutation
/// must fit in the registry's counter.
pub open spec fn update_requires(pre: App, msg: AppInMsg) -> bool {
    pre.wf() && match msg {
        AppInMsg::RemoteSelectionChanged(row) => row < pre.remotes@.len(),
        AppInMsg::PathParentRequested => parent_defined(pre.path@),
        AppInMsg::RenameConfirmed(path, _) => parent_defined(path@) && pre.registry.mutations()
            < u64::MAX,
        AppInMsg::UploadRequested(_, _) => pre.registry.mutations() < u64::MAX,
        AppInMsg::MoveTargetConfirmed => pre.registry.mutations() < u64::MAX,
        AppInMsg::CopyTargetConfirmed => pre.registry.mutations() < u64::MAX,
        AppInMsg::DeleteConfirmed(_, _) => pre.registry.mutations() < u64::MAX,
        AppInMsg::FilesDropped(paths) => forall|k: int|
            0 <= k < paths@.len() ==> has_filename_marker(#[trigger] paths@[k]@),
        _ => true,
    }
}

/// The transition relation of the controller: for each message, the exact
/// new state and the exact actions handed to the process edge.
pub open spec fn update_spec(pre: App, post: App, msg: AppInMsg, actions: Seq<Action>) -> bool {
    update_spec_session(pre, post, msg, actions) && update_spec_nav(pre, post, msg, actions)
        && update_spec_picker(pre, post, msg, actions) && update_spec_jobs(
        pre,
        post,
        msg,
        actions,
    )
}

/// Session plumbing, informational dialogs, and selection reads.
pub open spec fn update_spec_session(
    pre: App,
    post: App,
    msg: AppInMsg,
    actions: Seq<Action>,
) -> bool {
    match msg {
        AppInMsg::PasswordReceived(pw) => unchanged(pre, post) && actions == seq![
            Action::Connect { password: Some(pw) },
        ],
        AppInMsg::ClientConnectionFailed => unchanged(pre, post) && actions.len() == 1 && (
        match actions[0] {
            Action::ShowError { title, detail, fatal } => title@
                == "Could not initialize rclone"@ && detail@
                == "Please make sure rclone v1.66 or higher is installed and available from your system path."@
                && fatal,
            _ => false,
        }),
        AppInMsg::ClientConnected(c) => post.client == Some(c) && post.requires_password
            == pre.requires_password && same_nav(pre, post) && same_picker(pre, post)
            && same_registry(pre, post) && same_remotes(pre, post) && same_listing_view(pre, post)
            && actions == seq![Action::RefreshRemotes],
        AppInMsg::RemotesRefreshRequested => unchanged(pre, post) && actions == seq![
            Action::RefreshRemotes,
        ],
        AppInMsg::RemotesConfigurationRequested => unchanged(pre, post) && actions.len() == 1 && (
        match actions[0] {
            Action::ShowNotice { title, detail } => title@ == "Terminal time!"@ && detail@
                == "The Rclone CLI can be used to configure a wide variety of cloud storage providers and protocols. Open up your favorite terminal and enter 'rclone config' to add, edit or delete remotes."@,
            _ => false,
        }),
        AppInMsg::FileListingSelectionChanged => unchanged(pre, post) && actions == seq![
            Action::ReadSelection,
        ],
        AppInMsg::FileListingErrorDetailRequested => unchanged(pre, post) && (
        match pre.file_listing_view_state {
            FileListingViewState::Error(e) => actions.len() == 1 && (match actions[0] {
                Action::ShowError { title, detail, fatal } => title@
                    == "Something went wrong"@ && detail@ == e@ && !fatal,
                _ => false,
            }),
            _ => actions.len() == 0,
        }),
        AppInMsg::CreateFolderRequested => unchanged(pre, post) && actions == seq![
            Action::PromptNewFolderName,
        ],
        AppInMsg::TriggerGenericError(t, d, f) => unchanged(pre, post) && actions.len() == 1 && (
        match actions[0] {
            Action::ShowError { title, detail, fatal } => title == t && detail == d && fatal
                == f,
            _ => false,
        }),
        AppInMsg::OpenRequested(p) => unchanged(pre, post) && actions == seq![
            Action::PrepareOpen(p),
        ],
        _ => true,
    }
}

/// Navigation: every way the current address changes.
pub open spec fn update_spec_nav(
    pre: App,
    post: App,
    msg: AppInMsg,
    actions: Seq<Action>,
) -> bool {
    match msg {
        AppInMsg::RemoteSelectionChanged(row) => ({
            let dest_view = pre.remotes@[row as int]@;
            went_to_view(pre, post, dest_view) && (if dest_view != pre.path@ {
                post.history.back_seq() == pre.history.back_seq().push(pre.path)
                    && post.history.forward_seq().len() == 0
            } else {
                same_history(pre, post)
            }) && actions.len() == 1 && (match actions[0] {
                Action::RequestListing(p) => p@ == dest_view,
                _ => false,
            })
        }),
        AppInMsg::PathRefreshRequested => went_to(pre, post, pre.path) && same_history(
            pre,
            post,
        ) && actions == seq![Action::RequestListing(pre.path)],
        AppInMsg::PathParentRequested => went_to_view(pre, post, spec_parent(pre.path@))
            && post.history.back_seq() == pre.history.back_seq().push(pre.path)
            && post.history.forward_seq().len() == 0 && actions.len() == 1 && (match actions[0] {
            Action::RequestListing(p) => p@ == spec_parent(pre.path@),
            _ => false,
        }),
        AppInMsg::PathUndoRequested => (if pre.history.back_seq().len() == 0 {
            unchanged(pre, post) && actions.len() == 0
        } else {
            went_to(pre, post, pre.history.back_seq().last()) && post.history.back_seq()
                == pre.history.back_seq().drop_last() && post.history.forward_seq()
                == pre.history.forward_seq().push(pre.path) && actions == seq![
                Action::RequestListing(pre.history.back_seq().last()),
            ]
        }),
        AppInMsg::PathRedoRequested => (if pre.history.forward_seq().len() == 0 {
            unchanged(pre, post) && actions.len() == 0
        } else {
            went_to(pre, post, pre.history.forward_seq().last()) && post.history.forward_seq()
                == pre.history.forward_seq().drop_last() && post.history.back_seq()
                == pre.history.back_seq().push(pre.path) && actions == seq![
                Action::RequestListing(pre.history.forward_seq().last()),
            ]
        }),
        AppInMsg::PathEntered(p) => went_to(pre, post, p) && post.history.back_seq()
            == pre.history.back_seq().push(pre.path) && post.history.forward_seq().len() == 0
            && actions == seq![Action::RequestListing(p)],
        AppInMsg::PathChanged(p) => went_to(pre, post, p) && same_history(pre, post)
            && actions == seq![Action::RequestListing(p)],
        AppInMsg::FileListingPositionActivated(pos) => (if pos < pre.listings@.len() {
            let item = pre.listings@[pos as int];
            if item.is_dir {
                went_to(pre, post, item.path) && post.history.back_seq()
                    == pre.history.back_seq().push(pre.path) && post.history.forward_seq().len()
                    == 0 && actions == seq![Action::RequestListing(item.path)]
            } else {
                unchanged(pre, post) && actions == seq![Action::PrepareOpen(item.path)]
            }
        } else {
            unchanged(pre, post) && actions.len() == 0
        }),
        _ => true,
    }
}

/// The destination-picker state machine.
pub open spec fn update_spec_picker(
    pre: App,
    post: App,
    msg: AppInMsg,
    actions: Seq<Action>,
) -> bool {
    match msg {
        AppInMsg::ReturnToSelectModeRequested => post.picker_mode is Select && same_client(
            pre,
            post,
        ) && same_nav(pre, post) && same_registry(pre, post) && same_remotes(pre, post)
            && same_listing_view(pre, post) && actions == seq![
            Action::ModeChanged(FilePickerMode::Select),
        ],
        AppInMsg::MoveKeyPressed => unchanged(pre, post) && (match pre.picker_mode {
            FilePickerMode::Select => actions == seq![
                Action::Forward(AppInMsg::MoveSelectionRequested),
            ],
            FilePickerMode::Move(_) => actions == seq![
                Action::Forward(AppInMsg::MoveTargetConfirmed),
            ],
            FilePickerMode::Copy(_) => actions.len() == 0,
        }),
        AppInMsg::CopyKeyPressed => unchanged(pre, post) && (match pre.picker_mode {
            FilePickerMode::Select => actions == seq![
                Action::Forward(AppInMsg::CopySelectionRequested),
            ],
            FilePickerMode::Copy(_) => actions == seq![
                Action::Forward(AppInMsg::CopyTargetConfirmed),
            ],
            FilePickerMode::Move(_) => actions.len() == 0,
        }),
        AppInMsg::RenameKeyPressed => unchanged(pre, post) && (match pre.picker_mode {
            FilePickerMode::Select => actions == seq![
                Action::Forward(AppInMsg::RenameSelectionRequested),
            ],
            _ => actions.len() == 0,
        }),
        AppInMsg::MoveSelectionRequested => (match pre.selected_file_listing_copy {
            Some(item) => post.picker_mode == FilePickerMode::Move(item.path) && same_client(
                pre,
                post,
            ) && same_nav(pre, post) && same_registry(pre, post) && same_remotes(pre, post)
                && same_listing_view(pre, post) && actions == seq![
                Action::ModeChanged(FilePickerMode::Move(item.path)),
            ],
            None => unchanged(pre, post) && actions.len() == 0,
        }),
        AppInMsg::CopySelectionRequested => (match pre.selected_file_listing_copy {
            Some(item) => post.picker_mode == FilePickerMode::Copy(item.path) && same_client(
                pre,
                post,
            ) && same_nav(pre, post) && same_registry(pre, post) && same_remotes(pre, post)
                && same_listing_view(pre, post) && actions == seq![
                Action::ModeChanged(FilePickerMode::Copy(item.path)),
            ],
            None => unchanged(pre, post) && actions.len() == 0,
        }),
        AppInMsg::MoveTargetConfirmed => (match pre.picker_mode {
            FilePickerMode::Move(source) => post.picker_mode is Select && same_client(pre, post)
                && same_nav(pre, post) && same_remotes(pre, post) && same_listing_view(pre, post)
                && actions.len() == 3 && actions[0] == Action::ModeChanged(
                FilePickerMode::Select,
            ) && (match actions[1] {
                Action::NotifySubscribers(ns) => ns@ == pre.registry.subscribers_seq(),
                _ => false,
            }) && (match actions[2] {
                Action::StartTransfer(job) => job_started(pre, post, job) && (
                match job.job_type {
                    RcloneJobType::Move { source_path, target_path } => source_path == source
                        && target_path@ == spec_join(pre.path@, spec_filename(source@)),
                    _ => false,
                }),
                _ => false,
            }),
            _ => unchanged(pre, post) && actions.len() == 0,
        }),
        AppInMsg::CopyTargetConfirmed => (match pre.picker_mode {
            FilePickerMode::Copy(source) => post.picker_mode is Select && same_client(pre, post)
                && same_nav(pre, post) && same_remotes(pre, post) && same_listing_view(pre, post)
                && actions.len() == 3 && actions[0] == Action::ModeChanged(
                FilePickerMode::Select,
            ) && (match actions[1] {
                Action::NotifySubscribers(ns) => ns@ == pre.registry.subscribers_seq(),
                _ => false,
            }) && (match actions[2] {
                Action::StartTransfer(job) => job_started(pre, post, job) && (
                match job.job_type {
                    RcloneJobType::Copy { source_path, target_path } => source_path == source
                        && target_path@ == spec_join(pre.path@, spec_filename(source@)),
                    _ => false,
                }),
                _ => false,
            }),
            _ => unchanged(pre, post) && actions.len() == 0,
        }),
        AppInMsg::RenameSelectionRequested => (match pre.selected_file_listing_copy {
            Some(item) => unchanged(pre, post) && actions == seq![
                Action::PromptRename(item.path),
            ],
            None => unchanged(pre, post) && actions.len() == 0,
        }),
        AppInMsg::DeleteSelectionRequested => (match pre.selected_file_listing_copy {
            Some(item) => unchanged(pre, post) && actions == seq![
                Action::ConfirmDelete(item.path, item.is_dir),
            ],
            None => unchanged(pre, post) && actions.len() == 0,
        }),
        AppInMsg::FilePickerModeChange(m) => unchanged(pre, post) && (match m {
            FilePickerMode::Select => actions.len() == 0,
            _ => actions == seq![Action::ClearSelection],
        }),
        _ => true,
    }
}

/// Reactions that commit a new job to the registry.
pub open spec fn update_spec_jobs(
    pre: App,
    post: App,
    msg: AppInMsg,
    actions: Seq<Action>,
) -> bool {
    match msg {
        AppInMsg::UploadRequested(local, remote) => same_client(pre, post) && same_nav(pre, post)
            && same_picker(pre, post) && same_remotes(pre, post) && same_listing_view(pre, post)
            && actions.len() == 2 && (match actions[0] {
            Action::NotifySubscribers(ns) => ns@ == pre.registry.subscribers_seq(),
            _ => false,
        }) && (match actions[1] {
            Action::StartTransfer(job) => job_started(pre, post, job) && job.job_type == (
            RcloneJobType::Upload { local_path: local, remote_path: remote }),
            _ => false,
        }),
        AppInMsg::FilesDropped(paths) => unchanged(pre, post) && actions.len() == paths@.len()
            && (forall|k: int|
            0 <= k < paths@.len() ==> (match #[trigger] actions[k] {
                Action::Forward(m) => match m {
                    AppInMsg::UploadRequested(l, r) => l == paths@[k] && r@ == spec_join(
                        pre.path@,
                        spec_filename(paths@[k]@),
                    ),
                    _ => false,
                },
                _ => false,
            })),
        AppInMsg::CreateFolderConfirmed(name) => unchanged(pre, post) && (if pre.client is Some {
            actions.len() == 1 && (match actions[0] {
                Action::MakeDirectory(p) => p@ == spec_join(pre.path@, name@),
                _ => false,
            })
        } else {
            actions.len() == 0
        }),
        AppInMsg::RenameConfirmed(path, new_name) => same_client(pre, post) && same_nav(pre, post)
            && same_picker(pre, post) && same_remotes(pre, post) && same_listing_view(pre, post)
            && actions.len() == 2 && (match actions[0] {
            Action::NotifySubscribers(ns) => ns@ == pre.registry.subscribers_seq(),
            _ => false,
        }) && (match actions[1] {
            Action::StartRename { uuid, path: p, new_name: n } => p == path && n == new_name
                && post.registry.job_map().dom().contains(uuid) && ({
                let job = post.registry.job_map()[uuid];
                job_started(pre, post, job) && job.uuid == uuid && (match job.job_type {
                    RcloneJobType::Rename(np) => np@ == spec_join(
                        spec_parent(path@),
                        new_name@,
                    ),
                    _ => false,
                })
            }),
            _ => false,
        }),
        AppInMsg::DeleteConfirmed(path, is_dir) => same_client(pre, post) && same_nav(pre, post)
            && same_picker(pre, post) && same_remotes(pre, post) && same_listing_view(pre, post)
            && actions.len() == 2 && (match actions[0] {
            Action::NotifySubscribers(ns) => ns@ == pre.registry.subscribers_seq(),
            _ => false,
        }) && (match actions[1] {
            Action::StartTransfer(job) => job_started(pre, post, job) && job.job_type
                == RcloneJobType::Delete(path),
            _ => false,
        }),
        _ => true,
    }
}

/// Like `went_to`, for a destination known only by its text.
pub open spec fn went_to_view(pre: App, post: App, dest_view: Seq<char>) -> bool {
    post.path@ == dest_view && post.selected_file_listing_copy is None
        && post.file_listing_view_state is Loading && post.listings@.len() == 0 && same_client(
        pre,
        post,
    ) && same_picker(pre, post) && same_registry(pre, post) && same_remotes(pre, post)
}

impl App {
    pub open spec fn wf(&self) -> bool {
        &&& self.registry.wf()
        &&& match self.picker_mode {
            FilePickerMode::Select => true,
            FilePickerMode::Move(p) => has_filename_marker(p@),
            FilePickerMode::Copy(p) => has_filename_marker(p@),
        }
        &&& listing_paths_marked(self.listings@)
        &&& match self.selected_file_listing_copy {
            Some(l) => has_filename_marker(l.path@),
            None => true,
        }
    }

    pub fn new() -> (r: Self)
        ensures
            r.wf(),
            r.client is None,
            r.requires_password,
            r.path@ == Seq::<char>::empty(),
            r.history.back_seq() == Seq::<RclonePath>::empty(),
            r.history.forward_seq() == Seq::<RclonePath>::empty(),
            r.picker_mode is Select,
            r.registry.jobs_seq() == Seq::<RcloneJob>::empty(),
            r.registry.mutations() == 0,
            r.remotes@ == Seq::<String>::empty(),
            r.listings@ == Seq::<RcloneFileListing>::empty(),
            r.selected_file_listing_copy is None,
            r.file_listing_view_state is Loading,
    {
        let path = RclonePath::from("");
        proof {
            reveal_strlit("");
            assert(path@ =~= Seq::<char>::empty());
        }
        App {
            client: None,
            requires_password: true,
            path,
            history: NavigationHistory::new(),
            picker_mode: FilePickerMode::Select,
            registry: JobRegistry::new(),
            remotes: Vec::new(),
            listings: Vec::new(),
            selected_file_listing_copy: None,
            file_listing_view_state: FileListingViewState::Loading,
        }
    }

    /// The navigation core: forget the selection, show the spinner, drop
    /// stale rows, move to `dest`, and ask for its listing.
    fn go_to(&mut self, dest: RclonePath) -> (a: Action)
        ensures
            went_to(*old(self), *final(self), dest),
            final(self).history == old(self).history,
            a == Action::RequestListing(dest),
    {
        self.selected_file_listing_copy = None;
        self.file_listing_view_state = FileListingViewState::Loading;
        self.listings = Vec::new();
        let a = Action::RequestListing(dest.clone());
        self.path = dest;
        a
    }

    /// Creates and registers one fresh job, returning it beside the
    /// notification round its insertion owes.
    fn start_job(&mut self, job_type: RcloneJobType) -> (r: (RcloneJob, Vec<u64>))
        requires
            old(self).registry.wf(),
            old(self).registry.mutations() < u64::MAX,
        ensures
            final(self).registry.wf(),
            r.0.job_type == job_type,
            job_started(*old(self), *final(self), r.0),
            r.1@ == old(self).registry.subscribers_seq(),
            same_client(*old(self), *final(self)),
            same_nav(*old(self), *final(self)),
            same_picker(*old(self), *final(self)),
            same_remotes(*old(self), *final(self)),
            same_listing_view(*old(self), *final(self)),
    {
        let job = RcloneJob::new(job_type);
        let job_copy = job.clone();
        let notify = self.registry.insert(job);
        (job_copy, notify)
    }

    /// One reaction: the new state and the actions for the process edge,
    /// exactly as `update_spec` states them.
    #[verifier::rlimit(100)]
    pub fn update(&mut self, msg: AppInMsg) -> (actions: Vec<Action>)
        requires
            update_requires(*old(self), msg),
        ensures
            final(self).wf(),
            update_spec(*old(self), *final(self), msg, actions@),
            update_spec_session(*old(self), *final(self), msg, actions@),
            update_spec_nav(*old(self), *final(self), msg, actions@),
            update_spec_picker(*old(self), *final(self), msg, actions@),
            update_spec_jobs(*old(self), *final(self), msg, actions@),
    {
        let mut actions: Vec<Action> = Vec::new();
        match msg {
            AppInMsg::PasswordReceived(pw) => {
                actions.push(Action::Connect { password: Some(pw) });
                proof {
                    assert(actions@ =~= seq![actions@[0]]);
                }
            },
            AppInMsg::ClientConnectionFailed => {
                actions.push(
                    Action::ShowError {
                        title: String::from_str("Could not initialize rclone"),
                        detail: String::from_str(
                            "Please make sure rclone v1.66 or higher is installed and available from your system path.",
                        ),
                        fatal: true,
                    },
                );
            },
            AppInMsg::ClientConnected(c) => {
                self.client = Some(c);
                actions.push(Action::RefreshRemotes);
                proof {
                    assert(actions@ =~= seq![Action::RefreshRemotes]);
                }
            },
            AppInMsg::RemotesRefreshRequested => {
                actions.push(Action::RefreshRemotes);
                proof {
                    assert(actions@ =~= seq![Action::RefreshRemotes]);
                }
            },
            AppInMsg::RemotesConfigurationRequested => {
                actions.push(
                    Action::ShowNotice {
                        title: String::from_str("Terminal time!"),
                        detail: String::from_str(
                            "The Rclone CLI can be used to configure a wide variety of cloud storage providers and protocols. Open up your favorite terminal and enter 'rclone config' to add, edit or delete remotes.",
                        ),
                    },
                );
            },
            AppInMsg::RemoteSelectionChanged(row) => {
                let raw = self.remotes[row].clone();
                let p = RclonePath::from(raw.as_str());
                if !(p == self.path) {
                    let leaving = self.path.clone();
                    self.history.push_current_and_clear_forward(leaving);
                }
                let a = self.go_to(p);
                actions.push(a);
            },
            AppInMsg::PathRefreshRequested => {
                let dest = self.path.clone();
                let a = self.go_to(dest);
                actions.push(a);
                proof {
                    assert(actions@ =~= seq![Action::RequestListing(old(self).path)]);
                }
            },
            AppInMsg::PathParentRequested => {
                let parent = self.path.resolve_to_parent();
                let leaving = self.path.clone();
                self.history.push_current_and_clear_forward(leaving);
                let a = self.go_to(parent);
                actions.push(a);
            },
            AppInMsg::PathUndoRequested => {
                let current = self.path.clone();
                match self.history.undo(&current) {
                    Some(p) => {
                        let a = self.go_to(p);
                        actions.push(a);
                        proof {
                            assert(actions@ =~= seq![
                                Action::RequestListing(old(self).history.back_seq().last()),
                            ]);
                        }
                    },
                    None => {},
                }
            },
            AppInMsg::PathRedoRequested => {
                let current = self.path.clone();
                match self.history.redo(&current) {
                    Some(p) => {
                        let a = self.go_to(p);
                        actions.push(a);
                        proof {
                            assert(actions@ =~= seq![
                                Action::RequestListing(old(self).history.forward_seq().last()),
                            ]);
                        }
                    },
                    None => {},
                }
            },
            AppInMsg::PathEntered(p) => {
                let leaving = self.path.clone();
                self.history.push_current_and_clear_forward(leaving);
                let a = self.go_to(p);
                actions.push(a);
                proof {
                    assert(actions@ =~= seq![Action::RequestListing(final(self).path)]);
                }
            },
            AppInMsg::PathChanged(p) => {
                let a = self.go_to(p);
                actions.push(a);
                proof {
                    assert(actions@ =~= seq![Action::RequestListing(final(self).path)]);
                }
            },
            AppInMsg::OpenRequested(p) => {
                actions.push(Action::PrepareOpen(p));
                proof {
                    assert(actions@ =~= seq![actions@[0]]);
                }
            },
            AppInMsg::UploadRequested(local, remote) => {
                let (job, ns) = self.start_job(
                    RcloneJobType::Upload { local_path: local, remote_path: remote },
                );
                actions.push(Action::NotifySubscribers(ns));
                actions.push(Action::StartTransfer(job));
            },
            AppInMsg::FileListingSelectionChanged => {
                actions.push(Action::ReadSelection);
                proof {
                    assert(actions@ =~= seq![Action::ReadSelection]);
                }
            },
            AppInMsg::FileListingPositionActivated(pos) => {
                let idx = pos as usize;
                if idx < self.listings.len() {
                    let item = self.listings[idx].clone();
                    if item.is_dir {
                        let leaving = self.path.clone();
                        self.history.push_current_and_clear_forward(leaving);
                        let a = self.go_to(item.path);
                        actions.push(a);
                        proof {
                            assert(actions@ =~= seq![
                                Action::RequestListing(
                                    old(self).listings@[pos as int].path,
                                ),
                            ]);
                        }
                    } else {
                        actions.push(Action::PrepareOpen(item.path));
                        proof {
                            assert(actions@ =~= seq![
                                Action::PrepareOpen(old(self).listings@[pos as int].path),
                            ]);
                        }
                    }
                }
            },
            AppInMsg::FileListingErrorDetailRequested => {
                let detail_opt = match &self.file_listing_view_state {
                    FileListingViewState::Error(e) => Some(e.clone()),
                    _ => None,
                };
                match detail_opt {
                    Some(detail) => {
                        actions.push(
                            Action::ShowError {
                                title: String::from_str("Something went wrong"),
                                detail,
                                fatal: false,
                            },
                        );
                    },
                    None => {},
                }
            },
            AppInMsg::FilesDropped(paths) => {
                let mut i: usize = 0;
                while i < paths.len()
                    invariant
                        i <= paths@.len(),
                        forall|k: int|
                            0 <= k < paths@.len() ==> has_filename_marker(
                                #[trigger] paths@[k]@,
                            ),
                        actions@.len() == i,
                        forall|k: int|
                            0 <= k < i ==> (match #[trigger] actions@[k] {
                                Action::Forward(m) => match m {
                                    AppInMsg::UploadRequested(l, r) => l == paths@[k] && r@
                                        == spec_join(
                                        self.path@,
                                        spec_filename(paths@[k]@),
                                    ),
                                    _ => false,
                                },
                                _ => false,
                            }),
                    decreases paths@.len() - i,
                {
                    let p = paths[i].clone();
                    let name = p.filename();
                    let target = self.path.join(name.as_str());
                    actions.push(
                        Action::Forward(AppInMsg::UploadRequested(p, target)),
                    );
                    i += 1;
                }
            },
            AppInMsg::ReturnToSelectModeRequested => {
                self.picker_mode = FilePickerMode::Select;
                actions.push(Action::ModeChanged(FilePickerMode::Select));
                proof {
                    assert(actions@ =~= seq![Action::ModeChanged(FilePickerMode::Select)]);
                }
            },
            AppInMsg::CreateFolderRequested => {
                actions.push(Action::PromptNewFolderName);
                proof {
                    assert(actions@ =~= seq![Action::PromptNewFolderName]);
                }
            },
            AppInMsg::CreateFolderConfirmed(name) => {
                if self.client.is_some() {
                    let target = self.path.join(name.as_str());
                    actions.push(Action::MakeDirectory(target));
                }
            },
            AppInMsg::MoveKeyPressed => {
                match &self.picker_mode {
                    FilePickerMode::Select => {
                        actions.push(Action::Forward(AppInMsg::MoveSelectionRequested));
                        proof {
                            assert(actions@ =~= seq![
                                Action::Forward(AppInMsg::MoveSelectionRequested),
                            ]);
                        }
                    },
                    FilePickerMode::Move(_) => {
                        actions.push(Action::Forward(AppInMsg::MoveTargetConfirmed));
                        proof {
                            assert(actions@ =~= seq![
                                Action::Forward(AppInMsg::MoveTargetConfirmed),
                            ]);
                        }
                    },
                    FilePickerMode::Copy(_) => {},
                }
            },
            AppInMsg::CopyKeyPressed => {
                match &self.picker_mode {
                    FilePickerMode::Select => {
                        actions.push(Action::Forward(AppInMsg::CopySelectionRequested));
                        proof {
                            assert(actions@ =~= seq![
                                Action::Forward(AppInMsg::CopySelectionRequested),
                            ]);
                        }
                    },
                    FilePickerMode::Copy(_) => {
                        actions.push(Action::Forward(AppInMsg::CopyTargetConfirmed));
                        proof {
                            assert(actions@ =~= seq![
                                Action::Forward(AppInMsg::CopyTargetConfirmed),
                            ]);
                        }
                    },
                    FilePickerMode::Move(_) => {},
                }
            },
            AppInMsg::RenameKeyPressed => {
                match &self.picker_mode {
                    FilePickerMode::Select => {
                        actions.push(Action::Forward(AppInMsg::RenameSelectionRequested));
                        proof {
                            assert(actions@ =~= seq![
                                Action::Forward(AppInMsg::RenameSelectionRequested),
                            ]);
                        }
                    },
                    _ => {},
                }
            },
            AppInMsg::MoveSelectionRequested => {
                let sel = match &self.selected_file_listing_copy {
                    Some(item) => Some(item.path.clone()),
                    None => None,
                };
                match sel {
                    Some(p) => {
                        self.picker_mode = FilePickerMode::Move(p.clone());
                        actions.push(Action::ModeChanged(FilePickerMode::Move(p)));
                        proof {
                            assert(actions@ =~= seq![actions@[0]]);
                        }
                    },
                    None => {},
                }
            },
            AppInMsg::CopySelectionRequested => {
                let sel = match &self.selected_file_listing_copy {
                    Some(item) => Some(item.path.clone()),
                    None => None,
                };
                match sel {
                    Some(p) => {
                        self.picker_mode = FilePickerMode::Copy(p.clone());
                        actions.push(Action::ModeChanged(FilePickerMode::Copy(p)));
                        proof {
                            assert(actions@ =~= seq![actions@[0]]);
                        }
                    },
                    None => {},
                }
            },
            AppInMsg::MoveTargetConfirmed => {
                let source_opt = match &self.picker_mode {
                    FilePickerMode::Move(p) => Some(p.clone()),
                    _ => None,
                };
                match source_opt {
                    Some(source) => {
                        let name = source.filename();
                        let target = self.path.join(name.as_str());
                        self.picker_mode = FilePickerMode::Select;
                        let (job, ns) = self.start_job(
                            RcloneJobType::Move { source_path: source, target_path: target },
                        );
                        actions.push(Action::ModeChanged(FilePickerMode::Select));
                        actions.push(Action::NotifySubscribers(ns));
                        actions.push(Action::StartTransfer(job));
                    },
                    None => {},
                }
            },
            AppInMsg::CopyTargetConfirmed => {
                let source_opt = match &self.picker_mode {
                    FilePickerMode::Copy(p) => Some(p.clone()),
                    _ => None,
                };
                match source_opt {
                    Some(source) => {
                        let name = source.filename();
                        let target = self.path.join(name.as_str());
                        self.picker_mode = FilePickerMode::Select;
                        let (job, ns) = self.start_job(
                            RcloneJobType::Copy { source_path: source, target_path: target },
                        );
                        actions.push(Action::ModeChanged(FilePickerMode::Select));
                        actions.push(Action::NotifySubscribers(ns));
                        actions.push(Action::StartTransfer(job));
                    },
                    None => {},
                }
            },
            AppInMsg::RenameSelectionRequested => {
                let sel = match &self.selected_file_listing_copy {
                    Some(item) => Some(item.path.clone()),
                    None => None,
                };
                match sel {
                    Some(p) => {
                        actions.push(Action::PromptRename(p));
                        proof {
                            assert(actions@ =~= seq![actions@[0]]);
                        }
                    },
                    None => {},
                }
            },
            AppInMsg::RenameConfirmed(path, new_name) => {
                let parent = path.resolve_to_parent();
                let new_path = parent.join(new_name.as_str());
                let (job, ns) = self.start_job(RcloneJobType::Rename(new_path));
                actions.push(Action::NotifySubscribers(ns));
                actions.push(
                    Action::StartRename { uuid: job.uuid, path, new_name },
                );
            },
            AppInMsg::DeleteSelectionRequested => {
                let sel = match &self.selected_file_listing_copy {
                    Some(item) => Some((item.path.clone(), item.is_dir)),
                    None => None,
                };
                match sel {
                    Some((p, is_dir)) => {
                        actions.push(Action::ConfirmDelete(p, is_dir));
                        proof {
                            assert(actions@ =~= seq![actions@[0]]);
                        }
                    },
                    None => {},
                }
            },
            AppInMsg::DeleteConfirmed(path, is_dir) => {
                let (job, ns) = self.start_job(RcloneJobType::Delete(path.clone()));
                actions.push(Action::NotifySubscribers(ns));
                actions.push(Action::StartTransfer(job));
            },
            AppInMsg::TriggerGenericError(t, d, f) => {
                actions.push(Action::ShowError { title: t, detail: d, fatal: f });
            },
            AppInMsg::FilePickerModeChange(m) => {
                match m {
                    FilePickerMode::Select => {},
                    _ => {
                        actions.push(Action::ClearSelection);
                        proof {
                            assert(actions@ =~= seq![Action::ClearSelection]);
                        }
                    },
                }
            },
        }
        actions
    }

    /// One background completion: the new state and the actions, exactly
    /// as `update_cmd_spec` states them.
    pub fn update_cmd(&mut self, msg: AppOutCmd) -> (actions: Vec<Action>)
        requires
            old(self).wf(),
            (match msg {
                AppOutCmd::FileListingAvailable(listings) => listing_paths_marked(listings@),
                AppOutCmd::JobUpdated(_, _) => old(self).registry.mutations() < u64::MAX,
                _ => true,
            }),
        ensures
            final(self).wf(),
            update_cmd_spec(*old(self), *final(self), msg, actions@),
    {
        let mut actions: Vec<Action> = Vec::new();
        match msg {
            AppOutCmd::FileListingAvailable(listings) => {
                let sorted = sort_listings(&listings);
                proof {
                    broadcast use vstd::seq_lib::group_to_multiset_ensures;

                    assert forall|i: int|
                        0 <= i < sorted@.len() implies has_filename_marker(
                        #[trigger] sorted@[i].path@,
                    ) by {
                        assert(sorted@.to_multiset().contains(sorted@[i]));
                        assert(listings@.to_multiset().contains(sorted@[i]));
                        assert(listings@.contains(sorted@[i]));
                        let w = choose|k: int|
                            0 <= k < listings@.len() && listings@[k] == sorted@[i];
                        assert(has_filename_marker(listings@[w].path@));
                    }
                }
                if sorted.len() > 0 {
                    let first_is_dir = sorted[0].is_dir;
                    let in_copy_mode = match &self.picker_mode {
                        FilePickerMode::Copy(_) => true,
                        _ => false,
                    };
                    if !first_is_dir && in_copy_mode {
                        actions.push(Action::ClearSelection);
                        proof {
                            assert(actions@ =~= seq![Action::ClearSelection]);
                        }
                    }
                }
                self.listings = sorted;
                self.file_listing_view_state = FileListingViewState::Loaded;
            },
            AppOutCmd::CommandFailed(e) => {
                self.file_listing_view_state = FileListingViewState::Error(e);
            },
            AppOutCmd::JobUpdated(uuid, status) => {
                let lookup = match self.registry.get(uuid) {
                    Some(job) => {
                        let tmp = match &job.job_type {
                            RcloneJobType::Open { tmp_local_path, .. } => Some(
                                tmp_local_path.clone(),
                            ),
                            _ => None,
                        };
                        Some(tmp)
                    },
                    None => None,
                };
                let terminal = match &status {
                    RcloneJobStatus::Ongoing => false,
                    _ => true,
                };
                let r = self.registry.update_status(uuid, status);
                actions.push(Action::NotifySubscribers(r.1));
                match lookup {
                    Some(open_tmp) => {
                        match open_tmp {
                            Some(tmp) => {
                                actions.push(Action::OpenLocalFile(tmp));
                            },
                            None => {
                                if terminal {
                                    let here = self.path.clone();
                                    actions.push(
                                        Action::Forward(AppInMsg::PathChanged(here)),
                                    );
                                }
                            },
                        }
                    },
                    None => {},
                }
            },
        }
        actions
    }

    /// Replaces the remote list; when any remote is configured, browsing
    /// moves to the first one.
    pub fn apply_remotes(&mut self, remotes: Vec<String>) -> (actions: Vec<Action>)
        requires
            old(self).wf(),
        ensures
            final(self).wf(),
            final(self).remotes == remotes,
            same_client(*old(self), *final(self)),
            same_picker(*old(self), *final(self)),
            same_registry(*old(self), *final(self)),
            same_history(*old(self), *final(self)),
            (if remotes@.len() > 0 {
                final(self).path@ == remotes@[0]@ && final(self).selected_file_listing_copy
                    is None && final(self).file_listing_view_state is Loading && final(self).listings@.len() == 0 && actions@.len() == 1 && (match actions@[0] {
                    Action::RequestListing(p) => p@ == remotes@[0]@,
                    _ => false,
                })
            } else {
                final(self).path == old(self).path && same_listing_view(
                    *old(self),
                    *final(self),
                ) && actions@.len() == 0
            }),
    {
        let mut actions: Vec<Action> = Vec::new();
        self.remotes = remotes;
        if self.remotes.len() > 0 {
            let raw = self.remotes[0].clone();
            let p = RclonePath::from(raw.as_str());
            let a = self.go_to(p);
            actions.push(a);
        }
        actions
    }

    /// Mirrors the widget's selected row into the state. An out-of-range
    /// position (the toolkit's invalid-position marker) changes nothing.
    pub fn apply_selection(&mut self, position: u32)
        requires
            old(self).wf(),
        ensures
            final(self).wf(),
            (if position < old(self).listings@.len() {
                final(self).selected_file_listing_copy == Some(
                    old(self).listings@[position as int],
                ) && same_client(*old(self), *final(self)) && same_nav(
                    *old(self),
                    *final(self),
                ) && same_picker(*old(self), *final(self)) && same_registry(
                    *old(self),
                    *final(self),
                ) && same_remotes(*old(self), *final(self)) && final(self).listings == old(self).listings && final(self).file_listing_view_state == old(self).file_listing_view_state
            } else {
                unchanged(*old(self), *final(self))
            }),
    {
        let idx = position as usize;
        if idx < self.listings.len() {
            self.selected_file_listing_copy = Some(self.listings[idx].clone());
        }
    }

    /// Registers the download job that backs opening a remote file, once
    /// the process edge has chosen the temporary local file.
    pub fn start_open(&mut self, remote_path: RclonePath, tmp_local_path: RclonePath) -> (actions:
        Vec<Action>)
        requires
            old(self).wf(),
            old(self).registry.mutations() < u64::MAX,
        ensures
            final(self).wf(),
            same_client(*old(self), *final(self)),
            same_nav(*old(self), *final(self)),
            same_picker(*old(self), *final(self)),
            same_remotes(*old(self), *final(self)),
            same_listing_view(*old(self), *final(self)),
            actions@.len() == 2,
            (match actions@[0] {
                Action::NotifySubscribers(ns) => ns@ == old(self).registry.subscribers_seq(),
                _ => false,
            }),
            (match actions@[1] {
                Action::StartTransfer(job) => job_started(*old(self), *final(self), job)
                    && job.job_type == (RcloneJobType::Open { remote_path, tmp_local_path }),
                _ => false,
            }),
    {
        let mut actions: Vec<Action> = Vec::new();
        let (job, ns) = self.start_job(
            RcloneJobType::Open { remote_path, tmp_local_path },
        );
        actions.push(Action::NotifySubscribers(ns));
        actions.push(Action::StartTransfer(job));
        actions
    }

    /// Applies the outcome of a directory creation: success refreshes the
    /// current listing; the capability error explains itself and then
    /// navigates into the folder that could not persist; any other error
    /// is shown as it is.
    pub fn apply_mkdir_result(
        &mut self,
        target: RclonePath,
        result: Result<(), MkdirError>,
    ) -> (actions: Vec<Action>)
        requires
            old(self).wf(),
        ensures
            final(self).wf(),
            mkdir_result_spec(*old(self), *final(self), target, result, actions@),
    {
        let mut actions: Vec<Action> = Vec::new();
        match result {
            Ok(()) => {
                let here = self.path.clone();
                let a = self.go_to(here);
                actions.push(a);
                proof {
                    assert(actions@ =~= seq![Action::RequestListing(old(self).path)]);
                }
            },
            Err(MkdirError::NotAvailableHere) => {
                actions.push(
                    Action::ShowError {
                        title: String::from_str("Cannot create empty folder"),
                        detail: String::from_str(
                            "This may be a technical limitation of your storage provider, typically with object storage like Amazon S3.\n\nTo persist the folder, upload a file to it before leaving.",
                        ),
                        fatal: false,
                    },
                );
                if !(target == self.path) {
                    let leaving = self.path.clone();
                    self.history.push_current_and_clear_forward(leaving);
                }
                let a = self.go_to(target);
                actions.push(a);
            },
            Err(MkdirError::Generic(e)) => {
                actions.push(
                    Action::ShowError {
                        title: String::from_str("Something went wrong"),
                        detail: e,
                        fatal: false,
                    },
                );
            },
        }
        actions
    }
}

/// The transition relation of background completions.
pub open spec fn update_cmd_spec(pre: App, post: App, msg: AppOutCmd, actions: Seq<Action>) -> bool {
    match msg {
        AppOutCmd::FileListingAvailable(listings) => same_client(pre, post) && same_nav(pre, post)
            && same_picker(pre, post) && same_registry(pre, post) && same_remotes(pre, post)
            && post.selected_file_listing_copy == pre.selected_file_listing_copy
            && post.file_listing_view_state is Loaded && post.listings@.to_multiset()
            == listings@.to_multiset() && sorted_listings(post.listings@) && (if post.listings@.len()
            > 0 && !post.listings@[0].is_dir && pre.picker_mode is Copy {
            actions == seq![Action::ClearSelection]
        } else {
            actions.len() == 0
        }),
        AppOutCmd::CommandFailed(e) => same_client(pre, post) && same_nav(pre, post)
            && same_picker(pre, post) && same_registry(pre, post) && same_remotes(pre, post)
            && post.listings == pre.listings && post.selected_file_listing_copy
            == pre.selected_file_listing_copy && post.file_listing_view_state == (
        FileListingViewState::Error(e)) && actions.len() == 0,
        AppOutCmd::JobUpdated(uuid, status) => same_client(pre, post) && same_nav(pre, post)
            && same_picker(pre, post) && same_remotes(pre, post) && same_listing_view(pre, post)
            && post.registry.mutations() == pre.registry.mutations() + 1
            && post.registry.subscribers_seq() == pre.registry.subscribers_seq()
            && actions.len() >= 1 && (match actions[0] {
            Action::NotifySubscribers(ns) => ns@ == pre.registry.subscribers_seq(),
            _ => false,
        }) && (if pre.registry.job_map().dom().contains(uuid) {
            post.registry.job_map() == pre.registry.job_map().insert(
                uuid,
                with_status(pre.registry.job_map()[uuid], status),
            ) && (match pre.registry.job_map()[uuid].job_type {
                RcloneJobType::Open { tmp_local_path, .. } => actions.len() == 2
                    && actions[1] == Action::OpenLocalFile(tmp_local_path),
                _ => (if !(status is Ongoing) {
                    actions.len() == 2 && actions[1] == Action::Forward(
                        AppInMsg::PathChanged(pre.path),
                    )
                } else {
                    actions.len() == 1
                }),
            })
        } else {
            post.registry.job_map() == pre.registry.job_map() && actions.len() == 1
        }),
    }
}

/// What applying a directory-creation outcome does.
pub open spec fn mkdir_result_spec(
    pre: App,
    post: App,
    target: RclonePath,
    result: Result<(), MkdirError>,
    actions: Seq<Action>,
) -> bool {
    match result {
        Ok(u) => went_to(pre, post, pre.path) && same_history(pre, post) && actions == seq![
            Action::RequestListing(pre.path),
        ],
        Err(MkdirError::NotAvailableHere) => went_to(pre, post, target) && (if target@
            != pre.path@ {
            post.history.back_seq() == pre.history.back_seq().push(pre.path)
                && post.history.forward_seq().len() == 0
        } else {
            same_history(pre, post)
        }) && actions.len() == 2 && (match actions[0] {
            Action::ShowError { title, detail, fatal } => title@
                == "Cannot create empty folder"@ && detail@
                == "This may be a technical limitation of your storage provider, typically with object storage like Amazon S3.\n\nTo persist the folder, upload a file to it before leaving."@
                && !fatal,
            _ => false,
        }) && actions[1] == Action::RequestListing(target),
        Err(MkdirError::Generic(e)) => unchanged(pre, post) && actions.len() == 1 && (
        match actions[0] {
            Action::ShowError { title, detail, fatal } => title@ == "Something went wrong"@
                && detail == e && !fatal,
            _ => false,
        }),
    }
}
} // verus!
