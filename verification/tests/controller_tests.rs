use rclone_shuttle::client::{MkdirError, RcloneClient, RcloneFileListing};
use rclone_shuttle::config::AppConfig;
use rclone_shuttle::controller::{Action, App, AppInMsg, AppOutCmd, FileListingViewState};
use rclone_shuttle::model::{FilePickerMode, RcloneJobStatus, RcloneJobType};
use rclone_shuttle::path_tools::RclonePath;

fn listing(path: &str, name: &str, is_dir: bool) -> RcloneFileListing {
    RcloneFileListing {
        path: RclonePath::from(path),
        name: String::from(name),
        size: 10,
        mime_type: String::from("text/plain"),
        mod_time: 0,
        is_dir,
        is_bucket: None,
    }
}

fn app_browsing(path: &str) -> App {
    let mut app = App::new();
    app.path = RclonePath::from(path);
    app
}

#[test]
fn picker_cancel_creates_no_jobs() {
    let mut app = app_browsing("bar:dest");
    app.listings = vec![listing("foo:dir/a.txt", "a.txt", false)];
    app.apply_selection(0);
    app.update(AppInMsg::MoveSelectionRequested);
    match &app.picker_mode {
        FilePickerMode::Move(source) => {
            assert_eq!(*source, RclonePath::from("foo:dir/a.txt"))
        }
        _ => panic!("expected move mode"),
    }
    app.update(AppInMsg::ReturnToSelectModeRequested);
    assert!(matches!(app.picker_mode, FilePickerMode::Select));
    assert_eq!(app.registry.iterate().len(), 0);
}

#[test]
fn picker_confirm_creates_one_move_job_into_current_folder() {
    let mut app = app_browsing("bar:dest");
    app.picker_mode = FilePickerMode::Move(RclonePath::from("foo:dir/a.txt"));
    let actions = app.update(AppInMsg::MoveTargetConfirmed);
    assert!(matches!(app.picker_mode, FilePickerMode::Select));
    let jobs = app.registry.iterate();
    assert_eq!(jobs.len(), 1);
    match &jobs[0].job_type {
        RcloneJobType::Move { source_path, target_path } => {
            assert_eq!(*source_path, RclonePath::from("foo:dir/a.txt"));
            assert_eq!(*target_path, RclonePath::from("bar:dest/a.txt"));
        }
        _ => panic!("expected a move job"),
    }
    assert!(jobs[0].status == RcloneJobStatus::Ongoing);
    assert_eq!(actions.len(), 3);
    assert!(matches!(actions[2], Action::StartTransfer(_)));
}

#[test]
fn picker_key_toggle_acts_as_confirm() {
    let mut app = app_browsing("bar:dest");
    app.picker_mode = FilePickerMode::Move(RclonePath::from("foo:dir/a.txt"));
    let actions = app.update(AppInMsg::MoveKeyPressed);
    assert_eq!(actions.len(), 1);
    assert!(matches!(
        actions[0],
        Action::Forward(AppInMsg::MoveTargetConfirmed)
    ));
}

#[test]
fn copy_confirm_creates_one_copy_job() {
    let mut app = app_browsing("bar:dest");
    app.picker_mode = FilePickerMode::Copy(RclonePath::from("foo:dir/a.txt"));
    app.update(AppInMsg::CopyTargetConfirmed);
    let jobs = app.registry.iterate();
    assert_eq!(jobs.len(), 1);
    match &jobs[0].job_type {
        RcloneJobType::Copy { target_path, .. } => {
            assert_eq!(*target_path, RclonePath::from("bar:dest/a.txt"));
        }
        _ => panic!("expected a copy job"),
    }
}

#[test]
fn navigation_messages_drive_history_and_listing_requests() {
    let mut app = app_browsing("remote:a");
    let actions = app.update(AppInMsg::PathEntered(RclonePath::from("remote:b")));
    assert_eq!(app.path, RclonePath::from("remote:b"));
    assert!(matches!(app.file_listing_view_state, FileListingViewState::Loading));
    assert_eq!(actions.len(), 1);
    match &actions[0] {
        Action::RequestListing(p) => assert_eq!(*p, RclonePath::from("remote:b")),
        _ => panic!("expected a listing request"),
    }

    let undo_actions = app.update(AppInMsg::PathUndoRequested);
    assert_eq!(app.path, RclonePath::from("remote:a"));
    assert_eq!(undo_actions.len(), 1);

    let redo_actions = app.update(AppInMsg::PathRedoRequested);
    assert_eq!(app.path, RclonePath::from("remote:b"));
    assert_eq!(redo_actions.len(), 1);
}

#[test]
fn parent_navigation_pushes_history() {
    let mut app = app_browsing("remote:dir/sub");
    app.update(AppInMsg::PathParentRequested);
    assert_eq!(app.path, RclonePath::from("remote:dir"));
    app.update(AppInMsg::PathUndoRequested);
    assert_eq!(app.path, RclonePath::from("remote:dir/sub"));
}

#[test]
fn dropped_files_become_upload_requests() {
    let mut app = app_browsing("remote:dest");
    let actions = app.update(AppInMsg::FilesDropped(vec![
        RclonePath::from("/home/u/a.txt"),
        RclonePath::from("/home/u/b.txt"),
    ]));
    assert_eq!(actions.len(), 2);
    match &actions[1] {
        Action::Forward(AppInMsg::UploadRequested(local, remote)) => {
            assert_eq!(*local, RclonePath::from("/home/u/b.txt"));
            assert_eq!(*remote, RclonePath::from("remote:dest/b.txt"));
        }
        _ => panic!("expected a forwarded upload request"),
    }
}

#[test]
fn upload_request_registers_a_job_and_starts_the_transfer() {
    let mut app = app_browsing("remote:dest");
    let actions = app.update(AppInMsg::UploadRequested(
        RclonePath::from("/home/u/a.txt"),
        RclonePath::from("remote:dest/a.txt"),
    ));
    assert_eq!(app.registry.iterate().len(), 1);
    assert_eq!(actions.len(), 2);
    assert!(matches!(actions[0], Action::NotifySubscribers(_)));
    match &actions[1] {
        Action::StartTransfer(job) => {
            assert!(matches!(job.job_type, RcloneJobType::Upload { .. }))
        }
        _ => panic!("expected a transfer start"),
    }
}

#[test]
fn listings_arrive_sorted_directories_first() {
    let mut app = app_browsing("remote:a");
    let rows = vec![
        listing("remote:a/zeta", "zeta", false),
        listing("remote:a/beta", "beta", true),
        listing("remote:a/alpha", "alpha", false),
        listing("remote:a/delta", "delta", true),
    ];
    let actions = app.update_cmd(AppOutCmd::FileListingAvailable(rows));
    assert!(actions.is_empty());
    assert!(matches!(app.file_listing_view_state, FileListingViewState::Loaded));
    let names: Vec<String> = app.listings.iter().map(|l| l.name.clone()).collect();
    assert_eq!(names, vec!["beta", "delta", "alpha", "zeta"]);
}

#[test]
fn listing_failure_shows_in_the_pane_and_on_demand() {
    let mut app = app_browsing("remote:a");
    app.update_cmd(AppOutCmd::CommandFailed(String::from("denied")));
    assert!(matches!(app.file_listing_view_state, FileListingViewState::Error(_)));
    let actions = app.update(AppInMsg::FileListingErrorDetailRequested);
    assert_eq!(actions.len(), 1);
    match &actions[0] {
        Action::ShowError { title, detail, fatal } => {
            assert_eq!(title, "Something went wrong");
            assert_eq!(detail, "denied");
            assert!(!fatal);
        }
        _ => panic!("expected an error dialog"),
    }
}

#[test]
fn terminal_job_completion_refreshes_the_listing() {
    let mut app = app_browsing("remote:a");
    app.update(AppInMsg::UploadRequested(
        RclonePath::from("/home/u/a.txt"),
        RclonePath::from("remote:a/a.txt"),
    ));
    let id = app.registry.iterate()[0].uuid;
    let actions = app.update_cmd(AppOutCmd::JobUpdated(
        id,
        RcloneJobStatus::Failed(String::from("timeout")),
    ));
    assert!(app.registry.get(id).unwrap().status
        == RcloneJobStatus::Failed(String::from("timeout")));
    assert_eq!(actions.len(), 2);
    assert!(matches!(
        actions[1],
        Action::Forward(AppInMsg::PathChanged(_))
    ));
}

#[test]
fn finished_open_job_hands_the_file_to_the_opener() {
    let mut app = app_browsing("remote:a");
    app.start_open(
        RclonePath::from("remote:a/doc.pdf"),
        RclonePath::from("/tmp/doc.pdf"),
    );
    let id = app.registry.iterate()[0].uuid;
    let actions = app.update_cmd(AppOutCmd::JobUpdated(id, RcloneJobStatus::Finished));
    assert_eq!(actions.len(), 2);
    match &actions[1] {
        Action::OpenLocalFile(p) => assert_eq!(*p, RclonePath::from("/tmp/doc.pdf")),
        _ => panic!("expected the downloaded file to be opened"),
    }
}

#[test]
fn remotes_arrive_and_browsing_moves_to_the_first() {
    let mut app = App::new();
    let actions = app.apply_remotes(vec![String::from("alpha:"), String::from("beta:")]);
    assert_eq!(app.path, RclonePath::from("alpha:"));
    assert_eq!(actions.len(), 1);
}

#[test]
fn mkdir_capability_error_explains_then_navigates() {
    let mut app = app_browsing("remote:a");
    let target = RclonePath::from("remote:a/newdir");
    let actions = app.apply_mkdir_result(target.clone(), Err(MkdirError::NotAvailableHere));
    assert_eq!(actions.len(), 2);
    match &actions[0] {
        Action::ShowError { title, fatal, .. } => {
            assert_eq!(title, "Cannot create empty folder");
            assert!(!fatal);
        }
        _ => panic!("expected the capability dialog"),
    }
    assert_eq!(app.path, target);
}

#[test]
fn mkdir_generic_error_is_shown_as_it_is() {
    let mut app = app_browsing("remote:a");
    let actions = app.apply_mkdir_result(
        RclonePath::from("remote:a/newdir"),
        Err(MkdirError::Generic(String::from("boom"))),
    );
    assert_eq!(actions.len(), 1);
    match &actions[0] {
        Action::ShowError { detail, .. } => assert_eq!(detail, "boom"),
        _ => panic!("expected an error dialog"),
    }
    assert_eq!(app.path, RclonePath::from("remote:a"));
}

#[test]
fn create_folder_confirmation_targets_the_joined_path() {
    let mut app = app_browsing("remote:a");
    app.client = Some(RcloneClient::new(None, None));
    let actions = app.update(AppInMsg::CreateFolderConfirmed(String::from("newdir")));
    assert_eq!(actions.len(), 1);
    match &actions[0] {
        Action::MakeDirectory(p) => assert_eq!(*p, RclonePath::from("remote:a/newdir")),
        _ => panic!("expected a directory creation"),
    }
}

#[test]
fn rename_confirmation_builds_the_renamed_sibling() {
    let mut app = app_browsing("remote:a");
    let actions = app.update(AppInMsg::RenameConfirmed(
        RclonePath::from("remote:a/old.txt"),
        String::from("new.txt"),
    ));
    let jobs = app.registry.iterate();
    assert_eq!(jobs.len(), 1);
    match &jobs[0].job_type {
        RcloneJobType::Rename(p) => assert_eq!(*p, RclonePath::from("remote:a/new.txt")),
        _ => panic!("expected a rename job"),
    }
    assert_eq!(actions.len(), 2);
    match &actions[1] {
        Action::StartRename { path, new_name, .. } => {
            assert_eq!(*path, RclonePath::from("remote:a/old.txt"));
            assert_eq!(new_name, "new.txt");
        }
        _ => panic!("expected the rename to start"),
    }
}

#[test]
fn delete_confirmation_registers_a_delete_job() {
    let mut app = app_browsing("remote:a");
    app.update(AppInMsg::DeleteConfirmed(
        RclonePath::from("remote:a/old.txt"),
        false,
    ));
    let jobs = app.registry.iterate();
    assert_eq!(jobs.len(), 1);
    assert!(matches!(jobs[0].job_type, RcloneJobType::Delete(_)));
}

#[test]
fn selection_is_copied_from_the_listing() {
    let mut app = app_browsing("remote:a");
    app.listings = vec![listing("remote:a/x", "x", false)];
    app.apply_selection(0);
    assert!(app.selected_file_listing_copy.is_some());
    app.apply_selection(u32::MAX);
    assert!(app.selected_file_listing_copy.is_some());
}

#[test]
fn config_defaults_to_showing_the_disclaimer() {
    let config = AppConfig::default();
    assert!(!config.skip_overwrite_disclaimer);
}
