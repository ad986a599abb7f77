use rclone_shuttle::client::{MkdirError, RcloneClient, RcloneFileListing};
use rclone_shuttle::path_tools::RclonePath;

fn entry_with_size(size: i64) -> RcloneFileListing {
    RcloneFileListing {
        path: RclonePath::from("remote:a/file"),
        name: String::from("file"),
        size,
        mime_type: String::from("application/octet-stream"),
        mod_time: 0,
        is_dir: false,
        is_bucket: None,
    }
}

#[test]
fn formatted_size_hides_unknown_and_empty_sizes() {
    assert_eq!(entry_with_size(-1).formatted_size(), None);
    assert_eq!(entry_with_size(0).formatted_size(), None);
}

#[test]
fn formatted_size_uses_si_prefixes() {
    assert_eq!(entry_with_size(678).formatted_size(), Some(String::from("678")));
    assert_eq!(entry_with_size(1000).formatted_size(), Some(String::from("1.0k")));
    assert_eq!(
        entry_with_size(42_000_000).formatted_size(),
        Some(String::from("42.0M"))
    );
}

#[test]
fn listing_import_joins_the_relative_path() {
    let parent = RclonePath::from("remote:dir");
    let entry = RcloneFileListing::from_import(
        &parent,
        "sub/file.txt",
        String::from("file.txt"),
        5,
        String::from("text/plain"),
        0,
        false,
        None,
    );
    assert_eq!(entry.path, RclonePath::from("remote:dir/sub/file.txt"));
}

#[test]
fn remotes_output_is_trimmed_and_split_per_line() {
    let parsed = RcloneClient::parse_remotes_output(" alpha:\nbeta:\n\ngamma: \n");
    assert_eq!(
        parsed,
        vec![String::from("alpha:"), String::from("beta:"), String::from("gamma:")]
    );
}

#[test]
fn remotes_output_empty_means_no_remotes() {
    assert_eq!(RcloneClient::parse_remotes_output("\n \n"), Vec::<String>::new());
}

#[test]
fn mkdir_failure_carries_the_command_report() {
    let outcome = RcloneClient::classify_mkdir_output(false, "exit status: 1", "fatal error");
    match outcome {
        Err(MkdirError::Generic(m)) => {
            assert_eq!(m, "Rclone command failed with exit status: 1\n\nfatal error")
        }
        _ => panic!("expected the generic error"),
    }
}

#[test]
fn mkdir_on_flat_backends_is_a_capability_error() {
    let stderr_text = "2024 NOTICE: Warning: running mkdir on a remote which can't have empty directories does nothing";
    let outcome = RcloneClient::classify_mkdir_output(true, "exit status: 0", stderr_text);
    assert!(matches!(outcome, Err(MkdirError::NotAvailableHere)));
}

#[test]
fn quiet_mkdir_success_is_success() {
    let outcome = RcloneClient::classify_mkdir_output(true, "exit status: 0", "");
    assert!(outcome.is_ok());
}

#[test]
fn move_arguments_target_the_parent_directory() {
    let args = RcloneClient::mv_args(
        &RclonePath::from("foo:a/b.txt"),
        &RclonePath::from("bar:x/b.txt"),
    );
    assert_eq!(args, vec![
        String::from("move"),
        String::from("foo:a/b.txt"),
        String::from("bar:x"),
    ]);
}

#[test]
fn copy_arguments_name_both_endpoints() {
    let args = RcloneClient::copy_args(
        &RclonePath::from("foo:a/b.txt"),
        &RclonePath::from("bar:x/b.txt"),
    );
    assert_eq!(args, vec![
        String::from("copyto"),
        String::from("foo:a/b.txt"),
        String::from("bar:x/b.txt"),
    ]);
}

#[test]
fn listing_and_deletion_arguments() {
    assert_eq!(
        RcloneClient::ls_args(&RclonePath::from("remote:dir")),
        vec![String::from("lsjson"), String::from("remote:dir")]
    );
    assert_eq!(
        RcloneClient::rm_args(&RclonePath::from("remote:dir/file")),
        vec![String::from("delete"), String::from("remote:dir/file")]
    );
    assert_eq!(
        RcloneClient::mkdir_args(&RclonePath::from("remote:dir/new")),
        vec![String::from("mkdir"), String::from("remote:dir/new")]
    );
    assert_eq!(
        RcloneClient::list_remotes_args(),
        vec![String::from("listremotes"), String::from("--use-json-log")]
    );
}

#[test]
fn client_credentials_shape_the_invocation() {
    let client = RcloneClient::new(
        Some(String::from("SECRET-REDACTED")),
        Some(String::from("/home/u/rclone.conf")),
    );
    assert_eq!(
        client.password_command(),
        Some(String::from("echo \"SECRET-REDACTED\""))
    );
    assert_eq!(client.config_args(), vec![String::from("--config=/home/u/rclone.conf")]);

    let bare = RcloneClient::new(None, None);
    assert_eq!(bare.password_command(), None);
    assert_eq!(bare.config_args(), Vec::<String>::new());
}

#[test]
fn failure_messages_carry_status_and_stderr() {
    assert_eq!(
        rclone_shuttle::client::rclone_failure_message("exit status: 3", "no such remote"),
        "Rclone command failed with exit status: 3\n\nno such remote"
    );
    assert_eq!(
        rclone_shuttle::client::copy_failure_message("exit status: 3", "no space"),
        "Copy failed with exit status: 3\n\nno space"
    );
    assert_eq!(
        rclone_shuttle::client::list_remotes_failure_message("exit status: 2"),
        "Rclone command failed - exit status: 2"
    );
}
