use rclone_shuttle::path_tools::RclonePath;

#[test]
fn path_has_parent_with_parent() {
    let path_from_level_2 = RclonePath::from("foobar:foo");
    assert!(path_from_level_2.path_has_parent());
    let path_from_level_4 = RclonePath::from("foobar:foo/sjdflkdsfsd/sdfksdfsd");
    assert!(path_from_level_4.path_has_parent());
}

#[test]
fn path_has_no_parent() {
    let path_from_root = RclonePath::from("foobar:");
    assert!(!path_from_root.path_has_parent());
}

#[test]
fn resolve_to_parent_folder_already_parent() {
    let path_from_root = RclonePath::from("bla:");
    assert_eq!(path_from_root.resolve_to_parent(), RclonePath::from("bla:"));
}

#[test]
fn resolve_to_parent_folder_not_parent_level_2_without_slash() {
    let path = RclonePath::from("bla:foo");
    assert_eq!(path.resolve_to_parent(), RclonePath::from("bla:"));
}

#[test]
fn resolve_to_parent_folder_not_parent_level_2_with_slash() {
    let path = RclonePath::from("bla:foo/");
    assert_eq!(path.resolve_to_parent(), RclonePath::from("bla:"));
}

#[test]
fn resolve_to_parent_folder_not_parent_level_3_without_slash() {
    let path = RclonePath::from("bla:foo/bar");
    assert_eq!(path.resolve_to_parent(), RclonePath::from("bla:foo"));
}

#[test]
fn resolve_to_parent_folder_local_unix_top_level() {
    let path = RclonePath::from("/");
    assert_eq!(path.resolve_to_parent(), RclonePath::from("/"));
}

#[test]
fn resolve_to_parent_folder_local_unix_level_2() {
    let path = RclonePath::from("/home");
    assert_eq!(path.resolve_to_parent(), RclonePath::from("/"));
}

#[test]
fn resolve_to_parent_folder_local_unix_deeper() {
    let path = RclonePath::from("/home/foo/bar");
    assert_eq!(path.resolve_to_parent(), RclonePath::from("/home/foo"));
}

#[test]
fn resolve_to_parent_folder_local_windows_top_level() {
    let path = RclonePath::from("C:\\");
    assert_eq!(path.resolve_to_parent(), RclonePath::from("C:\\"));
}

#[test]
fn resolve_to_parent_folder_local_windows_level_2_without_slash() {
    let path = RclonePath::from("C:\\Users");
    assert_eq!(path.resolve_to_parent(), RclonePath::from("C:\\"));
}

#[test]
fn resolve_to_parent_folder_local_windows_level_2_with_slash() {
    let path = RclonePath::from("C:\\Users\\");
    assert_eq!(path.resolve_to_parent(), RclonePath::from("C:\\"));
}

#[test]
fn resolve_to_parent_folder_local_windows_deeper() {
    let path = RclonePath::from("C:\\Users\\foo\\Desktop\\bar.exe");
    assert_eq!(path.resolve_to_parent(), RclonePath::from("C:\\Users\\foo\\Desktop"));
}

#[test]
fn get_filename_from_path_local_unix() {
    let path = RclonePath::from("/home/foo/bar");
    assert_eq!(path.filename(), "bar");
}

#[test]
fn get_filename_from_path_local_windows() {
    let path = RclonePath::from("C:\\Users\\foo\\Desktop\\bar.exe");
    assert_eq!(path.filename(), "bar.exe");
}

#[test]
fn get_filename_from_path_remote() {
    let path = RclonePath::from("foo:bar/bla.zip");
    assert_eq!(path.filename(), "bla.zip");
}

#[test]
fn join_on_root() {
    let path = RclonePath::from("foo:");
    assert_eq!(path.join("bar"), RclonePath::from("foo:bar"));
}

#[test]
fn join_without_trailing_slash() {
    let path_from_level_2 = RclonePath::from("foo:path");
    assert_eq!(path_from_level_2.join("bar"), RclonePath::from("foo:path/bar"));
    let path_from_level_3 = RclonePath::from("foo:path/subfolder");
    assert_eq!(path_from_level_3.join("bar"), RclonePath::from("foo:path/subfolder/bar"));
}

#[test]
fn join_with_trailing_slash() {
    let path_from_level_2 = RclonePath::from("foo:path/");
    assert_eq!(path_from_level_2.join("bar"), RclonePath::from("foo:path/bar"));
    let path_from_level_3 = RclonePath::from("foo:path/subfolder/");
    assert_eq!(path_from_level_3.join("bar"), RclonePath::from("foo:path/subfolder/bar"));
}

#[test]
fn bad_remote() {
    let path = RclonePath::from("foo");
    assert_eq!(path.remote(), None);
}

#[test]
fn remote_from_root() {
    let path = RclonePath::from("foo:");
    assert_eq!(path.remote(), Some(String::from("foo:")));
}

#[test]
fn remote_from_level_3() {
    let path = RclonePath::from("foo:bla/bar");
    assert_eq!(path.remote(), Some(String::from("foo:")));
}

#[test]
fn resolve_to_parent_from_scheme_roots_is_idempotent() {
    for root in ["remote:", "/", "X:\\"] {
        let path = RclonePath::from(root);
        assert_eq!(path.resolve_to_parent(), RclonePath::from(root));
        assert_eq!(path.resolve_to_parent().resolve_to_parent(), RclonePath::from(root));
    }
}

#[test]
fn resolve_to_parent_removes_one_segment() {
    let path = RclonePath::from("bla:foo/bar/baz");
    let parent = path.resolve_to_parent();
    assert_eq!(parent, RclonePath::from("bla:foo/bar"));
    assert_ne!(parent.filename(), path.filename());
}

#[test]
fn resolve_to_parent_collapses_doubled_separators() {
    let path = RclonePath::from("bla:foo//bar/baz");
    assert_eq!(path.resolve_to_parent(), RclonePath::from("bla:foo/bar"));
}

#[test]
fn join_then_filename_round_trip() {
    for base in ["remote:", "remote:dir", "remote:dir/", "/", "/home", "X:\\", "X:\\dir"] {
        let joined = RclonePath::from(base).join("note.txt");
        assert_eq!(joined.filename(), "note.txt");
    }
}

#[test]
fn join_uses_backslash_for_drive_paths() {
    let path = RclonePath::from("C:\\Users");
    assert_eq!(path.join("foo"), RclonePath::from("C:\\Users\\foo"));
    let root = RclonePath::from("C:\\");
    assert_eq!(root.join("foo"), RclonePath::from("C:\\foo"));
}

#[test]
fn path_has_parent_is_false_only_for_remote_roots() {
    assert!(!RclonePath::from("name:").path_has_parent());
    assert!(RclonePath::from("name:dir").path_has_parent());
    assert!(RclonePath::from("/").path_has_parent());
    assert!(RclonePath::from("C:\\").path_has_parent());
    assert!(RclonePath::from("name:dir/file").path_has_parent());
}

#[test]
fn parent_is_defined_guards_resolution() {
    assert!(RclonePath::from("name:").parent_is_defined());
    assert!(RclonePath::from("/home").parent_is_defined());
    assert!(RclonePath::from("C:\\Users").parent_is_defined());
    assert!(RclonePath::from("name:dir").parent_is_defined());
    assert!(!RclonePath::from("foo").parent_is_defined());
    assert!(!RclonePath::from("//").parent_is_defined());
}

#[test]
fn to_string_round_trips_the_raw_text() {
    let raw = "remote:some/dir";
    assert_eq!(RclonePath::from(raw).to_string(), raw);
}

#[test]
fn has_marker_detects_the_three_markers() {
    assert!(RclonePath::from("a/b").has_marker());
    assert!(RclonePath::from("a\\b").has_marker());
    assert!(RclonePath::from("a:b").has_marker());
    assert!(!RclonePath::from("plain").has_marker());
}
