use shell_bridge::launch::{
    check_path_exists, launch_command, open_file, open_folder, plan_open, Failure, OpenTarget,
};
use shell_bridge::listing::{
    drive_roots, existing_drives, lex_less, list_directories, listing_source, DirEntryInfo,
    ListingSource,
};
use shell_bridge::paths::{
    default_base_path, folder_path, join_path, project_folder_path, resolve_base_path,
    strip_leading_slashes, to_native, FolderRequest,
};
use shell_bridge::platform::Platform;

fn dir(name: &str, path: &str) -> DirEntryInfo {
    DirEntryInfo { name: name.to_string(), path: path.to_string(), is_dir: true }
}

fn file(name: &str, path: &str) -> DirEntryInfo {
    DirEntryInfo { name: name.to_string(), path: path.to_string(), is_dir: false }
}

#[test]
fn relative_path_joins_base_with_one_separator() {
    let base = "N://Mandats";
    assert_eq!(project_folder_path(Platform::Linux, base, "projects/a"), "N://Mandats/projects/a");
    assert_eq!(project_folder_path(Platform::Linux, base, "/projects/a"), "N://Mandats/projects/a");
    assert_eq!(project_folder_path(Platform::MacOs, base, "\\projects"), "N://Mandats/projects");
    assert_eq!(project_folder_path(Platform::Linux, base, "//\\/x"), "N://Mandats/x");
    assert_eq!(project_folder_path(Platform::Linux, "/srv/", "/a"), "/srv/a");
    assert_eq!(project_folder_path(Platform::Linux, "", "/a"), "a");
    assert_eq!(project_folder_path(Platform::Linux, base, ""), "N://Mandats/");
}

#[test]
fn relative_path_on_windows_uses_backslashes() {
    assert_eq!(
        project_folder_path(Platform::Windows, "N:\\Mandats", "/client/2024"),
        "N:\\Mandats\\client\\2024"
    );
    assert_eq!(project_folder_path(Platform::Windows, "C:/", "\\x"), "C:\\x");
}

#[test]
fn strip_join_and_native_pieces() {
    assert_eq!(strip_leading_slashes("\\/\\abc/d"), "abc/d");
    assert_eq!(strip_leading_slashes("abc"), "abc");
    assert_eq!(strip_leading_slashes("///"), "");
    assert_eq!(join_path(Platform::Linux, "a", "b"), "a/b");
    assert_eq!(join_path(Platform::Linux, "a\\", "b"), "a\\/b");
    assert_eq!(join_path(Platform::Windows, "a\\", "b"), "a\\b");
    assert_eq!(join_path(Platform::Windows, "a", "b"), "a\\b");
    assert_eq!(to_native(Platform::Windows, "C:/x/y"), "C:\\x\\y");
    assert_eq!(to_native(Platform::Linux, "C:/x\\y"), "C:/x\\y");
}

#[test]
fn folder_requests_resolve_relative_and_absolute() {
    let rel = FolderRequest::Relative("/a/b".to_string());
    let abs = FolderRequest::Absolute("D:/work/a".to_string());
    assert_eq!(folder_path(Platform::Linux, "N://Mandats", &rel), "N://Mandats/a/b");
    assert_eq!(folder_path(Platform::Windows, "N:\\Mandats", &abs), "D:\\work\\a");
    assert_eq!(folder_path(Platform::Linux, "N://Mandats", &abs), "D:/work/a");
}

#[test]
fn base_path_prefers_configured_value() {
    assert_eq!(resolve_base_path(Platform::Linux, None), "N://Mandats");
    assert_eq!(resolve_base_path(Platform::MacOs, None), "N://Mandats");
    assert_eq!(resolve_base_path(Platform::Windows, None), "N:\\Mandats");
    assert_eq!(resolve_base_path(Platform::Linux, Some("/home/p".to_string())), "/home/p");
    assert_eq!(resolve_base_path(Platform::Windows, Some(String::new())), "");
    assert_eq!(default_base_path(Platform::Other), "N://Mandats");
}

#[test]
fn existence_check_reports_both_answers_and_probe_failures() {
    assert_eq!(check_path_exists(Ok(true)), Ok(true));
    assert_eq!(check_path_exists(Ok(false)), Ok(false));
    assert_eq!(
        check_path_exists(Err("permission denied".to_string())),
        Err("Failed to check path: permission denied".to_string())
    );
}

#[test]
fn open_file_on_missing_path_fails_without_command() {
    let r = open_file(Platform::Linux, "/no/such/file.txt".to_string(), false);
    match r {
        Err(msg) => {
            assert!(msg.contains("/no/such/file.txt"));
            assert_eq!(msg, "File does not exist: /no/such/file.txt");
        }
        Ok(_) => panic!("a missing file must not be opened"),
    }
}

#[test]
fn open_folder_on_missing_path_fails() {
    let r = open_folder(Platform::Windows, "C:\\gone".to_string(), false);
    assert_eq!(r.err(), Some("Path does not exist: C:\\gone".to_string()));
}

#[test]
fn open_existing_file_plans_the_host_opener() {
    let plan = open_file(Platform::Windows, "C:\\a b.txt".to_string(), true).ok().unwrap();
    assert_eq!(plan.path, "C:\\a b.txt");
    let cmd = plan.command.unwrap();
    assert_eq!(cmd.program, "cmd");
    assert_eq!(cmd.args, vec!["/C", "start", "", "C:\\a b.txt"]);

    let plan = open_folder(Platform::Linux, "/srv".to_string(), true).ok().unwrap();
    let cmd = plan.command.unwrap();
    assert_eq!(cmd.program, "xdg-open");
    assert_eq!(cmd.args, vec!["/srv"]);

    let plan = plan_open(Platform::Other, OpenTarget::Folder, "/srv".to_string(), true).ok().unwrap();
    assert!(plan.command.is_none());
}

#[test]
fn launch_commands_per_platform() {
    let c = launch_command(Platform::Windows, OpenTarget::Folder, "C:\\x").unwrap();
    assert_eq!(c.program, "explorer");
    assert_eq!(c.args, vec!["C:\\x"]);
    let c = launch_command(Platform::MacOs, OpenTarget::File, "/x").unwrap();
    assert_eq!(c.program, "open");
    assert_eq!(c.args, vec!["/x"]);
    let c = launch_command(Platform::MacOs, OpenTarget::Folder, "/x").unwrap();
    assert_eq!(c.program, "open");
    let c = launch_command(Platform::Linux, OpenTarget::File, "/x").unwrap();
    assert_eq!(c.program, "xdg-open");
    assert!(launch_command(Platform::Other, OpenTarget::File, "/x").is_none());
}

#[test]
fn failure_messages() {
    let t = |f: Failure| f.message();
    assert_eq!(
        t(Failure::Missing { target: OpenTarget::Folder, path: "p".to_string() }),
        "Path does not exist: p"
    );
    assert_eq!(
        t(Failure::Missing { target: OpenTarget::File, path: "p".to_string() }),
        "File does not exist: p"
    );
    assert_eq!(
        t(Failure::Launch { target: OpenTarget::Folder, detail: "e".to_string() }),
        "Failed to open folder: e"
    );
    assert_eq!(
        t(Failure::Launch { target: OpenTarget::File, detail: "e".to_string() }),
        "Failed to open file: e"
    );
    assert_eq!(t(Failure::Probe { detail: "e".to_string() }), "Failed to check path: e");
    assert_eq!(t(Failure::ReadDir { detail: "e".to_string() }), "Failed to read directory: e");
}

#[test]
fn listing_sorts_case_insensitively_and_skips_hidden() {
    let entries = vec![dir("Zeta", "Zeta"), dir("alpha", "alpha"), dir(".hidden", ".hidden")];
    assert_eq!(list_directories(&entries), vec!["alpha", "Zeta"]);
}

#[test]
fn listing_returns_full_paths_of_directories_only() {
    let entries = vec![
        dir("Zeta", "/base/Zeta"),
        file("notes.txt", "/base/notes.txt"),
        dir("alpha", "/base/alpha"),
        dir(".git", "/base/.git"),
        dir("Beta", "/base/Beta"),
    ];
    assert_eq!(list_directories(&entries), vec!["/base/alpha", "/base/Beta", "/base/Zeta"]);
    assert!(list_directories(&Vec::new()).is_empty());
}

#[test]
fn listing_keeps_order_of_ties() {
    let entries = vec![dir("B", "/B"), dir("b", "/b"), dir("a", "/a")];
    assert_eq!(list_directories(&entries), vec!["/a", "/B", "/b"]);
    let entries = vec![dir("b", "/b"), dir("B", "/B")];
    assert_eq!(list_directories(&entries), vec!["/b", "/B"]);
}

#[test]
fn empty_path_lists_root_or_drives() {
    match listing_source(Platform::Linux, "") {
        ListingSource::Directory(p) => assert_eq!(p, "/"),
        ListingSource::Drives => panic!("drives are a Windows notion"),
    }
    assert!(matches!(listing_source(Platform::Windows, ""), ListingSource::Drives));
    match listing_source(Platform::Windows, "C:\\x") {
        ListingSource::Directory(p) => assert_eq!(p, "C:\\x"),
        ListingSource::Drives => panic!("a named directory is listed itself"),
    }
    let root_entries = vec![dir("usr", "/usr"), dir(".cache", "/.cache"), file("vmlinuz", "/vmlinuz"), dir("Etc", "/Etc")];
    assert_eq!(list_directories(&root_entries), vec!["/Etc", "/usr"]);
}

#[test]
fn drives_are_probed_a_to_z() {
    let roots = drive_roots();
    assert_eq!(roots.len(), 26);
    assert_eq!(roots[0], "A:\\");
    assert_eq!(roots[2], "C:\\");
    assert_eq!(roots[25], "Z:\\");
    let mut present = vec![false; 26];
    present[2] = true;
    present[3] = true;
    assert_eq!(existing_drives(roots, &present), vec!["C:\\", "D:\\"]);
}

#[test]
fn lexicographic_comparison() {
    assert!(lex_less("abc", "abd"));
    assert!(lex_less("ab", "abc"));
    assert!(!lex_less("abc", "ab"));
    assert!(!lex_less("abc", "abc"));
    assert!(lex_less("Z", "a"));
    assert!(lex_less("", "a"));
}
