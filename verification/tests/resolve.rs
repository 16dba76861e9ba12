use minishell::resolve::{resolve, split_search_path, DirListing, FileEntry};

fn entry(name: &str, is_regular: bool, mode: u32) -> FileEntry {
    FileEntry { name: name.to_string(), is_regular, mode }
}

fn listing(path: &str, entries: Vec<FileEntry>) -> DirListing {
    DirListing { path: path.to_string(), entries: Some(entries) }
}

#[test]
fn first_directory_wins() {
    let dirs = vec![
        listing("/usr/bin", vec![entry("foo", true, 0o755)]),
        listing("/bin", vec![entry("foo", true, 0o755)]),
    ];
    assert_eq!(resolve(&"foo".to_string(), &dirs), Some("/usr/bin/foo".to_string()));
}

#[test]
fn missing_name_is_not_found() {
    let dirs = vec![
        listing("/usr/bin", vec![entry("ls", true, 0o755), entry("cat", true, 0o755)]),
        listing("/bin", vec![entry("sh", true, 0o755)]),
    ];
    assert_eq!(resolve(&"doesnotexist".to_string(), &dirs), None);
}

#[test]
fn non_regular_and_non_executable_entries_are_skipped() {
    let dirs = vec![
        listing("/opt", vec![entry("foo", false, 0o755), entry("foo", true, 0o644)]),
        listing("/bin", vec![entry("foo", true, 0o100)]),
    ];
    assert_eq!(resolve(&"foo".to_string(), &dirs), Some("/bin/foo".to_string()));
}

#[test]
fn any_execute_bit_counts() {
    let dirs = vec![listing("/bin", vec![entry("foo", true, 0o004 | 0o001)])];
    assert_eq!(resolve(&"foo".to_string(), &dirs), Some("/bin/foo".to_string()));
}

#[test]
fn unreadable_directory_is_skipped() {
    let dirs = vec![
        DirListing { path: "/gone".to_string(), entries: None },
        listing("/bin", vec![entry("foo", true, 0o755)]),
    ];
    assert_eq!(resolve(&"foo".to_string(), &dirs), Some("/bin/foo".to_string()));
}

#[test]
fn trailing_separator_is_not_doubled() {
    let dirs = vec![listing("/bin/", vec![entry("foo", true, 0o755)])];
    assert_eq!(resolve(&"foo".to_string(), &dirs), Some("/bin/foo".to_string()));
}

#[test]
fn empty_path_list_is_not_found() {
    assert_eq!(resolve(&"foo".to_string(), &Vec::new()), None);
}

#[test]
fn search_path_splits_on_colons() {
    assert_eq!(
        split_search_path("/usr/bin:/bin"),
        vec!["/usr/bin".to_string(), "/bin".to_string()]
    );
    assert_eq!(split_search_path(""), Vec::<String>::new());
    assert_eq!(split_search_path("/bin"), vec!["/bin".to_string()]);
    assert_eq!(
        split_search_path("/a::/b:"),
        vec!["/a".to_string(), "".to_string(), "/b".to_string(), "".to_string()]
    );
}
