use magish::locate::{
    auto_discover_script, entry_style, is_scanned_dir_name, is_script_name, list_bash_files, DirEntry,
    EntryStyle,
};

fn file(name: &str) -> DirEntry {
    DirEntry { name: name.to_string(), is_file: true, is_dir: false }
}

fn dir(name: &str) -> DirEntry {
    DirEntry { name: name.to_string(), is_file: false, is_dir: true }
}

#[test]
fn conventional_name_beats_listing_order() {
    let entries = vec![file("random.sh"), file("index.sh")];
    assert_eq!(auto_discover_script("/d", &entries), Some("/d/index.sh".to_string()));
}

#[test]
fn without_conventional_names_first_listed_script_wins() {
    let entries = vec![file("z.sh"), file("a.sh")];
    assert_eq!(auto_discover_script("/d", &entries), Some("/d/z.sh".to_string()));
    let reversed = vec![file("a.sh"), file("z.sh")];
    assert_eq!(auto_discover_script("/d", &reversed), Some("/d/a.sh".to_string()));
}

#[test]
fn conventional_names_in_priority_order() {
    let entries = vec![file("script.sh"), file("index.sh"), file("base.sh")];
    assert_eq!(auto_discover_script("/d", &entries), Some("/d/base.sh".to_string()));
    let entries = vec![file("script.sh"), file("index.sh")];
    assert_eq!(auto_discover_script("/d", &entries), Some("/d/index.sh".to_string()));
}

#[test]
fn conventional_name_that_is_a_directory_is_ignored() {
    let entries = vec![dir("base.sh"), file("other.sh")];
    assert_eq!(auto_discover_script("/d", &entries), Some("/d/other.sh".to_string()));
}

#[test]
fn no_script_found() {
    assert_eq!(auto_discover_script("/d", &Vec::new()), None);
    let entries = vec![file("notes.txt"), dir("src")];
    assert_eq!(auto_discover_script("/d", &entries), None);
}

#[test]
fn list_keeps_regular_script_files_in_order() {
    let entries = vec![
        file("b.sh"),
        file("readme.md"),
        dir("tools.sh"),
        file(".sh"),
        file("a.sh"),
        file("c.shx"),
    ];
    assert_eq!(list_bash_files("/d/", &entries), vec!["/d/b.sh", "/d/a.sh"]);
}

#[test]
fn script_extension() {
    assert!(is_script_name("run.sh"));
    assert!(is_script_name("a.b.sh"));
    assert!(!is_script_name(".sh"));
    assert!(!is_script_name("sh"));
    assert!(!is_script_name("run.bash"));
}

#[test]
fn listing_styles() {
    assert_eq!(entry_style(&dir("src")), EntryStyle::Directory);
    assert_eq!(entry_style(&dir("x.sh")), EntryStyle::Directory);
    assert_eq!(entry_style(&file("x.sh")), EntryStyle::Script);
    assert_eq!(entry_style(&file("x.txt")), EntryStyle::Plain);
}

#[test]
fn scan_skips_hidden_and_build_directories() {
    assert!(is_scanned_dir_name("src"));
    assert!(is_scanned_dir_name("scripts"));
    assert!(!is_scanned_dir_name(".git"));
    assert!(!is_scanned_dir_name("node_modules"));
    assert!(!is_scanned_dir_name("my_target_dir"));
    assert!(!is_scanned_dir_name("vendor"));
}
