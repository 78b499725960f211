use magish::script::{classify_line, LineKind, Outcome, ScriptRun, Step};

/// Runs a script to its end, answering each `cd` from a fixed set of
/// existing directories, and returns what was spawned and how it ended.
fn drive(contents: Option<&str>, start: &str, dirs: &[&str]) -> (Vec<(String, String)>, Outcome) {
    let mut run = ScriptRun::new(contents, start);
    let mut spawned = Vec::new();
    loop {
        match run.next_step() {
            Step::Run { command, dir } => spawned.push((command, dir)),
            Step::ChangeDir { target } => run.finish_change_dir(dirs.contains(&target.as_str())),
            Step::Finished { outcome } => return (spawned, outcome),
        }
    }
}

fn pair(command: &str, dir: &str) -> (String, String) {
    (command.to_string(), dir.to_string())
}

#[test]
fn comment_only_script_spawns_nothing() {
    let (spawned, outcome) = drive(Some("# setup\n\n   \n  # more\n\t\n"), "/d", &["/d"]);
    assert!(spawned.is_empty());
    assert_eq!(outcome, Outcome::Completed);
}

#[test]
fn empty_script_completes() {
    let (spawned, outcome) = drive(Some(""), "/d", &[]);
    assert!(spawned.is_empty());
    assert_eq!(outcome, Outcome::Completed);
}

#[test]
fn spawns_one_process_per_passthrough_line() {
    let script = "echo a\n# note\ncd x\nls -l\n\n   pwd   \n";
    let (spawned, outcome) = drive(Some(script), "/d", &["/d/x"]);
    assert_eq!(spawned.len(), 3);
    let commands: Vec<&str> = spawned.iter().map(|(c, _)| c.as_str()).collect();
    assert_eq!(commands, vec!["echo a", "ls -l", "pwd"]);
    assert_eq!(outcome, Outcome::Completed);
}

#[test]
fn cd_lines_move_the_cursor() {
    // `/d/sub/..` is the directory `/d` itself.
    let script = "cd sub\necho A\ncd ..\necho B";
    let (spawned, _) = drive(Some(script), "/d", &["/d/sub", "/d/sub/.."]);
    assert_eq!(spawned, vec![pair("echo A", "/d/sub"), pair("echo B", "/d/sub/..")]);
}

#[test]
fn failed_cd_leaves_cursor_unchanged() {
    let (spawned, outcome) = drive(Some("cd nonexistent\necho A"), "/d", &[]);
    assert_eq!(spawned, vec![pair("echo A", "/d")]);
    assert_eq!(outcome, Outcome::Completed);
}

#[test]
fn absolute_cd_replaces_cursor() {
    let (spawned, _) = drive(Some("cd /tmp\npwd\ncd rel\npwd"), "/d", &["/tmp", "/tmp/rel"]);
    assert_eq!(spawned, vec![pair("pwd", "/tmp"), pair("pwd", "/tmp/rel")]);
}

#[test]
fn repeated_run_spawns_the_same() {
    let script = "cd a\necho 1\ncd missing\necho 2\ncd ..\necho 3\n";
    let dirs = ["/s/a", "/s/a/.."];
    let first = drive(Some(script), "/s", &dirs);
    let second = drive(Some(script), "/s", &dirs);
    assert_eq!(first, second);
    assert_eq!(first.0.len(), 3);
}

#[test]
fn unreadable_script_reports_read_failure() {
    let (spawned, outcome) = drive(None, "/d", &["/d"]);
    assert!(spawned.is_empty());
    assert_eq!(outcome, Outcome::ReadFailed);
}

#[test]
fn windows_line_endings_are_trimmed() {
    let (spawned, _) = drive(Some("echo a\r\necho b\r\n"), "/d", &[]);
    assert_eq!(spawned, vec![pair("echo a", "/d"), pair("echo b", "/d")]);
}

#[test]
fn cursor_starts_at_start_and_follows_cd() {
    let mut run = ScriptRun::new(Some("cd sub\n"), "/d");
    assert_eq!(run.cursor(), "/d");
    match run.next_step() {
        Step::ChangeDir { target } => assert_eq!(target, "/d/sub"),
        _ => panic!("expected a cd step"),
    }
    run.finish_change_dir(true);
    assert_eq!(run.cursor(), "/d/sub");
    assert!(matches!(run.next_step(), Step::Finished { outcome: Outcome::Completed }));
}

#[test]
fn classify_blank_and_comment() {
    assert!(matches!(classify_line(""), LineKind::Blank));
    assert!(matches!(classify_line("  \t "), LineKind::Blank));
    assert!(matches!(classify_line("  # comment"), LineKind::Comment));
}

#[test]
fn classify_cd_directive() {
    match classify_line("  cd   my dir  ") {
        LineKind::ChangeDir { target } => assert_eq!(target, "my dir"),
        _ => panic!("expected a cd directive"),
    }
}

#[test]
fn classify_passthrough() {
    match classify_line("  echo hi  ") {
        LineKind::Passthrough { command } => assert_eq!(command, "echo hi"),
        _ => panic!("expected a passthrough line"),
    }
    match classify_line("cd") {
        LineKind::Passthrough { command } => assert_eq!(command, "cd"),
        _ => panic!("a bare cd is handed to the shell"),
    }
    match classify_line("cdx y") {
        LineKind::Passthrough { command } => assert_eq!(command, "cdx y"),
        _ => panic!("expected a passthrough line"),
    }
}
