use magish::command::{parse_choice, parse_command, pick_script, target_dir, DirTarget, ShellCommand};
use magish::config::Config;

#[test]
fn empty_line_runs_auto_discovery() {
    assert!(matches!(parse_command("   "), ShellCommand::AutoRun));
}

#[test]
fn list_commands() {
    assert!(matches!(parse_command("ls"), ShellCommand::List(DirTarget::Current)));
    assert!(matches!(parse_command("ls ."), ShellCommand::List(DirTarget::Current)));
    assert!(matches!(parse_command(" ls  .. "), ShellCommand::List(DirTarget::Parent)));
    match parse_command("ls src") {
        ShellCommand::List(DirTarget::Path(p)) => assert_eq!(p, "src"),
        _ => panic!("expected ls with a path"),
    }
}

#[test]
fn cd_commands() {
    assert!(matches!(parse_command("cd"), ShellCommand::Home));
    assert!(matches!(parse_command("cd .."), ShellCommand::ChangeDir(DirTarget::Parent)));
    match parse_command("cd /tmp") {
        ShellCommand::ChangeDir(DirTarget::Path(p)) => assert_eq!(p, "/tmp"),
        _ => panic!("expected cd with a path"),
    }
}

#[test]
fn meta_commands() {
    assert!(matches!(parse_command("help"), ShellCommand::Help));
    assert!(matches!(parse_command("quit"), ShellCommand::Quit));
    assert!(matches!(parse_command("exit"), ShellCommand::Quit));
    assert!(matches!(parse_command("scan"), ShellCommand::Scan));
    assert!(matches!(parse_command("scan -o"), ShellCommand::ScanSave));
}

#[test]
fn numbers_and_paths() {
    assert!(matches!(parse_command("3"), ShellCommand::Pick(3)));
    assert!(matches!(parse_command("+7"), ShellCommand::Pick(7)));
    match parse_command("run.sh") {
        ShellCommand::Open(p) => assert_eq!(p, "run.sh"),
        _ => panic!("expected a path"),
    }
    match parse_command("-1") {
        ShellCommand::Open(p) => assert_eq!(p, "-1"),
        _ => panic!("a negative number is a path"),
    }
}

#[test]
fn choices_parse_like_usize() {
    assert_eq!(parse_choice(" 12 \n"), Some(12));
    assert_eq!(parse_choice("007"), Some(7));
    assert_eq!(parse_choice("+"), None);
    assert_eq!(parse_choice(""), None);
    assert_eq!(parse_choice("1a"), None);
    assert_eq!(parse_choice("18446744073709551615"), Some(usize::MAX));
    assert_eq!(parse_choice("18446744073709551616"), None);
}

#[test]
fn scripts_are_picked_from_one() {
    let scripts = vec!["/d/a.sh".to_string(), "/d/b.sh".to_string()];
    assert_eq!(pick_script(&scripts, 1), Some("/d/a.sh".to_string()));
    assert_eq!(pick_script(&scripts, 2), Some("/d/b.sh".to_string()));
    assert_eq!(pick_script(&scripts, 0), None);
    assert_eq!(pick_script(&scripts, 3), None);
}

#[test]
fn target_directories() {
    assert_eq!(target_dir("/a/b", &DirTarget::Current), "/a/b");
    assert_eq!(target_dir("/a/b", &DirTarget::Parent), "/a");
    assert_eq!(target_dir("/", &DirTarget::Parent), "/");
    assert_eq!(target_dir("/a", &DirTarget::Path("c".to_string())), "/a/c");
}

#[test]
fn default_config() {
    let c = Config::with_home(Some("/home/u".to_string()));
    assert_eq!(c.last_directory, "/home/u");
    assert_eq!(c.history_limit, 100);
    assert_eq!(Config::with_home(None).last_directory, ".");
}
