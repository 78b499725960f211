use magish::backend::{lists_wsl2, shell_invocation, Platform};

#[test]
fn posix_runs_bash_directly() {
    let inv = shell_invocation(Platform::Posix, "echo hi");
    assert_eq!(inv.program, "bash");
    assert_eq!(inv.args, vec!["-c", "echo hi"]);
}

#[test]
fn windows_runs_bash_through_wsl() {
    let inv = shell_invocation(Platform::Windows, "ls -la");
    assert_eq!(inv.program, "wsl");
    assert_eq!(inv.args, vec!["bash", "-c", "ls -la"]);
}

#[test]
fn invocation_shape_is_fixed_per_platform() {
    for platform in [Platform::Posix, Platform::Windows] {
        let a = shell_invocation(platform, "echo a");
        let b = shell_invocation(platform, "cd x && make all");
        assert_eq!(a.program, b.program);
        assert_eq!(a.args.len(), b.args.len());
        let n = a.args.len();
        assert_eq!(a.args[..n - 1], b.args[..n - 1]);
        assert_eq!(a.args[n - 1], "echo a");
        assert_eq!(b.args[n - 1], "cd x && make all");
    }
}

#[test]
fn wsl_listing_with_version_two() {
    assert!(lists_wsl2("  NAME      STATE    VERSION\n* Ubuntu    Running  2\n"));
    assert!(!lists_wsl2("  NAME      STATE    VERSION\n* Ubuntu    Running  1\n"));
    assert!(!lists_wsl2(""));
}
