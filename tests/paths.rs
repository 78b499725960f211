use magish::paths::resolve_path;

#[test]
fn relative_path_is_joined() {
    assert_eq!(resolve_path("/home/u", "bin"), "/home/u/bin");
    assert_eq!(resolve_path("/home/u/", "bin"), "/home/u/bin");
    assert_eq!(resolve_path("", "bin"), "bin");
}

#[test]
fn absolute_path_is_kept() {
    assert_eq!(resolve_path("/home/u", "/etc"), "/etc");
}
