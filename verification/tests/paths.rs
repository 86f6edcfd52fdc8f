use leon::paths::absolutize;

#[test]
fn absolutize_resolves_relative_against_base() {
    let base = "/home/user/.config/leon";
    assert_eq!(absolutize("./venv_tui.py", base, None), "/home/user/.config/leon/venv_tui.py");
    assert_eq!(absolutize("venv", base, None), "/home/user/.config/leon/venv");
    // Absolute paths pass through untouched; `~` expands against the home directory.
    assert_eq!(absolutize("/x/y.py", base, None), "/x/y.py");
    assert_eq!(absolutize("", base, None), "");
}

#[test]
fn absolutize_drops_dot_segments() {
    let base = "/home/user/.config/leon";
    assert_eq!(absolutize("./venv", base, None), "/home/user/.config/leon/venv");
    assert_eq!(
        absolutize("././tuis/./leon_menu.py", base, None),
        "/home/user/.config/leon/tuis/leon_menu.py"
    );
    assert_eq!(absolutize("/a/./b", base, None), "/a/b");
}

#[test]
fn absolutize_expands_tilde_against_home() {
    let base = "/etc/leon";
    assert_eq!(absolutize("~/venv", base, Some("/home/user")), "/home/user/venv");
    assert_eq!(absolutize("~", base, Some("/home/user")), "/home/user");
    assert_eq!(absolutize("~/venv", base, None), "/etc/leon/~/venv");
    assert_eq!(absolutize("a//b/", "rel", None), "rel/a/b");
}
