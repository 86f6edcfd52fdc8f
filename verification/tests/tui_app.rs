use leon::tui_app::{match_lowered, App, Context, Entry, KeyCode, KeyEvent, KeyEventKind, Request};

fn ctx() -> Context {
    Context {
        entries: vec![
            Entry { label: "Arch Linux (efi)".into(), path: "/efi/arch/vmlinuz".into(), source: "test".into() },
            Entry { label: "Linux 6.6.30-lts".into(), path: "/efi/linux/vmlinuz".into(), source: "test".into() },
            Entry {
                label: "Windows Boot Manager".into(),
                path: "/efi/microsoft/bootmgfw.efi".into(),
                source: "test".into(),
            },
            Entry { label: "Debian (efi)".into(), path: "/efi/debian/vmlinuz".into(), source: "test".into() },
            Entry { label: "Fedora Workstation".into(), path: "/efi/fedora/vmlinuz".into(), source: "test".into() },
            Entry { label: "Memtest86+".into(), path: "/efi/memtest/memtest.bin".into(), source: "test".into() },
        ],
        ..Default::default()
    }
}

fn press(app: &mut App, code: KeyCode) {
    app.on_key(KeyEvent { code, ctrl: false, kind: KeyEventKind::Press });
}

fn ctrl(app: &mut App, c: char) -> Request {
    app.on_key(KeyEvent { code: KeyCode::Char(c), ctrl: true, kind: KeyEventKind::Press })
}

#[test]
fn filter_narrows_and_commits() {
    let mut app = App::new(ctx());
    assert_eq!(app.filtered.len(), 6);
    press(&mut app, KeyCode::Char('/'));
    assert!(app.editing);
    for c in "efi".chars() {
        press(&mut app, KeyCode::Char(c));
    }
    assert_eq!(app.filter, "efi");
    assert_eq!(app.filtered, vec![0, 3]);
    press(&mut app, KeyCode::Enter);
    assert!(!app.editing);
    assert_eq!(app.filtered, vec![0, 3]);
    press(&mut app, KeyCode::Esc);
    assert_eq!(app.filter, "");
    assert_eq!(app.filtered.len(), 6);
}

#[test]
fn digits_navigation_and_non_wrapping_bounds() {
    let mut app = App::new(ctx());
    press(&mut app, KeyCode::Char('3'));
    assert_eq!(app.selected, 2);
    press(&mut app, KeyCode::Char('0'));
    // '0' maps to entry 10, which is beyond the 6 entries: no-op.
    assert_eq!(app.selected, 2);
    press(&mut app, KeyCode::End);
    assert_eq!(app.selected, 5);
    press(&mut app, KeyCode::Down);
    assert_eq!(app.selected, 5);
    press(&mut app, KeyCode::Up);
    assert_eq!(app.selected, 4);
}

#[test]
fn details_and_preview_toggle() {
    let mut app = App::new(ctx());
    assert!(!app.show_details);
    press(&mut app, KeyCode::Char('d'));
    assert!(app.show_details);
    press(&mut app, KeyCode::Char('d'));
    assert!(!app.show_details);
    press(&mut app, KeyCode::Char(' '));
    assert!(app.preview.open);
    press(&mut app, KeyCode::Esc);
    assert!(!app.preview.open);
    assert!(!app.quit);
}

#[test]
fn question_mark_toggles_help() {
    let mut app = App::new(ctx());
    assert!(!app.show_help);
    press(&mut app, KeyCode::Char('?'));
    assert!(app.show_help);
    press(&mut app, KeyCode::Char('?'));
    assert!(!app.show_help);
}

#[test]
fn page_up_page_down_moves_selection_by_page() {
    let mut app = App::new(ctx());
    app.filtered = (0..20).collect();
    app.page_height = 5;
    app.selected = 0;
    press(&mut app, KeyCode::PageDown);
    assert_eq!(app.selected, 5);
    press(&mut app, KeyCode::PageDown);
    assert_eq!(app.selected, 10);
    press(&mut app, KeyCode::PageUp);
    assert_eq!(app.selected, 5);
    press(&mut app, KeyCode::PageUp);
    assert_eq!(app.selected, 0);
}

#[test]
fn ensure_visible_scrolls_selection_into_view() {
    let mut app = App::new(ctx());
    app.filtered = (0..20).collect();
    app.page_height = 5;
    app.selected = 0;
    app.scroll_offset = 0;
    for _ in 0..6 {
        press(&mut app, KeyCode::Down);
    }
    assert_eq!(app.selected, 5);
    assert_eq!(app.scroll_offset, 1);
}

#[test]
fn ctrl_c_quits() {
    let mut app = App::new(ctx());
    ctrl(&mut app, 'c');
    assert!(app.quit);
}

#[test]
fn ctrl_u_clears_search() {
    let mut app = App::new(ctx());
    press(&mut app, KeyCode::Char('/'));
    for c in "arch".chars() {
        press(&mut app, KeyCode::Char(c));
    }
    assert_eq!(app.filter, "arch");
    ctrl(&mut app, 'u');
    assert_eq!(app.filter, "");
    assert!(app.editing);
}

#[test]
fn delete_backspace_work_in_search() {
    let mut app = App::new(ctx());
    press(&mut app, KeyCode::Char('/'));
    press(&mut app, KeyCode::Char('a'));
    press(&mut app, KeyCode::Char('b'));
    assert_eq!(app.filter, "ab");
    press(&mut app, KeyCode::Backspace);
    assert_eq!(app.filter, "a");
    press(&mut app, KeyCode::Delete);
    assert_eq!(app.filter, "");
}

#[test]
fn esc_dismisses_then_quits() {
    let mut app = App::new(ctx());
    press(&mut app, KeyCode::Esc);
    assert!(app.quit);
    let mut app = App::new(ctx());
    press(&mut app, KeyCode::Char('/'));
    for c in "win".chars() {
        press(&mut app, KeyCode::Char(c));
    }
    press(&mut app, KeyCode::Enter);
    assert_eq!(app.filtered, vec![2]);
    press(&mut app, KeyCode::Esc);
    assert!(!app.quit);
    assert_eq!(app.filter, "");
    press(&mut app, KeyCode::Esc);
    assert!(app.quit);
}

#[test]
fn refresh_resets_ui_state() {
    let mut app = App::new(ctx());
    app.show_help = true;
    app.preview.open = true;
    app.filter = "arch".into();
    app.rebuild_filter();
    let r = app.on_key(KeyEvent { code: KeyCode::Char('r'), ctrl: false, kind: KeyEventKind::Press });
    assert_eq!(r, Request::Refresh);
    assert!(!app.show_help);
    assert!(!app.preview.open);
    assert_eq!(app.filter, "");
    assert_eq!(app.selected, 0);
}

#[test]
fn slash_search_clears_preview_help() {
    let mut app = App::new(ctx());
    app.show_help = true;
    app.preview.open = true;
    press(&mut app, KeyCode::Char('/'));
    assert!(!app.show_help);
    assert!(!app.preview.open);
    assert!(app.editing);
}

#[test]
fn refresh_reports_counts() {
    let mut app = App::new(ctx());
    app.refresh(ctx());
    assert_eq!(app.status.as_deref(), Some("refreshed: 6 entries, 6 shown"));
    press(&mut app, KeyCode::Char('j'));
    assert_eq!(app.status, None);
}

#[test]
fn releases_are_ignored() {
    let mut app = App::new(ctx());
    app.on_key(KeyEvent { code: KeyCode::Char('q'), ctrl: false, kind: KeyEventKind::Release });
    assert!(!app.quit);
}

#[test]
fn search_is_case_insensitive_on_labels_only() {
    let mut app = App::new(ctx());
    press(&mut app, KeyCode::Char('/'));
    for c in "LINUX".chars() {
        press(&mut app, KeyCode::Char(c));
    }
    assert_eq!(app.filtered, vec![0, 1]);
    let e = app.selected_entry().unwrap();
    assert_eq!(e.label, "Arch Linux (efi)");
}

#[test]
fn esc_clears_a_committed_filter_then_quits() {
    let mut app = App::new(ctx());
    assert_eq!(app.filtered, vec![0, 1, 2, 3, 4, 5]);
    press(&mut app, KeyCode::Char('/'));
    for c in "win".chars() {
        press(&mut app, KeyCode::Char(c));
    }
    press(&mut app, KeyCode::Enter);
    assert_eq!(app.filtered, vec![2]);
    press(&mut app, KeyCode::Esc);
    assert_eq!(app.filter, "");
    assert_eq!(app.filtered, vec![0, 1, 2, 3, 4, 5]);
    assert_eq!(app.selected, 0);
    assert!(!app.quit);
    press(&mut app, KeyCode::Esc);
    assert!(app.quit);
}

#[test]
fn lowered_labels_match_the_lowered_query() {
    let lowered = vec!["arch linux".chars().collect::<Vec<char>>(), "windows".chars().collect(), "linux lts".chars().collect()];
    let q: Vec<char> = "linux".chars().collect();
    assert_eq!(match_lowered(&lowered, &q), vec![0, 2]);
    assert_eq!(match_lowered(&lowered, &[]), vec![0, 1, 2]);
}

#[test]
fn moving_the_selection_clamps_without_wrapping() {
    let mut app = App::new(ctx());
    app.move_selection(true, 100);
    assert_eq!(app.selected, 5);
    app.move_selection(true, 1);
    assert_eq!(app.selected, 5);
    app.move_selection(false, 1);
    assert_eq!(app.selected, 4);
    app.move_selection(false, 100);
    assert_eq!(app.selected, 0);
    assert_eq!(app.filtered, vec![0, 1, 2, 3, 4, 5]);
}
