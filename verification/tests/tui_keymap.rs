use leon::tui_app::{entries_from_text, App, Context, KeyCode, KeyEvent, KeyEventKind, Request};
use leon::tui_view::{details_lines, header, help_lines, search_line};

const ENTRIES: &str = "Arch Linux (efi)\t/efi/arch/vmlinuz-linux\n\
Linux 6.6.30-lts\t/efi/linux/vmlinuz\n\
Windows Boot Manager\t/efi/microsoft/bootmgfw.efi\n\
Debian (efi)\t/efi/debian/vmlinuz\n\
Fedora Workstation\t/efi/fedora/vmlinuz\n\
Memtest86+\t/efi/memtest/memtest.bin";

fn menu() -> App {
    let ctx = Context { entries: entries_from_text(ENTRIES).unwrap(), ..Default::default() };
    let mut app = App::new(ctx);
    app.set_page_height(36);
    app
}

fn key(app: &mut App, code: KeyCode) -> Request {
    let r = app.on_key(KeyEvent { code, ctrl: false, kind: KeyEventKind::Press });
    app.set_page_height(36);
    r
}

/// The number shown beside the selection marker.
fn sel(app: &App) -> Option<usize> {
    if app.selected < app.filtered.len() {
        Some(app.selected + 1)
    } else {
        None
    }
}

#[test]
fn boot_and_quit() {
    let mut app = menu();
    assert_eq!(header(&app).count, "6/6 entries");
    key(&mut app, KeyCode::Char('q'));
    assert!(app.quit);
}

#[test]
fn full_keymap() {
    let mut app = menu();
    let total = app.context.entries.len();
    assert_eq!(sel(&app), Some(1));
    key(&mut app, KeyCode::Char('j'));
    assert_eq!(sel(&app), Some(2));
    key(&mut app, KeyCode::Char('k'));
    assert_eq!(sel(&app), Some(1));
    key(&mut app, KeyCode::PageDown);
    assert!(sel(&app).is_some() && sel(&app) != Some(1));
    key(&mut app, KeyCode::PageUp);
    assert_eq!(sel(&app), Some(1));
    key(&mut app, KeyCode::Home);
    assert_eq!(sel(&app), Some(1));
    key(&mut app, KeyCode::End);
    assert_eq!(sel(&app), Some(total));
    key(&mut app, KeyCode::Char('3'));
    assert_eq!(sel(&app), Some(3));
    key(&mut app, KeyCode::Char('1'));
    assert_eq!(sel(&app), Some(1));
    key(&mut app, KeyCode::Down);
    assert_eq!(sel(&app), Some(2));
    key(&mut app, KeyCode::Up);
    assert_eq!(sel(&app), Some(1));

    key(&mut app, KeyCode::Char('/'));
    assert!(app.editing && search_line(&app).contains(" / "));
    for c in "efi".chars() {
        key(&mut app, KeyCode::Char(c));
    }
    assert!(search_line(&app).contains("/ efi"));
    key(&mut app, KeyCode::Enter);
    assert!(!app.editing);
    let h = header(&app);
    assert!(h.filter.unwrap().contains("filter:"));
    assert_eq!(h.count, "2/6 entries");

    key(&mut app, KeyCode::Char('n'));
    assert!(sel(&app).is_some() && sel(&app) <= Some(total));
    key(&mut app, KeyCode::Char('N'));
    assert!(sel(&app).is_some() && sel(&app) <= Some(total));
    key(&mut app, KeyCode::Esc);
    assert!(header(&app).filter.is_none());

    key(&mut app, KeyCode::Char('h'));
    assert!(app.show_help);
    let help = help_lines().join("\n");
    assert!(help.contains("PgUp / PgDn") && help.contains("move selection"));
    key(&mut app, KeyCode::Char('h'));
    assert!(!app.show_help);

    key(&mut app, KeyCode::Char('d'));
    assert!(app.show_details);
    let d = details_lines(&app).join("\n");
    assert!(d.contains("path:") && d.contains("source:"));
    key(&mut app, KeyCode::Char('d'));
    assert!(!app.show_details);

    key(&mut app, KeyCode::Char(' '));
    assert!(app.preview.open);
    key(&mut app, KeyCode::Char(' '));
    assert!(!app.preview.open);

    assert_eq!(key(&mut app, KeyCode::Char('r')), Request::Refresh);
    app.refresh(Context { entries: entries_from_text(ENTRIES).unwrap(), ..Default::default() });
    assert!(header(&app).status.unwrap().contains("refreshed"));

    key(&mut app, KeyCode::Char('q'));
    assert!(app.quit);
}
