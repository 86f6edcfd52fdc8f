use leon::tui_app::{App, Context, Entry};
use leon::tui_view::{
    centered, details_lines, empty_message, header, help_area, help_lines, list_rows, preview_area, preview_lines,
    search_line, Area,
};

fn ctx() -> Context {
    Context {
        entries: vec![
            Entry { label: "Arch".into(), path: "/efi/arch".into(), source: "test".into() },
            Entry { label: "".into(), path: "/efi/unnamed".into(), source: "test".into() },
        ],
        width: 1366,
        height: 768,
        stride: 1376,
        format: "Bgrx".into(),
        timeout: "5".into(),
        default: "Arch".into(),
        splash: "true".into(),
    }
}

#[test]
fn header_pieces() {
    let app = App::new(ctx());
    let h = header(&app);
    assert_eq!(h.lead, " LEON Boot Manager \u{2014} ");
    assert_eq!(h.count, "2/2 entries");
    assert_eq!(h.geo, "  \u{b7}  fb 1366x768 stride 1376 Bgrx");
    assert_eq!(h.filter, None);
    assert_eq!(h.status, None);
    let app = App::new(Context::default());
    assert_eq!(header(&app).geo, "  \u{b7}  fb: not available");
    assert_eq!(empty_message(&app), " no boot entries found (run `lbc entries list`)");
    assert_eq!(search_line(&app), " / \u{258f}");
}

#[test]
fn list_rows_mark_the_selection() {
    let app = App::new(ctx());
    let rows = list_rows(&app, 10);
    assert_eq!(rows.len(), 2);
    assert_eq!(rows[0].prefix, " \u{25b6}  1 ");
    assert!(rows[0].selected);
    assert_eq!(rows[1].prefix, "    2 ");
    assert_eq!(rows[1].label, "/efi/unnamed");
    assert_eq!(list_rows(&app, 1).len(), 1);
}

#[test]
fn panes_show_the_selected_entry() {
    let app = App::new(ctx());
    assert_eq!(
        details_lines(&app),
        vec![
            " label:   Arch",
            " path:    /efi/arch",
            " source:  test",
            " boot:    timeout 5 \u{b7} default Arch \u{b7} splash true",
        ]
    );
    assert_eq!(preview_lines(&app)[0], "  label:  Arch");
    let empty = App::new(Context::default());
    assert_eq!(details_lines(&empty), vec!["no entry selected"]);
    assert_eq!(preview_lines(&empty), vec!["  no entry selected"]);
    assert_eq!(help_lines().len(), 16);
}

#[test]
fn overlays_are_centered_and_clamped() {
    let a = Area { x: 0, y: 0, width: 100, height: 40 };
    assert_eq!(centered(a, 60, 18), Area { x: 20, y: 11, width: 60, height: 18 });
    assert_eq!(centered(a, 200, 50), Area { x: 0, y: 0, width: 100, height: 40 });
    assert_eq!(help_area(a), Area { x: 20, y: 11, width: 60, height: 18 });
    assert_eq!(preview_area(a, 3), Area { x: 20, y: 17, width: 60, height: 5 });
    let small = Area { x: 2, y: 1, width: 10, height: 3 };
    assert_eq!(help_area(small), Area { x: 2, y: 2, width: 10, height: 0 });
}

#[test]
fn help_overlay_lists_every_key() {
    let lines = help_lines();
    assert_eq!(lines.len(), 16);
    assert_eq!(lines[0], "LEON Boot Manager \u{2014} keys");
    assert_eq!(lines[1], "");
    assert_eq!(lines[7], "  Ctrl+U               clear search");
    assert_eq!(lines[14], "  Esc                  dismiss help / preview / filter, then quit");
    assert_eq!(lines[15], "  q                    quit");
}
