use leon::boot_config::BootConfig;
use leon::menu::{
    apply_edit, describe_entry, entries_body, menu_header, menu_rows, pad_label, prefill, strip_jsonc_comments, Edit,
    MenuAction, NO_ENTRIES, session_step, SessionEffect, SessionEvent,
};

#[test]
fn strips_line_and_block_comments() {
    let src = "// header\n{ \"a\": 1, /* note */ \"b\": 2 }\n";
    assert_eq!(strip_jsonc_comments(src), "\n{ \"a\": 1,  \"b\": 2 }\n");
}

#[test]
fn comment_markers_inside_strings_are_text() {
    let src = "{\"url\": \"http://x/*y*/\", \"q\": \"a\\\"//b\"} // tail";
    assert_eq!(strip_jsonc_comments(src), "{\"url\": \"http://x/*y*/\", \"q\": \"a\\\"//b\"} ");
}

#[test]
fn block_comment_ends_only_at_star_slash() {
    assert_eq!(strip_jsonc_comments("a/*/ b */c"), "ac");
    assert_eq!(strip_jsonc_comments("a/* never closed"), "a");
    assert_eq!(strip_jsonc_comments("x / y"), "x / y");
}

#[test]
fn strips_the_bootloaders_entries_file_header() {
    let src = "// Auto-generated by lbl on every boot. Do not edit.\n{\n  \"entries\": []\n}\n";
    assert_eq!(strip_jsonc_comments(src), "\n{\n  \"entries\": []\n}\n");
}

#[test]
fn labels_pad_to_the_value_column() {
    let row = pad_label("[Splash Theme]", "(x)");
    assert_eq!(row.len(), 34 + 3);
    assert!(row.starts_with("[Splash Theme]      "));
    assert!(row.ends_with(" (x)"));
    let long = "L".repeat(40);
    assert_eq!(pad_label(&long, "v"), format!("{long}v"));
}

#[test]
fn default_menu_rows() {
    let rows = menu_rows(&BootConfig::default());
    assert_eq!(rows.len(), 7);
    assert_eq!(rows[0].0, format!("{:<34}(5)", "[Boot Timeout (seconds)]"));
    assert_eq!(rows[0].1, MenuAction::EditTimeout);
    assert!(rows[1].0.ends_with("[*]"));
    assert!(rows[2].0.ends_with("(default)"));
    assert!(rows[3].0.ends_with(r"\EFI\leon\entries.jsonc"));
    assert!(rows[4].0.ends_with("(auto)"));
    assert_eq!(rows[5].1, MenuAction::ViewEntries);
    assert!(rows[6].0.ends_with("--->"));
    assert_eq!(menu_header("/tmp/boot.toml", true), "Editing: /tmp/boot.toml (unsaved changes)");
    assert_eq!(menu_header("/tmp/boot.toml", false), "Editing: /tmp/boot.toml");
}

#[test]
fn edits_change_the_config() {
    let mut c = BootConfig::default();
    assert!(apply_edit(&mut c, Edit::ToggleSplash));
    assert_eq!(c.splash, Some(false));
    assert!(!apply_edit(&mut c, Edit::Timeout("soon".to_string())));
    assert_eq!(c.timeout, None);
    assert!(apply_edit(&mut c, Edit::Timeout("7".to_string())));
    assert_eq!(c.timeout, Some(7));
    assert!(apply_edit(&mut c, Edit::Theme("  splash.py ".to_string())));
    assert_eq!(c.theme.as_deref(), Some("splash.py"));
    assert!(apply_edit(&mut c, Edit::DefaultEntry("   ".to_string())));
    assert_eq!(c.default_entry, None);
    assert!(apply_edit(&mut c, Edit::PickEntry("kernel".to_string())));
    assert_eq!(c.default_entry.as_deref(), Some("kernel"));
    assert_eq!(prefill(&c, MenuAction::EditTimeout), "7");
    assert_eq!(prefill(&c, MenuAction::EditEntriesFile), "");
}

#[test]
fn entries_dialog_text() {
    let es = Some(vec!["kernel".to_string(), "memtest".to_string()]);
    let p = Some("/boot/efi/EFI/leon/entries.jsonc".to_string());
    assert_eq!(
        entries_body(&es, &p),
        "From /boot/efi/EFI/leon/entries.jsonc:\n\n  - kernel\n  - memtest\n"
    );
    assert_eq!(entries_body(&None, &p), NO_ENTRIES);
    assert_eq!(entries_body(&Some(Vec::new()), &p), NO_ENTRIES);
}

/// The entries of an `entries.jsonc` text as the menu shows them.
fn entries_of(text: &str) -> Option<Vec<String>> {
    let value: serde_json::Value = serde_json::from_str(&strip_jsonc_comments(text)).ok()?;
    let arr = match value {
        serde_json::Value::Array(a) => a,
        serde_json::Value::Object(mut o) => o.remove("entries")?.as_array()?.clone(),
        _ => return None,
    };
    Some(
        arr.iter()
            .map(|v| {
                let fields: Vec<Option<String>> = ["label", "name", "path", "file", "vendor"]
                    .iter()
                    .map(|k| v.get(k).and_then(|x| x.as_str()).map(str::to_string))
                    .collect();
                describe_entry(&fields, &v.to_string())
            })
            .collect(),
    )
}

#[test]
fn loads_the_bootloaders_entries_file() {
    let text = "// Auto-generated by lbl on every boot. Do not edit.\n{\n  \"entries\": [\n    { \"label\": \"kernel\", \"path\": \"\\\\EFI\\\\leon\\\\kernel.efi\" }\n  ]\n}\n";
    assert_eq!(entries_of(text).unwrap(), vec!["kernel"]);
}

#[test]
fn entries_fall_back_through_their_fields() {
    let none: Option<String> = None;
    let fields = vec![none.clone(), None, Some("EFI/x.efi".to_string()), Some("f".to_string()), None];
    assert_eq!(describe_entry(&fields, "{}"), "EFI/x.efi");
    assert_eq!(describe_entry(&[None, None, None, None, None], "{\"id\":3}"), "{\"id\":3}");
}

#[test]
fn unsaved_changes_are_confirmed_before_quitting() {
    let (dirty, e) = session_step(false, SessionEvent::Chose(MenuAction::ToggleSplash));
    assert!(dirty);
    assert_eq!(e, SessionEffect::Redraw);
    assert_eq!(session_step(dirty, SessionEvent::Chose(MenuAction::QuitWithoutSaving)), (true, SessionEffect::ConfirmQuit));
    assert_eq!(session_step(false, SessionEvent::Chose(MenuAction::QuitWithoutSaving)), (false, SessionEffect::Quit));
    assert_eq!(
        session_step(true, SessionEvent::Chose(MenuAction::SaveAndQuit)),
        (true, SessionEffect::Write { then_quit: true })
    );
    assert_eq!(
        session_step(true, SessionEvent::SaveDone { ok: false, then_quit: false }),
        (true, SessionEffect::ReportSaveError)
    );
    assert_eq!(session_step(true, SessionEvent::SaveDone { ok: true, then_quit: false }), (false, SessionEffect::Redraw));
    assert_eq!(session_step(false, SessionEvent::EditConfirmed(false)), (false, SessionEffect::ReportBadValue));
    assert_eq!(session_step(false, SessionEvent::EditConfirmed(true)), (true, SessionEffect::Redraw));
    assert_eq!(session_step(false, SessionEvent::Chose(MenuAction::EditTheme)), (false, SessionEffect::OpenDialog));
}
