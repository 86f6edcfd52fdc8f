use leon::boot_config::{parse_boot_config, serialize_boot_config, BootConfig};

#[test]
fn parses_all_keys() {
    let cfg = parse_boot_config(
        "timeout = 5\ndefault_entry = \"Cudane Linux\"\ntheme = \"splash.py\"\nsplash = true\nentries_file = \"\\\\EFI\\\\leon\\\\entries.jsonc\"\n",
    )
    .unwrap();
    assert_eq!(cfg.timeout, Some(5));
    assert_eq!(cfg.default_entry.as_deref(), Some("Cudane Linux"));
    assert_eq!(cfg.theme.as_deref(), Some("splash.py"));
    assert_eq!(cfg.splash, Some(true));
    assert_eq!(cfg.entries_file.as_deref(), Some(r"\EFI\leon\entries.jsonc"));
}

#[test]
fn missing_keys_default() {
    let cfg = parse_boot_config("").unwrap();
    assert_eq!(cfg, BootConfig::default());
}

#[test]
fn ignores_comments_and_unknown_keys() {
    let cfg = parse_boot_config("# comment\ntimeout = 3   # inline\nfuture_key = \"x\"\n").unwrap();
    assert_eq!(cfg.timeout, Some(3));
    assert_eq!(cfg.default_entry, None);
    assert_eq!(cfg.splash, None);
}

#[test]
fn rejects_bad_values() {
    assert!(parse_boot_config("timeout = soon").is_err());
    assert!(parse_boot_config("splash = yes").is_err());
    assert!(parse_boot_config("theme = splash.py").is_err());
    assert!(parse_boot_config("default_entry = \"unclosed").is_err());
    assert!(parse_boot_config("garbage").is_err());
}

#[test]
fn unescapes_strings() {
    let cfg = parse_boot_config("default_entry = \"a\\\"b\"\ntheme = \"a\\\\b\"\n").unwrap();
    assert_eq!(cfg.default_entry.as_deref(), Some("a\"b"));
    assert_eq!(cfg.theme.as_deref(), Some("a\\b"));
}

#[test]
fn parses_literal_strings() {
    let cfg = parse_boot_config("entries_file = '\\EFI\\leon\\entries.jsonc'\n").unwrap();
    assert_eq!(cfg.entries_file.as_deref(), Some(r"\EFI\leon\entries.jsonc"));
}

#[test]
fn serialization_roundtrips_through_parse() {
    let cfg = BootConfig {
        timeout: Some(5),
        default_entry: Some("Cudane Linux".to_string()),
        theme: Some("splash.py".to_string()),
        splash: Some(true),
        entries_file: Some(r"\EFI\leon\entries.jsonc".to_string()),
    };
    let s = serialize_boot_config(&cfg);
    assert_eq!(parse_boot_config(&s).unwrap(), cfg);
}

#[test]
fn serialization_omits_unset_keys() {
    assert!(serialize_boot_config(&BootConfig::default()).trim().is_empty());
}

#[test]
fn serialization_uses_literal_strings_for_backslash_paths() {
    let cfg = BootConfig {
        entries_file: Some(r"\EFI\leon\entries.jsonc".to_string()),
        ..BootConfig::default()
    };
    let s = serialize_boot_config(&cfg);
    assert!(s.contains(r"entries_file = '\EFI\leon\entries.jsonc'"));
    assert_eq!(parse_boot_config(&s).unwrap(), cfg);
}

#[test]
fn serialization_escapes_embedded_quotes() {
    let cfg = BootConfig {
        default_entry: Some("It's Leon".to_string()),
        theme: Some(r"a\b".to_string()),
        ..BootConfig::default()
    };
    let s = serialize_boot_config(&cfg);
    assert_eq!(parse_boot_config(&s).unwrap(), cfg);
}

#[test]
fn serialization_roundtrips_hash_and_newline_values() {
    let cfg = BootConfig {
        theme: Some("a#b".to_string()),
        default_entry: Some("two\nlines".to_string()),
        entries_file: Some("it's # here\n".to_string()),
        ..BootConfig::default()
    };
    let s = serialize_boot_config(&cfg);
    assert!(s.contains("theme = 'a#b'\n"));
    assert!(s.contains("default_entry = \"two\\nlines\"\n"));
    assert_eq!(parse_boot_config(&s).unwrap(), cfg);
}

#[test]
fn hash_inside_quotes_is_not_a_comment() {
    let cfg = parse_boot_config("theme = \"x#y\" # trailing\ndefault_entry = 'p#q'\n").unwrap();
    assert_eq!(cfg.theme.as_deref(), Some("x#y"));
    assert_eq!(cfg.default_entry.as_deref(), Some("p#q"));
}
