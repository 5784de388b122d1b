use nixui::config::{copy_entries, write_all, ConfigState, EditError};
use nixui::rows::{Control, FIRST_SWITCH_SLOT};

const SAMPLE: &str = "{ config, pkgs, ... }:\n{\n  zram.enable = true;\n  networking.hostName = \"box\";\n  boot.loader.timeout = 5;\n}\n";

fn pairs(v: &[(String, String)]) -> Vec<(&str, &str)> {
    v.iter().map(|(k, x)| (k.as_str(), x.as_str())).collect()
}

#[test]
fn load_reads_settings_sorted_by_key() {
    let s = ConfigState::load(SAMPLE.to_string()).unwrap();
    assert_eq!(s.file, SAMPLE);
    assert_eq!(
        pairs(&s.nix),
        vec![
            ("boot.loader.timeout", "5"),
            ("networking.hostName", "\"box\""),
            ("zram.enable", "true"),
        ]
    );
    assert_eq!(s.nix, s.last);
}

#[test]
fn load_flattens_nested_sets() {
    let s = ConfigState::load("{ services = { a = 1; b = false; }; }".to_string()).unwrap();
    assert_eq!(pairs(&s.nix), vec![("services.a", "1"), ("services.b", "false")]);
}

#[test]
fn load_refuses_text_without_attribute_set() {
    assert!(matches!(ConfigState::load("42".to_string()), Err(EditError::Unparsable)));
}

#[test]
fn fresh_session_has_no_changes() {
    let s = ConfigState::load(SAMPLE.to_string()).unwrap();
    assert!(s.changes().is_empty());
    assert_eq!(s.pending_file().unwrap(), SAMPLE);
}

#[test]
fn case_only_edit_is_no_change() {
    let mut s = ConfigState::load(SAMPLE.to_string()).unwrap();
    s.set_value(2, "TRUE".to_string());
    assert_eq!(s.nix[2].1, "TRUE");
    assert!(s.changes().is_empty());
}

#[test]
fn toggle_flips_boolean_and_is_a_change() {
    let mut s = ConfigState::load(SAMPLE.to_string()).unwrap();
    s.toggle(2);
    assert_eq!(s.nix[2].1, "false");
    assert_eq!(pairs(&s.changes()), vec![("zram.enable", "false")]);
    s.toggle(2);
    assert_eq!(s.nix[2].1, "true");
    assert!(s.changes().is_empty());
}

#[test]
fn toggle_leaves_other_values_and_bad_indices() {
    let mut s = ConfigState::load(SAMPLE.to_string()).unwrap();
    s.toggle(0);
    s.toggle(7);
    assert_eq!(s.nix, s.last);
}

#[test]
fn accepted_changes_are_written_back() {
    let mut s = ConfigState::load(SAMPLE.to_string()).unwrap();
    s.toggle(2);
    s.set_value(0, "10".to_string());
    let f = s.pending_file().unwrap();
    assert_ne!(f, SAMPLE);
    assert!(f.contains("zram.enable = false;"));
    assert!(f.contains("boot.loader.timeout = 10;"));
    assert!(f.contains("networking.hostName = \"box\";"));
    let t = ConfigState::load(f.clone()).unwrap();
    assert_eq!(
        pairs(&t.last),
        vec![
            ("boot.loader.timeout", "10"),
            ("networking.hostName", "\"box\""),
            ("zram.enable", "false"),
        ]
    );
    assert!(t.changes().is_empty());
    assert_eq!(t.pending_file().unwrap(), f);
}

#[test]
fn discard_restores_last_read() {
    let mut s = ConfigState::load(SAMPLE.to_string()).unwrap();
    s.toggle(2);
    s.set_value(1, "\"other\"".to_string());
    assert_eq!(s.changes().len(), 2);
    s.discard();
    assert_eq!(s.nix, s.last);
    assert!(s.changes().is_empty());
}

#[test]
fn blank_value_is_refused() {
    let mut s = ConfigState::load(SAMPLE.to_string()).unwrap();
    s.set_value(1, "  \n".to_string());
    match s.pending_file() {
        Err(EditError::BadValue { key }) => assert_eq!(key, "networking.hostName"),
        other => panic!("unexpected {:?}", other),
    }
    s.set_value(1, " # note".to_string());
    assert!(matches!(s.pending_file(), Err(EditError::BadValue { .. })));
    s.set_value(1, "\u{b}".to_string());
    assert!(matches!(s.pending_file(), Err(EditError::BadValue { .. })));
    s.set_value(1, "\u{a0}".to_string());
    assert!(matches!(s.pending_file(), Err(EditError::BadValue { .. })));
    s.set_value(1, "1 +".to_string());
    assert!(matches!(s.pending_file(), Err(EditError::BadValue { .. })));
}

#[test]
fn attribute_set_value_is_refused() {
    let f = "{\n  s.a = 1;\n}".to_string();
    let ws = vec![("s.a".to_string(), " { a = 2; b = 3; c = 4; }".to_string())];
    match write_all(&f, &ws) {
        Err(EditError::BadValue { key }) => assert_eq!(key, "s.a"),
        other => panic!("unexpected {:?}", other),
    }
    let ws = vec![("s.a".to_string(), "\u{a0}{ a = 2; }".to_string())];
    assert!(matches!(write_all(&f, &ws), Err(EditError::BadValue { .. })));
}

#[test]
fn value_that_only_starts_with_brace_is_written() {
    let f = "{\n  s.a = 1;\n}".to_string();
    let ws = vec![("s.a".to_string(), "{ a = 5; }.a".to_string())];
    let out = write_all(&f, &ws).unwrap();
    assert!(out.contains("s.a = { a = 5; }.a;"));
}

#[test]
fn interpolated_key_is_not_written() {
    let mut s = ConfigState::load("{ ${x} = 1; }".to_string()).unwrap();
    assert_eq!(pairs(&s.nix), vec![("${x}", "1")]);
    s.set_value(0, "2".to_string());
    match s.pending_file() {
        Err(EditError::UnsupportedKey { key }) => assert_eq!(key, "${x}"),
        other => panic!("unexpected {:?}", other),
    }
}

#[test]
fn quoted_key_is_not_written() {
    let f = "{ a = 1; a.\"x.y\" = 2; }".to_string();
    let ws = vec![("a.\"x.y\"".to_string(), "3".to_string())];
    assert!(matches!(write_all(&f, &ws), Err(EditError::UnsupportedKey { .. })));
}

#[test]
fn case_edit_of_a_string_is_a_change() {
    let mut s = ConfigState::load(SAMPLE.to_string()).unwrap();
    s.set_value(1, "\"BOX\"".to_string());
    assert_eq!(pairs(&s.changes()), vec![("networking.hostName", "\"BOX\"")]);
    let f = s.pending_file().unwrap();
    assert!(f.contains("networking.hostName = \"BOX\";"));
}

#[test]
fn write_into_text_without_set_is_refused() {
    let ws = vec![("a".to_string(), "1".to_string())];
    assert!(matches!(write_all(&"42".to_string(), &ws), Err(EditError::Unparsable)));
    assert!(matches!(write_all(&"{".to_string(), &ws), Err(EditError::Unparsable)));
}

#[test]
fn unknown_key_is_refused() {
    let ws = vec![("a.b.c".to_string(), "2".to_string())];
    match write_all(&"{ a = 1; }".to_string(), &ws) {
        Err(EditError::UnknownKey { key }) => assert_eq!(key, "a.b.c"),
        other => panic!("unexpected {:?}", other),
    }
}

#[test]
fn file_with_inherit_is_not_written() {
    let f = "{ a = { inherit x; }; a = 1; }".to_string();
    let s = ConfigState::load(f.clone()).unwrap();
    assert_eq!(s.file, f);
    let ws = vec![("a".to_string(), "2".to_string())];
    assert!(matches!(write_all(&f, &ws), Err(EditError::Unsupported)));
    let g = "{ inherits = 1; inherit_x = 2; }".to_string();
    let ws = vec![("inherits".to_string(), "3".to_string())];
    assert_eq!(write_all(&g, &ws).unwrap(), "{ inherits = 3; inherit_x = 2; }");
}

#[test]
fn load_refuses_text_with_parse_errors() {
    assert!(matches!(ConfigState::load("{ a =".to_string()), Err(EditError::Unparsable)));
    assert!(matches!(ConfigState::load("{".to_string()), Err(EditError::Unparsable)));
}

#[test]
fn write_all_with_nothing_keeps_file() {
    let f = "{ a = 1; }".to_string();
    assert_eq!(write_all(&f, &Vec::new()).unwrap(), f);
    let ws = vec![("a".to_string(), "2".to_string())];
    assert_eq!(write_all(&f, &ws).unwrap(), "{ a = 2; }");
}

#[test]
fn copies_are_equal() {
    let v = vec![("k".to_string(), "v".to_string())];
    assert_eq!(copy_entries(&v), v);
}

#[test]
fn rows_follow_settings() {
    let s = ConfigState::load(SAMPLE.to_string()).unwrap();
    let rows = s.rows();
    assert_eq!(rows.len(), 3);
    assert_eq!(rows[0].label, "[boot.loader.timeout]");
    assert_eq!(rows[0].control, Control::TextField);
    assert_eq!(rows[1].control, Control::TextField);
    assert_eq!(rows[2].label, "[zram.enable]");
    assert_eq!(rows[2].control, Control::Switch { on: true, slot: FIRST_SWITCH_SLOT + 2 });
}
