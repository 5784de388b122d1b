use nixui::config::{closes_brace_exec, opens_brace_exec, plain_key_exec};
use nixui::flag::{flag_of, toggled};
use nixui::rows::{action_for_slot, label_of, Action};
use nixui::text::{chars_of, eq_ignore_ascii_case, key_less};

#[test]
fn key_order_follows_string_order() {
    assert!(key_less("a", "b"));
    assert!(!key_less("b", "a"));
    assert!(!key_less("a", "a"));
    assert!(key_less("a", "ab"));
    assert!(!key_less("ab", "a"));
    assert!(key_less("", "a"));
    assert!(!key_less("", ""));
    assert!(key_less("boot.loader", "boot.loader.grub"));
    assert!(key_less("Z", "a"));
    assert!(key_less("z", "\u{e9}"));
    let pairs = [("x.y", "x_y"), ("networking", "nix"), ("a.b", "a-b")];
    for (a, b) in pairs {
        assert_eq!(key_less(a, b), a.to_string() < b.to_string());
        assert_eq!(key_less(b, a), b.to_string() < a.to_string());
    }
}

#[test]
fn ascii_case_is_ignored_and_nothing_else() {
    assert!(eq_ignore_ascii_case("TrUe", "true"));
    assert!(eq_ignore_ascii_case("", ""));
    assert!(!eq_ignore_ascii_case("true", "tru"));
    assert!(!eq_ignore_ascii_case("true", "truf"));
    assert!(!eq_ignore_ascii_case("\u{e9}", "\u{c9}"));
    assert!(eq_ignore_ascii_case("A[b]@", "a[B]@"));
    assert!(!eq_ignore_ascii_case("@", "`"));
}

#[test]
fn chars_keep_order() {
    assert_eq!(chars_of("a\u{e9}c"), vec!['a', '\u{e9}', 'c']);
    assert!(chars_of("").is_empty());
}

#[test]
fn booleans_in_any_case() {
    assert_eq!(flag_of("true"), Some(true));
    assert_eq!(flag_of("True"), Some(true));
    assert_eq!(flag_of("FALSE"), Some(false));
    assert_eq!(flag_of("yes"), None);
    assert_eq!(flag_of(""), None);
    assert_eq!(flag_of(" true"), None);
    assert_eq!(flag_of("\"true\""), None);
}

#[test]
fn toggling_swaps_booleans_only() {
    assert_eq!(toggled("TRUE"), "false");
    assert_eq!(toggled("false"), "true");
    assert_eq!(toggled("42"), "42");
    assert_eq!(toggled(""), "");
    assert_eq!(toggled(&toggled("False")), "false");
}

#[test]
fn labels_bracket_the_key() {
    assert_eq!(label_of("boot.loader.grub.enable"), "[boot.loader.grub.enable]");
    assert_eq!(label_of(""), "[]");
}

#[test]
fn slots_map_to_buttons() {
    assert_eq!(action_for_slot(0, 3), Some(Action::Accept));
    assert_eq!(action_for_slot(1, 3), Some(Action::Discard));
    assert_eq!(action_for_slot(2, 3), Some(Action::Toggle(0)));
    assert_eq!(action_for_slot(4, 3), Some(Action::Toggle(2)));
    assert_eq!(action_for_slot(5, 3), None);
    assert_eq!(action_for_slot(2, 0), None);
    assert_eq!(action_for_slot(0, 0), Some(Action::Accept));
    assert_eq!(action_for_slot(u64::MAX, 3), None);
}

#[test]
fn plain_keys() {
    assert!(plain_key_exec("boot.loader.grub.enable"));
    assert!(plain_key_exec("a-b_c'"));
    assert!(!plain_key_exec(""));
    assert!(!plain_key_exec(".a"));
    assert!(!plain_key_exec("a."));
    assert!(!plain_key_exec("a..b"));
    assert!(!plain_key_exec("${x}"));
    assert!(!plain_key_exec("a.\"x.y\""));
    assert!(!plain_key_exec("a . b"));
}

#[test]
fn braces_at_both_ends() {
    assert!(opens_brace_exec(" \u{a0}{ a = 1; }"));
    assert!(closes_brace_exec("{ a = 1; }\u{2028} "));
    assert!(!closes_brace_exec("{ a = 1; }.a"));
    assert!(!opens_brace_exec("x { }"));
    assert!(!opens_brace_exec(" "));
    assert!(!closes_brace_exec(""));
}
