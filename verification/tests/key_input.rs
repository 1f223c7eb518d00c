use sabitori::clipboard::Platform;
use sabitori::input::{Key, Modifiers};
use sabitori::key_input::{goes_to_focused, key_defaults, next_focus};

const HERE: Platform = Platform::Other;

fn ids(v: &[&str]) -> Vec<String> {
    v.iter().map(|s| s.to_string()).collect()
}

#[test]
fn tab_moves_focus_when_the_app_does_not_consume_it() {
    let d = key_defaults(Key::Tab, true, false, Modifiers::default(), HERE);
    assert!(d.move_focus);
    assert!(d.recapture);
    let order = ids(&["name", "memo"]);
    assert_eq!(next_focus(&order, &None, false).as_deref(), Some("name"));
}

#[test]
fn consuming_tab_prevents_the_runtime_from_moving_focus() {
    let d = key_defaults(Key::Tab, true, true, Modifiers::default(), HERE);
    assert!(!d.move_focus && !d.recapture && !d.clear_selection);
}

#[test]
fn consuming_escape_keeps_the_current_focus() {
    assert!(!key_defaults(Key::Escape, true, true, Modifiers::default(), HERE).clear_focus);
    assert!(key_defaults(Key::Escape, true, false, Modifiers::default(), HERE).clear_focus);
}

#[test]
fn key_release_has_no_side_effects() {
    let d = key_defaults(Key::A, false, false, Modifiers::default(), HERE);
    assert!(!d.clear_selection && !d.copy && !d.paste);
    assert!(key_defaults(Key::A, true, false, Modifiers::default(), HERE).clear_selection, "a press ends the selection");
}

#[test]
fn bare_modifier_does_not_clear_the_selection() {
    let ctrl = Modifiers { ctrl: true, ..Default::default() };
    assert!(!key_defaults(Key::Other, true, false, ctrl, HERE).clear_selection);
    let copy = key_defaults(Key::C, true, false, ctrl, HERE);
    assert!(copy.copy && !copy.clear_selection);
    let paste = key_defaults(Key::V, true, false, ctrl, HERE);
    assert!(paste.paste && paste.clear_selection);
}

#[test]
fn tab_and_escape_skip_the_focused_field() {
    assert!(!goes_to_focused(Key::Tab));
    assert!(!goes_to_focused(Key::Escape));
    assert!(goes_to_focused(Key::A));
}

#[test]
fn tab_order_wraps_both_ways() {
    let order = ids(&["a", "b", "c"]);
    let at = |s: &str| Some(s.to_string());
    assert_eq!(next_focus(&order, &at("a"), false).as_deref(), Some("b"));
    assert_eq!(next_focus(&order, &at("c"), false).as_deref(), Some("a"));
    assert_eq!(next_focus(&order, &at("a"), true).as_deref(), Some("c"));
    assert_eq!(next_focus(&order, &at("b"), true).as_deref(), Some("a"));
    assert_eq!(next_focus(&order, &None, true).as_deref(), Some("c"));
    assert_eq!(next_focus(&order, &at("gone"), false).as_deref(), Some("a"));
    assert_eq!(next_focus(&vec![], &at("a"), false), None);
}
