use sabitori::clipboard::{is_copy_shortcut, is_cut_shortcut, is_paste_shortcut, MemoryClipboard, Platform};
use sabitori::input::{Key, Modifiers};

const HERE: Platform = Platform::Other;

#[test]
fn bare_letters_are_not_shortcuts() {
    let none = Modifiers::default();
    assert!(!is_paste_shortcut(Key::V, none, HERE));
    assert!(!is_copy_shortcut(Key::C, none, HERE));
    assert!(!is_cut_shortcut(Key::X, none, HERE));
}

#[test]
fn primary_modifier_makes_them_shortcuts() {
    for platform in [Platform::MacOs, Platform::Other] {
        let primary = if platform == Platform::MacOs {
            Modifiers { meta: true, ..Default::default() }
        } else {
            Modifiers { ctrl: true, ..Default::default() }
        };
        assert!(is_paste_shortcut(Key::V, primary, platform));
        assert!(is_copy_shortcut(Key::C, primary, platform));
        assert!(is_cut_shortcut(Key::X, primary, platform));
        assert!(!is_paste_shortcut(Key::B, primary, platform));
    }
}

#[test]
fn the_other_modifier_does_not_trigger() {
    for platform in [Platform::MacOs, Platform::Other] {
        let other = if platform == Platform::MacOs {
            Modifiers { ctrl: true, ..Default::default() }
        } else {
            Modifiers { meta: true, ..Default::default() }
        };
        assert!(!is_paste_shortcut(Key::V, other, platform));
        assert!(!is_cut_shortcut(Key::X, other, platform));
    }
}

#[test]
fn a_write_is_read_back() {
    let mut cb = MemoryClipboard::new();
    assert_eq!(cb.read_text(), None);
    assert!(cb.write_text("copied"));
    assert_eq!(cb.read_text().as_deref(), Some("copied"));
}

#[test]
fn a_refused_write_keeps_what_was_there() {
    let mut cb = MemoryClipboard::new();
    assert!(cb.write_text("first"));
    cb.test_set_writable(false);
    assert!(!cb.write_text("second"));
    assert_eq!(cb.read_text().as_deref(), Some("first"));
    cb.test_clear();
    assert_eq!(cb.read_text(), None);
    assert!(cb.write_text("third"));
    assert_eq!(cb.read_text().as_deref(), Some("third"));
}
