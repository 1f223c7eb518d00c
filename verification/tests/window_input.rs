use sabitori::input::InputEventKind;
use sabitori::runtime_shared::Cursor;
use sabitori::window_input::{
    cancel, drag_over, goes_to_app, hover_cursor, is_primary, is_primary_release, press, release, MouseButton,
    PointerKind,
};

#[test]
fn keyboard_and_ime_events_go_to_the_app() {
    for kind in [
        InputEventKind::ImeEnabled,
        InputEventKind::ImePreedit,
        InputEventKind::ImeCommit,
        InputEventKind::KeyInput,
        InputEventKind::CharInput,
        InputEventKind::ModifiersChanged,
    ] {
        assert!(goes_to_app(kind), "{kind:?}");
    }
    for kind in [InputEventKind::PointerMoved, InputEventKind::PointerPressed, InputEventKind::Paste] {
        assert!(!goes_to_app(kind), "{kind:?}");
    }
}

#[test]
fn primary_contacts() {
    assert!(is_primary(Some(MouseButton::Left), PointerKind::Mouse));
    assert!(!is_primary(Some(MouseButton::Right), PointerKind::Mouse));
    assert!(!is_primary(None, PointerKind::Mouse));
    assert!(is_primary(None, PointerKind::Touch));
    assert!(is_primary(Some(MouseButton::Middle), PointerKind::Pen));
    assert!(is_primary_release(None));
    assert!(is_primary_release(Some(MouseButton::Left)));
    assert!(!is_primary_release(Some(MouseButton::Right)));
}

#[test]
fn releasing_over_the_pressed_widget_clicks_it() {
    let mut pressed = None;
    assert_eq!(press(&mut pressed, Some(7)), Some(7));
    assert_eq!(drag_over(pressed, true, false), Some(None), "dragged off: not shown pressed");
    assert_eq!(drag_over(pressed, true, true), Some(Some(7)), "back over it");
    assert_eq!(drag_over(pressed, false, true), None, "not held: nothing changes");
    assert_eq!(release(&mut pressed, true), Some(7));
    assert_eq!(pressed, None);
}

#[test]
fn releasing_elsewhere_or_cancelling_clicks_nothing() {
    let mut pressed = None;
    press(&mut pressed, Some(3));
    assert_eq!(release(&mut pressed, false), None);
    assert_eq!(pressed, None);
    press(&mut pressed, Some(3));
    cancel(&mut pressed);
    assert_eq!(release(&mut pressed, true), None, "a cancelled press clicks nothing");
    press(&mut pressed, None);
    assert_eq!(drag_over(pressed, true, true), None);
    assert_eq!(release(&mut pressed, true), None);
}

#[test]
fn the_cursor_points_over_widgets() {
    assert_eq!(hover_cursor(true), Cursor::Pointer);
    assert_eq!(hover_cursor(false), Cursor::Default);
}
