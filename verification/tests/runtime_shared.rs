use sabitori::input_router::PrimaryInput;
use sabitori::declarative::UiCapture;
use sabitori::runtime_shared::{
    apply_cursor, cursor_left, drop_target, hit_id_at, push_ui_capture, resolve_hover, right_click_target, ui_capture, Cursor,
    RegionHit,
};

fn region(id: Option<&str>, hoverable: bool, clickable: bool, cursor: Option<Cursor>) -> RegionHit {
    RegionHit {
        id: id.map(|s| s.to_string()),
        tooltip: id.map(|s| format!("tip {s}")),
        hoverable,
        clickable,
        cursor,
        drop_zone: false,
    }
}

#[test]
fn cursor_is_resolved_independently_of_hover() {
    let under = vec![region(Some("field"), false, true, Some(Cursor::Text))];
    let h = resolve_hover(&under);
    assert_eq!(h.hovered_id, None, "not hoverable, so not the hover target");
    assert_eq!(h.cursor, Some(Cursor::Text), "but its cursor applies");
}

#[test]
fn press_target_does_not_require_hoverability() {
    let under = vec![region(None, true, false, None), region(Some("btn"), false, true, None)];
    assert_eq!(hit_id_at(&under).as_deref(), Some("btn"));
    assert_eq!(hit_id_at(&vec![]), None);
}

#[test]
fn the_frontmost_hoverable_region_wins() {
    let under = vec![
        region(Some("a"), false, false, None),
        region(Some("b"), true, false, Some(Cursor::Pointer)),
        region(Some("c"), true, false, Some(Cursor::Crosshair)),
    ];
    let h = resolve_hover(&under);
    assert_eq!(h.hovered_id.as_deref(), Some("b"));
    assert_eq!(h.tooltip.as_deref(), Some("tip b"));
    assert_eq!(h.cursor, Some(Cursor::Pointer));
}

#[test]
fn repeated_cursors_are_deduped() {
    let mut last = None;
    assert_eq!(apply_cursor(&mut last, Some(Cursor::Pointer)), Some(Cursor::Pointer));
    assert_eq!(apply_cursor(&mut last, Some(Cursor::Pointer)), None);
    assert_eq!(apply_cursor(&mut last, None), Some(Cursor::Default));
    assert_eq!(apply_cursor(&mut last, None), None);
}

#[test]
fn an_active_drag_captures_the_pointer() {
    assert!(ui_capture(false, true, false).wants_pointer);
    assert!(!ui_capture(false, false, false).wants_pointer);
    assert!(ui_capture(false, false, true).wants_keyboard);
}

#[test]
fn capture_changes_are_pushed_once() {
    let mut last = UiCapture::default();
    assert_eq!(push_ui_capture(false, false, false, &mut last), None);
    let c = push_ui_capture(true, false, false, &mut last);
    assert_eq!(c, Some(UiCapture { wants_pointer: true, wants_keyboard: false }));
    assert_eq!(push_ui_capture(true, false, false, &mut last), None);
}

#[test]
fn a_right_click_names_the_frontmost_clickable_region() {
    let under = vec![region(Some("label"), true, false, None), region(Some("row"), false, true, None)];
    assert_eq!(right_click_target(&under), "row");
    assert_eq!(right_click_target(&vec![]), "", "empty space");
    let under = vec![region(None, false, true, None), region(Some("row"), false, true, None)];
    assert_eq!(right_click_target(&under), "", "the frontmost clickable region has no id");
}

#[test]
fn a_drop_lands_on_the_frontmost_drop_zone() {
    let mut zone = region(Some("bin"), false, false, None);
    zone.drop_zone = true;
    let under = vec![region(Some("card"), true, true, None), zone];
    assert_eq!(drop_target(&under).as_deref(), Some("bin"));
    assert_eq!(drop_target(&vec![region(Some("card"), true, true, None)]), None);
}

#[test]
fn leaving_the_window_clears_hover_and_press_and_ends_a_drag() {
    let mut hovered = Some("a".to_string());
    let mut pressed = Some("b".to_string());
    assert_eq!(cursor_left(PrimaryInput::Touch, &mut hovered, &mut pressed, Some("d".to_string())), None);
    assert_eq!(hovered.as_deref(), Some("a"), "touch owns the flow: ignored");
    assert_eq!(pressed.as_deref(), Some("b"));
    assert_eq!(
        cursor_left(PrimaryInput::Mouse, &mut hovered, &mut pressed, Some("card-7".to_string())),
        Some(Some("card-7".to_string()))
    );
    assert_eq!(hovered, None);
    assert_eq!(pressed, None);
    let mut hovered = Some("a".to_string());
    assert_eq!(cursor_left(PrimaryInput::Free, &mut hovered, &mut pressed, None), Some(None));
    assert_eq!(hovered, None);
}
