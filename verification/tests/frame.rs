use sabitori::frame::{frame_due, ime_switch, must_draw, next_wake, reassert_focus, FrameInputs, Wake};

fn still(lazy: bool) -> FrameInputs {
    FrameInputs { lazy_render: lazy, dirty: false, app_dirty: false, animating: false, atlas_recover_pending: false }
}

#[test]
fn eager_rendering_always_draws() {
    assert!(must_draw(still(false)));
}

#[test]
fn a_still_lazy_frame_is_skipped() {
    assert!(!must_draw(still(true)));
    assert!(must_draw(FrameInputs { dirty: true, ..still(true) }));
    assert!(must_draw(FrameInputs { app_dirty: true, ..still(true) }));
    assert!(must_draw(FrameInputs { animating: true, ..still(true) }));
    assert!(must_draw(FrameInputs { atlas_recover_pending: true, ..still(true) }));
}

#[test]
fn the_loop_parks_only_when_allowed_and_idle() {
    assert_eq!(next_wake(false, true), Wake::OnEvent);
    assert_eq!(next_wake(true, true), Wake::NextFrame);
    assert_eq!(next_wake(false, false), Wake::NextFrame);
    assert!(frame_due(16, 16));
    assert!(!frame_due(15, 16));
}

#[test]
fn the_desired_focus_wins() {
    let mut focused = Some("a".to_string());
    assert!(!reassert_focus(&mut focused, None));
    assert_eq!(focused.as_deref(), Some("a"));
    assert!(!reassert_focus(&mut focused, Some("a".to_string())));
    assert!(reassert_focus(&mut focused, Some("b".to_string())));
    assert_eq!(focused.as_deref(), Some("b"));
    let mut none: Option<String> = None;
    assert!(reassert_focus(&mut none, Some("c".to_string())));
    assert_eq!(none.as_deref(), Some("c"));
}

#[test]
fn the_ime_switch_is_sent_only_on_a_change() {
    let mut last = false;
    assert_eq!(ime_switch(&mut last, false), None);
    assert_eq!(ime_switch(&mut last, true), Some(true));
    assert!(last);
    assert_eq!(ime_switch(&mut last, true), None);
    assert_eq!(ime_switch(&mut last, false), Some(false));
}
