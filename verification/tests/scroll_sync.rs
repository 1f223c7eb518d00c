use sabitori::input::WheelPhase;
use sabitori::scroll_sync::{route_wheel, WheelCandidate, WheelLatch};

fn c(id: &str, managed: bool, can_consume: bool) -> WheelCandidate {
    WheelCandidate { id: id.to_string(), managed, can_consume }
}

#[test]
fn inner_scroller_with_room_takes_the_wheel() {
    let under = vec![c("inner", true, true), c("outer", true, true)];
    assert_eq!(route_wheel(&under).as_deref(), Some("inner"));
}

#[test]
fn inner_scroller_at_its_end_lets_the_wheel_through_to_the_outer() {
    let under = vec![c("inner", true, false), c("outer", true, true)];
    assert_eq!(route_wheel(&under).as_deref(), Some("outer"));
}

#[test]
fn when_every_container_is_at_its_end_the_wheel_falls_through() {
    let under = vec![c("inner", true, false), c("outer", true, false)];
    assert_eq!(route_wheel(&under), None);
    assert_eq!(route_wheel(&vec![c("button", false, false)]), None);
}

#[test]
fn a_gesture_stays_latched_to_the_container_it_started_on() {
    let mut latch = WheelLatch::new();
    let with_room = vec![c("inner", true, true), c("outer", true, true)];
    let r = latch.route(&with_room, true, WheelPhase::Started, false);
    assert!(r.consumed);
    assert_eq!(r.scroll.as_deref(), Some("inner"));
    assert_eq!(latch.target(), Some("inner"));

    // the inner list reaches its end mid-gesture: the outer page must not move
    let at_end = vec![c("inner", true, false), c("outer", true, true)];
    let r = latch.route(&at_end, true, WheelPhase::Moved, false);
    assert!(r.consumed);
    assert_eq!(r.scroll.as_deref(), Some("inner"));

    let r = latch.route(&at_end, true, WheelPhase::Ended, true);
    assert!(r.consumed);
    assert_eq!(r.scroll, None);

    // momentum after the gesture stays with the latched container and stops at its end
    let r = latch.route(&at_end, true, WheelPhase::Moved, false);
    assert!(r.consumed);
    assert_eq!(r.scroll, None, "momentum spilled onto the outer page");
    assert_eq!(latch.target(), Some("inner"));
}

#[test]
fn discrete_wheel_notches_resolve_independently() {
    let mut latch = WheelLatch::new();
    let at_end = vec![c("inner", true, false), c("outer", true, true)];
    let r = latch.route(&at_end, false, WheelPhase::Moved, false);
    assert_eq!(r.scroll.as_deref(), Some("outer"));
    assert_eq!(latch.target(), None, "a notched wheel must not latch");
}

#[test]
fn a_discrete_notch_drops_a_stale_latch() {
    let mut latch = WheelLatch::new();
    let with_room = vec![c("inner", true, true), c("outer", true, true)];
    latch.route(&with_room, true, WheelPhase::Started, false);
    assert_eq!(latch.target(), Some("inner"));
    let at_end = vec![c("inner", true, false), c("outer", true, true)];
    let r = latch.route(&at_end, false, WheelPhase::Moved, false);
    assert_eq!(latch.target(), None);
    assert_eq!(r.scroll.as_deref(), Some("outer"));
}

#[test]
fn zero_delta_phase_notifications_are_swallowed_over_a_container() {
    let mut latch = WheelLatch::new();
    let r = latch.route(&vec![c("list", true, false)], true, WheelPhase::Started, true);
    assert!(r.consumed);
    assert_eq!(r.scroll, None);
    let r = latch.route(&vec![], true, WheelPhase::Started, true);
    assert!(!r.consumed);
}

#[test]
fn a_target_that_left_the_pointer_is_forgotten() {
    let mut latch = WheelLatch::new();
    latch.route(&vec![c("inner", true, true)], true, WheelPhase::Started, false);
    let r = latch.route(&vec![c("other", true, true)], true, WheelPhase::Moved, false);
    assert_eq!(r.scroll.as_deref(), Some("other"));
    assert_eq!(latch.target(), Some("other"));
}
