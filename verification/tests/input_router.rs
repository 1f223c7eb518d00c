use sabitori::input_router::{route_mouse, route_touch, touch_lifted, MouseSignal, PrimaryInput};

#[test]
fn first_come_wins_between_mouse_and_touch() {
    let mut owner = PrimaryInput::Free;
    assert!(route_touch(&mut owner, true));
    assert_eq!(owner, PrimaryInput::Touch);
    assert!(!route_mouse(&mut owner, MouseSignal::PrimaryPressed), "touch owns the flow");
    assert_eq!(owner, PrimaryInput::Touch);
    touch_lifted(&mut owner, 1);
    assert_eq!(owner, PrimaryInput::Touch, "a finger is still down");
    touch_lifted(&mut owner, 0);
    assert_eq!(owner, PrimaryInput::Free);
}

#[test]
fn a_press_and_release_free_the_flow() {
    let mut owner = PrimaryInput::Free;
    assert!(route_mouse(&mut owner, MouseSignal::PrimaryPressed));
    assert_eq!(owner, PrimaryInput::Mouse);
    assert!(!route_touch(&mut owner, true), "the mouse owns the flow");
    assert!(route_mouse(&mut owner, MouseSignal::Other));
    assert_eq!(owner, PrimaryInput::Mouse);
    assert!(route_mouse(&mut owner, MouseSignal::PrimaryReleased));
    assert_eq!(owner, PrimaryInput::Free);
    assert!(route_touch(&mut owner, false), "a moving touch drives when nobody owns");
    assert_eq!(owner, PrimaryInput::Free, "only a starting touch takes the flow");
}

#[test]
fn lifting_fingers_leaves_the_mouse_alone() {
    let mut owner = PrimaryInput::Mouse;
    touch_lifted(&mut owner, 0);
    assert_eq!(owner, PrimaryInput::Mouse);
}
