//! Press and click on the retained widget tree of the window runner and of
//! the embedded runner (whose host feeds it events).
//!
//! Keyboard and IME events, modifier changes included, go straight to the
//! application and ask for a rebuild. A primary contact (the left mouse
//! button, or any touch or pen contact) presses the widget under it; while
//! the contact is held the widget shows as pressed only while the contact
//! stays over it; releasing over the pressed widget clicks it, releasing
//! elsewhere clicks nothing, and a cancelled contact is a release that
//! missed. Whether a point lies over a widget is worked out by the caller.

use vstd::prelude::*;

use crate::input::InputEventKind;
use crate::runtime_shared::Cursor;

verus! {

/// What made a pointer event.
#[derive(Clone, Copy, Debug, PartialEq, Eq, Structural)]
pub enum PointerKind {
    Mouse,
    Touch,
    Pen,
}

/// A mouse button.
#[derive(Clone, Copy, Debug, PartialEq, Eq, Structural)]
pub enum MouseButton {
    Left,
    Right,
    Middle,
}

/// Keyboard and IME events, and modifier changes, which go to the
/// application before any pointer handling.
pub open spec fn is_keyboard_spec(kind: InputEventKind) -> bool {
    kind == InputEventKind::ImeEnabled || kind == InputEventKind::ImePreedit || kind == InputEventKind::ImeCommit
        || kind == InputEventKind::KeyInput || kind == InputEventKind::CharInput || kind
        == InputEventKind::ModifiersChanged
}

/// Whether an event of this kind goes straight to the application (and
/// asks for a rebuild).
pub fn goes_to_app(kind: InputEventKind) -> (b: bool)
    ensures
        b == is_keyboard_spec(kind),
{
    match kind {
        InputEventKind::ImeEnabled
        | InputEventKind::ImePreedit
        | InputEventKind::ImeCommit
        | InputEventKind::KeyInput
        | InputEventKind::CharInput
        | InputEventKind::ModifiersChanged => true,
        _ => false,
    }
}

pub open spec fn is_primary_spec(button: Option<MouseButton>, kind: PointerKind) -> bool {
    match kind {
        PointerKind::Mouse => button == Some(MouseButton::Left),
        PointerKind::Touch | PointerKind::Pen => true,
    }
}

/// A press or release is primary when it is the left mouse button or any
/// touch or pen contact.
pub fn is_primary(button: Option<MouseButton>, kind: PointerKind) -> (b: bool)
    ensures
        b == is_primary_spec(button, kind),
{
    match kind {
        PointerKind::Mouse => match button {
            Some(MouseButton::Left) => true,
            _ => false,
        },
        PointerKind::Touch | PointerKind::Pen => true,
    }
}

/// The embedded runner's test for a primary release: the left button, or
/// a release that names no button (a touch or pen lifting).
pub fn is_primary_release(button: Option<MouseButton>) -> (b: bool)
    ensures
        b == (button == Some(MouseButton::Left) || button is None),
{
    match button {
        Some(MouseButton::Left) => true,
        None => true,
        _ => false,
    }
}

/// A primary press on `hit` (the widget under the contact, if any): it
/// becomes the pressed widget, and is the one to show as pressed.
pub fn press(pressed: &mut Option<u64>, hit: Option<u64>) -> (shown: Option<u64>)
    ensures
        *final(pressed) == hit,
        shown == hit,
{
    *pressed = hit;
    hit
}

/// The contact moved: while the primary contact is held, the pressed
/// widget shows as pressed exactly while the contact is over it
/// (`Some(shown)`); otherwise nothing changes (`None`).
pub fn drag_over(pressed: Option<u64>, primary_held: bool, over_pressed: bool) -> (shown: Option<Option<u64>>)
    ensures
        !primary_held || pressed is None ==> shown is None,
        primary_held && pressed is Some ==> shown == Some(
            if over_pressed {
                pressed
            } else {
                None
            },
        ),
{
    if !primary_held {
        return None;
    }
    match pressed {
        None => None,
        Some(p) => Some(
            if over_pressed {
                Some(p)
            } else {
                None
            },
        ),
    }
}

/// A primary release; `over_pressed` tells whether it happened over the
/// pressed widget. The press ends, and the widget is clicked only when the
/// release is over it.
pub fn release(pressed: &mut Option<u64>, over_pressed: bool) -> (clicked: Option<u64>)
    ensures
        *final(pressed) is None,
        clicked == if over_pressed {
            *old(pressed)
        } else {
            None
        },
{
    let p = pressed.take();
    if over_pressed {
        p
    } else {
        None
    }
}

/// A cancelled contact: the press ends and nothing is clicked.
pub fn cancel(pressed: &mut Option<u64>)
    ensures
        *final(pressed) is None,
{
    *pressed = None;
}

/// The cursor over the widget tree: the pointing hand over a widget, the
/// arrow elsewhere.
pub fn hover_cursor(over_widget: bool) -> (c: Cursor)
    ensures
        c == if over_widget {
            Cursor::Pointer
        } else {
            Cursor::Default
        },
{
    if over_widget {
        Cursor::Pointer
    } else {
        Cursor::Default
    }
}

/// A click needs both ends on the same widget: after a press on `hit`
/// (leaving `after_press` pressed) and a release (clicking `clicked`), the
/// widget clicked is `hit` when the release is over it, and nothing
/// otherwise; a press on no widget clicks nothing.
pub proof fn lemma_click_needs_press_and_release_on_it(
    hit: Option<u64>,
    after_press: Option<u64>,
    over_at_release: bool,
    clicked: Option<u64>,
)
    requires
        after_press == hit,
        clicked == if over_at_release {
            after_press
        } else {
            None
        },
    ensures
        over_at_release ==> clicked == hit,
        !over_at_release ==> clicked is None,
        hit is None ==> clicked is None,
{
}

} // verus!
