//! Which input modality owns the primary pointer flow.
//!
//! First come wins: a left-button press gives the mouse the flow, the first
//! finger down gives it to touch, and until the owner lets go (the button is
//! released, the last finger lifts) the other modality is ignored for
//! clicks, scrolling, dragging and hover. Raw pointer events of touches are
//! still delivered to the application either way.

use vstd::prelude::*;

verus! {

/// The current owner of the primary flow.
#[derive(Clone, Copy, Debug, PartialEq, Eq, Structural)]
pub enum PrimaryInput {
    /// Nobody owns the flow.
    Free,
    Mouse,
    Touch,
}

/// A mouse event, as far as ownership is concerned.
#[derive(Clone, Copy, Debug, PartialEq, Eq, Structural)]
pub enum MouseSignal {
    /// The left button went down.
    PrimaryPressed,
    /// The left button went up.
    PrimaryReleased,
    /// Anything else: moving, leaving, other buttons, the wheel.
    Other,
}

/// What a mouse event does to the owner, and whether the runtime handles
/// it at all (`false` while touch owns the flow).
pub open spec fn mouse_step(owner: PrimaryInput, signal: MouseSignal) -> (PrimaryInput, bool) {
    if owner == PrimaryInput::Touch {
        (owner, false)
    } else {
        match signal {
            MouseSignal::PrimaryPressed => (PrimaryInput::Mouse, true),
            MouseSignal::PrimaryReleased => (PrimaryInput::Free, true),
            MouseSignal::Other => (owner, true),
        }
    }
}

/// Routes a mouse event: returns whether the runtime handles it, updating
/// the owner.
pub fn route_mouse(owner: &mut PrimaryInput, signal: MouseSignal) -> (handled: bool)
    ensures
        (*final(owner), handled) == mouse_step(*old(owner), signal),
{
    if *owner == PrimaryInput::Touch {
        return false;
    }
    match signal {
        MouseSignal::PrimaryPressed => {
            *owner = PrimaryInput::Mouse;
        },
        MouseSignal::PrimaryReleased => {
            *owner = PrimaryInput::Free;
        },
        MouseSignal::Other => {},
    }
    true
}

/// What a touch event does to the owner, and whether the touch-driven
/// logic (tap, scroll, drag) runs: not while the mouse owns the flow; a
/// touch that starts while nobody owns it takes ownership.
pub open spec fn touch_step(owner: PrimaryInput, started: bool) -> (PrimaryInput, bool) {
    if owner == PrimaryInput::Mouse {
        (owner, false)
    } else if owner == PrimaryInput::Free && started {
        (PrimaryInput::Touch, true)
    } else {
        (owner, true)
    }
}

/// Routes a touch event (`started`: a finger went down): returns whether
/// the touch-driven logic runs, updating the owner.
pub fn route_touch(owner: &mut PrimaryInput, started: bool) -> (drives: bool)
    ensures
        (*final(owner), drives) == touch_step(*old(owner), started),
{
    if *owner == PrimaryInput::Mouse {
        return false;
    }
    if *owner == PrimaryInput::Free && started {
        *owner = PrimaryInput::Touch;
    }
    true
}

/// A finger lifted; `fingers_left` is how many are still down. Touch gives
/// the flow back when the last one lifts.
pub fn touch_lifted(owner: &mut PrimaryInput, fingers_left: usize)
    ensures
        *old(owner) == PrimaryInput::Touch && fingers_left == 0 ==> *final(owner) == PrimaryInput::Free,
        !(*old(owner) == PrimaryInput::Touch && fingers_left == 0) ==> *final(owner) == *old(owner),
{
    if fingers_left == 0 && *owner == PrimaryInput::Touch {
        *owner = PrimaryInput::Free;
    }
}

/// First come wins: while touch owns the flow no mouse event changes the
/// owner or is handled, and while the mouse owns it no touch event takes
/// over or drives anything.
pub proof fn lemma_first_come_wins(signal: MouseSignal, started: bool)
    ensures
        mouse_step(PrimaryInput::Touch, signal) == (PrimaryInput::Touch, false),
        touch_step(PrimaryInput::Mouse, started) == (PrimaryInput::Mouse, false),
{
}

/// A press and its release by the same modality leave nobody owning the
/// flow, so the other modality can take it next.
pub proof fn lemma_press_release_frees(owner: PrimaryInput)
    requires
        owner != PrimaryInput::Touch,
    ensures
        mouse_step(mouse_step(owner, MouseSignal::PrimaryPressed).0, MouseSignal::PrimaryReleased).0
            == PrimaryInput::Free,
{
}

} // verus!
