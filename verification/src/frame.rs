//! The per-tick decisions of the declarative runner's event loop.
//!
//! Each tick the runner waits until the frame interval has passed, runs the
//! animations, lets the application reassert the focus it wants, keeps the
//! platform IME switched as the application asks (telling the platform only
//! on a change), and then redraws if anything may have changed. With lazy
//! rendering off it always redraws. When nothing needs drawing the loop may
//! park completely (on iOS this keeps the text-input session alive);
//! otherwise it wakes at the next frame boundary.

use vstd::prelude::*;

verus! {

/// What may have changed since the last frame.
#[derive(Clone, Copy, Debug, PartialEq, Eq, Structural)]
pub struct FrameInputs {
    /// The application asked for lazy rendering.
    pub lazy_render: bool,
    /// Input arrived since the last frame.
    pub dirty: bool,
    /// The application reports changed state.
    pub app_dirty: bool,
    /// An animation (styles, scrolling, drag, tooltip delay, the
    /// application's own) is running.
    pub animating: bool,
    /// The glyph atlas overflowed last frame and must be rebuilt.
    pub atlas_recover_pending: bool,
}

/// How the loop waits after a tick.
#[derive(Clone, Copy, Debug, PartialEq, Eq, Structural)]
pub enum Wake {
    /// Wake at the next frame boundary.
    NextFrame,
    /// Sleep until an event arrives.
    OnEvent,
}

pub open spec fn must_draw_spec(f: FrameInputs) -> bool {
    !f.lazy_render || f.dirty || f.app_dirty || f.animating || f.atlas_recover_pending
}

/// Whether this tick must redraw.
pub fn must_draw(f: FrameInputs) -> (b: bool)
    ensures
        b == must_draw_spec(f),
{
    !f.lazy_render || f.dirty || f.app_dirty || f.animating || f.atlas_recover_pending
}

/// Whether the frame interval has passed (both in the same unit).
pub fn frame_due(elapsed: u64, interval: u64) -> (b: bool)
    ensures
        b == (elapsed >= interval),
{
    elapsed >= interval
}

/// How to wait after the tick: parking is allowed only where the platform
/// wants it (`park_when_idle`) and only when nothing was drawn.
pub fn next_wake(drew: bool, park_when_idle: bool) -> (w: Wake)
    ensures
        w == (if park_when_idle && !drew {
            Wake::OnEvent
        } else {
            Wake::NextFrame
        }),
{
    if park_when_idle && !drew {
        Wake::OnEvent
    } else {
        Wake::NextFrame
    }
}

/// Lets the application's desired focus win: returns whether the focus
/// changed.
pub fn reassert_focus(focused: &mut Option<String>, desired: Option<String>) -> (changed: bool)
    ensures
        match desired {
            None => !changed && *final(focused) == *old(focused),
            Some(d) => match *old(focused) {
                Some(f) => if f@ == d@ {
                    !changed && *final(focused) == *old(focused)
                } else {
                    changed && *final(focused) == Some(d)
                },
                None => changed && *final(focused) == Some(d),
            },
        },
{
    match desired {
        None => false,
        Some(d) => {
            let same = match &*focused {
                Some(f) => *f == d,
                None => false,
            };
            if same {
                false
            } else {
                *focused = Some(d);
                true
            }
        },
    }
}

/// Tells the platform about the IME switch only on a change: returns the
/// value to send, if any.
pub fn ime_switch(last: &mut bool, allowed: bool) -> (send: Option<bool>)
    ensures
        allowed == *old(last) ==> send is None,
        allowed != *old(last) ==> send == Some(allowed),
        *final(last) == allowed,
{
    if allowed == *last {
        None
    } else {
        *last = allowed;
        Some(allowed)
    }
}

/// Without lazy rendering every tick draws.
pub proof fn lemma_eager_rendering_always_draws(f: FrameInputs)
    requires
        !f.lazy_render,
    ensures
        must_draw_spec(f),
{
}

/// With lazy rendering an untouched, still screen is not redrawn.
pub proof fn lemma_idle_lazy_frame_is_skipped(f: FrameInputs)
    requires
        f.lazy_render,
        !f.dirty,
        !f.app_dirty,
        !f.animating,
        !f.atlas_recover_pending,
    ensures
        !must_draw_spec(f),
{
}

} // verus!
