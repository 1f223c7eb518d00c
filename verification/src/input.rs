//! Input vocabulary shared by the runtimes: keys, modifier state, wheel
//! phases, the kinds of input event and how a runtime delivers each kind.

use vstd::prelude::*;

verus! {

/// A key, as the runtimes report it to applications.
#[derive(Clone, Copy, Debug, PartialEq, Eq, Structural)]
pub enum Key {
    Backspace,
    Delete,
    Left,
    Right,
    Up,
    Down,
    Home,
    End,
    PageUp,
    PageDown,
    Insert,
    Enter,
    Tab,
    Escape,
    Space,
    F1,
    F2,
    F3,
    F4,
    F5,
    F6,
    F7,
    F8,
    F9,
    F10,
    F11,
    F12,
    Shift,
    A,
    B,
    C,
    D,
    E,
    F,
    G,
    H,
    I,
    J,
    K,
    L,
    M,
    N,
    O,
    P,
    Q,
    R,
    S,
    T,
    U,
    V,
    W,
    X,
    Y,
    Z,
    /// A character key with no variant of its own.
    Other,
}

/// Which modifier keys are held.
#[derive(Clone, Copy, Debug, Default, PartialEq, Eq, Structural)]
pub struct Modifiers {
    pub shift: bool,
    pub ctrl: bool,
    pub alt: bool,
    /// Cmd on macOS, the Windows / Super key elsewhere.
    pub meta: bool,
}

/// Where a wheel event sits in a trackpad gesture. A notched wheel always
/// reports `Moved`.
#[derive(Clone, Copy, Debug, PartialEq, Eq, Structural)]
pub enum WheelPhase {
    Started,
    Moved,
    Ended,
    Cancelled,
}

/// The kinds of input event an application can receive.
#[derive(Clone, Copy, Debug, PartialEq, Eq, Structural)]
pub enum InputEventKind {
    PointerMoved,
    PointerPressed,
    PointerReleased,
    PointerCancelled,
    PointerLeft,
    ImeEnabled,
    ImePreedit,
    ImeCommit,
    KeyInput,
    CharInput,
    ModifiersChanged,
    Paste,
}

/// How a runtime hands one kind of input event to the application.
#[derive(Clone, Copy, Debug, PartialEq, Eq)]
pub enum Delivery {
    /// The event reaches `on_input`.
    ToApp,
    /// The runtime never builds this event; the text says what it does
    /// instead.
    NotProduced(&'static str),
}

} // verus!
