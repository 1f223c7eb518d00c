//! The scene runner's declaration of how input reaches applications.

use vstd::prelude::*;

use crate::input::{Delivery, InputEventKind};

verus! {

/// How the scene runner delivers each kind of input event. It matches the
/// declarative runner: pointer leaving goes through the cursor-left
/// callback, everything else reaches `on_input`.
pub fn input_delivery(kind: InputEventKind) -> (d: Delivery)
    ensures
        kind == InputEventKind::PointerLeft ==> d == Delivery::NotProduced(
            "カーソルの離脱は DeclarativeApp::on_cursor_left で伝える",
        ),
        kind != InputEventKind::PointerLeft ==> d == Delivery::ToApp,
{
    match kind {
        InputEventKind::PointerMoved
        | InputEventKind::PointerPressed
        | InputEventKind::PointerReleased
        | InputEventKind::PointerCancelled => Delivery::ToApp,
        InputEventKind::PointerLeft => Delivery::NotProduced("カーソルの離脱は DeclarativeApp::on_cursor_left で伝える"),
        InputEventKind::ImeEnabled
        | InputEventKind::ImePreedit
        | InputEventKind::ImeCommit
        | InputEventKind::KeyInput
        | InputEventKind::CharInput
        | InputEventKind::ModifiersChanged
        | InputEventKind::Paste => Delivery::ToApp,
    }
}

} // verus!
