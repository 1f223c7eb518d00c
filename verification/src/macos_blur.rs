//! The visual-effect material behind a translucent window.

use vstd::prelude::*;

use crate::declarative::BackdropBlur;

verus! {

/// AppKit's `NSVisualEffectMaterial` value for a blur material (the values
/// of `NSVisualEffectView.h`).
pub open spec fn material_spec(blur: BackdropBlur) -> i64 {
    match blur {
        BackdropBlur::Titlebar => 3,
        BackdropBlur::Menu => 5,
        BackdropBlur::Popover => 6,
        BackdropBlur::Sidebar => 7,
        BackdropBlur::UnderWindow => 9,
        BackdropBlur::HeaderView => 10,
        BackdropBlur::Hud => 12,
    }
}

/// The material value to hand AppKit for `blur`.
pub fn material_value(blur: BackdropBlur) -> (v: i64)
    ensures
        v == material_spec(blur),
{
    match blur {
        BackdropBlur::Titlebar => 3,
        BackdropBlur::Menu => 5,
        BackdropBlur::Popover => 6,
        BackdropBlur::Sidebar => 7,
        BackdropBlur::UnderWindow => 9,
        BackdropBlur::HeaderView => 10,
        BackdropBlur::Hud => 12,
    }
}

/// Different materials get different values.
pub proof fn lemma_materials_are_distinct(a: BackdropBlur, b: BackdropBlur)
    requires
        a != b,
    ensures
        material_spec(a) != material_spec(b),
{
}

} // verus!
