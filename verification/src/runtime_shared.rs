//! Pointer decisions shared by the declarative and the scene runner.
//!
//! Both runners resolve hover, the press target, the cursor and the input
//! capture the same way, so the decisions live here once. Geometry (which
//! regions lie under the pointer) is worked out by the caller in floating
//! point and handed in as the list of regions under the pointer, front to
//! back.

use vstd::prelude::*;

use crate::declarative::UiCapture;
use crate::input_router::PrimaryInput;

verus! {

/// The mouse cursors the UI can ask for.
#[derive(Clone, Copy, Debug, PartialEq, Eq, Structural)]
pub enum Cursor {
    Default,
    Pointer,
    Text,
    Crosshair,
    NotAllowed,
    ResizeEw,
    ResizeNs,
}

/// A hit region under the pointer (front to back).
pub struct RegionHit {
    pub id: Option<String>,
    pub tooltip: Option<String>,
    pub hoverable: bool,
    pub clickable: bool,
    pub cursor: Option<Cursor>,
    /// Dragged data can be dropped on it.
    pub drop_zone: bool,
}

/// What lies under the pointer.
pub struct HoverHit {
    /// The hovered element's id.
    pub hovered_id: Option<String>,
    /// Its tooltip.
    pub tooltip: Option<String>,
    /// The cursor to show (`None`: nobody asked, the default arrow).
    pub cursor: Option<Cursor>,
}

pub open spec fn opt_str(o: Option<String>) -> Option<Seq<char>> {
    match o {
        Some(s) => Some(s@),
        None => None,
    }
}

/// Index of the first hoverable region at or after `from` (the length when
/// there is none).
pub open spec fn first_hoverable(r: Seq<RegionHit>, from: int) -> int
    decreases r.len() - from,
{
    if from < 0 || from >= r.len() {
        r.len() as int
    } else if r[from].hoverable {
        from
    } else {
        first_hoverable(r, from + 1)
    }
}

/// Index of the first region at or after `from` that asks for a cursor.
pub open spec fn first_with_cursor(r: Seq<RegionHit>, from: int) -> int
    decreases r.len() - from,
{
    if from < 0 || from >= r.len() {
        r.len() as int
    } else if r[from].cursor is Some {
        from
    } else {
        first_with_cursor(r, from + 1)
    }
}

/// Index of the first clickable region with an id at or after `from`.
pub open spec fn first_clickable(r: Seq<RegionHit>, from: int) -> int
    decreases r.len() - from,
{
    if from < 0 || from >= r.len() {
        r.len() as int
    } else if r[from].clickable && r[from].id is Some {
        from
    } else {
        first_clickable(r, from + 1)
    }
}

/// Index of the first clickable region at or after `from`, with or
/// without an id.
pub open spec fn first_clickable_any(r: Seq<RegionHit>, from: int) -> int
    decreases r.len() - from,
{
    if from < 0 || from >= r.len() {
        r.len() as int
    } else if r[from].clickable {
        from
    } else {
        first_clickable_any(r, from + 1)
    }
}

/// Index of the first drop zone at or after `from`.
pub open spec fn first_drop_zone(r: Seq<RegionHit>, from: int) -> int
    decreases r.len() - from,
{
    if from < 0 || from >= r.len() {
        r.len() as int
    } else if r[from].drop_zone {
        from
    } else {
        first_drop_zone(r, from + 1)
    }
}

/// Hover and cursor are resolved independently: the hovered element is the
/// frontmost hoverable region; the cursor comes from the frontmost region
/// that asks for one, hoverable or not (a text field shows the text cursor
/// without being a hover target).
pub fn resolve_hover(under: &Vec<RegionHit>) -> (h: HoverHit)
    ensures
        ({
            let k = first_hoverable(under@, 0);
            &&& k < under@.len() ==> opt_str(h.hovered_id) == opt_str(under@[k].id) && opt_str(
                h.tooltip,
            ) == opt_str(under@[k].tooltip)
            &&& k >= under@.len() ==> h.hovered_id is None && h.tooltip is None
        }),
        ({
            let c = first_with_cursor(under@, 0);
            &&& c < under@.len() ==> h.cursor == under@[c].cursor
            &&& c >= under@.len() ==> h.cursor is None
        }),
{
    let mut k: usize = 0;
    while k < under.len() && !under[k].hoverable
        invariant
            k <= under@.len(),
            first_hoverable(under@, 0) == first_hoverable(under@, k as int),
        decreases under@.len() - k,
    {
        k += 1;
    }
    let (hovered_id, tooltip) = if k < under.len() {
        (under[k].id.clone(), under[k].tooltip.clone())
    } else {
        (None, None)
    };
    let mut c: usize = 0;
    while c < under.len() && under[c].cursor.is_none()
        invariant
            c <= under@.len(),
            first_with_cursor(under@, 0) == first_with_cursor(under@, c as int),
        decreases under@.len() - c,
    {
        c += 1;
    }
    let cursor = if c < under.len() {
        under[c].cursor
    } else {
        None
    };
    HoverHit { hovered_id, tooltip, cursor }
}

/// The press target: the id of the frontmost clickable region with an id.
/// Hoverability does not matter (an element with only a pressed style is
/// still pressed).
pub fn hit_id_at(under: &Vec<RegionHit>) -> (id: Option<String>)
    ensures
        ({
            let k = first_clickable(under@, 0);
            &&& k < under@.len() ==> opt_str(id) == opt_str(under@[k].id)
            &&& k >= under@.len() ==> id is None
        }),
{
    let mut k: usize = 0;
    while k < under.len() && !(under[k].clickable && under[k].id.is_some())
        invariant
            k <= under@.len(),
            first_clickable(under@, 0) == first_clickable(under@, k as int),
        decreases under@.len() - k,
    {
        k += 1;
    }
    if k < under.len() {
        under[k].id.clone()
    } else {
        None
    }
}

/// The id handed to the application's right-click handler: that of the
/// frontmost clickable region under the pointer; the empty id when there
/// is none there or that region has no id (a right click on empty space).
pub fn right_click_target(under: &Vec<RegionHit>) -> (id: String)
    ensures
        ({
            let k = first_clickable_any(under@, 0);
            &&& k < under@.len() && under@[k].id is Some ==> Some(id@) == opt_str(under@[k].id)
            &&& !(k < under@.len() && under@[k].id is Some) ==> id@ == Seq::<char>::empty()
        }),
{
    let mut k: usize = 0;
    while k < under.len() && !under[k].clickable
        invariant
            k <= under@.len(),
            first_clickable_any(under@, 0) == first_clickable_any(under@, k as int),
        decreases under@.len() - k,
    {
        k += 1;
    }
    if k < under.len() {
        match &under[k].id {
            Some(id) => {
                return id.clone();
            },
            None => {},
        }
    }
    String::new()
}

/// Where dragged data lands on release: the id of the frontmost drop zone
/// under the pointer (none when there is no drop zone there, or it has no
/// id).
pub fn drop_target(under: &Vec<RegionHit>) -> (id: Option<String>)
    ensures
        ({
            let k = first_drop_zone(under@, 0);
            &&& k < under@.len() ==> opt_str(id) == opt_str(under@[k].id)
            &&& k >= under@.len() ==> id is None
        }),
{
    let mut k: usize = 0;
    while k < under.len() && !under[k].drop_zone
        invariant
            k <= under@.len(),
            first_drop_zone(under@, 0) == first_drop_zone(under@, k as int),
        decreases under@.len() - k,
    {
        k += 1;
    }
    if k < under.len() {
        under[k].id.clone()
    } else {
        None
    }
}

/// The pointer left the window. While touch owns the primary flow this is
/// ignored (`None`, nothing changes). Otherwise nothing is hovered or
/// pressed any more (a release outside the window would never come back),
/// and the result says what the application hears before its cursor-left
/// callback: a drag under way (`drag`, its data) is reported as dragged
/// out and cancelled (`Some(Some(data))`), otherwise nothing more
/// (`Some(None)`).
pub fn cursor_left(
    owner: PrimaryInput,
    hovered: &mut Option<String>,
    pressed: &mut Option<String>,
    drag: Option<String>,
) -> (r: Option<Option<String>>)
    ensures
        owner == PrimaryInput::Touch ==> r is None,
        owner == PrimaryInput::Touch ==> *final(hovered) == *old(hovered),
        owner == PrimaryInput::Touch ==> *final(pressed) == *old(pressed),
        owner != PrimaryInput::Touch ==> r == Some(drag),
        owner != PrimaryInput::Touch ==> *final(hovered) == Option::<String>::None,
        owner != PrimaryInput::Touch ==> *final(pressed) == Option::<String>::None,
{
    if owner == PrimaryInput::Touch {
        return None;
    }
    *hovered = None;
    *pressed = None;
    Some(drag)
}

/// Decides whether the window's cursor must be set: the resolved cursor
/// (`None` means the default arrow) is sent only when it differs from the
/// last one sent, which is then updated. Setting the same cursor again is
/// not free and can flicker.
pub fn apply_cursor(last: &mut Option<Cursor>, cursor: Option<Cursor>) -> (send: Option<Cursor>)
    ensures
        ({
            let resolved = match cursor {
                Some(c) => c,
                None => Cursor::Default,
            };
            &&& *old(last) == Some(resolved) ==> send is None && *final(last) == *old(last)
            &&& *old(last) != Some(resolved) ==> send == Some(resolved) && *final(last) == Some(
                resolved,
            )
        }),
{
    let resolved = match cursor {
        Some(c) => c,
        None => Cursor::Default,
    };
    let same = match *last {
        Some(l) => l == resolved,
        None => false,
    };
    if same {
        return None;
    }
    *last = Some(resolved);
    Some(resolved)
}

/// The capture state: the UI wants the pointer when it is over an
/// interactive region or a drag is under way, and the keyboard when an
/// element holds focus.
pub fn ui_capture(over_ui: bool, drag_active: bool, focused: bool) -> (c: UiCapture)
    ensures
        c == (UiCapture { wants_pointer: over_ui || drag_active, wants_keyboard: focused }),
{
    UiCapture { wants_pointer: over_ui || drag_active, wants_keyboard: focused }
}

/// Computes the capture state and returns it when it differs from the last
/// one pushed to the application (which is then updated); `None` when the
/// application already has it.
pub fn push_ui_capture(over_ui: bool, drag_active: bool, focused: bool, last: &mut UiCapture) -> (notify:
    Option<UiCapture>)
    ensures
        ({
            let c = UiCapture { wants_pointer: over_ui || drag_active, wants_keyboard: focused };
            &&& c == *old(last) ==> notify is None && *final(last) == *old(last)
            &&& c != *old(last) ==> notify == Some(c) && *final(last) == c
        }),
{
    let capture = ui_capture(over_ui, drag_active, focused);
    if capture == *last {
        return None;
    }
    *last = capture;
    Some(capture)
}

} // verus!
