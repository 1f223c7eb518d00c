//! Types of the declarative runner that applications see, and its
//! declaration of how input reaches applications.

use vstd::prelude::*;
use vstd::string::StringSliceAdditionalSpecFns;
use vstd::utf8::is_char_boundary;

use crate::a11y::Role;
use crate::input::{Delivery, InputEventKind};
use crate::runtime_shared::{opt_str, Cursor, HoverHit};

verus! {

/// Backdrop-blur material for translucent panel windows (macOS only in
/// effect). The variants mirror AppKit's visual-effect materials.
#[derive(Clone, Copy, Debug, PartialEq, Eq, Structural)]
pub enum BackdropBlur {
    Hud,
    Menu,
    Sidebar,
    UnderWindow,
    HeaderView,
    Popover,
    Titlebar,
}

/// Whether the UI wants the pointer and the keyboard, pushed to hosts that
/// drive their own scene underneath the UI (a 3D camera, a canvas) so they
/// can leave input alone while the UI is using it.
#[derive(Clone, Copy, Debug, Default, PartialEq, Eq, Structural)]
pub struct UiCapture {
    /// The pointer is over an interactive UI region (or a drag is active).
    pub wants_pointer: bool,
    /// A focusable element holds focus, so keys go to it.
    pub wants_keyboard: bool,
}

/// Lexicographic order on `(text index, byte offset)` positions.
pub open spec fn pos_le(a: (usize, usize), b: (usize, usize)) -> bool {
    a.0 < b.0 || (a.0 == b.0 && a.1 <= b.1)
}

/// A text selection: where the drag started (`anchor`) and where it is now
/// (`head`), each as `(text index, byte offset)`; the head may come before
/// the anchor. The contents of the texts the two ends point into are kept
/// so that a selection can be dropped when the view changes underneath it.
#[derive(Debug)]
pub struct TextSelection {
    pub anchor: (usize, usize),
    pub head: (usize, usize),
    pub anchor_content: String,
    pub head_content: String,
}

impl Clone for TextSelection {
    fn clone(&self) -> (r: Self)
        ensures
            r == *self,
    {
        TextSelection {
            anchor: self.anchor,
            head: self.head,
            anchor_content: self.anchor_content.clone(),
            head_content: self.head_content.clone(),
        }
    }
}

impl TextSelection {
    /// `(start, end)`: the two ends in document order.
    pub fn range_normalized(&self) -> (r: ((usize, usize), (usize, usize)))
        ensures
            pos_le(self.anchor, self.head) ==> r == (self.anchor, self.head),
            !pos_le(self.anchor, self.head) ==> r == (self.head, self.anchor),
            pos_le(r.0, r.1),
    {
        let a = self.anchor;
        let h = self.head;
        if a.0 < h.0 || (a.0 == h.0 && a.1 <= h.1) {
            (a, h)
        } else {
            (h, a)
        }
    }

    /// Nothing is selected (the two ends coincide).
    pub fn is_empty(&self) -> (b: bool)
        ensures
            b == (self.anchor == self.head),
    {
        self.anchor.0 == self.head.0 && self.anchor.1 == self.head.1
    }
}

/// The last character boundary at or before `i`.
pub open spec fn floor_boundary(bytes: Seq<u8>, i: int) -> int
    decreases i,
{
    if i <= 0 || is_char_boundary(bytes, i) {
        i
    } else {
        floor_boundary(bytes, i - 1)
    }
}

/// The byte range of text `idx` that the selection from `start` to `end`
/// (in document order) covers: the whole text between the ends, from the
/// start offset in the first text, up to the end offset in the last, both
/// clamped to the text and moved back to character boundaries. `None` when
/// the text is outside the selection, is marked unselectable (what is not
/// painted is not copied either), or the range is empty.
pub open spec fn selected_piece_spec(
    bytes: Seq<u8>,
    idx: usize,
    no_select: bool,
    start: (usize, usize),
    end: (usize, usize),
) -> Option<(usize, usize)> {
    if no_select || idx < start.0 || idx > end.0 {
        None
    } else {
        let len = bytes.len() as int;
        let b0: int = if idx == start.0 {
            start.1 as int
        } else {
            0
        };
        let b1: int = if idx == end.0 {
            end.1 as int
        } else {
            len
        };
        let a = floor_boundary(bytes, if b0 < len { b0 } else { len });
        let b = floor_boundary(bytes, if b1 < len { b1 } else { len });
        if a >= b {
            None
        } else {
            Some((a as usize, b as usize))
        }
    }
}

/// The byte range of `content` (text number `idx`) to copy for a selection
/// from `start` to `end` (see [`selected_piece_spec`]).
pub fn selected_piece(content: &str, idx: usize, no_select: bool, start: (usize, usize), end: (
    usize,
    usize,
)) -> (r: Option<(usize, usize)>)
    requires
        content.spec_bytes().len() <= usize::MAX,
    ensures
        r == selected_piece_spec(content.spec_bytes(), idx, no_select, start, end),
{
    if no_select || idx < start.0 || idx > end.0 {
        return None;
    }
    let len = content.len();
    let b0 = if idx == start.0 {
        start.1
    } else {
        0
    };
    let b1 = if idx == end.0 {
        end.1
    } else {
        len
    };
    let mut a = if b0 < len {
        b0
    } else {
        len
    };
    let mut b = if b1 < len {
        b1
    } else {
        len
    };
    let ghost a0 = a as int;
    let ghost b0g = b as int;
    while a > 0 && !content.is_char_boundary(a)
        invariant
            a <= len,
            floor_boundary(content.spec_bytes(), a0) == floor_boundary(content.spec_bytes(), a as int),
        decreases a,
    {
        a -= 1;
    }
    while b > 0 && !content.is_char_boundary(b)
        invariant
            b <= len,
            floor_boundary(content.spec_bytes(), b0g) == floor_boundary(content.spec_bytes(), b as int),
        decreases b,
    {
        b -= 1;
    }
    if a >= b {
        None
    } else {
        Some((a, b))
    }
}

/// A laid-out text element, as text selection sees it.
pub struct LaidOutText {
    /// The text's index in drawing order.
    pub text_idx: usize,
    /// Its content.
    pub content: String,
}

/// The content of the first laid-out text with index `idx` at or after
/// `from`, if any.
pub open spec fn content_of(texts: Seq<LaidOutText>, idx: usize, from: int) -> Option<Seq<char>>
    decreases texts.len() - from,
{
    if from < 0 || from >= texts.len() {
        None
    } else if texts[from].text_idx == idx {
        Some(texts[from].content@)
    } else {
        content_of(texts, idx, from + 1)
    }
}

fn lookup_content<'a>(texts: &'a Vec<LaidOutText>, idx: usize) -> (c: Option<&'a String>)
    ensures
        match c {
            Some(s) => content_of(texts@, idx, 0) == Some(s@),
            None => content_of(texts@, idx, 0) is None,
        },
{
    let mut i: usize = 0;
    while i < texts.len()
        invariant
            i <= texts@.len(),
            content_of(texts@, idx, 0) == content_of(texts@, idx, i as int),
        decreases texts@.len() - i,
    {
        if texts[i].text_idx == idx {
            return Some(&texts[i].content);
        }
        i += 1;
    }
    None
}

/// A selection survives a new frame only if both of its ends still point
/// at texts with the same content as when they were set (a switched view
/// can put different text under the same index).
pub open spec fn selection_still_valid(sel: TextSelection, texts: Seq<LaidOutText>) -> bool {
    &&& content_of(texts, sel.anchor.0, 0) == Some(sel.anchor_content@)
    &&& content_of(texts, sel.head.0, 0) == Some(sel.head_content@)
}

/// Drops the selection (and ends any selection drag) when the texts under
/// its ends have changed.
pub fn invalidate_stale_selection(selection: &mut Option<TextSelection>, selecting: &mut bool, texts: &Vec<
    LaidOutText,
>)
    ensures
        match *old(selection) {
            None => *final(selection) == *old(selection) && *final(selecting) == *old(selecting),
            Some(sel) => if selection_still_valid(sel, texts@) {
                *final(selection) == *old(selection) && *final(selecting) == *old(selecting)
            } else {
                (*final(selection)) is None && !*final(selecting)
            },
        },
{
    let ok = match &*selection {
        None => true,
        Some(sel) => {
            let anchor_ok = match lookup_content(texts, sel.anchor.0) {
                Some(c) => *c == sel.anchor_content,
                None => false,
            };
            let head_ok = match lookup_content(texts, sel.head.0) {
                Some(c) => *c == sel.head_content,
                None => false,
            };
            anchor_ok && head_ok
        },
    };
    if !ok {
        *selection = None;
        *selecting = false;
    }
}

/// The primary button was released: the selection drag ends, and a
/// selection that covers nothing (a plain click) is dropped; a real one is
/// kept for copying.
pub fn end_selection_drag(selection: &mut Option<TextSelection>, selecting: &mut bool)
    ensures
        !*final(selecting),
        match *old(selection) {
            None => (*final(selection)) is None,
            Some(sel) => if sel.anchor == sel.head {
                (*final(selection)) is None
            } else {
                *final(selection) == *old(selection)
            },
        },
{
    *selecting = false;
    let empty = match &*selection {
        Some(sel) => sel.is_empty(),
        None => false,
    };
    if empty {
        *selection = None;
    }
}

/// A hit region under the pointer at a primary press, front to back.
pub struct PressRegion {
    pub id: Option<String>,
    /// It takes part in pointer input (regions that only carry a role or a
    /// label let the press through to what lies beneath).
    pub interactive: bool,
    pub focusable: bool,
    pub clickable: bool,
    /// What a drag started on it carries.
    pub drag_data: Option<String>,
}

/// What a primary press decides.
pub struct PressOutcome {
    /// The element that has focus afterwards (`None`: focus is dropped).
    pub focused: Option<String>,
    /// The element whose click runs.
    pub click: Option<String>,
    /// A drag waiting for the pointer to move: its data and its source.
    pub drag: Option<(String, Option<String>)>,
    /// The text selection afterwards.
    pub selection: Option<TextSelection>,
    /// A selection drag has started.
    pub selecting: bool,
}

/// Index of the first interactive region at or after `from` (the length
/// when there is none).
pub open spec fn first_interactive(r: Seq<PressRegion>, from: int) -> int
    decreases r.len() - from,
{
    if from < 0 || from >= r.len() {
        r.len() as int
    } else if r[from].interactive {
        from
    } else {
        first_interactive(r, from + 1)
    }
}

pub open spec fn str_opt(o: Option<String>) -> Option<Seq<char>> {
    match o {
        Some(s) => Some(s@),
        None => None,
    }
}

/// A primary press: the frontmost interactive region under the pointer
/// takes focus if it is focusable (otherwise focus is dropped), runs its
/// click if it is clickable, and arms a drag if it carries drag data. Then
/// the selection: a press on a link follows the link and drops it; a press
/// that arms a drag, or in an application that turned selection off, drops
/// it; a press on text starts a new empty selection there (remembering that
/// text's content); a press elsewhere drops it.
pub fn press_outcome(
    under: &Vec<PressRegion>,
    on_link: bool,
    selection_enabled: bool,
    text_hit: Option<(usize, usize)>,
    texts: &Vec<LaidOutText>,
) -> (o: PressOutcome)
    ensures
        ({
            let k = first_interactive(under@, 0);
            &&& k < under@.len() ==> {
                &&& str_opt(o.focused) == (if under@[k].focusable {
                    str_opt(under@[k].id)
                } else {
                    None
                })
                &&& str_opt(o.click) == (if under@[k].clickable {
                    str_opt(under@[k].id)
                } else {
                    None
                })
                &&& match under@[k].drag_data {
                    Some(d) => o.drag matches Some((dd, src)) && dd@ == d@ && str_opt(src) == str_opt(under@[k].id),
                    None => o.drag is None,
                }
            }
            &&& k >= under@.len() ==> o.focused is None && o.click is None && o.drag is None
        }),
        on_link || o.drag is Some || !selection_enabled || text_hit is None ==> o.selection is None && !o.selecting,
        !on_link && o.drag is None && selection_enabled && text_hit is Some ==> {
            &&& o.selecting
            &&& o.selection matches Some(sel) && sel.anchor == text_hit.unwrap() && sel.head == text_hit.unwrap()
                && sel.anchor_content@ == sel.head_content@ && sel.anchor_content@ == match content_of(
                texts@,
                text_hit.unwrap().0,
                0,
            ) {
                Some(c) => c,
                None => Seq::<char>::empty(),
            }
        },
{
    let mut k: usize = 0;
    while k < under.len() && !under[k].interactive
        invariant
            k <= under@.len(),
            first_interactive(under@, 0) == first_interactive(under@, k as int),
        decreases under@.len() - k,
    {
        k += 1;
    }
    let mut focused: Option<String> = None;
    let mut click: Option<String> = None;
    let mut drag: Option<(String, Option<String>)> = None;
    if k < under.len() {
        let r = &under[k];
        if r.focusable {
            focused = r.id.clone();
        }
        if r.clickable {
            click = r.id.clone();
        }
        if let Some(d) = &r.drag_data {
            drag = Some((d.clone(), r.id.clone()));
        }
    }
    let mut selection: Option<TextSelection> = None;
    let mut selecting = false;
    if !on_link && drag.is_none() && selection_enabled {
        if let Some(hit) = text_hit {
            let snap = match lookup_content(texts, hit.0) {
                Some(c) => c.clone(),
                None => String::new(),
            };
            selection = Some(
                TextSelection { anchor: hit, head: hit, anchor_content: snap.clone(), head_content: snap },
            );
            selecting = true;
        }
    }
    PressOutcome { focused, click, drag, selection, selecting }
}

/// Hover over a link in body text: the link becomes the hovered element,
/// its preview (if any) the tooltip, and the cursor the pointing hand.
/// Elsewhere the resolved hover stands.
pub fn hover_with_link(hit: HoverHit, link: Option<(String, Option<String>)>) -> (h: HoverHit)
    ensures
        match link {
            None => h == hit,
            Some((id, tip)) => {
                &&& opt_str(h.hovered_id) == Some(id@)
                &&& opt_str(h.tooltip) == match tip {
                    Some(t) => Some(t@),
                    None => opt_str(hit.tooltip),
                }
                &&& h.cursor == Some(Cursor::Pointer)
            },
        },
{
    match link {
        None => hit,
        Some((id, tip)) => {
            let tooltip = match tip {
                Some(t) => Some(t),
                None => hit.tooltip,
            };
            HoverHit { hovered_id: Some(id), tooltip, cursor: Some(Cursor::Pointer) }
        },
    }
}

/// Whether the application must hear of a hover change: only when the
/// hovered element is a different one.
pub fn hover_changed(before: &Option<String>, now: &Option<String>) -> (b: bool)
    ensures
        b == (opt_str(*before) != opt_str(*now)),
{
    match (before, now) {
        (Some(a), Some(b)) => !(*a == *b),
        (None, None) => false,
        _ => true,
    }
}

/// A hit region, as the check for typing that went nowhere sees it.
pub struct FieldRegion {
    pub id: Option<String>,
    pub role: Option<Role>,
}

/// Some region with element id `id` declares itself a text field.
pub open spec fn is_text_field(regions: Seq<FieldRegion>, id: Seq<char>) -> bool {
    exists|i: int|
        0 <= i < regions.len() && str_opt(#[trigger] regions[i].id) == Some(id) && (regions[i].role
            == Some(Role::TextInput) || regions[i].role == Some(Role::TextArea))
}

pub open spec fn views_of(v: Seq<String>) -> Seq<Seq<char>> {
    v.map_values(|s: String| s@)
}

/// Typing reached no handler while `focused` holds focus: returns whether
/// to warn that the text field is not wired to the application's state.
/// Only text fields count (a focusable button that ignores keys is fine),
/// and each field is named once: `warned` remembers the ones named.
pub fn warn_unrouted_typing(focused: Option<&str>, regions: &Vec<FieldRegion>, warned: &mut Vec<String>) -> (w:
    bool)
    ensures
        match focused {
            None => !w && final(warned)@ == old(warned)@,
            Some(id) => if is_text_field(regions@, id@) && !views_of(old(warned)@).contains(id@) {
                w && views_of(final(warned)@) == views_of(old(warned)@).push(id@)
            } else {
                !w && final(warned)@ == old(warned)@
            },
        },
{
    let id: String = match focused {
        None => return false,
        Some(id) => id.to_owned(),
    };
    let mut field = false;
    let mut i: usize = 0;
    while i < regions.len()
        invariant
            i <= regions@.len(),
            field <==> exists|k: int|
                0 <= k < i && str_opt(#[trigger] regions@[k].id) == Some(id@) && (regions@[k].role == Some(
                    Role::TextInput,
                ) || regions@[k].role == Some(Role::TextArea)),
        decreases regions@.len() - i,
    {
        let r = &regions[i];
        let same = match &r.id {
            Some(rid) => *rid == id,
            None => false,
        };
        let text_role = match r.role {
            Some(Role::TextInput) => true,
            Some(Role::TextArea) => true,
            _ => false,
        };
        if same && text_role {
            field = true;
        }
        i += 1;
    }
    assert(id@ == focused.unwrap()@);
    assert(field == is_text_field(regions@, id@));
    if !field {
        return false;
    }
    let mut j: usize = 0;
    while j < warned.len()
        invariant
            j <= warned@.len(),
            warned@ == old(warned)@,
            focused matches Some(f) && f@ == id@,
            forall|k: int| 0 <= k < j ==> warned@[k]@ != id@,
        decreases warned@.len() - j,
    {
        if warned[j] == id {
            proof {
                assert(views_of(warned@)[j as int] == id@);
                assert(views_of(warned@).contains(id@));
            }
            return false;
        }
        j += 1;
    }
    proof {
        assert forall|k: int| 0 <= k < views_of(warned@).len() implies views_of(warned@)[k] != id@ by {
            assert(views_of(warned@)[k] == warned@[k]@);
        }
    }
    let ghost before = warned@;
    warned.push(id);
    proof {
        assert(views_of(warned@) =~= views_of(before).push(id@));
    }
    true
}

/// How the declarative runner delivers each kind of input event: pointer
/// leaving is reported through the cursor-left callback instead of an
/// event; every other kind reaches `on_input`.
pub fn input_delivery(kind: InputEventKind) -> (d: Delivery)
    ensures
        kind == InputEventKind::PointerLeft ==> d == Delivery::NotProduced(
            "カーソルの離脱は DeclarativeApp::on_cursor_left で伝える",
        ),
        kind != InputEventKind::PointerLeft ==> d == Delivery::ToApp,
{
    match kind {
        InputEventKind::PointerMoved
        | InputEventKind::PointerPressed
        | InputEventKind::PointerReleased
        | InputEventKind::PointerCancelled => Delivery::ToApp,
        InputEventKind::PointerLeft => Delivery::NotProduced("カーソルの離脱は DeclarativeApp::on_cursor_left で伝える"),
        InputEventKind::ImeEnabled
        | InputEventKind::ImePreedit
        | InputEventKind::ImeCommit
        | InputEventKind::KeyInput
        | InputEventKind::CharInput => Delivery::ToApp,
        InputEventKind::ModifiersChanged => Delivery::ToApp,
        InputEventKind::Paste => Delivery::ToApp,
    }
}

} // verus!
