//! What the runtime does with a key press after the application has seen
//! it.
//!
//! The application comes first: a key goes to the focused element, then to
//! `on_input` (Tab and Escape skip the focused element, since they move
//! focus themselves). Only a press that nobody consumed triggers the
//! runtime's defaults: copy (primary+C) copies the selection, paste
//! (primary+V) delivers the clipboard, any other key except a bare modifier
//! ends the selection, Escape drops focus, Tab / Shift+Tab move focus
//! forwards / backwards through the focusable elements in document order
//! (wrapping around). A release never has side effects.

use vstd::prelude::*;

use crate::clipboard::{Platform, is_copy_shortcut, is_paste_shortcut, primary_held};
use crate::input::{Key, Modifiers};

verus! {

/// The defaults the runtime runs for one key event.
#[derive(Clone, Copy, Debug, PartialEq, Eq, Structural)]
pub struct KeyDefaults {
    /// Copy the selected text to the clipboard.
    pub copy: bool,
    /// Read the clipboard and deliver it as one paste event.
    pub paste: bool,
    /// End the text selection.
    pub clear_selection: bool,
    /// Drop focus.
    pub clear_focus: bool,
    /// Move focus to the next (or, with Shift, previous) focusable element.
    pub move_focus: bool,
    /// Recompute the input capture (focus may have moved).
    pub recapture: bool,
}

pub open spec fn no_defaults() -> KeyDefaults {
    KeyDefaults {
        copy: false,
        paste: false,
        clear_selection: false,
        clear_focus: false,
        move_focus: false,
        recapture: false,
    }
}

/// The defaults for `key` (see the module documentation).
pub open spec fn key_defaults_spec(
    key: Key,
    pressed: bool,
    handled: bool,
    modifiers: Modifiers,
    platform: Platform,
) -> KeyDefaults {
    if !pressed || handled {
        no_defaults()
    } else {
        let copy = key == Key::C && primary_held(modifiers, platform);
        KeyDefaults {
            copy,
            paste: key == Key::V && primary_held(modifiers, platform),
            clear_selection: !copy && key != Key::Other,
            clear_focus: key == Key::Escape,
            move_focus: key == Key::Tab,
            recapture: key == Key::Escape || key == Key::Tab,
        }
    }
}

/// Whether the focused element sees this key before the application
/// (everything but Tab and Escape).
pub fn goes_to_focused(key: Key) -> (b: bool)
    ensures
        b == (key != Key::Tab && key != Key::Escape),
{
    key != Key::Tab && key != Key::Escape
}

/// The defaults to run for a key event; `handled` says the focused element
/// or the application consumed it.
pub fn key_defaults(key: Key, pressed: bool, handled: bool, modifiers: Modifiers, platform: Platform) -> (d:
    KeyDefaults)
    ensures
        d == key_defaults_spec(key, pressed, handled, modifiers, platform),
{
    if !pressed || handled {
        return KeyDefaults {
            copy: false,
            paste: false,
            clear_selection: false,
            clear_focus: false,
            move_focus: false,
            recapture: false,
        };
    }
    let copy = is_copy_shortcut(key, modifiers, platform);
    let paste = is_paste_shortcut(key, modifiers, platform);
    KeyDefaults {
        copy,
        paste,
        clear_selection: !copy && key != Key::Other,
        clear_focus: key == Key::Escape,
        move_focus: key == Key::Tab,
        recapture: key == Key::Escape || key == Key::Tab,
    }
}

/// Tab and Shift+Tab both move focus: an unconsumed press of Tab asks to
/// move focus and to recompute the capture whatever the modifiers and the
/// platform (Shift only picks the direction), and no other key moves focus.
pub proof fn lemma_tab_moves_focus_with_or_without_shift(
    key: Key,
    modifiers: Modifiers,
    platform: Platform,
)
    ensures
        key_defaults_spec(Key::Tab, true, false, modifiers, platform).move_focus,
        key_defaults_spec(Key::Tab, true, false, modifiers, platform).recapture,
        key != Key::Tab ==> !key_defaults_spec(key, true, false, modifiers, platform).move_focus,
{
}

/// Shift+Tab goes to the previous element and Tab to the next, wrapping
/// around: among `n` elements, from element `cur` backwards lands on
/// `(cur - 1) mod n` and forwards on `(cur + 1) mod n`; with nothing
/// focused, backwards starts at the last and forwards at the first.
pub proof fn lemma_shift_tab_goes_back_one(cur: int, n: int)
    requires
        n > 0,
    ensures
        0 <= cur < n ==> step_focus(cur, n, true) == (cur - 1 + n) % n,
        0 <= cur < n ==> step_focus(cur, n, false) == (cur + 1) % n,
        step_focus(n, n, true) == n - 1,
        step_focus(n, n, false) == 0,
{
    if 0 <= cur < n {
        if cur == 0 {
            assert((n - 1 + 0) % n == n - 1) by {
                vstd::arithmetic::div_mod::lemma_small_mod((n - 1) as nat, n as nat);
            }
        } else {
            vstd::arithmetic::div_mod::lemma_mod_add_multiples_vanish(cur - 1, n);
            vstd::arithmetic::div_mod::lemma_small_mod((cur - 1) as nat, n as nat);
        }
        if cur + 1 < n {
            vstd::arithmetic::div_mod::lemma_small_mod((cur + 1) as nat, n as nat);
        } else {
            vstd::arithmetic::div_mod::lemma_mod_self_0(n);
        }
    }
}

/// A key that somebody consumed runs no default, and neither does a
/// release.
pub proof fn lemma_consumed_or_released_keys_do_nothing(
    key: Key,
    pressed: bool,
    handled: bool,
    modifiers: Modifiers,
    platform: Platform,
)
    requires
        !pressed || handled,
    ensures
        key_defaults_spec(key, pressed, handled, modifiers, platform) == no_defaults(),
{
}

/// Holding a bare modifier (before pressing C to copy) keeps the selection.
pub proof fn lemma_bare_modifier_keeps_selection(modifiers: Modifiers, platform: Platform, handled: bool)
    ensures
        !key_defaults_spec(Key::Other, true, handled, modifiers, platform).clear_selection,
{
}

/// The copy shortcut keeps the selection it copies.
pub proof fn lemma_copy_keeps_selection(modifiers: Modifiers, platform: Platform)
    requires
        primary_held(modifiers, platform),
    ensures
        key_defaults_spec(Key::C, true, false, modifiers, platform).copy,
        !key_defaults_spec(Key::C, true, false, modifiers, platform).clear_selection,
{
}

/// Index of the first element of `ids` equal to `id`; the length when
/// there is none.
pub open spec fn position(ids: Seq<String>, id: Seq<char>, from: int) -> int
    decreases ids.len() - from,
{
    if from < 0 || from >= ids.len() {
        ids.len() as int
    } else if ids[from]@ == id {
        from
    } else {
        position(ids, id, from + 1)
    }
}

/// Tab order: from position `cur` (`n` when nothing in the list has focus)
/// among `n` focusable elements, forwards wraps from the last to the first
/// and starts at the first; backwards wraps from the first to the last and
/// starts at the last.
pub open spec fn step_focus(cur: int, n: int, backwards: bool) -> int {
    if backwards {
        if cur == 0 || cur >= n {
            n - 1
        } else {
            cur - 1
        }
    } else {
        if cur + 1 < n {
            cur + 1
        } else {
            0
        }
    }
}

/// Tab and Shift+Tab undo each other: from any focusable element, one step
/// forwards then one backwards (or the other way round) lands on it again.
pub proof fn lemma_tab_then_shift_tab_returns(cur: int, n: int)
    requires
        0 <= cur < n,
    ensures
        step_focus(step_focus(cur, n, false), n, true) == cur,
        step_focus(step_focus(cur, n, true), n, false) == cur,
{
}

/// Where `k` presses of Tab lead from the first of `n` focusable elements.
pub open spec fn steps_from_first(k: nat, n: int) -> int
    decreases k,
{
    if k == 0 {
        0
    } else {
        step_focus(steps_from_first((k - 1) as nat, n), n, false)
    }
}

/// Repeated Tab visits every focusable element in turn: after `k` steps
/// from the first element the focus is on element `k mod n`.
pub proof fn lemma_tab_cycles(k: nat, n: int)
    requires
        n > 0,
    ensures
        steps_from_first(k, n) == (k as int) % n,
    decreases k,
{
    if k == 0 {
        vstd::arithmetic::div_mod::lemma_small_mod(0, n as nat);
    } else {
        lemma_tab_cycles((k - 1) as nat, n);
        let p = ((k - 1) as int) % n;
        vstd::arithmetic::div_mod::lemma_add_mod_noop((k - 1) as int, 1, n);
        if n == 1 {
            assert(1int % 1 == 0);
            assert(p == 0);
            assert(0int % 1 == 0);
        } else {
            vstd::arithmetic::div_mod::lemma_small_mod(1, n as nat);
            if p + 1 < n {
                vstd::arithmetic::div_mod::lemma_small_mod((p + 1) as nat, n as nat);
            } else {
                assert(p + 1 == n);
                assert(n % n == 0) by (nonlinear_arith)
                    requires
                        n > 0,
                ;
            }
        }
    }
}

/// The id that Tab (or Shift+Tab with `backwards`) moves focus to, given
/// the focusable ids in document order and the focused id. `None` when
/// nothing is focusable.
pub fn next_focus(ids: &Vec<String>, focused: &Option<String>, backwards: bool) -> (next: Option<String>)
    ensures
        ids@.len() == 0 ==> next is None,
        ids@.len() > 0 ==> ({
            let cur = match focused {
                Some(f) => position(ids@, f@, 0),
                None => ids@.len() as int,
            };
            next matches Some(s) && s@ == ids@[step_focus(cur, ids@.len() as int, backwards)]@
        }),
{
    let n = ids.len();
    if n == 0 {
        return None;
    }
    let cur: usize = match focused {
        Some(f) => {
            let mut i: usize = 0;
            while i < n && !(ids[i] == *f)
                invariant
                    i <= n,
                    n == ids@.len(),
                    position(ids@, f@, 0) == position(ids@, f@, i as int),
                decreases n - i,
            {
                i += 1;
            }
            i
        },
        None => n,
    };
    let next = if backwards {
        if cur == 0 || cur >= n {
            n - 1
        } else {
            cur - 1
        }
    } else {
        if cur < n - 1 {
            cur + 1
        } else {
            0
        }
    };
    Some(ids[next].clone())
}

} // verus!
