//! From platform keyboard events to the runtime's keys and text.
//!
//! Character keys map to letter keys regardless of case (Shift+A is still
//! `A`), the space character to `Space`, and any other character to
//! `Other`. Text typed with a key press is delivered as character input
//! only on press, never while Cmd/Meta is held (Cmd+C is a shortcut, not
//! text), never for the synthetic events of an IME composition, and never
//! for control characters (Backspace arrives as `\x7f`, Enter as `\r`, Tab
//! as `\t`; the key events already carry those). Alt/Option is let through:
//! it composes real text (`é`, `©`).
//!
//! The mapping of the platform's named keys is done where the platform
//! types live; the decisions are here.

use vstd::prelude::*;

use crate::input::{Key, Modifiers};
use crate::std_support::chars_of;

verus! {

/// ASCII lower case (other characters unchanged).
pub open spec fn ascii_lower(c: char) -> char {
    if 'A' <= c <= 'Z' {
        ((c as u32) + 32) as char
    } else {
        c
    }
}

/// The key of a (lower-case) character.
pub open spec fn key_of_char(c: char) -> Key {
    if c == ' ' {
        Key::Space
    } else if c == 'a' {
        Key::A
    } else if c == 'b' {
        Key::B
    } else if c == 'c' {
        Key::C
    } else if c == 'd' {
        Key::D
    } else if c == 'e' {
        Key::E
    } else if c == 'f' {
        Key::F
    } else if c == 'g' {
        Key::G
    } else if c == 'h' {
        Key::H
    } else if c == 'i' {
        Key::I
    } else if c == 'j' {
        Key::J
    } else if c == 'k' {
        Key::K
    } else if c == 'l' {
        Key::L
    } else if c == 'm' {
        Key::M
    } else if c == 'n' {
        Key::N
    } else if c == 'o' {
        Key::O
    } else if c == 'p' {
        Key::P
    } else if c == 'q' {
        Key::Q
    } else if c == 'r' {
        Key::R
    } else if c == 's' {
        Key::S
    } else if c == 't' {
        Key::T
    } else if c == 'u' {
        Key::U
    } else if c == 'v' {
        Key::V
    } else if c == 'w' {
        Key::W
    } else if c == 'x' {
        Key::X
    } else if c == 'y' {
        Key::Y
    } else if c == 'z' {
        Key::Z
    } else {
        Key::Other
    }
}

/// The key of a character key's text: a single character, ASCII case
/// ignored; anything else is `Other`.
pub open spec fn character_key_spec(text: Seq<char>) -> Key {
    if text.len() == 1 {
        key_of_char(ascii_lower(text[0]))
    } else {
        Key::Other
    }
}

fn key_of(c: char) -> (k: Key)
    ensures
        k == key_of_char(ascii_lower(c)),
{
    match c {
        ' ' => Key::Space,
        'a' | 'A' => Key::A,
        'b' | 'B' => Key::B,
        'c' | 'C' => Key::C,
        'd' | 'D' => Key::D,
        'e' | 'E' => Key::E,
        'f' | 'F' => Key::F,
        'g' | 'G' => Key::G,
        'h' | 'H' => Key::H,
        'i' | 'I' => Key::I,
        'j' | 'J' => Key::J,
        'k' | 'K' => Key::K,
        'l' | 'L' => Key::L,
        'm' | 'M' => Key::M,
        'n' | 'N' => Key::N,
        'o' | 'O' => Key::O,
        'p' | 'P' => Key::P,
        'q' | 'Q' => Key::Q,
        'r' | 'R' => Key::R,
        's' | 'S' => Key::S,
        't' | 'T' => Key::T,
        'u' | 'U' => Key::U,
        'v' | 'V' => Key::V,
        'w' | 'W' => Key::W,
        'x' | 'X' => Key::X,
        'y' | 'Y' => Key::Y,
        'z' | 'Z' => Key::Z,
        _ => Key::Other,
    }
}

/// The key of a character key, from the character(s) it produced.
pub fn character_key(text: &str) -> (k: Key)
    ensures
        k == character_key_spec(text@),
{
    let chars = chars_of(text);
    if chars.len() == 1 {
        key_of(chars[0])
    } else {
        Key::Other
    }
}

/// `char::is_control`: the C0 and C1 control characters.
pub open spec fn is_control(c: char) -> bool {
    (c as u32) <= 0x1f || (0x7f <= (c as u32) && (c as u32) <= 0x9f)
}

/// `s` without its control characters, in order.
pub open spec fn without_controls(s: Seq<char>) -> Seq<char>
    decreases s.len(),
{
    if s.len() == 0 {
        s
    } else if is_control(s.last()) {
        without_controls(s.drop_last())
    } else {
        without_controls(s.drop_last()).push(s.last())
    }
}

/// What a key event contributes as character input. `pressed` is false for
/// a release; `composing` is true for the synthetic events an IME sends
/// while composing (the physical key is unidentified); `text` is the text
/// the platform attached to the event.
pub open spec fn char_inputs_spec(
    pressed: bool,
    composing: bool,
    text: Option<Seq<char>>,
    modifiers: Modifiers,
) -> Seq<char> {
    if !pressed || modifiers.meta || composing {
        Seq::empty()
    } else {
        match text {
            Some(t) => without_controls(t),
            None => Seq::empty(),
        }
    }
}

/// The characters a key event types (see [`char_inputs_spec`]).
pub fn char_inputs(pressed: bool, composing: bool, text: Option<&str>, modifiers: Modifiers) -> (out: Vec<char>)
    ensures
        out@ == char_inputs_spec(
            pressed,
            composing,
            match text {
                Some(t) => Some(t@),
                None => None,
            },
            modifiers,
        ),
{
    let mut out: Vec<char> = Vec::new();
    if !pressed || modifiers.meta || composing {
        return out;
    }
    let t = match text {
        Some(t) => t,
        None => {
            return out;
        },
    };
    let chars = chars_of(t);
    let mut i: usize = 0;
    while i < chars.len()
        invariant
            i <= chars@.len(),
            out@ == without_controls(chars@.subrange(0, i as int)),
        decreases chars@.len() - i,
    {
        let c = chars[i];
        proof {
            let next = chars@.subrange(0, (i + 1) as int);
            assert(next.drop_last() =~= chars@.subrange(0, i as int));
            assert(next.last() == c);
        }
        let v = c as u32;
        if !(v <= 0x1f || (0x7f <= v && v <= 0x9f)) {
            out.push(c);
        }
        i += 1;
    }
    assert(chars@.subrange(0, chars@.len() as int) =~= chars@);
    out
}

/// The letter number of a letter key (`A` is 0, `Z` is 25); none for the
/// other keys.
pub open spec fn letter_number(k: Key) -> Option<int> {
    match k {
        Key::A => Some(0),
        Key::B => Some(1),
        Key::C => Some(2),
        Key::D => Some(3),
        Key::E => Some(4),
        Key::F => Some(5),
        Key::G => Some(6),
        Key::H => Some(7),
        Key::I => Some(8),
        Key::J => Some(9),
        Key::K => Some(10),
        Key::L => Some(11),
        Key::M => Some(12),
        Key::N => Some(13),
        Key::O => Some(14),
        Key::P => Some(15),
        Key::Q => Some(16),
        Key::R => Some(17),
        Key::S => Some(18),
        Key::T => Some(19),
        Key::U => Some(20),
        Key::V => Some(21),
        Key::W => Some(22),
        Key::X => Some(23),
        Key::Y => Some(24),
        Key::Z => Some(25),
        _ => None,
    }
}

/// Every ASCII letter is its own letter key, in either case: the key of
/// the one-letter text `c` is the letter key whose place in the alphabet
/// is `c`'s (so no letter is `Other`, and different letters are different
/// keys), and the upper-case letter gives the same key as the lower-case
/// one.
pub proof fn lemma_letters_are_their_own_keys(c: char)
    requires
        'a' <= c <= 'z',
    ensures
        letter_number(character_key_spec(seq![c])) == Some((c as u32) - ('a' as u32)),
        character_key_spec(seq![((c as u32) - 32) as char]) == character_key_spec(seq![c]),
{
    let up = ((c as u32) - 32) as char;
    assert(seq![c][0] == c);
    assert(seq![up][0] == up);
    assert('A' <= up <= 'Z');
    assert(ascii_lower(up) == c);
}

/// Letters other than ASCII ones, and texts of more or fewer than one
/// character, are no letter key.
pub proof fn lemma_other_text_is_no_letter(t: Seq<char>)
    requires
        t.len() != 1 || !('a' <= t[0] <= 'z' || 'A' <= t[0] <= 'Z'),
    ensures
        letter_number(character_key_spec(t)) is None,
{
}

/// Only C0 and C1 control characters are dropped: a press that is neither
/// composing nor held with Cmd types its one character `c` exactly when
/// `c` is not in U+0000..U+001F or U+007F..U+009F.
pub proof fn lemma_only_controls_are_dropped(c: char, modifiers: Modifiers)
    requires
        !modifiers.meta,
    ensures
        ((c as u32) <= 0x1f || (0x7f <= (c as u32) && (c as u32) <= 0x9f)) ==> char_inputs_spec(
            true,
            false,
            Some(seq![c]),
            modifiers,
        ) == Seq::<char>::empty(),
        !((c as u32) <= 0x1f || (0x7f <= (c as u32) && (c as u32) <= 0x9f)) ==> char_inputs_spec(
            true,
            false,
            Some(seq![c]),
            modifiers,
        ) == seq![c],
{
    let t = seq![c];
    assert(t.drop_last() =~= Seq::<char>::empty());
    assert(t.last() == c);
    assert(without_controls(t.drop_last()) =~= Seq::<char>::empty());
    if is_control(c) {
        assert(without_controls(t) =~= Seq::<char>::empty());
    } else {
        assert(without_controls(t) =~= seq![c]);
    }
}

/// The typed text of a longer text is the typed text of its parts, one
/// after the other: nothing is reordered, and each character is kept or
/// dropped on its own.
pub proof fn lemma_typed_text_splits(a: Seq<char>, b: Seq<char>, modifiers: Modifiers)
    requires
        !modifiers.meta,
    ensures
        char_inputs_spec(true, false, Some(a + b), modifiers) == char_inputs_spec(
            true,
            false,
            Some(a),
            modifiers,
        ) + char_inputs_spec(true, false, Some(b), modifiers),
    decreases b.len(),
{
    if b.len() == 0 {
        assert(a + b =~= a);
        assert(without_controls(b) =~= Seq::<char>::empty());
        assert(without_controls(a) + Seq::<char>::empty() =~= without_controls(a));
    } else {
        let b1 = b.drop_last();
        lemma_typed_text_splits(a, b1, modifiers);
        assert((a + b).drop_last() =~= a + b1);
        assert((a + b).last() == b.last());
        if !is_control(b.last()) {
            assert(without_controls(a) + without_controls(b1).push(b.last()) =~= (without_controls(a)
                + without_controls(b1)).push(b.last()));
        }
    }
}

} // verus!
