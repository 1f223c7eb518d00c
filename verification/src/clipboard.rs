//! Clipboard shortcuts, and an in-memory clipboard.
//!
//! Paste, copy and cut are the primary modifier (Cmd on macOS, Ctrl
//! elsewhere) with V, C and X; the other modifier does not trigger them and
//! the bare letters are text.
//!
//! [`MemoryClipboard`] stands in for the system clipboard where touching the
//! real one would be wrong (tests, headless runs): it stores what was
//! written and can be told to refuse writes, to reproduce platforms where
//! writing fails. A write reports whether it succeeded, so that cut can
//! delete the selection only after the text is safely on the clipboard.

use vstd::prelude::*;

use crate::input::{Key, Modifiers};

verus! {

/// The platform family, as far as shortcuts are concerned.
#[derive(Clone, Copy, Debug, PartialEq, Eq, Structural)]
pub enum Platform {
    MacOs,
    Other,
}

/// The primary modifier is held: Cmd on macOS, Ctrl elsewhere.
pub open spec fn primary_held(modifiers: Modifiers, platform: Platform) -> bool {
    match platform {
        Platform::MacOs => modifiers.meta,
        Platform::Other => modifiers.ctrl,
    }
}

fn primary(modifiers: Modifiers, platform: Platform) -> (b: bool)
    ensures
        b == primary_held(modifiers, platform),
{
    match platform {
        Platform::MacOs => modifiers.meta,
        Platform::Other => modifiers.ctrl,
    }
}

/// Whether this key press asks to paste (primary modifier + V).
pub fn is_paste_shortcut(key: Key, modifiers: Modifiers, platform: Platform) -> (b: bool)
    ensures
        b == (key == Key::V && primary_held(modifiers, platform)),
{
    key == Key::V && primary(modifiers, platform)
}

/// Whether this key press asks to copy (primary modifier + C).
pub fn is_copy_shortcut(key: Key, modifiers: Modifiers, platform: Platform) -> (b: bool)
    ensures
        b == (key == Key::C && primary_held(modifiers, platform)),
{
    key == Key::C && primary(modifiers, platform)
}

/// Whether this key press asks to cut (primary modifier + X).
pub fn is_cut_shortcut(key: Key, modifiers: Modifiers, platform: Platform) -> (b: bool)
    ensures
        b == (key == Key::X && primary_held(modifiers, platform)),
{
    key == Key::X && primary(modifiers, platform)
}

/// A clipboard held in memory.
pub struct MemoryClipboard {
    content: Option<String>,
    writable: bool,
}

impl MemoryClipboard {
    /// What the clipboard holds.
    pub closed spec fn content(&self) -> Option<Seq<char>> {
        match self.content {
            Some(s) => Some(s@),
            None => None,
        }
    }

    /// Whether writes succeed.
    pub closed spec fn writable(&self) -> bool {
        self.writable
    }

    /// Empty and writable.
    pub fn new() -> (c: Self)
        ensures
            c.content() is None,
            c.writable(),
    {
        MemoryClipboard { content: None, writable: true }
    }

    /// Empties the clipboard and makes writes succeed again.
    pub fn test_clear(&mut self)
        ensures
            final(self).content() is None,
            final(self).writable(),
    {
        self.content = None;
        self.writable = true;
    }

    /// Makes later writes fail (`false`) or succeed (`true`).
    pub fn test_set_writable(&mut self, writable: bool)
        ensures
            final(self).writable() == writable,
            final(self).content() == old(self).content(),
    {
        self.writable = writable;
    }

    /// The text on the clipboard, if any.
    pub fn read_text(&self) -> (t: Option<String>)
        ensures
            match t {
                Some(s) => self.content() == Some(s@),
                None => self.content() is None,
            },
    {
        match &self.content {
            Some(s) => Some(s.clone()),
            None => None,
        }
    }

    /// Puts `text` on the clipboard. Returns whether it was written; a
    /// refused write leaves the clipboard as it was.
    pub fn write_text(&mut self, text: &str) -> (ok: bool)
        ensures
            ok == old(self).writable(),
            ok ==> final(self).content() == Some(text@),
            !ok ==> final(self).content() == old(self).content(),
            final(self).writable() == old(self).writable(),
    {
        if !self.writable {
            return false;
        }
        self.content = Some(text.to_owned());
        true
    }
}

} // verus!
