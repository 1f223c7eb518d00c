//! The software-keyboard shim's bookkeeping.
//!
//! On iOS a hidden text field owns the keyboard session so that marked-text
//! composition (Japanese input) works. Each time the field's text changes,
//! the whole new text is compared with the previous one and the change is
//! queued as backspaces (for the removed tail) followed by one insertion
//! (for the added tail). The runtime drains the queue each frame and routes
//! the events like physical keys, so replaying the drained events on the old
//! text always gives the field's current text.
//!
//! The UIKit side (creating the field, making it first responder) lives with
//! the platform code; this module decides what it has to do.

use vstd::prelude::*;

use crate::std_support::{chars_of, string_from_chars};

verus! {

/// A text-input event, drained by the runtime each frame.
#[derive(Debug)]
pub enum KbEvent {
    /// Text inserted since the last change (a committed IME candidate may be
    /// several characters).
    Text(String),
    /// One character deleted.
    Backspace,
}

/// What the platform code must do to the hidden field after a focus change.
#[derive(Clone, Copy, Debug, PartialEq, Eq)]
pub enum FieldCommand {
    /// Make the field first responder (raises the keyboard).
    BecomeFirstResponder,
    /// Resign first responder and clear the field's text.
    ResignAndClear,
}

/// The text after applying one event: an insertion appends, a backspace
/// removes the last character (if any).
pub open spec fn apply_event(text: Seq<char>, e: KbEvent) -> Seq<char> {
    match e {
        KbEvent::Text(s) => text + s@,
        KbEvent::Backspace => if text.len() > 0 {
            text.drop_last()
        } else {
            text
        },
    }
}

/// The text after applying `events` in order.
pub open spec fn apply_events(text: Seq<char>, events: Seq<KbEvent>) -> Seq<char>
    decreases events.len(),
{
    if events.len() == 0 {
        text
    } else {
        apply_event(apply_events(text, events.drop_last()), events.last())
    }
}

/// Length of the longest common prefix of `a` and `b`.
pub open spec fn common_prefix_len(a: Seq<char>, b: Seq<char>) -> nat
    decreases a.len(),
{
    if a.len() == 0 || b.len() == 0 || a[0] != b[0] {
        0
    } else {
        1 + common_prefix_len(a.drop_first(), b.drop_first())
    }
}

/// `events` is the change from `old` to `new`: one backspace per character
/// of `old` after the common prefix, then (when `new` is longer than the
/// common prefix) one insertion of the rest of `new`.
pub open spec fn is_delta(old: Seq<char>, new: Seq<char>, events: Seq<KbEvent>) -> bool {
    let c = common_prefix_len(old, new);
    let removed = old.len() - c;
    &&& events.len() == removed + (if c < new.len() { 1int } else { 0int })
    &&& forall|i: int| 0 <= i < removed ==> #[trigger] events[i] is Backspace
    &&& c < new.len() ==> (events.last() matches KbEvent::Text(s) && s@ == new.subrange(
        c as int,
        new.len() as int,
    ))
}

/// The common prefix really is one: it fits both sequences, they agree on
/// it, and they differ (or one ends) right after it.
pub proof fn lemma_common_prefix(a: Seq<char>, b: Seq<char>)
    ensures
        common_prefix_len(a, b) <= a.len(),
        common_prefix_len(a, b) <= b.len(),
        forall|i: int| 0 <= i < common_prefix_len(a, b) ==> a[i] == b[i],
        common_prefix_len(a, b) < a.len() && common_prefix_len(a, b) < b.len() ==> a[common_prefix_len(
            a,
            b,
        ) as int] != b[common_prefix_len(a, b) as int],
    decreases a.len(),
{
    if a.len() == 0 || b.len() == 0 || a[0] != b[0] {
    } else {
        lemma_common_prefix(a.drop_first(), b.drop_first());
        let c = common_prefix_len(a, b);
        assert forall|i: int| 0 <= i < c implies a[i] == b[i] by {
            if i > 0 {
                assert(a.drop_first()[i - 1] == b.drop_first()[i - 1]);
            }
        }
    }
}

/// Applying `x` then `y` is applying their concatenation.
pub proof fn lemma_apply_concat(text: Seq<char>, x: Seq<KbEvent>, y: Seq<KbEvent>)
    ensures
        apply_events(text, x + y) == apply_events(apply_events(text, x), y),
    decreases y.len(),
{
    if y.len() == 0 {
        assert(x + y =~= x);
    } else {
        lemma_apply_concat(text, x, y.drop_last());
        assert((x + y).drop_last() =~= x + y.drop_last());
        assert((x + y).last() == y.last());
    }
}

/// `n` backspaces remove the last `n` characters.
proof fn lemma_backspaces(text: Seq<char>, events: Seq<KbEvent>)
    requires
        events.len() <= text.len(),
        forall|i: int| 0 <= i < events.len() ==> #[trigger] events[i] is Backspace,
    ensures
        apply_events(text, events) == text.subrange(0, text.len() - events.len()),
    decreases events.len(),
{
    if events.len() == 0 {
        assert(text.subrange(0, text.len() as int) =~= text);
    } else {
        let rest = events.drop_last();
        assert forall|i: int| 0 <= i < rest.len() implies #[trigger] rest[i] is Backspace by {
            assert(rest[i] == events[i]);
        }
        lemma_backspaces(text, rest);
        assert(events.last() == events[events.len() - 1]);
        assert(text.subrange(0, text.len() - rest.len()).drop_last() =~= text.subrange(
            0,
            text.len() - events.len(),
        ));
    }
}

/// Replaying the change from `old` to `new` on `old` gives `new`.
pub proof fn lemma_delta_replays(old: Seq<char>, new: Seq<char>, events: Seq<KbEvent>)
    requires
        is_delta(old, new, events),
    ensures
        apply_events(old, events) == new,
{
    lemma_common_prefix(old, new);
    let c = common_prefix_len(old, new);
    let removed = old.len() - c;
    let bs = events.subrange(0, removed as int);
    assert forall|i: int| 0 <= i < bs.len() implies #[trigger] bs[i] is Backspace by {
        assert(bs[i] == events[i]);
    }
    lemma_backspaces(old, bs);
    assert(old.subrange(0, c as int) =~= new.subrange(0, c as int));
    if c < new.len() {
        let tail = events.subrange(removed as int, events.len() as int);
        assert(events =~= bs + tail);
        lemma_apply_concat(old, bs, tail);
        assert(tail.drop_last() =~= Seq::<KbEvent>::empty());
        assert(tail.last() == events.last());
        assert(new.subrange(0, c as int) + new.subrange(c as int, new.len() as int) =~= new);
    } else {
        assert(events =~= bs);
        assert(new.subrange(0, c as int) =~= new);
    }
}

/// What the runtime reconstructs from the queue stays in step with the
/// field: if replaying the queued events on a base text gives the previous
/// field text, then after queueing the change to `new` the replay gives
/// `new`.
pub proof fn lemma_queue_tracks_text(
    base: Seq<char>,
    queued: Seq<KbEvent>,
    old: Seq<char>,
    new: Seq<char>,
    change: Seq<KbEvent>,
)
    requires
        apply_events(base, queued) == old,
        is_delta(old, new, change),
    ensures
        apply_events(base, queued + change) == new,
{
    lemma_apply_concat(base, queued, change);
    lemma_delta_replays(old, new, change);
}

/// The shim's state: whether the hidden field exists, whether it holds the
/// keyboard, the last text seen and the events not yet drained.
pub struct SoftKeyboard {
    attached: bool,
    active: bool,
    last_text: String,
    queue: Vec<KbEvent>,
}

impl SoftKeyboard {
    /// Nothing attached, nothing queued.
    pub fn new() -> (k: Self)
        ensures
            !k.attached(),
            !k.active(),
            k.last_text() == Seq::<char>::empty(),
            k.queued() == Seq::<KbEvent>::empty(),
    {
        SoftKeyboard { attached: false, active: false, last_text: String::new(), queue: Vec::new() }
    }

    pub closed spec fn attached(&self) -> bool {
        self.attached
    }

    pub closed spec fn active(&self) -> bool {
        self.active
    }

    pub closed spec fn last_text(&self) -> Seq<char> {
        self.last_text@
    }

    pub closed spec fn queued(&self) -> Seq<KbEvent> {
        self.queue@
    }

    /// Whether the hidden field has been attached to the window.
    pub fn is_attached(&self) -> (b: bool)
        ensures
            b == self.attached(),
    {
        self.attached
    }

    /// Records that the platform code attached the hidden field (it does so
    /// once; attaching again is a no-op).
    pub fn note_attached(&mut self)
        ensures
            final(self).attached(),
            final(self).active() == old(self).active(),
            final(self).last_text() == old(self).last_text(),
            final(self).queued() == old(self).queued(),
    {
        self.attached = true;
    }

    /// Whether a text change should wake the window: only once the field is
    /// attached (the window is known from then on).
    pub fn request_redraw(&self) -> (wake: bool)
        ensures
            wake == self.attached(),
    {
        self.attached
    }

    /// Compares `new` with the last text seen and queues the change: one
    /// backspace per removed character after the common prefix, then the
    /// added tail as one insertion. `new` becomes the last text seen.
    pub fn push_delta(&mut self, new: &str)
        ensures
            final(self).queued() == old(self).queued() + final(self).queued().subrange(
                old(self).queued().len() as int,
                final(self).queued().len() as int,
            ),
            is_delta(
                old(self).last_text(),
                new@,
                final(self).queued().subrange(
                    old(self).queued().len() as int,
                    final(self).queued().len() as int,
                ),
            ),
            final(self).last_text() == new@,
            final(self).attached() == old(self).attached(),
            final(self).active() == old(self).active(),
    {
        let old_chars = chars_of(self.last_text.as_str());
        let new_chars = chars_of(new);
        let ghost start = self.queue@;
        let mut common: usize = 0;
        while common < old_chars.len() && common < new_chars.len() && old_chars[common]
            == new_chars[common]
            invariant
                common <= old_chars@.len(),
                common <= new_chars@.len(),
                forall|i: int| 0 <= i < common ==> old_chars@[i] == new_chars@[i],
            decreases old_chars@.len() - common,
        {
            common += 1;
        }
        proof {
            lemma_common_prefix(old_chars@, new_chars@);
            let c = common_prefix_len(old_chars@, new_chars@);
            if (common as nat) < c {
                assert(old_chars@[common as int] == new_chars@[common as int]);
            }
            if c < (common as nat) {
                assert(old_chars@[c as int] == new_chars@[c as int]);
            }
        }
        let mut k = common;
        while k < old_chars.len()
            invariant
                common <= k <= old_chars@.len(),
                self.queue@.len() == start.len() + (k - common),
                self.queue@.subrange(0, start.len() as int) == start,
                forall|i: int|
                    start.len() <= i < self.queue@.len() ==> #[trigger] self.queue@[i] is Backspace,
                self.attached == old(self).attached,
                self.active == old(self).active,
                self.last_text == old(self).last_text,
            decreases old_chars@.len() - k,
        {
            self.queue.push(KbEvent::Backspace);
            assert(self.queue@.subrange(0, start.len() as int) =~= start);
            k += 1;
        }
        if common < new_chars.len() {
            let mut added: Vec<char> = Vec::new();
            let mut j = common;
            while j < new_chars.len()
                invariant
                    common <= j <= new_chars@.len(),
                    added@ == new_chars@.subrange(common as int, j as int),
                decreases new_chars@.len() - j,
            {
                added.push(new_chars[j]);
                assert(added@ =~= new_chars@.subrange(common as int, (j + 1) as int));
                j += 1;
            }
            let text = string_from_chars(added.as_slice());
            self.queue.push(KbEvent::Text(text));
            assert(self.queue@.subrange(0, start.len() as int) =~= start);
        }
        let ghost change = self.queue@.subrange(start.len() as int, self.queue@.len() as int);
        assert(self.queue@ =~= start + change);
        assert forall|i: int| 0 <= i < old_chars@.len() - common implies #[trigger] change[i] is Backspace by {
            assert(change[i] == self.queue@[start.len() + i]);
        }
        self.last_text = string_from_chars(new_chars.as_slice());
    }

    /// Follows focus: raise the keyboard when a field is focused, dismiss it
    /// otherwise. Only a transition does anything, and only once the field is
    /// attached. Dismissing also forgets the last text, so the next focus
    /// starts clean.
    pub fn set_active(&mut self, active: bool) -> (cmd: Option<FieldCommand>)
        ensures
            !old(self).attached() || old(self).active() == active ==> {
                &&& cmd is None
                &&& final(self).active() == old(self).active()
                &&& final(self).last_text() == old(self).last_text()
            },
            old(self).attached() && old(self).active() != active && active ==> {
                &&& cmd == Some(FieldCommand::BecomeFirstResponder)
                &&& final(self).active()
                &&& final(self).last_text() == old(self).last_text()
            },
            old(self).attached() && old(self).active() != active && !active ==> {
                &&& cmd == Some(FieldCommand::ResignAndClear)
                &&& !final(self).active()
                &&& final(self).last_text() == Seq::<char>::empty()
            },
            final(self).attached() == old(self).attached(),
            final(self).queued() == old(self).queued(),
    {
        if !self.attached || self.active == active {
            return None;
        }
        self.active = active;
        if active {
            Some(FieldCommand::BecomeFirstResponder)
        } else {
            self.last_text = String::new();
            Some(FieldCommand::ResignAndClear)
        }
    }

    /// Takes every queued event, oldest first, leaving the queue empty.
    pub fn drain(&mut self) -> (events: Vec<KbEvent>)
        ensures
            events@ == old(self).queued(),
            final(self).queued() == Seq::<KbEvent>::empty(),
            final(self).attached() == old(self).attached(),
            final(self).active() == old(self).active(),
            final(self).last_text() == old(self).last_text(),
    {
        let mut out: Vec<KbEvent> = Vec::new();
        std::mem::swap(&mut out, &mut self.queue);
        out
    }
}

} // verus!
