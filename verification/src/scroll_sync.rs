//! Routing wheel / trackpad scrolling to managed scroll containers.
//!
//! A wheel event goes to the innermost managed container under the pointer
//! that can still move in the event's direction; a container sitting at its
//! end lets the wheel through to the next one out, and when none can move
//! the application gets the event. During one trackpad gesture (from
//! `Started` to `Ended` / `Cancelled`) the destination chosen first is kept,
//! so the page behind a list does not start moving the moment the list hits
//! its end; momentum that follows the gesture goes to the same container and
//! stops at its end instead of spilling outwards. A notched wheel has no
//! gesture and is resolved afresh for every notch.
//!
//! Hit testing and the scroll physics work in floating point and stay with
//! the caller, which describes the pointer's surroundings as a list of
//! [`WheelCandidate`]s (front to back) and applies the scroll that
//! [`WheelLatch::route`] decides.

use vstd::prelude::*;

use crate::input::WheelPhase;

verus! {

/// A hit region under the pointer that carries an id, listed front to back.
pub struct WheelCandidate {
    /// The region's id.
    pub id: String,
    /// A managed scroll container is registered under this id.
    pub managed: bool,
    /// That container can still move in the event's direction.
    pub can_consume: bool,
}

/// The routing decision for one wheel event.
pub struct WheelRoute {
    /// The managed container to scroll by the event's delta, if any.
    pub scroll: Option<String>,
    /// Whether a managed container took the event (when `false` the
    /// application receives it).
    pub consumed: bool,
}

/// The latch, as a value.
pub struct LatchView {
    pub in_gesture: bool,
    pub target: Option<Seq<char>>,
}

pub open spec fn opt_view(o: Option<String>) -> Option<Seq<char>> {
    match o {
        Some(s) => Some(s@),
        None => None,
    }
}

pub open spec fn scrollable(c: WheelCandidate) -> bool {
    c.managed && c.can_consume
}

/// Index of the first managed candidate at or after `from` whose id is
/// `id`; the length when there is none.
pub open spec fn index_of_id(cands: Seq<WheelCandidate>, id: Seq<char>, from: int) -> int
    decreases cands.len() - from,
{
    if from < 0 || from >= cands.len() {
        cands.len() as int
    } else if cands[from].managed && cands[from].id@ == id {
        from
    } else {
        index_of_id(cands, id, from + 1)
    }
}

/// Index of the first scrollable candidate at or after `from`; the length
/// when there is none.
pub open spec fn first_scrollable(cands: Seq<WheelCandidate>, from: int) -> int
    decreases cands.len() - from,
{
    if from < 0 || from >= cands.len() {
        cands.len() as int
    } else if scrollable(cands[from]) {
        from
    } else {
        first_scrollable(cands, from + 1)
    }
}

/// Some candidate is a managed container.
pub open spec fn any_managed(cands: Seq<WheelCandidate>) -> bool {
    exists|i: int| 0 <= i < cands.len() && #[trigger] cands[i].managed
}

/// The container that a phase-less route picks: the first scrollable one.
pub open spec fn resolved(cands: Seq<WheelCandidate>) -> Option<Seq<char>> {
    let k = first_scrollable(cands, 0);
    if k < cands.len() {
        Some(cands[k].id@)
    } else {
        None
    }
}

/// One routing step: the new latch, the container to scroll and whether the
/// event was consumed. `zero` says the event carries no movement (a phase
/// notification alone).
pub open spec fn route_step(
    l: LatchView,
    cands: Seq<WheelCandidate>,
    precise: bool,
    phase: WheelPhase,
    zero: bool,
) -> (LatchView, Option<Seq<char>>, bool) {
    // A notched wheel has no gesture; a precise `Started` opens a new one.
    let l1 = if !precise || phase == WheelPhase::Started {
        LatchView { in_gesture: precise, target: None }
    } else {
        l
    };
    // Forget a target that is no longer under the pointer.
    let l2 = match l1.target {
        Some(id) => if index_of_id(cands, id, 0) < cands.len() {
            l1
        } else {
            LatchView { in_gesture: l1.in_gesture, target: None }
        },
        None => l1,
    };
    let (l3, scroll, consumed) = match l2.target {
        Some(id) => {
            let k = index_of_id(cands, id, 0);
            let moves = !zero && (l2.in_gesture || cands[k].can_consume);
            (l2, if moves { Some(id) } else { None }, true)
        },
        None => if !zero {
            match resolved(cands) {
                Some(id) => (
                    if l2.in_gesture {
                        LatchView { in_gesture: true, target: Some(id) }
                    } else {
                        l2
                    },
                    Some(id),
                    true,
                ),
                None => (l2, None, false),
            }
        } else {
            (l2, None, any_managed(cands))
        },
    };
    let l4 = if phase == WheelPhase::Ended || phase == WheelPhase::Cancelled {
        LatchView { in_gesture: false, target: l3.target }
    } else {
        l3
    };
    (l4, scroll, consumed)
}

fn find_id(cands: &Vec<WheelCandidate>, id: &String) -> (k: usize)
    ensures
        k == index_of_id(cands@, id@, 0),
        k <= cands@.len(),
{
    let mut i: usize = 0;
    while i < cands.len()
        invariant
            i <= cands@.len(),
            index_of_id(cands@, id@, 0) == index_of_id(cands@, id@, i as int),
        decreases cands@.len() - i,
    {
        if cands[i].managed && cands[i].id == *id {
            return i;
        }
        i += 1;
    }
    i
}

fn find_scrollable(cands: &Vec<WheelCandidate>) -> (k: usize)
    ensures
        k == first_scrollable(cands@, 0),
        k <= cands@.len(),
{
    let mut i: usize = 0;
    while i < cands.len()
        invariant
            i <= cands@.len(),
            first_scrollable(cands@, 0) == first_scrollable(cands@, i as int),
        decreases cands@.len() - i,
    {
        if cands[i].managed && cands[i].can_consume {
            return i;
        }
        i += 1;
    }
    i
}

fn find_managed(cands: &Vec<WheelCandidate>) -> (b: bool)
    ensures
        b == any_managed(cands@),
{
    let mut i: usize = 0;
    while i < cands.len()
        invariant
            i <= cands@.len(),
            forall|j: int| 0 <= j < i ==> !(#[trigger] cands@[j]).managed,
        decreases cands@.len() - i,
    {
        if cands[i].managed {
            return true;
        }
        i += 1;
    }
    false
}

/// Routes one event without any gesture memory: the first scrollable
/// container under the pointer takes it. The event is consumed exactly when
/// a container is returned.
pub fn route_wheel(cands: &Vec<WheelCandidate>) -> (target: Option<String>)
    ensures
        opt_view(target) == resolved(cands@),
{
    let k = find_scrollable(cands);
    if k < cands.len() {
        Some(cands[k].id.clone())
    } else {
        None
    }
}

/// Keeps the destination of a trackpad gesture fixed from `Started` to
/// `Ended` / `Cancelled` (and for the momentum after it).
#[derive(Debug, Default)]
pub struct WheelLatch {
    in_gesture: bool,
    target: Option<String>,
}

impl WheelLatch {
    pub closed spec fn latch_view(&self) -> LatchView {
        LatchView { in_gesture: self.in_gesture, target: opt_view(self.target) }
    }

    /// No gesture, no target.
    pub fn new() -> (l: Self)
        ensures
            l.latch_view() == (LatchView { in_gesture: false, target: None }),
    {
        WheelLatch { in_gesture: false, target: None }
    }

    /// The id of the container the current gesture is latched to.
    pub fn target(&self) -> (t: Option<&str>)
        ensures
            match t {
                Some(s) => self.latch_view().target == Some(s@),
                None => self.latch_view().target is None,
            },
    {
        match &self.target {
            Some(s) => Some(s.as_str()),
            None => None,
        }
    }

    /// Routes one wheel event. `precise` is false for a notched wheel;
    /// `zero` says both deltas are zero. The caller scrolls the returned
    /// container by the event's delta and forwards the event to the
    /// application when it was not consumed.
    pub fn route(
        &mut self,
        cands: &Vec<WheelCandidate>,
        precise: bool,
        phase: WheelPhase,
        zero: bool,
    ) -> (r: WheelRoute)
        ensures
            ({
                let (l, scroll, consumed) = route_step(
                    old(self).latch_view(),
                    cands@,
                    precise,
                    phase,
                    zero,
                );
                &&& final(self).latch_view() == l
                &&& opt_view(r.scroll) == scroll
                &&& r.consumed == consumed
            }),
    {
        if !precise || phase == WheelPhase::Started {
            self.in_gesture = precise;
            self.target = None;
        }
        let still_there = match &self.target {
            Some(id) => find_id(cands, id) < cands.len(),
            None => true,
        };
        if !still_there {
            self.target = None;
        }
        let mut scroll: Option<String> = None;
        let mut consumed = false;
        match &self.target {
            Some(id) => {
                let k = find_id(cands, id);
                if !zero && (self.in_gesture || cands[k].can_consume) {
                    scroll = Some(id.clone());
                }
                consumed = true;
            },
            None => {},
        }
        if !consumed && !zero {
            let k = find_scrollable(cands);
            if k < cands.len() {
                scroll = Some(cands[k].id.clone());
                consumed = true;
                if self.in_gesture {
                    self.target = Some(cands[k].id.clone());
                }
            }
        }
        if !consumed && zero {
            consumed = find_managed(cands);
        }
        if phase == WheelPhase::Ended || phase == WheelPhase::Cancelled {
            self.in_gesture = false;
        }
        WheelRoute { scroll, consumed }
    }
}

/// A new trackpad gesture forgets the old one: a precise `Started` event
/// is routed as if no gesture had ever been latched, whatever the latch
/// held. When it moves, it scrolls the frontmost candidate that is a
/// managed container able to move, latching the new gesture to it (or,
/// when there is none, nothing is consumed and nothing is latched).
pub proof fn lemma_a_new_gesture_relatches(l: LatchView, cands: Seq<WheelCandidate>, zero: bool)
    ensures
        route_step(l, cands, true, WheelPhase::Started, zero) == route_step(
            LatchView { in_gesture: false, target: None },
            cands,
            true,
            WheelPhase::Started,
            zero,
        ),
        !zero ==> {
            let (l2, scroll, consumed) = route_step(l, cands, true, WheelPhase::Started, zero);
            match scroll {
                Some(id) => exists|k: int|
                    {
                        &&& 0 <= k < cands.len()
                        &&& cands[k].managed && cands[k].can_consume
                        &&& cands[k].id@ == id
                        &&& forall|j: int| 0 <= j < k ==> !(#[trigger] cands[j].managed && cands[j].can_consume)
                        &&& consumed
                        &&& l2 == LatchView { in_gesture: true, target: Some(id) }
                    },
                None => !consumed && l2.target is None && forall|j: int|
                    0 <= j < cands.len() ==> !(#[trigger] cands[j].managed && cands[j].can_consume),
            }
        },
{
    if !zero {
        lemma_first_scrollable_is_first(cands, 0);
    }
}

/// A notched wheel keeps no gesture: each notch is routed as if nothing
/// had been latched before.
pub proof fn lemma_notches_are_routed_afresh(
    l: LatchView,
    cands: Seq<WheelCandidate>,
    phase: WheelPhase,
    zero: bool,
)
    ensures
        route_step(l, cands, false, phase, zero) == route_step(
            LatchView { in_gesture: false, target: None },
            cands,
            false,
            phase,
            zero,
        ),
{
}

/// `first_scrollable` finds the first scrollable candidate at or after
/// `from`, or the length when there is none.
proof fn lemma_first_scrollable_is_first(cands: Seq<WheelCandidate>, from: int)
    requires
        0 <= from <= cands.len(),
    ensures
        ({
            let k = first_scrollable(cands, from);
            &&& from <= k <= cands.len()
            &&& k < cands.len() ==> scrollable(cands[k])
            &&& forall|j: int| from <= j < k ==> !scrollable(#[trigger] cands[j])
        }),
    decreases cands.len() - from,
{
    if from < cands.len() && !scrollable(cands[from]) {
        lemma_first_scrollable_is_first(cands, from + 1);
    }
}

} // verus!
