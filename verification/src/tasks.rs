//! Handing the results of background work back to the UI.
//!
//! An application owns one [`Tasks`]. Starting a piece of work registers it
//! (it counts as pending and remembers the current generation); when the
//! work finishes its result is delivered and, if its generation is still the
//! current one, queued. The runtime drains the queue every frame and applies
//! each result to the application once. [`Tasks::cancel_all`] starts a new
//! generation: results of work started before it are dropped, so a screen
//! the user has left cannot overwrite the state of the new one.
//!
//! Running the work (a thread or a browser task) and sharing the inbox
//! between threads is platform code around this type; `P` is whatever that
//! code queues for each result (for example a boxed closure to apply).

use vstd::prelude::*;

verus! {

/// The results among `ready` whose generation is `g`, in order.
pub open spec fn kept<P>(ready: Seq<(u64, P)>, g: u64) -> Seq<P>
    decreases ready.len(),
{
    if ready.len() == 0 {
        Seq::empty()
    } else {
        let rest = kept(ready.drop_last(), g);
        if ready.last().0 == g {
            rest.push(ready.last().1)
        } else {
            rest
        }
    }
}

/// The inbox of background results.
pub struct Tasks<P> {
    ready: Vec<(u64, P)>,
    pending: usize,
    generation: u64,
}

impl<P> Tasks<P> {
    /// Results delivered and not yet drained, each with the generation it
    /// was started in.
    pub closed spec fn ready(&self) -> Seq<(u64, P)> {
        self.ready@
    }

    /// How many started pieces of work have not delivered yet.
    pub closed spec fn pending_count(&self) -> nat {
        self.pending as nat
    }

    /// The current generation.
    pub closed spec fn generation(&self) -> u64 {
        self.generation
    }

    /// Only current results wait in the queue.
    pub open spec fn wf(&self) -> bool {
        forall|i: int| 0 <= i < self.ready().len() ==> #[trigger] self.ready()[i].0 == self.generation()
    }

    /// Nothing pending, nothing queued, generation zero.
    pub fn new() -> (t: Self)
        ensures
            t.ready() == Seq::<(u64, P)>::empty(),
            t.pending_count() == 0,
            t.generation() == 0,
            t.wf(),
    {
        Tasks { ready: Vec::new(), pending: 0, generation: 0 }
    }

    /// The number of started pieces of work still waiting for their result.
    pub fn pending(&self) -> (n: usize)
        ensures
            n == self.pending_count(),
    {
        self.pending
    }

    /// The current generation.
    pub fn current_generation(&self) -> (g: u64)
        ensures
            g == self.generation(),
    {
        self.generation
    }

    /// Drops every result of work started so far: the generation moves on
    /// and the queue is emptied. The work itself keeps running; its result
    /// is just never applied.
    pub fn cancel_all(&mut self)
        requires
            old(self).generation() < u64::MAX,
        ensures
            final(self).generation() == old(self).generation() + 1,
            final(self).ready() == Seq::<(u64, P)>::empty(),
            final(self).pending_count() == old(self).pending_count(),
            final(self).wf(),
    {
        self.generation = self.generation + 1;
        self.ready.clear();
    }

    /// Registers a piece of work about to start and returns the generation
    /// its result must carry.
    pub fn begin(&mut self) -> (g: u64)
        requires
            old(self).pending_count() < usize::MAX,
        ensures
            g == old(self).generation(),
            final(self).pending_count() == old(self).pending_count() + 1,
            final(self).generation() == old(self).generation(),
            final(self).ready() == old(self).ready(),
            old(self).wf() ==> final(self).wf(),
    {
        self.pending = self.pending + 1;
        assert(old(self).wf() ==> forall|i: int|
            0 <= i < self.ready().len() ==> #[trigger] self.ready()[i].0 == old(self).ready()[i].0);
        self.generation
    }

    /// A piece of work started in `generation` has finished with `apply`.
    /// It stops counting as pending; its result is queued only if no
    /// cancellation happened since it started.
    pub fn deliver(&mut self, generation: u64, apply: P)
        ensures
            final(self).pending_count() == if old(self).pending_count() > 0 {
                (old(self).pending_count() - 1) as nat
            } else {
                0
            },
            final(self).generation() == old(self).generation(),
            generation == old(self).generation() ==> final(self).ready() == old(self).ready().push(
                (generation, apply),
            ),
            generation != old(self).generation() ==> final(self).ready() == old(self).ready(),
            old(self).wf() ==> final(self).wf(),
    {
        self.pending = if self.pending > 0 {
            self.pending - 1
        } else {
            0
        };
        if generation == self.generation {
            self.ready.push((generation, apply));
            assert(forall|i: int|
                0 <= i < old(self).ready().len() ==> #[trigger] self.ready()[i] == old(self).ready()[i]);
        }
    }

    /// Takes the queued results of the current generation, oldest first.
    /// The queue is left empty, so each result is handed out once.
    pub fn drain(&mut self) -> (out: Vec<P>)
        ensures
            out@ == kept(old(self).ready(), old(self).generation()),
            final(self).ready() == Seq::<(u64, P)>::empty(),
            final(self).generation() == old(self).generation(),
            final(self).pending_count() == old(self).pending_count(),
            final(self).wf(),
    {
        let current = self.generation;
        let mut ready: Vec<(u64, P)> = Vec::new();
        std::mem::swap(&mut ready, &mut self.ready);
        let ghost all = ready@;
        let mut out: Vec<P> = Vec::new();
        let ghost mut done: Seq<(u64, P)> = Seq::empty();
        while ready.len() > 0
            invariant
                done + ready@ == all,
                out@ == kept(done, current),
            decreases ready@.len(),
        {
            let item = ready.remove(0);
            proof {
                assert(done.push(item) + ready@ =~= all);
                assert(done.push(item).drop_last() =~= done);
                done = done.push(item);
            }
            let (g, a) = item;
            if g == current {
                out.push(a);
            }
        }
        assert(done =~= all);
        out
    }
}

/// One call on an inbox: [`Tasks::begin`], [`Tasks::deliver`] with the
/// generation the work carries, [`Tasks::cancel_all`] or [`Tasks::drain`].
#[derive(Clone, Copy, Debug, PartialEq, Eq, Structural)]
pub enum InboxCall {
    Begin,
    Deliver(u64),
    CancelAll,
    Drain,
}

/// `after` is what the call `c` makes of `before`, as the contract of that
/// method states it (its precondition met).
pub open spec fn inbox_step<P>(before: Tasks<P>, c: InboxCall, after: Tasks<P>) -> bool {
    match c {
        InboxCall::Begin => {
            &&& before.pending_count() < usize::MAX
            &&& after.pending_count() == before.pending_count() + 1
            &&& after.generation() == before.generation()
            &&& after.ready() == before.ready()
        },
        InboxCall::Deliver(g) => {
            &&& after.pending_count() == if before.pending_count() > 0 {
                (before.pending_count() - 1) as nat
            } else {
                0
            }
            &&& after.generation() == before.generation()
            &&& g == before.generation() ==> exists|a: P| after.ready() == before.ready().push((g, a))
            &&& g != before.generation() ==> after.ready() == before.ready()
        },
        InboxCall::CancelAll => {
            &&& before.generation() < u64::MAX
            &&& after.generation() == before.generation() + 1
            &&& after.ready() == Seq::<(u64, P)>::empty()
            &&& after.pending_count() == before.pending_count()
        },
        InboxCall::Drain => {
            &&& after.ready() == Seq::<(u64, P)>::empty()
            &&& after.generation() == before.generation()
            &&& after.pending_count() == before.pending_count()
        },
    }
}

/// `states` are the inbox before and after each of `calls`, in order.
pub open spec fn inbox_history<P>(states: Seq<Tasks<P>>, calls: Seq<InboxCall>) -> bool {
    &&& states.len() == calls.len() + 1
    &&& forall|i: int| 0 <= i < calls.len() ==> #[trigger] inbox_step(states[i], calls[i], states[i + 1])
}

/// How many of `calls` start work.
pub open spec fn begins(calls: Seq<InboxCall>) -> nat
    decreases calls.len(),
{
    if calls.len() == 0 {
        0
    } else {
        begins(calls.drop_last()) + if calls.last() is Begin {
            1nat
        } else {
            0nat
        }
    }
}

/// How many of `calls` deliver a result.
pub open spec fn deliveries(calls: Seq<InboxCall>) -> nat
    decreases calls.len(),
{
    if calls.len() == 0 {
        0
    } else {
        deliveries(calls.drop_last()) + if calls.last() is Deliver {
            1nat
        } else {
            0nat
        }
    }
}

/// The pending count is the work started minus the work delivered: over
/// any history from an inbox with nothing pending, in which no more
/// results come back than pieces of work were started, after every prefix
/// of the calls the count is the begins minus the deliveries so far
/// (cancelling and draining do not change it; once everything started has
/// delivered it is zero).
pub proof fn lemma_pending_is_started_minus_delivered<P>(states: Seq<Tasks<P>>, calls: Seq<InboxCall>)
    requires
        inbox_history(states, calls),
        states[0].pending_count() == 0,
        forall|k: int| 0 <= k <= calls.len() ==> deliveries(#[trigger] calls.take(k)) <= begins(calls.take(k)),
    ensures
        forall|i: int|
            0 <= i <= calls.len() ==> #[trigger] states[i].pending_count() == begins(calls.take(i)) - deliveries(
                calls.take(i),
            ),
    decreases calls.len(),
{
    if calls.len() > 0 {
        let n = calls.len() as int;
        let cs = calls.drop_last();
        let ss = states.drop_last();
        assert forall|i: int| 0 <= i < cs.len() implies #[trigger] inbox_step(ss[i], cs[i], ss[i + 1]) by {
            assert(inbox_step(states[i], calls[i], states[i + 1]));
        }
        assert forall|k: int| 0 <= k <= cs.len() implies deliveries(#[trigger] cs.take(k)) <= begins(cs.take(k)) by {
            assert(cs.take(k) =~= calls.take(k));
            assert(deliveries(calls.take(k)) <= begins(calls.take(k)));
        }
        lemma_pending_is_started_minus_delivered(ss, cs);
        assert forall|i: int| 0 <= i <= n implies #[trigger] states[i].pending_count() == begins(calls.take(i))
            - deliveries(calls.take(i)) by {
            if i < n {
                assert(cs.take(i) =~= calls.take(i));
                assert(ss[i] == states[i]);
                assert(ss[i].pending_count() == begins(cs.take(i)) - deliveries(cs.take(i)));
            } else {
                assert(calls.take(n).drop_last() =~= cs.take(n - 1));
                assert(cs.take(n - 1) =~= calls.take(n - 1));
                assert(ss[n - 1] == states[n - 1]);
                assert(states[n - 1].pending_count() == begins(cs.take(n - 1)) - deliveries(cs.take(n - 1)));
                assert(inbox_step(states[n - 1], calls[n - 1], states[n]));
                assert(calls.take(n).last() == calls[n - 1]);
                assert(deliveries(calls.take(n)) <= begins(calls.take(n)));
            }
        }
    }
}

/// Facts that hold after every call of a history: the queue holds only
/// results of the current generation, and the generation never goes back.
proof fn lemma_history_generations<P>(states: Seq<Tasks<P>>, calls: Seq<InboxCall>, i: int)
    requires
        inbox_history(states, calls),
        states[0].wf(),
        0 <= i <= calls.len(),
    ensures
        states[i].wf(),
        forall|j: int| 0 <= j <= i ==> #[trigger] states[j].generation() <= states[i].generation(),
    decreases i,
{
    if i > 0 {
        lemma_history_generations(states, calls, i - 1);
        let h = i - 1;
        assert(inbox_step(states[h], calls[h], states[h + 1]));
        let before = states[h];
        let after = states[h + 1];
        match calls[h] {
            InboxCall::Deliver(g) => {
                if g == before.generation() {
                    let a = choose|a: P| after.ready() == before.ready().push((g, a));
                    assert forall|k: int| 0 <= k < after.ready().len() implies #[trigger] after.ready()[k].0
                        == after.generation() by {
                        if k < before.ready().len() {
                            assert(after.ready()[k] == before.ready()[k]);
                        }
                    }
                }
            },
            _ => {},
        }
    }
}

/// Cancelling drops earlier work for good: if work was started at call `b`
/// (carrying the generation current then) and the inbox was cancelled at
/// a later call `c`, then after every call from `c` on the generation is
/// past that work's and nothing queued carries it, so no drain after the
/// cancellation hands its result out (a drain hands out the queued results
/// of the current generation only), even if it is delivered afterwards.
pub proof fn lemma_cancelled_work_never_drains<P>(states: Seq<Tasks<P>>, calls: Seq<InboxCall>, b: int, c: int)
    requires
        inbox_history(states, calls),
        states[0].wf(),
        0 <= b < c < calls.len(),
        calls[b] is Begin,
        calls[c] is CancelAll,
    ensures
        forall|i: int|
            c < i <= calls.len() ==> {
                &&& #[trigger] states[i].generation() > states[b].generation()
                &&& forall|k: int|
                    0 <= k < states[i].ready().len() ==> #[trigger] states[i].ready()[k].0 != states[b].generation()
            },
{
    lemma_history_generations(states, calls, c);
    assert(inbox_step(states[c], calls[c], states[c + 1]));
    assert forall|i: int| c < i <= calls.len() implies {
        &&& #[trigger] states[i].generation() > states[b].generation()
        &&& forall|k: int|
            0 <= k < states[i].ready().len() ==> #[trigger] states[i].ready()[k].0 != states[b].generation()
    } by {
        lemma_history_generations(states, calls, i);
        assert(states[c + 1].generation() <= states[i].generation());
        assert(states[b].generation() <= states[c].generation());
    }
}

/// Work that starts and then delivers leaves the pending count where it
/// was: `after_begin` is the inbox after [`Tasks::begin`] on `before`, and
/// `after_deliver` the inbox after [`Tasks::deliver`] on `after_begin`.
pub proof fn lemma_delivered_work_is_no_longer_pending<P>(
    before: Tasks<P>,
    after_begin: Tasks<P>,
    after_deliver: Tasks<P>,
)
    requires
        after_begin.pending_count() == before.pending_count() + 1,
        after_deliver.pending_count() == if after_begin.pending_count() > 0 {
            (after_begin.pending_count() - 1) as nat
        } else {
            0
        },
    ensures
        after_deliver.pending_count() == before.pending_count(),
{
}

/// A result never applies twice: once drained, a second drain finds
/// nothing.
pub proof fn lemma_result_applies_once<P>(current: u64)
    ensures
        kept(Seq::<(u64, P)>::empty(), current) == Seq::<P>::empty(),
{
}

/// A cancelled result never applies: work started in generation `g` that
/// finishes after a cancellation (the current generation is then past `g`)
/// leaves the queue as it was, and draining yields only results of the
/// current generation.
pub proof fn lemma_cancelled_results_are_dropped<P>(
    ready: Seq<(u64, P)>,
    started: u64,
    current: u64,
    apply: P,
)
    requires
        started < current,
    ensures
        kept(ready.push((started, apply)), current) == kept(ready, current),
{
    assert(ready.push((started, apply)).drop_last() =~= ready);
}

/// A result delivered in the current generation is applied, after the ones
/// delivered before it.
pub proof fn lemma_current_result_applies<P>(ready: Seq<(u64, P)>, current: u64, apply: P)
    ensures
        kept(ready.push((current, apply)), current) == kept(ready, current).push(apply),
{
    assert(ready.push((current, apply)).drop_last() =~= ready);
}

} // verus!
