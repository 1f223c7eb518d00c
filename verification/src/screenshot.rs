//! Start up, wait until the screen settles, write it to a PNG and quit.
//!
//! With a screenshot path configured, the runtime asks for a read-back of
//! the first frame after which nothing is left to draw, writes it to the
//! path and exits. Without the path nothing happens. A frame is never shot
//! before one has been drawn (that would be a blank image that looks like a
//! success), only one read-back is ever requested, and a screen that never
//! settles (a clock, particles) is still shot once the timeout has passed.
//!
//! | switch | default | meaning |
//! |---|---|---|
//! | path | none | where to write; without it nothing happens |
//! | after idle | on | off (`0` / `false`) shoots the first drawn frame |
//! | timeout (ms) | 10000 | shoot anyway after this long without settling |
//!
//! Reading the switches from the environment and writing the file are done
//! by the platform code; this module decides when to shoot.

use vstd::prelude::*;

use crate::std_support::chars_of;

verus! {

#[verifier::external_type_specification]
#[verifier::external_body]
pub struct ExPathBuf(std::path::PathBuf);

#[verifier::external_type_specification]
#[verifier::external_body]
pub struct ExInstant(std::time::Instant);

/// The time now (`Instant::now`).
#[verifier::external_body]
fn instant_now() -> std::time::Instant {
    std::time::Instant::now()
}

/// Whole milliseconds elapsed since `t` (`Instant::elapsed`, truncated to
/// `u64` as `as` does). It depends on the clock, so nothing is claimed of
/// it.
#[verifier::external_body]
fn elapsed_ms(t: &std::time::Instant) -> u64 {
    t.elapsed().as_millis() as u64
}

/// The timeout used when none (or an unreadable one) is configured.
pub const DEFAULT_TIMEOUT_MS: u64 = 10_000;

/// What to shoot and when.
#[derive(Debug)]
pub struct Plan {
    pub path: std::path::PathBuf,
    /// Wait for the screen to settle; `false` shoots the first drawn frame.
    pub after_idle: bool,
    /// Give up waiting after this many milliseconds.
    pub timeout_ms: u64,
}

/// The decimal value of a sequence of ASCII digits.
pub open spec fn digits_value(s: Seq<char>) -> int
    decreases s.len(),
{
    if s.len() == 0 {
        0
    } else {
        digits_value(s.drop_last()) * 10 + (s.last() as int - '0' as int)
    }
}

pub open spec fn all_digits(s: Seq<char>) -> bool {
    forall|i: int| 0 <= i < s.len() ==> '0' <= #[trigger] s[i] <= '9'
}

/// What `u64::from_str` accepts: an optional `+`, then one or more ASCII
/// digits whose value fits in a `u64`.
pub open spec fn parse_u64_spec(s: Seq<char>) -> Option<u64> {
    let d = if s.len() > 0 && s[0] == '+' {
        s.drop_first()
    } else {
        s
    };
    if d.len() > 0 && all_digits(d) && digits_value(d) <= u64::MAX {
        Some(digits_value(d) as u64)
    } else {
        None
    }
}

proof fn lemma_digits_value_nonneg(s: Seq<char>)
    requires
        all_digits(s),
    ensures
        digits_value(s) >= 0,
    decreases s.len(),
{
    if s.len() > 0 {
        assert(all_digits(s.drop_last())) by {
            assert forall|i: int| 0 <= i < s.drop_last().len() implies '0' <= #[trigger] s.drop_last()[i] <= '9' by {
                assert(s.drop_last()[i] == s[i]);
            }
        }
        lemma_digits_value_nonneg(s.drop_last());
        assert('0' <= s[s.len() - 1] <= '9');
    }
}

/// Parses a decimal `u64` the way `u64::from_str` does.
pub fn parse_u64(s: &str) -> (r: Option<u64>)
    ensures
        r == parse_u64_spec(s@),
{
    let chars = chars_of(s);
    let n = chars.len();
    let start: usize = if n > 0 && chars[0] == '+' {
        1
    } else {
        0
    };
    let ghost d = if s@.len() > 0 && s@[0] == '+' {
        s@.drop_first()
    } else {
        s@
    };
    assert(d =~= chars@.subrange(start as int, n as int));
    if start >= n {
        return None;
    }
    let mut value: u64 = 0;
    let mut i = start;
    while i < n
        invariant
            start <= i <= n,
            n == chars@.len(),
            chars@ == s@,
            d == (if s@.len() > 0 && s@[0] == '+' {
                s@.drop_first()
            } else {
                s@
            }),
            d.len() > 0,
            d == chars@.subrange(start as int, n as int),
            all_digits(chars@.subrange(start as int, i as int)),
            value == digits_value(chars@.subrange(start as int, i as int)),
        decreases n - i,
    {
        let c = chars[i];
        let ghost prefix = chars@.subrange(start as int, i as int);
        let ghost next = chars@.subrange(start as int, (i + 1) as int);
        assert(next.drop_last() =~= prefix);
        assert(next.last() == c);
        if !('0' <= c && c <= '9') {
            assert(!all_digits(d)) by {
                assert(d[i - start] == c);
            }
            assert(parse_u64_spec(s@) is None);
            return None;
        }
        let digit = (c as u32 - '0' as u32) as u64;
        if value > (u64::MAX - digit) / 10 {
            proof {
                lemma_digits_value_nonneg(prefix);
                assert(digits_value(next) == digits_value(prefix) * 10 + (c as int - '0' as int));
                assert(digit == c as int - '0' as int);
                assert(digits_value(next) > u64::MAX) by (nonlinear_arith)
                    requires
                        digits_value(next) == value * 10 + digit,
                        value > (u64::MAX - digit) / 10,
                        digit <= 9,
                ;
                // the value only grows with more digits
                lemma_prefix_value_bound(d, (i + 1 - start) as int);
                assert(d.subrange(0, (i + 1 - start) as int) =~= next);
                if all_digits(d) {
                    assert(digits_value(d) > u64::MAX);
                }
                assert(parse_u64_spec(s@) is None);
            }
            return None;
        }
        proof {
            assert(all_digits(next)) by {
                assert forall|k: int| 0 <= k < next.len() implies '0' <= #[trigger] next[k] <= '9' by {
                    if k < prefix.len() {
                        assert(next[k] == prefix[k]);
                    }
                }
            }
            assert(value * 10 + digit <= u64::MAX) by (nonlinear_arith)
                requires
                    value <= (u64::MAX - digit) / 10,
                    digit <= 9,
            ;
        }
        value = value * 10 + digit;
        i += 1;
    }
    assert(chars@.subrange(start as int, n as int) == d);
    Some(value)
}

/// A longer run of digits has at least the value of its prefix.
proof fn lemma_prefix_value_bound(d: Seq<char>, k: int)
    requires
        0 <= k <= d.len(),
    ensures
        all_digits(d) ==> digits_value(d.subrange(0, k)) <= digits_value(d),
    decreases d.len() - k,
{
    if k == d.len() {
        assert(d.subrange(0, k) =~= d);
    } else if all_digits(d) {
        lemma_prefix_value_bound(d, k + 1);
        let a = d.subrange(0, k);
        let b = d.subrange(0, k + 1);
        assert(b.drop_last() =~= a);
        assert(all_digits(a)) by {
            assert forall|i: int| 0 <= i < a.len() implies '0' <= #[trigger] a[i] <= '9' by {
                assert(a[i] == d[i]);
            }
        }
        lemma_digits_value_nonneg(a);
        assert(b.last() == d[k]);
        assert('0' <= d[k] <= '9');
        assert(digits_value(a) <= digits_value(b)) by (nonlinear_arith)
            requires
                digits_value(b) == digits_value(a) * 10 + (b.last() as int - '0' as int),
                digits_value(a) >= 0,
                b.last() as int - '0' as int >= 0,
        ;
    }
}

/// A switch value that turns waiting for idle off: exactly `0` or `false`.
pub open spec fn is_off_switch(s: Seq<char>) -> bool {
    s == seq!['0'] || s == seq!['f', 'a', 'l', 's', 'e']
}

fn off_switch(s: &str) -> (b: bool)
    ensures
        b == is_off_switch(s@),
{
    let c = chars_of(s);
    if c.len() == 1 {
        let r = c[0] == '0';
        if !r {
            assert(c@ != seq!['0']);
        } else {
            assert(c@ =~= seq!['0']);
        }
        assert(c@ != seq!['f', 'a', 'l', 's', 'e']);
        r
    } else if c.len() == 5 {
        let r = c[0] == 'f' && c[1] == 'a' && c[2] == 'l' && c[3] == 's' && c[4] == 'e';
        if r {
            assert(c@ =~= seq!['f', 'a', 'l', 's', 'e']);
        } else {
            assert(c@ != seq!['f', 'a', 'l', 's', 'e']);
        }
        assert(c@ != seq!['0']);
        r
    } else {
        assert(c@ != seq!['0']);
        assert(c@ != seq!['f', 'a', 'l', 's', 'e']);
        false
    }
}

/// Builds the plan from the switch values as read (`None` for a switch
/// that is not set or not readable): waiting for idle is on unless the
/// switch is `0` or `false`; the timeout is the switch parsed as a `u64`,
/// or the default when it is missing or does not parse.
pub fn plan_with(path: std::path::PathBuf, after_idle: Option<String>, timeout_ms: Option<String>) -> (p: Plan)
    ensures
        p.path == path,
        p.after_idle == match after_idle {
            Some(s) => !is_off_switch(s@),
            None => true,
        },
        p.timeout_ms == match timeout_ms {
            Some(s) => match parse_u64_spec(s@) {
                Some(v) => v,
                None => DEFAULT_TIMEOUT_MS,
            },
            None => DEFAULT_TIMEOUT_MS,
        },
{
    let wait = match &after_idle {
        Some(s) => !off_switch(s.as_str()),
        None => true,
    };
    let timeout = match &timeout_ms {
        Some(s) => match parse_u64(s.as_str()) {
            Some(v) => v,
            None => DEFAULT_TIMEOUT_MS,
        },
        None => DEFAULT_TIMEOUT_MS,
    };
    Plan { path, after_idle: wait, timeout_ms: timeout }
}

/// Whether a read-back should be requested, given whether the frame was
/// idle and whether the timeout has passed.
pub open spec fn should_request_spec(
    planned: bool,
    after_idle: bool,
    requested: bool,
    drew_once: bool,
    idle: bool,
    timed_out: bool,
) -> bool {
    planned && !requested && drew_once && (!after_idle || idle || timed_out)
}

/// How far the shooter has got.
#[derive(Debug)]
pub struct Shooter {
    plan: Option<Plan>,
    drew_once: bool,
    requested: bool,
    started: Option<std::time::Instant>,
}

impl Shooter {
    pub closed spec fn planned(&self) -> bool {
        self.plan is Some
    }

    /// The plan's after-idle switch (`true` without a plan).
    pub closed spec fn waits_for_idle(&self) -> bool {
        match self.plan {
            Some(p) => p.after_idle,
            None => true,
        }
    }

    /// The plan's timeout (zero without a plan).
    pub closed spec fn timeout(&self) -> u64 {
        match self.plan {
            Some(p) => p.timeout_ms,
            None => 0,
        }
    }

    pub closed spec fn drew_once(&self) -> bool {
        self.drew_once
    }

    pub closed spec fn requested(&self) -> bool {
        self.requested
    }

    /// Where the screenshot goes (none without a plan).
    pub closed spec fn path_of(&self) -> Option<std::path::PathBuf> {
        match self.plan {
            Some(p) => Some(p.path),
            None => None,
        }
    }

    /// When the clock started (none before the first drawn frame).
    pub closed spec fn start_time(&self) -> Option<std::time::Instant> {
        self.started
    }

    /// The clock has been started (by the first drawn frame).
    pub closed spec fn started(&self) -> bool {
        self.started is Some
    }

    /// A shooter following `plan` (none: it never shoots).
    pub fn new(plan: Option<Plan>) -> (s: Self)
        ensures
            s.planned() == (plan is Some),
            plan matches Some(p) ==> s.waits_for_idle() == p.after_idle && s.timeout() == p.timeout_ms,
            s.path_of() == match plan {
                Some(p) => Some(p.path),
                None => None,
            },
            !s.drew_once(),
            !s.requested(),
            !s.started(),
    {
        Shooter { plan, drew_once: false, requested: false, started: None }
    }

    /// Whether a screenshot was asked for at all.
    pub fn armed(&self) -> (b: bool)
        ensures
            b == self.planned(),
    {
        self.plan.is_some()
    }

    /// A frame has been drawn. The first one starts the clock.
    pub fn note_drew(&mut self)
        ensures
            final(self).drew_once(),
            final(self).started(),
            final(self).planned() == old(self).planned(),
            final(self).waits_for_idle() == old(self).waits_for_idle(),
            final(self).timeout() == old(self).timeout(),
            final(self).requested() == old(self).requested(),
            final(self).path_of() == old(self).path_of(),
            old(self).started() ==> final(self).start_time() == old(self).start_time(),
    {
        self.drew_once = true;
        if self.started.is_none() {
            self.started = Some(instant_now());
        }
    }

    /// Whether the timeout has passed, given the milliseconds elapsed since
    /// the clock started (`None` when it has not started).
    pub fn timed_out_after(&self, elapsed: Option<u64>) -> (b: bool)
        ensures
            b == (self.planned() && match elapsed {
                Some(e) => e >= self.timeout(),
                None => false,
            }),
    {
        match &self.plan {
            None => false,
            Some(plan) => match elapsed {
                Some(e) => e >= plan.timeout_ms,
                None => false,
            },
        }
    }

    /// Whether the timeout has passed. It reads the clock, so only what
    /// holds for every reading is stated: never before the clock started,
    /// and always with a zero timeout once it has.
    pub fn timed_out(&self) -> (b: bool)
        ensures
            b ==> self.planned() && self.started(),
            self.planned() && self.started() && self.timeout() == 0 ==> b,
    {
        let elapsed = match &self.started {
            Some(t) => Some(elapsed_ms(t)),
            None => None,
        };
        self.timed_out_after(elapsed)
    }

    /// Whether to request the read-back now, given whether this frame had
    /// nothing to draw and whether the timeout has passed: only with a
    /// plan, never twice, never before the first drawn frame; then at once
    /// when not waiting for idle, else on an idle frame or after the
    /// timeout.
    pub fn should_request_at(&self, idle: bool, timed_out: bool) -> (b: bool)
        ensures
            b == should_request_spec(
                self.planned(),
                self.waits_for_idle(),
                self.requested(),
                self.drew_once(),
                idle,
                timed_out,
            ),
    {
        match &self.plan {
            None => false,
            Some(plan) => {
                if self.requested || !self.drew_once {
                    false
                } else if !plan.after_idle {
                    true
                } else {
                    idle || timed_out
                }
            },
        }
    }

    /// Whether to request the read-back now (`idle`: this frame had nothing
    /// to draw). The timeout is read from the clock.
    pub fn should_request(&self, idle: bool) -> (b: bool)
        ensures
            b == should_request_spec(
                self.planned(),
                self.waits_for_idle(),
                self.requested(),
                self.drew_once(),
                idle,
                false,
            ) || (b && self.planned() && self.started() && should_request_spec(
                self.planned(),
                self.waits_for_idle(),
                self.requested(),
                self.drew_once(),
                idle,
                true,
            )),
            self.planned() && self.started() && self.timeout() == 0 ==> b == should_request_spec(
                self.planned(),
                self.waits_for_idle(),
                self.requested(),
                self.drew_once(),
                idle,
                true,
            ),
    {
        let t = if self.plan.is_some() && self.drew_once && !self.requested {
            self.timed_out()
        } else {
            false
        };
        self.should_request_at(idle, t)
    }

    /// The read-back has been requested; it is never requested again.
    pub fn mark_requested(&mut self)
        ensures
            final(self).requested(),
            final(self).planned() == old(self).planned(),
            final(self).waits_for_idle() == old(self).waits_for_idle(),
            final(self).timeout() == old(self).timeout(),
            final(self).drew_once() == old(self).drew_once(),
            final(self).started() == old(self).started(),
            final(self).start_time() == old(self).start_time(),
            final(self).path_of() == old(self).path_of(),
    {
        self.requested = true;
    }

    /// Where the screenshot goes, when one was asked for.
    pub fn path(&self) -> (p: Option<&std::path::PathBuf>)
        ensures
            p is Some == self.planned(),
            p matches Some(x) ==> self.path_of() == Some(*x),
    {
        match &self.plan {
            Some(plan) => Some(&plan.path),
            None => None,
        }
    }
}

/// Once requested, never requested again, whatever the frame and the clock.
pub proof fn lemma_asks_only_once(planned: bool, after_idle: bool, drew: bool, idle: bool, t: bool)
    ensures
        !should_request_spec(planned, after_idle, true, drew, idle, t),
{
}

/// Nothing is shot before a frame has been drawn.
pub proof fn lemma_never_before_first_frame(planned: bool, after_idle: bool, requested: bool, idle: bool, t: bool)
    ensures
        !should_request_spec(planned, after_idle, requested, false, idle, t),
{
}

} // verus!
