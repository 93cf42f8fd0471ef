//! The scheduling decision engine.
//!
//! `decide` is a pure function from the current time, the tag state, and a
//! millisecond threshold to a three-way [`Outcome`]: first run ever, the
//! threshold has fully elapsed, or the caller must wait.  The caller owns
//! the side effects: on `FirstRun` and `Elapsed` it must persist the
//! current time as the tag's new last-run value; on `NotElapsed` it must
//! persist nothing.

use vstd::prelude::*;

verus! {

/// The three-way result of one scheduling decision.
#[derive(Debug, Clone, Copy, PartialEq, Eq, Structural)]
pub enum Outcome {
    /// No prior recorded run: execution is permitted and the current time
    /// must be persisted.
    FirstRun,
    /// Strictly more than `threshold` milliseconds have elapsed since
    /// `last_run`: execution is permitted and `now` must be persisted.
    Elapsed { last_run: u128, now: u128, threshold: u128 },
    /// The threshold has not fully elapsed: execution is forbidden and
    /// nothing may be persisted.  `remaining` is how many milliseconds
    /// must still pass before a run is permitted.
    NotElapsed { last_run: u128, now: u128, threshold: u128, remaining: u128 },
}

/// Milliseconds elapsed since the last run, clamped at zero when the
/// system clock has moved backward past the stored value.
pub open spec fn spec_elapsed(now_ms: u128, last_run_ms: u128) -> int {
    if now_ms >= last_run_ms {
        now_ms - last_run_ms
    } else {
        0
    }
}

/// The decision rule.  A missing tag always means `FirstRun`; otherwise
/// the threshold must have *strictly* elapsed (a tie is not enough), and
/// the wait remainder is measured against the clamped elapsed time.
pub open spec fn spec_decide(
    now_ms: u128,
    tag_exists: bool,
    last_run_ms: Option<u128>,
    threshold_ms: u128,
) -> Outcome {
    if !tag_exists {
        Outcome::FirstRun
    } else {
        match last_run_ms {
            None => Outcome::FirstRun,
            Some(last) => {
                if spec_elapsed(now_ms, last) > threshold_ms {
                    Outcome::Elapsed { last_run: last, now: now_ms, threshold: threshold_ms }
                } else {
                    Outcome::NotElapsed {
                        last_run: last,
                        now: now_ms,
                        threshold: threshold_ms,
                        remaining: (threshold_ms - spec_elapsed(now_ms, last)) as u128,
                    }
                }
            },
        }
    }
}

impl Outcome {
    /// Whether this outcome permits execution (and so obliges the caller
    /// to persist the current time).
    pub open spec fn spec_permits_run(self) -> bool {
        self is FirstRun || self is Elapsed
    }

    /// Executable form of [`Outcome::spec_permits_run`].
    pub fn permits_run(&self) -> (r: bool)
        ensures
            r == self.spec_permits_run(),
    {
        match self {
            Outcome::FirstRun => true,
            Outcome::Elapsed { .. } => true,
            Outcome::NotElapsed { .. } => false,
        }
    }
}

/// Classifies one run request.
///
/// A missing tag is always a first run, whatever the clock or threshold
/// say.  An existing tag permits a run exactly when strictly more than
/// `threshold_ms` milliseconds have elapsed; elapsed time is clamped at
/// zero when `now_ms` reads earlier than the stored last run, so a
/// backward-moving clock yields a plain `NotElapsed` with `remaining ==
/// threshold_ms` instead of wrapping.
pub fn decide(
    now_ms: u128,
    tag_exists: bool,
    last_run_ms: Option<u128>,
    threshold_ms: u128,
) -> (r: Outcome)
    requires
        tag_exists ==> last_run_ms is Some,
    ensures
        r == spec_decide(now_ms, tag_exists, last_run_ms, threshold_ms),
        !tag_exists ==> r == Outcome::FirstRun,
        tag_exists ==> r.spec_permits_run() == (spec_elapsed(now_ms, last_run_ms.unwrap())
            > threshold_ms),
        (tag_exists && now_ms < last_run_ms.unwrap()) ==> r == (Outcome::NotElapsed {
            last_run: last_run_ms.unwrap(),
            now: now_ms,
            threshold: threshold_ms,
            remaining: threshold_ms,
        }),
{
    if !tag_exists {
        return Outcome::FirstRun;
    }
    let last = last_run_ms.unwrap();
    let elapsed: u128 = if now_ms >= last {
        now_ms - last
    } else {
        0
    };
    if elapsed > threshold_ms {
        Outcome::Elapsed { last_run: last, now: now_ms, threshold: threshold_ms }
    } else {
        Outcome::NotElapsed {
            last_run: last,
            now: now_ms,
            threshold: threshold_ms,
            remaining: threshold_ms - elapsed,
        }
    }
}

/// Deciding is idempotent: the decision is a function of its four inputs
/// alone, so two results obtained from unchanged inputs are equal.
pub proof fn lemma_decide_idempotent(
    now_ms: u128,
    tag_exists: bool,
    last_run_ms: Option<u128>,
    threshold_ms: u128,
    r1: Outcome,
    r2: Outcome,
)
    requires
        r1 == spec_decide(now_ms, tag_exists, last_run_ms, threshold_ms),
        r2 == spec_decide(now_ms, tag_exists, last_run_ms, threshold_ms),
    ensures
        r1 == r2,
{
}

} // verus!
