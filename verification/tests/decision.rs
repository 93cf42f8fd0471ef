//! Tests for the scheduling decision engine.

use evry::schedule::{decide, Outcome};

#[test]
fn boundary_is_strict() {
    // elapsed exactly equal to the threshold is not enough
    assert_eq!(
        decide(1000, true, Some(0), 1000),
        Outcome::NotElapsed { last_run: 0, now: 1000, threshold: 1000, remaining: 0 }
    );
    // one millisecond past the threshold permits the run
    assert_eq!(
        decide(1001, true, Some(0), 1000),
        Outcome::Elapsed { last_run: 0, now: 1001, threshold: 1000 }
    );
}

#[test]
fn missing_tag_is_always_first_run() {
    assert_eq!(decide(0, false, None, 0), Outcome::FirstRun);
    assert_eq!(decide(1_700_000_000_000, false, None, 604_800_000), Outcome::FirstRun);
    assert_eq!(decide(u128::MAX, false, None, u128::MAX), Outcome::FirstRun);
}

#[test]
fn backward_clock_waits_instead_of_wrapping() {
    // the clock reads earlier than the stored last run
    assert_eq!(
        decide(5, true, Some(100), 50),
        Outcome::NotElapsed { last_run: 100, now: 5, threshold: 50, remaining: 50 }
    );
    assert_eq!(
        decide(0, true, Some(u128::MAX), 1000),
        Outcome::NotElapsed { last_run: u128::MAX, now: 0, threshold: 1000, remaining: 1000 }
    );
}

#[test]
fn waiting_decisions_are_repeatable() {
    let first = decide(500, true, Some(0), 1000);
    let second = decide(500, true, Some(0), 1000);
    assert_eq!(first, second);
    assert_eq!(
        first,
        Outcome::NotElapsed { last_run: 0, now: 500, threshold: 1000, remaining: 500 }
    );
}

#[test]
fn remaining_counts_down_to_the_boundary() {
    assert_eq!(
        decide(999, true, Some(0), 1000),
        Outcome::NotElapsed { last_run: 0, now: 999, threshold: 1000, remaining: 1 }
    );
    assert_eq!(
        decide(1_000_000, true, Some(999_999), 604_800_000),
        Outcome::NotElapsed {
            last_run: 999_999,
            now: 1_000_000,
            threshold: 604_800_000,
            remaining: 604_799_999,
        }
    );
}

#[test]
fn outcome_permits_run_matches_its_variant() {
    assert!(decide(0, false, None, 0).permits_run());
    assert!(decide(1001, true, Some(0), 1000).permits_run());
    assert!(!decide(1000, true, Some(0), 1000).permits_run());
}
