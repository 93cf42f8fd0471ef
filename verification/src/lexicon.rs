//! The duration lexicon: unit spellings and their millisecond values.
//!
//! `resolve` maps one unit spelling ("weeks", "wk", "hr") to its fixed-length
//! millisecond value, or `None` for anything unrecognized.  Plural handling
//! is a single normalization step: strip one trailing 's', then look the
//! singular stem up in the table.  The grammar in `parser` stays
//! unit-spelling-agnostic and leans entirely on this module.

use vstd::prelude::*;

verus! {

/// Milliseconds in one year (fixed-length approximation, not calendar-aware).
pub const YEAR_MILLIS: u128 = 31556952000;

/// Milliseconds in one month (fixed 30 days).
pub const MONTH_MILLIS: u128 = 2592000000;

/// Milliseconds in one week.
pub const WEEK_MILLIS: u128 = 604800000;

/// Milliseconds in one day.
pub const DAY_MILLIS: u128 = 86400000;

/// Milliseconds in one hour.
pub const HOUR_MILLIS: u128 = 3600000;

/// Milliseconds in one minute.
pub const MINUTE_MILLIS: u128 = 60000;

/// Milliseconds in one second.
pub const SECOND_MILLIS: u128 = 1000;

/// The singular-stem table: the millisecond value of a singular unit
/// spelling or abbreviation, `None` for anything else.
pub open spec fn spec_stem_millis(stem: Seq<char>) -> Option<u128> {
    if stem == seq!['y', 'e', 'a', 'r'] {
        Some(YEAR_MILLIS)
    } else if stem == seq!['m', 'o', 'n', 't', 'h'] {
        Some(MONTH_MILLIS)
    } else if stem == seq!['w', 'e', 'e', 'k'] || stem == seq!['w', 'k'] {
        Some(WEEK_MILLIS)
    } else if stem == seq!['d', 'a', 'y'] || stem == seq!['d'] {
        Some(DAY_MILLIS)
    } else if stem == seq!['h', 'o', 'u', 'r'] || stem == seq!['h', 'r'] {
        Some(HOUR_MILLIS)
    } else if stem == seq!['m', 'i', 'n', 'u', 't', 'e'] || stem == seq!['m', 'i', 'n'] {
        Some(MINUTE_MILLIS)
    } else if stem == seq!['s', 'e', 'c', 'o', 'n', 'd'] || stem == seq!['s', 'e', 'c'] {
        Some(SECOND_MILLIS)
    } else {
        None
    }
}

/// The value of a unit spelling: strip one trailing pluralizing 's'
/// (never the whole spelling), then look the stem up.
pub open spec fn spec_resolve(spelling: Seq<char>) -> Option<u128> {
    if spelling.len() >= 2 && spelling.last() == 's' {
        spec_stem_millis(spelling.drop_last())
    } else {
        spec_stem_millis(spelling)
    }
}

/// Looks the first `n` characters of `v` up in the singular-stem table.
fn stem_lookup(v: &Vec<char>, n: usize) -> (r: Option<u128>)
    requires
        n <= v@.len(),
    ensures
        r == spec_stem_millis(v@.take(n as int)),
{
    let ghost t = v@.take(n as int);
    if n == 4 && v[0] == 'y' && v[1] == 'e' && v[2] == 'a' && v[3] == 'r' {
        proof {
            assert(t =~= seq!['y', 'e', 'a', 'r']);
        }
        Some(YEAR_MILLIS)
    } else if n == 5 && v[0] == 'm' && v[1] == 'o' && v[2] == 'n' && v[3] == 't' && v[4] == 'h' {
        proof {
            assert(t =~= seq!['m', 'o', 'n', 't', 'h']);
        }
        Some(MONTH_MILLIS)
    } else if n == 4 && v[0] == 'w' && v[1] == 'e' && v[2] == 'e' && v[3] == 'k' {
        proof {
            assert(t =~= seq!['w', 'e', 'e', 'k']);
        }
        Some(WEEK_MILLIS)
    } else if n == 2 && v[0] == 'w' && v[1] == 'k' {
        proof {
            assert(t =~= seq!['w', 'k']);
        }
        Some(WEEK_MILLIS)
    } else if n == 3 && v[0] == 'd' && v[1] == 'a' && v[2] == 'y' {
        proof {
            assert(t =~= seq!['d', 'a', 'y']);
        }
        Some(DAY_MILLIS)
    } else if n == 1 && v[0] == 'd' {
        proof {
            assert(t =~= seq!['d']);
        }
        Some(DAY_MILLIS)
    } else if n == 4 && v[0] == 'h' && v[1] == 'o' && v[2] == 'u' && v[3] == 'r' {
        proof {
            assert(t =~= seq!['h', 'o', 'u', 'r']);
        }
        Some(HOUR_MILLIS)
    } else if n == 2 && v[0] == 'h' && v[1] == 'r' {
        proof {
            assert(t =~= seq!['h', 'r']);
        }
        Some(HOUR_MILLIS)
    } else if n == 6 && v[0] == 'm' && v[1] == 'i' && v[2] == 'n' && v[3] == 'u' && v[4] == 't'
        && v[5] == 'e' {
        proof {
            assert(t =~= seq!['m', 'i', 'n', 'u', 't', 'e']);
        }
        Some(MINUTE_MILLIS)
    } else if n == 3 && v[0] == 'm' && v[1] == 'i' && v[2] == 'n' {
        proof {
            assert(t =~= seq!['m', 'i', 'n']);
        }
        Some(MINUTE_MILLIS)
    } else if n == 6 && v[0] == 's' && v[1] == 'e' && v[2] == 'c' && v[3] == 'o' && v[4] == 'n'
        && v[5] == 'd' {
        proof {
            assert(t =~= seq!['s', 'e', 'c', 'o', 'n', 'd']);
        }
        Some(SECOND_MILLIS)
    } else if n == 3 && v[0] == 's' && v[1] == 'e' && v[2] == 'c' {
        proof {
            assert(t =~= seq!['s', 'e', 'c']);
        }
        Some(SECOND_MILLIS)
    } else {
        proof {
            assert(t.len() == n);
            assert(forall|k: int| 0 <= k < n ==> t[k] == v@[k]);
            let p01 = seq!['y', 'e', 'a', 'r'];
            assert(p01.len() == 4 && p01[0] == 'y' && p01[1] == 'e' && p01[2] == 'a' && p01[3]
                == 'r');
            let p02 = seq!['m', 'o', 'n', 't', 'h'];
            assert(p02.len() == 5 && p02[0] == 'm' && p02[1] == 'o' && p02[2] == 'n' && p02[3]
                == 't' && p02[4] == 'h');
            let p03 = seq!['w', 'e', 'e', 'k'];
            assert(p03.len() == 4 && p03[0] == 'w' && p03[1] == 'e' && p03[2] == 'e' && p03[3]
                == 'k');
            let p04 = seq!['w', 'k'];
            assert(p04.len() == 2 && p04[0] == 'w' && p04[1] == 'k');
            let p05 = seq!['d', 'a', 'y'];
            assert(p05.len() == 3 && p05[0] == 'd' && p05[1] == 'a' && p05[2] == 'y');
            let p06 = seq!['d'];
            assert(p06.len() == 1 && p06[0] == 'd');
            let p07 = seq!['h', 'o', 'u', 'r'];
            assert(p07.len() == 4 && p07[0] == 'h' && p07[1] == 'o' && p07[2] == 'u' && p07[3]
                == 'r');
            let p08 = seq!['h', 'r'];
            assert(p08.len() == 2 && p08[0] == 'h' && p08[1] == 'r');
            let p09 = seq!['m', 'i', 'n', 'u', 't', 'e'];
            assert(p09.len() == 6 && p09[0] == 'm' && p09[1] == 'i' && p09[2] == 'n' && p09[3]
                == 'u' && p09[4] == 't' && p09[5] == 'e');
            let p10 = seq!['m', 'i', 'n'];
            assert(p10.len() == 3 && p10[0] == 'm' && p10[1] == 'i' && p10[2] == 'n');
            let p11 = seq!['s', 'e', 'c', 'o', 'n', 'd'];
            assert(p11.len() == 6 && p11[0] == 's' && p11[1] == 'e' && p11[2] == 'c' && p11[3]
                == 'o' && p11[4] == 'n' && p11[5] == 'd');
            let p12 = seq!['s', 'e', 'c'];
            assert(p12.len() == 3 && p12[0] == 's' && p12[1] == 'e' && p12[2] == 'c');
        }
        None
    }
}

/// `resolve` over an already-collected character buffer.
pub(crate) fn resolve_chars(v: &Vec<char>) -> (r: Option<u128>)
    ensures
        r == spec_resolve(v@),
{
    let n = v.len();
    if n >= 2 && v[n - 1] == 's' {
        let r = stem_lookup(v, n - 1);
        proof {
            assert(v@.take(n as int - 1) =~= v@.drop_last());
        }
        r
    } else {
        let r = stem_lookup(v, n);
        proof {
            assert(v@.take(n as int) =~= v@);
        }
        r
    }
}

/// Resolves one unit spelling to its millisecond value.  Pure lookup:
/// unknown or ambiguous spellings are rejected, never guessed at.
pub fn resolve(spelling: &str) -> (r: Option<u128>)
    ensures
        r == spec_resolve(spelling@),
{
    let v = crate::text::str_to_chars(spelling);
    resolve_chars(&v)
}

/// Every recognized spelling resolves to a value between one second and
/// one year.
pub proof fn lemma_resolve_bounds(spelling: Seq<char>)
    ensures
        spec_resolve(spelling) matches Some(m) ==> 1000 <= m <= YEAR_MILLIS,
{
}

/// Pluralizing a recognized singular spelling leaves its value unchanged:
/// the stem with a trailing 's' resolves exactly as the stem itself does.
pub proof fn lemma_plural_equivalence(stem: Seq<char>)
    requires
        spec_stem_millis(stem) is Some,
    ensures
        spec_resolve(stem.push('s')) == spec_stem_millis(stem),
        spec_resolve(stem) == spec_stem_millis(stem),
{
    assert(stem.push('s').drop_last() =~= stem);
    assert(stem.last() != 's');
}

/// Each abbreviation resolves to the same value as the unit it
/// abbreviates.
pub proof fn lemma_abbreviation_equivalence()
    ensures
        spec_resolve(seq!['w', 'k']) == spec_resolve(seq!['w', 'e', 'e', 'k']),
        spec_resolve(seq!['d']) == spec_resolve(seq!['d', 'a', 'y']),
        spec_resolve(seq!['h', 'r']) == spec_resolve(seq!['h', 'o', 'u', 'r']),
        spec_resolve(seq!['m', 'i', 'n']) == spec_resolve(seq!['m', 'i', 'n', 'u', 't', 'e']),
        spec_resolve(seq!['s', 'e', 'c']) == spec_resolve(seq!['s', 'e', 'c', 'o', 'n', 'd']),
{
}

} // verus!
