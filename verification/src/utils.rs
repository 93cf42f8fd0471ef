//! Time helpers: reading the clock and describing durations.
//!
//! `epoch_millis` asks the system clock for the current time in epoch
//! milliseconds.  `describe_ms` renders a millisecond count as
//! human-readable text for debug output, e.g. 4799805877 becomes
//! "55 days, 13 hours, 16 minutes, 45 seconds".

use vstd::prelude::*;
use vstd::string::*;
use crate::text;

verus! {

#[verifier::external_type_specification]
#[verifier::external_body]
pub struct ExSystemTime(std::time::SystemTime);

/// Relies on std::time::SystemTime::now: the system clock's reading for
/// the moment of the call.  Nothing can be promised of it; the decision
/// engine takes the reading as an argument and is verified for every
/// value.
#[verifier::external_body]
fn system_time_now() -> std::time::SystemTime {
    std::time::SystemTime::now()
}

/// Relies on std::time::SystemTime::duration_since: the span from the
/// Unix epoch to `t` in whole milliseconds, or `None` when `t` reads
/// earlier than the epoch.
#[verifier::external_body]
fn millis_since_epoch(t: std::time::SystemTime) -> Option<u128> {
    match t.duration_since(std::time::SystemTime::UNIX_EPOCH) {
        Ok(d) => Some(d.as_millis()),
        Err(_) => None,
    }
}

/// The current time in epoch milliseconds, or `None` when the system
/// clock reads earlier than the Unix epoch.
pub fn epoch_millis() -> Option<u128> {
    millis_since_epoch(system_time_now())
}

/// One rendered piece of a duration description: the value, a space, the
/// unit name, and a pluralizing 's' for any value other than one.
pub open spec fn spec_part(value: int, label: Seq<char>) -> Seq<char> {
    text::spec_decimal_digits(value) + seq![' '] + label + (if value == 1 {
        Seq::<char>::empty()
    } else {
        seq!['s']
    })
}

/// The pieces of a duration description: days, hours, minutes and
/// seconds of the canonical decomposition, zero components omitted.
pub open spec fn spec_parts(ms: int) -> Seq<Seq<char>> {
    let total_secs = ms / 1000;
    let days = total_secs / 86400;
    let hours = (total_secs / 3600) % 24;
    let minutes = (total_secs / 60) % 60;
    let seconds = total_secs % 60;
    let with_days = if days != 0 {
        seq![spec_part(days, "day"@)]
    } else {
        Seq::<Seq<char>>::empty()
    };
    let with_hours = if hours != 0 {
        with_days.push(spec_part(hours, "hour"@))
    } else {
        with_days
    };
    let with_minutes = if minutes != 0 {
        with_hours.push(spec_part(minutes, "minute"@))
    } else {
        with_hours
    };
    if seconds != 0 {
        with_minutes.push(spec_part(seconds, "second"@))
    } else {
        with_minutes
    }
}

/// The pieces joined with ", ".
pub open spec fn spec_join_parts(parts: Seq<Seq<char>>) -> Seq<char>
    decreases parts.len(),
{
    if parts.len() == 0 {
        Seq::empty()
    } else if parts.len() == 1 {
        parts[0]
    } else {
        parts[0] + ", "@ + spec_join_parts(parts.drop_first())
    }
}

/// The full human-readable description of a millisecond count; zero
/// milliseconds describe as the empty string.
pub open spec fn spec_describe_ms(ms: int) -> Seq<char> {
    spec_join_parts(spec_parts(ms))
}

/// Appends "<time> <description>" to `parts`, pluralized unless the
/// value is exactly one; a zero value appends nothing.
pub fn add_part(parts: &mut Vec<String>, time: u128, description: &str)
    ensures
        time == 0 ==> final(parts)@ == old(parts)@,
        time != 0 ==> final(parts).deep_view() == old(parts).deep_view().push(
            spec_part(time as int, description@),
        ),
{
    if time == 0 {
        return ;
    }
    let mut s = text::u128_to_string(time);
    s.append(" ");
    s.append(description);
    if time != 1 {
        s.append("s");
    }
    proof {
        reveal_strlit(" ");
        reveal_strlit("s");
        assert(" "@ =~= seq![' ']);
        assert("s"@ =~= seq!['s']);
        assert(s@ =~= spec_part(time as int, description@));
    }
    parts.push(s);
    proof {
        assert(parts.deep_view() =~= old(parts).deep_view().push(s@));
    }
}

fn join_parts(parts: &Vec<String>) -> (r: String)
    ensures
        r@ == spec_join_parts(parts.deep_view()),
{
    let ghost all = parts.deep_view();
    let mut out = String::new();
    let mut k: usize = 0;
    proof {
        assert(all.take(0) =~= Seq::<Seq<char>>::empty());
    }
    while k < parts.len()
        invariant
            all == parts.deep_view(),
            k <= parts.len(),
            out@ == spec_join_parts(all.take(k as int)),
        decreases parts.len() - k,
    {
        if k > 0 {
            out.append(", ");
        }
        out.append(parts[k].as_str());
        proof {
            assert(parts[k as int].deep_view() == all[k as int]);
            lemma_join_parts_push(all.take(k as int), all[k as int]);
            assert(all.take(k as int).push(all[k as int]) =~= all.take(k as int + 1));
        }
        k += 1;
    }
    proof {
        assert(all.take(parts.len() as int) =~= all);
    }
    out
}

proof fn lemma_join_parts_push(parts: Seq<Seq<char>>, x: Seq<char>)
    ensures
        spec_join_parts(parts.push(x)) == (if parts.len() == 0 {
            x
        } else {
            spec_join_parts(parts) + ", "@ + x
        }),
    decreases parts.len(),
{
    if parts.len() == 0 {
        assert(parts.push(x)[0] == x);
    } else if parts.len() == 1 {
        assert(parts.push(x)[0] == parts[0]);
        assert(parts.push(x).drop_first() =~= seq![x]);
        assert(spec_join_parts(seq![x]) == x);
    } else {
        lemma_join_parts_push(parts.drop_first(), x);
        assert(parts.push(x)[0] == parts[0]);
        assert(parts.push(x).drop_first() =~= parts.drop_first().push(x));
    }
}

/// Renders a millisecond count as human-readable text: the nonzero
/// components of its days/hours/minutes/seconds decomposition, joined
/// with ", " and pluralized.  Used for debug output.
pub fn describe_ms(ms: u128) -> (r: String)
    ensures
        r@ == spec_describe_ms(ms as int),
{
    let total_secs: u128 = ms / 1000;
    let days: u128 = total_secs / 86400;
    let hours: u128 = (total_secs / 3600) % 24;
    let minutes: u128 = (total_secs / 60) % 60;
    let seconds: u128 = total_secs % 60;
    let mut parts: Vec<String> = Vec::new();
    proof {
        assert(parts.deep_view() =~= Seq::<Seq<char>>::empty());
    }
    add_part(&mut parts, days, "day");
    add_part(&mut parts, hours, "hour");
    add_part(&mut parts, minutes, "minute");
    add_part(&mut parts, seconds, "second");
    proof {
        assert(parts.deep_view() =~= spec_parts(ms as int));
    }
    join_parts(&parts)
}

} // verus!
