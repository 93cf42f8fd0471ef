//! Tests for the duration grammar and the lexicon.

use evry::lexicon::{resolve, DAY_MILLIS, HOUR_MILLIS, MINUTE_MILLIS, MONTH_MILLIS, SECOND_MILLIS, WEEK_MILLIS, YEAR_MILLIS};
use evry::parser::{parse_time, ParseError};

#[test]
fn term_order_is_irrelevant() {
    let a = parse_time("2weeks 5hrs");
    let b = parse_time("5hrs, 2weeks");
    assert_eq!(a, b);
    assert_eq!(a, Ok(2 * WEEK_MILLIS + 5 * HOUR_MILLIS));
}

#[test]
fn repeated_units_are_additive() {
    assert_eq!(parse_time("5weeks, 2weeks"), parse_time("7weeks"));
    assert_eq!(parse_time("5weeks, 2weeks"), Ok(7 * 604_800_000));
    assert_eq!(parse_time("1 week 1 week"), parse_time("2 weeks"));
}

#[test]
fn singular_and_plural_agree() {
    assert_eq!(parse_time("1 week"), parse_time("1 weeks"));
    assert_eq!(parse_time("1 week"), Ok(WEEK_MILLIS));
    assert_eq!(parse_time("3 minute"), parse_time("3 minutes"));
}

#[test]
fn abbreviations_agree_with_full_spellings() {
    assert_eq!(parse_time("5wk"), parse_time("5weeks"));
    assert_eq!(parse_time("2d"), parse_time("2 days"));
    assert_eq!(parse_time("4hr"), parse_time("4 hours"));
    assert_eq!(parse_time("9min"), parse_time("9 minutes"));
    assert_eq!(parse_time("8sec"), parse_time("8 seconds"));
}

#[test]
fn whitespace_and_commas_are_interchangeable() {
    assert_eq!(parse_time("60secs"), Ok(60_000));
    assert_eq!(parse_time("60 secs"), Ok(60_000));
    assert_eq!(parse_time("60, secs"), Ok(60_000));
    assert_eq!(parse_time("  60\tsecs  "), Ok(60_000));
}

#[test]
fn months_and_days_scenario() {
    assert_eq!(parse_time("2 months, 5 day"), Ok(2 * 2_592_000_000 + 5 * 86_400_000));
    assert_eq!(parse_time("2 months, 5 day"), Ok(5_616_000_000));
}

#[test]
fn readme_style_inputs() {
    assert_eq!(parse_time("5wk, 5d"), Ok(5 * WEEK_MILLIS + 5 * DAY_MILLIS));
    assert_eq!(parse_time("60sec 2weeks"), Ok(60 * SECOND_MILLIS + 2 * WEEK_MILLIS));
    assert_eq!(parse_time("1 year"), Ok(YEAR_MILLIS));
    assert_eq!(parse_time("10 minutes"), Ok(10 * MINUTE_MILLIS));
}

#[test]
fn quantities_may_carry_visual_separators() {
    assert_eq!(parse_time("1_000 secs"), Ok(1_000_000));
    assert_eq!(parse_time("1,000 secs"), Ok(1_000_000));
}

#[test]
fn ill_formed_expressions_are_rejected() {
    assert_eq!(parse_time(""), Err(ParseError::Empty));
    assert_eq!(parse_time("   "), Err(ParseError::Empty));
    assert_eq!(parse_time("weeks"), Err(ParseError::Syntax { at: 0 }));
    assert_eq!(parse_time("5 fortnights"), Err(ParseError::Syntax { at: 2 }));
    assert_eq!(parse_time("5"), Err(ParseError::Syntax { at: 1 }));
    assert_eq!(parse_time("2 weeks !"), Err(ParseError::Syntax { at: 8 }));
    assert_eq!(parse_time("week 2"), Err(ParseError::Syntax { at: 0 }));
}

#[test]
fn overflowing_totals_are_flagged() {
    // u128::MAX years is far beyond the representable range
    assert_eq!(
        parse_time("340282366920938463463374607431768211455 years"),
        Err(ParseError::Overflow)
    );
    // a quantity that does not even fit in 128 bits
    assert_eq!(
        parse_time("999999999999999999999999999999999999999999999 secs"),
        Err(ParseError::Overflow)
    );
    // but a syntax error anywhere fails the parse ahead of the overflow
    let nines = "9".repeat(45);
    let with_bad_unit = format!("{} blorp", nines);
    assert_eq!(parse_time(&with_bad_unit), Err(ParseError::Syntax { at: 46 }));
    // the largest representable total is still exact
    assert_eq!(
        parse_time("340282366920938463463374607431768211455 secs"),
        Err(ParseError::Overflow)
    );
    assert_eq!(
        parse_time("340282366920938463463374607431768211 secs"),
        Ok(340_282_366_920_938_463_463_374_607_431_768_211 * 1000)
    );
}

#[test]
fn lexicon_resolves_known_spellings() {
    assert_eq!(resolve("year"), Some(YEAR_MILLIS));
    assert_eq!(resolve("years"), Some(YEAR_MILLIS));
    assert_eq!(resolve("month"), Some(MONTH_MILLIS));
    assert_eq!(resolve("week"), Some(WEEK_MILLIS));
    assert_eq!(resolve("weeks"), Some(WEEK_MILLIS));
    assert_eq!(resolve("wk"), Some(WEEK_MILLIS));
    assert_eq!(resolve("wks"), Some(WEEK_MILLIS));
    assert_eq!(resolve("d"), Some(DAY_MILLIS));
    assert_eq!(resolve("day"), Some(DAY_MILLIS));
    assert_eq!(resolve("hr"), Some(HOUR_MILLIS));
    assert_eq!(resolve("hrs"), Some(HOUR_MILLIS));
    assert_eq!(resolve("hour"), Some(HOUR_MILLIS));
    assert_eq!(resolve("min"), Some(MINUTE_MILLIS));
    assert_eq!(resolve("mins"), Some(MINUTE_MILLIS));
    assert_eq!(resolve("minutes"), Some(MINUTE_MILLIS));
    assert_eq!(resolve("sec"), Some(SECOND_MILLIS));
    assert_eq!(resolve("secs"), Some(SECOND_MILLIS));
    assert_eq!(resolve("second"), Some(SECOND_MILLIS));
}

#[test]
fn lexicon_rejects_unknown_spellings() {
    assert_eq!(resolve("fortnight"), None);
    assert_eq!(resolve("s"), None);
    assert_eq!(resolve("ss"), None);
    assert_eq!(resolve(""), None);
    assert_eq!(resolve("WEEKS"), None);
    assert_eq!(resolve("weekss"), None);
    assert_eq!(resolve("w"), None);
}
