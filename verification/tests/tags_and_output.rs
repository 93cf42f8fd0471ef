//! Tests for tag paths, tag-file text, duration descriptions, and the
//! message printer.

use evry::file::{parse_epoch_millis, LocalDir, Tag};
use evry::printer::{Message, Printer, PrinterType};
use evry::text::u128_to_string;
use evry::utils::{describe_ms, epoch_millis};

#[test]
fn tag_path_is_resolved_under_the_data_directory() {
    let dir = LocalDir { data_dir: String::from("/home/user/.local/share/evry/data") };
    let tag = Tag::new(String::from("scrapesite"), &dir);
    assert_eq!(tag.name, "scrapesite");
    assert_eq!(tag.path, "/home/user/.local/share/evry/data/scrapesite");
}

#[test]
fn tag_file_text_parses_back_to_a_value() {
    assert_eq!(parse_epoch_millis("1234"), Some(1234));
    assert_eq!(parse_epoch_millis("  1234\n"), Some(1234));
    assert_eq!(parse_epoch_millis("0"), Some(0));
    assert_eq!(
        parse_epoch_millis("340282366920938463463374607431768211455"),
        Some(u128::MAX)
    );
}

#[test]
fn tag_file_text_is_never_guessed_at() {
    assert_eq!(parse_epoch_millis(""), None);
    assert_eq!(parse_epoch_millis("   "), None);
    assert_eq!(parse_epoch_millis("12a4"), None);
    assert_eq!(parse_epoch_millis("abc"), None);
    assert_eq!(parse_epoch_millis("12 34"), None);
    assert_eq!(parse_epoch_millis("-5"), None);
    // one past u128::MAX
    assert_eq!(parse_epoch_millis("340282366920938463463374607431768211456"), None);
}

#[test]
fn written_values_read_back_unchanged() {
    for v in [0u128, 1, 999, 1_700_000_000_000, u128::MAX] {
        let text = u128_to_string(v);
        assert_eq!(parse_epoch_millis(&text), Some(v));
    }
}

#[test]
fn decimal_rendering_is_exact() {
    assert_eq!(u128_to_string(0), "0");
    assert_eq!(u128_to_string(7), "7");
    assert_eq!(u128_to_string(12345), "12345");
    assert_eq!(u128_to_string(u128::MAX), "340282366920938463463374607431768211455");
}

#[test]
fn durations_describe_themselves() {
    assert_eq!(describe_ms(4_799_805_877), "55 days, 13 hours, 16 minutes, 45 seconds");
    assert_eq!(describe_ms(0), "");
    assert_eq!(describe_ms(999), "");
    assert_eq!(describe_ms(1000), "1 second");
    assert_eq!(describe_ms(60_000), "1 minute");
    assert_eq!(describe_ms(61_000), "1 minute, 1 second");
    assert_eq!(describe_ms(3_600_000), "1 hour");
    assert_eq!(describe_ms(86_400_000), "1 day");
    assert_eq!(describe_ms(90_061_000), "1 day, 1 hour, 1 minute, 1 second");
    assert_eq!(describe_ms(604_800_000), "7 days");
}

#[test]
fn the_clock_reads_after_the_epoch() {
    let now = epoch_millis();
    assert!(now.is_some());
}

#[test]
fn stderr_printer_hands_lines_back() {
    let mut p = Printer::new(PrinterType::Stderr);
    let line = p.echo("tag_name", "scrapesite");
    assert_eq!(line.as_deref(), Some("tag_name:scrapesite"));
    assert_eq!(p.messages.len(), 0);
}

#[test]
fn json_printer_collects_messages() {
    let mut p = Printer::new(PrinterType::Json);
    // passes for all printer types
    let first = p.print(Message::new("data dir", "~/.local/share/evry/data"), None);
    assert!(first.is_none());
    // restricted to this printer's own type: collected
    let second = p.print(Message::new("tag name", "this is tag name"), Some(PrinterType::Json));
    assert!(second.is_none());
    let third = p.print(Message::new("status", "something bad happened"), Some(PrinterType::Json));
    assert!(third.is_none());
    // restricted to the other type: dropped
    let fourth = p.print(
        Message::new("status", "this shouldnt be in the output"),
        Some(PrinterType::Stderr),
    );
    assert!(fourth.is_none());
    assert_eq!(p.messages.len(), 3);
    assert_eq!(p.messages[0].kind, "data dir");
    assert_eq!(p.messages[0].body, "~/.local/share/evry/data");
    assert_eq!(p.messages[1].kind, "tag name");
    assert_eq!(p.messages[2].body, "something bad happened");
}

#[test]
fn stderr_printer_drops_json_only_messages() {
    let mut p = Printer::new(PrinterType::Stderr);
    let dropped = p.print(Message::new("till_next", "12345"), Some(PrinterType::Json));
    assert!(dropped.is_none());
    let kept = p.print(Message::new("log", "parsed"), None);
    assert_eq!(kept.as_deref(), Some("log:parsed"));
    assert_eq!(p.messages.len(), 0);
}
