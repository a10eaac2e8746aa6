use entman::history::HistoryEntry;
use entman::identity::{AccessResponse, Outcome};

fn entry(time: u64, token: &str, outcome: Outcome, name: Option<&str>) -> HistoryEntry {
    HistoryEntry {
        time,
        token: token.to_string(),
        response: AccessResponse { outcome, name: name.map(|n| n.to_string()) },
    }
}

fn assert_entry_eq(a: &HistoryEntry, b: &HistoryEntry) {
    assert_eq!(a.time, b.time);
    assert_eq!(a.token, b.token);
    assert!(a.response.outcome == b.response.outcome);
    assert_eq!(a.response.name, b.response.name);
}

#[test]
fn serializes_success_entry() {
    let e = entry(42, "abc", Outcome::Success, Some("alice"));
    assert_eq!(
        e.to_json_line(),
        "{\"time\":42,\"token\":\"abc\",\"response\":{\"outcome\":\"Success\",\"name\":\"alice\"}}"
    );
}

#[test]
fn serializes_unknown_entry_with_null_name() {
    let e = entry(0, "t", Outcome::Unknown, None);
    assert_eq!(
        e.to_json_line(),
        "{\"time\":0,\"token\":\"t\",\"response\":{\"outcome\":\"Unknown\",\"name\":null}}"
    );
}

#[test]
fn serializes_escaped_token() {
    let e = entry(7, "a\"b\\c\nd", Outcome::Revoked, None);
    assert_eq!(
        e.to_json_line(),
        "{\"time\":7,\"token\":\"a\\\"b\\\\c\\u000ad\",\"response\":{\"outcome\":\"Revoked\",\"name\":null}}"
    );
}

#[test]
fn parses_valid_line() {
    let line = "{\"time\":1234,\"token\":\"tok\",\"response\":{\"outcome\":\"Success\",\"name\":\"bob\"}}";
    let e = HistoryEntry::from_json_line(line).expect("line should parse");
    assert_eq!(e.time, 1234);
    assert_eq!(e.token, "tok");
    assert!(e.response.outcome == Outcome::Success);
    assert_eq!(e.response.name.as_deref(), Some("bob"));
}

#[test]
fn rejects_corrupt_lines() {
    assert!(HistoryEntry::from_json_line("").is_none());
    assert!(HistoryEntry::from_json_line("garbage").is_none());
    assert!(HistoryEntry::from_json_line("{\"time\":12").is_none());
    assert!(HistoryEntry::from_json_line(
        "{\"time\":-1,\"token\":\"t\",\"response\":{\"outcome\":\"Unknown\",\"name\":null}}"
    )
    .is_none());
    assert!(HistoryEntry::from_json_line(
        "{\"time\":1,\"token\":\"t\",\"response\":{\"outcome\":\"Maybe\",\"name\":null}}"
    )
    .is_none());
    // trailing garbage after the closing brace
    assert!(HistoryEntry::from_json_line(
        "{\"time\":1,\"token\":\"t\",\"response\":{\"outcome\":\"Unknown\",\"name\":null}}x"
    )
    .is_none());
}

#[test]
fn rejects_value_above_u64_max() {
    assert!(HistoryEntry::from_json_line(
        "{\"time\":18446744073709551616,\"token\":\"t\",\"response\":{\"outcome\":\"Unknown\",\"name\":null}}"
    )
    .is_none());
}

#[test]
fn parses_time_at_u64_max() {
    let line = "{\"time\":18446744073709551615,\"token\":\"t\",\"response\":{\"outcome\":\"Unknown\",\"name\":null}}";
    let e = HistoryEntry::from_json_line(line).expect("max time should parse");
    assert_eq!(e.time, u64::MAX);
}

#[test]
fn round_trip_plain_entry() {
    let e = entry(1000, "token-1", Outcome::Success, Some("carol"));
    let back = HistoryEntry::from_json_line(&e.to_json_line()).expect("round trip");
    assert_entry_eq(&e, &back);
}

#[test]
fn round_trip_awkward_strings() {
    let e = entry(
        u64::MAX,
        "q\"uote\\back\u{0}nul\ttab\u{1f}unit",
        Outcome::Success,
        Some("na\"me\\with\nnewline"),
    );
    let back = HistoryEntry::from_json_line(&e.to_json_line()).expect("round trip");
    assert_entry_eq(&e, &back);
}

#[test]
fn round_trip_empty_strings_and_null_name() {
    let e = entry(0, "", Outcome::Revoked, None);
    let back = HistoryEntry::from_json_line(&e.to_json_line()).expect("round trip");
    assert_entry_eq(&e, &back);
}

#[test]
fn round_trip_non_ascii_token() {
    let e = entry(5, "tøken \u{2603}", Outcome::Success, Some("snømann"));
    let back = HistoryEntry::from_json_line(&e.to_json_line()).expect("round trip");
    assert_entry_eq(&e, &back);
}

#[test]
fn parses_line_with_spaces_around_tokens() {
    let line = "{ \"time\": 1234, \"token\": \"tok\", \"response\": { \"outcome\": \"Success\", \"name\": \"bob\" } } ";
    let e = HistoryEntry::from_json_line(line).expect("spaced line should parse");
    assert_eq!(e.time, 1234);
    assert_eq!(e.token, "tok");
    assert!(e.response.outcome == Outcome::Success);
    assert_eq!(e.response.name.as_deref(), Some("bob"));
}

#[test]
fn no_spaces_inside_string_values() {
    // spaces inside a quoted value belong to the value, not the grammar
    let line = "{\"time\":1,\"token\":\" a b \",\"response\":{\"outcome\":\"Unknown\",\"name\":null}}";
    let e = HistoryEntry::from_json_line(line).expect("line should parse");
    assert_eq!(e.token, " a b ");
}
