use entman::history::json_history::{HistoryFilter, JsonHistory, JsonHistorySettings};
use entman::history::HistoryEntry;
use entman::identity::{AccessResponse, Outcome};

fn log() -> JsonHistory {
    JsonHistory::new(JsonHistorySettings { filename: "history.json".to_string() })
}

fn entry(time: u64, token: &str, outcome: Outcome, name: Option<&str>) -> HistoryEntry {
    HistoryEntry {
        time,
        token: token.to_string(),
        response: AccessResponse { outcome, name: name.map(|n| n.to_string()) },
    }
}

fn line(time: u64, token: &str, outcome: Outcome, name: Option<&str>) -> String {
    entry(time, token, outcome, name).to_json_line()
}

#[test]
fn insert_line_is_the_serialized_entry() {
    let h = log();
    let e = entry(3, "t", Outcome::Success, Some("n"));
    assert_eq!(h.insert_line(&e), e.to_json_line());
}

#[test]
fn unconstrained_query_returns_everything_in_order() {
    let h = log();
    let lines = vec![
        line(10, "a", Outcome::Success, Some("u1")),
        line(20, "b", Outcome::Revoked, None),
        line(30, "c", Outcome::Unknown, None),
    ];
    let (found, warnings) = h.query(&lines, &HistoryFilter::unconstrained());
    assert_eq!(found.len(), 3);
    assert_eq!(found[0].time, 10);
    assert_eq!(found[1].time, 20);
    assert_eq!(found[2].time, 30);
    assert!(warnings.is_empty());
}

#[test]
fn filters_compose_conjunctively() {
    // entries at times {10,20,30} for token "a" and one at 15 for token "b":
    // time_min=12, time_max=25, token="a" leaves exactly the entry at 20.
    let h = log();
    let lines = vec![
        line(10, "a", Outcome::Success, Some("u")),
        line(15, "b", Outcome::Success, Some("v")),
        line(20, "a", Outcome::Success, Some("u")),
        line(30, "a", Outcome::Success, Some("u")),
    ];
    let filter = HistoryFilter {
        time_min: Some(12),
        time_max: Some(25),
        token: Some("a".to_string()),
        name: None,
        outcome: None,
        only_latest: false,
    };
    let (found, _) = h.query(&lines, &filter);
    assert_eq!(found.len(), 1);
    assert_eq!(found[0].time, 20);
    assert_eq!(found[0].token, "a");
}

#[test]
fn name_and_outcome_filters() {
    let h = log();
    let lines = vec![
        line(1, "a", Outcome::Success, Some("alice")),
        line(2, "b", Outcome::Revoked, None),
        line(3, "c", Outcome::Success, Some("bob")),
    ];
    let by_name = HistoryFilter {
        time_min: None,
        time_max: None,
        token: None,
        name: Some("bob".to_string()),
        outcome: None,
        only_latest: false,
    };
    let (found, _) = h.query(&lines, &by_name);
    assert_eq!(found.len(), 1);
    assert_eq!(found[0].time, 3);

    let by_outcome = HistoryFilter {
        time_min: None,
        time_max: None,
        token: None,
        name: None,
        outcome: Some(Outcome::Revoked),
        only_latest: false,
    };
    let (found, _) = h.query(&lines, &by_outcome);
    assert_eq!(found.len(), 1);
    assert_eq!(found[0].time, 2);
}

#[test]
fn only_latest_returns_single_greatest_append_order() {
    let h = log();
    // The later entry carries the smaller timestamp: append order, not the
    // timestamp, decides which one "latest" means.
    let lines = vec![
        line(50, "a", Outcome::Success, Some("u")),
        line(40, "a", Outcome::Success, Some("u")),
    ];
    let filter = HistoryFilter {
        time_min: None,
        time_max: None,
        token: Some("a".to_string()),
        name: None,
        outcome: None,
        only_latest: true,
    };
    let (found, _) = h.query(&lines, &filter);
    assert_eq!(found.len(), 1);
    assert_eq!(found[0].time, 40);
}

#[test]
fn only_latest_with_no_match_is_empty() {
    let h = log();
    let lines = vec![line(50, "a", Outcome::Success, Some("u"))];
    let filter = HistoryFilter {
        time_min: None,
        time_max: None,
        token: Some("zzz".to_string()),
        name: None,
        outcome: None,
        only_latest: true,
    };
    let (found, _) = h.query(&lines, &filter);
    assert!(found.is_empty());
}

#[test]
fn corrupt_line_between_valid_lines_is_warned_not_fatal() {
    let h = log();
    let lines = vec![
        line(1, "a", Outcome::Success, Some("u")),
        "{\"time\":oops".to_string(),
        line(2, "b", Outcome::Revoked, None),
    ];
    let (found, warnings) = h.query(&lines, &HistoryFilter::unconstrained());
    assert_eq!(found.len(), 2);
    assert_eq!(found[0].time, 1);
    assert_eq!(found[1].time, 2);
    assert_eq!(warnings, vec![1]);
}
