use entman::identity::json::{Json, JsonIdentitySettings, UserRecord};
use entman::identity::ldap::{Ldap, LdapSettings};
use entman::identity::Outcome;

fn file_store() -> Json {
    Json::new(JsonIdentitySettings { filename: "users.json".to_string() })
}

fn directory() -> Ldap {
    Ldap::new(LdapSettings {
        url: "ldap://localhost".to_string(),
        base_dn: "dc=example,dc=org".to_string(),
        bind_dn: "cn=admin,dc=example,dc=org".to_string(),
        bind_password: "SECRET-REDACTED".to_string(),
        user_filter: "(uid=%t)".to_string(),
        user_name_attr: "cn".to_string(),
    })
}

fn lines(ls: &[&str]) -> Vec<String> {
    ls.iter().map(|l| l.to_string()).collect()
}

#[test]
fn parses_user_record_line() {
    let u = UserRecord::from_json_line(
        "{\"username\":\"alice\",\"token\":\"tok-1\",\"access\":true}",
    )
    .expect("record should parse");
    assert_eq!(u.username, "alice");
    assert_eq!(u.token, "tok-1");
    assert!(u.access);
}

#[test]
fn rejects_corrupt_user_record() {
    assert!(UserRecord::from_json_line("").is_none());
    assert!(UserRecord::from_json_line("{\"username\":\"a\"}").is_none());
    assert!(UserRecord::from_json_line(
        "{\"username\":\"a\",\"token\":\"t\",\"access\":maybe}"
    )
    .is_none());
}

#[test]
fn access_enabled_record_gives_success_with_username() {
    let store = file_store();
    let ls = lines(&[
        "{\"username\":\"alice\",\"token\":\"tok-1\",\"access\":true}",
        "{\"username\":\"bob\",\"token\":\"tok-2\",\"access\":false}",
    ]);
    let (resp, warnings) = store.access(&ls, "tok-1");
    assert!(resp.outcome == Outcome::Success);
    assert_eq!(resp.name.as_deref(), Some("alice"));
    assert!(warnings.is_empty());
}

#[test]
fn access_disabled_record_gives_revoked_without_name() {
    let store = file_store();
    let ls = lines(&[
        "{\"username\":\"alice\",\"token\":\"tok-1\",\"access\":true}",
        "{\"username\":\"bob\",\"token\":\"tok-2\",\"access\":false}",
    ]);
    let (resp, _) = store.access(&ls, "tok-2");
    assert!(resp.outcome == Outcome::Revoked);
    assert!(resp.name.is_none());
}

#[test]
fn no_matching_record_gives_unknown() {
    let store = file_store();
    let ls = lines(&["{\"username\":\"alice\",\"token\":\"tok-1\",\"access\":true}"]);
    let (resp, _) = store.access(&ls, "absent");
    assert!(resp.outcome == Outcome::Unknown);
    assert!(resp.name.is_none());
}

#[test]
fn empty_file_gives_unknown() {
    let store = file_store();
    let (resp, warnings) = store.access(&Vec::new(), "tok");
    assert!(resp.outcome == Outcome::Unknown);
    assert!(resp.name.is_none());
    assert!(warnings.is_empty());
}

#[test]
fn first_matching_record_wins() {
    let store = file_store();
    let ls = lines(&[
        "{\"username\":\"first\",\"token\":\"dup\",\"access\":false}",
        "{\"username\":\"second\",\"token\":\"dup\",\"access\":true}",
    ]);
    let (resp, _) = store.access(&ls, "dup");
    assert!(resp.outcome == Outcome::Revoked);
    assert!(resp.name.is_none());
}

#[test]
fn corrupt_record_is_warned_and_skipped() {
    let store = file_store();
    let ls = lines(&[
        "{\"username\":\"alice\",\"token\":\"tok-1\",\"access\":true}",
        "not a record",
        "{\"username\":\"bob\",\"token\":\"tok-2\",\"access\":true}",
    ]);
    let (resp, warnings) = store.access(&ls, "tok-2");
    assert!(resp.outcome == Outcome::Success);
    assert_eq!(resp.name.as_deref(), Some("bob"));
    assert_eq!(warnings, vec![1]);
}

#[test]
fn directory_zero_entries_gives_unknown() {
    let d = directory();
    let resp = d.classify(0, &Vec::new());
    assert!(resp.outcome == Outcome::Unknown);
    assert!(resp.name.is_none());
}

#[test]
fn directory_single_entry_gives_success_with_joined_name() {
    let d = directory();
    let resp = d.classify(1, &lines(&["Carol C."]));
    assert!(resp.outcome == Outcome::Success);
    assert_eq!(resp.name.as_deref(), Some("Carol C."));

    let multi = d.classify(1, &lines(&["Carol", "C."]));
    assert_eq!(multi.name.as_deref(), Some("Carol;C."));
}

#[test]
fn directory_ambiguity_gives_revoked() {
    let d = directory();
    let resp = d.classify(2, &Vec::new());
    assert!(resp.outcome == Outcome::Revoked);
    assert!(resp.name.is_none());
    let resp = d.classify(17, &Vec::new());
    assert!(resp.outcome == Outcome::Revoked);
}

#[test]
fn search_filter_escapes_token() {
    let d = directory();
    assert_eq!(d.search_filter("plain"), "(uid=plain)");
    assert_eq!(d.search_filter("a*b"), "(uid=a\\2ab)");
    assert_eq!(d.search_filter("(x)\\y"), "(uid=\\28x\\29\\5cy)");
    assert_eq!(d.search_filter("nul\u{0}"), "(uid=nul\\00)");
}

#[test]
fn search_filter_replaces_every_placeholder() {
    let d = Ldap::new(LdapSettings {
        url: String::new(),
        base_dn: String::new(),
        bind_dn: String::new(),
        bind_password: "SECRET-REDACTED".to_string(),
        user_filter: "(|(uid=%t)(mail=%t))".to_string(),
        user_name_attr: "cn".to_string(),
    });
    assert_eq!(d.search_filter("me"), "(|(uid=me)(mail=me))");
}

#[test]
fn parses_user_record_with_spaces() {
    let u = UserRecord::from_json_line(
        "{ \"username\": \"alice\", \"token\": \"tok-1\", \"access\": true }",
    )
    .expect("spaced record should parse");
    assert_eq!(u.username, "alice");
    assert_eq!(u.token, "tok-1");
    assert!(u.access);
}
