use entman::identity::{AccessResponse, Outcome};
use entman::server::{
    start, step, AccessAction, AccessEvent, AccessState, GatewayError,
};

fn response(outcome: Outcome, name: Option<&str>) -> AccessResponse {
    AccessResponse { outcome, name: name.map(|n| n.to_string()) }
}

#[test]
fn successful_check_appends_once_and_notifies() {
    let (s0, a0) = start("tok".to_string());
    assert!(matches!(a0, AccessAction::Verify));
    assert!(matches!(s0, AccessState::Verifying { .. }));

    let (s1, a1) = step(s0, AccessEvent::Verified(Some(response(Outcome::Success, Some("al")))));
    assert!(matches!(a1, AccessAction::ReadClock));

    let (s2, a2) = step(s1, AccessEvent::TimeRead(Some(777)));
    match a2 {
        AccessAction::Append(entry) => {
            assert_eq!(entry.time, 777);
            assert_eq!(entry.token, "tok");
            assert!(entry.response.outcome == Outcome::Success);
            assert_eq!(entry.response.name.as_deref(), Some("al"));
        },
        _ => panic!("expected an append"),
    }

    let (s3, a3) = step(s2, AccessEvent::Appended(true));
    assert!(matches!(a3, AccessAction::Notify));

    let (_s4, a4) = step(s3, AccessEvent::Notified(true));
    match a4 {
        AccessAction::Respond(Ok(name)) => assert_eq!(name.as_deref(), Some("al")),
        _ => panic!("expected a successful response"),
    }
}

#[test]
fn non_success_outcome_is_recorded_but_not_notified() {
    let (s0, _) = start("tok".to_string());
    let (s1, _) = step(s0, AccessEvent::Verified(Some(response(Outcome::Revoked, None))));
    let (s2, a2) = step(s1, AccessEvent::TimeRead(Some(1)));
    assert!(matches!(a2, AccessAction::Append(_)));
    let (_s3, a3) = step(s2, AccessEvent::Appended(true));
    match a3 {
        AccessAction::Respond(Ok(name)) => assert!(name.is_none()),
        _ => panic!("expected a direct response without notification"),
    }
}

#[test]
fn backend_failure_is_forbidden_and_records_nothing() {
    let (s0, _) = start("tok".to_string());
    let (s1, a1) = step(s0, AccessEvent::Verified(None));
    assert!(matches!(
        a1,
        AccessAction::Respond(Err(GatewayError::Forbidden))
    ));
    assert!(matches!(
        s1,
        AccessState::Done { result: Err(GatewayError::Forbidden) }
    ));
}

#[test]
fn clock_failure_is_internal_error() {
    let (s0, _) = start("tok".to_string());
    let (s1, _) = step(s0, AccessEvent::Verified(Some(response(Outcome::Success, None))));
    let (_, a2) = step(s1, AccessEvent::TimeRead(None));
    assert!(matches!(
        a2,
        AccessAction::Respond(Err(GatewayError::InternalError))
    ));
}

#[test]
fn append_failure_is_service_unavailable() {
    let (s0, _) = start("tok".to_string());
    let (s1, _) = step(s0, AccessEvent::Verified(Some(response(Outcome::Success, None))));
    let (s2, _) = step(s1, AccessEvent::TimeRead(Some(5)));
    let (_, a3) = step(s2, AccessEvent::Appended(false));
    assert!(matches!(
        a3,
        AccessAction::Respond(Err(GatewayError::ServiceUnavailable))
    ));
}

#[test]
fn notification_failure_is_bad_gateway() {
    let (s0, _) = start("tok".to_string());
    let (s1, _) = step(s0, AccessEvent::Verified(Some(response(Outcome::Success, Some("n")))));
    let (s2, _) = step(s1, AccessEvent::TimeRead(Some(5)));
    let (s3, _) = step(s2, AccessEvent::Appended(true));
    let (_, a4) = step(s3, AccessEvent::Notified(false));
    assert!(matches!(
        a4,
        AccessAction::Respond(Err(GatewayError::BadGateway))
    ));
}

#[test]
fn status_codes_by_failure_stage() {
    assert_eq!(GatewayError::Forbidden.status_code(), 403);
    assert_eq!(GatewayError::InternalError.status_code(), 500);
    assert_eq!(GatewayError::ServiceUnavailable.status_code(), 503);
    assert_eq!(GatewayError::BadGateway.status_code(), 502);
}
