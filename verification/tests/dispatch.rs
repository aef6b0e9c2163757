use xrl_router::dispatch::{Dispatch, DispatchAction, DispatchEnd, DispatchEvent, DispatchStep, KeyRef};

fn key(id: &str) -> KeyRef {
    KeyRef { id: id.to_string(), name: format!("name-{}", id), masked: format!("sk-...{}", id) }
}

fn step(d: &mut Dispatch, ev: DispatchEvent) -> DispatchStep {
    assert!(d.fits(&ev), "event does not fit the phase");
    d.step(ev)
}

fn finish(s: DispatchStep) -> DispatchEnd {
    match s.action {
        DispatchAction::Finish(e) => e,
        _ => panic!("expected the call to end"),
    }
}

#[test]
fn streaming_rotates_keys_then_fails_over_then_serves() {
    let (mut d, first) = Dispatch::new(2, true, false, true, 30);
    assert!(matches!(first, DispatchAction::Inspect(0)));
    let s = step(&mut d, DispatchEvent::Inspected { cooling: false, max_attempts: 2 });
    assert!(matches!(s.action, DispatchAction::PickKey(0)));
    let s = step(&mut d, DispatchEvent::Picked(Some(key("a"))));
    assert!(matches!(s.action, DispatchAction::Send(0)));
    let s = step(&mut d, DispatchEvent::Answered { status: 429, body: String::new() });
    assert_eq!(s.key_health, Some(429));
    assert!(matches!(s.action, DispatchAction::PickKey(0)));
    step(&mut d, DispatchEvent::Picked(Some(key("b"))));
    let s = step(&mut d, DispatchEvent::Answered { status: 503, body: "{\"error\":{\"message\":\"boom\"}}".into() });
    assert_eq!(s.mark_failed, Some(0));
    assert!(matches!(s.action, DispatchAction::Inspect(1)));
    let s = step(&mut d, DispatchEvent::Inspected { cooling: false, max_attempts: 1 });
    assert!(matches!(s.action, DispatchAction::PickKey(1)));
    step(&mut d, DispatchEvent::Picked(Some(key("c"))));
    let s = step(&mut d, DispatchEvent::Answered { status: 200, body: String::new() });
    assert_eq!(s.mark_ok, Some(1));
    assert!(matches!(s.action, DispatchAction::Forward(1)));
    let end = finish(step(&mut d, DispatchEvent::Delivered));
    assert!(matches!(end, DispatchEnd::Served));
    assert!(!d.fits(&DispatchEvent::Delivered));
}

#[test]
fn streaming_last_provider_5xx_is_reported() {
    let (mut d, _) = Dispatch::new(2, true, false, true, 30);
    step(&mut d, DispatchEvent::Inspected { cooling: false, max_attempts: 1 });
    step(&mut d, DispatchEvent::Picked(Some(key("a"))));
    let s = step(&mut d, DispatchEvent::Answered { status: 502, body: "{\"error\":{\"message\":\"bad gateway\"}}".into() });
    assert!(matches!(s.action, DispatchAction::Inspect(1)));
    step(&mut d, DispatchEvent::Inspected { cooling: false, max_attempts: 1 });
    step(&mut d, DispatchEvent::Picked(Some(key("b"))));
    let s = step(&mut d, DispatchEvent::Answered { status: 500, body: "plain failure".into() });
    assert_eq!(s.mark_failed, None);
    match finish(s) {
        DispatchEnd::Error { status, error_type, message, log } => {
            assert_eq!(status, None);
            assert_eq!(error_type, "api_error");
            assert_eq!(message, "bad gateway");
            let log = log.unwrap();
            assert_eq!(log.candidate, 0);
            assert_eq!(log.key.unwrap().id, "a");
            assert!(log.detail.starts_with("upstream 5xx: bad gateway | body: "));
        }
        _ => panic!("expected an error"),
    }
}

#[test]
fn streaming_without_keys_reports_none_available() {
    let (mut d, _) = Dispatch::new(1, false, false, true, 30);
    step(&mut d, DispatchEvent::Inspected { cooling: true, max_attempts: 3 });
    match finish(step(&mut d, DispatchEvent::Picked(None))) {
        DispatchEnd::Error { message, log, .. } => {
            assert_eq!(message, "No available upstream keys");
            assert!(log.is_none());
        }
        _ => panic!("expected an error"),
    }
}

#[test]
fn streaming_network_error_without_failover_ends_at_once() {
    let (mut d, _) = Dispatch::new(1, false, false, true, 30);
    step(&mut d, DispatchEvent::Inspected { cooling: false, max_attempts: 1 });
    step(&mut d, DispatchEvent::Picked(Some(key("a"))));
    match finish(step(&mut d, DispatchEvent::HeaderTimeout)) {
        DispatchEnd::Error { message, .. } => {
            assert_eq!(message, "upstream timed out after 30s waiting for response headers")
        }
        _ => panic!("expected an error"),
    }
}

#[test]
fn streaming_key_error_in_stream_rotates_and_is_reported() {
    let (mut d, _) = Dispatch::new(1, false, false, true, 30);
    step(&mut d, DispatchEvent::Inspected { cooling: false, max_attempts: 1 });
    step(&mut d, DispatchEvent::Picked(Some(key("a"))));
    step(&mut d, DispatchEvent::Answered { status: 200, body: String::new() });
    let s = step(&mut d, DispatchEvent::KeyError { status: 402, message: "Quota exceeded".into() });
    assert_eq!(s.key_health, Some(402));
    match finish(s) {
        DispatchEnd::Error { message, log, .. } => {
            assert_eq!(message, "upstream 402: Quota exceeded");
            assert_eq!(log.unwrap().detail, "upstream stream error 402: Quota exceeded");
        }
        _ => panic!("expected an error"),
    }
}

#[test]
fn combo_plain_400_ends_streaming_call() {
    let (mut d, _) = Dispatch::new(3, true, true, true, 30);
    step(&mut d, DispatchEvent::Inspected { cooling: false, max_attempts: 1 });
    step(&mut d, DispatchEvent::Picked(Some(key("a"))));
    let s = step(&mut d, DispatchEvent::Answered { status: 400, body: "{\"error\":{\"message\":\"bad input\"}}".into() });
    assert_eq!(s.key_health, Some(400));
    match finish(s) {
        DispatchEnd::Error { message, log, .. } => {
            assert_eq!(message, "bad input");
            assert!(log.unwrap().detail.starts_with("upstream status 400: "));
        }
        _ => panic!("expected an error"),
    }
}

#[test]
fn quota_400_rotates_with_payment_status() {
    let (mut d, _) = Dispatch::new(1, false, false, false, 30);
    step(&mut d, DispatchEvent::Inspected { cooling: false, max_attempts: 2 });
    step(&mut d, DispatchEvent::Picked(Some(key("a"))));
    let s = step(
        &mut d,
        DispatchEvent::Answered {
            status: 400,
            body: "{\"error\":{\"code\":\"quotaExceeded\",\"message\":\"Insufficient quota\"}}".into(),
        },
    );
    assert_eq!(s.key_health, Some(402));
    assert!(matches!(s.action, DispatchAction::PickKey(0)));
}

#[test]
fn non_streaming_plain_400_and_exhaustion() {
    let (mut d, _) = Dispatch::new(1, false, false, false, 30);
    step(&mut d, DispatchEvent::Inspected { cooling: false, max_attempts: 1 });
    step(&mut d, DispatchEvent::Picked(Some(key("a"))));
    match finish(step(&mut d, DispatchEvent::Answered { status: 400, body: "nope".into() })) {
        DispatchEnd::Error { status, error_type, message, .. } => {
            assert_eq!(status, Some(400));
            assert_eq!(error_type, "invalid_request_error");
            assert_eq!(message, "nope");
        }
        _ => panic!("expected an error"),
    }

    let (mut d, _) = Dispatch::new(1, false, false, false, 30);
    step(&mut d, DispatchEvent::Inspected { cooling: false, max_attempts: 1 });
    step(&mut d, DispatchEvent::Picked(Some(key("a"))));
    match finish(step(&mut d, DispatchEvent::Answered { status: 429, body: "{\"message\":\"slow down\"}".into() })) {
        DispatchEnd::Error { status, error_type, message, log } => {
            assert_eq!(status, Some(429));
            assert_eq!(error_type, "rate_limit_error");
            assert_eq!(message, "slow down");
            assert_eq!(log.unwrap().detail, "slow down");
        }
        _ => panic!("expected an error"),
    }
}

#[test]
fn non_streaming_failed_stream_is_answered_with_its_status() {
    let (mut d, _) = Dispatch::new(1, true, false, false, 30);
    step(&mut d, DispatchEvent::Inspected { cooling: false, max_attempts: 1 });
    step(&mut d, DispatchEvent::Picked(Some(key("a"))));
    step(&mut d, DispatchEvent::Answered { status: 200, body: String::new() });
    match finish(step(&mut d, DispatchEvent::Failed { status: 500, message: "overloaded".into() })) {
        DispatchEnd::Error { status, error_type, message, log } => {
            assert_eq!(status, Some(500));
            assert_eq!(error_type, "api_error");
            assert_eq!(message, "overloaded");
            assert_eq!(log.unwrap().detail, "upstream stream error 500: overloaded");
        }
        _ => panic!("expected an error"),
    }
}

#[test]
fn cooling_provider_skipped_with_failover() {
    let (mut d, _) = Dispatch::new(2, true, false, true, 30);
    let s = step(&mut d, DispatchEvent::Inspected { cooling: true, max_attempts: 2 });
    assert!(matches!(s.action, DispatchAction::Inspect(1)));
    assert_eq!(s.mark_failed, None);
}
