use ble_broadcast::auth::AuthGate;
use ble_broadcast::controller::Action;
use ble_broadcast::controller::AdvertisementController;
use ble_broadcast::controller::SlotState;
use ble_broadcast::controller::ValidationError;
use ble_broadcast::controller::ADVERTISING_INSTANCE;
use ble_broadcast::controller::MAX_DURATION_SECS;
use ble_broadcast::controller::STATUS_ACCEPTED;

fn expect_start(r: Result<Action, ValidationError>, want_payload: &[u8]) -> Vec<u8> {
    match r {
        Ok(Action::IssueStart { payload, instance }) => {
            assert_eq!(payload, want_payload.to_vec());
            assert_eq!(instance, ADVERTISING_INSTANCE);
            payload
        }
        other => panic!("expected a start command, got {:?}", other),
    }
}

#[test]
fn accepted_request_starts_idle_slot() {
    let mut c = AdvertisementController::new();
    assert_eq!(c.state(), SlotState::Idle);
    let r = c.submit(b"AABBCC".to_vec(), 5);
    expect_start(r, b"AABBCC");
    assert_eq!(c.state(), SlotState::StartPending);
    assert_eq!(STATUS_ACCEPTED, 202);
}

#[test]
fn full_lifecycle_start_hold_stop() {
    let mut c = AdvertisementController::new();
    let r = c.submit(b"AABBCC".to_vec(), 5);
    expect_start(r, b"AABBCC");
    let a = c.on_start_result(1000, true);
    assert_eq!(c.state(), SlotState::Advertising);
    assert_eq!(c.deadline(), 1005);
    match a {
        Action::Hold { until } => assert_eq!(until, 1005),
        other => panic!("expected a hold, got {:?}", other),
    }
    let a = c.on_hold_elapsed(1005);
    assert_eq!(c.state(), SlotState::StopPending);
    match a {
        Action::IssueStop { instance } => assert_eq!(instance, ADVERTISING_INSTANCE),
        other => panic!("expected a stop command, got {:?}", other),
    }
    let a = c.on_stop_result(true);
    assert!(matches!(a, Action::Wait));
    assert_eq!(c.state(), SlotState::Idle);
    assert_eq!(c.queued_len(), 0);
}

#[test]
fn failed_start_issues_no_stop() {
    let mut c = AdvertisementController::new();
    let r = c.submit(b"AABBCC".to_vec(), 5);
    expect_start(r, b"AABBCC");
    let a = c.on_start_result(1000, false);
    // the lifecycle ends at once: nothing to hold, nothing to stop
    assert!(matches!(a, Action::Wait));
    assert_eq!(c.state(), SlotState::Idle);
}

#[test]
fn failed_stop_still_frees_the_slot() {
    let mut c = AdvertisementController::new();
    expect_start(c.submit(b"AABBCC".to_vec(), 5), b"AABBCC");
    c.on_start_result(1000, true);
    c.on_hold_elapsed(1005);
    let a = c.on_stop_result(false);
    assert!(matches!(a, Action::Wait));
    assert_eq!(c.state(), SlotState::Idle);
    // a subsequent request proceeds: no permanent lock-out
    expect_start(c.submit(b"DDEEFF".to_vec(), 3), b"DDEEFF");
}

#[test]
fn overlapping_requests_serialize() {
    let mut c = AdvertisementController::new();
    // first request at t = 0, duration 10
    expect_start(c.submit(b"AA11".to_vec(), 10), b"AA11");
    let a = c.on_start_result(0, true);
    assert!(matches!(a, Action::Hold { until: 10 }));
    // second request one second later, duration 3: accepted, but queued
    let r = c.submit(b"BB22".to_vec(), 3);
    assert!(matches!(r, Ok(Action::Wait)));
    assert_eq!(c.queued_len(), 1);
    assert_eq!(c.state(), SlotState::Advertising);
    // the first lifecycle runs to its stop untouched
    let a = c.on_hold_elapsed(10);
    assert!(matches!(a, Action::IssueStop { .. }));
    // only once the first stop completed does the second start go out
    let a = c.on_stop_result(true);
    match a {
        Action::IssueStart { payload, instance } => {
            assert_eq!(payload, b"BB22".to_vec());
            assert_eq!(instance, ADVERTISING_INSTANCE);
        }
        other => panic!("expected the queued start, got {:?}", other),
    }
    let a = c.on_start_result(11, true);
    assert!(matches!(a, Action::Hold { until: 14 }));
    let a = c.on_hold_elapsed(14);
    assert!(matches!(a, Action::IssueStop { .. }));
    let a = c.on_stop_result(true);
    assert!(matches!(a, Action::Wait));
    assert_eq!(c.state(), SlotState::Idle);
}

#[test]
fn queued_requests_start_oldest_first() {
    let mut c = AdvertisementController::new();
    expect_start(c.submit(b"first".to_vec(), 1), b"first");
    assert!(matches!(c.submit(b"second".to_vec(), 1), Ok(Action::Wait)));
    assert!(matches!(c.submit(b"third".to_vec(), 1), Ok(Action::Wait)));
    assert_eq!(c.queued_len(), 2);
    c.on_start_result(0, true);
    c.on_hold_elapsed(1);
    expect_start(Ok(c.on_stop_result(true)), b"second");
    assert_eq!(c.queued_len(), 1);
    c.on_start_result(2, true);
    c.on_hold_elapsed(3);
    expect_start(Ok(c.on_stop_result(true)), b"third");
    assert_eq!(c.queued_len(), 0);
}

#[test]
fn failed_start_hands_slot_to_queued_request() {
    let mut c = AdvertisementController::new();
    expect_start(c.submit(b"AA".to_vec(), 5), b"AA");
    assert!(matches!(c.submit(b"BB".to_vec(), 5), Ok(Action::Wait)));
    // the first start fails: no stop, and the queued request begins at once
    expect_start(Ok(c.on_start_result(0, false)), b"BB");
    assert_eq!(c.state(), SlotState::StartPending);
}

#[test]
fn control_bytes_in_payload_are_rejected() {
    let mut c = AdvertisementController::new();
    assert_eq!(
        c.submit(b"AA\nBB".to_vec(), 5).unwrap_err(),
        ValidationError::MalformedPayload
    );
    assert_eq!(
        c.submit(b"AA;rm\x00".to_vec(), 5).unwrap_err(),
        ValidationError::MalformedPayload
    );
    assert_eq!(
        c.submit(b"tab\tseparated".to_vec(), 5).unwrap_err(),
        ValidationError::MalformedPayload
    );
    // a rejected request leaves the controller untouched
    assert_eq!(c.state(), SlotState::Idle);
    assert_eq!(c.queued_len(), 0);
}

#[test]
fn overlong_duration_is_rejected() {
    let mut c = AdvertisementController::new();
    assert_eq!(
        c.submit(b"AABBCC".to_vec(), MAX_DURATION_SECS + 1).unwrap_err(),
        ValidationError::InvalidDuration
    );
    // the cap itself is accepted
    expect_start(c.submit(b"AABBCC".to_vec(), MAX_DURATION_SECS), b"AABBCC");
}

#[test]
fn empty_payload_is_accepted() {
    let mut c = AdvertisementController::new();
    expect_start(c.submit(Vec::new(), 5), b"");
}

#[test]
fn validation_errors_map_to_http_statuses() {
    assert_eq!(ValidationError::MalformedPayload.http_status(), 400);
    assert_eq!(ValidationError::InvalidDuration.http_status(), 400);
}

#[test]
fn rejected_credential_means_no_start_command() {
    // authorization runs before the controller sees anything: with a bad
    // credential the request never reaches the slot
    let gate = AuthGate::new(Some(b"s3cret-token".to_vec()));
    let mut c = AdvertisementController::new();
    let decision = gate.authorize(Some(b"Bearer wrong-token"));
    assert_eq!(decision.unwrap_err().http_status(), 401);
    // no start command was ever issued
    assert_eq!(c.state(), SlotState::Idle);
    assert_eq!(c.queued_len(), 0);
    // with the right credential the same request is accepted
    assert!(gate.authorize(Some(b"Bearer s3cret-token")).is_ok());
    expect_start(c.submit(b"AABBCC".to_vec(), 5), b"AABBCC");
}
