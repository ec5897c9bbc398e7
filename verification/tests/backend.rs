use analog_viewer::backend::{receive_failure, PollPlan, ViewerBackend, BINARY_MIN_INTERVAL_MS, TEXT_MIN_INTERVAL_MS};
use analog_viewer::codec::WireVariant;
use analog_viewer::errors::{CodecError, StateError, TransportError, TransportOp, ViewerBackendError};
use analog_viewer::rate::poll_allowed;

#[test]
fn default_intervals() {
    assert_eq!(BINARY_MIN_INTERVAL_MS, 1);
    assert_eq!(TEXT_MIN_INTERVAL_MS, 5);
}

#[test]
fn rate_limiter_boundaries() {
    assert!(!poll_allowed(100, 100, 5));
    assert!(!poll_allowed(104, 100, 5));
    assert!(poll_allowed(105, 100, 5));
    assert!(poll_allowed(200, 100, 5));
    // a clock that moved backwards never admits a poll
    assert!(!poll_allowed(99, 100, 5));
}

#[test]
fn read_before_any_poll_fails() {
    let backend = ViewerBackend::new(WireVariant::Binary, 1, 0);
    assert_eq!(
        backend.read(),
        Err(ViewerBackendError::State(StateError::NotYetPolled))
    );
}

#[test]
fn plan_below_interval_serves_cache() {
    let backend = ViewerBackend::new(WireVariant::Binary, 5, 100);
    assert_eq!(backend.poll_plan(104), PollPlan::UseCached);
    let cached = backend.cached();
    assert_eq!((cached.a0, cached.a1, cached.a2, cached.a3), (0, 0, 0, 0));
}

#[test]
fn plan_at_interval_is_one_exchange_with_first_init() {
    let mut backend = ViewerBackend::new(WireVariant::Binary, 5, 100);
    assert_eq!(backend.poll_plan(105), PollPlan::Exchange { send_init: true });
    backend.note_init_sent();
    assert_eq!(backend.poll_plan(105), PollPlan::Exchange { send_init: false });
}

#[test]
fn text_variant_never_plans_init() {
    let backend = ViewerBackend::new(WireVariant::Text, 5, 0);
    assert_eq!(backend.poll_plan(5), PollPlan::Exchange { send_init: false });
}

#[test]
fn commit_success_updates_cache_and_read_succeeds() {
    let mut backend = ViewerBackend::new(WireVariant::Binary, 1, 0);
    let payload = [0u8, 7, 0, 8, 0, 9, 0, 10];
    let av = backend.commit_response(&payload, 42).unwrap();
    assert_eq!((av.a0, av.a1, av.a2, av.a3), (7, 8, 9, 10));
    assert_eq!(backend.last_poll_ms, 42);
    assert_eq!(backend.polled_amt, 1);
    assert!(backend.has_polled);
    let read = backend.read().unwrap();
    assert_eq!((read.a0, read.a1, read.a2, read.a3), (7, 8, 9, 10));
}

#[test]
fn read_keeps_succeeding_after_first_success() {
    let mut backend = ViewerBackend::new(WireVariant::Binary, 1, 0);
    let payload = [0u8, 7, 0, 8, 0, 9, 0, 10];
    backend.commit_response(&payload, 1).unwrap();
    assert!(backend.read().is_ok());
    // a later decode failure does not take the reading away
    assert!(backend.commit_response(&[1, 2, 3], 2).is_err());
    assert!(backend.read().is_ok());
    // nor does a later init notice
    backend.note_init_sent();
    assert!(backend.read().is_ok());
}

#[test]
fn commit_failure_leaves_state_unchanged() {
    let mut backend = ViewerBackend::new(WireVariant::Binary, 1, 0);
    let good = [0u8, 7, 0, 8, 0, 9, 0, 10];
    backend.commit_response(&good, 5).unwrap();
    let r = backend.commit_response(&[1u8, 2, 3], 9);
    assert_eq!(r, Err(ViewerBackendError::Codec(CodecError::Truncated)));
    assert_eq!(backend.last_poll_ms, 5);
    assert_eq!(backend.polled_amt, 1);
    let read = backend.read().unwrap();
    assert_eq!((read.a0, read.a1, read.a2, read.a3), (7, 8, 9, 10));
}

#[test]
fn commit_decodes_text_variant() {
    let mut backend = ViewerBackend::new(WireVariant::Text, 5, 0);
    let av = backend.commit_response(b"11:22:33:44", 6).unwrap();
    assert_eq!((av.a0, av.a1, av.a2, av.a3), (11, 22, 33, 44));
    let r = backend.commit_response(b"11:x:33:44", 12);
    assert_eq!(
        r,
        Err(ViewerBackendError::Codec(CodecError::InvalidField {
            channel: 1,
            raw: b"x".to_vec(),
        }))
    );
}

#[test]
fn receive_failure_reports_original_error() {
    let original = TransportError {
        op: TransportOp::Receive,
        detail: String::from("connection reset"),
    };
    let after_good_reconnect = receive_failure(original.clone(), Ok(()));
    assert_eq!(after_good_reconnect, ViewerBackendError::Transport(original.clone()));

    let reconnect_error = TransportError {
        op: TransportOp::Connect,
        detail: String::from("network unreachable"),
    };
    let after_bad_reconnect = receive_failure(original.clone(), Err(reconnect_error));
    assert_eq!(after_bad_reconnect, ViewerBackendError::Transport(original));
}
