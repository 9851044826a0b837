use data_server::connect::{DialStep, Dialer, DIAL_RETRY_DELAY_SECS};
use data_server::errors::{recovery_of, ErrorKind, Recovery};

#[test]
fn recovery_per_error_kind() {
    assert_eq!(recovery_of(ErrorKind::Transport), Recovery::DropUnitOfWork);
    assert_eq!(recovery_of(ErrorKind::Framing), Recovery::DropUnitOfWork);
    assert_eq!(recovery_of(ErrorKind::Codec), Recovery::DropUnitOfWork);
    assert_eq!(recovery_of(ErrorKind::Connect), Recovery::RetryAfterDelay);
    assert_eq!(recovery_of(ErrorKind::Persistence), Recovery::RetainBufferForRetry);
    assert_eq!(recovery_of(ErrorKind::Config), Recovery::FatalAtStartup);
}

#[test]
fn dialer_connects_every_endpoint_in_order() {
    let mut dialer = Dialer::new(2);
    assert!(!dialer.done());
    assert_eq!(dialer.next_endpoint(), 0);
    // two failures keep the same endpoint and ask for a delay
    assert_eq!(dialer.on_attempt(false), DialStep::RetryAfterDelay);
    assert_eq!(dialer.next_endpoint(), 0);
    assert_eq!(dialer.on_attempt(false), DialStep::RetryAfterDelay);
    assert_eq!(dialer.next_endpoint(), 0);
    // success moves to the next endpoint
    assert_eq!(dialer.on_attempt(true), DialStep::Proceed);
    assert!(!dialer.done());
    assert_eq!(dialer.next_endpoint(), 1);
    assert_eq!(dialer.on_attempt(true), DialStep::Proceed);
    assert!(dialer.done());
}

#[test]
fn dialer_with_no_endpoints_is_done_at_once() {
    let dialer = Dialer::new(0);
    assert!(dialer.done());
}

#[test]
fn dial_retry_delay_is_one_second() {
    assert_eq!(DIAL_RETRY_DELAY_SECS, 1);
}
