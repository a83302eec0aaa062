use stock_streamer::{BackoffPolicy, LifecycleState, Session, SinkPolicy, StreamError, StreamRequest};

#[test]
fn empty_ticker_is_invalid_argument() {
    let r = StreamRequest::new(String::new(), "demo".to_string());
    assert_eq!(r.err(), Some(StreamError::InvalidArgument));
}

#[test]
fn empty_token_is_invalid_argument() {
    let r = StreamRequest::new("AAPL.US".to_string(), String::new());
    assert_eq!(r.err(), Some(StreamError::InvalidArgument));
}

#[test]
fn both_empty_is_invalid_argument() {
    let r = Session::open(String::new(), String::new(), BackoffPolicy::standard(), SinkPolicy::DropAndContinue);
    assert_eq!(r.err(), Some(StreamError::InvalidArgument));
}

#[test]
fn valid_request_keeps_its_fields() {
    let r = StreamRequest::new("AAPL.US".to_string(), "demo".to_string()).unwrap();
    assert_eq!(r.ticker(), "AAPL.US");
    assert_eq!(r.api_token(), "demo");
}

#[test]
fn opened_session_starts_created() {
    let s = Session::open("AAPL.US".to_string(), "demo".to_string(), BackoffPolicy::standard(), SinkPolicy::Terminate)
        .unwrap();
    assert_eq!(s.status(), LifecycleState::Created);
    assert_eq!(s.request().ticker(), "AAPL.US");
}

#[test]
fn recoverable_errors() {
    assert!(StreamError::ConnectionError.is_recoverable());
    assert!(StreamError::TransportClosed.is_recoverable());
    assert!(!StreamError::InvalidArgument.is_recoverable());
    assert!(!StreamError::ProtocolError.is_recoverable());
    assert!(!StreamError::SinkError.is_recoverable());
}
