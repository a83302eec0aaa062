use stock_streamer::backoff::{full_jitter, next_ceiling};
use stock_streamer::{Action, BackoffPolicy, Event, LifecycleState, Session, SinkPolicy, StreamError};

fn session(sink_policy: SinkPolicy) -> Session {
    Session::open("AAPL.US".to_string(), "demo".to_string(), BackoffPolicy::standard(), sink_policy).unwrap()
}

fn streaming(sink_policy: SinkPolicy) -> Session {
    let mut s = session(sink_policy);
    assert_eq!(s.step(Event::Start), Action::Connect);
    assert_eq!(s.step(Event::Connected), Action::SendSubscribe);
    assert_eq!(s.step(Event::SubscribeSent), Action::Nothing);
    assert_eq!(s.status(), LifecycleState::Streaming);
    s
}

#[test]
fn example_feed_delivers_one_frame() {
    let mut s = streaming(SinkPolicy::DropAndContinue);
    let payload = "{\"s\":\"AAPL.US\",\"p\":150.2}".to_string();
    assert_eq!(s.step(Event::TextFrame(payload.clone())), Action::Deliver(payload));
    assert_eq!(s.status(), LifecycleState::Streaming);
    assert_eq!(s.subscription(), "{\"action\":\"subscribe\",\"symbols\":\"AAPL.US\"}");
}

#[test]
fn three_failures_then_streaming() {
    let mut s = session(SinkPolicy::DropAndContinue);
    assert_eq!(s.step(Event::Start), Action::Connect);
    let mut ceilings = Vec::new();
    for attempt in 1..=3u64 {
        match s.step(Event::ConnectFailed) {
            Action::Backoff { attempt: a, reason, ceiling_ms } => {
                assert_eq!(a, attempt);
                assert_eq!(reason, StreamError::ConnectionError);
                ceilings.push(ceiling_ms);
            }
            other => panic!("expected a backoff, got {:?}", other),
        }
        assert_eq!(s.status(), LifecycleState::Backoff);
        assert_eq!(s.step(Event::RetryDue), Action::Connect);
    }
    assert_eq!(ceilings, vec![1000, 2000, 4000]);
    assert_eq!(s.step(Event::Connected), Action::SendSubscribe);
    assert_eq!(s.step(Event::SubscribeSent), Action::Nothing);
    assert_eq!(s.status(), LifecycleState::Streaming);
}

#[test]
fn ceilings_stop_at_the_cap() {
    let mut s = session(SinkPolicy::DropAndContinue);
    s.step(Event::Start);
    let mut ceilings = Vec::new();
    for _ in 0..8 {
        if let Action::Backoff { ceiling_ms, .. } = s.step(Event::ConnectFailed) {
            ceilings.push(ceiling_ms);
        }
        s.step(Event::RetryDue);
    }
    assert_eq!(ceilings, vec![1000, 2000, 4000, 8000, 16000, 30000, 30000, 30000]);
}

#[test]
fn backoff_resets_after_data_flows() {
    let mut s = session(SinkPolicy::DropAndContinue);
    s.step(Event::Start);
    s.step(Event::ConnectFailed);
    s.step(Event::RetryDue);
    s.step(Event::Connected);
    s.step(Event::SubscribeSent);
    s.step(Event::TextFrame("x".to_string()));
    assert_eq!(
        s.step(Event::PeerClosed),
        Action::Backoff { attempt: 1, reason: StreamError::TransportClosed, ceiling_ms: 1000 }
    );
}

#[test]
fn frames_are_delivered_in_order() {
    let mut s = streaming(SinkPolicy::DropAndContinue);
    let frames = vec!["F1", "F2", "F2", "F3"];
    let mut seen = Vec::new();
    for f in &frames {
        s.step(Event::ControlFrame);
        if let Action::Deliver(t) = s.step(Event::TextFrame(f.to_string())) {
            seen.push(t);
        }
    }
    assert_eq!(seen, frames);
}

#[test]
fn cancellation_from_every_state_terminates() {
    let prefixes: Vec<Vec<Event>> = vec![
        vec![],
        vec![Event::Start],
        vec![Event::Start, Event::Connected],
        vec![Event::Start, Event::Connected, Event::SubscribeSent],
        vec![Event::Start, Event::ConnectFailed],
    ];
    let expected = [
        LifecycleState::Created,
        LifecycleState::Connecting,
        LifecycleState::Subscribing,
        LifecycleState::Streaming,
        LifecycleState::Backoff,
    ];
    for (prefix, state) in prefixes.into_iter().zip(expected) {
        let mut s = session(SinkPolicy::DropAndContinue);
        for e in prefix {
            s.step(e);
        }
        assert_eq!(s.status(), state);
        assert_eq!(s.step(Event::Cancel), Action::Close { cause: None });
        assert_eq!(s.status(), LifecycleState::Closing);
        assert_eq!(s.step(Event::TextFrame("late".to_string())), Action::Nothing);
        assert_eq!(s.step(Event::Closed), Action::Nothing);
        assert_eq!(s.status(), LifecycleState::Terminated);
        assert_eq!(s.step(Event::TextFrame("later".to_string())), Action::Nothing);
        assert_eq!(s.step(Event::RetryDue), Action::Nothing);
        assert_eq!(s.step(Event::Cancel), Action::Nothing);
        assert_eq!(s.status(), LifecycleState::Terminated);
    }
}

#[test]
fn subscribe_send_failure_backs_off() {
    let mut s = session(SinkPolicy::DropAndContinue);
    s.step(Event::Start);
    s.step(Event::Connected);
    assert_eq!(
        s.step(Event::SendFailed),
        Action::Backoff { attempt: 1, reason: StreamError::TransportClosed, ceiling_ms: 1000 }
    );
}

#[test]
fn receive_failure_backs_off() {
    let mut s = streaming(SinkPolicy::DropAndContinue);
    assert!(matches!(s.step(Event::ReceiveFailed), Action::Backoff { reason: StreamError::TransportClosed, .. }));
    assert_eq!(s.status(), LifecycleState::Backoff);
}

#[test]
fn malformed_frame_is_reported() {
    let mut s = streaming(SinkPolicy::DropAndContinue);
    assert_eq!(s.step(Event::MalformedFrame), Action::Report(StreamError::ProtocolError));
    assert_eq!(s.status(), LifecycleState::Streaming);
}

#[test]
fn sink_refusal_dropped_and_continued() {
    let mut s = streaming(SinkPolicy::DropAndContinue);
    assert_eq!(s.step(Event::SinkRejected), Action::Report(StreamError::SinkError));
    assert_eq!(s.status(), LifecycleState::Streaming);
}

#[test]
fn sink_refusal_terminates() {
    let mut s = streaming(SinkPolicy::Terminate);
    assert_eq!(s.step(Event::SinkRejected), Action::Close { cause: Some(StreamError::SinkError) });
    assert_eq!(s.status(), LifecycleState::Closing);
}

#[test]
fn quiet_window_warns_only_without_data() {
    let mut s = streaming(SinkPolicy::DropAndContinue);
    assert_eq!(s.step(Event::QuietWindowElapsed), Action::WarnNoData);
    s.step(Event::TextFrame("x".to_string()));
    assert_eq!(s.step(Event::QuietWindowElapsed), Action::Nothing);
}

#[test]
fn events_out_of_place_change_nothing() {
    let mut s = session(SinkPolicy::DropAndContinue);
    assert_eq!(s.step(Event::Connected), Action::Nothing);
    assert_eq!(s.step(Event::TextFrame("x".to_string())), Action::Nothing);
    assert_eq!(s.step(Event::Closed), Action::Nothing);
    assert_eq!(s.status(), LifecycleState::Created);
}

#[test]
fn policy_validation() {
    assert_eq!(BackoffPolicy::new(0, 10), None);
    assert_eq!(BackoffPolicy::new(11, 10), None);
    assert_eq!(BackoffPolicy::new(10, 10), Some(BackoffPolicy { base_ms: 10, cap_ms: 10 }));
}

#[test]
fn ceiling_doubling() {
    assert_eq!(next_ceiling(1000, 30000), 2000);
    assert_eq!(next_ceiling(16000, 30000), 30000);
    assert_eq!(next_ceiling(u64::MAX, u64::MAX), u64::MAX);
}

#[test]
fn jitter_stays_within_ceiling() {
    assert_eq!(full_jitter(1000, 2500), 498);
    assert_eq!(full_jitter(0, 12345), 0);
    assert_eq!(full_jitter(u64::MAX, 7), 7);
}
