use vstd::prelude::*;

use crate::backoff::{
    backoff_ceiling, lemma_ceiling_doubles, lemma_ceiling_monotone, next_ceiling, BackoffPolicy,
};
use crate::endpoint::{endpoint_address, endpoint_url, url_accepts};
use crate::error::StreamError;
use crate::frame::{subscribe_frame, subscription_frame};
use crate::request::StreamRequest;

verus! {

/// Where a session stands in its lifecycle.
#[derive(Clone, Copy, Debug, PartialEq, Eq, Structural)]
pub enum LifecycleState {
    Created,
    Connecting,
    Subscribing,
    Streaming,
    Backoff,
    Closing,
    Terminated,
}

/// What a session does when the consumer refuses a frame.
#[derive(Clone, Copy, Debug, PartialEq, Eq, Structural)]
pub enum SinkPolicy {
    /// Report the refusal, drop the frame and keep streaming.
    DropAndContinue,
    /// Close the session.
    Terminate,
}

/// What happened, as the runner of a session observed it.
#[derive(Debug, PartialEq, Eq)]
pub enum Event {
    /// The worker has begun.
    Start,
    /// The transport connection is open.
    Connected,
    /// The transport connection could not be opened.
    ConnectFailed,
    /// The subscription frame went out.
    SubscribeSent,
    /// The subscription frame could not be sent.
    SendFailed,
    /// A text frame arrived.
    TextFrame(String),
    /// A ping, pong or other control frame arrived; the transport answers it.
    ControlFrame,
    /// A frame arrived that is not text.
    MalformedFrame,
    /// The peer closed the connection.
    PeerClosed,
    /// Receiving failed.
    ReceiveFailed,
    /// The consumer refused the last delivered frame.
    SinkRejected,
    /// The grace window after subscribing has passed.
    QuietWindowElapsed,
    /// The backoff delay has passed.
    RetryDue,
    /// The caller asked for cancellation.
    Cancel,
    /// The transport handle has been closed and its resources released.
    Closed,
}

/// What the runner of a session is to do next.
#[derive(Debug, PartialEq, Eq)]
pub enum Action {
    /// Open a transport connection to the feed endpoint.
    Connect,
    /// Send the subscription frame on the open connection.
    SendSubscribe,
    /// Hand this payload to the consumer.
    Deliver(String),
    /// Report a failure that the session has dealt with.
    Report(StreamError),
    /// Warn that no data arrived within the grace window.
    WarnNoData,
    /// Report degradation, then wait a jittered delay of at most `ceiling_ms`
    /// before the next attempt; `attempt` counts consecutive failures.
    Backoff { attempt: u64, reason: StreamError, ceiling_ms: u64 },
    /// Close the transport handle; `cause` is the failure that ended the
    /// session, if it was not a cancellation.
    Close { cause: Option<StreamError> },
    /// Nothing to do.
    Nothing,
}

/// The mathematical state of a session.
pub struct SessionView {
    pub state: LifecycleState,
    pub base_ms: u64,
    pub cap_ms: u64,
    pub sink_policy: SinkPolicy,
    /// Consecutive failed attempts since data last flowed.
    pub failures: u64,
    /// Whether a text frame has arrived on the current connection.
    pub seen_frame: bool,
}

impl SessionView {
    pub open spec fn wf(self) -> bool {
        0 < self.base_ms && self.base_ms <= self.cap_ms
    }

    /// This view with another lifecycle state.
    pub open spec fn with_state(self, state: LifecycleState) -> SessionView {
        SessionView { state, ..self }
    }
}

/// The state a session is in before anything has happened.
pub open spec fn initial(policy: BackoffPolicy, sink_policy: SinkPolicy) -> SessionView {
    SessionView {
        state: LifecycleState::Created,
        base_ms: policy.base_ms,
        cap_ms: policy.cap_ms,
        sink_policy,
        failures: 0,
        seen_frame: false,
    }
}

/// One more failure, counted up to the largest count a `u64` holds.
pub open spec fn saturating_inc(n: u64) -> u64 {
    if n < u64::MAX {
        (n + 1) as u64
    } else {
        n
    }
}

/// Entering backoff after a recoverable failure: the failure is counted and
/// reported, with the delay ceiling for the failures before it.
pub open spec fn enter_backoff(s: SessionView, reason: StreamError) -> (SessionView, Action) {
    (
        SessionView { state: LifecycleState::Backoff, failures: saturating_inc(s.failures), ..s },
        Action::Backoff {
            attempt: saturating_inc(s.failures),
            reason,
            ceiling_ms: backoff_ceiling(s.base_ms as nat, s.cap_ms as nat, s.failures as nat) as u64,
        },
    )
}

/// The lifecycle transition: the next state and the action for an event.
/// An event that does not fit the current state changes nothing.
pub open spec fn next(s: SessionView, e: Event) -> (SessionView, Action) {
    let closing = s.state == LifecycleState::Closing || s.state == LifecycleState::Terminated;
    match e {
        Event::Cancel => if closing {
            (s, Action::Nothing)
        } else {
            (s.with_state(LifecycleState::Closing), Action::Close { cause: None })
        },
        Event::Closed => if s.state == LifecycleState::Closing {
            (s.with_state(LifecycleState::Terminated), Action::Nothing)
        } else {
            (s, Action::Nothing)
        },
        Event::Start => if s.state == LifecycleState::Created {
            (s.with_state(LifecycleState::Connecting), Action::Connect)
        } else {
            (s, Action::Nothing)
        },
        Event::RetryDue => if s.state == LifecycleState::Backoff {
            (s.with_state(LifecycleState::Connecting), Action::Connect)
        } else {
            (s, Action::Nothing)
        },
        Event::Connected => if s.state == LifecycleState::Connecting {
            (
                SessionView { state: LifecycleState::Subscribing, seen_frame: false, ..s },
                Action::SendSubscribe,
            )
        } else {
            (s, Action::Nothing)
        },
        Event::ConnectFailed => if s.state == LifecycleState::Connecting {
            enter_backoff(s, StreamError::ConnectionError)
        } else {
            (s, Action::Nothing)
        },
        Event::SubscribeSent => if s.state == LifecycleState::Subscribing {
            (s.with_state(LifecycleState::Streaming), Action::Nothing)
        } else {
            (s, Action::Nothing)
        },
        Event::SendFailed => if s.state == LifecycleState::Subscribing {
            enter_backoff(s, StreamError::TransportClosed)
        } else {
            (s, Action::Nothing)
        },
        Event::TextFrame(t) => if s.state == LifecycleState::Streaming {
            (SessionView { failures: 0, seen_frame: true, ..s }, Action::Deliver(t))
        } else {
            (s, Action::Nothing)
        },
        Event::ControlFrame => (s, Action::Nothing),
        Event::MalformedFrame => if s.state == LifecycleState::Streaming {
            (s, Action::Report(StreamError::ProtocolError))
        } else {
            (s, Action::Nothing)
        },
        Event::PeerClosed | Event::ReceiveFailed => if s.state == LifecycleState::Streaming {
            enter_backoff(s, StreamError::TransportClosed)
        } else {
            (s, Action::Nothing)
        },
        Event::SinkRejected => if s.state != LifecycleState::Streaming {
            (s, Action::Nothing)
        } else if s.sink_policy == SinkPolicy::DropAndContinue {
            (s, Action::Report(StreamError::SinkError))
        } else {
            (
                s.with_state(LifecycleState::Closing),
                Action::Close { cause: Some(StreamError::SinkError) },
            )
        },
        Event::QuietWindowElapsed => if s.state == LifecycleState::Streaming && !s.seen_frame {
            (s, Action::WarnNoData)
        } else {
            (s, Action::Nothing)
        },
    }
}

/// One stream session: the request it serves and its lifecycle state. Only
/// `step` changes it, one event at a time.
pub struct Session {
    request: StreamRequest,
    state: LifecycleState,
    policy: BackoffPolicy,
    sink_policy: SinkPolicy,
    failures: u64,
    ceiling_ms: u64,
    seen_frame: bool,
}

impl View for Session {
    type V = SessionView;

    closed spec fn view(&self) -> SessionView {
        SessionView {
            state: self.state,
            base_ms: self.policy.base_ms,
            cap_ms: self.policy.cap_ms,
            sink_policy: self.sink_policy,
            failures: self.failures,
            seen_frame: self.seen_frame,
        }
    }
}

impl Session {
    /// The policy is well-formed, the request valid, and the stored ceiling
    /// is the one for the current failure count.
    pub closed spec fn wf(&self) -> bool {
        &&& self.policy.wf()
        &&& self.request.wf()
        &&& self.ceiling_ms == backoff_ceiling(
            self.policy.base_ms as nat,
            self.policy.cap_ms as nat,
            self.failures as nat,
        )
    }

    pub closed spec fn spec_request(&self) -> StreamRequest {
        self.request
    }

    /// A session for a validated request, not yet started.
    pub fn new(request: StreamRequest, policy: BackoffPolicy, sink_policy: SinkPolicy) -> (r: Session)
        requires
            request.wf(),
            policy.wf(),
        ensures
            r.wf(),
            r@ == initial(policy, sink_policy),
            r.spec_request() == request,
    {
        proof {
            lemma_ceiling_doubles(policy.base_ms as nat, policy.cap_ms as nat, 0);
        }
        Session {
            request,
            state: LifecycleState::Created,
            policy,
            sink_policy,
            failures: 0,
            ceiling_ms: policy.base_ms,
            seen_frame: false,
        }
    }

    /// Validates a request and makes a session for it, before any
    /// connection is attempted: an empty ticker or token gives
    /// `InvalidArgument`, and nothing else fails.
    pub fn open(ticker: String, api_token: String, policy: BackoffPolicy, sink_policy: SinkPolicy) -> (r:
        Result<Session, StreamError>)
        requires
            policy.wf(),
        ensures
            r is Err <==> (ticker@.len() == 0 || api_token@.len() == 0),
            r is Err ==> r->Err_0 == StreamError::InvalidArgument,
            r is Ok ==> r->Ok_0.wf() && r->Ok_0@ == initial(policy, sink_policy)
                && r->Ok_0.spec_request().spec_ticker() == ticker@
                && r->Ok_0.spec_request().spec_api_token() == api_token@,
    {
        match StreamRequest::new(ticker, api_token) {
            Ok(request) => Ok(Session::new(request, policy, sink_policy)),
            Err(e) => Err(e),
        }
    }

    /// The lifecycle state, as a handle reports it.
    pub fn status(&self) -> (r: LifecycleState)
        ensures
            r == self@.state,
    {
        self.state
    }

    /// The request this session serves.
    pub fn request(&self) -> (r: &StreamRequest)
        ensures
            *r == self.spec_request(),
    {
        &self.request
    }

    /// The subscription frame to send on each new connection.
    pub fn subscription(&self) -> (r: String)
        ensures
            r@ == subscribe_frame(self.spec_request().spec_ticker()),
    {
        subscription_frame(self.request.ticker().as_str())
    }

    /// The feed endpoint to connect to.
    pub fn endpoint(&self) -> (r: Result<url::Url, StreamError>)
        ensures
            r is Ok <==> url_accepts(endpoint_address(self.spec_request().spec_api_token())),
            r is Err ==> r->Err_0 == StreamError::ConnectionError,
    {
        endpoint_url(self.request.api_token().as_str())
    }

    fn backoff(&mut self, reason: StreamError) -> (r: Action)
        requires
            old(self).wf(),
        ensures
            final(self).wf(),
            final(self).spec_request() == old(self).spec_request(),
            (final(self)@, r) == enter_backoff(old(self)@, reason),
    {
        proof {
            lemma_ceiling_doubles(self.policy.base_ms as nat, self.policy.cap_ms as nat, self.failures as nat);
        }
        let ceiling_ms = self.ceiling_ms;
        if self.failures < u64::MAX {
            self.failures = self.failures + 1;
            self.ceiling_ms = next_ceiling(self.ceiling_ms, self.policy.cap_ms);
        }
        self.state = LifecycleState::Backoff;
        Action::Backoff { attempt: self.failures, reason, ceiling_ms }
    }

    /// Takes one event and moves the session as `next` states; returns the
    /// action for the runner to perform.
    pub fn step(&mut self, event: Event) -> (r: Action)
        requires
            old(self).wf(),
        ensures
            final(self).wf(),
            final(self).spec_request() == old(self).spec_request(),
            (final(self)@, r) == next(old(self)@, event),
    {
        let closing = self.state == LifecycleState::Closing || self.state == LifecycleState::Terminated;
        match event {
            Event::Cancel => {
                if closing {
                    Action::Nothing
                } else {
                    self.state = LifecycleState::Closing;
                    Action::Close { cause: None }
                }
            },
            Event::Closed => {
                if self.state == LifecycleState::Closing {
                    self.state = LifecycleState::Terminated;
                }
                Action::Nothing
            },
            Event::Start => {
                if self.state == LifecycleState::Created {
                    self.state = LifecycleState::Connecting;
                    Action::Connect
                } else {
                    Action::Nothing
                }
            },
            Event::RetryDue => {
                if self.state == LifecycleState::Backoff {
                    self.state = LifecycleState::Connecting;
                    Action::Connect
                } else {
                    Action::Nothing
                }
            },
            Event::Connected => {
                if self.state == LifecycleState::Connecting {
                    self.state = LifecycleState::Subscribing;
                    self.seen_frame = false;
                    Action::SendSubscribe
                } else {
                    Action::Nothing
                }
            },
            Event::ConnectFailed => {
                if self.state == LifecycleState::Connecting {
                    self.backoff(StreamError::ConnectionError)
                } else {
                    Action::Nothing
                }
            },
            Event::SubscribeSent => {
                if self.state == LifecycleState::Subscribing {
                    self.state = LifecycleState::Streaming;
                }
                Action::Nothing
            },
            Event::SendFailed => {
                if self.state == LifecycleState::Subscribing {
                    self.backoff(StreamError::TransportClosed)
                } else {
                    Action::Nothing
                }
            },
            Event::TextFrame(t) => {
                if self.state == LifecycleState::Streaming {
                    self.failures = 0;
                    self.ceiling_ms = self.policy.base_ms;
                    self.seen_frame = true;
                    proof {
                        lemma_ceiling_doubles(self.policy.base_ms as nat, self.policy.cap_ms as nat, 0);
                    }
                    Action::Deliver(t)
                } else {
                    Action::Nothing
                }
            },
            Event::ControlFrame => Action::Nothing,
            Event::MalformedFrame => {
                if self.state == LifecycleState::Streaming {
                    Action::Report(StreamError::ProtocolError)
                } else {
                    Action::Nothing
                }
            },
            Event::PeerClosed | Event::ReceiveFailed => {
                if self.state == LifecycleState::Streaming {
                    self.backoff(StreamError::TransportClosed)
                } else {
                    Action::Nothing
                }
            },
            Event::SinkRejected => {
                if self.state != LifecycleState::Streaming {
                    Action::Nothing
                } else if self.sink_policy == SinkPolicy::DropAndContinue {
                    Action::Report(StreamError::SinkError)
                } else {
                    self.state = LifecycleState::Closing;
                    Action::Close { cause: Some(StreamError::SinkError) }
                }
            },
            Event::QuietWindowElapsed => {
                if self.state == LifecycleState::Streaming && !self.seen_frame {
                    Action::WarnNoData
                } else {
                    Action::Nothing
                }
            },
        }
    }
}

/// The state and the actions after a sequence of events, taken in order.
pub open spec fn run(s: SessionView, events: Seq<Event>) -> (SessionView, Seq<Action>)
    decreases events.len(),
{
    if events.len() == 0 {
        (s, Seq::empty())
    } else {
        let (s1, a) = next(s, events[0]);
        let (s2, rest) = run(s1, events.subrange(1, events.len() as int));
        (s2, seq![a] + rest)
    }
}

/// `n` failed connection attempts, each followed by its retry.
pub open spec fn failed_attempts(n: nat) -> Seq<Event>
    decreases n,
{
    if n == 0 {
        Seq::empty()
    } else {
        seq![Event::ConnectFailed, Event::RetryDue] + failed_attempts((n - 1) as nat)
    }
}

/// A successful connection followed by the subscription going out.
pub open spec fn connect_and_subscribe() -> Seq<Event> {
    seq![Event::Connected, Event::SubscribeSent]
}

proof fn lemma_run_two(s: SessionView, a: Event, b: Event, rest: Seq<Event>)
    ensures
        run(s, seq![a, b] + rest) == ({
            let (s1, x) = next(s, a);
            let (s2, y) = next(s1, b);
            let (s3, r) = run(s2, rest);
            (s3, seq![x, y] + r)
        }),
{
    let e = seq![a, b] + rest;
    assert(e[0] == a);
    assert(e.subrange(1, e.len() as int) =~= seq![b] + rest);
    let e1 = seq![b] + rest;
    assert(e1[0] == b);
    assert(e1.subrange(1, e1.len() as int) =~= rest);
    let (s1, x) = next(s, a);
    let (s2, y) = next(s1, b);
    let (s3, r) = run(s2, rest);
    assert(run(s1, e1) == (s3, seq![y] + r));
    assert(run(s, e) == (s3, seq![x] + (seq![y] + r)));
    assert(seq![x] + (seq![y] + r) =~= seq![x, y] + r);
}

proof fn lemma_retries(s: SessionView, n: nat)
    requires
        s.wf(),
        s.state == LifecycleState::Connecting,
        s.failures + n < u64::MAX,
    ensures
        run(s, failed_attempts(n) + connect_and_subscribe()).0.state == LifecycleState::Streaming,
        run(s, failed_attempts(n) + connect_and_subscribe()).0.failures == s.failures + n,
        run(s, failed_attempts(n) + connect_and_subscribe()).1.len() == 2 * n + 2,
        forall|k: int|
            0 <= k < 2 * n ==> #[trigger] run(s, failed_attempts(n) + connect_and_subscribe()).1[k] == if k
                % 2 == 0 {
                Action::Backoff {
                    attempt: (s.failures + k / 2 + 1) as u64,
                    reason: StreamError::ConnectionError,
                    ceiling_ms: backoff_ceiling(s.base_ms as nat, s.cap_ms as nat, (s.failures + k / 2) as nat)
                        as u64,
                }
            } else {
                Action::Connect
            },
        run(s, failed_attempts(n) + connect_and_subscribe()).1[2 * n as int] == Action::SendSubscribe,
        run(s, failed_attempts(n) + connect_and_subscribe()).1[2 * n as int + 1] == Action::Nothing,
    decreases n,
{
    let tail = connect_and_subscribe();
    if n == 0 {
        assert(failed_attempts(0) + tail =~= seq![Event::Connected, Event::SubscribeSent] + Seq::empty());
        lemma_run_two(s, Event::Connected, Event::SubscribeSent, Seq::empty());
    } else {
        let m = (n - 1) as nat;
        assert(failed_attempts(n) + tail =~= seq![Event::ConnectFailed, Event::RetryDue] + (
        failed_attempts(m) + tail));
        lemma_run_two(s, Event::ConnectFailed, Event::RetryDue, failed_attempts(m) + tail);
        let s2 = next(next(s, Event::ConnectFailed).0, Event::RetryDue).0;
        lemma_retries(s2, m);
        let acts = run(s, failed_attempts(n) + tail).1;
        let sub = run(s2, failed_attempts(m) + tail).1;
        assert forall|k: int| 0 <= k < 2 * n implies #[trigger] acts[k] == if k % 2 == 0 {
            Action::Backoff {
                attempt: (s.failures + k / 2 + 1) as u64,
                reason: StreamError::ConnectionError,
                ceiling_ms: backoff_ceiling(s.base_ms as nat, s.cap_ms as nat, (s.failures + k / 2) as nat)
                    as u64,
            }
        } else {
            Action::Connect
        } by {
            if k >= 2 {
                assert(acts[k] == sub[k - 2]);
                assert((k - 2) / 2 == k / 2 - 1);
                assert((k - 2) % 2 == k % 2);
            }
        }
    }
}

/// A session that is started and whose connection fails `n` times before it
/// succeeds reaches streaming after exactly `n` backoff cycles. Each failure
/// is reported by its own backoff action, numbered from one, with a delay
/// ceiling that never decreases and never exceeds the cap; no other action
/// reports a failure.
pub proof fn lemma_reaches_streaming_after_retries(policy: BackoffPolicy, sink_policy: SinkPolicy, n: nat)
    requires
        policy.wf(),
        n < u64::MAX,
    ensures
        ({
            let events = seq![Event::Start] + failed_attempts(n) + connect_and_subscribe();
            let (last, acts) = run(initial(policy, sink_policy), events);
            &&& last.state == LifecycleState::Streaming
            &&& acts.len() == 2 * n + 3
            &&& acts[0] == Action::Connect
            &&& forall|k: int|
                1 <= k <= 2 * n ==> #[trigger] acts[k] == if k % 2 == 1 {
                    Action::Backoff {
                        attempt: ((k + 1) / 2) as u64,
                        reason: StreamError::ConnectionError,
                        ceiling_ms: backoff_ceiling(policy.base_ms as nat, policy.cap_ms as nat, ((k - 1) / 2) as nat)
                            as u64,
                    }
                } else {
                    Action::Connect
                }
            &&& forall|i: int| 0 <= i < acts.len() ==> (acts[i] is Backoff <==> (i % 2 == 1 && i < 2 * n))
            &&& forall|i: int, j: int|
                0 <= i <= j < n ==> #[trigger] backoff_ceiling(policy.base_ms as nat, policy.cap_ms as nat, i as nat)
                    <= #[trigger] backoff_ceiling(policy.base_ms as nat, policy.cap_ms as nat, j as nat)
                    <= policy.cap_ms
        }),
{
    let s0 = initial(policy, sink_policy);
    let rest = failed_attempts(n) + connect_and_subscribe();
    let events = seq![Event::Start] + failed_attempts(n) + connect_and_subscribe();
    assert(events =~= seq![Event::Start] + rest);
    assert(events[0] == Event::Start);
    assert(events.subrange(1, events.len() as int) =~= rest);
    let s1 = next(s0, Event::Start).0;
    lemma_retries(s1, n);
    let acts = run(s0, events).1;
    let sub = run(s1, rest).1;
    assert(acts =~= seq![Action::Connect] + sub);
    assert forall|k: int| 0 <= k < acts.len() implies (#[trigger] acts[k] is Backoff <==> (k % 2 == 1 && k < 2
        * n)) && (1 <= k <= 2 * n ==> acts[k] == if k % 2 == 1 {
        Action::Backoff {
            attempt: ((k + 1) / 2) as u64,
            reason: StreamError::ConnectionError,
            ceiling_ms: backoff_ceiling(policy.base_ms as nat, policy.cap_ms as nat, ((k - 1) / 2) as nat)
                as u64,
        }
    } else {
        Action::Connect
    }) by {
        if k > 0 {
            assert(acts[k] == sub[k - 1]);
            assert((k - 1) % 2 == 0 <==> k % 2 == 1);
            assert(k % 2 == 1 ==> (k - 1) / 2 == (k + 1) / 2 - 1);
        }
    }
    assert forall|i: int, j: int| 0 <= i <= j < n implies #[trigger] backoff_ceiling(
        policy.base_ms as nat,
        policy.cap_ms as nat,
        i as nat,
    ) <= #[trigger] backoff_ceiling(policy.base_ms as nat, policy.cap_ms as nat, j as nat) <= policy.cap_ms by {
        lemma_ceiling_monotone(policy.base_ms as nat, policy.cap_ms as nat, i as nat, j as nat);
    }
}

/// The text-frame events for a sequence of payloads, in order.
pub open spec fn text_events(frames: Seq<String>) -> Seq<Event> {
    frames.map_values(|f: String| Event::TextFrame(f))
}

/// The deliveries of a sequence of payloads, in order.
pub open spec fn deliveries(frames: Seq<String>) -> Seq<Action> {
    frames.map_values(|f: String| Action::Deliver(f))
}

/// While streaming, the consumer is handed exactly the frames that arrive,
/// each once and in the order of arrival, and the session keeps streaming.
pub proof fn lemma_frames_delivered_in_order(s: SessionView, frames: Seq<String>)
    requires
        s.state == LifecycleState::Streaming,
    ensures
        run(s, text_events(frames)).1 == deliveries(frames),
        run(s, text_events(frames)).0.state == LifecycleState::Streaming,
    decreases frames.len(),
{
    if frames.len() > 0 {
        let rest = frames.subrange(1, frames.len() as int);
        let ev = text_events(frames);
        assert(ev[0] == Event::TextFrame(frames[0]));
        assert(ev.subrange(1, ev.len() as int) =~= text_events(rest));
        let s1 = next(s, Event::TextFrame(frames[0])).0;
        lemma_frames_delivered_in_order(s1, rest);
        assert(deliveries(frames) =~= seq![Action::Deliver(frames[0])] + deliveries(rest));
    } else {
        assert(deliveries(frames) =~= Seq::<Action>::empty());
    }
}

/// A closing or terminated session stays so, and delivers nothing more.
proof fn lemma_closing_stays_quiet(s: SessionView, events: Seq<Event>)
    requires
        s.state == LifecycleState::Closing || s.state == LifecycleState::Terminated,
    ensures
        run(s, events).0.state == LifecycleState::Closing || run(s, events).0.state
            == LifecycleState::Terminated,
        forall|i: int| 0 <= i < run(s, events).1.len() ==> !(run(s, events).1[i] is Deliver),
    decreases events.len(),
{
    if events.len() > 0 {
        let (s1, a) = next(s, events[0]);
        let rest = events.subrange(1, events.len() as int);
        lemma_closing_stays_quiet(s1, rest);
        let acts = run(s, events).1;
        assert(acts =~= seq![a] + run(s1, rest).1);
        assert forall|i: int| 0 <= i < acts.len() implies !(acts[i] is Deliver) by {
            if i > 0 {
                assert(acts[i] == run(s1, rest).1[i - 1]);
            }
        }
    }
}

/// Cancellation in any state moves the session to closing (a terminated one
/// stays terminated); once the handle is closed the session is terminated,
/// and whatever happens after the cancellation, no frame is delivered.
pub proof fn lemma_cancel_terminates(s: SessionView, events: Seq<Event>)
    ensures
        s.state != LifecycleState::Terminated ==> next(s, Event::Cancel).0.state == LifecycleState::Closing,
        s.state == LifecycleState::Terminated ==> next(s, Event::Cancel).0.state == LifecycleState::Terminated,
        next(next(s, Event::Cancel).0, Event::Closed).0.state == LifecycleState::Terminated,
        forall|i: int|
            0 <= i < run(next(s, Event::Cancel).0, events).1.len() ==> !(run(
                next(s, Event::Cancel).0,
                events,
            ).1[i] is Deliver),
{
    lemma_closing_stays_quiet(next(s, Event::Cancel).0, events);
}

} // verus!
