//! A streaming market-data subscription client.
//!
//! The library holds the decisions of a stream session: validation of the
//! request, the outbound subscription frame, the feed endpoint address, the
//! bounded queue between the session and its consumer, and the lifecycle
//! state machine that drives connection, subscription, the receive loop,
//! backoff and cancellation. Whoever runs the session performs the actions
//! it asks for and hands back what happened as events.
pub mod backoff;
pub mod delivery;
pub mod endpoint;
pub mod error;
pub mod frame;
pub mod request;
pub mod session;

pub use backoff::BackoffPolicy;
pub use error::StreamError;
pub use frame::subscription_frame;
pub use request::StreamRequest;
pub use session::{Action, Event, LifecycleState, Session, SinkPolicy};
