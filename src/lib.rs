//! Handle registry and subscription bridge for a pub/sub broker client.
//!
//! The library keeps the decisions of the bridge: which clients are
//! registered under which handles, how a client's configuration is
//! accumulated and validated, which topics a subscriber holds, and how
//! pushed events are queued and handed out one at a time.
use vstd::prelude::*;

pub mod builder;
pub mod queue;
pub mod registry;
pub mod subscriber;
pub mod topic;

pub use builder::{BuildError, BuilderView, ClientBuilderWrapper, ClientConfig, InvalidBrokerOptions};
pub use queue::{EventQueue, PollOutcome, QueueView};
pub use registry::{Handle, Registry, RegistryError};
pub use subscriber::{BrokerRejected, SubscriberView, TopicAction, TopicRequest, TopicSubscriber};
pub use topic::{InvalidTopic, Topic};
