//! Client-side logic for LM Studio: model descriptions and their human-readable
//! rendering, logging rules, the wire protocol's messages and bookkeeping, and
//! the decisions the client takes around its network calls.
pub mod client;
pub mod connection;
pub mod discovery;
pub mod error;
pub mod json;
pub mod logger;
pub mod model_loading;
pub mod rounding;
pub mod text;
pub mod types;

pub use error::{LMStudioError, Result};
pub use logger::{LogLevel, Logger};
pub use types::{ChatMessage, Model};

use vstd::prelude::*;

verus! {

/// The hosts that discovery tries, in order.
pub const LM_STUDIO_API_HOSTS: [&'static str; 2] = ["localhost", "127.0.0.1"];

/// The ports that discovery tries on each host, in order.
pub const LM_STUDIO_API_PORTS: [u16; 2] = [1234, 12345];

} // verus!
