//! A runtime core for nodes that speak a line-delimited JSON protocol:
//! message framing, the error taxonomy, the init handshake and the
//! correlation of replies with outstanding requests.

pub mod error;
pub mod handlers;
pub mod json;
pub mod kv;
pub mod node;
pub mod proto;

pub use error::Error;
pub use node::{write_message, Action, Node, NodeInner, NodeMetadata};
