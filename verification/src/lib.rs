//! A harness for nodes that speak a line-delimited JSON request/reply protocol:
//! the envelope of a message, the rule by which a reply is derived from a
//! request, and the contract between the message loop and a node's handler.

pub mod broadcast_node;
pub mod combined;
pub mod decimal;
pub mod echo;
pub mod fields;
pub mod handshake;
pub mod json;
pub mod message;
pub mod node;
pub mod unique_ids;
pub mod wire;

pub use json::{DecodeError, EncodeError, Json};
pub use message::{Body, Init, InitOk, Message};
pub use node::Node;
