//! Client side of the Gaze publish/subscribe protocol: the command set, the
//! framing of what goes over the wire, the bookkeeping of pending
//! acknowledgements and subscriptions, and the registry of message types.

pub mod command;
pub mod wire;
pub mod protocol;
pub mod ids;
pub mod reader;
pub mod avro;
pub mod entropy;
pub mod hashing;
pub mod json;
pub mod gaze;
pub mod client;
