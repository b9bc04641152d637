//! Messages: what is sent, how it is sealed, and by which route it travels.

pub mod codec;
pub mod encryption;
pub mod protocol;
pub mod routing;

pub use encryption::{EncryptedMessage, MessageKey};
pub use protocol::{Message, MessageEnvelope, MessageStatus, MessageType};
pub use routing::{MessageRouter, Route};
