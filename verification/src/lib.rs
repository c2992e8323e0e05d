//! Message framing and delivery bookkeeping for two correspondents.
//!
//! Each message travels as a frame: a four-byte little-endian length header, then postcard's
//! encoding of an optional message, where the absent message is the farewell. This crate holds
//! the wire format, the filling of receive buffers, and the decisions of the post office, the
//! collection boxes, the mailbox and the mailman; the threads, channels and transports that act
//! on those decisions live beside it.

pub mod delivery;
pub mod error;
pub mod frame;
pub mod progress;
pub mod transport;

pub use error::{CollectionBoxError, CorrespondenceError, DeliveryError, ReceiveError};
pub use transport::Transport;
