//! A native-messaging host core: a length-prefixed, JSON-framed wire
//! protocol together with the blocking read-dispatch-write loop that a
//! host process (such as a browser) drives over the standard streams.
//!
//! The wire format is `LENGTH(4 bytes, unsigned 32-bit, little-endian)`
//! followed by `LENGTH` bytes of UTF-8 JSON text.  Outgoing messages are
//! capped at one mebibyte, the limit the host imposes.
//!
//! The crate is organised leaf-first:
//! - [`errors`]: the closed fault taxonomy of the protocol;
//! - [`frame`]: the byte-level frame codec, fully verified;
//! - [`json`]: the boundary to `serde_json`, held behind trusted items;
//! - [`codec`]: framing and JSON combined into whole-message encode/decode;
//! - [`dispatch`]: the callback contract and the dispatch loop.

pub mod codec;
pub mod dispatch;
pub mod errors;
pub mod frame;
pub mod json;

pub use codec::read_input;
pub use codec::send_error;
pub use codec::send_panic;
pub use codec::send_message;
pub use dispatch::event_loop;
pub use dispatch::Callback;
pub use errors::Fault;
