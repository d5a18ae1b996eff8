//! A client-side implementation of the websocket protocol over a
//! non-blocking transport, driven by an explicit poll-style event loop.
//! The frame codec, the opening-handshake codec and the connection state
//! machine are verified; the embedding application supplies the transport.

pub mod binary;
pub mod client;
pub mod extension;
pub mod frame;
pub mod header;
pub mod http;
pub mod key;
pub mod mask;
pub mod net;
pub mod result;
pub mod status_code;
pub mod text;
pub mod traits;
