//! A client core for fetching resources over the `web://` protocol.
//!
//! The crate is written sans-I/O: nothing here opens a socket, reads a clock
//! or draws a random number. A driver owns the transport and the key
//! material, reports what happened to the state machines of this crate, and
//! carries out what they hand back.
//!
//! From the bottom up:
//!
//! - [`error`]: the kinds of failure, and the error that carries one.
//! - [`hex`], [`url`], [`text`]: rendering keys, taking URLs apart, bytes to text.
//! - [`identity`], [`message`]: identities, requests and responses as values.
//! - [`wire`], [`codec`]: length-delimited fields, and the frames made of them.
//! - [`handshake`]: the state machine from a URL to an established session.
//! - [`session`]: the established session with its sequence counters, and
//!   the two halves of a retrieval over it.
//! - [`client`]: the facade over a handshake and its session.
//! - [`fetch`]: the fetch command, which records every stage it went through.
//!
//! Every function is verified against the contract in its signature. The
//! two exceptions are the conversions from bytes to text in [`text`], which
//! call the standard library and state what it documents.

pub mod client;
pub mod codec;
pub mod error;
pub mod fetch;
pub mod handshake;
pub mod hex;
pub mod identity;
pub mod message;
pub mod session;
pub mod text;
pub mod url;
pub mod wire;

pub use crate::hex::to_hex;
pub use crate::url::extract_path;
