//! A small request/response protocol over a byte stream: typed messages, their
//! wire encoding, the receive loop that recovers one message from a stream of
//! reads, the command grammar of the server, and the two connection state
//! machines. Beside it stand the transformations of a line of text that the
//! same programs offer.
//!
//! Everything here computes on plain values: sockets, files and the standard
//! input are the caller's business.

pub mod address;
pub mod client;
pub mod clock;
pub mod codec;
pub mod command;
pub mod concurrency;
pub mod error;
pub mod frame;
pub mod message;
pub mod path;
pub mod payload;
pub mod server;
pub mod str_utils;
pub mod text;
