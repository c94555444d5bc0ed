//! Transfer protocol: messages, line framing, chunk integrity, and the
//! decisions of the sending and receiving sides.
pub mod models;
pub mod codec;
pub mod chunk;
pub mod receiver;
pub mod sender;
pub mod jobs;
