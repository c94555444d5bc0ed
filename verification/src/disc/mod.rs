//! Discovery of peers on the local network.
pub mod models;
pub mod discover;
