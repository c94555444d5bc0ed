//! The verified core of a LAN file-sharing tool: the state the user edits
//! (peers, queued files, transfer progress), the line-framed session protocol
//! spoken between a sender and a receiver, and the chunk integrity checks.
pub mod text;
pub mod models;
pub mod transfer;
pub mod disc;
pub mod state;
pub mod asks;
