//! The values exchanged on the wire between a sender and a receiver, and the
//! events that the transfer workers report to the rest of the tool.
use vstd::prelude::*;

verus! {

/// What a receiver answers to a transfer request.
#[derive(Clone, Copy, Debug, PartialEq, Eq, Structural)]
pub enum TransferDecision {
    Accept,
    Reject,
}

/// One chunk of a file on its way to the receiver.
#[derive(Clone, Debug)]
pub struct FileMetadata {
    /// The file's name (its last path component on the sender).
    pub filename: String,
    /// The chunk's bytes; the first `current_len` of them are the payload.
    pub buf: Vec<u8>,
    /// Lower-case hex BLAKE3 digest of the payload.
    pub hash: String,
    /// Size of the whole file.
    pub total_len: u64,
    /// Bytes of the file sent so far, this chunk included.
    pub trans_len: u64,
    /// Length of this chunk's payload.
    pub current_len: u64,
}

/// One file named in a transfer request.
#[derive(Clone, Debug)]
pub struct ReqTransferData {
    pub filename: String,
}

/// A message of the session protocol (one per line on the wire).
#[derive(Debug)]
pub enum SessionMessage {
    /// Sender: asks to transfer these files.
    ReqTransfer(Vec<ReqTransferData>),
    /// Receiver: decision on the current file.
    FileDecision { decision: bool },
    /// Sender: a chunk of a file.
    BeginFile(FileMetadata),
    /// Sender: the session is over.
    EndSession,
}

/// Progress and questions that the transfer workers report. `A` is the
/// channel on which a receiver's user answers a transfer request.
#[derive(Clone, Debug)]
pub enum MessageTransHandle<A> {
    ReceiverAsk { reqs: Vec<ReqTransferData>, ask_tx: A },
    ReceiverFile { from: String, file_name: String, total_len: u64, trans_len: u64 },
    SendFile { to: String, file_name: String, total_len: u64, trans_len: u64 },
}

/// Orders for the sending worker.
#[derive(Clone, Debug)]
pub enum MessageTransAccept {
    /// Send the files at `multi_paths` to the receiver at `to` (`ip:port`).
    CreateJob { to: String, multi_paths: Vec<String> },
    Shutdown,
}

} // verus!
