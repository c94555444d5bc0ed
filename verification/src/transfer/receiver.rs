//! The receiving side of a session: what to do with each message that
//! arrives on a connection.
use vstd::prelude::*;
use crate::models::CusErr;
use crate::transfer::chunk::{check_chunk, digest_text, hash_mismatch_text, payload};
use crate::transfer::models::{
    FileMetadata, MessageTransHandle, ReqTransferData, SessionMessage, TransferDecision,
};

verus! {

/// The receiving user's answer to a transfer request: `Some(true)` accepts;
/// a refusal, a dropped channel or no answer in time (`None`) rejects.
pub fn decision_from_answer(answer: Option<bool>) -> (d: TransferDecision)
    ensures
        d == (if answer == Some(true) {
            TransferDecision::Accept
        } else {
            TransferDecision::Reject
        }),
{
    match answer {
        Some(true) => TransferDecision::Accept,
        _ => TransferDecision::Reject,
    }
}

/// What the receiving worker does next.
pub enum ReceiverAction<A> {
    /// Ask the user about `reqs`, then send the decision back.
    Ask { reqs: Vec<ReqTransferData> },
    /// Open (create or append to) the file `open_file` under the save
    /// directory first if it is `Some`, append `data` to the open file, and
    /// report `report`.
    Store { open_file: Option<String>, data: Vec<u8>, report: MessageTransHandle<A> },
    /// Open the file `open_file` if it is `Some`, then end the session with
    /// `error`.
    Refuse { open_file: Option<String>, error: CusErr },
    /// Close the open file if `close_file`, and end the session.
    Close { close_file: bool },
    /// End the session.
    Stop,
}

/// The chunk `m` passes its integrity check.
pub open spec fn chunk_ok(m: FileMetadata) -> bool {
    digest_text(payload(m)) == m.hash@
}

/// Handling `msg` opens the file (only the first chunk of a session does).
pub open spec fn opens_file(file_open: bool, msg: SessionMessage) -> bool {
    msg is BeginFile && !file_open
}

/// Whether a file is open after handling `msg`.
pub open spec fn file_open_after(file_open: bool, msg: SessionMessage) -> bool {
    match msg {
        SessionMessage::ReqTransfer(_) => file_open,
        SessionMessage::BeginFile(m) => if chunk_ok(m) {
            true
        } else {
            file_open
        },
        SessionMessage::EndSession => false,
        SessionMessage::FileDecision { .. } => file_open,
    }
}

/// Whether the session is over after handling `msg`.
pub open spec fn finished_after(msg: SessionMessage) -> bool {
    match msg {
        SessionMessage::ReqTransfer(_) => false,
        SessionMessage::BeginFile(m) => !chunk_ok(m),
        SessionMessage::EndSession => true,
        SessionMessage::FileDecision { .. } => true,
    }
}

/// The action opens a file.
pub open spec fn action_opens<A>(act: ReceiverAction<A>) -> bool {
    match act {
        ReceiverAction::Store { open_file, .. } => open_file is Some,
        ReceiverAction::Refuse { open_file, .. } => open_file is Some,
        _ => false,
    }
}

/// How many times a session that starts with `file_open` opens a file while
/// it handles `msgs`, up to the message that ends it.
pub open spec fn run_opens(file_open: bool, msgs: Seq<SessionMessage>) -> nat
    decreases msgs.len(),
{
    if msgs.len() == 0 {
        0
    } else {
        let m = msgs[0];
        let o: nat = if opens_file(file_open, m) {
            1
        } else {
            0
        };
        if finished_after(m) {
            o
        } else {
            o + run_opens(file_open_after(file_open, m), msgs.drop_first())
        }
    }
}

/// One file per connection: whatever messages arrive, a session opens a
/// file at most once, and never again once one is open.
pub proof fn lemma_session_opens_at_most_once(msgs: Seq<SessionMessage>)
    ensures
        run_opens(false, msgs) <= 1,
        run_opens(true, msgs) == 0,
    decreases msgs.len(),
{
    if msgs.len() > 0 {
        lemma_session_opens_at_most_once(msgs.drop_first());
    }
}

/// The state of one incoming connection.
pub struct ReceiverSession {
    /// The peer's address, as reported with progress.
    pub peer: String,
    /// A file has been opened for this connection.
    pub file_open: bool,
    /// The session is over.
    pub finished: bool,
}

impl ReceiverSession {
    /// A fresh session with the peer at `peer`.
    pub fn new(peer: String) -> (s: Self)
        ensures
            s.peer == peer,
            !s.file_open,
            !s.finished,
    {
        ReceiverSession { peer, file_open: false, finished: false }
    }

    /// Handles one message. A chunk must hold at least `current_len` bytes.
    pub fn step<A>(&mut self, msg: SessionMessage) -> (act: ReceiverAction<A>)
        requires
            !old(self).finished,
            msg matches SessionMessage::BeginFile(m) ==> m.current_len <= m.buf@.len(),
        ensures
            final(self).peer == old(self).peer,
            action_opens(act) == opens_file(old(self).file_open, msg),
            final(self).file_open == file_open_after(old(self).file_open, msg),
            final(self).finished == finished_after(msg),
            match msg {
                SessionMessage::ReqTransfer(reqs) => {
                    &&& act matches ReceiverAction::Ask { reqs: r } && r@ == reqs@
                    &&& final(self).file_open == old(self).file_open
                    &&& !final(self).finished
                },
                SessionMessage::BeginFile(m) => {
                    let open = if old(self).file_open {
                        None::<Seq<char>>
                    } else {
                        Some(m.filename@)
                    };
                    if digest_text(payload(m)) == m.hash@ {
                        &&& act matches ReceiverAction::Store { open_file, data, report }
                        &&& (match open_file {
                            Some(f) => Some(f@),
                            None => None,
                        }) == open
                        &&& data@ == payload(m)
                        &&& report matches MessageTransHandle::ReceiverFile {
                            from,
                            file_name,
                            total_len,
                            trans_len,
                        }
                        &&& from == old(self).peer
                        &&& file_name == m.filename
                        &&& total_len == m.total_len
                        &&& trans_len == m.trans_len
                        &&& final(self).file_open
                        &&& !final(self).finished
                    } else {
                        &&& act matches ReceiverAction::Refuse { open_file, error }
                        &&& (match open_file {
                            Some(f) => Some(f@),
                            None => None,
                        }) == open
                        &&& error.text() == hash_mismatch_text()
                        &&& final(self).finished
                    }
                },
                SessionMessage::EndSession => {
                    &&& act == ReceiverAction::<A>::Close { close_file: old(self).file_open }
                    &&& !final(self).file_open
                    &&& final(self).finished
                },
                SessionMessage::FileDecision { .. } => {
                    &&& act is Stop
                    &&& final(self).finished
                    &&& final(self).file_open == old(self).file_open
                },
            },
    {
        match msg {
            SessionMessage::ReqTransfer(reqs) => ReceiverAction::Ask { reqs },
            SessionMessage::BeginFile(m) => {
                let open_file = if self.file_open {
                    None
                } else {
                    Some(m.filename.clone())
                };
                match check_chunk(&m) {
                    Ok(data) => {
                        self.file_open = true;
                        let report = MessageTransHandle::ReceiverFile {
                            from: self.peer.clone(),
                            file_name: m.filename,
                            total_len: m.total_len,
                            trans_len: m.trans_len,
                        };
                        ReceiverAction::Store { open_file, data, report }
                    },
                    Err(error) => {
                        self.finished = true;
                        ReceiverAction::Refuse { open_file, error }
                    },
                }
            },
            SessionMessage::EndSession => {
                let close_file = self.file_open;
                self.file_open = false;
                self.finished = true;
                ReceiverAction::Close { close_file }
            },
            SessionMessage::FileDecision { .. } => {
                self.finished = true;
                ReceiverAction::Stop
            },
        }
    }

    /// The peer closed the connection: the session ends.
    pub fn end_of_stream(&mut self)
        ensures
            final(self).peer == old(self).peer,
            final(self).file_open == old(self).file_open,
            final(self).finished,
    {
        self.finished = true;
    }
}

} // verus!
