//! The records that the user interface shows: peers, queued files, transfer
//! progress, and the tool's error.
use vstd::prelude::*;
use crate::transfer::models::ReqTransferData;
use std::sync::PoisonError;

verus! {

/// The tool's error: a message, or a lock that a panicking thread left
/// poisoned.
#[derive(Debug)]
pub enum CusErr {
    AnyHowError(String),
    PoisonError,
}

/// The text shown for a poisoned lock.
pub open spec fn poison_text() -> Seq<char> {
    seq!['M', 'u', 't', 'e', 'x', ' ', 'p', 'o', 'i', 's', 'o', 'n', ' ', 'e', 'r', 'r', 'o', 'r']
}

impl CusErr {
    /// The text this error is shown as.
    pub open spec fn text(&self) -> Seq<char> {
        match self {
            CusErr::AnyHowError(m) => m@,
            CusErr::PoisonError => poison_text(),
        }
    }

    /// An error carrying the message `m`.
    pub fn msg(m: &str) -> (e: CusErr)
        ensures
            e is AnyHowError,
            e.text() == m@,
    {
        CusErr::AnyHowError(m.to_string())
    }

    /// The text this error is shown (and serialized) as.
    pub fn to_string(&self) -> (s: String)
        ensures
            s@ == self.text(),
    {
        match self {
            CusErr::AnyHowError(m) => m.clone(),
            CusErr::PoisonError => {
                let s = "Mutex poison error".to_string();
                proof {
                    reveal_strlit("Mutex poison error");
                }
                assert(s@ =~= poison_text());
                s
            },
        }
    }
}

/// `std::sync::PoisonError`, the error of a lock that a panicking thread
/// left poisoned; carried through, never looked into.
#[verifier::external_type_specification]
#[verifier::external_body]
#[verifier::reject_recursive_types(T)]
pub struct ExPoisonError<T>(PoisonError<T>);

/// A poisoned lock becomes the tool's poison error.
impl<T> From<PoisonError<T>> for CusErr {
    fn from(_error: PoisonError<T>) -> (e: Self) {
        CusErr::PoisonError
    }
}

impl<T> vstd::std_specs::convert::FromSpecImpl<PoisonError<T>> for CusErr {
    open spec fn obeys_from_spec() -> bool {
        true
    }

    open spec fn from_spec(v: PoisonError<T>) -> Self {
        CusErr::PoisonError
    }
}

/// A peer on the local network, found by discovery or added by hand.
#[derive(Debug)]
pub struct IntranetClientInfo {
    pub name: String,
    pub ip: String,
    pub port: u16,
    pub selected: bool,
    /// Found by discovery (as opposed to added by hand).
    pub auto_find: bool,
}

impl Clone for IntranetClientInfo {
    fn clone(&self) -> (c: Self)
        ensures
            c == *self,
    {
        IntranetClientInfo {
            name: self.name.clone(),
            ip: self.ip.clone(),
            port: self.port,
            selected: self.selected,
            auto_find: self.auto_find,
        }
    }
}

/// A file queued for sending.
#[derive(Debug)]
pub struct FileInfo {
    /// The last component of `file`.
    pub filename: String,
    /// The file's path.
    pub file: String,
    pub size: u64,
}

impl Clone for FileInfo {
    fn clone(&self) -> (c: Self)
        ensures
            c == *self,
    {
        FileInfo { filename: self.filename.clone(), file: self.file.clone(), size: self.size }
    }
}

/// The direction of a transfer.
#[derive(Clone, Copy, Debug, PartialEq, Eq, Structural)]
pub enum TransType {
    Send,
    Receive,
}

/// The progress of one file's transfer.
#[derive(Debug)]
pub struct TransInfo {
    pub filename: String,
    pub from: String,
    pub to: String,
    pub trans_type: TransType,
    pub total_size: u64,
    pub trans_size: u64,
    pub is_done: bool,
}

impl Clone for TransInfo {
    fn clone(&self) -> (c: Self)
        ensures
            c == *self,
    {
        TransInfo {
            filename: self.filename.clone(),
            from: self.from.clone(),
            to: self.to.clone(),
            trans_type: self.trans_type,
            total_size: self.total_size,
            trans_size: self.trans_size,
            is_done: self.is_done,
        }
    }
}

/// A transfer request shown to the receiving user, under the id by which
/// the answer is routed back.
#[derive(Clone, Debug)]
pub struct EmitAsk {
    pub uid: String,
    pub files: Vec<ReqTransferData>,
}

} // verus!
