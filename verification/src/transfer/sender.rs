//! The sending side of a session: the transfer request, and the chunks and
//! progress reports of each file.
use vstd::prelude::*;
use crate::models::CusErr;
use crate::transfer::chunk::{digest_text, make_chunk};
use crate::transfer::models::{MessageTransHandle, ReqTransferData, SessionMessage, TransferDecision};

verus! {

/// The last component of a path, as `std::path::Path::file_name` finds it
/// under the path rules of the platform the library is built for (`None`
/// for a path such as `/` or one that ends in `..`).
pub uninterp spec fn path_file_name(path: Seq<char>) -> Option<Seq<char>>;

/// `std::path::Path::file_name`, with the name turned into a `String`. The
/// contract claims that the result is the name `path_file_name` gives the
/// path's characters; a path made from a `&str` is UTF-8, so the conversion
/// loses nothing.
#[verifier::external_body]
pub(crate) fn file_name_of(path: &str) -> (r: Option<String>)
    ensures
        r is Some <==> path_file_name(path@) is Some,
        r matches Some(n) ==> path_file_name(path@) == Some(n@),
{
    std::path::Path::new(path).file_name().map(|n| n.to_string_lossy().to_string())
}

/// Whether `a` and `b` name the same path, as `std::path::Path`'s `==`
/// decides it: component by component, under the path rules of the platform
/// the library is built for (so `a/b`, `a/b/` and `a/./b` are the same path).
pub uninterp spec fn same_path(a: Seq<char>, b: Seq<char>) -> bool;

/// `<std::path::Path as PartialEq>::eq` on the paths made from `a` and `b`.
/// The contract claims that the result is the name `same_path` gives the two
/// paths' characters, and that a path is the same path as itself (`Path` is
/// `Eq`); nothing more about path equality is stated.
#[verifier::external_body]
pub(crate) fn paths_equal(a: &str, b: &str) -> (r: bool)
    ensures
        r == same_path(a@, b@),
        a@ == b@ ==> r,
{
    std::path::Path::new(a) == std::path::Path::new(b)
}

/// The files named in a transfer request for `paths`: the name of every path
/// that has one, in order; paths without a name are left out.
pub open spec fn requested_names(paths: Seq<String>) -> Seq<Seq<char>>
    decreases paths.len(),
{
    if paths.len() == 0 {
        Seq::empty()
    } else {
        let rest = requested_names(paths.drop_last());
        match path_file_name(paths.last()@) {
            Some(n) => rest.push(n),
            None => rest,
        }
    }
}

/// The request names the file of every path that has one, in order, the
/// last one included: `requested_names` is the standard `filter_map` of the
/// file names, it splits over concatenation, and one path gives its name
/// (or nothing when it has none).
pub proof fn lemma_request_names_every_file(paths: Seq<String>, more: Seq<String>, p: String)
    ensures
        requested_names(paths) == paths.filter_map(|s: String| path_file_name(s@)),
        requested_names(paths + more) == requested_names(paths) + requested_names(more),
        requested_names(seq![p]) == (match path_file_name(p@) {
            Some(n) => seq![n],
            None => Seq::<Seq<char>>::empty(),
        }),
        path_file_name(p@) matches Some(n) ==> requested_names(paths.push(p)) == requested_names(
            paths,
        ).push(n),
    decreases paths.len() + more.len(),
{
    if paths.len() > 0 {
        lemma_request_names_every_file(paths.drop_last(), Seq::empty(), p);
        assert(requested_names(paths) =~= paths.filter_map(|s: String| path_file_name(s@)));
    }
    if more.len() > 0 {
        lemma_request_names_every_file(paths, more.drop_last(), p);
        assert((paths + more).drop_last() =~= paths + more.drop_last());
        assert((paths + more).last() == more.last());
        assert(requested_names(paths + more) =~= requested_names(paths) + requested_names(more));
    } else {
        assert(paths + more =~= paths);
        assert(requested_names(paths) + Seq::<Seq<char>>::empty() =~= requested_names(paths));
    }
    assert(seq![p].drop_last() =~= Seq::<String>::empty());
    assert(seq![p].last() == p);
    assert(requested_names(Seq::<String>::empty()) == Seq::<Seq<char>>::empty());
    if let Some(n) = path_file_name(p@) {
        assert(Seq::<Seq<char>>::empty().push(n) =~= seq![n]);
    }
    assert(paths.push(p).drop_last() =~= paths);
}

/// The transfer request for the files at `paths`.
pub fn transfer_request(paths: &Vec<String>) -> (reqs: Vec<ReqTransferData>)
    ensures
        reqs@.len() == requested_names(paths@).len(),
        forall|i: int|
            0 <= i < reqs@.len() ==> #[trigger] reqs@[i].filename@ == requested_names(paths@)[i],
{
    let mut reqs: Vec<ReqTransferData> = Vec::new();
    let n = paths.len();
    let mut i: usize = 0;
    while i < n
        invariant
            n == paths@.len(),
            i <= n,
            reqs@.len() == requested_names(paths@.take(i as int)).len(),
            forall|k: int|
                0 <= k < reqs@.len() ==> #[trigger] reqs@[k].filename@ == requested_names(
                    paths@.take(i as int),
                )[k],
        decreases n - i,
    {
        assert(paths@.take(i + 1).drop_last() =~= paths@.take(i as int));
        match file_name_of(paths[i].as_str()) {
            Some(name) => {
                reqs.push(ReqTransferData { filename: name });
            },
            None => {},
        }
        i = i + 1;
    }
    assert(paths@.take(n as int) =~= paths@);
    reqs
}

/// The text of the error for a file to send that has no name.
pub open spec fn invalid_filename_text() -> Seq<char> {
    seq!['I', 'n', 'v', 'a', 'l', 'i', 'd', ' ', 'f', 'i', 'l', 'e', 'n', 'a', 'm', 'e']
}

/// The name under which the file at `path` is sent, or the "Invalid
/// filename" error.
pub fn sending_name(path: &String) -> (r: Result<String, CusErr>)
    ensures
        r is Ok <==> path_file_name(path@) is Some,
        r matches Ok(n) ==> path_file_name(path@) == Some(n@),
        r matches Err(e) ==> e is AnyHowError && e.text() == invalid_filename_text(),
{
    match file_name_of(path.as_str()) {
        Some(n) => Ok(n),
        None => {
            let e = CusErr::msg("Invalid filename");
            proof {
                reveal_strlit("Invalid filename");
            }
            assert(e.text() =~= invalid_filename_text());
            Err(e)
        },
    }
}

/// The files to stream once the receiver has answered: all of them, in
/// order, when it accepts; none when it rejects.
pub fn files_after_decision(decision: TransferDecision, paths: Vec<String>) -> (r: Vec<String>)
    ensures
        decision == TransferDecision::Accept ==> r@ == paths@,
        decision == TransferDecision::Reject ==> r@.len() == 0,
{
    match decision {
        TransferDecision::Accept => paths,
        TransferDecision::Reject => Vec::new(),
    }
}

/// What the sending worker does with what it read from the file.
pub enum SendStep<A> {
    /// Send `message` (a chunk), then report `report`.
    Chunk { message: SessionMessage, report: MessageTransHandle<A> },
    /// Send `message` (the end of the session): the file is done.
    Finish { message: SessionMessage },
}

/// The progress of one file on its way to the peer at `to`.
pub struct FileSendState {
    pub to: String,
    pub filename: String,
    pub total_len: u64,
    /// Bytes sent so far.
    pub sent: u64,
}

impl FileSendState {
    /// Nothing sent yet.
    pub fn new(to: String, filename: String, total_len: u64) -> (s: Self)
        ensures
            s.to == to,
            s.filename == filename,
            s.total_len == total_len,
            s.sent == 0,
    {
        FileSendState { to, filename, total_len, sent: 0 }
    }

    /// Handles one read from the file: `None` when the transfer was
    /// cancelled, `Some(data)` with the bytes read (empty at the end of the
    /// file).
    pub fn on_read<A>(&mut self, read: Option<Vec<u8>>) -> (step: SendStep<A>)
        requires
            read matches Some(d) ==> old(self).sent + d@.len() <= u64::MAX,
        ensures
            final(self).to == old(self).to,
            final(self).filename == old(self).filename,
            final(self).total_len == old(self).total_len,
            match read {
                Some(d) if d@.len() > 0 => {
                    &&& final(self).sent == old(self).sent + d@.len()
                    &&& step matches SendStep::Chunk { message, report }
                    &&& message matches SessionMessage::BeginFile(m)
                    &&& m.filename == old(self).filename
                    &&& m.buf@ == d@
                    &&& m.hash@ == digest_text(d@)
                    &&& m.total_len == old(self).total_len
                    &&& m.trans_len == final(self).sent
                    &&& m.current_len == d@.len()
                    &&& report matches MessageTransHandle::SendFile {
                        to,
                        file_name,
                        total_len,
                        trans_len,
                    }
                    &&& to == old(self).to
                    &&& file_name == old(self).filename
                    &&& total_len == old(self).total_len
                    &&& trans_len == final(self).sent
                },
                _ => {
                    &&& final(self).sent == old(self).sent
                    &&& step matches SendStep::Finish { message }
                    &&& message is EndSession
                },
            },
    {
        match read {
            Some(d) => {
                if d.len() == 0 {
                    SendStep::Finish { message: SessionMessage::EndSession }
                } else {
                    let m = make_chunk(self.filename.clone(), d, self.total_len, self.sent);
                    self.sent = m.trans_len;
                    let report = MessageTransHandle::SendFile {
                        to: self.to.clone(),
                        file_name: self.filename.clone(),
                        total_len: self.total_len,
                        trans_len: self.sent,
                    };
                    SendStep::Chunk { message: SessionMessage::BeginFile(m), report }
                }
            },
            None => SendStep::Finish { message: SessionMessage::EndSession },
        }
    }
}

} // verus!
