//! Line framing of the session protocol. Each message travels as its JSON
//! text followed by one newline byte; the reader cuts the incoming byte
//! stream at newlines.
use vstd::prelude::*;

verus! {

/// The newline byte that ends every frame.
pub const NEWLINE: u8 = 10u8;

/// `s` holds no newline byte.
pub open spec fn newline_free(s: Seq<u8>) -> bool {
    forall|i: int| 0 <= i < s.len() ==> s[i] != NEWLINE
}

/// The frame that carries the message text `body`.
pub open spec fn frame(body: Seq<u8>) -> Seq<u8> {
    body.push(NEWLINE)
}

/// `line` is the first complete line of `s` (newline included) and `rest`
/// is what follows it.
pub open spec fn is_first_line(s: Seq<u8>, line: Seq<u8>, rest: Seq<u8>) -> bool {
    &&& line.len() > 0
    &&& line.last() == NEWLINE
    &&& newline_free(line.drop_last())
    &&& s == line + rest
}

/// Frames a message text for the wire: the text, then a newline.
pub fn frame_message(body: &[u8]) -> (out: Vec<u8>)
    ensures
        out@ == frame(body@),
{
    let mut out: Vec<u8> = Vec::new();
    out.extend_from_slice(body);
    out.push(NEWLINE);
    out
}

/// Bytes received but not yet handed out as lines.
pub struct LineBuffer {
    pending: Vec<u8>,
}

impl View for LineBuffer {
    type V = Seq<u8>;

    closed spec fn view(&self) -> Seq<u8> {
        self.pending@
    }
}

impl LineBuffer {
    /// An empty buffer.
    pub fn new() -> (b: Self)
        ensures
            b@ == Seq::<u8>::empty(),
    {
        LineBuffer { pending: Vec::new() }
    }

    /// Appends bytes read from the connection.
    pub fn feed(&mut self, bytes: &[u8])
        ensures
            final(self)@ == old(self)@ + bytes@,
    {
        self.pending.extend_from_slice(bytes);
    }

    /// Takes the first complete line (newline included), if there is one.
    pub fn pop_line(&mut self) -> (r: Option<Vec<u8>>)
        ensures
            r is None <==> newline_free(old(self)@),
            r is None ==> final(self)@ == old(self)@,
            r matches Some(line) ==> is_first_line(old(self)@, line@, final(self)@),
    {
        let n = self.pending.len();
        let mut i: usize = 0;
        while i < n
            invariant
                n == self.pending@.len(),
                self.pending@ == old(self)@,
                i <= n,
                newline_free(self.pending@.subrange(0, i as int)),
            decreases n - i,
        {
            if self.pending[i] == NEWLINE {
                let mut line = self.pending.split_off(i + 1);
                std::mem::swap(&mut line, &mut self.pending);
                assert(line@.drop_last() =~= old(self)@.subrange(0, i as int));
                assert(old(self)@ =~= line@ + self.pending@);
                return Some(line);
            }
            assert(self.pending@.subrange(0, i + 1) =~= self.pending@.subrange(0, i as int).push(
                self.pending@[i as int],
            ));
            i = i + 1;
        }
        assert(self.pending@.subrange(0, n as int) =~= self.pending@);
        None
    }

    /// At the end of the stream: takes whatever is left, if anything (a last
    /// line that was not ended by a newline).
    pub fn finish(&mut self) -> (r: Option<Vec<u8>>)
        ensures
            r is None <==> old(self)@.len() == 0,
            r matches Some(rest) ==> rest@ == old(self)@,
            final(self)@ == Seq::<u8>::empty(),
    {
        if self.pending.len() == 0 {
            None
        } else {
            let mut rest: Vec<u8> = Vec::new();
            std::mem::swap(&mut rest, &mut self.pending);
            Some(rest)
        }
    }
}

/// A stream holds at most one way to cut off its first line.
pub proof fn lemma_first_line_unique(s: Seq<u8>, l1: Seq<u8>, r1: Seq<u8>, l2: Seq<u8>, r2: Seq<u8>)
    requires
        is_first_line(s, l1, r1),
        is_first_line(s, l2, r2),
    ensures
        l1 == l2,
        r1 == r2,
{
    if l1.len() < l2.len() {
        assert(s[l1.len() - 1] == l1.last());
        assert(l2.drop_last()[l1.len() - 1] == s[l1.len() - 1]);
    } else if l2.len() < l1.len() {
        assert(s[l2.len() - 1] == l2.last());
        assert(l1.drop_last()[l2.len() - 1] == s[l2.len() - 1]);
    }
    assert(l1 =~= s.subrange(0, l1.len() as int));
    assert(l2 =~= s.subrange(0, l2.len() as int));
    assert(r1 =~= s.subrange(l1.len() as int, s.len() as int));
    assert(r2 =~= s.subrange(l2.len() as int, s.len() as int));
}

/// Framing round trip: whatever follows it, a framed message that stands at
/// the front of the received bytes is read back as exactly that frame, and
/// the bytes after it are left in order.
pub proof fn lemma_frame_read_back(body: Seq<u8>, rest: Seq<u8>)
    requires
        newline_free(body),
    ensures
        !newline_free(frame(body) + rest),
        is_first_line(frame(body) + rest, frame(body), rest),
        forall|line: Seq<u8>, after: Seq<u8>|
            is_first_line(frame(body) + rest, line, after) ==> line == frame(body) && after == rest,
{
    let s = frame(body) + rest;
    assert(s[body.len() as int] == NEWLINE);
    assert(frame(body).drop_last() =~= body);
    assert forall|line: Seq<u8>, after: Seq<u8>|
        is_first_line(s, line, after) implies line == frame(body) && after == rest by {
        lemma_first_line_unique(s, line, after, frame(body), rest);
    }
}

} // verus!
