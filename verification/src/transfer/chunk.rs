//! Chunk integrity: every chunk carries the lower-case hex BLAKE3 digest of
//! its payload, and the receiver writes a chunk only when the digest matches.
use vstd::prelude::*;
use crate::models::CusErr;
use crate::text::push_char;
use crate::transfer::models::FileMetadata;

verus! {

/// The BLAKE3 digest (32 bytes) of `data`.
pub uninterp spec fn blake3_digest(data: Seq<u8>) -> Seq<u8>;

/// `blake3::hash`: the 32-byte BLAKE3 digest of `data`. The contract claims
/// that the result is the digest named `blake3_digest` (a function of the
/// bytes alone) and that it is 32 bytes long, as `blake3::OUT_LEN` says.
#[verifier::external_body]
fn blake3_hash(data: &[u8]) -> (r: Vec<u8>)
    ensures
        r@ == blake3_digest(data@),
        r@.len() == 32,
{
    blake3::hash(data).as_bytes().to_vec()
}

/// The lower-case hex digit of `v < 16`.
pub open spec fn hex_digit(v: nat) -> char {
    if v < 10 {
        (48 + v) as char
    } else {
        (87 + v) as char
    }
}

/// Lower-case hex text of `bytes`, two digits per byte, high half first.
pub open spec fn hex_lower(bytes: Seq<u8>) -> Seq<char>
    decreases bytes.len(),
{
    if bytes.len() == 0 {
        Seq::empty()
    } else {
        let b = bytes.last();
        hex_lower(bytes.drop_last()).push(hex_digit((b / 16) as nat)).push(
            hex_digit((b % 16) as nat),
        )
    }
}

/// Hex text has two digits per byte.
pub proof fn lemma_hex_lower_len(bytes: Seq<u8>)
    ensures
        hex_lower(bytes).len() == 2 * bytes.len(),
    decreases bytes.len(),
{
    if bytes.len() > 0 {
        lemma_hex_lower_len(bytes.drop_last());
    }
}

/// Hex text is written byte by byte: the text of `a` followed by `b` is the
/// text of `a` followed by the text of `b`, each byte giving its high then its
/// low half as one of `0-9a-f`.
pub proof fn lemma_hex_lower_bytewise(a: Seq<u8>, b: Seq<u8>, x: u8)
    ensures
        hex_lower(a + b) == hex_lower(a) + hex_lower(b),
        hex_lower(seq![x]) == seq![hex_digit((x / 16) as nat), hex_digit((x % 16) as nat)],
        ('0' <= hex_digit((x / 16) as nat) <= '9') || ('a' <= hex_digit((x / 16) as nat) <= 'f'),
        ('0' <= hex_digit((x % 16) as nat) <= '9') || ('a' <= hex_digit((x % 16) as nat) <= 'f'),
        forall|v: nat|
            v < 16 ==> #[trigger] hex_digit(v) == seq![
                '0', '1', '2', '3', '4', '5', '6', '7', '8', '9', 'a', 'b', 'c', 'd', 'e', 'f',
            ][v as int],
    decreases b.len(),
{
    assert forall|v: nat| v < 16 implies #[trigger] hex_digit(v) == seq![
        '0', '1', '2', '3', '4', '5', '6', '7', '8', '9', 'a', 'b', 'c', 'd', 'e', 'f',
    ][v as int] by {
        let t = seq!['0', '1', '2', '3', '4', '5', '6', '7', '8', '9', 'a', 'b', 'c', 'd', 'e', 'f'];
        if v == 0 { assert(t[0] == '0'); } else if v == 1 { assert(t[1] == '1'); }
        else if v == 2 { assert(t[2] == '2'); } else if v == 3 { assert(t[3] == '3'); }
        else if v == 4 { assert(t[4] == '4'); } else if v == 5 { assert(t[5] == '5'); }
        else if v == 6 { assert(t[6] == '6'); } else if v == 7 { assert(t[7] == '7'); }
        else if v == 8 { assert(t[8] == '8'); } else if v == 9 { assert(t[9] == '9'); }
        else if v == 10 { assert(t[10] == 'a'); } else if v == 11 { assert(t[11] == 'b'); }
        else if v == 12 { assert(t[12] == 'c'); } else if v == 13 { assert(t[13] == 'd'); }
        else if v == 14 { assert(t[14] == 'e'); } else { assert(t[15] == 'f'); }
    }
    if b.len() == 0 {
        assert(a + b =~= a);
        assert(hex_lower(a) + Seq::<char>::empty() =~= hex_lower(a));
    } else {
        lemma_hex_lower_bytewise(a, b.drop_last(), x);
        assert((a + b).drop_last() =~= a + b.drop_last());
        assert((a + b).last() == b.last());
        assert(hex_lower(a + b) =~= hex_lower(a) + hex_lower(b));
    }
    assert(seq![x].drop_last() =~= Seq::<u8>::empty());
    assert(seq![x].last() == x);
    assert(hex_lower(Seq::<u8>::empty()) == Seq::<char>::empty());
    assert(hex_lower(seq![x]) =~= seq![hex_digit((x / 16) as nat), hex_digit((x % 16) as nat)]);
}

/// The digest text that accompanies a payload.
pub open spec fn digest_text(data: Seq<u8>) -> Seq<char> {
    hex_lower(blake3_digest(data))
}

fn hex_char(v: u8) -> (c: char)
    requires
        v < 16,
    ensures
        c == hex_digit(v as nat),
{
    if v < 10 {
        (48u8 + v) as char
    } else {
        (87u8 + v) as char
    }
}

/// Lower-case hex text of `bytes` (what `blake3::Hash::to_hex` writes).
pub fn to_hex(bytes: &[u8]) -> (s: String)
    ensures
        s@ == hex_lower(bytes@),
{
    let mut s = String::new();
    let n = bytes.len();
    let mut i: usize = 0;
    while i < n
        invariant
            n == bytes@.len(),
            i <= n,
            s@ == hex_lower(bytes@.take(i as int)),
        decreases n - i,
    {
        let b = bytes[i];
        push_char(&mut s, hex_char(b / 16));
        push_char(&mut s, hex_char(b % 16));
        assert(bytes@.take(i + 1).drop_last() =~= bytes@.take(i as int));
        i = i + 1;
    }
    assert(bytes@.take(n as int) =~= bytes@);
    s
}

/// The hex digest text of `buf`: 64 lower-case hex digits.
pub fn calc_hex(buf: &[u8]) -> (s: String)
    ensures
        s@ == digest_text(buf@),
        s@.len() == 64,
{
    let digest = blake3_hash(buf);
    proof {
        lemma_hex_lower_len(digest@);
    }
    to_hex(digest.as_slice())
}

/// The chunk that carries `data`, the next piece of the file `filename`
/// (of `total_len` bytes) after `sent_before` bytes already sent.
pub fn make_chunk(filename: String, data: Vec<u8>, total_len: u64, sent_before: u64) -> (m:
    FileMetadata)
    requires
        sent_before + data@.len() <= u64::MAX,
    ensures
        m.filename == filename,
        m.buf@ == data@,
        m.hash@ == digest_text(data@),
        m.total_len == total_len,
        m.trans_len == sent_before + data@.len(),
        m.current_len == data@.len(),
{
    let hash = calc_hex(data.as_slice());
    let n = data.len() as u64;
    FileMetadata {
        filename,
        buf: data,
        hash,
        total_len,
        trans_len: sent_before + n,
        current_len: n,
    }
}

/// The payload of a chunk: its first `current_len` bytes.
pub open spec fn payload(m: FileMetadata) -> Seq<u8> {
    m.buf@.take(m.current_len as int)
}

/// The text of the error for a chunk whose digest does not match.
pub open spec fn hash_mismatch_text() -> Seq<char> {
    seq!['h', 'a', 's', 'h', ' ', 'n', 'o', 't', ' ', 'm', 'a', 't', 'c', 'h']
}

/// Checks a received chunk against its digest and hands out the payload to
/// write, or the "hash not match" error.
pub fn check_chunk(m: &FileMetadata) -> (r: Result<Vec<u8>, CusErr>)
    requires
        m.current_len <= m.buf@.len(),
    ensures
        r is Ok <==> digest_text(payload(*m)) == m.hash@,
        r matches Ok(d) ==> d@ == payload(*m),
        r matches Err(e) ==> e is AnyHowError && e.text() == hash_mismatch_text(),
        m.hash@.len() != 64 ==> r is Err,
{
    let len = m.buf.len();
    assert(m.current_len <= len);
    let n = m.current_len as usize;
    let mut data: Vec<u8> = Vec::new();
    let mut i: usize = 0;
    while i < n
        invariant
            n == m.current_len,
            n <= m.buf@.len(),
            i <= n,
            data@ == m.buf@.take(i as int),
        decreases n - i,
    {
        data.push(m.buf[i]);
        assert(m.buf@.take(i + 1) =~= m.buf@.take(i as int).push(m.buf@[i as int]));
        i = i + 1;
    }
    let actual = calc_hex(data.as_slice());
    if actual != m.hash {
        let e = CusErr::msg("hash not match");
        proof {
            reveal_strlit("hash not match");
        }
        assert(e.text() =~= hash_mismatch_text());
        Err(e)
    } else {
        Ok(data)
    }
}

/// Chunk round trip: the receiver accepts every chunk that the sender makes,
/// and hands out exactly the bytes that the sender put in.
pub proof fn lemma_chunk_round_trip(m: FileMetadata, data: Seq<u8>)
    requires
        m.buf@ == data,
        m.hash@ == digest_text(data),
        m.current_len == data.len(),
    ensures
        payload(m) == data,
        digest_text(payload(m)) == m.hash@,
{
    assert(data.take(data.len() as int) =~= data);
}

} // verus!
