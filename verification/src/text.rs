//! Small, exactly specified text builders: decimal numbers, dotted IPv4
//! addresses and the `a:b` / `a_b` / `a-b` joins that the tool uses as
//! socket addresses, progress keys and host names.
use vstd::prelude::*;

verus! {

/// The character of a decimal digit `d < 10`.
pub open spec fn digit_char(d: nat) -> char {
    (48 + d) as char
}

/// The decimal representation of `n`, most significant digit first, without
/// leading zeros (a single `0` for zero).
pub open spec fn decimal(n: nat) -> Seq<char>
    decreases n,
{
    if n < 10 {
        seq![digit_char(n)]
    } else {
        decimal(n / 10).push(digit_char(n % 10))
    }
}

/// The number that decimal digits stand for, most significant first.
pub open spec fn decimal_value(s: Seq<char>) -> int
    decreases s.len(),
{
    if s.len() == 0 {
        0
    } else {
        decimal_value(s.drop_last()) * 10 + (s.last() as int - 48)
    }
}

/// Decimal text reads back as the number it was written for: every
/// character is a digit, the first is `0` only for zero itself, and the
/// digits stand for `n`.
pub proof fn lemma_decimal_reads_back(n: nat)
    ensures
        decimal_value(decimal(n)) == n,
        decimal(n).len() > 0,
        forall|i: int| 0 <= i < decimal(n).len() ==> '0' <= #[trigger] decimal(n)[i] <= '9',
        n > 0 ==> decimal(n)[0] != '0',
    decreases n,
{
    let d0 = n % 10;
    assert(digit_char(d0) as int == 48 + d0);
    if n < 10 {
        assert(decimal(n).drop_last() =~= Seq::<char>::empty());
        assert(decimal_value(Seq::<char>::empty()) == 0);
    }
    if n >= 10 {
        lemma_decimal_reads_back(n / 10);
        let d = decimal(n / 10);
        assert(decimal(n).drop_last() =~= d);
        assert(decimal(n)[0] == d[0]);
        assert forall|i: int| 0 <= i < decimal(n).len() implies '0' <= #[trigger] decimal(n)[i]
            <= '9' by {
            if i < d.len() {
                assert(decimal(n)[i] == d[i]);
            }
        }
    }
}

/// `String::push`: the contract claims that the string afterwards holds its
/// old characters followed by `c`, as the standard library documents.
#[verifier::external_body]
pub(crate) fn push_char(s: &mut String, c: char)
    ensures
        final(s)@ == old(s)@.push(c),
{
    s.push(c);
}

fn digit(d: u64) -> (c: char)
    requires
        d < 10,
    ensures
        c == digit_char(d as nat),
{
    let b: u8 = 48u8 + (d as u8);
    b as char
}

/// Appends the decimal digits of `n` to `s`.
pub fn push_decimal(s: &mut String, n: u64)
    ensures
        final(s)@ == old(s)@ + decimal(n as nat),
    decreases n,
{
    if n >= 10 {
        push_decimal(s, n / 10);
    }
    push_char(s, digit(n % 10));
    proof {
        if n >= 10 {
            assert(old(s)@ + decimal(n as nat) =~= (old(s)@ + decimal((n / 10) as nat)).push(
                digit_char((n % 10) as nat),
            ));
        }
    }
}

/// `a`, the separator `sep`, then `b`.
pub open spec fn joined(a: Seq<char>, sep: char, b: Seq<char>) -> Seq<char> {
    a.push(sep) + b
}

/// `a`, the separator `sep`, then the decimal text of `n`.
pub fn join_number(a: &String, sep: char, n: u64) -> (s: String)
    ensures
        s@ == joined(a@, sep, decimal(n as nat)),
{
    let mut s = a.clone();
    push_char(&mut s, sep);
    push_decimal(&mut s, n);
    assert(s@ =~= joined(a@, sep, decimal(n as nat)));
    s
}

/// `a`, the separator `sep`, then `b`.
pub fn join_text(a: &String, sep: char, b: &String) -> (s: String)
    ensures
        s@ == joined(a@, sep, b@),
{
    let mut s = a.clone();
    push_char(&mut s, sep);
    s.append(b.as_str());
    s
}

/// The socket address text `ip:port` of a peer.
pub fn socket_addr_text(ip: &String, port: u16) -> (s: String)
    ensures
        s@ == joined(ip@, ':', decimal(port as nat)),
{
    join_number(ip, ':', port as u64)
}

/// The key under which the progress of the file `file_name` exchanged with
/// `peer` is kept: `peer_file_name`.
pub fn progress_key(peer: &String, file_name: &String) -> (s: String)
    ensures
        s@ == joined(peer@, '_', file_name@),
{
    join_text(peer, '_', file_name)
}

/// The name this machine announces itself under: `hostname-port`.
pub fn client_name(hostname: &String, port: u16) -> (s: String)
    ensures
        s@ == joined(hostname@, '-', decimal(port as nat)),
{
    join_number(hostname, '-', port as u64)
}

/// Dotted-decimal text of an IPv4 address.
pub open spec fn ipv4_text(o: [u8; 4]) -> Seq<char> {
    decimal(o[0] as nat).push('.') + decimal(o[1] as nat).push('.') + decimal(o[2] as nat).push('.')
        + decimal(o[3] as nat)
}

/// Dotted-decimal text of the IPv4 address with octets `o` (as
/// `std::net::Ipv4Addr` displays it).
pub fn ipv4_to_text(o: [u8; 4]) -> (s: String)
    ensures
        s@ == ipv4_text(o),
{
    let mut s = String::new();
    push_decimal(&mut s, o[0] as u64);
    push_char(&mut s, '.');
    push_decimal(&mut s, o[1] as u64);
    push_char(&mut s, '.');
    push_decimal(&mut s, o[2] as u64);
    push_char(&mut s, '.');
    push_decimal(&mut s, o[3] as u64);
    assert(s@ =~= ipv4_text(o));
    s
}

} // verus!
