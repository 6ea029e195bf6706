//! Cursor tokens: the owning process's id followed by the cursor's serial
//! number, each written as eight big-endian bytes.
use vstd::prelude::*;
use byteorder::{BigEndian, ByteOrder};

verus! {

/// The eight bytes of `n`, most significant first.
pub open spec fn be_bytes(n: u64) -> Seq<u8> {
    seq![(n >> 56) as u8, (n >> 48) as u8, (n >> 40) as u8, (n >> 32) as u8,
         (n >> 24) as u8, (n >> 16) as u8, (n >> 8) as u8, n as u8]
}

/// The number whose big-endian bytes are the first eight of `s`.
pub open spec fn be_value(s: Seq<u8>) -> u64 {
    (s[0] as u64) << 56 | (s[1] as u64) << 48 | (s[2] as u64) << 40 | (s[3] as u64) << 32
        | (s[4] as u64) << 24 | (s[5] as u64) << 16 | (s[6] as u64) << 8 | (s[7] as u64)
}

/// Relies on byteorder's `BigEndian::write_u64`: it writes the eight bytes
/// of `n`, most significant first.
#[verifier::external_body]
fn write_be(n: u64) -> (r: Vec<u8>)
    ensures
        r@ == be_bytes(n),
{
    let mut buf = vec![0u8; 8];
    BigEndian::write_u64(&mut buf, n);
    buf
}

/// Relies on byteorder's `BigEndian::read_u64`: it reads the eight bytes at
/// `at`, most significant first.
#[verifier::external_body]
fn read_be(b: &[u8], at: usize) -> (r: u64)
    requires
        at + 8 <= b@.len(),
    ensures
        r == be_value(b@.subrange(at as int, at + 8)),
{
    BigEndian::read_u64(&b[at..at + 8])
}

/// Reading the bytes of `n` gives `n` back.
pub proof fn lemma_token_round_trip(n: u64)
    ensures
        be_value(be_bytes(n)) == n,
{
    let b = be_bytes(n);
    assert(b[0] == (n >> 56) as u8 && b[1] == (n >> 48) as u8 && b[2] == (n >> 40) as u8 && b[3] == (n >> 32) as u8);
    assert(b[4] == (n >> 24) as u8 && b[5] == (n >> 16) as u8 && b[6] == (n >> 8) as u8 && b[7] == n as u8);
    assert(((n >> 56) as u8 as u64) << 56 | ((n >> 48) as u8 as u64) << 48 | ((n >> 40) as u8 as u64) << 40
        | ((n >> 32) as u8 as u64) << 32 | ((n >> 24) as u8 as u64) << 24 | ((n >> 16) as u8 as u64) << 16
        | ((n >> 8) as u8 as u64) << 8 | (n as u8 as u64) == n) by (bit_vector);
}

/// The token of cursor `id` of process `pid`.
pub open spec fn token_bytes(pid: u64, id: u64) -> Seq<u8> {
    be_bytes(pid) + be_bytes(id)
}

/// The process and the cursor a token of the right width names.
pub open spec fn token_parts(t: Seq<u8>) -> Option<(u64, u64)> {
    if t.len() == 16 {
        Some((be_value(t.subrange(0, 8)), be_value(t.subrange(8, 16))))
    } else {
        None
    }
}

/// A token names the process and cursor it was made for.
pub proof fn lemma_token_parts(pid: u64, id: u64)
    ensures
        token_parts(token_bytes(pid, id)) == Some((pid, id)),
{
    let t = token_bytes(pid, id);
    assert(t.subrange(0, 8) =~= be_bytes(pid));
    assert(t.subrange(8, 16) =~= be_bytes(id));
    lemma_token_round_trip(pid);
    lemma_token_round_trip(id);
}

/// The token handed out for cursor `id` of process `pid`.
pub fn cursor_token(pid: u64, id: u64) -> (r: Vec<u8>)
    ensures
        r@ == token_bytes(pid, id),
{
    let mut t = write_be(pid);
    let low = write_be(id);
    let mut i: usize = 0;
    while i < 8
        invariant
            i <= 8,
            low@ == be_bytes(id),
            t@ == be_bytes(pid) + low@.subrange(0, i as int),
        decreases 8 - i,
    {
        t.push(low[i]);
        i = i + 1;
        assert(t@ =~= be_bytes(pid) + low@.subrange(0, i as int));
    }
    assert(low@.subrange(0, 8) =~= low@);
    t
}

/// The process and cursor a token names; `None` when it is not sixteen
/// bytes long.
pub fn token_parts_of(token: &[u8]) -> (r: Option<(u64, u64)>)
    ensures
        r == token_parts(token@),
{
    if token.len() == 16 {
        Some((read_be(token, 0), read_be(token, 8)))
    } else {
        None
    }
}

} // verus!
