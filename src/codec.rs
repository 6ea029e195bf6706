//! Binary encoding of key/value pairs handed back by cursor fetches.
//!
//! A pair is written as: size prefix of the key, the key, size prefix of the
//! value, the value. A size prefix is one byte for sizes up to 120, and a
//! marker byte (121, 122 or 123) followed by one, two or four big-endian
//! bytes otherwise. The empty buffer stands for "nothing found".
use vstd::prelude::*;

verus! {

/// Largest size a prefix can carry.
pub const MAX_ENCODED_SIZE: usize = 0xffff_ffff;

/// The bytes that announce a payload of `n` bytes.
pub open spec fn size_prefix(n: nat) -> Seq<u8> {
    if n <= 120 {
        seq![n as u8]
    } else if n <= 255 {
        seq![121u8, n as u8]
    } else if n <= 65535 {
        seq![122u8, (n / 256) as u8, (n % 256) as u8]
    } else {
        seq![123u8, (n / 16777216) as u8, ((n / 65536) % 256) as u8, ((n / 256) % 256) as u8, (n % 256) as u8]
    }
}

/// The encoding of the pair `(k, v)`.
pub open spec fn pair_bytes(k: Seq<u8>, v: Seq<u8>) -> Seq<u8> {
    size_prefix(k.len()) + k + size_prefix(v.len()) + v
}

/// Reads a size prefix at the front of `s`: the size and the prefix's length.
pub open spec fn parse_size(s: Seq<u8>) -> Option<(nat, nat)> {
    if s.len() == 0 {
        None
    } else if s[0] <= 120 {
        Some((s[0] as nat, 1))
    } else if s[0] == 121 && s.len() >= 2 {
        Some((s[1] as nat, 2))
    } else if s[0] == 122 && s.len() >= 3 {
        Some((s[1] as nat * 256 + s[2] as nat, 3))
    } else if s[0] == 123 && s.len() >= 5 {
        Some((s[1] as nat * 16777216 + s[2] as nat * 65536 + s[3] as nat * 256 + s[4] as nat, 5))
    } else {
        None
    }
}

/// Reads one pair that fills `s` exactly.
pub open spec fn parse_pair(s: Seq<u8>) -> Option<(Seq<u8>, Seq<u8>)> {
    match parse_size(s) {
        None => None,
        Some((kl, kp)) => {
            let rest = s.subrange(kp as int, s.len() as int);
            if rest.len() < kl {
                None
            } else {
                let k = rest.subrange(0, kl as int);
                let rest2 = rest.subrange(kl as int, rest.len() as int);
                match parse_size(rest2) {
                    None => None,
                    Some((vl, vp)) => {
                        if rest2.len() != vp + vl {
                            None
                        } else {
                            Some((k, rest2.subrange(vp as int, rest2.len() as int)))
                        }
                    },
                }
            }
        },
    }
}

proof fn lemma_size_prefix_parses(n: nat, rest: Seq<u8>)
    requires
        n <= 0xffff_ffff,
    ensures
        parse_size(size_prefix(n) + rest) == Some((n, size_prefix(n).len())),
        1 <= size_prefix(n).len() <= 5,
{
    let s = size_prefix(n) + rest;
    if n <= 120 {
        assert(s[0] == n as u8);
    } else if n <= 255 {
        assert(s[0] == 121u8 && s[1] == n as u8);
    } else if n <= 65535 {
        assert(s[0] == 122u8 && s[1] == (n / 256) as u8 && s[2] == (n % 256) as u8);
        let m = n as u32;
        assert(((m / 256) as u8) as u32 * 256 + ((m % 256) as u8) as u32 == m) by (bit_vector)
            requires
                m <= 65535,
        ;
    } else {
        assert(s[0] == 123u8);
        assert(s[1] == (n / 16777216) as u8);
        assert(s[2] == ((n / 65536) % 256) as u8);
        assert(s[3] == ((n / 256) % 256) as u8);
        assert(s[4] == (n % 256) as u8);
        let m = n as u32;
        assert(((m / 16777216) as u8) as u32 * 16777216 + (((m / 65536) % 256) as u8) as u32 * 65536
            + (((m / 256) % 256) as u8) as u32 * 256 + ((m % 256) as u8) as u32 == m) by (bit_vector);
    }
}

/// Decoding an encoded pair gives back exactly its key and value bytes.
pub proof fn lemma_pair_round_trip(k: Seq<u8>, v: Seq<u8>)
    requires
        k.len() <= 0xffff_ffff,
        v.len() <= 0xffff_ffff,
    ensures
        parse_pair(pair_bytes(k, v)) == Some((k, v)),
{
    let pk = size_prefix(k.len());
    let pv = size_prefix(v.len());
    let s = pair_bytes(k, v);
    let tail = k + pv + v;
    assert(s =~= pk + tail);
    lemma_size_prefix_parses(k.len(), tail);
    assert(parse_size(s) == Some((k.len(), pk.len())));
    let rest = s.subrange(pk.len() as int, s.len() as int);
    assert(rest =~= tail);
    assert(rest.subrange(0, k.len() as int) =~= k);
    let rest2 = rest.subrange(k.len() as int, rest.len() as int);
    assert(rest2 =~= pv + v);
    lemma_size_prefix_parses(v.len(), v);
    assert(parse_size(rest2) == Some((v.len(), pv.len())));
    assert(rest2.subrange(pv.len() as int, rest2.len() as int) =~= v);
}

/// Appends the size prefix of `n` to `out`.
fn push_size(out: &mut Vec<u8>, n: usize)
    requires
        n <= MAX_ENCODED_SIZE,
    ensures
        final(out)@ == old(out)@ + size_prefix(n as nat),
{
    if n <= 120 {
        out.push(n as u8);
    } else if n <= 255 {
        out.push(121u8);
        out.push(n as u8);
    } else if n <= 65535 {
        out.push(122u8);
        out.push((n / 256) as u8);
        out.push((n % 256) as u8);
    } else {
        out.push(123u8);
        out.push((n / 16777216) as u8);
        out.push(((n / 65536) % 256) as u8);
        out.push(((n / 256) % 256) as u8);
        out.push((n % 256) as u8);
    }
    assert(final(out)@ =~= old(out)@ + size_prefix(n as nat));
}

/// Appends the bytes of `src` to `out`.
fn push_bytes(out: &mut Vec<u8>, src: &[u8])
    ensures
        final(out)@ == old(out)@ + src@,
{
    let mut i: usize = 0;
    while i < src.len()
        invariant
            i <= src@.len(),
            out@ == old(out)@ + src@.subrange(0, i as int),
        decreases src@.len() - i,
    {
        out.push(src[i]);
        i = i + 1;
        assert(out@ =~= old(out)@ + src@.subrange(0, i as int));
    }
    assert(src@.subrange(0, i as int) =~= src@);
}

/// Encodes the pair `(key, value)`.
pub fn encode_pair(key: &[u8], value: &[u8]) -> (r: Vec<u8>)
    requires
        key@.len() <= MAX_ENCODED_SIZE,
        value@.len() <= MAX_ENCODED_SIZE,
    ensures
        r@ == pair_bytes(key@, value@),
{
    let mut out: Vec<u8> = Vec::new();
    push_size(&mut out, key.len());
    push_bytes(&mut out, key);
    push_size(&mut out, value.len());
    push_bytes(&mut out, value);
    out
}

} // verus!
