//! The byte layout that the system uses on the wire and in its store: bincode's default
//! format (fixed-width little-endian integers, `u64` length prefixes, a one-byte tag for
//! `Option`, a `u32` variant index for enums).
use vstd::prelude::*;
use vstd::utf8::*;
use vstd::string::*;

verus! {

/// The `k` low bytes of `n`, least significant first.
pub open spec fn le_bytes(n: nat, k: nat) -> Seq<u8>
    decreases k,
{
    if k == 0 {
        seq![]
    } else {
        seq![(n % 256) as u8] + le_bytes(n / 256, (k - 1) as nat)
    }
}

/// The number whose little-endian bytes are `b`.
pub open spec fn le_value(b: Seq<u8>) -> nat
    decreases b.len(),
{
    if b.len() == 0 {
        0
    } else {
        b[0] as nat + 256 * le_value(b.drop_first())
    }
}

/// `256^k`.
pub open spec fn pow256(k: nat) -> nat
    decreases k,
{
    if k == 0 { 1 } else { 256 * pow256((k - 1) as nat) }
}

proof fn lemma_le_len(n: nat, k: nat)
    ensures
        le_bytes(n, k).len() == k,
    decreases k,
{
    if k > 0 {
        lemma_le_len(n / 256, (k - 1) as nat);
    }
}

/// Reading back `k` little-endian bytes gives the number, when it fits in them.
pub proof fn lemma_le_roundtrip(n: nat, k: nat)
    requires
        n < pow256(k),
    ensures
        le_value(le_bytes(n, k)) == n,
        le_bytes(n, k).len() == k,
    decreases k,
{
    lemma_le_len(n, k);
    if k > 0 {
        let p = pow256((k - 1) as nat);
        assert(n / 256 < p) by (nonlinear_arith)
            requires n < 256 * p, p > 0;
        lemma_pow256_pos((k - 1) as nat);
        lemma_le_roundtrip(n / 256, (k - 1) as nat);
        let b = le_bytes(n, k);
        assert(b.drop_first() == le_bytes(n / 256, (k - 1) as nat));
        assert(n % 256 + 256 * (n / 256) == n) by (nonlinear_arith);
    }
}

proof fn lemma_pow256_pos(k: nat)
    ensures
        pow256(k) > 0,
    decreases k,
{
    if k > 0 {
        lemma_pow256_pos((k - 1) as nat);
    }
}

/// `2^64 == 256^8`.
pub proof fn lemma_pow256_8()
    ensures
        pow256(8) == 0x1_0000_0000_0000_0000,
{
    reveal_with_fuel(pow256, 9);
}

/// bincode's encoding of a string: its UTF-8 byte length as a little-endian `u64`, then
/// the UTF-8 bytes.
pub open spec fn bincode_str(s: Seq<char>) -> Seq<u8> {
    le_bytes(encode_utf8(s).len(), 8) + encode_utf8(s)
}

/// bincode's encoding of a byte buffer: its length as a little-endian `u64`, then the bytes.
pub open spec fn bincode_bytes(b: Seq<u8>) -> Seq<u8> {
    le_bytes(b.len(), 8) + b
}

/// What bincode's `deserialize::<&str>` reads from `b`: an eight-byte little-endian length
/// `n`, then `n` bytes of valid UTF-8; bytes after those are ignored.
pub open spec fn bincode_str_decode(b: Seq<u8>) -> Option<Seq<char>> {
    if b.len() < 8 {
        None
    } else {
        let n = le_value(b.take(8));
        if n > b.len() - 8 {
            None
        } else {
            let body = b.subrange(8, 8 + n as int);
            if valid_utf8(body) {
                Some(decode_utf8(body))
            } else {
                None
            }
        }
    }
}

/// Encoding a string and decoding it gives the string back.
pub proof fn lemma_bincode_str_roundtrip(s: Seq<char>)
    requires
        encode_utf8(s).len() < 0x1_0000_0000_0000_0000,
    ensures
        bincode_str_decode(bincode_str(s)) == Some(s),
{
    broadcast use encode_utf8_valid_utf8, encode_utf8_decode_utf8;
    let e = encode_utf8(s);
    lemma_pow256_8();
    lemma_le_roundtrip(e.len(), 8);
    let b = bincode_str(s);
    assert(b.take(8) == le_bytes(e.len(), 8));
    assert(b.subrange(8, 8 + e.len() as int) == e);
}

/// bincode's `serialize` applied to a string: the length-prefixed UTF-8 bytes of `s`.
/// Serializing a string into a fresh buffer cannot fail (fixed-width lengths, no size
/// limit), so the result is always `Some`.
#[verifier::external_body]
pub fn option_of_bytes(s: &str) -> (r: Option<Vec<u8>>)
    ensures
        r is Some,
        r.unwrap()@ == bincode_str(s@),
{
    bincode::serialize(s).ok()
}

/// bincode's `deserialize::<&str>`: the string that `bytes` start with, borrowed from them,
/// or `None` where bincode reports an error (too short, or not UTF-8).
#[verifier::external_body]
pub(crate) fn text_of_bytes(bytes: &[u8]) -> (r: Option<&str>)
    ensures
        r is Some <==> bincode_str_decode(bytes@) is Some,
        r is Some ==> bincode_str_decode(bytes@) == Some(r.unwrap()@),
{
    bincode::deserialize::<&str>(bytes).ok()
}

// ---------------------------------------------------------------------------
// Verified writers for the fields of the system's own types
// ---------------------------------------------------------------------------

/// Appends the `k` low little-endian bytes of `n`.
pub fn put_le(out: &mut Vec<u8>, n: u64, k: usize)
    requires
        k <= 8,
    ensures
        final(out)@ == old(out)@ + le_bytes(n as nat, k as nat),
{
    let mut m = n;
    let mut i: usize = 0;
    let ghost start = out@;
    while i < k
        invariant
            i <= k <= 8,
            start == old(out)@,
            out@ + le_bytes(m as nat, (k - i) as nat) == start + le_bytes(n as nat, k as nat),
        decreases k - i,
    {
        let byte = (m % 256) as u8;
        proof {
            let rest = le_bytes(m as nat / 256, (k - i - 1) as nat);
            assert(le_bytes(m as nat, (k - i) as nat) == seq![byte] + rest);
            assert(out@.push(byte) + rest == out@ + (seq![byte] + rest));
        }
        out.push(byte);
        m = m / 256;
        i = i + 1;
    }
    assert(out@ + le_bytes(m as nat, 0) == out@);
}

/// Appends bincode's encoding of a string.
pub fn put_str(out: &mut Vec<u8>, s: &str)
    ensures
        final(out)@ == old(out)@ + bincode_str(s@),
{
    let bytes = s.as_bytes();
    put_le(out, bytes.len() as u64, 8);
    let ghost mid = out@;
    let mut i: usize = 0;
    while i < bytes.len()
        invariant
            i <= bytes.len(),
            bytes@ == encode_utf8(s@),
            out@ == mid + bytes@.take(i as int),
        decreases bytes.len() - i,
    {
        out.push(bytes[i]);
        assert(bytes@.take(i + 1) == bytes@.take(i as int).push(bytes@[i as int]));
        i = i + 1;
    }
    assert(bytes@.take(bytes.len() as int) == bytes@);
    assert(old(out)@ + bincode_str(s@) == old(out)@ + le_bytes(bytes.len() as nat, 8) + bytes@);
}

/// Appends bincode's encoding of a byte buffer.
pub fn put_bytes(out: &mut Vec<u8>, b: &Vec<u8>)
    ensures
        final(out)@ == old(out)@ + bincode_bytes(b@),
{
    put_le(out, b.len() as u64, 8);
    let ghost mid = out@;
    let mut i: usize = 0;
    while i < b.len()
        invariant
            i <= b.len(),
            out@ == mid + b@.take(i as int),
        decreases b.len() - i,
    {
        out.push(b[i]);
        assert(b@.take(i + 1) == b@.take(i as int).push(b@[i as int]));
        i = i + 1;
    }
    assert(b@.take(b.len() as int) == b@);
    assert(old(out)@ + bincode_bytes(b@) == old(out)@ + le_bytes(b.len() as nat, 8) + b@);
}

/// bincode's encoding of an optional string: tag `0`, or tag `1` then the string.
pub open spec fn bincode_opt_str(s: Option<Seq<char>>) -> Seq<u8> {
    match s {
        None => seq![0u8],
        Some(t) => seq![1u8] + bincode_str(t),
    }
}

/// Appends bincode's encoding of an optional string.
pub fn put_opt_str(out: &mut Vec<u8>, s: &Option<String>)
    ensures
        final(out)@ == old(out)@ + bincode_opt_str(match s { Some(t) => Some(t@), None => None }),
{
    match s {
        None => {
            out.push(0u8);
        },
        Some(t) => {
            out.push(1u8);
            let ghost mid = out@;
            put_str(out, t.as_str());
            assert(out@ == old(out)@ + (seq![1u8] + bincode_str(t@)));
        },
    }
}

/// bincode's encoding of an optional `u16`: tag `0`, or tag `1` then two little-endian bytes.
pub open spec fn bincode_opt_u16(p: Option<u16>) -> Seq<u8> {
    match p {
        None => seq![0u8],
        Some(v) => seq![1u8] + le_bytes(v as nat, 2),
    }
}

/// Appends bincode's encoding of an optional `u16`.
pub fn put_opt_u16(out: &mut Vec<u8>, p: Option<u16>)
    ensures
        final(out)@ == old(out)@ + bincode_opt_u16(p),
{
    match p {
        None => {
            out.push(0u8);
        },
        Some(v) => {
            out.push(1u8);
            put_le(out, v as u64, 2);
            assert(out@ == old(out)@ + (seq![1u8] + le_bytes(v as nat, 2)));
        },
    }
}

} // verus!

verus! {

// ---------------------------------------------------------------------------
// The layout reads back: each encoding is a prefix that determines its value
// ---------------------------------------------------------------------------

/// Whether a string's UTF-8 encoding has a length that bincode's `u64` prefix can hold.
pub open spec fn str_fits(s: Seq<char>) -> bool {
    encode_utf8(s).len() < 0x1_0000_0000_0000_0000
}

/// Whether an optional string fits (see [`str_fits`]).
pub open spec fn opt_str_fits(s: Option<Seq<char>>) -> bool {
    match s {
        Some(t) => str_fits(t),
        None => true,
    }
}

/// `(a + b) + c == a + (b + c)`.
pub proof fn lemma_concat_assoc(a: Seq<u8>, b: Seq<u8>, c: Seq<u8>)
    ensures
        (a + b) + c == a + (b + c),
{
    assert((a + b) + c =~= a + (b + c));
}

/// Two byte strings that start with pieces of equal length are equal exactly when the
/// pieces and the rests are.
pub proof fn lemma_split_equal(a1: Seq<u8>, r1: Seq<u8>, a2: Seq<u8>, r2: Seq<u8>)
    requires
        a1.len() == a2.len(),
        a1 + r1 == a2 + r2,
    ensures
        a1 == a2,
        r1 == r2,
{
    assert(a1 =~= (a1 + r1).take(a1.len() as int));
    assert(a2 =~= (a2 + r2).take(a2.len() as int));
    assert(r1 =~= (a1 + r1).skip(a1.len() as int));
    assert(r2 =~= (a2 + r2).skip(a2.len() as int));
}

/// `k` little-endian bytes followed by anything determine the number and the rest.
pub proof fn lemma_le_prefix(n: nat, m: nat, k: nat, r1: Seq<u8>, r2: Seq<u8>)
    requires
        n < pow256(k),
        m < pow256(k),
        le_bytes(n, k) + r1 == le_bytes(m, k) + r2,
    ensures
        n == m,
        r1 == r2,
{
    lemma_le_roundtrip(n, k);
    lemma_le_roundtrip(m, k);
    lemma_split_equal(le_bytes(n, k), r1, le_bytes(m, k), r2);
}

/// `2^16 == 256^2` and `2^32 == 256^4`.
pub proof fn lemma_pow256_small()
    ensures
        pow256(2) == 0x1_0000,
        pow256(4) == 0x1_0000_0000,
{
    reveal_with_fuel(pow256, 5);
}

/// A string's encoding followed by anything determines the string and the rest.
pub proof fn lemma_str_prefix(s: Seq<char>, t: Seq<char>, r1: Seq<u8>, r2: Seq<u8>)
    requires
        str_fits(s),
        str_fits(t),
        bincode_str(s) + r1 == bincode_str(t) + r2,
    ensures
        s == t,
        r1 == r2,
{
    broadcast use encode_utf8_decode_utf8;
    let es = encode_utf8(s);
    let et = encode_utf8(t);
    lemma_pow256_8();
    assert(bincode_str(s) + r1 =~= le_bytes(es.len(), 8) + (es + r1));
    assert(bincode_str(t) + r2 =~= le_bytes(et.len(), 8) + (et + r2));
    lemma_le_prefix(es.len(), et.len(), 8, es + r1, et + r2);
    lemma_split_equal(es, r1, et, r2);
    assert(decode_utf8(es) == s);
    assert(decode_utf8(et) == t);
}

/// A byte buffer's encoding followed by anything determines the buffer and the rest.
pub proof fn lemma_bytes_prefix(a: Seq<u8>, b: Seq<u8>, r1: Seq<u8>, r2: Seq<u8>)
    requires
        a.len() < 0x1_0000_0000_0000_0000,
        b.len() < 0x1_0000_0000_0000_0000,
        bincode_bytes(a) + r1 == bincode_bytes(b) + r2,
    ensures
        a == b,
        r1 == r2,
{
    lemma_pow256_8();
    assert(bincode_bytes(a) + r1 =~= le_bytes(a.len(), 8) + (a + r1));
    assert(bincode_bytes(b) + r2 =~= le_bytes(b.len(), 8) + (b + r2));
    lemma_le_prefix(a.len(), b.len(), 8, a + r1, b + r2);
    lemma_split_equal(a, r1, b, r2);
}

/// A one-byte tag followed by anything determines the tag and the rest.
pub proof fn lemma_tag_prefix(x: u8, y: u8, r1: Seq<u8>, r2: Seq<u8>)
    requires
        seq![x] + r1 == seq![y] + r2,
    ensures
        x == y,
        r1 == r2,
{
    lemma_split_equal(seq![x], r1, seq![y], r2);
    assert(seq![x][0] == x);
}

/// An optional string's encoding followed by anything determines it and the rest.
pub proof fn lemma_opt_str_prefix(s: Option<Seq<char>>, t: Option<Seq<char>>, r1: Seq<u8>, r2: Seq<u8>)
    requires
        opt_str_fits(s),
        opt_str_fits(t),
        bincode_opt_str(s) + r1 == bincode_opt_str(t) + r2,
    ensures
        s == t,
        r1 == r2,
{
    let (x, b1) = match s { Some(v) => (1u8, bincode_str(v) + r1), None => (0u8, r1) };
    let (y, b2) = match t { Some(v) => (1u8, bincode_str(v) + r2), None => (0u8, r2) };
    assert(bincode_opt_str(s) + r1 =~= seq![x] + b1);
    assert(bincode_opt_str(t) + r2 =~= seq![y] + b2);
    lemma_tag_prefix(x, y, b1, b2);
    if s is Some && t is Some {
        lemma_str_prefix(s.unwrap(), t.unwrap(), r1, r2);
    }
}

/// An optional `u16`'s encoding followed by anything determines it and the rest.
pub proof fn lemma_opt_u16_prefix(p: Option<u16>, q: Option<u16>, r1: Seq<u8>, r2: Seq<u8>)
    requires
        bincode_opt_u16(p) + r1 == bincode_opt_u16(q) + r2,
    ensures
        p == q,
        r1 == r2,
{
    lemma_pow256_small();
    let (x, b1) = match p { Some(v) => (1u8, le_bytes(v as nat, 2) + r1), None => (0u8, r1) };
    let (y, b2) = match q { Some(v) => (1u8, le_bytes(v as nat, 2) + r2), None => (0u8, r2) };
    assert(bincode_opt_u16(p) + r1 =~= seq![x] + b1);
    assert(bincode_opt_u16(q) + r2 =~= seq![y] + b2);
    lemma_tag_prefix(x, y, b1, b2);
    if p is Some && q is Some {
        lemma_le_prefix(p.unwrap() as nat, q.unwrap() as nat, 2, r1, r2);
    }
}

} // verus!
