use vstd::prelude::*;

use crate::key::{BlockHeight, Key, KEY_MAX};

verus! {

/// A key on disk: three bytes, most significant first.
pub open spec fn key_bytes(k: nat) -> Seq<u8> {
    seq![(k / 65536) as u8, ((k / 256) % 256) as u8, (k % 256) as u8]
}

/// The number that three big-endian bytes hold.
pub open spec fn key_of(b: Seq<u8>) -> nat {
    (b[0] as nat) * 65536 + (b[1] as nat) * 256 + (b[2] as nat)
}

/// A block height on disk: four bytes, most significant first.
pub open spec fn height_bytes(h: nat) -> Seq<u8> {
    seq![
        (h / 16777216) as u8,
        ((h / 65536) % 256) as u8,
        ((h / 256) % 256) as u8,
        (h % 256) as u8,
    ]
}

/// The number that four big-endian bytes hold.
pub open spec fn height_of(b: Seq<u8>) -> nat {
    (b[0] as nat) * 16777216 + (b[1] as nat) * 65536 + (b[2] as nat) * 256 + (b[3] as nat)
}

/// An unsigned integer in the variable-length format: seven bits per byte,
/// least significant group first, the high bit set on every byte but the last.
pub open spec fn varint(n: nat) -> Seq<u8>
    decreases n,
{
    if n < 128 {
        seq![n as u8]
    } else {
        seq![((n % 128) + 128) as u8] + varint(n / 128)
    }
}

/// A value on disk: its length as a varint, then its bytes.
pub open spec fn value_bytes(v: Seq<u8>) -> Seq<u8> {
    varint(v.len()) + v
}

/// Distinct keys have distinct encodings, and decoding undoes encoding.
pub proof fn lemma_key_bytes(k: nat)
    requires
        k <= KEY_MAX,
    ensures
        key_bytes(k).len() == 3,
        key_of(key_bytes(k)) == k,
{
    assert(key_of(key_bytes(k)) == k) by (nonlinear_arith)
        requires
            k <= 0xFF_FFFF,
            key_bytes(k) == seq![(k / 65536) as u8, ((k / 256) % 256) as u8, (k % 256) as u8],
    ;
}

/// Two keys that fit in 24 bits have equal encodings only if they are equal.
pub proof fn lemma_key_bytes_injective(a: nat, b: nat)
    requires
        a <= KEY_MAX,
        b <= KEY_MAX,
        key_bytes(a) == key_bytes(b),
    ensures
        a == b,
{
    lemma_key_bytes(a);
    lemma_key_bytes(b);
}

/// A varint followed by anything determines the number it holds.
pub proof fn lemma_varint_prefix(a: nat, b: nat, x: Seq<u8>, y: Seq<u8>)
    requires
        varint(a) + x == varint(b) + y,
    ensures
        a == b,
        x == y,
    decreases a,
{
    let sa = varint(a) + x;
    let sb = varint(b) + y;
    assert(sa[0] == varint(a)[0]);
    assert(sb[0] == varint(b)[0]);
    if a < 128 {
        if b >= 128 {
            assert(varint(b)[0] >= 128);
        }
        assert(varint(b)[0] == b as u8);
        assert(x =~= sa.drop_first());
        assert(y =~= sb.drop_first());
    } else {
        assert(varint(a)[0] >= 128);
        if b < 128 {
            assert(varint(b)[0] < 128);
        }
        let ta = varint(a / 128) + x;
        let tb = varint(b / 128) + y;
        assert(ta =~= sa.drop_first());
        assert(tb =~= sb.drop_first());
        lemma_varint_prefix(a / 128, b / 128, x, y);
        assert(a % 128 == b % 128);
    }
}

/// Two values have equal encodings only if they are equal.
pub proof fn lemma_value_bytes_injective(v: Seq<u8>, w: Seq<u8>)
    requires
        value_bytes(v) == value_bytes(w),
    ensures
        v == w,
{
    lemma_varint_prefix(v.len(), w.len(), v, w);
}

/// Encodes a key as three big-endian bytes.
pub fn encode_key(k: Key) -> (r: Vec<u8>)
    ensures
        r@ == key_bytes(k@),
{
    let n = k.as_u32();
    let mut r: Vec<u8> = Vec::new();
    r.push((n / 65536) as u8);
    r.push(((n / 256) % 256) as u8);
    r.push((n % 256) as u8);
    assert(r@ =~= key_bytes(k@));
    r
}

/// Decodes three big-endian bytes into a key; any other length is refused.
pub fn decode_key(b: &[u8]) -> (r: Option<Key>)
    ensures
        r is Some <==> b@.len() == 3,
        r is Some ==> r->Some_0@ == key_of(b@) && key_bytes(r->Some_0@) == b@,
{
    if b.len() != 3 {
        return None;
    }
    let b0 = b[0] as u32;
    let b1 = b[1] as u32;
    let b2 = b[2] as u32;
    let n: u32 = b0 * 65536 + b1 * 256 + b2;
    assert(n <= KEY_MAX);
    let k = Key::new(n);
    proof {
        let s = b@;
        let kb = key_bytes(n as nat);
        assert(kb[0] == s[0] && kb[1] == s[1] && kb[2] == s[2]) by (nonlinear_arith)
            requires
                n == (s[0] as nat) * 65536 + (s[1] as nat) * 256 + (s[2] as nat),
                kb == seq![(n / 65536) as u8, ((n / 256) % 256) as u8, (n % 256) as u8],
        ;
        assert(kb =~= s);
    }
    k
}

/// Encodes a block height as four big-endian bytes.
pub fn encode_height(h: BlockHeight) -> (r: Vec<u8>)
    ensures
        r@ == height_bytes(h.value as nat),
{
    let n = h.value;
    let mut r: Vec<u8> = Vec::new();
    r.push((n / 16777216) as u8);
    r.push(((n / 65536) % 256) as u8);
    r.push(((n / 256) % 256) as u8);
    r.push((n % 256) as u8);
    assert(r@ =~= height_bytes(h.value as nat));
    r
}

/// Decodes four big-endian bytes into a block height; any other length is refused.
pub fn decode_height(b: &[u8]) -> (r: Option<BlockHeight>)
    ensures
        r is Some <==> b@.len() == 4,
        r is Some ==> r->Some_0.value == height_of(b@),
{
    if b.len() != 4 {
        return None;
    }
    let b0 = b[0] as u32;
    let b1 = b[1] as u32;
    let b2 = b[2] as u32;
    let b3 = b[3] as u32;
    Some(BlockHeight { value: b0 * 16777216 + b1 * 65536 + b2 * 256 + b3 })
}

/// Relies on postcard::to_allocvec: a byte vector is written as its length in
/// postcard's varint format followed by the bytes, and writing into a growable
/// vector does not fail.
#[verifier::external_body]
pub(crate) fn encode_value(v: &Vec<u8>) -> (r: Vec<u8>)
    ensures
        r@ == value_bytes(v@),
{
    postcard::to_allocvec(v).unwrap_or_default()
}

/// Relies on postcard::from_bytes: bytes that start with a varint length and
/// that many bytes read back as those bytes (what follows is ignored).
#[verifier::external_body]
pub(crate) fn decode_value(b: &[u8]) -> (r: Option<Vec<u8>>)
    ensures
        forall|v: Seq<u8>| #[trigger] value_bytes(v) == b@ ==> (r is Some && r->Some_0@ == v),
{
    postcard::from_bytes::<Vec<u8>>(b).ok()
}

} // verus!
