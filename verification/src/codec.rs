//! Byte-level model of the value encoding, and the encoding layer itself.
//!
//! Values are stored in SCALE form: machine integers as little-endian bytes,
//! sequences as a compact length prefix followed by the element encodings.
//! The spec functions here pin that layout down byte by byte; the executable
//! entry points call the `parity_scale_codec` crate and are trusted to match
//! the spec functions.

use vstd::prelude::*;

verus! {

// ---------------------------------------------------------------------------
// Little-endian byte layouts
// ---------------------------------------------------------------------------

/// The two little-endian bytes of a 16-bit value.
pub open spec fn spec_le16(x: u16) -> Seq<u8> {
    seq![(x & 0xff) as u8, ((x >> 8) & 0xff) as u8]
}

/// The 16-bit value held by two little-endian bytes.
pub open spec fn spec_le16_val(s: Seq<u8>) -> u16
    recommends
        s.len() == 2,
{
    (s[0] as u16) | ((s[1] as u16) << 8)
}

/// The four little-endian bytes of a 32-bit value.
pub open spec fn spec_le32(x: u32) -> Seq<u8> {
    seq![
        (x & 0xff) as u8,
        ((x >> 8) & 0xff) as u8,
        ((x >> 16) & 0xff) as u8,
        ((x >> 24) & 0xff) as u8,
    ]
}

/// The 32-bit value held by four little-endian bytes.
pub open spec fn spec_le32_val(s: Seq<u8>) -> u32
    recommends
        s.len() == 4,
{
    (s[0] as u32) | ((s[1] as u32) << 8) | ((s[2] as u32) << 16) | ((s[3] as u32) << 24)
}

/// The eight little-endian bytes of a 64-bit value.
pub open spec fn spec_le64(x: u64) -> Seq<u8> {
    seq![
        (x & 0xff) as u8,
        ((x >> 8) & 0xff) as u8,
        ((x >> 16) & 0xff) as u8,
        ((x >> 24) & 0xff) as u8,
        ((x >> 32) & 0xff) as u8,
        ((x >> 40) & 0xff) as u8,
        ((x >> 48) & 0xff) as u8,
        ((x >> 56) & 0xff) as u8,
    ]
}

/// The 64-bit value held by eight little-endian bytes.
pub open spec fn spec_le64_val(s: Seq<u8>) -> u64
    recommends
        s.len() == 8,
{
    (s[0] as u64) | ((s[1] as u64) << 8) | ((s[2] as u64) << 16) | ((s[3] as u64) << 24)
        | ((s[4] as u64) << 32) | ((s[5] as u64) << 40) | ((s[6] as u64) << 48) | ((s[7] as u64)
        << 56)
}

pub proof fn lemma_le16_roundtrip(x: u16)
    ensures
        spec_le16(x).len() == 2,
        spec_le16_val(spec_le16(x)) == x,
{
    assert(((((x & 0xff) as u8) as u16) | ((((x >> 8) & 0xff) as u8) as u16) << 8) == x)
        by (bit_vector);
}

pub proof fn lemma_le32_roundtrip(x: u32)
    ensures
        spec_le32(x).len() == 4,
        spec_le32_val(spec_le32(x)) == x,
{
    assert(((((x & 0xff) as u8) as u32) | ((((x >> 8) & 0xff) as u8) as u32) << 8 | ((((x >> 16)
        & 0xff) as u8) as u32) << 16 | ((((x >> 24) & 0xff) as u8) as u32) << 24) == x)
        by (bit_vector);
}

pub proof fn lemma_le64_roundtrip(x: u64)
    ensures
        spec_le64(x).len() == 8,
        spec_le64_val(spec_le64(x)) == x,
{
    assert(((((x & 0xff) as u8) as u64) | ((((x >> 8) & 0xff) as u8) as u64) << 8 | ((((x >> 16)
        & 0xff) as u8) as u64) << 16 | ((((x >> 24) & 0xff) as u8) as u64) << 24 | ((((x >> 32)
        & 0xff) as u8) as u64) << 32 | ((((x >> 40) & 0xff) as u8) as u64) << 40 | ((((x >> 48)
        & 0xff) as u8) as u64) << 48 | ((((x >> 56) & 0xff) as u8) as u64) << 56) == x)
        by (bit_vector);
}

// ---------------------------------------------------------------------------
// The compact length prefix
// ---------------------------------------------------------------------------

/// The compact encoding of a 32-bit count: the two low bits of the first byte
/// select a one-, two-, four- or five-byte form.
pub open spec fn spec_compact_u32(n: u32) -> Seq<u8> {
    if n < 64 {
        seq![(n as u8) << 2]
    } else if n < 16384 {
        spec_le16(((n as u16) << 2) | 1)
    } else if n < 0x4000_0000 {
        spec_le32((n << 2) | 2)
    } else {
        seq![3u8] + spec_le32(n)
    }
}

/// How many bytes the compact encoding of `n` occupies.
pub open spec fn spec_compact_len(n: u32) -> int {
    if n < 64 {
        1
    } else if n < 16384 {
        2
    } else if n < 0x4000_0000 {
        4
    } else {
        5
    }
}

/// The count read by the compact 32-bit decoder, `None` where it fails.
/// Each form is accepted only for the range it is the canonical encoding of.
pub open spec fn spec_compact_decode(b: Seq<u8>) -> Option<u32> {
    if b.len() == 0 {
        None
    } else {
        let p = b[0];
        if p & 3 == 0 {
            Some((p >> 2) as u32)
        } else if p & 3 == 1 {
            if b.len() < 2 {
                None
            } else {
                let x = spec_le16_val(b.take(2)) >> 2;
                if 63 < x && x <= 16383 {
                    Some(x as u32)
                } else {
                    None
                }
            }
        } else if p & 3 == 2 {
            if b.len() < 4 {
                None
            } else {
                let x = spec_le32_val(b.take(4)) >> 2;
                if 16383 < x && x <= 0x3fff_ffff {
                    Some(x)
                } else {
                    None
                }
            }
        } else {
            if p >> 2 == 0 && b.len() >= 5 {
                let x = spec_le32_val(b.subrange(1, 5));
                if x > 0x3fff_ffff {
                    Some(x)
                } else {
                    None
                }
            } else {
                None
            }
        }
    }
}

/// Decoding undoes encoding, whatever follows the prefix.
pub proof fn lemma_compact_roundtrip(n: u32, rest: Seq<u8>)
    ensures
        spec_compact_u32(n).len() == spec_compact_len(n),
        spec_compact_decode(spec_compact_u32(n) + rest) == Some(n),
{
    let b = spec_compact_u32(n) + rest;
    if n < 64 {
        assert(b[0] == (n as u8) << 2);
        assert((((n as u8) << 2) & 3) == 0 && ((((n as u8) << 2) >> 2) as u32) == n)
            by (bit_vector)
            requires
                n < 64,
        ;
    } else if n < 16384 {
        let e = ((n as u16) << 2) | 1;
        lemma_le16_roundtrip(e);
        assert(b.take(2) =~= spec_le16(e));
        assert(b[0] == (e & 0xff) as u8);
        assert((((e & 0xff) as u8) & 3) == 1 && (e >> 2) == n as u16 && 63 < (e >> 2) && (e >> 2)
            <= 16383 && (((e >> 2)) as u32) == n)
            by (bit_vector)
            requires
                64 <= n < 16384 && e == ((n as u16) << 2) | 1,
        ;
    } else if n < 0x4000_0000 {
        let e = (n << 2) | 2;
        lemma_le32_roundtrip(e);
        assert(b.take(4) =~= spec_le32(e));
        assert(b[0] == (e & 0xff) as u8);
        assert((((e & 0xff) as u8) & 3) == 2 && (e >> 2) == n && 16383 < (e >> 2) && (e >> 2)
            <= 0x3fff_ffff)
            by (bit_vector)
            requires
                16384 <= n < 0x4000_0000 && e == (n << 2) | 2,
        ;
    } else {
        lemma_le32_roundtrip(n);
        assert(b[0] == 3u8);
        assert((3u8 & 3) == 3 && (3u8 >> 2) == 0) by (bit_vector);
        assert(b.subrange(1, 5) =~= spec_le32(n));
        assert(n > 0x3fff_ffff);
    }
}

// ---------------------------------------------------------------------------
// Sequences of 64-bit values
// ---------------------------------------------------------------------------

/// The concatenated encodings of a run of 64-bit elements.
pub open spec fn spec_encode_elems(s: Seq<u64>) -> Seq<u8>
    decreases s.len(),
{
    if s.len() == 0 {
        Seq::<u8>::empty()
    } else {
        spec_le64(s[0]) + spec_encode_elems(s.skip(1))
    }
}

pub proof fn lemma_elems_len(s: Seq<u64>)
    ensures
        spec_encode_elems(s).len() == 8 * s.len(),
    decreases s.len(),
{
    if s.len() > 0 {
        lemma_elems_len(s.skip(1));
    }
}

/// Appending one element extends the run by its eight bytes.
pub proof fn lemma_elems_push(s: Seq<u64>, x: u64)
    ensures
        spec_encode_elems(s.push(x)) == spec_encode_elems(s) + spec_le64(x),
    decreases s.len(),
{
    if s.len() == 0 {
        assert(s.push(x).skip(1) =~= Seq::<u64>::empty());
        assert(spec_encode_elems(Seq::<u64>::empty()) =~= Seq::<u8>::empty());
        assert(s.push(x)[0] == x);
        assert(spec_encode_elems(s.push(x)) == spec_le64(x) + spec_encode_elems(
            s.push(x).skip(1),
        ));
        assert(spec_encode_elems(s.push(x)) =~= spec_encode_elems(s) + spec_le64(x));
    } else {
        lemma_elems_push(s.skip(1), x);
        lemma_elems_len(s.skip(1));
        assert(s.push(x).skip(1) =~= s.skip(1).push(x));
        assert(spec_encode_elems(s.push(x)) =~= spec_encode_elems(s) + spec_le64(x));
    }
}

/// The bytes of element `i` sit at offset `8 * i` of the run.
pub proof fn lemma_elems_index(s: Seq<u64>, i: int)
    requires
        0 <= i < s.len(),
    ensures
        spec_encode_elems(s).subrange(8 * i, 8 * i + 8) == spec_le64(s[i]),
    decreases s.len(),
{
    lemma_elems_len(s);
    lemma_le64_roundtrip(s[0]);
    if i == 0 {
        assert(spec_encode_elems(s).subrange(0, 8) =~= spec_le64(s[0]));
    } else {
        lemma_elems_index(s.skip(1), i - 1);
        lemma_elems_len(s.skip(1));
        assert(spec_encode_elems(s).subrange(8 * i, 8 * i + 8) =~= spec_encode_elems(
            s.skip(1),
        ).subrange(8 * (i - 1), 8 * (i - 1) + 8));
    }
}

/// The full encoding of a sequence of 64-bit values: compact count, then the
/// element bytes.
pub open spec fn spec_encode_vec_u64(s: Seq<u64>) -> Seq<u8>
    recommends
        s.len() <= 0xffff_ffff,
{
    spec_compact_u32(s.len() as u32) + spec_encode_elems(s)
}

/// What decoding a byte payload as a sequence of 64-bit values yields.
pub open spec fn spec_decode_vec_u64(b: Seq<u8>) -> Option<Seq<u64>> {
    match spec_compact_decode(b) {
        None => None,
        Some(n) => {
            let body = b.skip(spec_compact_len(n));
            if body.len() >= 8 * n {
                Some(Seq::new(n as nat, |i: int| spec_le64_val(body.subrange(8 * i, 8 * i + 8))))
            } else {
                None
            }
        },
    }
}

/// What decoding a byte payload as one 64-bit value yields.
pub open spec fn spec_decode_u64(b: Seq<u8>) -> Option<u64> {
    if b.len() >= 8 {
        Some(spec_le64_val(b.take(8)))
    } else {
        None
    }
}

/// Decoding a sequence undoes encoding it.
pub proof fn lemma_vec_u64_roundtrip(s: Seq<u64>)
    requires
        s.len() <= 0xffff_ffff,
    ensures
        spec_decode_vec_u64(spec_encode_vec_u64(s)) == Some(s),
{
    let n = s.len() as u32;
    let elems = spec_encode_elems(s);
    let b = spec_compact_u32(n) + elems;
    lemma_compact_roundtrip(n, elems);
    lemma_elems_len(s);
    assert(b.skip(spec_compact_len(n)) =~= elems);
    let decoded = Seq::new(n as nat, |i: int| spec_le64_val(elems.subrange(8 * i, 8 * i + 8)));
    assert forall|i: int| 0 <= i < s.len() implies decoded[i] == s[i] by {
        lemma_elems_index(s, i);
        lemma_le64_roundtrip(s[i]);
    }
    assert(decoded =~= s);
}

/// Two sequences with the same encoding are the same sequence.
pub proof fn lemma_encode_vec_u64_injective(s1: Seq<u64>, s2: Seq<u64>)
    requires
        s1.len() <= 0xffff_ffff,
        s2.len() <= 0xffff_ffff,
        spec_encode_vec_u64(s1) == spec_encode_vec_u64(s2),
    ensures
        s1 == s2,
{
    lemma_vec_u64_roundtrip(s1);
    lemma_vec_u64_roundtrip(s2);
}

// ---------------------------------------------------------------------------
// Calls into the encoding crate
// ---------------------------------------------------------------------------

/// Relies on `parity_scale_codec::Encode` for `u64`: the value's eight
/// little-endian bytes.
#[verifier::external_body]
pub fn encode_u64(v: u64) -> (r: Vec<u8>)
    ensures
        r@ == spec_le64(v),
{
    parity_scale_codec::Encode::encode(&v)
}

/// Relies on `parity_scale_codec::Decode` for `u64`: reads exactly eight
/// little-endian bytes, fails when fewer are available, ignores the rest.
#[verifier::external_body]
pub fn decode_u64(b: &[u8]) -> (r: Option<u64>)
    ensures
        r == spec_decode_u64(b@),
{
    <u64 as parity_scale_codec::Decode>::decode(&mut &b[..]).ok()
}

/// Relies on `parity_scale_codec::Encode` for `Compact<u32>`: the canonical
/// compact form of the count.
#[verifier::external_body]
pub fn encode_compact_u32(n: u32) -> (r: Vec<u8>)
    ensures
        r@ == spec_compact_u32(n),
{
    parity_scale_codec::Encode::encode(&parity_scale_codec::Compact(n))
}

/// Relies on `parity_scale_codec::Decode` for `Compact<u32>`: reads the
/// prefix byte, then the form it selects, rejecting non-canonical forms.
#[verifier::external_body]
pub fn decode_compact_u32(b: &[u8]) -> (r: Option<u32>)
    ensures
        r == spec_compact_decode(b@),
{
    <parity_scale_codec::Compact<u32> as parity_scale_codec::Decode>::decode(&mut &b[..])
        .ok()
        .map(|c| c.0)
}

/// Relies on `parity_scale_codec::Encode` for `Vec<u64>`: the compact element
/// count followed by each element's little-endian bytes.  Counts above
/// `u32::MAX` are refused by the crate, so they are excluded here.
#[verifier::external_body]
pub fn encode_vec_u64(v: &Vec<u64>) -> (r: Vec<u8>)
    requires
        v@.len() <= 0xffff_ffff,
    ensures
        r@ == spec_encode_vec_u64(v@),
{
    parity_scale_codec::Encode::encode(v)
}

/// Relies on `parity_scale_codec::Decode` for `Vec<u64>`: a compact count,
/// then that many eight-byte elements; fails where either read fails.
#[verifier::external_body]
pub fn decode_vec_u64(b: &[u8]) -> (r: Option<Vec<u64>>)
    ensures
        match r {
            Some(v) => spec_decode_vec_u64(b@) == Some(v@),
            None => spec_decode_vec_u64(b@) is None,
        },
{
    <Vec<u64> as parity_scale_codec::Decode>::decode(&mut &b[..]).ok()
}

// ---------------------------------------------------------------------------
// The encoding layer seen by the accessor
// ---------------------------------------------------------------------------

/// A value type the accessor can store: its encoding and decoding are pinned
/// to byte-level spec functions over the type's abstract value.
pub trait Codec: DeepView + Sized {
    /// Which abstract values the encoder accepts.
    spec fn spec_encodable(m: <Self as DeepView>::V) -> bool;

    /// The bytes the value is stored as.
    spec fn spec_encode(m: <Self as DeepView>::V) -> Seq<u8>;

    /// The abstract value read back from a byte payload, `None` where the
    /// payload does not parse.
    spec fn spec_decode(b: Seq<u8>) -> Option<<Self as DeepView>::V>;

    fn encode(v: &Self) -> (r: Vec<u8>)
        requires
            Self::spec_encodable(v.deep_view()),
        ensures
            r@ == Self::spec_encode(v.deep_view()),
    ;

    fn decode(b: &[u8]) -> (r: Option<Self>)
        ensures
            match r {
                Some(v) => Self::spec_decode(b@) == Some(v.deep_view()),
                None => Self::spec_decode(b@) is None,
            },
    ;

    /// Decoding undoes encoding.
    proof fn lemma_codec_roundtrip(m: <Self as DeepView>::V)
        requires
            Self::spec_encodable(m),
        ensures
            Self::spec_decode(Self::spec_encode(m)) == Some(m),
    ;
}

impl Codec for u64 {
    open spec fn spec_encodable(m: u64) -> bool {
        true
    }

    open spec fn spec_encode(m: u64) -> Seq<u8> {
        spec_le64(m)
    }

    open spec fn spec_decode(b: Seq<u8>) -> Option<u64> {
        spec_decode_u64(b)
    }

    fn encode(v: &u64) -> (r: Vec<u8>) {
        encode_u64(*v)
    }

    fn decode(b: &[u8]) -> (r: Option<u64>) {
        decode_u64(b)
    }

    proof fn lemma_codec_roundtrip(m: u64) {
        lemma_le64_roundtrip(m);
        assert(spec_le64(m).take(8) =~= spec_le64(m));
    }
}

impl Codec for Vec<u64> {
    open spec fn spec_encodable(m: Seq<u64>) -> bool {
        m.len() <= 0xffff_ffff
    }

    open spec fn spec_encode(m: Seq<u64>) -> Seq<u8> {
        spec_encode_vec_u64(m)
    }

    open spec fn spec_decode(b: Seq<u8>) -> Option<Seq<u64>> {
        spec_decode_vec_u64(b)
    }

    fn encode(v: &Vec<u64>) -> (r: Vec<u8>) {
        proof {
            assert(v.deep_view() =~= v@);
        }
        encode_vec_u64(v)
    }

    fn decode(b: &[u8]) -> (r: Option<Vec<u64>>) {
        let r = decode_vec_u64(b);
        proof {
            if r is Some {
                assert(r.unwrap().deep_view() =~= r.unwrap()@);
            }
        }
        r
    }

    proof fn lemma_codec_roundtrip(m: Seq<u64>) {
        lemma_vec_u64_roundtrip(m);
    }
}

} // verus!
