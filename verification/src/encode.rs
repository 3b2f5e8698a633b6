//! Canonical byte encodings of the primitive attributes that enter a digest:
//! little-endian integers, compact-prefixed strings and string lists, and the
//! one-byte tags of the closed enumerations.

use vstd::prelude::*;
use vstd::utf8::encode_utf8;
use crate::schema::{Primitive, StorageHasher, StorageModifier};

verus! {

/// The four little-endian bytes of a 32-bit integer.
pub open spec fn enc_u32(n: u32) -> Seq<u8> {
    seq![n as u8, (n >> 8) as u8, (n >> 16) as u8, (n >> 24) as u8]
}

/// Compact length-prefix encoding of a 32-bit integer: two mode bits in the
/// lowest positions select a one-, two- or four-byte little-endian form.
pub open spec fn compact_u32(n: u32) -> Seq<u8> {
    if n < 64 {
        seq![(n << 2) as u8]
    } else if n < 16384 {
        seq![((n << 2) | 1) as u8, ((n << 2) >> 8) as u8]
    } else if n < 1073741824 {
        seq![
            ((n << 2) | 2) as u8,
            ((n << 2) >> 8) as u8,
            ((n << 2) >> 16) as u8,
            ((n << 2) >> 24) as u8,
        ]
    } else {
        seq![3u8] + enc_u32(n)
    }
}

/// A length, reduced to 32 bits and compact-encoded.
pub open spec fn compact_len(n: nat) -> Seq<u8> {
    compact_u32(n as u32)
}

/// A string: compact byte length, then its UTF-8 bytes.
pub open spec fn enc_str(s: Seq<char>) -> Seq<u8> {
    compact_len(encode_utf8(s).len()) + encode_utf8(s)
}

/// An optional string: absence tag 0, or presence tag 1 and the string.
pub open spec fn enc_opt_str(o: Option<Seq<char>>) -> Seq<u8> {
    match o {
        None => seq![0u8],
        Some(s) => seq![1u8] + enc_str(s),
    }
}

pub open spec fn seg_concat(p: Seq<Seq<char>>) -> Seq<u8>
    decreases p.len(),
{
    if p.len() == 0 {
        Seq::empty()
    } else {
        enc_str(p[0]) + seg_concat(p.drop_first())
    }
}

/// A path: compact segment count, then each segment as a string.
pub open spec fn enc_segments(p: Seq<Seq<char>>) -> Seq<u8> {
    compact_len(p.len()) + seg_concat(p)
}

/// The wire tag of a primitive kind.
pub open spec fn prim_byte(p: Primitive) -> u8 {
    match p {
        Primitive::Bool => 0,
        Primitive::Char => 1,
        Primitive::Str => 2,
        Primitive::U8 => 3,
        Primitive::U16 => 4,
        Primitive::U32 => 5,
        Primitive::U64 => 6,
        Primitive::U128 => 7,
        Primitive::U256 => 8,
        Primitive::I8 => 9,
        Primitive::I16 => 10,
        Primitive::I32 => 11,
        Primitive::I64 => 12,
        Primitive::I128 => 13,
        Primitive::I256 => 14,
    }
}

/// The wire tag of a storage modifier.
pub open spec fn modifier_byte(m: StorageModifier) -> u8 {
    match m {
        StorageModifier::Optional => 0,
        StorageModifier::Required => 1,
    }
}

/// The wire tag of a storage hasher kind.
pub open spec fn hasher_byte(h: StorageHasher) -> u8 {
    match h {
        StorageHasher::Blake2x128 => 0,
        StorageHasher::Blake2x256 => 1,
        StorageHasher::Blake2x128Concat => 2,
        StorageHasher::Twox128 => 3,
        StorageHasher::Twox256 => 4,
        StorageHasher::Twox64Concat => 5,
        StorageHasher::Identity => 6,
    }
}

pub open spec fn hasher_concat(hs: Seq<StorageHasher>) -> Seq<u8>
    decreases hs.len(),
{
    if hs.len() == 0 {
        Seq::empty()
    } else {
        seq![hasher_byte(hs[0])] + hasher_concat(hs.drop_first())
    }
}

/// A hasher list: compact count, then one tag byte per hasher.
pub open spec fn enc_hashers(hs: Seq<StorageHasher>) -> Seq<u8> {
    compact_len(hs.len()) + hasher_concat(hs)
}

/// Appends the four little-endian bytes of `n`.
pub fn encode_u32_to(n: u32, out: &mut Vec<u8>)
    ensures
        final(out)@ == old(out)@ + enc_u32(n),
{
    let ghost pre = out@;
    out.push(#[verifier::truncate] (n as u8));
    out.push(#[verifier::truncate] ((n >> 8) as u8));
    out.push(#[verifier::truncate] ((n >> 16) as u8));
    out.push(#[verifier::truncate] ((n >> 24) as u8));
    proof {
        assert(final(out)@ =~= pre + enc_u32(n));
    }
}

/// Appends the compact encoding of a length.
pub fn encode_compact_len_to(len: usize, out: &mut Vec<u8>)
    ensures
        final(out)@ == old(out)@ + compact_len(len as nat),
{
    let ghost pre = out@;
    let n: u32 = #[verifier::truncate] (len as u32);
    proof {
        assert(n == (len as nat) as u32);
    }
    if n < 64 {
        out.push(#[verifier::truncate] ((n << 2) as u8));
    } else if n < 16384 {
        out.push(#[verifier::truncate] (((n << 2) | 1) as u8));
        out.push(#[verifier::truncate] (((n << 2) >> 8) as u8));
    } else if n < 1073741824 {
        out.push(#[verifier::truncate] (((n << 2) | 2) as u8));
        out.push(#[verifier::truncate] (((n << 2) >> 8) as u8));
        out.push(#[verifier::truncate] (((n << 2) >> 16) as u8));
        out.push(#[verifier::truncate] (((n << 2) >> 24) as u8));
    } else {
        out.push(3u8);
        encode_u32_to(n, out);
    }
    proof {
        assert(final(out)@ =~= pre + compact_u32(n));
    }
}

/// Appends a byte slice as it stands.
pub fn extend_slice_to(b: &[u8], out: &mut Vec<u8>)
    ensures
        final(out)@ == old(out)@ + b@,
{
    let ghost pre = out@;
    let mut tmp = vstd::slice::slice_to_vec(b);
    out.append(&mut tmp);
    proof {
        assert(final(out)@ =~= pre + b@);
    }
}

/// Appends the raw UTF-8 bytes of a string, with no length prefix.
pub fn extend_str_bytes_to(s: &str, out: &mut Vec<u8>)
    ensures
        final(out)@ == old(out)@ + encode_utf8(s@),
{
    extend_slice_to(s.as_bytes(), out);
}

/// Appends the length-prefixed encoding of a string.
pub fn encode_str_to(s: &str, out: &mut Vec<u8>)
    ensures
        final(out)@ == old(out)@ + enc_str(s@),
{
    let ghost pre = out@;
    let b = s.as_bytes();
    encode_compact_len_to(b.len(), out);
    extend_slice_to(b, out);
    proof {
        assert(final(out)@ =~= pre + enc_str(s@));
    }
}

/// Appends the encoding of an optional string.
pub fn encode_opt_str_to(o: &Option<String>, out: &mut Vec<u8>)
    ensures
        final(out)@ == old(out)@ + enc_opt_str(crate::schema::opt_string_view(*o)),
{
    let ghost pre = out@;
    match o {
        None => {
            out.push(0u8);
            proof {
                assert(final(out)@ =~= pre + enc_opt_str(None));
            }
        },
        Some(s) => {
            out.push(1u8);
            encode_str_to(s.as_str(), out);
            proof {
                assert(final(out)@ =~= pre + enc_opt_str(Some(s@)));
            }
        },
    }
}

/// Appends the encoding of a path's segments.
pub fn encode_segments_to(p: &Vec<String>, out: &mut Vec<u8>)
    ensures
        final(out)@ == old(out)@ + enc_segments(p@.map_values(|s: String| s@)),
{
    let ghost segs = p@.map_values(|s: String| s@);
    let ghost pre = out@;
    encode_compact_len_to(p.len(), out);
    let n = p.len();
    let mut i: usize = 0;
    proof {
        assert(segs.skip(0) =~= segs);
    }
    while i < n
        invariant
            n == p.len(),
            i <= n,
            segs == p@.map_values(|s: String| s@),
            out@ + seg_concat(segs.skip(i as int)) == pre + compact_len(segs.len()) + seg_concat(
                segs,
            ),
        decreases n - i,
    {
        proof {
            assert(segs.skip(i as int).len() > 0);
            assert(segs.skip(i as int)[0] == segs[i as int]);
            assert(segs.skip(i as int).drop_first() =~= segs.skip(i as int + 1));
        }
        let ghost mid = out@;
        encode_str_to(p[i].as_str(), out);
        proof {
            assert(out@ + seg_concat(segs.skip(i as int + 1)) =~= mid + seg_concat(
                segs.skip(i as int),
            ));
        }
        i = i + 1;
    }
    proof {
        assert(seg_concat(segs.skip(n as int)) =~= Seq::<u8>::empty());
        assert(out@ =~= out@ + seg_concat(segs.skip(n as int)));
        assert(final(out)@ =~= pre + enc_segments(segs));
    }
}

/// The wire tag of a primitive kind.
pub fn primitive_tag(p: Primitive) -> (r: u8)
    ensures
        r == prim_byte(p),
{
    match p {
        Primitive::Bool => 0,
        Primitive::Char => 1,
        Primitive::Str => 2,
        Primitive::U8 => 3,
        Primitive::U16 => 4,
        Primitive::U32 => 5,
        Primitive::U64 => 6,
        Primitive::U128 => 7,
        Primitive::U256 => 8,
        Primitive::I8 => 9,
        Primitive::I16 => 10,
        Primitive::I32 => 11,
        Primitive::I64 => 12,
        Primitive::I128 => 13,
        Primitive::I256 => 14,
    }
}

/// The wire tag of a storage modifier.
pub fn modifier_tag(m: StorageModifier) -> (r: u8)
    ensures
        r == modifier_byte(m),
{
    match m {
        StorageModifier::Optional => 0,
        StorageModifier::Required => 1,
    }
}

/// The wire tag of a storage hasher kind.
pub fn hasher_tag(h: StorageHasher) -> (r: u8)
    ensures
        r == hasher_byte(h),
{
    match h {
        StorageHasher::Blake2x128 => 0,
        StorageHasher::Blake2x256 => 1,
        StorageHasher::Blake2x128Concat => 2,
        StorageHasher::Twox128 => 3,
        StorageHasher::Twox256 => 4,
        StorageHasher::Twox64Concat => 5,
        StorageHasher::Identity => 6,
    }
}

/// Appends the encoding of a hasher list.
pub fn encode_hashers_to(hs: &Vec<StorageHasher>, out: &mut Vec<u8>)
    ensures
        final(out)@ == old(out)@ + enc_hashers(hs@),
{
    let ghost pre = out@;
    encode_compact_len_to(hs.len(), out);
    let n = hs.len();
    let mut i: usize = 0;
    proof {
        assert(hs@.skip(0) =~= hs@);
    }
    while i < n
        invariant
            n == hs.len(),
            i <= n,
            out@ + hasher_concat(hs@.skip(i as int)) == pre + compact_len(hs@.len())
                + hasher_concat(hs@),
        decreases n - i,
    {
        proof {
            assert(hs@.skip(i as int).len() > 0);
            assert(hs@.skip(i as int)[0] == hs@[i as int]);
            assert(hs@.skip(i as int).drop_first() =~= hs@.skip(i as int + 1));
        }
        let ghost mid = out@;
        let t = hasher_tag(hs[i]);
        out.push(t);
        proof {
            assert(out@ + hasher_concat(hs@.skip(i as int + 1)) =~= mid + hasher_concat(
                hs@.skip(i as int),
            ));
        }
        i = i + 1;
    }
    proof {
        assert(hasher_concat(hs@.skip(n as int)) =~= Seq::<u8>::empty());
        assert(out@ =~= out@ + hasher_concat(hs@.skip(n as int)));
        assert(final(out)@ =~= pre + enc_hashers(hs@));
    }
}

/// Appends the 32 bytes of a digest.
pub fn push_digest(d: &[u8; 32], out: &mut Vec<u8>)
    ensures
        final(out)@ == old(out)@ + d@,
{
    extend_slice_to(d.as_slice(), out);
}

} // verus!
