use metadata_hasher::encode::{
    encode_compact_len_to, encode_hashers_to, encode_opt_str_to, encode_segments_to, encode_str_to,
    encode_u32_to, hasher_tag, modifier_tag, primitive_tag,
};
use metadata_hasher::schema::{Primitive, StorageHasher, StorageModifier};

fn compact(n: usize) -> Vec<u8> {
    let mut out = Vec::new();
    encode_compact_len_to(n, &mut out);
    out
}

#[test]
fn compact_single_byte_mode() {
    assert_eq!(compact(0), vec![0]);
    assert_eq!(compact(1), vec![4]);
    assert_eq!(compact(63), vec![252]);
}

#[test]
fn compact_two_byte_mode() {
    assert_eq!(compact(64), vec![0x01, 0x01]);
    assert_eq!(compact(16383), vec![0xFD, 0xFF]);
}

#[test]
fn compact_four_byte_mode() {
    assert_eq!(compact(16384), vec![0x02, 0x00, 0x01, 0x00]);
    assert_eq!(compact(1073741823), vec![0xFE, 0xFF, 0xFF, 0xFF]);
}

#[test]
fn compact_big_mode() {
    assert_eq!(compact(1073741824), vec![3, 0x00, 0x00, 0x00, 0x40]);
}

#[test]
fn u32_little_endian() {
    let mut out = Vec::new();
    encode_u32_to(0x01020304, &mut out);
    assert_eq!(out, vec![4, 3, 2, 1]);
}

#[test]
fn string_with_length_prefix() {
    let mut out = Vec::new();
    encode_str_to("abc", &mut out);
    assert_eq!(out, vec![12, 97, 98, 99]);
}

#[test]
fn optional_strings() {
    let mut absent = Vec::new();
    encode_opt_str_to(&None, &mut absent);
    assert_eq!(absent, vec![0]);

    let mut present = Vec::new();
    encode_opt_str_to(&Some("a".to_string()), &mut present);
    assert_eq!(present, vec![1, 4, 97]);
}

#[test]
fn path_segments() {
    let mut out = Vec::new();
    encode_segments_to(&vec!["a".to_string(), "b".to_string()], &mut out);
    assert_eq!(out, vec![8, 4, 97, 4, 98]);
}

#[test]
fn hasher_lists() {
    let mut out = Vec::new();
    encode_hashers_to(
        &vec![StorageHasher::Blake2x128Concat, StorageHasher::Identity],
        &mut out,
    );
    assert_eq!(out, vec![8, 2, 6]);
}

#[test]
fn enumeration_tags() {
    assert_eq!(primitive_tag(Primitive::Bool), 0);
    assert_eq!(primitive_tag(Primitive::Str), 2);
    assert_eq!(primitive_tag(Primitive::U32), 5);
    assert_eq!(primitive_tag(Primitive::I256), 14);
    assert_eq!(modifier_tag(StorageModifier::Optional), 0);
    assert_eq!(modifier_tag(StorageModifier::Required), 1);
    assert_eq!(hasher_tag(StorageHasher::Blake2x128), 0);
    assert_eq!(hasher_tag(StorageHasher::Twox64Concat), 5);
    assert_eq!(hasher_tag(StorageHasher::Identity), 6);
}
