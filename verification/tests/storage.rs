use bcbc::bigend::{
    u16_from_bytes, u16_to_bytes, u32_from_bytes, u32_to_bytes, u64_from_bytes, u64_to_bytes,
    uint_from_bytes,
};
use bcbc::storage::input::array_from_slice;
use bcbc::storage::utf8::check_utf8;
use bcbc::{
    ByteStorage, ByteStr, BytesInput, HashId, Input, Output, ReadError, Reader, SliceInput, StdId,
    TypeId, Utf8Error, Value, VecOutput, SCHEMA_ANONYMOUS, SCHEMA_HASH,
};
use bytes::Bytes;
use core::hash::{Hash, Hasher};

#[test]
fn reserved_schemas_are_refused() {
    assert_eq!(StdId::from_inner(0x00, 7), None);
    assert_eq!(StdId::from_inner(0xff, 7), None);
    assert_eq!(StdId::from_inner(SCHEMA_ANONYMOUS, 0), None);
    assert_eq!(StdId::from_inner(SCHEMA_HASH, 0xffff), None);
    for schema in 1..=0xfeu8 {
        let id = StdId::from_inner(schema, 0x1234).unwrap();
        assert_eq!(id.schema(), schema);
        assert_eq!(id.id(), 0x1234);
        assert!(TypeId::Std(id).is_wf());
        assert_eq!(TypeId::Std(id).as_h8(), schema);
    }
}

#[test]
fn identifiers_as_eight_bytes() {
    let std = TypeId::Std(StdId::from_inner(0x21, 0x5f50).unwrap());
    assert_eq!(std.to_bytes(), [0x21, 0, 0, 0, 0, 0, 0x5f, 0x50]);
    assert_eq!(TypeId::from_bytes([0x21, 9, 9, 9, 9, 9, 0x5f, 0x50]), std);
    let hash = TypeId::Hash(HashId::from_hash([1, 2, 3, 4, 5, 6, 7]));
    assert_eq!(hash.to_bytes(), [0xff, 1, 2, 3, 4, 5, 6, 7]);
    assert_eq!(TypeId::from_bytes(hash.to_bytes()), hash);
    assert_eq!(hash.as_h8(), 0xff);
    assert_eq!(TypeId::Anonymous.to_bytes(), [0; 8]);
    assert_eq!(TypeId::from_bytes([0, 1, 2, 3, 4, 5, 6, 7]), TypeId::Anonymous);
    assert_eq!(TypeId::Anonymous.as_h8(), 0);
    assert_eq!(HashId::from_hash([7; 7]).hash(), [7; 7]);
}

#[test]
#[allow(deprecated)]
fn identifier_of_a_path_is_its_hash() {
    let mut hasher = core::hash::SipHasher::new();
    "bcbc::Value".hash(&mut hasher);
    let expected = hasher.finish().to_be_bytes();
    let id = HashId::from_path("bcbc::Value");
    assert_eq!(id.hash(), expected[1..]);
    assert_eq!(id, HashId::from_path("bcbc::Value"));
    assert_ne!(id, HashId::from_path("bcbc::Type"));
    assert_ne!(id.hash(), *b"bcbc::V");
    assert_eq!(
        HashId::from_hash64(0x0102_0304_0506_0708).hash(),
        [2, 3, 4, 5, 6, 7, 8]
    );
    assert_eq!(HashId::from_hash64(u64::MAX).hash(), [0xff; 7]);
}

#[test]
fn big_endian_bytes() {
    assert_eq!(u16_to_bytes(0x1234), [0x12, 0x34]);
    assert_eq!(u16_from_bytes([0x12, 0x34]), 0x1234);
    assert_eq!(u32_to_bytes(0x1234_5678), [0x12, 0x34, 0x56, 0x78]);
    assert_eq!(u32_from_bytes([0x12, 0x34, 0x56, 0x78]), 0x1234_5678);
    assert_eq!(
        u64_to_bytes(0x0102_0304_0506_0708),
        [1, 2, 3, 4, 5, 6, 7, 8]
    );
    assert_eq!(u64_from_bytes([1, 2, 3, 4, 5, 6, 7, 8]), 0x0102_0304_0506_0708);
    assert_eq!(u64_to_bytes(u64::MAX), [0xff; 8]);
    assert_eq!(u64_from_bytes([0xff; 8]), u64::MAX);
    assert_eq!(uint_from_bytes(&[]), 0);
    assert_eq!(uint_from_bytes(&[0x0f, 0x42, 0x3f]), 999999);
    assert_eq!(uint_from_bytes(&[0xff; 8]), u64::MAX);
    for n in [0u16, 1, 255, 256, 0x8000, u16::MAX] {
        assert_eq!(u16_from_bytes(u16_to_bytes(n)), n);
        assert_eq!(u16_to_bytes(n), n.to_be_bytes());
    }
    for n in [0u32, 1, 0x0100_0000, u32::MAX] {
        assert_eq!(u32_to_bytes(n), n.to_be_bytes());
    }
    for n in [0u64, 1, 0x0100_0000_0000_0000, u64::MAX - 1] {
        assert_eq!(u64_to_bytes(n), n.to_be_bytes());
        assert_eq!(u64_from_bytes(n.to_be_bytes()), n);
    }
}

#[test]
fn utf8_is_checked() {
    assert_eq!(check_utf8(b""), Ok(()));
    assert_eq!(check_utf8("\u{20ac}".as_bytes()), Ok(()));
    assert_eq!(
        check_utf8(b"ab\xff"),
        Err(Utf8Error { valid_up_to: 2, error_len: Some(1) })
    );
    assert_eq!(
        check_utf8(b"a\xe2\x82"),
        Err(Utf8Error { valid_up_to: 1, error_len: None })
    );
    assert_eq!(
        check_utf8(b"\xed\xa0\x80"),
        Err(Utf8Error { valid_up_to: 0, error_len: Some(1) })
    );
    let s = ByteStr::from_utf8(b"ok".to_vec()).unwrap();
    assert_eq!(s.as_bytes(), b"ok");
    assert_eq!(s.leak_bytes(), b"ok".to_vec());
    assert_eq!(
        ByteStr::from_utf8(vec![0xc0, 0x80]),
        Err(Utf8Error { valid_up_to: 0, error_len: Some(1) })
    );
}

#[test]
fn strings_over_every_storage() {
    let borrowed: ByteStr<&[u8]> = "h\u{e9}".into();
    assert_eq!(borrowed.as_bytes(), &[b'h', 0xc3, 0xa9]);
    let owned: ByteStr<Vec<u8>> = String::from("h\u{e9}").into();
    assert_eq!(owned.as_bytes(), &[b'h', 0xc3, 0xa9]);
    assert_eq!(owned.clone(), owned);
    let copied: ByteStr<Bytes> = "h\u{e9}".into();
    assert_eq!(copied.as_bytes(), &[b'h', 0xc3, 0xa9]);
    let taken: ByteStr<Bytes> = String::from("h\u{e9}").into();
    assert_eq!(taken, copied);
    let fixed = ByteStr::<Bytes>::from_static("h\u{e9}");
    assert_eq!(fixed, copied);
    assert_eq!(fixed.leak_bytes(), Bytes::from_static(&[b'h', 0xc3, 0xa9]));
    let moved = borrowed.map_bytes(|b: &[u8]| b.to_vec());
    assert_eq!(moved, owned);
    assert_eq!(ByteStr::from_utf8_unchecked(b"x".to_vec()).as_bytes(), b"x");
    assert_eq!(copied.as_str(), "h\u{e9}");
    assert_eq!(ByteStr::from_utf8(vec![0xe2, 0x82, 0xac]).unwrap().as_str(), "\u{20ac}");
    let bytes: &[u8] = owned.as_ref();
    assert_eq!(bytes, &[b'h', 0xc3, 0xa9]);
    assert_eq!(ByteStorage::as_slice(&moved), &[b'h', 0xc3, 0xa9]);
}

#[test]
fn storage_hands_out_its_bytes() {
    let text = "ab";
    let boxed: Box<[u8]> = vec![1, 2].into_boxed_slice();
    assert_eq!(ByteStorage::as_slice(&[1u8, 2][..]), &[1, 2]);
    assert_eq!(ByteStorage::as_slice(&[1u8, 2]), &[1, 2]);
    assert_eq!(ByteStorage::as_slice(&vec![1u8, 2]), &[1, 2]);
    assert_eq!(ByteStorage::as_slice(text), b"ab");
    assert_eq!(ByteStorage::as_slice(&String::from("ab")), b"ab");
    assert_eq!(ByteStorage::as_slice(&Bytes::from_static(b"ab")), b"ab");
    assert_eq!(ByteStorage::as_slice(&boxed), &[1, 2]);
    assert_eq!(ByteStorage::as_slice(&&vec![1u8, 2]), &[1, 2]);
    let mut owned = vec![1u8, 2];
    assert_eq!(ByteStorage::as_slice(&&mut owned), &[1, 2]);
}

fn exercise<I: Input>(storage: I::Storage, rest_of: fn(I::Storage) -> Vec<u8>) {
    let mut reader = Reader::<I>::new(storage);
    assert_eq!(reader.rest_len(), 10);
    assert_eq!(reader.read_byte(), Ok(0));
    let part = reader.split_out(2).ok().unwrap();
    assert_eq!(part.len(), 2);
    assert!(!part.is_empty());
    assert_eq!(part.byte(0), Some(&1));
    assert_eq!(part.byte(1), Some(&2));
    assert_eq!(part.byte(2), None);
    assert!(part.bytes(1..3).is_none());
    assert!(part.bytes(2..1).is_none());
    assert_eq!(part.bytes(1..2).unwrap().leak_as_array::<1>(), [2]);
    assert!(part.bytes(2..2).unwrap().is_empty());
    assert_eq!(part.as_slice(), &[1, 2]);
    assert_eq!(reader.split_out_array::<2>(), Ok([3, 4]));
    assert_eq!(reader.bytes_sized::<1>(), Ok([5]));
    let mut buf = [0u8; 2];
    assert_eq!(reader.read_exact(&mut buf), Ok(()));
    assert_eq!(buf, [6, 7]);
    assert_eq!(reader.rest_len(), 2);
    assert_eq!(
        reader.split_out(3).err(),
        Some(ReadError::TooShort { rest: 2, expected: 3 })
    );
    assert_eq!(
        reader.split_out(usize::MAX).err(),
        Some(ReadError::TooLongReadLen(usize::MAX))
    );
    assert_eq!(
        reader.read_exact(&mut [0u8; 3]),
        Err(ReadError::TooShort { rest: 2, expected: 3 })
    );
    assert_eq!(reader.rest_len(), 2);
    assert_eq!(rest_of(reader.bytes(1).ok().unwrap()), vec![8]);
    assert_eq!(rest_of(reader.into_rest().leak()), vec![9]);
}

#[test]
fn readers_read_forward() {
    let data: &[u8] = &[0, 1, 2, 3, 4, 5, 6, 7, 8, 9];
    exercise::<SliceInput>(data, |b| b.to_vec());
    exercise::<BytesInput>(Bytes::from_static(data), |b| b.to_vec());
    exercise::<BytesInput>(Bytes::copy_from_slice(data), |b| b.to_vec());
}

#[test]
fn readers_finish() {
    let data: &[u8] = &[1, 2];
    let mut reader = Reader::<SliceInput>::new(data);
    assert_eq!(reader.read_byte(), Ok(1));
    assert_eq!(reader.finish(), Err(ReadError::TooLong { rest: 1 }));
    let mut reader = Reader::<SliceInput>::new(data);
    assert_eq!(reader.split_out_array::<2>(), Ok([1, 2]));
    assert_eq!(reader.read_byte(), Err(ReadError::TooShort { rest: 0, expected: 1 }));
    assert_eq!(reader.finish(), Ok(()));
    assert_eq!(SliceInput::from(data).leak(), data);
    assert_eq!(BytesInput::from(Bytes::from_static(data)).len(), 2);
    assert_eq!(array_from_slice::<2>(data), [1, 2]);
}

#[test]
fn shared_buffers_decode_like_slices() {
    let input: &'static [u8] = &[0xc2, 0x93, 0x28, 0x00, 0x29, 0x82, b'h', b'i'];
    let from_slice = Value::decode::<SliceInput>(input).unwrap();
    let from_shared = Value::decode::<BytesInput>(Bytes::from_static(input)).unwrap();
    assert_eq!(from_slice.map_bytes(Bytes::from_static), from_shared);
    let items = from_shared.into_tuple();
    assert_eq!(items[0], Value::Bytes(Bytes::from_static(b"(\x00)")));
    assert_eq!(items[1], Value::String(ByteStr::from("hi")));
    let (r, rest) = Value::decode_first_value::<BytesInput>(Bytes::from_static(&[0x0e, 0x01]));
    assert_eq!(r, Ok(Value::Unit));
    assert_eq!(rest, Bytes::from_static(&[0x01]));
}

#[test]
fn sinks_collect_what_is_written() {
    let mut out = VecOutput::new();
    out.byte(1);
    out.bytes(&[2, 3]);
    out.bytes(&[]);
    out.byte(4);
    assert_eq!(out.leak(), vec![1, 2, 3, 4]);
    assert_eq!(VecOutput::default().leak(), Vec::<u8>::new());
}
