use bcbc::casting::{bytevar_flen, bytevar_frange, bytevar_ulen, bytevar_urange, from_h4l4, to_h4l4};
use bcbc::{
    ByteStr, Error, Ext1, HashId, SliceInput, StdId, Tag, Type, TypeId, Utf8Error, Value, VecOutput,
    EXT16, EXT32, EXT64, EXT8, H4, L4,
};

type V = Value<Vec<u8>>;

fn enc(v: &V) -> Vec<u8> {
    assert!(v.is_wf());
    v.encode::<VecOutput>()
}

fn dec(bytes: &[u8]) -> Result<Value<&[u8]>, Error> {
    Value::decode::<SliceInput>(bytes)
}

fn owned(v: Value<&[u8]>) -> V {
    v.map_bytes(|b: &[u8]| b.to_vec())
}

fn text(s: &str) -> V {
    Value::String(ByteStr::from(s.to_string()))
}

fn samples() -> Vec<V> {
    vec![
        Value::Unit,
        Value::Bool(true),
        Value::Bool(false),
        Value::U8(0),
        Value::U8(255),
        Value::U16(0),
        Value::U16(255),
        Value::U16(256),
        Value::U16(65535),
        Value::U32(0x0102_0304),
        Value::U32(0x0001_0000),
        Value::U64(0),
        Value::U64(u64::MAX),
        Value::U64(0x0100_0000_0000),
        Value::I8(0),
        Value::I8(-1),
        Value::I8(-128),
        Value::I8(127),
        Value::I16(0),
        Value::I16(-1),
        Value::I16(i16::MAX),
        Value::I16(-i16::MAX),
        Value::I32(i32::MAX),
        Value::I32(-65536),
        Value::I64(i64::MAX),
        Value::I64(-i64::MAX),
        Value::F16(0),
        Value::F16(0x3c00),
        Value::F16(0x0001),
        Value::F32(1.5_f32.to_bits()),
        Value::F32(f32::NAN.to_bits()),
        Value::F64(0),
        Value::F64((-0.1_f64).to_bits()),
        text(""),
        text("twelve chars"),
        text("\u{4f60}\u{597d}"),
        Value::Bytes(vec![]),
        Value::Bytes(vec![0; 300]),
        Value::Bytes(vec![7; 65535]),
        Value::Option(Type::U8, Box::new(None)),
        Value::Option(Type::Unknown, Box::new(Some(Value::Unit))),
        Value::List(Type::Bool, vec![]),
        Value::List(Type::U16, (0..20).map(Value::U16).collect()),
        Value::Dict(
            Type::String,
            Type::Option(Box::new(Type::I8)),
            vec![(text("k"), Value::I8(3)), (text("k"), Value::I8(3))],
        ),
        Value::Tuple(vec![]),
        Value::Tuple(vec![Value::Unit, text("x"), Value::Tuple(vec![Value::U8(1)])]),
        Value::Alias(TypeId::Anonymous, Box::new(Value::U8(9))),
        Value::CEnum(TypeId::Std(StdId::from_inner(7, 300).unwrap()), 11),
        Value::CEnum(TypeId::Anonymous, 12),
        Value::CEnum(TypeId::Anonymous, u64::MAX),
        Value::Enum(
            TypeId::Hash(HashId::from_hash([1, 2, 3, 4, 5, 6, 7])),
            0x1_0000,
            Box::new(Value::Bool(true)),
        ),
        Value::Struct(TypeId::Anonymous, vec![Value::U8(1), Value::U8(2)]),
        Value::Type(Type::Tuple(vec![
            Type::Dict(Box::new(Type::U8), Box::new(Type::Bytes)),
            Type::Alias(TypeId::Anonymous),
            Type::CEnum(TypeId::Std(StdId::from_inner(1, 2).unwrap())),
            Type::Enum(TypeId::Hash(HashId::from_hash([9; 7]))),
            Type::Type,
            Type::TypeId,
            Type::F16,
        ])),
        Value::TypeId(TypeId::Std(StdId::from_inner(0xfe, 0xffff).unwrap())),
    ]
}

#[test]
fn roundtrip_holds_on_samples() {
    for v in samples() {
        assert!(v.has_magnitudes());
        let bytes = enc(&v);
        let back = owned(dec(&bytes).unwrap());
        assert_eq!(back, v);
    }
}

#[test]
fn accepted_input_is_the_encoding_of_its_value() {
    let inputs: Vec<Vec<u8>> = vec![
        vec![0x0e],
        vec![0x03, 0x7b],
        vec![0x2a, 0x76, 0xad, 0xf1],
        vec![0x1d, 0x40, 0x49],
        vec![0x8c, 0x0c, b'a', b'b', b'c', b'd', b'e', b'f', b'g', b'h', b'i', b'j', b'k', b'l'],
        vec![0xc2, 0x0e, 0x1e],
        vec![0xa1, 0x13, 0x02, 0x01, 0x02, 0xc2, 0x0e, 0x2e],
        vec![0x5e, 0x00, 0x04, 0xff],
    ];
    for input in inputs {
        let v = owned(dec(&input).unwrap());
        assert_eq!(enc(&v), input);
    }
}

#[test]
fn every_byte_sequence_has_an_answer() {
    // Every header byte, followed by what a small generator makes up.
    let mut state: u32 = 0x2545_f491;
    let mut accepted = 0;
    for first in 0..=255u8 {
        for len in 0..24usize {
            let mut input = vec![first];
            for _ in 0..len {
                state = state.wrapping_mul(1_664_525).wrapping_add(1_013_904_223);
                input.push((state >> 24) as u8);
            }
            match dec(&input) {
                Ok(v) => {
                    accepted += 1;
                    assert_eq!(enc(&owned(v)), input);
                }
                Err(_) => {}
            }
        }
    }
    assert!(accepted > 0);
}

#[test]
fn deep_nesting_of_options_decodes() {
    let mut v: V = Value::Unit;
    for _ in 0..200 {
        v = Value::Option(Type::Unknown, Box::new(Some(v)));
    }
    let bytes = enc(&v);
    assert_eq!(bytes.len(), 401);
    assert_eq!(owned(dec(&bytes).unwrap()), v);
}

#[test]
fn type_of_a_value_describes_it() {
    assert_eq!(Value::<Vec<u8>>::Unit.as_type(), Type::Unit);
    assert_eq!(Value::<Vec<u8>>::F16(1).as_type(), Type::F16);
    assert_eq!(text("a").as_type(), Type::String);
    assert_eq!(
        Value::<Vec<u8>>::Option(Type::I8, Box::new(None)).as_type(),
        Type::Option(Box::new(Type::I8))
    );
    assert_eq!(
        Value::<Vec<u8>>::List(Type::Bool, vec![]).as_type(),
        Type::List(Box::new(Type::Bool))
    );
    assert_eq!(
        Value::<Vec<u8>>::Dict(Type::U8, Type::Bytes, vec![]).as_type(),
        Type::Dict(Box::new(Type::U8), Box::new(Type::Bytes))
    );
    let id = TypeId::Std(StdId::from_inner(3, 4).unwrap());
    assert_eq!(
        Value::Tuple(vec![
            Value::U8(1),
            text("a"),
            Value::Tuple(vec![Value::Bool(true)]),
            Value::Struct(id, vec![]),
        ])
        .as_type(),
        Type::Tuple(vec![
            Type::U8,
            Type::String,
            Type::Tuple(vec![Type::Bool]),
            Type::Struct(id),
        ])
    );
    assert_eq!(
        Value::<Vec<u8>>::Alias(id, Box::new(Value::Unit)).as_type(),
        Type::Alias(id)
    );
    assert_eq!(Value::<Vec<u8>>::CEnum(id, 1).as_type(), Type::CEnum(id));
    assert_eq!(
        Value::<Vec<u8>>::Enum(id, 1, Box::new(Value::Unit)).as_type(),
        Type::Enum(id)
    );
    assert_eq!(Value::<Vec<u8>>::Type(Type::U8).as_type(), Type::Type);
    assert_eq!(Value::<Vec<u8>>::TypeId(id).as_type(), Type::TypeId);
}

#[test]
fn tags_of_values_and_types() {
    assert_eq!(Type::Unknown.as_tag(), Tag::Unknown);
    assert_eq!(Type::Tuple(vec![]).as_tag(), Tag::Tuple);
    assert_eq!(Type::Dict(Box::new(Type::U8), Box::new(Type::U8)).as_tag(), Tag::Dict);
    assert_eq!(Value::<Vec<u8>>::I32(5).as_tag(), Tag::I32);
    assert_eq!(Value::<Vec<u8>>::Bytes(vec![]).as_tag(), Tag::Bytes);
    assert_eq!(u8::from(Tag::TypeId), 0x19);
    assert_eq!(Tag::try_from(0x13u8), Ok(Tag::Tuple));
    assert_eq!(Tag::try_from(0x1au8), Err(Error::Tag(0x1a)));
    for b in 0..=0x19u8 {
        assert_eq!(Tag::from_u8(b).unwrap().to_u8(), b);
    }
    assert_eq!(Tag::from_u8(0x1a), None);
}

#[test]
fn quantities_take_the_fewest_bytes() {
    let cenum = |ev: u64| enc(&Value::CEnum(TypeId::Anonymous, ev));
    assert_eq!(cenum(0), vec![0xd0, 0x00]);
    assert_eq!(cenum(11), vec![0xdb, 0x00]);
    assert_eq!(cenum(12), vec![0xdc, 0x0c, 0x00]);
    assert_eq!(cenum(255), vec![0xdc, 0xff, 0x00]);
    assert_eq!(cenum(256), vec![0xdd, 0x01, 0x00, 0x00]);
    assert_eq!(cenum(65535), vec![0xdd, 0xff, 0xff, 0x00]);
    assert_eq!(cenum(65536), vec![0xde, 0x00, 0x01, 0x00, 0x00, 0x00]);
    assert_eq!(cenum(0xffff_ffff), vec![0xde, 0xff, 0xff, 0xff, 0xff, 0x00]);
    assert_eq!(
        cenum(0x1_0000_0000),
        vec![0xdf, 0, 0, 0, 1, 0, 0, 0, 0, 0x00]
    );
}

#[test]
fn quantities_written_longer_are_refused() {
    let too_long = |l4: L4, expected_l4: L4, u: u64| Error::ExtvarTooLong { l4, expected_l4, u };
    assert_eq!(dec(&[0xdc, 0x0b, 0x00]), Err(too_long(EXT8, L4::F16, 11)));
    assert_eq!(dec(&[0xdd, 0x00, 0x05, 0x00]), Err(too_long(EXT16, L4::P16, 5)));
    assert_eq!(dec(&[0xdd, 0x00, 0xff, 0x00]), Err(too_long(EXT16, EXT8, 255)));
    assert_eq!(
        dec(&[0xde, 0x00, 0x00, 0xff, 0xff, 0x00]),
        Err(too_long(EXT32, EXT16, 65535))
    );
    assert_eq!(
        dec(&[0xde, 0x00, 0x00, 0x00, 0x00, 0x00]),
        Err(too_long(EXT32, L4::U8, 0))
    );
    assert_eq!(
        dec(&[0xdf, 0, 0, 0, 0, 0xff, 0xff, 0xff, 0xff, 0x00]),
        Err(too_long(EXT64, EXT32, 0xffff_ffff))
    );
    assert_eq!(
        dec(&[0xdf, 0, 0, 0, 0, 0, 0, 0, 12, 0x00]),
        Err(too_long(EXT64, EXT8, 12))
    );
    assert!(dec(&[0xdf, 0, 0, 0, 1, 0, 0, 0, 0, 0x00]).is_ok());
}

#[test]
fn scalars_take_the_fewest_bytes() {
    assert_eq!(enc(&Value::U64(0)), vec![0x03, 0x00]);
    assert_eq!(enc(&Value::U64(255)), vec![0x03, 0xff]);
    assert_eq!(enc(&Value::U64(256)), vec![0x13, 0x01, 0x00]);
    assert_eq!(enc(&Value::U64(999999)), vec![0x23, 0x0f, 0x42, 0x3f]);
    assert_eq!(
        enc(&Value::U64(u64::MAX)),
        vec![0x73, 0xff, 0xff, 0xff, 0xff, 0xff, 0xff, 0xff, 0xff]
    );
    assert_eq!(enc(&Value::U8(7)), vec![0x00, 0x07]);
    assert_eq!(enc(&Value::U16(0x0100)), vec![0x11, 0x01, 0x00]);
    assert_eq!(enc(&Value::U32(1)), vec![0x02, 0x01]);
    assert_eq!(enc(&Value::I8(-1)), vec![0x04, 0xff]);
    assert_eq!(enc(&Value::I8(0)), vec![0x04, 0x00]);
    assert_eq!(enc(&Value::I16(1)), vec![0x05, 0x01]);
    assert_eq!(enc(&Value::I16(-1)), vec![0x08, 0x01]);
    assert_eq!(enc(&Value::I32(-256)), vec![0x19, 0x01, 0x00]);
    assert_eq!(enc(&Value::I64(-7777777)), vec![0x2a, 0x76, 0xad, 0xf1]);
    assert_eq!(enc(&Value::I64(0)), vec![0x07, 0x00]);
    assert_eq!(enc(&Value::F64(50.0_f64.to_bits())), vec![0x1d, 0x40, 0x49]);
    assert_eq!(enc(&Value::F64(0)), vec![0x0d, 0x00]);
    assert_eq!(enc(&Value::F32(1.0_f32.to_bits())), vec![0x1c, 0x3f, 0x80]);
    assert_eq!(enc(&Value::F16(0x3c01)), vec![0x1b, 0x3c, 0x01]);
    assert_eq!(enc(&Value::F16(0x0001)), vec![0x1b, 0x00, 0x01]);
    assert_eq!(
        enc(&Value::F64(1)),
        vec![0x7d, 0, 0, 0, 0, 0, 0, 0, 1]
    );
}

#[test]
fn scalars_written_longer_are_refused() {
    assert_eq!(
        dec(&[0x13, 0x00, 0x07]),
        Err(Error::BytevarLongerThanExpected {
            len: 2,
            nlen: 8,
            exp_len: 1,
            buf: [0, 0, 0, 0, 0, 0, 0, 7],
        })
    );
    assert_eq!(
        dec(&[0x1d, 0x40, 0x00]),
        Err(Error::BytevarLongerThanExpected {
            len: 2,
            nlen: 8,
            exp_len: 1,
            buf: [0x40, 0, 0, 0, 0, 0, 0, 0],
        })
    );
    assert_eq!(
        dec(&[0x2b, 0x3c, 0x00, 0x00]),
        Err(Error::BytevarLongerThanType {
            len: 3,
            nlen: 2,
            buf: [0x3c, 0, 0, 0, 0, 0, 0, 0],
        })
    );
    assert_eq!(
        dec(&[0x10, 0x01, 0x00]),
        Err(Error::BytevarLongerThanType {
            len: 2,
            nlen: 1,
            buf: [0, 0, 0, 0, 0, 0, 1, 0],
        })
    );
    assert_eq!(
        dec(&[0x14, 0x00, 0x01]),
        Err(Error::BytevarLongerThanType {
            len: 2,
            nlen: 1,
            buf: [0, 0, 0, 0, 0, 0, 0, 1],
        })
    );
}

#[test]
fn least_signed_integers_do_not_come_back() {
    let v: V = Value::I16(i16::MIN);
    let bytes = enc(&v);
    assert_eq!(bytes, vec![0x18, 0x80, 0x00]);
    assert_eq!(
        dec(&bytes),
        Err(Error::BytevarIntSign {
            buf: [0, 0, 0, 0, 0, 0, 0x80, 0],
        })
    );
    let v: V = Value::I64(i64::MIN);
    let bytes = enc(&v);
    assert_eq!(bytes, vec![0x7a, 0x80, 0, 0, 0, 0, 0, 0, 0]);
    assert_eq!(
        dec(&bytes),
        Err(Error::BytevarIntSign {
            buf: [0x80, 0, 0, 0, 0, 0, 0, 0],
        })
    );
    let v: V = Value::I32(i32::MIN);
    assert!(!v.has_magnitudes());
    assert!(dec(&enc(&v)).is_err());
    let nested: V = Value::Dict(
        Type::U8,
        Type::List(Box::new(Type::I64)),
        vec![(
            Value::U8(1),
            Value::List(Type::I64, vec![Value::I64(0), Value::I64(i64::MIN)]),
        )],
    );
    assert!(nested.is_wf());
    assert!(!nested.has_magnitudes());
    assert!(dec(&enc(&nested)).is_err());
    let wrapped: V = Value::Alias(
        TypeId::Anonymous,
        Box::new(Value::Option(
            Type::I16,
            Box::new(Some(Value::Tuple(vec![Value::Struct(
                TypeId::Anonymous,
                vec![Value::Enum(TypeId::Anonymous, 0, Box::new(Value::I16(i16::MIN)))],
            )]))),
        )),
    );
    assert!(!wrapped.has_magnitudes());
    assert!(Value::<Vec<u8>>::I8(i8::MIN).has_magnitudes());
    assert_eq!(
        dec(&[0x15, 0x80, 0x00]),
        Err(Error::BytevarIntSign {
            buf: [0, 0, 0, 0, 0, 0, 0x80, 0],
        })
    );
}

#[test]
fn each_input_error_has_an_input() {
    assert_eq!(dec(&[]), Err(Error::TooShort { rest: 0, expected: 1 }));
    assert_eq!(dec(&[0x13, 0x01]), Err(Error::TooShort { rest: 1, expected: 2 }));
    assert_eq!(dec(&[0xdd, 0x01]), Err(Error::TooShort { rest: 1, expected: 2 }));
    assert_eq!(dec(&[0x0e, 0x0e]), Err(Error::TooLong { rest: 1 }));
    assert_eq!(
        dec(&[0x8e, 0x00, 0x01, 0x00, 0x00]),
        Err(Error::TooLongLen(65536))
    );
    assert_eq!(dec(&[0x7e, 0xff, 1, 2, 3]), Err(Error::TooShort { rest: 3, expected: 7 }));
    assert_eq!(dec(&[0x6e, 0x1a]), Err(Error::Tag(0x1a)));
    assert_eq!(dec(&[0x0f]), Err(Error::Ext2NotImplemented));
    assert_eq!(dec(&[0x7f, 0x00]), Err(Error::Ext2NotImplemented));
    assert_eq!(
        dec(&[0x08, 0x00]),
        Err(Error::BytevarNegZero { buf: [0; 8] })
    );
    assert_eq!(
        dec(&[0x83, b'a', b'b', 0xff]),
        Err(Error::Utf8(Utf8Error {
            valid_up_to: 2,
            error_len: Some(1),
        }))
    );
    assert_eq!(
        dec(&[0x82, 0xe4, 0xbd]),
        Err(Error::Utf8(Utf8Error {
            valid_up_to: 0,
            error_len: None,
        }))
    );
}

#[test]
fn first_value_and_what_follows() {
    let input: &[u8] = &[0x0e, 0x1e, 0x2e];
    let (r, rest) = Value::decode_first_value::<SliceInput>(input);
    assert_eq!(r, Ok(Value::Unit));
    assert_eq!(rest, &[0x1e, 0x2e]);
    let input: &[u8] = &[0x13, 0x00, 0x07, 0x09];
    let (r, rest) = Value::decode_first_value::<SliceInput>(input);
    assert!(r.is_err());
    assert_eq!(rest, &[0x09]);
    let input: &[u8] = &[0x83, b'a'];
    let (r, rest) = Value::decode_first_value::<SliceInput>(input);
    assert_eq!(r, Err(Error::TooShort { rest: 1, expected: 3 }));
    assert_eq!(rest, &[b'a']);
}

#[test]
fn map_entries_keep_their_order_and_duplicates() {
    let v: V = Value::Dict(
        Type::U8,
        Type::U8,
        vec![
            (Value::U8(2), Value::U8(20)),
            (Value::U8(1), Value::U8(10)),
            (Value::U8(2), Value::U8(20)),
        ],
    );
    let bytes = enc(&v);
    assert_eq!(
        bytes,
        vec![0xb3, 0x03, 0x03, 0x00, 0x02, 0x00, 0x14, 0x00, 0x01, 0x00, 0x0a, 0x00, 0x02, 0x00, 0x14]
    );
    assert_eq!(owned(dec(&bytes).unwrap()), v);
}

#[test]
fn header_bytes_split_and_join() {
    assert_eq!(from_h4l4(H4::Dict, L4::U32), 0xb2);
    assert_eq!(from_h4l4(H4::N1, L4::EXT1), 0x0e);
    assert_eq!(from_h4l4(H4::Struct, L4::EXT2), 0xff);
    assert_eq!(to_h4l4(0xb2), Ok((H4::Dict, L4::U32)));
    for n in 0..=255u8 {
        let (h4, l4) = to_h4l4(n).unwrap();
        assert_eq!(from_h4l4(h4, l4), n);
        assert_eq!(h4.to_u8(), n >> 4);
        assert_eq!(l4.to_u8(), n & 0xf);
        assert_eq!(h4.is_num(), n < 0x80);
    }
    assert_eq!(H4::try_from(0x10u8), Err(bcbc::Fatal::H4(0x10)));
    assert_eq!(L4::try_from(0x10u8), Err(bcbc::Fatal::L4(0x10)));
    assert_eq!(Ext1::try_from(0x08u8), Err(bcbc::Fatal::Ext1(0x08)));
    assert_eq!(Ext1::try_from(0x04u8), Ok(Ext1::OptSome));
    assert_eq!(u8::from(Ext1::TypeId), 7);
    assert_eq!((EXT8, EXT16, EXT32, EXT64), (L4::F32, L4::F64, L4::EXT1, L4::EXT2));
}

#[test]
fn families_and_byte_counts() {
    assert_eq!(H4::N1.to_bytevar_len(), Ok(1));
    assert_eq!(H4::N8.to_bytevar_len(), Ok(8));
    assert_eq!(H4::String.to_bytevar_len(), Err(bcbc::Fatal::H4ToN(H4::String)));
    assert_eq!(H4::from_bytevar_len(1), Ok(H4::N1));
    assert_eq!(H4::from_bytevar_len(8), Ok(H4::N8));
    assert_eq!(H4::from_bytevar_len(0), Err(bcbc::Fatal::NToH4(0)));
    assert_eq!(H4::from_bytevar_len(9), Err(bcbc::Fatal::NToH4(9)));
    assert_eq!(H4::N1.to_ext1(), Ok(Ext1::Unit));
    assert_eq!(H4::N4.to_ext1(), Ok(Ext1::OptNone));
    assert_eq!(H4::N8.to_ext1(), Ok(Ext1::TypeId));
    assert_eq!(H4::Enum.to_ext1(), Err(bcbc::Fatal::H4ToExt1(H4::Enum)));
    assert_eq!(H4::from_ext1(Ext1::False), H4::N2);
    assert_eq!(H4::from_ext1(Ext1::Alias), H4::N6);
}

#[test]
fn buffers_and_their_lengths() {
    assert_eq!(bytevar_urange(3), 5..8);
    assert_eq!(bytevar_urange(8), 0..8);
    assert_eq!(bytevar_frange(3), 0..3);
    assert_eq!(bytevar_ulen(&[0; 8]), 1);
    assert_eq!(bytevar_ulen(&[0, 0, 0, 0, 0, 0, 0, 1]), 1);
    assert_eq!(bytevar_ulen(&[0, 0, 0, 0, 0, 0, 1, 0]), 2);
    assert_eq!(bytevar_ulen(&[1, 0, 0, 0, 0, 0, 0, 0]), 8);
    assert_eq!(bytevar_flen(&[0; 8]), 1);
    assert_eq!(bytevar_flen(&[1, 0, 0, 0, 0, 0, 0, 0]), 1);
    assert_eq!(bytevar_flen(&[0, 1, 0, 0, 0, 0, 0, 0]), 2);
    assert_eq!(bytevar_flen(&[0, 0, 0, 0, 0, 0, 0, 1]), 8);
}

#[test]
fn what_the_format_admits() {
    assert!(text("fine").is_wf());
    assert!(Value::<Vec<u8>>::Bytes(vec![0; 65535]).is_wf());
    assert!(!Value::<Vec<u8>>::Bytes(vec![0; 65536]).is_wf());
    assert!(!Value::<Vec<u8>>::Type(Type::Tuple(vec![Type::Unit; 256])).is_wf());
    assert!(Value::<Vec<u8>>::Type(Type::Tuple(vec![Type::Unit; 255])).is_wf());
    assert!(!Value::<Vec<u8>>::List(Type::Unit, vec![Value::Bytes(vec![0; 65536])]).is_wf());
    assert!(Type::List(Box::new(Type::Tuple(vec![]))).is_wf());
    assert!(!Type::List(Box::new(Type::Tuple(vec![Type::Unit; 300]))).is_wf());
    assert!(TypeId::Anonymous.is_wf());
}

#[test]
fn values_give_up_what_they_hold() {
    Value::<Vec<u8>>::Unit.into_unit();
    assert!(Value::<Vec<u8>>::Bool(true).into_bool());
    assert_eq!(Value::<Vec<u8>>::U8(1).into_u8(), 1);
    assert_eq!(Value::<Vec<u8>>::U16(2).into_u16(), 2);
    assert_eq!(Value::<Vec<u8>>::U32(3).into_u32(), 3);
    assert_eq!(Value::<Vec<u8>>::U64(4).into_u64(), 4);
    assert_eq!(Value::<Vec<u8>>::I8(-1).into_i8(), -1);
    assert_eq!(Value::<Vec<u8>>::I16(-2).into_i16(), -2);
    assert_eq!(Value::<Vec<u8>>::I32(-3).into_i32(), -3);
    assert_eq!(Value::<Vec<u8>>::I64(-4).into_i64(), -4);
    assert_eq!(Value::<Vec<u8>>::F16(5).into_f16(), 5);
    assert_eq!(Value::<Vec<u8>>::F32(6).into_f32(), 6);
    assert_eq!(Value::<Vec<u8>>::F64(7).into_f64(), 7);
    assert_eq!(text("s").into_string().leak_bytes(), b"s".to_vec());
    assert_eq!(Value::<Vec<u8>>::Bytes(vec![1]).into_bytes(), vec![1]);
    assert_eq!(Value::<Vec<u8>>::Type(Type::U8).into_type(), Type::U8);
    assert_eq!(
        Value::<Vec<u8>>::TypeId(TypeId::Anonymous).into_type_id(),
        TypeId::Anonymous
    );
    assert_eq!(
        Value::<Vec<u8>>::Option(Type::U8, Box::new(Some(Value::U8(1)))).into_option(),
        Some(Value::U8(1))
    );
    assert_eq!(
        Value::<Vec<u8>>::List(Type::U8, vec![Value::U8(1)]).into_list(),
        vec![Value::U8(1)]
    );
    assert_eq!(
        Value::<Vec<u8>>::Dict(Type::U8, Type::U8, vec![(Value::U8(1), Value::U8(2))]).into_map(),
        vec![(Value::U8(1), Value::U8(2))]
    );
    assert_eq!(Value::<Vec<u8>>::Tuple(vec![Value::Unit]).into_tuple(), vec![Value::Unit]);
    assert_eq!(
        Value::<Vec<u8>>::Alias(TypeId::Anonymous, Box::new(Value::Unit)).into_alias(),
        Value::Unit
    );
    assert_eq!(Value::<Vec<u8>>::CEnum(TypeId::Anonymous, 9).into_c_enum(), 9);
    assert_eq!(
        Value::<Vec<u8>>::Enum(TypeId::Anonymous, 9, Box::new(Value::Unit)).into_enum(),
        (9, Value::Unit)
    );
    assert_eq!(
        Value::<Vec<u8>>::Struct(TypeId::Anonymous, vec![Value::Unit]).into_struct(),
        vec![Value::Unit]
    );
}

#[test]
fn copies_are_equal() {
    for v in samples() {
        assert_eq!(v.clone(), v);
    }
    let t = Type::Tuple(vec![Type::List(Box::new(Type::U8)), Type::Unit]);
    assert_eq!(t.clone(), t);
}
