use bcbc::{
    ByteStr, BytesInput, Error, HashId, SliceInput, StdId, Type, TypeId, Utf8Error, Value,
    VecOutput, EXT8, L4,
};
use bytes::Bytes;

/// The bytes that a string of hexadecimal digits stands for; whitespace is
/// skipped.
fn expb(s: &str) -> &'static [u8] {
    let digits: Vec<u8> = s
        .chars()
        .filter(|c| !c.is_whitespace())
        .map(|c| c.to_digit(16).unwrap() as u8)
        .collect();
    assert!(digits.len() % 2 == 0);
    let bytes: Vec<u8> = digits.chunks(2).map(|p| p[0] * 16 + p[1]).collect();
    Box::leak(bytes.into_boxed_slice())
}

fn hash7(s: &str) -> [u8; 7] {
    let bytes = expb(s);
    let mut hash = [0u8; 7];
    hash.copy_from_slice(bytes);
    hash
}

fn hex8(s: &str) -> [u8; 8] {
    let bytes = expb(s);
    let mut buf = [0u8; 8];
    buf.copy_from_slice(bytes);
    buf
}

fn b(bytes: &'static [u8]) -> &'static [u8] {
    bytes
}

fn s(text: &'static str) -> ByteStr<&'static [u8]> {
    text.into()
}

fn std_id(schema: u8, id: u16) -> TypeId {
    TypeId::Std(StdId::from_inner(schema, id).unwrap())
}

fn case(v: Value<&'static [u8]>, exp: &'static [u8]) {
    let buf = v.encode::<VecOutput>();
    assert_eq!(&buf, &exp);
    let v2 = Value::decode::<SliceInput>(&buf).unwrap();
    assert_eq!(v, v2);
    let buf = Bytes::from(buf);
    let v3 = Value::decode::<BytesInput>(buf).unwrap();
    assert_eq!(v.map_bytes(Bytes::from_static), v3);
}

fn err_case(exp: &'static [u8], err: Error) {
    let err2 = Value::decode::<SliceInput>(&exp).unwrap_err();
    assert_eq!(err2, err);
}

#[test]
fn cases() {
    case(
        Value::Dict(
            Type::U64,
            Type::List(Box::new(Type::String)),
            vec![
                (
                    Value::U64(123),
                    Value::List(
                        Type::String,
                        vec![Value::String(s("hello")), Value::String(s("goodbye"))],
                    ),
                ),
                (
                    Value::U64(999999),
                    Value::List(
                        Type::String,
                        vec![Value::String(s("thanks")), Value::String(s("how are you"))],
                    ),
                ),
            ],
        ),
        expb(
            "
        b2 06 110e
        03 7b     a2 0e 85 68656c6c6f   87 676f6f64627965
        23 0f423f a2 0e 86 7468616e6b73 8b 686f772061726520796f75
        ",
        ),
    );

    case(
        Value::Tuple(vec![
            Value::Unit,
            Value::Bool(false),
            Value::I64(-7777777),
            Value::U64(24393),
            Value::F64(50.0_f64.to_bits()),
            Value::String(s("Berylsoft")),
            Value::Bytes(b(b"(\x00)")),
            Value::Option(Type::String, Box::new(None)),
            Value::Option(Type::Bool, Box::new(Some(Value::Bool(true)))),
            Value::Alias(
                TypeId::Hash(HashId::from_hash(hash7("fedcba98765432"))),
                Box::new(Value::Bytes(b(b"\xff"))),
            ),
            Value::CEnum(std_id(0x01, 0x5f50), 11),
            Value::Enum(std_id(0x01, 0x5f49), 5, Box::new(Value::I64(5))),
            Value::Enum(std_id(0xfe, 0x00aa), 163, Box::new(Value::U64(12))),
            Value::Type(Type::List(Box::new(Type::List(Box::new(Type::Struct(
                TypeId::Anonymous,
            )))))),
            Value::TypeId(TypeId::Hash(HashId::from_hash(hash7("fedcba98765432")))),
            Value::Option(
                Type::Tuple(vec![Type::I64, Type::Unit, Type::Unknown]),
                Box::new(Some(Value::Tuple(vec![
                    Value::I64(9),
                    Value::Unit,
                    Value::Bool(true),
                ]))),
            ),
        ]),
        expb(
            "
        cc 10
        0e
        1e
        2a 76adf1
        13 5f49
        1d 4049
        89 426572796c736f6674
        93 280029
        3e 0e
        4e 02 2e
        5e ff fedcba98765432 91 ff
        db 01 5f50
        e5 01 5f49 07 05
        ec a3 fe 00aa 03 0c
        6e 11 11 17 00
        7e ff fedcba98765432
        4e  13 03 0a 01 00  c3 07 09 0e 2e
        ",
        ),
    );

    err_case(
        expb("7a ffffffffffffffff"),
        Error::BytevarIntSign { buf: [0xff; 8] },
    );

    err_case(expb("0e 000000"), Error::TooLong { rest: 3 });

    err_case(
        expb("89 426572796c736f66"),
        Error::TooShort {
            rest: 8,
            expected: 9,
        },
    );

    err_case(expb("6e ff"), Error::Tag(0xff));

    let utf8 = core::str::from_utf8(expb("ffff")).unwrap_err();
    err_case(
        expb("82 ffff"),
        Error::Utf8(Utf8Error {
            valid_up_to: utf8.valid_up_to(),
            error_len: utf8.error_len(),
        }),
    );

    err_case(
        expb("8c 00"),
        Error::ExtvarTooLong {
            l4: EXT8,
            expected_l4: L4::try_from(0u8).unwrap(),
            u: 0,
        },
    );

    err_case(
        expb("21 000001"),
        Error::BytevarLongerThanType {
            len: 3,
            nlen: 2,
            buf: hex8("00 00 00 00 00 00 00 01"),
        },
    );

    err_case(
        expb("11 0001"),
        Error::BytevarLongerThanExpected {
            len: 2,
            nlen: 2,
            exp_len: 1,
            buf: hex8("00 00 00 00 00 00 00 01"),
        },
    );

    err_case(expb("0a 00"), Error::BytevarNegZero { buf: [0; 8] })
}
