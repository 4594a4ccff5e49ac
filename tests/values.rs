use genet::attr::Attr;
use genet::cast::{
    BitFlag, ByteSlice as Bytes, Cast, Int16BE, Int16LE, Int32BE, Int64LE, Int8, UInt16BE,
    UInt16LE, UInt32BE, UInt32LE, UInt64BE, UInt64LE, UInt8, Utf8, Variant,
};
use genet::error::Error;
use genet::slice::ByteSlice;
use genet::token::{Token, TokenRegistry};

fn at(cast: Cast, start: usize, end: usize) -> Attr {
    Attr::new(Token::from(1), Token::null(), cast, start..end)
}

fn sample() -> ByteSlice {
    ByteSlice::from_bytes(&[0x12, 0x34, 0x56, 0x78, 0x9a, 0xbc, 0xde, 0xf0])
}

#[test]
fn unsigned_integers() {
    let d = sample();
    assert_eq!(UInt8().cast(&at(Cast::UInt8, 8, 16), &d), Ok(0x34));
    assert_eq!(UInt16BE().cast(&at(Cast::UInt16BE, 0, 16), &d), Ok(0x1234));
    assert_eq!(UInt16LE().cast(&at(Cast::UInt16LE, 0, 16), &d), Ok(0x3412));
    assert_eq!(UInt32BE().cast(&at(Cast::UInt32BE, 0, 32), &d), Ok(0x1234_5678));
    assert_eq!(UInt32LE().cast(&at(Cast::UInt32LE, 32, 64), &d), Ok(0xf0de_bc9a));
    assert_eq!(UInt64BE().cast(&at(Cast::UInt64BE, 0, 64), &d), Ok(0x1234_5678_9abc_def0));
    assert_eq!(UInt64LE().cast(&at(Cast::UInt64LE, 0, 64), &d), Ok(0xf0de_bc9a_7856_3412));
    assert_eq!(UInt16BE().bit_size(), 16);
    assert_eq!(UInt64LE().bit_size(), 64);
}

#[test]
fn signed_integers() {
    let d = ByteSlice::from_bytes(&[0x80, 0xff, 0xfe, 0x7f, 0xff, 0xff, 0xff, 0xff]);
    assert_eq!(Int8().cast(&at(Cast::Int8, 0, 8), &d), Ok(-128));
    assert_eq!(Int16BE().cast(&at(Cast::Int16BE, 8, 24), &d), Ok(-2));
    assert_eq!(Int16LE().cast(&at(Cast::Int16LE, 8, 24), &d), Ok(-257));
    assert_eq!(Int32BE().cast(&at(Cast::Int32BE, 24, 56), &d), Ok(0x7fff_ffff));
    assert_eq!(Int64LE().cast(&at(Cast::Int64LE, 0, 64), &d), Ok(-0x8001_0080));
}

#[test]
fn integer_variants() {
    let d = sample();
    match at(Cast::Int16BE, 32, 48).try_get(&d).unwrap() {
        Variant::Int64(v) => assert_eq!(v, -25_924),
        _ => panic!("not a signed value"),
    }
    match at(Cast::UInt16BE, 32, 48).try_get(&d).unwrap() {
        Variant::UInt64(v) => assert_eq!(v, 0x9abc),
        _ => panic!("not an unsigned value"),
    }
}

#[test]
fn range_and_type_errors() {
    let d = sample();
    assert_eq!(UInt16BE().cast(&at(Cast::UInt16BE, 56, 72), &d), Err(Error::Range));
    assert_eq!(UInt32BE().cast(&at(Cast::UInt32BE, 0, 16), &d), Err(Error::Type));
    assert_eq!(UInt8().cast(&at(Cast::UInt8, 16, 8), &d), Err(Error::Range));
    assert!(matches!(at(Cast::Nil, 0, 72).try_get(&d), Err(Error::Range)));
    assert!(matches!(at(Cast::Nil, 0, 64).try_get(&d), Ok(Variant::Nil)));
    assert!(matches!(at(Cast::Constant(true), 0, 8).try_get(&d), Ok(Variant::Bool(true))));
}

#[test]
fn text() {
    let d = ByteSlice::from_bytes(b"hi\xff");
    assert_eq!(Utf8().cast(&at(Cast::Utf8, 0, 16), &d), Ok("hi".to_string()));
    assert_eq!(Utf8().cast(&at(Cast::Utf8, 0, 24), &d), Err(Error::Type));
    match at(Cast::Utf8, 8, 16).try_get(&d).unwrap() {
        Variant::Str(s) => assert_eq!(s, "i"),
        _ => panic!("not text"),
    }
}

#[test]
fn bytes_and_bits() {
    let d = ByteSlice::from_bytes(&[0x45, 0x40, 0x1f, 0xff]);
    assert_eq!(Bytes().cast(&at(Cast::ByteSlice, 8, 24), &d).unwrap().to_vec(), vec![0x40, 0x1f]);
    assert_eq!(BitFlag().cast(&at(Cast::BitFlag, 9, 10), &d), Ok(true));
    assert_eq!(BitFlag().cast(&at(Cast::BitFlag, 8, 9), &d), Ok(false));
    assert_eq!(BitFlag().bit_size(), 1);
    let bits = |s: usize, e: usize| match at(Cast::Bits, s, e).try_get(&d).unwrap() {
        Variant::UInt64(v) => v,
        _ => panic!("not an unsigned value"),
    };
    assert_eq!(bits(0, 4), 4);
    assert_eq!(bits(4, 8), 5);
    assert_eq!(bits(19, 32), 0x1fff);
    assert_eq!(bits(0, 32), 0x4540_1fff);
    assert_eq!(bits(8, 8), 0);
}

#[test]
fn attr_ranges() {
    let a = at(Cast::Nil, 12, 21);
    assert_eq!(a.bit_range(), 12..21);
    assert_eq!(a.range(), 1..3);
    assert!(a.is_match(Token::from(1)));
    assert!(!a.is_match(Token::from(2)));
    let d = sample();
    assert_eq!(a.bytes(&d).unwrap().to_vec(), vec![0x34, 0x56]);
}

#[test]
fn byte_views() {
    let d = sample();
    let sub = d.try_get(2..6).unwrap();
    assert_eq!(sub.to_vec(), vec![0x56, 0x78, 0x9a, 0xbc]);
    assert_eq!(sub.get(1), 0x78);
    assert_eq!(sub.try_get(1..3).unwrap().to_vec(), vec![0x78, 0x9a]);
    assert_eq!(sub.try_get(3..5).err(), Some(Error::Range));
    assert_eq!(d.try_get(5..4).err(), Some(Error::Range));
    assert_eq!(d.try_get(8..8).unwrap().len(), 0);
    assert!(ByteSlice::new().is_empty());
    assert_eq!(ByteSlice::from_vec(vec![1, 2]), ByteSlice::from_bytes(&[1, 2]));
    assert_ne!(ByteSlice::from_vec(vec![1, 2]), ByteSlice::from_bytes(&[1, 3]));
}

#[test]
fn tokens() {
    let mut reg = TokenRegistry::new();
    let a = reg.token("eth.src");
    let b = reg.token("eth.dst");
    assert_ne!(a, b);
    assert_eq!(reg.token("eth.src"), a);
    assert_eq!(reg.len(), 2);
    assert_eq!(reg.token(""), Token::null());
    assert!(Token::null().is_null());
    assert!(!a.is_null());
    assert_eq!(reg.len(), 2);
    assert_eq!(Token::from(7).id, 7);
    assert_eq!(reg.name(a), Some(&b"eth.src"[..]));
    assert_eq!(reg.name(b), Some(&b"eth.dst"[..]));
    assert_eq!(reg.name(Token::null()), Some(&b""[..]));
    assert_eq!(reg.name(Token::from(3)), None);
}
