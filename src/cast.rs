//! Decoding of attribute values from the bytes of a layer.

use crate::attr::Attr;
use crate::error::Error;
use crate::slice;
use std::ops::Range;
use byteorder::ByteOrder;
use vstd::prelude::*;

verus! {

/// `256` to the power `n`: one more than the largest integer of `n` bytes.
pub open spec fn byte_pow(n: nat) -> nat
    decreases n,
{
    if n == 0 {
        1
    } else {
        256 * byte_pow((n - 1) as nat)
    }
}

/// The bytes of `s` read as a big-endian unsigned integer.
pub open spec fn be_uint(s: Seq<u8>) -> nat
    decreases s.len(),
{
    if s.len() == 0 {
        0
    } else {
        (be_uint(s.drop_last()) * 256 + s.last()) as nat
    }
}

/// The bytes of `s` read as a little-endian unsigned integer.
pub open spec fn le_uint(s: Seq<u8>) -> nat
    decreases s.len(),
{
    if s.len() == 0 {
        0
    } else {
        (s[0] + 256 * le_uint(s.drop_first())) as nat
    }
}

/// The first `n` bytes of `s` read as an unsigned integer.
pub open spec fn uint_of(s: Seq<u8>, n: nat, big: bool) -> nat {
    if big {
        be_uint(s.take(n as int))
    } else {
        le_uint(s.take(n as int))
    }
}

/// An unsigned integer of `n` bytes reinterpreted in two's complement.
pub open spec fn signed_of(v: nat, n: nat) -> int {
    if 2 * v >= byte_pow(n) {
        v - byte_pow(n)
    } else {
        v as int
    }
}

pub proof fn lemma_byte_pow_values()
    ensures
        byte_pow(1) == 0x100,
        byte_pow(2) == 0x1_0000,
        byte_pow(4) == 0x1_0000_0000,
        byte_pow(8) == 0x1_0000_0000_0000_0000,
{
    reveal_with_fuel(byte_pow, 9);
}

pub proof fn lemma_be_uint_bound(s: Seq<u8>)
    ensures
        be_uint(s) < byte_pow(s.len()),
    decreases s.len(),
{
    if s.len() > 0 {
        lemma_be_uint_bound(s.drop_last());
        let a = be_uint(s.drop_last());
        let p = byte_pow((s.len() - 1) as nat);
        assert(a * 256 + s.last() < 256 * p) by (nonlinear_arith)
            requires
                a < p,
                s.last() < 256,
        ;
    }
}

pub proof fn lemma_le_uint_bound(s: Seq<u8>)
    ensures
        le_uint(s) < byte_pow(s.len()),
    decreases s.len(),
{
    if s.len() > 0 {
        lemma_le_uint_bound(s.drop_first());
        let a = le_uint(s.drop_first());
        let p = byte_pow((s.len() - 1) as nat);
        assert(s[0] + 256 * a < 256 * p) by (nonlinear_arith)
            requires
                a < p,
                s[0] < 256,
        ;
    }
}

/// Relies on byteorder's `BigEndian::read_uint`: the first `n` bytes of `buf`
/// as a big-endian integer; it panics unless `1 <= n <= 8` and `n <= buf.len()`.
#[verifier::external_body]
fn read_be(buf: &[u8], n: usize) -> (r: u64)
    requires
        1 <= n <= 8,
        n <= buf@.len(),
    ensures
        r == be_uint(buf@.take(n as int)),
{
    byteorder::BigEndian::read_uint(buf, n)
}

/// Relies on byteorder's `LittleEndian::read_uint`: the first `n` bytes of
/// `buf` as a little-endian integer; it panics unless `1 <= n <= 8` and
/// `n <= buf.len()`.
#[verifier::external_body]
fn read_le(buf: &[u8], n: usize) -> (r: u64)
    requires
        1 <= n <= 8,
        n <= buf@.len(),
    ensures
        r == le_uint(buf@.take(n as int)),
{
    byteorder::LittleEndian::read_uint(buf, n)
}

/// What `std::string::String::from_utf8` makes of a byte string: the text it
/// encodes, or nothing where it is not valid UTF-8.
pub uninterp spec fn utf8_text(b: Seq<u8>) -> Option<Seq<char>>;

/// Relies on `String::from_utf8`: the text of valid UTF-8, an error otherwise.
#[verifier::external_body]
fn decode_utf8(b: Vec<u8>) -> (r: Option<String>)
    ensures
        r matches Some(s) ==> utf8_text(b@) == Some(s@),
        r is None ==> utf8_text(b@) is None,
{
    String::from_utf8(b).ok()
}

/// The first `n` bytes of `buf` as an unsigned integer in the given byte order.
pub fn read_uint(buf: &[u8], n: usize, big: bool) -> (r: u64)
    requires
        1 <= n <= 8,
        n <= buf@.len(),
    ensures
        r == uint_of(buf@, n as nat, big),
        r < byte_pow(n as nat),
{
    if big {
        let r = read_be(buf, n);
        proof {
            lemma_be_uint_bound(buf@.take(n as int));
        }
        r
    } else {
        let r = read_le(buf, n);
        proof {
            lemma_le_uint_bound(buf@.take(n as int));
        }
        r
    }
}

/// An unsigned integer of `n` bytes reinterpreted in two's complement.
pub fn to_signed(v: u64, n: usize) -> (r: i64)
    requires
        n == 1 || n == 2 || n == 4 || n == 8,
        v < byte_pow(n as nat),
    ensures
        r == signed_of(v as nat, n as nat),
{
    proof {
        lemma_byte_pow_values();
    }
    if n == 8 {
        if v < 0x8000_0000_0000_0000 {
            v as i64
        } else {
            (v - 0x8000_0000_0000_0000) as i64 - 0x7fff_ffff_ffff_ffff - 1
        }
    } else {
        let full: u64 = if n == 1 {
            0x100
        } else if n == 2 {
            0x1_0000
        } else {
            0x1_0000_0000
        };
        if 2 * v >= full {
            v as i64 - full as i64
        } else {
            v as i64
        }
    }
}

/// How the value of an attribute is read from its bytes.
#[derive(Clone, Copy, Debug, PartialEq, Eq, Structural)]
pub enum Cast {
    /// No value.
    Nil,
    UInt8,
    Int8,
    UInt16BE,
    UInt32BE,
    UInt64BE,
    Int16BE,
    Int32BE,
    Int64BE,
    UInt16LE,
    UInt32LE,
    UInt64LE,
    Int16LE,
    Int32LE,
    Int64LE,
    /// The bytes as UTF-8 text.
    Utf8,
    /// The bytes themselves.
    ByteSlice,
    /// The bit at the start of the range, counted from the most significant
    /// bit of its byte.
    BitFlag,
    /// The bits of the range as a big-endian unsigned integer.
    Bits,
    /// A constant truth value, whatever the bytes.
    Constant(bool),
}

/// The size, byte order and signedness of an integer cast.
#[derive(Clone, Copy, Debug, PartialEq, Eq, Structural)]
pub struct IntLayout {
    pub bytes: usize,
    pub big: bool,
    pub signed: bool,
}

impl Cast {
    pub open spec fn spec_int_layout(self) -> Option<IntLayout> {
        match self {
            Cast::UInt8 => Some(IntLayout { bytes: 1, big: true, signed: false }),
            Cast::Int8 => Some(IntLayout { bytes: 1, big: true, signed: true }),
            Cast::UInt16BE => Some(IntLayout { bytes: 2, big: true, signed: false }),
            Cast::UInt32BE => Some(IntLayout { bytes: 4, big: true, signed: false }),
            Cast::UInt64BE => Some(IntLayout { bytes: 8, big: true, signed: false }),
            Cast::Int16BE => Some(IntLayout { bytes: 2, big: true, signed: true }),
            Cast::Int32BE => Some(IntLayout { bytes: 4, big: true, signed: true }),
            Cast::Int64BE => Some(IntLayout { bytes: 8, big: true, signed: true }),
            Cast::UInt16LE => Some(IntLayout { bytes: 2, big: false, signed: false }),
            Cast::UInt32LE => Some(IntLayout { bytes: 4, big: false, signed: false }),
            Cast::UInt64LE => Some(IntLayout { bytes: 8, big: false, signed: false }),
            Cast::Int16LE => Some(IntLayout { bytes: 2, big: false, signed: true }),
            Cast::Int32LE => Some(IntLayout { bytes: 4, big: false, signed: true }),
            Cast::Int64LE => Some(IntLayout { bytes: 8, big: false, signed: true }),
            _ => None,
        }
    }

    /// The layout of an integer cast; `None` for the others.
    #[verifier::when_used_as_spec(spec_int_layout)]
    pub fn int_layout(self) -> (r: Option<IntLayout>)
        ensures
            r == self.spec_int_layout(),
    {
        match self {
            Cast::UInt8 => Some(IntLayout { bytes: 1, big: true, signed: false }),
            Cast::Int8 => Some(IntLayout { bytes: 1, big: true, signed: true }),
            Cast::UInt16BE => Some(IntLayout { bytes: 2, big: true, signed: false }),
            Cast::UInt32BE => Some(IntLayout { bytes: 4, big: true, signed: false }),
            Cast::UInt64BE => Some(IntLayout { bytes: 8, big: true, signed: false }),
            Cast::Int16BE => Some(IntLayout { bytes: 2, big: true, signed: true }),
            Cast::Int32BE => Some(IntLayout { bytes: 4, big: true, signed: true }),
            Cast::Int64BE => Some(IntLayout { bytes: 8, big: true, signed: true }),
            Cast::UInt16LE => Some(IntLayout { bytes: 2, big: false, signed: false }),
            Cast::UInt32LE => Some(IntLayout { bytes: 4, big: false, signed: false }),
            Cast::UInt64LE => Some(IntLayout { bytes: 8, big: false, signed: false }),
            Cast::Int16LE => Some(IntLayout { bytes: 2, big: false, signed: true }),
            Cast::Int32LE => Some(IntLayout { bytes: 4, big: false, signed: true }),
            Cast::Int64LE => Some(IntLayout { bytes: 8, big: false, signed: true }),
            _ => None,
        }
    }
}

/// The mathematical value of a decoded attribute.
pub enum Value {
    Nil,
    Bool(bool),
    Int(int),
    Bytes(Seq<u8>),
    Text(Seq<char>),
}

/// A decoded attribute value.
#[derive(Clone, Debug)]
pub enum Variant {
    Nil,
    Bool(bool),
    Int64(i64),
    UInt64(u64),
    Buffer(slice::ByteSlice),
    Str(String),
}

impl View for Variant {
    type V = Value;

    open spec fn view(&self) -> Value {
        match self {
            Variant::Nil => Value::Nil,
            Variant::Bool(b) => Value::Bool(*b),
            Variant::Int64(v) => Value::Int(*v as int),
            Variant::UInt64(v) => Value::Int(*v as int),
            Variant::Buffer(b) => Value::Bytes(b@),
            Variant::Str(s) => Value::Text(s@),
        }
    }
}

/// The view of a decoding result.
pub open spec fn result_view(r: Result<Variant, Error>) -> Result<Value, Error> {
    match r {
        Ok(v) => Ok(v@),
        Err(e) => Err(e),
    }
}

/// The mask of the low `width` bits of a 64-bit word.
pub open spec fn low_mask(width: nat) -> u64 {
    if width >= 64 {
        u64::MAX
    } else {
        ((1u64 << width as u64) - 1) as u64
    }
}

/// The bits `[start, start + width)` of the big-endian integer `v` of `n`
/// bytes, where bit `0` is the most significant bit of the first byte.
pub open spec fn bits_of(v: u64, n: nat, start: nat, width: nat) -> u64 {
    (v >> (8 * n - start - width) as u64) & low_mask(width)
}

/// Whether bit `offset` of `b` is set, counting from the most significant bit.
pub open spec fn bit_at(b: u8, offset: nat) -> bool {
    (b >> (7 - offset) as u8) & 1u8 == 1u8
}

/// What `cast` reads from `bytes`, the bytes that an attribute's range
/// covers; `offset` is the position of the range's first bit within the
/// first of them and `width` the range's length in bits.
pub open spec fn decode(cast: Cast, bytes: Seq<u8>, offset: nat, width: nat) -> Result<Value, Error> {
    match cast.spec_int_layout() {
        Some(l) => if bytes.len() < l.bytes {
            Err(Error::Type)
        } else if l.signed {
            Ok(Value::Int(signed_of(uint_of(bytes, l.bytes as nat, l.big), l.bytes as nat)))
        } else {
            Ok(Value::Int(uint_of(bytes, l.bytes as nat, l.big) as int))
        },
        None => match cast {
            Cast::Nil => Ok(Value::Nil),
            Cast::Utf8 => match utf8_text(bytes) {
                Some(t) => Ok(Value::Text(t)),
                None => Err(Error::Type),
            },
            Cast::ByteSlice => Ok(Value::Bytes(bytes)),
            Cast::BitFlag => if bytes.len() < 1 {
                Err(Error::Type)
            } else {
                Ok(Value::Bool(bit_at(bytes[0], offset)))
            },
            Cast::Bits => if bytes.len() == 0 {
                Ok(Value::Int(0))
            } else if bytes.len() > 8 {
                Err(Error::Type)
            } else {
                Ok(Value::Int(bits_of(be_uint(bytes) as u64, bytes.len(), offset, width) as int))
            },
            Cast::Constant(b) => Ok(Value::Bool(b)),
            _ => Ok(Value::Nil),
        },
    }
}

/// What `cast` reads for `attr` from `data`: a range error where the
/// attribute's bytes lie outside `data`.
pub open spec fn cast_value(cast: Cast, attr: Attr, data: Seq<u8>) -> Result<Value, Error> {
    if !attr.in_bounds(data.len()) {
        Err(Error::Range)
    } else {
        decode(
            cast,
            data.subrange(attr.byte_start() as int, attr.byte_end() as int),
            (attr.start % 8) as nat,
            (attr.end - attr.start) as nat,
        )
    }
}

/// The bytes that `attr` covers in `data`.
fn attr_bytes(attr: &Attr, data: &slice::ByteSlice) -> (r: Result<Vec<u8>, Error>)
    ensures
        r is Ok <==> attr.in_bounds(data@.len()),
        r matches Ok(b) ==> b@ == data@.subrange(attr.byte_start() as int, attr.byte_end() as int),
        r matches Err(e) ==> e == Error::Range,
{
    match attr.bytes(data) {
        Ok(b) => Ok(b.to_vec()),
        Err(e) => Err(e),
    }
}

/// The unsigned integer that an integer cast reads before any
/// reinterpretation of its sign.
fn raw_int(cast: Cast, attr: &Attr, data: &slice::ByteSlice) -> (r: Result<u64, Error>)
    requires
        cast.spec_int_layout() is Some,
    ensures
        ({
            let l = cast.spec_int_layout().unwrap();
            let bytes = data@.subrange(attr.byte_start() as int, attr.byte_end() as int);
            &&& r matches Ok(v) ==> {
                &&& attr.in_bounds(data@.len())
                &&& bytes.len() >= l.bytes
                &&& v == uint_of(bytes, l.bytes as nat, l.big)
                &&& v < byte_pow(l.bytes as nat)
            }
            &&& r matches Err(e) ==> cast_value(cast, *attr, data@) == Err::<Value, Error>(e)
        }),
{
    let l = cast.int_layout().unwrap();
    let bytes = attr_bytes(attr, data)?;
    if bytes.len() < l.bytes {
        return Err(Error::Type);
    }
    Ok(read_uint(bytes.as_slice(), l.bytes, l.big))
}

/// Reads the value of `attr` from `data` by `cast`.
pub fn decode_as(cast: Cast, attr: &Attr, data: &slice::ByteSlice) -> (r: Result<Variant, Error>)
    ensures
        result_view(r) == cast_value(cast, *attr, data@),
{
    proof {
        lemma_byte_pow_values();
    }
    if let Some(l) = cast.int_layout() {
        let v = raw_int(cast, attr, data)?;
        if l.signed {
            return Ok(Variant::Int64(to_signed(v, l.bytes)));
        } else {
            return Ok(Variant::UInt64(v));
        }
    }
    match cast {
        Cast::Nil => {
            attr.bytes(data)?;
            Ok(Variant::Nil)
        },
        Cast::Constant(b) => {
            attr.bytes(data)?;
            Ok(Variant::Bool(b))
        },
        Cast::ByteSlice => {
            let b = attr.bytes(data)?;
            Ok(Variant::Buffer(b))
        },
        Cast::Utf8 => {
            let b = attr_bytes(attr, data)?;
            match decode_utf8(b) {
                Some(s) => Ok(Variant::Str(s)),
                None => Err(Error::Type),
            }
        },
        Cast::BitFlag => {
            let b = attr_bytes(attr, data)?;
            if b.len() < 1 {
                return Err(Error::Type);
            }
            let shift = 7 - (attr.start % 8) as u8;
            Ok(Variant::Bool((b[0] >> shift) & 1u8 == 1u8))
        },
        Cast::Bits => {
            let b = attr_bytes(attr, data)?;
            let n = b.len();
            if n == 0 {
                return Ok(Variant::UInt64(0));
            }
            if n > 8 {
                return Err(Error::Type);
            }
            let v = read_uint(b.as_slice(), n, true);
            proof {
                assert(b@.take(n as int) =~= b@);
            }
            let offset = attr.start % 8;
            let width = attr.end - attr.start;
            let shift = (8 * n - offset - width) as u64;
            let mask: u64 = if width >= 64 {
                u64::MAX
            } else {
                let w = width as u64;
                assert(1u64 << w >= 1) by (bit_vector)
                    requires
                        w < 64,
                ;
                (1u64 << w) - 1
            };
            Ok(Variant::UInt64((v >> shift) & mask))
        },
        _ => Ok(Variant::Nil),
    }
}

/// Cast for 8bit unsigned integer.
#[derive(Clone, Copy, Debug, Default, PartialEq, Eq, Structural)]
pub struct UInt8();

impl UInt8 {
    /// The value of `attr` in `data`.
    pub fn cast(&self, attr: &Attr, data: &slice::ByteSlice) -> (r: Result<u8, Error>)
        ensures
            r matches Ok(v) ==> cast_value(Cast::UInt8, *attr, data@) == Ok::<Value, Error>(
                Value::Int(v as int),
            ),
            r matches Err(e) ==> cast_value(Cast::UInt8, *attr, data@) == Err::<Value, Error>(e),
    {
        proof {
            lemma_byte_pow_values();
        }
        let v = raw_int(Cast::UInt8, attr, data)?;
        Ok(v as u8)
    }

    /// The size of the field in bits.
    pub fn bit_size(&self) -> (r: usize)
        ensures
            r == 8,
    {
        8
    }
}

/// Cast for 8bit signed integer.
#[derive(Clone, Copy, Debug, Default, PartialEq, Eq, Structural)]
pub struct Int8();

impl Int8 {
    /// The value of `attr` in `data`.
    pub fn cast(&self, attr: &Attr, data: &slice::ByteSlice) -> (r: Result<i8, Error>)
        ensures
            r matches Ok(v) ==> cast_value(Cast::Int8, *attr, data@) == Ok::<Value, Error>(
                Value::Int(v as int),
            ),
            r matches Err(e) ==> cast_value(Cast::Int8, *attr, data@) == Err::<Value, Error>(e),
    {
        proof {
            lemma_byte_pow_values();
        }
        let v = raw_int(Cast::Int8, attr, data)?;
        Ok(to_signed(v, 1) as i8)
    }

    /// The size of the field in bits.
    pub fn bit_size(&self) -> (r: usize)
        ensures
            r == 8,
    {
        8
    }
}

/// Cast for big-endian 16bit unsigned integer.
#[derive(Clone, Copy, Debug, Default, PartialEq, Eq, Structural)]
pub struct UInt16BE();

impl UInt16BE {
    /// The value of `attr` in `data`.
    pub fn cast(&self, attr: &Attr, data: &slice::ByteSlice) -> (r: Result<u16, Error>)
        ensures
            r matches Ok(v) ==> cast_value(Cast::UInt16BE, *attr, data@) == Ok::<Value, Error>(
                Value::Int(v as int),
            ),
            r matches Err(e) ==> cast_value(Cast::UInt16BE, *attr, data@) == Err::<Value, Error>(e),
    {
        proof {
            lemma_byte_pow_values();
        }
        let v = raw_int(Cast::UInt16BE, attr, data)?;
        Ok(v as u16)
    }

    /// The size of the field in bits.
    pub fn bit_size(&self) -> (r: usize)
        ensures
            r == 16,
    {
        16
    }
}

/// Cast for big-endian 32bit unsigned integer.
#[derive(Clone, Copy, Debug, Default, PartialEq, Eq, Structural)]
pub struct UInt32BE();

impl UInt32BE {
    /// The value of `attr` in `data`.
    pub fn cast(&self, attr: &Attr, data: &slice::ByteSlice) -> (r: Result<u32, Error>)
        ensures
            r matches Ok(v) ==> cast_value(Cast::UInt32BE, *attr, data@) == Ok::<Value, Error>(
                Value::Int(v as int),
            ),
            r matches Err(e) ==> cast_value(Cast::UInt32BE, *attr, data@) == Err::<Value, Error>(e),
    {
        proof {
            lemma_byte_pow_values();
        }
        let v = raw_int(Cast::UInt32BE, attr, data)?;
        Ok(v as u32)
    }

    /// The size of the field in bits.
    pub fn bit_size(&self) -> (r: usize)
        ensures
            r == 32,
    {
        32
    }
}

/// Cast for big-endian 64bit unsigned integer.
#[derive(Clone, Copy, Debug, Default, PartialEq, Eq, Structural)]
pub struct UInt64BE();

impl UInt64BE {
    /// The value of `attr` in `data`.
    pub fn cast(&self, attr: &Attr, data: &slice::ByteSlice) -> (r: Result<u64, Error>)
        ensures
            r matches Ok(v) ==> cast_value(Cast::UInt64BE, *attr, data@) == Ok::<Value, Error>(
                Value::Int(v as int),
            ),
            r matches Err(e) ==> cast_value(Cast::UInt64BE, *attr, data@) == Err::<Value, Error>(e),
    {
        proof {
            lemma_byte_pow_values();
        }
        let v = raw_int(Cast::UInt64BE, attr, data)?;
        Ok(v as u64)
    }

    /// The size of the field in bits.
    pub fn bit_size(&self) -> (r: usize)
        ensures
            r == 64,
    {
        64
    }
}

/// Cast for big-endian 16bit signed integer.
#[derive(Clone, Copy, Debug, Default, PartialEq, Eq, Structural)]
pub struct Int16BE();

impl Int16BE {
    /// The value of `attr` in `data`.
    pub fn cast(&self, attr: &Attr, data: &slice::ByteSlice) -> (r: Result<i16, Error>)
        ensures
            r matches Ok(v) ==> cast_value(Cast::Int16BE, *attr, data@) == Ok::<Value, Error>(
                Value::Int(v as int),
            ),
            r matches Err(e) ==> cast_value(Cast::Int16BE, *attr, data@) == Err::<Value, Error>(e),
    {
        proof {
            lemma_byte_pow_values();
        }
        let v = raw_int(Cast::Int16BE, attr, data)?;
        Ok(to_signed(v, 2) as i16)
    }

    /// The size of the field in bits.
    pub fn bit_size(&self) -> (r: usize)
        ensures
            r == 16,
    {
        16
    }
}

/// Cast for big-endian 32bit signed integer.
#[derive(Clone, Copy, Debug, Default, PartialEq, Eq, Structural)]
pub struct Int32BE();

impl Int32BE {
    /// The value of `attr` in `data`.
    pub fn cast(&self, attr: &Attr, data: &slice::ByteSlice) -> (r: Result<i32, Error>)
        ensures
            r matches Ok(v) ==> cast_value(Cast::Int32BE, *attr, data@) == Ok::<Value, Error>(
                Value::Int(v as int),
            ),
            r matches Err(e) ==> cast_value(Cast::Int32BE, *attr, data@) == Err::<Value, Error>(e),
    {
        proof {
            lemma_byte_pow_values();
        }
        let v = raw_int(Cast::Int32BE, attr, data)?;
        Ok(to_signed(v, 4) as i32)
    }

    /// The size of the field in bits.
    pub fn bit_size(&self) -> (r: usize)
        ensures
            r == 32,
    {
        32
    }
}

/// Cast for big-endian 64bit signed integer.
#[derive(Clone, Copy, Debug, Default, PartialEq, Eq, Structural)]
pub struct Int64BE();

impl Int64BE {
    /// The value of `attr` in `data`.
    pub fn cast(&self, attr: &Attr, data: &slice::ByteSlice) -> (r: Result<i64, Error>)
        ensures
            r matches Ok(v) ==> cast_value(Cast::Int64BE, *attr, data@) == Ok::<Value, Error>(
                Value::Int(v as int),
            ),
            r matches Err(e) ==> cast_value(Cast::Int64BE, *attr, data@) == Err::<Value, Error>(e),
    {
        proof {
            lemma_byte_pow_values();
        }
        let v = raw_int(Cast::Int64BE, attr, data)?;
        Ok(to_signed(v, 8) as i64)
    }

    /// The size of the field in bits.
    pub fn bit_size(&self) -> (r: usize)
        ensures
            r == 64,
    {
        64
    }
}

/// Cast for little-endian 16bit unsigned integer.
#[derive(Clone, Copy, Debug, Default, PartialEq, Eq, Structural)]
pub struct UInt16LE();

impl UInt16LE {
    /// The value of `attr` in `data`.
    pub fn cast(&self, attr: &Attr, data: &slice::ByteSlice) -> (r: Result<u16, Error>)
        ensures
            r matches Ok(v) ==> cast_value(Cast::UInt16LE, *attr, data@) == Ok::<Value, Error>(
                Value::Int(v as int),
            ),
            r matches Err(e) ==> cast_value(Cast::UInt16LE, *attr, data@) == Err::<Value, Error>(e),
    {
        proof {
            lemma_byte_pow_values();
        }
        let v = raw_int(Cast::UInt16LE, attr, data)?;
        Ok(v as u16)
    }

    /// The size of the field in bits.
    pub fn bit_size(&self) -> (r: usize)
        ensures
            r == 16,
    {
        16
    }
}

/// Cast for little-endian 32bit unsigned integer.
#[derive(Clone, Copy, Debug, Default, PartialEq, Eq, Structural)]
pub struct UInt32LE();

impl UInt32LE {
    /// The value of `attr` in `data`.
    pub fn cast(&self, attr: &Attr, data: &slice::ByteSlice) -> (r: Result<u32, Error>)
        ensures
            r matches Ok(v) ==> cast_value(Cast::UInt32LE, *attr, data@) == Ok::<Value, Error>(
                Value::Int(v as int),
            ),
            r matches Err(e) ==> cast_value(Cast::UInt32LE, *attr, data@) == Err::<Value, Error>(e),
    {
        proof {
            lemma_byte_pow_values();
        }
        let v = raw_int(Cast::UInt32LE, attr, data)?;
        Ok(v as u32)
    }

    /// The size of the field in bits.
    pub fn bit_size(&self) -> (r: usize)
        ensures
            r == 32,
    {
        32
    }
}

/// Cast for little-endian 64bit unsigned integer.
#[derive(Clone, Copy, Debug, Default, PartialEq, Eq, Structural)]
pub struct UInt64LE();

impl UInt64LE {
    /// The value of `attr` in `data`.
    pub fn cast(&self, attr: &Attr, data: &slice::ByteSlice) -> (r: Result<u64, Error>)
        ensures
            r matches Ok(v) ==> cast_value(Cast::UInt64LE, *attr, data@) == Ok::<Value, Error>(
                Value::Int(v as int),
            ),
            r matches Err(e) ==> cast_value(Cast::UInt64LE, *attr, data@) == Err::<Value, Error>(e),
    {
        proof {
            lemma_byte_pow_values();
        }
        let v = raw_int(Cast::UInt64LE, attr, data)?;
        Ok(v as u64)
    }

    /// The size of the field in bits.
    pub fn bit_size(&self) -> (r: usize)
        ensures
            r == 64,
    {
        64
    }
}

/// Cast for little-endian 16bit signed integer.
#[derive(Clone, Copy, Debug, Default, PartialEq, Eq, Structural)]
pub struct Int16LE();

impl Int16LE {
    /// The value of `attr` in `data`.
    pub fn cast(&self, attr: &Attr, data: &slice::ByteSlice) -> (r: Result<i16, Error>)
        ensures
            r matches Ok(v) ==> cast_value(Cast::Int16LE, *attr, data@) == Ok::<Value, Error>(
                Value::Int(v as int),
            ),
            r matches Err(e) ==> cast_value(Cast::Int16LE, *attr, data@) == Err::<Value, Error>(e),
    {
        proof {
            lemma_byte_pow_values();
        }
        let v = raw_int(Cast::Int16LE, attr, data)?;
        Ok(to_signed(v, 2) as i16)
    }

    /// The size of the field in bits.
    pub fn bit_size(&self) -> (r: usize)
        ensures
            r == 16,
    {
        16
    }
}

/// Cast for little-endian 32bit signed integer.
#[derive(Clone, Copy, Debug, Default, PartialEq, Eq, Structural)]
pub struct Int32LE();

impl Int32LE {
    /// The value of `attr` in `data`.
    pub fn cast(&self, attr: &Attr, data: &slice::ByteSlice) -> (r: Result<i32, Error>)
        ensures
            r matches Ok(v) ==> cast_value(Cast::Int32LE, *attr, data@) == Ok::<Value, Error>(
                Value::Int(v as int),
            ),
            r matches Err(e) ==> cast_value(Cast::Int32LE, *attr, data@) == Err::<Value, Error>(e),
    {
        proof {
            lemma_byte_pow_values();
        }
        let v = raw_int(Cast::Int32LE, attr, data)?;
        Ok(to_signed(v, 4) as i32)
    }

    /// The size of the field in bits.
    pub fn bit_size(&self) -> (r: usize)
        ensures
            r == 32,
    {
        32
    }
}

/// Cast for little-endian 64bit signed integer.
#[derive(Clone, Copy, Debug, Default, PartialEq, Eq, Structural)]
pub struct Int64LE();

impl Int64LE {
    /// The value of `attr` in `data`.
    pub fn cast(&self, attr: &Attr, data: &slice::ByteSlice) -> (r: Result<i64, Error>)
        ensures
            r matches Ok(v) ==> cast_value(Cast::Int64LE, *attr, data@) == Ok::<Value, Error>(
                Value::Int(v as int),
            ),
            r matches Err(e) ==> cast_value(Cast::Int64LE, *attr, data@) == Err::<Value, Error>(e),
    {
        proof {
            lemma_byte_pow_values();
        }
        let v = raw_int(Cast::Int64LE, attr, data)?;
        Ok(to_signed(v, 8) as i64)
    }

    /// The size of the field in bits.
    pub fn bit_size(&self) -> (r: usize)
        ensures
            r == 64,
    {
        64
    }
}

/// Cast for UTF-8 string.
#[derive(Clone, Copy, Debug, Default, PartialEq, Eq, Structural)]
pub struct Utf8();

impl Utf8 {
    /// The text of `attr` in `data`.
    pub fn cast(&self, attr: &Attr, data: &slice::ByteSlice) -> (r: Result<String, Error>)
        ensures
            r matches Ok(s) ==> cast_value(Cast::Utf8, *attr, data@) == Ok::<Value, Error>(
                Value::Text(s@),
            ),
            r matches Err(e) ==> cast_value(Cast::Utf8, *attr, data@) == Err::<Value, Error>(e),
    {
        let b = attr_bytes(attr, data)?;
        match decode_utf8(b) {
            Some(s) => Ok(s),
            None => Err(Error::Type),
        }
    }
}

/// Cast for the bytes themselves.
#[derive(Clone, Copy, Debug, Default, PartialEq, Eq, Structural)]
pub struct ByteSlice();

impl ByteSlice {
    /// The bytes of `attr` in `data`, as a view that shares them.
    pub fn cast(&self, attr: &Attr, data: &slice::ByteSlice) -> (r: Result<slice::ByteSlice, Error>)
        ensures
            r matches Ok(b) ==> cast_value(Cast::ByteSlice, *attr, data@) == Ok::<Value, Error>(
                Value::Bytes(b@),
            ),
            r matches Err(e) ==> cast_value(Cast::ByteSlice, *attr, data@) == Err::<Value, Error>(e),
    {
        attr.bytes(data)
    }
}

/// Cast for a single bit.
#[derive(Clone, Copy, Debug, Default, PartialEq, Eq, Structural)]
pub struct BitFlag();

impl BitFlag {
    /// Whether the first bit of `attr` is set in `data`.
    pub fn cast(&self, attr: &Attr, data: &slice::ByteSlice) -> (r: Result<bool, Error>)
        ensures
            r matches Ok(b) ==> cast_value(Cast::BitFlag, *attr, data@) == Ok::<Value, Error>(
                Value::Bool(b),
            ),
            r matches Err(e) ==> cast_value(Cast::BitFlag, *attr, data@) == Err::<Value, Error>(e),
    {
        match decode_as(Cast::BitFlag, attr, data) {
            Ok(Variant::Bool(b)) => Ok(b),
            Ok(_) => Err(Error::Type),
            Err(e) => Err(e),
        }
    }

    /// The size of the field in bits.
    pub fn bit_size(&self) -> (r: usize)
        ensures
            r == 1,
    {
        1
    }
}

} // verus!
