use crate::error::CallError;
use vstd::bytes::spec_u32_from_le_bytes;
use vstd::bytes::spec_u32_to_le_bytes;
use vstd::bytes::spec_u64_from_le_bytes;
use vstd::bytes::spec_u64_to_le_bytes;
use vstd::prelude::*;
use vstd::slice::slice_to_vec;

verus! {

/// The error of the binary codec. Nothing is read out of it.
#[verifier::external_type_specification]
#[verifier::external_body]
pub struct ExCodecErrorKind(bincode::ErrorKind);

/// The shapes of value that cross the boundary.
#[derive(Clone, Copy, Debug, PartialEq, Eq, Structural)]
pub enum Shape {
    /// The value without content; it encodes to no bytes.
    Unit,
    /// An unsigned 32-bit integer.
    U32,
    /// A sequence of bytes of any length.
    Bytes,
    /// A value that its owner has encoded already: the payload as it is.
    Raw,
}

/// A value that crosses the boundary, as an argument or as a result.
#[derive(Clone, Debug, PartialEq, Eq)]
pub enum Value {
    Unit,
    U32(u32),
    Bytes(Vec<u8>),
    Raw(Vec<u8>),
}

/// What a `Value` stands for.
pub enum ValueView {
    Unit,
    U32(u32),
    Bytes(Seq<u8>),
    Raw(Seq<u8>),
}

impl View for Value {
    type V = ValueView;

    open spec fn view(&self) -> ValueView {
        match self {
            Value::Unit => ValueView::Unit,
            Value::U32(x) => ValueView::U32(*x),
            Value::Bytes(bytes) => ValueView::Bytes(bytes@),
            Value::Raw(bytes) => ValueView::Raw(bytes@),
        }
    }
}

/// The record by which the guest tells where a result's bytes lie.
#[derive(Clone, Copy, Debug, PartialEq, Eq, Structural)]
pub struct OutputLocator {
    pub address: i32,
    pub size: u32,
}

/// The number of bytes of an encoded locator.
pub const LOCATOR_WIDTH: usize = 8;

/// The signed integer that shares its 32 bits with `x`.
pub open spec fn as_signed(x: u32) -> int {
    if x < 0x8000_0000 {
        x as int
    } else {
        x as int - 0x1_0000_0000
    }
}

/// The unsigned integer that shares its 32 bits with `x`.
pub open spec fn as_unsigned(x: i32) -> u32 {
    if x >= 0 {
        x as u32
    } else {
        (x as int + 0x1_0000_0000) as u32
    }
}

impl ValueView {
    /// The shape of the value.
    pub open spec fn shape(self) -> Shape {
        match self {
            ValueView::Unit => Shape::Unit,
            ValueView::U32(_) => Shape::U32,
            ValueView::Bytes(_) => Shape::Bytes,
            ValueView::Raw(_) => Shape::Raw,
        }
    }

    /// The bytes of the value on the wire: nothing for the unit, four
    /// little-endian bytes for an integer, for a byte sequence its length in
    /// eight little-endian bytes before the bytes themselves, and an encoded
    /// value as it is.
    pub open spec fn encoding(self) -> Seq<u8> {
        match self {
            ValueView::Unit => Seq::empty(),
            ValueView::U32(x) => spec_u32_to_le_bytes(x),
            ValueView::Bytes(bytes) => spec_u64_to_le_bytes(bytes.len() as u64) + bytes,
            ValueView::Raw(bytes) => bytes,
        }
    }
}

/// Whether `bytes` start with a value of the shape. Bytes behind the value
/// are left alone; an encoded value is the whole of the bytes.
pub open spec fn decodable(shape: Shape, bytes: Seq<u8>) -> bool {
    match shape {
        Shape::Unit => true,
        Shape::U32 => bytes.len() >= 4,
        Shape::Bytes => bytes.len() >= 8 && 8 + spec_u64_from_le_bytes(bytes.subrange(0, 8))
            <= bytes.len(),
        Shape::Raw => true,
    }
}

/// The value of the shape that `bytes` start with.
pub open spec fn decoded(shape: Shape, bytes: Seq<u8>) -> ValueView
    recommends
        decodable(shape, bytes),
{
    match shape {
        Shape::Unit => ValueView::Unit,
        Shape::U32 => ValueView::U32(spec_u32_from_le_bytes(bytes.subrange(0, 4))),
        Shape::Bytes => ValueView::Bytes(
            bytes.subrange(8, 8 + spec_u64_from_le_bytes(bytes.subrange(0, 8))),
        ),
        Shape::Raw => ValueView::Raw(bytes),
    }
}

/// The locator that eight bytes spell: the address in the first four, the
/// size in the last four, each little-endian.
pub open spec fn decoded_locator(bytes: Seq<u8>) -> (int, int)
    recommends
        bytes.len() >= 8,
{
    (
        as_signed(spec_u32_from_le_bytes(bytes.subrange(0, 4))),
        spec_u32_from_le_bytes(bytes.subrange(4, 8)) as int,
    )
}

/// Calls `bincode::serialize` on the unit value. The function sets no limit
/// on the size and writes into a vector, so it does not fail here; the unit
/// is written as no bytes at all.
#[verifier::external_body]
fn serialize_unit() -> (result: Result<Vec<u8>, Box<bincode::ErrorKind>>)
    ensures
        result is Ok,
        result.unwrap()@ == Seq::<u8>::empty(),
{
    bincode::serialize(&())
}

/// Calls `bincode::serialize` on a `u32`. The function sets no limit on the
/// size and writes into a vector, so it does not fail here. It fixes integers
/// of fixed width in little-endian order, so the result is the integer's four
/// bytes from the lowest up.
#[verifier::external_body]
fn serialize_u32(value: u32) -> (result: Result<Vec<u8>, Box<bincode::ErrorKind>>)
    ensures
        result is Ok,
        result.unwrap()@ == spec_u32_to_le_bytes(value),
{
    bincode::serialize(&value)
}

/// Calls `bincode::serialize` on a byte vector. The function sets no limit on
/// the size and writes into a vector, and a vector knows its length, so it
/// does not fail here. A sequence is written as its length, a 64-bit integer
/// in little-endian order, and then its items, here one byte each.
#[verifier::external_body]
fn serialize_bytes(value: &Vec<u8>) -> (result: Result<Vec<u8>, Box<bincode::ErrorKind>>)
    ensures
        result is Ok,
        result.unwrap()@ == spec_u64_to_le_bytes(value@.len() as u64) + value@,
{
    bincode::serialize(value)
}

/// Calls `bincode::deserialize` for the unit value, which reads no byte and
/// so succeeds on every input.
#[verifier::external_body]
fn deserialize_unit(bytes: &[u8]) -> (result: Result<(), Box<bincode::ErrorKind>>)
    ensures
        result is Ok,
{
    bincode::deserialize::<()>(bytes)
}

/// Calls `bincode::deserialize` for a `u32`. It reads four bytes as a
/// little-endian integer, fails where fewer are left, and ignores what
/// follows them.
#[verifier::external_body]
fn deserialize_u32(bytes: &[u8]) -> (result: Result<u32, Box<bincode::ErrorKind>>)
    ensures
        result is Ok <==> bytes@.len() >= 4,
        result is Ok ==> result.unwrap() == spec_u32_from_le_bytes(bytes@.subrange(0, 4)),
{
    bincode::deserialize::<u32>(bytes)
}

/// Calls `bincode::deserialize` for a byte vector. It reads a length from
/// eight little-endian bytes and then that many bytes, fails where the input
/// ends before them, and ignores what follows them.
#[verifier::external_body]
fn deserialize_bytes(bytes: &[u8]) -> (result: Result<Vec<u8>, Box<bincode::ErrorKind>>)
    ensures
        result is Ok <==> decodable(Shape::Bytes, bytes@),
        result is Ok ==> result.unwrap()@ == bytes@.subrange(
            8,
            8 + spec_u64_from_le_bytes(bytes@.subrange(0, 8)),
        ),
{
    bincode::deserialize::<Vec<u8>>(bytes)
}

/// Calls `bincode::deserialize` for a pair of an `i32` and a `u32`, the two
/// fields of a locator in their order. Each is read from four little-endian
/// bytes; the call fails where fewer than eight bytes are given.
#[verifier::external_body]
fn deserialize_pair(bytes: &[u8]) -> (result: Result<(i32, u32), Box<bincode::ErrorKind>>)
    ensures
        result is Ok <==> bytes@.len() >= 8,
        result is Ok ==> (result.unwrap().0 as int, result.unwrap().1 as int) == decoded_locator(
            bytes@,
        ),
{
    bincode::deserialize::<(i32, u32)>(bytes)
}

impl Value {
    /// The shape of this value.
    pub fn shape(&self) -> (result: Shape)
        ensures
            result == self@.shape(),
    {
        match self {
            Value::Unit => Shape::Unit,
            Value::U32(_) => Shape::U32,
            Value::Bytes(_) => Shape::Bytes,
            Value::Raw(_) => Shape::Raw,
        }
    }
}

/// Encodes the argument at position `index`. The codec refuses no value of
/// these shapes, so the result is the value's encoding; an error of the codec
/// would come back with the position.
pub fn encode_argument(value: &Value, index: usize) -> (result: Result<Vec<u8>, CallError>)
    ensures
        result is Ok,
        result.unwrap()@ == value@.encoding(),
{
    let encoded = match value {
        Value::Unit => serialize_unit(),
        Value::U32(x) => serialize_u32(*x),
        Value::Bytes(bytes) => serialize_bytes(bytes),
        Value::Raw(bytes) => {
            return Ok(slice_to_vec(bytes.as_slice()));
        },
    };
    match encoded {
        Ok(bytes) => Ok(bytes),
        Err(_) => Err(CallError::SerializationFailure(index)),
    }
}

/// Decodes a result's payload as a value of the declared shape: it succeeds
/// exactly where the bytes start with such a value.
pub fn decode_result(shape: Shape, bytes: &[u8]) -> (result: Result<Value, CallError>)
    ensures
        result is Ok <==> decodable(shape, bytes@),
        result is Ok ==> result.unwrap()@ == decoded(shape, bytes@),
        result is Err ==> result.unwrap_err() == CallError::ResultDecodeFailure,
{
    match shape {
        Shape::Unit => match deserialize_unit(bytes) {
            Ok(_) => Ok(Value::Unit),
            Err(_) => Err(CallError::ResultDecodeFailure),
        },
        Shape::U32 => match deserialize_u32(bytes) {
            Ok(x) => Ok(Value::U32(x)),
            Err(_) => Err(CallError::ResultDecodeFailure),
        },
        Shape::Bytes => match deserialize_bytes(bytes) {
            Ok(content) => Ok(Value::Bytes(content)),
            Err(_) => Err(CallError::ResultDecodeFailure),
        },
        Shape::Raw => Ok(Value::Raw(slice_to_vec(bytes))),
    }
}

/// Decodes the window of bytes at the address that the entry point returned
/// as a locator: it succeeds exactly on eight bytes or more.
pub fn decode_locator(bytes: &[u8]) -> (result: Result<OutputLocator, CallError>)
    ensures
        result is Ok <==> bytes@.len() >= 8,
        result is Ok ==> (result.unwrap().address as int, result.unwrap().size as int)
            == decoded_locator(bytes@),
        result is Err ==> result.unwrap_err() == CallError::LocatorDecodeFailure,
{
    match deserialize_pair(bytes) {
        Ok(pair) => Ok(OutputLocator { address: pair.0, size: pair.1 }),
        Err(_) => Err(CallError::LocatorDecodeFailure),
    }
}

/// The bytes of a locator on the wire: the address, then the size, each in
/// four little-endian bytes.
pub open spec fn locator_encoding(address: i32, size: u32) -> Seq<u8> {
    spec_u32_to_le_bytes(as_unsigned(address)) + spec_u32_to_le_bytes(size)
}

/// Decoding undoes encoding: the encoding of a value starts with that value,
/// whatever bytes follow it. An encoded value is the whole payload, so
/// nothing may follow it.
pub proof fn lemma_codec_round_trip(value: ValueView, trailing: Seq<u8>)
    requires
        value matches ValueView::Bytes(bytes) ==> bytes.len() <= u64::MAX,
        value is Raw ==> trailing.len() == 0,
    ensures
        decodable(value.shape(), value.encoding() + trailing),
        decoded(value.shape(), value.encoding() + trailing) == value,
{
    vstd::bytes::lemma_auto_spec_u32_to_from_le_bytes();
    vstd::bytes::lemma_auto_spec_u64_to_from_le_bytes();
    let wire = value.encoding() + trailing;
    match value {
        ValueView::Unit => {},
        ValueView::U32(x) => {
            assert(wire.subrange(0, 4) =~= spec_u32_to_le_bytes(x));
        },
        ValueView::Bytes(bytes) => {
            let prefix = spec_u64_to_le_bytes(bytes.len() as u64);
            assert(prefix.len() == 8);
            assert(wire.subrange(0, 8) =~= prefix);
            assert(spec_u64_from_le_bytes(prefix) == bytes.len());
            assert(wire.subrange(8, 8 + bytes.len() as int) =~= bytes);
        },
        ValueView::Raw(bytes) => {
            assert(wire =~= bytes);
        },
    }
}

/// A locator decodes from its encoding, whatever bytes follow it.
pub proof fn lemma_locator_round_trip(address: i32, size: u32, trailing: Seq<u8>)
    ensures
        locator_encoding(address, size).len() == 8,
        decoded_locator(locator_encoding(address, size) + trailing) == (
            address as int,
            size as int,
        ),
{
    vstd::bytes::lemma_auto_spec_u32_to_from_le_bytes();
    let wire = locator_encoding(address, size) + trailing;
    assert(wire.subrange(0, 4) =~= spec_u32_to_le_bytes(as_unsigned(address)));
    assert(wire.subrange(4, 8) =~= spec_u32_to_le_bytes(size));
}

} // verus!
