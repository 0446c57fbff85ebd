use wasm_bridge::codec::decode_locator;
use wasm_bridge::codec::decode_result;
use wasm_bridge::codec::encode_argument;
use wasm_bridge::codec::OutputLocator;
use wasm_bridge::codec::Shape;
use wasm_bridge::codec::Value;
use wasm_bridge::codec::LOCATOR_WIDTH;
use wasm_bridge::error::CallError;
use wasm_bridge::slots::place;
use wasm_bridge::slots::shim_parameters;
use wasm_bridge::slots::ArgumentSlot;

#[test]
fn integers_encode_little_endian() {
    assert_eq!(encode_argument(&Value::U32(0x0403_0201), 0), Ok(vec![1, 2, 3, 4]));
    assert_eq!(encode_argument(&Value::U32(7), 3), Ok(vec![7, 0, 0, 0]));
}

#[test]
fn unit_encodes_to_nothing() {
    assert_eq!(encode_argument(&Value::Unit, 0), Ok(vec![]));
}

#[test]
fn bytes_encode_with_their_length() {
    assert_eq!(
        encode_argument(&Value::Bytes(vec![5, 6]), 0),
        Ok(vec![2, 0, 0, 0, 0, 0, 0, 0, 5, 6])
    );
    assert_eq!(encode_argument(&Value::Bytes(vec![]), 0), Ok(vec![0, 0, 0, 0, 0, 0, 0, 0]));
}

#[test]
fn values_decode_from_their_encoding() {
    for value in [Value::Unit, Value::U32(0), Value::U32(0xdead_beef), Value::Bytes(vec![1, 2, 3])] {
        let bytes = encode_argument(&value, 0).unwrap();
        assert_eq!(decode_result(value.shape(), &bytes), Ok(value));
    }
}

#[test]
fn decoding_ignores_trailing_bytes() {
    assert_eq!(decode_result(Shape::U32, &[1, 0, 0, 0, 9, 9]), Ok(Value::U32(1)));
    assert_eq!(decode_result(Shape::Unit, &[4, 4]), Ok(Value::Unit));
    assert_eq!(
        decode_result(Shape::Bytes, &[1, 0, 0, 0, 0, 0, 0, 0, 8, 9]),
        Ok(Value::Bytes(vec![8]))
    );
}

#[test]
fn decoding_fails_on_short_input() {
    assert_eq!(decode_result(Shape::U32, &[1, 0, 0]), Err(CallError::ResultDecodeFailure));
    assert_eq!(decode_result(Shape::Bytes, &[1, 0, 0, 0]), Err(CallError::ResultDecodeFailure));
    assert_eq!(
        decode_result(Shape::Bytes, &[2, 0, 0, 0, 0, 0, 0, 0, 8]),
        Err(CallError::ResultDecodeFailure)
    );
    assert_eq!(
        decode_result(Shape::Bytes, &[0xff, 0xff, 0xff, 0xff, 0xff, 0xff, 0xff, 0xff, 8]),
        Err(CallError::ResultDecodeFailure)
    );
}

#[test]
fn locator_is_address_then_size() {
    assert_eq!(LOCATOR_WIDTH, 8);
    assert_eq!(
        decode_locator(&[0x00, 0x08, 0, 0, 4, 0, 0, 0]),
        Ok(OutputLocator { address: 2048, size: 4 })
    );
    assert_eq!(
        decode_locator(&[0xff, 0xff, 0xff, 0xff, 0xff, 0xff, 0xff, 0xff]),
        Ok(OutputLocator { address: -1, size: u32::MAX })
    );
    assert_eq!(decode_locator(&[0; 7]), Err(CallError::LocatorDecodeFailure));
}

#[test]
fn place_keeps_within_signed_addresses() {
    assert_eq!(place(10, 5), Some(ArgumentSlot { address: 10, length: 5 }));
    assert_eq!(place(0, 0), Some(ArgumentSlot { address: 0, length: 0 }));
    assert_eq!(place(i32::MAX, 0), Some(ArgumentSlot { address: i32::MAX, length: 0 }));
    assert_eq!(place(i32::MAX, 1), None);
    assert_eq!(place(-1, 0), None);
    assert_eq!(place(0, 0x8000_0000), None);
    assert_eq!(ArgumentSlot { address: 10, length: 5 }.end(), 15);
}

#[test]
fn parameters_alternate_address_and_length() {
    let slots = vec![
        ArgumentSlot { address: 1024, length: 4 },
        ArgumentSlot { address: 1028, length: 0 },
        ArgumentSlot { address: 1028, length: 9 },
    ];
    assert_eq!(shim_parameters(&slots), vec![1024, 4, 1028, 0, 1028, 9]);
    assert_eq!(shim_parameters(&vec![]), Vec::<i32>::new());
}

#[test]
fn encoded_values_are_their_own_payload() {
    assert_eq!(encode_argument(&Value::Raw(vec![9, 8, 7]), 0), Ok(vec![9, 8, 7]));
    assert_eq!(encode_argument(&Value::Raw(vec![]), 1), Ok(vec![]));
    assert_eq!(decode_result(Shape::Raw, &[1, 2, 3]), Ok(Value::Raw(vec![1, 2, 3])));
    assert_eq!(decode_result(Shape::Raw, &[]), Ok(Value::Raw(vec![])));
    assert_eq!(Value::Raw(vec![1]).shape(), Shape::Raw);
}
