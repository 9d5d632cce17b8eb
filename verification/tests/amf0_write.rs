//! The AMF0 engine: every marker's bytes, the short/long string boundary,
//! mixed arrays with decimal keys, back-references, and AMF3 embedding.

use flash_lso::amf0;
use flash_lso::types::{
    ClassAttributes, ClassDefinition, Element, ObjectId, Reference, Value,
};

#[test]
fn amf0_number_bytes() {
    let mut v: Vec<u8> = vec![];
    assert_eq!(
        amf0::write_value(&mut v, &Value::Number(1.5f64.to_bits())),
        Ok(())
    );
    assert_eq!(v, vec![0x00, 0x3f, 0xf8, 0, 0, 0, 0, 0, 0]);
}

#[test]
fn amf0_bool_bytes() {
    let mut v: Vec<u8> = vec![];
    assert_eq!(amf0::write_value(&mut v, &Value::Bool(true)), Ok(()));
    assert_eq!(amf0::write_value(&mut v, &Value::Bool(false)), Ok(()));
    assert_eq!(v, vec![0x01, 0x01, 0x01, 0x00]);
}

#[test]
fn amf0_short_string_bytes() {
    let mut v: Vec<u8> = vec![];
    assert_eq!(
        amf0::write_value(&mut v, &Value::String(b"hi".to_vec())),
        Ok(())
    );
    assert_eq!(v, vec![0x02, 0x00, 0x02, b'h', b'i']);
}

#[test]
fn string_at_65535_stays_short() {
    let s = vec![b'a'; 65535];
    let mut v: Vec<u8> = vec![];
    assert_eq!(amf0::write_value(&mut v, &Value::String(s.clone())), Ok(()));
    assert_eq!(v[0], 0x02);
    assert_eq!(&v[1..3], &[0xff, 0xff]);
    assert_eq!(v.len(), 3 + 65535);
}

#[test]
fn string_at_65536_goes_long() {
    let s = vec![b'a'; 65536];
    let mut v: Vec<u8> = vec![];
    assert_eq!(amf0::write_value(&mut v, &Value::String(s.clone())), Ok(()));
    assert_eq!(v[0], 0x0c);
    assert_eq!(&v[1..5], &[0x00, 0x01, 0x00, 0x00]);
    assert_eq!(v.len(), 5 + 65536);
}

#[test]
fn amf0_plain_object_bytes() {
    let mut v: Vec<u8> = vec![];
    let obj = Value::Object(
        ObjectId(1),
        vec![Element { name: b"a".to_vec(), value: Value::Null }],
        None,
    );
    assert_eq!(amf0::write_value(&mut v, &obj), Ok(()));
    assert_eq!(v, vec![0x03, 0x00, 0x01, b'a', 0x05, 0x00, 0x00, 0x09]);
}

#[test]
fn amf0_typed_object_bytes() {
    let mut v: Vec<u8> = vec![];
    let obj = Value::Object(
        ObjectId(1),
        vec![Element { name: b"a".to_vec(), value: Value::Null }],
        Some(ClassDefinition {
            name: b"C".to_vec(),
            attributes: ClassAttributes { external: false, dynamic: false },
            static_properties: vec![],
        }),
    );
    assert_eq!(amf0::write_value(&mut v, &obj), Ok(()));
    assert_eq!(
        v,
        vec![0x10, 0x00, 0x01, b'C', 0x00, 0x01, b'a', 0x05, 0x00, 0x00, 0x09]
    );
}

#[test]
fn amf0_strict_array_bytes() {
    let mut v: Vec<u8> = vec![];
    let arr = Value::StrictArray(ObjectId(1), vec![Value::Bool(false)]);
    assert_eq!(amf0::write_value(&mut v, &arr), Ok(()));
    assert_eq!(v, vec![0x0a, 0x00, 0x00, 0x00, 0x01, 0x01, 0x00]);
}

#[test]
fn amf0_date_with_and_without_timezone() {
    let mut v: Vec<u8> = vec![];
    assert_eq!(amf0::write_value(&mut v, &Value::Date(0, Some(5))), Ok(()));
    assert_eq!(amf0::write_value(&mut v, &Value::Date(0, None)), Ok(()));
    assert_eq!(
        v,
        vec![
            0x0b, 0, 0, 0, 0, 0, 0, 0, 0, 0x00, 0x05, 0x0b, 0, 0, 0, 0, 0, 0, 0, 0, 0x00, 0x00
        ]
    );
}

#[test]
fn amf0_mixed_array_decimal_keys() {
    let mut v: Vec<u8> = vec![];
    let arr = Value::ECMAArray(
        ObjectId(1),
        vec![Value::Null, Value::Undefined],
        vec![Element { name: b"k".to_vec(), value: Value::Bool(true) }],
        7,
    );
    assert_eq!(amf0::write_value(&mut v, &arr), Ok(()));
    assert_eq!(
        v,
        vec![
            0x08, 0x00, 0x00, 0x00, 0x07,
            // dense: "0" -> null, "1" -> undefined
            0x00, 0x01, b'0', 0x05, 0x00, 0x01, b'1', 0x06,
            // associative: "k" -> true, then the end sentinel
            0x00, 0x01, b'k', 0x01, 0x01, 0x00, 0x00, 0x09,
        ]
    );
}

#[test]
fn amf0_reference_bytes() {
    let mut v: Vec<u8> = vec![];
    assert_eq!(
        amf0::write_value(&mut v, &Value::Reference(Reference(2))),
        Ok(())
    );
    assert_eq!(v, vec![0x07, 0x00, 0x02]);
}

#[test]
fn amf0_xml_bytes() {
    let mut v: Vec<u8> = vec![];
    assert_eq!(
        amf0::write_value(&mut v, &Value::XML(b"<a/>".to_vec(), true)),
        Ok(())
    );
    assert_eq!(v, vec![0x0f, 0x00, 0x00, 0x00, 0x04, b'<', b'a', b'/', b'>']);
}

#[test]
fn amf0_unsupported_fallback() {
    let mut v: Vec<u8> = vec![];
    assert_eq!(amf0::write_value(&mut v, &Value::Unsupported), Ok(()));
    assert_eq!(amf0::write_value(&mut v, &Value::Integer(5)), Ok(()));
    assert_eq!(
        amf0::write_value(&mut v, &Value::ByteArray(vec![1])),
        Ok(())
    );
    assert_eq!(v, vec![0x0d, 0x0d, 0x0d]);
}

#[test]
fn amf0_embedded_amf3_fresh_tables() {
    let mut v: Vec<u8> = vec![];
    let e = Value::AMF3(Box::new(Value::Integer(1)));
    assert_eq!(amf0::write_value(&mut v, &e), Ok(()));
    assert_eq!(amf0::write_value(&mut v, &e), Ok(()));
    // Each embedding gets fresh AMF3 tables: no cross-boundary references.
    assert_eq!(v, vec![0x11, 0x04, 0x01, 0x11, 0x04, 0x01]);
}

#[test]
fn amf0_embedded_amf3_string_no_reuse_across_values() {
    let mut v: Vec<u8> = vec![];
    let s = Value::AMF3(Box::new(Value::String(b"foo".to_vec())));
    assert_eq!(amf0::write_value(&mut v, &s), Ok(()));
    assert_eq!(amf0::write_value(&mut v, &s), Ok(()));
    let one = vec![0x11, 0x06, 0x07, b'f', b'o', b'o'];
    let mut both = one.clone();
    both.extend_from_slice(&one);
    assert_eq!(v, both);
}

#[test]
fn amf0_body_with_padding() {
    let mut v: Vec<u8> = vec![];
    let body = vec![Element { name: b"n".to_vec(), value: Value::Null }];
    assert_eq!(amf0::write_body(&mut v, &body), Ok(()));
    assert_eq!(v, vec![0x00, 0x01, b'n', 0x05, 0x00]);
}
