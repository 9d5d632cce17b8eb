//! The externalizable-type registry: a registered class name delegates the
//! payload to its encoder; an unregistered one is a hard failure.

use flash_lso::amf3::{AMF3Encoder, FixedPayloadEncoder};
use flash_lso::types::{ClassAttributes, ClassDefinition, Element, ObjectId, Value};

fn fixed_encoder() -> FixedPayloadEncoder {
    FixedPayloadEncoder { class_name: b"flex.X".to_vec(), payload: vec![0xaa, 0xbb] }
}

fn external_def() -> ClassDefinition {
    ClassDefinition {
        name: b"flex.X".to_vec(),
        attributes: ClassAttributes { external: true, dynamic: false },
        static_properties: vec![],
    }
}

#[test]
fn registered_external_payload_is_delegated() {
    let mut e = AMF3Encoder::new(fixed_encoder());
    let mut v: Vec<u8> = vec![];
    let obj = Value::Object(ObjectId(1), vec![], Some(external_def()));
    assert_eq!(e.write_value(&mut v, &obj), Ok(()));
    assert_eq!(
        v,
        vec![0x0a, 0x07, 0x0d, b'f', b'l', b'e', b'x', b'.', b'X', 0xaa, 0xbb]
    );
}

#[test]
fn registered_custom_payload_is_delegated() {
    let mut e = AMF3Encoder::new(fixed_encoder());
    let mut v: Vec<u8> = vec![];
    let obj = Value::Custom(
        vec![Element { name: b"p".to_vec(), value: Value::Integer(1) }],
        vec![],
        Some(external_def()),
    );
    assert_eq!(e.write_value(&mut v, &obj), Ok(()));
    assert_eq!(
        v,
        vec![0x0a, 0x07, 0x0d, b'f', b'l', b'e', b'x', b'.', b'X', 0xaa, 0xbb]
    );
}

#[test]
fn write_object_full_rejects_unregistered_class() {
    let mut e: AMF3Encoder<flash_lso::amf3::NoExternalEncoders> = AMF3Encoder::default();
    let mut v: Vec<u8> = vec![];
    let children: Vec<Element> = vec![];
    let def = external_def();
    assert_eq!(
        e.write_object_full(&mut v, None, &children, &def),
        Err(flash_lso::types::AmfError::UnsupportedExternalType)
    );
    assert_eq!(v, Vec::<u8>::new());
}

#[test]
fn write_trait_reference_rejects_unregistered_class() {
    let mut e: AMF3Encoder<flash_lso::amf3::NoExternalEncoders> = AMF3Encoder::default();
    let mut v: Vec<u8> = vec![];
    let children: Vec<Element> = vec![];
    let def = external_def();
    assert_eq!(
        e.write_trait_reference(&mut v, 0, &children, None, &def),
        Err(flash_lso::types::AmfError::UnsupportedExternalType)
    );
    assert_eq!(v, Vec::<u8>::new());
}
