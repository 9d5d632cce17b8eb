//! The AMF3 engine: the integer vectors from the wire format, reference
//! reuse of strings, traits and objects, every value variant's bytes, and
//! the failure scenarios.

use flash_lso::amf3::{AMF3Encoder, NoExternalEncoders};
use flash_lso::types::{
    AmfError, ClassAttributes, ClassDefinition, Element, ObjectId, Reference, Value,
};

fn encoder() -> AMF3Encoder<NoExternalEncoders> {
    AMF3Encoder::default()
}

#[test]
fn test_write_1byte_number() {
    let e = encoder();
    let mut v: Vec<u8> = vec![];
    e.write_int(&mut v, 0b00101011);
    assert_eq!(v, &[0b00101011]);
}

#[test]
fn test_write_4byte_number() {
    let e = encoder();
    let mut v: Vec<u8> = vec![];
    e.write_int(&mut v, 2097280);
    assert_eq!(v, &[0b10000000, 0b11000000, 0b10000000, 0b10000000]);
}

#[test]
fn write_neg_number() {
    let e = encoder();
    let mut v: Vec<u8> = vec![];
    e.write_int(&mut v, -268435455);
    assert_eq!(v, &[192, 128, 128, 1]);
}

#[test]
fn string_reference_reuse() {
    let mut e = encoder();
    let mut v: Vec<u8> = vec![];
    let s = b"foo".to_vec();
    e.write_string_element(&mut v, &s);
    e.write_string_element(&mut v, &s);
    // First occurrence: full bytes; second: a pure reference to index 0.
    assert_eq!(v, vec![0x06, 0x07, b'f', b'o', b'o', 0x06, 0x00]);
}

#[test]
fn empty_string_never_takes_a_slot() {
    let mut e = encoder();
    let mut v: Vec<u8> = vec![];
    let empty = Vec::new();
    let s = b"x".to_vec();
    e.write_string_element(&mut v, &empty);
    e.write_string_element(&mut v, &empty);
    e.write_string_element(&mut v, &s);
    e.write_string_element(&mut v, &s);
    // Two literal empties, then "x" full and "x" as reference index 0:
    // the empties consumed no slot.
    assert_eq!(v, vec![0x06, 0x01, 0x06, 0x01, 0x06, 0x03, b'x', 0x06, 0x00]);
}

#[test]
fn number_element_bytes() {
    let mut e = encoder();
    let mut v: Vec<u8> = vec![];
    let val = Value::Number(1.5f64.to_bits());
    assert_eq!(e.write_value(&mut v, &val), Ok(()));
    assert_eq!(v, vec![0x05, 0x3f, 0xf8, 0, 0, 0, 0, 0, 0]);
}

#[test]
fn bool_and_null_and_undefined_bytes() {
    let mut e = encoder();
    let mut v: Vec<u8> = vec![];
    assert_eq!(e.write_value(&mut v, &Value::Bool(true)), Ok(()));
    assert_eq!(e.write_value(&mut v, &Value::Bool(false)), Ok(()));
    assert_eq!(e.write_value(&mut v, &Value::Null), Ok(()));
    assert_eq!(e.write_value(&mut v, &Value::Undefined), Ok(()));
    assert_eq!(e.write_value(&mut v, &Value::Unsupported), Ok(()));
    assert_eq!(v, vec![0x03, 0x02, 0x01, 0x00, 0x00]);
}

#[test]
fn integer_element_bytes() {
    let mut e = encoder();
    let mut v: Vec<u8> = vec![];
    assert_eq!(e.write_value(&mut v, &Value::Integer(0b00101011)), Ok(()));
    assert_eq!(v, vec![0x04, 0x2b]);
}

#[test]
fn byte_array_cached_by_content() {
    let mut e = encoder();
    let mut v: Vec<u8> = vec![];
    let b = Value::ByteArray(vec![1, 2, 3]);
    assert_eq!(e.write_value(&mut v, &b), Ok(()));
    assert_eq!(e.write_value(&mut v, &b), Ok(()));
    assert_eq!(v, vec![0x0c, 0x07, 1, 2, 3, 0x0c, 0x00]);
}

#[test]
fn int_vector_bytes_and_reuse() {
    let mut e = encoder();
    let mut v: Vec<u8> = vec![];
    let val = Value::VectorInt(vec![1, -1], false);
    assert_eq!(e.write_value(&mut v, &val), Ok(()));
    assert_eq!(e.write_value(&mut v, &val), Ok(()));
    assert_eq!(
        v,
        vec![
            0x0d, 0x05, 0x00, 0x00, 0x00, 0x00, 0x01, 0xff, 0xff, 0xff, 0xff, 0x0d, 0x00
        ]
    );
}

#[test]
fn uint_vector_bytes() {
    let mut e = encoder();
    let mut v: Vec<u8> = vec![];
    let val = Value::VectorUInt(vec![0xdead_beef], true);
    assert_eq!(e.write_value(&mut v, &val), Ok(()));
    assert_eq!(v, vec![0x0e, 0x03, 0x01, 0xde, 0xad, 0xbe, 0xef]);
}

#[test]
fn double_vector_bytes() {
    let mut e = encoder();
    let mut v: Vec<u8> = vec![];
    let val = Value::VectorDouble(vec![1.5f64.to_bits()], false);
    assert_eq!(e.write_value(&mut v, &val), Ok(()));
    assert_eq!(v, vec![0x0f, 0x03, 0x00, 0x3f, 0xf8, 0, 0, 0, 0, 0, 0]);
}

#[test]
fn date_literal_then_reference() {
    let mut e = encoder();
    let mut v: Vec<u8> = vec![];
    let d = Value::Date(0, None);
    assert_eq!(e.write_value(&mut v, &d), Ok(()));
    // A second date with the same instant but a timezone still hits the
    // table: the timezone does not travel in AMF3.
    let d2 = Value::Date(0, Some(60));
    assert_eq!(e.write_value(&mut v, &d2), Ok(()));
    assert_eq!(v, vec![0x08, 0x01, 0, 0, 0, 0, 0, 0, 0, 0, 0x08, 0x00]);
}

#[test]
fn xml_bytes_never_cached() {
    let mut e = encoder();
    let mut v: Vec<u8> = vec![];
    let x = Value::XML(b"<a/>".to_vec(), false);
    assert_eq!(e.write_value(&mut v, &x), Ok(()));
    assert_eq!(e.write_value(&mut v, &x), Ok(()));
    let one = vec![0x07, 0x09, b'<', b'a', b'/', b'>'];
    let mut both = one.clone();
    both.extend_from_slice(&one);
    assert_eq!(v, both);
}

#[test]
fn xml_string_variant_marker() {
    let mut e = encoder();
    let mut v: Vec<u8> = vec![];
    let x = Value::XML(b"<a/>".to_vec(), true);
    assert_eq!(e.write_value(&mut v, &x), Ok(()));
    assert_eq!(v, vec![0x0b, 0x09, b'<', b'a', b'/', b'>']);
}

#[test]
fn strict_array_empty_and_dense() {
    let mut e = encoder();
    let mut v: Vec<u8> = vec![];
    let empty = Value::StrictArray(ObjectId(1), vec![]);
    assert_eq!(e.write_value(&mut v, &empty), Ok(()));
    assert_eq!(v, vec![0x09, 0x01, 0x01]);
    let mut v2: Vec<u8> = vec![];
    let arr = Value::StrictArray(ObjectId(2), vec![Value::Integer(1)]);
    assert_eq!(e.write_value(&mut v2, &arr), Ok(()));
    assert_eq!(v2, vec![0x09, 0x03, 0x01, 0x04, 0x01]);
}

#[test]
fn ecma_array_assoc_then_dense() {
    let mut e = encoder();
    let mut v: Vec<u8> = vec![];
    let arr = Value::ECMAArray(
        ObjectId(1),
        vec![Value::Null],
        vec![Element { name: b"k".to_vec(), value: Value::Bool(true) }],
        1,
    );
    assert_eq!(e.write_value(&mut v, &arr), Ok(()));
    assert_eq!(v, vec![0x09, 0x03, 0x03, b'k', 0x03, 0x01, 0x01]);
}

#[test]
fn object_vector_bytes() {
    let mut e = encoder();
    let mut v: Vec<u8> = vec![];
    let val = Value::VectorObject(ObjectId(1), vec![Value::Integer(7)], b"T".to_vec(), false);
    assert_eq!(e.write_value(&mut v, &val), Ok(()));
    assert_eq!(v, vec![0x10, 0x03, 0x00, 0x03, b'T', 0x04, 0x07]);
}

#[test]
fn dictionary_bytes_and_double_store() {
    let mut e = encoder();
    let mut v: Vec<u8> = vec![];
    let d = Value::Dictionary(
        ObjectId(1),
        vec![(Value::String(b"k".to_vec()), Value::Integer(5))],
        false,
    );
    assert_eq!(e.write_value(&mut v, &d), Ok(()));
    // The dictionary is stored even when it is then found by reference:
    // the second write still refers to the first stored copy, index 0.
    assert_eq!(e.write_value(&mut v, &d), Ok(()));
    assert_eq!(
        v,
        vec![0x11, 0x03, 0x00, 0x06, 0x03, b'k', 0x04, 0x05, 0x11, 0x00]
    );
}

fn plain_trait(name: &[u8], props: Vec<Vec<u8>>, dynamic: bool) -> ClassDefinition {
    ClassDefinition {
        name: name.to_vec(),
        attributes: ClassAttributes { external: false, dynamic },
        static_properties: props,
    }
}

#[test]
fn trait_reuse_emits_reference_index() {
    let mut e = encoder();
    let mut v: Vec<u8> = vec![];
    let obj1 = Value::Object(
        ObjectId(1),
        vec![Element { name: b"a".to_vec(), value: Value::Integer(1) }],
        Some(plain_trait(b"C", vec![b"a".to_vec()], false)),
    );
    let obj2 = Value::Object(
        ObjectId(2),
        vec![Element { name: b"a".to_vec(), value: Value::Integer(2) }],
        Some(plain_trait(b"C", vec![b"a".to_vec()], false)),
    );
    assert_eq!(e.write_value(&mut v, &obj1), Ok(()));
    assert_eq!(e.write_value(&mut v, &obj2), Ok(()));
    assert_eq!(
        v,
        vec![
            // first object: full trait (one property), name "C", prop "a",
            // then the static value
            0x0a, 0x13, 0x03, b'C', 0x03, b'a', 0x04, 0x01,
            // second object: trait reference 0, then the static value
            0x0a, 0x01, 0x04, 0x02,
        ]
    );
}

#[test]
fn static_values_in_trait_declaration_order() {
    // Trait properties [a, b], elements listed as [b, a]: the sealed
    // values still come out in trait declaration order, a's first.
    let mut e = encoder();
    let mut v: Vec<u8> = vec![];
    let obj = Value::Object(
        ObjectId(1),
        vec![
            Element { name: b"b".to_vec(), value: Value::Integer(2) },
            Element { name: b"a".to_vec(), value: Value::Integer(1) },
        ],
        Some(plain_trait(b"C", vec![b"a".to_vec(), b"b".to_vec()], false)),
    );
    assert_eq!(e.write_value(&mut v, &obj), Ok(()));
    assert_eq!(
        v,
        vec![
            0x0a, 0x23, 0x03, b'C', 0x03, b'a', 0x03, b'b',
            // a's value first, then b's
            0x04, 0x01, 0x04, 0x02,
        ]
    );
}

#[test]
fn object_reference_for_equal_content() {
    let mut e = encoder();
    let mut v: Vec<u8> = vec![];
    let obj = Value::Object(
        ObjectId(1),
        vec![Element { name: b"a".to_vec(), value: Value::Integer(1) }],
        Some(plain_trait(b"C", vec![b"a".to_vec()], false)),
    );
    // Same content under a different identity token: still a reference.
    let alias = Value::Object(
        ObjectId(9),
        vec![Element { name: b"a".to_vec(), value: Value::Integer(1) }],
        Some(plain_trait(b"C", vec![b"a".to_vec()], false)),
    );
    assert_eq!(e.write_value(&mut v, &obj), Ok(()));
    assert_eq!(e.write_value(&mut v, &alias), Ok(()));
    assert_eq!(
        v,
        vec![0x0a, 0x13, 0x03, b'C', 0x03, b'a', 0x04, 0x01, 0x0a, 0x00]
    );
}

#[test]
fn dynamic_object_writes_names_and_sentinel() {
    let mut e = encoder();
    let mut v: Vec<u8> = vec![];
    let obj = Value::Object(
        ObjectId(1),
        vec![Element { name: b"k".to_vec(), value: Value::Bool(true) }],
        Some(plain_trait(b"", vec![], true)),
    );
    assert_eq!(e.write_value(&mut v, &obj), Ok(()));
    // trait word: 0 props, dynamic: (((0<<2|2)<<1|1)<<1|1) = 0x0b; empty
    // class name; dynamic pair "k" -> true; empty-string sentinel.
    assert_eq!(v, vec![0x0a, 0x0b, 0x01, 0x03, b'k', 0x03, 0x01]);
}

#[test]
fn external_without_encoder_fails_clean() {
    let mut e = encoder();
    let mut v: Vec<u8> = vec![];
    let obj = Value::Object(
        ObjectId(1),
        vec![],
        Some(ClassDefinition {
            name: b"flex.X".to_vec(),
            attributes: ClassAttributes { external: true, dynamic: false },
            static_properties: vec![],
        }),
    );
    assert_eq!(
        e.write_value(&mut v, &obj),
        Err(AmfError::UnsupportedExternalType)
    );
    // No partial trait bytes were written for the failing object.
    assert_eq!(v, Vec::<u8>::new());
}

#[test]
fn custom_external_without_encoder_fails_clean() {
    let mut e = encoder();
    let mut v: Vec<u8> = vec![];
    let obj = Value::Custom(
        vec![],
        vec![],
        Some(ClassDefinition {
            name: b"flex.X".to_vec(),
            attributes: ClassAttributes { external: true, dynamic: false },
            static_properties: vec![],
        }),
    );
    assert_eq!(
        e.write_value(&mut v, &obj),
        Err(AmfError::UnsupportedExternalType)
    );
    assert_eq!(v, Vec::<u8>::new());
}

#[test]
fn bare_back_references_are_not_encodable() {
    let mut e = encoder();
    let mut v: Vec<u8> = vec![];
    assert_eq!(
        e.write_value(&mut v, &Value::Reference(Reference(3))),
        Err(AmfError::UnsupportedValue)
    );
    assert_eq!(
        e.write_value(&mut v, &Value::Amf3ObjectReference(ObjectId(3))),
        Err(AmfError::UnsupportedValue)
    );
    assert_eq!(v, Vec::<u8>::new());
}

#[test]
fn body_writes_elements_with_padding() {
    let mut e = encoder();
    let mut v: Vec<u8> = vec![];
    let body = vec![Element { name: b"n".to_vec(), value: Value::Null }];
    assert_eq!(e.write_body(&mut v, &body), Ok(()));
    assert_eq!(v, vec![0x03, b'n', 0x01, 0x00]);
}

#[test]
fn parent_registered_before_children_indices() {
    // The outer object is registered in the object table before its child
    // is visited, so the outer takes index 0 and the inner index 1: later
    // references to each show exactly those indices.
    let mut e = encoder();
    let mut v: Vec<u8> = vec![];
    let dyn_trait = plain_trait(b"", vec![], true);
    let inner = Value::Object(ObjectId(2), vec![], Some(plain_trait(b"", vec![], true)));
    let outer = Value::Object(
        ObjectId(1),
        vec![Element { name: b"in".to_vec(), value: inner }],
        Some(dyn_trait),
    );
    assert_eq!(e.write_value(&mut v, &outer), Ok(()));
    assert_eq!(
        v,
        vec![
            // outer: full dynamic trait, empty name
            0x0a, 0x0b, 0x01,
            // dynamic pair "in" -> inner (trait reference 0, empty body)
            0x05, b'i', b'n', 0x0a, 0x01, 0x01,
            // outer's dynamic sentinel
            0x01,
        ]
    );
    let mut v2: Vec<u8> = vec![];
    let inner_again = Value::Object(ObjectId(2), vec![], Some(plain_trait(b"", vec![], true)));
    assert_eq!(e.write_value(&mut v2, &inner_again), Ok(()));
    assert_eq!(v2, vec![0x0a, 0x02]);
    let mut v3: Vec<u8> = vec![];
    let outer_again = Value::Object(
        ObjectId(1),
        vec![Element {
            name: b"in".to_vec(),
            value: Value::Object(ObjectId(2), vec![], Some(plain_trait(b"", vec![], true))),
        }],
        Some(plain_trait(b"", vec![], true)),
    );
    assert_eq!(e.write_value(&mut v3, &outer_again), Ok(()));
    assert_eq!(v3, vec![0x0a, 0x00]);
}

#[test]
fn nested_object_cycle_shape_registers_parent_first() {
    // An object whose child list holds (by identity token) a reference
    // back to itself is representable; encoding rejects the bare
    // reference leaf rather than recursing forever.
    let mut e = encoder();
    let mut v: Vec<u8> = vec![];
    let obj = Value::Object(
        ObjectId(1),
        vec![Element {
            name: b"me".to_vec(),
            value: Value::Amf3ObjectReference(ObjectId(1)),
        }],
        Some(plain_trait(b"", vec![b"me".to_vec()], false)),
    );
    assert_eq!(e.write_value(&mut v, &obj), Err(AmfError::UnsupportedValue));
}
