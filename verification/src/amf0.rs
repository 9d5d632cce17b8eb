//! The AMF0 engine: the serializer for the older, reference-table-free AMF0
//! wire grammar, with its one explicit back-reference mechanism and the
//! delegation of embedded AMF3 values to a fresh AMF3 engine.

use vstd::prelude::*;
use crate::types::{AmfError, Element, Reference, Value, ValueV, vv, vv_elems, vv_seq};
use crate::amf3::{AMF3Encoder, NoExternalEncoders, empty_tables, padding_bytes, wv};
use crate::wire::{
    be_u16_bytes, be_u32_bytes, be_u64_bytes, write_be_u16, write_be_u32, write_be_u64,
    write_slice,
};

verus! {

// AMF0 type markers.
pub const MARKER0_NUMBER: u8 = 0x00;
pub const MARKER0_BOOLEAN: u8 = 0x01;
pub const MARKER0_STRING: u8 = 0x02;
pub const MARKER0_OBJECT: u8 = 0x03;
pub const MARKER0_NULL: u8 = 0x05;
pub const MARKER0_UNDEFINED: u8 = 0x06;
pub const MARKER0_REFERENCE: u8 = 0x07;
pub const MARKER0_MIXED_ARRAY_START: u8 = 0x08;
pub const MARKER0_OBJECT_END: u8 = 0x09;
pub const MARKER0_ARRAY: u8 = 0x0a;
pub const MARKER0_DATE: u8 = 0x0b;
pub const MARKER0_LONG_STRING: u8 = 0x0c;
pub const MARKER0_UNSUPPORTED: u8 = 0x0d;
pub const MARKER0_XML: u8 = 0x0f;
pub const MARKER0_TYPED_OBJECT: u8 = 0x10;
pub const MARKER0_AMF3: u8 = 0x11;

/// The outcome of an AMF0 write: the bytes emitted and the error, if any,
/// that aborted the pass.
#[verifier::ext_equal]
pub struct W0 {
    pub bytes: Seq<u8>,
    pub err: Option<AmfError>,
}

/// A successful outcome.
pub open spec fn w0ok(bytes: Seq<u8>) -> W0 {
    W0 { bytes, err: None }
}

/// `w` with `pre` in front of its bytes.
pub open spec fn w0pre(pre: Seq<u8>, w: W0) -> W0 {
    W0 { bytes: pre + w.bytes, err: w.err }
}

/// An AMF0 string: a two-byte length (low 16 bits) and the raw bytes.
pub open spec fn a0_string(s: Seq<u8>) -> Seq<u8> {
    be_u16_bytes(((s.len() % 0x10000) as u16)) + s
}

/// An AMF0 long-string body: a four-byte length (low 32 bits) and the raw
/// bytes.
pub open spec fn a0_long_string(s: Seq<u8>) -> Seq<u8> {
    be_u32_bytes(((s.len() % 0x1_0000_0000) as u32)) + s
}

/// The decimal digits of a non-negative integer.
pub open spec fn dec_str(n: int) -> Seq<u8>
    recommends
        n >= 0,
    decreases n,
{
    if n < 10 {
        seq![(n + 48) as u8]
    } else {
        dec_str(n / 10) + seq![((n % 10) + 48) as u8]
    }
}

/// The key of a dense element in a mixed array: its index as a decimal
/// string with a two-byte length.
pub open spec fn dense_key(i: int) -> Seq<u8> {
    be_u16_bytes(((dec_str(i).len() % 0x10000) as u16)) + dec_str(i)
}

/// One value of the AMF0 grammar.  Values with no AMF0 representation fall
/// back to the unsupported marker; only an embedded AMF3 value can fail.
pub open spec fn wv0(v: ValueV) -> W0
    decreases v, 0int,
{
    match v {
        ValueV::Number(b) => w0ok(seq![MARKER0_NUMBER] + be_u64_bytes(b)),
        ValueV::Bool(b) => w0ok(
            seq![
                MARKER0_BOOLEAN,
                if b {
                    1u8
                } else {
                    0u8
                },
            ],
        ),
        ValueV::String(s) => {
            if s.len() > 65535 {
                w0ok(seq![MARKER0_LONG_STRING] + a0_long_string(s))
            } else {
                w0ok(seq![MARKER0_STRING] + a0_string(s))
            }
        },
        ValueV::Object(ch, cd) => {
            match cd {
                Some(def) => {
                    let w = w0_elems(ch, 0);
                    w0pre(
                        seq![MARKER0_TYPED_OBJECT] + a0_string(def.name),
                        if w.err is Some {
                            w
                        } else {
                            w0ok(w.bytes + be_u16_bytes(0) + seq![MARKER0_OBJECT_END])
                        },
                    )
                },
                None => {
                    let w = w0_elems(ch, 0);
                    w0pre(
                        seq![MARKER0_OBJECT],
                        if w.err is Some {
                            w
                        } else {
                            w0ok(w.bytes + be_u16_bytes(0) + seq![MARKER0_OBJECT_END])
                        },
                    )
                },
            }
        },
        ValueV::Null => w0ok(seq![MARKER0_NULL]),
        ValueV::Undefined => w0ok(seq![MARKER0_UNDEFINED]),
        ValueV::ECMAArray(dense, assoc, length) => {
            let head = seq![MARKER0_MIXED_ARRAY_START] + be_u32_bytes(length);
            let wd = w0_dense(dense, 0);
            if wd.err is Some {
                w0pre(head, wd)
            } else {
                let wa = w0_elems(assoc, 0);
                if wa.err is Some {
                    w0pre(head + wd.bytes, wa)
                } else {
                    w0ok(
                        head + wd.bytes + wa.bytes + be_u16_bytes(0) + seq![MARKER0_OBJECT_END],
                    )
                }
            }
        },
        ValueV::StrictArray(ch) => {
            let head = seq![MARKER0_ARRAY] + be_u32_bytes(((ch.len() % 0x1_0000_0000) as u32));
            w0pre(head, w0_values(ch, 0))
        },
        ValueV::Date(b, tz) => {
            let z: u16 = match tz {
                Some(x) => x,
                None => 0,
            };
            w0ok(seq![MARKER0_DATE] + be_u64_bytes(b) + be_u16_bytes(z))
        },
        ValueV::Unsupported => w0ok(seq![MARKER0_UNSUPPORTED]),
        ValueV::XML(s, _string) => w0ok(seq![MARKER0_XML] + a0_long_string(s)),
        ValueV::AMF3(inner) => {
            if inner.len() == 1 {
                let w = wv(NoExternalEncoders, empty_tables(), inner[0]);
                W0 { bytes: seq![MARKER0_AMF3] + w.bytes, err: w.err }
            } else {
                W0 { bytes: seq![], err: Some(AmfError::UnsupportedValue) }
            }
        },
        ValueV::Reference(r) => w0ok(seq![MARKER0_REFERENCE] + be_u16_bytes(r)),
        _ => w0ok(seq![MARKER0_UNSUPPORTED]),
    }
}

/// The elements of an object, written as name/value pairs, from `i` on.
pub open spec fn w0_elems(es: Seq<(Seq<u8>, ValueV)>, i: int) -> W0
    decreases es, es.len() - i,
{
    if !(0 <= i < es.len()) {
        w0ok(seq![])
    } else {
        let w = wv0(es[i].1);
        if w.err is Some {
            w0pre(a0_string(es[i].0), w)
        } else {
            w0pre(a0_string(es[i].0) + w.bytes, w0_elems(es, i + 1))
        }
    }
}

/// The values of a strict array, in order, from `i` on.
pub open spec fn w0_values(vs: Seq<ValueV>, i: int) -> W0
    decreases vs, vs.len() - i,
{
    if !(0 <= i < vs.len()) {
        w0ok(seq![])
    } else {
        let w = wv0(vs[i]);
        if w.err is Some {
            w
        } else {
            w0pre(w.bytes, w0_values(vs, i + 1))
        }
    }
}

/// The dense part of a mixed array: each value under its decimal-string
/// key, from `i` on.
pub open spec fn w0_dense(vs: Seq<ValueV>, i: int) -> W0
    decreases vs, vs.len() - i,
{
    if !(0 <= i < vs.len()) {
        w0ok(seq![])
    } else {
        let w = wv0(vs[i]);
        if w.err is Some {
            w0pre(dense_key(i), w)
        } else {
            w0pre(dense_key(i) + w.bytes, w0_dense(vs, i + 1))
        }
    }
}

/// One named element: its name as an AMF0 string, then its value.
pub open spec fn element_enc0(name: Seq<u8>, v: ValueV) -> W0 {
    w0pre(a0_string(name), wv0(v))
}

/// The body of a pass: each element followed by the container padding.
pub open spec fn body_enc0(es: Seq<(Seq<u8>, ValueV)>, i: int) -> W0
    decreases es.len() - i,
{
    if !(0 <= i < es.len()) {
        w0ok(seq![])
    } else {
        let w = element_enc0(es[i].0, es[i].1);
        if w.err is Some {
            w
        } else {
            w0pre(w.bytes + padding_bytes(), body_enc0(es, i + 1))
        }
    }
}

// ---------------------------------------------------------------------------
// Executable writers.
// ---------------------------------------------------------------------------

/// Appends one type-marker byte.
fn write_type_marker(out: &mut Vec<u8>, marker: u8)
    ensures
        final(out)@ == old(out)@ + seq![marker],
{
    out.push(marker);
    assert(out@ =~= old(out)@ + seq![marker]);
}

/// Appends the decimal digits of `n`.
fn push_decimal(out: &mut Vec<u8>, n: u64)
    ensures
        final(out)@ == old(out)@ + dec_str(n as int),
    decreases n,
{
    if n < 10 {
        out.push((n + 48) as u8);
        assert(out@ =~= old(out)@ + dec_str(n as int));
    } else {
        push_decimal(out, n / 10);
        out.push(((n % 10) + 48) as u8);
        assert(out@ =~= old(out)@ + (dec_str(n as int / 10) + seq![
            ((n as int % 10) + 48) as u8,
        ]));
    }
}

/// Writes an AMF0 string: two-byte length, then the raw bytes.
pub fn write_string(out: &mut Vec<u8>, s: &Vec<u8>)
    ensures
        final(out)@ == old(out)@ + a0_string(s@),
{
    write_be_u16(out, (s.len() % 0x10000) as u16);
    write_slice(out, s);
    assert(out@ =~= old(out)@ + a0_string(s@));
}

/// Writes an AMF0 back-reference: marker, then the two-byte index.
pub fn write_reference_element(out: &mut Vec<u8>, r: &Reference)
    ensures
        final(out)@ == old(out)@ + seq![MARKER0_REFERENCE] + be_u16_bytes(r.0),
{
    write_type_marker(out, MARKER0_REFERENCE);
    write_be_u16(out, r.0);
    assert(out@ =~= old(out)@ + seq![MARKER0_REFERENCE] + be_u16_bytes(r.0));
}

/// Writes a number: marker, then the eight big-endian bytes of the double.
pub fn write_number_element(out: &mut Vec<u8>, s: u64)
    ensures
        final(out)@ == old(out)@ + seq![MARKER0_NUMBER] + be_u64_bytes(s),
{
    write_type_marker(out, MARKER0_NUMBER);
    write_be_u64(out, s);
    assert(out@ =~= old(out)@ + seq![MARKER0_NUMBER] + be_u64_bytes(s));
}

/// Writes a boolean: marker, then one byte.
pub fn write_bool_element(out: &mut Vec<u8>, s: bool)
    ensures
        final(out)@ == old(out)@ + seq![
            MARKER0_BOOLEAN,
            if s {
                1u8
            } else {
                0u8
            },
        ],
{
    write_type_marker(out, MARKER0_BOOLEAN);
    out.push(if s { 1 } else { 0 });
    assert(out@ =~= old(out)@ + seq![
        MARKER0_BOOLEAN,
        if s {
            1u8
        } else {
            0u8
        },
    ]);
}

/// Writes a long-string body: four-byte length, then the raw bytes.
pub fn write_long_string_content(out: &mut Vec<u8>, s: &Vec<u8>)
    ensures
        final(out)@ == old(out)@ + a0_long_string(s@),
{
    write_be_u32(out, ((s.len() as u64) % 0x1_0000_0000) as u32);
    write_slice(out, s);
    assert(out@ =~= old(out)@ + a0_long_string(s@));
}

/// Writes a long string: marker, then the long-string body.
pub fn write_long_string_element(out: &mut Vec<u8>, s: &Vec<u8>)
    ensures
        final(out)@ == old(out)@ + seq![MARKER0_LONG_STRING] + a0_long_string(s@),
{
    write_type_marker(out, MARKER0_LONG_STRING);
    write_long_string_content(out, s);
    assert(out@ =~= old(out)@ + seq![MARKER0_LONG_STRING] + a0_long_string(s@));
}

/// Writes a short string: marker, then the two-byte-length string.
pub fn write_string_element(out: &mut Vec<u8>, s: &Vec<u8>)
    ensures
        final(out)@ == old(out)@ + seq![MARKER0_STRING] + a0_string(s@),
{
    write_type_marker(out, MARKER0_STRING);
    write_string(out, s);
    assert(out@ =~= old(out)@ + seq![MARKER0_STRING] + a0_string(s@));
}

/// Writes the null marker.
pub fn write_null_element(out: &mut Vec<u8>)
    ensures
        final(out)@ == old(out)@ + seq![MARKER0_NULL],
{
    write_type_marker(out, MARKER0_NULL);
}

/// Writes the undefined marker.
pub fn write_undefined_element(out: &mut Vec<u8>)
    ensures
        final(out)@ == old(out)@ + seq![MARKER0_UNDEFINED],
{
    write_type_marker(out, MARKER0_UNDEFINED);
}

/// Writes the unsupported marker.
pub fn write_unsupported_element(out: &mut Vec<u8>)
    ensures
        final(out)@ == old(out)@ + seq![MARKER0_UNSUPPORTED],
{
    write_type_marker(out, MARKER0_UNSUPPORTED);
}

/// Writes a date: marker, the double's bytes, and the two-byte timezone
/// (zero when absent).
pub fn write_date_element(out: &mut Vec<u8>, date: u64, tz: Option<u16>)
    ensures
        final(out)@ == old(out)@ + seq![MARKER0_DATE] + be_u64_bytes(date) + be_u16_bytes(
            match tz {
                Some(x) => x,
                None => 0,
            },
        ),
{
    write_type_marker(out, MARKER0_DATE);
    write_be_u64(out, date);
    let z: u16 = match tz {
        Some(x) => x,
        None => 0,
    };
    write_be_u16(out, z);
    assert(out@ =~= old(out)@ + seq![MARKER0_DATE] + be_u64_bytes(date) + be_u16_bytes(z));
}

/// Writes an XML document: marker, then the long-string body.
pub fn write_xml_element(out: &mut Vec<u8>, content: &Vec<u8>)
    ensures
        final(out)@ == old(out)@ + seq![MARKER0_XML] + a0_long_string(content@),
{
    write_type_marker(out, MARKER0_XML);
    write_long_string_content(out, content);
    assert(out@ =~= old(out)@ + seq![MARKER0_XML] + a0_long_string(content@));
}

/// Writes the elements of an object from index `i` on.
fn write_elements_from(out: &mut Vec<u8>, es: &Vec<Element>, i: usize) -> (r: Result<
    (),
    AmfError,
>)
    ensures
        ({
            let w = w0_elems(vv_elems(es@, 0), i as int);
            &&& final(out)@ == old(out)@ + w.bytes
            &&& (match r {
                Ok(()) => w.err is None,
                Err(e) => w.err == Some(e),
            })
        }),
    decreases es@, es@.len() - i,
{
    proof {
        crate::types::lemma_vv_elems_len(es@, 0);
    }
    if i >= es.len() {
        proof {
            assert(out@ =~= old(out)@ + Seq::<u8>::empty());
        }
        return Ok(());
    }
    proof {
        crate::types::lemma_vv_elems_index(es@, 0, i as int);
    }
    write_string(out, &es[i].name);
    let r1 = write_value(out, &es[i].value);
    let ghost w1 = wv0(vv(es@[i as int].value));
    match r1 {
        Err(e) => {
            proof {
                assert(out@ =~= old(out)@ + (a0_string(es@[i as int].name@) + w1.bytes));
            }
            return Err(e);
        },
        Ok(()) => {},
    }
    let r2 = write_elements_from(out, es, i + 1);
    proof {
        let w2 = w0_elems(vv_elems(es@, 0), i + 1);
        assert(out@ =~= old(out)@ + ((a0_string(es@[i as int].name@) + w1.bytes) + w2.bytes));
    }
    r2
}

/// Writes the values of a strict array from index `i` on.
fn write_values_from(out: &mut Vec<u8>, vs: &Vec<Value>, i: usize) -> (r: Result<(), AmfError>)
    ensures
        ({
            let w = w0_values(vv_seq(vs@, 0), i as int);
            &&& final(out)@ == old(out)@ + w.bytes
            &&& (match r {
                Ok(()) => w.err is None,
                Err(e) => w.err == Some(e),
            })
        }),
    decreases vs@, vs@.len() - i,
{
    proof {
        crate::types::lemma_vv_seq_len(vs@, 0);
    }
    if i >= vs.len() {
        proof {
            assert(out@ =~= old(out)@ + Seq::<u8>::empty());
        }
        return Ok(());
    }
    proof {
        crate::types::lemma_vv_seq_index(vs@, 0, i as int);
    }
    let r1 = write_value(out, &vs[i]);
    let ghost w1 = wv0(vv(vs@[i as int]));
    match r1 {
        Err(e) => {
            return Err(e);
        },
        Ok(()) => {},
    }
    let r2 = write_values_from(out, vs, i + 1);
    proof {
        let w2 = w0_values(vv_seq(vs@, 0), i + 1);
        assert(out@ =~= old(out)@ + (w1.bytes + w2.bytes));
    }
    r2
}

/// Writes the dense part of a mixed array from index `i` on, each value
/// under its decimal-string key.
fn write_dense_from(out: &mut Vec<u8>, vs: &Vec<Value>, i: usize) -> (r: Result<(), AmfError>)
    ensures
        ({
            let w = w0_dense(vv_seq(vs@, 0), i as int);
            &&& final(out)@ == old(out)@ + w.bytes
            &&& (match r {
                Ok(()) => w.err is None,
                Err(e) => w.err == Some(e),
            })
        }),
    decreases vs@, vs@.len() - i,
{
    proof {
        crate::types::lemma_vv_seq_len(vs@, 0);
    }
    if i >= vs.len() {
        proof {
            assert(out@ =~= old(out)@ + Seq::<u8>::empty());
        }
        return Ok(());
    }
    proof {
        crate::types::lemma_vv_seq_index(vs@, 0, i as int);
    }
    let mut digits: Vec<u8> = Vec::new();
    push_decimal(&mut digits, i as u64);
    write_be_u16(out, (digits.len() % 0x10000) as u16);
    write_slice(out, &digits);
    proof {
        assert(out@ =~= old(out)@ + dense_key(i as int));
    }
    let r1 = write_value(out, &vs[i]);
    let ghost w1 = wv0(vv(vs@[i as int]));
    match r1 {
        Err(e) => {
            proof {
                assert(out@ =~= old(out)@ + (dense_key(i as int) + w1.bytes));
            }
            return Err(e);
        },
        Ok(()) => {},
    }
    let r2 = write_dense_from(out, vs, i + 1);
    proof {
        let w2 = w0_dense(vv_seq(vs@, 0), i + 1);
        assert(out@ =~= old(out)@ + ((dense_key(i as int) + w1.bytes) + w2.bytes));
    }
    r2
}

/// Writes one dense element of a mixed array: its index as a
/// decimal-string key, then its value.
pub fn write_dense_element(out: &mut Vec<u8>, index: usize, element: &Value) -> (r: Result<
    (),
    AmfError,
>)
    ensures
        ({
            let w = wv0(vv(*element));
            &&& final(out)@ == old(out)@ + dense_key(index as int) + w.bytes
            &&& (match r {
                Ok(()) => w.err is None,
                Err(e) => w.err == Some(e),
            })
        }),
{
    let mut digits: Vec<u8> = Vec::new();
    push_decimal(&mut digits, index as u64);
    write_be_u16(out, (digits.len() % 0x10000) as u16);
    write_slice(out, &digits);
    proof {
        assert(out@ =~= old(out)@ + dense_key(index as int));
    }
    let r = write_value(out, element);
    proof {
        let w = wv0(vv(*element));
        assert(out@ =~= old(out)@ + dense_key(index as int) + w.bytes);
    }
    r
}

/// Writes a plain object: marker, the elements, and the end sentinel.
pub fn write_object_element(out: &mut Vec<u8>, o: &Vec<Element>) -> (r: Result<(), AmfError>)
    ensures
        ({
            let w = wv0(ValueV::Object(vv_elems(o@, 0), None));
            &&& final(out)@ == old(out)@ + w.bytes
            &&& (match r {
                Ok(()) => w.err is None,
                Err(e) => w.err == Some(e),
            })
        }),
    decreases o@, o@.len() + 1,
{
    write_type_marker(out, MARKER0_OBJECT);
    let r1 = write_elements_from(out, o, 0);
    let ghost w1 = w0_elems(vv_elems(o@, 0), 0);
    match r1 {
        Err(e) => {
            proof {
                assert(out@ =~= old(out)@ + (seq![MARKER0_OBJECT] + w1.bytes));
            }
            return Err(e);
        },
        Ok(()) => {},
    }
    write_be_u16(out, 0);
    write_type_marker(out, MARKER0_OBJECT_END);
    proof {
        assert(out@ =~= old(out)@ + (seq![MARKER0_OBJECT] + (w1.bytes + be_u16_bytes(0) + seq![
            MARKER0_OBJECT_END,
        ])));
    }
    Ok(())
}

/// Writes a typed object: marker, the class name, the elements, and the
/// end sentinel.
pub fn write_typed_object_element(out: &mut Vec<u8>, name: &Vec<u8>, elements: &Vec<Element>) -> (r:
    Result<(), AmfError>)
    ensures
        ({
            let w = w0_elems(vv_elems(elements@, 0), 0);
            let head = seq![MARKER0_TYPED_OBJECT] + a0_string(name@);
            &&& (match r {
                Ok(()) => w.err is None && final(out)@ == old(out)@ + head + w.bytes
                    + be_u16_bytes(0) + seq![MARKER0_OBJECT_END],
                Err(e) => w.err == Some(e) && final(out)@ == old(out)@ + head + w.bytes,
            })
        }),
    decreases elements@, elements@.len() + 1,
{
    write_type_marker(out, MARKER0_TYPED_OBJECT);
    write_string(out, name);
    let r1 = write_elements_from(out, elements, 0);
    let ghost w1 = w0_elems(vv_elems(elements@, 0), 0);
    match r1 {
        Err(e) => {
            proof {
                assert(out@ =~= old(out)@ + (seq![MARKER0_TYPED_OBJECT] + a0_string(name@))
                    + w1.bytes);
            }
            return Err(e);
        },
        Ok(()) => {},
    }
    write_be_u16(out, 0);
    write_type_marker(out, MARKER0_OBJECT_END);
    proof {
        assert(out@ =~= old(out)@ + (seq![MARKER0_TYPED_OBJECT] + a0_string(name@)) + w1.bytes
            + be_u16_bytes(0) + seq![MARKER0_OBJECT_END]);
    }
    Ok(())
}

/// Writes a strict array: marker, the four-byte count, and the elements.
pub fn write_strict_array_element(out: &mut Vec<u8>, elements: &Vec<Value>) -> (r: Result<
    (),
    AmfError,
>)
    ensures
        ({
            let w = wv0(ValueV::StrictArray(vv_seq(elements@, 0)));
            &&& final(out)@ == old(out)@ + w.bytes
            &&& (match r {
                Ok(()) => w.err is None,
                Err(e) => w.err == Some(e),
            })
        }),
    decreases elements@, elements@.len() + 1,
{
    proof {
        crate::types::lemma_vv_seq_len(elements@, 0);
    }
    write_type_marker(out, MARKER0_ARRAY);
    write_be_u32(out, ((elements.len() as u64) % 0x1_0000_0000) as u32);
    let r = write_values_from(out, elements, 0);
    proof {
        let wl = w0_values(vv_seq(elements@, 0), 0);
        assert(out@ =~= old(out)@ + ((seq![MARKER0_ARRAY] + be_u32_bytes(
            ((elements@.len() % 0x1_0000_0000) as u32),
        )) + wl.bytes));
    }
    r
}

/// Writes a mixed (ECMA) array: marker, the declared length, the dense
/// part under decimal keys, the associative elements, and the end
/// sentinel.
pub fn write_mixed_array(
    out: &mut Vec<u8>,
    dense: &Vec<Value>,
    elements: &Vec<Element>,
    length: u32,
) -> (r: Result<(), AmfError>)
    ensures
        ({
            let w = wv0(ValueV::ECMAArray(vv_seq(dense@, 0), vv_elems(elements@, 0), length));
            &&& final(out)@ == old(out)@ + w.bytes
            &&& (match r {
                Ok(()) => w.err is None,
                Err(e) => w.err == Some(e),
            })
        }),
{
    write_type_marker(out, MARKER0_MIXED_ARRAY_START);
    write_be_u32(out, length);
    let ghost head = seq![MARKER0_MIXED_ARRAY_START] + be_u32_bytes(length);
    let r1 = write_dense_from(out, dense, 0);
    let ghost wd = w0_dense(vv_seq(dense@, 0), 0);
    match r1 {
        Err(e) => {
            proof {
                assert(out@ =~= old(out)@ + (head + wd.bytes));
            }
            return Err(e);
        },
        Ok(()) => {},
    }
    let r2 = write_elements_from(out, elements, 0);
    let ghost wa = w0_elems(vv_elems(elements@, 0), 0);
    match r2 {
        Err(e) => {
            proof {
                assert(out@ =~= old(out)@ + ((head + wd.bytes) + wa.bytes));
            }
            return Err(e);
        },
        Ok(()) => {},
    }
    write_be_u16(out, 0);
    write_type_marker(out, MARKER0_OBJECT_END);
    proof {
        assert(out@ =~= old(out)@ + (head + wd.bytes + wa.bytes + be_u16_bytes(0) + seq![
            MARKER0_OBJECT_END,
        ]));
    }
    Ok(())
}

/// Writes any value under the AMF0 grammar.  Values with no AMF0
/// representation are written as the unsupported marker; an embedded AMF3
/// value is delegated to a fresh AMF3 engine with empty tables.
#[verifier::rlimit(100)]
pub fn write_value(out: &mut Vec<u8>, element: &Value) -> (r: Result<(), AmfError>)
    ensures
        ({
            let w = wv0(vv(*element));
            &&& final(out)@ == old(out)@ + w.bytes
            &&& (match r {
                Ok(()) => w.err is None,
                Err(e) => w.err == Some(e),
            })
        }),
    decreases *element, 0int,
{
    match element {
        Value::Number(n) => {
            write_number_element(out, *n);
            Ok(())
        },
        Value::Bool(b) => {
            write_bool_element(out, *b);
            Ok(())
        },
        Value::String(s) => {
            if s.len() > 65535 {
                write_long_string_element(out, s);
            } else {
                write_string_element(out, s);
            }
            proof {
                assert(out@ =~= old(out)@ + wv0(vv(*element)).bytes);
            }
            Ok(())
        },
        Value::Object(_, elements, class_def) => {
            match class_def {
                Some(def) => {
                    let r = write_typed_object_element(out, &def.name, elements);
                    proof {
                        let w1 = w0_elems(vv_elems(elements@, 0), 0);
                        if w1.err is None {
                            assert(out@ =~= old(out)@ + ((seq![MARKER0_TYPED_OBJECT] + a0_string(
                                def.name@,
                            )) + (w1.bytes + be_u16_bytes(0) + seq![MARKER0_OBJECT_END])));
                        } else {
                            assert(out@ =~= old(out)@ + ((seq![MARKER0_TYPED_OBJECT] + a0_string(
                                def.name@,
                            )) + w1.bytes));
                        }
                    }
                    r
                },
                None => write_object_element(out, elements),
            }
        },
        Value::Null => {
            write_null_element(out);
            Ok(())
        },
        Value::Undefined => {
            write_undefined_element(out);
            Ok(())
        },
        Value::StrictArray(_, a) => write_strict_array_element(out, a),
        Value::Date(d, tz) => {
            write_date_element(out, *d, *tz);
            proof {
                assert(out@ =~= old(out)@ + wv0(vv(*element)).bytes);
            }
            Ok(())
        },
        Value::Unsupported => {
            write_unsupported_element(out);
            Ok(())
        },
        Value::XML(x, _string) => {
            write_xml_element(out, x);
            proof {
                assert(out@ =~= old(out)@ + wv0(vv(*element)).bytes);
            }
            Ok(())
        },
        Value::ECMAArray(_, dense, elems, elems_length) => {
            write_type_marker(out, MARKER0_MIXED_ARRAY_START);
            write_be_u32(out, *elems_length);
            let ghost head = seq![MARKER0_MIXED_ARRAY_START] + be_u32_bytes(*elems_length);
            let r1 = write_dense_from(out, dense, 0);
            let ghost wd = w0_dense(vv_seq(dense@, 0), 0);
            match r1 {
                Err(e) => {
                    proof {
                        assert(out@ =~= old(out)@ + (head + wd.bytes));
                    }
                    return Err(e);
                },
                Ok(()) => {},
            }
            let r2 = write_elements_from(out, elems, 0);
            let ghost wa = w0_elems(vv_elems(elems@, 0), 0);
            match r2 {
                Err(e) => {
                    proof {
                        assert(out@ =~= old(out)@ + ((head + wd.bytes) + wa.bytes));
                    }
                    return Err(e);
                },
                Ok(()) => {},
            }
            write_be_u16(out, 0);
            write_type_marker(out, MARKER0_OBJECT_END);
            proof {
                assert(out@ =~= old(out)@ + (head + wd.bytes + wa.bytes + be_u16_bytes(0) + seq![
                    MARKER0_OBJECT_END,
                ]));
            }
            Ok(())
        },
        Value::AMF3(e) => {
            write_type_marker(out, MARKER0_AMF3);
            let mut encoder = AMF3Encoder::new(NoExternalEncoders);
            let r = encoder.write_value_element(out, e);
            proof {
                assert(seq![vv(**e)][0] == vv(**e));
                let w = wv(NoExternalEncoders, empty_tables(), vv(**e));
                assert(out@ =~= old(out)@ + (seq![MARKER0_AMF3] + w.bytes));
            }
            r
        },
        Value::Reference(r) => {
            write_reference_element(out, r);
            proof {
                assert(out@ =~= old(out)@ + (seq![MARKER0_REFERENCE] + be_u16_bytes(r.0)));
            }
            Ok(())
        },
        _ => {
            write_unsupported_element(out);
            proof {
                assert(out@ =~= old(out)@ + wv0(vv(*element)).bytes);
            }
            Ok(())
        },
    }
}

/// Writes one named element: its name as an AMF0 string, then its value.
pub fn write_element(out: &mut Vec<u8>, element: &Element) -> (r: Result<(), AmfError>)
    ensures
        ({
            let w = element_enc0(element.name@, vv(element.value));
            &&& final(out)@ == old(out)@ + w.bytes
            &&& (match r {
                Ok(()) => w.err is None,
                Err(e) => w.err == Some(e),
            })
        }),
{
    write_string(out, &element.name);
    let r = write_value(out, &element.value);
    proof {
        let w1 = wv0(vv(element.value));
        assert(out@ =~= old(out)@ + (a0_string(element.name@) + w1.bytes));
    }
    r
}

/// Writes one element and the container padding after it.
pub fn write_element_and_padding(out: &mut Vec<u8>, element: &Element) -> (r: Result<
    (),
    AmfError,
>)
    ensures
        ({
            let w = element_enc0(element.name@, vv(element.value));
            &&& (match r {
                Ok(()) => w.err is None && final(out)@ == old(out)@ + w.bytes + padding_bytes(),
                Err(e) => w.err == Some(e) && final(out)@ == old(out)@ + w.bytes,
            })
        }),
{
    let r = write_element(out, element);
    match r {
        Ok(()) => {
            out.push(0u8);
            proof {
                let w = element_enc0(element.name@, vv(element.value));
                assert(out@ =~= old(out)@ + w.bytes + padding_bytes());
            }
            Ok(())
        },
        Err(e) => Err(e),
    }
}

/// Writes the body of one pass: each element followed by the padding.
pub fn write_body(out: &mut Vec<u8>, elements: &Vec<Element>) -> (r: Result<(), AmfError>)
    ensures
        ({
            let w = body_enc0(vv_elems(elements@, 0), 0);
            &&& final(out)@ == old(out)@ + w.bytes
            &&& (match r {
                Ok(()) => w.err is None,
                Err(e) => w.err == Some(e),
            })
        }),
{
    write_body_from(out, elements, 0)
}

/// Writes the body elements from index `i` on.
fn write_body_from(out: &mut Vec<u8>, elements: &Vec<Element>, i: usize) -> (r: Result<
    (),
    AmfError,
>)
    ensures
        ({
            let w = body_enc0(vv_elems(elements@, 0), i as int);
            &&& final(out)@ == old(out)@ + w.bytes
            &&& (match r {
                Ok(()) => w.err is None,
                Err(e) => w.err == Some(e),
            })
        }),
    decreases elements.len() - i,
{
    proof {
        crate::types::lemma_vv_elems_len(elements@, 0);
    }
    if i >= elements.len() {
        proof {
            assert(out@ =~= old(out)@ + Seq::<u8>::empty());
        }
        return Ok(());
    }
    proof {
        crate::types::lemma_vv_elems_index(elements@, 0, i as int);
    }
    let r1 = write_element_and_padding(out, &elements[i]);
    let ghost w1 = element_enc0(elements@[i as int].name@, vv(elements@[i as int].value));
    match r1 {
        Err(e) => {
            return Err(e);
        },
        Ok(()) => {},
    }
    let r2 = write_body_from(out, elements, i + 1);
    proof {
        let w2 = body_enc0(vv_elems(elements@, 0), i + 1);
        assert(out@ =~= old(out)@ + ((w1.bytes + padding_bytes()) + w2.bytes));
    }
    r2
}

} // verus!
