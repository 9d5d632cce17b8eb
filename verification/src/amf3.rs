//! The AMF3 engine: the serializer for the AMF3 wire grammar, with the three
//! reference tables (byte strings, class traits, objects) that give AMF3 its
//! reference compression, and the externalizable-type encoder registry.
//!
//! Every function's output is pinned by the spec functions below, which state
//! the grammar over the ghost [`Tables`] state: each returns the bytes
//! emitted, the tables after the write, and the error, if any, that aborted
//! the pass.

use vstd::prelude::*;
use crate::types::{
    AmfError, ClassAttributes, ClassDefV, ClassDefinition, Element, ObjectId, Value, ValueV,
    bytes_eq, class_def_eq, clone_bytes, clone_class_def, clone_elements, clone_i32s,
    clone_opt_class_def, clone_pairs, clone_u32s, clone_u64s, clone_values, lemma_table_index, lemma_table_index_first,
    table_index, value_eq, view_class_def, view_opt_class_def, vv, vv_elems, vv_pairs, vv_seq,
};
use crate::u29::{u29_bytes, u29_enc, write_int_bytes, write_u29_word};
use crate::wire::{
    be_i32_seq, be_u32_seq, be_u64_bytes, be_u64_seq, flag_byte, write_be_u64, write_be_i32_seq,
    write_be_u32_seq, write_be_u64_seq, write_slice,
};

verus! {

// AMF3 type markers.
pub const MARKER_UNDEFINED: u8 = 0x00;
pub const MARKER_NULL: u8 = 0x01;
pub const MARKER_FALSE: u8 = 0x02;
pub const MARKER_TRUE: u8 = 0x03;
pub const MARKER_INTEGER: u8 = 0x04;
pub const MARKER_NUMBER: u8 = 0x05;
pub const MARKER_STRING: u8 = 0x06;
pub const MARKER_XML: u8 = 0x07;
pub const MARKER_DATE: u8 = 0x08;
pub const MARKER_ARRAY: u8 = 0x09;
pub const MARKER_OBJECT: u8 = 0x0a;
pub const MARKER_XML_STRING: u8 = 0x0b;
pub const MARKER_BYTE_ARRAY: u8 = 0x0c;
pub const MARKER_VECTOR_INT: u8 = 0x0d;
pub const MARKER_VECTOR_UINT: u8 = 0x0e;
pub const MARKER_VECTOR_DOUBLE: u8 = 0x0f;
pub const MARKER_VECTOR_OBJECT: u8 = 0x10;
pub const MARKER_DICTIONARY: u8 = 0x11;

// ---------------------------------------------------------------------------
// Length-or-reference words.  A literal size has low bit 1, a reference
// index low bit 0; both travel as a U29, so anything past 29 bits is cut.
// ---------------------------------------------------------------------------

/// The U29 word of a literal size `n`.
pub open spec fn size_word(n: u64) -> u32 {
    ((((n << 1) | 1) & 0x1fff_ffff) as u32)
}

/// The U29 word of a reference index `i` (strings and objects).
pub open spec fn ref_word(i: u64) -> u32 {
    (((i << 1) & 0x1fff_ffff) as u32)
}

/// The U29 word of a trait-reference index `i`: reference at the trait
/// level, inside a literal at the object level.
pub open spec fn trait_ref_word(i: u64) -> u32 {
    ((((i << 2) | 1) & 0x1fff_ffff) as u32)
}

/// The U29 word of a full trait definition: property count, encoding flags
/// (bit 0 external, bit 1 dynamic), and the two literal bits.
pub open spec fn trait_full_word(props: u64, attrs: ClassAttributes) -> u32 {
    let enc: u64 = (if attrs.external {
        1u64
    } else {
        0u64
    }) | (if attrs.dynamic {
        2u64
    } else {
        0u64
    });
    ((((((((props << 2) | enc) << 1) | 1) << 1) | 1) & 0x1fff_ffff) as u32)
}

/// The bytes of the empty-string sentinel that terminates dynamic sections
/// and associative parts.
pub open spec fn term_bytes() -> Seq<u8> {
    u29_bytes(size_word(0))
}

// ---------------------------------------------------------------------------
// The ghost reference-table state and write outcomes.
// ---------------------------------------------------------------------------

/// The three reference tables of one AMF3 pass, in write order.
#[verifier::ext_equal]
pub struct Tables {
    pub strings: Seq<Seq<u8>>,
    pub traits: Seq<ClassDefV>,
    pub objects: Seq<ValueV>,
}

/// The tables at the start of a pass.
pub open spec fn empty_tables() -> Tables {
    Tables { strings: seq![], traits: seq![], objects: seq![] }
}

/// The outcome of a write: the bytes emitted, the tables after them, and
/// the error that aborted the pass, if any.
#[verifier::ext_equal]
pub struct WOut {
    pub bytes: Seq<u8>,
    pub t: Tables,
    pub err: Option<AmfError>,
}

/// A successful outcome.
pub open spec fn wok(bytes: Seq<u8>, t: Tables) -> WOut {
    WOut { bytes, t, err: None }
}

/// An aborting outcome: nothing written by the failing step.
pub open spec fn wfail(t: Tables, e: AmfError) -> WOut {
    WOut { bytes: seq![], t, err: Some(e) }
}

/// `w` with `pre` in front of its bytes.
pub open spec fn wpre(pre: Seq<u8>, w: WOut) -> WOut {
    WOut { bytes: pre + w.bytes, t: w.t, err: w.err }
}

// ---------------------------------------------------------------------------
// The externalizable-type registry.
// ---------------------------------------------------------------------------

/// A registry of custom encoders for externalizable class names.  The
/// payload of an `external` trait is opaque to the engine and delegated
/// entirely to the encoder registered for its class name.
pub trait ExternalEncoderRegistry: Sized {
    /// Whether an encoder is registered for `name`.
    spec fn spec_has(&self, name: Seq<u8>) -> bool;

    /// The payload bytes the registered encoder produces.
    spec fn spec_encode(
        &self,
        name: Seq<u8>,
        elements: Seq<(Seq<u8>, ValueV)>,
        def: ClassDefV,
    ) -> Seq<u8>;

    /// Whether an encoder is registered for this class name.
    fn has_encoder(&self, name: &Vec<u8>) -> (r: bool)
        ensures
            r == self.spec_has(name@),
    ;

    /// The externalized payload for one object of a registered class.
    fn encode(&self, name: &Vec<u8>, elements: &Vec<Element>, def: &ClassDefinition) -> (r: Vec<
        u8,
    >)
        requires
            self.spec_has(name@),
        ensures
            r@ == self.spec_encode(name@, vv_elems(elements@, 0), view_class_def(*def)),
    ;
}

/// The empty registry: no class name is registered.
pub struct NoExternalEncoders;

impl ExternalEncoderRegistry for NoExternalEncoders {
    open spec fn spec_has(&self, name: Seq<u8>) -> bool {
        false
    }

    open spec fn spec_encode(
        &self,
        name: Seq<u8>,
        elements: Seq<(Seq<u8>, ValueV)>,
        def: ClassDefV,
    ) -> Seq<u8> {
        seq![]
    }

    fn has_encoder(&self, name: &Vec<u8>) -> (r: bool) {
        false
    }

    fn encode(&self, name: &Vec<u8>, elements: &Vec<Element>, def: &ClassDefinition) -> (r: Vec<
        u8,
    >) {
        Vec::new()
    }
}

/// A registry with a single registered class whose payload is a fixed byte
/// string: the smallest useful registry, and a model for richer ones.
pub struct FixedPayloadEncoder {
    pub class_name: Vec<u8>,
    pub payload: Vec<u8>,
}

impl ExternalEncoderRegistry for FixedPayloadEncoder {
    open spec fn spec_has(&self, name: Seq<u8>) -> bool {
        name == self.class_name@
    }

    open spec fn spec_encode(
        &self,
        name: Seq<u8>,
        elements: Seq<(Seq<u8>, ValueV)>,
        def: ClassDefV,
    ) -> Seq<u8> {
        self.payload@
    }

    fn has_encoder(&self, name: &Vec<u8>) -> (r: bool) {
        bytes_eq(name, &self.class_name)
    }

    fn encode(&self, name: &Vec<u8>, elements: &Vec<Element>, def: &ClassDefinition) -> (r: Vec<
        u8,
    >) {
        clone_bytes(&self.payload)
    }
}

// ---------------------------------------------------------------------------
// The AMF3 grammar as spec functions over the table state.
// ---------------------------------------------------------------------------

/// The class trait an object without one is encoded under.
pub open spec fn default_class_def() -> ClassDefV {
    ClassDefV {
        name: seq![],
        attributes: ClassAttributes { external: false, dynamic: false },
        static_properties: seq![],
    }
}

/// A byte string: the empty string is always the literal size 0 and never
/// touches the table; otherwise a table hit is a pure reference index and a
/// miss writes the literal size, the raw bytes, and stores the string.
pub open spec fn byte_str_enc(t: Tables, s: Seq<u8>) -> (Seq<u8>, Tables) {
    if s.len() == 0 {
        (term_bytes(), t)
    } else {
        match table_index(t.strings, s) {
            Some(i) => (u29_bytes(ref_word(i as u64)), t),
            None => (
                u29_bytes(size_word(s.len() as u64)) + s,
                Tables { strings: t.strings.push(s), ..t },
            ),
        }
    }
}

/// A full trait definition body: class name, then each static property
/// name, all through the string table.
pub open spec fn class_def_enc(t: Tables, def: ClassDefV) -> (Seq<u8>, Tables) {
    let (nb, t1) = byte_str_enc(t, def.name);
    let (pb, t2) = prop_names_enc(t1, def.static_properties, 0);
    (nb + pb, t2)
}

/// The static property names of a trait from index `i` on.
pub open spec fn prop_names_enc(t: Tables, props: Seq<Seq<u8>>, i: int) -> (Seq<u8>, Tables)
    decreases props.len() - i,
{
    if !(0 <= i < props.len()) {
        (seq![], t)
    } else {
        let (b1, t1) = byte_str_enc(t, props[i]);
        let (b2, t2) = prop_names_enc(t1, props, i + 1);
        (b1 + b2, t2)
    }
}

/// One value of the AMF3 grammar.
pub open spec fn wv<E: ExternalEncoderRegistry>(reg: E, t: Tables, v: ValueV) -> WOut
    decreases v, 0int, 0int,
{
    match v {
        ValueV::Number(b) => wok(seq![MARKER_NUMBER] + be_u64_bytes(b), t),
        ValueV::Bool(b) => wok(
            seq![
                if b {
                    MARKER_TRUE
                } else {
                    MARKER_FALSE
                },
            ],
            t,
        ),
        ValueV::String(s) => {
            let (bs, t1) = byte_str_enc(t, s);
            wok(seq![MARKER_STRING] + bs, t1)
        },
        ValueV::Object(ch, cd) => wv_object(reg, t, ch, ch, cd),
        ValueV::Null => wok(seq![MARKER_NULL], t),
        ValueV::Undefined => wok(seq![MARKER_UNDEFINED], t),
        ValueV::ECMAArray(dense, assoc, _len) => {
            let head = seq![MARKER_ARRAY] + u29_bytes(size_word(dense.len() as u64));
            let w1 = wv_assoc(reg, t, assoc, 0);
            if w1.err is Some {
                wpre(head, w1)
            } else {
                let w2 = wv_list(reg, w1.t, dense, 0);
                wpre(head + w1.bytes + term_bytes(), w2)
            }
        },
        ValueV::StrictArray(ch) => {
            if ch.len() == 0 {
                wok(seq![MARKER_ARRAY] + u29_bytes(size_word(0)) + term_bytes(), t)
            } else {
                let head = seq![MARKER_ARRAY] + u29_bytes(size_word(ch.len() as u64))
                    + term_bytes();
                wpre(head, wv_list(reg, t, ch, 0))
            }
        },
        ValueV::Date(b, _tz) => {
            let key = ValueV::Date(b, None);
            match table_index(t.objects, key) {
                Some(i) => wok(seq![MARKER_DATE] + u29_bytes(ref_word(i as u64)), t),
                None => wok(
                    seq![MARKER_DATE] + u29_bytes(size_word(0)) + be_u64_bytes(b),
                    Tables { objects: t.objects.push(key), ..t },
                ),
            }
        },
        ValueV::Unsupported => wok(seq![MARKER_UNDEFINED], t),
        ValueV::XML(s, string) => {
            let marker = if string {
                MARKER_XML_STRING
            } else {
                MARKER_XML
            };
            wok(seq![marker] + u29_bytes(size_word(s.len() as u64)) + s, t)
        },
        ValueV::AMF3(inner) => {
            if inner.len() == 1 {
                wv(reg, t, inner[0])
            } else {
                wfail(t, AmfError::UnsupportedValue)
            }
        },
        ValueV::Integer(i) => wok(seq![MARKER_INTEGER] + u29_enc(i), t),
        ValueV::ByteArray(s) => {
            match table_index(t.objects, v) {
                Some(i) => wok(seq![MARKER_BYTE_ARRAY] + u29_bytes(ref_word(i as u64)), t),
                None => wok(
                    seq![MARKER_BYTE_ARRAY] + u29_bytes(size_word(s.len() as u64)) + s,
                    Tables { objects: t.objects.push(v), ..t },
                ),
            }
        },
        ValueV::VectorInt(items, fixed) => {
            match table_index(t.objects, v) {
                Some(i) => wok(seq![MARKER_VECTOR_INT] + u29_bytes(ref_word(i as u64)), t),
                None => wok(
                    seq![MARKER_VECTOR_INT] + u29_bytes(size_word(items.len() as u64)) + seq![
                        flag_byte(fixed),
                    ] + be_i32_seq(items),
                    Tables { objects: t.objects.push(v), ..t },
                ),
            }
        },
        ValueV::VectorUInt(items, fixed) => {
            match table_index(t.objects, v) {
                Some(i) => wok(seq![MARKER_VECTOR_UINT] + u29_bytes(ref_word(i as u64)), t),
                None => wok(
                    seq![MARKER_VECTOR_UINT] + u29_bytes(size_word(items.len() as u64)) + seq![
                        flag_byte(fixed),
                    ] + be_u32_seq(items),
                    Tables { objects: t.objects.push(v), ..t },
                ),
            }
        },
        ValueV::VectorDouble(items, fixed) => {
            match table_index(t.objects, v) {
                Some(i) => wok(seq![MARKER_VECTOR_DOUBLE] + u29_bytes(ref_word(i as u64)), t),
                None => wok(
                    seq![MARKER_VECTOR_DOUBLE] + u29_bytes(size_word(items.len() as u64)) + seq![
                        flag_byte(fixed),
                    ] + be_u64_seq(items),
                    Tables { objects: t.objects.push(v), ..t },
                ),
            }
        },
        ValueV::VectorObject(items, tname, fixed) => {
            match table_index(t.objects, v) {
                Some(i) => wok(seq![MARKER_VECTOR_OBJECT] + u29_bytes(ref_word(i as u64)), t),
                None => {
                    let t1 = Tables { objects: t.objects.push(v), ..t };
                    let (nb, t2) = byte_str_enc(t1, tname);
                    let head = seq![MARKER_VECTOR_OBJECT] + u29_bytes(
                        size_word(items.len() as u64),
                    ) + seq![flag_byte(fixed)] + nb;
                    wpre(head, wv_list(reg, t2, items, 0))
                },
            }
        },
        ValueV::Dictionary(pairs, weak) => {
            let found = table_index(t.objects, v);
            let t1 = Tables { objects: t.objects.push(v), ..t };
            match found {
                Some(i) => wok(seq![MARKER_DICTIONARY] + u29_bytes(ref_word(i as u64)), t1),
                None => {
                    let head = seq![MARKER_DICTIONARY] + u29_bytes(size_word(pairs.len() as u64))
                        + seq![flag_byte(weak)];
                    wpre(head, wv_dict(reg, t1, pairs, 0))
                },
            }
        },
        ValueV::Custom(custom, regular, cd) => wv_object(reg, t, regular, custom, cd),
        ValueV::Reference(_) => wfail(t, AmfError::UnsupportedValue),
        ValueV::Amf3ObjectReference(_) => wfail(t, AmfError::UnsupportedValue),
    }
}

/// An object: a failing registration check first (nothing written), then
/// either a pure object reference, or a trait section (reference or full
/// definition) and the body.  The object, and on the full path its trait,
/// are stored before any child is visited.
pub open spec fn wv_object<E: ExternalEncoderRegistry>(
    reg: E,
    t: Tables,
    children: Seq<(Seq<u8>, ValueV)>,
    payload: Seq<(Seq<u8>, ValueV)>,
    cd: Option<ClassDefV>,
) -> WOut
    decreases children, 3int, 0int,
{
    let def = match cd {
        Some(d) => d,
        None => default_class_def(),
    };
    if def.attributes.external && !reg.spec_has(def.name) {
        wfail(t, AmfError::UnsupportedExternalType)
    } else {
        let key = ValueV::Object(children, cd);
        match table_index(t.objects, key) {
            Some(i) => wok(seq![MARKER_OBJECT] + u29_bytes(ref_word(i as u64)), t),
            None => {
                let t1 = Tables { objects: t.objects.push(key), ..t };
                match table_index(t1.traits, def) {
                    Some(ti) => {
                        let head = seq![MARKER_OBJECT] + u29_bytes(trait_ref_word(ti as u64));
                        wpre(head, wv_obj_body(reg, t1, children, payload, def))
                    },
                    None => {
                        let t2 = Tables { traits: t1.traits.push(def), ..t1 };
                        let (db, t3) = class_def_enc(t2, def);
                        let head = seq![MARKER_OBJECT] + u29_bytes(
                            trait_full_word(def.static_properties.len() as u64, def.attributes),
                        ) + db;
                        wpre(head, wv_obj_body(reg, t3, children, payload, def))
                    },
                }
            },
        }
    }
}

/// An object body: an external payload from the registry (a hard failure,
/// with nothing written, when the class name is unregistered), or the
/// static property values, with the dynamic name/value section and its
/// sentinel when the trait is dynamic.
pub open spec fn wv_obj_body<E: ExternalEncoderRegistry>(
    reg: E,
    t: Tables,
    children: Seq<(Seq<u8>, ValueV)>,
    payload: Seq<(Seq<u8>, ValueV)>,
    def: ClassDefV,
) -> WOut
    decreases children, 2int, 0int,
{
    if def.attributes.external {
        if !reg.spec_has(def.name) {
            wfail(t, AmfError::UnsupportedExternalType)
        } else {
            wok(reg.spec_encode(def.name, payload, def), t)
        }
    } else {
        let w1 = wv_static(reg, t, def.static_properties, children, 0);
        if !def.attributes.dynamic {
            w1
        } else if w1.err is Some {
            w1
        } else {
            let w2 = wv_dyn(reg, w1.t, def.static_properties, children, 0);
            if w2.err is Some {
                wpre(w1.bytes, w2)
            } else {
                WOut { bytes: w1.bytes + w2.bytes + term_bytes(), t: w2.t, err: None }
            }
        }
    }
}

/// The index of the first element of `es` named `name`, if any.
pub open spec fn elem_index(es: Seq<(Seq<u8>, ValueV)>, name: Seq<u8>) -> Option<int>
    decreases es.len(),
{
    if es.len() == 0 {
        None
    } else if es[0].0 == name {
        Some(0)
    } else {
        match elem_index(es.subrange(1, es.len() as int), name) {
            Some(i) => Some(i + 1),
            None => None,
        }
    }
}

/// `elem_index` returns the first element bearing the name: a hit is in
/// range, named `name`, and preceded only by other names; a miss means no
/// element bears it.
pub proof fn lemma_elem_index(es: Seq<(Seq<u8>, ValueV)>, name: Seq<u8>)
    ensures
        match elem_index(es, name) {
            Some(i) => 0 <= i < es.len() && es[i].0 == name && (forall|j: int|
                0 <= j < i ==> es[j].0 != name),
            None => forall|j: int| 0 <= j < es.len() ==> es[j].0 != name,
        },
    decreases es.len(),
{
    if es.len() > 0 && es[0].0 != name {
        let rest = es.subrange(1, es.len() as int);
        lemma_elem_index(rest, name);
        assert forall|j: int| 1 <= j < es.len() implies es[j] == rest[j - 1] by {}
        match elem_index(rest, name) {
            Some(i) => {
                assert(elem_index(es, name) == Some(i + 1));
                assert(es[i + 1] == rest[i]);
                assert forall|j: int| 0 <= j < i + 1 implies es[j].0 != name by {
                    if j > 0 {
                        assert(es[j] == rest[j - 1]);
                    }
                }
            },
            None => {
                assert forall|j: int| 0 <= j < es.len() implies es[j].0 != name by {
                    if j > 0 {
                        assert(es[j] == rest[j - 1]);
                    }
                }
            },
        }
    }
}

/// A first name match at `i` pins `elem_index` to `Some(i)`.
pub proof fn lemma_elem_index_first(es: Seq<(Seq<u8>, ValueV)>, name: Seq<u8>, i: int)
    requires
        0 <= i < es.len(),
        es[i].0 == name,
        forall|j: int| 0 <= j < i ==> es[j].0 != name,
    ensures
        elem_index(es, name) == Some(i),
{
    lemma_elem_index(es, name);
    match elem_index(es, name) {
        Some(k) => {
            if k < i {
                assert(es[k].0 != name);
            } else if k > i {
                assert(es[i].0 != name);
            }
        },
        None => {
            assert(es[i].0 != name);
        },
    }
}

/// The static property values, one per property of the trait, in trait
/// declaration order from property index `i` on: each property's value is
/// the first element of `es` bearing its name, and a property with no
/// element is skipped.
pub open spec fn wv_static<E: ExternalEncoderRegistry>(
    reg: E,
    t: Tables,
    props: Seq<Seq<u8>>,
    es: Seq<(Seq<u8>, ValueV)>,
    i: int,
) -> WOut
    decreases es, 1int, props.len() - i,
        via wv_static_decreases::<E>
{
    if !(0 <= i < props.len()) {
        wok(seq![], t)
    } else {
        match elem_index(es, props[i]) {
            Some(k) => {
                let w = wv(reg, t, es[k].1);
                if w.err is Some {
                    w
                } else {
                    wpre(w.bytes, wv_static(reg, w.t, props, es, i + 1))
                }
            },
            None => wv_static(reg, t, props, es, i + 1),
        }
    }
}

#[via_fn]
proof fn wv_static_decreases<E: ExternalEncoderRegistry>(
    reg: E,
    t: Tables,
    props: Seq<Seq<u8>>,
    es: Seq<(Seq<u8>, ValueV)>,
    i: int,
) {
    if 0 <= i < props.len() {
        lemma_elem_index(es, props[i]);
    }
}

/// The name/value pairs of the elements whose names are not static
/// properties, from index `i` on.
pub open spec fn wv_dyn<E: ExternalEncoderRegistry>(
    reg: E,
    t: Tables,
    props: Seq<Seq<u8>>,
    es: Seq<(Seq<u8>, ValueV)>,
    i: int,
) -> WOut
    decreases es, 1int, es.len() - i,
{
    if !(0 <= i < es.len()) {
        wok(seq![], t)
    } else if !props.contains(es[i].0) {
        let (nb, t1) = byte_str_enc(t, es[i].0);
        let w = wv(reg, t1, es[i].1);
        if w.err is Some {
            wpre(nb, w)
        } else {
            wpre(nb + w.bytes, wv_dyn(reg, w.t, props, es, i + 1))
        }
    } else {
        wv_dyn(reg, t, props, es, i + 1)
    }
}

/// All elements as name/value pairs, from index `i` on (the associative
/// part of an array).
pub open spec fn wv_assoc<E: ExternalEncoderRegistry>(
    reg: E,
    t: Tables,
    es: Seq<(Seq<u8>, ValueV)>,
    i: int,
) -> WOut
    decreases es, 1int, es.len() - i,
{
    if !(0 <= i < es.len()) {
        wok(seq![], t)
    } else {
        let (nb, t1) = byte_str_enc(t, es[i].0);
        let w = wv(reg, t1, es[i].1);
        if w.err is Some {
            wpre(nb, w)
        } else {
            wpre(nb + w.bytes, wv_assoc(reg, w.t, es, i + 1))
        }
    }
}

/// The values of a dense part or vector, in order, from index `i` on.
pub open spec fn wv_list<E: ExternalEncoderRegistry>(
    reg: E,
    t: Tables,
    vs: Seq<ValueV>,
    i: int,
) -> WOut
    decreases vs, 1int, vs.len() - i,
{
    if !(0 <= i < vs.len()) {
        wok(seq![], t)
    } else {
        let w = wv(reg, t, vs[i]);
        if w.err is Some {
            w
        } else {
            wpre(w.bytes, wv_list(reg, w.t, vs, i + 1))
        }
    }
}

/// The key/value pairs of a dictionary, interleaved, from index `i` on.
pub open spec fn wv_dict<E: ExternalEncoderRegistry>(
    reg: E,
    t: Tables,
    ps: Seq<(ValueV, ValueV)>,
    i: int,
) -> WOut
    decreases ps, 1int, ps.len() - i,
{
    if !(0 <= i < ps.len()) {
        wok(seq![], t)
    } else {
        let wk = wv(reg, t, ps[i].0);
        if wk.err is Some {
            wk
        } else {
            let wx = wv(reg, wk.t, ps[i].1);
            if wx.err is Some {
                wpre(wk.bytes, wx)
            } else {
                wpre(wk.bytes + wx.bytes, wv_dict(reg, wx.t, ps, i + 1))
            }
        }
    }
}

/// One named element: its name as a byte string, then its value.
pub open spec fn element_enc<E: ExternalEncoderRegistry>(
    reg: E,
    t: Tables,
    name: Seq<u8>,
    v: ValueV,
) -> WOut {
    let (nb, t1) = byte_str_enc(t, name);
    wpre(nb, wv(reg, t1, v))
}

/// The padding bytes the enclosing container places after each element.
pub open spec fn padding_bytes() -> Seq<u8> {
    seq![0u8]
}

/// The body of a pass: each element followed by the container padding.
pub open spec fn body_enc<E: ExternalEncoderRegistry>(
    reg: E,
    t: Tables,
    es: Seq<(Seq<u8>, ValueV)>,
    i: int,
) -> WOut
    decreases es.len() - i,
{
    if !(0 <= i < es.len()) {
        wok(seq![], t)
    } else {
        let w = element_enc(reg, t, es[i].0, es[i].1);
        if w.err is Some {
            w
        } else {
            wpre(w.bytes + padding_bytes(), body_enc(reg, w.t, es, i + 1))
        }
    }
}

// ---------------------------------------------------------------------------
// Executable forms of the length-or-reference words.
// ---------------------------------------------------------------------------

/// The literal-size word, within U29 range.
pub fn size_word_exec(n: u64) -> (r: u32)
    ensures
        r == size_word(n),
        r < 0x2000_0000,
{
    let r = (((n << 1) | 1) & 0x1fff_ffff) as u32;
    assert(r < 0x2000_0000) by (bit_vector)
        requires
            r == ((((n << 1) | 1) & 0x1fff_ffff) as u32),
    ;
    r
}

/// The reference-index word, within U29 range.
pub fn ref_word_exec(i: u64) -> (r: u32)
    ensures
        r == ref_word(i),
        r < 0x2000_0000,
{
    let r = ((i << 1) & 0x1fff_ffff) as u32;
    assert(r < 0x2000_0000) by (bit_vector)
        requires
            r == (((i << 1) & 0x1fff_ffff) as u32),
    ;
    r
}

/// The trait-reference word, within U29 range.
pub fn trait_ref_word_exec(i: u64) -> (r: u32)
    ensures
        r == trait_ref_word(i),
        r < 0x2000_0000,
{
    let r = (((i << 2) | 1) & 0x1fff_ffff) as u32;
    assert(r < 0x2000_0000) by (bit_vector)
        requires
            r == ((((i << 2) | 1) & 0x1fff_ffff) as u32),
    ;
    r
}

/// The full-trait word, within U29 range.
pub fn trait_full_word_exec(props: u64, attrs: ClassAttributes) -> (r: u32)
    ensures
        r == trait_full_word(props, attrs),
        r < 0x2000_0000,
{
    let enc: u64 = (if attrs.external {
        1u64
    } else {
        0u64
    }) | (if attrs.dynamic {
        2u64
    } else {
        0u64
    });
    let r = (((((((props << 2) | enc) << 1) | 1) << 1) | 1) & 0x1fff_ffff) as u32;
    assert(r < 0x2000_0000) by (bit_vector)
        requires
            r == ((((((((props << 2) | enc) << 1) | 1) << 1) | 1) & 0x1fff_ffff) as u32),
    ;
    r
}

// ---------------------------------------------------------------------------
// The engine.
// ---------------------------------------------------------------------------

/// Handles encoding AMF3: owns the three reference tables of one pass and
/// the externalizable-type encoder registry.  An engine must not be reused
/// across passes: table state from one pass would corrupt the reference
/// indices of another.
pub struct AMF3Encoder<E> {
    /// The table used to cache repeated byte strings.
    string_reference_table: Vec<Vec<u8>>,
    /// The table used to cache repeated trait definitions.
    trait_reference_table: Vec<ClassDefinition>,
    /// The table used to cache repeated objects.
    object_reference_table: Vec<Value>,
    /// Encoders used for handling externalized types.
    pub external_encoders: E,
}

impl<E: ExternalEncoderRegistry> AMF3Encoder<E> {
    /// The registry this engine consults for externalizable types.
    pub closed spec fn registry(&self) -> E {
        self.external_encoders
    }

    /// The ghost reference-table state of this pass.
    pub closed spec fn tables(&self) -> Tables {
        Tables {
            strings: self.string_reference_table@.map_values(|p: Vec<u8>| p@),
            traits: self.trait_reference_table@.map_values(
                |c: ClassDefinition| view_class_def(c),
            ),
            objects: self.object_reference_table@.map_values(|v: Value| vv(v)),
        }
    }

    /// A fresh engine for one pass: empty tables, the given registry.
    pub fn new(external_encoders: E) -> (r: Self)
        ensures
            r.tables() == empty_tables(),
            r.registry() == external_encoders,
    {
        let r = AMF3Encoder {
            string_reference_table: Vec::new(),
            trait_reference_table: Vec::new(),
            object_reference_table: Vec::new(),
            external_encoders,
        };
        proof {
            assert(r.tables().strings =~= empty_tables().strings);
            assert(r.tables().traits =~= empty_tables().traits);
            assert(r.tables().objects =~= empty_tables().objects);
            assert(r.tables() =~= empty_tables());
        }
        r
    }

    /// The index of `s` in the string table, if present.
    fn find_string(&self, s: &Vec<u8>) -> (r: Option<usize>)
        ensures
            match r {
                Some(i) => table_index(self.tables().strings, s@) == Some(i as int),
                None => table_index(self.tables().strings, s@) is None,
            },
    {
        let ghost tab = self.tables().strings;
        proof {
            lemma_table_index(tab, s@);
        }
        let n = self.string_reference_table.len();
        let mut i: usize = 0;
        while i < n
            invariant
                n == self.string_reference_table.len(),
                0 <= i <= n,
                tab == self.tables().strings,
                tab.len() == n,
                forall|j: int| 0 <= j < i ==> tab[j] != s@,
            decreases n - i,
        {
            if bytes_eq(&self.string_reference_table[i], s) {
                proof {
                    assert(tab[i as int] == s@);
                    lemma_table_index_first(tab, s@, i as int);
                }
                return Some(i);
            }
            i = i + 1;
        }
        None
    }

    /// The index of a structurally equal trait in the trait table, if any.
    fn find_trait(&self, def: &ClassDefinition) -> (r: Option<usize>)
        ensures
            match r {
                Some(i) => table_index(self.tables().traits, view_class_def(*def)) == Some(
                    i as int,
                ),
                None => table_index(self.tables().traits, view_class_def(*def)) is None,
            },
    {
        let ghost tab = self.tables().traits;
        proof {
            lemma_table_index(tab, view_class_def(*def));
        }
        let n = self.trait_reference_table.len();
        let mut i: usize = 0;
        while i < n
            invariant
                n == self.trait_reference_table.len(),
                0 <= i <= n,
                tab == self.tables().traits,
                tab.len() == n,
                forall|j: int| 0 <= j < i ==> tab[j] != view_class_def(*def),
            decreases n - i,
        {
            if class_def_eq(&self.trait_reference_table[i], def) {
                proof {
                    assert(tab[i as int] == view_class_def(*def));
                    lemma_table_index_first(tab, view_class_def(*def), i as int);
                }
                return Some(i);
            }
            i = i + 1;
        }
        None
    }

    /// The index of a content-equal value in the object table, if any.
    fn find_object(&self, v: &Value) -> (r: Option<usize>)
        ensures
            match r {
                Some(i) => table_index(self.tables().objects, vv(*v)) == Some(i as int),
                None => table_index(self.tables().objects, vv(*v)) is None,
            },
    {
        let ghost tab = self.tables().objects;
        proof {
            lemma_table_index(tab, vv(*v));
        }
        let n = self.object_reference_table.len();
        let mut i: usize = 0;
        while i < n
            invariant
                n == self.object_reference_table.len(),
                0 <= i <= n,
                tab == self.tables().objects,
                tab.len() == n,
                forall|j: int| 0 <= j < i ==> tab[j] != vv(*v),
            decreases n - i,
        {
            if value_eq(&self.object_reference_table[i], v) {
                proof {
                    assert(tab[i as int] == vv(*v));
                    lemma_table_index_first(tab, vv(*v), i as int);
                }
                return Some(i);
            }
            i = i + 1;
        }
        None
    }

    /// Appends `s` to the string table.
    fn store_string(&mut self, s: Vec<u8>)
        ensures
            final(self).tables() == (Tables {
                strings: old(self).tables().strings.push(s@),
                ..old(self).tables()
            }),
            final(self).registry() == old(self).registry(),
    {
        self.string_reference_table.push(s);
        proof {
            assert(self.tables().strings =~= old(self).tables().strings.push(s@));
            assert(self.tables() =~= (Tables {
                strings: old(self).tables().strings.push(s@),
                ..old(self).tables()
            }));
        }
    }

    /// Appends `def` to the trait table.
    fn store_trait(&mut self, def: ClassDefinition)
        ensures
            final(self).tables() == (Tables {
                traits: old(self).tables().traits.push(view_class_def(def)),
                ..old(self).tables()
            }),
            final(self).registry() == old(self).registry(),
    {
        self.trait_reference_table.push(def);
        proof {
            assert(self.tables().traits =~= old(self).tables().traits.push(view_class_def(def)));
            assert(self.tables() =~= (Tables {
                traits: old(self).tables().traits.push(view_class_def(def)),
                ..old(self).tables()
            }));
        }
    }

    /// Appends `v` to the object table.
    fn store_object(&mut self, v: Value)
        ensures
            final(self).tables() == (Tables {
                objects: old(self).tables().objects.push(vv(v)),
                ..old(self).tables()
            }),
            final(self).registry() == old(self).registry(),
    {
        self.object_reference_table.push(v);
        proof {
            assert(self.tables().objects =~= old(self).tables().objects.push(vv(v)));
            assert(self.tables() =~= (Tables {
                objects: old(self).tables().objects.push(vv(v)),
                ..old(self).tables()
            }));
        }
    }

    /// Appends the U29 form of `i` to `out` (the integer value encoding).
    pub fn write_int(&self, out: &mut Vec<u8>, i: i32)
        ensures
            final(out)@ == old(out)@ + u29_enc(i),
    {
        write_int_bytes(out, i);
    }

    /// Appends one type-marker byte to `out`.
    pub fn write_type_marker(&self, out: &mut Vec<u8>, marker: u8)
        ensures
            final(out)@ == old(out)@ + seq![marker],
    {
        out.push(marker);
        assert(out@ =~= old(out)@ + seq![marker]);
    }

    /// Writes a byte string through the string table: empty strings are a
    /// literal size 0, repeats a pure reference, anything else the literal
    /// size, the bytes, and a new table entry.
    pub fn write_byte_string(&mut self, out: &mut Vec<u8>, s: &Vec<u8>)
        ensures
            ({
                let (bs, t2) = byte_str_enc(old(self).tables(), s@);
                &&& final(out)@ == old(out)@ + bs
                &&& final(self).tables() == t2
                &&& final(self).registry() == old(self).registry()
            }),
    {
        if s.len() == 0 {
            write_u29_word(out, size_word_exec(0));
            return ;
        }
        match self.find_string(s) {
            Some(i) => {
                write_u29_word(out, ref_word_exec(i as u64));
            },
            None => {
                write_u29_word(out, size_word_exec(s.len() as u64));
                write_slice(out, s);
                self.store_string(clone_bytes(s));
            },
        }
    }

    /// Writes a number value: marker, then the eight big-endian bytes of
    /// the IEEE-754 double.
    pub fn write_number_element(&self, out: &mut Vec<u8>, i: u64)
        ensures
            final(out)@ == old(out)@ + seq![MARKER_NUMBER] + be_u64_bytes(i),
    {
        self.write_type_marker(out, MARKER_NUMBER);
        write_be_u64(out, i);
        assert(out@ =~= old(out)@ + seq![MARKER_NUMBER] + be_u64_bytes(i));
    }

    /// Writes a boolean value: one of the two single-byte markers.
    pub fn write_boolean_element(&self, out: &mut Vec<u8>, b: bool)
        ensures
            final(out)@ == old(out)@ + seq![
                if b {
                    MARKER_TRUE
                } else {
                    MARKER_FALSE
                },
            ],
    {
        if b {
            self.write_type_marker(out, MARKER_TRUE);
        } else {
            self.write_type_marker(out, MARKER_FALSE);
        }
    }

    /// Writes a string value: marker, then the byte string through the
    /// string table.
    pub fn write_string_element(&mut self, out: &mut Vec<u8>, s: &Vec<u8>)
        ensures
            ({
                let w = wv(old(self).registry(), old(self).tables(), ValueV::String(s@));
                &&& final(out)@ == old(out)@ + w.bytes
                &&& final(self).tables() == w.t
                &&& final(self).registry() == old(self).registry()
                &&& w.err is None
            }),
    {
        self.write_type_marker(out, MARKER_STRING);
        self.write_byte_string(out, s);
        proof {
            let (bs, _t2) = byte_str_enc(old(self).tables(), s@);
            assert(out@ =~= old(out)@ + (seq![MARKER_STRING] + bs));
        }
    }

    /// Writes the null marker.
    pub fn write_null_element(&self, out: &mut Vec<u8>)
        ensures
            final(out)@ == old(out)@ + seq![MARKER_NULL],
    {
        self.write_type_marker(out, MARKER_NULL);
    }

    /// Writes the undefined marker.
    pub fn write_undefined_element(&self, out: &mut Vec<u8>)
        ensures
            final(out)@ == old(out)@ + seq![MARKER_UNDEFINED],
    {
        self.write_type_marker(out, MARKER_UNDEFINED);
    }

    /// Writes an integer value: marker, then the U29 form.
    pub fn write_integer_element(&self, out: &mut Vec<u8>, i: i32)
        ensures
            final(out)@ == old(out)@ + seq![MARKER_INTEGER] + u29_enc(i),
    {
        self.write_type_marker(out, MARKER_INTEGER);
        self.write_int(out, i);
        assert(out@ =~= old(out)@ + seq![MARKER_INTEGER] + u29_enc(i));
    }

    /// Writes a vector of signed integers through the object table: a pure
    /// reference on a hit, else the literal size, the fixed-length flag and
    /// the big-endian elements, with the vector cached by content.
    pub fn write_int_vector(&mut self, out: &mut Vec<u8>, items: &Vec<i32>, fixed_length: bool)
        ensures
            ({
                let w = wv(
                    old(self).registry(),
                    old(self).tables(),
                    ValueV::VectorInt(items@, fixed_length),
                );
                &&& final(out)@ == old(out)@ + w.bytes
                &&& final(self).tables() == w.t
                &&& final(self).registry() == old(self).registry()
                &&& w.err is None
            }),
    {
        let cand = Value::VectorInt(clone_i32s(items), fixed_length);
        match self.find_object(&cand) {
            Some(i) => {
                self.write_type_marker(out, MARKER_VECTOR_INT);
                write_u29_word(out, ref_word_exec(i as u64));
                proof {
                    assert(out@ =~= old(out)@ + (seq![MARKER_VECTOR_INT] + u29_bytes(
                        ref_word(i as u64),
                    )));
                }
            },
            None => {
                self.store_object(cand);
                self.write_type_marker(out, MARKER_VECTOR_INT);
                write_u29_word(out, size_word_exec(items.len() as u64));
                out.push(if fixed_length { 1 } else { 0 });
                write_be_i32_seq(out, items);
                proof {
                    assert(out@ =~= old(out)@ + (seq![MARKER_VECTOR_INT] + u29_bytes(
                        size_word(items@.len() as u64),
                    ) + seq![flag_byte(fixed_length)] + be_i32_seq(items@)));
                }
            },
        }
    }

    /// Writes a vector of unsigned integers through the object table, in
    /// the same form as the signed vector.
    pub fn write_uint_vector(&mut self, out: &mut Vec<u8>, items: &Vec<u32>, fixed_length: bool)
        ensures
            ({
                let w = wv(
                    old(self).registry(),
                    old(self).tables(),
                    ValueV::VectorUInt(items@, fixed_length),
                );
                &&& final(out)@ == old(out)@ + w.bytes
                &&& final(self).tables() == w.t
                &&& final(self).registry() == old(self).registry()
                &&& w.err is None
            }),
    {
        let cand = Value::VectorUInt(clone_u32s(items), fixed_length);
        match self.find_object(&cand) {
            Some(i) => {
                self.write_type_marker(out, MARKER_VECTOR_UINT);
                write_u29_word(out, ref_word_exec(i as u64));
                proof {
                    assert(out@ =~= old(out)@ + (seq![MARKER_VECTOR_UINT] + u29_bytes(
                        ref_word(i as u64),
                    )));
                }
            },
            None => {
                self.store_object(cand);
                self.write_type_marker(out, MARKER_VECTOR_UINT);
                write_u29_word(out, size_word_exec(items.len() as u64));
                out.push(if fixed_length { 1 } else { 0 });
                write_be_u32_seq(out, items);
                proof {
                    assert(out@ =~= old(out)@ + (seq![MARKER_VECTOR_UINT] + u29_bytes(
                        size_word(items@.len() as u64),
                    ) + seq![flag_byte(fixed_length)] + be_u32_seq(items@)));
                }
            },
        }
    }

    /// Writes a vector of doubles (as IEEE-754 bit patterns) through the
    /// object table, in the same form as the other numeric vectors.
    pub fn write_number_vector(&mut self, out: &mut Vec<u8>, items: &Vec<u64>, fixed_length: bool)
        ensures
            ({
                let w = wv(
                    old(self).registry(),
                    old(self).tables(),
                    ValueV::VectorDouble(items@, fixed_length),
                );
                &&& final(out)@ == old(out)@ + w.bytes
                &&& final(self).tables() == w.t
                &&& final(self).registry() == old(self).registry()
                &&& w.err is None
            }),
    {
        let cand = Value::VectorDouble(clone_u64s(items), fixed_length);
        match self.find_object(&cand) {
            Some(i) => {
                self.write_type_marker(out, MARKER_VECTOR_DOUBLE);
                write_u29_word(out, ref_word_exec(i as u64));
                proof {
                    assert(out@ =~= old(out)@ + (seq![MARKER_VECTOR_DOUBLE] + u29_bytes(
                        ref_word(i as u64),
                    )));
                }
            },
            None => {
                self.store_object(cand);
                self.write_type_marker(out, MARKER_VECTOR_DOUBLE);
                write_u29_word(out, size_word_exec(items.len() as u64));
                out.push(if fixed_length { 1 } else { 0 });
                write_be_u64_seq(out, items);
                proof {
                    assert(out@ =~= old(out)@ + (seq![MARKER_VECTOR_DOUBLE] + u29_bytes(
                        size_word(items@.len() as u64),
                    ) + seq![flag_byte(fixed_length)] + be_u64_seq(items@)));
                }
            },
        }
    }

    /// Writes a date value (epoch-milliseconds double as bits) through the
    /// object table; the literal form is always size 0, then the double.
    /// The timezone, if any, does not travel in AMF3.
    pub fn write_date_element(&mut self, out: &mut Vec<u8>, time: u64)
        ensures
            ({
                let w = wv(old(self).registry(), old(self).tables(), ValueV::Date(time, None));
                &&& final(out)@ == old(out)@ + w.bytes
                &&& final(self).tables() == w.t
                &&& final(self).registry() == old(self).registry()
                &&& w.err is None
            }),
    {
        let cand = Value::Date(time, None);
        match self.find_object(&cand) {
            Some(i) => {
                self.write_type_marker(out, MARKER_DATE);
                write_u29_word(out, ref_word_exec(i as u64));
                proof {
                    assert(out@ =~= old(out)@ + (seq![MARKER_DATE] + u29_bytes(
                        ref_word(i as u64),
                    )));
                }
            },
            None => {
                self.store_object(cand);
                self.write_type_marker(out, MARKER_DATE);
                write_u29_word(out, size_word_exec(0));
                write_be_u64(out, time);
                proof {
                    assert(out@ =~= old(out)@ + (seq![MARKER_DATE] + u29_bytes(size_word(0))
                        + be_u64_bytes(time)));
                }
            },
        }
    }

    /// Writes a byte array through the object table: a pure reference on a
    /// hit, else the literal size and the raw bytes, cached by content.
    pub fn write_byte_array_element(&mut self, out: &mut Vec<u8>, bytes: &Vec<u8>)
        ensures
            ({
                let w = wv(old(self).registry(), old(self).tables(), ValueV::ByteArray(bytes@));
                &&& final(out)@ == old(out)@ + w.bytes
                &&& final(self).tables() == w.t
                &&& final(self).registry() == old(self).registry()
                &&& w.err is None
            }),
    {
        let cand = Value::ByteArray(clone_bytes(bytes));
        match self.find_object(&cand) {
            Some(i) => {
                self.write_type_marker(out, MARKER_BYTE_ARRAY);
                write_u29_word(out, ref_word_exec(i as u64));
                proof {
                    assert(out@ =~= old(out)@ + (seq![MARKER_BYTE_ARRAY] + u29_bytes(
                        ref_word(i as u64),
                    )));
                }
            },
            None => {
                self.store_object(cand);
                self.write_type_marker(out, MARKER_BYTE_ARRAY);
                write_u29_word(out, size_word_exec(bytes.len() as u64));
                write_slice(out, bytes);
                proof {
                    assert(out@ =~= old(out)@ + (seq![MARKER_BYTE_ARRAY] + u29_bytes(
                        size_word(bytes@.len() as u64),
                    ) + bytes@));
                }
            },
        }
    }

    /// Writes an XML value: the marker picked by the string-variant flag,
    /// the literal size, and the raw bytes; never reference-cached.
    pub fn write_xml_element(&self, out: &mut Vec<u8>, bytes: &Vec<u8>, string: bool)
        ensures
            ({
                let w = wv(self.registry(), self.tables(), ValueV::XML(bytes@, string));
                &&& final(out)@ == old(out)@ + w.bytes
                &&& w.err is None
            }),
    {
        if string {
            self.write_type_marker(out, MARKER_XML_STRING);
        } else {
            self.write_type_marker(out, MARKER_XML);
        }
        write_u29_word(out, size_word_exec(bytes.len() as u64));
        write_slice(out, bytes);
        proof {
            let marker = if string {
                MARKER_XML_STRING
            } else {
                MARKER_XML
            };
            assert(out@ =~= old(out)@ + (seq![marker] + u29_bytes(size_word(bytes@.len() as u64))
                + bytes@));
        }
    }

    /// Writes a string value's bytes through the string table.
    pub fn write_string(&mut self, out: &mut Vec<u8>, s: &Vec<u8>)
        ensures
            ({
                let (bs, t2) = byte_str_enc(old(self).tables(), s@);
                &&& final(out)@ == old(out)@ + bs
                &&& final(self).tables() == t2
                &&& final(self).registry() == old(self).registry()
            }),
    {
        self.write_byte_string(out, s)
    }
}

/// Whether `name` occurs among the property names `props`.
fn props_contain(props: &Vec<Vec<u8>>, name: &Vec<u8>) -> (r: bool)
    ensures
        r == props@.map_values(|p: Vec<u8>| p@).contains(name@),
{
    let ghost pv = props@.map_values(|p: Vec<u8>| p@);
    let n = props.len();
    let mut i: usize = 0;
    while i < n
        invariant
            n == props.len(),
            0 <= i <= n,
            pv == props@.map_values(|p: Vec<u8>| p@),
            forall|j: int| 0 <= j < i ==> pv[j] != name@,
        decreases n - i,
    {
        if bytes_eq(&props[i], name) {
            proof {
                assert(pv[i as int] == name@);
                assert(pv.contains(name@));
            }
            return true;
        }
        i = i + 1;
    }
    proof {
        assert(forall|j: int| 0 <= j < pv.len() ==> pv[j] != name@);
    }
    false
}

/// The index of the first element of `es` named `name`, if any.
fn find_element(es: &Vec<Element>, name: &Vec<u8>) -> (r: Option<usize>)
    ensures
        match r {
            Some(k) => elem_index(vv_elems(es@, 0), name@) == Some(k as int),
            None => elem_index(vv_elems(es@, 0), name@) is None,
        },
{
    let ghost ev = vv_elems(es@, 0);
    proof {
        crate::types::lemma_vv_elems_len(es@, 0);
    }
    let n = es.len();
    let mut j: usize = 0;
    while j < n
        invariant
            n == es.len(),
            0 <= j <= n,
            ev == vv_elems(es@, 0),
            ev.len() == n,
            forall|k: int| 0 <= k < j ==> ev[k].0 != name@,
        decreases n - j,
    {
        proof {
            crate::types::lemma_vv_elems_index(es@, 0, j as int);
        }
        if bytes_eq(&es[j].name, name) {
            proof {
                lemma_elem_index_first(ev, name@, j as int);
            }
            return Some(j);
        }
        j = j + 1;
    }
    proof {
        lemma_elem_index(ev, name@);
    }
    None
}

impl<E: ExternalEncoderRegistry> AMF3Encoder<E> {
    /// Writes a full trait definition body: the class name, then each
    /// static property name, all through the string table.
    pub fn write_class_definition(&mut self, out: &mut Vec<u8>, class_def: &ClassDefinition)
        ensures
            ({
                let (db, t2) = class_def_enc(old(self).tables(), view_class_def(*class_def));
                &&& final(out)@ == old(out)@ + db
                &&& final(self).tables() == t2
                &&& final(self).registry() == old(self).registry()
            }),
    {
        self.write_byte_string(out, &class_def.name);
        self.write_prop_names(out, &class_def.static_properties, 0);
        proof {
            let (nb, t1) = byte_str_enc(old(self).tables(), class_def.name@);
            let (pb, _t2) = prop_names_enc(
                t1,
                class_def.static_properties@.map_values(|p: Vec<u8>| p@),
                0,
            );
            assert(out@ =~= old(out)@ + (nb + pb));
        }
    }

    /// Writes the static property names from index `i` on.
    fn write_prop_names(&mut self, out: &mut Vec<u8>, props: &Vec<Vec<u8>>, i: usize)
        ensures
            ({
                let (pb, t2) = prop_names_enc(
                    old(self).tables(),
                    props@.map_values(|p: Vec<u8>| p@),
                    i as int,
                );
                &&& final(out)@ == old(out)@ + pb
                &&& final(self).tables() == t2
                &&& final(self).registry() == old(self).registry()
            }),
        decreases props.len() - i,
    {
        if i < props.len() {
            self.write_byte_string(out, &props[i]);
            self.write_prop_names(out, props, i + 1);
            proof {
                let pv = props@.map_values(|p: Vec<u8>| p@);
                let (b1, t1) = byte_str_enc(old(self).tables(), pv[i as int]);
                let (b2, _t2) = prop_names_enc(t1, pv, i + 1);
                assert(out@ =~= old(out)@ + (b1 + b2));
            }
        } else {
            proof {
                assert(out@ =~= old(out)@ + Seq::<u8>::empty());
            }
        }
    }

    /// Writes the values from index `i` on, in order.
    fn write_values_from(&mut self, out: &mut Vec<u8>, vs: &Vec<Value>, i: usize) -> (r: Result<
        (),
        AmfError,
    >)
        ensures
            ({
                let w = wv_list(
                    old(self).registry(),
                    old(self).tables(),
                    vv_seq(vs@, 0),
                    i as int,
                );
                &&& final(out)@ == old(out)@ + w.bytes
                &&& final(self).tables() == w.t
                &&& final(self).registry() == old(self).registry()
                &&& (match r {
                    Ok(()) => w.err is None,
                    Err(e) => w.err == Some(e),
                })
            }),
        decreases vs@, 1int, vs@.len() - i,
    {
        proof {
            crate::types::lemma_vv_seq_len(vs@, 0);
        }
        if i >= vs.len() {
            proof {
                assert(out@ =~= old(out)@ + Seq::<u8>::empty());
            }
            return Ok(());
        }
        proof {
            crate::types::lemma_vv_seq_index(vs@, 0, i as int);
        }
        let r1 = self.write_value(out, &vs[i]);
        match r1 {
            Err(e) => {
                return Err(e);
            },
            Ok(()) => {},
        }
        let ghost w1 = wv(old(self).registry(), old(self).tables(), vv(vs@[i as int]));
        let r2 = self.write_values_from(out, vs, i + 1);
        proof {
            let w2 = wv_list(old(self).registry(), w1.t, vv_seq(vs@, 0), i + 1);
            assert(out@ =~= old(out)@ + (w1.bytes + w2.bytes));
        }
        r2
    }

    /// Writes every element as a name/value pair, from index `i` on (the
    /// associative part of an array).
    fn write_assoc_from(&mut self, out: &mut Vec<u8>, es: &Vec<Element>, i: usize) -> (r: Result<
        (),
        AmfError,
    >)
        ensures
            ({
                let w = wv_assoc(
                    old(self).registry(),
                    old(self).tables(),
                    vv_elems(es@, 0),
                    i as int,
                );
                &&& final(out)@ == old(out)@ + w.bytes
                &&& final(self).tables() == w.t
                &&& final(self).registry() == old(self).registry()
                &&& (match r {
                    Ok(()) => w.err is None,
                    Err(e) => w.err == Some(e),
                })
            }),
        decreases es@, 1int, es@.len() - i,
    {
        proof {
            crate::types::lemma_vv_elems_len(es@, 0);
        }
        if i >= es.len() {
            proof {
                assert(out@ =~= old(out)@ + Seq::<u8>::empty());
            }
            return Ok(());
        }
        proof {
            crate::types::lemma_vv_elems_index(es@, 0, i as int);
        }
        self.write_byte_string(out, &es[i].name);
        let ghost (nb, t1) = byte_str_enc(old(self).tables(), es@[i as int].name@);
        let r1 = self.write_value(out, &es[i].value);
        let ghost w1 = wv(old(self).registry(), t1, vv(es@[i as int].value));
        match r1 {
            Err(e) => {
                proof {
                    assert(out@ =~= old(out)@ + (nb + w1.bytes));
                }
                return Err(e);
            },
            Ok(()) => {},
        }
        let r2 = self.write_assoc_from(out, es, i + 1);
        proof {
            let w2 = wv_assoc(old(self).registry(), w1.t, vv_elems(es@, 0), i + 1);
            assert(out@ =~= old(out)@ + ((nb + w1.bytes) + w2.bytes));
        }
        r2
    }

    /// Writes the static property values in trait declaration order, from
    /// property index `i` on: each property's value is that of the first
    /// element bearing its name, and a property with no element is skipped.
    fn write_static_from(
        &mut self,
        out: &mut Vec<u8>,
        props: &Vec<Vec<u8>>,
        es: &Vec<Element>,
        i: usize,
    ) -> (r: Result<(), AmfError>)
        ensures
            ({
                let w = wv_static(
                    old(self).registry(),
                    old(self).tables(),
                    props@.map_values(|p: Vec<u8>| p@),
                    vv_elems(es@, 0),
                    i as int,
                );
                &&& final(out)@ == old(out)@ + w.bytes
                &&& final(self).tables() == w.t
                &&& final(self).registry() == old(self).registry()
                &&& (match r {
                    Ok(()) => w.err is None,
                    Err(e) => w.err == Some(e),
                })
            }),
        decreases es@, 1int, props@.len() - i,
    {
        proof {
            crate::types::lemma_vv_elems_len(es@, 0);
        }
        if i >= props.len() {
            proof {
                assert(out@ =~= old(out)@ + Seq::<u8>::empty());
            }
            return Ok(());
        }
        match find_element(es, &props[i]) {
            None => {
                let r2 = self.write_static_from(out, props, es, i + 1);
                r2
            },
            Some(k) => {
                proof {
                    lemma_elem_index(vv_elems(es@, 0), props@[i as int]@);
                    crate::types::lemma_vv_elems_index(es@, 0, k as int);
                }
                let r1 = self.write_value(out, &es[k].value);
                let ghost w1 = wv(
                    old(self).registry(),
                    old(self).tables(),
                    vv(es@[k as int].value),
                );
                match r1 {
                    Err(e) => {
                        return Err(e);
                    },
                    Ok(()) => {},
                }
                let r2 = self.write_static_from(out, props, es, i + 1);
                proof {
                    let w2 = wv_static(
                        old(self).registry(),
                        w1.t,
                        props@.map_values(|p: Vec<u8>| p@),
                        vv_elems(es@, 0),
                        i + 1,
                    );
                    assert(out@ =~= old(out)@ + (w1.bytes + w2.bytes));
                }
                r2
            },
        }
    }

    /// Writes the name/value pairs of the elements whose names are not
    /// static properties of the trait, from index `i` on.
    fn write_dyn_from(
        &mut self,
        out: &mut Vec<u8>,
        props: &Vec<Vec<u8>>,
        es: &Vec<Element>,
        i: usize,
    ) -> (r: Result<(), AmfError>)
        ensures
            ({
                let w = wv_dyn(
                    old(self).registry(),
                    old(self).tables(),
                    props@.map_values(|p: Vec<u8>| p@),
                    vv_elems(es@, 0),
                    i as int,
                );
                &&& final(out)@ == old(out)@ + w.bytes
                &&& final(self).tables() == w.t
                &&& final(self).registry() == old(self).registry()
                &&& (match r {
                    Ok(()) => w.err is None,
                    Err(e) => w.err == Some(e),
                })
            }),
        decreases es@, 1int, es@.len() - i,
    {
        proof {
            crate::types::lemma_vv_elems_len(es@, 0);
        }
        if i >= es.len() {
            proof {
                assert(out@ =~= old(out)@ + Seq::<u8>::empty());
            }
            return Ok(());
        }
        proof {
            crate::types::lemma_vv_elems_index(es@, 0, i as int);
        }
        if !props_contain(props, &es[i].name) {
            self.write_byte_string(out, &es[i].name);
            let ghost (nb, t1) = byte_str_enc(old(self).tables(), es@[i as int].name@);
            let r1 = self.write_value(out, &es[i].value);
            let ghost w1 = wv(old(self).registry(), t1, vv(es@[i as int].value));
            match r1 {
                Err(e) => {
                    proof {
                        assert(out@ =~= old(out)@ + (nb + w1.bytes));
                    }
                    return Err(e);
                },
                Ok(()) => {},
            }
            let r2 = self.write_dyn_from(out, props, es, i + 1);
            proof {
                let w2 = wv_dyn(
                    old(self).registry(),
                    w1.t,
                    props@.map_values(|p: Vec<u8>| p@),
                    vv_elems(es@, 0),
                    i + 1,
                );
                assert(out@ =~= old(out)@ + ((nb + w1.bytes) + w2.bytes));
            }
            r2
        } else {
            let r2 = self.write_dyn_from(out, props, es, i + 1);
            r2
        }
    }

    /// Writes the dictionary pairs from index `i` on, keys and values
    /// interleaved.
    fn write_dict_from(&mut self, out: &mut Vec<u8>, ps: &Vec<(Value, Value)>, i: usize) -> (r:
        Result<(), AmfError>)
        ensures
            ({
                let w = wv_dict(
                    old(self).registry(),
                    old(self).tables(),
                    vv_pairs(ps@, 0),
                    i as int,
                );
                &&& final(out)@ == old(out)@ + w.bytes
                &&& final(self).tables() == w.t
                &&& final(self).registry() == old(self).registry()
                &&& (match r {
                    Ok(()) => w.err is None,
                    Err(e) => w.err == Some(e),
                })
            }),
        decreases ps@, 1int, ps@.len() - i,
    {
        proof {
            crate::types::lemma_vv_pairs_len(ps@, 0);
        }
        if i >= ps.len() {
            proof {
                assert(out@ =~= old(out)@ + Seq::<u8>::empty());
            }
            return Ok(());
        }
        proof {
            crate::types::lemma_vv_pairs_index(ps@, 0, i as int);
        }
        let r1 = self.write_value(out, &ps[i].0);
        let ghost wk = wv(old(self).registry(), old(self).tables(), vv(ps@[i as int].0));
        match r1 {
            Err(e) => {
                return Err(e);
            },
            Ok(()) => {},
        }
        let r2 = self.write_value(out, &ps[i].1);
        let ghost wx = wv(old(self).registry(), wk.t, vv(ps@[i as int].1));
        match r2 {
            Err(e) => {
                proof {
                    assert(out@ =~= old(out)@ + (wk.bytes + wx.bytes));
                }
                return Err(e);
            },
            Ok(()) => {},
        }
        let r3 = self.write_dict_from(out, ps, i + 1);
        proof {
            let w3 = wv_dict(old(self).registry(), wx.t, vv_pairs(ps@, 0), i + 1);
            assert(out@ =~= old(out)@ + ((wk.bytes + wx.bytes) + w3.bytes));
        }
        r3
    }

    /// Writes an object body: an external payload from the registry (a
    /// hard failure, with nothing written, when the class name is
    /// unregistered), or the static property values in trait declaration
    /// order, with the dynamic section and sentinel when the trait is
    /// dynamic.
    fn write_object_body(
        &mut self,
        out: &mut Vec<u8>,
        children: &Vec<Element>,
        custom_props: Option<&Vec<Element>>,
        def: &ClassDefinition,
    ) -> (r: Result<(), AmfError>)
        ensures
            ({
                let payload = match custom_props {
                    Some(cp) => vv_elems(cp@, 0),
                    None => vv_elems(children@, 0),
                };
                let w = wv_obj_body(
                    old(self).registry(),
                    old(self).tables(),
                    vv_elems(children@, 0),
                    payload,
                    view_class_def(*def),
                );
                &&& final(out)@ == old(out)@ + w.bytes
                &&& final(self).tables() == w.t
                &&& final(self).registry() == old(self).registry()
                &&& (match r {
                    Ok(()) => w.err is None,
                    Err(e) => w.err == Some(e),
                })
            }),
        decreases children@, 2int, 0int,
    {
        if def.attributes.external {
            if !self.external_encoders.has_encoder(&def.name) {
                proof {
                    assert(out@ =~= old(out)@ + Seq::<u8>::empty());
                }
                return Err(AmfError::UnsupportedExternalType);
            }
            let payload: &Vec<Element> = match custom_props {
                Some(c) => c,
                None => children,
            };
            let bytes = self.external_encoders.encode(&def.name, payload, def);
            write_slice(out, &bytes);
            proof {
                assert(out@ =~= old(out)@ + bytes@);
            }
            return Ok(());
        }
        let r1 = self.write_static_from(out, &def.static_properties, children, 0);
        if !def.attributes.dynamic {
            return r1;
        }
        match r1 {
            Err(e) => {
                return Err(e);
            },
            Ok(()) => {},
        }
        let ghost w1 = wv_static(
            old(self).registry(),
            old(self).tables(),
            def.static_properties@.map_values(|p: Vec<u8>| p@),
            vv_elems(children@, 0),
            0,
        );
        let r2 = self.write_dyn_from(out, &def.static_properties, children, 0);
        let ghost w2 = wv_dyn(
            old(self).registry(),
            w1.t,
            def.static_properties@.map_values(|p: Vec<u8>| p@),
            vv_elems(children@, 0),
            0,
        );
        match r2 {
            Err(e) => {
                proof {
                    assert(out@ =~= old(out)@ + (w1.bytes + w2.bytes));
                }
                return Err(e);
            },
            Ok(()) => {},
        }
        write_u29_word(out, size_word_exec(0));
        proof {
            assert(out@ =~= old(out)@ + (w1.bytes + w2.bytes + term_bytes()));
        }
        Ok(())
    }

    /// Writes a trait-reference object: the reference word for an already
    /// emitted structurally equal trait, then the object body.  An
    /// `external` trait whose class name has no registered encoder fails
    /// with `UnsupportedExternalType` before any byte is written.
    pub fn write_trait_reference(
        &mut self,
        out: &mut Vec<u8>,
        index: usize,
        children: &Vec<Element>,
        custom_props: Option<&Vec<Element>>,
        def: &ClassDefinition,
    ) -> (r: Result<(), AmfError>)
        ensures
            ({
                let payload = match custom_props {
                    Some(cp) => vv_elems(cp@, 0),
                    None => vv_elems(children@, 0),
                };
                let defv = view_class_def(*def);
                let wb = wv_obj_body(
                    old(self).registry(),
                    old(self).tables(),
                    vv_elems(children@, 0),
                    payload,
                    defv,
                );
                let w = if defv.attributes.external && !old(self).registry().spec_has(defv.name) {
                    wb
                } else {
                    wpre(u29_bytes(trait_ref_word(index as u64)), wb)
                };
                &&& final(out)@ == old(out)@ + w.bytes
                &&& final(self).tables() == w.t
                &&& final(self).registry() == old(self).registry()
                &&& (match r {
                    Ok(()) => w.err is None,
                    Err(e) => w.err == Some(e),
                })
            }),
        decreases children@, 3int, 0int,
    {
        if def.attributes.external && !self.external_encoders.has_encoder(&def.name) {
            proof {
                assert(out@ =~= old(out)@ + Seq::<u8>::empty());
            }
            return Err(AmfError::UnsupportedExternalType);
        }
        write_u29_word(out, trait_ref_word_exec(index as u64));
        let r = self.write_object_body(out, children, custom_props, def);
        proof {
            let payload = match custom_props {
                Some(cp) => vv_elems(cp@, 0),
                None => vv_elems(children@, 0),
            };
            let wb = wv_obj_body(
                old(self).registry(),
                old(self).tables(),
                vv_elems(children@, 0),
                payload,
                view_class_def(*def),
            );
            assert(out@ =~= old(out)@ + (u29_bytes(trait_ref_word(index as u64)) + wb.bytes));
        }
        r
    }

    /// Writes a full object: stores the trait, writes the trait word, the
    /// trait definition, and the object body.  An `external` trait whose
    /// class name has no registered encoder fails with
    /// `UnsupportedExternalType` before any byte is written or stored.
    pub fn write_object_full(
        &mut self,
        out: &mut Vec<u8>,
        custom_props: Option<&Vec<Element>>,
        children: &Vec<Element>,
        def: &ClassDefinition,
    ) -> (r: Result<(), AmfError>)
        ensures
            ({
                let defv = view_class_def(*def);
                let payload = match custom_props {
                    Some(cp) => vv_elems(cp@, 0),
                    None => vv_elems(children@, 0),
                };
                let t2 = Tables { traits: old(self).tables().traits.push(defv), ..old(
                    self,
                ).tables() };
                let (db, t3) = class_def_enc(t2, defv);
                let w = wpre(
                    u29_bytes(trait_full_word(defv.static_properties.len() as u64, defv.attributes))
                        + db,
                    wv_obj_body(
                        old(self).registry(),
                        t3,
                        vv_elems(children@, 0),
                        payload,
                        defv,
                    ),
                );
                if defv.attributes.external && !old(self).registry().spec_has(defv.name) {
                    &&& r == Err::<(), AmfError>(AmfError::UnsupportedExternalType)
                    &&& final(out)@ == old(out)@
                    &&& final(self).tables() == old(self).tables()
                    &&& final(self).registry() == old(self).registry()
                } else {
                    &&& final(out)@ == old(out)@ + w.bytes
                    &&& final(self).tables() == w.t
                    &&& final(self).registry() == old(self).registry()
                    &&& (match r {
                        Ok(()) => w.err is None,
                        Err(e) => w.err == Some(e),
                    })
                }
            }),
        decreases children@, 3int, 0int,
    {
        if def.attributes.external && !self.external_encoders.has_encoder(&def.name) {
            return Err(AmfError::UnsupportedExternalType);
        }
        self.store_trait(clone_class_def(def));
        write_u29_word(
            out,
            trait_full_word_exec(def.static_properties.len() as u64, def.attributes),
        );
        self.write_class_definition(out, def);
        let r = self.write_object_body(out, children, custom_props, def);
        proof {
            let defv = view_class_def(*def);
            let payload = match custom_props {
                Some(cp) => vv_elems(cp@, 0),
                None => vv_elems(children@, 0),
            };
            let t2 = Tables { traits: old(self).tables().traits.push(defv), ..old(self).tables() };
            let (db, t3) = class_def_enc(t2, defv);
            let wb = wv_obj_body(old(self).registry(), t3, vv_elems(children@, 0), payload, defv);
            assert(defv.static_properties.len() == def.static_properties@.len());
            assert(out@ =~= old(out)@ + ((u29_bytes(
                trait_full_word(defv.static_properties.len() as u64, defv.attributes),
            ) + db) + wb.bytes));
        }
        r
    }

    /// Writes a pure object-reference index.
    pub fn write_object_reference(&self, out: &mut Vec<u8>, index: usize)
        ensures
            final(out)@ == old(out)@ + u29_bytes(ref_word(index as u64)),
    {
        write_u29_word(out, ref_word_exec(index as u64));
    }

    /// Writes an object value: a failing registration check writes nothing;
    /// otherwise a pure object reference on a table hit, else the object is
    /// stored and its trait section and body follow.
    #[verifier::rlimit(100)]
    pub fn write_object_element(
        &mut self,
        out: &mut Vec<u8>,
        children: &Vec<Element>,
        custom_props: Option<&Vec<Element>>,
        class_def: &Option<ClassDefinition>,
    ) -> (r: Result<(), AmfError>)
        ensures
            ({
                let payload = match custom_props {
                    Some(cp) => vv_elems(cp@, 0),
                    None => vv_elems(children@, 0),
                };
                let w = wv_object(
                    old(self).registry(),
                    old(self).tables(),
                    vv_elems(children@, 0),
                    payload,
                    view_opt_class_def(*class_def),
                );
                &&& final(out)@ == old(out)@ + w.bytes
                &&& final(self).tables() == w.t
                &&& final(self).registry() == old(self).registry()
                &&& (match r {
                    Ok(()) => w.err is None,
                    Err(e) => w.err == Some(e),
                })
            }),
        decreases children@, 5int, 0int,
    {
        let default_def = ClassDefinition {
            name: Vec::new(),
            attributes: ClassAttributes { external: false, dynamic: false },
            static_properties: Vec::new(),
        };
        let def: &ClassDefinition = match class_def {
            Some(d) => d,
            None => &default_def,
        };
        proof {
            if class_def is None {
                assert(view_class_def(default_def).static_properties =~= default_class_def()
                    .static_properties);
                assert(view_class_def(default_def).name =~= default_class_def().name);
                assert(view_class_def(default_def) =~= default_class_def());
            }
        }
        if def.attributes.external && !self.external_encoders.has_encoder(&def.name) {
            proof {
                assert(out@ =~= old(out)@ + Seq::<u8>::empty());
            }
            return Err(AmfError::UnsupportedExternalType);
        }
        let key = Value::Object(ObjectId(0), clone_elements(children), clone_opt_class_def(
            class_def,
        ));
        proof {
            assert(vv(key) == ValueV::Object(
                vv_elems(children@, 0),
                view_opt_class_def(*class_def),
            ));
        }
        match self.find_object(&key) {
            Some(i) => {
                self.write_type_marker(out, MARKER_OBJECT);
                self.write_object_reference(out, i);
                proof {
                    assert(out@ =~= old(out)@ + (seq![MARKER_OBJECT] + u29_bytes(
                        ref_word(i as u64),
                    )));
                }
                Ok(())
            },
            None => {
                let r = self.write_object_literal(out, key, children, custom_props, def);
                r
            },
        }
    }

    /// Writes the literal (non-reference) form of an object: stores it,
    /// then writes the marker, the trait section and the body.
    #[verifier::rlimit(100)]
    #[verifier::spinoff_prover]
    fn write_object_literal(
        &mut self,
        out: &mut Vec<u8>,
        key: Value,
        children: &Vec<Element>,
        custom_props: Option<&Vec<Element>>,
        def: &ClassDefinition,
    ) -> (r: Result<(), AmfError>)
        requires
            def.attributes.external ==> old(self).registry().spec_has(def.name@),
        ensures
            ({
                let payload = match custom_props {
                    Some(cp) => vv_elems(cp@, 0),
                    None => vv_elems(children@, 0),
                };
                let defv = view_class_def(*def);
                let chv = vv_elems(children@, 0);
                let t1 = Tables {
                    objects: old(self).tables().objects.push(vv(key)),
                    ..old(self).tables()
                };
                let w = match table_index(t1.traits, defv) {
                    Some(ti) => wpre(
                        seq![MARKER_OBJECT] + u29_bytes(trait_ref_word(ti as u64)),
                        wv_obj_body(old(self).registry(), t1, chv, payload, defv),
                    ),
                    None => {
                        let t2 = Tables { traits: t1.traits.push(defv), ..t1 };
                        let (db, t3) = class_def_enc(t2, defv);
                        wpre(
                            seq![MARKER_OBJECT] + u29_bytes(
                                trait_full_word(
                                    defv.static_properties.len() as u64,
                                    defv.attributes,
                                ),
                            ) + db,
                            wv_obj_body(old(self).registry(), t3, chv, payload, defv),
                        )
                    },
                };
                &&& final(out)@ == old(out)@ + w.bytes
                &&& final(self).tables() == w.t
                &&& final(self).registry() == old(self).registry()
                &&& (match r {
                    Ok(()) => w.err is None,
                    Err(e) => w.err == Some(e),
                })
            }),
        decreases children@, 4int, 0int,
    {
        self.store_object(key);
        self.write_type_marker(out, MARKER_OBJECT);
        match self.find_trait(def) {
            Some(ti) => {
                let r = self.write_trait_reference(out, ti, children, custom_props, def);
                proof {
                    let payload = match custom_props {
                        Some(cp) => vv_elems(cp@, 0),
                        None => vv_elems(children@, 0),
                    };
                    let t1 = Tables {
                        objects: old(self).tables().objects.push(vv(key)),
                        ..old(self).tables()
                    };
                    let wb = wv_obj_body(
                        old(self).registry(),
                        t1,
                        vv_elems(children@, 0),
                        payload,
                        view_class_def(*def),
                    );
                    assert(out@ =~= old(out)@ + (seq![MARKER_OBJECT] + (u29_bytes(
                        trait_ref_word(ti as u64),
                    ) + wb.bytes)));
                }
                r
            },
            None => {
                let r = self.write_object_full(out, custom_props, children, def);
                proof {
                    let defv = view_class_def(*def);
                    let payload = match custom_props {
                        Some(cp) => vv_elems(cp@, 0),
                        None => vv_elems(children@, 0),
                    };
                    let t1 = Tables {
                        objects: old(self).tables().objects.push(vv(key)),
                        ..old(self).tables()
                    };
                    let t2 = Tables { traits: t1.traits.push(defv), ..t1 };
                    let (db, t3) = class_def_enc(t2, defv);
                    let wb = wv_obj_body(
                        old(self).registry(),
                        t3,
                        vv_elems(children@, 0),
                        payload,
                        defv,
                    );
                    assert(out@ =~= old(out)@ + (seq![MARKER_OBJECT] + ((u29_bytes(
                        trait_full_word(defv.static_properties.len() as u64, defv.attributes),
                    ) + db) + wb.bytes)));
                }
                r
            },
        }
    }

    /// Writes a strict (dense) array: always the literal form, the empty
    /// associative sentinel, then the elements; never reference-cached.
    pub fn write_strict_array_element(&mut self, out: &mut Vec<u8>, children: &Vec<Value>) -> (r:
        Result<(), AmfError>)
        ensures
            ({
                let w = wv(
                    old(self).registry(),
                    old(self).tables(),
                    ValueV::StrictArray(vv_seq(children@, 0)),
                );
                &&& final(out)@ == old(out)@ + w.bytes
                &&& final(self).tables() == w.t
                &&& final(self).registry() == old(self).registry()
                &&& (match r {
                    Ok(()) => w.err is None,
                    Err(e) => w.err == Some(e),
                })
            }),
        decreases children@, 2int, 0int,
    {
        proof {
            crate::types::lemma_vv_seq_len(children@, 0);
        }
        self.write_type_marker(out, MARKER_ARRAY);
        if children.len() == 0 {
            write_u29_word(out, size_word_exec(0));
            write_u29_word(out, size_word_exec(0));
            proof {
                assert(out@ =~= old(out)@ + (seq![MARKER_ARRAY] + u29_bytes(size_word(0))
                    + term_bytes()));
            }
            Ok(())
        } else {
            write_u29_word(out, size_word_exec(children.len() as u64));
            write_u29_word(out, size_word_exec(0));
            let r = self.write_values_from(out, children, 0);
            proof {
                let wl = wv_list(
                    old(self).registry(),
                    old(self).tables(),
                    vv_seq(children@, 0),
                    0,
                );
                assert(out@ =~= old(out)@ + ((seq![MARKER_ARRAY] + u29_bytes(
                    size_word(children@.len() as u64),
                ) + term_bytes()) + wl.bytes));
            }
            r
        }
    }

    /// Writes an object vector through the object table: a pure reference
    /// on a hit, else the vector is stored, then the literal size, the
    /// fixed-length flag, the element-type name and the elements.
    pub fn write_object_vector_element(
        &mut self,
        out: &mut Vec<u8>,
        items: &Vec<Value>,
        elem_type: &Vec<u8>,
        fixed_length: bool,
    ) -> (r: Result<(), AmfError>)
        ensures
            ({
                let w = wv(
                    old(self).registry(),
                    old(self).tables(),
                    ValueV::VectorObject(vv_seq(items@, 0), elem_type@, fixed_length),
                );
                &&& final(out)@ == old(out)@ + w.bytes
                &&& final(self).tables() == w.t
                &&& final(self).registry() == old(self).registry()
                &&& (match r {
                    Ok(()) => w.err is None,
                    Err(e) => w.err == Some(e),
                })
            }),
        decreases items@, 2int, 0int,
    {
        proof {
            crate::types::lemma_vv_seq_len(items@, 0);
        }
        let cand = Value::VectorObject(
            ObjectId(0),
            clone_values(items),
            clone_bytes(elem_type),
            fixed_length,
        );
        proof {
            assert(vv(cand) == ValueV::VectorObject(vv_seq(items@, 0), elem_type@, fixed_length));
        }
        match self.find_object(&cand) {
            Some(i) => {
                self.write_type_marker(out, MARKER_VECTOR_OBJECT);
                write_u29_word(out, ref_word_exec(i as u64));
                proof {
                    assert(out@ =~= old(out)@ + (seq![MARKER_VECTOR_OBJECT] + u29_bytes(
                        ref_word(i as u64),
                    )));
                }
                Ok(())
            },
            None => {
                self.store_object(cand);
                self.write_type_marker(out, MARKER_VECTOR_OBJECT);
                write_u29_word(out, size_word_exec(items.len() as u64));
                out.push(if fixed_length { 1 } else { 0 });
                self.write_byte_string(out, elem_type);
                let ghost t1 = Tables {
                    objects: old(self).tables().objects.push(vv(cand)),
                    ..old(self).tables()
                };
                let ghost (nb, t2) = byte_str_enc(t1, elem_type@);
                let r = self.write_values_from(out, items, 0);
                proof {
                    let wl = wv_list(old(self).registry(), t2, vv_seq(items@, 0), 0);
                    assert(out@ =~= old(out)@ + ((seq![MARKER_VECTOR_OBJECT] + u29_bytes(
                        size_word(items@.len() as u64),
                    ) + seq![flag_byte(fixed_length)] + nb) + wl.bytes));
                }
                r
            },
        }
    }

    /// Writes a dictionary: the length-or-reference against the object
    /// table, and the dictionary is stored regardless of the outcome (the
    /// observed wire behaviour); the literal form carries the weak-keys
    /// flag and the interleaved pairs.
    pub fn write_dictionary_element(
        &mut self,
        out: &mut Vec<u8>,
        items: &Vec<(Value, Value)>,
        weak_keys: bool,
    ) -> (r: Result<(), AmfError>)
        ensures
            ({
                let w = wv(
                    old(self).registry(),
                    old(self).tables(),
                    ValueV::Dictionary(vv_pairs(items@, 0), weak_keys),
                );
                &&& final(out)@ == old(out)@ + w.bytes
                &&& final(self).tables() == w.t
                &&& final(self).registry() == old(self).registry()
                &&& (match r {
                    Ok(()) => w.err is None,
                    Err(e) => w.err == Some(e),
                })
            }),
        decreases items@, 2int, 0int,
    {
        proof {
            crate::types::lemma_vv_pairs_len(items@, 0);
        }
        let cand = Value::Dictionary(ObjectId(0), clone_pairs(items), weak_keys);
        proof {
            assert(vv(cand) == ValueV::Dictionary(vv_pairs(items@, 0), weak_keys));
        }
        let found = self.find_object(&cand);
        self.store_object(cand);
        match found {
            Some(i) => {
                self.write_type_marker(out, MARKER_DICTIONARY);
                write_u29_word(out, ref_word_exec(i as u64));
                proof {
                    assert(out@ =~= old(out)@ + (seq![MARKER_DICTIONARY] + u29_bytes(
                        ref_word(i as u64),
                    )));
                }
                Ok(())
            },
            None => {
                self.write_type_marker(out, MARKER_DICTIONARY);
                write_u29_word(out, size_word_exec(items.len() as u64));
                out.push(if weak_keys { 1 } else { 0 });
                let r = self.write_dict_from(out, items, 0);
                proof {
                    let t1 = Tables {
                        objects: old(self).tables().objects.push(
                            ValueV::Dictionary(vv_pairs(items@, 0), weak_keys),
                        ),
                        ..old(self).tables()
                    };
                    let wd = wv_dict(old(self).registry(), t1, vv_pairs(items@, 0), 0);
                    assert(out@ =~= old(out)@ + ((seq![MARKER_DICTIONARY] + u29_bytes(
                        size_word(items@.len() as u64),
                    ) + seq![flag_byte(weak_keys)]) + wd.bytes));
                }
                r
            },
        }
    }

    /// Writes an ECMA (mixed) array: the literal dense size, the
    /// associative name/value pairs with their sentinel, then the dense
    /// elements; never reference-cached.
    pub fn write_ecma_array_element(
        &mut self,
        out: &mut Vec<u8>,
        dense: &Vec<Value>,
        assoc: &Vec<Element>,
    ) -> (r: Result<(), AmfError>)
        ensures
            ({
                let w = wv(
                    old(self).registry(),
                    old(self).tables(),
                    ValueV::ECMAArray(vv_seq(dense@, 0), vv_elems(assoc@, 0), 0),
                );
                &&& final(out)@ == old(out)@ + w.bytes
                &&& final(self).tables() == w.t
                &&& final(self).registry() == old(self).registry()
                &&& (match r {
                    Ok(()) => w.err is None,
                    Err(e) => w.err == Some(e),
                })
            }),
    {
        proof {
            crate::types::lemma_vv_seq_len(dense@, 0);
        }
        self.write_type_marker(out, MARKER_ARRAY);
        write_u29_word(out, size_word_exec(dense.len() as u64));
        let ghost head = seq![MARKER_ARRAY] + u29_bytes(size_word(dense@.len() as u64));
        let r1 = self.write_assoc_from(out, assoc, 0);
        let ghost w1 = wv_assoc(
            old(self).registry(),
            old(self).tables(),
            vv_elems(assoc@, 0),
            0,
        );
        match r1 {
            Err(e) => {
                proof {
                    assert(out@ =~= old(out)@ + (head + w1.bytes));
                }
                return Err(e);
            },
            Ok(()) => {},
        }
        write_u29_word(out, size_word_exec(0));
        let r2 = self.write_values_from(out, dense, 0);
        proof {
            let w2 = wv_list(old(self).registry(), w1.t, vv_seq(dense@, 0), 0);
            assert(out@ =~= old(out)@ + ((head + w1.bytes + term_bytes()) + w2.bytes));
        }
        r2
    }

    /// Writes any value under the AMF3 grammar.  Decoded-only variants
    /// (back-references) are not valid encode input and fail with
    /// `UnsupportedValue`.
    #[verifier::rlimit(100)]
    pub fn write_value(&mut self, out: &mut Vec<u8>, v: &Value) -> (r: Result<(), AmfError>)
        ensures
            ({
                let w = wv(old(self).registry(), old(self).tables(), vv(*v));
                &&& final(out)@ == old(out)@ + w.bytes
                &&& final(self).tables() == w.t
                &&& final(self).registry() == old(self).registry()
                &&& (match r {
                    Ok(()) => w.err is None,
                    Err(e) => w.err == Some(e),
                })
            }),
        decreases *v, 0int, 0int,
    {
        match v {
            Value::Number(x) => {
                self.write_number_element(out, *x);
                Ok(())
            },
            Value::Bool(b) => {
                self.write_boolean_element(out, *b);
                Ok(())
            },
            Value::String(s) => {
                self.write_string_element(out, s);
                Ok(())
            },
            Value::Object(_, children, class_def) => {
                self.write_object_element(out, children, None, class_def)
            },
            Value::Null => {
                self.write_null_element(out);
                Ok(())
            },
            Value::Undefined => {
                self.write_undefined_element(out);
                Ok(())
            },
            Value::ECMAArray(_, dense, assoc, _len) => {
                proof {
                    crate::types::lemma_vv_seq_len(dense@, 0);
                }
                self.write_type_marker(out, MARKER_ARRAY);
                write_u29_word(out, size_word_exec(dense.len() as u64));
                let ghost head = seq![MARKER_ARRAY] + u29_bytes(size_word(dense@.len() as u64));
                let r1 = self.write_assoc_from(out, assoc, 0);
                let ghost w1 = wv_assoc(
                    old(self).registry(),
                    old(self).tables(),
                    vv_elems(assoc@, 0),
                    0,
                );
                match r1 {
                    Err(e) => {
                        proof {
                            assert(out@ =~= old(out)@ + (head + w1.bytes));
                        }
                        Err(e)
                    },
                    Ok(()) => {
                        write_u29_word(out, size_word_exec(0));
                        let r2 = self.write_values_from(out, dense, 0);
                        proof {
                            let w2 = wv_list(old(self).registry(), w1.t, vv_seq(dense@, 0), 0);
                            assert(out@ =~= old(out)@ + ((head + w1.bytes + term_bytes())
                                + w2.bytes));
                        }
                        r2
                    },
                }
            },
            Value::StrictArray(_, children) => self.write_strict_array_element(out, children),
            Value::Date(time, _tz) => {
                self.write_date_element(out, *time);
                Ok(())
            },
            Value::Unsupported => {
                self.write_undefined_element(out);
                Ok(())
            },
            Value::XML(content, string) => {
                self.write_xml_element(out, content, *string);
                Ok(())
            },
            Value::AMF3(inner) => {
                let r = self.write_value(out, inner);
                proof {
                    assert(seq![vv(**inner)][0] == vv(**inner));
                }
                r
            },
            Value::Integer(i) => {
                self.write_integer_element(out, *i);
                Ok(())
            },
            Value::ByteArray(bytes) => {
                self.write_byte_array_element(out, bytes);
                Ok(())
            },
            Value::VectorInt(items, fixed_length) => {
                self.write_int_vector(out, items, *fixed_length);
                Ok(())
            },
            Value::VectorUInt(items, fixed_length) => {
                self.write_uint_vector(out, items, *fixed_length);
                Ok(())
            },
            Value::VectorDouble(items, fixed_length) => {
                self.write_number_vector(out, items, *fixed_length);
                Ok(())
            },
            Value::VectorObject(_, items, elem_type, fixed_length) => {
                self.write_object_vector_element(out, items, elem_type, *fixed_length)
            },
            Value::Dictionary(_, kv, weak_keys) => {
                self.write_dictionary_element(out, kv, *weak_keys)
            },
            Value::Custom(elements, dynamic_elements, def) => {
                self.write_object_element(out, dynamic_elements, Some(elements), def)
            },
            Value::Reference(_) => {
                proof {
                    assert(out@ =~= old(out)@ + Seq::<u8>::empty());
                }
                Err(AmfError::UnsupportedValue)
            },
            Value::Amf3ObjectReference(_) => {
                proof {
                    assert(out@ =~= old(out)@ + Seq::<u8>::empty());
                }
                Err(AmfError::UnsupportedValue)
            },
        }
    }

    /// Writes one value (the form the value-reference sharing handle takes
    /// in a tree).
    pub fn write_value_element(&mut self, out: &mut Vec<u8>, s: &Value) -> (r: Result<
        (),
        AmfError,
    >)
        ensures
            ({
                let w = wv(old(self).registry(), old(self).tables(), vv(*s));
                &&& final(out)@ == old(out)@ + w.bytes
                &&& final(self).tables() == w.t
                &&& final(self).registry() == old(self).registry()
                &&& (match r {
                    Ok(()) => w.err is None,
                    Err(e) => w.err == Some(e),
                })
            }),
    {
        self.write_value(out, s)
    }

    /// Writes one named element: its name as a byte string, then its value.
    pub fn write_element(&mut self, out: &mut Vec<u8>, element: &Element) -> (r: Result<
        (),
        AmfError,
    >)
        ensures
            ({
                let w = element_enc(
                    old(self).registry(),
                    old(self).tables(),
                    element.name@,
                    vv(element.value),
                );
                &&& final(out)@ == old(out)@ + w.bytes
                &&& final(self).tables() == w.t
                &&& final(self).registry() == old(self).registry()
                &&& (match r {
                    Ok(()) => w.err is None,
                    Err(e) => w.err == Some(e),
                })
            }),
    {
        self.write_byte_string(out, &element.name);
        let r = self.write_value_element(out, &element.value);
        proof {
            let (nb, t1) = byte_str_enc(old(self).tables(), element.name@);
            let w1 = wv(old(self).registry(), t1, vv(element.value));
            assert(out@ =~= old(out)@ + (nb + w1.bytes));
        }
        r
    }

    /// Writes one element and the container padding after it.
    pub fn write_element_and_padding(&mut self, out: &mut Vec<u8>, element: &Element) -> (r:
        Result<(), AmfError>)
        ensures
            ({
                let w = element_enc(
                    old(self).registry(),
                    old(self).tables(),
                    element.name@,
                    vv(element.value),
                );
                &&& final(self).tables() == w.t
                &&& final(self).registry() == old(self).registry()
                &&& (match r {
                    Ok(()) => w.err is None && final(out)@ == old(out)@ + w.bytes
                        + padding_bytes(),
                    Err(e) => w.err == Some(e) && final(out)@ == old(out)@ + w.bytes,
                })
            }),
    {
        let r = self.write_element(out, element);
        match r {
            Ok(()) => {
                out.push(0u8);
                proof {
                    let w = element_enc(
                        old(self).registry(),
                        old(self).tables(),
                        element.name@,
                        vv(element.value),
                    );
                    assert(out@ =~= old(out)@ + w.bytes + padding_bytes());
                }
                Ok(())
            },
            Err(e) => Err(e),
        }
    }

    /// Writes the body of one pass: each element followed by the padding.
    pub fn write_body(&mut self, out: &mut Vec<u8>, elements: &Vec<Element>) -> (r: Result<
        (),
        AmfError,
    >)
        ensures
            ({
                let w = body_enc(
                    old(self).registry(),
                    old(self).tables(),
                    vv_elems(elements@, 0),
                    0,
                );
                &&& final(out)@ == old(out)@ + w.bytes
                &&& final(self).tables() == w.t
                &&& final(self).registry() == old(self).registry()
                &&& (match r {
                    Ok(()) => w.err is None,
                    Err(e) => w.err == Some(e),
                })
            }),
    {
        self.write_body_from(out, elements, 0)
    }

    /// Writes the body elements from index `i` on.
    fn write_body_from(&mut self, out: &mut Vec<u8>, elements: &Vec<Element>, i: usize) -> (r:
        Result<(), AmfError>)
        ensures
            ({
                let w = body_enc(
                    old(self).registry(),
                    old(self).tables(),
                    vv_elems(elements@, 0),
                    i as int,
                );
                &&& final(out)@ == old(out)@ + w.bytes
                &&& final(self).tables() == w.t
                &&& final(self).registry() == old(self).registry()
                &&& (match r {
                    Ok(()) => w.err is None,
                    Err(e) => w.err == Some(e),
                })
            }),
        decreases elements.len() - i,
    {
        proof {
            crate::types::lemma_vv_elems_len(elements@, 0);
        }
        if i >= elements.len() {
            proof {
                assert(out@ =~= old(out)@ + Seq::<u8>::empty());
            }
            return Ok(());
        }
        proof {
            crate::types::lemma_vv_elems_index(elements@, 0, i as int);
        }
        let r1 = self.write_element_and_padding(out, &elements[i]);
        let ghost w1 = element_enc(
            old(self).registry(),
            old(self).tables(),
            elements@[i as int].name@,
            vv(elements@[i as int].value),
        );
        match r1 {
            Err(e) => {
                return Err(e);
            },
            Ok(()) => {},
        }
        let r2 = self.write_body_from(out, elements, i + 1);
        proof {
            let w2 = body_enc(old(self).registry(), w1.t, vv_elems(elements@, 0), i + 1);
            assert(out@ =~= old(out)@ + ((w1.bytes + padding_bytes()) + w2.bytes));
        }
        r2
    }
}

impl Default for AMF3Encoder<NoExternalEncoders> {
    /// A fresh engine with no registered external encoders.
    fn default() -> (r: Self)
        ensures
            r.tables() == empty_tables(),
    {
        AMF3Encoder::new(NoExternalEncoders)
    }
}

} // verus!
