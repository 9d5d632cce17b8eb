//! Laws of the engines: the reference tables only grow during a pass, a
//! string or trait written once is reused by reference afterwards, an
//! object is registered before its children, a failing externalizable
//! registration writes nothing, and the AMF0 string boundary.

use vstd::prelude::*;
use crate::types::{
    AmfError, ClassDefV, ValueV, lemma_table_index, lemma_table_index_first, table_index,
};
use crate::u29::u29_bytes;
use crate::amf3::{
    ExternalEncoderRegistry, Tables, byte_str_enc, class_def_enc, elem_index, lemma_elem_index,
    prop_names_enc, ref_word, size_word, term_bytes, trait_full_word, trait_ref_word, wv,
    wv_assoc, wv_dict, wv_dyn, wv_list, wv_obj_body, wv_object, wv_static, MARKER_OBJECT,
};
use crate::amf0::{a0_long_string, a0_string, wv0, MARKER0_LONG_STRING, MARKER0_STRING};

verus! {

/// `b` extends `a`: every table of `b` begins with the same entries.
pub open spec fn tables_grow(a: Tables, b: Tables) -> bool {
    &&& a.strings.len() <= b.strings.len()
    &&& (forall|j: int| 0 <= j < a.strings.len() ==> b.strings[j] == a.strings[j])
    &&& a.traits.len() <= b.traits.len()
    &&& (forall|j: int| 0 <= j < a.traits.len() ==> b.traits[j] == a.traits[j])
    &&& a.objects.len() <= b.objects.len()
    &&& (forall|j: int| 0 <= j < a.objects.len() ==> b.objects[j] == a.objects[j])
}

/// Growth is transitive.
pub proof fn lemma_grow_trans(a: Tables, b: Tables, c: Tables)
    requires
        tables_grow(a, b),
        tables_grow(b, c),
    ensures
        tables_grow(a, c),
{
}

/// A first match survives any growth of the table: the entries before it
/// are unchanged, so it stays the first.
pub proof fn lemma_index_preserved<T>(t1: Seq<T>, t2: Seq<T>, x: T, i: int)
    requires
        table_index(t1, x) == Some(i),
        t1.len() <= t2.len(),
        forall|j: int| 0 <= j < t1.len() ==> t2[j] == t1[j],
    ensures
        table_index(t2, x) == Some(i),
{
    lemma_table_index(t1, x);
    lemma_table_index_first(t2, x, i);
}

/// Writing a byte string only appends to the tables.
pub proof fn lemma_byte_str_grows(t: Tables, s: Seq<u8>)
    ensures
        tables_grow(t, byte_str_enc(t, s).1),
{
}

/// Writing property names only appends to the tables.
pub proof fn lemma_prop_names_grows(t: Tables, props: Seq<Seq<u8>>, i: int)
    ensures
        tables_grow(t, prop_names_enc(t, props, i).1),
    decreases props.len() - i,
{
    if 0 <= i < props.len() {
        let (b1, t1) = byte_str_enc(t, props[i]);
        lemma_byte_str_grows(t, props[i]);
        lemma_prop_names_grows(t1, props, i + 1);
        lemma_grow_trans(t, t1, prop_names_enc(t1, props, i + 1).1);
    }
}

/// Writing a trait definition only appends to the tables.
pub proof fn lemma_class_def_grows(t: Tables, def: ClassDefV)
    ensures
        tables_grow(t, class_def_enc(t, def).1),
{
    let (nb, t1) = byte_str_enc(t, def.name);
    lemma_byte_str_grows(t, def.name);
    lemma_prop_names_grows(t1, def.static_properties, 0);
    lemma_grow_trans(t, t1, prop_names_enc(t1, def.static_properties, 0).1);
}

/// Writing any value only appends to the tables: indices handed out
/// earlier in the pass stay valid.
pub proof fn lemma_wv_grows<E: ExternalEncoderRegistry>(reg: E, t: Tables, v: ValueV)
    ensures
        tables_grow(t, wv(reg, t, v).t),
    decreases v, 0int, 0int,
{
    match v {
        ValueV::String(s) => {
            lemma_byte_str_grows(t, s);
        },
        ValueV::Object(ch, cd) => {
            lemma_wv_object_grows(reg, t, ch, ch, cd);
        },
        ValueV::ECMAArray(dense, assoc, _len) => {
            let w1 = wv_assoc(reg, t, assoc, 0);
            lemma_wv_assoc_grows(reg, t, assoc, 0);
            if !(w1.err is Some) {
                lemma_wv_list_grows(reg, w1.t, dense, 0);
                lemma_grow_trans(t, w1.t, wv_list(reg, w1.t, dense, 0).t);
            }
        },
        ValueV::StrictArray(ch) => {
            if ch.len() != 0 {
                lemma_wv_list_grows(reg, t, ch, 0);
            }
        },
        ValueV::AMF3(inner) => {
            if inner.len() == 1 {
                lemma_wv_grows(reg, t, inner[0]);
            }
        },
        ValueV::VectorObject(items, tname, _fixed) => {
            if table_index(t.objects, v) is None {
                let t1 = Tables { objects: t.objects.push(v), ..t };
                let (nb, t2) = byte_str_enc(t1, tname);
                lemma_byte_str_grows(t1, tname);
                lemma_wv_list_grows(reg, t2, items, 0);
                lemma_grow_trans(t1, t2, wv_list(reg, t2, items, 0).t);
                lemma_grow_trans(t, t1, wv_list(reg, t2, items, 0).t);
            }
        },
        ValueV::Dictionary(pairs, _weak) => {
            let t1 = Tables { objects: t.objects.push(v), ..t };
            if table_index(t.objects, v) is None {
                lemma_wv_dict_grows(reg, t1, pairs, 0);
                lemma_grow_trans(t, t1, wv_dict(reg, t1, pairs, 0).t);
            }
        },
        ValueV::Custom(custom, regular, cd) => {
            lemma_wv_object_grows(reg, t, regular, custom, cd);
        },
        _ => {},
    }
}

/// The object path only appends to the tables.
pub proof fn lemma_wv_object_grows<E: ExternalEncoderRegistry>(
    reg: E,
    t: Tables,
    children: Seq<(Seq<u8>, ValueV)>,
    payload: Seq<(Seq<u8>, ValueV)>,
    cd: Option<ClassDefV>,
)
    ensures
        tables_grow(t, wv_object(reg, t, children, payload, cd).t),
    decreases children, 3int, 0int,
{
    let def = match cd {
        Some(d) => d,
        None => crate::amf3::default_class_def(),
    };
    if !(def.attributes.external && !reg.spec_has(def.name)) {
        let key = ValueV::Object(children, cd);
        if table_index(t.objects, key) is None {
            let t1 = Tables { objects: t.objects.push(key), ..t };
            match table_index(t1.traits, def) {
                Some(_ti) => {
                    lemma_wv_obj_body_grows(reg, t1, children, payload, def);
                    lemma_grow_trans(t, t1, wv_obj_body(reg, t1, children, payload, def).t);
                },
                None => {
                    let t2 = Tables { traits: t1.traits.push(def), ..t1 };
                    let (db, t3) = class_def_enc(t2, def);
                    lemma_class_def_grows(t2, def);
                    lemma_wv_obj_body_grows(reg, t3, children, payload, def);
                    lemma_grow_trans(t2, t3, wv_obj_body(reg, t3, children, payload, def).t);
                    lemma_grow_trans(t1, t2, wv_obj_body(reg, t3, children, payload, def).t);
                    lemma_grow_trans(t, t1, wv_obj_body(reg, t3, children, payload, def).t);
                },
            }
        }
    }
}

/// The object body only appends to the tables.
pub proof fn lemma_wv_obj_body_grows<E: ExternalEncoderRegistry>(
    reg: E,
    t: Tables,
    children: Seq<(Seq<u8>, ValueV)>,
    payload: Seq<(Seq<u8>, ValueV)>,
    def: ClassDefV,
)
    ensures
        tables_grow(t, wv_obj_body(reg, t, children, payload, def).t),
    decreases children, 2int, 0int,
{
    if !def.attributes.external {
        let w1 = wv_static(reg, t, def.static_properties, children, 0);
        lemma_wv_static_grows(reg, t, def.static_properties, children, 0);
        if def.attributes.dynamic && !(w1.err is Some) {
            lemma_wv_dyn_grows(reg, w1.t, def.static_properties, children, 0);
            lemma_grow_trans(t, w1.t, wv_dyn(reg, w1.t, def.static_properties, children, 0).t);
        }
    }
}

/// The static section only appends to the tables.
pub proof fn lemma_wv_static_grows<E: ExternalEncoderRegistry>(
    reg: E,
    t: Tables,
    props: Seq<Seq<u8>>,
    es: Seq<(Seq<u8>, ValueV)>,
    i: int,
)
    ensures
        tables_grow(t, wv_static(reg, t, props, es, i).t),
    decreases es, 1int, props.len() - i,
{
    if 0 <= i < props.len() {
        match elem_index(es, props[i]) {
            Some(k) => {
                lemma_elem_index(es, props[i]);
                let w = wv(reg, t, es[k].1);
                lemma_wv_grows(reg, t, es[k].1);
                if !(w.err is Some) {
                    lemma_wv_static_grows(reg, w.t, props, es, i + 1);
                    lemma_grow_trans(t, w.t, wv_static(reg, w.t, props, es, i + 1).t);
                }
            },
            None => {
                lemma_wv_static_grows(reg, t, props, es, i + 1);
            },
        }
    }
}

/// The dynamic section only appends to the tables.
pub proof fn lemma_wv_dyn_grows<E: ExternalEncoderRegistry>(
    reg: E,
    t: Tables,
    props: Seq<Seq<u8>>,
    es: Seq<(Seq<u8>, ValueV)>,
    i: int,
)
    ensures
        tables_grow(t, wv_dyn(reg, t, props, es, i).t),
    decreases es, 1int, es.len() - i,
{
    if 0 <= i < es.len() {
        if !props.contains(es[i].0) {
            let (nb, t1) = byte_str_enc(t, es[i].0);
            lemma_byte_str_grows(t, es[i].0);
            let w = wv(reg, t1, es[i].1);
            lemma_wv_grows(reg, t1, es[i].1);
            lemma_grow_trans(t, t1, w.t);
            if !(w.err is Some) {
                lemma_wv_dyn_grows(reg, w.t, props, es, i + 1);
                lemma_grow_trans(t, w.t, wv_dyn(reg, w.t, props, es, i + 1).t);
            }
        } else {
            lemma_wv_dyn_grows(reg, t, props, es, i + 1);
        }
    }
}

/// The associative part only appends to the tables.
pub proof fn lemma_wv_assoc_grows<E: ExternalEncoderRegistry>(
    reg: E,
    t: Tables,
    es: Seq<(Seq<u8>, ValueV)>,
    i: int,
)
    ensures
        tables_grow(t, wv_assoc(reg, t, es, i).t),
    decreases es, 1int, es.len() - i,
{
    if 0 <= i < es.len() {
        let (nb, t1) = byte_str_enc(t, es[i].0);
        lemma_byte_str_grows(t, es[i].0);
        let w = wv(reg, t1, es[i].1);
        lemma_wv_grows(reg, t1, es[i].1);
        lemma_grow_trans(t, t1, w.t);
        if !(w.err is Some) {
            lemma_wv_assoc_grows(reg, w.t, es, i + 1);
            lemma_grow_trans(t, w.t, wv_assoc(reg, w.t, es, i + 1).t);
        }
    }
}

/// A dense part or vector only appends to the tables.
pub proof fn lemma_wv_list_grows<E: ExternalEncoderRegistry>(
    reg: E,
    t: Tables,
    vs: Seq<ValueV>,
    i: int,
)
    ensures
        tables_grow(t, wv_list(reg, t, vs, i).t),
    decreases vs, 1int, vs.len() - i,
{
    if 0 <= i < vs.len() {
        let w = wv(reg, t, vs[i]);
        lemma_wv_grows(reg, t, vs[i]);
        if !(w.err is Some) {
            lemma_wv_list_grows(reg, w.t, vs, i + 1);
            lemma_grow_trans(t, w.t, wv_list(reg, w.t, vs, i + 1).t);
        }
    }
}

/// A dictionary body only appends to the tables.
pub proof fn lemma_wv_dict_grows<E: ExternalEncoderRegistry>(
    reg: E,
    t: Tables,
    ps: Seq<(ValueV, ValueV)>,
    i: int,
)
    ensures
        tables_grow(t, wv_dict(reg, t, ps, i).t),
    decreases ps, 1int, ps.len() - i,
{
    if 0 <= i < ps.len() {
        let wk = wv(reg, t, ps[i].0);
        lemma_wv_grows(reg, t, ps[i].0);
        if !(wk.err is Some) {
            let wx = wv(reg, wk.t, ps[i].1);
            lemma_wv_grows(reg, wk.t, ps[i].1);
            lemma_grow_trans(t, wk.t, wx.t);
            if !(wx.err is Some) {
                lemma_wv_dict_grows(reg, wx.t, ps, i + 1);
                lemma_grow_trans(t, wx.t, wv_dict(reg, wx.t, ps, i + 1).t);
            }
        }
    }
}

/// String reference reuse: in one pass, the first occurrence of a
/// non-empty string writes the literal size, the raw bytes, and takes the
/// next table slot; after any other value is written, a second occurrence
/// writes a pure reference index to that same slot and stores nothing.
pub proof fn lemma_string_reference_reuse<E: ExternalEncoderRegistry>(
    reg: E,
    t: Tables,
    s: Seq<u8>,
    mid: ValueV,
)
    requires
        s.len() > 0,
        table_index(t.strings, s) is None,
    ensures
        ({
            let (b1, t1) = byte_str_enc(t, s);
            let w = wv(reg, t1, mid);
            let (b2, t2) = byte_str_enc(w.t, s);
            &&& b1 == u29_bytes(size_word(s.len() as u64)) + s
            &&& t1.strings == t.strings.push(s)
            &&& b2 == u29_bytes(ref_word(t.strings.len() as u64))
            &&& t2 == w.t
        }),
{
    let (b1, t1) = byte_str_enc(t, s);
    lemma_table_index(t.strings, s);
    lemma_table_index_first(t1.strings, s, t.strings.len() as int);
    let w = wv(reg, t1, mid);
    lemma_wv_grows(reg, t1, mid);
    lemma_index_preserved(t1.strings, w.t.strings, s, t.strings.len() as int);
}

/// The empty string never touches the string table: it is always the
/// literal size 0, whatever the table holds.
pub proof fn lemma_empty_string_no_slot(t: Tables)
    ensures
        byte_str_enc(t, seq![]).0 == term_bytes(),
        byte_str_enc(t, seq![]).1 == t,
{
}

/// Trait reuse: the first object of a trait not yet in the table emits
/// the full trait word and definition and stores the trait at the next
/// index; any later object of a structurally identical trait in the same
/// pass, unless it is itself a pure object reference, emits that trait
/// index as a trait-reference word instead of re-emitting the definition.
pub proof fn lemma_trait_reuse<E: ExternalEncoderRegistry>(
    reg: E,
    t: Tables,
    ch1: Seq<(Seq<u8>, ValueV)>,
    ch2: Seq<(Seq<u8>, ValueV)>,
    def: ClassDefV,
)
    requires
        !def.attributes.external,
        table_index(t.traits, def) is None,
        table_index(t.objects, ValueV::Object(ch1, Some(def))) is None,
    ensures
        ({
            let w1 = wv_object(reg, t, ch1, ch1, Some(def));
            let t1 = Tables { objects: t.objects.push(ValueV::Object(ch1, Some(def))), ..t };
            let t2 = Tables { traits: t1.traits.push(def), ..t1 };
            let (db, t3) = class_def_enc(t2, def);
            &&& w1.bytes == seq![MARKER_OBJECT] + u29_bytes(
                trait_full_word(def.static_properties.len() as u64, def.attributes),
            ) + db + wv_obj_body(reg, t3, ch1, ch1, def).bytes
            &&& table_index(w1.t.traits, def) == Some(t.traits.len() as int)
            &&& (table_index(w1.t.objects, ValueV::Object(ch2, Some(def))) is None ==> {
                let w2 = wv_object(reg, w1.t, ch2, ch2, Some(def));
                w2.bytes == seq![MARKER_OBJECT] + u29_bytes(
                    trait_ref_word(t.traits.len() as u64),
                ) + wv_obj_body(
                    reg,
                    Tables {
                        objects: w1.t.objects.push(ValueV::Object(ch2, Some(def))),
                        ..w1.t
                    },
                    ch2,
                    ch2,
                    def,
                ).bytes
            })
        }),
{
    let key1 = ValueV::Object(ch1, Some(def));
    let t1 = Tables { objects: t.objects.push(key1), ..t };
    lemma_table_index(t1.traits, def);
    let t2 = Tables { traits: t1.traits.push(def), ..t1 };
    let (db, t3) = class_def_enc(t2, def);
    let w1 = wv_object(reg, t, ch1, ch1, Some(def));
    assert(w1.bytes =~= seq![MARKER_OBJECT] + u29_bytes(
        trait_full_word(def.static_properties.len() as u64, def.attributes),
    ) + db + wv_obj_body(reg, t3, ch1, ch1, def).bytes);
    lemma_table_index_first(t2.traits, def, t.traits.len() as int);
    lemma_class_def_grows(t2, def);
    lemma_wv_obj_body_grows(reg, t3, ch1, ch1, def);
    lemma_grow_trans(t2, t3, w1.t);
    lemma_index_preserved(t2.traits, w1.t.traits, def, t.traits.len() as int);
    let key2 = ValueV::Object(ch2, Some(def));
    if table_index(w1.t.objects, key2) is None {
        let u1 = Tables { objects: w1.t.objects.push(key2), ..w1.t };
        lemma_index_preserved(t2.traits, u1.traits, def, t.traits.len() as int);
        let w2 = wv_object(reg, w1.t, ch2, ch2, Some(def));
        assert(w2.bytes =~= seq![MARKER_OBJECT] + u29_bytes(
            trait_ref_word(t.traits.len() as u64),
        ) + wv_obj_body(reg, u1, ch2, ch2, def).bytes);
    }
}

/// Cycle-safety groundwork: an object written in literal form takes the
/// next object-table index before any of its children are visited, and
/// its entry still stands there when the write completes.
pub proof fn lemma_object_registered_before_children<E: ExternalEncoderRegistry>(
    reg: E,
    t: Tables,
    children: Seq<(Seq<u8>, ValueV)>,
    payload: Seq<(Seq<u8>, ValueV)>,
    def: ClassDefV,
)
    requires
        !def.attributes.external,
        table_index(t.objects, ValueV::Object(children, Some(def))) is None,
    ensures
        ({
            let w = wv_object(reg, t, children, payload, Some(def));
            &&& w.t.objects.len() > t.objects.len()
            &&& w.t.objects[t.objects.len() as int] == ValueV::Object(children, Some(def))
        }),
{
    let key = ValueV::Object(children, Some(def));
    let t1 = Tables { objects: t.objects.push(key), ..t };
    match table_index(t1.traits, def) {
        Some(_ti) => {
            lemma_wv_obj_body_grows(reg, t1, children, payload, def);
        },
        None => {
            let t2 = Tables { traits: t1.traits.push(def), ..t1 };
            let (db, t3) = class_def_enc(t2, def);
            lemma_class_def_grows(t2, def);
            lemma_wv_obj_body_grows(reg, t3, children, payload, def);
            lemma_grow_trans(t2, t3, wv_obj_body(reg, t3, children, payload, def).t);
        },
    }
}

/// Failure scenario: an object whose trait is `external` but whose class
/// name has no registered encoder fails with `UnsupportedExternalType`
/// without writing a single byte or touching a table.
pub proof fn lemma_external_unregistered_writes_nothing<E: ExternalEncoderRegistry>(
    reg: E,
    t: Tables,
    children: Seq<(Seq<u8>, ValueV)>,
    payload: Seq<(Seq<u8>, ValueV)>,
    def: ClassDefV,
)
    requires
        def.attributes.external,
        !reg.spec_has(def.name),
    ensures
        ({
            let w = wv_object(reg, t, children, payload, Some(def));
            &&& w.err == Some(AmfError::UnsupportedExternalType)
            &&& w.bytes == Seq::<u8>::empty()
            &&& w.t == t
        }),
{
}

/// Boundary: a string of at most 65535 bytes takes the short AMF0 form;
/// one byte more forces the long-string form.
pub proof fn lemma_amf0_string_boundary(s: Seq<u8>)
    ensures
        s.len() <= 65535 ==> wv0(ValueV::String(s)).bytes == seq![MARKER0_STRING] + a0_string(s),
        s.len() > 65535 ==> wv0(ValueV::String(s)).bytes == seq![MARKER0_LONG_STRING]
            + a0_long_string(s),
        wv0(ValueV::String(s)).err is None,
{
}

} // verus!
