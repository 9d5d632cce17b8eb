//! The value model shared by the AMF0 and AMF3 engines: the tagged `Value`
//! union, named `Element`s, class traits, and the ghost views the engine
//! contracts are stated over.

use vstd::prelude::*;

verus! {

/// An opaque identity token carried by values that may be shared or form
/// cycles.  A decoder assigns these; the encoders ignore them, and two
/// occurrences of one token denote the same logical object.
#[derive(Clone, Copy, PartialEq, Eq, Structural, Debug)]
pub struct ObjectId(pub u32);

/// An AMF0 back-reference token: the index of a previously written complex
/// value, tracked by the caller.
#[derive(Clone, Copy, PartialEq, Eq, Structural, Debug)]
pub struct Reference(pub u16);

/// The attribute set of a class trait: `external` delegates the payload to a
/// registered custom encoder, `dynamic` appends name/value pairs after the
/// static properties.
#[derive(Clone, Copy, PartialEq, Eq, Structural, Debug)]
pub struct ClassAttributes {
    pub external: bool,
    pub dynamic: bool,
}

/// A class trait: name, ordered static property names and attribute flags.
/// Equality is structural and decides trait-table reuse.
#[derive(Debug)]
pub struct ClassDefinition {
    pub name: Vec<u8>,
    pub attributes: ClassAttributes,
    pub static_properties: Vec<Vec<u8>>,
}

/// A name/value pair; order is significant and round-trips.
#[derive(Debug)]
pub struct Element {
    pub name: Vec<u8>,
    pub value: Value,
}

/// A single or compound value: one variant per wire type.
///
/// Doubles are carried as their IEEE-754 bit patterns (`u64`), strings as
/// their UTF-8 bytes, so every variant is an exact bit-level datum.
#[derive(Debug)]
pub enum Value {
    /// The number type (AMF0) and double type (AMF3): IEEE-754 bits.
    Number(u64),
    /// The boolean type (AMF0) and the true/false markers (AMF3).
    Bool(bool),
    /// The string (AMF0/AMF3) and long string (AMF0) types: UTF-8 bytes.
    String(Vec<u8>),
    /// An object: identity, ordered elements, optional class trait.
    Object(ObjectId, Vec<Element>, Option<ClassDefinition>),
    /// The null type.
    Null,
    /// The undefined type.
    Undefined,
    /// An ECMA array: identity, dense part, associative part, declared
    /// AMF0 length (which may differ from the element count).
    ECMAArray(ObjectId, Vec<Value>, Vec<Element>, u32),
    /// A strict (dense) array.
    StrictArray(ObjectId, Vec<Value>),
    /// A date: epoch-milliseconds double as IEEE-754 bits, and an optional
    /// timezone offset (AMF0 only).
    Date(u64, Option<u16>),
    /// The unsupported type.
    Unsupported,
    /// The XML type: text bytes and an is-string-variant flag.
    XML(Vec<u8>, bool),
    /// An AMF3 value embedded in an AMF0 stream.
    AMF3(Box<Value>),
    /// The 29-bit signed integer type (AMF3).
    Integer(i32),
    /// The byte-array type (AMF3).
    ByteArray(Vec<u8>),
    /// A vector of 32-bit signed integers and its fixed-length flag (AMF3).
    VectorInt(Vec<i32>, bool),
    /// A vector of 32-bit unsigned integers and its fixed-length flag (AMF3).
    VectorUInt(Vec<u32>, bool),
    /// A vector of doubles (IEEE-754 bits) and its fixed-length flag (AMF3).
    VectorDouble(Vec<u64>, bool),
    /// An object vector: identity, elements, element-type name bytes,
    /// fixed-length flag (AMF3).
    VectorObject(ObjectId, Vec<Value>, Vec<u8>, bool),
    /// A dictionary: identity, ordered key/value pairs, weak-keys flag (AMF3).
    Dictionary(ObjectId, Vec<(Value, Value)>, bool),
    /// An externalizable object: externalized payload elements, regular
    /// elements, optional class trait.
    Custom(Vec<Element>, Vec<Element>, Option<ClassDefinition>),
    /// An AMF0 back-reference to a previously written value.
    Reference(Reference),
    /// A reference to a previously decoded AMF3 value, by identity token.
    Amf3ObjectReference(ObjectId),
}

/// The failure kinds of an encode or decode pass.  Every failure is terminal
/// for the current pass: no error is downgraded to a default value.
#[derive(Clone, Copy, PartialEq, Eq, Structural, Debug)]
pub enum AmfError {
    /// Insufficient bytes for a declared length while decoding.
    TruncatedInput,
    /// An `external` trait whose class name has no registered encoder.
    UnsupportedExternalType,
    /// A decoded-only variant (a bare back-reference) presented for encoding.
    UnsupportedValue,
}

// ---------------------------------------------------------------------------
// Ghost views.
//
// The engines' contracts are stated over these mathematical images of the
// exec types.  Identity tokens are dropped: reference-table lookups use
// content equality, never identity, so the view is exactly the content the
// wire format depends on.
// ---------------------------------------------------------------------------

/// The mathematical image of a `ClassDefinition`.
#[verifier::ext_equal]
pub struct ClassDefV {
    pub name: Seq<u8>,
    pub attributes: ClassAttributes,
    pub static_properties: Seq<Seq<u8>>,
}

/// The mathematical image of a `Value`, without identity tokens.
///
/// The `AMF3` variant carries a singleton sequence (ghost enums need an
/// indirection for recursion, and `Seq` provides it).
#[verifier::ext_equal]
pub enum ValueV {
    Number(u64),
    Bool(bool),
    String(Seq<u8>),
    Object(Seq<(Seq<u8>, ValueV)>, Option<ClassDefV>),
    Null,
    Undefined,
    ECMAArray(Seq<ValueV>, Seq<(Seq<u8>, ValueV)>, u32),
    StrictArray(Seq<ValueV>),
    Date(u64, Option<u16>),
    Unsupported,
    XML(Seq<u8>, bool),
    AMF3(Seq<ValueV>),
    Integer(i32),
    ByteArray(Seq<u8>),
    VectorInt(Seq<i32>, bool),
    VectorUInt(Seq<u32>, bool),
    VectorDouble(Seq<u64>, bool),
    VectorObject(Seq<ValueV>, Seq<u8>, bool),
    Dictionary(Seq<(ValueV, ValueV)>, bool),
    Custom(Seq<(Seq<u8>, ValueV)>, Seq<(Seq<u8>, ValueV)>, Option<ClassDefV>),
    Reference(u16),
    Amf3ObjectReference(u32),
}

/// The view of a class trait.
pub open spec fn view_class_def(c: ClassDefinition) -> ClassDefV {
    ClassDefV {
        name: c.name@,
        attributes: c.attributes,
        static_properties: c.static_properties@.map_values(|p: Vec<u8>| p@),
    }
}

/// The view of an optional class trait.
pub open spec fn view_opt_class_def(c: Option<ClassDefinition>) -> Option<ClassDefV> {
    match c {
        Some(d) => Some(view_class_def(d)),
        None => None,
    }
}

/// The view of a value, dropping identity tokens.
pub open spec fn vv(v: Value) -> ValueV
    decreases v, 0int,
{
    match v {
        Value::Number(b) => ValueV::Number(b),
        Value::Bool(b) => ValueV::Bool(b),
        Value::String(s) => ValueV::String(s@),
        Value::Object(_, ch, cd) => ValueV::Object(vv_elems(ch@, 0), view_opt_class_def(cd)),
        Value::Null => ValueV::Null,
        Value::Undefined => ValueV::Undefined,
        Value::ECMAArray(_, dense, assoc, len) => ValueV::ECMAArray(
            vv_seq(dense@, 0),
            vv_elems(assoc@, 0),
            len,
        ),
        Value::StrictArray(_, ch) => ValueV::StrictArray(vv_seq(ch@, 0)),
        Value::Date(b, tz) => ValueV::Date(b, tz),
        Value::Unsupported => ValueV::Unsupported,
        Value::XML(s, flag) => ValueV::XML(s@, flag),
        Value::AMF3(inner) => ValueV::AMF3(seq![vv(*inner)]),
        Value::Integer(i) => ValueV::Integer(i),
        Value::ByteArray(bs) => ValueV::ByteArray(bs@),
        Value::VectorInt(items, fixed) => ValueV::VectorInt(items@, fixed),
        Value::VectorUInt(items, fixed) => ValueV::VectorUInt(items@, fixed),
        Value::VectorDouble(items, fixed) => ValueV::VectorDouble(items@, fixed),
        Value::VectorObject(_, items, name, fixed) => ValueV::VectorObject(
            vv_seq(items@, 0),
            name@,
            fixed,
        ),
        Value::Dictionary(_, pairs, weak) => ValueV::Dictionary(vv_pairs(pairs@, 0), weak),
        Value::Custom(custom, regular, cd) => ValueV::Custom(
            vv_elems(custom@, 0),
            vv_elems(regular@, 0),
            view_opt_class_def(cd),
        ),
        Value::Reference(r) => ValueV::Reference(r.0),
        Value::Amf3ObjectReference(id) => ValueV::Amf3ObjectReference(id.0),
    }
}

/// The views of the values of `vs` from index `i` on.
pub open spec fn vv_seq(vs: Seq<Value>, i: int) -> Seq<ValueV>
    decreases vs, vs.len() - i,
{
    if i < 0 || i >= vs.len() {
        seq![]
    } else {
        seq![vv(vs[i])] + vv_seq(vs, i + 1)
    }
}

/// The views of the elements of `es` from index `i` on.
pub open spec fn vv_elems(es: Seq<Element>, i: int) -> Seq<(Seq<u8>, ValueV)>
    decreases es, es.len() - i,
{
    if i < 0 || i >= es.len() {
        seq![]
    } else {
        seq![(es[i].name@, vv(es[i].value))] + vv_elems(es, i + 1)
    }
}

/// The views of the key/value pairs of `ps` from index `i` on.
pub open spec fn vv_pairs(ps: Seq<(Value, Value)>, i: int) -> Seq<(ValueV, ValueV)>
    decreases ps, ps.len() - i,
{
    if i < 0 || i >= ps.len() {
        seq![]
    } else {
        seq![(vv(ps[i].0), vv(ps[i].1))] + vv_pairs(ps, i + 1)
    }
}

// ---------------------------------------------------------------------------
// First-match lookup, the shape every reference table uses.
// ---------------------------------------------------------------------------

/// The index of the first entry of `tab` equal to `x`, if any.
pub open spec fn table_index<T>(tab: Seq<T>, x: T) -> Option<int>
    decreases tab.len(),
{
    if tab.len() == 0 {
        None
    } else if tab[0] == x {
        Some(0)
    } else {
        match table_index(tab.subrange(1, tab.len() as int), x) {
            Some(i) => Some(i + 1),
            None => None,
        }
    }
}

/// `table_index` returns the first match: a hit is in range, equal to the
/// key, and preceded only by non-matches; a miss means no entry matches.
pub proof fn lemma_table_index<T>(tab: Seq<T>, x: T)
    ensures
        match table_index(tab, x) {
            Some(i) => 0 <= i < tab.len() && tab[i] == x && (forall|j: int|
                0 <= j < i ==> tab[j] != x),
            None => forall|j: int| 0 <= j < tab.len() ==> tab[j] != x,
        },
    decreases tab.len(),
{
    if tab.len() > 0 && tab[0] != x {
        let rest = tab.subrange(1, tab.len() as int);
        lemma_table_index(rest, x);
        assert forall|j: int| 1 <= j < tab.len() implies tab[j] == rest[j - 1] by {}
        match table_index(rest, x) {
            Some(i) => {
                assert(table_index(tab, x) == Some(i + 1));
                assert(tab[i + 1] == rest[i]);
                assert forall|j: int| 0 <= j < i + 1 implies tab[j] != x by {
                    if j > 0 {
                        assert(tab[j] == rest[j - 1]);
                    }
                }
            },
            None => {
                assert forall|j: int| 0 <= j < tab.len() implies tab[j] != x by {
                    if j > 0 {
                        assert(tab[j] == rest[j - 1]);
                    }
                }
            },
        }
    }
}

/// A first match at `i` pins `table_index` to `Some(i)`.
pub proof fn lemma_table_index_first<T>(tab: Seq<T>, x: T, i: int)
    requires
        0 <= i < tab.len(),
        tab[i] == x,
        forall|j: int| 0 <= j < i ==> tab[j] != x,
    ensures
        table_index(tab, x) == Some(i),
{
    lemma_table_index(tab, x);
    match table_index(tab, x) {
        Some(k) => {
            if k < i {
                assert(tab[k] != x);
            } else if k > i {
                assert(tab[i] != x);
            }
        },
        None => {
            assert(tab[i] != x);
        },
    }
}

// ---------------------------------------------------------------------------
// Deep equality and deep cloning of values, against the views.
// ---------------------------------------------------------------------------

/// Whether two byte vectors hold the same bytes.
pub fn bytes_eq(a: &Vec<u8>, b: &Vec<u8>) -> (r: bool)
    ensures
        r == (a@ == b@),
{
    if a.len() != b.len() {
        return false;
    }
    let n = a.len();
    let mut i: usize = 0;
    while i < n
        invariant
            n == a.len() == b.len(),
            0 <= i <= n,
            forall|j: int| 0 <= j < i ==> a@[j] == b@[j],
        decreases n - i,
    {
        if a[i] != b[i] {
            return false;
        }
        i = i + 1;
    }
    proof {
        assert(a@ =~= b@);
    }
    true
}

/// Whether two vectors of byte vectors hold the same byte strings.
pub fn byte_strings_eq(a: &Vec<Vec<u8>>, b: &Vec<Vec<u8>>) -> (r: bool)
    ensures
        r == (a@.map_values(|p: Vec<u8>| p@) == b@.map_values(|p: Vec<u8>| p@)),
{
    let ghost av = a@.map_values(|p: Vec<u8>| p@);
    let ghost bv = b@.map_values(|p: Vec<u8>| p@);
    if a.len() != b.len() {
        assert(av.len() != bv.len());
        return false;
    }
    let n = a.len();
    let mut i: usize = 0;
    while i < n
        invariant
            n == a.len() == b.len(),
            0 <= i <= n,
            av == a@.map_values(|p: Vec<u8>| p@),
            bv == b@.map_values(|p: Vec<u8>| p@),
            forall|j: int| 0 <= j < i ==> av[j] == bv[j],
        decreases n - i,
    {
        if !bytes_eq(&a[i], &b[i]) {
            assert(av[i as int] != bv[i as int]);
            return false;
        }
        i = i + 1;
    }
    proof {
        assert(av =~= bv);
    }
    true
}

/// Whether two vectors of 32-bit signed integers hold the same values.
pub fn int_vecs_eq(a: &Vec<i32>, b: &Vec<i32>) -> (r: bool)
    ensures
        r == (a@ == b@),
{
    if a.len() != b.len() {
        return false;
    }
    let n = a.len();
    let mut i: usize = 0;
    while i < n
        invariant
            n == a.len() == b.len(),
            0 <= i <= n,
            forall|j: int| 0 <= j < i ==> a@[j] == b@[j],
        decreases n - i,
    {
        if a[i] != b[i] {
            return false;
        }
        i = i + 1;
    }
    proof {
        assert(a@ =~= b@);
    }
    true
}

/// Whether two vectors of 32-bit unsigned integers hold the same values.
pub fn uint_vecs_eq(a: &Vec<u32>, b: &Vec<u32>) -> (r: bool)
    ensures
        r == (a@ == b@),
{
    if a.len() != b.len() {
        return false;
    }
    let n = a.len();
    let mut i: usize = 0;
    while i < n
        invariant
            n == a.len() == b.len(),
            0 <= i <= n,
            forall|j: int| 0 <= j < i ==> a@[j] == b@[j],
        decreases n - i,
    {
        if a[i] != b[i] {
            return false;
        }
        i = i + 1;
    }
    proof {
        assert(a@ =~= b@);
    }
    true
}

/// Whether two vectors of 64-bit words hold the same values.
pub fn u64_vecs_eq(a: &Vec<u64>, b: &Vec<u64>) -> (r: bool)
    ensures
        r == (a@ == b@),
{
    if a.len() != b.len() {
        return false;
    }
    let n = a.len();
    let mut i: usize = 0;
    while i < n
        invariant
            n == a.len() == b.len(),
            0 <= i <= n,
            forall|j: int| 0 <= j < i ==> a@[j] == b@[j],
        decreases n - i,
    {
        if a[i] != b[i] {
            return false;
        }
        i = i + 1;
    }
    proof {
        assert(a@ =~= b@);
    }
    true
}

/// Whether two class traits are structurally equal: same name, same
/// attribute set, same static property names in the same order.
pub fn class_def_eq(a: &ClassDefinition, b: &ClassDefinition) -> (r: bool)
    ensures
        r == (view_class_def(*a) == view_class_def(*b)),
{
    if !bytes_eq(&a.name, &b.name) {
        return false;
    }
    if !(a.attributes == b.attributes) {
        return false;
    }
    if !byte_strings_eq(&a.static_properties, &b.static_properties) {
        return false;
    }
    proof {
        assert(view_class_def(*a) =~= view_class_def(*b));
    }
    true
}

/// Whether two optional class traits are structurally equal.
pub fn opt_class_def_eq(a: &Option<ClassDefinition>, b: &Option<ClassDefinition>) -> (r: bool)
    ensures
        r == (view_opt_class_def(*a) == view_opt_class_def(*b)),
{
    match (a, b) {
        (None, None) => true,
        (Some(x), Some(y)) => class_def_eq(x, y),
        _ => false,
    }
}

/// Whether two optional timezone offsets are equal.
pub fn opt_u16_eq(a: &Option<u16>, b: &Option<u16>) -> (r: bool)
    ensures
        r == (a == b),
{
    match (a, b) {
        (None, None) => true,
        (Some(x), Some(y)) => *x == *y,
        _ => false,
    }
}

/// Whether two values have the same content, identity tokens aside.
#[verifier::rlimit(100)]
pub fn value_eq(a: &Value, b: &Value) -> (r: bool)
    ensures
        r == (vv(*a) == vv(*b)),
    decreases *a, 0int,
{
    match (a, b) {
        (Value::Number(x), Value::Number(y)) => *x == *y,
        (Value::Bool(x), Value::Bool(y)) => *x == *y,
        (Value::String(x), Value::String(y)) => bytes_eq(x, y),
        (Value::Object(_, ch_a, cd_a), Value::Object(_, ch_b, cd_b)) => {
            elements_eq(ch_a, ch_b, 0) && opt_class_def_eq(cd_a, cd_b)
        },
        (Value::Null, Value::Null) => true,
        (Value::Undefined, Value::Undefined) => true,
        (
            Value::ECMAArray(_, dense_a, assoc_a, len_a),
            Value::ECMAArray(_, dense_b, assoc_b, len_b),
        ) => {
            values_eq(dense_a, dense_b, 0) && elements_eq(assoc_a, assoc_b, 0) && *len_a == *len_b
        },
        (Value::StrictArray(_, ch_a), Value::StrictArray(_, ch_b)) => values_eq(ch_a, ch_b, 0),
        (Value::Date(x, tz_a), Value::Date(y, tz_b)) => *x == *y && opt_u16_eq(tz_a, tz_b),
        (Value::Unsupported, Value::Unsupported) => true,
        (Value::XML(x, fa), Value::XML(y, fb)) => bytes_eq(x, y) && *fa == *fb,
        (Value::AMF3(x), Value::AMF3(y)) => {
            let r = value_eq(x, y);
            proof {
                assert(seq![vv(**x)][0] == vv(**x));
                assert(seq![vv(**y)][0] == vv(**y));
                if r {
                    assert(seq![vv(**x)] =~= seq![vv(**y)]);
                }
            }
            r
        },
        (Value::Integer(x), Value::Integer(y)) => *x == *y,
        (Value::ByteArray(x), Value::ByteArray(y)) => bytes_eq(x, y),
        (Value::VectorInt(x, fa), Value::VectorInt(y, fb)) => *fa == *fb && int_vecs_eq(x, y),
        (Value::VectorUInt(x, fa), Value::VectorUInt(y, fb)) => *fa == *fb && uint_vecs_eq(x, y),
        (Value::VectorDouble(x, fa), Value::VectorDouble(y, fb)) => *fa == *fb && u64_vecs_eq(x, y),
        (
            Value::VectorObject(_, items_a, name_a, fa),
            Value::VectorObject(_, items_b, name_b, fb),
        ) => {
            *fa == *fb && bytes_eq(name_a, name_b) && values_eq(items_a, items_b, 0)
        },
        (Value::Dictionary(_, ps_a, wa), Value::Dictionary(_, ps_b, wb)) => {
            *wa == *wb && pairs_eq(ps_a, ps_b, 0)
        },
        (Value::Custom(ca, ra, cd_a), Value::Custom(cb, rb, cd_b)) => {
            elements_eq(ca, cb, 0) && elements_eq(ra, rb, 0) && opt_class_def_eq(cd_a, cd_b)
        },
        (Value::Reference(x), Value::Reference(y)) => *x == *y,
        (Value::Amf3ObjectReference(x), Value::Amf3ObjectReference(y)) => *x == *y,
        _ => {
            proof {
                assert(vv(*a) != vv(*b));
            }
            false
        },
    }
}

/// Whether `xs` and `ys` agree from index `i` on.
pub fn values_eq(xs: &Vec<Value>, ys: &Vec<Value>, i: usize) -> (r: bool)
    ensures
        r == (vv_seq(xs@, i as int) == vv_seq(ys@, i as int)),
    decreases xs@, xs@.len() - i,
{
    let xs_done = i >= xs.len();
    let ys_done = i >= ys.len();
    if xs_done && ys_done {
        true
    } else if xs_done != ys_done {
        proof {
            lemma_vv_seq_len(xs@, i as int);
            lemma_vv_seq_len(ys@, i as int);
        }
        false
    } else if !value_eq(&xs[i], &ys[i]) {
        proof {
            assert(vv_seq(xs@, i as int)[0] == vv(xs@[i as int]));
            assert(vv_seq(ys@, i as int)[0] == vv(ys@[i as int]));
        }
        false
    } else {
        let r = values_eq(xs, ys, i + 1);
        proof {
            assert(vv_seq(xs@, i as int) == seq![vv(xs@[i as int])] + vv_seq(xs@, i + 1));
            assert(vv_seq(ys@, i as int) == seq![vv(ys@[i as int])] + vv_seq(ys@, i + 1));
            if r {
                assert(vv_seq(xs@, i as int) =~= vv_seq(ys@, i as int));
            } else {
                assert(vv_seq(xs@, i as int) != vv_seq(ys@, i as int)) by {
                    if vv_seq(xs@, i as int) == vv_seq(ys@, i as int) {
                        assert(vv_seq(xs@, i + 1) =~= vv_seq(xs@, i as int).subrange(
                            1,
                            vv_seq(xs@, i as int).len() as int,
                        ));
                        assert(vv_seq(ys@, i + 1) =~= vv_seq(ys@, i as int).subrange(
                            1,
                            vv_seq(ys@, i as int).len() as int,
                        ));
                    }
                }
            }
        }
        r
    }
}

/// Whether the elements of `es` and `fs` agree from index `i` on: same names
/// in the same order, equal values.
pub fn elements_eq(es: &Vec<Element>, fs: &Vec<Element>, i: usize) -> (r: bool)
    ensures
        r == (vv_elems(es@, i as int) == vv_elems(fs@, i as int)),
    decreases es@, es@.len() - i,
{
    let es_done = i >= es.len();
    let fs_done = i >= fs.len();
    if es_done && fs_done {
        true
    } else if es_done != fs_done {
        proof {
            lemma_vv_elems_len(es@, i as int);
            lemma_vv_elems_len(fs@, i as int);
        }
        false
    } else if !bytes_eq(&es[i].name, &fs[i].name) || !value_eq(&es[i].value, &fs[i].value) {
        proof {
            assert(vv_elems(es@, i as int)[0] == (es@[i as int].name@, vv(es@[i as int].value)));
            assert(vv_elems(fs@, i as int)[0] == (fs@[i as int].name@, vv(fs@[i as int].value)));
        }
        false
    } else {
        let r = elements_eq(es, fs, i + 1);
        proof {
            if r {
                assert(vv_elems(es@, i as int) =~= vv_elems(fs@, i as int));
            } else {
                assert(vv_elems(es@, i as int) != vv_elems(fs@, i as int)) by {
                    if vv_elems(es@, i as int) == vv_elems(fs@, i as int) {
                        assert(vv_elems(es@, i + 1) =~= vv_elems(es@, i as int).subrange(
                            1,
                            vv_elems(es@, i as int).len() as int,
                        ));
                        assert(vv_elems(fs@, i + 1) =~= vv_elems(fs@, i as int).subrange(
                            1,
                            vv_elems(fs@, i as int).len() as int,
                        ));
                    }
                }
            }
        }
        r
    }
}

/// Whether the key/value pairs of `ps` and `qs` agree from index `i` on.
pub fn pairs_eq(ps: &Vec<(Value, Value)>, qs: &Vec<(Value, Value)>, i: usize) -> (r: bool)
    ensures
        r == (vv_pairs(ps@, i as int) == vv_pairs(qs@, i as int)),
    decreases ps@, ps@.len() - i,
{
    let ps_done = i >= ps.len();
    let qs_done = i >= qs.len();
    if ps_done && qs_done {
        true
    } else if ps_done != qs_done {
        proof {
            lemma_vv_pairs_len(ps@, i as int);
            lemma_vv_pairs_len(qs@, i as int);
        }
        false
    } else if !value_eq(&ps[i].0, &qs[i].0) || !value_eq(&ps[i].1, &qs[i].1) {
        proof {
            assert(vv_pairs(ps@, i as int)[0] == (vv(ps@[i as int].0), vv(ps@[i as int].1)));
            assert(vv_pairs(qs@, i as int)[0] == (vv(qs@[i as int].0), vv(qs@[i as int].1)));
        }
        false
    } else {
        let r = pairs_eq(ps, qs, i + 1);
        proof {
            if r {
                assert(vv_pairs(ps@, i as int) =~= vv_pairs(qs@, i as int));
            } else {
                assert(vv_pairs(ps@, i as int) != vv_pairs(qs@, i as int)) by {
                    if vv_pairs(ps@, i as int) == vv_pairs(qs@, i as int) {
                        assert(vv_pairs(ps@, i + 1) =~= vv_pairs(ps@, i as int).subrange(
                            1,
                            vv_pairs(ps@, i as int).len() as int,
                        ));
                        assert(vv_pairs(qs@, i + 1) =~= vv_pairs(qs@, i as int).subrange(
                            1,
                            vv_pairs(qs@, i as int).len() as int,
                        ));
                    }
                }
            }
        }
        r
    }
}

// ---------------------------------------------------------------------------
// Deep cloning, for the values the object table keeps.
// ---------------------------------------------------------------------------

/// A copy of a byte vector with the same bytes.
pub fn clone_bytes(v: &Vec<u8>) -> (r: Vec<u8>)
    ensures
        r@ == v@,
{
    let mut r: Vec<u8> = Vec::new();
    let n = v.len();
    let mut i: usize = 0;
    while i < n
        invariant
            n == v.len(),
            0 <= i <= n,
            r@ == v@.subrange(0, i as int),
        decreases n - i,
    {
        r.push(v[i]);
        assert(r@ =~= v@.subrange(0, i + 1));
        i = i + 1;
    }
    assert(r@ =~= v@);
    r
}

/// A copy of a vector of byte vectors with the same byte strings.
pub fn clone_byte_strings(v: &Vec<Vec<u8>>) -> (r: Vec<Vec<u8>>)
    ensures
        r@.map_values(|p: Vec<u8>| p@) == v@.map_values(|p: Vec<u8>| p@),
{
    let mut r: Vec<Vec<u8>> = Vec::new();
    let n = v.len();
    let mut i: usize = 0;
    while i < n
        invariant
            n == v.len(),
            0 <= i <= n,
            r@.len() == i,
            forall|j: int| 0 <= j < i ==> r@[j]@ == v@[j]@,
        decreases n - i,
    {
        r.push(clone_bytes(&v[i]));
        i = i + 1;
    }
    assert(r@.map_values(|p: Vec<u8>| p@) =~= v@.map_values(|p: Vec<u8>| p@));
    r
}


/// A copy of a vector of 32-bit signed integers.
pub fn clone_i32s(v: &Vec<i32>) -> (r: Vec<i32>)
    ensures
        r@ == v@,
{
    let mut r: Vec<i32> = Vec::new();
    let n = v.len();
    let mut i: usize = 0;
    while i < n
        invariant
            n == v.len(),
            0 <= i <= n,
            r@ == v@.subrange(0, i as int),
        decreases n - i,
    {
        r.push(v[i]);
        assert(r@ =~= v@.subrange(0, i + 1));
        i = i + 1;
    }
    assert(r@ =~= v@);
    r
}

/// A copy of a vector of 32-bit unsigned integers.
pub fn clone_u32s(v: &Vec<u32>) -> (r: Vec<u32>)
    ensures
        r@ == v@,
{
    let mut r: Vec<u32> = Vec::new();
    let n = v.len();
    let mut i: usize = 0;
    while i < n
        invariant
            n == v.len(),
            0 <= i <= n,
            r@ == v@.subrange(0, i as int),
        decreases n - i,
    {
        r.push(v[i]);
        assert(r@ =~= v@.subrange(0, i + 1));
        i = i + 1;
    }
    assert(r@ =~= v@);
    r
}

/// A copy of a vector of 64-bit words.
pub fn clone_u64s(v: &Vec<u64>) -> (r: Vec<u64>)
    ensures
        r@ == v@,
{
    let mut r: Vec<u64> = Vec::new();
    let n = v.len();
    let mut i: usize = 0;
    while i < n
        invariant
            n == v.len(),
            0 <= i <= n,
            r@ == v@.subrange(0, i as int),
        decreases n - i,
    {
        r.push(v[i]);
        assert(r@ =~= v@.subrange(0, i + 1));
        i = i + 1;
    }
    assert(r@ =~= v@);
    r
}

/// A copy of a class trait with the same view.
pub fn clone_class_def(c: &ClassDefinition) -> (r: ClassDefinition)
    ensures
        view_class_def(r) == view_class_def(*c),
{
    let r = ClassDefinition {
        name: clone_bytes(&c.name),
        attributes: c.attributes,
        static_properties: clone_byte_strings(&c.static_properties),
    };
    proof {
        assert(view_class_def(r) =~= view_class_def(*c));
    }
    r
}

/// A copy of an optional class trait with the same view.
pub fn clone_opt_class_def(c: &Option<ClassDefinition>) -> (r: Option<ClassDefinition>)
    ensures
        view_opt_class_def(r) == view_opt_class_def(*c),
{
    match c {
        None => None,
        Some(d) => Some(clone_class_def(d)),
    }
}

/// A copy of a value with the same view (identity tokens included).
pub fn clone_value(v: &Value) -> (r: Value)
    ensures
        vv(r) == vv(*v),
    decreases *v, 1int,
{
    match v {
        Value::Number(b) => Value::Number(*b),
        Value::Bool(b) => Value::Bool(*b),
        Value::String(s) => Value::String(clone_bytes(s)),
        Value::Object(id, ch, cd) => {
            let r = Value::Object(*id, clone_elements(ch), clone_opt_class_def(cd));
            r
        },
        Value::Null => Value::Null,
        Value::Undefined => Value::Undefined,
        Value::ECMAArray(id, dense, assoc, len) => Value::ECMAArray(
            *id,
            clone_values(dense),
            clone_elements(assoc),
            *len,
        ),
        Value::StrictArray(id, ch) => Value::StrictArray(*id, clone_values(ch)),
        Value::Date(b, tz) => Value::Date(*b, *tz),
        Value::Unsupported => Value::Unsupported,
        Value::XML(s, flag) => Value::XML(clone_bytes(s), *flag),
        Value::AMF3(inner) => {
            let c = clone_value(inner);
            let r = Value::AMF3(Box::new(c));
            proof {
                assert(seq![vv(c)] =~= seq![vv(**inner)]);
            }
            r
        },
        Value::Integer(i) => Value::Integer(*i),
        Value::ByteArray(bs) => Value::ByteArray(clone_bytes(bs)),
        Value::VectorInt(items, fixed) => Value::VectorInt(clone_i32s(items), *fixed),
        Value::VectorUInt(items, fixed) => Value::VectorUInt(clone_u32s(items), *fixed),
        Value::VectorDouble(items, fixed) => Value::VectorDouble(clone_u64s(items), *fixed),
        Value::VectorObject(id, items, name, fixed) => Value::VectorObject(
            *id,
            clone_values(items),
            clone_bytes(name),
            *fixed,
        ),
        Value::Dictionary(id, pairs, weak) => Value::Dictionary(*id, clone_pairs(pairs), *weak),
        Value::Custom(custom, regular, cd) => Value::Custom(
            clone_elements(custom),
            clone_elements(regular),
            clone_opt_class_def(cd),
        ),
        Value::Reference(r) => Value::Reference(*r),
        Value::Amf3ObjectReference(id) => Value::Amf3ObjectReference(*id),
    }
}

/// A copy of a value vector whose views agree pointwise with the original.
pub fn clone_values(xs: &Vec<Value>) -> (r: Vec<Value>)
    ensures
        vv_seq(r@, 0) == vv_seq(xs@, 0),
    decreases xs@, 0int,
{
    let mut r: Vec<Value> = Vec::new();
    let n = xs.len();
    let mut i: usize = 0;
    while i < n
        invariant
            n == xs.len(),
            0 <= i <= n,
            r@.len() == i,
            forall|j: int| 0 <= j < i ==> vv(r@[j]) == vv(xs@[j]),
        decreases n - i,
    {
        let c = clone_value(&xs[i]);
        r.push(c);
        i = i + 1;
    }
    proof {
        lemma_vv_seq_pointwise(r@, xs@);
    }
    r
}

/// A copy of an element vector whose views agree pointwise.
pub fn clone_elements(es: &Vec<Element>) -> (r: Vec<Element>)
    ensures
        vv_elems(r@, 0) == vv_elems(es@, 0),
    decreases es@, 0int,
{
    let mut r: Vec<Element> = Vec::new();
    let n = es.len();
    let mut i: usize = 0;
    while i < n
        invariant
            n == es.len(),
            0 <= i <= n,
            r@.len() == i,
            forall|j: int| 0 <= j < i ==> r@[j].name@ == es@[j].name@ && vv(r@[j].value) == vv(
                es@[j].value,
            ),
        decreases n - i,
    {
        let c = Element { name: clone_bytes(&es[i].name), value: clone_value(&es[i].value) };
        r.push(c);
        i = i + 1;
    }
    proof {
        lemma_vv_elems_pointwise(r@, es@);
    }
    r
}

/// A copy of a key/value pair vector whose views agree pointwise.
pub fn clone_pairs(ps: &Vec<(Value, Value)>) -> (r: Vec<(Value, Value)>)
    ensures
        vv_pairs(r@, 0) == vv_pairs(ps@, 0),
    decreases ps@, 0int,
{
    let mut r: Vec<(Value, Value)> = Vec::new();
    let n = ps.len();
    let mut i: usize = 0;
    while i < n
        invariant
            n == ps.len(),
            0 <= i <= n,
            r@.len() == i,
            forall|j: int| 0 <= j < i ==> vv(r@[j].0) == vv(ps@[j].0) && vv(r@[j].1) == vv(
                ps@[j].1,
            ),
        decreases n - i,
    {
        let c = (clone_value(&ps[i].0), clone_value(&ps[i].1));
        r.push(c);
        i = i + 1;
    }
    proof {
        lemma_vv_pairs_pointwise(r@, ps@);
    }
    r
}

// ---------------------------------------------------------------------------
// Facts about the view sequences.
// ---------------------------------------------------------------------------

/// `vv_seq(vs, i)` holds the view of `vs[j]` at position `j - i`.
pub proof fn lemma_vv_seq_index(vs: Seq<Value>, i: int, j: int)
    requires
        0 <= i <= j < vs.len(),
    ensures
        vv_seq(vs, i).len() == vs.len() - i,
        vv_seq(vs, i)[j - i] == vv(vs[j]),
    decreases j - i,
{
    lemma_vv_seq_len(vs, i);
    if i < j {
        lemma_vv_seq_index(vs, i + 1, j);
    }
}

/// `vv_elems(es, i)` holds the view of `es[j]` at position `j - i`.
pub proof fn lemma_vv_elems_index(es: Seq<Element>, i: int, j: int)
    requires
        0 <= i <= j < es.len(),
    ensures
        vv_elems(es, i).len() == es.len() - i,
        vv_elems(es, i)[j - i] == (es[j].name@, vv(es[j].value)),
    decreases j - i,
{
    lemma_vv_elems_len(es, i);
    if i < j {
        lemma_vv_elems_index(es, i + 1, j);
    }
}

/// `vv_pairs(ps, i)` holds the views of `ps[j]` at position `j - i`.
pub proof fn lemma_vv_pairs_index(ps: Seq<(Value, Value)>, i: int, j: int)
    requires
        0 <= i <= j < ps.len(),
    ensures
        vv_pairs(ps, i).len() == ps.len() - i,
        vv_pairs(ps, i)[j - i] == (vv(ps[j].0), vv(ps[j].1)),
    decreases j - i,
{
    lemma_vv_pairs_len(ps, i);
    if i < j {
        lemma_vv_pairs_index(ps, i + 1, j);
    }
}

/// Value vectors with pointwise equal views have equal view sequences.
pub proof fn lemma_vv_seq_pointwise(a: Seq<Value>, b: Seq<Value>)
    requires
        a.len() == b.len(),
        forall|j: int| 0 <= j < a.len() ==> vv(a[j]) == vv(b[j]),
    ensures
        vv_seq(a, 0) == vv_seq(b, 0),
{
    lemma_vv_seq_len(a, 0);
    lemma_vv_seq_len(b, 0);
    assert forall|k: int| 0 <= k < vv_seq(a, 0).len() implies vv_seq(a, 0)[k] == vv_seq(b, 0)[k] by {
        lemma_vv_seq_index(a, 0, k);
        lemma_vv_seq_index(b, 0, k);
    }
    assert(vv_seq(a, 0) =~= vv_seq(b, 0));
}

/// Element vectors with pointwise equal names and value views have equal
/// view sequences.
pub proof fn lemma_vv_elems_pointwise(a: Seq<Element>, b: Seq<Element>)
    requires
        a.len() == b.len(),
        forall|j: int| 0 <= j < a.len() ==> a[j].name@ == b[j].name@ && vv(a[j].value) == vv(
            b[j].value,
        ),
    ensures
        vv_elems(a, 0) == vv_elems(b, 0),
{
    lemma_vv_elems_len(a, 0);
    lemma_vv_elems_len(b, 0);
    assert forall|k: int| 0 <= k < vv_elems(a, 0).len() implies vv_elems(a, 0)[k] == vv_elems(
        b,
        0,
    )[k] by {
        lemma_vv_elems_index(a, 0, k);
        lemma_vv_elems_index(b, 0, k);
    }
    assert(vv_elems(a, 0) =~= vv_elems(b, 0));
}

/// Pair vectors with pointwise equal views have equal view sequences.
pub proof fn lemma_vv_pairs_pointwise(a: Seq<(Value, Value)>, b: Seq<(Value, Value)>)
    requires
        a.len() == b.len(),
        forall|j: int| 0 <= j < a.len() ==> vv(a[j].0) == vv(b[j].0) && vv(a[j].1) == vv(b[j].1),
    ensures
        vv_pairs(a, 0) == vv_pairs(b, 0),
{
    lemma_vv_pairs_len(a, 0);
    lemma_vv_pairs_len(b, 0);
    assert forall|k: int| 0 <= k < vv_pairs(a, 0).len() implies vv_pairs(a, 0)[k] == vv_pairs(
        b,
        0,
    )[k] by {
        lemma_vv_pairs_index(a, 0, k);
        lemma_vv_pairs_index(b, 0, k);
    }
    assert(vv_pairs(a, 0) =~= vv_pairs(b, 0));
}

/// The length of `vv_seq(vs, i)` is the number of values from `i` on.
pub proof fn lemma_vv_seq_len(vs: Seq<Value>, i: int)
    ensures
        vv_seq(vs, i).len() == if 0 <= i <= vs.len() {
            vs.len() - i
        } else {
            0
        },
    decreases vs.len() - i,
{
    if 0 <= i < vs.len() {
        lemma_vv_seq_len(vs, i + 1);
    }
}

/// The length of `vv_elems(es, i)` is the number of elements from `i` on.
pub proof fn lemma_vv_elems_len(es: Seq<Element>, i: int)
    ensures
        vv_elems(es, i).len() == if 0 <= i <= es.len() {
            es.len() - i
        } else {
            0
        },
    decreases es.len() - i,
{
    if 0 <= i < es.len() {
        lemma_vv_elems_len(es, i + 1);
    }
}

/// The length of `vv_pairs(ps, i)` is the number of pairs from `i` on.
pub proof fn lemma_vv_pairs_len(ps: Seq<(Value, Value)>, i: int)
    ensures
        vv_pairs(ps, i).len() == if 0 <= i <= ps.len() {
            ps.len() - i
        } else {
            0
        },
    decreases ps.len() - i,
{
    if 0 <= i < ps.len() {
        lemma_vv_pairs_len(ps, i + 1);
    }
}

} // verus!

