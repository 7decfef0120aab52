//! The tagged value model: one decoded node of a document tree, the
//! document that holds a sequence of named top-level entries, and the
//! ghost mirror of both that contracts are stated over.

use vstd::prelude::*;

verus! {

/// Declared schema of an object: a class name, two boolean attributes,
/// and the ordered list of declared static property names.
#[derive(Debug, PartialEq)]
pub struct ClassDefinition {
    pub name: String,
    pub is_dynamic: bool,
    pub is_external: bool,
    pub static_properties: Vec<String>,
}

/// A named child slot of an object-like node or of a document body.
#[derive(Debug, PartialEq)]
pub struct Element {
    pub name: String,
    pub value: Value,
}

/// One node of a decoded tree. Numeric doubles are held as their
/// IEEE 754 bit patterns so that structural equality is exact.
#[derive(Debug, PartialEq)]
pub enum Value {
    Null,
    Undefined,
    Bool(bool),
    Integer(i32),
    /// A double, stored as its raw bit pattern.
    Number(u64),
    Str(String),
    ByteArray(Vec<u8>),
    /// Epoch milliseconds as a double bit pattern, plus an optional timezone.
    Date(u64, Option<u16>),
    /// Raw markup text plus the flag telling the two sub-encodings apart.
    Xml(String, bool),
    /// Ordered named properties plus an optional class definition.
    Object(Vec<Element>, Option<ClassDefinition>),
    StrictArray(Vec<Value>),
    /// A dense part, an associative part, and the declared length.
    EcmaArray(Vec<Value>, Vec<Element>, u32),
    VectorInt(Vec<i32>, bool),
    VectorUInt(Vec<u32>, bool),
    /// Doubles stored as raw bit patterns, plus the fixed-length flag.
    VectorDouble(Vec<u64>, bool),
    /// Elements, the element class name, and the fixed-length flag.
    VectorObject(Vec<Value>, String, bool),
    /// Key-value pairs plus the weak-keys flag.
    Dictionary(Vec<(Value, Value)>, bool),
    /// An external object: opaque payload entries plus schema metadata.
    Custom(Vec<Element>, Vec<Element>, Option<ClassDefinition>),
    Unsupported,
}

/// Header metadata of one decoded document.
#[derive(Debug, PartialEq)]
pub struct Header {
    pub name: String,
    pub length: u32,
    pub format_version: u8,
}

/// One decoded unit: header metadata plus ordered named top-level entries.
#[derive(Debug, PartialEq)]
pub struct Document {
    pub header: Header,
    pub body: Vec<Element>,
}

// ---------------------------------------------------------------------------
// Ghost mirror
// ---------------------------------------------------------------------------

/// Ghost mirror of `ClassDefinition`.
pub struct ClassDefView {
    pub name: Seq<char>,
    pub is_dynamic: bool,
    pub is_external: bool,
    pub static_properties: Seq<Seq<char>>,
}

/// Ghost mirror of `Element`.
pub struct EntryView {
    pub name: Seq<char>,
    pub value: ValueView,
}

/// Ghost mirror of `Value`.
pub enum ValueView {
    Null,
    Undefined,
    Bool(bool),
    Integer(i32),
    Number(u64),
    Str(Seq<char>),
    ByteArray(Seq<u8>),
    Date(u64, Option<u16>),
    Xml(Seq<char>, bool),
    Object(Seq<EntryView>, Option<ClassDefView>),
    StrictArray(Seq<ValueView>),
    EcmaArray(Seq<ValueView>, Seq<EntryView>, u32),
    VectorInt(Seq<i32>, bool),
    VectorUInt(Seq<u32>, bool),
    VectorDouble(Seq<u64>, bool),
    VectorObject(Seq<ValueView>, Seq<char>, bool),
    Dictionary(Seq<(ValueView, ValueView)>, bool),
    Custom(Seq<EntryView>, Seq<EntryView>, Option<ClassDefView>),
    Unsupported,
}

/// Ghost mirror of `Header`.
pub struct HeaderView {
    pub name: Seq<char>,
    pub length: u32,
    pub format_version: u8,
}

/// Ghost mirror of `Document`.
pub struct DocView {
    pub header: HeaderView,
    pub body: Seq<EntryView>,
}

pub open spec fn class_def_view(c: ClassDefinition) -> ClassDefView {
    ClassDefView {
        name: c.name@,
        is_dynamic: c.is_dynamic,
        is_external: c.is_external,
        static_properties: c.static_properties@.map_values(|s: String| s@),
    }
}

pub open spec fn class_opt_view(c: Option<ClassDefinition>) -> Option<ClassDefView> {
    match c {
        Some(d) => Some(class_def_view(d)),
        None => None,
    }
}

/// The mathematical value of one tree node.
pub open spec fn val_view(v: Value) -> ValueView
    decreases v,
    via val_view_decreases
{
    match v {
        Value::Null => ValueView::Null,
        Value::Undefined => ValueView::Undefined,
        Value::Bool(b) => ValueView::Bool(b),
        Value::Integer(i) => ValueView::Integer(i),
        Value::Number(n) => ValueView::Number(n),
        Value::Str(s) => ValueView::Str(s@),
        Value::ByteArray(b) => ValueView::ByteArray(b@),
        Value::Date(t, z) => ValueView::Date(t, z),
        Value::Xml(s, f) => ValueView::Xml(s@, f),
        Value::Object(es, cd) => ValueView::Object(entries_view(es@), class_opt_view(cd)),
        Value::StrictArray(vs) => ValueView::StrictArray(vals_view(vs@)),
        Value::EcmaArray(vs, es, n) => ValueView::EcmaArray(vals_view(vs@), entries_view(es@), n),
        Value::VectorInt(vs, f) => ValueView::VectorInt(vs@, f),
        Value::VectorUInt(vs, f) => ValueView::VectorUInt(vs@, f),
        Value::VectorDouble(vs, f) => ValueView::VectorDouble(vs@, f),
        Value::VectorObject(vs, n, f) => ValueView::VectorObject(vals_view(vs@), n@, f),
        Value::Dictionary(ps, w) => ValueView::Dictionary(pairs_view(ps@), w),
        Value::Custom(es, ds, cd) => ValueView::Custom(
            entries_view(es@),
            entries_view(ds@),
            class_opt_view(cd),
        ),
        Value::Unsupported => ValueView::Unsupported,
    }
}

/// The mathematical value of one named child slot.
pub open spec fn entry_view(e: Element) -> EntryView
    decreases e,
{
    EntryView { name: e.name@, value: val_view(e.value) }
}

/// The mathematical values of a sequence of named child slots.
pub open spec fn entries_view(es: Seq<Element>) -> Seq<EntryView>
    decreases es,
{
    if es.len() == 0 {
        Seq::empty()
    } else {
        seq![entry_view(es[0])] + entries_view(es.subrange(1, es.len() as int))
    }
}

/// The mathematical values of a sequence of nodes.
pub open spec fn vals_view(vs: Seq<Value>) -> Seq<ValueView>
    decreases vs,
{
    if vs.len() == 0 {
        Seq::empty()
    } else {
        seq![val_view(vs[0])] + vals_view(vs.subrange(1, vs.len() as int))
    }
}

/// The mathematical values of a sequence of key-value pairs.
pub open spec fn pairs_view(ps: Seq<(Value, Value)>) -> Seq<(ValueView, ValueView)>
    decreases ps,
    via pairs_view_decreases
{
    if ps.len() == 0 {
        Seq::empty()
    } else {
        seq![(val_view(ps[0].0), val_view(ps[0].1))] + pairs_view(ps.subrange(1, ps.len() as int))
    }
}

#[via_fn]
proof fn val_view_decreases(v: Value) {
    match v {
        Value::Object(es, _cd) => {
            assert(decreases_to!(v => es));
            assert(decreases_to!(es => es@));
        }
        Value::StrictArray(vs) => {
            assert(decreases_to!(v => vs));
            assert(decreases_to!(vs => vs@));
        }
        Value::EcmaArray(vs, es, _n) => {
            assert(decreases_to!(v => vs));
            assert(decreases_to!(vs => vs@));
            assert(decreases_to!(v => es));
            assert(decreases_to!(es => es@));
        }
        Value::VectorObject(vs, _n, _f) => {
            assert(decreases_to!(v => vs));
            assert(decreases_to!(vs => vs@));
        }
        Value::Dictionary(ps, _w) => {
            assert(decreases_to!(v => ps));
            assert(decreases_to!(ps => ps@));
        }
        Value::Custom(es, ds, _cd) => {
            assert(decreases_to!(v => es));
            assert(decreases_to!(es => es@));
            assert(decreases_to!(v => ds));
            assert(decreases_to!(ds => ds@));
        }
        _ => {}
    }
}

#[via_fn]
proof fn pairs_view_decreases(ps: Seq<(Value, Value)>) {
    if ps.len() > 0 {
        assert(decreases_to!(ps => ps[0]));
        assert(decreases_to!(ps[0] => ps[0].0));
        assert(decreases_to!(ps[0] => ps[0].1));
    }
}

/// `entries_view` distributes over indexing.
pub broadcast proof fn lemma_entries_view(es: Seq<Element>)
    ensures
        (#[trigger] entries_view(es)).len() == es.len(),
        forall|i: int| 0 <= i < es.len() ==> #[trigger] entries_view(es)[i] == entry_view(es[i]),
    decreases es.len(),
{
    if es.len() > 0 {
        lemma_entries_view(es.subrange(1, es.len() as int));
    }
}

/// `vals_view` distributes over indexing.
pub broadcast proof fn lemma_vals_view(vs: Seq<Value>)
    ensures
        (#[trigger] vals_view(vs)).len() == vs.len(),
        forall|i: int| 0 <= i < vs.len() ==> #[trigger] vals_view(vs)[i] == val_view(vs[i]),
    decreases vs.len(),
{
    if vs.len() > 0 {
        lemma_vals_view(vs.subrange(1, vs.len() as int));
    }
}

/// `pairs_view` distributes over indexing.
pub broadcast proof fn lemma_pairs_view(ps: Seq<(Value, Value)>)
    ensures
        (#[trigger] pairs_view(ps)).len() == ps.len(),
        forall|i: int| 0 <= i < ps.len() ==> #[trigger] pairs_view(ps)[i] == (
            val_view(ps[i].0),
            val_view(ps[i].1),
        ),
    decreases ps.len(),
{
    if ps.len() > 0 {
        lemma_pairs_view(ps.subrange(1, ps.len() as int));
    }
}

pub open spec fn header_view(h: Header) -> HeaderView {
    HeaderView { name: h.name@, length: h.length, format_version: h.format_version }
}

/// Copies a vector of plainly-copyable items.
pub(crate) fn copy_vec<T: Copy>(v: &Vec<T>) -> (r: Vec<T>)
    ensures
        r@ == v@,
{
    let mut r: Vec<T> = Vec::new();
    let mut i: usize = 0;
    while i < v.len()
        invariant
            i <= v.len(),
            r@ == v@.subrange(0, i as int),
        decreases v.len() - i,
    {
        r.push(v[i]);
        i += 1;
        proof {
            assert(r@ =~= v@.subrange(0, i as int));
        }
    }
    proof {
        assert(r@ =~= v@);
    }
    r
}

impl ClassDefinition {
    /// A structurally equal copy of this class definition.
    pub fn deep_copy(&self) -> (r: ClassDefinition)
        ensures
            r@ == self@,
    {
        let mut props: Vec<String> = Vec::new();
        let mut i: usize = 0;
        while i < self.static_properties.len()
            invariant
                i <= self.static_properties.len(),
                props@.len() == i,
                forall|j: int| 0 <= j < i ==> props@[j]@ == self.static_properties@[j]@,
            decreases self.static_properties.len() - i,
        {
            props.push(self.static_properties[i].clone());
            i += 1;
        }
        let r = ClassDefinition {
            name: self.name.clone(),
            is_dynamic: self.is_dynamic,
            is_external: self.is_external,
            static_properties: props,
        };
        proof {
            assert(r.static_properties@.map_values(|s: String| s@) =~= self.static_properties@.map_values(
                |s: String| s@,
            ));
        }
        r
    }
}

pub(crate) fn copy_class_opt(c: &Option<ClassDefinition>) -> (r: Option<ClassDefinition>)
    ensures
        class_opt_view(r) == class_opt_view(*c),
{
    match c {
        Some(d) => Some(d.deep_copy()),
        None => None,
    }
}

impl Value {
    /// A structurally equal copy of this node and everything below it.
    pub fn deep_copy(&self) -> (r: Value)
        ensures
            r@ == self@,
        decreases *self,
    {
        match self {
            Value::Null => Value::Null,
            Value::Undefined => Value::Undefined,
            Value::Bool(b) => Value::Bool(*b),
            Value::Integer(i) => Value::Integer(*i),
            Value::Number(n) => Value::Number(*n),
            Value::Str(s) => Value::Str(s.clone()),
            Value::ByteArray(b) => Value::ByteArray(copy_vec(b)),
            Value::Date(t, z) => Value::Date(*t, *z),
            Value::Xml(s, f) => Value::Xml(s.clone(), *f),
            Value::Object(es, cd) => {
                proof {
                    assert(decreases_to!(*self => *es));
                    assert(decreases_to!(*es => es@));
                }
                Value::Object(copy_elements(es), copy_class_opt(cd))
            }
            Value::StrictArray(vs) => {
                proof {
                    assert(decreases_to!(*self => *vs));
                    assert(decreases_to!(*vs => vs@));
                }
                Value::StrictArray(copy_values(vs))
            }
            Value::EcmaArray(vs, es, n) => {
                proof {
                    assert(decreases_to!(*self => *vs));
                    assert(decreases_to!(*vs => vs@));
                    assert(decreases_to!(*self => *es));
                    assert(decreases_to!(*es => es@));
                }
                Value::EcmaArray(copy_values(vs), copy_elements(es), *n)
            }
            Value::VectorInt(vs, f) => Value::VectorInt(copy_vec(vs), *f),
            Value::VectorUInt(vs, f) => Value::VectorUInt(copy_vec(vs), *f),
            Value::VectorDouble(vs, f) => Value::VectorDouble(copy_vec(vs), *f),
            Value::VectorObject(vs, n, f) => {
                proof {
                    assert(decreases_to!(*self => *vs));
                    assert(decreases_to!(*vs => vs@));
                }
                Value::VectorObject(copy_values(vs), n.clone(), *f)
            }
            Value::Dictionary(ps, w) => {
                proof {
                    assert(decreases_to!(*self => *ps));
                    assert(decreases_to!(*ps => ps@));
                }
                Value::Dictionary(copy_pairs(ps), *w)
            }
            Value::Custom(es, ds, cd) => {
                proof {
                    assert(decreases_to!(*self => *es));
                    assert(decreases_to!(*es => es@));
                    assert(decreases_to!(*self => *ds));
                    assert(decreases_to!(*ds => ds@));
                }
                Value::Custom(copy_elements(es), copy_elements(ds), copy_class_opt(cd))
            }
            Value::Unsupported => Value::Unsupported,
        }
    }
}

/// Copies a vector of named child slots, child trees included.
pub(crate) fn copy_elements(es: &Vec<Element>) -> (r: Vec<Element>)
    ensures
        entries_view(r@) == entries_view(es@),
    decreases es@,
{
    broadcast use lemma_entries_view;

    let mut r: Vec<Element> = Vec::new();
    let mut i: usize = 0;
    while i < es.len()
        invariant
            i <= es.len(),
            r@.len() == i,
            forall|j: int| 0 <= j < i ==> #[trigger] r@[j]@ == es@[j]@,
        decreases es.len() - i,
    {
        proof {
            assert(decreases_to!(es@ => es@[i as int]));
            assert(decreases_to!(es@[i as int] => es@[i as int].value));
        }
        let e = &es[i];
        r.push(Element { name: e.name.clone(), value: e.value.deep_copy() });
        i += 1;
    }
    proof {
        assert forall|j: int| 0 <= j < r@.len() implies entries_view(r@)[j] == entries_view(es@)[j] by {
            assert(r@[j]@ == es@[j]@);
            assert(entries_view(r@)[j] == entry_view(r@[j]));
            assert(entries_view(es@)[j] == entry_view(es@[j]));
        }
        assert(entries_view(r@) =~= entries_view(es@));
    }
    r
}

/// Copies a vector of nodes, child trees included.
pub(crate) fn copy_values(vs: &Vec<Value>) -> (r: Vec<Value>)
    ensures
        vals_view(r@) == vals_view(vs@),
    decreases vs@,
{
    broadcast use lemma_vals_view;

    let mut r: Vec<Value> = Vec::new();
    let mut i: usize = 0;
    while i < vs.len()
        invariant
            i <= vs.len(),
            r@.len() == i,
            forall|j: int| 0 <= j < i ==> #[trigger] r@[j]@ == vs@[j]@,
        decreases vs.len() - i,
    {
        proof {
            assert(decreases_to!(vs@ => vs@[i as int]));
        }
        r.push(vs[i].deep_copy());
        i += 1;
    }
    proof {
        assert forall|j: int| 0 <= j < r@.len() implies vals_view(r@)[j] == vals_view(vs@)[j] by {
            assert(r@[j]@ == vs@[j]@);
            assert(vals_view(r@)[j] == val_view(r@[j]));
            assert(vals_view(vs@)[j] == val_view(vs@[j]));
        }
        assert(vals_view(r@) =~= vals_view(vs@));
    }
    r
}

/// Copies a vector of key-value pairs, both trees included.
pub(crate) fn copy_pairs(ps: &Vec<(Value, Value)>) -> (r: Vec<(Value, Value)>)
    ensures
        pairs_view(r@) == pairs_view(ps@),
    decreases ps@,
{
    broadcast use lemma_pairs_view;

    let mut r: Vec<(Value, Value)> = Vec::new();
    let mut i: usize = 0;
    while i < ps.len()
        invariant
            i <= ps.len(),
            r@.len() == i,
            forall|j: int| 0 <= j < i ==> (#[trigger] r@[j]).0@ == ps@[j].0@ && r@[j].1@ == ps@[j].1@,
        decreases ps.len() - i,
    {
        proof {
            assert(decreases_to!(ps@ => ps@[i as int]));
            assert(decreases_to!(ps@[i as int] => ps@[i as int].0));
            assert(decreases_to!(ps@[i as int] => ps@[i as int].1));
        }
        let p = &ps[i];
        r.push((p.0.deep_copy(), p.1.deep_copy()));
        i += 1;
    }
    proof {
        assert forall|j: int| 0 <= j < r@.len() implies pairs_view(r@)[j] == pairs_view(ps@)[j] by {
            assert(r@[j].0@ == ps@[j].0@ && r@[j].1@ == ps@[j].1@);
            assert(pairs_view(r@)[j] == (val_view(r@[j].0), val_view(r@[j].1)));
            assert(pairs_view(ps@)[j] == (val_view(ps@[j].0), val_view(ps@[j].1)));
        }
        assert(pairs_view(r@) =~= pairs_view(ps@));
    }
    r
}

impl Header {
    /// A structurally equal copy of this header.
    pub fn deep_copy(&self) -> (r: Header)
        ensures
            r@ == self@,
    {
        Header { name: self.name.clone(), length: self.length, format_version: self.format_version }
    }
}

impl Document {
    /// A structurally equal copy of this document.
    pub fn deep_copy(&self) -> (r: Document)
        ensures
            r@ == self@,
    {
        Document { header: self.header.deep_copy(), body: copy_elements(&self.body) }
    }
}

impl View for Value {
    type V = ValueView;

    open spec fn view(&self) -> ValueView {
        val_view(*self)
    }
}

impl View for Element {
    type V = EntryView;

    open spec fn view(&self) -> EntryView {
        entry_view(*self)
    }
}

impl View for ClassDefinition {
    type V = ClassDefView;

    open spec fn view(&self) -> ClassDefView {
        class_def_view(*self)
    }
}

impl View for Header {
    type V = HeaderView;

    open spec fn view(&self) -> HeaderView {
        header_view(*self)
    }
}

impl View for Document {
    type V = DocView;

    open spec fn view(&self) -> DocView {
        DocView { header: header_view(self.header), body: entries_view(self.body@) }
    }
}

} // verus!
