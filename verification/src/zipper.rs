//! Path addressing and the commit protocol: a path locates one node
//! inside a document, and committing a replacement rebuilds the document
//! top-down so that only the addressed slot changes.

use crate::model::{
    copy_class_opt, copy_elements, copy_pairs, copy_values, entries_view, entry_view,
    lemma_entries_view, lemma_pairs_view, lemma_vals_view, pairs_view, val_view, vals_view,
    DocView, Document, Element, EntryView, Value, ValueView,
};
use vstd::prelude::*;

verus! {

/// A single addressing step inside a document tree.
#[derive(PartialEq, Debug)]
pub enum PathStep {
    /// Addresses a named property of an object-like node, or a top-level entry.
    PropertyName(String),
    /// Addresses a positional slot of a sequence-like node. For a
    /// dictionary, slot `2*i` is the key and `2*i + 1` the value of pair `i`.
    Index(usize),
}

/// Ghost mirror of `PathStep`.
pub enum StepView {
    Prop(Seq<char>),
    Idx(int),
}

impl View for PathStep {
    type V = StepView;

    open spec fn view(&self) -> StepView {
        match self {
            PathStep::PropertyName(s) => StepView::Prop(s@),
            PathStep::Index(i) => StepView::Idx(*i as int),
        }
    }
}

/// The mathematical value of a whole path.
pub open spec fn path_view(p: Seq<PathStep>) -> Seq<StepView> {
    p.map_values(|s: PathStep| s@)
}

/// The index of the first entry named `n`, or `-1` if there is none.
pub open spec fn find_name(es: Seq<EntryView>, n: Seq<char>) -> int
    decreases es.len(),
{
    if es.len() == 0 {
        -1
    } else if es[0].name == n {
        0
    } else {
        let r = find_name(es.subrange(1, es.len() as int), n);
        if r == -1 {
            -1
        } else {
            r + 1
        }
    }
}

/// What `find_name` returns: a first match, or no match at all.
pub broadcast proof fn lemma_find_name(es: Seq<EntryView>, n: Seq<char>)
    ensures
        -1 <= #[trigger] find_name(es, n) < es.len(),
        find_name(es, n) >= 0 ==> es[find_name(es, n)].name == n,
        forall|j: int| 0 <= j < es.len() && j < find_name(es, n) ==> es[j].name != n,
        find_name(es, n) == -1 ==> forall|j: int| 0 <= j < es.len() ==> es[j].name != n,
    decreases es.len(),
{
    if es.len() > 0 && es[0].name != n {
        let tail = es.subrange(1, es.len() as int);
        lemma_find_name(tail, n);
        assert forall|j: int| 0 <= j < es.len() && j < find_name(es, n) implies es[j].name != n by {
            if j > 0 {
                assert(es[j] == tail[j - 1]);
            }
        }
        if find_name(es, n) == -1 {
            assert forall|j: int| 0 <= j < es.len() implies es[j].name != n by {
                if j > 0 {
                    assert(es[j] == tail[j - 1]);
                }
            }
        }
    }
}

/// Two entry sequences with the same names agree on `find_name`.
pub proof fn lemma_find_name_same(es1: Seq<EntryView>, es2: Seq<EntryView>, n: Seq<char>)
    requires
        es1.len() == es2.len(),
        forall|j: int| 0 <= j < es1.len() ==> es1[j].name == es2[j].name,
    ensures
        find_name(es1, n) == find_name(es2, n),
    decreases es1.len(),
{
    if es1.len() > 0 {
        assert(es1[0].name == es2[0].name);
        lemma_find_name_same(
            es1.subrange(1, es1.len() as int),
            es2.subrange(1, es2.len() as int),
            n,
        );
    }
}

/// The child that one step addresses inside one node, if any.
pub open spec fn step_child(v: ValueView, s: StepView) -> Option<ValueView> {
    match v {
        ValueView::Object(es, _) => match s {
            StepView::Prop(n) => {
                let i = find_name(es, n);
                if i >= 0 {
                    Some(es[i].value)
                } else {
                    None
                }
            },
            StepView::Idx(_) => None,
        },
        ValueView::EcmaArray(dense, assoc, _) => match s {
            StepView::Prop(n) => {
                let i = find_name(assoc, n);
                if i >= 0 {
                    Some(assoc[i].value)
                } else {
                    None
                }
            },
            StepView::Idx(k) => if 0 <= k < dense.len() {
                Some(dense[k])
            } else {
                None
            },
        },
        ValueView::StrictArray(vs) => match s {
            StepView::Idx(k) => if 0 <= k < vs.len() {
                Some(vs[k])
            } else {
                None
            },
            StepView::Prop(_) => None,
        },
        ValueView::VectorObject(vs, _, _) => match s {
            StepView::Idx(k) => if 0 <= k < vs.len() {
                Some(vs[k])
            } else {
                None
            },
            StepView::Prop(_) => None,
        },
        ValueView::Dictionary(ps, _) => match s {
            StepView::Idx(k) => if 0 <= k && k / 2 < ps.len() {
                if k % 2 == 0 {
                    Some(ps[k / 2].0)
                } else {
                    Some(ps[k / 2].1)
                }
            } else {
                None
            },
            StepView::Prop(_) => None,
        },
        _ => None,
    }
}

/// The same node with the child addressed by one valid step replaced by `c`.
/// Where the step addresses nothing, the node is returned unchanged.
pub open spec fn step_replace(v: ValueView, s: StepView, c: ValueView) -> ValueView {
    match v {
        ValueView::Object(es, cd) => match s {
            StepView::Prop(n) => {
                let i = find_name(es, n);
                if i >= 0 {
                    ValueView::Object(
                        es.update(i, EntryView { name: es[i].name, value: c }),
                        cd,
                    )
                } else {
                    v
                }
            },
            StepView::Idx(_) => v,
        },
        ValueView::EcmaArray(dense, assoc, len) => match s {
            StepView::Prop(n) => {
                let i = find_name(assoc, n);
                if i >= 0 {
                    ValueView::EcmaArray(
                        dense,
                        assoc.update(i, EntryView { name: assoc[i].name, value: c }),
                        len,
                    )
                } else {
                    v
                }
            },
            StepView::Idx(k) => if 0 <= k < dense.len() {
                ValueView::EcmaArray(dense.update(k, c), assoc, len)
            } else {
                v
            },
        },
        ValueView::StrictArray(vs) => match s {
            StepView::Idx(k) => if 0 <= k < vs.len() {
                ValueView::StrictArray(vs.update(k, c))
            } else {
                v
            },
            StepView::Prop(_) => v,
        },
        ValueView::VectorObject(vs, n, f) => match s {
            StepView::Idx(k) => if 0 <= k < vs.len() {
                ValueView::VectorObject(vs.update(k, c), n, f)
            } else {
                v
            },
            StepView::Prop(_) => v,
        },
        ValueView::Dictionary(ps, w) => match s {
            StepView::Idx(k) => if 0 <= k && k / 2 < ps.len() {
                let pr = ps[k / 2];
                let npr = if k % 2 == 0 {
                    (c, pr.1)
                } else {
                    (pr.0, c)
                };
                ValueView::Dictionary(ps.update(k / 2, npr), w)
            } else {
                v
            },
            StepView::Prop(_) => v,
        },
        _ => v,
    }
}

/// The node a path addresses below `v`, if every step resolves.
pub open spec fn val_lookup(v: ValueView, p: Seq<StepView>) -> Option<ValueView>
    decreases p.len(),
{
    if p.len() == 0 {
        Some(v)
    } else {
        match step_child(v, p[0]) {
            Some(c) => val_lookup(c, p.subrange(1, p.len() as int)),
            None => None,
        }
    }
}

/// `v` rebuilt with the node addressed by a valid path replaced by `nv`.
pub open spec fn val_update(v: ValueView, p: Seq<StepView>, nv: ValueView) -> ValueView
    decreases p.len(),
{
    if p.len() == 0 {
        nv
    } else {
        match step_child(v, p[0]) {
            Some(c) => step_replace(v, p[0], val_update(c, p.subrange(1, p.len() as int), nv)),
            None => v,
        }
    }
}

/// Whether `p` is a (not necessarily strict) prefix of `q`.
pub open spec fn is_prefix(p: Seq<StepView>, q: Seq<StepView>) -> bool
    decreases p.len(),
{
    p.len() == 0 || (q.len() > 0 && p[0] == q[0] && is_prefix(
        p.subrange(1, p.len() as int),
        q.subrange(1, q.len() as int),
    ))
}

/// Replacing the child a valid step addresses makes that step address the
/// replacement.
proof fn lemma_step_replace_same(v: ValueView, s: StepView, c: ValueView)
    requires
        step_child(v, s) is Some,
    ensures
        step_child(step_replace(v, s, c), s) == Some(c),
{
    broadcast use lemma_find_name;

    match v {
        ValueView::Object(es, _) => {
            if let StepView::Prop(n) = s {
                let i = find_name(es, n);
                let es2 = es.update(i, EntryView { name: es[i].name, value: c });
                lemma_find_name_same(es, es2, n);
            }
        }
        ValueView::EcmaArray(dense, assoc, _) => {
            if let StepView::Prop(n) = s {
                let i = find_name(assoc, n);
                let es2 = assoc.update(i, EntryView { name: assoc[i].name, value: c });
                lemma_find_name_same(assoc, es2, n);
            }
        }
        ValueView::Dictionary(ps, _) => {
            if let StepView::Idx(k) = s {
                vstd::arithmetic::div_mod::lemma_fundamental_div_mod(k, 2);
            }
        }
        _ => {}
    }
}

/// Replacing the child one valid step addresses leaves every other step
/// addressing what it addressed before.
proof fn lemma_step_replace_other(v: ValueView, s: StepView, c: ValueView, t: StepView)
    requires
        step_child(v, s) is Some,
        t != s,
    ensures
        step_child(step_replace(v, s, c), t) == step_child(v, t),
{
    broadcast use lemma_find_name;

    match v {
        ValueView::Object(es, _) => {
            if let StepView::Prop(n) = s {
                let i = find_name(es, n);
                let es2 = es.update(i, EntryView { name: es[i].name, value: c });
                if let StepView::Prop(m) = t {
                    lemma_find_name_same(es, es2, m);
                    assert(n != m);
                }
            }
        }
        ValueView::EcmaArray(dense, assoc, _) => {
            if let StepView::Prop(n) = s {
                let i = find_name(assoc, n);
                let es2 = assoc.update(i, EntryView { name: assoc[i].name, value: c });
                if let StepView::Prop(m) = t {
                    lemma_find_name_same(assoc, es2, m);
                    assert(n != m);
                }
            }
        }
        ValueView::Dictionary(ps, _) => {
            if let StepView::Idx(k) = s {
                if let StepView::Idx(k2) = t {
                    vstd::arithmetic::div_mod::lemma_fundamental_div_mod(k, 2);
                    vstd::arithmetic::div_mod::lemma_fundamental_div_mod(k2, 2);
                }
            }
        }
        _ => {}
    }
}

/// After a commit, the committed path addresses the new value.
pub proof fn lemma_update_at(v: ValueView, p: Seq<StepView>, nv: ValueView)
    requires
        val_lookup(v, p) is Some,
    ensures
        val_lookup(val_update(v, p, nv), p) == Some(nv),
    decreases p.len(),
{
    if p.len() > 0 {
        let rest = p.subrange(1, p.len() as int);
        let c = step_child(v, p[0])->Some_0;
        let u = val_update(c, rest, nv);
        lemma_step_replace_same(v, p[0], u);
        lemma_update_at(c, rest, nv);
    }
}

/// After a commit, every path that neither extends nor is extended by the
/// committed path addresses exactly what it addressed before.
pub proof fn lemma_update_elsewhere(v: ValueView, p: Seq<StepView>, nv: ValueView, q: Seq<StepView>)
    requires
        val_lookup(v, p) is Some,
        !is_prefix(p, q),
        !is_prefix(q, p),
    ensures
        val_lookup(val_update(v, p, nv), q) == val_lookup(v, q),
    decreases p.len(),
{
    let prest = p.subrange(1, p.len() as int);
    let qrest = q.subrange(1, q.len() as int);
    let c = step_child(v, p[0])->Some_0;
    let u = val_update(c, prest, nv);
    if q[0] == p[0] {
        lemma_step_replace_same(v, p[0], u);
        lemma_update_elsewhere(c, prest, nv, qrest);
    } else {
        lemma_step_replace_other(v, p[0], u, q[0]);
    }
}

/// A document's body seen as one object-like node, so that document
/// addressing reuses the node-level rules.
pub open spec fn doc_wrapper(d: DocView) -> ValueView {
    ValueView::Object(d.body, Option::None)
}

/// The node a path addresses inside a document. The empty path denotes
/// the whole document and is never a valid edit target.
pub open spec fn doc_lookup(d: DocView, p: Seq<StepView>) -> Option<ValueView> {
    if p.len() == 0 {
        Option::None
    } else {
        val_lookup(doc_wrapper(d), p)
    }
}

/// The document rebuilt with the node addressed by a valid path replaced.
pub open spec fn doc_update(d: DocView, p: Seq<StepView>, nv: ValueView) -> DocView {
    DocView {
        header: d.header,
        body: match val_update(doc_wrapper(d), p, nv) {
            ValueView::Object(b, _) => b,
            _ => d.body,
        },
    }
}

/// Rebuilding a document around a valid path keeps its header, its entry
/// count and every top-level entry name, and commutes with the node-level
/// rebuild.
pub proof fn lemma_doc_update_shape(d: DocView, p: Seq<StepView>, nv: ValueView)
    requires
        doc_lookup(d, p) is Some,
    ensures
        doc_wrapper(doc_update(d, p, nv)) == val_update(doc_wrapper(d), p, nv),
        doc_update(d, p, nv).header == d.header,
        doc_update(d, p, nv).body.len() == d.body.len(),
        forall|j: int|
            0 <= j < d.body.len() ==> doc_update(d, p, nv).body[j].name == d.body[j].name,
{
    broadcast use lemma_find_name;

    let w = doc_wrapper(d);
    let c = step_child(w, p[0])->Some_0;
    let u = val_update(c, p.subrange(1, p.len() as int), nv);
    assert(val_update(w, p, nv) == step_replace(w, p[0], u));
}

/// Commit writes: after a commit through a valid path, that same path
/// addresses the committed value.
pub proof fn lemma_commit_at(d: DocView, p: Seq<StepView>, nv: ValueView)
    requires
        doc_lookup(d, p) is Some,
    ensures
        doc_lookup(doc_update(d, p, nv), p) == Some(nv),
{
    lemma_doc_update_shape(d, p, nv);
    lemma_update_at(doc_wrapper(d), p, nv);
}

/// Commit identity elsewhere: a commit through a valid path leaves every
/// path that neither extends nor is extended by it addressing exactly the
/// node it addressed before, and leaves the header unchanged.
pub proof fn lemma_commit_identity_elsewhere(
    d: DocView,
    p: Seq<StepView>,
    nv: ValueView,
    q: Seq<StepView>,
)
    requires
        doc_lookup(d, p) is Some,
        !is_prefix(p, q),
        !is_prefix(q, p),
    ensures
        doc_update(d, p, nv).header == d.header,
        doc_lookup(doc_update(d, p, nv), q) == doc_lookup(d, q),
{
    lemma_doc_update_shape(d, p, nv);
    if q.len() > 0 {
        lemma_update_elsewhere(doc_wrapper(d), p, nv, q);
    }
}

/// Commit replay: the committed document is a function of the selection's
/// captured snapshot, its path, and the committed value alone, so two
/// commits of the same value from the same selection are structurally
/// equal, whatever happened to other documents in between.
pub proof fn lemma_commit_replay(a: EditableValue, b: EditableValue, v1: Value, v2: Value)
    requires
        a.snapshot@ == b.snapshot@,
        path_view(a.path@) == path_view(b.path@),
        v1@ == v2@,
    ensures
        doc_update(a.snapshot@, path_view(a.path@), v1@) == doc_update(
            b.snapshot@,
            path_view(b.path@),
            v2@,
        ),
{
}

/// A failure of path resolution or of an edit submission.
#[derive(PartialEq, Eq, Structural, Debug)]
pub enum EditError {
    /// A step of the path does not resolve against the document's shape.
    PathNotFound,
    /// An edit was submitted while no selection was active.
    NoActiveSelection,
}

/// A located node: a snapshot of the value at a path, the path itself,
/// and the document snapshot a commit rebuilds around that path.
#[derive(Debug)]
pub struct EditableValue {
    pub value: Value,
    pub path: Vec<PathStep>,
    pub snapshot: Document,
}

/// Finds the first element with the given name; mirrors `find_name`.
fn find_element(es: &Vec<Element>, name: &String) -> (r: Option<usize>)
    ensures
        match r {
            Some(i) => i < es@.len() && find_name(entries_view(es@), name@) == i,
            None => find_name(entries_view(es@), name@) == -1,
        },
{
    broadcast use lemma_entries_view, lemma_find_name;

    let ghost ev = entries_view(es@);
    let mut i: usize = 0;
    while i < es.len()
        invariant
            i <= es.len(),
            ev == entries_view(es@),
            forall|j: int| 0 <= j < i ==> ev[j].name != name@,
        decreases es.len() - i,
    {
        proof {
            lemma_entries_view(es@);
            assert(entries_view(es@)[i as int] == entry_view(es@[i as int]));
        }
        if es[i].name.eq(name) {
            proof {
                lemma_find_name(ev, name@);
                assert(ev[i as int].name == name@);
                assert(find_name(ev, name@) == i);
            }
            return Some(i);
        }
        i += 1;
    }
    proof {
        lemma_find_name(ev, name@);
    }
    None
}

/// Walks the steps of a path from position `from` down into a node.
fn val_get<'a>(v: &'a Value, p: &Vec<PathStep>, from: usize) -> (r: Option<&'a Value>)
    requires
        from <= p@.len(),
    ensures
        ({
            let steps = path_view(p@).subrange(from as int, p@.len() as int);
            match r {
                Some(c) => val_lookup(v@, steps) == Some(c@),
                None => val_lookup(v@, steps) is None,
            }
        }),
    decreases p@.len() - from,
{
    broadcast use lemma_entries_view, lemma_vals_view, lemma_pairs_view;

    let ghost steps = path_view(p@).subrange(from as int, p@.len() as int);
    if from == p.len() {
        return Some(v);
    }
    proof {
        assert(steps[0] == p@[from as int]@);
        assert(steps.subrange(1, steps.len() as int) =~= path_view(p@).subrange(
            from as int + 1,
            p@.len() as int,
        ));
    }
    let step = &p[from];
    match v {
        Value::Object(es, _) => match step {
            PathStep::PropertyName(n) => match find_element(es, n) {
                Some(i) => {
                    proof {
                        lemma_entries_view(es@);
                    }
                    val_get(&es[i].value, p, from + 1)
                },
                None => None,
            },
            PathStep::Index(_) => None,
        },
        Value::EcmaArray(dense, assoc, _) => match step {
            PathStep::PropertyName(n) => match find_element(assoc, n) {
                Some(i) => {
                    proof {
                        lemma_entries_view(assoc@);
                    }
                    val_get(&assoc[i].value, p, from + 1)
                },
                None => None,
            },
            PathStep::Index(k) => {
                proof {
                    lemma_vals_view(dense@);
                }
                if *k < dense.len() {
                    val_get(&dense[*k], p, from + 1)
                } else {
                    None
                }
            },
        },
        Value::StrictArray(vs) => match step {
            PathStep::Index(k) => {
                proof {
                    lemma_vals_view(vs@);
                }
                if *k < vs.len() {
                    val_get(&vs[*k], p, from + 1)
                } else {
                    None
                }
            },
            PathStep::PropertyName(_) => None,
        },
        Value::VectorObject(vs, _, _) => match step {
            PathStep::Index(k) => {
                proof {
                    lemma_vals_view(vs@);
                }
                if *k < vs.len() {
                    val_get(&vs[*k], p, from + 1)
                } else {
                    None
                }
            },
            PathStep::PropertyName(_) => None,
        },
        Value::Dictionary(ps, _) => match step {
            PathStep::Index(k) => {
                proof {
                    lemma_pairs_view(ps@);
                }
                if *k / 2 < ps.len() {
                    let pr = &ps[*k / 2];
                    if *k % 2 == 0 {
                        val_get(&pr.0, p, from + 1)
                    } else {
                        val_get(&pr.1, p, from + 1)
                    }
                } else {
                    None
                }
            },
            PathStep::PropertyName(_) => None,
        },
        _ => None,
    }
}

/// Replaces entry `i`'s value, keeping its name and every other entry.
fn set_entry(es: &Vec<Element>, i: usize, nv: Value) -> (r: Vec<Element>)
    requires
        i < es@.len(),
    ensures
        entries_view(r@) == entries_view(es@).update(
            i as int,
            EntryView { name: es@[i as int].name@, value: nv@ },
        ),
{
    broadcast use lemma_entries_view;

    let nm = es[i].name.clone();
    let mut r = copy_elements(es);
    r.remove(i);
    r.insert(i, Element { name: nm, value: nv });
    proof {
        let target = entries_view(es@).update(
            i as int,
            EntryView { name: es@[i as int].name@, value: nv@ },
        );
        assert forall|j: int| 0 <= j < r@.len() implies entries_view(r@)[j] == target[j] by {
            assert(entries_view(r@)[j] == entry_view(r@[j]));
        }
        assert(entries_view(r@) =~= target);
    }
    r
}

/// Replaces slot `i`, keeping every other slot.
fn set_value(vs: &Vec<Value>, i: usize, nv: Value) -> (r: Vec<Value>)
    requires
        i < vs@.len(),
    ensures
        vals_view(r@) == vals_view(vs@).update(i as int, nv@),
{
    broadcast use lemma_vals_view;

    let mut r = copy_values(vs);
    r.remove(i);
    r.insert(i, nv);
    proof {
        let target = vals_view(vs@).update(i as int, nv@);
        assert forall|j: int| 0 <= j < r@.len() implies vals_view(r@)[j] == target[j] by {
            assert(vals_view(r@)[j] == val_view(r@[j]));
        }
        assert(vals_view(r@) =~= target);
    }
    r
}

/// Replaces one component of pair `k / 2`, keeping the other component
/// and every other pair.
fn set_pair_slot(ps: &Vec<(Value, Value)>, k: usize, nv: Value) -> (r: Vec<(Value, Value)>)
    requires
        k / 2 < ps@.len(),
    ensures
        pairs_view(r@) == pairs_view(ps@).update(
            k as int / 2,
            if k as int % 2 == 0 {
                (nv@, ps@[k as int / 2].1@)
            } else {
                (ps@[k as int / 2].0@, nv@)
            },
        ),
{
    broadcast use lemma_pairs_view;

    let i = k / 2;
    let pr = &ps[i];
    let npr = if k % 2 == 0 {
        (nv, pr.1.deep_copy())
    } else {
        (pr.0.deep_copy(), nv)
    };
    let mut r = copy_pairs(ps);
    r.remove(i);
    r.insert(i, npr);
    proof {
        let target = pairs_view(ps@).update(
            k as int / 2,
            if k as int % 2 == 0 {
                (nv@, ps@[k as int / 2].1@)
            } else {
                (ps@[k as int / 2].0@, nv@)
            },
        );
        assert forall|j: int| 0 <= j < r@.len() implies pairs_view(r@)[j] == target[j] by {
            assert(pairs_view(r@)[j] == (val_view(r@[j].0), val_view(r@[j].1)));
        }
        assert(pairs_view(r@) =~= target);
    }
    r
}

/// Rebuilds a node with the slot addressed by the steps from position
/// `from` replaced by `nv`; every other slot is copied unchanged.
fn val_updated(v: &Value, p: &Vec<PathStep>, from: usize, nv: Value) -> (r: Value)
    requires
        from <= p@.len(),
        val_lookup(v@, path_view(p@).subrange(from as int, p@.len() as int)) is Some,
    ensures
        r@ == val_update(v@, path_view(p@).subrange(from as int, p@.len() as int), nv@),
    decreases p@.len() - from,
{
    broadcast use lemma_entries_view, lemma_vals_view, lemma_pairs_view, lemma_find_name;

    let ghost steps = path_view(p@).subrange(from as int, p@.len() as int);
    if from == p.len() {
        return nv;
    }
    proof {
        assert(steps[0] == p@[from as int]@);
        assert(steps.subrange(1, steps.len() as int) =~= path_view(p@).subrange(
            from as int + 1,
            p@.len() as int,
        ));
    }
    let step = &p[from];
    match v {
        Value::Object(es, cd) => {
            proof {
                lemma_entries_view(es@);
            }
            let n = match step {
                PathStep::PropertyName(n) => n,
                PathStep::Index(_) => vstd::pervasive::unreached(),
            };
            let i = match find_element(es, n) {
                Some(i) => i,
                None => vstd::pervasive::unreached(),
            };
            let child = val_updated(&es[i].value, p, from + 1, nv);
            Value::Object(set_entry(es, i, child), copy_class_opt(cd))
        }
        Value::EcmaArray(dense, assoc, len) => match step {
            PathStep::PropertyName(n) => {
                proof {
                    lemma_entries_view(assoc@);
                }
                let i = match find_element(assoc, n) {
                    Some(i) => i,
                    None => vstd::pervasive::unreached(),
                };
                let child = val_updated(&assoc[i].value, p, from + 1, nv);
                Value::EcmaArray(copy_values(dense), set_entry(assoc, i, child), *len)
            },
            PathStep::Index(k) => {
                proof {
                    lemma_vals_view(dense@);
                }
                let child = val_updated(&dense[*k], p, from + 1, nv);
                Value::EcmaArray(set_value(dense, *k, child), copy_elements(assoc), *len)
            },
        },
        Value::StrictArray(vs) => {
            proof {
                lemma_vals_view(vs@);
            }
            let k = match step {
                PathStep::Index(k) => *k,
                PathStep::PropertyName(_) => vstd::pervasive::unreached(),
            };
            let child = val_updated(&vs[k], p, from + 1, nv);
            Value::StrictArray(set_value(vs, k, child))
        }
        Value::VectorObject(vs, n, f) => {
            proof {
                lemma_vals_view(vs@);
            }
            let k = match step {
                PathStep::Index(k) => *k,
                PathStep::PropertyName(_) => vstd::pervasive::unreached(),
            };
            let child = val_updated(&vs[k], p, from + 1, nv);
            Value::VectorObject(set_value(vs, k, child), n.clone(), *f)
        }
        Value::Dictionary(ps, w) => {
            proof {
                lemma_pairs_view(ps@);
            }
            let k = match step {
                PathStep::Index(k) => *k,
                PathStep::PropertyName(_) => vstd::pervasive::unreached(),
            };
            let pr = &ps[k / 2];
            let child = if k % 2 == 0 {
                val_updated(&pr.0, p, from + 1, nv)
            } else {
                val_updated(&pr.1, p, from + 1, nv)
            };
            Value::Dictionary(set_pair_slot(ps, k, child), *w)
        }
        _ => vstd::pervasive::unreached(),
    }
}

/// Copies a path, step by step.
pub fn copy_path(p: &Vec<PathStep>) -> (r: Vec<PathStep>)
    ensures
        path_view(r@) == path_view(p@),
{
    let mut r: Vec<PathStep> = Vec::new();
    let mut i: usize = 0;
    while i < p.len()
        invariant
            i <= p.len(),
            r@.len() == i,
            forall|j: int| 0 <= j < i ==> #[trigger] r@[j]@ == p@[j]@,
        decreases p.len() - i,
    {
        let s = match &p[i] {
            PathStep::PropertyName(n) => PathStep::PropertyName(n.clone()),
            PathStep::Index(k) => PathStep::Index(*k),
        };
        r.push(s);
        i += 1;
    }
    proof {
        assert(path_view(r@) =~= path_view(p@));
    }
    r
}

/// Resolves a path inside a document: on success, the value at that path
/// together with everything a later commit needs. A path that does not
/// resolve against the document's actual shape is rejected and the
/// document is untouched.
pub fn locate(d: &Document, path: &Vec<PathStep>) -> (r: Result<EditableValue, EditError>)
    ensures
        match r {
            Ok(sel) => {
                &&& doc_lookup(d@, path_view(path@)) == Some(sel.value@)
                &&& path_view(sel.path@) == path_view(path@)
                &&& sel.snapshot@ == d@
            },
            Err(e) => {
                &&& e == EditError::PathNotFound
                &&& doc_lookup(d@, path_view(path@)) is None
            },
        },
{
    broadcast use lemma_entries_view, lemma_find_name;

    let ghost steps = path_view(path@);
    if path.len() == 0 {
        return Err(EditError::PathNotFound);
    }
    proof {
        assert(steps[0] == path@[0]@);
        assert(steps.subrange(1, steps.len() as int) =~= path_view(path@).subrange(
            1,
            path@.len() as int,
        ));
    }
    let name = match &path[0] {
        PathStep::PropertyName(n) => n,
        PathStep::Index(_) => {
            return Err(EditError::PathNotFound);
        },
    };
    match find_element(&d.body, name) {
        None => Err(EditError::PathNotFound),
        Some(i) => match val_get(&d.body[i].value, path, 1) {
            None => Err(EditError::PathNotFound),
            Some(found) => Ok(
                EditableValue {
                    value: found.deep_copy(),
                    path: copy_path(path),
                    snapshot: d.deep_copy(),
                },
            ),
        },
    }
}

impl EditableValue {
    /// The selection's path resolves inside its captured snapshot to the
    /// captured value.
    pub open spec fn valid(self) -> bool {
        doc_lookup(self.snapshot@, path_view(self.path@)) == Some(self.value@)
    }

    /// Rebuilds the captured document snapshot with the node at the
    /// captured path replaced by `nv`; every other slot, the entry order
    /// and the header are unchanged. Pure: committing twice from the same
    /// selection yields structurally equal documents.
    pub fn commit(&self, nv: Value) -> (r: Document)
        requires
            doc_lookup(self.snapshot@, path_view(self.path@)) is Some,
        ensures
            r@ == doc_update(self.snapshot@, path_view(self.path@), nv@),
    {
        broadcast use lemma_entries_view, lemma_find_name;

        let ghost steps = path_view(self.path@);
        proof {
            assert(steps[0] == self.path@[0]@);
            assert(steps.subrange(1, steps.len() as int) =~= path_view(self.path@).subrange(
                1,
                self.path@.len() as int,
            ));
        }
        let name = match &self.path[0] {
            PathStep::PropertyName(n) => n,
            PathStep::Index(_) => vstd::pervasive::unreached(),
        };
        let i = match find_element(&self.snapshot.body, name) {
            Some(i) => i,
            None => vstd::pervasive::unreached(),
        };
        let child = val_updated(&self.snapshot.body[i].value, &self.path, 1, nv);
        let body = set_entry(&self.snapshot.body, i, child);
        let r = Document { header: self.snapshot.header.deep_copy(), body };
        proof {
            let w = doc_wrapper(self.snapshot@);
            let u = val_update(
                step_child(w, steps[0])->Some_0,
                steps.subrange(1, steps.len() as int),
                nv@,
            );
            assert(val_update(w, steps, nv@) == step_replace(w, steps[0], u));
            assert(r@.body =~= doc_update(self.snapshot@, steps, nv@).body);
        }
        r
    }
}

} // verus!
