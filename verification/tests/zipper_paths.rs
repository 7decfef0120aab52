use sol_editor::model::{ClassDefinition, Document, Element, Header, Value};
use sol_editor::zipper::{locate, EditError, PathStep};

fn header(name: &str) -> Header {
    Header { name: name.to_string(), length: 0, format_version: 3 }
}

fn sample_doc() -> Document {
    // root
    //   score: Integer(10)
    //   player: Object { name: Str("ada"), stats: StrictArray [Integer(1), Integer(2)] }
    //   flags: Dictionary [(Str("on"), Bool(true))]
    let stats = Value::StrictArray(vec![Value::Integer(1), Value::Integer(2)]);
    let player = Value::Object(
        vec![
            Element { name: "name".to_string(), value: Value::Str("ada".to_string()) },
            Element { name: "stats".to_string(), value: stats },
        ],
        Some(ClassDefinition {
            name: "Player".to_string(),
            is_dynamic: true,
            is_external: false,
            static_properties: vec!["name".to_string()],
        }),
    );
    let flags = Value::Dictionary(
        vec![(Value::Str("on".to_string()), Value::Bool(true))],
        false,
    );
    Document {
        header: header("data"),
        body: vec![
            Element { name: "score".to_string(), value: Value::Integer(10) },
            Element { name: "player".to_string(), value: player },
            Element { name: "flags".to_string(), value: flags },
        ],
    }
}

fn prop(s: &str) -> PathStep {
    PathStep::PropertyName(s.to_string())
}

#[test]
fn locate_returns_value_at_path() {
    let d = sample_doc();
    let path = vec![prop("player"), prop("stats"), PathStep::Index(1)];
    let sel = locate(&d, &path).unwrap();
    assert_eq!(sel.value, Value::Integer(2));
}

#[test]
fn locate_top_level_entry() {
    let d = sample_doc();
    let sel = locate(&d, &vec![prop("score")]).unwrap();
    assert_eq!(sel.value, Value::Integer(10));
}

#[test]
fn locate_empty_path_fails() {
    let d = sample_doc();
    assert_eq!(locate(&d, &vec![]).unwrap_err(), EditError::PathNotFound);
}

#[test]
fn locate_missing_property_fails() {
    let d = sample_doc();
    assert_eq!(
        locate(&d, &vec![prop("nope")]).unwrap_err(),
        EditError::PathNotFound
    );
}

#[test]
fn locate_index_on_object_fails() {
    let d = sample_doc();
    assert_eq!(
        locate(&d, &vec![prop("player"), PathStep::Index(0)]).unwrap_err(),
        EditError::PathNotFound
    );
}

#[test]
fn locate_index_out_of_range_fails() {
    let d = sample_doc();
    assert_eq!(
        locate(&d, &vec![prop("player"), prop("stats"), PathStep::Index(2)]).unwrap_err(),
        EditError::PathNotFound
    );
}

#[test]
fn locate_dictionary_key_and_value_slots() {
    let d = sample_doc();
    let key = locate(&d, &vec![prop("flags"), PathStep::Index(0)]).unwrap();
    assert_eq!(key.value, Value::Str("on".to_string()));
    let val = locate(&d, &vec![prop("flags"), PathStep::Index(1)]).unwrap();
    assert_eq!(val.value, Value::Bool(true));
}

#[test]
fn commit_replaces_only_target() {
    let d = sample_doc();
    let path = vec![prop("player"), prop("stats"), PathStep::Index(0)];
    let sel = locate(&d, &path).unwrap();
    let d2 = sel.commit(Value::Integer(42));

    // The addressed slot changed.
    let after = locate(&d2, &path).unwrap();
    assert_eq!(after.value, Value::Integer(42));

    // Header and every other slot are unchanged.
    assert_eq!(d2.header, d.header);
    let sibling = locate(&d2, &vec![prop("player"), prop("stats"), PathStep::Index(1)]).unwrap();
    assert_eq!(sibling.value, Value::Integer(2));
    let name = locate(&d2, &vec![prop("player"), prop("name")]).unwrap();
    assert_eq!(name.value, Value::Str("ada".to_string()));
    let score = locate(&d2, &vec![prop("score")]).unwrap();
    assert_eq!(score.value, Value::Integer(10));

    // The original document snapshot is untouched.
    let orig = locate(&d, &path).unwrap();
    assert_eq!(orig.value, Value::Integer(1));
}

#[test]
fn commit_replay_yields_equal_documents() {
    let d = sample_doc();
    let sel = locate(&d, &vec![prop("score")]).unwrap();
    let d1 = sel.commit(Value::Integer(7));
    let d2 = sel.commit(Value::Integer(7));
    assert_eq!(d1, d2);
}

#[test]
fn commit_may_change_variant() {
    let d = sample_doc();
    let sel = locate(&d, &vec![prop("score")]).unwrap();
    let d2 = sel.commit(Value::Str("ten".to_string()));
    let after = locate(&d2, &vec![prop("score")]).unwrap();
    assert_eq!(after.value, Value::Str("ten".to_string()));
}

#[test]
fn commit_dictionary_key_slot() {
    let d = sample_doc();
    let path = vec![prop("flags"), PathStep::Index(0)];
    let sel = locate(&d, &path).unwrap();
    let d2 = sel.commit(Value::Str("off".to_string()));
    let key = locate(&d2, &path).unwrap();
    assert_eq!(key.value, Value::Str("off".to_string()));
    let val = locate(&d2, &vec![prop("flags"), PathStep::Index(1)]).unwrap();
    assert_eq!(val.value, Value::Bool(true));
}

#[test]
fn ecma_array_addresses_dense_by_index_and_assoc_by_name() {
    let arr = Value::EcmaArray(
        vec![Value::Integer(5), Value::Integer(6)],
        vec![Element { name: "extra".to_string(), value: Value::Bool(true) }],
        2,
    );
    let d = Document {
        header: header("data"),
        body: vec![Element { name: "arr".to_string(), value: arr }],
    };

    let dense = locate(&d, &vec![prop("arr"), PathStep::Index(1)]).unwrap();
    assert_eq!(dense.value, Value::Integer(6));
    let assoc = locate(&d, &vec![prop("arr"), prop("extra")]).unwrap();
    assert_eq!(assoc.value, Value::Bool(true));

    let d2 = dense.commit(Value::Integer(60));
    assert_eq!(
        locate(&d2, &vec![prop("arr"), PathStep::Index(1)]).unwrap().value,
        Value::Integer(60)
    );
    assert_eq!(
        locate(&d2, &vec![prop("arr"), prop("extra")]).unwrap().value,
        Value::Bool(true)
    );
}

#[test]
fn vector_object_slots_are_addressable() {
    let vobj = Value::VectorObject(
        vec![Value::Str("a".to_string()), Value::Str("b".to_string())],
        "Elem".to_string(),
        true,
    );
    let d = Document {
        header: header("data"),
        body: vec![Element { name: "v".to_string(), value: vobj }],
    };
    let sel = locate(&d, &vec![prop("v"), PathStep::Index(0)]).unwrap();
    assert_eq!(sel.value, Value::Str("a".to_string()));
    let d2 = sel.commit(Value::Str("z".to_string()));
    assert_eq!(
        locate(&d2, &vec![prop("v"), PathStep::Index(0)]).unwrap().value,
        Value::Str("z".to_string())
    );
    // The element class name and the fixed-length flag survive the commit.
    match &d2.body[0].value {
        Value::VectorObject(vs, name, fixed) => {
            assert_eq!(vs.len(), 2);
            assert_eq!(name, "Elem");
            assert!(*fixed);
        }
        other => panic!("expected a vector of objects, got {other:?}"),
    }
}

#[test]
fn duplicate_names_resolve_to_first_match() {
    let d = Document {
        header: header("data"),
        body: vec![
            Element { name: "x".to_string(), value: Value::Integer(1) },
            Element { name: "x".to_string(), value: Value::Integer(2) },
        ],
    };
    let sel = locate(&d, &vec![prop("x")]).unwrap();
    assert_eq!(sel.value, Value::Integer(1));
    let d2 = sel.commit(Value::Integer(10));
    assert_eq!(d2.body[0].value, Value::Integer(10));
    assert_eq!(d2.body[1].value, Value::Integer(2));
}

#[test]
fn numeric_vector_elements_are_not_addressable() {
    let d = Document {
        header: header("data"),
        body: vec![
            Element { name: "v".to_string(), value: Value::VectorInt(vec![1, 2, 3], false) },
        ],
    };
    assert_eq!(
        locate(&d, &vec![prop("v"), PathStep::Index(0)]).unwrap_err(),
        EditError::PathNotFound
    );
}

#[test]
fn deep_copy_is_structurally_equal() {
    let d = sample_doc();
    let c = d.deep_copy();
    assert_eq!(c, d);
}
