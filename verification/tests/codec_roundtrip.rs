use flash_lso::read::Reader;
use flash_lso::types::{
    AMFVersion, Attribute, ClassDefinition as LsoClassDef, DictionaryEntry, DictionaryObjectValue,
    ECMAArrayObjectValue, Element as LsoElement, Lso, ObjectId, ObjectValue, Value as LsoValue,
    VectorObjectValue, VectorPrimitiveValue,
};
use flash_lso::write::write_to_bytes;
use sol_editor::model::{ClassDefinition, Document, Element, Header, Value};
use sol_editor::session::Session;
use sol_editor::zipper::PathStep;

// --- codec adapter: flash-lso <-> library model ---------------------------

fn to_lib_classdef(c: &LsoClassDef) -> ClassDefinition {
    ClassDefinition {
        name: c.name.clone(),
        is_dynamic: c.attributes.contains(Attribute::Dynamic),
        is_external: c.attributes.contains(Attribute::External),
        static_properties: c.static_properties.clone(),
    }
}

fn to_lso_classdef(c: &ClassDefinition) -> LsoClassDef {
    let mut cd = LsoClassDef::default();
    cd.name = c.name.clone();
    cd.static_properties = c.static_properties.clone();
    cd.attributes.clear();
    if c.is_dynamic {
        cd.attributes.insert(Attribute::Dynamic);
    }
    if c.is_external {
        cd.attributes.insert(Attribute::External);
    }
    cd
}

fn to_lib_elements(es: &[LsoElement]) -> Vec<Element> {
    es.iter()
        .map(|e| Element { name: e.name.clone(), value: to_lib_value(&e.value) })
        .collect()
}

fn to_lso_elements(es: &[Element]) -> Vec<LsoElement> {
    es.iter()
        .map(|e| LsoElement { name: e.name.clone(), value: to_lso_value(&e.value) })
        .collect()
}

fn to_lib_value(v: &LsoValue) -> Value {
    match v {
        LsoValue::Number(f) => Value::Number(f.to_bits()),
        LsoValue::Bool(b) => Value::Bool(*b),
        LsoValue::String(s) => Value::Str(s.clone()),
        LsoValue::Object { data, .. } => Value::Object(
            to_lib_elements(&data.elements),
            data.class_definition.as_ref().map(to_lib_classdef),
        ),
        LsoValue::Null => Value::Null,
        LsoValue::Undefined => Value::Undefined,
        LsoValue::ECMAArray { data, .. } => Value::EcmaArray(
            data.dense.iter().map(to_lib_value).collect(),
            to_lib_elements(&data.elements),
            data.length,
        ),
        LsoValue::StrictArray { values, .. } => {
            Value::StrictArray(values.iter().map(to_lib_value).collect())
        }
        LsoValue::Date { time, timezone_or_utc } => {
            Value::Date(time.to_bits(), *timezone_or_utc)
        }
        LsoValue::Unsupported => Value::Unsupported,
        LsoValue::XML { value, is_string } => Value::Xml(value.clone(), *is_string),
        LsoValue::AMF3(inner) => to_lib_value(inner),
        LsoValue::Integer(i) => Value::Integer(*i),
        LsoValue::ByteArray(b) => Value::ByteArray(b.clone()),
        LsoValue::VectorInt(d) => Value::VectorInt(d.values.clone(), d.fixed_length),
        LsoValue::VectorUInt(d) => Value::VectorUInt(d.values.clone(), d.fixed_length),
        LsoValue::VectorDouble(d) => Value::VectorDouble(
            d.values.iter().map(|f| f.to_bits()).collect(),
            d.fixed_length,
        ),
        LsoValue::VectorObject { data, .. } => Value::VectorObject(
            data.values.iter().map(to_lib_value).collect(),
            data.object_type_name.clone(),
            data.fixed_length,
        ),
        LsoValue::Dictionary { data, .. } => Value::Dictionary(
            data.elements
                .iter()
                .map(|e| (to_lib_value(&e.key), to_lib_value(&e.value)))
                .collect(),
            data.weak_keys,
        ),
        LsoValue::Custom(c) => Value::Custom(
            to_lib_elements(&c.elements),
            to_lib_elements(&c.dynamic_elements),
            Some(to_lib_classdef(&c.class_definition)),
        ),
        LsoValue::Reference(_) | LsoValue::Amf3ObjectReference(_) => Value::Unsupported,
    }
}

fn to_lso_value(v: &Value) -> LsoValue {
    match v {
        Value::Null => LsoValue::Null,
        Value::Undefined => LsoValue::Undefined,
        Value::Bool(b) => LsoValue::Bool(*b),
        Value::Integer(i) => LsoValue::Integer(*i),
        Value::Number(bits) => LsoValue::Number(f64::from_bits(*bits)),
        Value::Str(s) => LsoValue::String(s.clone()),
        Value::ByteArray(b) => LsoValue::ByteArray(b.clone()),
        Value::Date(bits, tz) => {
            LsoValue::Date { time: f64::from_bits(*bits), timezone_or_utc: *tz }
        }
        Value::Xml(s, f) => LsoValue::XML { value: s.clone(), is_string: *f },
        Value::Object(es, cd) => LsoValue::Object {
            id: ObjectId::INVALID,
            data: ObjectValue {
                elements: to_lso_elements(es),
                class_definition: cd.as_ref().map(to_lso_classdef),
            },
        },
        Value::StrictArray(vs) => LsoValue::StrictArray {
            id: ObjectId::INVALID,
            values: vs.iter().map(to_lso_value).collect(),
        },
        Value::EcmaArray(dense, assoc, len) => LsoValue::ECMAArray {
            id: ObjectId::INVALID,
            data: ECMAArrayObjectValue {
                dense: dense.iter().map(to_lso_value).collect(),
                elements: to_lso_elements(assoc),
                length: *len,
            },
        },
        Value::VectorInt(vs, f) => {
            LsoValue::VectorInt(VectorPrimitiveValue { values: vs.clone(), fixed_length: *f })
        }
        Value::VectorUInt(vs, f) => {
            LsoValue::VectorUInt(VectorPrimitiveValue { values: vs.clone(), fixed_length: *f })
        }
        Value::VectorDouble(vs, f) => LsoValue::VectorDouble(VectorPrimitiveValue {
            values: vs.iter().map(|b| f64::from_bits(*b)).collect(),
            fixed_length: *f,
        }),
        Value::VectorObject(vs, name, f) => LsoValue::VectorObject {
            id: ObjectId::INVALID,
            data: VectorObjectValue {
                values: vs.iter().map(to_lso_value).collect(),
                object_type_name: name.clone(),
                fixed_length: *f,
            },
        },
        Value::Dictionary(ps, w) => LsoValue::Dictionary {
            id: ObjectId::INVALID,
            data: DictionaryObjectValue {
                elements: ps
                    .iter()
                    .map(|(k, v)| DictionaryEntry {
                        key: to_lso_value(k),
                        value: to_lso_value(v),
                    })
                    .collect(),
                weak_keys: *w,
            },
        },
        Value::Custom(es, ds, cd) => LsoValue::Custom(flash_lso::types::CustomObjectValue {
            elements: to_lso_elements(es),
            dynamic_elements: to_lso_elements(ds),
            class_definition: cd
                .as_ref()
                .map(to_lso_classdef)
                .unwrap_or_default(),
        }),
        Value::Unsupported => LsoValue::Unsupported,
    }
}

fn to_lib_document(lso: &Lso) -> Document {
    Document {
        header: Header {
            name: lso.header.name.clone(),
            length: lso.header.length,
            format_version: match lso.header.format_version {
                AMFVersion::AMF0 => 0,
                AMFVersion::AMF3 => 3,
            },
        },
        body: to_lib_elements(&lso.body),
    }
}

fn to_lso_document(d: &Document) -> Lso {
    let version = if d.header.format_version == 3 { AMFVersion::AMF3 } else { AMFVersion::AMF0 };
    let mut lso = Lso::new(to_lso_elements(&d.body), d.header.name.clone(), version);
    lso.header.length = d.header.length;
    lso
}

fn encode(d: &Document) -> Vec<u8> {
    let mut lso = to_lso_document(d);
    write_to_bytes(&mut lso).expect("encode failed")
}

fn decode(bytes: &[u8]) -> Document {
    let lso = Reader::default().parse(bytes).expect("decode failed");
    to_lib_document(&lso)
}

// --- tests ---------------------------------------------------------------

fn prop(s: &str) -> PathStep {
    PathStep::PropertyName(s.to_string())
}

#[test]
fn decode_zero_edits_encode_round_trips() {
    let body = vec![
        LsoElement::new("score", LsoValue::Integer(10)),
        LsoElement::new("label", LsoValue::String("hi".to_string())),
        LsoElement::new("ratio", LsoValue::Number(0.5)),
        LsoElement::new("on", LsoValue::Bool(true)),
    ];
    let mut lso = Lso::new(body, "data", AMFVersion::AMF3);
    let bytes = write_to_bytes(&mut lso).expect("encode failed");

    let d = decode(&bytes);
    let bytes2 = encode(&d);
    let d2 = decode(&bytes2);
    assert_eq!(d2, d);
}

#[test]
fn nested_composites_round_trip_and_edit() {
    let player = LsoValue::Object {
        id: ObjectId::INVALID,
        data: ObjectValue {
            elements: vec![
                LsoElement::new("name", LsoValue::String("ada".to_string())),
                LsoElement::new(
                    "scores",
                    LsoValue::StrictArray {
                        id: ObjectId::INVALID,
                        values: vec![LsoValue::Number(1.0), LsoValue::Number(2.0)],
                    },
                ),
            ],
            class_definition: None,
        },
    };
    let mut lso = Lso::new(vec![LsoElement::new("player", player)], "save", AMFVersion::AMF0);
    let bytes = write_to_bytes(&mut lso).expect("encode failed");

    let d = decode(&bytes);
    let d2 = decode(&encode(&d));
    assert_eq!(d2, d);

    let mut session = Session::new();
    let idx = session.add_document(d);
    let path = vec![prop("player"), prop("scores"), PathStep::Index(1)];
    session.select(idx, &path).unwrap();
    session.apply_edit(Value::Number(9.5f64.to_bits())).unwrap();

    let redecoded = decode(&encode(session.document_at(idx).unwrap()));
    assert_eq!(redecoded.body[0].name, "player".to_string());
    match &redecoded.body[0].value {
        Value::Object(es, _) => {
            assert_eq!(es[0].value, Value::Str("ada".to_string()));
            match &es[1].value {
                Value::StrictArray(vs) => {
                    assert_eq!(vs[0], Value::Number(1.0f64.to_bits()));
                    assert_eq!(vs[1], Value::Number(9.5f64.to_bits()));
                }
                other => panic!("expected an array, got {other:?}"),
            }
        }
        other => panic!("expected an object, got {other:?}"),
    }
}

#[test]
fn load_select_edit_serialize_redecode_scenario() {
    // A document with header {name: "data", version: 3} and one entry
    // ("score", Integer(10)).
    let body = vec![LsoElement::new("score", LsoValue::Integer(10))];
    let mut lso = Lso::new(body, "data", AMFVersion::AMF3);
    let bytes = write_to_bytes(&mut lso).expect("encode failed");

    let mut session = Session::new();
    let idx = session.add_document(decode(&bytes));
    session.select(idx, &vec![prop("score")]).unwrap();
    session.apply_edit(Value::Integer(99)).unwrap();

    let out = encode(session.document_at(idx).unwrap());
    let redecoded = decode(&out);

    assert_eq!(redecoded.body.len(), 1);
    assert_eq!(redecoded.body[0].name, "score".to_string());
    assert_eq!(redecoded.body[0].value, Value::Integer(99));
    assert_eq!(redecoded.header.name, "data".to_string());
    assert_eq!(redecoded.header.format_version, 3);
}
