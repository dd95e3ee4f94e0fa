use serde_json::{Number, Value};
use variant_bridge::decode::decode;
use variant_bridge::encode::encode;
use variant_bridge::geometry::{
    Aabb, Basis, Color, Double, ObjectRef, Plane, Quat, Rect2, Rid, Single, Transform,
    Transform2D, Vector2, Vector3,
};
use variant_bridge::infer::infer;
use variant_bridge::kind::VariantType;
use variant_bridge::structured::{Discriminant, Structured};
use variant_bridge::untagged::Untagged;
use variant_bridge::variant::{Dictionary, Variant, VariantArray, VariantDispatch};

fn s(v: f32) -> Single {
    Single::from_bits(v.to_bits())
}

fn v2(x: f32, y: f32) -> Vector2 {
    Vector2 { x: s(x), y: s(y) }
}

fn v3(x: f32, y: f32, z: f32) -> Vector3 {
    Vector3 { x: s(x), y: s(y), z: s(z) }
}

fn string(v: &str) -> VariantDispatch {
    VariantDispatch::GodotString(v.to_string())
}

fn lift(v: &VariantDispatch) -> Variant {
    Variant::from_dispatch(v)
}

fn dictionary(entries: Vec<(VariantDispatch, VariantDispatch)>) -> VariantDispatch {
    let mut d = Dictionary::new();
    for (k, v) in entries {
        d.insert(lift(&k), lift(&v));
    }
    VariantDispatch::Dictionary(d)
}

fn array(items: Vec<VariantDispatch>) -> VariantDispatch {
    let mut a = VariantArray::new();
    for item in items {
        a.push(lift(&item));
    }
    VariantDispatch::VariantArray(a)
}

/// What a JSON writer makes of a structured value: a record is an object, a
/// tagged value an object of one key, the tag without data a string.
fn to_json(node: &Structured) -> Value {
    match node {
        Structured::Unit | Structured::Absent => Value::Null,
        Structured::Bool(v) => Value::Bool(*v),
        Structured::U8(v) => Value::Number(Number::from(*v)),
        Structured::I32(v) => Value::Number(Number::from(*v)),
        Structured::I64(v) => Value::Number(Number::from(*v)),
        Structured::Single(v) => {
            Value::Number(Number::from_f64(f32::from_bits(v.to_bits()) as f64).unwrap())
        }
        Structured::Double(v) => Value::Number(Number::from_f64(f64::from_bits(v.to_bits())).unwrap()),
        Structured::Text(v) => Value::String(v.clone()),
        Structured::Sequence(items) | Structured::Tuple(items) => {
            Value::Array(items.iter().map(to_json).collect())
        }
        Structured::Record { name: _, fields } => {
            let mut object = serde_json::Map::new();
            for (field, value) in fields {
                object.insert(field.clone(), to_json(value));
            }
            Value::Object(object)
        }
        Structured::Newtype { name: _, value } => to_json(value),
        Structured::Variant { tag, payload } => {
            let kind = tag.resolve().unwrap();
            if kind == VariantType::Nil {
                Value::String(kind.name().to_string())
            } else {
                let mut object = serde_json::Map::new();
                object.insert(kind.name().to_string(), to_json(payload));
                Value::Object(object)
            }
        }
    }
}

fn single_of(value: &Value) -> Structured {
    Structured::Single(s(value.as_f64().unwrap() as f32))
}

fn record(name: &str, fields: Vec<(&str, Structured)>) -> Structured {
    Structured::Record {
        name: name.to_string(),
        fields: fields.into_iter().map(|(field, value)| (field.to_string(), value)).collect(),
    }
}

fn vector2_of(value: &Value) -> Structured {
    record("Vector2", vec![("x", single_of(&value["x"])), ("y", single_of(&value["y"]))])
}

fn vector3_of(value: &Value) -> Structured {
    record(
        "Vector3",
        vec![
            ("x", single_of(&value["x"])),
            ("y", single_of(&value["y"])),
            ("z", single_of(&value["z"])),
        ],
    )
}

fn basis_of(value: &Value) -> Structured {
    let elements = value["elements"].as_array().unwrap();
    record("Basis", vec![("elements", Structured::Tuple(elements.iter().map(vector3_of).collect()))])
}

fn color_of(value: &Value) -> Structured {
    record(
        "Color",
        vec![
            ("r", single_of(&value["r"])),
            ("g", single_of(&value["g"])),
            ("b", single_of(&value["b"])),
            ("a", single_of(&value["a"])),
        ],
    )
}

fn sequence_of(value: &Value, item: fn(&Value) -> Structured) -> Structured {
    Structured::Sequence(value.as_array().unwrap().iter().map(item).collect())
}

/// Reads the payload of a kind as a JSON reader hands it over when it is
/// asked for the type that the kind gives it.
fn read_payload(kind: VariantType, value: &Value) -> Structured {
    match kind {
        VariantType::Nil => Structured::Unit,
        VariantType::Bool => Structured::Bool(value.as_bool().unwrap()),
        VariantType::I64 => Structured::I64(value.as_i64().unwrap()),
        VariantType::F64 => {
            Structured::Double(Double::from_bits(value.as_f64().unwrap().to_bits()))
        }
        VariantType::GodotString => Structured::Text(value.as_str().unwrap().to_string()),
        VariantType::Vector2 => vector2_of(value),
        VariantType::Rect2 => record(
            "Rect2",
            vec![("position", vector2_of(&value["position"])), ("size", vector2_of(&value["size"]))],
        ),
        VariantType::Vector3 => vector3_of(value),
        VariantType::Transform2D => record(
            "Transform2D",
            vec![
                ("x", vector2_of(&value["x"])),
                ("y", vector2_of(&value["y"])),
                ("origin", vector2_of(&value["origin"])),
            ],
        ),
        VariantType::Plane => record(
            "Plane",
            vec![("normal", vector3_of(&value["normal"])), ("d", single_of(&value["d"]))],
        ),
        VariantType::Quat => record(
            "Quat",
            vec![
                ("x", single_of(&value["x"])),
                ("y", single_of(&value["y"])),
                ("z", single_of(&value["z"])),
                ("w", single_of(&value["w"])),
            ],
        ),
        VariantType::Aabb => record(
            "Aabb",
            vec![("position", vector3_of(&value["position"])), ("size", vector3_of(&value["size"]))],
        ),
        VariantType::Basis => basis_of(value),
        VariantType::Transform => record(
            "Transform",
            vec![("basis", basis_of(&value["basis"])), ("origin", vector3_of(&value["origin"]))],
        ),
        VariantType::Color => color_of(value),
        VariantType::NodePath => Structured::Newtype {
            name: "NodePath".to_string(),
            value: Box::new(Structured::Text(value.as_str().unwrap().to_string())),
        },
        VariantType::Rid => Structured::Unit,
        VariantType::Object => Structured::Absent,
        VariantType::Dictionary => sequence_of(value, |entry| {
            record(
                "DictionaryDispatchEntry",
                vec![("key", read_tagged(&entry["key"])), ("value", read_tagged(&entry["value"]))],
            )
        }),
        VariantType::VariantArray => sequence_of(value, read_tagged),
        VariantType::ByteArray => {
            sequence_of(value, |item| Structured::U8(item.as_u64().unwrap() as u8))
        }
        VariantType::Int32Array => {
            sequence_of(value, |item| Structured::I32(item.as_i64().unwrap() as i32))
        }
        VariantType::Float32Array => sequence_of(value, single_of),
        VariantType::StringArray => {
            sequence_of(value, |item| Structured::Text(item.as_str().unwrap().to_string()))
        }
        VariantType::Vector2Array => sequence_of(value, vector2_of),
        VariantType::Vector3Array => sequence_of(value, vector3_of),
        VariantType::ColorArray => sequence_of(value, color_of),
    }
}

/// Reads a tagged value: its tag comes as a name, and the library resolves
/// it.
fn read_tagged(value: &Value) -> Structured {
    let (name, inner) = match value {
        Value::String(name) => (name.clone(), &Value::Null),
        Value::Object(object) if object.len() == 1 => {
            let (name, inner) = object.iter().next().unwrap();
            (name.clone(), inner)
        }
        other => panic!("no tagged value: {}", other),
    };
    let payload = match VariantType::from_name(&name) {
        Some(kind) => read_payload(kind, inner),
        None => Structured::Unit,
    };
    Structured::Variant { tag: Discriminant::Name(name), payload: Box::new(payload) }
}

/// What a JSON reader presents when it is asked for any value.
fn to_untagged(value: &Value) -> Untagged {
    match value {
        Value::Null => Untagged::Unit,
        Value::Bool(v) => Untagged::Bool(*v),
        Value::Number(n) => {
            if let Some(v) = n.as_u64() {
                Untagged::UInt { value: v, single: s((v as i64) as f32) }
            } else if let Some(v) = n.as_i64() {
                Untagged::Int { value: v, single: s(v as f32) }
            } else {
                let v = n.as_f64().unwrap();
                Untagged::Real { value: Double::from_bits(v.to_bits()), single: s(v as f32) }
            }
        }
        Value::String(v) => Untagged::Text(v.clone()),
        Value::Array(items) => Untagged::Sequence(items.iter().map(to_untagged).collect()),
        Value::Object(object) => Untagged::Entries(
            object
                .iter()
                .map(|(key, value)| (Untagged::Text(key.clone()), to_untagged(value)))
                .collect(),
        ),
    }
}

fn through_json(value: &VariantDispatch) -> VariantDispatch {
    let written = serde_json::to_string(&to_json(&encode(value))).unwrap();
    let read: Value = serde_json::from_str(&written).unwrap();
    decode(&read_tagged(&read)).unwrap()
}

fn infer_from(json: &str) -> VariantDispatch {
    let read: Value = serde_json::from_str(json).unwrap();
    infer(&to_untagged(&read))
}

fn basis() -> Basis {
    Basis {
        first: v3(-0.5, 0.0, 0.8660254),
        second: v3(0.0, 1.0, 0.0),
        third: v3(-0.8660254, 0.0, -0.5),
    }
}

/// The values of a record of one field of every kind.
fn fields() -> Vec<VariantDispatch> {
    vec![
        VariantDispatch::Nil,
        VariantDispatch::Bool(false),
        VariantDispatch::I64(1),
        VariantDispatch::F64(Double::from_bits(2.0f64.to_bits())),
        string("this is a str"),
        VariantDispatch::Vector2(v2(1.0, 0.0)),
        VariantDispatch::Rect2(Rect2 { position: v2(46.47, -2.0), size: v2(3.0, 4.8) }),
        VariantDispatch::Vector3(v3(0.0, 0.0, 1.0)),
        VariantDispatch::Transform2D(Transform2D {
            x: v2(1.0, 2.0),
            y: v2(3.0, 4.0),
            origin: v2(5.0, 6.0),
        }),
        VariantDispatch::Plane(Plane { normal: v3(0.57735, 0.57735, 0.57735), d: s(3.0) }),
        VariantDispatch::Quat(Quat { x: s(4.1), y: s(5.2), z: s(6.3), w: s(7.5) }),
        VariantDispatch::Aabb(Aabb { position: v3(8.2, 9.8, 10.11), size: v3(12.13, 14.15, 16.17) }),
        VariantDispatch::Basis(basis()),
        VariantDispatch::Transform(Transform { basis: basis(), origin: v3(24.25, 26.27, 28.29) }),
        VariantDispatch::Color(Color { r: s(0.549), g: s(0.0), b: s(1.0), a: s(1.0) }),
        VariantDispatch::NodePath("/root/Node".to_string()),
        dictionary(vec![
            (string("name"), string("value")),
            (VariantDispatch::I64(7), array(vec![VariantDispatch::Bool(true), VariantDispatch::Nil])),
            (VariantDispatch::Vector2(v2(1.0, 2.0)), dictionary(vec![])),
        ]),
        array(vec![string("a"), array(vec![VariantDispatch::I64(1)])]),
        VariantDispatch::ByteArray(vec![30, 31, 32]),
        VariantDispatch::Int32Array(vec![33, 34, 35, 36]),
        VariantDispatch::Float32Array(vec![s(37.38), s(39.40)]),
        VariantDispatch::StringArray(vec!["hello".to_string(), "world".to_string()]),
        VariantDispatch::Vector2Array(vec![v2(0.0, -1.0), v2(0.0, 1.0), v2(-1.0, 0.0)]),
        VariantDispatch::Vector3Array(vec![v3(41.0, 41.0, 41.0), v3(0.0, 0.0, 42.43)]),
        VariantDispatch::ColorArray(vec![Color { r: s(0.0), g: s(1.0), b: s(0.627), a: s(0.8) }]),
    ]
}

#[test]
fn json_text_of_tagged_values() {
    let text = |value: &VariantDispatch| serde_json::to_string(&to_json(&encode(value))).unwrap();
    assert_eq!(text(&VariantDispatch::Nil), "\"Nil\"");
    assert_eq!(text(&VariantDispatch::Bool(true)), "{\"Bool\":true}");
    assert_eq!(text(&VariantDispatch::I64(-3)), "{\"I64\":-3}");
    assert_eq!(text(&VariantDispatch::Vector2(v2(1.0, 2.5))), "{\"Vector2\":{\"x\":1.0,\"y\":2.5}}");
    assert_eq!(text(&VariantDispatch::Rid(Rid { id: 9 })), "{\"Rid\":null}");
    assert_eq!(text(&VariantDispatch::Object(ObjectRef { instance: 9 })), "{\"Object\":null}");
    assert_eq!(text(&VariantDispatch::NodePath("/root".to_string())), "{\"NodePath\":\"/root\"}");
    assert_eq!(text(&VariantDispatch::ByteArray(vec![1, 2])), "{\"ByteArray\":[1,2]}");
    assert_eq!(
        text(&dictionary(vec![(string("k"), VariantDispatch::I64(1))])),
        "{\"Dictionary\":[{\"key\":{\"GodotString\":\"k\"},\"value\":{\"I64\":1}}]}"
    );
    assert_eq!(
        text(&array(vec![VariantDispatch::Nil, VariantDispatch::Bool(false)])),
        "{\"VariantArray\":[\"Nil\",{\"Bool\":false}]}"
    );
}

#[test]
fn every_kind_round_trips_through_json_text() {
    for value in fields() {
        assert_eq!(through_json(&value), value);
    }
}

#[test]
fn a_record_of_every_kind_round_trips_through_json_text() {
    let mut record = Dictionary::new();
    for value in fields() {
        record.insert(lift(&string(value.kind().name())), lift(&value));
    }
    record.insert(lift(&string("Rid")), lift(&VariantDispatch::Rid(Rid { id: 5 })));
    record.insert(lift(&string("Object")), lift(&VariantDispatch::Object(ObjectRef { instance: 6 })));
    assert_eq!(record.len(), 27);
    let source = Variant::from_dispatch(&VariantDispatch::Dictionary(record));
    let result = Variant::from_dispatch(&through_json(&source.dispatch()));
    let (before, after) = match (source.dispatch(), result.dispatch()) {
        (VariantDispatch::Dictionary(before), VariantDispatch::Dictionary(after)) => (before, after),
        _ => panic!("not an association"),
    };
    assert_eq!(after.len(), 27);
    for i in 0..before.len() {
        assert!(after.key_at(i).equals(before.key_at(i)));
        let field = before.value_at(i).dispatch();
        match field {
            VariantDispatch::Rid(_) => {
                assert_eq!(after.value_at(i).dispatch(), VariantDispatch::Rid(Rid::new()))
            }
            VariantDispatch::Object(_) => {
                assert_eq!(after.value_at(i).dispatch(), VariantDispatch::Object(ObjectRef::new()))
            }
            _ => assert_eq!(after.value_at(i).dispatch(), field),
        }
    }
}

#[test]
fn an_unknown_name_in_json_text_is_reported() {
    let read: Value = serde_json::from_str("{\"Vector4\":[1,2,3,4]}").unwrap();
    let error = decode(&read_tagged(&read)).unwrap_err();
    assert_eq!(error.message(), "invalid VariantType value: Vector4");
}

#[test]
fn an_untagged_map_of_x_and_y_in_json_text_is_a_2d_vector() {
    assert_eq!(infer_from("{\"x\": 1.0, \"y\": 2.0}"), VariantDispatch::Vector2(v2(1.0, 2.0)));
}

#[test]
fn an_untagged_map_of_position_and_size_in_json_text() {
    assert_eq!(
        infer_from("{\"position\": {\"x\":1,\"y\":2}, \"size\": {\"x\":3,\"y\":4}}"),
        VariantDispatch::Rect2(Rect2 { position: v2(1.0, 2.0), size: v2(3.0, 4.0) })
    );
    assert_eq!(
        infer_from(
            "{\"position\": {\"x\":1,\"y\":2,\"z\":3}, \"size\": {\"x\":4,\"y\":5,\"z\":6}}"
        ),
        VariantDispatch::Aabb(Aabb { position: v3(1.0, 2.0, 3.0), size: v3(4.0, 5.0, 6.0) })
    );
}

#[test]
fn a_bare_sequence_of_three_numbers_in_json_text_is_a_3d_vector() {
    assert_eq!(infer_from("[1.0, 2.0, 3.0]"), VariantDispatch::Vector3(v3(1.0, 2.0, 3.0)));
}

#[test]
fn an_untagged_map_of_unknown_names_in_json_text_is_an_association() {
    assert_eq!(
        infer_from("{\"foo\": 1, \"bar\": 2}"),
        dictionary(vec![
            (string("bar"), VariantDispatch::I64(2)),
            (string("foo"), VariantDispatch::I64(1)),
        ])
    );
}

#[test]
fn tagged_json_text_read_without_its_tags() {
    let text = |value: &VariantDispatch| serde_json::to_string(&to_json(&encode(value))).unwrap();
    let same = vec![
        VariantDispatch::Nil,
        VariantDispatch::Bool(false),
        VariantDispatch::I64(1),
        VariantDispatch::F64(Double::from_bits(2.5f64.to_bits())),
        string("this is a str"),
        VariantDispatch::Vector2(v2(1.0, 0.0)),
        VariantDispatch::Rect2(Rect2 { position: v2(46.5, -2.0), size: v2(3.0, 4.75) }),
        VariantDispatch::Vector3(v3(0.0, 0.0, 1.0)),
        VariantDispatch::Transform2D(Transform2D {
            x: v2(1.0, 2.0),
            y: v2(3.0, 4.0),
            origin: v2(5.0, 6.0),
        }),
        VariantDispatch::Plane(Plane { normal: v3(0.0, 1.0, 0.0), d: s(3.0) }),
        VariantDispatch::Quat(Quat { x: s(4.5), y: s(5.25), z: s(6.0), w: s(7.5) }),
        VariantDispatch::Aabb(Aabb { position: v3(8.0, 9.0, 10.0), size: v3(12.0, 14.0, 16.0) }),
        VariantDispatch::Color(Color { r: s(0.5), g: s(0.0), b: s(1.0), a: s(1.0) }),
        VariantDispatch::NodePath("/root/Node".to_string()),
        VariantDispatch::Rid(Rid::new()),
        VariantDispatch::Object(ObjectRef::new()),
    ];
    for value in same {
        assert_eq!(infer_from(&text(&value)), value);
    }
}
