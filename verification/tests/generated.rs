use variant_bridge::decode::decode;
use variant_bridge::encode::encode;
use variant_bridge::geometry::{
    Aabb, Basis, Color, Double, ObjectRef, Plane, Quat, Rect2, Rid, Single, Transform,
    Transform2D, Vector2, Vector3,
};
use variant_bridge::structured::{Discriminant, Structured};
use variant_bridge::variant::{Dictionary, Variant, VariantArray, VariantDispatch};

/// A small generator of numbers: the same sequence at every run.
struct Source(u64);

impl Source {
    fn next(&mut self) -> u64 {
        self.0 = self.0.wrapping_mul(6364136223846793005).wrapping_add(1442695040888963407);
        self.0 >> 16
    }

    fn below(&mut self, bound: u64) -> u64 {
        self.next() % bound
    }

    fn single(&mut self) -> Single {
        Single::from_bits(self.next() as u32)
    }

    fn vector2(&mut self) -> Vector2 {
        Vector2 { x: self.single(), y: self.single() }
    }

    fn vector3(&mut self) -> Vector3 {
        Vector3 { x: self.single(), y: self.single(), z: self.single() }
    }

    fn basis(&mut self) -> Basis {
        Basis { first: self.vector3(), second: self.vector3(), third: self.vector3() }
    }

    fn color(&mut self) -> Color {
        Color { r: self.single(), g: self.single(), b: self.single(), a: self.single() }
    }

    fn text(&mut self) -> String {
        let len = self.below(6);
        (0..len).map(|_| char::from_u32(0x61 + self.below(26) as u32).unwrap()).collect()
    }

    fn many<T>(&mut self, item: fn(&mut Source) -> T) -> Vec<T> {
        let len = self.below(5);
        (0..len).map(|_| item(self)).collect()
    }

    /// A value of any kind; `handles` says whether it may hold handles with
    /// an identity.
    fn value(&mut self, depth: u32, handles: bool) -> VariantDispatch {
        let kinds = if depth == 0 { 25 } else { 27 };
        match self.below(kinds) {
            0 => VariantDispatch::Nil,
            1 => VariantDispatch::Bool(self.below(2) == 1),
            2 => VariantDispatch::I64(self.next() as i64),
            3 => VariantDispatch::F64(Double::from_bits(self.next())),
            4 => VariantDispatch::GodotString(self.text()),
            5 => VariantDispatch::Vector2(self.vector2()),
            6 => VariantDispatch::Rect2(Rect2 { position: self.vector2(), size: self.vector2() }),
            7 => VariantDispatch::Vector3(self.vector3()),
            8 => VariantDispatch::Transform2D(Transform2D {
                x: self.vector2(),
                y: self.vector2(),
                origin: self.vector2(),
            }),
            9 => VariantDispatch::Plane(Plane { normal: self.vector3(), d: self.single() }),
            10 => VariantDispatch::Quat(Quat {
                x: self.single(),
                y: self.single(),
                z: self.single(),
                w: self.single(),
            }),
            11 => VariantDispatch::Aabb(Aabb { position: self.vector3(), size: self.vector3() }),
            12 => VariantDispatch::Basis(self.basis()),
            13 => VariantDispatch::Transform(Transform {
                basis: self.basis(),
                origin: self.vector3(),
            }),
            14 => VariantDispatch::Color(self.color()),
            15 => VariantDispatch::NodePath(self.text()),
            16 => VariantDispatch::Rid(Rid { id: if handles { self.below(3) } else { 0 } }),
            17 => VariantDispatch::Object(ObjectRef {
                instance: if handles { self.below(3) } else { 0 },
            }),
            18 => VariantDispatch::ByteArray(self.many(|s| s.next() as u8)),
            19 => VariantDispatch::Int32Array(self.many(|s| s.next() as i32)),
            20 => VariantDispatch::Float32Array(self.many(Source::single)),
            21 => VariantDispatch::StringArray(self.many(Source::text)),
            22 => VariantDispatch::Vector2Array(self.many(Source::vector2)),
            23 => VariantDispatch::Vector3Array(self.many(Source::vector3)),
            24 => VariantDispatch::ColorArray(self.many(Source::color)),
            25 => {
                let mut array = VariantArray::new();
                for _ in 0..self.below(4) {
                    array.push(Variant::from_dispatch(&self.value(depth - 1, handles)));
                }
                VariantDispatch::VariantArray(array)
            }
            _ => {
                let mut dictionary = Dictionary::new();
                for _ in 0..self.below(4) {
                    let key = Variant::from_dispatch(&self.value(depth - 1, handles));
                    let value = Variant::from_dispatch(&self.value(depth - 1, handles));
                    dictionary.insert(key, value);
                }
                VariantDispatch::Dictionary(dictionary)
            }
        }
    }
}

/// The value with every handle made empty, and every association rebuilt
/// by inserting its entries in order.
fn restored(value: &VariantDispatch) -> VariantDispatch {
    match value {
        VariantDispatch::Rid(_) => VariantDispatch::Rid(Rid::new()),
        VariantDispatch::Object(_) => VariantDispatch::Object(ObjectRef::new()),
        VariantDispatch::VariantArray(array) => {
            let mut result = VariantArray::new();
            for i in 0..array.len() {
                result.push(Variant::from_dispatch(&restored(&array.get(i).dispatch())));
            }
            VariantDispatch::VariantArray(result)
        }
        VariantDispatch::Dictionary(dictionary) => {
            let mut result = Dictionary::new();
            for i in 0..dictionary.len() {
                let key = restored(&dictionary.key_at(i).dispatch());
                let value = restored(&dictionary.value_at(i).dispatch());
                result.insert(Variant::from_dispatch(&key), Variant::from_dispatch(&value));
            }
            VariantDispatch::Dictionary(result)
        }
        other => other.duplicate(),
    }
}

/// The structured value with each tag in another form: the id, the name
/// or the bytes of the name, in turn.
fn retagged(node: &Structured, turn: &mut u64) -> Structured {
    let all = |items: &Vec<Structured>, turn: &mut u64| -> Vec<Structured> {
        items.iter().map(|item| retagged(item, turn)).collect()
    };
    match node {
        Structured::Variant { tag, payload } => {
            let kind = tag.resolve().unwrap();
            *turn += 1;
            let tag = match *turn % 4 {
                0 => Discriminant::Kind(kind),
                1 => Discriminant::Id(kind.id() as u64),
                2 => Discriminant::Name(kind.name().to_string()),
                _ => Discriminant::Bytes(kind.name().as_bytes().to_vec()),
            };
            Structured::Variant { tag, payload: Box::new(retagged(payload, turn)) }
        }
        Structured::Sequence(items) => Structured::Sequence(all(items, turn)),
        Structured::Tuple(items) => Structured::Tuple(all(items, turn)),
        Structured::Record { name, fields } => Structured::Record {
            name: name.clone(),
            fields: fields
                .iter()
                .map(|(field, value)| (field.clone(), retagged(value, turn)))
                .collect(),
        },
        Structured::Newtype { name, value } => {
            Structured::Newtype { name: name.clone(), value: Box::new(retagged(value, turn)) }
        }
        Structured::Unit => Structured::Unit,
        Structured::Absent => Structured::Absent,
        Structured::Bool(v) => Structured::Bool(*v),
        Structured::U8(v) => Structured::U8(*v),
        Structured::I32(v) => Structured::I32(*v),
        Structured::I64(v) => Structured::I64(*v),
        Structured::Single(v) => Structured::Single(*v),
        Structured::Double(v) => Structured::Double(*v),
        Structured::Text(v) => Structured::Text(v.clone()),
    }
}

#[test]
fn generated_values_without_handles_round_trip() {
    let mut source = Source(1);
    for _ in 0..400 {
        let value = source.value(3, false);
        assert_eq!(decode(&encode(&value)).unwrap(), value);
    }
}

#[test]
fn generated_values_with_handles_come_back_restored() {
    let mut source = Source(2);
    let mut changed = 0;
    for _ in 0..400 {
        let value = source.value(3, true);
        let decoded = decode(&encode(&value)).unwrap();
        assert_eq!(decoded, restored(&value));
        assert_eq!(decoded.kind(), value.kind());
        assert_eq!(decode(&encode(&decoded)).unwrap(), decoded);
        if decoded != value {
            changed += 1;
        }
    }
    assert!(changed > 0);
}

#[test]
fn generated_values_round_trip_whatever_form_their_tags_have() {
    let mut source = Source(3);
    let mut turn = 0;
    for _ in 0..400 {
        let value = source.value(3, true);
        let presented = retagged(&encode(&value), &mut turn);
        assert_eq!(decode(&presented).unwrap(), restored(&value));
    }
    assert!(turn > 400);
}

#[test]
fn generated_values_are_equal_to_their_copies() {
    let mut source = Source(4);
    for _ in 0..200 {
        let value = source.value(3, true);
        let copy = value.duplicate();
        assert!(value.equals(&copy));
        assert_eq!(value, copy);
        let lifted = Variant::from_dispatch(&value);
        assert!(lifted.equals(&Variant::from_dispatch(&copy)));
        assert_eq!(lifted.dispatch(), value);
    }
}
