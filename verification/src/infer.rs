//! The shape-inference decoder: for a value that carries no kind tag, it
//! infers from the arity of a sequence, or from the field names of a map,
//! which fixed-size type the value stands for, and falls back to the
//! generic collection or association where nothing matches. It never fails.

use crate::association::{from_pairs, last_value, lookup};
use crate::geometry::{
    Aabb, Basis, Color, ObjectRef, Plane, Quat, Rect2, Rid, Single, Transform, Transform2D,
    Vector2, Vector3,
};
use crate::infer_laws::lemma_inferred_well_formed;
use crate::kind::VariantType;
use crate::text::text_eq;
use crate::untagged::{Bare, Untagged};
use crate::variant::{well_formed, Dictionary, Value, Variant, VariantArray, VariantDispatch};
use vstd::prelude::*;

verus! {

/// The single-precision reading of a value that is a number, seen through
/// any wrappers; `None` for a value that is no number.
pub open spec fn number(raw: Bare) -> Option<Single>
    decreases raw,
{
    match raw {
        Bare::Int { value, single } => Some(single),
        Bare::UInt { value, single } => Some(single),
        Bare::Real { value, single } => Some(single),
        Bare::Present(inner) => number(*inner),
        Bare::Newtype(inner) => number(*inner),
        _ => None,
    }
}

/// The 2D vector that a value is, if it is one.
pub open spec fn as_vector2(value: Option<Value>) -> Option<Vector2> {
    match value {
        Some(Value::Vector2(v)) => Some(v),
        _ => None,
    }
}

/// The 3D vector that a value is, if it is one.
pub open spec fn as_vector3(value: Option<Value>) -> Option<Vector3> {
    match value {
        Some(Value::Vector3(v)) => Some(v),
        _ => None,
    }
}

/// The basis that a value is, if it is one.
pub open spec fn as_basis(value: Option<Value>) -> Option<Basis> {
    match value {
        Some(Value::Basis(v)) => Some(v),
        _ => None,
    }
}

/// The fixed-size type that a sequence stands for, if its arity and its
/// items match one.
///
/// `numbers` holds for each item its single-precision reading where it is
/// a number; `values` holds what each item was inferred to be. Two numbers
/// are a 2D vector, three a 3D vector, four a color (never a quaternion).
/// Two 2D vectors are a rectangle. A 3D vector and a number are a plane, two
/// 3D vectors a bounding box, three 3D vectors a basis.
pub open spec fn sequence_match(numbers: Seq<Option<Single>>, values: Seq<Value>) -> Option<Value> {
    if values.len() == 2 {
        if numbers[0] is Some && numbers[1] is Some {
            Some(Value::Vector2(Vector2 { x: numbers[0]->0, y: numbers[1]->0 }))
        } else if values[0] is Vector2 && values[1] is Vector2 {
            Some(Value::Rect2(Rect2 { position: values[0]->Vector2_0, size: values[1]->Vector2_0 }))
        } else if values[0] is Vector3 && numbers[1] is Some {
            Some(Value::Plane(Plane { normal: values[0]->Vector3_0, d: numbers[1]->0 }))
        } else if values[0] is Vector3 && values[1] is Vector3 {
            Some(Value::Aabb(Aabb { position: values[0]->Vector3_0, size: values[1]->Vector3_0 }))
        } else {
            None
        }
    } else if values.len() == 3 {
        if numbers[0] is Some && numbers[1] is Some && numbers[2] is Some {
            Some(Value::Vector3(Vector3 { x: numbers[0]->0, y: numbers[1]->0, z: numbers[2]->0 }))
        } else if values[0] is Vector3 && values[1] is Vector3 && values[2] is Vector3 {
            Some(
                Value::Basis(
                    Basis {
                        first: values[0]->Vector3_0,
                        second: values[1]->Vector3_0,
                        third: values[2]->Vector3_0,
                    },
                ),
            )
        } else {
            None
        }
    } else if values.len() == 4 {
        if numbers[0] is Some && numbers[1] is Some && numbers[2] is Some && numbers[3] is Some {
            Some(
                Value::Color(
                    Color { r: numbers[0]->0, g: numbers[1]->0, b: numbers[2]->0, a: numbers[3]->0 },
                ),
            )
        } else {
            None
        }
    } else {
        None
    }
}

/// What a sequence is inferred to be: the fixed-size type that it matches,
/// or else the generic collection of its items, unmodified.
pub open spec fn sequence_shape(numbers: Seq<Option<Single>>, values: Seq<Value>) -> Value {
    match sequence_match(numbers, values) {
        Some(value) => value,
        None => Value::VariantArray(values),
    }
}

/// The value that an association gives to the field of the given name.
pub open spec fn field(entries: Seq<(Value, Value)>, name: Seq<char>) -> Option<Value> {
    lookup(entries, Value::GodotString(name))
}

/// The single-precision reading of the field of the given name, where the
/// last entry under that name is a number.
pub open spec fn field_number(numbered: Seq<(Value, Option<Single>)>, name: Seq<char>) -> Option<
    Single,
> {
    match last_value(numbered, Value::GodotString(name)) {
        Some(Some(single)) => Some(single),
        _ => None,
    }
}

/// What the single entry of a map stands for where its key is the name of a
/// kind: the value itself where it is of that kind; the empty handle of
/// that kind where the kind is an opaque handle and the value is nothing;
/// the path where the kind is a path and the value is a string.
pub open spec fn named_value(key: Value, value: Value) -> Option<Value> {
    match key {
        Value::GodotString(name) => match VariantType::of_name(name) {
            Some(kind) => if value.kind() == kind {
                Some(value)
            } else if kind == VariantType::Rid && value is Nil {
                Some(Value::Rid(Rid::empty()))
            } else if kind == VariantType::Object && value is Nil {
                Some(Value::Object(ObjectRef::empty()))
            } else if kind == VariantType::NodePath && value is GodotString {
                Some(Value::NodePath(value->GodotString_0))
            } else {
                None
            },
            None => None,
        },
        _ => None,
    }
}

/// The type that an association of two entries stands for, by its field
/// names: `x`, `y` a 2D vector; `normal`, `d` a plane; `basis`, `origin` a
/// 3D transform; `position`, `size` a rectangle where both are 2D vectors
/// and a bounding box where both are 3D vectors.
pub open spec fn match_two(
    entries: Seq<(Value, Value)>,
    numbered: Seq<(Value, Option<Single>)>,
) -> Option<Value> {
    if field_number(numbered, "x"@) is Some && field_number(numbered, "y"@) is Some {
        Some(
            Value::Vector2(
                Vector2 { x: field_number(numbered, "x"@)->0, y: field_number(numbered, "y"@)->0 },
            ),
        )
    } else if as_vector3(field(entries, "normal"@)) is Some && field_number(numbered, "d"@)
        is Some {
        Some(
            Value::Plane(
                Plane {
                    normal: as_vector3(field(entries, "normal"@))->0,
                    d: field_number(numbered, "d"@)->0,
                },
            ),
        )
    } else if as_basis(field(entries, "basis"@)) is Some && as_vector3(field(entries, "origin"@))
        is Some {
        Some(
            Value::Transform(
                Transform {
                    basis: as_basis(field(entries, "basis"@))->0,
                    origin: as_vector3(field(entries, "origin"@))->0,
                },
            ),
        )
    } else if as_vector2(field(entries, "position"@)) is Some && as_vector2(
        field(entries, "size"@),
    ) is Some {
        Some(
            Value::Rect2(
                Rect2 {
                    position: as_vector2(field(entries, "position"@))->0,
                    size: as_vector2(field(entries, "size"@))->0,
                },
            ),
        )
    } else if as_vector3(field(entries, "position"@)) is Some && as_vector3(
        field(entries, "size"@),
    ) is Some {
        Some(
            Value::Aabb(
                Aabb {
                    position: as_vector3(field(entries, "position"@))->0,
                    size: as_vector3(field(entries, "size"@))->0,
                },
            ),
        )
    } else {
        None
    }
}

/// The type that an association of three entries stands for: `x`, `y`, `z`
/// a 3D vector; `x`, `y`, `origin` a 2D transform.
pub open spec fn match_three(
    entries: Seq<(Value, Value)>,
    numbered: Seq<(Value, Option<Single>)>,
) -> Option<Value> {
    if field_number(numbered, "x"@) is Some && field_number(numbered, "y"@) is Some
        && field_number(numbered, "z"@) is Some {
        Some(
            Value::Vector3(
                Vector3 {
                    x: field_number(numbered, "x"@)->0,
                    y: field_number(numbered, "y"@)->0,
                    z: field_number(numbered, "z"@)->0,
                },
            ),
        )
    } else if as_vector2(field(entries, "x"@)) is Some && as_vector2(field(entries, "y"@))
        is Some && as_vector2(field(entries, "origin"@)) is Some {
        Some(
            Value::Transform2D(
                Transform2D {
                    x: as_vector2(field(entries, "x"@))->0,
                    y: as_vector2(field(entries, "y"@))->0,
                    origin: as_vector2(field(entries, "origin"@))->0,
                },
            ),
        )
    } else {
        None
    }
}

/// The type that an association of four entries stands for: `x`, `y`, `z`,
/// `w` a quaternion; `r`, `g`, `b`, `a` a color.
pub open spec fn match_four(numbered: Seq<(Value, Option<Single>)>) -> Option<Value> {
    if field_number(numbered, "x"@) is Some && field_number(numbered, "y"@) is Some
        && field_number(numbered, "z"@) is Some && field_number(numbered, "w"@) is Some {
        Some(
            Value::Quat(
                Quat {
                    x: field_number(numbered, "x"@)->0,
                    y: field_number(numbered, "y"@)->0,
                    z: field_number(numbered, "z"@)->0,
                    w: field_number(numbered, "w"@)->0,
                },
            ),
        )
    } else if field_number(numbered, "r"@) is Some && field_number(numbered, "g"@) is Some
        && field_number(numbered, "b"@) is Some && field_number(numbered, "a"@) is Some {
        Some(
            Value::Color(
                Color {
                    r: field_number(numbered, "r"@)->0,
                    g: field_number(numbered, "g"@)->0,
                    b: field_number(numbered, "b"@)->0,
                    a: field_number(numbered, "a"@)->0,
                },
            ),
        )
    } else {
        None
    }
}

/// The fixed-size type that an association stands for, if the number of its
/// entries and its field names match one.
///
/// `entries` is the association; `numbered` holds, for each pair that it
/// was built from, the key and the single-precision reading of the value
/// where that is a number.
pub open spec fn map_match(
    entries: Seq<(Value, Value)>,
    numbered: Seq<(Value, Option<Single>)>,
) -> Option<Value> {
    if entries.len() == 1 {
        named_value(entries[0].0, entries[0].1)
    } else if entries.len() == 2 {
        match_two(entries, numbered)
    } else if entries.len() == 3 {
        match_three(entries, numbered)
    } else if entries.len() == 4 {
        match_four(numbered)
    } else {
        None
    }
}

/// What a map is inferred to be. Its pairs are inserted in order into an
/// association, a later pair overwriting an earlier one with an equal key;
/// the result is the fixed-size type that the association matches, or else
/// the association itself.
pub open spec fn map_shape(
    pairs: Seq<(Value, Value)>,
    numbered: Seq<(Value, Option<Single>)>,
) -> Value {
    match map_match(from_pairs(pairs), numbered) {
        Some(value) => value,
        None => Value::Dictionary(from_pairs(pairs)),
    }
}

/// What each item of a sequence is inferred to be.
pub open spec fn inferred_items(items: Seq<Bare>) -> Seq<Value>
    decreases items, 1nat,
{
    Seq::new(
        items.len(),
        |i: int|
            if 0 <= i < items.len() {
                inferred(items[i])
            } else {
                Value::Nil
            },
    )
}

/// The single-precision reading of each item of a sequence.
pub open spec fn numbers_of(items: Seq<Bare>) -> Seq<Option<Single>> {
    Seq::new(items.len(), |i: int| number(items[i]))
}

/// What the key and the value of each entry of a map are inferred to be.
pub open spec fn inferred_pairs(entries: Seq<(Bare, Bare)>) -> Seq<(Value, Value)>
    decreases entries, 1nat,
{
    Seq::new(
        entries.len(),
        |i: int|
            if 0 <= i < entries.len() {
                (inferred(entries[i].0), inferred(entries[i].1))
            } else {
                (Value::Nil, Value::Nil)
            },
    )
}

/// For each entry of a map, what its key is inferred to be and the
/// single-precision reading of its value.
pub open spec fn numbered_keys(entries: Seq<(Bare, Bare)>) -> Seq<(Value, Option<Single>)>
    decreases entries, 1nat,
{
    Seq::new(
        entries.len(),
        |i: int|
            if 0 <= i < entries.len() {
                (inferred(entries[i].0), number(entries[i].1))
            } else {
                (Value::Nil, None)
            },
    )
}

/// What an untagged value is inferred to be.
///
/// A scalar is the value of its own kind; an unsigned integer is read as a
/// signed one of the same bits. The text `Nil` is the value that holds
/// nothing, and so are the unit and the absent marker. Wrappers are seen
/// through. A sequence and a map are inferred from their items, which are
/// inferred first.
pub open spec fn inferred(raw: Bare) -> Value
    decreases raw, 0nat,
{
    match raw {
        Bare::Unit => Value::Nil,
        Bare::Absent => Value::Nil,
        Bare::Present(inner) => inferred(*inner),
        Bare::Newtype(inner) => inferred(*inner),
        Bare::Bool(v) => Value::Bool(v),
        Bare::Int { value, single } => Value::I64(value),
        Bare::UInt { value, single } => Value::I64(value as i64),
        Bare::Real { value, single } => Value::F64(value),
        Bare::Text(text) => if text == "Nil"@ {
            Value::Nil
        } else {
            Value::GodotString(text)
        },
        Bare::Bytes(bytes) => Value::ByteArray(bytes),
        Bare::Sequence(items) => sequence_shape(numbers_of(items), inferred_items(items)),
        Bare::Entries(entries) => map_shape(inferred_pairs(entries), numbered_keys(entries)),
    }
}

/// The trees of a sequence of dispatch values.
pub open spec fn models(values: Seq<VariantDispatch>) -> Seq<Value> {
    Seq::new(values.len(), |i: int| values[i]@)
}

/// The keys with the single-precision readings, pair by pair.
pub open spec fn numbered(keys: Seq<Variant>, numbers: Seq<Option<Single>>) -> Seq<
    (Value, Option<Single>),
> {
    Seq::new(keys.len(), |i: int| (keys[i]@, numbers[i]))
}

/// The generic collection of the values, each lifted into a dynamic value.
pub fn collection_of(values: &Vec<VariantDispatch>) -> (r: VariantArray)
    ensures
        r@ == models(values@),
{
    let mut array = VariantArray::new();
    let mut i: usize = 0;
    while i < values.len()
        invariant
            0 <= i <= values.len(),
            array@ == models(values@).take(i as int),
        decreases values.len() - i,
    {
        array.push(Variant::from_dispatch(&values[i]));
        assert(models(values@).take(i + 1) =~= models(values@).take(i as int).push(
            values@[i as int]@,
        ));
        i += 1;
    }
    assert(models(values@).take(values.len() as int) =~= models(values@));
    array
}

/// Infers what a sequence stands for, from what its items were inferred to
/// be and their single-precision readings.
pub fn shape_sequence(numbers: &Vec<Option<Single>>, values: &Vec<VariantDispatch>) -> (r:
    VariantDispatch)
    requires
        numbers.len() == values.len(),
    ensures
        r@ == sequence_shape(numbers@, models(values@)),
{
    let n = values.len();
    if n == 2 {
        match (numbers[0], numbers[1], &values[0], &values[1]) {
            (Some(x), Some(y), _, _) => {
                return VariantDispatch::Vector2(Vector2 { x, y });
            },
            (_, _, VariantDispatch::Vector2(position), VariantDispatch::Vector2(size)) => {
                return VariantDispatch::Rect2(Rect2 { position: *position, size: *size });
            },
            (_, Some(d), VariantDispatch::Vector3(normal), _) => {
                return VariantDispatch::Plane(Plane { normal: *normal, d });
            },
            (_, _, VariantDispatch::Vector3(position), VariantDispatch::Vector3(size)) => {
                return VariantDispatch::Aabb(Aabb { position: *position, size: *size });
            },
            _ => {},
        }
    } else if n == 3 {
        match (numbers[0], numbers[1], numbers[2], &values[0], &values[1], &values[2]) {
            (Some(x), Some(y), Some(z), _, _, _) => {
                return VariantDispatch::Vector3(Vector3 { x, y, z });
            },
            (
                _,
                _,
                _,
                VariantDispatch::Vector3(first),
                VariantDispatch::Vector3(second),
                VariantDispatch::Vector3(third),
            ) => {
                return VariantDispatch::Basis(
                    Basis { first: *first, second: *second, third: *third },
                );
            },
            _ => {},
        }
    } else if n == 4 {
        match (numbers[0], numbers[1], numbers[2], numbers[3]) {
            (Some(r), Some(g), Some(b), Some(a)) => {
                return VariantDispatch::Color(Color { r, g, b, a });
            },
            _ => {},
        }
    }
    VariantDispatch::VariantArray(collection_of(values))
}

/// The single-precision reading of the field of the given name: that of the
/// last key that is the name, where it is a number.
pub fn number_field(keys: &Vec<Variant>, numbers: &Vec<Option<Single>>, name: &str) -> (r: Option<
    Single,
>)
    requires
        keys.len() == numbers.len(),
    ensures
        r == field_number(numbered(keys@, numbers@), name@),
{
    let key = Variant::from_str(name);
    let ghost all = numbered(keys@, numbers@);
    let mut found: Option<Option<Single>> = None;
    let mut i: usize = 0;
    while i < keys.len()
        invariant
            0 <= i <= keys.len(),
            keys.len() == numbers.len(),
            key@ == Value::GodotString(name@),
            all == numbered(keys@, numbers@),
            found == last_value(all.take(i as int), key@),
        decreases keys.len() - i,
    {
        proof {
            assert(all.take(i + 1).drop_last() =~= all.take(i as int));
            assert(all.take(i + 1).last() == (keys@[i as int]@, numbers@[i as int]));
        }
        if keys[i].equals(&key) {
            found = Some(numbers[i]);
        }
        i += 1;
    }
    assert(all.take(keys.len() as int) =~= all);
    match found {
        Some(Some(single)) => Some(single),
        _ => None,
    }
}

/// The 2D vector in the field of the given name, if it holds one.
pub fn vector2_field(dictionary: &Dictionary, name: &str) -> (r: Option<Vector2>)
    ensures
        r == as_vector2(field(dictionary@, name@)),
{
    match dictionary.get(&Variant::from_str(name)) {
        Some(value) => value.try_to_vector2(),
        None => None,
    }
}

/// The 3D vector in the field of the given name, if it holds one.
pub fn vector3_field(dictionary: &Dictionary, name: &str) -> (r: Option<Vector3>)
    ensures
        r == as_vector3(field(dictionary@, name@)),
{
    match dictionary.get(&Variant::from_str(name)) {
        Some(value) => value.try_to_vector3(),
        None => None,
    }
}

/// The basis in the field of the given name, if it holds one.
pub fn basis_field(dictionary: &Dictionary, name: &str) -> (r: Option<Basis>)
    ensures
        r == as_basis(field(dictionary@, name@)),
{
    match dictionary.get(&Variant::from_str(name)) {
        Some(value) => value.try_to_basis(),
        None => None,
    }
}

/// What the single entry of a map stands for where its key names a kind.
pub fn string_tagged(key: &Variant, value: &Variant) -> (r: Option<VariantDispatch>)
    ensures
        match r {
            Some(found) => named_value(key@, value@) == Some(found@),
            None => named_value(key@, value@) is None,
        },
{
    let name = match key.try_to_string() {
        Some(name) => name,
        None => {
            return None;
        },
    };
    let kind = match VariantType::from_name(name.as_str()) {
        Some(kind) => kind,
        None => {
            return None;
        },
    };
    let value_type = value.get_type();
    if value_type == kind {
        Some(value.dispatch())
    } else if kind == VariantType::Rid && value_type == VariantType::Nil {
        Some(VariantDispatch::Rid(Rid::new()))
    } else if kind == VariantType::Object && value_type == VariantType::Nil {
        Some(VariantDispatch::Object(ObjectRef::new()))
    } else if kind == VariantType::NodePath && value_type == VariantType::GodotString {
        match value.try_to_string() {
            Some(path) => Some(VariantDispatch::NodePath(path)),
            None => None,
        }
    } else {
        None
    }
}

/// The type that an association of two entries stands for, by its field
/// names.
pub fn vec2_plane_xform_rect2_or_aabb(
    dictionary: &Dictionary,
    keys: &Vec<Variant>,
    numbers: &Vec<Option<Single>>,
) -> (r: Option<VariantDispatch>)
    requires
        keys.len() == numbers.len(),
    ensures
        match r {
            Some(found) => match_two(dictionary@, numbered(keys@, numbers@)) == Some(found@),
            None => match_two(dictionary@, numbered(keys@, numbers@)) is None,
        },
{
    match (number_field(keys, numbers, "x"), number_field(keys, numbers, "y")) {
        (Some(x), Some(y)) => {
            return Some(VariantDispatch::Vector2(Vector2 { x, y }));
        },
        _ => {},
    }
    match (vector3_field(dictionary, "normal"), number_field(keys, numbers, "d")) {
        (Some(normal), Some(d)) => {
            return Some(VariantDispatch::Plane(Plane { normal, d }));
        },
        _ => {},
    }
    match (basis_field(dictionary, "basis"), vector3_field(dictionary, "origin")) {
        (Some(basis), Some(origin)) => {
            return Some(VariantDispatch::Transform(Transform { basis, origin }));
        },
        _ => {},
    }
    match (vector2_field(dictionary, "position"), vector2_field(dictionary, "size")) {
        (Some(position), Some(size)) => {
            return Some(VariantDispatch::Rect2(Rect2 { position, size }));
        },
        _ => {},
    }
    match (vector3_field(dictionary, "position"), vector3_field(dictionary, "size")) {
        (Some(position), Some(size)) => {
            return Some(VariantDispatch::Aabb(Aabb { position, size }));
        },
        _ => {},
    }
    None
}

/// The type that an association of three entries stands for, by its field
/// names.
pub fn vec3_or_xform2d(
    dictionary: &Dictionary,
    keys: &Vec<Variant>,
    numbers: &Vec<Option<Single>>,
) -> (r: Option<VariantDispatch>)
    requires
        keys.len() == numbers.len(),
    ensures
        match r {
            Some(found) => match_three(dictionary@, numbered(keys@, numbers@)) == Some(found@),
            None => match_three(dictionary@, numbered(keys@, numbers@)) is None,
        },
{
    match (
        number_field(keys, numbers, "x"),
        number_field(keys, numbers, "y"),
        number_field(keys, numbers, "z"),
    ) {
        (Some(x), Some(y), Some(z)) => {
            return Some(VariantDispatch::Vector3(Vector3 { x, y, z }));
        },
        _ => {},
    }
    match (
        vector2_field(dictionary, "x"),
        vector2_field(dictionary, "y"),
        vector2_field(dictionary, "origin"),
    ) {
        (Some(x), Some(y), Some(origin)) => {
            return Some(VariantDispatch::Transform2D(Transform2D { x, y, origin }));
        },
        _ => {},
    }
    None
}

/// The type that an association of four entries stands for, by its field
/// names.
pub fn quat_or_color(keys: &Vec<Variant>, numbers: &Vec<Option<Single>>) -> (r: Option<
    VariantDispatch,
>)
    requires
        keys.len() == numbers.len(),
    ensures
        match r {
            Some(found) => match_four(numbered(keys@, numbers@)) == Some(found@),
            None => match_four(numbered(keys@, numbers@)) is None,
        },
{
    match (
        number_field(keys, numbers, "x"),
        number_field(keys, numbers, "y"),
        number_field(keys, numbers, "z"),
        number_field(keys, numbers, "w"),
    ) {
        (Some(x), Some(y), Some(z), Some(w)) => {
            return Some(VariantDispatch::Quat(Quat { x, y, z, w }));
        },
        _ => {},
    }
    match (
        number_field(keys, numbers, "r"),
        number_field(keys, numbers, "g"),
        number_field(keys, numbers, "b"),
        number_field(keys, numbers, "a"),
    ) {
        (Some(r), Some(g), Some(b), Some(a)) => {
            return Some(VariantDispatch::Color(Color { r, g, b, a }));
        },
        _ => {},
    }
    None
}

/// Infers what an association stands for. `keys` and `numbers` hold, for
/// each pair that the association was built from, the key and the
/// single-precision reading of the value.
pub fn shape_map(dictionary: Dictionary, keys: &Vec<Variant>, numbers: &Vec<Option<Single>>) -> (r:
    VariantDispatch)
    requires
        keys.len() == numbers.len(),
    ensures
        r@ == match map_match(dictionary@, numbered(keys@, numbers@)) {
            Some(value) => value,
            None => Value::Dictionary(dictionary@),
        },
{
    let n = dictionary.len();
    let found = if n == 1 {
        string_tagged(dictionary.key_at(0), dictionary.value_at(0))
    } else if n == 2 {
        vec2_plane_xform_rect2_or_aabb(&dictionary, keys, numbers)
    } else if n == 3 {
        vec3_or_xform2d(&dictionary, keys, numbers)
    } else if n == 4 {
        quat_or_color(keys, numbers)
    } else {
        None
    };
    match found {
        Some(value) => value,
        None => VariantDispatch::Dictionary(dictionary),
    }
}

/// Infers what an untagged value stands for, and gives beside it the
/// single-precision reading of the value where it is a number.
pub fn infer_item(raw: &Untagged) -> (r: (VariantDispatch, Option<Single>))
    ensures
        r.0@ == inferred(raw@),
        r.1 == number(raw@),
    decreases raw,
{
    match raw {
        Untagged::Unit => (VariantDispatch::Nil, None),
        Untagged::Absent => (VariantDispatch::Nil, None),
        Untagged::Present(inner) => infer_item(inner),
        Untagged::Newtype(inner) => infer_item(inner),
        Untagged::Bool(v) => (VariantDispatch::Bool(*v), None),
        Untagged::Int { value, single } => (VariantDispatch::I64(*value), Some(*single)),
        Untagged::UInt { value, single } => (
            VariantDispatch::I64(#[verifier::truncate] (*value as i64)),
            Some(*single),
        ),
        Untagged::Real { value, single } => (VariantDispatch::F64(*value), Some(*single)),
        Untagged::Text(text) => {
            if text_eq(text.as_str(), "Nil") {
                (VariantDispatch::Nil, None)
            } else {
                (VariantDispatch::GodotString(text.clone()), None)
            }
        },
        Untagged::Bytes(bytes) => (VariantDispatch::ByteArray(crate::seqs::copy_vec(bytes)), None),
        Untagged::Sequence(items) => {
            let mut values: Vec<VariantDispatch> = Vec::new();
            let mut numbers: Vec<Option<Single>> = Vec::new();
            let mut i: usize = 0;
            while i < items.len()
                invariant
                    0 <= i <= items.len(),
                    raw == Untagged::Sequence(*items),
                    values.len() == i,
                    numbers.len() == i,
                    forall|j: int| 0 <= j < i ==> (#[trigger] values@[j])@ == inferred(items@[j]@),
                    forall|j: int| 0 <= j < i ==> (#[trigger] numbers@[j]) == number(items@[j]@),
                decreases items.len() - i,
            {
                assert(decreases_to!(*raw => raw->Sequence_0));
                let (value, single) = infer_item(&items[i]);
                values.push(value);
                numbers.push(single);
                i += 1;
            }
            proof {
                assert(numbers@ =~= numbers_of(raw@->Sequence_0));
                assert(models(values@) =~= inferred_items(raw@->Sequence_0));
            }
            (shape_sequence(&numbers, &values), None)
        },
        Untagged::Entries(entries) => {
            let mut dictionary = Dictionary::new();
            let mut keys: Vec<Variant> = Vec::new();
            let mut numbers: Vec<Option<Single>> = Vec::new();
            let ghost pairs = inferred_pairs(raw@->Entries_0);
            let mut i: usize = 0;
            while i < entries.len()
                invariant
                    0 <= i <= entries.len(),
                    raw == Untagged::Entries(*entries),
                    pairs == inferred_pairs(raw@->Entries_0),
                    keys.len() == i,
                    numbers.len() == i,
                    dictionary@ == from_pairs(pairs.take(i as int)),
                    forall|j: int|
                        0 <= j < i ==> (#[trigger] keys@[j])@ == inferred(raw@->Entries_0[j].0),
                    forall|j: int|
                        0 <= j < i ==> (#[trigger] numbers@[j]) == number(
                            raw@->Entries_0[j].1,
                        ),
                decreases entries.len() - i,
            {
                assert(decreases_to!(*raw => raw->Entries_0));
                let (key, _) = infer_item(&entries[i].0);
                let (value, single) = infer_item(&entries[i].1);
                let key = Variant::from_dispatch(&key);
                proof {
                    assert(pairs.take(i + 1).drop_last() =~= pairs.take(i as int));
                    assert(pairs.take(i + 1).last() == (key@, value@));
                }
                keys.push(key.duplicate());
                numbers.push(single);
                dictionary.insert(key, Variant::from_dispatch(&value));
                i += 1;
            }
            proof {
                assert(pairs.take(entries.len() as int) =~= pairs);
                assert(numbered(keys@, numbers@) =~= numbered_keys(raw@->Entries_0));
            }
            (shape_map(dictionary, &keys, &numbers), None)
        },
    }
}

/// Infers what an untagged value stands for. It never fails: a value that
/// matches no fixed-size type is the generic collection or association.
pub fn infer(raw: &Untagged) -> (r: VariantDispatch)
    ensures
        r@ == inferred(raw@),
        well_formed(r@),
{
    proof {
        lemma_inferred_well_formed(raw@);
    }
    infer_item(raw).0
}

} // verus!
