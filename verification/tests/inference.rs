use variant_bridge::geometry::{
    Aabb, Basis, Color, Double, ObjectRef, Plane, Quat, Rect2, Rid, Single, Transform,
    Transform2D, Vector2, Vector3,
};
use variant_bridge::infer::{infer, infer_item};
use variant_bridge::untagged::Untagged;
use variant_bridge::variant::{Dictionary, Variant, VariantArray, VariantDispatch};

fn s(v: f32) -> Single {
    Single::from_bits(v.to_bits())
}

fn v2(x: f32, y: f32) -> Vector2 {
    Vector2 { x: s(x), y: s(y) }
}

fn v3(x: f32, y: f32, z: f32) -> Vector3 {
    Vector3 { x: s(x), y: s(y), z: s(z) }
}

/// A double-precision number as a format presents it.
fn number(v: f64) -> Untagged {
    Untagged::Real { value: Double::from_bits(v.to_bits()), single: s(v as f32) }
}

/// An integer as a format presents it.
fn integer(v: i64) -> Untagged {
    Untagged::Int { value: v, single: s(v as f32) }
}

fn text(v: &str) -> Untagged {
    Untagged::Text(v.to_string())
}

fn seq(items: Vec<Untagged>) -> Untagged {
    Untagged::Sequence(items)
}

fn map(entries: Vec<(&str, Untagged)>) -> Untagged {
    Untagged::Entries(entries.into_iter().map(|(k, v)| (text(k), v)).collect())
}

fn string(v: &str) -> VariantDispatch {
    VariantDispatch::GodotString(v.to_string())
}

fn lift(v: &VariantDispatch) -> Variant {
    Variant::from_dispatch(v)
}

fn dictionary(entries: Vec<(VariantDispatch, VariantDispatch)>) -> VariantDispatch {
    let mut d = Dictionary::new();
    for (k, v) in entries {
        d.insert(lift(&k), lift(&v));
    }
    VariantDispatch::Dictionary(d)
}

fn array(items: Vec<VariantDispatch>) -> VariantDispatch {
    let mut a = VariantArray::new();
    for item in items {
        a.push(lift(&item));
    }
    VariantDispatch::VariantArray(a)
}

fn xy(x: f64, y: f64) -> Untagged {
    map(vec![("x", number(x)), ("y", number(y))])
}

fn xyz(x: f64, y: f64, z: f64) -> Untagged {
    map(vec![("x", number(x)), ("y", number(y)), ("z", number(z))])
}

#[test]
fn a_map_of_x_and_y_is_a_2d_vector() {
    assert_eq!(infer(&xy(1.0, 2.0)), VariantDispatch::Vector2(v2(1.0, 2.0)));
}

#[test]
fn a_map_of_position_and_size_of_2d_vectors_is_a_rectangle() {
    let raw = map(vec![
        ("position", map(vec![("x", integer(1)), ("y", integer(2))])),
        ("size", map(vec![("x", integer(3)), ("y", integer(4))])),
    ]);
    assert_eq!(
        infer(&raw),
        VariantDispatch::Rect2(Rect2 { position: v2(1.0, 2.0), size: v2(3.0, 4.0) })
    );
}

#[test]
fn a_map_of_position_and_size_of_3d_vectors_is_a_bounding_box() {
    let raw = map(vec![("position", xyz(1.0, 2.0, 3.0)), ("size", xyz(4.0, 5.0, 6.0))]);
    assert_eq!(
        infer(&raw),
        VariantDispatch::Aabb(Aabb { position: v3(1.0, 2.0, 3.0), size: v3(4.0, 5.0, 6.0) })
    );
}

#[test]
fn three_bare_numbers_are_a_3d_vector() {
    let raw = seq(vec![number(1.0), number(2.0), number(3.0)]);
    let inferred = infer(&raw);
    assert_eq!(inferred, VariantDispatch::Vector3(v3(1.0, 2.0, 3.0)));
    assert!(!matches!(inferred, VariantDispatch::Basis(_)));
    assert!(!matches!(inferred, VariantDispatch::VariantArray(_)));
}

#[test]
fn a_map_of_unknown_field_names_is_the_generic_association() {
    let raw = map(vec![("foo", integer(1)), ("bar", integer(2))]);
    assert_eq!(
        infer(&raw),
        dictionary(vec![
            (string("foo"), VariantDispatch::I64(1)),
            (string("bar"), VariantDispatch::I64(2)),
        ])
    );
}

#[test]
fn inference_is_the_same_whenever_it_is_done() {
    let raw = map(vec![("position", xy(1.0, 2.0)), ("size", xy(3.0, 4.0))]);
    assert_eq!(infer(&raw), infer(&raw));
}

#[test]
fn scalars_are_values_of_their_own_kind() {
    assert_eq!(infer(&Untagged::Bool(true)), VariantDispatch::Bool(true));
    assert_eq!(infer(&integer(-5)), VariantDispatch::I64(-5));
    assert_eq!(
        infer(&number(2.5)),
        VariantDispatch::F64(Double::from_bits(2.5f64.to_bits()))
    );
    assert_eq!(infer(&text("hello")), string("hello"));
    assert_eq!(infer(&Untagged::Bytes(vec![1, 2])), VariantDispatch::ByteArray(vec![1, 2]));
}

#[test]
fn an_unsigned_integer_is_read_as_a_signed_one_of_the_same_bits() {
    assert_eq!(
        infer(&Untagged::UInt { value: 7, single: s(7.0) }),
        VariantDispatch::I64(7)
    );
    assert_eq!(
        infer(&Untagged::UInt { value: u64::MAX, single: s(-1.0) }),
        VariantDispatch::I64(-1)
    );
    assert_eq!(
        infer(&Untagged::UInt { value: 1 << 63, single: s(i64::MIN as f32) }),
        VariantDispatch::I64(i64::MIN)
    );
}

#[test]
fn markers_and_the_text_nil_are_nothing() {
    assert_eq!(infer(&Untagged::Unit), VariantDispatch::Nil);
    assert_eq!(infer(&Untagged::Absent), VariantDispatch::Nil);
    assert_eq!(infer(&text("Nil")), VariantDispatch::Nil);
    assert_eq!(infer(&text("nil")), string("nil"));
}

#[test]
fn wrappers_are_seen_through() {
    assert_eq!(infer(&Untagged::Present(Box::new(integer(3)))), VariantDispatch::I64(3));
    assert_eq!(infer(&Untagged::Newtype(Box::new(text("a")))), string("a"));
    let wrapped = seq(vec![
        Untagged::Present(Box::new(number(1.0))),
        Untagged::Newtype(Box::new(integer(2))),
    ]);
    assert_eq!(infer(&wrapped), VariantDispatch::Vector2(v2(1.0, 2.0)));
}

#[test]
fn the_reading_beside_a_value_is_that_of_a_number_only() {
    assert_eq!(infer_item(&number(1.5)).1, Some(s(1.5)));
    assert_eq!(infer_item(&integer(2)).1, Some(s(2.0)));
    assert_eq!(infer_item(&Untagged::Present(Box::new(integer(2)))).1, Some(s(2.0)));
    assert_eq!(infer_item(&text("2")).1, None);
    assert_eq!(infer_item(&seq(vec![integer(1)])).1, None);
    assert_eq!(infer_item(&Untagged::Bool(true)).1, None);
}

#[test]
fn a_component_takes_the_single_precision_reading_that_came_with_the_number() {
    let odd = Untagged::Real { value: Double::from_bits(0.1f64.to_bits()), single: s(9.0) };
    assert_eq!(infer(&seq(vec![odd, number(2.0)])), VariantDispatch::Vector2(v2(9.0, 2.0)));
    let rounded = number(0.1);
    assert_eq!(
        infer(&seq(vec![rounded, integer(16_777_217)])),
        VariantDispatch::Vector2(v2(0.1, 16_777_216.0))
    );
}

#[test]
fn two_numbers_are_a_2d_vector() {
    assert_eq!(infer(&seq(vec![number(1.0), number(2.0)])), VariantDispatch::Vector2(v2(1.0, 2.0)));
    assert_eq!(infer(&seq(vec![integer(1), number(2.5)])), VariantDispatch::Vector2(v2(1.0, 2.5)));
}

#[test]
fn four_numbers_are_a_color_and_not_a_quaternion() {
    let inferred = infer(&seq(vec![number(0.1), number(0.2), number(0.3), integer(1)]));
    assert_eq!(
        inferred,
        VariantDispatch::Color(Color { r: s(0.1), g: s(0.2), b: s(0.3), a: s(1.0) })
    );
    assert!(!matches!(inferred, VariantDispatch::Quat(_)));
}

#[test]
fn two_2d_vectors_are_a_rectangle() {
    let raw = seq(vec![seq(vec![number(1.0), number(2.0)]), xy(3.0, 4.0)]);
    assert_eq!(
        infer(&raw),
        VariantDispatch::Rect2(Rect2 { position: v2(1.0, 2.0), size: v2(3.0, 4.0) })
    );
}

#[test]
fn a_3d_vector_and_a_number_are_a_plane() {
    let raw = seq(vec![seq(vec![number(0.0), number(1.0), number(0.0)]), number(3.0)]);
    assert_eq!(
        infer(&raw),
        VariantDispatch::Plane(Plane { normal: v3(0.0, 1.0, 0.0), d: s(3.0) })
    );
}

#[test]
fn two_3d_vectors_are_a_bounding_box() {
    let raw = seq(vec![xyz(1.0, 2.0, 3.0), seq(vec![integer(4), integer(5), integer(6)])]);
    assert_eq!(
        infer(&raw),
        VariantDispatch::Aabb(Aabb { position: v3(1.0, 2.0, 3.0), size: v3(4.0, 5.0, 6.0) })
    );
}

#[test]
fn three_3d_vectors_are_a_basis() {
    let raw = seq(vec![xyz(1.0, 0.0, 0.0), xyz(0.0, 1.0, 0.0), xyz(0.0, 0.0, 1.0)]);
    assert_eq!(
        infer(&raw),
        VariantDispatch::Basis(Basis {
            first: v3(1.0, 0.0, 0.0),
            second: v3(0.0, 1.0, 0.0),
            third: v3(0.0, 0.0, 1.0),
        })
    );
}

#[test]
fn sequences_of_any_other_arity_or_content_stay_generic() {
    assert_eq!(infer(&seq(vec![])), array(vec![]));
    assert_eq!(infer(&seq(vec![number(1.0)])), array(vec![infer(&number(1.0))]));
    assert_eq!(
        infer(&seq(vec![integer(1), integer(2), integer(3), integer(4), integer(5)])),
        array(vec![
            VariantDispatch::I64(1),
            VariantDispatch::I64(2),
            VariantDispatch::I64(3),
            VariantDispatch::I64(4),
            VariantDispatch::I64(5),
        ])
    );
    assert_eq!(
        infer(&seq(vec![integer(1), text("two")])),
        array(vec![VariantDispatch::I64(1), string("two")])
    );
    assert_eq!(
        infer(&seq(vec![xy(1.0, 2.0), integer(3)])),
        array(vec![VariantDispatch::Vector2(v2(1.0, 2.0)), VariantDispatch::I64(3)])
    );
    assert_eq!(
        infer(&seq(vec![xy(1.0, 2.0), xy(3.0, 4.0), xy(5.0, 6.0)])),
        array(vec![
            VariantDispatch::Vector2(v2(1.0, 2.0)),
            VariantDispatch::Vector2(v2(3.0, 4.0)),
            VariantDispatch::Vector2(v2(5.0, 6.0)),
        ])
    );
    assert_eq!(
        infer(&seq(vec![xyz(1.0, 2.0, 3.0), text("d")])),
        array(vec![VariantDispatch::Vector3(v3(1.0, 2.0, 3.0)), string("d")])
    );
}

#[test]
fn a_map_of_normal_and_d_is_a_plane() {
    let raw = map(vec![("normal", xyz(0.0, 1.0, 0.0)), ("d", number(3.0))]);
    assert_eq!(
        infer(&raw),
        VariantDispatch::Plane(Plane { normal: v3(0.0, 1.0, 0.0), d: s(3.0) })
    );
}

fn identity() -> Untagged {
    seq(vec![xyz(1.0, 0.0, 0.0), xyz(0.0, 1.0, 0.0), xyz(0.0, 0.0, 1.0)])
}

#[test]
fn a_map_of_basis_and_origin_is_a_3d_transform() {
    let raw = map(vec![("basis", identity()), ("origin", xyz(7.0, 8.0, 9.0))]);
    assert_eq!(
        infer(&raw),
        VariantDispatch::Transform(Transform {
            basis: Basis {
                first: v3(1.0, 0.0, 0.0),
                second: v3(0.0, 1.0, 0.0),
                third: v3(0.0, 0.0, 1.0),
            },
            origin: v3(7.0, 8.0, 9.0),
        })
    );
}

#[test]
fn a_map_of_x_y_and_z_is_a_3d_vector() {
    assert_eq!(infer(&xyz(1.0, 2.0, 3.0)), VariantDispatch::Vector3(v3(1.0, 2.0, 3.0)));
}

#[test]
fn a_map_of_x_y_and_origin_is_a_2d_transform() {
    let raw = map(vec![("x", xy(1.0, 2.0)), ("y", xy(3.0, 4.0)), ("origin", xy(5.0, 6.0))]);
    assert_eq!(
        infer(&raw),
        VariantDispatch::Transform2D(Transform2D {
            x: v2(1.0, 2.0),
            y: v2(3.0, 4.0),
            origin: v2(5.0, 6.0),
        })
    );
}

#[test]
fn a_map_of_x_y_z_and_w_is_a_quaternion() {
    let raw = map(vec![("x", number(4.1)), ("y", number(5.2)), ("z", number(6.3)), ("w", number(7.5))]);
    assert_eq!(
        infer(&raw),
        VariantDispatch::Quat(Quat { x: s(4.1f64 as f32), y: s(5.2f64 as f32), z: s(6.3f64 as f32), w: s(7.5) })
    );
}

#[test]
fn a_map_of_r_g_b_and_a_is_a_color() {
    let raw = map(vec![("a", integer(1)), ("b", number(0.5)), ("g", integer(0)), ("r", number(0.25))]);
    assert_eq!(
        infer(&raw),
        VariantDispatch::Color(Color { r: s(0.25), g: s(0.0), b: s(0.5), a: s(1.0) })
    );
}

#[test]
fn field_names_match_in_any_order() {
    assert_eq!(
        infer(&map(vec![("y", number(2.0)), ("x", number(1.0))])),
        VariantDispatch::Vector2(v2(1.0, 2.0))
    );
}

#[test]
fn field_names_with_values_of_another_type_stay_generic() {
    assert_eq!(
        infer(&map(vec![("x", text("a")), ("y", number(2.0))])),
        dictionary(vec![
            (string("x"), string("a")),
            (string("y"), VariantDispatch::F64(Double::from_bits(2.0f64.to_bits()))),
        ])
    );
    assert_eq!(
        infer(&map(vec![("position", xy(1.0, 2.0)), ("size", xyz(1.0, 2.0, 3.0))])),
        dictionary(vec![
            (string("position"), VariantDispatch::Vector2(v2(1.0, 2.0))),
            (string("size"), VariantDispatch::Vector3(v3(1.0, 2.0, 3.0))),
        ])
    );
}

#[test]
fn an_extra_field_keeps_a_map_generic() {
    let raw = map(vec![("x", integer(1)), ("y", integer(2)), ("label", text("p"))]);
    assert_eq!(
        infer(&raw),
        dictionary(vec![
            (string("x"), VariantDispatch::I64(1)),
            (string("y"), VariantDispatch::I64(2)),
            (string("label"), string("p")),
        ])
    );
}

#[test]
fn a_repeated_key_counts_once_and_the_last_value_wins() {
    let raw = map(vec![("x", integer(1)), ("x", number(5.0)), ("y", integer(2))]);
    assert_eq!(infer(&raw), VariantDispatch::Vector2(v2(5.0, 2.0)));
    let not_a_number = map(vec![("x", integer(1)), ("y", integer(2)), ("x", text("late"))]);
    assert_eq!(
        infer(&not_a_number),
        dictionary(vec![(string("x"), string("late")), (string("y"), VariantDispatch::I64(2))])
    );
}

#[test]
fn a_single_key_that_names_the_kind_of_its_value_gives_the_value() {
    assert_eq!(
        infer(&map(vec![("Vector2", xy(1.0, 2.0))])),
        VariantDispatch::Vector2(v2(1.0, 2.0))
    );
    assert_eq!(infer(&map(vec![("I64", integer(4))])), VariantDispatch::I64(4));
    assert_eq!(infer(&map(vec![("GodotString", text("a"))])), string("a"));
    assert_eq!(
        infer(&map(vec![("VariantArray", seq(vec![integer(1)]))])),
        array(vec![VariantDispatch::I64(1)])
    );
    assert_eq!(
        infer(&map(vec![(
            "Quat",
            map(vec![("x", integer(1)), ("y", integer(2)), ("z", integer(3)), ("w", integer(4))])
        )])),
        VariantDispatch::Quat(Quat { x: s(1.0), y: s(2.0), z: s(3.0), w: s(4.0) })
    );
}

#[test]
fn a_single_key_that_names_a_handle_gives_the_empty_handle() {
    assert_eq!(infer(&map(vec![("Rid", Untagged::Unit)])), VariantDispatch::Rid(Rid::new()));
    assert_eq!(
        infer(&map(vec![("Object", Untagged::Absent)])),
        VariantDispatch::Object(ObjectRef::new())
    );
}

#[test]
fn a_single_key_that_names_a_path_gives_the_path() {
    assert_eq!(
        infer(&map(vec![("NodePath", text("/root/Node"))])),
        VariantDispatch::NodePath("/root/Node".to_string())
    );
}

#[test]
fn a_single_key_that_names_another_kind_stays_generic() {
    assert_eq!(
        infer(&map(vec![("Vector3", xy(1.0, 2.0))])),
        dictionary(vec![(string("Vector3"), VariantDispatch::Vector2(v2(1.0, 2.0)))])
    );
    assert_eq!(
        infer(&map(vec![("Quat", seq(vec![integer(1), integer(2), integer(3), integer(4)]))])),
        dictionary(vec![(
            string("Quat"),
            VariantDispatch::Color(Color { r: s(1.0), g: s(2.0), b: s(3.0), a: s(4.0) })
        )])
    );
    assert_eq!(
        infer(&map(vec![("health", integer(3))])),
        dictionary(vec![(string("health"), VariantDispatch::I64(3))])
    );
}

#[test]
fn keys_that_are_no_text_keep_a_map_generic() {
    let raw = Untagged::Entries(vec![(integer(1), number(1.0)), (integer(2), number(2.0))]);
    assert_eq!(
        infer(&raw),
        dictionary(vec![
            (VariantDispatch::I64(1), VariantDispatch::F64(Double::from_bits(1.0f64.to_bits()))),
            (VariantDispatch::I64(2), VariantDispatch::F64(Double::from_bits(2.0f64.to_bits()))),
        ])
    );
}

#[test]
fn an_empty_map_is_the_empty_association() {
    assert_eq!(infer(&map(vec![])), dictionary(vec![]));
}

#[test]
fn inference_goes_from_the_inside_out() {
    let raw = map(vec![
        ("spawn", seq(vec![number(1.0), number(2.0)])),
        ("tint", seq(vec![integer(1), integer(0), integer(0), integer(1)])),
        ("tags", seq(vec![text("a"), text("b")])),
    ]);
    assert_eq!(
        infer(&raw),
        dictionary(vec![
            (string("spawn"), VariantDispatch::Vector2(v2(1.0, 2.0))),
            (
                string("tint"),
                VariantDispatch::Color(Color { r: s(1.0), g: s(0.0), b: s(0.0), a: s(1.0) })
            ),
            (string("tags"), array(vec![string("a"), string("b")])),
        ])
    );
}
