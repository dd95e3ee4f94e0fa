use variant_bridge::kind::{VariantType, KIND_COUNT};
use variant_bridge::structured::Discriminant;

fn all_kinds() -> Vec<VariantType> {
    let mut kinds = Vec::new();
    let mut id: u64 = 0;
    while id < KIND_COUNT {
        kinds.push(VariantType::from_id(id).unwrap());
        id += 1;
    }
    kinds
}

#[test]
fn there_are_twenty_seven_kinds() {
    assert_eq!(KIND_COUNT, 27);
    assert_eq!(all_kinds().len(), 27);
}

#[test]
fn ids_are_dense_and_in_declaration_order() {
    assert_eq!(VariantType::Nil.id(), 0);
    assert_eq!(VariantType::Bool.id(), 1);
    assert_eq!(VariantType::I64.id(), 2);
    assert_eq!(VariantType::F64.id(), 3);
    assert_eq!(VariantType::GodotString.id(), 4);
    assert_eq!(VariantType::Vector2.id(), 5);
    assert_eq!(VariantType::Rect2.id(), 6);
    assert_eq!(VariantType::Vector3.id(), 7);
    assert_eq!(VariantType::Transform2D.id(), 8);
    assert_eq!(VariantType::Plane.id(), 9);
    assert_eq!(VariantType::Quat.id(), 10);
    assert_eq!(VariantType::Aabb.id(), 11);
    assert_eq!(VariantType::Basis.id(), 12);
    assert_eq!(VariantType::Transform.id(), 13);
    assert_eq!(VariantType::Color.id(), 14);
    assert_eq!(VariantType::NodePath.id(), 15);
    assert_eq!(VariantType::Rid.id(), 16);
    assert_eq!(VariantType::Object.id(), 17);
    assert_eq!(VariantType::Dictionary.id(), 18);
    assert_eq!(VariantType::VariantArray.id(), 19);
    assert_eq!(VariantType::ByteArray.id(), 20);
    assert_eq!(VariantType::Int32Array.id(), 21);
    assert_eq!(VariantType::Float32Array.id(), 22);
    assert_eq!(VariantType::StringArray.id(), 23);
    assert_eq!(VariantType::Vector2Array.id(), 24);
    assert_eq!(VariantType::Vector3Array.id(), 25);
    assert_eq!(VariantType::ColorArray.id(), 26);
}

#[test]
fn names_are_the_declared_names() {
    assert_eq!(VariantType::Nil.name(), "Nil");
    assert_eq!(VariantType::F64.name(), "F64");
    assert_eq!(VariantType::GodotString.name(), "GodotString");
    assert_eq!(VariantType::Transform2D.name(), "Transform2D");
    assert_eq!(VariantType::Float32Array.name(), "Float32Array");
    assert_eq!(VariantType::ColorArray.name(), "ColorArray");
}

#[test]
fn every_kind_resolves_from_each_of_its_encodings() {
    for kind in all_kinds() {
        assert_eq!(VariantType::from_id(kind.id() as u64), Some(kind));
        assert_eq!(VariantType::from_name(kind.name()), Some(kind));
        assert_eq!(VariantType::from_bytes(kind.name().as_bytes()), Some(kind));
    }
}

#[test]
fn no_two_kinds_share_an_id_or_a_name() {
    let kinds = all_kinds();
    for a in 0..kinds.len() {
        for b in 0..kinds.len() {
            if a != b {
                assert_ne!(kinds[a].id(), kinds[b].id());
                assert_ne!(kinds[a].name(), kinds[b].name());
            }
        }
    }
}

#[test]
fn unknown_tokens_resolve_to_nothing() {
    assert_eq!(VariantType::from_id(27), None);
    assert_eq!(VariantType::from_id(u64::MAX), None);
    assert_eq!(VariantType::from_name("Vector4"), None);
    assert_eq!(VariantType::from_name("nil"), None);
    assert_eq!(VariantType::from_name(""), None);
    assert_eq!(VariantType::from_name("Vector2 "), None);
    assert_eq!(VariantType::from_bytes(b"Vector"), None);
    assert_eq!(VariantType::from_bytes(&[0xff, 0xfe]), None);
}

#[test]
fn a_tag_resolves_in_each_of_its_forms() {
    assert_eq!(Discriminant::Kind(VariantType::Plane).resolve(), Some(VariantType::Plane));
    assert_eq!(Discriminant::Id(9).resolve(), Some(VariantType::Plane));
    assert_eq!(Discriminant::Name("Plane".to_string()).resolve(), Some(VariantType::Plane));
    assert_eq!(Discriminant::Bytes(b"Plane".to_vec()).resolve(), Some(VariantType::Plane));
    assert_eq!(Discriminant::Id(99).resolve(), None);
    assert_eq!(Discriminant::Name("Plain".to_string()).resolve(), None);
    assert_eq!(Discriminant::Bytes(b"plane".to_vec()).resolve(), None);
}
