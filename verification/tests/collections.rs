use variant_bridge::geometry::{Basis, Double, Rid, Single, Vector2, Vector3};
use variant_bridge::kind::VariantType;
use variant_bridge::variant::{Dictionary, Variant, VariantArray, VariantDispatch};

fn text(v: &str) -> Variant {
    Variant::from_str(v)
}

fn integer(v: i64) -> Variant {
    Variant::from_dispatch(&VariantDispatch::I64(v))
}

#[test]
fn a_new_dynamic_value_holds_nothing() {
    assert_eq!(Variant::new().dispatch(), VariantDispatch::Nil);
    assert_eq!(Variant::new().get_type(), VariantType::Nil);
}

#[test]
fn lifting_then_projecting_gives_the_dispatch_back() {
    let dispatch = VariantDispatch::StringArray(vec!["a".to_string(), "b".to_string()]);
    let variant = Variant::from_dispatch(&dispatch);
    assert_eq!(variant.dispatch(), dispatch);
    assert_eq!(variant.get_type(), VariantType::StringArray);
    assert_eq!(dispatch.kind(), VariantType::StringArray);
}

#[test]
fn a_projection_is_owned_by_its_caller() {
    let variant = text("before");
    let mut projected = variant.dispatch();
    if let VariantDispatch::GodotString(inner) = &mut projected {
        inner.push_str(" and after");
    }
    assert_eq!(variant.dispatch(), VariantDispatch::GodotString("before".to_string()));
}

#[test]
fn a_dynamic_value_gives_its_payload_only_under_its_own_type() {
    let v = Vector2 { x: Single::from_bits(1), y: Single::from_bits(2) };
    let variant = Variant::from_dispatch(&VariantDispatch::Vector2(v));
    assert_eq!(variant.try_to_vector2(), Some(v));
    assert_eq!(variant.try_to_vector3(), None);
    assert_eq!(variant.try_to_basis(), None);
    assert_eq!(variant.try_to_string(), None);
    assert_eq!(text("abc").try_to_string(), Some("abc".to_string()));
    let w = Vector3 { x: Single::from_bits(1), y: Single::from_bits(2), z: Single::from_bits(3) };
    let b = Basis { first: w, second: w, third: w };
    assert_eq!(Variant::from_dispatch(&VariantDispatch::Vector3(w)).try_to_vector3(), Some(w));
    assert_eq!(Variant::from_dispatch(&VariantDispatch::Basis(b)).try_to_basis(), Some(b));
}

#[test]
fn equality_goes_all_the_way_down() {
    let mut a = VariantArray::new();
    a.push(integer(1));
    a.push(text("x"));
    let mut b = VariantArray::new();
    b.push(integer(1));
    b.push(text("x"));
    assert!(a.equals(&b));
    b.push(integer(2));
    assert!(!a.equals(&b));
    let one = Variant::from_dispatch(&VariantDispatch::VariantArray(a.duplicate()));
    let other = Variant::from_dispatch(&VariantDispatch::VariantArray(a));
    assert!(one.equals(&other));
    assert!(!one.equals(&integer(1)));
}

#[test]
fn an_integer_and_a_number_are_different_keys() {
    let mut dictionary = Dictionary::new();
    dictionary.insert(integer(1), text("integer"));
    dictionary.insert(
        Variant::from_dispatch(&VariantDispatch::F64(Double::from_bits(1.0f64.to_bits()))),
        text("number"),
    );
    assert_eq!(dictionary.len(), 2);
    assert!(dictionary.get(&integer(1)).unwrap().equals(&text("integer")));
}

#[test]
fn an_empty_association_gives_nothing() {
    let dictionary = Dictionary::new();
    assert_eq!(dictionary.len(), 0);
    assert!(dictionary.get(&text("a")).is_none());
    assert!(!dictionary.contains(&text("a")));
    assert_eq!(dictionary.position(&text("a")), 0);
}

#[test]
fn insertion_adds_at_the_end_or_overwrites_in_place() {
    let mut dictionary = Dictionary::new();
    dictionary.insert(text("a"), integer(1));
    dictionary.insert(text("b"), integer(2));
    dictionary.insert(text("c"), integer(3));
    assert_eq!(dictionary.len(), 3);
    assert_eq!(dictionary.position(&text("b")), 1);
    dictionary.insert(text("b"), integer(20));
    assert_eq!(dictionary.len(), 3);
    assert_eq!(dictionary.position(&text("b")), 1);
    assert!(dictionary.key_at(0).equals(&text("a")));
    assert!(dictionary.key_at(1).equals(&text("b")));
    assert!(dictionary.key_at(2).equals(&text("c")));
    assert!(dictionary.value_at(1).equals(&integer(20)));
    assert!(dictionary.get(&text("b")).unwrap().equals(&integer(20)));
    assert!(dictionary.get(&text("a")).unwrap().equals(&integer(1)));
    assert!(dictionary.contains(&text("c")));
    assert!(!dictionary.contains(&text("d")));
    assert_eq!(dictionary.position(&text("d")), 3);
}

#[test]
fn a_collection_may_be_a_key() {
    let mut key = VariantArray::new();
    key.push(integer(1));
    let key = Variant::from_dispatch(&VariantDispatch::VariantArray(key));
    let mut dictionary = Dictionary::new();
    dictionary.insert(key.duplicate(), integer(1));
    dictionary.insert(key.duplicate(), integer(2));
    assert_eq!(dictionary.len(), 1);
    assert!(dictionary.get(&key).unwrap().equals(&integer(2)));
}

#[test]
fn a_collection_keeps_the_order_of_its_items() {
    let mut array = VariantArray::new();
    assert_eq!(array.len(), 0);
    array.push(integer(3));
    array.push(integer(1));
    array.push(integer(2));
    assert_eq!(array.len(), 3);
    assert!(array.get(0).equals(&integer(3)));
    assert!(array.get(1).equals(&integer(1)));
    assert!(array.get(2).equals(&integer(2)));
}

#[test]
fn a_copy_is_equal_and_apart() {
    let mut dictionary = Dictionary::new();
    dictionary.insert(text("a"), integer(1));
    let mut copy = dictionary.duplicate();
    assert!(copy.equals(&dictionary));
    copy.insert(text("a"), integer(2));
    assert!(!copy.equals(&dictionary));
    assert!(dictionary.get(&text("a")).unwrap().equals(&integer(1)));
}

#[test]
fn handles_are_compared_by_identity() {
    let a = VariantDispatch::Rid(Rid { id: 1 });
    let b = VariantDispatch::Rid(Rid { id: 2 });
    assert!(!a.equals(&b));
    assert!(a.equals(&a.duplicate()));
    assert_eq!(Rid::new(), Rid { id: 0 });
}

#[test]
fn numbers_keep_their_bits() {
    assert_eq!(Single::from_bits(0x3f80_0000).to_bits(), 0x3f80_0000);
    assert_eq!(Single::from_bits(1.0f32.to_bits()), Single { bits: 0x3f80_0000 });
    assert_eq!(Double::from_bits(u64::MAX).to_bits(), u64::MAX);
}
