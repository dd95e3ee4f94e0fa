//! What holds of shape inference: the precedence of bare numbers, the
//! fallback to the generic association, and that what is inferred is well
//! formed.

use crate::association::{
    from_pairs, lemma_from_pairs_distinct, lemma_from_pairs_keys, lemma_from_pairs_members,
    lemma_last_value_mentions, mentions,
};
use crate::geometry::{Color, Vector2, Vector3};
use crate::infer::{
    field, field_number, inferred, inferred_items, inferred_pairs, map_match, match_four,
    match_three, match_two, named_value, number, numbered_keys, numbers_of, sequence_match,
    sequence_shape,
};
use crate::kind::VariantType;
use crate::untagged::Bare;
use crate::variant::{well_formed, Value};
use vstd::prelude::*;

verus! {

/// Precedence for bare numbers: a sequence of two, three or four numbers
/// is a 2D vector, a 3D vector or a color, made of their single-precision
/// readings, and never a basis, a quaternion or a generic collection. A
/// sequence of numbers of any other length is the generic collection.
pub proof fn lemma_numbers_are_vectors(items: Seq<Bare>)
    requires
        forall|i: int| 0 <= i < items.len() ==> number(#[trigger] items[i]) is Some,
    ensures
        items.len() == 2 ==> inferred(Bare::Sequence(items)) == Value::Vector2(
            Vector2 { x: number(items[0])->0, y: number(items[1])->0 },
        ),
        items.len() == 3 ==> inferred(Bare::Sequence(items)) == Value::Vector3(
            Vector3 { x: number(items[0])->0, y: number(items[1])->0, z: number(items[2])->0 },
        ),
        items.len() == 4 ==> inferred(Bare::Sequence(items)) == Value::Color(
            Color {
                r: number(items[0])->0,
                g: number(items[1])->0,
                b: number(items[2])->0,
                a: number(items[3])->0,
            },
        ),
        items.len() < 2 || items.len() > 4 ==> inferred(Bare::Sequence(items))
            == Value::VariantArray(inferred_items(items)),
{
    let numbers = numbers_of(items);
    assert forall|i: int| 0 <= i < items.len() implies (#[trigger] numbers[i]) == number(
        items[i],
    ) && numbers[i] is Some by {}
    let values = inferred_items(items);
    assert(values.len() == items.len());
    assert(inferred(Bare::Sequence(items)) == sequence_shape(numbers, values));
    if items.len() == 2 {
        assert(numbers[0] is Some && numbers[1] is Some);
        assert(sequence_match(numbers, values) is Some);
    } else if items.len() == 3 {
        assert(numbers[0] is Some && numbers[1] is Some && numbers[2] is Some);
    } else if items.len() == 4 {
        assert(numbers[0] is Some && numbers[1] is Some && numbers[2] is Some && numbers[3]
            is Some);
    }
}

/// `true` for the field names by which a map is recognised.
pub open spec fn field_name(name: Seq<char>) -> bool {
    name == "x"@ || name == "y"@ || name == "z"@ || name == "w"@ || name == "r"@ || name == "g"@
        || name == "b"@ || name == "a"@ || name == "normal"@ || name == "d"@ || name == "basis"@
        || name == "origin"@ || name == "position"@ || name == "size"@
}

/// `true` for a key that is the text of a field name or of the name of a
/// kind.
pub open spec fn pattern_key(key: Value) -> bool {
    key is GodotString && (field_name(key->GodotString_0) || VariantType::of_name(
        key->GodotString_0,
    ) is Some)
}

/// A map none of whose keys is a field name has no field of any such
/// name.
proof fn lemma_no_field(entries: Seq<(Bare, Bare)>, name: Seq<char>)
    requires
        forall|i: int| 0 <= i < entries.len() ==> !pattern_key(inferred((#[trigger] entries[i]).0)),
        field_name(name),
    ensures
        field_number(numbered_keys(entries), name) is None,
        field(from_pairs(inferred_pairs(entries)), name) is None,
{
    let key = Value::GodotString(name);
    let numbered = numbered_keys(entries);
    let pairs = inferred_pairs(entries);
    lemma_last_value_mentions(numbered, key);
    if mentions(numbered, key) {
        let i = choose|i: int| 0 <= i < numbered.len() && (#[trigger] numbered[i]).0 == key;
        assert(pattern_key(inferred(entries[i].0)));
    }
    lemma_from_pairs_keys(pairs, key);
    if mentions(pairs, key) {
        let i = choose|i: int| 0 <= i < pairs.len() && (#[trigger] pairs[i]).0 == key;
        assert(pattern_key(inferred(entries[i].0)));
    }
}

/// Fallback: a map none of whose keys is the text of a field name or of
/// the name of a kind is the generic association of its entries, whatever
/// their number and their values.
pub proof fn lemma_fallback(entries: Seq<(Bare, Bare)>)
    requires
        forall|i: int| 0 <= i < entries.len() ==> !pattern_key(inferred((#[trigger] entries[i]).0)),
    ensures
        inferred(Bare::Entries(entries)) == Value::Dictionary(
            from_pairs(inferred_pairs(entries)),
        ),
{
    let pairs = inferred_pairs(entries);
    let built = from_pairs(pairs);
    let numbered = numbered_keys(entries);
    if built.len() == 1 {
        lemma_from_pairs_members(pairs, 0);
        let j = choose|j: int| 0 <= j < pairs.len() && #[trigger] pairs[j] == built[0];
        assert(!pattern_key(inferred(entries[j].0)));
        assert(named_value(built[0].0, built[0].1) is None);
    }
    lemma_no_field(entries, "x"@);
    lemma_no_field(entries, "y"@);
    lemma_no_field(entries, "z"@);
    lemma_no_field(entries, "w"@);
    lemma_no_field(entries, "r"@);
    lemma_no_field(entries, "g"@);
    lemma_no_field(entries, "b"@);
    lemma_no_field(entries, "a"@);
    lemma_no_field(entries, "normal"@);
    lemma_no_field(entries, "d"@);
    lemma_no_field(entries, "basis"@);
    lemma_no_field(entries, "origin"@);
    lemma_no_field(entries, "position"@);
    lemma_no_field(entries, "size"@);
    assert(match_two(built, numbered) is None);
    assert(match_three(built, numbered) is None);
    assert(match_four(numbered) is None);
    assert(map_match(built, numbered) is None);
}

/// What is inferred is well formed: no association in it, at any depth,
/// has two entries with equal keys.
pub proof fn lemma_inferred_well_formed(raw: Bare)
    ensures
        well_formed(inferred(raw)),
    decreases raw,
{
    match raw {
        Bare::Present(inner) => {
            lemma_inferred_well_formed(*inner);
        },
        Bare::Newtype(inner) => {
            lemma_inferred_well_formed(*inner);
        },
        Bare::Sequence(items) => {
            let values = inferred_items(items);
            assert forall|i: int| 0 <= i < values.len() implies well_formed(
                #[trigger] values[i],
            ) by {
                lemma_inferred_well_formed(items[i]);
            }
            assert(well_formed(Value::VariantArray(values)));
        },
        Bare::Entries(entries) => {
            let pairs = inferred_pairs(entries);
            let built = from_pairs(pairs);
            lemma_from_pairs_distinct(pairs);
            assert forall|i: int| 0 <= i < built.len() implies well_formed(
                (#[trigger] built[i]).0,
            ) && well_formed(built[i].1) by {
                lemma_from_pairs_members(pairs, i);
                let j = choose|j: int| 0 <= j < pairs.len() && #[trigger] pairs[j] == built[i];
                lemma_inferred_well_formed(entries[j].0);
                lemma_inferred_well_formed(entries[j].1);
            }
            assert(well_formed(Value::Dictionary(built)));
        },
        _ => {},
    }
}

} // verus!
