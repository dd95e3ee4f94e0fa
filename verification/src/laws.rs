//! What holds of encoding followed by decoding: the round trip through the
//! tagged encoding, and through whatever form a format gives to the tags.

use crate::association::{
    from_pairs, last_value, lemma_from_pairs_distinct, lemma_from_pairs_members,
    lemma_from_pairs_of_distinct, lemma_last_write_wins, lookup,
};
use crate::decode::{
    decoding, decoding_each, decoding_each_entry, decoding_entry, decoding_payload,
    decoding_tagged, parse_text, parse_texts,
};
use crate::encode::{encoding, entry_node, payload, tagged, texts_node};
use crate::error::Failure;
use crate::geometry::{Color, ObjectRef, Rid, Single, Vector2, Vector3};
use crate::kind::VariantType;
use crate::payload::{
    encoder_name, lemma_seq_round_trip, lemma_seq_plain, names_known, Payload,
};
use crate::seqs::{collect, lemma_collect_ok, lemma_collect_values};
use crate::structured::{carries_kind, lemma_presents_tagless, presents, tagless, Node, Tag};
use crate::variant::{well_formed, Value};
use vstd::prelude::*;

verus! {

/// What is left of a value once it has been encoded and decoded again.
///
/// An opaque handle comes back as the empty handle of its kind: its
/// identity cannot be written down. An association is rebuilt by inserting
/// its entries in order, so that entries whose keys have become equal
/// collapse into one. Every other value comes back as it was.
pub open spec fn restored(value: Value) -> Value
    decreases value,
{
    match value {
        Value::Rid(_) => Value::Rid(Rid::empty()),
        Value::Object(_) => Value::Object(ObjectRef::empty()),
        Value::Dictionary(entries) => Value::Dictionary(from_pairs(restored_entries(entries))),
        Value::VariantArray(items) => Value::VariantArray(restored_items(items)),
        _ => value,
    }
}

/// The items, each as it comes back.
pub open spec fn restored_items(items: Seq<Value>) -> Seq<Value>
    decreases items,
{
    Seq::new(
        items.len(),
        |i: int|
            if 0 <= i < items.len() {
                restored(items[i])
            } else {
                Value::Nil
            },
    )
}

/// The entries, key and value each as it comes back.
pub open spec fn restored_entries(entries: Seq<(Value, Value)>) -> Seq<(Value, Value)>
    decreases entries,
{
    Seq::new(
        entries.len(),
        |i: int|
            if 0 <= i < entries.len() {
                (restored(entries[i].0), restored(entries[i].1))
            } else {
                (Value::Nil, Value::Nil)
            },
    )
}

/// `true` when the value holds no opaque handle but an empty one, at any
/// depth.
pub open spec fn without_identity(value: Value) -> bool
    decreases value,
{
    match value {
        Value::Rid(rid) => rid == Rid::empty(),
        Value::Object(object) => object == ObjectRef::empty(),
        Value::Dictionary(entries) => forall|i: int|
            0 <= i < entries.len() ==> without_identity((#[trigger] entries[i]).0)
                && without_identity(entries[i].1),
        Value::VariantArray(items) => forall|i: int|
            0 <= i < items.len() ==> without_identity(#[trigger] items[i]),
        _ => true,
    }
}

/// Decoding a sequence of texts inverts encoding it.
pub proof fn lemma_texts_round_trip(items: Seq<Seq<char>>)
    ensures
        parse_texts(texts_node(items)) == Ok::<Seq<Seq<char>>, Failure>(items),
{
    let nodes = texts_node(items)->Sequence_0;
    let results = Seq::new(nodes.len(), |i: int| parse_text(nodes[i]));
    lemma_collect_ok(results);
    assert(Seq::new(results.len(), |i: int| results[i]->Ok_0) =~= items);
}

/// A value of a fixed shape decodes from its payload to itself.
proof fn lemma_fixed_round_trip(value: Value)
    requires
        value is Bool || value is I64 || value is F64 || value is Vector2 || value is Rect2
            || value is Vector3 || value is Transform2D || value is Plane || value is Quat
            || value is Aabb || value is Basis || value is Transform || value is Color,
    ensures
        decoding_payload(value.kind(), payload(value)) == Ok::<Value, Failure>(value),
{
    match value {
        Value::Bool(v) => {
            v.lemma_round_trip();
        },
        Value::I64(v) => {
            v.lemma_round_trip();
        },
        Value::F64(v) => {
            v.lemma_round_trip();
        },
        Value::Vector2(v) => {
            v.lemma_round_trip();
        },
        Value::Rect2(v) => {
            v.lemma_round_trip();
        },
        Value::Vector3(v) => {
            v.lemma_round_trip();
        },
        Value::Transform2D(v) => {
            v.lemma_round_trip();
        },
        Value::Plane(v) => {
            v.lemma_round_trip();
        },
        Value::Quat(v) => {
            v.lemma_round_trip();
        },
        Value::Aabb(v) => {
            v.lemma_round_trip();
        },
        Value::Basis(v) => {
            v.lemma_round_trip();
        },
        Value::Transform(v) => {
            v.lemma_round_trip();
        },
        Value::Color(v) => {
            v.lemma_round_trip();
        },
        _ => {},
    }
}

/// A value without data, a text, a path or an opaque handle decodes from
/// its payload as `restored` describes.
proof fn lemma_simple_round_trip(value: Value)
    requires
        value is Nil || value is GodotString || value is NodePath || value is Rid
            || value is Object,
    ensures
        decoding_payload(value.kind(), payload(value)) == Ok::<Value, Failure>(restored(value)),
{
}

/// An array of plain items decodes from its payload to itself.
proof fn lemma_typed_array_round_trip(value: Value)
    requires
        value is ByteArray || value is Int32Array || value is Float32Array
            || value is StringArray || value is Vector2Array || value is Vector3Array
            || value is ColorArray,
    ensures
        decoding_payload(value.kind(), payload(value)) == Ok::<Value, Failure>(value),
{
    match value {
        Value::ByteArray(v) => {
            lemma_seq_round_trip::<u8>(v);
        },
        Value::Int32Array(v) => {
            lemma_seq_round_trip::<i32>(v);
        },
        Value::Float32Array(v) => {
            lemma_seq_round_trip::<Single>(v);
        },
        Value::StringArray(v) => {
            lemma_texts_round_trip(v);
        },
        Value::Vector2Array(v) => {
            lemma_seq_round_trip::<Vector2>(v);
        },
        Value::Vector3Array(v) => {
            lemma_seq_round_trip::<Vector3>(v);
        },
        Value::ColorArray(v) => {
            lemma_seq_round_trip::<Color>(v);
        },
        _ => {},
    }
}

/// A collection whose items each come back restored comes back restored.
proof fn lemma_collection_round_trip(items: Seq<Value>)
    requires
        forall|i: int|
            0 <= i < items.len() ==> decoding(encoding(#[trigger] items[i])) == Ok::<
                Value,
                Failure,
            >(restored(items[i])),
    ensures
        decoding_payload(VariantType::VariantArray, payload(Value::VariantArray(items))) == Ok::<
            Value,
            Failure,
        >(restored(Value::VariantArray(items))),
{
    let nodes = payload(Value::VariantArray(items))->Sequence_0;
    let results = decoding_each(nodes);
    assert forall|i: int| 0 <= i < results.len() implies (#[trigger] results[i]) is Ok by {
        assert(nodes[i] == encoding(items[i]));
    }
    lemma_collect_ok(results);
    assert forall|i: int| 0 <= i < results.len() implies (#[trigger] results[i])->Ok_0
        == restored_items(items)[i] by {
        assert(nodes[i] == encoding(items[i]));
    }
    assert(Seq::new(results.len(), |i: int| results[i]->Ok_0) =~= restored_items(items));
}

/// An entry whose key and value each come back restored comes back as the
/// pair of them.
proof fn lemma_entry_round_trip(key: Value, value: Value)
    requires
        decoding(encoding(key)) == Ok::<Value, Failure>(restored(key)),
        decoding(encoding(value)) == Ok::<Value, Failure>(restored(value)),
    ensures
        decoding_entry(entry_node(encoding(key), encoding(value))) == Ok::<
            (Value, Value),
            Failure,
        >((restored(key), restored(value))),
{
}

/// An association whose keys and values each come back restored comes back
/// restored.
proof fn lemma_association_round_trip(entries: Seq<(Value, Value)>)
    requires
        forall|i: int|
            0 <= i < entries.len() ==> decoding(encoding((#[trigger] entries[i]).0)) == Ok::<
                Value,
                Failure,
            >(restored(entries[i].0)) && decoding(encoding(entries[i].1)) == Ok::<
                Value,
                Failure,
            >(restored(entries[i].1)),
    ensures
        decoding_payload(VariantType::Dictionary, payload(Value::Dictionary(entries))) == Ok::<
            Value,
            Failure,
        >(restored(Value::Dictionary(entries))),
{
    let nodes = payload(Value::Dictionary(entries))->Sequence_0;
    let results = decoding_each_entry(nodes);
    assert forall|i: int| 0 <= i < results.len() implies (#[trigger] results[i]) == Ok::<
        (Value, Value),
        Failure,
    >(restored_entries(entries)[i]) by {
        assert(nodes[i] == entry_node(encoding(entries[i].0), encoding(entries[i].1)));
        lemma_entry_round_trip(entries[i].0, entries[i].1);
    }
    lemma_collect_ok(results);
    assert(Seq::new(results.len(), |i: int| results[i]->Ok_0) =~= restored_entries(entries));
}

/// Encoding then decoding gives back the value as `restored` describes it:
/// every value but for the identity of its opaque handles. Its kind is
/// kept.
pub proof fn lemma_round_trip(value: Value)
    ensures
        decoding(encoding(value)) == Ok::<Value, Failure>(restored(value)),
        restored(value).kind() == value.kind(),
    decreases value,
{
    assert(decoding(encoding(value)) == decoding_payload(value.kind(), payload(value)));
    match value {
        Value::Dictionary(entries) => {
            assert forall|i: int| 0 <= i < entries.len() implies decoding(
                encoding((#[trigger] entries[i]).0),
            ) == Ok::<Value, Failure>(restored(entries[i].0)) && decoding(encoding(entries[i].1))
                == Ok::<Value, Failure>(restored(entries[i].1)) by {
                Value::lemma_entry_smaller(entries, i);
                lemma_round_trip(entries[i].0);
                lemma_round_trip(entries[i].1);
            }
            lemma_association_round_trip(entries);
        },
        Value::VariantArray(items) => {
            assert forall|i: int| 0 <= i < items.len() implies decoding(
                encoding(#[trigger] items[i]),
            ) == Ok::<Value, Failure>(restored(items[i])) by {
                Value::lemma_item_smaller(items, i);
                lemma_round_trip(items[i]);
            }
            lemma_collection_round_trip(items);
        },
        Value::Nil | Value::GodotString(_) | Value::NodePath(_) | Value::Rid(_) | Value::Object(
            _,
        ) => {
            lemma_simple_round_trip(value);
        },
        Value::ByteArray(_) | Value::Int32Array(_) | Value::Float32Array(_) | Value::StringArray(
            _,
        ) | Value::Vector2Array(_) | Value::Vector3Array(_) | Value::ColorArray(_) => {
            lemma_typed_array_round_trip(value);
        },
        _ => {
            lemma_fixed_round_trip(value);
        },
    }
}

/// A well-formed value that holds no handle with an identity comes back
/// as it was.
pub proof fn lemma_restored_same(value: Value)
    requires
        well_formed(value),
        without_identity(value),
    ensures
        restored(value) == value,
    decreases value,
{
    match value {
        Value::Dictionary(entries) => {
            assert forall|i: int| 0 <= i < entries.len() implies (#[trigger] restored_entries(
                entries,
            )[i]) == entries[i] by {
                Value::lemma_entry_smaller(entries, i);
                lemma_restored_same(entries[i].0);
                lemma_restored_same(entries[i].1);
            }
            assert(restored_entries(entries) =~= entries);
            lemma_from_pairs_of_distinct(entries);
        },
        Value::VariantArray(items) => {
            assert forall|i: int| 0 <= i < items.len() implies (#[trigger] restored_items(
                items,
            )[i]) == items[i] by {
                Value::lemma_item_smaller(items, i);
                lemma_restored_same(items[i]);
            }
            assert(restored_items(items) =~= items);
        },
        _ => {},
    }
}

/// Round trip through the tagged encoding: a well-formed value that holds
/// no opaque handle with an identity decodes, from its own encoding, to
/// itself.
pub proof fn lemma_tagged_round_trip(value: Value)
    requires
        well_formed(value),
        without_identity(value),
    ensures
        decoding(encoding(value)) == Ok::<Value, Failure>(value),
{
    lemma_round_trip(value);
    lemma_restored_same(value);
}

/// Round trip of an opaque handle: whatever a resource id or an object
/// reference refers to, it decodes from its encoding to the empty handle
/// of the same kind.
pub proof fn lemma_handle_round_trip(rid: Rid, object: ObjectRef)
    ensures
        decoding(encoding(Value::Rid(rid))) == Ok::<Value, Failure>(Value::Rid(Rid::empty())),
        decoding(encoding(Value::Object(object))) == Ok::<Value, Failure>(
            Value::Object(ObjectRef::empty()),
        ),
{
    lemma_round_trip(Value::Rid(rid));
    lemma_round_trip(Value::Object(object));
}

/// What decodes from a payload is well formed: no association in it has
/// two entries with equal keys.
pub proof fn lemma_payload_well_formed(kind: VariantType, node: Node)
    requires
        decoding_payload(kind, node) is Ok,
    ensures
        well_formed(decoding_payload(kind, node)->Ok_0),
    decreases node, 1nat,
{
    match kind {
        VariantType::Dictionary => {
            let items = node->Sequence_0;
            let results = decoding_each_entry(items);
            let pairs = collect(results)->Ok_0;
            let entries = from_pairs(pairs);
            lemma_collect_values(results);
            lemma_from_pairs_distinct(pairs);
            assert forall|i: int| 0 <= i < entries.len() implies well_formed(
                (#[trigger] entries[i]).0,
            ) && well_formed(entries[i].1) by {
                lemma_from_pairs_members(pairs, i);
                let j = choose|j: int| 0 <= j < pairs.len() && #[trigger] pairs[j] == entries[i];
                assert(results[j] == Ok::<(Value, Value), Failure>(pairs[j]));
                lemma_entry_well_formed(items[j]);
            }
        },
        VariantType::VariantArray => {
            let items = node->Sequence_0;
            let results = decoding_each(items);
            let values = collect(results)->Ok_0;
            lemma_collect_values(results);
            assert forall|i: int| 0 <= i < values.len() implies well_formed(
                #[trigger] values[i],
            ) by {
                assert(results[i] == Ok::<Value, Failure>(values[i]));
                lemma_decoded_well_formed(items[i]);
            }
        },
        _ => {},
    }
}

/// The key and the value that decode from an entry are well formed.
pub proof fn lemma_entry_well_formed(node: Node)
    requires
        decoding_entry(node) is Ok,
    ensures
        well_formed(decoding_entry(node)->Ok_0.0),
        well_formed(decoding_entry(node)->Ok_0.1),
    decreases node, 0nat,
{
    let fields = node->fields;
    lemma_decoded_well_formed(fields[0].1);
    lemma_decoded_well_formed(fields[1].1);
}

/// What decodes from a tagged value is well formed: no association in it
/// has two entries with equal keys.
pub proof fn lemma_decoded_well_formed(node: Node)
    requires
        decoding(node) is Ok,
    ensures
        well_formed(decoding(node)->Ok_0),
    decreases node, 0nat,
{
    let tag = node->tag;
    let payload = node->payload;
    assert(decoding(node) == decoding_tagged(tag, *payload));
    lemma_payload_well_formed(tag.resolve()->0, *payload);
}

/// Last write wins: where the entries of a sequence decode to the given
/// pairs, the association that decodes from the sequence gives each key
/// the value of the last pair that has it, and nothing to a key that no
/// pair has.
pub proof fn lemma_decoded_last_write_wins(items: Seq<Node>, key: Value)
    requires
        collect(decoding_each_entry(items)) is Ok,
    ensures
        decoding_payload(VariantType::Dictionary, Node::Sequence(items)) is Ok,
        decoding_payload(VariantType::Dictionary, Node::Sequence(items))->Ok_0 is Dictionary,
        lookup(
            decoding_payload(VariantType::Dictionary, Node::Sequence(items))->Ok_0->Dictionary_0,
            key,
        ) == last_value(collect(decoding_each_entry(items))->Ok_0, key),
{
    lemma_last_write_wins(collect(decoding_each_entry(items))->Ok_0, key);
}

/// What is left of a value after a round trip is well formed, and nothing
/// more is lost by a second round trip.
pub proof fn lemma_restored_well_formed(value: Value)
    ensures
        well_formed(restored(value)),
        without_identity(restored(value)),
        restored(restored(value)) == restored(value),
    decreases value,
{
    match value {
        Value::Dictionary(entries) => {
            let pairs = restored_entries(entries);
            let built = from_pairs(pairs);
            lemma_from_pairs_distinct(pairs);
            assert forall|i: int| 0 <= i < built.len() implies well_formed(
                (#[trigger] built[i]).0,
            ) && well_formed(built[i].1) && without_identity(built[i].0) && without_identity(
                built[i].1,
            ) by {
                lemma_from_pairs_members(pairs, i);
                let j = choose|j: int| 0 <= j < pairs.len() && #[trigger] pairs[j] == built[i];
                Value::lemma_entry_smaller(entries, j);
                lemma_restored_well_formed(entries[j].0);
                lemma_restored_well_formed(entries[j].1);
                assert(pairs[j] == (restored(entries[j].0), restored(entries[j].1)));
            }
            assert(restored(value) == Value::Dictionary(built));
            assert(well_formed(Value::Dictionary(built)));
            assert(without_identity(Value::Dictionary(built)));
            lemma_restored_same(restored(value));
        },
        Value::VariantArray(items) => {
            assert forall|i: int| 0 <= i < items.len() implies well_formed(
                #[trigger] restored_items(items)[i],
            ) && without_identity(restored_items(items)[i]) by {
                Value::lemma_item_smaller(items, i);
                lemma_restored_well_formed(items[i]);
            }
            assert(restored(value) == Value::VariantArray(restored_items(items)));
            assert(well_formed(Value::VariantArray(restored_items(items))));
            assert(without_identity(Value::VariantArray(restored_items(items))));
            lemma_restored_same(restored(value));
        },
        _ => {},
    }
}

/// Every form of a kind's tag resolves to the kind.
pub proof fn lemma_carried_kind_resolves(kind: VariantType, read: Tag)
    requires
        carries_kind(kind, read),
    ensures
        read.resolve() == Some(kind),
{
    kind.lemma_discriminant_bijection();
}

/// The payload of a value that is no collection and no association holds
/// no tagged value.
proof fn lemma_payload_plain(value: Value)
    requires
        !(value is Dictionary),
        !(value is VariantArray),
    ensures
        tagless(payload(value)),
        names_known(payload(value)),
{
    match value {
        Value::Bool(v) => {
            v.lemma_plain();
        },
        Value::I64(v) => {
            v.lemma_plain();
        },
        Value::F64(v) => {
            v.lemma_plain();
        },
        Value::Vector2(v) => {
            v.lemma_plain();
        },
        Value::Rect2(v) => {
            v.lemma_plain();
        },
        Value::Vector3(v) => {
            v.lemma_plain();
        },
        Value::Transform2D(v) => {
            v.lemma_plain();
        },
        Value::Plane(v) => {
            v.lemma_plain();
        },
        Value::Quat(v) => {
            v.lemma_plain();
        },
        Value::Aabb(v) => {
            v.lemma_plain();
        },
        Value::Basis(v) => {
            v.lemma_plain();
        },
        Value::Transform(v) => {
            v.lemma_plain();
        },
        Value::Color(v) => {
            v.lemma_plain();
        },
        Value::ByteArray(v) => {
            lemma_seq_plain::<u8>(v);
        },
        Value::Int32Array(v) => {
            lemma_seq_plain::<i32>(v);
        },
        Value::Float32Array(v) => {
            lemma_seq_plain::<Single>(v);
        },
        Value::Vector2Array(v) => {
            lemma_seq_plain::<Vector2>(v);
        },
        Value::Vector3Array(v) => {
            lemma_seq_plain::<Vector3>(v);
        },
        Value::ColorArray(v) => {
            lemma_seq_plain::<Color>(v);
        },
        Value::StringArray(v) => {
            let nodes = texts_node(v)->Sequence_0;
            assert forall|i: int| 0 <= i < nodes.len() implies tagless(#[trigger] nodes[i])
                && names_known(nodes[i]) by {}
        },
        Value::NodePath(v) => {
            assert(tagless(Node::Text(v)));
            assert(names_known(Node::Text(v)));
        },
        _ => {},
    }
}

/// What a format presents of an encoded entry decodes to the pair of the
/// restored key and value, where that holds of the key and of the value.
proof fn lemma_entry_through_format(key: Value, value: Value, read: Node)
    requires
        presents(entry_node(encoding(key), encoding(value)), read),
        forall|node: Node|
            presents(encoding(key), node) ==> #[trigger] decoding(node) == Ok::<Value, Failure>(
                restored(key),
            ),
        forall|node: Node|
            presents(encoding(value), node) ==> #[trigger] decoding(node) == Ok::<Value, Failure>(
                restored(value),
            ),
    ensures
        decoding_entry(read) == Ok::<(Value, Value), Failure>((restored(key), restored(value))),
{
    let written = entry_node(encoding(key), encoding(value));
    let fields = written->fields;
    let other = read->fields;
    assert(other[0].0 == fields[0].0 && presents(fields[0].1, other[0].1));
    assert(other[1].0 == fields[1].0 && presents(fields[1].1, other[1].1));
    assert(decoding(other[0].1) == Ok::<Value, Failure>(restored(key)));
    assert(decoding(other[1].1) == Ok::<Value, Failure>(restored(value)));
}

/// Round trip through a format: whichever form a format gives to each tag
/// (the id, the name or the bytes of the name), what it presents of an
/// encoded value decodes to the value as `restored` describes it.
pub proof fn lemma_round_trip_through_format(value: Value, read: Node)
    requires
        presents(encoding(value), read),
    ensures
        decoding(read) == Ok::<Value, Failure>(restored(value)),
    decreases value,
{
    let kind = value.kind();
    let tag = read->tag;
    let other = *read->payload;
    lemma_carried_kind_resolves(kind, tag);
    assert(decoding(read) == decoding_payload(kind, other));
    assert(presents(payload(value), other));
    match value {
        Value::Dictionary(entries) => {
            let nodes = payload(value)->Sequence_0;
            let nodes2 = other->Sequence_0;
            let results = decoding_each_entry(nodes2);
            assert forall|i: int| 0 <= i < results.len() implies (#[trigger] results[i]) == Ok::<
                (Value, Value),
                Failure,
            >(restored_entries(entries)[i]) by {
                Value::lemma_entry_smaller(entries, i);
                assert(nodes[i] == entry_node(encoding(entries[i].0), encoding(entries[i].1)));
                assert(presents(nodes[i], nodes2[i]));
                assert forall|node: Node| presents(encoding(entries[i].0), node) implies #[trigger] decoding(
                    node,
                ) == Ok::<Value, Failure>(restored(entries[i].0)) by {
                    lemma_round_trip_through_format(entries[i].0, node);
                }
                assert forall|node: Node| presents(encoding(entries[i].1), node) implies #[trigger] decoding(
                    node,
                ) == Ok::<Value, Failure>(restored(entries[i].1)) by {
                    lemma_round_trip_through_format(entries[i].1, node);
                }
                lemma_entry_through_format(entries[i].0, entries[i].1, nodes2[i]);
            }
            lemma_collect_ok(results);
            assert(Seq::new(results.len(), |i: int| results[i]->Ok_0) =~= restored_entries(
                entries,
            ));
        },
        Value::VariantArray(items) => {
            let nodes = payload(value)->Sequence_0;
            let nodes2 = other->Sequence_0;
            let results = decoding_each(nodes2);
            assert forall|i: int| 0 <= i < results.len() implies (#[trigger] results[i]) == Ok::<
                Value,
                Failure,
            >(restored_items(items)[i]) by {
                Value::lemma_item_smaller(items, i);
                assert(nodes[i] == encoding(items[i]));
                assert(presents(nodes[i], nodes2[i]));
                lemma_round_trip_through_format(items[i], nodes2[i]);
            }
            lemma_collect_ok(results);
            assert(Seq::new(results.len(), |i: int| results[i]->Ok_0) =~= restored_items(items));
        },
        _ => {
            lemma_payload_plain(value);
            lemma_presents_tagless(payload(value), other);
            lemma_round_trip(value);
        },
    }
}

/// A format may present an encoded value as it was written.
pub proof fn lemma_presents_itself(value: Value)
    ensures
        presents(encoding(value), encoding(value)),
    decreases value,
{
    let node = payload(value);
    match value {
        Value::Dictionary(entries) => {
            let nodes = node->Sequence_0;
            assert forall|i: int| 0 <= i < nodes.len() implies presents(
                nodes[i],
                #[trigger] nodes[i],
            ) by {
                Value::lemma_entry_smaller(entries, i);
                lemma_presents_itself(entries[i].0);
                lemma_presents_itself(entries[i].1);
                let fields = nodes[i]->fields;
                assert(nodes[i] == entry_node(encoding(entries[i].0), encoding(entries[i].1)));
                assert forall|j: int| 0 <= j < fields.len() implies presents(
                    fields[j].1,
                    (#[trigger] fields[j]).1,
                ) by {
                    if j == 0 {
                        assert(fields[j].1 == encoding(entries[i].0));
                    } else {
                        assert(fields[j].1 == encoding(entries[i].1));
                    }
                }
                assert(presents(nodes[i], nodes[i]));
            }
            assert(presents(node, node));
        },
        Value::VariantArray(items) => {
            let nodes = node->Sequence_0;
            assert forall|i: int| 0 <= i < nodes.len() implies presents(
                nodes[i],
                #[trigger] nodes[i],
            ) by {
                Value::lemma_item_smaller(items, i);
                lemma_presents_itself(items[i]);
                assert(nodes[i] == encoding(items[i]));
            }
            assert(presents(node, node));
        },
        _ => {
            lemma_payload_plain(value);
            lemma_tagless_presents_itself(node);
        },
    }
    let whole = encoding(value);
    assert(whole->tag == Tag::Kind(value.kind()));
    assert(*whole->payload == node);
    assert(carries_kind(value.kind(), whole->tag));
}

/// A value without tags is presented by itself.
pub proof fn lemma_tagless_presents_itself(node: Node)
    requires
        tagless(node),
    ensures
        presents(node, node),
    decreases node,
{
    match node {
        Node::Sequence(items) => {
            assert forall|i: int| 0 <= i < items.len() implies presents(
                items[i],
                #[trigger] items[i],
            ) by {
                lemma_tagless_presents_itself(items[i]);
            }
        },
        Node::Tuple(items) => {
            assert forall|i: int| 0 <= i < items.len() implies presents(
                items[i],
                #[trigger] items[i],
            ) by {
                lemma_tagless_presents_itself(items[i]);
            }
        },
        Node::Record { name, fields } => {
            assert forall|i: int| 0 <= i < fields.len() implies presents(
                fields[i].1,
                (#[trigger] fields[i]).1,
            ) by {
                lemma_tagless_presents_itself(fields[i].1);
            }
        },
        Node::Newtype { name, value } => {
            lemma_tagless_presents_itself(*value);
        },
        _ => {},
    }
}

/// Every record, field and wrapper of an encoded value has one of the
/// encoder's names, and every tag in it is a kind: a format driver finds a
/// constant for each name that it is handed.
pub proof fn lemma_encoding_names_known(value: Value)
    ensures
        names_known(encoding(value)),
    decreases value,
{
    let node = payload(value);
    match value {
        Value::Dictionary(entries) => {
            let nodes = node->Sequence_0;
            assert forall|i: int| 0 <= i < nodes.len() implies names_known(#[trigger] nodes[i]) by {
                Value::lemma_entry_smaller(entries, i);
                lemma_encoding_names_known(entries[i].0);
                lemma_encoding_names_known(entries[i].1);
                let fields = nodes[i]->fields;
                assert(nodes[i] == entry_node(encoding(entries[i].0), encoding(entries[i].1)));
                assert forall|j: int| 0 <= j < fields.len() implies encoder_name(
                    (#[trigger] fields[j]).0,
                ) && names_known(fields[j].1) by {
                    if j == 0 {
                        assert(fields[j].1 == encoding(entries[i].0));
                    } else {
                        assert(fields[j].1 == encoding(entries[i].1));
                    }
                }
            }
            assert(names_known(node));
        },
        Value::VariantArray(items) => {
            let nodes = node->Sequence_0;
            assert forall|i: int| 0 <= i < nodes.len() implies names_known(#[trigger] nodes[i]) by {
                Value::lemma_item_smaller(items, i);
                lemma_encoding_names_known(items[i]);
                assert(nodes[i] == encoding(items[i]));
            }
            assert(names_known(node));
        },
        _ => {
            lemma_payload_plain(value);
        },
    }
    let whole = encoding(value);
    assert(whole->tag == Tag::Kind(value.kind()));
    assert(*whole->payload == node);
}

} // verus!
