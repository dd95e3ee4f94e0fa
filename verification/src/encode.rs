//! The structured encoder: each dispatch value becomes a tagged structured
//! value, its kind tag and one payload.

use crate::kind::VariantType;
use crate::laws::lemma_encoding_names_known;
use crate::payload::{encode_seq, names_known, seq_node, Payload};
use crate::structured::{Discriminant, Node, Structured, Tag};
use crate::variant::{Dictionary, Value, VariantArray, VariantDispatch};
use vstd::prelude::*;

verus! {

/// A tagged value: the kind, as a tag of which a format writes the id or the
/// name, and the payload.
pub open spec fn tagged(kind: VariantType, payload: Node) -> Node {
    Node::Variant { tag: Tag::Kind(kind), payload: Box::new(payload) }
}

/// The sequence of the texts.
pub open spec fn texts_node(items: Seq<Seq<char>>) -> Node {
    Node::Sequence(Seq::new(items.len(), |i: int| Node::Text(items[i])))
}

/// One entry of an association: a record of an encoded key and an encoded
/// value.
pub open spec fn entry_node(key: Node, value: Node) -> Node {
    Node::Record { name: "DictionaryDispatchEntry"@, fields: seq![("key"@, key), ("value"@, value)] }
}

/// The path of a node, wrapped under its own name.
pub open spec fn path_node(path: Seq<char>) -> Node {
    Node::Newtype { name: "NodePath"@, value: Box::new(Node::Text(path)) }
}

/// The payload that encodes what a value holds.
///
/// A value without data has the unit marker. An opaque handle has a
/// placeholder, whatever it refers to: the unit marker for a resource id,
/// the absent marker for an object reference. An association is the
/// sequence of its entries in order, not a keyed map. A collection is the
/// sequence of its items, each encoded with its own tag.
pub open spec fn payload(value: Value) -> Node
    decreases value,
{
    match value {
        Value::Nil => Node::Unit,
        Value::Bool(v) => v.node(),
        Value::I64(v) => v.node(),
        Value::F64(v) => v.node(),
        Value::GodotString(v) => Node::Text(v),
        Value::Vector2(v) => v.node(),
        Value::Rect2(v) => v.node(),
        Value::Vector3(v) => v.node(),
        Value::Transform2D(v) => v.node(),
        Value::Plane(v) => v.node(),
        Value::Quat(v) => v.node(),
        Value::Aabb(v) => v.node(),
        Value::Basis(v) => v.node(),
        Value::Transform(v) => v.node(),
        Value::Color(v) => v.node(),
        Value::NodePath(v) => path_node(v),
        Value::Rid(_) => Node::Unit,
        Value::Object(_) => Node::Absent,
        Value::Dictionary(entries) => Node::Sequence(
            Seq::new(
                entries.len(),
                |i: int|
                    if 0 <= i < entries.len() {
                        entry_node(
                            tagged(entries[i].0.kind(), payload(entries[i].0)),
                            tagged(entries[i].1.kind(), payload(entries[i].1)),
                        )
                    } else {
                        Node::Unit
                    },
            ),
        ),
        Value::VariantArray(items) => Node::Sequence(
            Seq::new(
                items.len(),
                |i: int|
                    if 0 <= i < items.len() {
                        tagged(items[i].kind(), payload(items[i]))
                    } else {
                        Node::Unit
                    },
            ),
        ),
        Value::ByteArray(v) => seq_node(v),
        Value::Int32Array(v) => seq_node(v),
        Value::Float32Array(v) => seq_node(v),
        Value::StringArray(v) => texts_node(v),
        Value::Vector2Array(v) => seq_node(v),
        Value::Vector3Array(v) => seq_node(v),
        Value::ColorArray(v) => seq_node(v),
    }
}

/// The structured value that encodes a value: its kind tag and its payload.
pub open spec fn encoding(value: Value) -> Node {
    tagged(value.kind(), payload(value))
}

/// Encodes the strings as a sequence of texts.
pub fn encode_texts(items: &Vec<String>) -> (r: Structured)
    ensures
        r@ == texts_node(crate::seqs::texts(items@)),
{
    let mut nodes: Vec<Structured> = Vec::new();
    let mut i: usize = 0;
    while i < items.len()
        invariant
            0 <= i <= items.len(),
            nodes.len() == i,
            forall|j: int| 0 <= j < i ==> (#[trigger] nodes@[j])@ == Node::Text(items@[j]@),
        decreases items.len() - i,
    {
        nodes.push(Structured::Text(items[i].clone()));
        i += 1;
    }
    let r = Structured::Sequence(nodes);
    assert(r@->Sequence_0 =~= texts_node(crate::seqs::texts(items@))->Sequence_0);
    r
}

/// Encodes the entries of an association, in its own order, as a sequence
/// of key and value records.
pub fn encode_dictionary(dictionary: &Dictionary) -> (r: Structured)
    ensures
        r@ == payload(Value::Dictionary(dictionary@)),
    decreases Value::Dictionary(dictionary@), 0nat,
{
    let mut nodes: Vec<Structured> = Vec::new();
    let mut i: usize = 0;
    while i < dictionary.len()
        invariant
            0 <= i <= dictionary@.len(),
            nodes.len() == i,
            forall|j: int|
                0 <= j < i ==> (#[trigger] nodes@[j])@ == entry_node(
                    encoding(dictionary@[j].0),
                    encoding(dictionary@[j].1),
                ),
        decreases dictionary@.len() - i,
    {
        proof {
            Value::lemma_entry_smaller(dictionary@, i as int);
        }
        let key = encode(&dictionary.key_at(i).dispatch());
        let value = encode(&dictionary.value_at(i).dispatch());
        let mut fields: Vec<(String, Structured)> = Vec::new();
        fields.push(("key".to_owned(), key));
        fields.push(("value".to_owned(), value));
        let entry = Structured::Record { name: "DictionaryDispatchEntry".to_owned(), fields };
        assert(entry@->fields =~= entry_node(
            encoding(dictionary@[i as int].0),
            encoding(dictionary@[i as int].1),
        )->fields);
        nodes.push(entry);
        i += 1;
    }
    let r = Structured::Sequence(nodes);
    assert(r@->Sequence_0 =~= payload(Value::Dictionary(dictionary@))->Sequence_0);
    r
}

/// Encodes the items of a collection, each by its own projection.
pub fn encode_array(array: &VariantArray) -> (r: Structured)
    ensures
        r@ == payload(Value::VariantArray(array@)),
    decreases Value::VariantArray(array@), 0nat,
{
    let mut nodes: Vec<Structured> = Vec::new();
    let mut i: usize = 0;
    while i < array.len()
        invariant
            0 <= i <= array@.len(),
            nodes.len() == i,
            forall|j: int| 0 <= j < i ==> (#[trigger] nodes@[j])@ == encoding(array@[j]),
        decreases array@.len() - i,
    {
        proof {
            Value::lemma_item_smaller(array@, i as int);
        }
        nodes.push(encode(&array.get(i).dispatch()));
        i += 1;
    }
    let r = Structured::Sequence(nodes);
    assert(r@->Sequence_0 =~= payload(Value::VariantArray(array@))->Sequence_0);
    r
}

/// Encodes the path of a node, wrapped under its own name.
pub fn encode_path(path: &String) -> (r: Structured)
    ensures
        r@ == path_node(path@),
{
    let text = Structured::Text(path.clone());
    assert(text@ == Node::Text(path@));
    Structured::Newtype { name: "NodePath".to_owned(), value: Box::new(text) }
}

/// Encodes what a dispatch value holds: its payload, without the tag.
pub fn encode_payload(dispatch: &VariantDispatch) -> (r: Structured)
    ensures
        r@ == payload(dispatch@),
    decreases dispatch@, 1nat,
{
    match dispatch {
        VariantDispatch::Nil => Structured::Unit,
        VariantDispatch::Bool(v) => v.encode(),
        VariantDispatch::I64(v) => v.encode(),
        VariantDispatch::F64(v) => v.encode(),
        VariantDispatch::GodotString(v) => Structured::Text(v.clone()),
        VariantDispatch::Vector2(v) => v.encode(),
        VariantDispatch::Rect2(v) => v.encode(),
        VariantDispatch::Vector3(v) => v.encode(),
        VariantDispatch::Transform2D(v) => v.encode(),
        VariantDispatch::Plane(v) => v.encode(),
        VariantDispatch::Quat(v) => v.encode(),
        VariantDispatch::Aabb(v) => v.encode(),
        VariantDispatch::Basis(v) => v.encode(),
        VariantDispatch::Transform(v) => v.encode(),
        VariantDispatch::Color(v) => v.encode(),
        VariantDispatch::NodePath(v) => encode_path(v),
        VariantDispatch::Rid(_) => Structured::Unit,
        VariantDispatch::Object(_) => Structured::Absent,
        VariantDispatch::Dictionary(v) => encode_dictionary(v),
        VariantDispatch::VariantArray(v) => encode_array(v),
        VariantDispatch::ByteArray(v) => encode_seq(v),
        VariantDispatch::Int32Array(v) => encode_seq(v),
        VariantDispatch::Float32Array(v) => encode_seq(v),
        VariantDispatch::StringArray(v) => encode_texts(v),
        VariantDispatch::Vector2Array(v) => encode_seq(v),
        VariantDispatch::Vector3Array(v) => encode_seq(v),
        VariantDispatch::ColorArray(v) => encode_seq(v),
    }
}

/// Encodes a dispatch value as a tagged structured value: a unit-like value
/// for the kind without data, and for every other kind a value that carries
/// exactly one payload under the kind's tag.
pub fn encode(dispatch: &VariantDispatch) -> (r: Structured)
    ensures
        r@ == encoding(dispatch@),
        names_known(r@),
    decreases dispatch@, 2nat,
{
    proof {
        lemma_encoding_names_known(dispatch@);
    }
    let payload = encode_payload(dispatch);
    Structured::Variant { tag: Discriminant::Kind(dispatch.kind()), payload: Box::new(payload) }
}

} // verus!
