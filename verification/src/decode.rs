//! The tag-directed decoder: given a kind tag and a payload, it rebuilds the
//! dispatch value, and checks the payload's shape against the kind.

use crate::association::from_pairs;
use crate::error::{DecodeError, Failure};
use crate::geometry::{
    Aabb, Basis, Color, Double, ObjectRef, Plane, Quat, Rect2, Rid, Single, Transform,
    Transform2D, Vector2, Vector3,
};
use crate::kind::VariantType;
use crate::laws::lemma_payload_well_formed;
use crate::payload::{decode_seq, name_error, parse_seq, shape_error, wrong_shape, Payload};
use crate::seqs::{collect, lemma_collect_prefix_err, texts};
use crate::structured::{Discriminant, Node, Shape, Structured, Tag};
use crate::text::text_eq;
use crate::variant::{well_formed, Dictionary, Value, Variant, VariantArray, VariantDispatch};
use vstd::prelude::*;

verus! {

/// The text that a structured value holds, or why it holds none.
pub open spec fn parse_text(node: Node) -> Result<Seq<char>, Failure> {
    match node {
        Node::Text(text) => Ok(text),
        _ => Err(wrong_shape(Shape::Text, node)),
    }
}

/// The texts that a sequence holds, or the failure of the first item that
/// is no text.
pub open spec fn parse_texts(node: Node) -> Result<Seq<Seq<char>>, Failure> {
    match node {
        Node::Sequence(items) => collect(Seq::new(items.len(), |i: int| parse_text(items[i]))),
        _ => Err(wrong_shape(Shape::Sequence, node)),
    }
}

/// The path that a wrapper of the name `NodePath` holds, or why the value is
/// no such wrapper.
pub open spec fn parse_path(node: Node) -> Result<Seq<char>, Failure> {
    match node {
        Node::Newtype { name, value } => if name != "NodePath"@ {
            Err(Failure::Name { expected: "NodePath"@, found: name })
        } else {
            parse_text(*value)
        },
        _ => Err(wrong_shape(Shape::Newtype, node)),
    }
}

/// What a tagged structured value decodes to: the value of the kind that
/// its tag resolves to, rebuilt from its payload; or why it decodes to
/// none.
pub open spec fn decoding(node: Node) -> Result<Value, Failure>
    decreases node, 0nat,
{
    match node {
        Node::Variant { tag, payload } => decoding_tagged(tag, *payload),
        _ => Err(wrong_shape(Shape::Variant, node)),
    }
}

/// What a kind tag and a payload decode to. A tag that resolves to no kind
/// is a failure that holds the tag.
pub open spec fn decoding_tagged(tag: Tag, payload: Node) -> Result<Value, Failure>
    decreases payload, 1nat,
{
    match tag.resolve() {
        None => Err(Failure::UnknownDiscriminant(tag)),
        Some(kind) => decoding_payload(kind, payload),
    }
}

/// The key and the value that one entry of an association decodes to.
pub open spec fn decoding_entry(node: Node) -> Result<(Value, Value), Failure>
    decreases node, 0nat,
{
    match node {
        Node::Record { name, fields } => if fields.len() != 2 {
            Err(wrong_shape(Shape::Record { len: 2 }, node))
        } else if name != "DictionaryDispatchEntry"@ {
            Err(Failure::Name { expected: "DictionaryDispatchEntry"@, found: name })
        } else if fields[0].0 != "key"@ {
            Err(Failure::Name { expected: "key"@, found: fields[0].0 })
        } else {
            match decoding(fields[0].1) {
                Err(e) => Err(e),
                Ok(key) => if fields[1].0 != "value"@ {
                    Err(Failure::Name { expected: "value"@, found: fields[1].0 })
                } else {
                    match decoding(fields[1].1) {
                        Err(e) => Err(e),
                        Ok(value) => Ok((key, value)),
                    }
                },
            }
        },
        _ => Err(wrong_shape(Shape::Record { len: 2 }, node)),
    }
}

/// What each item of a sequence of tagged values decodes to.
pub open spec fn decoding_each(items: Seq<Node>) -> Seq<Result<Value, Failure>>
    decreases items, 1nat,
{
    Seq::new(
        items.len(),
        |i: int|
            if 0 <= i < items.len() {
                decoding(items[i])
            } else {
                Ok(Value::Nil)
            },
    )
}

/// What each item of a sequence of entries decodes to.
pub open spec fn decoding_each_entry(items: Seq<Node>) -> Seq<Result<(Value, Value), Failure>>
    decreases items, 1nat,
{
    Seq::new(
        items.len(),
        |i: int|
            if 0 <= i < items.len() {
                decoding_entry(items[i])
            } else {
                Ok((Value::Nil, Value::Nil))
            },
    )
}

/// What a payload decodes to as a value of the given kind.
///
/// The kind without data takes the unit marker and nothing else. An opaque
/// handle decodes to the empty handle of its kind whatever the payload
/// holds, and never fails. An association is built by inserting the
/// decoded entries in sequence order into an empty one, so that a later
/// entry overwrites an earlier one with an equal key. In a sequence the
/// first item that fails decides the failure.
pub open spec fn decoding_payload(kind: VariantType, node: Node) -> Result<Value, Failure>
    decreases node, 0nat,
{
    match kind {
        VariantType::Nil => match node {
            Node::Unit => Ok(Value::Nil),
            _ => Err(wrong_shape(Shape::Unit, node)),
        },
        VariantType::Bool => match bool::parse(node) {
            Ok(v) => Ok(Value::Bool(v)),
            Err(e) => Err(e),
        },
        VariantType::I64 => match i64::parse(node) {
            Ok(v) => Ok(Value::I64(v)),
            Err(e) => Err(e),
        },
        VariantType::F64 => match Double::parse(node) {
            Ok(v) => Ok(Value::F64(v)),
            Err(e) => Err(e),
        },
        VariantType::Vector2 => match Vector2::parse(node) {
            Ok(v) => Ok(Value::Vector2(v)),
            Err(e) => Err(e),
        },
        VariantType::Rect2 => match Rect2::parse(node) {
            Ok(v) => Ok(Value::Rect2(v)),
            Err(e) => Err(e),
        },
        VariantType::Vector3 => match Vector3::parse(node) {
            Ok(v) => Ok(Value::Vector3(v)),
            Err(e) => Err(e),
        },
        VariantType::Transform2D => match Transform2D::parse(node) {
            Ok(v) => Ok(Value::Transform2D(v)),
            Err(e) => Err(e),
        },
        VariantType::Plane => match Plane::parse(node) {
            Ok(v) => Ok(Value::Plane(v)),
            Err(e) => Err(e),
        },
        VariantType::Quat => match Quat::parse(node) {
            Ok(v) => Ok(Value::Quat(v)),
            Err(e) => Err(e),
        },
        VariantType::Aabb => match Aabb::parse(node) {
            Ok(v) => Ok(Value::Aabb(v)),
            Err(e) => Err(e),
        },
        VariantType::Basis => match Basis::parse(node) {
            Ok(v) => Ok(Value::Basis(v)),
            Err(e) => Err(e),
        },
        VariantType::Transform => match Transform::parse(node) {
            Ok(v) => Ok(Value::Transform(v)),
            Err(e) => Err(e),
        },
        VariantType::Color => match Color::parse(node) {
            Ok(v) => Ok(Value::Color(v)),
            Err(e) => Err(e),
        },
        VariantType::GodotString => match parse_text(node) {
            Ok(v) => Ok(Value::GodotString(v)),
            Err(e) => Err(e),
        },
        VariantType::NodePath => match parse_path(node) {
            Ok(v) => Ok(Value::NodePath(v)),
            Err(e) => Err(e),
        },
        VariantType::Rid => Ok(Value::Rid(Rid::empty())),
        VariantType::Object => Ok(Value::Object(ObjectRef::empty())),
        VariantType::Dictionary => match node {
            Node::Sequence(items) => match collect(decoding_each_entry(items)) {
                Ok(pairs) => Ok(Value::Dictionary(from_pairs(pairs))),
                Err(e) => Err(e),
            },
            _ => Err(wrong_shape(Shape::Sequence, node)),
        },
        VariantType::VariantArray => match node {
            Node::Sequence(items) => match collect(decoding_each(items)) {
                Ok(values) => Ok(Value::VariantArray(values)),
                Err(e) => Err(e),
            },
            _ => Err(wrong_shape(Shape::Sequence, node)),
        },
        VariantType::ByteArray => match parse_seq::<u8>(node) {
            Ok(v) => Ok(Value::ByteArray(v)),
            Err(e) => Err(e),
        },
        VariantType::Int32Array => match parse_seq::<i32>(node) {
            Ok(v) => Ok(Value::Int32Array(v)),
            Err(e) => Err(e),
        },
        VariantType::Float32Array => match parse_seq::<Single>(node) {
            Ok(v) => Ok(Value::Float32Array(v)),
            Err(e) => Err(e),
        },
        VariantType::Vector2Array => match parse_seq::<Vector2>(node) {
            Ok(v) => Ok(Value::Vector2Array(v)),
            Err(e) => Err(e),
        },
        VariantType::Vector3Array => match parse_seq::<Vector3>(node) {
            Ok(v) => Ok(Value::Vector3Array(v)),
            Err(e) => Err(e),
        },
        VariantType::ColorArray => match parse_seq::<Color>(node) {
            Ok(v) => Ok(Value::ColorArray(v)),
            Err(e) => Err(e),
        },
        VariantType::StringArray => match parse_texts(node) {
            Ok(v) => Ok(Value::StringArray(v)),
            Err(e) => Err(e),
        },
    }
}

/// Resolves a numeric id to its kind. An id that no kind has is an error
/// that holds the id.
pub fn resolve_id(value: u64) -> (r: Result<VariantType, DecodeError>)
    ensures
        match r {
            Ok(kind) => VariantType::of_id(value as int) == Some(kind),
            Err(error) => VariantType::of_id(value as int) is None && error@
                == Failure::UnknownDiscriminant(Tag::Id(value)),
        },
{
    match VariantType::from_id(value) {
        Some(kind) => Ok(kind),
        None => Err(DecodeError::UnknownDiscriminant(Discriminant::Id(value))),
    }
}

/// Resolves a name to its kind. A name that no kind has is an error that
/// holds the name.
pub fn resolve_name(value: &str) -> (r: Result<VariantType, DecodeError>)
    ensures
        match r {
            Ok(kind) => VariantType::of_name(value@) == Some(kind),
            Err(error) => VariantType::of_name(value@) is None && error@
                == Failure::UnknownDiscriminant(Tag::Name(value@)),
        },
{
    match VariantType::from_name(value) {
        Some(kind) => Ok(kind),
        None => Err(DecodeError::UnknownDiscriminant(Discriminant::Name(value.to_owned()))),
    }
}

/// Resolves the bytes of a name to its kind. Bytes that are the name of no
/// kind are an error that holds them.
pub fn resolve_bytes(value: &[u8]) -> (r: Result<VariantType, DecodeError>)
    ensures
        match r {
            Ok(kind) => VariantType::of_bytes(value@) == Some(kind),
            Err(error) => VariantType::of_bytes(value@) is None && error@
                == Failure::UnknownDiscriminant(Tag::Bytes(value@)),
        },
{
    match VariantType::from_bytes(value) {
        Some(kind) => Ok(kind),
        None => Err(
            DecodeError::UnknownDiscriminant(Discriminant::Bytes(vstd::slice::slice_to_vec(value))),
        ),
    }
}

/// Resolves a tag, in whichever form it comes, to its kind. A tag that
/// names no kind is an error that holds the tag.
pub fn resolve(tag: &Discriminant) -> (r: Result<VariantType, DecodeError>)
    ensures
        match r {
            Ok(kind) => tag@.resolve() == Some(kind),
            Err(error) => tag@.resolve() is None && error@ == Failure::UnknownDiscriminant(tag@),
        },
{
    match tag.resolve() {
        Some(kind) => Ok(kind),
        None => Err(DecodeError::UnknownDiscriminant(tag.duplicate())),
    }
}

/// Decodes a text.
pub fn decode_text(node: &Structured) -> (r: Result<String, DecodeError>)
    ensures
        match r {
            Ok(text) => parse_text(node@) == Ok::<Seq<char>, Failure>(text@),
            Err(error) => parse_text(node@) == Err::<Seq<char>, Failure>(error@),
        },
{
    match node {
        Structured::Text(text) => Ok(text.clone()),
        _ => Err(shape_error(Shape::Text, node)),
    }
}

/// Decodes a sequence of texts.
pub fn decode_texts(node: &Structured) -> (r: Result<Vec<String>, DecodeError>)
    ensures
        match r {
            Ok(items) => parse_texts(node@) == Ok::<Seq<Seq<char>>, Failure>(texts(items@)),
            Err(error) => parse_texts(node@) == Err::<Seq<Seq<char>>, Failure>(error@),
        },
{
    match node {
        Structured::Sequence(nodes) => {
            let ghost results = Seq::new(
                node@->Sequence_0.len(),
                |i: int| parse_text(node@->Sequence_0[i]),
            );
            let mut items: Vec<String> = Vec::new();
            let mut i: usize = 0;
            assert(texts(items@) =~= Seq::<Seq<char>>::empty());
            while i < nodes.len()
                invariant
                    0 <= i <= nodes.len(),
                    node == Structured::Sequence(*nodes),
                    results == Seq::new(
                        node@->Sequence_0.len(),
                        |i: int| parse_text(node@->Sequence_0[i]),
                    ),
                    collect(results.take(i as int)) == Ok::<Seq<Seq<char>>, Failure>(
                        texts(items@),
                    ),
                decreases nodes.len() - i,
            {
                proof {
                    assert(results.take(i + 1).drop_last() =~= results.take(i as int));
                    assert(results.take(i + 1).last() == parse_text(nodes@[i as int]@));
                }
                match decode_text(&nodes[i]) {
                    Err(e) => {
                        proof {
                            lemma_collect_prefix_err(results, i + 1);
                        }
                        return Err(e);
                    },
                    Ok(item) => {
                        let ghost before = texts(items@);
                        items.push(item);
                        assert(texts(items@) =~= before.push(item@));
                    },
                }
                i += 1;
            }
            assert(results.take(nodes.len() as int) =~= results);
            Ok(items)
        },
        _ => Err(shape_error(Shape::Sequence, node)),
    }
}

/// Decodes the path of a node from its wrapper.
pub fn decode_path(node: &Structured) -> (r: Result<String, DecodeError>)
    ensures
        match r {
            Ok(path) => parse_path(node@) == Ok::<Seq<char>, Failure>(path@),
            Err(error) => parse_path(node@) == Err::<Seq<char>, Failure>(error@),
        },
{
    match node {
        Structured::Newtype { name, value } => {
            if !text_eq(name.as_str(), "NodePath") {
                Err(name_error("NodePath", name.as_str()))
            } else {
                decode_text(value)
            }
        },
        _ => Err(shape_error(Shape::Newtype, node)),
    }
}

/// Decodes one entry of an association: its key, then its value.
pub fn decode_entry(node: &Structured) -> (r: Result<(Variant, Variant), DecodeError>)
    ensures
        match r {
            Ok(pair) => decoding_entry(node@) == Ok::<(Value, Value), Failure>((pair.0@, pair.1@)),
            Err(error) => decoding_entry(node@) == Err::<(Value, Value), Failure>(error@),
        },
    decreases node, 0nat,
{
    match node {
        Structured::Record { name, fields } => {
            if fields.len() != 2 {
                return Err(shape_error(Shape::Record { len: 2 }, node));
            }
            if !text_eq(name.as_str(), "DictionaryDispatchEntry") {
                return Err(name_error("DictionaryDispatchEntry", name.as_str()));
            }
            if !text_eq(fields[0].0.as_str(), "key") {
                return Err(name_error("key", fields[0].0.as_str()));
            }
            let key = match decode(&fields[0].1) {
                Err(e) => {
                    return Err(e);
                },
                Ok(d) => Variant::from_dispatch(&d),
            };
            if !text_eq(fields[1].0.as_str(), "value") {
                return Err(name_error("value", fields[1].0.as_str()));
            }
            let value = match decode(&fields[1].1) {
                Err(e) => {
                    return Err(e);
                },
                Ok(d) => Variant::from_dispatch(&d),
            };
            Ok((key, value))
        },
        _ => Err(shape_error(Shape::Record { len: 2 }, node)),
    }
}

/// Decodes an association from a sequence of entries: each entry is
/// decoded and inserted, in sequence order, into a fresh association.
pub fn decode_dictionary(node: &Structured) -> (r: Result<Dictionary, DecodeError>)
    ensures
        match r {
            Ok(dictionary) => decoding_payload(VariantType::Dictionary, node@) == Ok::<
                Value,
                Failure,
            >(Value::Dictionary(dictionary@)),
            Err(error) => decoding_payload(VariantType::Dictionary, node@) == Err::<
                Value,
                Failure,
            >(error@),
        },
    decreases node, 1nat,
{
    match node {
        Structured::Sequence(nodes) => {
            let ghost results = decoding_each_entry(node@->Sequence_0);
            let ghost mut pairs: Seq<(Value, Value)> = Seq::empty();
            let mut dictionary = Dictionary::new();
            let mut i: usize = 0;
            while i < nodes.len()
                invariant
                    0 <= i <= nodes.len(),
                    node == Structured::Sequence(*nodes),
                    results == decoding_each_entry(node@->Sequence_0),
                    collect(results.take(i as int)) == Ok::<Seq<(Value, Value)>, Failure>(pairs),
                    dictionary@ == from_pairs(pairs),
                decreases nodes.len() - i,
            {
                proof {
                    assert(results.take(i + 1).drop_last() =~= results.take(i as int));
                    assert(results.take(i + 1).last() == decoding_entry(nodes@[i as int]@));
                }
                match decode_entry(&nodes[i]) {
                    Err(e) => {
                        proof {
                            lemma_collect_prefix_err(results, i + 1);
                        }
                        return Err(e);
                    },
                    Ok(pair) => {
                        proof {
                            let next = pairs.push((pair.0@, pair.1@));
                            assert(next.drop_last() =~= pairs);
                            pairs = next;
                        }
                        dictionary.insert(pair.0, pair.1);
                    },
                }
                i += 1;
            }
            assert(results.take(nodes.len() as int) =~= results);
            Ok(dictionary)
        },
        _ => Err(shape_error(Shape::Sequence, node)),
    }
}

/// Decodes a collection from a sequence of tagged values: each is decoded
/// and lifted into a dynamic value, in sequence order.
pub fn decode_array(node: &Structured) -> (r: Result<VariantArray, DecodeError>)
    ensures
        match r {
            Ok(array) => decoding_payload(VariantType::VariantArray, node@) == Ok::<
                Value,
                Failure,
            >(Value::VariantArray(array@)),
            Err(error) => decoding_payload(VariantType::VariantArray, node@) == Err::<
                Value,
                Failure,
            >(error@),
        },
    decreases node, 1nat,
{
    match node {
        Structured::Sequence(nodes) => {
            let ghost results = decoding_each(node@->Sequence_0);
            let mut array = VariantArray::new();
            let mut i: usize = 0;
            while i < nodes.len()
                invariant
                    0 <= i <= nodes.len(),
                    node == Structured::Sequence(*nodes),
                    results == decoding_each(node@->Sequence_0),
                    collect(results.take(i as int)) == Ok::<Seq<Value>, Failure>(array@),
                decreases nodes.len() - i,
            {
                proof {
                    assert(results.take(i + 1).drop_last() =~= results.take(i as int));
                    assert(results.take(i + 1).last() == decoding(nodes@[i as int]@));
                }
                match decode(&nodes[i]) {
                    Err(e) => {
                        proof {
                            lemma_collect_prefix_err(results, i + 1);
                        }
                        return Err(e);
                    },
                    Ok(item) => {
                        array.push(Variant::from_dispatch(&item));
                    },
                }
                i += 1;
            }
            assert(results.take(nodes.len() as int) =~= results);
            Ok(array)
        },
        _ => Err(shape_error(Shape::Sequence, node)),
    }
}

/// Decodes a payload as a value of the given kind.
pub fn decode_payload(kind: VariantType, payload: &Structured) -> (r: Result<
    VariantDispatch,
    DecodeError,
>)
    ensures
        match r {
            Ok(value) => decoding_payload(kind, payload@) == Ok::<Value, Failure>(value@)
                && well_formed(value@),
            Err(error) => decoding_payload(kind, payload@) == Err::<Value, Failure>(error@),
        },
    decreases payload, 2nat,
{
    proof {
        if decoding_payload(kind, payload@) is Ok {
            lemma_payload_well_formed(kind, payload@);
        }
    }
    match kind {
        VariantType::Nil => match payload {
            Structured::Unit => Ok(VariantDispatch::Nil),
            _ => Err(shape_error(Shape::Unit, payload)),
        },
        VariantType::Bool => match bool::decode(payload) {
            Ok(v) => Ok(VariantDispatch::Bool(v)),
            Err(e) => Err(e),
        },
        VariantType::I64 => match i64::decode(payload) {
            Ok(v) => Ok(VariantDispatch::I64(v)),
            Err(e) => Err(e),
        },
        VariantType::F64 => match Double::decode(payload) {
            Ok(v) => Ok(VariantDispatch::F64(v)),
            Err(e) => Err(e),
        },
        VariantType::Vector2 => match Vector2::decode(payload) {
            Ok(v) => Ok(VariantDispatch::Vector2(v)),
            Err(e) => Err(e),
        },
        VariantType::Rect2 => match Rect2::decode(payload) {
            Ok(v) => Ok(VariantDispatch::Rect2(v)),
            Err(e) => Err(e),
        },
        VariantType::Vector3 => match Vector3::decode(payload) {
            Ok(v) => Ok(VariantDispatch::Vector3(v)),
            Err(e) => Err(e),
        },
        VariantType::Transform2D => match Transform2D::decode(payload) {
            Ok(v) => Ok(VariantDispatch::Transform2D(v)),
            Err(e) => Err(e),
        },
        VariantType::Plane => match Plane::decode(payload) {
            Ok(v) => Ok(VariantDispatch::Plane(v)),
            Err(e) => Err(e),
        },
        VariantType::Quat => match Quat::decode(payload) {
            Ok(v) => Ok(VariantDispatch::Quat(v)),
            Err(e) => Err(e),
        },
        VariantType::Aabb => match Aabb::decode(payload) {
            Ok(v) => Ok(VariantDispatch::Aabb(v)),
            Err(e) => Err(e),
        },
        VariantType::Basis => match Basis::decode(payload) {
            Ok(v) => Ok(VariantDispatch::Basis(v)),
            Err(e) => Err(e),
        },
        VariantType::Transform => match Transform::decode(payload) {
            Ok(v) => Ok(VariantDispatch::Transform(v)),
            Err(e) => Err(e),
        },
        VariantType::Color => match Color::decode(payload) {
            Ok(v) => Ok(VariantDispatch::Color(v)),
            Err(e) => Err(e),
        },
        VariantType::GodotString => match decode_text(payload) {
            Ok(v) => Ok(VariantDispatch::GodotString(v)),
            Err(e) => Err(e),
        },
        VariantType::NodePath => match decode_path(payload) {
            Ok(v) => Ok(VariantDispatch::NodePath(v)),
            Err(e) => Err(e),
        },
        VariantType::Rid => Ok(VariantDispatch::Rid(Rid::new())),
        VariantType::Object => Ok(VariantDispatch::Object(ObjectRef::new())),
        VariantType::Dictionary => match decode_dictionary(payload) {
            Ok(v) => Ok(VariantDispatch::Dictionary(v)),
            Err(e) => Err(e),
        },
        VariantType::VariantArray => match decode_array(payload) {
            Ok(v) => Ok(VariantDispatch::VariantArray(v)),
            Err(e) => Err(e),
        },
        VariantType::ByteArray => match decode_seq::<u8>(payload) {
            Ok(v) => Ok(VariantDispatch::ByteArray(v)),
            Err(e) => Err(e),
        },
        VariantType::Int32Array => match decode_seq::<i32>(payload) {
            Ok(v) => Ok(VariantDispatch::Int32Array(v)),
            Err(e) => Err(e),
        },
        VariantType::Float32Array => match decode_seq::<Single>(payload) {
            Ok(v) => Ok(VariantDispatch::Float32Array(v)),
            Err(e) => Err(e),
        },
        VariantType::Vector2Array => match decode_seq::<Vector2>(payload) {
            Ok(v) => Ok(VariantDispatch::Vector2Array(v)),
            Err(e) => Err(e),
        },
        VariantType::Vector3Array => match decode_seq::<Vector3>(payload) {
            Ok(v) => Ok(VariantDispatch::Vector3Array(v)),
            Err(e) => Err(e),
        },
        VariantType::ColorArray => match decode_seq::<Color>(payload) {
            Ok(v) => Ok(VariantDispatch::ColorArray(v)),
            Err(e) => Err(e),
        },
        VariantType::StringArray => match decode_texts(payload) {
            Ok(v) => Ok(VariantDispatch::StringArray(v)),
            Err(e) => Err(e),
        },
    }
}

/// Decodes a kind tag and a payload: resolves the tag, then decodes the
/// payload as a value of that kind. A tag that names no kind is an error
/// that holds the tag.
pub fn decode_tagged(tag: &Discriminant, payload: &Structured) -> (r: Result<
    VariantDispatch,
    DecodeError,
>)
    ensures
        match r {
            Ok(value) => decoding_tagged(tag@, payload@) == Ok::<Value, Failure>(value@)
                && well_formed(value@),
            Err(error) => decoding_tagged(tag@, payload@) == Err::<Value, Failure>(error@),
        },
    decreases payload, 3nat,
{
    match resolve(tag) {
        Err(error) => Err(error),
        Ok(kind) => decode_payload(kind, payload),
    }
}

/// Decodes a tagged structured value.
pub fn decode(node: &Structured) -> (r: Result<VariantDispatch, DecodeError>)
    ensures
        match r {
            Ok(value) => decoding(node@) == Ok::<Value, Failure>(value@) && well_formed(value@),
            Err(error) => decoding(node@) == Err::<Value, Failure>(error@),
        },
    decreases node, 0nat,
{
    match node {
        Structured::Variant { tag, payload } => decode_tagged(tag, payload),
        _ => Err(shape_error(Shape::Variant, node)),
    }
}

} // verus!
