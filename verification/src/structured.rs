//! The structured-data model: what the bridge hands to a format and takes
//! back from one. It is format-agnostic: scalars, sequences, records and
//! tagged variants, and nothing of how any format writes them.

use crate::geometry::{Double, Single};
use crate::kind::VariantType;
use vstd::prelude::*;

verus! {

/// A kind tag, in any of the forms in which a format may carry it.
#[derive(Debug, PartialEq)]
pub enum Discriminant {
    /// The kind itself, as the encoder writes it: a format picks the id, the
    /// name or the name's bytes.
    Kind(VariantType),
    /// A numeric id.
    Id(u64),
    /// A name.
    Name(String),
    /// The bytes of a name.
    Bytes(Vec<u8>),
}

/// What a `Discriminant` holds.
pub enum Tag {
    Kind(VariantType),
    Id(u64),
    Name(Seq<char>),
    Bytes(Seq<u8>),
}

/// A structured value.
#[derive(Debug, PartialEq)]
pub enum Structured {
    /// The unit marker.
    Unit,
    /// The marker of an absent optional value.
    Absent,
    Bool(bool),
    U8(u8),
    I32(i32),
    I64(i64),
    Single(Single),
    Double(Double),
    Text(String),
    /// A sequence of any length.
    Sequence(Vec<Structured>),
    /// A sequence of a length fixed by its type.
    Tuple(Vec<Structured>),
    /// A named record of named fields, in their declared order.
    Record { name: String, fields: Vec<(String, Structured)> },
    /// A named wrapper of one value.
    Newtype { name: String, value: Box<Structured> },
    /// A tagged value: a kind tag and one payload. A kind without data has
    /// the unit marker as its payload.
    Variant { tag: Discriminant, payload: Box<Structured> },
}

/// What a `Structured` holds, as a mathematical tree.
pub enum Node {
    Unit,
    Absent,
    Bool(bool),
    U8(u8),
    I32(i32),
    I64(i64),
    Single(Single),
    Double(Double),
    Text(Seq<char>),
    Sequence(Seq<Node>),
    Tuple(Seq<Node>),
    Record { name: Seq<char>, fields: Seq<(Seq<char>, Node)> },
    Newtype { name: Seq<char>, value: Box<Node> },
    Variant { tag: Tag, payload: Box<Node> },
}

/// The outer form of a structured value: what a shape error names.
#[derive(Clone, Copy, Debug, PartialEq, Eq, Structural)]
pub enum Shape {
    Unit,
    Absent,
    Bool,
    U8,
    I32,
    I64,
    Single,
    Double,
    Text,
    Sequence,
    Tuple { len: usize },
    Record { len: usize },
    Newtype,
    Variant,
}

impl View for Discriminant {
    type V = Tag;

    open spec fn view(&self) -> Tag {
        match self {
            Discriminant::Kind(kind) => Tag::Kind(*kind),
            Discriminant::Id(id) => Tag::Id(*id),
            Discriminant::Name(name) => Tag::Name(name@),
            Discriminant::Bytes(bytes) => Tag::Bytes(bytes@),
        }
    }
}

impl Tag {
    /// The kind that this tag resolves to, if any.
    pub open spec fn resolve(self) -> Option<VariantType> {
        match self {
            Tag::Kind(kind) => Some(kind),
            Tag::Id(id) => VariantType::of_id(id as int),
            Tag::Name(name) => VariantType::of_name(name),
            Tag::Bytes(bytes) => VariantType::of_bytes(bytes),
        }
    }
}

impl Discriminant {
    /// Resolves this tag: the kind that it names, or `None` where it names
    /// none.
    pub fn resolve(&self) -> (r: Option<VariantType>)
        ensures
            r == self@.resolve(),
    {
        match self {
            Discriminant::Kind(kind) => Some(*kind),
            Discriminant::Id(id) => VariantType::from_id(*id),
            Discriminant::Name(name) => VariantType::from_name(name.as_str()),
            Discriminant::Bytes(bytes) => VariantType::from_bytes(bytes.as_slice()),
        }
    }

    /// A copy of this tag.
    pub fn duplicate(&self) -> (r: Discriminant)
        ensures
            r@ == self@,
    {
        match self {
            Discriminant::Kind(kind) => Discriminant::Kind(*kind),
            Discriminant::Id(id) => Discriminant::Id(*id),
            Discriminant::Name(name) => Discriminant::Name(name.clone()),
            Discriminant::Bytes(bytes) => Discriminant::Bytes(crate::seqs::copy_vec(bytes)),
        }
    }
}

impl Structured {
    /// The tree that this value stands for.
    pub open spec fn model(self) -> Node
        decreases self,
    {
        match self {
            Structured::Unit => Node::Unit,
            Structured::Absent => Node::Absent,
            Structured::Bool(v) => Node::Bool(v),
            Structured::U8(v) => Node::U8(v),
            Structured::I32(v) => Node::I32(v),
            Structured::I64(v) => Node::I64(v),
            Structured::Single(v) => Node::Single(v),
            Structured::Double(v) => Node::Double(v),
            Structured::Text(v) => Node::Text(v@),
            Structured::Sequence(items) => Node::Sequence(
                Seq::new(
                    items@.len(),
                    |i: int|
                        if 0 <= i < items@.len() {
                            items@[i].model()
                        } else {
                            Node::Unit
                        },
                ),
            ),
            Structured::Tuple(items) => Node::Tuple(
                Seq::new(
                    items@.len(),
                    |i: int|
                        if 0 <= i < items@.len() {
                            items@[i].model()
                        } else {
                            Node::Unit
                        },
                ),
            ),
            Structured::Record { name, fields } => Node::Record {
                name: name@,
                fields: Seq::new(
                    fields@.len(),
                    |i: int|
                        if 0 <= i < fields@.len() {
                            (fields@[i].0@, fields@[i].1.model())
                        } else {
                            (Seq::empty(), Node::Unit)
                        },
                ),
            },
            Structured::Newtype { name, value } => Node::Newtype {
                name: name@,
                value: Box::new(value.model()),
            },
            Structured::Variant { tag, payload } => Node::Variant {
                tag: tag@,
                payload: Box::new(payload.model()),
            },
        }
    }

    /// The outer form of this value.
    pub fn shape(&self) -> (r: Shape)
        ensures
            r == self@.shape(),
    {
        match self {
            Structured::Unit => Shape::Unit,
            Structured::Absent => Shape::Absent,
            Structured::Bool(_) => Shape::Bool,
            Structured::U8(_) => Shape::U8,
            Structured::I32(_) => Shape::I32,
            Structured::I64(_) => Shape::I64,
            Structured::Single(_) => Shape::Single,
            Structured::Double(_) => Shape::Double,
            Structured::Text(_) => Shape::Text,
            Structured::Sequence(_) => Shape::Sequence,
            Structured::Tuple(items) => Shape::Tuple { len: items.len() },
            Structured::Record { name: _, fields } => Shape::Record { len: fields.len() },
            Structured::Newtype { name: _, value: _ } => Shape::Newtype,
            Structured::Variant { tag: _, payload: _ } => Shape::Variant,
        }
    }
}

impl View for Structured {
    type V = Node;

    open spec fn view(&self) -> Node {
        self.model()
    }
}

impl Node {
    /// The outer form of this value.
    pub open spec fn shape(self) -> Shape {
        match self {
            Node::Unit => Shape::Unit,
            Node::Absent => Shape::Absent,
            Node::Bool(_) => Shape::Bool,
            Node::U8(_) => Shape::U8,
            Node::I32(_) => Shape::I32,
            Node::I64(_) => Shape::I64,
            Node::Single(_) => Shape::Single,
            Node::Double(_) => Shape::Double,
            Node::Text(_) => Shape::Text,
            Node::Sequence(_) => Shape::Sequence,
            Node::Tuple(items) => Shape::Tuple { len: items.len() as usize },
            Node::Record { name, fields } => Shape::Record { len: fields.len() as usize },
            Node::Newtype { name, value } => Shape::Newtype,
            Node::Variant { tag, payload } => Shape::Variant,
        }
    }
}

/// `true` when `read` is one of the forms in which a format may carry the
/// tag of the kind: the kind itself, its id, its name or the bytes of its
/// name.
pub open spec fn carries_kind(kind: VariantType, read: Tag) -> bool {
    read == Tag::Kind(kind) || read == Tag::Id(kind.spec_id() as u64) || read == Tag::Name(
        kind.spec_name(),
    ) || read == Tag::Bytes(kind.spec_name_bytes())
}

/// `true` when `read` is what some format presents of `written`: the same
/// structured value, but for its tags, each of which is a kind in `written`
/// and any form of that kind in `read`.
pub open spec fn presents(written: Node, read: Node) -> bool
    decreases written,
{
    match written {
        Node::Variant { tag, payload } => {
            &&& read is Variant
            &&& tag is Kind
            &&& carries_kind(tag->Kind_0, read->tag)
            &&& presents(*payload, *read->payload)
        },
        Node::Sequence(items) => {
            &&& read is Sequence
            &&& read->Sequence_0.len() == items.len()
            &&& forall|i: int|
                0 <= i < items.len() ==> presents(items[i], #[trigger] read->Sequence_0[i])
        },
        Node::Tuple(items) => {
            &&& read is Tuple
            &&& read->Tuple_0.len() == items.len()
            &&& forall|i: int|
                0 <= i < items.len() ==> presents(items[i], #[trigger] read->Tuple_0[i])
        },
        Node::Record { name, fields } => {
            &&& read is Record
            &&& read->Record_name == name
            &&& read->fields.len() == fields.len()
            &&& forall|i: int|
                0 <= i < fields.len() ==> (#[trigger] read->fields[i]).0 == fields[i].0
                    && presents(fields[i].1, read->fields[i].1)
        },
        Node::Newtype { name, value } => {
            &&& read is Newtype
            &&& read->Newtype_name == name
            &&& presents(*value, *read->Newtype_value)
        },
        _ => read == written,
    }
}

/// `true` when the structured value holds no tagged value, at any depth.
pub open spec fn tagless(node: Node) -> bool
    decreases node,
{
    match node {
        Node::Variant { tag, payload } => false,
        Node::Sequence(items) => forall|i: int| 0 <= i < items.len() ==> tagless(#[trigger] items[i]),
        Node::Tuple(items) => forall|i: int| 0 <= i < items.len() ==> tagless(#[trigger] items[i]),
        Node::Record { name, fields } => forall|i: int|
            0 <= i < fields.len() ==> tagless((#[trigger] fields[i]).1),
        Node::Newtype { name, value } => tagless(*value),
        _ => true,
    }
}

/// A format presents a value without tags as it is.
pub proof fn lemma_presents_tagless(written: Node, read: Node)
    requires
        tagless(written),
        presents(written, read),
    ensures
        read == written,
    decreases written,
{
    match written {
        Node::Sequence(items) => {
            let other = read->Sequence_0;
            assert forall|i: int| 0 <= i < items.len() implies items[i] == other[i] by {
                lemma_presents_tagless(items[i], other[i]);
            }
            assert(items =~= other);
        },
        Node::Tuple(items) => {
            let other = read->Tuple_0;
            assert forall|i: int| 0 <= i < items.len() implies items[i] == other[i] by {
                lemma_presents_tagless(items[i], other[i]);
            }
            assert(items =~= other);
        },
        Node::Record { name, fields } => {
            let other = read->fields;
            assert forall|i: int| 0 <= i < fields.len() implies fields[i] == other[i] by {
                lemma_presents_tagless(fields[i].1, other[i].1);
            }
            assert(fields =~= other);
        },
        Node::Newtype { name, value } => {
            lemma_presents_tagless(*value, *read->Newtype_value);
        },
        _ => {},
    }
}

} // verus!
