//! Payloads of a fixed shape: the scalars and the fixed-size composites,
//! each with its encoding as a structured value and the decoding that
//! inverts it.

use crate::error::{DecodeError, Failure};
use crate::geometry::{
    Aabb, Basis, Color, Double, Plane, Quat, Rect2, Single, Transform, Transform2D, Vector2,
    Vector3,
};
use crate::seqs::{collect, lemma_collect_ok, lemma_collect_prefix_err};
use crate::structured::{tagless, Node, Shape, Structured};
use crate::text::text_eq;
use vstd::prelude::*;

verus! {

/// A value of a fixed shape that can be encoded, decoded, copied and
/// compared.
pub trait Payload: Copy + Sized {
    /// The structured value that encodes `self`.
    spec fn node(self) -> Node;

    /// The value that a structured value decodes to, or why it decodes to
    /// none.
    spec fn parse(node: Node) -> Result<Self, Failure>;

    /// Decoding inverts encoding.
    proof fn lemma_round_trip(self)
        ensures
            Self::parse(self.node()) == Ok::<Self, Failure>(self),
    ;

    /// The encoding holds no tagged value, and every name in it is one of
    /// the encoder's names.
    proof fn lemma_plain(self)
        ensures
            tagless(self.node()),
            names_known(self.node()),
    ;

    /// Encodes `self`.
    fn encode(&self) -> (r: Structured)
        ensures
            r@ == self.node(),
    ;

    /// Decodes a value of this type.
    fn decode(node: &Structured) -> (r: Result<Self, DecodeError>)
        ensures
            match r {
                Ok(value) => Self::parse(node@) == Ok::<Self, Failure>(value),
                Err(error) => Self::parse(node@) == Err::<Self, Failure>(error@),
            },
    ;

    /// `true` when the two values are equal.
    fn same(&self, other: &Self) -> (r: bool)
        ensures
            r == (*self == *other),
    ;
}

/// The failure of a payload that has another outer form than expected.
pub open spec fn wrong_shape(expected: Shape, node: Node) -> Failure {
    Failure::PayloadShape { expected, found: node.shape() }
}

/// The error of a payload that has another outer form than expected.
pub fn shape_error(expected: Shape, node: &Structured) -> (r: DecodeError)
    ensures
        r@ == wrong_shape(expected, node@),
{
    DecodeError::PayloadShape { expected, found: node.shape() }
}

/// The error of a name that is not the expected one.
pub fn name_error(expected: &str, found: &str) -> (r: DecodeError)
    ensures
        r@ == (Failure::Name { expected: expected@, found: found@ }),
{
    DecodeError::Name { expected: expected.to_owned(), found: found.to_owned() }
}

impl Payload for bool {
    open spec fn node(self) -> Node {
        Node::Bool(self)
    }

    open spec fn parse(node: Node) -> Result<Self, Failure> {
        match node {
            Node::Bool(v) => Ok(v),
            _ => Err(wrong_shape(Shape::Bool, node)),
        }
    }

    proof fn lemma_round_trip(self) {
    }

    proof fn lemma_plain(self) {
    }

    fn encode(&self) -> (r: Structured) {
        Structured::Bool(*self)
    }

    fn decode(node: &Structured) -> (r: Result<Self, DecodeError>) {
        match node {
            Structured::Bool(v) => Ok(*v),
            _ => Err(shape_error(Shape::Bool, node)),
        }
    }

    fn same(&self, other: &Self) -> (r: bool) {
        *self == *other
    }
}

impl Payload for u8 {
    open spec fn node(self) -> Node {
        Node::U8(self)
    }

    open spec fn parse(node: Node) -> Result<Self, Failure> {
        match node {
            Node::U8(v) => Ok(v),
            _ => Err(wrong_shape(Shape::U8, node)),
        }
    }

    proof fn lemma_round_trip(self) {
    }

    proof fn lemma_plain(self) {
    }

    fn encode(&self) -> (r: Structured) {
        Structured::U8(*self)
    }

    fn decode(node: &Structured) -> (r: Result<Self, DecodeError>) {
        match node {
            Structured::U8(v) => Ok(*v),
            _ => Err(shape_error(Shape::U8, node)),
        }
    }

    fn same(&self, other: &Self) -> (r: bool) {
        *self == *other
    }
}

impl Payload for i32 {
    open spec fn node(self) -> Node {
        Node::I32(self)
    }

    open spec fn parse(node: Node) -> Result<Self, Failure> {
        match node {
            Node::I32(v) => Ok(v),
            _ => Err(wrong_shape(Shape::I32, node)),
        }
    }

    proof fn lemma_round_trip(self) {
    }

    proof fn lemma_plain(self) {
    }

    fn encode(&self) -> (r: Structured) {
        Structured::I32(*self)
    }

    fn decode(node: &Structured) -> (r: Result<Self, DecodeError>) {
        match node {
            Structured::I32(v) => Ok(*v),
            _ => Err(shape_error(Shape::I32, node)),
        }
    }

    fn same(&self, other: &Self) -> (r: bool) {
        *self == *other
    }
}

impl Payload for i64 {
    open spec fn node(self) -> Node {
        Node::I64(self)
    }

    open spec fn parse(node: Node) -> Result<Self, Failure> {
        match node {
            Node::I64(v) => Ok(v),
            _ => Err(wrong_shape(Shape::I64, node)),
        }
    }

    proof fn lemma_round_trip(self) {
    }

    proof fn lemma_plain(self) {
    }

    fn encode(&self) -> (r: Structured) {
        Structured::I64(*self)
    }

    fn decode(node: &Structured) -> (r: Result<Self, DecodeError>) {
        match node {
            Structured::I64(v) => Ok(*v),
            _ => Err(shape_error(Shape::I64, node)),
        }
    }

    fn same(&self, other: &Self) -> (r: bool) {
        *self == *other
    }
}

impl Payload for Single {
    open spec fn node(self) -> Node {
        Node::Single(self)
    }

    open spec fn parse(node: Node) -> Result<Self, Failure> {
        match node {
            Node::Single(v) => Ok(v),
            _ => Err(wrong_shape(Shape::Single, node)),
        }
    }

    proof fn lemma_round_trip(self) {
    }

    proof fn lemma_plain(self) {
    }

    fn encode(&self) -> (r: Structured) {
        Structured::Single(*self)
    }

    fn decode(node: &Structured) -> (r: Result<Self, DecodeError>) {
        match node {
            Structured::Single(v) => Ok(*v),
            _ => Err(shape_error(Shape::Single, node)),
        }
    }

    fn same(&self, other: &Self) -> (r: bool) {
        *self == *other
    }
}

impl Payload for Double {
    open spec fn node(self) -> Node {
        Node::Double(self)
    }

    open spec fn parse(node: Node) -> Result<Self, Failure> {
        match node {
            Node::Double(v) => Ok(v),
            _ => Err(wrong_shape(Shape::Double, node)),
        }
    }

    proof fn lemma_round_trip(self) {
    }

    proof fn lemma_plain(self) {
    }

    fn encode(&self) -> (r: Structured) {
        Structured::Double(*self)
    }

    fn decode(node: &Structured) -> (r: Result<Self, DecodeError>) {
        match node {
            Structured::Double(v) => Ok(*v),
            _ => Err(shape_error(Shape::Double, node)),
        }
    }

    fn same(&self, other: &Self) -> (r: bool) {
        *self == *other
    }
}

/// A field of a record: its name and its value.
pub open spec fn field_node<T: Payload>(name: Seq<char>, value: T) -> (Seq<char>, Node) {
    (name, value.node())
}

/// The fields of a record of the given name and number of fields, or why
/// the value is no such record.
pub open spec fn record_fields(node: Node, name: Seq<char>, len: usize) -> Result<
    Seq<(Seq<char>, Node)>,
    Failure,
> {
    match node {
        Node::Record { name: found, fields } => if fields.len() != len {
            Err(wrong_shape(Shape::Record { len }, node))
        } else if found != name {
            Err(Failure::Name { expected: name, found })
        } else {
            Ok(fields)
        },
        _ => Err(wrong_shape(Shape::Record { len }, node)),
    }
}

/// The value of the field at `index`, which must have the given name, or why
/// there is none.
pub open spec fn parse_field<T: Payload>(
    fields: Seq<(Seq<char>, Node)>,
    index: int,
    name: Seq<char>,
) -> Result<T, Failure> {
    if fields[index].0 != name {
        Err(Failure::Name { expected: name, found: fields[index].0 })
    } else {
        T::parse(fields[index].1)
    }
}

/// A field of a record.
pub fn encode_field<T: Payload>(name: &str, value: &T) -> (r: (String, Structured))
    ensures
        r.0@ == name@,
        r.1@ == value.node(),
{
    (name.to_owned(), value.encode())
}

/// The fields of a record of the given name and number of fields.
pub fn decode_record<'a>(node: &'a Structured, name: &str, len: usize) -> (r: Result<
    &'a Vec<(String, Structured)>,
    DecodeError,
>)
    ensures
        match r {
            Ok(fields) => {
                &&& fields@.len() == len
                &&& node@ matches Node::Record { name: n, fields: f }
                &&& record_fields(node@, name@, len) == Ok::<Seq<(Seq<char>, Node)>, Failure>(f)
                &&& forall|i: int|
                    0 <= i < len ==> f[i] == (#[trigger] fields@[i].0@, fields@[i].1@)
            },
            Err(error) => record_fields(node@, name@, len) == Err::<
                Seq<(Seq<char>, Node)>,
                Failure,
            >(error@),
        },
{
    match node {
        Structured::Record { name: found, fields } => {
            if fields.len() != len {
                Err(shape_error(Shape::Record { len }, node))
            } else if !text_eq(found.as_str(), name) {
                Err(name_error(name, found.as_str()))
            } else {
                Ok(fields)
            }
        },
        _ => Err(shape_error(Shape::Record { len }, node)),
    }
}

/// The value of the field at `index`, which must have the given name.
pub fn decode_field<T: Payload>(fields: &Vec<(String, Structured)>, index: usize, name: &str) -> (r:
    Result<T, DecodeError>)
    requires
        index < fields@.len(),
    ensures
        match r {
            Ok(value) => parse_field::<T>(
                Seq::new(fields@.len(), |i: int| (fields@[i].0@, fields@[i].1@)),
                index as int,
                name@,
            ) == Ok::<T, Failure>(value),
            Err(error) => parse_field::<T>(
                Seq::new(fields@.len(), |i: int| (fields@[i].0@, fields@[i].1@)),
                index as int,
                name@,
            ) == Err::<T, Failure>(error@),
        },
{
    if !text_eq(fields[index].0.as_str(), name) {
        Err(name_error(name, fields[index].0.as_str()))
    } else {
        T::decode(&fields[index].1)
    }
}

impl Payload for Vector2 {
    open spec fn node(self) -> Node {
        Node::Record {
            name: "Vector2"@,
            fields: seq![
                field_node("x"@, self.x),
                field_node("y"@, self.y),
            ],
        }
    }

    open spec fn parse(node: Node) -> Result<Self, Failure> {
        match record_fields(node, "Vector2"@, 2) {
            Err(e) => Err(e),
            Ok(fields) => match parse_field::<Single>(fields, 0, "x"@) {
                Err(e) => Err(e),
                Ok(x) => match parse_field::<Single>(fields, 1, "y"@) {
                    Err(e) => Err(e),
                    Ok(y) => Ok(Vector2 { x, y }),
                },
            },
        }
    }

    proof fn lemma_round_trip(self) {
        self.x.lemma_round_trip();
        self.y.lemma_round_trip();
    }

    proof fn lemma_plain(self) {
        self.x.lemma_plain();
        self.y.lemma_plain();
        let fields = self.node()->fields;
        assert forall|i: int| 0 <= i < fields.len() implies tagless((#[trigger] fields[i]).1)
            && encoder_name(fields[i].0) && names_known(fields[i].1) by {
            if i == 0 {
            }
        }
    }

    fn encode(&self) -> (r: Structured) {
        let mut fields: Vec<(String, Structured)> = Vec::new();
        fields.push(encode_field("x", &self.x));
        fields.push(encode_field("y", &self.y));
        let r = Structured::Record { name: "Vector2".to_owned(), fields };
        assert(r@->fields =~= self.node()->fields);
        r
    }

    fn decode(node: &Structured) -> (r: Result<Self, DecodeError>) {
        let fields = match decode_record(node, "Vector2", 2) {
            Err(e) => {
                return Err(e);
            },
            Ok(fields) => fields,
        };
        let x = match decode_field::<Single>(fields, 0, "x") {
            Err(e) => {
                return Err(e);
            },
            Ok(v) => v,
        };
        let y = match decode_field::<Single>(fields, 1, "y") {
            Err(e) => {
                return Err(e);
            },
            Ok(v) => v,
        };
        Ok(Vector2 { x, y })
    }

    fn same(&self, other: &Self) -> (r: bool) {
        *self == *other
    }
}

impl Payload for Vector3 {
    open spec fn node(self) -> Node {
        Node::Record {
            name: "Vector3"@,
            fields: seq![
                field_node("x"@, self.x),
                field_node("y"@, self.y),
                field_node("z"@, self.z),
            ],
        }
    }

    open spec fn parse(node: Node) -> Result<Self, Failure> {
        match record_fields(node, "Vector3"@, 3) {
            Err(e) => Err(e),
            Ok(fields) => match parse_field::<Single>(fields, 0, "x"@) {
                Err(e) => Err(e),
                Ok(x) => match parse_field::<Single>(fields, 1, "y"@) {
                    Err(e) => Err(e),
                    Ok(y) => match parse_field::<Single>(fields, 2, "z"@) {
                        Err(e) => Err(e),
                        Ok(z) => Ok(Vector3 { x, y, z }),
                    },
                },
            },
        }
    }

    proof fn lemma_round_trip(self) {
        self.x.lemma_round_trip();
        self.y.lemma_round_trip();
        self.z.lemma_round_trip();
    }

    proof fn lemma_plain(self) {
        self.x.lemma_plain();
        self.y.lemma_plain();
        self.z.lemma_plain();
        let fields = self.node()->fields;
        assert forall|i: int| 0 <= i < fields.len() implies tagless((#[trigger] fields[i]).1)
            && encoder_name(fields[i].0) && names_known(fields[i].1) by {
            if i == 0 {
            } else if i == 1 {
            }
        }
    }

    fn encode(&self) -> (r: Structured) {
        let mut fields: Vec<(String, Structured)> = Vec::new();
        fields.push(encode_field("x", &self.x));
        fields.push(encode_field("y", &self.y));
        fields.push(encode_field("z", &self.z));
        let r = Structured::Record { name: "Vector3".to_owned(), fields };
        assert(r@->fields =~= self.node()->fields);
        r
    }

    fn decode(node: &Structured) -> (r: Result<Self, DecodeError>) {
        let fields = match decode_record(node, "Vector3", 3) {
            Err(e) => {
                return Err(e);
            },
            Ok(fields) => fields,
        };
        let x = match decode_field::<Single>(fields, 0, "x") {
            Err(e) => {
                return Err(e);
            },
            Ok(v) => v,
        };
        let y = match decode_field::<Single>(fields, 1, "y") {
            Err(e) => {
                return Err(e);
            },
            Ok(v) => v,
        };
        let z = match decode_field::<Single>(fields, 2, "z") {
            Err(e) => {
                return Err(e);
            },
            Ok(v) => v,
        };
        Ok(Vector3 { x, y, z })
    }

    fn same(&self, other: &Self) -> (r: bool) {
        *self == *other
    }
}

impl Payload for Rect2 {
    open spec fn node(self) -> Node {
        Node::Record {
            name: "Rect2"@,
            fields: seq![
                field_node("position"@, self.position),
                field_node("size"@, self.size),
            ],
        }
    }

    open spec fn parse(node: Node) -> Result<Self, Failure> {
        match record_fields(node, "Rect2"@, 2) {
            Err(e) => Err(e),
            Ok(fields) => match parse_field::<Vector2>(fields, 0, "position"@) {
                Err(e) => Err(e),
                Ok(position) => match parse_field::<Vector2>(fields, 1, "size"@) {
                    Err(e) => Err(e),
                    Ok(size) => Ok(Rect2 { position, size }),
                },
            },
        }
    }

    proof fn lemma_round_trip(self) {
        self.position.lemma_round_trip();
        self.size.lemma_round_trip();
    }

    proof fn lemma_plain(self) {
        self.position.lemma_plain();
        self.size.lemma_plain();
        let fields = self.node()->fields;
        assert forall|i: int| 0 <= i < fields.len() implies tagless((#[trigger] fields[i]).1)
            && encoder_name(fields[i].0) && names_known(fields[i].1) by {
            if i == 0 {
            }
        }
    }

    fn encode(&self) -> (r: Structured) {
        let mut fields: Vec<(String, Structured)> = Vec::new();
        fields.push(encode_field("position", &self.position));
        fields.push(encode_field("size", &self.size));
        let r = Structured::Record { name: "Rect2".to_owned(), fields };
        assert(r@->fields =~= self.node()->fields);
        r
    }

    fn decode(node: &Structured) -> (r: Result<Self, DecodeError>) {
        let fields = match decode_record(node, "Rect2", 2) {
            Err(e) => {
                return Err(e);
            },
            Ok(fields) => fields,
        };
        let position = match decode_field::<Vector2>(fields, 0, "position") {
            Err(e) => {
                return Err(e);
            },
            Ok(v) => v,
        };
        let size = match decode_field::<Vector2>(fields, 1, "size") {
            Err(e) => {
                return Err(e);
            },
            Ok(v) => v,
        };
        Ok(Rect2 { position, size })
    }

    fn same(&self, other: &Self) -> (r: bool) {
        *self == *other
    }
}

impl Payload for Transform2D {
    open spec fn node(self) -> Node {
        Node::Record {
            name: "Transform2D"@,
            fields: seq![
                field_node("x"@, self.x),
                field_node("y"@, self.y),
                field_node("origin"@, self.origin),
            ],
        }
    }

    open spec fn parse(node: Node) -> Result<Self, Failure> {
        match record_fields(node, "Transform2D"@, 3) {
            Err(e) => Err(e),
            Ok(fields) => match parse_field::<Vector2>(fields, 0, "x"@) {
                Err(e) => Err(e),
                Ok(x) => match parse_field::<Vector2>(fields, 1, "y"@) {
                    Err(e) => Err(e),
                    Ok(y) => match parse_field::<Vector2>(fields, 2, "origin"@) {
                        Err(e) => Err(e),
                        Ok(origin) => Ok(Transform2D { x, y, origin }),
                    },
                },
            },
        }
    }

    proof fn lemma_round_trip(self) {
        self.x.lemma_round_trip();
        self.y.lemma_round_trip();
        self.origin.lemma_round_trip();
    }

    proof fn lemma_plain(self) {
        self.x.lemma_plain();
        self.y.lemma_plain();
        self.origin.lemma_plain();
        let fields = self.node()->fields;
        assert forall|i: int| 0 <= i < fields.len() implies tagless((#[trigger] fields[i]).1)
            && encoder_name(fields[i].0) && names_known(fields[i].1) by {
            if i == 0 {
            } else if i == 1 {
            }
        }
    }

    fn encode(&self) -> (r: Structured) {
        let mut fields: Vec<(String, Structured)> = Vec::new();
        fields.push(encode_field("x", &self.x));
        fields.push(encode_field("y", &self.y));
        fields.push(encode_field("origin", &self.origin));
        let r = Structured::Record { name: "Transform2D".to_owned(), fields };
        assert(r@->fields =~= self.node()->fields);
        r
    }

    fn decode(node: &Structured) -> (r: Result<Self, DecodeError>) {
        let fields = match decode_record(node, "Transform2D", 3) {
            Err(e) => {
                return Err(e);
            },
            Ok(fields) => fields,
        };
        let x = match decode_field::<Vector2>(fields, 0, "x") {
            Err(e) => {
                return Err(e);
            },
            Ok(v) => v,
        };
        let y = match decode_field::<Vector2>(fields, 1, "y") {
            Err(e) => {
                return Err(e);
            },
            Ok(v) => v,
        };
        let origin = match decode_field::<Vector2>(fields, 2, "origin") {
            Err(e) => {
                return Err(e);
            },
            Ok(v) => v,
        };
        Ok(Transform2D { x, y, origin })
    }

    fn same(&self, other: &Self) -> (r: bool) {
        *self == *other
    }
}

impl Payload for Plane {
    open spec fn node(self) -> Node {
        Node::Record {
            name: "Plane"@,
            fields: seq![
                field_node("normal"@, self.normal),
                field_node("d"@, self.d),
            ],
        }
    }

    open spec fn parse(node: Node) -> Result<Self, Failure> {
        match record_fields(node, "Plane"@, 2) {
            Err(e) => Err(e),
            Ok(fields) => match parse_field::<Vector3>(fields, 0, "normal"@) {
                Err(e) => Err(e),
                Ok(normal) => match parse_field::<Single>(fields, 1, "d"@) {
                    Err(e) => Err(e),
                    Ok(d) => Ok(Plane { normal, d }),
                },
            },
        }
    }

    proof fn lemma_round_trip(self) {
        self.normal.lemma_round_trip();
        self.d.lemma_round_trip();
    }

    proof fn lemma_plain(self) {
        self.normal.lemma_plain();
        self.d.lemma_plain();
        let fields = self.node()->fields;
        assert forall|i: int| 0 <= i < fields.len() implies tagless((#[trigger] fields[i]).1)
            && encoder_name(fields[i].0) && names_known(fields[i].1) by {
            if i == 0 {
            }
        }
    }

    fn encode(&self) -> (r: Structured) {
        let mut fields: Vec<(String, Structured)> = Vec::new();
        fields.push(encode_field("normal", &self.normal));
        fields.push(encode_field("d", &self.d));
        let r = Structured::Record { name: "Plane".to_owned(), fields };
        assert(r@->fields =~= self.node()->fields);
        r
    }

    fn decode(node: &Structured) -> (r: Result<Self, DecodeError>) {
        let fields = match decode_record(node, "Plane", 2) {
            Err(e) => {
                return Err(e);
            },
            Ok(fields) => fields,
        };
        let normal = match decode_field::<Vector3>(fields, 0, "normal") {
            Err(e) => {
                return Err(e);
            },
            Ok(v) => v,
        };
        let d = match decode_field::<Single>(fields, 1, "d") {
            Err(e) => {
                return Err(e);
            },
            Ok(v) => v,
        };
        Ok(Plane { normal, d })
    }

    fn same(&self, other: &Self) -> (r: bool) {
        *self == *other
    }
}

impl Payload for Quat {
    open spec fn node(self) -> Node {
        Node::Record {
            name: "Quat"@,
            fields: seq![
                field_node("x"@, self.x),
                field_node("y"@, self.y),
                field_node("z"@, self.z),
                field_node("w"@, self.w),
            ],
        }
    }

    open spec fn parse(node: Node) -> Result<Self, Failure> {
        match record_fields(node, "Quat"@, 4) {
            Err(e) => Err(e),
            Ok(fields) => match parse_field::<Single>(fields, 0, "x"@) {
                Err(e) => Err(e),
                Ok(x) => match parse_field::<Single>(fields, 1, "y"@) {
                    Err(e) => Err(e),
                    Ok(y) => match parse_field::<Single>(fields, 2, "z"@) {
                        Err(e) => Err(e),
                        Ok(z) => match parse_field::<Single>(fields, 3, "w"@) {
                            Err(e) => Err(e),
                            Ok(w) => Ok(Quat { x, y, z, w }),
                        },
                    },
                },
            },
        }
    }

    proof fn lemma_round_trip(self) {
        self.x.lemma_round_trip();
        self.y.lemma_round_trip();
        self.z.lemma_round_trip();
        self.w.lemma_round_trip();
    }

    proof fn lemma_plain(self) {
        self.x.lemma_plain();
        self.y.lemma_plain();
        self.z.lemma_plain();
        self.w.lemma_plain();
        let fields = self.node()->fields;
        assert forall|i: int| 0 <= i < fields.len() implies tagless((#[trigger] fields[i]).1)
            && encoder_name(fields[i].0) && names_known(fields[i].1) by {
            if i == 0 {
            } else if i == 1 {
            } else if i == 2 {
            }
        }
    }

    fn encode(&self) -> (r: Structured) {
        let mut fields: Vec<(String, Structured)> = Vec::new();
        fields.push(encode_field("x", &self.x));
        fields.push(encode_field("y", &self.y));
        fields.push(encode_field("z", &self.z));
        fields.push(encode_field("w", &self.w));
        let r = Structured::Record { name: "Quat".to_owned(), fields };
        assert(r@->fields =~= self.node()->fields);
        r
    }

    fn decode(node: &Structured) -> (r: Result<Self, DecodeError>) {
        let fields = match decode_record(node, "Quat", 4) {
            Err(e) => {
                return Err(e);
            },
            Ok(fields) => fields,
        };
        let x = match decode_field::<Single>(fields, 0, "x") {
            Err(e) => {
                return Err(e);
            },
            Ok(v) => v,
        };
        let y = match decode_field::<Single>(fields, 1, "y") {
            Err(e) => {
                return Err(e);
            },
            Ok(v) => v,
        };
        let z = match decode_field::<Single>(fields, 2, "z") {
            Err(e) => {
                return Err(e);
            },
            Ok(v) => v,
        };
        let w = match decode_field::<Single>(fields, 3, "w") {
            Err(e) => {
                return Err(e);
            },
            Ok(v) => v,
        };
        Ok(Quat { x, y, z, w })
    }

    fn same(&self, other: &Self) -> (r: bool) {
        *self == *other
    }
}

impl Payload for Aabb {
    open spec fn node(self) -> Node {
        Node::Record {
            name: "Aabb"@,
            fields: seq![
                field_node("position"@, self.position),
                field_node("size"@, self.size),
            ],
        }
    }

    open spec fn parse(node: Node) -> Result<Self, Failure> {
        match record_fields(node, "Aabb"@, 2) {
            Err(e) => Err(e),
            Ok(fields) => match parse_field::<Vector3>(fields, 0, "position"@) {
                Err(e) => Err(e),
                Ok(position) => match parse_field::<Vector3>(fields, 1, "size"@) {
                    Err(e) => Err(e),
                    Ok(size) => Ok(Aabb { position, size }),
                },
            },
        }
    }

    proof fn lemma_round_trip(self) {
        self.position.lemma_round_trip();
        self.size.lemma_round_trip();
    }

    proof fn lemma_plain(self) {
        self.position.lemma_plain();
        self.size.lemma_plain();
        let fields = self.node()->fields;
        assert forall|i: int| 0 <= i < fields.len() implies tagless((#[trigger] fields[i]).1)
            && encoder_name(fields[i].0) && names_known(fields[i].1) by {
            if i == 0 {
            }
        }
    }

    fn encode(&self) -> (r: Structured) {
        let mut fields: Vec<(String, Structured)> = Vec::new();
        fields.push(encode_field("position", &self.position));
        fields.push(encode_field("size", &self.size));
        let r = Structured::Record { name: "Aabb".to_owned(), fields };
        assert(r@->fields =~= self.node()->fields);
        r
    }

    fn decode(node: &Structured) -> (r: Result<Self, DecodeError>) {
        let fields = match decode_record(node, "Aabb", 2) {
            Err(e) => {
                return Err(e);
            },
            Ok(fields) => fields,
        };
        let position = match decode_field::<Vector3>(fields, 0, "position") {
            Err(e) => {
                return Err(e);
            },
            Ok(v) => v,
        };
        let size = match decode_field::<Vector3>(fields, 1, "size") {
            Err(e) => {
                return Err(e);
            },
            Ok(v) => v,
        };
        Ok(Aabb { position, size })
    }

    fn same(&self, other: &Self) -> (r: bool) {
        *self == *other
    }
}

impl Payload for Color {
    open spec fn node(self) -> Node {
        Node::Record {
            name: "Color"@,
            fields: seq![
                field_node("r"@, self.r),
                field_node("g"@, self.g),
                field_node("b"@, self.b),
                field_node("a"@, self.a),
            ],
        }
    }

    open spec fn parse(node: Node) -> Result<Self, Failure> {
        match record_fields(node, "Color"@, 4) {
            Err(e) => Err(e),
            Ok(fields) => match parse_field::<Single>(fields, 0, "r"@) {
                Err(e) => Err(e),
                Ok(r) => match parse_field::<Single>(fields, 1, "g"@) {
                    Err(e) => Err(e),
                    Ok(g) => match parse_field::<Single>(fields, 2, "b"@) {
                        Err(e) => Err(e),
                        Ok(b) => match parse_field::<Single>(fields, 3, "a"@) {
                            Err(e) => Err(e),
                            Ok(a) => Ok(Color { r, g, b, a }),
                        },
                    },
                },
            },
        }
    }

    proof fn lemma_round_trip(self) {
        self.r.lemma_round_trip();
        self.g.lemma_round_trip();
        self.b.lemma_round_trip();
        self.a.lemma_round_trip();
    }

    proof fn lemma_plain(self) {
        self.r.lemma_plain();
        self.g.lemma_plain();
        self.b.lemma_plain();
        self.a.lemma_plain();
        let fields = self.node()->fields;
        assert forall|i: int| 0 <= i < fields.len() implies tagless((#[trigger] fields[i]).1)
            && encoder_name(fields[i].0) && names_known(fields[i].1) by {
            if i == 0 {
            } else if i == 1 {
            } else if i == 2 {
            }
        }
    }

    fn encode(&self) -> (r: Structured) {
        let mut fields: Vec<(String, Structured)> = Vec::new();
        fields.push(encode_field("r", &self.r));
        fields.push(encode_field("g", &self.g));
        fields.push(encode_field("b", &self.b));
        fields.push(encode_field("a", &self.a));
        let r = Structured::Record { name: "Color".to_owned(), fields };
        assert(r@->fields =~= self.node()->fields);
        r
    }

    fn decode(node: &Structured) -> (r: Result<Self, DecodeError>) {
        let fields = match decode_record(node, "Color", 4) {
            Err(e) => {
                return Err(e);
            },
            Ok(fields) => fields,
        };
        let r = match decode_field::<Single>(fields, 0, "r") {
            Err(e) => {
                return Err(e);
            },
            Ok(v) => v,
        };
        let g = match decode_field::<Single>(fields, 1, "g") {
            Err(e) => {
                return Err(e);
            },
            Ok(v) => v,
        };
        let b = match decode_field::<Single>(fields, 2, "b") {
            Err(e) => {
                return Err(e);
            },
            Ok(v) => v,
        };
        let a = match decode_field::<Single>(fields, 3, "a") {
            Err(e) => {
                return Err(e);
            },
            Ok(v) => v,
        };
        Ok(Color { r, g, b, a })
    }

    fn same(&self, other: &Self) -> (r: bool) {
        *self == *other
    }
}

/// The three element vectors of a basis, as a tuple.
pub open spec fn elements_node(basis: Basis) -> Node {
    Node::Tuple(seq![basis.first.node(), basis.second.node(), basis.third.node()])
}

/// The basis whose element vectors a tuple of three holds, or why the value
/// holds none.
pub open spec fn parse_elements(node: Node) -> Result<Basis, Failure> {
    match node {
        Node::Tuple(items) => if items.len() != 3 {
            Err(wrong_shape(Shape::Tuple { len: 3 }, node))
        } else {
            match Vector3::parse(items[0]) {
                Err(e) => Err(e),
                Ok(first) => match Vector3::parse(items[1]) {
                    Err(e) => Err(e),
                    Ok(second) => match Vector3::parse(items[2]) {
                        Err(e) => Err(e),
                        Ok(third) => Ok(Basis { first, second, third }),
                    },
                },
            }
        },
        _ => Err(wrong_shape(Shape::Tuple { len: 3 }, node)),
    }
}

impl Payload for Basis {
    open spec fn node(self) -> Node {
        Node::Record { name: "Basis"@, fields: seq![("elements"@, elements_node(self))] }
    }

    open spec fn parse(node: Node) -> Result<Self, Failure> {
        match record_fields(node, "Basis"@, 1) {
            Err(e) => Err(e),
            Ok(fields) => if fields[0].0 != "elements"@ {
                Err(Failure::Name { expected: "elements"@, found: fields[0].0 })
            } else {
                parse_elements(fields[0].1)
            },
        }
    }

    proof fn lemma_round_trip(self) {
        self.first.lemma_round_trip();
        self.second.lemma_round_trip();
        self.third.lemma_round_trip();
    }

    proof fn lemma_plain(self) {
        self.first.lemma_plain();
        self.second.lemma_plain();
        self.third.lemma_plain();
        let items = elements_node(self)->Tuple_0;
        assert forall|i: int| 0 <= i < items.len() implies tagless(#[trigger] items[i])
            && names_known(items[i]) by {
            if i == 0 {
            } else if i == 1 {
            }
        }
        assert(tagless(elements_node(self)));
        assert(names_known(elements_node(self)));
        let fields = self.node()->fields;
        assert forall|i: int| 0 <= i < fields.len() implies tagless((#[trigger] fields[i]).1)
            && encoder_name(fields[i].0) && names_known(fields[i].1) by {
        }
    }

    fn encode(&self) -> (r: Structured) {
        let mut items: Vec<Structured> = Vec::new();
        items.push(self.first.encode());
        items.push(self.second.encode());
        items.push(self.third.encode());
        let elements = Structured::Tuple(items);
        assert(elements@->Tuple_0 =~= elements_node(*self)->Tuple_0);
        let mut fields: Vec<(String, Structured)> = Vec::new();
        fields.push(("elements".to_owned(), elements));
        let r = Structured::Record { name: "Basis".to_owned(), fields };
        assert(r@->fields =~= self.node()->fields);
        r
    }

    fn decode(node: &Structured) -> (r: Result<Self, DecodeError>) {
        let fields = match decode_record(node, "Basis", 1) {
            Err(e) => {
                return Err(e);
            },
            Ok(fields) => fields,
        };
        if !text_eq(fields[0].0.as_str(), "elements") {
            return Err(name_error("elements", fields[0].0.as_str()));
        }
        match &fields[0].1 {
            Structured::Tuple(items) => {
                if items.len() != 3 {
                    return Err(shape_error(Shape::Tuple { len: 3 }, &fields[0].1));
                }
                let first = match Vector3::decode(&items[0]) {
                    Err(e) => {
                        return Err(e);
                    },
                    Ok(v) => v,
                };
                let second = match Vector3::decode(&items[1]) {
                    Err(e) => {
                        return Err(e);
                    },
                    Ok(v) => v,
                };
                let third = match Vector3::decode(&items[2]) {
                    Err(e) => {
                        return Err(e);
                    },
                    Ok(v) => v,
                };
                Ok(Basis { first, second, third })
            },
            _ => Err(shape_error(Shape::Tuple { len: 3 }, &fields[0].1)),
        }
    }

    fn same(&self, other: &Self) -> (r: bool) {
        *self == *other
    }
}

impl Payload for Transform {
    open spec fn node(self) -> Node {
        Node::Record {
            name: "Transform"@,
            fields: seq![
                field_node("basis"@, self.basis),
                field_node("origin"@, self.origin),
            ],
        }
    }

    open spec fn parse(node: Node) -> Result<Self, Failure> {
        match record_fields(node, "Transform"@, 2) {
            Err(e) => Err(e),
            Ok(fields) => match parse_field::<Basis>(fields, 0, "basis"@) {
                Err(e) => Err(e),
                Ok(basis) => match parse_field::<Vector3>(fields, 1, "origin"@) {
                    Err(e) => Err(e),
                    Ok(origin) => Ok(Transform { basis, origin }),
                },
            },
        }
    }

    proof fn lemma_round_trip(self) {
        self.basis.lemma_round_trip();
        self.origin.lemma_round_trip();
    }

    proof fn lemma_plain(self) {
        self.basis.lemma_plain();
        self.origin.lemma_plain();
        let fields = self.node()->fields;
        assert forall|i: int| 0 <= i < fields.len() implies tagless((#[trigger] fields[i]).1)
            && encoder_name(fields[i].0) && names_known(fields[i].1) by {
            if i == 0 {
            }
        }
    }

    fn encode(&self) -> (r: Structured) {
        let mut fields: Vec<(String, Structured)> = Vec::new();
        fields.push(encode_field("basis", &self.basis));
        fields.push(encode_field("origin", &self.origin));
        let r = Structured::Record { name: "Transform".to_owned(), fields };
        assert(r@->fields =~= self.node()->fields);
        r
    }

    fn decode(node: &Structured) -> (r: Result<Self, DecodeError>) {
        let fields = match decode_record(node, "Transform", 2) {
            Err(e) => {
                return Err(e);
            },
            Ok(fields) => fields,
        };
        let basis = match decode_field::<Basis>(fields, 0, "basis") {
            Err(e) => {
                return Err(e);
            },
            Ok(v) => v,
        };
        let origin = match decode_field::<Vector3>(fields, 1, "origin") {
            Err(e) => {
                return Err(e);
            },
            Ok(v) => v,
        };
        Ok(Transform { basis, origin })
    }

    fn same(&self, other: &Self) -> (r: bool) {
        *self == *other
    }
}

/// `true` for the names that the encoder gives to records, to their fields
/// and to wrappers.
pub open spec fn encoder_name(name: Seq<char>) -> bool {
    name == "Vector2"@ || name == "Rect2"@ || name == "Vector3"@ || name == "Transform2D"@
        || name == "Plane"@ || name == "Quat"@ || name == "Aabb"@ || name == "Basis"@
        || name == "Transform"@ || name == "Color"@ || name == "NodePath"@
        || name == "DictionaryDispatchEntry"@ || name == "x"@ || name == "y"@
        || name == "z"@ || name == "w"@ || name == "r"@ || name == "g"@ || name == "b"@
        || name == "a"@ || name == "position"@ || name == "size"@ || name == "normal"@
        || name == "d"@ || name == "basis"@ || name == "origin"@ || name == "elements"@
        || name == "key"@ || name == "value"@
}

/// `true` when every record, field and wrapper of the structured value,
/// at any depth, has one of the encoder's names, and every tag is a kind.
pub open spec fn names_known(node: Node) -> bool
    decreases node,
{
    match node {
        Node::Variant { tag, payload } => tag is Kind && names_known(*payload),
        Node::Sequence(items) => forall|i: int|
            0 <= i < items.len() ==> names_known(#[trigger] items[i]),
        Node::Tuple(items) => forall|i: int|
            0 <= i < items.len() ==> names_known(#[trigger] items[i]),
        Node::Record { name, fields } => encoder_name(name) && forall|i: int|
            0 <= i < fields.len() ==> encoder_name((#[trigger] fields[i]).0) && names_known(
                fields[i].1,
            ),
        Node::Newtype { name, value } => encoder_name(name) && names_known(*value),
        _ => true,
    }
}

/// The name as a constant, where it is one that the encoder gives to a
/// record, a field or a wrapper: what a format driver asks for in place of
/// a string.
pub fn constant_name(name: &str) -> (r: Option<&'static str>)
    ensures
        match r {
            Some(constant) => encoder_name(name@) && constant@ == name@,
            None => !encoder_name(name@),
        },
{
    if text_eq(name, "Vector2") {
        Some("Vector2")
    } else if text_eq(name, "Rect2") {
        Some("Rect2")
    } else if text_eq(name, "Vector3") {
        Some("Vector3")
    } else if text_eq(name, "Transform2D") {
        Some("Transform2D")
    } else if text_eq(name, "Plane") {
        Some("Plane")
    } else if text_eq(name, "Quat") {
        Some("Quat")
    } else if text_eq(name, "Aabb") {
        Some("Aabb")
    } else if text_eq(name, "Basis") {
        Some("Basis")
    } else if text_eq(name, "Transform") {
        Some("Transform")
    } else if text_eq(name, "Color") {
        Some("Color")
    } else if text_eq(name, "NodePath") {
        Some("NodePath")
    } else if text_eq(name, "DictionaryDispatchEntry") {
        Some("DictionaryDispatchEntry")
    } else if text_eq(name, "x") {
        Some("x")
    } else if text_eq(name, "y") {
        Some("y")
    } else if text_eq(name, "z") {
        Some("z")
    } else if text_eq(name, "w") {
        Some("w")
    } else if text_eq(name, "r") {
        Some("r")
    } else if text_eq(name, "g") {
        Some("g")
    } else if text_eq(name, "b") {
        Some("b")
    } else if text_eq(name, "a") {
        Some("a")
    } else if text_eq(name, "position") {
        Some("position")
    } else if text_eq(name, "size") {
        Some("size")
    } else if text_eq(name, "normal") {
        Some("normal")
    } else if text_eq(name, "d") {
        Some("d")
    } else if text_eq(name, "basis") {
        Some("basis")
    } else if text_eq(name, "origin") {
        Some("origin")
    } else if text_eq(name, "elements") {
        Some("elements")
    } else if text_eq(name, "key") {
        Some("key")
    } else if text_eq(name, "value") {
        Some("value")
    } else {
        None
    }
}

/// The sequence that encodes the items, each by its own encoding.
pub open spec fn seq_node<T: Payload>(items: Seq<T>) -> Node {
    Node::Sequence(Seq::new(items.len(), |i: int| items[i].node()))
}

/// What each item of a sequence decodes to.
pub open spec fn parse_each<T: Payload>(items: Seq<Node>) -> Seq<Result<T, Failure>> {
    Seq::new(items.len(), |i: int| T::parse(items[i]))
}

/// The items that a sequence decodes to, or the failure of the first item
/// that fails.
pub open spec fn parse_seq<T: Payload>(node: Node) -> Result<Seq<T>, Failure> {
    match node {
        Node::Sequence(items) => collect(parse_each::<T>(items)),
        _ => Err(wrong_shape(Shape::Sequence, node)),
    }
}

/// Decoding a sequence inverts encoding it.
pub proof fn lemma_seq_round_trip<T: Payload>(items: Seq<T>)
    ensures
        parse_seq::<T>(seq_node(items)) == Ok::<Seq<T>, Failure>(items),
{
    let nodes = seq_node(items)->Sequence_0;
    let results = parse_each::<T>(nodes);
    assert forall|i: int| 0 <= i < results.len() implies (#[trigger] results[i]) == Ok::<
        T,
        Failure,
    >(items[i]) by {
        items[i].lemma_round_trip();
    }
    lemma_collect_ok(results);
    assert(Seq::new(results.len(), |i: int| results[i]->Ok_0) =~= items);
}

/// The encoding of a sequence of plain items holds no tagged value, and
/// every name in it is one of the encoder's names.
pub proof fn lemma_seq_plain<T: Payload>(items: Seq<T>)
    ensures
        tagless(seq_node(items)),
        names_known(seq_node(items)),
{
    let nodes = seq_node(items)->Sequence_0;
    assert forall|i: int| 0 <= i < nodes.len() implies tagless(#[trigger] nodes[i])
        && names_known(nodes[i]) by {
        items[i].lemma_plain();
    }
}

/// Encodes the items as a sequence.
pub fn encode_seq<T: Payload>(items: &Vec<T>) -> (r: Structured)
    ensures
        r@ == seq_node(items@),
{
    let mut nodes: Vec<Structured> = Vec::new();
    let mut i: usize = 0;
    while i < items.len()
        invariant
            0 <= i <= items.len(),
            nodes.len() == i,
            forall|j: int| 0 <= j < i ==> (#[trigger] nodes@[j])@ == items@[j].node(),
        decreases items.len() - i,
    {
        nodes.push(items[i].encode());
        i += 1;
    }
    let r = Structured::Sequence(nodes);
    assert(r@->Sequence_0 =~= seq_node(items@)->Sequence_0);
    r
}

/// Decodes a sequence of items, each by its own decoding; the first item
/// that fails decides the error.
pub fn decode_seq<T: Payload>(node: &Structured) -> (r: Result<Vec<T>, DecodeError>)
    ensures
        match r {
            Ok(items) => parse_seq::<T>(node@) == Ok::<Seq<T>, Failure>(items@),
            Err(error) => parse_seq::<T>(node@) == Err::<Seq<T>, Failure>(error@),
        },
{
    match node {
        Structured::Sequence(nodes) => {
            let ghost results = parse_each::<T>(node@->Sequence_0);
            let mut items: Vec<T> = Vec::new();
            let mut i: usize = 0;
            while i < nodes.len()
                invariant
                    0 <= i <= nodes.len(),
                    node == Structured::Sequence(*nodes),
                    results == parse_each::<T>(node@->Sequence_0),
                    collect(results.take(i as int)) == Ok::<Seq<T>, Failure>(items@),
                decreases nodes.len() - i,
            {
                proof {
                    assert(results.take(i + 1).drop_last() =~= results.take(i as int));
                    assert(results.take(i + 1).last() == T::parse(nodes@[i as int]@));
                }
                match T::decode(&nodes[i]) {
                    Err(e) => {
                        proof {
                            lemma_collect_prefix_err(results, i + 1);
                        }
                        return Err(e);
                    },
                    Ok(item) => {
                        items.push(item);
                    },
                }
                i += 1;
            }
            assert(results.take(nodes.len() as int) =~= results);
            Ok(items)
        },
        _ => Err(shape_error(Shape::Sequence, node)),
    }
}

} // verus!
