//! The discriminant registry: the closed set of value kinds, each with a
//! stable numeric id, a stable name and the byte-string form of that name.
//!
//! The three encodings are a wire-compatibility surface. An id, a name or a
//! byte string resolves to at most one kind, and each kind is found again from
//! any of its three encodings.

use crate::text::{bytes_eq, lemma_utf8_injective, text_eq};
use vstd::prelude::*;
use vstd::utf8::encode_utf8;

verus! {

/// The kinds a dynamic value can have, in id order.
#[derive(Clone, Copy, Debug, PartialEq, Eq, Structural)]
pub enum VariantType {
    /// No value.
    Nil,
    /// A boolean.
    Bool,
    /// A 64-bit signed integer.
    I64,
    /// A double-precision number.
    F64,
    /// A text string.
    GodotString,
    /// A 2D vector.
    Vector2,
    /// A 2D rectangle: position and size.
    Rect2,
    /// A 3D vector.
    Vector3,
    /// A 2D affine transform.
    Transform2D,
    /// A plane: normal and distance.
    Plane,
    /// A quaternion.
    Quat,
    /// An axis-aligned box: position and size.
    Aabb,
    /// A 3x3 basis.
    Basis,
    /// A 3D transform: basis and origin.
    Transform,
    /// An RGBA color.
    Color,
    /// A path in a scene tree.
    NodePath,
    /// A resource id (opaque handle).
    Rid,
    /// An object reference (opaque handle).
    Object,
    /// An association of values to values.
    Dictionary,
    /// An ordered collection of values.
    VariantArray,
    /// An array of bytes.
    ByteArray,
    /// An array of 32-bit integers.
    Int32Array,
    /// An array of single-precision numbers.
    Float32Array,
    /// An array of strings.
    StringArray,
    /// An array of 2D vectors.
    Vector2Array,
    /// An array of 3D vectors.
    Vector3Array,
    /// An array of colors.
    ColorArray,
}

/// How many kinds there are; ids are the integers below it.
pub const KIND_COUNT: u64 = 27;

impl VariantType {
    /// The id of this kind, as a number.
    pub open spec fn spec_id(self) -> u32 {
        match self {
            VariantType::Nil => 0,
            VariantType::Bool => 1,
            VariantType::I64 => 2,
            VariantType::F64 => 3,
            VariantType::GodotString => 4,
            VariantType::Vector2 => 5,
            VariantType::Rect2 => 6,
            VariantType::Vector3 => 7,
            VariantType::Transform2D => 8,
            VariantType::Plane => 9,
            VariantType::Quat => 10,
            VariantType::Aabb => 11,
            VariantType::Basis => 12,
            VariantType::Transform => 13,
            VariantType::Color => 14,
            VariantType::NodePath => 15,
            VariantType::Rid => 16,
            VariantType::Object => 17,
            VariantType::Dictionary => 18,
            VariantType::VariantArray => 19,
            VariantType::ByteArray => 20,
            VariantType::Int32Array => 21,
            VariantType::Float32Array => 22,
            VariantType::StringArray => 23,
            VariantType::Vector2Array => 24,
            VariantType::Vector3Array => 25,
            VariantType::ColorArray => 26,
        }
    }

    /// The name of this kind, as text.
    pub open spec fn spec_name(self) -> Seq<char> {
        match self {
            VariantType::Nil => "Nil"@,
            VariantType::Bool => "Bool"@,
            VariantType::I64 => "I64"@,
            VariantType::F64 => "F64"@,
            VariantType::GodotString => "GodotString"@,
            VariantType::Vector2 => "Vector2"@,
            VariantType::Rect2 => "Rect2"@,
            VariantType::Vector3 => "Vector3"@,
            VariantType::Transform2D => "Transform2D"@,
            VariantType::Plane => "Plane"@,
            VariantType::Quat => "Quat"@,
            VariantType::Aabb => "Aabb"@,
            VariantType::Basis => "Basis"@,
            VariantType::Transform => "Transform"@,
            VariantType::Color => "Color"@,
            VariantType::NodePath => "NodePath"@,
            VariantType::Rid => "Rid"@,
            VariantType::Object => "Object"@,
            VariantType::Dictionary => "Dictionary"@,
            VariantType::VariantArray => "VariantArray"@,
            VariantType::ByteArray => "ByteArray"@,
            VariantType::Int32Array => "Int32Array"@,
            VariantType::Float32Array => "Float32Array"@,
            VariantType::StringArray => "StringArray"@,
            VariantType::Vector2Array => "Vector2Array"@,
            VariantType::Vector3Array => "Vector3Array"@,
            VariantType::ColorArray => "ColorArray"@,
        }
    }

    /// The name of this kind, as UTF-8 bytes.
    pub open spec fn spec_name_bytes(self) -> Seq<u8> {
        encode_utf8(self.spec_name())
    }

    /// The kind with the given id, if there is one.
    pub open spec fn of_id(id: int) -> Option<VariantType> {
        if id == 0 {
            Some(VariantType::Nil)
        } else if id == 1 {
            Some(VariantType::Bool)
        } else if id == 2 {
            Some(VariantType::I64)
        } else if id == 3 {
            Some(VariantType::F64)
        } else if id == 4 {
            Some(VariantType::GodotString)
        } else if id == 5 {
            Some(VariantType::Vector2)
        } else if id == 6 {
            Some(VariantType::Rect2)
        } else if id == 7 {
            Some(VariantType::Vector3)
        } else if id == 8 {
            Some(VariantType::Transform2D)
        } else if id == 9 {
            Some(VariantType::Plane)
        } else if id == 10 {
            Some(VariantType::Quat)
        } else if id == 11 {
            Some(VariantType::Aabb)
        } else if id == 12 {
            Some(VariantType::Basis)
        } else if id == 13 {
            Some(VariantType::Transform)
        } else if id == 14 {
            Some(VariantType::Color)
        } else if id == 15 {
            Some(VariantType::NodePath)
        } else if id == 16 {
            Some(VariantType::Rid)
        } else if id == 17 {
            Some(VariantType::Object)
        } else if id == 18 {
            Some(VariantType::Dictionary)
        } else if id == 19 {
            Some(VariantType::VariantArray)
        } else if id == 20 {
            Some(VariantType::ByteArray)
        } else if id == 21 {
            Some(VariantType::Int32Array)
        } else if id == 22 {
            Some(VariantType::Float32Array)
        } else if id == 23 {
            Some(VariantType::StringArray)
        } else if id == 24 {
            Some(VariantType::Vector2Array)
        } else if id == 25 {
            Some(VariantType::Vector3Array)
        } else if id == 26 {
            Some(VariantType::ColorArray)
        } else {
            None
        }
    }

    /// The kind with the given name, if there is one.
    pub open spec fn of_name(name: Seq<char>) -> Option<VariantType> {
        if name == "Nil"@ {
            Some(VariantType::Nil)
        } else if name == "Bool"@ {
            Some(VariantType::Bool)
        } else if name == "I64"@ {
            Some(VariantType::I64)
        } else if name == "F64"@ {
            Some(VariantType::F64)
        } else if name == "GodotString"@ {
            Some(VariantType::GodotString)
        } else if name == "Vector2"@ {
            Some(VariantType::Vector2)
        } else if name == "Rect2"@ {
            Some(VariantType::Rect2)
        } else if name == "Vector3"@ {
            Some(VariantType::Vector3)
        } else if name == "Transform2D"@ {
            Some(VariantType::Transform2D)
        } else if name == "Plane"@ {
            Some(VariantType::Plane)
        } else if name == "Quat"@ {
            Some(VariantType::Quat)
        } else if name == "Aabb"@ {
            Some(VariantType::Aabb)
        } else if name == "Basis"@ {
            Some(VariantType::Basis)
        } else if name == "Transform"@ {
            Some(VariantType::Transform)
        } else if name == "Color"@ {
            Some(VariantType::Color)
        } else if name == "NodePath"@ {
            Some(VariantType::NodePath)
        } else if name == "Rid"@ {
            Some(VariantType::Rid)
        } else if name == "Object"@ {
            Some(VariantType::Object)
        } else if name == "Dictionary"@ {
            Some(VariantType::Dictionary)
        } else if name == "VariantArray"@ {
            Some(VariantType::VariantArray)
        } else if name == "ByteArray"@ {
            Some(VariantType::ByteArray)
        } else if name == "Int32Array"@ {
            Some(VariantType::Int32Array)
        } else if name == "Float32Array"@ {
            Some(VariantType::Float32Array)
        } else if name == "StringArray"@ {
            Some(VariantType::StringArray)
        } else if name == "Vector2Array"@ {
            Some(VariantType::Vector2Array)
        } else if name == "Vector3Array"@ {
            Some(VariantType::Vector3Array)
        } else if name == "ColorArray"@ {
            Some(VariantType::ColorArray)
        } else {
            None
        }
    }

    /// The kind whose name has the given UTF-8 bytes, if there is one.
    pub open spec fn of_bytes(bytes: Seq<u8>) -> Option<VariantType> {
        if bytes == VariantType::Nil.spec_name_bytes() {
            Some(VariantType::Nil)
        } else if bytes == VariantType::Bool.spec_name_bytes() {
            Some(VariantType::Bool)
        } else if bytes == VariantType::I64.spec_name_bytes() {
            Some(VariantType::I64)
        } else if bytes == VariantType::F64.spec_name_bytes() {
            Some(VariantType::F64)
        } else if bytes == VariantType::GodotString.spec_name_bytes() {
            Some(VariantType::GodotString)
        } else if bytes == VariantType::Vector2.spec_name_bytes() {
            Some(VariantType::Vector2)
        } else if bytes == VariantType::Rect2.spec_name_bytes() {
            Some(VariantType::Rect2)
        } else if bytes == VariantType::Vector3.spec_name_bytes() {
            Some(VariantType::Vector3)
        } else if bytes == VariantType::Transform2D.spec_name_bytes() {
            Some(VariantType::Transform2D)
        } else if bytes == VariantType::Plane.spec_name_bytes() {
            Some(VariantType::Plane)
        } else if bytes == VariantType::Quat.spec_name_bytes() {
            Some(VariantType::Quat)
        } else if bytes == VariantType::Aabb.spec_name_bytes() {
            Some(VariantType::Aabb)
        } else if bytes == VariantType::Basis.spec_name_bytes() {
            Some(VariantType::Basis)
        } else if bytes == VariantType::Transform.spec_name_bytes() {
            Some(VariantType::Transform)
        } else if bytes == VariantType::Color.spec_name_bytes() {
            Some(VariantType::Color)
        } else if bytes == VariantType::NodePath.spec_name_bytes() {
            Some(VariantType::NodePath)
        } else if bytes == VariantType::Rid.spec_name_bytes() {
            Some(VariantType::Rid)
        } else if bytes == VariantType::Object.spec_name_bytes() {
            Some(VariantType::Object)
        } else if bytes == VariantType::Dictionary.spec_name_bytes() {
            Some(VariantType::Dictionary)
        } else if bytes == VariantType::VariantArray.spec_name_bytes() {
            Some(VariantType::VariantArray)
        } else if bytes == VariantType::ByteArray.spec_name_bytes() {
            Some(VariantType::ByteArray)
        } else if bytes == VariantType::Int32Array.spec_name_bytes() {
            Some(VariantType::Int32Array)
        } else if bytes == VariantType::Float32Array.spec_name_bytes() {
            Some(VariantType::Float32Array)
        } else if bytes == VariantType::StringArray.spec_name_bytes() {
            Some(VariantType::StringArray)
        } else if bytes == VariantType::Vector2Array.spec_name_bytes() {
            Some(VariantType::Vector2Array)
        } else if bytes == VariantType::Vector3Array.spec_name_bytes() {
            Some(VariantType::Vector3Array)
        } else if bytes == VariantType::ColorArray.spec_name_bytes() {
            Some(VariantType::ColorArray)
        } else {
            None
        }
    }

    /// The dense numeric id of this kind.
    pub fn id(self) -> (r: u32)
        ensures
            r == self.spec_id(),
            r < KIND_COUNT,
    {
        match self {
            VariantType::Nil => 0,
            VariantType::Bool => 1,
            VariantType::I64 => 2,
            VariantType::F64 => 3,
            VariantType::GodotString => 4,
            VariantType::Vector2 => 5,
            VariantType::Rect2 => 6,
            VariantType::Vector3 => 7,
            VariantType::Transform2D => 8,
            VariantType::Plane => 9,
            VariantType::Quat => 10,
            VariantType::Aabb => 11,
            VariantType::Basis => 12,
            VariantType::Transform => 13,
            VariantType::Color => 14,
            VariantType::NodePath => 15,
            VariantType::Rid => 16,
            VariantType::Object => 17,
            VariantType::Dictionary => 18,
            VariantType::VariantArray => 19,
            VariantType::ByteArray => 20,
            VariantType::Int32Array => 21,
            VariantType::Float32Array => 22,
            VariantType::StringArray => 23,
            VariantType::Vector2Array => 24,
            VariantType::Vector3Array => 25,
            VariantType::ColorArray => 26,
        }
    }

    /// The human-readable name of this kind.
    pub fn name(self) -> (r: &'static str)
        ensures
            r@ == self.spec_name(),
    {
        match self {
            VariantType::Nil => "Nil",
            VariantType::Bool => "Bool",
            VariantType::I64 => "I64",
            VariantType::F64 => "F64",
            VariantType::GodotString => "GodotString",
            VariantType::Vector2 => "Vector2",
            VariantType::Rect2 => "Rect2",
            VariantType::Vector3 => "Vector3",
            VariantType::Transform2D => "Transform2D",
            VariantType::Plane => "Plane",
            VariantType::Quat => "Quat",
            VariantType::Aabb => "Aabb",
            VariantType::Basis => "Basis",
            VariantType::Transform => "Transform",
            VariantType::Color => "Color",
            VariantType::NodePath => "NodePath",
            VariantType::Rid => "Rid",
            VariantType::Object => "Object",
            VariantType::Dictionary => "Dictionary",
            VariantType::VariantArray => "VariantArray",
            VariantType::ByteArray => "ByteArray",
            VariantType::Int32Array => "Int32Array",
            VariantType::Float32Array => "Float32Array",
            VariantType::StringArray => "StringArray",
            VariantType::Vector2Array => "Vector2Array",
            VariantType::Vector3Array => "Vector3Array",
            VariantType::ColorArray => "ColorArray",
        }
    }

    /// Resolves a numeric id: the kind with that id, or `None` where no kind
    /// has it.
    pub fn from_id(value: u64) -> (r: Option<VariantType>)
        ensures
            r == Self::of_id(value as int),
    {
        if value == 0 {
            Some(VariantType::Nil)
        } else if value == 1 {
            Some(VariantType::Bool)
        } else if value == 2 {
            Some(VariantType::I64)
        } else if value == 3 {
            Some(VariantType::F64)
        } else if value == 4 {
            Some(VariantType::GodotString)
        } else if value == 5 {
            Some(VariantType::Vector2)
        } else if value == 6 {
            Some(VariantType::Rect2)
        } else if value == 7 {
            Some(VariantType::Vector3)
        } else if value == 8 {
            Some(VariantType::Transform2D)
        } else if value == 9 {
            Some(VariantType::Plane)
        } else if value == 10 {
            Some(VariantType::Quat)
        } else if value == 11 {
            Some(VariantType::Aabb)
        } else if value == 12 {
            Some(VariantType::Basis)
        } else if value == 13 {
            Some(VariantType::Transform)
        } else if value == 14 {
            Some(VariantType::Color)
        } else if value == 15 {
            Some(VariantType::NodePath)
        } else if value == 16 {
            Some(VariantType::Rid)
        } else if value == 17 {
            Some(VariantType::Object)
        } else if value == 18 {
            Some(VariantType::Dictionary)
        } else if value == 19 {
            Some(VariantType::VariantArray)
        } else if value == 20 {
            Some(VariantType::ByteArray)
        } else if value == 21 {
            Some(VariantType::Int32Array)
        } else if value == 22 {
            Some(VariantType::Float32Array)
        } else if value == 23 {
            Some(VariantType::StringArray)
        } else if value == 24 {
            Some(VariantType::Vector2Array)
        } else if value == 25 {
            Some(VariantType::Vector3Array)
        } else if value == 26 {
            Some(VariantType::ColorArray)
        } else {
            None
        }
    }

    /// Resolves a name: the kind with that name, or `None` where no kind has
    /// it.
    pub fn from_name(value: &str) -> (r: Option<VariantType>)
        ensures
            r == Self::of_name(value@),
    {
        if text_eq(value, "Nil") {
            Some(VariantType::Nil)
        } else if text_eq(value, "Bool") {
            Some(VariantType::Bool)
        } else if text_eq(value, "I64") {
            Some(VariantType::I64)
        } else if text_eq(value, "F64") {
            Some(VariantType::F64)
        } else if text_eq(value, "GodotString") {
            Some(VariantType::GodotString)
        } else if text_eq(value, "Vector2") {
            Some(VariantType::Vector2)
        } else if text_eq(value, "Rect2") {
            Some(VariantType::Rect2)
        } else if text_eq(value, "Vector3") {
            Some(VariantType::Vector3)
        } else if text_eq(value, "Transform2D") {
            Some(VariantType::Transform2D)
        } else if text_eq(value, "Plane") {
            Some(VariantType::Plane)
        } else if text_eq(value, "Quat") {
            Some(VariantType::Quat)
        } else if text_eq(value, "Aabb") {
            Some(VariantType::Aabb)
        } else if text_eq(value, "Basis") {
            Some(VariantType::Basis)
        } else if text_eq(value, "Transform") {
            Some(VariantType::Transform)
        } else if text_eq(value, "Color") {
            Some(VariantType::Color)
        } else if text_eq(value, "NodePath") {
            Some(VariantType::NodePath)
        } else if text_eq(value, "Rid") {
            Some(VariantType::Rid)
        } else if text_eq(value, "Object") {
            Some(VariantType::Object)
        } else if text_eq(value, "Dictionary") {
            Some(VariantType::Dictionary)
        } else if text_eq(value, "VariantArray") {
            Some(VariantType::VariantArray)
        } else if text_eq(value, "ByteArray") {
            Some(VariantType::ByteArray)
        } else if text_eq(value, "Int32Array") {
            Some(VariantType::Int32Array)
        } else if text_eq(value, "Float32Array") {
            Some(VariantType::Float32Array)
        } else if text_eq(value, "StringArray") {
            Some(VariantType::StringArray)
        } else if text_eq(value, "Vector2Array") {
            Some(VariantType::Vector2Array)
        } else if text_eq(value, "Vector3Array") {
            Some(VariantType::Vector3Array)
        } else if text_eq(value, "ColorArray") {
            Some(VariantType::ColorArray)
        } else {
            None
        }
    }

    /// Resolves the byte-string form of a name: the kind whose name has
    /// exactly these UTF-8 bytes, or `None` where no kind has it.
    pub fn from_bytes(value: &[u8]) -> (r: Option<VariantType>)
        ensures
            r == Self::of_bytes(value@),
    {
        if bytes_eq(value, "Nil".as_bytes()) {
            Some(VariantType::Nil)
        } else if bytes_eq(value, "Bool".as_bytes()) {
            Some(VariantType::Bool)
        } else if bytes_eq(value, "I64".as_bytes()) {
            Some(VariantType::I64)
        } else if bytes_eq(value, "F64".as_bytes()) {
            Some(VariantType::F64)
        } else if bytes_eq(value, "GodotString".as_bytes()) {
            Some(VariantType::GodotString)
        } else if bytes_eq(value, "Vector2".as_bytes()) {
            Some(VariantType::Vector2)
        } else if bytes_eq(value, "Rect2".as_bytes()) {
            Some(VariantType::Rect2)
        } else if bytes_eq(value, "Vector3".as_bytes()) {
            Some(VariantType::Vector3)
        } else if bytes_eq(value, "Transform2D".as_bytes()) {
            Some(VariantType::Transform2D)
        } else if bytes_eq(value, "Plane".as_bytes()) {
            Some(VariantType::Plane)
        } else if bytes_eq(value, "Quat".as_bytes()) {
            Some(VariantType::Quat)
        } else if bytes_eq(value, "Aabb".as_bytes()) {
            Some(VariantType::Aabb)
        } else if bytes_eq(value, "Basis".as_bytes()) {
            Some(VariantType::Basis)
        } else if bytes_eq(value, "Transform".as_bytes()) {
            Some(VariantType::Transform)
        } else if bytes_eq(value, "Color".as_bytes()) {
            Some(VariantType::Color)
        } else if bytes_eq(value, "NodePath".as_bytes()) {
            Some(VariantType::NodePath)
        } else if bytes_eq(value, "Rid".as_bytes()) {
            Some(VariantType::Rid)
        } else if bytes_eq(value, "Object".as_bytes()) {
            Some(VariantType::Object)
        } else if bytes_eq(value, "Dictionary".as_bytes()) {
            Some(VariantType::Dictionary)
        } else if bytes_eq(value, "VariantArray".as_bytes()) {
            Some(VariantType::VariantArray)
        } else if bytes_eq(value, "ByteArray".as_bytes()) {
            Some(VariantType::ByteArray)
        } else if bytes_eq(value, "Int32Array".as_bytes()) {
            Some(VariantType::Int32Array)
        } else if bytes_eq(value, "Float32Array".as_bytes()) {
            Some(VariantType::Float32Array)
        } else if bytes_eq(value, "StringArray".as_bytes()) {
            Some(VariantType::StringArray)
        } else if bytes_eq(value, "Vector2Array".as_bytes()) {
            Some(VariantType::Vector2Array)
        } else if bytes_eq(value, "Vector3Array".as_bytes()) {
            Some(VariantType::Vector3Array)
        } else if bytes_eq(value, "ColorArray".as_bytes()) {
            Some(VariantType::ColorArray)
        } else {
            None
        }
    }

    /// What tells the names apart: the length, the first character and,
    /// where the name is long enough, the seventh.
    pub open spec fn name_mark(name: Seq<char>) -> (nat, char, char) {
        (name.len(), name[0], if name.len() > 6 { name[6] } else { ' ' })
    }

    /// The mark of each kind's name.
    pub proof fn lemma_name_mark(self)
        ensures
            Self::name_mark(self.spec_name()) == match self {
                VariantType::Nil => (3nat, 'N', ' '),
                VariantType::Bool => (4nat, 'B', ' '),
                VariantType::I64 => (3nat, 'I', ' '),
                VariantType::F64 => (3nat, 'F', ' '),
                VariantType::GodotString => (11nat, 'G', 't'),
                VariantType::Vector2 => (7nat, 'V', '2'),
                VariantType::Rect2 => (5nat, 'R', ' '),
                VariantType::Vector3 => (7nat, 'V', '3'),
                VariantType::Transform2D => (11nat, 'T', 'o'),
                VariantType::Plane => (5nat, 'P', ' '),
                VariantType::Quat => (4nat, 'Q', ' '),
                VariantType::Aabb => (4nat, 'A', ' '),
                VariantType::Basis => (5nat, 'B', ' '),
                VariantType::Transform => (9nat, 'T', 'o'),
                VariantType::Color => (5nat, 'C', ' '),
                VariantType::NodePath => (8nat, 'N', 't'),
                VariantType::Rid => (3nat, 'R', ' '),
                VariantType::Object => (6nat, 'O', ' '),
                VariantType::Dictionary => (10nat, 'D', 'n'),
                VariantType::VariantArray => (12nat, 'V', 't'),
                VariantType::ByteArray => (9nat, 'B', 'r'),
                VariantType::Int32Array => (10nat, 'I', 'r'),
                VariantType::Float32Array => (12nat, 'F', '2'),
                VariantType::StringArray => (11nat, 'S', 'A'),
                VariantType::Vector2Array => (12nat, 'V', '2'),
                VariantType::Vector3Array => (12nat, 'V', '3'),
                VariantType::ColorArray => (10nat, 'C', 'r'),
            },
    {
        reveal_strlit("Nil");
        reveal_strlit("Bool");
        reveal_strlit("I64");
        reveal_strlit("F64");
        reveal_strlit("GodotString");
        reveal_strlit("Vector2");
        reveal_strlit("Rect2");
        reveal_strlit("Vector3");
        reveal_strlit("Transform2D");
        reveal_strlit("Plane");
        reveal_strlit("Quat");
        reveal_strlit("Aabb");
        reveal_strlit("Basis");
        reveal_strlit("Transform");
        reveal_strlit("Color");
        reveal_strlit("NodePath");
        reveal_strlit("Rid");
        reveal_strlit("Object");
        reveal_strlit("Dictionary");
        reveal_strlit("VariantArray");
        reveal_strlit("ByteArray");
        reveal_strlit("Int32Array");
        reveal_strlit("Float32Array");
        reveal_strlit("StringArray");
        reveal_strlit("Vector2Array");
        reveal_strlit("Vector3Array");
        reveal_strlit("ColorArray");
    }

    /// No two kinds share a name.
    pub proof fn lemma_names_distinct(a: VariantType, b: VariantType)
        requires
            a.spec_name() == b.spec_name(),
        ensures
            a == b,
    {
        a.lemma_name_mark();
        b.lemma_name_mark();
    }

    /// A name resolves to a kind exactly when it is that kind's name.
    pub proof fn lemma_of_name(name: Seq<char>, kind: VariantType)
        ensures
            Self::of_name(name) == Some(kind) <==> name == kind.spec_name(),
    {
        if name == kind.spec_name() {
            let found = Self::of_name(name);
            assert(found is Some);
            assert(found->0.spec_name() == name);
            Self::lemma_names_distinct(found->0, kind);
        }
    }

    /// A byte string resolves to a kind exactly when it is the UTF-8 form of
    /// that kind's name.
    pub proof fn lemma_of_bytes(bytes: Seq<u8>, kind: VariantType)
        ensures
            Self::of_bytes(bytes) == Some(kind) <==> bytes == kind.spec_name_bytes(),
    {
        assert forall|other: VariantType| #[trigger]
            other.spec_name_bytes() == kind.spec_name_bytes() implies other == kind by {
            lemma_utf8_injective(other.spec_name(), kind.spec_name());
            Self::lemma_names_distinct(other, kind);
        }
    }

    /// An id resolves to a kind exactly when it is that kind's id.
    pub proof fn lemma_of_id(id: int, kind: VariantType)
        ensures
            Self::of_id(id) == Some(kind) <==> id == kind.spec_id(),
    {
    }

    /// The three encodings of a kind all resolve to it: the mapping between
    /// kinds and ids, names and byte strings is one to one.
    pub proof fn lemma_discriminant_bijection(self)
        ensures
            Self::of_id(self.spec_id() as int) == Some(self),
            Self::of_name(self.spec_name()) == Some(self),
            Self::of_bytes(self.spec_name_bytes()) == Some(self),
            self.spec_id() < KIND_COUNT,
    {
        Self::lemma_of_name(self.spec_name(), self);
        Self::lemma_of_bytes(self.spec_name_bytes(), self);
    }

    /// Every id below the count names a kind, and no other id does.
    pub proof fn lemma_ids_dense(id: int)
        ensures
            Self::of_id(id) is Some <==> 0 <= id < KIND_COUNT,
    {
    }
}

} // verus!
