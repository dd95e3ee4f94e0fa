//! The dynamic value, its two collections, and the dispatch projection: a
//! closed sum type with one payload-bearing case per kind.

use crate::association::{
    distinct_keys, has_key, insert, key_index, lemma_insert_distinct, lemma_key_index_is, lookup,
};
use crate::geometry::{
    Aabb, Basis, Color, Double, ObjectRef, Plane, Quat, Rect2, Rid, Single, Transform,
    Transform2D, Vector2, Vector3,
};
use crate::kind::VariantType;
use crate::seqs::{copy_strings, copy_vec, strings_eq, texts, vec_eq};
use vstd::prelude::*;

verus! {

/// What a dynamic value holds, as a mathematical tree: the model that the
/// contracts of this library speak of.
pub enum Value {
    Nil,
    Bool(bool),
    I64(i64),
    F64(Double),
    GodotString(Seq<char>),
    Vector2(Vector2),
    Rect2(Rect2),
    Vector3(Vector3),
    Transform2D(Transform2D),
    Plane(Plane),
    Quat(Quat),
    Aabb(Aabb),
    Basis(Basis),
    Transform(Transform),
    Color(Color),
    NodePath(Seq<char>),
    Rid(Rid),
    Object(ObjectRef),
    Dictionary(Seq<(Value, Value)>),
    VariantArray(Seq<Value>),
    ByteArray(Seq<u8>),
    Int32Array(Seq<i32>),
    Float32Array(Seq<Single>),
    StringArray(Seq<Seq<char>>),
    Vector2Array(Seq<Vector2>),
    Vector3Array(Seq<Vector3>),
    ColorArray(Seq<Color>),
}

/// The dispatch projection of a dynamic value: one case per kind, each with
/// its concrete payload.
#[derive(Debug, PartialEq)]
pub enum VariantDispatch {
    Nil,
    Bool(bool),
    I64(i64),
    F64(Double),
    GodotString(String),
    Vector2(Vector2),
    Rect2(Rect2),
    Vector3(Vector3),
    Transform2D(Transform2D),
    Plane(Plane),
    Quat(Quat),
    Aabb(Aabb),
    Basis(Basis),
    Transform(Transform),
    Color(Color),
    NodePath(String),
    Rid(Rid),
    Object(ObjectRef),
    Dictionary(Dictionary),
    VariantArray(VariantArray),
    ByteArray(Vec<u8>),
    Int32Array(Vec<i32>),
    Float32Array(Vec<Single>),
    StringArray(Vec<String>),
    Vector2Array(Vec<Vector2>),
    Vector3Array(Vec<Vector3>),
    ColorArray(Vec<Color>),
}

/// A dynamic value: a container that holds a value of any one kind.
///
/// Every dynamic value is well formed: no association in it, at any depth,
/// has two entries with equal keys.
#[derive(Debug, PartialEq)]
pub struct Variant {
    value: VariantDispatch,
}

/// An ordered collection of dynamic values, each of them well formed.
#[derive(Debug, PartialEq)]
pub struct VariantArray {
    items: Vec<Variant>,
}

/// An association from dynamic values to dynamic values, in insertion
/// order. No two of its entries have equal keys, and its keys and values
/// are well formed.
#[derive(Debug, PartialEq)]
pub struct Dictionary {
    entries: Vec<(Variant, Variant)>,
}

/// `true` when no association in the value, at any depth, has two entries
/// with equal keys.
pub open spec fn well_formed(value: Value) -> bool
    decreases value,
{
    match value {
        Value::Dictionary(entries) => {
            &&& distinct_keys(entries)
            &&& forall|i: int|
                0 <= i < entries.len() ==> well_formed((#[trigger] entries[i]).0) && well_formed(
                    entries[i].1,
                )
        },
        Value::VariantArray(items) => forall|i: int|
            0 <= i < items.len() ==> well_formed(#[trigger] items[i]),
        _ => true,
    }
}

/// A collection is well formed exactly when its items are.
pub proof fn lemma_well_formed_items(items: Seq<Value>)
    ensures
        well_formed(Value::VariantArray(items)) <==> forall|i: int|
            0 <= i < items.len() ==> well_formed(#[trigger] items[i]),
{
    let whole = Value::VariantArray(items);
    assert(whole->VariantArray_0 == items);
    if well_formed(whole) {
        assert forall|i: int| 0 <= i < items.len() implies well_formed(#[trigger] items[i]) by {
            assert(well_formed(whole->VariantArray_0[i]));
        }
    }
}

impl VariantDispatch {
    /// The tree that this value stands for.
    pub open spec fn model(self) -> Value
        decreases self,
    {
        match self {
            VariantDispatch::Nil => Value::Nil,
            VariantDispatch::Bool(v) => Value::Bool(v),
            VariantDispatch::I64(v) => Value::I64(v),
            VariantDispatch::F64(v) => Value::F64(v),
            VariantDispatch::GodotString(v) => Value::GodotString(v@),
            VariantDispatch::Vector2(v) => Value::Vector2(v),
            VariantDispatch::Rect2(v) => Value::Rect2(v),
            VariantDispatch::Vector3(v) => Value::Vector3(v),
            VariantDispatch::Transform2D(v) => Value::Transform2D(v),
            VariantDispatch::Plane(v) => Value::Plane(v),
            VariantDispatch::Quat(v) => Value::Quat(v),
            VariantDispatch::Aabb(v) => Value::Aabb(v),
            VariantDispatch::Basis(v) => Value::Basis(v),
            VariantDispatch::Transform(v) => Value::Transform(v),
            VariantDispatch::Color(v) => Value::Color(v),
            VariantDispatch::NodePath(v) => Value::NodePath(v@),
            VariantDispatch::Rid(v) => Value::Rid(v),
            VariantDispatch::Object(v) => Value::Object(v),
            VariantDispatch::Dictionary(v) => Value::Dictionary(v.model()),
            VariantDispatch::VariantArray(v) => Value::VariantArray(v.model()),
            VariantDispatch::ByteArray(v) => Value::ByteArray(v@),
            VariantDispatch::Int32Array(v) => Value::Int32Array(v@),
            VariantDispatch::Float32Array(v) => Value::Float32Array(v@),
            VariantDispatch::StringArray(v) => Value::StringArray(texts(v@)),
            VariantDispatch::Vector2Array(v) => Value::Vector2Array(v@),
            VariantDispatch::Vector3Array(v) => Value::Vector3Array(v@),
            VariantDispatch::ColorArray(v) => Value::ColorArray(v@),
        }
    }
}

impl Variant {
    /// The tree that this value stands for.
    pub closed spec fn model(self) -> Value
        decreases self,
    {
        self.value.model()
    }

    /// A dynamic value is well formed.
    #[verifier::type_invariant]
    spec fn valid(self) -> bool {
        well_formed(self.model())
    }
}

impl VariantArray {
    /// The trees of the items, in order.
    pub closed spec fn model(self) -> Seq<Value>
        decreases self,
    {
        Seq::new(
            self.items@.len(),
            |i: int|
                if 0 <= i < self.items@.len() {
                    self.items@[i].model()
                } else {
                    Value::Nil
                },
        )
    }

    /// The items of a collection are well formed.
    #[verifier::type_invariant]
    spec fn valid(self) -> bool {
        well_formed(Value::VariantArray(self.model()))
    }
}

impl Dictionary {
    /// No two entries of an association have equal keys, and its keys and
    /// values are well formed.
    #[verifier::type_invariant]
    spec fn valid(self) -> bool {
        well_formed(Value::Dictionary(self.model()))
    }

    /// The trees of the entries, key and value, in insertion order.
    pub closed spec fn model(self) -> Seq<(Value, Value)>
        decreases self,
    {
        Seq::new(
            self.entries@.len(),
            |i: int|
                if 0 <= i < self.entries@.len() {
                    (self.entries@[i].0.model(), self.entries@[i].1.model())
                } else {
                    (Value::Nil, Value::Nil)
                },
        )
    }
}

impl View for VariantDispatch {
    type V = Value;

    open spec fn view(&self) -> Value {
        self.model()
    }
}

impl View for Variant {
    type V = Value;

    open spec fn view(&self) -> Value {
        self.model()
    }
}

impl View for VariantArray {
    type V = Seq<Value>;

    open spec fn view(&self) -> Seq<Value> {
        self.model()
    }
}

impl View for Dictionary {
    type V = Seq<(Value, Value)>;

    open spec fn view(&self) -> Seq<(Value, Value)> {
        self.model()
    }
}

impl Value {
    /// An item of a collection is a smaller tree than the collection.
    pub proof fn lemma_item_smaller(items: Seq<Value>, i: int)
        requires
            0 <= i < items.len(),
        ensures
            decreases_to!(Value::VariantArray(items) => items[i]),
    {
        let whole = Value::VariantArray(items);
        assert(decreases_to!(whole => whole->VariantArray_0));
        assert(decreases_to!(items => items[i]));
    }

    /// A key and a value of an association are smaller trees than the
    /// association.
    pub proof fn lemma_entry_smaller(entries: Seq<(Value, Value)>, i: int)
        requires
            0 <= i < entries.len(),
        ensures
            decreases_to!(Value::Dictionary(entries) => entries[i].0),
            decreases_to!(Value::Dictionary(entries) => entries[i].1),
    {
        let whole = Value::Dictionary(entries);
        assert(decreases_to!(whole => whole->Dictionary_0));
        assert(decreases_to!(entries => entries[i]));
        assert(decreases_to!(entries[i] => entries[i].0));
        assert(decreases_to!(entries[i] => entries[i].1));
    }

    /// The kind of this value.
    pub open spec fn kind(self) -> VariantType {
        match self {
            Value::Nil => VariantType::Nil,
            Value::Bool(_) => VariantType::Bool,
            Value::I64(_) => VariantType::I64,
            Value::F64(_) => VariantType::F64,
            Value::GodotString(_) => VariantType::GodotString,
            Value::Vector2(_) => VariantType::Vector2,
            Value::Rect2(_) => VariantType::Rect2,
            Value::Vector3(_) => VariantType::Vector3,
            Value::Transform2D(_) => VariantType::Transform2D,
            Value::Plane(_) => VariantType::Plane,
            Value::Quat(_) => VariantType::Quat,
            Value::Aabb(_) => VariantType::Aabb,
            Value::Basis(_) => VariantType::Basis,
            Value::Transform(_) => VariantType::Transform,
            Value::Color(_) => VariantType::Color,
            Value::NodePath(_) => VariantType::NodePath,
            Value::Rid(_) => VariantType::Rid,
            Value::Object(_) => VariantType::Object,
            Value::Dictionary(_) => VariantType::Dictionary,
            Value::VariantArray(_) => VariantType::VariantArray,
            Value::ByteArray(_) => VariantType::ByteArray,
            Value::Int32Array(_) => VariantType::Int32Array,
            Value::Float32Array(_) => VariantType::Float32Array,
            Value::StringArray(_) => VariantType::StringArray,
            Value::Vector2Array(_) => VariantType::Vector2Array,
            Value::Vector3Array(_) => VariantType::Vector3Array,
            Value::ColorArray(_) => VariantType::ColorArray,
        }
    }
}


impl VariantDispatch {
    /// The kind of this value.
    pub fn kind(&self) -> (r: VariantType)
        ensures
            r == self@.kind(),
    {
        match self {
            VariantDispatch::Nil => VariantType::Nil,
            VariantDispatch::Bool(_) => VariantType::Bool,
            VariantDispatch::I64(_) => VariantType::I64,
            VariantDispatch::F64(_) => VariantType::F64,
            VariantDispatch::GodotString(_) => VariantType::GodotString,
            VariantDispatch::Vector2(_) => VariantType::Vector2,
            VariantDispatch::Rect2(_) => VariantType::Rect2,
            VariantDispatch::Vector3(_) => VariantType::Vector3,
            VariantDispatch::Transform2D(_) => VariantType::Transform2D,
            VariantDispatch::Plane(_) => VariantType::Plane,
            VariantDispatch::Quat(_) => VariantType::Quat,
            VariantDispatch::Aabb(_) => VariantType::Aabb,
            VariantDispatch::Basis(_) => VariantType::Basis,
            VariantDispatch::Transform(_) => VariantType::Transform,
            VariantDispatch::Color(_) => VariantType::Color,
            VariantDispatch::NodePath(_) => VariantType::NodePath,
            VariantDispatch::Rid(_) => VariantType::Rid,
            VariantDispatch::Object(_) => VariantType::Object,
            VariantDispatch::Dictionary(_) => VariantType::Dictionary,
            VariantDispatch::VariantArray(_) => VariantType::VariantArray,
            VariantDispatch::ByteArray(_) => VariantType::ByteArray,
            VariantDispatch::Int32Array(_) => VariantType::Int32Array,
            VariantDispatch::Float32Array(_) => VariantType::Float32Array,
            VariantDispatch::StringArray(_) => VariantType::StringArray,
            VariantDispatch::Vector2Array(_) => VariantType::Vector2Array,
            VariantDispatch::Vector3Array(_) => VariantType::Vector3Array,
            VariantDispatch::ColorArray(_) => VariantType::ColorArray,
        }
    }

    /// A copy of this value, equal to it all the way down.
    pub fn duplicate(&self) -> (r: VariantDispatch)
        ensures
            r@ == self@,
            well_formed(r@),
        decreases self,
    {
        proof {
            match self {
                VariantDispatch::Dictionary(v) => {
                    use_type_invariant(v);
                },
                VariantDispatch::VariantArray(v) => {
                    use_type_invariant(v);
                },
                _ => {},
            }
        }
        match self {
            VariantDispatch::Nil => VariantDispatch::Nil,
            VariantDispatch::Bool(v) => VariantDispatch::Bool(*v),
            VariantDispatch::I64(v) => VariantDispatch::I64(*v),
            VariantDispatch::F64(v) => VariantDispatch::F64(*v),
            VariantDispatch::GodotString(v) => VariantDispatch::GodotString(v.clone()),
            VariantDispatch::Vector2(v) => VariantDispatch::Vector2(*v),
            VariantDispatch::Rect2(v) => VariantDispatch::Rect2(*v),
            VariantDispatch::Vector3(v) => VariantDispatch::Vector3(*v),
            VariantDispatch::Transform2D(v) => VariantDispatch::Transform2D(*v),
            VariantDispatch::Plane(v) => VariantDispatch::Plane(*v),
            VariantDispatch::Quat(v) => VariantDispatch::Quat(*v),
            VariantDispatch::Aabb(v) => VariantDispatch::Aabb(*v),
            VariantDispatch::Basis(v) => VariantDispatch::Basis(*v),
            VariantDispatch::Transform(v) => VariantDispatch::Transform(*v),
            VariantDispatch::Color(v) => VariantDispatch::Color(*v),
            VariantDispatch::NodePath(v) => VariantDispatch::NodePath(v.clone()),
            VariantDispatch::Rid(v) => VariantDispatch::Rid(*v),
            VariantDispatch::Object(v) => VariantDispatch::Object(*v),
            VariantDispatch::Dictionary(v) => VariantDispatch::Dictionary(v.duplicate()),
            VariantDispatch::VariantArray(v) => VariantDispatch::VariantArray(v.duplicate()),
            VariantDispatch::ByteArray(v) => VariantDispatch::ByteArray(copy_vec(v)),
            VariantDispatch::Int32Array(v) => VariantDispatch::Int32Array(copy_vec(v)),
            VariantDispatch::Float32Array(v) => VariantDispatch::Float32Array(copy_vec(v)),
            VariantDispatch::StringArray(v) => VariantDispatch::StringArray(copy_strings(v)),
            VariantDispatch::Vector2Array(v) => VariantDispatch::Vector2Array(copy_vec(v)),
            VariantDispatch::Vector3Array(v) => VariantDispatch::Vector3Array(copy_vec(v)),
            VariantDispatch::ColorArray(v) => VariantDispatch::ColorArray(copy_vec(v)),
        }
    }

    /// `true` when the two values are equal all the way down.
    pub fn equals(&self, other: &VariantDispatch) -> (r: bool)
        ensures
            r == (self@ == other@),
        decreases self,
    {
        match (self, other) {
            (VariantDispatch::Nil, VariantDispatch::Nil) => true,
            (VariantDispatch::Bool(a), VariantDispatch::Bool(b)) => *a == *b,
            (VariantDispatch::I64(a), VariantDispatch::I64(b)) => *a == *b,
            (VariantDispatch::F64(a), VariantDispatch::F64(b)) => *a == *b,
            (VariantDispatch::GodotString(a), VariantDispatch::GodotString(b)) => *a == *b,
            (VariantDispatch::Vector2(a), VariantDispatch::Vector2(b)) => *a == *b,
            (VariantDispatch::Rect2(a), VariantDispatch::Rect2(b)) => *a == *b,
            (VariantDispatch::Vector3(a), VariantDispatch::Vector3(b)) => *a == *b,
            (VariantDispatch::Transform2D(a), VariantDispatch::Transform2D(b)) => *a == *b,
            (VariantDispatch::Plane(a), VariantDispatch::Plane(b)) => *a == *b,
            (VariantDispatch::Quat(a), VariantDispatch::Quat(b)) => *a == *b,
            (VariantDispatch::Aabb(a), VariantDispatch::Aabb(b)) => *a == *b,
            (VariantDispatch::Basis(a), VariantDispatch::Basis(b)) => *a == *b,
            (VariantDispatch::Transform(a), VariantDispatch::Transform(b)) => *a == *b,
            (VariantDispatch::Color(a), VariantDispatch::Color(b)) => *a == *b,
            (VariantDispatch::NodePath(a), VariantDispatch::NodePath(b)) => *a == *b,
            (VariantDispatch::Rid(a), VariantDispatch::Rid(b)) => *a == *b,
            (VariantDispatch::Object(a), VariantDispatch::Object(b)) => *a == *b,
            (VariantDispatch::Dictionary(a), VariantDispatch::Dictionary(b)) => a.equals(b),
            (VariantDispatch::VariantArray(a), VariantDispatch::VariantArray(b)) => a.equals(b),
            (VariantDispatch::ByteArray(a), VariantDispatch::ByteArray(b)) => vec_eq(a, b),
            (VariantDispatch::Int32Array(a), VariantDispatch::Int32Array(b)) => vec_eq(a, b),
            (VariantDispatch::Float32Array(a), VariantDispatch::Float32Array(b)) => vec_eq(a, b),
            (VariantDispatch::StringArray(a), VariantDispatch::StringArray(b)) => strings_eq(a, b),
            (VariantDispatch::Vector2Array(a), VariantDispatch::Vector2Array(b)) => vec_eq(a, b),
            (VariantDispatch::Vector3Array(a), VariantDispatch::Vector3Array(b)) => vec_eq(a, b),
            (VariantDispatch::ColorArray(a), VariantDispatch::ColorArray(b)) => vec_eq(a, b),
            _ => false,
        }
    }
}

impl Variant {
    /// A dynamic value that holds nothing.
    pub fn new() -> (r: Variant)
        ensures
            r@ == Value::Nil,
    {
        Variant { value: VariantDispatch::Nil }
    }

    /// Projects this value: its dispatch, with an owned payload. Every
    /// dynamic value has exactly one.
    pub fn dispatch(&self) -> (r: VariantDispatch)
        ensures
            r@ == self@,
            well_formed(r@),
    {
        self.value.duplicate()
    }

    /// Lifts a dispatch into a fresh dynamic value.
    pub fn from_dispatch(dispatch: &VariantDispatch) -> (r: Variant)
        ensures
            r@ == dispatch@,
            well_formed(r@),
    {
        Variant { value: dispatch.duplicate() }
    }

    /// The kind of value that this container holds.
    pub fn get_type(&self) -> (r: VariantType)
        ensures
            r == self@.kind(),
    {
        self.value.kind()
    }

    /// The 2D vector that this value holds, if it holds one.
    pub fn try_to_vector2(&self) -> (r: Option<Vector2>)
        ensures
            r == match self@ {
                Value::Vector2(v) => Some(v),
                _ => None,
            },
    {
        match &self.value {
            VariantDispatch::Vector2(v) => Some(*v),
            _ => None,
        }
    }

    /// The 3D vector that this value holds, if it holds one.
    pub fn try_to_vector3(&self) -> (r: Option<Vector3>)
        ensures
            r == match self@ {
                Value::Vector3(v) => Some(v),
                _ => None,
            },
    {
        match &self.value {
            VariantDispatch::Vector3(v) => Some(*v),
            _ => None,
        }
    }

    /// The basis that this value holds, if it holds one.
    pub fn try_to_basis(&self) -> (r: Option<Basis>)
        ensures
            r == match self@ {
                Value::Basis(v) => Some(v),
                _ => None,
            },
    {
        match &self.value {
            VariantDispatch::Basis(v) => Some(*v),
            _ => None,
        }
    }

    /// The text that this value holds, if it holds a string.
    pub fn try_to_string(&self) -> (r: Option<String>)
        ensures
            match r {
                Some(text) => self@ == Value::GodotString(text@),
                None => !(self@ is GodotString),
            },
    {
        match &self.value {
            VariantDispatch::GodotString(v) => Some(v.clone()),
            _ => None,
        }
    }

    /// A dynamic value that holds the given text as a string.
    pub fn from_str(text: &str) -> (r: Variant)
        ensures
            r@ == Value::GodotString(text@),
    {
        Variant { value: VariantDispatch::GodotString(text.to_owned()) }
    }

    /// A copy of this value, equal to it all the way down.
    pub fn duplicate(&self) -> (r: Variant)
        ensures
            r@ == self@,
        decreases self,
    {
        Variant { value: self.value.duplicate() }
    }

    /// `true` when the two values are equal all the way down.
    pub fn equals(&self, other: &Variant) -> (r: bool)
        ensures
            r == (self@ == other@),
        decreases self,
    {
        self.value.equals(&other.value)
    }
}

impl VariantArray {
    /// An empty collection.
    pub fn new() -> (r: VariantArray)
        ensures
            r@ == Seq::<Value>::empty(),
    {
        let items: Vec<Variant> = Vec::new();
        let ghost empty = VariantArray { items };
        assert(empty.model() =~= Seq::<Value>::empty());
        VariantArray { items }
    }

    /// The number of items.
    pub fn len(&self) -> (r: usize)
        ensures
            r == self@.len(),
            well_formed(Value::VariantArray(self@)),
    {
        proof {
            use_type_invariant(self);
        }
        self.items.len()
    }

    /// The item at `index`.
    pub fn get(&self, index: usize) -> (r: &Variant)
        requires
            index < self@.len(),
        ensures
            r@ == self@[index as int],
            well_formed(r@),
    {
        let r = &self.items[index];
        proof {
            use_type_invariant(r);
        }
        r
    }

    /// Adds `item` at the end.
    pub fn push(&mut self, item: Variant)
        ensures
            final(self)@ == old(self)@.push(item@),
    {
        proof {
            use_type_invariant(&*self);
            use_type_invariant(&item);
            lemma_well_formed_items(self@);
        }
        let mut taken = VariantArray::new();
        core::mem::swap(self, &mut taken);
        let VariantArray { items: mut items } = taken;
        items.push(item);
        let ghost after = VariantArray { items };
        assert(after.model() =~= old(self)@.push(item@));
        proof {
            lemma_well_formed_items(after.model());
        }
        *self = VariantArray { items };
    }

    /// A copy of this collection, equal to it all the way down.
    pub fn duplicate(&self) -> (r: VariantArray)
        ensures
            r@ == self@,
        decreases self,
    {
        proof {
            use_type_invariant(self);
        }
        let mut items: Vec<Variant> = Vec::new();
        let mut i: usize = 0;
        while i < self.items.len()
            invariant
                0 <= i <= self.items.len(),
                items.len() == i,
                forall|j: int| 0 <= j < i ==> items@[j]@ == self.items@[j]@,
            decreases self.items.len() - i,
        {
            items.push(self.items[i].duplicate());
            i += 1;
        }
        let ghost copy = VariantArray { items };
        assert(copy.model() =~= self@);
        VariantArray { items }
    }

    /// `true` when the two collections hold equal items in the same order.
    pub fn equals(&self, other: &VariantArray) -> (r: bool)
        ensures
            r == (self@ == other@),
        decreases self,
    {
        if self.items.len() != other.items.len() {
            assert(self@.len() != other@.len());
            return false;
        }
        let mut i: usize = 0;
        while i < self.items.len()
            invariant
                0 <= i <= self.items.len(),
                self.items.len() == other.items.len(),
                forall|j: int| 0 <= j < i ==> self.items@[j]@ == other.items@[j]@,
            decreases self.items.len() - i,
        {
            if !self.items[i].equals(&other.items[i]) {
                assert(self@[i as int] != other@[i as int]);
                return false;
            }
            i += 1;
        }
        assert(self@ =~= other@);
        true
    }
}

impl Dictionary {
    /// An empty association.
    pub fn new() -> (r: Dictionary)
        ensures
            r@ == Seq::<(Value, Value)>::empty(),
    {
        let entries: Vec<(Variant, Variant)> = Vec::new();
        let ghost empty = Dictionary { entries };
        assert(empty.model() =~= Seq::<(Value, Value)>::empty());
        Dictionary { entries }
    }

    /// The number of entries.
    pub fn len(&self) -> (r: usize)
        ensures
            r == self@.len(),
            distinct_keys(self@),
            well_formed(Value::Dictionary(self@)),
    {
        proof {
            use_type_invariant(self);
        }
        self.entries.len()
    }

    /// The key of the entry at `index`, in insertion order.
    pub fn key_at(&self, index: usize) -> (r: &Variant)
        requires
            index < self@.len(),
        ensures
            r@ == self@[index as int].0,
            well_formed(r@),
    {
        let r = &self.entries[index].0;
        proof {
            use_type_invariant(r);
        }
        r
    }

    /// The value of the entry at `index`, in insertion order.
    pub fn value_at(&self, index: usize) -> (r: &Variant)
        requires
            index < self@.len(),
        ensures
            r@ == self@[index as int].1,
            well_formed(r@),
    {
        let r = &self.entries[index].1;
        proof {
            use_type_invariant(r);
        }
        r
    }

    /// The index of the first entry whose key equals `key`, or the number of
    /// entries where there is none.
    pub fn position(&self, key: &Variant) -> (r: usize)
        ensures
            r == key_index(self@, key@),
    {
        let mut i: usize = 0;
        while i < self.entries.len()
            invariant
                0 <= i <= self.entries.len(),
                forall|j: int| 0 <= j < i ==> self@[j].0 != key@,
            decreases self.entries.len() - i,
        {
            if self.entries[i].0.equals(key) {
                proof {
                    lemma_key_index_is(self@, key@, i as int);
                }
                return i;
            }
            i += 1;
        }
        proof {
            lemma_key_index_is(self@, key@, i as int);
        }
        i
    }

    /// The value that the association gives to `key`, if any.
    pub fn get(&self, key: &Variant) -> (r: Option<&Variant>)
        ensures
            match r {
                Some(value) => lookup(self@, key@) == Some(value@),
                None => lookup(self@, key@) is None,
            },
    {
        let i = self.position(key);
        if i < self.entries.len() {
            Some(&self.entries[i].1)
        } else {
            None
        }
    }

    /// `true` when some entry has a key equal to `key`.
    pub fn contains(&self, key: &Variant) -> (r: bool)
        ensures
            r == has_key(self@, key@),
    {
        self.position(key) < self.entries.len()
    }

    /// Gives `key` the value `value`. Where an entry already has an equal
    /// key, its value is overwritten and it keeps its place; otherwise a
    /// new entry is added at the end.
    pub fn insert(&mut self, key: Variant, value: Variant)
        ensures
            final(self)@ == insert(old(self)@, key@, value@),
    {
        proof {
            use_type_invariant(&*self);
            use_type_invariant(&key);
            use_type_invariant(&value);
            lemma_insert_distinct(self@, key@, value@);
        }
        let i = self.position(&key);
        let mut taken = Dictionary::new();
        core::mem::swap(self, &mut taken);
        let Dictionary { entries: mut entries } = taken;
        if i < entries.len() {
            entries.set(i, (key, value));
        } else {
            entries.push((key, value));
        }
        let ghost after = Dictionary { entries };
        assert(after.model() =~= insert(old(self)@, key@, value@));
        *self = Dictionary { entries };
    }

    /// A copy of this association, equal to it all the way down.
    pub fn duplicate(&self) -> (r: Dictionary)
        ensures
            r@ == self@,
        decreases self,
    {
        proof {
            use_type_invariant(self);
        }
        let mut entries: Vec<(Variant, Variant)> = Vec::new();
        let mut i: usize = 0;
        while i < self.entries.len()
            invariant
                0 <= i <= self.entries.len(),
                entries.len() == i,
                forall|j: int|
                    0 <= j < i ==> entries@[j].0@ == self.entries@[j].0@ && entries@[j].1@
                        == self.entries@[j].1@,
            decreases self.entries.len() - i,
        {
            let key = self.entries[i].0.duplicate();
            let value = self.entries[i].1.duplicate();
            entries.push((key, value));
            i += 1;
        }
        let ghost copy = Dictionary { entries };
        assert(copy.model() =~= self@);
        Dictionary { entries }
    }

    /// `true` when the two associations hold equal entries in the same
    /// order.
    pub fn equals(&self, other: &Dictionary) -> (r: bool)
        ensures
            r == (self@ == other@),
        decreases self,
    {
        if self.entries.len() != other.entries.len() {
            assert(self@.len() != other@.len());
            return false;
        }
        let mut i: usize = 0;
        while i < self.entries.len()
            invariant
                0 <= i <= self.entries.len(),
                self.entries.len() == other.entries.len(),
                forall|j: int|
                    0 <= j < i ==> self.entries@[j].0@ == other.entries@[j].0@
                        && self.entries@[j].1@ == other.entries@[j].1@,
            decreases self.entries.len() - i,
        {
            if !self.entries[i].0.equals(&other.entries[i].0) || !self.entries[i].1.equals(
                &other.entries[i].1,
            ) {
                assert(self@[i as int] != other@[i as int]);
                return false;
            }
            i += 1;
        }
        assert(self@ =~= other@);
        true
    }
}

} // verus!
