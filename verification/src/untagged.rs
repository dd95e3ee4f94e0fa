//! What a format without kind tags presents: scalars, sequences and maps,
//! with nothing that says which kind a value had.

use crate::geometry::{Double, Single};
use vstd::prelude::*;

verus! {

/// A structured value without kind tags, as a self-describing format
/// presents it.
///
/// Each number comes with `single`, the same number rounded to single
/// precision. The reader of the format supplies it: this library does no
/// floating-point arithmetic, and takes the rounded number where a
/// component of a vector, a plane or a color is made from a number.
#[derive(Debug, PartialEq)]
#[allow(inconsistent_fields)]
pub enum Untagged {
    /// The unit marker.
    Unit,
    /// The marker of an absent optional value.
    Absent,
    /// A present optional value.
    Present(Box<Untagged>),
    Bool(bool),
    /// A signed integer.
    Int { value: i64, single: Single },
    /// An unsigned integer.
    UInt { value: u64, single: Single },
    /// A double-precision number.
    Real { value: Double, single: Single },
    Text(String),
    Bytes(Vec<u8>),
    /// A wrapper of one value.
    Newtype(Box<Untagged>),
    Sequence(Vec<Untagged>),
    /// A map, as its entries in the order of the format.
    Entries(Vec<(Untagged, Untagged)>),
}

/// What an `Untagged` holds, as a mathematical tree.
#[allow(inconsistent_fields)]
pub enum Bare {
    Unit,
    Absent,
    Present(Box<Bare>),
    Bool(bool),
    Int { value: i64, single: Single },
    UInt { value: u64, single: Single },
    Real { value: Double, single: Single },
    Text(Seq<char>),
    Bytes(Seq<u8>),
    Newtype(Box<Bare>),
    Sequence(Seq<Bare>),
    Entries(Seq<(Bare, Bare)>),
}

impl Untagged {
    /// The tree that this value stands for.
    pub open spec fn model(self) -> Bare
        decreases self,
    {
        match self {
            Untagged::Unit => Bare::Unit,
            Untagged::Absent => Bare::Absent,
            Untagged::Present(inner) => Bare::Present(Box::new(inner.model())),
            Untagged::Bool(v) => Bare::Bool(v),
            Untagged::Int { value, single } => Bare::Int { value, single },
            Untagged::UInt { value, single } => Bare::UInt { value, single },
            Untagged::Real { value, single } => Bare::Real { value, single },
            Untagged::Text(v) => Bare::Text(v@),
            Untagged::Bytes(v) => Bare::Bytes(v@),
            Untagged::Newtype(inner) => Bare::Newtype(Box::new(inner.model())),
            Untagged::Sequence(items) => Bare::Sequence(
                Seq::new(
                    items@.len(),
                    |i: int|
                        if 0 <= i < items@.len() {
                            items@[i].model()
                        } else {
                            Bare::Unit
                        },
                ),
            ),
            Untagged::Entries(entries) => Bare::Entries(
                Seq::new(
                    entries@.len(),
                    |i: int|
                        if 0 <= i < entries@.len() {
                            (entries@[i].0.model(), entries@[i].1.model())
                        } else {
                            (Bare::Unit, Bare::Unit)
                        },
                ),
            ),
        }
    }
}

impl View for Untagged {
    type V = Bare;

    open spec fn view(&self) -> Bare {
        self.model()
    }
}

} // verus!
