//! Why a structured value could not be decoded.

use crate::structured::{Discriminant, Shape, Tag};
use vstd::prelude::*;
use vstd::string::StringExecFns;

verus! {

/// Why a structured value could not be decoded.
#[derive(Debug, PartialEq)]
#[allow(inconsistent_fields)]
pub enum DecodeError {
    /// A tag that names no kind; it holds the offending tag.
    UnknownDiscriminant(Discriminant),
    /// A payload whose outer form is not the one that its kind has.
    PayloadShape { expected: Shape, found: Shape },
    /// A record, a field or a wrapper under another name than its kind
    /// gives it.
    Name { expected: String, found: String },
}

/// What a `DecodeError` holds.
#[allow(inconsistent_fields)]
pub enum Failure {
    UnknownDiscriminant(Tag),
    PayloadShape { expected: Shape, found: Shape },
    Name { expected: Seq<char>, found: Seq<char> },
}

impl View for DecodeError {
    type V = Failure;

    open spec fn view(&self) -> Failure {
        match self {
            DecodeError::UnknownDiscriminant(tag) => Failure::UnknownDiscriminant(tag@),
            DecodeError::PayloadShape { expected, found } => Failure::PayloadShape {
                expected: *expected,
                found: *found,
            },
            DecodeError::Name { expected, found } => Failure::Name {
                expected: expected@,
                found: found@,
            },
        }
    }
}

/// The decimal digit for a number below ten.
pub open spec fn digit(d: nat) -> Seq<char> {
    if d == 0 {
        "0"@
    } else if d == 1 {
        "1"@
    } else if d == 2 {
        "2"@
    } else if d == 3 {
        "3"@
    } else if d == 4 {
        "4"@
    } else if d == 5 {
        "5"@
    } else if d == 6 {
        "6"@
    } else if d == 7 {
        "7"@
    } else if d == 8 {
        "8"@
    } else {
        "9"@
    }
}

/// The number in decimal digits, without leading zeros.
pub open spec fn decimal(n: nat) -> Seq<char>
    decreases n,
{
    if n < 10 {
        digit(n)
    } else {
        decimal(n / 10) + digit(n % 10)
    }
}

/// The bytes in decimal, separated by a comma and a space.
pub open spec fn listed(bytes: Seq<u8>) -> Seq<char>
    decreases bytes.len(),
{
    if bytes.len() == 0 {
        Seq::empty()
    } else if bytes.len() == 1 {
        decimal(bytes[0] as nat)
    } else {
        listed(bytes.drop_last()) + ", "@ + decimal(bytes.last() as nat)
    }
}

/// The tag as a message shows it: an id in decimal, a name as it is, bytes
/// as a list in square brackets.
pub open spec fn shown(tag: Tag) -> Seq<char> {
    match tag {
        Tag::Kind(kind) => kind.spec_name(),
        Tag::Id(id) => decimal(id as nat),
        Tag::Name(name) => name,
        Tag::Bytes(bytes) => "["@ + listed(bytes) + "]"@,
    }
}

/// The words for an outer form.
pub open spec fn described(shape: Shape) -> Seq<char> {
    match shape {
        Shape::Unit => "the unit marker"@,
        Shape::Absent => "the absent marker"@,
        Shape::Bool => "a boolean"@,
        Shape::U8 => "a byte"@,
        Shape::I32 => "a 32-bit integer"@,
        Shape::I64 => "a 64-bit integer"@,
        Shape::Single => "a single-precision number"@,
        Shape::Double => "a double-precision number"@,
        Shape::Text => "a text"@,
        Shape::Sequence => "a sequence"@,
        Shape::Tuple { len } => "a tuple of length "@ + decimal(len as nat),
        Shape::Record { len } => "a record of length "@ + decimal(len as nat),
        Shape::Newtype => "a named wrapper"@,
        Shape::Variant => "a tagged value"@,
    }
}

/// The message of a failure: it names the offending tag, or the expected
/// and the observed form, or the expected and the observed name.
pub open spec fn message_of(failure: Failure) -> Seq<char> {
    match failure {
        Failure::UnknownDiscriminant(tag) => "invalid VariantType value: "@ + shown(tag),
        Failure::PayloadShape { expected, found } => "invalid payload: expected "@ + described(
            expected,
        ) + ", found "@ + described(found),
        Failure::Name { expected, found } => "invalid name: expected `"@ + expected
            + "`, found `"@ + found + "`"@,
    }
}

/// The decimal digit for a number below ten.
fn digit_str(d: u64) -> (r: &'static str)
    requires
        d < 10,
    ensures
        r@ == digit(d as nat),
{
    if d == 0 {
        "0"
    } else if d == 1 {
        "1"
    } else if d == 2 {
        "2"
    } else if d == 3 {
        "3"
    } else if d == 4 {
        "4"
    } else if d == 5 {
        "5"
    } else if d == 6 {
        "6"
    } else if d == 7 {
        "7"
    } else if d == 8 {
        "8"
    } else {
        "9"
    }
}

/// Appends the number in decimal digits.
pub fn append_decimal(output: &mut String, n: u64)
    ensures
        final(output)@ == old(output)@ + decimal(n as nat),
    decreases n,
{
    if n < 10 {
        output.append(digit_str(n));
    } else {
        append_decimal(output, n / 10);
        output.append(digit_str(n % 10));
        assert(output@ =~= old(output)@ + (decimal((n / 10) as nat) + digit((n % 10) as nat)));
    }
}

/// Appends the bytes in decimal, separated by a comma and a space.
pub fn append_listed(output: &mut String, bytes: &Vec<u8>)
    ensures
        final(output)@ == old(output)@ + listed(bytes@),
{
    let mut i: usize = 0;
    assert(bytes@.take(0) =~= Seq::<u8>::empty());
    assert(output@ =~= old(output)@ + listed(bytes@.take(0)));
    while i < bytes.len()
        invariant
            0 <= i <= bytes.len(),
            output@ == old(output)@ + listed(bytes@.take(i as int)),
        decreases bytes.len() - i,
    {
        let ghost before = output@;
        let ghost front = bytes@.take(i as int);
        proof {
            assert(bytes@.take(i + 1).drop_last() =~= front);
            assert(bytes@.take(i + 1).last() == bytes@[i as int]);
        }
        if i > 0 {
            output.append(", ");
        }
        append_decimal(output, bytes[i] as u64);
        proof {
            if i > 0 {
                assert(output@ =~= old(output)@ + (listed(front) + ", "@ + decimal(
                    bytes@[i as int] as nat,
                )));
            } else {
                assert(listed(front) =~= Seq::<char>::empty());
                assert(output@ =~= old(output)@ + decimal(bytes@[i as int] as nat));
            }
        }
        i += 1;
    }
    assert(bytes@.take(bytes.len() as int) =~= bytes@);
}

impl Shape {
    /// Appends the words for this outer form.
    pub fn describe(self, output: &mut String)
        ensures
            final(output)@ == old(output)@ + described(self),
    {
        match self {
            Shape::Unit => output.append("the unit marker"),
            Shape::Absent => output.append("the absent marker"),
            Shape::Bool => output.append("a boolean"),
            Shape::U8 => output.append("a byte"),
            Shape::I32 => output.append("a 32-bit integer"),
            Shape::I64 => output.append("a 64-bit integer"),
            Shape::Single => output.append("a single-precision number"),
            Shape::Double => output.append("a double-precision number"),
            Shape::Text => output.append("a text"),
            Shape::Sequence => output.append("a sequence"),
            Shape::Tuple { len } => {
                output.append("a tuple of length ");
                append_decimal(output, len as u64);
                assert(output@ =~= old(output)@ + described(self));
            },
            Shape::Record { len } => {
                output.append("a record of length ");
                append_decimal(output, len as u64);
                assert(output@ =~= old(output)@ + described(self));
            },
            Shape::Newtype => output.append("a named wrapper"),
            Shape::Variant => output.append("a tagged value"),
        }
    }
}

impl Discriminant {
    /// Appends this tag as a message shows it.
    pub fn show(&self, output: &mut String)
        ensures
            final(output)@ == old(output)@ + shown(self@),
    {
        match self {
            Discriminant::Kind(kind) => output.append(kind.name()),
            Discriminant::Id(id) => append_decimal(output, *id),
            Discriminant::Name(name) => output.append(name.as_str()),
            Discriminant::Bytes(bytes) => {
                output.append("[");
                append_listed(output, bytes);
                output.append("]");
                assert(output@ =~= old(output)@ + shown(self@));
            },
        }
    }
}

impl DecodeError {
    /// The message of this error.
    pub fn message(&self) -> (r: String)
        ensures
            r@ == message_of(self@),
    {
        match self {
            DecodeError::UnknownDiscriminant(tag) => {
                let mut r = String::from_str("invalid VariantType value: ");
                tag.show(&mut r);
                r
            },
            DecodeError::PayloadShape { expected, found } => {
                let mut r = String::from_str("invalid payload: expected ");
                expected.describe(&mut r);
                r.append(", found ");
                found.describe(&mut r);
                r
            },
            DecodeError::Name { expected, found } => {
                let mut r = String::from_str("invalid name: expected `");
                r.append(expected.as_str());
                r.append("`, found `");
                r.append(found.as_str());
                r.append("`");
                r
            },
        }
    }
}

} // verus!
