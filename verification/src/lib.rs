//! A bridge between dynamically-typed values and a generic structured-data
//! model, so that values can pass through arbitrary data formats.
//!
//! A dynamic value ([`variant::Variant`]) holds a value of one of 27 kinds
//! ([`kind::VariantType`]). Its dispatch projection
//! ([`variant::VariantDispatch`]) is a closed sum type with one case per kind.
//! The encoder ([`encode::encode`]) turns a dispatch value into a tagged
//! structured value ([`structured::Structured`]); the decoder
//! ([`decode::decode`]) turns a tagged structured value back into a dispatch
//! value, or says why it cannot. For formats that keep no kind tags, the
//! shape-inference decoder ([`infer::infer`]) infers the kind of a value
//! from its shape.
//!
//! The library is verified with Verus. The contracts speak of mathematical
//! models of the data ([`variant::Value`], [`structured::Node`],
//! [`untagged::Bare`]); what holds of encoding followed by decoding is proved
//! in [`laws`], and what holds of inference in [`infer_laws`].
//!
//! Numbers are carried by their bit patterns ([`geometry::Single`],
//! [`geometry::Double`]): the library does no floating-point arithmetic.
//!
//! The modules [`api`] and [`documentation`] write the documentation of the
//! classes of an engine API.

pub mod api;
pub mod association;
pub mod decode;
pub mod documentation;
pub mod encode;
pub mod error;
pub mod geometry;
pub mod infer;
pub mod infer_laws;
pub mod kind;
pub mod laws;
pub mod payload;
pub mod seqs;
pub mod structured;
pub mod text;
pub mod untagged;
pub mod variant;
