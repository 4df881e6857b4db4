//! The closed set of failures that serialization and deserialization
//! surface to their immediate caller. There is no silent recovery: every
//! error returns at once, except the two lenient decode paths (empty
//! character content, unknown child elements), which are not errors.

use vstd::prelude::*;

verus! {

/// Which emission step failed at the underlying event writer.
#[derive(Clone, Copy, PartialEq, Eq, Debug, Structural)]
pub enum WriteStage {
    StartElement,
    Characters,
    EndElement,
}

/// A typed serialization or deserialization failure.
#[derive(PartialEq, Eq, Debug)]
pub enum XmlError {
    /// An emission failed at the underlying event writer.
    WriteFailure(WriteStage),
    /// Decode expected a start element and found something else, or the
    /// event stream was exhausted early.
    MissingStartElement,
    /// A unit-variant ordinal did not match any declared variant.
    UnknownDiscriminant,
    /// No declared variant's label or shape matched the observed event.
    AmbiguousOrUnmatchedVariant,
    /// A leaf value's textual form failed to parse; carries that text.
    PrimitiveParseFailure(String),
}

/// The mathematical form of an `XmlError`.
pub enum XmlErrorView {
    WriteFailure(WriteStage),
    MissingStartElement,
    UnknownDiscriminant,
    AmbiguousOrUnmatchedVariant,
    PrimitiveParseFailure(Seq<char>),
}

pub open spec fn error_view(e: XmlError) -> XmlErrorView {
    match e {
        XmlError::WriteFailure(st) => XmlErrorView::WriteFailure(st),
        XmlError::MissingStartElement => XmlErrorView::MissingStartElement,
        XmlError::UnknownDiscriminant => XmlErrorView::UnknownDiscriminant,
        XmlError::AmbiguousOrUnmatchedVariant => XmlErrorView::AmbiguousOrUnmatchedVariant,
        XmlError::PrimitiveParseFailure(t) => XmlErrorView::PrimitiveParseFailure(t@),
    }
}

} // verus!
