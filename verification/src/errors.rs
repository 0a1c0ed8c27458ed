//! Error values for decoding and for preferred-entity resolution.
//!
//! Every failure names the entity and field it concerns; nothing is
//! recovered silently and nothing panics.

use vstd::prelude::*;

verus! {

/// Why a document could not be decoded into a catalog.
#[derive(Debug, Clone, PartialEq, Eq)]
pub enum DecodeError {
    /// The text is not well-formed XML or holds no root element.
    MalformedXml,
    /// A required field is absent.
    MissingField { entity: String, field: String },
    /// A field is present but has the wrong shape.
    InvalidValue { entity: String, field: String, reason: String },
    /// A field's text is not a decimal number this crate accepts.
    InvalidNumber { entity: String, field: String },
    /// A field's text is not a timestamp this crate accepts.
    InvalidTimestamp { entity: String, field: String },
}

/// Mathematical model of a [`DecodeError`].
pub enum DecodeErrorView {
    MalformedXml,
    MissingField { entity: Seq<char>, field: Seq<char> },
    InvalidValue { entity: Seq<char>, field: Seq<char>, reason: Seq<char> },
    InvalidNumber { entity: Seq<char>, field: Seq<char> },
    InvalidTimestamp { entity: Seq<char>, field: Seq<char> },
}

impl View for DecodeError {
    type V = DecodeErrorView;

    open spec fn view(&self) -> DecodeErrorView {
        match self {
            DecodeError::MalformedXml => DecodeErrorView::MalformedXml,
            DecodeError::MissingField { entity, field } => DecodeErrorView::MissingField {
                entity: entity@,
                field: field@,
            },
            DecodeError::InvalidValue { entity, field, reason } => DecodeErrorView::InvalidValue {
                entity: entity@,
                field: field@,
                reason: reason@,
            },
            DecodeError::InvalidNumber { entity, field } => DecodeErrorView::InvalidNumber {
                entity: entity@,
                field: field@,
            },
            DecodeError::InvalidTimestamp { entity, field } => DecodeErrorView::InvalidTimestamp {
                entity: entity@,
                field: field@,
            },
        }
    }
}

/// Why a preferred origin or magnitude could not be resolved for an event.
#[derive(Debug, Clone, PartialEq, Eq)]
pub enum ResolutionError {
    /// Several candidates, but no preferred reference was declared.
    NoPreferenceDeclared { entity: String },
    /// A preferred reference was declared but matches no candidate.
    DanglingReference { entity: String, reference: String },
}

/// Mathematical model of a [`ResolutionError`].
pub enum ResolutionErrorView {
    NoPreferenceDeclared { entity: Seq<char> },
    DanglingReference { entity: Seq<char>, reference: Seq<char> },
}

impl View for ResolutionError {
    type V = ResolutionErrorView;

    open spec fn view(&self) -> ResolutionErrorView {
        match self {
            ResolutionError::NoPreferenceDeclared { entity } =>
                ResolutionErrorView::NoPreferenceDeclared { entity: entity@ },
            ResolutionError::DanglingReference { entity, reference } =>
                ResolutionErrorView::DanglingReference {
                entity: entity@,
                reference: reference@,
            },
        }
    }
}

} // verus!
