//! Decode failures.  Decoding is all-or-nothing: every error is returned to
//! the caller, none is recovered internally, and no partial value is ever
//! produced.

use vstd::prelude::*;

verus! {

/// Why a document failed to decode.
#[derive(Debug)]
pub enum DecodeError {
    /// The node's type is incompatible with the shape the decoder expected
    /// at this position (for a body: neither text scalar nor map).
    Shape,
    /// A map key is not one of the accepted discriminator keys; carries the
    /// offending key and the keys that would have been accepted.
    UnrecognizedField { field: String, accepted: Vec<String> },
    /// A required key is absent; carries the keys that would have been
    /// accepted.
    MissingField { accepted: Vec<String> },
    /// A matcher's pattern text is not a valid regular expression.
    PatternSyntax { pattern: String },
    /// A request URI is not a valid absolute URI.
    InvalidUri { text: String },
    /// A recording timestamp is not in the mail-date text format.
    InvalidTimestamp { text: String },
    /// A protocol version text is not one of the known versions.
    InvalidVersion { text: String },
    /// A status code is outside the unsigned 16-bit range.
    InvalidStatusCode,
    /// A header name appears twice in one header map.
    DuplicateField,
}

/// The mathematical shape of a decode failure.
pub enum ErrView {
    /// See [`DecodeError::Shape`].
    Shape,
    /// See [`DecodeError::UnrecognizedField`].
    UnrecognizedField { field: Seq<char>, accepted: Seq<Seq<char>> },
    /// See [`DecodeError::MissingField`].
    MissingField { accepted: Seq<Seq<char>> },
    /// See [`DecodeError::PatternSyntax`].
    PatternSyntax { pattern: Seq<char> },
    /// See [`DecodeError::InvalidUri`].
    InvalidUri { text: Seq<char> },
    /// See [`DecodeError::InvalidTimestamp`].
    InvalidTimestamp { text: Seq<char> },
    /// See [`DecodeError::InvalidVersion`].
    InvalidVersion { text: Seq<char> },
    /// See [`DecodeError::InvalidStatusCode`].
    InvalidStatusCode,
    /// See [`DecodeError::DuplicateField`].
    DuplicateField,
}

impl View for DecodeError {
    type V = ErrView;

    open spec fn view(&self) -> ErrView {
        match self {
            DecodeError::Shape => ErrView::Shape,
            DecodeError::UnrecognizedField { field, accepted } => ErrView::UnrecognizedField {
                field: field@,
                accepted: accepted.deep_view(),
            },
            DecodeError::MissingField { accepted } => ErrView::MissingField {
                accepted: accepted.deep_view(),
            },
            DecodeError::PatternSyntax { pattern } => ErrView::PatternSyntax { pattern: pattern@ },
            DecodeError::InvalidUri { text } => ErrView::InvalidUri { text: text@ },
            DecodeError::InvalidTimestamp { text } => ErrView::InvalidTimestamp { text: text@ },
            DecodeError::InvalidVersion { text } => ErrView::InvalidVersion { text: text@ },
            DecodeError::InvalidStatusCode => ErrView::InvalidStatusCode,
            DecodeError::DuplicateField => ErrView::DuplicateField,
        }
    }
}

impl DeepView for DecodeError {
    type V = ErrView;

    open spec fn deep_view(&self) -> ErrView {
        self.view()
    }
}

} // verus!
