//! Errors of dynamic messages.

use vstd::prelude::*;

verus! {

/// What can go wrong with a dynamic message.
#[derive(Clone, Debug, PartialEq, Eq)]
#[allow(inconsistent_fields)]
pub enum DynamicError {
    /// The schema has no field of this name.
    FieldNotFound(String),
    /// A field path without a component.
    EmptyPath,
    /// A path goes on below a field that holds no message.
    NotAMessage(String),
    /// No field has this index.
    IndexOutOfBounds(usize),
    /// A value does not have the type that its field declares.
    TypeMismatch { path: String, expected: String },
    /// A fixed number of values was expected, and another number is there.
    WrongArrayLength { path: String, expected: usize, actual: usize },
    /// A value at a field is longer than the field's bound.
    FieldBoundExceeded { path: String, max: usize, actual: usize },
    /// A wide string holds more code units than its bound.
    BoundExceeded { max: usize, actual: usize },
    /// A string cannot be put on the wire.
    InvalidString { path: String, reason: String },
    /// A value cannot be encoded.
    SerializationError(String),
    /// Bytes cannot be decoded.
    DeserializationError(String),
    /// A message is nested too deeply or holds too many values.
    ResourceLimitExceeded(String),
    /// A type name that cannot be resolved.
    InvalidTypeName(String),
    /// No schema is known for a type.
    SchemaNotFound(String),
}

/// The contents of a [`DynamicError`].
#[verifier::ext_equal]
#[allow(inconsistent_fields)]
pub enum ErrorView {
    FieldNotFound(Seq<char>),
    EmptyPath,
    NotAMessage(Seq<char>),
    IndexOutOfBounds(nat),
    TypeMismatch { path: Seq<char>, expected: Seq<char> },
    WrongArrayLength { path: Seq<char>, expected: nat, actual: nat },
    FieldBoundExceeded { path: Seq<char>, max: nat, actual: nat },
    BoundExceeded { max: nat, actual: nat },
    InvalidString { path: Seq<char>, reason: Seq<char> },
    SerializationError(Seq<char>),
    DeserializationError(Seq<char>),
    ResourceLimitExceeded(Seq<char>),
    InvalidTypeName(Seq<char>),
    SchemaNotFound(Seq<char>),
}

impl View for DynamicError {
    type V = ErrorView;

    open spec fn view(&self) -> ErrorView {
        match *self {
            DynamicError::FieldNotFound(s) => ErrorView::FieldNotFound(s@),
            DynamicError::EmptyPath => ErrorView::EmptyPath,
            DynamicError::NotAMessage(s) => ErrorView::NotAMessage(s@),
            DynamicError::IndexOutOfBounds(i) => ErrorView::IndexOutOfBounds(i as nat),
            DynamicError::TypeMismatch { path, expected } => ErrorView::TypeMismatch {
                path: path@,
                expected: expected@,
            },
            DynamicError::WrongArrayLength { path, expected, actual } => {
                ErrorView::WrongArrayLength {
                    path: path@,
                    expected: expected as nat,
                    actual: actual as nat,
                }
            },
            DynamicError::FieldBoundExceeded { path, max, actual } => {
                ErrorView::FieldBoundExceeded {
                    path: path@,
                    max: max as nat,
                    actual: actual as nat,
                }
            },
            DynamicError::BoundExceeded { max, actual } => ErrorView::BoundExceeded {
                max: max as nat,
                actual: actual as nat,
            },
            DynamicError::InvalidString { path, reason } => ErrorView::InvalidString {
                path: path@,
                reason: reason@,
            },
            DynamicError::SerializationError(s) => ErrorView::SerializationError(s@),
            DynamicError::DeserializationError(s) => ErrorView::DeserializationError(s@),
            DynamicError::ResourceLimitExceeded(s) => ErrorView::ResourceLimitExceeded(s@),
            DynamicError::InvalidTypeName(s) => ErrorView::InvalidTypeName(s@),
            DynamicError::SchemaNotFound(s) => ErrorView::SchemaNotFound(s@),
        }
    }
}

/// The error that `r` ends in, if any.
pub open spec fn error_of<T>(r: Result<T, DynamicError>) -> Option<ErrorView> {
    match r {
        Ok(_) => None,
        Err(e) => Some(e@),
    }
}

} // verus!
