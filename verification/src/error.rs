//! The error model: one closed tagged union absorbing every failure
//! category of the import pipeline, parameterized by the source's own
//! error type.

use vstd::prelude::*;

use crate::validation::JsonPath;
use crate::validation::ValidationErrorKind;

verus! {

/// The diagnostic carried by a malformed-JSON failure: where the parser
/// stopped and what it reported.
#[derive(Clone, Debug, PartialEq, Eq)]
pub struct JsonError {
    /// One-based line of the parse failure.
    pub line: usize,
    /// One-based column of the parse failure.
    pub column: usize,
    /// The parser's own message.
    pub message: String,
}

/// Error encountered when importing an asset. This union is the single
/// exit type of the whole pipeline; no stage leaks a differently-shaped
/// error.
#[derive(Debug)]
pub enum Error<E> {
    /// An image could not be decoded; carries the codec's diagnostic.
    Decode(String),
    /// The asset requires an extension the caller has not enabled.
    ExtensionDisabled(String),
    /// The asset requires an extension this importer does not implement.
    ExtensionUnsupported(String),
    /// The asset declares a schema version this importer does not accept.
    IncompatibleVersion(String),
    /// An underlying I/O failure, described.
    Io(String),
    /// The binary container is structurally corrupt.
    MalformedGlb(String),
    /// The document bytes are not well-formed JSON.
    MalformedJson(JsonError),
    /// A failure delivered through the shared-fetch layer, wrapping the
    /// failure it re-delivers.
    Shared(Box<Error<E>>),
    /// An opaque error supplied by the caller's source implementation.
    Source(E),
    /// The document failed validation; carries the full ordered list of
    /// path-tagged violations.
    Validation(Vec<(JsonPath, ValidationErrorKind)>),
}

impl<E> Error<E> {
    /// A short human-readable description of the failure category.
    pub fn description(&self) -> (r: String)
        ensures
            match self {
                Error::Decode(_) => r@ == "Image decoding failed"@,
                Error::ExtensionDisabled(_) => r@ == "Asset requires a disabled extension"@,
                Error::ExtensionUnsupported(_) => r@ == "Asset requires an unsupported extension"@,
                Error::IncompatibleVersion(_) => r@ == "Asset is not of a supported version"@,
                Error::Io(_) => r@ == "I/O error"@,
                Error::MalformedGlb(_) => r@ == "Malformed binary container"@,
                Error::MalformedJson(_) => r@ == "Malformed JSON"@,
                Error::Shared(_) => r@ == "Shared error"@,
                Error::Source(_) => r@ == "Data source error"@,
                Error::Validation(_) => r@ == "Asset failed validation tests"@,
            },
    {
        match self {
            Error::Decode(_) => "Image decoding failed".to_owned(),
            Error::ExtensionDisabled(_) => "Asset requires a disabled extension".to_owned(),
            Error::ExtensionUnsupported(_) => "Asset requires an unsupported extension".to_owned(),
            Error::IncompatibleVersion(_) => "Asset is not of a supported version".to_owned(),
            Error::Io(_) => "I/O error".to_owned(),
            Error::MalformedGlb(_) => "Malformed binary container".to_owned(),
            Error::MalformedJson(_) => "Malformed JSON".to_owned(),
            Error::Shared(_) => "Shared error".to_owned(),
            Error::Source(_) => "Data source error".to_owned(),
            Error::Validation(_) => "Asset failed validation tests".to_owned(),
        }
    }

    /// Whether this failure category carries an underlying cause a caller
    /// can chain for diagnostics: the I/O, JSON and source variants do.
    pub fn has_cause(&self) -> (b: bool)
        ensures
            b == (self is Io || self is MalformedJson || self is Source),
    {
        match self {
            Error::Io(_) => true,
            Error::MalformedJson(_) => true,
            Error::Source(_) => true,
            _ => false,
        }
    }
}

impl<E> From<JsonError> for Error<E> {
    /// A parse diagnostic enters the pipeline's single exit type as a
    /// malformed-JSON failure.
    fn from(e: JsonError) -> (r: Error<E>) {
        Error::MalformedJson(e)
    }
}

impl<E> vstd::std_specs::convert::FromSpecImpl<JsonError> for Error<E> {
    open spec fn obeys_from_spec() -> bool {
        true
    }

    open spec fn from_spec(e: JsonError) -> Self {
        Error::MalformedJson(e)
    }
}

impl<E> From<Vec<(JsonPath, ValidationErrorKind)>> for Error<E> {
    /// A collected violation list enters the pipeline's single exit type
    /// as a validation failure.
    fn from(v: Vec<(JsonPath, ValidationErrorKind)>) -> (r: Error<E>) {
        Error::Validation(v)
    }
}

impl<E> vstd::std_specs::convert::FromSpecImpl<Vec<(JsonPath, ValidationErrorKind)>> for Error<E> {
    open spec fn obeys_from_spec() -> bool {
        true
    }

    open spec fn from_spec(v: Vec<(JsonPath, ValidationErrorKind)>) -> Self {
        Error::Validation(v)
    }
}

} // verus!
