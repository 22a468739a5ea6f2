use vstd::prelude::*;

verus! {

/// Relies on serde_json's error type, which carries the parser's diagnostic.
#[verifier::external_type_specification]
#[verifier::external_body]
pub struct ExJsonError(serde_json::Error);

/// Why a value could not be decoded.
#[derive(Debug)]
pub enum DecodeError {
    /// The type descriptor does not name `ag_catalog.agtype`: this codec does
    /// not apply, and another decoder may.
    TypeMismatch,
    /// The buffer is empty: it holds no version byte.
    Empty,
    /// The version byte is not the one supported version.
    UnsupportedVersion,
    /// The content is shorter than the marker that must end it.
    Truncated,
    /// A path value does not open with `[` or does not end with `::path`, or
    /// a document marker stands where no document was opened.
    InvalidPath,
    /// A document lacks a member that its shape requires.
    MissingField(String),
    /// The JSON parser rejected a document or one of its members.
    Json(serde_json::Error),
}

/// The kind of a [`DecodeError`], as contracts speak of it: the parser's
/// diagnostic is left out, the name of a missing member kept.
pub enum Fault {
    TypeMismatch,
    Empty,
    UnsupportedVersion,
    Truncated,
    InvalidPath,
    MissingField(Seq<char>),
    Json,
}

impl DecodeError {
    /// The kind of the error.
    pub open spec fn fault(&self) -> Fault {
        match self {
            DecodeError::TypeMismatch => Fault::TypeMismatch,
            DecodeError::Empty => Fault::Empty,
            DecodeError::UnsupportedVersion => Fault::UnsupportedVersion,
            DecodeError::Truncated => Fault::Truncated,
            DecodeError::InvalidPath => Fault::InvalidPath,
            DecodeError::MissingField(name) => Fault::MissingField(name@),
            DecodeError::Json(_) => Fault::Json,
        }
    }
}

/// An error raised while a value is turned into query text.
pub struct SerializationError {
    pub message: String,
}

impl SerializationError {
    /// An error that carries `msg`.
    pub fn custom(msg: &str) -> (r: SerializationError)
        ensures
            r.message@ == msg@,
    {
        SerializationError { message: String::from_str(msg) }
    }

    /// The text of the error.
    pub fn to_string(&self) -> (r: String)
        ensures
            r@ == self.message@,
    {
        self.message.clone()
    }
}

} // verus!
