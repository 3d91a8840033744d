//! The error kinds the engine reports.
//!
//! Every kind carries plain data; a human-readable rendering is
//! available through [`Error::message`].

use crate::value::clone_string;
use vstd::prelude::*;

verus! {

#[derive(Debug, PartialEq, Eq)]
pub enum Error {
    /// A well-known metadata key was missing or held the wrong shape.
    InvalidMetadata,
    /// A rule had neither or both of glob patterns and an explicit
    /// creation list, or a pattern was malformed.
    InvalidRule,
    /// A value could not be converted to or from the metadata
    /// representation.
    SerdeJson { message: String },
    /// A filesystem operation of a collaborator failed.
    FileIo { message: String },
    /// An error raised by a pluggable compiler, carried but not
    /// interpreted.
    User { message: String },
    /// A synchronization request named a rule that was never
    /// registered.
    UnknownRule { rule: String },
}

/// The rendering of each error kind.
pub open spec fn spec_message(e: Error) -> Seq<char> {
    match e {
        Error::InvalidMetadata => "invalid metadata"@,
        Error::InvalidRule => "invalid rule"@,
        Error::SerdeJson { message } => "serde conversion failed: "@ + message@,
        Error::FileIo { message } => "file IO failed: "@ + message@,
        Error::User { message } => "user error: "@ + message@,
        Error::UnknownRule { rule } => "unknown rule: "@ + rule@,
    }
}

impl Error {
    /// Wrap an error text raised by a pluggable compiler.
    pub fn user_error(message: String) -> (r: Self)
        ensures
            r == (Error::User { message }),
    {
        Error::User { message }
    }

    /// A human-readable description of the error.
    pub fn message(&self) -> (r: String)
        ensures
            r@ == spec_message(*self),
    {
        match self {
            Error::InvalidMetadata => "invalid metadata".to_owned(),
            Error::InvalidRule => "invalid rule".to_owned(),
            Error::SerdeJson { message } => "serde conversion failed: ".to_owned().concat(
                message.as_str(),
            ),
            Error::FileIo { message } => "file IO failed: ".to_owned().concat(message.as_str()),
            Error::User { message } => "user error: ".to_owned().concat(message.as_str()),
            Error::UnknownRule { rule } => "unknown rule: ".to_owned().concat(rule.as_str()),
        }
    }

    /// A structurally equal copy.
    pub fn duplicate(&self) -> (r: Self)
        ensures
            spec_message(r) == spec_message(*self),
            r is InvalidMetadata <==> self is InvalidMetadata,
            r is InvalidRule <==> self is InvalidRule,
            r is SerdeJson <==> self is SerdeJson,
            r is FileIo <==> self is FileIo,
            r is User <==> self is User,
            r is UnknownRule <==> self is UnknownRule,
    {
        match self {
            Error::InvalidMetadata => Error::InvalidMetadata,
            Error::InvalidRule => Error::InvalidRule,
            Error::SerdeJson { message } => Error::SerdeJson { message: clone_string(message) },
            Error::FileIo { message } => Error::FileIo { message: clone_string(message) },
            Error::User { message } => Error::User { message: clone_string(message) },
            Error::UnknownRule { rule } => Error::UnknownRule { rule: clone_string(rule) },
        }
    }
}

} // verus!
