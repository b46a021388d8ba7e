//! The error taxonomy of the engine.
//!
//! `ConfigError` is caught before any side effect; `TransportError` aborts one
//! command and is reported verbatim; `OperationError` is collected per member
//! of a multi-object operation and never stops the remaining members. A record
//! that merely lacks a field is no error at all: it degrades to a placeholder
//! cell, so nothing here models that case.

use vstd::prelude::*;
use crate::text::spec_dec;
use crate::text::u64_to_dec;

verus! {

/// A bad request caught at validation time: an unknown column, a malformed
/// range spec, or an operation asked for while nothing is selected.
pub enum ConfigError {
    /// A show or sort request named a column that no descriptor or extractor
    /// of the active resource kind provides; the name is carried verbatim.
    UnknownColumn { name: String },
    /// A range spec token was not a number or a `low-high` pair of numbers.
    BadRangeToken { token: String },
    /// A range spec index fell outside `1..=len` or a pair was decreasing;
    /// `len` is the size of the selection the spec was resolved against.
    RangeOutOfBounds { len: usize },
    /// A selection-wide operation was asked for while nothing is selected.
    NoSelection,
}

impl ConfigError {
    /// A one-line description for the user.
    pub fn message(&self) -> (s: String)
        ensures
            self is UnknownColumn ==> s@ == "unknown column '"@ + self->UnknownColumn_name@
                + "'"@,
            self is BadRangeToken ==> s@ == "bad range token '"@ + self->BadRangeToken_token@
                + "'"@,
            self is RangeOutOfBounds ==> s@ == "range index out of bounds for selection of size "@
                + spec_dec(self->RangeOutOfBounds_len as nat),
            self is NoSelection ==> s@ == "nothing is selected"@,
    {
        match self {
            ConfigError::UnknownColumn { name } => {
                let mut s = String::from_str("unknown column '");
                s.append(name.as_str());
                s.append("'");
                s
            },
            ConfigError::BadRangeToken { token } => {
                let mut s = String::from_str("bad range token '");
                s.append(token.as_str());
                s.append("'");
                s
            },
            ConfigError::RangeOutOfBounds { len } => {
                let mut s = String::from_str("range index out of bounds for selection of size ");
                let rendered = u64_to_dec(*len as u64);
                s.append(rendered.as_str());
                s
            },
            ConfigError::NoSelection => String::from_str("nothing is selected"),
        }
    }
}

/// An opaque transport failure from the fetch collaborator; the engine never
/// inspects it and propagates it unmodified.
pub struct TransportError {
    pub message: String,
}

/// A failure of the per-object collaborator on one member of a multi-object
/// operation; collected, never fatal to the remaining members.
pub struct OperationError {
    pub message: String,
}

/// Everything a listing command can fail with.
pub enum CommandError {
    Config(ConfigError),
    Transport(TransportError),
}

} // verus!
