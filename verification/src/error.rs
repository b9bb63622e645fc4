//! The ways a listing can fail.

use vstd::prelude::*;

verus! {

/// Why a listing stopped without completing.
#[derive(Debug)]
pub enum ListError {
    /// More default prefixes were resolved than the limit allows; the caller
    /// has to name a prefix or an entry explicitly.
    AmbiguousSelection { max: usize },
    /// Nothing to list: neither a prefix nor a name was resolved.
    EmptyAccess,
    /// An entry that was asked for by name does not exist.
    MissingNamedEntry { name: String },
    /// The service announced a further page without a cursor to reach it.
    ProtocolViolation,
    /// A page request failed in transit or could not be decoded.
    Transport { message: String },
}

/// An error as plain values.
pub enum ErrorView {
    AmbiguousSelection { max: usize },
    EmptyAccess,
    MissingNamedEntry { name: Seq<char> },
    ProtocolViolation,
    Transport { message: Seq<char> },
}

impl View for ListError {
    type V = ErrorView;

    open spec fn view(&self) -> ErrorView {
        match *self {
            ListError::AmbiguousSelection { max } => ErrorView::AmbiguousSelection { max },
            ListError::EmptyAccess => ErrorView::EmptyAccess,
            ListError::MissingNamedEntry { name } => ErrorView::MissingNamedEntry { name: name@ },
            ListError::ProtocolViolation => ErrorView::ProtocolViolation,
            ListError::Transport { message } => ErrorView::Transport { message: message@ },
        }
    }
}

} // verus!
