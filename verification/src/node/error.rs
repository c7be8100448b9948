//! What can go wrong in a node.

use vstd::prelude::*;

use crate::io_error::{IoError, IoErrorModel};
use crate::text;
use crate::text::{joined, push_decimal};

verus! {

/// Why an operation of a node failed.
#[derive(Debug, PartialEq, Eq)]
pub enum CoreError {
    /// The NetherNet transport failed, in its own words.
    Nethernet(String),
    /// Probing the platform failed.
    Platform(String),
    Io(IoError),
    /// Invalid local or remote state.
    InvalidState(&'static str),
    /// The requested peer or server was not found.
    NotFound(String),
    Config(String),
    /// A frame that announces more bytes than a message may have; carries their number.
    FrameTooLarge(usize),
    Other(String),
}

/// A [`CoreError`] as mathematical values.
pub enum CoreErrorModel {
    Nethernet(Seq<char>),
    Platform(Seq<char>),
    Io(IoErrorModel),
    InvalidState(Seq<char>),
    NotFound(Seq<char>),
    Config(Seq<char>),
    FrameTooLarge(nat),
    Other(Seq<char>),
}

impl View for CoreError {
    type V = CoreErrorModel;

    open spec fn view(&self) -> CoreErrorModel {
        match *self {
            CoreError::Nethernet(words) => CoreErrorModel::Nethernet(words@),
            CoreError::Platform(words) => CoreErrorModel::Platform(words@),
            CoreError::Io(e) => CoreErrorModel::Io(e@),
            CoreError::InvalidState(words) => CoreErrorModel::InvalidState(words@),
            CoreError::NotFound(words) => CoreErrorModel::NotFound(words@),
            CoreError::Config(words) => CoreErrorModel::Config(words@),
            CoreError::FrameTooLarge(n) => CoreErrorModel::FrameTooLarge(n as nat),
            CoreError::Other(words) => CoreErrorModel::Other(words@),
        }
    }
}

impl CoreErrorModel {
    /// What the error's message says.
    pub open spec fn message(self) -> Seq<char> {
        match self {
            CoreErrorModel::Nethernet(words) => "nethernet error: "@ + words,
            CoreErrorModel::Platform(words) => "platform error: "@ + words,
            CoreErrorModel::Io(e) => "io error: "@ + e.message(),
            CoreErrorModel::InvalidState(words) => "invalid state: "@ + words,
            CoreErrorModel::NotFound(words) => "not found: "@ + words,
            CoreErrorModel::Config(words) => "config error: "@ + words,
            CoreErrorModel::FrameTooLarge(n) => "frame too large: "@ + text::decimal(n)
                + " bytes"@,
            CoreErrorModel::Other(words) => words,
        }
    }
}

impl CoreError {
    /// The error in words.
    pub fn display(&self) -> (r: String)
        ensures
            r@ == self@.message(),
    {
        match self {
            CoreError::Nethernet(words) => joined("nethernet error: ", words.as_str()),
            CoreError::Platform(words) => joined("platform error: ", words.as_str()),
            CoreError::Io(e) => joined("io error: ", e.display().as_str()),
            CoreError::InvalidState(words) => joined("invalid state: ", words),
            CoreError::NotFound(words) => joined("not found: ", words.as_str()),
            CoreError::Config(words) => joined("config error: ", words.as_str()),
            CoreError::FrameTooLarge(n) => {
                let mut out = "frame too large: ".to_owned();
                push_decimal(&mut out, *n as u64);
                out.append(" bytes");
                out
            },
            CoreError::Other(words) => words.clone(),
        }
    }
}

/// What an error says: what went wrong, in fixed words, and then the details as they are.
pub proof fn error_says_what_went_wrong(e: CoreError)
    ensures
        match e {
            CoreError::Nethernet(words) => e@.message() == "nethernet error: "@ + words@,
            CoreError::Platform(words) => e@.message() == "platform error: "@ + words@,
            CoreError::Io(inner) => e@.message() == "io error: "@ + inner@.message(),
            CoreError::InvalidState(words) => e@.message() == "invalid state: "@ + words@,
            CoreError::NotFound(words) => e@.message() == "not found: "@ + words@,
            CoreError::Config(words) => e@.message() == "config error: "@ + words@,
            CoreError::FrameTooLarge(n) => e@.message() == "frame too large: "@ + text::decimal(
                n as nat,
            ) + " bytes"@,
            CoreError::Other(words) => e@.message() == words@,
        },
{
}

} // verus!
