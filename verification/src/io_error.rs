//! Input and output failures as plain values.

use vstd::prelude::*;

verus! {

/// A failure of the surrounding system, or one that reads like it.
#[derive(Debug, PartialEq, Eq)]
pub enum IoError {
    /// The input ended before all the bytes that were announced.
    UnexpectedEof(&'static str),
    /// A setting that no operation can run with.
    InvalidInput(&'static str),
    /// Any other failure, in the system's own words.
    Other(String),
}

/// An [`IoError`] as mathematical values.
pub enum IoErrorModel {
    UnexpectedEof(Seq<char>),
    InvalidInput(Seq<char>),
    Other(Seq<char>),
}

impl View for IoError {
    type V = IoErrorModel;

    open spec fn view(&self) -> IoErrorModel {
        match *self {
            IoError::UnexpectedEof(words) => IoErrorModel::UnexpectedEof(words@),
            IoError::InvalidInput(words) => IoErrorModel::InvalidInput(words@),
            IoError::Other(words) => IoErrorModel::Other(words@),
        }
    }
}

impl IoErrorModel {
    /// What the failure says.
    pub open spec fn message(self) -> Seq<char> {
        match self {
            IoErrorModel::UnexpectedEof(words) => words,
            IoErrorModel::InvalidInput(words) => words,
            IoErrorModel::Other(words) => words,
        }
    }
}

impl IoError {
    /// Whether this refuses a setting, in the given words.
    pub open spec fn refuses(&self, words: Seq<char>) -> bool {
        self@ == IoErrorModel::InvalidInput(words)
    }

    /// The failure in words.
    pub fn display(&self) -> (r: String)
        ensures
            r@ == self@.message(),
    {
        match self {
            IoError::UnexpectedEof(words) => (*words).to_owned(),
            IoError::InvalidInput(words) => (*words).to_owned(),
            IoError::Other(words) => words.clone(),
        }
    }
}

/// A failure says its own words and no others; one that refuses a setting is told apart from the
/// rest.
pub proof fn failure_says_its_words(e: IoError, words: Seq<char>)
    ensures
        match e {
            IoError::UnexpectedEof(own) => e@.message() == own@ && !e.refuses(words),
            IoError::InvalidInput(own) => e@.message() == own@ && (e.refuses(words) <==> own@
                == words),
            IoError::Other(own) => e@.message() == own@ && !e.refuses(words),
        },
{
}

} // verus!
