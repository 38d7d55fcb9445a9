//! The error that the key broker client reports.
use vstd::prelude::*;

verus! {

/// Why a key could not be fetched or unwrapped.
#[derive(Debug, PartialEq, Eq)]
pub enum Error {
    /// The key broker client failed, for the reason given.
    KbsClientError(String),
}

impl Error {
    /// The reason, in words.
    pub open spec fn reason(&self) -> Seq<char> {
        match self {
            Error::KbsClientError(reason) => reason@,
        }
    }

    /// The reason, in words.
    pub fn to_text(&self) -> (text: String)
        ensures
            text@ == self.reason(),
    {
        match self {
            Error::KbsClientError(reason) => reason.clone(),
        }
    }
}

} // verus!
