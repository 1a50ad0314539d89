//! What a request can be refused for.

use vstd::prelude::*;

verus! {

/// Why a request is refused.
#[derive(Debug, PartialEq, Eq)]
pub enum AppError {
    /// The request names something that cannot be served; the text says what.
    InvalidPath(String),
}

impl AppError {
    /// The text that goes with the refusal.
    pub open spec fn reason(&self) -> Seq<char> {
        match self {
            AppError::InvalidPath(reason) => reason@,
        }
    }
}

/// The refusal with this text.
pub(crate) fn invalid_path(reason: &str) -> (res: AppError)
    ensures
        res.reason() == reason@,
{
    AppError::InvalidPath(reason.to_owned())
}

} // verus!
