//! Failure taxonomy of the input-method client and resolver.

use vstd::prelude::*;

verus! {

/// What went wrong while talking to, or reconciling data from, an
/// input-method peer.
///
/// The three variants are deliberately distinct: a missing backend is an
/// expected startup failure, while the other two mean a peer that did answer
/// broke the protocol contract — those are never recovered from.
#[derive(Debug, Copy, Clone, PartialEq, Eq, Structural)]
pub enum FcitxError {
    /// Neither protocol dialect answered at startup.
    NoBackendFound,
    /// A peer answered with a reply the client cannot read.
    FailToDeserialize,
    /// The reported current input method is absent from the catalog built
    /// from the same dialect.
    UnknownInputMethod,
}

impl FcitxError {
    /// A short description, for the process boundary to print.
    pub fn message(&self) -> (m: &'static str)
        ensures
            m@ == match *self {
                FcitxError::NoBackendFound => "no IME backend found"@,
                FcitxError::FailToDeserialize => "failed to deserialize reply"@,
                FcitxError::UnknownInputMethod => "current input method not in catalog"@,
            },
    {
        match *self {
            FcitxError::NoBackendFound => "no IME backend found",
            FcitxError::FailToDeserialize => "failed to deserialize reply",
            FcitxError::UnknownInputMethod => "current input method not in catalog",
        }
    }
}

} // verus!
