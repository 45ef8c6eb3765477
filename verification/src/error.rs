use vstd::prelude::*;

verus! {

/// The reason for which a call was refused.
#[derive(Clone, Copy, Debug, PartialEq, Eq, Structural)]
pub enum VotingError {
    /// The list of participating identities was empty.
    NoCaller,
    /// No ballot is registered under the given identifier.
    BallotNotFound,
    /// The caller is not the creator of the ballot.
    NotCreator,
    /// The ballot has been closed.
    BallotClosed,
    /// The identity is not enrolled in the ballot.
    VoterNotAllowed,
    /// The identity to revoke is not on the roster.
    VoterNotFound,
    /// The identity holds no casting right any more.
    NoAllowanceLeft,
    /// The option index is not below the number of options.
    OptionIndexOutOfRange,
}

/// The result of a call that was refused for `refusal`, or went through when
/// there is none.
pub open spec fn outcome(refusal: Option<VotingError>) -> Result<(), VotingError> {
    match refusal {
        Some(e) => Err(e),
        None => Ok(()),
    }
}

} // verus!
