//! Errors of the store's operations and their messages.
use vstd::prelude::*;

verus! {

/// The closed set of reasons for which an operation on the store is refused.
#[derive(Clone, Copy, Debug, PartialEq, Eq, Structural)]
pub enum PollError {
    TooManyPolls,
    InvalidDate,
    PollClosingTimeMustFuture,
    PollInUse,
    PollNotExist,
    VoterInUse,
    VoterPrincipalInUse,
    VoterNotExist,
    VoterNotAuthorized,
    CallerNotPollOwner,
    PollOwnerCannotChangeContribution,
    OptionNotExist,
    VotingIsOver,
    OnlyVoterAndPollOwnerCanViewResults,
    VotingNotClosed,
}

/// The human-readable message of each error.
pub open spec fn message_of(e: PollError) -> Seq<char> {
    match e {
        PollError::TooManyPolls => "Too many polls created."@,
        PollError::InvalidDate => "Date format is invalid."@,
        PollError::PollClosingTimeMustFuture => "Poll closing time must be in the future."@,
        PollError::PollInUse => "Poll already in use."@,
        PollError::PollNotExist => "Poll does not exist."@,
        PollError::VoterInUse => "Voter already in use."@,
        PollError::VoterPrincipalInUse => "Voter principal already in use."@,
        PollError::VoterNotExist => "Voter does not exist."@,
        PollError::VoterNotAuthorized => "Voter is not authorized."@,
        PollError::CallerNotPollOwner => "Caller is not the poll owner."@,
        PollError::PollOwnerCannotChangeContribution => "Poll owner cannot change own contribution."@,
        PollError::OptionNotExist => "Option does not exist."@,
        PollError::VotingIsOver => "Voting is over."@,
        PollError::OnlyVoterAndPollOwnerCanViewResults =>
            "Only the voter and the poll owner can view voting results."@,
        PollError::VotingNotClosed => "Voting is not closed."@,
    }
}

impl PollError {
    /// The message shown to a caller whose request was refused.
    pub fn message(&self) -> (r: &'static str)
        ensures
            r@ == message_of(*self),
    {
        match self {
            PollError::TooManyPolls => "Too many polls created.",
            PollError::InvalidDate => "Date format is invalid.",
            PollError::PollClosingTimeMustFuture => "Poll closing time must be in the future.",
            PollError::PollInUse => "Poll already in use.",
            PollError::PollNotExist => "Poll does not exist.",
            PollError::VoterInUse => "Voter already in use.",
            PollError::VoterPrincipalInUse => "Voter principal already in use.",
            PollError::VoterNotExist => "Voter does not exist.",
            PollError::VoterNotAuthorized => "Voter is not authorized.",
            PollError::CallerNotPollOwner => "Caller is not the poll owner.",
            PollError::PollOwnerCannotChangeContribution => "Poll owner cannot change own contribution.",
            PollError::OptionNotExist => "Option does not exist.",
            PollError::VotingIsOver => "Voting is over.",
            PollError::OnlyVoterAndPollOwnerCanViewResults =>
                "Only the voter and the poll owner can view voting results.",
            PollError::VotingNotClosed => "Voting is not closed.",
        }
    }
}

} // verus!
