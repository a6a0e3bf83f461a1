//! The one error type of the library.

use vstd::prelude::*;

verus! {

/// Why an operation was refused. Every refusal is reported to the caller;
/// nothing is retried or swallowed.
#[derive(Clone, Copy, Debug, PartialEq, Eq, Structural)]
pub enum Error {
    // organisation
    MemberNotFound,
    UnAuthorized,
    CannotInitialiseProject,
    CannotTransferFund,
    AlreadySecretariate,
    AlreadyMember,
    ProposalAddressNotFound,
    ProposalAddressAlreadyExist,
    ProjectNotFound,
    InsufficientFundInOrganisation,
    // project
    AlreadyApplied,
    ApproachAlreadyAccepted,
    NotAMember,
    ThisTaskIsNotAssignedToYou,
    TaskInReview,
    TaskCompleted,
    TaskAlreadyAssigned,
    TaskNotFound,
    AlreadyReviewed,
    // proposals
    AlreadyVoted,
    ProposalClosed,
    ProposalRejected,
    ProposalAlreadyExecuted,
    ProposalNotFound,
    ProposalRunning,
    ApproachNotDefined,
    DeadLineNotDefined,
    IncorrectProposalType,
    CannotStartProjectBeforeVoting,
    ApproachNotRequiredForThisProposal,
    TaskDeadlineCannotCrossPojectDeadLine,
    DeadLineInfoNotRequiredForThisProposal,
    /// The requested end time is not strictly earlier than the end time of every direct child.
    DeadlineInfeasible,
    // organisation proposals
    ProjectInfoNotFound,
    QuorumInfoNotFound,
    SpanInfoNotFound,
    FundInfoNotFound,
    InvalidProjectInfo,
    ProjectIdNotFound,
}

} // verus!
