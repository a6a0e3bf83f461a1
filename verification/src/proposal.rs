//! Proposals of the organisation: adding a project, funding one, and changing
//! the quorum or the voting time.
//!
//! The catalogue keeps every proposal ever made, its votes and the data that
//! its execution needs. What it needs to know of the organisation (whether the
//! caller is a member, how many may vote) the caller hands in; what a passed
//! proposal asks of the organisation it hands out as an [`Effect`].

use vstd::prelude::*;
use crate::account::{AccountId, Timestamp};
use crate::error::Error;
use crate::org::Designation;
use crate::table::Table;
pub use crate::voting::{
    ProposalSpan,
    Status,
    Vote,
    VoteInfo,
    Votes,
    VotingStatus,
    DEFAULT_DURATION,
    DEFAULT_QUORUM,
};
use crate::voting::{
    execution_refusal,
    has_voted,
    resolution_due,
    resolve,
    resolved_status,
    status_reaches,
    update_voting_result,
    VotingRecord,
};

verus! {

#[derive(Clone, Copy, Debug, PartialEq, Eq, Structural)]
pub enum ProposalType {
    AddProject,
    FundProject,
    ChangeQuorum,
    ChangeProposalSpan,
}

/// What an `AddProject` proposal asks for.
#[derive(Clone, Copy, Debug, PartialEq, Eq, Structural)]
pub struct ProjectInfo {
    pub fund_asked: u128,
    pub strength: u64,
}

/// What a `FundProject` proposal asks for.
#[derive(Clone, Copy, Debug, PartialEq, Eq, Structural)]
pub struct FundProjectInfo {
    pub project_id: u32,
    pub fund_asked: u128,
}

/// The quorum that a `ChangeQuorum` proposal sets, in millionths.
#[derive(Clone, Copy, Debug, PartialEq, Eq, Structural)]
pub struct QuorumInfo {
    pub quorum: u64,
}

/// The voting time that a `ChangeProposalSpan` proposal sets.
#[derive(Clone, Copy, Debug, PartialEq, Eq, Structural)]
pub struct SpanInfo {
    pub duration: u64,
}

/// A proposal as the catalogue records it.
#[derive(Debug, PartialEq, Eq)]
pub struct ProposalInfo {
    pub proposal_type: ProposalType,
    pub proposal_id: u64,
    pub proposer: AccountId,
    pub proposal_span: ProposalSpan,
    pub voter_type: Designation,
    pub title: String,
    pub details: Vec<String>,
    pub status: Status,
}

/// The mathematical content of a [`ProposalInfo`].
pub struct ProposalInfoView {
    pub proposal_type: ProposalType,
    pub proposal_id: u64,
    pub proposer: AccountId,
    pub proposal_span: ProposalSpan,
    pub voter_type: Designation,
    pub title: String,
    pub details: Seq<String>,
    pub status: Status,
}

impl View for ProposalInfo {
    type V = ProposalInfoView;

    open spec fn view(&self) -> ProposalInfoView {
        ProposalInfoView {
            proposal_type: self.proposal_type,
            proposal_id: self.proposal_id,
            proposer: self.proposer,
            proposal_span: self.proposal_span,
            voter_type: self.voter_type,
            title: self.title,
            details: self.details@,
            status: self.status,
        }
    }
}

impl Clone for ProposalInfo {
    fn clone(&self) -> (r: Self)
        ensures
            r@ == self@,
    {
        ProposalInfo {
            proposal_type: self.proposal_type,
            proposal_id: self.proposal_id,
            proposer: self.proposer,
            proposal_span: self.proposal_span,
            voter_type: self.voter_type,
            title: self.title.clone(),
            details: self.details.clone(),
            status: self.status,
        }
    }
}

/// What a passed proposal asks the organisation to do. The caller carries it
/// out and reports success with [`Proposal::complete_execution`].
#[derive(Debug, PartialEq, Eq)]
pub enum Effect {
    /// Create a project with these data.
    AddProject {
        title: String,
        details: Vec<String>,
        fund_asked: u128,
        strength: u64,
        proposer: AccountId,
    },
    /// Transfer `fund_asked` to the project, then tell it of its new allocation.
    FundProject { project_id: u32, fund_asked: u128 },
}

/// The mathematical content of an [`Effect`].
pub enum EffectView {
    AddProject {
        title: String,
        details: Seq<String>,
        fund_asked: u128,
        strength: u64,
        proposer: AccountId,
    },
    FundProject { project_id: u32, fund_asked: u128 },
}

impl View for Effect {
    type V = EffectView;

    open spec fn view(&self) -> EffectView {
        match *self {
            Effect::AddProject { title, details, fund_asked, strength, proposer } => {
                EffectView::AddProject { title, details: details@, fund_asked, strength, proposer }
            },
            Effect::FundProject { project_id, fund_asked } => EffectView::FundProject {
                project_id,
                fund_asked,
            },
        }
    }
}

/// The catalogue of the organisation's proposals.
pub struct Proposal {
    next_proposal_id: u64,
    proposals: Table<u64, ProposalInfo>,
    voting_result: Table<u64, VotingStatus>,
    proposal_duration: Timestamp,
    quorum: u64,
    org_address: AccountId,
    project_info: Table<u64, ProjectInfo>,
    project_ids: Table<u64, u32>,
    fund_project_info: Table<u64, FundProjectInfo>,
    quorum_info: Table<u64, QuorumInfo>,
    span_info: Table<u64, SpanInfo>,
}

/// The mathematical content of a [`Proposal`] catalogue.
pub struct ProposalState {
    /// The id that the next proposal gets; ids start at 1 and are never reused.
    pub next_proposal_id: u64,
    pub proposals: Map<u64, ProposalInfoView>,
    pub voting_result: Map<u64, VotingRecord>,
    /// How long a new proposal takes votes.
    pub proposal_duration: Timestamp,
    /// The turnout a proposal needs to pass, in millionths.
    pub quorum: u64,
    pub org_address: AccountId,
    pub project_info: Map<u64, ProjectInfo>,
    /// For each executed `AddProject` proposal, the project it created.
    pub project_ids: Map<u64, u32>,
    pub fund_project_info: Map<u64, FundProjectInfo>,
    pub quorum_info: Map<u64, QuorumInfo>,
    pub span_info: Map<u64, SpanInfo>,
}

/// Why a proposal cannot be created, if it cannot: the proposer is no member,
/// the data for its type are missing, or the project to fund is unknown.
pub open spec fn creation_refusal(
    caller_is_member: bool,
    fund_target_known: bool,
    proposal_type: ProposalType,
    add_project: Option<ProjectInfo>,
    fund_project: Option<FundProjectInfo>,
    change_quorum: Option<QuorumInfo>,
    change_proposal_span: Option<SpanInfo>,
) -> Option<Error> {
    if !caller_is_member {
        Some(Error::MemberNotFound)
    } else {
        match proposal_type {
            ProposalType::AddProject => if add_project is None {
                Some(Error::ProjectInfoNotFound)
            } else {
                None
            },
            ProposalType::FundProject => if fund_project is None {
                Some(Error::FundInfoNotFound)
            } else if !fund_target_known {
                Some(Error::InvalidProjectInfo)
            } else {
                None
            },
            ProposalType::ChangeQuorum => if change_quorum is None {
                Some(Error::QuorumInfoNotFound)
            } else {
                None
            },
            ProposalType::ChangeProposalSpan => if change_proposal_span is None {
                Some(Error::SpanInfoNotFound)
            } else {
                None
            },
        }
    }
}

/// Why a vote is refused, if it is, on a proposal in this state whose voter
/// the organisation described by `voter_status`: `None` for an account it does
/// not know, else whether the account belongs to the electorate.
pub open spec fn vote_refusal(
    proposal: ProposalInfoView,
    record: VotingRecord,
    caller: AccountId,
    voter_status: Option<bool>,
) -> Option<Error> {
    match proposal.status {
        Status::Open => {
            if proposal.voter_type == Designation::Secretariate || proposal.voter_type
                == Designation::Member {
                match voter_status {
                    None => Some(Error::MemberNotFound),
                    Some(false) => Some(Error::UnAuthorized),
                    Some(true) => if has_voted(record.voters, caller) {
                        Some(Error::AlreadyVoted)
                    } else {
                        None
                    },
                }
            } else {
                Some(Error::UnAuthorized)
            }
        },
        Status::Rejected => Some(Error::ProposalRejected),
        Status::Passed => Some(Error::ProposalClosed),
        Status::Executed => Some(Error::ProposalAlreadyExecuted),
    }
}

impl ProposalState {
    /// Whether a proposal with this id exists.
    pub open spec fn contains(self, id: u64) -> bool {
        self.proposals.dom().contains(id)
    }

    /// Whether the data that the proposal's type needs are recorded.
    pub open spec fn payload_present(self, id: u64) -> bool {
        match self.proposals[id].proposal_type {
            ProposalType::AddProject => self.project_info.dom().contains(id),
            ProposalType::FundProject => self.fund_project_info.dom().contains(id),
            ProposalType::ChangeQuorum => self.quorum_info.dom().contains(id),
            ProposalType::ChangeProposalSpan => self.span_info.dom().contains(id),
        }
    }

    /// The proposals are those with ids from 1 up to the next id; each has a
    /// well-formed voting record and the data of its type.
    pub open spec fn wf(self) -> bool {
        &&& self.next_proposal_id >= 1
        &&& forall|id: u64| self.proposals.dom().contains(id) <==> 1 <= id < self.next_proposal_id
        &&& forall|id: u64| self.voting_result.dom().contains(id) <==> self.proposals.dom().contains(id)
        &&& forall|id: u64| #[trigger]
            self.proposals.dom().contains(id) ==> {
                &&& self.proposals[id].proposal_id == id
                &&& self.voting_result[id].proposal_id == id
                &&& self.voting_result[id].wf()
                &&& self.payload_present(id)
            }
    }

    /// The state of a new catalogue.
    pub open spec fn initial(organisation: AccountId) -> ProposalState {
        ProposalState {
            next_proposal_id: 1,
            proposals: Map::empty(),
            voting_result: Map::empty(),
            proposal_duration: DEFAULT_DURATION,
            quorum: DEFAULT_QUORUM,
            org_address: organisation,
            project_info: Map::empty(),
            project_ids: Map::empty(),
            fund_project_info: Map::empty(),
            quorum_info: Map::empty(),
            span_info: Map::empty(),
        }
    }

    /// The state with one more proposal: open, without votes, taking votes
    /// from `now` for the current voting time, with the secretariat as its
    /// electorate and the next id as its id.
    pub open spec fn created(
        self,
        caller: AccountId,
        now: Timestamp,
        title: String,
        details: Seq<String>,
        proposal_type: ProposalType,
        add_project: Option<ProjectInfo>,
        fund_project: Option<FundProjectInfo>,
        change_quorum: Option<QuorumInfo>,
        change_proposal_span: Option<SpanInfo>,
    ) -> ProposalState {
        let id = self.next_proposal_id;
        let info = ProposalInfoView {
            proposal_type,
            proposal_id: id,
            proposer: caller,
            proposal_span: ProposalSpan {
                start_time: now,
                end_time: (now + self.proposal_duration) as u64,
            },
            voter_type: Designation::Secretariate,
            title,
            details,
            status: Status::Open,
        };
        ProposalState {
            next_proposal_id: (id + 1) as u64,
            proposals: self.proposals.insert(id, info),
            voting_result: self.voting_result.insert(id, VotingRecord::empty(id)),
            project_info: if proposal_type == ProposalType::AddProject {
                self.project_info.insert(id, add_project.unwrap())
            } else {
                self.project_info
            },
            fund_project_info: if proposal_type == ProposalType::FundProject {
                self.fund_project_info.insert(id, fund_project.unwrap())
            } else {
                self.fund_project_info
            },
            quorum_info: if proposal_type == ProposalType::ChangeQuorum {
                self.quorum_info.insert(id, change_quorum.unwrap())
            } else {
                self.quorum_info
            },
            span_info: if proposal_type == ProposalType::ChangeProposalSpan {
                self.span_info.insert(id, change_proposal_span.unwrap())
            } else {
                self.span_info
            },
            ..self
        }
    }

    /// The state with the status of proposal `id` replaced.
    pub open spec fn with_status(self, id: u64, status: Status) -> ProposalState {
        ProposalState {
            proposals: self.proposals.insert(
                id,
                ProposalInfoView { status, ..self.proposals[id] },
            ),
            ..self
        }
    }

    /// Whether resolving proposal `id` at `now` decides it.
    pub open spec fn resolution_pending(self, id: u64, now: Timestamp) -> bool {
        self.contains(id) && resolution_due(
            self.proposals[id].status,
            self.proposals[id].proposal_span,
            now,
        )
    }

    /// The state after the lazy check of proposal `id` at `now`, with
    /// `eligible` accounts in its electorate. Unknown ids change nothing.
    pub open spec fn resolved(self, id: u64, now: Timestamp, eligible: u64) -> ProposalState {
        if self.contains(id) {
            self.with_status(
                id,
                resolved_status(
                    self.proposals[id].status,
                    self.proposals[id].proposal_span,
                    now,
                    self.voting_result[id],
                    self.quorum,
                    eligible,
                ),
            )
        } else {
            self
        }
    }

    /// Whether `next` is this state with one more vote on proposal `id`.
    pub open spec fn voted(self, id: u64, caller: AccountId, vote: Vote, next: ProposalState) -> bool {
        &&& self.voting_result[id].followed_by(caller, vote, next.voting_result[id])
        &&& next == ProposalState {
            voting_result: self.voting_result.insert(id, next.voting_result[id]),
            ..self
        }
    }

    /// What executing the passed proposal `id` asks of the organisation, if
    /// anything; the two changes of configuration ask nothing.
    pub open spec fn effect_of(self, id: u64) -> Option<EffectView> {
        let p = self.proposals[id];
        match p.proposal_type {
            ProposalType::AddProject => Some(
                EffectView::AddProject {
                    title: p.title,
                    details: p.details,
                    fund_asked: self.project_info[id].fund_asked,
                    strength: self.project_info[id].strength,
                    proposer: p.proposer,
                },
            ),
            ProposalType::FundProject => Some(
                EffectView::FundProject {
                    project_id: self.fund_project_info[id].project_id,
                    fund_asked: self.fund_project_info[id].fund_asked,
                },
            ),
            ProposalType::ChangeQuorum => None,
            ProposalType::ChangeProposalSpan => None,
        }
    }

    /// The state after the passed proposal `id` was executed as far as the
    /// catalogue itself can: a change of configuration is applied and the
    /// proposal becomes `Executed`; any other proposal waits for its effect.
    pub open spec fn executed_in_place(self, id: u64) -> ProposalState {
        match self.proposals[id].proposal_type {
            ProposalType::ChangeQuorum => ProposalState {
                quorum: self.quorum_info[id].quorum,
                ..self.with_status(id, Status::Executed)
            },
            ProposalType::ChangeProposalSpan => ProposalState {
                proposal_duration: self.span_info[id].duration,
                ..self.with_status(id, Status::Executed)
            },
            _ => self,
        }
    }

    /// Why the effect of proposal `id` cannot be confirmed, if it cannot.
    pub open spec fn completion_refusal(self, id: u64, project_id: Option<u32>) -> Option<Error> {
        if !self.contains(id) {
            Some(Error::ProposalNotFound)
        } else if execution_refusal(self.proposals[id].status) is Some {
            execution_refusal(self.proposals[id].status)
        } else {
            match self.proposals[id].proposal_type {
                ProposalType::AddProject => if project_id is None {
                    Some(Error::ProjectIdNotFound)
                } else {
                    None
                },
                ProposalType::FundProject => None,
                _ => Some(Error::IncorrectProposalType),
            }
        }
    }

    /// The state after the effect of proposal `id` was confirmed: the proposal
    /// is `Executed`, and a created project is recorded under its id.
    pub open spec fn completed(self, id: u64, project_id: Option<u32>) -> ProposalState {
        let done = self.with_status(id, Status::Executed);
        if self.proposals[id].proposal_type == ProposalType::AddProject {
            ProposalState { project_ids: self.project_ids.insert(id, project_id.unwrap()), ..done }
        } else {
            done
        }
    }

    /// Whether every proposal of this state is in `next`, with a status that
    /// its own can move to: no proposal is forgotten, none returns to `Open`,
    /// none leaves `Rejected` or `Executed`, and `Passed` only becomes
    /// `Executed`.
    pub open spec fn steps_to(self, next: ProposalState) -> bool {
        forall|id: u64| #[trigger]
            self.proposals.dom().contains(id) ==> next.proposals.dom().contains(id)
                && status_reaches(self.proposals[id].status, next.proposals[id].status)
    }
}

/// The lazy check is idempotent: a second check of the same proposal at the
/// same time, with the same electorate, changes nothing.
pub proof fn lemma_resolved_twice(state: ProposalState, id: u64, now: Timestamp, eligible: u64)
    ensures
        state.resolved(id, now, eligible).resolved(id, now, eligible) == state.resolved(
            id,
            now,
            eligible,
        ),
{
    let once = state.resolved(id, now, eligible);
    assert(once.resolved(id, now, eligible).proposals =~= once.proposals);
}

/// While the span of an open proposal lasts, the lazy check changes nothing,
/// whatever the tally so far; the vote of an eligible account that has not
/// voted is taken, and the proposal is still open after it.
pub proof fn lemma_vote_in_time_keeps_open(
    state: ProposalState,
    id: u64,
    now: Timestamp,
    eligible: u64,
    caller: AccountId,
    vote: Vote,
    next: ProposalState,
)
    requires
        state.contains(id),
        state.proposals[id].status == Status::Open,
        now < state.proposals[id].proposal_span.end_time,
    ensures
        state.resolved(id, now, eligible) == state,
        (state.proposals[id].voter_type == Designation::Secretariate || state.proposals[id].voter_type
            == Designation::Member) && !has_voted(state.voting_result[id].voters, caller)
            ==> vote_refusal(state.proposals[id], state.voting_result[id], caller, Some(true))
            is None,
        state.voted(id, caller, vote, next) ==> next.proposals[id].status == Status::Open,
{
    assert(state.resolved(id, now, eligible).proposals =~= state.proposals);
}

impl View for Proposal {
    type V = ProposalState;

    closed spec fn view(&self) -> ProposalState {
        ProposalState {
            next_proposal_id: self.next_proposal_id,
            proposals: self.proposals@.map_values(|p: ProposalInfo| p@),
            voting_result: self.voting_result@.map_values(|v: VotingStatus| v@),
            proposal_duration: self.proposal_duration,
            quorum: self.quorum,
            org_address: self.org_address,
            project_info: self.project_info@,
            project_ids: self.project_ids@,
            fund_project_info: self.fund_project_info@,
            quorum_info: self.quorum_info@,
            span_info: self.span_info@,
        }
    }
}

/// A catalogue taken apart, for whoever stores it between calls.
pub struct ProposalParts {
    pub next_proposal_id: u64,
    pub proposals: Table<u64, ProposalInfo>,
    pub voting_result: Table<u64, VotingStatus>,
    pub proposal_duration: Timestamp,
    pub quorum: u64,
    pub org_address: AccountId,
    pub project_info: Table<u64, ProjectInfo>,
    pub project_ids: Table<u64, u32>,
    pub fund_project_info: Table<u64, FundProjectInfo>,
    pub quorum_info: Table<u64, QuorumInfo>,
    pub span_info: Table<u64, SpanInfo>,
}

impl ProposalParts {
    /// Every table is well formed.
    pub open spec fn tables_wf(&self) -> bool {
        &&& self.proposals.wf()
        &&& self.voting_result.wf()
        &&& self.project_info.wf()
        &&& self.project_ids.wf()
        &&& self.fund_project_info.wf()
        &&& self.quorum_info.wf()
        &&& self.span_info.wf()
    }

    /// The state that the parts describe.
    pub open spec fn state(&self) -> ProposalState {
        ProposalState {
            next_proposal_id: self.next_proposal_id,
            proposals: self.proposals@.map_values(|p: ProposalInfo| p@),
            voting_result: self.voting_result@.map_values(|v: VotingStatus| v@),
            proposal_duration: self.proposal_duration,
            quorum: self.quorum,
            org_address: self.org_address,
            project_info: self.project_info@,
            project_ids: self.project_ids@,
            fund_project_info: self.fund_project_info@,
            quorum_info: self.quorum_info@,
            span_info: self.span_info@,
        }
    }

    /// Whether the parts describe a well-formed state.
    #[verifier::loop_isolation(false)]
    pub fn is_wf(&self) -> (r: bool)
        requires
            self.tables_wf(),
        ensures
            r == self.state().wf(),
    {
        let ghost state = self.state();
        if self.next_proposal_id < 1 {
            return false;
        }
        let keys = self.proposals.keys();
        let mut k: usize = 0;
        while k < keys.len()
            invariant
                k <= keys@.len(),
                forall|j: int| 0 <= j < k ==> 1 <= #[trigger] keys@[j] < self.next_proposal_id,
            decreases keys@.len() - k,
        {
            if keys[k] < 1 || keys[k] >= self.next_proposal_id {
                assert(keys@.contains(keys@[k as int]));
                assert(state.proposals.dom().contains(keys@[k as int]));
                return false;
            }
            k += 1;
        }
        let voters = self.voting_result.keys();
        let mut k: usize = 0;
        while k < voters.len()
            invariant
                self.tables_wf(),
                k <= voters@.len(),
                forall|j: int|
                    0 <= j < k ==> self.proposals@.dom().contains(#[trigger] voters@[j]),
            decreases voters@.len() - k,
        {
            if !self.proposals.contains_key(&voters[k]) {
                assert(voters@.contains(voters@[k as int]));
                assert(state.voting_result.dom().contains(voters@[k as int]));
                assert(!state.proposals.dom().contains(voters@[k as int]));
                return false;
            }
            k += 1;
        }
        let mut id: u64 = 1;
        while id < self.next_proposal_id
            invariant
                self.tables_wf(),
                state == self.state(),
                1 <= id <= self.next_proposal_id,
                forall|i: u64|
                    1 <= i < id ==> {
                        &&& #[trigger] state.proposals.dom().contains(i)
                        &&& state.voting_result.dom().contains(i)
                        &&& state.proposals[i].proposal_id == i
                        &&& state.voting_result[i].proposal_id == i
                        &&& state.voting_result[i].wf()
                        &&& state.payload_present(i)
                    },
            decreases self.next_proposal_id - id,
        {
            let proposal_type = match self.proposals.get(&id) {
                Some(info) => {
                    if info.proposal_id != id {
                        assert(state.proposals.dom().contains(id));
                        return false;
                    }
                    info.proposal_type
                },
                None => {
                    assert(!state.proposals.dom().contains(id));
                    return false;
                },
            };
            match self.voting_result.get(&id) {
                Some(record) => {
                    if record.proposal_id != id || !record.is_wf() {
                        assert(state.proposals.dom().contains(id));
                        return false;
                    }
                },
                None => {
                    assert(state.proposals.dom().contains(id));
                    assert(!state.voting_result.dom().contains(id));
                    return false;
                },
            }
            let present = match proposal_type {
                ProposalType::AddProject => self.project_info.contains_key(&id),
                ProposalType::FundProject => self.fund_project_info.contains_key(&id),
                ProposalType::ChangeQuorum => self.quorum_info.contains_key(&id),
                ProposalType::ChangeProposalSpan => self.span_info.contains_key(&id),
            };
            if !present {
                assert(state.proposals.dom().contains(id));
                return false;
            }
            proof {
                assert(state.proposals.dom().contains(id));
                assert(state.voting_result.dom().contains(id));
                assert(state.proposals[id] == self.proposals@[id]@);
                assert(state.voting_result[id] == self.voting_result@[id]@);
                assert(state.payload_present(id));
            }
            id += 1;
        }
        proof {
            assert forall|i: u64| state.proposals.dom().contains(i) implies 1 <= i
                < state.next_proposal_id by {
                assert(keys@.contains(i));
                let j = choose|j: int| 0 <= j < keys@.len() && keys@[j] == i;
                assert(1 <= keys@[j] < self.next_proposal_id);
            }
            assert forall|i: u64| state.voting_result.dom().contains(i)
                implies state.proposals.dom().contains(i) by {
                assert(voters@.contains(i));
                let j = choose|j: int| 0 <= j < voters@.len() && voters@[j] == i;
                assert(self.proposals@.dom().contains(voters@[j]));
            }
        }
        true
    }
}

impl Proposal {
    /// The catalogue is in a state that its operations can have produced.
    pub closed spec fn wf(&self) -> bool {
        &&& self.proposals.wf()
        &&& self.voting_result.wf()
        &&& self.project_info.wf()
        &&& self.project_ids.wf()
        &&& self.fund_project_info.wf()
        &&& self.quorum_info.wf()
        &&& self.span_info.wf()
        &&& self@.wf()
    }

    /// Well-formedness of the catalogue implies that of its content.
    pub proof fn lemma_wf(&self)
        requires
            self.wf(),
        ensures
            self@.wf(),
    {
    }

    proof fn lemma_stored(&self, id: u64)
        ensures
            self@.proposals.dom().contains(id) == self.proposals@.dom().contains(id),
            self@.voting_result.dom().contains(id) == self.voting_result@.dom().contains(id),
            self.proposals@.dom().contains(id) ==> self@.proposals[id] == self.proposals@[id]@,
            self.voting_result@.dom().contains(id) ==> self@.voting_result[id]
                == self.voting_result@[id]@,
    {
    }

    /// Takes the catalogue apart.
    pub fn into_parts(self) -> (parts: ProposalParts)
        requires
            self.wf(),
        ensures
            parts.tables_wf(),
            parts.state() == self@,
            parts.state().wf(),
    {
        ProposalParts {
            next_proposal_id: self.next_proposal_id,
            proposals: self.proposals,
            voting_result: self.voting_result,
            proposal_duration: self.proposal_duration,
            quorum: self.quorum,
            org_address: self.org_address,
            project_info: self.project_info,
            project_ids: self.project_ids,
            fund_project_info: self.fund_project_info,
            quorum_info: self.quorum_info,
            span_info: self.span_info,
        }
    }

    /// Puts a catalogue together again, if the parts describe a well-formed
    /// state; what was taken apart always does.
    pub fn from_parts(parts: ProposalParts) -> (r: Option<Self>)
        requires
            parts.tables_wf(),
        ensures
            r is Some == parts.state().wf(),
            r matches Some(catalogue) ==> catalogue.wf() && catalogue@ == parts.state(),
    {
        if !parts.is_wf() {
            return None;
        }
        Some(
            Proposal {
                next_proposal_id: parts.next_proposal_id,
                proposals: parts.proposals,
                voting_result: parts.voting_result,
                proposal_duration: parts.proposal_duration,
                quorum: parts.quorum,
                org_address: parts.org_address,
                project_info: parts.project_info,
                project_ids: parts.project_ids,
                fund_project_info: parts.fund_project_info,
                quorum_info: parts.quorum_info,
                span_info: parts.span_info,
            },
        )
    }

    /// A catalogue for the organisation at `organisation`, without proposals.
    pub fn new(organisation: AccountId) -> (r: Self)
        ensures
            r.wf(),
            r@ == ProposalState::initial(organisation),
    {
        let r = Self {
            next_proposal_id: 1,
            proposals: Table::new(),
            voting_result: Table::new(),
            proposal_duration: DEFAULT_DURATION,
            quorum: DEFAULT_QUORUM,
            org_address: organisation,
            project_info: Table::new(),
            project_ids: Table::new(),
            fund_project_info: Table::new(),
            quorum_info: Table::new(),
            span_info: Table::new(),
        };
        proof {
            assert(r@.proposals =~= Map::empty());
            assert(r@.voting_result =~= Map::empty());
        }
        r
    }

    /// Creates a proposal of `caller` at time `now`.
    ///
    /// `caller_is_member` says whether the organisation knows the caller;
    /// `fund_target_known` whether it knows the project that `fund_project`
    /// names (it is read for a `FundProject` proposal only). Of the four
    /// optional payloads the one of `proposal_type` must be there.
    ///
    /// On success the proposal is open, has no votes, takes votes during
    /// `[now, now + duration)`, and its id, the next free one, is returned.
    /// On refusal nothing changes, and no id is used up.
    pub fn create_proposal(
        &mut self,
        caller: AccountId,
        now: Timestamp,
        caller_is_member: bool,
        fund_target_known: bool,
        title: String,
        details: Vec<String>,
        proposal_type: ProposalType,
        add_project: Option<ProjectInfo>,
        fund_project: Option<FundProjectInfo>,
        change_quorum: Option<QuorumInfo>,
        change_proposal_span: Option<SpanInfo>,
    ) -> (r: Result<u64, Error>)
        requires
            old(self).wf(),
            old(self)@.next_proposal_id < u64::MAX,
            now + old(self)@.proposal_duration <= u64::MAX,
        ensures
            final(self).wf(),
            old(self)@.steps_to(final(self)@),
            match r {
                Ok(id) => {
                    &&& creation_refusal(
                        caller_is_member,
                        fund_target_known,
                        proposal_type,
                        add_project,
                        fund_project,
                        change_quorum,
                        change_proposal_span,
                    ) is None
                    &&& id == old(self)@.next_proposal_id
                    &&& final(self)@ == old(self)@.created(
                        caller,
                        now,
                        title,
                        details@,
                        proposal_type,
                        add_project,
                        fund_project,
                        change_quorum,
                        change_proposal_span,
                    )
                },
                Err(e) => {
                    &&& creation_refusal(
                        caller_is_member,
                        fund_target_known,
                        proposal_type,
                        add_project,
                        fund_project,
                        change_quorum,
                        change_proposal_span,
                    ) == Some(e)
                    &&& final(self)@ == old(self)@
                },
            },
    {
        let id = self.next_proposal_id;
        if !caller_is_member {
            return Err(Error::MemberNotFound);
        }
        match proposal_type {
            ProposalType::AddProject => {
                match add_project {
                    Some(project_info) => {
                        self.project_info.insert(id, project_info);
                    },
                    None => {
                        return Err(Error::ProjectInfoNotFound);
                    },
                }
            },
            ProposalType::FundProject => {
                match fund_project {
                    Some(fund_info) => {
                        if !fund_target_known {
                            return Err(Error::InvalidProjectInfo);
                        }
                        self.fund_project_info.insert(id, fund_info);
                    },
                    None => {
                        return Err(Error::FundInfoNotFound);
                    },
                }
            },
            ProposalType::ChangeQuorum => {
                match change_quorum {
                    Some(quorum_info) => {
                        self.quorum_info.insert(id, quorum_info);
                    },
                    None => {
                        return Err(Error::QuorumInfoNotFound);
                    },
                }
            },
            ProposalType::ChangeProposalSpan => {
                match change_proposal_span {
                    Some(span_info) => {
                        self.span_info.insert(id, span_info);
                    },
                    None => {
                        return Err(Error::SpanInfoNotFound);
                    },
                }
            },
        }
        let proposal_info = ProposalInfo {
            proposal_type,
            proposal_id: id,
            proposer: caller,
            proposal_span: ProposalSpan { start_time: now, end_time: now + self.proposal_duration },
            voter_type: Designation::Secretariate,
            title,
            details,
            status: Status::Open,
        };
        self.proposals.insert(id, proposal_info);
        self.voting_result.insert(id, VotingStatus::new(id));
        self.next_proposal_id += 1;
        proof {
            let expected = old(self)@.created(
                caller,
                now,
                title,
                details@,
                proposal_type,
                add_project,
                fund_project,
                change_quorum,
                change_proposal_span,
            );
            assert(self@.proposals =~= expected.proposals);
            assert(self@.voting_result =~= expected.voting_result);
            assert(self@ == expected);
        }
        Ok(id)
    }

    /// The lazy check of proposal `proposal_id` at `now`: if it is open and
    /// its voting time is over, it becomes `Passed` or `Rejected` by the
    /// turnout among `total_voters` and the tally. Otherwise nothing changes;
    /// so a second check changes nothing either.
    pub fn update_proposal_open_status(
        &mut self,
        proposal_id: u64,
        now: Timestamp,
        total_voters: u64,
    ) -> (r: Result<(), Error>)
        requires
            old(self).wf(),
            old(self)@.resolution_pending(proposal_id, now) ==> total_voters > 0,
        ensures
            final(self).wf(),
            final(self)@ == old(self)@.resolved(proposal_id, now, total_voters),
            old(self)@.steps_to(final(self)@),
            r is Ok == old(self)@.contains(proposal_id),
            r matches Err(e) ==> e == Error::ProposalNotFound,
    {
        let resolved = match self.proposals.get(&proposal_id) {
            Some(proposal) => {
                proof {
                    self.lemma_stored(proposal_id);
                }
                let record = self.voting_result.get(&proposal_id);
                assert(record is Some);
                let status = resolve(
                    proposal.status,
                    &proposal.proposal_span,
                    now,
                    record.unwrap(),
                    self.quorum,
                    total_voters,
                );
                let mut next = proposal.clone();
                next.status = status;
                next
            },
            None => {
                return Err(Error::ProposalNotFound);
            },
        };
        self.proposals.insert(proposal_id, resolved);
        proof {
            let expected = old(self)@.resolved(proposal_id, now, total_voters);
            assert(self@.proposals =~= expected.proposals);
            assert(self@ == expected);
        }
        Ok(())
    }

    fn set_status(&mut self, proposal_id: u64, status: Status)
        requires
            old(self).wf(),
            old(self)@.contains(proposal_id),
        ensures
            final(self).wf(),
            final(self)@ == old(self)@.with_status(proposal_id, status),
    {
        let mut next = self.proposals.get(&proposal_id).unwrap().clone();
        next.status = status;
        self.proposals.insert(proposal_id, next);
        proof {
            let expected = old(self)@.with_status(proposal_id, status);
            assert(self@.proposals =~= expected.proposals);
            assert(self@ == expected);
        }
    }

    /// Casts the vote of `caller` on proposal `proposal_id` at `now`.
    ///
    /// The proposal is first resolved lazily, with `total_voters` accounts in
    /// its electorate. `voter_status` is what the organisation says of the
    /// caller for that electorate: `None` if it does not know the account,
    /// else whether the account belongs to it.
    ///
    /// The vote is recorded, once, if the proposal is still open after the
    /// check, the caller is eligible and has not voted. Otherwise it is
    /// refused, the resolution stays, and the votes are as before.
    pub fn vote_proposal(
        &mut self,
        caller: AccountId,
        now: Timestamp,
        proposal_id: u64,
        vote: Vote,
        total_voters: u64,
        voter_status: Option<bool>,
    ) -> (r: Result<(), Error>)
        requires
            old(self).wf(),
            old(self)@.resolution_pending(proposal_id, now) ==> total_voters > 0,
        ensures
            final(self).wf(),
            old(self)@.steps_to(final(self)@),
            !old(self)@.contains(proposal_id) ==> r == Err::<(), Error>(Error::ProposalNotFound)
                && final(self)@ == old(self)@,
            old(self)@.contains(proposal_id) ==> {
                let resolved = old(self)@.resolved(proposal_id, now, total_voters);
                let refusal = vote_refusal(
                    resolved.proposals[proposal_id],
                    resolved.voting_result[proposal_id],
                    caller,
                    voter_status,
                );
                match r {
                    Ok(()) => refusal is None && resolved.voted(
                        proposal_id,
                        caller,
                        vote,
                        final(self)@,
                    ),
                    Err(e) => refusal == Some(e) && final(self)@ == resolved,
                }
            },
    {
        if self.update_proposal_open_status(proposal_id, now, total_voters).is_err() {
            return Err(Error::ProposalNotFound);
        }
        let ghost resolved = self@;
        proof {
            self.lemma_stored(proposal_id);
        }
        let proposal = self.proposals.get(&proposal_id).unwrap();
        match proposal.status {
            Status::Open => {
                match proposal.voter_type {
                    Designation::Secretariate | Designation::Member => {
                        match voter_status {
                            Some(true) => {
                                if self.voting_result.get(&proposal_id).unwrap().has_voter(
                                    &caller,
                                ) {
                                    return Err(Error::AlreadyVoted);
                                }
                                let record = self.voting_result.remove(&proposal_id).unwrap();
                                match update_voting_result(caller, record, vote) {
                                    Ok(updated) => {
                                        self.voting_result.insert(proposal_id, updated);
                                        proof {
                                            assert(self@.voting_result
                                                =~= resolved.voting_result.insert(
                                                proposal_id,
                                                updated@,
                                            ));
                                            assert(self@.proposals =~= resolved.proposals);
                                        }
                                        Ok(())
                                    },
                                    Err(e) => {
                                        assert(false);
                                        Err(e)
                                    },
                                }
                            },
                            Some(false) => Err(Error::UnAuthorized),
                            None => Err(Error::MemberNotFound),
                        }
                    },
                    _ => Err(Error::UnAuthorized),
                }
            },
            Status::Rejected => Err(Error::ProposalRejected),
            Status::Passed => Err(Error::ProposalClosed),
            Status::Executed => Err(Error::ProposalAlreadyExecuted),
        }
    }

    /// Executes proposal `proposal_id` at `now`, as far as the catalogue can.
    ///
    /// The proposal is first resolved lazily, with `total_voters` accounts in
    /// its electorate. Unless it has then passed, the call is refused:
    /// `ProposalRunning` while it is open, `ProposalRejected` after a
    /// rejection, `ProposalAlreadyExecuted` once executed; an executed
    /// proposal is never executed again and the state stays as it is.
    ///
    /// A passed change of quorum or of voting time is applied in place, the
    /// proposal becomes `Executed`, and `None` is returned. For any other
    /// passed proposal the effect to carry out is returned and the proposal
    /// stays `Passed` until [`Proposal::complete_execution`] confirms it.
    pub fn execute_proposal(&mut self, proposal_id: u64, now: Timestamp, total_voters: u64) -> (r:
        Result<Option<Effect>, Error>)
        requires
            old(self).wf(),
            old(self)@.resolution_pending(proposal_id, now) ==> total_voters > 0,
        ensures
            final(self).wf(),
            old(self)@.steps_to(final(self)@),
            !old(self)@.contains(proposal_id) ==> r == Err::<Option<Effect>, Error>(
                Error::ProposalNotFound,
            ) && final(self)@ == old(self)@,
            old(self)@.contains(proposal_id) && old(self)@.proposals[proposal_id].status
                == Status::Executed ==> r == Err::<Option<Effect>, Error>(
                Error::ProposalAlreadyExecuted,
            ) && final(self)@ == old(self)@,
            old(self)@.contains(proposal_id) ==> {
                let resolved = old(self)@.resolved(proposal_id, now, total_voters);
                match r {
                    Ok(effect) => {
                        &&& resolved.proposals[proposal_id].status == Status::Passed
                        &&& match effect {
                            Some(e) => resolved.effect_of(proposal_id) == Some(e@),
                            None => resolved.effect_of(proposal_id) is None,
                        }
                        &&& final(self)@ == resolved.executed_in_place(proposal_id)
                    },
                    Err(e) => {
                        &&& execution_refusal(resolved.proposals[proposal_id].status) == Some(e)
                        &&& final(self)@ == resolved
                    },
                }
            },
    {
        if self.update_proposal_open_status(proposal_id, now, total_voters).is_err() {
            return Err(Error::ProposalNotFound);
        }
        proof {
            self.lemma_stored(proposal_id);
            old(self).lemma_stored(proposal_id);
            if old(self)@.proposals[proposal_id].status == Status::Executed {
                assert(self@.proposals =~= old(self)@.proposals);
            }
        }
        let proposal = self.proposals.get(&proposal_id).unwrap();
        match proposal.status {
            Status::Open => Err(Error::ProposalRunning),
            Status::Rejected => Err(Error::ProposalRejected),
            Status::Executed => Err(Error::ProposalAlreadyExecuted),
            Status::Passed => {
                match proposal.proposal_type {
                    ProposalType::AddProject => {
                        let project_info = self.project_info.get(&proposal_id).unwrap();
                        Ok(
                            Some(
                                Effect::AddProject {
                                    title: proposal.title.clone(),
                                    details: proposal.details.clone(),
                                    fund_asked: project_info.fund_asked,
                                    strength: project_info.strength,
                                    proposer: proposal.proposer,
                                },
                            ),
                        )
                    },
                    ProposalType::FundProject => {
                        let fund_project_info = self.fund_project_info.get(&proposal_id).unwrap();
                        Ok(
                            Some(
                                Effect::FundProject {
                                    project_id: fund_project_info.project_id,
                                    fund_asked: fund_project_info.fund_asked,
                                },
                            ),
                        )
                    },
                    ProposalType::ChangeQuorum => {
                        let quorum = self.quorum_info.get(&proposal_id).unwrap().quorum;
                        self.set_status(proposal_id, Status::Executed);
                        self.quorum = quorum;
                        Ok(None)
                    },
                    ProposalType::ChangeProposalSpan => {
                        let duration = self.span_info.get(&proposal_id).unwrap().duration;
                        self.set_status(proposal_id, Status::Executed);
                        self.proposal_duration = duration;
                        Ok(None)
                    },
                }
            },
        }
    }

    /// Confirms that the effect of the passed proposal `proposal_id` was
    /// carried out: the proposal becomes `Executed`. For an `AddProject`
    /// proposal `project_id` is the project that was created, and is recorded.
    ///
    /// Nothing is confirmed for a proposal that has not passed or is already
    /// executed, for an `AddProject` proposal without a project id, or for a
    /// change of configuration, which has no outside effect.
    pub fn complete_execution(&mut self, proposal_id: u64, project_id: Option<u32>) -> (r: Result<
        (),
        Error,
    >)
        requires
            old(self).wf(),
        ensures
            final(self).wf(),
            old(self)@.steps_to(final(self)@),
            match r {
                Ok(()) => {
                    &&& old(self)@.completion_refusal(proposal_id, project_id) is None
                    &&& final(self)@ == old(self)@.completed(proposal_id, project_id)
                },
                Err(e) => {
                    &&& old(self)@.completion_refusal(proposal_id, project_id) == Some(e)
                    &&& final(self)@ == old(self)@
                },
            },
    {
        proof {
            self.lemma_stored(proposal_id);
        }
        let (status, proposal_type) = match self.proposals.get(&proposal_id) {
            Some(proposal) => (proposal.status, proposal.proposal_type),
            None => {
                return Err(Error::ProposalNotFound);
            },
        };
        match status {
            Status::Open => Err(Error::ProposalRunning),
            Status::Rejected => Err(Error::ProposalRejected),
            Status::Executed => Err(Error::ProposalAlreadyExecuted),
            Status::Passed => {
                match proposal_type {
                    ProposalType::AddProject => {
                        match project_id {
                            Some(created) => {
                                self.project_ids.insert(proposal_id, created);
                                self.set_status(proposal_id, Status::Executed);
                                Ok(())
                            },
                            None => Err(Error::ProjectIdNotFound),
                        }
                    },
                    ProposalType::FundProject => {
                        self.set_status(proposal_id, Status::Executed);
                        Ok(())
                    },
                    _ => Err(Error::IncorrectProposalType),
                }
            },
        }
    }

    /// The votes cast on proposal `proposal_id`.
    pub fn get_voting_status(&self, proposal_id: u64) -> (r: Result<VotingStatus, Error>)
        requires
            self.wf(),
        ensures
            match r {
                Ok(status) => self@.contains(proposal_id) && status@
                    == self@.voting_result[proposal_id],
                Err(e) => !self@.contains(proposal_id) && e == Error::ProposalNotFound,
            },
    {
        proof {
            self.lemma_stored(proposal_id);
        }
        match self.voting_result.get(&proposal_id) {
            Some(status) => Ok(status.clone()),
            None => Err(Error::ProposalNotFound),
        }
    }

    /// Proposal `proposal_id` as recorded.
    pub fn get_proposal_info(&self, proposal_id: u64) -> (r: Result<ProposalInfo, Error>)
        requires
            self.wf(),
        ensures
            match r {
                Ok(info) => self@.contains(proposal_id) && info@ == self@.proposals[proposal_id],
                Err(e) => !self@.contains(proposal_id) && e == Error::ProposalNotFound,
            },
    {
        proof {
            self.lemma_stored(proposal_id);
        }
        match self.proposals.get(&proposal_id) {
            Some(info) => Ok(info.clone()),
            None => Err(Error::ProposalNotFound),
        }
    }

    /// The voting time that proposal `proposal_id` asks for, if it is a
    /// `ChangeProposalSpan` proposal.
    pub fn get_span_info(&self, proposal_id: u64) -> (r: Result<SpanInfo, Error>)
        requires
            self.wf(),
        ensures
            match r {
                Ok(info) => self@.span_info.dom().contains(proposal_id) && info
                    == self@.span_info[proposal_id],
                Err(e) => !self@.span_info.dom().contains(proposal_id) && e
                    == Error::SpanInfoNotFound,
            },
    {
        match self.span_info.get(&proposal_id) {
            Some(info) => Ok(*info),
            None => Err(Error::SpanInfoNotFound),
        }
    }

    /// The quorum that proposal `proposal_id` asks for, if it is a
    /// `ChangeQuorum` proposal.
    pub fn get_quorum_info(&self, proposal_id: u64) -> (r: Result<QuorumInfo, Error>)
        requires
            self.wf(),
        ensures
            match r {
                Ok(info) => self@.quorum_info.dom().contains(proposal_id) && info
                    == self@.quorum_info[proposal_id],
                Err(e) => !self@.quorum_info.dom().contains(proposal_id) && e
                    == Error::QuorumInfoNotFound,
            },
    {
        match self.quorum_info.get(&proposal_id) {
            Some(info) => Ok(*info),
            None => Err(Error::QuorumInfoNotFound),
        }
    }

    /// The funding that proposal `proposal_id` asks for, if it is a
    /// `FundProject` proposal.
    pub fn get_project_fund_info(&self, proposal_id: u64) -> (r: Result<FundProjectInfo, Error>)
        requires
            self.wf(),
        ensures
            match r {
                Ok(info) => self@.fund_project_info.dom().contains(proposal_id) && info
                    == self@.fund_project_info[proposal_id],
                Err(e) => !self@.fund_project_info.dom().contains(proposal_id) && e
                    == Error::FundInfoNotFound,
            },
    {
        match self.fund_project_info.get(&proposal_id) {
            Some(info) => Ok(*info),
            None => Err(Error::FundInfoNotFound),
        }
    }

    /// The project that the executed proposal `proposal_id` created.
    pub fn get_project_id(&self, proposal_id: u64) -> (r: Result<u32, Error>)
        requires
            self.wf(),
        ensures
            match r {
                Ok(id) => self@.project_ids.dom().contains(proposal_id) && id
                    == self@.project_ids[proposal_id],
                Err(e) => !self@.project_ids.dom().contains(proposal_id) && e
                    == Error::ProjectIdNotFound,
            },
    {
        match self.project_ids.get(&proposal_id) {
            Some(id) => Ok(*id),
            None => Err(Error::ProjectIdNotFound),
        }
    }

    /// The turnout a proposal needs to pass, in millionths.
    pub fn quorum(&self) -> (r: u64)
        ensures
            r == self@.quorum,
    {
        self.quorum
    }

    /// How long a new proposal takes votes.
    pub fn proposal_duration(&self) -> (r: Timestamp)
        ensures
            r == self@.proposal_duration,
    {
        self.proposal_duration
    }
}

} // verus!
