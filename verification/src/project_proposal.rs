//! Proposals of a project: the approach it is to take, and extensions of a
//! task's deadline.
//!
//! What the catalogue needs to know of the project (whether the caller may
//! vote, how many may, whether a deadline is feasible) the caller hands in;
//! what a passed proposal asks of the project it hands out as an [`Effect`].

use vstd::prelude::*;
use crate::account::{AccountId, Timestamp};
use crate::error::Error;
use crate::graph::{minimal_task_list, minimal_tasks};
use crate::table::Table;
use crate::task::{AcceptedApproach, ApproachView, Task};
pub use crate::voting::{
    ProposalSpan,
    Status,
    Vote,
    VoteInfo,
    Votes,
    VotingStatus,
    DEFAULT_DURATION,
    DEFAULT_QUORUM,
};
use crate::voting::{
    execution_refusal,
    has_voted,
    resolution_due,
    resolve,
    resolved_status,
    status_reaches,
    update_voting_result,
    VotingRecord,
};

verus! {

#[derive(Clone, Copy, Debug, PartialEq, Eq, Structural)]
pub enum ProposalType {
    ProposeApproach,
    ExtendDeadLine,
}

/// What an `ExtendDeadLine` proposal asks for: a new end time for a task.
#[derive(Debug, PartialEq, Eq)]
pub struct DeadLineExtensionInfo {
    pub task_id: u16,
    pub deadline: Timestamp,
    pub details: Vec<String>,
}

/// The mathematical content of a [`DeadLineExtensionInfo`].
pub struct ExtensionView {
    pub task_id: u16,
    pub deadline: Timestamp,
    pub details: Seq<String>,
}

impl View for DeadLineExtensionInfo {
    type V = ExtensionView;

    open spec fn view(&self) -> ExtensionView {
        ExtensionView { task_id: self.task_id, deadline: self.deadline, details: self.details@ }
    }
}

impl Clone for DeadLineExtensionInfo {
    fn clone(&self) -> (r: Self)
        ensures
            r@ == self@,
    {
        DeadLineExtensionInfo {
            task_id: self.task_id,
            deadline: self.deadline,
            details: self.details.clone(),
        }
    }
}

/// A proposal as the catalogue records it.
#[derive(Debug, PartialEq, Eq)]
pub struct ProposalInfo {
    pub proposal_type: ProposalType,
    pub proposal_id: u64,
    pub proposer: AccountId,
    pub proposal_span: ProposalSpan,
    pub title: String,
    pub status: Status,
}

impl Clone for ProposalInfo {
    fn clone(&self) -> (r: Self)
        ensures
            r == *self,
    {
        ProposalInfo {
            proposal_type: self.proposal_type,
            proposal_id: self.proposal_id,
            proposer: self.proposer,
            proposal_span: self.proposal_span,
            title: self.title.clone(),
            status: self.status,
        }
    }
}

/// What a passed proposal asks the project to do. The caller carries it out
/// and reports success with [`Pproposal::complete_execution`].
#[derive(Debug, PartialEq, Eq)]
pub enum Effect {
    /// Accept this approach: its dates and its tasks, with their minimal
    /// dependencies.
    AcceptApproach(AcceptedApproach),
    /// Give the task this end time.
    ExtendDeadLine { task_id: u16, deadline: Timestamp },
}

/// The mathematical content of an [`Effect`].
pub enum EffectView {
    AcceptApproach(ApproachView),
    ExtendDeadLine { task_id: u16, deadline: Timestamp },
}

impl View for Effect {
    type V = EffectView;

    open spec fn view(&self) -> EffectView {
        match *self {
            Effect::AcceptApproach(approach) => EffectView::AcceptApproach(approach@),
            Effect::ExtendDeadLine { task_id, deadline } => EffectView::ExtendDeadLine {
                task_id,
                deadline,
            },
        }
    }
}

/// The catalogue of a project's proposals.
pub struct Pproposal {
    next_proposal_id: u64,
    proposals: Table<u64, ProposalInfo>,
    voting_result: Table<u64, VotingStatus>,
    proposal_duration: Timestamp,
    quorum: u64,
    approach_info: Table<u64, AcceptedApproach>,
    deadline_extension_info: Table<u64, DeadLineExtensionInfo>,
    project_address: AccountId,
}

/// The mathematical content of a [`Pproposal`] catalogue.
pub struct PproposalState {
    /// The id that the next proposal gets; ids start at 1 and are never reused.
    pub next_proposal_id: u64,
    pub proposals: Map<u64, ProposalInfo>,
    pub voting_result: Map<u64, VotingRecord>,
    /// How long a new proposal takes votes.
    pub proposal_duration: Timestamp,
    /// The turnout a proposal needs to pass, in millionths.
    pub quorum: u64,
    /// For each `ProposeApproach` proposal, the approach with its tasks
    /// reduced to their minimal dependencies.
    pub approach_info: Map<u64, ApproachView>,
    pub deadline_extension_info: Map<u64, ExtensionView>,
    pub project_address: AccountId,
}

/// The content of an approach that may be missing.
pub open spec fn approach_view(approach: Option<AcceptedApproach>) -> Option<ApproachView> {
    if approach is Some {
        Some(approach.unwrap()@)
    } else {
        None
    }
}

/// The content of an extension that may be missing.
pub open spec fn extension_view(info: Option<DeadLineExtensionInfo>) -> Option<ExtensionView> {
    if info is Some {
        Some(info.unwrap()@)
    } else {
        None
    }
}

/// Whether some task of `tasks` ends after `completion`.
pub open spec fn some_task_ends_after(tasks: Seq<crate::task::TaskView>, completion: Timestamp) -> bool {
    exists|i: int| 0 <= i < tasks.len() && (#[trigger] tasks[i]).end_time > completion
}

/// Why a proposal whose voting would end at `voting_end` cannot be created,
/// if it cannot.
///
/// An approach must be given, start no earlier than the voting ends, and hold
/// no task that ends after the project does. An extension must be given; what
/// the project answered when asked who may vote on the task (`task_voters`)
/// and whether the new deadline is possible (`deadline_possible`) must be no
/// error, and the deadline must be feasible.
pub open spec fn creation_refusal(
    voting_end: int,
    proposal_type: ProposalType,
    approach: Option<ApproachView>,
    deadline_extension_info: Option<ExtensionView>,
    task_voters: Result<bool, Error>,
    deadline_possible: Result<bool, Error>,
) -> Option<Error> {
    match proposal_type {
        ProposalType::ProposeApproach => match approach {
            None => Some(Error::ApproachNotDefined),
            Some(approach) => if approach.project_start_date < voting_end {
                Some(Error::CannotStartProjectBeforeVoting)
            } else if some_task_ends_after(approach.tasks, approach.project_completion_date) {
                Some(Error::TaskDeadlineCannotCrossPojectDeadLine)
            } else {
                None
            },
        },
        ProposalType::ExtendDeadLine => match deadline_extension_info {
            None => Some(Error::DeadLineNotDefined),
            Some(_) => match task_voters {
                Err(e) => Some(e),
                Ok(_) => match deadline_possible {
                    Err(e) => Some(e),
                    Ok(false) => Some(Error::DeadlineInfeasible),
                    Ok(true) => None,
                },
            },
        },
    }
}

/// Why a vote is refused, if it is, on a proposal in this state, where
/// `voter_status` is what the project answered when asked whether the caller
/// belongs to the proposal's electorate.
pub open spec fn vote_refusal(
    status: Status,
    record: VotingRecord,
    caller: AccountId,
    voter_status: Result<bool, Error>,
) -> Option<Error> {
    match status {
        Status::Open => match voter_status {
            Err(e) => Some(e),
            Ok(false) => Some(Error::UnAuthorized),
            Ok(true) => if has_voted(record.voters, caller) {
                Some(Error::AlreadyVoted)
            } else {
                None
            },
        },
        Status::Rejected => Some(Error::ProposalRejected),
        Status::Passed => Some(Error::ProposalClosed),
        Status::Executed => Some(Error::ProposalAlreadyExecuted),
    }
}

impl PproposalState {
    /// Whether a proposal with this id exists.
    pub open spec fn contains(self, id: u64) -> bool {
        self.proposals.dom().contains(id)
    }

    /// Whether the data that the proposal's type needs are recorded.
    pub open spec fn payload_present(self, id: u64) -> bool {
        match self.proposals[id].proposal_type {
            ProposalType::ProposeApproach => self.approach_info.dom().contains(id),
            ProposalType::ExtendDeadLine => self.deadline_extension_info.dom().contains(id),
        }
    }

    /// The proposals are those with ids from 1 up to the next id; each has a
    /// well-formed voting record and the data of its type.
    pub open spec fn wf(self) -> bool {
        &&& self.next_proposal_id >= 1
        &&& forall|id: u64| self.proposals.dom().contains(id) <==> 1 <= id < self.next_proposal_id
        &&& forall|id: u64| self.voting_result.dom().contains(id) <==> self.proposals.dom().contains(id)
        &&& forall|id: u64| #[trigger]
            self.proposals.dom().contains(id) ==> {
                &&& self.proposals[id].proposal_id == id
                &&& self.voting_result[id].proposal_id == id
                &&& self.voting_result[id].wf()
                &&& self.payload_present(id)
            }
    }

    /// The state of a new catalogue.
    pub open spec fn initial(project_address: AccountId) -> PproposalState {
        PproposalState {
            next_proposal_id: 1,
            proposals: Map::empty(),
            voting_result: Map::empty(),
            proposal_duration: DEFAULT_DURATION,
            quorum: DEFAULT_QUORUM,
            approach_info: Map::empty(),
            deadline_extension_info: Map::empty(),
            project_address,
        }
    }

    /// The state with one more proposal: open, without votes, taking votes
    /// from `now` for the current voting time, with the next id as its id. An
    /// approach is recorded with its tasks reduced to their minimal
    /// dependencies.
    pub open spec fn created(
        self,
        caller: AccountId,
        now: Timestamp,
        title: String,
        proposal_type: ProposalType,
        approach: Option<ApproachView>,
        deadline_extension_info: Option<ExtensionView>,
    ) -> PproposalState {
        let id = self.next_proposal_id;
        let info = ProposalInfo {
            proposal_type,
            proposal_id: id,
            proposer: caller,
            proposal_span: ProposalSpan {
                start_time: now,
                end_time: (now + self.proposal_duration) as u64,
            },
            title,
            status: Status::Open,
        };
        PproposalState {
            next_proposal_id: (id + 1) as u64,
            proposals: self.proposals.insert(id, info),
            voting_result: self.voting_result.insert(id, VotingRecord::empty(id)),
            approach_info: if proposal_type == ProposalType::ProposeApproach {
                self.approach_info.insert(
                    id,
                    ApproachView {
                        tasks: minimal_tasks(approach.unwrap().tasks),
                        ..approach.unwrap()
                    },
                )
            } else {
                self.approach_info
            },
            deadline_extension_info: if proposal_type == ProposalType::ExtendDeadLine {
                self.deadline_extension_info.insert(id, deadline_extension_info.unwrap())
            } else {
                self.deadline_extension_info
            },
            ..self
        }
    }

    /// The state with the status of proposal `id` replaced.
    pub open spec fn with_status(self, id: u64, status: Status) -> PproposalState {
        PproposalState {
            proposals: self.proposals.insert(id, ProposalInfo { status, ..self.proposals[id] }),
            ..self
        }
    }

    /// Whether resolving proposal `id` at `now` decides it.
    pub open spec fn resolution_pending(self, id: u64, now: Timestamp) -> bool {
        self.contains(id) && resolution_due(
            self.proposals[id].status,
            self.proposals[id].proposal_span,
            now,
        )
    }

    /// The state after the lazy check of proposal `id` at `now`, with
    /// `eligible` accounts in its electorate. Unknown ids change nothing.
    pub open spec fn resolved(self, id: u64, now: Timestamp, eligible: u64) -> PproposalState {
        if self.contains(id) {
            self.with_status(
                id,
                resolved_status(
                    self.proposals[id].status,
                    self.proposals[id].proposal_span,
                    now,
                    self.voting_result[id],
                    self.quorum,
                    eligible,
                ),
            )
        } else {
            self
        }
    }

    /// Whether `next` is this state with one more vote on proposal `id`.
    pub open spec fn voted(self, id: u64, caller: AccountId, vote: Vote, next: PproposalState) -> bool {
        &&& self.voting_result[id].followed_by(caller, vote, next.voting_result[id])
        &&& next == PproposalState {
            voting_result: self.voting_result.insert(id, next.voting_result[id]),
            ..self
        }
    }

    /// What executing the passed proposal `id` asks of the project.
    pub open spec fn effect_of(self, id: u64) -> EffectView {
        match self.proposals[id].proposal_type {
            ProposalType::ProposeApproach => EffectView::AcceptApproach(self.approach_info[id]),
            ProposalType::ExtendDeadLine => EffectView::ExtendDeadLine {
                task_id: self.deadline_extension_info[id].task_id,
                deadline: self.deadline_extension_info[id].deadline,
            },
        }
    }

    /// Why the effect of proposal `id` cannot be confirmed, if it cannot.
    pub open spec fn completion_refusal(self, id: u64) -> Option<Error> {
        if !self.contains(id) {
            Some(Error::ProposalNotFound)
        } else {
            execution_refusal(self.proposals[id].status)
        }
    }

    /// Whether every proposal of this state is in `next`, with a status that
    /// its own can move to: no proposal is forgotten, none returns to `Open`,
    /// none leaves `Rejected` or `Executed`, and `Passed` only becomes
    /// `Executed`.
    pub open spec fn steps_to(self, next: PproposalState) -> bool {
        forall|id: u64| #[trigger]
            self.proposals.dom().contains(id) ==> next.proposals.dom().contains(id)
                && status_reaches(self.proposals[id].status, next.proposals[id].status)
    }
}

/// The lazy check is idempotent: a second check of the same proposal at the
/// same time, with the same electorate, changes nothing.
pub proof fn lemma_resolved_twice(state: PproposalState, id: u64, now: Timestamp, eligible: u64)
    ensures
        state.resolved(id, now, eligible).resolved(id, now, eligible) == state.resolved(
            id,
            now,
            eligible,
        ),
{
    let once = state.resolved(id, now, eligible);
    assert(once.resolved(id, now, eligible).proposals =~= once.proposals);
}

/// While the span of an open proposal lasts, the lazy check changes nothing,
/// whatever the tally so far; the vote of an eligible account that has not
/// voted is taken, and the proposal is still open after it.
pub proof fn lemma_vote_in_time_keeps_open(
    state: PproposalState,
    id: u64,
    now: Timestamp,
    eligible: u64,
    caller: AccountId,
    vote: Vote,
    next: PproposalState,
)
    requires
        state.contains(id),
        state.proposals[id].status == Status::Open,
        now < state.proposals[id].proposal_span.end_time,
    ensures
        state.resolved(id, now, eligible) == state,
        !has_voted(state.voting_result[id].voters, caller) ==> vote_refusal(
            Status::Open,
            state.voting_result[id],
            caller,
            Ok(true),
        ) is None,
        state.voted(id, caller, vote, next) ==> next.proposals[id].status == Status::Open,
{
    assert(state.resolved(id, now, eligible).proposals =~= state.proposals);
}

impl View for Pproposal {
    type V = PproposalState;

    closed spec fn view(&self) -> PproposalState {
        PproposalState {
            next_proposal_id: self.next_proposal_id,
            proposals: self.proposals@,
            voting_result: self.voting_result@.map_values(|v: VotingStatus| v@),
            proposal_duration: self.proposal_duration,
            quorum: self.quorum,
            approach_info: self.approach_info@.map_values(|a: AcceptedApproach| a@),
            deadline_extension_info: self.deadline_extension_info@.map_values(
                |d: DeadLineExtensionInfo| d@,
            ),
            project_address: self.project_address,
        }
    }
}

/// Whether some task of `tasks` ends after `completion`.
pub fn any_task_ends_after(tasks: &Vec<Task>, completion: Timestamp) -> (r: bool)
    ensures
        r == some_task_ends_after(crate::task::task_views(tasks@), completion),
{
    let mut i: usize = 0;
    while i < tasks.len()
        invariant
            i <= tasks@.len(),
            forall|j: int|
                0 <= j < i ==> (#[trigger] crate::task::task_views(tasks@)[j]).end_time
                    <= completion,
        decreases tasks@.len() - i,
    {
        if tasks[i].end_time > completion {
            assert(crate::task::task_views(tasks@)[i as int].end_time > completion);
            return true;
        }
        i += 1;
    }
    false
}

/// A catalogue taken apart, for whoever stores it between calls.
pub struct PproposalParts {
    pub next_proposal_id: u64,
    pub proposals: Table<u64, ProposalInfo>,
    pub voting_result: Table<u64, VotingStatus>,
    pub proposal_duration: Timestamp,
    pub quorum: u64,
    pub approach_info: Table<u64, AcceptedApproach>,
    pub deadline_extension_info: Table<u64, DeadLineExtensionInfo>,
    pub project_address: AccountId,
}

impl PproposalParts {
    /// Every table is well formed.
    pub open spec fn tables_wf(&self) -> bool {
        &&& self.proposals.wf()
        &&& self.voting_result.wf()
        &&& self.approach_info.wf()
        &&& self.deadline_extension_info.wf()
    }

    /// The state that the parts describe.
    pub open spec fn state(&self) -> PproposalState {
        PproposalState {
            next_proposal_id: self.next_proposal_id,
            proposals: self.proposals@,
            voting_result: self.voting_result@.map_values(|v: VotingStatus| v@),
            proposal_duration: self.proposal_duration,
            quorum: self.quorum,
            approach_info: self.approach_info@.map_values(|a: AcceptedApproach| a@),
            deadline_extension_info: self.deadline_extension_info@.map_values(
                |d: DeadLineExtensionInfo| d@,
            ),
            project_address: self.project_address,
        }
    }

    /// Whether the parts describe a well-formed state.
    #[verifier::loop_isolation(false)]
    pub fn is_wf(&self) -> (r: bool)
        requires
            self.tables_wf(),
        ensures
            r == self.state().wf(),
    {
        let ghost state = self.state();
        if self.next_proposal_id < 1 {
            return false;
        }
        let keys = self.proposals.keys();
        let mut k: usize = 0;
        while k < keys.len()
            invariant
                k <= keys@.len(),
                forall|j: int| 0 <= j < k ==> 1 <= #[trigger] keys@[j] < self.next_proposal_id,
            decreases keys@.len() - k,
        {
            if keys[k] < 1 || keys[k] >= self.next_proposal_id {
                assert(keys@.contains(keys@[k as int]));
                assert(state.proposals.dom().contains(keys@[k as int]));
                return false;
            }
            k += 1;
        }
        let voters = self.voting_result.keys();
        let mut k: usize = 0;
        while k < voters.len()
            invariant
                k <= voters@.len(),
                forall|j: int|
                    0 <= j < k ==> self.proposals@.dom().contains(#[trigger] voters@[j]),
            decreases voters@.len() - k,
        {
            if !self.proposals.contains_key(&voters[k]) {
                assert(voters@.contains(voters@[k as int]));
                assert(state.voting_result.dom().contains(voters@[k as int]));
                assert(!state.proposals.dom().contains(voters@[k as int]));
                return false;
            }
            k += 1;
        }
        let mut id: u64 = 1;
        while id < self.next_proposal_id
            invariant
                1 <= id <= self.next_proposal_id,
                forall|i: u64|
                    1 <= i < id ==> {
                        &&& #[trigger] state.proposals.dom().contains(i)
                        &&& state.voting_result.dom().contains(i)
                        &&& state.proposals[i].proposal_id == i
                        &&& state.voting_result[i].proposal_id == i
                        &&& state.voting_result[i].wf()
                        &&& state.payload_present(i)
                    },
            decreases self.next_proposal_id - id,
        {
            let proposal_type = match self.proposals.get(&id) {
                Some(info) => {
                    if info.proposal_id != id {
                        assert(state.proposals.dom().contains(id));
                        return false;
                    }
                    info.proposal_type
                },
                None => {
                    assert(!state.proposals.dom().contains(id));
                    return false;
                },
            };
            match self.voting_result.get(&id) {
                Some(record) => {
                    if record.proposal_id != id || !record.is_wf() {
                        assert(state.proposals.dom().contains(id));
                        return false;
                    }
                },
                None => {
                    assert(state.proposals.dom().contains(id));
                    assert(!state.voting_result.dom().contains(id));
                    return false;
                },
            }
            let present = match proposal_type {
                ProposalType::ProposeApproach => self.approach_info.contains_key(&id),
                ProposalType::ExtendDeadLine => self.deadline_extension_info.contains_key(&id),
            };
            if !present {
                assert(state.proposals.dom().contains(id));
                return false;
            }
            proof {
                assert(state.proposals.dom().contains(id));
                assert(state.voting_result.dom().contains(id));
                assert(state.voting_result[id] == self.voting_result@[id]@);
                assert(state.payload_present(id));
            }
            id += 1;
        }
        proof {
            assert forall|i: u64| state.proposals.dom().contains(i) implies 1 <= i
                < state.next_proposal_id by {
                assert(keys@.contains(i));
                let j = choose|j: int| 0 <= j < keys@.len() && keys@[j] == i;
                assert(1 <= keys@[j] < self.next_proposal_id);
            }
            assert forall|i: u64| state.voting_result.dom().contains(i)
                implies state.proposals.dom().contains(i) by {
                assert(voters@.contains(i));
                let j = choose|j: int| 0 <= j < voters@.len() && voters@[j] == i;
                assert(self.proposals@.dom().contains(voters@[j]));
            }
        }
        true
    }
}

impl Pproposal {
    /// The catalogue is in a state that its operations can have produced.
    pub closed spec fn wf(&self) -> bool {
        &&& self.proposals.wf()
        &&& self.voting_result.wf()
        &&& self.approach_info.wf()
        &&& self.deadline_extension_info.wf()
        &&& self@.wf()
    }

    /// Well-formedness of the catalogue implies that of its content.
    pub proof fn lemma_wf(&self)
        requires
            self.wf(),
        ensures
            self@.wf(),
    {
    }

    proof fn lemma_stored(&self, id: u64)
        ensures
            self@.voting_result.dom().contains(id) == self.voting_result@.dom().contains(id),
            self.voting_result@.dom().contains(id) ==> self@.voting_result[id]
                == self.voting_result@[id]@,
            self@.approach_info.dom().contains(id) == self.approach_info@.dom().contains(id),
            self.approach_info@.dom().contains(id) ==> self@.approach_info[id]
                == self.approach_info@[id]@,
            self@.deadline_extension_info.dom().contains(id)
                == self.deadline_extension_info@.dom().contains(id),
            self.deadline_extension_info@.dom().contains(id) ==> self@.deadline_extension_info[id]
                == self.deadline_extension_info@[id]@,
    {
    }

    /// Takes the catalogue apart.
    pub fn into_parts(self) -> (parts: PproposalParts)
        requires
            self.wf(),
        ensures
            parts.tables_wf(),
            parts.state() == self@,
            parts.state().wf(),
    {
        PproposalParts {
            next_proposal_id: self.next_proposal_id,
            proposals: self.proposals,
            voting_result: self.voting_result,
            proposal_duration: self.proposal_duration,
            quorum: self.quorum,
            approach_info: self.approach_info,
            deadline_extension_info: self.deadline_extension_info,
            project_address: self.project_address,
        }
    }

    /// Puts a catalogue together again, if the parts describe a well-formed
    /// state; what was taken apart always does.
    pub fn from_parts(parts: PproposalParts) -> (r: Option<Self>)
        requires
            parts.tables_wf(),
        ensures
            r is Some == parts.state().wf(),
            r matches Some(catalogue) ==> catalogue.wf() && catalogue@ == parts.state(),
    {
        if !parts.is_wf() {
            return None;
        }
        Some(
            Pproposal {
                next_proposal_id: parts.next_proposal_id,
                proposals: parts.proposals,
                voting_result: parts.voting_result,
                proposal_duration: parts.proposal_duration,
                quorum: parts.quorum,
                approach_info: parts.approach_info,
                deadline_extension_info: parts.deadline_extension_info,
                project_address: parts.project_address,
            },
        )
    }

    /// A catalogue for the project at `project_address`, without proposals.
    pub fn new(project_address: AccountId) -> (r: Self)
        ensures
            r.wf(),
            r@ == PproposalState::initial(project_address),
    {
        let r = Self {
            next_proposal_id: 1,
            proposals: Table::new(),
            voting_result: Table::new(),
            proposal_duration: DEFAULT_DURATION,
            quorum: DEFAULT_QUORUM,
            approach_info: Table::new(),
            deadline_extension_info: Table::new(),
            project_address,
        };
        proof {
            assert(r@.voting_result =~= Map::empty());
            assert(r@.approach_info =~= Map::empty());
            assert(r@.deadline_extension_info =~= Map::empty());
        }
        r
    }

    /// Creates a proposal of `caller` at time `now`.
    ///
    /// Of the two optional payloads the one of `proposal_type` must be there.
    /// For an extension, `task_voters` is what the project answered when
    /// asked whether the caller is assigned to the task, and
    /// `deadline_possible` what it answered when asked whether the task can
    /// end at the new deadline; an error in either, or an infeasible
    /// deadline, refuses the proposal. For an approach both are ignored.
    ///
    /// On success the proposal is open, has no votes, takes votes during
    /// `[now, now + duration)`, and its id, the next free one, is returned.
    /// On refusal nothing changes, and no id is used up.
    pub fn create_proposal(
        &mut self,
        caller: AccountId,
        now: Timestamp,
        title: String,
        proposal_type: ProposalType,
        approach: Option<AcceptedApproach>,
        deadline_extension_info: Option<DeadLineExtensionInfo>,
        task_voters: Result<bool, Error>,
        deadline_possible: Result<bool, Error>,
    ) -> (r: Result<u64, Error>)
        requires
            old(self).wf(),
            old(self)@.next_proposal_id < u64::MAX,
            now + old(self)@.proposal_duration <= u64::MAX,
        ensures
            final(self).wf(),
            old(self)@.steps_to(final(self)@),
            ({
                let refusal = creation_refusal(
                    now + old(self)@.proposal_duration,
                    proposal_type,
                    approach_view(approach),
                    extension_view(deadline_extension_info),
                    task_voters,
                    deadline_possible,
                );
                match r {
                    Ok(id) => {
                        &&& refusal is None
                        &&& id == old(self)@.next_proposal_id
                        &&& final(self)@ == old(self)@.created(
                            caller,
                            now,
                            title,
                            proposal_type,
                            approach_view(approach),
                            extension_view(deadline_extension_info),
                        )
                    },
                    Err(e) => refusal == Some(e) && final(self)@ == old(self)@,
                }
            }),
    {
        let id = self.next_proposal_id;
        let proposal_span = ProposalSpan { start_time: now, end_time: now + self.proposal_duration };
        let ghost given_approach = approach_view(approach);
        let ghost given_extension = extension_view(deadline_extension_info);
        match proposal_type {
            ProposalType::ProposeApproach => {
                match approach {
                    Some(approach) => {
                        if approach.project_start_date < proposal_span.end_time {
                            return Err(Error::CannotStartProjectBeforeVoting);
                        }
                        if any_task_ends_after(&approach.tasks, approach.project_completion_date) {
                            return Err(Error::TaskDeadlineCannotCrossPojectDeadLine);
                        }
                        let AcceptedApproach { project_start_date, project_completion_date, tasks } =
                            approach;
                        let reduced = AcceptedApproach {
                            project_start_date,
                            project_completion_date,
                            tasks: minimal_task_list(tasks),
                        };
                        self.approach_info.insert(id, reduced);
                    },
                    None => {
                        return Err(Error::ApproachNotDefined);
                    },
                }
            },
            ProposalType::ExtendDeadLine => {
                match deadline_extension_info {
                    Some(deadline_info) => {
                        match task_voters {
                            Ok(_) => {},
                            Err(err) => {
                                return Err(err);
                            },
                        }
                        match deadline_possible {
                            Ok(true) => {},
                            Ok(false) => {
                                return Err(Error::DeadlineInfeasible);
                            },
                            Err(err) => {
                                return Err(err);
                            },
                        }
                        self.deadline_extension_info.insert(id, deadline_info);
                    },
                    None => {
                        return Err(Error::DeadLineNotDefined);
                    },
                }
            },
        }
        let proposal_info = ProposalInfo {
            proposal_type,
            proposal_id: id,
            proposer: caller,
            proposal_span,
            title,
            status: Status::Open,
        };
        self.proposals.insert(id, proposal_info);
        self.voting_result.insert(id, VotingStatus::new(id));
        self.next_proposal_id += 1;
        proof {
            let expected = old(self)@.created(
                caller,
                now,
                title,
                proposal_type,
                given_approach,
                given_extension,
            );
            assert(self@.voting_result =~= expected.voting_result);
            assert(self@.approach_info =~= expected.approach_info);
            assert(self@.deadline_extension_info =~= expected.deadline_extension_info);
            assert(self@ == expected);
        }
        Ok(id)
    }

    /// The lazy check of proposal `proposal_id` at `now`: if it is open and
    /// its voting time is over, it becomes `Passed` or `Rejected` by the
    /// turnout among `total_voters` and the tally. Otherwise nothing changes;
    /// so a second check changes nothing either.
    pub fn update_proposal_open_status(
        &mut self,
        proposal_id: u64,
        now: Timestamp,
        total_voters: u64,
    ) -> (r: Result<(), Error>)
        requires
            old(self).wf(),
            old(self)@.resolution_pending(proposal_id, now) ==> total_voters > 0,
        ensures
            final(self).wf(),
            final(self)@ == old(self)@.resolved(proposal_id, now, total_voters),
            old(self)@.steps_to(final(self)@),
            r is Ok == old(self)@.contains(proposal_id),
            r matches Err(e) ==> e == Error::ProposalNotFound,
    {
        let resolved = match self.proposals.get(&proposal_id) {
            Some(proposal) => {
                proof {
                    self.lemma_stored(proposal_id);
                }
                let record = self.voting_result.get(&proposal_id);
                assert(record is Some);
                let status = resolve(
                    proposal.status,
                    &proposal.proposal_span,
                    now,
                    record.unwrap(),
                    self.quorum,
                    total_voters,
                );
                let mut next = proposal.clone();
                next.status = status;
                next
            },
            None => {
                return Err(Error::ProposalNotFound);
            },
        };
        self.proposals.insert(proposal_id, resolved);
        Ok(())
    }

    fn set_status(&mut self, proposal_id: u64, status: Status)
        requires
            old(self).wf(),
            old(self)@.contains(proposal_id),
        ensures
            final(self).wf(),
            final(self)@ == old(self)@.with_status(proposal_id, status),
    {
        let mut next = self.proposals.get(&proposal_id).unwrap().clone();
        next.status = status;
        self.proposals.insert(proposal_id, next);
    }

    /// Casts the vote of `caller` on proposal `proposal_id` at `now`.
    ///
    /// The proposal is first resolved lazily, with `total_voters` accounts in
    /// its electorate. `voter_status` is what the project answered when asked
    /// whether the caller belongs to that electorate: the members of the
    /// project for an approach, those assigned to the task or to one of its
    /// direct children for an extension.
    ///
    /// The vote is recorded, once, if the proposal is still open after the
    /// check, the caller is eligible and has not voted. Otherwise it is
    /// refused, the resolution stays, and the votes are as before.
    pub fn vote_proposal(
        &mut self,
        caller: AccountId,
        now: Timestamp,
        proposal_id: u64,
        vote: Vote,
        total_voters: u64,
        voter_status: Result<bool, Error>,
    ) -> (r: Result<(), Error>)
        requires
            old(self).wf(),
            old(self)@.resolution_pending(proposal_id, now) ==> total_voters > 0,
        ensures
            final(self).wf(),
            old(self)@.steps_to(final(self)@),
            !old(self)@.contains(proposal_id) ==> r == Err::<(), Error>(Error::ProposalNotFound)
                && final(self)@ == old(self)@,
            old(self)@.contains(proposal_id) ==> {
                let resolved = old(self)@.resolved(proposal_id, now, total_voters);
                let refusal = vote_refusal(
                    resolved.proposals[proposal_id].status,
                    resolved.voting_result[proposal_id],
                    caller,
                    voter_status,
                );
                match r {
                    Ok(()) => refusal is None && resolved.voted(
                        proposal_id,
                        caller,
                        vote,
                        final(self)@,
                    ),
                    Err(e) => refusal == Some(e) && final(self)@ == resolved,
                }
            },
    {
        if self.update_proposal_open_status(proposal_id, now, total_voters).is_err() {
            return Err(Error::ProposalNotFound);
        }
        let ghost resolved = self@;
        proof {
            self.lemma_stored(proposal_id);
        }
        let proposal = self.proposals.get(&proposal_id).unwrap();
        match proposal.status {
            Status::Open => {
                match voter_status {
                    Ok(true) => {
                        if self.voting_result.get(&proposal_id).unwrap().has_voter(&caller) {
                            return Err(Error::AlreadyVoted);
                        }
                        let record = self.voting_result.remove(&proposal_id).unwrap();
                        match update_voting_result(caller, record, vote) {
                            Ok(updated) => {
                                self.voting_result.insert(proposal_id, updated);
                                proof {
                                    assert(self@.voting_result =~= resolved.voting_result.insert(
                                        proposal_id,
                                        updated@,
                                    ));
                                }
                                Ok(())
                            },
                            Err(e) => {
                                assert(false);
                                Err(e)
                            },
                        }
                    },
                    Ok(false) => Err(Error::UnAuthorized),
                    Err(err) => Err(err),
                }
            },
            Status::Rejected => Err(Error::ProposalRejected),
            Status::Passed => Err(Error::ProposalClosed),
            Status::Executed => Err(Error::ProposalAlreadyExecuted),
        }
    }

    /// Executes proposal `proposal_id` at `now`, as far as the catalogue can.
    ///
    /// The proposal is first resolved lazily, with `total_voters` accounts in
    /// its electorate. Unless it has then passed, the call is refused:
    /// `ProposalRunning` while it is open, `ProposalRejected` after a
    /// rejection, `ProposalAlreadyExecuted` once executed; an executed
    /// proposal is never executed again and the state stays as it is.
    ///
    /// For a passed proposal the effect to carry out is returned; the
    /// proposal stays `Passed` until [`Pproposal::complete_execution`]
    /// confirms it, so that a failed effect can be tried again.
    pub fn execute_proposal(&mut self, proposal_id: u64, now: Timestamp, total_voters: u64) -> (r:
        Result<Effect, Error>)
        requires
            old(self).wf(),
            old(self)@.resolution_pending(proposal_id, now) ==> total_voters > 0,
        ensures
            final(self).wf(),
            old(self)@.steps_to(final(self)@),
            !old(self)@.contains(proposal_id) ==> r == Err::<Effect, Error>(
                Error::ProposalNotFound,
            ) && final(self)@ == old(self)@,
            old(self)@.contains(proposal_id) && old(self)@.proposals[proposal_id].status
                == Status::Executed ==> r == Err::<Effect, Error>(Error::ProposalAlreadyExecuted)
                && final(self)@ == old(self)@,
            old(self)@.contains(proposal_id) ==> {
                let resolved = old(self)@.resolved(proposal_id, now, total_voters);
                &&& final(self)@ == resolved
                &&& match r {
                    Ok(effect) => resolved.proposals[proposal_id].status == Status::Passed
                        && effect@ == resolved.effect_of(proposal_id),
                    Err(e) => execution_refusal(resolved.proposals[proposal_id].status) == Some(e),
                }
            },
    {
        if self.update_proposal_open_status(proposal_id, now, total_voters).is_err() {
            return Err(Error::ProposalNotFound);
        }
        proof {
            self.lemma_stored(proposal_id);
            if old(self)@.proposals[proposal_id].status == Status::Executed {
                assert(self@.proposals =~= old(self)@.proposals);
            }
        }
        let proposal = self.proposals.get(&proposal_id).unwrap();
        match proposal.status {
            Status::Open => Err(Error::ProposalRunning),
            Status::Rejected => Err(Error::ProposalRejected),
            Status::Executed => Err(Error::ProposalAlreadyExecuted),
            Status::Passed => {
                match proposal.proposal_type {
                    ProposalType::ProposeApproach => {
                        let approach = self.approach_info.get(&proposal_id).unwrap();
                        Ok(Effect::AcceptApproach(approach.clone()))
                    },
                    ProposalType::ExtendDeadLine => {
                        let extension_info = self.deadline_extension_info.get(
                            &proposal_id,
                        ).unwrap();
                        Ok(
                            Effect::ExtendDeadLine {
                                task_id: extension_info.task_id,
                                deadline: extension_info.deadline,
                            },
                        )
                    },
                }
            },
        }
    }

    /// Confirms that the project carried out the effect of the passed
    /// proposal `proposal_id`: the proposal becomes `Executed`. Nothing is
    /// confirmed for a proposal that has not passed or is already executed.
    pub fn complete_execution(&mut self, proposal_id: u64) -> (r: Result<(), Error>)
        requires
            old(self).wf(),
        ensures
            final(self).wf(),
            old(self)@.steps_to(final(self)@),
            match r {
                Ok(()) => {
                    &&& old(self)@.completion_refusal(proposal_id) is None
                    &&& final(self)@ == old(self)@.with_status(proposal_id, Status::Executed)
                },
                Err(e) => {
                    &&& old(self)@.completion_refusal(proposal_id) == Some(e)
                    &&& final(self)@ == old(self)@
                },
            },
    {
        let status = match self.proposals.get(&proposal_id) {
            Some(proposal) => proposal.status,
            None => {
                return Err(Error::ProposalNotFound);
            },
        };
        match status {
            Status::Open => Err(Error::ProposalRunning),
            Status::Rejected => Err(Error::ProposalRejected),
            Status::Executed => Err(Error::ProposalAlreadyExecuted),
            Status::Passed => {
                self.set_status(proposal_id, Status::Executed);
                Ok(())
            },
        }
    }

    /// The votes cast on proposal `proposal_id`.
    pub fn get_voting_status(&self, proposal_id: u64) -> (r: Result<VotingStatus, Error>)
        requires
            self.wf(),
        ensures
            match r {
                Ok(status) => self@.contains(proposal_id) && status@
                    == self@.voting_result[proposal_id],
                Err(e) => !self@.contains(proposal_id) && e == Error::ProposalNotFound,
            },
    {
        proof {
            self.lemma_stored(proposal_id);
        }
        match self.voting_result.get(&proposal_id) {
            Some(status) => Ok(status.clone()),
            None => Err(Error::ProposalNotFound),
        }
    }

    /// Proposal `proposal_id` as recorded.
    pub fn get_proposal_info(&self, proposal_id: u64) -> (r: Result<ProposalInfo, Error>)
        requires
            self.wf(),
        ensures
            match r {
                Ok(info) => self@.contains(proposal_id) && info == self@.proposals[proposal_id],
                Err(e) => !self@.contains(proposal_id) && e == Error::ProposalNotFound,
            },
    {
        match self.proposals.get(&proposal_id) {
            Some(info) => Ok(info.clone()),
            None => Err(Error::ProposalNotFound),
        }
    }

    /// The approach that proposal `proposal_id` proposes, with its tasks
    /// reduced to their minimal dependencies, if it is a `ProposeApproach`
    /// proposal.
    pub fn get_approach_info(&self, proposal_id: u64) -> (r: Result<AcceptedApproach, Error>)
        requires
            self.wf(),
        ensures
            match r {
                Ok(info) => self@.approach_info.dom().contains(proposal_id) && info@
                    == self@.approach_info[proposal_id],
                Err(e) => !self@.approach_info.dom().contains(proposal_id) && e
                    == Error::ApproachNotRequiredForThisProposal,
            },
    {
        proof {
            self.lemma_stored(proposal_id);
        }
        match self.approach_info.get(&proposal_id) {
            Some(info) => Ok(info.clone()),
            None => Err(Error::ApproachNotRequiredForThisProposal),
        }
    }

    /// The extension that proposal `proposal_id` asks for, if it is an
    /// `ExtendDeadLine` proposal.
    pub fn get_deadline_extension_info(&self, proposal_id: u64) -> (r: Result<
        DeadLineExtensionInfo,
        Error,
    >)
        requires
            self.wf(),
        ensures
            match r {
                Ok(info) => self@.deadline_extension_info.dom().contains(proposal_id) && info@
                    == self@.deadline_extension_info[proposal_id],
                Err(e) => !self@.deadline_extension_info.dom().contains(proposal_id) && e
                    == Error::DeadLineInfoNotRequiredForThisProposal,
            },
    {
        proof {
            self.lemma_stored(proposal_id);
        }
        match self.deadline_extension_info.get(&proposal_id) {
            Some(info) => Ok(info.clone()),
            None => Err(Error::DeadLineInfoNotRequiredForThisProposal),
        }
    }
}

} // verus!
