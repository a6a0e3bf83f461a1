//! The voting record of a proposal and the rule that resolves it.
//!
//! Both kinds of proposal, those of the organisation and those of a project,
//! keep their votes in a [`VotingStatus`] and resolve by [`resolve`].

use vstd::prelude::*;
use crate::account::{AccountId, Timestamp};
use crate::error::Error;

verus! {

/// Where a proposal stands. It only ever moves forward: see [`status_step`].
#[derive(Clone, Copy, Debug, PartialEq, Eq, Structural)]
pub enum Status {
    /// Open for voting.
    Open,
    /// Resolved against; final.
    Rejected,
    /// Resolved in favour, not yet executed.
    Passed,
    /// Passed and executed; final.
    Executed,
}

#[derive(Clone, Copy, Debug, PartialEq, Eq, Structural)]
pub enum Vote {
    Yes,
    No,
    Abstain,
}

/// Running tallies of the votes cast.
#[derive(Clone, Copy, Debug, PartialEq, Eq, Structural)]
pub struct Votes {
    pub yes: u64,
    pub no: u64,
    pub abstain: u64,
}

/// The time during which a proposal takes votes: from `start_time` up to, not
/// including, `end_time`.
#[derive(Clone, Copy, Debug, PartialEq, Eq, Structural)]
pub struct ProposalSpan {
    pub start_time: Timestamp,
    pub end_time: Timestamp,
}

/// One vote, with who cast it.
#[derive(Clone, Copy, Debug, PartialEq, Eq)]
pub struct VoteInfo {
    pub voter: AccountId,
    pub vote: Vote,
}

/// The votes cast on one proposal, in order of arrival, with their tallies.
#[derive(Debug, PartialEq, Eq)]
pub struct VotingStatus {
    pub proposal_id: u64,
    pub voters: Vec<VoteInfo>,
    pub votes: Votes,
}

/// The mathematical content of a [`VotingStatus`].
pub struct VotingRecord {
    pub proposal_id: u64,
    pub voters: Seq<VoteInfo>,
    pub votes: Votes,
}

impl View for VotingStatus {
    type V = VotingRecord;

    open spec fn view(&self) -> VotingRecord {
        VotingRecord { proposal_id: self.proposal_id, voters: self.voters@, votes: self.votes }
    }
}

/// How many of `voters` voted `choice`.
pub open spec fn count_votes(voters: Seq<VoteInfo>, choice: Vote) -> nat
    decreases voters.len(),
{
    if voters.len() == 0 {
        0
    } else {
        count_votes(voters.drop_last(), choice) + if voters.last().vote == choice {
            1nat
        } else {
            0nat
        }
    }
}

/// Whether `who` has a vote among `voters`.
pub open spec fn has_voted(voters: Seq<VoteInfo>, who: AccountId) -> bool {
    exists|i: int| 0 <= i < voters.len() && #[trigger] voters[i].voter == who
}

/// The tallies with one more vote for `choice`.
pub open spec fn tally(votes: Votes, choice: Vote) -> (int, int, int) {
    match choice {
        Vote::Yes => (votes.yes + 1, votes.no as int, votes.abstain as int),
        Vote::No => (votes.yes as int, votes.no + 1, votes.abstain as int),
        Vote::Abstain => (votes.yes as int, votes.no as int, votes.abstain + 1),
    }
}

impl VotingRecord {
    /// No voter occurs twice, and each tally is the number of votes of its kind.
    pub open spec fn wf(self) -> bool {
        &&& forall|i: int, j: int|
            0 <= i < j < self.voters.len() ==> self.voters[i].voter != self.voters[j].voter
        &&& self.votes.yes == count_votes(self.voters, Vote::Yes)
        &&& self.votes.no == count_votes(self.voters, Vote::No)
        &&& self.votes.abstain == count_votes(self.voters, Vote::Abstain)
    }

    /// The record of a proposal on which nobody has voted.
    pub open spec fn empty(proposal_id: u64) -> VotingRecord {
        VotingRecord {
            proposal_id,
            voters: Seq::empty(),
            votes: Votes { yes: 0, no: 0, abstain: 0 },
        }
    }

    /// Whether `next` is this record with the vote of `voter` for `choice`
    /// appended and counted once.
    pub open spec fn followed_by(self, voter: AccountId, choice: Vote, next: VotingRecord) -> bool {
        &&& next.proposal_id == self.proposal_id
        &&& next.voters == self.voters.push(VoteInfo { voter, vote: choice })
        &&& (next.votes.yes as int, next.votes.no as int, next.votes.abstain as int) == tally(
            self.votes,
            choice,
        )
    }
}

/// A count of votes never exceeds the number of voters.
pub proof fn lemma_count_bounded(voters: Seq<VoteInfo>, choice: Vote)
    ensures
        count_votes(voters, choice) <= voters.len(),
    decreases voters.len(),
{
    if voters.len() > 0 {
        lemma_count_bounded(voters.drop_last(), choice);
    }
}

/// Appending one vote raises the count of its kind by one and leaves the
/// other counts alone.
pub proof fn lemma_count_push(voters: Seq<VoteInfo>, info: VoteInfo, choice: Vote)
    ensures
        count_votes(voters.push(info), choice) == count_votes(voters, choice) + if info.vote
            == choice {
            1nat
        } else {
            0nat
        },
{
    assert(voters.push(info).drop_last() =~= voters);
}

impl VotingStatus {
    /// The record of a proposal on which nobody has voted yet.
    pub fn new(id: u64) -> (r: Self)
        ensures
            r@ == VotingRecord::empty(id),
            r@.wf(),
    {
        let votes = Votes { yes: 0, no: 0, abstain: 0 };
        Self { proposal_id: id, voters: Vec::new(), votes }
    }

    /// Whether `who` has voted.
    pub fn has_voter(&self, who: &AccountId) -> (r: bool)
        ensures
            r == has_voted(self@.voters, *who),
    {
        let mut i: usize = 0;
        while i < self.voters.len()
            invariant
                i <= self.voters@.len(),
                forall|j: int| 0 <= j < i ==> self.voters@[j].voter != *who,
            decreases self.voters@.len() - i,
        {
            if self.voters[i].voter == *who {
                return true;
            }
            i += 1;
        }
        false
    }
}

/// How many of `voters` voted `choice`.
fn count_choice(voters: &Vec<VoteInfo>, choice: Vote) -> (n: usize)
    ensures
        n == count_votes(voters@, choice),
{
    let mut n: usize = 0;
    let mut i: usize = 0;
    while i < voters.len()
        invariant
            i <= voters@.len(),
            n == count_votes(voters@.subrange(0, i as int), choice),
            n <= i,
        decreases voters@.len() - i,
    {
        proof {
            assert(voters@.subrange(0, i + 1).drop_last() =~= voters@.subrange(0, i as int));
        }
        let same = match (voters[i].vote, choice) {
            (Vote::Yes, Vote::Yes) => true,
            (Vote::No, Vote::No) => true,
            (Vote::Abstain, Vote::Abstain) => true,
            _ => false,
        };
        if same {
            n += 1;
        }
        i += 1;
    }
    assert(voters@.subrange(0, voters@.len() as int) =~= voters@);
    n
}

impl VotingStatus {
    /// Whether the record is well formed: no voter twice, and each tally the
    /// number of votes of its kind.
    pub fn is_wf(&self) -> (r: bool)
        ensures
            r == self@.wf(),
    {
        let mut j: usize = 0;
        while j < self.voters.len()
            invariant
                j <= self.voters@.len(),
                forall|a: int, b: int|
                    0 <= a < b < j ==> self.voters@[a].voter != self.voters@[b].voter,
            decreases self.voters@.len() - j,
        {
            let mut i: usize = 0;
            while i < j
                invariant
                    i <= j < self.voters@.len(),
                    forall|a: int| 0 <= a < i ==> self.voters@[a].voter != self.voters@[j as int].voter,
                decreases j - i,
            {
                if self.voters[i].voter == self.voters[j].voter {
                    return false;
                }
                i += 1;
            }
            j += 1;
        }
        let yes = count_choice(&self.voters, Vote::Yes);
        let no = count_choice(&self.voters, Vote::No);
        let abstain = count_choice(&self.voters, Vote::Abstain);
        self.votes.yes == yes as u64 && self.votes.no == no as u64 && self.votes.abstain
            == abstain as u64
    }
}

impl Clone for VotingStatus {
    fn clone(&self) -> (r: Self)
        ensures
            r@ == self@,
    {
        VotingStatus {
            proposal_id: self.proposal_id,
            voters: self.voters.clone(),
            votes: self.votes,
        }
    }
}

/// Records the vote of `caller`, unless `caller` has voted before.
///
/// A voter is recorded at most once: the vote is appended and its tally raised
/// by one exactly when `caller` has no vote in the record, and refused with
/// `AlreadyVoted` otherwise.
pub fn update_voting_result(
    caller: AccountId,
    curr_voting_result: VotingStatus,
    vote: Vote,
) -> (r: Result<VotingStatus, Error>)
    requires
        curr_voting_result@.wf(),
    ensures
        has_voted(curr_voting_result@.voters, caller) ==> r == Err::<VotingStatus, Error>(
            Error::AlreadyVoted,
        ),
        !has_voted(curr_voting_result@.voters, caller) ==> r is Ok,
        r matches Ok(next) ==> next@.wf() && curr_voting_result@.followed_by(caller, vote, next@),
{
    let mut curr_voting_result = curr_voting_result;
    if curr_voting_result.has_voter(&caller) {
        return Err(Error::AlreadyVoted);
    }
    let ghost before = curr_voting_result@;
    let voter_info = VoteInfo { voter: caller, vote };
    proof {
        lemma_count_bounded(before.voters, Vote::Yes);
        lemma_count_bounded(before.voters, Vote::No);
        lemma_count_bounded(before.voters, Vote::Abstain);
        lemma_count_push(before.voters, voter_info, Vote::Yes);
        lemma_count_push(before.voters, voter_info, Vote::No);
        lemma_count_push(before.voters, voter_info, Vote::Abstain);
    }
    curr_voting_result.voters.push(voter_info);
    assert(curr_voting_result.voters@.len() <= usize::MAX) by {
        assert(curr_voting_result.voters@.len() == curr_voting_result.voters.len());
    }
    match vote {
        Vote::Yes => {
            curr_voting_result.votes.yes += 1;
        },
        Vote::No => {
            curr_voting_result.votes.no += 1;
        },
        Vote::Abstain => {
            curr_voting_result.votes.abstain += 1;
        },
    }
    Ok(curr_voting_result)
}

/// The voting time of a new catalogue: two days, in milliseconds.
pub const DEFAULT_DURATION: Timestamp = 172_800_000;

/// The quorum of a new catalogue: ten percent, in millionths.
pub const DEFAULT_QUORUM: u64 = 100_000;

/// Why a proposal of this status cannot be executed, if it cannot: it is
/// still running, was rejected, or was executed before.
pub open spec fn execution_refusal(status: Status) -> Option<Error> {
    match status {
        Status::Open => Some(Error::ProposalRunning),
        Status::Rejected => Some(Error::ProposalRejected),
        Status::Passed => None,
        Status::Executed => Some(Error::ProposalAlreadyExecuted),
    }
}

/// The fixed-point unit of turnout and quorum: six decimal digits, so that
/// one million stands for every eligible voter having voted.
pub const TURNOUT_SCALE: u64 = 1_000_000;

/// The share of the electorate that voted, in millionths, rounded down.
pub open spec fn turnout(voters: nat, eligible: nat) -> nat
    recommends
        eligible > 0,
{
    (voters * 1_000_000) / eligible
}

/// Whether the voting time of `span` is over at `now`.
pub open spec fn expired(span: ProposalSpan, now: Timestamp) -> bool {
    now >= span.end_time
}

/// Whether a record passes: the turnout reaches the quorum and the noes do
/// not outnumber the ayes. A tie passes; a missed quorum never does.
pub open spec fn passes(record: VotingRecord, quorum: u64, eligible: u64) -> bool {
    turnout(record.voters.len(), eligible as nat) >= quorum && record.votes.no <= record.votes.yes
}

/// Whether resolving at `now` decides the proposal: it is still open and its
/// voting time is over.
pub open spec fn resolution_due(status: Status, span: ProposalSpan, now: Timestamp) -> bool {
    status == Status::Open && expired(span, now)
}

/// The status of a proposal after the lazy check at `now`.
pub open spec fn resolved_status(
    status: Status,
    span: ProposalSpan,
    now: Timestamp,
    record: VotingRecord,
    quorum: u64,
    eligible: u64,
) -> Status {
    if resolution_due(status, span, now) {
        if passes(record, quorum, eligible) {
            Status::Passed
        } else {
            Status::Rejected
        }
    } else {
        status
    }
}

/// The moves a status can make: stay, leave `Open` for `Passed` or `Rejected`,
/// or leave `Passed` for `Executed`.
pub open spec fn status_step(before: Status, after: Status) -> bool {
    ||| before == after
    ||| before == Status::Open && (after == Status::Passed || after == Status::Rejected)
    ||| before == Status::Passed && after == Status::Executed
}

/// The share of `eligible` that `voters` makes, in millionths, rounded down.
pub fn compute_turnout(voters: usize, eligible: u64) -> (t: u128)
    requires
        eligible > 0,
    ensures
        t == turnout(voters as nat, eligible as nat),
{
    let scaled: u128 = (voters as u128) * 1_000_000u128;
    scaled / (eligible as u128)
}

/// The status after the lazy check at `now`: an open proposal whose time is
/// over becomes `Passed` or `Rejected` by [`passes`]; any other stays as it is.
pub fn resolve(
    status: Status,
    span: &ProposalSpan,
    now: Timestamp,
    record: &VotingStatus,
    quorum: u64,
    eligible: u64,
) -> (r: Status)
    requires
        resolution_due(status, *span, now) ==> eligible > 0,
    ensures
        r == resolved_status(status, *span, now, record@, quorum, eligible),
{
    match status {
        Status::Open => {
            if now >= span.end_time {
                let voted_quorum = compute_turnout(record.voters.len(), eligible);
                if record.votes.no <= record.votes.yes && (quorum as u128) <= voted_quorum {
                    Status::Passed
                } else {
                    Status::Rejected
                }
            } else {
                Status::Open
            }
        },
        other => other,
    }
}

/// What a status can become by any number of moves: every status from `Open`,
/// `Executed` from `Passed`, and otherwise only itself.
pub open spec fn status_reaches(before: Status, after: Status) -> bool {
    ||| before == after
    ||| before == Status::Open
    ||| before == Status::Passed && after == Status::Executed
}

/// [`status_reaches`] is what [`status_step`] generates: it holds of every
/// single move, it is kept by one more move, and whatever it holds of is
/// joined by at most two moves, the first of which leads to `Passed`.
pub proof fn lemma_reaches_is_closure_of_step(a: Status, b: Status, c: Status)
    ensures
        status_step(a, b) ==> status_reaches(a, b),
        status_reaches(a, b) && status_step(b, c) ==> status_reaches(a, c),
        status_reaches(a, b) ==> status_step(a, b) || (status_step(a, Status::Passed)
            && status_step(Status::Passed, b)),
{
}

/// A resolution only ever makes a move that [`status_step`] allows.
pub proof fn lemma_resolution_steps_forward(
    status: Status,
    span: ProposalSpan,
    now: Timestamp,
    record: VotingRecord,
    quorum: u64,
    eligible: u64,
)
    ensures
        status_step(status, resolved_status(status, span, now, record, quorum, eligible)),
{
}

/// Steps compose: whatever a status reaches in two moves it keeps the order
/// `Open`, then `Passed` or `Rejected`, then `Executed`; nothing returns to
/// `Open`, nothing leaves `Rejected` or `Executed`, and `Executed` is reached
/// only through `Passed`.
pub proof fn lemma_status_steps(a: Status, b: Status, c: Status)
    requires
        status_step(a, b),
        status_step(b, c),
    ensures
        c == Status::Open ==> a == Status::Open,
        a == Status::Rejected ==> c == Status::Rejected,
        a == Status::Executed ==> c == Status::Executed,
        a == Status::Passed ==> c == Status::Passed || c == Status::Executed,
        a == Status::Open && c == Status::Executed ==> b == Status::Passed,
{
}

/// Before the end of its span a proposal keeps its status, whatever the votes.
pub proof fn lemma_unexpired_keeps_status(
    status: Status,
    span: ProposalSpan,
    now: Timestamp,
    record: VotingRecord,
    quorum: u64,
    eligible: u64,
)
    requires
        now < span.end_time,
    ensures
        resolved_status(status, span, now, record, quorum, eligible) == status,
{
}

/// An open proposal whose turnout misses the quorum is rejected at
/// resolution, also when the ayes outnumber the noes.
pub proof fn lemma_missed_quorum_rejects(
    span: ProposalSpan,
    now: Timestamp,
    record: VotingRecord,
    quorum: u64,
    eligible: u64,
)
    requires
        expired(span, now),
        turnout(record.voters.len(), eligible as nat) < quorum,
    ensures
        resolved_status(Status::Open, span, now, record, quorum, eligible) == Status::Rejected,
{
}

/// An open proposal whose turnout reaches the quorum passes at resolution
/// when the noes do not outnumber the ayes; when they do it is rejected,
/// whatever the turnout.
pub proof fn lemma_tally_decides(
    span: ProposalSpan,
    now: Timestamp,
    record: VotingRecord,
    quorum: u64,
    eligible: u64,
)
    requires
        expired(span, now),
    ensures
        turnout(record.voters.len(), eligible as nat) >= quorum && record.votes.no
            <= record.votes.yes ==> resolved_status(
            Status::Open,
            span,
            now,
            record,
            quorum,
            eligible,
        ) == Status::Passed,
        record.votes.no > record.votes.yes ==> resolved_status(
            Status::Open,
            span,
            now,
            record,
            quorum,
            eligible,
        ) == Status::Rejected,
{
}

/// The lazy check is idempotent: checking again at the same time, over the
/// same votes, changes nothing.
pub proof fn lemma_resolution_idempotent(
    status: Status,
    span: ProposalSpan,
    now: Timestamp,
    record: VotingRecord,
    quorum: u64,
    eligible: u64,
)
    ensures
        resolved_status(
            resolved_status(status, span, now, record, quorum, eligible),
            span,
            now,
            record,
            quorum,
            eligible,
        ) == resolved_status(status, span, now, record, quorum, eligible),
{
}

/// Once a vote of `voter` is recorded, `voter` counts as having voted: a
/// second vote of the same voter is refused by [`update_voting_result`].
pub proof fn lemma_recorded_voter_has_voted(
    record: VotingRecord,
    voter: AccountId,
    choice: Vote,
    next: VotingRecord,
)
    requires
        record.followed_by(voter, choice, next),
    ensures
        has_voted(next.voters, voter),
        forall|other: AccountId| has_voted(record.voters, other) ==> has_voted(next.voters, other),
{
    assert(next.voters[record.voters.len() as int].voter == voter);
    assert forall|other: AccountId| has_voted(record.voters, other) implies has_voted(
        next.voters,
        other,
    ) by {
        let i = choose|i: int| 0 <= i < record.voters.len() && #[trigger] record.voters[i].voter == other;
        assert(next.voters[i].voter == other);
    }
}

} // verus!
