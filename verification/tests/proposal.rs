use governance::account::AccountId;
use governance::error::Error;
use governance::org::Designation;
use governance::proposal::{
    Effect, FundProjectInfo, ProjectInfo, Proposal, ProposalType, QuorumInfo, SpanInfo, Status,
    Vote, DEFAULT_DURATION, DEFAULT_QUORUM,
};

fn account(n: u8) -> AccountId {
    AccountId { bytes: [n; 32] }
}

const ORG: u8 = 200;
const T0: u64 = 1_000;
const END: u64 = T0 + 172_800_000;

fn catalogue() -> Proposal {
    Proposal::new(account(ORG))
}

fn change_quorum(p: &mut Proposal, quorum: u64) -> u64 {
    p.create_proposal(
        account(1),
        T0,
        true,
        false,
        String::from("quorum"),
        vec![String::from("why")],
        ProposalType::ChangeQuorum,
        None,
        None,
        Some(QuorumInfo { quorum }),
        None,
    )
    .unwrap()
}

fn add_project(p: &mut Proposal) -> u64 {
    p.create_proposal(
        account(1),
        T0,
        true,
        false,
        String::from("a project"),
        vec![String::from("first"), String::from("second")],
        ProposalType::AddProject,
        Some(ProjectInfo { fund_asked: 500, strength: 4 }),
        None,
        None,
        None,
    )
    .unwrap()
}

fn fund_project(p: &mut Proposal) -> u64 {
    p.create_proposal(
        account(1),
        T0,
        true,
        true,
        String::from("funds"),
        Vec::new(),
        ProposalType::FundProject,
        None,
        Some(FundProjectInfo { project_id: 3, fund_asked: 70 }),
        None,
        None,
    )
    .unwrap()
}

fn status(p: &Proposal, id: u64) -> Status {
    p.get_proposal_info(id).unwrap().status
}

#[test]
fn a_new_catalogue_has_the_defaults_and_no_proposal() {
    let p = catalogue();
    assert_eq!(DEFAULT_DURATION, 172_800_000);
    assert_eq!(DEFAULT_QUORUM, 100_000);
    assert_eq!(p.proposal_duration(), DEFAULT_DURATION);
    assert_eq!(p.quorum(), DEFAULT_QUORUM);
    assert_eq!(p.get_proposal_info(1), Err(Error::ProposalNotFound));
    assert_eq!(p.get_voting_status(1), Err(Error::ProposalNotFound));
}

#[test]
fn a_created_proposal_is_open_and_empty() {
    let mut p = catalogue();
    let id = add_project(&mut p);
    assert_eq!(id, 1);
    let info = p.get_proposal_info(1).unwrap();
    assert_eq!(info.proposal_type, ProposalType::AddProject);
    assert_eq!(info.proposal_id, 1);
    assert_eq!(info.proposer, account(1));
    assert_eq!(info.proposal_span.start_time, T0);
    assert_eq!(info.proposal_span.end_time, END);
    assert_eq!(info.voter_type, Designation::Secretariate);
    assert_eq!(info.title, "a project");
    assert_eq!(info.details, vec![String::from("first"), String::from("second")]);
    assert_eq!(info.status, Status::Open);
    let votes = p.get_voting_status(1).unwrap();
    assert_eq!(votes.proposal_id, 1);
    assert!(votes.voters.is_empty());
    assert_eq!((votes.votes.yes, votes.votes.no, votes.votes.abstain), (0, 0, 0));
}

#[test]
fn ids_count_up_from_one_and_refusals_use_none() {
    let mut p = catalogue();
    assert_eq!(add_project(&mut p), 1);
    let refused = p.create_proposal(
        account(1),
        T0,
        false,
        false,
        String::new(),
        Vec::new(),
        ProposalType::AddProject,
        Some(ProjectInfo { fund_asked: 1, strength: 1 }),
        None,
        None,
        None,
    );
    assert_eq!(refused, Err(Error::MemberNotFound));
    assert_eq!(change_quorum(&mut p, 5), 2);
    assert_eq!(fund_project(&mut p), 3);
    assert_eq!(p.get_proposal_info(4), Err(Error::ProposalNotFound));
}

#[test]
fn each_type_needs_its_own_payload() {
    let mut p = catalogue();
    let create = |p: &mut Proposal, t: ProposalType, known: bool, fund: Option<FundProjectInfo>| {
        p.create_proposal(
            account(1),
            T0,
            true,
            known,
            String::new(),
            Vec::new(),
            t,
            None,
            fund,
            None,
            None,
        )
    };
    assert_eq!(
        create(&mut p, ProposalType::AddProject, true, None),
        Err(Error::ProjectInfoNotFound)
    );
    assert_eq!(create(&mut p, ProposalType::FundProject, true, None), Err(Error::FundInfoNotFound));
    assert_eq!(
        create(&mut p, ProposalType::ChangeQuorum, true, None),
        Err(Error::QuorumInfoNotFound)
    );
    assert_eq!(
        create(&mut p, ProposalType::ChangeProposalSpan, true, None),
        Err(Error::SpanInfoNotFound)
    );
    assert_eq!(
        create(
            &mut p,
            ProposalType::FundProject,
            false,
            Some(FundProjectInfo { project_id: 1, fund_asked: 1 })
        ),
        Err(Error::InvalidProjectInfo)
    );
    assert_eq!(p.get_proposal_info(1), Err(Error::ProposalNotFound));
}

#[test]
fn payloads_are_found_under_their_own_query_only() {
    let mut p = catalogue();
    let a = add_project(&mut p);
    let q = change_quorum(&mut p, 77);
    let f = fund_project(&mut p);
    assert_eq!(p.get_quorum_info(q), Ok(QuorumInfo { quorum: 77 }));
    assert_eq!(p.get_quorum_info(a), Err(Error::QuorumInfoNotFound));
    assert_eq!(p.get_project_fund_info(f), Ok(FundProjectInfo { project_id: 3, fund_asked: 70 }));
    assert_eq!(p.get_project_fund_info(q), Err(Error::FundInfoNotFound));
    assert_eq!(p.get_span_info(q), Err(Error::SpanInfoNotFound));
    assert_eq!(p.get_project_id(a), Err(Error::ProjectIdNotFound));
}

#[test]
fn a_vote_in_time_is_recorded_and_leaves_the_proposal_open() {
    let mut p = catalogue();
    let id = change_quorum(&mut p, 5);
    assert_eq!(p.vote_proposal(account(1), T0, id, Vote::No, 10, Some(true)), Ok(()));
    assert_eq!(p.vote_proposal(account(2), END - 1, id, Vote::No, 10, Some(true)), Ok(()));
    assert_eq!(p.vote_proposal(account(3), END - 1, id, Vote::Yes, 10, Some(true)), Ok(()));
    assert_eq!(status(&p, id), Status::Open);
    let votes = p.get_voting_status(id).unwrap();
    assert_eq!(votes.voters.len(), 3);
    assert_eq!(votes.voters[0].voter, account(1));
    assert_eq!(votes.voters[2].vote, Vote::Yes);
    assert_eq!((votes.votes.yes, votes.votes.no, votes.votes.abstain), (1, 2, 0));
}

#[test]
fn the_same_voter_votes_once() {
    let mut p = catalogue();
    let id = change_quorum(&mut p, 5);
    assert_eq!(p.vote_proposal(account(1), T0, id, Vote::Yes, 10, Some(true)), Ok(()));
    assert_eq!(
        p.vote_proposal(account(1), T0 + 1, id, Vote::No, 10, Some(true)),
        Err(Error::AlreadyVoted)
    );
    let votes = p.get_voting_status(id).unwrap();
    assert_eq!(votes.voters.len(), 1);
    assert_eq!((votes.votes.yes, votes.votes.no), (1, 0));
}

#[test]
fn votes_are_refused_by_eligibility() {
    let mut p = catalogue();
    let id = change_quorum(&mut p, 5);
    assert_eq!(
        p.vote_proposal(account(1), T0, 9, Vote::Yes, 10, Some(true)),
        Err(Error::ProposalNotFound)
    );
    assert_eq!(
        p.vote_proposal(account(1), T0, id, Vote::Yes, 10, Some(false)),
        Err(Error::UnAuthorized)
    );
    assert_eq!(
        p.vote_proposal(account(1), T0, id, Vote::Yes, 10, None),
        Err(Error::MemberNotFound)
    );
    assert!(p.get_voting_status(id).unwrap().voters.is_empty());
}

#[test]
fn a_vote_after_the_end_resolves_and_is_refused() {
    let mut p = catalogue();
    let passing = change_quorum(&mut p, 5);
    let failing = change_quorum(&mut p, 6);
    assert_eq!(p.vote_proposal(account(1), T0, passing, Vote::Yes, 10, Some(true)), Ok(()));
    assert_eq!(
        p.vote_proposal(account(2), END, passing, Vote::Yes, 10, Some(true)),
        Err(Error::ProposalClosed)
    );
    assert_eq!(status(&p, passing), Status::Passed);
    assert_eq!(
        p.vote_proposal(account(2), END, failing, Vote::Yes, 10, Some(true)),
        Err(Error::ProposalRejected)
    );
    assert_eq!(status(&p, failing), Status::Rejected);
    assert_eq!(p.get_voting_status(passing).unwrap().voters.len(), 1);
    assert!(p.get_voting_status(failing).unwrap().voters.is_empty());
    // resolved for good
    assert_eq!(
        p.vote_proposal(account(3), T0, failing, Vote::Yes, 10, Some(true)),
        Err(Error::ProposalRejected)
    );
}

#[test]
fn the_lazy_check_decides_once() {
    let mut p = catalogue();
    let id = change_quorum(&mut p, 5);
    assert_eq!(p.vote_proposal(account(1), T0, id, Vote::Yes, 10, Some(true)), Ok(()));
    assert_eq!(p.update_proposal_open_status(id, END - 1, 10), Ok(()));
    assert_eq!(status(&p, id), Status::Open);
    // 1 of 10 is exactly the quorum of 100_000
    assert_eq!(p.update_proposal_open_status(id, END, 10), Ok(()));
    assert_eq!(status(&p, id), Status::Passed);
    // an electorate that would miss the quorum comes too late
    assert_eq!(p.update_proposal_open_status(id, END + 5, 1_000), Ok(()));
    assert_eq!(status(&p, id), Status::Passed);
    assert_eq!(p.update_proposal_open_status(42, END, 10), Err(Error::ProposalNotFound));
}

#[test]
fn one_vote_among_eleven_misses_the_quorum() {
    let mut p = catalogue();
    let id = change_quorum(&mut p, 5);
    assert_eq!(p.vote_proposal(account(1), T0, id, Vote::Yes, 11, Some(true)), Ok(()));
    assert_eq!(p.execute_proposal(id, END, 11), Err(Error::ProposalRejected));
    assert_eq!(status(&p, id), Status::Rejected);
    assert_eq!(p.quorum(), DEFAULT_QUORUM);
}

#[test]
fn execution_is_refused_unless_passed() {
    let mut p = catalogue();
    let id = change_quorum(&mut p, 5);
    assert_eq!(p.execute_proposal(9, T0, 10), Err(Error::ProposalNotFound));
    assert_eq!(p.execute_proposal(id, END - 1, 10), Err(Error::ProposalRunning));
    assert_eq!(status(&p, id), Status::Open);
    assert_eq!(p.vote_proposal(account(1), T0, id, Vote::No, 10, Some(true)), Ok(()));
    assert_eq!(p.execute_proposal(id, END, 10), Err(Error::ProposalRejected));
    assert_eq!(p.execute_proposal(id, END + 1, 10), Err(Error::ProposalRejected));
}

#[test]
fn a_passed_change_of_quorum_is_applied_once() {
    let mut p = catalogue();
    let id = change_quorum(&mut p, 250_000);
    assert_eq!(p.vote_proposal(account(1), T0, id, Vote::Yes, 10, Some(true)), Ok(()));
    assert_eq!(p.execute_proposal(id, END, 10), Ok(None));
    assert_eq!(p.quorum(), 250_000);
    assert_eq!(status(&p, id), Status::Executed);
    assert_eq!(p.execute_proposal(id, END, 10), Err(Error::ProposalAlreadyExecuted));
    assert_eq!(p.quorum(), 250_000);
    assert_eq!(
        p.vote_proposal(account(2), END, id, Vote::Yes, 10, Some(true)),
        Err(Error::ProposalAlreadyExecuted)
    );
    assert_eq!(p.complete_execution(id, None), Err(Error::ProposalAlreadyExecuted));
}

#[test]
fn a_passed_change_of_span_sets_the_time_of_later_proposals() {
    let mut p = catalogue();
    let id = p
        .create_proposal(
            account(1),
            T0,
            true,
            false,
            String::from("span"),
            Vec::new(),
            ProposalType::ChangeProposalSpan,
            None,
            None,
            None,
            Some(SpanInfo { duration: 60_000 }),
        )
        .unwrap();
    assert_eq!(p.get_span_info(id), Ok(SpanInfo { duration: 60_000 }));
    assert_eq!(p.vote_proposal(account(1), T0, id, Vote::Abstain, 2, Some(true)), Ok(()));
    assert_eq!(p.execute_proposal(id, END, 2), Ok(None));
    assert_eq!(p.proposal_duration(), 60_000);
    let next = change_quorum(&mut p, 1);
    let span = p.get_proposal_info(next).unwrap().proposal_span;
    assert_eq!((span.start_time, span.end_time), (T0, T0 + 60_000));
}

#[test]
fn a_passed_project_waits_for_its_creation() {
    let mut p = catalogue();
    let id = add_project(&mut p);
    assert_eq!(p.vote_proposal(account(1), T0, id, Vote::Yes, 1, Some(true)), Ok(()));
    let effect = p.execute_proposal(id, END, 1).unwrap();
    assert_eq!(
        effect,
        Some(Effect::AddProject {
            title: String::from("a project"),
            details: vec![String::from("first"), String::from("second")],
            fund_asked: 500,
            strength: 4,
            proposer: account(1),
        })
    );
    // the effect has not been confirmed: the proposal can be executed again
    assert_eq!(status(&p, id), Status::Passed);
    assert_eq!(p.execute_proposal(id, END + 1, 1).unwrap(), effect);
    assert_eq!(p.complete_execution(id, None), Err(Error::ProjectIdNotFound));
    assert_eq!(status(&p, id), Status::Passed);
    assert_eq!(p.complete_execution(id, Some(12)), Ok(()));
    assert_eq!(status(&p, id), Status::Executed);
    assert_eq!(p.get_project_id(id), Ok(12));
    assert_eq!(p.execute_proposal(id, END + 2, 1), Err(Error::ProposalAlreadyExecuted));
    assert_eq!(p.complete_execution(id, Some(13)), Err(Error::ProposalAlreadyExecuted));
    assert_eq!(p.get_project_id(id), Ok(12));
}

#[test]
fn a_passed_funding_waits_for_its_transfer() {
    let mut p = catalogue();
    let id = fund_project(&mut p);
    assert_eq!(p.vote_proposal(account(1), T0, id, Vote::Yes, 1, Some(true)), Ok(()));
    assert_eq!(
        p.execute_proposal(id, END, 1),
        Ok(Some(Effect::FundProject { project_id: 3, fund_asked: 70 }))
    );
    assert_eq!(status(&p, id), Status::Passed);
    assert_eq!(p.complete_execution(id, None), Ok(()));
    assert_eq!(status(&p, id), Status::Executed);
    assert_eq!(p.get_project_id(id), Err(Error::ProjectIdNotFound));
}

#[test]
fn only_a_passed_outside_effect_is_confirmed() {
    let mut p = catalogue();
    let open = add_project(&mut p);
    let quorum = change_quorum(&mut p, 5);
    assert_eq!(p.complete_execution(77, None), Err(Error::ProposalNotFound));
    assert_eq!(p.complete_execution(open, Some(1)), Err(Error::ProposalRunning));
    assert_eq!(p.vote_proposal(account(1), T0, quorum, Vote::Yes, 1, Some(true)), Ok(()));
    assert_eq!(p.update_proposal_open_status(quorum, END, 1), Ok(()));
    assert_eq!(p.update_proposal_open_status(open, END, 1), Ok(()));
    assert_eq!(p.complete_execution(open, Some(1)), Err(Error::ProposalRejected));
    assert_eq!(p.complete_execution(quorum, None), Err(Error::IncorrectProposalType));
    assert_eq!(status(&p, quorum), Status::Passed);
}
