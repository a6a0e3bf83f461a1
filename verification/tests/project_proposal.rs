use governance::account::AccountId;
use governance::error::Error;
use governance::project_proposal::{
    any_task_ends_after, DeadLineExtensionInfo, Effect, Pproposal, ProposalType, Status, Vote,
};
use governance::task::{AcceptedApproach, Task, TaskStatus};

fn account(n: u8) -> AccountId {
    AccountId { bytes: [n; 32] }
}

const T0: u64 = 5_000;
const END: u64 = T0 + 172_800_000;

fn task(task_id: u16, start_after: Vec<u16>, end_time: u64) -> Task {
    Task {
        task_id,
        start_after,
        start_time: None,
        end_time,
        status: TaskStatus::NotYetStarted,
        performance_rating: None,
        details: Vec::new(),
        children_task: Vec::new(),
    }
}

fn approach(start: u64, completion: u64) -> AcceptedApproach {
    AcceptedApproach {
        project_start_date: start,
        project_completion_date: completion,
        tasks: vec![
            task(1, vec![], END + 10),
            task(2, vec![1], END + 20),
            task(3, vec![1, 2], END + 30),
        ],
    }
}

fn extension(task_id: u16, deadline: u64) -> DeadLineExtensionInfo {
    DeadLineExtensionInfo { task_id, deadline, details: vec![String::from("late delivery")] }
}

fn propose_approach(p: &mut Pproposal) -> u64 {
    p.create_proposal(
        account(1),
        T0,
        String::from("approach"),
        ProposalType::ProposeApproach,
        Some(approach(END, END + 100)),
        None,
        Ok(false),
        Ok(false),
    )
    .unwrap()
}

fn propose_extension(p: &mut Pproposal) -> u64 {
    p.create_proposal(
        account(1),
        T0,
        String::from("more time"),
        ProposalType::ExtendDeadLine,
        None,
        Some(extension(2, 9_000)),
        Ok(true),
        Ok(true),
    )
    .unwrap()
}

fn status(p: &Pproposal, id: u64) -> Status {
    p.get_proposal_info(id).unwrap().status
}

#[test]
fn an_approach_is_recorded_with_minimal_dependencies() {
    let mut p = Pproposal::new(account(50));
    let id = propose_approach(&mut p);
    assert_eq!(id, 1);
    let info = p.get_proposal_info(id).unwrap();
    assert_eq!(info.proposal_type, ProposalType::ProposeApproach);
    assert_eq!(info.proposer, account(1));
    assert_eq!((info.proposal_span.start_time, info.proposal_span.end_time), (T0, END));
    assert_eq!(info.title, "approach");
    assert_eq!(info.status, Status::Open);
    let stored = p.get_approach_info(id).unwrap();
    assert_eq!(stored.project_start_date, END);
    assert_eq!(stored.project_completion_date, END + 100);
    assert_eq!(stored.tasks.len(), 3);
    assert_eq!(stored.tasks[0].children_task, vec![2]);
    assert_eq!(stored.tasks[1].children_task, vec![3]);
    assert_eq!(stored.tasks[2].start_after, vec![2]);
    assert_eq!(p.get_deadline_extension_info(id), Err(Error::DeadLineInfoNotRequiredForThisProposal));
    assert!(p.get_voting_status(id).unwrap().voters.is_empty());
}

#[test]
fn an_approach_must_be_given_start_late_enough_and_end_in_time() {
    let mut p = Pproposal::new(account(50));
    let create = |p: &mut Pproposal, a: Option<AcceptedApproach>| {
        p.create_proposal(
            account(1),
            T0,
            String::new(),
            ProposalType::ProposeApproach,
            a,
            None,
            Ok(true),
            Ok(true),
        )
    };
    assert_eq!(create(&mut p, None), Err(Error::ApproachNotDefined));
    assert_eq!(
        create(&mut p, Some(approach(END - 1, END + 100))),
        Err(Error::CannotStartProjectBeforeVoting)
    );
    assert_eq!(
        create(&mut p, Some(approach(END, END + 29))),
        Err(Error::TaskDeadlineCannotCrossPojectDeadLine)
    );
    assert_eq!(p.get_proposal_info(1), Err(Error::ProposalNotFound));
    assert_eq!(create(&mut p, Some(approach(END, END + 30))), Ok(1));
}

#[test]
fn a_task_ending_after_the_project_is_found() {
    let tasks = vec![task(1, vec![], 10), task(2, vec![], 11)];
    assert!(any_task_ends_after(&tasks, 10));
    assert!(!any_task_ends_after(&tasks, 11));
    assert!(!any_task_ends_after(&Vec::new(), 0));
}

#[test]
fn an_extension_needs_a_known_task_and_a_feasible_deadline() {
    let mut p = Pproposal::new(account(50));
    let create = |p: &mut Pproposal,
                  info: Option<DeadLineExtensionInfo>,
                  voters: Result<bool, Error>,
                  possible: Result<bool, Error>| {
        p.create_proposal(
            account(1),
            T0,
            String::new(),
            ProposalType::ExtendDeadLine,
            None,
            info,
            voters,
            possible,
        )
    };
    assert_eq!(create(&mut p, None, Ok(true), Ok(true)), Err(Error::DeadLineNotDefined));
    assert_eq!(
        create(&mut p, Some(extension(2, 9)), Err(Error::TaskNotFound), Ok(true)),
        Err(Error::TaskNotFound)
    );
    assert_eq!(
        create(&mut p, Some(extension(2, 9)), Ok(true), Err(Error::TaskNotFound)),
        Err(Error::TaskNotFound)
    );
    assert_eq!(
        create(&mut p, Some(extension(2, 9)), Ok(true), Ok(false)),
        Err(Error::DeadlineInfeasible)
    );
    assert_eq!(p.get_proposal_info(1), Err(Error::ProposalNotFound));
    // whether the proposer itself is assigned to the task does not matter
    assert_eq!(create(&mut p, Some(extension(2, 9)), Ok(false), Ok(true)), Ok(1));
    assert_eq!(p.get_deadline_extension_info(1), Ok(extension(2, 9)));
    assert_eq!(p.get_approach_info(1), Err(Error::ApproachNotRequiredForThisProposal));
}

#[test]
fn project_votes_are_recorded_once_and_by_eligibility() {
    let mut p = Pproposal::new(account(50));
    let id = propose_extension(&mut p);
    assert_eq!(p.vote_proposal(account(1), T0, id, Vote::Yes, 3, Ok(true)), Ok(()));
    assert_eq!(
        p.vote_proposal(account(1), T0, id, Vote::Yes, 3, Ok(true)),
        Err(Error::AlreadyVoted)
    );
    assert_eq!(
        p.vote_proposal(account(2), T0, id, Vote::Yes, 3, Ok(false)),
        Err(Error::UnAuthorized)
    );
    assert_eq!(
        p.vote_proposal(account(2), T0, id, Vote::Yes, 3, Err(Error::TaskNotFound)),
        Err(Error::TaskNotFound)
    );
    assert_eq!(
        p.vote_proposal(account(2), T0, 8, Vote::Yes, 3, Ok(true)),
        Err(Error::ProposalNotFound)
    );
    assert_eq!(p.vote_proposal(account(3), END - 1, id, Vote::No, 3, Ok(true)), Ok(()));
    let votes = p.get_voting_status(id).unwrap();
    assert_eq!(votes.voters.len(), 2);
    assert_eq!((votes.votes.yes, votes.votes.no, votes.votes.abstain), (1, 1, 0));
    assert_eq!(status(&p, id), Status::Open);
}

#[test]
fn a_project_vote_after_the_end_resolves_and_is_refused() {
    let mut p = Pproposal::new(account(50));
    let id = propose_extension(&mut p);
    assert_eq!(p.vote_proposal(account(1), T0, id, Vote::Yes, 3, Ok(true)), Ok(()));
    assert_eq!(
        p.vote_proposal(account(2), END, id, Vote::Yes, 3, Ok(true)),
        Err(Error::ProposalClosed)
    );
    assert_eq!(status(&p, id), Status::Passed);
    assert_eq!(p.get_voting_status(id).unwrap().voters.len(), 1);
}

#[test]
fn a_passed_extension_hands_out_its_effect_until_confirmed() {
    let mut p = Pproposal::new(account(50));
    let id = propose_extension(&mut p);
    assert_eq!(p.execute_proposal(id, END - 1, 3), Err(Error::ProposalRunning));
    assert_eq!(p.complete_execution(id), Err(Error::ProposalRunning));
    assert_eq!(p.vote_proposal(account(1), T0, id, Vote::Yes, 3, Ok(true)), Ok(()));
    let effect = Effect::ExtendDeadLine { task_id: 2, deadline: 9_000 };
    assert_eq!(p.execute_proposal(id, END, 3), Ok(Effect::ExtendDeadLine { task_id: 2, deadline: 9_000 }));
    assert_eq!(status(&p, id), Status::Passed);
    assert_eq!(p.execute_proposal(id, END + 1, 3), Ok(effect));
    assert_eq!(p.complete_execution(id), Ok(()));
    assert_eq!(status(&p, id), Status::Executed);
    assert_eq!(p.execute_proposal(id, END + 2, 3), Err(Error::ProposalAlreadyExecuted));
    assert_eq!(p.complete_execution(id), Err(Error::ProposalAlreadyExecuted));
    assert_eq!(p.complete_execution(9), Err(Error::ProposalNotFound));
}

#[test]
fn a_passed_approach_hands_out_the_reduced_approach() {
    let mut p = Pproposal::new(account(50));
    let id = propose_approach(&mut p);
    assert_eq!(p.vote_proposal(account(1), T0, id, Vote::Yes, 1, Ok(true)), Ok(()));
    match p.execute_proposal(id, END, 1).unwrap() {
        Effect::AcceptApproach(a) => {
            assert_eq!(a, p.get_approach_info(id).unwrap());
            assert_eq!(a.tasks[2].start_after, vec![2]);
        }
        other => panic!("unexpected effect {:?}", other),
    }
}

#[test]
fn a_rejected_project_proposal_is_never_executed() {
    let mut p = Pproposal::new(account(50));
    let id = propose_extension(&mut p);
    assert_eq!(p.execute_proposal(id, END, 3), Err(Error::ProposalRejected));
    assert_eq!(status(&p, id), Status::Rejected);
    assert_eq!(p.complete_execution(id), Err(Error::ProposalRejected));
    assert_eq!(
        p.vote_proposal(account(1), T0, id, Vote::Yes, 3, Ok(true)),
        Err(Error::ProposalRejected)
    );
    assert_eq!(p.execute_proposal(17, END, 3), Err(Error::ProposalNotFound));
}
