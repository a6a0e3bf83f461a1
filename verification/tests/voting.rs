use governance::account::AccountId;
use governance::error::Error;
use governance::voting::{
    compute_turnout, resolve, update_voting_result, ProposalSpan, Status, Vote, VotingStatus,
};

fn account(n: u8) -> AccountId {
    AccountId { bytes: [n; 32] }
}

fn record_with(yes: u8, no: u8, abstain: u8) -> VotingStatus {
    let mut record = VotingStatus::new(1);
    let mut next: u8 = 1;
    for _ in 0..yes {
        record = update_voting_result(account(next), record, Vote::Yes).unwrap();
        next += 1;
    }
    for _ in 0..no {
        record = update_voting_result(account(next), record, Vote::No).unwrap();
        next += 1;
    }
    for _ in 0..abstain {
        record = update_voting_result(account(next), record, Vote::Abstain).unwrap();
        next += 1;
    }
    record
}

const SPAN: ProposalSpan = ProposalSpan { start_time: 0, end_time: 100 };

#[test]
fn accounts_are_equal_when_all_bytes_agree() {
    let mut bytes = [0u8; 32];
    bytes[31] = 1;
    assert_eq!(account(0), account(0));
    assert_ne!(account(0), AccountId { bytes });
    assert_ne!(account(1), account(2));
}

#[test]
fn a_new_record_is_empty() {
    let record = VotingStatus::new(9);
    assert_eq!(record.proposal_id, 9);
    assert!(record.voters.is_empty());
    assert_eq!((record.votes.yes, record.votes.no, record.votes.abstain), (0, 0, 0));
    assert!(!record.has_voter(&account(1)));
}

#[test]
fn a_vote_is_appended_and_counted_once() {
    let record = VotingStatus::new(7);
    let record = update_voting_result(account(1), record, Vote::Yes).unwrap();
    assert_eq!(record.proposal_id, 7);
    assert_eq!(record.voters.len(), 1);
    assert_eq!(record.voters[0].voter, account(1));
    assert_eq!(record.voters[0].vote, Vote::Yes);
    assert_eq!((record.votes.yes, record.votes.no, record.votes.abstain), (1, 0, 0));
    assert!(record.has_voter(&account(1)));
    assert!(!record.has_voter(&account(2)));
}

#[test]
fn each_kind_of_vote_raises_its_own_tally() {
    let record = record_with(2, 3, 1);
    assert_eq!((record.votes.yes, record.votes.no, record.votes.abstain), (2, 3, 1));
    assert_eq!(record.voters.len(), 6);
    assert_eq!(record.voters[2].vote, Vote::No);
    assert_eq!(record.voters[5].vote, Vote::Abstain);
}

#[test]
fn a_second_vote_of_the_same_voter_is_refused() {
    let record = VotingStatus::new(1);
    let record = update_voting_result(account(1), record, Vote::No).unwrap();
    assert_eq!(update_voting_result(account(1), record, Vote::Yes), Err(Error::AlreadyVoted));
}

#[test]
fn the_copy_of_a_record_equals_it() {
    let record = record_with(1, 1, 0);
    assert_eq!(record.clone(), record);
}

#[test]
fn turnout_is_in_millionths_rounded_down() {
    assert_eq!(compute_turnout(1, 10), 100_000);
    assert_eq!(compute_turnout(1, 3), 333_333);
    assert_eq!(compute_turnout(2, 3), 666_666);
    assert_eq!(compute_turnout(3, 3), 1_000_000);
    assert_eq!(compute_turnout(0, 5), 0);
    assert_eq!(compute_turnout(usize::MAX, 1), (usize::MAX as u128) * 1_000_000);
}

#[test]
fn resolution_waits_for_the_end_of_the_span() {
    let record = record_with(1, 0, 0);
    assert_eq!(resolve(Status::Open, &SPAN, 99, &record, 0, 1), Status::Open);
    assert_eq!(resolve(Status::Open, &SPAN, 100, &record, 0, 1), Status::Passed);
    assert_eq!(resolve(Status::Open, &SPAN, 101, &record, 0, 1), Status::Passed);
}

#[test]
fn a_missed_quorum_rejects_even_with_more_ayes() {
    let record = record_with(2, 0, 0);
    // 2 of 30 voted: 66_666 millionths
    assert_eq!(resolve(Status::Open, &SPAN, 100, &record, 66_667, 30), Status::Rejected);
    assert_eq!(resolve(Status::Open, &SPAN, 100, &record, 66_666, 30), Status::Passed);
}

#[test]
fn a_tie_passes_and_more_noes_reject() {
    assert_eq!(resolve(Status::Open, &SPAN, 100, &record_with(1, 1, 0), 0, 2), Status::Passed);
    assert_eq!(resolve(Status::Open, &SPAN, 100, &record_with(1, 2, 0), 0, 3), Status::Rejected);
    assert_eq!(resolve(Status::Open, &SPAN, 100, &record_with(0, 0, 3), 0, 3), Status::Passed);
    assert_eq!(
        resolve(Status::Open, &SPAN, 100, &record_with(1, 2, 0), 1_000_000, 3),
        Status::Rejected
    );
}

#[test]
fn nobody_voting_rejects_unless_the_quorum_is_zero() {
    let record = VotingStatus::new(1);
    assert_eq!(resolve(Status::Open, &SPAN, 100, &record, 1, 4), Status::Rejected);
    assert_eq!(resolve(Status::Open, &SPAN, 100, &record, 0, 4), Status::Passed);
}

#[test]
fn a_resolved_status_is_kept() {
    let record = record_with(0, 3, 0);
    for status in [Status::Rejected, Status::Passed, Status::Executed] {
        assert_eq!(resolve(status, &SPAN, 1_000, &record, 0, 3), status);
        assert_eq!(resolve(status, &SPAN, 0, &record, 0, 3), status);
    }
}

#[test]
fn resolving_twice_is_resolving_once() {
    let record = record_with(2, 1, 0);
    let once = resolve(Status::Open, &SPAN, 100, &record, 500_000, 4);
    assert_eq!(once, Status::Passed);
    assert_eq!(resolve(once, &SPAN, 100, &record, 500_000, 4), once);
}
