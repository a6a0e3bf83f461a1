use governance::account::AccountId;
use governance::org::{Org, OrgParts};
use governance::project::{BusinessIdea, Project};
use governance::project_proposal::{
    DeadLineExtensionInfo, Pproposal, ProposalType as ProjectProposalType,
};
use governance::proposal::{Proposal, ProposalParts, ProposalType, QuorumInfo, Status, Vote};
use governance::table::Table;
use governance::voting::{update_voting_result, VoteInfo, VotingStatus};

fn account(n: u8) -> AccountId {
    AccountId { bytes: [n; 32] }
}

fn catalogue_with_votes() -> Proposal {
    let mut p = Proposal::new(account(200));
    for quorum in [5u64, 6] {
        p.create_proposal(
            account(1),
            10,
            true,
            false,
            String::from("quorum"),
            Vec::new(),
            ProposalType::ChangeQuorum,
            None,
            None,
            Some(QuorumInfo { quorum }),
            None,
        )
        .unwrap();
    }
    p.vote_proposal(account(1), 11, 1, Vote::Yes, 3, Some(true)).unwrap();
    p.vote_proposal(account(2), 12, 1, Vote::No, 3, Some(true)).unwrap();
    p
}

fn parts() -> ProposalParts {
    catalogue_with_votes().into_parts()
}

#[test]
fn the_keys_of_a_table_are_its_keys_each_once() {
    let mut table: Table<u16, u8> = Table::new();
    assert!(table.keys().is_empty());
    table.insert(3, 0);
    table.insert(1, 0);
    table.insert(3, 1);
    let mut keys = table.keys();
    keys.sort();
    assert_eq!(keys, vec![1, 3]);
}

#[test]
fn a_record_is_well_formed_when_tallies_and_voters_agree() {
    let record = VotingStatus::new(1);
    assert!(record.is_wf());
    let record = update_voting_result(account(1), record, Vote::Yes).unwrap();
    let record = update_voting_result(account(2), record, Vote::Abstain).unwrap();
    assert!(record.is_wf());
    let mut miscounted = record.clone();
    miscounted.votes.yes = 2;
    assert!(!miscounted.is_wf());
    let mut swapped = record.clone();
    swapped.votes.yes = 0;
    swapped.votes.no = 1;
    assert!(!swapped.is_wf());
    let mut twice = record.clone();
    twice.voters.push(VoteInfo { voter: account(1), vote: Vote::No });
    twice.votes.no = 1;
    assert!(!twice.is_wf());
}

#[test]
fn a_catalogue_taken_apart_goes_together_again() {
    let parts = parts();
    assert!(parts.is_wf());
    assert_eq!(parts.next_proposal_id, 3);
    assert_eq!(parts.proposals.len(), 2);
    let mut again = Proposal::from_parts(parts).unwrap();
    let before = catalogue_with_votes();
    assert_eq!(again.get_proposal_info(1), before.get_proposal_info(1));
    assert_eq!(again.get_voting_status(1), before.get_voting_status(1));
    assert_eq!(again.get_quorum_info(2), Ok(QuorumInfo { quorum: 6 }));
    assert_eq!(again.quorum(), before.quorum());
    // and goes on as before
    assert_eq!(again.vote_proposal(account(3), 13, 1, Vote::Yes, 3, Some(true)), Ok(()));
    assert_eq!(again.execute_proposal(1, 10 + 172_800_000, 3), Ok(None));
    assert_eq!(again.get_proposal_info(1).unwrap().status, Status::Executed);
    assert_eq!(again.quorum(), 5);
}

#[test]
fn parts_that_describe_no_catalogue_are_refused() {
    let mut p = parts();
    p.next_proposal_id = 0;
    assert!(Proposal::from_parts(p).is_none());

    // an id beyond the next one
    let mut p = parts();
    p.next_proposal_id = 2;
    assert!(!p.is_wf());

    // an id that is missing
    let mut p = parts();
    p.next_proposal_id = 4;
    assert!(!p.is_wf());

    let mut p = parts();
    p.voting_result.remove(&2);
    assert!(Proposal::from_parts(p).is_none());

    let mut p = parts();
    p.voting_result.insert(9, VotingStatus::new(9));
    assert!(!p.is_wf());

    let mut p = parts();
    p.voting_result.insert(2, VotingStatus::new(1));
    assert!(!p.is_wf());

    let mut p = parts();
    let mut record = p.voting_result.remove(&1).unwrap();
    record.votes.abstain = 1;
    p.voting_result.insert(1, record);
    assert!(!p.is_wf());

    let mut p = parts();
    let mut info = p.proposals.remove(&1).unwrap();
    info.proposal_id = 2;
    p.proposals.insert(1, info);
    assert!(!p.is_wf());

    let mut p = parts();
    p.quorum_info.remove(&2);
    assert!(!p.is_wf());

    let mut p = parts();
    let mut info = p.proposals.remove(&2).unwrap();
    info.proposal_type = ProposalType::AddProject;
    p.proposals.insert(2, info);
    assert!(!p.is_wf());
}

#[test]
fn a_project_catalogue_taken_apart_goes_together_again() {
    let mut p = Pproposal::new(account(50));
    p.create_proposal(
        account(1),
        10,
        String::from("more time"),
        ProjectProposalType::ExtendDeadLine,
        None,
        Some(DeadLineExtensionInfo { task_id: 1, deadline: 99, details: Vec::new() }),
        Ok(true),
        Ok(true),
    )
    .unwrap();
    p.vote_proposal(account(1), 11, 1, Vote::Yes, 1, Ok(true)).unwrap();
    let parts = p.into_parts();
    assert!(parts.is_wf());
    let again = Pproposal::from_parts(parts).unwrap();
    assert_eq!(again.get_voting_status(1).unwrap().votes.yes, 1);
    assert_eq!(again.get_deadline_extension_info(1).unwrap().deadline, 99);

    let mut broken = again.into_parts();
    broken.deadline_extension_info.remove(&1);
    assert!(!broken.is_wf());
    assert!(Pproposal::from_parts(broken).is_none());
}

#[test]
fn a_project_taken_apart_goes_together_again() {
    let idea = BusinessIdea { title: String::from("t"), info_count: 0, info_list: Vec::new() };
    let mut project = Project::new(account(100), 1, idea, account(1), 10, 2, account(101));
    project
        .try_update_interested_list(account(100), account(5), String::from("n"), String::from("u"))
        .unwrap();
    project.try_add_member(account(1), account(5)).unwrap();
    let parts = project.into_parts();
    assert_eq!(parts.member_list, vec![account(5)]);
    assert!(parts.members_info.contains_key(&account(5)));
    let again = Project::from_parts(parts);
    assert_eq!(again.total_members(), 1);
    assert!(again.check_member(account(5)));
    assert_eq!(again.total_fund_allocated(), 10);
}

#[test]
fn an_organisation_taken_apart_goes_together_again() {
    let mut org = Org::new(account(1), String::from("works"), String::from("owner"), 1, None);
    org.add_secretariate(account(1), account(2), String::from("s"), 2, None).unwrap();
    let parts = org.into_parts();
    assert_eq!(parts.next_project_id, 1);
    let again = Org::from_parts(parts).unwrap();
    assert_eq!(again.total_members(), 2);
    assert_eq!(again.total_secretariate(), 1);
    assert_eq!(again.get_org_name(), "works");

    let OrgParts {
        org_name,
        org_owner,
        secretariate,
        mut org_members,
        next_project_id,
        projects_manager,
        project_list_by_id,
        proposal_address,
    } = again.into_parts();
    org_members.remove(&org_owner);
    let ownerless = OrgParts {
        org_name,
        org_owner,
        secretariate,
        org_members,
        next_project_id,
        projects_manager,
        project_list_by_id,
        proposal_address,
    };
    assert!(Org::from_parts(ownerless).is_none());

    let mut unnumbered =
        Org::new(account(1), String::new(), String::new(), 1, None).into_parts();
    unnumbered.next_project_id = 0;
    assert!(Org::from_parts(unnumbered).is_none());
}
