use governance::account::AccountId;
use governance::error::Error;
use governance::project::{
    account_position, AcceptedApproach, BusinessIdea, DeadLine, Project, Task, TaskStatus,
};

fn account(n: u8) -> AccountId {
    AccountId { bytes: [n; 32] }
}

const ORG: u8 = 100;
const ORG_PROPOSALS: u8 = 101;
const OWN_PROPOSALS: u8 = 102;
const MANAGER: u8 = 1;

fn project(strength: u64) -> Project {
    let idea = BusinessIdea {
        title: String::from("idea"),
        info_count: 1,
        info_list: vec![String::from("point")],
    };
    let mut p =
        Project::new(account(ORG), 7, idea, account(MANAGER), 1_000, strength, account(ORG_PROPOSALS));
    p.update_proposal_address(account(ORG), account(OWN_PROPOSALS));
    p
}

fn task(task_id: u16, start_after: Vec<u16>, children: Vec<u16>, end_time: u64) -> Task {
    Task {
        task_id,
        start_after,
        start_time: None,
        end_time,
        status: TaskStatus::NotYetStarted,
        performance_rating: None,
        details: Vec::new(),
        children_task: children,
    }
}

fn approach() -> AcceptedApproach {
    AcceptedApproach {
        project_start_date: 100,
        project_completion_date: 900,
        tasks: vec![
            task(1, vec![], vec![2, 3], 300),
            task(2, vec![1], vec![4], 500),
            task(3, vec![1], vec![], 400),
            task(4, vec![2], vec![], 800),
        ],
    }
}

fn with_member(p: &mut Project, n: u8) {
    p.try_update_interested_list(account(ORG), account(n), format!("member {}", n), String::new())
        .unwrap();
    p.try_add_member(account(MANAGER), account(n)).unwrap();
}

fn running_project() -> Project {
    let mut p = project(5);
    with_member(&mut p, 10);
    with_member(&mut p, 11);
    p.try_accept_proposed_approach(account(OWN_PROPOSALS), approach()).unwrap();
    p
}

#[test]
fn a_new_project_is_empty() {
    let p = project(3);
    assert_eq!(p.total_members(), 0);
    assert!(p.show_members_list().is_empty());
    assert!(p.show_interested_members_list().is_empty());
    assert!(p.get_review_task().is_empty());
    assert!(p.get_root_tasks().is_empty());
    assert_eq!(p.get_deadline(), None);
    assert_eq!(p.total_fund_allocated(), 1_000);
    assert!(!p.check_member(account(MANAGER)));
    assert_eq!(p.get_task(1), Err(Error::TaskNotFound));
}

#[test]
fn only_the_organisation_sets_the_catalogue() {
    let idea = BusinessIdea { title: String::new(), info_count: 0, info_list: Vec::new() };
    let mut p = Project::new(account(ORG), 1, idea, account(MANAGER), 0, 1, account(ORG_PROPOSALS));
    p.update_proposal_address(account(MANAGER), account(OWN_PROPOSALS));
    assert_eq!(
        p.try_accept_proposed_approach(account(OWN_PROPOSALS), approach()),
        Err(Error::UnAuthorized)
    );
    p.update_proposal_address(account(ORG), account(OWN_PROPOSALS));
    assert_eq!(p.try_accept_proposed_approach(account(OWN_PROPOSALS), approach()), Ok(()));
}

#[test]
fn funds_grow_by_what_the_catalogue_reports_and_saturate() {
    let mut p = project(3);
    p.update_fund_allocated(account(ORG), 5);
    assert_eq!(p.total_fund_allocated(), 1_000);
    p.update_fund_allocated(account(ORG_PROPOSALS), 5);
    assert_eq!(p.total_fund_allocated(), 1_005);
    p.update_fund_allocated(account(ORG_PROPOSALS), u128::MAX - 1_005);
    assert_eq!(p.total_fund_allocated(), u128::MAX);
    p.update_fund_allocated(account(ORG_PROPOSALS), 1);
    assert_eq!(p.total_fund_allocated(), u128::MAX);
}

#[test]
fn applications_come_from_the_organisation_and_only_once() {
    let mut p = project(3);
    let apply = |p: &mut Project, caller: u8, who: u8| {
        p.try_update_interested_list(account(caller), account(who), String::from("n"), String::from("u"))
    };
    assert_eq!(apply(&mut p, MANAGER, 10), Err(Error::UnAuthorized));
    assert_eq!(apply(&mut p, ORG, 10), Ok(()));
    assert_eq!(apply(&mut p, ORG, 10), Err(Error::AlreadyApplied));
    assert_eq!(apply(&mut p, ORG, 11), Ok(()));
    assert_eq!(p.show_interested_members_list(), vec![account(10), account(11)]);
    assert_eq!(p.try_add_member(account(MANAGER), account(10)), Ok(()));
    assert_eq!(apply(&mut p, ORG, 10), Err(Error::AlreadyMember));
    assert_eq!(p.show_interested_members_list(), vec![account(11)]);
}

#[test]
fn the_manager_admits_applicants_while_there_is_room() {
    let mut p = project(1);
    for n in [10u8, 11] {
        p.try_update_interested_list(account(ORG), account(n), String::new(), String::new())
            .unwrap();
    }
    assert_eq!(p.try_add_member(account(10), account(10)), Err(Error::UnAuthorized));
    assert_eq!(p.try_add_member(account(MANAGER), account(12)), Err(Error::MemberNotFound));
    assert_eq!(p.total_members(), 0);
    assert_eq!(p.try_add_member(account(MANAGER), account(10)), Ok(()));
    assert_eq!(p.total_members(), 1);
    assert!(p.check_member(account(10)));
    assert_eq!(p.show_members_list(), vec![account(10)]);
    // the project is full
    assert_eq!(p.try_add_member(account(MANAGER), account(11)), Err(Error::UnAuthorized));
    assert!(!p.check_member(account(11)));
    assert_eq!(p.show_interested_members_list(), vec![account(11)]);
}

#[test]
fn the_first_occurrence_is_found() {
    let list = vec![account(3), account(4), account(3)];
    assert_eq!(account_position(&list, &account(3)), Some(0));
    assert_eq!(account_position(&list, &account(4)), Some(1));
    assert_eq!(account_position(&list, &account(5)), None);
}

#[test]
fn an_approach_is_accepted_once_and_from_the_own_catalogue() {
    let mut p = project(3);
    assert_eq!(
        p.try_accept_proposed_approach(account(ORG_PROPOSALS), approach()),
        Err(Error::UnAuthorized)
    );
    assert_eq!(p.get_deadline(), None);
    assert_eq!(p.try_accept_proposed_approach(account(OWN_PROPOSALS), approach()), Ok(()));
    assert_eq!(
        p.get_deadline(),
        Some(DeadLine { project_start_date: 100, project_completion_date: 900 })
    );
    assert_eq!(p.get_root_tasks(), vec![1]);
    assert_eq!(p.get_task(2).unwrap(), approach().tasks.remove(1));
    assert_eq!(p.get_task(5), Err(Error::TaskNotFound));
    assert_eq!(
        p.try_accept_proposed_approach(account(OWN_PROPOSALS), approach()),
        Err(Error::ApproachAlreadyAccepted)
    );
    assert_eq!(
        p.try_accept_proposed_approach(account(ORG_PROPOSALS), approach()),
        Err(Error::ApproachAlreadyAccepted)
    );
}

#[test]
fn tasks_are_assigned_by_the_manager_to_members() {
    let mut p = running_project();
    assert_eq!(p.try_assign_task_to_member(account(10), 1, account(10)), Err(Error::UnAuthorized));
    assert_eq!(p.try_assign_task_to_member(account(MANAGER), 1, account(20)), Err(Error::NotAMember));
    assert_eq!(p.try_assign_task_to_member(account(MANAGER), 9, account(10)), Err(Error::TaskNotFound));
    assert_eq!(p.try_assign_task_to_member(account(MANAGER), 1, account(10)), Ok(()));
    assert_eq!(
        p.try_assign_task_to_member(account(MANAGER), 1, account(10)),
        Err(Error::TaskAlreadyAssigned)
    );
    assert_eq!(p.try_assign_task_to_member(account(MANAGER), 1, account(11)), Ok(()));
    assert_eq!(p.try_assign_task_to_member(account(MANAGER), 2, account(10)), Ok(()));
    assert_eq!(p.get_task_members(1), vec![account(10), account(11)]);
    assert_eq!(p.get_task_members(2), vec![account(10)]);
    assert!(p.get_task_members(3).is_empty());
    assert!(p.get_task_members(9).is_empty());
}

#[test]
fn progress_moves_a_task_to_review_at_a_hundred() {
    let mut p = running_project();
    p.try_assign_task_to_member(account(MANAGER), 1, account(10)).unwrap();
    assert_eq!(
        p.try_update_task_progress(account(11), 1, 10),
        Err(Error::ThisTaskIsNotAssignedToYou)
    );
    assert_eq!(
        p.try_update_task_progress(account(30), 1, 10),
        Err(Error::ThisTaskIsNotAssignedToYou)
    );
    assert_eq!(p.try_update_task_progress(account(10), 1, 99), Ok(()));
    assert_eq!(p.get_task(1).unwrap().status, TaskStatus::Running(99));
    assert!(p.get_review_task().is_empty());
    assert_eq!(p.try_update_task_progress(account(10), 1, 100), Ok(()));
    assert_eq!(p.get_task(1).unwrap().status, TaskStatus::InReview);
    assert_eq!(p.get_review_task(), vec![1]);
    assert_eq!(p.try_update_task_progress(account(10), 1, 50), Err(Error::TaskInReview));
    assert_eq!(p.review_task_and_rate(account(MANAGER), 1, 4), Ok(()));
    assert_eq!(p.try_update_task_progress(account(10), 1, 50), Err(Error::TaskCompleted));
}

#[test]
fn a_review_rates_and_completes_a_task_in_review() {
    let mut p = running_project();
    p.try_assign_task_to_member(account(MANAGER), 3, account(10)).unwrap();
    assert_eq!(p.review_task_and_rate(account(10), 3, 5), Err(Error::UnAuthorized));
    assert_eq!(p.review_task_and_rate(account(MANAGER), 9, 5), Err(Error::TaskNotFound));
    // not in review yet: nothing happens
    assert_eq!(p.review_task_and_rate(account(MANAGER), 3, 5), Ok(()));
    assert_eq!(p.get_task(3).unwrap().status, TaskStatus::NotYetStarted);
    assert_eq!(p.get_task(3).unwrap().performance_rating, None);
    p.try_update_task_progress(account(10), 3, 200).unwrap();
    assert_eq!(p.review_task_and_rate(account(MANAGER), 3, 5), Ok(()));
    assert_eq!(p.get_task(3).unwrap().status, TaskStatus::Completed);
    assert_eq!(p.get_task(3).unwrap().performance_rating, Some(5));
    assert_eq!(p.review_task_and_rate(account(MANAGER), 3, 1), Err(Error::AlreadyReviewed));
    assert_eq!(p.get_task(3).unwrap().performance_rating, Some(5));
}

#[test]
fn voters_on_a_deadline_are_those_of_the_task_and_of_its_direct_children() {
    let mut p = running_project();
    with_member(&mut p, 12);
    p.try_assign_task_to_member(account(MANAGER), 1, account(10)).unwrap();
    p.try_assign_task_to_member(account(MANAGER), 2, account(11)).unwrap();
    p.try_assign_task_to_member(account(MANAGER), 4, account(12)).unwrap();
    // 10 works on task 1 itself
    assert_eq!(p.try_check_voters_for_deadline_extension(1, account(10), true), Ok(true));
    assert_eq!(p.try_check_voters_for_deadline_extension(1, account(10), false), Ok(true));
    // 11 works on task 2, a direct child of 1
    assert_eq!(p.try_check_voters_for_deadline_extension(1, account(11), true), Ok(false));
    assert_eq!(p.try_check_voters_for_deadline_extension(1, account(11), false), Ok(true));
    // 12 works on task 4, a child of a child of 1
    assert_eq!(p.try_check_voters_for_deadline_extension(1, account(12), false), Ok(false));
    assert_eq!(p.try_check_voters_for_deadline_extension(2, account(12), false), Ok(true));
    assert_eq!(
        p.try_check_voters_for_deadline_extension(9, account(10), false),
        Err(Error::TaskNotFound)
    );
}

#[test]
fn a_deadline_is_feasible_strictly_before_every_direct_child_ends() {
    let p = running_project();
    // the children of 1 end at 500 and 400
    assert_eq!(p.is_possible_deadline(1, 399), Ok(true));
    assert_eq!(p.is_possible_deadline(1, 400), Ok(false));
    assert_eq!(p.is_possible_deadline(1, 450), Ok(false));
    assert_eq!(p.is_possible_deadline(1, 500), Ok(false));
    // the child of 2 ends at 800; the grandchild of 1 does not bind 1
    assert_eq!(p.is_possible_deadline(2, 799), Ok(true));
    assert_eq!(p.is_possible_deadline(2, 800), Ok(false));
    // a task without children can end at any time
    assert_eq!(p.is_possible_deadline(4, u64::MAX), Ok(true));
    assert_eq!(p.is_possible_deadline(9, 0), Err(Error::TaskNotFound));
    let loose = task(50, vec![], vec![3, 77], 0);
    assert!(p.check_neighbour_deadline(&loose, 399));
    assert!(!p.check_neighbour_deadline(&loose, 400));
}

#[test]
fn an_extension_moves_the_end_and_tells_the_children() {
    let mut p = running_project();
    assert_eq!(p.try_extend_task_deadline(account(MANAGER), 1, 350), Err(Error::UnAuthorized));
    assert_eq!(p.try_extend_task_deadline(account(OWN_PROPOSALS), 9, 350), Err(Error::TaskNotFound));
    assert_eq!(p.get_task(1).unwrap().end_time, 300);
    assert_eq!(p.try_extend_task_deadline(account(OWN_PROPOSALS), 1, 350), Ok(()));
    assert_eq!(p.get_task(1).unwrap().end_time, 350);
    assert_eq!(p.get_task(1).unwrap().start_time, None);
    assert_eq!(p.get_task(2).unwrap().start_time, Some(350));
    assert_eq!(p.get_task(3).unwrap().start_time, Some(350));
    assert_eq!(p.get_task(4).unwrap().start_time, Some(500));
    // a second propagation with the same end changes nothing
    p.build_deadline_graph(1);
    assert_eq!(p.get_task(2).unwrap().start_time, Some(350));
    assert_eq!(p.get_task(3).unwrap().start_time, Some(350));
    assert_eq!(p.get_task(4).unwrap().start_time, Some(500));
    // a later end moves the children forward, an earlier one moves nothing back
    assert_eq!(p.try_extend_task_deadline(account(OWN_PROPOSALS), 1, 390), Ok(()));
    assert_eq!(p.get_task(2).unwrap().start_time, Some(390));
    assert_eq!(p.try_extend_task_deadline(account(OWN_PROPOSALS), 1, 200), Ok(()));
    assert_eq!(p.get_task(2).unwrap().start_time, Some(390));
    assert_eq!(p.get_task(4).unwrap().start_time, Some(500));
}
