//! A project: its members, its funds and its schedule of tasks.
//!
//! Who calls is an argument of every operation that is restricted to the
//! manager, to the organisation or to one of the two proposal catalogues.

use vstd::prelude::*;
use crate::account::{is_account, AccountId, Balance, Timestamp};
use crate::deadline::{propagate_deadlines, propagated};
use crate::error::Error;
use crate::graph::tasks_of;
use crate::table::Table;
pub use crate::task::{AcceptedApproach, DeadLine, Task, TaskStatus};
use crate::task::{ApproachView, TaskView};

verus! {

/// Whether a project still takes members.
#[derive(Clone, Copy, Debug, PartialEq, Eq, Structural)]
pub enum CommunityFormationStatus {
    Running,
    Closed,
}

/// The idea a project was created for.
#[derive(Debug, PartialEq, Eq)]
pub struct BusinessIdea {
    pub title: String,
    /// The number of key points in `info_list`.
    pub info_count: u128,
    pub info_list: Vec<String>,
}

/// The mathematical content of a [`BusinessIdea`].
pub struct BusinessIdeaView {
    pub title: String,
    pub info_count: u128,
    pub info_list: Seq<String>,
}

impl View for BusinessIdea {
    type V = BusinessIdeaView;

    open spec fn view(&self) -> BusinessIdeaView {
        BusinessIdeaView {
            title: self.title,
            info_count: self.info_count,
            info_list: self.info_list@,
        }
    }
}

/// What a project knows of a member or of an applicant.
#[derive(Debug, PartialEq, Eq)]
pub struct MemberInfo {
    pub name: String,
    pub address: AccountId,
    pub resume_url: String,
}

impl Clone for MemberInfo {
    fn clone(&self) -> (r: Self)
        ensures
            r == *self,
    {
        MemberInfo {
            name: self.name.clone(),
            address: self.address,
            resume_url: self.resume_url.clone(),
        }
    }
}

/// The index of the first occurrence of `who` in `list`.
pub open spec fn first_position(list: Seq<AccountId>, who: AccountId) -> int {
    choose|i: int|
        0 <= i < list.len() && list[i] == who && forall|j: int| 0 <= j < i ==> list[j] != who
}

/// `list` without the first occurrence of `who`, if there is one.
pub open spec fn without_first(list: Seq<AccountId>, who: AccountId) -> Seq<AccountId> {
    if list.contains(who) {
        list.remove(first_position(list, who))
    } else {
        list
    }
}

/// The index of the first occurrence of `who` in `list`, if there is one.
pub fn account_position(list: &Vec<AccountId>, who: &AccountId) -> (r: Option<usize>)
    ensures
        r is Some == list@.contains(*who),
        r matches Some(i) ==> i == first_position(list@, *who) && i < list@.len(),
{
    let mut i: usize = 0;
    while i < list.len()
        invariant
            i <= list@.len(),
            forall|j: int| 0 <= j < i ==> list@[j] != *who,
        decreases list@.len() - i,
    {
        if list[i] == *who {
            let ghost found = first_position(list@, *who);
            assert(0 <= found < list@.len() && list@[found] == *who && forall|j: int|
                0 <= j < found ==> list@[j] != *who);
            return Some(i);
        }
        i += 1;
    }
    None
}

/// A project.
pub struct Project {
    id: u32,
    project_info: BusinessIdea,
    manager: AccountId,
    curr_member_count: u64,
    member_list: Vec<AccountId>,
    members_info: Table<AccountId, MemberInfo>,
    members_assigned_task_list: Table<AccountId, Vec<u16>>,
    members_in_task: Table<u16, Vec<AccountId>>,
    total_fund_allocated: Balance,
    strength: u64,
    organisation_contract: AccountId,
    organisation_proposal_contract: AccountId,
    community_formation_status: CommunityFormationStatus,
    interested_members: Vec<AccountId>,
    interested_members_info: Table<AccountId, MemberInfo>,
    deadline: Option<DeadLine>,
    task_by_id: Table<u16, Task>,
    root_tasks: Vec<u16>,
    review_tasks: Vec<u16>,
    project_proposal_address: Option<AccountId>,
}

/// The mathematical content of a [`Project`].
pub struct ProjectState {
    pub id: u32,
    pub project_info: BusinessIdeaView,
    /// Who proposed the project and runs it.
    pub manager: AccountId,
    /// The members accepted so far, in order of acceptance.
    pub member_list: Seq<AccountId>,
    pub members_info: Map<AccountId, MemberInfo>,
    /// For each member, the tasks assigned to it.
    pub members_assigned_task_list: Map<AccountId, Seq<u16>>,
    /// For each task, the members assigned to it: those who may vote on its
    /// deadline.
    pub members_in_task: Map<u16, Seq<AccountId>>,
    pub total_fund_allocated: Balance,
    /// How many members the project may have.
    pub strength: u64,
    pub organisation_contract: AccountId,
    pub organisation_proposal_contract: AccountId,
    pub community_formation_status: CommunityFormationStatus,
    /// Those who applied and are not yet accepted.
    pub interested_members: Seq<AccountId>,
    pub interested_members_info: Map<AccountId, MemberInfo>,
    pub deadline: Option<DeadLine>,
    pub task_by_id: Map<u16, TaskView>,
    /// The tasks without predecessors.
    pub root_tasks: Seq<u16>,
    /// The tasks handed in for review.
    pub review_tasks: Seq<u16>,
    /// The catalogue of this project's own proposals.
    pub project_proposal_address: Option<AccountId>,
}

impl ProjectState {
    /// The state of a new project.
    pub open spec fn initial(
        organisation_contract: AccountId,
        id: u32,
        business_idea: BusinessIdeaView,
        manager: AccountId,
        fund_allocated: Balance,
        strength: u64,
        proposal_contract: AccountId,
    ) -> ProjectState {
        ProjectState {
            id,
            project_info: business_idea,
            manager,
            member_list: Seq::empty(),
            members_info: Map::empty(),
            members_assigned_task_list: Map::empty(),
            members_in_task: Map::empty(),
            total_fund_allocated: fund_allocated,
            strength,
            organisation_contract,
            organisation_proposal_contract: proposal_contract,
            community_formation_status: CommunityFormationStatus::Running,
            interested_members: Seq::empty(),
            interested_members_info: Map::empty(),
            deadline: None,
            task_by_id: Map::empty(),
            root_tasks: Seq::empty(),
            review_tasks: Seq::empty(),
            project_proposal_address: None,
        }
    }

    /// Why an application of `address` is refused, if it is.
    pub open spec fn application_refusal(self, caller: AccountId, address: AccountId) -> Option<
        Error,
    > {
        if caller != self.organisation_contract {
            Some(Error::UnAuthorized)
        } else if self.interested_members_info.dom().contains(address) {
            Some(Error::AlreadyApplied)
        } else if self.members_info.dom().contains(address) {
            Some(Error::AlreadyMember)
        } else {
            None
        }
    }

    /// Why `address` is not accepted as a member, if it is not: only the
    /// manager accepts, only while there is room, and only applicants.
    pub open spec fn admission_refusal(self, caller: AccountId, address: AccountId) -> Option<
        Error,
    > {
        if caller != self.manager || self.member_list.len() >= self.strength {
            Some(Error::UnAuthorized)
        } else if !self.interested_members_info.dom().contains(address) {
            Some(Error::MemberNotFound)
        } else {
            None
        }
    }

    /// The state after the applicant `address` became a member: it leaves the
    /// applicants, joins the members with what it applied with, and has a
    /// list of assigned tasks, empty unless it had one.
    pub open spec fn admitted(self, address: AccountId) -> ProjectState {
        ProjectState {
            interested_members_info: self.interested_members_info.remove(address),
            interested_members: without_first(self.interested_members, address),
            member_list: self.member_list.push(address),
            members_info: self.members_info.insert(address, self.interested_members_info[address]),
            members_assigned_task_list: if self.members_assigned_task_list.dom().contains(
                address,
            ) {
                self.members_assigned_task_list
            } else {
                self.members_assigned_task_list.insert(address, Seq::empty())
            },
            ..self
        }
    }

    /// Why an approach is not accepted, if it is not: a project accepts one
    /// approach only, and only from the catalogue of its own proposals.
    pub open spec fn acceptance_refusal(self, caller: AccountId) -> Option<Error> {
        if self.deadline is Some {
            Some(Error::ApproachAlreadyAccepted)
        } else if self.project_proposal_address != Some(caller) {
            Some(Error::UnAuthorized)
        } else {
            None
        }
    }

    /// The state after the first `n` of `tasks` were taken over, in order:
    /// each stands under its id, is a root if it has no predecessors, and has
    /// a list of assigned members, empty unless it had one.
    pub open spec fn with_tasks(self, tasks: Seq<TaskView>, n: nat) -> ProjectState
        decreases n,
    {
        if n == 0 {
            self
        } else {
            let before = self.with_tasks(tasks, (n - 1) as nat);
            let task = tasks[n - 1];
            ProjectState {
                task_by_id: before.task_by_id.insert(task.task_id, task),
                root_tasks: if task.start_after.len() == 0 {
                    before.root_tasks.push(task.task_id)
                } else {
                    before.root_tasks
                },
                members_in_task: if before.members_in_task.dom().contains(task.task_id) {
                    before.members_in_task
                } else {
                    before.members_in_task.insert(task.task_id, Seq::empty())
                },
                ..before
            }
        }
    }

    /// The state after `approach` was accepted: its two dates are the
    /// project's deadline, and its tasks are the project's tasks.
    pub open spec fn accepted(self, approach: ApproachView) -> ProjectState {
        ProjectState {
            deadline: Some(
                DeadLine {
                    project_start_date: approach.project_start_date,
                    project_completion_date: approach.project_completion_date,
                },
            ),
            ..self
        }.with_tasks(approach.tasks, approach.tasks.len())
    }

    /// Why task `task_id` is not assigned to `member`, if it is not.
    pub open spec fn assignment_refusal(self, caller: AccountId, task_id: u16, member: AccountId) -> Option<
        Error,
    > {
        if caller != self.manager {
            Some(Error::UnAuthorized)
        } else if !self.members_assigned_task_list.dom().contains(member) {
            Some(Error::NotAMember)
        } else if self.members_assigned_task_list[member].contains(task_id) {
            Some(Error::TaskAlreadyAssigned)
        } else if !self.members_in_task.dom().contains(task_id) {
            Some(Error::TaskNotFound)
        } else {
            None
        }
    }

    /// The state after task `task_id` was assigned to `member`.
    pub open spec fn assigned(self, task_id: u16, member: AccountId) -> ProjectState {
        ProjectState {
            members_assigned_task_list: self.members_assigned_task_list.insert(
                member,
                self.members_assigned_task_list[member].push(task_id),
            ),
            members_in_task: self.members_in_task.insert(
                task_id,
                self.members_in_task[task_id].push(member),
            ),
            ..self
        }
    }

    /// Why `caller` cannot report progress on task `task_id`, if it cannot.
    pub open spec fn progress_refusal(self, caller: AccountId, task_id: u16) -> Option<Error> {
        if !self.members_assigned_task_list.dom().contains(caller)
            || !self.members_assigned_task_list[caller].contains(task_id) {
            Some(Error::ThisTaskIsNotAssignedToYou)
        } else if !self.task_by_id.dom().contains(task_id) {
            Some(Error::TaskNotFound)
        } else if self.task_by_id[task_id].status == TaskStatus::InReview {
            Some(Error::TaskInReview)
        } else if self.task_by_id[task_id].status == TaskStatus::Completed {
            Some(Error::TaskCompleted)
        } else {
            None
        }
    }

    /// The state after progress `progress` was reported on task `task_id`:
    /// from 100 on the task goes to review, below it is running.
    pub open spec fn progressed(self, task_id: u16, progress: u8) -> ProjectState {
        if progress >= 100 {
            ProjectState {
                task_by_id: self.task_by_id.insert(
                    task_id,
                    TaskView { status: TaskStatus::InReview, ..self.task_by_id[task_id] },
                ),
                review_tasks: self.review_tasks.push(task_id),
                ..self
            }
        } else {
            ProjectState {
                task_by_id: self.task_by_id.insert(
                    task_id,
                    TaskView { status: TaskStatus::Running(progress), ..self.task_by_id[task_id] },
                ),
                ..self
            }
        }
    }

    /// Why task `task_id` cannot be reviewed by `caller`, if it cannot.
    pub open spec fn review_refusal(self, caller: AccountId, task_id: u16) -> Option<Error> {
        if caller != self.manager {
            Some(Error::UnAuthorized)
        } else if !self.task_by_id.dom().contains(task_id) {
            Some(Error::TaskNotFound)
        } else if self.task_by_id[task_id].status == TaskStatus::Completed {
            Some(Error::AlreadyReviewed)
        } else {
            None
        }
    }

    /// The state after the manager reviewed task `task_id`: a task in review
    /// is rated and completed; any other stays as it is.
    pub open spec fn reviewed(self, task_id: u16, rating: u8) -> ProjectState {
        if self.task_by_id[task_id].status == TaskStatus::InReview {
            ProjectState {
                task_by_id: self.task_by_id.insert(
                    task_id,
                    TaskView {
                        status: TaskStatus::Completed,
                        performance_rating: Some(rating),
                        ..self.task_by_id[task_id]
                    },
                ),
                ..self
            }
        } else {
            self
        }
    }

    /// The direct children of task `task_id`; none if the task is unknown.
    pub open spec fn children_of(self, task_id: u16) -> Seq<u16> {
        if self.task_by_id.dom().contains(task_id) {
            self.task_by_id[task_id].children_task
        } else {
            Seq::empty()
        }
    }

    /// Whether `member` is assigned to task `task_id`.
    pub open spec fn works_on(self, task_id: u16, member: AccountId) -> bool {
        self.members_in_task.dom().contains(task_id) && self.members_in_task[task_id].contains(
            member,
        )
    }

    /// Whether `member` may vote on the deadline of task `task_id`: it is
    /// assigned to the task or, unless `check_task_only`, to one of the
    /// task's direct children. Children of children do not count.
    pub open spec fn may_vote_on_deadline(
        self,
        task_id: u16,
        member: AccountId,
        check_task_only: bool,
    ) -> bool {
        ||| self.works_on(task_id, member)
        ||| !check_task_only && exists|i: int|
            0 <= i < self.children_of(task_id).len() && self.works_on(
                #[trigger] self.children_of(task_id)[i],
                member,
            )
    }

    /// Whether task `task_id` can end at `end_time`: every direct child that
    /// is a task of the project ends strictly later. Only direct children are
    /// looked at.
    pub open spec fn deadline_feasible(self, task_id: u16, end_time: Timestamp) -> bool {
        forall|i: int|
            0 <= i < self.children_of(task_id).len() && self.task_by_id.dom().contains(
                #[trigger] self.children_of(task_id)[i],
            ) ==> self.task_by_id[self.children_of(task_id)[i]].end_time > end_time
    }

    /// Why the end of task `task_id` is not moved, if it is not: only the
    /// catalogue of the project's proposals moves it, and only of a task of
    /// the project.
    pub open spec fn extension_refusal(self, caller: AccountId, task_id: u16) -> Option<Error> {
        if self.project_proposal_address != Some(caller) {
            Some(Error::UnAuthorized)
        } else if !self.task_by_id.dom().contains(task_id) {
            Some(Error::TaskNotFound)
        } else {
            None
        }
    }

    /// The state after task `task_id` got the end time `completion_time` and
    /// the tasks that wait for it were told.
    pub open spec fn extended(self, task_id: u16, completion_time: Timestamp) -> ProjectState {
        ProjectState {
            task_by_id: propagated(
                self.task_by_id.insert(
                    task_id,
                    TaskView { end_time: completion_time, ..self.task_by_id[task_id] },
                ),
                task_id,
            ),
            ..self
        }
    }
}

/// An end time that is not strictly earlier than the end of some direct
/// child is infeasible; one strictly earlier than the end of every direct
/// child is feasible.
pub proof fn lemma_deadline_feasibility(state: ProjectState, task_id: u16, end_time: Timestamp)
    ensures
        (exists|i: int|
            0 <= i < state.children_of(task_id).len() && state.task_by_id.dom().contains(
                #[trigger] state.children_of(task_id)[i],
            ) && end_time >= state.task_by_id[state.children_of(task_id)[i]].end_time)
            ==> !state.deadline_feasible(task_id, end_time),
        (forall|i: int|
            0 <= i < state.children_of(task_id).len() && state.task_by_id.dom().contains(
                #[trigger] state.children_of(task_id)[i],
            ) ==> end_time < state.task_by_id[state.children_of(task_id)[i]].end_time)
            ==> state.deadline_feasible(task_id, end_time),
{
}

/// The views of the lists kept in a table.
pub open spec fn lists_of<K, T>(table: Map<K, Vec<T>>) -> Map<K, Seq<T>> {
    table.map_values(|v: Vec<T>| v@)
}

impl View for Project {
    type V = ProjectState;

    closed spec fn view(&self) -> ProjectState {
        ProjectState {
            id: self.id,
            project_info: self.project_info@,
            manager: self.manager,
            member_list: self.member_list@,
            members_info: self.members_info@,
            members_assigned_task_list: lists_of(self.members_assigned_task_list@),
            members_in_task: lists_of(self.members_in_task@),
            total_fund_allocated: self.total_fund_allocated,
            strength: self.strength,
            organisation_contract: self.organisation_contract,
            organisation_proposal_contract: self.organisation_proposal_contract,
            community_formation_status: self.community_formation_status,
            interested_members: self.interested_members@,
            interested_members_info: self.interested_members_info@,
            deadline: self.deadline,
            task_by_id: tasks_of(self.task_by_id@),
            root_tasks: self.root_tasks@,
            review_tasks: self.review_tasks@,
            project_proposal_address: self.project_proposal_address,
        }
    }
}

/// A project taken apart, for whoever stores it between calls.
pub struct ProjectParts {
    pub id: u32,
    pub project_info: BusinessIdea,
    pub manager: AccountId,
    pub member_list: Vec<AccountId>,
    pub members_info: Table<AccountId, MemberInfo>,
    pub members_assigned_task_list: Table<AccountId, Vec<u16>>,
    pub members_in_task: Table<u16, Vec<AccountId>>,
    pub total_fund_allocated: Balance,
    pub strength: u64,
    pub organisation_contract: AccountId,
    pub organisation_proposal_contract: AccountId,
    pub community_formation_status: CommunityFormationStatus,
    pub interested_members: Vec<AccountId>,
    pub interested_members_info: Table<AccountId, MemberInfo>,
    pub deadline: Option<DeadLine>,
    pub task_by_id: Table<u16, Task>,
    pub root_tasks: Vec<u16>,
    pub review_tasks: Vec<u16>,
    pub project_proposal_address: Option<AccountId>,
}

impl ProjectParts {
    /// Every table is well formed.
    pub open spec fn tables_wf(&self) -> bool {
        &&& self.members_info.wf()
        &&& self.members_assigned_task_list.wf()
        &&& self.members_in_task.wf()
        &&& self.interested_members_info.wf()
        &&& self.task_by_id.wf()
    }

    /// The state that the parts describe.
    pub open spec fn state(&self) -> ProjectState {
        ProjectState {
            id: self.id,
            project_info: self.project_info@,
            manager: self.manager,
            member_list: self.member_list@,
            members_info: self.members_info@,
            members_assigned_task_list: lists_of(self.members_assigned_task_list@),
            members_in_task: lists_of(self.members_in_task@),
            total_fund_allocated: self.total_fund_allocated,
            strength: self.strength,
            organisation_contract: self.organisation_contract,
            organisation_proposal_contract: self.organisation_proposal_contract,
            community_formation_status: self.community_formation_status,
            interested_members: self.interested_members@,
            interested_members_info: self.interested_members_info@,
            deadline: self.deadline,
            task_by_id: tasks_of(self.task_by_id@),
            root_tasks: self.root_tasks@,
            review_tasks: self.review_tasks@,
            project_proposal_address: self.project_proposal_address,
        }
    }
}

impl Project {
    /// The project is in a state that its operations can have produced.
    pub closed spec fn wf(&self) -> bool {
        &&& self.members_info.wf()
        &&& self.members_assigned_task_list.wf()
        &&& self.members_in_task.wf()
        &&& self.interested_members_info.wf()
        &&& self.task_by_id.wf()
        &&& self.curr_member_count == self.member_list@.len()
    }

    /// Takes the project apart.
    pub fn into_parts(self) -> (parts: ProjectParts)
        requires
            self.wf(),
        ensures
            parts.tables_wf(),
            parts.state() == self@,
    {
        ProjectParts {
            id: self.id,
            project_info: self.project_info,
            manager: self.manager,
            member_list: self.member_list,
            members_info: self.members_info,
            members_assigned_task_list: self.members_assigned_task_list,
            members_in_task: self.members_in_task,
            total_fund_allocated: self.total_fund_allocated,
            strength: self.strength,
            organisation_contract: self.organisation_contract,
            organisation_proposal_contract: self.organisation_proposal_contract,
            community_formation_status: self.community_formation_status,
            interested_members: self.interested_members,
            interested_members_info: self.interested_members_info,
            deadline: self.deadline,
            task_by_id: self.task_by_id,
            root_tasks: self.root_tasks,
            review_tasks: self.review_tasks,
            project_proposal_address: self.project_proposal_address,
        }
    }

    /// Puts a project together again.
    pub fn from_parts(parts: ProjectParts) -> (r: Self)
        requires
            parts.tables_wf(),
        ensures
            r.wf(),
            r@ == parts.state(),
    {
        let curr_member_count = parts.member_list.len() as u64;
        Project {
            id: parts.id,
            project_info: parts.project_info,
            manager: parts.manager,
            curr_member_count,
            member_list: parts.member_list,
            members_info: parts.members_info,
            members_assigned_task_list: parts.members_assigned_task_list,
            members_in_task: parts.members_in_task,
            total_fund_allocated: parts.total_fund_allocated,
            strength: parts.strength,
            organisation_contract: parts.organisation_contract,
            organisation_proposal_contract: parts.organisation_proposal_contract,
            community_formation_status: parts.community_formation_status,
            interested_members: parts.interested_members,
            interested_members_info: parts.interested_members_info,
            deadline: parts.deadline,
            task_by_id: parts.task_by_id,
            root_tasks: parts.root_tasks,
            review_tasks: parts.review_tasks,
            project_proposal_address: parts.project_proposal_address,
        }
    }

    /// A project of the organisation at `organisation_contract`, without
    /// members, tasks or deadline.
    pub fn new(
        organisation_contract: AccountId,
        id: u32,
        business_idea: BusinessIdea,
        manager: AccountId,
        fund_allocated: Balance,
        strength: u64,
        proposal_contract: AccountId,
    ) -> (r: Self)
        ensures
            r.wf(),
            r@ == ProjectState::initial(
                organisation_contract,
                id,
                business_idea@,
                manager,
                fund_allocated,
                strength,
                proposal_contract,
            ),
    {
        let r = Project {
            id,
            project_info: business_idea,
            manager,
            curr_member_count: 0,
            member_list: Vec::new(),
            members_info: Table::new(),
            members_assigned_task_list: Table::new(),
            members_in_task: Table::new(),
            total_fund_allocated: fund_allocated,
            strength,
            organisation_contract,
            organisation_proposal_contract: proposal_contract,
            community_formation_status: CommunityFormationStatus::Running,
            interested_members: Vec::new(),
            interested_members_info: Table::new(),
            deadline: None,
            task_by_id: Table::new(),
            root_tasks: Vec::new(),
            review_tasks: Vec::new(),
            project_proposal_address: None,
        };
        proof {
            assert(r@.members_assigned_task_list =~= Map::empty());
            assert(r@.members_in_task =~= Map::empty());
            assert(r@.task_by_id =~= Map::empty());
        }
        r
    }

    /// Records the catalogue of this project's proposals, if the organisation
    /// calls; any other caller changes nothing.
    pub fn update_proposal_address(&mut self, caller: AccountId, proposal_contract_address: AccountId)
        requires
            old(self).wf(),
        ensures
            final(self).wf(),
            final(self)@ == if caller == old(self)@.organisation_contract {
                (ProjectState {
                    project_proposal_address: Some(proposal_contract_address),
                    ..old(self)@
                })
            } else {
                old(self)@
            },
    {
        if caller == self.organisation_contract {
            self.project_proposal_address = Some(proposal_contract_address);
        }
    }

    /// Adds `amount` to the funds allocated, stopping at the largest amount
    /// there is, if the organisation's proposal catalogue calls; any other
    /// caller changes nothing.
    pub fn update_fund_allocated(&mut self, caller: AccountId, amount: Balance)
        requires
            old(self).wf(),
        ensures
            final(self).wf(),
            final(self)@ == if caller == old(self)@.organisation_proposal_contract {
                (ProjectState {
                    total_fund_allocated: if old(self)@.total_fund_allocated + amount
                        > u128::MAX {
                        u128::MAX
                    } else {
                        (old(self)@.total_fund_allocated + amount) as u128
                    },
                    ..old(self)@
                })
            } else {
                old(self)@
            },
    {
        if caller == self.organisation_proposal_contract {
            self.total_fund_allocated = if amount > u128::MAX - self.total_fund_allocated {
                u128::MAX
            } else {
                self.total_fund_allocated + amount
            };
        }
    }

    /// Records that `address` applies for the project. Only the organisation
    /// may say so, and only of an account that has not applied and is no
    /// member.
    pub fn try_update_interested_list(
        &mut self,
        caller: AccountId,
        address: AccountId,
        name: String,
        resume_url: String,
    ) -> (r: Result<(), Error>)
        requires
            old(self).wf(),
        ensures
            final(self).wf(),
            match r {
                Ok(()) => {
                    &&& old(self)@.application_refusal(caller, address) is None
                    &&& final(self)@ == (ProjectState {
                        interested_members: old(self)@.interested_members.push(address),
                        interested_members_info: old(self)@.interested_members_info.insert(
                            address,
                            MemberInfo { name, address, resume_url },
                        ),
                        ..old(self)@
                    })
                },
                Err(e) => {
                    &&& old(self)@.application_refusal(caller, address) == Some(e)
                    &&& final(self)@ == old(self)@
                },
            },
    {
        if caller != self.organisation_contract {
            return Err(Error::UnAuthorized);
        }
        if self.interested_members_info.contains_key(&address) {
            return Err(Error::AlreadyApplied);
        }
        if self.members_info.contains_key(&address) {
            return Err(Error::AlreadyMember);
        }
        let member_info = MemberInfo { name, address, resume_url };
        self.interested_members.push(address);
        self.interested_members_info.insert(address, member_info);
        Ok(())
    }

    /// Accepts the applicant `interested_member_address` as a member. Only
    /// the manager may, and only while the project has fewer members than its
    /// strength.
    pub fn try_add_member(&mut self, caller: AccountId, interested_member_address: AccountId) -> (r:
        Result<(), Error>)
        requires
            old(self).wf(),
        ensures
            final(self).wf(),
            match r {
                Ok(()) => {
                    &&& old(self)@.admission_refusal(caller, interested_member_address) is None
                    &&& final(self)@ == old(self)@.admitted(interested_member_address)
                },
                Err(e) => {
                    &&& old(self)@.admission_refusal(caller, interested_member_address) == Some(e)
                    &&& final(self)@ == old(self)@
                },
            },
    {
        if caller != self.manager || self.curr_member_count >= self.strength {
            return Err(Error::UnAuthorized);
        }
        let member_info = match self.interested_members_info.remove(&interested_member_address) {
            Some(info) => info,
            None => {
                assert(self@.interested_members_info =~= old(self)@.interested_members_info);
                return Err(Error::MemberNotFound);
            },
        };
        match account_position(&self.interested_members, &interested_member_address) {
            Some(index) => {
                self.interested_members.remove(index);
            },
            None => {},
        }
        self.member_list.push(interested_member_address);
        assert(self.member_list@.len() <= usize::MAX) by {
            assert(self.member_list@.len() == self.member_list.len());
        }
        self.curr_member_count += 1;
        self.members_info.insert(interested_member_address, member_info);
        if !self.members_assigned_task_list.contains_key(&interested_member_address) {
            self.members_assigned_task_list.insert(interested_member_address, Vec::new());
        }
        proof {
            let expected = old(self)@.admitted(interested_member_address);
            assert(self@.members_assigned_task_list =~= expected.members_assigned_task_list);
            assert(self@ == expected);
        }
        Ok(())
    }

    proof fn lemma_stored(&self)
        ensures
            forall|id: u16| #[trigger]
                self@.task_by_id.dom().contains(id) == self.task_by_id@.dom().contains(id),
            forall|id: u16| #[trigger]
                self.task_by_id@.dom().contains(id) ==> self@.task_by_id[id]
                    == self.task_by_id@[id]@,
            forall|id: u16| #[trigger]
                self@.members_in_task.dom().contains(id) == self.members_in_task@.dom().contains(
                    id,
                ),
            forall|id: u16| #[trigger]
                self.members_in_task@.dom().contains(id) ==> self@.members_in_task[id]
                    == self.members_in_task@[id]@,
            forall|who: AccountId| #[trigger]
                self@.members_assigned_task_list.dom().contains(who)
                    == self.members_assigned_task_list@.dom().contains(who),
            forall|who: AccountId| #[trigger]
                self.members_assigned_task_list@.dom().contains(who)
                    ==> self@.members_assigned_task_list[who]
                    == self.members_assigned_task_list@[who]@,
    {
    }

    /// Takes over the approach that the project's proposals passed: its dates
    /// become the deadline and its tasks the project's tasks. A project does
    /// so once; a second approach is refused.
    pub fn try_accept_proposed_approach(&mut self, caller: AccountId, approach: AcceptedApproach) -> (r:
        Result<(), Error>)
        requires
            old(self).wf(),
        ensures
            final(self).wf(),
            match r {
                Ok(()) => {
                    &&& old(self)@.acceptance_refusal(caller) is None
                    &&& final(self)@ == old(self)@.accepted(approach@)
                },
                Err(e) => {
                    &&& old(self)@.acceptance_refusal(caller) == Some(e)
                    &&& final(self)@ == old(self)@
                },
            },
    {
        if self.deadline.is_some() {
            return Err(Error::ApproachAlreadyAccepted);
        }
        if !is_account(&self.project_proposal_address, &caller) {
            return Err(Error::UnAuthorized);
        }
        self.deadline = Some(
            DeadLine {
                project_start_date: approach.project_start_date,
                project_completion_date: approach.project_completion_date,
            },
        );
        let ghost start = self@;
        let ghost views = approach@.tasks;
        let mut i: usize = 0;
        while i < approach.tasks.len()
            invariant
                self.wf(),
                i <= approach.tasks@.len(),
                views == approach@.tasks,
                self@ == start.with_tasks(views, i as nat),
            decreases approach.tasks@.len() - i,
        {
            let ghost before = self@;
            let task = approach.tasks[i].clone();
            let task_id = task.task_id;
            assert(task@ == views[i as int]);
            proof {
                self.lemma_stored();
            }
            if task.start_after.len() == 0 {
                self.root_tasks.push(task_id);
            }
            if !self.members_in_task.contains_key(&task_id) {
                self.members_in_task.insert(task_id, Vec::new());
            }
            self.task_by_id.insert(task_id, task);
            i += 1;
            proof {
                let expected = start.with_tasks(views, i as nat);
                assert(self@.task_by_id =~= expected.task_by_id);
                assert(self@.members_in_task =~= expected.members_in_task);
                assert(self@.members_assigned_task_list =~= expected.members_assigned_task_list);
                assert(self@ == expected);
            }
        }
        Ok(())
    }

    /// Assigns task `task_id` to the member `member_address`. Only the
    /// manager may; the task must be one of the project's, and not yet
    /// assigned to that member.
    pub fn try_assign_task_to_member(
        &mut self,
        caller: AccountId,
        task_id: u16,
        member_address: AccountId,
    ) -> (r: Result<(), Error>)
        requires
            old(self).wf(),
        ensures
            final(self).wf(),
            match r {
                Ok(()) => {
                    &&& old(self)@.assignment_refusal(caller, task_id, member_address) is None
                    &&& final(self)@ == old(self)@.assigned(task_id, member_address)
                },
                Err(e) => {
                    &&& old(self)@.assignment_refusal(caller, task_id, member_address) == Some(e)
                    &&& final(self)@ == old(self)@
                },
            },
    {
        proof {
            self.lemma_stored();
        }
        if caller != self.manager {
            return Err(Error::UnAuthorized);
        }
        let mut assigned_tasks = match self.members_assigned_task_list.get(&member_address) {
            Some(assigned_tasks) => {
                if crate::task::contains_id(assigned_tasks, task_id) {
                    return Err(Error::TaskAlreadyAssigned);
                }
                assigned_tasks.clone()
            },
            None => {
                return Err(Error::NotAMember);
            },
        };
        let mut members_in_task = match self.members_in_task.get(&task_id) {
            Some(members) => members.clone(),
            None => {
                return Err(Error::TaskNotFound);
            },
        };
        assigned_tasks.push(task_id);
        members_in_task.push(member_address);
        self.members_assigned_task_list.insert(member_address, assigned_tasks);
        self.members_in_task.insert(task_id, members_in_task);
        proof {
            let expected = old(self)@.assigned(task_id, member_address);
            assert(self@.members_assigned_task_list =~= expected.members_assigned_task_list);
            assert(self@.members_in_task =~= expected.members_in_task);
            assert(self@.task_by_id =~= expected.task_by_id);
            assert(self@ == expected);
        }
        Ok(())
    }

    /// Reports the progress, in percent, that `caller` made on task
    /// `task_id`. From 100 on the task goes to review. Only a member to whom
    /// the task is assigned may report, and not on a task in review or
    /// completed.
    pub fn try_update_task_progress(&mut self, caller: AccountId, task_id: u16, progress: u8) -> (r:
        Result<(), Error>)
        requires
            old(self).wf(),
        ensures
            final(self).wf(),
            match r {
                Ok(()) => {
                    &&& old(self)@.progress_refusal(caller, task_id) is None
                    &&& final(self)@ == old(self)@.progressed(task_id, progress)
                },
                Err(e) => {
                    &&& old(self)@.progress_refusal(caller, task_id) == Some(e)
                    &&& final(self)@ == old(self)@
                },
            },
    {
        proof {
            self.lemma_stored();
        }
        match self.members_assigned_task_list.get(&caller) {
            Some(assigned_task) => {
                if !crate::task::contains_id(assigned_task, task_id) {
                    return Err(Error::ThisTaskIsNotAssignedToYou);
                }
            },
            None => {
                return Err(Error::ThisTaskIsNotAssignedToYou);
            },
        }
        let mut task = match self.task_by_id.get(&task_id) {
            Some(task) => task.clone(),
            None => {
                return Err(Error::TaskNotFound);
            },
        };
        match task.status {
            TaskStatus::InReview => {
                return Err(Error::TaskInReview);
            },
            TaskStatus::Completed => {
                return Err(Error::TaskCompleted);
            },
            _ => {},
        }
        if progress >= 100 {
            task.status = TaskStatus::InReview;
            self.review_tasks.push(task_id);
        } else {
            task.status = TaskStatus::Running(progress);
        }
        self.task_by_id.insert(task_id, task);
        proof {
            let expected = old(self)@.progressed(task_id, progress);
            assert(self@.task_by_id =~= expected.task_by_id);
            assert(self@ == expected);
        }
        Ok(())
    }

    /// The manager's review of task `task_id`: a task in review gets the
    /// rating and is completed. A completed task is not reviewed again.
    pub fn review_task_and_rate(&mut self, caller: AccountId, task_id: u16, rating: u8) -> (r: Result<
        (),
        Error,
    >)
        requires
            old(self).wf(),
        ensures
            final(self).wf(),
            match r {
                Ok(()) => {
                    &&& old(self)@.review_refusal(caller, task_id) is None
                    &&& final(self)@ == old(self)@.reviewed(task_id, rating)
                },
                Err(e) => {
                    &&& old(self)@.review_refusal(caller, task_id) == Some(e)
                    &&& final(self)@ == old(self)@
                },
            },
    {
        proof {
            self.lemma_stored();
        }
        if caller != self.manager {
            return Err(Error::UnAuthorized);
        }
        let mut task = match self.task_by_id.get(&task_id) {
            Some(task) => task.clone(),
            None => {
                return Err(Error::TaskNotFound);
            },
        };
        match task.status {
            TaskStatus::Completed => Err(Error::AlreadyReviewed),
            TaskStatus::InReview => {
                task.performance_rating = Some(rating);
                task.status = TaskStatus::Completed;
                self.task_by_id.insert(task_id, task);
                proof {
                    let expected = old(self)@.reviewed(task_id, rating);
                    assert(self@.task_by_id =~= expected.task_by_id);
                    assert(self@ == expected);
                }
                Ok(())
            },
            _ => Ok(()),
        }
    }

    /// Whether `member` may vote on the deadline of task `task_id`: whether
    /// it is assigned to the task or, unless `check_task_only`, to one of its
    /// direct children. A task without a list of members is not found.
    pub fn try_check_voters_for_deadline_extension(
        &self,
        task_id: u16,
        member: AccountId,
        check_task_only: bool,
    ) -> (r: Result<bool, Error>)
        requires
            self.wf(),
        ensures
            match r {
                Ok(b) => self@.members_in_task.dom().contains(task_id) && b
                    == self@.may_vote_on_deadline(task_id, member, check_task_only),
                Err(e) => !self@.members_in_task.dom().contains(task_id) && e
                    == Error::TaskNotFound,
            },
    {
        proof {
            self.lemma_stored();
        }
        let members = match self.members_in_task.get(&task_id) {
            Some(members) => members,
            None => {
                return Err(Error::TaskNotFound);
            },
        };
        if account_position(members, &member).is_some() {
            return Ok(true);
        }
        if check_task_only {
            return Ok(false);
        }
        match self.task_by_id.get(&task_id) {
            Some(task) => {
                let mut i: usize = 0;
                while i < task.children_task.len()
                    invariant
                        self.wf(),
                        i <= task.children_task@.len(),
                        self@.members_in_task.dom().contains(task_id),
                        !check_task_only,
                        task.children_task@ == self@.children_of(task_id),
                        forall|j: int|
                            0 <= j < i ==> !self@.works_on(
                                #[trigger] self@.children_of(task_id)[j],
                                member,
                            ),
                    decreases task.children_task@.len() - i,
                {
                    proof {
                        self.lemma_stored();
                    }
                    let child = task.children_task[i];
                    match self.members_in_task.get(&child) {
                        Some(child_members) => {
                            if account_position(child_members, &member).is_some() {
                                assert(self@.works_on(self@.children_of(task_id)[i as int], member));
                                assert(self@.may_vote_on_deadline(task_id, member, check_task_only));
                                return Ok(true);
                            }
                        },
                        None => {},
                    }
                    i += 1;
                }
                Ok(false)
            },
            None => Ok(false),
        }
    }

    /// Whether task `task_id` can end at `completion_time`: whether each of
    /// its direct children ends strictly later.
    pub fn is_possible_deadline(&self, task_id: u16, completion_time: Timestamp) -> (r: Result<
        bool,
        Error,
    >)
        requires
            self.wf(),
        ensures
            match r {
                Ok(b) => self@.task_by_id.dom().contains(task_id) && b == self@.deadline_feasible(
                    task_id,
                    completion_time,
                ),
                Err(e) => !self@.task_by_id.dom().contains(task_id) && e == Error::TaskNotFound,
            },
    {
        proof {
            self.lemma_stored();
        }
        match self.task_by_id.get(&task_id) {
            Some(task) => Ok(self.check_neighbour_deadline(task, completion_time)),
            None => Err(Error::TaskNotFound),
        }
    }

    /// Whether each child of `task` that is a task of the project ends
    /// strictly later than `endtime`.
    pub fn check_neighbour_deadline(&self, task: &Task, endtime: Timestamp) -> (r: bool)
        requires
            self.wf(),
        ensures
            r == forall|i: int|
                0 <= i < task@.children_task.len() && self@.task_by_id.dom().contains(
                    #[trigger] task@.children_task[i],
                ) ==> self@.task_by_id[task@.children_task[i]].end_time > endtime,
    {
        let mut is_possible = true;
        let mut i: usize = 0;
        while i < task.children_task.len()
            invariant
                self.wf(),
                i <= task.children_task@.len(),
                is_possible == forall|j: int|
                    0 <= j < i && self@.task_by_id.dom().contains(
                        #[trigger] task@.children_task[j],
                    ) ==> self@.task_by_id[task@.children_task[j]].end_time > endtime,
            decreases task.children_task@.len() - i,
        {
            proof {
                self.lemma_stored();
            }
            let child = task.children_task[i];
            match self.task_by_id.get(&child) {
                Some(child_task) => {
                    if child_task.end_time <= endtime {
                        is_possible = false;
                    }
                },
                None => {},
            }
            i += 1;
        }
        is_possible
    }

    /// Gives task `task_id` the end time `completion_time` and tells the
    /// tasks that wait for it. Whether the end time is feasible was settled
    /// when the extension was proposed; here it is only carried out.
    pub fn try_extend_task_deadline(
        &mut self,
        caller: AccountId,
        task_id: u16,
        completion_time: Timestamp,
    ) -> (r: Result<(), Error>)
        requires
            old(self).wf(),
        ensures
            final(self).wf(),
            match r {
                Ok(()) => {
                    &&& old(self)@.extension_refusal(caller, task_id) is None
                    &&& final(self)@ == old(self)@.extended(task_id, completion_time)
                },
                Err(e) => {
                    &&& old(self)@.extension_refusal(caller, task_id) == Some(e)
                    &&& final(self)@ == old(self)@
                },
            },
    {
        proof {
            self.lemma_stored();
        }
        if !is_account(&self.project_proposal_address, &caller) {
            return Err(Error::UnAuthorized);
        }
        let mut task = match self.task_by_id.get(&task_id) {
            Some(task) => task.clone(),
            None => {
                return Err(Error::TaskNotFound);
            },
        };
        task.end_time = completion_time;
        self.task_by_id.insert(task_id, task);
        proof {
            assert(self@.task_by_id =~= old(self)@.task_by_id.insert(
                task_id,
                TaskView { end_time: completion_time, ..old(self)@.task_by_id[task_id] },
            ));
        }
        self.build_deadline_graph(task_id);
        Ok(())
    }

    /// Tells the tasks that wait for `root_task` when it ends, and so on down
    /// the graph: see [`propagated`]. Start times only move forward, and a
    /// second run changes nothing.
    pub fn build_deadline_graph(&mut self, root_task: u16)
        requires
            old(self).wf(),
        ensures
            final(self).wf(),
            final(self)@ == (ProjectState {
                task_by_id: propagated(old(self)@.task_by_id, root_task),
                ..old(self)@
            }),
    {
        propagate_deadlines(&mut self.task_by_id, root_task);
    }

    /// Those who applied and are not yet accepted, in order of application.
    pub fn show_interested_members_list(&self) -> (r: Vec<AccountId>)
        ensures
            r@ == self@.interested_members,
    {
        self.interested_members.clone()
    }

    /// The members, in order of acceptance.
    pub fn show_members_list(&self) -> (r: Vec<AccountId>)
        ensures
            r@ == self@.member_list,
    {
        self.member_list.clone()
    }

    /// Whether `address` is a member.
    pub fn check_member(&self, address: AccountId) -> (r: bool)
        requires
            self.wf(),
        ensures
            r == self@.members_info.dom().contains(address),
    {
        self.members_info.contains_key(&address)
    }

    /// The number of members.
    pub fn total_members(&self) -> (r: u64)
        requires
            self.wf(),
        ensures
            r == self@.member_list.len(),
    {
        self.curr_member_count
    }

    /// The members assigned to task `task_id`; none for a task without a list.
    pub fn get_task_members(&self, task_id: u16) -> (r: Vec<AccountId>)
        requires
            self.wf(),
        ensures
            r@ == if self@.members_in_task.dom().contains(task_id) {
                self@.members_in_task[task_id]
            } else {
                Seq::empty()
            },
    {
        proof {
            self.lemma_stored();
        }
        match self.members_in_task.get(&task_id) {
            Some(assigned_members) => assigned_members.clone(),
            None => Vec::new(),
        }
    }

    /// The tasks handed in for review, in order.
    pub fn get_review_task(&self) -> (r: Vec<u16>)
        ensures
            r@ == self@.review_tasks,
    {
        self.review_tasks.clone()
    }

    /// The tasks without predecessors, in the order in which they came.
    pub fn get_root_tasks(&self) -> (r: Vec<u16>)
        ensures
            r@ == self@.root_tasks,
    {
        self.root_tasks.clone()
    }

    /// Task `task_id` as it stands.
    pub fn get_task(&self, task_id: u16) -> (r: Result<Task, Error>)
        requires
            self.wf(),
        ensures
            match r {
                Ok(task) => self@.task_by_id.dom().contains(task_id) && task@
                    == self@.task_by_id[task_id],
                Err(e) => !self@.task_by_id.dom().contains(task_id) && e == Error::TaskNotFound,
            },
    {
        proof {
            self.lemma_stored();
        }
        match self.task_by_id.get(&task_id) {
            Some(task) => Ok(task.clone()),
            None => Err(Error::TaskNotFound),
        }
    }

    /// The two dates between which the project runs, once it has accepted an
    /// approach.
    pub fn get_deadline(&self) -> (r: Option<DeadLine>)
        ensures
            r == self@.deadline,
    {
        self.deadline
    }

    /// The funds allocated to the project.
    pub fn total_fund_allocated(&self) -> (r: Balance)
        ensures
            r == self@.total_fund_allocated,
    {
        self.total_fund_allocated
    }
}

} // verus!
