//! Tasks, and the approach that a project accepts: a list of tasks with the
//! two dates between which the project runs.

use vstd::prelude::*;
use crate::account::Timestamp;

verus! {

/// How far a task has come.
#[derive(Clone, Copy, Debug, PartialEq, Eq, Structural)]
pub enum TaskStatus {
    NotYetStarted,
    /// Under way, with the progress in percent.
    Running(u8),
    InReview,
    Completed,
}

/// One task of a project.
///
/// `start_after` names the tasks that must be finished before this one
/// starts; `children_task` names the tasks that wait for this one.
#[derive(Debug, PartialEq, Eq)]
pub struct Task {
    pub task_id: u16,
    pub start_after: Vec<u16>,
    pub start_time: Option<Timestamp>,
    pub end_time: Timestamp,
    pub status: TaskStatus,
    pub performance_rating: Option<u8>,
    pub details: Vec<String>,
    pub children_task: Vec<u16>,
}

/// The mathematical content of a [`Task`].
pub struct TaskView {
    pub task_id: u16,
    pub start_after: Seq<u16>,
    pub start_time: Option<Timestamp>,
    pub end_time: Timestamp,
    pub status: TaskStatus,
    pub performance_rating: Option<u8>,
    pub details: Seq<String>,
    pub children_task: Seq<u16>,
}

impl View for Task {
    type V = TaskView;

    open spec fn view(&self) -> TaskView {
        TaskView {
            task_id: self.task_id,
            start_after: self.start_after@,
            start_time: self.start_time,
            end_time: self.end_time,
            status: self.status,
            performance_rating: self.performance_rating,
            details: self.details@,
            children_task: self.children_task@,
        }
    }
}

impl Clone for Task {
    fn clone(&self) -> (r: Self)
        ensures
            r@ == self@,
    {
        Task {
            task_id: self.task_id,
            start_after: self.start_after.clone(),
            start_time: self.start_time,
            end_time: self.end_time,
            status: self.status,
            performance_rating: self.performance_rating,
            details: self.details.clone(),
            children_task: self.children_task.clone(),
        }
    }
}

/// The views of a list of tasks, in order.
pub open spec fn task_views(tasks: Seq<Task>) -> Seq<TaskView> {
    tasks.map_values(|t: Task| t@)
}

/// The approach that a project accepts after a vote.
#[derive(Debug, PartialEq, Eq)]
pub struct AcceptedApproach {
    pub project_start_date: Timestamp,
    pub project_completion_date: Timestamp,
    pub tasks: Vec<Task>,
}

/// The mathematical content of an [`AcceptedApproach`].
pub struct ApproachView {
    pub project_start_date: Timestamp,
    pub project_completion_date: Timestamp,
    pub tasks: Seq<TaskView>,
}

impl View for AcceptedApproach {
    type V = ApproachView;

    open spec fn view(&self) -> ApproachView {
        ApproachView {
            project_start_date: self.project_start_date,
            project_completion_date: self.project_completion_date,
            tasks: task_views(self.tasks@),
        }
    }
}

/// A copy of `tasks`.
pub fn clone_tasks(tasks: &Vec<Task>) -> (r: Vec<Task>)
    ensures
        task_views(r@) == task_views(tasks@),
{
    let mut r: Vec<Task> = Vec::new();
    let mut i: usize = 0;
    while i < tasks.len()
        invariant
            i <= tasks@.len(),
            r@.len() == i,
            forall|j: int| 0 <= j < i ==> r@[j]@ == tasks@[j]@,
        decreases tasks@.len() - i,
    {
        r.push(tasks[i].clone());
        i += 1;
    }
    assert(task_views(r@) =~= task_views(tasks@));
    r
}

impl Clone for AcceptedApproach {
    fn clone(&self) -> (r: Self)
        ensures
            r@ == self@,
    {
        AcceptedApproach {
            project_start_date: self.project_start_date,
            project_completion_date: self.project_completion_date,
            tasks: clone_tasks(&self.tasks),
        }
    }
}

/// The two dates between which a project runs. A project has them from the
/// approach it accepted, and accepts no second one.
#[derive(Clone, Copy, Debug, PartialEq, Eq, Structural)]
pub struct DeadLine {
    pub project_start_date: Timestamp,
    pub project_completion_date: Timestamp,
}

/// Whether `id` occurs in `ids`.
pub fn contains_id(ids: &Vec<u16>, id: u16) -> (r: bool)
    ensures
        r == ids@.contains(id),
{
    let mut i: usize = 0;
    while i < ids.len()
        invariant
            i <= ids@.len(),
            forall|j: int| 0 <= j < i ==> ids@[j] != id,
        decreases ids@.len() - i,
    {
        if ids[i] == id {
            return true;
        }
        i += 1;
    }
    false
}

} // verus!
