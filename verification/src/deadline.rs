//! How a changed end time moves the start times of the tasks that wait.
//!
//! A task cannot start before the tasks it waits for have ended. When the end
//! of a task moves, its children are told, and whoever starts later for that
//! reason tells its own children in turn. Start times only move forward.

use vstd::prelude::*;
use crate::account::Timestamp;
use crate::graph::{
    lemma_closed_set_holds_reached,
    lemma_reaches_itself,
    lemma_reaches_one_more,
    reaches,
    tasks_of,
};
use crate::table::Table;
use crate::task::{Task, TaskView};

verus! {

/// Whether a task with this start time would have to start later if it had
/// to wait until `time`: it has no start time, or one before `time`.
pub open spec fn starts_before(start: Option<Timestamp>, time: Timestamp) -> bool {
    start is None || start.unwrap() < time
}

/// Whether `child` is a task that `parent`, a task too, lists as a child.
pub open spec fn waits_for(tasks: Map<u16, TaskView>, parent: u16, child: u16) -> bool {
    &&& tasks.dom().contains(parent)
    &&& tasks.dom().contains(child)
    &&& tasks[parent].children_task.contains(child)
}

/// The relation "`parent` moves `child`": `child` waits for `parent` and
/// starts before `parent` ends.
pub open spec fn moves(tasks: Map<u16, TaskView>) -> spec_fn(u16, u16) -> bool {
    |parent: u16, child: u16|
        waits_for(tasks, parent, child) && starts_before(
            tasks[child].start_time,
            tasks[parent].end_time,
        )
}

/// Whether the propagation from `root` makes `parent` move `child`: the
/// moves lead from `root` to `parent`, and `parent` moves `child`.
pub open spec fn pushes(tasks: Map<u16, TaskView>, root: u16, parent: u16, child: u16) -> bool {
    reaches(moves(tasks), root, parent) && moves(tasks)(parent, child)
}

/// Whether `time` is the latest end among the tasks that push `child`.
pub open spec fn is_latest_push(tasks: Map<u16, TaskView>, root: u16, child: u16, time: Timestamp) -> bool {
    &&& exists|parent: u16| #[trigger]
        pushes(tasks, root, parent, child) && tasks[parent].end_time == time
    &&& forall|parent: u16| #[trigger]
        pushes(tasks, root, parent, child) ==> tasks[parent].end_time <= time
}

/// The start time of `child` after the propagation from `root`: the latest
/// end among the tasks that push it, or its own start time if none does.
pub open spec fn propagated_start(tasks: Map<u16, TaskView>, root: u16, child: u16) -> Option<
    Timestamp,
> {
    if exists|parent: u16| #[trigger] pushes(tasks, root, parent, child) {
        Some(choose|time: Timestamp| is_latest_push(tasks, root, child, time))
    } else {
        tasks[child].start_time
    }
}

/// The tasks after the propagation from `root`: the same tasks, each with
/// its propagated start time and nothing else changed.
pub open spec fn propagated(tasks: Map<u16, TaskView>, root: u16) -> Map<u16, TaskView> {
    Map::new(
        |id: u16| tasks.dom().contains(id),
        |id: u16| TaskView { start_time: propagated_start(tasks, root, id), ..tasks[id] },
    )
}

// ---------------------------------------------------------------------------
// Why the propagation ends: each move takes one from a finite stock.
// ---------------------------------------------------------------------------

spec fn could_move(tasks: Map<u16, TaskView>, parent: u16, child: u16) -> bool {
    &&& tasks.dom().contains(parent)
    &&& tasks.dom().contains(child)
    &&& starts_before(tasks[child].start_time, tasks[parent].end_time)
}

spec fn movers(tasks: Map<u16, TaskView>, child: u16, n: nat) -> nat
    decreases n,
{
    if n == 0 {
        0
    } else {
        movers(tasks, child, (n - 1) as nat) + if could_move(tasks, (n - 1) as u16, child) {
            1nat
        } else {
            0nat
        }
    }
}

spec fn stock(tasks: Map<u16, TaskView>, n: nat) -> nat
    decreases n,
{
    if n == 0 {
        0
    } else {
        stock(tasks, (n - 1) as nat) + movers(tasks, (n - 1) as u16, 65536)
    }
}

spec fn moved(tasks: Map<u16, TaskView>, child: u16, time: Timestamp) -> Map<u16, TaskView> {
    tasks.insert(child, TaskView { start_time: Some(time), ..tasks[child] })
}

proof fn lemma_movers_of_moved(
    tasks: Map<u16, TaskView>,
    parent: u16,
    child: u16,
    n: nat,
)
    requires
        could_move(tasks, parent, child),
        n <= 65536,
    ensures
        movers(moved(tasks, child, tasks[parent].end_time), child, n) + if parent < n {
            1nat
        } else {
            0nat
        } <= movers(tasks, child, n),
    decreases n,
{
    if n > 0 {
        lemma_movers_of_moved(tasks, parent, child, (n - 1) as nat);
        let after = moved(tasks, child, tasks[parent].end_time);
        let p = (n - 1) as u16;
        assert(after[p].end_time == tasks[p].end_time);
        if could_move(after, p, child) {
            assert(could_move(tasks, p, child));
        }
        if p == parent {
            assert(!could_move(after, p, child));
        }
    }
}

proof fn lemma_movers_of_other(
    tasks: Map<u16, TaskView>,
    child: u16,
    time: Timestamp,
    other: u16,
    n: nat,
)
    requires
        tasks.dom().contains(child),
        other != child,
        n <= 65536,
    ensures
        movers(moved(tasks, child, time), other, n) == movers(tasks, other, n),
    decreases n,
{
    if n > 0 {
        lemma_movers_of_other(tasks, child, time, other, (n - 1) as nat);
        let after = moved(tasks, child, time);
        let p = (n - 1) as u16;
        assert(after[p].end_time == tasks[p].end_time);
        assert(after.dom().contains(p) == tasks.dom().contains(p));
    }
}

proof fn lemma_stock_of_moved(tasks: Map<u16, TaskView>, parent: u16, child: u16, n: nat)
    requires
        could_move(tasks, parent, child),
        n <= 65536,
    ensures
        stock(moved(tasks, child, tasks[parent].end_time), n) + if child < n {
            1nat
        } else {
            0nat
        } <= stock(tasks, n),
    decreases n,
{
    if n > 0 {
        lemma_stock_of_moved(tasks, parent, child, (n - 1) as nat);
        let c = (n - 1) as u16;
        if c == child {
            lemma_movers_of_moved(tasks, parent, child, 65536);
        } else {
            lemma_movers_of_other(tasks, child, tasks[parent].end_time, c, 65536);
        }
    }
}

// ---------------------------------------------------------------------------
// What holds while the propagation runs.
// ---------------------------------------------------------------------------

/// `now` differs from `first` in start times only, and no start time went back.
spec fn only_starts_moved(first: Map<u16, TaskView>, now: Map<u16, TaskView>) -> bool {
    &&& forall|id: u16| #[trigger] now.dom().contains(id) == first.dom().contains(id)
    &&& forall|id: u16| #[trigger]
        first.dom().contains(id) ==> now[id] == TaskView {
            start_time: now[id].start_time,
            ..first[id]
        }
    &&& forall|id: u16, time: Timestamp|
        first.dom().contains(id) && #[trigger] starts_before(now[id].start_time, time)
            ==> starts_before(first[id].start_time, time)
}

/// Each start time that moved is the end of a queued task that moves it.
spec fn moves_justified(first: Map<u16, TaskView>, now: Map<u16, TaskView>, queue: Seq<u16>) -> bool {
    forall|id: u16| #[trigger]
        first.dom().contains(id) ==> now[id].start_time == first[id].start_time || exists|i: int|
            0 <= i < queue.len() && #[trigger] moves(first)(queue[i], id) && now[id].start_time
                == Some(first[queue[i]].end_time)
}

/// No child of `parent` starts before `parent` ends.
spec fn settled(first: Map<u16, TaskView>, now: Map<u16, TaskView>, parent: u16) -> bool {
    forall|child: u16| #[trigger]
        waits_for(first, parent, child) ==> !starts_before(
            now[child].start_time,
            first[parent].end_time,
        )
}

spec fn running(
    first: Map<u16, TaskView>,
    now: Map<u16, TaskView>,
    queue: Seq<u16>,
    head: int,
    root: u16,
) -> bool {
    &&& 0 <= head <= queue.len()
    &&& queue.len() >= 1
    &&& queue[0] == root
    &&& only_starts_moved(first, now)
    &&& moves_justified(first, now, queue)
    &&& forall|i: int| 0 <= i < queue.len() ==> reaches(moves(first), root, #[trigger] queue[i])
    &&& forall|i: int| 0 <= i < head ==> settled(first, now, #[trigger] queue[i])
    &&& forall|id: u16| #[trigger]
        first.dom().contains(id) && now[id].start_time != first[id].start_time ==> queue.contains(
            id,
        )
}

proof fn lemma_done(first: Map<u16, TaskView>, now: Map<u16, TaskView>, queue: Seq<u16>, root: u16)
    requires
        running(first, now, queue, queue.len() as int, root),
    ensures
        now == propagated(first, root),
{
    let edge = moves(first);
    let visited = Set::new(|id: u16| queue.contains(id));
    assert(queue[0] == root);
    assert(visited.contains(root));
    assert forall|a: u16, b: u16| visited.contains(a) && #[trigger] edge(a, b) implies visited.contains(
        b,
    ) by {
        let i = choose|i: int| 0 <= i < queue.len() && queue[i] == a;
        assert(settled(first, now, queue[i]));
        assert(waits_for(first, a, b));
        assert(!starts_before(now[b].start_time, first[a].end_time));
        assert(now[b].start_time != first[b].start_time);
    }
    assert forall|id: u16| first.dom().contains(id) implies now[id] == propagated(first, root)[id] by {
        if exists|parent: u16| #[trigger] pushes(first, root, parent, id) {
            let parent = choose|parent: u16| #[trigger] pushes(first, root, parent, id);
            // every task that pushes `id` is settled
            assert forall|p: u16| #[trigger] pushes(first, root, p, id) implies !starts_before(
                now[id].start_time,
                first[p].end_time,
            ) by {
                lemma_closed_set_holds_reached(edge, visited, root, p);
                let i = choose|i: int| 0 <= i < queue.len() && queue[i] == p;
                assert(settled(first, now, queue[i]));
                assert(waits_for(first, p, id));
            }
            assert(!starts_before(now[id].start_time, first[parent].end_time));
            assert(now[id].start_time != first[id].start_time);
            let i = choose|i: int|
                0 <= i < queue.len() && #[trigger] moves(first)(queue[i], id) && now[id].start_time
                    == Some(first[queue[i]].end_time);
            let time = first[queue[i]].end_time;
            assert(pushes(first, root, queue[i], id));
            assert(is_latest_push(first, root, id, time));
            let chosen = choose|t: Timestamp| is_latest_push(first, root, id, t);
            assert(is_latest_push(first, root, id, chosen));
            let witness = choose|p: u16| #[trigger]
                pushes(first, root, p, id) && first[p].end_time == chosen;
            assert(chosen == time);
        } else {
            if now[id].start_time != first[id].start_time {
                let i = choose|i: int|
                    0 <= i < queue.len() && #[trigger] moves(first)(queue[i], id)
                        && now[id].start_time == Some(first[queue[i]].end_time);
                assert(pushes(first, root, queue[i], id));
            }
        }
    }
    assert(now =~= propagated(first, root));
}

/// Tells the children of `root_task` when it ends, and so on down the graph.
///
/// Breadth first, starting at `root_task`: the end of each task visited is
/// the earliest start of each of its children; a child that has no start
/// time, or an earlier one, is given that start and is visited in turn. No
/// start time ever moves back, nothing but start times changes, and a second
/// run from the same task changes nothing.
pub fn propagate_deadlines(task_by_id: &mut Table<u16, Task>, root_task: u16)
    requires
        old(task_by_id).wf(),
    ensures
        final(task_by_id).wf(),
        tasks_of(final(task_by_id)@) == propagated(tasks_of(old(task_by_id)@), root_task),
{
    let ghost first = tasks_of(task_by_id@);
    let mut queue: Vec<u16> = Vec::new();
    queue.push(root_task);
    let ghost budget = stock(first, 65536) + 1;
    let mut head: usize = 0;
    proof {
        lemma_reaches_itself(moves(first), root_task);
    }
    while head < queue.len()
        invariant
            task_by_id.wf(),
            running(first, tasks_of(task_by_id@), queue@, head as int, root_task),
            stock(tasks_of(task_by_id@), 65536) + queue@.len() <= budget,
        decreases budget - head,
    {
        let u = queue[head];
        let visited = match task_by_id.get(&u) {
            Some(u_task) => Some((u_task.end_time, u_task.children_task.clone())),
            None => None,
        };
        match visited {
            Some((start_time, neighbour)) => {
                proof {
                    let now = tasks_of(task_by_id@);
                    assert(now.dom().contains(u));
                    assert(first.dom().contains(u));
                    assert(now[u] == TaskView { start_time: now[u].start_time, ..first[u] });
                }
                let mut k: usize = 0;
                while k < neighbour.len()
                    invariant
                        task_by_id.wf(),
                        head < queue@.len(),
                        u == queue@[head as int],
                        first.dom().contains(u),
                        first[u].end_time == start_time,
                        first[u].children_task == neighbour@,
                        k <= neighbour@.len(),
                        running(first, tasks_of(task_by_id@), queue@, head as int, root_task),
                        stock(tasks_of(task_by_id@), 65536) + queue@.len() <= budget,
                        forall|j: int|
                            0 <= j < k && first.dom().contains(#[trigger] neighbour@[j])
                                ==> !starts_before(
                                tasks_of(task_by_id@)[neighbour@[j]].start_time,
                                start_time,
                            ),
                    decreases neighbour@.len() - k,
                {
                    let id = neighbour[k];
                    let ghost now = tasks_of(task_by_id@);
                    let ghost before = queue@;
                    let update = match task_by_id.get(&id) {
                        Some(child_task) => {
                            let late = match child_task.start_time {
                                None => true,
                                Some(start) => start < start_time,
                            };
                            if late {
                                let mut child_task = child_task.clone();
                                child_task.start_time = Some(start_time);
                                Some(child_task)
                            } else {
                                None
                            }
                        },
                        None => None,
                    };
                    match update {
                        Some(child_task) => {
                            task_by_id.insert(id, child_task);
                            queue.push(id);
                            proof {
                                let next = tasks_of(task_by_id@);
                                assert(next =~= moved(now, id, now[u].end_time));
                                assert(could_move(now, u, id));
                                lemma_stock_of_moved(now, u, id, 65536);
                                assert(neighbour@.contains(id));
                                assert(waits_for(first, u, id));
                                assert(starts_before(now[id].start_time, start_time));
                                assert(moves(first)(u, id));
                                lemma_reaches_one_more(moves(first), root_task, u, id);
                                assert(queue@[before.len() as int] == id);
                                assert(queue@[head as int] == u);
                                assert forall|i: int| 0 <= i < before.len() implies queue@[i]
                                    == before[i] by {}
                                assert(only_starts_moved(first, next));
                                assert forall|t: u16| #[trigger]
                                    first.dom().contains(t) implies next[t].start_time
                                    == first[t].start_time || exists|i: int|
                                    0 <= i < queue@.len() && #[trigger] moves(first)(
                                        queue@[i],
                                        t,
                                    ) && next[t].start_time == Some(first[queue@[i]].end_time) by {
                                    if t == id {
                                        assert(moves(first)(queue@[head as int], t));
                                    } else if now[t].start_time != first[t].start_time {
                                        let i = choose|i: int|
                                            0 <= i < before.len() && #[trigger] moves(first)(
                                                before[i],
                                                t,
                                            ) && now[t].start_time == Some(
                                                first[before[i]].end_time,
                                            );
                                        assert(moves(first)(queue@[i], t));
                                    }
                                }
                                assert forall|i: int| 0 <= i < head implies settled(
                                    first,
                                    next,
                                    #[trigger] queue@[i],
                                ) by {
                                    assert(settled(first, now, before[i]));
                                    assert forall|child: u16| #[trigger]
                                        waits_for(first, queue@[i], child) implies !starts_before(
                                        next[child].start_time,
                                        first[queue@[i]].end_time,
                                    ) by {
                                        assert(!starts_before(
                                            now[child].start_time,
                                            first[before[i]].end_time,
                                        ));
                                    }
                                }
                                assert forall|t: u16| #[trigger]
                                    first.dom().contains(t) && next[t].start_time
                                        != first[t].start_time implies queue@.contains(t) by {
                                    if t == id {
                                        assert(queue@[before.len() as int] == t);
                                    } else {
                                        assert(before.contains(t));
                                        let i = choose|i: int|
                                            0 <= i < before.len() && before[i] == t;
                                        assert(queue@[i] == t);
                                    }
                                }
                                assert forall|i: int| 0 <= i < queue@.len() implies reaches(
                                    moves(first),
                                    root_task,
                                    #[trigger] queue@[i],
                                ) by {
                                    if i < before.len() {
                                        assert(queue@[i] == before[i]);
                                    }
                                }
                            }
                        },
                        None => {},
                    }
                    proof {
                        let next = tasks_of(task_by_id@);
                        assert(now.dom().contains(id) == first.dom().contains(id));
                        assert forall|j: int|
                            0 <= j < k + 1 && first.dom().contains(
                                #[trigger] neighbour@[j],
                            ) implies !starts_before(
                            next[neighbour@[j]].start_time,
                            start_time,
                        ) by {
                            if neighbour@[j] != id {
                                assert(next[neighbour@[j]] == now[neighbour@[j]]);
                            }
                        }
                    }
                    k += 1;
                }
                proof {
                    let now = tasks_of(task_by_id@);
                    assert forall|child: u16| #[trigger]
                        waits_for(first, u, child) implies !starts_before(
                        now[child].start_time,
                        first[u].end_time,
                    ) by {
                        let j = choose|j: int|
                            0 <= j < neighbour@.len() && neighbour@[j] == child;
                        assert(first.dom().contains(neighbour@[j]));
                    }
                    assert(settled(first, now, u));
                }
            },
            None => {
                assert(settled(first, tasks_of(task_by_id@), u));
            },
        }
        head += 1;
    }
    proof {
        lemma_done(first, tasks_of(task_by_id@), queue@, root_task);
    }
}

proof fn lemma_latest_below(tasks: Map<u16, TaskView>, root: u16, child: u16, n: nat) -> (r: Option<
    u16,
>)
    requires
        n <= 65536,
    ensures
        match r {
            Some(best) => best < n && pushes(tasks, root, best, child) && forall|p: u16|
                p < n && #[trigger] pushes(tasks, root, p, child) ==> tasks[p].end_time
                    <= tasks[best].end_time,
            None => forall|p: u16| p < n ==> !#[trigger] pushes(tasks, root, p, child),
        },
    decreases n,
{
    if n == 0 {
        None
    } else {
        let below = lemma_latest_below(tasks, root, child, (n - 1) as nat);
        let p = (n - 1) as u16;
        if pushes(tasks, root, p, child) {
            match below {
                Some(best) => if tasks[best].end_time < tasks[p].end_time {
                    Some(p)
                } else {
                    below
                },
                None => Some(p),
            }
        } else {
            below
        }
    }
}

/// Where a task is pushed at all, the latest push exists, and is its
/// propagated start.
pub proof fn lemma_latest_push_exists(tasks: Map<u16, TaskView>, root: u16, child: u16)
    requires
        exists|parent: u16| #[trigger] pushes(tasks, root, parent, child),
    ensures
        propagated_start(tasks, root, child) is Some,
        is_latest_push(tasks, root, child, propagated_start(tasks, root, child).unwrap()),
{
    let best = lemma_latest_below(tasks, root, child, 65536);
    let parent = choose|parent: u16| #[trigger] pushes(tasks, root, parent, child);
    assert(best is Some);
    assert(is_latest_push(tasks, root, child, tasks[best.unwrap()].end_time));
}

/// The propagation changes start times only, and moves none back: a task
/// that would have had to wait until `time` before has to wait no less after.
pub proof fn lemma_propagation_moves_forward(
    tasks: Map<u16, TaskView>,
    root: u16,
    id: u16,
    time: Timestamp,
)
    requires
        tasks.dom().contains(id),
    ensures
        propagated(tasks, root).dom() == tasks.dom(),
        propagated(tasks, root)[id] == (TaskView {
            start_time: propagated_start(tasks, root, id),
            ..tasks[id]
        }),
        starts_before(propagated_start(tasks, root, id), time) ==> starts_before(
            tasks[id].start_time,
            time,
        ),
{
    assert(propagated(tasks, root).dom() =~= tasks.dom());
    if exists|parent: u16| #[trigger] pushes(tasks, root, parent, id) {
        lemma_latest_push_exists(tasks, root, id);
        let latest = propagated_start(tasks, root, id).unwrap();
        let parent = choose|parent: u16| #[trigger]
            pushes(tasks, root, parent, id) && tasks[parent].end_time == latest;
        assert(starts_before(tasks[id].start_time, tasks[parent].end_time));
    }
}

/// After the propagation from `root`, no task that waits for `root` starts
/// before `root` ends. A task that started earlier, or had no start, and that
/// no task pushes which ends later than `root`, starts exactly when `root`
/// ends.
pub proof fn lemma_children_wait_for_root(tasks: Map<u16, TaskView>, root: u16, child: u16)
    requires
        waits_for(tasks, root, child),
    ensures
        !starts_before(propagated_start(tasks, root, child), tasks[root].end_time),
        starts_before(tasks[child].start_time, tasks[root].end_time) && (forall|parent: u16| #[trigger]
            pushes(tasks, root, parent, child) ==> tasks[parent].end_time <= tasks[root].end_time)
            ==> propagated_start(tasks, root, child) == Some(tasks[root].end_time),
{
    lemma_reaches_itself(moves(tasks), root);
    if starts_before(tasks[child].start_time, tasks[root].end_time) {
        assert(pushes(tasks, root, root, child));
        lemma_latest_push_exists(tasks, root, child);
    } else {
        lemma_propagation_moves_forward(tasks, root, child, tasks[root].end_time);
    }
}

/// After the propagation from `root`, no task that waits for a task that
/// the propagation visited starts before that task ends.
pub proof fn lemma_visited_are_settled(tasks: Map<u16, TaskView>, root: u16, parent: u16, child: u16)
    requires
        reaches(moves(tasks), root, parent),
        waits_for(tasks, parent, child),
    ensures
        !starts_before(propagated_start(tasks, root, child), tasks[parent].end_time),
{
    if starts_before(tasks[child].start_time, tasks[parent].end_time) {
        assert(pushes(tasks, root, parent, child));
        lemma_latest_push_exists(tasks, root, child);
    } else {
        lemma_propagation_moves_forward(tasks, root, child, tasks[parent].end_time);
    }
}

/// The propagation is idempotent: a second run from the same task, with no
/// end time changed in between, changes nothing.
pub proof fn lemma_propagation_idempotent(tasks: Map<u16, TaskView>, root: u16)
    ensures
        propagated(propagated(tasks, root), root) == propagated(tasks, root),
{
    let once = propagated(tasks, root);
    let alone = set![root];
    assert forall|a: u16, b: u16| alone.contains(a) && #[trigger] moves(once)(a, b) implies alone.contains(
        b,
    ) by {
        lemma_reaches_itself(moves(tasks), root);
        assert(waits_for(tasks, root, b));
        lemma_visited_are_settled(tasks, root, root, b);
    }
    assert forall|id: u16| once.dom().contains(id) implies propagated(once, root)[id]
        == once[id] by {
        if exists|parent: u16| #[trigger] pushes(once, root, parent, id) {
            let parent = choose|parent: u16| #[trigger] pushes(once, root, parent, id);
            lemma_closed_set_holds_reached(moves(once), alone, root, parent);
            assert(parent == root);
            lemma_reaches_itself(moves(tasks), root);
            assert(waits_for(tasks, root, id));
            lemma_visited_are_settled(tasks, root, root, id);
            assert(false);
        }
    }
    assert(propagated(once, root) =~= once);
}

} // verus!
