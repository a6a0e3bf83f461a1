//! Walks over a relation between task ids, and the breadth-first search for
//! a redundant predecessor.

use vstd::prelude::*;
use crate::table::Table;
use crate::task::{contains_id, task_views, Task, TaskView};

verus! {

/// The mathematical content of a table of tasks: each id with its task.
pub open spec fn tasks_of(table: Map<u16, Task>) -> Map<u16, TaskView> {
    table.map_values(|t: Task| t@)
}

/// Whether `walk` is a non-empty list of ids in which each is related to the
/// next.
pub open spec fn is_walk(edge: spec_fn(u16, u16) -> bool, walk: Seq<u16>) -> bool {
    &&& walk.len() >= 1
    &&& forall|i: int| 0 <= i < walk.len() - 1 ==> edge(#[trigger] walk[i], walk[i + 1])
}

/// Whether a walk leads from `from` to `to`; every id reaches itself.
pub open spec fn reaches(edge: spec_fn(u16, u16) -> bool, from: u16, to: u16) -> bool {
    exists|walk: Seq<u16>| #[trigger] is_walk(edge, walk) && walk[0] == from && walk.last() == to
}

/// A set that holds `from` and with each id all that it is related to holds
/// every id that `from` reaches.
pub proof fn lemma_closed_set_holds_reached(
    edge: spec_fn(u16, u16) -> bool,
    closed: Set<u16>,
    from: u16,
    to: u16,
)
    requires
        closed.contains(from),
        forall|a: u16, b: u16| closed.contains(a) && #[trigger] edge(a, b) ==> closed.contains(b),
        reaches(edge, from, to),
    ensures
        closed.contains(to),
{
    let walk = choose|walk: Seq<u16>| #[trigger]
        is_walk(edge, walk) && walk[0] == from && walk.last() == to;
    lemma_walk_stays(edge, closed, walk, walk.len() - 1);
}

proof fn lemma_walk_stays(edge: spec_fn(u16, u16) -> bool, closed: Set<u16>, walk: Seq<u16>, i: int)
    requires
        is_walk(edge, walk),
        closed.contains(walk[0]),
        forall|a: u16, b: u16| closed.contains(a) && #[trigger] edge(a, b) ==> closed.contains(b),
        0 <= i < walk.len(),
    ensures
        closed.contains(walk[i]),
    decreases i,
{
    if i > 0 {
        lemma_walk_stays(edge, closed, walk, i - 1);
        assert(edge(walk[i - 1], walk[i - 1 + 1]));
    }
}

/// Every id reaches itself.
pub proof fn lemma_reaches_itself(edge: spec_fn(u16, u16) -> bool, a: u16)
    ensures
        reaches(edge, a, a),
{
    let walk = seq![a];
    assert(is_walk(edge, walk));
    assert(walk[0] == a && walk.last() == a);
}

/// What a reached id is related to is reached too.
pub proof fn lemma_reaches_one_more(edge: spec_fn(u16, u16) -> bool, from: u16, via: u16, to: u16)
    requires
        reaches(edge, from, via),
        edge(via, to),
    ensures
        reaches(edge, from, to),
{
    let walk = choose|walk: Seq<u16>| #[trigger]
        is_walk(edge, walk) && walk[0] == from && walk.last() == via;
    let longer = walk.push(to);
    assert forall|i: int| 0 <= i < longer.len() - 1 implies edge(
        #[trigger] longer[i],
        longer[i + 1],
    ) by {
        if i < walk.len() - 1 {
            assert(edge(walk[i], walk[i + 1]));
        }
    }
    assert(is_walk(edge, longer));
    assert(longer[0] == from && longer.last() == to);
}

/// The relation "`child` waits for `parent`": `parent` is a task of `tasks`
/// and lists `child` among its children.
pub open spec fn child_edge(tasks: Map<u16, TaskView>) -> spec_fn(u16, u16) -> bool {
    |parent: u16, child: u16|
        tasks.dom().contains(parent) && tasks[parent].children_task.contains(child)
}

/// Whether the declared predecessor `node` is redundant: following the
/// children of `tasks` from `node` leads to another id of `elements`, so that
/// waiting for that one already means waiting for `node`.
pub open spec fn is_redundant(tasks: Map<u16, TaskView>, node: u16, elements: Seq<u16>) -> bool {
    exists|other: u16|
        other != node && elements.contains(other) && #[trigger] reaches(
            child_edge(tasks),
            node,
            other,
        )
}

/// How many of `marks` are `false`.
pub open spec fn unmarked(marks: Seq<bool>) -> nat
    decreases marks.len(),
{
    if marks.len() == 0 {
        0
    } else {
        unmarked(marks.drop_last()) + if marks.last() {
            0nat
        } else {
            1nat
        }
    }
}

proof fn lemma_mark(marks: Seq<bool>, i: int)
    requires
        0 <= i < marks.len(),
        !marks[i],
    ensures
        unmarked(marks.update(i, true)) + 1 == unmarked(marks),
    decreases marks.len(),
{
    let after = marks.update(i, true);
    if i == marks.len() - 1 {
        assert(after.drop_last() =~= marks.drop_last());
    } else {
        assert(after.drop_last() =~= marks.drop_last().update(i, true));
        lemma_mark(marks.drop_last(), i);
    }
}

/// Whether the declared predecessor `node` is redundant among `elements`,
/// found by a breadth-first search along the children recorded in
/// `task_by_id`. Each id is visited at most once.
pub fn find_child_node(task_by_id: &Table<u16, Task>, node: u16, elements: &Vec<u16>) -> (r: bool)
    requires
        task_by_id.wf(),
    ensures
        r == is_redundant(tasks_of(task_by_id@), node, elements@),
{
    let ghost tasks = tasks_of(task_by_id@);
    let ghost edge = child_edge(tasks);
    let mut vis: Vec<bool> = Vec::new();
    let mut n: u32 = 0;
    while n < 65536
        invariant
            n <= 65536,
            vis@.len() == n,
            forall|i: int| 0 <= i < n ==> !vis@[i],
        decreases 65536 - n,
    {
        vis.push(false);
        n += 1;
    }
    let mut queue: Vec<u16> = Vec::new();
    queue.push(node);
    proof {
        lemma_mark(vis@, node as int);
        lemma_reaches_itself(edge, node);
    }
    vis.set(node as usize, true);
    let ghost budget = unmarked(vis@) + 1;
    proof {
        assert(queue@[0] == node);
        assert forall|v: u16| vis@[v as int] implies #[trigger] queue@.contains(v) by {
            assert(v == node);
        }
    }
    let mut head: usize = 0;
    while head < queue.len()
        invariant
            task_by_id.wf(),
            tasks == tasks_of(task_by_id@),
            edge == child_edge(tasks),
            vis@.len() == 65536,
            vis@[node as int],
            head <= queue@.len(),
            unmarked(vis@) + queue@.len() == budget,
            forall|i: int| 0 <= i < queue@.len() ==> vis@[#[trigger] queue@[i] as int],
            forall|v: u16| vis@[v as int] ==> #[trigger] queue@.contains(v),
            forall|v: u16| vis@[v as int] ==> #[trigger] reaches(edge, node, v),
            forall|v: u16| #[trigger] vis@[v as int] && v != node ==> !elements@.contains(v),
            forall|i: int, c: u16|
                0 <= i < head && #[trigger] edge(queue@[i], c) ==> vis@[c as int],
        decreases budget - head,
    {
        let u = queue[head];
        match task_by_id.get(&u) {
            Some(u_task) => {
                assert(tasks.dom().contains(u) && tasks[u] == u_task@);
                let mut k: usize = 0;
                while k < u_task.children_task.len()
                    invariant
                        tasks == tasks_of(task_by_id@),
                        tasks.dom().contains(u),
                        tasks[u] == u_task@,
                        edge == child_edge(tasks),
                        u == queue@[head as int],
                        vis@.len() == 65536,
                        vis@[node as int],
                        head < queue@.len(),
                        k <= u_task.children_task@.len(),
                        unmarked(vis@) + queue@.len() == budget,
                        forall|i: int| 0 <= i < queue@.len() ==> vis@[#[trigger] queue@[i] as int],
                        forall|v: u16| vis@[v as int] ==> #[trigger] queue@.contains(v),
                        forall|v: u16| vis@[v as int] ==> #[trigger] reaches(edge, node, v),
                        forall|v: u16| #[trigger]
                            vis@[v as int] && v != node ==> !elements@.contains(v),
                        forall|i: int, c: u16|
                            0 <= i < head && #[trigger] edge(queue@[i], c) ==> vis@[c as int],
                        forall|j: int|
                            0 <= j < k ==> vis@[#[trigger] u_task.children_task@[j] as int],
                    decreases u_task.children_task@.len() - k,
                {
                    let id = u_task.children_task[k];
                    if !vis[id as usize] {
                        proof {
                            assert(u_task.children_task@.contains(id));
                            assert(edge(u, id));
                            assert(reaches(edge, node, u));
                            lemma_reaches_one_more(edge, node, u, id);
                        }
                        if contains_id(elements, id) {
                            assert(id != node && elements@.contains(id) && reaches(
                                child_edge(tasks),
                                node,
                                id,
                            ));
                            return true;
                        }
                        proof {
                            lemma_mark(vis@, id as int);
                        }
                        let ghost before = queue@;
                        vis.set(id as usize, true);
                        queue.push(id);
                        proof {
                            assert(queue@[before.len() as int] == id);
                            assert forall|v: u16| vis@[v as int] implies #[trigger] queue@.contains(
                                v,
                            ) by {
                                if v == id {
                                    assert(queue@[before.len() as int] == v);
                                } else {
                                    assert(before.contains(v));
                                    let i = choose|i: int| 0 <= i < before.len() && before[i] == v;
                                    assert(queue@[i] == v);
                                }
                            }
                        }
                    }
                    k += 1;
                }
                proof {
                    assert forall|c: u16| #[trigger] edge(u, c) implies vis@[c as int] by {
                        let j = choose|j: int|
                            0 <= j < u_task.children_task@.len() && u_task.children_task@[j] == c;
                        assert(vis@[u_task.children_task@[j] as int]);
                    }
                }
            },
            None => {
                assert(!tasks.dom().contains(u));
            },
        }
        head += 1;
    }
    proof {
        let closed = Set::new(|v: u16| vis@[v as int]);
        assert forall|a: u16, b: u16| closed.contains(a) && #[trigger] edge(a, b) implies closed.contains(
            b,
        ) by {
            assert(queue@.contains(a));
            let i = choose|i: int| 0 <= i < queue@.len() && queue@[i] == a;
            assert(edge(queue@[i], b));
        }
        if is_redundant(tasks, node, elements@) {
            let other = choose|other: u16|
                other != node && elements@.contains(other) && #[trigger] reaches(
                    edge,
                    node,
                    other,
                );
            lemma_closed_set_holds_reached(edge, closed, node, other);
            assert(vis@[other as int]);
        }
    }
    false
}

/// `tasks` with `child` appended to the children of `parent`, if `parent` is
/// a task of `tasks`.
pub open spec fn with_child(tasks: Map<u16, TaskView>, parent: u16, child: u16) -> Map<
    u16,
    TaskView,
> {
    if tasks.dom().contains(parent) {
        tasks.insert(
            parent,
            TaskView {
                children_task: tasks[parent].children_task.push(child),
                ..tasks[parent]
            },
        )
    } else {
        tasks
    }
}

/// The tasks and the predecessors kept after the first `n` declared
/// predecessors of task `id` were looked at, in order: a redundant one is
/// dropped; any other is kept and gets `id` as a child, so that the edges of
/// earlier predecessors count when a later one is judged.
pub open spec fn after_predecessors(
    tasks: Map<u16, TaskView>,
    id: u16,
    declared: Seq<u16>,
    n: nat,
) -> (Map<u16, TaskView>, Seq<u16>)
    decreases n,
{
    if n == 0 {
        (tasks, Seq::empty())
    } else {
        let (graph, kept) = after_predecessors(tasks, id, declared, (n - 1) as nat);
        let p = declared[n - 1];
        if is_redundant(graph, p, declared) {
            (graph, kept)
        } else {
            (with_child(graph, p, id), kept.push(p))
        }
    }
}

/// The node that `task` becomes in the graph: it keeps the predecessors
/// `kept`, and has no children yet.
pub open spec fn node_of(task: TaskView, kept: Seq<u16>) -> TaskView {
    TaskView { start_after: kept, children_task: Seq::empty(), ..task }
}

/// The predecessors that `task` keeps when it enters `tasks`.
pub open spec fn kept_predecessors(tasks: Map<u16, TaskView>, task: TaskView) -> Seq<u16> {
    after_predecessors(tasks, task.task_id, task.start_after, task.start_after.len()).1
}

/// `tasks` after `task` entered: its kept predecessors have it as a child,
/// and it stands under its id with those predecessors.
pub open spec fn with_task(tasks: Map<u16, TaskView>, task: TaskView) -> Map<u16, TaskView> {
    after_predecessors(tasks, task.task_id, task.start_after, task.start_after.len()).0.insert(
        task.task_id,
        node_of(task, kept_predecessors(tasks, task)),
    )
}

/// The graph of the first `n` of `tasks`, entered in order.
pub open spec fn graph_of(tasks: Seq<TaskView>, n: nat) -> Map<u16, TaskView>
    decreases n,
{
    if n == 0 {
        Map::empty()
    } else {
        with_task(graph_of(tasks, (n - 1) as nat), tasks[n - 1])
    }
}

/// Enters `task` into the graph `task_by_id` and appends its node to
/// `task_list`.
///
/// Of the predecessors that the task declares, those that are redundant are
/// dropped; each of the others gets the task as a child. Whatever children the
/// task was handed in with are discarded: children are derived.
pub fn create_task_nodes(task_by_id: &mut Table<u16, Task>, task_list: &mut Vec<Task>, task: Task)
    requires
        old(task_by_id).wf(),
    ensures
        final(task_by_id).wf(),
        tasks_of(final(task_by_id)@) == with_task(tasks_of(old(task_by_id)@), task@),
        final(task_list)@.len() == old(task_list)@.len() + 1,
        final(task_list)@.last()@ == node_of(
            task@,
            kept_predecessors(tasks_of(old(task_by_id)@), task@),
        ),
        forall|i: int|
            0 <= i < old(task_list)@.len() ==> final(task_list)@[i] == old(task_list)@[i],
{
    let ghost start = tasks_of(task_by_id@);
    let ghost task_view = task@;
    let Task {
        task_id,
        start_after,
        start_time,
        end_time,
        status,
        performance_rating,
        details,
        children_task: _,
    } = task;
    let mut actual_start_after: Vec<u16> = Vec::new();
    let mut i: usize = 0;
    while i < start_after.len()
        invariant
            task_by_id.wf(),
            i <= start_after@.len(),
            (tasks_of(task_by_id@), actual_start_after@) == after_predecessors(
                start,
                task_id,
                start_after@,
                i as nat,
            ),
        decreases start_after@.len() - i,
    {
        let node = start_after[i];
        let ghost graph = tasks_of(task_by_id@);
        if !find_child_node(task_by_id, node, &start_after) {
            actual_start_after.push(node);
            let grown = match task_by_id.get(&node) {
                Some(node_task) => {
                    let mut grown = node_task.clone();
                    grown.children_task.push(task_id);
                    Some(grown)
                },
                None => None,
            };
            match grown {
                Some(grown) => {
                    task_by_id.insert(node, grown);
                },
                None => {},
            }
            assert(tasks_of(task_by_id@) =~= with_child(graph, node, task_id));
        }
        i += 1;
    }
    let node_task = Task {
        task_id,
        start_after: actual_start_after,
        start_time,
        end_time,
        status,
        performance_rating,
        details,
        children_task: Vec::new(),
    };
    let ghost graph = tasks_of(task_by_id@);
    task_by_id.insert(task_id, node_task.clone());
    task_list.push(node_task);
    proof {
        assert(start_after@ == task_view.start_after);
        assert(node_task@ =~= node_of(task_view, kept_predecessors(start, task_view)));
        assert(tasks_of(task_by_id@) =~= graph.insert(task_id, node_task@));
    }
}

/// Looking at predecessors adds and removes no task.
pub proof fn lemma_predecessors_keep_ids(
    tasks: Map<u16, TaskView>,
    id: u16,
    declared: Seq<u16>,
    n: nat,
)
    ensures
        after_predecessors(tasks, id, declared, n).0.dom() == tasks.dom(),
    decreases n,
{
    if n > 0 {
        lemma_predecessors_keep_ids(tasks, id, declared, (n - 1) as nat);
        let (graph, kept) = after_predecessors(tasks, id, declared, (n - 1) as nat);
        let p = declared[n - 1];
        assert(with_child(graph, p, id).dom() =~= graph.dom());
    }
    assert(after_predecessors(tasks, id, declared, n).0.dom() =~= tasks.dom());
}

/// The nodes of `tasks` in the graph that results from entering all of them
/// in order, listed in that order.
pub open spec fn minimal_tasks(tasks: Seq<TaskView>) -> Seq<TaskView> {
    Seq::new(tasks.len(), |i: int| graph_of(tasks, tasks.len())[tasks[i].task_id])
}

/// The nodes of `tasks` in the graph that results from entering them in
/// order: each with the predecessors it kept and the children it got.
pub fn minimal_task_list(tasks: Vec<Task>) -> (r: Vec<Task>)
    ensures
        r@.len() == tasks@.len(),
        task_views(r@) == minimal_tasks(task_views(tasks@)),
        forall|i: int|
            0 <= i < tasks@.len() ==> {
                let graph = graph_of(task_views(tasks@), tasks@.len());
                &&& graph.dom().contains(tasks@[i].task_id)
                &&& (#[trigger] r@[i])@ == graph[tasks@[i].task_id]
            },
{
    let ghost views = task_views(tasks@);
    let mut task_by_id: Table<u16, Task> = Table::new();
    let mut entered: Vec<Task> = Vec::new();
    assert(tasks_of(task_by_id@) =~= graph_of(views, 0));
    let mut i: usize = 0;
    while i < tasks.len()
        invariant
            task_by_id.wf(),
            views == task_views(tasks@),
            i <= tasks@.len(),
            tasks_of(task_by_id@) == graph_of(views, i as nat),
            forall|j: int|
                0 <= j < i ==> tasks_of(task_by_id@).dom().contains(#[trigger] tasks@[j].task_id),
        decreases tasks@.len() - i,
    {
        let task = tasks[i].clone();
        proof {
            assert(task@ == views[i as int]);
            lemma_predecessors_keep_ids(
                tasks_of(task_by_id@),
                task@.task_id,
                task@.start_after,
                task@.start_after.len(),
            );
        }
        create_task_nodes(&mut task_by_id, &mut entered, task);
        i += 1;
    }
    let mut r: Vec<Task> = Vec::new();
    let mut k: usize = 0;
    while k < tasks.len()
        invariant
            task_by_id.wf(),
            k <= tasks@.len(),
            r@.len() == k,
            forall|j: int|
                0 <= j < tasks@.len() ==> tasks_of(task_by_id@).dom().contains(
                    #[trigger] tasks@[j].task_id,
                ),
            forall|j: int|
                0 <= j < k ==> (#[trigger] r@[j])@ == tasks_of(task_by_id@)[tasks@[j].task_id],
        decreases tasks@.len() - k,
    {
        let id = tasks[k].task_id;
        assert(tasks_of(task_by_id@).dom().contains(tasks@[k as int].task_id));
        let node = task_by_id.get(&id).unwrap().clone();
        r.push(node);
        k += 1;
    }
    assert(task_views(r@) =~= minimal_tasks(task_views(tasks@)));
    r
}

/// Whether the tasks come in dependency order: their ids are pairwise
/// distinct, and each declares only tasks that are listed before it.
pub open spec fn in_dependency_order(tasks: Seq<TaskView>) -> bool {
    &&& forall|i: int, j: int|
        0 <= i < j < tasks.len() ==> (#[trigger] tasks[i]).task_id != (#[trigger] tasks[j]).task_id
    &&& forall|i: int, k: int|
        0 <= i < tasks.len() && 0 <= k < tasks[i].start_after.len() ==> listed_before(
            tasks,
            i,
            #[trigger] tasks[i].start_after[k],
        )
}

/// Whether `id` is the id of one of the first `n` of `tasks`.
pub open spec fn listed_before(tasks: Seq<TaskView>, n: int, id: u16) -> bool {
    exists|j: int| 0 <= j < n && j < tasks.len() && (#[trigger] tasks[j]).task_id == id
}

/// Whether each task of `tasks` has exactly those tasks as children that
/// keep it as a predecessor.
pub open spec fn children_are_transposed(tasks: Map<u16, TaskView>) -> bool {
    forall|parent: u16, child: u16|
        #![trigger tasks[parent].children_task.contains(child)]
        #![trigger tasks[child].start_after.contains(parent)]
        (tasks.dom().contains(parent) && tasks[parent].children_task.contains(child)) <==> (
        tasks.dom().contains(child) && tasks[child].start_after.contains(parent))
}

spec fn grown(before: Map<u16, TaskView>, after: Map<u16, TaskView>, id: u16, kept: Seq<u16>) -> bool {
    &&& forall|p: u16| after.dom().contains(p) == before.dom().contains(p)
    &&& forall|p: u16| #[trigger]
        before.dom().contains(p) ==> after[p] == TaskView {
            children_task: after[p].children_task,
            ..before[p]
        }
    &&& forall|p: u16, c: u16|
        before.dom().contains(p) && c != id ==> #[trigger] after[p].children_task.contains(c)
            == before[p].children_task.contains(c)
    &&& forall|p: u16| #[trigger]
        before.dom().contains(p) ==> after[p].children_task.contains(id) == (
        before[p].children_task.contains(id) || kept.contains(p))
}

proof fn lemma_push_contains(s: Seq<u16>, x: u16, y: u16)
    ensures
        s.push(x).contains(y) == (s.contains(y) || x == y),
{
    if s.contains(y) {
        let i = choose|i: int| 0 <= i < s.len() && s[i] == y;
        assert(s.push(x)[i] == y);
    }
    if x == y {
        assert(s.push(x)[s.len() as int] == y);
    }
    if s.push(x).contains(y) {
        let i = choose|i: int| 0 <= i < s.push(x).len() && s.push(x)[i] == y;
        if i < s.len() {
            assert(s[i] == y);
        }
    }
}

proof fn lemma_predecessors_grow(tasks: Map<u16, TaskView>, id: u16, declared: Seq<u16>, n: nat)
    requires
        n <= declared.len(),
    ensures
        grown(
            tasks,
            after_predecessors(tasks, id, declared, n).0,
            id,
            after_predecessors(tasks, id, declared, n).1,
        ),
        forall|x: u16|
            after_predecessors(tasks, id, declared, n).1.contains(x) ==> declared.contains(x),
    decreases n,
{
    if n > 0 {
        lemma_predecessors_grow(tasks, id, declared, (n - 1) as nat);
        let (graph, kept) = after_predecessors(tasks, id, declared, (n - 1) as nat);
        let (after, kept_after) = after_predecessors(tasks, id, declared, n);
        let p = declared[n - 1];
        if !is_redundant(graph, p, declared) {
            assert(after == with_child(graph, p, id));
            assert(kept_after == kept.push(p));
            assert forall|x: u16| kept_after.contains(x) implies declared.contains(x) by {
                lemma_push_contains(kept, p, x);
            }
            assert forall|q: u16| #[trigger] tasks.dom().contains(q) implies after[q].children_task.contains(
                id,
            ) == (tasks[q].children_task.contains(id) || kept_after.contains(q)) by {
                lemma_push_contains(kept, p, q);
                if q == p {
                    lemma_push_contains(graph[p].children_task, id, id);
                }
            }
            assert forall|q: u16, c: u16| tasks.dom().contains(q) && c != id implies #[trigger]
                after[q].children_task.contains(c) == tasks[q].children_task.contains(c) by {
                if q == p {
                    lemma_push_contains(graph[p].children_task, id, c);
                }
            }
            assert forall|q: u16| #[trigger] tasks.dom().contains(q) implies after[q] == (TaskView {
                children_task: after[q].children_task,
                ..tasks[q]
            }) by {}
        }
    } else {
        let kept = after_predecessors(tasks, id, declared, n).1;
        assert(kept.len() == 0);
    }
}

proof fn lemma_graph_in_order(tasks: Seq<TaskView>, n: nat)
    requires
        in_dependency_order(tasks),
        n <= tasks.len(),
    ensures
        forall|id: u16| graph_of(tasks, n).dom().contains(id) == listed_before(tasks, n as int, id),
        children_are_transposed(graph_of(tasks, n)),
    decreases n,
{
    let graph = graph_of(tasks, n);
    if n == 0 {
        assert forall|id: u16| graph.dom().contains(id) == listed_before(tasks, 0, id) by {}
    } else {
        let before = graph_of(tasks, (n - 1) as nat);
        lemma_graph_in_order(tasks, (n - 1) as nat);
        let task = tasks[n - 1];
        let id = task.task_id;
        let (grown_graph, kept) = after_predecessors(
            before,
            id,
            task.start_after,
            task.start_after.len(),
        );
        lemma_predecessors_grow(before, id, task.start_after, task.start_after.len());
        assert(graph == grown_graph.insert(id, node_of(task, kept)));
        // the id is new
        assert(!before.dom().contains(id)) by {
            if listed_before(tasks, n - 1, id) {
                let j = choose|j: int|
                    0 <= j < n - 1 && j < tasks.len() && (#[trigger] tasks[j]).task_id == id;
                assert(tasks[j].task_id != tasks[n - 1].task_id);
            }
        }
        // what the task keeps was listed before it
        assert forall|x: u16| kept.contains(x) implies before.dom().contains(x) && x != id by {
            assert(task.start_after.contains(x));
            let k = choose|k: int| 0 <= k < task.start_after.len() && task.start_after[k] == x;
            assert(listed_before(tasks, n - 1, tasks[n - 1].start_after[k]));
        }
        assert forall|x: u16| graph.dom().contains(x) == listed_before(tasks, n as int, x) by {
            if listed_before(tasks, n as int, x) {
                let j = choose|j: int|
                    0 <= j < n && j < tasks.len() && (#[trigger] tasks[j]).task_id == x;
                if j < n - 1 {
                    assert(listed_before(tasks, n - 1, x));
                }
            }
            if listed_before(tasks, n - 1, x) {
                let j = choose|j: int|
                    0 <= j < n - 1 && j < tasks.len() && (#[trigger] tasks[j]).task_id == x;
                assert(listed_before(tasks, n as int, x));
            }
            if x == id {
                assert(tasks[n - 1].task_id == x);
            }
        }
        assert forall|parent: u16, child: u16|
            #![trigger graph[parent].children_task.contains(child)]
            #![trigger graph[child].start_after.contains(parent)]
            (graph.dom().contains(parent) && graph[parent].children_task.contains(child)) <==> (
            graph.dom().contains(child) && graph[child].start_after.contains(parent)) by {
            if parent != id && child != id {
                if before.dom().contains(parent) {
                    assert(graph[parent] == grown_graph[parent]);
                    assert(grown_graph[parent].children_task.contains(child)
                        == before[parent].children_task.contains(child));
                }
                if before.dom().contains(child) {
                    assert(graph[child] == grown_graph[child]);
                    assert(grown_graph[child].start_after == before[child].start_after);
                }
            } else if parent != id && child == id {
                if before.dom().contains(parent) {
                    assert(graph[parent] == grown_graph[parent]);
                    assert(grown_graph[parent].children_task.contains(id) == (
                    before[parent].children_task.contains(id) || kept.contains(parent)));
                    // no task had the new one as a child
                    assert(!before[parent].children_task.contains(id));
                }
                assert(graph[id].start_after == kept);
            } else if parent == id && child != id {
                assert(graph[id].children_task.len() == 0);
                if before.dom().contains(child) {
                    assert(graph[child] == grown_graph[child]);
                    assert(grown_graph[child].start_after == before[child].start_after);
                    // no task kept the new one as a predecessor
                    assert(!before[child].start_after.contains(id));
                }
            } else {
                assert(graph[id].children_task.len() == 0);
                assert(graph[id].start_after == kept);
            }
        }
    }
}

/// For tasks in dependency order, the graph holds exactly their ids, and
/// the children in it are the transpose of the predecessors kept: a task is
/// a child of exactly those tasks that it keeps as predecessors.
pub proof fn lemma_children_are_transposed(tasks: Seq<TaskView>)
    requires
        in_dependency_order(tasks),
    ensures
        forall|id: u16|
            graph_of(tasks, tasks.len()).dom().contains(id) == listed_before(
                tasks,
                tasks.len() as int,
                id,
            ),
        children_are_transposed(graph_of(tasks, tasks.len())),
{
    lemma_graph_in_order(tasks, tasks.len());
}

} // verus!
