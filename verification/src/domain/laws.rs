use crate::domain::metrics::{
    metrics, rolled_up, sub_metrics, sum_quantity, AggregrationMethod, Quantity, Task, TaskView,
};
use crate::services::clickup::models::{SubTaskView, TaskBodyView};
use vstd::prelude::*;

verus! {

/// Every task of the tree reports the totals that `method` gives it from its own
/// values and its sub tasks.
pub open spec fn rolled_up_throughout(task: TaskView, method: AggregrationMethod) -> bool
    decreases task,
{
    &&& task.total_points == rolled_up(
        method,
        task.points,
        task.sub_tasks,
        Quantity::Points,
        Quantity::TotalPoints,
    )
    &&& task.total_time_in_dev_status == rolled_up(
        method,
        task.time_in_dev_status,
        task.sub_tasks,
        Quantity::Days,
        Quantity::TotalDays,
    )
    &&& forall|i: int|
        0 <= i < task.sub_tasks.len() ==> rolled_up_throughout(#[trigger] task.sub_tasks[i], method)
}

/// Every task of the tree has totals that are at least its own values.
pub open spec fn totals_cover_own(task: TaskView) -> bool
    decreases task,
{
    &&& task.total_points >= task.points
    &&& task.total_time_in_dev_status >= task.time_in_dev_status
    &&& forall|i: int| 0 <= i < task.sub_tasks.len() ==> totals_cover_own(#[trigger] task.sub_tasks[i])
}

/// The method is applied at every level of the tree, not only at its root.
pub proof fn lemma_metrics_rolled_up_throughout(task: TaskBodyView, method: AggregrationMethod)
    ensures
        rolled_up_throughout(metrics(task, method), method),
    decreases task,
{
    let goal = metrics(task, method);
    match task.sub_tasks {
        Some(subs) => {
            lemma_sub_metrics_rolled_up_throughout(subs, method);
            assert(goal.sub_tasks == sub_metrics(subs, method));
        },
        None => {
            assert(goal.sub_tasks.len() == 0);
        },
    }
    assert forall|i: int| 0 <= i < goal.sub_tasks.len() implies rolled_up_throughout(
        #[trigger] goal.sub_tasks[i],
        method,
    ) by {}
}

/// The method is applied at every level below each sub task that has been fetched.
pub proof fn lemma_sub_metrics_rolled_up_throughout(
    subs: Seq<SubTaskView>,
    method: AggregrationMethod,
)
    ensures
        forall|i: int|
            0 <= i < sub_metrics(subs, method).len() ==> rolled_up_throughout(
                #[trigger] sub_metrics(subs, method)[i],
                method,
            ),
    decreases subs,
{
    if subs.len() > 0 {
        lemma_sub_metrics_rolled_up_throughout(subs.drop_last(), method);
        match subs.last().task {
            Some(task) => {
                lemma_metrics_rolled_up_throughout(task, method);
            },
            None => {},
        }
        let before = sub_metrics(subs.drop_last(), method);
        assert forall|i: int| 0 <= i < sub_metrics(subs, method).len() implies rolled_up_throughout(
            #[trigger] sub_metrics(subs, method)[i],
            method,
        ) by {
            if i < before.len() {
                assert(sub_metrics(subs, method)[i] == before[i]);
            }
        }
    }
}

/// Where a task's own value counts, every task's totals are at least its own values.
pub proof fn lemma_totals_cover_own(task: TaskBodyView, method: AggregrationMethod)
    requires
        method != AggregrationMethod::Leaf,
    ensures
        totals_cover_own(metrics(task, method)),
    decreases task,
{
    let goal = metrics(task, method);
    match task.sub_tasks {
        Some(subs) => {
            lemma_sub_totals_cover_own(subs, method);
            assert(goal.sub_tasks == sub_metrics(subs, method));
        },
        None => {
            assert(goal.sub_tasks.len() == 0);
        },
    }
    assert forall|i: int| 0 <= i < goal.sub_tasks.len() implies totals_cover_own(
        #[trigger] goal.sub_tasks[i],
    ) by {}
}

/// Where a task's own value counts, the totals below each fetched sub task are at
/// least the own values.
pub proof fn lemma_sub_totals_cover_own(subs: Seq<SubTaskView>, method: AggregrationMethod)
    requires
        method != AggregrationMethod::Leaf,
    ensures
        forall|i: int|
            0 <= i < sub_metrics(subs, method).len() ==> totals_cover_own(
                #[trigger] sub_metrics(subs, method)[i],
            ),
    decreases subs,
{
    if subs.len() > 0 {
        lemma_sub_totals_cover_own(subs.drop_last(), method);
        match subs.last().task {
            Some(task) => {
                lemma_totals_cover_own(task, method);
            },
            None => {},
        }
        let before = sub_metrics(subs.drop_last(), method);
        assert forall|i: int| 0 <= i < sub_metrics(subs, method).len() implies totals_cover_own(
            #[trigger] sub_metrics(subs, method)[i],
        ) by {
            if i < before.len() {
                assert(sub_metrics(subs, method)[i] == before[i]);
            }
        }
    }
}

/// Under the leaf method a task's totals are the sums of its sub tasks' own values,
/// and a task without fetched sub tasks has totals of zero.
pub proof fn lemma_leaf_totals(task: TaskBodyView)
    ensures
        metrics(task, AggregrationMethod::Leaf).total_points == sum_quantity(
            metrics(task, AggregrationMethod::Leaf).sub_tasks,
            Quantity::Points,
        ),
        metrics(task, AggregrationMethod::Leaf).total_time_in_dev_status == sum_quantity(
            metrics(task, AggregrationMethod::Leaf).sub_tasks,
            Quantity::Days,
        ),
        metrics(task, AggregrationMethod::Leaf).sub_tasks.len() == 0 ==> {
            &&& metrics(task, AggregrationMethod::Leaf).total_points == 0
            &&& metrics(task, AggregrationMethod::Leaf).total_time_in_dev_status == 0
        },
{
}

/// Under the node-and-leaf method a task's total points are the own points of the
/// task and of every task below it.
pub open spec fn all_points(task: TaskView) -> nat
    decreases task,
{
    task.points + all_points_of(task.sub_tasks)
}

/// The own points of every task in and below a sequence of tasks.
pub open spec fn all_points_of(tasks: Seq<TaskView>) -> nat
    decreases tasks,
{
    if tasks.len() == 0 {
        0
    } else {
        all_points_of(tasks.drop_last()) + all_points(tasks.last())
    }
}

/// Under the node-and-leaf method the total points of a task are the sum of the own
/// points over its whole tree.
pub proof fn lemma_node_and_leaf_sums_tree(task: TaskBodyView)
    ensures
        metrics(task, AggregrationMethod::NodeAndLeaf).total_points == all_points(
            metrics(task, AggregrationMethod::NodeAndLeaf),
        ),
    decreases task,
{
    match task.sub_tasks {
        Some(subs) => {
            lemma_sub_node_and_leaf_sums_tree(subs);
        },
        None => {},
    }
}

/// Under the node-and-leaf method the total points of fetched sub tasks add up to
/// the own points over their trees.
pub proof fn lemma_sub_node_and_leaf_sums_tree(subs: Seq<SubTaskView>)
    ensures
        sum_quantity(sub_metrics(subs, AggregrationMethod::NodeAndLeaf), Quantity::TotalPoints)
            == all_points_of(sub_metrics(subs, AggregrationMethod::NodeAndLeaf)),
    decreases subs,
{
    if subs.len() > 0 {
        lemma_sub_node_and_leaf_sums_tree(subs.drop_last());
        let before = sub_metrics(subs.drop_last(), AggregrationMethod::NodeAndLeaf);
        match subs.last().task {
            Some(task) => {
                lemma_node_and_leaf_sums_tree(task);
                let child = metrics(task, AggregrationMethod::NodeAndLeaf);
                assert(before.push(child).drop_last() =~= before);
            },
            None => {},
        }
    }
}

/// Two conversions of one tree under one method agree: both succeed or both fail,
/// and where they succeed their metrics are the same in every part.
pub proof fn lemma_conversion_is_determined(
    value: TaskBodyView,
    method: AggregrationMethod,
    first: Option<Task>,
    second: Option<Task>,
)
    requires
        first is Some <==> metrics(value, method).fits(),
        first matches Some(t) ==> t@ == metrics(value, method),
        second is Some <==> metrics(value, method).fits(),
        second matches Some(t) ==> t@ == metrics(value, method),
    ensures
        first is Some <==> second is Some,
        first is Some ==> first->Some_0@ == second->Some_0@,
{
}

} // verus!
