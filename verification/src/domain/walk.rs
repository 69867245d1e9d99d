use crate::domain::calendar::{calendar_days, get_weekdays_in_dev_status, held};
use crate::domain::metrics::{
    added_by_sub_tasks, lemma_sum_quantity_push, metrics, own_dev_days, sub_metrics,
    AggregrationMethod, Quantity,
};
use crate::services::clickup::models::{
    lemma_sub_task_views, sub_task_views, ClickUpTaskResponseBody, SubTaskView, TaskBodyView,
};
use vstd::prelude::*;

verus! {

/// The sum of two numbers of days, where both are known.
pub open spec fn plus(a: Option<nat>, b: Option<nat>) -> Option<nat> {
    match (a, b) {
        (Some(x), Some(y)) => Some(x + y),
        _ => None,
    }
}

/// The days on weekdays of a task and of every task below it that has been fetched.
/// `None` where some task of the tree entered development outside the calendar.
pub open spec fn calendar_days_of_tree(task: TaskBodyView) -> Option<nat>
    decreases task,
{
    plus(
        calendar_days(task),
        match task.sub_tasks {
            Some(subs) => calendar_days_below(subs, AggregrationMethod::NodeAndLeaf),
            None => Some(0),
        },
    )
}

/// What the sub tasks add to a task's days on weekdays under `method`: under the
/// leaf method the own days of each fetched sub task, under the node-and-leaf method
/// the days of its whole tree, under the node method nothing.
pub open spec fn calendar_days_below(subs: Seq<SubTaskView>, method: AggregrationMethod) -> Option<
    nat,
>
    decreases subs,
{
    if subs.len() == 0 {
        Some(0)
    } else {
        plus(
            calendar_days_below(subs.drop_last(), method),
            match subs.last().task {
                Some(child) => match method {
                    AggregrationMethod::Leaf => calendar_days(child),
                    AggregrationMethod::Node => Some(0),
                    AggregrationMethod::NodeAndLeaf => calendar_days_of_tree(child),
                },
                None => Some(0),
            },
        )
    }
}

/// The days in development on weekdays that a task reports under `method`: under the
/// leaf method the own days of its fetched sub tasks, under the node method its own,
/// under the node-and-leaf method its own and those of every task below it.
pub open spec fn calendar_days_under(method: AggregrationMethod, task: TaskBodyView) -> Option<nat> {
    match method {
        AggregrationMethod::Leaf => match task.sub_tasks {
            Some(subs) => calendar_days_below(subs, AggregrationMethod::Leaf),
            None => Some(0),
        },
        AggregrationMethod::Node => calendar_days(task),
        AggregrationMethod::NodeAndLeaf => calendar_days_of_tree(task),
    }
}

/// Where the days below all references are known, so are those below the first of
/// them, and they are no more.
pub proof fn lemma_calendar_days_below_prefix(
    subs: Seq<SubTaskView>,
    i: int,
    method: AggregrationMethod,
)
    requires
        0 <= i <= subs.len(),
    ensures
        calendar_days_below(subs, method) matches Some(all) ==> {
            &&& calendar_days_below(subs.take(i), method) matches Some(first)
            &&& first <= all
        },
    decreases subs.len() - i,
{
    if i == subs.len() {
        assert(subs.take(i) =~= subs);
    } else {
        assert(subs.take(i + 1).drop_last() =~= subs.take(i));
        lemma_calendar_days_below_prefix(subs, i + 1, method);
    }
}

/// What the fetched sub tasks of a task add to its days on weekdays under `method`.
fn get_calendar_days_below(task: &ClickUpTaskResponseBody, method: AggregrationMethod) -> (days:
    Option<u64>)
    ensures
        days == held(
            match task@.sub_tasks {
                Some(subs) => calendar_days_below(subs, method),
                None => Some(0),
            },
        ),
    decreases task, 0int,
{
    match &task.sub_tasks {
        None => Some(0),
        Some(subs) => {
            let ghost views = sub_task_views(subs@);
            proof {
                lemma_sub_task_views(subs@);
            }
            let mut total: u64 = 0;
            let mut i: usize = 0;
            while i < subs.len()
                invariant
                    i <= subs.len(),
                    views == sub_task_views(subs@),
                    views.len() == subs@.len(),
                    task.sub_tasks == Some(*subs),
                    task@.sub_tasks == Some(views),
                    forall|j: int| 0 <= j < subs@.len() ==> #[trigger] views[j] == subs@[j]@,
                    calendar_days_below(views.take(i as int), method) == Some(total as nat),
                decreases subs.len() - i,
            {
                proof {
                    assert(views.take(i + 1).drop_last() =~= views.take(i as int));
                    lemma_calendar_days_below_prefix(views, i + 1, method);
                }
                match &subs[i].task {
                    None => {},
                    Some(child) => {
                        let share = match method {
                            AggregrationMethod::Leaf => get_weekdays_in_dev_status(child),
                            AggregrationMethod::Node => Some(0),
                            AggregrationMethod::NodeAndLeaf => get_calendar_days_of_tree(child),
                        };
                        let sum = match share {
                            Some(share) => total.checked_add(share),
                            None => None,
                        };
                        total = match sum {
                            Some(sum) => sum,
                            None => {
                                return None;
                            },
                        };
                    },
                }
                i = i + 1;
            }
            proof {
                assert(views.take(i as int) =~= views);
            }
            Some(total)
        },
    }
}

/// The days on weekdays of a task and of every task below it that has been fetched.
///
/// `None` exactly where some task of the tree entered development outside the
/// calendar, or where the days cannot be held in 64 bits.
pub fn get_calendar_days_of_tree(task: &ClickUpTaskResponseBody) -> (days: Option<u64>)
    ensures
        days == held(calendar_days_of_tree(task@)),
    decreases task, 1int,
{
    let below = match get_calendar_days_below(task, AggregrationMethod::NodeAndLeaf) {
        Some(below) => below,
        None => {
            return None;
        },
    };
    match get_weekdays_in_dev_status(task) {
        Some(own) => own.checked_add(below),
        None => None,
    }
}

/// The days in development on weekdays that a task reports under `method`.
///
/// `None` exactly where a task that counts entered development outside the calendar,
/// or where the days cannot be held in 64 bits.
pub fn get_calendar_days_under(method: AggregrationMethod, task: &ClickUpTaskResponseBody) -> (days:
    Option<u64>)
    ensures
        days == held(calendar_days_under(method, task@)),
{
    match method {
        AggregrationMethod::Leaf => get_calendar_days_below(task, AggregrationMethod::Leaf),
        AggregrationMethod::Node => get_weekdays_in_dev_status(task),
        AggregrationMethod::NodeAndLeaf => get_calendar_days_of_tree(task),
    }
}

/// The walk takes no day away anywhere in the tree: each task, and each fetched task
/// below it, has all its days in development on weekdays.
pub open spec fn keeps_every_day(task: TaskBodyView) -> bool
    decreases task,
{
    &&& calendar_days(task) == Some(own_dev_days(task))
    &&& match task.sub_tasks {
        Some(subs) => forall|i: int|
            0 <= i < subs.len() ==> ((#[trigger] subs[i]).task matches Some(child)
                ==> keeps_every_day(child)),
        None => true,
    }
}

/// Where the walk takes no day away, the days on weekdays under a method are the
/// total days in development of the metrics under that method.
pub proof fn lemma_calendar_days_are_total_days(task: TaskBodyView, method: AggregrationMethod)
    requires
        keeps_every_day(task),
    ensures
        calendar_days_under(method, task) == Some(
            metrics(task, method).total_time_in_dev_status,
        ),
    decreases task,
{
    match task.sub_tasks {
        Some(subs) => {
            lemma_calendar_days_below_are_added_days(subs, method);
        },
        None => {},
    }
}

/// Where the walk takes no day away below any reference, what the sub tasks add to
/// the days on weekdays is what they add to the total days of the metrics.
pub proof fn lemma_calendar_days_below_are_added_days(
    subs: Seq<SubTaskView>,
    method: AggregrationMethod,
)
    requires
        forall|i: int|
            0 <= i < subs.len() ==> ((#[trigger] subs[i]).task matches Some(child)
                ==> keeps_every_day(child)),
    ensures
        calendar_days_below(subs, method) == Some(
            added_by_sub_tasks(
                method,
                sub_metrics(subs, method),
                Quantity::Days,
                Quantity::TotalDays,
            ),
        ),
    decreases subs,
{
    if subs.len() > 0 {
        let before = subs.drop_last();
        assert forall|i: int| 0 <= i < before.len() implies ((#[trigger] before[i]).task matches Some(
            child,
        ) ==> keeps_every_day(child)) by {
            assert(before[i] == subs[i]);
        }
        lemma_calendar_days_below_are_added_days(before, method);
        assert(subs[subs.len() - 1] == subs.last());
        match subs.last().task {
            Some(child) => {
                lemma_calendar_days_are_total_days(child, AggregrationMethod::NodeAndLeaf);
                lemma_sum_quantity_push(
                    sub_metrics(before, method),
                    metrics(child, method),
                    Quantity::Days,
                );
                lemma_sum_quantity_push(
                    sub_metrics(before, method),
                    metrics(child, method),
                    Quantity::TotalDays,
                );
            },
            None => {},
        }
    }
}

} // verus!
