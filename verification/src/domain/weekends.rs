use crate::domain::metrics::{lemma_task_views, task_views, Task, TaskView};
use vstd::prelude::*;

verus! {

/// Days left of `days` once weekends are taken out: five sevenths of them, rounded
/// up to a whole day.
pub open spec fn no_weekends(days: nat) -> nat {
    ((5 * days + 6) / 7) as nat
}

/// The metrics of a tree with weekends taken out of every time in it.
pub open spec fn without_weekends(task: TaskView) -> TaskView
    decreases task,
{
    TaskView {
        number: task.number,
        name: task.name,
        points: task.points,
        total_points: task.total_points,
        time_in_dev_status: no_weekends(task.time_in_dev_status),
        total_time_in_dev_status: no_weekends(task.total_time_in_dev_status),
        sub_tasks: each_without_weekends(task.sub_tasks),
    }
}

/// A sequence of metrics with weekends taken out of each.
pub open spec fn each_without_weekends(tasks: Seq<TaskView>) -> Seq<TaskView>
    decreases tasks,
{
    if tasks.len() == 0 {
        Seq::empty()
    } else {
        each_without_weekends(tasks.drop_last()).push(without_weekends(tasks.last()))
    }
}

/// Taking weekends out of a sequence keeps its length and acts on each task.
pub proof fn lemma_each_without_weekends(tasks: Seq<TaskView>)
    ensures
        each_without_weekends(tasks).len() == tasks.len(),
        forall|i: int|
            0 <= i < tasks.len() ==> #[trigger] each_without_weekends(tasks)[i]
                == without_weekends(tasks[i]),
    decreases tasks.len(),
{
    if tasks.len() > 0 {
        lemma_each_without_weekends(tasks.drop_last());
    }
}

/// `no_weekends(days)` is the least whole number that is at least five sevenths of
/// `days`; it never exceeds `days`.
pub proof fn lemma_no_weekends_is_ceiling(days: nat)
    ensures
        7 * no_weekends(days) >= 5 * days,
        7 * (no_weekends(days) - 1) < 5 * days,
        no_weekends(days) <= days,
{
}

/// Days left of `days` once weekends are taken out.
pub fn days_without_weekends(days: u64) -> (left: u64)
    ensures
        left == no_weekends(days as nat),
{
    let weeks = days / 7;
    let rest = days % 7;
    5 * weeks + (5 * rest + 6) / 7
}

/// Takes weekends out of every time in the tree, in place.
pub fn apply_no_weekends_formula(task: &mut Task)
    ensures
        final(task)@ == without_weekends(old(task)@),
    decreases *old(task),
{
    task.time_in_dev_status = days_without_weekends(task.time_in_dev_status);
    task.total_time_in_dev_status = days_without_weekends(task.total_time_in_dev_status);
    let count = task.sub_tasks.len();
    let mut i: usize = 0;
    while i < count
        invariant
            i <= count,
            count == task.sub_tasks@.len(),
            count == old(task).sub_tasks@.len(),
            task.number == old(task).number,
            task.name == old(task).name,
            task.points == old(task).points,
            task.total_points == old(task).total_points,
            task.time_in_dev_status == no_weekends(old(task).time_in_dev_status as nat),
            task.total_time_in_dev_status == no_weekends(
                old(task).total_time_in_dev_status as nat,
            ),
            forall|j: int|
                0 <= j < i ==> (#[trigger] task.sub_tasks@[j])@ == without_weekends(
                    old(task).sub_tasks@[j]@,
                ),
            forall|j: int| i <= j < count ==> #[trigger] task.sub_tasks@[j] == old(task).sub_tasks@[j],
        decreases count - i,
    {
        apply_no_weekends_formula(&mut task.sub_tasks[i]);
        i = i + 1;
    }
    proof {
        lemma_task_views(task.sub_tasks@);
        lemma_task_views(old(task).sub_tasks@);
        lemma_each_without_weekends(task_views(old(task).sub_tasks@));
        assert(task@.sub_tasks =~= each_without_weekends(old(task)@.sub_tasks));
    }
}

} // verus!
