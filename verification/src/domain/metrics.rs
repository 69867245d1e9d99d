use crate::services::clickup::models::{
    lemma_sub_task_views, ClickUpTaskResponseBody, StatusHistory, StatusHistoryView, SubTaskView,
    TaskBodyView,
};
use vstd::prelude::*;

verus! {

/// Statuses at or beyond this position of the pipeline count as development.
pub const IN_PROGRESS_ORDER_INDEX: i32 = 5;

/// Minutes in one day.
pub const MINUTES_PER_DAY: u64 = 1440;

/// How a task's totals combine its own value with those of its sub tasks.
#[derive(Debug, Clone, Copy, PartialEq, Eq, Structural)]
pub enum AggregrationMethod {
    /// The sum of the sub tasks' own values; the task's own value is left out.
    Leaf,
    /// The task's own value only.
    Node,
    /// The task's own value and the own values of everything below it.
    NodeAndLeaf,
}

/// Whether days in development count every day or leave out weekends.
#[derive(Debug, Clone, Copy, PartialEq, Eq, Structural)]
pub enum TimeInStatusFormula {
    FullTime,
    NoWeekends,
}

/// The metrics of one task and of the tasks below it.
///
/// Points are held in thousandths of a point, times in whole days.
#[derive(Debug)]
pub struct Task {
    /// The custom id of the task where it has one, else its id.
    pub number: String,
    pub name: String,
    pub points: u64,
    pub total_points: u64,
    pub time_in_dev_status: u64,
    pub total_time_in_dev_status: u64,
    pub sub_tasks: Vec<Task>,
}

/// The metrics of a tree as plain values, with numbers of any size.
pub ghost struct TaskView {
    pub number: Seq<char>,
    pub name: Seq<char>,
    pub points: nat,
    pub total_points: nat,
    pub time_in_dev_status: nat,
    pub total_time_in_dev_status: nat,
    pub sub_tasks: Seq<TaskView>,
}

/// What the metrics of a task hold, as plain values.
pub open spec fn task_view(task: Task) -> TaskView
    decreases task,
{
    TaskView {
        number: task.number@,
        name: task.name@,
        points: task.points as nat,
        total_points: task.total_points as nat,
        time_in_dev_status: task.time_in_dev_status as nat,
        total_time_in_dev_status: task.total_time_in_dev_status as nat,
        sub_tasks: task_views(task.sub_tasks@),
    }
}

/// The views of a sequence of tasks, in order.
pub open spec fn task_views(tasks: Seq<Task>) -> Seq<TaskView>
    decreases tasks,
{
    if tasks.len() == 0 {
        Seq::empty()
    } else {
        task_views(tasks.drop_last()).push(task_view(tasks.last()))
    }
}

impl View for Task {
    type V = TaskView;

    open spec fn view(&self) -> TaskView {
        task_view(*self)
    }
}

/// The views of a sequence of tasks are as many, and each is the view of its task.
pub proof fn lemma_task_views(tasks: Seq<Task>)
    ensures
        task_views(tasks).len() == tasks.len(),
        forall|i: int| 0 <= i < tasks.len() ==> #[trigger] task_views(tasks)[i] == tasks[i]@,
    decreases tasks.len(),
{
    if tasks.len() > 0 {
        lemma_task_views(tasks.drop_last());
    }
}

/// One of the four numbers that a task's metrics hold.
pub ghost enum Quantity {
    Points,
    TotalPoints,
    Days,
    TotalDays,
}

impl TaskView {
    /// The number that `q` names.
    pub open spec fn quantity(self, q: Quantity) -> nat {
        match q {
            Quantity::Points => self.points,
            Quantity::TotalPoints => self.total_points,
            Quantity::Days => self.time_in_dev_status,
            Quantity::TotalDays => self.total_time_in_dev_status,
        }
    }

    /// Every number in the tree can be held in 64 bits.
    pub open spec fn fits(self) -> bool
        decreases self,
    {
        &&& self.points <= u64::MAX
        &&& self.total_points <= u64::MAX
        &&& self.time_in_dev_status <= u64::MAX
        &&& self.total_time_in_dev_status <= u64::MAX
        &&& forall|i: int| 0 <= i < self.sub_tasks.len() ==> (#[trigger] self.sub_tasks[i]).fits()
    }
}

/// The sum of one quantity over a sequence of tasks.
pub open spec fn sum_quantity(tasks: Seq<TaskView>, q: Quantity) -> nat
    decreases tasks.len(),
{
    if tasks.len() == 0 {
        0
    } else {
        sum_quantity(tasks.drop_last(), q) + tasks.last().quantity(q)
    }
}

/// The total that a task reports under `method`, from its own value and its sub tasks.
pub open spec fn rolled_up(
    method: AggregrationMethod,
    own: nat,
    sub_tasks: Seq<TaskView>,
    own_quantity: Quantity,
    total_quantity: Quantity,
) -> nat {
    match method {
        AggregrationMethod::Leaf => sum_quantity(sub_tasks, own_quantity),
        AggregrationMethod::Node => own,
        AggregrationMethod::NodeAndLeaf => own + sum_quantity(sub_tasks, total_quantity),
    }
}

/// Whole days that one history entry adds to the days in development.
pub open spec fn entry_dev_days(entry: StatusHistoryView) -> nat {
    match entry.order_index {
        Some(index) if index >= IN_PROGRESS_ORDER_INDEX => (entry.total_time.by_minute
            / MINUTES_PER_DAY) as nat,
        _ => 0,
    }
}

/// Days in development over a status history: the whole days of each entry at or
/// beyond the development threshold.
pub open spec fn history_dev_days(history: Seq<StatusHistoryView>) -> nat
    decreases history.len(),
{
    if history.len() == 0 {
        0
    } else {
        history_dev_days(history.drop_last()) + entry_dev_days(history.last())
    }
}

/// A task's own days in development; none where it has no status history.
pub open spec fn own_dev_days(task: TaskBodyView) -> nat {
    match task.time_in_status {
        Some(record) => history_dev_days(record.status_history),
        None => 0,
    }
}

/// A task's own points; none where it has no estimate.
pub open spec fn own_points(task: TaskBodyView) -> nat {
    match task.points {
        Some(points) => points as nat,
        None => 0,
    }
}

/// The identifier a task is reported under.
pub open spec fn identifier(task: TaskBodyView) -> Seq<char> {
    match task.custom_id {
        Some(custom_id) => custom_id,
        None => task.id,
    }
}

/// The metrics of a fetched task tree under `method`.
pub open spec fn metrics(task: TaskBodyView, method: AggregrationMethod) -> TaskView
    decreases task,
{
    let sub_tasks = match task.sub_tasks {
        Some(subs) => sub_metrics(subs, method),
        None => Seq::empty(),
    };
    TaskView {
        number: identifier(task),
        name: task.name,
        points: own_points(task),
        total_points: rolled_up(
            method,
            own_points(task),
            sub_tasks,
            Quantity::Points,
            Quantity::TotalPoints,
        ),
        time_in_dev_status: own_dev_days(task),
        total_time_in_dev_status: rolled_up(
            method,
            own_dev_days(task),
            sub_tasks,
            Quantity::Days,
            Quantity::TotalDays,
        ),
        sub_tasks,
    }
}

/// The metrics of the sub tasks that have been fetched, in the order listed.
pub open spec fn sub_metrics(subs: Seq<SubTaskView>, method: AggregrationMethod) -> Seq<TaskView>
    decreases subs,
{
    if subs.len() == 0 {
        Seq::empty()
    } else {
        let before = sub_metrics(subs.drop_last(), method);
        match subs.last().task {
            Some(task) => before.push(metrics(task, method)),
            None => before,
        }
    }
}

/// Adding one more entry to a history adds that entry's days.
pub proof fn lemma_history_dev_days_step(history: Seq<StatusHistoryView>, i: int)
    requires
        0 <= i < history.len(),
    ensures
        history_dev_days(history.take(i + 1)) == history_dev_days(history.take(i)) + entry_dev_days(
            history[i],
        ),
{
    assert(history.take(i + 1).drop_last() =~= history.take(i));
}

/// The days of the first entries of a history never exceed the days of all of it.
pub proof fn lemma_history_dev_days_prefix(history: Seq<StatusHistoryView>, i: int)
    requires
        0 <= i <= history.len(),
    ensures
        history_dev_days(history.take(i)) <= history_dev_days(history),
    decreases history.len() - i,
{
    if i == history.len() {
        assert(history.take(i) =~= history);
    } else {
        lemma_history_dev_days_step(history, i);
        lemma_history_dev_days_prefix(history, i + 1);
    }
}

/// The whole days that one history entry adds to the days in development.
pub fn days_of_entry(entry: &StatusHistory) -> (days: u64)
    ensures
        days == entry_dev_days(entry@),
{
    match entry.order_index {
        Some(index) => {
            if index >= IN_PROGRESS_ORDER_INDEX {
                entry.total_time.by_minute / MINUTES_PER_DAY
            } else {
                0
            }
        },
        None => 0,
    }
}

/// A task's own days in development, or `None` where they cannot be held in 64 bits.
pub fn get_days_in_dev_status(task: &ClickUpTaskResponseBody) -> (days: Option<u64>)
    ensures
        match days {
            Some(d) => d == own_dev_days(task@),
            None => own_dev_days(task@) > u64::MAX,
        },
{
    match &task.time_in_status {
        None => Some(0),
        Some(record) => {
            let ghost history = record@.status_history;
            let mut total: u64 = 0;
            let mut i: usize = 0;
            while i < record.status_history.len()
                invariant
                    i <= record.status_history.len(),
                    history == record@.status_history,
                    history.len() == record.status_history.len(),
                    own_dev_days(task@) == history_dev_days(history),
                    total == history_dev_days(history.take(i as int)),
                decreases record.status_history.len() - i,
            {
                let days = days_of_entry(&record.status_history[i]);
                proof {
                    lemma_history_dev_days_step(history, i as int);
                }
                match total.checked_add(days) {
                    Some(sum) => {
                        total = sum;
                    },
                    None => {
                        proof {
                            lemma_history_dev_days_prefix(history, i + 1);
                        }
                        return None;
                    },
                }
                i = i + 1;
            }
            proof {
                assert(history.take(i as int) =~= history);
            }
            Some(total)
        },
    }
}

/// What the sub tasks add to a task's total under `method`.
pub open spec fn added_by_sub_tasks(
    method: AggregrationMethod,
    sub_tasks: Seq<TaskView>,
    own_quantity: Quantity,
    total_quantity: Quantity,
) -> nat {
    match method {
        AggregrationMethod::Leaf => sum_quantity(sub_tasks, own_quantity),
        AggregrationMethod::Node => 0,
        AggregrationMethod::NodeAndLeaf => sum_quantity(sub_tasks, total_quantity),
    }
}

/// What one sub task adds to its parent's total under `method`.
pub open spec fn added_by(
    method: AggregrationMethod,
    sub_task: TaskView,
    own_quantity: Quantity,
    total_quantity: Quantity,
) -> nat {
    match method {
        AggregrationMethod::Leaf => sub_task.quantity(own_quantity),
        AggregrationMethod::Node => 0,
        AggregrationMethod::NodeAndLeaf => sub_task.quantity(total_quantity),
    }
}

/// The sum over a sequence with one more task is the sum so far and that task's value.
pub proof fn lemma_sum_quantity_push(tasks: Seq<TaskView>, task: TaskView, q: Quantity)
    ensures
        sum_quantity(tasks.push(task), q) == sum_quantity(tasks, q) + task.quantity(q),
{
    assert(tasks.push(task).drop_last() =~= tasks);
}

/// The sum over the first tasks of a sequence never exceeds the sum over all of it.
pub proof fn lemma_sum_quantity_prefix(tasks: Seq<TaskView>, k: int, q: Quantity)
    requires
        0 <= k <= tasks.len(),
    ensures
        sum_quantity(tasks.take(k), q) <= sum_quantity(tasks, q),
    decreases tasks.len(),
{
    if k == tasks.len() {
        assert(tasks.take(k) =~= tasks);
    } else {
        assert(tasks.drop_last().take(k) =~= tasks.take(k));
        lemma_sum_quantity_prefix(tasks.drop_last(), k, q);
    }
}

/// The metrics of the first `i + 1` references are those of the first `i`, and the
/// metrics of reference `i` where it has been fetched.
pub proof fn lemma_sub_metrics_step(subs: Seq<SubTaskView>, i: int, method: AggregrationMethod)
    requires
        0 <= i < subs.len(),
    ensures
        sub_metrics(subs.take(i + 1), method) == match subs[i].task {
            Some(task) => sub_metrics(subs.take(i), method).push(metrics(task, method)),
            None => sub_metrics(subs.take(i), method),
        },
{
    assert(subs.take(i + 1).drop_last() =~= subs.take(i));
}

/// The metrics of the first references open the metrics of all of them.
pub proof fn lemma_sub_metrics_prefix(subs: Seq<SubTaskView>, i: int, method: AggregrationMethod)
    requires
        0 <= i <= subs.len(),
    ensures
        sub_metrics(subs.take(i), method).len() <= sub_metrics(subs, method).len(),
        sub_metrics(subs.take(i), method) == sub_metrics(subs, method).take(
            sub_metrics(subs.take(i), method).len() as int,
        ),
    decreases subs.len() - i,
{
    if i == subs.len() {
        assert(subs.take(i) =~= subs);
        assert(sub_metrics(subs, method).take(sub_metrics(subs, method).len() as int)
            =~= sub_metrics(subs, method));
    } else {
        lemma_sub_metrics_step(subs, i, method);
        lemma_sub_metrics_prefix(subs, i + 1, method);
        let all = sub_metrics(subs, method);
        let next = sub_metrics(subs.take(i + 1), method);
        let here = sub_metrics(subs.take(i), method);
        assert(here =~= next.take(here.len() as int));
        assert(next.take(here.len() as int) =~= all.take(here.len() as int));
    }
}

/// What one converted sub task adds to its parent's points and days under `method`.
fn shares(method: AggregrationMethod, sub_task: &Task) -> (share: (u64, u64))
    ensures
        share.0 == added_by(method, sub_task@, Quantity::Points, Quantity::TotalPoints),
        share.1 == added_by(method, sub_task@, Quantity::Days, Quantity::TotalDays),
{
    match method {
        AggregrationMethod::Leaf => (sub_task.points, sub_task.time_in_dev_status),
        AggregrationMethod::Node => (0, 0),
        AggregrationMethod::NodeAndLeaf => (
            sub_task.total_points,
            sub_task.total_time_in_dev_status,
        ),
    }
}

/// The total under `method` from a task's own value and what its sub tasks add, or
/// `None` where it cannot be held in 64 bits.
fn total_under(method: AggregrationMethod, own: u64, added: u64) -> (total: Option<u64>)
    ensures
        match method {
            AggregrationMethod::Leaf => total == Some(added),
            AggregrationMethod::Node => total == Some(own),
            AggregrationMethod::NodeAndLeaf => match total {
                Some(t) => t == own + added,
                None => own + added > u64::MAX,
            },
        },
{
    match method {
        AggregrationMethod::Leaf => Some(added),
        AggregrationMethod::Node => Some(own),
        AggregrationMethod::NodeAndLeaf => own.checked_add(added),
    }
}

impl Task {
    /// Rolls a fetched task tree up into its metrics under `method`.
    ///
    /// A sub task that has not been fetched is left out. The result is `None`
    /// exactly when some number of the metrics cannot be held in 64 bits.
    pub fn from_response(value: &ClickUpTaskResponseBody, method: AggregrationMethod) -> (task:
        Option<Task>)
        ensures
            task is Some <==> metrics(value@, method).fits(),
            task matches Some(t) ==> t@ == metrics(value@, method),
        decreases value,
    {
        let ghost goal = metrics(value@, method);
        let time_in_dev_status = match get_days_in_dev_status(value) {
            Some(days) => days,
            None => {
                return None;
            },
        };
        let points = match value.points {
            Some(points) => points,
            None => 0,
        };
        let mut sub_tasks: Vec<Task> = Vec::new();
        let mut points_added: u64 = 0;
        let mut days_added: u64 = 0;
        match &value.sub_tasks {
            None => {},
            Some(subs) => {
                let ghost refs = value@.sub_tasks->Some_0;
                proof {
                    lemma_sub_task_views(subs@);
                }
                let mut i: usize = 0;
                while i < subs.len()
                    invariant
                        i <= subs.len(),
                        refs.len() == subs.len(),
                        value.sub_tasks == Some(*subs),
                        forall|j: int| 0 <= j < subs@.len() ==> #[trigger] refs[j] == subs@[j]@,
                        goal == metrics(value@, method),
                        goal.sub_tasks == sub_metrics(refs, method),
                        sub_tasks@.len() == sub_metrics(refs.take(i as int), method).len(),
                        forall|j: int|
                            0 <= j < sub_tasks@.len() ==> (#[trigger] sub_tasks@[j])@
                                == sub_metrics(refs.take(i as int), method)[j],
                        forall|j: int|
                            0 <= j < sub_tasks@.len() ==> (#[trigger] sub_metrics(
                                refs.take(i as int),
                                method,
                            )[j]).fits(),
                        points_added == added_by_sub_tasks(
                            method,
                            sub_metrics(refs.take(i as int), method),
                            Quantity::Points,
                            Quantity::TotalPoints,
                        ),
                        days_added == added_by_sub_tasks(
                            method,
                            sub_metrics(refs.take(i as int), method),
                            Quantity::Days,
                            Quantity::TotalDays,
                        ),
                    decreases subs.len() - i,
                {
                    let ghost before = sub_metrics(refs.take(i as int), method);
                    let ghost after = sub_metrics(refs.take(i + 1), method);
                    proof {
                        lemma_sub_metrics_step(refs, i as int, method);
                        lemma_sub_metrics_prefix(refs, i + 1, method);
                    }
                    match &subs[i].task {
                        None => {},
                        Some(child) => {
                            let ghost wanted = metrics(child@, method);
                            proof {
                                assert(after == before.push(wanted));
                                assert(after[before.len() as int] == wanted);
                                assert(goal.sub_tasks.take(after.len() as int)[before.len() as int]
                                    == goal.sub_tasks[before.len() as int]);
                                lemma_sum_quantity_push(before, wanted, Quantity::Points);
                                lemma_sum_quantity_push(before, wanted, Quantity::TotalPoints);
                                lemma_sum_quantity_push(before, wanted, Quantity::Days);
                                lemma_sum_quantity_push(before, wanted, Quantity::TotalDays);
                                lemma_sum_quantity_prefix(
                                    goal.sub_tasks,
                                    after.len() as int,
                                    Quantity::Points,
                                );
                                lemma_sum_quantity_prefix(
                                    goal.sub_tasks,
                                    after.len() as int,
                                    Quantity::TotalPoints,
                                );
                                lemma_sum_quantity_prefix(
                                    goal.sub_tasks,
                                    after.len() as int,
                                    Quantity::Days,
                                );
                                lemma_sum_quantity_prefix(
                                    goal.sub_tasks,
                                    after.len() as int,
                                    Quantity::TotalDays,
                                );
                            }
                            let converted = match Task::from_response(child, method) {
                                Some(converted) => converted,
                                None => {
                                    return None;
                                },
                            };
                            let share = shares(method, &converted);
                            points_added = match points_added.checked_add(share.0) {
                                Some(sum) => sum,
                                None => {
                                    return None;
                                },
                            };
                            days_added = match days_added.checked_add(share.1) {
                                Some(sum) => sum,
                                None => {
                                    return None;
                                },
                            };
                            sub_tasks.push(converted);
                        },
                    }
                    i = i + 1;
                }
                proof {
                    assert(refs.take(i as int) =~= refs);
                }
            },
        }
        let total_points = match total_under(method, points, points_added) {
            Some(total) => total,
            None => {
                return None;
            },
        };
        let total_time_in_dev_status = match total_under(method, time_in_dev_status, days_added) {
            Some(total) => total,
            None => {
                return None;
            },
        };
        let number = match &value.custom_id {
            Some(custom_id) => custom_id.clone(),
            None => value.id.clone(),
        };
        let task = Task {
            number,
            name: value.name.clone(),
            points,
            total_points,
            time_in_dev_status,
            total_time_in_dev_status,
            sub_tasks,
        };
        proof {
            lemma_task_views(task.sub_tasks@);
            assert(task@.sub_tasks =~= goal.sub_tasks);
        }
        Some(task)
    }
}

} // verus!
