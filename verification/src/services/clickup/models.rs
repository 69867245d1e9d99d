use vstd::prelude::*;

verus! {

/// How long a task has been in one status.
#[derive(Debug, Clone, Copy)]
pub struct TotalTime {
    /// Whole minutes spent in the status.
    pub by_minute: u64,
    /// When the status was entered, in milliseconds since the Unix epoch (UTC).
    pub since: i64,
}

/// The status a task is in right now.
#[derive(Debug, Clone)]
pub struct CurrentStatus {
    pub status: String,
    pub total_time: TotalTime,
}

/// One entry of a task's status history.
#[derive(Debug, Clone)]
pub struct StatusHistory {
    pub status: String,
    pub status_type: String,
    pub total_time: TotalTime,
    /// Position of the status in the pipeline; absent for statuses outside it.
    pub order_index: Option<i32>,
}

/// The time-in-status record of one task.
#[derive(Debug, Clone)]
pub struct ClickUpTimeInStatusResponseBody {
    pub current_status: CurrentStatus,
    pub status_history: Vec<StatusHistory>,
}

/// One fetched task, with references to its immediate sub tasks.
#[derive(Debug)]
pub struct ClickUpTaskResponseBody {
    pub id: String,
    pub custom_id: Option<String>,
    pub name: String,
    pub text_content: String,
    pub description: String,
    /// Story points, in thousandths of a point.
    pub points: Option<u64>,
    /// Creation time, in milliseconds since the Unix epoch (UTC).
    pub date_created: i64,
    pub sub_tasks: Option<Vec<SubTask>>,
    /// Filled in from the task's time-in-status record once both are known.
    pub time_in_status: Option<ClickUpTimeInStatusResponseBody>,
}

/// A reference to a sub task, as listed by its parent.
#[derive(Debug)]
pub struct SubTask {
    pub id: String,
    /// The sub task itself, once it has been fetched.
    pub task: Option<ClickUpTaskResponseBody>,
    pub custom_id: Option<String>,
    pub name: String,
    /// Story points as listed by the parent, in thousandths of a point.
    pub points: Option<u64>,
    /// Creation time, in milliseconds since the Unix epoch (UTC).
    pub date_created: i64,
}

/// The status a task is in, as plain values.
pub ghost struct CurrentStatusView {
    pub status: Seq<char>,
    pub total_time: TotalTime,
}

/// One entry of a status history, as plain values.
pub ghost struct StatusHistoryView {
    pub status: Seq<char>,
    pub status_type: Seq<char>,
    pub total_time: TotalTime,
    pub order_index: Option<i32>,
}

/// A time-in-status record, as plain values.
pub ghost struct TimeInStatusView {
    pub current_status: CurrentStatusView,
    pub status_history: Seq<StatusHistoryView>,
}

/// A fetched task and what hangs below it, as plain values.
pub ghost struct TaskBodyView {
    pub id: Seq<char>,
    pub custom_id: Option<Seq<char>>,
    pub name: Seq<char>,
    pub text_content: Seq<char>,
    pub description: Seq<char>,
    pub points: Option<u64>,
    pub date_created: i64,
    pub sub_tasks: Option<Seq<SubTaskView>>,
    pub time_in_status: Option<TimeInStatusView>,
}

/// A reference to a sub task, as plain values.
pub ghost struct SubTaskView {
    pub id: Seq<char>,
    pub task: Option<TaskBodyView>,
    pub custom_id: Option<Seq<char>>,
    pub name: Seq<char>,
    pub points: Option<u64>,
    pub date_created: i64,
}

/// The characters of an optional string.
pub open spec fn text_of(s: Option<String>) -> Option<Seq<char>> {
    match s {
        Some(t) => Some(t@),
        None => None,
    }
}

impl View for CurrentStatus {
    type V = CurrentStatusView;

    open spec fn view(&self) -> CurrentStatusView {
        CurrentStatusView { status: self.status@, total_time: self.total_time }
    }
}

impl View for StatusHistory {
    type V = StatusHistoryView;

    open spec fn view(&self) -> StatusHistoryView {
        StatusHistoryView {
            status: self.status@,
            status_type: self.status_type@,
            total_time: self.total_time,
            order_index: self.order_index,
        }
    }
}

impl View for ClickUpTimeInStatusResponseBody {
    type V = TimeInStatusView;

    open spec fn view(&self) -> TimeInStatusView {
        TimeInStatusView {
            current_status: self.current_status@,
            status_history: Seq::new(
                self.status_history@.len(),
                |i: int| self.status_history@[i]@,
            ),
        }
    }
}

/// What a fetched task holds, as plain values.
pub open spec fn task_body_view(task: ClickUpTaskResponseBody) -> TaskBodyView
    decreases task,
{
    TaskBodyView {
        id: task.id@,
        custom_id: text_of(task.custom_id),
        name: task.name@,
        text_content: task.text_content@,
        description: task.description@,
        points: task.points,
        date_created: task.date_created,
        sub_tasks: match task.sub_tasks {
            Some(subs) => Some(sub_task_views(subs@)),
            None => None,
        },
        time_in_status: match task.time_in_status {
            Some(record) => Some(record@),
            None => None,
        },
    }
}

/// What a sub task reference holds, as plain values.
pub open spec fn sub_task_view(sub: SubTask) -> SubTaskView
    decreases sub,
{
    SubTaskView {
        id: sub.id@,
        task: match sub.task {
            Some(task) => Some(task_body_view(task)),
            None => None,
        },
        custom_id: text_of(sub.custom_id),
        name: sub.name@,
        points: sub.points,
        date_created: sub.date_created,
    }
}

/// The views of a sequence of sub task references, in order.
pub open spec fn sub_task_views(subs: Seq<SubTask>) -> Seq<SubTaskView>
    decreases subs,
{
    if subs.len() == 0 {
        Seq::empty()
    } else {
        sub_task_views(subs.drop_last()).push(sub_task_view(subs.last()))
    }
}

impl View for ClickUpTaskResponseBody {
    type V = TaskBodyView;

    open spec fn view(&self) -> TaskBodyView {
        task_body_view(*self)
    }
}

impl View for SubTask {
    type V = SubTaskView;

    open spec fn view(&self) -> SubTaskView {
        sub_task_view(*self)
    }
}

/// The views of a sequence of references are as many, and each is the view of its reference.
pub proof fn lemma_sub_task_views(subs: Seq<SubTask>)
    ensures
        sub_task_views(subs).len() == subs.len(),
        forall|i: int| 0 <= i < subs.len() ==> #[trigger] sub_task_views(subs)[i] == subs[i]@,
    decreases subs.len(),
{
    if subs.len() > 0 {
        lemma_sub_task_views(subs.drop_last());
    }
}

} // verus!
