use crate::services::clickup::models::{
    lemma_sub_task_views, sub_task_views, ClickUpTaskResponseBody, SubTask, SubTaskView,
    TaskBodyView,
};
use crate::services::clickup::service::{ClickUpServiceError, GetTaskRequest};
use vstd::prelude::*;

verus! {

/// Reference `at` is listed under `id` and its sub task has not been fetched yet.
pub open spec fn is_open_slot(subs: Seq<SubTaskView>, id: Seq<char>, at: int) -> bool {
    &&& 0 <= at < subs.len()
    &&& subs[at].id == id
    &&& subs[at].task is None
}

/// The first reference from `from` on that is listed under `id` and not fetched yet;
/// the number of references where there is none.
pub open spec fn first_open_slot(subs: Seq<SubTaskView>, id: Seq<char>, from: int) -> int
    decreases subs.len() - from,
{
    if from < 0 || from >= subs.len() {
        subs.len() as int
    } else if is_open_slot(subs, id, from) {
        from
    } else {
        first_open_slot(subs, id, from + 1)
    }
}

/// The first open reference is open, and none before it is.
pub proof fn lemma_first_open_slot(subs: Seq<SubTaskView>, id: Seq<char>, from: int)
    requires
        0 <= from <= subs.len(),
    ensures
        from <= first_open_slot(subs, id, from) <= subs.len(),
        first_open_slot(subs, id, from) < subs.len() ==> is_open_slot(
            subs,
            id,
            first_open_slot(subs, id, from),
        ),
        forall|j: int| from <= j < first_open_slot(subs, id, from) ==> !is_open_slot(subs, id, j),
    decreases subs.len() - from,
{
    if from < subs.len() && !is_open_slot(subs, id, from) {
        lemma_first_open_slot(subs, id, from + 1);
    }
}

/// A reference with its sub task filled in.
pub open spec fn filled(slot: SubTaskView, child: TaskBodyView) -> SubTaskView {
    SubTaskView {
        id: slot.id,
        task: Some(child),
        custom_id: slot.custom_id,
        name: slot.name,
        points: slot.points,
        date_created: slot.date_created,
    }
}

/// A task with other references to its sub tasks.
pub open spec fn with_sub_tasks(task: TaskBodyView, subs: Seq<SubTaskView>) -> TaskBodyView {
    TaskBodyView {
        id: task.id,
        custom_id: task.custom_id,
        name: task.name,
        text_content: task.text_content,
        description: task.description,
        points: task.points,
        date_created: task.date_created,
        sub_tasks: Some(subs),
        time_in_status: task.time_in_status,
    }
}

/// The task with a fetched sub task put where it belongs: at the first reference
/// that is listed under the sub task's id and still open. `None` where no reference
/// is.
pub open spec fn attached(task: TaskBodyView, child: TaskBodyView) -> Option<TaskBodyView> {
    match task.sub_tasks {
        Some(subs) => {
            let at = first_open_slot(subs, child.id, 0);
            if at < subs.len() {
                Some(with_sub_tasks(task, subs.update(at, filled(subs[at], child))))
            } else {
                None
            }
        },
        None => None,
    }
}

/// Every sub task that the task lists has been fetched.
pub open spec fn all_fetched(task: TaskBodyView) -> bool {
    match task.sub_tasks {
        Some(subs) => forall|i: int| 0 <= i < subs.len() ==> (#[trigger] subs[i]).task is Some,
        None => true,
    }
}

/// How the fetches of a task's sub tasks ended, taken together.
pub ghost enum Joined {
    /// All succeeded and each sub task found its reference: the whole tree.
    Tree(TaskBodyView),
    /// A fetch had failed: the failure of the first such to arrive.
    Failed(ClickUpServiceError),
    /// A sub task arrived that no open reference lists, or one that is listed never
    /// arrived.
    Unmatched,
}

/// Joins the sub tasks from arrival `from` on into the task, in the order in which
/// they arrived. An arrival is the fetched sub task, or the failure of its fetch.
pub open spec fn joined_from(
    task: TaskBodyView,
    arrivals: Seq<Result<TaskBodyView, ClickUpServiceError>>,
    from: int,
) -> Joined
    decreases arrivals.len() - from,
{
    if from < 0 || from >= arrivals.len() {
        if all_fetched(task) {
            Joined::Tree(task)
        } else {
            Joined::Unmatched
        }
    } else {
        match arrivals[from] {
            Err(failure) => Joined::Failed(failure),
            Ok(child) => match attached(task, child) {
                Some(next) => joined_from(next, arrivals, from + 1),
                None => Joined::Unmatched,
            },
        }
    }
}

/// What has arrived, as plain values: each fetched sub task, or the failure of its
/// fetch.
pub open spec fn arrival_views(
    arrivals: Seq<Result<ClickUpTaskResponseBody, ClickUpServiceError>>,
) -> Seq<Result<TaskBodyView, ClickUpServiceError>> {
    Seq::new(
        arrivals.len(),
        |i: int|
            match arrivals[i] {
                Ok(child) => Ok(child@),
                Err(failure) => Err(failure),
            },
    )
}

/// The position of the first reference that is listed under `id` and still open.
pub fn find_open_slot(subs: &Vec<SubTask>, id: &String) -> (at: usize)
    ensures
        at == first_open_slot(sub_task_views(subs@), id@, 0),
{
    let ghost views = sub_task_views(subs@);
    proof {
        lemma_sub_task_views(subs@);
    }
    let mut at: usize = 0;
    while at < subs.len()
        invariant
            at <= subs.len(),
            views == sub_task_views(subs@),
            views.len() == subs@.len(),
            forall|i: int| 0 <= i < subs@.len() ==> #[trigger] views[i] == subs@[i]@,
            first_open_slot(views, id@, 0) == first_open_slot(views, id@, at as int),
        decreases subs.len() - at,
    {
        if subs[at].id == *id && subs[at].task.is_none() {
            return at;
        }
        at = at + 1;
    }
    at
}

/// Puts a fetched sub task where the task lists it.
///
/// The sub task goes to the first reference that is listed under its id and still
/// open. Where there is none the task stays as it was and the failure says so.
pub fn attach_sub_task(task: &mut ClickUpTaskResponseBody, child: ClickUpTaskResponseBody) -> (done:
    Result<(), ClickUpServiceError>)
    ensures
        match attached(old(task)@, child@) {
            Some(next) => done is Ok && final(task)@ == next,
            None => {
                &&& done == Err::<(), ClickUpServiceError>(ClickUpServiceError::UnexpectedError)
                &&& final(task)@ == old(task)@
            },
        },
{
    match task.sub_tasks.take() {
        None => Err(ClickUpServiceError::UnexpectedError),
        Some(mut subs) => {
            let ghost before = subs@;
            proof {
                lemma_sub_task_views(before);
            }
            let at = find_open_slot(&subs, &child.id);
            if at < subs.len() {
                subs[at].task = Some(child);
                proof {
                    lemma_sub_task_views(subs@);
                    assert(sub_task_views(subs@) =~= sub_task_views(before).update(
                        at as int,
                        filled(sub_task_views(before)[at as int], child@),
                    ));
                }
                task.sub_tasks = Some(subs);
                Ok(())
            } else {
                task.sub_tasks = Some(subs);
                Err(ClickUpServiceError::UnexpectedError)
            }
        },
    }
}

/// Whether every sub task that the task lists has been fetched.
pub fn all_sub_tasks_fetched(task: &ClickUpTaskResponseBody) -> (complete: bool)
    ensures
        complete == all_fetched(task@),
{
    match &task.sub_tasks {
        None => true,
        Some(subs) => {
            let ghost views = sub_task_views(subs@);
            proof {
                lemma_sub_task_views(subs@);
            }
            let mut i: usize = 0;
            while i < subs.len()
                invariant
                    i <= subs.len(),
                    views == sub_task_views(subs@),
                    views.len() == subs@.len(),
                    forall|j: int| 0 <= j < subs@.len() ==> #[trigger] views[j] == subs@[j]@,
                    task@.sub_tasks == Some(views),
                    forall|j: int| 0 <= j < i ==> (#[trigger] views[j]).task is Some,
                decreases subs.len() - i,
            {
                if subs[i].task.is_none() {
                    assert(views[i as int].task is None);
                    return false;
                }
                i = i + 1;
            }
            true
        },
    }
}

/// Joins a task with the outcomes of the fetches of its sub tasks, given in the
/// order in which they arrived.
///
/// The first failure among the arrivals fails the whole and is returned: no tree
/// comes back with some sub tasks fetched and others not. Each fetched sub task is
/// put at the first open reference that lists its id, whatever the order of arrival.
/// A sub task that no open reference lists, or a reference whose sub task did not
/// arrive, is an unexpected failure.
pub fn get_task_tree(
    task: ClickUpTaskResponseBody,
    arrivals: Vec<Result<ClickUpTaskResponseBody, ClickUpServiceError>>,
) -> (tree: Result<ClickUpTaskResponseBody, ClickUpServiceError>)
    ensures
        match joined_from(task@, arrival_views(arrivals@), 0) {
            Joined::Tree(whole) => tree matches Ok(built) && built@ == whole,
            Joined::Failed(failure) => tree == Err::<ClickUpTaskResponseBody, ClickUpServiceError>(
                failure,
            ),
            Joined::Unmatched => tree == Err::<ClickUpTaskResponseBody, ClickUpServiceError>(
                ClickUpServiceError::UnexpectedError,
            ),
        },
{
    let mut tree = task;
    let mut rest = arrivals;
    let ghost all = arrival_views(arrivals@);
    let mut i: usize = 0;
    while i < rest.len()
        invariant
            i <= rest.len(),
            rest@.len() == arrivals@.len(),
            all == arrival_views(arrivals@),
            forall|j: int| i <= j < arrivals@.len() ==> #[trigger] rest@[j] == arrivals@[j],
            joined_from(task@, all, 0) == joined_from(tree@, all, i as int),
        decreases rest.len() - i,
    {
        let mut arrival: Result<ClickUpTaskResponseBody, ClickUpServiceError> = Err(
            ClickUpServiceError::UnexpectedError,
        );
        core::mem::swap(&mut rest[i], &mut arrival);
        assert(arrival == arrivals@[i as int]);
        let ghost here = tree@;
        match arrival {
            Err(failure) => {
                assert(all[i as int] == Err::<TaskBodyView, ClickUpServiceError>(failure));
                assert(joined_from(here, all, i as int) == Joined::Failed(failure));
                return Err(failure);
            },
            Ok(child) => {
                assert(all[i as int] == Ok::<TaskBodyView, ClickUpServiceError>(child@));
                match attach_sub_task(&mut tree, child) {
                    Ok(()) => {
                        assert(joined_from(here, all, i as int) == joined_from(
                            tree@,
                            all,
                            i + 1,
                        ));
                    },
                    Err(failure) => {
                        assert(joined_from(here, all, i as int) == Joined::Unmatched);
                        return Err(failure);
                    },
                }
            },
        }
        i = i + 1;
    }
    if all_sub_tasks_fetched(&tree) {
        Ok(tree)
    } else {
        Err(ClickUpServiceError::UnexpectedError)
    }
}

/// The requests for the sub tasks that a task lists: one for each reference, in
/// order, by the reference's id and for the workspace of the request for the task.
pub fn sub_task_requests(task: &ClickUpTaskResponseBody, request_config: &GetTaskRequest) -> (requests:
    Vec<GetTaskRequest>)
    ensures
        match task@.sub_tasks {
            Some(subs) => {
                &&& requests@.len() == subs.len()
                &&& forall|i: int|
                    0 <= i < subs.len() ==> {
                        &&& (#[trigger] requests@[i]).task_id@ == subs[i].id
                        &&& requests@[i].workspace_id == request_config.workspace_id
                    }
            },
            None => requests@.len() == 0,
        },
{
    let mut requests: Vec<GetTaskRequest> = Vec::new();
    match &task.sub_tasks {
        None => {},
        Some(subs) => {
            let ghost views = sub_task_views(subs@);
            proof {
                lemma_sub_task_views(subs@);
            }
            let mut i: usize = 0;
            while i < subs.len()
                invariant
                    i <= subs.len(),
                    views == sub_task_views(subs@),
                    views.len() == subs@.len(),
                    forall|j: int| 0 <= j < subs@.len() ==> #[trigger] views[j] == subs@[j]@,
                    requests@.len() == i,
                    forall|j: int|
                        0 <= j < i ==> {
                            &&& (#[trigger] requests@[j]).task_id@ == views[j].id
                            &&& requests@[j].workspace_id == request_config.workspace_id
                        },
                decreases subs.len() - i,
            {
                let workspace_id = match &request_config.workspace_id {
                    Some(workspace_id) => Some(workspace_id.clone()),
                    None => None,
                };
                requests.push(GetTaskRequest { task_id: subs[i].id.clone(), workspace_id });
                i = i + 1;
            }
        },
    }
    requests
}

} // verus!
