use crate::services::clickup::models::{SubTaskView, TaskBodyView};
use crate::services::clickup::service::ClickUpServiceError;
use crate::services::clickup::tree::{
    all_fetched, attached, filled, first_open_slot, is_open_slot, joined_from,
    lemma_first_open_slot, with_sub_tasks, Joined,
};
use vstd::prelude::*;

verus! {

/// The tree is whole: at every level, each task has its time in status and every
/// sub task it lists has been fetched.
pub open spec fn fetched_throughout(task: TaskBodyView) -> bool
    decreases task,
{
    &&& task.time_in_status is Some
    &&& match task.sub_tasks {
        Some(subs) => forall|i: int|
            0 <= i < subs.len() ==> {
                &&& (#[trigger] subs[i]).task is Some
                &&& fetched_throughout(subs[i].task->Some_0)
            },
        None => true,
    }
}

/// A failed fetch among the arrivals from `from` on fails the whole: no tree comes
/// back.
pub proof fn lemma_failure_fails_the_whole(
    task: TaskBodyView,
    arrivals: Seq<Result<TaskBodyView, ClickUpServiceError>>,
    from: int,
    failed: int,
)
    requires
        0 <= from <= failed < arrivals.len(),
        arrivals[failed] is Err,
    ensures
        !(joined_from(task, arrivals, from) is Tree),
    decreases arrivals.len() - from,
{
    match arrivals[from] {
        Err(_) => {},
        Ok(child) => {
            match attached(task, child) {
                Some(next) => {
                    lemma_failure_fails_the_whole(next, arrivals, from + 1, failed);
                },
                None => {},
            }
        },
    }
}

/// A tree that comes back lists no sub task that has not been fetched.
pub proof fn lemma_tree_is_whole(task: TaskBodyView, arrivals: Seq<Result<TaskBodyView, ClickUpServiceError>>, from: int)
    requires
        0 <= from <= arrivals.len(),
    ensures
        joined_from(task, arrivals, from) matches Joined::Tree(whole) ==> all_fetched(whole),
    decreases arrivals.len() - from,
{
    if from < arrivals.len() {
        match arrivals[from] {
            Err(_) => {},
            Ok(child) => {
                match attached(task, child) {
                    Some(next) => {
                        lemma_tree_is_whole(next, arrivals, from + 1);
                    },
                    None => {},
                }
            },
        }
    }
}

/// Where the task has its time in status, and its earlier sub tasks and every
/// arrival are whole, a tree that comes back is whole.
pub proof fn lemma_tree_is_fetched_throughout(
    task: TaskBodyView,
    arrivals: Seq<Result<TaskBodyView, ClickUpServiceError>>,
    from: int,
)
    requires
        0 <= from <= arrivals.len(),
        task.time_in_status is Some,
        forall|k: int|
            from <= k < arrivals.len() ==> (#[trigger] arrivals[k] matches Ok(child)
                ==> fetched_throughout(child)),
        match task.sub_tasks {
            Some(subs) => forall|i: int|
                0 <= i < subs.len() ==> ((#[trigger] subs[i]).task matches Some(child)
                    ==> fetched_throughout(child)),
            None => true,
        },
    ensures
        joined_from(task, arrivals, from) matches Joined::Tree(whole) ==> fetched_throughout(whole),
    decreases arrivals.len() - from,
{
    if from < arrivals.len() {
        match arrivals[from] {
            Err(_) => {},
            Ok(child) => {
                match attached(task, child) {
                    Some(next) => {
                        let subs = task.sub_tasks->Some_0;
                        let at = first_open_slot(subs, child.id, 0);
                        let after = next.sub_tasks->Some_0;
                        lemma_first_open_slot(subs, child.id, 0);
                        assert forall|i: int| 0 <= i < after.len() implies (#[trigger] after[i].task
                            matches Some(c) ==> fetched_throughout(c)) by {
                            if i != at {
                                assert(after[i] == subs[i]);
                            }
                        }
                        lemma_tree_is_fetched_throughout(next, arrivals, from + 1);
                    },
                    None => {},
                }
            },
        }
    } else {
        lemma_tree_is_whole(task, arrivals, from);
    }
}

/// Arrival `k` is the fetched sub task that is listed under `id`.
pub open spec fn arrives_at(arrivals: Seq<Result<TaskBodyView, ClickUpServiceError>>, id: Seq<char>, k: int) -> bool {
    &&& 0 <= k < arrivals.len()
    &&& arrivals[k] matches Ok(child)
    &&& child.id == id
}

/// Reference `i` lists a sub task under `id`.
pub open spec fn lists_at(refs: Seq<SubTaskView>, id: Seq<char>, i: int) -> bool {
    0 <= i < refs.len() && refs[i].id == id
}

/// Some reference lists a sub task under `id`.
pub open spec fn is_listed(refs: Seq<SubTaskView>, id: Seq<char>) -> bool {
    exists|i: int| lists_at(refs, id, i)
}

/// The sub task listed under `id` is among the arrivals.
pub open spec fn arrives(arrivals: Seq<Result<TaskBodyView, ClickUpServiceError>>, id: Seq<char>) -> bool {
    exists|k: int| arrives_at(arrivals, id, k)
}

/// None of the references has been fetched yet, and no two of them share an id.
pub open spec fn lists_each_once(refs: Seq<SubTaskView>) -> bool {
    &&& forall|i: int| 0 <= i < refs.len() ==> (#[trigger] refs[i]).task is None
    &&& forall|i: int, j: int|
        #![trigger refs[i], refs[j]]
        0 <= i < refs.len() && 0 <= j < refs.len() && i != j ==> refs[i].id != refs[j].id
}

/// Every fetch succeeded, and no two of the fetched sub tasks share an id.
pub open spec fn arrives_each_once(arrivals: Seq<Result<TaskBodyView, ClickUpServiceError>>) -> bool {
    &&& forall|k: int| 0 <= k < arrivals.len() ==> (#[trigger] arrivals[k]) is Ok
    &&& forall|k: int, l: int|
        #![trigger arrivals[k], arrivals[l]]
        0 <= k < arrivals.len() && 0 <= l < arrivals.len() && k != l ==> arrivals[k]->Ok_0.id
            != arrivals[l]->Ok_0.id
}

/// The sub tasks arrive in some order of the references: each reference is open and
/// listed once, each sub task arrives once, every arrival is listed and every listed
/// sub task arrives.
pub open spec fn is_arrival_order(
    refs: Seq<SubTaskView>,
    arrivals: Seq<Result<TaskBodyView, ClickUpServiceError>>,
) -> bool {
    &&& lists_each_once(refs)
    &&& arrives_each_once(arrivals)
    &&& forall|k: int|
        0 <= k < arrivals.len() ==> is_listed(refs, (#[trigger] arrivals[k])->Ok_0.id)
    &&& forall|i: int| 0 <= i < refs.len() ==> arrives(arrivals, (#[trigger] refs[i]).id)
}

/// The position at which the sub task listed under `id` arrives.
pub open spec fn arrival_of(arrivals: Seq<Result<TaskBodyView, ClickUpServiceError>>, id: Seq<char>) -> int {
    choose|k: int| arrives_at(arrivals, id, k)
}

/// The references once the first `count` arrivals have been put where they belong:
/// each reference whose sub task is among them holds it, the others are as before.
pub open spec fn settled(
    refs: Seq<SubTaskView>,
    arrivals: Seq<Result<TaskBodyView, ClickUpServiceError>>,
    count: int,
) -> Seq<SubTaskView> {
    Seq::new(
        refs.len(),
        |i: int|
            if arrives_at(arrivals, refs[i].id, arrival_of(arrivals, refs[i].id)) && arrival_of(
                arrivals,
                refs[i].id,
            ) < count {
                filled(refs[i], arrivals[arrival_of(arrivals, refs[i].id)]->Ok_0)
            } else {
                refs[i]
            },
    )
}

/// Where no reference before `at` is open for `id` and `at` is, `at` is the first
/// open reference from `from` on.
proof fn lemma_first_open_slot_is(subs: Seq<SubTaskView>, id: Seq<char>, from: int, at: int)
    requires
        0 <= from <= at < subs.len(),
        is_open_slot(subs, id, at),
        forall|j: int| from <= j < at ==> !is_open_slot(subs, id, j),
    ensures
        first_open_slot(subs, id, from) == at,
    decreases at - from,
{
    if from < at {
        lemma_first_open_slot_is(subs, id, from + 1, at);
    }
}

/// In an arrival order, two arrivals under one id are one arrival.
proof fn lemma_arrival_of(
    refs: Seq<SubTaskView>,
    arrivals: Seq<Result<TaskBodyView, ClickUpServiceError>>,
    id: Seq<char>,
    k: int,
)
    requires
        is_arrival_order(refs, arrivals),
        arrives_at(arrivals, id, k),
    ensures
        arrival_of(arrivals, id) == k,
{
    let other = arrival_of(arrivals, id);
    assert(arrives_at(arrivals, id, other));
    if other != k {
        assert(arrivals[other]->Ok_0.id != arrivals[k]->Ok_0.id);
    }
}

/// Joining the arrivals from `count` on into the references settled so far gives the
/// tree in which every arrival is settled.
proof fn lemma_join_rest(
    task: TaskBodyView,
    refs: Seq<SubTaskView>,
    arrivals: Seq<Result<TaskBodyView, ClickUpServiceError>>,
    count: int,
)
    requires
        is_arrival_order(refs, arrivals),
        0 <= count <= arrivals.len(),
    ensures
        joined_from(with_sub_tasks(task, settled(refs, arrivals, count)), arrivals, count)
            == Joined::Tree(
            with_sub_tasks(task, settled(refs, arrivals, arrivals.len() as int)),
        ),
    decreases arrivals.len() - count,
{
    let now = settled(refs, arrivals, count);
    if count == arrivals.len() {
        assert forall|i: int| 0 <= i < now.len() implies (#[trigger] now[i]).task is Some by {
            assert(arrives(arrivals, refs[i].id));
            let k = choose|k: int| arrives_at(arrivals, refs[i].id, k);
            lemma_arrival_of(refs, arrivals, refs[i].id, k);
        }
    } else {
        let child = arrivals[count]->Ok_0;
        assert(arrivals[count] is Ok);
        assert(is_listed(refs, arrivals[count]->Ok_0.id));
        let at = choose|i: int| lists_at(refs, child.id, i);
        lemma_arrival_of(refs, arrivals, child.id, count);
        assert(now[at] == refs[at]);
        assert forall|j: int| 0 <= j < at implies !is_open_slot(now, child.id, j) by {
            assert(refs[j].id != refs[at].id);
            assert(now[j].id == refs[j].id);
        }
        lemma_first_open_slot_is(now, child.id, 0, at);
        let next = settled(refs, arrivals, count + 1);
        assert(now.update(at, filled(now[at], child)) =~= next) by {
            assert forall|i: int| 0 <= i < refs.len() implies now.update(
                at,
                filled(now[at], child),
            )[i] == next[i] by {
                if i != at {
                    assert(refs[i].id != refs[at].id);
                    let k = arrival_of(arrivals, refs[i].id);
                    if arrives_at(arrivals, refs[i].id, k) && k == count {
                        assert(false);
                    }
                }
            }
        }
        assert(attached(with_sub_tasks(task, now), child) == Some(with_sub_tasks(task, next)));
        lemma_join_rest(task, refs, arrivals, count + 1);
    }
}

/// In whatever order the sub tasks arrive, the tree comes back, and each reference
/// holds the sub task that is listed under its id.
pub proof fn lemma_join_in_any_order(task: TaskBodyView, arrivals: Seq<Result<TaskBodyView, ClickUpServiceError>>)
    requires
        task.sub_tasks is Some,
        is_arrival_order(task.sub_tasks->Some_0, arrivals),
    ensures
        joined_from(task, arrivals, 0) == Joined::Tree(
            with_sub_tasks(
                task,
                settled(task.sub_tasks->Some_0, arrivals, arrivals.len() as int),
            ),
        ),
        forall|i: int|
            0 <= i < task.sub_tasks->Some_0.len() ==> {
                &&& (#[trigger] settled(
                    task.sub_tasks->Some_0,
                    arrivals,
                    arrivals.len() as int,
                )[i]).task matches Some(child)
                &&& child.id == task.sub_tasks->Some_0[i].id
                &&& arrivals.contains(Ok(child))
                &&& settled(task.sub_tasks->Some_0, arrivals, arrivals.len() as int)[i] == filled(
                    task.sub_tasks->Some_0[i],
                    child,
                )
            },
{
    let refs = task.sub_tasks->Some_0;
    assert(settled(refs, arrivals, 0) =~= refs);
    assert(with_sub_tasks(task, refs) == task);
    lemma_join_rest(task, refs, arrivals, 0);
    let end = settled(refs, arrivals, arrivals.len() as int);
    assert forall|i: int| 0 <= i < refs.len() implies {
        &&& (#[trigger] end[i]).task matches Some(child)
        &&& child.id == refs[i].id
        &&& arrivals.contains(Ok(child))
        &&& end[i] == filled(refs[i], child)
    } by {
        assert(arrives(arrivals, refs[i].id));
        let k = choose|k: int| arrives_at(arrivals, refs[i].id, k);
        lemma_arrival_of(refs, arrivals, refs[i].id, k);
        assert(arrivals[k] == Ok::<TaskBodyView, ClickUpServiceError>(arrivals[k]->Ok_0));
    }
}

/// Two orders of arrival of the same sub tasks give the same tree.
pub proof fn lemma_order_of_arrival_is_immaterial(
    task: TaskBodyView,
    first: Seq<Result<TaskBodyView, ClickUpServiceError>>,
    second: Seq<Result<TaskBodyView, ClickUpServiceError>>,
)
    requires
        task.sub_tasks is Some,
        is_arrival_order(task.sub_tasks->Some_0, first),
        is_arrival_order(task.sub_tasks->Some_0, second),
        forall|k: int| 0 <= k < first.len() ==> second.contains(#[trigger] first[k]),
    ensures
        joined_from(task, first, 0) == joined_from(task, second, 0),
{
    let refs = task.sub_tasks->Some_0;
    lemma_join_in_any_order(task, first);
    lemma_join_in_any_order(task, second);
    let a = settled(refs, first, first.len() as int);
    let b = settled(refs, second, second.len() as int);
    assert forall|i: int| 0 <= i < refs.len() implies a[i] == b[i] by {
        assert(arrives(first, refs[i].id));
        let k = choose|k: int| arrives_at(first, refs[i].id, k);
        lemma_arrival_of(refs, first, refs[i].id, k);
        assert(second.contains(first[k]));
        let l = choose|l: int| 0 <= l < second.len() && second[l] == first[k];
        assert(arrives_at(second, refs[i].id, l));
        lemma_arrival_of(refs, second, refs[i].id, l);
    }
    assert(a =~= b);
}

} // verus!
