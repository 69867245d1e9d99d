use crate::domain::analysis::{analysis, analyze_and_list};
use crate::domain::calendar::held;
use crate::domain::metrics::{
    lemma_sum_quantity_push, metrics, own_points, sub_metrics, sum_quantity, AggregrationMethod,
    Quantity, TimeInStatusFormula,
};
use crate::domain::report::listing;
use crate::domain::walk::{calendar_days_under, get_calendar_days_under};
use crate::services::clickup::models::{
    lemma_sub_task_views, sub_task_views, ClickUpTaskResponseBody, SubTaskView, TaskBodyView,
};
use vstd::prelude::*;
use vstd::string::StringExecFns;

verus! {

/// An analysis under one method, for one holder of a token.
#[derive(Debug, Clone)]
pub struct Application {
    pub aggregation_method: AggregrationMethod,
    pub base_url: String,
    pub token: String,
}

/// The points that a reference lists for its sub task; none where it lists none.
pub open spec fn listed(sub: SubTaskView) -> nat {
    match sub.points {
        Some(points) => points as nat,
        None => 0,
    }
}

/// The points that a task's references list for its sub tasks, added up.
pub open spec fn listed_points(subs: Seq<SubTaskView>) -> nat
    decreases subs.len(),
{
    if subs.len() == 0 {
        0
    } else {
        listed_points(subs.drop_last()) + listed(subs.last())
    }
}

/// The points of everything below a task: what each of its references lists, and
/// the points of everything below each sub task that has been fetched, at every
/// depth.
pub open spec fn points_below(task: TaskBodyView) -> nat
    decreases task,
{
    match task.sub_tasks {
        Some(subs) => points_among(subs),
        None => 0,
    }
}

/// What references list, and the points of everything below those of their sub tasks
/// that have been fetched.
pub open spec fn points_among(subs: Seq<SubTaskView>) -> nat
    decreases subs,
{
    if subs.len() == 0 {
        0
    } else {
        points_among(subs.drop_last()) + listed(subs.last()) + match subs.last().task {
            Some(child) => points_below(child),
            None => 0,
        }
    }
}

/// The points that a task reports under `method`: under the leaf method what its
/// references list, under the node method its own points, under the node-and-leaf
/// method its own points and the points of everything below it.
pub open spec fn sprint_points(method: AggregrationMethod, task: TaskBodyView) -> nat {
    match method {
        AggregrationMethod::Leaf => match task.sub_tasks {
            Some(subs) => listed_points(subs),
            None => 0,
        },
        AggregrationMethod::Node => own_points(task),
        AggregrationMethod::NodeAndLeaf => own_points(task) + points_below(task),
    }
}

/// Every sub task in the tree has been fetched, and every reference lists the own
/// points of its sub task.
pub open spec fn lists_own_points(task: TaskBodyView) -> bool
    decreases task,
{
    match task.sub_tasks {
        Some(subs) => forall|i: int|
            0 <= i < subs.len() ==> {
                &&& (#[trigger] subs[i]).task matches Some(child)
                &&& listed(subs[i]) == own_points(child)
                &&& lists_own_points(child)
            },
        None => true,
    }
}

/// The points listed by the first references never exceed those listed by all.
pub proof fn lemma_listed_points_prefix(subs: Seq<SubTaskView>, i: int)
    requires
        0 <= i <= subs.len(),
    ensures
        listed_points(subs.take(i)) <= listed_points(subs),
    decreases subs.len() - i,
{
    if i == subs.len() {
        assert(subs.take(i) =~= subs);
    } else {
        assert(subs.take(i + 1).drop_last() =~= subs.take(i));
        lemma_listed_points_prefix(subs, i + 1);
    }
}

/// The points among the first references never exceed those among all.
pub proof fn lemma_points_among_prefix(subs: Seq<SubTaskView>, i: int)
    requires
        0 <= i <= subs.len(),
    ensures
        points_among(subs.take(i)) <= points_among(subs),
    decreases subs.len() - i,
{
    if i == subs.len() {
        assert(subs.take(i) =~= subs);
    } else {
        assert(subs.take(i + 1).drop_last() =~= subs.take(i));
        lemma_points_among_prefix(subs, i + 1);
    }
}

/// In a tree whose references list the own points of their sub tasks, the points
/// under the node-and-leaf method are the total points of the metrics under that
/// method: the own points of every task of the tree.
pub proof fn lemma_sprint_points_are_total_points(task: TaskBodyView)
    requires
        lists_own_points(task),
    ensures
        sprint_points(AggregrationMethod::NodeAndLeaf, task) == metrics(
            task,
            AggregrationMethod::NodeAndLeaf,
        ).total_points,
    decreases task,
{
    match task.sub_tasks {
        Some(subs) => {
            lemma_points_among_are_total_points(subs);
        },
        None => {},
    }
}

/// Among references that list the own points of their sub tasks, the points are the
/// total points of the sub tasks' metrics under the node-and-leaf method.
pub proof fn lemma_points_among_are_total_points(subs: Seq<SubTaskView>)
    requires
        forall|i: int|
            0 <= i < subs.len() ==> {
                &&& (#[trigger] subs[i]).task matches Some(child)
                &&& listed(subs[i]) == own_points(child)
                &&& lists_own_points(child)
            },
    ensures
        points_among(subs) == sum_quantity(
            sub_metrics(subs, AggregrationMethod::NodeAndLeaf),
            Quantity::TotalPoints,
        ),
    decreases subs,
{
    if subs.len() > 0 {
        let before = subs.drop_last();
        assert forall|i: int| 0 <= i < before.len() implies {
            &&& (#[trigger] before[i]).task matches Some(child)
            &&& listed(before[i]) == own_points(child)
            &&& lists_own_points(child)
        } by {
            assert(before[i] == subs[i]);
        }
        lemma_points_among_are_total_points(before);
        let child = subs.last().task->Some_0;
        assert(subs[subs.len() - 1].task is Some);
        lemma_sprint_points_are_total_points(child);
        lemma_sum_quantity_push(
            sub_metrics(before, AggregrationMethod::NodeAndLeaf),
            metrics(child, AggregrationMethod::NodeAndLeaf),
            Quantity::TotalPoints,
        );
    }
}

/// The points that a task's references list, or `None` where they cannot be held in
/// 64 bits.
pub fn get_listed_points(task: &ClickUpTaskResponseBody) -> (listed: Option<u64>)
    ensures
        match task@.sub_tasks {
            Some(subs) => match listed {
                Some(points) => points == listed_points(subs),
                None => listed_points(subs) > u64::MAX,
            },
            None => listed == Some(0u64),
        },
{
    match &task.sub_tasks {
        None => Some(0),
        Some(subs) => {
            let ghost views = sub_task_views(subs@);
            proof {
                lemma_sub_task_views(subs@);
            }
            let mut total: u64 = 0;
            let mut i: usize = 0;
            while i < subs.len()
                invariant
                    i <= subs.len(),
                    views == sub_task_views(subs@),
                    views.len() == subs@.len(),
                    task@.sub_tasks == Some(views),
                    forall|j: int| 0 <= j < subs@.len() ==> #[trigger] views[j] == subs@[j]@,
                    total == listed_points(views.take(i as int)),
                decreases subs.len() - i,
            {
                proof {
                    assert(views.take(i + 1).drop_last() =~= views.take(i as int));
                    lemma_listed_points_prefix(views, i + 1);
                }
                match subs[i].points {
                    Some(points) => {
                        total = match total.checked_add(points) {
                            Some(sum) => sum,
                            None => {
                                return None;
                            },
                        };
                    },
                    None => {},
                }
                i = i + 1;
            }
            proof {
                assert(views.take(i as int) =~= views);
            }
            Some(total)
        },
    }
}

/// The points of everything below a task, or `None` where they cannot be held in 64
/// bits.
pub fn get_points_below(task: &ClickUpTaskResponseBody) -> (below: Option<u64>)
    ensures
        match below {
            Some(points) => points == points_below(task@),
            None => points_below(task@) > u64::MAX,
        },
    decreases task,
{
    match &task.sub_tasks {
        None => Some(0),
        Some(subs) => {
            let ghost views = sub_task_views(subs@);
            proof {
                lemma_sub_task_views(subs@);
            }
            let mut total: u64 = 0;
            let mut i: usize = 0;
            while i < subs.len()
                invariant
                    i <= subs.len(),
                    views == sub_task_views(subs@),
                    views.len() == subs@.len(),
                    task.sub_tasks == Some(*subs),
                    task@.sub_tasks == Some(views),
                    forall|j: int| 0 <= j < subs@.len() ==> #[trigger] views[j] == subs@[j]@,
                    total == points_among(views.take(i as int)),
                decreases subs.len() - i,
            {
                proof {
                    assert(views.take(i + 1).drop_last() =~= views.take(i as int));
                    lemma_points_among_prefix(views, i + 1);
                }
                let listed = match subs[i].points {
                    Some(points) => points,
                    None => 0,
                };
                let deeper = match &subs[i].task {
                    Some(child) => get_points_below(child),
                    None => Some(0),
                };
                let share = match deeper {
                    Some(deeper) => listed.checked_add(deeper),
                    None => None,
                };
                let sum = match share {
                    Some(share) => total.checked_add(share),
                    None => None,
                };
                total = match sum {
                    Some(sum) => sum,
                    None => {
                        return None;
                    },
                };
                i = i + 1;
            }
            proof {
                assert(views.take(i as int) =~= views);
            }
            Some(total)
        },
    }
}

impl Application {
    /// An analysis under `aggregation_method` for the holder of `token`, against the
    /// service at its public address.
    pub fn new(aggregation_method: AggregrationMethod, token: String) -> (application: Self)
        ensures
            application.aggregation_method == aggregation_method,
            application.base_url@ == "https://api.clickup.com"@,
            application.token == token,
    {
        Application {
            aggregation_method,
            base_url: String::from_str("https://api.clickup.com"),
            token,
        }
    }

    /// The points that a task reports under the method of the analysis, going by what
    /// the references list; `None` where they cannot be held in 64 bits.
    pub fn get_sprint_points(&self, task: &ClickUpTaskResponseBody) -> (points: Option<u64>)
        ensures
            match points {
                Some(p) => p == sprint_points(self.aggregation_method, task@),
                None => sprint_points(self.aggregation_method, task@) > u64::MAX,
            },
    {
        let own = match task.points {
            Some(points) => points,
            None => 0,
        };
        match self.aggregation_method {
            AggregrationMethod::Leaf => get_listed_points(task),
            AggregrationMethod::Node => Some(own),
            AggregrationMethod::NodeAndLeaf => match get_points_below(task) {
                Some(below) => own.checked_add(below),
                None => None,
            },
        }
    }

    /// The days in development on weekdays, by the calendar, that a task reports under
    /// the method of the analysis.
    ///
    /// `None` exactly where a task that counts entered development outside the
    /// calendar, or where the days cannot be held in 64 bits.
    pub fn get_days_in_dev_status(&self, task: &ClickUpTaskResponseBody) -> (days: Option<u64>)
        ensures
            days == held(calendar_days_under(self.aggregation_method, task@)),
    {
        get_calendar_days_under(self.aggregation_method, task)
    }

    /// The listing of a fetched tree under the method of the analysis, every day
    /// counted; `None` exactly when some number cannot be held in 64 bits.
    pub fn generate_points_vs_time_spent_analysis(&self, task: &ClickUpTaskResponseBody) -> (report:
        Option<String>)
        ensures
            report is Some <==> metrics(task@, self.aggregation_method).fits(),
            report matches Some(text) ==> text@ == listing(
                analysis(task@, self.aggregation_method, TimeInStatusFormula::FullTime),
                0,
            ),
    {
        analyze_and_list(task, self.aggregation_method, TimeInStatusFormula::FullTime)
    }
}

} // verus!
