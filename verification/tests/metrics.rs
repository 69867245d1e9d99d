use clickup_time_in_status_analyzer::domain::analysis::{analyze, analyze_and_list};
use clickup_time_in_status_analyzer::domain::metrics::{
    days_of_entry, get_days_in_dev_status, AggregrationMethod, Task, TimeInStatusFormula,
    IN_PROGRESS_ORDER_INDEX,
};
use clickup_time_in_status_analyzer::services::clickup::models::{
    ClickUpTaskResponseBody, ClickUpTimeInStatusResponseBody, CurrentStatus, StatusHistory,
    SubTask, TotalTime,
};

fn entry(order_index: Option<i32>, by_minute: u64) -> StatusHistory {
    StatusHistory {
        status: "status".to_string(),
        status_type: "custom".to_string(),
        total_time: TotalTime { by_minute, since: 0 },
        order_index,
    }
}

fn history(entries: Vec<(Option<i32>, u64)>) -> ClickUpTimeInStatusResponseBody {
    ClickUpTimeInStatusResponseBody {
        current_status: CurrentStatus {
            status: "in progress".to_string(),
            total_time: TotalTime { by_minute: 0, since: 0 },
        },
        status_history: entries.into_iter().map(|(index, minutes)| entry(index, minutes)).collect(),
    }
}

fn reference(child: ClickUpTaskResponseBody) -> SubTask {
    SubTask {
        id: child.id.clone(),
        custom_id: None,
        name: child.name.clone(),
        points: child.points,
        date_created: 0,
        task: Some(child),
    }
}

fn task(
    id: &str,
    points: Option<u64>,
    days: u64,
    children: Vec<ClickUpTaskResponseBody>,
) -> ClickUpTaskResponseBody {
    ClickUpTaskResponseBody {
        id: id.to_string(),
        custom_id: None,
        name: format!("task {id}"),
        text_content: String::new(),
        description: String::new(),
        points,
        date_created: 0,
        sub_tasks: Some(children.into_iter().map(reference).collect()),
        time_in_status: Some(history(vec![(Some(5), days * 1440)])),
    }
}

fn three_levels() -> ClickUpTaskResponseBody {
    let grandchild = task("g", Some(1000), 1, vec![]);
    let first = task("a", Some(2000), 2, vec![grandchild]);
    let second = task("b", Some(4000), 4, vec![]);
    task("r", Some(8000), 8, vec![first, second])
}

fn numbers(task: &Task) -> (u64, u64, u64, u64) {
    (task.points, task.total_points, task.time_in_dev_status, task.total_time_in_dev_status)
}

fn every_total_covers_own(task: &Task) -> bool {
    task.total_points >= task.points
        && task.total_time_in_dev_status >= task.time_in_dev_status
        && task.sub_tasks.iter().all(every_total_covers_own)
}

#[test]
fn leaf_only_end_to_end() {
    let mut child = task("c", Some(4000), 0, vec![]);
    child.time_in_status = None;
    let mut root = task("r", None, 0, vec![child]);
    root.time_in_status = Some(history(vec![(Some(6), 2880)]));
    let metrics = Task::from_response(&root, AggregrationMethod::Leaf).unwrap();
    assert_eq!(metrics.time_in_dev_status, 2);
    assert_eq!(metrics.points, 0);
    assert_eq!(metrics.total_points, 4000);
    assert_eq!(metrics.total_time_in_dev_status, 0);
    assert_eq!(metrics.sub_tasks.len(), 1);
    assert_eq!(numbers(&metrics.sub_tasks[0]), (4000, 0, 0, 0));
}

#[test]
fn node_and_leaf_sums_the_whole_tree() {
    let metrics = Task::from_response(&three_levels(), AggregrationMethod::NodeAndLeaf).unwrap();
    assert_eq!(numbers(&metrics), (8000, 15000, 8, 15));
    assert_eq!(numbers(&metrics.sub_tasks[0]), (2000, 3000, 2, 3));
    assert_eq!(numbers(&metrics.sub_tasks[0].sub_tasks[0]), (1000, 1000, 1, 1));
    assert_eq!(numbers(&metrics.sub_tasks[1]), (4000, 4000, 4, 4));
}

#[test]
fn node_only_reports_own_values_at_every_level() {
    let metrics = Task::from_response(&three_levels(), AggregrationMethod::Node).unwrap();
    assert_eq!(numbers(&metrics), (8000, 8000, 8, 8));
    assert_eq!(numbers(&metrics.sub_tasks[0]), (2000, 2000, 2, 2));
    assert_eq!(numbers(&metrics.sub_tasks[0].sub_tasks[0]), (1000, 1000, 1, 1));
    assert_eq!(numbers(&metrics.sub_tasks[1]), (4000, 4000, 4, 4));
}

#[test]
fn leaf_only_sums_the_own_values_of_sub_tasks_at_every_level() {
    let metrics = Task::from_response(&three_levels(), AggregrationMethod::Leaf).unwrap();
    assert_eq!(numbers(&metrics), (8000, 6000, 8, 6));
    assert_eq!(numbers(&metrics.sub_tasks[0]), (2000, 1000, 2, 1));
    assert_eq!(numbers(&metrics.sub_tasks[0].sub_tasks[0]), (1000, 0, 1, 0));
    assert_eq!(numbers(&metrics.sub_tasks[1]), (4000, 0, 4, 0));
}

#[test]
fn totals_cover_own_values_where_own_values_count() {
    for method in [AggregrationMethod::Node, AggregrationMethod::NodeAndLeaf] {
        let metrics = Task::from_response(&three_levels(), method).unwrap();
        assert!(every_total_covers_own(&metrics));
    }
    let leaf = Task::from_response(&three_levels(), AggregrationMethod::Leaf).unwrap();
    assert!(!every_total_covers_own(&leaf));
}

#[test]
fn converting_twice_gives_the_same_metrics() {
    let tree = three_levels();
    for method in
        [AggregrationMethod::Leaf, AggregrationMethod::Node, AggregrationMethod::NodeAndLeaf]
    {
        let first = Task::from_response(&tree, method).unwrap();
        let second = Task::from_response(&tree, method).unwrap();
        assert_eq!(format!("{first:?}"), format!("{second:?}"));
    }
}

#[test]
fn identifier_is_the_custom_id_where_there_is_one() {
    let mut with_custom = task("86a", None, 0, vec![]);
    with_custom.custom_id = Some("DEV-12".to_string());
    let plain = task("86b", None, 0, vec![]);
    let root = task("86c", None, 0, vec![with_custom, plain]);
    let metrics = Task::from_response(&root, AggregrationMethod::NodeAndLeaf).unwrap();
    assert_eq!(metrics.number, "86c");
    assert_eq!(metrics.name, "task 86c");
    assert_eq!(metrics.sub_tasks[0].number, "DEV-12");
    assert_eq!(metrics.sub_tasks[1].number, "86b");
}

#[test]
fn sub_tasks_that_were_not_fetched_are_left_out() {
    let mut root = task("r", Some(1000), 0, vec![task("a", Some(2000), 0, vec![])]);
    let mut open = reference(task("b", Some(4000), 0, vec![]));
    open.task = None;
    root.sub_tasks.as_mut().unwrap().insert(0, open);
    let metrics = Task::from_response(&root, AggregrationMethod::NodeAndLeaf).unwrap();
    assert_eq!(metrics.sub_tasks.len(), 1);
    assert_eq!(metrics.sub_tasks[0].number, "a");
    assert_eq!(metrics.total_points, 3000);
}

#[test]
fn a_task_without_a_list_of_sub_tasks_has_none() {
    let mut root = task("r", Some(1000), 3, vec![]);
    root.sub_tasks = None;
    let metrics = Task::from_response(&root, AggregrationMethod::Leaf).unwrap();
    assert_eq!(numbers(&metrics), (1000, 0, 3, 0));
    assert!(metrics.sub_tasks.is_empty());
}

#[test]
fn days_in_development_count_whole_days_from_the_threshold_on() {
    assert_eq!(IN_PROGRESS_ORDER_INDEX, 5);
    assert_eq!(days_of_entry(&entry(Some(5), 1440)), 1);
    assert_eq!(days_of_entry(&entry(Some(5), 1439)), 0);
    assert_eq!(days_of_entry(&entry(Some(5), 2879)), 1);
    assert_eq!(days_of_entry(&entry(Some(9), 14400)), 10);
    assert_eq!(days_of_entry(&entry(Some(4), 14400)), 0);
    assert_eq!(days_of_entry(&entry(Some(-1), 14400)), 0);
    assert_eq!(days_of_entry(&entry(None, 14400)), 0);
    let mut root = task("r", None, 0, vec![]);
    root.time_in_status = Some(history(vec![
        (Some(0), 100_000),
        (Some(5), 1500),
        (None, 100_000),
        (Some(6), 2880),
        (Some(7), 1000),
    ]));
    assert_eq!(get_days_in_dev_status(&root), Some(3));
    root.time_in_status = Some(history(vec![]));
    assert_eq!(get_days_in_dev_status(&root), Some(0));
    root.time_in_status = None;
    assert_eq!(get_days_in_dev_status(&root), Some(0));
}

#[test]
fn numbers_that_cannot_be_held_give_no_metrics() {
    let big = u64::MAX;
    let tree = task("r", Some(1), 0, vec![task("a", Some(big), 0, vec![])]);
    assert!(Task::from_response(&tree, AggregrationMethod::NodeAndLeaf).is_none());
    assert!(Task::from_response(&tree, AggregrationMethod::Node).is_some());
    assert!(Task::from_response(&tree, AggregrationMethod::Leaf).is_some());
    let pair = task(
        "r",
        None,
        0,
        vec![task("a", Some(big), 0, vec![]), task("b", Some(1), 0, vec![])],
    );
    assert!(Task::from_response(&pair, AggregrationMethod::Leaf).is_none());
    assert!(Task::from_response(&pair, AggregrationMethod::Node).is_some());
    let mut long = task("r", None, 0, vec![]);
    long.time_in_status = Some(history(vec![(Some(5), big), (Some(5), big)]));
    assert_eq!(get_days_in_dev_status(&long), Some(2 * (big / 1440)));
    long.time_in_status = Some(history((0..1441).map(|_| (Some(5), big)).collect()));
    assert_eq!(get_days_in_dev_status(&long), None);
    assert!(Task::from_response(&long, AggregrationMethod::Node).is_none());
    let below = task("r", None, 0, vec![long]);
    assert!(Task::from_response(&below, AggregrationMethod::Node).is_none());
}

#[test]
fn analysis_counts_times_as_the_formula_says() {
    let tree = three_levels();
    let full =
        analyze(&tree, AggregrationMethod::NodeAndLeaf, TimeInStatusFormula::FullTime).unwrap();
    assert_eq!(numbers(&full), (8000, 15000, 8, 15));
    let weekdays =
        analyze(&tree, AggregrationMethod::NodeAndLeaf, TimeInStatusFormula::NoWeekends).unwrap();
    assert_eq!(numbers(&weekdays), (8000, 15000, 6, 11));
    assert_eq!(numbers(&weekdays.sub_tasks[0]), (2000, 3000, 2, 3));
    assert_eq!(numbers(&weekdays.sub_tasks[1]), (4000, 4000, 3, 3));
    let listed =
        analyze_and_list(&tree, AggregrationMethod::Node, TimeInStatusFormula::NoWeekends).unwrap();
    assert_eq!(
        listed,
        "\nr task r - points: 8 (8), time_spent: 6 (6)\
         \n\ta task a - points: 2 (2), time_spent: 2 (2)\
         \n\t\tg task g - points: 1 (1), time_spent: 1 (1)\
         \n\tb task b - points: 4 (4), time_spent: 3 (3)"
    );
    let too_big = task("r", Some(1), 0, vec![task("a", Some(u64::MAX), 0, vec![])]);
    assert!(analyze(&too_big, AggregrationMethod::NodeAndLeaf, TimeInStatusFormula::FullTime)
        .is_none());
    assert!(analyze_and_list(
        &too_big,
        AggregrationMethod::NodeAndLeaf,
        TimeInStatusFormula::NoWeekends
    )
    .is_none());
}
