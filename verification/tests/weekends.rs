use clickup_time_in_status_analyzer::domain::metrics::Task;
use clickup_time_in_status_analyzer::domain::weekends::{
    apply_no_weekends_formula, days_without_weekends,
};

fn node(days: u64, total_days: u64, sub_tasks: Vec<Task>) -> Task {
    Task {
        number: "n".to_string(),
        name: "name".to_string(),
        points: 3000,
        total_points: 9000,
        time_in_dev_status: days,
        total_time_in_dev_status: total_days,
        sub_tasks,
    }
}

#[test]
fn seven_days_without_weekends_are_five() {
    assert_eq!(days_without_weekends(7), 5);
    let mut metrics = node(7, 7, vec![]);
    apply_no_weekends_formula(&mut metrics);
    assert_eq!(metrics.time_in_dev_status, 5);
    assert_eq!(metrics.total_time_in_dev_status, 5);
}

#[test]
fn applying_twice_discounts_twice() {
    let mut metrics = node(7, 14, vec![]);
    apply_no_weekends_formula(&mut metrics);
    apply_no_weekends_formula(&mut metrics);
    assert_eq!(metrics.time_in_dev_status, 4);
    assert_eq!(metrics.total_time_in_dev_status, 8);
}

#[test]
fn five_sevenths_are_rounded_up() {
    let expected = [0, 1, 2, 3, 3, 4, 5, 5, 6, 7, 8, 8, 9, 10, 10, 11];
    for (days, left) in expected.iter().enumerate() {
        assert_eq!(days_without_weekends(days as u64), *left, "for {days} days");
    }
    assert_eq!(days_without_weekends(700), 500);
    assert_eq!(days_without_weekends(701), 501);
    assert_eq!(days_without_weekends(u64::MAX), 13176245766935394011);
}

#[test]
fn weekends_leave_every_time_in_the_tree_and_nothing_else() {
    let grandchild = node(21, 21, vec![]);
    let child = node(1, 22, vec![grandchild]);
    let mut root = node(8, 30, vec![child, node(0, 0, vec![])]);
    apply_no_weekends_formula(&mut root);
    assert_eq!((root.time_in_dev_status, root.total_time_in_dev_status), (6, 22));
    let child = &root.sub_tasks[0];
    assert_eq!((child.time_in_dev_status, child.total_time_in_dev_status), (1, 16));
    let grandchild = &child.sub_tasks[0];
    assert_eq!((grandchild.time_in_dev_status, grandchild.total_time_in_dev_status), (15, 15));
    let other = &root.sub_tasks[1];
    assert_eq!((other.time_in_dev_status, other.total_time_in_dev_status), (0, 0));
    assert_eq!(root.sub_tasks.len(), 2);
    assert_eq!((root.points, root.total_points), (3000, 9000));
    assert_eq!((grandchild.points, grandchild.total_points), (3000, 9000));
    assert_eq!(root.number, "n");
    assert_eq!(root.name, "name");
}
