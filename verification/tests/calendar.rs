use clickup_time_in_status_analyzer::domain::calendar::{
    count_weekend_days, count_weekend_days_among, days_on_weekdays, first_dev_since,
    get_all_days_in_dev_status, get_weekdays_in_dev_status, is_on_calendar,
};
use clickup_time_in_status_analyzer::services::clickup::models::{
    ClickUpTaskResponseBody, ClickUpTimeInStatusResponseBody, CurrentStatus, StatusHistory,
    TotalTime,
};

const DAY: i64 = 86_400_000;

fn record(entries: Vec<(Option<i32>, u64, i64)>) -> ClickUpTimeInStatusResponseBody {
    ClickUpTimeInStatusResponseBody {
        current_status: CurrentStatus {
            status: "closed".to_string(),
            total_time: TotalTime { by_minute: 0, since: 0 },
        },
        status_history: entries
            .into_iter()
            .map(|(order_index, by_minute, since)| StatusHistory {
                status: "status".to_string(),
                status_type: "custom".to_string(),
                total_time: TotalTime { by_minute, since },
                order_index,
            })
            .collect(),
    }
}

fn task(time_in_status: Option<ClickUpTimeInStatusResponseBody>) -> ClickUpTaskResponseBody {
    ClickUpTaskResponseBody {
        id: "86a".to_string(),
        custom_id: None,
        name: "a task".to_string(),
        text_content: String::new(),
        description: String::new(),
        points: None,
        date_created: 0,
        sub_tasks: None,
        time_in_status,
    }
}

#[test]
fn weekend_days_are_counted_from_the_first_day_on() {
    assert_eq!(count_weekend_days(0, 0), 0);
    assert_eq!(count_weekend_days(5, 0), 0);
    assert_eq!(count_weekend_days(0, 5), 0);
    assert_eq!(count_weekend_days(0, 6), 1);
    assert_eq!(count_weekend_days(0, 7), 2);
    assert_eq!(count_weekend_days(5, 1), 1);
    assert_eq!(count_weekend_days(5, 2), 2);
    assert_eq!(count_weekend_days(5, 3), 2);
    assert_eq!(count_weekend_days(6, 1), 1);
    assert_eq!(count_weekend_days(6, 2), 1);
    assert_eq!(count_weekend_days(6, 7), 2);
    assert_eq!(count_weekend_days(3, 3), 1);
    assert_eq!(count_weekend_days(4, 10), 4);
    for start in 0..7 {
        assert_eq!(count_weekend_days(start, 14), 4);
        assert_eq!(count_weekend_days(start, 7_000), 2_000);
    }
    assert_eq!(count_weekend_days(12, 2), 2);
    assert_eq!(count_weekend_days(7, 6), 1);
    assert_eq!(count_weekend_days(255, 1), 0);
    assert_eq!(count_weekend_days(0, u64::MAX), 5270498306774157604);
    assert_eq!(count_weekend_days(6, u64::MAX), 5270498306774157605);
    assert_eq!(count_weekend_days_among(6, u64::MAX as u128), 5270498306774157605);
    assert_eq!(count_weekend_days_among(3, 18459554312649626957), 5274158375042750560);
    assert_eq!(count_weekend_days_among(5, 2), 2);
}

#[test]
fn counting_agrees_with_walking_day_by_day() {
    for start in 0..7u8 {
        for days in 0..40u64 {
            let walked =
                (0..days).filter(|k| matches!((start as u64 + k) % 7, 5 | 6)).count() as u64;
            assert_eq!(count_weekend_days(start, days), walked);
            assert_eq!(days_on_weekdays(days, Some(start)), days - walked);
            assert_eq!(days_on_weekdays(days, None), days);
        }
    }
}

#[test]
fn the_calendar_knows_the_days_of_the_week() {
    let thursday = task(Some(record(vec![(Some(5), 7 * 1440, 0)])));
    assert_eq!(get_weekdays_in_dev_status(&thursday), Some(5));
    let saturday = task(Some(record(vec![(Some(5), 2 * 1440, 2 * DAY)])));
    assert_eq!(get_weekdays_in_dev_status(&saturday), Some(0));
    let saturday = task(Some(record(vec![(Some(5), 3 * 1440, 1_729_900_800_000)])));
    assert_eq!(get_weekdays_in_dev_status(&saturday), Some(1));
    let monday = task(Some(record(vec![(Some(8), 5 * 1440, 4 * DAY)])));
    assert_eq!(get_weekdays_in_dev_status(&monday), Some(5));
    let monday = task(Some(record(vec![(Some(8), 6 * 1440, 4 * DAY + DAY - 1)])));
    assert_eq!(get_weekdays_in_dev_status(&monday), Some(5));
    let wednesday = task(Some(record(vec![(Some(5), 4 * 1440, -1)])));
    assert_eq!(get_weekdays_in_dev_status(&wednesday), Some(3));
    let tuesday = task(Some(record(vec![(Some(5), 5 * 1440, 1_700_000_000_000)])));
    assert_eq!(get_weekdays_in_dev_status(&tuesday), Some(4));
}

#[test]
fn the_walk_starts_where_development_first_began() {
    let history = record(vec![
        (Some(2), 50_000, 2 * DAY),
        (None, 50_000, 3 * DAY),
        (Some(5), 7 * 1440, 0),
        (Some(6), 3 * 1440 + 77, 4 * DAY),
    ]);
    assert_eq!(first_dev_since(&history), Some(0));
    assert_eq!(get_weekdays_in_dev_status(&task(Some(history))), Some(7));
    let never = record(vec![(Some(4), 50_000, 2 * DAY), (None, 50_000, 3 * DAY)]);
    assert_eq!(first_dev_since(&never), None);
    assert_eq!(get_weekdays_in_dev_status(&task(Some(never))), Some(0));
    assert_eq!(first_dev_since(&record(vec![])), None);
    assert_eq!(get_weekdays_in_dev_status(&task(Some(record(vec![])))), Some(0));
    assert_eq!(get_weekdays_in_dev_status(&task(None)), Some(0));
}

#[test]
fn an_instant_outside_the_calendar_gives_no_days() {
    assert!(is_on_calendar(0));
    assert!(is_on_calendar(-1));
    assert!(is_on_calendar(1_700_000_000_000));
    assert!(!is_on_calendar(i64::MAX));
    assert!(!is_on_calendar(i64::MIN));
    let beyond = task(Some(record(vec![(Some(5), 1440, i64::MAX)])));
    assert_eq!(get_weekdays_in_dev_status(&beyond), None);
    let unused = task(Some(record(vec![(Some(1), 1440, i64::MAX)])));
    assert_eq!(get_weekdays_in_dev_status(&unused), Some(0));
    let long = task(Some(record((0..1441).map(|_| (Some(5), u64::MAX, 0)).collect())));
    assert_eq!(get_all_days_in_dev_status(&long), 18459554312649626957);
    assert_eq!(get_weekdays_in_dev_status(&long), Some(13185395937606876397));
    let longest = task(Some(record((0..2016).map(|_| (Some(5), u64::MAX, 0)).collect())));
    assert_eq!(get_weekdays_in_dev_status(&longest), Some(18446744073709550880));
    let too_long = task(Some(record((0..2017).map(|_| (Some(5), u64::MAX, 0)).collect())));
    assert_eq!(get_weekdays_in_dev_status(&too_long), None);
    let never = task(Some(record((0..1441).map(|_| (Some(5), u64::MAX, i64::MAX)).collect())));
    assert_eq!(get_weekdays_in_dev_status(&never), None);
}
