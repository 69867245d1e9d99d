use crate::domain::metrics::{
    days_of_entry, history_dev_days, lemma_history_dev_days_step, own_dev_days,
    IN_PROGRESS_ORDER_INDEX,
};
use crate::services::clickup::models::{
    ClickUpTaskResponseBody, ClickUpTimeInStatusResponseBody, StatusHistoryView, TaskBodyView,
};
use chrono::Datelike;
use vstd::prelude::*;

verus! {

/// The day of the week on which an instant falls in UTC, counted from Monday as 0,
/// as `chrono` tells it for milliseconds since the Unix epoch; `None` where `chrono`
/// has no date for the instant.
pub uninterp spec fn weekday_of_millis(millis: int) -> Option<int>;

/// A day of the week, counted from Monday as 0, is a Saturday or a Sunday.
pub open spec fn is_weekend(weekday: int) -> bool {
    weekday % 7 == 5 || weekday % 7 == 6
}

/// The Saturdays and Sundays among `days` days in a row, the first of which is
/// the day of the week `start`.
pub open spec fn weekend_days(start: int, days: nat) -> nat
    decreases days,
{
    if days == 0 {
        0
    } else {
        weekend_days(start, (days - 1) as nat) + if is_weekend(start + days - 1) {
            1nat
        } else {
            0nat
        }
    }
}

/// The position of the first entry of a history at or beyond the development
/// threshold; the length of the history where there is none.
pub open spec fn first_dev_entry(history: Seq<StatusHistoryView>, from: int) -> int
    decreases history.len() - from,
{
    if from < 0 || from >= history.len() {
        history.len() as int
    } else if entry_counts(history[from]) {
        from
    } else {
        first_dev_entry(history, from + 1)
    }
}

/// The entry is at or beyond the development threshold.
pub open spec fn entry_counts(entry: StatusHistoryView) -> bool {
    entry.order_index matches Some(index) && index >= IN_PROGRESS_ORDER_INDEX
}

/// When a task first entered development: the time at which the first entry of its
/// history at or beyond the threshold was entered.
pub open spec fn dev_start(task: TaskBodyView) -> Option<i64> {
    match task.time_in_status {
        Some(record) => {
            let at = first_dev_entry(record.status_history, 0);
            if at < record.status_history.len() {
                Some(record.status_history[at].total_time.since)
            } else {
                None
            }
        },
        None => None,
    }
}

/// Days in development that fall on weekdays, for `days` days in a row from the day
/// of the week `start` on; all of them where no start is known.
pub open spec fn weekdays_among(days: nat, start: Option<int>) -> nat {
    match start {
        Some(weekday) => (days - weekend_days(weekday, days)) as nat,
        None => days,
    }
}

/// Among days in a row there are no more weekend days than days.
pub proof fn lemma_weekend_days_bound(start: int, days: nat)
    ensures
        weekend_days(start, days) <= days,
    decreases days,
{
    if days > 0 {
        lemma_weekend_days_bound(start, (days - 1) as nat);
    }
}

/// One for a weekend day, none for another day.
pub open spec fn weekend_day(weekday: int) -> nat {
    if is_weekend(weekday) {
        1
    } else {
        0
    }
}

/// Any seven days in a row hold two weekend days.
pub proof fn lemma_two_in_seven(first: int)
    ensures
        weekend_day(first) + weekend_day(first + 1) + weekend_day(first + 2) + weekend_day(
            first + 3,
        ) + weekend_day(first + 4) + weekend_day(first + 5) + weekend_day(first + 6) == 2,
{
    let r = first % 7;
    assert((first + 1) % 7 == (r + 1) % 7);
    assert((first + 2) % 7 == (r + 2) % 7);
    assert((first + 3) % 7 == (r + 3) % 7);
    assert((first + 4) % 7 == (r + 4) % 7);
    assert((first + 5) % 7 == (r + 5) % 7);
    assert((first + 6) % 7 == (r + 6) % 7);
}

/// Seven more days in a row hold two more weekend days.
pub proof fn lemma_weekend_days_week(start: int, days: nat)
    ensures
        weekend_days(start, days + 7) == weekend_days(start, days) + 2,
{
    let first = start + days;
    assert(weekend_days(start, days + 1) == weekend_days(start, days) + weekend_day(first));
    assert(weekend_days(start, days + 2) == weekend_days(start, days + 1) + weekend_day(
        first + 1,
    ));
    assert(weekend_days(start, days + 3) == weekend_days(start, days + 2) + weekend_day(
        first + 2,
    ));
    assert(weekend_days(start, days + 4) == weekend_days(start, days + 3) + weekend_day(
        first + 3,
    ));
    assert(weekend_days(start, days + 5) == weekend_days(start, days + 4) + weekend_day(
        first + 4,
    ));
    assert(weekend_days(start, days + 6) == weekend_days(start, days + 5) + weekend_day(
        first + 5,
    ));
    assert(weekend_days(start, days + 7) == weekend_days(start, days + 6) + weekend_day(
        first + 6,
    ));
    lemma_two_in_seven(first);
}

/// Whole weeks hold two weekend days each, whatever day they start on.
pub proof fn lemma_weekend_days_weeks(start: int, weeks: nat, rest: nat)
    ensures
        weekend_days(start, 7 * weeks + rest) == 2 * weeks + weekend_days(start, rest),
    decreases weeks,
{
    if weeks > 0 {
        lemma_weekend_days_weeks(start, (weeks - 1) as nat, rest);
        lemma_weekend_days_week(start, (7 * (weeks - 1) + rest) as nat);
    }
}

/// The Saturdays and Sundays among `days` days in a row, the first of which is the
/// day of the week `start`, counted from Monday as 0; for any number of days that
/// 128 bits hold.
pub fn count_weekend_days_among(start: u8, days: u128) -> (count: u128)
    ensures
        count == weekend_days(start as int, days as nat),
        count <= days,
{
    let weeks = days / 7;
    let rest = days % 7;
    let mut count: u128 = 0;
    let mut k: u128 = 0;
    while k < rest
        invariant
            k <= rest < 7,
            count == weekend_days(start as int, k as nat),
            count <= k,
        decreases rest - k,
    {
        let weekday = (start as u128 + k) % 7;
        if weekday == 5 || weekday == 6 {
            count = count + 1;
        }
        k = k + 1;
    }
    proof {
        lemma_weekend_days_weeks(start as int, weeks as nat, rest as nat);
        lemma_weekend_days_bound(start as int, days as nat);
    }
    2 * weeks + count
}

/// The Saturdays and Sundays among `days` days in a row, the first of which is the
/// day of the week `start`, counted from Monday as 0.
pub fn count_weekend_days(start: u8, days: u64) -> (count: u64)
    ensures
        count == weekend_days(start as int, days as nat),
        count <= days,
{
    count_weekend_days_among(start, days as u128) as u64
}

/// Asks `chrono` for the day of the week of an instant: `DateTime::from_timestamp_millis`,
/// then `weekday` and `num_days_from_monday`.
///
/// Claimed of them: the day depends on the instant alone, and is a number below 7.
#[verifier::external_body]
fn weekday_from_monday(millis: i64) -> (weekday: Option<u8>)
    ensures
        (match weekday {
            Some(day) => Some(day as int),
            None => None,
        }) == weekday_of_millis(millis as int),
        weekday matches Some(day) ==> day < 7,
{
    match chrono::DateTime::from_timestamp_millis(millis) {
        Some(at) => Some(at.weekday().num_days_from_monday() as u8),
        None => None,
    }
}

/// Whether the calendar has a date for an instant, given in milliseconds since the
/// Unix epoch.
pub fn is_on_calendar(millis: i64) -> (known: bool)
    ensures
        known == weekday_of_millis(millis as int) is Some,
{
    weekday_from_monday(millis).is_some()
}

/// When the first entry of a record at or beyond the development threshold was
/// entered.
pub fn first_dev_since(record: &ClickUpTimeInStatusResponseBody) -> (since: Option<i64>)
    ensures
        since == (if first_dev_entry(record@.status_history, 0) < record@.status_history.len() {
            Some(
                record@.status_history[first_dev_entry(
                    record@.status_history,
                    0,
                )].total_time.since,
            )
        } else {
            None
        }),
{
    let ghost history = record@.status_history;
    let mut i: usize = 0;
    while i < record.status_history.len()
        invariant
            i <= record.status_history.len(),
            history == record@.status_history,
            history.len() == record.status_history@.len(),
            first_dev_entry(history, 0) == first_dev_entry(history, i as int),
        decreases record.status_history.len() - i,
    {
        let entry = &record.status_history[i];
        assert(history[i as int] == entry@);
        match entry.order_index {
            Some(index) => {
                if index >= IN_PROGRESS_ORDER_INDEX {
                    return Some(entry.total_time.since);
                }
            },
            None => {},
        }
        i = i + 1;
    }
    None
}

/// The days left of `days` in development once the weekend days among them are
/// taken out, where `start` is the day of the week on which development began.
pub fn days_on_weekdays(days: u64, start: Option<u8>) -> (left: u64)
    ensures
        left == weekdays_among(
            days as nat,
            match start {
                Some(weekday) => Some(weekday as int),
                None => None,
            },
        ),
{
    match start {
        Some(weekday) => days - count_weekend_days(weekday, days),
        None => days,
    }
}

/// The most whole days that one history entry can hold.
pub const MOST_DAYS_OF_AN_ENTRY: u128 = 12810238940076077;

/// A task's own days in development, however many they are.
pub fn get_all_days_in_dev_status(task: &ClickUpTaskResponseBody) -> (days: u128)
    ensures
        days == own_dev_days(task@),
{
    match &task.time_in_status {
        None => 0,
        Some(record) => {
            let ghost history = record@.status_history;
            let mut total: u128 = 0;
            let mut i: usize = 0;
            while i < record.status_history.len()
                invariant
                    i <= record.status_history.len(),
                    history == record@.status_history,
                    history.len() == record.status_history.len(),
                    total == history_dev_days(history.take(i as int)),
                    total <= i * MOST_DAYS_OF_AN_ENTRY,
                decreases record.status_history.len() - i,
            {
                let days = days_of_entry(&record.status_history[i]);
                proof {
                    lemma_history_dev_days_step(history, i as int);
                    assert(days <= MOST_DAYS_OF_AN_ENTRY) by {
                        let minutes = history[i as int].total_time.by_minute;
                        assert(minutes / 1440 <= 12810238940076077);
                    }
                    assert((i + 1) * MOST_DAYS_OF_AN_ENTRY == i * MOST_DAYS_OF_AN_ENTRY
                        + MOST_DAYS_OF_AN_ENTRY) by (nonlinear_arith);
                    assert(i * MOST_DAYS_OF_AN_ENTRY <= usize::MAX * MOST_DAYS_OF_AN_ENTRY)
                        by (nonlinear_arith)
                        requires
                            i <= usize::MAX,
                    ;
                }
                total = total + days as u128;
                i = i + 1;
            }
            proof {
                assert(history.take(i as int) =~= history);
            }
            total
        },
    }
}

/// A task's own days in development that fall on weekdays, walking the calendar
/// from the day on which the task first entered development; all its days where it
/// never did. `None` where that day lies outside the calendar.
pub open spec fn calendar_days(task: TaskBodyView) -> Option<nat> {
    match dev_start(task) {
        None => Some(own_dev_days(task)),
        Some(since) => match weekday_of_millis(since as int) {
            Some(weekday) => Some(weekdays_among(own_dev_days(task), Some(weekday))),
            None => None,
        },
    }
}

/// A number of days as 64 bits hold it: `None` where there is none, or where it is
/// too large.
pub open spec fn held(days: Option<nat>) -> Option<u64> {
    match days {
        Some(n) if n <= u64::MAX => Some(n as u64),
        _ => None,
    }
}

/// A task's own days in development that fall on weekdays, walking the calendar
/// from the day on which the task first entered development.
///
/// `None` exactly where that day lies outside the calendar, or where the days left
/// cannot be held in 64 bits.
pub fn get_weekdays_in_dev_status(task: &ClickUpTaskResponseBody) -> (left: Option<u64>)
    ensures
        left == held(calendar_days(task@)),
{
    let days = get_all_days_in_dev_status(task);
    let since = match &task.time_in_status {
        Some(record) => first_dev_since(record),
        None => None,
    };
    let left = match since {
        None => days,
        Some(since) => match weekday_from_monday(since) {
            Some(weekday) => days - count_weekend_days_among(weekday, days),
            None => {
                return None;
            },
        },
    };
    if left <= 18446744073709551615 {
        Some(left as u64)
    } else {
        None
    }
}

} // verus!
