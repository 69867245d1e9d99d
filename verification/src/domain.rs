//! The metrics of a task tree: how they are rolled up, adjusted and written out.

pub mod analysis;
pub mod calendar;
pub mod laws;
pub mod metrics;
pub mod report;
pub mod walk;
pub mod weekends;

pub use metrics::{
    get_days_in_dev_status, AggregrationMethod, Task, TimeInStatusFormula, IN_PROGRESS_ORDER_INDEX,
};
pub use report::generate_points_vs_time_spent_analysis;
pub use weekends::apply_no_weekends_formula;
