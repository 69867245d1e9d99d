use crate::domain::metrics::{lemma_task_views, task_views, Task, TaskView};
use vstd::prelude::*;
use vstd::string::StringExecFns;

verus! {

/// The character that writes one decimal digit.
pub open spec fn digit(d: nat) -> char {
    if d == 0 {
        '0'
    } else if d == 1 {
        '1'
    } else if d == 2 {
        '2'
    } else if d == 3 {
        '3'
    } else if d == 4 {
        '4'
    } else if d == 5 {
        '5'
    } else if d == 6 {
        '6'
    } else if d == 7 {
        '7'
    } else if d == 8 {
        '8'
    } else {
        '9'
    }
}

/// A number in decimal, without leading zeros.
pub open spec fn decimal(n: nat) -> Seq<char>
    decreases n,
{
    if n < 10 {
        seq![digit(n)]
    } else {
        decimal(n / 10).push(digit(n % 10))
    }
}

/// Points, given in thousandths, in decimal: the whole points, and the fraction
/// where there is one, without trailing zeros.
pub open spec fn points_text(thousandths: nat) -> Seq<char> {
    let whole = decimal(thousandths / 1000);
    let rest = thousandths % 1000;
    if rest == 0 {
        whole
    } else if rest % 100 == 0 {
        whole + seq!['.', digit(rest / 100)]
    } else if rest % 10 == 0 {
        whole + seq!['.', digit(rest / 100), digit(rest / 10 % 10)]
    } else {
        whole + seq!['.', digit(rest / 100), digit(rest / 10 % 10), digit(rest % 10)]
    }
}

/// One tab for each level of depth.
pub open spec fn tabs(depth: nat) -> Seq<char> {
    Seq::new(depth, |i: int| '\t')
}

/// The line of one task at a depth: a line break, the indentation, then the task's
/// identifier, name, points and times, each total in brackets behind the own value.
pub open spec fn line(task: TaskView, depth: nat) -> Seq<char> {
    seq!['\n'] + tabs(depth) + task.number + seq![' '] + task.name + " - points: "@ + points_text(
        task.points,
    ) + " ("@ + points_text(task.total_points) + "), time_spent: "@ + decimal(
        task.time_in_dev_status,
    ) + " ("@ + decimal(task.total_time_in_dev_status) + ")"@
}

/// The listing of a tree at a depth: the task's line, then the listings of its sub
/// tasks in order, one level deeper.
pub open spec fn listing(task: TaskView, depth: nat) -> Seq<char>
    decreases task,
{
    line(task, depth) + listings(task.sub_tasks, depth + 1)
}

/// The listings of a sequence of trees at one depth, one after the other.
pub open spec fn listings(tasks: Seq<TaskView>, depth: nat) -> Seq<char>
    decreases tasks,
{
    if tasks.len() == 0 {
        Seq::empty()
    } else {
        listings(tasks.drop_last(), depth) + listing(tasks.last(), depth)
    }
}

/// The listing of the first `i + 1` trees is that of the first `i`, then tree `i`.
pub proof fn lemma_listings_step(tasks: Seq<TaskView>, i: int, depth: nat)
    requires
        0 <= i < tasks.len(),
    ensures
        listings(tasks.take(i + 1), depth) == listings(tasks.take(i), depth) + listing(
            tasks[i],
            depth,
        ),
{
    assert(tasks.take(i + 1).drop_last() =~= tasks.take(i));
}

/// The text of one decimal digit.
fn digit_text(d: u64) -> (text: &'static str)
    requires
        d < 10,
    ensures
        text@ == seq![digit(d as nat)],
{
    proof {
        reveal_strlit("0");
        reveal_strlit("1");
        reveal_strlit("2");
        reveal_strlit("3");
        reveal_strlit("4");
        reveal_strlit("5");
        reveal_strlit("6");
        reveal_strlit("7");
        reveal_strlit("8");
        reveal_strlit("9");
    }
    let text = if d == 0 {
        "0"
    } else if d == 1 {
        "1"
    } else if d == 2 {
        "2"
    } else if d == 3 {
        "3"
    } else if d == 4 {
        "4"
    } else if d == 5 {
        "5"
    } else if d == 6 {
        "6"
    } else if d == 7 {
        "7"
    } else if d == 8 {
        "8"
    } else {
        "9"
    };
    assert(text@ =~= seq![digit(d as nat)]);
    text
}

/// Writes a number in decimal behind what `out` holds.
pub fn write_decimal(out: &mut String, n: u64)
    ensures
        final(out)@ == old(out)@ + decimal(n as nat),
    decreases n,
{
    if n >= 10 {
        write_decimal(out, n / 10);
    }
    out.append(digit_text(n % 10));
    assert(out@ =~= old(out)@ + decimal(n as nat));
}

/// Writes points, given in thousandths, behind what `out` holds.
pub fn write_points(out: &mut String, thousandths: u64)
    ensures
        final(out)@ == old(out)@ + points_text(thousandths as nat),
{
    write_decimal(out, thousandths / 1000);
    let rest = thousandths % 1000;
    if rest != 0 {
        proof {
            reveal_strlit(".");
        }
        out.append(".");
        out.append(digit_text(rest / 100));
        if rest % 100 != 0 {
            out.append(digit_text(rest / 10 % 10));
            if rest % 10 != 0 {
                out.append(digit_text(rest % 10));
            }
        }
    }
    assert(out@ =~= old(out)@ + points_text(thousandths as nat));
}

/// Writes the listing of a tree behind what `out` holds, indented by `prefix`.
fn write_listing(out: &mut String, task: &Task, prefix: &String)
    requires
        prefix@ == tabs(prefix@.len()),
    ensures
        final(out)@ == old(out)@ + listing(task@, prefix@.len()),
    decreases task,
{
    let ghost depth = prefix@.len();
    proof {
        reveal_strlit("\n");
        reveal_strlit(" ");
        reveal_strlit("\t");
    }
    out.append("\n");
    out.append(prefix.as_str());
    out.append(task.number.as_str());
    out.append(" ");
    out.append(task.name.as_str());
    out.append(" - points: ");
    write_points(out, task.points);
    out.append(" (");
    write_points(out, task.total_points);
    out.append("), time_spent: ");
    write_decimal(out, task.time_in_dev_status);
    out.append(" (");
    write_decimal(out, task.total_time_in_dev_status);
    out.append(")");
    assert(out@ =~= old(out)@ + line(task@, depth));
    let mut deeper = prefix.clone();
    deeper.append("\t");
    assert(deeper@ =~= tabs(depth + 1));
    let ghost below = task@.sub_tasks;
    proof {
        lemma_task_views(task.sub_tasks@);
    }
    let mut i: usize = 0;
    while i < task.sub_tasks.len()
        invariant
            i <= task.sub_tasks.len(),
            below == task_views(task.sub_tasks@),
            below.len() == task.sub_tasks@.len(),
            forall|j: int| 0 <= j < below.len() ==> #[trigger] below[j] == task.sub_tasks@[j]@,
            deeper@ == tabs(depth + 1),
            deeper@.len() == depth + 1,
            out@ == old(out)@ + line(task@, depth) + listings(below.take(i as int), depth + 1),
        decreases task.sub_tasks.len() - i,
    {
        proof {
            lemma_listings_step(below, i as int, depth + 1);
        }
        write_listing(out, &task.sub_tasks[i], &deeper);
        assert(out@ =~= old(out)@ + line(task@, depth) + listings(
            below.take(i + 1),
            depth + 1,
        ));
        i = i + 1;
    }
    proof {
        assert(below.take(i as int) =~= below);
        assert(out@ =~= old(out)@ + listing(task@, depth));
    }
}

/// The listing of a tree of metrics: one line for each task, sub tasks below their
/// parent and one tab deeper.
pub fn generate_points_vs_time_spent_analysis(task: &Task) -> (report: String)
    ensures
        report@ == listing(task@, 0),
{
    let mut report = String::new();
    let prefix = String::new();
    assert(prefix@ =~= tabs(0));
    write_listing(&mut report, task, &prefix);
    assert(report@ =~= listing(task@, 0));
    report
}

} // verus!
