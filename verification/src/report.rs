//! The lines that a run prints.

use crate::cli::Mode;
use crate::error::UnitError;
use crate::stats::{average_nanos, summarize, total_files, TaskResult};
use crate::text::{decimal_digits, decimal_string, decimal_string_wide};
use crate::timing::{duration_nanos, elapsed_text, format_elapsed};
use std::time::Duration;
use vstd::prelude::*;
use vstd::string::*;

verus! {

/// The line for a unit that completed. Units are counted from one.
pub open spec fn done_line(unit: nat) -> Seq<char> {
    "Task "@ + decimal_digits(unit + 1) + " done"@
}

/// The line for a unit that completed, with its running time.
pub open spec fn timed_done_line(unit: nat, nanos: nat) -> Seq<char> {
    "Task "@ + decimal_digits(unit + 1) + " done in "@ + elapsed_text(nanos)
}

/// The line for a unit that failed.
pub open spec fn failed_line(unit: nat, reason: Seq<char>) -> Seq<char> {
    "Task "@ + decimal_digits(unit + 1) + " failed: "@ + reason
}

/// The line that a unit's report gives: heavy units report their running
/// time when they succeed, the others only that they are done.
pub open spec fn completion_line(mode: Mode, unit: nat, outcome: Result<TaskResult, UnitError>) -> Seq<
    char,
> {
    match outcome {
        Ok(result) => if mode == Mode::IoHeavy {
            timed_done_line(unit, duration_nanos(result.task_time))
        } else {
            done_line(unit)
        },
        Err(e) => failed_line(unit, e.reason()),
    }
}

/// The line that closes a run: the number of units and the time it took.
pub open spec fn total_line(task_count: nat, nanos: nat) -> Seq<char> {
    "All "@ + decimal_digits(task_count) + " tasks done in "@ + elapsed_text(nanos)
}

/// The line with the mean running time of the successful units.
pub open spec fn average_line(nanos: nat) -> Seq<char> {
    "Average task time: "@ + elapsed_text(nanos)
}

/// The line with the number of files that the successful units read back.
pub open spec fn files_line(files: nat) -> Seq<char> {
    "Total files processed: "@ + decimal_digits(files)
}

/// The lines that close a run. A heavy run adds its figures over the
/// successful units; the mean is left out where no unit succeeded.
pub open spec fn summary_lines(
    mode: Mode,
    task_count: nat,
    elapsed_nanos: nat,
    results: Seq<TaskResult>,
) -> Seq<Seq<char>> {
    if mode == Mode::IoHeavy {
        if results.len() > 0 {
            seq![
                "---"@,
                total_line(task_count, elapsed_nanos),
                average_line(average_nanos(results)),
                files_line(total_files(results)),
            ]
        } else {
            seq!["---"@, total_line(task_count, elapsed_nanos), files_line(total_files(results))]
        }
    } else {
        seq![total_line(task_count, elapsed_nanos)]
    }
}

/// The texts of a list of lines.
pub open spec fn line_texts(lines: Seq<String>) -> Seq<Seq<char>> {
    Seq::new(lines.len(), |i: int| lines[i]@)
}

/// Renders the line for the report of `unit`.
pub fn render_completion(mode: Mode, unit: usize, outcome: &Result<TaskResult, UnitError>) -> (line:
    String)
    requires
        unit < usize::MAX,
    ensures
        line@ == completion_line(mode, unit as nat, *outcome),
{
    let mut line = String::from_str("Task ");
    let number = decimal_string(unit + 1);
    line.append(number.as_str());
    match outcome {
        Ok(result) => {
            match mode {
                Mode::IoHeavy => {
                    line.append(" done in ");
                    let time = format_elapsed(&result.task_time);
                    line.append(time.as_str());
                },
                _ => {
                    line.append(" done");
                },
            }
        },
        Err(e) => {
            line.append(" failed: ");
            let reason = e.message();
            line.append(reason.as_str());
        },
    }
    line
}

/// Renders the lines that close a run.
pub fn render_summary(mode: Mode, task_count: usize, elapsed: &Duration, results: &Vec<TaskResult>) -> (lines:
    Vec<String>)
    ensures
        line_texts(lines@) == summary_lines(
            mode,
            task_count as nat,
            duration_nanos(*elapsed),
            results@,
        ),
{
    let mut lines: Vec<String> = Vec::new();
    let mut total = String::from_str("All ");
    let count = decimal_string(task_count);
    total.append(count.as_str());
    total.append(" tasks done in ");
    let time = format_elapsed(elapsed);
    total.append(time.as_str());
    match mode {
        Mode::IoHeavy => {
            let summary = summarize(results);
            lines.push(String::from_str("---"));
            lines.push(total);
            match summary.average_task_time {
                Some(mean) => {
                    let mut average = String::from_str("Average task time: ");
                    let mean_text = format_elapsed(&mean);
                    average.append(mean_text.as_str());
                    lines.push(average);
                },
                None => {},
            }
            let mut files = String::from_str("Total files processed: ");
            let files_text = decimal_string_wide(summary.total_files);
            files.append(files_text.as_str());
            lines.push(files);
        },
        _ => {
            lines.push(total);
        },
    }
    assert(line_texts(lines@) =~= summary_lines(
        mode,
        task_count as nat,
        duration_nanos(*elapsed),
        results@,
    ));
    lines
}

} // verus!
