//! The runner: dispatches the units of a run and takes their reports.

use crate::cli::Mode;
use crate::error::UnitError;
use crate::report::{completion_line, line_texts, render_completion, render_summary, summary_lines};
use crate::schedule::{lemma_init_inv, lemma_step_inv, RunEvent, RunState};
use crate::stats::TaskResult;
use crate::timing::duration_nanos;
use std::time::Duration;
use vstd::prelude::*;

verus! {

/// A run in progress.
#[derive(Debug)]
pub struct Runner {
    mode: Mode,
    task_count: usize,
    dispatched: usize,
    /// For each dispatched unit, whether it has reported.
    done: Vec<bool>,
    /// The units that have reported, in the order in which they did.
    order: Vec<usize>,
    /// The results of the units that succeeded, in the order of their reports.
    results: Vec<TaskResult>,
}

impl View for Runner {
    type V = RunState;

    closed spec fn view(&self) -> RunState {
        RunState {
            sequential: self.mode == Mode::Cpu,
            task_count: self.task_count as nat,
            dispatched: self.dispatched as nat,
            order: Seq::new(self.order.len() as nat, |k: int| self.order[k] as nat),
        }
    }
}

impl Runner {
    /// The workload of the run.
    pub closed spec fn workload(&self) -> Mode {
        self.mode
    }

    /// The results of the units that succeeded, in the order of their
    /// reports.
    pub closed spec fn successes(&self) -> Seq<TaskResult> {
        self.results@
    }

    /// Whether the runner is in a state that a run can reach.
    pub closed spec fn wf(&self) -> bool {
        &&& self@.inv()
        &&& self.done.len() == self.dispatched
        &&& forall|u: int|
            0 <= u < self.done.len() ==> (#[trigger] self.done[u] <==> self@.order.contains(
                u as nat,
            ))
    }

    /// What holds of every runner: its state is one that a run can reach,
    /// and only the CPU workload runs its units one at a time.
    pub proof fn lemma_wf(&self)
        requires
            self.wf(),
        ensures
            self@.inv(),
            self@.sequential == (self.workload() == Mode::Cpu),
    {
    }

    /// A runner for `task_count` units of the given workload.
    pub fn new(mode: Mode, task_count: usize) -> (runner: Runner)
        ensures
            runner.wf(),
            runner@ == RunState::init(mode == Mode::Cpu, task_count as nat),
            runner.workload() == mode,
            runner.successes() == Seq::<TaskResult>::empty(),
    {
        let runner = Runner {
            mode,
            task_count,
            dispatched: 0,
            done: Vec::new(),
            order: Vec::new(),
            results: Vec::new(),
        };
        proof {
            lemma_init_inv(mode == Mode::Cpu, task_count as nat);
            assert(runner@.order =~= Seq::<nat>::empty());
        }
        runner
    }

    /// The workload of the run.
    pub fn mode(&self) -> (mode: Mode)
        ensures
            mode == self.workload(),
    {
        self.mode
    }

    /// How many units the run is to execute.
    pub fn task_count(&self) -> (n: usize)
        ensures
            n == self@.task_count,
    {
        self.task_count
    }

    /// How many units have been dispatched.
    pub fn dispatched(&self) -> (n: usize)
        ensures
            n == self@.dispatched,
    {
        self.dispatched
    }

    /// How many units have reported.
    pub fn reported(&self) -> (n: usize)
        ensures
            n == self@.reported(),
    {
        self.order.len()
    }

    /// The units that have reported, in the order in which they did.
    pub fn completion_order(&self) -> (order: &Vec<usize>)
        ensures
            order@.len() == self@.order.len(),
            forall|k: int| 0 <= k < order@.len() ==> order@[k] == self@.order[k],
    {
        &self.order
    }

    /// The results of the units that succeeded, in the order of their
    /// reports.
    pub fn results(&self) -> (results: &Vec<TaskResult>)
        ensures
            results@ == self.successes(),
    {
        &self.results
    }

    /// Whether every unit has reported.
    pub fn is_finished(&self) -> (finished: bool)
        ensures
            finished == self@.finished(),
    {
        self.order.len() == self.task_count
    }

    /// Whether `unit` has been dispatched and has not reported yet.
    pub fn is_outstanding(&self, unit: usize) -> (outstanding: bool)
        requires
            self.wf(),
        ensures
            outstanding == self@.outstanding(unit as nat),
    {
        unit < self.dispatched && !self.done[unit]
    }

    /// Asks for the next unit to start. In a sequential run there is none
    /// while a unit is outstanding; in any run there is none once all units
    /// have been dispatched.
    pub fn next_unit(&mut self) -> (unit: Option<usize>)
        requires
            old(self).wf(),
        ensures
            final(self).wf(),
            final(self)@ == old(self)@.dispatch(),
            final(self).workload() == old(self).workload(),
            final(self).successes() == old(self).successes(),
            unit is Some <==> old(self)@.can_dispatch(),
            unit matches Some(u) ==> u == old(self)@.dispatched,
    {
        let sequential = match self.mode {
            Mode::Cpu => true,
            _ => false,
        };
        if self.dispatched < self.task_count && (!sequential || self.order.len()
            == self.dispatched) {
            let unit: usize = self.dispatched;
            proof {
                lemma_step_inv(self@, RunEvent::Dispatch);
            }
            self.done.push(false);
            self.dispatched = unit + 1;
            proof {
                assert(self@.order =~= old(self)@.order);
                assert(!old(self)@.order.contains(unit as nat)) by {
                    if old(self)@.order.contains(unit as nat) {
                        let k = choose|k: int|
                            0 <= k < old(self)@.order.len() && old(self)@.order[k] == unit as nat;
                        assert(old(self)@.order[k] < old(self)@.dispatched);
                    }
                }
            }
            Some(unit)
        } else {
            None
        }
    }

    /// Takes the report of `unit` and gives the line to print for it. The
    /// report of a unit that is not outstanding is passed over: it changes
    /// nothing and gives no line.
    pub fn complete(&mut self, unit: usize, outcome: Result<TaskResult, UnitError>) -> (line: Option<
        String,
    >)
        requires
            old(self).wf(),
        ensures
            final(self).wf(),
            final(self)@ == old(self)@.complete(unit as nat),
            final(self).workload() == old(self).workload(),
            old(self)@.outstanding(unit as nat) ==> (line matches Some(text) && text@
                == completion_line(old(self).workload(), unit as nat, outcome)),
            !old(self)@.outstanding(unit as nat) ==> line is None,
            final(self).successes() == if old(self)@.outstanding(unit as nat) && outcome is Ok {
                old(self).successes().push(outcome->Ok_0)
            } else {
                old(self).successes()
            },
    {
        if !self.is_outstanding(unit) {
            return None;
        }
        let line = render_completion(self.mode, unit, &outcome);
        proof {
            lemma_step_inv(self@, RunEvent::Report { unit: unit as nat });
        }
        self.done.set(unit, true);
        self.order.push(unit);
        match outcome {
            Ok(result) => {
                self.results.push(result);
            },
            Err(_) => {},
        }
        proof {
            assert(self@.order =~= old(self)@.order.push(unit as nat));
            assert forall|u: int| 0 <= u < self.done.len() implies (#[trigger] self.done[u]
                <==> self@.order.contains(u as nat)) by {
                let before = old(self)@.order;
                let after = self@.order;
                if u == unit {
                    assert(after[before.len() as int] == unit as nat);
                } else {
                    if old(self).done[u] {
                        let k = choose|k: int| 0 <= k < before.len() && before[k] == u as nat;
                        assert(after[k] == u as nat);
                    }
                    if after.contains(u as nat) {
                        let k = choose|k: int| 0 <= k < after.len() && after[k] == u as nat;
                        assert(before[k] == u as nat);
                    }
                }
            }
        }
        Some(line)
    }

    /// The lines that close the run, for the time that it took.
    pub fn summary(&self, elapsed: &Duration) -> (lines: Vec<String>)
        ensures
            line_texts(lines@) == summary_lines(
                self.workload(),
                self@.task_count,
                duration_nanos(*elapsed),
                self.successes(),
            ),
    {
        render_summary(self.mode, self.task_count, elapsed, &self.results)
    }
}

} // verus!
