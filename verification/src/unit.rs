//! One I/O work unit: create the files, read them back while the simulated
//! network calls run, remove the files, report.

use crate::cli::Mode;
use crate::error::UnitError;
use crate::retry::RetryPolicy;
use vstd::prelude::*;

verus! {

/// How many numeric steps a CPU unit makes.
pub const CPU_ITERATIONS: usize = 10_000_000;

/// The fixed figures of an I/O work unit.
#[derive(Debug, Clone, Copy, PartialEq, Eq, Structural)]
pub struct UnitPlan {
    /// How many files the unit writes and reads back.
    pub file_count: usize,
    /// The nominal size of each file in mebibytes; zero for small text files.
    pub file_size_mb: usize,
    /// How many network calls the unit simulates.
    pub network_calls: usize,
    /// The wait between writing and reading, in milliseconds.
    pub settle_ms: u64,
    /// How each file is read back.
    pub retry: RetryPolicy,
}

/// The plan of a basic I/O unit.
pub open spec fn basic_plan_spec() -> UnitPlan {
    UnitPlan {
        file_count: 50,
        file_size_mb: 0,
        network_calls: 20,
        settle_ms: 0,
        retry: RetryPolicy { max_attempts: 10, backoff_ms: 10 },
    }
}

/// The plan of a heavy I/O unit: fewer files, each large, hashed and
/// compressed, read back as the files of a basic unit are.
pub open spec fn heavy_plan_spec() -> UnitPlan {
    UnitPlan {
        file_count: 10,
        file_size_mb: 2,
        network_calls: 5,
        settle_ms: 5,
        retry: RetryPolicy { max_attempts: 10, backoff_ms: 10 },
    }
}

/// The plan of a basic I/O unit.
pub fn basic_plan() -> (plan: UnitPlan)
    ensures
        plan == basic_plan_spec(),
{
    UnitPlan {
        file_count: 50,
        file_size_mb: 0,
        network_calls: 20,
        settle_ms: 0,
        retry: RetryPolicy { max_attempts: 10, backoff_ms: 10 },
    }
}

/// The plan of a heavy I/O unit.
pub fn heavy_plan() -> (plan: UnitPlan)
    ensures
        plan == heavy_plan_spec(),
{
    UnitPlan {
        file_count: 10,
        file_size_mb: 2,
        network_calls: 5,
        settle_ms: 5,
        retry: RetryPolicy { max_attempts: 10, backoff_ms: 10 },
    }
}

/// The plan of a unit of the given workload; the CPU workload has none.
pub fn plan_for(mode: Mode) -> (plan: Option<UnitPlan>)
    ensures
        plan == match mode {
            Mode::Cpu => None,
            Mode::Io => Some(basic_plan_spec()),
            Mode::IoHeavy => Some(heavy_plan_spec()),
        },
{
    match mode {
        Mode::Cpu => None,
        Mode::Io => Some(basic_plan()),
        Mode::IoHeavy => Some(heavy_plan()),
    }
}

/// Where a unit stands.
#[derive(Debug, Clone, Copy, PartialEq, Eq, Structural)]
pub enum UnitPhase {
    /// The files are being written.
    Creating,
    /// The files are being read back and the network calls simulated.
    Reading,
    /// The files are being removed.
    Cleaning,
    /// The unit has reported.
    Finished,
}

/// What the outside tells a unit.
#[derive(Debug, PartialEq, Eq)]
pub enum UnitEvent {
    /// All writes have ended; one outcome per file, in the order of the
    /// files.
    Created(Vec<Result<(), UnitError>>),
    /// All reads and network calls have ended; one outcome per file, in the
    /// order of the files.
    ReadBack(Vec<Result<String, UnitError>>),
    /// The files have been removed, as far as they could be.
    Removed,
}

/// What a unit asks the outside to do next.
#[derive(Debug, PartialEq, Eq)]
pub enum UnitAction {
    /// Write the files.
    CreateFiles,
    /// Read the files back and simulate the network calls.
    ReadFiles,
    /// Remove the files, passing over any that cannot be removed.
    RemoveFiles,
    /// Hand the result to the runner: the number of files read back, or why
    /// the unit failed.
    Report(Result<usize, UnitError>),
    /// Nothing: the event did not fit the state of the unit.
    Ignore,
}

/// The error of the first operation that failed, in the order of the files.
pub open spec fn first_failure<T>(outcomes: Seq<Result<T, UnitError>>) -> Option<UnitError>
    decreases outcomes.len(),
{
    if outcomes.len() == 0 {
        None
    } else {
        match first_failure(outcomes.drop_last()) {
            Some(e) => Some(e),
            None => match outcomes.last() {
                Ok(_) => None,
                Err(e) => Some(e),
            },
        }
    }
}

/// What the outcomes of the operations on the files of a unit come to:
/// their number where all succeeded, else the first failure.
pub open spec fn joined<T>(outcomes: Seq<Result<T, UnitError>>) -> Result<usize, UnitError> {
    match first_failure(outcomes) {
        None => Ok(outcomes.len() as usize),
        Some(e) => Err(e),
    }
}

/// The first failure is the error of an operation before which all
/// succeeded; there is none exactly if all succeeded.
pub proof fn lemma_first_failure<T>(outcomes: Seq<Result<T, UnitError>>)
    ensures
        first_failure(outcomes) is None <==> forall|i: int|
            0 <= i < outcomes.len() ==> (#[trigger] outcomes[i]) is Ok,
        first_failure(outcomes) matches Some(e) ==> exists|k: int|
            0 <= k < outcomes.len() && #[trigger] outcomes[k] == Err::<T, UnitError>(e)
                && forall|j: int| 0 <= j < k ==> (#[trigger] outcomes[j]) is Ok,
    decreases outcomes.len(),
{
    if outcomes.len() > 0 {
        let before = outcomes.drop_last();
        lemma_first_failure(before);
        assert forall|i: int| 0 <= i < before.len() implies before[i] == outcomes[i] by {}
        match first_failure(before) {
            Some(e) => {
                let k = choose|k: int|
                    0 <= k < before.len() && #[trigger] before[k] == Err::<T, UnitError>(e)
                        && forall|j: int| 0 <= j < k ==> (#[trigger] before[j]) is Ok;
                assert(outcomes[k] == Err::<T, UnitError>(e));
                assert forall|j: int| 0 <= j < k implies (#[trigger] outcomes[j]) is Ok by {
                    assert(before[j] is Ok);
                }
            },
            None => {
                assert forall|j: int| 0 <= j < before.len() implies (#[trigger] outcomes[j]) is Ok by {
                    assert(before[j] is Ok);
                }
                match outcomes.last() {
                    Ok(_) => {},
                    Err(e) => {
                        assert(outcomes[outcomes.len() - 1] == Err::<T, UnitError>(e));
                    },
                }
            },
        }
    }
}

/// Joins the outcomes of the operations on the files of a unit.
pub fn join_outcomes<T>(outcomes: Vec<Result<T, UnitError>>) -> (r: Result<usize, UnitError>)
    ensures
        r == joined(outcomes@),
{
    let ghost all = outcomes@;
    let total: usize = outcomes.len();
    let mut rest = outcomes;
    let mut failure: Option<UnitError> = None;
    while rest.len() > 0
        invariant
            rest.len() <= all.len(),
            rest@ == all.take(rest.len() as int),
            first_failure(all) == match first_failure(rest@) {
                Some(e) => Some(e),
                None => failure,
            },
        decreases rest.len(),
    {
        let ghost before = rest@;
        let last = rest.pop();
        proof {
            assert(rest@ =~= before.drop_last());
            assert(rest@ =~= all.take(rest.len() as int));
        }
        match last {
            Some(Err(e)) => {
                failure = Some(e);
            },
            _ => {},
        }
    }
    assert(all.take(0) =~= Seq::empty());
    match failure {
        None => Ok(total),
        Some(e) => Err(e),
    }
}

/// The state of a unit.
pub struct UnitState {
    /// How many files the unit handles.
    pub file_count: nat,
    /// Where the unit stands.
    pub phase: UnitPhase,
    /// What the unit will report, once that is settled and until it has
    /// been reported.
    pub outcome: Option<Result<usize, UnitError>>,
}

impl UnitState {
    /// A unit that is about to write its files.
    pub open spec fn start(file_count: nat) -> UnitState {
        UnitState { file_count, phase: UnitPhase::Creating, outcome: None }
    }

    /// Whether an event comes in its turn: it fits the phase and, where it
    /// brings outcomes, brings one for each file of the unit.
    pub open spec fn expects(self, event: UnitEvent) -> bool {
        match (self.phase, event) {
            (UnitPhase::Creating, UnitEvent::Created(outcomes)) => outcomes@.len()
                == self.file_count,
            (UnitPhase::Reading, UnitEvent::ReadBack(outcomes)) => outcomes@.len()
                == self.file_count,
            (UnitPhase::Cleaning, UnitEvent::Removed) => true,
            _ => false,
        }
    }

    /// The state after an event. An event out of turn changes nothing. A
    /// unit whose files could not all be written goes on to remove them; so
    /// does a unit that has read its files back, whether all reads succeeded
    /// or not.
    pub open spec fn next(self, event: UnitEvent) -> UnitState {
        if !self.expects(event) {
            self
        } else {
            match event {
                UnitEvent::Created(outcomes) => match first_failure(outcomes@) {
                    None => UnitState { phase: UnitPhase::Reading, ..self },
                    Some(e) => UnitState {
                        phase: UnitPhase::Cleaning,
                        outcome: Some(Err(e)),
                        ..self
                    },
                },
                UnitEvent::ReadBack(outcomes) => UnitState {
                    phase: UnitPhase::Cleaning,
                    outcome: Some(joined(outcomes@)),
                    ..self
                },
                UnitEvent::Removed => UnitState {
                    phase: UnitPhase::Finished,
                    outcome: None,
                    ..self
                },
            }
        }
    }

    /// What the unit asks for in answer to an event.
    pub open spec fn action(self, event: UnitEvent) -> UnitAction {
        if !self.expects(event) {
            UnitAction::Ignore
        } else {
            match event {
                UnitEvent::Created(outcomes) => match first_failure(outcomes@) {
                    None => UnitAction::ReadFiles,
                    Some(e) => UnitAction::RemoveFiles,
                },
                UnitEvent::ReadBack(outcomes) => UnitAction::RemoveFiles,
                UnitEvent::Removed => match self.outcome {
                    Some(result) => UnitAction::Report(result),
                    None => UnitAction::Ignore,
                },
            }
        }
    }

    /// The state after a series of events.
    pub open spec fn run(self, events: Seq<UnitEvent>) -> UnitState
        decreases events.len(),
    {
        if events.len() == 0 {
            self
        } else {
            self.run(events.drop_last()).next(events.last())
        }
    }

    /// What the unit asks for in answer to each of a series of events.
    pub open spec fn actions(self, events: Seq<UnitEvent>) -> Seq<UnitAction> {
        Seq::new(events.len(), |i: int| self.run(events.take(i)).action(events[i]))
    }

    /// What holds of every state that a unit can reach: what it will report
    /// is settled exactly while it removes its files, and a success counts
    /// as many files as the unit has.
    pub open spec fn inv(self) -> bool {
        &&& self.phase == UnitPhase::Cleaning <==> self.outcome is Some
        &&& self.outcome matches Some(Ok(n)) ==> n == self.file_count
    }
}

/// No event breaks the invariant of a unit.
pub proof fn lemma_next_inv(state: UnitState, event: UnitEvent)
    requires
        state.inv(),
        state.file_count <= usize::MAX,
    ensures
        state.next(event).inv(),
        state.next(event).file_count == state.file_count,
{
}

/// Every state that a unit reaches from its start satisfies the invariant.
pub proof fn lemma_unit_run_inv(file_count: nat, events: Seq<UnitEvent>)
    requires
        file_count <= usize::MAX,
    ensures
        UnitState::start(file_count).run(events).inv(),
        UnitState::start(file_count).run(events).file_count == file_count,
    decreases events.len(),
{
    if events.len() > 0 {
        lemma_unit_run_inv(file_count, events.drop_last());
        lemma_next_inv(UnitState::start(file_count).run(events.drop_last()), events.last());
    }
}

/// Whatever happens to a unit, a success that it reports counts exactly as
/// many files as the unit has.
pub proof fn lemma_success_counts_every_file(file_count: nat, events: Seq<UnitEvent>, i: int)
    requires
        file_count <= usize::MAX,
        0 <= i < events.len(),
        UnitState::start(file_count).actions(events)[i] is Report,
    ensures
        UnitState::start(file_count).actions(events)[i] matches UnitAction::Report(Ok(n)) ==> n
            == file_count,
{
    lemma_unit_run_inv(file_count, events.take(i));
}

/// A unit in or past the removal of its files has asked for that removal.
proof fn lemma_removal_was_asked(file_count: nat, events: Seq<UnitEvent>)
    requires
        UnitState::start(file_count).run(events).phase == UnitPhase::Cleaning
            || UnitState::start(file_count).run(events).phase == UnitPhase::Finished,
    ensures
        exists|j: int|
            0 <= j < events.len() && (#[trigger] UnitState::start(file_count).actions(
                events,
            )[j]) is RemoveFiles,
    decreases events.len(),
{
    let start = UnitState::start(file_count);
    if events.len() > 0 {
        let before = events.drop_last();
        let prior = start.run(before);
        let n = before.len() as int;
        assert(events.take(n) =~= before);
        if prior.phase == UnitPhase::Cleaning || prior.phase == UnitPhase::Finished {
            lemma_removal_was_asked(file_count, before);
            let j = choose|j: int|
                0 <= j < before.len() && (#[trigger] start.actions(before)[j]) is RemoveFiles;
            assert(before.take(j) =~= events.take(j));
            assert(start.actions(events)[j] is RemoveFiles);
        } else {
            assert(start.actions(events)[n] is RemoveFiles);
        }
    }
}

/// Whatever happens to a unit, and whether it succeeds or fails, it reports
/// only after it has asked for its files to be removed.
pub proof fn lemma_report_follows_removal(file_count: nat, events: Seq<UnitEvent>, i: int)
    requires
        0 <= i < events.len(),
        UnitState::start(file_count).actions(events)[i] is Report,
    ensures
        exists|j: int|
            0 <= j < i && (#[trigger] UnitState::start(file_count).actions(events)[j]) is RemoveFiles,
{
    let start = UnitState::start(file_count);
    let before = events.take(i);
    lemma_removal_was_asked(file_count, before);
    let j = choose|j: int|
        0 <= j < before.len() && (#[trigger] start.actions(before)[j]) is RemoveFiles;
    assert(before.take(j) =~= events.take(j));
    assert(start.actions(events)[j] is RemoveFiles);
}

/// One I/O work unit in progress.
#[derive(Debug)]
pub struct UnitRun {
    file_count: usize,
    phase: UnitPhase,
    outcome: Option<Result<usize, UnitError>>,
}

impl View for UnitRun {
    type V = UnitState;

    closed spec fn view(&self) -> UnitState {
        UnitState { file_count: self.file_count as nat, phase: self.phase, outcome: self.outcome }
    }
}

impl UnitRun {
    /// Starts a unit of `file_count` files. The first thing it asks for is
    /// the files to be written.
    pub fn start(file_count: usize) -> (started: (UnitRun, UnitAction))
        ensures
            started.0@ == UnitState::start(file_count as nat),
            started.1 is CreateFiles,
    {
        (UnitRun { file_count, phase: UnitPhase::Creating, outcome: None }, UnitAction::CreateFiles)
    }

    /// Where the unit stands.
    pub fn phase(&self) -> (phase: UnitPhase)
        ensures
            phase == self@.phase,
    {
        self.phase
    }

    /// How many files the unit handles.
    pub fn file_count(&self) -> (n: usize)
        ensures
            n == self@.file_count,
    {
        self.file_count
    }

    /// Takes an event and says what to do next.
    pub fn step(&mut self, event: UnitEvent) -> (action: UnitAction)
        ensures
            final(self)@ == old(self)@.next(event),
            action == old(self)@.action(event),
    {
        match self.phase {
            UnitPhase::Creating => match event {
                UnitEvent::Created(outcomes) => {
                    if outcomes.len() == self.file_count {
                        match join_outcomes(outcomes) {
                            Ok(_) => {
                                self.phase = UnitPhase::Reading;
                                UnitAction::ReadFiles
                            },
                            Err(e) => {
                                self.phase = UnitPhase::Cleaning;
                                self.outcome = Some(Err(e));
                                UnitAction::RemoveFiles
                            },
                        }
                    } else {
                        UnitAction::Ignore
                    }
                },
                _ => UnitAction::Ignore,
            },
            UnitPhase::Reading => match event {
                UnitEvent::ReadBack(outcomes) => {
                    if outcomes.len() == self.file_count {
                        self.phase = UnitPhase::Cleaning;
                        self.outcome = Some(join_outcomes(outcomes));
                        UnitAction::RemoveFiles
                    } else {
                        UnitAction::Ignore
                    }
                },
                _ => UnitAction::Ignore,
            },
            UnitPhase::Cleaning => match event {
                UnitEvent::Removed => {
                    let outcome = self.outcome.take();
                    match outcome {
                        Some(result) => {
                            self.phase = UnitPhase::Finished;
                            UnitAction::Report(result)
                        },
                        None => {
                            self.phase = UnitPhase::Finished;
                            UnitAction::Ignore
                        },
                    }
                },
                _ => UnitAction::Ignore,
            },
            UnitPhase::Finished => UnitAction::Ignore,
        }
    }
}

} // verus!
