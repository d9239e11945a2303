//! The run of a benchmark as a state machine: which units have been
//! dispatched and in what order they have reported.

use vstd::prelude::*;
use vstd::seq_lib::*;
use vstd::set_lib::*;

verus! {

/// How far a run has come.
pub struct RunState {
    /// One unit at a time, each dispatched only after the one before it has
    /// reported.
    pub sequential: bool,
    /// How many units the run is to execute.
    pub task_count: nat,
    /// How many units have been dispatched: the units `0..dispatched`.
    pub dispatched: nat,
    /// The units that have reported, in the order in which they did.
    pub order: Seq<nat>,
}

/// What can happen in a run.
pub enum RunEvent {
    /// The runner asks for the next unit to start.
    Dispatch,
    /// A unit reports that it completed or failed.
    Report { unit: nat },
}

/// The first `n` units in index order.
pub open spec fn index_order(n: nat) -> Seq<nat> {
    Seq::new(n, |k: int| k as nat)
}

impl RunState {
    /// A run before anything has happened.
    pub open spec fn init(sequential: bool, task_count: nat) -> RunState {
        RunState { sequential, task_count, dispatched: 0, order: Seq::empty() }
    }

    /// How many units have reported.
    pub open spec fn reported(self) -> nat {
        self.order.len()
    }

    /// Whether `unit` has been dispatched and has not reported yet.
    pub open spec fn outstanding(self, unit: nat) -> bool {
        unit < self.dispatched && !self.order.contains(unit)
    }

    /// Whether another unit may start now.
    pub open spec fn can_dispatch(self) -> bool {
        &&& self.dispatched < self.task_count
        &&& self.sequential ==> self.order.len() == self.dispatched
    }

    /// The state after the runner asked for the next unit.
    pub open spec fn dispatch(self) -> RunState {
        if self.can_dispatch() {
            RunState { dispatched: self.dispatched + 1, ..self }
        } else {
            self
        }
    }

    /// The state after `unit` reported. A report of a unit that is not
    /// outstanding changes nothing.
    pub open spec fn complete(self, unit: nat) -> RunState {
        if self.outstanding(unit) {
            RunState { order: self.order.push(unit), ..self }
        } else {
            self
        }
    }

    /// The state after one event.
    pub open spec fn step(self, event: RunEvent) -> RunState {
        match event {
            RunEvent::Dispatch => self.dispatch(),
            RunEvent::Report { unit } => self.complete(unit),
        }
    }

    /// The state after a series of events.
    pub open spec fn run(self, events: Seq<RunEvent>) -> RunState
        decreases events.len(),
    {
        if events.len() == 0 {
            self
        } else {
            self.run(events.drop_last()).step(events.last())
        }
    }

    /// Whether every unit has reported.
    pub open spec fn finished(self) -> bool {
        self.order.len() == self.task_count
    }

    /// What holds of every state that a run can reach.
    pub open spec fn inv(self) -> bool {
        &&& self.dispatched <= self.task_count
        &&& self.order.len() <= self.dispatched
        &&& self.order.no_duplicates()
        &&& forall|k: int| 0 <= k < self.order.len() ==> #[trigger] self.order[k] < self.dispatched
        &&& self.sequential ==> {
            &&& self.order == index_order(self.order.len())
            &&& self.dispatched <= self.order.len() + 1
        }
    }
}

/// Distinct numbers below `bound` are at most `bound` many.
pub proof fn lemma_distinct_below_bound(s: Seq<nat>, bound: nat)
    requires
        s.no_duplicates(),
        forall|k: int| 0 <= k < s.len() ==> #[trigger] s[k] < bound,
    ensures
        s.len() <= bound,
        s.len() == bound ==> forall|u: nat| u < bound ==> s.contains(u),
{
    let t = Seq::new(s.len(), |k: int| s[k] as int);
    let range = set_int_range(0, bound as int);
    lemma_int_range(0, bound as int);
    assert(t.no_duplicates()) by {
        assert forall|i: int, j: int| 0 <= i < t.len() && 0 <= j < t.len() && i != j implies t[i]
            != t[j] by {
            assert(s[i] != s[j]);
        }
    }
    t.unique_seq_to_set();
    assert(t.to_set().subset_of(range)) by {
        assert forall|u: int| t.to_set().contains(u) implies range.contains(u) by {
            let k = choose|k: int| 0 <= k < t.len() && t[k] == u;
            assert(s[k] < bound);
        }
    }
    lemma_len_subset(t.to_set(), range);
    if s.len() == bound {
        lemma_subset_equality(t.to_set(), range);
        assert forall|u: nat| u < bound implies s.contains(u) by {
            assert(range.contains(u as int));
            assert(t.to_set().contains(u as int));
            let k = choose|k: int| 0 <= k < t.len() && t[k] == u as int;
            assert(s[k] == u);
        }
    }
}

/// A run of distinct numbers that holds every number below `bound` is at
/// least `bound` long.
pub proof fn lemma_covering_needs_as_many(s: Seq<nat>, bound: nat)
    requires
        s.no_duplicates(),
        forall|u: nat| u < bound ==> s.contains(u),
    ensures
        s.len() >= bound,
{
    let t = Seq::new(s.len(), |k: int| s[k] as int);
    let range = set_int_range(0, bound as int);
    lemma_int_range(0, bound as int);
    assert(t.no_duplicates()) by {
        assert forall|i: int, j: int| 0 <= i < t.len() && 0 <= j < t.len() && i != j implies t[i]
            != t[j] by {
            assert(s[i] != s[j]);
        }
    }
    t.unique_seq_to_set();
    assert(range.subset_of(t.to_set())) by {
        assert forall|u: int| range.contains(u) implies t.to_set().contains(u) by {
            assert(s.contains(u as nat));
            let k = choose|k: int| 0 <= k < s.len() && s[k] == u as nat;
            assert(t[k] == u);
        }
    }
    seq_to_set_is_finite(t);
    lemma_len_subset(range, t.to_set());
}

/// The invariant holds at the start of a run.
pub proof fn lemma_init_inv(sequential: bool, task_count: nat)
    ensures
        RunState::init(sequential, task_count).inv(),
{
    assert(Seq::<nat>::empty() =~= index_order(0));
}

/// No event breaks the invariant.
pub proof fn lemma_step_inv(state: RunState, event: RunEvent)
    requires
        state.inv(),
    ensures
        state.step(event).inv(),
{
    let next = state.step(event);
    match event {
        RunEvent::Dispatch => {},
        RunEvent::Report { unit } => {
            if state.outstanding(unit) {
                assert(next.order.no_duplicates()) by {
                    assert forall|i: int, j: int|
                        0 <= i < next.order.len() && 0 <= j < next.order.len() && i != j implies next.order[i]
                        != next.order[j] by {
                        if i < state.order.len() {
                            assert(state.order.contains(state.order[i]));
                        }
                        if j < state.order.len() {
                            assert(state.order.contains(state.order[j]));
                        }
                    }
                }
                lemma_distinct_below_bound(next.order, next.dispatched);
                if state.sequential {
                    if state.order.len() < state.dispatched {
                        let n = state.order.len();
                        assert(unit >= n) by {
                            if unit < n {
                                assert(state.order[unit as int] == unit);
                                assert(state.order.contains(unit));
                            }
                        }
                        assert(next.order =~= index_order(next.order.len()));
                    }
                }
            }
        },
    }
}

/// Every state that a run reaches from its start satisfies the invariant.
pub proof fn lemma_run_inv(sequential: bool, task_count: nat, events: Seq<RunEvent>)
    ensures
        RunState::init(sequential, task_count).run(events).inv(),
    decreases events.len(),
{
    let start = RunState::init(sequential, task_count);
    if events.len() == 0 {
        lemma_init_inv(sequential, task_count);
    } else {
        lemma_run_inv(sequential, task_count, events.drop_last());
        lemma_step_inv(start.run(events.drop_last()), events.last());
    }
}

/// Events change neither the number of units nor the way they are run.
pub proof fn lemma_run_keeps_plan(start: RunState, events: Seq<RunEvent>)
    ensures
        start.run(events).task_count == start.task_count,
        start.run(events).sequential == start.sequential,
    decreases events.len(),
{
    if events.len() > 0 {
        lemma_run_keeps_plan(start, events.drop_last());
    }
}

/// Whatever happens, a run never dispatches more units than it was given
/// and never has more reports than dispatched units; no unit reports twice.
/// Once every report is in, exactly `task_count` units were dispatched and
/// each of them has reported exactly once.
pub proof fn lemma_exactly_task_count_units(
    sequential: bool,
    task_count: nat,
    events: Seq<RunEvent>,
)
    ensures
        ({
            let end = RunState::init(sequential, task_count).run(events);
            &&& end.task_count == task_count
            &&& end.dispatched <= task_count
            &&& end.reported() <= end.dispatched
            &&& end.order.no_duplicates()
            &&& end.finished() ==> {
                &&& end.dispatched == task_count
                &&& end.reported() == task_count
                &&& forall|unit: nat| unit < task_count ==> end.order.contains(unit)
            }
        }),
{
    let start = RunState::init(sequential, task_count);
    let end = start.run(events);
    lemma_run_inv(sequential, task_count, events);
    lemma_run_keeps_plan(start, events);
    if end.finished() {
        lemma_distinct_below_bound(end.order, task_count);
    }
}

/// In a sequential run the units report strictly in index order: the
/// `k`-th report is that of unit `k`, and a unit starts only after all the
/// units before it have reported.
pub proof fn lemma_sequential_reports_in_index_order(task_count: nat, events: Seq<RunEvent>)
    ensures
        ({
            let end = RunState::init(true, task_count).run(events);
            &&& forall|k: int| 0 <= k < end.order.len() ==> #[trigger] end.order[k] == k
            &&& end.dispatched <= end.reported() + 1
        }),
{
    let start = RunState::init(true, task_count);
    lemma_run_inv(true, task_count, events);
    lemma_run_keeps_plan(start, events);
}

/// The events of a run in which `task_count` units start at once and then
/// report in the given order.
pub open spec fn all_at_once(task_count: nat, order: Seq<nat>) -> Seq<RunEvent> {
    Seq::new(task_count, |i: int| RunEvent::Dispatch) + Seq::new(
        order.len(),
        |k: int| RunEvent::Report { unit: order[k] },
    )
}

/// Units that are not run one at a time can all be started before any of
/// them reports.
proof fn lemma_all_started(task_count: nat, started: nat)
    requires
        started <= task_count,
    ensures
        RunState::init(false, task_count).run(all_at_once(started, Seq::empty())) == (RunState {
            dispatched: started,
            ..RunState::init(false, task_count)
        }),
    decreases started,
{
    if started > 0 {
        lemma_all_started(task_count, (started - 1) as nat);
        assert(all_at_once(started, Seq::empty()).drop_last() =~= all_at_once(
            (started - 1) as nat,
            Seq::empty(),
        ));
    } else {
        assert(all_at_once(started, Seq::empty()) =~= Seq::<RunEvent>::empty());
    }
}

/// Units that are not run one at a time may report in any order: for every
/// order of distinct units there is a run in which they report in it.
pub proof fn lemma_concurrent_reports_in_any_order(task_count: nat, order: Seq<nat>)
    requires
        order.no_duplicates(),
        forall|k: int| 0 <= k < order.len() ==> #[trigger] order[k] < task_count,
    ensures
        RunState::init(false, task_count).run(all_at_once(task_count, order)) == (RunState {
            dispatched: task_count,
            order,
            ..RunState::init(false, task_count)
        }),
    decreases order.len(),
{
    let start = RunState::init(false, task_count);
    if order.len() == 0 {
        lemma_all_started(task_count, task_count);
        assert(order =~= Seq::<nat>::empty());
    } else {
        let before = order.drop_last();
        lemma_concurrent_reports_in_any_order(task_count, before);
        assert(all_at_once(task_count, order).drop_last() =~= all_at_once(task_count, before));
        assert(all_at_once(task_count, order).last() == RunEvent::Report { unit: order.last() });
        assert(!before.contains(order.last())) by {
            if before.contains(order.last()) {
                let k = choose|k: int| 0 <= k < before.len() && before[k] == order.last();
                assert(order[k] == order[order.len() - 1]);
            }
        }
        assert(before.push(order.last()) =~= order);
    }
}

/// A run that is not finished can always go on: either another unit may
/// start, or a unit is outstanding and its report is awaited.
pub proof fn lemma_unfinished_run_can_go_on(state: RunState)
    requires
        state.inv(),
        !state.finished(),
    ensures
        state.can_dispatch() || exists|unit: nat| state.outstanding(unit),
{
    if !state.can_dispatch() {
        if state.sequential && state.dispatched < state.task_count {
            let unit = state.order.len();
            assert(!state.order.contains(unit)) by {
                if state.order.contains(unit) {
                    let k = choose|k: int| 0 <= k < state.order.len() && state.order[k] == unit;
                    assert(index_order(state.order.len())[k] == k);
                }
            }
            assert(state.outstanding(unit));
        } else {
            assert(state.dispatched == state.task_count);
            if forall|unit: nat| unit < state.dispatched ==> state.order.contains(unit) {
                lemma_covering_needs_as_many(state.order, state.dispatched);
                assert(false);
            }
            let unit = choose|unit: nat| unit < state.dispatched && !state.order.contains(unit);
            assert(state.outstanding(unit));
        }
    }
}

} // verus!
