use taskbench::cli::Mode;
use taskbench::delay::{network_delay_ms, network_delays, pick_network_delay};
use taskbench::error::UnitError;
use taskbench::retry::RetryPolicy;
use taskbench::unit::{
    basic_plan, heavy_plan, join_outcomes, plan_for, UnitAction, UnitEvent, UnitPhase, UnitPlan, UnitRun,
    CPU_ITERATIONS,
};

fn reads(count: usize) -> Vec<Result<String, UnitError>> {
    (0..count).map(|i| Ok(format!("content {}", i))).collect()
}

fn writes(count: usize) -> Vec<Result<(), UnitError>> {
    (0..count).map(|_| Ok(())).collect()
}

fn missing(name: &str) -> UnitError {
    UnitError::FileSystem { detail: format!("{}: not found", name) }
}

#[test]
fn the_plans_hold_the_fixed_figures() {
    assert_eq!(
        basic_plan(),
        UnitPlan {
            file_count: 50,
            file_size_mb: 0,
            network_calls: 20,
            settle_ms: 0,
            retry: RetryPolicy { max_attempts: 10, backoff_ms: 10 },
        }
    );
    assert_eq!(
        heavy_plan(),
        UnitPlan {
            file_count: 10,
            file_size_mb: 2,
            network_calls: 5,
            settle_ms: 5,
            retry: RetryPolicy { max_attempts: 10, backoff_ms: 10 },
        }
    );
    assert_eq!(heavy_plan().retry, basic_plan().retry);
    assert_eq!(plan_for(Mode::Cpu), None);
    assert_eq!(plan_for(Mode::Io), Some(basic_plan()));
    assert_eq!(plan_for(Mode::IoHeavy), Some(heavy_plan()));
    assert_eq!(CPU_ITERATIONS, 10_000_000);
}

#[test]
fn a_basic_unit_that_succeeds_reports_fifty_files() {
    let (mut unit, first) = UnitRun::start(basic_plan().file_count);
    assert_eq!(first, UnitAction::CreateFiles);
    assert_eq!(unit.phase(), UnitPhase::Creating);
    assert_eq!(unit.step(UnitEvent::Created(writes(50))), UnitAction::ReadFiles);
    assert_eq!(unit.phase(), UnitPhase::Reading);
    assert_eq!(unit.step(UnitEvent::ReadBack(reads(50))), UnitAction::RemoveFiles);
    assert_eq!(unit.phase(), UnitPhase::Cleaning);
    assert_eq!(unit.step(UnitEvent::Removed), UnitAction::Report(Ok(50)));
    assert_eq!(unit.phase(), UnitPhase::Finished);
}

#[test]
fn a_heavy_unit_that_succeeds_reports_ten_files() {
    let (mut unit, _) = UnitRun::start(heavy_plan().file_count);
    unit.step(UnitEvent::Created(writes(10)));
    unit.step(UnitEvent::ReadBack(reads(10)));
    assert_eq!(unit.step(UnitEvent::Removed), UnitAction::Report(Ok(10)));
}

#[test]
fn a_read_back_of_too_few_or_too_many_files_is_passed_over() {
    let (mut unit, _) = UnitRun::start(10);
    assert_eq!(unit.step(UnitEvent::Created(writes(9))), UnitAction::Ignore);
    assert_eq!(unit.phase(), UnitPhase::Creating);
    unit.step(UnitEvent::Created(writes(10)));
    assert_eq!(unit.step(UnitEvent::ReadBack(reads(9))), UnitAction::Ignore);
    assert_eq!(unit.step(UnitEvent::ReadBack(reads(11))), UnitAction::Ignore);
    assert_eq!(unit.phase(), UnitPhase::Reading);
    assert_eq!(unit.step(UnitEvent::ReadBack(reads(10))), UnitAction::RemoveFiles);
}

#[test]
fn a_unit_whose_files_cannot_be_written_removes_them_and_fails() {
    let (mut unit, _) = UnitRun::start(10);
    let mut outcomes = writes(10);
    outcomes[3] = Err(missing("temp_task0_3.dat"));
    outcomes[7] = Err(missing("temp_task0_7.dat"));
    assert_eq!(unit.step(UnitEvent::Created(outcomes)), UnitAction::RemoveFiles);
    assert_eq!(unit.phase(), UnitPhase::Cleaning);
    assert_eq!(unit.step(UnitEvent::Removed), UnitAction::Report(Err(missing("temp_task0_3.dat"))));
    assert_eq!(unit.phase(), UnitPhase::Finished);
}

#[test]
fn a_unit_with_a_failed_read_removes_its_files_and_fails() {
    let (mut unit, _) = UnitRun::start(3);
    unit.step(UnitEvent::Created(writes(3)));
    let outcomes = vec![Ok("a".to_string()), Err(UnitError::HashMismatch), Err(missing("c"))];
    assert_eq!(unit.step(UnitEvent::ReadBack(outcomes)), UnitAction::RemoveFiles);
    assert_eq!(unit.step(UnitEvent::Removed), UnitAction::Report(Err(UnitError::HashMismatch)));
}

#[test]
fn events_that_do_not_fit_the_phase_change_nothing() {
    let (mut unit, _) = UnitRun::start(2);
    assert_eq!(unit.step(UnitEvent::Removed), UnitAction::Ignore);
    assert_eq!(unit.step(UnitEvent::ReadBack(reads(2))), UnitAction::Ignore);
    assert_eq!(unit.phase(), UnitPhase::Creating);
    unit.step(UnitEvent::Created(writes(2)));
    assert_eq!(unit.step(UnitEvent::Created(writes(2))), UnitAction::Ignore);
    assert_eq!(unit.step(UnitEvent::Removed), UnitAction::Ignore);
    unit.step(UnitEvent::ReadBack(reads(2)));
    assert_eq!(unit.step(UnitEvent::ReadBack(reads(2))), UnitAction::Ignore);
    assert_eq!(unit.step(UnitEvent::Removed), UnitAction::Report(Ok(2)));
    assert_eq!(unit.step(UnitEvent::Removed), UnitAction::Ignore);
    assert_eq!(unit.step(UnitEvent::Created(writes(2))), UnitAction::Ignore);
    assert_eq!(unit.phase(), UnitPhase::Finished);
    assert_eq!(unit.file_count(), 2);
}

#[test]
fn a_unit_without_files_reports_none() {
    let (mut unit, _) = UnitRun::start(0);
    unit.step(UnitEvent::Created(Vec::new()));
    unit.step(UnitEvent::ReadBack(Vec::new()));
    assert_eq!(unit.step(UnitEvent::Removed), UnitAction::Report(Ok(0)));
}

#[test]
fn join_outcomes_counts_or_gives_the_first_failure() {
    assert_eq!(join_outcomes(reads(7)), Ok(7));
    assert_eq!(join_outcomes(writes(3)), Ok(3));
    assert_eq!(join_outcomes(Vec::<Result<String, UnitError>>::new()), Ok(0));
    let outcomes = vec![
        Ok("a".to_string()),
        Err(missing("b")),
        Ok("c".to_string()),
        Err(UnitError::Compression),
    ];
    assert_eq!(join_outcomes(outcomes), Err(missing("b")));
}

#[test]
fn network_delays_last_from_ten_to_under_thirty_milliseconds() {
    assert_eq!(network_delay_ms(0), 10);
    assert_eq!(network_delay_ms(19), 29);
    assert_eq!(network_delay_ms(20), 10);
    assert_eq!(network_delay_ms(u64::MAX), 10 + u64::MAX % 20);
    for _ in 0..200 {
        let millis = pick_network_delay();
        assert!((10..30).contains(&millis));
    }
    let delays = network_delays(20);
    assert_eq!(delays.len(), 20);
    assert!(delays.iter().all(|d| (10..30).contains(d)));
    assert!(network_delays(0).is_empty());
}

#[test]
fn random_delays_are_not_all_the_same() {
    let delays = network_delays(400);
    assert!(delays.iter().any(|&d| d != delays[0]));
}
