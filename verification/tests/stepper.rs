use revolute::stepper::consts::MAX_SPEED;
use revolute::stepper::drift::positive_or_zero;
use revolute::stepper::{
    Action, Level, Motor, MotorParams, NumberTraits, StateError, Ticks, TurnSteps,
};

fn motor() -> Motor {
    Motor::new(MotorParams::default(), 4, 3, 5)
}

/// Advances `motor` until it answers `Finish`, on a clock that stands still
/// but for the waits, which take exactly as long as asked.
fn run_without_jitter(motor: &mut Motor) -> Vec<(Action, Level)> {
    let mut now: u64 = 1_000;
    let mut trace = Vec::new();
    loop {
        let action = motor.advance_at(now);
        trace.push((action, motor.sleep_level()));
        match action {
            Action::Sleep(micros) => now += micros,
            Action::Finish => return trace,
            _ => {}
        }
    }
}

#[test]
fn default_params_are_the_reference_motor() {
    let params = MotorParams::default();
    assert_eq!(params, MotorParams::new(4, 3, 5, 200, 1800));
    assert_eq!(params.step_pin, 4);
    assert_eq!(params.dir_pin, 3);
    assert_eq!(params.sleep_pin, 5);
    assert_eq!(params.spr, 200);
    assert_eq!(params.angle, 1800);
    assert_eq!(params.spr as u32 * params.angle, 360_000);
}

#[test]
fn counts_are_what_was_wrapped() {
    assert_eq!(TurnSteps(7).count(), 7);
    assert_eq!(Ticks(0).count(), 0);
    assert_eq!(Ticks(u32::MAX).count(), u32::MAX);
}

#[test]
fn plain_numbers_read_as_ticks_and_steps() {
    assert_eq!(3u32.ticks(), Ticks(3));
    assert_eq!(200u32.turn_steps(), TurnSteps(200));
    assert_eq!(0u32.ticks().count(), 0);
}

#[test]
fn new_motor_is_idle_with_all_lines_low() {
    let m = motor();
    assert!(m.is_idle());
    assert_eq!(m.step_level(), Level::Low);
    assert_eq!(m.dir_level(), Level::Low);
    assert_eq!(m.sleep_level(), Level::Low);
    assert_eq!(m.remaining_steps(), 0);
    assert_eq!(m.params(), MotorParams::default());
}

#[test]
fn levels_toggle() {
    assert_eq!(Level::Low.toggled(), Level::High);
    assert_eq!(Level::High.toggled(), Level::Low);
}

#[test]
fn zero_steps_finish_at_once() {
    for ticks in [1u32, 2, 7, u32::MAX] {
        let mut m = motor();
        assert_eq!(m.start_turning(TurnSteps(0), Ticks(ticks)), Ok(()));
        assert_eq!(m.sleep_level(), Level::High);
        assert_eq!(m.advance_at(5), Action::Finish);
        assert!(m.is_idle());
        assert_eq!(m.step_level(), Level::Low);
        assert_eq!(m.sleep_level(), Level::Low);
    }
}

#[test]
fn zero_ticks_are_refused() {
    for steps in [0u32, 1, 200] {
        let mut m = motor();
        assert_eq!(
            m.start_turning(TurnSteps(steps), Ticks(0)),
            Err(StateError::NeedMoreTicksPerStep)
        );
        assert!(m.is_idle());
        assert_eq!(m.sleep_level(), Level::Low);
        assert_eq!(m.step_level(), Level::Low);
    }
}

#[test]
fn a_second_turn_is_refused_and_leaves_the_first_alone() {
    let mut m = motor();
    assert_eq!(m.start_turning(TurnSteps(4), Ticks(2)), Ok(()));
    assert_eq!(m.advance_at(10), Action::RaiseStep);
    assert_eq!(m.remaining_steps(), 3);
    assert_eq!(
        m.start_turning(TurnSteps(9), Ticks(5)),
        Err(StateError::AlreadyTurning)
    );
    assert_eq!(m.remaining_steps(), 3);
    assert!(!m.is_idle());
    assert_eq!(m.step_level(), Level::High);
    // a refused request puts the driver to sleep
    assert_eq!(m.sleep_level(), Level::Low);
    // zero ticks while turning: still AlreadyTurning
    assert_eq!(
        m.start_turning(TurnSteps(9), Ticks(0)),
        Err(StateError::AlreadyTurning)
    );
    // the turn in progress goes on where it was
    assert_eq!(m.advance_at(10), Action::DropStep);
    assert_eq!(m.advance_at(10), Action::Sleep(MAX_SPEED));
    assert_eq!(m.remaining_steps(), 3);
}

#[test]
fn toggle_dir_is_refused_while_turning() {
    let mut m = motor();
    assert_eq!(m.start_turning(TurnSteps(1), Ticks(1)), Ok(()));
    assert_eq!(m.toggle_dir(), Err(StateError::AlreadyTurning));
    assert_eq!(m.dir_level(), Level::Low);
    assert_eq!(m.sleep_level(), Level::High);
    assert_eq!(m.advance_at(0), Action::RaiseStep);
    assert_eq!(m.toggle_dir(), Err(StateError::AlreadyTurning));
    assert_eq!(m.dir_level(), Level::Low);
}

#[test]
fn toggle_dir_twice_restores_the_line() {
    let mut m = motor();
    let before = m.dir_level();
    assert_eq!(m.toggle_dir(), Ok(()));
    assert_eq!(m.dir_level(), Level::High);
    assert_eq!(m.step_level(), Level::Low);
    assert_eq!(m.sleep_level(), Level::Low);
    assert_eq!(m.toggle_dir(), Ok(()));
    assert_eq!(m.dir_level(), before);
    assert_eq!(m.step_level(), Level::Low);
    assert_eq!(m.sleep_level(), Level::Low);
    assert!(m.is_idle());
}

#[test]
fn three_steps_at_two_ticks_without_jitter() {
    let mut m = motor();
    assert_eq!(m.start_turning(TurnSteps(3), Ticks(2)), Ok(()));
    assert_eq!(m.sleep_level(), Level::High);
    let trace = run_without_jitter(&mut m);
    let actions: Vec<Action> = trace.iter().map(|(action, _)| *action).collect();
    assert_eq!(
        actions,
        vec![
            Action::RaiseStep,
            Action::DropStep,
            Action::Sleep(450),
            Action::Resume,
            Action::RaiseStep,
            Action::DropStep,
            Action::Sleep(450),
            Action::Resume,
            Action::RaiseStep,
            Action::DropStep,
            Action::Sleep(450),
            Action::Resume,
            Action::Finish,
        ]
    );
    // the driver is awake up to the advance that ends the turn
    let (last, before) = trace.split_last().unwrap();
    assert!(before.iter().all(|(_, sleep)| *sleep == Level::High));
    assert_eq!(*last, (Action::Finish, Level::Low));
    assert!(m.is_idle());
    assert_eq!(m.step_level(), Level::Low);
    assert_eq!(m.sleep_level(), Level::Low);
}

#[test]
fn one_tick_per_step_never_waits() {
    let mut m = motor();
    assert_eq!(m.start_turning(TurnSteps(3), Ticks(1)), Ok(()));
    let actions: Vec<Action> = run_without_jitter(&mut m)
        .iter()
        .map(|(action, _)| *action)
        .collect();
    assert_eq!(
        actions,
        vec![
            Action::RaiseStep,
            Action::DropStep,
            Action::RaiseStep,
            Action::DropStep,
            Action::RaiseStep,
            Action::DropStep,
            Action::Finish,
        ]
    );
}

#[test]
fn every_pulse_is_emitted_whatever_the_clock_reads() {
    let steps: u32 = 5;
    let ticks: u32 = 3;
    let mut m = motor();
    assert_eq!(m.start_turning(TurnSteps(steps), Ticks(ticks)), Ok(()));
    let mut now: u64 = 0;
    let mut edges = Vec::new();
    let mut advances: u32 = 0;
    loop {
        // a clock that jumps, stalls and even runs backwards
        now = now.wrapping_mul(6364136223846793005).wrapping_add(1442695040888963407);
        let before = m.step_level();
        let action = m.advance_at(now >> 40);
        advances += 1;
        match action {
            Action::RaiseStep => {
                assert_eq!(before, Level::Low);
                assert_eq!(m.step_level(), Level::High);
                edges.push(Level::High);
            }
            Action::DropStep => {
                assert_eq!(before, Level::High);
                assert_eq!(m.step_level(), Level::Low);
                edges.push(Level::Low);
            }
            Action::Sleep(micros) => {
                assert!(micros <= MAX_SPEED);
                assert_eq!(m.step_level(), before);
            }
            Action::Resume => assert_eq!(m.step_level(), before),
            Action::Finish => break,
        }
        assert_eq!(m.sleep_level(), Level::High);
    }
    assert_eq!(advances, steps * 2 * ticks + 1);
    assert_eq!(edges.len(), 2 * steps as usize);
    for (i, edge) in edges.iter().enumerate() {
        let expected = if i % 2 == 0 { Level::High } else { Level::Low };
        assert_eq!(*edge, expected);
    }
    assert!(m.is_idle());
    assert_eq!(m.sleep_level(), Level::Low);
    // an idle engine stays idle
    assert_eq!(m.advance_at(1), Action::Finish);
    assert!(m.is_idle());
}

#[test]
fn remaining_steps_go_down_by_one_per_pulse() {
    let mut m = motor();
    assert_eq!(m.start_turning(TurnSteps(3), Ticks(2)), Ok(()));
    let mut seen = vec![m.remaining_steps()];
    let mut now: u64 = 0;
    loop {
        now += 17;
        let action = m.advance_at(now);
        let left = m.remaining_steps();
        assert!(left <= *seen.last().unwrap());
        if left != *seen.last().unwrap() {
            assert_eq!(action, Action::RaiseStep);
            seen.push(left);
        }
        if action == Action::Finish {
            break;
        }
    }
    assert_eq!(seen, vec![3, 2, 1, 0]);
}

#[test]
fn positive_or_zero_splits_a_signed_duration() {
    assert_eq!(positive_or_zero(0), (0, 0));
    assert_eq!(positive_or_zero(5), (5, 0));
    assert_eq!(positive_or_zero(-7), (0, 7));
    assert_eq!(positive_or_zero(i128::MAX), (i128::MAX as u128, 0));
    assert_eq!(positive_or_zero(i128::MIN), (0, 1u128 << 127));
}

#[test]
fn first_wait_without_a_recorded_instant_is_one_interval() {
    let m = motor();
    assert_eq!(m.calc_sleep(0), (450, 0));
    assert_eq!(m.calc_sleep(u64::MAX), (450, 0));
}

/// Drives one pulse with `lateness.len()` waits. Before wait `i` the clock
/// has moved on by `lateness[i]` since the last recorded instant. Gives the
/// waits asked for and the debt carried at the end.
fn waits_of_one_pulse(lateness: &[u64]) -> (Vec<u64>, u128) {
    let mut m = motor();
    let ticks = lateness.len() as u32 + 1;
    assert_eq!(m.start_turning(TurnSteps(2), Ticks(ticks)), Ok(()));
    let mut now: u64 = 10_000;
    assert_eq!(m.advance_at(now), Action::RaiseStep);
    assert_eq!(m.advance_at(now), Action::DropStep);
    let mut waits = Vec::new();
    let mut debt = 0;
    for late in lateness {
        now += late;
        debt = m.calc_sleep(now).1;
        match m.advance_at(now) {
            Action::Sleep(micros) => {
                assert_eq!(micros, m.calc_sleep(now).0);
                waits.push(micros)
            }
            other => panic!("expected a wait, got {:?}", other),
        }
        // the wait itself may take any time: it is not what is measured
        now += 3_000;
        assert_eq!(m.advance_at(now), Action::Resume);
    }
    assert_eq!(m.advance_at(now), Action::RaiseStep);
    (waits, debt)
}

#[test]
fn on_time_waits_are_one_interval_each() {
    let (waits, debt) = waits_of_one_pulse(&[0, 0, 0]);
    assert_eq!(waits, vec![450, 450, 450]);
    assert_eq!(debt, 0);
}

#[test]
fn lateness_shortens_the_wait() {
    let (waits, debt) = waits_of_one_pulse(&[100]);
    assert_eq!(waits, vec![350]);
    assert_eq!(debt, 0);
    let (waits, debt) = waits_of_one_pulse(&[450]);
    assert_eq!(waits, vec![0]);
    assert_eq!(debt, 0);
}

#[test]
fn an_overrun_is_carried_and_paid_back() {
    let lateness = [100, 700, 0, 50];
    let (waits, debt) = waits_of_one_pulse(&lateness);
    assert_eq!(waits, vec![350, 0, 200, 400]);
    assert_eq!(debt, 0);
    let total: u64 = waits.iter().sum::<u64>() + lateness.iter().sum::<u64>();
    assert_eq!(total, 4 * MAX_SPEED);
}

#[test]
fn drift_is_the_debt_still_carried() {
    let lateness = [2_000, 0, 10, 460, 451];
    let (waits, debt) = waits_of_one_pulse(&lateness);
    assert_eq!(waits, vec![0, 0, 0, 0, 0]);
    // 2000 - 450 = 1550; 1550 - 450 = 1100; 1100 + 10 - 450 = 660;
    // 660 + 460 - 450 = 670; 670 + 451 - 450 = 671
    assert_eq!(debt, 671);
    let total: u128 = (waits.iter().sum::<u64>() + lateness.iter().sum::<u64>()) as u128;
    assert_eq!(total, 5 * MAX_SPEED as u128 + debt);
}

#[test]
fn a_single_late_wake_up_is_within_one_interval() {
    // one overrun of less than an interval, anywhere in the run
    for at in 0..6 {
        let mut lateness = [0u64; 6];
        lateness[at] = 450 + 449;
        let (waits, debt) = waits_of_one_pulse(&lateness);
        let total = (waits.iter().sum::<u64>() + lateness.iter().sum::<u64>()) as u128;
        assert_eq!(total, 6 * 450 + debt);
        assert!(debt <= 450);
        assert_eq!(debt, if at == 5 { 449 } else { 0 });
    }
}

#[test]
fn a_clock_that_runs_backwards_counts_as_no_lateness() {
    let mut m = motor();
    assert_eq!(m.start_turning(TurnSteps(1), Ticks(2)), Ok(()));
    assert_eq!(m.advance_at(5_000), Action::RaiseStep);
    assert_eq!(m.advance_at(5_000), Action::DropStep);
    assert_eq!(m.calc_sleep(4_000), (450, 0));
    assert_eq!(m.advance_at(4_000), Action::Sleep(450));
}

#[test]
fn the_debt_is_cleared_at_every_pulse() {
    let mut m = motor();
    assert_eq!(m.start_turning(TurnSteps(2), Ticks(2)), Ok(()));
    assert_eq!(m.advance_at(0), Action::RaiseStep);
    assert_eq!(m.advance_at(0), Action::DropStep);
    assert_eq!(m.advance_at(1_000), Action::Sleep(0));
    assert_eq!(m.advance_at(1_000), Action::Resume);
    assert_eq!(m.calc_sleep(1_000), (0, 100));
    assert_eq!(m.advance_at(1_000), Action::RaiseStep);
    assert_eq!(m.calc_sleep(1_000), (450, 0));
    assert_eq!(m.advance_at(1_000), Action::DropStep);
    assert_eq!(m.advance_at(1_000), Action::Sleep(450));
}

#[test]
fn the_largest_lateness_does_not_overflow() {
    let (waits, debt) = waits_of_one_pulse(&[u64::MAX - 20_000, 0]);
    assert_eq!(waits, vec![0, 0]);
    assert_eq!(debt, (u64::MAX - 20_000) as u128 - 900);
}

#[test]
fn a_turn_on_the_real_clock_emits_its_pulses() {
    let mut m = motor();
    assert_eq!(m.start_turning(TurnSteps(2), Ticks(3)), Ok(()));
    let mut actions = Vec::new();
    loop {
        let action = m.advance();
        actions.push(action);
        if action == Action::Finish {
            break;
        }
    }
    assert_eq!(actions.len(), 2 * 2 * 3 + 1);
    let rises = actions.iter().filter(|a| **a == Action::RaiseStep).count();
    let falls = actions.iter().filter(|a| **a == Action::DropStep).count();
    assert_eq!((rises, falls), (2, 2));
    for action in &actions {
        if let Action::Sleep(micros) = action {
            assert!(*micros <= MAX_SPEED);
        }
    }
    assert!(m.is_idle());
    assert_eq!(m.sleep_level(), Level::Low);
}
