//! The stepper motor's pulse engine.
//!
//! [`Motor`] is a state machine over three output lines: STEP, DIRECTION and
//! SLEEP (the driver's enable line, awake while high). A turn is accepted by
//! [`Motor::start_turning`] and then driven by calling [`Motor::advance`]
//! until it answers [`Action::Finish`]; every answer names the one thing the
//! caller has to do before it calls again.
use crate::clock::uptime_micros;
use consts::MAX_SPEED;
use drift::{positive_or_zero, wait_plan};
use model::{MotorView, PulseView, StateView};
use vstd::prelude::*;

pub mod consts;
pub mod drift;
pub mod laws;
pub mod model;

verus! {

/// The level of an output line.
#[derive(Clone, Copy, Debug, PartialEq, Eq, Structural)]
pub enum Level {
    Low,
    High,
}

impl Level {
    /// The other level.
    pub open spec fn flipped(self) -> Level {
        match self {
            Level::Low => Level::High,
            Level::High => Level::Low,
        }
    }

    /// The other level.
    pub fn toggled(self) -> (other: Level)
        ensures
            other == self.flipped(),
    {
        match self {
            Level::Low => Level::High,
            Level::High => Level::Low,
        }
    }
}

/// The number of pulses that a turn has to emit.
#[derive(Clone, Copy, Debug, PartialEq, Eq, Structural)]
pub struct TurnSteps(pub u32);

impl TurnSteps {
    /// The number of pulses.
    pub fn count(&self) -> (n: u32)
        ensures
            n == self.0,
    {
        self.0
    }
}

/// The step interval of a turn, in ticks of the scheduler. The first tick of
/// a step is the pulse itself; every further tick is one timed wait of
/// [`consts::MAX_SPEED`] microseconds before the next pulse. At one tick per
/// step the pulses follow each other without any wait.
#[derive(Clone, Copy, Debug, PartialEq, Eq, Structural)]
pub struct Ticks(pub u32);

impl Ticks {
    /// The number of ticks.
    pub fn count(&self) -> (n: u32)
        ensures
            n == self.0,
    {
        self.0
    }
}

/// Reading a plain number as a count of ticks or of steps.
pub trait NumberTraits {
    /// This many ticks.
    fn ticks(self) -> Ticks;

    /// This many steps.
    fn turn_steps(self) -> TurnSteps;
}

impl NumberTraits for u32 {
    fn ticks(self) -> (ticks: Ticks)
        ensures
            ticks == Ticks(self),
    {
        Ticks(self)
    }

    fn turn_steps(self) -> (steps: TurnSteps)
        ensures
            steps == TurnSteps(self),
    {
        TurnSteps(self)
    }
}

/// Why the engine refused a request.
#[derive(Clone, Copy, Debug, PartialEq, Eq, Structural)]
pub enum StateError {
    /// A turn is in progress.
    AlreadyTurning,
    /// The step interval is zero ticks: a pulse needs at least one.
    NeedMoreTicksPerStep,
}

/// What the caller of the engine has to do before it advances the engine
/// again.
#[derive(Clone, Copy, Debug, PartialEq, Eq, Structural)]
pub enum Action {
    /// Drive the STEP line high: the rising edge of a pulse.
    RaiseStep,
    /// Drive the STEP line low: the falling edge of a pulse.
    DropStep,
    /// Suspend for this many microseconds.
    Sleep(u64),
    /// A wait has ended and its end was recorded; nothing to do.
    Resume,
    /// The turn is over: drive the SLEEP line low.
    Finish,
}

/// Wiring and mechanics of one motor.
#[derive(Clone, Copy, Debug, PartialEq, Eq, Structural)]
pub struct MotorParams {
    /// GPIO number of the STEP line.
    pub step_pin: u8,
    /// GPIO number of the DIRECTION line.
    pub dir_pin: u8,
    /// GPIO number of the SLEEP line.
    pub sleep_pin: u8,
    /// Steps per revolution.
    pub spr: usize,
    /// Angle of a single step, in thousandths of a degree.
    pub angle: u32,
}

impl MotorParams {
    pub fn new(step_pin: u8, dir_pin: u8, sleep_pin: u8, spr: usize, angle: u32) -> (params: Self)
        ensures
            params == (MotorParams { step_pin, dir_pin, sleep_pin, spr, angle }),
    {
        Self { step_pin, dir_pin, sleep_pin, spr, angle }
    }

    /// Whether the three lines of these parameters are the given pins.
    pub open spec fn wired_to(self, step_pin: u8, dir_pin: u8, sleep_pin: u8) -> bool {
        &&& self.step_pin == step_pin
        &&& self.dir_pin == dir_pin
        &&& self.sleep_pin == sleep_pin
    }
}

impl Default for MotorParams {
    /// The motor that the constants describe: 200 steps of 1.8 degrees, on
    /// GPIO 4, 3 and 5.
    fn default() -> (params: Self)
        ensures
            params == (MotorParams {
                step_pin: consts::STEP_PIN,
                dir_pin: consts::DIR_PIN,
                sleep_pin: consts::SLEEP_PIN,
                spr: consts::SPR,
                angle: consts::ANGLE,
            }),
    {
        Self {
            step_pin: consts::STEP_PIN,
            dir_pin: consts::DIR_PIN,
            sleep_pin: consts::SLEEP_PIN,
            spr: consts::SPR,
            angle: consts::ANGLE,
        }
    }
}

/// Where the engine stands within one pulse.
#[derive(Clone, Copy)]
enum Pulse {
    High,
    StepsUntilPulse(u32),
    Asleep { left: u32, debt: u128 },
}

impl View for Pulse {
    type V = PulseView;

    closed spec fn view(&self) -> PulseView {
        match *self {
            Pulse::High => PulseView::High,
            Pulse::StepsUntilPulse(n) => PulseView::StepsUntilPulse(n as nat),
            Pulse::Asleep { left, debt } => PulseView::Asleep {
                left: left as nat,
                debt: debt as nat,
            },
        }
    }
}

/// Whether a turn is in progress.
#[derive(Clone, Copy)]
enum State {
    Idle,
    Moving { turn_steps: TurnSteps, ticks_per_step: Ticks },
}

impl View for State {
    type V = StateView;

    closed spec fn view(&self) -> StateView {
        match *self {
            State::Idle => StateView::Idle,
            State::Moving { turn_steps, ticks_per_step } => StateView::Moving {
                turn_steps: turn_steps.0 as nat,
                ticks_per_step: ticks_per_step.0 as nat,
            },
        }
    }
}

/// The pulse engine of one motor.
///
/// It holds the levels that the three lines are to have; the caller owns
/// the lines and drives them as the engine's answers say.
pub struct Motor {
    params: MotorParams,
    step_line: Level,
    dir_line: Level,
    sleep_line: Level,
    pulse: Pulse,
    state: State,
    last: Option<u64>,
    hanger: u128,
}

impl View for Motor {
    type V = MotorView;

    closed spec fn view(&self) -> MotorView {
        MotorView {
            params: self.params,
            step: self.step_line,
            dir: self.dir_line,
            sleep: self.sleep_line,
            pulse: self.pulse@,
            state: self.state@,
            last: match self.last {
                Some(at) => Some(at as nat),
                None => None,
            },
            hanger: self.hanger as nat,
        }
    }
}

impl Motor {
    /// The engine is consistent, and its debt is small enough to count with:
    /// each wait of a pulse adds less than 2^64 to it, and a pulse has
    /// fewer than 2^32 waits.
    #[verifier::type_invariant]
    spec fn inv(self) -> bool {
        &&& self@.wf()
        &&& match self.state {
            State::Idle => true,
            State::Moving { turn_steps, ticks_per_step } => match self.pulse {
                Pulse::High => true,
                Pulse::StepsUntilPulse(n) => self.hanger <= (ticks_per_step.0 - n) * u64::MAX,
                Pulse::Asleep { left, debt } => {
                    &&& self.hanger <= (ticks_per_step.0 - left) * u64::MAX
                    &&& debt <= (ticks_per_step.0 - left + 1) * u64::MAX
                },
            },
        }
    }

    /// An idle engine for the motor of `params`, on the lines with the given
    /// GPIO numbers. The lines have to be those that `params` names.
    pub fn new(params: MotorParams, step_pin: u8, dir_pin: u8, sleep_pin: u8) -> (motor: Motor)
        requires
            params.wired_to(step_pin, dir_pin, sleep_pin),
        ensures
            motor@ == MotorView::initial(params),
            motor@.wf(),
    {
        Motor {
            params,
            step_line: Level::Low,
            dir_line: Level::Low,
            sleep_line: Level::Low,
            pulse: Pulse::StepsUntilPulse(0),
            state: State::Idle,
            last: None,
            hanger: 0,
        }
    }

    /// The wiring and mechanics this engine was made for.
    pub fn params(&self) -> (params: MotorParams)
        ensures
            params == self@.params,
    {
        self.params
    }

    /// The level that the STEP line is to have.
    pub fn step_level(&self) -> (level: Level)
        ensures
            level == self@.step,
    {
        self.step_line
    }

    /// The level that the DIRECTION line is to have.
    pub fn dir_level(&self) -> (level: Level)
        ensures
            level == self@.dir,
    {
        self.dir_line
    }

    /// The level that the SLEEP line is to have.
    pub fn sleep_level(&self) -> (level: Level)
        ensures
            level == self@.sleep,
    {
        self.sleep_line
    }

    /// Whether no turn is in progress.
    pub fn is_idle(&self) -> (idle: bool)
        ensures
            idle == (self@.state is Idle),
    {
        match self.state {
            State::Idle => true,
            State::Moving { .. } => false,
        }
    }

    /// The pulses that the turn in progress still has to emit; zero when
    /// idle.
    pub fn remaining_steps(&self) -> (steps: u32)
        ensures
            steps == self@.remaining_steps(),
    {
        match self.state {
            State::Idle => 0,
            State::Moving { turn_steps, .. } => turn_steps.count(),
        }
    }

    /// Flips the DIRECTION line. Refused with `AlreadyTurning` while a turn
    /// is in progress; nothing changes then.
    pub fn toggle_dir(&mut self) -> (result: Result<(), StateError>)
        ensures
            result == old(self)@.toggle_result(),
            final(self)@ == old(self)@.toggled(),
            result is Ok <==> old(self)@.state is Idle,
            final(self)@.wf(),
    {
        proof {
            use_type_invariant(&*self);
        }
        match self.state {
            State::Idle => {
                self.dir_line = self.dir_line.toggled();
                Ok(())
            },
            State::Moving { .. } => Err(StateError::AlreadyTurning),
        }
    }

    /// Asks for a turn of `turn_steps` pulses at `ticks_per_step` ticks per
    /// step.
    ///
    /// Refused with `AlreadyTurning` while a turn is in progress, and else
    /// with `NeedMoreTicksPerStep` when `ticks_per_step` is zero. A refused
    /// request puts the driver to sleep and leaves everything else as it
    /// was, the turn in progress included. An accepted request wakes the
    /// driver; the turn is then driven by [`Motor::advance`].
    pub fn start_turning(&mut self, turn_steps: TurnSteps, ticks_per_step: Ticks) -> (result:
        Result<(), StateError>)
        ensures
            result == old(self)@.start_result(ticks_per_step.0 as nat),
            final(self)@ == old(self)@.started(turn_steps.0 as nat, ticks_per_step.0 as nat),
            result is Ok <==> old(self)@.state is Idle && ticks_per_step.0 >= 1,
            result == Err::<(), StateError>(StateError::AlreadyTurning) <==> old(
                self,
            )@.state is Moving,
            result == Err::<(), StateError>(StateError::NeedMoreTicksPerStep) <==> old(
                self,
            )@.state is Idle && ticks_per_step.0 == 0,
            result is Err ==> final(self)@ == (MotorView { sleep: Level::Low, ..old(self)@ }),
            final(self)@.wf(),
    {
        proof {
            use_type_invariant(&*self);
        }
        match self.state {
            State::Moving { .. } => {
                self.sleep_line = Level::Low;
                Err(StateError::AlreadyTurning)
            },
            State::Idle => {
                if ticks_per_step.count() < 1 {
                    self.sleep_line = Level::Low;
                    return Err(StateError::NeedMoreTicksPerStep);
                }
                *self = Motor {
                    state: State::Moving {
                        turn_steps,
                        ticks_per_step: Ticks(ticks_per_step.count() - 1),
                    },
                    pulse: Pulse::StepsUntilPulse(0),
                    sleep_line: Level::High,
                    last: None,
                    hanger: 0,
                    ..*self
                };
                Ok(())
            },
        }
    }

    /// The next wait and the debt carried past it, at clock reading `now`:
    /// one nominal interval, less the time since the last recorded instant,
    /// less the debt carried so far.
    pub fn calc_sleep(&self, now: u64) -> (plan: (u64, u128))
        ensures
            plan.0 == wait_plan(MAX_SPEED as nat, self@.last, now as nat, self@.hanger).0,
            plan.1 == wait_plan(MAX_SPEED as nat, self@.last, now as nat, self@.hanger).1,
            plan.0 <= MAX_SPEED,
    {
        proof {
            use_type_invariant(self);
            self.lemma_debt_is_bounded();
        }
        match self.last {
            Some(last) => {
                let lateness: u64 = if now >= last {
                    now - last
                } else {
                    0
                };
                let budget: i128 = MAX_SPEED as i128 - lateness as i128 - self.hanger as i128;
                let (wait, debt) = positive_or_zero(budget);
                (wait as u64, debt)
            },
            None => (MAX_SPEED, 0),
        }
    }

    /// The debt never outgrows what the waits of one pulse can add up to.
    proof fn lemma_debt_is_bounded(self)
        requires
            self.inv(),
        ensures
            self.hanger < 0x1_0000_0000_0000_0000_0000_0000,
    {
        match self.state {
            State::Idle => {},
            State::Moving { turn_steps, ticks_per_step } => match self.pulse {
                Pulse::High => {},
                Pulse::Asleep { left: n, .. } | Pulse::StepsUntilPulse(n) => {
                    assert((ticks_per_step.0 - n) * u64::MAX < 0x1_0000_0000_0000_0000_0000_0000)
                        by (nonlinear_arith)
                        requires
                            0 <= ticks_per_step.0 - n <= 0xffff_ffff,
                            u64::MAX == 0xffff_ffff_ffff_ffff,
                    ;
                },
            },
        }
    }

    /// Advances the engine once, at clock reading `now` in microseconds, and
    /// answers what the caller has to do before it advances again.
    ///
    /// A turn of `n` pulses at `t` ticks per step takes `2 * t` advances per
    /// pulse and one more, which answers `Finish`: per pulse the rising
    /// edge, the falling edge, and for each of the `t - 1` waits the advance
    /// that asks for it and the advance that records its end. An idle engine
    /// answers `Finish` and stays as it is.
    pub fn advance_at(&mut self, now: u64) -> (action: Action)
        ensures
            action == old(self)@.action(now as nat),
            final(self)@ == old(self)@.advanced(now as nat),
            final(self)@.wf(),
    {
        proof {
            use_type_invariant(&*self);
        }
        match self.state {
            State::Idle => {
                self.sleep_line = Level::Low;
                Action::Finish
            },
            State::Moving { turn_steps, ticks_per_step } => match self.pulse {
                Pulse::High => {
                    *self = Motor {
                        step_line: Level::Low,
                        pulse: Pulse::StepsUntilPulse(ticks_per_step.count()),
                        ..*self
                    };
                    Action::DropStep
                },
                Pulse::StepsUntilPulse(n) => {
                    if n > 0 {
                        let (wait, debt) = self.calc_sleep(now);
                        self.pulse = Pulse::Asleep { left: n, debt };
                        Action::Sleep(wait)
                    } else if turn_steps.count() > 0 {
                        *self = Motor {
                            state: State::Moving {
                                turn_steps: TurnSteps(turn_steps.count() - 1),
                                ticks_per_step,
                            },
                            last: Some(now),
                            hanger: 0,
                            step_line: Level::High,
                            pulse: Pulse::High,
                            ..*self
                        };
                        Action::RaiseStep
                    } else {
                        *self = Motor {
                            state: State::Idle,
                            sleep_line: Level::Low,
                            last: None,
                            hanger: 0,
                            ..*self
                        };
                        Action::Finish
                    }
                },
                Pulse::Asleep { left, debt } => {
                    *self = Motor {
                        hanger: debt,
                        last: Some(now),
                        pulse: Pulse::StepsUntilPulse(left - 1),
                        ..*self
                    };
                    Action::Resume
                },
            },
        }
    }

    /// Reads the clock and advances the engine at that reading.
    pub fn advance(&mut self) -> (action: Action)
        ensures
            exists|now: nat|
                {
                    &&& now <= u64::MAX
                    &&& action == #[trigger] old(self)@.action(now)
                    &&& final(self)@ == old(self)@.advanced(now)
                },
            final(self)@.wf(),
    {
        let now: u64 = uptime_micros();
        self.advance_at(now)
    }
}

} // verus!
