//! The engine as mathematics: its state, and what each request does to it.
//!
//! Every contract of [`Motor`](super::Motor) is stated over [`MotorView`].
//! The functions here are the definition of the engine; the laws that hold
//! of them are proved in [`laws`](super::laws).
use super::consts::MAX_SPEED;
use super::drift::{elapsed, wait_plan};
use super::{Action, Level, MotorParams, StateError};
use vstd::prelude::*;

verus! {

/// Where the engine stands within one pulse.
pub enum PulseView {
    /// STEP was just driven high; the falling edge is next.
    High,
    /// STEP is low and this many timed waits are left before the next pulse.
    StepsUntilPulse(nat),
    /// A wait is outstanding. It is the first of `left` waits, and `debt` is
    /// what will be carried once it has ended.
    Asleep { left: nat, debt: nat },
}

/// Whether a turn is in progress.
pub enum StateView {
    Idle,
    /// `turn_steps` pulses are still to be emitted, each followed by
    /// `ticks_per_step` timed waits.
    Moving { turn_steps: nat, ticks_per_step: nat },
}

/// The state of the engine.
pub struct MotorView {
    pub params: MotorParams,
    /// Level of the STEP line.
    pub step: Level,
    /// Level of the DIRECTION line.
    pub dir: Level,
    /// Level of the SLEEP line: high keeps the driver awake.
    pub sleep: Level,
    pub pulse: PulseView,
    pub state: StateView,
    /// The clock reading, in microseconds, at the last pulse or at the end
    /// of the last wait.
    pub last: Option<nat>,
    /// Lateness carried from earlier waits, in microseconds.
    pub hanger: nat,
}

impl MotorView {
    /// A new engine: idle, every line low.
    pub open spec fn initial(params: MotorParams) -> MotorView {
        MotorView {
            params,
            step: Level::Low,
            dir: Level::Low,
            sleep: Level::Low,
            pulse: PulseView::StepsUntilPulse(0),
            state: StateView::Idle,
            last: None,
            hanger: 0,
        }
    }

    /// The consistency that every engine keeps. STEP is high exactly between
    /// the two edges of a pulse. An idle engine has its driver asleep and
    /// carries nothing over from the last turn. A moving engine never has
    /// more waits left than one pulse takes.
    pub open spec fn wf(self) -> bool {
        &&& self.step == Level::High <==> self.pulse is High
        &&& match self.state {
            StateView::Idle => {
                &&& self.pulse == PulseView::StepsUntilPulse(0)
                &&& self.sleep == Level::Low
                &&& self.last is None
                &&& self.hanger == 0
            },
            StateView::Moving { turn_steps, ticks_per_step } => match self.pulse {
                PulseView::High => self.hanger == 0,
                PulseView::StepsUntilPulse(n) => n <= ticks_per_step,
                PulseView::Asleep { left, debt } => 1 <= left <= ticks_per_step,
            },
        }
    }

    /// The pulses that the turn in progress still has to emit; zero when
    /// idle.
    pub open spec fn remaining_steps(self) -> nat {
        match self.state {
            StateView::Idle => 0,
            StateView::Moving { turn_steps, ticks_per_step } => turn_steps,
        }
    }

    /// The answer to a request to flip the direction: refused while moving.
    pub open spec fn toggle_result(self) -> Result<(), StateError> {
        if self.state is Idle {
            Ok(())
        } else {
            Err(StateError::AlreadyTurning)
        }
    }

    /// The engine after a request to flip the direction. Only the DIRECTION
    /// line can change.
    pub open spec fn toggled(self) -> MotorView {
        if self.state is Idle {
            MotorView { dir: self.dir.flipped(), ..self }
        } else {
            self
        }
    }

    /// The answer to a request for a turn at `ticks` ticks per step: refused
    /// while moving, and refused when `ticks` is zero.
    pub open spec fn start_result(self, ticks: nat) -> Result<(), StateError> {
        if !(self.state is Idle) {
            Err(StateError::AlreadyTurning)
        } else if ticks < 1 {
            Err(StateError::NeedMoreTicksPerStep)
        } else {
            Ok(())
        }
    }

    /// The engine after a request for a turn of `turn_steps` pulses at
    /// `ticks` ticks per step. A refused request puts the driver to sleep
    /// and changes nothing else. An accepted one wakes the driver and stands
    /// right before the first pulse, with no timing carried over.
    pub open spec fn started(self, turn_steps: nat, ticks: nat) -> MotorView {
        if self.start_result(ticks) is Err {
            MotorView { sleep: Level::Low, ..self }
        } else {
            MotorView {
                state: StateView::Moving { turn_steps, ticks_per_step: (ticks - 1) as nat },
                pulse: PulseView::StepsUntilPulse(0),
                sleep: Level::High,
                last: None,
                hanger: 0,
                ..self
            }
        }
    }

    /// What the caller has to do when the engine is advanced at clock
    /// reading `now`.
    pub open spec fn action(self, now: nat) -> Action {
        match self.state {
            StateView::Idle => Action::Finish,
            StateView::Moving { turn_steps, ticks_per_step } => match self.pulse {
                PulseView::High => Action::DropStep,
                PulseView::StepsUntilPulse(n) => if n > 0 {
                    Action::Sleep(wait_plan(MAX_SPEED as nat, self.last, now, self.hanger).0 as u64)
                } else if turn_steps > 0 {
                    Action::RaiseStep
                } else {
                    Action::Finish
                },
                PulseView::Asleep { left, debt } => Action::Resume,
            },
        }
    }

    /// The engine after it is advanced at clock reading `now`.
    ///
    /// - Between the edges of a pulse: STEP falls, and the waits of the
    ///   pulse begin.
    /// - With waits left: the next wait is planned from the clock and the
    ///   debt carried, and is outstanding from here on.
    /// - With a wait outstanding: the wait has ended; its debt is taken
    ///   over and `now` is recorded.
    /// - With no wait left and pulses left: one pulse fewer is left, the
    ///   debt is cleared, `now` is recorded and STEP rises.
    /// - With no wait and no pulse left: the turn is over, the driver goes
    ///   to sleep and nothing is carried over.
    /// - Idle: the driver is put to sleep.
    pub open spec fn advanced(self, now: nat) -> MotorView {
        match self.state {
            StateView::Idle => MotorView { sleep: Level::Low, ..self },
            StateView::Moving { turn_steps, ticks_per_step } => match self.pulse {
                PulseView::High => MotorView {
                    step: Level::Low,
                    pulse: PulseView::StepsUntilPulse(ticks_per_step),
                    ..self
                },
                PulseView::StepsUntilPulse(n) => if n > 0 {
                    MotorView {
                        pulse: PulseView::Asleep {
                            left: n,
                            debt: wait_plan(MAX_SPEED as nat, self.last, now, self.hanger).1,
                        },
                        ..self
                    }
                } else if turn_steps > 0 {
                    MotorView {
                        state: StateView::Moving {
                            turn_steps: (turn_steps - 1) as nat,
                            ticks_per_step,
                        },
                        last: Some(now),
                        hanger: 0,
                        step: Level::High,
                        pulse: PulseView::High,
                        ..self
                    }
                } else {
                    MotorView {
                        state: StateView::Idle,
                        sleep: Level::Low,
                        last: None,
                        hanger: 0,
                        ..self
                    }
                },
                PulseView::Asleep { left, debt } => MotorView {
                    hanger: debt,
                    last: Some(now),
                    pulse: PulseView::StepsUntilPulse((left - 1) as nat),
                    ..self
                },
            },
        }
    }

    /// The engine after it is advanced once at each reading of `clock`, in
    /// order.
    pub open spec fn run(self, clock: Seq<nat>) -> MotorView
        decreases clock.len(),
    {
        if clock.len() == 0 {
            self
        } else {
            self.advanced(clock[0]).run(clock.drop_first())
        }
    }

    /// The actions that those advances answer, in order.
    pub open spec fn trace(self, clock: Seq<nat>) -> Seq<Action>
        decreases clock.len(),
    {
        if clock.len() == 0 {
            Seq::empty()
        } else {
            seq![self.action(clock[0])] + self.advanced(clock[0]).trace(clock.drop_first())
        }
    }

    /// Whether the driver is awake in every moving state that those advances
    /// start from, and asleep in every idle one.
    pub open spec fn awake_while_moving(self, clock: Seq<nat>) -> bool
        decreases clock.len(),
    {
        &&& self.state is Moving <==> self.sleep == Level::High
        &&& clock.len() > 0 ==> self.advanced(clock[0]).awake_while_moving(clock.drop_first())
    }

    /// The lateness that each wait meets when an engine with waits left is
    /// advanced at the readings of `clock`: by turns a reading at which a
    /// wait is planned and the reading at which that wait has ended. The
    /// lateness of a wait is the time from the instant last recorded to the
    /// reading at which the wait is planned.
    pub open spec fn lateness_met(self, clock: Seq<nat>) -> Seq<nat>
        decreases clock.len(),
    {
        if clock.len() < 2 || self.last is None {
            Seq::empty()
        } else {
            seq![elapsed(self.last->0, clock[0])] + self.advanced(clock[0]).advanced(
                clock[1],
            ).lateness_met(clock.skip(2))
        }
    }

    /// How many advances the turn in progress still takes, the one that
    /// answers `Finish` included; zero when idle.
    pub open spec fn advances_left(self) -> nat {
        match self.state {
            StateView::Idle => 0,
            StateView::Moving { turn_steps, ticks_per_step } => turn_steps * (2 * ticks_per_step
                + 2) + 1 + match self.pulse {
                PulseView::High => 2 * ticks_per_step + 1,
                PulseView::StepsUntilPulse(n) => 2 * n,
                PulseView::Asleep { left, debt } => (2 * left - 1) as nat,
            },
        }
    }

    /// The levels that the STEP line is still to be driven to by the turn in
    /// progress, in order.
    pub open spec fn edges_left(self) -> Seq<Level> {
        match self.state {
            StateView::Idle => Seq::empty(),
            StateView::Moving { turn_steps, ticks_per_step } => if self.pulse is High {
                seq![Level::Low] + pulses(turn_steps)
            } else {
                pulses(turn_steps)
            },
        }
    }
}

/// The levels that the actions in `trace` drive the STEP line to, in order.
pub open spec fn edges(trace: Seq<Action>) -> Seq<Level>
    decreases trace.len(),
{
    if trace.len() == 0 {
        Seq::empty()
    } else {
        match trace[0] {
            Action::RaiseStep => seq![Level::High] + edges(trace.drop_first()),
            Action::DropStep => seq![Level::Low] + edges(trace.drop_first()),
            _ => edges(trace.drop_first()),
        }
    }
}

/// The time that the actions in `trace` ask to wait, all in all.
pub open spec fn slept(trace: Seq<Action>) -> nat
    decreases trace.len(),
{
    if trace.len() == 0 {
        0
    } else {
        match trace[0] {
            Action::Sleep(micros) => micros as nat + slept(trace.drop_first()),
            _ => slept(trace.drop_first()),
        }
    }
}

/// The edges of `n` pulses: high, low, and so on in turn.
pub open spec fn pulses(n: nat) -> Seq<Level>
    decreases n,
{
    if n == 0 {
        Seq::empty()
    } else {
        seq![Level::High, Level::Low] + pulses((n - 1) as nat)
    }
}

} // verus!
