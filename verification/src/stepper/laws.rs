//! What holds of the engine, whatever the clock reads.
use super::consts::MAX_SPEED;
use super::drift::{
    debt_after, debt_from, elapsed, lemma_debt_is_the_worst_tail_overrun,
    lemma_drift_is_the_debt_carried, lemma_run_from_no_debt, next_debt, next_wait, overrun, total,
    waited_from,
};
use super::model::{edges, pulses, slept, MotorView, PulseView, StateView};
use super::{Action, Level, StateError};
use vstd::prelude::*;

verus! {

/// A new engine is consistent.
pub proof fn lemma_initial_is_wf(params: super::MotorParams)
    ensures
        MotorView::initial(params).wf(),
        MotorView::initial(params).state is Idle,
{
}

/// Requests keep the engine consistent.
pub proof fn lemma_requests_keep_wf(m: MotorView, turn_steps: nat, ticks: nat, now: nat)
    requires
        m.wf(),
    ensures
        m.toggled().wf(),
        m.started(turn_steps, ticks).wf(),
        m.advanced(now).wf(),
{
}

/// A turn is accepted only by an idle engine, and by an idle engine exactly
/// when the step interval is at least one tick. A refused request leaves
/// the turn in progress as it is: the same pulses left, the same place
/// within the pulse, the same timing.
pub proof fn lemma_turn_accepted_only_when_idle(m: MotorView, turn_steps: nat, ticks: nat)
    ensures
        m.start_result(ticks) is Ok <==> m.state is Idle && ticks >= 1,
        m.state is Moving ==> m.start_result(ticks) == Err::<(), StateError>(
            StateError::AlreadyTurning,
        ),
        m.state is Idle && ticks == 0 ==> m.start_result(ticks) == Err::<(), StateError>(
            StateError::NeedMoreTicksPerStep,
        ),
        m.start_result(ticks) is Err ==> {
            &&& m.started(turn_steps, ticks).state == m.state
            &&& m.started(turn_steps, ticks).remaining_steps() == m.remaining_steps()
            &&& m.started(turn_steps, ticks).pulse == m.pulse
            &&& m.started(turn_steps, ticks).step == m.step
            &&& m.started(turn_steps, ticks).dir == m.dir
            &&& m.started(turn_steps, ticks).last == m.last
            &&& m.started(turn_steps, ticks).hanger == m.hanger
            &&& m.started(turn_steps, ticks).sleep == Level::Low
        },
{
}

/// While a turn is in progress its pulses left only go down, by at most one
/// per advance, and its step interval stays what it was.
pub proof fn lemma_steps_only_go_down(m: MotorView, now: nat)
    requires
        m.state is Moving,
    ensures
        m.advanced(now).remaining_steps() <= m.remaining_steps(),
        m.remaining_steps() <= m.advanced(now).remaining_steps() + 1,
        m.advanced(now).state matches StateView::Moving { turn_steps, ticks_per_step }
            ==> ticks_per_step == m.state->ticks_per_step,
{
}

/// Advancing drives no line but as its action says: STEP changes exactly on
/// `RaiseStep` and `DropStep`, to high and to low, from the other level;
/// SLEEP changes only on `Finish`; DIRECTION never.
pub proof fn lemma_lines_follow_actions(m: MotorView, now: nat)
    requires
        m.wf(),
    ensures
        m.advanced(now).dir == m.dir,
        m.action(now) == Action::RaiseStep ==> m.step == Level::Low && m.advanced(now).step
            == Level::High,
        m.action(now) == Action::DropStep ==> m.step == Level::High && m.advanced(now).step
            == Level::Low,
        m.action(now) != Action::RaiseStep && m.action(now) != Action::DropStep ==> m.advanced(
            now,
        ).step == m.step,
        m.action(now) == Action::Finish ==> m.advanced(now).sleep == Level::Low && m.advanced(
            now,
        ).state is Idle,
        m.action(now) != Action::Finish ==> m.advanced(now).sleep == m.sleep && m.advanced(
            now,
        ).state is Moving,
{
}

/// One wait at a time: the advance after one that asked for a wait asks
/// for nothing but records the end of that wait, and no other action asks
/// the caller to suspend.
pub proof fn lemma_one_wait_at_a_time(m: MotorView, now: nat, then: nat)
    requires
        m.wf(),
        m.action(now) is Sleep,
    ensures
        m.action(now)->0 <= MAX_SPEED,
        m.advanced(now).action(then) == Action::Resume,
        m.advanced(now).advanced(then).last == Some(then),
        !(m.advanced(now).advanced(then).action(then) is Resume),
{
}

/// Each wait of the engine is one step of the drift compensation: with
/// waits left and the instant `last` recorded, the engine asks at `now`
/// for the wait that the budget allows, and once the wait has ended at
/// `then` it carries the debt that the budget left, has `then` recorded,
/// and has one wait fewer left.
pub proof fn lemma_wait_is_cut_to_the_budget(m: MotorView, now: nat, then: nat)
    requires
        m.wf(),
        m.state is Moving,
        m.pulse matches PulseView::StepsUntilPulse(n) && n > 0,
        m.last is Some,
    ensures
        m.action(now) == Action::Sleep(
            next_wait(MAX_SPEED as nat, elapsed(m.last->0, now), m.hanger) as u64,
        ),
        m.advanced(now).advanced(then).hanger == next_debt(
            MAX_SPEED as nat,
            elapsed(m.last->0, now),
            m.hanger,
        ),
        m.advanced(now).advanced(then).last == Some(then),
        m.advanced(now).advanced(then).pulse == PulseView::StepsUntilPulse(
            (m.pulse->StepsUntilPulse_0 - 1) as nat,
        ),
        m.advanced(now).advanced(then).state == m.state,
{
}

/// The waits of a pulse are compensated as a run: advanced through `waits`
/// of its waits, at any readings, an engine that carried `m.hanger` asks
/// for the waits and ends with the debt that the drift compensation gives
/// for the lateness that the waits met.
pub proof fn lemma_waits_follow_the_plan(m: MotorView, clock: Seq<nat>, waits: nat)
    requires
        m.wf(),
        m.state is Moving,
        m.pulse matches PulseView::StepsUntilPulse(n) && waits <= n,
        m.last is Some,
        clock.len() == 2 * waits,
    ensures
        m.lateness_met(clock).len() == waits,
        m.run(clock).hanger == debt_from(MAX_SPEED as nat, m.hanger, m.lateness_met(clock)),
        slept(m.trace(clock)) == waited_from(MAX_SPEED as nat, m.hanger, m.lateness_met(clock)),
        m.run(clock).pulse == PulseView::StepsUntilPulse(
            (m.pulse->StepsUntilPulse_0 - waits) as nat,
        ),
        m.run(clock).state == m.state,
        m.run(clock).last is Some,
        m.run(clock).wf(),
    decreases waits,
{
    if waits > 0 {
        let now: nat = clock[0];
        let then: nat = clock[1];
        let planned: MotorView = m.advanced(now);
        let woken: MotorView = planned.advanced(then);
        let rest: Seq<nat> = clock.skip(2);
        lemma_wait_is_cut_to_the_budget(m, now, then);
        lemma_waits_follow_the_plan(woken, rest, (waits - 1) as nat);
        let after: Seq<nat> = clock.drop_first();
        assert(after.drop_first() =~= rest);
        assert(after[0] == then);
        assert(planned.run(after) == woken.run(rest));
        assert(m.run(clock) == woken.run(rest));
        let trace: Seq<Action> = m.trace(clock);
        let tail: Seq<Action> = planned.trace(after);
        assert(tail.drop_first() =~= woken.trace(rest));
        assert(tail[0] == Action::Resume);
        assert(slept(tail) == slept(woken.trace(rest)));
        assert(trace.drop_first() =~= tail);
        assert(trace[0] == m.action(now));
        let wait: nat = next_wait(MAX_SPEED as nat, elapsed(m.last->0, now), m.hanger);
        assert(wait <= MAX_SPEED);
        assert(slept(trace) == wait + slept(tail));
        let met: Seq<nat> = m.lateness_met(clock);
        assert(met.drop_first() =~= woken.lateness_met(rest));
        assert(met[0] == elapsed(m.last->0, now));
    } else {
        assert(m.trace(clock) =~= Seq::<Action>::empty());
    }
}

/// No drift within a pulse: from its falling edge on, the time that a pulse
/// asks to wait and the lateness that its waits meet add up to the nominal
/// time of the waits and the debt still carried. That debt is the worst
/// overrun of any tail of the waits, so it is within one interval wherever
/// no tail overruns by more.
pub proof fn lemma_pulse_keeps_time(m: MotorView, clock: Seq<nat>, waits: nat)
    requires
        m.wf(),
        m.state is Moving,
        m.pulse matches PulseView::StepsUntilPulse(n) && waits <= n,
        m.last is Some,
        m.hanger == 0,
        clock.len() == 2 * waits,
    ensures
        m.lateness_met(clock).len() == waits,
        slept(m.trace(clock)) + total(m.lateness_met(clock)) == waits * MAX_SPEED + m.run(
            clock,
        ).hanger,
        m.run(clock).hanger == debt_after(MAX_SPEED as nat, m.lateness_met(clock)),
        forall|k: int|
            0 <= k <= waits ==> #[trigger] overrun(
                MAX_SPEED as nat,
                m.lateness_met(clock).skip(k),
            ) <= m.run(clock).hanger,
{
    let met: Seq<nat> = m.lateness_met(clock);
    lemma_waits_follow_the_plan(m, clock, waits);
    lemma_run_from_no_debt(MAX_SPEED as nat, met);
    lemma_drift_is_the_debt_carried(MAX_SPEED as nat, met);
    lemma_debt_is_the_worst_tail_overrun(MAX_SPEED as nat, met);
}

/// Every wait of a pulse has an instant to measure from: a moving engine
/// that was started idle has an instant recorded whenever it has waits
/// left or a wait outstanding.
pub proof fn lemma_waits_have_an_instant(m: MotorView, now: nat)
    requires
        m.wf(),
        m.state is Moving,
        m.pulse == PulseView::StepsUntilPulse(0) || m.last is Some,
    ensures
        m.advanced(now).state is Moving ==> m.advanced(now).pulse == PulseView::StepsUntilPulse(0)
            || m.advanced(now).last is Some,
{
}

/// Flipping the direction twice while idle is accepted both times and
/// leaves the engine as it was.
pub proof fn lemma_toggle_twice_restores(m: MotorView)
    requires
        m.state is Idle,
    ensures
        m.toggle_result() == Ok::<(), StateError>(()),
        m.toggled().toggle_result() == Ok::<(), StateError>(()),
        m.toggled().dir != m.dir,
        m.toggled().toggled() == m,
{
}

/// A turn of no steps is over at the first advance: it is accepted, its
/// one action is `Finish`, no edge is driven, and the engine is idle again
/// with its driver asleep.
pub proof fn lemma_turn_of_no_steps(m: MotorView, ticks: nat, now: nat)
    requires
        m.wf(),
        m.state is Idle,
        ticks >= 1,
    ensures
        m.start_result(ticks) == Ok::<(), StateError>(()),
        m.started(0, ticks).action(now) == Action::Finish,
        m.started(0, ticks).advanced(now) == m,
{
}

/// Advancing an idle engine changes nothing, however often.
pub proof fn lemma_idle_stays_idle(m: MotorView, clock: Seq<nat>)
    requires
        m.wf(),
        m.state is Idle,
    ensures
        m.run(clock) == m,
        edges(m.trace(clock)) == Seq::<Level>::empty(),
        m.awake_while_moving(clock),
    decreases clock.len(),
{
    if clock.len() > 0 {
        assert(m.advanced(clock[0]) == m);
        lemma_idle_stays_idle(m, clock.drop_first());
        assert(m.trace(clock).drop_first() =~= m.trace(clock.drop_first()));
    }
}

/// Every advance of a turn in progress leaves one advance fewer to take.
proof fn lemma_advance_takes_one(m: MotorView, now: nat)
    requires
        m.wf(),
        m.state is Moving,
    ensures
        m.advanced(now).advances_left() + 1 == m.advances_left(),
{
    let turn_steps: nat = m.state->turn_steps;
    let ticks_per_step: nat = m.state->ticks_per_step;
    let width: nat = 2 * ticks_per_step + 2;
    if m.pulse == PulseView::StepsUntilPulse(0) && turn_steps > 0 {
        let fewer: nat = (turn_steps - 1) as nat;
        assert(fewer * width + width == turn_steps * width) by (nonlinear_arith)
            requires
                fewer + 1 == turn_steps,
        ;
        assert(m.advanced(now).state == StateView::Moving {
            turn_steps: fewer,
            ticks_per_step,
        });
        assert(m.advanced(now).advances_left() == fewer * width + 1 + 2 * ticks_per_step + 1);
        assert(m.advances_left() == turn_steps * width + 1);
    } else if m.pulse == PulseView::StepsUntilPulse(0) {
        assert(turn_steps * width == 0) by (nonlinear_arith)
            requires
                turn_steps == 0,
        ;
    }
}

/// The edges still to come are the edge of this advance, if it drives one,
/// and then the edges still to come after it.
proof fn lemma_advance_drives_next_edge(m: MotorView, now: nat)
    requires
        m.wf(),
        m.state is Moving,
    ensures
        m.edges_left() =~= match m.action(now) {
            Action::RaiseStep => seq![Level::High] + m.advanced(now).edges_left(),
            Action::DropStep => seq![Level::Low] + m.advanced(now).edges_left(),
            _ => m.advanced(now).edges_left(),
        },
{
    let turn_steps: nat = m.state->turn_steps;
    if m.pulse == PulseView::StepsUntilPulse(0) {
        if turn_steps > 0 {
            assert(pulses(turn_steps) =~= seq![Level::High] + (seq![Level::Low] + pulses(
                (turn_steps - 1) as nat,
            )));
        } else {
            assert(pulses(0) =~= Seq::<Level>::empty());
        }
    }
}

/// From any consistent state with the driver awake, enough advances end the
/// turn in progress, and they drive exactly the edges that were still to
/// come.
proof fn lemma_run_ends_turn(m: MotorView, clock: Seq<nat>)
    requires
        m.wf(),
        m.state is Moving ==> m.sleep == Level::High,
        clock.len() >= m.advances_left(),
    ensures
        m.run(clock).state is Idle,
        m.run(clock).wf(),
        m.run(clock).dir == m.dir,
        m.run(clock).params == m.params,
        edges(m.trace(clock)) =~= m.edges_left(),
        m.awake_while_moving(clock),
    decreases clock.len(),
{
    if m.state is Idle {
        lemma_idle_stays_idle(m, clock);
    } else {
        let now: nat = clock[0];
        let next: MotorView = m.advanced(now);
        lemma_advance_takes_one(m, now);
        lemma_advance_drives_next_edge(m, now);
        lemma_run_ends_turn(next, clock.drop_first());
        assert(m.trace(clock).drop_first() =~= next.trace(clock.drop_first()));
        assert(m.trace(clock)[0] == m.action(now));
    }
}

/// A turn emits every pulse it was asked for, and no other.
///
/// A turn of `turn_steps` pulses at `ticks` ticks per step, accepted by an
/// idle engine and advanced `2 * ticks` times per pulse and once more, or
/// more often, has at the end, whatever the clock read at each advance:
/// driven STEP high `turn_steps` times and low `turn_steps` times in turn,
/// starting with high; kept the driver awake from its acceptance up to the
/// advance that ended it; and left the engine idle with STEP low and the
/// driver asleep.
pub proof fn lemma_turn_emits_every_pulse(
    m: MotorView,
    turn_steps: nat,
    ticks: nat,
    clock: Seq<nat>,
)
    requires
        m.wf(),
        m.state is Idle,
        ticks >= 1,
        clock.len() >= turn_steps * (2 * ticks) + 1,
    ensures
        m.start_result(ticks) == Ok::<(), StateError>(()),
        edges(m.started(turn_steps, ticks).trace(clock)) == pulses(turn_steps),
        m.started(turn_steps, ticks).awake_while_moving(clock),
        m.started(turn_steps, ticks).run(clock) == m,
{
    let started: MotorView = m.started(turn_steps, ticks);
    assert(started.advances_left() == turn_steps * (2 * ticks) + 1);
    lemma_run_ends_turn(started, clock);
}

} // verus!
