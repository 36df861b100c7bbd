//! Drift compensation: how long to wait next, given how late we are.
//!
//! A scheduler cannot promise that a wait ends on time. Each wait is
//! therefore planned against a budget: one nominal interval, less the time
//! that has already passed since the last recorded instant, less the
//! lateness carried over from earlier waits. What the budget cannot cover is
//! carried forward as debt and shortens the waits that follow.
use vstd::prelude::*;

verus! {

/// The time from `last` to `now`, zero where the clock reads earlier than
/// `last`.
pub open spec fn elapsed(last: nat, now: nat) -> nat {
    if now >= last {
        (now - last) as nat
    } else {
        0
    }
}

/// What is left of one interval of `target` once `lateness` and the carried
/// `debt` are taken off. Negative when the interval is overrun.
pub open spec fn budget(target: nat, lateness: nat, debt: nat) -> int {
    target - lateness - debt
}

/// `x` where it is positive, else zero.
pub open spec fn positive_part(x: int) -> nat {
    if x >= 0 {
        x as nat
    } else {
        0
    }
}

/// The magnitude of `x` where it is negative, else zero.
pub open spec fn negative_part(x: int) -> nat {
    if x >= 0 {
        0
    } else {
        (-x) as nat
    }
}

/// The wait that the budget allows.
pub open spec fn next_wait(target: nat, lateness: nat, debt: nat) -> nat {
    positive_part(budget(target, lateness, debt))
}

/// The debt that is carried past this wait.
pub open spec fn next_debt(target: nat, lateness: nat, debt: nat) -> nat {
    negative_part(budget(target, lateness, debt))
}

/// The wait and the new debt at clock reading `now`, for an engine that last
/// recorded the instant `last` and carries `debt`. With no instant recorded
/// the wait is one full interval and nothing is owed.
pub open spec fn wait_plan(target: nat, last: Option<nat>, now: nat, debt: nat) -> (nat, nat) {
    match last {
        Some(l) => (
            next_wait(target, elapsed(l, now), debt),
            next_debt(target, elapsed(l, now), debt),
        ),
        None => (target, 0),
    }
}

/// Splits a signed duration into its positive part and the magnitude of its
/// negative part; one of the two is always zero.
pub fn positive_or_zero(duration: i128) -> (parts: (u128, u128))
    ensures
        parts.0 == positive_part(duration as int),
        parts.1 == negative_part(duration as int),
{
    if duration >= 0 {
        (duration as u128, 0)
    } else {
        let short: i128 = -(duration + 1);
        (0, short as u128 + 1)
    }
}

/// The sum of the values in `s`.
pub open spec fn total(s: Seq<nat>) -> nat
    decreases s.len(),
{
    if s.len() == 0 {
        0
    } else {
        total(s.drop_last()) + s.last()
    }
}

/// The debt carried after a run of waits that met the lateness values in
/// `lateness`, one per wait and in order, starting from no debt.
pub open spec fn debt_after(target: nat, lateness: Seq<nat>) -> nat
    decreases lateness.len(),
{
    if lateness.len() == 0 {
        0
    } else {
        next_debt(target, lateness.last(), debt_after(target, lateness.drop_last()))
    }
}

/// The sum of the waits planned over that run.
pub open spec fn waited(target: nat, lateness: Seq<nat>) -> nat
    decreases lateness.len(),
{
    if lateness.len() == 0 {
        0
    } else {
        waited(target, lateness.drop_last()) + next_wait(
            target,
            lateness.last(),
            debt_after(target, lateness.drop_last()),
        )
    }
}

/// By how much the lateness values in `s` together exceed one interval of
/// `target` each. Negative where they stay below.
pub open spec fn overrun(target: nat, s: Seq<nat>) -> int {
    total(s) - s.len() * target
}

/// One wait settles one interval: the wait, the lateness it met and the debt
/// it took over add up to the interval plus the debt it leaves.
pub proof fn lemma_wait_settles_interval(target: nat, lateness: nat, debt: nat)
    ensures
        next_wait(target, lateness, debt) + lateness + debt == target + next_debt(
            target,
            lateness,
            debt,
        ),
        next_wait(target, lateness, debt) <= target,
        next_wait(target, lateness, debt) == 0 || next_debt(target, lateness, debt) == 0,
{
}

/// No long-run drift: over any run of waits, the time waited plus the
/// lateness met is the nominal time of the run plus the debt still carried
/// at its end. Lateness is never lost and never counted twice.
pub proof fn lemma_drift_is_the_debt_carried(target: nat, lateness: Seq<nat>)
    ensures
        waited(target, lateness) + total(lateness) == lateness.len() * target + debt_after(
            target,
            lateness,
        ),
    decreases lateness.len(),
{
    if lateness.len() > 0 {
        let before = lateness.drop_last();
        lemma_drift_is_the_debt_carried(target, before);
        lemma_wait_settles_interval(target, lateness.last(), debt_after(target, before));
        assert(lateness.len() * target == before.len() * target + target) by (nonlinear_arith)
            requires
                lateness.len() == before.len() + 1,
        ;
    }
}

/// The debt carried is the worst overrun of any tail of the run: no tail of
/// the lateness values overruns its intervals by more than the debt, and a
/// debt that is not zero is the overrun of some tail.
pub proof fn lemma_debt_is_the_worst_tail_overrun(target: nat, lateness: Seq<nat>)
    ensures
        forall|k: int|
            0 <= k <= lateness.len() ==> #[trigger] overrun(target, lateness.skip(k))
                <= debt_after(target, lateness),
        debt_after(target, lateness) == 0 || exists|k: int|
            0 <= k < lateness.len() && #[trigger] overrun(target, lateness.skip(k)) == debt_after(
                target,
                lateness,
            ),
    decreases lateness.len(),
{
    let n: int = lateness.len() as int;
    if n == 0 {
        assert forall|k: int| 0 <= k <= n implies #[trigger] overrun(target, lateness.skip(k))
            <= debt_after(target, lateness) by {
            assert(lateness.skip(k).len() == 0);
        }
    } else {
        let before = lateness.drop_last();
        let x = lateness.last();
        let carried = debt_after(target, before);
        lemma_debt_is_the_worst_tail_overrun(target, before);
        assert forall|k: int| 0 <= k <= n implies #[trigger] overrun(target, lateness.skip(k))
            <= debt_after(target, lateness) by {
            if k == n {
                assert(lateness.skip(k).len() == 0);
            } else {
                lemma_tail_grows_by_one(target, lateness, k);
                assert(overrun(target, before.skip(k)) <= carried);
            }
        }
        if debt_after(target, lateness) != 0 {
            if carried == 0 {
                lemma_tail_grows_by_one(target, lateness, n - 1);
                assert(before.skip(n - 1).len() == 0);
                assert(overrun(target, lateness.skip(n - 1)) == debt_after(target, lateness));
            } else {
                let k: int = choose|k: int|
                    0 <= k < before.len() && #[trigger] overrun(target, before.skip(k)) == carried;
                lemma_tail_grows_by_one(target, lateness, k);
                assert(overrun(target, lateness.skip(k)) == debt_after(target, lateness));
            }
        }
    }
}

/// A tail of a run overruns by what the same tail of the run without its
/// last wait overruns, and by what the last wait adds.
proof fn lemma_tail_grows_by_one(target: nat, lateness: Seq<nat>, k: int)
    requires
        0 <= k < lateness.len(),
    ensures
        overrun(target, lateness.skip(k)) == overrun(target, lateness.drop_last().skip(k))
            + lateness.last() - target,
{
    let tail = lateness.skip(k);
    assert(tail.drop_last() =~= lateness.drop_last().skip(k));
    assert(tail.last() == lateness.last());
    assert(tail.len() * target == tail.drop_last().len() * target + target) by (nonlinear_arith)
        requires
            tail.len() == tail.drop_last().len() + 1,
    ;
}

/// The debt after a run of waits that starts with `debt` carried already.
pub open spec fn debt_from(target: nat, debt: nat, lateness: Seq<nat>) -> nat
    decreases lateness.len(),
{
    if lateness.len() == 0 {
        debt
    } else {
        debt_from(target, next_debt(target, lateness[0], debt), lateness.drop_first())
    }
}

/// The sum of the waits planned over a run of waits that starts with `debt`
/// carried already.
pub open spec fn waited_from(target: nat, debt: nat, lateness: Seq<nat>) -> nat
    decreases lateness.len(),
{
    if lateness.len() == 0 {
        0
    } else {
        next_wait(target, lateness[0], debt) + waited_from(
            target,
            next_debt(target, lateness[0], debt),
            lateness.drop_first(),
        )
    }
}

/// One more wait at the end of a run adds its wait, and leaves its debt.
proof fn lemma_one_more_wait(target: nat, debt: nat, lateness: Seq<nat>, late: nat)
    ensures
        debt_from(target, debt, lateness.push(late)) == next_debt(
            target,
            late,
            debt_from(target, debt, lateness),
        ),
        waited_from(target, debt, lateness.push(late)) == waited_from(target, debt, lateness)
            + next_wait(target, late, debt_from(target, debt, lateness)),
    decreases lateness.len(),
{
    let longer: Seq<nat> = lateness.push(late);
    if lateness.len() == 0 {
        let left: nat = next_debt(target, late, debt);
        assert(longer.drop_first() =~= lateness);
        assert(debt_from(target, left, lateness) == left);
        assert(waited_from(target, left, lateness) == 0);
    } else {
        let left: nat = next_debt(target, lateness[0], debt);
        assert(longer.drop_first() =~= lateness.drop_first().push(late));
        assert(longer[0] == lateness[0]);
        lemma_one_more_wait(target, left, lateness.drop_first(), late);
        assert(debt_from(target, debt, longer) == debt_from(target, left, longer.drop_first()));
        assert(waited_from(target, debt, longer) == next_wait(target, lateness[0], debt)
            + waited_from(target, left, longer.drop_first()));
    }
}

/// A run that starts with nothing carried is a run as [`debt_after`] and
/// [`waited`] tell it.
pub proof fn lemma_run_from_no_debt(target: nat, lateness: Seq<nat>)
    ensures
        debt_from(target, 0, lateness) == debt_after(target, lateness),
        waited_from(target, 0, lateness) == waited(target, lateness),
    decreases lateness.len(),
{
    if lateness.len() > 0 {
        let before: Seq<nat> = lateness.drop_last();
        lemma_run_from_no_debt(target, before);
        lemma_one_more_wait(target, 0, before, lateness.last());
        assert(before.push(lateness.last()) =~= lateness);
    }
}

/// Drift stays within one interval wherever no tail of the run overruns by
/// more than one interval: the time waited plus the lateness met then
/// differs from the nominal time of the run by at most `target`.
pub proof fn lemma_drift_within_one_interval(target: nat, lateness: Seq<nat>)
    requires
        forall|k: int|
            0 <= k < lateness.len() ==> #[trigger] overrun(target, lateness.skip(k)) <= target,
    ensures
        lateness.len() * target <= waited(target, lateness) + total(lateness) <= lateness.len()
            * target + target,
{
    lemma_drift_is_the_debt_carried(target, lateness);
    lemma_debt_is_the_worst_tail_overrun(target, lateness);
}

} // verus!
