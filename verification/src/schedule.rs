//! Milestone schedule engine.
//!
//! A locked balance carries an ordered list of [`UnlockMilestone`]s.  A
//! milestone is *matured* at epoch `now` when its `unlock_epoch < now`; the
//! matured percentages say which fraction of the balance may be unlocked.
//! After a partial unlock the remaining milestones are rescaled so that their
//! percentages again sum to exactly one hundred.

use vstd::prelude::*;

use crate::errors::ContractError;

verus! {

/// One (epoch, percent) step of an unlock schedule.
#[derive(Clone, Copy, Debug, PartialEq, Eq, Structural)]
pub struct UnlockMilestone {
    pub unlock_epoch: u64,
    pub unlock_percent: u8,
}

/// Metadata attached to a quantity of locked tokens.
#[derive(Clone, Debug)]
pub struct LockedTokenAttributes {
    pub unlock_milestones: Vec<UnlockMilestone>,
}

/// Sum of all percentages of a schedule.
pub open spec fn percents_sum(ms: Seq<UnlockMilestone>) -> int
    decreases ms.len(),
{
    if ms.len() == 0 {
        0
    } else {
        percents_sum(ms.drop_last()) + ms.last().unlock_percent
    }
}

/// Epochs are strictly increasing along the schedule.
pub open spec fn epochs_strictly_increasing(ms: Seq<UnlockMilestone>) -> bool {
    forall|i: int, j: int|
        0 <= i < j < ms.len() ==> ms[i].unlock_epoch < ms[j].unlock_epoch
}

/// A well-formed schedule: epochs strictly increasing and positive, every
/// percent at most one hundred, and a non-empty schedule's percentages sum to
/// exactly one hundred.
pub open spec fn valid_schedule(ms: Seq<UnlockMilestone>) -> bool {
    &&& epochs_strictly_increasing(ms)
    &&& (forall|i: int| 0 <= i < ms.len() ==> (#[trigger] ms[i]).unlock_epoch > 0)
    &&& (forall|i: int| 0 <= i < ms.len() ==> (#[trigger] ms[i]).unlock_percent <= 100)
    &&& (ms.len() > 0 ==> percents_sum(ms) == 100)
}

/// Sum of the percentages of the milestones matured at epoch `now`.
pub open spec fn unlocked_percent_spec(ms: Seq<UnlockMilestone>, now: u64) -> int
    decreases ms.len(),
{
    if ms.len() == 0 {
        0
    } else {
        unlocked_percent_spec(ms.drop_last(), now) + if ms.last().unlock_epoch < now {
            ms.last().unlock_percent as int
        } else {
            0
        }
    }
}

/// The amount unlockable at epoch `now` out of `amount`: floor of
/// `amount * unlocked_percent / 100`.
pub open spec fn unlocked_amount_spec(amount: u64, ms: Seq<UnlockMilestone>, now: u64) -> int {
    amount * unlocked_percent_spec(ms, now) / 100
}

proof fn lemma_percents_sum_take_succ(ms: Seq<UnlockMilestone>, i: int)
    requires
        0 <= i < ms.len(),
    ensures
        percents_sum(ms.take(i + 1)) == percents_sum(ms.take(i)) + ms[i].unlock_percent,
{
    assert(ms.take(i + 1).drop_last() =~= ms.take(i));
    assert(ms.take(i + 1).last() == ms[i]);
}

proof fn lemma_unlocked_percent_take_succ(ms: Seq<UnlockMilestone>, now: u64, i: int)
    requires
        0 <= i < ms.len(),
    ensures
        unlocked_percent_spec(ms.take(i + 1), now) == unlocked_percent_spec(ms.take(i), now)
            + if ms[i].unlock_epoch < now { ms[i].unlock_percent as int } else { 0 },
{
    assert(ms.take(i + 1).drop_last() =~= ms.take(i));
    assert(ms.take(i + 1).last() == ms[i]);
}

pub proof fn lemma_percents_sum_nonneg(ms: Seq<UnlockMilestone>)
    ensures
        percents_sum(ms) >= 0,
    decreases ms.len(),
{
    if ms.len() > 0 {
        lemma_percents_sum_nonneg(ms.drop_last());
    }
}

/// The matured part of the percentage sum lies between zero and the whole sum.
pub proof fn lemma_unlocked_percent_bounds(ms: Seq<UnlockMilestone>, now: u64)
    ensures
        0 <= unlocked_percent_spec(ms, now),
        unlocked_percent_spec(ms, now) <= percents_sum(ms),
    decreases ms.len(),
{
    if ms.len() > 0 {
        lemma_unlocked_percent_bounds(ms.drop_last(), now);
    }
}

proof fn lemma_percents_sum_take_le(ms: Seq<UnlockMilestone>, i: int)
    requires
        0 <= i <= ms.len(),
    ensures
        percents_sum(ms.take(i)) <= percents_sum(ms),
    decreases ms.len() - i,
{
    if i == ms.len() {
        assert(ms.take(i) =~= ms);
    } else {
        lemma_percents_sum_take_succ(ms, i);
        lemma_percents_sum_take_le(ms, i + 1);
    }
}

/// Checks that a milestone list is a well-formed schedule.
///
/// Returns `Ok` exactly on the inputs that [`valid_schedule`] accepts; an
/// empty list is accepted.
pub fn validate_unlock_milestones(unlock_milestones: &Vec<UnlockMilestone>) -> (r: Result<
    (),
    ContractError,
>)
    ensures
        r.is_ok() <==> valid_schedule(unlock_milestones@),
        r.is_err() ==> r == Err::<(), ContractError>(ContractError::InvalidScheduleError),
{
    let ms = unlock_milestones;
    let n = ms.len();
    let mut percents_total: u64 = 0;
    let mut last_epoch: u64 = 0;
    let mut i: usize = 0;
    while i < n
        invariant
            0 <= i <= n,
            n == ms@.len(),
            ms@ == unlock_milestones@,
            percents_total == percents_sum(ms@.take(i as int)),
            percents_total <= 100,
            forall|k: int| 0 <= k < i ==> (#[trigger] ms@[k]).unlock_epoch > 0,
            forall|k: int| 0 <= k < i ==> (#[trigger] ms@[k]).unlock_percent <= 100,
            forall|k1: int, k2: int|
                0 <= k1 < k2 < i ==> ms@[k1].unlock_epoch < ms@[k2].unlock_epoch,
            i > 0 ==> last_epoch == ms@[i - 1].unlock_epoch,
            i == 0 ==> last_epoch == 0,
        decreases n - i,
    {
        let m = ms[i];
        if m.unlock_epoch <= last_epoch {
            proof {
                if i == 0 {
                    assert(ms@[0].unlock_epoch == 0);
                } else {
                    assert(ms@[i - 1].unlock_epoch >= ms@[i as int].unlock_epoch);
                    assert(!epochs_strictly_increasing(ms@));
                }
                assert(!valid_schedule(ms@));
            }
            return Err(ContractError::InvalidScheduleError);
        }
        if m.unlock_percent > 100 {
            proof {
                assert(ms@[i as int].unlock_percent > 100);
                assert(!valid_schedule(ms@));
            }
            return Err(ContractError::InvalidScheduleError);
        }
        proof {
            lemma_percents_sum_take_succ(ms@, i as int);
        }
        percents_total = percents_total + m.unlock_percent as u64;
        if percents_total > 100 {
            proof {
                lemma_percents_sum_take_le(ms@, i as int + 1);
                assert(percents_sum(ms@) > 100);
                assert(!valid_schedule(ms@));
            }
            return Err(ContractError::InvalidScheduleError);
        }
        last_epoch = m.unlock_epoch;
        i = i + 1;
    }
    assert(ms@.take(n as int) =~= ms@);
    if n > 0 && percents_total != 100 {
        return Err(ContractError::InvalidScheduleError);
    }
    Ok(())
}

/// Sum of the percentages of the milestones matured at `now`.
///
/// Requires a well-formed schedule, so the sum fits a `u8`.
pub fn get_unlock_percent(current_epoch: u64, unlock_milestones: &Vec<UnlockMilestone>) -> (r: u8)
    requires
        valid_schedule(unlock_milestones@),
    ensures
        r as int == unlocked_percent_spec(unlock_milestones@, current_epoch),
        r <= 100,
{
    let ms = unlock_milestones;
    let n = ms.len();
    let mut percent: u64 = 0;
    let mut i: usize = 0;
    proof {
        if n > 0 {
            lemma_percents_sum_nonneg(ms@);
        }
    }
    while i < n
        invariant
            0 <= i <= n,
            n == ms@.len(),
            valid_schedule(ms@),
            percent == unlocked_percent_spec(ms@.take(i as int), current_epoch),
            percent <= 100,
        decreases n - i,
    {
        proof {
            lemma_unlocked_percent_take_succ(ms@, current_epoch, i as int);
            lemma_unlocked_percent_bounds(ms@.take(i as int + 1), current_epoch);
            lemma_percents_sum_take_le(ms@, i as int + 1);
        }
        if ms[i].unlock_epoch < current_epoch {
            percent = percent + ms[i].unlock_percent as u64;
        }
        i = i + 1;
    }
    assert(ms@.take(n as int) =~= ms@);
    percent as u8
}

/// The amount unlockable at `current_epoch` out of `amount`.
///
/// Never exceeds `amount`: the matured percentage is at most one hundred and
/// the division truncates.
pub fn get_unlock_amount(
    amount: u64,
    current_epoch: u64,
    unlock_milestones: &Vec<UnlockMilestone>,
) -> (r: u64)
    requires
        valid_schedule(unlock_milestones@),
    ensures
        r as int == unlocked_amount_spec(amount, unlock_milestones@, current_epoch),
        r <= amount,
        unlocked_percent_spec(unlock_milestones@, current_epoch) == 100 ==> r == amount,
{
    let percent = get_unlock_percent(current_epoch, unlock_milestones);
    proof {
        assert(amount as int * percent as int <= amount as int * 100) by (nonlinear_arith)
            requires amount as int >= 0 && percent as int <= 100,
        ;
        lemma_mul_div_le_self(amount as int, percent as int);
    }
    let wide: u128 = amount as u128 * percent as u128 / 100;
    wide as u64
}

/// Sum of the percentages of the milestones *not* matured at epoch `now`
/// (those with `unlock_epoch >= now`).
pub open spec fn kept_percents_sum(ms: Seq<UnlockMilestone>, now: u64) -> int
    decreases ms.len(),
{
    if ms.len() == 0 {
        0
    } else {
        kept_percents_sum(ms.drop_last(), now) + if ms.last().unlock_epoch >= now {
            ms.last().unlock_percent as int
        } else {
            0
        }
    }
}

/// Every percentage point is either matured or kept.
pub proof fn lemma_sum_split(ms: Seq<UnlockMilestone>, now: u64)
    ensures
        percents_sum(ms) == unlocked_percent_spec(ms, now) + kept_percents_sum(ms, now),
    decreases ms.len(),
{
    if ms.len() > 0 {
        lemma_sum_split(ms.drop_last(), now);
    }
}

/// The milestones kept at `now`, each rescaled by `100 / rem` (truncating).
pub open spec fn residual_rescaled(ms: Seq<UnlockMilestone>, now: u64, rem: int) -> Seq<
    UnlockMilestone,
>
    decreases ms.len(),
{
    if ms.len() == 0 {
        Seq::empty()
    } else {
        residual_rescaled(ms.drop_last(), now, rem) + if ms.last().unlock_epoch >= now {
            seq![
                UnlockMilestone {
                    unlock_epoch: ms.last().unlock_epoch,
                    unlock_percent: (ms.last().unlock_percent as int * 100 / rem) as u8,
                },
            ]
        } else {
            Seq::empty()
        }
    }
}

/// The residual schedule after unlocking at epoch `now`: the kept milestones,
/// rescaled, with the rounding shortfall added to the first element so the
/// percentages again sum to one hundred.  Empty when nothing remains locked.
pub open spec fn residual_schedule_spec(ms: Seq<UnlockMilestone>, now: u64) -> Seq<
    UnlockMilestone,
> {
    let rem = 100 - unlocked_percent_spec(ms, now);
    if rem <= 0 {
        Seq::empty()
    } else {
        let raw = residual_rescaled(ms, now, rem);
        if raw.len() == 0 {
            Seq::empty()
        } else {
            raw.update(
                0,
                UnlockMilestone {
                    unlock_epoch: raw[0].unlock_epoch,
                    unlock_percent: (raw[0].unlock_percent + 100 - percents_sum(raw)) as u8,
                },
            )
        }
    }
}

/// `a / d + b / d <= (a + b) / d` for non-negative numerators.
proof fn lemma_div_plus_div_le(a: int, b: int, d: int)
    requires
        a >= 0,
        b >= 0,
        d > 0,
    ensures
        a / d + b / d <= (a + b) / d,
{
    vstd::arithmetic::div_mod::lemma_fundamental_div_mod(a, d);
    vstd::arithmetic::div_mod::lemma_fundamental_div_mod(b, d);
    assert(d * (a / d) + d * (b / d) == d * (a / d + b / d)) by (nonlinear_arith);
    assert(a % d >= 0 && b % d >= 0) by {
        vstd::arithmetic::div_mod::lemma_mod_bound(a, d);
        vstd::arithmetic::div_mod::lemma_mod_bound(b, d);
    }
    assert(d * (a / d + b / d) <= a + b);
    vstd::arithmetic::div_mod::lemma_div_is_ordered(d * (a / d + b / d), a + b, d);
    vstd::arithmetic::div_mod::lemma_div_by_multiple(a / d + b / d, d);
}

/// A single percentage never exceeds the sum of its schedule.
proof fn lemma_element_le_sum(ms: Seq<UnlockMilestone>, i: int)
    requires
        0 <= i < ms.len(),
    ensures
        ms[i].unlock_percent <= percents_sum(ms),
    decreases ms.len(),
{
    if i == ms.len() - 1 {
        lemma_percents_sum_nonneg(ms.drop_last());
    } else {
        lemma_element_le_sum(ms.drop_last(), i);
    }
}

/// A kept percentage never exceeds the kept sum.
proof fn lemma_kept_element_le_kept_sum(ms: Seq<UnlockMilestone>, now: u64, i: int)
    requires
        0 <= i < ms.len(),
        ms[i].unlock_epoch >= now,
    ensures
        ms[i].unlock_percent <= kept_percents_sum(ms, now),
    decreases ms.len(),
{
    if i == ms.len() - 1 {
        lemma_kept_sum_nonneg(ms.drop_last(), now);
    } else {
        lemma_kept_element_le_kept_sum(ms.drop_last(), now, i);
    }
}

proof fn lemma_kept_sum_nonneg(ms: Seq<UnlockMilestone>, now: u64)
    ensures
        kept_percents_sum(ms, now) >= 0,
    decreases ms.len(),
{
    if ms.len() > 0 {
        lemma_kept_sum_nonneg(ms.drop_last(), now);
    }
}

/// The rescaled kept milestones sum to at most `kept_sum * 100 / rem`.
proof fn lemma_residual_rescaled_sum_le(ms: Seq<UnlockMilestone>, now: u64, rem: int)
    requires
        rem > 0,
        forall|i: int|
            0 <= i < ms.len() && (#[trigger] ms[i]).unlock_epoch >= now ==> ms[i].unlock_percent
                <= rem,
    ensures
        percents_sum(residual_rescaled(ms, now, rem)) <= kept_percents_sum(ms, now) * 100 / rem,
        percents_sum(residual_rescaled(ms, now, rem)) >= 0,
    decreases ms.len(),
{
    lemma_percents_sum_nonneg(residual_rescaled(ms, now, rem));
    if ms.len() == 0 {
    } else {
        let prev = ms.drop_last();
        let raw_prev = residual_rescaled(prev, now, rem);
        lemma_residual_rescaled_sum_le(prev, now, rem);
        if ms.last().unlock_epoch >= now {
            let p = ms.last().unlock_percent as int;
            let scaled = UnlockMilestone {
                unlock_epoch: ms.last().unlock_epoch,
                unlock_percent: (p * 100 / rem) as u8,
            };
            assert(ms[ms.len() - 1] == ms.last());
            assert(p <= rem);
            assert(0 <= p * 100 / rem <= 100) by {
                assert(p * 100 <= rem * 100);
                vstd::arithmetic::div_mod::lemma_div_is_ordered(p * 100, rem * 100, rem);
                vstd::arithmetic::div_mod::lemma_div_by_multiple(100, rem);
                vstd::arithmetic::div_mod::lemma_div_is_ordered(0, p * 100, rem);
            }
            assert(scaled.unlock_percent as int == p * 100 / rem);
            assert(residual_rescaled(ms, now, rem) == raw_prev + seq![scaled]);
            assert((raw_prev + seq![scaled]).drop_last() =~= raw_prev);
            assert(percents_sum(raw_prev + seq![scaled]) == percents_sum(raw_prev)
                + scaled.unlock_percent);
            assert(scaled.unlock_percent as int <= p * 100 / rem);
            lemma_kept_sum_nonneg(prev, now);
            lemma_div_plus_div_le(kept_percents_sum(prev, now) * 100, p * 100, rem);
            assert(kept_percents_sum(prev, now) * 100 + p * 100 == kept_percents_sum(ms, now)
                * 100) by (nonlinear_arith)
                requires kept_percents_sum(ms, now) == kept_percents_sum(prev, now) + p,
            ;
        } else {
            assert(residual_rescaled(ms, now, rem) =~= raw_prev);
        }
    }
}

/// Shape of the rescaled kept milestones: epochs strictly increasing, all at
/// least `now`, positive where the source epochs are, and non-empty whenever
/// the kept percentage sum is positive.
proof fn lemma_residual_rescaled_shape(ms: Seq<UnlockMilestone>, now: u64, rem: int)
    requires
        epochs_strictly_increasing(ms),
        rem > 0,
    ensures
        epochs_strictly_increasing(residual_rescaled(ms, now, rem)),
        forall|i: int|
            0 <= i < residual_rescaled(ms, now, rem).len() ==> (#[trigger] residual_rescaled(
                ms,
                now,
                rem,
            )[i]).unlock_epoch >= now,
        (forall|i: int| 0 <= i < ms.len() ==> (#[trigger] ms[i]).unlock_epoch > 0) ==> forall|
            i: int,
        |
            0 <= i < residual_rescaled(ms, now, rem).len() ==> (#[trigger] residual_rescaled(
                ms,
                now,
                rem,
            )[i]).unlock_epoch > 0,
        ms.len() > 0 && residual_rescaled(ms, now, rem).len() > 0 ==> residual_rescaled(
            ms,
            now,
            rem,
        ).last().unlock_epoch <= ms.last().unlock_epoch,
        kept_percents_sum(ms, now) > 0 ==> residual_rescaled(ms, now, rem).len() > 0,
    decreases ms.len(),
{
    if ms.len() > 0 {
        let prev = ms.drop_last();
        let raw_prev = residual_rescaled(prev, now, rem);
        let raw = residual_rescaled(ms, now, rem);
        assert(epochs_strictly_increasing(prev)) by {
            assert(forall|i: int, j: int|
                0 <= i < j < prev.len() ==> prev[i].unlock_epoch < prev[j].unlock_epoch);
        }
        lemma_residual_rescaled_shape(prev, now, rem);
        if ms.last().unlock_epoch >= now {
            assert(raw.drop_last() =~= raw_prev);
            assert(raw.last().unlock_epoch == ms.last().unlock_epoch);
            assert(forall|i: int|
                0 <= i < prev.len() ==> (#[trigger] prev[i]).unlock_epoch
                    < ms.last().unlock_epoch);
            if prev.len() > 0 && raw_prev.len() > 0 {
                assert(raw_prev.last().unlock_epoch <= prev.last().unlock_epoch);
            }
            assert(forall|i: int|
                0 <= i < raw_prev.len() ==> (#[trigger] raw_prev[i]).unlock_epoch < raw[
                    raw.len() - 1].unlock_epoch) by {
                assert(forall|i: int|
                    0 <= i < raw_prev.len() - 1 ==> (#[trigger] raw_prev[i]).unlock_epoch
                        < raw_prev[raw_prev.len() - 1].unlock_epoch);
            }
            assert(forall|i: int| 0 <= i < raw.len() - 1 ==> raw[i] == raw_prev[i]);
            assert(epochs_strictly_increasing(raw));
        } else {
            assert(raw =~= raw_prev);
            assert(kept_percents_sum(ms, now) == kept_percents_sum(prev, now));
        }
    }
}

/// Sum after replacing one element.
proof fn lemma_sum_update(ms: Seq<UnlockMilestone>, i: int, v: UnlockMilestone)
    requires
        0 <= i < ms.len(),
    ensures
        percents_sum(ms.update(i, v)) == percents_sum(ms) - ms[i].unlock_percent
            + v.unlock_percent,
    decreases ms.len(),
{
    let upd = ms.update(i, v);
    if i == ms.len() - 1 {
        assert(upd.drop_last() =~= ms.drop_last());
        assert(upd.last() == v);
    } else {
        assert(upd.drop_last() =~= ms.drop_last().update(i, v));
        assert(upd.last() == ms.last());
        lemma_sum_update(ms.drop_last(), i, v);
    }
}

/// The residual schedule of a well-formed, non-empty schedule is itself
/// well formed; it is empty exactly when the whole schedule has matured, and
/// every milestone it keeps lies at or after `now`.
pub proof fn lemma_residual_schedule_valid(ms: Seq<UnlockMilestone>, now: u64)
    requires
        valid_schedule(ms),
        ms.len() > 0,
    ensures
        valid_schedule(residual_schedule_spec(ms, now)),
        residual_schedule_spec(ms, now).len() == 0 <==> unlocked_percent_spec(ms, now) == 100,
        residual_schedule_spec(ms, now).len() > 0 ==> percents_sum(
            residual_schedule_spec(ms, now),
        ) == 100,
        forall|i: int|
            0 <= i < residual_schedule_spec(ms, now).len() ==> (#[trigger] residual_schedule_spec(
                ms,
                now,
            )[i]).unlock_epoch >= now,
        residual_schedule_spec(ms, now).len() > 0 ==> residual_schedule_spec(
            ms,
            now,
        ).last().unlock_epoch <= ms.last().unlock_epoch,
{
    let unlocked = unlocked_percent_spec(ms, now);
    let rem = 100 - unlocked;
    lemma_unlocked_percent_bounds(ms, now);
    lemma_sum_split(ms, now);
    if rem <= 0 {
    } else {
        assert(kept_percents_sum(ms, now) == rem);
        assert(forall|k: int|
            0 <= k < ms.len() && (#[trigger] ms[k]).unlock_epoch >= now ==> ms[k].unlock_percent
                <= rem) by {
            assert forall|k: int|
                0 <= k < ms.len() && (#[trigger] ms[k]).unlock_epoch >= now implies ms[
            k].unlock_percent <= rem by {
                lemma_kept_element_le_kept_sum(ms, now, k);
            }
        }
        lemma_residual_rescaled_shape(ms, now, rem);
        lemma_residual_rescaled_sum_le(ms, now, rem);
        vstd::arithmetic::div_mod::lemma_div_by_multiple(100, rem);
        let raw = residual_rescaled(ms, now, rem);
        assert(percents_sum(raw) <= 100);
        assert(raw.len() > 0);
        lemma_element_le_sum(raw, 0);
        let corrected = UnlockMilestone {
            unlock_epoch: raw[0].unlock_epoch,
            unlock_percent: (raw[0].unlock_percent + 100 - percents_sum(raw)) as u8,
        };
        let res = raw.update(0, corrected);
        assert(residual_schedule_spec(ms, now) == res);
        lemma_sum_update(raw, 0, corrected);
        assert(percents_sum(res) == 100);
        assert(forall|i2: int|
            0 <= i2 < res.len() ==> (#[trigger] res[i2]).unlock_percent <= 100) by {
            assert forall|i2: int|
                0 <= i2 < res.len() implies (#[trigger] res[i2]).unlock_percent <= 100 by {
                if i2 > 0 {
                    assert(res[i2] == raw[i2]);
                    lemma_element_le_sum(raw, i2);
                }
            }
        }
        assert(epochs_strictly_increasing(res)) by {
            assert(forall|i2: int, j2: int|
                0 <= i2 < j2 < res.len() ==> res[i2].unlock_epoch == raw[i2].unlock_epoch && res[
                    j2].unlock_epoch == raw[j2].unlock_epoch);
        }
        assert(res.last().unlock_epoch == raw.last().unlock_epoch);
        assert(valid_schedule(res));
    }
}

/// Recomputes the unlock schedule after a partial unlock at `current_epoch`.
///
/// Keeps the milestones whose epoch has not yet passed, rescales each kept
/// percentage by `100 / remaining_percent` (truncating), and adds the rounding
/// shortfall to the first kept milestone so the result again sums to exactly
/// one hundred.  Returns the empty schedule exactly when everything has
/// matured.
///
/// Adding the whole shortfall to the first milestone looks as if it could
/// push that percentage past one hundred; it cannot, because on a
/// well-formed schedule the rescaled percentages sum to at most one hundred
/// and the first is no larger than their sum ([`lemma_residual_schedule_valid`]
/// carries the proof, so no clamping is needed).
pub fn create_new_unlock_milestones(
    current_epoch: u64,
    old_unlock_milestones: &Vec<UnlockMilestone>,
) -> (r: Vec<UnlockMilestone>)
    requires
        valid_schedule(old_unlock_milestones@),
        old_unlock_milestones@.len() > 0,
    ensures
        r@ == residual_schedule_spec(old_unlock_milestones@, current_epoch),
        valid_schedule(r@),
        r@.len() == 0 <==> unlocked_percent_spec(old_unlock_milestones@, current_epoch) == 100,
        forall|i: int| 0 <= i < r@.len() ==> (#[trigger] r@[i]).unlock_epoch >= current_epoch,
{
    let ms = old_unlock_milestones;
    let n = ms.len();
    let unlock_percent = get_unlock_percent(current_epoch, ms);
    let rem: u64 = 100 - unlock_percent as u64;
    proof {
        lemma_sum_split(ms@, current_epoch);
    }
    if rem == 0 {
        return Vec::new();
    }
    proof {
        assert(kept_percents_sum(ms@, current_epoch) == rem);
        assert(forall|k: int|
            0 <= k < n && (#[trigger] ms@[k]).unlock_epoch >= current_epoch ==> ms@[
                k].unlock_percent <= rem) by {
            assert forall|k: int|
                0 <= k < n && (#[trigger] ms@[k]).unlock_epoch >= current_epoch implies ms@[
                k].unlock_percent <= rem by {
                lemma_kept_element_le_kept_sum(ms@, current_epoch, k);
            }
        }
        lemma_residual_rescaled_shape(ms@, current_epoch, rem as int);
        lemma_residual_rescaled_sum_le(ms@, current_epoch, rem as int);
    }
    let ghost raw = residual_rescaled(ms@, current_epoch, rem as int);
    proof {
        vstd::arithmetic::div_mod::lemma_div_by_multiple(100, rem as int);
        assert(kept_percents_sum(ms@, current_epoch) * 100 / (rem as int) == 100);
        assert(percents_sum(raw) <= 100);
    }
    let mut out: Vec<UnlockMilestone> = Vec::new();
    let mut i: usize = 0;
    while i < n
        invariant
            0 <= i <= n,
            n == ms@.len(),
            ms@ == old_unlock_milestones@,
            valid_schedule(ms@),
            rem > 0,
            rem <= 100,
            forall|k: int|
                0 <= k < n && (#[trigger] ms@[k]).unlock_epoch >= current_epoch ==> ms@[
                    k].unlock_percent <= rem,
            out@ == residual_rescaled(ms@.take(i as int), current_epoch, rem as int),
        decreases n - i,
    {
        proof {
            assert(ms@.take(i as int + 1).drop_last() =~= ms@.take(i as int));
            assert(ms@.take(i as int + 1).last() == ms@[i as int]);
        }
        let m = ms[i];
        if m.unlock_epoch >= current_epoch {
            let new_percent: u64 = m.unlock_percent as u64 * 100 / rem;
            proof {
                assert(m.unlock_percent as int * 100 <= rem as int * 100);
                vstd::arithmetic::div_mod::lemma_div_is_ordered(
                    m.unlock_percent as int * 100,
                    rem as int * 100,
                    rem as int,
                );
                vstd::arithmetic::div_mod::lemma_div_by_multiple(100, rem as int);
                assert(new_percent <= 100);
            }
            out.push(
                UnlockMilestone { unlock_epoch: m.unlock_epoch, unlock_percent: new_percent as u8 },
            );
            proof {
                assert(out@ =~= residual_rescaled(
                    ms@.take(i as int + 1),
                    current_epoch,
                    rem as int,
                ));
            }
        }
        i = i + 1;
    }
    proof {
        assert(ms@.take(n as int) =~= ms@);
        assert(out@ == raw);
        assert(out@.len() > 0);
        lemma_percents_sum_nonneg(raw);
    }
    let k = out.len();
    let mut sum_of_new: u64 = 0;
    let mut j: usize = 0;
    while j < k
        invariant
            0 <= j <= k,
            k == out@.len(),
            out@ == raw,
            sum_of_new == percents_sum(out@.take(j as int)),
            sum_of_new <= 100,
            percents_sum(raw) <= 100,
        decreases k - j,
    {
        proof {
            lemma_percents_sum_take_succ(out@, j as int);
            lemma_percents_sum_take_le(out@, j as int + 1);
        }
        sum_of_new = sum_of_new + out[j].unlock_percent as u64;
        j = j + 1;
    }
    proof {
        assert(out@.take(k as int) =~= out@);
        lemma_element_le_sum(raw, 0);
    }
    let first = out[0];
    let corrected = UnlockMilestone {
        unlock_epoch: first.unlock_epoch,
        unlock_percent: (first.unlock_percent as u64 + (100 - sum_of_new)) as u8,
    };
    out[0] = corrected;
    proof {
        lemma_residual_schedule_valid(ms@, current_epoch);
        assert(out@ =~= residual_schedule_spec(ms@, current_epoch));
    }
    out
}

/// Whatever the epoch, the unlockable amount never exceeds the locked
/// amount.
pub proof fn lemma_unlocked_amount_le_amount(amount: u64, ms: Seq<UnlockMilestone>, now: u64)
    requires
        valid_schedule(ms),
    ensures
        0 <= unlocked_amount_spec(amount, ms, now) <= amount,
{
    lemma_unlocked_percent_bounds(ms, now);
    lemma_mul_div_le_self(amount as int, unlocked_percent_spec(ms, now));
}

proof fn lemma_unlocked_zero_when_all_kept(ms: Seq<UnlockMilestone>, now: u64)
    requires
        forall|i: int| 0 <= i < ms.len() ==> (#[trigger] ms[i]).unlock_epoch >= now,
    ensures
        unlocked_percent_spec(ms, now) == 0,
    decreases ms.len(),
{
    if ms.len() > 0 {
        assert(ms[ms.len() - 1] == ms.last());
        lemma_unlocked_zero_when_all_kept(ms.drop_last(), now);
    }
}

proof fn lemma_unlocked_all_matured(ms: Seq<UnlockMilestone>, now: u64)
    requires
        forall|i: int| 0 <= i < ms.len() ==> (#[trigger] ms[i]).unlock_epoch < now,
    ensures
        unlocked_percent_spec(ms, now) == percents_sum(ms),
    decreases ms.len(),
{
    if ms.len() > 0 {
        assert(ms[ms.len() - 1] == ms.last());
        lemma_unlocked_all_matured(ms.drop_last(), now);
    }
}

/// Rescaling by `100 / 100` changes nothing.
proof fn lemma_rescale_identity(ms: Seq<UnlockMilestone>, now: u64)
    requires
        forall|i: int| 0 <= i < ms.len() ==> (#[trigger] ms[i]).unlock_epoch >= now,
    ensures
        residual_rescaled(ms, now, 100) =~= ms,
    decreases ms.len(),
{
    if ms.len() > 0 {
        assert(ms[ms.len() - 1] == ms.last());
        lemma_rescale_identity(ms.drop_last(), now);
        let p = ms.last().unlock_percent as int;
        vstd::arithmetic::div_mod::lemma_div_by_multiple(p, 100);
        assert(p * 100 / 100 == p);
        assert(residual_rescaled(ms, now, 100) =~= residual_rescaled(ms.drop_last(), now, 100)
            + seq![ms.last()]);
    }
}

/// Recomputing the residual schedule at the same epoch is a no-op: nothing
/// already unlocked is ever unlocked again.
pub proof fn lemma_residual_idempotent(ms: Seq<UnlockMilestone>, now: u64)
    requires
        valid_schedule(ms),
        ms.len() > 0,
    ensures
        residual_schedule_spec(residual_schedule_spec(ms, now), now) == residual_schedule_spec(
            ms,
            now,
        ),
{
    lemma_residual_schedule_valid(ms, now);
    let r = residual_schedule_spec(ms, now);
    if r.len() == 0 {
        assert(unlocked_percent_spec(r, now) == 0);
        assert(residual_rescaled(r, now, 100) =~= Seq::<UnlockMilestone>::empty());
        assert(residual_schedule_spec(r, now) =~= r);
    } else {
        lemma_unlocked_zero_when_all_kept(r, now);
        lemma_rescale_identity(r, now);
        let raw2 = residual_rescaled(r, now, 100);
        assert(raw2 == r);
        assert(percents_sum(raw2) == 100);
        let corrected = UnlockMilestone {
            unlock_epoch: raw2[0].unlock_epoch,
            unlock_percent: (raw2[0].unlock_percent + 100 - percents_sum(raw2)) as u8,
        };
        assert(corrected == r[0]);
        assert(raw2.update(0, corrected) =~= r);
    }
}

/// The total amount minted when a position is unlocked step by step: at each
/// epoch in `nows` the unlockable part of the remaining amount is taken out
/// and the schedule replaced by its residual.
pub open spec fn total_unlocked_spec(amount: u64, ms: Seq<UnlockMilestone>, nows: Seq<u64>) -> int
    decreases nows.len(),
{
    if nows.len() == 0 {
        0
    } else {
        let u = unlocked_amount_spec(amount, ms, nows[0]);
        u + total_unlocked_spec(
            (amount - u) as u64,
            residual_schedule_spec(ms, nows[0]),
            nows.drop_first(),
        )
    }
}

proof fn lemma_total_zero_empty(nows: Seq<u64>)
    ensures
        total_unlocked_spec(0, Seq::<UnlockMilestone>::empty(), nows) == 0,
    decreases nows.len(),
{
    if nows.len() > 0 {
        let ms = Seq::<UnlockMilestone>::empty();
        assert(unlocked_percent_spec(ms, nows[0]) == 0);
        assert(unlocked_amount_spec(0, ms, nows[0]) == 0);
        assert(residual_rescaled(ms, nows[0], 100) =~= ms);
        assert(residual_schedule_spec(ms, nows[0]) =~= ms);
        lemma_total_zero_empty(nows.drop_first());
    }
}

/// Unlocking a locked amount incrementally, epoch by epoch, until every
/// milestone has matured mints exactly the original amount: nothing is lost
/// to rounding, because each truncated remainder stays in the position and
/// the final step always takes out everything that is left.
pub proof fn lemma_incremental_unlock_total(amount: u64, ms: Seq<UnlockMilestone>, nows: Seq<u64>)
    requires
        valid_schedule(ms),
        ms.len() > 0,
        nows.len() > 0,
        forall|i: int| 0 <= i < ms.len() ==> (#[trigger] ms[i]).unlock_epoch < nows.last(),
    ensures
        total_unlocked_spec(amount, ms, nows) == amount,
    decreases nows.len(),
{
    let now0 = nows[0];
    let p = unlocked_percent_spec(ms, now0);
    let u = unlocked_amount_spec(amount, ms, now0);
    lemma_unlocked_percent_bounds(ms, now0);
    lemma_mul_div_le_self(amount as int, p);
    lemma_residual_schedule_valid(ms, now0);
    let r = residual_schedule_spec(ms, now0);
    let rest = nows.drop_first();
    if nows.len() == 1 {
        assert(nows[0] == nows.last());
        lemma_unlocked_all_matured(ms, now0);
        assert(p == 100);
        assert(u == amount);
        assert(rest.len() == 0);
        assert(total_unlocked_spec((amount - u) as u64, r, rest) == 0);
        assert(total_unlocked_spec(amount, ms, nows) == amount);
    } else {
        assert(rest.last() == nows.last());
        if p == 100 {
            assert(u == amount);
            assert(r.len() == 0);
            assert(r =~= Seq::<UnlockMilestone>::empty());
            lemma_total_zero_empty(rest);
        } else {
            assert(r.len() > 0);
            assert(forall|i: int|
                0 <= i < r.len() ==> (#[trigger] r[i]).unlock_epoch < rest.last()) by {
                assert(ms[ms.len() - 1] == ms.last());
                assert(r.last().unlock_epoch <= ms.last().unlock_epoch);
                assert(r[r.len() - 1] == r.last());
                assert(forall|i: int|
                    0 <= i < r.len() - 1 ==> (#[trigger] r[i]).unlock_epoch < r[
                        r.len() - 1].unlock_epoch);
            }
            lemma_incremental_unlock_total((amount - u) as u64, r, rest);
        }
    }
}

/// For `0 <= p <= 100`: `a * p / 100 <= a`, and equality when `p == 100`.
proof fn lemma_mul_div_le_self(a: int, p: int)
    requires
        a >= 0,
        0 <= p <= 100,
    ensures
        0 <= a * p / 100 <= a,
        p == 100 ==> a * p / 100 == a,
{
    assert(a * p >= 0) by (nonlinear_arith)
        requires a >= 0 && p >= 0,
    ;
    assert(a * p <= a * 100) by (nonlinear_arith)
        requires a >= 0 && p <= 100,
    ;
    assert(a * p / 100 <= a * 100 / 100) by {
        vstd::arithmetic::div_mod::lemma_div_is_ordered(a * p, a * 100, 100);
    }
    assert(a * 100 / 100 == a) by {
        vstd::arithmetic::div_mod::lemma_div_by_multiple(a, 100);
    }
    assert(a * p / 100 >= 0) by {
        vstd::arithmetic::div_mod::lemma_div_is_ordered(0, a * p, 100);
    }
}

} // verus!
