use distrib::errors::ContractError;
use distrib::schedule::{
    create_new_unlock_milestones, get_unlock_amount, get_unlock_percent,
    validate_unlock_milestones, UnlockMilestone,
};

fn ms(epoch: u64, percent: u8) -> UnlockMilestone {
    UnlockMilestone { unlock_epoch: epoch, unlock_percent: percent }
}

#[test]
fn validate_accepts_well_formed_schedule() {
    let schedule = vec![ms(10, 30), ms(20, 70)];
    assert!(validate_unlock_milestones(&schedule).is_ok());
}

#[test]
fn validate_accepts_empty_schedule() {
    let schedule: Vec<UnlockMilestone> = vec![];
    assert!(validate_unlock_milestones(&schedule).is_ok());
}

#[test]
fn validate_rejects_unordered_epochs() {
    let schedule = vec![ms(20, 30), ms(10, 70)];
    assert_eq!(
        validate_unlock_milestones(&schedule),
        Err(ContractError::InvalidScheduleError)
    );
}

#[test]
fn validate_rejects_zero_first_epoch() {
    let schedule = vec![ms(0, 100)];
    assert_eq!(
        validate_unlock_milestones(&schedule),
        Err(ContractError::InvalidScheduleError)
    );
}

#[test]
fn validate_rejects_percent_above_hundred() {
    let schedule = vec![ms(10, 101)];
    assert_eq!(
        validate_unlock_milestones(&schedule),
        Err(ContractError::InvalidScheduleError)
    );
}

#[test]
fn validate_rejects_wrong_sum() {
    let schedule = vec![ms(10, 30), ms(20, 60)];
    assert_eq!(
        validate_unlock_milestones(&schedule),
        Err(ContractError::InvalidScheduleError)
    );
}

#[test]
fn validate_rejects_overflowing_sum() {
    // partial sums above one hundred are rejected early, whatever follows
    let schedule = vec![ms(10, 100), ms(20, 100), ms(30, 100)];
    assert_eq!(
        validate_unlock_milestones(&schedule),
        Err(ContractError::InvalidScheduleError)
    );
}

#[test]
fn unlock_percent_and_amount_at_fifteen() {
    // the worked example: [(10, 30%), (20, 70%)], amount 1000, now 15
    let schedule = vec![ms(10, 30), ms(20, 70)];
    assert_eq!(get_unlock_percent(15, &schedule), 30);
    assert_eq!(get_unlock_amount(1000, 15, &schedule), 300);
    let residual = create_new_unlock_milestones(15, &schedule);
    assert_eq!(residual.len(), 1);
    assert_eq!(residual[0], ms(20, 100));
}

#[test]
fn unlock_amount_never_exceeds_amount() {
    let schedule = vec![ms(10, 30), ms(20, 70)];
    for now in [0u64, 5, 10, 11, 15, 20, 21, 100] {
        for amount in [0u64, 1, 7, 999, 1000, u64::MAX] {
            assert!(get_unlock_amount(amount, now, &schedule) <= amount);
        }
    }
}

#[test]
fn unlock_amount_truncates() {
    let schedule = vec![ms(10, 33), ms(20, 67)];
    // 10 * 33 / 100 = 3.3 truncated to 3
    assert_eq!(get_unlock_amount(10, 15, &schedule), 3);
}

#[test]
fn residual_before_first_milestone_is_unchanged() {
    let schedule = vec![ms(10, 30), ms(20, 70)];
    let residual = create_new_unlock_milestones(5, &schedule);
    assert_eq!(residual, schedule);
}

#[test]
fn residual_after_everything_matured_is_empty() {
    let schedule = vec![ms(10, 30), ms(20, 70)];
    let residual = create_new_unlock_milestones(21, &schedule);
    assert!(residual.is_empty());
}

#[test]
fn residual_rescaling_adds_shortfall_to_first() {
    // after 33% matured, 33% and 34% remain: rescaled to 49 and 50, with the
    // shortfall of 1 added to the first
    let schedule = vec![ms(10, 33), ms(20, 33), ms(30, 34)];
    let residual = create_new_unlock_milestones(15, &schedule);
    assert_eq!(residual, vec![ms(20, 50), ms(30, 50)]);
    let sum: u32 = residual.iter().map(|m| m.unlock_percent as u32).sum();
    assert_eq!(sum, 100);
}

#[test]
fn residual_is_idempotent_at_same_epoch() {
    let schedule = vec![ms(10, 30), ms(20, 45), ms(40, 25)];
    let once = create_new_unlock_milestones(25, &schedule);
    let twice = create_new_unlock_milestones(25, &once);
    assert_eq!(once, twice);
}

#[test]
fn incremental_unlock_returns_everything() {
    // unlock epoch by epoch; the truncated remainders stay locked until the
    // last step takes out the rest, so the total is exact
    let schedule = vec![ms(10, 33), ms(20, 33), ms(30, 34)];
    let amount: u64 = 1003;
    let mut remaining = amount;
    let mut current = schedule.clone();
    let mut total: u64 = 0;
    for now in [15u64, 25, 31] {
        let unlocked = get_unlock_amount(remaining, now, &current);
        total += unlocked;
        remaining -= unlocked;
        current = create_new_unlock_milestones(now, &current);
        if current.is_empty() {
            break;
        }
    }
    assert_eq!(total, amount);
    assert_eq!(remaining, 0);
    assert!(current.is_empty());
}

#[test]
fn incremental_unlock_single_late_claim() {
    let schedule = vec![ms(10, 30), ms(20, 70)];
    assert_eq!(get_unlock_amount(12345, 21, &schedule), 12345);
}
