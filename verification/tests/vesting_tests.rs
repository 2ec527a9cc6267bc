use distrib::errors::ContractError;
use distrib::schedule::UnlockMilestone;
use distrib::vesting::EsdtDistribution;

const OWNER: u64 = 1;
const USER: u64 = 42;
const OTHER_USER: u64 = 43;
const MEX: u64 = 7;

fn ms(epoch: u64, percent: u8) -> UnlockMilestone {
    UnlockMilestone { unlock_epoch: epoch, unlock_percent: percent }
}

#[test]
fn distribution_rounds_must_be_chronological() {
    // the worked example: spread epochs 100 then 90
    let mut d = EsdtDistribution::new(OWNER, MEX);
    assert!(d.start_planning(OWNER).is_ok());
    assert!(d.set_community_distrib(OWNER, 0, 1000, 100, vec![]).is_ok());
    assert_eq!(
        d.set_community_distrib(OWNER, 0, 1000, 90, vec![]),
        Err(ContractError::ChronologyError)
    );
}

#[test]
fn first_distribution_round_must_spread_after_epoch_zero() {
    // a fresh ledger counts as a round at epoch zero
    let mut d = EsdtDistribution::new(OWNER, MEX);
    assert!(d.start_planning(OWNER).is_ok());
    assert_eq!(
        d.set_community_distrib(OWNER, 0, 1000, 0, vec![]),
        Err(ContractError::ChronologyError)
    );
    assert!(d.set_community_distrib(OWNER, 0, 1000, 1, vec![]).is_ok());
}

#[test]
fn distribution_round_cannot_lie_in_the_past() {
    let mut d = EsdtDistribution::new(OWNER, MEX);
    assert!(d.start_planning(OWNER).is_ok());
    assert_eq!(
        d.set_community_distrib(OWNER, 50, 1000, 40, vec![]),
        Err(ContractError::ChronologyError)
    );
}

#[test]
fn distribution_requires_owner_and_planning() {
    let mut d = EsdtDistribution::new(OWNER, MEX);
    assert_eq!(
        d.set_community_distrib(USER, 0, 1000, 10, vec![]),
        Err(ContractError::PermissionError)
    );
    assert_eq!(
        d.set_community_distrib(OWNER, 0, 1000, 10, vec![]),
        Err(ContractError::StateError)
    );
}

#[test]
fn distribution_validates_the_schedule() {
    let mut d = EsdtDistribution::new(OWNER, MEX);
    assert!(d.start_planning(OWNER).is_ok());
    assert_eq!(
        d.set_community_distrib(OWNER, 0, 1000, 10, vec![ms(5, 50)]),
        Err(ContractError::InvalidScheduleError)
    );
}

#[test]
fn over_allocation_is_rejected_and_atomic() {
    // the worked example: a per-user amount above after_planning_amount
    let mut d = EsdtDistribution::new(OWNER, MEX);
    assert!(d.start_planning(OWNER).is_ok());
    assert!(d.set_community_distrib(OWNER, 0, 100, 10, vec![]).is_ok());
    assert_eq!(
        d.set_per_user_distributed_assets(OWNER, 10, &vec![(USER, 150)]),
        Err(ContractError::OverAllocationError)
    );
    // after_planning_amount is untouched: allocating the full total still works
    assert!(d.set_per_user_distributed_assets(OWNER, 10, &vec![(USER, 100)]).is_ok());
}

#[test]
fn over_allocation_mid_batch_leaves_everything_unchanged() {
    let mut d = EsdtDistribution::new(OWNER, MEX);
    assert!(d.start_planning(OWNER).is_ok());
    assert!(d.set_community_distrib(OWNER, 0, 100, 10, vec![]).is_ok());
    assert_eq!(
        d.set_per_user_distributed_assets(OWNER, 10, &vec![(USER, 60), (OTHER_USER, 60)]),
        Err(ContractError::OverAllocationError)
    );
    // neither the first pair's entry nor the subtraction survived
    assert!(d
        .set_per_user_distributed_assets(OWNER, 10, &vec![(USER, 60), (OTHER_USER, 40)])
        .is_ok());
}

#[test]
fn duplicate_allocation_is_rejected() {
    let mut d = EsdtDistribution::new(OWNER, MEX);
    assert!(d.start_planning(OWNER).is_ok());
    assert!(d.set_community_distrib(OWNER, 0, 100, 10, vec![]).is_ok());
    assert!(d.set_per_user_distributed_assets(OWNER, 10, &vec![(USER, 10)]).is_ok());
    assert_eq!(
        d.set_per_user_distributed_assets(OWNER, 10, &vec![(USER, 10)]),
        Err(ContractError::DuplicateEntryError)
    );
    // a duplicate within one batch is also rejected
    assert_eq!(
        d.set_per_user_distributed_assets(OWNER, 10, &vec![(OTHER_USER, 5), (OTHER_USER, 5)]),
        Err(ContractError::DuplicateEntryError)
    );
}

#[test]
fn allocation_checks_the_front_round() {
    let mut d = EsdtDistribution::new(OWNER, MEX);
    assert!(d.start_planning(OWNER).is_ok());
    assert!(d.set_community_distrib(OWNER, 0, 100, 10, vec![]).is_ok());
    assert!(d.set_community_distrib(OWNER, 0, 100, 20, vec![]).is_ok());
    assert_eq!(
        d.set_per_user_distributed_assets(OWNER, 10, &vec![(USER, 10)]),
        Err(ContractError::ValidationError)
    );
}

#[test]
fn locked_allocation_needs_a_schedule() {
    let mut d = EsdtDistribution::new(OWNER, MEX);
    assert!(d.start_planning(OWNER).is_ok());
    assert!(d.set_community_distrib(OWNER, 0, 100, 10, vec![]).is_ok());
    assert_eq!(
        d.set_per_user_distributed_locked_assets(OWNER, 10, &vec![(USER, 10)]),
        Err(ContractError::StateError)
    );
}

#[test]
fn claim_pays_the_allocated_amounts() {
    let mut d = EsdtDistribution::new(OWNER, MEX);
    assert!(d.start_planning(OWNER).is_ok());
    assert!(d.set_community_distrib(OWNER, 0, 100, 10, vec![]).is_ok());
    assert!(d.set_per_user_distributed_assets(OWNER, 10, &vec![(USER, 30)]).is_ok());
    assert!(d.set_community_distrib(OWNER, 0, 100, 20, vec![]).is_ok());
    assert!(d.set_per_user_distributed_assets(OWNER, 20, &vec![(USER, 50)]).is_ok());
    assert!(d.end_planning(OWNER).is_ok());
    let (total, mints) = d.claim_assets(USER, 25).unwrap();
    assert_eq!(total, 80);
    // one mint-and-transfer pair per claimed round, newest first
    assert_eq!(mints.len(), 2);
    assert_eq!(mints[0].0.token_id, MEX);
    assert_eq!(mints[0].0.amount, 50);
    assert_eq!(mints[0].1.amount, 50);
    assert_eq!(mints[0].1.to, USER);
    assert_eq!(mints[1].0.amount, 30);
    // entries were deleted: a second claim pays nothing
    let (total_again, mints_again) = d.claim_assets(USER, 25).unwrap();
    assert_eq!(total_again, 0);
    assert!(mints_again.is_empty());
}

#[test]
fn claim_skips_rounds_that_have_not_spread_yet() {
    let mut d = EsdtDistribution::new(OWNER, MEX);
    assert!(d.start_planning(OWNER).is_ok());
    assert!(d.set_community_distrib(OWNER, 0, 100, 10, vec![]).is_ok());
    assert!(d.set_per_user_distributed_assets(OWNER, 10, &vec![(USER, 30)]).is_ok());
    assert!(d.set_community_distrib(OWNER, 0, 100, 20, vec![]).is_ok());
    assert!(d.set_per_user_distributed_assets(OWNER, 20, &vec![(USER, 50)]).is_ok());
    assert!(d.end_planning(OWNER).is_ok());
    // at epoch 15 only the round spreading at 10 is claimable
    assert_eq!(d.claim_assets(USER, 15).unwrap().0, 30);
}

#[test]
fn claim_requires_planning_to_be_over() {
    let mut d = EsdtDistribution::new(OWNER, MEX);
    assert!(d.start_planning(OWNER).is_ok());
    assert!(d.set_community_distrib(OWNER, 0, 100, 10, vec![]).is_ok());
    assert_eq!(d.claim_assets(USER, 15), Err(ContractError::StateError));
}

#[test]
fn rounds_beyond_the_window_are_not_claimable() {
    // five rounds; the oldest drops out of the four-round claim window even
    // though its entry still exists
    let mut d = EsdtDistribution::new(OWNER, MEX);
    assert!(d.start_planning(OWNER).is_ok());
    for (epoch, amount) in [(10u64, 1u64), (20, 2), (30, 4), (40, 8), (50, 16)] {
        assert!(d.set_community_distrib(OWNER, 0, 100, epoch, vec![]).is_ok());
        assert!(d.set_per_user_distributed_assets(OWNER, epoch, &vec![(USER, amount)]).is_ok());
    }
    assert!(d.end_planning(OWNER).is_ok());
    // only the four most recent rounds (20..50) are scanned
    assert_eq!(d.claim_assets(USER, 60).unwrap().0, 2 + 4 + 8 + 16);
    // the aged-out entry is still there, but remains unclaimable
    assert_eq!(d.claim_assets(USER, 60).unwrap().0, 0);
}

#[test]
fn purge_removes_aged_out_entries() {
    let mut d = EsdtDistribution::new(OWNER, MEX);
    assert!(d.start_planning(OWNER).is_ok());
    for (epoch, amount) in [(10u64, 1u64), (20, 2), (30, 4), (40, 8), (50, 16)] {
        assert!(d.set_community_distrib(OWNER, 0, 100, epoch, vec![]).is_ok());
        assert!(d.set_per_user_distributed_assets(OWNER, epoch, &vec![(USER, amount)]).is_ok());
    }
    // the round at epoch 10 has aged out; exactly its entry is purged
    assert_eq!(d.clear_unclaimable_assets(OWNER, 1000), Ok(1));
    // purging again finds nothing more
    assert_eq!(d.clear_unclaimable_assets(OWNER, 1000), Ok(0));
}

#[test]
fn purge_respects_the_scan_budget() {
    let mut d = EsdtDistribution::new(OWNER, MEX);
    assert!(d.start_planning(OWNER).is_ok());
    assert!(d.set_community_distrib(OWNER, 0, 100, 10, vec![]).is_ok());
    assert!(d
        .set_per_user_distributed_assets(OWNER, 10, &vec![(USER, 1), (OTHER_USER, 2), (77, 3)])
        .is_ok());
    // a budget of two examines only the first two entries
    assert_eq!(d.undo_user_assets_between_epochs(OWNER, 0, 10, 2), Ok(2));
    assert_eq!(d.undo_user_assets_between_epochs(OWNER, 0, 10, 100), Ok(1));
}

#[test]
fn undo_between_epochs_checks_inputs() {
    let mut d = EsdtDistribution::new(OWNER, MEX);
    assert!(d.start_planning(OWNER).is_ok());
    assert!(d.set_community_distrib(OWNER, 0, 100, 10, vec![]).is_ok());
    assert_eq!(
        d.undo_user_assets_between_epochs(OWNER, 9, 5, 100),
        Err(ContractError::ValidationError)
    );
    assert_eq!(
        d.undo_user_assets_between_epochs(USER, 0, 5, 100),
        Err(ContractError::PermissionError)
    );
}

#[test]
fn undo_last_round_pops_the_front() {
    let mut d = EsdtDistribution::new(OWNER, MEX);
    assert!(d.start_planning(OWNER).is_ok());
    assert!(d.set_community_distrib(OWNER, 0, 100, 10, vec![]).is_ok());
    assert!(d.set_community_distrib(OWNER, 0, 200, 20, vec![]).is_ok());
    assert_eq!(d.get_last_community_distrib_amount_and_epoch(), (200, 20));
    assert!(d.undo_last_community_distrib(OWNER).is_ok());
    assert_eq!(d.get_last_community_distrib_amount_and_epoch(), (100, 10));
}

#[test]
fn claim_locked_assets_creates_positions() {
    let mut d = EsdtDistribution::new(OWNER, MEX);
    assert!(!d.issue_nft_callback(Some(99)));
    assert!(d.start_planning(OWNER).is_ok());
    let schedule = vec![ms(30, 40), ms(60, 60)];
    assert!(d.set_community_distrib(OWNER, 0, 100, 10, schedule.clone()).is_ok());
    assert!(d.set_per_user_distributed_locked_assets(OWNER, 10, &vec![(USER, 25)]).is_ok());
    assert!(d.end_planning(OWNER).is_ok());
    let (cumulated, created) = d.claim_locked_assets(USER, 15).unwrap();
    assert_eq!(cumulated, 25);
    assert_eq!(created.len(), 1);
    assert_eq!(created[0].0.token_id, 99);
    assert_eq!(created[0].0.token_nonce, 1);
    assert_eq!(created[0].0.amount, 25);
    assert_eq!(created[0].0.unlock_milestones, schedule);
    assert_eq!(created[0].1.amount, 25);
    assert_eq!(created[0].1.to, USER);
}

#[test]
fn views_report_without_deleting() {
    let mut d = EsdtDistribution::new(OWNER, MEX);
    assert!(d.start_planning(OWNER).is_ok());
    assert!(d.set_community_distrib(OWNER, 0, 100, 10, vec![]).is_ok());
    assert!(d.set_per_user_distributed_assets(OWNER, 10, &vec![(USER, 30)]).is_ok());
    assert!(d.end_planning(OWNER).is_ok());
    assert_eq!(d.calculate_assets_view(USER, 15), Ok(30));
    assert_eq!(d.calculate_assets_view(USER, 15), Ok(30));
    assert_eq!(d.claim_assets(USER, 15).unwrap().0, 30);
}

#[test]
fn issue_nft_checks_owner_and_state() {
    let mut d = EsdtDistribution::new(OWNER, MEX);
    assert_eq!(d.issue_nft(USER), Err(ContractError::PermissionError));
    assert!(d.issue_nft(OWNER).is_ok());
    assert!(!d.issue_nft_callback(Some(99)));
    assert_eq!(d.issue_nft(OWNER), Err(ContractError::StateError));
}

#[test]
fn set_local_roles_checks_inputs() {
    let mut d = EsdtDistribution::new(OWNER, MEX);
    assert!(!d.issue_nft_callback(Some(99)));
    assert_eq!(d.set_local_roles(USER, 99, 2), Err(ContractError::PermissionError));
    assert_eq!(d.set_local_roles(OWNER, 98, 2), Err(ContractError::ValidationError));
    assert_eq!(d.set_local_roles(OWNER, 99, 0), Err(ContractError::ValidationError));
    assert!(d.set_local_roles(OWNER, 99, 2).is_ok());
}

#[test]
fn failed_issuance_refunds() {
    let mut d = EsdtDistribution::new(OWNER, MEX);
    assert!(d.issue_nft_callback(None));
}

#[test]
fn distribution_unlock_splits_a_position() {
    let mut d = EsdtDistribution::new(OWNER, MEX);
    assert!(!d.issue_nft_callback(Some(99)));
    let attrs = distrib::schedule::LockedTokenAttributes {
        unlock_milestones: vec![ms(10, 30), ms(20, 70)],
    };
    let o = d.unlock_assets(USER, 99, 3, 1000, &attrs, 15).unwrap();
    assert_eq!(o.unlocked_amount, 300);
    assert_eq!(o.remaining_amount, 700);
    assert_eq!(o.new_unlock_milestones, vec![ms(20, 100)]);
    assert_eq!(
        d.unlock_assets(USER, 98, 3, 1000, &attrs, 15).unwrap_err(),
        ContractError::ValidationError
    );
}

#[test]
fn errors_carry_a_description() {
    assert_eq!(
        ContractError::ChronologyError.message(),
        "distribution out of chronological order"
    );
    assert_eq!(ContractError::ZeroAmountError.message(), "amount cannot be zero");
}

#[test]
fn empty_allocation_batch_is_rejected() {
    let mut d = EsdtDistribution::new(OWNER, MEX);
    assert!(d.start_planning(OWNER).is_ok());
    assert!(d.set_community_distrib(OWNER, 0, 100, 10, vec![]).is_ok());
    assert_eq!(
        d.set_per_user_distributed_assets(OWNER, 10, &vec![]),
        Err(ContractError::ValidationError)
    );
}
