use distrib::errors::ContractError;
use distrib::factory::{CreateAndForwardOutcome, LockedAssetFactory};
use distrib::rewards_lock::{DexRewardsLock, LockRewardOption, LockedRewardsImpl};
use distrib::schedule::{LockedTokenAttributes, UnlockMilestone};

const OWNER: u64 = 1;
const USER: u64 = 42;
const CONTRACT: u64 = 500;
const MEX: u64 = 7;
const LOCKED_MEX: u64 = 8;

fn ms(epoch: u64, percent: u8) -> UnlockMilestone {
    UnlockMilestone { unlock_epoch: epoch, unlock_percent: percent }
}

fn factory() -> LockedAssetFactory {
    let mut f = LockedAssetFactory::new(OWNER, MEX, vec![ms(10, 30), ms(20, 70)]).unwrap();
    assert!(!f.issue_nft_callback(Some(LOCKED_MEX)));
    assert!(f.whitelist_contract(OWNER, CONTRACT).is_ok());
    f
}

#[test]
fn factory_validates_its_default_period() {
    assert_eq!(
        LockedAssetFactory::new(OWNER, MEX, vec![]).unwrap_err(),
        ContractError::ValidationError
    );
    assert_eq!(
        LockedAssetFactory::new(OWNER, MEX, vec![ms(10, 50)]).unwrap_err(),
        ContractError::InvalidScheduleError
    );
}

#[test]
fn create_and_forward_anchors_the_default_period() {
    let mut f = factory();
    let o = f.create_and_forward(CONTRACT, USER, 1000, 100).unwrap();
    match o {
        CreateAndForwardOutcome::CreateNew { create, transfer } => {
            assert_eq!(create.token_id, LOCKED_MEX);
            assert_eq!(create.token_nonce, 1);
            assert_eq!(create.amount, 1000);
            assert_eq!(create.unlock_milestones, vec![ms(110, 30), ms(120, 70)]);
            assert_eq!(transfer.to, USER);
            assert_eq!(transfer.amount, 1000);
        },
        CreateAndForwardOutcome::AddQuantity { .. } => panic!("expected a new position"),
    }
}

#[test]
fn create_and_forward_reuses_cached_attributes() {
    let mut f = factory();
    let first = f.create_and_forward(CONTRACT, USER, 1000, 100).unwrap();
    assert!(matches!(first, CreateAndForwardOutcome::CreateNew { .. }));
    // the same epoch produces the same schedule, so the position is reused
    let second = f.create_and_forward(CONTRACT, USER, 500, 100).unwrap();
    match second {
        CreateAndForwardOutcome::AddQuantity { token_id, token_nonce, amount, transfer } => {
            assert_eq!(token_id, LOCKED_MEX);
            assert_eq!(token_nonce, 1);
            assert_eq!(amount, 500);
            assert_eq!(transfer.to, USER);
        },
        CreateAndForwardOutcome::CreateNew { .. } => panic!("expected a cache hit"),
    }
    // a different epoch shifts the schedule and misses the cache
    let third = f.create_and_forward(CONTRACT, USER, 500, 101).unwrap();
    match third {
        CreateAndForwardOutcome::CreateNew { create, .. } => {
            assert_eq!(create.token_nonce, 2);
        },
        CreateAndForwardOutcome::AddQuantity { .. } => panic!("expected a new position"),
    }
}

#[test]
fn create_and_forward_checks_permissions() {
    let mut f = factory();
    assert_eq!(
        f.create_and_forward(USER, USER, 1000, 100).unwrap_err(),
        ContractError::PermissionError
    );
    assert_eq!(
        f.create_and_forward(CONTRACT, USER, 0, 100).unwrap_err(),
        ContractError::ZeroAmountError
    );
    let mut unissued = LockedAssetFactory::new(OWNER, MEX, vec![ms(10, 100)]).unwrap();
    assert!(unissued.whitelist_contract(OWNER, CONTRACT).is_ok());
    assert_eq!(
        unissued.create_and_forward(CONTRACT, USER, 10, 100).unwrap_err(),
        ContractError::StateError
    );
}

#[test]
fn custom_schedule_must_be_non_empty_and_well_formed() {
    let mut f = factory();
    assert_eq!(
        f.create_and_forward_custom_schedule(CONTRACT, USER, 10, vec![]).unwrap_err(),
        ContractError::ValidationError
    );
    // percentages summing to fifty are rejected: every position the factory
    // creates carries a well-formed schedule
    assert_eq!(
        f.create_and_forward_custom_schedule(CONTRACT, USER, 10, vec![ms(55, 50)]).unwrap_err(),
        ContractError::InvalidScheduleError
    );
    let o = f
        .create_and_forward_custom_schedule(CONTRACT, USER, 10, vec![ms(55, 100)])
        .unwrap();
    assert!(matches!(o, CreateAndForwardOutcome::CreateNew { .. }));
}

#[test]
fn factory_set_local_roles_checks_inputs() {
    let f = factory();
    assert_eq!(f.set_local_roles(USER, LOCKED_MEX, 2), Err(ContractError::PermissionError));
    assert_eq!(f.set_local_roles(OWNER, MEX, 2), Err(ContractError::ValidationError));
    assert_eq!(f.set_local_roles(OWNER, LOCKED_MEX, 0), Err(ContractError::ValidationError));
    assert!(f.set_local_roles(OWNER, LOCKED_MEX, 2).is_ok());
}

#[test]
fn locked_rewards_positions_can_be_unlocked() {
    let mut c = LockedRewardsImpl::new(OWNER, MEX, vec![(10, 5), (30, 20)]).unwrap();
    assert!(!c.issue_nft_callback(Some(LOCKED_MEX)));
    assert_eq!(c.locked_asset_token_id(), Some(LOCKED_MEX));
    let o = c.lock_mex_tokens(USER, 100, MEX, 1000, 45).unwrap();
    assert_eq!(o.nft_amount, 1200);
    // past the single milestone the whole position unlocks
    let attrs = distrib::schedule::LockedTokenAttributes {
        unlock_milestones: o.create.unlock_milestones.clone(),
    };
    let u = c.unlock_assets(USER, LOCKED_MEX, o.create.token_nonce, 1200, &attrs, 146).unwrap();
    assert_eq!(u.unlocked_amount, 1200);
    assert_eq!(u.remaining_amount, 0);
    assert_eq!(u.asset_mint.0.token_id, MEX);
    // too early: nothing has matured
    assert_eq!(
        c.unlock_assets(USER, LOCKED_MEX, o.create.token_nonce, 1200, &attrs, 100).unwrap_err(),
        ContractError::StateError
    );
}

#[test]
fn dex_rewards_positions_can_be_unlocked() {
    let mut c = DexRewardsLock::new(OWNER, MEX, vec![(10, 5), (30, 20)]).unwrap();
    assert!(!c.issue_nft_callback(Some(LOCKED_MEX)));
    assert_eq!(c.locked_asset_token_id(), Some(LOCKED_MEX));
    let o = c.lock_mex_tokens(USER, 100, MEX, 1000, 45).unwrap();
    let attrs = distrib::schedule::LockedTokenAttributes {
        unlock_milestones: o.create.unlock_milestones.clone(),
    };
    let u = c.unlock_assets(USER, LOCKED_MEX, o.create.token_nonce, 1200, &attrs, 131).unwrap();
    assert_eq!(u.unlocked_amount, 1200);
    assert_eq!(u.remaining_amount, 0);
}

#[test]
fn locked_rewards_set_local_roles_checks_inputs() {
    let mut c = LockedRewardsImpl::new(OWNER, MEX, vec![(10, 5)]).unwrap();
    assert_eq!(c.set_local_roles(OWNER, LOCKED_MEX, 2), Err(ContractError::ValidationError));
    assert!(!c.issue_nft_callback(Some(LOCKED_MEX)));
    assert_eq!(c.set_local_roles(USER, LOCKED_MEX, 2), Err(ContractError::PermissionError));
    assert_eq!(c.set_local_roles(OWNER, LOCKED_MEX, 0), Err(ContractError::ValidationError));
    assert!(c.set_local_roles(OWNER, LOCKED_MEX, 2).is_ok());
}

#[test]
fn factory_unlock_splits_the_position() {
    let mut f = factory();
    let attrs = LockedTokenAttributes { unlock_milestones: vec![ms(10, 30), ms(20, 70)] };
    let o = f.unlock_assets(USER, LOCKED_MEX, 3, 1000, &attrs, 15).unwrap();
    assert_eq!(o.unlocked_amount, 300);
    assert_eq!(o.remaining_amount, 700);
    assert_eq!(o.new_unlock_milestones, vec![ms(20, 100)]);
    assert_eq!(o.asset_mint.0.token_id, MEX);
    assert_eq!(o.asset_mint.0.amount, 300);
    assert_eq!(o.asset_mint.1.to, USER);
    let (residual, transfer) = o.residual_create.unwrap();
    assert_eq!(residual.amount, 700);
    assert_eq!(residual.unlock_milestones, vec![ms(20, 100)]);
    assert_eq!(transfer.to, USER);
    assert_eq!(o.payment_burn.token_id, LOCKED_MEX);
    assert_eq!(o.payment_burn.token_nonce, 3);
    assert_eq!(o.payment_burn.amount, 1000);
}

#[test]
fn factory_unlock_rejects_wrong_token_and_early_calls() {
    let mut f = factory();
    let attrs = LockedTokenAttributes { unlock_milestones: vec![ms(10, 30), ms(20, 70)] };
    assert_eq!(
        f.unlock_assets(USER, MEX, 3, 1000, &attrs, 15).unwrap_err(),
        ContractError::ValidationError
    );
    // nothing matured yet
    assert_eq!(
        f.unlock_assets(USER, LOCKED_MEX, 3, 1000, &attrs, 5).unwrap_err(),
        ContractError::StateError
    );
}

#[test]
fn factory_unlock_consumes_everything_at_the_end() {
    let mut f = factory();
    let attrs = LockedTokenAttributes { unlock_milestones: vec![ms(10, 30), ms(20, 70)] };
    let o = f.unlock_assets(USER, LOCKED_MEX, 3, 1000, &attrs, 21).unwrap();
    assert_eq!(o.unlocked_amount, 1000);
    assert_eq!(o.remaining_amount, 0);
    assert!(o.new_unlock_milestones.is_empty());
    assert!(o.residual_create.is_none());
}

#[test]
fn dex_rewards_lock_validates_its_table() {
    assert_eq!(
        DexRewardsLock::new(OWNER, MEX, vec![]).unwrap_err(),
        ContractError::ValidationError
    );
    assert_eq!(
        DexRewardsLock::new(OWNER, MEX, vec![(0, 10)]).unwrap_err(),
        ContractError::ValidationError
    );
    assert_eq!(
        DexRewardsLock::new(OWNER, MEX, vec![(10, 0)]).unwrap_err(),
        ContractError::ValidationError
    );
    assert!(DexRewardsLock::new(OWNER, MEX, vec![(10, 5), (30, 20)]).is_ok());
}

#[test]
fn dex_rewards_lock_finds_the_best_epoch() {
    let c = DexRewardsLock::new(OWNER, MEX, vec![(10, 5), (30, 20), (90, 80)]).unwrap();
    assert_eq!(c.find_latest_reward_epoch(5), 0);
    assert_eq!(c.find_latest_reward_epoch(10), 10);
    assert_eq!(c.find_latest_reward_epoch(45), 30);
    assert_eq!(c.find_latest_reward_epoch(1000), 90);
    assert_eq!(c.get_reward_percentage_for_epochs_waited(30), 20);
    assert_eq!(c.get_reward_percentage_for_epochs_waited(31), 0);
}

#[test]
fn dex_rewards_lock_computes_interest() {
    let c = DexRewardsLock::new(OWNER, MEX, vec![(10, 5), (30, 20)]).unwrap();
    // waiting 45 epochs matches the 30-epoch reward of 20%
    assert_eq!(c.calculate_interest_endpoint(1000, 45), 200);
    // 999 * 5 / 100 = 49.95 truncated to 49
    assert_eq!(c.calculate_interest_endpoint(999, 10), 49);
    // below every reward epoch there is no interest
    assert_eq!(c.calculate_interest_endpoint(1000, 5), 0);
}

#[test]
fn dex_rewards_lock_locks_with_interest() {
    let mut c = DexRewardsLock::new(OWNER, MEX, vec![(10, 5), (30, 20)]).unwrap();
    assert!(!c.issue_nft_callback(Some(LOCKED_MEX)));
    let o = c.lock_mex_tokens(USER, 100, MEX, 1000, 45).unwrap();
    assert_eq!(o.latest_reward_epoch, 30);
    assert_eq!(o.interest, 200);
    assert_eq!(o.nft_amount, 1200);
    assert_eq!(o.create.token_id, LOCKED_MEX);
    assert_eq!(o.create.amount, 1200);
    // unlocks in full at the matched reward epoch after now
    assert_eq!(o.create.unlock_milestones, vec![ms(130, 100)]);
    assert_eq!(o.mex_burn.token_id, MEX);
    assert_eq!(o.mex_burn.amount, 1000);
}

#[test]
fn dex_rewards_lock_rejects_bad_locks() {
    let mut c = DexRewardsLock::new(OWNER, MEX, vec![(10, 5)]).unwrap();
    assert_eq!(
        c.lock_mex_tokens(USER, 100, MEX, 1000, 45).unwrap_err(),
        ContractError::StateError
    );
    assert!(!c.issue_nft_callback(Some(LOCKED_MEX)));
    assert_eq!(
        c.lock_mex_tokens(USER, 100, LOCKED_MEX, 1000, 45).unwrap_err(),
        ContractError::ValidationError
    );
    assert_eq!(
        c.lock_mex_tokens(USER, 100, MEX, 0, 45).unwrap_err(),
        ContractError::ZeroAmountError
    );
    // a lock time below every reward epoch matches nothing
    assert_eq!(
        c.lock_mex_tokens(USER, 100, MEX, 1000, 5).unwrap_err(),
        ContractError::ValidationError
    );
}

#[test]
fn dex_rewards_table_is_guarded() {
    let mut c = DexRewardsLock::new(OWNER, MEX, vec![(10, 5)]).unwrap();
    assert_eq!(c.add_epoch_reward(USER, 20, 9), Err(ContractError::PermissionError));
    assert_eq!(c.add_epoch_reward(OWNER, 10, 9), Err(ContractError::DuplicateEntryError));
    assert_eq!(c.add_epoch_reward(OWNER, 0, 9), Err(ContractError::ValidationError));
    assert_eq!(c.add_epoch_reward(OWNER, 20, 0), Err(ContractError::ValidationError));
    assert!(c.add_epoch_reward(OWNER, 20, 9).is_ok());
    assert!(c.remove_epoch_reward(OWNER, 10).is_ok());
    // the last row cannot be removed
    assert_eq!(c.remove_epoch_reward(OWNER, 20), Err(ContractError::StateError));
    assert_eq!(c.remove_epoch_reward(OWNER, 99), Err(ContractError::StateError));
}

#[test]
fn locked_rewards_matches_strictly_below() {
    let c = LockedRewardsImpl::new(OWNER, MEX, vec![(10, 5), (30, 20)]).unwrap();
    // a wait of exactly 30 does not match the 30-epoch reward
    assert_eq!(c.find_latest_reward_epoch(30), 10);
    assert_eq!(c.find_latest_reward_epoch(31), 30);
    assert_eq!(c.get_interest_for_epochs_waited(30), 20);
    assert_eq!(c.calculate_earnings(1000, 31), 200);
    assert_eq!(c.calculate_earnings(1000, 30), 50);
}

#[test]
fn locked_rewards_locks_at_the_requested_time() {
    let mut c = LockedRewardsImpl::new(OWNER, MEX, vec![(10, 5), (30, 20)]).unwrap();
    assert!(!c.issue_nft_callback(Some(LOCKED_MEX)));
    let o = c.lock_mex_tokens(USER, 100, MEX, 1000, 45).unwrap();
    assert_eq!(o.latest_reward_epoch, 30);
    assert_eq!(o.interest, 200);
    assert_eq!(o.nft_amount, 1200);
    // unlocks in full after the requested lock time, not the reward epoch
    assert_eq!(o.create.unlock_milestones, vec![ms(145, 100)]);
}

#[test]
fn locked_rewards_needs_a_matching_row() {
    let mut c = LockedRewardsImpl::new(OWNER, MEX, vec![(10, 5)]).unwrap();
    assert!(!c.issue_nft_callback(Some(LOCKED_MEX)));
    // nothing lies strictly below a wait of 10
    assert_eq!(
        c.lock_mex_tokens(USER, 100, MEX, 1000, 10).unwrap_err(),
        ContractError::StateError
    );
}

#[test]
fn locked_rewards_reports_its_table() {
    let mut c = LockedRewardsImpl::new(OWNER, MEX, vec![(10, 5), (30, 20)]).unwrap();
    assert!(c.add_epoch_reward(OWNER, 90, 80).is_ok());
    assert_eq!(c.add_epoch_reward(OWNER, 90, 80), Err(ContractError::DuplicateEntryError));
    assert!(c.remove_epoch_reward(OWNER, 10).is_ok());
    let options = c.get_all_lock_reward_options();
    assert_eq!(options.len(), 2);
    assert!(options.contains(&LockRewardOption { num_epochs_to_lock: 30, interest: 20 }));
    assert!(options.contains(&LockRewardOption { num_epochs_to_lock: 90, interest: 80 }));
}

#[test]
fn whitelist_can_be_revoked() {
    let mut f = factory();
    assert!(f.remove_whitelist(OWNER, CONTRACT).is_ok());
    assert_eq!(
        f.create_and_forward(CONTRACT, USER, 10, 100).unwrap_err(),
        ContractError::PermissionError
    );
    assert_eq!(f.remove_whitelist(USER, CONTRACT), Err(ContractError::PermissionError));
}

#[test]
fn factory_issue_nft_checks_state() {
    let f = factory();
    assert_eq!(f.issue_nft(OWNER), Err(ContractError::StateError));
    let fresh = LockedAssetFactory::new(OWNER, MEX, vec![ms(10, 100)]).unwrap();
    assert!(fresh.issue_nft(OWNER).is_ok());
    assert_eq!(fresh.issue_nft(USER), Err(ContractError::PermissionError));
}
