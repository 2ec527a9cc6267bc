//! Reward-bearing token locking: users lock the asset token for a chosen
//! number of epochs and receive a locked position over the deposit plus an
//! interest that depends on how long they lock.
//!
//! Two variants exist side by side: [`DexRewardsLock`] validates its reward
//! table strictly and anchors the unlock at the matched reward epoch, while
//! [`LockedRewardsImpl`] accepts any table and anchors the unlock at the
//! requested lock time.

use vstd::prelude::*;

use crate::asset::{AssetModule, TokenBurn, TokenTransfer};
use crate::errors::ContractError;
use crate::kvmap::{
    keys_unique, lemma_map_view_contains, lemma_map_view_get, lemma_map_view_push,
    lemma_map_view_remove, lemma_map_view_update, map_view,
};
use crate::locked_asset::{LockedAssetModule, SftCreate};
use crate::schedule::UnlockMilestone;

verus! {

/// One row of the reward table, as reported to callers.
#[derive(Clone, Copy, Debug, PartialEq, Eq, Structural)]
pub struct LockRewardOption {
    pub num_epochs_to_lock: u64,
    pub interest: u64,
}

/// The best reward epoch for a wait of `waited` epochs: the largest key of
/// the table not above (`strict`: strictly below) the wait, zero when none
/// qualifies.
pub open spec fn latest_reward_epoch_spec(
    entries: Seq<(u64, u64)>,
    waited: u64,
    strict: bool,
) -> u64
    decreases entries.len(),
{
    if entries.len() == 0 {
        0
    } else {
        let rest = latest_reward_epoch_spec(entries.drop_last(), waited, strict);
        let k = entries.last().0;
        let qualifies = if strict {
            k < waited
        } else {
            k <= waited
        };
        if qualifies && k > rest {
            k
        } else {
            rest
        }
    }
}

/// The interest on `amount` at `percentage` percent, truncating.
pub open spec fn interest_amount(amount: u64, percentage: u64) -> int {
    amount as int * percentage as int / 100
}

/// A non-zero best reward epoch is a key of the table.
pub proof fn lemma_latest_is_key(entries: Seq<(u64, u64)>, waited: u64, strict: bool)
    ensures
        ({
            let r = latest_reward_epoch_spec(entries, waited, strict);
            r != 0 ==> (exists|i: int| 0 <= i < entries.len() && (#[trigger] entries[i]).0 == r)
                && (if strict {
                r < waited
            } else {
                r <= waited
            })
        }),
    decreases entries.len(),
{
    if entries.len() > 0 {
        lemma_latest_is_key(entries.drop_last(), waited, strict);
        let r = latest_reward_epoch_spec(entries, waited, strict);
        if r != 0 {
            if r == entries.last().0 && (if strict {
                r < waited
            } else {
                r <= waited
            }) {
                assert(entries[entries.len() - 1].0 == r);
            } else {
                let rp = latest_reward_epoch_spec(entries.drop_last(), waited, strict);
                if rp == r {
                    let i = choose|i: int|
                        0 <= i < entries.drop_last().len() && (#[trigger] entries.drop_last()[
                            i]).0 == r;
                    assert(entries[i].0 == r);
                }
            }
        }
    }
}

/// Looks an epoch up in the reward table.
fn find_reward(entries: &Vec<(u64, u64)>, epoch: u64) -> (r: Option<usize>)
    ensures
        r matches Some(i) ==> i < entries@.len() && entries@[i as int].0 == epoch,
        r.is_none() ==> forall|i: int| 0 <= i < entries@.len() ==> (#[trigger] entries@[i]).0
            != epoch,
{
    let n = entries.len();
    let mut i: usize = 0;
    while i < n
        invariant
            0 <= i <= n,
            n == entries@.len(),
            forall|j: int| 0 <= j < i ==> (#[trigger] entries@[j]).0 != epoch,
        decreases n - i,
    {
        if entries[i].0 == epoch {
            return Some(i);
        }
        i = i + 1;
    }
    None
}

/// Inserts or overwrites one reward row.
fn rewards_insert(entries: &mut Vec<(u64, u64)>, epoch: u64, percentage: u64)
    requires
        keys_unique(old(entries)@),
    ensures
        keys_unique(final(entries)@),
        map_view(final(entries)@) == map_view(old(entries)@).insert(epoch, percentage),
{
    match find_reward(entries, epoch) {
        Some(i) => {
            proof {
                lemma_map_view_update(entries@, i as int, percentage);
            }
            entries[i] = (epoch, percentage);
        },
        None => {
            proof {
                lemma_map_view_push(entries@, epoch, percentage);
            }
            entries.push((epoch, percentage));
            proof {
                assert(forall|j: int|
                    0 <= j < old(entries)@.len() ==> (#[trigger] entries@[j]) == old(entries)@[j]);
                assert(entries@[entries@.len() - 1] == (epoch, percentage));
            }
        },
    }
}

/// The reward table after inserting a batch of rows in order; later rows
/// overwrite earlier ones with the same epoch.
pub open spec fn rewards_after_inserts(m: Map<u64, u64>, pairs: Seq<(u64, u64)>) -> Map<u64, u64>
    decreases pairs.len(),
{
    if pairs.len() == 0 {
        m
    } else {
        rewards_after_inserts(m.insert(pairs[0].0, pairs[0].1), pairs.drop_first())
    }
}

/// The best reward epoch computed by a forward scan of the table.
fn find_latest_epoch(entries: &Vec<(u64, u64)>, epochs_waited: u64, strict: bool) -> (r: u64)
    ensures
        r == latest_reward_epoch_spec(entries@, epochs_waited, strict),
{
    let n = entries.len();
    let mut latest: u64 = 0;
    let mut i: usize = 0;
    proof {
        assert(entries@.take(0) =~= Seq::<(u64, u64)>::empty());
    }
    while i < n
        invariant
            0 <= i <= n,
            n == entries@.len(),
            latest == latest_reward_epoch_spec(entries@.take(i as int), epochs_waited, strict),
        decreases n - i,
    {
        proof {
            assert(entries@.take(i as int + 1).drop_last() =~= entries@.take(i as int));
            assert(entries@.take(i as int + 1).last() == entries@[i as int]);
        }
        let k = entries[i].0;
        let qualifies = if strict {
            k < epochs_waited
        } else {
            k <= epochs_waited
        };
        if qualifies && k > latest {
            latest = k;
        }
        i = i + 1;
    }
    proof {
        assert(entries@.take(n as int) =~= entries@);
    }
    latest
}

/// What locking tokens decides: the reward epoch matched, the interest, the
/// locked position created and the burn of the deposit.
#[derive(Debug)]
pub struct LockMexOutcome {
    pub latest_reward_epoch: u64,
    pub interest: u64,
    pub nft_amount: u64,
    pub create: SftCreate,
    pub transfer: TokenTransfer,
    pub mex_burn: TokenBurn,
}

/// The strict rewards-lock contract: reward rows must have positive epochs
/// and percentages, the last row cannot be removed, and the unlock is
/// anchored at the matched reward epoch.
#[derive(Debug)]
pub struct DexRewardsLock {
    owner: u64,
    asset: AssetModule,
    locked_asset: LockedAssetModule,
    epoch_rewards_entries: Vec<(u64, u64)>,
}

impl DexRewardsLock {
    pub closed spec fn spec_owner(self) -> u64 {
        self.owner
    }

    pub closed spec fn spec_asset_token_id(self) -> u64 {
        self.asset.token_id
    }

    pub closed spec fn spec_locked_token_id(self) -> Option<u64> {
        self.locked_asset.spec_token_id()
    }

    pub closed spec fn spec_locked_token_nonce(self) -> u64 {
        self.locked_asset.spec_token_nonce()
    }

    pub closed spec fn rewards(self) -> Seq<(u64, u64)> {
        self.epoch_rewards_entries@
    }

    /// The reward table as a map.
    pub open spec fn rewards_map(self) -> Map<u64, u64> {
        map_view(self.rewards())
    }

    pub closed spec fn wf(self) -> bool {
        keys_unique(self.epoch_rewards_entries@)
    }

    /// Whether the amounts a lock computes stay within range; trivially true
    /// unless a reward row actually matches.
    pub open spec fn lock_fits(self, current_epoch: u64, epochs_lock_time: u64, amount: u64) -> bool {
        let latest = latest_reward_epoch_spec(self.rewards(), epochs_lock_time, false);
        self.rewards_map().dom().contains(latest) ==> amount + interest_amount(
            amount,
            self.rewards_map()[latest],
        ) <= u64::MAX && current_epoch + latest <= u64::MAX
    }

    /// A fresh contract over `mex_token_id` with an initial reward table;
    /// every row needs a positive epoch and percentage.
    pub fn new(owner: u64, mex_token_id: u64, pairs: Vec<(u64, u64)>) -> (r: Result<
        DexRewardsLock,
        ContractError,
    >)
        ensures
            r.is_ok() <==> pairs@.len() > 0 && (forall|i: int|
                0 <= i < pairs@.len() ==> (#[trigger] pairs@[i]).0 > 0 && pairs@[i].1 > 0),
            r.is_err() ==> r == Err::<DexRewardsLock, ContractError>(
                ContractError::ValidationError,
            ),
            r matches Ok(c) ==> c.wf() && c.spec_owner() == owner && c.spec_asset_token_id()
                == mex_token_id && c.spec_locked_token_id().is_none()
                && c.spec_locked_token_nonce() == 0 && c.rewards_map() == rewards_after_inserts(
                Map::empty(),
                pairs@,
            ),
    {
        if pairs.len() == 0 {
            return Err(ContractError::ValidationError);
        }
        let mut entries: Vec<(u64, u64)> = Vec::new();
        let n = pairs.len();
        let mut i: usize = 0;
        proof {
            assert(pairs@.skip(0) =~= pairs@);
            assert(entries@ =~= Seq::<(u64, u64)>::empty());
        }
        while i < n
            invariant
                0 <= i <= n,
                n == pairs@.len(),
                keys_unique(entries@),
                forall|j: int| 0 <= j < i ==> (#[trigger] pairs@[j]).0 > 0 && pairs@[j].1 > 0,
                rewards_after_inserts(Map::empty(), pairs@) == rewards_after_inserts(
                    map_view(entries@),
                    pairs@.skip(i as int),
                ),
            decreases n - i,
        {
            proof {
                assert(pairs@.skip(i as int)[0] == pairs@[i as int]);
                assert(pairs@.skip(i as int).drop_first() =~= pairs@.skip(i as int + 1));
            }
            let (epoch, percentage) = pairs[i];
            if epoch == 0 {
                return Err(ContractError::ValidationError);
            }
            if percentage == 0 {
                return Err(ContractError::ValidationError);
            }
            rewards_insert(&mut entries, epoch, percentage);
            i = i + 1;
        }
        proof {
            assert(pairs@.skip(n as int).len() == 0);
        }
        Ok(
            DexRewardsLock {
                owner,
                asset: AssetModule::new(mex_token_id),
                locked_asset: LockedAssetModule::new(),
                epoch_rewards_entries: entries,
            },
        )
    }

    /// Records the token identifier obtained from the issuance callback.
    pub fn issue_nft_callback(&mut self, result: Option<u64>) -> (refund: bool)
        requires
            old(self).wf(),
        ensures
            final(self).wf(),
            result matches Some(t) ==> final(self).spec_locked_token_id() == Some(t) && !refund,
            result.is_none() ==> *final(self) == *old(self) && refund,
            final(self).rewards() == old(self).rewards(),
            final(self).spec_owner() == old(self).spec_owner(),
            final(self).spec_asset_token_id() == old(self).spec_asset_token_id(),
            final(self).spec_locked_token_nonce() == old(self).spec_locked_token_nonce(),
    {
        match result {
            Some(token_id) => {
                self.locked_asset.set_token_id(token_id);
                false
            },
            None => true,
        }
    }

    /// Owner-only: decides whether the locked token may be issued.
    pub fn issue_nft(&self, caller: u64) -> (r: Result<(), ContractError>)
        ensures
            r.is_ok() <==> caller == self.spec_owner() && self.spec_locked_token_id().is_none(),
            r.is_err() ==> r == Err::<(), ContractError>(
                if caller != self.spec_owner() {
                    ContractError::PermissionError
                } else {
                    ContractError::StateError
                },
            ),
    {
        if caller != self.owner {
            return Err(ContractError::PermissionError);
        }
        if self.locked_asset.is_issued() {
            return Err(ContractError::StateError);
        }
        Ok(())
    }

    /// Owner-only: adds a reward row for a not-yet-used epoch.
    pub fn add_epoch_reward(&mut self, caller: u64, epoch: u64, percentage: u64) -> (r: Result<
        (),
        ContractError,
    >)
        requires
            old(self).wf(),
        ensures
            final(self).wf(),
            r.is_err() ==> *final(self) == *old(self),
            r.is_ok() <==> caller == old(self).spec_owner() && !old(self).rewards_map().dom().contains(epoch) && epoch > 0 && percentage > 0,
            r.is_err() ==> r == Err::<(), ContractError>(
                if caller != old(self).spec_owner() {
                    ContractError::PermissionError
                } else if old(self).rewards_map().dom().contains(epoch) {
                    ContractError::DuplicateEntryError
                } else {
                    ContractError::ValidationError
                },
            ),
            r.is_ok() ==> final(self).rewards_map() == old(self).rewards_map().insert(
                epoch,
                percentage,
            ) && final(self).spec_owner() == old(self).spec_owner() && final(self).spec_asset_token_id() == old(self).spec_asset_token_id() && final(self).spec_locked_token_id() == old(self).spec_locked_token_id() && final(self).spec_locked_token_nonce() == old(self).spec_locked_token_nonce(),
    {
        if caller != self.owner {
            return Err(ContractError::PermissionError);
        }
        let contained = find_reward(&self.epoch_rewards_entries, epoch).is_some();
        proof {
            lemma_map_view_contains(self.epoch_rewards_entries@, epoch);
        }
        if contained {
            return Err(ContractError::DuplicateEntryError);
        }
        if epoch == 0 {
            return Err(ContractError::ValidationError);
        }
        if percentage == 0 {
            return Err(ContractError::ValidationError);
        }
        rewards_insert(&mut self.epoch_rewards_entries, epoch, percentage);
        Ok(())
    }

    /// Owner-only: removes a reward row, but never the last one.
    pub fn remove_epoch_reward(&mut self, caller: u64, epoch: u64) -> (r: Result<
        (),
        ContractError,
    >)
        requires
            old(self).wf(),
        ensures
            final(self).wf(),
            r.is_err() ==> *final(self) == *old(self),
            r.is_ok() <==> caller == old(self).spec_owner() && old(self).rewards_map().dom().contains(epoch) && old(self).rewards().len() > 1,
            r.is_err() ==> r == Err::<(), ContractError>(
                if caller != old(self).spec_owner() {
                    ContractError::PermissionError
                } else {
                    ContractError::StateError
                },
            ),
            r.is_ok() ==> final(self).rewards_map() == old(self).rewards_map().remove(epoch)
                && final(self).spec_owner() == old(self).spec_owner() && final(self).spec_asset_token_id() == old(self).spec_asset_token_id() && final(self).spec_locked_token_id() == old(self).spec_locked_token_id() && final(self).spec_locked_token_nonce() == old(self).spec_locked_token_nonce(),
    {
        if caller != self.owner {
            return Err(ContractError::PermissionError);
        }
        match find_reward(&self.epoch_rewards_entries, epoch) {
            Some(i) => {
                proof {
                    lemma_map_view_get(self.epoch_rewards_entries@, i as int);
                }
                if self.epoch_rewards_entries.len() <= 1 {
                    return Err(ContractError::StateError);
                }
                proof {
                    lemma_map_view_remove(self.epoch_rewards_entries@, i as int);
                }
                self.epoch_rewards_entries.remove(i);
                Ok(())
            },
            None => {
                proof {
                    lemma_map_view_contains(self.epoch_rewards_entries@, epoch);
                }
                Err(ContractError::StateError)
            },
        }
    }

    /// The locked-asset token identifier, if issued.
    pub fn locked_asset_token_id(&self) -> (r: Option<u64>)
        ensures
            r == self.spec_locked_token_id(),
    {
        if self.locked_asset.is_issued() {
            Some(self.locked_asset.token_id_or_zero())
        } else {
            None
        }
    }

    /// The reward percentage for exactly `epochs_waited`, zero when unset.
    pub fn get_reward_percentage_for_epochs_waited(&self, epochs_waited: u64) -> (r: u64)
        requires
            self.wf(),
        ensures
            r == if self.rewards_map().dom().contains(epochs_waited) {
                self.rewards_map()[epochs_waited]
            } else {
                0u64
            },
    {
        match find_reward(&self.epoch_rewards_entries, epochs_waited) {
            Some(i) => {
                proof {
                    lemma_map_view_get(self.epoch_rewards_entries@, i as int);
                }
                self.epoch_rewards_entries[i].1
            },
            None => {
                proof {
                    lemma_map_view_contains(self.epoch_rewards_entries@, epochs_waited);
                }
                0
            },
        }
    }

    /// Unlocks the matured part of a locked position paid in: the matured
    /// amount is minted out as the asset token, the rest is re-locked under
    /// the residual schedule, and the old position is burned.
    pub fn unlock_assets(
        &mut self,
        caller: u64,
        payment_token_id: u64,
        payment_token_nonce: u64,
        payment_amount: u64,
        attributes: &crate::schedule::LockedTokenAttributes,
        current_epoch: u64,
    ) -> (r: Result<crate::locked_asset::UnlockAssetsOutcome, ContractError>)
        requires
            old(self).wf(),
            crate::schedule::valid_schedule(attributes.unlock_milestones@),
            attributes.unlock_milestones@.len() > 0,
            old(self).spec_locked_token_nonce() < u64::MAX,
        ensures
            final(self).wf(),
            r.is_err() ==> *final(self) == *old(self),
            r.is_ok() <==> old(self).spec_locked_token_id() == Some(payment_token_id)
                && crate::schedule::unlocked_amount_spec(
                payment_amount,
                attributes.unlock_milestones@,
                current_epoch,
            ) > 0,
            final(self).rewards() == old(self).rewards(),
            final(self).spec_owner() == old(self).spec_owner(),
            final(self).spec_asset_token_id() == old(self).spec_asset_token_id(),
            final(self).spec_locked_token_id() == old(self).spec_locked_token_id(),
            r matches Ok(o) ==> ({
                &&& o.unlocked_amount == crate::schedule::unlocked_amount_spec(
                    payment_amount,
                    attributes.unlock_milestones@,
                    current_epoch,
                )
                &&& o.unlocked_amount + o.remaining_amount == payment_amount
                &&& o.new_unlock_milestones@ == crate::schedule::residual_schedule_spec(
                    attributes.unlock_milestones@,
                    current_epoch,
                )
                &&& crate::schedule::valid_schedule(o.new_unlock_milestones@)
            }),
    {
        let asset_token_id = self.asset.token_id;
        self.locked_asset.unlock_assets(
            caller,
            asset_token_id,
            payment_token_id,
            payment_token_nonce,
            payment_amount,
            attributes,
            current_epoch,
        )
    }

    /// The best reward epoch for a wait of `epochs_waited` epochs.
    pub fn find_latest_reward_epoch(&self, epochs_waited: u64) -> (r: u64)
        ensures
            r == latest_reward_epoch_spec(self.rewards(), epochs_waited, false),
    {
        find_latest_epoch(&self.epoch_rewards_entries, epochs_waited, false)
    }

    /// The interest `deposit_amount` would earn when locked for
    /// `epoch_lock_time` epochs.
    pub fn calculate_interest_endpoint(&self, deposit_amount: u64, epoch_lock_time: u64) -> (r:
        u64)
        requires
            self.wf(),
            self.lock_fits(0, epoch_lock_time, deposit_amount),
        ensures
            r as int == interest_amount(
                deposit_amount,
                ({
                    let latest = latest_reward_epoch_spec(self.rewards(), epoch_lock_time, false);
                    if self.rewards_map().dom().contains(latest) {
                        self.rewards_map()[latest]
                    } else {
                        0u64
                    }
                }),
            ),
    {
        let latest = self.find_latest_reward_epoch(epoch_lock_time);
        let percentage = self.get_reward_percentage_for_epochs_waited(latest);
        proof {
            assert(deposit_amount as int * percentage as int <= u64::MAX as int * u64::MAX as int)
                by (nonlinear_arith)
                requires deposit_amount <= u64::MAX && percentage <= u64::MAX,
            ;
            vstd::arithmetic::div_mod::lemma_div_is_ordered(
                0,
                deposit_amount as int * percentage as int,
                100,
            );
        }
        let wide: u128 = deposit_amount as u128 * percentage as u128 / 100;
        wide as u64
    }

    /// Locks `amount` of the asset token for `epochs_lock_time` epochs: the
    /// deposit is burned and a locked position over the deposit plus
    /// interest is created, unlocking in full at the matched reward epoch
    /// after now.
    pub fn lock_mex_tokens(
        &mut self,
        caller: u64,
        current_epoch: u64,
        token_id: u64,
        amount: u64,
        epochs_lock_time: u64,
    ) -> (r: Result<LockMexOutcome, ContractError>)
        requires
            old(self).wf(),
            old(self).spec_locked_token_nonce() < u64::MAX,
            old(self).lock_fits(current_epoch, epochs_lock_time, amount),
        ensures
            final(self).wf(),
            r.is_err() ==> *final(self) == *old(self),
            r.is_ok() <==> old(self).spec_locked_token_id().is_some() && token_id == old(self).spec_asset_token_id() && amount > 0 && latest_reward_epoch_spec(
                old(self).rewards(),
                epochs_lock_time,
                false,
            ) > 0,
            r.is_err() ==> r == Err::<LockMexOutcome, ContractError>(
                if old(self).spec_locked_token_id().is_none() {
                    ContractError::StateError
                } else if token_id != old(self).spec_asset_token_id() {
                    ContractError::ValidationError
                } else if amount == 0 {
                    ContractError::ZeroAmountError
                } else {
                    ContractError::ValidationError
                },
            ),
            r matches Ok(o) ==> ({
                let latest = latest_reward_epoch_spec(old(self).rewards(), epochs_lock_time, false);
                let pct = if old(self).rewards_map().dom().contains(latest) {
                    old(self).rewards_map()[latest]
                } else {
                    0u64
                };
                &&& o.latest_reward_epoch == latest
                &&& o.interest as int == interest_amount(amount, pct)
                &&& o.nft_amount == amount + o.interest
                &&& o.create.token_id == old(self).spec_locked_token_id().unwrap()
                &&& o.create.token_nonce == old(self).spec_locked_token_nonce() + 1
                &&& o.create.amount == o.nft_amount
                &&& o.create.unlock_milestones@ == seq![
                    UnlockMilestone {
                        unlock_epoch: (current_epoch + latest) as u64,
                        unlock_percent: 100u8,
                    },
                ]
                &&& o.transfer == (TokenTransfer {
                    token_id: old(self).spec_locked_token_id().unwrap(),
                    token_nonce: o.create.token_nonce,
                    amount: o.nft_amount,
                    to: caller,
                })
                &&& o.mex_burn == (TokenBurn {
                    token_id: old(self).spec_asset_token_id(),
                    token_nonce: 0,
                    amount,
                })
                &&& final(self).spec_locked_token_nonce() == old(self).spec_locked_token_nonce()
                    + 1
                &&& final(self).rewards() == old(self).rewards()
                &&& final(self).spec_owner() == old(self).spec_owner()
                &&& final(self).spec_asset_token_id() == old(self).spec_asset_token_id()
                &&& final(self).spec_locked_token_id() == old(self).spec_locked_token_id()
            }),
    {
        if !self.locked_asset.is_issued() {
            return Err(ContractError::StateError);
        }
        if token_id != self.asset.token_id {
            return Err(ContractError::ValidationError);
        }
        if amount == 0 {
            return Err(ContractError::ZeroAmountError);
        }
        let latest_reward_epoch = find_latest_epoch(
            &self.epoch_rewards_entries,
            epochs_lock_time,
            false,
        );
        if latest_reward_epoch == 0 {
            return Err(ContractError::ValidationError);
        }
        let percentage = self.get_reward_percentage_for_epochs_waited(latest_reward_epoch);
        proof {
            lemma_latest_is_key(self.rewards(), epochs_lock_time, false);
            lemma_map_view_contains(self.epoch_rewards_entries@, latest_reward_epoch);
            assert(amount as int * percentage as int <= u64::MAX as int * u64::MAX as int)
                by (nonlinear_arith)
                requires amount <= u64::MAX && percentage <= u64::MAX,
            ;
            vstd::arithmetic::div_mod::lemma_div_is_ordered(
                0,
                amount as int * percentage as int,
                100,
            );
        }
        let wide: u128 = amount as u128 * percentage as u128 / 100;
        let interest: u64 = wide as u64;
        let nft_amount = amount + interest;
        let unlock_epoch = current_epoch + latest_reward_epoch;
        let mut schedule: Vec<UnlockMilestone> = Vec::new();
        schedule.push(UnlockMilestone { unlock_epoch, unlock_percent: 100 });
        let pair = self.locked_asset.create_and_send_locked_assets(caller, nft_amount, &schedule);
        match pair {
            Some((create, transfer)) => {
                proof {
                    assert(schedule@ =~= seq![
                        UnlockMilestone { unlock_epoch, unlock_percent: 100u8 },
                    ]);
                }
                Ok(
                    LockMexOutcome {
                        latest_reward_epoch,
                        interest,
                        nft_amount,
                        create,
                        transfer,
                        mex_burn: TokenBurn {
                            token_id: self.asset.token_id,
                            token_nonce: 0,
                            amount,
                        },
                    },
                )
            },
            None => {
                proof {
                    assert(false);
                }
                Err(ContractError::StateError)
            },
        }
    }
}

/// The permissive rewards-lock contract: any reward table is accepted, the
/// reward strictly below the requested lock time wins, and the unlock is
/// anchored at the requested lock time itself.
#[derive(Debug)]
pub struct LockedRewardsImpl {
    owner: u64,
    asset: AssetModule,
    locked_asset: LockedAssetModule,
    epoch_rewards_entries: Vec<(u64, u64)>,
}

impl LockedRewardsImpl {
    pub closed spec fn spec_owner(self) -> u64 {
        self.owner
    }

    pub closed spec fn spec_asset_token_id(self) -> u64 {
        self.asset.token_id
    }

    pub closed spec fn spec_locked_token_id(self) -> Option<u64> {
        self.locked_asset.spec_token_id()
    }

    pub closed spec fn spec_locked_token_nonce(self) -> u64 {
        self.locked_asset.spec_token_nonce()
    }

    pub closed spec fn rewards(self) -> Seq<(u64, u64)> {
        self.epoch_rewards_entries@
    }

    /// The reward table as a map.
    pub open spec fn rewards_map(self) -> Map<u64, u64> {
        map_view(self.rewards())
    }

    pub closed spec fn wf(self) -> bool {
        keys_unique(self.epoch_rewards_entries@)
    }

    /// Whether the amounts a lock computes stay within range.
    pub open spec fn lock_fits(self, epochs_lock_time: u64, amount: u64) -> bool {
        let latest = latest_reward_epoch_spec(self.rewards(), epochs_lock_time, true);
        self.rewards_map().dom().contains(latest) ==> amount + interest_amount(
            amount,
            self.rewards_map()[latest],
        ) <= u64::MAX
    }

    /// A fresh contract over `mex_token_id` with an initial reward table; a
    /// later row overwrites an earlier one with the same epoch.
    pub fn new(owner: u64, mex_token_id: u64, pairs: Vec<(u64, u64)>) -> (r: Result<
        LockedRewardsImpl,
        ContractError,
    >)
        ensures
            r.is_ok() <==> pairs@.len() > 0,
            r.is_err() ==> r == Err::<LockedRewardsImpl, ContractError>(
                ContractError::ValidationError,
            ),
            r matches Ok(c) ==> c.wf() && c.spec_owner() == owner && c.spec_asset_token_id()
                == mex_token_id && c.spec_locked_token_id().is_none()
                && c.spec_locked_token_nonce() == 0 && c.rewards_map() == rewards_after_inserts(
                Map::empty(),
                pairs@,
            ),
    {
        if pairs.len() == 0 {
            return Err(ContractError::ValidationError);
        }
        let mut entries: Vec<(u64, u64)> = Vec::new();
        let n = pairs.len();
        let mut i: usize = 0;
        proof {
            assert(pairs@.skip(0) =~= pairs@);
            assert(entries@ =~= Seq::<(u64, u64)>::empty());
        }
        while i < n
            invariant
                0 <= i <= n,
                n == pairs@.len(),
                keys_unique(entries@),
                rewards_after_inserts(Map::empty(), pairs@) == rewards_after_inserts(
                    map_view(entries@),
                    pairs@.skip(i as int),
                ),
            decreases n - i,
        {
            proof {
                assert(pairs@.skip(i as int)[0] == pairs@[i as int]);
                assert(pairs@.skip(i as int).drop_first() =~= pairs@.skip(i as int + 1));
            }
            let (epoch, percentage) = pairs[i];
            rewards_insert(&mut entries, epoch, percentage);
            i = i + 1;
        }
        proof {
            assert(pairs@.skip(n as int).len() == 0);
        }
        Ok(
            LockedRewardsImpl {
                owner,
                asset: AssetModule::new(mex_token_id),
                locked_asset: LockedAssetModule::new(),
                epoch_rewards_entries: entries,
            },
        )
    }

    /// Records the token identifier obtained from the issuance callback.
    pub fn issue_nft_callback(&mut self, result: Option<u64>) -> (refund: bool)
        requires
            old(self).wf(),
        ensures
            final(self).wf(),
            result matches Some(t) ==> final(self).spec_locked_token_id() == Some(t) && !refund,
            result.is_none() ==> *final(self) == *old(self) && refund,
            final(self).rewards() == old(self).rewards(),
            final(self).spec_owner() == old(self).spec_owner(),
            final(self).spec_asset_token_id() == old(self).spec_asset_token_id(),
            final(self).spec_locked_token_nonce() == old(self).spec_locked_token_nonce(),
    {
        match result {
            Some(token_id) => {
                self.locked_asset.set_token_id(token_id);
                false
            },
            None => true,
        }
    }

    /// Owner-only: decides whether the locked token may be issued.
    pub fn issue_nft(&self, caller: u64) -> (r: Result<(), ContractError>)
        ensures
            r.is_ok() <==> caller == self.spec_owner() && self.spec_locked_token_id().is_none(),
            r.is_err() ==> r == Err::<(), ContractError>(
                if caller != self.spec_owner() {
                    ContractError::PermissionError
                } else {
                    ContractError::StateError
                },
            ),
    {
        if caller != self.owner {
            return Err(ContractError::PermissionError);
        }
        if self.locked_asset.is_issued() {
            return Err(ContractError::StateError);
        }
        Ok(())
    }

    /// Owner-only: adds a reward row for a not-yet-used epoch.
    pub fn add_epoch_reward(&mut self, caller: u64, epoch: u64, percentage: u64) -> (r: Result<
        (),
        ContractError,
    >)
        requires
            old(self).wf(),
        ensures
            final(self).wf(),
            r.is_err() ==> *final(self) == *old(self),
            r.is_ok() <==> caller == old(self).spec_owner() && !old(self).rewards_map().dom().contains(epoch),
            r.is_err() ==> r == Err::<(), ContractError>(
                if caller != old(self).spec_owner() {
                    ContractError::PermissionError
                } else {
                    ContractError::DuplicateEntryError
                },
            ),
            r.is_ok() ==> final(self).rewards_map() == old(self).rewards_map().insert(
                epoch,
                percentage,
            ) && final(self).spec_owner() == old(self).spec_owner() && final(self).spec_asset_token_id() == old(self).spec_asset_token_id() && final(self).spec_locked_token_id() == old(self).spec_locked_token_id() && final(self).spec_locked_token_nonce() == old(self).spec_locked_token_nonce(),
    {
        if caller != self.owner {
            return Err(ContractError::PermissionError);
        }
        let contained = find_reward(&self.epoch_rewards_entries, epoch).is_some();
        proof {
            lemma_map_view_contains(self.epoch_rewards_entries@, epoch);
        }
        if contained {
            return Err(ContractError::DuplicateEntryError);
        }
        rewards_insert(&mut self.epoch_rewards_entries, epoch, percentage);
        Ok(())
    }

    /// Owner-only: removes a reward row.
    pub fn remove_epoch_reward(&mut self, caller: u64, epoch: u64) -> (r: Result<
        (),
        ContractError,
    >)
        requires
            old(self).wf(),
        ensures
            final(self).wf(),
            r.is_err() ==> *final(self) == *old(self),
            r.is_ok() <==> caller == old(self).spec_owner() && old(self).rewards_map().dom().contains(epoch),
            r.is_err() ==> r == Err::<(), ContractError>(
                if caller != old(self).spec_owner() {
                    ContractError::PermissionError
                } else {
                    ContractError::StateError
                },
            ),
            r.is_ok() ==> final(self).rewards_map() == old(self).rewards_map().remove(epoch)
                && final(self).spec_owner() == old(self).spec_owner() && final(self).spec_asset_token_id() == old(self).spec_asset_token_id() && final(self).spec_locked_token_id() == old(self).spec_locked_token_id() && final(self).spec_locked_token_nonce() == old(self).spec_locked_token_nonce(),
    {
        if caller != self.owner {
            return Err(ContractError::PermissionError);
        }
        match find_reward(&self.epoch_rewards_entries, epoch) {
            Some(i) => {
                proof {
                    lemma_map_view_get(self.epoch_rewards_entries@, i as int);
                    lemma_map_view_remove(self.epoch_rewards_entries@, i as int);
                }
                self.epoch_rewards_entries.remove(i);
                Ok(())
            },
            None => {
                proof {
                    lemma_map_view_contains(self.epoch_rewards_entries@, epoch);
                }
                Err(ContractError::StateError)
            },
        }
    }

    /// The interest percentage for exactly `epochs_waited`, zero when unset.
    pub fn get_interest_for_epochs_waited(&self, epochs_waited: u64) -> (r: u64)
        requires
            self.wf(),
        ensures
            r == if self.rewards_map().dom().contains(epochs_waited) {
                self.rewards_map()[epochs_waited]
            } else {
                0u64
            },
    {
        match find_reward(&self.epoch_rewards_entries, epochs_waited) {
            Some(i) => {
                proof {
                    lemma_map_view_get(self.epoch_rewards_entries@, i as int);
                }
                self.epoch_rewards_entries[i].1
            },
            None => {
                proof {
                    lemma_map_view_contains(self.epoch_rewards_entries@, epochs_waited);
                }
                0
            },
        }
    }

    /// The best reward epoch strictly below a wait of `epochs_waited`.
    pub fn find_latest_reward_epoch(&self, epochs_waited: u64) -> (r: u64)
        ensures
            r == latest_reward_epoch_spec(self.rewards(), epochs_waited, true),
    {
        find_latest_epoch(&self.epoch_rewards_entries, epochs_waited, true)
    }

    /// What a deposit would earn after waiting `epochs_waited` epochs.
    pub fn calculate_earnings(&self, deposit_amount: u64, epochs_waited: u64) -> (r: u64)
        requires
            self.wf(),
            self.lock_fits(epochs_waited, deposit_amount),
        ensures
            r as int == interest_amount(
                deposit_amount,
                ({
                    let latest = latest_reward_epoch_spec(self.rewards(), epochs_waited, true);
                    if self.rewards_map().dom().contains(latest) {
                        self.rewards_map()[latest]
                    } else {
                        0u64
                    }
                }),
            ),
    {
        let latest = self.find_latest_reward_epoch(epochs_waited);
        let interest = self.get_interest_for_epochs_waited(latest);
        proof {
            assert(deposit_amount as int * interest as int <= u64::MAX as int * u64::MAX as int)
                by (nonlinear_arith)
                requires deposit_amount <= u64::MAX && interest <= u64::MAX,
            ;
            vstd::arithmetic::div_mod::lemma_div_is_ordered(
                0,
                deposit_amount as int * interest as int,
                100,
            );
        }
        let wide: u128 = deposit_amount as u128 * interest as u128 / 100;
        wide as u64
    }

    /// The locked-asset token identifier, if issued.
    pub fn locked_asset_token_id(&self) -> (r: Option<u64>)
        ensures
            r == self.spec_locked_token_id(),
    {
        if self.locked_asset.is_issued() {
            Some(self.locked_asset.token_id_or_zero())
        } else {
            None
        }
    }

    /// Unlocks the matured part of a locked position paid in: the matured
    /// amount is minted out as the asset token, the rest is re-locked under
    /// the residual schedule, and the old position is burned.
    pub fn unlock_assets(
        &mut self,
        caller: u64,
        payment_token_id: u64,
        payment_token_nonce: u64,
        payment_amount: u64,
        attributes: &crate::schedule::LockedTokenAttributes,
        current_epoch: u64,
    ) -> (r: Result<crate::locked_asset::UnlockAssetsOutcome, ContractError>)
        requires
            old(self).wf(),
            crate::schedule::valid_schedule(attributes.unlock_milestones@),
            attributes.unlock_milestones@.len() > 0,
            old(self).spec_locked_token_nonce() < u64::MAX,
        ensures
            final(self).wf(),
            r.is_err() ==> *final(self) == *old(self),
            r.is_ok() <==> old(self).spec_locked_token_id() == Some(payment_token_id)
                && crate::schedule::unlocked_amount_spec(
                payment_amount,
                attributes.unlock_milestones@,
                current_epoch,
            ) > 0,
            final(self).rewards() == old(self).rewards(),
            final(self).spec_owner() == old(self).spec_owner(),
            final(self).spec_asset_token_id() == old(self).spec_asset_token_id(),
            final(self).spec_locked_token_id() == old(self).spec_locked_token_id(),
            r matches Ok(o) ==> ({
                &&& o.unlocked_amount == crate::schedule::unlocked_amount_spec(
                    payment_amount,
                    attributes.unlock_milestones@,
                    current_epoch,
                )
                &&& o.unlocked_amount + o.remaining_amount == payment_amount
                &&& o.new_unlock_milestones@ == crate::schedule::residual_schedule_spec(
                    attributes.unlock_milestones@,
                    current_epoch,
                )
                &&& crate::schedule::valid_schedule(o.new_unlock_milestones@)
            }),
    {
        let asset_token_id = self.asset.token_id;
        self.locked_asset.unlock_assets(
            caller,
            asset_token_id,
            payment_token_id,
            payment_token_nonce,
            payment_amount,
            attributes,
            current_epoch,
        )
    }

    /// Owner-only: checks a request to assign local token roles; the
    /// assignment itself is an asynchronous host call.
    pub fn set_local_roles(&self, caller: u64, token: u64, roles_count: usize) -> (r: Result<
        (),
        ContractError,
    >)
        ensures
            r.is_ok() <==> caller == self.spec_owner() && self.spec_locked_token_id() == Some(
                token,
            ) && roles_count > 0,
            r.is_err() ==> r == Err::<(), ContractError>(
                if caller != self.spec_owner() {
                    ContractError::PermissionError
                } else {
                    ContractError::ValidationError
                },
            ),
    {
        if caller != self.owner {
            return Err(ContractError::PermissionError);
        }
        let current = self.locked_asset.token_id_or_zero();
        if !(self.locked_asset.is_issued() && current == token) {
            return Err(ContractError::ValidationError);
        }
        if roles_count == 0 {
            return Err(ContractError::ValidationError);
        }
        Ok(())
    }

    /// The whole reward table, in storage order.
    pub fn get_all_lock_reward_options(&self) -> (r: Vec<LockRewardOption>)
        ensures
            r@.len() == self.rewards().len(),
            forall|i: int|
                0 <= i < r@.len() ==> (#[trigger] r@[i]) == (LockRewardOption {
                    num_epochs_to_lock: self.rewards()[i].0,
                    interest: self.rewards()[i].1,
                }),
    {
        let n = self.epoch_rewards_entries.len();
        let mut out: Vec<LockRewardOption> = Vec::new();
        let mut i: usize = 0;
        while i < n
            invariant
                0 <= i <= n,
                n == self.rewards().len(),
                out@.len() == i,
                forall|j: int|
                    0 <= j < i ==> (#[trigger] out@[j]) == (LockRewardOption {
                        num_epochs_to_lock: self.rewards()[j].0,
                        interest: self.rewards()[j].1,
                    }),
            decreases n - i,
        {
            let (epoch, interest) = self.epoch_rewards_entries[i];
            out.push(LockRewardOption { num_epochs_to_lock: epoch, interest });
            i = i + 1;
        }
        out
    }

    /// Locks `amount` of the asset token for `epochs_lock_time` epochs: the
    /// deposit is burned and a locked position over the deposit plus the
    /// matched bonus is created, unlocking in full `epochs_lock_time` epochs
    /// after now.  Fails when no reward row lies strictly below the lock
    /// time.
    pub fn lock_mex_tokens(
        &mut self,
        caller: u64,
        current_epoch: u64,
        token_id: u64,
        amount: u64,
        epochs_lock_time: u64,
    ) -> (r: Result<LockMexOutcome, ContractError>)
        requires
            old(self).wf(),
            old(self).spec_locked_token_nonce() < u64::MAX,
            old(self).lock_fits(epochs_lock_time, amount),
            current_epoch + epochs_lock_time <= u64::MAX,
        ensures
            final(self).wf(),
            r.is_err() ==> *final(self) == *old(self),
            r.is_ok() <==> old(self).spec_locked_token_id().is_some() && token_id == old(self).spec_asset_token_id() && amount > 0 && old(self).rewards_map().dom().contains(
                latest_reward_epoch_spec(old(self).rewards(), epochs_lock_time, true),
            ),
            r.is_err() ==> r == Err::<LockMexOutcome, ContractError>(
                if old(self).spec_locked_token_id().is_none() {
                    ContractError::StateError
                } else if token_id != old(self).spec_asset_token_id() {
                    ContractError::ValidationError
                } else if amount == 0 {
                    ContractError::ZeroAmountError
                } else {
                    ContractError::StateError
                },
            ),
            r matches Ok(o) ==> ({
                let latest = latest_reward_epoch_spec(old(self).rewards(), epochs_lock_time, true);
                &&& o.latest_reward_epoch == latest
                &&& o.interest as int == interest_amount(amount, old(self).rewards_map()[latest])
                &&& o.nft_amount == amount + o.interest
                &&& o.create.token_id == old(self).spec_locked_token_id().unwrap()
                &&& o.create.token_nonce == old(self).spec_locked_token_nonce() + 1
                &&& o.create.amount == o.nft_amount
                &&& o.create.unlock_milestones@ == seq![
                    UnlockMilestone {
                        unlock_epoch: (current_epoch + epochs_lock_time) as u64,
                        unlock_percent: 100u8,
                    },
                ]
                &&& o.transfer == (TokenTransfer {
                    token_id: old(self).spec_locked_token_id().unwrap(),
                    token_nonce: o.create.token_nonce,
                    amount: o.nft_amount,
                    to: caller,
                })
                &&& o.mex_burn == (TokenBurn {
                    token_id: old(self).spec_asset_token_id(),
                    token_nonce: 0,
                    amount,
                })
                &&& final(self).spec_locked_token_nonce() == old(self).spec_locked_token_nonce()
                    + 1
                &&& final(self).rewards() == old(self).rewards()
                &&& final(self).spec_owner() == old(self).spec_owner()
                &&& final(self).spec_asset_token_id() == old(self).spec_asset_token_id()
                &&& final(self).spec_locked_token_id() == old(self).spec_locked_token_id()
            }),
    {
        if !self.locked_asset.is_issued() {
            return Err(ContractError::StateError);
        }
        if token_id != self.asset.token_id {
            return Err(ContractError::ValidationError);
        }
        if amount == 0 {
            return Err(ContractError::ZeroAmountError);
        }
        let latest_reward_epoch = find_latest_epoch(
            &self.epoch_rewards_entries,
            epochs_lock_time,
            true,
        );
        let percentage = match find_reward(&self.epoch_rewards_entries, latest_reward_epoch) {
            Some(i) => {
                proof {
                    lemma_map_view_get(self.epoch_rewards_entries@, i as int);
                }
                self.epoch_rewards_entries[i].1
            },
            None => {
                proof {
                    lemma_map_view_contains(self.epoch_rewards_entries@, latest_reward_epoch);
                }
                return Err(ContractError::StateError);
            },
        };
        proof {
            assert(amount as int * percentage as int <= u64::MAX as int * u64::MAX as int)
                by (nonlinear_arith)
                requires amount <= u64::MAX && percentage <= u64::MAX,
            ;
            vstd::arithmetic::div_mod::lemma_div_is_ordered(
                0,
                amount as int * percentage as int,
                100,
            );
        }
        let wide: u128 = amount as u128 * percentage as u128 / 100;
        let bonus_amount: u64 = wide as u64;
        let nft_amount = amount + bonus_amount;
        let unlock_epoch = current_epoch + epochs_lock_time;
        let mut schedule: Vec<UnlockMilestone> = Vec::new();
        schedule.push(UnlockMilestone { unlock_epoch, unlock_percent: 100 });
        let pair = self.locked_asset.create_and_send_locked_assets(caller, nft_amount, &schedule);
        match pair {
            Some((create, transfer)) => {
                proof {
                    assert(schedule@ =~= seq![
                        UnlockMilestone { unlock_epoch, unlock_percent: 100u8 },
                    ]);
                }
                Ok(
                    LockMexOutcome {
                        latest_reward_epoch,
                        interest: bonus_amount,
                        nft_amount,
                        create,
                        transfer,
                        mex_burn: TokenBurn {
                            token_id: self.asset.token_id,
                            token_nonce: 0,
                            amount,
                        },
                    },
                )
            },
            None => {
                proof {
                    assert(false);
                }
                Err(ContractError::StateError)
            },
        }
    }
}

} // verus!
