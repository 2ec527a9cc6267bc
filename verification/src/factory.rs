//! The locked-asset factory: whitelisted contracts ask it to create locked
//! positions, either under a default unlock period anchored at the current
//! epoch or under a custom schedule.  Positions with identical attributes
//! reuse an already-created nonce through a cache.

use vstd::prelude::*;

use crate::asset::TokenTransfer;
use crate::errors::ContractError;
use crate::locked_asset::{LockedAssetModule, SftCreate, UnlockAssetsOutcome};
use crate::schedule::{
    percents_sum, valid_schedule, validate_unlock_milestones, LockedTokenAttributes,
    UnlockMilestone,
};

verus! {

/// The default unlock period shifted to start at `now`: each milestone's
/// epoch is offset by `now`, percentages unchanged.
pub open spec fn offset_schedule(ms: Seq<UnlockMilestone>, now: u64) -> Seq<UnlockMilestone> {
    ms.map_values(
        |m: UnlockMilestone| UnlockMilestone {
            unlock_epoch: (m.unlock_epoch + now) as u64,
            unlock_percent: m.unlock_percent,
        },
    )
}

/// Whether shifting the schedule by `now` stays within the epoch range.
pub open spec fn offset_fits(ms: Seq<UnlockMilestone>, now: u64) -> bool {
    forall|i: int| 0 <= i < ms.len() ==> (#[trigger] ms[i]).unlock_epoch + now <= u64::MAX
}

/// Pointwise equal percentages give equal sums.
proof fn lemma_sum_pointwise_eq(a: Seq<UnlockMilestone>, b: Seq<UnlockMilestone>)
    requires
        a.len() == b.len(),
        forall|i: int| 0 <= i < a.len() ==> (#[trigger] a[i]).unlock_percent == b[i].unlock_percent,
    ensures
        percents_sum(a) == percents_sum(b),
    decreases a.len(),
{
    if a.len() > 0 {
        assert(forall|i: int|
            0 <= i < a.drop_last().len() ==> (#[trigger] a.drop_last()[i]) == a[i]);
        assert(forall|i: int|
            0 <= i < b.drop_last().len() ==> (#[trigger] b.drop_last()[i]) == b[i]);
        lemma_sum_pointwise_eq(a.drop_last(), b.drop_last());
        assert(a.last() == a[a.len() - 1] && b.last() == b[a.len() - 1]);
    }
}

/// Shifting a well-formed schedule forward keeps it well formed.
pub proof fn lemma_offset_schedule_valid(ms: Seq<UnlockMilestone>, now: u64)
    requires
        valid_schedule(ms),
        offset_fits(ms, now),
    ensures
        valid_schedule(offset_schedule(ms, now)),
{
    let o = offset_schedule(ms, now);
    assert(forall|i: int|
        0 <= i < o.len() ==> (#[trigger] o[i]).unlock_percent == ms[i].unlock_percent && o[
            i].unlock_epoch == ms[i].unlock_epoch + now);
    lemma_sum_pointwise_eq(o, ms);
}

/// What a create-and-forward request decides: either more quantity of an
/// already-created position with the same attributes, or a brand new
/// position.
#[derive(Debug)]
pub enum CreateAndForwardOutcome {
    AddQuantity { token_id: u64, token_nonce: u64, amount: u64, transfer: TokenTransfer },
    CreateNew { create: SftCreate, transfer: TokenTransfer },
}

/// Compares two milestone lists.
pub fn milestones_eq(a: &Vec<UnlockMilestone>, b: &Vec<UnlockMilestone>) -> (r: bool)
    ensures
        r <==> a@ == b@,
{
    if a.len() != b.len() {
        proof {
            assert(a@ != b@);
        }
        return false;
    }
    let n = a.len();
    let mut i: usize = 0;
    while i < n
        invariant
            0 <= i <= n,
            n == a@.len(),
            n == b@.len(),
            forall|j: int| 0 <= j < i ==> a@[j] == b@[j],
        decreases n - i,
    {
        if a[i] != b[i] {
            proof {
                assert(a@[i as int] != b@[i as int]);
            }
            return false;
        }
        i = i + 1;
    }
    proof {
        assert(a@ =~= b@);
    }
    true
}

/// The locked-asset factory contract.
#[derive(Debug)]
pub struct LockedAssetFactory {
    owner: u64,
    asset_token_id: u64,
    locked_asset: LockedAssetModule,
    whitelisted_contracts: Vec<u64>,
    default_unlock_period: Vec<UnlockMilestone>,
    cache_entries: Vec<(Vec<UnlockMilestone>, u64)>,
}

impl LockedAssetFactory {
    pub closed spec fn spec_owner(self) -> u64 {
        self.owner
    }

    pub closed spec fn spec_asset_token_id(self) -> u64 {
        self.asset_token_id
    }

    pub closed spec fn spec_locked_token_id(self) -> Option<u64> {
        self.locked_asset.spec_token_id()
    }

    pub closed spec fn spec_locked_token_nonce(self) -> u64 {
        self.locked_asset.spec_token_nonce()
    }

    pub closed spec fn whitelist(self) -> Seq<u64> {
        self.whitelisted_contracts@
    }

    pub closed spec fn default_period(self) -> Seq<UnlockMilestone> {
        self.default_unlock_period@
    }

    /// The attribute cache, as (schedule, nonce) pairs in insertion order.
    pub closed spec fn cache(self) -> Seq<(Seq<UnlockMilestone>, u64)> {
        self.cache_entries@.map_values(|e: (Vec<UnlockMilestone>, u64)| (e.0@, e.1))
    }

    /// The default period is a well-formed, non-empty schedule and cached
    /// schedules are unique.
    pub closed spec fn wf(self) -> bool {
        &&& valid_schedule(self.default_unlock_period@)
        &&& self.default_unlock_period@.len() > 0
        &&& forall|i: int, j: int|
            0 <= i < j < self.cache_entries@.len() ==> (#[trigger] self.cache_entries@[i]).0@ != (
            #[trigger] self.cache_entries@[j]).0@
    }

    pub open spec fn same_admin_state(self, other: LockedAssetFactory) -> bool {
        &&& self.spec_owner() == other.spec_owner()
        &&& self.spec_asset_token_id() == other.spec_asset_token_id()
        &&& self.spec_locked_token_id() == other.spec_locked_token_id()
        &&& self.whitelist() == other.whitelist()
        &&& self.default_period() == other.default_period()
    }

    /// A fresh factory; the default unlock period must be a non-empty,
    /// well-formed schedule.
    pub fn new(
        owner: u64,
        asset_token_id: u64,
        default_unlock_period: Vec<UnlockMilestone>,
    ) -> (r: Result<LockedAssetFactory, ContractError>)
        ensures
            r.is_ok() <==> default_unlock_period@.len() > 0 && valid_schedule(
                default_unlock_period@,
            ),
            r.is_err() ==> r == Err::<LockedAssetFactory, ContractError>(
                if default_unlock_period@.len() == 0 {
                    ContractError::ValidationError
                } else {
                    ContractError::InvalidScheduleError
                },
            ),
            r matches Ok(f) ==> f.wf() && f.spec_owner() == owner && f.spec_asset_token_id()
                == asset_token_id && f.default_period() == default_unlock_period@
                && f.spec_locked_token_id().is_none() && f.spec_locked_token_nonce() == 0
                && f.whitelist().len() == 0 && f.cache().len() == 0,
    {
        if default_unlock_period.len() == 0 {
            return Err(ContractError::ValidationError);
        }
        if let Err(e) = validate_unlock_milestones(&default_unlock_period) {
            return Err(e);
        }
        Ok(
            LockedAssetFactory {
                owner,
                asset_token_id,
                locked_asset: LockedAssetModule::new(),
                whitelisted_contracts: Vec::new(),
                default_unlock_period,
                cache_entries: Vec::new(),
            },
        )
    }

    /// Owner-only: whitelists a contract that may request locked positions.
    pub fn whitelist_contract(&mut self, caller: u64, address: u64) -> (r: Result<
        (),
        ContractError,
    >)
        requires
            old(self).wf(),
        ensures
            final(self).wf(),
            r.is_ok() <==> caller == old(self).spec_owner(),
            r.is_err() ==> *final(self) == *old(self) && r == Err::<(), ContractError>(
                ContractError::PermissionError,
            ),
            r.is_ok() ==> final(self).whitelist().contains(address) && (old(self).whitelist().contains(address) ==> final(self).whitelist() == old(self).whitelist())
                && (!old(self).whitelist().contains(address) ==> final(self).whitelist() == old(self).whitelist().push(address)) && final(self).cache() == old(self).cache() && final(self).default_period() == old(self).default_period() && final(self).spec_owner() == old(self).spec_owner() && final(self).spec_asset_token_id() == old(self).spec_asset_token_id()
                && final(self).spec_locked_token_id() == old(self).spec_locked_token_id() && final(self).spec_locked_token_nonce() == old(self).spec_locked_token_nonce(),
    {
        if caller != self.owner {
            return Err(ContractError::PermissionError);
        }
        let n = self.whitelisted_contracts.len();
        let mut i: usize = 0;
        while i < n
            invariant
                0 <= i <= n,
                n == self.whitelisted_contracts@.len(),
                *self == *old(self),
                self.wf(),
                caller == old(self).spec_owner(),
                forall|j: int| 0 <= j < i ==> self.whitelisted_contracts@[j] != address,
            decreases n - i,
        {
            if self.whitelisted_contracts[i] == address {
                proof {
                    assert(old(self).whitelist().contains(address));
                }
                return Ok(());
            }
            i = i + 1;
        }
        self.whitelisted_contracts.push(address);
        proof {
            assert(self.whitelisted_contracts@[self.whitelisted_contracts@.len() - 1] == address);
        }
        Ok(())
    }

    /// Owner-only: removes a contract from the whitelist.
    pub fn remove_whitelist(&mut self, caller: u64, address: u64) -> (r: Result<(), ContractError>)
        requires
            old(self).wf(),
        ensures
            final(self).wf(),
            r.is_ok() <==> caller == old(self).spec_owner(),
            r.is_err() ==> *final(self) == *old(self) && r == Err::<(), ContractError>(
                ContractError::PermissionError,
            ),
            r.is_ok() ==> ((!old(self).whitelist().contains(address) ==> final(self).whitelist()
                == old(self).whitelist()) && (old(self).whitelist().contains(address) ==> exists|
                i: int,
            |
                0 <= i < old(self).whitelist().len() && old(self).whitelist()[i] == address
                    && final(self).whitelist() == old(self).whitelist().remove(i)) && final(self).cache() == old(self).cache() && final(self).default_period() == old(self).default_period() && final(self).spec_owner() == old(self).spec_owner() && final(self).spec_asset_token_id() == old(self).spec_asset_token_id() && final(self).spec_locked_token_id() == old(self).spec_locked_token_id() && final(self).spec_locked_token_nonce() == old(self).spec_locked_token_nonce()),
    {
        if caller != self.owner {
            return Err(ContractError::PermissionError);
        }
        let n = self.whitelisted_contracts.len();
        let mut i: usize = 0;
        while i < n
            invariant
                0 <= i <= n,
                n == self.whitelisted_contracts@.len(),
                *self == *old(self),
                self.wf(),
                caller == old(self).spec_owner(),
                forall|j: int| 0 <= j < i ==> self.whitelisted_contracts@[j] != address,
            decreases n - i,
        {
            if self.whitelisted_contracts[i] == address {
                proof {
                    assert(old(self).whitelist()[i as int] == address);
                    assert(old(self).whitelist().contains(address));
                }
                self.whitelisted_contracts.remove(i);
                return Ok(());
            }
            i = i + 1;
        }
        Ok(())
    }

    /// Records the token identifier obtained from the issuance callback.
    pub fn issue_nft_callback(&mut self, result: Option<u64>) -> (refund: bool)
        requires
            old(self).wf(),
        ensures
            final(self).wf(),
            result matches Some(t) ==> final(self).spec_locked_token_id() == Some(t) && !refund,
            result.is_none() ==> *final(self) == *old(self) && refund,
            final(self).whitelist() == old(self).whitelist(),
            final(self).cache() == old(self).cache(),
            final(self).default_period() == old(self).default_period(),
            final(self).spec_owner() == old(self).spec_owner(),
            final(self).spec_asset_token_id() == old(self).spec_asset_token_id(),
            final(self).spec_locked_token_nonce() == old(self).spec_locked_token_nonce(),
    {
        match result {
            Some(token_id) => {
                self.locked_asset.set_token_id(token_id);
                false
            },
            None => true,
        }
    }

    /// Owner-only: decides whether the locked-asset token may be issued.
    pub fn issue_nft(&self, caller: u64) -> (r: Result<(), ContractError>)
        ensures
            r.is_ok() <==> caller == self.spec_owner() && self.spec_locked_token_id().is_none(),
            r.is_err() ==> r == Err::<(), ContractError>(
                if caller != self.spec_owner() {
                    ContractError::PermissionError
                } else {
                    ContractError::StateError
                },
            ),
    {
        if caller != self.owner {
            return Err(ContractError::PermissionError);
        }
        if self.locked_asset.is_issued() {
            return Err(ContractError::StateError);
        }
        Ok(())
    }

    /// Owner-only: checks a request to assign local token roles; the
    /// assignment itself is an asynchronous host call.
    pub fn set_local_roles(&self, caller: u64, token: u64, roles_count: usize) -> (r: Result<
        (),
        ContractError,
    >)
        ensures
            r.is_ok() <==> caller == self.spec_owner() && self.spec_locked_token_id() == Some(
                token,
            ) && roles_count > 0,
            r.is_err() ==> r == Err::<(), ContractError>(
                if caller != self.spec_owner() {
                    ContractError::PermissionError
                } else {
                    ContractError::ValidationError
                },
            ),
    {
        if caller != self.owner {
            return Err(ContractError::PermissionError);
        }
        let current = self.locked_asset.token_id_or_zero();
        if !(self.locked_asset.is_issued() && current == token) {
            return Err(ContractError::ValidationError);
        }
        if roles_count == 0 {
            return Err(ContractError::ValidationError);
        }
        Ok(())
    }

    /// A whitelisted contract asks for `amount` locked tokens for `address`
    /// under the default unlock period anchored at the current epoch.  An
    /// existing position with the same schedule is topped up; otherwise a
    /// new position is created and cached.
    pub fn create_and_forward(
        &mut self,
        caller: u64,
        address: u64,
        amount: u64,
        current_epoch: u64,
    ) -> (r: Result<CreateAndForwardOutcome, ContractError>)
        requires
            old(self).wf(),
            old(self).spec_locked_token_nonce() < u64::MAX,
            offset_fits(old(self).default_period(), current_epoch),
        ensures
            final(self).wf(),
            r.is_err() ==> *final(self) == *old(self),
            r.is_ok() <==> old(self).whitelist().contains(caller) && old(self).spec_locked_token_id().is_some() && amount > 0,
            r.is_err() ==> r == Err::<CreateAndForwardOutcome, ContractError>(
                if !old(self).whitelist().contains(caller) {
                    ContractError::PermissionError
                } else if old(self).spec_locked_token_id().is_none() {
                    ContractError::StateError
                } else {
                    ContractError::ZeroAmountError
                },
            ),
            r matches Ok(o) ==> create_and_forward_applied(
                *old(self),
                *final(self),
                o,
                address,
                amount,
                offset_schedule(old(self).default_period(), current_epoch),
            ),
    {
        if !self.is_whitelisted(caller) {
            return Err(ContractError::PermissionError);
        }
        if !self.locked_asset.is_issued() {
            return Err(ContractError::StateError);
        }
        if amount == 0 {
            return Err(ContractError::ZeroAmountError);
        }
        let schedule = self.create_default_unlock_milestones(current_epoch);
        self.create_or_add_quantity(address, amount, schedule)
    }

    /// A whitelisted contract asks for `amount` locked tokens for `address`
    /// under a schedule of its own choosing.  The schedule must be non-empty
    /// and well formed, so every locked position the factory creates carries
    /// a valid schedule.
    pub fn create_and_forward_custom_schedule(
        &mut self,
        caller: u64,
        address: u64,
        amount: u64,
        schedule: Vec<UnlockMilestone>,
    ) -> (r: Result<CreateAndForwardOutcome, ContractError>)
        requires
            old(self).wf(),
            old(self).spec_locked_token_nonce() < u64::MAX,
        ensures
            final(self).wf(),
            r.is_err() ==> *final(self) == *old(self),
            r.is_ok() <==> old(self).whitelist().contains(caller) && old(self).spec_locked_token_id().is_some() && amount > 0 && schedule@.len() > 0 && valid_schedule(
                schedule@,
            ),
            r.is_err() ==> r == Err::<CreateAndForwardOutcome, ContractError>(
                if !old(self).whitelist().contains(caller) {
                    ContractError::PermissionError
                } else if old(self).spec_locked_token_id().is_none() {
                    ContractError::StateError
                } else if amount == 0 {
                    ContractError::ZeroAmountError
                } else if schedule@.len() == 0 {
                    ContractError::ValidationError
                } else {
                    ContractError::InvalidScheduleError
                },
            ),
            r matches Ok(o) ==> create_and_forward_applied(
                *old(self),
                *final(self),
                o,
                address,
                amount,
                schedule@,
            ),
    {
        if !self.is_whitelisted(caller) {
            return Err(ContractError::PermissionError);
        }
        if !self.locked_asset.is_issued() {
            return Err(ContractError::StateError);
        }
        if amount == 0 {
            return Err(ContractError::ZeroAmountError);
        }
        if schedule.len() == 0 {
            return Err(ContractError::ValidationError);
        }
        if let Err(e) = validate_unlock_milestones(&schedule) {
            return Err(e);
        }
        self.create_or_add_quantity(address, amount, schedule)
    }

    /// Unlocks the matured part of a locked position paid in; see the
    /// locked-asset module.
    pub fn unlock_assets(
        &mut self,
        caller: u64,
        payment_token_id: u64,
        payment_token_nonce: u64,
        payment_amount: u64,
        attributes: &LockedTokenAttributes,
        current_epoch: u64,
    ) -> (r: Result<UnlockAssetsOutcome, ContractError>)
        requires
            old(self).wf(),
            valid_schedule(attributes.unlock_milestones@),
            attributes.unlock_milestones@.len() > 0,
            old(self).spec_locked_token_nonce() < u64::MAX,
        ensures
            final(self).wf(),
            r.is_err() ==> *final(self) == *old(self),
            r.is_ok() <==> old(self).spec_locked_token_id() == Some(payment_token_id)
                && crate::schedule::unlocked_amount_spec(
                payment_amount,
                attributes.unlock_milestones@,
                current_epoch,
            ) > 0,
            final(self).cache() == old(self).cache(),
            final(self).whitelist() == old(self).whitelist(),
            final(self).default_period() == old(self).default_period(),
            final(self).spec_owner() == old(self).spec_owner(),
            final(self).spec_asset_token_id() == old(self).spec_asset_token_id(),
            final(self).spec_locked_token_id() == old(self).spec_locked_token_id(),
            r matches Ok(o) ==> ({
                &&& o.unlocked_amount == crate::schedule::unlocked_amount_spec(
                    payment_amount,
                    attributes.unlock_milestones@,
                    current_epoch,
                )
                &&& o.unlocked_amount + o.remaining_amount == payment_amount
                &&& o.new_unlock_milestones@ == crate::schedule::residual_schedule_spec(
                    attributes.unlock_milestones@,
                    current_epoch,
                )
                &&& valid_schedule(o.new_unlock_milestones@)
            }),
    {
        let asset_token_id = self.asset_token_id;
        self.locked_asset.unlock_assets(
            caller,
            asset_token_id,
            payment_token_id,
            payment_token_nonce,
            payment_amount,
            attributes,
            current_epoch,
        )
    }

    /// The default unlock period anchored at the current epoch.
    fn create_default_unlock_milestones(&self, current_epoch: u64) -> (r: Vec<UnlockMilestone>)
        requires
            offset_fits(self.default_period(), current_epoch),
        ensures
            r@ == offset_schedule(self.default_period(), current_epoch),
    {
        let n = self.default_unlock_period.len();
        let mut out: Vec<UnlockMilestone> = Vec::new();
        let mut i: usize = 0;
        while i < n
            invariant
                0 <= i <= n,
                n == self.default_period().len(),
                offset_fits(self.default_period(), current_epoch),
                out@ =~= offset_schedule(self.default_period(), current_epoch).take(i as int),
            decreases n - i,
        {
            let m = self.default_unlock_period[i];
            out.push(
                UnlockMilestone {
                    unlock_epoch: m.unlock_epoch + current_epoch,
                    unlock_percent: m.unlock_percent,
                },
            );
            proof {
                assert(out@ =~= offset_schedule(self.default_period(), current_epoch).take(
                    i as int + 1,
                ));
            }
            i = i + 1;
        }
        proof {
            assert(out@ =~= offset_schedule(self.default_period(), current_epoch));
        }
        out
    }

    fn is_whitelisted(&self, address: u64) -> (r: bool)
        ensures
            r <==> self.whitelist().contains(address),
    {
        let n = self.whitelisted_contracts.len();
        let mut i: usize = 0;
        while i < n
            invariant
                0 <= i <= n,
                n == self.whitelist().len(),
                forall|j: int| 0 <= j < i ==> self.whitelist()[j] != address,
            decreases n - i,
        {
            if self.whitelisted_contracts[i] == address {
                return true;
            }
            i = i + 1;
        }
        false
    }

    /// Looks the schedule up in the cache; on a hit more quantity of the
    /// cached position is decided, on a miss a new position is created and
    /// cached.
    fn create_or_add_quantity(
        &mut self,
        address: u64,
        amount: u64,
        schedule: Vec<UnlockMilestone>,
    ) -> (r: Result<CreateAndForwardOutcome, ContractError>)
        requires
            old(self).wf(),
            old(self).spec_locked_token_id().is_some(),
            old(self).spec_locked_token_nonce() < u64::MAX,
            amount > 0,
        ensures
            final(self).wf(),
            r.is_ok(),
            r matches Ok(o) ==> create_and_forward_applied(
                *old(self),
                *final(self),
                o,
                address,
                amount,
                schedule@,
            ),
    {
        let token_id = self.locked_asset.token_id_or_zero();
        let n = self.cache_entries.len();
        let mut i: usize = 0;
        while i < n
            invariant
                0 <= i <= n,
                n == self.cache().len(),
                *self == *old(self),
                self.wf(),
                amount > 0,
                Some(token_id) == old(self).spec_locked_token_id(),
                forall|j: int| 0 <= j < i ==> (#[trigger] self.cache_entries@[j]).0@ != schedule@,
            decreases n - i,
        {
            proof {
                assert(self.cache()[i as int] == (
                    self.cache_entries@[i as int].0@,
                    self.cache_entries@[i as int].1,
                ));
            }
            if milestones_eq(&self.cache_entries[i].0, &schedule) {
                let cached_nonce = self.cache_entries[i].1;
                return Ok(
                    CreateAndForwardOutcome::AddQuantity {
                        token_id,
                        token_nonce: cached_nonce,
                        amount,
                        transfer: TokenTransfer {
                            token_id,
                            token_nonce: cached_nonce,
                            amount,
                            to: address,
                        },
                    },
                );
            }
            i = i + 1;
        }
        let pair = self.locked_asset.create_and_send_locked_assets(address, amount, &schedule);
        match pair {
            Some((create, transfer)) => {
                let new_nonce = create.token_nonce;
                self.cache_entries.push((schedule, new_nonce));
                proof {
                    assert(self.cache() =~= old(self).cache().push((create.unlock_milestones@, new_nonce)));
                    assert(forall|j: int|
                        0 <= j < old(self).cache().len() ==> (#[trigger] self.cache()[j]) == old(self).cache()[j]);
                }
                Ok(CreateAndForwardOutcome::CreateNew { create, transfer })
            },
            None => {
                proof {
                    assert(false);
                }
                Err(ContractError::StateError)
            },
        }
    }
}

/// What a create-and-forward request did: on a cache hit the cached nonce
/// was topped up and nothing changed; on a miss a new position was created
/// under the next nonce and the cache grew by its schedule.
pub open spec fn create_and_forward_applied(
    pre: LockedAssetFactory,
    post: LockedAssetFactory,
    o: CreateAndForwardOutcome,
    address: u64,
    amount: u64,
    schedule: Seq<UnlockMilestone>,
) -> bool {
    let token = pre.spec_locked_token_id().unwrap();
    &&& pre.same_admin_state(post)
    &&& match o {
        CreateAndForwardOutcome::AddQuantity { token_id, token_nonce, amount: a, transfer } => {
            &&& post.cache() == pre.cache()
            &&& post.spec_locked_token_nonce() == pre.spec_locked_token_nonce()
            &&& token_id == token
            &&& a == amount
            &&& (exists|i: int|
                0 <= i < pre.cache().len() && (#[trigger] pre.cache()[i]).0 == schedule
                    && pre.cache()[i].1 == token_nonce)
            &&& transfer == (TokenTransfer { token_id: token, token_nonce, amount, to: address })
        },
        CreateAndForwardOutcome::CreateNew { create, transfer } => {
            &&& (forall|i: int| 0 <= i < pre.cache().len() ==> (#[trigger] pre.cache()[i]).0
                != schedule)
            &&& post.spec_locked_token_nonce() == pre.spec_locked_token_nonce() + 1
            &&& post.cache() == pre.cache().push((schedule, post.spec_locked_token_nonce()))
            &&& create.token_id == token
            &&& create.token_nonce == post.spec_locked_token_nonce()
            &&& create.amount == amount
            &&& create.unlock_milestones@ == schedule
            &&& transfer == (TokenTransfer {
                token_id: token,
                token_nonce: post.spec_locked_token_nonce(),
                amount,
                to: address,
            })
        },
    }
}

} // verus!
