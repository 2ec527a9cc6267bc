//! The community distribution (vesting) ledger.
//!
//! Rounds of community distributions are registered in chronological order,
//! per-user amounts are allocated out of each round's planned total, and
//! users later claim what was allocated to them.  Only the most recent few
//! rounds stay claimable; older entries are purged.

use vstd::prelude::*;

use crate::asset::AssetModule;
use crate::errors::ContractError;
use crate::global_op::GlobalOperationModule;
use crate::locked_asset::{LockedAssetModule, SftCreate};
use crate::asset::{TokenMint, TokenTransfer};
use crate::kvmap::{
    keys_unique, lemma_map_view_contains, lemma_map_view_get, lemma_map_view_push,
    lemma_map_view_remove, map_view,
};
use crate::schedule::{valid_schedule, validate_unlock_milestones, UnlockMilestone};

verus! {

/// How many of the most recent rounds a claim may scan.
pub const MAX_CLAIMABLE_DISTRIBUTION_ROUNDS: usize = 4;

/// Storage key of one user's allocation in one round.
#[derive(Clone, Copy, Debug, PartialEq, Eq, Structural, Hash)]
pub struct UserAssetKey {
    pub user_address: u64,
    pub spread_epoch: u64,
    pub locked_asset: bool,
}

/// One chronologically ordered batch of tokens to distribute at
/// `spread_epoch`.  `after_planning_amount` starts at `total_amount` and is
/// decremented as per-user allocations are registered; it never goes
/// negative.
#[derive(Debug)]
pub struct CommunityDistribution {
    pub total_amount: u64,
    pub spread_epoch: u64,
    pub after_planning_amount: u64,
    pub unlock_milestones: Vec<UnlockMilestone>,
}

/// The spread epoch of the most recent round, zero when no round exists: a
/// fresh ledger behaves as if a round at epoch zero were already registered,
/// so the first real round must spread strictly after epoch zero.
pub open spec fn front_spread_epoch(rounds: Seq<CommunityDistribution>) -> u64 {
    if rounds.len() == 0 {
        0u64
    } else {
        rounds[0].spread_epoch
    }
}

/// Front-most round first: spread epochs strictly decrease along the list.
pub open spec fn rounds_chronological(rounds: Seq<CommunityDistribution>) -> bool {
    forall|i: int, j: int|
        0 <= i < j < rounds.len() ==> (#[trigger] rounds[i]).spread_epoch > (
        #[trigger] rounds[j]).spread_epoch
}

/// The storage key under which `user`'s allocation for a round is held.
pub open spec fn alloc_key(user: u64, spread_epoch: u64, locked: bool) -> UserAssetKey {
    UserAssetKey { user_address: user, spread_epoch, locked_asset: locked }
}

/// Sum of the amounts of an allocation batch.
pub open spec fn batch_total(pairs: Seq<(u64, u64)>) -> int
    decreases pairs.len(),
{
    if pairs.len() == 0 {
        0
    } else {
        batch_total(pairs.drop_last()) + pairs.last().1
    }
}

/// The allocation entries an accepted batch adds, in order.
pub open spec fn batch_entries(pairs: Seq<(u64, u64)>, spread_epoch: u64, locked: bool) -> Seq<
    (UserAssetKey, u64),
> {
    pairs.map_values(|p: (u64, u64)| (alloc_key(p.0, spread_epoch, locked), p.1))
}

/// The first failure an allocation batch runs into, walking the pairs in
/// order against the map `m` and the amount still available: over-allocation
/// when an amount exceeds what is left, a duplicate when the key already
/// exists, `None` when the whole batch is acceptable.
pub open spec fn batch_error(
    m: Map<UserAssetKey, u64>,
    remaining: int,
    pairs: Seq<(u64, u64)>,
    spread_epoch: u64,
    locked: bool,
) -> Option<ContractError>
    decreases pairs.len(),
{
    if pairs.len() == 0 {
        None
    } else {
        let key = alloc_key(pairs[0].0, spread_epoch, locked);
        if remaining < pairs[0].1 {
            Some(ContractError::OverAllocationError)
        } else if m.dom().contains(key) {
            Some(ContractError::DuplicateEntryError)
        } else {
            batch_error(
                m.insert(key, pairs[0].1),
                remaining - pairs[0].1,
                pairs.drop_first(),
                spread_epoch,
                locked,
            )
        }
    }
}

/// The error an allocation endpoint reports, by check order: permission,
/// planning flag, empty round list, empty batch, wrong round, then the first
/// batch failure.
pub open spec fn allocate_error_of(
    pre: EsdtDistribution,
    caller: u64,
    spread_epoch: u64,
    pairs: Seq<(u64, u64)>,
    locked: bool,
) -> ContractError {
    if caller != pre.spec_owner() {
        ContractError::PermissionError
    } else if !pre.spec_ongoing() {
        ContractError::StateError
    } else if pre.rounds().len() == 0 {
        ContractError::StateError
    } else if pairs.len() == 0 {
        ContractError::ValidationError
    } else if spread_epoch != pre.rounds()[0].spread_epoch {
        ContractError::ValidationError
    } else {
        batch_error(
            pre.user_assets(),
            pre.rounds()[0].after_planning_amount as int,
            pairs,
            spread_epoch,
            locked,
        ).unwrap()
    }
}

/// What an accepted allocation batch does to the ledger: the entries are
/// appended in order, the front round's planning amount shrinks by the batch
/// total, and nothing else changes.
pub open spec fn allocate_applied(
    pre: EsdtDistribution,
    post: EsdtDistribution,
    pairs: Seq<(u64, u64)>,
    spread_epoch: u64,
    locked: bool,
) -> bool {
    &&& post.entries() == pre.entries() + batch_entries(pairs, spread_epoch, locked)
    &&& post.rounds() == pre.rounds().update(
        0,
        CommunityDistribution {
            total_amount: pre.rounds()[0].total_amount,
            spread_epoch: pre.rounds()[0].spread_epoch,
            after_planning_amount: (pre.rounds()[0].after_planning_amount - batch_total(
                pairs,
            )) as u64,
            unlock_milestones: pre.rounds()[0].unlock_milestones,
        },
    )
    &&& pre.same_admin_state(post)
}

/// A batch that passes all its checks holds no key already present and no
/// key twice, so appending it keeps the entry keys unique.
proof fn lemma_batch_success_unique(
    s: Seq<(UserAssetKey, u64)>,
    remaining: int,
    pairs: Seq<(u64, u64)>,
    spread_epoch: u64,
    locked: bool,
)
    requires
        keys_unique(s),
        batch_error(map_view(s), remaining, pairs, spread_epoch, locked).is_none(),
    ensures
        keys_unique(s + batch_entries(pairs, spread_epoch, locked)),
    decreases pairs.len(),
{
    if pairs.len() == 0 {
        assert(s + batch_entries(pairs, spread_epoch, locked) =~= s);
    } else {
        let key = alloc_key(pairs[0].0, spread_epoch, locked);
        let e0 = (key, pairs[0].1);
        lemma_map_view_contains(s, key);
        assert(keys_unique(s.push(e0))) by {
            assert(forall|l: int| 0 <= l < s.len() ==> (#[trigger] s.push(e0)[l]) == s[l]);
            assert(s.push(e0)[s.len() as int] == e0);
        }
        lemma_map_view_push(s, key, pairs[0].1);
        lemma_batch_success_unique(
            s.push(e0),
            remaining - pairs[0].1,
            pairs.drop_first(),
            spread_epoch,
            locked,
        );
        assert(s + batch_entries(pairs, spread_epoch, locked) =~= s.push(e0) + batch_entries(
            pairs.drop_first(),
            spread_epoch,
            locked,
        ));
    }
}

/// What a user can claim: walking at most `k` rounds from the front, every
/// round already spread (`spread_epoch <= now`) in which the user holds an
/// entry contributes its amount and the round's unlock schedule.
pub open spec fn claim_list(
    rounds: Seq<CommunityDistribution>,
    m: Map<UserAssetKey, u64>,
    addr: u64,
    now: u64,
    locked: bool,
    k: nat,
) -> Seq<(u64, Seq<UnlockMilestone>)>
    decreases rounds.len(),
{
    if rounds.len() == 0 || k == 0 {
        Seq::empty()
    } else {
        let head = rounds[0];
        let key = alloc_key(addr, head.spread_epoch, locked);
        let rest = claim_list(rounds.drop_first(), m, addr, now, locked, (k - 1) as nat);
        if head.spread_epoch <= now && m.dom().contains(key) {
            seq![(m[key], head.unlock_milestones@)] + rest
        } else {
            rest
        }
    }
}

/// The allocation map after a claim deletes what it collected.
pub open spec fn claim_removed(
    rounds: Seq<CommunityDistribution>,
    m: Map<UserAssetKey, u64>,
    addr: u64,
    now: u64,
    locked: bool,
    k: nat,
) -> Map<UserAssetKey, u64>
    decreases rounds.len(),
{
    if rounds.len() == 0 || k == 0 {
        m
    } else {
        let head = rounds[0];
        let key = alloc_key(addr, head.spread_epoch, locked);
        if head.spread_epoch <= now && m.dom().contains(key) {
            claim_removed(rounds.drop_first(), m.remove(key), addr, now, locked, (k - 1) as nat)
        } else {
            claim_removed(rounds.drop_first(), m, addr, now, locked, (k - 1) as nat)
        }
    }
}

/// Total amount over a claim list.
pub open spec fn claim_cumulated(cl: Seq<(u64, Seq<UnlockMilestone>)>) -> int
    decreases cl.len(),
{
    if cl.len() == 0 {
        0
    } else {
        claim_cumulated(cl.drop_last()) + cl.last().0
    }
}

/// The claims that actually mint something: those with a positive amount.
pub open spec fn positive_claims(cl: Seq<(u64, Seq<UnlockMilestone>)>) -> Seq<
    (u64, Seq<UnlockMilestone>),
>
    decreases cl.len(),
{
    if cl.len() == 0 {
        Seq::empty()
    } else {
        positive_claims(cl.drop_last()) + if cl.last().0 > 0 {
            seq![cl.last()]
        } else {
            Seq::empty()
        }
    }
}

/// Two maps that agree on every key a round scan can look up produce the
/// same claims.
proof fn lemma_claim_list_agree(
    rounds: Seq<CommunityDistribution>,
    m1: Map<UserAssetKey, u64>,
    m2: Map<UserAssetKey, u64>,
    addr: u64,
    now: u64,
    locked: bool,
    k: nat,
)
    requires
        forall|j: int|
            0 <= j < rounds.len() ==> {
                let kj = alloc_key(addr, (#[trigger] rounds[j]).spread_epoch, locked);
                (m1.dom().contains(kj) <==> m2.dom().contains(kj)) && (m1.dom().contains(kj)
                    ==> m1[kj] == m2[kj])
            },
    ensures
        claim_list(rounds, m1, addr, now, locked, k) == claim_list(rounds, m2, addr, now, locked, k),
    decreases rounds.len(),
{
    if rounds.len() > 0 && k > 0 {
        assert(rounds[0] == rounds[0]);
        assert(forall|j: int|
            0 <= j < rounds.drop_first().len() ==> (#[trigger] rounds.drop_first()[j])
                == rounds[j + 1]);
        lemma_claim_list_agree(rounds.drop_first(), m1, m2, addr, now, locked, (k - 1) as nat);
    }
}

pub proof fn lemma_claim_list_len(
    rounds: Seq<CommunityDistribution>,
    m: Map<UserAssetKey, u64>,
    addr: u64,
    now: u64,
    locked: bool,
    k: nat,
)
    ensures
        claim_list(rounds, m, addr, now, locked, k).len() <= k,
    decreases rounds.len(),
{
    if rounds.len() > 0 && k > 0 {
        lemma_claim_list_len(rounds.drop_first(), m, addr, now, locked, (k - 1) as nat);
    }
}

pub proof fn lemma_claim_cumulated_bound(cl: Seq<(u64, Seq<UnlockMilestone>)>)
    ensures
        0 <= claim_cumulated(cl),
        claim_cumulated(cl) <= cl.len() * 0xffff_ffff_ffff_ffff,
    decreases cl.len(),
{
    if cl.len() > 0 {
        lemma_claim_cumulated_bound(cl.drop_last());
        assert((cl.len() - 1) * 0xffff_ffff_ffff_ffff + 0xffff_ffff_ffff_ffff == cl.len()
            * 0xffff_ffff_ffff_ffff) by (nonlinear_arith);
    }
}

/// Whether an allocation key belongs to a round in `[lower, higher]`.
pub open spec fn epoch_in_range(k: UserAssetKey, lower: u64, higher: u64) -> bool {
    lower <= k.spread_epoch && k.spread_epoch <= higher
}

/// The entries left after a purge scan that examines at most `scan` entries
/// from the front and removes those whose round lies in `[lower, higher]`.
pub open spec fn purge_kept(
    entries: Seq<(UserAssetKey, u64)>,
    lower: u64,
    higher: u64,
    scan: int,
) -> Seq<(UserAssetKey, u64)>
    decreases entries.len(),
{
    if entries.len() == 0 {
        Seq::empty()
    } else if scan <= 0 {
        entries
    } else if epoch_in_range(entries[0].0, lower, higher) {
        purge_kept(entries.drop_first(), lower, higher, scan - 1)
    } else {
        seq![entries[0]] + purge_kept(entries.drop_first(), lower, higher, scan - 1)
    }
}

/// How many entries that same scan removes.
pub open spec fn purge_count(
    entries: Seq<(UserAssetKey, u64)>,
    lower: u64,
    higher: u64,
    scan: int,
) -> int
    decreases entries.len(),
{
    if entries.len() == 0 || scan <= 0 {
        0
    } else if epoch_in_range(entries[0].0, lower, higher) {
        1 + purge_count(entries.drop_first(), lower, higher, scan - 1)
    } else {
        purge_count(entries.drop_first(), lower, higher, scan - 1)
    }
}

/// Sum of a sequence of amounts.
pub open spec fn sum_amounts(s: Seq<u64>) -> int
    decreases s.len(),
{
    if s.len() == 0 {
        0
    } else {
        sum_amounts(s.drop_last()) + s.last()
    }
}

proof fn lemma_sum_matches(a: Seq<u64>, cl: Seq<(u64, Seq<UnlockMilestone>)>)
    requires
        a.len() == cl.len(),
        forall|i: int| 0 <= i < a.len() ==> a[i] == (#[trigger] cl[i]).0,
    ensures
        sum_amounts(a) == claim_cumulated(cl),
    decreases a.len(),
{
    if a.len() > 0 {
        assert(forall|i: int|
            0 <= i < a.drop_last().len() ==> (#[trigger] a.drop_last()[i]) == a[i]);
        assert(forall|i: int|
            0 <= i < cl.drop_last().len() ==> (#[trigger] cl.drop_last()[i]) == cl[i]);
        lemma_sum_matches(a.drop_last(), cl.drop_last());
        assert(a.last() == a[a.len() - 1] && cl.last() == cl[a.len() - 1]);
    }
}

proof fn lemma_sum_amounts_bound(s: Seq<u64>)
    ensures
        0 <= sum_amounts(s),
        sum_amounts(s) <= s.len() * 0xffff_ffff_ffff_ffff,
    decreases s.len(),
{
    if s.len() > 0 {
        lemma_sum_amounts_bound(s.drop_last());
        assert((s.len() - 1) * 0xffff_ffff_ffff_ffff + 0xffff_ffff_ffff_ffff == s.len()
            * 0xffff_ffff_ffff_ffff) by (nonlinear_arith);
    }
}

/// Sums a short list of amounts without overflow.
fn sum_of(v: &Vec<u64>) -> (r: u128)
    requires
        v@.len() <= 8,
    ensures
        r as int == sum_amounts(v@),
{
    let n = v.len();
    let mut sum: u128 = 0;
    let mut i: usize = 0;
    while i < n
        invariant
            0 <= i <= n,
            n == v@.len(),
            n <= 8,
            sum as int == sum_amounts(v@.take(i as int)),
            sum as int <= i * 0xffff_ffff_ffff_ffff,
        decreases n - i,
    {
        proof {
            assert(v@.take(i as int + 1).drop_last() =~= v@.take(i as int));
            assert(v@.take(i as int + 1).last() == v@[i as int]);
        }
        sum = sum + v[i] as u128;
        i = i + 1;
    }
    proof {
        assert(v@.take(n as int) =~= v@);
    }
    sum
}

/// Looks a key up in the entry list.
fn find_entry(entries: &Vec<(UserAssetKey, u64)>, key: UserAssetKey) -> (r: Option<usize>)
    ensures
        r matches Some(i) ==> i < entries@.len() && entries@[i as int].0 == key,
        r.is_none() ==> forall|i: int| 0 <= i < entries@.len() ==> (#[trigger] entries@[i]).0
            != key,
{
    let n = entries.len();
    let mut i: usize = 0;
    while i < n
        invariant
            0 <= i <= n,
            n == entries@.len(),
            forall|j: int| 0 <= j < i ==> (#[trigger] entries@[j]).0 != key,
        decreases n - i,
    {
        if entries[i].0 == key {
            return Some(i);
        }
        i = i + 1;
    }
    None
}

/// The vesting ledger contract: distribution rounds, per-user allocations,
/// the global-operation flag and the two token modules it pays out with.
pub struct EsdtDistribution {
    owner: u64,
    asset: AssetModule,
    global_operation: GlobalOperationModule,
    locked_asset: LockedAssetModule,
    community_distribution_list: Vec<CommunityDistribution>,
    user_asset_entries: Vec<(UserAssetKey, u64)>,
}

impl EsdtDistribution {
    pub closed spec fn spec_owner(self) -> u64 {
        self.owner
    }

    pub closed spec fn spec_ongoing(self) -> bool {
        self.global_operation.is_ongoing()
    }

    pub closed spec fn rounds(self) -> Seq<CommunityDistribution> {
        self.community_distribution_list@
    }

    pub closed spec fn entries(self) -> Seq<(UserAssetKey, u64)> {
        self.user_asset_entries@
    }

    /// The allocation map this ledger holds.
    pub open spec fn user_assets(self) -> Map<UserAssetKey, u64> {
        map_view(self.entries())
    }

    pub closed spec fn spec_asset_token_id(self) -> u64 {
        self.asset.token_id
    }

    pub closed spec fn spec_locked_token_id(self) -> Option<u64> {
        self.locked_asset.spec_token_id()
    }

    pub closed spec fn spec_locked_token_nonce(self) -> u64 {
        self.locked_asset.spec_token_nonce()
    }

    /// Well-formedness: allocation keys are unique and rounds are listed
    /// most-recent first.
    pub open spec fn wf(self) -> bool {
        &&& keys_unique(self.entries())
        &&& rounds_chronological(self.rounds())
    }

    /// Everything except the distribution list and the allocation map is
    /// unchanged.
    pub open spec fn same_admin_state(self, other: EsdtDistribution) -> bool {
        &&& self.spec_owner() == other.spec_owner()
        &&& self.spec_ongoing() == other.spec_ongoing()
        &&& self.spec_asset_token_id() == other.spec_asset_token_id()
        &&& self.spec_locked_token_id() == other.spec_locked_token_id()
        &&& self.spec_locked_token_nonce() == other.spec_locked_token_nonce()
    }

    /// A fresh ledger distributing `asset_token_id`, owned by `owner`.
    pub fn new(owner: u64, asset_token_id: u64) -> (r: EsdtDistribution)
        ensures
            r.wf(),
            r.spec_owner() == owner,
            !r.spec_ongoing(),
            r.rounds().len() == 0,
            r.entries().len() == 0,
            r.spec_asset_token_id() == asset_token_id,
            r.spec_locked_token_id().is_none(),
            r.spec_locked_token_nonce() == 0,
    {
        EsdtDistribution {
            owner,
            asset: AssetModule::new(asset_token_id),
            global_operation: GlobalOperationModule::new(),
            locked_asset: LockedAssetModule::new(),
            community_distribution_list: Vec::new(),
            user_asset_entries: Vec::new(),
        }
    }

    /// Owner-only: start the global planning operation.
    pub fn start_planning(&mut self, caller: u64) -> (r: Result<(), ContractError>)
        ensures
            r.is_ok() <==> caller == old(self).spec_owner(),
            r.is_err() ==> *final(self) == *old(self) && r == Err::<(), ContractError>(
                ContractError::PermissionError,
            ),
            r.is_ok() ==> final(self).spec_ongoing() && final(self).rounds() == old(self).rounds()
                && final(self).entries() == old(self).entries() && final(self).spec_owner() == old(self).spec_owner() && final(self).spec_asset_token_id() == old(self).spec_asset_token_id()
                && final(self).spec_locked_token_id() == old(self).spec_locked_token_id() && final(self).spec_locked_token_nonce() == old(self).spec_locked_token_nonce(),
    {
        if caller != self.owner {
            return Err(ContractError::PermissionError);
        }
        self.global_operation.start();
        Ok(())
    }

    /// Owner-only: end the global planning operation.
    pub fn end_planning(&mut self, caller: u64) -> (r: Result<(), ContractError>)
        ensures
            r.is_ok() <==> caller == old(self).spec_owner(),
            r.is_err() ==> *final(self) == *old(self) && r == Err::<(), ContractError>(
                ContractError::PermissionError,
            ),
            r.is_ok() ==> !final(self).spec_ongoing() && final(self).rounds() == old(self).rounds()
                && final(self).entries() == old(self).entries() && final(self).spec_owner() == old(self).spec_owner() && final(self).spec_asset_token_id() == old(self).spec_asset_token_id()
                && final(self).spec_locked_token_id() == old(self).spec_locked_token_id() && final(self).spec_locked_token_nonce() == old(self).spec_locked_token_nonce(),
    {
        if caller != self.owner {
            return Err(ContractError::PermissionError);
        }
        self.global_operation.stop();
        Ok(())
    }

    /// Owner-only, during planning: registers a new community distribution
    /// round.  The round must lie at or after the current epoch, strictly
    /// after the most recent round (a fresh ledger counts as a round at
    /// epoch zero, so the first round must spread after that), and carry a
    /// well-formed schedule.
    pub fn set_community_distrib(
        &mut self,
        caller: u64,
        current_epoch: u64,
        total_amount: u64,
        spread_epoch: u64,
        unlock_milestones: Vec<UnlockMilestone>,
    ) -> (r: Result<(), ContractError>)
        requires
            old(self).wf(),
        ensures
            final(self).wf(),
            r.is_err() ==> *final(self) == *old(self),
            r.is_ok() <==> caller == old(self).spec_owner() && old(self).spec_ongoing() && (
            spread_epoch >= current_epoch) && front_spread_epoch(old(self).rounds())
                < spread_epoch && valid_schedule(unlock_milestones@),
            r.is_err() ==> r == Err::<(), ContractError>(
                if caller != old(self).spec_owner() {
                    ContractError::PermissionError
                } else if !old(self).spec_ongoing() {
                    ContractError::StateError
                } else if spread_epoch < current_epoch || front_spread_epoch(old(self).rounds())
                    >= spread_epoch {
                    ContractError::ChronologyError
                } else {
                    ContractError::InvalidScheduleError
                },
            ),
            r.is_ok() ==> final(self).rounds().len() == old(self).rounds().len() + 1 && final(self).rounds()[0].total_amount == total_amount && final(self).rounds()[0].spread_epoch
                == spread_epoch && final(self).rounds()[0].after_planning_amount == total_amount
                && final(self).rounds()[0].unlock_milestones@ == unlock_milestones@ && final(self).rounds().skip(1) == old(self).rounds() && final(self).entries() == old(self).entries() && old(self).same_admin_state(*final(self)),
    {
        if caller != self.owner {
            return Err(ContractError::PermissionError);
        }
        if let Err(e) = self.global_operation.require_ongoing() {
            return Err(e);
        }
        if spread_epoch < current_epoch {
            return Err(ContractError::ChronologyError);
        }
        let front_epoch = if self.community_distribution_list.len() > 0 {
            self.community_distribution_list[0].spread_epoch
        } else {
            0
        };
        if front_epoch >= spread_epoch {
            return Err(ContractError::ChronologyError);
        }
        if let Err(e) = validate_unlock_milestones(&unlock_milestones) {
            return Err(e);
        }
        let distrib = CommunityDistribution {
            total_amount,
            spread_epoch,
            after_planning_amount: total_amount,
            unlock_milestones,
        };
        self.community_distribution_list.insert(0, distrib);
        proof {
            let rounds = self.community_distribution_list@;
            let old_rounds = old(self).rounds();
            assert(rounds.skip(1) =~= old_rounds);
            assert(rounds_chronological(rounds)) by {
                assert(forall|j: int|
                    1 <= j < rounds.len() ==> (#[trigger] rounds[j]).spread_epoch == old_rounds[
                        j - 1].spread_epoch);
                assert(forall|j: int|
                    1 <= j < rounds.len() ==> (#[trigger] rounds[j]).spread_epoch < spread_epoch);
            }
        }
        Ok(())
    }

    /// Owner-only, during planning: removes the most recent round.
    pub fn undo_last_community_distrib(&mut self, caller: u64) -> (r: Result<(), ContractError>)
        requires
            old(self).wf(),
        ensures
            final(self).wf(),
            r.is_err() ==> *final(self) == *old(self),
            r.is_ok() <==> caller == old(self).spec_owner() && old(self).spec_ongoing() && old(self).rounds().len() > 0,
            r.is_err() ==> r == Err::<(), ContractError>(
                if caller != old(self).spec_owner() {
                    ContractError::PermissionError
                } else {
                    ContractError::StateError
                },
            ),
            r.is_ok() ==> final(self).rounds() == old(self).rounds().skip(1) && final(self).entries() == old(self).entries() && old(self).same_admin_state(*final(self)),
    {
        if caller != self.owner {
            return Err(ContractError::PermissionError);
        }
        if let Err(e) = self.global_operation.require_ongoing() {
            return Err(e);
        }
        if self.community_distribution_list.len() == 0 {
            return Err(ContractError::StateError);
        }
        self.community_distribution_list.remove(0);
        proof {
            assert(self.community_distribution_list@ =~= old(self).rounds().skip(1));
            assert(rounds_chronological(self.community_distribution_list@));
        }
        Ok(())
    }

    /// Owner-only, during planning: registers per-user amounts for the most
    /// recent round, to be claimed as plain assets.
    pub fn set_per_user_distributed_assets(
        &mut self,
        caller: u64,
        spread_epoch: u64,
        user_assets: &Vec<(u64, u64)>,
    ) -> (r: Result<(), ContractError>)
        requires
            old(self).wf(),
        ensures
            final(self).wf(),
            r.is_err() ==> *final(self) == *old(self),
            r.is_ok() <==> caller == old(self).spec_owner() && old(self).spec_ongoing() && old(
                self,
            ).rounds().len() > 0 && user_assets@.len() > 0 && spread_epoch == old(
                self,
            ).rounds()[0].spread_epoch && batch_error(
                old(self).user_assets(),
                old(self).rounds()[0].after_planning_amount as int,
                user_assets@,
                spread_epoch,
                false,
            ).is_none(),
            r.is_err() ==> r == Err::<(), ContractError>(
                allocate_error_of(*old(self), caller, spread_epoch, user_assets@, false),
            ),
            r.is_ok() ==> allocate_applied(*old(self), *final(self), user_assets@, spread_epoch, false),
    {
        if caller != self.owner {
            return Err(ContractError::PermissionError);
        }
        if let Err(e) = self.global_operation.require_ongoing() {
            return Err(e);
        }
        if self.community_distribution_list.len() == 0 {
            return Err(ContractError::StateError);
        }
        if user_assets.len() == 0 {
            return Err(ContractError::ValidationError);
        }
        self.add_all_user_assets_to_map(spread_epoch, user_assets, false)
    }

    /// Owner-only, during planning: registers per-user amounts for the most
    /// recent round, to be claimed as locked assets.  The round must carry a
    /// non-empty unlock schedule.
    pub fn set_per_user_distributed_locked_assets(
        &mut self,
        caller: u64,
        spread_epoch: u64,
        user_assets: &Vec<(u64, u64)>,
    ) -> (r: Result<(), ContractError>)
        requires
            old(self).wf(),
        ensures
            final(self).wf(),
            r.is_err() ==> *final(self) == *old(self),
            r.is_ok() <==> caller == old(self).spec_owner() && old(self).spec_ongoing() && old(
                self,
            ).rounds().len() > 0 && old(self).rounds()[0].unlock_milestones@.len() > 0
                && user_assets@.len() > 0 && spread_epoch == old(self).rounds()[0].spread_epoch
                && batch_error(
                old(self).user_assets(),
                old(self).rounds()[0].after_planning_amount as int,
                user_assets@,
                spread_epoch,
                true,
            ).is_none(),
            r.is_err() && caller == old(self).spec_owner() && old(self).spec_ongoing() && old(
                self,
            ).rounds().len() > 0 && old(self).rounds()[0].unlock_milestones@.len() == 0 ==> r
                == Err::<(), ContractError>(ContractError::StateError),
            r.is_err() && !(caller == old(self).spec_owner() && old(self).spec_ongoing() && old(
                self,
            ).rounds().len() > 0 && old(self).rounds()[0].unlock_milestones@.len() == 0) ==> r
                == Err::<(), ContractError>(
                allocate_error_of(*old(self), caller, spread_epoch, user_assets@, true),
            ),
            r.is_ok() ==> allocate_applied(*old(self), *final(self), user_assets@, spread_epoch, true),
    {
        if caller != self.owner {
            return Err(ContractError::PermissionError);
        }
        if let Err(e) = self.global_operation.require_ongoing() {
            return Err(e);
        }
        if self.community_distribution_list.len() == 0 {
            return Err(ContractError::StateError);
        }
        if self.community_distribution_list[0].unlock_milestones.len() == 0 {
            return Err(ContractError::StateError);
        }
        if user_assets.len() == 0 {
            return Err(ContractError::ValidationError);
        }
        self.add_all_user_assets_to_map(spread_epoch, user_assets, true)
    }

    /// Registers one batch of (user, amount) allocations against the front
    /// round, atomically: on any failure nothing changes.
    fn add_all_user_assets_to_map(
        &mut self,
        spread_epoch: u64,
        user_assets: &Vec<(u64, u64)>,
        locked_assets: bool,
    ) -> (r: Result<(), ContractError>)
        requires
            old(self).wf(),
            old(self).rounds().len() > 0,
        ensures
            final(self).wf(),
            r.is_err() ==> *final(self) == *old(self),
            r.is_ok() <==> spread_epoch == old(self).rounds()[0].spread_epoch && batch_error(
                old(self).user_assets(),
                old(self).rounds()[0].after_planning_amount as int,
                user_assets@,
                spread_epoch,
                locked_assets,
            ).is_none(),
            r.is_err() ==> r == Err::<(), ContractError>(
                if spread_epoch != old(self).rounds()[0].spread_epoch {
                    ContractError::ValidationError
                } else {
                    batch_error(
                        old(self).user_assets(),
                        old(self).rounds()[0].after_planning_amount as int,
                        user_assets@,
                        spread_epoch,
                        locked_assets,
                    ).unwrap()
                },
            ),
            r.is_ok() ==> allocate_applied(
                *old(self),
                *final(self),
                user_assets@,
                spread_epoch,
                locked_assets,
            ),
    {
        let front_epoch = self.community_distribution_list[0].spread_epoch;
        if spread_epoch != front_epoch {
            return Err(ContractError::ValidationError);
        }
        let front_after = self.community_distribution_list[0].after_planning_amount;
        let ghost old_entries = self.user_asset_entries@;
        let ghost pairs = user_assets@;
        let n = user_assets.len();
        let mut remaining: u64 = front_after;
        let mut i: usize = 0;
        proof {
            assert(batch_entries(pairs.take(0), spread_epoch, locked_assets) =~= Seq::<
                (UserAssetKey, u64),
            >::empty());
            assert(old_entries + batch_entries(pairs.take(0), spread_epoch, locked_assets)
                =~= old_entries);
            assert(pairs.skip(0) =~= pairs);
            assert(batch_total(pairs.take(0)) == 0);
        }
        while i < n
            invariant
                0 <= i <= n,
                n == pairs.len(),
                pairs == user_assets@,
                old_entries == self.user_asset_entries@,
                *self == *old(self),
                self.wf(),
                front_after == old(self).rounds()[0].after_planning_amount,
                spread_epoch == old(self).rounds()[0].spread_epoch,
                old(self).rounds().len() > 0,
                remaining as int == front_after - batch_total(pairs.take(i as int)),
                remaining >= 0,
                batch_error(
                    map_view(old_entries),
                    front_after as int,
                    pairs,
                    spread_epoch,
                    locked_assets,
                ) == batch_error(
                    map_view(old_entries + batch_entries(pairs.take(i as int), spread_epoch, locked_assets)),
                    remaining as int,
                    pairs.skip(i as int),
                    spread_epoch,
                    locked_assets,
                ),
            decreases n - i,
        {
            let ghost prefix = old_entries + batch_entries(
                pairs.take(i as int),
                spread_epoch,
                locked_assets,
            );
            proof {
                assert(pairs.skip(i as int).len() > 0);
                assert(pairs.skip(i as int)[0] == pairs[i as int]);
            }
            let (user, amount) = user_assets[i];
            let key = UserAssetKey {
                user_address: user,
                spread_epoch,
                locked_asset: locked_assets,
            };
            if remaining < amount {
                proof {
                    assert(alloc_key(pairs.skip(i as int)[0].0, spread_epoch, locked_assets)
                        == key);
                    assert(batch_error(
                        map_view(prefix),
                        remaining as int,
                        pairs.skip(i as int),
                        spread_epoch,
                        locked_assets,
                    ) == Some(ContractError::OverAllocationError));
                }
                return Err(ContractError::OverAllocationError);
            }
            let in_map = find_entry(&self.user_asset_entries, key).is_some();
            let mut in_batch = false;
            let mut j: usize = 0;
            while j < i
                invariant
                    0 <= j <= i <= n,
                    n == pairs.len(),
                    pairs == user_assets@,
                    in_batch <==> exists|l: int| 0 <= l < j && (#[trigger] pairs[l]).0 == user,
                decreases i - j,
            {
                if user_assets[j].0 == user {
                    in_batch = true;
                }
                j = j + 1;
            }
            proof {
                lemma_map_view_contains(prefix, key);
                lemma_map_view_contains(old_entries, key);
                assert(batch_entries(pairs.take(i as int), spread_epoch, locked_assets).len()
                    == i as int);
                assert(forall|l: int|
                    0 <= l < i ==> prefix[old_entries.len() + l] == (#[trigger] batch_entries(
                        pairs.take(i as int),
                        spread_epoch,
                        locked_assets,
                    )[l]));
                assert(forall|l: int|
                    0 <= l < i ==> (#[trigger] batch_entries(
                        pairs.take(i as int),
                        spread_epoch,
                        locked_assets,
                    )[l]).0 == alloc_key(pairs.take(i as int)[l].0, spread_epoch, locked_assets));
                if in_map || in_batch {
                    if in_map {
                        let l = choose|l: int|
                            0 <= l < old_entries.len() && (#[trigger] old_entries[l]).0 == key;
                        assert(prefix[l].0 == key);
                    } else {
                        let l = choose|l: int| 0 <= l < i && (#[trigger] pairs[l]).0 == user;
                        assert(prefix[old_entries.len() + l].0 == key);
                    }
                    assert(map_view(prefix).dom().contains(key));
                } else {
                    assert(forall|l: int|
                        0 <= l < prefix.len() ==> (#[trigger] prefix[l]).0 != key) by {
                        assert(forall|l: int|
                            0 <= l < old_entries.len() ==> (#[trigger] prefix[l]) == old_entries[
                                l]);
                    }
                    assert(!map_view(prefix).dom().contains(key));
                }
            }
            if in_map || in_batch {
                proof {
                    assert(alloc_key(pairs.skip(i as int)[0].0, spread_epoch, locked_assets)
                        == key);
                    assert(batch_error(
                        map_view(prefix),
                        remaining as int,
                        pairs.skip(i as int),
                        spread_epoch,
                        locked_assets,
                    ) == Some(ContractError::DuplicateEntryError));
                }
                return Err(ContractError::DuplicateEntryError);
            }
            remaining = remaining - amount;
            proof {
                assert(pairs.take(i as int + 1).drop_last() =~= pairs.take(i as int));
                assert(pairs.take(i as int + 1).last() == pairs[i as int]);
                assert(batch_entries(pairs.take(i as int + 1), spread_epoch, locked_assets)
                    =~= batch_entries(pairs.take(i as int), spread_epoch, locked_assets).push(
                    (key, amount),
                ));
                assert(old_entries + batch_entries(
                    pairs.take(i as int + 1),
                    spread_epoch,
                    locked_assets,
                ) =~= prefix.push((key, amount)));
                lemma_map_view_push(prefix, key, amount);
                assert(pairs.skip(i as int).drop_first() =~= pairs.skip(i as int + 1));
            }
            i = i + 1;
        }
        proof {
            assert(pairs.take(n as int) =~= pairs);
            assert(pairs.skip(n as int).len() == 0);
        }
        // all checks passed; commit the batch
        let mut k: usize = 0;
        while k < n
            invariant
                0 <= k <= n,
                n == pairs.len(),
                pairs == user_assets@,
                self.user_asset_entries@ == old_entries + batch_entries(
                    pairs.take(k as int),
                    spread_epoch,
                    locked_assets,
                ),
                self.community_distribution_list@ == old(self).rounds(),
                old(self).same_admin_state(*self),
            decreases n - k,
        {
            let (user, amount) = user_assets[k];
            let key = UserAssetKey {
                user_address: user,
                spread_epoch,
                locked_asset: locked_assets,
            };
            self.user_asset_entries.push((key, amount));
            proof {
                assert(pairs.take(k as int + 1).drop_last() =~= pairs.take(k as int));
                assert(pairs.take(k as int + 1).last() == pairs[k as int]);
                assert(batch_entries(pairs.take(k as int + 1), spread_epoch, locked_assets)
                    =~= batch_entries(pairs.take(k as int), spread_epoch, locked_assets).push(
                    (key, amount),
                ));
                assert(self.user_asset_entries@ =~= old_entries + batch_entries(
                    pairs.take(k as int + 1),
                    spread_epoch,
                    locked_assets,
                ));
            }
            k = k + 1;
        }
        let mut front = self.community_distribution_list.remove(0);
        front.after_planning_amount = remaining;
        self.community_distribution_list.insert(0, front);
        proof {
            assert(pairs.take(n as int) =~= pairs);
            assert(self.community_distribution_list@ =~= old(self).rounds().update(
                0,
                CommunityDistribution {
                    total_amount: old(self).rounds()[0].total_amount,
                    spread_epoch: old(self).rounds()[0].spread_epoch,
                    after_planning_amount: remaining,
                    unlock_milestones: old(self).rounds()[0].unlock_milestones,
                },
            ));
            lemma_batch_success_unique(
                old_entries,
                front_after as int,
                pairs,
                spread_epoch,
                locked_assets,
            );
            assert(rounds_chronological(self.community_distribution_list@)) by {
                let rounds = self.community_distribution_list@;
                assert(forall|l: int|
                    0 <= l < rounds.len() ==> (#[trigger] rounds[l]).spread_epoch == old(
                        self,
                    ).rounds()[l].spread_epoch);
            }
        }
        Ok(())
    }

    /// Collects, front to back over at most the four most recent rounds, the
    /// user's claimable amounts and their unlock schedules; deletes the
    /// collected entries when `delete_after_visit` is set.  Rounds older than
    /// the retention window are never visited, whether or not their entries
    /// still exist.
    pub fn calculate_user_assets(
        &mut self,
        address: u64,
        current_epoch: u64,
        locked_asset: bool,
        delete_after_visit: bool,
    ) -> (r: (Vec<u64>, Vec<Vec<UnlockMilestone>>))
        requires
            old(self).wf(),
        ensures
            final(self).wf(),
            final(self).rounds() == old(self).rounds(),
            old(self).same_admin_state(*final(self)),
            ({
                let cl = claim_list(
                    old(self).rounds(),
                    old(self).user_assets(),
                    address,
                    current_epoch,
                    locked_asset,
                    MAX_CLAIMABLE_DISTRIBUTION_ROUNDS as nat,
                );
                &&& r.0@.len() == cl.len()
                &&& r.1@.len() == cl.len()
                &&& (forall|i: int| 0 <= i < cl.len() ==> r.0@[i] == (#[trigger] cl[i]).0)
                &&& (forall|i: int| 0 <= i < cl.len() ==> (#[trigger] r.1@[i])@ == cl[i].1)
            }),
            delete_after_visit ==> final(self).user_assets() == claim_removed(
                old(self).rounds(),
                old(self).user_assets(),
                address,
                current_epoch,
                locked_asset,
                MAX_CLAIMABLE_DISTRIBUTION_ROUNDS as nat,
            ),
            !delete_after_visit ==> *final(self) == *old(self),
    {
        let rounds_len = self.community_distribution_list.len();
        let end = if rounds_len < MAX_CLAIMABLE_DISTRIBUTION_ROUNDS {
            rounds_len
        } else {
            MAX_CLAIMABLE_DISTRIBUTION_ROUNDS
        };
        let ghost rounds0 = self.community_distribution_list@;
        let ghost m0 = map_view(self.user_asset_entries@);
        let ghost kmax = MAX_CLAIMABLE_DISTRIBUTION_ROUNDS as nat;
        let ghost cl = claim_list(rounds0, m0, address, current_epoch, locked_asset, kmax);
        let mut amounts: Vec<u64> = Vec::new();
        let mut milestones: Vec<Vec<UnlockMilestone>> = Vec::new();
        let ghost mut taken: Seq<(u64, Seq<UnlockMilestone>)> = Seq::empty();
        let mut i: usize = 0;
        proof {
            assert(rounds0.skip(0) =~= rounds0);
        }
        while i < end
            invariant
                0 <= i <= end,
                end as nat == if rounds0.len() < kmax {
                    rounds0.len()
                } else {
                    kmax
                },
                rounds0 == old(self).rounds(),
                m0 == old(self).user_assets(),
                cl == claim_list(rounds0, m0, address, current_epoch, locked_asset, kmax),
                self.community_distribution_list@ == rounds0,
                self.wf(),
                old(self).same_admin_state(*self),
                amounts@.len() == taken.len(),
                milestones@.len() == taken.len(),
                forall|j: int| 0 <= j < taken.len() ==> amounts@[j] == (#[trigger] taken[j]).0,
                forall|j: int| 0 <= j < taken.len() ==> (#[trigger] milestones@[j])@ == taken[
                    j].1,
                cl == taken + claim_list(
                    rounds0.skip(i as int),
                    map_view(self.user_asset_entries@),
                    address,
                    current_epoch,
                    locked_asset,
                    (kmax - i) as nat,
                ),
                delete_after_visit ==> claim_removed(
                    rounds0,
                    m0,
                    address,
                    current_epoch,
                    locked_asset,
                    kmax,
                ) == claim_removed(
                    rounds0.skip(i as int),
                    map_view(self.user_asset_entries@),
                    address,
                    current_epoch,
                    locked_asset,
                    (kmax - i) as nat,
                ),
                !delete_after_visit ==> *self == *old(self),
            decreases end - i,
        {
            let ghost suffix = rounds0.skip(i as int);
            let ghost suffix2 = rounds0.skip(i as int + 1);
            let ghost m_cur = map_view(self.user_asset_entries@);
            proof {
                assert(suffix[0] == rounds0[i as int]);
                assert(suffix.drop_first() =~= suffix2);
            }
            let spread = self.community_distribution_list[i].spread_epoch;
            let key = UserAssetKey {
                user_address: address,
                spread_epoch: spread,
                locked_asset,
            };
            if spread <= current_epoch {
                match find_entry(&self.user_asset_entries, key) {
                    Some(idx) => {
                        proof {
                            lemma_map_view_get(self.user_asset_entries@, idx as int);
                        }
                        let amount = self.user_asset_entries[idx].1;
                        amounts.push(amount);
                        milestones.push(
                            crate::locked_asset::clone_milestones(
                                &self.community_distribution_list[i].unlock_milestones,
                            ),
                        );
                        proof {
                            taken = taken.push((amount, rounds0[i as int].unlock_milestones@));
                            assert(claim_list(
                                suffix,
                                m_cur,
                                address,
                                current_epoch,
                                locked_asset,
                                (kmax - i) as nat,
                            ) == seq![(amount, rounds0[i as int].unlock_milestones@)] + claim_list(
                                suffix2,
                                m_cur,
                                address,
                                current_epoch,
                                locked_asset,
                                (kmax - (i + 1)) as nat,
                            ));
                            assert(taken + claim_list(
                                suffix2,
                                m_cur,
                                address,
                                current_epoch,
                                locked_asset,
                                (kmax - (i + 1)) as nat,
                            ) =~= taken.drop_last() + (seq![
                                (amount, rounds0[i as int].unlock_milestones@),
                            ] + claim_list(
                                suffix2,
                                m_cur,
                                address,
                                current_epoch,
                                locked_asset,
                                (kmax - (i + 1)) as nat,
                            )));
                        }
                        if delete_after_visit {
                            proof {
                                lemma_map_view_remove(self.user_asset_entries@, idx as int);
                            }
                            self.user_asset_entries.remove(idx);
                            proof {
                                assert(forall|j: int|
                                    0 <= j < suffix2.len() ==> alloc_key(
                                        address,
                                        (#[trigger] suffix2[j]).spread_epoch,
                                        locked_asset,
                                    ) != key) by {
                                    assert(forall|j: int|
                                        0 <= j < suffix2.len() ==> (#[trigger] suffix2[
                                            j]).spread_epoch == rounds0[
                                            i as int + 1 + j].spread_epoch && rounds0[
                                            i as int + 1 + j].spread_epoch < rounds0[
                                            i as int].spread_epoch);
                                }
                                lemma_claim_list_agree(
                                    suffix2,
                                    m_cur.remove(key),
                                    m_cur,
                                    address,
                                    current_epoch,
                                    locked_asset,
                                    (kmax - (i + 1)) as nat,
                                );
                            }
                        }
                    },
                    None => {
                        proof {
                            lemma_map_view_contains(self.user_asset_entries@, key);
                        }
                    },
                }
            }
            i = i + 1;
        }
        proof {
            if end == rounds0.len() {
                assert(rounds0.skip(end as int).len() == 0);
            }
            assert(cl =~= taken);
        }
        (amounts, milestones)
    }

    /// Claims the caller's plain-asset allocations from the most recent
    /// claimable rounds, deleting them; returns the cumulated amount and one
    /// mint-and-transfer pair per claimed round with a positive amount, so
    /// every minted amount fits the token range.
    pub fn claim_assets(&mut self, caller: u64, current_epoch: u64) -> (r: Result<
        (u128, Vec<(TokenMint, TokenTransfer)>),
        ContractError,
    >)
        requires
            old(self).wf(),
        ensures
            final(self).wf(),
            r.is_err() ==> *final(self) == *old(self) && r == Err::<
                (u128, Vec<(TokenMint, TokenTransfer)>),
                ContractError,
            >(ContractError::StateError),
            r.is_ok() <==> !old(self).spec_ongoing() && old(self).rounds().len() > 0,
            r matches Ok((c, mints)) ==> ({
                let cl = claim_list(
                    old(self).rounds(),
                    old(self).user_assets(),
                    caller,
                    current_epoch,
                    false,
                    MAX_CLAIMABLE_DISTRIBUTION_ROUNDS as nat,
                );
                let pcl = positive_claims(cl);
                let asset_id = old(self).spec_asset_token_id();
                &&& c as int == claim_cumulated(cl)
                &&& mints@.len() == pcl.len()
                &&& (forall|j: int|
                    0 <= j < pcl.len() ==> (#[trigger] mints@[j]) == (
                        TokenMint { token_id: asset_id, amount: pcl[j].0 },
                        TokenTransfer {
                            token_id: asset_id,
                            token_nonce: 0,
                            amount: pcl[j].0,
                            to: caller,
                        },
                    ))
                &&& final(self).user_assets() == claim_removed(
                    old(self).rounds(),
                    old(self).user_assets(),
                    caller,
                    current_epoch,
                    false,
                    MAX_CLAIMABLE_DISTRIBUTION_ROUNDS as nat,
                )
                &&& final(self).rounds() == old(self).rounds()
                &&& old(self).same_admin_state(*final(self))
            }),
    {
        if let Err(e) = self.global_operation.require_not_ongoing() {
            return Err(e);
        }
        if self.community_distribution_list.len() == 0 {
            return Err(ContractError::StateError);
        }
        let ghost cl = claim_list(
            old(self).rounds(),
            old(self).user_assets(),
            caller,
            current_epoch,
            false,
            MAX_CLAIMABLE_DISTRIBUTION_ROUNDS as nat,
        );
        let (assets_amounts, _milestones) = self.calculate_user_assets(
            caller,
            current_epoch,
            false,
            true,
        );
        proof {
            lemma_claim_list_len(
                old(self).rounds(),
                old(self).user_assets(),
                caller,
                current_epoch,
                false,
                MAX_CLAIMABLE_DISTRIBUTION_ROUNDS as nat,
            );
            lemma_sum_matches(assets_amounts@, cl);
        }
        let cummulated_amount = sum_of(&assets_amounts);
        let asset_token_id = self.asset.token_id;
        let mut mints: Vec<(TokenMint, TokenTransfer)> = Vec::new();
        let n = assets_amounts.len();
        let mut j: usize = 0;
        proof {
            assert(positive_claims(cl.take(0)) =~= Seq::<(u64, Seq<UnlockMilestone>)>::empty());
        }
        while j < n
            invariant
                0 <= j <= n,
                n == cl.len(),
                assets_amounts@.len() == n,
                forall|i: int| 0 <= i < n ==> assets_amounts@[i] == (#[trigger] cl[i]).0,
                asset_token_id == old(self).spec_asset_token_id(),
                mints@.len() == positive_claims(cl.take(j as int)).len(),
                forall|l: int|
                    0 <= l < mints@.len() ==> (#[trigger] mints@[l]) == (
                        TokenMint {
                            token_id: asset_token_id,
                            amount: positive_claims(cl.take(j as int))[l].0,
                        },
                        TokenTransfer {
                            token_id: asset_token_id,
                            token_nonce: 0,
                            amount: positive_claims(cl.take(j as int))[l].0,
                            to: caller,
                        },
                    ),
            decreases n - j,
        {
            proof {
                assert(cl.take(j as int + 1).drop_last() =~= cl.take(j as int));
                assert(cl.take(j as int + 1).last() == cl[j as int]);
            }
            let amount = assets_amounts[j];
            if amount > 0 {
                mints.push(
                    (
                        TokenMint { token_id: asset_token_id, amount },
                        TokenTransfer {
                            token_id: asset_token_id,
                            token_nonce: 0,
                            amount,
                            to: caller,
                        },
                    ),
                );
                proof {
                    assert(positive_claims(cl.take(j as int + 1)) =~= positive_claims(
                        cl.take(j as int),
                    ).push(cl[j as int]));
                }
            } else {
                proof {
                    assert(positive_claims(cl.take(j as int + 1)) =~= positive_claims(
                        cl.take(j as int),
                    ));
                }
            }
            j = j + 1;
        }
        proof {
            assert(cl.take(n as int) =~= cl);
        }
        Ok((cummulated_amount, mints))
    }

    /// Claims the caller's locked-asset allocations, deleting them: one new
    /// locked position is created per claimed round with a positive amount,
    /// carrying that round's unlock schedule.  Returns the cumulated amount
    /// and the creation and transfer actions.
    pub fn claim_locked_assets(&mut self, caller: u64, current_epoch: u64) -> (r: Result<
        (u128, Vec<(SftCreate, TokenTransfer)>),
        ContractError,
    >)
        requires
            old(self).wf(),
            old(self).spec_locked_token_nonce() + MAX_CLAIMABLE_DISTRIBUTION_ROUNDS <= u64::MAX,
        ensures
            final(self).wf(),
            r.is_err() ==> *final(self) == *old(self) && r == Err::<
                (u128, Vec<(SftCreate, TokenTransfer)>),
                ContractError,
            >(ContractError::StateError),
            r.is_ok() <==> !old(self).spec_ongoing() && old(self).rounds().len() > 0 && old(
                self,
            ).spec_locked_token_id().is_some(),
            r matches Ok((c, created)) ==> ({
                let cl = claim_list(
                    old(self).rounds(),
                    old(self).user_assets(),
                    caller,
                    current_epoch,
                    true,
                    MAX_CLAIMABLE_DISTRIBUTION_ROUNDS as nat,
                );
                let pcl = positive_claims(cl);
                let token = old(self).spec_locked_token_id().unwrap();
                let nonce0 = old(self).spec_locked_token_nonce();
                &&& c as int == claim_cumulated(cl)
                &&& created@.len() == pcl.len()
                &&& (forall|j: int|
                    0 <= j < pcl.len() ==> ((#[trigger] created@[j]).0.amount == pcl[j].0
                        && created@[j].0.unlock_milestones@ == pcl[j].1 && created@[j].0.token_id
                        == token && created@[j].0.token_nonce == nonce0 + j + 1 && created@[j].1
                        == (TokenTransfer {
                        token_id: token,
                        token_nonce: (nonce0 + j + 1) as u64,
                        amount: pcl[j].0,
                        to: caller,
                    })))
                &&& final(self).spec_locked_token_nonce() == nonce0 + pcl.len()
                &&& final(self).user_assets() == claim_removed(
                    old(self).rounds(),
                    old(self).user_assets(),
                    caller,
                    current_epoch,
                    true,
                    MAX_CLAIMABLE_DISTRIBUTION_ROUNDS as nat,
                )
                &&& final(self).rounds() == old(self).rounds()
                &&& final(self).spec_owner() == old(self).spec_owner()
                &&& final(self).spec_ongoing() == old(self).spec_ongoing()
                &&& final(self).spec_asset_token_id() == old(self).spec_asset_token_id()
                &&& final(self).spec_locked_token_id() == old(self).spec_locked_token_id()
            }),
    {
        if let Err(e) = self.global_operation.require_not_ongoing() {
            return Err(e);
        }
        if self.community_distribution_list.len() == 0 {
            return Err(ContractError::StateError);
        }
        if !self.locked_asset.is_issued() {
            return Err(ContractError::StateError);
        }
        let ghost cl = claim_list(
            old(self).rounds(),
            old(self).user_assets(),
            caller,
            current_epoch,
            true,
            MAX_CLAIMABLE_DISTRIBUTION_ROUNDS as nat,
        );
        let (assets_amounts, milestones_vec) = self.calculate_user_assets(
            caller,
            current_epoch,
            true,
            true,
        );
        proof {
            lemma_claim_list_len(
                old(self).rounds(),
                old(self).user_assets(),
                caller,
                current_epoch,
                true,
                MAX_CLAIMABLE_DISTRIBUTION_ROUNDS as nat,
            );
            lemma_sum_matches(assets_amounts@, cl);
        }
        let cummulated_amount = sum_of(&assets_amounts);
        let ghost nonce0 = old(self).spec_locked_token_nonce();
        let ghost mid_state = *self;
        let mut created: Vec<(SftCreate, TokenTransfer)> = Vec::new();
        let n = assets_amounts.len();
        let mut j: usize = 0;
        proof {
            assert(positive_claims(cl.take(0)) =~= Seq::<(u64, Seq<UnlockMilestone>)>::empty());
        }
        while j < n
            invariant
                0 <= j <= n,
                n == cl.len(),
                n <= MAX_CLAIMABLE_DISTRIBUTION_ROUNDS,
                assets_amounts@.len() == n,
                milestones_vec@.len() == n,
                forall|i: int| 0 <= i < n ==> assets_amounts@[i] == (#[trigger] cl[i]).0,
                forall|i: int| 0 <= i < n ==> (#[trigger] milestones_vec@[i])@ == cl[i].1,
                created@.len() == positive_claims(cl.take(j as int)).len(),
                created@.len() <= j,
                nonce0 + MAX_CLAIMABLE_DISTRIBUTION_ROUNDS <= u64::MAX,
                self.locked_asset.spec_token_id() == mid_state.spec_locked_token_id(),
                mid_state.spec_locked_token_id().is_some(),
                self.locked_asset.spec_token_nonce() == nonce0 + created@.len(),
                forall|l: int|
                    0 <= l < created@.len() ==> ((#[trigger] created@[l]).0.amount
                        == positive_claims(cl.take(j as int))[l].0 && created@[
                        l].0.unlock_milestones@ == positive_claims(cl.take(j as int))[l].1
                        && created@[l].0.token_id == mid_state.spec_locked_token_id().unwrap()
                        && created@[l].0.token_nonce == nonce0 + l + 1 && created@[l].1
                        == (TokenTransfer {
                        token_id: mid_state.spec_locked_token_id().unwrap(),
                        token_nonce: (nonce0 + l + 1) as u64,
                        amount: positive_claims(cl.take(j as int))[l].0,
                        to: caller,
                    })),
                self.user_asset_entries@ == mid_state.entries(),
                self.community_distribution_list@ == mid_state.rounds(),
                self.owner == mid_state.spec_owner(),
                self.global_operation == mid_state.global_operation,
                self.asset == mid_state.asset,
            decreases n - j,
        {
            proof {
                assert(cl.take(j as int + 1).drop_last() =~= cl.take(j as int));
                assert(cl.take(j as int + 1).last() == cl[j as int]);
            }
            let amount = assets_amounts[j];
            if amount > 0 {
                let pair = self.locked_asset.create_and_send_locked_assets(
                    caller,
                    amount,
                    &milestones_vec[j],
                );
                match pair {
                    Some(p) => {
                        created.push(p);
                        proof {
                            assert(positive_claims(cl.take(j as int + 1)) =~= positive_claims(
                                cl.take(j as int),
                            ).push(cl[j as int]));
                        }
                    },
                    None => {
                        proof {
                            assert(false);
                        }
                    },
                }
            } else {
                proof {
                    assert(positive_claims(cl.take(j as int + 1)) =~= positive_claims(
                        cl.take(j as int),
                    ));
                }
            }
            j = j + 1;
        }
        proof {
            assert(cl.take(n as int) =~= cl);
        }
        Ok((cummulated_amount, created))
    }

    /// What `claim_assets` would pay the given user, without changing
    /// anything.
    pub fn calculate_assets_view(&mut self, address: u64, current_epoch: u64) -> (r: Result<
        u128,
        ContractError,
    >)
        requires
            old(self).wf(),
        ensures
            final(self).wf(),
            *final(self) == *old(self),
            r.is_ok() <==> !old(self).spec_ongoing() && old(self).rounds().len() > 0,
            r.is_err() ==> r == Err::<u128, ContractError>(ContractError::StateError),
            r matches Ok(c) ==> c as int == claim_cumulated(
                claim_list(
                    old(self).rounds(),
                    old(self).user_assets(),
                    address,
                    current_epoch,
                    false,
                    MAX_CLAIMABLE_DISTRIBUTION_ROUNDS as nat,
                ),
            ),
    {
        if let Err(e) = self.global_operation.require_not_ongoing() {
            return Err(e);
        }
        if self.community_distribution_list.len() == 0 {
            return Err(ContractError::StateError);
        }
        let ghost cl = claim_list(
            old(self).rounds(),
            old(self).user_assets(),
            address,
            current_epoch,
            false,
            MAX_CLAIMABLE_DISTRIBUTION_ROUNDS as nat,
        );
        let (assets_amounts, _milestones) = self.calculate_user_assets(
            address,
            current_epoch,
            false,
            false,
        );
        proof {
            lemma_claim_list_len(
                old(self).rounds(),
                old(self).user_assets(),
                address,
                current_epoch,
                false,
                MAX_CLAIMABLE_DISTRIBUTION_ROUNDS as nat,
            );
            lemma_sum_matches(assets_amounts@, cl);
            assert(*self == *old(self));
        }
        Ok(sum_of(&assets_amounts))
    }

    /// What `claim_locked_assets` would pay the given user, without changing
    /// anything.
    pub fn calculate_locked_assets_view(&mut self, address: u64, current_epoch: u64) -> (r: Result<
        u128,
        ContractError,
    >)
        requires
            old(self).wf(),
        ensures
            final(self).wf(),
            *final(self) == *old(self),
            r.is_ok() <==> !old(self).spec_ongoing() && old(self).rounds().len() > 0,
            r.is_err() ==> r == Err::<u128, ContractError>(ContractError::StateError),
            r matches Ok(c) ==> c as int == claim_cumulated(
                claim_list(
                    old(self).rounds(),
                    old(self).user_assets(),
                    address,
                    current_epoch,
                    true,
                    MAX_CLAIMABLE_DISTRIBUTION_ROUNDS as nat,
                ),
            ),
    {
        if let Err(e) = self.global_operation.require_not_ongoing() {
            return Err(e);
        }
        if self.community_distribution_list.len() == 0 {
            return Err(ContractError::StateError);
        }
        let ghost cl = claim_list(
            old(self).rounds(),
            old(self).user_assets(),
            address,
            current_epoch,
            true,
            MAX_CLAIMABLE_DISTRIBUTION_ROUNDS as nat,
        );
        let (assets_amounts, _milestones) = self.calculate_user_assets(
            address,
            current_epoch,
            true,
            false,
        );
        proof {
            lemma_claim_list_len(
                old(self).rounds(),
                old(self).user_assets(),
                address,
                current_epoch,
                true,
                MAX_CLAIMABLE_DISTRIBUTION_ROUNDS as nat,
            );
            lemma_sum_matches(assets_amounts@, cl);
            assert(*self == *old(self));
        }
        Ok(sum_of(&assets_amounts))
    }

    /// Removes allocation entries whose round lies in `[lower, higher]`,
    /// examining at most `scan_budget` entries from the front so a bounded
    /// execution budget is respected; returns how many were removed.  Nothing
    /// happens when `higher` is zero or the range is empty.
    fn remove_asset_entries_between_epochs(
        &mut self,
        lower: u64,
        higher: u64,
        scan_budget: usize,
    ) -> (r: usize)
        requires
            old(self).wf(),
        ensures
            final(self).wf(),
            final(self).rounds() == old(self).rounds(),
            old(self).same_admin_state(*final(self)),
            higher == 0 || higher < lower ==> r == 0 && *final(self) == *old(self),
            higher > 0 && lower <= higher ==> final(self).entries() == purge_kept(
                old(self).entries(),
                lower,
                higher,
                scan_budget as int,
            ) && r == purge_count(old(self).entries(), lower, higher, scan_budget as int),
    {
        if higher == 0 {
            return 0;
        }
        if higher < lower {
            return 0;
        }
        let ghost entries0 = self.user_asset_entries@;
        let mut idx: usize = 0;
        let mut examined: usize = 0;
        let mut removed: usize = 0;
        proof {
            assert(entries0.skip(0) =~= entries0);
            assert(entries0.take(0) =~= Seq::<(UserAssetKey, u64)>::empty());
        }
        while idx < self.user_asset_entries.len() && examined < scan_budget
            invariant
                0 <= idx <= self.user_asset_entries@.len(),
                examined <= scan_budget,
                removed + idx == examined,
                entries0 == old(self).entries(),
                self.wf(),
                self.community_distribution_list@ == old(self).rounds(),
                old(self).same_admin_state(*self),
                purge_kept(entries0, lower, higher, scan_budget as int)
                    == self.user_asset_entries@.take(idx as int) + purge_kept(
                    self.user_asset_entries@.skip(idx as int),
                    lower,
                    higher,
                    scan_budget - examined,
                ),
                purge_count(entries0, lower, higher, scan_budget as int) == removed + purge_count(
                    self.user_asset_entries@.skip(idx as int),
                    lower,
                    higher,
                    scan_budget - examined,
                ),
            decreases self.user_asset_entries@.len() - idx,
        {
            let ghost entries_pre = self.user_asset_entries@;
            let ghost suffix = entries_pre.skip(idx as int);
            proof {
                assert(suffix[0] == entries_pre[idx as int]);
                assert(suffix.drop_first() =~= entries_pre.skip(idx as int + 1));
            }
            let key = self.user_asset_entries[idx].0;
            if lower <= key.spread_epoch && key.spread_epoch <= higher {
                proof {
                    lemma_map_view_remove(self.user_asset_entries@, idx as int);
                }
                self.user_asset_entries.remove(idx);
                removed = removed + 1;
                proof {
                    assert(self.user_asset_entries@.take(idx as int) =~= entries_pre.take(
                        idx as int,
                    ));
                    assert(self.user_asset_entries@.skip(idx as int) =~= entries_pre.skip(
                        idx as int + 1,
                    ));
                }
            } else {
                idx = idx + 1;
                proof {
                    assert(self.user_asset_entries@.take(idx as int) =~= entries_pre.take(
                        idx as int - 1,
                    ).push(entries_pre[idx as int - 1]));
                    assert(entries_pre.take(idx as int - 1).push(entries_pre[idx as int - 1])
                        + purge_kept(
                        entries_pre.skip(idx as int),
                        lower,
                        higher,
                        scan_budget - examined - 1,
                    ) =~= entries_pre.take(idx as int - 1) + (seq![
                        entries_pre[idx as int - 1],
                    ] + purge_kept(
                        entries_pre.skip(idx as int),
                        lower,
                        higher,
                        scan_budget - examined - 1,
                    )));
                }
            }
            examined = examined + 1;
        }
        proof {
            if idx == self.user_asset_entries@.len() {
                assert(self.user_asset_entries@.skip(idx as int).len() == 0);
                assert(self.user_asset_entries@.take(idx as int) =~= self.user_asset_entries@);
            } else {
                assert(purge_kept(
                    self.user_asset_entries@.skip(idx as int),
                    lower,
                    higher,
                    scan_budget - examined,
                ) == self.user_asset_entries@.skip(idx as int));
                assert(self.user_asset_entries@.take(idx as int) + self.user_asset_entries@.skip(
                    idx as int,
                ) =~= self.user_asset_entries@);
            }
        }
        removed
    }

    /// Owner-only, during planning: removes all allocation entries whose
    /// round lies in `[lower, higher]`, scanning at most `scan_budget`
    /// entries; returns the number removed.
    pub fn undo_user_assets_between_epochs(
        &mut self,
        caller: u64,
        lower: u64,
        higher: u64,
        scan_budget: usize,
    ) -> (r: Result<usize, ContractError>)
        requires
            old(self).wf(),
        ensures
            final(self).wf(),
            r.is_err() ==> *final(self) == *old(self),
            r.is_ok() <==> caller == old(self).spec_owner() && old(self).spec_ongoing() && old(
                self,
            ).rounds().len() > 0 && lower <= higher,
            r.is_err() ==> r == Err::<usize, ContractError>(
                if caller != old(self).spec_owner() {
                    ContractError::PermissionError
                } else if !old(self).spec_ongoing() || old(self).rounds().len() == 0 {
                    ContractError::StateError
                } else {
                    ContractError::ValidationError
                },
            ),
            r matches Ok(c) ==> ({
                &&& final(self).rounds() == old(self).rounds()
                &&& old(self).same_admin_state(*final(self))
                &&& (higher == 0 ==> c == 0 && final(self).entries() == old(self).entries())
                &&& (higher > 0 ==> final(self).entries() == purge_kept(
                    old(self).entries(),
                    lower,
                    higher,
                    scan_budget as int,
                ) && c == purge_count(old(self).entries(), lower, higher, scan_budget as int))
            }),
    {
        if caller != self.owner {
            return Err(ContractError::PermissionError);
        }
        if let Err(e) = self.global_operation.require_ongoing() {
            return Err(e);
        }
        if self.community_distribution_list.len() == 0 {
            return Err(ContractError::StateError);
        }
        if lower > higher {
            return Err(ContractError::ValidationError);
        }
        Ok(self.remove_asset_entries_between_epochs(lower, higher, scan_budget))
    }

    /// The spread epoch of the newest round that has aged out of the
    /// claimable window, or zero when every round is still claimable.
    pub fn get_biggest_unclaimable_asset_epoch(&self) -> (r: u64)
        ensures
            self.rounds().len() <= MAX_CLAIMABLE_DISTRIBUTION_ROUNDS ==> r == 0,
            self.rounds().len() > MAX_CLAIMABLE_DISTRIBUTION_ROUNDS ==> r == self.rounds()[
                MAX_CLAIMABLE_DISTRIBUTION_ROUNDS as int].spread_epoch,
    {
        if self.community_distribution_list.len() > MAX_CLAIMABLE_DISTRIBUTION_ROUNDS {
            self.community_distribution_list[MAX_CLAIMABLE_DISTRIBUTION_ROUNDS].spread_epoch
        } else {
            0
        }
    }

    /// Owner-only, during planning: removes the allocation entries of every
    /// round that has aged out of the claimable window, scanning at most
    /// `scan_budget` entries; returns the number removed.
    pub fn clear_unclaimable_assets(&mut self, caller: u64, scan_budget: usize) -> (r: Result<
        usize,
        ContractError,
    >)
        requires
            old(self).wf(),
        ensures
            final(self).wf(),
            r.is_err() ==> *final(self) == *old(self),
            r.is_ok() <==> caller == old(self).spec_owner() && old(self).spec_ongoing() && old(
                self,
            ).rounds().len() > 0,
            r matches Ok(c) ==> ({
                let cutoff = if old(self).rounds().len() > MAX_CLAIMABLE_DISTRIBUTION_ROUNDS {
                    old(self).rounds()[MAX_CLAIMABLE_DISTRIBUTION_ROUNDS as int].spread_epoch
                } else {
                    0u64
                };
                &&& final(self).rounds() == old(self).rounds()
                &&& old(self).same_admin_state(*final(self))
                &&& (cutoff == 0 ==> c == 0 && final(self).entries() == old(self).entries())
                &&& (cutoff > 0 ==> final(self).entries() == purge_kept(
                    old(self).entries(),
                    0,
                    cutoff,
                    scan_budget as int,
                ) && c == purge_count(old(self).entries(), 0, cutoff, scan_budget as int))
            }),
    {
        let biggest_unclaimable_asset_epoch = self.get_biggest_unclaimable_asset_epoch();
        self.undo_user_assets_between_epochs(
            caller,
            0,
            biggest_unclaimable_asset_epoch,
            scan_budget,
        )
    }

    /// The most recent round's total amount and spread epoch, or zeros when
    /// no round exists.
    pub fn get_last_community_distrib_amount_and_epoch(&self) -> (r: (u64, u64))
        ensures
            self.rounds().len() == 0 ==> r == (0u64, 0u64),
            self.rounds().len() > 0 ==> r == (
                self.rounds()[0].total_amount,
                self.rounds()[0].spread_epoch,
            ),
    {
        if self.community_distribution_list.len() == 0 {
            (0, 0)
        } else {
            let front = &self.community_distribution_list[0];
            (front.total_amount, front.spread_epoch)
        }
    }

    /// Unlocks the matured part of a locked position paid in: the matured
    /// amount is minted out as plain assets, the rest is re-locked under the
    /// residual schedule, and the old position is burned.
    pub fn unlock_assets(
        &mut self,
        caller: u64,
        payment_token_id: u64,
        payment_token_nonce: u64,
        payment_amount: u64,
        attributes: &crate::schedule::LockedTokenAttributes,
        current_epoch: u64,
    ) -> (r: Result<crate::locked_asset::UnlockAssetsOutcome, ContractError>)
        requires
            old(self).wf(),
            valid_schedule(attributes.unlock_milestones@),
            attributes.unlock_milestones@.len() > 0,
            old(self).spec_locked_token_nonce() < u64::MAX,
        ensures
            final(self).wf(),
            r.is_err() ==> *final(self) == *old(self),
            r.is_ok() <==> old(self).spec_locked_token_id() == Some(payment_token_id)
                && crate::schedule::unlocked_amount_spec(
                payment_amount,
                attributes.unlock_milestones@,
                current_epoch,
            ) > 0,
            final(self).rounds() == old(self).rounds(),
            final(self).entries() == old(self).entries(),
            final(self).spec_owner() == old(self).spec_owner(),
            final(self).spec_ongoing() == old(self).spec_ongoing(),
            final(self).spec_asset_token_id() == old(self).spec_asset_token_id(),
            final(self).spec_locked_token_id() == old(self).spec_locked_token_id(),
            r matches Ok(o) ==> ({
                &&& o.unlocked_amount == crate::schedule::unlocked_amount_spec(
                    payment_amount,
                    attributes.unlock_milestones@,
                    current_epoch,
                )
                &&& o.unlocked_amount + o.remaining_amount == payment_amount
                &&& o.new_unlock_milestones@ == crate::schedule::residual_schedule_spec(
                    attributes.unlock_milestones@,
                    current_epoch,
                )
                &&& valid_schedule(o.new_unlock_milestones@)
            }),
    {
        let asset_token_id = self.asset.token_id;
        self.locked_asset.unlock_assets(
            caller,
            asset_token_id,
            payment_token_id,
            payment_token_nonce,
            payment_amount,
            attributes,
            current_epoch,
        )
    }

    /// Owner-only: decides whether the semi-fungible locked-asset token may
    /// be issued; the issuance itself is an asynchronous host call.
    pub fn issue_nft(&self, caller: u64) -> (r: Result<(), ContractError>)
        ensures
            r.is_ok() <==> caller == self.spec_owner() && self.spec_locked_token_id().is_none(),
            r.is_err() ==> r == Err::<(), ContractError>(
                if caller != self.spec_owner() {
                    ContractError::PermissionError
                } else {
                    ContractError::StateError
                },
            ),
    {
        if caller != self.owner {
            return Err(ContractError::PermissionError);
        }
        if self.locked_asset.is_issued() {
            return Err(ContractError::StateError);
        }
        Ok(())
    }

    /// Applies the result of the asynchronous token issuance: on success the
    /// token identifier is recorded; on failure the payment must be refunded
    /// to the owner, which the returned flag signals.
    pub fn issue_nft_callback(&mut self, result: Option<u64>) -> (refund: bool)
        ensures
            result matches Some(t) ==> final(self).spec_locked_token_id() == Some(t) && !refund,
            result.is_none() ==> *final(self) == *old(self) && refund,
            final(self).rounds() == old(self).rounds(),
            final(self).entries() == old(self).entries(),
            final(self).spec_owner() == old(self).spec_owner(),
            final(self).spec_ongoing() == old(self).spec_ongoing(),
            final(self).spec_asset_token_id() == old(self).spec_asset_token_id(),
            final(self).spec_locked_token_nonce() == old(self).spec_locked_token_nonce(),
            final(self).wf() == old(self).wf(),
    {
        match result {
            Some(token_id) => {
                self.locked_asset.set_token_id(token_id);
                false
            },
            None => true,
        }
    }

    /// Owner-only: checks a request to assign local token roles; the
    /// assignment itself is an asynchronous host call.
    pub fn set_local_roles(&self, caller: u64, token: u64, roles_count: usize) -> (r: Result<
        (),
        ContractError,
    >)
        ensures
            r.is_ok() <==> caller == self.spec_owner() && self.spec_locked_token_id() == Some(
                token,
            ) && roles_count > 0,
            r.is_err() ==> r == Err::<(), ContractError>(
                if caller != self.spec_owner() {
                    ContractError::PermissionError
                } else {
                    ContractError::ValidationError
                },
            ),
    {
        if caller != self.owner {
            return Err(ContractError::PermissionError);
        }
        let current = self.locked_asset.token_id_or_zero();
        if !(self.locked_asset.is_issued() && current == token) {
            return Err(ContractError::ValidationError);
        }
        if roles_count == 0 {
            return Err(ContractError::ValidationError);
        }
        Ok(())
    }

    /// The most recent round's unlock schedule, or empty when no round
    /// exists.
    pub fn get_last_community_distrib_unlock_milestones(&self) -> (r: Vec<UnlockMilestone>)
        ensures
            self.rounds().len() == 0 ==> r@.len() == 0,
            self.rounds().len() > 0 ==> r@ == self.rounds()[0].unlock_milestones@,
    {
        if self.community_distribution_list.len() == 0 {
            Vec::new()
        } else {
            crate::locked_asset::clone_milestones(
                &self.community_distribution_list[0].unlock_milestones,
            )
        }
    }
}

} // verus!
