//! Temporary-funds escrow and the liquidity-pool proxy.
//!
//! Users deposit both legs of a liquidity operation into escrow; the proxy
//! forwards them to an intermediated pair contract, adds liquidity, burns
//! whatever it over-minted, and hands the caller a wrapped LP receipt whose
//! attributes record the underlying position and the locked assets invested.

use vstd::prelude::*;

use crate::asset::{AssetModule, TokenBurn, TokenMint, TokenTransfer};
use crate::errors::ContractError;
use crate::kvmap::{
    keys_unique, lemma_map_view_contains, lemma_map_view_get, lemma_map_view_push,
    lemma_map_view_remove, lemma_map_view_update, map_view,
};

verus! {

/// Gas ceilings for each sub-call the pair proxy issues.
#[derive(Clone, Copy, Debug, PartialEq, Eq, Structural)]
pub struct ProxyPairParams {
    pub add_liquidity_gas_limit: u64,
    pub accept_esdt_payment_gas_limit: u64,
    pub ask_for_lp_token_gas_limit: u64,
    pub ask_for_tokens_gas_limit: u64,
    pub remove_liquidity_gas_limit: u64,
    pub burn_tokens_gas_limit: u64,
    pub mint_tokens_gas_limit: u64,
}

/// A (token, amount) pair as pool contracts report it.
#[derive(Clone, Copy, Debug, PartialEq, Eq, Structural)]
pub struct TokenAmountPair {
    pub token_id: u64,
    pub amount: u64,
}

/// Attributes of a wrapped LP receipt: the underlying LP position and the
/// locked-asset investment it represents.
#[derive(Clone, Copy, Debug, PartialEq, Eq, Structural)]
pub struct WrappedLpTokenAttributes {
    pub lp_token_id: u64,
    pub lp_token_total_amount: u64,
    pub locked_assets_token_id: u64,
    pub locked_assets_invested: u64,
    pub locked_assets_nonce: u64,
}

/// Escrow key: who deposited which token under which nonce.
#[derive(Clone, Copy, Debug, PartialEq, Eq, Structural, Hash)]
pub struct TempFundsKey {
    pub caller: u64,
    pub token_id: u64,
    pub token_nonce: u64,
}

/// The external liquidity-pool contract the proxy intermediates.  A
/// deployment implements this for the real cross-contract calls; nothing is
/// assumed about the results, the proxy validates them after each call.
pub trait PairContract {
    /// Accepts a forwarded payment; an error aborts the operation.
    fn accept_esdt_payment(&mut self, token_id: u64, amount: u64, gas_limit: u64) -> Result<
        (),
        (),
    >;

    /// Adds liquidity; returns (LP received, first leg used, second leg
    /// used).
    fn add_liquidity(
        &mut self,
        first_amount: u64,
        second_amount: u64,
        first_amount_min: u64,
        second_amount_min: u64,
        gas_limit: u64,
    ) -> (TokenAmountPair, TokenAmountPair, TokenAmountPair);

    /// The pool's LP token identifier.
    fn get_lp_token_identifier(&mut self, gas_limit: u64) -> u64;

    /// The two tokens a given amount of liquidity currently redeems for.
    fn get_tokens_for_given_position(&mut self, liquidity: u64, gas_limit: u64) -> (
        TokenAmountPair,
        TokenAmountPair,
    );

    /// Removes liquidity; an error aborts the operation.
    fn remove_liquidity(
        &mut self,
        lp_token_id: u64,
        liquidity: u64,
        first_amount_min: u64,
        second_amount_min: u64,
        gas_limit: u64,
    ) -> Result<(), ()>;
}

/// Looks an escrow key up in the entry list.
fn find_funds(entries: &Vec<(TempFundsKey, u64)>, key: TempFundsKey) -> (r: Option<usize>)
    ensures
        r matches Some(i) ==> i < entries@.len() && entries@[i as int].0 == key,
        r.is_none() ==> forall|i: int| 0 <= i < entries@.len() ==> (#[trigger] entries@[i]).0
            != key,
{
    let n = entries.len();
    let mut i: usize = 0;
    while i < n
        invariant
            0 <= i <= n,
            n == entries@.len(),
            forall|j: int| 0 <= j < i ==> (#[trigger] entries@[j]).0 != key,
        decreases n - i,
    {
        if entries[i].0 == key {
            return Some(i);
        }
        i = i + 1;
    }
    None
}

/// Membership in an address or token whitelist.
fn list_contains(v: &Vec<u64>, x: u64) -> (r: bool)
    ensures
        r <==> v@.contains(x),
{
    let n = v.len();
    let mut i: usize = 0;
    while i < n
        invariant
            0 <= i <= n,
            n == v@.len(),
            forall|j: int| 0 <= j < i ==> v@[j] != x,
        decreases n - i,
    {
        if v[i] == x {
            return true;
        }
        i = i + 1;
    }
    false
}

/// Adds `x` to a whitelist if absent.
fn list_insert(v: &mut Vec<u64>, x: u64)
    ensures
        old(v)@.contains(x) ==> final(v)@ == old(v)@,
        !old(v)@.contains(x) ==> final(v)@ == old(v)@.push(x),
        final(v)@.contains(x),
{
    if !list_contains(v, x) {
        v.push(x);
        proof {
            assert(final(v)@[final(v)@.len() - 1] == x);
        }
    }
}

/// Removes the first occurrence of `x` from a whitelist.
fn list_remove(v: &mut Vec<u64>, x: u64)
    ensures
        !old(v)@.contains(x) ==> final(v)@ == old(v)@,
        old(v)@.contains(x) ==> exists|i: int|
            0 <= i < old(v)@.len() && old(v)@[i] == x && final(v)@ == old(v)@.remove(i),
{
    let n = v.len();
    let mut i: usize = 0;
    while i < n
        invariant
            0 <= i <= n,
            n == v@.len(),
            v@ == old(v)@,
            forall|j: int| 0 <= j < i ==> v@[j] != x,
        decreases n - i,
    {
        if v[i] == x {
            v.remove(i);
            return ;
        }
        i = i + 1;
    }
}

/// A map after decrementing a key by part or all of its balance: the entry
/// disappears when it reaches zero.
pub open spec fn funds_decreased(
    m: Map<TempFundsKey, u64>,
    k: TempFundsKey,
    amount: int,
) -> Map<TempFundsKey, u64> {
    if m.dom().contains(k) && m[k] > amount {
        m.insert(k, (m[k] - amount) as u64)
    } else {
        m.remove(k)
    }
}

/// In a well-formed escrow, a key that is present holds a positive balance.
proof fn lemma_positive_balance(s: Seq<(TempFundsKey, u64)>, k: TempFundsKey)
    requires
        keys_unique(s),
        forall|i: int| 0 <= i < s.len() ==> (#[trigger] s[i]).1 > 0,
    ensures
        map_view(s).dom().contains(k) ==> map_view(s)[k] > 0,
{
    lemma_map_view_contains(s, k);
    if map_view(s).dom().contains(k) {
        let i = choose|i: int| 0 <= i < s.len() && (#[trigger] s[i]).0 == k;
        lemma_map_view_get(s, i);
    }
}

/// For `0 <= a <= c` and `c > 0`: `a * b / c <= b`.
proof fn lemma_ratio_le(a: int, b: int, c: int)
    requires
        0 <= a <= c,
        0 <= b,
        0 < c,
    ensures
        0 <= a * b / c <= b,
{
    assert(a * b <= c * b) by (nonlinear_arith)
        requires 0 <= a <= c && 0 <= b,
    ;
    assert(a * b >= 0) by (nonlinear_arith)
        requires 0 <= a && 0 <= b,
    ;
    vstd::arithmetic::div_mod::lemma_div_is_ordered(a * b, c * b, c);
    assert(b * c == c * b) by (nonlinear_arith);
    vstd::arithmetic::div_mod::lemma_div_by_multiple(b, c);
    vstd::arithmetic::div_mod::lemma_div_is_ordered(0, a * b, c);
}

/// The smaller of two gas amounts: sub-calls never get more gas than is
/// left.
fn min_u64(a: u64, b: u64) -> (r: u64)
    ensures
        r == if a < b {
            a
        } else {
            b
        },
{
    if a < b {
        a
    } else {
        b
    }
}

/// What a successful proxied liquidity addition decides and moves.
#[derive(Debug)]
pub struct AddLiquidityProxyOutcome {
    /// Asset tokens minted to represent the semi-fungible leg towards the
    /// pool.
    pub minted_for_forward: TokenMint,
    /// What the pool reported: LP received and the two legs it consumed.
    pub lp_received: TokenAmountPair,
    pub first_token_used: TokenAmountPair,
    pub second_token_used: TokenAmountPair,
    /// How much of the locked-asset investment the pool consumed.
    pub consumed_locked_tokens: u64,
    /// Burn of the minted asset tokens the pool did not consume.
    pub unused_minted_assets_burn: TokenBurn,
    /// The nonce of the locked position consumed.
    pub locked_asset_token_nonce: u64,
    /// Attributes of the wrapped LP receipt created for the caller.
    pub wrapped_attributes: WrappedLpTokenAttributes,
    pub wrapped_token_nonce: u64,
    /// Transfer of the wrapped LP receipt to the caller.
    pub wrapped_transfer: TokenTransfer,
}

/// The first precondition a proxied liquidity addition fails, before any
/// pool call is made; `None` when all local checks pass.
pub open spec fn add_liquidity_precheck(
    pre: ProxyPairModule,
    pair_address: u64,
    caller: u64,
    first_token_id: u64,
    first_token_nonce: u64,
    second_token_id: u64,
    second_token_nonce: u64,
) -> Option<ContractError> {
    let k1 = (TempFundsKey { caller, token_id: first_token_id, token_nonce: first_token_nonce });
    let k2 = (TempFundsKey { caller, token_id: second_token_id, token_nonce: second_token_nonce });
    if !pre.pairs().contains(pair_address) {
        Some(ContractError::PermissionError)
    } else if pre.spec_params().is_none() {
        Some(ContractError::StateError)
    } else if pre.spec_token_id().is_none() {
        Some(ContractError::StateError)
    } else if first_token_id == second_token_id {
        Some(ContractError::ValidationError)
    } else if !((first_token_nonce == 0 && second_token_nonce != 0) || (first_token_nonce != 0
        && second_token_nonce == 0)) {
        Some(ContractError::ValidationError)
    } else if !pre.locked_assets().contains(first_token_id) && !pre.locked_assets().contains(
        second_token_id,
    ) {
        Some(ContractError::ValidationError)
    } else if !pre.temporary_funds().dom().contains(k1) {
        Some(ContractError::ZeroAmountError)
    } else if !pre.temporary_funds().dom().contains(k2) {
        Some(ContractError::ZeroAmountError)
    } else {
        None
    }
}

/// What a successful proxied liquidity addition did: how the escrow shrank,
/// what was minted and burned, and what the receipt records.
pub open spec fn add_liquidity_applied(
    pre: ProxyPairModule,
    post: ProxyPairModule,
    o: AddLiquidityProxyOutcome,
    caller: u64,
    first_token_id: u64,
    first_token_nonce: u64,
    second_token_id: u64,
    second_token_nonce: u64,
) -> bool {
    let k1 = (TempFundsKey { caller, token_id: first_token_id, token_nonce: first_token_nonce });
    let k2 = (TempFundsKey { caller, token_id: second_token_id, token_nonce: second_token_nonce });
    let m = pre.temporary_funds();
    let asset_id = pre.spec_asset_token_id();
    let locked_token = if pre.locked_assets().contains(first_token_id) {
        first_token_id
    } else {
        second_token_id
    };
    &&& pre.same_admin_state(post)
    &&& post.spec_token_nonce() == pre.spec_token_nonce() + 1
    &&& o.lp_received.amount > 0
    &&& (o.first_token_used.token_id == first_token_id || o.second_token_used.token_id
        == second_token_id)
    &&& o.minted_for_forward == (TokenMint {
        token_id: asset_id,
        amount: if first_token_nonce != 0 {
            m[k1]
        } else {
            m[k2]
        },
    })
    &&& (o.first_token_used.token_id == asset_id || o.second_token_used.token_id == asset_id)
    &&& (if o.first_token_used.token_id == asset_id {
        &&& o.consumed_locked_tokens == o.first_token_used.amount
        &&& o.consumed_locked_tokens <= m[k1]
        &&& o.second_token_used.amount <= m[k2]
        &&& o.locked_asset_token_nonce == first_token_nonce
        &&& o.unused_minted_assets_burn == (TokenBurn {
            token_id: asset_id,
            token_nonce: 0,
            amount: (m[k1] - o.consumed_locked_tokens) as u64,
        })
        &&& post.temporary_funds() == funds_decreased(
            funds_decreased(m, k1, o.consumed_locked_tokens as int),
            k2,
            o.second_token_used.amount as int,
        )
    } else {
        &&& o.consumed_locked_tokens == o.second_token_used.amount
        &&& o.consumed_locked_tokens <= m[k2]
        &&& o.first_token_used.amount <= m[k1]
        &&& o.locked_asset_token_nonce == second_token_nonce
        &&& o.unused_minted_assets_burn == (TokenBurn {
            token_id: asset_id,
            token_nonce: 0,
            amount: (m[k2] - o.consumed_locked_tokens) as u64,
        })
        &&& post.temporary_funds() == funds_decreased(
            funds_decreased(m, k1, o.first_token_used.amount as int),
            k2,
            o.consumed_locked_tokens as int,
        )
    })
    &&& o.wrapped_attributes == (WrappedLpTokenAttributes {
        lp_token_id: o.lp_received.token_id,
        lp_token_total_amount: o.lp_received.amount,
        locked_assets_token_id: locked_token,
        locked_assets_invested: o.consumed_locked_tokens,
        locked_assets_nonce: o.locked_asset_token_nonce,
    })
    &&& o.wrapped_token_nonce == post.spec_token_nonce()
    &&& o.wrapped_transfer == (TokenTransfer {
        token_id: pre.spec_token_id().unwrap(),
        token_nonce: o.wrapped_token_nonce,
        amount: o.lp_received.amount,
        to: caller,
    })
}

/// What a successful proxied liquidity removal decides and moves.
#[derive(Debug)]
pub struct RemoveLiquidityProxyOutcome {
    /// The LP token identifier the pair reported; it matched the receipt's.
    pub lp_token_id: u64,
    /// The share of the original locked-asset investment being returned,
    /// pro-rated by the liquidity paid back.
    pub locked_assets_invested: u64,
    /// What the pool reported the position redeems for: the asset side and
    /// the other, fungible side.
    pub assets_received: u64,
    pub fungible_token: TokenAmountPair,
    /// Transfer of the fungible side to the caller.
    pub fungible_transfer: TokenTransfer,
    /// Transfer of the returned locked assets to the caller.
    pub locked_asset_transfer: TokenTransfer,
    /// When the pool returned more assets than were originally invested, the
    /// surplus goes to the caller as plain assets.
    pub asset_surplus_transfer: Option<TokenTransfer>,
    /// When the pool returned fewer assets than were invested, the
    /// difference of the locked position is burned.
    pub locked_deficit_burn: Option<TokenBurn>,
    /// Burn of the asset tokens that stood in for the locked investment.
    pub asset_burn: TokenBurn,
    /// Burn of the wrapped LP receipt paid in.
    pub wrapped_burn: TokenBurn,
}

/// The first precondition a proxied liquidity removal fails, before any
/// pool call; `None` when all local checks pass.
pub open spec fn remove_liquidity_precheck(
    pre: ProxyPairModule,
    pair_address: u64,
    payment_token_id: u64,
    payment_token_nonce: u64,
    payment_amount: u64,
) -> Option<ContractError> {
    if !pre.pairs().contains(pair_address) {
        Some(ContractError::PermissionError)
    } else if pre.spec_params().is_none() {
        Some(ContractError::StateError)
    } else if payment_token_nonce == 0 {
        Some(ContractError::ValidationError)
    } else if payment_amount == 0 {
        Some(ContractError::ZeroAmountError)
    } else if pre.spec_token_id() != Some(payment_token_id) {
        Some(ContractError::ValidationError)
    } else {
        None
    }
}

/// The liquidity-pool proxy: escrow, whitelists, the wrapped LP token and
/// the pool-call parameters.
pub struct ProxyPairModule {
    owner: u64,
    asset: AssetModule,
    temporary_funds_entries: Vec<(TempFundsKey, u64)>,
    intermediated_pairs: Vec<u64>,
    accepted_locked_assets: Vec<u64>,
    token_id: Option<u64>,
    token_nonce: u64,
    params: Option<ProxyPairParams>,
}

impl ProxyPairModule {
    pub closed spec fn spec_owner(self) -> u64 {
        self.owner
    }

    pub closed spec fn spec_asset_token_id(self) -> u64 {
        self.asset.token_id
    }

    pub closed spec fn tf_entries(self) -> Seq<(TempFundsKey, u64)> {
        self.temporary_funds_entries@
    }

    /// The escrow map this proxy holds.
    pub open spec fn temporary_funds(self) -> Map<TempFundsKey, u64> {
        map_view(self.tf_entries())
    }

    pub closed spec fn pairs(self) -> Seq<u64> {
        self.intermediated_pairs@
    }

    pub closed spec fn locked_assets(self) -> Seq<u64> {
        self.accepted_locked_assets@
    }

    pub closed spec fn spec_token_id(self) -> Option<u64> {
        self.token_id
    }

    pub closed spec fn spec_token_nonce(self) -> u64 {
        self.token_nonce
    }

    pub closed spec fn spec_params(self) -> Option<ProxyPairParams> {
        self.params
    }

    /// Escrow keys are unique and every escrowed balance is positive.
    pub open spec fn wf(self) -> bool {
        &&& keys_unique(self.tf_entries())
        &&& forall|i: int| 0 <= i < self.tf_entries().len() ==> (#[trigger] self.tf_entries()[
            i]).1 > 0
    }

    /// The administrative state: everything but the escrow and the nonce.
    pub open spec fn same_admin_state(self, other: ProxyPairModule) -> bool {
        &&& self.spec_owner() == other.spec_owner()
        &&& self.spec_asset_token_id() == other.spec_asset_token_id()
        &&& self.pairs() == other.pairs()
        &&& self.locked_assets() == other.locked_assets()
        &&& self.spec_token_id() == other.spec_token_id()
        &&& self.spec_params() == other.spec_params()
    }

    /// A fresh proxy for the given asset token, owned by `owner`.
    pub fn new(owner: u64, asset_token_id: u64) -> (r: ProxyPairModule)
        ensures
            r.wf(),
            r.spec_owner() == owner,
            r.spec_asset_token_id() == asset_token_id,
            r.tf_entries().len() == 0,
            r.pairs().len() == 0,
            r.locked_assets().len() == 0,
            r.spec_token_id().is_none(),
            r.spec_token_nonce() == 0,
            r.spec_params().is_none(),
    {
        ProxyPairModule {
            owner,
            asset: AssetModule::new(asset_token_id),
            temporary_funds_entries: Vec::new(),
            intermediated_pairs: Vec::new(),
            accepted_locked_assets: Vec::new(),
            token_id: None,
            token_nonce: 0,
            params: None,
        }
    }

    /// Records the wrapped LP token identifier obtained from issuance.
    pub fn set_token_id(&mut self, token_id: u64)
        ensures
            final(self).spec_token_id() == Some(token_id),
            final(self).wf() == old(self).wf(),
            final(self).tf_entries() == old(self).tf_entries(),
            final(self).pairs() == old(self).pairs(),
            final(self).locked_assets() == old(self).locked_assets(),
            final(self).spec_owner() == old(self).spec_owner(),
            final(self).spec_asset_token_id() == old(self).spec_asset_token_id(),
            final(self).spec_token_nonce() == old(self).spec_token_nonce(),
            final(self).spec_params() == old(self).spec_params(),
    {
        self.token_id = Some(token_id);
    }

    pub fn get_token_id(&self) -> (r: Option<u64>)
        ensures
            r == self.spec_token_id(),
    {
        self.token_id
    }

    /// Owner-only: sets the pool-call gas parameters.
    pub fn set_proxy_params(&mut self, caller: u64, proxy_params: ProxyPairParams) -> (r: Result<
        (),
        ContractError,
    >)
        ensures
            final(self).wf() == old(self).wf(),
            r.is_ok() <==> caller == old(self).spec_owner(),
            r.is_err() ==> *final(self) == *old(self) && r == Err::<(), ContractError>(
                ContractError::PermissionError,
            ),
            r.is_ok() ==> final(self).spec_params() == Some(proxy_params) && final(self).tf_entries() == old(self).tf_entries() && final(self).pairs() == old(self).pairs()
                && final(self).locked_assets() == old(self).locked_assets() && final(self).spec_token_id() == old(self).spec_token_id() && final(self).spec_token_nonce()
                == old(self).spec_token_nonce() && final(self).spec_owner() == old(self).spec_owner() && final(self).spec_asset_token_id() == old(self).spec_asset_token_id(),
    {
        if caller != self.owner {
            return Err(ContractError::PermissionError);
        }
        self.params = Some(proxy_params);
        Ok(())
    }

    /// Owner-only: whitelists a pair contract address.
    pub fn add_pair_to_intermediate(&mut self, caller: u64, pair_address: u64) -> (r: Result<
        (),
        ContractError,
    >)
        ensures
            final(self).wf() == old(self).wf(),
            r.is_ok() <==> caller == old(self).spec_owner(),
            r.is_err() ==> *final(self) == *old(self) && r == Err::<(), ContractError>(
                ContractError::PermissionError,
            ),
            r.is_ok() ==> final(self).pairs().contains(pair_address) && (old(self).pairs().contains(pair_address) ==> final(self).pairs() == old(self).pairs()) && (
            !old(self).pairs().contains(pair_address) ==> final(self).pairs() == old(self).pairs().push(pair_address)) && final(self).tf_entries() == old(self).tf_entries()
                && final(self).locked_assets() == old(self).locked_assets() && final(self).spec_token_id() == old(self).spec_token_id() && final(self).spec_token_nonce()
                == old(self).spec_token_nonce() && final(self).spec_params() == old(self).spec_params() && final(self).spec_owner() == old(self).spec_owner() && final(self).spec_asset_token_id() == old(self).spec_asset_token_id(),
    {
        if caller != self.owner {
            return Err(ContractError::PermissionError);
        }
        list_insert(&mut self.intermediated_pairs, pair_address);
        Ok(())
    }

    /// Owner-only: removes a pair contract from the whitelist; the address
    /// must be whitelisted.
    pub fn remove_intermediated_pair(&mut self, caller: u64, pair_address: u64) -> (r: Result<
        (),
        ContractError,
    >)
        ensures
            final(self).wf() == old(self).wf(),
            r.is_ok() <==> caller == old(self).spec_owner() && old(self).pairs().contains(
                pair_address,
            ),
            r.is_err() ==> *final(self) == *old(self) && r == Err::<(), ContractError>(
                ContractError::PermissionError,
            ),
            r.is_ok() ==> (exists|i: int|
                0 <= i < old(self).pairs().len() && old(self).pairs()[i] == pair_address && final(self).pairs() == old(self).pairs().remove(i)) && final(self).tf_entries() == old(self).tf_entries() && final(self).locked_assets() == old(self).locked_assets() && final(self).spec_token_id() == old(self).spec_token_id() && final(self).spec_token_nonce()
                == old(self).spec_token_nonce() && final(self).spec_params() == old(self).spec_params() && final(self).spec_owner() == old(self).spec_owner() && final(self).spec_asset_token_id() == old(self).spec_asset_token_id(),
    {
        if caller != self.owner {
            return Err(ContractError::PermissionError);
        }
        if !list_contains(&self.intermediated_pairs, pair_address) {
            return Err(ContractError::PermissionError);
        }
        list_remove(&mut self.intermediated_pairs, pair_address);
        Ok(())
    }

    /// Owner-only: accepts a locked-asset token identifier.
    pub fn add_accepted_locked_asset_token_id(&mut self, caller: u64, token_id: u64) -> (r: Result<
        (),
        ContractError,
    >)
        ensures
            final(self).wf() == old(self).wf(),
            r.is_ok() <==> caller == old(self).spec_owner(),
            r.is_err() ==> *final(self) == *old(self) && r == Err::<(), ContractError>(
                ContractError::PermissionError,
            ),
            r.is_ok() ==> final(self).locked_assets().contains(token_id) && (old(self).locked_assets().contains(token_id) ==> final(self).locked_assets() == old(self).locked_assets()) && (!old(self).locked_assets().contains(token_id) ==> final(self).locked_assets() == old(self).locked_assets().push(token_id)) && final(self).tf_entries() == old(self).tf_entries() && final(self).pairs() == old(self).pairs()
                && final(self).spec_token_id() == old(self).spec_token_id() && final(self).spec_token_nonce() == old(self).spec_token_nonce() && final(self).spec_params()
                == old(self).spec_params() && final(self).spec_owner() == old(self).spec_owner()
                && final(self).spec_asset_token_id() == old(self).spec_asset_token_id(),
    {
        if caller != self.owner {
            return Err(ContractError::PermissionError);
        }
        list_insert(&mut self.accepted_locked_assets, token_id);
        Ok(())
    }

    /// Owner-only: removes an accepted locked-asset token identifier; it
    /// must be accepted.
    pub fn remove_accepted_locked_asset_token_id(&mut self, caller: u64, token_id: u64) -> (r:
        Result<(), ContractError>)
        ensures
            final(self).wf() == old(self).wf(),
            r.is_ok() <==> caller == old(self).spec_owner() && old(self).locked_assets().contains(
                token_id,
            ),
            r.is_err() ==> *final(self) == *old(self) && r == Err::<(), ContractError>(
                ContractError::PermissionError,
            ),
            r.is_ok() ==> (exists|i: int|
                0 <= i < old(self).locked_assets().len() && old(self).locked_assets()[i]
                    == token_id && final(self).locked_assets() == old(self).locked_assets().remove(
                    i,
                )) && final(self).tf_entries() == old(self).tf_entries() && final(self).pairs()
                == old(self).pairs() && final(self).spec_token_id() == old(self).spec_token_id()
                && final(self).spec_token_nonce() == old(self).spec_token_nonce() && final(self).spec_params() == old(self).spec_params() && final(self).spec_owner() == old(self).spec_owner() && final(self).spec_asset_token_id() == old(self).spec_asset_token_id(),
    {
        if caller != self.owner {
            return Err(ContractError::PermissionError);
        }
        if !list_contains(&self.accepted_locked_assets, token_id) {
            return Err(ContractError::PermissionError);
        }
        list_remove(&mut self.accepted_locked_assets, token_id);
        Ok(())
    }

    /// The escrowed amount under a key, zero when absent.
    pub fn get_temporary_funds(&self, caller: u64, token_id: u64, token_nonce: u64) -> (r: u64)
        requires
            self.wf(),
        ensures
            ({
                let key = (TempFundsKey { caller, token_id, token_nonce });
                r == if self.temporary_funds().dom().contains(key) {
                    self.temporary_funds()[key]
                } else {
                    0u64
                }
            }),
    {
        let key = TempFundsKey { caller, token_id, token_nonce };
        match find_funds(&self.temporary_funds_entries, key) {
            Some(i) => {
                proof {
                    lemma_map_view_get(self.temporary_funds_entries@, i as int);
                }
                self.temporary_funds_entries[i].1
            },
            None => {
                proof {
                    lemma_map_view_contains(self.temporary_funds_entries@, key);
                }
                0
            },
        }
    }

    /// A user deposits one leg of a proxy operation: the escrow under
    /// (caller, token, nonce) grows by the paid amount.  The pair must be
    /// intermediated and the amount positive; a deposit that would overflow
    /// the escrow balance is rejected.
    pub fn accept_esdt_payment_proxy(
        &mut self,
        caller: u64,
        pair_address: u64,
        token_id: u64,
        token_nonce: u64,
        amount: u64,
    ) -> (r: Result<(), ContractError>)
        requires
            old(self).wf(),
        ensures
            final(self).wf(),
            r.is_err() ==> *final(self) == *old(self),
            ({
                let key = (TempFundsKey { caller, token_id, token_nonce });
                let held = if old(self).temporary_funds().dom().contains(key) {
                    old(self).temporary_funds()[key] as int
                } else {
                    0
                };
                &&& (r.is_ok() <==> old(self).pairs().contains(pair_address) && amount > 0 && held
                    + amount <= u64::MAX)
                &&& (r.is_err() ==> r == Err::<(), ContractError>(
                    if !old(self).pairs().contains(pair_address) {
                        ContractError::PermissionError
                    } else if amount == 0 {
                        ContractError::ZeroAmountError
                    } else {
                        ContractError::ValidationError
                    },
                ))
                &&& (r.is_ok() ==> final(self).temporary_funds() == old(self).temporary_funds().insert(key, (held + amount) as u64) && old(self).same_admin_state(*final(self)) && final(self).spec_token_nonce() == old(self).spec_token_nonce())
            }),
    {
        if !list_contains(&self.intermediated_pairs, pair_address) {
            return Err(ContractError::PermissionError);
        }
        if amount == 0 {
            return Err(ContractError::ZeroAmountError);
        }
        let key = TempFundsKey { caller, token_id, token_nonce };
        match find_funds(&self.temporary_funds_entries, key) {
            Some(i) => {
                proof {
                    lemma_map_view_get(self.temporary_funds_entries@, i as int);
                }
                let held = self.temporary_funds_entries[i].1;
                if held > u64::MAX - amount {
                    return Err(ContractError::ValidationError);
                }
                proof {
                    lemma_map_view_update(self.temporary_funds_entries@, i as int, (held + amount) as u64);
                }
                let new_total = held + amount;
                self.temporary_funds_entries[i] = (key, new_total);
                Ok(())
            },
            None => {
                proof {
                    lemma_map_view_contains(self.temporary_funds_entries@, key);
                    lemma_map_view_push(self.temporary_funds_entries@, key, amount);
                }
                self.temporary_funds_entries.push((key, amount));
                proof {
                    assert(forall|j: int|
                        0 <= j < old(self).tf_entries().len() ==> (#[trigger] self.tf_entries()[
                            j]) == old(self).tf_entries()[j]);
                    assert(self.tf_entries()[self.tf_entries().len() - 1] == (key, amount));
                }
                Ok(())
            },
        }
    }

    /// Returns a user's escrow under the two given keys and clears it.
    pub fn reclaim_temporary_funds_proxy(
        &mut self,
        caller: u64,
        first_token_id: u64,
        first_token_nonce: u64,
        second_token_id: u64,
        second_token_nonce: u64,
    ) -> (r: Vec<TokenTransfer>)
        requires
            old(self).wf(),
        ensures
            final(self).wf(),
            old(self).same_admin_state(*final(self)),
            final(self).spec_token_nonce() == old(self).spec_token_nonce(),
            ({
                let k1 = (TempFundsKey {
                    caller,
                    token_id: first_token_id,
                    token_nonce: first_token_nonce,
                });
                let k2 = (TempFundsKey {
                    caller,
                    token_id: second_token_id,
                    token_nonce: second_token_nonce,
                });
                let m0 = old(self).temporary_funds();
                let m1 = m0.remove(k1);
                &&& final(self).temporary_funds() == m1.remove(k2)
                &&& r@.len() == (if m0.dom().contains(k1) {
                    1int
                } else {
                    0
                }) + (if m1.dom().contains(k2) {
                    1int
                } else {
                    0
                })
                &&& (m0.dom().contains(k1) ==> r@[0] == (TokenTransfer {
                    token_id: first_token_id,
                    token_nonce: first_token_nonce,
                    amount: m0[k1],
                    to: caller,
                }))
                &&& (m1.dom().contains(k2) ==> r@.last() == (TokenTransfer {
                    token_id: second_token_id,
                    token_nonce: second_token_nonce,
                    amount: m1[k2],
                    to: caller,
                }))
            }),
    {
        let mut transfers: Vec<TokenTransfer> = Vec::new();
        self.send_temporary_funds_back(
            caller,
            first_token_id,
            first_token_nonce,
            &mut transfers,
        );
        self.send_temporary_funds_back(
            caller,
            second_token_id,
            second_token_nonce,
            &mut transfers,
        );
        transfers
    }

    /// Adds liquidity through an intermediated pair out of the caller's
    /// escrow.  Both legs must be escrowed with positive amounts, the token
    /// identifiers must differ, exactly one leg must be a semi-fungible
    /// (locked) position, and one leg must be an accepted locked asset.  The
    /// locked leg is represented towards the pool by freshly minted asset
    /// tokens; whatever the pool does not consume of them is burned.  The
    /// escrow shrinks by exactly what the pool consumed, and the caller
    /// receives a wrapped LP receipt recording the position.
    ///
    /// The pool's answers are not trusted: a zero LP amount, an unexpected
    /// token, or a consumption beyond the forwarded amounts aborts with an
    /// external-call error, leaving this contract's state unchanged.
    pub fn add_liquidity_proxy<P: PairContract>(
        &mut self,
        pool: &mut P,
        pair_address: u64,
        caller: u64,
        gas_left: u64,
        first_token_id: u64,
        first_token_nonce: u64,
        first_token_amount_min: u64,
        second_token_id: u64,
        second_token_nonce: u64,
        second_token_amount_min: u64,
    ) -> (r: Result<AddLiquidityProxyOutcome, ContractError>)
        requires
            old(self).wf(),
            old(self).spec_token_nonce() < u64::MAX,
        ensures
            final(self).wf(),
            r.is_err() ==> *final(self) == *old(self),
            ({
                let pre = add_liquidity_precheck(
                    *old(self),
                    pair_address,
                    caller,
                    first_token_id,
                    first_token_nonce,
                    second_token_id,
                    second_token_nonce,
                );
                &&& (pre matches Some(e) ==> r == Err::<AddLiquidityProxyOutcome, ContractError>(
                    e,
                ))
                &&& (r.is_err() && pre.is_none() ==> r == Err::<
                    AddLiquidityProxyOutcome,
                    ContractError,
                >(ContractError::ExternalCallError))
            }),
            r matches Ok(o) ==> add_liquidity_applied(
                *old(self),
                *final(self),
                o,
                caller,
                first_token_id,
                first_token_nonce,
                second_token_id,
                second_token_nonce,
            ),
    {
        if !list_contains(&self.intermediated_pairs, pair_address) {
            return Err(ContractError::PermissionError);
        }
        let proxy_params = match self.params {
            Some(p) => p,
            None => { return Err(ContractError::StateError) },
        };
        let wrapped_lp_token_id = match self.token_id {
            Some(t) => t,
            None => { return Err(ContractError::StateError) },
        };
        if first_token_id == second_token_id {
            return Err(ContractError::ValidationError);
        }
        if !((first_token_nonce == 0 && second_token_nonce != 0) || (first_token_nonce != 0
            && second_token_nonce == 0)) {
            return Err(ContractError::ValidationError);
        }
        let locked_asset_token_id = if list_contains(&self.accepted_locked_assets, first_token_id) {
            first_token_id
        } else if list_contains(&self.accepted_locked_assets, second_token_id) {
            second_token_id
        } else {
            return Err(ContractError::ValidationError);
        };
        let first_token_amount = self.get_temporary_funds(caller, first_token_id, first_token_nonce);
        if first_token_amount == 0 {
            proof {
                lemma_positive_balance(
                    self.temporary_funds_entries@,
                    TempFundsKey { caller, token_id: first_token_id, token_nonce: first_token_nonce },
                );
            }
            return Err(ContractError::ZeroAmountError);
        }
        let second_token_amount = self.get_temporary_funds(
            caller,
            second_token_id,
            second_token_nonce,
        );
        if second_token_amount == 0 {
            proof {
                lemma_positive_balance(
                    self.temporary_funds_entries@,
                    TempFundsKey { caller, token_id: second_token_id, token_nonce: second_token_nonce },
                );
            }
            return Err(ContractError::ZeroAmountError);
        }
        proof {
            let k1 = (TempFundsKey {
                caller,
                token_id: first_token_id,
                token_nonce: first_token_nonce,
            });
            let k2 = (TempFundsKey {
                caller,
                token_id: second_token_id,
                token_nonce: second_token_nonce,
            });
            lemma_map_view_contains(self.temporary_funds_entries@, k1);
            lemma_map_view_contains(self.temporary_funds_entries@, k2);
        }
        let asset_token_id = self.asset.token_id;

        // forward both legs to the pair, minting the fungible representation
        // of the semi-fungible leg
        let minted_for_forward = if first_token_nonce != 0 {
            TokenMint { token_id: asset_token_id, amount: first_token_amount }
        } else {
            TokenMint { token_id: asset_token_id, amount: second_token_amount }
        };
        let first_to_send = if first_token_nonce == 0 {
            first_token_id
        } else {
            asset_token_id
        };
        let forward_gas = min_u64(gas_left, proxy_params.accept_esdt_payment_gas_limit);
        if pool.accept_esdt_payment(first_to_send, first_token_amount, forward_gas).is_err() {
            return Err(ContractError::ExternalCallError);
        }
        let second_to_send = if second_token_nonce == 0 {
            second_token_id
        } else {
            asset_token_id
        };
        if pool.accept_esdt_payment(second_to_send, second_token_amount, forward_gas).is_err() {
            return Err(ContractError::ExternalCallError);
        }

        // the actual liquidity addition
        let gas_limit = min_u64(gas_left, proxy_params.add_liquidity_gas_limit);
        let (lp_received, first_token_used, second_token_used) = pool.add_liquidity(
            first_token_amount,
            second_token_amount,
            first_token_amount_min,
            second_token_amount_min,
            gas_limit,
        );
        if lp_received.amount == 0 {
            return Err(ContractError::ExternalCallError);
        }
        if !(first_token_used.token_id == first_token_id || second_token_used.token_id
            == second_token_id) {
            return Err(ContractError::ExternalCallError);
        }

        // recompute the escrow and burn what the pool did not consume
        let consumed_locked_tokens: u64;
        let locked_asset_token_nonce: u64;
        let unused_minted_assets: u64;
        if first_token_used.token_id == asset_token_id {
            if first_token_used.amount > first_token_amount {
                return Err(ContractError::ExternalCallError);
            }
            if second_token_used.amount > second_token_amount {
                return Err(ContractError::ExternalCallError);
            }
            consumed_locked_tokens = first_token_used.amount;
            unused_minted_assets = first_token_amount - consumed_locked_tokens;
            locked_asset_token_nonce = first_token_nonce;
            self.decrease_temporary_funds_amount(
                caller,
                first_token_id,
                first_token_nonce,
                consumed_locked_tokens,
            );
            self.decrease_temporary_funds_amount(
                caller,
                second_token_id,
                second_token_nonce,
                second_token_used.amount,
            );
        } else if second_token_used.token_id == asset_token_id {
            if second_token_used.amount > second_token_amount {
                return Err(ContractError::ExternalCallError);
            }
            if first_token_used.amount > first_token_amount {
                return Err(ContractError::ExternalCallError);
            }
            consumed_locked_tokens = second_token_used.amount;
            unused_minted_assets = second_token_amount - consumed_locked_tokens;
            locked_asset_token_nonce = second_token_nonce;
            self.decrease_temporary_funds_amount(
                caller,
                first_token_id,
                first_token_nonce,
                first_token_used.amount,
            );
            self.decrease_temporary_funds_amount(
                caller,
                second_token_id,
                second_token_nonce,
                consumed_locked_tokens,
            );
        } else {
            return Err(ContractError::ExternalCallError);
        }

        // mint the wrapped LP receipt
        self.token_nonce = self.token_nonce + 1;
        let wrapped_attributes = WrappedLpTokenAttributes {
            lp_token_id: lp_received.token_id,
            lp_token_total_amount: lp_received.amount,
            locked_assets_token_id: locked_asset_token_id,
            locked_assets_invested: consumed_locked_tokens,
            locked_assets_nonce: locked_asset_token_nonce,
        };
        Ok(
            AddLiquidityProxyOutcome {
                minted_for_forward,
                lp_received,
                first_token_used,
                second_token_used,
                consumed_locked_tokens,
                unused_minted_assets_burn: TokenBurn {
                    token_id: asset_token_id,
                    token_nonce: 0,
                    amount: unused_minted_assets,
                },
                locked_asset_token_nonce,
                wrapped_attributes,
                wrapped_token_nonce: self.token_nonce,
                wrapped_transfer: TokenTransfer {
                    token_id: wrapped_lp_token_id,
                    token_nonce: self.token_nonce,
                    amount: lp_received.amount,
                    to: caller,
                },
            },
        )
    }

    /// Removes liquidity through an intermediated pair against a wrapped LP
    /// receipt paid in.  The receipt's share of the original locked-asset
    /// investment is pro-rated by the liquidity returned; the caller gets the
    /// fungible side, the returned locked assets, and any surplus assets,
    /// while the stand-in assets and the receipt are burned.  The escrow is
    /// untouched.
    ///
    /// The receipt's attributes are decoded by the host and passed in; the
    /// payment can cover at most the receipt's total position.
    pub fn remove_liquidity_proxy<P: PairContract>(
        &self,
        pool: &mut P,
        pair_address: u64,
        caller: u64,
        gas_left: u64,
        payment_token_id: u64,
        payment_token_nonce: u64,
        payment_amount: u64,
        attributes: &WrappedLpTokenAttributes,
        first_token_amount_min: u64,
        second_token_amount_min: u64,
    ) -> (r: Result<RemoveLiquidityProxyOutcome, ContractError>)
        requires
            self.wf(),
            attributes.lp_token_total_amount > 0,
            payment_amount <= attributes.lp_token_total_amount,
        ensures
            ({
                let pre = remove_liquidity_precheck(
                    *self,
                    pair_address,
                    payment_token_id,
                    payment_token_nonce,
                    payment_amount,
                );
                &&& (pre matches Some(e) ==> r == Err::<
                    RemoveLiquidityProxyOutcome,
                    ContractError,
                >(e))
                &&& (r.is_err() && pre.is_none() ==> r == Err::<
                    RemoveLiquidityProxyOutcome,
                    ContractError,
                >(ContractError::ExternalCallError) || r == Err::<
                    RemoveLiquidityProxyOutcome,
                    ContractError,
                >(ContractError::ValidationError))
            }),
            r matches Ok(o) ==> ({
                let asset_id = self.spec_asset_token_id();
                let invested = payment_amount as int * attributes.locked_assets_invested as int
                    / attributes.lp_token_total_amount as int;
                let to_send = if o.assets_received < o.locked_assets_invested {
                    o.assets_received
                } else {
                    o.locked_assets_invested
                };
                &&& o.lp_token_id == attributes.lp_token_id
                &&& o.locked_assets_invested as int == invested
                &&& o.locked_assets_invested > 0
                &&& o.fungible_token.token_id != asset_id
                &&& o.fungible_transfer == (TokenTransfer {
                    token_id: o.fungible_token.token_id,
                    token_nonce: 0,
                    amount: o.fungible_token.amount,
                    to: caller,
                })
                &&& o.locked_asset_transfer == (TokenTransfer {
                    token_id: attributes.locked_assets_token_id,
                    token_nonce: attributes.locked_assets_nonce,
                    amount: to_send,
                    to: caller,
                })
                &&& (o.assets_received > o.locked_assets_invested ==> o.asset_surplus_transfer
                    == Some(
                    TokenTransfer {
                        token_id: asset_id,
                        token_nonce: 0,
                        amount: (o.assets_received - o.locked_assets_invested) as u64,
                        to: caller,
                    },
                ) && o.locked_deficit_burn.is_none() && o.asset_burn == (TokenBurn {
                    token_id: asset_id,
                    token_nonce: 0,
                    amount: o.locked_assets_invested,
                }))
                &&& (o.assets_received < o.locked_assets_invested ==> o.asset_surplus_transfer.is_none()
                    && o.locked_deficit_burn == Some(
                    TokenBurn {
                        token_id: attributes.locked_assets_token_id,
                        token_nonce: attributes.locked_assets_nonce,
                        amount: (o.locked_assets_invested - o.assets_received) as u64,
                    },
                ) && o.asset_burn == (TokenBurn {
                    token_id: asset_id,
                    token_nonce: 0,
                    amount: o.assets_received,
                }))
                &&& (o.assets_received == o.locked_assets_invested
                    ==> o.asset_surplus_transfer.is_none() && o.locked_deficit_burn.is_none()
                    && o.asset_burn == (TokenBurn {
                    token_id: asset_id,
                    token_nonce: 0,
                    amount: o.assets_received,
                }))
                &&& o.wrapped_burn == (TokenBurn {
                    token_id: payment_token_id,
                    token_nonce: payment_token_nonce,
                    amount: payment_amount,
                })
            }),
    {
        if !list_contains(&self.intermediated_pairs, pair_address) {
            return Err(ContractError::PermissionError);
        }
        let proxy_params = match self.params {
            Some(p) => p,
            None => { return Err(ContractError::StateError) },
        };
        if payment_token_nonce == 0 {
            return Err(ContractError::ValidationError);
        }
        if payment_amount == 0 {
            return Err(ContractError::ZeroAmountError);
        }
        let wrapped_lp_token_id = match self.token_id {
            Some(t) => t,
            None => { return Err(ContractError::ValidationError) },
        };
        if payment_token_id != wrapped_lp_token_id {
            return Err(ContractError::ValidationError);
        }

        // ask the pair which LP token it manages and what the position is
        // currently worth
        let ask_gas = min_u64(gas_left, proxy_params.ask_for_lp_token_gas_limit);
        let lp_token_id = pool.get_lp_token_identifier(ask_gas);
        if lp_token_id != attributes.lp_token_id {
            return Err(ContractError::ValidationError);
        }
        let asset_token_id = self.asset.token_id;
        let tokens_for_position = pool.get_tokens_for_given_position(payment_amount, ask_gas);

        // the actual removal
        let remove_gas = min_u64(gas_left, proxy_params.remove_liquidity_gas_limit);
        if pool.remove_liquidity(
            lp_token_id,
            payment_amount,
            first_token_amount_min,
            second_token_amount_min,
            remove_gas,
        ).is_err() {
            return Err(ContractError::ExternalCallError);
        }

        // pro-rate the locked investment being returned
        proof {
            assert(payment_amount as int * attributes.locked_assets_invested as int
                <= u64::MAX as int * u64::MAX as int) by (nonlinear_arith)
                requires
                    payment_amount <= u64::MAX && attributes.locked_assets_invested <= u64::MAX,
            ;
            lemma_ratio_le(
                payment_amount as int,
                attributes.locked_assets_invested as int,
                attributes.lp_token_total_amount as int,
            );
        }
        let wide: u128 = payment_amount as u128 * attributes.locked_assets_invested as u128
            / attributes.lp_token_total_amount as u128;
        let locked_assets_invested: u64 = wide as u64;
        if locked_assets_invested == 0 {
            return Err(ContractError::ValidationError);
        }

        // split the redeemed position into the asset side and the fungible
        // side
        let assets_received: u64;
        let fungible_token: TokenAmountPair;
        if tokens_for_position.0.token_id == asset_token_id {
            assets_received = tokens_for_position.0.amount;
            fungible_token = tokens_for_position.1;
        } else if tokens_for_position.1.token_id == asset_token_id {
            assets_received = tokens_for_position.1.amount;
            fungible_token = tokens_for_position.0;
        } else {
            return Err(ContractError::ExternalCallError);
        }
        if fungible_token.token_id == asset_token_id {
            // the pair reported the asset token on both sides
            return Err(ContractError::ExternalCallError);
        }
        let locked_assets_to_send = min_u64(assets_received, locked_assets_invested);
        let asset_surplus_transfer: Option<TokenTransfer>;
        let locked_deficit_burn: Option<TokenBurn>;
        let asset_burn: TokenBurn;
        if assets_received > locked_assets_invested {
            asset_surplus_transfer = Some(
                TokenTransfer {
                    token_id: asset_token_id,
                    token_nonce: 0,
                    amount: assets_received - locked_assets_invested,
                    to: caller,
                },
            );
            locked_deficit_burn = None;
            asset_burn = TokenBurn {
                token_id: asset_token_id,
                token_nonce: 0,
                amount: locked_assets_invested,
            };
        } else if assets_received < locked_assets_invested {
            asset_surplus_transfer = None;
            locked_deficit_burn = Some(
                TokenBurn {
                    token_id: attributes.locked_assets_token_id,
                    token_nonce: attributes.locked_assets_nonce,
                    amount: locked_assets_invested - assets_received,
                },
            );
            asset_burn = TokenBurn {
                token_id: asset_token_id,
                token_nonce: 0,
                amount: assets_received,
            };
        } else {
            asset_surplus_transfer = None;
            locked_deficit_burn = None;
            asset_burn = TokenBurn {
                token_id: asset_token_id,
                token_nonce: 0,
                amount: assets_received,
            };
        }
        Ok(
            RemoveLiquidityProxyOutcome {
                lp_token_id,
                locked_assets_invested,
                assets_received,
                fungible_token,
                fungible_transfer: TokenTransfer {
                    token_id: fungible_token.token_id,
                    token_nonce: 0,
                    amount: fungible_token.amount,
                    to: caller,
                },
                locked_asset_transfer: TokenTransfer {
                    token_id: attributes.locked_assets_token_id,
                    token_nonce: attributes.locked_assets_nonce,
                    amount: locked_assets_to_send,
                    to: caller,
                },
                asset_surplus_transfer,
                locked_deficit_burn,
                asset_burn,
                wrapped_burn: TokenBurn {
                    token_id: payment_token_id,
                    token_nonce: payment_token_nonce,
                    amount: payment_amount,
                },
            },
        )
    }

    /// Decrements one escrow entry; the entry disappears when it reaches
    /// zero.
    fn decrease_temporary_funds_amount(
        &mut self,
        caller: u64,
        token_id: u64,
        token_nonce: u64,
        decrease_amount: u64,
    )
        requires
            old(self).wf(),
            old(self).temporary_funds().dom().contains(
                TempFundsKey { caller, token_id, token_nonce },
            ),
            decrease_amount <= old(self).temporary_funds()[
                TempFundsKey { caller, token_id, token_nonce }],
        ensures
            final(self).wf(),
            old(self).same_admin_state(*final(self)),
            final(self).spec_token_nonce() == old(self).spec_token_nonce(),
            final(self).temporary_funds() == funds_decreased(
                old(self).temporary_funds(),
                TempFundsKey { caller, token_id, token_nonce },
                decrease_amount as int,
            ),
    {
        let key = TempFundsKey { caller, token_id, token_nonce };
        proof {
            lemma_map_view_contains(self.temporary_funds_entries@, key);
        }
        match find_funds(&self.temporary_funds_entries, key) {
            Some(i) => {
                proof {
                    lemma_map_view_get(self.temporary_funds_entries@, i as int);
                }
                let held = self.temporary_funds_entries[i].1;
                if held > decrease_amount {
                    proof {
                        lemma_map_view_update(
                            self.temporary_funds_entries@,
                            i as int,
                            (held - decrease_amount) as u64,
                        );
                    }
                    self.temporary_funds_entries[i] = (key, held - decrease_amount);
                } else {
                    proof {
                        lemma_map_view_remove(self.temporary_funds_entries@, i as int);
                    }
                    self.temporary_funds_entries.remove(i);
                }
            },
            None => {
                proof {
                    assert(false);
                }
            },
        }
    }

    /// Clears one escrow entry, recording the refunding transfer.
    fn send_temporary_funds_back(
        &mut self,
        caller: u64,
        token_id: u64,
        token_nonce: u64,
        transfers: &mut Vec<TokenTransfer>,
    )
        requires
            old(self).wf(),
        ensures
            final(self).wf(),
            old(self).same_admin_state(*final(self)),
            final(self).spec_token_nonce() == old(self).spec_token_nonce(),
            ({
                let key = (TempFundsKey { caller, token_id, token_nonce });
                let m0 = old(self).temporary_funds();
                &&& final(self).temporary_funds() == m0.remove(key)
                &&& (m0.dom().contains(key) ==> final(transfers)@ == old(transfers)@.push(
                    TokenTransfer { token_id, token_nonce, amount: m0[key], to: caller },
                ))
                &&& (!m0.dom().contains(key) ==> final(transfers)@ == old(transfers)@)
            }),
    {
        let key = TempFundsKey { caller, token_id, token_nonce };
        match find_funds(&self.temporary_funds_entries, key) {
            Some(i) => {
                proof {
                    lemma_map_view_get(self.temporary_funds_entries@, i as int);
                    lemma_map_view_remove(self.temporary_funds_entries@, i as int);
                }
                let amount = self.temporary_funds_entries[i].1;
                transfers.push(TokenTransfer { token_id, token_nonce, amount, to: caller });
                self.temporary_funds_entries.remove(i);
            },
            None => {
                proof {
                    lemma_map_view_contains(self.temporary_funds_entries@, key);
                    assert(map_view(self.temporary_funds_entries@).remove(key) =~= map_view(
                        self.temporary_funds_entries@,
                    ));
                }
            },
        }
    }
}

} // verus!
