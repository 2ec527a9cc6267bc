//! The farm proxy: enter, exit and claim against an intermediated farm
//! contract, wrapping farm positions into receipt tokens.
//!
//! Every state-changing farm call is preceded by a read-only simulation of
//! the same operation; a simulation that would yield nothing aborts the
//! operation before the real call is made.

use vstd::prelude::*;

use crate::asset::{TokenBurn, TokenTransfer};
use crate::errors::ContractError;
use crate::proxy_pair::TokenAmountPair;

verus! {

/// Gas ceilings for each sub-call the farm proxy issues.
#[derive(Clone, Copy, Debug, PartialEq, Eq, Structural)]
pub struct ProxyFarmParams {
    pub simulate_enter_farm_gas_limit: u64,
    pub simulate_exit_farm_gas_limit: u64,
    pub claim_rewards_gas_limit: u64,
    pub enter_farm_gas_limit: u64,
    pub exit_farm_gas_limit: u64,
    pub burn_tokens_gas_limit: u64,
}

/// A (token, nonce, amount) triple as farm contracts report positions.
#[derive(Clone, Copy, Debug, PartialEq, Eq, Structural)]
pub struct SftTokenAmountPair {
    pub token_id: u64,
    pub token_nonce: u64,
    pub amount: u64,
}

/// Attributes of a wrapped farm receipt: the underlying farm position and
/// the token originally deposited to obtain it.
#[derive(Clone, Copy, Debug, PartialEq, Eq, Structural)]
pub struct WrappedFarmTokenAttributes {
    pub farm_token_id: u64,
    pub farm_token_nonce: u64,
    pub farmed_token_id: u64,
    pub farmed_token_nonce: u64,
}

/// The external farm contract the proxy intermediates.  A deployment
/// implements this for the real cross-contract calls; the proxy validates
/// every answer.
pub trait FarmContract {
    /// Read-only probe: the farm position entering would produce.
    fn simulate_enter_farm(&mut self, token_in: u64, amount_in: u64, gas_limit: u64)
        -> SftTokenAmountPair;

    /// Read-only probe: what exiting would return (position tokens, reward).
    fn simulate_exit_farm(
        &mut self,
        token_id: u64,
        token_nonce: u64,
        amount: u64,
        gas_limit: u64,
    ) -> (TokenAmountPair, TokenAmountPair);

    /// The state-changing enter; an error aborts the operation.
    fn enter_farm(&mut self, token_id: u64, amount: u64, gas_limit: u64) -> Result<(), ()>;

    /// The state-changing exit; an error aborts the operation.
    fn exit_farm(&mut self, token_id: u64, token_nonce: u64, amount: u64, gas_limit: u64) -> Result<
        (),
        (),
    >;
}

fn list_contains(v: &Vec<u64>, x: u64) -> (r: bool)
    ensures
        r <==> v@.contains(x),
{
    let n = v.len();
    let mut i: usize = 0;
    while i < n
        invariant
            0 <= i <= n,
            n == v@.len(),
            forall|j: int| 0 <= j < i ==> v@[j] != x,
        decreases n - i,
    {
        if v[i] == x {
            return true;
        }
        i = i + 1;
    }
    false
}

fn min_u64(a: u64, b: u64) -> (r: u64)
    ensures
        r == if a < b {
            a
        } else {
            b
        },
{
    if a < b {
        a
    } else {
        b
    }
}

/// What a successful proxied farm entry decides and moves.
#[derive(Debug)]
pub struct EnterFarmProxyOutcome {
    /// The farm position the simulation promised.
    pub farm_token: SftTokenAmountPair,
    /// Attributes of the wrapped farm receipt created for the caller.
    pub wrapped_attributes: WrappedFarmTokenAttributes,
    pub wrapped_token_nonce: u64,
    /// Transfer of the wrapped farm receipt to the caller.
    pub wrapped_transfer: TokenTransfer,
}

/// What a successful proxied farm exit decides and moves.
#[derive(Debug)]
pub struct ExitFarmProxyOutcome {
    /// What the simulation reported: position tokens returned and reward.
    pub lp_returned: TokenAmountPair,
    pub reward: TokenAmountPair,
    /// Return of the originally farmed token to the caller.
    pub farmed_transfer: TokenTransfer,
    /// Transfer of the reward to the caller.
    pub reward_transfer: TokenTransfer,
    /// Burn of the wrapped farm receipt paid in.
    pub wrapped_burn: TokenBurn,
}

/// What a successful proxied reward claim decides and moves.
#[derive(Debug)]
pub struct ClaimRewardsProxyOutcome {
    /// What the simulated exit reported.
    pub lp_returned: TokenAmountPair,
    pub reward: TokenAmountPair,
    /// The farm position the simulated re-entry promised.
    pub new_farm_token: SftTokenAmountPair,
    /// Transfer of the reward to the caller.
    pub reward_transfer: TokenTransfer,
    /// Burn of the wrapped farm receipt paid in.
    pub wrapped_burn: TokenBurn,
    /// Attributes of the replacement wrapped farm receipt.
    pub new_wrapped_attributes: WrappedFarmTokenAttributes,
    pub wrapped_token_nonce: u64,
    /// Transfer of the replacement receipt to the caller.
    pub new_wrapped_transfer: TokenTransfer,
}

/// The farm proxy: its whitelist, wrapped farm token and parameters.
pub struct ProxyFarmModule {
    owner: u64,
    intermediated_farms: Vec<u64>,
    token_id: Option<u64>,
    token_nonce: u64,
    params: Option<ProxyFarmParams>,
}

/// The first precondition a proxied farm operation fails, before any farm
/// call; `None` when all local checks pass.  `expected_payment_token` is the
/// token the endpoint accepts: the wrapped LP token for entering, the
/// wrapped farm token for exiting and claiming.
pub open spec fn farm_precheck(
    pre: ProxyFarmModule,
    farm_address: u64,
    payment_amount: u64,
    payment_token_id: u64,
    expected_payment_token: Option<u64>,
) -> Option<ContractError> {
    if !pre.farms().contains(farm_address) {
        Some(ContractError::PermissionError)
    } else if pre.spec_params().is_none() {
        Some(ContractError::StateError)
    } else if pre.spec_token_id().is_none() {
        Some(ContractError::StateError)
    } else if payment_amount == 0 {
        Some(ContractError::ZeroAmountError)
    } else if expected_payment_token != Some(payment_token_id) {
        Some(ContractError::ValidationError)
    } else {
        None
    }
}

impl ProxyFarmModule {
    pub closed spec fn spec_owner(self) -> u64 {
        self.owner
    }

    pub closed spec fn farms(self) -> Seq<u64> {
        self.intermediated_farms@
    }

    pub closed spec fn spec_token_id(self) -> Option<u64> {
        self.token_id
    }

    pub closed spec fn spec_token_nonce(self) -> u64 {
        self.token_nonce
    }

    pub closed spec fn spec_params(self) -> Option<ProxyFarmParams> {
        self.params
    }

    /// Everything but the receipt nonce.
    pub open spec fn same_admin_state(self, other: ProxyFarmModule) -> bool {
        &&& self.spec_owner() == other.spec_owner()
        &&& self.farms() == other.farms()
        &&& self.spec_token_id() == other.spec_token_id()
        &&& self.spec_params() == other.spec_params()
    }

    /// A fresh farm proxy owned by `owner`.
    pub fn new(owner: u64) -> (r: ProxyFarmModule)
        ensures
            r.spec_owner() == owner,
            r.farms().len() == 0,
            r.spec_token_id().is_none(),
            r.spec_token_nonce() == 0,
            r.spec_params().is_none(),
    {
        ProxyFarmModule {
            owner,
            intermediated_farms: Vec::new(),
            token_id: None,
            token_nonce: 0,
            params: None,
        }
    }

    /// Records the wrapped farm token identifier obtained from issuance.
    pub fn set_token_id(&mut self, token_id: u64)
        ensures
            final(self).spec_token_id() == Some(token_id),
            final(self).spec_owner() == old(self).spec_owner(),
            final(self).farms() == old(self).farms(),
            final(self).spec_token_nonce() == old(self).spec_token_nonce(),
            final(self).spec_params() == old(self).spec_params(),
    {
        self.token_id = Some(token_id);
    }

    pub fn get_token_id(&self) -> (r: Option<u64>)
        ensures
            r == self.spec_token_id(),
    {
        self.token_id
    }

    /// Owner-only: sets the farm-call gas parameters.
    pub fn set_proxy_params(&mut self, caller: u64, proxy_params: ProxyFarmParams) -> (r: Result<
        (),
        ContractError,
    >)
        ensures
            r.is_ok() <==> caller == old(self).spec_owner(),
            r.is_err() ==> *final(self) == *old(self) && r == Err::<(), ContractError>(
                ContractError::PermissionError,
            ),
            r.is_ok() ==> final(self).spec_params() == Some(proxy_params) && final(self).farms()
                == old(self).farms() && final(self).spec_token_id() == old(self).spec_token_id()
                && final(self).spec_token_nonce() == old(self).spec_token_nonce() && final(self).spec_owner() == old(self).spec_owner(),
    {
        if caller != self.owner {
            return Err(ContractError::PermissionError);
        }
        self.params = Some(proxy_params);
        Ok(())
    }

    /// Owner-only: whitelists a farm contract address.
    pub fn add_farm_to_intermediate(&mut self, caller: u64, farm_address: u64) -> (r: Result<
        (),
        ContractError,
    >)
        ensures
            r.is_ok() <==> caller == old(self).spec_owner(),
            r.is_err() ==> *final(self) == *old(self) && r == Err::<(), ContractError>(
                ContractError::PermissionError,
            ),
            r.is_ok() ==> final(self).farms().contains(farm_address) && (old(self).farms().contains(farm_address) ==> final(self).farms() == old(self).farms()) && (
            !old(self).farms().contains(farm_address) ==> final(self).farms() == old(self).farms().push(farm_address)) && final(self).spec_token_id() == old(self).spec_token_id() && final(self).spec_token_nonce() == old(self).spec_token_nonce()
                && final(self).spec_params() == old(self).spec_params() && final(self).spec_owner()
                == old(self).spec_owner(),
    {
        if caller != self.owner {
            return Err(ContractError::PermissionError);
        }
        if !list_contains(&self.intermediated_farms, farm_address) {
            self.intermediated_farms.push(farm_address);
            proof {
                assert(self.intermediated_farms@[self.intermediated_farms@.len() - 1]
                    == farm_address);
            }
        }
        Ok(())
    }

    /// Owner-only: removes a farm contract from the whitelist; the address
    /// must be whitelisted.
    pub fn remove_intermediated_farm(&mut self, caller: u64, farm_address: u64) -> (r: Result<
        (),
        ContractError,
    >)
        ensures
            r.is_ok() <==> caller == old(self).spec_owner() && old(self).farms().contains(
                farm_address,
            ),
            r.is_err() ==> *final(self) == *old(self) && r == Err::<(), ContractError>(
                ContractError::PermissionError,
            ),
            r.is_ok() ==> (exists|i: int|
                0 <= i < old(self).farms().len() && old(self).farms()[i] == farm_address && final(self).farms() == old(self).farms().remove(i)) && final(self).spec_token_id() == old(self).spec_token_id() && final(self).spec_token_nonce() == old(self).spec_token_nonce()
                && final(self).spec_params() == old(self).spec_params() && final(self).spec_owner()
                == old(self).spec_owner(),
    {
        if caller != self.owner {
            return Err(ContractError::PermissionError);
        }
        let n = self.intermediated_farms.len();
        let mut i: usize = 0;
        while i < n
            invariant
                0 <= i <= n,
                n == self.intermediated_farms@.len(),
                *self == *old(self),
                caller == old(self).spec_owner(),
                forall|j: int| 0 <= j < i ==> self.intermediated_farms@[j] != farm_address,
            decreases n - i,
        {
            if self.intermediated_farms[i] == farm_address {
                proof {
                    assert(old(self).farms()[i as int] == farm_address);
                    assert(old(self).farms().contains(farm_address));
                }
                self.intermediated_farms.remove(i);
                return Ok(());
            }
            i = i + 1;
        }
        Err(ContractError::PermissionError)
    }

    /// Enters a farm with a wrapped LP position.  The entry is simulated
    /// first; a simulation yielding no farm tokens aborts with a zero-yield
    /// error before the state-changing call.  The caller receives a wrapped
    /// farm receipt recording the position and the deposit.
    pub fn enter_farm_proxy<F: FarmContract>(
        &mut self,
        farm: &mut F,
        farm_address: u64,
        caller: u64,
        gas_left: u64,
        payment_token_id: u64,
        payment_token_nonce: u64,
        payment_amount: u64,
        wrapped_lp_token_id: Option<u64>,
        wrapped_lp_attributes: &crate::proxy_pair::WrappedLpTokenAttributes,
    ) -> (r: Result<EnterFarmProxyOutcome, ContractError>)
        requires
            old(self).spec_token_nonce() < u64::MAX,
        ensures
            r.is_err() ==> *final(self) == *old(self),
            ({
                let pre = farm_precheck(
                    *old(self),
                    farm_address,
                    payment_amount,
                    payment_token_id,
                    wrapped_lp_token_id,
                );
                &&& (pre matches Some(e) ==> r == Err::<EnterFarmProxyOutcome, ContractError>(e))
                &&& (r.is_err() && pre.is_none() ==> r == Err::<
                    EnterFarmProxyOutcome,
                    ContractError,
                >(ContractError::ZeroYieldError) || r == Err::<
                    EnterFarmProxyOutcome,
                    ContractError,
                >(ContractError::ExternalCallError))
            }),
            r matches Ok(o) ==> ({
                &&& old(self).same_admin_state(*final(self))
                &&& final(self).spec_token_nonce() == old(self).spec_token_nonce() + 1
                &&& o.farm_token.amount > 0
                &&& o.wrapped_attributes == (WrappedFarmTokenAttributes {
                    farm_token_id: o.farm_token.token_id,
                    farm_token_nonce: o.farm_token.token_nonce,
                    farmed_token_id: payment_token_id,
                    farmed_token_nonce: payment_token_nonce,
                })
                &&& o.wrapped_token_nonce == final(self).spec_token_nonce()
                &&& o.wrapped_transfer == (TokenTransfer {
                    token_id: old(self).spec_token_id().unwrap(),
                    token_nonce: o.wrapped_token_nonce,
                    amount: o.farm_token.amount,
                    to: caller,
                })
            }),
    {
        if !list_contains(&self.intermediated_farms, farm_address) {
            return Err(ContractError::PermissionError);
        }
        let proxy_params = match self.params {
            Some(p) => p,
            None => { return Err(ContractError::StateError) },
        };
        let wrapped_farm_token_id = match self.token_id {
            Some(t) => t,
            None => { return Err(ContractError::StateError) },
        };
        if payment_amount == 0 {
            return Err(ContractError::ZeroAmountError);
        }
        let expected = match wrapped_lp_token_id {
            Some(t) => t == payment_token_id,
            None => false,
        };
        if !expected {
            return Err(ContractError::ValidationError);
        }

        let lp_token_id = wrapped_lp_attributes.lp_token_id;
        let sim_gas = min_u64(gas_left, proxy_params.simulate_enter_farm_gas_limit);
        let farm_result = farm.simulate_enter_farm(lp_token_id, payment_amount, sim_gas);
        if farm_result.amount == 0 {
            return Err(ContractError::ZeroYieldError);
        }
        let enter_gas = min_u64(gas_left, proxy_params.enter_farm_gas_limit);
        if farm.enter_farm(lp_token_id, payment_amount, enter_gas).is_err() {
            return Err(ContractError::ExternalCallError);
        }

        self.token_nonce = self.token_nonce + 1;
        let wrapped_attributes = WrappedFarmTokenAttributes {
            farm_token_id: farm_result.token_id,
            farm_token_nonce: farm_result.token_nonce,
            farmed_token_id: payment_token_id,
            farmed_token_nonce: payment_token_nonce,
        };
        Ok(
            EnterFarmProxyOutcome {
                farm_token: farm_result,
                wrapped_attributes,
                wrapped_token_nonce: self.token_nonce,
                wrapped_transfer: TokenTransfer {
                    token_id: wrapped_farm_token_id,
                    token_nonce: self.token_nonce,
                    amount: farm_result.amount,
                    to: caller,
                },
            },
        )
    }

    /// Exits a farm position held through a wrapped farm receipt.  The exit
    /// is simulated first; the caller receives the originally farmed token
    /// and the reward, and the receipt is burned.
    pub fn exit_farm_proxy<F: FarmContract>(
        &self,
        farm: &mut F,
        farm_address: u64,
        caller: u64,
        gas_left: u64,
        payment_token_id: u64,
        payment_token_nonce: u64,
        payment_amount: u64,
        attributes: &WrappedFarmTokenAttributes,
    ) -> (r: Result<ExitFarmProxyOutcome, ContractError>)
        ensures
            ({
                let pre = farm_precheck(
                    *self,
                    farm_address,
                    payment_amount,
                    payment_token_id,
                    self.spec_token_id(),
                );
                &&& (pre matches Some(e) ==> r == Err::<ExitFarmProxyOutcome, ContractError>(e))
                &&& (r.is_err() && pre.is_none() ==> r == Err::<
                    ExitFarmProxyOutcome,
                    ContractError,
                >(ContractError::ExternalCallError))
            }),
            r matches Ok(o) ==> ({
                &&& o.farmed_transfer == (TokenTransfer {
                    token_id: attributes.farmed_token_id,
                    token_nonce: attributes.farmed_token_nonce,
                    amount: o.lp_returned.amount,
                    to: caller,
                })
                &&& o.reward_transfer == (TokenTransfer {
                    token_id: o.reward.token_id,
                    token_nonce: 0,
                    amount: o.reward.amount,
                    to: caller,
                })
                &&& o.wrapped_burn == (TokenBurn {
                    token_id: payment_token_id,
                    token_nonce: payment_token_nonce,
                    amount: payment_amount,
                })
            }),
    {
        if !list_contains(&self.intermediated_farms, farm_address) {
            return Err(ContractError::PermissionError);
        }
        let proxy_params = match self.params {
            Some(p) => p,
            None => { return Err(ContractError::StateError) },
        };
        let wrapped_farm_token_id = match self.token_id {
            Some(t) => t,
            None => { return Err(ContractError::StateError) },
        };
        if payment_amount == 0 {
            return Err(ContractError::ZeroAmountError);
        }
        if payment_token_id != wrapped_farm_token_id {
            return Err(ContractError::ValidationError);
        }

        let farm_token_id = attributes.farm_token_id;
        let farm_token_nonce = attributes.farm_token_nonce;
        let sim_gas = min_u64(gas_left, proxy_params.simulate_exit_farm_gas_limit);
        let (lp_returned, reward) = farm.simulate_exit_farm(
            farm_token_id,
            farm_token_nonce,
            payment_amount,
            sim_gas,
        );
        let exit_gas = min_u64(gas_left, proxy_params.exit_farm_gas_limit);
        if farm.exit_farm(farm_token_id, farm_token_nonce, payment_amount, exit_gas).is_err() {
            return Err(ContractError::ExternalCallError);
        }
        Ok(
            ExitFarmProxyOutcome {
                lp_returned,
                reward,
                farmed_transfer: TokenTransfer {
                    token_id: attributes.farmed_token_id,
                    token_nonce: attributes.farmed_token_nonce,
                    amount: lp_returned.amount,
                    to: caller,
                },
                reward_transfer: TokenTransfer {
                    token_id: reward.token_id,
                    token_nonce: 0,
                    amount: reward.amount,
                    to: caller,
                },
                wrapped_burn: TokenBurn {
                    token_id: payment_token_id,
                    token_nonce: payment_token_nonce,
                    amount: payment_amount,
                },
            },
        )
    }

    /// Claims the rewards of a wrapped farm position: the receipt is burned,
    /// an exit and a re-entry are simulated, the reward is paid out, and a
    /// replacement receipt over the re-entered position is created.  A
    /// simulated re-entry yielding no farm tokens aborts with a zero-yield
    /// error before the state-changing call.
    pub fn claim_rewards_proxy<F: FarmContract>(
        &mut self,
        farm: &mut F,
        farm_address: u64,
        caller: u64,
        gas_left: u64,
        payment_token_id: u64,
        payment_token_nonce: u64,
        payment_amount: u64,
        attributes: &WrappedFarmTokenAttributes,
    ) -> (r: Result<ClaimRewardsProxyOutcome, ContractError>)
        requires
            old(self).spec_token_nonce() < u64::MAX,
        ensures
            r.is_err() ==> *final(self) == *old(self),
            ({
                let pre = farm_precheck(
                    *old(self),
                    farm_address,
                    payment_amount,
                    payment_token_id,
                    old(self).spec_token_id(),
                );
                &&& (pre matches Some(e) ==> r == Err::<ClaimRewardsProxyOutcome, ContractError>(
                    e,
                ))
                &&& (r.is_err() && pre.is_none() ==> r == Err::<
                    ClaimRewardsProxyOutcome,
                    ContractError,
                >(ContractError::ZeroYieldError) || r == Err::<
                    ClaimRewardsProxyOutcome,
                    ContractError,
                >(ContractError::ExternalCallError))
            }),
            r matches Ok(o) ==> ({
                &&& old(self).same_admin_state(*final(self))
                &&& final(self).spec_token_nonce() == old(self).spec_token_nonce() + 1
                &&& o.new_farm_token.amount > 0
                &&& o.wrapped_burn == (TokenBurn {
                    token_id: payment_token_id,
                    token_nonce: payment_token_nonce,
                    amount: payment_amount,
                })
                &&& o.reward_transfer == (TokenTransfer {
                    token_id: o.reward.token_id,
                    token_nonce: 0,
                    amount: o.reward.amount,
                    to: caller,
                })
                &&& o.new_wrapped_attributes == (WrappedFarmTokenAttributes {
                    farm_token_id: o.new_farm_token.token_id,
                    farm_token_nonce: o.new_farm_token.token_nonce,
                    farmed_token_id: attributes.farmed_token_id,
                    farmed_token_nonce: attributes.farmed_token_nonce,
                })
                &&& o.wrapped_token_nonce == final(self).spec_token_nonce()
                &&& o.new_wrapped_transfer == (TokenTransfer {
                    token_id: old(self).spec_token_id().unwrap(),
                    token_nonce: o.wrapped_token_nonce,
                    amount: o.new_farm_token.amount,
                    to: caller,
                })
            }),
    {
        if !list_contains(&self.intermediated_farms, farm_address) {
            return Err(ContractError::PermissionError);
        }
        let proxy_params = match self.params {
            Some(p) => p,
            None => { return Err(ContractError::StateError) },
        };
        let wrapped_farm_token_id = match self.token_id {
            Some(t) => t,
            None => { return Err(ContractError::StateError) },
        };
        if payment_amount == 0 {
            return Err(ContractError::ZeroAmountError);
        }
        if payment_token_id != wrapped_farm_token_id {
            return Err(ContractError::ValidationError);
        }

        let farm_token_id = attributes.farm_token_id;
        let farm_token_nonce = attributes.farm_token_nonce;

        // simulate the exit, then the re-entry with what it returns
        let sim_exit_gas = min_u64(gas_left, proxy_params.simulate_exit_farm_gas_limit);
        let (lp_returned, reward) = farm.simulate_exit_farm(
            farm_token_id,
            farm_token_nonce,
            payment_amount,
            sim_exit_gas,
        );
        let sim_enter_gas = min_u64(gas_left, proxy_params.simulate_enter_farm_gas_limit);
        let new_farm_token = farm.simulate_enter_farm(
            lp_returned.token_id,
            lp_returned.amount,
            sim_enter_gas,
        );
        if new_farm_token.amount == 0 {
            return Err(ContractError::ZeroYieldError);
        }

        // the actual claim, performed as an exit
        let exit_gas = min_u64(gas_left, proxy_params.exit_farm_gas_limit);
        if farm.exit_farm(farm_token_id, farm_token_nonce, payment_amount, exit_gas).is_err() {
            return Err(ContractError::ExternalCallError);
        }

        self.token_nonce = self.token_nonce + 1;
        let new_wrapped_attributes = WrappedFarmTokenAttributes {
            farm_token_id: new_farm_token.token_id,
            farm_token_nonce: new_farm_token.token_nonce,
            farmed_token_id: attributes.farmed_token_id,
            farmed_token_nonce: attributes.farmed_token_nonce,
        };
        Ok(
            ClaimRewardsProxyOutcome {
                lp_returned,
                reward,
                new_farm_token,
                reward_transfer: TokenTransfer {
                    token_id: reward.token_id,
                    token_nonce: 0,
                    amount: reward.amount,
                    to: caller,
                },
                wrapped_burn: TokenBurn {
                    token_id: payment_token_id,
                    token_nonce: payment_token_nonce,
                    amount: payment_amount,
                },
                new_wrapped_attributes,
                wrapped_token_nonce: self.token_nonce,
                new_wrapped_transfer: TokenTransfer {
                    token_id: wrapped_farm_token_id,
                    token_nonce: self.token_nonce,
                    amount: new_farm_token.amount,
                    to: caller,
                },
            },
        )
    }
}

} // verus!
