//! Locked-asset positions: semi-fungible tokens that carry an unlock
//! schedule and are progressively redeemed for the fungible asset token.

use vstd::prelude::*;

use crate::asset::{TokenBurn, TokenMint, TokenTransfer};
use crate::errors::ContractError;
use crate::schedule::{
    create_new_unlock_milestones, get_unlock_amount, valid_schedule, residual_schedule_spec,
    unlocked_amount_spec, unlocked_percent_spec, LockedTokenAttributes, UnlockMilestone,
};

verus! {

/// An instruction to create `amount` units of a new semi-fungible locked
/// position under `token_nonce`, with the given schedule as its attributes.
#[derive(Clone, Debug)]
pub struct SftCreate {
    pub token_id: u64,
    pub token_nonce: u64,
    pub amount: u64,
    pub unlock_milestones: Vec<UnlockMilestone>,
}

/// What a successful unlock decides: how much matures now, what stays locked
/// under which residual schedule, and the host actions that carry it out.
#[derive(Debug)]
pub struct UnlockAssetsOutcome {
    /// Amount of the fungible asset paid out now.
    pub unlocked_amount: u64,
    /// Amount that stays locked under the residual schedule.
    pub remaining_amount: u64,
    /// The residual schedule for the remaining amount.
    pub new_unlock_milestones: Vec<UnlockMilestone>,
    /// Mint and transfer of the unlocked fungible assets to the caller.
    pub asset_mint: (TokenMint, TokenTransfer),
    /// Creation and transfer of the residual locked position, when any amount
    /// remains locked.
    pub residual_create: Option<(SftCreate, TokenTransfer)>,
    /// Burn of the locked position that was paid in.
    pub payment_burn: TokenBurn,
}

/// The locked-asset token of one contract: its identifier (once issued) and
/// the nonce counter of the positions created so far.
#[derive(Debug)]
pub struct LockedAssetModule {
    token_id: Option<u64>,
    token_nonce: u64,
}

impl LockedAssetModule {
    /// The token identifier, if the semi-fungible token has been issued.
    pub closed spec fn spec_token_id(self) -> Option<u64> {
        self.token_id
    }

    /// The nonce of the most recently created position.
    pub closed spec fn spec_token_nonce(self) -> u64 {
        self.token_nonce
    }

    pub fn new() -> (r: LockedAssetModule)
        ensures
            r.spec_token_id().is_none(),
            r.spec_token_nonce() == 0,
    {
        LockedAssetModule { token_id: None, token_nonce: 0 }
    }

    /// Records the token identifier obtained from the issuance callback.
    pub fn set_token_id(&mut self, token_id: u64)
        ensures
            final(self).spec_token_id() == Some(token_id),
            final(self).spec_token_nonce() == old(self).spec_token_nonce(),
    {
        self.token_id = Some(token_id);
    }

    pub fn token_id_or_zero(&self) -> (r: u64)
        ensures
            r == (match self.spec_token_id() {
                Some(t) => t,
                None => 0u64,
            }),
    {
        match self.token_id {
            Some(t) => t,
            None => 0,
        }
    }

    pub fn is_issued(&self) -> (r: bool)
        ensures
            r <==> self.spec_token_id().is_some(),
    {
        self.token_id.is_some()
    }

    /// Decides the creation and transfer of a fresh locked position of
    /// `amount` tokens under the given schedule; nothing is created for a
    /// zero amount.  The nonce counter advances exactly when a position is
    /// created.
    pub fn create_and_send_locked_assets(
        &mut self,
        caller: u64,
        amount: u64,
        unlock_milestones: &Vec<UnlockMilestone>,
    ) -> (r: Option<(SftCreate, TokenTransfer)>)
        requires
            old(self).spec_token_id().is_some(),
            old(self).spec_token_nonce() < u64::MAX,
    ensures
            final(self).spec_token_id() == old(self).spec_token_id(),
            amount == 0 ==> r.is_none() && final(self).spec_token_nonce() == old(
                self,
            ).spec_token_nonce(),
            amount > 0 ==> final(self).spec_token_nonce() == old(self).spec_token_nonce() + 1
                && (r matches Some((c, t)) && c.token_id == old(self).spec_token_id().unwrap()
                && c.token_nonce == final(self).spec_token_nonce() && c.amount == amount
                && c.unlock_milestones@ == unlock_milestones@ && t == (TokenTransfer {
                    token_id: old(self).spec_token_id().unwrap(),
                    token_nonce: final(self).spec_token_nonce(),
                    amount,
                    to: caller,
                })),
    {
        if amount == 0 {
            return None;
        }
        let token_id = match self.token_id {
            Some(t) => t,
            None => 0,
        };
        self.token_nonce = self.token_nonce + 1;
        let create = SftCreate {
            token_id,
            token_nonce: self.token_nonce,
            amount,
            unlock_milestones: clone_milestones(unlock_milestones),
        };
        let transfer = TokenTransfer {
            token_id,
            token_nonce: self.token_nonce,
            amount,
            to: caller,
        };
        Some((create, transfer))
    }

    /// The unlock endpoint: a locked position is paid in, the matured part is
    /// minted out as fungible assets, the rest is re-locked under the
    /// residual schedule, and the old position is burned.
    ///
    /// Fails with a validation error when the payment is not the locked-asset
    /// token, and with a state error when nothing has matured yet.
    pub fn unlock_assets(
        &mut self,
        caller: u64,
        asset_token_id: u64,
        payment_token_id: u64,
        payment_token_nonce: u64,
        payment_amount: u64,
        attributes: &LockedTokenAttributes,
        current_epoch: u64,
    ) -> (r: Result<UnlockAssetsOutcome, ContractError>)
        requires
            valid_schedule(attributes.unlock_milestones@),
            attributes.unlock_milestones@.len() > 0,
            old(self).spec_token_nonce() < u64::MAX,
    ensures
            final(self).spec_token_id() == old(self).spec_token_id(),
            r.is_ok() <==> old(self).spec_token_id() == Some(payment_token_id)
                && unlocked_amount_spec(
                payment_amount,
                attributes.unlock_milestones@,
                current_epoch,
            ) > 0,
            r.is_err() ==> *final(self) == *old(self),
            r.is_err() ==> (old(self).spec_token_id() != Some(payment_token_id) && r == Err::<
                UnlockAssetsOutcome,
                ContractError,
            >(ContractError::ValidationError) || old(self).spec_token_id() == Some(
                payment_token_id,
            ) && r == Err::<UnlockAssetsOutcome, ContractError>(ContractError::StateError)),
            r matches Ok(o) ==> ({
                let ms = attributes.unlock_milestones@;
                &&& o.unlocked_amount == unlocked_amount_spec(payment_amount, ms, current_epoch)
                &&& o.unlocked_amount + o.remaining_amount == payment_amount
                &&& o.new_unlock_milestones@ == residual_schedule_spec(ms, current_epoch)
                &&& valid_schedule(o.new_unlock_milestones@)
                &&& unlocked_percent_spec(ms, current_epoch) == 100 ==> o.remaining_amount == 0
                &&& o.asset_mint == (
                    TokenMint { token_id: asset_token_id, amount: o.unlocked_amount },
                    TokenTransfer {
                        token_id: asset_token_id,
                        token_nonce: 0,
                        amount: o.unlocked_amount,
                        to: caller,
                    },
                )
                &&& o.residual_create.is_some() <==> o.remaining_amount > 0
                &&& (o.residual_create matches Some((c, t)) ==> c.amount == o.remaining_amount
                    && c.token_id == payment_token_id && c.unlock_milestones@
                    == o.new_unlock_milestones@ && t.amount == o.remaining_amount && t.to
                    == caller)
                &&& o.payment_burn == (TokenBurn {
                    token_id: payment_token_id,
                    token_nonce: payment_token_nonce,
                    amount: payment_amount,
                })
                &&& (o.remaining_amount > 0 ==> final(self).spec_token_nonce() == old(
                    self,
                ).spec_token_nonce() + 1)
                &&& (o.remaining_amount == 0 ==> final(self).spec_token_nonce() == old(
                    self,
                ).spec_token_nonce())
            }),
    {
        let issued = match self.token_id {
            Some(t) => t == payment_token_id,
            None => false,
        };
        if !issued {
            return Err(ContractError::ValidationError);
        }
        let unlock_amount = get_unlock_amount(
            payment_amount,
            current_epoch,
            &attributes.unlock_milestones,
        );
        if unlock_amount == 0 {
            return Err(ContractError::StateError);
        }
        let new_unlock_milestones = create_new_unlock_milestones(
            current_epoch,
            &attributes.unlock_milestones,
        );
        let locked_remaining = payment_amount - unlock_amount;
        proof {
            if unlocked_percent_spec(attributes.unlock_milestones@, current_epoch) == 100 {
                assert(unlock_amount == payment_amount);
            }
        }
        let residual_create = self.create_and_send_locked_assets(
            caller,
            locked_remaining,
            &new_unlock_milestones,
        );
        Ok(
            UnlockAssetsOutcome {
                unlocked_amount: unlock_amount,
                remaining_amount: locked_remaining,
                new_unlock_milestones,
                asset_mint: (
                    TokenMint { token_id: asset_token_id, amount: unlock_amount },
                    TokenTransfer {
                        token_id: asset_token_id,
                        token_nonce: 0,
                        amount: unlock_amount,
                        to: caller,
                    },
                ),
                residual_create,
                payment_burn: TokenBurn {
                    token_id: payment_token_id,
                    token_nonce: payment_token_nonce,
                    amount: payment_amount,
                },
            },
        )
    }
}

/// Copies a milestone list.
pub fn clone_milestones(ms: &Vec<UnlockMilestone>) -> (r: Vec<UnlockMilestone>)
    ensures
        r@ == ms@,
{
    let mut out: Vec<UnlockMilestone> = Vec::new();
    let mut i: usize = 0;
    while i < ms.len()
        invariant
            0 <= i <= ms@.len(),
            out@ == ms@.take(i as int),
        decreases ms@.len() - i,
    {
        out.push(ms[i]);
        proof {
            assert(out@ =~= ms@.take(i as int + 1));
        }
        i = i + 1;
    }
    proof {
        assert(ms@.take(ms@.len() as int) =~= ms@);
    }
    out
}

} // verus!
