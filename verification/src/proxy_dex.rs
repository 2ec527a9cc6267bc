//! The combined proxy contract: one pair proxy and one farm proxy behind a
//! single owner, sharing the issuance flow for their two receipt tokens.

use vstd::prelude::*;

use crate::errors::ContractError;
use crate::proxy_farm::{ProxyFarmModule, ProxyFarmParams};
use crate::proxy_pair::{ProxyPairModule, ProxyPairParams};

verus! {

/// Which receipt token an issuance request is for.
#[derive(Clone, Copy, Debug, PartialEq, Eq, Structural)]
pub enum IssueRequestType {
    ProxyFarm,
    ProxyPair,
}

/// The proxy contract root: a pair proxy and a farm proxy side by side.
pub struct ProxyDexImpl {
    pub owner: u64,
    pub proxy_pair: ProxyPairModule,
    pub proxy_farm: ProxyFarmModule,
}

impl ProxyDexImpl {
    pub open spec fn spec_owner(self) -> u64 {
        self.owner
    }

    /// A fresh proxy contract over the given asset token, with both
    /// sub-proxies configured.
    pub fn new(
        owner: u64,
        asset_token_id: u64,
        proxy_pair_params: ProxyPairParams,
        proxy_farm_params: ProxyFarmParams,
    ) -> (r: ProxyDexImpl)
        ensures
            r.spec_owner() == owner,
            r.proxy_pair.wf(),
            r.proxy_pair.spec_owner() == owner,
            r.proxy_pair.spec_asset_token_id() == asset_token_id,
            r.proxy_pair.spec_params() == Some(proxy_pair_params),
            r.proxy_pair.spec_token_id().is_none(),
            r.proxy_pair.tf_entries().len() == 0,
            r.proxy_farm.spec_owner() == owner,
            r.proxy_farm.spec_params() == Some(proxy_farm_params),
            r.proxy_farm.spec_token_id().is_none(),
    {
        let mut proxy_pair = ProxyPairModule::new(owner, asset_token_id);
        let set_pair = proxy_pair.set_proxy_params(owner, proxy_pair_params);
        let mut proxy_farm = ProxyFarmModule::new(owner);
        let set_farm = proxy_farm.set_proxy_params(owner, proxy_farm_params);
        proof {
            assert(set_pair.is_ok());
            assert(set_farm.is_ok());
        }
        ProxyDexImpl { owner, proxy_pair, proxy_farm }
    }

    /// Owner-only: decides whether the wrapped LP receipt token may be
    /// issued.
    pub fn issue_sft_proxy_pair(&self, caller: u64) -> (r: Result<(), ContractError>)
        ensures
            r.is_ok() <==> caller == self.spec_owner()
                && self.proxy_pair.spec_token_id().is_none(),
            r.is_err() ==> r == Err::<(), ContractError>(
                if caller != self.spec_owner() {
                    ContractError::PermissionError
                } else {
                    ContractError::StateError
                },
            ),
    {
        if caller != self.owner {
            return Err(ContractError::PermissionError);
        }
        if self.proxy_pair.get_token_id().is_some() {
            return Err(ContractError::StateError);
        }
        Ok(())
    }

    /// Owner-only: decides whether the wrapped farm receipt token may be
    /// issued.
    pub fn issue_sft_proxy_farm(&self, caller: u64) -> (r: Result<(), ContractError>)
        ensures
            r.is_ok() <==> caller == self.spec_owner()
                && self.proxy_farm.spec_token_id().is_none(),
            r.is_err() ==> r == Err::<(), ContractError>(
                if caller != self.spec_owner() {
                    ContractError::PermissionError
                } else {
                    ContractError::StateError
                },
            ),
    {
        if caller != self.owner {
            return Err(ContractError::PermissionError);
        }
        if self.proxy_farm.get_token_id().is_some() {
            return Err(ContractError::StateError);
        }
        Ok(())
    }

    /// Applies the result of an asynchronous receipt-token issuance to the
    /// sub-proxy it was requested for; on failure the payment must be
    /// refunded, which the returned flag signals.
    pub fn issue_nft_callback(&mut self, request_type: IssueRequestType, result: Option<u64>) -> (refund:
        bool)
        requires
            old(self).proxy_pair.wf(),
        ensures
            final(self).proxy_pair.wf(),
            final(self).spec_owner() == old(self).spec_owner(),
            result.is_none() ==> *final(self) == *old(self) && refund,
            result matches Some(t) ==> !refund && (match request_type {
                IssueRequestType::ProxyPair => final(self).proxy_pair.spec_token_id() == Some(t)
                    && final(self).proxy_farm == old(self).proxy_farm,
                IssueRequestType::ProxyFarm => final(self).proxy_farm.spec_token_id() == Some(t)
                    && final(self).proxy_pair == old(self).proxy_pair,
            }),
    {
        match result {
            Some(token_id) => {
                match request_type {
                    IssueRequestType::ProxyPair => {
                        self.proxy_pair.set_token_id(token_id);
                    },
                    IssueRequestType::ProxyFarm => {
                        self.proxy_farm.set_token_id(token_id);
                    },
                }
                false
            },
            None => true,
        }
    }

    /// Owner-only: checks a request to assign local token roles.
    pub fn set_local_roles(&self, caller: u64, roles_count: usize) -> (r: Result<
        (),
        ContractError,
    >)
        ensures
            r.is_ok() <==> caller == self.spec_owner() && roles_count > 0,
            r.is_err() ==> r == Err::<(), ContractError>(
                if caller != self.spec_owner() {
                    ContractError::PermissionError
                } else {
                    ContractError::ValidationError
                },
            ),
    {
        if caller != self.owner {
            return Err(ContractError::PermissionError);
        }
        if roles_count == 0 {
            return Err(ContractError::ValidationError);
        }
        Ok(())
    }
}

} // verus!
