//! The distributed (fungible) asset token, and the host actions that move
//! tokens.
//!
//! Minting, burning and transferring are host primitives; the verified code
//! only decides them.  Every decision is returned as one of the plain action
//! values below, which the unverified host glue then performs in order.

use vstd::prelude::*;

verus! {

/// An instruction to mint `amount` of a fungible token.
#[derive(Clone, Copy, Debug, PartialEq, Eq, Structural)]
pub struct TokenMint {
    pub token_id: u64,
    pub amount: u64,
}

/// An instruction to burn `amount` of a token (`token_nonce` is zero for
/// fungible tokens).
#[derive(Clone, Copy, Debug, PartialEq, Eq, Structural)]
pub struct TokenBurn {
    pub token_id: u64,
    pub token_nonce: u64,
    pub amount: u64,
}

/// An instruction to transfer `amount` of a token to `to`.
#[derive(Clone, Copy, Debug, PartialEq, Eq, Structural)]
pub struct TokenTransfer {
    pub token_id: u64,
    pub token_nonce: u64,
    pub amount: u64,
    pub to: u64,
}

/// The contract's own distributed asset token.
#[derive(Clone, Copy, Debug, PartialEq, Eq, Structural)]
pub struct AssetModule {
    pub token_id: u64,
}

impl AssetModule {
    pub fn new(token_id: u64) -> (r: AssetModule)
        ensures
            r.token_id == token_id,
    {
        AssetModule { token_id }
    }

    /// Decides the mint-and-transfer pair that pays `amount` of the asset
    /// token out to `address`; nothing moves for a zero amount.
    pub fn mint_and_send(&self, address: u64, amount: u64) -> (r: Option<(TokenMint, TokenTransfer)>)
        ensures
            amount == 0 ==> r.is_none(),
            amount > 0 ==> r == Some(
                (
                    TokenMint { token_id: self.token_id, amount },
                    TokenTransfer { token_id: self.token_id, token_nonce: 0, amount, to: address },
                ),
            ),
    {
        if amount > 0 {
            Some(
                (
                    TokenMint { token_id: self.token_id, amount },
                    TokenTransfer { token_id: self.token_id, token_nonce: 0, amount, to: address },
                ),
            )
        } else {
            None
        }
    }
}

} // verus!
