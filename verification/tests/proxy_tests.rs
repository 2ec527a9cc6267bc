use distrib::errors::ContractError;
use distrib::proxy_dex::{IssueRequestType, ProxyDexImpl};
use distrib::proxy_farm::{
    FarmContract, ProxyFarmModule, ProxyFarmParams, SftTokenAmountPair, WrappedFarmTokenAttributes,
};
use distrib::proxy_pair::{
    PairContract, ProxyPairModule, ProxyPairParams, TokenAmountPair, WrappedLpTokenAttributes,
};

const OWNER: u64 = 1;
const USER: u64 = 42;
const PAIR_ADDR: u64 = 1000;
const FARM_ADDR: u64 = 2000;
const MEX: u64 = 7;
const LOCKED_MEX: u64 = 8;
const WEGLD: u64 = 9;
const LP_TOKEN: u64 = 10;
const WRAPPED_LP: u64 = 11;
const WRAPPED_FARM: u64 = 12;
const FARM_TOKEN: u64 = 13;
const REWARD_TOKEN: u64 = 14;

fn pair_params() -> ProxyPairParams {
    ProxyPairParams {
        add_liquidity_gas_limit: 25_000_000,
        accept_esdt_payment_gas_limit: 15_000_000,
        ask_for_lp_token_gas_limit: 5_000_000,
        ask_for_tokens_gas_limit: 5_000_000,
        remove_liquidity_gas_limit: 25_000_000,
        burn_tokens_gas_limit: 5_000_000,
        mint_tokens_gas_limit: 5_000_000,
    }
}

fn farm_params() -> ProxyFarmParams {
    ProxyFarmParams {
        simulate_enter_farm_gas_limit: 5_000_000,
        simulate_exit_farm_gas_limit: 5_000_000,
        claim_rewards_gas_limit: 25_000_000,
        enter_farm_gas_limit: 25_000_000,
        exit_farm_gas_limit: 25_000_000,
        burn_tokens_gas_limit: 5_000_000,
    }
}

struct MockPair {
    lp_token: u64,
    add_liquidity_result: (TokenAmountPair, TokenAmountPair, TokenAmountPair),
    position: (TokenAmountPair, TokenAmountPair),
    payments_accepted: Vec<(u64, u64)>,
    removed: Vec<u64>,
}

impl PairContract for MockPair {
    fn accept_esdt_payment(&mut self, token_id: u64, amount: u64, _gas_limit: u64) -> Result<(), ()> {
        self.payments_accepted.push((token_id, amount));
        Ok(())
    }

    fn add_liquidity(
        &mut self,
        _first_amount: u64,
        _second_amount: u64,
        _first_amount_min: u64,
        _second_amount_min: u64,
        _gas_limit: u64,
    ) -> (TokenAmountPair, TokenAmountPair, TokenAmountPair) {
        self.add_liquidity_result
    }

    fn get_lp_token_identifier(&mut self, _gas_limit: u64) -> u64 {
        self.lp_token
    }

    fn get_tokens_for_given_position(&mut self, _liquidity: u64, _gas_limit: u64) -> (
        TokenAmountPair,
        TokenAmountPair,
    ) {
        self.position
    }

    fn remove_liquidity(
        &mut self,
        _lp_token_id: u64,
        liquidity: u64,
        _first_amount_min: u64,
        _second_amount_min: u64,
        _gas_limit: u64,
    ) -> Result<(), ()> {
        self.removed.push(liquidity);
        Ok(())
    }
}

fn proxy_with_escrow() -> ProxyPairModule {
    let mut p = ProxyPairModule::new(OWNER, MEX);
    assert!(p.set_proxy_params(OWNER, pair_params()).is_ok());
    assert!(p.add_pair_to_intermediate(OWNER, PAIR_ADDR).is_ok());
    assert!(p.add_accepted_locked_asset_token_id(OWNER, LOCKED_MEX).is_ok());
    p.set_token_id(WRAPPED_LP);
    // the locked-asset leg: 100 of the locked token under nonce 5
    assert!(p.accept_esdt_payment_proxy(USER, PAIR_ADDR, LOCKED_MEX, 5, 100).is_ok());
    // the fungible leg: 200 of the paired token
    assert!(p.accept_esdt_payment_proxy(USER, PAIR_ADDR, WEGLD, 0, 200).is_ok());
    p
}

#[test]
fn add_liquidity_burns_the_unused_minted_assets() {
    // the worked example: escrow {locked: 100, fungible: 200}; the pool
    // consumes 80 of the minted representation and all 200 of the other leg
    let mut p = proxy_with_escrow();
    let mut pool = MockPair {
        lp_token: LP_TOKEN,
        add_liquidity_result: (
            TokenAmountPair { token_id: LP_TOKEN, amount: 50 },
            TokenAmountPair { token_id: MEX, amount: 80 },
            TokenAmountPair { token_id: WEGLD, amount: 200 },
        ),
        position: (
            TokenAmountPair { token_id: MEX, amount: 0 },
            TokenAmountPair { token_id: WEGLD, amount: 0 },
        ),
        payments_accepted: vec![],
        removed: vec![],
    };
    let o = p
        .add_liquidity_proxy(&mut pool, PAIR_ADDR, USER, 100_000_000, LOCKED_MEX, 5, 1, WEGLD, 0, 1)
        .unwrap();
    // 100 asset tokens were minted to represent the locked leg
    assert_eq!(o.minted_for_forward.token_id, MEX);
    assert_eq!(o.minted_for_forward.amount, 100);
    // the 20 the pool did not consume are burned
    assert_eq!(o.consumed_locked_tokens, 80);
    assert_eq!(o.unused_minted_assets_burn.token_id, MEX);
    assert_eq!(o.unused_minted_assets_burn.amount, 20);
    // the escrow shrank by what was consumed: 20 locked left, other leg gone
    assert_eq!(p.get_temporary_funds(USER, LOCKED_MEX, 5), 20);
    assert_eq!(p.get_temporary_funds(USER, WEGLD, 0), 0);
    // the receipt records the investment actually consumed
    assert_eq!(
        o.wrapped_attributes,
        WrappedLpTokenAttributes {
            lp_token_id: LP_TOKEN,
            lp_token_total_amount: 50,
            locked_assets_token_id: LOCKED_MEX,
            locked_assets_invested: 80,
            locked_assets_nonce: 5,
        }
    );
    assert_eq!(o.wrapped_token_nonce, 1);
    assert_eq!(o.wrapped_transfer.token_id, WRAPPED_LP);
    assert_eq!(o.wrapped_transfer.amount, 50);
    assert_eq!(o.wrapped_transfer.to, USER);
    // both legs were forwarded to the pool, the locked one as minted assets
    assert_eq!(pool.payments_accepted, vec![(MEX, 100), (WEGLD, 200)]);
}

#[test]
fn add_liquidity_with_the_fungible_leg_first() {
    // same operation with the legs swapped: the pool reports the asset
    // consumption in the second slot
    let mut p = ProxyPairModule::new(OWNER, MEX);
    assert!(p.set_proxy_params(OWNER, pair_params()).is_ok());
    assert!(p.add_pair_to_intermediate(OWNER, PAIR_ADDR).is_ok());
    assert!(p.add_accepted_locked_asset_token_id(OWNER, LOCKED_MEX).is_ok());
    p.set_token_id(WRAPPED_LP);
    assert!(p.accept_esdt_payment_proxy(USER, PAIR_ADDR, WEGLD, 0, 200).is_ok());
    assert!(p.accept_esdt_payment_proxy(USER, PAIR_ADDR, LOCKED_MEX, 5, 100).is_ok());
    let mut pool = MockPair {
        lp_token: LP_TOKEN,
        add_liquidity_result: (
            TokenAmountPair { token_id: LP_TOKEN, amount: 50 },
            TokenAmountPair { token_id: WEGLD, amount: 200 },
            TokenAmountPair { token_id: MEX, amount: 80 },
        ),
        position: (
            TokenAmountPair { token_id: MEX, amount: 0 },
            TokenAmountPair { token_id: WEGLD, amount: 0 },
        ),
        payments_accepted: vec![],
        removed: vec![],
    };
    let o = p
        .add_liquidity_proxy(&mut pool, PAIR_ADDR, USER, 100_000_000, WEGLD, 0, 1, LOCKED_MEX, 5, 1)
        .unwrap();
    assert_eq!(o.consumed_locked_tokens, 80);
    assert_eq!(o.unused_minted_assets_burn.amount, 20);
    assert_eq!(o.wrapped_attributes.locked_assets_token_id, LOCKED_MEX);
    assert_eq!(o.wrapped_attributes.locked_assets_nonce, 5);
    assert_eq!(p.get_temporary_funds(USER, LOCKED_MEX, 5), 20);
    assert_eq!(p.get_temporary_funds(USER, WEGLD, 0), 0);
    // this time the fungible leg is forwarded first, as paid in
    assert_eq!(pool.payments_accepted, vec![(WEGLD, 200), (MEX, 100)]);
}

#[test]
fn deposits_that_would_overflow_are_rejected() {
    let mut p = ProxyPairModule::new(OWNER, MEX);
    assert!(p.add_pair_to_intermediate(OWNER, PAIR_ADDR).is_ok());
    assert!(p.accept_esdt_payment_proxy(USER, PAIR_ADDR, WEGLD, 0, u64::MAX).is_ok());
    assert_eq!(
        p.accept_esdt_payment_proxy(USER, PAIR_ADDR, WEGLD, 0, 1),
        Err(ContractError::ValidationError)
    );
    assert_eq!(p.get_temporary_funds(USER, WEGLD, 0), u64::MAX);
}

#[test]
fn add_liquidity_validates_its_inputs() {
    let mut p = proxy_with_escrow();
    let mut pool = MockPair {
        lp_token: LP_TOKEN,
        add_liquidity_result: (
            TokenAmountPair { token_id: LP_TOKEN, amount: 50 },
            TokenAmountPair { token_id: MEX, amount: 80 },
            TokenAmountPair { token_id: WEGLD, amount: 200 },
        ),
        position: (
            TokenAmountPair { token_id: MEX, amount: 0 },
            TokenAmountPair { token_id: WEGLD, amount: 0 },
        ),
        payments_accepted: vec![],
        removed: vec![],
    };
    // unknown pair address
    assert_eq!(
        p.add_liquidity_proxy(&mut pool, 9999, USER, 1, LOCKED_MEX, 5, 1, WEGLD, 0, 1).unwrap_err(),
        ContractError::PermissionError
    );
    // identical tokens
    assert_eq!(
        p.add_liquidity_proxy(&mut pool, PAIR_ADDR, USER, 1, WEGLD, 0, 1, WEGLD, 0, 1).unwrap_err(),
        ContractError::ValidationError
    );
    // both legs fungible
    assert_eq!(
        p.add_liquidity_proxy(&mut pool, PAIR_ADDR, USER, 1, LOCKED_MEX, 0, 1, WEGLD, 0, 1)
            .unwrap_err(),
        ContractError::ValidationError
    );
    // no escrow for this caller
    assert_eq!(
        p.add_liquidity_proxy(&mut pool, PAIR_ADDR, 77, 1, LOCKED_MEX, 5, 1, WEGLD, 0, 1)
            .unwrap_err(),
        ContractError::ZeroAmountError
    );
}

#[test]
fn add_liquidity_rejects_a_zero_lp_answer() {
    let mut p = proxy_with_escrow();
    let mut pool = MockPair {
        lp_token: LP_TOKEN,
        add_liquidity_result: (
            TokenAmountPair { token_id: LP_TOKEN, amount: 0 },
            TokenAmountPair { token_id: MEX, amount: 80 },
            TokenAmountPair { token_id: WEGLD, amount: 200 },
        ),
        position: (
            TokenAmountPair { token_id: MEX, amount: 0 },
            TokenAmountPair { token_id: WEGLD, amount: 0 },
        ),
        payments_accepted: vec![],
        removed: vec![],
    };
    assert_eq!(
        p.add_liquidity_proxy(&mut pool, PAIR_ADDR, USER, 1, LOCKED_MEX, 5, 1, WEGLD, 0, 1)
            .unwrap_err(),
        ContractError::ExternalCallError
    );
    // nothing changed
    assert_eq!(p.get_temporary_funds(USER, LOCKED_MEX, 5), 100);
    assert_eq!(p.get_temporary_funds(USER, WEGLD, 0), 200);
}

#[test]
fn reclaim_returns_the_whole_escrow() {
    let mut p = proxy_with_escrow();
    let transfers = p.reclaim_temporary_funds_proxy(USER, LOCKED_MEX, 5, WEGLD, 0);
    assert_eq!(transfers.len(), 2);
    assert_eq!(transfers[0].token_id, LOCKED_MEX);
    assert_eq!(transfers[0].amount, 100);
    assert_eq!(transfers[1].token_id, WEGLD);
    assert_eq!(transfers[1].amount, 200);
    assert_eq!(p.get_temporary_funds(USER, LOCKED_MEX, 5), 0);
    assert_eq!(p.get_temporary_funds(USER, WEGLD, 0), 0);
}

#[test]
fn deposits_accumulate() {
    let mut p = ProxyPairModule::new(OWNER, MEX);
    assert!(p.add_pair_to_intermediate(OWNER, PAIR_ADDR).is_ok());
    assert!(p.accept_esdt_payment_proxy(USER, PAIR_ADDR, WEGLD, 0, 10).is_ok());
    assert!(p.accept_esdt_payment_proxy(USER, PAIR_ADDR, WEGLD, 0, 15).is_ok());
    assert_eq!(p.get_temporary_funds(USER, WEGLD, 0), 25);
    assert_eq!(
        p.accept_esdt_payment_proxy(USER, PAIR_ADDR, WEGLD, 0, 0),
        Err(ContractError::ZeroAmountError)
    );
    assert_eq!(
        p.accept_esdt_payment_proxy(USER, 9999, WEGLD, 0, 1),
        Err(ContractError::PermissionError)
    );
}

#[test]
fn remove_liquidity_reconciles_the_position() {
    let p = proxy_with_escrow();
    // the receipt: 50 LP total, 80 locked assets invested under nonce 5
    let attrs = WrappedLpTokenAttributes {
        lp_token_id: LP_TOKEN,
        lp_token_total_amount: 50,
        locked_assets_token_id: LOCKED_MEX,
        locked_assets_invested: 80,
        locked_assets_nonce: 5,
    };
    let mut pool = MockPair {
        lp_token: LP_TOKEN,
        add_liquidity_result: (
            TokenAmountPair { token_id: LP_TOKEN, amount: 0 },
            TokenAmountPair { token_id: MEX, amount: 0 },
            TokenAmountPair { token_id: WEGLD, amount: 0 },
        ),
        // the position redeems for 30 assets and 90 of the paired token
        position: (
            TokenAmountPair { token_id: MEX, amount: 30 },
            TokenAmountPair { token_id: WEGLD, amount: 90 },
        ),
        payments_accepted: vec![],
        removed: vec![],
    };
    // pay back half the receipt: 25 of 50 LP, so 40 of the 80 invested
    let o = p
        .remove_liquidity_proxy(&mut pool, PAIR_ADDR, USER, 1_000_000, WRAPPED_LP, 3, 25, &attrs, 1, 1)
        .unwrap();
    assert_eq!(o.lp_token_id, LP_TOKEN);
    assert_eq!(o.locked_assets_invested, 40);
    assert_eq!(o.assets_received, 30);
    assert_eq!(o.fungible_transfer.token_id, WEGLD);
    assert_eq!(o.fungible_transfer.amount, 90);
    // fewer assets came back than were invested: the difference of the
    // locked position is burned
    assert_eq!(o.locked_asset_transfer.amount, 30);
    assert!(o.asset_surplus_transfer.is_none());
    let deficit = o.locked_deficit_burn.unwrap();
    assert_eq!(deficit.token_id, LOCKED_MEX);
    assert_eq!(deficit.amount, 10);
    assert_eq!(o.asset_burn.amount, 30);
    assert_eq!(o.wrapped_burn.token_id, WRAPPED_LP);
    assert_eq!(o.wrapped_burn.amount, 25);
    assert_eq!(pool.removed, vec![25]);
}

#[test]
fn remove_liquidity_pays_out_a_surplus() {
    let p = proxy_with_escrow();
    let attrs = WrappedLpTokenAttributes {
        lp_token_id: LP_TOKEN,
        lp_token_total_amount: 50,
        locked_assets_token_id: LOCKED_MEX,
        locked_assets_invested: 80,
        locked_assets_nonce: 5,
    };
    let mut pool = MockPair {
        lp_token: LP_TOKEN,
        add_liquidity_result: (
            TokenAmountPair { token_id: LP_TOKEN, amount: 0 },
            TokenAmountPair { token_id: MEX, amount: 0 },
            TokenAmountPair { token_id: WEGLD, amount: 0 },
        ),
        position: (
            TokenAmountPair { token_id: MEX, amount: 100 },
            TokenAmountPair { token_id: WEGLD, amount: 90 },
        ),
        payments_accepted: vec![],
        removed: vec![],
    };
    let o = p
        .remove_liquidity_proxy(&mut pool, PAIR_ADDR, USER, 1_000_000, WRAPPED_LP, 3, 50, &attrs, 1, 1)
        .unwrap();
    assert_eq!(o.locked_assets_invested, 80);
    assert_eq!(o.assets_received, 100);
    assert_eq!(o.locked_asset_transfer.amount, 80);
    let surplus = o.asset_surplus_transfer.unwrap();
    assert_eq!(surplus.token_id, MEX);
    assert_eq!(surplus.amount, 20);
    assert!(o.locked_deficit_burn.is_none());
    assert_eq!(o.asset_burn.amount, 80);
}

#[test]
fn remove_liquidity_checks_the_receipt() {
    let p = proxy_with_escrow();
    let attrs = WrappedLpTokenAttributes {
        lp_token_id: LP_TOKEN + 1,
        lp_token_total_amount: 50,
        locked_assets_token_id: LOCKED_MEX,
        locked_assets_invested: 80,
        locked_assets_nonce: 5,
    };
    let mut pool = MockPair {
        lp_token: LP_TOKEN,
        add_liquidity_result: (
            TokenAmountPair { token_id: LP_TOKEN, amount: 0 },
            TokenAmountPair { token_id: MEX, amount: 0 },
            TokenAmountPair { token_id: WEGLD, amount: 0 },
        ),
        position: (
            TokenAmountPair { token_id: MEX, amount: 30 },
            TokenAmountPair { token_id: WEGLD, amount: 90 },
        ),
        payments_accepted: vec![],
        removed: vec![],
    };
    // the pair manages a different LP token than the receipt says
    assert_eq!(
        p.remove_liquidity_proxy(&mut pool, PAIR_ADDR, USER, 1, WRAPPED_LP, 3, 25, &attrs, 1, 1)
            .unwrap_err(),
        ContractError::ValidationError
    );
}

struct MockFarm {
    enter_result: SftTokenAmountPair,
    exit_result: (TokenAmountPair, TokenAmountPair),
    entered: Vec<(u64, u64)>,
    exited: Vec<(u64, u64, u64)>,
}

impl FarmContract for MockFarm {
    fn simulate_enter_farm(&mut self, _token_in: u64, _amount_in: u64, _gas_limit: u64)
        -> SftTokenAmountPair {
        self.enter_result
    }

    fn simulate_exit_farm(
        &mut self,
        _token_id: u64,
        _token_nonce: u64,
        _amount: u64,
        _gas_limit: u64,
    ) -> (TokenAmountPair, TokenAmountPair) {
        self.exit_result
    }

    fn enter_farm(&mut self, token_id: u64, amount: u64, _gas_limit: u64) -> Result<(), ()> {
        self.entered.push((token_id, amount));
        Ok(())
    }

    fn exit_farm(&mut self, token_id: u64, token_nonce: u64, amount: u64, _gas_limit: u64) -> Result<
        (),
        (),
    > {
        self.exited.push((token_id, token_nonce, amount));
        Ok(())
    }
}

fn farm_proxy() -> ProxyFarmModule {
    let mut f = ProxyFarmModule::new(OWNER);
    assert!(f.set_proxy_params(OWNER, farm_params()).is_ok());
    assert!(f.add_farm_to_intermediate(OWNER, FARM_ADDR).is_ok());
    f.set_token_id(WRAPPED_FARM);
    f
}

fn lp_attrs() -> WrappedLpTokenAttributes {
    WrappedLpTokenAttributes {
        lp_token_id: LP_TOKEN,
        lp_token_total_amount: 50,
        locked_assets_token_id: LOCKED_MEX,
        locked_assets_invested: 80,
        locked_assets_nonce: 5,
    }
}

#[test]
fn enter_farm_wraps_the_simulated_position() {
    let mut f = farm_proxy();
    let mut farm = MockFarm {
        enter_result: SftTokenAmountPair { token_id: FARM_TOKEN, token_nonce: 4, amount: 33 },
        exit_result: (
            TokenAmountPair { token_id: LP_TOKEN, amount: 0 },
            TokenAmountPair { token_id: REWARD_TOKEN, amount: 0 },
        ),
        entered: vec![],
        exited: vec![],
    };
    let o = f
        .enter_farm_proxy(&mut farm, FARM_ADDR, USER, 1, WRAPPED_LP, 3, 25, Some(WRAPPED_LP), &lp_attrs())
        .unwrap();
    assert_eq!(o.farm_token.amount, 33);
    assert_eq!(
        o.wrapped_attributes,
        WrappedFarmTokenAttributes {
            farm_token_id: FARM_TOKEN,
            farm_token_nonce: 4,
            farmed_token_id: WRAPPED_LP,
            farmed_token_nonce: 3,
        }
    );
    assert_eq!(o.wrapped_token_nonce, 1);
    assert_eq!(o.wrapped_transfer.token_id, WRAPPED_FARM);
    assert_eq!(o.wrapped_transfer.amount, 33);
    assert_eq!(farm.entered, vec![(LP_TOKEN, 25)]);
}

#[test]
fn enter_farm_rejects_zero_yield_before_committing() {
    let mut f = farm_proxy();
    let mut farm = MockFarm {
        enter_result: SftTokenAmountPair { token_id: FARM_TOKEN, token_nonce: 4, amount: 0 },
        exit_result: (
            TokenAmountPair { token_id: LP_TOKEN, amount: 0 },
            TokenAmountPair { token_id: REWARD_TOKEN, amount: 0 },
        ),
        entered: vec![],
        exited: vec![],
    };
    assert_eq!(
        f.enter_farm_proxy(&mut farm, FARM_ADDR, USER, 1, WRAPPED_LP, 3, 25, Some(WRAPPED_LP), &lp_attrs())
            .unwrap_err(),
        ContractError::ZeroYieldError
    );
    // the state-changing call never happened
    assert!(farm.entered.is_empty());
}

#[test]
fn exit_farm_returns_position_and_reward() {
    let f = farm_proxy();
    let attrs = WrappedFarmTokenAttributes {
        farm_token_id: FARM_TOKEN,
        farm_token_nonce: 4,
        farmed_token_id: WRAPPED_LP,
        farmed_token_nonce: 3,
    };
    let mut farm = MockFarm {
        enter_result: SftTokenAmountPair { token_id: FARM_TOKEN, token_nonce: 0, amount: 0 },
        exit_result: (
            TokenAmountPair { token_id: LP_TOKEN, amount: 25 },
            TokenAmountPair { token_id: REWARD_TOKEN, amount: 6 },
        ),
        entered: vec![],
        exited: vec![],
    };
    let o = f
        .exit_farm_proxy(&mut farm, FARM_ADDR, USER, 1, WRAPPED_FARM, 9, 33, &attrs)
        .unwrap();
    assert_eq!(o.farmed_transfer.token_id, WRAPPED_LP);
    assert_eq!(o.farmed_transfer.token_nonce, 3);
    assert_eq!(o.farmed_transfer.amount, 25);
    assert_eq!(o.reward_transfer.token_id, REWARD_TOKEN);
    assert_eq!(o.reward_transfer.amount, 6);
    assert_eq!(o.wrapped_burn.token_id, WRAPPED_FARM);
    assert_eq!(o.wrapped_burn.amount, 33);
    assert_eq!(farm.exited, vec![(FARM_TOKEN, 4, 33)]);
}

#[test]
fn claim_rewards_rolls_the_position_over() {
    let mut f = farm_proxy();
    let attrs = WrappedFarmTokenAttributes {
        farm_token_id: FARM_TOKEN,
        farm_token_nonce: 4,
        farmed_token_id: WRAPPED_LP,
        farmed_token_nonce: 3,
    };
    let mut farm = MockFarm {
        enter_result: SftTokenAmountPair { token_id: FARM_TOKEN, token_nonce: 5, amount: 31 },
        exit_result: (
            TokenAmountPair { token_id: LP_TOKEN, amount: 25 },
            TokenAmountPair { token_id: REWARD_TOKEN, amount: 6 },
        ),
        entered: vec![],
        exited: vec![],
    };
    let o = f
        .claim_rewards_proxy(&mut farm, FARM_ADDR, USER, 1, WRAPPED_FARM, 9, 33, &attrs)
        .unwrap();
    assert_eq!(o.reward_transfer.token_id, REWARD_TOKEN);
    assert_eq!(o.reward_transfer.amount, 6);
    assert_eq!(o.wrapped_burn.amount, 33);
    assert_eq!(
        o.new_wrapped_attributes,
        WrappedFarmTokenAttributes {
            farm_token_id: FARM_TOKEN,
            farm_token_nonce: 5,
            farmed_token_id: WRAPPED_LP,
            farmed_token_nonce: 3,
        }
    );
    assert_eq!(o.new_wrapped_transfer.amount, 31);
    assert_eq!(farm.exited, vec![(FARM_TOKEN, 4, 33)]);
}

#[test]
fn farm_endpoints_check_the_payment_token() {
    let mut f = farm_proxy();
    let mut farm = MockFarm {
        enter_result: SftTokenAmountPair { token_id: FARM_TOKEN, token_nonce: 4, amount: 1 },
        exit_result: (
            TokenAmountPair { token_id: LP_TOKEN, amount: 1 },
            TokenAmountPair { token_id: REWARD_TOKEN, amount: 1 },
        ),
        entered: vec![],
        exited: vec![],
    };
    assert_eq!(
        f.enter_farm_proxy(&mut farm, FARM_ADDR, USER, 1, WEGLD, 3, 25, Some(WRAPPED_LP), &lp_attrs())
            .unwrap_err(),
        ContractError::ValidationError
    );
    assert_eq!(
        f.enter_farm_proxy(&mut farm, FARM_ADDR, USER, 1, WRAPPED_LP, 3, 0, Some(WRAPPED_LP), &lp_attrs())
            .unwrap_err(),
        ContractError::ZeroAmountError
    );
    assert_eq!(
        f.enter_farm_proxy(&mut farm, 9999, USER, 1, WRAPPED_LP, 3, 25, Some(WRAPPED_LP), &lp_attrs())
            .unwrap_err(),
        ContractError::PermissionError
    );
}

#[test]
fn proxy_dex_routes_issuance_callbacks() {
    let mut dex = ProxyDexImpl::new(OWNER, MEX, pair_params(), farm_params());
    assert!(dex.issue_sft_proxy_pair(OWNER).is_ok());
    assert_eq!(dex.issue_sft_proxy_pair(USER), Err(ContractError::PermissionError));
    assert!(!dex.issue_nft_callback(IssueRequestType::ProxyPair, Some(WRAPPED_LP)));
    assert_eq!(dex.issue_sft_proxy_pair(OWNER), Err(ContractError::StateError));
    assert!(dex.issue_sft_proxy_farm(OWNER).is_ok());
    assert!(!dex.issue_nft_callback(IssueRequestType::ProxyFarm, Some(WRAPPED_FARM)));
    assert_eq!(dex.proxy_pair.get_token_id(), Some(WRAPPED_LP));
    assert_eq!(dex.proxy_farm.get_token_id(), Some(WRAPPED_FARM));
    // a failed issuance refunds
    assert!(dex.issue_nft_callback(IssueRequestType::ProxyPair, None));
    assert!(dex.set_local_roles(OWNER, 2).is_ok());
    assert_eq!(dex.set_local_roles(OWNER, 0), Err(ContractError::ValidationError));
}

#[test]
fn whitelists_can_be_managed() {
    let mut p = ProxyPairModule::new(OWNER, MEX);
    assert!(p.add_pair_to_intermediate(OWNER, PAIR_ADDR).is_ok());
    assert!(p.remove_intermediated_pair(OWNER, PAIR_ADDR).is_ok());
    assert_eq!(
        p.remove_intermediated_pair(OWNER, PAIR_ADDR),
        Err(ContractError::PermissionError)
    );
    assert!(p.add_accepted_locked_asset_token_id(OWNER, LOCKED_MEX).is_ok());
    assert!(p.remove_accepted_locked_asset_token_id(OWNER, LOCKED_MEX).is_ok());
    let mut f = ProxyFarmModule::new(OWNER);
    assert!(f.add_farm_to_intermediate(OWNER, FARM_ADDR).is_ok());
    assert!(f.remove_intermediated_farm(OWNER, FARM_ADDR).is_ok());
    assert_eq!(
        f.remove_intermediated_farm(OWNER, FARM_ADDR),
        Err(ContractError::PermissionError)
    );
}
