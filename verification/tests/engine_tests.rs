use liquidity_swap::address::{Address, AddressType};
use liquidity_swap::math::{
    calculate_equivalent_and_minted_tokens, calculate_reclaim_output, calculate_swap_to_amount,
    initial_liquidity_tokens,
};
use liquidity_swap::engine::{initialize, PendingDeposit};
use liquidity_swap::state::LiquiditySwapContractState;
use liquidity_swap::token::Token;
use liquidity_swap::AmmError;

fn contract_address() -> Address {
    Address { address_type: AddressType::PublicContract, identifier_high: 0, identifier_low: 1 }
}

fn token_a_address() -> Address {
    Address { address_type: AddressType::PublicContract, identifier_high: 0, identifier_low: 2 }
}

fn token_b_address() -> Address {
    Address { address_type: AddressType::PublicContract, identifier_high: 0, identifier_low: 3 }
}

fn unknown_address() -> Address {
    Address { address_type: AddressType::PublicContract, identifier_high: 0, identifier_low: 4 }
}

fn account(n: u128) -> Address {
    Address { address_type: AddressType::Account, identifier_high: 0, identifier_low: 100 + n }
}

fn fresh_state() -> LiquiditySwapContractState {
    initialize(contract_address(), token_a_address(), token_b_address(), 3).unwrap()
}

/// Credit `user` through the deposit two-phase flow with a confirmed
/// transfer.
fn confirmed_deposit(state: &mut LiquiditySwapContractState, user: Address, token: Address, amount: u128) {
    let pending = state.deposit(token, amount).unwrap();
    state.deposit_callback(user, true, pending).unwrap();
}

/// The sum of one token over every ledger row.
fn ledger_total(state: &LiquiditySwapContractState, token: Token) -> u128 {
    let mut sum: u128 = 0;
    for (_, balance) in &state.token_balances {
        sum += balance.get_amount_of(&token);
    }
    sum
}

#[test]
fn initialize_rejects_account_address_as_token() {
    let r = initialize(contract_address(), account(1), token_b_address(), 3);
    assert_eq!(r.err(), Some(AmmError::AccountAddressAsToken));
    let r = initialize(contract_address(), token_a_address(), account(1), 3);
    assert_eq!(r.err(), Some(AmmError::AccountAddressAsToken));
}

#[test]
fn initialize_rejects_duplicate_tokens() {
    let r = initialize(contract_address(), token_a_address(), token_a_address(), 3);
    assert_eq!(r.err(), Some(AmmError::DuplicateTokenAddresses));
}

#[test]
fn initialize_rejects_fee_above_one_thousand() {
    let r = initialize(contract_address(), token_a_address(), token_b_address(), 1001);
    assert_eq!(r.err(), Some(AmmError::InvalidSwapFee));
}

#[test]
fn deposit_resolves_the_token_and_keeps_the_amount() {
    let state = fresh_state();
    let pending = state.deposit(token_a_address(), 500).unwrap();
    assert_eq!(pending, PendingDeposit { token: Token::TokenA, amount: 500 });
    let pending = state.deposit(token_b_address(), 7).unwrap();
    assert_eq!(pending, PendingDeposit { token: Token::TokenB, amount: 7 });
}

#[test]
fn deposit_rejects_unknown_token_address() {
    let state = fresh_state();
    let r = state.deposit(unknown_address(), 500);
    assert_eq!(r.err(), Some(AmmError::UnknownTokenAddress));
}

#[test]
fn deposit_callback_credits_on_success() {
    let mut state = fresh_state();
    let user = account(1);
    confirmed_deposit(&mut state, user, token_a_address(), 500);
    assert_eq!(state.get_balance_for(&user).a_tokens, 500);
    assert_eq!(state.get_balance_for(&user).b_tokens, 0);
}

#[test]
fn deposit_callback_drops_failed_transfers() {
    let mut state = fresh_state();
    let user = account(1);
    let pending = state.deposit(token_a_address(), 500).unwrap();
    let r = state.deposit_callback(user, false, pending);
    assert_eq!(r.err(), Some(AmmError::TransferFailed));
    assert_eq!(state.get_balance_for(&user).a_tokens, 0);
}

#[test]
fn initial_liquidity_mints_the_square_root() {
    let mut state = fresh_state();
    let provider = account(1);
    confirmed_deposit(&mut state, provider, token_a_address(), 10000);
    confirmed_deposit(&mut state, provider, token_b_address(), 10000);
    state.provide_initial_liquidity(provider, 10000, 10000).unwrap();

    let pool = state.get_balance_for(&contract_address());
    assert_eq!(pool.a_tokens, 10000);
    assert_eq!(pool.b_tokens, 10000);
    assert_eq!(pool.liquidity_tokens, 10000);
    let held = state.get_balance_for(&provider);
    assert_eq!(held.a_tokens, 0);
    assert_eq!(held.b_tokens, 0);
    assert_eq!(held.liquidity_tokens, 10000);
}

#[test]
fn initial_liquidity_rejects_funded_pools() {
    let mut state = fresh_state();
    let provider = account(1);
    confirmed_deposit(&mut state, provider, token_a_address(), 300);
    confirmed_deposit(&mut state, provider, token_b_address(), 300);
    state.provide_initial_liquidity(provider, 100, 100).unwrap();
    let r = state.provide_initial_liquidity(provider, 100, 100);
    assert_eq!(r.err(), Some(AmmError::PoolsNotEmpty));
}

#[test]
fn initial_liquidity_rejects_partly_funded_pool() {
    let mut state = fresh_state();
    // A deposit confirmed for the contract's own address leaves one reserve
    // funded and the other empty; initial provision must still be rejected.
    confirmed_deposit(&mut state, contract_address(), token_a_address(), 5);
    let provider = account(1);
    confirmed_deposit(&mut state, provider, token_a_address(), 100);
    confirmed_deposit(&mut state, provider, token_b_address(), 100);
    let r = state.provide_initial_liquidity(provider, 100, 100);
    assert_eq!(r.err(), Some(AmmError::PoolsNotEmpty));
}

#[test]
fn initial_liquidity_rejects_zero_minted() {
    let mut state = fresh_state();
    let provider = account(1);
    let r = state.provide_initial_liquidity(provider, 0, 0);
    assert_eq!(r.err(), Some(AmmError::ZeroLiquidityMinted));
}

#[test]
fn swap_rejects_empty_pools() {
    let mut state = fresh_state();
    let r = state.swap(account(1), token_a_address(), 10);
    assert_eq!(r.err(), Some(AmmError::EmptyPools));
}

#[test]
fn swap_trades_at_the_constant_product_rate() {
    let mut state = fresh_state();
    let provider = account(1);
    confirmed_deposit(&mut state, provider, token_a_address(), 10000);
    confirmed_deposit(&mut state, provider, token_b_address(), 10000);
    state.provide_initial_liquidity(provider, 10000, 10000).unwrap();

    let trader = account(2);
    confirmed_deposit(&mut state, trader, token_a_address(), 1000);
    state.swap(trader, token_a_address(), 1000).unwrap();

    // (997 * 1000 * 10000) / (1000 * 10000 + 997 * 1000) = 906, rounded down.
    let held = state.get_balance_for(&trader);
    assert_eq!(held.a_tokens, 0);
    assert_eq!(held.b_tokens, 906);

    let pool = state.get_balance_for(&contract_address());
    assert_eq!(pool.a_tokens, 11000);
    assert_eq!(pool.b_tokens, 9094);
    // The reserve product never decreased.
    assert!(pool.a_tokens * pool.b_tokens >= 10000u128 * 10000u128);
}

#[test]
fn swap_rejects_unknown_token_address() {
    let mut state = fresh_state();
    let provider = account(1);
    confirmed_deposit(&mut state, provider, token_a_address(), 200);
    confirmed_deposit(&mut state, provider, token_b_address(), 200);
    state.provide_initial_liquidity(provider, 100, 100).unwrap();
    let r = state.swap(provider, unknown_address(), 10);
    assert_eq!(r.err(), Some(AmmError::UnknownTokenAddress));
}

#[test]
fn swap_rejects_insufficient_balance() {
    let mut state = fresh_state();
    let provider = account(1);
    confirmed_deposit(&mut state, provider, token_a_address(), 200);
    confirmed_deposit(&mut state, provider, token_b_address(), 200);
    state.provide_initial_liquidity(provider, 100, 100).unwrap();
    let trader = account(2);
    let r = state.swap(trader, token_a_address(), 10);
    assert_eq!(r.err(), Some(AmmError::InsufficientFunds));
}

#[test]
fn provide_liquidity_takes_the_rounded_up_equivalent() {
    let mut state = fresh_state();
    let provider = account(1);
    confirmed_deposit(&mut state, provider, token_a_address(), 100);
    confirmed_deposit(&mut state, provider, token_b_address(), 100);
    state.provide_initial_liquidity(provider, 100, 100).unwrap();

    let joiner = account(2);
    confirmed_deposit(&mut state, joiner, token_a_address(), 10);
    confirmed_deposit(&mut state, joiner, token_b_address(), 20);
    state.provide_liquidity(joiner, token_a_address(), 10).unwrap();

    // Equivalent of 10 A at a 100:100 ratio rounds up to 11 B; 10 shares minted.
    let held = state.get_balance_for(&joiner);
    assert_eq!(held.a_tokens, 0);
    assert_eq!(held.b_tokens, 9);
    assert_eq!(held.liquidity_tokens, 10);

    let pool = state.get_balance_for(&contract_address());
    assert_eq!(pool.a_tokens, 110);
    assert_eq!(pool.b_tokens, 111);
    assert_eq!(pool.liquidity_tokens, 110);
}

#[test]
fn provide_liquidity_rejects_zero_minted() {
    let mut state = fresh_state();
    let provider = account(1);
    confirmed_deposit(&mut state, provider, token_a_address(), 2000);
    confirmed_deposit(&mut state, provider, token_b_address(), 2000);
    state.provide_initial_liquidity(provider, 1000, 1000).unwrap();
    let joiner = account(2);
    confirmed_deposit(&mut state, joiner, token_a_address(), 10);
    let r = state.provide_liquidity(joiner, token_a_address(), 0);
    assert_eq!(r.err(), Some(AmmError::ZeroLiquidityMinted));
}

#[test]
fn provide_liquidity_rejects_empty_pools() {
    let mut state = fresh_state();
    let joiner = account(2);
    confirmed_deposit(&mut state, joiner, token_a_address(), 10);
    let r = state.provide_liquidity(joiner, token_a_address(), 10);
    assert_eq!(r.err(), Some(AmmError::EmptyPools));
}

#[test]
fn provide_liquidity_rejects_partly_funded_pool() {
    let mut state = fresh_state();
    confirmed_deposit(&mut state, contract_address(), token_a_address(), 5);
    let joiner = account(2);
    confirmed_deposit(&mut state, joiner, token_a_address(), 10);
    confirmed_deposit(&mut state, joiner, token_b_address(), 10);
    let r = state.provide_liquidity(joiner, token_a_address(), 10);
    assert_eq!(r.err(), Some(AmmError::EmptyPools));
}

#[test]
fn reclaim_liquidity_pays_the_proportional_share() {
    let mut state = fresh_state();
    let provider = account(1);
    confirmed_deposit(&mut state, provider, token_a_address(), 100);
    confirmed_deposit(&mut state, provider, token_b_address(), 100);
    state.provide_initial_liquidity(provider, 100, 100).unwrap();

    state.reclaim_liquidity(provider, 10).unwrap();

    let held = state.get_balance_for(&provider);
    assert_eq!(held.a_tokens, 10);
    assert_eq!(held.b_tokens, 10);
    assert_eq!(held.liquidity_tokens, 90);

    let pool = state.get_balance_for(&contract_address());
    assert_eq!(pool.a_tokens, 90);
    assert_eq!(pool.b_tokens, 90);
    assert_eq!(pool.liquidity_tokens, 90);
}

#[test]
fn swap_of_zero_buys_zero() {
    let mut state = fresh_state();
    let provider = account(1);
    confirmed_deposit(&mut state, provider, token_a_address(), 200);
    confirmed_deposit(&mut state, provider, token_b_address(), 200);
    state.provide_initial_liquidity(provider, 100, 100).unwrap();

    let trader = account(2);
    state.swap(trader, token_a_address(), 0).unwrap();
    assert_eq!(state.get_balance_for(&trader).b_tokens, 0);
    let pool = state.get_balance_for(&contract_address());
    assert_eq!(pool.a_tokens, 100);
    assert_eq!(pool.b_tokens, 100);
}

#[test]
fn reclaim_liquidity_rejects_unfunded_pool() {
    let mut state = fresh_state();
    let r = state.reclaim_liquidity(account(1), 0);
    assert_eq!(r.err(), Some(AmmError::EmptyPools));
}

#[test]
fn reclaim_liquidity_rejects_more_shares_than_held() {
    let mut state = fresh_state();
    let provider = account(1);
    confirmed_deposit(&mut state, provider, token_a_address(), 100);
    confirmed_deposit(&mut state, provider, token_b_address(), 100);
    state.provide_initial_liquidity(provider, 100, 100).unwrap();
    let r = state.reclaim_liquidity(provider, 101);
    assert_eq!(r.err(), Some(AmmError::InsufficientFunds));
}

#[test]
fn withdraw_pre_debits_and_rejects_insufficiency() {
    let mut state = fresh_state();
    let user = account(1);
    confirmed_deposit(&mut state, user, token_a_address(), 50);

    state.withdraw(user, token_a_address(), 20).unwrap();
    assert_eq!(state.get_balance_for(&user).a_tokens, 30);

    let r = state.withdraw(user, token_a_address(), 40);
    assert_eq!(r.err(), Some(AmmError::InsufficientFunds));
    assert_eq!(state.get_balance_for(&user).a_tokens, 30);

    let r = state.withdraw(user, unknown_address(), 1);
    assert_eq!(r.err(), Some(AmmError::UnknownTokenAddress));
}

#[test]
fn kernel_rejects_overflowing_inputs() {
    let r = calculate_swap_to_amount(u128::MAX / 500, 10, 10, 3);
    assert_eq!(r.err(), Some(AmmError::Overflow));
    let r = calculate_equivalent_and_minted_tokens(u128::MAX, 1, u128::MAX, 0);
    assert_eq!(r.err(), Some(AmmError::Overflow));
    let r = calculate_reclaim_output(u128::MAX, u128::MAX, 1, 1);
    assert_eq!(r.err(), Some(AmmError::Overflow));
    let r = initial_liquidity_tokens(u128::MAX, 2);
    assert_eq!(r.err(), Some(AmmError::Overflow));
}

#[test]
fn totals_change_only_by_deposits_and_withdrawals() {
    let mut state = fresh_state();
    let provider = account(1);
    let trader = account(2);

    confirmed_deposit(&mut state, provider, token_a_address(), 10000);
    confirmed_deposit(&mut state, provider, token_b_address(), 10000);
    confirmed_deposit(&mut state, trader, token_a_address(), 600);
    assert_eq!(ledger_total(&state, Token::TokenA), 10600);
    assert_eq!(ledger_total(&state, Token::TokenB), 10000);

    // Pool operations conserve both per-asset totals exactly.
    state.provide_initial_liquidity(provider, 10000, 10000).unwrap();
    assert_eq!(ledger_total(&state, Token::TokenA), 10600);
    assert_eq!(ledger_total(&state, Token::TokenB), 10000);

    state.swap(trader, token_a_address(), 600).unwrap();
    assert_eq!(ledger_total(&state, Token::TokenA), 10600);
    assert_eq!(ledger_total(&state, Token::TokenB), 10000);

    state.reclaim_liquidity(provider, 500).unwrap();
    assert_eq!(ledger_total(&state, Token::TokenA), 10600);
    assert_eq!(ledger_total(&state, Token::TokenB), 10000);

    // A withdrawal is the one thing that shrinks a total.
    let trader_b = state.get_balance_for(&trader).b_tokens;
    state.withdraw(trader, token_b_address(), trader_b).unwrap();
    assert_eq!(ledger_total(&state, Token::TokenB), 10000 - trader_b);
}
