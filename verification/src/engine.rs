//! The five public pool operations, and the one-time initializations.
//!
//! Each operation validates its inputs, prices the request against the
//! current reserves through the kernel in [`crate::math`], and then applies
//! all of its ledger movements or none: a rejected call returns an error and
//! leaves the state exactly as it was.

use crate::address::{Address, AddressType};
use crate::math::{
    calculate_equivalent_and_minted_tokens, calculate_reclaim_output, calculate_swap_to_amount,
    equivalent_amount, equivalent_and_minted_overflow, initial_liquidity_tokens, lemma_sqrt_is,
    lemma_swap_preserves_product, minted_amount, reclaim_amount, reclaim_overflows, sqrt,
    swap_amount, swap_amount_overflows,
};
use crate::state::{map_move, LiquiditySwapContractState};
use crate::token::{Token, TokenBalance};
use crate::AmmError;
use vstd::prelude::*;

verus! {

/// The state an escrow deposit carries between its request phase and its
/// confirm phase: which pool token is being deposited, and how much. The
/// runtime hands it back, unchanged, with the transfer outcome.
#[derive(Clone, Copy, Debug, PartialEq, Eq, Structural)]
pub struct PendingDeposit {
    /// The pool token the deposit is for.
    pub token: Token,
    /// The deposited amount.
    pub amount: u128,
}

/// Set up the exchange between the two token contracts, with an empty ledger.
///
/// Rejects a plain account address offered as a token, equal token addresses,
/// and a fee above 1000 per mille; checked in that order.
pub fn initialize(
    contract: Address,
    token_a_address: Address,
    token_b_address: Address,
    swap_fee_per_mille: u128,
) -> (r: Result<LiquiditySwapContractState, AmmError>)
    ensures
        r is Ok <==> token_a_address.address_type != AddressType::Account
            && token_b_address.address_type != AddressType::Account && token_a_address
            != token_b_address && swap_fee_per_mille <= 1000,
        r matches Ok(state) ==> state.wf() && state.contract == contract && state.token_a_address
            == token_a_address && state.token_b_address == token_b_address
            && state.swap_fee_per_mille == swap_fee_per_mille && state.token_balances@.len() == 0,
        r is Err ==> r == Err::<LiquiditySwapContractState, AmmError>(
            if token_a_address.address_type == AddressType::Account || token_b_address.address_type
                == AddressType::Account {
                AmmError::AccountAddressAsToken
            } else if token_a_address == token_b_address {
                AmmError::DuplicateTokenAddresses
            } else {
                AmmError::InvalidSwapFee
            },
        ),
{
    if token_a_address.address_type == AddressType::Account {
        return Err(AmmError::AccountAddressAsToken);
    }
    if token_b_address.address_type == AddressType::Account {
        return Err(AmmError::AccountAddressAsToken);
    }
    if token_a_address == token_b_address {
        return Err(AmmError::DuplicateTokenAddresses);
    }
    if swap_fee_per_mille > 1000 {
        return Err(AmmError::InvalidSwapFee);
    }
    Ok(
        LiquiditySwapContractState {
            contract,
            token_a_address,
            token_b_address,
            swap_fee_per_mille,
            token_balances: Vec::new(),
        },
    )
}

impl LiquiditySwapContractState {
    /// Open a deposit: validate that `token_address` names one of the two
    /// pool tokens and arm the continuation the confirm phase will need.
    ///
    /// The ledger is not touched; the caller is credited only when the
    /// external transfer is confirmed, through [`Self::deposit_callback`].
    pub fn deposit(&self, token_address: Address, amount: u128) -> (r: Result<
        PendingDeposit,
        AmmError,
    >)
        ensures
            match self.spec_provided_opposite(token_address) {
                Ok(pair) => r == Ok::<PendingDeposit, AmmError>(
                    PendingDeposit { token: pair.0, amount },
                ),
                Err(e) => r == Err::<PendingDeposit, AmmError>(e),
            },
    {
        let (from_token, _) = match self.deduce_provided_opposite_tokens(token_address) {
            Ok(pair) => pair,
            Err(e) => return Err(e),
        };
        Ok(PendingDeposit { token: from_token, amount })
    }

    /// Confirm a deposit: the runtime reports whether the external transfer
    /// behind `pending` succeeded.
    ///
    /// On success the caller is credited with the deposited amount; on
    /// failure — or if the credit would overflow — nothing is credited and
    /// the request lapses.
    pub fn deposit_callback(&mut self, sender: Address, success: bool, pending: PendingDeposit) -> (r:
        Result<(), AmmError>)
        requires
            old(self).wf(),
        ensures
            final(self).wf(),
            final(self).same_config(*old(self)),
            !success ==> r == Err::<(), AmmError>(AmmError::TransferFailed) && *final(self) == *old(
                self,
            ),
            success ==> match old(self).add_spec(sender, pending.token, pending.amount) {
                Ok(()) => r is Ok,
                Err(e) => r == Err::<(), AmmError>(e),
            },
            success && r is Ok ==> final(self).balances() == crate::state::map_credit(
                old(self).balances(),
                sender,
                pending.token,
                pending.amount,
            ),
            r is Err ==> *final(self) == *old(self),
            // Confirmed deposits are the only way tokens enter: the total of
            // the deposited token grows by exactly the deposited amount.
            r is Ok ==> final(self).total_a() == old(self).total_a() + if pending.token
                == Token::TokenA {
                pending.amount as int
            } else {
                0
            } && final(self).total_b() == old(self).total_b() + if pending.token == Token::TokenB {
                pending.amount as int
            } else {
                0
            } && final(self).total_liquidity() == old(self).total_liquidity() + if pending.token
                == Token::LiquidityToken {
                pending.amount as int
            } else {
                0
            },
            r is Err ==> final(self).total_a() == old(self).total_a() && final(self).total_b()
                == old(self).total_b() && final(self).total_liquidity() == old(
                self,
            ).total_liquidity(),
    {
        if !success {
            return Err(AmmError::TransferFailed);
        }
        self.add_to_token_balance(sender, pending.token, pending.amount)
    }

    /// Whether crediting would stay within 128 bits, as
    /// [`Self::add_to_token_balance`] decides it.
    pub open spec fn add_spec(self, user: Address, token: Token, amount: u128) -> Result<
        (),
        AmmError,
    > {
        if crate::state::credit_ok(self.balances(), user, token, amount) {
            Ok(())
        } else {
            Err(AmmError::Overflow)
        }
    }

    /// Withdraw `amount` of the token behind `token_address` from the
    /// caller's balance.
    ///
    /// The debit is applied before the external transfer is even requested:
    /// if that transfer later fails, the ledger under-represents custody,
    /// which is the safe direction, and nothing is rolled back.
    pub fn withdraw(&mut self, sender: Address, token_address: Address, amount: u128) -> (r: Result<
        (),
        AmmError,
    >)
        requires
            old(self).wf(),
        ensures
            final(self).wf(),
            final(self).same_config(*old(self)),
            match old(self).spec_provided_opposite(token_address) {
                Err(e) => r == Err::<(), AmmError>(e) && *final(self) == *old(self),
                Ok(pair) => {
                    if crate::state::debit_ok(old(self).balances(), sender, pair.0, amount) {
                        r is Ok && final(self).balances()
                            == crate::state::map_debit(old(self).balances(), sender, pair.0, amount)
                    } else {
                        r == Err::<(), AmmError>(AmmError::InsufficientFunds) && *final(self)
                            == *old(self)
                    }
                },
            },
            // Withdrawals are the only way tokens leave: the total of the
            // withdrawn token shrinks by exactly the withdrawn amount.
            r is Ok ==> final(self).total_a() == old(self).total_a() - if old(
                self,
            ).spec_provided_opposite(token_address) == Ok::<(Token, Token), AmmError>(
                (Token::TokenA, Token::TokenB),
            ) {
                amount as int
            } else {
                0
            },
            r is Ok ==> final(self).total_b() == old(self).total_b() - if old(
                self,
            ).spec_provided_opposite(token_address) == Ok::<(Token, Token), AmmError>(
                (Token::TokenB, Token::TokenA),
            ) {
                amount as int
            } else {
                0
            },
            final(self).total_liquidity() == old(self).total_liquidity(),
            r is Err ==> final(self).total_a() == old(self).total_a() && final(self).total_b()
                == old(self).total_b(),
    {
        let (provided_token, _) = match self.deduce_provided_opposite_tokens(token_address) {
            Ok(pair) => pair,
            Err(e) => return Err(e),
        };
        self.deduct_from_token_balance(sender, &provided_token, amount)
    }

    /// The outcome of a swap against this state: the new ledger, or the
    /// error, with the checks in the order the operation makes them.
    pub open spec fn swap_spec(self, sender: Address, token_address: Address, amount: u128) -> Result<
        Map<Address, TokenBalance>,
        AmmError,
    > {
        if !self.pools_have_liquidity() {
            Err(AmmError::EmptyPools)
        } else {
            match self.spec_provided_opposite(token_address) {
                Err(e) => Err(e),
                Ok((provided, opposite)) => {
                    let x = self.pool().amount_of(provided);
                    let y = self.pool().amount_of(opposite);
                    if swap_amount_overflows(x, y, amount, self.swap_fee_per_mille) {
                        Err(AmmError::Overflow)
                    } else {
                        let out = swap_amount(x, y, amount, self.swap_fee_per_mille) as u128;
                        match map_move(self.balances(), sender, self.contract, provided, amount) {
                            Err(e) => Err(e),
                            Ok(m1) => map_move(m1, self.contract, sender, opposite, out),
                        }
                    }
                },
            }
        }
    }

    /// Swap `amount` of the token behind `token_address` for the opposite
    /// token, at the constant-product rate after the fee.
    ///
    /// The input leg and the output leg are applied together: a caller never
    /// observes only one of them. Per-token totals never change — the pool
    /// absorbs what the caller gives up, including the fee — and the product
    /// of the two reserves never decreases.
    pub fn swap(&mut self, sender: Address, token_address: Address, amount: u128) -> (r: Result<
        (),
        AmmError,
    >)
        requires
            old(self).wf(),
        ensures
            final(self).wf(),
            final(self).same_config(*old(self)),
            match old(self).swap_spec(sender, token_address, amount) {
                Ok(m) => r == Ok::<(), AmmError>(()) && final(self).balances() == m,
                Err(e) => r == Err::<(), AmmError>(e) && *final(self) == *old(self),
            },
            final(self).total_a() == old(self).total_a(),
            final(self).total_b() == old(self).total_b(),
            final(self).total_liquidity() == old(self).total_liquidity(),
            r is Ok ==> final(self).pool().a_tokens * final(self).pool().b_tokens >= old(
                self,
            ).pool().a_tokens * old(self).pool().b_tokens,
    {
        if !self.contract_pools_have_liquidity() {
            return Err(AmmError::EmptyPools);
        }
        let (provided_token, opposite_token) = match self.deduce_provided_opposite_tokens(
            token_address,
        ) {
            Ok(pair) => pair,
            Err(e) => return Err(e),
        };
        let contract_address = self.contract;
        let contract_token_balance = self.get_balance_for(&contract_address);
        let x = contract_token_balance.get_amount_of(&provided_token);
        let y = contract_token_balance.get_amount_of(&opposite_token);
        let opposite_token_amount = match calculate_swap_to_amount(
            x,
            y,
            amount,
            self.swap_fee_per_mille,
        ) {
            Ok(v) => v,
            Err(e) => return Err(e),
        };
        proof {
            lemma_swap_preserves_product(x, y, amount, self.swap_fee_per_mille);
        }
        // Check both legs before applying either, so that a caller never
        // observes only one leg completed.
        let sender_balance = self.get_balance_for(&sender);
        if amount > sender_balance.get_amount_of(&provided_token) {
            return Err(AmmError::InsufficientFunds);
        }
        if sender != contract_address {
            if amount > u128::MAX - x {
                return Err(AmmError::Overflow);
            }
            if opposite_token_amount > u128::MAX - sender_balance.get_amount_of(&opposite_token) {
                return Err(AmmError::Overflow);
            }
        }
        let move_in = self.move_tokens(sender, contract_address, provided_token, amount);
        proof {
            assert(move_in == Ok::<(), AmmError>(()));
        }
        let move_out = self.move_tokens(
            contract_address,
            sender,
            opposite_token,
            opposite_token_amount,
        );
        proof {
            assert(move_out == Ok::<(), AmmError>(()));
            let m0 = old(self).balances();
            let pool0 = old(self).pool();
            let pool1 = self.pool();
            assert(self.balances()[contract_address] == pool1);
            assert(m0[contract_address] == pool0);
            assert(provided_token != opposite_token);
            let out = swap_amount(x, y, amount, old(self).swap_fee_per_mille);
            if sender == contract_address {
                // Both legs act on the pool itself: every field ends where it
                // started.
                assert(pool1 == pool0);
                assert(pool1.a_tokens * pool1.b_tokens >= pool0.a_tokens * pool0.b_tokens);
            } else {
                assert(pool1.amount_of(provided_token) == x + amount);
                assert(pool1.amount_of(opposite_token) == y - out);
                assert(pool0.amount_of(provided_token) == x);
                assert(pool0.amount_of(opposite_token) == y);
                assert((x + amount) * (y - out) >= x * y);
                if provided_token == Token::TokenA {
                    assert(pool1.a_tokens * pool1.b_tokens >= pool0.a_tokens * pool0.b_tokens);
                } else {
                    assert((y - out) * (x + amount) >= y * x) by (nonlinear_arith)
                        requires
                            (x + amount) * (y - out) >= x * y,
                    ;
                }
            }
        }
        Ok(())
    }

    /// The outcome of moving a liquidity provision into the pool: both asset
    /// legs from `user` to the pool, then the minted shares to `user` and to
    /// the pool's supply counter — all four or none.
    pub open spec fn provide_internal_spec(
        self,
        user: Address,
        provided_token_address: Address,
        provided_amount: u128,
        opposite_amount: u128,
        minted_liquidity_tokens: u128,
    ) -> Result<Map<Address, TokenBalance>, AmmError> {
        match self.spec_provided_opposite(provided_token_address) {
            Err(e) => Err(e),
            Ok((provided, opposite)) => match map_move(
                self.balances(),
                user,
                self.contract,
                provided,
                provided_amount,
            ) {
                Err(e) => Err(e),
                Ok(m1) => match map_move(m1, user, self.contract, opposite, opposite_amount) {
                    Err(e) => Err(e),
                    Ok(m2) => if !crate::state::credit_ok(
                        m2,
                        user,
                        Token::LiquidityToken,
                        minted_liquidity_tokens,
                    ) {
                        Err(AmmError::Overflow)
                    } else {
                        let m3 = crate::state::map_credit(
                            m2,
                            user,
                            Token::LiquidityToken,
                            minted_liquidity_tokens,
                        );
                        if !crate::state::credit_ok(
                            m3,
                            self.contract,
                            Token::LiquidityToken,
                            minted_liquidity_tokens,
                        ) {
                            Err(AmmError::Overflow)
                        } else {
                            Ok(
                                crate::state::map_credit(
                                    m3,
                                    self.contract,
                                    Token::LiquidityToken,
                                    minted_liquidity_tokens,
                                ),
                            )
                        }
                    },
                },
            },
        }
    }

    /// Move a priced provision into the pool and mint its shares: the
    /// provided and opposite legs from `user` to the pool, `minted` shares to
    /// `user`, and `minted` to the pool's supply counter. Applies all four
    /// movements or none.
    fn provide_liquidity_internal(
        &mut self,
        user: Address,
        provided_token_address: Address,
        provided_amount: u128,
        opposite_amount: u128,
        minted_liquidity_tokens: u128,
    ) -> (r: Result<(), AmmError>)
        requires
            old(self).wf(),
        ensures
            final(self).wf(),
            final(self).same_config(*old(self)),
            match old(self).provide_internal_spec(
                user,
                provided_token_address,
                provided_amount,
                opposite_amount,
                minted_liquidity_tokens,
            ) {
                Ok(m) => r is Ok && final(self).balances() == m,
                Err(e) => r == Err::<(), AmmError>(e) && *final(self) == *old(self),
            },
            final(self).total_a() == old(self).total_a(),
            final(self).total_b() == old(self).total_b(),
            r is Ok ==> final(self).total_liquidity() == old(self).total_liquidity() + 2
                * minted_liquidity_tokens,
            r is Err ==> final(self).total_liquidity() == old(self).total_liquidity(),
    {
        let (provided_token, opposite_token) = match self.deduce_provided_opposite_tokens(
            provided_token_address,
        ) {
            Ok(pair) => pair,
            Err(e) => return Err(e),
        };
        let contract_address = self.contract;
        let user_balance = self.get_balance_for(&user);
        let pool_balance = self.get_balance_for(&contract_address);
        // Check all four movements before applying any of them.
        if provided_amount > user_balance.get_amount_of(&provided_token) {
            return Err(AmmError::InsufficientFunds);
        }
        if user != contract_address {
            if provided_amount > u128::MAX - pool_balance.get_amount_of(&provided_token) {
                return Err(AmmError::Overflow);
            }
        }
        if opposite_amount > user_balance.get_amount_of(&opposite_token) {
            return Err(AmmError::InsufficientFunds);
        }
        if user != contract_address {
            if opposite_amount > u128::MAX - pool_balance.get_amount_of(&opposite_token) {
                return Err(AmmError::Overflow);
            }
        }
        if minted_liquidity_tokens > u128::MAX - user_balance.liquidity_tokens {
            return Err(AmmError::Overflow);
        }
        let pool_liquidity_after_user_mint = if user == contract_address {
            user_balance.liquidity_tokens + minted_liquidity_tokens
        } else {
            pool_balance.liquidity_tokens
        };
        if minted_liquidity_tokens > u128::MAX - pool_liquidity_after_user_mint {
            return Err(AmmError::Overflow);
        }
        let move_provided = self.move_tokens(
            user,
            contract_address,
            provided_token,
            provided_amount,
        );
        proof {
            assert(move_provided is Ok);
        }
        let move_opposite = self.move_tokens(
            user,
            contract_address,
            opposite_token,
            opposite_amount,
        );
        proof {
            assert(move_opposite is Ok);
        }
        let mint_user = self.add_to_token_balance(
            user,
            Token::LiquidityToken,
            minted_liquidity_tokens,
        );
        proof {
            assert(mint_user is Ok);
        }
        let mint_pool = self.add_to_token_balance(
            contract_address,
            Token::LiquidityToken,
            minted_liquidity_tokens,
        );
        proof {
            assert(mint_pool is Ok);
        }
        Ok(())
    }

    /// The outcome of a liquidity provision against this state: valid only in
    /// the initialized state, with both reserves funded; the checks in the
    /// order the operation makes them, then the four movements of
    /// [`Self::provide_internal_spec`].
    pub open spec fn provide_liquidity_spec(
        self,
        sender: Address,
        token_address: Address,
        amount: u128,
    ) -> Result<Map<Address, TokenBalance>, AmmError> {
        match self.spec_provided_opposite(token_address) {
            Err(e) => Err(e),
            Ok((provided, opposite)) => {
                let provided_pool = self.pool().amount_of(provided);
                let opposite_pool = self.pool().amount_of(opposite);
                let total_liq = self.pool().liquidity_tokens;
                if provided_pool == 0 || opposite_pool == 0 {
                    Err(AmmError::EmptyPools)
                } else if equivalent_and_minted_overflow(
                    amount,
                    provided_pool,
                    opposite_pool,
                    total_liq,
                ) {
                    Err(AmmError::Overflow)
                } else {
                    let oe = equivalent_amount(amount, provided_pool, opposite_pool) as u128;
                    let ml = minted_amount(amount, provided_pool, total_liq) as u128;
                    if ml == 0 {
                        Err(AmmError::ZeroLiquidityMinted)
                    } else {
                        self.provide_internal_spec(sender, token_address, amount, oe, ml)
                    }
                }
            },
        }
    }

    /// Provide `amount` of the token behind `token_address` as liquidity,
    /// together with the implicitly taken equivalent of the opposite token,
    /// and mint the corresponding shares to the caller.
    ///
    /// Rejects an unknown token address, a pool that does not yet hold both
    /// reserves, a provision that would mint zero shares, and any insufficiency or
    /// overflow — in each case without touching the ledger. Per-asset totals
    /// never change; the liquidity total grows by the minted shares, once for
    /// the caller and once for the pool's supply counter.
    pub fn provide_liquidity(&mut self, sender: Address, token_address: Address, amount: u128) -> (r:
        Result<(), AmmError>)
        requires
            old(self).wf(),
        ensures
            final(self).wf(),
            final(self).same_config(*old(self)),
            match old(self).provide_liquidity_spec(sender, token_address, amount) {
                Ok(m) => r is Ok && final(self).balances() == m,
                Err(e) => r == Err::<(), AmmError>(e) && *final(self) == *old(self),
            },
            final(self).total_a() == old(self).total_a(),
            final(self).total_b() == old(self).total_b(),
            r is Ok ==> match old(self).spec_provided_opposite(token_address) {
                Ok(pair) => final(self).total_liquidity() == old(self).total_liquidity() + 2
                    * minted_amount(
                    amount,
                    old(self).pool().amount_of(pair.0),
                    old(self).pool().liquidity_tokens,
                ),
                Err(_) => false,
            },
            // The pool's supply counter and the caller's share balance each
            // grow by exactly the minted shares, so the total supply stays
            // equal to the sum of the non-pool share holdings.
            r is Ok && sender != old(self).contract ==> match old(self).spec_provided_opposite(
                token_address,
            ) {
                Ok(pair) => {
                    let minted = minted_amount(
                        amount,
                        old(self).pool().amount_of(pair.0),
                        old(self).pool().liquidity_tokens,
                    );
                    final(self).pool().liquidity_tokens == old(self).pool().liquidity_tokens
                        + minted && final(self).balance_of(sender).liquidity_tokens == old(
                        self,
                    ).balance_of(sender).liquidity_tokens + minted
                },
                Err(_) => false,
            },
            r is Err ==> final(self).total_liquidity() == old(self).total_liquidity(),
    {
        let (provided_token, opposite_token) = match self.deduce_provided_opposite_tokens(
            token_address,
        ) {
            Ok(pair) => pair,
            Err(e) => return Err(e),
        };
        let contract_address = self.contract;
        let contract_token_balance = self.get_balance_for(&contract_address);
        let provided_pool = contract_token_balance.get_amount_of(&provided_token);
        let opposite_pool = contract_token_balance.get_amount_of(&opposite_token);
        let total_liq = contract_token_balance.liquidity_tokens;
        if provided_pool == 0 || opposite_pool == 0 {
            return Err(AmmError::EmptyPools);
        }
        let (opposite_equivalent, minted_liquidity_tokens) = match calculate_equivalent_and_minted_tokens(
            amount,
            provided_pool,
            opposite_pool,
            total_liq,
        ) {
            Ok(pair) => pair,
            Err(e) => return Err(e),
        };
        if minted_liquidity_tokens == 0 {
            return Err(AmmError::ZeroLiquidityMinted);
        }
        let r = self.provide_liquidity_internal(
            sender,
            token_address,
            amount,
            opposite_equivalent,
            minted_liquidity_tokens,
        );
        proof {
            if r is Ok && sender != contract_address {
                assert(self.balances()[contract_address] == self.pool());
                assert(old(self).balances()[contract_address] == old(self).pool());
                assert(self.balances()[sender] == self.balance_of(sender));
                assert(old(self).balances()[sender] == old(self).balance_of(sender));
            }
        }
        r
    }

    /// The outcome of providing the very first liquidity: valid only while
    /// both reserves are zero, minting the square root of the product of the
    /// two provided amounts, then the movements of
    /// [`Self::provide_internal_spec`] with asset A as the provided side.
    pub open spec fn provide_initial_liquidity_spec(
        self,
        sender: Address,
        token_a_amount: u128,
        token_b_amount: u128,
    ) -> Result<Map<Address, TokenBalance>, AmmError> {
        if !self.pools_are_empty() {
            Err(AmmError::PoolsNotEmpty)
        } else if token_a_amount * token_b_amount > u128::MAX {
            Err(AmmError::Overflow)
        } else {
            let minted = sqrt(token_a_amount * token_b_amount) as u128;
            if minted == 0 {
                Err(AmmError::ZeroLiquidityMinted)
            } else {
                self.provide_internal_spec(
                    sender,
                    self.token_a_address,
                    token_a_amount,
                    token_b_amount,
                    minted,
                )
            }
        }
    }

    /// Initialize both pools from the caller's balances and mint the first
    /// liquidity shares, making the caller the sole initial liquidity
    /// provider.
    ///
    /// Valid only while both reserves are zero; the minted supply is the
    /// square root of the product of the two amounts, so the value of one
    /// share does not depend on the initial ratio.
    pub fn provide_initial_liquidity(
        &mut self,
        sender: Address,
        token_a_amount: u128,
        token_b_amount: u128,
    ) -> (r: Result<(), AmmError>)
        requires
            old(self).wf(),
        ensures
            final(self).wf(),
            final(self).same_config(*old(self)),
            match old(self).provide_initial_liquidity_spec(sender, token_a_amount, token_b_amount) {
                Ok(m) => r is Ok && final(self).balances() == m,
                Err(e) => r == Err::<(), AmmError>(e) && *final(self) == *old(self),
            },
            final(self).total_a() == old(self).total_a(),
            final(self).total_b() == old(self).total_b(),
            r is Ok ==> final(self).total_liquidity() == old(self).total_liquidity() + 2 * sqrt(
                token_a_amount * token_b_amount,
            ),
            // The pool's supply counter and the caller's share balance each
            // grow by exactly the minted supply, so the total supply stays
            // equal to the sum of the non-pool share holdings.
            r is Ok && sender != old(self).contract ==> final(self).pool().liquidity_tokens == old(
                self,
            ).pool().liquidity_tokens + sqrt(token_a_amount * token_b_amount)
                && final(self).balance_of(sender).liquidity_tokens == old(self).balance_of(
                sender,
            ).liquidity_tokens + sqrt(token_a_amount * token_b_amount),
            r is Err ==> final(self).total_liquidity() == old(self).total_liquidity(),
    {
        let contract_address = self.contract;
        let pool_balance = self.get_balance_for(&contract_address);
        if pool_balance.a_tokens != 0 || pool_balance.b_tokens != 0 {
            return Err(AmmError::PoolsNotEmpty);
        }
        let minted_liquidity_tokens = match initial_liquidity_tokens(
            token_a_amount,
            token_b_amount,
        ) {
            Ok(v) => v,
            Err(e) => return Err(e),
        };
        proof {
            lemma_sqrt_is(
                minted_liquidity_tokens as int,
                token_a_amount as int * token_b_amount as int,
            );
        }
        if minted_liquidity_tokens == 0 {
            return Err(AmmError::ZeroLiquidityMinted);
        }
        let provided_address = self.token_a_address;
        let r = self.provide_liquidity_internal(
            sender,
            provided_address,
            token_a_amount,
            token_b_amount,
            minted_liquidity_tokens,
        );
        proof {
            if r is Ok && sender != contract_address {
                assert(self.balances()[contract_address] == self.pool());
                assert(old(self).balances()[contract_address] == old(self).pool());
                assert(self.balances()[sender] == self.balance_of(sender));
                assert(old(self).balances()[sender] == old(self).balance_of(sender));
            }
        }
        r
    }

    /// The outcome of a liquidity reclaim: burn the caller's shares, price
    /// both outputs against the reserves and the pre-reclaim total share
    /// count, pay out both reserves' shares, and burn the same amount from
    /// the pool's supply counter — with the checks in the order the
    /// operation makes them.
    pub open spec fn reclaim_liquidity_spec(
        self,
        sender: Address,
        liquidity_token_amount: u128,
    ) -> Result<Map<Address, TokenBalance>, AmmError> {
        let m0 = self.balances();
        if !crate::state::debit_ok(m0, sender, Token::LiquidityToken, liquidity_token_amount) {
            Err(AmmError::InsufficientFunds)
        } else {
            let m1 = crate::state::map_debit(
                m0,
                sender,
                Token::LiquidityToken,
                liquidity_token_amount,
            );
            let pool = m1[self.contract];
            if pool.liquidity_tokens == 0 {
                Err(AmmError::EmptyPools)
            } else if reclaim_overflows(liquidity_token_amount, pool.a_tokens, pool.b_tokens) {
                Err(AmmError::Overflow)
            } else {
                let a_output = reclaim_amount(
                    pool.a_tokens,
                    liquidity_token_amount,
                    pool.liquidity_tokens,
                ) as u128;
                let b_output = reclaim_amount(
                    pool.b_tokens,
                    liquidity_token_amount,
                    pool.liquidity_tokens,
                ) as u128;
                match map_move(m1, self.contract, sender, Token::TokenA, a_output) {
                    Err(e) => Err(e),
                    Ok(m2) => match map_move(m2, self.contract, sender, Token::TokenB, b_output) {
                        Err(e) => Err(e),
                        Ok(m3) => if !crate::state::debit_ok(
                            m3,
                            self.contract,
                            Token::LiquidityToken,
                            liquidity_token_amount,
                        ) {
                            Err(AmmError::InsufficientFunds)
                        } else {
                            Ok(
                                crate::state::map_debit(
                                    m3,
                                    self.contract,
                                    Token::LiquidityToken,
                                    liquidity_token_amount,
                                ),
                            )
                        },
                    },
                }
            }
        }
    }

    /// Reclaim the caller's proportional share of both reserves by burning
    /// `liquidity_token_amount` liquidity shares.
    ///
    /// The payout is priced against the pre-reclaim total share count and
    /// rounds down on both sides; the burnt shares leave both the caller's
    /// balance and the pool's supply counter. All movements apply together
    /// or not at all; per-asset totals never change, and the liquidity total
    /// shrinks by twice the burnt amount.
    pub fn reclaim_liquidity(&mut self, sender: Address, liquidity_token_amount: u128) -> (r:
        Result<(), AmmError>)
        requires
            old(self).wf(),
        ensures
            final(self).wf(),
            final(self).same_config(*old(self)),
            match old(self).reclaim_liquidity_spec(sender, liquidity_token_amount) {
                Ok(m) => r is Ok && final(self).balances() == m,
                Err(e) => r == Err::<(), AmmError>(e) && *final(self) == *old(self),
            },
            final(self).total_a() == old(self).total_a(),
            final(self).total_b() == old(self).total_b(),
            r is Ok ==> final(self).total_liquidity() == old(self).total_liquidity() - 2
                * liquidity_token_amount,
            // The pool's supply counter and the caller's share balance each
            // shrink by exactly the burnt shares, so the total supply stays
            // equal to the sum of the non-pool share holdings.
            r is Ok && sender != old(self).contract ==> final(self).pool().liquidity_tokens == old(
                self,
            ).pool().liquidity_tokens - liquidity_token_amount && final(self).balance_of(
                sender,
            ).liquidity_tokens == old(self).balance_of(sender).liquidity_tokens
                - liquidity_token_amount,
            r is Err ==> final(self).total_liquidity() == old(self).total_liquidity(),
    {
        let contract_address = self.contract;
        let sender_balance = self.get_balance_for(&sender);
        if liquidity_token_amount > sender_balance.liquidity_tokens {
            return Err(AmmError::InsufficientFunds);
        }
        // The pool record as the pricing sees it: after the caller's shares
        // are burnt, which only matters when the caller is the pool itself.
        let pool_balance = if sender == contract_address {
            TokenBalance {
                liquidity_tokens: sender_balance.liquidity_tokens - liquidity_token_amount,
                ..sender_balance
            }
        } else {
            self.get_balance_for(&contract_address)
        };
        if pool_balance.liquidity_tokens == 0 {
            return Err(AmmError::EmptyPools);
        }
        let (a_output, b_output) = match calculate_reclaim_output(
            liquidity_token_amount,
            pool_balance.a_tokens,
            pool_balance.b_tokens,
            pool_balance.liquidity_tokens,
        ) {
            Ok(pair) => pair,
            Err(e) => return Err(e),
        };
        // Check every remaining movement before applying any of them.
        if a_output > pool_balance.a_tokens {
            return Err(AmmError::InsufficientFunds);
        }
        if sender != contract_address {
            if a_output > u128::MAX - sender_balance.a_tokens {
                return Err(AmmError::Overflow);
            }
        }
        if b_output > pool_balance.b_tokens {
            return Err(AmmError::InsufficientFunds);
        }
        if sender != contract_address {
            if b_output > u128::MAX - sender_balance.b_tokens {
                return Err(AmmError::Overflow);
            }
        }
        if liquidity_token_amount > pool_balance.liquidity_tokens {
            return Err(AmmError::InsufficientFunds);
        }
        let burn_user = self.deduct_from_token_balance(
            sender,
            &Token::LiquidityToken,
            liquidity_token_amount,
        );
        proof {
            assert(burn_user is Ok);
        }
        let move_a = self.move_tokens(contract_address, sender, Token::TokenA, a_output);
        proof {
            assert(move_a is Ok);
        }
        let move_b = self.move_tokens(contract_address, sender, Token::TokenB, b_output);
        proof {
            assert(move_b is Ok);
        }
        let burn_pool = self.deduct_from_token_balance(
            contract_address,
            &Token::LiquidityToken,
            liquidity_token_amount,
        );
        proof {
            assert(burn_pool is Ok);
            if sender != contract_address {
                assert(self.balances()[contract_address] == self.pool());
                assert(old(self).balances()[contract_address] == old(self).pool());
                assert(self.balances()[sender] == self.balance_of(sender));
                assert(old(self).balances()[sender] == old(self).balance_of(sender));
            }
        }
        Ok(())
    }
}

} // verus!
