//! The persisted contract state and the balance-ledger operations on it.

use crate::address::Address;
use crate::ledger::{
    distinct_keys, lemma_lookup_absent, lemma_lookup_found, lemma_lookup_push,
    lemma_lookup_remove, lemma_lookup_update, lemma_totals_push, lemma_totals_remove,
    lemma_totals_update, lookup, no_empty_records, totals,
};
use crate::token::{Token, TokenBalance};
use crate::AmmError;
use vstd::prelude::*;

verus! {

/// Crediting `amount` of `token` to `a` stays within 128 bits.
pub open spec fn credit_ok(
    m: Map<Address, TokenBalance>,
    a: Address,
    token: Token,
    amount: u128,
) -> bool {
    m[a].amount_of(token) + amount <= u128::MAX
}

/// The ledger after crediting `amount` of `token` to `a`.
pub open spec fn map_credit(
    m: Map<Address, TokenBalance>,
    a: Address,
    token: Token,
    amount: u128,
) -> Map<Address, TokenBalance>
    recommends
        credit_ok(m, a, token, amount),
{
    m.insert(a, m[a].with_amount(token, (m[a].amount_of(token) + amount) as u128))
}

/// Account `a` holds at least `amount` of `token`.
pub open spec fn debit_ok(
    m: Map<Address, TokenBalance>,
    a: Address,
    token: Token,
    amount: u128,
) -> bool {
    amount <= m[a].amount_of(token)
}

/// The ledger after debiting `amount` of `token` from `a`.
pub open spec fn map_debit(
    m: Map<Address, TokenBalance>,
    a: Address,
    token: Token,
    amount: u128,
) -> Map<Address, TokenBalance>
    recommends
        debit_ok(m, a, token, amount),
{
    m.insert(a, m[a].with_amount(token, (m[a].amount_of(token) - amount) as u128))
}

/// Moving is a debit from `from` followed by a credit to `to`, against the
/// same snapshot; it fails, without effect, if `from` holds too little or the
/// credit would overflow.
pub open spec fn map_move(
    m: Map<Address, TokenBalance>,
    from: Address,
    to: Address,
    token: Token,
    amount: u128,
) -> Result<Map<Address, TokenBalance>, AmmError> {
    if !debit_ok(m, from, token, amount) {
        Err(AmmError::InsufficientFunds)
    } else if !credit_ok(map_debit(m, from, token, amount), to, token, amount) {
        Err(AmmError::Overflow)
    } else {
        Ok(map_credit(map_debit(m, from, token, amount), to, token, amount))
    }
}

/// The full state of the exchange: its configuration and the balance ledger.
///
/// The ledger is a vector of `(account, record)` rows; the row of the
/// contract's own address is the pool, whose A and B balances are the two
/// swap reserves and whose liquidity balance is the total minted share
/// supply.
pub struct LiquiditySwapContractState {
    /// The address of this contract; its own ledger row holds the pool.
    pub contract: Address,
    /// The address of the token contract behind asset A.
    pub token_a_address: Address,
    /// The address of the token contract behind asset B.
    pub token_b_address: Address,
    /// The swap fee, in per mille of the input amount; at most 1000.
    pub swap_fee_per_mille: u128,
    /// The ledger rows: distinct accounts, and no all-zero record.
    pub token_balances: Vec<(Address, TokenBalance)>,
}

impl LiquiditySwapContractState {
    /// Well-formedness: the ledger names each account at most once and keeps
    /// no all-zero record, the two token addresses differ, and the fee is a
    /// per-mille value. Constructed states satisfy this and every operation
    /// preserves it.
    pub open spec fn wf(self) -> bool {
        &&& distinct_keys(self.token_balances@)
        &&& no_empty_records(self.token_balances@)
        &&& self.token_a_address != self.token_b_address
        &&& self.swap_fee_per_mille <= 1000
    }

    /// The ledger as a total map: every address holds a record, the all-zero
    /// one when it has no row.
    pub open spec fn balances(self) -> Map<Address, TokenBalance> {
        Map::new(|a: Address| true, |a: Address| lookup(self.token_balances@, a))
    }

    /// What `a` holds.
    pub open spec fn balance_of(self, a: Address) -> TokenBalance {
        lookup(self.token_balances@, a)
    }

    /// The sum of all accounts' A balances, the pool's included.
    pub open spec fn total_a(self) -> int {
        totals(self.token_balances@).0
    }

    /// The sum of all accounts' B balances, the pool's included.
    pub open spec fn total_b(self) -> int {
        totals(self.token_balances@).1
    }

    /// The sum of all accounts' liquidity balances, the pool's supply counter
    /// included.
    pub open spec fn total_liquidity(self) -> int {
        totals(self.token_balances@).2
    }

    /// The pool record: what the contract's own address holds.
    pub open spec fn pool(self) -> TokenBalance {
        self.balance_of(self.contract)
    }

    /// Both configuration and ledger agree with `other` except possibly the
    /// ledger rows.
    pub open spec fn same_config(self, other: Self) -> bool {
        &&& self.contract == other.contract
        &&& self.token_a_address == other.token_a_address
        &&& self.token_b_address == other.token_b_address
        &&& self.swap_fee_per_mille == other.swap_fee_per_mille
    }

    /// Find the row of `user`, if there is one.
    fn find_entry(&self, user: &Address) -> (r: Option<usize>)
        ensures
            match r {
                Some(i) => i < self.token_balances@.len() && self.token_balances@[i as int].0
                    == *user,
                None => forall|j: int|
                    0 <= j < self.token_balances@.len() ==> (#[trigger] self.token_balances@[j]).0
                        != *user,
            },
    {
        let n = self.token_balances.len();
        let mut i: usize = 0;
        while i < n
            invariant
                n == self.token_balances@.len(),
                i <= n,
                forall|j: int| 0 <= j < i ==> (#[trigger] self.token_balances@[j]).0 != *user,
            decreases n - i,
        {
            if self.token_balances[i].0 == *user {
                return Some(i);
            }
            i += 1;
        }
        None
    }

    /// Retrieve a copy of the record of `user`: the all-zero record when the
    /// account has no row. Never creates a row.
    pub fn get_balance_for(&self, user: &Address) -> (r: TokenBalance)
        requires
            self.wf(),
        ensures
            r == self.balance_of(*user),
    {
        match self.find_entry(user) {
            Some(i) => {
                proof {
                    lemma_lookup_found(self.token_balances@, i as int);
                }
                self.token_balances[i].1
            },
            None => {
                proof {
                    lemma_lookup_absent(self.token_balances@, *user);
                }
                TokenBalance::new_empty()
            },
        }
    }

    /// Credit `amount` of `token` to `user`, creating the row lazily; the
    /// caller has ruled overflow out.
    fn apply_credit(&mut self, user: Address, token: Token, amount: u128)
        requires
            old(self).wf(),
            credit_ok(old(self).balances(), user, token, amount),
        ensures
            final(self).wf(),
            final(self).same_config(*old(self)),
            final(self).balances() == map_credit(old(self).balances(), user, token, amount),
            final(self).total_a() == old(self).total_a() + if token == Token::TokenA {
                amount as int
            } else {
                0
            },
            final(self).total_b() == old(self).total_b() + if token == Token::TokenB {
                amount as int
            } else {
                0
            },
            final(self).total_liquidity() == old(self).total_liquidity()
                + if token == Token::LiquidityToken {
                amount as int
            } else {
                0
            },
    {
        let ghost s0 = self.token_balances@;
        let ghost m0 = old(self).balances();
        proof {
            assert(m0[user] == lookup(s0, user));
        }
        match self.find_entry(&user) {
            Some(i) => {
                proof {
                    lemma_lookup_found(s0, i as int);
                }
                let old_bal = self.token_balances[i].1;
                let new_amount = old_bal.get_amount_of(&token) + amount;
                let mut new_bal = old_bal;
                *new_bal.get_mut_amount_of(&token) = new_amount;
                self.token_balances[i] = (user, new_bal);
                proof {
                    assert(self.token_balances@ =~= s0.update(i as int, (s0[i as int].0, new_bal)));
                    lemma_totals_update(s0, i as int, new_bal);
                    assert forall|x: Address|
                        self.balances()[x] == map_credit(m0, user, token, amount)[x] by {
                        lemma_lookup_update(s0, i as int, new_bal, x);
                    }
                    assert(self.balances() =~= map_credit(m0, user, token, amount));
                }
            },
            None => {
                proof {
                    lemma_lookup_absent(s0, user);
                }
                if amount > 0 {
                    let mut new_bal = TokenBalance::new_empty();
                    *new_bal.get_mut_amount_of(&token) = amount;
                    self.token_balances.push((user, new_bal));
                    proof {
                        lemma_totals_push(s0, (user, new_bal));
                        assert forall|x: Address|
                            self.balances()[x] == map_credit(m0, user, token, amount)[x] by {
                            lemma_lookup_push(s0, (user, new_bal), x);
                        }
                        assert(self.balances() =~= map_credit(m0, user, token, amount));
                    }
                } else {
                    proof {
                        assert(m0[user].with_amount(token, (m0[user].amount_of(token) + 0) as u128)
                            == m0[user]);
                        assert(self.balances() =~= map_credit(m0, user, token, amount));
                    }
                }
            },
        }
    }

    /// Debit `amount` of `token` from `user`, removing the row if the record
    /// goes all-zero; the caller has checked the holding suffices.
    fn apply_debit(&mut self, user: Address, token: Token, amount: u128)
        requires
            old(self).wf(),
            debit_ok(old(self).balances(), user, token, amount),
        ensures
            final(self).wf(),
            final(self).same_config(*old(self)),
            final(self).balances() == map_debit(old(self).balances(), user, token, amount),
            final(self).total_a() == old(self).total_a() - if token == Token::TokenA {
                amount as int
            } else {
                0
            },
            final(self).total_b() == old(self).total_b() - if token == Token::TokenB {
                amount as int
            } else {
                0
            },
            final(self).total_liquidity() == old(self).total_liquidity()
                - if token == Token::LiquidityToken {
                amount as int
            } else {
                0
            },
    {
        let ghost s0 = self.token_balances@;
        let ghost m0 = old(self).balances();
        proof {
            assert(m0[user] == lookup(s0, user));
        }
        match self.find_entry(&user) {
            Some(i) => {
                proof {
                    lemma_lookup_found(s0, i as int);
                }
                let old_bal = self.token_balances[i].1;
                let new_amount = old_bal.get_amount_of(&token) - amount;
                let mut new_bal = old_bal;
                *new_bal.get_mut_amount_of(&token) = new_amount;
                if new_bal.user_has_no_tokens() {
                    let _ = self.token_balances.remove(i);
                    proof {
                        lemma_totals_remove(s0, i as int);
                        assert forall|x: Address|
                            self.balances()[x] == map_debit(m0, user, token, amount)[x] by {
                            lemma_lookup_remove(s0, i as int, x);
                        }
                        assert(self.balances() =~= map_debit(m0, user, token, amount));
                        assert forall|p: int, q: int|
                            0 <= p < q < self.token_balances@.len() implies self.token_balances@[p].0
                            != self.token_balances@[q].0 by {
                            assert(self.token_balances@ == s0.remove(i as int));
                        }
                    }
                } else {
                    self.token_balances[i] = (user, new_bal);
                    proof {
                        assert(self.token_balances@ =~= s0.update(
                            i as int,
                            (s0[i as int].0, new_bal),
                        ));
                        lemma_totals_update(s0, i as int, new_bal);
                        assert forall|x: Address|
                            self.balances()[x] == map_debit(m0, user, token, amount)[x] by {
                            lemma_lookup_update(s0, i as int, new_bal, x);
                        }
                        assert(self.balances() =~= map_debit(m0, user, token, amount));
                    }
                }
            },
            None => {
                proof {
                    lemma_lookup_absent(s0, user);
                    assert(amount == 0);
                    assert(m0[user].with_amount(token, (m0[user].amount_of(token) - 0) as u128)
                        == m0[user]);
                    assert(self.balances() =~= map_debit(m0, user, token, amount));
                }
            },
        }
    }

    /// The provided/opposite pair of tokens matching a caller-supplied token
    /// contract address: `Ok((TokenA, TokenB))` for the A address,
    /// `Ok((TokenB, TokenA))` for the B address, and an error for anything
    /// else.
    pub open spec fn spec_provided_opposite(self, addr: Address) -> Result<
        (Token, Token),
        AmmError,
    > {
        if addr == self.token_a_address {
            Ok((Token::TokenA, Token::TokenB))
        } else if addr == self.token_b_address {
            Ok((Token::TokenB, Token::TokenA))
        } else {
            Err(AmmError::UnknownTokenAddress)
        }
    }

    /// Resolve a caller-supplied token contract address against the pool's
    /// two configured tokens. An address matching neither is a hard
    /// validation failure, never silently treated as one side.
    pub fn deduce_provided_opposite_tokens(&self, provided_token_address: Address) -> (r: Result<
        (Token, Token),
        AmmError,
    >)
        ensures
            r == self.spec_provided_opposite(provided_token_address),
    {
        let provided_a = self.token_a_address == provided_token_address;
        let provided_b = self.token_b_address == provided_token_address;
        if !provided_a && !provided_b {
            Err(AmmError::UnknownTokenAddress)
        } else if provided_a {
            Ok((Token::TokenA, Token::TokenB))
        } else {
            Ok((Token::TokenB, Token::TokenA))
        }
    }

    /// Both reserves of the pool are nonzero: the pool has been initialized.
    pub open spec fn pools_have_liquidity(self) -> bool {
        self.pool().a_tokens != 0 && self.pool().b_tokens != 0
    }

    /// Both reserves of the pool are zero: the pool is still uninitialized.
    /// The pool state machine knows only this state and the initialized one.
    pub open spec fn pools_are_empty(self) -> bool {
        self.pool().a_tokens == 0 && self.pool().b_tokens == 0
    }

    /// Check that both pools of the contract hold liquidity.
    pub fn contract_pools_have_liquidity(&self) -> (r: bool)
        requires
            self.wf(),
        ensures
            r == self.pools_have_liquidity(),
    {
        let contract_token_balance = self.get_balance_for(&self.contract);
        contract_token_balance.a_tokens != 0 && contract_token_balance.b_tokens != 0
    }

    /// Add `amount` of `token` to `user`'s balance, creating the row lazily.
    ///
    /// Fails with `Overflow`, changing nothing, exactly when the new holding
    /// would not fit in 128 bits.
    pub fn add_to_token_balance(&mut self, user: Address, token: Token, amount: u128) -> (r:
        Result<(), AmmError>)
        requires
            old(self).wf(),
        ensures
            final(self).wf(),
            final(self).same_config(*old(self)),
            r is Ok <==> credit_ok(old(self).balances(), user, token, amount),
            r is Ok ==> final(self).balances() == map_credit(
                old(self).balances(),
                user,
                token,
                amount,
            ),
            r is Ok ==> final(self).total_a() == old(self).total_a() + if token == Token::TokenA {
                amount as int
            } else {
                0
            } && final(self).total_b() == old(self).total_b() + if token == Token::TokenB {
                amount as int
            } else {
                0
            } && final(self).total_liquidity() == old(self).total_liquidity() + if token
                == Token::LiquidityToken {
                amount as int
            } else {
                0
            },
            r is Err ==> *final(self) == *old(self) && r == Err::<(), AmmError>(AmmError::Overflow),
    {
        let cur = self.get_balance_for(&user).get_amount_of(&token);
        if amount > u128::MAX - cur {
            Err(AmmError::Overflow)
        } else {
            self.apply_credit(user, token, amount);
            Ok(())
        }
    }

    /// Deduct `amount` of `token` from `user`'s balance, removing the row if
    /// the record goes all-zero.
    ///
    /// Fails with `InsufficientFunds`, changing nothing, exactly when
    /// `amount` exceeds the current holding: a debit never succeeds past the
    /// balance, so no balance can go negative.
    pub fn deduct_from_token_balance(&mut self, user: Address, token: &Token, amount: u128) -> (r:
        Result<(), AmmError>)
        requires
            old(self).wf(),
        ensures
            final(self).wf(),
            final(self).same_config(*old(self)),
            r is Ok <==> debit_ok(old(self).balances(), user, *token, amount),
            r is Ok ==> final(self).balances() == map_debit(
                old(self).balances(),
                user,
                *token,
                amount,
            ),
            r is Ok ==> final(self).total_a() == old(self).total_a() - if *token == Token::TokenA {
                amount as int
            } else {
                0
            } && final(self).total_b() == old(self).total_b() - if *token == Token::TokenB {
                amount as int
            } else {
                0
            } && final(self).total_liquidity() == old(self).total_liquidity() - if *token
                == Token::LiquidityToken {
                amount as int
            } else {
                0
            },
            r is Err ==> *final(self) == *old(self) && r == Err::<(), AmmError>(
                AmmError::InsufficientFunds,
            ),
    {
        let cur = self.get_balance_for(&user).get_amount_of(token);
        if amount > cur {
            Err(AmmError::InsufficientFunds)
        } else {
            self.apply_debit(user, *token, amount);
            Ok(())
        }
    }

    /// Move `amount` of `moved_token` from `from` to `to`: a debit and a
    /// credit against the same snapshot. Either both legs apply or neither
    /// does, and the per-token totals never change.
    pub fn move_tokens(&mut self, from: Address, to: Address, moved_token: Token, amount: u128) -> (r:
        Result<(), AmmError>)
        requires
            old(self).wf(),
        ensures
            final(self).wf(),
            final(self).same_config(*old(self)),
            match map_move(old(self).balances(), from, to, moved_token, amount) {
                Ok(m) => r == Ok::<(), AmmError>(()) && final(self).balances() == m,
                Err(e) => r == Err::<(), AmmError>(e) && *final(self) == *old(self),
            },
            final(self).total_a() == old(self).total_a(),
            final(self).total_b() == old(self).total_b(),
            final(self).total_liquidity() == old(self).total_liquidity(),
    {
        let from_bal = self.get_balance_for(&from).get_amount_of(&moved_token);
        if amount > from_bal {
            return Err(AmmError::InsufficientFunds);
        }
        let to_after_debit = if to == from {
            from_bal - amount
        } else {
            self.get_balance_for(&to).get_amount_of(&moved_token)
        };
        if amount > u128::MAX - to_after_debit {
            return Err(AmmError::Overflow);
        }
        self.apply_debit(from, moved_token, amount);
        self.apply_credit(to, moved_token, amount);
        Ok(())
    }
}

} // verus!
