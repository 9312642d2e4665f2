//! The tokens an account can hold, and one account's balance record.

use vstd::prelude::*;

verus! {

/// The three kinds of balance an account can hold inside the contract.
#[derive(Clone, Copy, Debug, PartialEq, Eq, Structural)]
pub enum Token {
    /// The first pool asset.
    TokenA,
    /// The second pool asset.
    TokenB,
    /// A liquidity share: minted when liquidity is provided, burnt when it is
    /// reclaimed.
    LiquidityToken,
}

/// How much of each token one account can claim from the contract.
///
/// A record with all three fields zero means the account holds nothing; the
/// ledger never keeps such a record as an explicit entry.
#[derive(Clone, Copy, Debug, PartialEq, Eq, Structural)]
pub struct TokenBalance {
    /// The amount of token A the account can withdraw.
    pub a_tokens: u128,
    /// The amount of token B the account can withdraw.
    pub b_tokens: u128,
    /// The amount of liquidity shares the account can burn.
    pub liquidity_tokens: u128,
}

impl TokenBalance {
    /// The all-zero record: what an account without a ledger entry holds.
    pub open spec fn empty() -> TokenBalance {
        TokenBalance { a_tokens: 0, b_tokens: 0, liquidity_tokens: 0 }
    }

    /// The field matching `token`.
    pub open spec fn amount_of(self, token: Token) -> u128 {
        match token {
            Token::TokenA => self.a_tokens,
            Token::TokenB => self.b_tokens,
            Token::LiquidityToken => self.liquidity_tokens,
        }
    }

    /// `self` with the field matching `token` replaced by `amount`.
    pub open spec fn with_amount(self, token: Token, amount: u128) -> TokenBalance {
        match token {
            Token::TokenA => TokenBalance { a_tokens: amount, ..self },
            Token::TokenB => TokenBalance { b_tokens: amount, ..self },
            Token::LiquidityToken => TokenBalance { liquidity_tokens: amount, ..self },
        }
    }

    /// Holds when all three fields are zero.
    pub open spec fn is_empty(self) -> bool {
        self == TokenBalance::empty()
    }

    /// Build the all-zero record.
    pub fn new_empty() -> (r: TokenBalance)
        ensures
            r == TokenBalance::empty(),
    {
        TokenBalance { a_tokens: 0, b_tokens: 0, liquidity_tokens: 0 }
    }

    /// Retrieve a copy of the amount that matches `token`.
    pub fn get_amount_of(&self, token: &Token) -> (r: u128)
        ensures
            r == self.amount_of(*token),
    {
        if *token == Token::LiquidityToken {
            self.liquidity_tokens
        } else if *token == Token::TokenA {
            self.a_tokens
        } else {
            self.b_tokens
        }
    }

    /// Retrieve a mutable reference to the amount that matches `token`.
    pub fn get_mut_amount_of(&mut self, token: &Token) -> (r: &mut u128)
        ensures
            *r == old(self).amount_of(*token),
            *final(self) == old(self).with_amount(*token, *final(r)),
    {
        if *token == Token::LiquidityToken {
            &mut self.liquidity_tokens
        } else if *token == Token::TokenA {
            &mut self.a_tokens
        } else {
            &mut self.b_tokens
        }
    }

    /// Check that the account holds no tokens at all.
    pub fn user_has_no_tokens(&self) -> (r: bool)
        ensures
            r == self.is_empty(),
    {
        self.a_tokens == 0 && self.b_tokens == 0 && self.liquidity_tokens == 0
    }
}

} // verus!
