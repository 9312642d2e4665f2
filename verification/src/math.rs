//! The pricing kernel: pure arithmetic behind every pool operation.
//!
//! All amounts are `u128`. Each function rejects, with
//! [`AmmError::Overflow`](crate::AmmError), any input whose intermediate
//! products would exceed 128 bits, rather than wrapping: the pricing
//! invariants only hold for exact arithmetic.

use crate::AmmError;
use vstd::arithmetic::div_mod::{
    lemma_div_is_ordered, lemma_div_multiples_vanish, lemma_div_pos_is_pos,
    lemma_fundamental_div_mod, lemma_mod_division_less_than_divisor,
};
use vstd::prelude::*;

verus! {

/// Holds when `r` is the integer square root of `y`, rounded down.
pub open spec fn is_sqrt(r: int, y: int) -> bool {
    r * r <= y < (r + 1) * (r + 1)
}

/// The integer square root of `y`, as a value for specifications: the unique
/// `r` with `r * r <= y < (r + 1) * (r + 1)`.
pub open spec fn sqrt(y: int) -> int {
    choose|r: int| is_sqrt(r, y)
}

/// The square-root predicate has at most one witness, so a value satisfying
/// it is `sqrt(y)` itself.
pub proof fn lemma_sqrt_is(r: int, y: int)
    requires
        is_sqrt(r, y),
    ensures
        sqrt(y) == r,
{
    assert(is_sqrt(sqrt(y), y)) by {
        assert(exists|c: int| is_sqrt(c, y));
    }
    assert(sqrt(y) == r) by (nonlinear_arith)
        requires
            is_sqrt(sqrt(y), y),
            is_sqrt(r, y),
    ;
}

/// Find the square root of `y`, rounding down: the largest `x` with `x * x <= y`.
///
/// Binary search over `[0, y + 1)`; the upper end is capped at `1 << 64`,
/// which is already above the square root of any `u128`.
pub fn u128_sqrt(y: u128) -> (r: u128)
    ensures
        is_sqrt(r as int, y as int),
{
    let cap: u128 = 1u128 << 64;
    let mut l: u128 = 0;
    let mut r: u128 = if y >= cap { cap } else { y + 1 };
    proof {
        assert((1u128 << 64) == 0x1_0000_0000_0000_0000u128) by (bit_vector);
        if y >= cap {
            assert(r * r > y) by (nonlinear_arith)
                requires
                    r == 0x1_0000_0000_0000_0000u128,
                    y <= u128::MAX,
            ;
        } else {
            assert(r * r > y) by (nonlinear_arith)
                requires
                    r == y + 1,
            ;
        }
    }
    while l + 1 < r
        invariant
            l < r <= 0x1_0000_0000_0000_0000u128,
            l * l <= y,
            r * r > y,
        decreases r - l,
    {
        let m = l + (r - l) / 2;
        assert(l < m < r);
        assert(m * m <= u128::MAX) by (nonlinear_arith)
            requires
                m < 0x1_0000_0000_0000_0000u128,
        ;
        if m * m <= y {
            l = m;
        } else {
            r = m;
        }
    }
    l
}

/// The amount of out-token a swap yields: the fee, in per mille, is deducted
/// from the input before the constant-product trade, and the quotient is
/// truncated, so the output always rounds down.
pub open spec fn swap_amount(
    from_pool: u128,
    to_pool: u128,
    swap_from_amount: u128,
    swap_fee_per_mille: u128,
) -> int
    recommends
        from_pool >= 1,
        swap_fee_per_mille <= 1000,
{
    let remainder = 1000 - swap_fee_per_mille;
    (remainder * swap_from_amount * to_pool) / (1000 * from_pool + remainder * swap_from_amount)
}

/// Holds when some intermediate value of [`swap_amount`] exceeds `u128::MAX`.
pub open spec fn swap_amount_overflows(
    from_pool: u128,
    to_pool: u128,
    swap_from_amount: u128,
    swap_fee_per_mille: u128,
) -> bool {
    let remainder = 1000 - swap_fee_per_mille;
    ||| remainder * swap_from_amount > u128::MAX
    ||| remainder * swap_from_amount * to_pool > u128::MAX
    ||| 1000 * from_pool + remainder * swap_from_amount > u128::MAX
}

/// Price a swap: how much of the opposite token `swap_from_amount` buys
/// against the reserves `from_pool` and `to_pool`, after deducting
/// `swap_fee_per_mille` per mille of the input.
///
/// Rejects with `Overflow` instead of wrapping when an intermediate product
/// does not fit in 128 bits. A zero input always buys zero.
pub fn calculate_swap_to_amount(
    from_pool: u128,
    to_pool: u128,
    swap_from_amount: u128,
    swap_fee_per_mille: u128,
) -> (r: Result<u128, AmmError>)
    requires
        from_pool >= 1,
        swap_fee_per_mille <= 1000,
    ensures
        r is Ok <==> !swap_amount_overflows(from_pool, to_pool, swap_from_amount, swap_fee_per_mille),
        r matches Ok(out) ==> out == swap_amount(
            from_pool,
            to_pool,
            swap_from_amount,
            swap_fee_per_mille,
        ),
        r is Err ==> r == Err::<u128, AmmError>(AmmError::Overflow),
        swap_from_amount == 0 && 1000 * from_pool <= u128::MAX ==> r == Ok::<u128, AmmError>(0u128),
{
    proof {
        if swap_from_amount == 0 {
            assert((1000 - swap_fee_per_mille) * swap_from_amount == 0) by (nonlinear_arith)
                requires
                    swap_from_amount == 0,
            ;
            assert((1000 - swap_fee_per_mille) * swap_from_amount * to_pool == 0) by (nonlinear_arith)
                requires
                    swap_from_amount == 0,
            ;
        }
    }
    let remainder_ratio = 1000 - swap_fee_per_mille;
    let fee_adjusted_input = match remainder_ratio.checked_mul(swap_from_amount) {
        Some(v) => v,
        None => return Err(AmmError::Overflow),
    };
    let numerator = match fee_adjusted_input.checked_mul(to_pool) {
        Some(v) => v,
        None => return Err(AmmError::Overflow),
    };
    let scaled_from_pool = match 1000u128.checked_mul(from_pool) {
        Some(v) => v,
        None => return Err(AmmError::Overflow),
    };
    let denominator = match scaled_from_pool.checked_add(fee_adjusted_input) {
        Some(v) => v,
        None => return Err(AmmError::Overflow),
    };
    proof {
        if swap_from_amount == 0 {
            vstd::arithmetic::div_mod::lemma_div_of0(denominator as int);
        }
    }
    Ok(numerator / denominator)
}

/// The amount of the opposite token a liquidity provision must bring along:
/// the exact pool-ratio equivalent of `provided_amount`, rounded up by adding
/// one, so the pool ratio is never diluted against the pool.
pub open spec fn equivalent_amount(
    provided_amount: u128,
    provided_pool: u128,
    opposite_pool: u128,
) -> int
    recommends
        provided_pool >= 1,
{
    if provided_amount > 0 {
        provided_amount * opposite_pool / (provided_pool as int) + 1
    } else {
        0
    }
}

/// The liquidity shares a provision mints: the provider's share of the pool,
/// rounded down.
pub open spec fn minted_amount(
    provided_amount: u128,
    provided_pool: u128,
    total_minted_liquidity: u128,
) -> int
    recommends
        provided_pool >= 1,
{
    provided_amount * total_minted_liquidity / (provided_pool as int)
}

/// Holds when some intermediate value of [`equivalent_amount`] or
/// [`minted_amount`] exceeds `u128::MAX`.
pub open spec fn equivalent_and_minted_overflow(
    provided_amount: u128,
    provided_pool: u128,
    opposite_pool: u128,
    total_minted_liquidity: u128,
) -> bool {
    ||| provided_amount * opposite_pool > u128::MAX
    ||| (provided_amount > 0 && provided_amount * opposite_pool / (provided_pool as int) + 1 > u128::MAX)
    ||| provided_amount * total_minted_liquidity > u128::MAX
}

/// Price a liquidity provision against the current reserves: how much of the
/// opposite token must come along with `provided_amount`, and how many
/// liquidity shares the pair mints.
///
/// The opposite amount rounds up (the depositor pays marginally more, never
/// less, than the exact ratio), the minted shares round down. A zero provision
/// prices to `(0, 0)`.
pub fn calculate_equivalent_and_minted_tokens(
    provided_amount: u128,
    provided_pool: u128,
    opposite_pool: u128,
    total_minted_liquidity: u128,
) -> (r: Result<(u128, u128), AmmError>)
    requires
        provided_pool >= 1,
    ensures
        r is Ok <==> !equivalent_and_minted_overflow(
            provided_amount,
            provided_pool,
            opposite_pool,
            total_minted_liquidity,
        ),
        r matches Ok((oe, ml)) ==> oe == equivalent_amount(
            provided_amount,
            provided_pool,
            opposite_pool,
        ) && ml == minted_amount(provided_amount, provided_pool, total_minted_liquidity),
        r is Err ==> r == Err::<(u128, u128), AmmError>(AmmError::Overflow),
        provided_amount == 0 ==> r == Ok::<(u128, u128), AmmError>((0u128, 0u128)),
        // The opposite amount never falls below the exact ratio
        // `provided_amount * opposite_pool / provided_pool`.
        r matches Ok((oe, ml)) ==> oe * provided_pool >= provided_amount * opposite_pool,
{
    proof {
        lemma_round_up_ge(provided_amount as int, opposite_pool as int, provided_pool as int);
    }
    let opposite_equivalent = if provided_amount > 0 {
        let product = match provided_amount.checked_mul(opposite_pool) {
            Some(v) => v,
            None => return Err(AmmError::Overflow),
        };
        match (product / provided_pool).checked_add(1) {
            Some(v) => v,
            None => return Err(AmmError::Overflow),
        }
    } else {
        0
    };
    let minted_product = match provided_amount.checked_mul(total_minted_liquidity) {
        Some(v) => v,
        None => return Err(AmmError::Overflow),
    };
    let minted_liquidity_tokens = minted_product / provided_pool;
    Ok((opposite_equivalent, minted_liquidity_tokens))
}

/// The pool-token amount a burnt liquidity share is worth: the holder's
/// proportional claim on one reserve, rounded down.
pub open spec fn reclaim_amount(
    pool: u128,
    liquidity_token_amount: u128,
    minted_liquidity: u128,
) -> int
    recommends
        minted_liquidity >= 1,
{
    pool * liquidity_token_amount / (minted_liquidity as int)
}

/// Holds when some intermediate value of [`reclaim_amount`] for either pool
/// exceeds `u128::MAX`.
pub open spec fn reclaim_overflows(
    liquidity_token_amount: u128,
    pool_a: u128,
    pool_b: u128,
) -> bool {
    ||| pool_a * liquidity_token_amount > u128::MAX
    ||| pool_b * liquidity_token_amount > u128::MAX
}

/// Price a liquidity reclaim: how much of each reserve
/// `liquidity_token_amount` shares buy back, out of `minted_liquidity` shares
/// in total. Both outputs round down, so a reclaim never takes more than the
/// share proportionally represents; burning zero shares yields `(0, 0)`.
pub fn calculate_reclaim_output(
    liquidity_token_amount: u128,
    pool_a: u128,
    pool_b: u128,
    minted_liquidity: u128,
) -> (r: Result<(u128, u128), AmmError>)
    requires
        minted_liquidity >= 1,
    ensures
        r is Ok <==> !reclaim_overflows(liquidity_token_amount, pool_a, pool_b),
        r matches Ok((a, b)) ==> a == reclaim_amount(
            pool_a,
            liquidity_token_amount,
            minted_liquidity,
        ) && b == reclaim_amount(pool_b, liquidity_token_amount, minted_liquidity),
        r is Err ==> r == Err::<(u128, u128), AmmError>(AmmError::Overflow),
        liquidity_token_amount == 0 ==> r == Ok::<(u128, u128), AmmError>((0u128, 0u128)),
        // Rounding down never returns more than the exact proportional claim.
        r matches Ok((a, b)) ==> a * minted_liquidity <= pool_a * liquidity_token_amount && b
            * minted_liquidity <= pool_b * liquidity_token_amount,
        // Burning no more than the whole supply cannot drain past the reserves.
        liquidity_token_amount <= minted_liquidity ==> (r matches Ok((a, b)) ==> a <= pool_a && b
            <= pool_b),
{
    proof {
        lemma_round_down_le(pool_a as int, liquidity_token_amount as int, minted_liquidity as int);
        lemma_round_down_le(pool_b as int, liquidity_token_amount as int, minted_liquidity as int);
    }
    let a_product = match pool_a.checked_mul(liquidity_token_amount) {
        Some(v) => v,
        None => return Err(AmmError::Overflow),
    };
    let b_product = match pool_b.checked_mul(liquidity_token_amount) {
        Some(v) => v,
        None => return Err(AmmError::Overflow),
    };
    Ok((a_product / minted_liquidity, b_product / minted_liquidity))
}

/// The liquidity-share supply that initializes a pool: the square root of the
/// product of the two provided amounts, which makes the value of one share
/// independent of the ratio the reserves were first provided at.
pub fn initial_liquidity_tokens(token_a_amount: u128, token_b_amount: u128) -> (r: Result<
    u128,
    AmmError,
>)
    ensures
        r is Ok <==> token_a_amount * token_b_amount <= u128::MAX,
        r matches Ok(m) ==> is_sqrt(m as int, token_a_amount * token_b_amount),
        r is Err ==> r == Err::<u128, AmmError>(AmmError::Overflow),
{
    let product = match token_a_amount.checked_mul(token_b_amount) {
        Some(v) => v,
        None => return Err(AmmError::Overflow),
    };
    Ok(u128_sqrt(product))
}

/// Rounding a quotient up by one clears the exact ratio: for `d >= 1` and
/// `n >= 0`, `(n / d + 1) * d > n`, and rounding down stays at or below it.
pub proof fn lemma_round_up_ge(p: int, o: int, d: int)
    requires
        d >= 1,
        p >= 0,
        o >= 0,
    ensures
        p > 0 ==> (p * o / d + 1) * d > p * o,
        (p * o / d) * d <= p * o,
{
    let n = p * o;
    assert(p * o >= 0) by (nonlinear_arith)
        requires
            p >= 0,
            o >= 0,
    ;
    lemma_fundamental_div_mod(n, d);
    lemma_mod_division_less_than_divisor(n, d);
    assert((n / d + 1) * d == d * (n / d) + d) by (nonlinear_arith);
    assert((n / d) * d == d * (n / d)) by (nonlinear_arith);
}

/// A proportional claim of `l` out of `m >= l` shares on a reserve `a` never
/// exceeds the reserve: `a * l / m <= a`.
pub proof fn lemma_round_down_le(a: int, l: int, m: int)
    requires
        m >= 1,
        a >= 0,
        l >= 0,
    ensures
        l <= m ==> a * l / m <= a,
        a * l / m >= 0,
        (a * l / m) * m <= a * l,
{
    assert(a * l >= 0) by (nonlinear_arith)
        requires
            a >= 0,
            l >= 0,
    ;
    lemma_div_pos_is_pos(a * l, m);
    lemma_fundamental_div_mod(a * l, m);
    lemma_mod_division_less_than_divisor(a * l, m);
    assert((a * l / m) * m == m * (a * l / m)) by (nonlinear_arith);
    if l <= m {
        assert(a * l <= m * a) by (nonlinear_arith)
            requires
                a >= 0,
                0 <= l <= m,
        ;
        lemma_div_is_ordered(a * l, m * a, m);
        lemma_div_multiples_vanish(a, m);
    }
}

/// For any valid swap the pool product never decreases: trading `dx` of the
/// in-token for `swap_amount(x, y, dx, fee)` of the out-token moves the
/// reserves from `(x, y)` to `(x + dx, y - out)`, and
/// `(x + dx) * (y - out) >= x * y`. The output also never exceeds the
/// opposite reserve.
pub proof fn lemma_swap_preserves_product(x: u128, y: u128, dx: u128, fee: u128)
    requires
        x >= 1,
        fee <= 1000,
    ensures
        0 <= swap_amount(x, y, dx, fee) <= y,
        (x + dx) * (y - swap_amount(x, y, dx, fee)) >= x * y,
{
    let r = 1000 - fee;
    let n = r * dx * y;
    let d = 1000 * x + r * dx;
    let out = n / d;
    assert(n >= 0 && d >= 1000 && r * dx >= 0) by (nonlinear_arith)
        requires
            r == 1000 - fee,
            0 <= fee <= 1000,
            x >= 1,
            n == r * dx * y,
            d == 1000 * x + r * dx,
    ;
    lemma_div_pos_is_pos(n, d);
    // out <= y, because n = (r * dx) * y <= d * y.
    assert(n <= d * y) by (nonlinear_arith)
        requires
            n == r * dx * y,
            d == 1000 * x + r * dx,
            x >= 1,
            y >= 0,
            r * dx >= 0,
    ;
    lemma_div_is_ordered(n, d * y, d);
    lemma_div_multiples_vanish(y as int, d);
    assert(d * y == y * d) by (nonlinear_arith);
    assert(out <= y);
    // d * out <= n, by the fundamental division identity.
    lemma_fundamental_div_mod(n, d);
    lemma_mod_division_less_than_divisor(n, d);
    assert(d * out <= n);
    // From d * out <= n: 1000 * x * out <= r * dx * (y - out)
    //                                   <= 1000 * dx * (y - out),
    // hence x * out <= dx * (y - out), which rearranges to the product bound.
    assert((x + dx) * (y - out) >= x * y) by (nonlinear_arith)
        requires
            d * out <= n,
            n == r * dx * y,
            d == 1000 * x + r * dx,
            0 <= r <= 1000,
            x >= 1,
            dx >= 0,
            0 <= out <= y,
    ;
}

} // verus!
