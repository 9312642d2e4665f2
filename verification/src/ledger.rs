//! The mathematical model of the balance ledger.
//!
//! The ledger is stored as a vector of `(account, record)` rows with distinct
//! accounts and no all-zero records. This module gives that sequence its
//! meaning — a total lookup function from account to record, defaulting to
//! the all-zero record — together with per-token sums over the rows, and the
//! lemmas that say how both behave under updating, appending and removing a
//! row.

use crate::address::Address;
use crate::token::TokenBalance;
use vstd::prelude::*;

verus! {

/// One ledger row: an account and what it holds.
pub type Entry = (Address, TokenBalance);

/// No two rows name the same account.
pub open spec fn distinct_keys(s: Seq<Entry>) -> bool {
    forall|i: int, j: int| 0 <= i < j < s.len() ==> s[i].0 != s[j].0
}

/// No row holds the all-zero record; an account holding nothing simply has no
/// row.
pub open spec fn no_empty_records(s: Seq<Entry>) -> bool {
    forall|i: int| 0 <= i < s.len() ==> !(#[trigger] s[i].1).is_empty()
}

/// What `a` holds according to the rows: the record of the first row naming
/// `a`, or the all-zero record when no row does.
pub open spec fn lookup(s: Seq<Entry>, a: Address) -> TokenBalance
    decreases s.len(),
{
    if s.len() == 0 {
        TokenBalance::empty()
    } else if s[0].0 == a {
        s[0].1
    } else {
        lookup(s.drop_first(), a)
    }
}

/// The sums, over every row, of the three balance fields: how much token A,
/// token B and liquidity the rows hold in all.
pub open spec fn totals(s: Seq<Entry>) -> (int, int, int)
    decreases s.len(),
{
    if s.len() == 0 {
        (0, 0, 0)
    } else {
        let rest = totals(s.drop_first());
        (s[0].1.a_tokens + rest.0, s[0].1.b_tokens + rest.1, s[0].1.liquidity_tokens + rest.2)
    }
}

/// A row present in a distinct-keyed sequence is what lookup finds.
pub proof fn lemma_lookup_found(s: Seq<Entry>, i: int)
    requires
        distinct_keys(s),
        0 <= i < s.len(),
    ensures
        lookup(s, s[i].0) == s[i].1,
    decreases s.len(),
{
    if i > 0 {
        assert(s[0].0 != s[i].0);
        assert(distinct_keys(s.drop_first()));
        lemma_lookup_found(s.drop_first(), i - 1);
    }
}

/// An account no row names looks up to the all-zero record.
pub proof fn lemma_lookup_absent(s: Seq<Entry>, a: Address)
    requires
        forall|i: int| 0 <= i < s.len() ==> (#[trigger] s[i]).0 != a,
    ensures
        lookup(s, a) == TokenBalance::empty(),
    decreases s.len(),
{
    if s.len() > 0 {
        lemma_lookup_absent(s.drop_first(), a);
    }
}

/// Replacing the record of row `i` changes the lookup of that row's account
/// and no other.
pub proof fn lemma_lookup_update(s: Seq<Entry>, i: int, v: TokenBalance, a: Address)
    requires
        distinct_keys(s),
        0 <= i < s.len(),
    ensures
        lookup(s.update(i, (s[i].0, v)), a) == if a == s[i].0 {
            v
        } else {
            lookup(s, a)
        },
    decreases s.len(),
{
    let t = s.update(i, (s[i].0, v));
    if i == 0 {
        if s[0].0 != a {
            assert(t.drop_first() =~= s.drop_first());
        }
    } else {
        assert(t.drop_first() =~= s.drop_first().update(i - 1, (s.drop_first()[i - 1].0, v)));
        assert(distinct_keys(s.drop_first()));
        lemma_lookup_update(s.drop_first(), i - 1, v, a);
    }
}

/// Appending a row for a fresh account changes the lookup of that account and
/// no other.
pub proof fn lemma_lookup_push(s: Seq<Entry>, e: Entry, a: Address)
    requires
        forall|i: int| 0 <= i < s.len() ==> (#[trigger] s[i]).0 != e.0,
    ensures
        lookup(s.push(e), a) == if a == e.0 {
            e.1
        } else {
            lookup(s, a)
        },
    decreases s.len(),
{
    let t = s.push(e);
    if s.len() == 0 {
        assert(t[0] == e);
        assert(t.drop_first() =~= Seq::<Entry>::empty());
        assert(lookup(t.drop_first(), a) == TokenBalance::empty());
        assert(lookup(t, a) == if e.0 == a {
            e.1
        } else {
            TokenBalance::empty()
        });
    } else {
        assert(t.drop_first() =~= s.drop_first().push(e));
        lemma_lookup_push(s.drop_first(), e, a);
        assert(t[0] == s[0]);
        assert(lookup(t, a) == if s[0].0 == a {
            s[0].1
        } else {
            lookup(s.drop_first().push(e), a)
        });
    }
}

/// Removing row `i` makes its account look up to the all-zero record and
/// changes no other account.
pub proof fn lemma_lookup_remove(s: Seq<Entry>, i: int, a: Address)
    requires
        distinct_keys(s),
        0 <= i < s.len(),
    ensures
        lookup(s.remove(i), a) == if a == s[i].0 {
            TokenBalance::empty()
        } else {
            lookup(s, a)
        },
    decreases s.len(),
{
    if i == 0 {
        assert(s.remove(0) =~= s.drop_first());
        if a == s[0].0 {
            assert(forall|j: int|
                0 <= j < s.drop_first().len() ==> (#[trigger] s.drop_first()[j]).0 != a);
            lemma_lookup_absent(s.drop_first(), a);
        }
    } else {
        assert(s.remove(i).drop_first() =~= s.drop_first().remove(i - 1));
        assert(distinct_keys(s.drop_first()));
        lemma_lookup_remove(s.drop_first(), i - 1, a);
    }
}

/// Replacing the record of row `i` moves each sum by the difference at that
/// row.
pub proof fn lemma_totals_update(s: Seq<Entry>, i: int, v: TokenBalance)
    requires
        0 <= i < s.len(),
    ensures
        totals(s.update(i, (s[i].0, v))).0 == totals(s).0 - s[i].1.a_tokens + v.a_tokens,
        totals(s.update(i, (s[i].0, v))).1 == totals(s).1 - s[i].1.b_tokens + v.b_tokens,
        totals(s.update(i, (s[i].0, v))).2 == totals(s).2 - s[i].1.liquidity_tokens
            + v.liquidity_tokens,
    decreases s.len(),
{
    let t = s.update(i, (s[i].0, v));
    if i == 0 {
        assert(t.drop_first() =~= s.drop_first());
        assert(t[0] == (s[0].0, v));
    } else {
        assert(t.drop_first() =~= s.drop_first().update(i - 1, (s.drop_first()[i - 1].0, v)));
        lemma_totals_update(s.drop_first(), i - 1, v);
        assert(t[0] == s[0]);
    }
}

/// Appending a row adds its record to each sum.
pub proof fn lemma_totals_push(s: Seq<Entry>, e: Entry)
    ensures
        totals(s.push(e)).0 == totals(s).0 + e.1.a_tokens,
        totals(s.push(e)).1 == totals(s).1 + e.1.b_tokens,
        totals(s.push(e)).2 == totals(s).2 + e.1.liquidity_tokens,
    decreases s.len(),
{
    let t = s.push(e);
    if s.len() == 0 {
        assert(t[0] == e);
        assert(t.drop_first() =~= Seq::<Entry>::empty());
        assert(totals(t.drop_first()) == (0int, 0int, 0int));
    } else {
        assert(t.drop_first() =~= s.drop_first().push(e));
        lemma_totals_push(s.drop_first(), e);
        assert(t[0] == s[0]);
    }
}

/// Removing row `i` subtracts its record from each sum.
pub proof fn lemma_totals_remove(s: Seq<Entry>, i: int)
    requires
        0 <= i < s.len(),
    ensures
        totals(s.remove(i)).0 == totals(s).0 - s[i].1.a_tokens,
        totals(s.remove(i)).1 == totals(s).1 - s[i].1.b_tokens,
        totals(s.remove(i)).2 == totals(s).2 - s[i].1.liquidity_tokens,
    decreases s.len(),
{
    if i == 0 {
        assert(s.remove(0) =~= s.drop_first());
    } else {
        assert(s.remove(i).drop_first() =~= s.drop_first().remove(i - 1));
        lemma_totals_remove(s.drop_first(), i - 1);
        assert(s.remove(i)[0] == s[0]);
    }
}

} // verus!
