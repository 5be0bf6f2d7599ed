//! Arithmetic on tables of amounts, modelled as maps from a key to a natural number.
//!
//! A key that a table does not hold stands for the amount zero, and a table in normal
//! form holds no zero: two tables in normal form are equal exactly when they assign the
//! same amount to every key.

use vstd::prelude::*;

verus! {

/// The amount that `amounts` assigns to `key`: zero where the key is absent.
pub open spec fn amount_at<K>(amounts: Map<K, nat>, key: K) -> nat {
    if amounts.contains_key(key) {
        amounts[key]
    } else {
        0
    }
}

/// `amounts` with the amount of `key` set to `amount`; a zero amount removes the key.
pub open spec fn with_amount<K>(amounts: Map<K, nat>, key: K, amount: nat) -> Map<K, nat> {
    if amount == 0 {
        amounts.remove(key)
    } else {
        amounts.insert(key, amount)
    }
}

/// Normal form: finitely many keys, none of them with the amount zero.
pub open spec fn normal<K>(amounts: Map<K, nat>) -> bool {
    &&& amounts.dom().finite()
    &&& forall|key: K| amounts.contains_key(key) ==> #[trigger] amounts[key] > 0
}

/// The sum of all amounts of a finite table.
pub open spec fn total<K>(amounts: Map<K, nat>) -> nat
    decreases amounts.dom().len(),
    when amounts.dom().finite()
    via total_decreases::<K>
{
    if amounts.dom().len() == 0 {
        0
    } else {
        let key = amounts.dom().choose();
        amounts[key] + total(amounts.remove(key))
    }
}

#[via_fn]
proof fn total_decreases<K>(amounts: Map<K, nat>) {
    if amounts.dom().len() != 0 {
        let key = amounts.dom().choose();
        vstd::set_lib::lemma_set_empty_equivalency_len(amounts.dom());
        assert(amounts.dom().contains(key));
        assert(amounts.remove(key).dom() =~= amounts.dom().remove(key));
    }
}

/// The empty table sums to zero.
pub proof fn lemma_total_empty<K>()
    ensures
        total(Map::<K, nat>::empty()) == 0,
{
}

/// Any one key can be split off a finite table: the total is that key's amount plus the
/// total of the rest.
pub proof fn lemma_total_remove<K>(amounts: Map<K, nat>, key: K)
    requires
        amounts.dom().finite(),
        amounts.contains_key(key),
    ensures
        amounts.remove(key).dom().finite(),
        total(amounts) == amounts[key] + total(amounts.remove(key)),
    decreases amounts.dom().len(),
{
    vstd::set_lib::lemma_set_empty_equivalency_len(amounts.dom());
    let first = amounts.dom().choose();
    assert(amounts.remove(key).dom() =~= amounts.dom().remove(key));
    assert(amounts.remove(first).dom() =~= amounts.dom().remove(first));
    if first != key {
        let rest = amounts.remove(first);
        lemma_total_remove(rest, key);
        lemma_total_remove(amounts.remove(key), first);
        assert(rest.remove(key) =~= amounts.remove(key).remove(first));
    }
}

/// Setting one amount changes the total by the difference between the new amount and
/// the old one, and keeps the table finite.
pub proof fn lemma_total_with_amount<K>(amounts: Map<K, nat>, key: K, amount: nat)
    requires
        amounts.dom().finite(),
    ensures
        with_amount(amounts, key, amount).dom().finite(),
        total(with_amount(amounts, key, amount)) + amount_at(amounts, key) == total(amounts)
            + amount,
{
    let after = with_amount(amounts, key, amount);
    assert(amounts.remove(key).dom() =~= amounts.dom().remove(key));
    assert(amounts.insert(key, amount).dom() =~= amounts.dom().insert(key));
    if amounts.contains_key(key) {
        lemma_total_remove(amounts, key);
    } else {
        assert(amounts.remove(key) =~= amounts);
    }
    if amount != 0 {
        lemma_total_remove(after, key);
        assert(after.remove(key) =~= amounts.remove(key));
    }
}

/// No single amount exceeds the total.
pub proof fn lemma_amount_le_total<K>(amounts: Map<K, nat>, key: K)
    requires
        amounts.dom().finite(),
    ensures
        amount_at(amounts, key) <= total(amounts),
{
    if amounts.contains_key(key) {
        lemma_total_remove(amounts, key);
    }
}

/// The amounts of two different keys together do not exceed the total.
pub proof fn lemma_two_amounts_le_total<K>(amounts: Map<K, nat>, first: K, second: K)
    requires
        amounts.dom().finite(),
        first != second,
    ensures
        amount_at(amounts, first) + amount_at(amounts, second) <= total(amounts),
{
    if amounts.contains_key(first) {
        lemma_total_remove(amounts, first);
        lemma_amount_le_total(amounts.remove(first), second);
    } else {
        lemma_amount_le_total(amounts, second);
    }
}

/// Setting an amount keeps a table in normal form.
pub proof fn lemma_with_amount_normal<K>(amounts: Map<K, nat>, key: K, amount: nat)
    requires
        normal(amounts),
    ensures
        normal(with_amount(amounts, key, amount)),
{
    assert(amounts.remove(key).dom() =~= amounts.dom().remove(key));
    assert(amounts.insert(key, amount).dom() =~= amounts.dom().insert(key));
}

} // verus!
