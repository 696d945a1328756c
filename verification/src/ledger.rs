//! Tables of amounts: what they hold, how they change and what they add up to.

use vstd::prelude::*;

use crate::address::Address;

verus! {

/// The amount under a key; zero where there is no entry.
pub open spec fn balance<K>(table: Map<K, int>, key: K) -> int {
    if table.contains_key(key) {
        table[key]
    } else {
        0
    }
}

/// The table after `amount` was added to the balance of `address`.
pub open spec fn credit(table: Map<Address, int>, address: Address, amount: int) -> Map<
    Address,
    int,
> {
    table.insert(address, balance(table, address) + amount)
}

/// What was written last under a key is read, what stands under other keys does
/// not matter to it, and nothing is read where nothing stands.
pub proof fn written_amount_is_read<K>(table: Map<K, int>, key: K, other: K, amount: int)
    ensures
        balance(table.insert(key, amount), key) == amount,
        other != key ==> balance(table.insert(key, amount), other) == balance(table, other),
        table.contains_key(key) ==> balance(table, key) == table[key],
        !table.contains_key(key) ==> balance(table, key) == 0,
{
}

/// A credit adds to one balance and leaves the others.
pub proof fn credit_adds_to_one_balance(
    table: Map<Address, int>,
    address: Address,
    other: Address,
    amount: int,
)
    ensures
        balance(credit(table, address, amount), address) == balance(table, address) + amount,
        other != address ==> balance(credit(table, address, amount), other) == balance(
            table,
            other,
        ),
{
}

/// The sum of all amounts of a finite table.
pub open spec fn total<K>(table: Map<K, int>) -> int
    decreases table.dom().len(),
{
    if table.dom().finite() && table.dom().len() > 0 {
        let key = table.dom().choose();
        table[key] + total(table.remove(key))
    } else {
        0
    }
}

/// The sum can be taken starting with any entry of the table.
proof fn lemma_total_remove<K>(table: Map<K, int>, key: K)
    requires
        table.dom().finite(),
        table.contains_key(key),
    ensures
        total(table) == table[key] + total(table.remove(key)),
    decreases table.dom().len(),
{
    let chosen = table.dom().choose();
    assert(table.dom().len() > 0) by {
        if table.dom().len() == 0 {
            assert(table.dom() =~= Set::empty());
        }
    }
    assert(table.dom().contains(chosen));
    if chosen != key {
        let without_chosen = table.remove(chosen);
        let without_key = table.remove(key);
        assert(without_chosen.dom() =~= table.dom().remove(chosen));
        assert(without_key.dom() =~= table.dom().remove(key));
        lemma_total_remove(without_chosen, key);
        lemma_total_remove(without_key, chosen);
        assert(without_chosen.remove(key) =~= without_key.remove(chosen));
    }
}

/// Writing one amount changes the sum by what that amount changed.
pub proof fn lemma_total_insert<K>(table: Map<K, int>, key: K, value: int)
    requires
        table.dom().finite(),
    ensures
        table.insert(key, value).dom().finite(),
        total(table.insert(key, value)) == total(table) - balance(table, key) + value,
{
    let after = table.insert(key, value);
    assert(after.dom() =~= table.dom().insert(key));
    lemma_total_remove(after, key);
    if table.contains_key(key) {
        lemma_total_remove(table, key);
        assert(after.remove(key) =~= table.remove(key));
    } else {
        assert(after.remove(key) =~= table);
    }
}

/// A credit changes the sum of all balances by the amount credited.
pub proof fn lemma_total_credit(table: Map<Address, int>, address: Address, amount: int)
    requires
        table.dom().finite(),
    ensures
        credit(table, address, amount).dom().finite(),
        total(credit(table, address, amount)) == total(table) + amount,
{
    lemma_total_insert(table, address, balance(table, address) + amount);
}

} // verus!
