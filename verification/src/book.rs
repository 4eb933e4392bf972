//! A book of amounts, one per key.
//!
//! A [`Book`] records an `i128` for each key that was ever written; every
//! other key stands at zero.  Its view is the list of its entries in the
//! order in which their keys were first written.

use crate::identity::Identity;
use vstd::prelude::*;

verus! {

/// What identifies an entry of a [`Book`]: a value whose view is its identity.
pub trait Key: View + Sized {
    /// Whether both keys have the same identity.
    fn same(&self, other: &Self) -> (equal: bool)
        ensures
            equal == (self@ == other@),
    ;
}

impl Key for Identity {
    fn same(&self, other: &Identity) -> (equal: bool) {
        Identity::same(self, other)
    }
}

/// One entry of a book, as contracts see it.
pub struct Entry<Id> {
    pub key: Id,
    pub amount: int,
}

/// Whether no key occurs twice in `entries`.
pub open spec fn keys_distinct<Id>(entries: Seq<Entry<Id>>) -> bool {
    forall|i: int, j: int|
        0 <= i < j < entries.len() ==> (#[trigger] entries[i]).key != (#[trigger] entries[j]).key
}

/// Whether some entry of `entries` has the key `key`.
pub open spec fn holds<Id>(entries: Seq<Entry<Id>>, key: Id) -> bool {
    exists|i: int| 0 <= i < entries.len() && (#[trigger] entries[i]).key == key
}

/// The index of an entry with the key `key`, where [`holds`] says there is one.
pub open spec fn position<Id>(entries: Seq<Entry<Id>>, key: Id) -> int
    recommends
        holds(entries, key),
{
    choose|i: int| 0 <= i < entries.len() && (#[trigger] entries[i]).key == key
}

/// The amount recorded for `key`; zero where nothing is recorded.
pub open spec fn amount_of<Id>(entries: Seq<Entry<Id>>, key: Id) -> int {
    if holds(entries, key) {
        entries[position(entries, key)].amount
    } else {
        0
    }
}

/// `entries` with the amount of `key` set to `amount`: in place where the key
/// is recorded, as a new last entry where it is not.
pub open spec fn with_amount<Id>(entries: Seq<Entry<Id>>, key: Id, amount: int) -> Seq<Entry<Id>> {
    if holds(entries, key) {
        entries.update(position(entries, key), Entry { key, amount })
    } else {
        entries.push(Entry { key, amount })
    }
}

/// The sum of all recorded amounts.
pub open spec fn total<Id>(entries: Seq<Entry<Id>>) -> int
    decreases entries.len(),
{
    if entries.len() == 0 {
        0
    } else {
        total(entries.drop_last()) + entries.last().amount
    }
}

/// Whether every recorded amount lies between `low` and `high`.
pub open spec fn amounts_within<Id>(entries: Seq<Entry<Id>>, low: int, high: int) -> bool {
    forall|i: int| 0 <= i < entries.len() ==> low <= (#[trigger] entries[i]).amount <= high
}

/// Whether no recorded amount is negative.
pub open spec fn amounts_nonnegative<Id>(entries: Seq<Entry<Id>>) -> bool {
    forall|i: int| 0 <= i < entries.len() ==> 0 <= (#[trigger] entries[i]).amount
}

/// One entry of a book, as it is stored.
pub struct Slot<K> {
    key: K,
    amount: i128,
}

/// A book of amounts, one per key; a key that was never written stands at
/// zero.
pub struct Book<K> {
    slots: Vec<Slot<K>>,
}

impl<K: Key> View for Book<K> {
    type V = Seq<Entry<K::V>>;

    closed spec fn view(&self) -> Seq<Entry<K::V>> {
        Seq::new(
            self.slots@.len(),
            |i: int| Entry { key: self.slots@[i].key@, amount: self.slots@[i].amount as int },
        )
    }
}

impl<K: Key> Book<K> {
    /// Whether the book is valid: no key is recorded twice.
    pub open spec fn wf(&self) -> bool {
        keys_distinct(self@)
    }

    /// The book in which every key stands at zero.
    pub fn new() -> (book: Book<K>)
        ensures
            book.wf(),
            book@ == Seq::<Entry<K::V>>::empty(),
    {
        let book = Book { slots: Vec::new() };
        book
    }

    /// The number of recorded entries.
    pub fn len(&self) -> (count: usize)
        ensures
            count == self@.len(),
    {
        self.slots.len()
    }

    /// The key of the entry at `index`.
    pub fn key_at(&self, index: usize) -> (key: &K)
        requires
            index < self@.len(),
        ensures
            key@ == self@[index as int].key,
    {
        &self.slots[index].key
    }

    /// The amount of the entry at `index`.
    pub fn amount_at(&self, index: usize) -> (amount: i128)
        requires
            index < self@.len(),
        ensures
            amount == self@[index as int].amount,
    {
        self.slots[index].amount
    }

    /// Where `key` is recorded, if anywhere.
    fn find(&self, key: &K) -> (found: Option<usize>)
        ensures
            match found {
                Some(i) => i < self@.len() && self@[i as int].key == key@,
                None => !holds(self@, key@),
            },
    {
        let mut i: usize = 0;
        while i < self.slots.len()
            invariant
                i <= self.slots@.len(),
                self@.len() == self.slots@.len(),
                forall|j: int| 0 <= j < i ==> (#[trigger] self@[j]).key != key@,
            decreases self.slots@.len() - i,
        {
            if self.slots[i].key.same(key) {
                return Some(i);
            }
            i += 1;
        }
        None
    }

    /// Whether an amount is recorded for `key`.
    pub fn contains(&self, key: &K) -> (found: bool)
        ensures
            found == holds(self@, key@),
    {
        self.find(key).is_some()
    }

    /// Records `amount` for `key` as a new last entry, unless the key is
    /// recorded already; then nothing changes.  Says whether it did.
    pub fn insert_new(&mut self, key: K, amount: i128) -> (inserted: bool)
        requires
            old(self).wf(),
        ensures
            final(self).wf(),
            inserted == !holds(old(self)@, key@),
            inserted ==> final(self)@ == old(self)@.push(
                Entry { key: key@, amount: amount as int },
            ),
            !inserted ==> final(self)@ == old(self)@,
    {
        if self.contains(&key) {
            return false;
        }
        self.set(key, amount);
        true
    }

    /// The sum of all amounts, where none is negative and the sum fits.
    pub fn checked_total(&self) -> (sum: Option<i128>)
        ensures
            match sum {
                Some(value) => amounts_nonnegative(self@) && value == total(self@),
                None => !(amounts_nonnegative(self@) && total(self@) <= i128::MAX),
            },
    {
        let mut sum: i128 = 0;
        let mut i: usize = 0;
        while i < self.slots.len()
            invariant
                i <= self.slots@.len(),
                self@.len() == self.slots@.len(),
                forall|j: int| 0 <= j < self@.len() ==> (#[trigger] self@[j]).amount
                    == self.slots@[j].amount,
                amounts_nonnegative(self@.subrange(0, i as int)),
                sum == total(self@.subrange(0, i as int)),
            decreases self.slots@.len() - i,
        {
            let amount = self.slots[i].amount;
            let ghost before = self@.subrange(0, i as int);
            let ghost after = self@.subrange(0, i + 1);
            proof {
                assert(after =~= before.push(self@[i as int]));
                lemma_total_push(before, self@[i as int]);
            }
            if amount < 0 {
                return None;
            }
            match sum.checked_add(amount) {
                Some(value) => {
                    sum = value;
                },
                None => {
                    proof {
                        if amounts_nonnegative(self@) {
                            lemma_total_prefix(self@, i + 1);
                        }
                    }
                    return None;
                },
            }
            assert forall|j: int| 0 <= j < after.len() implies 0 <= (
            #[trigger] after[j]).amount by {
            }
            i += 1;
        }
        assert(self@.subrange(0, i as int) =~= self@);
        Some(sum)
    }

    /// Whether every recorded amount lies between `low` and `high`.
    pub fn all_within(&self, low: i128, high: i128) -> (within: bool)
        ensures
            within == amounts_within(self@, low as int, high as int),
    {
        let mut i: usize = 0;
        while i < self.slots.len()
            invariant
                i <= self.slots@.len(),
                self@.len() == self.slots@.len(),
                forall|j: int| 0 <= j < self@.len() ==> (#[trigger] self@[j]).amount
                    == self.slots@[j].amount,
                forall|j: int| 0 <= j < i ==> low <= (#[trigger] self@[j]).amount <= high,
            decreases self.slots@.len() - i,
        {
            let amount = self.slots[i].amount;
            if amount < low || amount > high {
                assert(!(low <= self@[i as int].amount <= high));
                return false;
            }
            i += 1;
        }
        true
    }

    /// The amount recorded for `key`; zero where nothing is recorded.
    pub fn get(&self, key: &K) -> (amount: i128)
        requires
            self.wf(),
        ensures
            amount == amount_of(self@, key@),
    {
        match self.find(key) {
            Some(i) => {
                self.slots[i].amount
            },
            None => 0,
        }
    }

    /// Records `amount` for `key`.
    pub fn set(&mut self, key: K, amount: i128)
        requires
            old(self).wf(),
        ensures
            final(self).wf(),
            final(self)@ == with_amount(old(self)@, key@, amount as int),
    {
        match self.find(&key) {
            Some(i) => {
                self.slots[i].amount = amount;
                assert(self@ =~= with_amount(old(self)@, key@, amount as int));
            },
            None => {
                self.slots.push(Slot { key, amount });
                assert(self@ =~= with_amount(old(self)@, key@, amount as int));
            },
        }
    }
}

/// With distinct keys, the entry at `i` is the one that its key finds.
pub proof fn lemma_position_is<Id>(entries: Seq<Entry<Id>>, i: int)
    requires
        keys_distinct(entries),
        0 <= i < entries.len(),
    ensures
        holds(entries, entries[i].key),
        position(entries, entries[i].key) == i,
        amount_of(entries, entries[i].key) == entries[i].amount,
{
    let key = entries[i].key;
    assert(holds(entries, key));
    let p = position(entries, key);
    assert(0 <= p < entries.len() && entries[p].key == key);
    if p < i {
        assert(entries[p].key != entries[i].key);
    }
    if i < p {
        assert(entries[i].key != entries[p].key);
    }
}

/// Setting one amount changes the sum by the difference.
pub proof fn lemma_total_update<Id>(entries: Seq<Entry<Id>>, i: int, entry: Entry<Id>)
    requires
        0 <= i < entries.len(),
    ensures
        total(entries.update(i, entry)) == total(entries) - entries[i].amount + entry.amount,
    decreases entries.len(),
{
    let updated = entries.update(i, entry);
    if i == entries.len() - 1 {
        assert(updated.drop_last() =~= entries.drop_last());
    } else {
        assert(updated.drop_last() =~= entries.drop_last().update(i, entry));
        lemma_total_update(entries.drop_last(), i, entry);
    }
}

/// A new last entry adds its amount to the sum.
pub proof fn lemma_total_push<Id>(entries: Seq<Entry<Id>>, entry: Entry<Id>)
    ensures
        total(entries.push(entry)) == total(entries) + entry.amount,
{
    assert(entries.push(entry).drop_last() =~= entries);
}

/// Where no amount is negative, the sum of the first `n` amounts is not
/// more than the sum of all.
pub proof fn lemma_total_prefix<Id>(entries: Seq<Entry<Id>>, n: int)
    requires
        amounts_nonnegative(entries),
        0 <= n <= entries.len(),
    ensures
        total(entries.subrange(0, n)) <= total(entries),
    decreases entries.len(),
{
    if n == entries.len() {
        assert(entries.subrange(0, n) =~= entries);
    } else {
        let rest = entries.drop_last();
        assert forall|i: int| 0 <= i < rest.len() implies 0 <= (#[trigger] rest[i]).amount by {
            assert(rest[i] == entries[i]);
        }
        assert(rest.subrange(0, n) =~= entries.subrange(0, n));
        lemma_total_prefix(rest, n);
        assert(entries.last() == entries[entries.len() - 1]);
    }
}

/// Where no amount is negative, none exceeds the sum.
pub proof fn lemma_total_bounds<Id>(entries: Seq<Entry<Id>>)
    requires
        amounts_nonnegative(entries),
    ensures
        0 <= total(entries),
        amounts_within(entries, 0, total(entries)),
    decreases entries.len(),
{
    if entries.len() > 0 {
        let rest = entries.drop_last();
        assert forall|i: int| 0 <= i < rest.len() implies 0 <= (#[trigger] rest[i]).amount by {
            assert(rest[i] == entries[i]);
        }
        lemma_total_bounds(rest);
        assert forall|i: int| 0 <= i < entries.len() implies 0 <= (#[trigger] entries[i]).amount
            <= total(entries) by {
            if i < rest.len() {
                assert(rest[i] == entries[i]);
            }
        }
    }
}

/// Where no amount is negative, the amount of any key lies between zero and
/// the sum.
pub proof fn lemma_amount_of_bounds<Id>(entries: Seq<Entry<Id>>, key: Id)
    requires
        amounts_nonnegative(entries),
    ensures
        0 <= amount_of(entries, key) <= total(entries),
{
    lemma_total_bounds(entries);
}

/// What [`with_amount`] does to the book: the keys stay distinct, the amount
/// of `key` becomes `amount`, every other amount stays, and the sum moves by
/// the difference.
pub proof fn lemma_with_amount<Id>(entries: Seq<Entry<Id>>, key: Id, amount: int)
    requires
        keys_distinct(entries),
    ensures
        keys_distinct(with_amount(entries, key, amount)),
        amount_of(with_amount(entries, key, amount), key) == amount,
        forall|other: Id|
            other != key ==> #[trigger] amount_of(with_amount(entries, key, amount), other)
                == amount_of(entries, other),
        total(with_amount(entries, key, amount)) == total(entries) - amount_of(entries, key)
            + amount,
        amounts_nonnegative(entries) && amount >= 0 ==> amounts_nonnegative(
            with_amount(entries, key, amount),
        ),
{
    let after = with_amount(entries, key, amount);
    let entry = Entry { key, amount };
    if amounts_nonnegative(entries) && amount >= 0 {
        assert forall|i: int| 0 <= i < after.len() implies 0 <= (#[trigger] after[i]).amount by {
            if i < entries.len() && after[i] != entry {
                assert(after[i] == entries[i]);
            }
        }
    }
    if holds(entries, key) {
        let p = position(entries, key);
        assert(after.len() == entries.len());
        assert forall|i: int, j: int| 0 <= i < j < after.len() implies (#[trigger] after[i]).key
            != (#[trigger] after[j]).key by {
            assert(after[i].key == entries[i].key);
            assert(after[j].key == entries[j].key);
        }
        assert(after[p] == entry);
        lemma_position_is(after, p);
        lemma_total_update(entries, p, entry);
        assert forall|other: Id| other != key implies #[trigger] amount_of(after, other)
            == amount_of(entries, other) by {
            lemma_same_keys_same_lookup(entries, after, p, other);
        }
    } else {
        let last = entries.len() as int;
        assert(after.len() == last + 1);
        assert forall|i: int, j: int| 0 <= i < j < after.len() implies (#[trigger] after[i]).key
            != (#[trigger] after[j]).key by {
            assert(after[i] == entries[i]);
            if j < last {
                assert(after[j] == entries[j]);
            }
        }
        assert(after[last] == entry);
        lemma_position_is(after, last);
        lemma_total_push(entries, entry);
        assert forall|other: Id| other != key implies #[trigger] amount_of(after, other)
            == amount_of(entries, other) by {
            if holds(entries, other) {
                let q = position(entries, other);
                assert(after[q] == entries[q]);
                lemma_position_is(after, q);
            } else {
                if holds(after, other) {
                    let q = position(after, other);
                    assert(q < last);
                    assert(entries[q] == after[q]);
                }
            }
        }
    }
}

/// Where every amount lies between `low` and `high`, and zero does too, the
/// amount of any key does.
pub proof fn lemma_amount_of_within<Id>(entries: Seq<Entry<Id>>, key: Id, low: int, high: int)
    requires
        amounts_within(entries, low, high),
        low <= 0 <= high,
    ensures
        low <= amount_of(entries, key) <= high,
{
}

/// Setting an amount between `low` and `high` keeps every amount between
/// them.
pub proof fn lemma_with_amount_within<Id>(
    entries: Seq<Entry<Id>>,
    key: Id,
    amount: int,
    low: int,
    high: int,
)
    requires
        amounts_within(entries, low, high),
        low <= amount <= high,
    ensures
        amounts_within(with_amount(entries, key, amount), low, high),
{
    let after = with_amount(entries, key, amount);
    let entry = Entry { key, amount };
    assert forall|i: int| 0 <= i < after.len() implies low <= (#[trigger] after[i]).amount
        <= high by {
        if i < entries.len() && after[i] != entry {
            assert(after[i] == entries[i]);
        }
    }
}

/// Two books with the same keys, that differ at most in the amount at `p`,
/// agree on every key but the one at `p`.
proof fn lemma_same_keys_same_lookup<Id>(
    before: Seq<Entry<Id>>,
    after: Seq<Entry<Id>>,
    p: int,
    other: Id,
)
    requires
        keys_distinct(before),
        keys_distinct(after),
        0 <= p < before.len(),
        after.len() == before.len(),
        forall|i: int| 0 <= i < before.len() && i != p ==> after[i] == before[i],
        after[p].key == before[p].key,
        other != before[p].key,
    ensures
        amount_of(after, other) == amount_of(before, other),
{
    if holds(before, other) {
        let q = position(before, other);
        assert(q != p);
        assert(after[q] == before[q]);
        lemma_position_is(after, q);
    } else {
        if holds(after, other) {
            let q = position(after, other);
            assert(q != p);
            assert(before[q] == after[q]);
        }
    }
}

} // verus!
