//! The ledger of LP shares: balances, allowances and the total supply.
//!
//! The functions of this module change the ledger without asking who calls;
//! the pool checks authorization before it hands a request on.

use crate::identity::Identity;
use crate::book::{
    amount_of, amounts_nonnegative, lemma_amount_of_bounds, lemma_with_amount, total,
    with_amount, Book, Entry, Key,
};
use crate::error::PoolError;
use crate::arith::ArithmeticError;
use vstd::prelude::*;

verus! {

/// The key of an allowance: who grants it, and who may spend it.
pub struct AllowanceKey {
    pub owner: Identity,
    pub spender: Identity,
}

impl View for AllowanceKey {
    type V = (Seq<char>, Seq<char>);

    open spec fn view(&self) -> (Seq<char>, Seq<char>) {
        (self.owner@, self.spender@)
    }
}

impl Key for AllowanceKey {
    fn same(&self, other: &AllowanceKey) -> (equal: bool) {
        self.owner.same(&other.owner) && self.spender.same(&other.spender)
    }
}

/// A balance, or another amount that belongs to one holder.
#[derive(Debug)]
pub struct Holding {
    pub owner: Identity,
    pub amount: i128,
}

/// An allowance: what `spender` may take from `owner`.
#[derive(Debug)]
pub struct Grant {
    pub owner: Identity,
    pub spender: Identity,
    pub amount: i128,
}

/// A list of holdings as the entries of a book.
pub open spec fn holdings_view(list: Seq<Holding>) -> Seq<Entry<Seq<char>>> {
    Seq::new(list.len(), |i: int| Entry { key: list[i].owner@, amount: list[i].amount as int })
}

/// A list of grants as the entries of a book.
pub open spec fn grants_view(list: Seq<Grant>) -> Seq<Entry<(Seq<char>, Seq<char>)>> {
    Seq::new(
        list.len(),
        |i: int| Entry { key: (list[i].owner@, list[i].spender@), amount: list[i].amount as int },
    )
}

/// The state that the given balances, allowances and total supply make.
pub open spec fn restored_state(
    balances: Seq<Holding>,
    allowances: Seq<Grant>,
    total_supply: int,
) -> LedgerState {
    LedgerState {
        balances: holdings_view(balances),
        allowances: grants_view(allowances),
        total_supply,
    }
}

/// The book that records each holding of `list`, where no holder occurs
/// twice.
pub fn book_of_holdings(list: &Vec<Holding>) -> (book: Option<Book<Identity>>)
    ensures
        match book {
            Some(book) => book.wf() && book@ == holdings_view(list@),
            None => !crate::book::keys_distinct(holdings_view(list@)),
        },
{
    let mut book: Book<Identity> = Book::new();
    let mut i: usize = 0;
    let ghost whole = holdings_view(list@);
    while i < list.len()
        invariant
            i <= list@.len(),
            whole == holdings_view(list@),
            book.wf(),
            book@ == whole.subrange(0, i as int),
        decreases list@.len() - i,
    {
        if !book.insert_new(list[i].owner.clone(), list[i].amount) {
            proof {
                let j = crate::book::position(book@, whole[i as int].key);
            }
            return None;
        }
        i += 1;
    }
    Some(book)
}

/// The holdings that `book` records, in its order.
pub fn holdings_of_book(book: &Book<Identity>) -> (list: Vec<Holding>)
    ensures
        holdings_view(list@) == book@,
{
    let mut list: Vec<Holding> = Vec::new();
    let mut i: usize = 0;
    while i < book.len()
        invariant
            i <= book@.len(),
            list@.len() == i,
            forall|j: int|
                0 <= j < i ==> (#[trigger] list@[j]).owner@ == book@[j].key && list@[j].amount
                    == book@[j].amount,
        decreases book@.len() - i,
    {
        list.push(Holding { owner: book.key_at(i).clone(), amount: book.amount_at(i) });
        i += 1;
    }
    list
}

/// The ledger as contracts see it.
pub struct LedgerState {
    /// The balance of each holder, in the order of first appearance.
    pub balances: Seq<Entry<Seq<char>>>,
    /// The allowance of each pair of owner and spender.
    pub allowances: Seq<Entry<(Seq<char>, Seq<char>)>>,
    /// The number of shares in existence.
    pub total_supply: int,
}

impl LedgerState {
    /// The balance of `who`.
    pub open spec fn balance_of(self, who: Seq<char>) -> int {
        amount_of(self.balances, who)
    }

    /// What `spender` may still take from `owner`.
    pub open spec fn allowance_of(self, owner: Seq<char>, spender: Seq<char>) -> int {
        amount_of(self.allowances, (owner, spender))
    }

    /// Whether the state is valid: no holder and no pair is recorded twice,
    /// no amount is negative, and the balances add up to the total supply,
    /// which is that of an `i128`.
    pub open spec fn wf(self) -> bool {
        &&& crate::book::keys_distinct(self.balances)
        &&& crate::book::keys_distinct(self.allowances)
        &&& amounts_nonnegative(self.balances)
        &&& crate::book::amounts_within(self.allowances, 0, i128::MAX as int)
        &&& total(self.balances) == self.total_supply
        &&& self.total_supply <= i128::MAX
    }

    /// The state with the balance of `who` set to `amount`.
    pub open spec fn with_balance(self, who: Seq<char>, amount: int) -> LedgerState {
        LedgerState { balances: with_amount(self.balances, who, amount), ..self }
    }

    /// The state with the allowance of `spender` on `owner` set to `amount`.
    pub open spec fn with_allowance(
        self,
        owner: Seq<char>,
        spender: Seq<char>,
        amount: int,
    ) -> LedgerState {
        LedgerState { allowances: with_amount(self.allowances, (owner, spender), amount), ..self }
    }

    /// The state after `amount` new shares went to `to`.
    pub open spec fn minted(self, to: Seq<char>, amount: int) -> LedgerState {
        LedgerState {
            total_supply: self.total_supply + amount,
            ..self.with_balance(to, self.balance_of(to) + amount)
        }
    }

    /// The state after `amount` shares of `from` were destroyed.
    pub open spec fn burned(self, from: Seq<char>, amount: int) -> LedgerState {
        LedgerState {
            total_supply: self.total_supply - amount,
            ..self.with_balance(from, self.balance_of(from) - amount)
        }
    }

    /// The state after `amount` shares moved from `from` to `to`: first
    /// taken, then given, so that a transfer to oneself changes no balance.
    pub open spec fn moved(self, from: Seq<char>, to: Seq<char>, amount: int) -> LedgerState {
        let taken = self.with_balance(from, self.balance_of(from) - amount);
        taken.with_balance(to, taken.balance_of(to) + amount)
    }

    /// The state after `spender` used `amount` of its allowance on `owner`.
    pub open spec fn spent(self, owner: Seq<char>, spender: Seq<char>, amount: int) -> LedgerState {
        self.with_allowance(owner, spender, self.allowance_of(owner, spender) - amount)
    }
}

/// What minting `amount` shares to `to` comes to.
pub open spec fn mint_outcome(state: LedgerState, to: Seq<char>, amount: int) -> Result<
    LedgerState,
    PoolError,
> {
    if amount < 0 {
        Err(PoolError::NegativeAmount)
    } else if state.total_supply + amount > i128::MAX {
        Err(PoolError::Arithmetic(ArithmeticError::Overflow))
    } else {
        Ok(state.minted(to, amount))
    }
}

/// What burning `amount` shares of `from` comes to.
pub open spec fn burn_outcome(state: LedgerState, from: Seq<char>, amount: int) -> Result<
    LedgerState,
    PoolError,
> {
    if amount < 0 {
        Err(PoolError::NegativeAmount)
    } else if state.balance_of(from) < amount {
        Err(PoolError::InsufficientBalance)
    } else {
        Ok(state.burned(from, amount))
    }
}

/// What moving `amount` shares from `from` to `to` comes to.
pub open spec fn transfer_outcome(
    state: LedgerState,
    from: Seq<char>,
    to: Seq<char>,
    amount: int,
) -> Result<LedgerState, PoolError> {
    if amount < 0 {
        Err(PoolError::NegativeAmount)
    } else if state.balance_of(from) < amount {
        Err(PoolError::InsufficientBalance)
    } else {
        Ok(state.moved(from, to, amount))
    }
}

/// What granting `spender` an allowance of `amount` on `owner` comes to.
pub open spec fn approve_outcome(
    state: LedgerState,
    owner: Seq<char>,
    spender: Seq<char>,
    amount: int,
) -> Result<LedgerState, PoolError> {
    if amount < 0 {
        Err(PoolError::NegativeAmount)
    } else {
        Ok(state.with_allowance(owner, spender, amount))
    }
}

/// What `spender` moving `amount` shares from `from` to `to` comes to.
pub open spec fn transfer_from_outcome(
    state: LedgerState,
    spender: Seq<char>,
    from: Seq<char>,
    to: Seq<char>,
    amount: int,
) -> Result<LedgerState, PoolError> {
    if amount < 0 {
        Err(PoolError::NegativeAmount)
    } else if state.allowance_of(from, spender) < amount {
        Err(PoolError::InsufficientAllowance)
    } else if state.balance_of(from) < amount {
        Err(PoolError::InsufficientBalance)
    } else {
        Ok(state.spent(from, spender, amount).moved(from, to, amount))
    }
}

/// What `spender` burning `amount` shares of `from` comes to.
pub open spec fn burn_from_outcome(
    state: LedgerState,
    spender: Seq<char>,
    from: Seq<char>,
    amount: int,
) -> Result<LedgerState, PoolError> {
    if amount < 0 {
        Err(PoolError::NegativeAmount)
    } else if state.allowance_of(from, spender) < amount {
        Err(PoolError::InsufficientAllowance)
    } else if state.balance_of(from) < amount {
        Err(PoolError::InsufficientBalance)
    } else {
        Ok(state.spent(from, spender, amount).burned(from, amount))
    }
}

/// Whether `result` and the state `after` are what `expected` asks for:
/// success with the expected state, or the expected error with the state
/// left as it was `before`.
pub open spec fn settles<S>(
    result: Result<(), PoolError>,
    before: S,
    after: S,
    expected: Result<S, PoolError>,
) -> bool {
    match expected {
        Ok(state) => result is Ok && after == state,
        Err(error) => result == Err::<(), PoolError>(error) && after == before,
    }
}

/// The ledger of LP shares.
pub struct Ledger {
    balances: Book<Identity>,
    allowances: Book<AllowanceKey>,
    total_supply: i128,
}

impl View for Ledger {
    type V = LedgerState;

    closed spec fn view(&self) -> LedgerState {
        LedgerState {
            balances: self.balances@,
            allowances: self.allowances@,
            total_supply: self.total_supply as int,
        }
    }
}

impl Ledger {
    /// Whether the ledger is valid: its state is, see [`LedgerState::wf`].
    pub open spec fn wf(&self) -> bool {
        self@.wf()
    }

    /// The ledger without any share.
    pub fn new() -> (ledger: Ledger)
        ensures
            ledger.wf(),
            ledger@ == (LedgerState {
                balances: Seq::empty(),
                allowances: Seq::empty(),
                total_supply: 0,
            }),
    {
        Ledger { balances: Book::new(), allowances: Book::new(), total_supply: 0 }
    }

    /// The number of shares in existence.
    pub fn total_supply(&self) -> (supply: i128)
        ensures
            supply == self@.total_supply,
    {
        self.total_supply
    }

    /// The balance of `id`.
    pub fn balance(&self, id: &Identity) -> (balance: i128)
        requires
            self.wf(),
        ensures
            balance == self@.balance_of(id@),
            0 <= balance <= self@.total_supply,
    {
        proof {
            lemma_balance_bounds(self@, id@);
        }
        self.balances.get(id)
    }

    /// What `spender` may still take from `from`.
    pub fn allowance(&self, from: &Identity, spender: &Identity) -> (allowance: i128)
        requires
            self.wf(),
        ensures
            allowance == self@.allowance_of(from@, spender@),
            0 <= allowance,
    {
        let key = AllowanceKey { owner: from.clone(), spender: spender.clone() };
        self.allowances.get(&key)
    }

    /// The balances on record, in the order of the ledger.
    pub fn holdings(&self) -> (list: Vec<Holding>)
        ensures
            holdings_view(list@) == self@.balances,
    {
        holdings_of_book(&self.balances)
    }

    /// The allowances on record, in the order of the ledger.
    pub fn grants(&self) -> (list: Vec<Grant>)
        ensures
            grants_view(list@) == self@.allowances,
    {
        let mut list: Vec<Grant> = Vec::new();
        let mut i: usize = 0;
        while i < self.allowances.len()
            invariant
                i <= self.allowances@.len(),
                list@.len() == i,
                forall|j: int|
                    0 <= j < i ==> (#[trigger] list@[j].owner@, list@[j].spender@)
                        == self.allowances@[j].key && list@[j].amount
                        == self.allowances@[j].amount,
            decreases self.allowances@.len() - i,
        {
            let key = self.allowances.key_at(i);
            list.push(
                Grant {
                    owner: key.owner.clone(),
                    spender: key.spender.clone(),
                    amount: self.allowances.amount_at(i),
                },
            );
            i += 1;
        }
        list
    }

    /// The ledger with the given balances, allowances and total supply,
    /// where these make a valid ledger.
    pub fn restore(
        balances: &Vec<Holding>,
        allowances: &Vec<Grant>,
        total_supply: i128,
    ) -> (ledger: Option<Ledger>)
        ensures
            match ledger {
                Some(ledger) => ledger.wf() && ledger@ == restored_state(
                    balances@,
                    allowances@,
                    total_supply as int,
                ),
                None => !restored_state(balances@, allowances@, total_supply as int).wf(),
            },
    {
        let balance_book = match book_of_holdings(balances) {
            Some(book) => book,
            None => {
                return None;
            },
        };
        match balance_book.checked_total() {
            Some(sum) => {
                if sum != total_supply {
                    return None;
                }
            },
            None => {
                return None;
            },
        }
        let mut allowance_book: Book<AllowanceKey> = Book::new();
        let mut i: usize = 0;
        while i < allowances.len()
            invariant
                i <= allowances@.len(),
                allowance_book.wf(),
                allowance_book@ == grants_view(allowances@).subrange(0, i as int),
            decreases allowances@.len() - i,
        {
            let key = AllowanceKey {
                owner: allowances[i].owner.clone(),
                spender: allowances[i].spender.clone(),
            };
            let ghost whole = grants_view(allowances@);
            if !allowance_book.insert_new(key, allowances[i].amount) {
                proof {
                    let j = crate::book::position(allowance_book@, whole[i as int].key);
                }
                return None;
            }
            i += 1;
        }
        assert(allowance_book@ =~= grants_view(allowances@));
        if !allowance_book.all_within(0, i128::MAX) {
            return None;
        }
        Some(Ledger { balances: balance_book, allowances: allowance_book, total_supply })
    }

    /// Creates `amount` shares for `to`.
    pub fn mint(&mut self, to: &Identity, amount: i128) -> (result: Result<(), PoolError>)
        requires
            old(self).wf(),
        ensures
            final(self).wf(),
            settles(result, old(self)@, final(self)@, mint_outcome(old(self)@, to@, amount as int)),
    {
        if amount < 0 {
            return Err(PoolError::NegativeAmount);
        }
        let supply = match self.total_supply.checked_add(amount) {
            Some(v) => v,
            None => {
                return Err(PoolError::Arithmetic(ArithmeticError::Overflow));
            },
        };
        proof {
            lemma_minted_wf(self@, to@, amount as int);
            lemma_balance_bounds(self@, to@);
        }
        let balance = self.balances.get(to);
        self.balances.set(to.clone(), balance + amount);
        self.total_supply = supply;
        Ok(())
    }

    /// Destroys `amount` shares of `from`.
    pub fn burn(&mut self, from: &Identity, amount: i128) -> (result: Result<(), PoolError>)
        requires
            old(self).wf(),
        ensures
            final(self).wf(),
            settles(
                result,
                old(self)@,
                final(self)@,
                burn_outcome(old(self)@, from@, amount as int),
            ),
    {
        if amount < 0 {
            return Err(PoolError::NegativeAmount);
        }
        let balance = self.balances.get(from);
        if balance < amount {
            return Err(PoolError::InsufficientBalance);
        }
        proof {
            lemma_burned_wf(self@, from@, amount as int);
            lemma_balance_bounds(self@, from@);
        }
        self.balances.set(from.clone(), balance - amount);
        self.total_supply = self.total_supply - amount;
        Ok(())
    }

    /// Moves `amount` shares from `from` to `to`.
    pub fn transfer(&mut self, from: &Identity, to: &Identity, amount: i128) -> (result: Result<
        (),
        PoolError,
    >)
        requires
            old(self).wf(),
        ensures
            final(self).wf(),
            settles(
                result,
                old(self)@,
                final(self)@,
                transfer_outcome(old(self)@, from@, to@, amount as int),
            ),
    {
        if amount < 0 {
            return Err(PoolError::NegativeAmount);
        }
        let balance = self.balances.get(from);
        if balance < amount {
            return Err(PoolError::InsufficientBalance);
        }
        self.move_shares(from, to, amount);
        Ok(())
    }

    /// Grants `spender` an allowance of `amount` on the shares of `from`,
    /// in place of any earlier one.
    pub fn approve(&mut self, from: &Identity, spender: &Identity, amount: i128) -> (result: Result<
        (),
        PoolError,
    >)
        requires
            old(self).wf(),
        ensures
            final(self).wf(),
            settles(
                result,
                old(self)@,
                final(self)@,
                approve_outcome(old(self)@, from@, spender@, amount as int),
            ),
    {
        if amount < 0 {
            return Err(PoolError::NegativeAmount);
        }
        let key = AllowanceKey { owner: from.clone(), spender: spender.clone() };
        self.allowances.set(key, amount);
        Ok(())
    }

    /// Moves `amount` shares from `from` to `to` on the allowance of
    /// `spender`, which shrinks by `amount`.
    pub fn transfer_from(
        &mut self,
        spender: &Identity,
        from: &Identity,
        to: &Identity,
        amount: i128,
    ) -> (result: Result<(), PoolError>)
        requires
            old(self).wf(),
        ensures
            final(self).wf(),
            settles(
                result,
                old(self)@,
                final(self)@,
                transfer_from_outcome(old(self)@, spender@, from@, to@, amount as int),
            ),
    {
        if amount < 0 {
            return Err(PoolError::NegativeAmount);
        }
        let allowance = self.allowance(from, spender);
        if allowance < amount {
            return Err(PoolError::InsufficientAllowance);
        }
        let balance = self.balances.get(from);
        if balance < amount {
            return Err(PoolError::InsufficientBalance);
        }
        self.spend_allowance(from, spender, allowance, amount);
        self.move_shares(from, to, amount);
        Ok(())
    }

    /// Destroys `amount` shares of `from` on the allowance of `spender`,
    /// which shrinks by `amount`.
    pub fn burn_from(
        &mut self,
        spender: &Identity,
        from: &Identity,
        amount: i128,
    ) -> (result: Result<(), PoolError>)
        requires
            old(self).wf(),
        ensures
            final(self).wf(),
            settles(
                result,
                old(self)@,
                final(self)@,
                burn_from_outcome(old(self)@, spender@, from@, amount as int),
            ),
    {
        if amount < 0 {
            return Err(PoolError::NegativeAmount);
        }
        let allowance = self.allowance(from, spender);
        if allowance < amount {
            return Err(PoolError::InsufficientAllowance);
        }
        let balance = self.balances.get(from);
        if balance < amount {
            return Err(PoolError::InsufficientBalance);
        }
        self.spend_allowance(from, spender, allowance, amount);
        proof {
            lemma_burned_wf(self@, from@, amount as int);
            lemma_balance_bounds(self@, from@);
        }
        self.balances.set(from.clone(), balance - amount);
        self.total_supply = self.total_supply - amount;
        Ok(())
    }

    /// Takes `amount` from the balance of `from` and gives it to `to`.
    fn move_shares(&mut self, from: &Identity, to: &Identity, amount: i128)
        requires
            old(self).wf(),
            0 <= amount <= old(self)@.balance_of(from@),
        ensures
            final(self).wf(),
            final(self)@ == old(self)@.moved(from@, to@, amount as int),
    {
        proof {
            lemma_moved_wf(self@, from@, to@, amount as int);
            lemma_with_amount(self@.balances, from@, self@.balance_of(from@) - amount);
        }
        let balance = self.balances.get(from);
        self.balances.set(from.clone(), balance - amount);
        proof {
            lemma_amount_of_bounds(self@.balances, to@);
        }
        let credit = self.balances.get(to);
        self.balances.set(to.clone(), credit + amount);
    }

    /// Lowers the allowance of `spender` on `owner` from `allowance` by
    /// `amount`.
    fn spend_allowance(
        &mut self,
        owner: &Identity,
        spender: &Identity,
        allowance: i128,
        amount: i128,
    )
        requires
            old(self).wf(),
            allowance == old(self)@.allowance_of(owner@, spender@),
            0 <= amount <= allowance,
        ensures
            final(self).wf(),
            final(self)@ == old(self)@.spent(owner@, spender@, amount as int),
    {
        let key = AllowanceKey { owner: owner.clone(), spender: spender.clone() };
        self.allowances.set(key, allowance - amount);
    }
}

/// A valid state stays valid when a balance moves to a value that is not
/// negative and the total supply moves with it.
pub proof fn lemma_minted_wf(state: LedgerState, to: Seq<char>, amount: int)
    requires
        state.wf(),
        amount >= 0,
        state.total_supply + amount <= i128::MAX,
    ensures
        state.minted(to, amount).wf(),
        state.minted(to, amount).balance_of(to) == state.balance_of(to) + amount,
        forall|other: Seq<char>|
            other != to ==> #[trigger] state.minted(to, amount).balance_of(other)
                == state.balance_of(other),
{
    lemma_amount_of_bounds(state.balances, to);
    lemma_with_amount(state.balances, to, state.balance_of(to) + amount);
}

/// A valid state stays valid when shares that the holder has are burned.
pub proof fn lemma_burned_wf(state: LedgerState, from: Seq<char>, amount: int)
    requires
        state.wf(),
        0 <= amount <= state.balance_of(from),
    ensures
        state.burned(from, amount).wf(),
        state.burned(from, amount).balance_of(from) == state.balance_of(from) - amount,
        forall|other: Seq<char>|
            other != from ==> #[trigger] state.burned(from, amount).balance_of(other)
                == state.balance_of(other),
{
    lemma_amount_of_bounds(state.balances, from);
    lemma_with_amount(state.balances, from, state.balance_of(from) - amount);
}

/// A valid state stays valid when shares that the sender has move to
/// another holder, and the total supply stays.
pub proof fn lemma_moved_wf(state: LedgerState, from: Seq<char>, to: Seq<char>, amount: int)
    requires
        state.wf(),
        0 <= amount <= state.balance_of(from),
    ensures
        state.moved(from, to, amount).wf(),
        state.moved(from, to, amount).total_supply == state.total_supply,
        from == to ==> state.moved(from, to, amount).balance_of(from) == state.balance_of(from),
        from != to ==> state.moved(from, to, amount).balance_of(from) == state.balance_of(from)
            - amount,
        from != to ==> state.moved(from, to, amount).balance_of(to) == state.balance_of(to)
            + amount,
        forall|other: Seq<char>|
            other != from && other != to ==> #[trigger] state.moved(from, to, amount).balance_of(
                other,
            ) == state.balance_of(other),
{
    lemma_amount_of_bounds(state.balances, from);
    lemma_with_amount(state.balances, from, state.balance_of(from) - amount);
    let taken = state.with_balance(from, state.balance_of(from) - amount);
    lemma_amount_of_bounds(taken.balances, to);
    lemma_with_amount(taken.balances, to, taken.balance_of(to) + amount);
}

/// A valid state stays valid when an allowance is set to a value that is
/// not negative.
pub proof fn lemma_with_allowance_wf(
    state: LedgerState,
    owner: Seq<char>,
    spender: Seq<char>,
    amount: int,
)
    requires
        state.wf(),
        0 <= amount <= i128::MAX,
    ensures
        state.with_allowance(owner, spender, amount).wf(),
        state.with_allowance(owner, spender, amount).allowance_of(owner, spender) == amount,
{
    lemma_with_amount(state.allowances, (owner, spender), amount);
    let after = with_amount(state.allowances, (owner, spender), amount);
    let entry = Entry { key: (owner, spender), amount };
    assert forall|i: int| 0 <= i < after.len() implies 0 <= (#[trigger] after[i]).amount
        <= i128::MAX by {
        if i < state.allowances.len() && after[i] != entry {
            assert(after[i] == state.allowances[i]);
        }
    }
}

/// In a valid state the balances of all holders add up to the total supply.
pub proof fn lemma_balances_add_up(state: LedgerState)
    requires
        state.wf(),
    ensures
        total(state.balances) == state.total_supply,
{
}

/// In a valid state no balance is negative, and none exceeds the total
/// supply.
pub proof fn lemma_balance_bounds(state: LedgerState, who: Seq<char>)
    requires
        state.wf(),
    ensures
        0 <= state.balance_of(who) <= state.total_supply,
{
    lemma_amount_of_bounds(state.balances, who);
}

} // verus!
