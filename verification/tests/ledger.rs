use liquidity_pool::identity::{is_native_xlm, Identity};
use liquidity_pool::arith::ArithmeticError;
use liquidity_pool::book::Book;
use liquidity_pool::error::PoolError;
use liquidity_pool::ledger::{Grant, Holding, Ledger};

fn address(text: &str) -> Identity {
    Identity::from_str(text)
}

fn sum_of_balances(ledger: &Ledger) -> i128 {
    ledger.holdings().iter().map(|holding| holding.amount).sum()
}

#[test]
fn addresses_are_equal_by_their_text() {
    assert_eq!(address("alice"), address("alice"));
    assert_ne!(address("alice"), address("bob"));
    assert!(address("alice").same(&Identity::new(String::from("alice"))));
    assert!(!address("alice").same(&address("alice ")));
    assert_eq!(address("alice").as_str(), "alice");
    assert_eq!(address("alice").clone(), address("alice"));
}

#[test]
fn the_native_asset_has_two_spellings() {
    assert!(is_native_xlm(&address("native")));
    assert!(is_native_xlm(&address(
        "CDLZFC3SYJYDZT7K67VZ75HPJVIEUVNIXF47ZG2FB2RMQQVU2HHGCYSC"
    )));
    assert!(!is_native_xlm(&address("Native")));
    assert!(!is_native_xlm(&address("")));
    assert!(!is_native_xlm(&address(
        "CDLZFC3SYJYDZT7K67VZ75HPJVIEUVNIXF47ZG2FB2RMQQVU2HHGCYSD"
    )));
}

#[test]
fn a_book_stands_at_zero_until_written() {
    let mut book: Book<Identity> = Book::new();
    assert_eq!(book.len(), 0);
    assert_eq!(book.get(&address("alice")), 0);
    assert!(!book.contains(&address("alice")));

    book.set(address("alice"), 5);
    book.set(address("bob"), 7);
    book.set(address("alice"), 6);
    assert_eq!(book.len(), 2);
    assert_eq!(book.get(&address("alice")), 6);
    assert_eq!(book.get(&address("bob")), 7);
    assert_eq!(book.get(&address("carol")), 0);
    assert_eq!(book.key_at(0), &address("alice"));
    assert_eq!(book.amount_at(1), 7);
    assert_eq!(book.checked_total(), Some(13));
    assert!(book.all_within(6, 7));
    assert!(!book.all_within(7, 7));

    assert!(!book.insert_new(address("bob"), 1));
    assert_eq!(book.get(&address("bob")), 7);
    assert!(book.insert_new(address("carol"), -1));
    assert_eq!(book.checked_total(), None);
}

#[test]
fn a_book_total_that_does_not_fit_is_none() {
    let mut book: Book<Identity> = Book::new();
    book.set(address("alice"), i128::MAX);
    assert_eq!(book.checked_total(), Some(i128::MAX));
    book.set(address("bob"), 1);
    assert_eq!(book.checked_total(), None);
}

#[test]
fn mint_raises_balance_and_supply() {
    let mut ledger = Ledger::new();
    assert_eq!(ledger.total_supply(), 0);
    assert_eq!(ledger.mint(&address("alice"), 1000), Ok(()));
    assert_eq!(ledger.mint(&address("bob"), 200), Ok(()));
    assert_eq!(ledger.mint(&address("alice"), 5), Ok(()));
    assert_eq!(ledger.balance(&address("alice")), 1005);
    assert_eq!(ledger.balance(&address("bob")), 200);
    assert_eq!(ledger.balance(&address("carol")), 0);
    assert_eq!(ledger.total_supply(), 1205);
    assert_eq!(sum_of_balances(&ledger), 1205);
}

#[test]
fn mint_refuses_negative_amounts_and_overflow() {
    let mut ledger = Ledger::new();
    assert_eq!(ledger.mint(&address("alice"), -1), Err(PoolError::NegativeAmount));
    assert_eq!(ledger.mint(&address("alice"), i128::MAX), Ok(()));
    assert_eq!(
        ledger.mint(&address("bob"), 1),
        Err(PoolError::Arithmetic(ArithmeticError::Overflow))
    );
    assert_eq!(ledger.balance(&address("bob")), 0);
    assert_eq!(ledger.total_supply(), i128::MAX);
}

#[test]
fn transfer_moves_shares_and_keeps_the_supply() {
    let mut ledger = Ledger::new();
    ledger.mint(&address("alice"), 1000).unwrap();
    assert_eq!(ledger.transfer(&address("alice"), &address("bob"), 600), Ok(()));
    assert_eq!(ledger.balance(&address("alice")), 400);
    assert_eq!(ledger.balance(&address("bob")), 600);
    assert_eq!(ledger.total_supply(), 1000);
    assert_eq!(sum_of_balances(&ledger), 1000);

    assert_eq!(ledger.transfer(&address("alice"), &address("bob"), 0), Ok(()));
    assert_eq!(ledger.balance(&address("alice")), 400);
}

#[test]
fn transfer_to_oneself_changes_no_balance() {
    let mut ledger = Ledger::new();
    ledger.mint(&address("alice"), 1000).unwrap();
    assert_eq!(ledger.transfer(&address("alice"), &address("alice"), 300), Ok(()));
    assert_eq!(ledger.balance(&address("alice")), 1000);
    assert_eq!(ledger.total_supply(), 1000);
    assert_eq!(sum_of_balances(&ledger), 1000);
}

#[test]
fn transfer_refuses_what_the_sender_has_not() {
    let mut ledger = Ledger::new();
    ledger.mint(&address("alice"), 100_000).unwrap();
    assert_eq!(
        ledger.transfer(&address("alice"), &address("bob"), 100_001),
        Err(PoolError::InsufficientBalance)
    );
    assert_eq!(
        ledger.transfer(&address("alice"), &address("bob"), -1),
        Err(PoolError::NegativeAmount)
    );
    assert_eq!(ledger.balance(&address("alice")), 100_000);
    assert_eq!(ledger.balance(&address("bob")), 0);
}

#[test]
fn approve_sets_the_allowance_in_place_of_the_old() {
    let mut ledger = Ledger::new();
    assert_eq!(ledger.allowance(&address("alice"), &address("carol")), 0);
    assert_eq!(ledger.approve(&address("alice"), &address("carol"), 500), Ok(()));
    assert_eq!(ledger.allowance(&address("alice"), &address("carol")), 500);
    assert_eq!(ledger.allowance(&address("carol"), &address("alice")), 0);
    assert_eq!(ledger.approve(&address("alice"), &address("carol"), 200), Ok(()));
    assert_eq!(ledger.allowance(&address("alice"), &address("carol")), 200);
    assert_eq!(ledger.approve(&address("alice"), &address("carol"), 0), Ok(()));
    assert_eq!(ledger.allowance(&address("alice"), &address("carol")), 0);
    assert_eq!(
        ledger.approve(&address("alice"), &address("carol"), -1),
        Err(PoolError::NegativeAmount)
    );
}

#[test]
fn transfer_from_spends_the_allowance() {
    let mut ledger = Ledger::new();
    ledger.mint(&address("alice"), 1000).unwrap();
    ledger.approve(&address("alice"), &address("carol"), 500).unwrap();
    assert_eq!(
        ledger.transfer_from(&address("carol"), &address("alice"), &address("bob"), 400),
        Ok(())
    );
    assert_eq!(ledger.balance(&address("alice")), 600);
    assert_eq!(ledger.balance(&address("bob")), 400);
    assert_eq!(ledger.allowance(&address("alice"), &address("carol")), 100);
    assert_eq!(ledger.total_supply(), 1000);
}

#[test]
fn transfer_from_refuses_beyond_allowance_or_balance() {
    let mut ledger = Ledger::new();
    ledger.mint(&address("alice"), 100).unwrap();
    ledger.approve(&address("alice"), &address("carol"), 100).unwrap();
    assert_eq!(
        ledger.transfer_from(&address("carol"), &address("alice"), &address("bob"), 101),
        Err(PoolError::InsufficientAllowance)
    );
    ledger.approve(&address("alice"), &address("carol"), 200).unwrap();
    assert_eq!(
        ledger.transfer_from(&address("carol"), &address("alice"), &address("bob"), 101),
        Err(PoolError::InsufficientBalance)
    );
    assert_eq!(
        ledger.transfer_from(&address("carol"), &address("alice"), &address("bob"), -1),
        Err(PoolError::NegativeAmount)
    );
    assert_eq!(ledger.balance(&address("alice")), 100);
    assert_eq!(ledger.allowance(&address("alice"), &address("carol")), 200);
}

#[test]
fn burn_lowers_balance_and_supply() {
    let mut ledger = Ledger::new();
    ledger.mint(&address("alice"), 1000).unwrap();
    ledger.mint(&address("bob"), 1000).unwrap();
    assert_eq!(ledger.burn(&address("alice"), 500), Ok(()));
    assert_eq!(ledger.balance(&address("alice")), 500);
    assert_eq!(ledger.total_supply(), 1500);
    assert_eq!(sum_of_balances(&ledger), 1500);
    assert_eq!(ledger.burn(&address("alice"), 501), Err(PoolError::InsufficientBalance));
    assert_eq!(ledger.burn(&address("alice"), -1), Err(PoolError::NegativeAmount));
    assert_eq!(ledger.total_supply(), 1500);
}

#[test]
fn burn_from_spends_the_allowance() {
    let mut ledger = Ledger::new();
    ledger.mint(&address("alice"), 1000).unwrap();
    ledger.approve(&address("alice"), &address("carol"), 500).unwrap();
    assert_eq!(ledger.burn_from(&address("carol"), &address("alice"), 500), Ok(()));
    assert_eq!(ledger.balance(&address("alice")), 500);
    assert_eq!(ledger.allowance(&address("alice"), &address("carol")), 0);
    assert_eq!(ledger.total_supply(), 500);
    assert_eq!(
        ledger.burn_from(&address("carol"), &address("alice"), 1),
        Err(PoolError::InsufficientAllowance)
    );
    ledger.approve(&address("alice"), &address("carol"), 600).unwrap();
    assert_eq!(
        ledger.burn_from(&address("carol"), &address("alice"), 501),
        Err(PoolError::InsufficientBalance)
    );
    assert_eq!(
        ledger.burn_from(&address("carol"), &address("alice"), -1),
        Err(PoolError::NegativeAmount)
    );
}

#[test]
fn a_ledger_comes_back_from_what_it_holds() {
    let mut ledger = Ledger::new();
    ledger.mint(&address("alice"), 1000).unwrap();
    ledger.mint(&address("bob"), 250).unwrap();
    ledger.approve(&address("alice"), &address("carol"), 40).unwrap();

    let holdings = ledger.holdings();
    let grants = ledger.grants();
    assert_eq!(holdings.len(), 2);
    assert_eq!(holdings[0].owner, address("alice"));
    assert_eq!(holdings[0].amount, 1000);
    assert_eq!(holdings[1].owner, address("bob"));
    assert_eq!(holdings[1].amount, 250);
    assert_eq!(grants.len(), 1);
    assert_eq!(grants[0].owner, address("alice"));
    assert_eq!(grants[0].spender, address("carol"));
    assert_eq!(grants[0].amount, 40);

    let restored = Ledger::restore(&holdings, &grants, 1250).unwrap();
    assert_eq!(restored.balance(&address("alice")), 1000);
    assert_eq!(restored.balance(&address("bob")), 250);
    assert_eq!(restored.allowance(&address("alice"), &address("carol")), 40);
    assert_eq!(restored.total_supply(), 1250);
}

#[test]
fn a_ledger_that_does_not_add_up_does_not_come_back() {
    let holding = |owner: &str, amount: i128| Holding { owner: address(owner), amount };
    let grant = |owner: &str, spender: &str, amount: i128| Grant {
        owner: address(owner),
        spender: address(spender),
        amount,
    };
    let none: Vec<Grant> = Vec::new();

    assert!(Ledger::restore(&vec![holding("alice", 10), holding("bob", 5)], &none, 15).is_some());
    assert!(Ledger::restore(&vec![holding("alice", 10), holding("bob", 5)], &none, 16).is_none());
    assert!(Ledger::restore(&vec![holding("alice", 10), holding("alice", 5)], &none, 15).is_none());
    assert!(Ledger::restore(&vec![holding("alice", 20), holding("bob", -5)], &none, 15).is_none());
    assert!(
        Ledger::restore(&vec![holding("alice", i128::MAX), holding("bob", 1)], &none, 0).is_none()
    );
    assert!(Ledger::restore(
        &vec![holding("alice", 15)],
        &vec![grant("alice", "bob", 1), grant("alice", "bob", 2)],
        15
    )
    .is_none());
    assert!(Ledger::restore(&vec![holding("alice", 15)], &vec![grant("alice", "bob", -1)], 15)
        .is_none());
    assert!(Ledger::restore(
        &vec![holding("alice", 15)],
        &vec![grant("alice", "bob", 1), grant("bob", "alice", 2)],
        15
    )
    .is_some());
}
