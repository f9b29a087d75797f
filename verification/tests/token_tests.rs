use state_ledger::account::AccountId;
use state_ledger::token::Approval;
use state_ledger::token::Erc20;
use state_ledger::token::Error;
use state_ledger::token::TokenEvent;
use state_ledger::token::Transfer;

fn alice() -> AccountId {
    AccountId(1)
}

fn bob() -> AccountId {
    AccountId(2)
}

fn carol() -> AccountId {
    AccountId(3)
}

fn test_token(initial_supply: u128) -> Erc20 {
    Erc20::new(
        "TestToken".to_string(),
        "TST".to_string(),
        18,
        initial_supply,
        alice(),
    )
}

#[test]
fn erc20_new_works() {
    let erc20 = test_token(1000);
    assert_eq!(erc20.total_supply(), 1000);
    assert_eq!(erc20.name(), "TestToken");
    assert_eq!(erc20.symbol(), "TST");
    assert_eq!(erc20.decimals(), 18);
}

#[test]
fn transfer_works() {
    let mut erc20 = test_token(1000);
    assert!(erc20.transfer(alice(), bob(), 100).is_ok());
    assert_eq!(erc20.balance_of(alice()), 900);
    assert_eq!(erc20.balance_of(bob()), 100);
}

#[test]
fn approve_works() {
    let mut erc20 = test_token(1000);
    assert!(erc20.approve(alice(), bob(), 100).is_ok());
    assert_eq!(erc20.allowance(alice(), bob()), 100);
}

#[test]
fn transfer_fails_iff_balance_short() {
    let mut erc20 = test_token(1000);
    assert_eq!(
        erc20.transfer(alice(), bob(), 1001),
        Err(Error::InsufficientBalance)
    );
    assert_eq!(erc20.balance_of(alice()), 1000);
    assert_eq!(erc20.balance_of(bob()), 0);
    assert_eq!(
        erc20.transfer(bob(), alice(), 1),
        Err(Error::InsufficientBalance)
    );
    // the whole balance may move: the guard is strict shortfall only
    assert!(erc20.transfer(alice(), bob(), 1000).is_ok());
    assert_eq!(erc20.balance_of(alice()), 0);
    assert_eq!(erc20.balance_of(bob()), 1000);
}

#[test]
fn self_transfer_nets_to_same_balance() {
    let mut erc20 = test_token(1000);
    assert!(erc20.transfer(alice(), alice(), 400).is_ok());
    assert_eq!(erc20.balance_of(alice()), 1000);
    assert_eq!(erc20.total_supply(), 1000);
}

#[test]
fn approve_overwrites_previous_value() {
    let mut erc20 = test_token(1000);
    assert!(erc20.approve(alice(), bob(), 100).is_ok());
    assert!(erc20.approve(alice(), bob(), 40).is_ok());
    // approvals are not additive: the most recent call wins
    assert_eq!(erc20.allowance(alice(), bob()), 40);
    assert!(erc20.approve(alice(), bob(), 0).is_ok());
    assert_eq!(erc20.allowance(alice(), bob()), 0);
}

#[test]
fn transfer_from_spends_allowance_exactly() {
    let mut erc20 = test_token(1000);
    assert!(erc20.approve(alice(), bob(), 50).is_ok());
    assert!(erc20.transfer_from(bob(), alice(), carol(), 30).is_ok());
    assert_eq!(erc20.allowance(alice(), bob()), 20);
    assert_eq!(erc20.balance_of(alice()), 970);
    assert_eq!(erc20.balance_of(carol()), 30);
    assert_eq!(erc20.total_supply(), 1000);
}

#[test]
fn transfer_from_without_allowance_fails() {
    let mut erc20 = test_token(1000);
    assert_eq!(
        erc20.transfer_from(bob(), alice(), carol(), 1),
        Err(Error::InsufficientAllowance)
    );
    assert_eq!(erc20.balance_of(alice()), 1000);
}

#[test]
fn transfer_from_with_short_balance_fails_and_keeps_allowance() {
    let mut erc20 = test_token(1000);
    // bob may spend from alice far more than alice holds
    assert!(erc20.approve(alice(), bob(), 5000).is_ok());
    assert_eq!(
        erc20.transfer_from(bob(), alice(), carol(), 2000),
        Err(Error::InsufficientBalance)
    );
    // nothing was written: neither the allowance nor any balance moved
    assert_eq!(erc20.allowance(alice(), bob()), 5000);
    assert_eq!(erc20.balance_of(alice()), 1000);
    assert_eq!(erc20.balance_of(carol()), 0);
}

#[test]
fn mint_is_owner_only() {
    let mut erc20 = test_token(1000);
    assert_eq!(erc20.mint(bob(), bob(), 10), Err(Error::Unauthorized));
    assert_eq!(erc20.total_supply(), 1000);
    assert_eq!(erc20.balance_of(bob()), 0);
    assert!(erc20.mint(alice(), bob(), 10).is_ok());
    assert_eq!(erc20.total_supply(), 1010);
    assert_eq!(erc20.balance_of(bob()), 10);
}

#[test]
fn mint_overflow_is_rejected() {
    let mut erc20 = test_token(u128::MAX);
    assert_eq!(erc20.mint(alice(), bob(), 1), Err(Error::Overflow));
    assert_eq!(erc20.total_supply(), u128::MAX);
    assert_eq!(erc20.balance_of(bob()), 0);
}

#[test]
fn burn_adjusts_supply_exactly() {
    let mut erc20 = test_token(1000);
    assert!(erc20.burn(alice(), 300).is_ok());
    assert_eq!(erc20.total_supply(), 700);
    assert_eq!(erc20.balance_of(alice()), 700);
    assert_eq!(
        erc20.burn(alice(), 701),
        Err(Error::InsufficientBalance)
    );
    assert_eq!(erc20.total_supply(), 700);
    assert_eq!(erc20.balance_of(alice()), 700);
}

#[test]
fn token_scenario_end_to_end() {
    let mut erc20 = test_token(1000);
    assert!(erc20.transfer(alice(), bob(), 100).is_ok());
    assert_eq!(erc20.balance_of(alice()), 900);
    assert_eq!(erc20.balance_of(bob()), 100);
    assert!(erc20.approve(alice(), bob(), 50).is_ok());
    assert_eq!(erc20.allowance(alice(), bob()), 50);
    assert!(erc20.transfer_from(bob(), alice(), carol(), 30).is_ok());
    assert_eq!(erc20.allowance(alice(), bob()), 20);
    assert_eq!(erc20.balance_of(carol()), 30);
    assert_eq!(erc20.balance_of(alice()), 870);
}

#[test]
fn token_events_record_mutations() {
    let mut erc20 = test_token(1000);
    assert!(erc20.transfer(alice(), bob(), 100).is_ok());
    assert!(erc20.approve(alice(), bob(), 50).is_ok());
    assert!(erc20.burn(alice(), 1).is_ok());
    let events = erc20.events();
    assert_eq!(events.len(), 4);
    assert_eq!(
        events[0],
        TokenEvent::Transfer(Transfer {
            from: None,
            to: Some(alice()),
            value: 1000,
        })
    );
    assert_eq!(
        events[1],
        TokenEvent::Transfer(Transfer {
            from: Some(alice()),
            to: Some(bob()),
            value: 100,
        })
    );
    assert_eq!(
        events[2],
        TokenEvent::Approval(Approval {
            owner: alice(),
            spender: bob(),
            value: 50,
        })
    );
    assert_eq!(
        events[3],
        TokenEvent::Transfer(Transfer {
            from: Some(alice()),
            to: None,
            value: 1,
        })
    );
}

#[test]
fn failed_operations_emit_no_event() {
    let mut erc20 = test_token(1000);
    let creation_events = erc20.events().len();
    assert!(erc20.transfer(alice(), bob(), 5000).is_err());
    assert!(erc20.mint(bob(), bob(), 1).is_err());
    assert!(erc20.burn(bob(), 1).is_err());
    assert_eq!(erc20.events().len(), creation_events);
}

#[test]
fn token_owner_is_the_creator() {
    let erc20 = test_token(1);
    assert_eq!(erc20.owner(), alice());
}
