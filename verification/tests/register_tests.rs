use state_ledger::account::AccountId;
use state_ledger::register::Counter;
use state_ledger::register::ErrorCode;
use state_ledger::register::decrement;
use state_ledger::register::increment;
use state_ledger::register::initialize;
use state_ledger::register::reset;

#[test]
fn test_counter_initialization() {
    let counter = Counter {
        count: 0,
        authority: AccountId(11),
    };
    assert_eq!(counter.count, 0);
}

#[test]
fn counter_test_test_increment() {
    let mut counter = Counter {
        count: 0,
        authority: AccountId(11),
    };
    increment(&mut counter).unwrap();
    assert_eq!(counter.count, 1);
}

#[test]
fn counter_test_test_decrement() {
    let mut counter = Counter {
        count: 10,
        authority: AccountId(11),
    };
    decrement(&mut counter).unwrap();
    assert_eq!(counter.count, 9);
}

#[test]
#[should_panic]
fn test_underflow() {
    let mut counter = Counter {
        count: 0,
        authority: AccountId(11),
    };
    decrement(&mut counter).unwrap();
}

#[test]
fn test_set_value() {
    let mut counter = Counter {
        count: 5,
        authority: AccountId(11),
    };
    state_ledger::register::set(&mut counter, AccountId(11), 100).unwrap();
    assert_eq!(counter.count, 100);
}

#[test]
fn counter_test_test_reset() {
    let mut counter = Counter {
        count: 999,
        authority: AccountId(11),
    };
    reset(&mut counter, AccountId(11)).unwrap();
    assert_eq!(counter.count, 0);
}

#[test]
fn initialize_sets_authority_and_zero() {
    let counter = initialize(AccountId(5));
    assert_eq!(counter.count, 0);
    assert_eq!(counter.authority, AccountId(5));
}

#[test]
fn increment_overflow_is_rejected() {
    let mut counter = Counter {
        count: u64::MAX,
        authority: AccountId(11),
    };
    assert_eq!(increment(&mut counter), Err(ErrorCode::Overflow));
    assert_eq!(counter.count, u64::MAX);
}

#[test]
fn decrement_underflow_is_rejected() {
    let mut counter = Counter {
        count: 0,
        authority: AccountId(11),
    };
    assert_eq!(decrement(&mut counter), Err(ErrorCode::Underflow));
    assert_eq!(counter.count, 0);
}

#[test]
fn set_requires_the_authority() {
    let mut counter = Counter {
        count: 5,
        authority: AccountId(11),
    };
    assert_eq!(
        state_ledger::register::set(&mut counter, AccountId(12), 100),
        Err(ErrorCode::Unauthorized)
    );
    assert_eq!(counter.count, 5);
}

#[test]
fn reset_requires_the_authority() {
    let mut counter = Counter {
        count: 5,
        authority: AccountId(11),
    };
    assert_eq!(
        reset(&mut counter, AccountId(12)),
        Err(ErrorCode::Unauthorized)
    );
    assert_eq!(counter.count, 5);
}
