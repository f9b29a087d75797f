use state_ledger::account::AccountId;
use state_ledger::counter::Counter;
use state_ledger::counter::CounterEvent;
use state_ledger::counter::Decremented;
use state_ledger::counter::Error;
use state_ledger::counter::Incremented;
use state_ledger::counter::Reset;

fn owner() -> AccountId {
    AccountId(1)
}

fn other() -> AccountId {
    AccountId(2)
}

#[test]
fn default_works() {
    let counter = Counter::default(owner());
    assert_eq!(counter.get(), 0);
}

#[test]
fn lib_new_works() {
    let counter = Counter::new(42, owner());
    assert_eq!(counter.get(), 42);
}

#[test]
fn increment_works() {
    let mut counter = Counter::new(10, owner());
    assert!(counter.increment(owner()).is_ok());
    assert_eq!(counter.get(), 11);
}

#[test]
fn decrement_works() {
    let mut counter = Counter::new(10, owner());
    assert!(counter.decrement(owner()).is_ok());
    assert_eq!(counter.get(), 9);
}

#[test]
fn reset_works() {
    let mut counter = Counter::new(42, owner());
    assert!(counter.reset(owner()).is_ok());
    assert_eq!(counter.get(), 0);
}

#[test]
fn underflow_fails() {
    let mut counter = Counter::new(i32::MIN, owner());
    assert_eq!(counter.decrement(owner()), Err(Error::Underflow));
}

#[test]
fn overflow_fails() {
    let mut counter = Counter::new(i32::MAX, owner());
    assert_eq!(counter.increment(owner()), Err(Error::Overflow));
}

#[test]
fn overflow_leaves_counter_at_max() {
    let mut counter = Counter::new(i32::MAX, owner());
    assert_eq!(counter.increment(owner()), Err(Error::Overflow));
    assert_eq!(counter.get(), i32::MAX);
    assert_eq!(counter.get_user_increments(owner()), 0);
    assert!(counter.events().is_empty());
}

#[test]
fn underflow_leaves_counter_at_min() {
    let mut counter = Counter::new(i32::MIN, owner());
    assert_eq!(counter.decrement(owner()), Err(Error::Underflow));
    assert_eq!(counter.get(), i32::MIN);
    assert!(counter.events().is_empty());
}

#[test]
fn reset_by_non_owner_fails_and_keeps_value() {
    let mut counter = Counter::new(0, owner());
    assert_eq!(counter.reset(other()), Err(Error::Unauthorized));
    assert_eq!(counter.get(), 0);
    assert!(counter.events().is_empty());
}

#[test]
fn user_increments_are_tallied_per_caller() {
    let mut counter = Counter::new(0, owner());
    assert!(counter.increment(owner()).is_ok());
    assert!(counter.increment(other()).is_ok());
    assert!(counter.increment(other()).is_ok());
    assert!(counter.decrement(other()).is_ok());
    assert_eq!(counter.get(), 2);
    assert_eq!(counter.get_user_increments(owner()), 1);
    assert_eq!(counter.get_user_increments(other()), 2);
    assert_eq!(counter.get_user_increments(AccountId(9)), 0);
}

#[test]
fn counter_events_record_mutations() {
    let mut counter = Counter::new(5, owner());
    assert!(counter.increment(other()).is_ok());
    assert!(counter.decrement(owner()).is_ok());
    assert!(counter.reset(owner()).is_ok());
    let events = counter.events();
    assert_eq!(events.len(), 3);
    assert_eq!(
        events[0],
        CounterEvent::Incremented(Incremented {
            by: other(),
            value: 6,
        })
    );
    assert_eq!(
        events[1],
        CounterEvent::Decremented(Decremented {
            by: owner(),
            value: 5,
        })
    );
    assert_eq!(events[2], CounterEvent::Reset(Reset { by: owner() }));
}

#[test]
fn counter_owner_is_the_creator() {
    let counter = Counter::new(7, owner());
    assert_eq!(counter.get_owner(), owner());
}
