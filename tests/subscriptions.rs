use witnet_rad::subscriptions::{SubscriptionError, SubscriptionId, Subscriptions, MAX_SUBSCRIPTIONS};

#[test]
fn subscriptions_take_the_first_free_slot() {
    let mut subs = Subscriptions::new();
    assert_eq!(subs.subscribe(100), Ok(0));
    assert_eq!(subs.subscribe(101), Ok(1));
    assert_eq!(subs.unsubscribe(&SubscriptionId::Number(0)), Ok(()));
    assert_eq!(subs.subscribe(102), Ok(0));
    assert_eq!(subs.slots[0], Some(102));
}

#[test]
fn subscriptions_are_limited() {
    let mut subs = Subscriptions::new();
    for i in 0..MAX_SUBSCRIPTIONS {
        assert_eq!(subs.subscribe(i as u64), Ok(i));
    }
    assert_eq!(subs.subscribe(99), Err(SubscriptionError::LimitReached));
}

#[test]
fn unsubscribe_needs_a_known_number() {
    let mut subs = Subscriptions::new();
    assert_eq!(
        subs.unsubscribe(&SubscriptionId::String("x".to_string())),
        Err(SubscriptionError::IdNotANumber)
    );
    assert_eq!(subs.unsubscribe(&SubscriptionId::Number(10)), Err(SubscriptionError::IdNotFound));
    assert_eq!(subs.unsubscribe(&SubscriptionId::Number(9)), Ok(()));
}
