use ic_dex::amount::Amount;
use ic_dex::backend;
use ic_dex::backend::exchange::Exchange;
use ic_dex::backend::DepositErr;
use ic_dex::principal::PrincipalId;
use ic_dex::publisher::{subscribe, Subscriber, SubscriberStore};

fn p(b: u8) -> PrincipalId {
    PrincipalId::from_bytes(vec![b, b])
}

fn value(a: &Amount) -> u128 {
    let mut v: u128 = 0;
    for d in a.digits().iter().rev() {
        v = (v << 32) | (*d as u128);
    }
    v
}

#[test]
fn backend_deposit_answers_zero() {
    let r = backend::deposit(&p(9));
    assert!(matches!(r, Ok(ref a) if value(a) == 0));
}

#[test]
fn backend_deposit_draws_allowance_less_fee() {
    let a = backend::deposit_available(&Amount::from_u64(1000), &Amount::from_u64(10));
    assert_eq!(value(&a), 990);
    let a = backend::deposit_available(&Amount::from_u64(10), &Amount::from_u64(10));
    assert_eq!(value(&a), 0);
}

#[test]
fn backend_deposit_settles_on_the_transfer() {
    let ok: Result<(), ()> = Ok(());
    let r = backend::settle_deposit(Amount::from_u64(990), ok);
    assert!(matches!(r, Ok(ref a) if value(a) == 990));
    let failed: Result<(), String> = Err("rejected".to_string());
    let r = backend::settle_deposit(Amount::from_u64(990), failed);
    assert!(matches!(r, Err(DepositErr::TransferFailure)));
}

#[test]
fn backend_balance_of_the_caller() {
    let mut ex = Exchange::default();
    assert_eq!(value(&ex.get_balance(p(1), p(9))), 0);
    ex.balances.add_balance(&p(1), &p(9), Amount::from_u64(12));
    assert_eq!(value(&ex.get_balance(p(1), p(9))), 12);
    assert_eq!(value(&ex.get_balance(p(2), p(9))), 0);
    let s = backend::State::default();
    assert_eq!(value(&s.exchange().get_balance(p(1), p(9))), 0);
}

#[test]
fn subscribe_records_the_latest_topic() {
    let mut store = SubscriberStore::new();
    subscribe(&mut store, p(1), Subscriber { topic: "prices".to_string() });
    subscribe(&mut store, p(2), Subscriber { topic: "trades".to_string() });
    assert_eq!(store.get(&p(1)).unwrap().topic, "prices");
    subscribe(&mut store, p(1), Subscriber { topic: "news".to_string() });
    assert_eq!(store.get(&p(1)).unwrap().topic, "news");
    assert_eq!(store.get(&p(2)).unwrap().topic, "trades");
    assert!(store.get(&p(3)).is_none());
}

#[test]
fn principal_map_remove_and_clear() {
    let mut store = SubscriberStore::new();
    assert!(store.is_empty());
    subscribe(&mut store, p(1), Subscriber { topic: "a".to_string() });
    subscribe(&mut store, p(2), Subscriber { topic: "b".to_string() });
    subscribe(&mut store, p(3), Subscriber { topic: "c".to_string() });
    let removed = store.remove(&p(2));
    assert_eq!(removed.unwrap().topic, "b");
    assert!(store.remove(&p(2)).is_none());
    assert_eq!(store.get(&p(1)).unwrap().topic, "a");
    assert_eq!(store.get(&p(3)).unwrap().topic, "c");
    store.clear();
    assert!(store.is_empty());
    assert!(store.get(&p(1)).is_none());
}
