use ic_dex::amount::Amount;
use ic_dex::dex;
use ic_dex::dex::exchange::{Balances, Exchange};
use ic_dex::dex::icrc2::{new_transfer_from, TxErr, ICRC2};
use ic_dex::dex::types::{Balance, TxError};
use ic_dex::dex::State;
use ic_dex::principal::PrincipalId;

fn p(b: u8) -> PrincipalId {
    PrincipalId::from_bytes(vec![b, 0, 1])
}

fn n(v: u64) -> Amount {
    Amount::from_u64(v)
}

fn value(a: &Amount) -> u128 {
    let mut v: u128 = 0;
    for d in a.digits().iter().rev() {
        v = (v << 32) | (*d as u128);
    }
    v
}

fn held(ex: &Exchange, owner: u8, token: u8) -> u128 {
    value(&ex.get_balance(p(owner), p(token)))
}

#[test]
fn nothing_recorded_reads_zero() {
    let ex = Exchange::default();
    assert_eq!(held(&ex, 1, 9), 0);
}

#[test]
fn add_balance_accumulates() {
    let mut ex = Exchange::default();
    ex.balances.add_balance(&p(1), &p(9), n(10));
    assert_eq!(held(&ex, 1, 9), 10);
    ex.balances.add_balance(&p(1), &p(9), n(5));
    assert_eq!(held(&ex, 1, 9), 15);
    ex.balances.add_balance(&p(1), &p(8), n(3));
    ex.balances.add_balance(&p(2), &p(9), n(4));
    assert_eq!(held(&ex, 1, 9), 15);
    assert_eq!(held(&ex, 1, 8), 3);
    assert_eq!(held(&ex, 2, 9), 4);
    assert_eq!(held(&ex, 2, 8), 0);
}

#[test]
fn add_balance_of_zero_creates_a_record() {
    let mut b = Balances::default();
    b.add_balance(&p(1), &p(9), n(0));
    let tokens = b.0.get(&p(1)).expect("owner record");
    assert!(tokens.get(&p(9)).is_some());
}

#[test]
fn subtract_balance_refuses_more_than_held() {
    let mut ex = Exchange::default();
    ex.balances.add_balance(&p(1), &p(9), n(10));
    assert!(!ex.balances.subtract_balance(&p(1), &p(9), &n(11)));
    assert_eq!(held(&ex, 1, 9), 10);
}

#[test]
fn subtract_balance_takes_part() {
    let mut ex = Exchange::default();
    ex.balances.add_balance(&p(1), &p(9), n(10));
    assert!(ex.balances.subtract_balance(&p(1), &p(9), &n(4)));
    assert_eq!(held(&ex, 1, 9), 6);
}

#[test]
fn subtract_balance_drops_an_emptied_record() {
    let mut ex = Exchange::default();
    ex.balances.add_balance(&p(1), &p(9), n(10));
    assert!(ex.balances.subtract_balance(&p(1), &p(9), &n(10)));
    assert_eq!(held(&ex, 1, 9), 0);
    let tokens = ex.balances.0.get(&p(1)).expect("owner record stays");
    assert!(tokens.get(&p(9)).is_none());
    assert!(tokens.is_empty());
}

#[test]
fn subtract_balance_for_unknown_owner_or_token() {
    let mut ex = Exchange::default();
    assert!(ex.balances.subtract_balance(&p(1), &p(9), &n(0)));
    assert!(!ex.balances.subtract_balance(&p(1), &p(9), &n(1)));
    ex.balances.add_balance(&p(1), &p(8), n(5));
    assert!(ex.balances.subtract_balance(&p(1), &p(9), &n(0)));
    assert!(!ex.balances.subtract_balance(&p(1), &p(9), &n(1)));
    assert_eq!(held(&ex, 1, 8), 5);
    assert!(ex.balances.0.get(&p(2)).is_none());
}

#[test]
fn debit_undoes_credit() {
    let mut ex = Exchange::default();
    ex.balances.add_balance(&p(1), &p(9), n(7));
    ex.balances.add_balance(&p(2), &p(9), n(3));
    ex.balances.add_balance(&p(1), &p(9), n(5));
    assert!(ex.balances.subtract_balance(&p(1), &p(9), &n(5)));
    assert_eq!(held(&ex, 1, 9), 7);
    assert_eq!(held(&ex, 2, 9), 3);
}

#[test]
fn deposit_credits_what_the_ledger_moved() {
    let mut s = State::default();
    let r = dex::deposit(&mut s, &p(1), &p(9), Ok(n(25)));
    assert!(matches!(r, Ok(ref a) if value(a) == 25));
    assert_eq!(value(&dex::get_balance(&s, p(1), p(9))), 25);
}

#[test]
fn deposit_refused_by_the_ledger_credits_nothing() {
    let mut s = State::default();
    let r = dex::deposit(&mut s, &p(1), &p(9), Err(TxError::InsufficientAllowance));
    assert!(matches!(r, Err(TxError::InsufficientAllowance)));
    assert_eq!(value(&dex::get_balance(&s, p(1), p(9))), 0);
}

#[test]
fn withdraw_debits_or_refuses() {
    let mut s = State::default();
    let _ = dex::deposit(&mut s, &p(1), &p(9), Ok(n(25)));
    assert!(dex::withdraw(&mut s, &p(1), &n(10), &p(9)).is_ok());
    assert_eq!(value(&dex::get_balance(&s, p(1), p(9))), 15);
    let r = dex::withdraw(&mut s, &p(1), &n(16), &p(9));
    assert_eq!(r, Err(TxError::InsufficientBalance));
    assert_eq!(value(&dex::get_balance(&s, p(1), p(9))), 15);
    let r = dex::withdraw(&mut s, &p(2), &n(1), &p(9));
    assert_eq!(r, Err(TxError::InsufficientBalance));
}

#[test]
fn clear_by_the_owner_empties_the_book() {
    let mut s = State::default();
    dex::init(&mut s, p(7), Some(p(8)));
    assert!(dex::is_owner(&s, &p(7)));
    assert!(!dex::is_owner(&s, &p(1)));
    let _ = dex::deposit(&mut s, &p(1), &p(9), Ok(n(25)));
    dex::clear(&mut s, &p(7));
    assert_eq!(value(&dex::get_balance(&s, p(1), p(9))), 0);
}

#[test]
fn nobody_owns_an_uninstalled_exchange() {
    let s = State::default();
    assert!(!dex::is_owner(&s, &p(7)));
}

#[test]
fn transfer_from_record_keeps_its_fields() {
    let t = new_transfer_from(p(1), p(2), n(30), Some(n(1)), Some("memo".to_string()), None);
    assert!(t.from.same(&p(1)));
    assert!(t.to.same(&p(2)));
    assert_eq!(value(&t.amount), 30);
    assert_eq!(value(t.fee.as_ref().unwrap()), 1);
    assert_eq!(t.memo.as_deref(), Some("memo"));
    assert!(t.created_at_time.is_none());
}

#[test]
fn icrc2_handle_names_its_canister() {
    let t = ICRC2::new(p(5));
    assert!(t.principal().same(&p(5)));
    assert_eq!(TxErr::Other, TxErr::Other);
}

#[test]
fn balance_record_holds_its_parts() {
    let b = Balance { owner: p(1), token: p(2), amount: n(3) };
    assert!(b.owner.same(&p(1)));
    assert!(b.token.same(&p(2)));
    assert_eq!(value(&b.amount), 3);
}

#[test]
fn successive_withdrawals_never_exceed_the_balance() {
    let mut s = State::default();
    let _ = dex::deposit(&mut s, &p(1), &p(9), Ok(n(25)));
    let mut taken: u128 = 0;
    for _ in 0..3 {
        if dex::withdraw(&mut s, &p(1), &n(10), &p(9)).is_ok() {
            taken += 10;
        }
    }
    assert_eq!(taken, 20);
    assert_eq!(taken + value(&dex::get_balance(&s, p(1), p(9))), 25);
}
