use ic_dex::amount::Amount;
use ic_dex::ledger;
use ic_dex::ledger::{Ledger, StatsData, TxError};
use ic_dex::principal::PrincipalId;

fn p(b: u8) -> PrincipalId {
    PrincipalId::from_bytes(vec![b])
}

fn n(v: u64) -> Amount {
    Amount::from_u64(v)
}

fn value(a: &Amount) -> u128 {
    let mut v: u128 = 0;
    for d in a.digits().iter().rev() {
        v = (v << 32) | (*d as u128);
    }
    v
}

fn bal(l: &Ledger, id: u8) -> u128 {
    value(&ledger::balance_of(l, p(id)))
}

fn allowed(l: &Ledger, owner: u8, spender: u8) -> u128 {
    value(&ledger::allowance(l, p(owner), p(spender)))
}

fn installed() -> Ledger {
    let mut l = Ledger::default();
    ledger::init(&mut l, p(1));
    l
}

#[test]
fn default_stats_describe_icp() {
    let s = StatsData::default();
    assert_eq!(s.name, "ICP");
    assert_eq!(s.symbol, "ICP");
    assert_eq!(s.decimals, 0);
    assert_eq!(value(&s.total_supply), 100_000_000);
    assert_eq!(value(&s.fee), 0);
}

#[test]
fn init_gives_the_supply_to_the_installer() {
    let l = installed();
    assert_eq!(ledger::name(&l), "ICP");
    assert_eq!(ledger::symbol(&l), "ICP");
    assert_eq!(value(&ledger::total_supply(&l)), 100_000_000);
    assert_eq!(bal(&l, 1), 100_000_000);
    assert_eq!(bal(&l, 2), 0);
}

#[test]
fn transfer_moves_tokens() {
    let mut l = installed();
    let r = ledger::transfer(&mut l, p(1), p(2), n(300));
    assert!(matches!(r, Ok(ref a) if value(a) == 300));
    assert_eq!(bal(&l, 1), 100_000_000 - 300);
    assert_eq!(bal(&l, 2), 300);
    assert_eq!(bal(&l, 1) + bal(&l, 2), 100_000_000);
}

#[test]
fn transfer_to_oneself_changes_nothing() {
    let mut l = installed();
    let _ = ledger::transfer(&mut l, p(1), p(1), n(500));
    assert_eq!(bal(&l, 1), 100_000_000);
}

#[test]
fn transfer_of_everything_empties_the_sender() {
    let mut l = installed();
    let _ = ledger::transfer(&mut l, p(1), p(2), n(100_000_000));
    assert_eq!(bal(&l, 1), 0);
    assert_eq!(bal(&l, 2), 100_000_000);
}

#[test]
fn approve_sets_and_replaces_an_allowance() {
    let mut l = installed();
    let r = ledger::approve(&mut l, p(1), p(3), n(50));
    assert!(matches!(r, Ok(ref a) if value(a) == 50));
    assert_eq!(allowed(&l, 1, 3), 50);
    assert!(ledger::allowance_recorded(&l, &p(1), &p(3)));
    let _ = ledger::approve(&mut l, p(1), p(3), n(20));
    assert_eq!(allowed(&l, 1, 3), 20);
    assert_eq!(allowed(&l, 3, 1), 0);
}

#[test]
fn approving_zero_withdraws_the_allowance() {
    let mut l = installed();
    let _ = ledger::approve(&mut l, p(1), p(3), n(50));
    let _ = ledger::approve(&mut l, p(1), p(4), n(60));
    let _ = ledger::approve(&mut l, p(1), p(3), n(0));
    assert_eq!(allowed(&l, 1, 3), 0);
    assert!(!ledger::allowance_recorded(&l, &p(1), &p(3)));
    assert_eq!(allowed(&l, 1, 4), 60);
    let _ = ledger::approve(&mut l, p(1), p(4), n(0));
    assert!(!ledger::allowance_recorded(&l, &p(1), &p(4)));
    let r = ledger::approve(&mut l, p(5), p(6), n(0));
    assert!(matches!(r, Ok(ref a) if value(a) == 0));
    assert!(!ledger::allowance_recorded(&l, &p(5), &p(6)));
}

#[test]
fn transfer_from_needs_an_allowance() {
    let mut l = installed();
    let _ = ledger::approve(&mut l, p(1), p(3), n(50));
    let r = ledger::transfer_from(&mut l, p(3), p(1), p(2), n(51));
    assert!(matches!(r, Err(TxError::InsufficientAllowance)));
    assert_eq!(bal(&l, 1), 100_000_000);
    assert_eq!(allowed(&l, 1, 3), 50);
}

#[test]
fn transfer_from_needs_a_balance() {
    let mut l = installed();
    let _ = ledger::approve(&mut l, p(2), p(3), n(50));
    let r = ledger::transfer_from(&mut l, p(3), p(2), p(4), n(10));
    assert!(matches!(r, Err(TxError::InsufficientBalance)));
    assert_eq!(allowed(&l, 2, 3), 50);
    assert_eq!(bal(&l, 4), 0);
}

#[test]
fn transfer_from_moves_tokens_and_spends_the_allowance() {
    let mut l = installed();
    let _ = ledger::approve(&mut l, p(1), p(3), n(50));
    let r = ledger::transfer_from(&mut l, p(3), p(1), p(2), n(20));
    assert!(matches!(r, Ok(ref a) if value(a) == 20));
    assert_eq!(bal(&l, 1), 100_000_000 - 20);
    assert_eq!(bal(&l, 2), 20);
    assert_eq!(allowed(&l, 1, 3), 30);
    let _ = ledger::transfer_from(&mut l, p(3), p(1), p(2), n(30));
    assert_eq!(allowed(&l, 1, 3), 0);
    assert!(!ledger::allowance_recorded(&l, &p(1), &p(3)));
    assert_eq!(bal(&l, 2), 50);
    assert_eq!(bal(&l, 1) + bal(&l, 2), 100_000_000);
}

#[test]
fn allowance_error_comes_before_balance_error() {
    let mut l = installed();
    let r = ledger::transfer_from(&mut l, p(3), p(2), p(4), n(10));
    assert!(matches!(r, Err(TxError::InsufficientAllowance)));
}

#[test]
fn records_hold_their_parts() {
    let t = ledger::TxRecord { from: p(1), to: p(2), amount: n(3), fee: n(0) };
    assert!(t.from.same(&p(1)));
    assert_eq!(value(&t.amount), 3);
    let info = ledger::TokenInfo {
        metadata: ledger::Metadata {
            name: "ICP".to_string(),
            symbol: "ICP".to_string(),
            decimals: 8,
            total_supply: n(1),
            fee: n(0),
        },
    };
    assert_eq!(info.metadata.decimals, 8);
}

#[test]
fn metadata_and_total_survive_a_run_of_calls() {
    let mut l = installed();
    let _ = ledger::transfer(&mut l, p(1), p(2), n(1_000));
    let _ = ledger::approve(&mut l, p(2), p(3), n(400));
    let _ = ledger::transfer_from(&mut l, p(3), p(2), p(4), n(300));
    let _ = ledger::transfer_from(&mut l, p(3), p(2), p(4), n(300));
    let _ = ledger::approve(&mut l, p(2), p(3), n(0));
    assert_eq!(value(&ledger::total_supply(&l)), 100_000_000);
    assert_eq!(ledger::name(&l), "ICP");
    assert_eq!(ledger::symbol(&l), "ICP");
    assert_eq!(bal(&l, 1) + bal(&l, 2) + bal(&l, 3) + bal(&l, 4), 100_000_000);
    assert_eq!(bal(&l, 4), 300);
}
