//! The exchange canister: users deposit tokens, which the exchange draws
//! from the token ledger into its own account and credits to them, and
//! withdraw them again, which debits them before the ledger is asked to pay
//! out.
//!
//! The canister's state is a [`State`]; each endpoint is a function that takes
//! it, the calling principal and, where the endpoint waits on the token
//! ledger, the ledger's answer.
use vstd::prelude::*;
use crate::amount::Amount;
use crate::principal::PrincipalId;

pub mod exchange;
pub mod icrc2;
pub mod types;
pub mod utils;

use exchange::{balance_in, credited, debited, BookView, Exchange};
use types::{DepositReceipt, TxError};

verus! {

/// The answer of the token ledger to a transfer.
pub type TxReceipt = Result<Amount, TxError>;

/// The bytes of an optional principal.
pub open spec fn principal_opt(p: Option<PrincipalId>) -> Option<Seq<u8>> {
    match p {
        Some(q) => Some(q@),
        None => None,
    }
}

/// The state of the exchange canister.
pub struct State {
    owner: Option<PrincipalId>,
    ledger: Option<PrincipalId>,
    exchange: Exchange,
}

impl State {
    /// The principal that installed the canister, once it is installed.
    pub closed spec fn owner_id(&self) -> Option<Seq<u8>> {
        principal_opt(self.owner)
    }

    /// The ledger canister given at installation, if one was.
    pub closed spec fn ledger_id(&self) -> Option<Seq<u8>> {
        principal_opt(self.ledger)
    }

    /// The balance book.
    pub closed spec fn book(&self) -> BookView {
        self.exchange.balances@
    }
}

impl Default for State {
    fn default() -> (s: Self)
        ensures
            s.owner_id() == None::<Seq<u8>>,
            s.ledger_id() == None::<Seq<u8>>,
            s.book() == BookView::empty(),
    {
        State { owner: None, ledger: None, exchange: Exchange::default() }
    }
}

/// Installation: `caller` becomes the owner and `ledger` the ledger canister.
pub fn init(state: &mut State, caller: PrincipalId, ledger: Option<PrincipalId>)
    ensures
        final(state).owner_id() == Some(caller@),
        final(state).ledger_id() == principal_opt(ledger),
        final(state).book() == old(state).book(),
{
    state.owner = Some(caller);
    state.ledger = ledger;
}

/// The end of a deposit of `token_canister_id` by `caller`, once the token
/// canister has answered the exchange's `transfer_from`: what it moved is
/// credited to the caller, and its answer is the answer of the deposit.
pub fn deposit(
    state: &mut State,
    caller: &PrincipalId,
    token_canister_id: &PrincipalId,
    transfer: TxReceipt,
) -> (r: DepositReceipt)
    ensures
        r == transfer,
        final(state).owner_id() == old(state).owner_id(),
        final(state).ledger_id() == old(state).ledger_id(),
        final(state).book() == match transfer {
            Ok(a) => credited(old(state).book(), caller@, token_canister_id@, a@),
            Err(_) => old(state).book(),
        },
{
    match transfer {
        Ok(amount) => {
            state.exchange.balances.add_balance(caller, token_canister_id, amount.clone());
            Ok(amount)
        },
        Err(e) => Err(e),
    }
}

/// The first step of a withdrawal of `amount` of `token_canister_id` by
/// `caller`: the amount is debited if the caller holds that much, and only
/// then (`Ok`) is the token canister to be asked to pay it out.
pub fn withdraw(
    state: &mut State,
    caller: &PrincipalId,
    amount: &Amount,
    token_canister_id: &PrincipalId,
) -> (r: Result<(), TxError>)
    ensures
        r is Ok <==> amount@ <= balance_in(old(state).book(), caller@, token_canister_id@),
        r is Err ==> r == Err::<(), TxError>(TxError::InsufficientBalance),
        final(state).owner_id() == old(state).owner_id(),
        final(state).ledger_id() == old(state).ledger_id(),
        final(state).book() == debited(old(state).book(), caller@, token_canister_id@, amount@),
{
    let sufficient_balance = state.exchange.balances.subtract_balance(
        caller,
        token_canister_id,
        amount,
    );
    if !sufficient_balance {
        return Err(TxError::InsufficientBalance);
    }
    Ok(())
}

/// Empties the balance book; only the owner may do so.
pub fn clear(state: &mut State, caller: &PrincipalId)
    requires
        old(state).owner_id() == Some(caller@),
    ensures
        final(state).book() == BookView::empty(),
        final(state).owner_id() == old(state).owner_id(),
        final(state).ledger_id() == old(state).ledger_id(),
{
    state.exchange.balances.0.clear();
}

/// Whether `caller` is the owner, the one allowed to [`clear`].
pub fn is_owner(state: &State, caller: &PrincipalId) -> (r: bool)
    ensures
        r == (state.owner_id() == Some(caller@)),
{
    match &state.owner {
        Some(o) => o.same(caller),
        None => false,
    }
}

/// What `owner` holds of `token_canister_id`.
pub fn get_balance(state: &State, owner: PrincipalId, token_canister_id: PrincipalId) -> (a: Amount)
    ensures
        a@ == balance_in(state.book(), owner@, token_canister_id@),
{
    state.exchange.get_balance(owner, token_canister_id)
}

} // verus!
