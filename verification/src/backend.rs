//! The backend exchange canister, an earlier form of the exchange: a deposit
//! endpoint that credits nothing yet, the arithmetic of a deposit drawn
//! through a DIP20 token's allowance, and balance queries.
use vstd::prelude::*;
use crate::amount::Amount;
use crate::dex::exchange::BookView;
use crate::dex::principal_opt;
use crate::dex::types::DepositReceipt;
use crate::principal::PrincipalId;

pub mod exchange;

use exchange::Exchange;

verus! {

/// Why a deposit through a DIP20 allowance failed.
#[derive(Debug, Clone, Copy, PartialEq, Eq, Structural)]
pub enum DepositErr {
    TransferFailure,
}

/// The state of the backend canister.
pub struct State {
    owner: Option<PrincipalId>,
    ledger: Option<PrincipalId>,
    exchange: Exchange,
}

impl State {
    /// The principal that installed the canister, if any.
    pub closed spec fn owner_id(&self) -> Option<Seq<u8>> {
        principal_opt(self.owner)
    }

    /// The ledger canister, if one is set.
    pub closed spec fn ledger_id(&self) -> Option<Seq<u8>> {
        principal_opt(self.ledger)
    }

    /// The balance book.
    pub closed spec fn book(&self) -> BookView {
        self.exchange.balances@
    }

    /// The exchange of this canister.
    pub fn exchange(&self) -> (e: &Exchange)
        ensures
            e.balances@ == self.book(),
    {
        &self.exchange
    }
}

impl Default for State {
    fn default() -> (s: Self)
        ensures
            s.owner_id() == None::<Seq<u8>>,
            s.ledger_id() == None::<Seq<u8>>,
            s.book() == BookView::empty(),
    {
        State { owner: None, ledger: None, exchange: Exchange::default() }
    }
}

/// A deposit of `token_canister_id`: answered with zero, crediting nothing.
pub fn deposit(token_canister_id: &PrincipalId) -> (r: DepositReceipt)
    ensures
        r matches Ok(a) && a@ == 0,
{
    Ok(Amount::from_u64(0))
}

/// What a deposit through a DIP20 allowance draws: the allowance granted to
/// the exchange less the token's fee. A fee above the allowance traps
/// (`candid::Nat` subtraction), so it is left out.
pub fn deposit_available(allowance: &Amount, fee: &Amount) -> (available: Amount)
    requires
        fee@ <= allowance@,
    ensures
        available@ == allowance@ - fee@,
{
    allowance.sub(fee)
}

/// The answer of a deposit of `available` once the token has answered the
/// `transfer_from` that draws it: `available` when the transfer went
/// through, a transfer failure otherwise.
pub fn settle_deposit<T, E>(available: Amount, transfer: Result<T, E>) -> (r: Result<Amount, DepositErr>)
    ensures
        transfer is Ok ==> r == Ok::<Amount, DepositErr>(available),
        transfer is Err ==> r == Err::<Amount, DepositErr>(DepositErr::TransferFailure),
{
    match transfer {
        Ok(_) => Ok(available),
        Err(_) => Err(DepositErr::TransferFailure),
    }
}

} // verus!
