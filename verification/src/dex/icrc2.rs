//! The ICRC-2 token interface as the exchange calls it: the handle of a
//! token canister and the argument record of `icrc2_transfer_from`.
use vstd::prelude::*;
use crate::amount::Amount;
use crate::principal::PrincipalId;

verus! {

/// A token canister that speaks ICRC-2, named by its principal.
pub struct ICRC2 {
    principal: PrincipalId,
}

impl ICRC2 {
    /// The token canister `principal`.
    pub fn new(principal: PrincipalId) -> (t: ICRC2)
        ensures
            t@ == principal@,
    {
        ICRC2 { principal }
    }

    /// The principal of the token canister.
    pub fn principal(&self) -> (p: &PrincipalId)
        ensures
            p@ == self@,
    {
        &self.principal
    }
}

impl View for ICRC2 {
    type V = Seq<u8>;

    closed spec fn view(&self) -> Seq<u8> {
        self.principal@
    }
}

/// The argument of `icrc2_transfer_from`.
pub struct TransferFrom {
    pub from: PrincipalId,
    pub to: PrincipalId,
    pub amount: Amount,
    pub fee: Option<Amount>,
    pub memo: Option<String>,
    pub created_at_time: Option<Amount>,
}

/// Why an ICRC-2 transfer failed.
#[derive(Debug, Clone, Copy, PartialEq, Eq, Structural)]
pub enum TxErr {
    Other,
}

/// The answer of an ICRC-2 transfer: the amount moved, or why nothing was.
pub type TxReceipt = Result<Amount, TxErr>;

/// The argument record of a transfer of `amount` from `from` to `to`, with the
/// optional fee, memo and creation time given.
pub fn new_transfer_from(
    from: PrincipalId,
    to: PrincipalId,
    amount: Amount,
    fee: Option<Amount>,
    memo: Option<String>,
    created_at_time: Option<Amount>,
) -> (t: TransferFrom)
    ensures
        t.from == from,
        t.to == to,
        t.amount == amount,
        t.fee == fee,
        t.memo == memo,
        t.created_at_time == created_at_time,
{
    TransferFrom { from, to, amount, fee, memo, created_at_time }
}

} // verus!
