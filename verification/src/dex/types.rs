//! Records and errors that the exchange hands out.
use vstd::prelude::*;
use crate::amount::Amount;
use crate::principal::PrincipalId;

verus! {

/// What one owner holds of one token.
pub struct Balance {
    pub owner: PrincipalId,
    pub token: PrincipalId,
    pub amount: Amount,
}

/// Why a transfer of tokens was refused.
#[derive(Debug, Clone, Copy, PartialEq, Eq, Structural)]
pub enum TxError {
    InsufficientBalance,
    InsufficientAllowance,
}

/// The answer to a deposit: the amount credited, or why nothing was.
pub type DepositReceipt = Result<Amount, TxError>;

/// The answer to a withdrawal: the amount sent, or why nothing was.
pub type WithdrawReceipt = Result<Amount, TxError>;

} // verus!
