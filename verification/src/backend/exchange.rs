//! The balance book of the backend exchange, read on behalf of the caller.
use vstd::prelude::*;
use crate::amount::Amount;
use crate::dex::exchange::balance_in;
use crate::dex::utils;
use crate::principal::PrincipalId;

pub use crate::dex::exchange::Balances;

verus! {

/// The exchange: its balance book.
pub struct Exchange {
    pub balances: Balances,
}

impl Default for Exchange {
    fn default() -> (e: Self)
        ensures
            e.balances@ == Map::<Seq<u8>, Map<Seq<u8>, nat>>::empty(),
    {
        Exchange { balances: Balances::default() }
    }
}

impl Exchange {
    /// What the calling principal `caller` holds of `token_canister_id`;
    /// zero when nothing is recorded.
    pub fn get_balance(&self, caller: PrincipalId, token_canister_id: PrincipalId) -> (a: Amount)
        ensures
            a@ == balance_in(self.balances@, caller@, token_canister_id@),
    {
        match self.balances.0.get(&caller) {
            Some(tokens) => match tokens.get(&token_canister_id) {
                Some(v) => v.clone(),
                None => utils::zero(),
            },
            None => utils::zero(),
        }
    }
}

} // verus!
