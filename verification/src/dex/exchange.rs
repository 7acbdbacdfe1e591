//! The balance book of the exchange: how much of each token each owner has
//! deposited and not yet withdrawn.
use vstd::prelude::*;
use crate::amount::Amount;
use crate::principal::PrincipalId;
use crate::principal_map::PrincipalMap;
use super::utils;

verus! {

/// The book as a map: owner -> token -> amount.
pub type BookView = Map<Seq<u8>, Map<Seq<u8>, nat>>;

/// What `owner` holds of `token` in `book`; nothing recorded means zero.
pub open spec fn balance_in(book: BookView, owner: Seq<u8>, token: Seq<u8>) -> nat {
    if book.contains_key(owner) && book[owner].contains_key(token) {
        book[owner][token]
    } else {
        0
    }
}

/// The record of `owner`'s tokens in `book`, empty when there is none.
pub open spec fn tokens_of(book: BookView, owner: Seq<u8>) -> Map<Seq<u8>, nat> {
    if book.contains_key(owner) {
        book[owner]
    } else {
        Map::empty()
    }
}

/// The book after `delta` of `token` is credited to `owner`: the owner gets a
/// record (empty if it had none) in which the token's entry grows by `delta`.
pub open spec fn credited(book: BookView, owner: Seq<u8>, token: Seq<u8>, delta: nat) -> BookView {
    book.insert(
        owner,
        tokens_of(book, owner).insert(token, balance_in(book, owner, token) + delta),
    )
}

/// The book after `amount` of `token` is debited from `owner`: when the owner
/// holds at least `amount` of it in a record of its own, that entry shrinks by
/// `amount` and goes away once it reaches zero; otherwise nothing changes.
pub open spec fn debited(book: BookView, owner: Seq<u8>, token: Seq<u8>, amount: nat) -> BookView {
    if book.contains_key(owner) && book[owner].contains_key(token) && amount <= book[owner][token] {
        let rest = (book[owner][token] - amount) as nat;
        if rest == 0 {
            book.insert(owner, book[owner].remove(token))
        } else {
            book.insert(owner, book[owner].insert(token, rest))
        }
    } else {
        book
    }
}

/// One debit: an owner, a token and an amount.
pub type Debit = (Seq<u8>, Seq<u8>, nat);

/// The book after the debits in `debits` are applied one after another,
/// each as [`Balances::subtract_balance`] applies it.
pub open spec fn debits_applied(book: BookView, debits: Seq<Debit>) -> BookView
    decreases debits.len(),
{
    if debits.len() == 0 {
        book
    } else {
        let d = debits.last();
        debited(debits_applied(book, debits.drop_last()), d.0, d.1, d.2)
    }
}

/// How much of `token` the debits in `debits`, applied one after another,
/// took from `owner`: the sum of the amounts of those debits of `owner` and
/// `token` that succeeded.
pub open spec fn debited_total(book: BookView, debits: Seq<Debit>, owner: Seq<u8>, token: Seq<u8>) -> nat
    decreases debits.len(),
{
    if debits.len() == 0 {
        0
    } else {
        let d = debits.last();
        let before = debits_applied(book, debits.drop_last());
        debited_total(book, debits.drop_last(), owner, token) + if d.0 == owner && d.1 == token && d.2
            <= balance_in(before, owner, token) {
            d.2
        } else {
            0
        }
    }
}

/// Owner -> token canister -> amount held.
pub struct Balances(pub PrincipalMap<PrincipalMap<Amount>>);

impl View for Balances {
    type V = BookView;

    open spec fn view(&self) -> BookView {
        self.0@
    }
}

impl Default for Balances {
    fn default() -> (b: Self)
        ensures
            b@ == BookView::empty(),
    {
        Balances(PrincipalMap::new())
    }
}

impl Balances {
    /// Credits `delta` of `token_canister_id` to `owner`.
    pub fn add_balance(&mut self, owner: &PrincipalId, token_canister_id: &PrincipalId, delta: Amount)
        ensures
            final(self)@ == credited(old(self)@, owner@, token_canister_id@, delta@),
    {
        let ghost book = self@;
        let mut tokens = match self.0.remove(owner) {
            Some(t) => t,
            None => PrincipalMap::new(),
        };
        assert(tokens@ == tokens_of(book, owner@));
        let held = tokens.remove(token_canister_id);
        let new_amount = match held {
            Some(x) => x.add(&delta),
            None => delta,
        };
        assert(new_amount@ == balance_in(book, owner@, token_canister_id@) + delta@);
        tokens.insert(token_canister_id.clone(), new_amount);
        assert(tokens@ =~= tokens_of(book, owner@).insert(
            token_canister_id@,
            balance_in(book, owner@, token_canister_id@) + delta@,
        ));
        self.0.insert(owner.clone(), tokens);
        assert(self@ =~= credited(book, owner@, token_canister_id@, delta@));
    }

    /// Debits `amount` of `token_canister_id` from `owner` if the owner holds
    /// that much of it, dropping the token's entry once it reaches zero.
    /// Answers whether it did.
    pub fn subtract_balance(
        &mut self,
        owner: &PrincipalId,
        token_canister_id: &PrincipalId,
        amount: &Amount,
    ) -> (done: bool)
        ensures
            done == (amount@ <= balance_in(old(self)@, owner@, token_canister_id@)),
            final(self)@ == debited(old(self)@, owner@, token_canister_id@, amount@),
    {
        let ghost book = self@;
        match self.0.remove(owner) {
            None => {
                assert(book.remove(owner@) =~= book);
                amount.is_zero()
            },
            Some(mut tokens) => {
                let ghost record = tokens@;
                let done;
                match tokens.remove(token_canister_id) {
                    None => {
                        assert(record.remove(token_canister_id@) =~= record);
                        done = amount.is_zero();
                    },
                    Some(held) => {
                        if held.ge(amount) {
                            let rest = held.sub(amount);
                            if !rest.is_zero() {
                                tokens.insert(token_canister_id.clone(), rest);
                                assert(tokens@ =~= record.insert(token_canister_id@, rest@));
                            }
                            done = true;
                        } else {
                            tokens.insert(token_canister_id.clone(), held);
                            assert(tokens@ =~= record);
                            done = false;
                        }
                    },
                }
                self.0.insert(owner.clone(), tokens);
                assert(self@ =~= debited(book, owner@, token_canister_id@, amount@));
                done
            },
        }
    }
}

/// The exchange: its balance book.
pub struct Exchange {
    pub balances: Balances,
}

impl Default for Exchange {
    fn default() -> (e: Self)
        ensures
            e.balances@ == BookView::empty(),
    {
        Exchange { balances: Balances::default() }
    }
}

impl Exchange {
    /// What `owner` holds of `token_canister_id`; zero when nothing is recorded.
    pub fn get_balance(&self, owner: PrincipalId, token_canister_id: PrincipalId) -> (a: Amount)
        ensures
            a@ == balance_in(self.balances@, owner@, token_canister_id@),
    {
        match self.balances.0.get(&owner) {
            Some(tokens) => match tokens.get(&token_canister_id) {
                Some(v) => v.clone(),
                None => utils::zero(),
            },
            None => utils::zero(),
        }
    }
}

/// A credit shows in what its owner holds of its token and nowhere else.
pub proof fn lemma_credit_reads_back(
    book: BookView,
    owner: Seq<u8>,
    token: Seq<u8>,
    delta: nat,
    other_owner: Seq<u8>,
    other_token: Seq<u8>,
)
    ensures
        balance_in(credited(book, owner, token, delta), other_owner, other_token) == if other_owner
            == owner && other_token == token {
            balance_in(book, owner, token) + delta
        } else {
            balance_in(book, other_owner, other_token)
        },
{
}

/// A debit of `amount` is possible exactly when the owner holds at least
/// `amount`; it then lowers that holding by `amount` and nothing else, and
/// otherwise changes nothing.
pub proof fn lemma_debit_reads_back(
    book: BookView,
    owner: Seq<u8>,
    token: Seq<u8>,
    amount: nat,
    other_owner: Seq<u8>,
    other_token: Seq<u8>,
)
    ensures
        balance_in(debited(book, owner, token, amount), other_owner, other_token) == if amount
            <= balance_in(book, owner, token) && other_owner == owner && other_token == token {
            (balance_in(book, owner, token) - amount) as nat
        } else {
            balance_in(book, other_owner, other_token)
        },
{
}

/// Debiting what was just credited always succeeds and gives every owner
/// back exactly what it held of every token before.
pub proof fn lemma_debit_undoes_credit(
    book: BookView,
    owner: Seq<u8>,
    token: Seq<u8>,
    delta: nat,
    other_owner: Seq<u8>,
    other_token: Seq<u8>,
)
    ensures
        delta <= balance_in(credited(book, owner, token, delta), owner, token),
        balance_in(debited(credited(book, owner, token, delta), owner, token, delta), other_owner, other_token)
            == balance_in(book, other_owner, other_token),
{
    lemma_credit_reads_back(book, owner, token, delta, owner, token);
    lemma_credit_reads_back(book, owner, token, delta, other_owner, other_token);
    lemma_debit_reads_back(credited(book, owner, token, delta), owner, token, delta, other_owner, other_token);
}

/// Whatever debits follow one another, with no credit in between, what they
/// take from one owner's holding of one token, added to what is left of it,
/// is what it held at the start.
pub proof fn lemma_debits_account(book: BookView, debits: Seq<Debit>, owner: Seq<u8>, token: Seq<u8>)
    ensures
        debited_total(book, debits, owner, token) + balance_in(debits_applied(book, debits), owner, token)
            == balance_in(book, owner, token),
    decreases debits.len(),
{
    if debits.len() > 0 {
        let d = debits.last();
        let before = debits_applied(book, debits.drop_last());
        lemma_debits_account(book, debits.drop_last(), owner, token);
        lemma_debit_reads_back(before, d.0, d.1, d.2, owner, token);
    }
}

/// Successive debits (the withdrawals of one owner, whichever order their
/// messages run in) never take more of a token than the owner held.
pub proof fn lemma_debits_bounded(book: BookView, debits: Seq<Debit>, owner: Seq<u8>, token: Seq<u8>)
    ensures
        debited_total(book, debits, owner, token) <= balance_in(book, owner, token),
{
    lemma_debits_account(book, debits, owner, token);
}

} // verus!
