//! The token ledger canister that the exchange trades against: balances of
//! one token, allowances that let a spender move tokens on an owner's behalf,
//! and the token's metadata.
//!
//! The canister's state is a [`Ledger`]; each endpoint is a function that
//! takes it and the calling principal. A ledger keeps no record of a zero
//! balance, of a zero allowance, or of an owner without allowances
//! ([`Ledger::wf`]); every operation keeps it so.
use vstd::prelude::*;
use crate::amount::Amount;
use crate::principal::PrincipalId;
use crate::principal_map::PrincipalMap;

verus! {

/// Why the ledger refused a transfer.
#[derive(Debug, Clone, Copy, PartialEq, Eq, Structural)]
pub enum TxError {
    InsufficientBalance,
    InsufficientAllowance,
}

/// The answer of a transfer or an approval: the amount, or why it failed.
pub type TxReceipt = Result<Amount, TxError>;

/// Token metadata as another canister asks for it.
pub struct Metadata {
    pub name: String,
    pub symbol: String,
    pub decimals: u8,
    pub total_supply: Amount,
    pub fee: Amount,
}

/// The token's own description of itself.
pub struct StatsData {
    pub name: String,
    pub symbol: String,
    pub decimals: u8,
    pub total_supply: Amount,
    pub fee: Amount,
}

/// One movement of tokens.
pub struct TxRecord {
    pub from: PrincipalId,
    pub to: PrincipalId,
    pub amount: Amount,
    pub fee: Amount,
}

/// What a token tells about itself.
pub struct TokenInfo {
    pub metadata: Metadata,
}

impl Default for StatsData {
    /// The ledger's token: "ICP", no decimals, 100 000 000 units in all, no fee.
    fn default() -> (s: Self)
        ensures
            s.name@ == "ICP"@,
            s.symbol@ == "ICP"@,
            s.decimals == 0,
            s.total_supply@ == 100_000_000,
            s.fee@ == 0,
    {
        StatsData {
            name: String::from_str("ICP"),
            symbol: String::from_str("ICP"),
            decimals: 0u8,
            total_supply: Amount::from_u64(100_000_000),
            fee: Amount::from_u64(0),
        }
    }
}

/// Balances by holder.
pub type BalanceView = Map<Seq<u8>, nat>;

/// Allowances by owner, then by spender.
pub type AllowanceView = Map<Seq<u8>, Map<Seq<u8>, nat>>;

/// What `id` holds; no record means zero.
pub open spec fn balance_in(b: BalanceView, id: Seq<u8>) -> nat {
    if b.contains_key(id) {
        b[id]
    } else {
        0
    }
}

/// Whether `owner` has recorded an allowance for `spender`.
pub open spec fn has_allowance(a: AllowanceView, owner: Seq<u8>, spender: Seq<u8>) -> bool {
    a.contains_key(owner) && a[owner].contains_key(spender)
}

/// How much `spender` may still move from `owner`; no record means zero.
pub open spec fn allowance_in(a: AllowanceView, owner: Seq<u8>, spender: Seq<u8>) -> nat {
    if has_allowance(a, owner, spender) {
        a[owner][spender]
    } else {
        0
    }
}

/// The allowances granted by `owner`, empty when there are none.
pub open spec fn granted_by(a: AllowanceView, owner: Seq<u8>) -> Map<Seq<u8>, nat> {
    if a.contains_key(owner) {
        a[owner]
    } else {
        Map::empty()
    }
}

/// No holder has a record of a zero balance.
pub open spec fn balances_wf(b: BalanceView) -> bool {
    forall|id: Seq<u8>| #[trigger] b.contains_key(id) ==> b[id] > 0
}

/// No owner has an empty record of allowances, and no allowance is zero.
pub open spec fn allowances_wf(a: AllowanceView) -> bool {
    forall|o: Seq<u8>| #[trigger] a.contains_key(o) ==> a[o] != Map::<Seq<u8>, nat>::empty() && (
    forall|s: Seq<u8>| #[trigger] a[o].contains_key(s) ==> a[o][s] > 0)
}

/// `b` with `value` recorded for `id`, or the record of `id` dropped when
/// `value` is zero.
pub open spec fn stored(b: BalanceView, id: Seq<u8>, value: nat) -> BalanceView {
    if value != 0 {
        b.insert(id, value)
    } else {
        b.remove(id)
    }
}

/// The balances after `amount` moves from `from` to `to`: first the sender's
/// new balance is stored (a zero one dropped), then the receiver's balance,
/// read after that, grows by `amount` and is recorded unless it is zero.
pub open spec fn transferred(b: BalanceView, from: Seq<u8>, to: Seq<u8>, amount: nat) -> BalanceView {
    let after_debit = stored(b, from, (balance_in(b, from) - amount) as nat);
    let to_total = balance_in(after_debit, to) + amount;
    if to_total != 0 {
        after_debit.insert(to, to_total)
    } else {
        after_debit
    }
}

/// The allowances after `owner` lets `spender` move `value`: a zero value
/// drops the record, and an owner left with no allowances is dropped too.
pub open spec fn allowance_set(a: AllowanceView, owner: Seq<u8>, spender: Seq<u8>, value: nat) -> AllowanceView {
    if value != 0 {
        a.insert(owner, granted_by(a, owner).insert(spender, value))
    } else {
        let rest = granted_by(a, owner).remove(spender);
        if rest == Map::<Seq<u8>, nat>::empty() {
            a.remove(owner)
        } else {
            a.insert(owner, rest)
        }
    }
}

/// The sum of `b`'s values over the keys in `keys`.
pub open spec fn sum_over(b: BalanceView, keys: Set<Seq<u8>>) -> nat
    decreases keys.len(),
    when keys.finite()
{
    if keys.len() == 0 {
        0
    } else {
        let k = keys.choose();
        proof {
            vstd::set::axiom_set_choose_len(keys);
            vstd::set::axiom_set_remove_len(keys, k);
        }
        balance_in(b, k) + sum_over(b, keys.remove(k))
    }
}

/// All the tokens held, over every holder.
pub open spec fn total(b: BalanceView) -> nat {
    sum_over(b, b.dom())
}

/// The state of the ledger canister.
pub struct Ledger {
    balances: PrincipalMap<Amount>,
    allows: PrincipalMap<PrincipalMap<Amount>>,
    stats: StatsData,
}

impl Ledger {
    /// Balances by holder.
    pub closed spec fn balances(&self) -> BalanceView {
        self.balances@
    }

    /// Allowances by owner, then spender.
    pub closed spec fn allowances(&self) -> AllowanceView {
        self.allows@
    }

    /// The token's metadata.
    pub closed spec fn stats(&self) -> StatsData {
        self.stats
    }

    /// No zero balance, zero allowance or empty allowance record is kept.
    pub open spec fn wf(&self) -> bool {
        balances_wf(self.balances()) && allowances_wf(self.allowances())
    }
}

impl Default for Ledger {
    /// A ledger before installation: nobody holds or may spend anything.
    fn default() -> (l: Self)
        ensures
            l.balances() == BalanceView::empty(),
            l.allowances() == AllowanceView::empty(),
            l.stats().name@ == "ICP"@,
            l.stats().symbol@ == "ICP"@,
            l.stats().decimals == 0,
            l.stats().total_supply@ == 100_000_000,
            l.stats().fee@ == 0,
            l.wf(),
    {
        Ledger { balances: PrincipalMap::new(), allows: PrincipalMap::new(), stats: StatsData::default() }
    }
}

/// One call that may change a ledger, as `transfer`, `transfer_from` and
/// `approve` change it; the metadata is never among what changes. A refused
/// `transfer_from` leaves balances and allowances as they were.
pub open spec fn ledger_step(before: Ledger, after: Ledger) -> bool {
    &&& after.stats() == before.stats()
    &&& {
        ||| after.balances() == before.balances() && after.allowances() == before.allowances()
        ||| exists|from: Seq<u8>, to: Seq<u8>, amount: nat|
            #![trigger transferred(before.balances(), from, to, amount)]
            amount <= balance_in(before.balances(), from) && after.balances() == transferred(
                before.balances(),
                from,
                to,
                amount,
            ) && after.allowances() == before.allowances()
        ||| exists|owner: Seq<u8>, spender: Seq<u8>, value: nat|
            #![trigger allowance_set(before.allowances(), owner, spender, value)]
            after.balances() == before.balances() && after.allowances() == allowance_set(
                before.allowances(),
                owner,
                spender,
                value,
            )
        ||| exists|caller: Seq<u8>, from: Seq<u8>, to: Seq<u8>, amount: nat|
            #![trigger transferred(before.balances(), from, to, amount), allowance_in(before.allowances(), from, caller)]
            amount <= allowance_in(before.allowances(), from, caller) && amount <= balance_in(
                before.balances(),
                from,
            ) && after.balances() == transferred(before.balances(), from, to, amount)
                && after.allowances() == allowance_set(
                before.allowances(),
                from,
                caller,
                (allowance_in(before.allowances(), from, caller) - amount) as nat,
            )
    }
}

/// Installation: the token's metadata is set and `caller` receives the whole
/// supply.
pub fn init(ledger: &mut Ledger, caller: PrincipalId)
    ensures
        final(ledger).stats().name@ == "ICP"@,
        final(ledger).stats().symbol@ == "ICP"@,
        final(ledger).stats().decimals == 0,
        final(ledger).stats().total_supply@ == 100_000_000,
        final(ledger).stats().fee@ == 0,
        final(ledger).balances() == old(ledger).balances().insert(caller@, 100_000_000),
        final(ledger).allowances() == old(ledger).allowances(),
        total(final(ledger).balances()) + balance_in(old(ledger).balances(), caller@) == total(
            old(ledger).balances(),
        ) + 100_000_000,
        old(ledger).wf() ==> final(ledger).wf(),
{
    proof {
        ledger.balances.lemma_finite();
        lemma_total_stored(ledger.balances(), caller@, 100_000_000);
    }
    let default_stats = StatsData::default();
    ledger.stats.name = default_stats.name;
    ledger.stats.symbol = default_stats.symbol;
    ledger.stats.decimals = default_stats.decimals;
    ledger.stats.total_supply = default_stats.total_supply;
    ledger.stats.fee = default_stats.fee;
    let total_supply = ledger.stats.total_supply.clone();
    ledger.balances.insert(caller, total_supply);
}

/// The token's name.
pub fn name(ledger: &Ledger) -> (s: String)
    ensures
        s@ == ledger.stats().name@,
{
    ledger.stats.name.clone()
}

/// The token's symbol.
pub fn symbol(ledger: &Ledger) -> (s: String)
    ensures
        s@ == ledger.stats().symbol@,
{
    ledger.stats.symbol.clone()
}

/// How many units of the token exist.
pub fn total_supply(ledger: &Ledger) -> (a: Amount)
    ensures
        a@ == ledger.stats().total_supply@,
{
    ledger.stats.total_supply.clone()
}

/// What `id` holds.
pub fn balance_of(ledger: &Ledger, id: PrincipalId) -> (a: Amount)
    ensures
        a@ == balance_in(ledger.balances(), id@),
{
    match ledger.balances.get(&id) {
        Some(balance) => balance.clone(),
        None => Amount::from_u64(0),
    }
}

/// How much `spender` may move from `owner`.
pub fn allowance(ledger: &Ledger, owner: PrincipalId, spender: PrincipalId) -> (a: Amount)
    ensures
        a@ == allowance_in(ledger.allowances(), owner@, spender@),
{
    match ledger.allows.get(&owner) {
        Some(inner) => match inner.get(&spender) {
            Some(value) => value.clone(),
            None => Amount::from_u64(0),
        },
        None => Amount::from_u64(0),
    }
}

/// Whether `owner` has recorded an allowance for `spender` (the record that
/// [`transfer_from`] reads).
pub fn allowance_recorded(ledger: &Ledger, owner: &PrincipalId, spender: &PrincipalId) -> (r: bool)
    ensures
        r == has_allowance(ledger.allowances(), owner@, spender@),
{
    match ledger.allows.get(owner) {
        Some(inner) => match inner.get(spender) {
            Some(_) => true,
            None => false,
        },
        None => false,
    }
}

fn _balance_ins(ledger: &mut Ledger, from: PrincipalId, value: Amount)
    ensures
        final(ledger).balances() == old(ledger).balances().insert(from@, value@),
        final(ledger).allowances() == old(ledger).allowances(),
        final(ledger).stats() == old(ledger).stats(),
{
    ledger.balances.insert(from, value);
}

fn _balance_rem(ledger: &mut Ledger, from: &PrincipalId)
    ensures
        final(ledger).balances() == old(ledger).balances().remove(from@),
        final(ledger).allowances() == old(ledger).allowances(),
        final(ledger).stats() == old(ledger).stats(),
{
    ledger.balances.remove(from);
}

fn _transfer(ledger: &mut Ledger, from: &PrincipalId, to: &PrincipalId, amount: &Amount)
    requires
        amount@ <= balance_in(old(ledger).balances(), from@),
    ensures
        final(ledger).balances() == transferred(old(ledger).balances(), from@, to@, amount@),
        final(ledger).allowances() == old(ledger).allowances(),
        final(ledger).stats() == old(ledger).stats(),
{
    let ghost b = ledger.balances();
    let from_balance = balance_of(ledger, from.clone());
    let from_balance_new = from_balance.sub(amount);
    if !from_balance_new.is_zero() {
        _balance_ins(ledger, from.clone(), from_balance_new);
    } else {
        _balance_rem(ledger, from);
    }
    assert(ledger.balances() == stored(b, from@, (balance_in(b, from@) - amount@) as nat));
    let to_balance = balance_of(ledger, to.clone());
    let to_balance_new = to_balance.add(amount);
    if !to_balance_new.is_zero() {
        _balance_ins(ledger, to.clone(), to_balance_new);
    }
}

/// Moves `amount` from `caller` to `to`. The caller must hold at least
/// `amount` (`candid::Nat` subtraction traps otherwise).
pub fn transfer(ledger: &mut Ledger, caller: PrincipalId, to: PrincipalId, amount: Amount) -> (r: TxReceipt)
    requires
        amount@ <= balance_in(old(ledger).balances(), caller@),
    ensures
        r == Ok::<Amount, TxError>(amount),
        final(ledger).balances() == transferred(old(ledger).balances(), caller@, to@, amount@),
        final(ledger).allowances() == old(ledger).allowances(),
        final(ledger).stats() == old(ledger).stats(),
        total(final(ledger).balances()) == total(old(ledger).balances()),
        old(ledger).wf() ==> final(ledger).wf(),
        ledger_step(*old(ledger), *final(ledger)),
{
    proof {
        ledger.balances.lemma_finite();
        lemma_transfer_keeps_total(ledger.balances(), caller@, to@, amount@);
        if ledger.wf() {
            lemma_transferred_wf(ledger.balances(), caller@, to@, amount@);
        }
    }
    _transfer(ledger, &caller, &to, &amount);
    Ok(amount)
}

/// `caller` moves `amount` from `from` to `to` out of what `from` allowed it.
/// Refused when the allowance is short, then when `from`'s balance is short;
/// otherwise the tokens move and the allowance shrinks by `amount`. A zero
/// transfer by a spender without any recorded allowance traps (the allowance
/// record is unwrapped), so it is left out.
pub fn transfer_from(
    ledger: &mut Ledger,
    caller: PrincipalId,
    from: PrincipalId,
    to: PrincipalId,
    amount: Amount,
) -> (r: TxReceipt)
    requires
        amount@ > 0 || has_allowance(old(ledger).allowances(), from@, caller@),
    ensures
        final(ledger).stats() == old(ledger).stats(),
        total(final(ledger).balances()) == total(old(ledger).balances()),
        old(ledger).wf() ==> final(ledger).wf(),
        ledger_step(*old(ledger), *final(ledger)),
        amount@ > allowance_in(old(ledger).allowances(), from@, caller@) ==> {
            &&& r == Err::<Amount, TxError>(TxError::InsufficientAllowance)
            &&& final(ledger).balances() == old(ledger).balances()
            &&& final(ledger).allowances() == old(ledger).allowances()
        },
        amount@ <= allowance_in(old(ledger).allowances(), from@, caller@) && amount@ > balance_in(
            old(ledger).balances(),
            from@,
        ) ==> {
            &&& r == Err::<Amount, TxError>(TxError::InsufficientBalance)
            &&& final(ledger).balances() == old(ledger).balances()
            &&& final(ledger).allowances() == old(ledger).allowances()
        },
        amount@ <= allowance_in(old(ledger).allowances(), from@, caller@) && amount@ <= balance_in(
            old(ledger).balances(),
            from@,
        ) ==> {
            &&& r == Ok::<Amount, TxError>(amount)
            &&& final(ledger).balances() == transferred(old(ledger).balances(), from@, to@, amount@)
            &&& final(ledger).allowances() == allowance_set(
                old(ledger).allowances(),
                from@,
                caller@,
                (allowance_in(old(ledger).allowances(), from@, caller@) - amount@) as nat,
            )
        },
{
    let ghost a = ledger.allowances();
    let ghost b = ledger.balances();
    let from_allowance = allowance(ledger, from.clone(), caller.clone());
    if from_allowance.lt(&amount) {
        return Err(TxError::InsufficientAllowance);
    }
    let from_balance = balance_of(ledger, from.clone());
    if from_balance.lt(&amount) {
        return Err(TxError::InsufficientBalance);
    }
    _transfer(ledger, &from, &to, &amount);
    assert(has_allowance(a, from@, caller@));
    proof {
        old(ledger).balances.lemma_finite();
        lemma_transfer_keeps_total(b, from@, to@, amount@);
        if old(ledger).wf() {
            lemma_transferred_wf(b, from@, to@, amount@);
        }
    }
    match ledger.allows.remove(&from) {
        Some(mut temp) => {
            let ghost granted = temp@;
            match temp.remove(&caller) {
                Some(result) => {
                    let rest = result.sub(&amount);
                    if !rest.is_zero() {
                        temp.insert(caller.clone(), rest);
                        assert(temp@ =~= granted.insert(caller@, rest@));
                        ledger.allows.insert(from.clone(), temp);
                        assert(ledger.allowances() =~= allowance_set(a, from@, caller@, rest@));
                    } else {
                        if temp.is_empty() {
                            assert(ledger.allowances() =~= allowance_set(a, from@, caller@, 0));
                        } else {
                            ledger.allows.insert(from.clone(), temp);
                            assert(ledger.allowances() =~= allowance_set(a, from@, caller@, 0));
                        }
                    }
                },
                // The allowance check passed, so the record of `caller` exists.
                None => {},
            }
        },
        // The allowance check passed, so `from` has a record of allowances.
        None => {},
    }
    proof {
        if old(ledger).wf() {
            lemma_allowance_set_wf(a, from@, caller@, (allowance_in(a, from@, caller@) - amount@) as nat);
        }
    }
    Ok(amount)
}

/// `caller` lets `spender` move up to `amount` of its tokens, replacing any
/// earlier allowance; a zero amount withdraws the allowance.
pub fn approve(ledger: &mut Ledger, caller: PrincipalId, spender: PrincipalId, amount: Amount) -> (r: TxReceipt)
    ensures
        r == Ok::<Amount, TxError>(amount),
        final(ledger).allowances() == allowance_set(old(ledger).allowances(), caller@, spender@, amount@),
        final(ledger).balances() == old(ledger).balances(),
        final(ledger).stats() == old(ledger).stats(),
        old(ledger).wf() ==> final(ledger).wf(),
        ledger_step(*old(ledger), *final(ledger)),
{
    let ghost a = ledger.allowances();
    match ledger.allows.remove(&caller) {
        Some(mut temp) => {
            let ghost granted = temp@;
            assert(granted == granted_by(a, caller@));
            if !amount.is_zero() {
                temp.insert(spender, amount.clone());
                ledger.allows.insert(caller, temp);
                assert(ledger.allowances() =~= allowance_set(a, caller@, spender@, amount@));
            } else {
                temp.remove(&spender);
                assert(temp@ == granted_by(a, caller@).remove(spender@));
                if temp.is_empty() {
                    assert(ledger.allowances() =~= allowance_set(a, caller@, spender@, amount@));
                } else {
                    ledger.allows.insert(caller, temp);
                    assert(ledger.allowances() =~= allowance_set(a, caller@, spender@, amount@));
                }
            }
        },
        None => {
            if !amount.is_zero() {
                let mut inner = PrincipalMap::new();
                inner.insert(spender, amount.clone());
                ledger.allows.insert(caller, inner);
                assert(ledger.allowances() =~= allowance_set(a, caller@, spender@, amount@));
            } else {
                assert(granted_by(a, caller@).remove(spender@) =~= Map::<Seq<u8>, nat>::empty());
                assert(a.remove(caller@) =~= a);
            }
        },
    }
    proof {
        if old(ledger).wf() {
            lemma_allowance_set_wf(a, caller@, spender@, amount@);
        }
    }
    Ok(amount)
}

/// A transfer between holders of non-zero balances leaves no zero balance
/// behind: an emptied sender is dropped and a receiver is never recorded
/// with zero.
pub proof fn lemma_transferred_wf(b: BalanceView, from: Seq<u8>, to: Seq<u8>, amount: nat)
    requires
        balances_wf(b),
    ensures
        balances_wf(transferred(b, from, to, amount)),
{
    let after_debit = stored(b, from, (balance_in(b, from) - amount) as nat);
    assert(balances_wf(after_debit));
}

/// Setting an allowance keeps the allowance records well formed: a zero
/// allowance is dropped, and so is an owner left with none.
pub proof fn lemma_allowance_set_wf(a: AllowanceView, owner: Seq<u8>, spender: Seq<u8>, value: nat)
    requires
        allowances_wf(a),
    ensures
        allowances_wf(allowance_set(a, owner, spender, value)),
{
    let r = allowance_set(a, owner, spender, value);
    assert forall|o: Seq<u8>| #[trigger] r.contains_key(o) implies r[o] != Map::<Seq<u8>, nat>::empty()
        && (forall|s: Seq<u8>| #[trigger] r[o].contains_key(s) ==> r[o][s] > 0) by {
        if o == owner {
            if value != 0 {
                assert(r[o].contains_key(spender));
            }
        }
    }
}

/// Any key of a finite set may be taken out of the sum first.
proof fn lemma_sum_over_remove(b: BalanceView, keys: Set<Seq<u8>>, k: Seq<u8>)
    requires
        keys.finite(),
        keys.contains(k),
    ensures
        sum_over(b, keys) == balance_in(b, k) + sum_over(b, keys.remove(k)),
    decreases keys.len(),
{
    vstd::set::axiom_set_contains_len(keys, k);
    vstd::set::axiom_set_choose_len(keys);
    let c = keys.choose();
    if c != k {
        vstd::set::axiom_set_remove_len(keys, c);
        vstd::set::axiom_set_remove_len(keys, k);
        vstd::set::axiom_set_remove_finite(keys, c);
        vstd::set::axiom_set_remove_finite(keys, k);
        lemma_sum_over_remove(b, keys.remove(c), k);
        lemma_sum_over_remove(b, keys.remove(k), c);
        assert(keys.remove(c).remove(k) =~= keys.remove(k).remove(c));
    }
}

/// Sums over the same keys agree when the maps agree on those keys.
proof fn lemma_sum_over_agree(b1: BalanceView, b2: BalanceView, keys: Set<Seq<u8>>)
    requires
        keys.finite(),
        forall|k: Seq<u8>| #[trigger] keys.contains(k) ==> balance_in(b1, k) == balance_in(b2, k),
    ensures
        sum_over(b1, keys) == sum_over(b2, keys),
    decreases keys.len(),
{
    if keys.len() != 0 {
        vstd::set::axiom_set_choose_len(keys);
        let c = keys.choose();
        vstd::set::axiom_set_remove_len(keys, c);
        vstd::set::axiom_set_remove_finite(keys, c);
        lemma_sum_over_agree(b1, b2, keys.remove(c));
    }
}

/// The total, split into one holder's balance and everybody else's.
proof fn lemma_total_split(b: BalanceView, id: Seq<u8>)
    requires
        b.dom().finite(),
    ensures
        total(b) == balance_in(b, id) + total(b.remove(id)),
        b.remove(id).dom().finite(),
{
    vstd::set::axiom_set_remove_finite(b.dom(), id);
    assert(b.remove(id).dom() =~= b.dom().remove(id));
    lemma_sum_over_agree(b, b.remove(id), b.dom().remove(id));
    if b.dom().contains(id) {
        lemma_sum_over_remove(b, b.dom(), id);
    } else {
        assert(b.dom().remove(id) =~= b.dom());
    }
}

/// Recording `value` for `id` changes the total by the difference to what
/// `id` held before.
proof fn lemma_total_stored(b: BalanceView, id: Seq<u8>, value: nat)
    requires
        b.dom().finite(),
    ensures
        total(stored(b, id, value)) + balance_in(b, id) == total(b) + value,
        stored(b, id, value).dom().finite(),
        balance_in(stored(b, id, value), id) == value,
{
    lemma_total_split(b, id);
    let s = stored(b, id, value);
    vstd::set::axiom_set_insert_finite(b.dom(), id);
    lemma_total_split(s, id);
    assert(s.remove(id) =~= b.remove(id));
}

/// A transfer moves tokens between holders: the total stays the same.
pub proof fn lemma_transfer_keeps_total(b: BalanceView, from: Seq<u8>, to: Seq<u8>, amount: nat)
    requires
        b.dom().finite(),
        amount <= balance_in(b, from),
    ensures
        total(transferred(b, from, to, amount)) == total(b),
        transferred(b, from, to, amount).dom().finite(),
{
    let after_debit = stored(b, from, (balance_in(b, from) - amount) as nat);
    lemma_total_stored(b, from, (balance_in(b, from) - amount) as nat);
    let to_total = balance_in(after_debit, to) + amount;
    if to_total != 0 {
        lemma_total_stored(after_debit, to, to_total);
        assert(stored(after_debit, to, to_total) == after_debit.insert(to, to_total));
    }
}

/// The balances a ledger keeps are finitely many.
pub proof fn lemma_balances_finite(ledger: &Ledger)
    ensures
        ledger.balances().dom().finite(),
{
    ledger.balances.lemma_finite();
}

/// After a transfer of `amount` from `from` to `to`, the sender holds
/// `amount` less and the receiver `amount` more (a transfer to oneself
/// changes nothing), and every other holder what it held before.
pub proof fn lemma_transfer_reads_back(b: BalanceView, from: Seq<u8>, to: Seq<u8>, amount: nat, id: Seq<u8>)
    requires
        amount <= balance_in(b, from),
    ensures
        balance_in(transferred(b, from, to, amount), id) == if from == to {
            balance_in(b, id)
        } else if id == from {
            (balance_in(b, from) - amount) as nat
        } else if id == to {
            balance_in(b, to) + amount
        } else {
            balance_in(b, id)
        },
{
}

/// After an approval, or a spend, sets what `spender` may move from `owner`
/// to `value`, that allowance reads `value` and every other allowance reads
/// as before.
pub proof fn lemma_allowance_set_reads_back(
    a: AllowanceView,
    owner: Seq<u8>,
    spender: Seq<u8>,
    value: nat,
    other_owner: Seq<u8>,
    other_spender: Seq<u8>,
)
    ensures
        allowance_in(allowance_set(a, owner, spender, value), other_owner, other_spender) == if other_owner
            == owner && other_spender == spender {
            value
        } else {
            allowance_in(a, other_owner, other_spender)
        },
{
    let r = allowance_set(a, owner, spender, value);
    if value == 0 {
        let rest = granted_by(a, owner).remove(spender);
        if rest == Map::<Seq<u8>, nat>::empty() && other_owner == owner {
            assert(!rest.contains_key(other_spender));
        }
    }
}

/// A ledger installed from scratch holds its whole supply in the installer's
/// hands: the total of the balances is the supply.
pub proof fn lemma_installed_supply(caller: Seq<u8>, supply: nat)
    ensures
        total(BalanceView::empty().insert(caller, supply)) == supply,
{
    let b = BalanceView::empty();
    assert(b.dom() =~= Set::<Seq<u8>>::empty());
    lemma_total_stored(b, caller, supply);
    if supply == 0 {
        let s = b.insert(caller, 0);
        lemma_total_split(s, caller);
        assert(s.remove(caller) =~= b);
    } else {
        assert(stored(b, caller, supply) == b.insert(caller, supply));
    }
}

/// One call keeps the metadata and the total of the balances, and keeps a
/// well-formed ledger well formed.
pub proof fn lemma_step_keeps(before: Ledger, after: Ledger)
    requires
        ledger_step(before, after),
    ensures
        after.stats() == before.stats(),
        total(after.balances()) == total(before.balances()),
        before.wf() ==> after.wf(),
{
    lemma_balances_finite(&before);
    if after.balances() == before.balances() && after.allowances() == before.allowances() {
    } else if exists|from: Seq<u8>, to: Seq<u8>, amount: nat|
        #![trigger transferred(before.balances(), from, to, amount)]
        amount <= balance_in(before.balances(), from) && after.balances() == transferred(
            before.balances(),
            from,
            to,
            amount,
        ) && after.allowances() == before.allowances() {
        let (from, to, amount) = choose|from: Seq<u8>, to: Seq<u8>, amount: nat|
            #![trigger transferred(before.balances(), from, to, amount)]
            amount <= balance_in(before.balances(), from) && after.balances() == transferred(
                before.balances(),
                from,
                to,
                amount,
            ) && after.allowances() == before.allowances();
        lemma_transfer_keeps_total(before.balances(), from, to, amount);
        if before.wf() {
            lemma_transferred_wf(before.balances(), from, to, amount);
        }
    } else if exists|owner: Seq<u8>, spender: Seq<u8>, value: nat|
        #![trigger allowance_set(before.allowances(), owner, spender, value)]
        after.balances() == before.balances() && after.allowances() == allowance_set(
            before.allowances(),
            owner,
            spender,
            value,
        ) {
        let (owner, spender, value) = choose|owner: Seq<u8>, spender: Seq<u8>, value: nat|
            #![trigger allowance_set(before.allowances(), owner, spender, value)]
            after.balances() == before.balances() && after.allowances() == allowance_set(
                before.allowances(),
                owner,
                spender,
                value,
            );
        if before.wf() {
            lemma_allowance_set_wf(before.allowances(), owner, spender, value);
        }
    } else {
        let (caller, from, to, amount) = choose|caller: Seq<u8>, from: Seq<u8>, to: Seq<u8>, amount: nat|
            #![trigger transferred(before.balances(), from, to, amount), allowance_in(before.allowances(), from, caller)]
            amount <= allowance_in(before.allowances(), from, caller) && amount <= balance_in(
                before.balances(),
                from,
            ) && after.balances() == transferred(before.balances(), from, to, amount)
                && after.allowances() == allowance_set(
                before.allowances(),
                from,
                caller,
                (allowance_in(before.allowances(), from, caller) - amount) as nat,
            );
        lemma_transfer_keeps_total(before.balances(), from, to, amount);
        if before.wf() {
            lemma_transferred_wf(before.balances(), from, to, amount);
            lemma_allowance_set_wf(
                before.allowances(),
                from,
                caller,
                (allowance_in(before.allowances(), from, caller) - amount) as nat,
            );
        }
    }
}

/// Over any run of calls, each one a [`ledger_step`] from the state before
/// it, the token's metadata stays what it was at the start (after `init`: the
/// name and symbol "ICP", no decimals, a total supply of 100 000 000 and no
/// fee), the balances keep their total, and a well-formed ledger stays well
/// formed.
pub proof fn lemma_run_keeps(states: Seq<Ledger>)
    requires
        states.len() > 0,
        forall|i: int| 0 <= i < states.len() - 1 ==> ledger_step(#[trigger] states[i], states[i + 1]),
    ensures
        forall|i: int| 0 <= i < states.len() ==> (#[trigger] states[i]).stats() == states[0].stats(),
        forall|i: int| 0 <= i < states.len() ==> total((#[trigger] states[i]).balances()) == total(states[0].balances()),
        forall|i: int| 0 <= i < states.len() ==> states[0].wf() ==> (#[trigger] states[i]).wf(),
    decreases states.len(),
{
    if states.len() > 1 {
        let prefix = states.drop_last();
        assert forall|i: int| 0 <= i < prefix.len() - 1 implies ledger_step(#[trigger] prefix[i], prefix[i + 1]) by {
            assert(prefix[i] == states[i]);
            assert(prefix[i + 1] == states[i + 1]);
        }
        lemma_run_keeps(prefix);
        let n = states.len() - 1;
        assert(ledger_step(states[n - 1], states[n]));
        lemma_step_keeps(states[n - 1], states[n]);
        assert(prefix[n - 1] == states[n - 1]);
        assert(prefix[0] == states[0]);
        assert forall|i: int| 0 <= i < states.len() implies (#[trigger] states[i]).stats() == states[0].stats()
            && total(states[i].balances()) == total(states[0].balances())
            && (states[0].wf() ==> states[i].wf()) by {
            if i < n {
                assert(prefix[i] == states[i]);
            }
        }
    }
}

} // verus!
