//! The validated ledger the engine consumes, its mathematical model, and the
//! specification of which ledgers are accepted: every leg must name a
//! declared account, every transaction's legs must sum to exactly zero, no
//! transfer may occur twice, and period names must be unique.

use vstd::prelude::*;

use crate::amount::{Amount, AMOUNT_LIMIT};
use crate::date::Date;
use crate::transfer::{TransferIdV, TransferV};

verus! {

/// The closed classification of accounts: the first rollup dimension.
#[derive(Clone, Copy, PartialEq, Eq, Structural, Debug)]
pub enum AccountType {
    /// Source of money.
    Income,
    /// Owes money to you.
    Debtor,
    /// Value held right now.
    Asset,
    /// You owe money to.
    Creditor,
    /// Sink of money.
    Expense,
    /// Carries an opening balance over from the previous run.
    YearlyResult,
}

impl View for AccountType {
    type V = AccountType;

    open spec fn view(&self) -> AccountType {
        *self
    }
}

impl DeepView for AccountType {
    type V = AccountType;

    open spec fn deep_view(&self) -> AccountType {
        *self
    }
}

/// A transaction as the engine receives it: already dereferenced, carrying
/// its zero-based index within its period.
pub struct RealTransaction {
    pub name: String,
    pub date: Date,
    pub index: usize,
    pub transfers: Vec<(String, Amount)>,
    pub comments: Vec<(String, String)>,
}

/// Mathematical value of a transaction; the free-form comments play no part
/// in any computation and are not modelled.
#[verifier::ext_equal]
pub ghost struct TxV {
    pub name: Seq<char>,
    pub date: Date,
    pub index: int,
    pub legs: Seq<(Seq<char>, int)>,
}

impl View for RealTransaction {
    type V = TxV;

    open spec fn view(&self) -> TxV {
        TxV {
            name: self.name@,
            date: self.date,
            index: self.index as int,
            legs: self.transfers.deep_view(),
        }
    }
}

impl DeepView for RealTransaction {
    type V = TxV;

    open spec fn deep_view(&self) -> TxV {
        self.view()
    }
}

/// One named period of transactions.
pub struct RealGrouping {
    pub name: String,
    pub transactions: Vec<RealTransaction>,
}

/// Mathematical value of a period.
#[verifier::ext_equal]
pub ghost struct PeriodV {
    pub name: Seq<char>,
    pub txs: Seq<TxV>,
}

impl View for RealGrouping {
    type V = PeriodV;

    open spec fn view(&self) -> PeriodV {
        PeriodV { name: self.name@, txs: self.transactions.deep_view() }
    }
}

impl DeepView for RealGrouping {
    type V = PeriodV;

    open spec fn deep_view(&self) -> PeriodV {
        self.view()
    }
}

/// The fully materialized input of one run: declared accounts, the two
/// category tables (in declaration order), and the ordered periods.
pub struct RealBookkeeping {
    pub name: String,
    pub accounts: Vec<String>,
    pub account_types: Vec<(AccountType, Vec<String>)>,
    pub account_sums: Vec<(String, Vec<String>)>,
    pub groupings: Vec<RealGrouping>,
}

/// Mathematical value of the whole ledger.
#[verifier::ext_equal]
pub ghost struct LedgerV {
    pub name: Seq<char>,
    pub accounts: Seq<Seq<char>>,
    pub types_table: Seq<(AccountType, Seq<Seq<char>>)>,
    pub sums_table: Seq<(Seq<char>, Seq<Seq<char>>)>,
    pub periods: Seq<PeriodV>,
}

impl View for RealBookkeeping {
    type V = LedgerV;

    open spec fn view(&self) -> LedgerV {
        LedgerV {
            name: self.name@,
            accounts: self.accounts.deep_view(),
            types_table: self.account_types.deep_view(),
            sums_table: self.account_sums.deep_view(),
            periods: self.groupings.deep_view(),
        }
    }
}

impl DeepView for RealBookkeeping {
    type V = LedgerV;

    open spec fn deep_view(&self) -> LedgerV {
        self.view()
    }
}

/// Why a run was aborted. Every violation is fatal: no partial summary is
/// ever returned.
pub enum LedgerError {
    /// A leg names an account that was never declared.
    UndeclaredAccount { transaction: String, account: String },
    /// A transaction's legs do not net to exactly zero.
    UnbalancedTransaction { transaction: String, computed_sum: Amount },
    /// An identical transfer was inserted twice into one account's
    /// collection, implying a non-unique upstream transaction index.
    DuplicateTransfer { transaction: String },
    /// Two periods share a name.
    DuplicatePeriodName { name: String },
}

/// Mathematical value of a run error.
#[verifier::ext_equal]
pub ghost enum LedgerErrorV {
    UndeclaredAccount { transaction: Seq<char>, account: Seq<char> },
    UnbalancedTransaction { transaction: Seq<char>, computed_sum: int },
    DuplicateTransfer { transaction: Seq<char> },
    DuplicatePeriodName { name: Seq<char> },
}

impl View for LedgerError {
    type V = LedgerErrorV;

    open spec fn view(&self) -> LedgerErrorV {
        match self {
            LedgerError::UndeclaredAccount { transaction, account } => {
                LedgerErrorV::UndeclaredAccount { transaction: transaction@, account: account@ }
            },
            LedgerError::UnbalancedTransaction { transaction, computed_sum } => {
                LedgerErrorV::UnbalancedTransaction {
                    transaction: transaction@,
                    computed_sum: computed_sum@,
                }
            },
            LedgerError::DuplicateTransfer { transaction } => {
                LedgerErrorV::DuplicateTransfer { transaction: transaction@ }
            },
            LedgerError::DuplicatePeriodName { name } => {
                LedgerErrorV::DuplicatePeriodName { name: name@ }
            },
        }
    }
}

impl DeepView for LedgerError {
    type V = LedgerErrorV;

    open spec fn deep_view(&self) -> LedgerErrorV {
        self.view()
    }
}

// ---------------------------------------------------------------------------
// Sums over the ledger.
// ---------------------------------------------------------------------------

/// Sum of the amounts of the first `k` legs of a list.
pub open spec fn legs_sum_upto(legs: Seq<(Seq<char>, int)>, k: int) -> int
    decreases k,
{
    if k <= 0 {
        0
    } else {
        legs_sum_upto(legs, k - 1) + legs[k - 1].1
    }
}

/// Sum of all leg amounts of a list.
pub open spec fn legs_sum(legs: Seq<(Seq<char>, int)>) -> int {
    legs_sum_upto(legs, legs.len() as int)
}

/// What one leg contributes to account `a`.
pub open spec fn leg_amount_for(leg: (Seq<char>, int), a: Seq<char>) -> int {
    if leg.0 == a {
        leg.1
    } else {
        0
    }
}

/// What the first `k` legs of a transaction contribute to account `a`.
pub open spec fn tx_contrib_upto(tx: TxV, k: int, a: Seq<char>) -> int
    decreases k,
{
    if k <= 0 {
        0
    } else {
        tx_contrib_upto(tx, k - 1, a) + leg_amount_for(tx.legs[k - 1], a)
    }
}

/// What a whole transaction contributes to account `a`.
pub open spec fn tx_contrib(tx: TxV, a: Seq<char>) -> int {
    tx_contrib_upto(tx, tx.legs.len() as int, a)
}

/// What the first `t` transactions of a period contribute to account `a`.
pub open spec fn period_total_upto(p: PeriodV, t: int, a: Seq<char>) -> int
    decreases t,
{
    if t <= 0 {
        0
    } else {
        period_total_upto(p, t - 1, a) + tx_contrib(p.txs[t - 1], a)
    }
}

/// The period-local total of account `a`.
pub open spec fn period_total(p: PeriodV, a: Seq<char>) -> int {
    period_total_upto(p, p.txs.len() as int, a)
}

/// What the first `g` periods contribute to account `a`.
pub open spec fn scope_total_upto(ps: Seq<PeriodV>, g: int, a: Seq<char>) -> int
    decreases g,
{
    if g <= 0 {
        0
    } else {
        scope_total_upto(ps, g - 1, a) + period_total(ps[g - 1], a)
    }
}

/// The total of account `a` over a whole scope (one period, or all of them).
pub open spec fn scope_total(ps: Seq<PeriodV>, a: Seq<char>) -> int {
    scope_total_upto(ps, ps.len() as int, a)
}

/// The total of account `a` over the prefix of the traversal that has
/// finished `g` whole periods, `t` whole transactions of period `g`, and `k`
/// legs of transaction `t`.
pub open spec fn prefix_total(ps: Seq<PeriodV>, g: int, t: int, k: int, a: Seq<char>) -> int {
    scope_total_upto(ps, g, a) + if 0 <= g < ps.len() {
        period_total_upto(ps[g], t, a) + if 0 <= t < ps[g].txs.len() {
            tx_contrib_upto(ps[g].txs[t], k, a)
        } else {
            0
        }
    } else {
        0
    }
}

// ---------------------------------------------------------------------------
// Legs, realized transfers, and traversal prefixes.
// ---------------------------------------------------------------------------

/// The account named by leg `ki` of transaction `ti` of period `gi`.
pub open spec fn leg_account(ps: Seq<PeriodV>, gi: int, ti: int, ki: int) -> Seq<char> {
    ps[gi].txs[ti].legs[ki].0
}

/// The transfer realized from leg `ki` of transaction `ti` of period `gi`.
pub open spec fn leg_transfer(ps: Seq<PeriodV>, gi: int, ti: int, ki: int) -> TransferV {
    TransferV {
        date: ps[gi].txs[ti].date,
        name: ps[gi].txs[ti].name,
        amount: ps[gi].txs[ti].legs[ki].1,
        id: TransferIdV {
            period: ps[gi].name,
            transaction: ps[gi].txs[ti].index,
            leg: ki,
        },
        related: ps[gi].txs[ti].legs,
    }
}

/// Whether `(gi, ti, ki)` is a valid leg position strictly before the
/// traversal position `(g, t, k)`.
pub open spec fn leg_in_prefix(
    ps: Seq<PeriodV>,
    g: int,
    t: int,
    k: int,
    gi: int,
    ti: int,
    ki: int,
) -> bool {
    &&& 0 <= gi < ps.len()
    &&& 0 <= ti < ps[gi].txs.len()
    &&& 0 <= ki < ps[gi].txs[ti].legs.len()
    &&& (gi < g || (gi == g && (ti < t || (ti == t && ki < k))))
}

/// Whether some leg in the prefix names account `a`.
pub open spec fn prefix_has(ps: Seq<PeriodV>, g: int, t: int, k: int, a: Seq<char>) -> bool {
    exists|gi: int, ti: int, ki: int|
        leg_in_prefix(ps, g, t, k, gi, ti, ki) && #[trigger] leg_account(ps, gi, ti, ki) == a
}

/// Whether `tv` is the transfer of some prefix leg that names account `a`.
pub open spec fn transfer_in_prefix(
    ps: Seq<PeriodV>,
    g: int,
    t: int,
    k: int,
    a: Seq<char>,
    tv: TransferV,
) -> bool {
    exists|gi: int, ti: int, ki: int|
        leg_in_prefix(ps, g, t, k, gi, ti, ki) && leg_account(ps, gi, ti, ki) == a
            && #[trigger] leg_transfer(ps, gi, ti, ki) == tv
}

/// Whether some leg anywhere in the scope names account `a`.
pub open spec fn scope_has(ps: Seq<PeriodV>, a: Seq<char>) -> bool {
    prefix_has(ps, ps.len() as int, 0, 0, a)
}

/// Whether `tv` is the transfer of some leg in the scope naming account `a`.
pub open spec fn transfer_in_scope(ps: Seq<PeriodV>, a: Seq<char>, tv: TransferV) -> bool {
    transfer_in_prefix(ps, ps.len() as int, 0, 0, a, tv)
}

// ---------------------------------------------------------------------------
// Validity and the first violation of a ledger.
// ---------------------------------------------------------------------------

/// Whether a transaction's legs net to exactly zero.
pub open spec fn tx_balanced(tx: TxV) -> bool {
    legs_sum(tx.legs) == 0
}

/// Whether account `a` was declared.
pub open spec fn account_declared(accounts: Seq<Seq<char>>, a: Seq<char>) -> bool {
    exists|i: int| 0 <= i < accounts.len() && accounts[i] == a
}

/// Whether the leg at `(gi, ti, ki)` realizes a transfer identical to one
/// realized earlier in the traversal for the same account.
pub open spec fn dup_at(ps: Seq<PeriodV>, gi: int, ti: int, ki: int) -> bool {
    exists|gj: int, tj: int, kj: int|
        leg_in_prefix(ps, gi, ti, ki, gj, tj, kj) && leg_account(ps, gj, tj, kj) == leg_account(
            ps,
            gi,
            ti,
            ki,
        ) && #[trigger] leg_transfer(ps, gj, tj, kj) == leg_transfer(ps, gi, ti, ki)
}

/// The violation, if any, at one leg: an undeclared account is reported
/// before a duplicate transfer.
pub open spec fn leg_error(l: LedgerV, g: int, t: int, k: int) -> Option<LedgerErrorV> {
    let tx = l.periods[g].txs[t];
    if !account_declared(l.accounts, tx.legs[k].0) {
        Some(LedgerErrorV::UndeclaredAccount { transaction: tx.name, account: tx.legs[k].0 })
    } else if dup_at(l.periods, g, t, k) {
        Some(LedgerErrorV::DuplicateTransfer { transaction: tx.name })
    } else {
        None
    }
}

/// The first violation of transaction `t` of period `g`, scanning its legs
/// from position `k` on; an unbalanced sum is only reported once every leg
/// has passed.
pub open spec fn tx_error_from(l: LedgerV, g: int, t: int, k: int) -> Option<LedgerErrorV>
    decreases l.periods[g].txs[t].legs.len() - k
        when 0 <= g < l.periods.len() && 0 <= t < l.periods[g].txs.len() && 0 <= k
{
    let tx = l.periods[g].txs[t];
    if k >= tx.legs.len() {
        if legs_sum(tx.legs) != 0 {
            Some(
                LedgerErrorV::UnbalancedTransaction {
                    transaction: tx.name,
                    computed_sum: legs_sum(tx.legs),
                },
            )
        } else {
            None
        }
    } else {
        match leg_error(l, g, t, k) {
            Some(e) => Some(e),
            None => tx_error_from(l, g, t, k + 1),
        }
    }
}

/// The first violation of period `g`, scanning its transactions from `t` on.
pub open spec fn period_error_from(l: LedgerV, g: int, t: int) -> Option<LedgerErrorV>
    decreases l.periods[g].txs.len() - t
        when 0 <= g < l.periods.len() && 0 <= t
{
    if t >= l.periods[g].txs.len() {
        None
    } else {
        match tx_error_from(l, g, t, 0) {
            Some(e) => Some(e),
            None => period_error_from(l, g, t + 1),
        }
    }
}

/// The first violation of the traversal, scanning periods from `g` on.
pub open spec fn ledger_error_from(l: LedgerV, g: int) -> Option<LedgerErrorV>
    decreases l.periods.len() - g
        when 0 <= g
{
    if g >= l.periods.len() {
        None
    } else {
        match period_error_from(l, g, 0) {
            Some(e) => Some(e),
            None => ledger_error_from(l, g + 1),
        }
    }
}

/// Whether the period at position `j` repeats an earlier period's name.
pub open spec fn period_name_dup_at(ps: Seq<PeriodV>, j: int) -> bool {
    exists|i: int| 0 <= i < j && ps[i].name == ps[j].name
}

/// The first repeated period name at or after position `j`.
pub open spec fn first_dup_period_from(ps: Seq<PeriodV>, j: int) -> Option<Seq<char>>
    decreases ps.len() - j
        when 0 <= j
{
    if j >= ps.len() {
        None
    } else if period_name_dup_at(ps, j) {
        Some(ps[j].name)
    } else {
        first_dup_period_from(ps, j + 1)
    }
}

/// The violation that aborts a run, if any: a duplicated period name is
/// detected up front; after that the first violation in traversal order —
/// periods in declaration order, transactions in order, legs in order —
/// decides, exactly as the engine walks the ledger.
pub open spec fn ledger_error(l: LedgerV) -> Option<LedgerErrorV> {
    match first_dup_period_from(l.periods, 0) {
        Some(n) => Some(LedgerErrorV::DuplicatePeriodName { name: n }),
        None => ledger_error_from(l, 0),
    }
}

/// A ledger the engine accepts.
pub open spec fn ledger_valid(l: LedgerV) -> bool {
    ledger_error(l) is None
}

// ---------------------------------------------------------------------------
// Machine limits: comfortable bounds under which every total the engine
// computes provably fits in `i128`.
// ---------------------------------------------------------------------------

/// Most periods a run may have.
pub const MAX_PERIODS: usize = 10_000;

/// Most transactions one period may have.
pub const MAX_TXS: usize = 1_000_000;

/// Most legs one transaction may have.
pub const MAX_TX_LEGS: usize = 1_000;

/// Most member accounts one category may list.
pub const MAX_MEMBERS: usize = 1_000_000;

/// Largest magnitude any account total can reach under these limits.
pub const ACCOUNT_TOTAL_LIMIT: i128 = 100_000_000_000_000_000_000_000_000_000_000;

/// The size bounds under which the engine runs: they keep every sum —
/// per-transaction, per-account, and per-category — well inside `i128`.
pub open spec fn periods_within_limits(ps: Seq<PeriodV>) -> bool {
    &&& ps.len() <= MAX_PERIODS
    &&& forall|g: int| 0 <= g < ps.len() ==> (#[trigger] ps[g]).txs.len() <= MAX_TXS
    &&& forall|g: int, t: int|
        0 <= g < ps.len() && 0 <= t < ps[g].txs.len() ==> (#[trigger] ps[g].txs[t]).legs.len()
            <= MAX_TX_LEGS
    &&& forall|g: int, t: int, k: int|
        0 <= g < ps.len() && 0 <= t < ps[g].txs.len() && 0 <= k < ps[g].txs[t].legs.len()
            ==> -AMOUNT_LIMIT <= (#[trigger] ps[g].txs[t].legs[k]).1 <= AMOUNT_LIMIT
}

/// The machine limits asked of a whole ledger.
pub open spec fn within_limits(l: LedgerV) -> bool {
    &&& periods_within_limits(l.periods)
    &&& forall|j: int|
        0 <= j < l.types_table.len() ==> (#[trigger] l.types_table[j]).1.len() <= MAX_MEMBERS
    &&& forall|j: int|
        0 <= j < l.sums_table.len() ==> (#[trigger] l.sums_table[j]).1.len() <= MAX_MEMBERS
}

// ---------------------------------------------------------------------------
// Executable checks used by the engine and by the loader.
// ---------------------------------------------------------------------------

/// Whether a ledger lies within the engine's size limits; the loader checks
/// this before asking for a summary.
#[verifier::loop_isolation(false)]
pub fn ledger_within_limits(data: &RealBookkeeping) -> (b: bool)
    ensures
        b == within_limits(data@),
{
    let ghost l = data@;
    let ghost ps = l.periods;
    if data.groupings.len() > MAX_PERIODS {
        return false;
    }
    let period_count = data.groupings.len();
    let mut g: usize = 0;
    while g < period_count
        invariant
            g <= period_count,
            forall|gi: int| 0 <= gi < g ==> (#[trigger] ps[gi]).txs.len() <= MAX_TXS,
            forall|gi: int, ti: int|
                0 <= gi < g && 0 <= ti < ps[gi].txs.len() ==> (#[trigger] ps[gi].txs[ti]).legs.len()
                    <= MAX_TX_LEGS,
            forall|gi: int, ti: int, ki: int|
                0 <= gi < g && 0 <= ti < ps[gi].txs.len() && 0 <= ki < ps[gi].txs[ti].legs.len()
                    ==> -AMOUNT_LIMIT <= (#[trigger] ps[gi].txs[ti].legs[ki]).1 <= AMOUNT_LIMIT,
        decreases period_count - g,
    {
        let grouping = &data.groupings[g];
        proof {
            assert(ps[g as int] == data.groupings@[g as int].deep_view());
        }
        if grouping.transactions.len() > MAX_TXS {
            return false;
        }
        let tx_count = grouping.transactions.len();
        let mut t: usize = 0;
        while t < tx_count
            invariant
                t <= tx_count,
                forall|ti: int|
                    0 <= ti < t ==> (#[trigger] ps[g as int].txs[ti]).legs.len() <= MAX_TX_LEGS,
                forall|ti: int, ki: int|
                    0 <= ti < t && 0 <= ki < ps[g as int].txs[ti].legs.len() ==> -AMOUNT_LIMIT <= (
                    #[trigger] ps[g as int].txs[ti].legs[ki]).1 <= AMOUNT_LIMIT,
            decreases tx_count - t,
        {
            let tx = &grouping.transactions[t];
            proof {
                assert(ps[g as int].txs[t as int] == grouping.transactions@[t as int].deep_view());
            }
            if tx.transfers.len() > MAX_TX_LEGS {
                return false;
            }
            let leg_count = tx.transfers.len();
            let mut k: usize = 0;
            while k < leg_count
                invariant
                    k <= leg_count,
                    forall|ki: int|
                        0 <= ki < k ==> -AMOUNT_LIMIT <= (
                        #[trigger] ps[g as int].txs[t as int].legs[ki]).1 <= AMOUNT_LIMIT,
                decreases leg_count - k,
            {
                proof {
                    assert(ps[g as int].txs[t as int].legs[k as int] == tx.transfers@[
                        k as int].deep_view());
                }
                let amount = tx.transfers[k].1;
                if amount.units > AMOUNT_LIMIT || amount.units < -AMOUNT_LIMIT {
                    return false;
                }
                k = k + 1;
            }
            t = t + 1;
        }
        g = g + 1;
    }
    let table_count = data.account_types.len();
    let mut j: usize = 0;
    while j < table_count
        invariant
            j <= table_count,
            forall|q: int| 0 <= q < j ==> (#[trigger] l.types_table[q]).1.len() <= MAX_MEMBERS,
        decreases table_count - j,
    {
        proof {
            assert(l.types_table[j as int] == data.account_types@[j as int].deep_view());
        }
        if data.account_types[j].1.len() > MAX_MEMBERS {
            return false;
        }
        j = j + 1;
    }
    let table_count = data.account_sums.len();
    let mut j: usize = 0;
    while j < table_count
        invariant
            j <= table_count,
            forall|q: int| 0 <= q < j ==> (#[trigger] l.sums_table[q]).1.len() <= MAX_MEMBERS,
        decreases table_count - j,
    {
        proof {
            assert(l.sums_table[j as int] == data.account_sums@[j as int].deep_view());
        }
        if data.account_sums[j].1.len() > MAX_MEMBERS {
            return false;
        }
        j = j + 1;
    }
    true
}

/// Whether `name` occurs in the declared account list.
pub fn account_is_declared(accounts: &Vec<String>, name: &String) -> (b: bool)
    ensures
        b == account_declared(accounts.deep_view(), name@),
{
    let n = accounts.len();
    let mut i: usize = 0;
    while i < n
        invariant
            i <= n,
            n == accounts@.len(),
            forall|j: int|
                0 <= j < i ==> accounts.deep_view()[j] != name@,
        decreases n - i,
    {
        let entry = &accounts[i];
        if *entry == *name {
            proof {
                assert(accounts.deep_view()[i as int] == name@);
            }
            return true;
        }
        proof {
            assert(accounts.deep_view()[i as int] == accounts@[i as int]@);
        }
        i = i + 1;
    }
    false
}

/// Flattens the declared-accounts table into the list of declared account
/// names, in declaration order.
pub open spec fn flatten_names_upto(table: Seq<(AccountType, Seq<Seq<char>>)>, j: int) -> Seq<
    Seq<char>,
>
    decreases j,
{
    if j <= 0 {
        Seq::empty()
    } else {
        flatten_names_upto(table, j - 1) + table[j - 1].1
    }
}

/// All account names declared by the table, in declaration order.
pub open spec fn flatten_names(table: Seq<(AccountType, Seq<Seq<char>>)>) -> Seq<Seq<char>> {
    flatten_names_upto(table, table.len() as int)
}

/// Collects the declared account names out of the typed declaration table;
/// the loader builds the engine's account list with this.
pub fn realize_accounts(table: &Vec<(AccountType, Vec<String>)>) -> (names: Vec<String>)
    ensures
        names.deep_view() == flatten_names(table.deep_view()),
{
    let mut names: Vec<String> = Vec::new();
    let n = table.len();
    let mut j: usize = 0;
    while j < n
        invariant
            j <= n,
            n == table@.len(),
            names.deep_view() =~= flatten_names_upto(table.deep_view(), j as int),
        decreases n - j,
    {
        let group = &table[j];
        let m = group.1.len();
        let mut i: usize = 0;
        while i < m
            invariant
                i <= m,
                j < n,
                n == table@.len(),
                m == group.1@.len(),
                group == &table@[j as int],
                names.deep_view() =~= flatten_names_upto(table.deep_view(), j as int)
                    + table.deep_view()[j as int].1.subrange(0, i as int),
            decreases m - i,
        {
            let ghost prev = names@;
            let ghost prev_dv = names.deep_view();
            let item = group.1[i].clone();
            let ghost c = item;
            names.push(item);
            proof {
                assert(table.deep_view()[j as int] == table@[j as int].deep_view());
                assert(table.deep_view()[j as int].1[i as int] == group.1@[i as int]@);
                assert(c@ == table.deep_view()[j as int].1[i as int]);
                assert(names@ == prev.push(c));
                assert(prev_dv.len() == prev.len());
                let ghost target = flatten_names_upto(table.deep_view(), j as int)
                    + table.deep_view()[j as int].1.subrange(0, i + 1);
                assert(target.len() == prev.len() + 1);
                assert forall|q: int| 0 <= q < names@.len() implies names.deep_view()[q]
                    == target[q] by {
                    assert(names.deep_view()[q] == names@[q].deep_view());
                    if q < prev.len() {
                        assert(names@[q] == prev[q]);
                        assert(prev_dv[q] == prev[q].deep_view());
                        assert(target[q] == prev_dv[q]);
                    } else {
                        assert(names@[q] == c);
                        assert(target[q] == table.deep_view()[j as int].1[i as int]);
                    }
                }
                assert(names.deep_view() =~= target);
            }
            i = i + 1;
        }
        proof {
            assert(table.deep_view()[j as int].1.subrange(
                0,
                table.deep_view()[j as int].1.len() as int,
            ) =~= table.deep_view()[j as int].1);
            assert(names.deep_view() =~= flatten_names_upto(table.deep_view(), j + 1));
        }
        j = j + 1;
    }
    proof {
        assert(names.deep_view() =~= flatten_names(table.deep_view()));
    }
    names
}

/// Finds the first period whose name repeats an earlier period's name.
pub fn first_duplicate_period_name(groupings: &Vec<RealGrouping>) -> (r: Option<String>)
    ensures
        match r {
            Some(name) => first_dup_period_from(groupings.deep_view(), 0) == Some(name@),
            None => first_dup_period_from(groupings.deep_view(), 0) is None,
        },
{
    let n = groupings.len();
    let mut j: usize = 0;
    while j < n
        invariant
            j <= n,
            n == groupings@.len(),
            first_dup_period_from(groupings.deep_view(), 0) == first_dup_period_from(
                groupings.deep_view(),
                j as int,
            ),
            forall|q: int| 0 <= q < j ==> !period_name_dup_at(groupings.deep_view(), q),
        decreases n - j,
    {
        let mut i: usize = 0;
        while i < j
            invariant
                i <= j,
                j < n,
                n == groupings@.len(),
                first_dup_period_from(groupings.deep_view(), 0) == first_dup_period_from(
                    groupings.deep_view(),
                    j as int,
                ),
                forall|q: int|
                    0 <= q < i ==> groupings.deep_view()[q].name
                        != groupings.deep_view()[j as int].name,
            decreases j - i,
        {
            proof {
                assert(groupings.deep_view()[i as int] == groupings@[i as int].deep_view());
                assert(groupings.deep_view()[j as int] == groupings@[j as int].deep_view());
            }
            if groupings[i].name == groupings[j].name {
                proof {
                    assert(period_name_dup_at(groupings.deep_view(), j as int));
                }
                return Some(groupings[j].name.clone());
            }
            i = i + 1;
        }
        proof {
            assert(!period_name_dup_at(groupings.deep_view(), j as int));
        }
        j = j + 1;
    }
    None
}

} // verus!
