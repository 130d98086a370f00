//! The engine's guarantees, stated on their own: what acceptance says about
//! every transaction, which violations force a rejection, and how the global
//! totals relate to the period-local ones.

use vstd::prelude::*;

use crate::ledger::{
    account_declared, dup_at, ledger_error, ledger_error_from, period_error_from,
    period_total, scope_total, scope_total_upto, tx_balanced, tx_error_from, LedgerV,
    PeriodV,
};
use crate::account::SummedAccountV;
use crate::calculate::{category_ok, grouping_ok, summed_ok, SummedBookkeepingV, SummedGroupingV};
use crate::ledger::scope_has;
use crate::summing::{account_summary_ok, active_members_upto};
use crate::transfer::{
    lemma_cmp_transfer_equal, lemma_cmp_transfer_trans, sorted_transfers, transfer_lt, TransferV,
};

verus! {

/// Scanning a period whose earlier transactions are clean finds no violation
/// before transaction `t`.
proof fn lemma_period_error_none_upto(l: LedgerV, g: int, t: int)
    requires
        0 <= g < l.periods.len(),
        0 <= t <= l.periods[g].txs.len(),
        period_error_from(l, g, 0) is None,
    ensures
        period_error_from(l, g, t) is None,
    decreases t,
{
    if t > 0 {
        lemma_period_error_none_upto(l, g, t - 1);
    }
}

/// Scanning a run whose earlier periods are clean finds no violation before
/// period `g`.
proof fn lemma_ledger_error_none_upto(l: LedgerV, g: int)
    requires
        0 <= g <= l.periods.len(),
        ledger_error_from(l, 0) is None,
    ensures
        ledger_error_from(l, g) is None,
    decreases g,
{
    if g > 0 {
        lemma_ledger_error_none_upto(l, g - 1);
    }
}

/// A transaction that scans clean from leg `k` on is balanced, and none of
/// its remaining legs is undeclared or duplicated.
proof fn lemma_tx_error_none_clean(l: LedgerV, g: int, t: int, k: int)
    requires
        0 <= g < l.periods.len(),
        0 <= t < l.periods[g].txs.len(),
        0 <= k <= l.periods[g].txs[t].legs.len(),
        tx_error_from(l, g, t, k) is None,
    ensures
        tx_balanced(l.periods[g].txs[t]),
        forall|q: int|
            k <= q < l.periods[g].txs[t].legs.len() ==> account_declared(
                l.accounts,
                (#[trigger] l.periods[g].txs[t].legs[q]).0,
            ),
        forall|q: int| k <= q < l.periods[g].txs[t].legs.len() ==> !dup_at(l.periods, g, t, q),
    decreases l.periods[g].txs[t].legs.len() - k,
{
    if k < l.periods[g].txs[t].legs.len() {
        lemma_tx_error_none_clean(l, g, t, k + 1);
    }
}

/// In an accepted ledger, every transaction's legs sum to exactly zero, every
/// leg names a declared account, and no transfer is realized twice.
pub proof fn lemma_accepted_ledger_clean(l: LedgerV, g: int, t: int)
    requires
        ledger_error(l) is None,
        0 <= g < l.periods.len(),
        0 <= t < l.periods[g].txs.len(),
    ensures
        tx_balanced(l.periods[g].txs[t]),
        forall|q: int|
            0 <= q < l.periods[g].txs[t].legs.len() ==> account_declared(
                l.accounts,
                (#[trigger] l.periods[g].txs[t].legs[q]).0,
            ),
        forall|q: int| 0 <= q < l.periods[g].txs[t].legs.len() ==> !dup_at(l.periods, g, t, q),
{
    lemma_ledger_error_none_upto(l, g);
    lemma_period_error_none_upto(l, g, t);
    lemma_tx_error_none_clean(l, g, t, 0);
}

/// A transaction whose legs do not net to zero forces the whole run to be
/// rejected: no summary is ever produced from it.
pub proof fn lemma_unbalanced_rejected(l: LedgerV, g: int, t: int)
    requires
        0 <= g < l.periods.len(),
        0 <= t < l.periods[g].txs.len(),
        !tx_balanced(l.periods[g].txs[t]),
    ensures
        ledger_error(l) is Some,
{
    if ledger_error(l) is None {
        lemma_accepted_ledger_clean(l, g, t);
    }
}

/// A leg naming an undeclared account forces the whole run to be rejected:
/// no summary is ever produced from it.
pub proof fn lemma_undeclared_rejected(l: LedgerV, g: int, t: int, k: int)
    requires
        0 <= g < l.periods.len(),
        0 <= t < l.periods[g].txs.len(),
        0 <= k < l.periods[g].txs[t].legs.len(),
        !account_declared(l.accounts, l.periods[g].txs[t].legs[k].0),
    ensures
        ledger_error(l) is Some,
{
    if ledger_error(l) is None {
        lemma_accepted_ledger_clean(l, g, t);
    }
}

/// Scanning a transaction whose legs are all declared and duplicate-free
/// reports its imbalance, if any, and nothing else.
proof fn lemma_tx_error_balance_only(l: LedgerV, g: int, t: int, k: int)
    requires
        0 <= g < l.periods.len(),
        0 <= t < l.periods[g].txs.len(),
        0 <= k <= l.periods[g].txs[t].legs.len(),
        forall|q: int|
            0 <= q < l.periods[g].txs[t].legs.len() ==> account_declared(
                l.accounts,
                (#[trigger] l.periods[g].txs[t].legs[q]).0,
            ),
        forall|q: int| 0 <= q < l.periods[g].txs[t].legs.len() ==> !dup_at(l.periods, g, t, q),
    ensures
        tx_balanced(l.periods[g].txs[t]) ==> tx_error_from(l, g, t, k) is None,
        !tx_balanced(l.periods[g].txs[t]) ==> (tx_error_from(l, g, t, k) matches Some(e)
            && e is UnbalancedTransaction),
    decreases l.periods[g].txs[t].legs.len() - k,
{
    if k < l.periods[g].txs[t].legs.len() {
        lemma_tx_error_balance_only(l, g, t, k + 1);
    }
}

/// In a run where every leg is declared and duplicate-free, the only
/// violation a period scan can report is an unbalanced transaction.
proof fn lemma_period_error_balance_only(l: LedgerV, g: int, t: int)
    requires
        0 <= g < l.periods.len(),
        0 <= t <= l.periods[g].txs.len(),
        forall|ti: int, q: int|
            0 <= ti < l.periods[g].txs.len() && 0 <= q < l.periods[g].txs[ti].legs.len()
                ==> account_declared(l.accounts, (#[trigger] l.periods[g].txs[ti].legs[q]).0),
        forall|ti: int, q: int|
            0 <= ti < l.periods[g].txs.len() && 0 <= q < l.periods[g].txs[ti].legs.len()
                ==> !(#[trigger] dup_at(l.periods, g, ti, q)),
    ensures
        period_error_from(l, g, t) is None || (period_error_from(l, g, t) matches Some(e)
            && e is UnbalancedTransaction),
    decreases l.periods[g].txs.len() - t,
{
    if t < l.periods[g].txs.len() {
        lemma_tx_error_balance_only(l, g, t, 0);
        lemma_period_error_balance_only(l, g, t + 1);
    }
}

/// In a run with unique period names where every leg names a declared account
/// and no transfer repeats, an unbalanced transaction is reported as exactly
/// that: the run fails with an unbalanced-transaction violation.
pub proof fn lemma_unbalanced_reported(l: LedgerV, g: int, t: int)
    requires
        0 <= g < l.periods.len(),
        0 <= t < l.periods[g].txs.len(),
        !tx_balanced(l.periods[g].txs[t]),
        crate::ledger::first_dup_period_from(l.periods, 0) is None,
        forall|gi: int, ti: int, q: int|
            0 <= gi < l.periods.len() && 0 <= ti < l.periods[gi].txs.len() && 0 <= q
                < l.periods[gi].txs[ti].legs.len() ==> account_declared(
                l.accounts,
                (#[trigger] l.periods[gi].txs[ti].legs[q]).0,
            ),
        forall|gi: int, ti: int, q: int|
            0 <= gi < l.periods.len() && 0 <= ti < l.periods[gi].txs.len() && 0 <= q
                < l.periods[gi].txs[ti].legs.len() ==> !(#[trigger] dup_at(l.periods, gi, ti, q)),
    ensures
        ledger_error(l) matches Some(e) && e is UnbalancedTransaction,
{
    lemma_unbalanced_rejected(l, g, t);
    lemma_ledger_error_balance_only(l, 0);
}

/// In such a run, a scan from any period on reports nothing but an
/// unbalanced transaction.
proof fn lemma_ledger_error_balance_only(l: LedgerV, g: int)
    requires
        0 <= g <= l.periods.len(),
        forall|gi: int, ti: int, q: int|
            0 <= gi < l.periods.len() && 0 <= ti < l.periods[gi].txs.len() && 0 <= q
                < l.periods[gi].txs[ti].legs.len() ==> account_declared(
                l.accounts,
                (#[trigger] l.periods[gi].txs[ti].legs[q]).0,
            ),
        forall|gi: int, ti: int, q: int|
            0 <= gi < l.periods.len() && 0 <= ti < l.periods[gi].txs.len() && 0 <= q
                < l.periods[gi].txs[ti].legs.len() ==> !(#[trigger] dup_at(l.periods, gi, ti, q)),
    ensures
        ledger_error_from(l, g) is None || (ledger_error_from(l, g) matches Some(e)
            && e is UnbalancedTransaction),
    decreases l.periods.len() - g,
{
    if g < l.periods.len() {
        assert forall|ti: int, q: int|
            0 <= ti < l.periods[g].txs.len() && 0 <= q
                < l.periods[g].txs[ti].legs.len() implies account_declared(
            l.accounts,
            (#[trigger] l.periods[g].txs[ti].legs[q]).0,
        ) by {}
        lemma_period_error_balance_only(l, g, 0);
        lemma_ledger_error_balance_only(l, g + 1);
    }
}

/// Scanning a transaction whose legs are all balanced into zero and free of
/// duplicates reports its first undeclared account, if any, and nothing else.
proof fn lemma_tx_error_declared_only(l: LedgerV, g: int, t: int, k: int)
    requires
        0 <= g < l.periods.len(),
        0 <= t < l.periods[g].txs.len(),
        0 <= k <= l.periods[g].txs[t].legs.len(),
        tx_balanced(l.periods[g].txs[t]),
        forall|q: int| 0 <= q < l.periods[g].txs[t].legs.len() ==> !dup_at(l.periods, g, t, q),
    ensures
        tx_error_from(l, g, t, k) is None || (tx_error_from(l, g, t, k) matches Some(e)
            && e is UndeclaredAccount),
    decreases l.periods[g].txs[t].legs.len() - k,
{
    if k < l.periods[g].txs[t].legs.len() {
        lemma_tx_error_declared_only(l, g, t, k + 1);
    }
}

/// In a run of balanced, duplicate-free transactions, the only violation a
/// period scan can report is an undeclared account.
proof fn lemma_period_error_declared_only(l: LedgerV, g: int, t: int)
    requires
        0 <= g < l.periods.len(),
        0 <= t <= l.periods[g].txs.len(),
        forall|ti: int|
            0 <= ti < l.periods[g].txs.len() ==> tx_balanced(#[trigger] l.periods[g].txs[ti]),
        forall|ti: int, q: int|
            0 <= ti < l.periods[g].txs.len() && 0 <= q < l.periods[g].txs[ti].legs.len()
                ==> !(#[trigger] dup_at(l.periods, g, ti, q)),
    ensures
        period_error_from(l, g, t) is None || (period_error_from(l, g, t) matches Some(e)
            && e is UndeclaredAccount),
    decreases l.periods[g].txs.len() - t,
{
    if t < l.periods[g].txs.len() {
        lemma_tx_error_declared_only(l, g, t, 0);
        lemma_period_error_declared_only(l, g, t + 1);
    }
}

/// In such a run, a scan from any period on reports nothing but an
/// undeclared account.
proof fn lemma_ledger_error_declared_only(l: LedgerV, g: int)
    requires
        0 <= g <= l.periods.len(),
        forall|gi: int, ti: int|
            0 <= gi < l.periods.len() && 0 <= ti < l.periods[gi].txs.len() ==> tx_balanced(
                #[trigger] l.periods[gi].txs[ti],
            ),
        forall|gi: int, ti: int, q: int|
            0 <= gi < l.periods.len() && 0 <= ti < l.periods[gi].txs.len() && 0 <= q
                < l.periods[gi].txs[ti].legs.len() ==> !(#[trigger] dup_at(l.periods, gi, ti, q)),
    ensures
        ledger_error_from(l, g) is None || (ledger_error_from(l, g) matches Some(e)
            && e is UndeclaredAccount),
    decreases l.periods.len() - g,
{
    if g < l.periods.len() {
        lemma_period_error_declared_only(l, g, 0);
        lemma_ledger_error_declared_only(l, g + 1);
    }
}

/// In a run with unique period names, balanced transactions and no repeated
/// transfer, a leg naming an undeclared account is reported as exactly that:
/// the run fails with an undeclared-account violation before any output.
pub proof fn lemma_undeclared_reported(l: LedgerV, g: int, t: int, k: int)
    requires
        0 <= g < l.periods.len(),
        0 <= t < l.periods[g].txs.len(),
        0 <= k < l.periods[g].txs[t].legs.len(),
        !account_declared(l.accounts, l.periods[g].txs[t].legs[k].0),
        crate::ledger::first_dup_period_from(l.periods, 0) is None,
        forall|gi: int, ti: int|
            0 <= gi < l.periods.len() && 0 <= ti < l.periods[gi].txs.len() ==> tx_balanced(
                #[trigger] l.periods[gi].txs[ti],
            ),
        forall|gi: int, ti: int, q: int|
            0 <= gi < l.periods.len() && 0 <= ti < l.periods[gi].txs.len() && 0 <= q
                < l.periods[gi].txs[ti].legs.len() ==> !(#[trigger] dup_at(l.periods, gi, ti, q)),
    ensures
        ledger_error(l) matches Some(e) && e is UndeclaredAccount,
{
    lemma_undeclared_rejected(l, g, t, k);
    lemma_ledger_error_declared_only(l, 0);
}

/// Additivity of the two scopes: over two periods in order, the global total
/// of an account is exactly the sum of its two period-local totals.
pub proof fn lemma_global_total_additive(g1: PeriodV, g2: PeriodV, a: Seq<char>)
    ensures
        scope_total(seq![g1, g2], a) == period_total(g1, a) + period_total(g2, a),
        scope_total(seq![g1], a) == period_total(g1, a),
        scope_total(seq![g2], a) == period_total(g2, a),
{
    let ps = seq![g1, g2];
    assert(ps[0] == g1);
    assert(ps[1] == g2);
    assert(scope_total_upto(ps, 0, a) == 0);
    assert(scope_total_upto(ps, 1, a) == period_total(g1, a));
    assert(scope_total_upto(ps, 2, a) == period_total(g1, a) + period_total(g2, a));
    let p1 = seq![g1];
    assert(p1[0] == g1);
    assert(scope_total_upto(p1, 0, a) == 0);
    assert(scope_total_upto(p1, 1, a) == period_total(g1, a));
    let p2 = seq![g2];
    assert(p2[0] == g2);
    assert(scope_total_upto(p2, 0, a) == 0);
    assert(scope_total_upto(p2, 1, a) == period_total(g2, a));
}

/// Every member list of the output only names accounts with activity in
/// scope: a declared member that saw nothing never appears.
proof fn lemma_active_members_have_activity(
    ps: Seq<PeriodV>,
    members: Seq<Seq<char>>,
    i: int,
)
    requires
        0 <= i <= members.len(),
    ensures
        forall|q: int|
            0 <= q < active_members_upto(ps, members, i).len() ==> scope_has(
                ps,
                #[trigger] active_members_upto(ps, members, i)[q],
            ),
    decreases i,
{
    if i > 0 {
        lemma_active_members_have_activity(ps, members, i - 1);
        let prev = active_members_upto(ps, members, i - 1);
        let cur = active_members_upto(ps, members, i);
        assert forall|q: int| 0 <= q < cur.len() implies scope_has(ps, #[trigger] cur[q]) by {
            if scope_has(ps, members[i - 1]) {
                if q < prev.len() {
                    assert(cur[q] == prev[q]);
                } else {
                    assert(cur[q] == members[i - 1]);
                }
            } else {
                assert(cur[q] == prev[q]);
            }
        }
    }
}

/// In a correct category, every listed member account saw activity in scope
/// and carries its exact scope total.
pub proof fn lemma_category_members_active(
    ps: Seq<PeriodV>,
    members: Seq<Seq<char>>,
    total: int,
    accounts: Seq<SummedAccountV>,
)
    requires
        category_ok(ps, members, total, accounts),
    ensures
        forall|q: int|
            0 <= q < accounts.len() ==> scope_has(ps, (#[trigger] accounts[q]).name)
                && accounts[q].sum == scope_total(ps, accounts[q].name),
{
    lemma_active_members_have_activity(ps, members, members.len() as int);
    assert forall|q: int| 0 <= q < accounts.len() implies scope_has(
        ps,
        (#[trigger] accounts[q]).name,
    ) && accounts[q].sum == scope_total(ps, accounts[q].name) by {
        assert(accounts[q].name == active_members_upto(ps, members, members.len() as int)[q]);
        assert(account_summary_ok(ps, accounts[q]));
    }
}

/// Two strictly sorted transfer sequences holding the same transfers are the
/// same sequence: the sorted order is a canonical form.
pub proof fn lemma_sorted_transfers_canonical(s1: Seq<TransferV>, s2: Seq<TransferV>)
    requires
        sorted_transfers(s1),
        sorted_transfers(s2),
        forall|tv: TransferV| s1.contains(tv) <==> s2.contains(tv),
    ensures
        s1 == s2,
    decreases s1.len(),
{
    if s1.len() == 0 {
        if s2.len() > 0 {
            assert(s2.contains(s2[0]));
            assert(s1.contains(s2[0]));
        }
        assert(s1 =~= s2);
    } else {
        assert(s1.contains(s1[0]));
        assert(s2.contains(s1[0]));
        assert(s2.len() > 0);
        let a = s1[0];
        let b = s2[0];
        if a != b {
            assert(s2.contains(b)) by {
                assert(s2[0] == b);
            }
            assert(s1.contains(b));
            let i = choose|i: int| 0 <= i < s1.len() && s1[i] == b;
            assert(i > 0);
            assert(transfer_lt(a, b));
            assert(s2.contains(a));
            let j = choose|j: int| 0 <= j < s2.len() && s2[j] == a;
            assert(j > 0);
            assert(transfer_lt(b, a));
            lemma_cmp_transfer_trans(a, b, a);
            lemma_cmp_transfer_equal(a, a);
            assert(false);
        }
        let t1 = s1.drop_first();
        let t2 = s2.drop_first();
        assert forall|p: int, q: int| 0 <= p < q < t1.len() implies transfer_lt(t1[p], t1[q]) by {
            assert(t1[p] == s1[p + 1]);
            assert(t1[q] == s1[q + 1]);
        }
        assert forall|p: int, q: int| 0 <= p < q < t2.len() implies transfer_lt(t2[p], t2[q]) by {
            assert(t2[p] == s2[p + 1]);
            assert(t2[q] == s2[q + 1]);
        }
        assert forall|tv: TransferV| t1.contains(tv) <==> t2.contains(tv) by {
            if t1.contains(tv) {
                let p = choose|p: int| 0 <= p < t1.len() && t1[p] == tv;
                assert(s1[p + 1] == tv);
                assert(transfer_lt(a, tv));
                assert(s1.contains(tv));
                assert(s2.contains(tv));
                let q = choose|q: int| 0 <= q < s2.len() && s2[q] == tv;
                assert(q > 0) by {
                    lemma_cmp_transfer_equal(a, tv);
                }
                assert(t2[q - 1] == tv);
                assert(t2.contains(tv));
            }
            if t2.contains(tv) {
                let p = choose|p: int| 0 <= p < t2.len() && t2[p] == tv;
                assert(s2[p + 1] == tv);
                assert(transfer_lt(b, tv));
                assert(s2.contains(tv));
                assert(s1.contains(tv));
                let q = choose|q: int| 0 <= q < s1.len() && s1[q] == tv;
                assert(q > 0) by {
                    lemma_cmp_transfer_equal(b, tv);
                }
                assert(t1[q - 1] == tv);
                assert(t1.contains(tv));
            }
        }
        lemma_sorted_transfers_canonical(t1, t2);
        assert forall|q: int| 0 <= q < s1.len() implies s1[q] == s2[q] by {
            if q > 0 {
                assert(s1[q] == t1[q - 1]);
                assert(s2[q] == t2[q - 1]);
            }
        }
        assert(s1 =~= s2);
    }
}

/// Two categories correct for the same scope and member list are the same
/// category.
proof fn lemma_category_unique(
    ps: Seq<PeriodV>,
    members: Seq<Seq<char>>,
    total1: int,
    accounts1: Seq<SummedAccountV>,
    total2: int,
    accounts2: Seq<SummedAccountV>,
)
    requires
        category_ok(ps, members, total1, accounts1),
        category_ok(ps, members, total2, accounts2),
    ensures
        total1 == total2,
        accounts1 == accounts2,
{
    assert forall|q: int| 0 <= q < accounts1.len() implies accounts1[q] == accounts2[q] by {
        assert(account_summary_ok(ps, accounts1[q]));
        assert(account_summary_ok(ps, accounts2[q]));
        assert(accounts1[q].name == accounts2[q].name);
        lemma_sorted_transfers_canonical(accounts1[q].transfers, accounts2[q].transfers);
        assert(accounts1[q] =~= accounts2[q]);
    }
    assert(accounts1 =~= accounts2);
}

/// Two rollups correct for the same scope and tables are the same rollup.
proof fn lemma_grouping_unique(
    ps: Seq<PeriodV>,
    types_table: Seq<(crate::ledger::AccountType, Seq<Seq<char>>)>,
    sums_table: Seq<(Seq<char>, Seq<Seq<char>>)>,
    sg1: SummedGroupingV,
    sg2: SummedGroupingV,
)
    requires
        grouping_ok(ps, types_table, sums_table, sg1),
        grouping_ok(ps, types_table, sums_table, sg2),
    ensures
        sg1 == sg2,
{
    assert forall|j: int|
        0 <= j < types_table.len() implies #[trigger] sg1.account_types[j]
        == sg2.account_types[j] by {
        lemma_category_unique(
            ps,
            types_table[j].1,
            sg1.account_types[j].1,
            sg1.account_types[j].2,
            sg2.account_types[j].1,
            sg2.account_types[j].2,
        );
        assert(sg1.account_types[j] =~= sg2.account_types[j]);
    }
    assert forall|j: int|
        0 <= j < sums_table.len() implies #[trigger] sg1.account_sums[j]
        == sg2.account_sums[j] by {
        lemma_category_unique(
            ps,
            sums_table[j].1,
            sg1.account_sums[j].1,
            sg1.account_sums[j].2,
            sg2.account_sums[j].1,
            sg2.account_sums[j].2,
        );
        assert(sg1.account_sums[j] =~= sg2.account_sums[j]);
    }
    assert(sg1.account_types =~= sg2.account_types);
    assert(sg1.account_sums =~= sg2.account_sums);
    assert(sg1 =~= sg2);
}

/// The promised summary of a ledger is unique: what the engine's contract
/// states determines every part of the output, down to each transfer.
pub proof fn lemma_summary_unique(l: LedgerV, s1: SummedBookkeepingV, s2: SummedBookkeepingV)
    requires
        summed_ok(l, s1),
        summed_ok(l, s2),
    ensures
        s1 == s2,
{
    lemma_grouping_unique(l.periods, l.types_table, l.sums_table, s1.total, s2.total);
    assert forall|g: int| 0 <= g < l.periods.len() implies #[trigger] s1.groupings[g]
        == s2.groupings[g] by {
        lemma_grouping_unique(
            l.periods.subrange(g, g + 1),
            l.types_table,
            l.sums_table,
            s1.groupings[g].1,
            s2.groupings[g].1,
        );
        assert(s1.groupings[g] =~= s2.groupings[g]);
    }
    assert(s1.groupings =~= s2.groupings);
    assert(s1 =~= s2);
}

} // verus!
