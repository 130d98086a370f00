//! The summary assembler: one pass over the ordered periods feeds every leg
//! through validation into a period-local and a run-global accumulator, rolls
//! each period up as it completes, and rolls the global accumulator up once
//! at the end. The pass aborts on the first violation with no partial output.

use vstd::prelude::*;

use crate::account::{acc_index, acc_wf, Accumulator, lemma_acc_index, SummedAccount, SummedAccountV};
use crate::amount::{Amount, AMOUNT_LIMIT};
use crate::ledger::{
    account_declared, account_is_declared, dup_at, first_duplicate_period_name, ledger_error, ledger_error_from, leg_account, leg_in_prefix,
    leg_transfer, legs_sum, legs_sum_upto, period_error_from, prefix_has, transfer_in_prefix, tx_error_from, AccountType, LedgerError, LedgerV, PeriodV,
    RealBookkeeping, within_limits, ACCOUNT_TOTAL_LIMIT, };
use crate::rollup::{rollup_sums, rollup_types};
use crate::summing::{
    account_summary_ok, acc_matches, active_members, lemma_local_transfer_in_global,
    lemma_matcher_advance_period, lemma_matcher_advance_tx, lemma_matcher_empty,
    lemma_matcher_step, lemma_prefix_total_bound, lemma_rollup_to_scope, lemma_subrange_limits,
    scope_members_total,
};
use crate::transfer::{clone_legs, Transfer, TransferId};

verus! {

/// One scope's rollup along both dimensions: per account type and per named
/// category, each in declaration order with its total and the member
/// accounts that saw activity.
pub struct SummedGrouping {
    pub account_types: Vec<(AccountType, Amount, Vec<SummedAccount>)>,
    pub account_sums: Vec<(String, Amount, Vec<SummedAccount>)>,
}

/// Mathematical value of a scope's rollup.
#[verifier::ext_equal]
pub ghost struct SummedGroupingV {
    pub account_types: Seq<(AccountType, int, Seq<SummedAccountV>)>,
    pub account_sums: Seq<(Seq<char>, int, Seq<SummedAccountV>)>,
}

impl View for SummedGrouping {
    type V = SummedGroupingV;

    open spec fn view(&self) -> SummedGroupingV {
        SummedGroupingV {
            account_types: self.account_types.deep_view(),
            account_sums: self.account_sums.deep_view(),
        }
    }
}

impl DeepView for SummedGrouping {
    type V = SummedGroupingV;

    open spec fn deep_view(&self) -> SummedGroupingV {
        self.view()
    }
}

/// The full result of a run: the run name, the rollup over all periods, and
/// one rollup per period, in declared period order.
pub struct SummedBookkeeping {
    pub name: String,
    pub total: SummedGrouping,
    pub groupings: Vec<(String, SummedGrouping)>,
}

/// Mathematical value of a run's result.
#[verifier::ext_equal]
pub ghost struct SummedBookkeepingV {
    pub name: Seq<char>,
    pub total: SummedGroupingV,
    pub groupings: Seq<(Seq<char>, SummedGroupingV)>,
}

impl View for SummedBookkeeping {
    type V = SummedBookkeepingV;

    open spec fn view(&self) -> SummedBookkeepingV {
        SummedBookkeepingV {
            name: self.name@,
            total: self.total@,
            groupings: self.groupings.deep_view(),
        }
    }
}

impl DeepView for SummedBookkeeping {
    type V = SummedBookkeepingV;

    open spec fn deep_view(&self) -> SummedBookkeepingV {
        self.view()
    }
}

/// One category of the output is correct for the scope `ps`: its total is the
/// sum of its members' scope totals (an inactive member contributing zero),
/// and its member list holds exactly the members with activity, in member
/// declaration order, each with its exact total and its ordered transfers.
pub open spec fn category_ok(
    ps: Seq<PeriodV>,
    members: Seq<Seq<char>>,
    total: int,
    accounts: Seq<SummedAccountV>,
) -> bool {
    &&& total == scope_members_total(ps, members)
    &&& accounts.len() == active_members(ps, members).len()
    &&& forall|q: int|
        0 <= q < accounts.len() ==> (#[trigger] accounts[q]).name == active_members(ps, members)[q]
            && account_summary_ok(ps, accounts[q])
}

/// A whole rollup is correct for the scope `ps`: both dimensions keep their
/// table's declaration order and every category is correct.
pub open spec fn grouping_ok(
    ps: Seq<PeriodV>,
    types_table: Seq<(AccountType, Seq<Seq<char>>)>,
    sums_table: Seq<(Seq<char>, Seq<Seq<char>>)>,
    sg: SummedGroupingV,
) -> bool {
    &&& sg.account_types.len() == types_table.len()
    &&& forall|j: int|
        0 <= j < types_table.len() ==> (#[trigger] sg.account_types[j]).0 == types_table[j].0
            && category_ok(ps, types_table[j].1, sg.account_types[j].1, sg.account_types[j].2)
    &&& sg.account_sums.len() == sums_table.len()
    &&& forall|j: int|
        0 <= j < sums_table.len() ==> (#[trigger] sg.account_sums[j]).0 == sums_table[j].0
            && category_ok(ps, sums_table[j].1, sg.account_sums[j].1, sg.account_sums[j].2)
}

/// The whole summary is correct for the ledger: the run name is kept, the
/// overall rollup covers all periods, and the per-period rollups appear in
/// declared period order, each correct for its own period alone.
pub open spec fn summed_ok(l: LedgerV, s: SummedBookkeepingV) -> bool {
    &&& s.name == l.name
    &&& grouping_ok(l.periods, l.types_table, l.sums_table, s.total)
    &&& s.groupings.len() == l.periods.len()
    &&& forall|g: int|
        0 <= g < l.periods.len() ==> (#[trigger] s.groupings[g]).0 == l.periods[g].name
            && grouping_ok(
            l.periods.subrange(g, g + 1),
            l.types_table,
            l.sums_table,
            s.groupings[g].1,
        )
}

/// Turns a validated ledger into its full summary. The ledger is accepted
/// exactly when it has no violation; on the first violation — in traversal
/// order — the run aborts with that violation and no partial output.
#[verifier::loop_isolation(false)]
#[verifier::rlimit(100)]
pub fn calculate(data: &RealBookkeeping) -> (r: Result<SummedBookkeeping, LedgerError>)
    requires
        within_limits(data@),
    ensures
        (r is Ok) == (ledger_error(data@) is None),
        r matches Err(e) ==> ledger_error(data@) == Some(e@),
        r matches Ok(s) ==> summed_ok(data@, s@),
{
    let ghost l = data@;
    let ghost ps = l.periods;

    if let Some(name) = first_duplicate_period_name(&data.groupings) {
        return Err(LedgerError::DuplicatePeriodName { name });
    }

    let mut global = Accumulator::new();
    let mut out: Vec<(String, SummedGrouping)> = Vec::new();
    proof {
        lemma_matcher_empty(ps);
    }
    let period_count = data.groupings.len();
    let mut g: usize = 0;
    while g < period_count
        invariant
            g <= period_count,
            acc_wf(global@),
            acc_matches(global@, ps, g as int, 0, 0),
            ledger_error_from(l, 0) == ledger_error_from(l, g as int),
            out@.len() == g as int,
            forall|q: int|
                0 <= q < g ==> (#[trigger] out.deep_view()[q]).0 == ps[q].name && grouping_ok(
                    ps.subrange(q, q + 1),
                    l.types_table,
                    l.sums_table,
                    out.deep_view()[q].1,
                ),
        decreases period_count - g,
    {
        let grouping = &data.groupings[g];
        proof {
            assert(ps[g as int] == data.groupings@[g as int].deep_view());
        }
        let ghost ps_local = ps.subrange(g as int, g as int + 1);
        proof {
            lemma_subrange_limits(ps, g as int);
            lemma_matcher_empty(ps_local);
            assert(ps_local[0] == ps[g as int]);
        }
        let mut local = Accumulator::new();
        let tx_count = grouping.transactions.len();
        let mut t: usize = 0;
        while t < tx_count
            invariant
                t <= tx_count,
                acc_wf(global@),
                acc_matches(global@, ps, g as int, t as int, 0),
                acc_wf(local@),
                acc_matches(local@, ps_local, 0, t as int, 0),
                period_error_from(l, g as int, 0) == period_error_from(l, g as int, t as int),
            decreases tx_count - t,
        {
            let tx = &grouping.transactions[t];
            proof {
                assert(ps[g as int].txs[t as int] == grouping.transactions@[t as int].deep_view());
            }
            let leg_count = tx.transfers.len();
            let mut sum = Amount::zero();
            let mut k: usize = 0;
            while k < leg_count
                invariant
                    k <= leg_count,
                    acc_wf(global@),
                    acc_matches(global@, ps, g as int, t as int, k as int),
                    acc_wf(local@),
                    acc_matches(local@, ps_local, 0, t as int, k as int),
                    sum@ == legs_sum_upto(ps[g as int].txs[t as int].legs, k as int),
                    -(k as int * AMOUNT_LIMIT) <= sum@ <= k as int * AMOUNT_LIMIT,
                    tx_error_from(l, g as int, t as int, 0) == tx_error_from(
                        l,
                        g as int,
                        t as int,
                        k as int,
                    ),
                decreases leg_count - k,
            {
                let ghost legs = ps[g as int].txs[t as int].legs;
                proof {
                    assert(legs[k as int] == tx.transfers@[k as int].deep_view());
                }
                let leg = &tx.transfers[k];
                proof {
                    assert(leg.0@ == legs[k as int].0);
                    assert(leg.1@ == legs[k as int].1);
                }
                if !account_is_declared(&data.accounts, &leg.0) {
                    proof {
                        assert(tx_error_from(l, g as int, t as int, k as int) matches Some(e));
                    }
                    return Err(
                        LedgerError::UndeclaredAccount {
                            transaction: tx.name.clone(),
                            account: leg.0.clone(),
                        },
                    );
                }
                let transfer = Transfer {
                    date: tx.date,
                    name: tx.name.clone(),
                    amount: leg.1,
                    id: TransferId {
                        period: grouping.name.clone(),
                        transaction: tx.index,
                        leg: k,
                    },
                    related: clone_legs(&tx.transfers),
                };
                let ghost tv = transfer@;
                proof {
                    assert(tv =~= leg_transfer(ps, g as int, t as int, k as int));
                    assert(leg.0@ == leg_account(ps, g as int, t as int, k as int));
                    assert(-AMOUNT_LIMIT <= legs[k as int].1 <= AMOUNT_LIMIT);
                    lemma_acc_index(global@, leg.0@, 0);
                    if acc_index(global@, leg.0@) >= 0 {
                        lemma_prefix_total_bound(ps, g as int, t as int, k as int, leg.0@);
                    }
                    lemma_acc_index(local@, leg.0@, 0);
                    if acc_index(local@, leg.0@) >= 0 {
                        lemma_prefix_total_bound(ps_local, 0, t as int, k as int, leg.0@);
                    }
                }
                let transfer_local = transfer.duplicate();
                let ghost global_before = global@;
                let ghost local_before = local@;
                let ok_global = global.apply_leg(&leg.0, leg.1, transfer);
                if !ok_global {
                    proof {
                        let j = acc_index(global_before, leg.0@);
                        assert(j >= 0);
                        assert(global_before[j].name == leg.0@);
                        assert(global_before[j].transfers.contains(tv));
                        assert(transfer_in_prefix(ps, g as int, t as int, k as int, leg.0@, tv));
                        let (gj, tj, kj) = choose|gj: int, tj: int, kj: int|
                            leg_in_prefix(ps, g as int, t as int, k as int, gj, tj, kj)
                                && leg_account(ps, gj, tj, kj) == leg.0@ && #[trigger] leg_transfer(
                                ps,
                                gj,
                                tj,
                                kj,
                            ) == tv;
                        assert(dup_at(ps, g as int, t as int, k as int));
                        assert(tx_error_from(l, g as int, t as int, k as int) matches Some(e));
                    }
                    return Err(LedgerError::DuplicateTransfer { transaction: tx.name.clone() });
                }
                proof {
                    // the leg is not a duplicate anywhere, so the period-local
                    // insertion cannot collide either
                    if acc_index(local_before, leg.0@) >= 0 {
                        let j = acc_index(local_before, leg.0@);
                        if local_before[j].transfers.contains(tv) {
                            assert(transfer_in_prefix(ps_local, 0, t as int, k as int, leg.0@, tv));
                            lemma_local_transfer_in_global(
                                ps,
                                g as int,
                                t as int,
                                k as int,
                                leg.0@,
                                tv,
                            );
                            assert(prefix_has(ps, g as int, t as int, k as int, leg.0@)) by {
                                let (gj, tj, kj) = choose|gj: int, tj: int, kj: int|
                                    leg_in_prefix(ps, g as int, t as int, k as int, gj, tj, kj)
                                        && leg_account(ps, gj, tj, kj) == leg.0@
                                        && #[trigger] leg_transfer(ps, gj, tj, kj) == tv;
                                assert(leg_account(ps, gj, tj, kj) == leg.0@);
                            }
                            let jg = acc_index(global_before, leg.0@);
                            lemma_acc_index(global_before, leg.0@, 0);
                            assert(global_before[jg].transfers.contains(tv));
                            assert(false);
                        }
                    }
                }
                let ok_local = local.apply_leg(&leg.0, leg.1, transfer_local);
                if !ok_local {
                    proof {
                        assert(false);
                    }
                    return Err(LedgerError::DuplicateTransfer { transaction: tx.name.clone() });
                }
                proof {
                    lemma_matcher_step(global_before, global@, ps, g as int, t as int, k as int);
                    lemma_matcher_step(local_before, local@, ps_local, 0, t as int, k as int);
                    // no violation at this leg
                    assert(account_declared(l.accounts, legs[k as int].0));
                    assert(!dup_at(ps, g as int, t as int, k as int)) by {
                        if dup_at(ps, g as int, t as int, k as int) {
                            let (gj, tj, kj) = choose|gj: int, tj: int, kj: int|
                                leg_in_prefix(ps, g as int, t as int, k as int, gj, tj, kj)
                                    && leg_account(ps, gj, tj, kj) == leg_account(
                                    ps,
                                    g as int,
                                    t as int,
                                    k as int,
                                ) && #[trigger] leg_transfer(ps, gj, tj, kj) == leg_transfer(
                                    ps,
                                    g as int,
                                    t as int,
                                    k as int,
                                );
                            assert(prefix_has(ps, g as int, t as int, k as int, leg.0@));
                            assert(transfer_in_prefix(ps, g as int, t as int, k as int, leg.0@, tv));
                            let jg = acc_index(global_before, leg.0@);
                            lemma_acc_index(global_before, leg.0@, 0);
                            assert(global_before[jg].transfers.contains(tv));
                            assert(false);
                        }
                    }
                    assert(tx_error_from(l, g as int, t as int, k as int) == tx_error_from(
                        l,
                        g as int,
                        t as int,
                        k as int + 1,
                    ));
                }
                sum = sum.plus(leg.1);
                k = k + 1;
            }
            if !sum.is_zero() {
                proof {
                    assert(legs_sum(ps[g as int].txs[t as int].legs) == sum@);
                    assert(tx_error_from(l, g as int, t as int, leg_count as int) matches Some(e));
                }
                return Err(
                    LedgerError::UnbalancedTransaction {
                        transaction: tx.name.clone(),
                        computed_sum: sum,
                    },
                );
            }
            proof {
                assert(legs_sum(ps[g as int].txs[t as int].legs) == 0);
                assert(tx_error_from(l, g as int, t as int, leg_count as int) is None);
                assert(tx_error_from(l, g as int, t as int, 0) is None);
                assert(period_error_from(l, g as int, t as int) == period_error_from(
                    l,
                    g as int,
                    t as int + 1,
                ));
                lemma_matcher_advance_tx(global@, ps, g as int, t as int);
                lemma_matcher_advance_tx(local@, ps_local, 0, t as int);
            }
            t = t + 1;
        }
        proof {
            lemma_matcher_advance_period(local@, ps_local, 0);
            assert(acc_matches(local@, ps_local, ps_local.len() as int, 0, 0));
            assert forall|q: int|
                0 <= q < local@.len() implies -ACCOUNT_TOTAL_LIMIT <= (#[trigger] local@[q]).sum
                <= ACCOUNT_TOTAL_LIMIT by {
                lemma_prefix_total_bound(ps_local, ps_local.len() as int, 0, 0, local@[q].name);
            }
            assert forall|j: int|
                0 <= j < data.account_types@.len() implies (
            #[trigger] data.account_types@[j]).1@.len() <= crate::ledger::MAX_MEMBERS by {
                assert(l.types_table[j] == data.account_types@[j].deep_view());
            }
            assert forall|j: int|
                0 <= j < data.account_sums@.len() implies (
            #[trigger] data.account_sums@[j]).1@.len() <= crate::ledger::MAX_MEMBERS by {
                assert(l.sums_table[j] == data.account_sums@[j].deep_view());
            }
        }
        let types = rollup_types(&local, &data.account_types);
        let sums = rollup_sums(&local, &data.account_sums);
        let sg = SummedGrouping { account_types: types, account_sums: sums };
        proof {
            assert forall|j: int| 0 <= j < l.types_table.len() implies (
            #[trigger] sg@.account_types[j]).0 == l.types_table[j].0 && category_ok(
                ps_local,
                l.types_table[j].1,
                sg@.account_types[j].1,
                sg@.account_types[j].2,
            ) by {
                assert(l.types_table[j] == data.account_types@[j].deep_view());
                lemma_rollup_to_scope(
                    local@,
                    ps_local,
                    l.types_table[j].1,
                    l.types_table[j].1.len() as int,
                );
            }
            assert forall|j: int| 0 <= j < l.sums_table.len() implies (
            #[trigger] sg@.account_sums[j]).0 == l.sums_table[j].0 && category_ok(
                ps_local,
                l.sums_table[j].1,
                sg@.account_sums[j].1,
                sg@.account_sums[j].2,
            ) by {
                assert(l.sums_table[j] == data.account_sums@[j].deep_view());
                lemma_rollup_to_scope(
                    local@,
                    ps_local,
                    l.sums_table[j].1,
                    l.sums_table[j].1.len() as int,
                );
            }
            assert(grouping_ok(ps_local, l.types_table, l.sums_table, sg@));
        }
        let ghost sgv = sg@;
        let ghost out_prev = out@;
        let ghost out_prev_dv = out.deep_view();
        let item = (grouping.name.clone(), sg);
        let ghost c = item;
        out.push(item);
        proof {
            assert(out@ == out_prev.push(c));
            assert forall|q: int| 0 <= q < g + 1 implies (#[trigger] out.deep_view()[q]).0
                == ps[q].name && grouping_ok(
                ps.subrange(q, q + 1),
                l.types_table,
                l.sums_table,
                out.deep_view()[q].1,
            ) by {
                assert(out.deep_view()[q] == out@[q].deep_view());
                if q < out_prev.len() {
                    assert(out@[q] == out_prev[q]);
                    assert(out_prev_dv[q] == out_prev[q].deep_view());
                } else {
                    assert(out@[q] == c);
                    assert(c.deep_view().1 == sgv);
                }
            }
            // the period held no violation, and the traversal moves on
            assert(period_error_from(l, g as int, tx_count as int) is None);
            assert(period_error_from(l, g as int, 0) is None);
            assert(ledger_error_from(l, g as int) == ledger_error_from(l, g as int + 1));
            lemma_matcher_advance_period(global@, ps, g as int);
        }
        g = g + 1;
    }
    proof {
        assert(acc_matches(global@, ps, ps.len() as int, 0, 0));
        assert forall|q: int|
            0 <= q < global@.len() implies -ACCOUNT_TOTAL_LIMIT <= (#[trigger] global@[q]).sum
            <= ACCOUNT_TOTAL_LIMIT by {
            lemma_prefix_total_bound(ps, ps.len() as int, 0, 0, global@[q].name);
        }
        assert forall|j: int|
            0 <= j < data.account_types@.len() implies (#[trigger] data.account_types@[j]).1@.len()
            <= crate::ledger::MAX_MEMBERS by {
            assert(l.types_table[j] == data.account_types@[j].deep_view());
        }
        assert forall|j: int|
            0 <= j < data.account_sums@.len() implies (#[trigger] data.account_sums@[j]).1@.len()
            <= crate::ledger::MAX_MEMBERS by {
            assert(l.sums_table[j] == data.account_sums@[j].deep_view());
        }
    }
    let types = rollup_types(&global, &data.account_types);
    let sums = rollup_sums(&global, &data.account_sums);
    let result = SummedBookkeeping {
        name: data.name.clone(),
        total: SummedGrouping { account_types: types, account_sums: sums },
        groupings: out,
    };
    proof {
        assert forall|j: int| 0 <= j < l.types_table.len() implies (
        #[trigger] result.total@.account_types[j]).0 == l.types_table[j].0 && category_ok(
            ps,
            l.types_table[j].1,
            result.total@.account_types[j].1,
            result.total@.account_types[j].2,
        ) by {
            assert(l.types_table[j] == data.account_types@[j].deep_view());
            lemma_rollup_to_scope(
                global@,
                ps,
                l.types_table[j].1,
                l.types_table[j].1.len() as int,
            );
        }
        assert forall|j: int| 0 <= j < l.sums_table.len() implies (
        #[trigger] result.total@.account_sums[j]).0 == l.sums_table[j].0 && category_ok(
            ps,
            l.sums_table[j].1,
            result.total@.account_sums[j].1,
            result.total@.account_sums[j].2,
        ) by {
            assert(l.sums_table[j] == data.account_sums@[j].deep_view());
            lemma_rollup_to_scope(global@, ps, l.sums_table[j].1, l.sums_table[j].1.len() as int);
        }
        assert(ledger_error_from(l, period_count as int) is None);
        assert(ledger_error(l) is None);
        assert(summed_ok(l, result@));
    }
    Ok(result)
}

} // verus!
