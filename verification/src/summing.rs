//! Proof library for the aggregation pass: how totals, activity and realized
//! transfers change as the traversal advances by one leg, one transaction, or
//! one period; bounds that keep every total inside `i128`; and the fact that
//! an account with no activity in scope totals zero.

use vstd::prelude::*;

use crate::account::{acc_index, acc_wf, account_wf, lemma_acc_index, SummedAccountV};
use crate::amount::AMOUNT_LIMIT;
use crate::ledger::{
    leg_account, leg_amount_for, leg_in_prefix, leg_transfer, periods_within_limits, prefix_has,
    prefix_total, period_total, period_total_upto, scope_has, scope_total, scope_total_upto,
    transfer_in_prefix, transfer_in_scope, tx_contrib, tx_contrib_upto, PeriodV, TxV,
    ACCOUNT_TOTAL_LIMIT, MAX_PERIODS, MAX_TXS, MAX_TX_LEGS,
};
use crate::rollup::{members_total_upto, rollup_members_upto};
use crate::transfer::{sorted_transfers, TransferV};

verus! {

/// Advancing the traversal past leg `k` of transaction `t` of period `g`
/// adds exactly that leg's contribution: to the totals, to the accounts with
/// activity, and to the realized transfers.
pub proof fn lemma_step_leg(
    ps: Seq<PeriodV>,
    g: int,
    t: int,
    k: int,
    a: Seq<char>,
    tv: TransferV,
)
    requires
        0 <= g < ps.len(),
        0 <= t < ps[g].txs.len(),
        0 <= k < ps[g].txs[t].legs.len(),
    ensures
        prefix_total(ps, g, t, k + 1, a) == prefix_total(ps, g, t, k, a) + leg_amount_for(
            ps[g].txs[t].legs[k],
            a,
        ),
        prefix_has(ps, g, t, k + 1, a) <==> (prefix_has(ps, g, t, k, a) || leg_account(
            ps,
            g,
            t,
            k,
        ) == a),
        transfer_in_prefix(ps, g, t, k + 1, a, tv) <==> (transfer_in_prefix(ps, g, t, k, a, tv)
            || (leg_account(ps, g, t, k) == a && leg_transfer(ps, g, t, k) == tv)),
{
    if prefix_has(ps, g, t, k + 1, a) {
        let (gi, ti, ki) = choose|gi: int, ti: int, ki: int|
            leg_in_prefix(ps, g, t, k + 1, gi, ti, ki) && #[trigger] leg_account(ps, gi, ti, ki)
                == a;
        if gi == g && ti == t && ki == k {
            assert(leg_account(ps, g, t, k) == a);
        } else {
            assert(leg_in_prefix(ps, g, t, k, gi, ti, ki));
            assert(prefix_has(ps, g, t, k, a));
        }
    }
    if prefix_has(ps, g, t, k, a) {
        let (gi, ti, ki) = choose|gi: int, ti: int, ki: int|
            leg_in_prefix(ps, g, t, k, gi, ti, ki) && #[trigger] leg_account(ps, gi, ti, ki) == a;
        assert(leg_in_prefix(ps, g, t, k + 1, gi, ti, ki));
        assert(prefix_has(ps, g, t, k + 1, a));
    }
    if leg_account(ps, g, t, k) == a {
        assert(leg_in_prefix(ps, g, t, k + 1, g, t, k));
        assert(prefix_has(ps, g, t, k + 1, a));
    }
    if transfer_in_prefix(ps, g, t, k + 1, a, tv) {
        let (gi, ti, ki) = choose|gi: int, ti: int, ki: int|
            leg_in_prefix(ps, g, t, k + 1, gi, ti, ki) && leg_account(ps, gi, ti, ki) == a
                && #[trigger] leg_transfer(ps, gi, ti, ki) == tv;
        if gi == g && ti == t && ki == k {
        } else {
            assert(leg_in_prefix(ps, g, t, k, gi, ti, ki));
            assert(transfer_in_prefix(ps, g, t, k, a, tv));
        }
    }
    if transfer_in_prefix(ps, g, t, k, a, tv) {
        let (gi, ti, ki) = choose|gi: int, ti: int, ki: int|
            leg_in_prefix(ps, g, t, k, gi, ti, ki) && leg_account(ps, gi, ti, ki) == a
                && #[trigger] leg_transfer(ps, gi, ti, ki) == tv;
        assert(leg_in_prefix(ps, g, t, k + 1, gi, ti, ki));
        assert(transfer_in_prefix(ps, g, t, k + 1, a, tv));
    }
    if leg_account(ps, g, t, k) == a && leg_transfer(ps, g, t, k) == tv {
        assert(leg_in_prefix(ps, g, t, k + 1, g, t, k));
        assert(transfer_in_prefix(ps, g, t, k + 1, a, tv));
    }
}

/// Standing just past the last leg of transaction `t` is the same traversal
/// position as standing at the start of transaction `t + 1`.
pub proof fn lemma_advance_tx(ps: Seq<PeriodV>, g: int, t: int, a: Seq<char>, tv: TransferV)
    requires
        0 <= g < ps.len(),
        0 <= t < ps[g].txs.len(),
    ensures
        prefix_total(ps, g, t, ps[g].txs[t].legs.len() as int, a) == prefix_total(
            ps,
            g,
            t + 1,
            0,
            a,
        ),
        prefix_has(ps, g, t, ps[g].txs[t].legs.len() as int, a) <==> prefix_has(
            ps,
            g,
            t + 1,
            0,
            a,
        ),
        transfer_in_prefix(ps, g, t, ps[g].txs[t].legs.len() as int, a, tv) <==> transfer_in_prefix(
            ps,
            g,
            t + 1,
            0,
            a,
            tv,
        ),
{
    let e = ps[g].txs[t].legs.len() as int;
    assert(period_total_upto(ps[g], t + 1, a) == period_total_upto(ps[g], t, a) + tx_contrib(
        ps[g].txs[t],
        a,
    ));
    if prefix_has(ps, g, t, e, a) {
        let (gi, ti, ki) = choose|gi: int, ti: int, ki: int|
            leg_in_prefix(ps, g, t, e, gi, ti, ki) && #[trigger] leg_account(ps, gi, ti, ki) == a;
        assert(leg_in_prefix(ps, g, t + 1, 0, gi, ti, ki));
        assert(prefix_has(ps, g, t + 1, 0, a));
    }
    if prefix_has(ps, g, t + 1, 0, a) {
        let (gi, ti, ki) = choose|gi: int, ti: int, ki: int|
            leg_in_prefix(ps, g, t + 1, 0, gi, ti, ki) && #[trigger] leg_account(ps, gi, ti, ki)
                == a;
        assert(leg_in_prefix(ps, g, t, e, gi, ti, ki));
        assert(prefix_has(ps, g, t, e, a));
    }
    if transfer_in_prefix(ps, g, t, e, a, tv) {
        let (gi, ti, ki) = choose|gi: int, ti: int, ki: int|
            leg_in_prefix(ps, g, t, e, gi, ti, ki) && leg_account(ps, gi, ti, ki) == a
                && #[trigger] leg_transfer(ps, gi, ti, ki) == tv;
        assert(leg_in_prefix(ps, g, t + 1, 0, gi, ti, ki));
        assert(transfer_in_prefix(ps, g, t + 1, 0, a, tv));
    }
    if transfer_in_prefix(ps, g, t + 1, 0, a, tv) {
        let (gi, ti, ki) = choose|gi: int, ti: int, ki: int|
            leg_in_prefix(ps, g, t + 1, 0, gi, ti, ki) && leg_account(ps, gi, ti, ki) == a
                && #[trigger] leg_transfer(ps, gi, ti, ki) == tv;
        assert(leg_in_prefix(ps, g, t, e, gi, ti, ki));
        assert(transfer_in_prefix(ps, g, t, e, a, tv));
    }
}

/// Standing just past the last transaction of period `g` is the same
/// traversal position as standing at the start of period `g + 1`.
pub proof fn lemma_advance_period(ps: Seq<PeriodV>, g: int, a: Seq<char>, tv: TransferV)
    requires
        0 <= g < ps.len(),
    ensures
        prefix_total(ps, g, ps[g].txs.len() as int, 0, a) == prefix_total(ps, g + 1, 0, 0, a),
        prefix_has(ps, g, ps[g].txs.len() as int, 0, a) <==> prefix_has(ps, g + 1, 0, 0, a),
        transfer_in_prefix(ps, g, ps[g].txs.len() as int, 0, a, tv) <==> transfer_in_prefix(
            ps,
            g + 1,
            0,
            0,
            a,
            tv,
        ),
{
    let e = ps[g].txs.len() as int;
    assert(scope_total_upto(ps, g + 1, a) == scope_total_upto(ps, g, a) + period_total(ps[g], a));
    if prefix_has(ps, g, e, 0, a) {
        let (gi, ti, ki) = choose|gi: int, ti: int, ki: int|
            leg_in_prefix(ps, g, e, 0, gi, ti, ki) && #[trigger] leg_account(ps, gi, ti, ki) == a;
        assert(leg_in_prefix(ps, g + 1, 0, 0, gi, ti, ki));
        assert(prefix_has(ps, g + 1, 0, 0, a));
    }
    if prefix_has(ps, g + 1, 0, 0, a) {
        let (gi, ti, ki) = choose|gi: int, ti: int, ki: int|
            leg_in_prefix(ps, g + 1, 0, 0, gi, ti, ki) && #[trigger] leg_account(ps, gi, ti, ki)
                == a;
        assert(leg_in_prefix(ps, g, e, 0, gi, ti, ki));
        assert(prefix_has(ps, g, e, 0, a));
    }
    if transfer_in_prefix(ps, g, e, 0, a, tv) {
        let (gi, ti, ki) = choose|gi: int, ti: int, ki: int|
            leg_in_prefix(ps, g, e, 0, gi, ti, ki) && leg_account(ps, gi, ti, ki) == a
                && #[trigger] leg_transfer(ps, gi, ti, ki) == tv;
        assert(leg_in_prefix(ps, g + 1, 0, 0, gi, ti, ki));
        assert(transfer_in_prefix(ps, g + 1, 0, 0, a, tv));
    }
    if transfer_in_prefix(ps, g + 1, 0, 0, a, tv) {
        let (gi, ti, ki) = choose|gi: int, ti: int, ki: int|
            leg_in_prefix(ps, g + 1, 0, 0, gi, ti, ki) && leg_account(ps, gi, ti, ki) == a
                && #[trigger] leg_transfer(ps, gi, ti, ki) == tv;
        assert(leg_in_prefix(ps, g, e, 0, gi, ti, ki));
        assert(transfer_in_prefix(ps, g, e, 0, a, tv));
    }
}

/// A transaction prefix contributes at most one amount limit per leg.
pub proof fn lemma_tx_contrib_bound(tx: TxV, k: int, a: Seq<char>)
    requires
        0 <= k <= tx.legs.len(),
        forall|q: int|
            0 <= q < tx.legs.len() ==> -AMOUNT_LIMIT <= (#[trigger] tx.legs[q]).1 <= AMOUNT_LIMIT,
    ensures
        -(k * AMOUNT_LIMIT) <= tx_contrib_upto(tx, k, a) <= k * AMOUNT_LIMIT,
    decreases k,
{
    if k > 0 {
        lemma_tx_contrib_bound(tx, k - 1, a);
    }
}

/// A period prefix contributes at most one transaction limit per transaction.
pub proof fn lemma_period_total_bound(p: PeriodV, t: int, a: Seq<char>)
    requires
        0 <= t <= p.txs.len(),
        forall|ti: int| 0 <= ti < p.txs.len() ==> (#[trigger] p.txs[ti]).legs.len() <= MAX_TX_LEGS,
        forall|ti: int, ki: int|
            0 <= ti < p.txs.len() && 0 <= ki < p.txs[ti].legs.len() ==> -AMOUNT_LIMIT <= (
            #[trigger] p.txs[ti].legs[ki]).1 <= AMOUNT_LIMIT,
    ensures
        -(t * (MAX_TX_LEGS * AMOUNT_LIMIT)) <= period_total_upto(p, t, a) <= t * (MAX_TX_LEGS
            * AMOUNT_LIMIT),
    decreases t,
{
    if t > 0 {
        lemma_period_total_bound(p, t - 1, a);
        lemma_tx_contrib_bound(p.txs[t - 1], p.txs[t - 1].legs.len() as int, a);
    }
}

/// A scope prefix contributes at most one period limit per period.
pub proof fn lemma_scope_total_bound(ps: Seq<PeriodV>, g: int, a: Seq<char>)
    requires
        0 <= g <= ps.len(),
        periods_within_limits(ps),
    ensures
        -(g * (MAX_TXS * (MAX_TX_LEGS * AMOUNT_LIMIT))) <= scope_total_upto(ps, g, a) <= g * (
        MAX_TXS * (MAX_TX_LEGS * AMOUNT_LIMIT)),
    decreases g,
{
    if g > 0 {
        lemma_scope_total_bound(ps, g - 1, a);
        lemma_period_total_bound(ps[g - 1], ps[g - 1].txs.len() as int, a);
        let n = ps[g - 1].txs.len() as int;
        let c = MAX_TX_LEGS * AMOUNT_LIMIT;
        assert(n * c <= MAX_TXS * c && -(MAX_TXS * c) <= -(n * c)) by (nonlinear_arith)
            requires
                0 <= n <= MAX_TXS,
                c > 0,
        ;
        assert((g - 1) * (MAX_TXS * c) + MAX_TXS * c == g * (MAX_TXS * c)) by (nonlinear_arith);
    }
}

/// Under the machine limits, no account total — at any traversal position —
/// leaves the safe range.
pub proof fn lemma_prefix_total_bound(ps: Seq<PeriodV>, g: int, t: int, k: int, a: Seq<char>)
    requires
        periods_within_limits(ps),
        0 <= g <= ps.len(),
        0 <= t,
        0 <= k,
        g < ps.len() ==> t <= ps[g].txs.len(),
        g < ps.len() && t < ps[g].txs.len() ==> k <= ps[g].txs[t].legs.len(),
    ensures
        -ACCOUNT_TOTAL_LIMIT <= prefix_total(ps, g, t, k, a) <= ACCOUNT_TOTAL_LIMIT,
{
    lemma_scope_total_bound(ps, g, a);
    let pl = MAX_TXS * (MAX_TX_LEGS * AMOUNT_LIMIT);
    assert(g * pl <= MAX_PERIODS * pl && -(MAX_PERIODS * pl) <= -(g * pl)) by (nonlinear_arith)
        requires
            0 <= g <= MAX_PERIODS,
            pl > 0,
    ;
    if g < ps.len() {
        lemma_period_total_bound(ps[g], t, a);
        let c = MAX_TX_LEGS * AMOUNT_LIMIT;
        assert(t * c <= MAX_TXS * c && -(MAX_TXS * c) <= -(t * c)) by (nonlinear_arith)
            requires
                0 <= t <= MAX_TXS,
                c > 0,
        ;
        if t < ps[g].txs.len() {
            lemma_tx_contrib_bound(ps[g].txs[t], k, a);
            assert(k * AMOUNT_LIMIT <= MAX_TX_LEGS * AMOUNT_LIMIT && -(MAX_TX_LEGS * AMOUNT_LIMIT)
                <= -(k * AMOUNT_LIMIT)) by (nonlinear_arith)
                requires
                    0 <= k <= MAX_TX_LEGS,
            ;
        }
    }
}

/// A transaction whose first `k` legs never name `a` contributes nothing to
/// `a`.
pub proof fn lemma_tx_contrib_zero(tx: TxV, k: int, a: Seq<char>)
    requires
        0 <= k <= tx.legs.len(),
        forall|q: int| 0 <= q < k ==> (#[trigger] tx.legs[q]).0 != a,
    ensures
        tx_contrib_upto(tx, k, a) == 0,
    decreases k,
{
    if k > 0 {
        lemma_tx_contrib_zero(tx, k - 1, a);
    }
}

/// A period whose first `t` transactions never name `a` contributes nothing.
pub proof fn lemma_period_total_zero(p: PeriodV, t: int, a: Seq<char>)
    requires
        0 <= t <= p.txs.len(),
        forall|ti: int, ki: int|
            0 <= ti < t && 0 <= ki < p.txs[ti].legs.len() ==> (#[trigger] p.txs[ti].legs[ki]).0
                != a,
    ensures
        period_total_upto(p, t, a) == 0,
    decreases t,
{
    if t > 0 {
        lemma_period_total_zero(p, t - 1, a);
        lemma_tx_contrib_zero(p.txs[t - 1], p.txs[t - 1].legs.len() as int, a);
    }
}

/// An account with no activity in the whole scope totals exactly zero.
pub proof fn lemma_inactive_total_zero(ps: Seq<PeriodV>, a: Seq<char>)
    requires
        !prefix_has(ps, ps.len() as int, 0, 0, a),
    ensures
        scope_total(ps, a) == 0,
{
    lemma_scope_prefix_zero(ps, ps.len() as int, a);
}

/// Periods before `g` without activity for `a` contribute nothing.
proof fn lemma_scope_prefix_zero(ps: Seq<PeriodV>, g: int, a: Seq<char>)
    requires
        0 <= g <= ps.len(),
        !prefix_has(ps, g, 0, 0, a),
    ensures
        scope_total_upto(ps, g, a) == 0,
    decreases g,
{
    if g > 0 {
        assert(!prefix_has(ps, g - 1, 0, 0, a)) by {
            if prefix_has(ps, g - 1, 0, 0, a) {
                let (gi, ti, ki) = choose|gi: int, ti: int, ki: int|
                    leg_in_prefix(ps, g - 1, 0, 0, gi, ti, ki) && #[trigger] leg_account(
                        ps,
                        gi,
                        ti,
                        ki,
                    ) == a;
                assert(leg_in_prefix(ps, g, 0, 0, gi, ti, ki));
            }
        }
        lemma_scope_prefix_zero(ps, g - 1, a);
        assert forall|ti: int, ki: int|
            0 <= ti < ps[g - 1].txs.len() && 0 <= ki < ps[g - 1].txs[ti].legs.len() implies (
        #[trigger] ps[g - 1].txs[ti].legs[ki]).0 != a by {
            if ps[g - 1].txs[ti].legs[ki].0 == a {
                assert(leg_in_prefix(ps, g, 0, 0, g - 1, ti, ki));
                assert(leg_account(ps, g - 1, ti, ki) == a);
                assert(prefix_has(ps, g, 0, 0, a));
            }
        }
        lemma_period_total_zero(ps[g - 1], ps[g - 1].txs.len() as int, a);
    }
}

/// An account without activity anywhere in the traversal prefix totals zero
/// at that position.
pub proof fn lemma_no_prefix_activity_zero(ps: Seq<PeriodV>, g: int, t: int, k: int, a: Seq<char>)
    requires
        0 <= g <= ps.len(),
        0 <= t,
        0 <= k,
        g < ps.len() ==> t <= ps[g].txs.len(),
        g < ps.len() && t < ps[g].txs.len() ==> k <= ps[g].txs[t].legs.len(),
        !prefix_has(ps, g, t, k, a),
    ensures
        prefix_total(ps, g, t, k, a) == 0,
{
    assert(!prefix_has(ps, g, 0, 0, a)) by {
        if prefix_has(ps, g, 0, 0, a) {
            let (gi, ti, ki) = choose|gi: int, ti: int, ki: int|
                leg_in_prefix(ps, g, 0, 0, gi, ti, ki) && #[trigger] leg_account(ps, gi, ti, ki)
                    == a;
            assert(leg_in_prefix(ps, g, t, k, gi, ti, ki));
        }
    }
    lemma_scope_prefix_zero(ps, g, a);
    if g < ps.len() {
        assert forall|ti: int, ki: int|
            0 <= ti < t && 0 <= ki < ps[g].txs[ti].legs.len() implies (
        #[trigger] ps[g].txs[ti].legs[ki]).0 != a by {
            if ps[g].txs[ti].legs[ki].0 == a {
                assert(leg_in_prefix(ps, g, t, k, g, ti, ki));
                assert(leg_account(ps, g, ti, ki) == a);
            }
        }
        lemma_period_total_zero(ps[g], t, a);
        if t < ps[g].txs.len() {
            assert forall|ki: int| 0 <= ki < k implies (#[trigger] ps[g].txs[t].legs[ki]).0
                != a by {
                if ps[g].txs[t].legs[ki].0 == a {
                    assert(leg_in_prefix(ps, g, t, k, g, t, ki));
                    assert(leg_account(ps, g, t, ki) == a);
                }
            }
            lemma_tx_contrib_zero(ps[g].txs[t], k, a);
        }
    }
}

/// One period of a size-limited run is itself a size-limited scope.
pub proof fn lemma_subrange_limits(ps: Seq<PeriodV>, g: int)
    requires
        periods_within_limits(ps),
        0 <= g < ps.len(),
    ensures
        periods_within_limits(ps.subrange(g, g + 1)),
{
    let sub = ps.subrange(g, g + 1);
    assert forall|x: int| 0 <= x < sub.len() implies (#[trigger] sub[x]).txs.len() <= MAX_TXS by {
        assert(sub[x] == ps[g]);
    }
    assert forall|x: int, t: int|
        0 <= x < sub.len() && 0 <= t < sub[x].txs.len() implies (#[trigger] sub[x].txs[t]).legs.len()
        <= MAX_TX_LEGS by {
        assert(sub[x] == ps[g]);
        assert(ps[g].txs[t].legs.len() <= MAX_TX_LEGS);
    }
    assert forall|x: int, t: int, k: int|
        0 <= x < sub.len() && 0 <= t < sub[x].txs.len() && 0 <= k < sub[x].txs[t].legs.len()
        implies -AMOUNT_LIMIT <= (#[trigger] sub[x].txs[t].legs[k]).1 <= AMOUNT_LIMIT by {
        assert(sub[x] == ps[g]);
        assert(-AMOUNT_LIMIT <= ps[g].txs[t].legs[k].1 <= AMOUNT_LIMIT);
    }
}

/// A transfer found in a period-local prefix also lies in the corresponding
/// run-global prefix.
pub proof fn lemma_local_transfer_in_global(
    ps: Seq<PeriodV>,
    g: int,
    t: int,
    k: int,
    a: Seq<char>,
    tv: TransferV,
)
    requires
        0 <= g < ps.len(),
        transfer_in_prefix(ps.subrange(g, g + 1), 0, t, k, a, tv),
    ensures
        transfer_in_prefix(ps, g, t, k, a, tv),
{
    let sub = ps.subrange(g, g + 1);
    let (gi, ti, ki) = choose|gi: int, ti: int, ki: int|
        leg_in_prefix(sub, 0, t, k, gi, ti, ki) && leg_account(sub, gi, ti, ki) == a
            && #[trigger] leg_transfer(sub, gi, ti, ki) == tv;
    assert(gi == 0);
    assert(sub[0] == ps[g]);
    assert(leg_in_prefix(ps, g, t, k, g, ti, ki));
    assert(leg_account(ps, g, ti, ki) == a);
    assert(leg_transfer(ps, g, ti, ki) == tv);
}

// ---------------------------------------------------------------------------
// The accumulator invariant of the aggregation pass.
// ---------------------------------------------------------------------------

/// One scope's accumulator agrees with the traversal position `(g, t, k)`
/// over the periods `ps`: every entry's total is the account's prefix total,
/// every entry stems from activity, each entry's transfers are exactly the
/// realized prefix legs of its account, and every account with activity has
/// an entry.
pub open spec fn acc_matches(
    s: Seq<SummedAccountV>,
    ps: Seq<PeriodV>,
    g: int,
    t: int,
    k: int,
) -> bool {
    &&& forall|q: int|
        0 <= q < s.len() ==> (#[trigger] s[q]).sum == prefix_total(ps, g, t, k, s[q].name)
    &&& forall|q: int| 0 <= q < s.len() ==> prefix_has(ps, g, t, k, (#[trigger] s[q]).name)
    &&& forall|q: int, tv: TransferV|
        0 <= q < s.len() ==> ((#[trigger] s[q].transfers.contains(tv)) <==> transfer_in_prefix(
            ps,
            g,
            t,
            k,
            s[q].name,
            tv,
        ))
    &&& forall|a: Seq<char>| #[trigger] prefix_has(ps, g, t, k, a) ==> acc_index(s, a) >= 0
}

/// Nothing lies before the start of the traversal.
pub proof fn lemma_prefix_start_empty(ps: Seq<PeriodV>, a: Seq<char>)
    ensures
        !prefix_has(ps, 0, 0, 0, a),
{
    if prefix_has(ps, 0, 0, 0, a) {
        let (gi, ti, ki) = choose|gi: int, ti: int, ki: int|
            leg_in_prefix(ps, 0, 0, 0, gi, ti, ki) && #[trigger] leg_account(ps, gi, ti, ki) == a;
    }
}

/// An empty accumulator agrees with the start of the traversal.
pub proof fn lemma_matcher_empty(ps: Seq<PeriodV>)
    ensures
        acc_matches(Seq::<SummedAccountV>::empty(), ps, 0, 0, 0),
{
    assert forall|a: Seq<char>| #[trigger] prefix_has(ps, 0, 0, 0, a) implies acc_index(
        Seq::<SummedAccountV>::empty(),
        a,
    ) >= 0 by {
        lemma_prefix_start_empty(ps, a);
    }
}

/// Applying leg `k` of transaction `t` of period `g` to an accumulator that
/// agreed with position `(g, t, k)` — adding the leg's amount to its
/// account's entry and its realized transfer to that entry's collection —
/// yields an accumulator that agrees with position `(g, t, k + 1)`.
pub proof fn lemma_matcher_step(
    s_old: Seq<SummedAccountV>,
    s_new: Seq<SummedAccountV>,
    ps: Seq<PeriodV>,
    g: int,
    t: int,
    k: int,
)
    requires
        0 <= g < ps.len(),
        0 <= t < ps[g].txs.len(),
        0 <= k < ps[g].txs[t].legs.len(),
        acc_wf(s_old),
        acc_matches(s_old, ps, g, t, k),
        ({
            let a = leg_account(ps, g, t, k);
            let tv = leg_transfer(ps, g, t, k);
            let amount = ps[g].txs[t].legs[k].1;
            let j = acc_index(s_old, a);
            &&& (j < 0 ==> s_new == s_old.push(
                SummedAccountV { name: a, sum: amount, transfers: seq![tv] },
            ))
            &&& (j >= 0 ==> {
                &&& s_new.len() == s_old.len()
                &&& (forall|q: int| 0 <= q < s_old.len() && q != j ==> s_new[q] == s_old[q])
                &&& s_new[j].name == s_old[j].name
                &&& s_new[j].sum == s_old[j].sum + amount
                &&& (forall|tv2: TransferV|
                    s_new[j].transfers.contains(tv2) <==> (s_old[j].transfers.contains(tv2) || tv2
                        == tv))
            })
        }),
    ensures
        acc_matches(s_new, ps, g, t, k + 1),
{
    let a = leg_account(ps, g, t, k);
    let tv = leg_transfer(ps, g, t, k);
    let amount = ps[g].txs[t].legs[k].1;
    let j = acc_index(s_old, a);
    lemma_acc_index(s_old, a, 0);
    assert(leg_amount_for(ps[g].txs[t].legs[k], a) == amount);
    assert forall|q: int| 0 <= q < s_new.len() implies (#[trigger] s_new[q]).sum == prefix_total(
        ps,
        g,
        t,
        k + 1,
        s_new[q].name,
    ) && prefix_has(ps, g, t, k + 1, s_new[q].name) by {
        lemma_step_leg(ps, g, t, k, s_new[q].name, tv);
        if j >= 0 {
            if q == j {
                assert(s_new[q].name == a);
            } else {
                assert(s_new[q] == s_old[q]);
                assert(s_old[q].name != a);
                assert(leg_amount_for(ps[g].txs[t].legs[k], s_new[q].name) == 0);
            }
        } else {
            if q < s_old.len() {
                assert(s_new[q] == s_old[q]);
                assert(s_old[q].name != a);
                assert(leg_amount_for(ps[g].txs[t].legs[k], s_new[q].name) == 0);
            } else {
                assert(s_new[q].name == a);
                assert(!prefix_has(ps, g, t, k, a));
                lemma_no_prefix_activity_zero(ps, g, t, k, a);
            }
        }
    }
    assert forall|q: int, tv2: TransferV| 0 <= q < s_new.len() implies ((
    #[trigger] s_new[q].transfers.contains(tv2)) <==> transfer_in_prefix(
        ps,
        g,
        t,
        k + 1,
        s_new[q].name,
        tv2,
    )) by {
        lemma_step_leg(ps, g, t, k, s_new[q].name, tv2);
        if j >= 0 {
            if q == j {
                assert(s_new[q].name == a);
            } else {
                assert(s_new[q] == s_old[q]);
                assert(s_old[q].name != a);
            }
        } else {
            if q < s_old.len() {
                assert(s_new[q] == s_old[q]);
                assert(s_old[q].name != a);
            } else {
                assert(s_new[q].name == a);
                assert(s_new[q].transfers == seq![tv]);
                assert(s_new[q].transfers.contains(tv2) <==> tv2 == tv) by {
                    if s_new[q].transfers.contains(tv2) {
                        assert(s_new[q].transfers[choose|x: int|
                            0 <= x < s_new[q].transfers.len() && s_new[q].transfers[x] == tv2]
                            == tv2);
                    }
                    if tv2 == tv {
                        assert(s_new[q].transfers[0] == tv2);
                    }
                }
                if transfer_in_prefix(ps, g, t, k, a, tv2) {
                    let (gi, ti, ki) = choose|gi: int, ti: int, ki: int|
                        leg_in_prefix(ps, g, t, k, gi, ti, ki) && leg_account(ps, gi, ti, ki) == a
                            && #[trigger] leg_transfer(ps, gi, ti, ki) == tv2;
                    assert(prefix_has(ps, g, t, k, a));
                    assert(false);
                }
            }
        }
    }
    assert forall|x: Seq<char>| #[trigger] prefix_has(ps, g, t, k + 1, x) implies acc_index(
        s_new,
        x,
    ) >= 0 by {
        lemma_step_leg(ps, g, t, k, x, tv);
        lemma_acc_index(s_new, x, 0);
        if prefix_has(ps, g, t, k, x) {
            let jx = acc_index(s_old, x);
            lemma_acc_index(s_old, x, 0);
            if j >= 0 {
                if jx == j {
                    assert(s_new[jx].name == x);
                } else {
                    assert(s_new[jx] == s_old[jx]);
                }
            } else {
                assert(s_new[jx] == s_old[jx]);
            }
        } else {
            assert(x == a);
            if j >= 0 {
                assert(s_new[j].name == a);
            } else {
                assert(s_new[s_old.len() as int].name == a);
            }
        }
    }
}

/// An accumulator standing just past the last leg of transaction `t` agrees
/// with the start of transaction `t + 1`.
pub proof fn lemma_matcher_advance_tx(
    s: Seq<SummedAccountV>,
    ps: Seq<PeriodV>,
    g: int,
    t: int,
)
    requires
        0 <= g < ps.len(),
        0 <= t < ps[g].txs.len(),
        acc_matches(s, ps, g, t, ps[g].txs[t].legs.len() as int),
    ensures
        acc_matches(s, ps, g, t + 1, 0),
{
    let e = ps[g].txs[t].legs.len() as int;
    assert forall|q: int| 0 <= q < s.len() implies (#[trigger] s[q]).sum == prefix_total(
        ps,
        g,
        t + 1,
        0,
        s[q].name,
    ) && prefix_has(ps, g, t + 1, 0, s[q].name) by {
        lemma_advance_tx(ps, g, t, s[q].name, leg_transfer(ps, g, t, 0));
    }
    assert forall|q: int, tv: TransferV| 0 <= q < s.len() implies ((
    #[trigger] s[q].transfers.contains(tv)) <==> transfer_in_prefix(
        ps,
        g,
        t + 1,
        0,
        s[q].name,
        tv,
    )) by {
        lemma_advance_tx(ps, g, t, s[q].name, tv);
    }
    assert forall|a: Seq<char>| #[trigger] prefix_has(ps, g, t + 1, 0, a) implies acc_index(
        s,
        a,
    ) >= 0 by {
        lemma_advance_tx(ps, g, t, a, leg_transfer(ps, g, t, 0));
    }
}

/// An accumulator standing just past the last transaction of period `g`
/// agrees with the start of period `g + 1`.
pub proof fn lemma_matcher_advance_period(s: Seq<SummedAccountV>, ps: Seq<PeriodV>, g: int)
    requires
        0 <= g < ps.len(),
        acc_matches(s, ps, g, ps[g].txs.len() as int, 0),
    ensures
        acc_matches(s, ps, g + 1, 0, 0),
{
    assert forall|q: int| 0 <= q < s.len() implies (#[trigger] s[q]).sum == prefix_total(
        ps,
        g + 1,
        0,
        0,
        s[q].name,
    ) && prefix_has(ps, g + 1, 0, 0, s[q].name) by {
        lemma_advance_period(ps, g, s[q].name, leg_transfer(ps, g, 0, 0));
    }
    assert forall|q: int, tv: TransferV| 0 <= q < s.len() implies ((
    #[trigger] s[q].transfers.contains(tv)) <==> transfer_in_prefix(
        ps,
        g + 1,
        0,
        0,
        s[q].name,
        tv,
    )) by {
        lemma_advance_period(ps, g, s[q].name, tv);
    }
    assert forall|a: Seq<char>| #[trigger] prefix_has(ps, g + 1, 0, 0, a) implies acc_index(
        s,
        a,
    ) >= 0 by {
        lemma_advance_period(ps, g, a, leg_transfer(ps, g, 0, 0));
    }
}

// ---------------------------------------------------------------------------
// From a finished accumulator to the summary the run promises.
// ---------------------------------------------------------------------------

/// The category total stated over the ledger itself: the sum of the member
/// accounts' scope totals (an inactive member contributes zero).
pub open spec fn scope_members_total_upto(
    ps: Seq<PeriodV>,
    members: Seq<Seq<char>>,
    i: int,
) -> int
    decreases i,
{
    if i <= 0 {
        0
    } else {
        scope_members_total_upto(ps, members, i - 1) + scope_total(ps, members[i - 1])
    }
}

/// The category total over the whole member list.
pub open spec fn scope_members_total(ps: Seq<PeriodV>, members: Seq<Seq<char>>) -> int {
    scope_members_total_upto(ps, members, members.len() as int)
}

/// The member accounts with activity in scope, in member declaration order.
pub open spec fn active_members_upto(ps: Seq<PeriodV>, members: Seq<Seq<char>>, i: int) -> Seq<
    Seq<char>,
>
    decreases i,
{
    if i <= 0 {
        Seq::empty()
    } else {
        let rest = active_members_upto(ps, members, i - 1);
        if scope_has(ps, members[i - 1]) {
            rest.push(members[i - 1])
        } else {
            rest
        }
    }
}

/// All member accounts with activity in scope, in declaration order.
pub open spec fn active_members(ps: Seq<PeriodV>, members: Seq<Seq<char>>) -> Seq<Seq<char>> {
    active_members_upto(ps, members, members.len() as int)
}

/// What one account's entry in the summary promises: the exact scope total,
/// and exactly the account's realized transfers, strictly ordered.
pub open spec fn account_summary_ok(ps: Seq<PeriodV>, e: SummedAccountV) -> bool {
    &&& e.sum == scope_total(ps, e.name)
    &&& sorted_transfers(e.transfers)
    &&& forall|tv: TransferV|
        #[trigger] e.transfers.contains(tv) <==> transfer_in_scope(ps, e.name, tv)
}

/// Rolling a finished accumulator up gives exactly the totals and member
/// lists that the ledger itself defines.
pub proof fn lemma_rollup_to_scope(
    s: Seq<SummedAccountV>,
    ps: Seq<PeriodV>,
    members: Seq<Seq<char>>,
    i: int,
)
    requires
        acc_wf(s),
        acc_matches(s, ps, ps.len() as int, 0, 0),
        0 <= i <= members.len(),
    ensures
        members_total_upto(s, members, i) == scope_members_total_upto(ps, members, i),
        rollup_members_upto(s, members, i).len() == active_members_upto(ps, members, i).len(),
        forall|q: int|
            0 <= q < rollup_members_upto(s, members, i).len() ==> {
                let e = #[trigger] rollup_members_upto(s, members, i)[q];
                &&& e.name == active_members_upto(ps, members, i)[q]
                &&& account_summary_ok(ps, e)
            },
    decreases i,
{
    if i > 0 {
        lemma_rollup_to_scope(s, ps, members, i - 1);
        let m = members[i - 1];
        let j = acc_index(s, m);
        lemma_acc_index(s, m, 0);
        if j >= 0 {
            assert(s[j].name == m);
            assert(prefix_has(ps, ps.len() as int, 0, 0, s[j].name));
            assert(scope_has(ps, m));
            assert(s[j].sum == prefix_total(ps, ps.len() as int, 0, 0, m));
            assert(prefix_total(ps, ps.len() as int, 0, 0, m) == scope_total(ps, m));
            assert(account_wf(s[j]));
            assert(account_summary_ok(ps, s[j]));
        } else {
            assert(!scope_has(ps, m)) by {
                if prefix_has(ps, ps.len() as int, 0, 0, m) {
                    assert(acc_index(s, m) >= 0);
                }
            }
            lemma_inactive_total_zero(ps, m);
        }
    }
}

} // verus!
