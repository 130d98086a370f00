//! Flattened, presentation-ready views of a finished summary: every category
//! with its total and the per-account totals beneath it, in declaration
//! order. Data only — rendering belongs to the surrounding program.

use vstd::prelude::*;

use crate::account::SummedAccountV;
use crate::amount::Amount;
use crate::calculate::{SummedBookkeeping, SummedGrouping};
use crate::ledger::AccountType;

verus! {

/// One category flattened: its total and each member account's total.
pub struct AccountGroupSummary {
    pub total: Amount,
    pub accounts: Vec<(String, Amount)>,
}

/// Mathematical value of a flattened category.
#[verifier::ext_equal]
pub ghost struct AccountGroupSummaryV {
    pub total: int,
    pub accounts: Seq<(Seq<char>, int)>,
}

impl View for AccountGroupSummary {
    type V = AccountGroupSummaryV;

    open spec fn view(&self) -> AccountGroupSummaryV {
        AccountGroupSummaryV { total: self.total@, accounts: self.accounts.deep_view() }
    }
}

impl DeepView for AccountGroupSummary {
    type V = AccountGroupSummaryV;

    open spec fn deep_view(&self) -> AccountGroupSummaryV {
        self.view()
    }
}

/// One scope flattened along both dimensions.
pub struct GroupingSummary {
    pub account_sums: Vec<(String, AccountGroupSummary)>,
    pub account_types: Vec<(AccountType, AccountGroupSummary)>,
}

/// Mathematical value of a flattened scope.
#[verifier::ext_equal]
pub ghost struct GroupingSummaryV {
    pub account_sums: Seq<(Seq<char>, AccountGroupSummaryV)>,
    pub account_types: Seq<(AccountType, AccountGroupSummaryV)>,
}

impl View for GroupingSummary {
    type V = GroupingSummaryV;

    open spec fn view(&self) -> GroupingSummaryV {
        GroupingSummaryV {
            account_sums: self.account_sums.deep_view(),
            account_types: self.account_types.deep_view(),
        }
    }
}

impl DeepView for GroupingSummary {
    type V = GroupingSummaryV;

    open spec fn deep_view(&self) -> GroupingSummaryV {
        self.view()
    }
}

/// The whole run flattened: the overall scope and each period, in order.
pub struct Summary {
    pub total: GroupingSummary,
    pub groupings: Vec<(String, GroupingSummary)>,
}

impl View for Summary {
    type V = (GroupingSummaryV, Seq<(Seq<char>, GroupingSummaryV)>);

    open spec fn view(&self) -> (GroupingSummaryV, Seq<(Seq<char>, GroupingSummaryV)>) {
        (self.total@, self.groupings.deep_view())
    }
}

/// The per-account totals of one rolled-up category, in member order.
pub open spec fn flatten_accounts(accounts: Seq<SummedAccountV>) -> Seq<(Seq<char>, int)> {
    Seq::new(accounts.len(), |i: int| (accounts[i].name, accounts[i].sum))
}

/// The flattened account-type dimension, hiding the yearly-result carryover
/// rows everywhere except in the run-wide total.
pub open spec fn summarize_types(
    types: Seq<(AccountType, int, Seq<SummedAccountV>)>,
    total: bool,
    j: int,
) -> Seq<(AccountType, AccountGroupSummaryV)>
    decreases j,
{
    if j <= 0 {
        Seq::empty()
    } else {
        let rest = summarize_types(types, total, j - 1);
        if types[j - 1].0 == AccountType::YearlyResult && !total {
            rest
        } else {
            rest.push(
                (
                    types[j - 1].0,
                    AccountGroupSummaryV {
                        total: types[j - 1].1,
                        accounts: flatten_accounts(types[j - 1].2),
                    },
                ),
            )
        }
    }
}

/// The flattened named-category dimension, in declaration order.
pub open spec fn summarize_sums(
    sums: Seq<(Seq<char>, int, Seq<SummedAccountV>)>,
) -> Seq<(Seq<char>, AccountGroupSummaryV)> {
    Seq::new(
        sums.len(),
        |j: int|
            (
                sums[j].0,
                AccountGroupSummaryV { total: sums[j].1, accounts: flatten_accounts(sums[j].2) },
            ),
    )
}

/// Flattens one rolled-up category's member accounts.
fn flatten_account_list(accounts: &Vec<crate::account::SummedAccount>) -> (r: Vec<
    (String, Amount),
>)
    ensures
        r.deep_view() == flatten_accounts(accounts.deep_view()),
{
    let mut r: Vec<(String, Amount)> = Vec::new();
    let n = accounts.len();
    let mut i: usize = 0;
    while i < n
        invariant
            i <= n,
            n == accounts@.len(),
            r@.len() == i as int,
            r.deep_view() =~= flatten_accounts(accounts.deep_view()).subrange(0, i as int),
        decreases n - i,
    {
        let ghost prev = r@;
        let ghost prev_dv = r.deep_view();
        let entry = &accounts[i];
        let item = (entry.name.clone(), entry.sum);
        let ghost c = item;
        r.push(item);
        proof {
            assert(r@ == prev.push(c));
            assert(accounts.deep_view()[i as int] == accounts@[i as int].deep_view());
            assert forall|q: int| 0 <= q < r@.len() implies r.deep_view()[q] == flatten_accounts(
                accounts.deep_view(),
            ).subrange(0, i + 1)[q] by {
                assert(r.deep_view()[q] == r@[q].deep_view());
                if q < prev.len() {
                    assert(r@[q] == prev[q]);
                    assert(prev_dv[q] == prev[q].deep_view());
                } else {
                    assert(r@[q] == c);
                }
            }
            assert(r.deep_view() =~= flatten_accounts(accounts.deep_view()).subrange(0, i + 1));
        }
        i = i + 1;
    }
    proof {
        assert(r.deep_view() =~= flatten_accounts(accounts.deep_view()));
    }
    r
}

impl GroupingSummary {
    /// Flattens one scope's rollup. The yearly-result carryover rows are
    /// only shown when this is the run-wide total.
    pub fn create(rollup: &SummedGrouping, total: bool) -> (r: GroupingSummary)
        ensures
            r@.account_types == summarize_types(
                rollup@.account_types,
                total,
                rollup@.account_types.len() as int,
            ),
            r@.account_sums == summarize_sums(rollup@.account_sums),
    {
        let mut types: Vec<(AccountType, AccountGroupSummary)> = Vec::new();
        let type_count = rollup.account_types.len();
        let mut j: usize = 0;
        while j < type_count
            invariant
                j <= type_count,
                type_count == rollup.account_types@.len(),
                types.deep_view() =~= summarize_types(rollup@.account_types, total, j as int),
            decreases type_count - j,
        {
            let group = &rollup.account_types[j];
            proof {
                assert(rollup@.account_types[j as int] == rollup.account_types@[
                    j as int].deep_view());
            }
            if !(matches!(group.0, AccountType::YearlyResult) && !total) {
                let ghost prev = types@;
                let ghost prev_dv = types.deep_view();
                let item = (group.0, AccountGroupSummary {
                    total: group.1,
                    accounts: flatten_account_list(&group.2),
                });
                let ghost c = item;
                types.push(item);
                proof {
                    assert(types@ == prev.push(c));
                    assert forall|q: int| 0 <= q < types@.len() implies types.deep_view()[q]
                        == summarize_types(rollup@.account_types, total, j + 1)[q] by {
                        assert(types.deep_view()[q] == types@[q].deep_view());
                        if q < prev.len() {
                            assert(types@[q] == prev[q]);
                            assert(prev_dv[q] == prev[q].deep_view());
                        } else {
                            assert(types@[q] == c);
                        }
                    }
                    assert(types.deep_view() =~= summarize_types(
                        rollup@.account_types,
                        total,
                        j + 1,
                    ));
                }
            } else {
                proof {
                    assert(types.deep_view() =~= summarize_types(
                        rollup@.account_types,
                        total,
                        j + 1,
                    ));
                }
            }
            j = j + 1;
        }
        let mut sums: Vec<(String, AccountGroupSummary)> = Vec::new();
        let sum_count = rollup.account_sums.len();
        let mut j: usize = 0;
        while j < sum_count
            invariant
                j <= sum_count,
                sum_count == rollup.account_sums@.len(),
                sums@.len() == j as int,
                sums.deep_view() =~= summarize_sums(rollup@.account_sums).subrange(0, j as int),
            decreases sum_count - j,
        {
            let group = &rollup.account_sums[j];
            proof {
                assert(rollup@.account_sums[j as int] == rollup.account_sums@[
                    j as int].deep_view());
            }
            let ghost prev = sums@;
            let ghost prev_dv = sums.deep_view();
            let item = (group.0.clone(), AccountGroupSummary {
                total: group.1,
                accounts: flatten_account_list(&group.2),
            });
            let ghost c = item;
            sums.push(item);
            proof {
                assert(sums@ == prev.push(c));
                assert forall|q: int| 0 <= q < sums@.len() implies sums.deep_view()[q]
                    == summarize_sums(rollup@.account_sums).subrange(0, j + 1)[q] by {
                    assert(sums.deep_view()[q] == sums@[q].deep_view());
                    if q < prev.len() {
                        assert(sums@[q] == prev[q]);
                        assert(prev_dv[q] == prev[q].deep_view());
                    } else {
                        assert(sums@[q] == c);
                    }
                }
                assert(sums.deep_view() =~= summarize_sums(rollup@.account_sums).subrange(
                    0,
                    j + 1,
                ));
            }
            j = j + 1;
        }
        proof {
            assert(sums.deep_view() =~= summarize_sums(rollup@.account_sums));
        }
        GroupingSummary { account_sums: sums, account_types: types }
    }
}

impl Summary {
    /// Flattens a whole run: the overall rollup with its carryover rows, and
    /// every period without them, in declared period order.
    pub fn create(result: &SummedBookkeeping) -> (r: Summary)
        ensures
            r.total@.account_types == summarize_types(
                result@.total.account_types,
                true,
                result@.total.account_types.len() as int,
            ),
            r.total@.account_sums == summarize_sums(result@.total.account_sums),
            r.groupings.deep_view().len() == result@.groupings.len(),
            forall|g: int|
                0 <= g < result@.groupings.len() ==> {
                    let entry = #[trigger] r.groupings.deep_view()[g];
                    &&& entry.0 == result@.groupings[g].0
                    &&& entry.1.account_types == summarize_types(
                        result@.groupings[g].1.account_types,
                        false,
                        result@.groupings[g].1.account_types.len() as int,
                    )
                    &&& entry.1.account_sums == summarize_sums(result@.groupings[g].1.account_sums)
                },
    {
        let total = GroupingSummary::create(&result.total, true);
        let mut groupings: Vec<(String, GroupingSummary)> = Vec::new();
        let n = result.groupings.len();
        let mut g: usize = 0;
        while g < n
            invariant
                g <= n,
                n == result.groupings@.len(),
                groupings@.len() == g as int,
                forall|q: int|
                    0 <= q < g ==> {
                        let entry = #[trigger] groupings.deep_view()[q];
                        &&& entry.0 == result@.groupings[q].0
                        &&& entry.1.account_types == summarize_types(
                            result@.groupings[q].1.account_types,
                            false,
                            result@.groupings[q].1.account_types.len() as int,
                        )
                        &&& entry.1.account_sums == summarize_sums(
                            result@.groupings[q].1.account_sums,
                        )
                    },
            decreases n - g,
        {
            let period = &result.groupings[g];
            proof {
                assert(result@.groupings[g as int] == result.groupings@[g as int].deep_view());
            }
            let ghost prev = groupings@;
            let ghost prev_dv = groupings.deep_view();
            let item = (period.0.clone(), GroupingSummary::create(&period.1, false));
            let ghost c = item;
            groupings.push(item);
            proof {
                assert(groupings@ == prev.push(c));
                assert forall|q: int| 0 <= q < g + 1 implies {
                    let entry = #[trigger] groupings.deep_view()[q];
                    &&& entry.0 == result@.groupings[q].0
                    &&& entry.1.account_types == summarize_types(
                        result@.groupings[q].1.account_types,
                        false,
                        result@.groupings[q].1.account_types.len() as int,
                    )
                    &&& entry.1.account_sums == summarize_sums(result@.groupings[q].1.account_sums)
                } by {
                    assert(groupings.deep_view()[q] == groupings@[q].deep_view());
                    if q < prev.len() {
                        assert(groupings@[q] == prev[q]);
                        assert(prev_dv[q] == prev[q].deep_view());
                    } else {
                        assert(groupings@[q] == c);
                    }
                }
            }
            g = g + 1;
        }
        Summary { total, groupings }
    }
}

} // verus!
