//! Category rollup: given a completed accumulator and a declared category
//! table, computes each category's total and its member accounts with
//! activity, in declaration order. The same pure function serves the
//! account-type dimension and the named-category dimension, and serves the
//! period-local and the run-global scope alike: it only reads whichever
//! accumulator it is given.

use vstd::prelude::*;

use crate::account::{acc_index, Accumulator, SummedAccount, SummedAccountV};
use crate::amount::Amount;
use crate::ledger::{AccountType, ACCOUNT_TOTAL_LIMIT, MAX_MEMBERS};

verus! {

/// The category total over the first `i` members: each member contributes its
/// accumulator total, and a member with no entry contributes zero.
pub open spec fn members_total_upto(
    s: Seq<SummedAccountV>,
    members: Seq<Seq<char>>,
    i: int,
) -> int
    decreases i,
{
    if i <= 0 {
        0
    } else {
        members_total_upto(s, members, i - 1) + {
            let j = acc_index(s, members[i - 1]);
            if j >= 0 {
                s[j].sum
            } else {
                0
            }
        }
    }
}

/// The category total: the sum of the member accounts' totals.
pub open spec fn members_total(s: Seq<SummedAccountV>, members: Seq<Seq<char>>) -> int {
    members_total_upto(s, members, members.len() as int)
}

/// The member accounts with activity among the first `i` members, in member
/// declaration order; a member with no entry is omitted, never padded.
pub open spec fn rollup_members_upto(
    s: Seq<SummedAccountV>,
    members: Seq<Seq<char>>,
    i: int,
) -> Seq<SummedAccountV>
    decreases i,
{
    if i <= 0 {
        Seq::empty()
    } else {
        let rest = rollup_members_upto(s, members, i - 1);
        let j = acc_index(s, members[i - 1]);
        if j >= 0 {
            rest.push(s[j])
        } else {
            rest
        }
    }
}

/// The member accounts with activity, in member declaration order.
pub open spec fn rollup_members(s: Seq<SummedAccountV>, members: Seq<Seq<char>>) -> Seq<
    SummedAccountV,
> {
    rollup_members_upto(s, members, members.len() as int)
}

/// Sums one category out of an accumulator: the total over its members and
/// the member accounts that saw activity, in declaration order.
pub fn sum_category(acc: &Accumulator, members: &Vec<String>) -> (r: (Amount, Vec<SummedAccount>))
    requires
        members@.len() <= MAX_MEMBERS,
        forall|q: int|
            0 <= q < acc@.len() ==> -ACCOUNT_TOTAL_LIMIT <= (#[trigger] acc@[q]).sum
                <= ACCOUNT_TOTAL_LIMIT,
    ensures
        r.0@ == members_total(acc@, members.deep_view()),
        r.1.deep_view() == rollup_members(acc@, members.deep_view()),
{
    let mut total = Amount::zero();
    let mut list: Vec<SummedAccount> = Vec::new();
    let n = members.len();
    let mut i: usize = 0;
    while i < n
        invariant
            i <= n,
            n == members@.len(),
            n <= MAX_MEMBERS,
            forall|q: int|
                0 <= q < acc@.len() ==> -ACCOUNT_TOTAL_LIMIT <= (#[trigger] acc@[q]).sum
                    <= ACCOUNT_TOTAL_LIMIT,
            total@ == members_total_upto(acc@, members.deep_view(), i as int),
            -(i as int * ACCOUNT_TOTAL_LIMIT) <= total@ <= i as int * ACCOUNT_TOTAL_LIMIT,
            list.deep_view() =~= rollup_members_upto(acc@, members.deep_view(), i as int),
        decreases n - i,
    {
        proof {
            assert(members.deep_view()[i as int] == members@[i as int]@);
        }
        let ghost prev_total = total@;
        let ghost prev = list@;
        let ghost prev_dv = list.deep_view();
        match acc.find_account(&members[i]) {
            Some(j) => {
                proof {
                    assert(acc@[j as int] == acc.entries@[j as int].deep_view());
                    assert((i as int + 1) * ACCOUNT_TOTAL_LIMIT == i as int * ACCOUNT_TOTAL_LIMIT
                        + ACCOUNT_TOTAL_LIMIT) by (nonlinear_arith);
                    assert(i as int * ACCOUNT_TOTAL_LIMIT <= MAX_MEMBERS * ACCOUNT_TOTAL_LIMIT
                        && -(MAX_MEMBERS * ACCOUNT_TOTAL_LIMIT) <= -(i as int
                        * ACCOUNT_TOTAL_LIMIT)) by (nonlinear_arith)
                        requires
                            0 <= i < MAX_MEMBERS,
                    ;
                }
                let entry = &acc.entries[j];
                total = total.plus(entry.sum);
                let copied = entry.duplicate();
                let ghost c = copied;
                list.push(copied);
                proof {
                    assert(list@ == prev.push(c));
                    assert(c@ == acc@[j as int]);
                    assert forall|q: int| 0 <= q < list@.len() implies list.deep_view()[q]
                        == rollup_members_upto(acc@, members.deep_view(), i + 1)[q] by {
                        assert(list.deep_view()[q] == list@[q].deep_view());
                        if q < prev.len() {
                            assert(list@[q] == prev[q]);
                            assert(prev_dv[q] == prev[q].deep_view());
                        } else {
                            assert(list@[q] == c);
                        }
                    }
                    assert(list.deep_view() =~= rollup_members_upto(
                        acc@,
                        members.deep_view(),
                        i + 1,
                    ));
                }
            },
            None => {
                proof {
                    assert(list.deep_view() =~= rollup_members_upto(
                        acc@,
                        members.deep_view(),
                        i + 1,
                    ));
                    assert((i as int + 1) * ACCOUNT_TOTAL_LIMIT == i as int * ACCOUNT_TOTAL_LIMIT
                        + ACCOUNT_TOTAL_LIMIT) by (nonlinear_arith);
                }
            },
        }
        i = i + 1;
    }
    proof {
        assert(list.deep_view() =~= rollup_members(acc@, members.deep_view()));
    }
    (total, list)
}

/// Rolls the accumulator up along the named-category dimension, in category
/// declaration order.
pub fn rollup_sums(acc: &Accumulator, table: &Vec<(String, Vec<String>)>) -> (r: Vec<
    (String, Amount, Vec<SummedAccount>),
>)
    requires
        forall|j: int| 0 <= j < table@.len() ==> (#[trigger] table@[j]).1@.len() <= MAX_MEMBERS,
        forall|q: int|
            0 <= q < acc@.len() ==> -ACCOUNT_TOTAL_LIMIT <= (#[trigger] acc@[q]).sum
                <= ACCOUNT_TOTAL_LIMIT,
    ensures
        r.deep_view().len() == table@.len(),
        forall|j: int|
            0 <= j < table@.len() ==> {
                let entry = #[trigger] r.deep_view()[j];
                &&& entry.0 == table.deep_view()[j].0
                &&& entry.1 == members_total(acc@, table.deep_view()[j].1)
                &&& entry.2 == rollup_members(acc@, table.deep_view()[j].1)
            },
{
    let mut r: Vec<(String, Amount, Vec<SummedAccount>)> = Vec::new();
    let n = table.len();
    let mut j: usize = 0;
    while j < n
        invariant
            j <= n,
            n == table@.len(),
            forall|q: int| 0 <= q < table@.len() ==> (#[trigger] table@[q]).1@.len() <= MAX_MEMBERS,
            forall|q: int|
                0 <= q < acc@.len() ==> -ACCOUNT_TOTAL_LIMIT <= (#[trigger] acc@[q]).sum
                    <= ACCOUNT_TOTAL_LIMIT,
            r@.len() == j as int,
            forall|q: int|
                0 <= q < j ==> {
                    let entry = #[trigger] r.deep_view()[q];
                    &&& entry.0 == table.deep_view()[q].0
                    &&& entry.1 == members_total(acc@, table.deep_view()[q].1)
                    &&& entry.2 == rollup_members(acc@, table.deep_view()[q].1)
                },
        decreases n - j,
    {
        let category = &table[j];
        let (total, list) = sum_category(acc, &category.1);
        let ghost prev = r@;
        let ghost prev_dv = r.deep_view();
        let item = (category.0.clone(), total, list);
        let ghost c = item;
        r.push(item);
        proof {
            assert(r@ == prev.push(c));
            assert(table.deep_view()[j as int] == table@[j as int].deep_view());
            assert forall|q: int| 0 <= q < j + 1 implies {
                let entry = #[trigger] r.deep_view()[q];
                &&& entry.0 == table.deep_view()[q].0
                &&& entry.1 == members_total(acc@, table.deep_view()[q].1)
                &&& entry.2 == rollup_members(acc@, table.deep_view()[q].1)
            } by {
                assert(r.deep_view()[q] == r@[q].deep_view());
                if q < prev.len() {
                    assert(r@[q] == prev[q]);
                    assert(prev_dv[q] == prev[q].deep_view());
                } else {
                    assert(r@[q] == c);
                }
            }
        }
        j = j + 1;
    }
    r
}

/// Rolls the accumulator up along the account-type dimension, in declaration
/// order.
pub fn rollup_types(acc: &Accumulator, table: &Vec<(AccountType, Vec<String>)>) -> (r: Vec<
    (AccountType, Amount, Vec<SummedAccount>),
>)
    requires
        forall|j: int| 0 <= j < table@.len() ==> (#[trigger] table@[j]).1@.len() <= MAX_MEMBERS,
        forall|q: int|
            0 <= q < acc@.len() ==> -ACCOUNT_TOTAL_LIMIT <= (#[trigger] acc@[q]).sum
                <= ACCOUNT_TOTAL_LIMIT,
    ensures
        r.deep_view().len() == table@.len(),
        forall|j: int|
            0 <= j < table@.len() ==> {
                let entry = #[trigger] r.deep_view()[j];
                &&& entry.0 == table.deep_view()[j].0
                &&& entry.1 == members_total(acc@, table.deep_view()[j].1)
                &&& entry.2 == rollup_members(acc@, table.deep_view()[j].1)
            },
{
    let mut r: Vec<(AccountType, Amount, Vec<SummedAccount>)> = Vec::new();
    let n = table.len();
    let mut j: usize = 0;
    while j < n
        invariant
            j <= n,
            n == table@.len(),
            forall|q: int| 0 <= q < table@.len() ==> (#[trigger] table@[q]).1@.len() <= MAX_MEMBERS,
            forall|q: int|
                0 <= q < acc@.len() ==> -ACCOUNT_TOTAL_LIMIT <= (#[trigger] acc@[q]).sum
                    <= ACCOUNT_TOTAL_LIMIT,
            r@.len() == j as int,
            forall|q: int|
                0 <= q < j ==> {
                    let entry = #[trigger] r.deep_view()[q];
                    &&& entry.0 == table.deep_view()[q].0
                    &&& entry.1 == members_total(acc@, table.deep_view()[q].1)
                    &&& entry.2 == rollup_members(acc@, table.deep_view()[q].1)
                },
        decreases n - j,
    {
        let category = &table[j];
        let (total, list) = sum_category(acc, &category.1);
        let ghost prev = r@;
        let ghost prev_dv = r.deep_view();
        let item = (category.0, total, list);
        let ghost c = item;
        r.push(item);
        proof {
            assert(r@ == prev.push(c));
            assert(table.deep_view()[j as int] == table@[j as int].deep_view());
            assert forall|q: int| 0 <= q < j + 1 implies {
                let entry = #[trigger] r.deep_view()[q];
                &&& entry.0 == table.deep_view()[q].0
                &&& entry.1 == members_total(acc@, table.deep_view()[q].1)
                &&& entry.2 == rollup_members(acc@, table.deep_view()[q].1)
            } by {
                assert(r.deep_view()[q] == r@[q].deep_view());
                if q < prev.len() {
                    assert(r@[q] == prev[q]);
                    assert(prev_dv[q] == prev[q].deep_view());
                } else {
                    assert(r@[q] == c);
                }
            }
        }
        j = j + 1;
    }
    r
}

} // verus!
