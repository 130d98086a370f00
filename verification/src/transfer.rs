//! Realized transaction legs ("transfers") and the total order that keeps
//! each account's transfer collection sorted and free of duplicates.

use vstd::prelude::*;
use core::cmp::Ordering;

use crate::amount::Amount;
use crate::date::{cmp_date, Date};
use crate::order::{
    chain_ord, cmp_chars, cmp_int, flip_ord, lemma_cmp_chars_equal, lemma_cmp_chars_flip,
    lemma_cmp_chars_trans, str_compare, usize_compare,
};

verus! {

/// Identifies one leg of one transaction across the whole run: the period it
/// belongs to, the transaction's index within that period, and the leg's
/// position within the transaction.
pub struct TransferId {
    pub period: String,
    pub transaction: usize,
    pub leg: usize,
}

/// Mathematical value of a `TransferId`.
#[verifier::ext_equal]
pub ghost struct TransferIdV {
    pub period: Seq<char>,
    pub transaction: int,
    pub leg: int,
}

impl View for TransferId {
    type V = TransferIdV;

    open spec fn view(&self) -> TransferIdV {
        TransferIdV {
            period: self.period@,
            transaction: self.transaction as int,
            leg: self.leg as int,
        }
    }
}

impl DeepView for TransferId {
    type V = TransferIdV;

    open spec fn deep_view(&self) -> TransferIdV {
        self.view()
    }
}

/// One realized leg of a transaction, as held by a summed account: the
/// transaction's date and name, this leg's signed amount, the leg's unique
/// identifier, and the sibling legs of the same transaction kept for audit.
pub struct Transfer {
    pub date: Date,
    pub name: String,
    pub amount: Amount,
    pub id: TransferId,
    pub related: Vec<(String, Amount)>,
}

/// Mathematical value of a `Transfer`.
#[verifier::ext_equal]
pub ghost struct TransferV {
    pub date: Date,
    pub name: Seq<char>,
    pub amount: int,
    pub id: TransferIdV,
    pub related: Seq<(Seq<char>, int)>,
}

impl View for Transfer {
    type V = TransferV;

    open spec fn view(&self) -> TransferV {
        TransferV {
            date: self.date,
            name: self.name@,
            amount: self.amount@,
            id: self.id@,
            related: self.related.deep_view(),
        }
    }
}

impl DeepView for Transfer {
    type V = TransferV;

    open spec fn deep_view(&self) -> TransferV {
        self.view()
    }
}

/// Identifier order: period name, then transaction index, then leg position.
pub open spec fn cmp_id(a: TransferIdV, b: TransferIdV) -> Ordering {
    chain_ord(
        cmp_chars(a.period, b.period),
        chain_ord(cmp_int(a.transaction, b.transaction), cmp_int(a.leg, b.leg)),
    )
}

/// Order of one (account, amount) leg pair.
pub open spec fn cmp_leg(a: (Seq<char>, int), b: (Seq<char>, int)) -> Ordering {
    chain_ord(cmp_chars(a.0, b.0), cmp_int(a.1, b.1))
}

/// Lexicographic order of leg lists; a proper prefix orders first.
pub open spec fn cmp_legs(a: Seq<(Seq<char>, int)>, b: Seq<(Seq<char>, int)>) -> Ordering
    decreases a.len(),
{
    if a.len() == 0 && b.len() == 0 {
        Ordering::Equal
    } else if a.len() == 0 {
        Ordering::Less
    } else if b.len() == 0 {
        Ordering::Greater
    } else if cmp_leg(a[0], b[0]) != Ordering::Equal {
        cmp_leg(a[0], b[0])
    } else {
        cmp_legs(a.drop_first(), b.drop_first())
    }
}

/// The order of transfers within an account: by date, then transaction name,
/// then amount, then unique identifier, and finally the sibling legs.
pub open spec fn cmp_transfer(a: TransferV, b: TransferV) -> Ordering {
    chain_ord(
        cmp_date(a.date, b.date),
        chain_ord(
            cmp_chars(a.name, b.name),
            chain_ord(
                cmp_int(a.amount, b.amount),
                chain_ord(cmp_id(a.id, b.id), cmp_legs(a.related, b.related)),
            ),
        ),
    )
}

/// Strict order on transfers.
pub open spec fn transfer_lt(a: TransferV, b: TransferV) -> bool {
    cmp_transfer(a, b) == Ordering::Less
}

/// A transfer sequence in strictly ascending order (hence duplicate-free).
pub open spec fn sorted_transfers(s: Seq<TransferV>) -> bool {
    forall|i: int, j: int| 0 <= i < j < s.len() ==> transfer_lt(s[i], s[j])
}

/// Two leg lists compare as a tie exactly when they are equal.
pub proof fn lemma_cmp_legs_equal(a: Seq<(Seq<char>, int)>, b: Seq<(Seq<char>, int)>)
    ensures
        (cmp_legs(a, b) == Ordering::Equal) <==> (a == b),
    decreases a.len(),
{
    if a.len() != 0 && b.len() != 0 {
        lemma_cmp_chars_equal(a[0].0, b[0].0);
        lemma_cmp_legs_equal(a.drop_first(), b.drop_first());
        if cmp_legs(a, b) == Ordering::Equal {
            assert(a[0] == b[0]);
            assert(a.drop_first() =~= b.drop_first());
            assert forall|i: int| 0 <= i < a.len() implies a[i] == b[i] by {
                if i > 0 {
                    assert(a.drop_first()[i - 1] == b.drop_first()[i - 1]);
                }
            }
            assert(a =~= b);
        }
        if a == b {
            assert(a.drop_first() =~= b.drop_first());
        }
    } else {
        if cmp_legs(a, b) == Ordering::Equal {
            assert(a =~= b);
        }
    }
}

/// Swapping the arguments flips the comparison of leg lists.
pub proof fn lemma_cmp_legs_flip(a: Seq<(Seq<char>, int)>, b: Seq<(Seq<char>, int)>)
    ensures
        cmp_legs(b, a) == flip_ord(cmp_legs(a, b)),
    decreases a.len(),
{
    if a.len() != 0 && b.len() != 0 {
        lemma_cmp_chars_flip(a[0].0, b[0].0);
        lemma_cmp_chars_equal(a[0].0, b[0].0);
        lemma_cmp_legs_flip(a.drop_first(), b.drop_first());
    }
}

/// The strict order on leg lists is transitive.
pub proof fn lemma_cmp_legs_trans(
    a: Seq<(Seq<char>, int)>,
    b: Seq<(Seq<char>, int)>,
    c: Seq<(Seq<char>, int)>,
)
    requires
        cmp_legs(a, b) == Ordering::Less,
        cmp_legs(b, c) == Ordering::Less,
    ensures
        cmp_legs(a, c) == Ordering::Less,
    decreases a.len(),
{
    if a.len() != 0 && b.len() != 0 && c.len() != 0 {
        lemma_cmp_chars_equal(a[0].0, b[0].0);
        lemma_cmp_chars_equal(b[0].0, c[0].0);
        lemma_cmp_chars_equal(a[0].0, c[0].0);
        if cmp_chars(a[0].0, b[0].0) == Ordering::Less && cmp_chars(b[0].0, c[0].0)
            == Ordering::Less {
            lemma_cmp_chars_trans(a[0].0, b[0].0, c[0].0);
        }
        if cmp_leg(a[0], b[0]) == Ordering::Equal && cmp_leg(b[0], c[0]) == Ordering::Equal {
            lemma_cmp_legs_trans(a.drop_first(), b.drop_first(), c.drop_first());
        }
    }
}

/// Two transfers compare as a tie exactly when they are equal.
pub proof fn lemma_cmp_transfer_equal(a: TransferV, b: TransferV)
    ensures
        (cmp_transfer(a, b) == Ordering::Equal) <==> (a == b),
{
    lemma_cmp_chars_equal(a.name, b.name);
    lemma_cmp_chars_equal(a.id.period, b.id.period);
    lemma_cmp_legs_equal(a.related, b.related);
    if cmp_transfer(a, b) == Ordering::Equal {
        assert(a.id =~= b.id);
        assert(a =~= b);
    }
    if a == b {
        assert(cmp_transfer(a, b) == Ordering::Equal);
    }
}

/// Swapping the arguments flips the comparison of transfers.
pub proof fn lemma_cmp_transfer_flip(a: TransferV, b: TransferV)
    ensures
        cmp_transfer(b, a) == flip_ord(cmp_transfer(a, b)),
{
    lemma_cmp_chars_flip(a.name, b.name);
    lemma_cmp_chars_flip(a.id.period, b.id.period);
    lemma_cmp_legs_flip(a.related, b.related);
}

/// The strict order on transfers is transitive.
pub proof fn lemma_cmp_transfer_trans(a: TransferV, b: TransferV, c: TransferV)
    requires
        transfer_lt(a, b),
        transfer_lt(b, c),
    ensures
        transfer_lt(a, c),
{
    lemma_cmp_chars_equal(a.name, b.name);
    lemma_cmp_chars_equal(b.name, c.name);
    lemma_cmp_chars_equal(a.id.period, b.id.period);
    lemma_cmp_chars_equal(b.id.period, c.id.period);
    lemma_cmp_legs_equal(a.related, b.related);
    lemma_cmp_legs_equal(b.related, c.related);
    if cmp_chars(a.name, b.name) == Ordering::Less && cmp_chars(b.name, c.name)
        == Ordering::Less {
        lemma_cmp_chars_trans(a.name, b.name, c.name);
    }
    if cmp_chars(a.id.period, b.id.period) == Ordering::Less && cmp_chars(
        b.id.period,
        c.id.period,
    ) == Ordering::Less {
        lemma_cmp_chars_trans(a.id.period, b.id.period, c.id.period);
    }
    if cmp_legs(a.related, b.related) == Ordering::Less && cmp_legs(b.related, c.related)
        == Ordering::Less {
        lemma_cmp_legs_trans(a.related, b.related, c.related);
    }
}

/// Executable comparison of one leg pair.
fn leg_compare(a: &(String, Amount), b: &(String, Amount)) -> (o: Ordering)
    ensures
        o == cmp_leg(a.deep_view(), b.deep_view()),
{
    match str_compare(a.0.as_str(), b.0.as_str()) {
        Ordering::Equal => a.1.compare(&b.1),
        o => o,
    }
}

/// Executable lexicographic comparison of two leg lists.
fn legs_compare(a: &Vec<(String, Amount)>, b: &Vec<(String, Amount)>) -> (o: Ordering)
    ensures
        o == cmp_legs(a.deep_view(), b.deep_view()),
{
    let a_len = a.len();
    let b_len = b.len();
    let mut i: usize = 0;
    proof {
        assert(a.deep_view().skip(0) =~= a.deep_view());
        assert(b.deep_view().skip(0) =~= b.deep_view());
    }
    loop
        invariant
            i <= a_len,
            i <= b_len,
            a_len == a.deep_view().len(),
            b_len == b.deep_view().len(),
            cmp_legs(a.deep_view(), b.deep_view()) == cmp_legs(
                a.deep_view().skip(i as int),
                b.deep_view().skip(i as int),
            ),
        decreases a_len - i,
    {
        if i == a_len && i == b_len {
            return Ordering::Equal;
        }
        if i == a_len {
            return Ordering::Less;
        }
        if i == b_len {
            return Ordering::Greater;
        }
        proof {
            assert(a.deep_view().skip(i as int)[0] == a.deep_view()[i as int]);
            assert(b.deep_view().skip(i as int)[0] == b.deep_view()[i as int]);
            assert(a.deep_view().skip(i as int).drop_first() =~= a.deep_view().skip(i + 1));
            assert(b.deep_view().skip(i as int).drop_first() =~= b.deep_view().skip(i + 1));
            assert(a.deep_view()[i as int] == a@[i as int].deep_view());
            assert(b.deep_view()[i as int] == b@[i as int].deep_view());
        }
        match leg_compare(&a[i], &b[i]) {
            Ordering::Equal => {
                i = i + 1;
            },
            o => {
                return o;
            },
        }
    }
}

/// Executable comparison of transfer identifiers.
fn id_compare(a: &TransferId, b: &TransferId) -> (o: Ordering)
    ensures
        o == cmp_id(a@, b@),
{
    match str_compare(a.period.as_str(), b.period.as_str()) {
        Ordering::Equal => match usize_compare(a.transaction, b.transaction) {
            Ordering::Equal => usize_compare(a.leg, b.leg),
            o => o,
        },
        o => o,
    }
}

impl Transfer {
    /// Executable comparison in the transfer order.
    pub fn compare(&self, other: &Transfer) -> (o: Ordering)
        ensures
            o == cmp_transfer(self@, other@),
    {
        match self.date.compare(&other.date) {
            Ordering::Equal => match str_compare(self.name.as_str(), other.name.as_str()) {
                Ordering::Equal => match self.amount.compare(&other.amount) {
                    Ordering::Equal => match id_compare(&self.id, &other.id) {
                        Ordering::Equal => legs_compare(&self.related, &other.related),
                        o => o,
                    },
                    o => o,
                },
                o => o,
            },
            o => o,
        }
    }

    /// An independent copy with the same mathematical value.
    pub fn duplicate(&self) -> (r: Transfer)
        ensures
            r@ == self@,
    {
        let r = Transfer {
            date: self.date,
            name: self.name.clone(),
            amount: self.amount,
            id: TransferId {
                period: self.id.period.clone(),
                transaction: self.id.transaction,
                leg: self.id.leg,
            },
            related: clone_legs(&self.related),
        };
        proof {
            assert(r@ =~= self@);
        }
        r
    }
}

/// An independent copy of a leg list with the same mathematical value.
pub fn clone_legs(v: &Vec<(String, Amount)>) -> (r: Vec<(String, Amount)>)
    ensures
        r.deep_view() == v.deep_view(),
{
    let mut r: Vec<(String, Amount)> = Vec::new();
    let n = v.len();
    let mut i: usize = 0;
    while i < n
        invariant
            i <= n,
            n == v@.len(),
            r@.len() == i as int,
            r.deep_view() =~= v.deep_view().subrange(0, i as int),
        decreases n - i,
    {
        let entry = &v[i];
        let copied = (entry.0.clone(), entry.1);
        proof {
            assert(v.deep_view()[i as int] == v@[i as int].deep_view());
            assert(copied.deep_view() == v@[i as int].deep_view());
        }
        let ghost prev = r@;
        let ghost prev_dv = r.deep_view();
        let ghost c = copied;
        r.push(copied);
        proof {
            assert(r@ == prev.push(c));
            assert(r@.len() == i + 1);
            assert forall|k: int| 0 <= k < i + 1 implies r.deep_view()[k] == v.deep_view()[k] by {
                assert(r.deep_view()[k] == r@[k].deep_view());
                if k < i {
                    assert(r@[k] == prev[k]);
                    assert(prev_dv[k] == prev[k].deep_view());
                    assert(prev_dv[k] == v.deep_view().subrange(0, i as int)[k]);
                    assert(v.deep_view().subrange(0, i as int)[k] == v.deep_view()[k]);
                } else {
                    assert(r@[k] == c);
                    assert(c.deep_view() == v@[i as int].deep_view());
                    assert(v.deep_view()[i as int] == v@[i as int].deep_view());
                }
            }
            assert(r.deep_view() =~= v.deep_view().subrange(0, i + 1));
        }
        i = i + 1;
    }
    proof {
        assert(r.deep_view() =~= v.deep_view());
    }
    r
}

} // verus!
