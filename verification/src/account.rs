//! Per-account aggregates and the accumulator that maintains them, one
//! instance per scope (period-local or run-global).

use vstd::prelude::*;
use core::cmp::Ordering;

use crate::amount::Amount;
use crate::transfer::{
    lemma_cmp_transfer_equal, lemma_cmp_transfer_flip, lemma_cmp_transfer_trans,
    sorted_transfers, transfer_lt, Transfer, TransferV,
};

verus! {

/// The aggregate of one account at one scope: its running total and the
/// ordered, duplicate-free collection of transfers that produced it.
pub struct SummedAccount {
    pub name: String,
    pub sum: Amount,
    pub transfers: Vec<Transfer>,
}

/// Mathematical value of a summed account.
#[verifier::ext_equal]
pub ghost struct SummedAccountV {
    pub name: Seq<char>,
    pub sum: int,
    pub transfers: Seq<TransferV>,
}

impl View for SummedAccount {
    type V = SummedAccountV;

    open spec fn view(&self) -> SummedAccountV {
        SummedAccountV { name: self.name@, sum: self.sum@, transfers: self.transfers.deep_view() }
    }
}

impl DeepView for SummedAccount {
    type V = SummedAccountV;

    open spec fn deep_view(&self) -> SummedAccountV {
        self.view()
    }
}

/// A summed account is well-formed when its transfers are strictly ascending
/// in the transfer order (which also rules out duplicates).
pub open spec fn account_wf(a: SummedAccountV) -> bool {
    sorted_transfers(a.transfers)
}

/// Where `t` belongs in a sorted transfer list: the first position whose
/// element is not smaller than `t`, and whether that element equals `t`.
fn find_position(transfers: &Vec<Transfer>, t: &Transfer) -> (r: (usize, bool))
    requires
        sorted_transfers(transfers.deep_view()),
    ensures
        r.0 <= transfers@.len(),
        forall|q: int| 0 <= q < r.0 ==> transfer_lt(transfers.deep_view()[q], t@),
        r.1 ==> r.0 < transfers@.len() && transfers.deep_view()[r.0 as int] == t@,
        !r.1 && r.0 < transfers@.len() ==> transfer_lt(t@, transfers.deep_view()[r.0 as int]),
{
    let n = transfers.len();
    let mut i: usize = 0;
    while i < n
        invariant
            i <= n,
            n == transfers@.len(),
            forall|q: int| 0 <= q < i ==> transfer_lt(transfers.deep_view()[q], t@),
        decreases n - i,
    {
        proof {
            assert(transfers.deep_view()[i as int] == transfers@[i as int].deep_view());
        }
        match transfers[i].compare(t) {
            Ordering::Less => {
                i = i + 1;
            },
            Ordering::Equal => {
                proof {
                    lemma_cmp_transfer_equal(transfers.deep_view()[i as int], t@);
                }
                return (i, true);
            },
            Ordering::Greater => {
                proof {
                    lemma_cmp_transfer_flip(transfers.deep_view()[i as int], t@);
                }
                return (i, false);
            },
        }
    }
    (i, false)
}

impl SummedAccount {
    /// A fresh aggregate holding its first transfer.
    pub fn new(name: String, amount: Amount, t: Transfer) -> (r: SummedAccount)
        ensures
            r@.name == name@,
            r@.sum == amount@,
            r@.transfers.len() == 1,
            r@.transfers[0] == t@,
            account_wf(r@),
    {
        let mut transfers: Vec<Transfer> = Vec::new();
        transfers.push(t);
        SummedAccount { name, sum: amount, transfers }
    }

    /// An independent copy with the same mathematical value.
    pub fn duplicate(&self) -> (r: SummedAccount)
        ensures
            r@ == self@,
    {
        let mut transfers: Vec<Transfer> = Vec::new();
        let n = self.transfers.len();
        let mut i: usize = 0;
        while i < n
            invariant
                i <= n,
                n == self.transfers@.len(),
                transfers@.len() == i as int,
                transfers.deep_view() =~= self.transfers.deep_view().subrange(0, i as int),
            decreases n - i,
        {
            let ghost prev = transfers@;
            let ghost prev_dv = transfers.deep_view();
            let copied = self.transfers[i].duplicate();
            let ghost c = copied;
            transfers.push(copied);
            proof {
                assert(transfers@ == prev.push(c));
                assert(c@ == self.transfers.deep_view()[i as int]);
                assert forall|q: int| 0 <= q < transfers@.len() implies transfers.deep_view()[q]
                    == self.transfers.deep_view().subrange(0, i + 1)[q] by {
                    assert(transfers.deep_view()[q] == transfers@[q].deep_view());
                    if q < prev.len() {
                        assert(transfers@[q] == prev[q]);
                        assert(prev_dv[q] == prev[q].deep_view());
                    } else {
                        assert(transfers@[q] == c);
                    }
                }
                assert(transfers.deep_view() =~= self.transfers.deep_view().subrange(0, i + 1));
            }
            i = i + 1;
        }
        proof {
            assert(transfers.deep_view() =~= self.transfers.deep_view());
        }
        let r = SummedAccount { name: self.name.clone(), sum: self.sum, transfers };
        proof {
            assert(r@ =~= self@);
        }
        r
    }

    /// Inserts a transfer, keeping the collection strictly sorted. Returns
    /// false — leaving the aggregate unchanged — exactly when an identical
    /// transfer is already present.
    pub fn insert_transfer(&mut self, t: Transfer) -> (ok: bool)
        requires
            account_wf(old(self)@),
        ensures
            account_wf(final(self)@),
            ok == !old(self)@.transfers.contains(t@),
            !ok ==> final(self)@ == old(self)@,
            ok ==> final(self)@.name == old(self)@.name && final(self)@.sum == old(self)@.sum,
            ok ==> final(self)@.transfers.len() == old(self)@.transfers.len() + 1,
            ok ==> forall|tv: TransferV|
                final(self)@.transfers.contains(tv) <==> (old(self)@.transfers.contains(tv) || tv
                    == t@),
    {
        let ghost s = self.transfers.deep_view();
        let (pos, found) = find_position(&self.transfers, &t);
        if found {
            proof {
                assert(s.contains(t@)) by {
                    assert(s[pos as int] == t@);
                }
            }
            return false;
        }
        proof {
            // `t` is nowhere in the list: positions before `pos` are smaller,
            // `pos` (if any) is larger, and later ones are larger still.
            assert forall|q: int| 0 <= q < s.len() implies s[q] != t@ by {
                lemma_cmp_transfer_equal(s[q], t@);
                if q < pos {
                    assert(transfer_lt(s[q], t@));
                } else {
                    assert(transfer_lt(t@, s[pos as int]));
                    if q > pos {
                        assert(transfer_lt(s[pos as int], s[q]));
                        lemma_cmp_transfer_trans(t@, s[pos as int], s[q]);
                    }
                    lemma_cmp_transfer_flip(t@, s[q]);
                }
            }
            assert(!s.contains(t@));
        }
        let ghost tv = t@;
        self.transfers.insert(pos, t);
        proof {
            let s2 = self.transfers.deep_view();
            assert(self.transfers@ == old(self).transfers@.insert(pos as int, t));
            assert(s2.len() == s.len() + 1);
            assert forall|q: int| 0 <= q < s2.len() implies s2[q] == s.insert(pos as int, tv)[q] by {
                assert(s2[q] == self.transfers@[q].deep_view());
                if q < pos {
                    assert(self.transfers@[q] == old(self).transfers@[q]);
                    assert(s[q] == old(self).transfers@[q].deep_view());
                } else if q == pos {
                    assert(self.transfers@[q] == t);
                } else {
                    assert(self.transfers@[q] == old(self).transfers@[q - 1]);
                    assert(s[q - 1] == old(self).transfers@[q - 1].deep_view());
                }
            }
            assert(s2 =~= s.insert(pos as int, tv));
            assert forall|i: int, j: int| 0 <= i < j < s2.len() implies transfer_lt(
                s2[i],
                s2[j],
            ) by {
                if i < pos && j == pos {
                    assert(transfer_lt(s[i], tv));
                } else if i == pos && j > pos {
                    assert(transfer_lt(tv, s[pos as int]));
                    if j - 1 > pos {
                        assert(transfer_lt(s[pos as int], s[j - 1]));
                        lemma_cmp_transfer_trans(tv, s[pos as int], s[j - 1]);
                    }
                } else if i < pos && j > pos {
                    assert(transfer_lt(s[i], s[j - 1]) || (pos == j - 1 && transfer_lt(
                        s[i],
                        tv,
                    )));
                    if pos < j - 1 {
                        assert(transfer_lt(s[i], s[j - 1]));
                    } else {
                        assert(transfer_lt(s[i], tv));
                    }
                } else if j < pos || (pos < i) {
                    assert(transfer_lt(s[if j <= pos { i } else { i - 1 }], s[if j <= pos {
                        j
                    } else {
                        j - 1
                    }]));
                }
            }
            assert(sorted_transfers(s2));
            assert forall|x: TransferV| s2.contains(x) <==> (s.contains(x) || x == tv) by {
                if s2.contains(x) {
                    let q = choose|q: int| 0 <= q < s2.len() && s2[q] == x;
                    if q < pos {
                        assert(s[q] == x);
                    } else if q > pos {
                        assert(s[q - 1] == x);
                    }
                }
                if s.contains(x) {
                    let q = choose|q: int| 0 <= q < s.len() && s[q] == x;
                    if q < pos {
                        assert(s2[q] == x);
                    } else {
                        assert(s2[q + 1] == x);
                    }
                }
                if x == tv {
                    assert(s2[pos as int] == x);
                }
            }
        }
        true
    }
}

// ---------------------------------------------------------------------------
// The accumulator: a collection of summed accounts with unique names.
// ---------------------------------------------------------------------------

/// One scope's accumulator: the summed accounts seen so far, each name held
/// at most once. Entry order carries no meaning; every lookup is by name.
pub struct Accumulator {
    pub entries: Vec<SummedAccount>,
}

impl View for Accumulator {
    type V = Seq<SummedAccountV>;

    open spec fn view(&self) -> Seq<SummedAccountV> {
        self.entries.deep_view()
    }
}

/// The index of the first entry named `a`, scanning from `i`; -1 when absent.
pub open spec fn acc_index_from(s: Seq<SummedAccountV>, a: Seq<char>, i: int) -> int
    decreases s.len() - i
        when 0 <= i
{
    if i >= s.len() {
        -1
    } else if s[i].name == a {
        i
    } else {
        acc_index_from(s, a, i + 1)
    }
}

/// The index of the entry named `a`, or -1 when no entry carries that name.
pub open spec fn acc_index(s: Seq<SummedAccountV>, a: Seq<char>) -> int {
    acc_index_from(s, a, 0)
}

/// An accumulator is well-formed when entry names are unique and every entry
/// is itself well-formed.
pub open spec fn acc_wf(s: Seq<SummedAccountV>) -> bool {
    &&& forall|i: int, j: int| 0 <= i < j < s.len() ==> s[i].name != s[j].name
    &&& forall|i: int| 0 <= i < s.len() ==> account_wf(#[trigger] s[i])
}

/// What `acc_index` finds: a real entry with the name sought, and nothing
/// named `a` anywhere else before it.
pub proof fn lemma_acc_index(s: Seq<SummedAccountV>, a: Seq<char>, i: int)
    requires
        0 <= i <= s.len(),
    ensures
        acc_index_from(s, a, i) >= 0 ==> i <= acc_index_from(s, a, i) < s.len() && s[acc_index_from(
            s,
            a,
            i,
        )].name == a,
        acc_index_from(s, a, i) < 0 ==> forall|q: int| i <= q < s.len() ==> s[q].name != a,
        forall|q: int| i <= q < s.len() && s[q].name == a ==> acc_index_from(s, a, i) >= 0,
    decreases s.len() - i,
{
    if i < s.len() && s[i].name != a {
        lemma_acc_index(s, a, i + 1);
    }
}

impl Accumulator {
    /// An empty accumulator.
    pub fn new() -> (r: Accumulator)
        ensures
            r@ == Seq::<SummedAccountV>::empty(),
            acc_wf(r@),
    {
        let r = Accumulator { entries: Vec::new() };
        proof {
            assert(r@ =~= Seq::<SummedAccountV>::empty());
        }
        r
    }

    /// The position of the entry named `account`, if any.
    pub fn find_account(&self, account: &String) -> (r: Option<usize>)
        ensures
            match r {
                Some(j) => j < self@.len() && acc_index(self@, account@) == j as int,
                None => acc_index(self@, account@) < 0,
            },
    {
        let n = self.entries.len();
        let mut i: usize = 0;
        while i < n
            invariant
                i <= n,
                n == self.entries@.len(),
                acc_index(self@, account@) == acc_index_from(self@, account@, i as int),
            decreases n - i,
        {
            proof {
                assert(self@[i as int] == self.entries@[i as int].deep_view());
            }
            if self.entries[i].name == *account {
                return Some(i);
            }
            i = i + 1;
        }
        None
    }

    /// Adds one leg to the account it names: looks the account up or creates
    /// it, adds `amount` to its total, and inserts `t` into its collection.
    /// Returns false — leaving the accumulator unchanged up to entry values —
    /// exactly when the account already holds an identical transfer.
    pub fn apply_leg(&mut self, account: &String, amount: Amount, t: Transfer) -> (ok: bool)
        requires
            acc_wf(old(self)@),
            acc_index(old(self)@, account@) >= 0 ==> i128::MIN <= old(self)@[acc_index(
                old(self)@,
                account@,
            )].sum + amount@ <= i128::MAX,
        ensures
            acc_wf(final(self)@),
            ({
                let s = old(self)@;
                let j = acc_index(s, account@);
                &&& (j < 0 ==> ok && final(self)@ == s.push(
                    SummedAccountV {
                        name: account@,
                        sum: amount@,
                        transfers: seq![t@],
                    },
                ))
                &&& (j >= 0 ==> ok == !s[j].transfers.contains(t@))
                &&& (j >= 0 && !ok ==> final(self)@ == s)
                &&& (j >= 0 && ok ==> {
                    let f = final(self)@;
                    &&& f.len() == s.len()
                    &&& (forall|q: int| 0 <= q < s.len() && q != j ==> f[q] == s[q])
                    &&& f[j].name == s[j].name
                    &&& f[j].sum == s[j].sum + amount@
                    &&& f[j].transfers.len() == s[j].transfers.len() + 1
                    &&& (forall|tv: TransferV|
                        f[j].transfers.contains(tv) <==> (s[j].transfers.contains(tv) || tv
                            == t@))
                })
            }),
    {
        let ghost s = old(self)@;
        proof {
            lemma_acc_index(s, account@, 0);
        }
        match self.find_account(account) {
            Some(j) => {
                proof {
                    assert(s[j as int] == self.entries@[j as int].deep_view());
                }
                let entry = &mut self.entries[j];
                let ghost before = entry@;
                let ok = entry.insert_transfer(t);
                if ok {
                    entry.sum = entry.sum.plus(amount);
                }
                proof {
                    assert(self.entries@ == old(self).entries@.update(j as int, *entry));
                    assert forall|q: int|
                        0 <= q < self@.len() && q != j implies self@[q] == s[q] by {
                        assert(self@[q] == self.entries@[q].deep_view());
                        assert(self.entries@[q] == old(self).entries@[q]);
                    }
                    assert(self@[j as int] == entry.deep_view());
                    assert(self@.len() == s.len());
                    if !ok {
                        assert(self@[j as int] == s[j as int]);
                        assert(self@ =~= s);
                    }
                    assert(self@[j as int].name == s[j as int].name);
                    assert forall|p: int, q: int|
                        0 <= p < q < self@.len() implies self@[p].name != self@[q].name by {
                        assert(s[p].name != s[q].name);
                        assert(self@[p].name == s[p].name);
                        assert(self@[q].name == s[q].name);
                    }
                    assert forall|q: int| 0 <= q < self@.len() implies account_wf(
                        #[trigger] self@[q],
                    ) by {
                        if q != j {
                            assert(self@[q] == s[q]);
                            assert(account_wf(s[q]));
                        } else {
                            assert(account_wf(entry@));
                        }
                    }
                    assert(acc_wf(self@));
                }
                ok
            },
            None => {
                let entry = SummedAccount::new(account.clone(), amount, t);
                let ghost ev = entry@;
                self.entries.push(entry);
                proof {
                    assert(self.entries@ == old(self).entries@.push(entry));
                    assert forall|q: int| 0 <= q < self@.len() implies self@[q] == s.push(ev)[q] by {
                        assert(self@[q] == self.entries@[q].deep_view());
                        if q < s.len() {
                            assert(self.entries@[q] == old(self).entries@[q]);
                        }
                    }
                    assert(self@ =~= s.push(ev));
                    assert(ev.transfers =~= seq![t@]);
                    assert(ev =~= (SummedAccountV {
                        name: account@,
                        sum: amount@,
                        transfers: seq![t@],
                    }));
                    lemma_acc_index(s, account@, 0);
                    assert(acc_wf(self@)) by {
                        assert forall|i: int, j: int|
                            0 <= i < j < self@.len() implies self@[i].name != self@[j].name by {
                            if j == s.len() {
                                assert(self@[i] == s[i]);
                                assert(s[i].name != account@);
                            }
                        }
                    }
                }
                true
            },
        }
    }
}

} // verus!
