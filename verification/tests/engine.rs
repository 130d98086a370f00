use bookkeeping::amount::Amount;
use bookkeeping::calculate::{calculate, SummedBookkeeping};
use bookkeeping::date::Date;
use bookkeeping::ledger::{
    AccountType, LedgerError, RealBookkeeping, RealGrouping, RealTransaction,
};

fn amt(n: i64) -> Amount {
    Amount::from_whole(n)
}

fn tx(name: &str, day: u8, index: usize, legs: &[(&str, i64)]) -> RealTransaction {
    RealTransaction {
        name: name.to_string(),
        date: Date::new(2023, 6, day),
        index,
        transfers: legs
            .iter()
            .map(|(account, value)| (account.to_string(), amt(*value)))
            .collect(),
        comments: Vec::new(),
    }
}

fn names(list: &[&str]) -> Vec<String> {
    list.iter().map(|n| n.to_string()).collect()
}

fn ledger(
    accounts: &[&str],
    account_types: &[(AccountType, &[&str])],
    account_sums: &[(&str, &[&str])],
    groupings: Vec<RealGrouping>,
) -> RealBookkeeping {
    RealBookkeeping {
        name: "test-run".to_string(),
        accounts: names(accounts),
        account_types: account_types
            .iter()
            .map(|(ty, members)| (*ty, names(members)))
            .collect(),
        account_sums: account_sums
            .iter()
            .map(|(name, members)| (name.to_string(), names(members)))
            .collect(),
        groupings,
    }
}

fn expect_ok(r: Result<SummedBookkeeping, LedgerError>) -> SummedBookkeeping {
    match r {
        Ok(s) => s,
        Err(_) => panic!("expected the ledger to be accepted"),
    }
}

#[test]
fn one_period_one_transaction() {
    let data = ledger(
        &["money", "income"],
        &[
            (AccountType::Asset, &["money"]),
            (AccountType::Income, &["income"]),
        ],
        &[],
        vec![RealGrouping {
            name: "Jan".to_string(),
            transactions: vec![tx("salary", 1, 0, &[("money", 100), ("income", -100)])],
        }],
    );
    let s = expect_ok(calculate(&data));
    assert!(s.name == "test-run");
    assert!(s.total.account_types.len() == 2);
    let (ty, total, members) = &s.total.account_types[0];
    assert!(*ty == AccountType::Asset);
    assert!(*total == amt(100));
    assert!(members.len() == 1);
    assert!(members[0].name == "money");
    assert!(members[0].sum == amt(100));
    let (ty, total, members) = &s.total.account_types[1];
    assert!(*ty == AccountType::Income);
    assert!(*total == amt(-100));
    assert!(members.len() == 1);
    assert!(members[0].name == "income");
    assert!(members[0].sum == amt(-100));
}

#[test]
fn category_total_and_local_scope() {
    let data = ledger(
        &["money", "income", "groceries"],
        &[
            (AccountType::Asset, &["money"]),
            (AccountType::Income, &["income"]),
            (AccountType::Expense, &["groceries"]),
        ],
        &[("spending", &["groceries"])],
        vec![RealGrouping {
            name: "June".to_string(),
            transactions: vec![
                tx("salary", 1, 0, &[("money", 200), ("income", -200)]),
                tx("shop", 2, 1, &[("money", -50), ("groceries", 50)]),
            ],
        }],
    );
    let s = expect_ok(calculate(&data));
    // period-local money total
    assert!(s.groupings.len() == 1);
    assert!(s.groupings[0].0 == "June");
    let local = &s.groupings[0].1;
    let (ty, total, members) = &local.account_types[0];
    assert!(*ty == AccountType::Asset);
    assert!(*total == amt(150));
    assert!(members[0].name == "money");
    assert!(members[0].sum == amt(150));
    // global money total
    let (_, total, members) = &s.total.account_types[0];
    assert!(*total == amt(150));
    assert!(members[0].sum == amt(150));
    // named category
    assert!(s.total.account_sums.len() == 1);
    let (name, total, members) = &s.total.account_sums[0];
    assert!(name == "spending");
    assert!(*total == amt(50));
    assert!(members.len() == 1);
    assert!(members[0].name == "groceries");
}

#[test]
fn unbalanced_transaction_rejected() {
    let data = ledger(
        &["money", "income"],
        &[
            (AccountType::Asset, &["money"]),
            (AccountType::Income, &["income"]),
        ],
        &[],
        vec![RealGrouping {
            name: "Jan".to_string(),
            transactions: vec![tx("broken", 1, 0, &[("money", 5), ("income", 0)])],
        }],
    );
    match calculate(&data) {
        Err(LedgerError::UnbalancedTransaction {
            transaction,
            computed_sum,
        }) => {
            assert!(transaction == "broken");
            assert!(computed_sum == amt(5));
        }
        _ => panic!("expected an unbalanced-transaction error"),
    }
}

#[test]
fn undeclared_account_rejected() {
    let data = ledger(
        &["money", "income"],
        &[
            (AccountType::Asset, &["money"]),
            (AccountType::Income, &["income"]),
        ],
        &[],
        vec![RealGrouping {
            name: "Jan".to_string(),
            transactions: vec![tx("oops", 1, 0, &[("money", 7), ("unknown_acct", -7)])],
        }],
    );
    match calculate(&data) {
        Err(LedgerError::UndeclaredAccount {
            transaction,
            account,
        }) => {
            assert!(transaction == "oops");
            assert!(account == "unknown_acct");
        }
        _ => panic!("expected an undeclared-account error"),
    }
}

#[test]
fn period_order_is_declaration_order() {
    let periods: Vec<RealGrouping> = ["first", "second", "third"]
        .iter()
        .map(|name| RealGrouping {
            name: name.to_string(),
            transactions: vec![tx("move", 1, 0, &[("money", 1), ("income", -1)])],
        })
        .collect();
    let data = ledger(
        &["money", "income"],
        &[
            (AccountType::Asset, &["money"]),
            (AccountType::Income, &["income"]),
        ],
        &[],
        periods,
    );
    let s = expect_ok(calculate(&data));
    assert!(s.groupings.len() == 3);
    assert!(s.groupings[0].0 == "first");
    assert!(s.groupings[1].0 == "second");
    assert!(s.groupings[2].0 == "third");
    // and the global total saw all three periods
    let (_, total, _) = &s.total.account_types[0];
    assert!(*total == amt(3));
}

#[test]
fn inactive_member_contributes_zero_and_is_omitted() {
    let data = ledger(
        &["money", "income", "unused"],
        &[
            (AccountType::Asset, &["money", "unused"]),
            (AccountType::Income, &["income"]),
        ],
        &[("cash", &["money", "unused"])],
        vec![RealGrouping {
            name: "Jan".to_string(),
            transactions: vec![tx("salary", 1, 0, &[("money", 40), ("income", -40)])],
        }],
    );
    let s = expect_ok(calculate(&data));
    let (name, total, members) = &s.total.account_sums[0];
    assert!(name == "cash");
    assert!(*total == amt(40));
    assert!(members.len() == 1);
    assert!(members[0].name == "money");
    let (_, total, members) = &s.total.account_types[0];
    assert!(*total == amt(40));
    assert!(members.len() == 1);
    assert!(members[0].name == "money");
}

#[test]
fn duplicate_transfer_rejected() {
    // two transactions sharing the same upstream index realize identical
    // transfers, which the accumulator must refuse
    let data = ledger(
        &["money", "income"],
        &[
            (AccountType::Asset, &["money"]),
            (AccountType::Income, &["income"]),
        ],
        &[],
        vec![RealGrouping {
            name: "Jan".to_string(),
            transactions: vec![
                tx("same", 1, 0, &[("money", 10), ("income", -10)]),
                tx("same", 1, 0, &[("money", 10), ("income", -10)]),
            ],
        }],
    );
    match calculate(&data) {
        Err(LedgerError::DuplicateTransfer { transaction }) => {
            assert!(transaction == "same");
        }
        _ => panic!("expected a duplicate-transfer error"),
    }
}

#[test]
fn duplicate_period_name_rejected() {
    let data = ledger(
        &["money", "income"],
        &[
            (AccountType::Asset, &["money"]),
            (AccountType::Income, &["income"]),
        ],
        &[],
        vec![
            RealGrouping {
                name: "Jan".to_string(),
                transactions: vec![],
            },
            RealGrouping {
                name: "Jan".to_string(),
                transactions: vec![],
            },
        ],
    );
    match calculate(&data) {
        Err(LedgerError::DuplicatePeriodName { name }) => {
            assert!(name == "Jan");
        }
        _ => panic!("expected a duplicate-period-name error"),
    }
}

#[test]
fn transfers_are_ordered_by_date_name_amount() {
    let data = ledger(
        &["money", "income"],
        &[
            (AccountType::Asset, &["money"]),
            (AccountType::Income, &["income"]),
        ],
        &[],
        vec![RealGrouping {
            name: "Jan".to_string(),
            transactions: vec![
                tx("later", 20, 0, &[("money", 3), ("income", -3)]),
                tx("earlier", 5, 1, &[("money", 2), ("income", -2)]),
                tx("middle", 10, 2, &[("money", 1), ("income", -1)]),
            ],
        }],
    );
    let s = expect_ok(calculate(&data));
    let (_, _, members) = &s.total.account_types[0];
    let transfers = &members[0].transfers;
    assert!(transfers.len() == 3);
    assert!(transfers[0].name == "earlier");
    assert!(transfers[0].date.day == 5);
    assert!(transfers[1].name == "middle");
    assert!(transfers[1].date.day == 10);
    assert!(transfers[2].name == "later");
    assert!(transfers[2].date.day == 20);
    // the sibling legs travel with each transfer for the audit trail
    assert!(transfers[0].related.len() == 2);
    assert!(transfers[0].related[0].0 == "money");
    assert!(transfers[0].related[1].0 == "income");
    assert!(transfers[0].id.period == "Jan");
    assert!(transfers[0].id.transaction == 1);
    assert!(transfers[0].id.leg == 0);
}

#[test]
fn overlapping_categories_both_counted() {
    let data = ledger(
        &["money", "income", "groceries"],
        &[
            (AccountType::Asset, &["money"]),
            (AccountType::Income, &["income"]),
            (AccountType::Expense, &["groceries"]),
        ],
        &[
            ("all", &["money", "groceries"]),
            ("spending", &["groceries"]),
        ],
        vec![RealGrouping {
            name: "Jan".to_string(),
            transactions: vec![
                tx("salary", 1, 0, &[("money", 90), ("income", -90)]),
                tx("shop", 2, 1, &[("money", -30), ("groceries", 30)]),
            ],
        }],
    );
    let s = expect_ok(calculate(&data));
    assert!(s.total.account_sums.len() == 2);
    let (name, total, members) = &s.total.account_sums[0];
    assert!(name == "all");
    assert!(*total == amt(90));
    assert!(members.len() == 2);
    let (name, total, _) = &s.total.account_sums[1];
    assert!(name == "spending");
    assert!(*total == amt(30));
}

#[test]
fn global_total_adds_the_period_totals() {
    let data = ledger(
        &["money", "income"],
        &[
            (AccountType::Asset, &["money"]),
            (AccountType::Income, &["income"]),
        ],
        &[],
        vec![
            RealGrouping {
                name: "G1".to_string(),
                transactions: vec![tx("a", 1, 0, &[("money", 70), ("income", -70)])],
            },
            RealGrouping {
                name: "G2".to_string(),
                transactions: vec![tx("b", 2, 0, &[("money", -20), ("income", 20)])],
            },
        ],
    );
    let s = expect_ok(calculate(&data));
    let local = |g: usize| -> Amount {
        let (_, _, members) = &s.groupings[g].1.account_types[0];
        members[0].sum
    };
    let (_, _, members) = &s.total.account_types[0];
    assert!(members[0].sum == local(0).plus(local(1)));
    assert!(members[0].sum == amt(50));
}

#[test]
fn empty_ledger_gives_empty_summary() {
    let data = ledger(&[], &[], &[], vec![]);
    let s = expect_ok(calculate(&data));
    assert!(s.total.account_types.is_empty());
    assert!(s.total.account_sums.is_empty());
    assert!(s.groupings.is_empty());
}
