use std::cmp::Ordering;

use bookkeeping::amount::{Amount, UNIT};
use bookkeeping::calculate::calculate;
use bookkeeping::date::Date;
use bookkeeping::file_io::{DummyFileIO, FakeFileIO, FileIO};
use bookkeeping::ledger::{
    first_duplicate_period_name, realize_accounts, AccountType, RealBookkeeping, RealGrouping,
    RealTransaction,
};
use bookkeeping::order::str_compare;
use bookkeeping::summary::{GroupingSummary, Summary};

#[test]
fn amount_arithmetic_is_exact() {
    let a = Amount::from_whole(2);
    let b = Amount::from_units(-UNIT / 2);
    assert!(a.plus(b) == Amount::from_units(3 * UNIT / 2));
    assert!(Amount::zero().is_zero());
    assert!(!a.is_zero());
    assert!(a.plus(Amount::from_whole(-2)).is_zero());
    assert!(a.compare(&b) == Ordering::Greater);
    assert!(b.compare(&a) == Ordering::Less);
    assert!(a.compare(&Amount::from_units(2 * UNIT)) == Ordering::Equal);
}

#[test]
fn date_order_is_chronological() {
    let early = Date::new(2022, 12, 31);
    let later = Date::new(2023, 1, 1);
    assert!(early.compare(&later) == Ordering::Less);
    assert!(later.compare(&early) == Ordering::Greater);
    assert!(early.compare(&Date::new(2022, 12, 31)) == Ordering::Equal);
    assert!(Date::new(2023, 3, 9).compare(&Date::new(2023, 3, 10)) == Ordering::Less);
}

#[test]
fn string_order_is_lexicographic() {
    assert!(str_compare("abc", "abd") == Ordering::Less);
    assert!(str_compare("ab", "abc") == Ordering::Less);
    assert!(str_compare("b", "abc") == Ordering::Greater);
    assert!(str_compare("same", "same") == Ordering::Equal);
    assert!(str_compare("", "a") == Ordering::Less);
}

#[test]
fn fake_file_io_serves_its_fixture() {
    let mut io = FakeFileIO::new();
    let text = io.read_path("grouping.yaml").expect("fixture must exist");
    assert!(text.contains("file-transaction"));
    assert!(io.read_path("missing.yaml").is_none());
}

#[test]
fn dummy_file_io_holds_nothing() {
    let mut io = DummyFileIO {};
    assert!(io.read_path("anything").is_none());
}

#[test]
fn realize_accounts_flattens_in_order() {
    let table = vec![
        (AccountType::Asset, vec!["money".to_string(), "car".to_string()]),
        (AccountType::Income, vec!["salary".to_string()]),
    ];
    let flat = realize_accounts(&table);
    assert!(flat == vec!["money".to_string(), "car".to_string(), "salary".to_string()]);
}

#[test]
fn first_duplicate_period_name_finds_the_repeat() {
    let periods = vec![
        RealGrouping { name: "a".to_string(), transactions: vec![] },
        RealGrouping { name: "b".to_string(), transactions: vec![] },
        RealGrouping { name: "a".to_string(), transactions: vec![] },
    ];
    assert!(first_duplicate_period_name(&periods) == Some("a".to_string()));
    let unique = vec![RealGrouping { name: "a".to_string(), transactions: vec![] }];
    assert!(first_duplicate_period_name(&unique).is_none());
}

fn carryover_ledger() -> RealBookkeeping {
    RealBookkeeping {
        name: "year".to_string(),
        accounts: vec!["opening".to_string(), "money".to_string()],
        account_types: vec![
            (AccountType::YearlyResult, vec!["opening".to_string()]),
            (AccountType::Asset, vec!["money".to_string()]),
        ],
        account_sums: vec![],
        groupings: vec![RealGrouping {
            name: "start".to_string(),
            transactions: vec![RealTransaction {
                name: "carry".to_string(),
                date: Date::new(2023, 1, 1),
                index: 0,
                transfers: vec![
                    ("opening".to_string(), Amount::from_whole(-500)),
                    ("money".to_string(), Amount::from_whole(500)),
                ],
                comments: Vec::new(),
            }],
        }],
    }
}

#[test]
fn summary_hides_carryover_rows_in_periods_only() {
    let result = calculate(&carryover_ledger()).ok().expect("accepted");
    let summary = Summary::create(&result);
    // the run-wide total shows the carryover dimension
    assert!(summary.total.account_types.len() == 2);
    assert!(summary.total.account_types[0].0 == AccountType::YearlyResult);
    assert!(summary.total.account_types[0].1.total == Amount::from_whole(-500));
    // a period's summary hides it
    assert!(summary.groupings.len() == 1);
    assert!(summary.groupings[0].0 == "start");
    let period = &summary.groupings[0].1;
    assert!(period.account_types.len() == 1);
    assert!(period.account_types[0].0 == AccountType::Asset);
    assert!(period.account_types[0].1.total == Amount::from_whole(500));
    assert!(period.account_types[0].1.accounts.len() == 1);
    assert!(period.account_types[0].1.accounts[0].0 == "money");
    assert!(period.account_types[0].1.accounts[0].1 == Amount::from_whole(500));
}

#[test]
fn grouping_summary_keeps_declared_order() {
    let result = calculate(&carryover_ledger()).ok().expect("accepted");
    let flattened = GroupingSummary::create(&result.total, true);
    assert!(flattened.account_types.len() == 2);
    assert!(flattened.account_types[0].0 == AccountType::YearlyResult);
    assert!(flattened.account_types[1].0 == AccountType::Asset);
    assert!(flattened.account_sums.is_empty());
}
