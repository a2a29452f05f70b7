use casa::account::Account;
use casa::amount::{Amount, Rate};
use casa::currency::Currency;
use casa::date::Date;
use casa::expense::Expense;
use casa::grouping::{group_by_month, MonthGroup};
use casa::ledger::Ledger;
use casa::month::SpecificMonth;
use casa::rates::{fallback_rate, RateTable};
use casa::report::{balance, balance_per_account, floor_div, reference_total};

fn row(seq: usize, name: &str, minor: i64, date: (i32, u32, u32), account_id: i64, currency: Currency) -> Expense {
    Expense {
        seq,
        name: name.to_string(),
        value: Amount::from_minor(minor).unwrap(),
        date: Date::new(date.0, date.1, date.2).unwrap(),
        account_id,
        currency,
    }
}

fn owner(id: i64, name: &str, currency: Currency) -> Account {
    Account { id, name: name.to_string(), currency, display_order: id }
}

#[test]
fn division_rounds_down() {
    assert_eq!(floor_div(25, 100), 0);
    assert_eq!(floor_div(-25, 100), -1);
    assert_eq!(floor_div(-100, 100), -1);
    assert_eq!(floor_div(-101, 100), -2);
    assert_eq!(floor_div(199, 100), 1);
    assert_eq!(floor_div(0, 100), 0);
    assert_eq!(floor_div(-1, 1_000_000), -1);
    assert_eq!(floor_div(i128::MAX, 1), i128::MAX);
    assert_eq!(floor_div(i128::MIN + 1, i128::MAX), -1);
}

#[test]
fn balance_is_the_negated_sum_rounded_down() {
    let rows = vec![
        row(0, "a", 150, (2024, 1, 1), 1, Currency::PLN),
        row(1, "b", -1000, (2024, 1, 2), 2, Currency::EUR),
        row(2, "c", 1, (2024, 1, 3), 2, Currency::EUR),
    ];
    assert_eq!(balance(&rows), vec![(Currency::PLN, -2), (Currency::EUR, 9)]);
}

#[test]
fn balance_lists_only_currencies_with_postings() {
    let rows = vec![
        row(0, "a", -50, (2024, 1, 1), 4, Currency::GBP),
        row(1, "b", 50, (2024, 1, 1), 4, Currency::GBP),
        row(2, "c", -199, (2024, 1, 1), 3, Currency::USD),
    ];
    assert_eq!(balance(&rows), vec![(Currency::USD, 1), (Currency::GBP, 0)]);
    assert_eq!(balance(&Vec::new()), vec![]);
}

#[test]
fn balance_per_account_goes_by_label() {
    let rows = vec![
        row(0, "a", 150, (2024, 1, 1), 1, Currency::PLN),
        row(1, "b", -1000, (2024, 1, 2), 2, Currency::PLN),
        row(2, "c", 1, (2024, 1, 3), 2, Currency::PLN),
    ];
    let accounts = vec![
        owner(1, "Portfel", Currency::PLN),
        owner(2, "Konto", Currency::PLN),
        owner(3, "Puste", Currency::EUR),
    ];
    assert_eq!(
        balance_per_account(&rows, &accounts),
        vec![("[PLN] Portfel".to_string(), -2), ("[PLN] Konto".to_string(), 9)]
    );
}

#[test]
fn account_balances_add_up_to_the_currency_balance_on_whole_units() {
    let mut ledger = Ledger::new();
    ledger.add_account(owner(1, "A", Currency::PLN)).unwrap();
    ledger.add_account(owner(2, "B", Currency::PLN)).unwrap();
    ledger.add_account(owner(3, "C", Currency::EUR)).unwrap();
    let date = Date::new(2024, 1, 1).unwrap();
    ledger.add("a".to_string(), Amount::from_minor(-10_000).unwrap(), date, 1);
    ledger.add("b".to_string(), Amount::from_minor(2_500).unwrap(), date, 1);
    ledger.add("c".to_string(), Amount::from_minor(-300).unwrap(), date, 2);
    ledger.add("d".to_string(), Amount::from_minor(700).unwrap(), date, 3);
    assert_eq!(ledger.balance(), vec![(Currency::PLN, 78), (Currency::EUR, -7)]);
    assert_eq!(
        ledger.balance_per_account(),
        vec![("[PLN] A".to_string(), 75), ("[PLN] B".to_string(), 3), ("[EUR] C".to_string(), -7)]
    );
}

#[test]
fn account_balances_fall_short_by_the_cut_off_hundredths() {
    let mut ledger = Ledger::new();
    ledger.add_account(owner(1, "A", Currency::PLN)).unwrap();
    ledger.add_account(owner(2, "B", Currency::PLN)).unwrap();
    let date = Date::new(2024, 1, 1).unwrap();
    ledger.add("a".to_string(), Amount::from_minor(-50).unwrap(), date, 1);
    ledger.add("b".to_string(), Amount::from_minor(-50).unwrap(), date, 2);
    assert_eq!(ledger.balance(), vec![(Currency::PLN, 1)]);
    assert_eq!(
        ledger.balance_per_account(),
        vec![("[PLN] A".to_string(), 0), ("[PLN] B".to_string(), 0)]
    );
}

#[test]
fn reference_total_converts_and_rounds_down() {
    let rows = vec![
        row(0, "a", 10_000, (2024, 1, 1), 1, Currency::PLN),
        row(1, "b", -5_000, (2024, 1, 1), 2, Currency::EUR),
    ];
    let mut rates = RateTable::new();
    rates.set(Currency::PLN, Rate::from_scaled(2_500).unwrap());
    rates.set(Currency::EUR, Rate::from_scaled(10_000).unwrap());
    let report = reference_total(&rows, &rates);
    assert_eq!(report.total, 25);
    assert!(report.fallbacks.is_empty());
}

#[test]
fn reference_total_names_the_currencies_without_a_rate() {
    let rows = vec![
        row(0, "a", 10_000, (2024, 1, 1), 1, Currency::GBP),
        row(1, "b", 10_000, (2024, 1, 1), 2, Currency::PLN),
        row(2, "c", 1, (2024, 1, 1), 3, Currency::EUR),
    ];
    let mut rates = RateTable::new();
    rates.set(Currency::EUR, Rate::from_scaled(10_000).unwrap());
    let report = reference_total(&rows, &rates);
    // -(100 * 1.18 + 100 * 0.23 + 0.01) = -141.01, rounded down
    assert_eq!(report.total, -142);
    assert_eq!(report.fallbacks, vec![Currency::PLN, Currency::GBP]);
    assert_eq!(fallback_rate(Currency::GBP).scaled(), 11_800);
}

#[test]
fn reference_total_of_a_ledger_uses_its_rates() {
    let mut ledger = Ledger::new();
    ledger.add_account(owner(1, "A", Currency::PLN)).unwrap();
    ledger.add_account(owner(2, "B", Currency::EUR)).unwrap();
    let date = Date::new(2024, 1, 1).unwrap();
    ledger.add("a".to_string(), Amount::from_minor(10_000).unwrap(), date, 1);
    ledger.add("b".to_string(), Amount::from_minor(-5_000).unwrap(), date, 2);
    let report = ledger.reference_total();
    assert_eq!(report.total, 27);
    assert_eq!(report.fallbacks, vec![Currency::PLN, Currency::EUR]);
    ledger.set_exchange_rate(Currency::PLN, Rate::from_scaled(2_500).unwrap());
    ledger.set_exchange_rate(Currency::EUR, Rate::from_scaled(10_000).unwrap());
    let report = ledger.reference_total();
    assert_eq!(report.total, 25);
    assert!(report.fallbacks.is_empty());
}

#[test]
fn rate_table_keeps_the_last_rate() {
    let mut rates = RateTable::new();
    assert_eq!(rates.stored(Currency::USD), None);
    rates.set(Currency::USD, Rate::from_scaled(9_000).unwrap());
    rates.set(Currency::USD, Rate::from_scaled(9_100).unwrap());
    assert_eq!(rates.stored(Currency::USD).unwrap().scaled(), 9_100);
    assert_eq!(rates.stored(Currency::PLN), None);
    assert!(!rates.lookup(Currency::USD).fallback);
    assert!(rates.lookup(Currency::PLN).fallback);
    assert_eq!(rates.lookup(Currency::PLN).rate.scaled(), 2_300);
}

#[test]
fn expense_is_shown_with_the_sign_of_its_currency() {
    assert_eq!(row(0, "Chleb", 450, (2024, 1, 1), 1, Currency::PLN).to_string(), "Chleb (4.5 zł)");
    assert_eq!(row(0, "Zwrot", -450, (2024, 1, 1), 1, Currency::PLN).to_string(), "Zwrot (+4.5 zł)");
    assert_eq!(row(0, "Kawa", 2137, (2024, 1, 1), 1, Currency::EUR).to_string(), "Kawa (€21.37)");
    assert_eq!(row(0, "Pensja", -100_000, (2024, 1, 1), 1, Currency::EUR).to_string(), "Pensja (+€1000)");
    assert_eq!(row(0, "Book", 1, (2024, 1, 1), 1, Currency::USD).to_string(), "Book ($0.01)");
    assert_eq!(row(0, "Gift", -1, (2024, 1, 1), 1, Currency::USD).to_string(), "Gift (+$0.01)");
    assert_eq!(row(0, "Tea", 300, (2024, 1, 1), 1, Currency::GBP).to_string(), "Tea (£3)");
    assert_eq!(row(0, "", -300, (2024, 1, 1), 1, Currency::GBP).to_string(), " (+£3)");
    assert_eq!(row(0, "Nic", 0, (2024, 1, 1), 1, Currency::PLN).to_string(), "Nic (0 zł)");
}

fn names_by_month(groups: &[MonthGroup]) -> Vec<(SpecificMonth, Vec<String>)> {
    groups
        .iter()
        .map(|group| (group.month, group.expenses.iter().map(|e| e.name.clone()).collect()))
        .collect()
}

#[test]
fn groups_come_newest_month_first() {
    let rows = vec![
        row(4, "e", 1, (2024, 3, 9), 1, Currency::PLN),
        row(1, "b", 1, (2024, 3, 1), 1, Currency::EUR),
        row(3, "d", 1, (2024, 1, 10), 1, Currency::PLN),
        row(0, "a", 1, (2024, 1, 10), 1, Currency::PLN),
        row(2, "c", 1, (2023, 12, 31), 1, Currency::PLN),
    ];
    let groups = group_by_month(rows);
    assert_eq!(
        names_by_month(&groups),
        vec![
            (SpecificMonth { year: 2024, month: 3 }, vec!["e".to_string(), "b".to_string()]),
            (SpecificMonth { year: 2024, month: 1 }, vec!["d".to_string(), "a".to_string()]),
            (SpecificMonth { year: 2023, month: 12 }, vec!["c".to_string()]),
        ]
    );
}

#[test]
fn groups_are_sorted_whatever_the_order_of_the_postings() {
    let rows = vec![
        row(0, "a", 1, (2023, 12, 31), 1, Currency::PLN),
        row(1, "b", 1, (2024, 3, 1), 1, Currency::PLN),
        row(2, "c", 1, (2024, 1, 10), 1, Currency::PLN),
        row(3, "d", 1, (2024, 3, 2), 1, Currency::PLN),
        row(4, "e", 1, (2023, 12, 1), 1, Currency::PLN),
        row(5, "f", 1, (2022, 12, 1), 1, Currency::PLN),
    ];
    let groups = group_by_month(rows);
    assert_eq!(
        names_by_month(&groups),
        vec![
            (SpecificMonth { year: 2024, month: 3 }, vec!["b".to_string(), "d".to_string()]),
            (SpecificMonth { year: 2024, month: 1 }, vec!["c".to_string()]),
            (SpecificMonth { year: 2023, month: 12 }, vec!["a".to_string(), "e".to_string()]),
            (SpecificMonth { year: 2022, month: 12 }, vec!["f".to_string()]),
        ]
    );
}

#[test]
fn every_posting_lands_in_one_group() {
    let mut ledger = Ledger::new();
    ledger.add_account(owner(1, "A", Currency::PLN)).unwrap();
    for (at, date) in [(2024, 1, 5), (2024, 2, 5), (2024, 1, 6), (2023, 1, 5), (2024, 2, 5)].iter().enumerate() {
        let date = Date::new(date.0, date.1, date.2).unwrap();
        ledger.add(format!("wpis {at}"), Amount::from_minor(100).unwrap(), date, 1);
    }
    let groups = group_by_month(ledger.list());
    let total: usize = groups.iter().map(|group| group.expenses.len()).sum();
    assert_eq!(total, 5);
    assert_eq!(
        names_by_month(&groups),
        vec![
            (SpecificMonth { year: 2024, month: 2 }, vec!["wpis 4".to_string(), "wpis 1".to_string()]),
            (SpecificMonth { year: 2024, month: 1 }, vec!["wpis 2".to_string(), "wpis 0".to_string()]),
            (SpecificMonth { year: 2023, month: 1 }, vec!["wpis 3".to_string()]),
        ]
    );
}

#[test]
fn grouping_again_changes_nothing() {
    let rows = vec![
        row(0, "a", 1, (2023, 12, 31), 1, Currency::PLN),
        row(1, "b", 1, (2024, 3, 1), 1, Currency::PLN),
        row(2, "c", 1, (2024, 1, 10), 1, Currency::PLN),
        row(3, "d", 1, (2024, 3, 2), 1, Currency::PLN),
    ];
    let once = group_by_month(rows);
    let flat: Vec<Expense> = once.iter().flat_map(|group| group.expenses.iter().cloned()).collect();
    let twice = group_by_month(flat);
    assert_eq!(once, twice);
}

#[test]
fn nothing_groups_to_nothing() {
    assert!(group_by_month(Vec::new()).is_empty());
}
