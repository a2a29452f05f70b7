use casa::account::Account;
use casa::amount::Amount;
use casa::currency::Currency;
use casa::date::Date;
use casa::error::{LedgerError, ParseFailure};
use casa::ledger::Ledger;

fn pln_and_eur() -> Ledger {
    let mut ledger = Ledger::new();
    ledger
        .add_account(Account { id: 1, name: "A".to_string(), currency: Currency::PLN, display_order: 1 })
        .unwrap();
    ledger
        .add_account(Account { id: 2, name: "B".to_string(), currency: Currency::EUR, display_order: 2 })
        .unwrap();
    ledger
}

fn units(whole: i64) -> Amount {
    Amount::from_minor(whole * 100).unwrap()
}

#[test]
fn own_transfer_posts_two_linked_postings() {
    let mut ledger = pln_and_eur();
    let date = Date::new(2024, 1, 1).unwrap();
    assert_eq!(ledger.transfer(1, 2, units(100), units(20), date), Ok(()));
    let rows = ledger.rows();
    assert_eq!(rows.len(), 2);
    assert_eq!(rows[0].account_id, 1);
    assert_eq!(rows[0].value.minor(), 10_000);
    assert_eq!(rows[0].currency, Currency::PLN);
    assert_eq!(rows[1].account_id, 2);
    assert_eq!(rows[1].value.minor(), -2_000);
    assert_eq!(rows[1].currency, Currency::EUR);
    assert_eq!(rows[0].name, rows[1].name);
    assert_eq!(rows[0].date, date);
    assert_eq!(rows[1].date, date);
}

#[test]
fn transfer_description_names_both_accounts() {
    let mut ledger = pln_and_eur();
    ledger.transfer(1, 2, units(100), units(20), Date::new(2024, 1, 1).unwrap()).unwrap();
    assert_eq!(ledger.rows()[0].name, "Przelew własny: [PLN] A (#1) -> [EUR] B (#2)");
}

#[test]
fn transfer_description_writes_negative_ids() {
    let mut ledger = Ledger::new();
    ledger
        .add_account(Account { id: -7, name: "Stare".to_string(), currency: Currency::USD, display_order: 0 })
        .unwrap();
    ledger
        .add_account(Account {
            id: i64::MIN,
            name: "Dno".to_string(),
            currency: Currency::GBP,
            display_order: 0,
        })
        .unwrap();
    let (debit, credit) =
        ledger.plan_transfer(-7, i64::MIN, units(1), units(1), Date::new(2024, 1, 1).unwrap()).unwrap();
    assert_eq!(debit.name, "Przelew własny: [USD] Stare (#-7) -> [GBP] Dno (#-9223372036854775808)");
    assert_eq!(credit.name, debit.name);
}

#[test]
fn transfer_changes_both_balances() {
    let mut ledger = pln_and_eur();
    ledger.transfer(1, 2, units(100), units(20), Date::new(2024, 1, 1).unwrap()).unwrap();
    assert_eq!(ledger.balance(), vec![(Currency::PLN, -100), (Currency::EUR, 20)]);
    assert_eq!(
        ledger.balance_per_account(),
        vec![("[PLN] A".to_string(), -100), ("[EUR] B".to_string(), 20)]
    );
}

#[test]
fn unknown_account_stops_the_transfer_before_any_write() {
    let date = Date::new(2024, 1, 1).unwrap();
    let mut ledger = pln_and_eur();
    assert_eq!(ledger.transfer(1, 3, units(100), units(20), date), Err(LedgerError::NotFound(3)));
    assert!(ledger.rows().is_empty());
    assert_eq!(ledger.transfer(4, 2, units(100), units(20), date), Err(LedgerError::NotFound(4)));
    assert!(ledger.rows().is_empty());
    assert_eq!(ledger.transfer(5, 6, units(100), units(20), date), Err(LedgerError::NotFound(5)));
    assert!(ledger.rows().is_empty());
    assert!(ledger.list().is_empty());
}

#[test]
fn planned_transfer_stores_nothing() {
    let ledger = pln_and_eur();
    let date = Date::new(2024, 1, 1).unwrap();
    let (debit, credit) = ledger.plan_transfer(1, 2, units(100), units(20), date).unwrap();
    assert_eq!(debit.account_id, 1);
    assert_eq!(debit.value.minor(), 10_000);
    assert_eq!(credit.account_id, 2);
    assert_eq!(credit.value.minor(), -2_000);
    assert_eq!(debit.date, credit.date);
    assert!(ledger.rows().is_empty());
    assert_eq!(ledger.plan_transfer(9, 2, units(1), units(1), date), Err(LedgerError::NotFound(9)));
}

#[test]
fn transfer_within_one_account_posts_both_legs() {
    let mut ledger = pln_and_eur();
    ledger.transfer(1, 1, units(5), units(5), Date::new(2024, 1, 1).unwrap()).unwrap();
    assert_eq!(ledger.rows().len(), 2);
    assert_eq!(ledger.balance(), vec![(Currency::PLN, 0)]);
}

#[test]
fn entered_transfer_is_read_and_posted() {
    let mut ledger = pln_and_eur();
    assert_eq!(ledger.add_own_transfer(1, 2, "100", "21,50", "2024-01-01"), Ok(()));
    let rows = ledger.rows();
    assert_eq!(rows[0].value.minor(), 10_000);
    assert_eq!(rows[1].value.minor(), -2_150);
    assert_eq!(rows[1].date, Date::new(2024, 1, 1).unwrap());
}

#[test]
fn malformed_transfer_stores_nothing() {
    let mut ledger = pln_and_eur();
    assert_eq!(
        ledger.add_own_transfer(1, 2, "sto", "20", "2024-01-01"),
        Err(LedgerError::Parse(ParseFailure::Amount))
    );
    assert_eq!(
        ledger.add_own_transfer(1, 2, "100", "", "2024-01-01"),
        Err(LedgerError::Parse(ParseFailure::Amount))
    );
    assert_eq!(
        ledger.add_own_transfer(1, 2, "100", "20", "2024-02-30"),
        Err(LedgerError::Parse(ParseFailure::Date))
    );
    assert_eq!(ledger.add_own_transfer(1, 9, "100", "20", "2024-01-01"), Err(LedgerError::NotFound(9)));
    assert_eq!(
        ledger.add_own_transfer(8, 9, "100", "20", "nigdy"),
        Err(LedgerError::Parse(ParseFailure::Date))
    );
    assert!(ledger.rows().is_empty());
}
