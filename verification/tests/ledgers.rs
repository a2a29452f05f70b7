use casa::account::Account;
use casa::amount::{Amount, Rate};
use casa::currency::Currency;
use casa::date::Date;
use casa::error::{LedgerError, ParseFailure};
use casa::expense::Transaction;
use casa::ledger::Ledger;

fn account(id: i64, name: &str, currency: Currency, display_order: i64) -> Account {
    Account { id, name: name.to_string(), currency, display_order }
}

fn amount(minor: i64) -> Amount {
    Amount::from_minor(minor).unwrap()
}

fn day(year: i32, month: u32, day: u32) -> Date {
    Date::new(year, month, day).unwrap()
}

fn two_accounts() -> Ledger {
    let mut ledger = Ledger::new();
    ledger.add_account(account(1, "Portfel", Currency::PLN, 10)).unwrap();
    ledger.add_account(account(2, "Revolut", Currency::EUR, 20)).unwrap();
    ledger
}

#[test]
fn new_ledger_is_empty() {
    let ledger = Ledger::new();
    assert!(ledger.list_accounts().is_empty());
    assert!(ledger.list().is_empty());
    assert!(ledger.rows().is_empty());
    assert!(ledger.balance().is_empty());
    assert!(ledger.balance_per_account().is_empty());
    assert_eq!(ledger.reference_total().total, 0);
}

#[test]
fn notepad_of_an_empty_store_is_empty() {
    let ledger = Ledger::new();
    assert_eq!(ledger.get_notepad(), "");
}

#[test]
fn notepad_is_what_was_stored_last() {
    let mut ledger = Ledger::new();
    ledger.set_notepad("kupić mleko".to_string());
    assert_eq!(ledger.get_notepad(), "kupić mleko");
    ledger.set_notepad(String::new());
    assert_eq!(ledger.get_notepad(), "");
}

#[test]
fn accounts_are_listed_by_display_order() {
    let mut ledger = Ledger::new();
    assert_eq!(ledger.add_account(account(7, "c", Currency::USD, 30)), Ok(0));
    assert_eq!(ledger.add_account(account(3, "a", Currency::PLN, 10)), Ok(0));
    assert_eq!(ledger.add_account(account(9, "d", Currency::GBP, 30)), Ok(2));
    assert_eq!(ledger.add_account(account(5, "b", Currency::EUR, 20)), Ok(1));
    assert_eq!(ledger.add_account(account(8, "e", Currency::EUR, 30)), Ok(3));
    let ids: Vec<i64> = ledger.list_accounts().iter().map(|a| a.id).collect();
    assert_eq!(ids, vec![3, 5, 7, 8, 9]);
    let names: Vec<String> = ledger.list_accounts().into_iter().map(|a| a.name).collect();
    assert_eq!(names, vec!["a", "b", "c", "e", "d"]);
}

#[test]
fn account_is_found_by_id() {
    let ledger = two_accounts();
    assert_eq!(ledger.account(2), Some(account(2, "Revolut", Currency::EUR, 20)));
    assert_eq!(ledger.account(1).unwrap().name, "Portfel");
    assert_eq!(ledger.account(3), None);
}

#[test]
fn taken_account_id_is_refused() {
    let mut ledger = two_accounts();
    let again = ledger.add_account(account(1, "Inny", Currency::USD, 0));
    assert_eq!(again, Err(LedgerError::Storage));
    assert_eq!(ledger.list_accounts().len(), 2);
    assert_eq!(ledger.account(1), Some(account(1, "Portfel", Currency::PLN, 10)));
}

#[test]
fn account_label_has_code_and_name() {
    assert_eq!(account(1, "Portfel", Currency::PLN, 0).label(), "[PLN] Portfel");
    assert_eq!(account(2, "", Currency::GBP, 0).label(), "[GBP] ");
}

#[test]
fn list_is_most_recent_first() {
    let mut ledger = two_accounts();
    ledger.add("a".to_string(), amount(100), day(2024, 1, 10), 1);
    ledger.add("b".to_string(), amount(200), day(2024, 3, 1), 2);
    ledger.add("c".to_string(), amount(300), day(2023, 12, 31), 1);
    ledger.add("d".to_string(), amount(400), day(2024, 3, 1), 1);
    ledger.add("e".to_string(), amount(500), day(2024, 1, 10), 2);
    let names: Vec<String> = ledger.list().into_iter().map(|e| e.name).collect();
    assert_eq!(names, vec!["d", "b", "e", "a", "c"]);
    let seqs: Vec<usize> = ledger.list().iter().map(|e| e.seq).collect();
    assert_eq!(seqs, vec![3, 1, 4, 0, 2]);
}

#[test]
fn rows_come_in_the_order_of_storing() {
    let mut ledger = two_accounts();
    ledger.add("a".to_string(), amount(100), day(2024, 1, 10), 1);
    ledger.add("b".to_string(), amount(200), day(2024, 3, 1), 2);
    ledger.add("c".to_string(), amount(300), day(2023, 12, 31), 1);
    let names: Vec<String> = ledger.rows().into_iter().map(|e| e.name).collect();
    assert_eq!(names, vec!["a", "b", "c"]);
}

#[test]
fn listed_posting_has_the_currency_of_its_account() {
    let mut ledger = two_accounts();
    ledger.add("kawa".to_string(), amount(1250), day(2024, 5, 6), 2);
    let listed = ledger.list();
    assert_eq!(listed.len(), 1);
    assert_eq!(listed[0].currency, Currency::EUR);
    assert_eq!(listed[0].account_id, 2);
    assert_eq!(listed[0].value, amount(1250));
    assert_eq!(listed[0].date, day(2024, 5, 6));
    assert_eq!(listed[0].name, "kawa");
    assert_eq!(listed[0].seq, 0);
}

#[test]
fn posting_against_an_unknown_account_is_left_out() {
    let mut ledger = two_accounts();
    ledger.add("zgubione".to_string(), amount(100), day(2024, 1, 1), 99);
    ledger.add("jest".to_string(), amount(200), day(2024, 1, 1), 1);
    let listed = ledger.list();
    assert_eq!(listed.len(), 1);
    assert_eq!(listed[0].name, "jest");
    assert_eq!(listed[0].seq, 1);
    assert_eq!(ledger.balance(), vec![(Currency::PLN, -2)]);
    ledger.add_account(account(99, "Nowe", Currency::USD, 5)).unwrap();
    assert_eq!(ledger.list().len(), 2);
    assert_eq!(ledger.balance(), vec![(Currency::PLN, -2), (Currency::USD, -1)]);
}

#[test]
fn missing_rate_falls_back_without_failing() {
    let ledger = Ledger::new();
    let found = ledger.exchange_rate_to_reference(Currency::GBP);
    assert_eq!(found.rate.scaled(), 11_800);
    assert!(found.fallback);
    assert_eq!(ledger.exchange_rate_to_reference(Currency::PLN).rate.scaled(), 2_300);
    assert_eq!(ledger.exchange_rate_to_reference(Currency::EUR).rate.scaled(), 10_000);
    assert_eq!(ledger.exchange_rate_to_reference(Currency::USD).rate.scaled(), 9_200);
}

#[test]
fn stored_rate_is_taken() {
    let mut ledger = Ledger::new();
    ledger.set_exchange_rate(Currency::GBP, Rate::from_scaled(11_654).unwrap());
    let found = ledger.exchange_rate_to_reference(Currency::GBP);
    assert_eq!(found.rate.scaled(), 11_654);
    assert!(!found.fallback);
    assert!(ledger.exchange_rate_to_reference(Currency::USD).fallback);
    ledger.set_exchange_rate(Currency::GBP, Rate::from_scaled(12_000).unwrap());
    assert_eq!(ledger.exchange_rate_to_reference(Currency::GBP).rate.scaled(), 12_000);
}

#[test]
fn entered_expense_is_stored() {
    let mut ledger = two_accounts();
    assert_eq!(ledger.add_expense("chleb".to_string(), "4,50", "2024-02-29", 1), Ok(()));
    let listed = ledger.list();
    assert_eq!(listed.len(), 1);
    assert_eq!(listed[0].value, amount(450));
    assert_eq!(listed[0].date, day(2024, 2, 29));
    assert_eq!(listed[0].name, "chleb");
}

#[test]
fn malformed_entry_stores_nothing() {
    let mut ledger = two_accounts();
    assert_eq!(
        ledger.add_expense("x".to_string(), "4.5.0", "2024-02-29", 1),
        Err(LedgerError::Parse(ParseFailure::Amount))
    );
    assert_eq!(
        ledger.add_expense("x".to_string(), "4.50", "2023-02-29", 1),
        Err(LedgerError::Parse(ParseFailure::Date))
    );
    assert_eq!(
        ledger.add_expense("x".to_string(), "", "", 1),
        Err(LedgerError::Parse(ParseFailure::Amount))
    );
    assert!(ledger.rows().is_empty());
}

#[test]
fn posting_is_made_from_input() {
    let posting = Transaction::from_input("bilet".to_string(), "-12,3", "2024-06-01", 5).unwrap();
    assert_eq!(
        posting,
        Transaction { name: "bilet".to_string(), value: amount(-1230), date: day(2024, 6, 1), account_id: 5 }
    );
    assert_eq!(
        Transaction::from_input("bilet".to_string(), "12", "1-6-2024", 5),
        Err(LedgerError::Parse(ParseFailure::Date))
    );
}
