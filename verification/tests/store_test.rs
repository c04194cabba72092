use ledger::aggregates::FrequentlyUsedCompanies;
use ledger::db_files::{
    check_type, file_name, is_txn_commit, journal_file_parts, journal_walk, store_dir,
    txn_commit_message, user_commit_message, StoreDir,
};
use ledger::util::CalDate;
use ledger::errors::Error;
use ledger::term_buffer::{Buffer, Mode};
use ledger::types::{JournalEntry, KeyJournalEntry};

fn s(x: &str) -> String {
    x.to_string()
}

#[test]
fn test_store_dir() {
    assert!(store_dir("company").unwrap() == StoreDir::Metadata);
    assert!(store_dir("commodity").unwrap() == StoreDir::Metadata);
    assert!(store_dir("ledger").unwrap() == StoreDir::Metadata);
    assert!(store_dir("journalentry").unwrap() == StoreDir::Journal);
    let e = store_dir("workspace").err().unwrap();
    assert!(matches!(e, Error::Fatal(m) if m == "unreachable"));
}

#[test]
fn test_check_type() {
    assert!(check_type("company").is_ok());
    assert!(check_type("ledger").is_ok());
    // the journal directory turns journal entries away too
    let e = check_type("journalentry").err().unwrap();
    assert!(matches!(e, Error::Fatal(m) if m == "invalid type:journalentry"));
}

#[test]
fn test_file_names() {
    assert_eq!(file_name("commodity-INR"), "commodity-INR.json");
    let parts = journal_file_parts("2021-3-4-journalentry-7").unwrap();
    assert_eq!(parts, vec![s("2021"), s("3"), s("4"), s("2021-3-4-journalentry-7.json")]);
    let e = journal_file_parts("2021-3").err().unwrap();
    assert!(matches!(e, Error::InvalidFile(m) if m == "journalkey:2021-3"));
}

#[test]
fn test_journal_file_under_its_day() {
    let key = KeyJournalEntry::from_parts((2020, 12, 31, 99)).into_string();
    let parts = journal_file_parts(&key).unwrap();
    assert_eq!(parts[..3].to_vec(), vec![s("2020"), s("12"), s("31")]);
}

#[test]
fn test_commit_messages() {
    let m = txn_commit_message(12345);
    assert_eq!(m, "txn commit 12345");
    assert!(is_txn_commit(&m));
    assert!(!is_txn_commit(&user_commit_message()));
    assert_eq!(user_commit_message(), "user commit");
    assert!(!is_txn_commit("txn"));
}

#[test]
fn test_frequent_companies() {
    let mut f = FrequentlyUsedCompanies::new();
    assert!(f.frequent_companies(10).is_empty());
    let mut j = JournalEntry::try_from((1, s("p"), s("2021-01-02T03:04:05Z"), s(""), s(""))).unwrap();
    j.add_creditor(s("zeta"), s("cash"), (s("INR"), 0)).unwrap();
    j.add_creditor(s("acme"), s("bank"), (s("INR"), 0)).unwrap();
    j.add_debitor(s("mid"), s("food"), (s("INR"), 0)).unwrap();
    f.reduce(&j);
    // every company counts 1: the names come in their order
    assert_eq!(f.frequent_companies(10), vec![s("acme"), s("mid"), s("zeta")]);
    assert_eq!(f.frequent_companies(2), vec![s("acme"), s("mid")]);
    assert_eq!(f.frequent_companies(0), Vec::<String>::new());
    // a company named again keeps its count
    f.reduce(&j);
    assert_eq!(f.frequent_companies(3), vec![s("acme"), s("mid"), s("zeta")]);
}

fn parts(b: &Buffer) -> (Mode, Vec<u64>, (u64, u64)) {
    match b {
        Buffer::Normal { window, cursor, .. } => (Mode::Normal, window.clone(), *cursor),
        Buffer::Insert { window, cursor, .. } => (Mode::Insert, window.clone(), *cursor),
        Buffer::Replace { window, cursor, .. } => (Mode::Replace, window.clone(), *cursor),
    }
}

#[test]
fn test_term_buffer_modes() {
    let b = Buffer::new("ab\ncde\n".as_bytes()).unwrap();
    assert!(parts(&b) == (Mode::Normal, vec![3, 4, 0], (1, 1)));
    let b = b.into_insert();
    assert!(parts(&b) == (Mode::Insert, vec![3, 4, 0], (1, 1)));
    let b = b.into_replace();
    assert!(parts(&b).0 == Mode::Replace);
    let b = b.into_replace();
    assert!(parts(&b).0 == Mode::Replace);
    let b = b.into_insert().into_insert();
    assert!(parts(&b).0 == Mode::Insert);
    let b = b.into_normal();
    assert!(parts(&b) == (Mode::Normal, vec![3, 4, 0], (1, 1)));
    assert_eq!(b.to_string(), "ab\ncde\n");
    let d = Buffer::default();
    assert_eq!(d.to_string(), "");
    assert!(parts(&d) == (Mode::Normal, vec![], (0, 0)));
    let e = Buffer::new(&[0xc3]).err().unwrap();
    assert!(matches!(e, Error::IOError(_)));
}

#[test]
fn test_journal_walk() {
    let from = CalDate::new(2020, 11, 5).unwrap();
    let today = CalDate::new(2021, 12, 1).unwrap();
    let w = journal_walk(from, today);
    assert_eq!(w.len(), 2 * 2 * 31);
    assert_eq!(w[0], (2020, 11, 1));
    assert_eq!(w[30], (2020, 11, 31));
    assert_eq!(w[31], (2020, 12, 1));
    assert_eq!(w[62], (2021, 11, 1));
    assert_eq!(w[123], (2021, 12, 31));
    // the months run from the month of `from` to this month in every year
    let late = CalDate::new(2020, 12, 5).unwrap();
    let early = CalDate::new(2021, 3, 1).unwrap();
    assert!(journal_walk(late, early).is_empty());
    assert!(journal_walk(today, from).is_empty());
}
