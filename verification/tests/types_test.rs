use ledger::datetime::UtcTime;
use ledger::errors::Error;
use ledger::types::{
    Commodity, Company, Creditor, Debitor, Durable, JournalEntry, KeyCommodity, KeyCompany,
    KeyJournalEntry, KeyLedger, Ledger, Workspace,
};

fn s(x: &str) -> String {
    x.to_string()
}

fn invalid(e: &Error, what: &str) -> bool {
    matches!(e, Error::InvalidInput(m) if m == what)
}

#[test]
fn test_workspace_try_from_trims() {
    let w = Workspace::try_from((s("  home "), s("INR"), s(" /a/b , /c "))).unwrap();
    assert_eq!(w.name, "home");
    assert_eq!(w.commodity, "INR");
    assert_eq!(w.remotes, vec![s("/a/b"), s("/c")]);
    assert_eq!(w.txn_uuid, 0);
}

#[test]
fn test_workspace_try_from_errors() {
    let e = Workspace::try_from((s("my home"), s("INR"), s(""))).err().unwrap();
    assert!(invalid(&e, "name"));
    let e = Workspace::try_from((s("home"), s("IN R"), s(""))).err().unwrap();
    assert!(invalid(&e, "commodity"));
}

#[test]
fn test_workspace_builders() {
    let mut w = Workspace::new(s("home")).set_commodity(s("USD"));
    w.add_remote(s("/r1")).add_remote(s("/r2"));
    w.set_txn_uuid(42);
    assert_eq!(w.name, "home");
    assert_eq!(w.commodity, "USD");
    assert_eq!(w.remotes, vec![s("/r1"), s("/r2")]);
    assert_eq!(w.txn_uuid, 42);
    assert_eq!(w.to_type(), "workspace");
    assert_eq!(w.to_key(), "workspace");
}

#[test]
fn test_commodity_try_from() {
    let c = Commodity::try_from((s(" INR "), s(" ₹ "), s("rupee, rs"), s("money.asia"), s("note")))
        .unwrap();
    assert_eq!(c.name, "INR");
    assert_eq!(c.symbol, "₹");
    assert_eq!(c.aliases, vec![s("rupee"), s("rs")]);
    assert_eq!(c.tags, vec![s("money.asia")]);
    assert_eq!(c.note, "note");
    assert_eq!(c.value_bits, 0);
    assert_eq!(c.to_type(), "commodity");
    assert_eq!(c.to_key(), "commodity-INR");
}

#[test]
fn test_commodity_try_from_errors() {
    let e = Commodity::try_from((s("I NR"), s(""), s(""), s(""), s(""))).err().unwrap();
    assert!(invalid(&e, "name"));
    let e = Commodity::try_from((s("INR"), s(""), s("a b"), s(""), s(""))).err().unwrap();
    assert!(invalid(&e, "aliases"));
    let e = Commodity::try_from((s("INR"), s(""), s(""), s("x,y z"), s(""))).err().unwrap();
    assert!(invalid(&e, "tags"));
}

#[test]
fn test_commodity_new_keeps_value() {
    let c = Commodity::new(s("USD"), 1.5f64.to_bits());
    let (name, bits) = c.into_name_value();
    assert_eq!(name, "USD");
    assert_eq!(f64::from_bits(bits), 1.5);
}

#[test]
fn test_company_try_from() {
    let c = Company::try_from((s("acme"), s("2021-01-02T03:04:05Z"), s("a1"), s("t1,t2"), s("n")))
        .unwrap();
    assert_eq!(c.name, "acme");
    assert_eq!(c.created.secs(), 1609556645);
    assert_eq!(c.created.nanos(), 0);
    assert_eq!(c.aliases, vec![s("a1")]);
    assert_eq!(c.tags, vec![s("t1"), s("t2")]);
    assert_eq!(c.to_key(), "company-acme");
}

#[test]
fn test_company_try_from_errors() {
    let e = Company::try_from((s("a b"), s("2021-01-02T03:04:05Z"), s(""), s(""), s("")))
        .err()
        .unwrap();
    assert!(invalid(&e, "name"));
    let e = Company::try_from((s("acme"), s("yesterday"), s(""), s(""), s(""))).err().unwrap();
    assert!(invalid(&e, "created"));
    let e = Company::try_from((s("acme"), s("2021-01-02T03:04:05Z"), s("a,b c"), s(""), s("")))
        .err()
        .unwrap();
    assert!(invalid(&e, "aliases"));
    let e = Company::try_from((s("acme"), s("2021-01-02T03:04:05Z"), s(""), s("#"), s("")))
        .err()
        .unwrap();
    assert!(invalid(&e, "tags"));
}

#[test]
fn test_ledger_try_from() {
    let l = Ledger::try_from((
        s("cash"),
        s("2021-01-02T03:04:05Z"),
        s("acme"),
        s("assets"),
        s(""),
        s(""),
        s("n"),
    ))
    .unwrap();
    assert_eq!(l.name, "cash");
    assert_eq!(l.company, "acme");
    assert_eq!(l.groups, vec![s("assets")]);
    assert_eq!(l.aliases, vec![s("")]);
    assert_eq!(l.to_key(), "ledger-acme-cash");
}

#[test]
fn test_ledger_try_from_errors() {
    let t = s("2021-01-02T03:04:05Z");
    let e = Ledger::try_from((s("ca sh"), t.clone(), s("acme"), s(""), s(""), s(""), s("")))
        .err()
        .unwrap();
    assert!(invalid(&e, "name"));
    let e = Ledger::try_from((s("cash"), s("x"), s("acme"), s(""), s(""), s(""), s("")))
        .err()
        .unwrap();
    assert!(invalid(&e, "created"));
    let e = Ledger::try_from((s("cash"), t.clone(), s("ac me"), s(""), s(""), s(""), s("")))
        .err()
        .unwrap();
    assert!(invalid(&e, "company"));
    let e = Ledger::try_from((s("cash"), t.clone(), s("acme"), s("a b"), s(""), s(""), s("")))
        .err()
        .unwrap();
    assert!(invalid(&e, "groups"));
    let e = Ledger::try_from((s("cash"), t.clone(), s("acme"), s(""), s("a b"), s(""), s("")))
        .err()
        .unwrap();
    assert!(invalid(&e, "aliases"));
    let e = Ledger::try_from((s("cash"), t, s("acme"), s(""), s(""), s("a b"), s("")))
        .err()
        .unwrap();
    assert!(invalid(&e, "tags"));
}

#[test]
fn test_keys_read_back_their_names() {
    let k = KeyCommodity::from_parts((s("INR"),));
    assert_eq!(k.to_string(), "commodity-INR");
    assert_eq!(k.into_parts(), (s("INR"),));
    let k = KeyCompany::from_parts((s("acme"),));
    assert_eq!(k.to_string(), "company-acme");
    assert_eq!(k.into_parts(), (s("acme"),));
    let k = KeyLedger::from_parts((s("acme"), s("cash")));
    assert_eq!(k.to_string(), "ledger-acme-cash");
    assert_eq!(k.copy().to_string(), "ledger-acme-cash");
    assert_eq!(k.into_parts(), (s("acme"), s("cash")));
}

#[test]
fn test_journal_key_format() {
    let k = KeyJournalEntry::from_parts((2021, 3, 4, 77));
    assert_eq!(k.to_string(), "2021-3-4-journalentry-77");
    let k = KeyJournalEntry::from_parts((-5, 12, 31, 0));
    assert_eq!(k.into_string(), "-5-12-31-journalentry-0");
}

#[test]
fn test_journal_key_does_not_read_back() {
    // The key has five parts; reading it back wants four.
    let k = KeyJournalEntry::from_parts((2021, 3, 4, 77));
    let e = k.try_into_parts().err().unwrap();
    assert!(matches!(e, Error::Fatal(_)));
}

#[test]
fn test_creditor_and_debitor() {
    let c = Creditor::try_from((s(" acme "), s("cash"), s("INR"), 2.0f64.to_bits())).unwrap();
    assert_eq!(c.ledger.to_string(), "ledger-acme-cash");
    assert_eq!(c.commodity.name, "INR");
    assert_eq!(f64::from_bits(c.commodity.value_bits), 2.0);
    let e = Creditor::try_from((s("acme"), s("ca sh"), s("INR"), 0)).err().unwrap();
    assert!(invalid(&e, "ledger"));
    let e = Debitor::try_from((s("ac me"), s("cash"), s("INR"), 0)).err().unwrap();
    assert!(invalid(&e, "company"));
    let e = Debitor::try_from((s("acme"), s("cash"), s("I NR"), 0)).err().unwrap();
    assert!(invalid(&e, "commodity"));
}

#[test]
fn test_journal_entry() {
    let mut j = JournalEntry::try_from((9, s(" shop "), s("2021-01-02T03:04:05Z"), s("food"), s("")))
        .unwrap();
    assert_eq!(j.uuid, 9);
    assert_eq!(j.payee, "shop");
    assert_eq!(j.tags, vec![s("food")]);
    j.add_creditor(s("acme"), s("cash"), (s("INR"), 0)).unwrap();
    j.add_debitor(s("me"), s("food"), (s("INR"), 0)).unwrap();
    assert!(j.add_debitor(s("m e"), s("food"), (s("INR"), 0)).is_err());
    assert_eq!(j.creditors.len(), 1);
    assert_eq!(j.debitors.len(), 1);
    assert_eq!(j.to_type(), "journalentry");
    assert_eq!(j.to_key(), "2021-1-2-journalentry-9");
    let e = JournalEntry::try_from((9, s(""), s("x"), s(""), s(""))).err().unwrap();
    assert!(invalid(&e, "created"));
    let e = JournalEntry::try_from((9, s(""), s("2021-01-02T03:04:05Z"), s("a b"), s("")))
        .err()
        .unwrap();
    assert!(invalid(&e, "tags"));
}

#[test]
fn test_utc_time() {
    let t = UtcTime::parse("1970-01-02T00:00:01.5Z").unwrap();
    assert_eq!(t.secs(), 86401);
    assert_eq!(t.nanos(), 500_000_000);
    assert_eq!(t.ymd(), (1970, 1, 2));
    assert!(UtcTime::parse("not a time").is_none());
    let t = UtcTime::from_timestamp(0, 0).unwrap();
    assert_eq!(t.ymd(), (1970, 1, 1));
}

#[test]
fn test_commodity_tags() {
    let mut c = Commodity::new(s("INR"), 0);
    c.add_tag("money.asia");
    c.add_tag("cash");
    c.add_tag("money.asia");
    assert_eq!(c.tags, vec![s("cash"), s("money.asia")]);
    assert!(c.has_tag("cash"));
    assert!(!c.has_tag("gold"));
    c.remove_tag("gold");
    assert_eq!(c.tags, vec![s("cash"), s("money.asia")]);
    c.remove_tag("cash");
    assert_eq!(c.tags, vec![s("money.asia")]);
    c.set_note(s("rupee"));
    assert_eq!(c.note, "rupee");
}

#[test]
fn test_ledger_tags() {
    let t = UtcTime::from_timestamp(0, 0).unwrap();
    let mut l = Ledger::new(s("cash"), t, s("acme"));
    l.add_tag("b");
    l.add_tag("B");
    l.add_tag("a");
    assert_eq!(l.tags, vec![s("B"), s("a"), s("b")]);
    l.remove_tag("a");
    l.add_tag("a");
    assert_eq!(l.tags, vec![s("B"), s("a"), s("b")]);
    assert!(l.has_tag("B"));
}

#[test]
fn test_journal_entries_order_by_creation() {
    let a = JournalEntry::try_from((1, s("a"), s("2021-01-02T03:04:05Z"), s(""), s(""))).unwrap();
    let b = JournalEntry::try_from((2, s("b"), s("2021-01-02T03:04:05Z"), s(""), s(""))).unwrap();
    let c = JournalEntry::try_from((3, s("c"), s("2021-01-02T03:04:06Z"), s(""), s(""))).unwrap();
    assert!(a == b);
    assert!(a != c);
    assert!(a < c);
    assert!(c > b);
    assert_eq!(a.partial_cmp(&b), Some(std::cmp::Ordering::Equal));
}
