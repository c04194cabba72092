//! How the store lays values out on disk: which directory holds each type
//! of value, the names of their files, where a journal entry's file goes,
//! and the commit messages that mark an open transaction.
use vstd::prelude::*;

use crate::errors::{Error, Result};
use crate::text::{self, dec_int_seq, dec_seq, has_prefix, split_seq};
use crate::types::journal_key_seq;
use crate::util::CalDate;

verus! {

/// The directories of the store.
#[derive(Clone, Copy, Debug, PartialEq, Eq, Structural)]
pub enum StoreDir {
    /// Companies, commodities and ledgers.
    Metadata,
    /// Journal entries.
    Journal,
}

/// The types of value kept in the metadata directory.
pub open spec fn is_metadata_type(t: Seq<char>) -> bool {
    t == "company"@ || t == "commodity"@ || t == "ledger"@
}

/// Which directory the store uses for values of type `typ`: the metadata
/// directory for companies, commodities and ledgers, the journal for
/// journal entries; any other type is a `Fatal` error.
pub fn store_dir(typ: &str) -> (r: Result<StoreDir>)
    ensures
        is_metadata_type(typ@) ==> r == Ok::<StoreDir, Error>(StoreDir::Metadata),
        typ@ == "journalentry"@ ==> r == Ok::<StoreDir, Error>(StoreDir::Journal),
        !is_metadata_type(typ@) && typ@ != "journalentry"@ ==> (r matches Err(e) && e is Fatal
            && e.message() == "unreachable"@),
{
    proof {
        reveal_strlit("company");
        reveal_strlit("commodity");
        reveal_strlit("ledger");
        reveal_strlit("journalentry");
        assert("journalentry"@.len() == 12);
        assert(!is_metadata_type("journalentry"@));
    }
    if text::str_eq(typ, "company") || text::str_eq(typ, "commodity") || text::str_eq(
        typ,
        "ledger",
    ) {
        Ok(StoreDir::Metadata)
    } else if text::str_eq(typ, "journalentry") {
        Ok(StoreDir::Journal)
    } else {
        Err(Error::Fatal(text::str_to_string("unreachable")))
    }
}

/// What both directories of the store test before they store,
/// read or delete a value of type `typ`: each accepts companies,
/// commodities and ledgers only; any other type is a `Fatal` error.
pub fn check_type(typ: &str) -> (r: Result<()>)
    ensures
        r is Ok <==> is_metadata_type(typ@),
        r matches Err(e) ==> e is Fatal && e.message() == "invalid type:"@ + typ@,
{
    if text::str_eq(typ, "company") || text::str_eq(typ, "commodity") || text::str_eq(
        typ,
        "ledger",
    ) {
        Ok(())
    } else {
        Err(Error::Fatal(text::concat("invalid type:", typ)))
    }
}

/// The name of the file that holds the value with key `key`.
pub fn file_name(key: &str) -> (r: String)
    ensures
        r@ == key@ + ".json"@,
{
    text::concat(key, ".json")
}

/// The path, below the journal directory, of the file of the journal
/// entry with key `key`: the first three `-`-separated parts of the key
/// (its year, month and day) as directories, then the file. A key of fewer
/// than three parts is an `InvalidFile` error.
pub fn journal_file_parts(key: &str) -> (r: Result<Vec<String>>)
    ensures
        split_seq(key@, '-').len() >= 3 ==> (r matches Ok(v) && v.deep_view() == seq![
            split_seq(key@, '-')[0],
            split_seq(key@, '-')[1],
            split_seq(key@, '-')[2],
            key@ + ".json"@,
        ]),
        split_seq(key@, '-').len() < 3 ==> (r matches Err(e) && e is InvalidFile && e.message()
            == "journalkey:"@ + key@),
{
    let cs = text::str_chars(key);
    let parts = text::split_chars(&cs, '-');
    if parts.len() >= 3 {
        let mut v: Vec<String> = Vec::new();
        v.push(text::str_to_string(parts[0].as_str()));
        v.push(text::str_to_string(parts[1].as_str()));
        v.push(text::str_to_string(parts[2].as_str()));
        v.push(file_name(key));
        assert(v.deep_view() =~= seq![
            split_seq(key@, '-')[0],
            split_seq(key@, '-')[1],
            split_seq(key@, '-')[2],
            key@ + ".json"@,
        ]);
        Ok(v)
    } else {
        Err(Error::InvalidFile(text::concat("journalkey:", key)))
    }
}

/// The message of the commit that opens the transaction `uuid`.
pub open spec fn txn_message_seq(uuid: u128) -> Seq<char> {
    "txn commit "@ + dec_seq(uuid as nat)
}

/// The message of the commit that opens the transaction `uuid`.
pub fn txn_commit_message(uuid: u128) -> (r: String)
    ensures
        r@ == txn_message_seq(uuid),
{
    let mut v = text::str_chars("txn commit ");
    text::push_dec(&mut v, uuid);
    text::string_from_chars(v.as_slice())
}

/// The message of an ordinary commit.
pub fn user_commit_message() -> (r: String)
    ensures
        r@ == "user commit"@,
{
    text::str_to_string("user commit")
}

/// Whether the head commit with `message` left a transaction open (the
/// store was not closed after it): its message starts with `txn commit`.
pub fn is_txn_commit(message: &str) -> (r: bool)
    ensures
        r == has_prefix(message@, "txn commit"@),
{
    text::starts_with(message, "txn commit")
}

/// A store opened after a transaction began, and before it ended, finds
/// the transaction's commit for what it is; an ordinary commit is never
/// taken for one.
pub proof fn lemma_txn_commit_recognized(uuid: u128)
    ensures
        has_prefix(txn_message_seq(uuid), "txn commit"@),
        !has_prefix("user commit"@, "txn commit"@),
{
    reveal_strlit("txn commit ");
    reveal_strlit("txn commit");
    reveal_strlit("user commit");
    assert(txn_message_seq(uuid).take(10) =~= "txn commit"@);
    assert("user commit"@.take(10)[0] != "txn commit"@[0]);
}

/// A number written in decimal holds no `-`.
proof fn lemma_dec_no_dash(n: nat)
    ensures
        !dec_seq(n).contains('-'),
{
    text::lemma_dec_digits(n);
    if dec_seq(n).contains('-') {
        let k = choose|k: int| 0 <= k < dec_seq(n).len() && dec_seq(n)[k] == '-';
        assert(text::is_digit(dec_seq(n)[k]));
    }
}

/// The file of a journal entry lies in the directories of its year, month
/// and day: its key (for a year that is not negative) splits at `-` into
/// the year, the month, the day, `journalentry` and the uuid.
pub proof fn lemma_journal_file_under_date(y: i32, m: u32, d: u32, uuid: u128)
    requires
        y >= 0,
    ensures
        split_seq(journal_key_seq(y, m, d, uuid), '-') == seq![
            dec_seq(y as nat),
            dec_seq(m as nat),
            dec_seq(d as nat),
            "journalentry"@,
            dec_seq(uuid as nat),
        ],
{
    reveal_strlit("journalentry");
    let a = dec_seq(y as nat);
    let b = dec_seq(m as nat);
    let c = dec_seq(d as nat);
    let j = "journalentry"@;
    let e = dec_seq(uuid as nat);
    assert(dec_int_seq(y as int) == a);
    lemma_dec_no_dash(y as nat);
    lemma_dec_no_dash(m as nat);
    lemma_dec_no_dash(d as nat);
    lemma_dec_no_dash(uuid as nat);
    assert(!j.contains('-')) by {
        if j.contains('-') {
            let k = choose|k: int| 0 <= k < j.len() && j[k] == '-';
            assert(j[k] != '-');
        }
    }
    let r3 = j + seq!['-'] + e;
    let r2 = c + seq!['-'] + r3;
    let r1 = b + seq!['-'] + r2;
    assert(journal_key_seq(y, m, d, uuid) =~= a + seq!['-'] + r1);
    text::lemma_split_single(e, '-');
    text::lemma_split_concat(j, e, '-');
    text::lemma_split_concat(c, r3, '-');
    text::lemma_split_concat(b, r2, '-');
    text::lemma_split_concat(a, r1, '-');
    assert(split_seq(journal_key_seq(y, m, d, uuid), '-') =~= seq![a, b, c, j, e]);
}

/// The day directories of month `m` of year `y`: days 1 to 31.
pub open spec fn month_walk(y: i32, m: u32) -> Seq<(i32, u32, u32)> {
    Seq::new(31, |d: int| (y, m, (d + 1) as u32))
}

/// The day directories of year `y`, for the `n` months from `m0` on.
pub open spec fn year_walk(y: i32, m0: u32, n: nat) -> Seq<(i32, u32, u32)>
    decreases n,
{
    if n == 0 {
        Seq::empty()
    } else {
        year_walk(y, m0, (n - 1) as nat) + month_walk(y, (m0 + n - 1) as u32)
    }
}

/// The day directories of the `n` years from `y0` on, each for the `nm`
/// months from `m0` on.
pub open spec fn years_walk(y0: i32, n: nat, m0: u32, nm: nat) -> Seq<(i32, u32, u32)>
    decreases n,
{
    if n == 0 {
        Seq::empty()
    } else {
        years_walk(y0, (n - 1) as nat, m0, nm) + year_walk((y0 + n - 1) as i32, m0, nm)
    }
}

/// The day and month of `from` make a day of year `y`.
pub open spec fn day_in_year(from: CalDate, y: int) -> bool {
    (CalDate { year: y as i32, month: from.month, day: from.day }).valid()
}

/// The number of values from `a` to `b`, both included.
pub open spec fn span(a: int, b: int) -> nat {
    if a <= b {
        (b - a + 1) as nat
    } else {
        0
    }
}

/// The day directories that a walk of the journal from `from` visits, in
/// order, when today is `today`: each year from the year of `from` to the
/// year of `today`; in each year the months from the month of `from` to
/// the month of `today`; in each month the days 1 to 31. The day of `from`
/// must exist in every year of the walk (the walk moves `from` to each
/// year).
pub fn journal_walk(from: CalDate, today: CalDate) -> (r: Vec<(i32, u32, u32)>)
    requires
        forall|y: int| from.year <= y <= today.year ==> #[trigger] day_in_year(from, y),
    ensures
        r@ == years_walk(
            from.year,
            span(from.year as int, today.year as int),
            from.month,
            span(from.month as int, today.month as int),
        ),
{
    let ghost nm = span(from.month as int, today.month as int);
    let mut out: Vec<(i32, u32, u32)> = Vec::new();
    let mut yy: i64 = from.year as i64;
    while yy <= today.year as i64
        invariant
            from.year <= yy,
            from.year <= today.year + 1 ==> yy <= today.year + 1,
            from.year > today.year ==> yy == from.year,
            nm == span(from.month as int, today.month as int),
            out@ == years_walk(from.year, (yy - from.year) as nat, from.month, nm),
        decreases today.year - yy + 1,
    {
        let y = yy as i32;
        let ghost before = out@;
        let mut mm: u64 = from.month as u64;
        while mm <= today.month as u64
            invariant
                from.month <= mm,
                from.month <= today.month + 1 ==> mm <= today.month + 1,
                from.month > today.month ==> mm == from.month,
                nm == span(from.month as int, today.month as int),
                out@ == before + year_walk(y, from.month, (mm - from.month) as nat),
            decreases today.month - mm + 1,
        {
            let m = mm as u32;
            let ghost mid = out@;
            let mut d: u32 = 1;
            while d <= 31
                invariant
                    1 <= d <= 32,
                    out@ == mid + month_walk(y, m).take(d - 1),
                decreases 32 - d,
            {
                out.push((y, m, d));
                assert(month_walk(y, m).take(d as int) =~= month_walk(y, m).take(d - 1).push(
                    (y, m, d),
                ));
                d = d + 1;
            }
            assert(month_walk(y, m).take(31) =~= month_walk(y, m));
            assert(out@ =~= before + year_walk(y, from.month, (mm + 1 - from.month) as nat));
            mm = mm + 1;
        }
        assert((mm - from.month) as nat == nm);
        assert(out@ =~= years_walk(from.year, (yy + 1 - from.year) as nat, from.month, nm));
        yy = yy + 1;
    }
    out
}

} // verus!
