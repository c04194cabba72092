//! The values that a workspace stores: the workspace itself, commodities,
//! companies, ledgers and journal entries, with their keys and the checks
//! that user input goes through before it becomes one of them.
use vstd::prelude::*;

use crate::datetime::{chrono_parse_utc, UtcTime};
use crate::errors::{Error, Result};
use crate::text::{self, dec_int_seq, dec_seq, split_seq, str_lt, trim_seq};
use crate::util::{self, all_anuh, all_anuhdc};

verus! {

/// Values that can be stored: each names its type and its key, which is
/// unique across the values of all types.
pub trait Durable: Default + Clone {
    /// The type's name.
    spec fn type_spec(&self) -> Seq<char>;

    /// The value's key.
    spec fn key_spec(&self) -> Seq<char>;

    /// The type's name, unique across stored types.
    fn to_type(&self) -> (r: String)
        ensures
            r@ == self.type_spec(),
    ;

    /// The value's key.
    fn to_key(&self) -> (r: String)
        ensures
            r@ == self.key_spec(),
    ;
}

// ---------------------------------------------------------------------
// Checking user input.

/// The items of a comma separated list: the list trimmed, split at commas,
/// and each item trimmed.
pub open spec fn csv_items(s: Seq<char>) -> Seq<Seq<char>> {
    split_seq(trim_seq(s), ',').map_values(|x: Seq<char>| trim_seq(x))
}

/// Every item, trimmed, holds only the characters of an alias or a tag.
pub open spec fn items_anuhdc(items: Seq<Seq<char>>) -> bool {
    forall|i: int| 0 <= i < items.len() ==> all_anuhdc(trim_seq(#[trigger] items[i]))
}

/// The trimmed items of a comma separated list.
fn csv_trimmed(s: &String) -> (r: Vec<String>)
    ensures
        r.deep_view() == csv_items(s@),
{
    let t = text::trim(s.as_str());
    let parts = match util::csv(t) {
        Ok(p) => p,
        Err(_) => Vec::new(),
    };
    let ghost pv = parts.deep_view();
    let mut out: Vec<String> = Vec::new();
    let n = parts.len();
    let mut i: usize = 0;
    while i < n
        invariant
            i <= n,
            n == parts@.len(),
            pv == parts.deep_view(),
            pv == split_seq(trim_seq(s@), ','),
            out.deep_view() == pv.take(i as int).map_values(|x: Seq<char>| trim_seq(x)),
        decreases n - i,
    {
        let item = text::trim(parts[i].as_str());
        let ghost before = out.deep_view();
        out.push(item);
        assert(out.deep_view() =~= before.push(item@));
        assert(pv.take(i + 1) =~= pv.take(i as int).push(pv[i as int]));
        assert(out.deep_view() =~= pv.take(i + 1).map_values(|x: Seq<char>| trim_seq(x)));
        i = i + 1;
    }
    assert(pv.take(n as int) =~= pv);
    out
}

/// Whether every item, trimmed once more, holds only the characters of an
/// alias or a tag.
fn check_items(items: &Vec<String>) -> (r: bool)
    ensures
        r == items_anuhdc(items.deep_view()),
{
    let n = items.len();
    let mut i: usize = 0;
    while i < n
        invariant
            i <= n,
            n == items@.len(),
            forall|k: int| 0 <= k < i ==> all_anuhdc(trim_seq(#[trigger] items.deep_view()[k])),
        decreases n - i,
    {
        let t = text::trim(items[i].as_str());
        if !util::str_as_anuhdc(t.as_str()) {
            assert(!all_anuhdc(trim_seq(items.deep_view()[i as int])));
            return false;
        }
        i = i + 1;
    }
    true
}

/// The input `s`, trimmed, if it is a valid name; the error
/// `InvalidInput(what)` otherwise.
fn check_name(s: &String, what: &str) -> (r: Result<String>)
    ensures
        match r {
            Ok(n) => n@ == trim_seq(s@) && all_anuh(trim_seq(s@)),
            Err(e) => !all_anuh(trim_seq(s@)) && e == Error::InvalidInput(e->InvalidInput_0)
                && e->InvalidInput_0@ == what@,
        },
{
    let t = text::trim(s.as_str());
    if !util::str_as_anuh(t.as_str()) {
        Err(Error::InvalidInput(text::str_to_string(what)))
    } else {
        Ok(t)
    }
}

/// The error `InvalidInput(what)`.
pub open spec fn is_invalid_input(e: Error, what: Seq<char>) -> bool {
    e matches Error::InvalidInput(m) && m@ == what
}

/// The trimmed items of a list, if every one is a valid alias or tag; the
/// error `InvalidInput(what)` otherwise.
fn check_list(s: &String, what: &str) -> (r: Result<Vec<String>>)
    ensures
        match r {
            Ok(v) => v.deep_view() == csv_items(s@) && items_anuhdc(csv_items(s@)),
            Err(e) => !items_anuhdc(csv_items(s@)) && is_invalid_input(e, what@),
        },
{
    let items = csv_trimmed(s);
    if check_items(&items) {
        Ok(items)
    } else {
        Err(Error::InvalidInput(text::str_to_string(what)))
    }
}

/// The instant that `s`, trimmed, names; the error `InvalidInput("created")`
/// otherwise.
fn check_created(s: &String) -> (r: Result<UtcTime>)
    ensures
        match r {
            Ok(t) => chrono_parse_utc(trim_seq(s@)) == Some((t.sp_secs(), t.sp_nanos())),
            Err(e) => chrono_parse_utc(trim_seq(s@)) is None && is_invalid_input(e, "created"@),
        },
{
    let t = text::trim(s.as_str());
    match UtcTime::parse(t.as_str()) {
        Some(c) => Ok(c),
        None => Err(Error::InvalidInput(text::str_to_string("created"))),
    }
}

// ---------------------------------------------------------------------
// Tags.

/// The tags are in non-decreasing order.
pub open spec fn tags_sorted(tags: Seq<Seq<char>>) -> bool {
    forall|i: int, j: int| 0 <= i < j < tags.len() ==> !str_lt(#[trigger] tags[j], #[trigger] tags[i])
}

/// Calls `slice::sort` on strings. std documents the sort as a permutation
/// into non-decreasing order, and the order of `str` as lexicographic by
/// the characters' positions in the code charts (`str_lt`).
#[verifier::external_body]
fn sort_strings(v: &mut Vec<String>)
    ensures
        final(v).deep_view().to_multiset() == old(v).deep_view().to_multiset(),
        tags_sorted(final(v).deep_view()),
{
    v.sort()
}

/// Whether `tags` holds `tag`.
fn has_tag_in(tags: &Vec<String>, tag: &str) -> (r: bool)
    ensures
        r == tags.deep_view().contains(tag@),
{
    let n = tags.len();
    let mut i: usize = 0;
    while i < n
        invariant
            i <= n,
            n == tags@.len(),
            forall|k: int| 0 <= k < i ==> tags.deep_view()[k] != tag@,
        decreases n - i,
    {
        if text::str_eq(tags[i].as_str(), tag) {
            assert(tags.deep_view()[i as int] == tag@);
            return true;
        }
        i = i + 1;
    }
    false
}

/// Adds `tag` unless it is there already, then sorts the tags.
fn add_tag_to(tags: &mut Vec<String>, tag: &str)
    ensures
        final(tags).deep_view().to_multiset() == if old(tags).deep_view().contains(tag@) {
            old(tags).deep_view().to_multiset()
        } else {
            old(tags).deep_view().to_multiset().insert(tag@)
        },
        tags_sorted(final(tags).deep_view()),
        final(tags).deep_view().contains(tag@),
{
    broadcast use vstd::seq_lib::group_to_multiset_ensures;

    let ghost before = tags.deep_view();
    if !has_tag_in(tags, tag) {
        tags.push(text::str_to_string(tag));
        assert(tags.deep_view() =~= before.push(tag@));
    }
    let ghost mid = tags.deep_view();
    assert(mid.contains(tag@)) by {
        if before.contains(tag@) {
        } else {
            assert(mid[mid.len() - 1] == tag@);
        }
    }
    sort_strings(tags);
    assert(tags.deep_view().to_multiset().count(tag@) > 0);
}

/// Position `i` holds the first `tag` of `tags`.
pub open spec fn first_tag_at(tags: Seq<Seq<char>>, tag: Seq<char>, i: int) -> bool {
    0 <= i < tags.len() && tags[i] == tag && forall|k: int| 0 <= k < i ==> tags[k] != tag
}

/// Removes the first `tag`, if there is one.
fn remove_tag_from(tags: &mut Vec<String>, tag: &str)
    ensures
        !old(tags).deep_view().contains(tag@) ==> final(tags).deep_view() == old(tags).deep_view(),
        old(tags).deep_view().contains(tag@) ==> exists|i: int|
            first_tag_at(old(tags).deep_view(), tag@, i) && final(tags).deep_view() == old(
                tags,
            ).deep_view().remove(i),
        final(tags).deep_view().to_multiset() == old(tags).deep_view().to_multiset().remove(tag@),
{
    broadcast use vstd::seq_lib::group_to_multiset_ensures;

    let ghost before = tags.deep_view();
    let n = tags.len();
    let mut i: usize = 0;
    while i < n
        invariant
            i <= n,
            n == tags@.len(),
            tags.deep_view() == before,
            before == old(tags).deep_view(),
            forall|k: int| 0 <= k < i ==> before[k] != tag@,
        decreases n - i,
    {
        if text::str_eq(tags[i].as_str(), tag) {
            assert(first_tag_at(before, tag@, i as int));
            tags.remove(i);
            assert(tags.deep_view() =~= before.remove(i as int));
            assert(before.remove(i as int).to_multiset() == before.to_multiset().remove(
                before[i as int],
            )) by {
                broadcast use vstd::seq_lib::group_to_multiset_ensures;

            }
            return;
        }
        i = i + 1;
    }
    assert(!before.contains(tag@));
    assert(before.to_multiset().count(tag@) == 0);
    assert(before.to_multiset().remove(tag@) =~= before.to_multiset());
}

/// Removing a tag that was just added, when it was not there before,
/// leaves the same tags (as many of each; adding also sorts them).
pub proof fn lemma_remove_undoes_add(tags: Seq<Seq<char>>, tag: Seq<char>)
    requires
        !tags.contains(tag),
    ensures
        tags.to_multiset().insert(tag).remove(tag) == tags.to_multiset(),
{
    broadcast use vstd::multiset::group_multiset_axioms;

    assert(tags.to_multiset().insert(tag).remove(tag) =~= tags.to_multiset());
}

// ---------------------------------------------------------------------
// Workspace.

/// The workspace: its name, default commodity, remote repositories and the
/// transaction in progress (0 for none).
#[derive(Clone)]
pub struct Workspace {
    pub name: String,
    pub updated: UtcTime,
    pub commodity: String,
    pub remotes: Vec<String>,
    pub txn_uuid: u128,
}

impl Default for Workspace {
    fn default() -> (r: Workspace)
        ensures
            r.name@ == Seq::<char>::empty(),
            r.commodity@ == Seq::<char>::empty(),
            r.remotes@.len() == 0,
            r.txn_uuid == 0,
    {
        Workspace {
            name: String::new(),
            updated: UtcTime::now(),
            commodity: String::new(),
            remotes: Vec::new(),
            txn_uuid: 0,
        }
    }
}

impl Workspace {
    /// A workspace of the given name, with nothing else set.
    pub fn new(name: String) -> (r: Workspace)
        ensures
            r.name == name,
            r.commodity@ == Seq::<char>::empty(),
            r.remotes@.len() == 0,
            r.txn_uuid == 0,
    {
        let mut w: Workspace = Workspace::default();
        w.name = name;
        w
    }

    /// The workspace with the given default commodity.
    pub fn set_commodity(self, commodity: String) -> (r: Self)
        ensures
            r.commodity == commodity,
            r.name == self.name,
            r.remotes == self.remotes,
            r.txn_uuid == self.txn_uuid,
            r.updated == self.updated,
    {
        let mut s = self;
        s.commodity = commodity;
        s
    }

    /// Adds a remote repository.
    pub fn add_remote(&mut self, remote: String) -> (r: &mut Self)
        ensures
            r.remotes@ == old(self).remotes@.push(remote),
            r.name == old(self).name,
            r.commodity == old(self).commodity,
            r.txn_uuid == old(self).txn_uuid,
            r.updated == old(self).updated,
            *final(self) == *final(r),
    {
        self.remotes.push(remote);
        self
    }

    /// Sets the transaction in progress.
    pub fn set_txn_uuid(&mut self, uuid: u128) -> (r: &mut Self)
        ensures
            r.txn_uuid == uuid,
            r.name == old(self).name,
            r.commodity == old(self).commodity,
            r.remotes == old(self).remotes,
            r.updated == old(self).updated,
            *final(self) == *final(r),
    {
        self.txn_uuid = uuid;
        self
    }

    /// The workspace's name.
    fn to_name(&self) -> (r: String)
        ensures
            r@ == self.name@,
    {
        text::str_to_string(self.name.as_str())
    }

    /// The transaction in progress.
    fn to_txn_uuid(&mut self) -> (r: u128)
        ensures
            r == old(self).txn_uuid,
            *final(self) == *old(self),
    {
        self.txn_uuid
    }

    /// A new workspace from user input: a name, the key of its default
    /// commodity and a comma separated list of remotes. The name and the
    /// commodity are trimmed and must hold only alphanumerics, `-` and `_`;
    /// the remotes are trimmed.
    pub fn try_from(input: (String, String, String)) -> (r: Result<Workspace>)
        ensures
            match r {
                Ok(w) => {
                    &&& all_anuh(trim_seq(input.0@))
                    &&& all_anuh(trim_seq(input.1@))
                    &&& w.name@ == trim_seq(input.0@)
                    &&& w.commodity@ == trim_seq(input.1@)
                    &&& w.remotes.deep_view() == csv_items(input.2@)
                    &&& w.txn_uuid == 0
                },
                Err(e) => if !all_anuh(trim_seq(input.0@)) {
                    is_invalid_input(e, "name"@)
                } else {
                    !all_anuh(trim_seq(input.1@)) && is_invalid_input(e, "commodity"@)
                },
            },
    {
        let (name, commodity_key, remotes) = input;
        let name = match check_name(&name, "name") {
            Ok(n) => n,
            Err(e) => return Err(e),
        };
        let commodity = match check_name(&commodity_key, "commodity") {
            Ok(c) => c,
            Err(e) => return Err(e),
        };
        let remotes = csv_trimmed(&remotes);
        Ok(Workspace { name, updated: UtcTime::now(), commodity, remotes, txn_uuid: 0 })
    }
}

impl Durable for Workspace {
    open spec fn type_spec(&self) -> Seq<char> {
        "workspace"@
    }

    open spec fn key_spec(&self) -> Seq<char> {
        "workspace"@
    }

    fn to_type(&self) -> (r: String) {
        text::str_to_string("workspace")
    }

    fn to_key(&self) -> (r: String) {
        self.to_type()
    }
}

// ---------------------------------------------------------------------
// Keys.

/// The key of a commodity: `commodity-` and its name.
#[derive(Clone)]
pub struct KeyCommodity(String);

impl View for KeyCommodity {
    type V = Seq<char>;

    closed spec fn view(&self) -> Seq<char> {
        self.0@
    }
}

/// A key of `prefix-` and a name.
pub open spec fn prefixed(prefix: Seq<char>, name: Seq<char>) -> Seq<char> {
    prefix + seq!['-'] + name
}

impl KeyCommodity {
    /// The key of the commodity named `name.0`.
    pub fn from_parts(name: (String,)) -> (r: KeyCommodity)
        ensures
            r@ == prefixed("commodity"@, name.0@),
    {
        proof {
            reveal_strlit("commodity-");
            reveal_strlit("commodity");
        }
        let r = KeyCommodity(text::concat("commodity-", name.0.as_str()));
        assert(r@ =~= prefixed("commodity"@, name.0@));
        r
    }

    /// The name back from the key. The key must split at `-` into exactly
    /// `commodity` and the name.
    pub fn into_parts(self) -> (r: (String,))
        requires
            split_seq(self@, '-').len() == 2,
            split_seq(self@, '-')[0] == "commodity"@,
        ensures
            r.0@ == split_seq(self@, '-')[1],
    {
        let cs = text::str_chars(self.0.as_str());
        let parts = text::split_chars(&cs, '-');
        assert(parts.deep_view()[1] == parts@[1]@);
        let name = text::str_to_string(parts[1].as_str());
        (name,)
    }

    /// The key as text.
    pub fn to_string(&self) -> (r: String)
        ensures
            r@ == self@,
    {
        text::str_to_string(self.0.as_str())
    }
}

/// The key of a company: `company-` and its name.
#[derive(Clone)]
pub struct KeyCompany(String);

impl View for KeyCompany {
    type V = Seq<char>;

    closed spec fn view(&self) -> Seq<char> {
        self.0@
    }
}

impl KeyCompany {
    /// The key of the company named `name.0`.
    pub fn from_parts(name: (String,)) -> (r: KeyCompany)
        ensures
            r@ == prefixed("company"@, name.0@),
    {
        proof {
            reveal_strlit("company-");
            reveal_strlit("company");
        }
        let r = KeyCompany(text::concat("company-", name.0.as_str()));
        assert(r@ =~= prefixed("company"@, name.0@));
        r
    }

    /// The name back from the key. The key must split at `-` into exactly
    /// `company` and the name.
    pub fn into_parts(self) -> (r: (String,))
        requires
            split_seq(self@, '-').len() == 2,
            split_seq(self@, '-')[0] == "company"@,
        ensures
            r.0@ == split_seq(self@, '-')[1],
    {
        let cs = text::str_chars(self.0.as_str());
        let parts = text::split_chars(&cs, '-');
        assert(parts.deep_view()[1] == parts@[1]@);
        let name = text::str_to_string(parts[1].as_str());
        (name,)
    }

    /// The key as text.
    pub fn to_string(&self) -> (r: String)
        ensures
            r@ == self@,
    {
        text::str_to_string(self.0.as_str())
    }
}

/// The key of a ledger: `ledger-`, its company's name, `-` and its name.
#[derive(Clone)]
pub struct KeyLedger(String);

impl View for KeyLedger {
    type V = Seq<char>;

    closed spec fn view(&self) -> Seq<char> {
        self.0@
    }
}

impl KeyLedger {
    /// The key of the ledger `names.1` of company `names.0`.
    pub fn from_parts(names: (String, String)) -> (r: KeyLedger)
        ensures
            r@ == prefixed(prefixed("ledger"@, names.0@), names.1@),
    {
        proof {
            reveal_strlit("ledger-");
            reveal_strlit("ledger");
            reveal_strlit("-");
        }
        let a = text::concat("ledger-", names.0.as_str());
        let b = text::concat(a.as_str(), "-");
        let r = KeyLedger(text::concat(b.as_str(), names.1.as_str()));
        assert(r@ =~= prefixed(prefixed("ledger"@, names.0@), names.1@));
        r
    }

    /// A copy of the key.
    pub fn copy(&self) -> (r: KeyLedger)
        ensures
            r@ == self@,
    {
        KeyLedger(text::str_to_string(self.0.as_str()))
    }

    /// The company's name and the ledger's name back from the key. The key
    /// must split at `-` into exactly `ledger` and the two names.
    pub fn into_parts(self) -> (r: (String, String))
        requires
            split_seq(self@, '-').len() == 3,
            split_seq(self@, '-')[0] == "ledger"@,
        ensures
            r.0@ == split_seq(self@, '-')[1],
            r.1@ == split_seq(self@, '-')[2],
    {
        let cs = text::str_chars(self.0.as_str());
        let parts = text::split_chars(&cs, '-');
        assert(parts.deep_view()[1] == parts@[1]@);
        assert(parts.deep_view()[2] == parts@[2]@);
        let c = text::str_to_string(parts[1].as_str());
        let l = text::str_to_string(parts[2].as_str());
        (c, l)
    }

    /// The key as text.
    pub fn to_string(&self) -> (r: String)
        ensures
            r@ == self@,
    {
        text::str_to_string(self.0.as_str())
    }
}

/// A literal without `-` holds none.
proof fn lemma_no_dash(s: Seq<char>)
    requires
        forall|i: int| 0 <= i < s.len() ==> s[i] != '-',
    ensures
        !s.contains('-'),
{
}

/// The key of a commodity reads back its name, when the name holds no
/// `-` (`into_parts` can take the key, and gives the name).
pub proof fn lemma_commodity_key_roundtrip(name: Seq<char>)
    requires
        !name.contains('-'),
    ensures
        split_seq(prefixed("commodity"@, name), '-') == seq!["commodity"@, name],
{
    reveal_strlit("commodity");
    lemma_no_dash("commodity"@);
    text::lemma_split_single(name, '-');
    text::lemma_split_concat("commodity"@, name, '-');
}

/// The key of a company reads back its name, when the name holds no `-`.
pub proof fn lemma_company_key_roundtrip(name: Seq<char>)
    requires
        !name.contains('-'),
    ensures
        split_seq(prefixed("company"@, name), '-') == seq!["company"@, name],
{
    reveal_strlit("company");
    lemma_no_dash("company"@);
    text::lemma_split_single(name, '-');
    text::lemma_split_concat("company"@, name, '-');
}

/// The key of a ledger reads back its company's name and its name, when
/// neither holds a `-`.
pub proof fn lemma_ledger_key_roundtrip(company: Seq<char>, name: Seq<char>)
    requires
        !company.contains('-'),
        !name.contains('-'),
    ensures
        split_seq(prefixed(prefixed("ledger"@, company), name), '-') == seq![
            "ledger"@,
            company,
            name,
        ],
{
    reveal_strlit("ledger");
    lemma_no_dash("ledger"@);
    text::lemma_split_single(name, '-');
    text::lemma_split_concat(company, name, '-');
    let rest = company + seq!['-'] + name;
    assert(prefixed(prefixed("ledger"@, company), name) =~= "ledger"@ + seq!['-'] + rest);
    text::lemma_split_concat("ledger"@, rest, '-');
    assert(seq!["ledger"@] + seq![company, name] =~= seq!["ledger"@, company, name]);
}

/// The key of a journal entry: the day it was created and its uuid.
#[derive(Clone)]
pub struct KeyJournalEntry(String);

impl View for KeyJournalEntry {
    type V = Seq<char>;

    closed spec fn view(&self) -> Seq<char> {
        self.0@
    }
}

/// `year-month-day-journalentry-uuid`, in decimal.
pub open spec fn journal_key_seq(y: i32, m: u32, d: u32, uuid: u128) -> Seq<char> {
    dec_int_seq(y as int) + seq!['-'] + dec_seq(m as nat) + seq!['-'] + dec_seq(d as nat)
        + seq!['-'] + "journalentry"@ + seq!['-'] + dec_seq(uuid as nat)
}

/// What reading a journal key back gives: it must split at `-` into
/// exactly four parts, a year, a month, a day and a uuid, each a number of
/// its type.
pub open spec fn journal_key_parts(k: Seq<char>) -> Option<(int, nat, nat, nat)> {
    let p = split_seq(k, '-');
    if p.len() != 4 {
        None
    } else {
        match (
            text::parse_int_seq(p[0], i32::MIN as int, i32::MAX as int),
            text::parse_nat_seq(p[1], u32::MAX as nat),
            text::parse_nat_seq(p[2], u32::MAX as nat),
            text::parse_nat_seq(p[3], u128::MAX as nat),
        ) {
            (Some(y), Some(m), Some(d), Some(u)) => Some((y, m, d, u)),
            _ => None,
        }
    }
}

impl KeyJournalEntry {
    /// The key of the journal entry with uuid `parts.3` created on the day
    /// (`parts.0`, `parts.1`, `parts.2`).
    pub fn from_parts(parts: (i32, u32, u32, u128)) -> (r: KeyJournalEntry)
        ensures
            r@ == journal_key_seq(parts.0, parts.1, parts.2, parts.3),
    {
        let (y, m, d, uuid) = parts;
        let mut v: Vec<char> = Vec::new();
        text::push_dec_signed(&mut v, y as i64);
        v.push('-');
        text::push_dec(&mut v, m as u128);
        v.push('-');
        text::push_dec(&mut v, d as u128);
        v.push('-');
        v.push('j');
        v.push('o');
        v.push('u');
        v.push('r');
        v.push('n');
        v.push('a');
        v.push('l');
        v.push('e');
        v.push('n');
        v.push('t');
        v.push('r');
        v.push('y');
        v.push('-');
        text::push_dec(&mut v, uuid);
        proof {
            reveal_strlit("journalentry");
        }
        assert(v@ =~= journal_key_seq(y, m, d, uuid));
        KeyJournalEntry(text::string_from_chars(v.as_slice()))
    }

    /// The key as text.
    pub fn into_string(self) -> (r: String)
        ensures
            r@ == self@,
    {
        self.0
    }

    /// The key as text.
    pub fn to_string(&self) -> (r: String)
        ensures
            r@ == self@,
    {
        text::str_to_string(self.0.as_str())
    }

    /// The day and uuid back from the key. The key must split at `-` into
    /// exactly four numbers, else the result is a `Fatal` error; a part
    /// that is not a number of its type gives `ConvertFail`.
    pub fn try_into_parts(self) -> (r: Result<(i32, u32, u32, u128)>)
        ensures
            match r {
                Ok((y, m, d, u)) => journal_key_parts(self@) == Some(
                    (y as int, m as nat, d as nat, u as nat),
                ),
                Err(e) => journal_key_parts(self@) is None && (if split_seq(self@, '-').len()
                    != 4 {
                    e is Fatal
                } else {
                    e is ConvertFail
                }),
            },
    {
        let cs = text::str_chars(self.0.as_str());
        let parts = text::split_chars(&cs, '-');
        if parts.len() != 4 {
            return Err(Error::Fatal(text::str_to_string("invalid journal-entry-key")));
        }
        let ghost p = parts.deep_view();
        let y = match text::parse_signed(&text::str_chars(parts[0].as_str()), 2147483647) {
            Some((neg, v)) => {
                if neg {
                    (0 - (v as i64)) as i32
                } else {
                    v as i32
                }
            },
            None => return Err(Error::ConvertFail(text::str_to_string("year"))),
        };
        let m = match text::parse_unsigned(&text::str_chars(parts[1].as_str()), 4294967295) {
            Some(v) => v as u32,
            None => return Err(Error::ConvertFail(text::str_to_string("month"))),
        };
        let d = match text::parse_unsigned(&text::str_chars(parts[2].as_str()), 4294967295) {
            Some(v) => v as u32,
            None => return Err(Error::ConvertFail(text::str_to_string("day"))),
        };
        let u = match text::parse_unsigned(
            &text::str_chars(parts[3].as_str()),
            340282366920938463463374607431768211455,
        ) {
            Some(v) => v,
            None => return Err(Error::ConvertFail(text::str_to_string("uuid"))),
        };
        Ok((y, m, d, u))
    }
}

// ---------------------------------------------------------------------
// Commodity.

/// A commodity: a currency or any other unit that accounts are kept in.
/// `value_bits` holds the IEEE-754 bits of its (floating point) value.
#[derive(Clone)]
pub struct Commodity {
    pub name: String,
    pub value_bits: u64,
    pub updated: UtcTime,
    pub symbol: String,
    pub aliases: Vec<String>,
    pub tags: Vec<String>,
    pub note: String,
}

impl Default for Commodity {
    fn default() -> (r: Commodity)
        ensures
            r.name@ == Seq::<char>::empty(),
            r.value_bits == 0,
            r.symbol@ == Seq::<char>::empty(),
            r.aliases@.len() == 0,
            r.tags@.len() == 0,
            r.note@ == Seq::<char>::empty(),
    {
        Commodity {
            name: String::new(),
            value_bits: 0,
            updated: UtcTime::now(),
            symbol: String::new(),
            aliases: Vec::new(),
            tags: Vec::new(),
            note: String::new(),
        }
    }
}

impl Commodity {

    /// Whether the commodity carries `tag`.
    pub fn has_tag(&self, tag: &str) -> (r: bool)
        ensures
            r == self.tags.deep_view().contains(tag@),
    {
        has_tag_in(&self.tags, tag)
    }

    /// Adds `tag` unless the commodity carries it already; the tags are then
    /// sorted.
    pub fn add_tag(&mut self, tag: &str)
        ensures
            final(self).tags.deep_view().to_multiset() == if old(self).tags.deep_view().contains(
                tag@,
            ) {
                old(self).tags.deep_view().to_multiset()
            } else {
                old(self).tags.deep_view().to_multiset().insert(tag@)
            },
            tags_sorted(final(self).tags.deep_view()),
            final(self).tags.deep_view().contains(tag@),
            final(self).name == old(self).name,
            final(self).value_bits == old(self).value_bits,
            final(self).updated == old(self).updated,
            final(self).symbol == old(self).symbol,
            final(self).aliases == old(self).aliases,
            final(self).note == old(self).note,
    {
        add_tag_to(&mut self.tags, tag);
    }

    /// Removes the first `tag` of the commodity, if it has one.
    pub fn remove_tag(&mut self, tag: &str)
        ensures
            !old(self).tags.deep_view().contains(tag@) ==> final(self).tags.deep_view() == old(
                self,
            ).tags.deep_view(),
            old(self).tags.deep_view().contains(tag@) ==> exists|i: int|
                first_tag_at(old(self).tags.deep_view(), tag@, i) && final(self).tags.deep_view()
                    == old(self).tags.deep_view().remove(i),
            final(self).tags.deep_view().to_multiset() == old(self).tags.deep_view().to_multiset().remove(
                tag@,
            ),
            final(self).name == old(self).name,
            final(self).value_bits == old(self).value_bits,
            final(self).updated == old(self).updated,
            final(self).symbol == old(self).symbol,
            final(self).aliases == old(self).aliases,
            final(self).note == old(self).note,
    {
        remove_tag_from(&mut self.tags, tag);
    }

    /// Sets the note.
    pub fn set_note(&mut self, note: String)
        ensures
            final(self).note == note,
            final(self).tags == old(self).tags,
            final(self).name == old(self).name,
            final(self).value_bits == old(self).value_bits,
            final(self).updated == old(self).updated,
            final(self).symbol == old(self).symbol,
            final(self).aliases == old(self).aliases,
    {
        self.note = note;
    }
    /// A commodity of the given name and value (its IEEE-754 bits), with
    /// nothing else set.
    pub fn new(name: String, value_bits: u64) -> (r: Commodity)
        ensures
            r.name == name,
            r.value_bits == value_bits,
            r.symbol@ == Seq::<char>::empty(),
            r.aliases@.len() == 0,
            r.tags@.len() == 0,
            r.note@ == Seq::<char>::empty(),
    {
        Commodity {
            name,
            value_bits,
            updated: UtcTime::now(),
            symbol: String::new(),
            aliases: Vec::new(),
            tags: Vec::new(),
            note: String::new(),
        }
    }

    /// The name and the value of the commodity.
    pub fn into_name_value(self) -> (r: (String, u64))
        ensures
            r == (self.name, self.value_bits),
    {
        (self.name, self.value_bits)
    }

    /// A new commodity from user input: name, symbol, and comma separated
    /// lists of aliases and tags, and a note. The name must hold only
    /// alphanumerics, `-` and `_`; the symbol is trimmed; every alias and
    /// every tag only alphanumerics, `-`, `_`, `.` and `:`. Its value is 0.
    pub fn try_from(input: (String, String, String, String, String)) -> (r: Result<Commodity>)
        ensures
            match r {
                Ok(c) => {
                    &&& all_anuh(trim_seq(input.0@))
                    &&& items_anuhdc(csv_items(input.2@))
                    &&& items_anuhdc(csv_items(input.3@))
                    &&& c.name@ == trim_seq(input.0@)
                    &&& c.value_bits == 0
                    &&& c.symbol@ == trim_seq(input.1@)
                    &&& c.aliases.deep_view() == csv_items(input.2@)
                    &&& c.tags.deep_view() == csv_items(input.3@)
                    &&& c.note == input.4
                },
                Err(e) => if !all_anuh(trim_seq(input.0@)) {
                    is_invalid_input(e, "name"@)
                } else if !items_anuhdc(csv_items(input.2@)) {
                    is_invalid_input(e, "aliases"@)
                } else {
                    !items_anuhdc(csv_items(input.3@)) && is_invalid_input(e, "tags"@)
                },
            },
    {
        let (name, symbol, aliases, tags, note) = input;
        let name = match check_name(&name, "name") {
            Ok(n) => n,
            Err(e) => return Err(e),
        };
        let symbol = text::trim(symbol.as_str());
        let aliases = match check_list(&aliases, "aliases") {
            Ok(v) => v,
            Err(e) => return Err(e),
        };
        let tags = match check_list(&tags, "tags") {
            Ok(v) => v,
            Err(e) => return Err(e),
        };
        Ok(Commodity { name, value_bits: 0, updated: UtcTime::now(), symbol, aliases, tags, note })
    }
}

impl Durable for Commodity {
    open spec fn type_spec(&self) -> Seq<char> {
        "commodity"@
    }

    open spec fn key_spec(&self) -> Seq<char> {
        prefixed("commodity"@, self.name@)
    }

    fn to_type(&self) -> (r: String) {
        text::str_to_string("commodity")
    }

    fn to_key(&self) -> (r: String) {
        let ck = KeyCommodity::from_parts((text::str_to_string(self.name.as_str()),));
        ck.to_string()
    }
}

// ---------------------------------------------------------------------
// Company.

/// A company that the workspace keeps ledgers for.
#[derive(Clone)]
pub struct Company {
    pub name: String,
    pub created: UtcTime,
    pub updated: UtcTime,
    pub aliases: Vec<String>,
    pub tags: Vec<String>,
    pub note: String,
}

impl Default for Company {
    fn default() -> (r: Company)
        ensures
            r.name@ == Seq::<char>::empty(),
            r.aliases@.len() == 0,
            r.tags@.len() == 0,
            r.note@ == Seq::<char>::empty(),
    {
        Company {
            name: String::new(),
            created: UtcTime::now(),
            updated: UtcTime::now(),
            aliases: Vec::new(),
            tags: Vec::new(),
            note: String::new(),
        }
    }
}

impl Company {
    /// A company of the given name, created at `created`.
    pub fn new(name: String, created: UtcTime) -> (r: Company)
        ensures
            r.name == name,
            r.created == created,
            r.aliases@.len() == 0,
            r.tags@.len() == 0,
            r.note@ == Seq::<char>::empty(),
    {
        Company {
            name,
            created,
            updated: UtcTime::now(),
            aliases: Vec::new(),
            tags: Vec::new(),
            note: String::new(),
        }
    }

    /// A new company from user input: name, creation time, comma separated
    /// aliases and tags, and a note. The name must hold only alphanumerics,
    /// `-` and `_`; the creation time must parse as an instant in UTC; each
    /// alias and tag only alphanumerics, `-`, `_`, `.` and `:`.
    pub fn try_from(input: (String, String, String, String, String)) -> (r: Result<Company>)
        ensures
            match r {
                Ok(c) => {
                    &&& all_anuh(trim_seq(input.0@))
                    &&& chrono_parse_utc(trim_seq(input.1@)) == Some(
                        (c.created.sp_secs(), c.created.sp_nanos()),
                    )
                    &&& items_anuhdc(csv_items(input.2@))
                    &&& items_anuhdc(csv_items(input.3@))
                    &&& c.name@ == trim_seq(input.0@)
                    &&& c.aliases.deep_view() == csv_items(input.2@)
                    &&& c.tags.deep_view() == csv_items(input.3@)
                    &&& c.note == input.4
                },
                Err(e) => if !all_anuh(trim_seq(input.0@)) {
                    is_invalid_input(e, "name"@)
                } else if chrono_parse_utc(trim_seq(input.1@)) is None {
                    is_invalid_input(e, "created"@)
                } else if !items_anuhdc(csv_items(input.2@)) {
                    is_invalid_input(e, "aliases"@)
                } else {
                    !items_anuhdc(csv_items(input.3@)) && is_invalid_input(e, "tags"@)
                },
            },
    {
        let (name, created, aliases, tags, note) = input;
        let name = match check_name(&name, "name") {
            Ok(n) => n,
            Err(e) => return Err(e),
        };
        let created = match check_created(&created) {
            Ok(c) => c,
            Err(e) => return Err(e),
        };
        let aliases = match check_list(&aliases, "aliases") {
            Ok(v) => v,
            Err(e) => return Err(e),
        };
        let tags = match check_list(&tags, "tags") {
            Ok(v) => v,
            Err(e) => return Err(e),
        };
        Ok(Company { name, created, updated: UtcTime::now(), aliases, tags, note })
    }
}

impl Durable for Company {
    open spec fn type_spec(&self) -> Seq<char> {
        "company"@
    }

    open spec fn key_spec(&self) -> Seq<char> {
        prefixed("company"@, self.name@)
    }

    fn to_type(&self) -> (r: String) {
        text::str_to_string("company")
    }

    fn to_key(&self) -> (r: String) {
        let ck = KeyCompany::from_parts((text::str_to_string(self.name.as_str()),));
        ck.to_string()
    }
}

// ---------------------------------------------------------------------
// Ledger.

/// A ledger of a company (`company` holds the company's key).
#[derive(Clone)]
pub struct Ledger {
    pub name: String,
    pub created: UtcTime,
    pub updated: UtcTime,
    pub company: String,
    pub groups: Vec<String>,
    pub aliases: Vec<String>,
    pub tags: Vec<String>,
    pub note: String,
}

impl Default for Ledger {
    fn default() -> (r: Ledger)
        ensures
            r.name@ == Seq::<char>::empty(),
            r.company@ == Seq::<char>::empty(),
            r.groups@.len() == 0,
            r.aliases@.len() == 0,
            r.tags@.len() == 0,
            r.note@ == Seq::<char>::empty(),
    {
        Ledger {
            name: String::new(),
            created: UtcTime::now(),
            updated: UtcTime::now(),
            company: String::new(),
            groups: Vec::new(),
            aliases: Vec::new(),
            tags: Vec::new(),
            note: String::new(),
        }
    }
}

impl Ledger {

    /// Whether the ledger carries `tag`.
    pub fn has_tag(&self, tag: &str) -> (r: bool)
        ensures
            r == self.tags.deep_view().contains(tag@),
    {
        has_tag_in(&self.tags, tag)
    }

    /// Adds `tag` unless the ledger carries it already; the tags are then
    /// sorted.
    pub fn add_tag(&mut self, tag: &str)
        ensures
            final(self).tags.deep_view().to_multiset() == if old(self).tags.deep_view().contains(
                tag@,
            ) {
                old(self).tags.deep_view().to_multiset()
            } else {
                old(self).tags.deep_view().to_multiset().insert(tag@)
            },
            tags_sorted(final(self).tags.deep_view()),
            final(self).tags.deep_view().contains(tag@),
            final(self).name == old(self).name,
            final(self).created == old(self).created,
            final(self).updated == old(self).updated,
            final(self).company == old(self).company,
            final(self).groups == old(self).groups,
            final(self).aliases == old(self).aliases,
            final(self).note == old(self).note,
    {
        add_tag_to(&mut self.tags, tag);
    }

    /// Removes the first `tag` of the ledger, if it has one.
    pub fn remove_tag(&mut self, tag: &str)
        ensures
            !old(self).tags.deep_view().contains(tag@) ==> final(self).tags.deep_view() == old(
                self,
            ).tags.deep_view(),
            old(self).tags.deep_view().contains(tag@) ==> exists|i: int|
                first_tag_at(old(self).tags.deep_view(), tag@, i) && final(self).tags.deep_view()
                    == old(self).tags.deep_view().remove(i),
            final(self).tags.deep_view().to_multiset() == old(self).tags.deep_view().to_multiset().remove(
                tag@,
            ),
            final(self).name == old(self).name,
            final(self).created == old(self).created,
            final(self).updated == old(self).updated,
            final(self).company == old(self).company,
            final(self).groups == old(self).groups,
            final(self).aliases == old(self).aliases,
            final(self).note == old(self).note,
    {
        remove_tag_from(&mut self.tags, tag);
    }

    /// Sets the note.
    pub fn set_note(&mut self, note: String)
        ensures
            final(self).note == note,
            final(self).tags == old(self).tags,
            final(self).name == old(self).name,
            final(self).created == old(self).created,
            final(self).updated == old(self).updated,
            final(self).company == old(self).company,
            final(self).groups == old(self).groups,
            final(self).aliases == old(self).aliases,
    {
        self.note = note;
    }
    /// A ledger of the given name and company, created at `created`.
    pub fn new(name: String, created: UtcTime, company: String) -> (r: Ledger)
        ensures
            r.name == name,
            r.created == created,
            r.company == company,
            r.groups@.len() == 0,
            r.aliases@.len() == 0,
            r.tags@.len() == 0,
            r.note@ == Seq::<char>::empty(),
    {
        Ledger {
            name,
            created,
            updated: UtcTime::now(),
            company,
            groups: Vec::new(),
            aliases: Vec::new(),
            tags: Vec::new(),
            note: String::new(),
        }
    }

    /// A new ledger from user input: name, creation time, company key,
    /// comma separated groups, aliases and tags, and a note. The name and
    /// the company key must hold only alphanumerics, `-` and `_`; the
    /// creation time must parse as an instant in UTC; each group, alias and
    /// tag only alphanumerics, `-`, `_`, `.` and `:`.
    pub fn try_from(input: (String, String, String, String, String, String, String)) -> (r:
        Result<Ledger>)
        ensures
            match r {
                Ok(l) => {
                    &&& all_anuh(trim_seq(input.0@))
                    &&& chrono_parse_utc(trim_seq(input.1@)) == Some(
                        (l.created.sp_secs(), l.created.sp_nanos()),
                    )
                    &&& all_anuh(trim_seq(input.2@))
                    &&& items_anuhdc(csv_items(input.3@))
                    &&& items_anuhdc(csv_items(input.4@))
                    &&& items_anuhdc(csv_items(input.5@))
                    &&& l.name@ == trim_seq(input.0@)
                    &&& l.company@ == trim_seq(input.2@)
                    &&& l.groups.deep_view() == csv_items(input.3@)
                    &&& l.aliases.deep_view() == csv_items(input.4@)
                    &&& l.tags.deep_view() == csv_items(input.5@)
                    &&& l.note == input.6
                },
                Err(e) => if !all_anuh(trim_seq(input.0@)) {
                    is_invalid_input(e, "name"@)
                } else if chrono_parse_utc(trim_seq(input.1@)) is None {
                    is_invalid_input(e, "created"@)
                } else if !all_anuh(trim_seq(input.2@)) {
                    is_invalid_input(e, "company"@)
                } else if !items_anuhdc(csv_items(input.3@)) {
                    is_invalid_input(e, "groups"@)
                } else if !items_anuhdc(csv_items(input.4@)) {
                    is_invalid_input(e, "aliases"@)
                } else {
                    !items_anuhdc(csv_items(input.5@)) && is_invalid_input(e, "tags"@)
                },
            },
    {
        let (name, created, company_key, groups, aliases, tags, note) = input;
        let name = match check_name(&name, "name") {
            Ok(n) => n,
            Err(e) => return Err(e),
        };
        let created = match check_created(&created) {
            Ok(c) => c,
            Err(e) => return Err(e),
        };
        let company = match check_name(&company_key, "company") {
            Ok(c) => c,
            Err(e) => return Err(e),
        };
        let groups = match check_list(&groups, "groups") {
            Ok(v) => v,
            Err(e) => return Err(e),
        };
        let aliases = match check_list(&aliases, "aliases") {
            Ok(v) => v,
            Err(e) => return Err(e),
        };
        let tags = match check_list(&tags, "tags") {
            Ok(v) => v,
            Err(e) => return Err(e),
        };
        Ok(Ledger { name, created, updated: UtcTime::now(), company, groups, aliases, tags, note })
    }
}

impl Durable for Ledger {
    open spec fn type_spec(&self) -> Seq<char> {
        "ledger"@
    }

    open spec fn key_spec(&self) -> Seq<char> {
        prefixed(prefixed("ledger"@, self.company@), self.name@)
    }

    fn to_type(&self) -> (r: String) {
        text::str_to_string("ledger")
    }

    fn to_key(&self) -> (r: String) {
        let lk = KeyLedger::from_parts(
            (text::str_to_string(self.company.as_str()), text::str_to_string(self.name.as_str())),
        );
        lk.to_string()
    }
}

// ---------------------------------------------------------------------
// Journal entries.

/// Checks the names of a creditor's or a debitor's company, ledger and
/// commodity (the ledger first, then the company, then the commodity).
pub open spec fn party_error(company: Seq<char>, ledger: Seq<char>, commodity: Seq<char>, e: Error) -> bool {
    if !all_anuh(trim_seq(ledger)) {
        is_invalid_input(e, "ledger"@)
    } else if !all_anuh(trim_seq(company)) {
        is_invalid_input(e, "company"@)
    } else {
        !all_anuh(trim_seq(commodity)) && is_invalid_input(e, "commodity"@)
    }
}

/// The names are valid: they can make a creditor or a debitor.
pub open spec fn party_ok(company: Seq<char>, ledger: Seq<char>, commodity: Seq<char>) -> bool {
    all_anuh(trim_seq(ledger)) && all_anuh(trim_seq(company)) && all_anuh(trim_seq(commodity))
}

/// The ledger key and the commodity of a creditor or a debitor.
fn make_party(company_name: String, ledger_name: String, commodity_name: String, value_bits: u64)
    -> (r: Result<(KeyLedger, Commodity)>)
    ensures
        match r {
            Ok((lk, c)) => {
                &&& party_ok(company_name@, ledger_name@, commodity_name@)
                &&& lk@ == prefixed(
                    prefixed("ledger"@, trim_seq(company_name@)),
                    trim_seq(ledger_name@),
                )
                &&& c.name@ == trim_seq(commodity_name@)
                &&& c.value_bits == value_bits
                &&& c.symbol@ == Seq::<char>::empty()
                &&& c.aliases@.len() == 0
                &&& c.tags@.len() == 0
            },
            Err(e) => !party_ok(company_name@, ledger_name@, commodity_name@) && party_error(
                company_name@,
                ledger_name@,
                commodity_name@,
                e,
            ),
        },
{
    let ln = match check_name(&ledger_name, "ledger") {
        Ok(n) => n,
        Err(e) => return Err(e),
    };
    let cn = match check_name(&company_name, "company") {
        Ok(n) => n,
        Err(e) => return Err(e),
    };
    let lk = KeyLedger::from_parts((cn, ln));
    let commodity_name = match check_name(&commodity_name, "commodity") {
        Ok(n) => n,
        Err(e) => return Err(e),
    };
    Ok((lk, Commodity::new(commodity_name, value_bits)))
}

/// A ledger credited in a journal entry, and by how much.
#[derive(Clone)]
pub struct Creditor {
    pub ledger: KeyLedger,
    pub commodity: Commodity,
}

impl Creditor {
    /// A creditor from user input: company name, ledger name, commodity
    /// name (each trimmed, and holding only alphanumerics, `-` and `_`) and
    /// the IEEE-754 bits of the amount.
    pub fn try_from(input: (String, String, String, u64)) -> (r: Result<Creditor>)
        ensures
            match r {
                Ok(c) => {
                    &&& party_ok(input.0@, input.1@, input.2@)
                    &&& c.ledger@ == prefixed(
                        prefixed("ledger"@, trim_seq(input.0@)),
                        trim_seq(input.1@),
                    )
                    &&& c.commodity.name@ == trim_seq(input.2@)
                    &&& c.commodity.value_bits == input.3
                },
                Err(e) => !party_ok(input.0@, input.1@, input.2@) && party_error(
                    input.0@,
                    input.1@,
                    input.2@,
                    e,
                ),
            },
    {
        let (company_name, ledger_name, commodity_name, value) = input;
        match make_party(company_name, ledger_name, commodity_name, value) {
            Ok((ledger, commodity)) => Ok(Creditor { ledger, commodity }),
            Err(e) => Err(e),
        }
    }
}

/// A ledger debited in a journal entry, and by how much.
#[derive(Clone)]
pub struct Debitor {
    pub ledger: KeyLedger,
    pub commodity: Commodity,
}

impl Debitor {
    /// A debitor from user input: company name, ledger name, commodity
    /// name (each trimmed, and holding only alphanumerics, `-` and `_`) and
    /// the IEEE-754 bits of the amount.
    pub fn try_from(input: (String, String, String, u64)) -> (r: Result<Debitor>)
        ensures
            match r {
                Ok(d) => {
                    &&& party_ok(input.0@, input.1@, input.2@)
                    &&& d.ledger@ == prefixed(
                        prefixed("ledger"@, trim_seq(input.0@)),
                        trim_seq(input.1@),
                    )
                    &&& d.commodity.name@ == trim_seq(input.2@)
                    &&& d.commodity.value_bits == input.3
                },
                Err(e) => !party_ok(input.0@, input.1@, input.2@) && party_error(
                    input.0@,
                    input.1@,
                    input.2@,
                    e,
                ),
            },
    {
        let (company_name, ledger_name, commodity_name, value) = input;
        match make_party(company_name, ledger_name, commodity_name, value) {
            Ok((ledger, commodity)) => Ok(Debitor { ledger, commodity }),
            Err(e) => Err(e),
        }
    }
}

/// Calls `uuid::Uuid::new_v4` and takes its 128 bits. The value is random:
/// nothing is said of it.
#[verifier::external_body]
fn new_uuid() -> u128 {
    uuid::Uuid::new_v4().as_u128()
}

/// An entry of the journal: who was paid, when, and which ledgers were
/// credited and debited.
#[derive(Clone)]
pub struct JournalEntry {
    pub uuid: u128,
    pub payee: String,
    pub created: UtcTime,
    pub updated: UtcTime,
    pub creditors: Vec<Creditor>,
    pub debitors: Vec<Debitor>,
    pub tags: Vec<String>,
    pub note: String,
}

/// Two journal entries are equal when they were created at the same
/// instant.
impl PartialEq for JournalEntry {
    fn eq(&self, other: &Self) -> (r: bool) {
        self.created.secs() == other.created.secs() && self.created.nanos()
            == other.created.nanos()
    }
}

impl vstd::std_specs::cmp::PartialEqSpecImpl for JournalEntry {
    open spec fn obeys_eq_spec() -> bool {
        true
    }

    open spec fn eq_spec(&self, other: &Self) -> bool {
        self.created.sp_secs() == other.created.sp_secs() && self.created.sp_nanos()
            == other.created.sp_nanos()
    }
}

/// Journal entries are ordered by the instant they were created.
impl PartialOrd for JournalEntry {
    fn partial_cmp(&self, other: &Self) -> (r: Option<core::cmp::Ordering>) {
        let (a0, a1) = (self.created.secs(), self.created.nanos());
        let (b0, b1) = (other.created.secs(), other.created.nanos());
        if a0 < b0 || (a0 == b0 && a1 < b1) {
            Some(core::cmp::Ordering::Less)
        } else if a0 == b0 && a1 == b1 {
            Some(core::cmp::Ordering::Equal)
        } else {
            Some(core::cmp::Ordering::Greater)
        }
    }
}

impl vstd::std_specs::cmp::PartialOrdSpecImpl for JournalEntry {
    open spec fn obeys_partial_cmp_spec() -> bool {
        true
    }

    open spec fn partial_cmp_spec(&self, other: &Self) -> Option<core::cmp::Ordering> {
        let (a0, a1) = (self.created.sp_secs(), self.created.sp_nanos());
        let (b0, b1) = (other.created.sp_secs(), other.created.sp_nanos());
        if a0 < b0 || (a0 == b0 && a1 < b1) {
            Some(core::cmp::Ordering::Less)
        } else if a0 == b0 && a1 == b1 {
            Some(core::cmp::Ordering::Equal)
        } else {
            Some(core::cmp::Ordering::Greater)
        }
    }
}

impl Default for JournalEntry {
    fn default() -> (r: JournalEntry)
        ensures
            r.uuid == 0,
            r.payee@ == Seq::<char>::empty(),
            r.creditors@.len() == 0,
            r.debitors@.len() == 0,
            r.tags@.len() == 0,
            r.note@ == Seq::<char>::empty(),
    {
        JournalEntry {
            uuid: 0,
            payee: String::new(),
            created: UtcTime::now(),
            updated: UtcTime::now(),
            creditors: Vec::new(),
            debitors: Vec::new(),
            tags: Vec::new(),
            note: String::new(),
        }
    }
}

impl JournalEntry {
    /// A new entry paying `payee`, created at `created`, with a fresh
    /// random uuid.
    pub fn new(payee: String, created: UtcTime) -> (r: JournalEntry)
        ensures
            r.payee == payee,
            r.created == created,
            r.creditors@.len() == 0,
            r.debitors@.len() == 0,
            r.tags@.len() == 0,
            r.note@ == Seq::<char>::empty(),
    {
        JournalEntry {
            uuid: new_uuid(),
            payee,
            created,
            updated: UtcTime::now(),
            creditors: Vec::new(),
            debitors: Vec::new(),
            tags: Vec::new(),
            note: String::new(),
        }
    }

    /// An entry from user input: uuid, payee (trimmed), creation time
    /// (which must parse as an instant in UTC), comma separated tags (each
    /// only alphanumerics, `-`, `_`, `.` and `:`) and a note.
    pub fn try_from(input: (u128, String, String, String, String)) -> (r: Result<JournalEntry>)
        ensures
            match r {
                Ok(j) => {
                    &&& chrono_parse_utc(trim_seq(input.2@)) == Some(
                        (j.created.sp_secs(), j.created.sp_nanos()),
                    )
                    &&& items_anuhdc(csv_items(input.3@))
                    &&& j.uuid == input.0
                    &&& j.payee@ == trim_seq(input.1@)
                    &&& j.creditors@.len() == 0
                    &&& j.debitors@.len() == 0
                    &&& j.tags.deep_view() == csv_items(input.3@)
                    &&& j.note == input.4
                },
                Err(e) => if chrono_parse_utc(trim_seq(input.2@)) is None {
                    is_invalid_input(e, "created"@)
                } else {
                    !items_anuhdc(csv_items(input.3@)) && is_invalid_input(e, "tags"@)
                },
            },
    {
        let (uuid, payee, created, tags, note) = input;
        let payee = text::trim(payee.as_str());
        let created = match check_created(&created) {
            Ok(c) => c,
            Err(e) => return Err(e),
        };
        let tags = match check_list(&tags, "tags") {
            Ok(v) => v,
            Err(e) => return Err(e),
        };
        Ok(
            JournalEntry {
                uuid,
                payee,
                created,
                updated: UtcTime::now(),
                creditors: Vec::new(),
                debitors: Vec::new(),
                tags,
                note,
            },
        )
    }

    /// Adds a creditor made from the company, ledger and commodity names
    /// and the amount's bits; on invalid names nothing changes.
    pub fn add_creditor(&mut self, company: String, ledger: String, commodity: (String, u64)) -> (r:
        Result<()>)
        ensures
            match r {
                Ok(()) => {
                    &&& party_ok(company@, ledger@, commodity.0@)
                    &&& final(self).creditors@.len() == old(self).creditors@.len() + 1
                    &&& final(self).creditors@.take(old(self).creditors@.len() as int) == old(
                        self,
                    ).creditors@
                    &&& final(self).creditors@.last().ledger@ == prefixed(
                        prefixed("ledger"@, trim_seq(company@)),
                        trim_seq(ledger@),
                    )
                    &&& final(self).creditors@.last().commodity.name@ == trim_seq(commodity.0@)
                    &&& final(self).creditors@.last().commodity.value_bits == commodity.1
                },
                Err(e) => !party_ok(company@, ledger@, commodity.0@) && party_error(
                    company@,
                    ledger@,
                    commodity.0@,
                    e,
                ) && final(self).creditors == old(self).creditors,
            },
            final(self).debitors == old(self).debitors,
            final(self).uuid == old(self).uuid,
            final(self).payee == old(self).payee,
            final(self).created == old(self).created,
            final(self).tags == old(self).tags,
            final(self).note == old(self).note,
    {
        let creditor = match Creditor::try_from((company, ledger, commodity.0, commodity.1)) {
            Ok(c) => c,
            Err(e) => return Err(e),
        };
        self.creditors.push(creditor);
        assert(self.creditors@.take(old(self).creditors@.len() as int) =~= old(self).creditors@);
        Ok(())
    }

    /// Adds a debitor made from the company, ledger and commodity names
    /// and the amount's bits; on invalid names nothing changes.
    pub fn add_debitor(&mut self, company: String, ledger: String, commodity: (String, u64)) -> (r:
        Result<()>)
        ensures
            match r {
                Ok(()) => {
                    &&& party_ok(company@, ledger@, commodity.0@)
                    &&& final(self).debitors@.len() == old(self).debitors@.len() + 1
                    &&& final(self).debitors@.take(old(self).debitors@.len() as int) == old(
                        self,
                    ).debitors@
                    &&& final(self).debitors@.last().ledger@ == prefixed(
                        prefixed("ledger"@, trim_seq(company@)),
                        trim_seq(ledger@),
                    )
                    &&& final(self).debitors@.last().commodity.name@ == trim_seq(commodity.0@)
                    &&& final(self).debitors@.last().commodity.value_bits == commodity.1
                },
                Err(e) => !party_ok(company@, ledger@, commodity.0@) && party_error(
                    company@,
                    ledger@,
                    commodity.0@,
                    e,
                ) && final(self).debitors == old(self).debitors,
            },
            final(self).creditors == old(self).creditors,
            final(self).uuid == old(self).uuid,
            final(self).payee == old(self).payee,
            final(self).created == old(self).created,
            final(self).tags == old(self).tags,
            final(self).note == old(self).note,
    {
        let debitor = match Debitor::try_from((company, ledger, commodity.0, commodity.1)) {
            Ok(d) => d,
            Err(e) => return Err(e),
        };
        self.debitors.push(debitor);
        assert(self.debitors@.take(old(self).debitors@.len() as int) =~= old(self).debitors@);
        Ok(())
    }
}

/// The key of an entry: the day of its creation in UTC and its uuid.
pub open spec fn entry_key(created: UtcTime, uuid: u128) -> Seq<char> {
    let d = crate::datetime::chrono_utc_ymd(created.sp_secs(), created.sp_nanos())->0;
    journal_key_seq(d.0, d.1, d.2, uuid)
}

impl Durable for JournalEntry {
    open spec fn type_spec(&self) -> Seq<char> {
        "journalentry"@
    }

    open spec fn key_spec(&self) -> Seq<char> {
        entry_key(self.created, self.uuid)
    }

    fn to_type(&self) -> (r: String) {
        text::str_to_string("journalentry")
    }

    fn to_key(&self) -> (r: String) {
        let (y, m, d) = self.created.ymd();
        let jek = KeyJournalEntry::from_parts((y, m, d, self.uuid));
        jek.into_string()
    }
}

} // verus!
