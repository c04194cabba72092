//! Aggregates kept over the journal: the companies that journal entries
//! name, with a count for each.
use vstd::prelude::*;

use crate::text::{split_seq, str_lt};
use crate::types::JournalEntry;

verus! {

#[verifier::external_type_specification]
#[verifier::external_body]
#[verifier::reject_recursive_types(K)]
#[verifier::reject_recursive_types(V)]
pub struct ExLlrb<K: Clone + Ord, V: Clone>(llrb_index::Llrb<K, V>);

/// An index of company names to counts.
pub type CompanyIndex = llrb_index::Llrb<String, usize>;

/// The entries, company name to count, that an index holds.
pub uninterp spec fn llrb_entries(m: CompanyIndex) -> Map<Seq<char>, usize>;

/// The entries of an index as its iterator yields them.
pub uninterp spec fn llrb_listing(m: CompanyIndex) -> Seq<(Seq<char>, usize)>;

/// `s` lists the entries of `m`, each once, in increasing order of the
/// keys.
pub open spec fn lists_in_order(s: Seq<(Seq<char>, usize)>, m: Map<Seq<char>, usize>) -> bool {
    &&& forall|i: int| 0 <= i < s.len() ==> m.contains_key(#[trigger] s[i].0) && m[s[i].0] == s[i].1
    &&& forall|k: Seq<char>| m.contains_key(k) ==> exists|i: int| 0 <= i < s.len() && #[trigger] s[i].0 == k
    &&& forall|i: int, j: int| 0 <= i < j < s.len() ==> str_lt(#[trigger] s[i].0, #[trigger] s[j].0)
}

/// Calls `Llrb::new`: an index with no entries.
#[verifier::external_body]
fn llrb_new(name: &str) -> (r: CompanyIndex)
    ensures
        llrb_entries(r).dom() == Set::<Seq<char>>::empty(),
{
    llrb_index::Llrb::new(name)
}

/// Calls `Llrb::get`: a copy of the value for `key`, if there is one.
#[verifier::external_body]
fn llrb_get(m: &CompanyIndex, key: &str) -> (r: Option<usize>)
    ensures
        r == if llrb_entries(*m).contains_key(key@) {
            Some(llrb_entries(*m)[key@])
        } else {
            None
        },
{
    m.get(key)
}

/// Calls `Llrb::set`: `key` maps to `value` afterwards, the other entries
/// stay, and the old value for `key`, if any, is returned.
#[verifier::external_body]
fn llrb_set(m: &mut CompanyIndex, key: String, value: usize) -> (r: Option<usize>)
    ensures
        llrb_entries(*final(m)) == llrb_entries(*old(m)).insert(key@, value),
        r == if llrb_entries(*old(m)).contains_key(key@) {
            Some(llrb_entries(*old(m))[key@])
        } else {
            None
        },
{
    m.set(key, value)
}

/// Calls `Llrb::iter` and collects what it yields: the source walks the
/// tree in order, so each entry comes once, in increasing order of the
/// keys (the order of `str`).
#[verifier::external_body]
fn llrb_iter(m: &CompanyIndex) -> (r: Vec<(String, usize)>)
    ensures
        r@.map_values(|e: (String, usize)| (e.0@, e.1)) == llrb_listing(*m),
        lists_in_order(r@.map_values(|e: (String, usize)| (e.0@, e.1)), llrb_entries(*m)),
{
    m.iter().collect()
}

/// Entry `i` of `s` comes before entry `j` when ordered by count, and
/// entries of the same count keep their order.
pub open spec fn count_before(s: Seq<(Seq<char>, usize)>, i: int, j: int) -> bool {
    s[i].1 < s[j].1 || (s[i].1 == s[j].1 && i < j)
}

/// `p` holds the positions of `s`, each once, ordered by count (a stable
/// sort by count).
pub open spec fn count_order(s: Seq<(Seq<char>, usize)>, p: Seq<int>) -> bool {
    &&& p.len() == s.len()
    &&& forall|k: int| 0 <= k < p.len() ==> 0 <= #[trigger] p[k] < s.len()
    &&& forall|a: int, b: int| 0 <= a < b < p.len() ==> count_before(s, #[trigger] p[a], #[trigger] p[b])
}

/// The company named by a ledger key: the part after `ledger-`.
pub open spec fn key_company(k: Seq<char>) -> Seq<char> {
    split_seq(k, '-')[1]
}

/// A ledger key that reads back into a company and a ledger.
pub open spec fn ledger_key_ok(k: Seq<char>) -> bool {
    split_seq(k, '-').len() == 3 && split_seq(k, '-')[0] == "ledger"@
}

/// The companies that an entry names: those of its creditors, then those
/// of its debitors.
pub open spec fn named_companies(doc: JournalEntry) -> Seq<Seq<char>> {
    doc.creditors@.map_values(|c: crate::types::Creditor| key_company(c.ledger@)) + doc.debitors@.map_values(
        |d: crate::types::Debitor| key_company(d.ledger@),
    )
}

/// The companies that journal entries name, each with a count.
pub struct FrequentlyUsedCompanies {
    companies: CompanyIndex,
}

impl FrequentlyUsedCompanies {
    /// The companies and their counts.
    pub closed spec fn counts(&self) -> Map<Seq<char>, usize> {
        llrb_entries(self.companies)
    }

    /// The companies and their counts, in the order of their names.
    pub closed spec fn listing(&self) -> Seq<(Seq<char>, usize)> {
        llrb_listing(self.companies)
    }

    /// No company yet.
    pub fn new() -> (r: FrequentlyUsedCompanies)
        ensures
            r.counts() == Map::<Seq<char>, usize>::empty(),
    {
        let r = FrequentlyUsedCompanies { companies: llrb_new("frequently-used-companies") };
        assert(r.counts() =~= Map::<Seq<char>, usize>::empty());
        r
    }

    /// The names of at most `limit` companies: those that come first when
    /// the companies, in the order of their names, are sorted by count.
    pub fn frequent_companies(&self, limit: usize) -> (r: Vec<String>)
        ensures
            exists|p: Seq<int>|
                count_order(self.listing(), p) && #[trigger] r.deep_view() == p.take(
                    if limit < p.len() {
                        limit as int
                    } else {
                        p.len() as int
                    },
                ).map_values(|i: int| self.listing()[i].0),
    {
        let items = llrb_iter(&self.companies);
        let ghost s = self.listing();
        assert(items@.len() == s.len()) by {
            assert(items@.map_values(|e: (String, usize)| (e.0@, e.1)).len() == items@.len());
        }
        let n = items.len();
        // Insertion sort of the positions, by count; ties keep their order.
        let mut order: Vec<usize> = Vec::new();
        let mut i: usize = 0;
        while i < n
            invariant
                i <= n,
                n == items@.len(),
                n == s.len(),
                s == items@.map_values(|e: (String, usize)| (e.0@, e.1)),
                order@.len() == i,
                forall|k: int| 0 <= k < i ==> #[trigger] order@[k] < i,
                forall|a: int, b: int|
                    0 <= a < b < i ==> count_before(s, #[trigger] order@[a] as int, #[trigger] order@[b] as int),
            decreases n - i,
        {
            let c = items[i].1;
            let mut k: usize = 0;
            while k < order.len() && items[order[k]].1 <= c
                invariant
                    k <= order@.len(),
                    order@.len() == i,
                    i < n,
                    n == items@.len(),
                    c == items@[i as int].1,
                    forall|q: int| 0 <= q < i ==> #[trigger] order@[q] < i,
                    forall|q: int| 0 <= q < k ==> items@[#[trigger] order@[q] as int].1 <= c,
                decreases order@.len() - k,
            {
                k = k + 1;
            }
            let ghost before = order@;
            order.insert(k, i);
            proof {
                assert forall|q: int| 0 <= q < i + 1 implies #[trigger] order@[q] < i + 1 by {
                    if q < k {
                        assert(order@[q] == before[q]);
                    } else if q > k {
                        assert(order@[q] == before[q - 1]);
                    }
                }
                assert forall|a: int, b: int|
                    0 <= a < b < i + 1 implies count_before(
                    s,
                    #[trigger] order@[a] as int,
                    #[trigger] order@[b] as int,
                ) by {
                    assert(s[order@[a] as int].1 == items@[order@[a] as int].1);
                    assert(s[order@[b] as int].1 == items@[order@[b] as int].1);
                    if b < k {
                        assert(order@[a] == before[a] && order@[b] == before[b]);
                    } else if b == k {
                        assert(order@[a] == before[a]);
                        assert(items@[before[a] as int].1 <= c);
                    } else if a == k {
                        assert(order@[b] == before[b - 1]);
                        if k < before.len() {
                            assert(items@[before[k as int] as int].1 > c);
                            if b - 1 > k {
                                assert(count_before(s, before[k as int] as int, before[b - 1] as int));
                            }
                        }
                    } else if a < k {
                        assert(order@[a] == before[a] && order@[b] == before[b - 1]);
                    } else {
                        assert(order@[a] == before[a - 1] && order@[b] == before[b - 1]);
                    }
                }
            }
            i = i + 1;
        }
        let ghost p = order@.map_values(|x: usize| x as int);
        let m = if limit < n {
            limit
        } else {
            n
        };
        let mut r: Vec<String> = Vec::new();
        let mut j: usize = 0;
        while j < m
            invariant
                j <= m <= n,
                n == order@.len(),
                n == items@.len(),
                s == items@.map_values(|e: (String, usize)| (e.0@, e.1)),
                p == order@.map_values(|x: usize| x as int),
                forall|k: int| 0 <= k < n ==> #[trigger] order@[k] < n,
                r.deep_view() == p.take(j as int).map_values(|x: int| s[x].0),
            decreases m - j,
        {
            let name = crate::text::str_to_string(items[order[j]].0.as_str());
            let ghost dv0 = r.deep_view();
            r.push(name);
            proof {
                assert(s[p[j as int]].0 == items@[order@[j as int] as int].0@);
                assert(r.deep_view() =~= dv0.push(s[p[j as int]].0));
                assert(p.take(j + 1) =~= p.take(j as int).push(p[j as int]));
                assert(r.deep_view() =~= p.take(j + 1).map_values(|x: int| s[x].0));
            }
            j = j + 1;
        }
        proof {
            assert(count_order(s, p));
        }
        r
    }

    /// Takes a journal entry into account: each company that its creditors
    /// and debitors name is counted once it is named (a company already
    /// counted keeps its count).
    pub fn reduce(&mut self, doc: &JournalEntry)
        requires
            forall|i: int|
                0 <= i < doc.creditors@.len() ==> ledger_key_ok(#[trigger] doc.creditors@[i].ledger@),
            forall|i: int|
                0 <= i < doc.debitors@.len() ==> ledger_key_ok(#[trigger] doc.debitors@[i].ledger@),
        ensures
            forall|k: Seq<char>|
                #[trigger] final(self).counts().contains_key(k) <==> old(self).counts().contains_key(k)
                    || named_companies(*doc).contains(k),
            forall|k: Seq<char>|
                #[trigger] final(self).counts().contains_key(k) ==> final(self).counts()[k] == if old(
                    self,
                ).counts().contains_key(k) {
                    old(self).counts()[k]
                } else {
                    1
                },
    {
        let ghost names = named_companies(*doc);
        let nc = doc.creditors.len();
        let mut i: usize = 0;
        while i < nc
            invariant
                i <= nc,
                nc == doc.creditors@.len(),
                forall|q: int|
                    0 <= q < doc.creditors@.len() ==> ledger_key_ok(#[trigger] doc.creditors@[q].ledger@),
                forall|k: Seq<char>|
                    #[trigger] self.counts().contains_key(k) <==> old(self).counts().contains_key(k)
                        || names.take(i as int).contains(k),
                forall|k: Seq<char>|
                    #[trigger] self.counts().contains_key(k) ==> self.counts()[k] == if old(
                        self,
                    ).counts().contains_key(k) {
                        old(self).counts()[k]
                    } else {
                        1
                    },
                names == named_companies(*doc),
            decreases nc - i,
        {
            let (cname, _) = doc.creditors[i].ledger.copy().into_parts();
            self.count(cname);
            proof {
                assert(names[i as int] == cname@);
                lemma_take_push(names, i as int);
            }
            i = i + 1;
        }
        let nd = doc.debitors.len();
        let mut j: usize = 0;
        while j < nd
            invariant
                j <= nd,
                nd == doc.debitors@.len(),
                nc == doc.creditors@.len(),
                forall|q: int|
                    0 <= q < doc.debitors@.len() ==> ledger_key_ok(#[trigger] doc.debitors@[q].ledger@),
                forall|k: Seq<char>|
                    #[trigger] self.counts().contains_key(k) <==> old(self).counts().contains_key(k)
                        || names.take(nc + j).contains(k),
                forall|k: Seq<char>|
                    #[trigger] self.counts().contains_key(k) ==> self.counts()[k] == if old(
                        self,
                    ).counts().contains_key(k) {
                        old(self).counts()[k]
                    } else {
                        1
                    },
                names == named_companies(*doc),
                names.len() == nc + nd,
            decreases nd - j,
        {
            let (cname, _) = doc.debitors[j].ledger.copy().into_parts();
            self.count(cname);
            proof {
                let t = nc + j;
                assert(names[t] == cname@);
                lemma_take_push(names, t);
                assert forall|k: Seq<char>|
                    #[trigger] self.counts().contains_key(k) <==> old(self).counts().contains_key(k)
                        || names.take(t + 1).contains(k) by {
                    assert(names.take(t + 1).contains(k) <==> names.take(t).contains(k)
                        || names[t] == k);
                }
            }
            j = j + 1;
        }
        proof {
            assert(names.take(nc + nd) =~= names);
        }
    }

    /// Counts the company `cname`: its count if it has one, else 1.
    fn count(&mut self, cname: String)
        ensures
            final(self).counts() == old(self).counts().insert(
                cname@,
                if old(self).counts().contains_key(cname@) {
                    old(self).counts()[cname@]
                } else {
                    1
                },
            ),
    {
        let n = match llrb_get(&self.companies, cname.as_str()) {
            Some(n) => n,
            None => 1,
        };
        llrb_set(&mut self.companies, cname, n);
    }
}

/// What the first `i + 1` names hold: those of the first `i`, and name `i`.
proof fn lemma_take_push(names: Seq<Seq<char>>, i: int)
    requires
        0 <= i < names.len(),
    ensures
        forall|k: Seq<char>|
            #[trigger] names.take(i + 1).contains(k) <==> names.take(i).contains(k) || names[i] == k,
{
    assert(names.take(i + 1) =~= names.take(i).push(names[i]));
    assert forall|k: Seq<char>|
        #[trigger] names.take(i + 1).contains(k) <==> names.take(i).contains(k) || names[i] == k by {
        if names.take(i + 1).contains(k) {
            let q = choose|q: int| 0 <= q < names.take(i + 1).len() && #[trigger] names.take(i + 1)[q] == k;
            if q < i {
                assert(names.take(i)[q] == k);
            }
        }
        if names.take(i).contains(k) {
            let q = choose|q: int| 0 <= q < names.take(i).len() && #[trigger] names.take(i)[q] == k;
            assert(names.take(i + 1)[q] == k);
        }
        if names[i] == k {
            assert(names.take(i + 1)[i] == k);
        }
    }
}

} // verus!
