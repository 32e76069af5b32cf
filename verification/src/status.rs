//! Counting accounts by status.

use std::collections::BTreeMap;
use vstd::prelude::*;
use vstd::multiset::Multiset;
use crate::text::{lower, lower_str, trim, trim_str};

verus! {

broadcast use vstd::seq_lib::group_to_multiset_ensures, vstd::multiset::group_multiset_axioms;

/// What a status-count map holds: each status (by its characters) and its count.
pub uninterp spec fn status_counts(m: BTreeMap<String, usize>) -> Map<Seq<char>, usize>;

/// An empty status-count map (`BTreeMap::new`).
#[verifier::external_body]
fn counts_new() -> (m: BTreeMap<String, usize>)
    ensures
        status_counts(m) =~= Map::empty(),
{
    BTreeMap::new()
}

/// The count stored for `key` (`BTreeMap::get`, keys compared by their characters).
#[verifier::external_body]
fn counts_get(m: &BTreeMap<String, usize>, key: &str) -> (r: Option<usize>)
    ensures
        match r {
            Some(n) => status_counts(*m).contains_key(key@) && status_counts(*m)[key@] == n,
            None => !status_counts(*m).contains_key(key@),
        },
{
    m.get(key).copied()
}

/// Stores `count` for `key`, replacing what was there (`BTreeMap::insert`).
#[verifier::external_body]
fn counts_insert(m: &mut BTreeMap<String, usize>, key: String, count: usize)
    ensures
        status_counts(*final(m)) == status_counts(*old(m)).insert(key@, count),
{
    m.insert(key, count);
}

/// How many accounts there are, and how many of them have each status.
#[derive(Debug, Default, Clone, PartialEq, Eq)]
pub struct StatusSummary {
    pub total: usize,
    pub by_status: BTreeMap<String, usize>,
}

impl StatusSummary {
    /// The count for each status that occurs.
    pub open spec fn counts(&self) -> Map<Seq<char>, usize> {
        status_counts(self.by_status)
    }
}

/// The key an account status is counted under: trimmed and in ASCII lower case.
pub open spec fn status_key(raw: Seq<char>) -> Seq<char> {
    lower(trim(raw))
}

/// The keys of the statuses that are counted, in order: blank ones are skipped.
pub open spec fn counted_statuses(items: Seq<Seq<char>>) -> Seq<Seq<char>>
    decreases items.len(),
{
    if items.len() == 0 {
        seq![]
    } else {
        let rest = counted_statuses(items.drop_last());
        if trim(items.last()).len() == 0 {
            rest
        } else {
            rest.push(status_key(items.last()))
        }
    }
}

proof fn lemma_counted_len(items: Seq<Seq<char>>)
    ensures
        counted_statuses(items).len() <= items.len(),
    decreases items.len(),
{
    if items.len() > 0 {
        lemma_counted_len(items.drop_last());
    }
}

pub open spec fn strs_view(items: Seq<&str>) -> Seq<Seq<char>> {
    items.map_values(|s: &str| s@)
}

/// `summary` counts exactly the non-blank statuses of `items`, by key.
pub open spec fn summarizes(summary: StatusSummary, items: Seq<Seq<char>>) -> bool {
    let keys = counted_statuses(items);
    &&& summary.total == keys.len()
    &&& forall|k: Seq<char>| #[trigger]
        summary.counts().contains_key(k) <==> keys.contains(k)
    &&& forall|k: Seq<char>| #[trigger]
        summary.counts().contains_key(k) ==> summary.counts()[k] == keys.to_multiset().count(k)
}

/// Counts the statuses in `items`: blank ones are skipped, the others are
/// trimmed and lowered and counted under that key.
pub fn summarize_statuses(items: &[&str]) -> (summary: StatusSummary)
    ensures
        summarizes(summary, strs_view(items@)),
{
    let mut by_status = counts_new();
    let mut total: usize = 0;
    let ghost all = strs_view(items@);
    let mut i: usize = 0;
    while i < items.len()
        invariant
            i <= items.len(),
            all == strs_view(items@),
            total == counted_statuses(all.take(i as int)).len(),
            forall|k: Seq<char>| #[trigger]
                status_counts(by_status).contains_key(k) <==> counted_statuses(
                    all.take(i as int),
                ).contains(k),
            forall|k: Seq<char>| #[trigger]
                status_counts(by_status).contains_key(k) ==> status_counts(by_status)[k]
                    == counted_statuses(all.take(i as int)).to_multiset().count(k),
        decreases items.len() - i,
    {
        let ghost before = counted_statuses(all.take(i as int));
        proof {
            lemma_counted_len(all.take(i as int));
            assert(before.to_multiset().len() == before.len());
        }
        assert(all.take(i + 1).drop_last() =~= all.take(i as int));
        assert(all.take(i + 1).last() == items[i as int]@);
        let raw = trim_str(items[i]);
        if !raw.as_str().is_empty() {
            let key = lower_str(raw.as_str());
            let ghost after = before.push(key@);
            assert(counted_statuses(all.take(i + 1)) == after);
            let n = match counts_get(&by_status, key.as_str()) {
                Some(n) => n,
                None => 0,
            };
            assert(n == before.to_multiset().count(key@));
            assert(n <= before.len());
            counts_insert(&mut by_status, key, n + 1);
            total += 1;
            assert forall|k: Seq<char>| #[trigger]
                status_counts(by_status).contains_key(k) implies status_counts(by_status)[k]
                    == after.to_multiset().count(k) by {
                if k != key@ {
                    assert(after.to_multiset().count(k) == before.to_multiset().count(k));
                }
            }
            assert forall|k: Seq<char>|
                #[trigger] status_counts(by_status).contains_key(k) <==> after.contains(k) by {
                if k != key@ {
                    assert(after.to_multiset().count(k) == before.to_multiset().count(k));
                    assert(after.contains(k) <==> after.to_multiset().count(k) > 0);
                    assert(before.contains(k) <==> before.to_multiset().count(k) > 0);
                } else {
                    assert(after[after.len() - 1] == k);
                }
            }
        } else {
            assert(counted_statuses(all.take(i + 1)) == before);
        }
        i += 1;
    }
    assert(all.take(items.len() as int) =~= all);
    StatusSummary { total, by_status }
}

proof fn lemma_counted_concat(a: Seq<Seq<char>>, b: Seq<Seq<char>>)
    ensures
        counted_statuses(a + b) == counted_statuses(a) + counted_statuses(b),
    decreases b.len(),
{
    if b.len() == 0 {
        assert(a + b =~= a);
        assert(counted_statuses(a) + counted_statuses(b) =~= counted_statuses(a));
    } else {
        assert((a + b).drop_last() =~= a + b.drop_last());
        assert((a + b).last() == b.last());
        lemma_counted_concat(a, b.drop_last());
        if trim(b.last()).len() != 0 {
            assert(counted_statuses(a) + counted_statuses(b) =~= (counted_statuses(a)
                + counted_statuses(b.drop_last())).push(status_key(b.last())));
        }
    }
}

/// Blank statuses leave a summary as it is.
pub proof fn lemma_blank_status_ignored(summary: StatusSummary, items: Seq<Seq<char>>, blank: Seq<char>)
    requires
        trim(blank).len() == 0,
    ensures
        summarizes(summary, items.push(blank)) == summarizes(summary, items),
{
    assert(items.push(blank).drop_last() =~= items);
}

proof fn lemma_counted_multiset(a: Seq<Seq<char>>, b: Seq<Seq<char>>)
    requires
        a.to_multiset() == b.to_multiset(),
    ensures
        counted_statuses(a).to_multiset() == counted_statuses(b).to_multiset(),
    decreases a.len(),
{
    broadcast use vstd::seq_lib::lemma_multiset_commutative;

    if a.len() == 0 {
        assert(b.to_multiset().len() == 0);
        assert(b =~= a);
    } else {
        let x = a.last();
        let a1 = a.drop_last();
        assert(a1.push(x) =~= a);
        assert(a.to_multiset().count(x) > 0);
        assert(b.contains(x));
        let j = choose|j: int| 0 <= j < b.len() && b[j] == x;
        let b1 = b.remove(j);
        assert(b1.to_multiset() =~= b.to_multiset().remove(x));
        assert(a1.to_multiset() =~= a.to_multiset().remove(x));
        lemma_counted_multiset(a1, b1);
        let front = b.take(j);
        let back = b.skip(j + 1);
        assert(b =~= front + seq![x] + back);
        assert(b1 =~= front + back);
        assert(a =~= a1 + seq![x]);
        lemma_counted_concat(a1, seq![x]);
        lemma_counted_concat(front + seq![x], back);
        lemma_counted_concat(front, seq![x]);
        lemma_counted_concat(front, back);
        let cx = counted_statuses(seq![x]);
        let cf = counted_statuses(front);
        let cb = counted_statuses(back);
        assert(counted_statuses(b).to_multiset() =~= cf.to_multiset().add(cx.to_multiset()).add(
            cb.to_multiset(),
        ));
        assert(counted_statuses(b1).to_multiset() =~= cf.to_multiset().add(cb.to_multiset()));
        assert(counted_statuses(a).to_multiset() =~= counted_statuses(a1).to_multiset().add(
            cx.to_multiset(),
        ));
        assert(counted_statuses(a).to_multiset() =~= counted_statuses(b).to_multiset());
    }
}

/// The order in which statuses come does not matter: lists holding the same
/// statuses, each as often, have the same summaries.
pub proof fn lemma_summary_order_free(summary: StatusSummary, a: Seq<Seq<char>>, b: Seq<Seq<char>>)
    requires
        a.to_multiset() == b.to_multiset(),
    ensures
        summarizes(summary, a) == summarizes(summary, b),
{
    lemma_counted_multiset(a, b);
    let ca = counted_statuses(a);
    let cb = counted_statuses(b);
    assert(ca.len() == cb.len()) by {
        assert(ca.len() == ca.to_multiset().len());
        assert(cb.len() == cb.to_multiset().len());
    }
    assert forall|k: Seq<char>| ca.contains(k) <==> cb.contains(k) by {
        assert(ca.contains(k) <==> ca.to_multiset().count(k) > 0);
        assert(cb.contains(k) <==> cb.to_multiset().count(k) > 0);
    }
}

/// The counts of a summary read as a multiset of statuses.
pub open spec fn counts_multiset(counts: Map<Seq<char>, usize>) -> Multiset<Seq<char>> {
    Multiset::from_map(counts.map_values(|n: usize| n as nat))
}

/// The counts add up to the total: read as a multiset they are the counted
/// statuses, and the total is that multiset's size.
pub proof fn lemma_counts_add_up(summary: StatusSummary, items: Seq<Seq<char>>)
    requires
        summarizes(summary, items),
    ensures
        counts_multiset(summary.counts()) == counted_statuses(items).to_multiset(),
        summary.total == counts_multiset(summary.counts()).len(),
{
    broadcast use vstd::seq_lib::seq_to_set_is_finite;

    let keys = counted_statuses(items);
    let m = summary.counts().map_values(|n: usize| n as nat);
    assert(m.dom() =~= keys.to_set());
    assert forall|k: Seq<char>| #[trigger] Multiset::from_map(m).count(k) == keys.to_multiset().count(k) by {
        if m.dom().contains(k) {
            assert(summary.counts().contains_key(k));
        } else {
            assert(!keys.contains(k));
        }
    }
    assert(counts_multiset(summary.counts()) =~= keys.to_multiset());
}

} // verus!
