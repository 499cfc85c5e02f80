//! The change feed of hyperlinks: updates and deletions since a cursor,
//! merged into one list, oldest first.
use vstd::prelude::*;
use vstd::seq_lib::{to_multiset_build, to_multiset_insert};

use crate::maintenance::HyperlinkChangeType;
use crate::timestamps::Timestamp;

verus! {

/// One entry of the feed: a hyperlink that was updated or deleted, and when.
#[derive(Clone, Copy, Debug, PartialEq, Eq, Structural)]
pub struct HyperlinkChange {
    pub id: i32,
    pub change_type: HyperlinkChangeType,
    pub updated_at: Timestamp,
}

/// Time order: by year, month, day, hour, minute, second, then nanosecond.
pub open spec fn ts_before(a: Timestamp, b: Timestamp) -> bool {
    a.year < b.year || (a.year == b.year && (a.month < b.month || (a.month == b.month && (a.day
        < b.day || (a.day == b.day && (a.hour < b.hour || (a.hour == b.hour && (a.minute < b.minute
        || (a.minute == b.minute && (a.second < b.second || (a.second == b.second && a.nanosecond
        < b.nanosecond)))))))))))
}

pub open spec fn rank(t: HyperlinkChangeType) -> int {
    match t {
        HyperlinkChangeType::Updated => 0,
        HyperlinkChangeType::Deleted => 1,
    }
}

/// Feed order: older first; at the same time, lower hyperlink id first;
/// for the same hyperlink, its update before its deletion.
pub open spec fn change_before(a: HyperlinkChange, b: HyperlinkChange) -> bool {
    ts_before(a.updated_at, b.updated_at) || (a.updated_at == b.updated_at && (a.id < b.id || (a.id
        == b.id && rank(a.change_type) < rank(b.change_type))))
}

/// No entry comes before one that precedes it.
pub open spec fn changes_sorted(s: Seq<HyperlinkChange>) -> bool {
    forall|i: int, j: int| 0 <= i < j < s.len() ==> !change_before(#[trigger] s[j], #[trigger] s[i])
}

pub open spec fn updated_entry(u: (i32, Timestamp)) -> HyperlinkChange {
    HyperlinkChange { id: u.0, change_type: HyperlinkChangeType::Updated, updated_at: u.1 }
}

pub open spec fn deleted_entry(d: (i32, Timestamp)) -> HyperlinkChange {
    HyperlinkChange { id: d.0, change_type: HyperlinkChangeType::Deleted, updated_at: d.1 }
}

/// The entries of the feed, before ordering: each updated hyperlink (id,
/// time of update), then each deletion (id, time of deletion).
pub open spec fn feed_entries(updated: Seq<(i32, Timestamp)>, deleted: Seq<(i32, Timestamp)>) -> Seq<
    HyperlinkChange,
> {
    updated.map_values(|u: (i32, Timestamp)| updated_entry(u)) + deleted.map_values(
        |d: (i32, Timestamp)| deleted_entry(d),
    )
}

proof fn lemma_ts_order(a: Timestamp, b: Timestamp, c: Timestamp)
    ensures
        !ts_before(a, a),
        ts_before(a, b) ==> !ts_before(b, a),
        ts_before(a, b) && ts_before(b, c) ==> ts_before(a, c),
        !ts_before(a, b) && !ts_before(b, a) ==> a == b,
{
}

/// Feed order is a strict total order on entries.
pub proof fn lemma_change_order(a: HyperlinkChange, b: HyperlinkChange, c: HyperlinkChange)
    ensures
        !change_before(a, a),
        change_before(a, b) ==> !change_before(b, a),
        change_before(a, b) && change_before(b, c) ==> change_before(a, c),
        !change_before(a, b) && !change_before(b, a) ==> a == b,
{
    lemma_ts_order(a.updated_at, b.updated_at, c.updated_at);
    lemma_ts_order(b.updated_at, a.updated_at, c.updated_at);
}

proof fn lemma_insert_sorted(s: Seq<HyperlinkChange>, p: int, x: HyperlinkChange)
    requires
        changes_sorted(s),
        0 <= p <= s.len(),
        forall|m: int| 0 <= m < p ==> !change_before(x, #[trigger] s[m]),
        p < s.len() ==> change_before(x, s[p]),
    ensures
        changes_sorted(s.insert(p, x)),
{
    let t = s.insert(p, x);
    assert forall|i: int, j: int| 0 <= i < j < t.len() implies !change_before(
        #[trigger] t[j],
        #[trigger] t[i],
    ) by {
        if i == p {
            lemma_change_order(s[j - 1], x, s[p]);
            if j - 1 > p {
                assert(!change_before(s[j - 1], s[p]));
            }
        } else if j == p {
            assert(t[i] == s[i]);
        } else if i < p && j < p {
            assert(t[i] == s[i] && t[j] == s[j]);
        } else if i < p && j > p {
            assert(t[i] == s[i] && t[j] == s[j - 1]);
        } else {
            assert(t[i] == s[i - 1] && t[j] == s[j - 1]);
        }
    }
}

fn ts_is_before(a: &Timestamp, b: &Timestamp) -> (r: bool)
    ensures
        r == ts_before(*a, *b),
{
    a.year < b.year || (a.year == b.year && (a.month < b.month || (a.month == b.month && (a.day
        < b.day || (a.day == b.day && (a.hour < b.hour || (a.hour == b.hour && (a.minute < b.minute
        || (a.minute == b.minute && (a.second < b.second || (a.second == b.second && a.nanosecond
        < b.nanosecond)))))))))))
}

fn same_time(a: &Timestamp, b: &Timestamp) -> (r: bool)
    ensures
        r == (*a == *b),
{
    a.year == b.year && a.month == b.month && a.day == b.day && a.hour == b.hour && a.minute
        == b.minute && a.second == b.second && a.nanosecond == b.nanosecond
}

fn is_before(a: &HyperlinkChange, b: &HyperlinkChange) -> (r: bool)
    ensures
        r == change_before(*a, *b),
{
    ts_is_before(&a.updated_at, &b.updated_at) || (same_time(&a.updated_at, &b.updated_at) && (a.id
        < b.id || (a.id == b.id && a.change_type.sort_rank() < b.change_type.sort_rank())))
}

/// The feed: every update and every deletion exactly once, in feed order.
pub fn order_hyperlink_changes(updated: &Vec<(i32, Timestamp)>, deleted: &Vec<(i32, Timestamp)>) -> (r:
    Vec<HyperlinkChange>)
    ensures
        changes_sorted(r@),
        r@.to_multiset() == feed_entries(updated@, deleted@).to_multiset(),
{
    let mut all: Vec<HyperlinkChange> = Vec::new();
    let mut i: usize = 0;
    while i < updated.len()
        invariant
            i <= updated.len(),
            all@ == updated@.take(i as int).map_values(|u: (i32, Timestamp)| updated_entry(u)),
        decreases updated.len() - i,
    {
        all.push(HyperlinkChange { id: updated[i].0, change_type: HyperlinkChangeType::Updated, updated_at: updated[i].1 });
        i += 1;
        assert(all@ =~= updated@.take(i as int).map_values(|u: (i32, Timestamp)| updated_entry(u)));
    }
    assert(updated@.take(i as int) =~= updated@);
    let mut k: usize = 0;
    while k < deleted.len()
        invariant
            k <= deleted.len(),
            all@ == updated@.map_values(|u: (i32, Timestamp)| updated_entry(u)) + deleted@.take(
                k as int,
            ).map_values(|d: (i32, Timestamp)| deleted_entry(d)),
        decreases deleted.len() - k,
    {
        all.push(HyperlinkChange { id: deleted[k].0, change_type: HyperlinkChangeType::Deleted, updated_at: deleted[k].1 });
        k += 1;
        assert(all@ =~= updated@.map_values(|u: (i32, Timestamp)| updated_entry(u)) + deleted@.take(
            k as int,
        ).map_values(|d: (i32, Timestamp)| deleted_entry(d)));
    }
    assert(deleted@.take(k as int) =~= deleted@);
    assert(all@ == feed_entries(updated@, deleted@));

    let mut out: Vec<HyperlinkChange> = Vec::new();
    let mut n: usize = 0;
    assert(all@.take(0) =~= out@);
    while n < all.len()
        invariant
            n <= all.len(),
            changes_sorted(out@),
            out@.to_multiset() == all@.take(n as int).to_multiset(),
            out@.len() == n,
        decreases all.len() - n,
    {
        let x = all[n];
        let mut p: usize = 0;
        while p < out.len() && !is_before(&x, &out[p])
            invariant
                p <= out.len(),
                forall|m: int| 0 <= m < p ==> !change_before(x, #[trigger] out@[m]),
            decreases out.len() - p,
        {
            p += 1;
        }
        proof {
            lemma_insert_sorted(out@, p as int, x);
            to_multiset_insert(out@, p as int, x);
            to_multiset_build(all@.take(n as int), x);
            assert(all@.take(n + 1) =~= all@.take(n as int).push(x));
        }
        out.insert(p, x);
        n += 1;
    }
    assert(all@.take(n as int) =~= all@);
    out
}

/// The time the feed is current up to: that of its last entry, else now.
pub fn server_updated_at(changes: &Vec<HyperlinkChange>, now: Timestamp) -> (r: Timestamp)
    ensures
        r == (if changes@.len() > 0 {
            changes@.last().updated_at
        } else {
            now
        }),
{
    if changes.len() > 0 {
        changes[changes.len() - 1].updated_at
    } else {
        now
    }
}

/// The feed holds every update and deletion once, and no entry of it
/// comes before an earlier one; so its last entry is the latest change.
pub proof fn law_feed_ends_with_latest_change(s: Seq<HyperlinkChange>, j: int)
    requires
        changes_sorted(s),
        0 <= j < s.len(),
    ensures
        !change_before(s.last(), s[j]),
        !ts_before(s.last().updated_at, s[j].updated_at),
{
    if j < s.len() - 1 {
        assert(!change_before(s[s.len() - 1], s[j]));
    } else {
        lemma_change_order(s[j], s[j], s[j]);
    }
}

} // verus!
