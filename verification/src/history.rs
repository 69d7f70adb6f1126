//! The wakeup history log: newest first, one entry per id, at most
//! `MAX_HISTORY_ITEMS` entries.

use crate::text::{blank, is_blank};
use crate::vecs::reversed;
use vstd::prelude::*;
use vstd::string::*;

verus! {

/// The number of entries that the log retains.
pub const MAX_HISTORY_ITEMS: usize = 100;

/// One recorded wakeup.
#[derive(Debug, Clone, PartialEq, Eq)]
pub struct WakeupHistoryItem {
    pub id: String,
    pub timestamp: i64,
    pub trigger_type: String,
    pub trigger_source: String,
    pub task_name: Option<String>,
    pub account_email: String,
    pub model_id: String,
    pub prompt: Option<String>,
    pub success: bool,
    pub message: Option<String>,
    pub duration: Option<u64>,
}

/// Some entry of `log` carries the id `id`.
pub open spec fn has_id(log: Seq<WakeupHistoryItem>, id: Seq<char>) -> bool {
    exists|i: int| 0 <= i < log.len() && (#[trigger] log[i]).id@ == id
}

/// The entries of `incoming` whose id no entry of `existing` carries, in
/// their order.
pub open spec fn fresh_items(
    existing: Seq<WakeupHistoryItem>,
    incoming: Seq<WakeupHistoryItem>,
) -> Seq<WakeupHistoryItem> {
    incoming.filter(|item: WakeupHistoryItem| !has_id(existing, item.id@))
}

/// No entry is older than one that follows it.
pub open spec fn newest_first(log: Seq<WakeupHistoryItem>) -> bool {
    forall|i: int, j: int|
        0 <= i < j < log.len() ==> (#[trigger] log[i]).timestamp >= (#[trigger] log[j]).timestamp
}

/// How many leading entries of `log` are strictly newer than `timestamp`.
pub open spec fn newer_prefix_len(log: Seq<WakeupHistoryItem>, timestamp: i64) -> nat
    decreases log.len(),
{
    if log.len() > 0 && log[0].timestamp > timestamp {
        1 + newer_prefix_len(log.drop_first(), timestamp)
    } else {
        0
    }
}

/// `log` with `item` put behind the leading entries that are strictly newer
/// and in front of everything else.
pub open spec fn placed(item: WakeupHistoryItem, log: Seq<WakeupHistoryItem>) -> Seq<
    WakeupHistoryItem,
> {
    log.insert(newer_prefix_len(log, item.timestamp) as int, item)
}

/// `items` ordered by timestamp, newest first; entries with equal
/// timestamps keep the order they had in `items`.
pub open spec fn sorted_newest_first(items: Seq<WakeupHistoryItem>) -> Seq<WakeupHistoryItem>
    decreases items.len(),
{
    if items.len() == 0 {
        Seq::empty()
    } else {
        placed(items[0], sorted_newest_first(items.drop_first()))
    }
}

/// The first `MAX_HISTORY_ITEMS` entries of `log`, or all of it if it is
/// shorter.
pub open spec fn retained(log: Seq<WakeupHistoryItem>) -> Seq<WakeupHistoryItem> {
    if log.len() <= MAX_HISTORY_ITEMS {
        log
    } else {
        log.take(MAX_HISTORY_ITEMS as int)
    }
}

/// What the log becomes when `incoming` is appended to `existing`: `None`
/// when every incoming id is already known and nothing is to be written,
/// else the fresh entries in front of the existing ones, ordered newest first
/// and cut to the retained length.
pub open spec fn appended_log(
    existing: Seq<WakeupHistoryItem>,
    incoming: Seq<WakeupHistoryItem>,
) -> Option<Seq<WakeupHistoryItem>> {
    let fresh = fresh_items(existing, incoming);
    if fresh.len() == 0 {
        None
    } else {
        Some(retained(sorted_newest_first(fresh + existing)))
    }
}

/// `newer_prefix_len` is the one position with only strictly newer entries
/// in front of it and an entry that is not newer, or the end, at it.
pub proof fn lemma_newer_prefix_len(log: Seq<WakeupHistoryItem>, timestamp: i64, p: int)
    requires
        0 <= p <= log.len(),
        forall|j: int| 0 <= j < p ==> (#[trigger] log[j]).timestamp > timestamp,
        p == log.len() || log[p].timestamp <= timestamp,
    ensures
        newer_prefix_len(log, timestamp) == p,
    decreases p,
{
    if p > 0 {
        let rest = log.drop_first();
        assert(log[0].timestamp > timestamp);
        assert forall|j: int| 0 <= j < p - 1 implies (#[trigger] rest[j]).timestamp
            > timestamp by {
            assert(rest[j] == log[j + 1]);
        }
        lemma_newer_prefix_len(rest, timestamp, p - 1);
    }
}

/// The converse: what holds at the position that `newer_prefix_len` gives.
pub proof fn lemma_newer_prefix_bounds(log: Seq<WakeupHistoryItem>, timestamp: i64)
    ensures
        newer_prefix_len(log, timestamp) <= log.len(),
        forall|j: int|
            0 <= j < newer_prefix_len(log, timestamp) ==> (#[trigger] log[j]).timestamp
                > timestamp,
        newer_prefix_len(log, timestamp) == log.len() || log[newer_prefix_len(
            log,
            timestamp,
        ) as int].timestamp <= timestamp,
    decreases log.len(),
{
    if log.len() > 0 && log[0].timestamp > timestamp {
        let rest = log.drop_first();
        lemma_newer_prefix_bounds(rest, timestamp);
        let p = newer_prefix_len(rest, timestamp) as int;
        assert forall|j: int| 0 <= j < p + 1 implies (#[trigger] log[j]).timestamp
            > timestamp by {
            if j > 0 {
                assert(log[j] == rest[j - 1]);
            }
        }
        if p < rest.len() {
            assert(log[p + 1] == rest[p]);
        }
    }
}

/// Putting an entry into a log that is newest first gives a log that is
/// newest first, one entry longer, and holds the same entries and the new
/// one.
pub proof fn lemma_placed(item: WakeupHistoryItem, log: Seq<WakeupHistoryItem>)
    requires
        newest_first(log),
    ensures
        newest_first(placed(item, log)),
        placed(item, log).len() == log.len() + 1,
        placed(item, log).to_multiset() == log.to_multiset().insert(item),
{
    lemma_newer_prefix_bounds(log, item.timestamp);
    let p = newer_prefix_len(log, item.timestamp) as int;
    let out = placed(item, log);
    log.insert_ensures(p, item);
    vstd::seq_lib::to_multiset_insert(log, p, item);
    assert forall|i: int, j: int| 0 <= i < j < out.len() implies (#[trigger] out[i]).timestamp
        >= (#[trigger] out[j]).timestamp by {
        if j < p {
            assert(out[i] == log[i] && out[j] == log[j]);
        } else if j == p {
            assert(out[i] == log[i]);
        } else {
            assert(out[j] == log[j - 1]);
            if i < p {
                assert(out[i] == log[i]);
            } else if i == p {
                assert(log[p].timestamp <= item.timestamp);
                if j - 1 > p {
                    assert(log[p].timestamp >= log[j - 1].timestamp);
                }
            } else {
                assert(out[i] == log[i - 1]);
            }
        }
    }
}

/// Ordering keeps every entry, as often as it occurs, and gives a log that
/// is newest first.
pub proof fn lemma_sorted_newest_first(items: Seq<WakeupHistoryItem>)
    ensures
        newest_first(sorted_newest_first(items)),
        sorted_newest_first(items).len() == items.len(),
        sorted_newest_first(items).to_multiset() == items.to_multiset(),
    decreases items.len(),
{
    broadcast use vstd::seq_lib::group_to_multiset_ensures;

    if items.len() > 0 {
        let rest = items.drop_first();
        lemma_sorted_newest_first(rest);
        lemma_placed(items[0], sorted_newest_first(rest));
        assert(items =~= rest.insert(0, items[0]));
        vstd::seq_lib::to_multiset_insert(rest, 0, items[0]);
    } else {
        assert(items =~= Seq::empty());
    }
}

/// The entries of `log` with the timestamp `timestamp`, in their order.
pub open spec fn with_timestamp(log: Seq<WakeupHistoryItem>, timestamp: i64) -> Seq<
    WakeupHistoryItem,
> {
    log.filter(|item: WakeupHistoryItem| item.timestamp == timestamp)
}

/// Putting an entry into a log puts it in front of the entries of its own
/// timestamp and leaves the order among all others as it was.
pub proof fn lemma_placed_keeps_order(
    item: WakeupHistoryItem,
    log: Seq<WakeupHistoryItem>,
    timestamp: i64,
)
    ensures
        with_timestamp(placed(item, log), timestamp) == if item.timestamp == timestamp {
            seq![item] + with_timestamp(log, timestamp)
        } else {
            with_timestamp(log, timestamp)
        },
{
    let same = |entry: WakeupHistoryItem| entry.timestamp == timestamp;
    lemma_newer_prefix_bounds(log, item.timestamp);
    let p = newer_prefix_len(log, item.timestamp) as int;
    let front = log.subrange(0, p);
    let back = log.subrange(p, log.len() as int);
    assert(log =~= front + back);
    Seq::filter_distributes_over_add(front, back, same);
    front.lemma_filter_push(item, same);
    Seq::filter_distributes_over_add(front.push(item), back, same);
    if item.timestamp == timestamp {
        let kept = front.filter(same);
        if kept.len() > 0 {
            front.lemma_filter_pred(same, 0);
            assert(kept.contains(kept[0]));
            front.lemma_filter_contains_rev(same, kept[0]);
            let i = choose|i: int| 0 <= i < front.len() && front[i] == kept[0];
            assert(front[i] == log[i]);
        }
        assert(front.filter(same) =~= Seq::empty());
        assert(front.filter(same).push(item) + back.filter(same) =~= seq![item] + (front.filter(
            same,
        ) + back.filter(same)));
    }
}

/// Ordering is stable: the entries of one timestamp come out in the order
/// they went in.
pub proof fn law_sorting_keeps_order_of_equals(items: Seq<WakeupHistoryItem>, timestamp: i64)
    ensures
        with_timestamp(sorted_newest_first(items), timestamp) == with_timestamp(items, timestamp),
    decreases items.len(),
{
    let same = |entry: WakeupHistoryItem| entry.timestamp == timestamp;
    if items.len() > 0 {
        let rest = items.drop_first();
        law_sorting_keeps_order_of_equals(rest, timestamp);
        lemma_placed_keeps_order(items[0], sorted_newest_first(rest), timestamp);
        assert(items =~= seq![items[0]] + rest);
        Seq::filter_distributes_over_add(seq![items[0]], rest, same);
        assert(seq![items[0]] =~= Seq::<WakeupHistoryItem>::empty().push(items[0]));
        Seq::<WakeupHistoryItem>::empty().lemma_filter_push(items[0], same);
        Seq::<WakeupHistoryItem>::empty().lemma_filter_len(same);
        assert(Seq::<WakeupHistoryItem>::empty().filter(same) =~= Seq::empty());
    } else {
        assert(items =~= Seq::empty());
    }
}

/// The log after the entries of `items` were appended to `log` one at a
/// time, first to last.
pub open spec fn appended_one_by_one(
    log: Seq<WakeupHistoryItem>,
    items: Seq<WakeupHistoryItem>,
) -> Seq<WakeupHistoryItem>
    decreases items.len(),
{
    if items.len() == 0 {
        log
    } else {
        let before = appended_one_by_one(log, items.drop_last());
        match appended_log(before, seq![items.last()]) {
            Some(written) => written,
            None => before,
        }
    }
}

/// No two entries share an id.
pub open spec fn distinct_ids(items: Seq<WakeupHistoryItem>) -> bool {
    forall|i: int, j: int|
        0 <= i < j < items.len() ==> (#[trigger] items[i]).id@ != (#[trigger] items[j]).id@
}

/// No two entries share a timestamp.
pub open spec fn distinct_timestamps(items: Seq<WakeupHistoryItem>) -> bool {
    forall|i: int, j: int|
        0 <= i < j < items.len() ==> (#[trigger] items[i]).timestamp != (
        #[trigger] items[j]).timestamp
}

/// Ordering a log that is newest first leaves it as it is.
pub proof fn lemma_sorting_ordered_is_identity(log: Seq<WakeupHistoryItem>)
    requires
        newest_first(log),
    ensures
        sorted_newest_first(log) == log,
    decreases log.len(),
{
    if log.len() > 0 {
        let rest = log.drop_first();
        assert forall|i: int, j: int| 0 <= i < j < rest.len() implies (#[trigger] rest[i]).timestamp
            >= (#[trigger] rest[j]).timestamp by {
            assert(rest[i] == log[i + 1] && rest[j] == log[j + 1]);
        }
        lemma_sorting_ordered_is_identity(rest);
        if rest.len() > 0 {
            assert(rest[0] == log[1]);
            assert(log[0].timestamp >= log[1].timestamp);
        }
        lemma_newer_prefix_len(rest, log[0].timestamp, 0);
        assert(rest.insert(0, log[0]) =~= log);
    } else {
        assert(log =~= Seq::empty());
    }
}

/// Cutting a log to the retained length before an entry is put in changes
/// nothing of what is retained afterwards.
pub proof fn lemma_retained_placed(item: WakeupHistoryItem, log: Seq<WakeupHistoryItem>)
    ensures
        retained(placed(item, retained(log))) == retained(placed(item, log)),
{
    if log.len() > MAX_HISTORY_ITEMS {
        let max = MAX_HISTORY_ITEMS as int;
        let cut = log.take(max);
        lemma_newer_prefix_bounds(log, item.timestamp);
        let p = newer_prefix_len(log, item.timestamp) as int;
        let q = if p < max {
            p
        } else {
            max
        };
        assert forall|j: int| 0 <= j < q implies (#[trigger] cut[j]).timestamp
            > item.timestamp by {
            assert(cut[j] == log[j]);
        }
        if q < max {
            assert(cut[q] == log[q]);
        }
        lemma_newer_prefix_len(cut, item.timestamp, q);
        cut.insert_ensures(q, item);
        log.insert_ensures(p, item);
        let small = cut.insert(q, item);
        let large = log.insert(p, item);
        assert forall|i: int| 0 <= i < max implies small.take(max)[i] == large.take(max)[i] by {
            if i < q {
                assert(small[i] == cut[i] && large[i] == log[i]);
            } else if i == q {
                assert(q < max);
            } else {
                assert(small[(i - 1) + 1] == cut[i - 1]);
                assert(large[(i - 1) + 1] == log[i - 1]);
            }
        }
        assert(small.take(max) =~= large.take(max));
    }
}

/// Two entries of different timestamps can be put in in either order.
pub proof fn lemma_placing_commutes(
    newer: WakeupHistoryItem,
    older: WakeupHistoryItem,
    log: Seq<WakeupHistoryItem>,
)
    requires
        newer.timestamp > older.timestamp,
    ensures
        placed(newer, placed(older, log)) == placed(older, placed(newer, log)),
{
    lemma_newer_prefix_bounds(log, newer.timestamp);
    lemma_newer_prefix_bounds(log, older.timestamp);
    let pn = newer_prefix_len(log, newer.timestamp) as int;
    let po = newer_prefix_len(log, older.timestamp) as int;
    if po < pn {
        assert(log[po].timestamp > newer.timestamp);
    }
    assert(pn <= po);
    let with_older = log.insert(po, older);
    let with_newer = log.insert(pn, newer);
    log.insert_ensures(po, older);
    log.insert_ensures(pn, newer);
    assert forall|j: int| 0 <= j < pn implies (#[trigger] with_older[j]).timestamp
        > newer.timestamp by {
        assert(with_older[j] == log[j]);
    }
    if pn < po {
        assert(with_older[pn] == log[pn]);
    }
    lemma_newer_prefix_len(with_older, newer.timestamp, pn);
    assert forall|j: int| 0 <= j < po + 1 implies (#[trigger] with_newer[j]).timestamp
        > older.timestamp by {
        if j < pn {
            assert(with_newer[j] == log[j]);
        } else if j > pn {
            assert(with_newer[(j - 1) + 1] == log[j - 1]);
        }
    }
    if po < log.len() {
        assert(with_newer[po + 1] == log[po]);
    }
    lemma_newer_prefix_len(with_newer, older.timestamp, po + 1);
    assert(with_older.insert(pn, newer) =~= with_newer.insert(po + 1, older));
}

/// Ordering a list with one more entry at its end, of a timestamp that the
/// list does not hold, puts that entry into the ordered list.
pub proof fn lemma_sorting_one_more(items: Seq<WakeupHistoryItem>, item: WakeupHistoryItem)
    requires
        forall|i: int| 0 <= i < items.len() ==> (#[trigger] items[i]).timestamp != item.timestamp,
    ensures
        sorted_newest_first(items.push(item)) == placed(item, sorted_newest_first(items)),
    decreases items.len(),
{
    let all = items.push(item);
    if items.len() == 0 {
        assert(all.drop_first() =~= items);
        assert(all[0] == item);
    } else {
        let rest = items.drop_first();
        assert(all.drop_first() =~= rest.push(item));
        assert(all[0] == items[0]);
        assert forall|i: int| 0 <= i < rest.len() implies (#[trigger] rest[i]).timestamp
            != item.timestamp by {
            assert(rest[i] == items[i + 1]);
        }
        lemma_sorting_one_more(rest, item);
        let ordered = sorted_newest_first(rest);
        if items[0].timestamp > item.timestamp {
            lemma_placing_commutes(items[0], item, ordered);
        } else {
            lemma_placing_commutes(item, items[0], ordered);
        }
    }
}

/// Every entry of an ordered and cut list is an entry of the list.
pub proof fn lemma_retained_entries(items: Seq<WakeupHistoryItem>, i: int)
    requires
        0 <= i < retained(sorted_newest_first(items)).len(),
    ensures
        items.contains(retained(sorted_newest_first(items))[i]),
{
    broadcast use vstd::seq_lib::group_to_multiset_ensures;

    let ordered = sorted_newest_first(items);
    lemma_sorted_newest_first(items);
    let entry = retained(ordered)[i];
    assert(entry == ordered[i]);
    assert(ordered.contains(entry));
    assert(ordered.to_multiset().count(entry) > 0);
    assert(items.to_multiset().count(entry) > 0);
}

/// Every entry is strictly newer than those that follow it.
pub open spec fn strictly_newest_first(log: Seq<WakeupHistoryItem>) -> bool {
    forall|i: int, j: int|
        0 <= i < j < log.len() ==> (#[trigger] log[i]).timestamp > (#[trigger] log[j]).timestamp
}

/// Ordering entries of which no two share a timestamp gives a log in which
/// every entry is strictly newer than those that follow it.
pub proof fn lemma_sorted_strictly(items: Seq<WakeupHistoryItem>)
    requires
        distinct_timestamps(items),
    ensures
        strictly_newest_first(sorted_newest_first(items)),
    decreases items.len(),
{
    broadcast use vstd::seq_lib::group_to_multiset_ensures;

    if items.len() > 0 {
        let rest = items.drop_first();
        let first = items[0];
        assert forall|i: int, j: int| 0 <= i < j < rest.len() implies (#[trigger] rest[i]).timestamp
            != (#[trigger] rest[j]).timestamp by {
            assert(rest[i] == items[i + 1] && rest[j] == items[j + 1]);
        }
        lemma_sorted_strictly(rest);
        lemma_sorted_newest_first(rest);
        let log = sorted_newest_first(rest);
        assert forall|i: int| 0 <= i < log.len() implies (#[trigger] log[i]).timestamp
            != first.timestamp by {
            assert(log.contains(log[i]));
            assert(log.to_multiset().count(log[i]) > 0);
            assert(rest.contains(log[i]));
            let j = choose|j: int| 0 <= j < rest.len() && rest[j] == log[i];
            assert(rest[j] == items[j + 1]);
        }
        lemma_newer_prefix_bounds(log, first.timestamp);
        let p = newer_prefix_len(log, first.timestamp) as int;
        let out = placed(first, log);
        log.insert_ensures(p, first);
        assert forall|i: int, j: int| 0 <= i < j < out.len() implies (#[trigger] out[i]).timestamp
            > (#[trigger] out[j]).timestamp by {
            if j < p {
                assert(out[i] == log[i] && out[j] == log[j]);
            } else if j == p {
                assert(out[i] == log[i]);
            } else {
                assert(out[(j - 1) + 1] == log[j - 1]);
                if i < p {
                    assert(out[i] == log[i]);
                } else if i == p {
                    assert(log[p].timestamp <= first.timestamp);
                    assert(log[p].timestamp != first.timestamp);
                    if j - 1 > p {
                        assert(log[p].timestamp > log[j - 1].timestamp);
                    }
                } else {
                    assert(out[(i - 1) + 1] == log[i - 1]);
                }
            }
        }
    }
}

/// Entries with ids and timestamps of their own, appended to an empty log
/// one at a time in any order, leave the `MAX_HISTORY_ITEMS` newest of them,
/// each strictly newer than the next: the log is the front of the ordered
/// whole, which holds every entry once, so no entry that is left out is as
/// new as one that stays. Each of the appends writes, the last one this
/// log.
pub proof fn law_single_appends_retain_newest(items: Seq<WakeupHistoryItem>)
    requires
        distinct_ids(items),
        distinct_timestamps(items),
    ensures
        ({
            let log = appended_one_by_one(Seq::empty(), items);
            let ordered = sorted_newest_first(items);
            &&& ordered.to_multiset() == items.to_multiset()
            &&& strictly_newest_first(ordered)
            &&& log.len() == if items.len() <= MAX_HISTORY_ITEMS {
                items.len()
            } else {
                MAX_HISTORY_ITEMS as nat
            }
            &&& log == ordered.take(log.len() as int)
            &&& strictly_newest_first(log)
            &&& items.len() > 0 ==> appended_log(
                appended_one_by_one(Seq::empty(), items.drop_last()),
                seq![items.last()],
            ) == Some(log)
        }),
{
    lemma_single_appends(items);
    lemma_sorted_newest_first(items);
    lemma_sorted_strictly(items);
    let ordered = sorted_newest_first(items);
    let log = retained(ordered);
    assert(log =~= ordered.take(log.len() as int));
    assert forall|i: int, j: int| 0 <= i < j < log.len() implies (#[trigger] log[i]).timestamp > (
    #[trigger] log[j]).timestamp by {
        assert(log[i] == ordered[i] && log[j] == ordered[j]);
    }
}

/// A run of single appends of entries with ids and timestamps of their own
/// leaves the log that one append of all of them leaves.
pub proof fn lemma_single_appends(items: Seq<WakeupHistoryItem>)
    requires
        distinct_ids(items),
        distinct_timestamps(items),
    ensures
        appended_one_by_one(Seq::empty(), items) == retained(sorted_newest_first(items)),
        newest_first(appended_one_by_one(Seq::empty(), items)),
        items.len() > 0 ==> appended_log(
            appended_one_by_one(Seq::empty(), items.drop_last()),
            seq![items.last()],
        ) == Some(appended_one_by_one(Seq::empty(), items)),
    decreases items.len(),
{
    lemma_sorted_newest_first(items);
    let all = sorted_newest_first(items);
    assert forall|i: int, j: int| 0 <= i < j < retained(all).len() implies (#[trigger] retained(
        all,
    )[i]).timestamp >= (#[trigger] retained(all)[j]).timestamp by {
        assert(retained(all)[i] == all[i] && retained(all)[j] == all[j]);
    }
    if items.len() == 0 {
        assert(all =~= Seq::empty());
    } else {
        let front = items.drop_last();
        let last = items.last();
        assert forall|i: int, j: int| 0 <= i < j < front.len() implies (#[trigger] front[i]).id@ != (
        #[trigger] front[j]).id@ && front[i].timestamp != front[j].timestamp by {
            assert(front[i] == items[i] && front[j] == items[j]);
        }
        lemma_single_appends(front);
        let ordered = sorted_newest_first(front);
        let log = retained(ordered);
        assert(appended_one_by_one(Seq::empty(), front) == log);
        assert(!has_id(log, last.id@)) by {
            if has_id(log, last.id@) {
                let i = choose|i: int| 0 <= i < log.len() && (#[trigger] log[i]).id@ == last.id@;
                lemma_retained_entries(front, i);
                let j = choose|j: int| 0 <= j < front.len() && front[j] == log[i];
                assert(items[j] == front[j]);
                assert(items[items.len() - 1] == last);
            }
        }
        let unknown = |item: WakeupHistoryItem| !has_id(log, item.id@);
        assert(seq![last] =~= Seq::<WakeupHistoryItem>::empty().push(last));
        Seq::<WakeupHistoryItem>::empty().lemma_filter_push(last, unknown);
        Seq::<WakeupHistoryItem>::empty().lemma_filter_len(unknown);
        assert(fresh_items(log, seq![last]) =~= seq![last]);
        let merged = seq![last] + log;
        assert(merged[0] == last);
        assert(merged.drop_first() =~= log);
        lemma_sorting_ordered_is_identity(log);
        assert(sorted_newest_first(merged) == placed(last, log));
        lemma_sorted_newest_first(front);
        lemma_retained_placed(last, ordered);
        assert forall|i: int| 0 <= i < front.len() implies (#[trigger] front[i]).timestamp
            != last.timestamp by {
            assert(front[i] == items[i]);
            assert(items[items.len() - 1] == last);
        }
        lemma_sorting_one_more(front, last);
        assert(front.push(last) =~= items);
        assert(appended_log(log, seq![last]) == Some(retained(placed(last, log))));
    }
}

/// Appending entries whose ids the log already holds writes nothing: the
/// log stays as it is.
pub proof fn law_known_ids_change_nothing(
    existing: Seq<WakeupHistoryItem>,
    incoming: Seq<WakeupHistoryItem>,
)
    requires
        forall|i: int| 0 <= i < incoming.len() ==> has_id(existing, (#[trigger] incoming[i]).id@),
    ensures
        appended_log(existing, incoming) is None,
{
    let unknown = |item: WakeupHistoryItem| !has_id(existing, item.id@);
    let fresh = incoming.filter(unknown);
    if fresh.len() > 0 {
        incoming.lemma_filter_pred(unknown, 0);
        assert(fresh.contains(fresh[0]));
        incoming.lemma_filter_contains_rev(unknown, fresh[0]);
        let i = choose|i: int| 0 <= i < incoming.len() && incoming[i] == fresh[0];
        assert(has_id(existing, incoming[i].id@));
    }
}

/// An append that writes keeps every entry with a new id and every existing
/// one, orders them newest first, and retains the first
/// `MAX_HISTORY_ITEMS` of them: no entry that is left out is newer than one
/// that stays.
pub proof fn law_append_retains_newest(
    existing: Seq<WakeupHistoryItem>,
    incoming: Seq<WakeupHistoryItem>,
)
    requires
        appended_log(existing, incoming) is Some,
    ensures
        ({
            let all = fresh_items(existing, incoming) + existing;
            let ordered = sorted_newest_first(all);
            let log = appended_log(existing, incoming)->Some_0;
            &&& ordered.to_multiset() == all.to_multiset()
            &&& newest_first(ordered)
            &&& newest_first(log)
            &&& log.len() == if all.len() <= MAX_HISTORY_ITEMS {
                all.len()
            } else {
                MAX_HISTORY_ITEMS as nat
            }
            &&& log == ordered.take(log.len() as int)
            &&& forall|i: int, j: int|
                0 <= i < log.len() <= j < ordered.len() ==> (#[trigger] log[i]).timestamp
                    >= (#[trigger] ordered[j]).timestamp
        }),
{
    let all = fresh_items(existing, incoming) + existing;
    let ordered = sorted_newest_first(all);
    let log = retained(ordered);
    lemma_sorted_newest_first(all);
    assert(log =~= ordered.take(log.len() as int));
    assert forall|i: int, j: int| 0 <= i < log.len() <= j < ordered.len() implies (
    #[trigger] log[i]).timestamp >= (#[trigger] ordered[j]).timestamp by {
        assert(log[i] == ordered[i]);
    }
    assert forall|i: int, j: int| 0 <= i < j < log.len() implies (#[trigger] log[i]).timestamp
        >= (#[trigger] log[j]).timestamp by {
        assert(log[i] == ordered[i] && log[j] == ordered[j]);
    }
}

fn contains_id(log: &Vec<WakeupHistoryItem>, id: &String) -> (found: bool)
    ensures
        found == has_id(log@, id@),
{
    let mut i: usize = 0;
    while i < log.len()
        invariant
            i <= log.len(),
            forall|j: int| 0 <= j < i ==> (#[trigger] log@[j]).id@ != id@,
        decreases log.len() - i,
    {
        if log[i].id == *id {
            return true;
        }
        i += 1;
    }
    false
}

fn select_fresh(existing: &Vec<WakeupHistoryItem>, incoming: Vec<WakeupHistoryItem>) -> (fresh:
    Vec<WakeupHistoryItem>)
    ensures
        fresh@ == fresh_items(existing@, incoming@),
{
    let ghost orig = incoming@;
    let ghost unknown = |item: WakeupHistoryItem| !has_id(existing@, item.id@);
    let mut pending = reversed(incoming);
    let mut fresh: Vec<WakeupHistoryItem> = Vec::new();
    assert(orig.take(0).filter(unknown) =~= Seq::empty()) by {
        assert(orig.take(0) =~= Seq::empty());
        Seq::<WakeupHistoryItem>::empty().lemma_filter_len(unknown);
    }
    while pending.len() > 0
        invariant
            pending.len() <= orig.len(),
            pending@ == orig.reverse().take(pending.len() as int),
            unknown == (|item: WakeupHistoryItem| !has_id(existing@, item.id@)),
            fresh@ == orig.take(orig.len() - pending.len()).filter(unknown),
        decreases pending.len(),
    {
        let ghost k = orig.len() - pending.len();
        let item = pending.pop().unwrap();
        assert(item == orig[k]);
        assert(pending@ =~= orig.reverse().take(pending.len() as int));
        proof {
            assert(orig.take(k + 1) =~= orig.take(k).push(item));
            orig.take(k).lemma_filter_push(item, unknown);
        }
        if !contains_id(existing, &item.id) {
            fresh.push(item);
        }
    }
    assert(orig.take(orig.len() as int) =~= orig);
    fresh
}

fn insert_by_age(log: &mut Vec<WakeupHistoryItem>, item: WakeupHistoryItem)
    ensures
        final(log)@ == placed(item, old(log)@),
{
    let mut p: usize = 0;
    while p < log.len() && log[p].timestamp > item.timestamp
        invariant
            p <= log.len(),
            forall|j: int| 0 <= j < p ==> (#[trigger] log@[j]).timestamp > item.timestamp,
        decreases log.len() - p,
    {
        p += 1;
    }
    proof {
        lemma_newer_prefix_len(log@, item.timestamp, p as int);
    }
    log.insert(p, item);
}

fn sort_in_front(
    items: Vec<WakeupHistoryItem>,
    log: &mut Vec<WakeupHistoryItem>,
    Ghost(behind): Ghost<Seq<WakeupHistoryItem>>,
)
    requires
        old(log)@ == sorted_newest_first(behind),
    ensures
        final(log)@ == sorted_newest_first(items@ + behind),
{
    let ghost orig = items@;
    let mut items = items;
    assert(orig.skip(orig.len() as int) + behind =~= behind);
    while items.len() > 0
        invariant
            items.len() <= orig.len(),
            items@ == orig.take(items.len() as int),
            log@ == sorted_newest_first(orig.skip(items.len() as int) + behind),
        decreases items.len(),
    {
        let ghost k = items.len() - 1;
        let item = items.pop().unwrap();
        assert(item == orig[k]);
        assert(items@ =~= orig.take(k));
        proof {
            let whole = orig.skip(k) + behind;
            assert(whole[0] == item);
            assert(whole.drop_first() =~= orig.skip(k + 1) + behind);
        }
        insert_by_age(log, item);
    }
    assert(orig.skip(0) + behind =~= orig + behind);
}

/// How many of `new_items` an append to `existing` would add.
pub fn count_fresh(existing: &Vec<WakeupHistoryItem>, new_items: &Vec<WakeupHistoryItem>) -> (added:
    usize)
    ensures
        added == fresh_items(existing@, new_items@).len(),
{
    let ghost unknown = |item: WakeupHistoryItem| !has_id(existing@, item.id@);
    let mut added: usize = 0;
    let mut i: usize = 0;
    assert(new_items@.take(0).filter(unknown) =~= Seq::empty()) by {
        assert(new_items@.take(0) =~= Seq::empty());
        Seq::<WakeupHistoryItem>::empty().lemma_filter_len(unknown);
    }
    while i < new_items.len()
        invariant
            i <= new_items.len(),
            added <= i,
            unknown == (|item: WakeupHistoryItem| !has_id(existing@, item.id@)),
            added == new_items@.take(i as int).filter(unknown).len(),
        decreases new_items.len() - i,
    {
        proof {
            assert(new_items@.take(i + 1) =~= new_items@.take(i as int).push(new_items@[i as int]));
            new_items@.take(i as int).lemma_filter_push(new_items@[i as int], unknown);
        }
        if !contains_id(existing, &new_items[i].id) {
            added += 1;
        }
        i += 1;
    }
    assert(new_items@.take(new_items.len() as int) =~= new_items@);
    added
}

/// Appends `new_items` to the log `existing` and returns the log to be
/// written, or `None` where every new id was already in the log and nothing
/// is to be written.
pub fn add_history_items(
    existing: Vec<WakeupHistoryItem>,
    new_items: Vec<WakeupHistoryItem>,
) -> (written: Option<Vec<WakeupHistoryItem>>)
    ensures
        written is Some == appended_log(existing@, new_items@) is Some,
        written is Some ==> Some(written->Some_0@) == appended_log(existing@, new_items@),
{
    let fresh = select_fresh(&existing, new_items);
    if fresh.len() == 0 {
        return None;
    }
    let ghost old_log = existing@;
    let ghost added = fresh@;
    let mut merged: Vec<WakeupHistoryItem> = Vec::new();
    assert(old_log + Seq::<WakeupHistoryItem>::empty() =~= old_log);
    sort_in_front(existing, &mut merged, Ghost(Seq::empty()));
    sort_in_front(fresh, &mut merged, Ghost(old_log));
    merged.truncate(MAX_HISTORY_ITEMS);
    assert(merged@ =~= retained(sorted_newest_first(added + old_log)));
    Some(merged)
}

/// The name of the file that holds the log.
pub fn history_file_name() -> (name: String)
    ensures
        name@ == "codex_wakeup_history.json"@,
{
    "codex_wakeup_history.json".to_string()
}

/// The name of the file that a new log is written to before it takes the
/// place of the old one.
pub fn history_temp_file_name() -> (name: String)
    ensures
        name@ == "codex_wakeup_history.json"@ + ".tmp"@,
{
    let mut name = history_file_name();
    name.append(".tmp");
    name
}

/// Whether a stored log stands for the empty one without being read as
/// JSON: there is no file, or it holds nothing but white space.
pub fn stored_history_is_empty(content: Option<&str>) -> (empty: bool)
    ensures
        empty == match content {
            Some(text) => is_blank(text@),
            None => true,
        },
{
    match content {
        Some(text) => blank(text),
        None => true,
    }
}

/// The log that a clearing writes: no entries.
pub fn clear_history() -> (written: Vec<WakeupHistoryItem>)
    ensures
        written@ == Seq::<WakeupHistoryItem>::empty(),
{
    Vec::new()
}

} // verus!
