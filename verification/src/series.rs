//! What the read queries of the store return, stated over the log.
//!
//! Every function here is a statement about a log of points in sequence
//! order. "Latest" by time means the greatest `recorded_at`, and among points
//! with the same `recorded_at` the one appended last; "latest" by insertion
//! means the highest sequence number, whatever the `recorded_at`.

use vstd::prelude::*;
use crate::db::{StatRowView, StatPoint, LatestStatView, in_sequence};
use crate::order::lemma_strict_listing_unique;
use crate::text::key_before;
use crate::value::Value;

verus! {

/// The order of a history: by `recorded_at`, then by sequence number.
pub open spec fn comes_before(a: StatRowView, b: StatRowView) -> bool {
    a.recorded_at < b.recorded_at || (a.recorded_at == b.recorded_at && a.seq < b.seq)
}

/// A point of `key` recorded at or before `at`.
pub open spec fn is_at_or_before(row: StatRowView, key: Seq<char>, at: i64) -> bool {
    row.key == key && row.recorded_at <= at
}

/// A point of `key` recorded at or after `since`.
pub open spec fn is_at_or_after(row: StatRowView, key: Seq<char>, since: i64) -> bool {
    row.key == key && row.recorded_at >= since
}

/// Among the first `n` points, `i` is the point of `key` at or before `at`
/// that every other such point comes before.
pub open spec fn is_latest_among(
    rows: Seq<StatRowView>,
    n: int,
    key: Seq<char>,
    at: i64,
    i: int,
) -> bool {
    &&& 0 <= i < n
    &&& is_at_or_before(rows[i], key, at)
    &&& forall|j: int|
        0 <= j < n && j != i && is_at_or_before(#[trigger] rows[j], key, at) ==> comes_before(
            rows[j],
            rows[i],
        )
}

/// Among the first `n` points, `i` is the point of `key` at or after `since`
/// that comes before every other such point.
pub open spec fn is_earliest_among(
    rows: Seq<StatRowView>,
    n: int,
    key: Seq<char>,
    since: i64,
    i: int,
) -> bool {
    &&& 0 <= i < n
    &&& is_at_or_after(rows[i], key, since)
    &&& forall|j: int|
        0 <= j < n && j != i && is_at_or_after(#[trigger] rows[j], key, since) ==> comes_before(
            rows[i],
            rows[j],
        )
}

/// The value of the point of `key` with the latest `recorded_at` that is not
/// after `at`; among several with that `recorded_at`, of the one with the
/// highest sequence number. `None` where `key` has no point at or before `at`.
pub open spec fn value_at_or_before(rows: Seq<StatRowView>, key: Seq<char>, at: i64) -> Option<
    Value,
> {
    if exists|i: int| is_latest_among(rows, rows.len() as int, key, at, i) {
        Some(rows[choose|i: int| is_latest_among(rows, rows.len() as int, key, at, i)].value)
    } else {
        None
    }
}

/// The value of the point of `key` with the earliest `recorded_at` that is
/// not before `since`; among several with that `recorded_at`, of the one with
/// the lowest sequence number. `None` where `key` has no point at or after
/// `since`.
pub open spec fn value_at_or_after(rows: Seq<StatRowView>, key: Seq<char>, since: i64) -> Option<
    Value,
> {
    if exists|i: int| is_earliest_among(rows, rows.len() as int, key, since, i) {
        Some(
            rows[choose|i: int| is_earliest_among(rows, rows.len() as int, key, since, i)].value,
        )
    } else {
        None
    }
}

/// At most one point is the latest at or before an instant.
pub proof fn lemma_latest_unique(rows: Seq<StatRowView>, key: Seq<char>, at: i64, a: int, b: int)
    requires
        is_latest_among(rows, rows.len() as int, key, at, a),
        is_latest_among(rows, rows.len() as int, key, at, b),
    ensures
        a == b,
{
    if a != b {
        assert(comes_before(rows[a], rows[b]));
        assert(comes_before(rows[b], rows[a]));
    }
}

/// Where the first `n` points of a log in sequence order hold a point of
/// `key` at or before `at`, one of them is the latest such point.
pub proof fn lemma_latest_exists(rows: Seq<StatRowView>, n: int, key: Seq<char>, at: i64)
    requires
        in_sequence(rows),
        0 <= n <= rows.len(),
        exists|i: int| 0 <= i < n && is_at_or_before(#[trigger] rows[i], key, at),
    ensures
        exists|b: int| is_latest_among(rows, n, key, at, b),
    decreases n,
{
    let last = n - 1;
    if exists|i: int| 0 <= i < last && is_at_or_before(#[trigger] rows[i], key, at) {
        lemma_latest_exists(rows, last, key, at);
        let b = choose|b: int| is_latest_among(rows, last, key, at, b);
        if is_at_or_before(rows[last], key, at) {
            assert(rows[b].seq < rows[last].seq);
            if rows[b].recorded_at <= rows[last].recorded_at {
                assert forall|j: int|
                    0 <= j < n && j != last && is_at_or_before(
                        #[trigger] rows[j],
                        key,
                        at,
                    ) implies comes_before(rows[j], rows[last]) by {
                    assert(rows[j].seq < rows[last].seq);
                }
                assert(is_latest_among(rows, n, key, at, last));
            } else {
                assert(is_latest_among(rows, n, key, at, b));
            }
        } else {
            assert(is_latest_among(rows, n, key, at, b));
        }
    } else {
        let w = choose|i: int| 0 <= i < n && is_at_or_before(#[trigger] rows[i], key, at);
        assert(w == last);
        assert(is_latest_among(rows, n, key, at, last));
    }
}

/// A key has no value at or before an instant just when it has no point at or
/// before it.
pub proof fn lemma_value_at_or_before_is_none(rows: Seq<StatRowView>, key: Seq<char>, at: i64)
    requires
        in_sequence(rows),
    ensures
        value_at_or_before(rows, key, at) is None <==> forall|i: int|
            0 <= i < rows.len() ==> !is_at_or_before(#[trigger] rows[i], key, at),
{
    if exists|i: int| 0 <= i < rows.len() && is_at_or_before(#[trigger] rows[i], key, at) {
        lemma_latest_exists(rows, rows.len() as int, key, at);
    }
}

/// At most one point is the earliest at or after an instant.
pub proof fn lemma_earliest_unique(
    rows: Seq<StatRowView>,
    key: Seq<char>,
    since: i64,
    a: int,
    b: int,
)
    requires
        is_earliest_among(rows, rows.len() as int, key, since, a),
        is_earliest_among(rows, rows.len() as int, key, since, b),
    ensures
        a == b,
{
    if a != b {
        assert(comes_before(rows[a], rows[b]));
        assert(comes_before(rows[b], rows[a]));
    }
}

/// The earliest `recorded_at` in the log: `t` is the instant of some point
/// and no point is earlier.
pub open spec fn is_oldest_time(rows: Seq<StatRowView>, n: int, t: i64) -> bool {
    &&& exists|i: int| 0 <= i < n && (#[trigger] rows[i]).recorded_at == t
    &&& forall|j: int| 0 <= j < n ==> t <= (#[trigger] rows[j]).recorded_at
}

/// The earliest `recorded_at` over all keys, `None` for an empty log.
pub open spec fn oldest_time(rows: Seq<StatRowView>) -> Option<i64> {
    if rows.len() == 0 {
        None
    } else {
        Some(choose|t: i64| is_oldest_time(rows, rows.len() as int, t))
    }
}

/// A point of `key` recorded in the window from `lo` to `hi`, both ends
/// included.
pub open spec fn in_window(row: StatRowView, key: Seq<char>, lo: i64, hi: i64) -> bool {
    row.key == key && lo <= row.recorded_at <= hi
}

/// `picks` lists the positions of exactly the points of `key` in the window,
/// each once, ascending by `recorded_at` and, where that is equal, by
/// sequence number.
pub open spec fn is_history(
    rows: Seq<StatRowView>,
    key: Seq<char>,
    lo: i64,
    hi: i64,
    picks: Seq<int>,
) -> bool {
    &&& forall|j: int|
        0 <= j < picks.len() ==> 0 <= #[trigger] picks[j] < rows.len() && in_window(
            rows[picks[j]],
            key,
            lo,
            hi,
        )
    &&& forall|i: int, j: int|
        0 <= i < j < picks.len() ==> comes_before(
            rows[#[trigger] picks[i]],
            rows[#[trigger] picks[j]],
        )
    &&& forall|r: int|
        0 <= r < rows.len() && in_window(#[trigger] rows[r], key, lo, hi) ==> picks.contains(r)
}

/// The positions of the points of `key` in the window, in the order of a
/// history.
pub open spec fn history_order(rows: Seq<StatRowView>, key: Seq<char>, lo: i64, hi: i64) -> Seq<
    int,
> {
    choose|picks: Seq<int>| is_history(rows, key, lo, hi, picks)
}

/// A point as a history shows it.
pub open spec fn point_of(row: StatRowView) -> StatPoint {
    StatPoint { value: row.value, recorded_at: row.recorded_at }
}

/// The history of `key` in the window from `lo` to `hi`, both ends included.
pub open spec fn history(rows: Seq<StatRowView>, key: Seq<char>, lo: i64, hi: i64) -> Seq<
    StatPoint,
> {
    history_order(rows, key, lo, hi).map_values(|i: int| point_of(rows[i]))
}

/// A window has one history.
pub proof fn lemma_history_unique(
    rows: Seq<StatRowView>,
    key: Seq<char>,
    lo: i64,
    hi: i64,
    picks: Seq<int>,
)
    requires
        is_history(rows, key, lo, hi, picks),
    ensures
        picks == history_order(rows, key, lo, hi),
{
    let other = history_order(rows, key, lo, hi);
    let before = |a: int, b: int| comes_before(rows[a], rows[b]);
    assert forall|x: int| picks.contains(x) <==> other.contains(x) by {
        if picks.contains(x) {
            let j = choose|j: int| 0 <= j < picks.len() && picks[j] == x;
            assert(in_window(rows[picks[j]], key, lo, hi));
        }
        if other.contains(x) {
            let j = choose|j: int| 0 <= j < other.len() && other[j] == x;
            assert(in_window(rows[other[j]], key, lo, hi));
        }
    }
    lemma_strict_listing_unique(picks, other, before);
}

/// A key without points in the window has an empty history.
pub proof fn lemma_history_of_absent_key(rows: Seq<StatRowView>, key: Seq<char>, lo: i64, hi: i64)
    requires
        forall|i: int| 0 <= i < rows.len() ==> !in_window(#[trigger] rows[i], key, lo, hi),
    ensures
        history(rows, key, lo, hi) == Seq::<StatPoint>::empty(),
{
    let none = Seq::<int>::empty();
    assert(is_history(rows, key, lo, hi, none));
    lemma_history_unique(rows, key, lo, hi, none);
    assert(history(rows, key, lo, hi) =~= Seq::<StatPoint>::empty());
}

/// The values of a history, in its order.
pub open spec fn values_of(points: Seq<StatPoint>) -> Seq<Value> {
    points.map_values(|p: StatPoint| p.value)
}

/// `value` is what a sparkline shows at place `i`: the value at the index
/// that `stride` gives for `i`, or the last value where that index lies beyond
/// it.
pub open spec fn is_sample<S: Fn(usize, usize, usize) -> usize>(
    values: Seq<Value>,
    points: usize,
    stride: S,
    i: int,
    value: Value,
) -> bool {
    exists|index: usize|
        {
            &&& #[trigger] call_ensures(
                stride,
                (i as usize, values.len() as usize, points),
                index,
            )
            &&& value == clamped(values, index)
        }
}

/// `out` is a sparkline of at most `points` values over `values`: all of them
/// where they are no more than `points`, else one sample for each of `points`
/// places.
pub open spec fn is_sparkline<S: Fn(usize, usize, usize) -> usize>(
    values: Seq<Value>,
    points: usize,
    stride: S,
    out: Seq<Value>,
) -> bool {
    if values.len() <= points {
        out == values
    } else {
        &&& out.len() == points
        &&& forall|i: int|
            0 <= i < points ==> is_sample(values, points, stride, i, #[trigger] out[i])
    }
}

/// A sparkline has as many values as the history or as it has places,
/// whichever is less, and where the history fits it is the history.
pub proof fn lemma_sparkline_length<S: Fn(usize, usize, usize) -> usize>(
    values: Seq<Value>,
    points: usize,
    stride: S,
    out: Seq<Value>,
)
    requires
        is_sparkline(values, points, stride, out),
    ensures
        out.len() == if values.len() <= points {
            values.len()
        } else {
            points as nat
        },
        values.len() <= points ==> out == values,
{
}

/// The value at `index`, or the last one where `index` lies beyond it.
pub open spec fn clamped(values: Seq<Value>, index: usize) -> Value {
    if index < values.len() {
        values[index as int]
    } else {
        values[values.len() - 1]
    }
}

/// One of the first `n` points is for `key`.
pub open spec fn has_key(rows: Seq<StatRowView>, n: int, key: Seq<char>) -> bool {
    exists|i: int| 0 <= i < n && (#[trigger] rows[i]).key == key
}

/// `keys` lists exactly the keys of the first `n` points, each once, in
/// ascending order.
pub open spec fn is_key_listing(rows: Seq<StatRowView>, n: int, keys: Seq<Seq<char>>) -> bool {
    &&& forall|j: int| 0 <= j < keys.len() ==> has_key(rows, n, #[trigger] keys[j])
    &&& forall|a: int, b: int|
        0 <= a < b < keys.len() ==> key_before(#[trigger] keys[a], #[trigger] keys[b])
    &&& forall|i: int| 0 <= i < n ==> keys.contains((#[trigger] rows[i]).key)
}

/// The keys that have at least one point, ascending, each once.
pub open spec fn distinct_keys(rows: Seq<StatRowView>) -> Seq<Seq<char>> {
    choose|keys: Seq<Seq<char>>| is_key_listing(rows, rows.len() as int, keys)
}

/// A log has one listing of its keys.
pub proof fn lemma_key_listing_unique(rows: Seq<StatRowView>, keys: Seq<Seq<char>>)
    requires
        is_key_listing(rows, rows.len() as int, keys),
    ensures
        keys == distinct_keys(rows),
{
    let other = distinct_keys(rows);
    let before = |a: Seq<char>, b: Seq<char>| key_before(a, b);
    assert forall|x: Seq<char>| keys.contains(x) <==> other.contains(x) by {
        if keys.contains(x) {
            let j = choose|j: int| 0 <= j < keys.len() && keys[j] == x;
            assert(has_key(rows, rows.len() as int, keys[j]));
        }
        if other.contains(x) {
            let j = choose|j: int| 0 <= j < other.len() && other[j] == x;
            assert(has_key(rows, rows.len() as int, other[j]));
        }
    }
    assert forall|x: Seq<char>| !#[trigger] before(x, x) by {
        crate::text::lemma_key_before_strict(x, x, x);
    }
    assert forall|x: Seq<char>, y: Seq<char>, z: Seq<char>| #[trigger]
        before(x, y) && #[trigger] before(y, z) implies before(x, z) by {
        crate::text::lemma_key_before_strict(x, y, z);
    }
    lemma_strict_listing_unique(keys, other, before);
}

/// Among the first `n` points, `i` is the point of `key` with the highest
/// sequence number: the one appended last, whatever its `recorded_at`.
pub open spec fn is_newest_among(rows: Seq<StatRowView>, n: int, key: Seq<char>, i: int) -> bool {
    &&& 0 <= i < n
    &&& rows[i].key == key
    &&& forall|j: int| 0 <= j < n && (#[trigger] rows[j]).key == key ==> rows[j].seq <= rows[i].seq
}

/// The position of the point of `key` that was appended last.
pub open spec fn newest_of(rows: Seq<StatRowView>, key: Seq<char>) -> int {
    choose|i: int| is_newest_among(rows, rows.len() as int, key, i)
}

/// In a log in sequence order a key has one newest point.
pub proof fn lemma_newest_unique(rows: Seq<StatRowView>, key: Seq<char>, i: int)
    requires
        in_sequence(rows),
        is_newest_among(rows, rows.len() as int, key, i),
    ensures
        i == newest_of(rows, key),
{
    let c = newest_of(rows, key);
    if c < i {
        assert(rows[c].seq < rows[i].seq);
    } else if i < c {
        assert(rows[i].seq < rows[c].seq);
    }
}

/// A point as the listing of latest stats shows it.
pub open spec fn latest_of(row: StatRowView) -> LatestStatView {
    LatestStatView {
        key: row.key,
        value: row.value,
        recorded_at: row.recorded_at,
        metadata: row.metadata,
    }
}

/// For each key, ascending, the point of that key that was appended last.
pub open spec fn latest_stats(rows: Seq<StatRowView>) -> Seq<LatestStatView> {
    distinct_keys(rows).map_values(|key: Seq<char>| latest_of(rows[newest_of(rows, key)]))
}

/// The points that deleting `key` leaves: those of every other key.
pub open spec fn not_of_key(key: Seq<char>) -> spec_fn(StatRowView) -> bool {
    |row: StatRowView| row.key != key
}

/// The points that pruning at `cutoff` leaves: those recorded at `cutoff` or
/// later. A point exactly at the cutoff stays.
pub open spec fn not_before(cutoff: int) -> spec_fn(StatRowView) -> bool {
    |row: StatRowView| row.recorded_at >= cutoff
}

/// What pruning leaves at a retention horizon of `days` whole days before
/// `now`.
pub open spec fn pruned_at(rows: Seq<StatRowView>, days: i64, now: i64) -> Seq<StatRowView> {
    rows.filter(not_before(now - days * crate::time::MICROS_PER_DAY))
}

/// Removing points leaves a log in sequence order, and raises no sequence
/// number.
pub proof fn lemma_filter_in_sequence(rows: Seq<StatRowView>, keep: spec_fn(StatRowView) -> bool)
    requires
        in_sequence(rows),
    ensures
        in_sequence(rows.filter(keep)),
        crate::db::max_seq(rows.filter(keep)) <= crate::db::max_seq(rows),
    decreases rows.len(),
{
    reveal(Seq::filter);
    if rows.len() > 0 {
        let front = rows.drop_last();
        let last = rows.len() - 1;
        assert forall|i: int, j: int| 0 <= i < j < front.len() implies (#[trigger] front[i]).seq
            < (#[trigger] front[j]).seq by {
            assert(rows[i].seq < rows[j].seq);
        }
        assert forall|i: int| 0 <= i < front.len() implies (#[trigger] front[i]).seq >= 1 by {
            assert(rows[i].seq >= 1);
        }
        lemma_filter_in_sequence(front, keep);
        crate::db::lemma_max_seq_is_maximum(front);
        crate::db::lemma_max_seq_is_maximum(rows);
        crate::db::lemma_max_seq_is_maximum(front.filter(keep));
        if front.len() > 0 {
            assert(front.last() == rows[last - 1]);
            assert(rows[last - 1].seq < rows[last].seq);
        }
        assert(rows[last].seq >= 1);
        let kept = front.filter(keep);
        if keep(rows.last()) {
            let all = kept.push(rows.last());
            assert forall|i: int, j: int| 0 <= i < j < all.len() implies (#[trigger] all[i]).seq
                < (#[trigger] all[j]).seq by {
                if j < kept.len() {
                    assert(kept[i].seq < kept[j].seq);
                } else {
                    assert(kept[i].seq <= crate::db::max_seq(kept));
                }
            }
            assert forall|i: int| 0 <= i < all.len() implies (#[trigger] all[i]).seq >= 1 by {
                if i < kept.len() {
                    assert(kept[i].seq >= 1);
                }
            }
        }
    }
}

/// Deleting a key leaves no point of it, and leaves every point of every
/// other key.
pub proof fn lemma_deleted_key_is_gone(rows: Seq<StatRowView>, key: Seq<char>)
    ensures
        !has_key(rows.filter(not_of_key(key)), rows.filter(not_of_key(key)).len() as int, key),
        forall|i: int|
            0 <= i < rows.len() && (#[trigger] rows[i]).key != key ==> rows.filter(
                not_of_key(key),
            ).contains(rows[i]),
{
    let left = rows.filter(not_of_key(key));
    assert forall|i: int| 0 <= i < left.len() implies (#[trigger] left[i]).key != key by {
        rows.lemma_filter_pred(not_of_key(key), i);
    }
    assert forall|i: int| 0 <= i < rows.len() && (#[trigger] rows[i]).key != key implies left.contains(
        rows[i],
    ) by {
        rows.lemma_filter_contains(not_of_key(key), i);
    }
}

/// A removal that finds nothing to remove leaves the log as it is, and one
/// that finds something leaves a shorter log.
pub proof fn lemma_filter_keeps_all_or_fewer(
    rows: Seq<StatRowView>,
    keep: spec_fn(StatRowView) -> bool,
)
    ensures
        (forall|i: int| 0 <= i < rows.len() ==> keep(#[trigger] rows[i])) ==> rows.filter(keep)
            == rows,
        (exists|i: int| 0 <= i < rows.len() && !keep(#[trigger] rows[i])) ==> rows.filter(
            keep,
        ).len() < rows.len(),
    decreases rows.len(),
{
    reveal(Seq::filter);
    if rows.len() > 0 {
        let front = rows.drop_last();
        lemma_filter_keeps_all_or_fewer(front, keep);
        front.lemma_filter_len(keep);
        if forall|i: int| 0 <= i < rows.len() ==> keep(#[trigger] rows[i]) {
            assert forall|i: int| 0 <= i < front.len() implies keep(#[trigger] front[i]) by {
                assert(front[i] == rows[i]);
            }
            assert(keep(rows[rows.len() - 1]));
            assert(front.push(rows.last()) =~= rows);
        }
        if exists|i: int| 0 <= i < rows.len() && !keep(#[trigger] rows[i]) {
            let w = choose|i: int| 0 <= i < rows.len() && !keep(#[trigger] rows[i]);
            if w < front.len() {
                assert(front[w] == rows[w]);
            }
        }
    }
}

/// Pruning what has been pruned at the same cutoff removes nothing.
pub proof fn lemma_prune_idempotent(rows: Seq<StatRowView>, cutoff: int)
    ensures
        rows.filter(not_before(cutoff)).filter(not_before(cutoff)) == rows.filter(
            not_before(cutoff),
        ),
{
    let once = rows.filter(not_before(cutoff));
    assert forall|i: int| 0 <= i < once.len() implies not_before(cutoff)(#[trigger] once[i]) by {
        rows.lemma_filter_pred(not_before(cutoff), i);
    }
    lemma_filter_keeps_all_or_fewer(once, not_before(cutoff));
}

/// A point appended to a log in sequence order is the newest of its key,
/// whatever its `recorded_at` and whatever the log holds for that key.
pub proof fn lemma_appended_is_newest(rows: Seq<StatRowView>, row: StatRowView)
    requires
        in_sequence(rows),
        row.seq == crate::db::max_seq(rows) + 1,
    ensures
        in_sequence(rows.push(row)),
        newest_of(rows.push(row), row.key) == rows.len(),
        latest_of(rows.push(row)[newest_of(rows.push(row), row.key)]).value == row.value,
{
    let after = rows.push(row);
    crate::db::lemma_max_seq_is_maximum(rows);
    assert forall|i: int, j: int| 0 <= i < j < after.len() implies (#[trigger] after[i]).seq < (
    #[trigger] after[j]).seq by {
        if j < rows.len() {
            assert(rows[i].seq < rows[j].seq);
        } else {
            assert(rows[i].seq <= crate::db::max_seq(rows));
        }
    }
    assert forall|i: int| 0 <= i < after.len() implies (#[trigger] after[i]).seq >= 1 by {
        if i < rows.len() {
            assert(rows[i].seq >= 1);
        }
    }
    assert forall|j: int|
        0 <= j < after.len() && (#[trigger] after[j]).key == row.key implies after[j].seq
        <= after[rows.len() as int].seq by {
        if j < rows.len() {
            assert(rows[j].seq <= crate::db::max_seq(rows));
        }
    }
    assert(is_newest_among(after, after.len() as int, row.key, rows.len() as int));
    lemma_newest_unique(after, row.key, rows.len() as int);
}

/// Sequence numbers count up by one from each append to the next, whichever
/// keys the two points are for: the number that follows the highest in a log
/// is the highest in the log with that point appended.
pub proof fn lemma_appends_count_up(rows: Seq<StatRowView>, first: StatRowView, second: StatRowView)
    requires
        first.seq == crate::db::max_seq(rows) + 1,
        second.seq == crate::db::max_seq(rows.push(first)) + 1,
    ensures
        second.seq == first.seq + 1,
{
    assert(rows.push(first).last() == first);
}

} // verus!
