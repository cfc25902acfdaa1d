//! What ingesting a batch does to the store, stated over the logs.
//!
//! A batch is taken entry by entry, in order. An entry with an empty key or a
//! key of more than 100 characters is skipped. For every other entry the alert
//! detector runs on the store as it stands, and then the point is appended:
//! the baseline of an alert is always a value from before the point.

use vstd::prelude::*;
use crate::db::{max_seq, AlertEntryView, StatRowView};
use crate::detector::alert_log_after;
use crate::models::{StatInput, TrendData};
use crate::time::MICROS_PER_DAY;
use crate::trend::{is_trend, trend_start};
use crate::value::Value;

verus! {

/// An entry of a batch as contracts see it.
pub struct StatInputView {
    pub key: Seq<char>,
    pub value: Value,
    pub metadata: Option<Seq<char>>,
}

impl View for StatInput {
    type V = StatInputView;

    open spec fn view(&self) -> StatInputView {
        StatInputView {
            key: self.key@,
            value: self.value,
            metadata: crate::db::text_of(self.metadata),
        }
    }
}

/// The entries of a batch.
pub open spec fn batch_of(stats: Seq<StatInput>) -> Seq<StatInputView> {
    stats.map_values(|s: StatInput| s@)
}

/// A key that the store takes: of 1 to 100 characters.
pub open spec fn acceptable(key: Seq<char>) -> bool {
    1 <= key.len() <= 100
}

/// The entries that the store takes.
pub open spec fn taken() -> spec_fn(StatInputView) -> bool {
    |entry: StatInputView| acceptable(entry.key)
}

/// The log of points after a batch was ingested at `now`: every entry with an
/// acceptable key appended in the order of the batch, each with the next
/// sequence number.
pub open spec fn ingested(rows: Seq<StatRowView>, batch: Seq<StatInputView>, now: i64) -> Seq<
    StatRowView,
>
    decreases batch.len(),
{
    if batch.len() == 0 {
        rows
    } else {
        let before = ingested(rows, batch.drop_last(), now);
        let entry = batch.last();
        if acceptable(entry.key) {
            before.push(
                StatRowView {
                    key: entry.key,
                    value: entry.value,
                    recorded_at: now,
                    metadata: entry.metadata,
                    seq: (max_seq(before) + 1) as i64,
                },
            )
        } else {
            before
        }
    }
}

/// `pct` is the percentage of a 24-hour trend of `key` that `delta` gave for
/// the submitted `value`, on the log `rows`.
pub open spec fn is_day_pct<D: Fn(Value, Value) -> (Value, Value)>(
    rows: Seq<StatRowView>,
    key: Seq<char>,
    value: Value,
    now: i64,
    delta: D,
    pct: Option<Value>,
) -> bool {
    exists|trend: TrendData|
        {
            &&& #[trigger] is_trend(
                trend_start(rows, key, (now - MICROS_PER_DAY) as i64),
                value,
                delta,
                trend,
            )
            &&& trend.pct == pct
        }
}

/// `pcts` holds, for every entry of the batch that the store takes, the
/// percentage of its 24-hour trend on the log as it stood just before the
/// entry's point was appended.
pub open spec fn is_pct_trace<D: Fn(Value, Value) -> (Value, Value)>(
    rows: Seq<StatRowView>,
    batch: Seq<StatInputView>,
    now: i64,
    delta: D,
    pcts: Seq<Option<Value>>,
) -> bool {
    &&& pcts.len() == batch.len()
    &&& forall|i: int|
        0 <= i < batch.len() && acceptable(batch[i].key) ==> is_day_pct(
            ingested(rows, batch.take(i), now),
            batch[i].key,
            batch[i].value,
            now,
            delta,
            #[trigger] pcts[i],
        )
}

/// The alert log after a batch was ingested at `now`, where `pcts` holds the
/// percentage of each entry's 24-hour trend: the detector has decided on
/// every entry that the store takes, in the order of the batch.
pub open spec fn alert_log_through(
    log: Seq<AlertEntryView>,
    batch: Seq<StatInputView>,
    pcts: Seq<Option<Value>>,
    now: i64,
) -> Seq<AlertEntryView>
    decreases batch.len(),
{
    if batch.len() == 0 || pcts.len() != batch.len() {
        log
    } else {
        let before = alert_log_through(log, batch.drop_last(), pcts.drop_last(), now);
        let entry = batch.last();
        if acceptable(entry.key) {
            alert_log_after(before, entry.key, entry.value, pcts.last(), now)
        } else {
            before
        }
    }
}

/// Ingesting appends at most one point for each entry, and raises the highest
/// sequence number by the number of points appended.
pub proof fn lemma_ingested_growth(rows: Seq<StatRowView>, batch: Seq<StatInputView>, now: i64)
    requires
        crate::db::in_sequence(rows),
        max_seq(rows) + batch.len() <= i64::MAX,
    ensures
        crate::db::in_sequence(ingested(rows, batch, now)),
        ingested(rows, batch, now).len() == rows.len() + batch.filter(taken()).len(),
        max_seq(ingested(rows, batch, now)) == max_seq(rows) + batch.filter(taken()).len(),
        batch.filter(taken()).len() <= batch.len(),
    decreases batch.len(),
{
    reveal(Seq::filter);
    if batch.len() > 0 {
        let front = batch.drop_last();
        lemma_ingested_growth(rows, front, now);
        let before = ingested(rows, front, now);
        crate::db::lemma_max_seq_is_maximum(before);
        if acceptable(batch.last().key) {
            let after = ingested(rows, batch, now);
            assert(after.last().seq == max_seq(before) + 1);
            assert forall|i: int, j: int| 0 <= i < j < after.len() implies (
            #[trigger] after[i]).seq < (#[trigger] after[j]).seq by {
                if j < before.len() {
                    assert(before[i].seq < before[j].seq);
                } else {
                    assert(before[i].seq <= max_seq(before));
                }
            }
            assert forall|i: int| 0 <= i < after.len() implies (#[trigger] after[i]).seq >= 1 by {
                if i < before.len() {
                    assert(before[i].seq >= 1);
                }
            }
        }
    }
}

} // verus!
