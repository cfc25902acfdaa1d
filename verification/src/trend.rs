//! The trend engine: the change of a key over a look-back window.
//!
//! The baseline of a window is the value of the key as it stood when the
//! window opened; a key that first appeared inside the window is measured
//! against its first value in it. Difference and percentage are numbers that
//! this crate does not compute: the caller supplies them through `delta`,
//! which for a current value and a baseline returns the change
//! `current - baseline` and the percentage `change / baseline * 100`. What is
//! decided here is which of them a trend holds.

use vstd::prelude::*;
use crate::db::{Db, StatRowView};
use crate::models::TrendData;
use crate::series::{value_at_or_after, value_at_or_before};
use crate::value::Value;

verus! {

/// The baseline of the window that opens at `since`: the value of `key` at or
/// before `since`, and where there is none, its earliest value at or after
/// `since`.
pub open spec fn trend_start(rows: Seq<StatRowView>, key: Seq<char>, since: i64) -> Option<Value> {
    match value_at_or_before(rows, key, since) {
        Some(v) => Some(v),
        None => value_at_or_after(rows, key, since),
    }
}

/// `trend` is the trend of `current` against the baseline `start`. Without a
/// baseline it holds the current value alone. With one it holds the change
/// that `delta` returned; it holds the percentage that `delta` returned
/// unless the baseline is a zero, of either sign.
pub open spec fn is_trend<D: Fn(Value, Value) -> (Value, Value)>(
    start: Option<Value>,
    current: Value,
    delta: D,
    trend: TrendData,
) -> bool {
    &&& trend.start == start
    &&& trend.end == current
    &&& match start {
        None => trend.change is None && trend.pct is None,
        Some(base) => {
            &&& trend.change is Some
            &&& if base.is_zero() {
                &&& trend.pct is None
                &&& exists|pct: Value| #[trigger]
                    call_ensures(delta, (current, base), (trend.change->0, pct))
            } else {
                &&& trend.pct is Some
                &&& call_ensures(delta, (current, base), (trend.change->0, trend.pct->0))
            }
        },
    }
}

/// A trend against a baseline of zero has no percentage, whatever the
/// current value, and a trend without a baseline has neither change nor
/// percentage.
pub proof fn lemma_no_pct_without_divisor<D: Fn(Value, Value) -> (Value, Value)>(
    start: Option<Value>,
    current: Value,
    delta: D,
    trend: TrendData,
)
    requires
        is_trend(start, current, delta, trend),
    ensures
        start is Some && start->0.is_zero() ==> trend.pct is None,
        start is None ==> trend.change is None && trend.pct is None,
        trend.pct is Some ==> start is Some && !start->0.is_zero(),
{
}

/// The trend that follows from a baseline and from what `delta` returns for
/// it.
pub fn trend_against<D: Fn(Value, Value) -> (Value, Value)>(
    start: Option<Value>,
    current: Value,
    delta: &D,
) -> (trend: TrendData)
    requires
        forall|a: Value, b: Value| call_requires(*delta, (a, b)),
    ensures
        is_trend(start, current, *delta, trend),
{
    match start {
        Some(base) => {
            let pair: (Value, Value) = delta(current, base);
            assert(call_ensures(*delta, (current, base), pair));
            let trend = if base.zero() {
                TrendData { start: Some(base), end: current, change: Some(pair.0), pct: None }
            } else {
                TrendData {
                    start: Some(base),
                    end: current,
                    change: Some(pair.0),
                    pct: Some(pair.1),
                }
            };
            assert(pair == (trend.change->0, pair.1));
            assert(is_trend(start, current, *delta, trend));
            trend
        },
        None => TrendData { start: None, end: current, change: None, pct: None },
    }
}

/// The trend of `key`, whose current value is `current`, over the window that
/// opens at `since`.
pub fn compute_trend<D: Fn(Value, Value) -> (Value, Value)>(
    db: &Db,
    key: &str,
    current: Value,
    since: i64,
    delta: &D,
) -> (trend: TrendData)
    requires
        db.wf(),
        forall|a: Value, b: Value| call_requires(*delta, (a, b)),
    ensures
        is_trend(trend_start(db.rows(), key@, since), current, *delta, trend),
        trend_start(db.rows(), key@, since) is Some && (trend_start(
            db.rows(),
            key@,
            since,
        )->0).is_zero() ==> trend.pct is None,
{
    let start: Option<Value> = match db.get_stat_at_time(key, since) {
        Some(v) => Some(v),
        None => db.get_earliest_stat_since(key, since),
    };
    trend_against(start, current, delta)
}

} // verus!
