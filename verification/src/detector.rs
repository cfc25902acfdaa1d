//! The alert detector: a debounce gate on significant changes.
//!
//! A submitted value raises an alert when its change over the last 24 hours,
//! in per cent of the baseline, is at least the alert threshold in absolute
//! value, unless an alert for the same key was triggered within the debounce
//! window. A change without a percentage, for want of a baseline or because
//! the baseline is zero, raises none.

use vstd::prelude::*;
use crate::alerts::last_alert_time;
use crate::db::{AlertEntryView, AlertLevel, Db};
use crate::models::TrendData;
use crate::time::{window_start, Period, MICROS_PER_DAY, MICROS_PER_HOUR};
use crate::trend::{compute_trend, is_trend, trend_start};
use crate::value::Value;

verus! {

/// The bit pattern of 10.0: a change of at least 10 per cent is an alert.
pub const ALERT_THRESHOLD_BITS: u64 = 0x4024_0000_0000_0000;

/// The bit pattern of 25.0: a change of at least 25 per cent is hot.
pub const HOT_THRESHOLD_BITS: u64 = 0x4039_0000_0000_0000;

/// The least number of hours between two alerts for one key.
pub const ALERT_DEBOUNCE_HOURS: i64 = 6;

/// The absolute value of `pct` is at least the number with the pattern
/// `threshold_bits`.
pub open spec fn crosses(pct: Value, threshold_bits: u64) -> bool {
    pct.abs_at_least(Value { bits: threshold_bits })
}

/// An alert for `key` was triggered at or after the instant six hours before
/// `now`.
pub open spec fn debounced(log: Seq<AlertEntryView>, key: Seq<char>, now: i64) -> bool {
    match last_alert_time(log, key) {
        Some(last) => last >= now - ALERT_DEBOUNCE_HOURS * MICROS_PER_HOUR,
        None => false,
    }
}

/// What the detector decides for a change of `pct` per cent at `now`: no
/// alert without a percentage, under the alert threshold or within the
/// debounce window; else `Hot` from the hot threshold on, and `Alert` below
/// it.
pub open spec fn alert_decision(
    log: Seq<AlertEntryView>,
    key: Seq<char>,
    pct: Option<Value>,
    now: i64,
) -> Option<AlertLevel> {
    match pct {
        None => None,
        Some(p) => if !crosses(p, ALERT_THRESHOLD_BITS) {
            None
        } else if debounced(log, key, now) {
            None
        } else if crosses(p, HOT_THRESHOLD_BITS) {
            Some(AlertLevel::Hot)
        } else {
            Some(AlertLevel::Alert)
        },
    }
}

/// The alert log after the detector has decided: with one more entry where
/// it raised an alert, unchanged where it did not.
pub open spec fn alert_log_after(
    log: Seq<AlertEntryView>,
    key: Seq<char>,
    value: Value,
    pct: Option<Value>,
    now: i64,
) -> Seq<AlertEntryView> {
    match alert_decision(log, key, pct, now) {
        Some(level) => log.push(
            AlertEntryView { key, level, value, change_pct: pct->0, triggered_at: now },
        ),
        None => log,
    }
}

/// Decides on an alert for `key`, whose new value `new_value` has changed by
/// `pct` per cent over the last 24 hours, and records the alert it raises.
pub fn settle_alert(
    db: &mut Db,
    key: &str,
    new_value: Value,
    pct: Option<Value>,
    now: i64,
) -> (raised: Option<AlertLevel>)
    requires
        old(db).wf(),
        old(db).alert_log().len() < i64::MAX,
    ensures
        final(db).wf(),
        raised == alert_decision(old(db).alert_log(), key@, pct, now),
        final(db).alert_log() == alert_log_after(old(db).alert_log(), key@, new_value, pct, now),
        final(db).rows() == old(db).rows(),
        final(db).manage_key() == old(db).manage_key(),
{
    let change: Value = match pct {
        Some(p) => p,
        None => {
            return None;
        },
    };
    if !change.magnitude_at_least(Value::from_bits(ALERT_THRESHOLD_BITS)) {
        return None;
    }
    let recent: bool = match db.get_last_alert_time(key) {
        Some(last) => last as i128 >= now as i128 - (ALERT_DEBOUNCE_HOURS * MICROS_PER_HOUR) as i128,
        None => false,
    };
    if recent {
        return None;
    }
    let level = if change.magnitude_at_least(Value::from_bits(HOT_THRESHOLD_BITS)) {
        AlertLevel::Hot
    } else {
        AlertLevel::Alert
    };
    db.insert_alert(key, level, new_value, change, now);
    Some(level)
}

/// Runs the detector for a value of `key` that is being submitted at `now`.
/// The change is measured over the last 24 hours against the store as it
/// stands: call this before the new point is appended, so that the baseline
/// is a value from before the submission.
pub fn on_submit<D: Fn(Value, Value) -> (Value, Value)>(
    db: &mut Db,
    key: &str,
    new_value: Value,
    now: i64,
    delta: &D,
) -> (raised: Option<AlertLevel>)
    requires
        old(db).wf(),
        old(db).alert_log().len() < i64::MAX,
        now - MICROS_PER_DAY >= i64::MIN,
        forall|a: Value, b: Value| call_requires(*delta, (a, b)),
    ensures
        final(db).wf(),
        exists|trend: TrendData|
            {
                &&& #[trigger] is_trend(
                    trend_start(old(db).rows(), key@, (now - MICROS_PER_DAY) as i64),
                    new_value,
                    *delta,
                    trend,
                )
                &&& raised == alert_decision(old(db).alert_log(), key@, trend.pct, now)
                &&& final(db).alert_log() == alert_log_after(
                    old(db).alert_log(),
                    key@,
                    new_value,
                    trend.pct,
                    now,
                )
            },
        final(db).rows() == old(db).rows(),
        final(db).manage_key() == old(db).manage_key(),
{
    let since: i64 = window_start(now, Period::Day.micros());
    let trend = compute_trend(db, key, new_value, since, delta);
    settle_alert(db, key, new_value, trend.pct, now)
}

} // verus!
