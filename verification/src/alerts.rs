//! What the queries of the alert log return, stated over the log.

use vstd::prelude::*;
use crate::db::AlertEntryView;
use crate::order::time_order;

verus! {

/// The instants at which the entries of the log were triggered.
pub open spec fn alert_times(log: Seq<AlertEntryView>) -> Seq<i64> {
    log.map_values(|a: AlertEntryView| a.triggered_at)
}

/// Which entries a query for `key` looks at: those of that key, or all of
/// them where no key is given.
pub open spec fn alert_choice(log: Seq<AlertEntryView>, key: Option<Seq<char>>) -> Seq<bool> {
    log.map_values(|a: AlertEntryView| key is None || a.key == key->0)
}

/// The positions of the entries that a query for `key` looks at, newest
/// first: descending by `triggered_at`, and of two entries triggered at the
/// same instant the one appended later first.
pub open spec fn newest_first(log: Seq<AlertEntryView>, key: Option<Seq<char>>) -> Seq<int> {
    let oldest_first = time_order(alert_times(log), alert_choice(log, key));
    Seq::new(oldest_first.len(), |j: int| oldest_first[oldest_first.len() - 1 - j])
}

/// How many of `n` entries a limit lets through. A negative limit bounds
/// nothing.
pub open spec fn allowed(limit: i64, n: nat) -> nat {
    if limit < 0 || limit >= n {
        n
    } else {
        limit as nat
    }
}

/// The newest entries that a query for `key` looks at, newest first, as many
/// as `limit` lets through.
pub open spec fn recent_alerts(log: Seq<AlertEntryView>, key: Option<Seq<char>>, limit: i64) -> Seq<
    AlertEntryView,
> {
    let order = newest_first(log, key);
    Seq::new(allowed(limit, order.len()), |j: int| log[order[j]])
}

/// Among the first `n` entries, `t` is the latest instant at which an alert
/// for `key` was triggered.
pub open spec fn is_last_alert_time(
    log: Seq<AlertEntryView>,
    n: int,
    key: Seq<char>,
    t: i64,
) -> bool {
    &&& exists|i: int| 0 <= i < n && (#[trigger] log[i]).key == key && log[i].triggered_at == t
    &&& forall|j: int| 0 <= j < n && (#[trigger] log[j]).key == key ==> log[j].triggered_at <= t
}

/// One of the first `n` entries is for `key`.
pub open spec fn has_alert(log: Seq<AlertEntryView>, n: int, key: Seq<char>) -> bool {
    exists|i: int| 0 <= i < n && (#[trigger] log[i]).key == key
}

/// The latest instant at which an alert for `key` was triggered, `None` where
/// the log holds no alert for `key`.
pub open spec fn last_alert_time(log: Seq<AlertEntryView>, key: Seq<char>) -> Option<i64> {
    if has_alert(log, log.len() as int, key) {
        Some(choose|t: i64| is_last_alert_time(log, log.len() as int, key, t))
    } else {
        None
    }
}

} // verus!
