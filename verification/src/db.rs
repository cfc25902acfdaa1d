//! The time-series store and the alert log.
//!
//! The store is an append-only log of stat points. Every point gets the next
//! sequence number when it is appended, so the log stands in sequence order.
//! Points leave the log only by deletion of a key or by pruning. The alert log
//! has a life of its own: nothing that removes points touches it.

use vstd::prelude::*;
use crate::alerts::{
    alert_choice, alert_times, allowed, has_alert, is_last_alert_time, last_alert_time,
    newest_first, recent_alerts,
};
use crate::order::{is_time_order, list_in_time_order};
use crate::series::{
    clamped, comes_before, distinct_keys, has_key, history, history_order, in_window,
    is_at_or_after, is_at_or_before, is_earliest_among, is_history, is_key_listing,
    is_latest_among, is_newest_among, is_oldest_time, is_sample, is_sparkline, latest_of,
    latest_stats, lemma_earliest_unique, lemma_filter_in_sequence, lemma_history_unique,
    lemma_key_listing_unique, lemma_latest_unique, lemma_newest_unique, newest_of, not_before,
    not_of_key, oldest_time, point_of, pruned_at, value_at_or_after, value_at_or_before,
    values_of,
};
use crate::text::{key_before, lemma_key_before_strict, rank_keys, same_key, Rank};
use crate::value::Value;

verus! {

/// How strongly a change was flagged.
#[derive(Clone, Copy, Debug, PartialEq, Eq, Structural)]
pub enum AlertLevel {
    Alert,
    Hot,
}

impl AlertLevel {
    /// The name of the level.
    pub open spec fn name(self) -> Seq<char> {
        match self {
            AlertLevel::Alert => "alert"@,
            AlertLevel::Hot => "hot"@,
        }
    }

    /// The level as it is written in the log: `alert` or `hot`.
    pub fn as_str(self) -> (s: &'static str)
        ensures
            s@ == self.name(),
    {
        match self {
            AlertLevel::Alert => "alert",
            AlertLevel::Hot => "hot",
        }
    }
}

/// One stored stat point.
#[derive(Debug)]
pub struct StatRow {
    pub key: String,
    pub value: Value,
    pub recorded_at: i64,
    pub metadata: Option<String>,
    pub seq: i64,
}

/// A stat point as contracts see it.
pub struct StatRowView {
    pub key: Seq<char>,
    pub value: Value,
    pub recorded_at: i64,
    pub metadata: Option<Seq<char>>,
    pub seq: i64,
}

/// The text that an optional string holds.
pub open spec fn text_of(s: Option<String>) -> Option<Seq<char>> {
    match s {
        Some(t) => Some(t@),
        None => None,
    }
}

impl View for StatRow {
    type V = StatRowView;

    open spec fn view(&self) -> StatRowView {
        StatRowView {
            key: self.key@,
            value: self.value,
            recorded_at: self.recorded_at,
            metadata: text_of(self.metadata),
            seq: self.seq,
        }
    }
}

/// The most recently appended point of a key.
#[derive(Debug)]
pub struct LatestStat {
    pub key: String,
    pub value: Value,
    pub recorded_at: i64,
    pub metadata: Option<String>,
}

/// The latest point of a key as contracts see it.
pub struct LatestStatView {
    pub key: Seq<char>,
    pub value: Value,
    pub recorded_at: i64,
    pub metadata: Option<Seq<char>>,
}

impl View for LatestStat {
    type V = LatestStatView;

    open spec fn view(&self) -> LatestStatView {
        LatestStatView {
            key: self.key@,
            value: self.value,
            recorded_at: self.recorded_at,
            metadata: text_of(self.metadata),
        }
    }
}

/// One point of a key's history.
#[derive(Clone, Copy, Debug, PartialEq, Eq, Structural)]
pub struct StatPoint {
    pub value: Value,
    pub recorded_at: i64,
}

/// One entry of the alert log.
#[derive(Debug)]
pub struct AlertEntry {
    pub key: String,
    pub level: AlertLevel,
    pub value: Value,
    pub change_pct: Value,
    pub triggered_at: i64,
}

/// An entry of the alert log as contracts see it.
pub struct AlertEntryView {
    pub key: Seq<char>,
    pub level: AlertLevel,
    pub value: Value,
    pub change_pct: Value,
    pub triggered_at: i64,
}

impl View for AlertEntry {
    type V = AlertEntryView;

    open spec fn view(&self) -> AlertEntryView {
        AlertEntryView {
            key: self.key@,
            level: self.level,
            value: self.value,
            change_pct: self.change_pct,
            triggered_at: self.triggered_at,
        }
    }
}

/// The log stands in sequence order: sequence numbers start at 1 or above and
/// grow strictly from each point to the next.
pub open spec fn in_sequence(rows: Seq<StatRowView>) -> bool {
    &&& forall|i: int| 0 <= i < rows.len() ==> (#[trigger] rows[i]).seq >= 1
    &&& forall|i: int, j: int|
        0 <= i < j < rows.len() ==> (#[trigger] rows[i]).seq < (#[trigger] rows[j]).seq
}

/// The highest sequence number in the log, 0 for an empty log.
pub open spec fn max_seq(rows: Seq<StatRowView>) -> int {
    if rows.len() == 0 {
        0
    } else {
        rows.last().seq as int
    }
}

/// In a log in sequence order `max_seq` is the maximum: no point has a higher
/// number, and a log that is not empty holds a point with just that number.
pub proof fn lemma_max_seq_is_maximum(rows: Seq<StatRowView>)
    requires
        in_sequence(rows),
    ensures
        forall|i: int| 0 <= i < rows.len() ==> (#[trigger] rows[i]).seq <= max_seq(rows),
        rows.len() > 0 ==> exists|i: int| 0 <= i < rows.len() && rows[i].seq == max_seq(rows),
        rows.len() <= max_seq(rows),
    decreases rows.len(),
{
    if rows.len() > 0 {
        let last = rows.len() - 1;
        assert(rows[last].seq == max_seq(rows));
        assert forall|i: int| 0 <= i < rows.len() implies (#[trigger] rows[i]).seq <= max_seq(
            rows,
        ) by {
            if i < last {
                assert(rows[i].seq < rows[last].seq);
            }
        }
        let front = rows.drop_last();
        assert forall|i: int, j: int| 0 <= i < j < front.len() implies (#[trigger] front[i]).seq
            < (#[trigger] front[j]).seq by {
            assert(rows[i].seq < rows[j].seq);
        }
        assert forall|i: int| 0 <= i < front.len() implies (#[trigger] front[i]).seq >= 1 by {
            assert(rows[i].seq >= 1);
        }
        lemma_max_seq_is_maximum(front);
        if front.len() > 0 {
            assert(front.last() == rows[last - 1]);
            assert(rows[last - 1].seq < rows[last].seq);
        } else {
            assert(rows[last].seq >= 1);
        }
    }
}

/// The store: the log of stat points, the alert log, and the manage key.
pub struct Db {
    stats: Vec<StatRow>,
    alerts: Vec<AlertEntry>,
    manage_key: Option<String>,
}

impl Db {
    /// The log of stat points, in the order in which they were appended.
    pub closed spec fn rows(&self) -> Seq<StatRowView> {
        self.stats@.map_values(|r: StatRow| r@)
    }

    /// The alert log, in the order in which its entries were appended.
    pub closed spec fn alert_log(&self) -> Seq<AlertEntryView> {
        self.alerts@.map_values(|a: AlertEntry| a@)
    }

    /// The manage key, if one is set.
    pub closed spec fn manage_key(&self) -> Option<Seq<char>> {
        text_of(self.manage_key)
    }

    /// What holds of every store that this module hands out: the log is in
    /// sequence order, and the alert log can be counted in an `i64`.
    pub closed spec fn wf(&self) -> bool {
        &&& in_sequence(self.rows())
        &&& self.alert_log().len() <= i64::MAX
    }

    /// What `wf` says, for those who hold a store.
    pub proof fn lemma_wf(&self)
        requires
            self.wf(),
        ensures
            in_sequence(self.rows()),
            self.alert_log().len() <= i64::MAX,
            self.rows().len() <= max_seq(self.rows()) <= i64::MAX,
    {
        lemma_max_seq_is_maximum(self.rows());
    }

    /// An empty store.
    pub fn new() -> (db: Db)
        ensures
            db.wf(),
            db.rows() == Seq::<StatRowView>::empty(),
            db.alert_log() == Seq::<AlertEntryView>::empty(),
            db.manage_key() is None,
    {
        let db = Db { stats: Vec::new(), alerts: Vec::new(), manage_key: None };
        assert(db.rows() =~= Seq::<StatRowView>::empty());
        assert(db.alert_log() =~= Seq::<AlertEntryView>::empty());
        db
    }

    /// A store that holds the given points, alerts and manage key, as they
    /// were read back from where they are kept. `None` where the points are
    /// not in sequence order or the alerts are too many to count.
    pub fn restore(stats: Vec<StatRow>, alerts: Vec<AlertEntry>, manage_key: Option<String>) -> (db:
        Option<Db>)
        ensures
            db is Some <==> in_sequence(stats@.map_values(|r: StatRow| r@)) && alerts.len()
                <= i64::MAX,
            db is Some ==> {
                &&& db->0.wf()
                &&& db->0.rows() == stats@.map_values(|r: StatRow| r@)
                &&& db->0.alert_log() == alerts@.map_values(|a: AlertEntry| a@)
                &&& db->0.manage_key() == text_of(manage_key)
            },
    {
        let ghost rows = stats@.map_values(|r: StatRow| r@);
        if alerts.len() as u64 > 0x7fff_ffff_ffff_ffff {
            return None;
        }
        let mut i: usize = 0;
        while i < stats.len()
            invariant
                i <= stats.len(),
                rows == stats@.map_values(|r: StatRow| r@),
                forall|k: int| 0 <= k < i ==> (#[trigger] rows[k]).seq >= 1,
                forall|a: int, b: int|
                    0 <= a < b < i ==> (#[trigger] rows[a]).seq < (#[trigger] rows[b]).seq,
            decreases stats.len() - i,
        {
            assert(rows[i as int] == stats@[i as int]@);
            if stats[i].seq < 1 {
                return None;
            }
            if i > 0 {
                assert(rows[i - 1] == stats@[i - 1]@);
                if stats[i - 1].seq >= stats[i].seq {
                    return None;
                }
                assert forall|a: int, b: int| 0 <= a < b < i + 1 implies (#[trigger] rows[a]).seq
                    < (#[trigger] rows[b]).seq by {
                    if b == i && a < i - 1 {
                        assert(rows[a].seq < rows[i - 1].seq);
                    }
                }
            }
            i += 1;
        }
        Some(Db { stats, alerts, manage_key })
    }

    /// The points of the log, in the order in which they were appended.
    pub fn stats(&self) -> (stats: &Vec<StatRow>)
        ensures
            stats@.map_values(|r: StatRow| r@) == self.rows(),
    {
        &self.stats
    }

    /// The entries of the alert log, in the order in which they were
    /// appended.
    pub fn alerts(&self) -> (alerts: &Vec<AlertEntry>)
        ensures
            alerts@.map_values(|a: AlertEntry| a@) == self.alert_log(),
    {
        &self.alerts
    }

    /// Appends a point and returns its sequence number: one more than the
    /// highest in the log, whichever key the point is for.
    pub fn insert_stat(
        &mut self,
        key: &str,
        value: Value,
        recorded_at: i64,
        metadata: Option<&str>,
    ) -> (seq: i64)
        requires
            old(self).wf(),
            max_seq(old(self).rows()) < i64::MAX,
        ensures
            seq == max_seq(old(self).rows()) + 1,
            final(self).rows() == old(self).rows().push(
                StatRowView {
                    key: key@,
                    value,
                    recorded_at,
                    metadata: match metadata {
                        Some(m) => Some(m@),
                        None => None,
                    },
                    seq,
                },
            ),
            final(self).alert_log() == old(self).alert_log(),
            final(self).manage_key() == old(self).manage_key(),
            final(self).wf(),
    {
        proof {
            lemma_max_seq_is_maximum(self.rows());
        }
        let n: usize = self.stats.len();
        let seq: i64 = if n == 0 {
            1
        } else {
            assert(self.rows().last() == self.stats@[n - 1]@);
            self.stats[n - 1].seq + 1
        };
        let stored: Option<String> = match metadata {
            Some(m) => Some(m.to_owned()),
            None => None,
        };
        let row = StatRow { key: key.to_owned(), value, recorded_at, metadata: stored, seq };
        let ghost before = self.rows();
        self.stats.push(row);
        proof {
            assert(self.rows() =~= before.push(row@));
            assert forall|i: int, j: int| 0 <= i < j < self.rows().len() implies (
            #[trigger] self.rows()[i]).seq < (#[trigger] self.rows()[j]).seq by {
                if j < before.len() {
                    assert(before[i].seq < before[j].seq);
                } else {
                    assert(before[i].seq <= max_seq(before));
                }
            }
        }
        seq
    }

    /// The number of points in the log.
    pub fn get_stat_count(&self) -> (count: i64)
        requires
            self.wf(),
        ensures
            count == self.rows().len(),
    {
        proof {
            lemma_max_seq_is_maximum(self.rows());
        }
        self.stats.len() as i64
    }

    /// The value of `key` as it stood at `at`: that of its latest point not
    /// after `at`.
    pub fn get_stat_at_time(&self, key: &str, at: i64) -> (found: Option<Value>)
        requires
            self.wf(),
        ensures
            found == value_at_or_before(self.rows(), key@, at),
            found is None <==> forall|i: int|
                0 <= i < self.rows().len() ==> !is_at_or_before(
                    #[trigger] self.rows()[i],
                    key@,
                    at,
                ),
    {
        let ghost rows = self.rows();
        let mut best: Option<usize> = None;
        let mut i: usize = 0;
        while i < self.stats.len()
            invariant
                i <= self.stats.len(),
                rows == self.rows(),
                in_sequence(rows),
                match best {
                    Some(b) => is_latest_among(rows, i as int, key@, at, b as int),
                    None => forall|j: int|
                        0 <= j < i ==> !is_at_or_before(#[trigger] rows[j], key@, at),
                },
            decreases self.stats.len() - i,
        {
            let row = &self.stats[i];
            assert(rows[i as int] == row@);
            if row.recorded_at <= at && same_key(row.key.as_str(), key) {
                let newer: bool = match best {
                    Some(b) => {
                        assert(rows[b as int] == self.stats@[b as int]@);
                        assert(rows[b as int].seq < rows[i as int].seq);
                        self.stats[b].recorded_at <= row.recorded_at
                    },
                    None => true,
                };
                if newer {
                    assert forall|j: int|
                        0 <= j < i + 1 && j != i && is_at_or_before(
                            #[trigger] rows[j],
                            key@,
                            at,
                        ) implies comes_before(rows[j], rows[i as int]) by {
                        assert(rows[j].seq < rows[i as int].seq);
                    }
                    best = Some(i);
                }
            }
            i += 1;
        }
        match best {
            Some(b) => {
                proof {
                    let c = choose|c: int| is_latest_among(rows, rows.len() as int, key@, at, c);
                    lemma_latest_unique(rows, key@, at, b as int, c);
                    assert(rows[b as int] == self.stats@[b as int]@);
                }
                Some(self.stats[b].value)
            },
            None => None,
        }
    }

    /// The first value of `key` from `since` on: that of its earliest point
    /// not before `since`.
    pub fn get_earliest_stat_since(&self, key: &str, since: i64) -> (found: Option<Value>)
        requires
            self.wf(),
        ensures
            found == value_at_or_after(self.rows(), key@, since),
            found is None <==> forall|i: int|
                0 <= i < self.rows().len() ==> !is_at_or_after(
                    #[trigger] self.rows()[i],
                    key@,
                    since,
                ),
    {
        let ghost rows = self.rows();
        let mut best: Option<usize> = None;
        let mut i: usize = 0;
        while i < self.stats.len()
            invariant
                i <= self.stats.len(),
                rows == self.rows(),
                in_sequence(rows),
                match best {
                    Some(b) => is_earliest_among(rows, i as int, key@, since, b as int),
                    None => forall|j: int|
                        0 <= j < i ==> !is_at_or_after(#[trigger] rows[j], key@, since),
                },
            decreases self.stats.len() - i,
        {
            let row = &self.stats[i];
            assert(rows[i as int] == row@);
            if row.recorded_at >= since && same_key(row.key.as_str(), key) {
                let older: bool = match best {
                    Some(b) => {
                        assert(rows[b as int] == self.stats@[b as int]@);
                        assert(rows[b as int].seq < rows[i as int].seq);
                        row.recorded_at < self.stats[b].recorded_at
                    },
                    None => true,
                };
                if older {
                    assert forall|j: int|
                        0 <= j < i + 1 && j != i && is_at_or_after(
                            #[trigger] rows[j],
                            key@,
                            since,
                        ) implies comes_before(rows[i as int], rows[j]) by {
                        if best is Some {
                            let b = best->0 as int;
                            if j != b {
                                assert(comes_before(rows[b], rows[j]));
                            }
                        }
                    }
                    best = Some(i);
                } else {
                    assert(rows[best->0 as int].seq < rows[i as int].seq);
                }
            }
            i += 1;
        }
        match best {
            Some(b) => {
                proof {
                    let c = choose|c: int|
                        is_earliest_among(rows, rows.len() as int, key@, since, c);
                    lemma_earliest_unique(rows, key@, since, b as int, c);
                    assert(rows[b as int] == self.stats@[b as int]@);
                }
                Some(self.stats[b].value)
            },
            None => None,
        }
    }

    /// The earliest `recorded_at` over all keys.
    pub fn get_oldest_stat_time(&self) -> (oldest: Option<i64>)
        requires
            self.wf(),
        ensures
            oldest == oldest_time(self.rows()),
            oldest is None <==> self.rows().len() == 0,
            oldest is Some ==> is_oldest_time(
                self.rows(),
                self.rows().len() as int,
                oldest->0,
            ),
    {
        let ghost rows = self.rows();
        if self.stats.len() == 0 {
            return None;
        }
        assert(rows[0] == self.stats@[0]@);
        let mut least: i64 = self.stats[0].recorded_at;
        let mut i: usize = 1;
        while i < self.stats.len()
            invariant
                1 <= i <= self.stats.len(),
                rows == self.rows(),
                is_oldest_time(rows, i as int, least),
            decreases self.stats.len() - i,
        {
            assert(rows[i as int] == self.stats@[i as int]@);
            let ghost w = choose|w: int| 0 <= w < i && (#[trigger] rows[w]).recorded_at == least;
            if self.stats[i].recorded_at < least {
                least = self.stats[i].recorded_at;
            } else {
                assert(rows[w].recorded_at == least);
            }
            i += 1;
        }
        proof {
            let t = choose|t: i64| is_oldest_time(rows, rows.len() as int, t);
            let w = choose|w: int| 0 <= w < rows.len() && (#[trigger] rows[w]).recorded_at == least;
            let v = choose|v: int| 0 <= v < rows.len() && (#[trigger] rows[v]).recorded_at == t;
            assert(t <= rows[w].recorded_at);
            assert(least <= rows[v].recorded_at);
        }
        Some(least)
    }

    /// The positions of the points of `key` in the window, in history order.
    fn window_order(&self, key: &str, lo: i64, hi: i64) -> (picks: Vec<usize>)
        requires
            self.wf(),
        ensures
            picks@.map_values(|p: usize| p as int) == history_order(self.rows(), key@, lo, hi),
            is_history(self.rows(), key@, lo, hi, picks@.map_values(|p: usize| p as int)),
            forall|j: int| 0 <= j < picks.len() ==> #[trigger] picks@[j] < self.stats.len(),
    {
        let ghost rows = self.rows();
        let mut times: Vec<i64> = Vec::new();
        let mut chosen: Vec<bool> = Vec::new();
        let mut i: usize = 0;
        while i < self.stats.len()
            invariant
                i <= self.stats.len(),
                rows == self.rows(),
                times.len() == i,
                chosen.len() == i,
                forall|j: int| 0 <= j < i ==> #[trigger] times@[j] == rows[j].recorded_at,
                forall|j: int|
                    0 <= j < i ==> #[trigger] chosen@[j] == in_window(rows[j], key@, lo, hi),
            decreases self.stats.len() - i,
        {
            let row = &self.stats[i];
            assert(rows[i as int] == row@);
            times.push(row.recorded_at);
            chosen.push(
                lo <= row.recorded_at && row.recorded_at <= hi && same_key(row.key.as_str(), key),
            );
            i += 1;
        }
        let picks = list_in_time_order(&times, &chosen);
        proof {
            let listed = picks@.map_values(|p: usize| p as int);
            assert forall|j: int| 0 <= j < listed.len() implies 0 <= #[trigger] listed[j]
                < rows.len() && in_window(rows[listed[j]], key@, lo, hi) by {
                assert(chosen@[listed[j]]);
            }
            assert forall|a: int, b: int| 0 <= a < b < listed.len() implies comes_before(
                rows[#[trigger] listed[a]],
                rows[#[trigger] listed[b]],
            ) by {
                assert(crate::order::earlier(times@, listed[a], listed[b]));
                assert(times@[listed[a]] == rows[listed[a]].recorded_at);
                assert(times@[listed[b]] == rows[listed[b]].recorded_at);
                if listed[a] < listed[b] {
                    assert(rows[listed[a]].seq < rows[listed[b]].seq);
                }
            }
            assert forall|r: int|
                0 <= r < rows.len() && in_window(
                    #[trigger] rows[r],
                    key@,
                    lo,
                    hi,
                ) implies listed.contains(r) by {
                assert(chosen@[r]);
            }
            lemma_history_unique(rows, key@, lo, hi, listed);
            assert forall|j: int| 0 <= j < picks.len() implies #[trigger] picks@[j]
                < self.stats.len() by {
                assert(0 <= listed[j] < rows.len());
            }
        }
        picks
    }

    /// The history of `key` in the window from `start` to `end`, both ends
    /// included, ascending by `recorded_at` and then by sequence number. A
    /// key without points has an empty history.
    pub fn get_stat_history_range(&self, key: &str, start: i64, end: i64) -> (points: Vec<
        StatPoint,
    >)
        requires
            self.wf(),
        ensures
            points@ == history(self.rows(), key@, start, end),
    {
        let ghost rows = self.rows();
        let picks = self.window_order(key, start, end);
        let ghost listed = picks@.map_values(|p: usize| p as int);
        let mut points: Vec<StatPoint> = Vec::new();
        let mut j: usize = 0;
        while j < picks.len()
            invariant
                j <= picks.len(),
                rows == self.rows(),
                listed == picks@.map_values(|p: usize| p as int),
                forall|k: int| 0 <= k < picks.len() ==> #[trigger] picks@[k] < self.stats.len(),
                points.len() == j,
                forall|k: int| 0 <= k < j ==> #[trigger] points@[k] == point_of(rows[listed[k]]),
            decreases picks.len() - j,
        {
            let row = &self.stats[picks[j]];
            assert(rows[listed[j as int]] == row@);
            points.push(StatPoint { value: row.value, recorded_at: row.recorded_at });
            j += 1;
        }
        assert(points@ =~= history(rows, key@, start, end));
        points
    }

    /// The history of `key` from `since` on.
    pub fn get_stat_history(&self, key: &str, since: i64) -> (points: Vec<StatPoint>)
        requires
            self.wf(),
        ensures
            points@ == history(self.rows(), key@, since, i64::MAX),
    {
        self.get_stat_history_range(key, since, i64::MAX)
    }

    /// A sparkline of at most `points` values over the history of `key` from
    /// `since` on. A history of no more than `points` values is returned as it
    /// is. A longer one is sampled at `points` places: for place `i` the
    /// caller's `stride` names an index into the history, where an index
    /// beyond the end means the last value.
    pub fn get_sparkline<S: Fn(usize, usize, usize) -> usize>(
        &self,
        key: &str,
        since: i64,
        points: usize,
        stride: &S,
    ) -> (line: Vec<Value>)
        requires
            self.wf(),
            forall|i: usize, n: usize, p: usize| call_requires(*stride, (i, n, p)),
        ensures
            is_sparkline(
                values_of(history(self.rows(), key@, since, i64::MAX)),
                points,
                *stride,
                line@,
            ),
            line.len() == if history(self.rows(), key@, since, i64::MAX).len() <= points {
                history(self.rows(), key@, since, i64::MAX).len()
            } else {
                points as nat
            },
    {
        let past = self.get_stat_history(key, since);
        let ghost values = values_of(past@);
        let mut line: Vec<Value> = Vec::new();
        if past.len() <= points {
            let mut j: usize = 0;
            while j < past.len()
                invariant
                    j <= past.len(),
                    line.len() == j,
                    forall|k: int| 0 <= k < j ==> #[trigger] line@[k] == past@[k].value,
                decreases past.len() - j,
            {
                line.push(past[j].value);
                j += 1;
            }
            assert(line@ =~= values);
            return line;
        }
        let mut i: usize = 0;
        while i < points
            invariant
                i <= points,
                points < past.len(),
                values == values_of(past@),
                line.len() == i,
                forall|i: usize, n: usize, p: usize| call_requires(*stride, (i, n, p)),
                forall|k: int|
                    0 <= k < i ==> is_sample(values, points, *stride, k, #[trigger] line@[k]),
            decreases points - i,
        {
            let index: usize = stride(i, past.len(), points);
            let at: usize = if index < past.len() {
                index
            } else {
                past.len() - 1
            };
            line.push(past[at].value);
            proof {
                assert(call_ensures(*stride, (i, values.len() as usize, points), index));
                assert(line@[i as int] == clamped(values, index));
                assert(is_sample(values, points, *stride, i as int, line@[i as int]));
            }
            i += 1;
        }
        line
    }

    /// The keys that have at least one point, ascending, each once.
    pub fn get_all_keys(&self) -> (keys: Vec<String>)
        requires
            self.wf(),
        ensures
            texts_of(keys@) == distinct_keys(self.rows()),
            is_key_listing(self.rows(), self.rows().len() as int, texts_of(keys@)),
    {
        let ghost rows = self.rows();
        let mut keys: Vec<String> = Vec::new();
        let mut i: usize = 0;
        assert(texts_of(keys@) =~= Seq::<Seq<char>>::empty());
        while i < self.stats.len()
            invariant
                i <= self.stats.len(),
                rows == self.rows(),
                is_key_listing(rows, i as int, texts_of(keys@)),
            decreases self.stats.len() - i,
        {
            let key = self.stats[i].key.as_str();
            assert(rows[i as int] == self.stats@[i as int]@);
            let ghost names = texts_of(keys@);
            let mut pos: usize = 0;
            let mut present: bool = false;
            while pos < keys.len()
                invariant_except_break
                    !present,
                invariant
                    pos <= keys.len(),
                    names == texts_of(keys@),
                    forall|j: int| 0 <= j < pos ==> key_before(#[trigger] names[j], key@),
                ensures
                    pos <= keys.len(),
                    present ==> pos < keys.len() && names[pos as int] == key@,
                    !present ==> pos == keys.len() || key_before(key@, names[pos as int]),
                decreases keys.len() - pos,
            {
                assert(names[pos as int] == keys@[pos as int]@);
                match rank_keys(keys[pos].as_str(), key) {
                    Rank::Before => {
                        pos += 1;
                    },
                    Rank::Same => {
                        present = true;
                        break ;
                    },
                    Rank::After => {
                        break ;
                    },
                }
            }
            if !present {
                keys.insert(pos, self.stats[i].key.clone());
            }
            proof {
                let after = texts_of(keys@);
                if present {
                    assert(after == names);
                    assert forall|j: int| 0 <= j < after.len() implies has_key(
                        rows,
                        i + 1,
                        #[trigger] after[j],
                    ) by {
                        assert(has_key(rows, i as int, names[j]));
                        let w = choose|w: int| 0 <= w < i && (#[trigger] rows[w]).key == names[j];
                        assert(rows[w].key == after[j]);
                    }
                    assert forall|r: int| 0 <= r < i + 1 implies after.contains(
                        (#[trigger] rows[r]).key,
                    ) by {
                        if r == i {
                            assert(after[pos as int] == rows[r].key);
                        }
                    }
                } else {
                    assert(after =~= names.insert(pos as int, key@));
                    assert forall|j: int| 0 <= j < after.len() implies has_key(
                        rows,
                        i + 1,
                        #[trigger] after[j],
                    ) by {
                        if j == pos {
                            assert(rows[i as int].key == after[j]);
                        } else {
                            let old_j = if j < pos { j } else { j - 1 };
                            assert(after[j] == names[old_j]);
                            assert(has_key(rows, i as int, names[old_j]));
                            let w = choose|w: int|
                                0 <= w < i && (#[trigger] rows[w]).key == names[old_j];
                            assert(rows[w].key == after[j]);
                        }
                    }
                    assert forall|a: int, b: int| 0 <= a < b < after.len() implies key_before(
                        #[trigger] after[a],
                        #[trigger] after[b],
                    ) by {
                        let xa = if a < pos { a } else { a - 1 };
                        let xb = if b < pos { b } else { b - 1 };
                        if a != pos && b != pos {
                            assert(after[a] == names[xa]);
                            assert(after[b] == names[xb]);
                        } else if a == pos {
                            assert(after[b] == names[xb]);
                            if xb > pos {
                                assert(key_before(names[pos as int], names[xb]));
                                lemma_key_before_strict(key@, names[pos as int], names[xb]);
                            }
                        } else {
                            assert(after[a] == names[xa]);
                        }
                    }
                    assert forall|r: int| 0 <= r < i + 1 implies after.contains(
                        (#[trigger] rows[r]).key,
                    ) by {
                        if r == i {
                            assert(after[pos as int] == rows[r].key);
                        } else {
                            assert(names.contains(rows[r].key));
                            let j = choose|j: int| 0 <= j < names.len() && names[j] == rows[r].key;
                            if j < pos {
                                assert(after[j] == rows[r].key);
                            } else {
                                assert(after[j + 1] == rows[r].key);
                            }
                        }
                    }
                }
            }
            i += 1;
        }
        proof {
            lemma_key_listing_unique(rows, texts_of(keys@));
        }
        keys
    }

    /// For each key, ascending, its most recently appended point: the one
    /// with the highest sequence number, whatever its `recorded_at`.
    pub fn get_latest_stats(&self) -> (latest: Vec<LatestStat>)
        requires
            self.wf(),
        ensures
            latest@.map_values(|s: LatestStat| s@) == latest_stats(self.rows()),
            latest.len() == distinct_keys(self.rows()).len(),
            forall|j: int|
                0 <= j < latest.len() ==> (#[trigger] latest@[j])@ == latest_of(
                    self.rows()[newest_of(self.rows(), distinct_keys(self.rows())[j])],
                ),
    {
        let ghost rows = self.rows();
        let keys = self.get_all_keys();
        let ghost names = texts_of(keys@);
        let mut latest: Vec<LatestStat> = Vec::new();
        let mut k: usize = 0;
        while k < keys.len()
            invariant
                k <= keys.len(),
                rows == self.rows(),
                in_sequence(rows),
                names == texts_of(keys@),
                is_key_listing(rows, rows.len() as int, names),
                latest.len() == k,
                forall|j: int|
                    0 <= j < k ==> (#[trigger] latest@[j])@ == latest_of(
                        rows[newest_of(rows, names[j])],
                    ),
            decreases keys.len() - k,
        {
            let key = keys[k].as_str();
            assert(names[k as int] == key@);
            assert(has_key(rows, rows.len() as int, names[k as int]));
            let mut newest: usize = 0;
            let mut seen: bool = false;
            let mut i: usize = 0;
            while i < self.stats.len()
                invariant
                    i <= self.stats.len(),
                    rows == self.rows(),
                    in_sequence(rows),
                    seen ==> is_newest_among(rows, i as int, key@, newest as int),
                    !seen ==> forall|j: int| 0 <= j < i ==> (#[trigger] rows[j]).key != key@,
                decreases self.stats.len() - i,
            {
                assert(rows[i as int] == self.stats@[i as int]@);
                if same_key(self.stats[i].key.as_str(), key) {
                    assert forall|j: int|
                        0 <= j < i + 1 && (#[trigger] rows[j]).key == key@ implies rows[j].seq
                        <= rows[i as int].seq by {
                        if j < i {
                            assert(rows[j].seq < rows[i as int].seq);
                        }
                    }
                    newest = i;
                    seen = true;
                }
                i += 1;
            }
            proof {
                let w = choose|w: int| 0 <= w < rows.len() && (#[trigger] rows[w]).key == key@;
                assert(rows[w].key == key@);
                assert(seen);
                lemma_newest_unique(rows, key@, newest as int);
            }
            let row = &self.stats[newest];
            assert(rows[newest as int] == row@);
            let metadata: Option<String> = match &row.metadata {
                Some(m) => Some(m.clone()),
                None => None,
            };
            latest.push(
                LatestStat {
                    key: row.key.clone(),
                    value: row.value,
                    recorded_at: row.recorded_at,
                    metadata,
                },
            );
            k += 1;
        }
        proof {
            assert(latest@.map_values(|s: LatestStat| s@) =~= latest_stats(rows));
        }
        latest
    }

    /// Removes the points whose mark in `keep` is `false` and returns how many
    /// they were.
    fn keep_marked(
        &mut self,
        keep: &Vec<bool>,
        Ghost(pred): Ghost<spec_fn(StatRowView) -> bool>,
    ) -> (removed: i64)
        requires
            old(self).wf(),
            keep.len() == old(self).rows().len(),
            forall|j: int| 0 <= j < keep.len() ==> #[trigger] keep@[j] == pred(old(self).rows()[j]),
        ensures
            final(self).wf(),
            final(self).rows() == old(self).rows().filter(pred),
            removed == old(self).rows().len() - final(self).rows().len(),
            final(self).alert_log() == old(self).alert_log(),
            final(self).manage_key() == old(self).manage_key(),
    {
        let ghost rows = self.rows();
        proof {
            lemma_max_seq_is_maximum(rows);
            lemma_filter_in_sequence(rows, pred);
        }
        let mut all: Vec<StatRow> = Vec::new();
        core::mem::swap(&mut self.stats, &mut all);
        let total: usize = all.len();
        let mut j: usize = 0;
        assert(self.rows() =~= rows.take(0).filter(pred)) by {
            reveal(Seq::filter);
        }
        for row in it: all
            invariant
                j == it.index(),
                it.seq().map_values(|r: StatRow| r@) == rows,
                keep.len() == rows.len(),
                forall|k: int| 0 <= k < keep.len() ==> #[trigger] keep@[k] == pred(rows[k]),
                self.rows() == rows.take(j as int).filter(pred),
                self.alert_log() == old(self).alert_log(),
                self.manage_key() == old(self).manage_key(),
        {
            proof {
                assert(rows[j as int] == row@);
                rows.lemma_take_succ_push(j as int);
                rows.take(j as int).lemma_filter_push(rows[j as int], pred);
            }
            let ghost before = self.rows();
            if keep[j] {
                self.stats.push(row);
                assert(self.rows() =~= before.push(row@));
            }
            j += 1;
        }
        proof {
            assert(rows.take(j as int) =~= rows);
            rows.lemma_filter_len(pred);
        }
        (total - self.stats.len()) as i64
    }

    /// Removes every point of `key` and returns how many they were: 0 where
    /// the key had none. The alert log is left as it is.
    pub fn delete_stats_by_key(&mut self, key: &str) -> (deleted: i64)
        requires
            old(self).wf(),
        ensures
            final(self).wf(),
            final(self).rows() == old(self).rows().filter(not_of_key(key@)),
            deleted == old(self).rows().len() - final(self).rows().len(),
            final(self).alert_log() == old(self).alert_log(),
            final(self).manage_key() == old(self).manage_key(),
    {
        let ghost rows = self.rows();
        let mut keep: Vec<bool> = Vec::new();
        let mut i: usize = 0;
        while i < self.stats.len()
            invariant
                i <= self.stats.len(),
                rows == self.rows(),
                keep.len() == i,
                forall|j: int| 0 <= j < i ==> #[trigger] keep@[j] == not_of_key(key@)(rows[j]),
            decreases self.stats.len() - i,
        {
            assert(rows[i as int] == self.stats@[i as int]@);
            keep.push(!same_key(self.stats[i].key.as_str(), key));
            i += 1;
        }
        self.keep_marked(&keep, Ghost(not_of_key(key@)))
    }

    /// Removes every point, of whatever key, that was recorded before
    /// `cutoff`, and returns how many they were. A point exactly at the cutoff
    /// stays. The alert log is left as it is.
    pub fn prune_older_than(&mut self, cutoff: i64) -> (deleted: i64)
        requires
            old(self).wf(),
        ensures
            final(self).wf(),
            final(self).rows() == old(self).rows().filter(not_before(cutoff as int)),
            deleted == old(self).rows().len() - final(self).rows().len(),
            final(self).alert_log() == old(self).alert_log(),
            final(self).manage_key() == old(self).manage_key(),
    {
        self.prune_before(cutoff as i128)
    }

    /// `prune_older_than` for a cutoff that an `i64` need not hold.
    fn prune_before(&mut self, cutoff: i128) -> (deleted: i64)
        requires
            old(self).wf(),
        ensures
            final(self).wf(),
            final(self).rows() == old(self).rows().filter(not_before(cutoff as int)),
            deleted == old(self).rows().len() - final(self).rows().len(),
            final(self).alert_log() == old(self).alert_log(),
            final(self).manage_key() == old(self).manage_key(),
    {
        let ghost rows = self.rows();
        let mut keep: Vec<bool> = Vec::new();
        let mut i: usize = 0;
        while i < self.stats.len()
            invariant
                i <= self.stats.len(),
                rows == self.rows(),
                keep.len() == i,
                forall|j: int|
                    0 <= j < i ==> #[trigger] keep@[j] == not_before(cutoff as int)(rows[j]),
            decreases self.stats.len() - i,
        {
            assert(rows[i as int] == self.stats@[i as int]@);
            keep.push(self.stats[i].recorded_at as i128 >= cutoff);
            i += 1;
        }
        self.keep_marked(&keep, Ghost(not_before(cutoff as int)))
    }

    /// Prunes at a retention horizon of `days` whole days before `now`:
    /// removes every point recorded before that instant.
    pub fn prune_old_stats_at(&mut self, days: i64, now: i64) -> (deleted: i64)
        requires
            old(self).wf(),
        ensures
            final(self).wf(),
            final(self).rows() == pruned_at(old(self).rows(), days, now),
            deleted == old(self).rows().len() - final(self).rows().len(),
            final(self).alert_log() == old(self).alert_log(),
            final(self).manage_key() == old(self).manage_key(),
    {
        let cutoff: i128 = crate::time::retention_cutoff(now, days);
        self.prune_before(cutoff)
    }

    /// Prunes at a retention horizon of `days` whole days before the present
    /// instant, as the clock gives it.
    pub fn prune_old_stats(&mut self, days: i64) -> (deleted: i64)
        requires
            old(self).wf(),
        ensures
            final(self).wf(),
            exists|now: i64|
                now >= 0 && final(self).rows() == #[trigger] pruned_at(old(self).rows(), days, now),
            deleted == old(self).rows().len() - final(self).rows().len(),
            final(self).alert_log() == old(self).alert_log(),
            final(self).manage_key() == old(self).manage_key(),
    {
        let now: i64 = crate::time::clock_micros();
        self.prune_old_stats_at(days, now)
    }

    /// Appends an entry to the alert log. The log of stat points is left as
    /// it is.
    pub fn insert_alert(
        &mut self,
        key: &str,
        level: AlertLevel,
        value: Value,
        change_pct: Value,
        triggered_at: i64,
    )
        requires
            old(self).wf(),
            old(self).alert_log().len() < i64::MAX,
        ensures
            final(self).wf(),
            final(self).alert_log() == old(self).alert_log().push(
                AlertEntryView { key: key@, level, value, change_pct, triggered_at },
            ),
            final(self).rows() == old(self).rows(),
            final(self).manage_key() == old(self).manage_key(),
    {
        let ghost before = self.alert_log();
        let entry = AlertEntry { key: key.to_owned(), level, value, change_pct, triggered_at };
        self.alerts.push(entry);
        assert(self.alert_log() =~= before.push(entry@));
    }

    /// The number of entries in the alert log.
    pub fn get_alert_count(&self) -> (count: i64)
        requires
            self.wf(),
        ensures
            count == self.alert_log().len(),
    {
        self.alerts.len() as i64
    }

    /// The latest instant at which an alert for `key` was triggered.
    pub fn get_last_alert_time(&self, key: &str) -> (last: Option<i64>)
        requires
            self.wf(),
        ensures
            last == last_alert_time(self.alert_log(), key@),
            last is None <==> !has_alert(self.alert_log(), self.alert_log().len() as int, key@),
            last is Some ==> is_last_alert_time(
                self.alert_log(),
                self.alert_log().len() as int,
                key@,
                last->0,
            ),
    {
        let ghost log = self.alert_log();
        let mut last: Option<i64> = None;
        let mut i: usize = 0;
        while i < self.alerts.len()
            invariant
                i <= self.alerts.len(),
                log == self.alert_log(),
                match last {
                    Some(t) => is_last_alert_time(log, i as int, key@, t),
                    None => !has_alert(log, i as int, key@),
                },
            decreases self.alerts.len() - i,
        {
            let entry = &self.alerts[i];
            assert(log[i as int] == entry@);
            if same_key(entry.key.as_str(), key) {
                let later: bool = match last {
                    Some(t) => t < entry.triggered_at,
                    None => true,
                };
                if later {
                    last = Some(entry.triggered_at);
                } else {
                    proof {
                        let w = choose|w: int|
                            0 <= w < i && (#[trigger] log[w]).key == key@ && log[w].triggered_at
                                == last->0;
                        assert(log[w].key == key@);
                    }
                }
            } else {
                proof {
                    if last is Some {
                        let w = choose|w: int|
                            0 <= w < i && (#[trigger] log[w]).key == key@ && log[w].triggered_at
                                == last->0;
                        assert(log[w].key == key@);
                    }
                }
            }
            i += 1;
        }
        proof {
            if last is Some {
                let t = choose|t: i64| is_last_alert_time(log, log.len() as int, key@, t);
                let w = choose|w: int|
                    0 <= w < log.len() && (#[trigger] log[w]).key == key@ && log[w].triggered_at
                        == last->0;
                let v = choose|v: int|
                    0 <= v < log.len() && (#[trigger] log[v]).key == key@ && log[v].triggered_at
                        == t;
                assert(log[w].key == key@);
                assert(has_alert(log, log.len() as int, key@));
                assert(log[w].triggered_at <= t);
                assert(log[v].triggered_at <= last->0);
            }
        }
        last
    }

    /// The newest entries of the alert log, newest first, of `key` where one
    /// is given and of every key where none is, as many as `limit` lets
    /// through.
    fn select_alerts(&self, key: Option<&str>, limit: i64) -> (found: Vec<AlertEntry>)
        requires
            self.wf(),
        ensures
            found@.map_values(|a: AlertEntry| a@) == recent_alerts(
                self.alert_log(),
                match key {
                    Some(k) => Some(k@),
                    None => None,
                },
                limit,
            ),
    {
        let ghost log = self.alert_log();
        let ghost wanted: Option<Seq<char>> = match key {
            Some(k) => Some(k@),
            None => None,
        };
        let mut times: Vec<i64> = Vec::new();
        let mut chosen: Vec<bool> = Vec::new();
        let mut i: usize = 0;
        while i < self.alerts.len()
            invariant
                i <= self.alerts.len(),
                log == self.alert_log(),
                wanted == match key {
                    Some(k) => Some(k@),
                    None => None::<Seq<char>>,
                },
                times.len() == i,
                chosen.len() == i,
                forall|j: int| 0 <= j < i ==> #[trigger] times@[j] == alert_times(log)[j],
                forall|j: int| 0 <= j < i ==> #[trigger] chosen@[j] == alert_choice(log, wanted)[j],
            decreases self.alerts.len() - i,
        {
            let entry = &self.alerts[i];
            assert(log[i as int] == entry@);
            times.push(entry.triggered_at);
            let take: bool = match key {
                Some(k) => same_key(entry.key.as_str(), k),
                None => true,
            };
            chosen.push(take);
            i += 1;
        }
        assert(times@ =~= alert_times(log));
        assert(chosen@ =~= alert_choice(log, wanted));
        let picks = list_in_time_order(&times, &chosen);
        let ghost listed = picks@.map_values(|p: usize| p as int);
        let ghost order = newest_first(log, wanted);
        let n: usize = picks.len();
        let count: usize = if limit < 0 || limit as u64 >= n as u64 {
            n
        } else {
            limit as usize
        };
        assert(count == allowed(limit, order.len()));
        let mut found: Vec<AlertEntry> = Vec::new();
        let mut j: usize = 0;
        while j < count
            invariant
                j <= count <= n,
                n == picks.len(),
                log == self.alert_log(),
                listed == picks@.map_values(|p: usize| p as int),
                is_time_order(times@, chosen@, listed),
                times.len() == self.alerts.len(),
                order == newest_first(log, wanted),
                listed == crate::order::time_order(alert_times(log), alert_choice(log, wanted)),
                found.len() == j,
                forall|k: int| 0 <= k < j ==> (#[trigger] found@[k])@ == log[order[k]],
            decreases count - j,
        {
            let at: usize = picks[n - 1 - j];
            assert(0 <= listed[n - 1 - j] < times.len());
            assert(order[j as int] == listed[n - 1 - j]);
            let entry = &self.alerts[at];
            assert(log[at as int] == entry@);
            found.push(
                AlertEntry {
                    key: entry.key.clone(),
                    level: entry.level,
                    value: entry.value,
                    change_pct: entry.change_pct,
                    triggered_at: entry.triggered_at,
                },
            );
            j += 1;
        }
        assert(found@.map_values(|a: AlertEntry| a@) =~= recent_alerts(log, wanted, limit));
        found
    }

    /// The newest entries of the alert log, newest first, as many as `limit`
    /// lets through. A negative limit bounds nothing.
    pub fn get_alerts(&self, limit: i64) -> (found: Vec<AlertEntry>)
        requires
            self.wf(),
        ensures
            found@.map_values(|a: AlertEntry| a@) == recent_alerts(self.alert_log(), None, limit),
    {
        self.select_alerts(None, limit)
    }

    /// The newest alerts for `key`, newest first, as many as `limit` lets
    /// through. A negative limit bounds nothing.
    pub fn get_alerts_for_key(&self, key: &str, limit: i64) -> (found: Vec<AlertEntry>)
        requires
            self.wf(),
        ensures
            found@.map_values(|a: AlertEntry| a@) == recent_alerts(
                self.alert_log(),
                Some(key@),
                limit,
            ),
    {
        self.select_alerts(Some(key), limit)
    }

    /// The manage key, if one is set.
    pub fn get_manage_key(&self) -> (key: Option<String>)
        ensures
            text_of(key) == self.manage_key(),
    {
        match &self.manage_key {
            Some(k) => Some(k.clone()),
            None => None,
        }
    }

    /// Sets the manage key, in place of any earlier one.
    pub fn set_manage_key(&mut self, key: &str)
        requires
            old(self).wf(),
        ensures
            final(self).wf(),
            final(self).manage_key() == Some(key@),
            final(self).rows() == old(self).rows(),
            final(self).alert_log() == old(self).alert_log(),
    {
        self.manage_key = Some(key.to_owned());
    }
}

/// The texts that a sequence of strings holds.
pub open spec fn texts_of(strings: Seq<String>) -> Seq<Seq<char>> {
    strings.map_values(|s: String| s@)
}

} // verus!
