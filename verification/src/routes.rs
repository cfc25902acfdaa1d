//! The operations of the dashboard, as the layer that serves them calls them.
//!
//! Each operation takes the store and plain values and returns a response or
//! an error. Operations that depend on the present instant come in two forms:
//! one that takes the instant, named with `_at`, and one that reads the clock
//! and passes what it read to the first.

use vstd::prelude::*;
use vstd::string::StrSliceExecFns;
use crate::alerts::recent_alerts;
use crate::db::{
    in_sequence, max_seq, AlertEntry, AlertEntryView, Db, LatestStat, LatestStatView, StatPoint,
    StatRowView,
};
use crate::detector::{alert_log_after, on_submit};
use crate::ingest::{
    acceptable, alert_log_through, batch_of, ingested, is_day_pct, is_pct_trace,
    lemma_ingested_growth, taken, StatInputView,
};
use crate::models::{
    key_label, label_of, AlertOut, AlertsResponse, DeleteResponse, HealthResponse,
    PruneResponse, StatHistoryResponse, StatInput, StatPointOut, StatSubmitResponse,
    StatSummary, StatsResponse, TrendData, Trends,
};
use crate::series::{
    distinct_keys, has_key, history, is_sparkline, latest_stats, not_of_key, oldest_time,
    pruned_at, values_of,
};
use crate::text::same_key;
use crate::time::{
    clock_micros, date_midnight_micros, parse_date, parse_rfc3339, rfc3339_micros,
    window_start, Period, LAST_SECOND_OF_DAY,
};
use crate::trend::{compute_trend, is_trend, trend_start};
use crate::value::Value;

verus! {

/// The version that the service reports.
pub const VERSION: &'static str = "0.1.0";

/// The retention horizon of the store, in days.
pub const DEFAULT_RETENTION_DAYS: i64 = 90;

/// How many entries an alert query returns where no limit is given.
pub const DEFAULT_ALERT_LIMIT: i64 = 50;

/// The most entries an alert query returns.
pub const MAX_ALERT_LIMIT: i64 = 500;

/// The most entries a batch may hold.
pub const MAX_BATCH: usize = 100;

/// The most characters a key may have.
pub const MAX_KEY_CHARS: usize = 100;

/// Why an operation was refused.
#[derive(Clone, Copy, Debug, PartialEq, Eq, Structural)]
pub enum ApiError {
    /// The token is not the manage key of the store.
    InvalidManageKey,
    /// The batch holds no entry.
    EmptyBatch,
    /// The batch holds more than 100 entries.
    TooManyStats,
    /// The range starts after it ends.
    StartAfterEnd,
    /// A bound of the range is neither an RFC 3339 instant nor a date.
    InvalidDate,
    /// The period token is none of `24h`, `7d`, `30d`, `90d`.
    InvalidPeriod,
    /// The key to delete has no points.
    NoStatsForKey,
}

impl ApiError {
    /// The HTTP status that reports the error.
    pub open spec fn status_of(self) -> u16 {
        match self {
            ApiError::InvalidManageKey => 403,
            ApiError::NoStatsForKey => 404,
            _ => 400,
        }
    }

    /// The HTTP status that reports the error: 403 for a wrong manage key,
    /// 404 for a key without points, 400 for everything else.
    pub fn status(self) -> (code: u16)
        ensures
            code == self.status_of(),
    {
        match self {
            ApiError::InvalidManageKey => 403,
            ApiError::NoStatsForKey => 404,
            _ => 400,
        }
    }

    /// The text that reports the error.
    pub open spec fn message_of(self) -> Seq<char> {
        match self {
            ApiError::InvalidManageKey => "Invalid manage key"@,
            ApiError::EmptyBatch => "Empty stats array"@,
            ApiError::TooManyStats => "Too many stats (max 100)"@,
            ApiError::StartAfterEnd => "start must be before end"@,
            ApiError::InvalidDate =>
                "Invalid date format. Use ISO-8601 (e.g. 2026-02-01T00:00:00Z) or YYYY-MM-DD"@,
            ApiError::InvalidPeriod => "Invalid period. Use 24h, 7d, 30d, or 90d"@,
            ApiError::NoStatsForKey => "No stats found for key"@,
        }
    }

    /// The text that reports the error.
    pub fn message(self) -> (text: &'static str)
        ensures
            text@ == self.message_of(),
    {
        match self {
            ApiError::InvalidManageKey => "Invalid manage key",
            ApiError::EmptyBatch => "Empty stats array",
            ApiError::TooManyStats => "Too many stats (max 100)",
            ApiError::StartAfterEnd => "start must be before end",
            ApiError::InvalidDate =>
                "Invalid date format. Use ISO-8601 (e.g. 2026-02-01T00:00:00Z) or YYYY-MM-DD",
            ApiError::InvalidPeriod => "Invalid period. Use 24h, 7d, 30d, or 90d",
            ApiError::NoStatsForKey => "No stats found for key",
        }
    }
}

/// `token` is the manage key of the store. A store without a manage key
/// takes the empty token.
pub open spec fn authorized(manage_key: Option<Seq<char>>, token: Seq<char>) -> bool {
    token == match manage_key {
        Some(key) => key,
        None => Seq::<char>::empty(),
    }
}

/// Whether `token` is the manage key of the store.
pub fn is_authorized(db: &Db, token: &str) -> (ok: bool)
    ensures
        ok == authorized(db.manage_key(), token@),
{
    match db.get_manage_key() {
        Some(key) => same_key(token, key.as_str()),
        None => {
            let none: bool = token.is_empty();
            assert(none == (token@ =~= Seq::<char>::empty()));
            none
        },
    }
}

/// The state of the service: how many points and keys the store holds, the
/// retention horizon, and the earliest instant on record.
pub fn health(db: &Db) -> (report: HealthResponse)
    requires
        db.wf(),
    ensures
        report.status@ == "ok"@,
        report.version@ == VERSION@,
        report.stats_count == db.rows().len(),
        report.keys_count == distinct_keys(db.rows()).len(),
        report.retention_days == DEFAULT_RETENTION_DAYS,
        report.oldest_stat == oldest_time(db.rows()),
{
    let keys = db.get_all_keys();
    assert(crate::db::texts_of(keys@).len() == keys.len());
    HealthResponse {
        status: "ok".to_owned(),
        version: VERSION.to_owned(),
        stats_count: db.get_stat_count(),
        keys_count: keys.len(),
        retention_days: DEFAULT_RETENTION_DAYS,
        oldest_stat: db.get_oldest_stat_time(),
    }
}

/// Prunes the store at a horizon of `retention_days` whole days before `now`
/// and reports how many points were removed and how many are left. Pruning
/// again at the same horizon removes nothing.
pub fn prune_at(db: &mut Db, retention_days: i64, now: i64) -> (report: PruneResponse)
    requires
        old(db).wf(),
    ensures
        final(db).wf(),
        final(db).rows() == pruned_at(old(db).rows(), retention_days, now),
        final(db).alert_log() == old(db).alert_log(),
        final(db).manage_key() == old(db).manage_key(),
        report.deleted == old(db).rows().len() - final(db).rows().len(),
        report.retention_days == retention_days,
        report.remaining == final(db).rows().len(),
{
    let deleted: i64 = db.prune_old_stats_at(retention_days, now);
    let remaining: i64 = db.get_stat_count();
    PruneResponse { deleted, retention_days, remaining }
}

/// Prunes the store at the retention horizon before `now`, for a caller that
/// holds the manage key. Without it nothing is touched.
pub fn prune_stats_at(db: &mut Db, token: &str, now: i64) -> (done: Result<
    PruneResponse,
    ApiError,
>)
    requires
        old(db).wf(),
    ensures
        final(db).wf(),
        final(db).alert_log() == old(db).alert_log(),
        final(db).manage_key() == old(db).manage_key(),
        match done {
            Ok(report) => {
                &&& authorized(old(db).manage_key(), token@)
                &&& final(db).rows() == pruned_at(old(db).rows(), DEFAULT_RETENTION_DAYS, now)
                &&& report.deleted == old(db).rows().len() - final(db).rows().len()
                &&& report.retention_days == DEFAULT_RETENTION_DAYS
                &&& report.remaining == final(db).rows().len()
            },
            Err(e) => {
                &&& !authorized(old(db).manage_key(), token@)
                &&& e == ApiError::InvalidManageKey
                &&& final(db).rows() == old(db).rows()
            },
        },
{
    if !is_authorized(db, token) {
        return Err(ApiError::InvalidManageKey);
    }
    Ok(prune_at(db, DEFAULT_RETENTION_DAYS, now))
}

/// Prunes the store at the retention horizon before the present instant, as
/// the clock gives it.
pub fn prune_stats(db: &mut Db, token: &str) -> (done: Result<PruneResponse, ApiError>)
    requires
        old(db).wf(),
    ensures
        final(db).wf(),
        final(db).alert_log() == old(db).alert_log(),
        final(db).manage_key() == old(db).manage_key(),
        done is Ok <==> authorized(old(db).manage_key(), token@),
        match done {
            Ok(report) => {
                &&& exists|now: i64|
                    now >= 0 && final(db).rows() == #[trigger] pruned_at(
                        old(db).rows(),
                        DEFAULT_RETENTION_DAYS,
                        now,
                    )
                &&& report.deleted == old(db).rows().len() - final(db).rows().len()
                &&& report.retention_days == DEFAULT_RETENTION_DAYS
                &&& report.remaining == final(db).rows().len()
            },
            Err(e) => e == ApiError::InvalidManageKey && final(db).rows() == old(db).rows(),
        },
{
    let now: i64 = clock_micros();
    prune_stats_at(db, token, now)
}

/// Deletes every point of `key`, for a caller that holds the manage key. A key
/// without points is reported as not found. The alert log is left as it is.
pub fn delete_stat(db: &mut Db, token: &str, key: &str) -> (done: Result<
    DeleteResponse,
    ApiError,
>)
    requires
        old(db).wf(),
    ensures
        final(db).wf(),
        final(db).alert_log() == old(db).alert_log(),
        final(db).manage_key() == old(db).manage_key(),
        final(db).rows() == if done is Ok {
            old(db).rows().filter(not_of_key(key@))
        } else {
            old(db).rows()
        },
        match done {
            Ok(report) => {
                &&& authorized(old(db).manage_key(), token@)
                &&& has_key(old(db).rows(), old(db).rows().len() as int, key@)
                &&& report.key@ == key@
                &&& report.deleted == old(db).rows().len() - final(db).rows().len()
                &&& report.deleted > 0
            },
            Err(e) => e == if !authorized(old(db).manage_key(), token@) {
                ApiError::InvalidManageKey
            } else {
                ApiError::NoStatsForKey
            } && (authorized(old(db).manage_key(), token@) ==> !has_key(
                old(db).rows(),
                old(db).rows().len() as int,
                key@,
            )),
        },
{
    if !is_authorized(db, token) {
        return Err(ApiError::InvalidManageKey);
    }
    proof {
        crate::series::lemma_filter_keeps_all_or_fewer(db.rows(), not_of_key(key@));
    }
    let deleted: i64 = db.delete_stats_by_key(key);
    if deleted == 0 {
        proof {
            if has_key(old(db).rows(), old(db).rows().len() as int, key@) {
                let w = choose|w: int|
                    0 <= w < old(db).rows().len() && (#[trigger] old(db).rows()[w]).key == key@;
                assert(!not_of_key(key@)(old(db).rows()[w]));
            }
        }
        return Err(ApiError::NoStatsForKey);
    }
    Ok(DeleteResponse { key: key.to_owned(), deleted })
}

/// The limit of an alert query: the given one, or 50 where none is given,
/// brought into the range from 1 to 500.
pub open spec fn alert_limit(limit: Option<i64>) -> i64 {
    let asked = match limit {
        Some(n) => n,
        None => DEFAULT_ALERT_LIMIT,
    };
    if asked < 1 {
        1
    } else if asked > MAX_ALERT_LIMIT {
        MAX_ALERT_LIMIT
    } else {
        asked
    }
}

/// An entry of the alert log, with the display label of its key, is what
/// `out` shows.
pub open spec fn shows_alert(out: AlertOut, entry: AlertEntryView) -> bool {
    &&& out.key@ == entry.key
    &&& out.label@ == label_of(entry.key)
    &&& out.level == entry.level
    &&& out.value == entry.value
    &&& out.change_pct == entry.change_pct
    &&& out.triggered_at == entry.triggered_at
}

/// The newest alerts, newest first, of `key` where one is given, and the
/// number of all alerts in the log whatever the key and the limit.
pub fn get_alerts(db: &Db, key: Option<&str>, limit: Option<i64>) -> (found: AlertsResponse)
    requires
        db.wf(),
    ensures
        found.total == db.alert_log().len(),
        found.alerts.len() == recent_alerts(
            db.alert_log(),
            match key {
                Some(k) => Some(k@),
                None => None,
            },
            alert_limit(limit),
        ).len(),
        forall|j: int|
            0 <= j < found.alerts.len() ==> shows_alert(
                #[trigger] found.alerts@[j],
                recent_alerts(
                    db.alert_log(),
                    match key {
                        Some(k) => Some(k@),
                        None => None,
                    },
                    alert_limit(limit),
                )[j],
            ),
{
    let asked: i64 = match limit {
        Some(n) => n,
        None => DEFAULT_ALERT_LIMIT,
    };
    let lim: i64 = if asked < 1 {
        1
    } else if asked > MAX_ALERT_LIMIT {
        MAX_ALERT_LIMIT
    } else {
        asked
    };
    let entries: Vec<AlertEntry> = match key {
        Some(k) => db.get_alerts_for_key(k, lim),
        None => db.get_alerts(lim),
    };
    let ghost recent = entries@.map_values(|a: AlertEntry| a@);
    let mut alerts: Vec<AlertOut> = Vec::new();
    let mut j: usize = 0;
    while j < entries.len()
        invariant
            j <= entries.len(),
            recent == entries@.map_values(|a: AlertEntry| a@),
            alerts.len() == j,
            forall|k: int| 0 <= k < j ==> shows_alert(#[trigger] alerts@[k], recent[k]),
        decreases entries.len() - j,
    {
        let entry = &entries[j];
        assert(recent[j as int] == entry@);
        alerts.push(
            AlertOut {
                key: entry.key.clone(),
                label: key_label(entry.key.as_str()),
                level: entry.level,
                value: entry.value,
                change_pct: entry.change_pct,
                triggered_at: entry.triggered_at,
            },
        );
        j += 1;
    }
    AlertsResponse { alerts, total: db.get_alert_count() }
}

/// The points of a history as a response shows them.
pub open spec fn out_points(points: Seq<StatPoint>) -> Seq<StatPointOut> {
    points.map_values(|p: StatPoint| StatPointOut { value: p.value, recorded_at: p.recorded_at })
}

/// The last whole second of the day that begins at `midnight`, 23:59:59, or
/// `None` where that instant lies beyond the range of an `i64`.
pub open spec fn day_end_of(midnight: i64) -> Option<i64> {
    if midnight + LAST_SECOND_OF_DAY <= i64::MAX {
        Some((midnight + LAST_SECOND_OF_DAY) as i64)
    } else {
        None
    }
}

/// The instant at which a range starts: the instant that the text denotes as
/// RFC 3339, else 00:00:00 UTC of the day it denotes as a date.
pub open spec fn range_start_of(text: Seq<char>) -> Option<i64> {
    match rfc3339_micros(text) {
        Some(instant) => Some(instant),
        None => date_midnight_micros(text),
    }
}

/// The instant at which a range ends: the instant that the text denotes as
/// RFC 3339, else 23:59:59 UTC of the day it denotes as a date.
pub open spec fn range_end_of(text: Seq<char>) -> Option<i64> {
    match rfc3339_micros(text) {
        Some(instant) => Some(instant),
        None => match date_midnight_micros(text) {
            Some(midnight) => day_end_of(midnight),
            None => None,
        },
    }
}

/// The history of `key` in a range whose bounds were read from text: both
/// bounds must have been read, and the start must not lie after the end.
pub open spec fn range_history(
    rows: Seq<StatRowView>,
    key: Seq<char>,
    start: Option<i64>,
    end: Option<i64>,
) -> Result<Seq<StatPoint>, ApiError> {
    if start is Some && end is Some {
        if start->0 > end->0 {
            Err(ApiError::StartAfterEnd)
        } else {
            Ok(history(rows, key, start->0, end->0))
        }
    } else {
        Err(ApiError::InvalidDate)
    }
}

/// The history of `key` over the look-back window that `period` names, `24h`
/// where none is given, up to the end of time.
pub open spec fn period_history(
    rows: Seq<StatRowView>,
    key: Seq<char>,
    period: Option<Seq<char>>,
    now: i64,
) -> Result<Seq<StatPoint>, ApiError> {
    let token = match period {
        Some(p) => p,
        None => "24h"@,
    };
    match Period::of_token(token) {
        Some(window) => Ok(history(rows, key, (now - window.span()) as i64, i64::MAX)),
        None => Err(ApiError::InvalidPeriod),
    }
}

/// What a history request is answered with: the range where both a start and
/// an end are given, else the period.
pub open spec fn history_request(
    rows: Seq<StatRowView>,
    key: Seq<char>,
    period: Option<Seq<char>>,
    start: Option<Seq<char>>,
    end: Option<Seq<char>>,
    now: i64,
) -> Result<Seq<StatPoint>, ApiError> {
    if start is Some && end is Some {
        range_history(rows, key, range_start_of(start->0), range_end_of(end->0))
    } else {
        period_history(rows, key, period, now)
    }
}

/// `done` answers a request with `wanted`: the same error, or a response for
/// `key` with the same points.
pub open spec fn answers(
    done: Result<StatHistoryResponse, ApiError>,
    key: Seq<char>,
    wanted: Result<Seq<StatPoint>, ApiError>,
) -> bool {
    match done {
        Ok(response) => wanted is Ok && response.key@ == key && response.points@ == out_points(
            wanted->Ok_0,
        ),
        Err(e) => wanted == Err::<Seq<StatPoint>, ApiError>(e),
    }
}

/// The text that an optional string slice holds.
pub open spec fn slice_text(s: Option<&str>) -> Option<Seq<char>> {
    match s {
        Some(t) => Some(t@),
        None => None,
    }
}

/// The last whole second of the day that begins at `midnight`.
pub fn day_end(midnight: i64) -> (end: Option<i64>)
    ensures
        end == day_end_of(midnight),
{
    midnight.checked_add(LAST_SECOND_OF_DAY)
}

fn respond(key: &str, past: Vec<StatPoint>) -> (response: StatHistoryResponse)
    ensures
        response.key@ == key@,
        response.points@ == out_points(past@),
{
    let mut points: Vec<StatPointOut> = Vec::new();
    let mut j: usize = 0;
    while j < past.len()
        invariant
            j <= past.len(),
            points.len() == j,
            forall|k: int| 0 <= k < j ==> #[trigger] points@[k] == out_points(past@)[k],
        decreases past.len() - j,
    {
        points.push(StatPointOut { value: past[j].value, recorded_at: past[j].recorded_at });
        j += 1;
    }
    assert(points@ =~= out_points(past@));
    StatHistoryResponse { key: key.to_owned(), points }
}

/// The history of `key` in the range from `start` to `end`, both included,
/// where both are instants and the start does not lie after the end.
pub fn history_in_range(db: &Db, key: &str, start: Option<i64>, end: Option<i64>) -> (done: Result<
    StatHistoryResponse,
    ApiError,
>)
    requires
        db.wf(),
    ensures
        answers(done, key@, range_history(db.rows(), key@, start, end)),
{
    match (start, end) {
        (Some(from), Some(to)) => {
            if from > to {
                Err(ApiError::StartAfterEnd)
            } else {
                Ok(respond(key, db.get_stat_history_range(key, from, to)))
            }
        },
        _ => Err(ApiError::InvalidDate),
    }
}

/// The history of `key` over the look-back window before `now` that `period`
/// names, `24h` where none is given.
pub fn history_for_period(db: &Db, key: &str, period: Option<&str>, now: i64) -> (done: Result<
    StatHistoryResponse,
    ApiError,
>)
    requires
        db.wf(),
        now - crate::time::LONGEST_LOOKBACK >= i64::MIN,
    ensures
        answers(done, key@, period_history(db.rows(), key@, slice_text(period), now)),
{
    let token: &str = match period {
        Some(p) => p,
        None => "24h",
    };
    match Period::parse(token) {
        Some(window) => {
            let since: i64 = window_start(now, window.micros());
            Ok(respond(key, db.get_stat_history(key, since)))
        },
        None => Err(ApiError::InvalidPeriod),
    }
}

/// Reads the start of a range from text.
pub fn read_range_start(text: &str) -> (start: Option<i64>)
    ensures
        start == range_start_of(text@),
{
    match parse_rfc3339(text) {
        Some(instant) => Some(instant),
        None => parse_date(text),
    }
}

/// Reads the end of a range from text.
pub fn read_range_end(text: &str) -> (end: Option<i64>)
    ensures
        end == range_end_of(text@),
{
    match parse_rfc3339(text) {
        Some(instant) => Some(instant),
        None => match parse_date(text) {
            Some(midnight) => day_end(midnight),
            None => None,
        },
    }
}

/// The history of one key, in chronological order. Where both `start` and
/// `end` are given they bound the range, each an RFC 3339 instant or a date
/// that stands for its first or its last second; a range that starts after it
/// ends and a bound that cannot be read are refused. Otherwise the history
/// covers the look-back window before `now` that `period` names. An unknown
/// key has an empty history.
pub fn get_stat_history_at(
    db: &Db,
    key: &str,
    period: Option<&str>,
    start: Option<&str>,
    end: Option<&str>,
    now: i64,
) -> (done: Result<StatHistoryResponse, ApiError>)
    requires
        db.wf(),
        now - crate::time::LONGEST_LOOKBACK >= i64::MIN,
    ensures
        answers(
            done,
            key@,
            history_request(
                db.rows(),
                key@,
                slice_text(period),
                slice_text(start),
                slice_text(end),
                now,
            ),
        ),
{
    match (start, end) {
        (Some(from), Some(to)) => {
            let first: Option<i64> = read_range_start(from);
            let last: Option<i64> = read_range_end(to);
            history_in_range(db, key, first, last)
        },
        _ => history_for_period(db, key, period, now),
    }
}

/// `get_stat_history_at` at the present instant, as the clock gives it.
pub fn get_stat_history(
    db: &Db,
    key: &str,
    period: Option<&str>,
    start: Option<&str>,
    end: Option<&str>,
) -> (done: Result<StatHistoryResponse, ApiError>)
    requires
        db.wf(),
    ensures
        exists|now: i64|
            now >= 0 && answers(
                done,
                key@,
                #[trigger] history_request(
                    db.rows(),
                    key@,
                    slice_text(period),
                    slice_text(start),
                    slice_text(end),
                    now,
                ),
            ),
{
    let now: i64 = clock_micros();
    get_stat_history_at(db, key, period, start, end, now)
}

/// The plain-text guide to the endpoints.
pub fn llms_txt() -> (text: &'static str)
    ensures
        text@ == crate::docs::LLMS_TXT@,
{
    crate::docs::LLMS_TXT
}

/// The OpenAPI description of the endpoints, as JSON.
pub fn openapi_spec() -> (text: &'static str)
    ensures
        text@ == crate::docs::OPENAPI_JSON@,
{
    crate::docs::OPENAPI_JSON
}

/// The index of the skills that the dashboard offers, as JSON.
pub fn skills_index() -> (text: &'static str)
    ensures
        text@ == crate::docs::SKILLS_INDEX_JSON@,
{
    crate::docs::SKILLS_INDEX_JSON
}

/// The integration skill, as Markdown.
pub fn skills_skill_md() -> (text: &'static str)
    ensures
        text@ == crate::docs::SKILL_MD@,
{
    crate::docs::SKILL_MD
}

/// Why a batch of `n` entries is refused as a whole, if it is: for want of
/// the manage key, for being empty, or for holding more than 100 entries.
pub open spec fn batch_refusal(manage_key: Option<Seq<char>>, token: Seq<char>, n: nat) -> Option<
    ApiError,
> {
    if !authorized(manage_key, token) {
        Some(ApiError::InvalidManageKey)
    } else if n == 0 {
        Some(ApiError::EmptyBatch)
    } else if n > MAX_BATCH {
        Some(ApiError::TooManyStats)
    } else {
        None
    }
}

/// Ingesting `batch` at `now` turns the logs `rows` and `log` into
/// `rows_after` and `log_after`: the points of the entries that the store
/// takes are appended, and the detector has decided on each of them with the
/// percentage that `delta` gave for its 24-hour trend.
pub open spec fn is_submission<D: Fn(Value, Value) -> (Value, Value)>(
    rows: Seq<StatRowView>,
    log: Seq<AlertEntryView>,
    batch: Seq<StatInputView>,
    now: i64,
    delta: D,
    rows_after: Seq<StatRowView>,
    log_after: Seq<AlertEntryView>,
) -> bool {
    &&& rows_after == ingested(rows, batch, now)
    &&& exists|pcts: Seq<Option<Value>>|
        {
            &&& #[trigger] is_pct_trace(rows, batch, now, delta, pcts)
            &&& log_after == alert_log_through(log, batch, pcts, now)
        }
}

/// Ingests a batch at `now`, for a caller that holds the manage key. A batch
/// without entries or with more than 100 is refused as a whole, before the
/// store is touched. Within a batch an entry with an empty key or a key of
/// more than 100 characters is skipped; every other entry is run through the
/// alert detector and then appended with `now` as its instant. The response
/// counts the entries that were appended.
pub fn submit_stats_at<D: Fn(Value, Value) -> (Value, Value)>(
    db: &mut Db,
    token: &str,
    stats: &Vec<StatInput>,
    now: i64,
    delta: &D,
) -> (done: Result<StatSubmitResponse, ApiError>)
    requires
        old(db).wf(),
        max_seq(old(db).rows()) + MAX_BATCH <= i64::MAX,
        old(db).alert_log().len() + MAX_BATCH <= i64::MAX,
        now - crate::time::MICROS_PER_DAY >= i64::MIN,
        forall|a: Value, b: Value| call_requires(*delta, (a, b)),
    ensures
        final(db).wf(),
        final(db).manage_key() == old(db).manage_key(),
        match done {
            Ok(response) => {
                &&& batch_refusal(old(db).manage_key(), token@, stats.len() as nat) is None
                &&& response.accepted == batch_of(stats@).filter(taken()).len()
                &&& is_submission(
                    old(db).rows(),
                    old(db).alert_log(),
                    batch_of(stats@),
                    now,
                    *delta,
                    final(db).rows(),
                    final(db).alert_log(),
                )
            },
            Err(e) => {
                &&& batch_refusal(old(db).manage_key(), token@, stats.len() as nat) == Some(e)
                &&& final(db).rows() == old(db).rows()
                &&& final(db).alert_log() == old(db).alert_log()
            },
        },
{
    if !is_authorized(db, token) {
        return Err(ApiError::InvalidManageKey);
    }
    if stats.len() == 0 {
        return Err(ApiError::EmptyBatch);
    }
    if stats.len() > MAX_BATCH {
        return Err(ApiError::TooManyStats);
    }
    let ghost rows0 = db.rows();
    let ghost log0 = db.alert_log();
    let ghost batch = batch_of(stats@);
    let ghost mut pcts: Seq<Option<Value>> = Seq::empty();
    let mut accepted: usize = 0;
    let mut i: usize = 0;
    proof {
        db.lemma_wf();
        assert(batch.take(0) =~= Seq::<StatInputView>::empty());
        assert(batch.take(0).filter(taken()).len() == 0) by {
            reveal(Seq::filter);
        }
    }
    while i < stats.len()
        invariant
            i <= stats.len() <= MAX_BATCH,
            batch == batch_of(stats@),
            db.wf(),
            db.manage_key() == old(db).manage_key(),
            in_sequence(rows0),
            max_seq(rows0) + MAX_BATCH <= i64::MAX,
            log0.len() + MAX_BATCH <= i64::MAX,
            now - crate::time::MICROS_PER_DAY >= i64::MIN,
            forall|a: Value, b: Value| call_requires(*delta, (a, b)),
            db.rows() == ingested(rows0, batch.take(i as int), now),
            pcts.len() == i,
            forall|k: int|
                0 <= k < i && acceptable(batch[k].key) ==> is_day_pct(
                    ingested(rows0, batch.take(k), now),
                    batch[k].key,
                    batch[k].value,
                    now,
                    *delta,
                    #[trigger] pcts[k],
                ),
            db.alert_log() == alert_log_through(log0, batch.take(i as int), pcts, now),
            db.alert_log().len() <= log0.len() + i,
            accepted == batch.take(i as int).filter(taken()).len(),
            accepted <= i,
        decreases stats.len() - i,
    {
        let stat = &stats[i];
        let key = stat.key.as_str();
        let ghost entry = batch[i as int];
        let ghost rows_i = db.rows();
        let ghost log_i = db.alert_log();
        let ghost before = pcts;
        proof {
            assert(entry == stat@);
            assert(batch.take(i + 1).drop_last() =~= batch.take(i as int));
            assert(batch.take(i + 1).last() == entry);
            batch.lemma_take_succ_push(i as int);
            batch.take(i as int).lemma_filter_push(entry, taken());
            lemma_ingested_growth(rows0, batch.take(i as int), now);
        }
        let length: usize = key.unicode_len();
        if 1 <= length && length <= MAX_KEY_CHARS {
            let raised = on_submit(db, key, stat.value, now, delta);
            let ghost trend = choose|trend: TrendData|
                {
                    &&& #[trigger] is_trend(
                        trend_start(rows_i, key@, (now - crate::time::MICROS_PER_DAY) as i64),
                        stat.value,
                        *delta,
                        trend,
                    )
                    &&& raised == crate::detector::alert_decision(log_i, key@, trend.pct, now)
                    &&& db.alert_log() == alert_log_after(
                        log_i,
                        key@,
                        stat.value,
                        trend.pct,
                        now,
                    )
                };
            let metadata: Option<&str> = match &stat.metadata {
                Some(m) => Some(m.as_str()),
                None => None,
            };
            let seq: i64 = db.insert_stat(key, stat.value, now, metadata);
            accepted += 1;
            proof {
                pcts = before.push(trend.pct);
                assert(is_day_pct(rows_i, entry.key, entry.value, now, *delta, trend.pct));
            }
        } else {
            proof {
                pcts = before.push(None);
            }
        }
        proof {
            assert(pcts.drop_last() =~= before);
            assert(pcts.last() == pcts[i as int]);
            assert forall|k: int| 0 <= k < i + 1 && acceptable(batch[k].key) implies is_day_pct(
                ingested(rows0, batch.take(k), now),
                batch[k].key,
                batch[k].value,
                now,
                *delta,
                #[trigger] pcts[k],
            ) by {
                if k < i {
                    assert(pcts[k] == before[k]);
                }
            }
        }
        i += 1;
    }
    proof {
        assert(batch.take(i as int) =~= batch);
        assert(is_pct_trace(rows0, batch, now, *delta, pcts));
    }
    Ok(StatSubmitResponse { accepted })
}

/// `submit_stats_at` at the present instant, as the clock gives it.
pub fn submit_stats<D: Fn(Value, Value) -> (Value, Value)>(
    db: &mut Db,
    token: &str,
    stats: &Vec<StatInput>,
    delta: &D,
) -> (done: Result<StatSubmitResponse, ApiError>)
    requires
        old(db).wf(),
        max_seq(old(db).rows()) + MAX_BATCH <= i64::MAX,
        old(db).alert_log().len() + MAX_BATCH <= i64::MAX,
        forall|a: Value, b: Value| call_requires(*delta, (a, b)),
    ensures
        final(db).wf(),
        final(db).manage_key() == old(db).manage_key(),
        match done {
            Ok(response) => {
                &&& batch_refusal(old(db).manage_key(), token@, stats.len() as nat) is None
                &&& response.accepted == batch_of(stats@).filter(taken()).len()
                &&& exists|now: i64|
                    now >= 0 && #[trigger] is_submission(
                        old(db).rows(),
                        old(db).alert_log(),
                        batch_of(stats@),
                        now,
                        *delta,
                        final(db).rows(),
                        final(db).alert_log(),
                    )
            },
            Err(e) => {
                &&& batch_refusal(old(db).manage_key(), token@, stats.len() as nat) == Some(e)
                &&& final(db).rows() == old(db).rows()
                &&& final(db).alert_log() == old(db).alert_log()
            },
        },
{
    let now: i64 = clock_micros();
    submit_stats_at(db, token, stats, now, delta)
}

/// `listing` holds, for every key in ascending order, its summary at `now`.
pub open spec fn lists_summaries<
    D: Fn(Value, Value) -> (Value, Value),
    S: Fn(usize, usize, usize) -> usize,
>(rows: Seq<StatRowView>, now: i64, delta: D, stride: S, listing: StatsResponse) -> bool {
    &&& listing.stats.len() == latest_stats(rows).len()
    &&& forall|j: int|
        0 <= j < listing.stats.len() ==> is_summary(
            rows,
            latest_stats(rows)[j],
            now,
            delta,
            stride,
            #[trigger] listing.stats@[j],
        )
}

/// The number of values in the sparkline of a summary.
pub const SPARKLINE_POINTS: usize = 12;

/// `out` is the summary at `now` of the key whose latest point is `entry`:
/// its label, its current value, its trends over the four look-back windows
/// and a sparkline of its last 24 hours.
pub open spec fn is_summary<
    D: Fn(Value, Value) -> (Value, Value),
    S: Fn(usize, usize, usize) -> usize,
>(
    rows: Seq<StatRowView>,
    entry: LatestStatView,
    now: i64,
    delta: D,
    stride: S,
    out: StatSummary,
) -> bool {
    &&& out.key@ == entry.key
    &&& out.label@ == label_of(entry.key)
    &&& out.current == entry.value
    &&& out.last_updated == entry.recorded_at
    &&& is_trend(
        trend_start(rows, entry.key, (now - Period::Day.span()) as i64),
        entry.value,
        delta,
        out.trends.h24,
    )
    &&& is_trend(
        trend_start(rows, entry.key, (now - Period::Week.span()) as i64),
        entry.value,
        delta,
        out.trends.d7,
    )
    &&& is_trend(
        trend_start(rows, entry.key, (now - Period::Month.span()) as i64),
        entry.value,
        delta,
        out.trends.d30,
    )
    &&& is_trend(
        trend_start(rows, entry.key, (now - Period::Quarter.span()) as i64),
        entry.value,
        delta,
        out.trends.d90,
    )
    &&& is_sparkline(
        values_of(history(rows, entry.key, (now - Period::Day.span()) as i64, i64::MAX)),
        SPARKLINE_POINTS,
        stride,
        out.sparkline_24h@,
    )
}

/// For every key, in ascending order, its summary at `now`. The trends are
/// computed afresh on every call.
pub fn get_stats_at<D: Fn(Value, Value) -> (Value, Value), S: Fn(usize, usize, usize) -> usize>(
    db: &Db,
    now: i64,
    delta: &D,
    stride: &S,
) -> (listing: StatsResponse)
    requires
        db.wf(),
        now - crate::time::LONGEST_LOOKBACK >= i64::MIN,
        forall|a: Value, b: Value| call_requires(*delta, (a, b)),
        forall|i: usize, n: usize, p: usize| call_requires(*stride, (i, n, p)),
    ensures
        lists_summaries(db.rows(), now, *delta, *stride, listing),
{
    let latest: Vec<LatestStat> = db.get_latest_stats();
    let ghost entries = latest@.map_values(|s: LatestStat| s@);
    let mut stats: Vec<StatSummary> = Vec::new();
    let mut j: usize = 0;
    while j < latest.len()
        invariant
            j <= latest.len(),
            db.wf(),
            now - crate::time::LONGEST_LOOKBACK >= i64::MIN,
            forall|a: Value, b: Value| call_requires(*delta, (a, b)),
            forall|i: usize, n: usize, p: usize| call_requires(*stride, (i, n, p)),
            entries == latest@.map_values(|s: LatestStat| s@),
            stats.len() == j,
            forall|k: int|
                0 <= k < j ==> is_summary(
                    db.rows(),
                    entries[k],
                    now,
                    *delta,
                    *stride,
                    #[trigger] stats@[k],
                ),
        decreases latest.len() - j,
    {
        let entry = &latest[j];
        assert(entries[j as int] == entry@);
        let key = entry.key.as_str();
        let day: i64 = window_start(now, Period::Day.micros());
        let week: i64 = window_start(now, Period::Week.micros());
        let month: i64 = window_start(now, Period::Month.micros());
        let quarter: i64 = window_start(now, Period::Quarter.micros());
        let trends = Trends {
            h24: compute_trend(db, key, entry.value, day, delta),
            d7: compute_trend(db, key, entry.value, week, delta),
            d30: compute_trend(db, key, entry.value, month, delta),
            d90: compute_trend(db, key, entry.value, quarter, delta),
        };
        let sparkline = db.get_sparkline(key, day, SPARKLINE_POINTS, stride);
        stats.push(
            StatSummary {
                key: entry.key.clone(),
                label: key_label(key),
                current: entry.value,
                trends,
                sparkline_24h: sparkline,
                last_updated: entry.recorded_at,
            },
        );
        j += 1;
    }
    StatsResponse { stats }
}

/// `get_stats_at` at the present instant, as the clock gives it.
pub fn get_stats<D: Fn(Value, Value) -> (Value, Value), S: Fn(usize, usize, usize) -> usize>(
    db: &Db,
    delta: &D,
    stride: &S,
) -> (listing: StatsResponse)
    requires
        db.wf(),
        forall|a: Value, b: Value| call_requires(*delta, (a, b)),
        forall|i: usize, n: usize, p: usize| call_requires(*stride, (i, n, p)),
    ensures
        listing.stats.len() == latest_stats(db.rows()).len(),
        exists|now: i64|
            now >= 0 && #[trigger] lists_summaries(db.rows(), now, *delta, *stride, listing),
{
    let now: i64 = clock_micros();
    let listing = get_stats_at(db, now, delta, stride);
    assert(lists_summaries(db.rows(), now, *delta, *stride, listing));
    listing
}


} // verus!
