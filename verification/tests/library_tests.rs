use private_dashboard::db::{AlertEntry, AlertLevel, Db, StatRow};
use private_dashboard::detector::{
    on_submit, settle_alert, ALERT_DEBOUNCE_HOURS, ALERT_THRESHOLD_BITS, HOT_THRESHOLD_BITS,
};
use private_dashboard::models::{key_label, StatInput};
use private_dashboard::routes::{
    day_end, delete_stat, get_alerts, get_stat_history_at, get_stats_at, health,
    history_for_period, history_in_range, is_authorized, prune_stats_at, read_range_end,
    read_range_start, submit_stats_at, ApiError, DEFAULT_RETENTION_DAYS,
};
use private_dashboard::text::{rank_keys, same_key, Rank};
use private_dashboard::time::{
    retention_cutoff, window_start, Period, MICROS_PER_DAY, MICROS_PER_HOUR, MICROS_PER_SECOND,
};
use private_dashboard::trend::{compute_trend, trend_against};
use private_dashboard::value::Value;

const HOUR: i64 = MICROS_PER_HOUR;
const DAY: i64 = MICROS_PER_DAY;

/// 2026-02-18T12:00:00Z, the instant around which the scenarios are laid out.
const T: i64 = 1_771_416_000_000_000;

fn val(x: f64) -> Value {
    Value::from_bits(x.to_bits())
}

fn num(v: Value) -> f64 {
    f64::from_bits(v.to_bits())
}

fn delta(current: Value, start: Value) -> (Value, Value) {
    let change = num(current) - num(start);
    (val(change), val((change / num(start)) * 100.0))
}

fn stride(i: usize, len: usize, points: usize) -> usize {
    let step = len as f64 / points as f64;
    (i as f64 * step) as usize
}

fn entry(key: &str, value: f64) -> StatInput {
    StatInput { key: key.to_string(), value: val(value), metadata: None }
}

fn store_with_key(token: &str) -> Db {
    let mut db = Db::new();
    db.set_manage_key(token);
    db
}

fn values(db: &Db, key: &str, since: i64) -> Vec<f64> {
    db.get_stat_history(key, since).iter().map(|p| num(p.value)).collect()
}

// ── Values ──

#[test]
fn anchor_instant_is_what_it_says() {
    let parsed = chrono::DateTime::parse_from_rfc3339("2026-02-18T12:00:00Z").unwrap();
    assert_eq!(parsed.timestamp_micros(), T);
}

#[test]
fn zero_is_what_compares_equal_to_zero() {
    for x in [0.0, -0.0, 1.0, -1.0, f64::MIN_POSITIVE, 5e-324, f64::INFINITY, f64::NAN, 1e300] {
        assert_eq!(val(x).zero(), x == 0.0, "{}", x);
    }
}

#[test]
fn nan_is_recognised() {
    for x in [0.0, -0.0, 1.0, f64::INFINITY, f64::NEG_INFINITY, f64::NAN, -f64::NAN, f64::MAX] {
        assert_eq!(val(x).nan(), x.is_nan(), "{}", x);
    }
}

#[test]
fn thresholds_are_ten_and_twenty_five() {
    assert_eq!(ALERT_THRESHOLD_BITS, 10.0f64.to_bits());
    assert_eq!(HOT_THRESHOLD_BITS, 25.0f64.to_bits());
    assert_eq!(ALERT_DEBOUNCE_HOURS, 6);
    assert_eq!(DEFAULT_RETENTION_DAYS, 90);
}

#[test]
fn magnitude_order_is_the_order_of_absolute_values() {
    let samples = [
        0.0, -0.0, 5e-324, 1e-10, 0.5, 1.0, 9.999999999999998, 10.0, 10.000000000000002, -10.0,
        -9.99, 24.999999999999996, 25.0, -25.0, 30.0, 1e15, -1e300, f64::MAX, f64::INFINITY,
        f64::NEG_INFINITY, f64::NAN,
    ];
    for x in samples {
        for t in [10.0f64, 25.0, 0.0, 1e-10, f64::INFINITY] {
            assert_eq!(val(x).magnitude_at_least(val(t)), x.abs() >= t, "{} against {}", x, t);
        }
    }
}

#[test]
fn bits_round_trip() {
    assert_eq!(Value::from_bits(0x4024_0000_0000_0000).to_bits(), 0x4024_0000_0000_0000);
    assert_eq!(num(val(-15.5)), -15.5);
}

// ── Keys ──

#[test]
fn keys_rank_by_their_bytes() {
    let keys = ["", "A", "Z", "a", "alpha", "alphabet", "b", "é", "日本", "\u{10FFFF}"];
    for a in keys {
        for b in keys {
            let expected = match a.cmp(b) {
                std::cmp::Ordering::Less => Rank::Before,
                std::cmp::Ordering::Equal => Rank::Same,
                std::cmp::Ordering::Greater => Rank::After,
            };
            assert_eq!(rank_keys(a, b), expected, "{:?} against {:?}", a, b);
            assert_eq!(same_key(a, b), a == b);
        }
    }
}

#[test]
fn distinct_keys_are_sorted_and_unique() {
    let mut db = Db::new();
    for key in ["zeta", "Alpha", "alpha", "beta", "alpha", "alphabet", "Zeta", "beta"] {
        db.insert_stat(key, val(1.0), T, None);
    }
    assert_eq!(db.get_all_keys(), vec!["Alpha", "Zeta", "alpha", "alphabet", "beta", "zeta"]);
}

#[test]
fn unknown_key_label_turns_underscores_into_spaces() {
    assert_eq!(key_label("a_b__c_"), "a b  c ");
    assert_eq!(key_label("_"), " ");
    assert_eq!(key_label(""), "");
    assert_eq!(key_label("kanban_done"), "Done");
    assert_eq!(key_label("kanban_up_next"), "Up Next");
    assert_eq!(key_label("Kanban_done"), "Kanban done");
}

// ── Sequence numbers ──

#[test]
fn sequence_counts_up_by_one_across_keys() {
    let mut db = Db::new();
    let keys = ["a", "b", "a", "c", "b", "a"];
    for (i, key) in keys.iter().enumerate() {
        let seq = db.insert_stat(key, val(i as f64), T - (i as i64) * HOUR, None);
        assert_eq!(seq, i as i64 + 1);
    }
}

#[test]
fn sequence_follows_the_highest_that_is_left() {
    let mut db = Db::new();
    assert_eq!(db.insert_stat("a", val(1.0), T, None), 1);
    assert_eq!(db.insert_stat("b", val(2.0), T, None), 2);
    assert_eq!(db.insert_stat("a", val(3.0), T, None), 3);
    assert_eq!(db.delete_stats_by_key("b"), 1);
    assert_eq!(db.insert_stat("c", val(4.0), T, None), 4);
    assert_eq!(db.delete_stats_by_key("c"), 1);
    assert_eq!(db.delete_stats_by_key("a"), 2);
    assert_eq!(db.get_stat_count(), 0);
    assert_eq!(db.insert_stat("d", val(5.0), T, None), 1);
}

#[test]
fn latest_is_the_last_appended_not_the_last_recorded() {
    let mut db = Db::new();
    db.insert_stat("k", val(1.0), T, None);
    db.insert_stat("k", val(2.0), T - 10 * DAY, Some("{\"note\":1}"));
    db.insert_stat("j", val(7.0), T + DAY, None);
    let latest = db.get_latest_stats();
    assert_eq!(latest.len(), 2);
    assert_eq!(latest[0].key, "j");
    assert_eq!(latest[1].key, "k");
    assert_eq!(num(latest[1].value), 2.0);
    assert_eq!(latest[1].recorded_at, T - 10 * DAY);
    assert_eq!(latest[1].metadata.as_deref(), Some("{\"note\":1}"));
    assert_eq!(latest[0].metadata, None);
}

// ── Point-in-time lookups ──

#[test]
fn value_at_or_before_is_none_only_without_earlier_points() {
    let mut db = Db::new();
    assert_eq!(db.get_stat_at_time("k", T), None);
    db.insert_stat("k", val(1.0), T, None);
    db.insert_stat("other", val(9.0), T - DAY, None);
    assert_eq!(db.get_stat_at_time("k", T - 1), None);
    assert_eq!(db.get_stat_at_time("k", T).map(num), Some(1.0));
    assert_eq!(db.get_stat_at_time("k", i64::MAX).map(num), Some(1.0));
    assert_eq!(db.get_stat_at_time("k", i64::MIN), None);
    assert_eq!(db.get_stat_at_time("missing", i64::MAX), None);
}

#[test]
fn value_at_or_before_breaks_ties_by_highest_sequence() {
    let mut db = Db::new();
    db.insert_stat("k", val(1.0), T, None);
    db.insert_stat("k", val(2.0), T, None);
    db.insert_stat("k", val(3.0), T - HOUR, None);
    db.insert_stat("k", val(4.0), T + HOUR, None);
    assert_eq!(db.get_stat_at_time("k", T).map(num), Some(2.0));
    assert_eq!(db.get_stat_at_time("k", T + HOUR - 1).map(num), Some(2.0));
    assert_eq!(db.get_stat_at_time("k", T - 1).map(num), Some(3.0));
}

#[test]
fn earliest_at_or_after_breaks_ties_by_lowest_sequence() {
    let mut db = Db::new();
    db.insert_stat("k", val(4.0), T + HOUR, None);
    db.insert_stat("k", val(1.0), T, None);
    db.insert_stat("k", val(2.0), T, None);
    db.insert_stat("k", val(3.0), T - HOUR, None);
    assert_eq!(db.get_earliest_stat_since("k", T).map(num), Some(1.0));
    assert_eq!(db.get_earliest_stat_since("k", T - HOUR).map(num), Some(3.0));
    assert_eq!(db.get_earliest_stat_since("k", T + 1).map(num), Some(4.0));
    assert_eq!(db.get_earliest_stat_since("k", T + HOUR + 1), None);
    assert_eq!(db.get_earliest_stat_since("missing", i64::MIN), None);
}

#[test]
fn oldest_time_is_the_least_over_all_keys() {
    let mut db = Db::new();
    assert_eq!(db.get_oldest_stat_time(), None);
    db.insert_stat("a", val(1.0), T, None);
    db.insert_stat("b", val(1.0), T - DAY, None);
    db.insert_stat("a", val(1.0), T + DAY, None);
    assert_eq!(db.get_oldest_stat_time(), Some(T - DAY));
}

// ── Histories ──

#[test]
fn history_is_ordered_by_time_then_sequence_and_bounds_are_inclusive() {
    let mut db = Db::new();
    db.insert_stat("k", val(5.0), T + 2 * HOUR, None);
    db.insert_stat("k", val(2.0), T, None);
    db.insert_stat("x", val(99.0), T, None);
    db.insert_stat("k", val(3.0), T, None);
    db.insert_stat("k", val(1.0), T - HOUR, None);
    db.insert_stat("k", val(4.0), T + HOUR, None);
    let all: Vec<f64> =
        db.get_stat_history_range("k", i64::MIN, i64::MAX).iter().map(|p| num(p.value)).collect();
    assert_eq!(all, vec![1.0, 2.0, 3.0, 4.0, 5.0]);
    let inner: Vec<(f64, i64)> = db
        .get_stat_history_range("k", T, T + HOUR)
        .iter()
        .map(|p| (num(p.value), p.recorded_at))
        .collect();
    assert_eq!(inner, vec![(2.0, T), (3.0, T), (4.0, T + HOUR)]);
    assert_eq!(values(&db, "k", T + HOUR), vec![4.0, 5.0]);
    assert_eq!(values(&db, "k", T + 2 * HOUR + 1), Vec::<f64>::new());
    assert!(db.get_stat_history_range("k", T + HOUR, T).is_empty());
    assert!(db.get_stat_history_range("nobody", i64::MIN, i64::MAX).is_empty());
}

// ── Sparklines ──

#[test]
fn sparkline_length_is_the_lesser_of_history_and_points() {
    let mut db = Db::new();
    for i in 0..30 {
        db.insert_stat("k", val(i as f64), T + i * 60 * MICROS_PER_SECOND, None);
    }
    for points in [0usize, 1, 5, 12, 29, 30, 31, 100] {
        let line = db.get_sparkline("k", T, points, &stride);
        assert_eq!(line.len(), points.min(30), "{} points", points);
    }
}

#[test]
fn sparkline_of_a_short_history_is_the_history() {
    let mut db = Db::new();
    for (i, x) in [3.5, -1.0, 0.0, 8.25].iter().enumerate() {
        db.insert_stat("k", val(*x), T - (i as i64) * HOUR, None);
    }
    let line: Vec<f64> = db.get_sparkline("k", T - DAY, 4, &stride).into_iter().map(num).collect();
    assert_eq!(line, vec![8.25, 0.0, -1.0, 3.5]);
    let line: Vec<f64> = db.get_sparkline("k", T - DAY, 12, &stride).into_iter().map(num).collect();
    assert_eq!(line, vec![8.25, 0.0, -1.0, 3.5]);
}

#[test]
fn sparkline_samples_at_the_stride() {
    let mut db = Db::new();
    for i in 0..50 {
        db.insert_stat("k", val(i as f64), T + i * 60 * MICROS_PER_SECOND, None);
    }
    let line: Vec<f64> = db.get_sparkline("k", T, 12, &stride).into_iter().map(num).collect();
    let expected: Vec<f64> = (0..12).map(|i| stride(i, 50, 12).min(49) as f64).collect();
    assert_eq!(line, expected);
    assert_eq!(line[0], 0.0);
    assert_eq!(line[3], 12.0);
    assert_eq!(line[11], 45.0);
}

#[test]
fn sparkline_clamps_an_index_beyond_the_end() {
    let mut db = Db::new();
    for i in 0..5 {
        db.insert_stat("k", val(i as f64), T + i, None);
    }
    let far = |_i: usize, _len: usize, _points: usize| -> usize { usize::MAX };
    let line: Vec<f64> = db.get_sparkline("k", T, 3, &far).into_iter().map(num).collect();
    assert_eq!(line, vec![4.0, 4.0, 4.0]);
}

// ── Trends ──

#[test]
fn trend_of_200_to_250_is_25_per_cent() {
    let mut db = Db::new();
    db.insert_stat("x", val(200.0), T - 25 * HOUR, None);
    db.insert_stat("x", val(250.0), T, None);
    let since = window_start(T, Period::Day.micros());
    assert_eq!(since, T - 24 * HOUR);
    let trend = compute_trend(&db, "x", val(250.0), since, &delta);
    assert_eq!(trend.start.map(num), Some(200.0));
    assert_eq!(num(trend.end), 250.0);
    assert_eq!(trend.change.map(num), Some(50.0));
    assert_eq!(trend.pct.map(num), Some(25.0));
}

#[test]
fn trend_has_no_percentage_against_a_zero_baseline() {
    for zero in [0.0, -0.0] {
        for current in [1.0, -1.0, 1e300, 5e-324, 100.0] {
            let trend = trend_against(Some(val(zero)), val(current), &delta);
            assert_eq!(trend.start.map(num), Some(zero));
            assert_eq!(trend.change.map(num), Some(current - zero));
            assert_eq!(trend.pct, None);
            let mut db = Db::new();
            db.insert_stat("k", val(zero), T - 2 * DAY, None);
            let trend = compute_trend(&db, "k", val(current), T - DAY, &delta);
            assert_eq!(trend.pct, None);
            assert_eq!(trend.change.map(num), Some(current));
        }
    }
}

#[test]
fn trend_without_data_holds_the_current_value_alone() {
    let db = Db::new();
    let trend = compute_trend(&db, "k", val(5.0), T, &delta);
    assert_eq!(trend.start, None);
    assert_eq!(num(trend.end), 5.0);
    assert_eq!(trend.change, None);
    assert_eq!(trend.pct, None);
}

#[test]
fn trend_falls_back_to_the_earliest_value_in_the_window() {
    let mut db = Db::new();
    db.insert_stat("k", val(80.0), T - 2 * HOUR, None);
    db.insert_stat("k", val(90.0), T - HOUR, None);
    let trend = compute_trend(&db, "k", val(100.0), T - DAY, &delta);
    assert_eq!(trend.start.map(num), Some(80.0));
    assert_eq!(trend.change.map(num), Some(20.0));
    assert_eq!(trend.pct.map(num), Some(25.0));
    // A point at the opening of the window is the baseline, not the fallback.
    db.insert_stat("k", val(50.0), T - DAY, None);
    let trend = compute_trend(&db, "k", val(100.0), T - DAY, &delta);
    assert_eq!(trend.start.map(num), Some(50.0));
    assert_eq!(trend.pct.map(num), Some(100.0));
}

#[test]
fn periods_have_their_spans() {
    assert_eq!(Period::parse("24h"), Some(Period::Day));
    assert_eq!(Period::parse("7d"), Some(Period::Week));
    assert_eq!(Period::parse("30d"), Some(Period::Month));
    assert_eq!(Period::parse("90d"), Some(Period::Quarter));
    for token in ["", "24", "24H", "1d", "90d ", "365d"] {
        assert_eq!(Period::parse(token), None, "{:?}", token);
    }
    assert_eq!(Period::Day.micros(), 86_400_000_000);
    assert_eq!(Period::Week.micros(), 7 * 86_400_000_000);
    assert_eq!(Period::Month.micros(), 30 * 86_400_000_000);
    assert_eq!(Period::Quarter.micros(), 90 * 86_400_000_000);
}

// ── Alerts ──

#[test]
fn debounce_lets_one_alert_through_in_six_hours() {
    let mut db = store_with_key("token");
    db.insert_stat("m", val(100.0), T - 25 * HOUR, None);

    let done = submit_stats_at(&mut db, "token", &vec![entry("m", 130.0)], T, &delta);
    assert_eq!(done.unwrap().accepted, 1);
    let log = db.get_alerts(-1);
    assert_eq!(log.len(), 1);
    assert_eq!(log[0].level, AlertLevel::Hot);
    assert_eq!(log[0].key, "m");
    assert_eq!(num(log[0].value), 130.0);
    assert_eq!(num(log[0].change_pct), 30.0);
    assert_eq!(log[0].triggered_at, T);

    submit_stats_at(&mut db, "token", &vec![entry("m", 135.0)], T + HOUR, &delta).unwrap();
    assert_eq!(db.get_alert_count(), 1);

    // Exactly six hours on the earlier alert still stands in the way.
    submit_stats_at(&mut db, "token", &vec![entry("m", 135.0)], T + 6 * HOUR, &delta).unwrap();
    assert_eq!(db.get_alert_count(), 1);

    submit_stats_at(&mut db, "token", &vec![entry("m", 115.0)], T + 7 * HOUR, &delta).unwrap();
    let log = db.get_alerts(-1);
    assert_eq!(log.len(), 2);
    assert_eq!(log[0].triggered_at, T + 7 * HOUR);
    assert_eq!(log[0].level, AlertLevel::Alert);
    assert_eq!(num(log[0].change_pct), 15.0);
    assert_eq!(db.get_stat_count(), 5);
}

#[test]
fn detector_decides_on_the_percentage_it_is_given() {
    let cases: [(Option<f64>, Option<AlertLevel>); 12] = [
        (None, None),
        (Some(0.0), None),
        (Some(9.999999999999998), None),
        (Some(-9.999999999999998), None),
        (Some(10.0), Some(AlertLevel::Alert)),
        (Some(-10.0), Some(AlertLevel::Alert)),
        (Some(24.999999999999996), Some(AlertLevel::Alert)),
        (Some(25.0), Some(AlertLevel::Hot)),
        (Some(-25.0), Some(AlertLevel::Hot)),
        (Some(f64::INFINITY), Some(AlertLevel::Hot)),
        (Some(f64::NEG_INFINITY), Some(AlertLevel::Hot)),
        (Some(f64::NAN), None),
    ];
    for (pct, expected) in cases {
        let mut db = Db::new();
        let raised = settle_alert(&mut db, "k", val(1.0), pct.map(val), T);
        assert_eq!(raised, expected, "{:?}", pct);
        assert_eq!(db.get_alert_count(), if expected.is_some() { 1 } else { 0 });
        assert_eq!(db.get_stat_count(), 0);
    }
}

#[test]
fn debounce_looks_at_the_same_key_only() {
    let mut db = Db::new();
    db.insert_alert("other", AlertLevel::Hot, val(1.0), val(50.0), T);
    db.insert_alert("k", AlertLevel::Hot, val(1.0), val(50.0), T - 6 * HOUR - 1);
    assert_eq!(settle_alert(&mut db, "k", val(2.0), Some(val(12.0)), T), Some(AlertLevel::Alert));
    assert_eq!(settle_alert(&mut db, "k", val(2.0), Some(val(12.0)), T + 1), None);
    assert_eq!(db.get_last_alert_time("k"), Some(T));
    assert_eq!(db.get_last_alert_time("other"), Some(T));
    assert_eq!(db.get_last_alert_time("none"), None);
}

#[test]
fn detector_measures_against_the_store_before_the_point() {
    let mut db = Db::new();
    // No data at all: nothing to measure against.
    assert_eq!(on_submit(&mut db, "k", val(130.0), T, &delta), None);
    db.insert_stat("k", val(100.0), T - HOUR, None);
    // The key first appeared inside the window: its first value is the baseline.
    assert_eq!(on_submit(&mut db, "k", val(130.0), T, &delta), Some(AlertLevel::Hot));
    let log = db.get_alerts(1);
    assert_eq!(num(log[0].change_pct), 30.0);
    assert_eq!(db.get_stat_count(), 1);
}

#[test]
fn batch_with_repeated_key_measures_the_second_entry_against_the_first() {
    let mut db = store_with_key("token");
    let batch = vec![entry("dup", 10.0), entry("dup", 20.0)];
    assert_eq!(submit_stats_at(&mut db, "token", &batch, T, &delta).unwrap().accepted, 2);
    assert_eq!(values(&db, "dup", T), vec![10.0, 20.0]);
    let log = db.get_alerts_for_key("dup", 10);
    assert_eq!(log.len(), 1);
    assert_eq!(num(log[0].value), 20.0);
    assert_eq!(num(log[0].change_pct), 100.0);
}

#[test]
fn alerts_come_newest_first_and_ties_by_later_entry() {
    let mut db = Db::new();
    db.insert_alert("a", AlertLevel::Alert, val(1.0), val(11.0), T);
    db.insert_alert("b", AlertLevel::Hot, val(2.0), val(30.0), T + HOUR);
    db.insert_alert("a", AlertLevel::Alert, val(3.0), val(12.0), T);
    db.insert_alert("c", AlertLevel::Alert, val(4.0), val(13.0), T - HOUR);
    let order: Vec<f64> = db.get_alerts(10).iter().map(|a| num(a.value)).collect();
    assert_eq!(order, vec![2.0, 3.0, 1.0, 4.0]);
    let order: Vec<f64> = db.get_alerts(2).iter().map(|a| num(a.value)).collect();
    assert_eq!(order, vec![2.0, 3.0]);
    assert!(db.get_alerts(0).is_empty());
    assert_eq!(db.get_alerts(-5).len(), 4);
    let order: Vec<f64> = db.get_alerts_for_key("a", 1).iter().map(|a| num(a.value)).collect();
    assert_eq!(order, vec![3.0]);
}

#[test]
fn alert_query_clamps_its_limit() {
    let mut db = Db::new();
    for i in 0..510 {
        db.insert_alert("k", AlertLevel::Alert, val(i as f64), val(10.0), T + i);
    }
    assert_eq!(get_alerts(&db, None, None).alerts.len(), 50);
    assert_eq!(get_alerts(&db, None, Some(0)).alerts.len(), 1);
    assert_eq!(get_alerts(&db, None, Some(-3)).alerts.len(), 1);
    assert_eq!(get_alerts(&db, None, Some(500)).alerts.len(), 500);
    assert_eq!(get_alerts(&db, None, Some(501)).alerts.len(), 500);
    assert_eq!(get_alerts(&db, Some("none"), Some(7)).alerts.len(), 0);
    let found = get_alerts(&db, Some("k"), Some(2));
    assert_eq!(found.total, 510);
    assert_eq!(num(found.alerts[0].value), 509.0);
    assert_eq!(found.alerts[0].label, "k");
    assert_eq!(found.alerts[0].level.as_str(), "alert");
}

// ── Ingestion ──

#[test]
fn batch_skips_the_empty_key() {
    let mut db = store_with_key("token");
    let batch = vec![entry("", 1.0), entry("ok", 2.0)];
    let done = submit_stats_at(&mut db, "token", &batch, T, &delta).unwrap();
    assert_eq!(done.accepted, 1);
    assert_eq!(db.get_all_keys(), vec!["ok"]);
    assert_eq!(db.get_stat_count(), 1);
    assert_eq!(db.stats()[0].recorded_at, T);
    assert_eq!(db.stats()[0].seq, 1);
}

#[test]
fn key_length_counts_characters() {
    let mut db = store_with_key("token");
    let batch = vec![
        entry(&"a".repeat(100), 1.0),
        entry(&"a".repeat(101), 2.0),
        entry(&"é".repeat(100), 3.0),
        entry(&"é".repeat(101), 4.0),
        entry("x", 5.0),
    ];
    let done = submit_stats_at(&mut db, "token", &batch, T, &delta).unwrap();
    assert_eq!(done.accepted, 3);
    let stored: Vec<f64> = db.stats().iter().map(|r| num(r.value)).collect();
    assert_eq!(stored, vec![1.0, 3.0, 5.0]);
}

#[test]
fn batch_is_refused_as_a_whole() {
    let mut db = store_with_key("token");
    let empty: Vec<StatInput> = Vec::new();
    let many: Vec<StatInput> = (0..101).map(|i| entry(&format!("k{}", i), 1.0)).collect();
    let full: Vec<StatInput> = (0..100).map(|i| entry(&format!("k{}", i), 1.0)).collect();
    assert_eq!(submit_stats_at(&mut db, "token", &empty, T, &delta), Err(ApiError::EmptyBatch));
    assert_eq!(submit_stats_at(&mut db, "token", &many, T, &delta), Err(ApiError::TooManyStats));
    assert_eq!(
        submit_stats_at(&mut db, "wrong", &full, T, &delta),
        Err(ApiError::InvalidManageKey)
    );
    // The manage key is asked for first.
    assert_eq!(
        submit_stats_at(&mut db, "wrong", &empty, T, &delta),
        Err(ApiError::InvalidManageKey)
    );
    assert_eq!(db.get_stat_count(), 0);
    assert_eq!(submit_stats_at(&mut db, "token", &full, T, &delta).unwrap().accepted, 100);
    assert_eq!(db.get_stat_count(), 100);
}

#[test]
fn metadata_is_stored_with_the_point() {
    let mut db = store_with_key("token");
    let batch = vec![StatInput {
        key: "m".to_string(),
        value: val(1.0),
        metadata: Some("{\"source\":\"manual\"}".to_string()),
    }];
    submit_stats_at(&mut db, "token", &batch, T, &delta).unwrap();
    assert_eq!(db.stats()[0].metadata.as_deref(), Some("{\"source\":\"manual\"}"));
}

#[test]
fn a_store_without_manage_key_takes_the_empty_token() {
    let mut db = Db::new();
    assert_eq!(db.get_manage_key(), None);
    assert!(is_authorized(&db, ""));
    assert!(!is_authorized(&db, "x"));
    db.set_manage_key("x");
    assert!(is_authorized(&db, "x"));
    assert!(!is_authorized(&db, ""));
    assert!(!is_authorized(&db, "X"));
}

// ── Errors ──

#[test]
fn errors_have_their_status_and_message() {
    let all = [
        (ApiError::InvalidManageKey, 403, "Invalid manage key"),
        (ApiError::EmptyBatch, 400, "Empty stats array"),
        (ApiError::TooManyStats, 400, "Too many stats (max 100)"),
        (ApiError::StartAfterEnd, 400, "start must be before end"),
        (
            ApiError::InvalidDate,
            400,
            "Invalid date format. Use ISO-8601 (e.g. 2026-02-01T00:00:00Z) or YYYY-MM-DD",
        ),
        (ApiError::InvalidPeriod, 400, "Invalid period. Use 24h, 7d, 30d, or 90d"),
        (ApiError::NoStatsForKey, 404, "No stats found for key"),
    ];
    for (e, status, message) in all {
        assert_eq!(e.status(), status);
        assert_eq!(e.message(), message);
    }
}

#[test]
fn every_error_has_an_input_that_gives_it() {
    let mut db = store_with_key("token");
    db.insert_stat("k", val(1.0), T, None);
    assert_eq!(delete_stat(&mut db, "bad", "k").unwrap_err(), ApiError::InvalidManageKey);
    assert_eq!(delete_stat(&mut db, "token", "none").unwrap_err(), ApiError::NoStatsForKey);
    assert_eq!(prune_stats_at(&mut db, "bad", T).unwrap_err(), ApiError::InvalidManageKey);
    assert_eq!(
        get_stat_history_at(&db, "k", Some("1y"), None, None, T).unwrap_err(),
        ApiError::InvalidPeriod
    );
    assert_eq!(
        get_stat_history_at(&db, "k", None, Some("2026-02-20"), Some("2026-02-19"), T)
            .unwrap_err(),
        ApiError::StartAfterEnd
    );
    assert_eq!(
        get_stat_history_at(&db, "k", None, Some("2026-02-30"), Some("2026-03-01"), T)
            .unwrap_err(),
        ApiError::InvalidDate
    );
    assert_eq!(
        get_stat_history_at(&db, "k", None, Some("2026-02-01"), Some("tomorrow"), T).unwrap_err(),
        ApiError::InvalidDate
    );
    // An unreadable bound outranks a range that is the wrong way round.
    assert_eq!(history_in_range(&db, "k", None, Some(0)).unwrap_err(), ApiError::InvalidDate);
    assert_eq!(history_in_range(&db, "k", Some(1), Some(0)).unwrap_err(), ApiError::StartAfterEnd);
    assert_eq!(db.get_stat_count(), 1);
}

// ── Ranges read from text ──

#[test]
fn range_bounds_are_read_as_instants_or_days() {
    assert_eq!(read_range_start("2026-02-18T12:00:00Z"), Some(T));
    assert_eq!(read_range_end("2026-02-18T12:00:00Z"), Some(T));
    assert_eq!(read_range_start("2026-02-18T14:00:00+02:00"), Some(T));
    assert_eq!(read_range_start("2026-02-18T12:00:00.000001Z"), Some(T + 1));
    assert_eq!(read_range_start("2026-02-18"), Some(T - 12 * HOUR));
    assert_eq!(read_range_end("2026-02-18"), Some(T + 12 * HOUR - MICROS_PER_SECOND));
    assert_eq!(read_range_start("1970-01-01"), Some(0));
    assert_eq!(read_range_end("1970-01-01"), Some(86_399_000_000));
    for text in ["", "2026-02-18T12:00:00", "18/02/2026", "2026-13-01", "2026-02-18 ", "today"] {
        assert_eq!(read_range_start(text), None, "{:?}", text);
        assert_eq!(read_range_end(text), None, "{:?}", text);
    }
}

#[test]
fn a_day_ends_at_its_last_whole_second() {
    assert_eq!(day_end(0), Some(86_399_000_000));
    assert_eq!(day_end(-86_400_000_000), Some(-1_000_000));
    assert_eq!(day_end(i64::MAX - 86_399_000_000), Some(i64::MAX));
    assert_eq!(day_end(i64::MAX - 86_398_999_999), None);
}

#[test]
fn a_date_range_covers_whole_days() {
    let mut db = Db::new();
    let midnight = T - 12 * HOUR;
    db.insert_stat("k", val(1.0), midnight - 1, None);
    db.insert_stat("k", val(2.0), midnight, None);
    db.insert_stat("k", val(3.0), midnight + DAY - MICROS_PER_SECOND, None);
    db.insert_stat("k", val(4.0), midnight + DAY - MICROS_PER_SECOND + 1, None);
    let past =
        get_stat_history_at(&db, "k", Some("nonsense"), Some("2026-02-18"), Some("2026-02-18"), T)
            .unwrap();
    assert_eq!(past.key, "k");
    let seen: Vec<f64> = past.points.iter().map(|p| num(p.value)).collect();
    assert_eq!(seen, vec![2.0, 3.0]);
    assert_eq!(past.points[0].recorded_at, midnight);
}

#[test]
fn a_single_bound_is_ignored_for_the_period() {
    let mut db = Db::new();
    db.insert_stat("k", val(1.0), T - 2 * DAY, None);
    db.insert_stat("k", val(2.0), T - DAY, None);
    db.insert_stat("k", val(3.0), T + 10 * DAY, None);
    let seen = |period: Option<&str>, start: Option<&str>, end: Option<&str>| -> Vec<f64> {
        get_stat_history_at(&db, "k", period, start, end, T)
            .unwrap()
            .points
            .iter()
            .map(|p| num(p.value))
            .collect()
    };
    assert_eq!(seen(None, Some("garbage"), None), vec![2.0, 3.0]);
    assert_eq!(seen(None, None, Some("2020-01-01")), vec![2.0, 3.0]);
    assert_eq!(seen(Some("7d"), None, None), vec![1.0, 2.0, 3.0]);
    let past = history_for_period(&db, "k", Some("24h"), T + 1).unwrap();
    assert_eq!(past.points.len(), 1);
}

// ── Retention ──

#[test]
fn prune_keeps_89_days_and_deletes_91() {
    let mut db = store_with_key("token");
    db.insert_stat("k", val(1.0), T - 89 * DAY, None);
    db.insert_stat("k", val(2.0), T - 91 * DAY, None);
    db.insert_stat("j", val(3.0), T - 90 * DAY, None);
    db.insert_stat("j", val(4.0), T - 90 * DAY - 1, None);
    db.insert_alert("k", AlertLevel::Hot, val(2.0), val(40.0), T - 91 * DAY);
    let first = prune_stats_at(&mut db, "token", T).unwrap();
    assert_eq!(first.deleted, 2);
    assert_eq!(first.remaining, 2);
    assert_eq!(first.retention_days, 90);
    let kept: Vec<f64> = db.stats().iter().map(|r| num(r.value)).collect();
    assert_eq!(kept, vec![1.0, 3.0]);
    let second = prune_stats_at(&mut db, "token", T).unwrap();
    assert_eq!(second.deleted, 0);
    assert_eq!(second.remaining, 2);
    assert_eq!(db.get_alert_count(), 1);
}

#[test]
fn prune_cutoff_is_strict() {
    let mut db = Db::new();
    db.insert_stat("k", val(1.0), T - 1, None);
    db.insert_stat("k", val(2.0), T, None);
    db.insert_stat("k", val(3.0), T + 1, None);
    assert_eq!(db.prune_older_than(T), 1);
    assert_eq!(db.prune_older_than(T), 0);
    assert_eq!(db.prune_older_than(i64::MIN), 0);
    assert_eq!(db.prune_older_than(i64::MAX), 2);
    assert_eq!(db.get_stat_count(), 0);
}

#[test]
fn retention_horizon_may_lie_beyond_every_instant() {
    assert_eq!(retention_cutoff(T, 90), (T - 90 * DAY) as i128);
    assert_eq!(retention_cutoff(0, i64::MIN), (i64::MAX as i128 + 1) * DAY as i128);
    let mut db = Db::new();
    db.insert_stat("k", val(1.0), i64::MIN, None);
    db.insert_stat("k", val(2.0), i64::MAX, None);
    // A horizon before every instant an `i64` holds deletes nothing.
    assert_eq!(db.prune_old_stats_at(i64::MAX, i64::MIN), 0);
    // A horizon after every such instant deletes everything.
    assert_eq!(db.prune_old_stats_at(i64::MIN, i64::MAX), 2);
}

#[test]
fn prune_by_the_clock_keeps_what_is_recent() {
    let mut db = Db::new();
    let now = chrono::Utc::now().timestamp_micros();
    db.insert_stat("k", val(1.0), now - 91 * DAY, None);
    db.insert_stat("k", val(2.0), now - 89 * DAY, None);
    db.insert_stat("k", val(3.0), now + DAY, None);
    assert_eq!(db.prune_old_stats(90), 1);
    assert_eq!(db.prune_old_stats(90), 0);
    assert_eq!(db.get_stat_count(), 2);
}

// ── Deletion ──

#[test]
fn delete_by_key_leaves_the_alert_log() {
    let mut db = store_with_key("token");
    db.insert_stat("k", val(1.0), T, None);
    db.insert_stat("other", val(2.0), T, None);
    db.insert_stat("k", val(3.0), T + 1, None);
    db.insert_alert("k", AlertLevel::Alert, val(3.0), val(12.0), T);
    let done = delete_stat(&mut db, "token", "k").unwrap();
    assert_eq!(done.key, "k");
    assert_eq!(done.deleted, 2);
    assert_eq!(db.get_all_keys(), vec!["other"]);
    assert!(db.get_latest_stats().iter().all(|s| s.key != "k"));
    let found = get_alerts(&db, Some("k"), None);
    assert_eq!(found.alerts.len(), 1);
    assert_eq!(found.alerts[0].triggered_at, T);
    assert_eq!(found.total, 1);
    assert_eq!(delete_stat(&mut db, "token", "k").unwrap_err(), ApiError::NoStatsForKey);
}

// ── The aggregate read ──

#[test]
fn summaries_list_every_key_with_trends_and_sparkline() {
    let mut db = Db::new();
    db.insert_stat("repos_count", val(8.0), T - 100 * DAY, None);
    db.insert_stat("repos_count", val(10.0), T - 40 * DAY, None);
    db.insert_stat("repos_count", val(16.0), T - 10 * DAY, None);
    db.insert_stat("repos_count", val(20.0), T - 2 * HOUR, None);
    db.insert_stat("custom_key", val(0.0), T - HOUR, None);
    db.insert_stat("repos_count", val(25.0), T, None);
    let listing = get_stats_at(&db, T, &delta, &stride);
    assert_eq!(listing.stats.len(), 2);
    let custom = &listing.stats[0];
    assert_eq!(custom.key, "custom_key");
    assert_eq!(custom.label, "custom key");
    assert_eq!(custom.trends.h24.start.map(num), Some(0.0));
    assert_eq!(custom.trends.h24.pct, None);
    assert_eq!(custom.last_updated, T - HOUR);
    let repos = &listing.stats[1];
    assert_eq!(repos.label, "Repositories");
    assert_eq!(num(repos.current), 25.0);
    assert_eq!(repos.last_updated, T);
    assert_eq!(repos.trends.h24.start.map(num), Some(16.0));
    assert_eq!(repos.trends.d7.start.map(num), Some(16.0));
    assert_eq!(repos.trends.d30.start.map(num), Some(10.0));
    assert_eq!(repos.trends.d90.start.map(num), Some(8.0));
    assert_eq!(repos.trends.d90.change.map(num), Some(17.0));
    assert_eq!(repos.trends.d90.pct.map(num), Some(212.5));
    assert_eq!(repos.trends.d30.pct.map(num), Some(150.0));
    let line: Vec<f64> = repos.sparkline_24h.iter().map(|v| num(*v)).collect();
    assert_eq!(line, vec![20.0, 25.0]);
}

#[test]
fn health_counts_points_and_keys() {
    let mut db = Db::new();
    let empty = health(&db);
    assert_eq!(empty.status, "ok");
    assert_eq!(empty.version, "0.1.0");
    assert_eq!((empty.stats_count, empty.keys_count, empty.oldest_stat), (0, 0, None));
    db.insert_stat("a", val(1.0), T, None);
    db.insert_stat("a", val(2.0), T - DAY, None);
    db.insert_stat("b", val(3.0), T + DAY, None);
    let full = health(&db);
    assert_eq!((full.stats_count, full.keys_count), (3, 2));
    assert_eq!(full.oldest_stat, Some(T - DAY));
    assert_eq!(full.retention_days, 90);
}

// ── Reading a store back ──

#[test]
fn restore_takes_a_log_in_sequence_order_only() {
    let row = |key: &str, seq: i64| StatRow {
        key: key.to_string(),
        value: val(seq as f64),
        recorded_at: T,
        metadata: None,
        seq,
    };
    let alert = AlertEntry {
        key: "a".to_string(),
        level: AlertLevel::Hot,
        value: val(1.0),
        change_pct: val(30.0),
        triggered_at: T,
    };
    let mut db =
        Db::restore(vec![row("a", 2), row("b", 5), row("a", 6)], vec![alert], Some("k".into()))
            .unwrap();
    assert_eq!(db.get_stat_count(), 3);
    assert_eq!(db.get_alert_count(), 1);
    assert_eq!(db.alerts()[0].key, "a");
    assert_eq!(db.get_manage_key().as_deref(), Some("k"));
    assert_eq!(db.insert_stat("c", val(0.0), T, None), 7);
    assert!(Db::restore(vec![row("a", 2), row("b", 2)], vec![], None).is_none());
    assert!(Db::restore(vec![row("a", 3), row("b", 2)], vec![], None).is_none());
    assert!(Db::restore(vec![row("a", 0)], vec![], None).is_none());
    assert!(Db::restore(vec![], vec![], None).is_some());
}
