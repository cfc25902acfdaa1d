//! What the operations of the dashboard take and return, and the display
//! labels of the keys.

use vstd::prelude::*;
use crate::db::AlertLevel;
use crate::text::same_key;
use crate::value::Value;

verus! {

/// One entry of a submitted batch. The metadata is the text of a JSON value;
/// it is stored with the point and never read.
#[derive(Debug)]
pub struct StatInput {
    pub key: String,
    pub value: Value,
    pub metadata: Option<String>,
}

/// The answer to a submitted batch: how many of its entries were appended.
#[derive(Clone, Copy, Debug, PartialEq, Eq, Structural)]
pub struct StatSubmitResponse {
    pub accepted: usize,
}

/// The change of a key over a look-back window. `start` is the baseline,
/// `end` the current value, `change` their difference and `pct` the change in
/// per cent of the baseline.
#[derive(Clone, Copy, Debug, PartialEq, Eq)]
pub struct TrendData {
    pub start: Option<Value>,
    pub end: Value,
    pub change: Option<Value>,
    pub pct: Option<Value>,
}

/// All that the dashboard shows of one key.
#[derive(Debug)]
pub struct StatSummary {
    pub key: String,
    pub label: String,
    pub current: Value,
    pub trends: Trends,
    pub sparkline_24h: Vec<Value>,
    pub last_updated: i64,
}

/// The trends of a key over 24 hours and over 7, 30 and 90 days.
#[derive(Clone, Copy, Debug, PartialEq, Eq)]
pub struct Trends {
    pub h24: TrendData,
    pub d7: TrendData,
    pub d30: TrendData,
    pub d90: TrendData,
}

/// The summaries of all keys, in ascending order of the keys.
#[derive(Debug)]
pub struct StatsResponse {
    pub stats: Vec<StatSummary>,
}

/// The history of one key, in chronological order.
#[derive(Debug)]
pub struct StatHistoryResponse {
    pub key: String,
    pub points: Vec<StatPointOut>,
}

/// One point of a history.
#[derive(Clone, Copy, Debug, PartialEq, Eq, Structural)]
pub struct StatPointOut {
    pub value: Value,
    pub recorded_at: i64,
}

/// The state of the service.
#[derive(Debug)]
pub struct HealthResponse {
    pub status: String,
    pub version: String,
    pub stats_count: i64,
    pub keys_count: usize,
    pub retention_days: i64,
    pub oldest_stat: Option<i64>,
}

/// What a pruning removed and what it left.
#[derive(Clone, Copy, Debug, PartialEq, Eq, Structural)]
pub struct PruneResponse {
    pub deleted: i64,
    pub retention_days: i64,
    pub remaining: i64,
}

/// What the deletion of a key removed.
#[derive(Debug)]
pub struct DeleteResponse {
    pub key: String,
    pub deleted: i64,
}

/// An entry of the alert log with the display label of its key.
#[derive(Debug)]
pub struct AlertOut {
    pub key: String,
    pub label: String,
    pub level: AlertLevel,
    pub value: Value,
    pub change_pct: Value,
    pub triggered_at: i64,
}

/// The newest alerts, newest first, and the number of all alerts in the log.
#[derive(Debug)]
pub struct AlertsResponse {
    pub alerts: Vec<AlertOut>,
    pub total: i64,
}

/// A key with every underscore turned into a space.
pub open spec fn spaced(key: Seq<char>) -> Seq<char> {
    key.map_values(|c: char| if c == '_' { ' ' } else { c })
}

/// The display label of a key: a fixed name for each of the known keys, and
/// for any other key the key itself with spaces for underscores.
pub open spec fn label_of(key: Seq<char>) -> Seq<char> {
    if key == "agents_discovered"@ {
        "Agents Discovered"@
    } else if key == "moltbook_interesting"@ {
        "Interesting Posts"@
    } else if key == "moltbook_spam"@ {
        "Spam Detected"@
    } else if key == "outreach_sent"@ {
        "Outreach Sent"@
    } else if key == "outreach_received"@ {
        "Inbound Messages"@
    } else if key == "repos_count"@ {
        "Repositories"@
    } else if key == "tests_total"@ {
        "Total Tests"@
    } else if key == "deploys_count"@ {
        "Deployments"@
    } else if key == "commits_total"@ {
        "Total Commits"@
    } else if key == "twitter_headlines"@ {
        "Flagged Tweets"@
    } else if key == "siblings_count"@ {
        "Sibling Agents"@
    } else if key == "siblings_active"@ {
        "Active Siblings"@
    } else if key == "moltbook_health"@ {
        "Platform Health"@
    } else if key == "moltbook_my_posts"@ {
        "My Posts"@
    } else if key == "twitter_accounts"@ {
        "Tracked Accounts"@
    } else if key == "cron_jobs_active"@ {
        "Active Cron Jobs"@
    } else if key == "kanban_backlog"@ {
        "Backlog"@
    } else if key == "kanban_up_next"@ {
        "Up Next"@
    } else if key == "kanban_in_progress"@ {
        "In Progress"@
    } else if key == "kanban_review"@ {
        "In Review"@
    } else if key == "kanban_done"@ {
        "Done"@
    } else if key == "kanban_active"@ {
        "Active Tasks"@
    } else {
        spaced(key)
    }
}

/// Calls `str::replace` with the pattern `'_'` and the replacement `" "`.
/// Believed: the result is the text with each underscore turned into one
/// space and every other character kept.
#[verifier::external_body]
fn underscores_to_spaces(key: &str) -> (label: String)
    ensures
        label@ == spaced(key@),
{
    key.replace('_', " ")
}

/// The display label of a key.
pub fn key_label(key: &str) -> (label: String)
    ensures
        label@ == label_of(key@),
{
    if same_key(key, "agents_discovered") {
        "Agents Discovered".to_owned()
    } else if same_key(key, "moltbook_interesting") {
        "Interesting Posts".to_owned()
    } else if same_key(key, "moltbook_spam") {
        "Spam Detected".to_owned()
    } else if same_key(key, "outreach_sent") {
        "Outreach Sent".to_owned()
    } else if same_key(key, "outreach_received") {
        "Inbound Messages".to_owned()
    } else if same_key(key, "repos_count") {
        "Repositories".to_owned()
    } else if same_key(key, "tests_total") {
        "Total Tests".to_owned()
    } else if same_key(key, "deploys_count") {
        "Deployments".to_owned()
    } else if same_key(key, "commits_total") {
        "Total Commits".to_owned()
    } else if same_key(key, "twitter_headlines") {
        "Flagged Tweets".to_owned()
    } else if same_key(key, "siblings_count") {
        "Sibling Agents".to_owned()
    } else if same_key(key, "siblings_active") {
        "Active Siblings".to_owned()
    } else if same_key(key, "moltbook_health") {
        "Platform Health".to_owned()
    } else if same_key(key, "moltbook_my_posts") {
        "My Posts".to_owned()
    } else if same_key(key, "twitter_accounts") {
        "Tracked Accounts".to_owned()
    } else if same_key(key, "cron_jobs_active") {
        "Active Cron Jobs".to_owned()
    } else if same_key(key, "kanban_backlog") {
        "Backlog".to_owned()
    } else if same_key(key, "kanban_up_next") {
        "Up Next".to_owned()
    } else if same_key(key, "kanban_in_progress") {
        "In Progress".to_owned()
    } else if same_key(key, "kanban_review") {
        "In Review".to_owned()
    } else if same_key(key, "kanban_done") {
        "Done".to_owned()
    } else if same_key(key, "kanban_active") {
        "Active Tasks".to_owned()
    } else {
        underscores_to_spaces(key)
    }
}

} // verus!
