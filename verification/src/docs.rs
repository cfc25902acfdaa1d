//! The documents that the dashboard serves as they stand.

use vstd::prelude::*;

verus! {

/// A plain-text guide to the endpoints.
pub const LLMS_TXT: &'static str = "\
# The Pack — Agent Operations Dashboard
> Local network stats dashboard for the agent collective (Nanook + siblings).
> Displays key operational metrics with trend data across multiple time windows.

## API Base: /api/v1

## Endpoints

### GET /api/v1/health
Returns service status, version, and stat counts.

### POST /api/v1/stats
Submit a batch of stat snapshots. Requires `Authorization: Bearer <manage_key>`.
Body: Array of `{\"key\": string, \"value\": number, \"metadata?\": object}`.
Max 100 per batch. Keys must be 1-100 characters.

### GET /api/v1/stats
Returns all metrics with latest value, trend data (24h/7d/30d/90d), sparkline, and human-readable labels.
No auth required.

### GET /api/v1/stats/<key>?period=24h|7d|30d|90d
Returns time-series history for a single metric. Default period: 24h.
Supports custom date range: ?start=YYYY-MM-DD&end=YYYY-MM-DD (or ISO-8601).
When start and end are provided, period is ignored.

### POST /api/v1/stats/prune
Manually trigger data retention. Deletes stats older than 90 days.
Requires `Authorization: Bearer <manage_key>`. Returns deleted count and remaining.

### DELETE /api/v1/stats/<key>
Delete all data points for a specific metric key. Requires `Authorization: Bearer <manage_key>`.
Returns 404 if the key has no data. Response: `{\"key\": string, \"deleted\": number}`.

### GET /api/v1/alerts?key=<optional>&limit=<optional>
Returns alert history log — significant metric changes (>=10% = alert, >=25% = hot).
Auto-recorded on stat submission. Debounced to max 1 alert per key per 6 hours.
Optional filters: `key` for specific metric, `limit` (1-500, default 50).
Response: `{\"alerts\": [{\"key\", \"label\", \"level\", \"value\", \"change_pct\", \"triggered_at\"}], \"total\": number}`.
No auth required.

## Auth
- Read endpoints: No auth (local network only)
- Write endpoints: Bearer token (manage key generated on first run)

## Data Retention
- Auto-prune on startup: stats older than 90 days are automatically deleted
- Manual prune: POST /api/v1/stats/prune (auth required)

## Known Metric Keys
agents_discovered, moltbook_interesting, moltbook_spam, moltbook_health, moltbook_my_posts,
outreach_sent, outreach_received, repos_count, tests_total, deploys_count, commits_total,
twitter_headlines, twitter_accounts, siblings_count, siblings_active, cron_jobs_active

## Agent Skills Discovery
- GET /.well-known/skills/index.json — skills discovery index (Cloudflare RFC). Lists available skills for progressive loading by compatible agents.
- GET /.well-known/skills/private-dashboard/SKILL.md — integration skill with YAML frontmatter (agentskills.io format). Contains quick start, auth, metric keys, and alert thresholds.
";

/// The OpenAPI description of the endpoints.
pub const OPENAPI_JSON: &'static str = "\
{
  \"openapi\": \"3.0.3\",
  \"info\": {
    \"title\": \"The Pack API\",
    \"description\": \"Operations dashboard for an agent collective: metric snapshots with trends, sparklines and change alerts.\",
    \"version\": \"0.1.0\"
  },
  \"servers\": [
    { \"url\": \"/api/v1\" }
  ],
  \"paths\": {
    \"/health\": {
      \"get\": {
        \"summary\": \"Service status and stat counts\",
        \"responses\": {
          \"200\": { \"description\": \"Status, version, counts, retention horizon and oldest stat\" }
        }
      }
    },
    \"/stats\": {
      \"get\": {
        \"summary\": \"All metrics with latest value, trends and sparkline\",
        \"responses\": {
          \"200\": { \"description\": \"One summary per key, in alphabetical order\" }
        }
      },
      \"post\": {
        \"summary\": \"Submit a batch of stat snapshots\",
        \"security\": [ { \"manageKey\": [] } ],
        \"requestBody\": {
          \"required\": true,
          \"content\": {
            \"application/json\": {
              \"schema\": {
                \"type\": \"array\",
                \"minItems\": 1,
                \"maxItems\": 100,
                \"items\": { \"$ref\": \"#/components/schemas/StatInput\" }
              }
            }
          }
        },
        \"responses\": {
          \"200\": { \"description\": \"Number of accepted entries\" },
          \"400\": { \"description\": \"Empty batch or more than 100 entries\" },
          \"401\": { \"description\": \"Missing bearer token\" },
          \"403\": { \"description\": \"Invalid manage key\" }
        }
      }
    },
    \"/stats/{key}\": {
      \"get\": {
        \"summary\": \"History of one metric\",
        \"parameters\": [
          { \"name\": \"key\", \"in\": \"path\", \"required\": true, \"schema\": { \"type\": \"string\" } },
          { \"name\": \"period\", \"in\": \"query\", \"schema\": { \"type\": \"string\", \"enum\": [\"24h\", \"7d\", \"30d\", \"90d\"], \"default\": \"24h\" } },
          { \"name\": \"start\", \"in\": \"query\", \"schema\": { \"type\": \"string\" } },
          { \"name\": \"end\", \"in\": \"query\", \"schema\": { \"type\": \"string\" } }
        ],
        \"responses\": {
          \"200\": { \"description\": \"Points in chronological order\" },
          \"400\": { \"description\": \"Invalid period, invalid date, or start after end\" }
        }
      },
      \"delete\": {
        \"summary\": \"Delete all points of one metric\",
        \"security\": [ { \"manageKey\": [] } ],
        \"parameters\": [
          { \"name\": \"key\", \"in\": \"path\", \"required\": true, \"schema\": { \"type\": \"string\" } }
        ],
        \"responses\": {
          \"200\": { \"description\": \"Key and number of deleted points\" },
          \"401\": { \"description\": \"Missing bearer token\" },
          \"403\": { \"description\": \"Invalid manage key\" },
          \"404\": { \"description\": \"No stats found for key\" }
        }
      }
    },
    \"/stats/prune\": {
      \"post\": {
        \"summary\": \"Delete stats older than 90 days\",
        \"security\": [ { \"manageKey\": [] } ],
        \"responses\": {
          \"200\": { \"description\": \"Deleted and remaining counts\" },
          \"401\": { \"description\": \"Missing bearer token\" },
          \"403\": { \"description\": \"Invalid manage key\" }
        }
      }
    },
    \"/alerts\": {
      \"get\": {
        \"summary\": \"Alert history, newest first\",
        \"parameters\": [
          { \"name\": \"key\", \"in\": \"query\", \"schema\": { \"type\": \"string\" } },
          { \"name\": \"limit\", \"in\": \"query\", \"schema\": { \"type\": \"integer\", \"minimum\": 1, \"maximum\": 500, \"default\": 50 } }
        ],
        \"responses\": {
          \"200\": { \"description\": \"Alerts and the total number of alerts\" }
        }
      }
    }
  },
  \"components\": {
    \"securitySchemes\": {
      \"manageKey\": { \"type\": \"http\", \"scheme\": \"bearer\" }
    },
    \"schemas\": {
      \"StatInput\": {
        \"type\": \"object\",
        \"required\": [\"key\", \"value\"],
        \"properties\": {
          \"key\": { \"type\": \"string\", \"minLength\": 1, \"maxLength\": 100 },
          \"value\": { \"type\": \"number\" },
          \"metadata\": { \"nullable\": true }
        }
      }
    }
  }
}
";

/// The index of the skills that the dashboard offers.
pub const SKILLS_INDEX_JSON: &'static str = "\
{
  \"skills\": [
    {
      \"name\": \"private-dashboard\",
      \"description\": \"Integrate with The Pack — an agent operations dashboard for tracking metrics, trends, and alerts across an AI agent collective on a local network.\",
      \"files\": [
        \"SKILL.md\"
      ]
    }
  ]
}";

/// The integration skill.
pub const SKILL_MD: &'static str = "\
---
name: private-dashboard
description: Integrate with The Pack — an agent operations dashboard for tracking metrics, trends, and alerts across an AI agent collective on a local network.
---

# Private Dashboard Integration

An operations dashboard for AI agent collectives. Track metrics with automatic trend analysis, sparklines, and anomaly alerts. Designed for LAN-first agent deployments.

## Quick Start

1. **Check health:**
   ```
   GET /api/v1/health
   ```

2. **Submit metrics:**
   ```
   POST /api/v1/stats
   Authorization: Bearer <manage_key>
   [{\"key\": \"agents_discovered\", \"value\": 42}]
   ```

3. **Read metrics:**
   ```
   GET /api/v1/stats
   ```
   Returns all metrics with trends (24h/7d/30d/90d), sparklines, and human-readable labels.

4. **View history:**
   ```
   GET /api/v1/stats/agents_discovered?period=7d
   ```

## Auth Model

- **Read endpoints** (GET stats, alerts, health): No auth required — designed for LAN usage
- **Write endpoints** (POST stats, prune, DELETE): `Authorization: Bearer <manage_key>`
- Manage key is auto-generated on first run and printed to stdout

## Core Patterns

### Batch Stat Submission
Submit up to 100 metrics per batch. Each stat needs a `key` (1-100 chars) and `value` (number):
```json
POST /api/v1/stats
[
  {\"key\": \"tests_total\", \"value\": 1264},
  {\"key\": \"repos_count\", \"value\": 9},
  {\"key\": \"siblings_active\", \"value\": 3, \"metadata\": {\"names\": [\"Forge\",\"Drift\",\"Lux\"]}}
]
```

### Automatic Alerts
Alerts fire automatically when a metric changes ≥10% over 24 hours:
- **alert** level: ≥10% change
- **hot** level: ≥25% change
- Debounced to max 1 alert per key per 6 hours

### Time-Series History
```
GET /api/v1/stats/<key>?period=24h    # Last 24 hours
GET /api/v1/stats/<key>?period=7d     # Last 7 days
GET /api/v1/stats/<key>?start=2026-02-01&end=2026-02-15  # Custom range
```

### Data Retention
Stats older than 90 days are auto-pruned on startup. Manual prune: `POST /api/v1/stats/prune`.

## Known Metric Keys

| Key | Description |
|-----|-------------|
| agents_discovered | Total agents tracked |
| moltbook_interesting | Interesting Moltbook posts found |
| moltbook_spam | Spam posts filtered |
| repos_count | Active repositories |
| tests_total | Total test count across repos |
| deploys_count | Deployments completed |
| commits_total | Total commits |
| siblings_count | Sibling agents known |
| siblings_active | Currently active siblings |
| cron_jobs_active | Running cron jobs |

## Gotchas

- Metric keys are case-sensitive and must be 1-100 characters
- Empty stat arrays return 400, max 100 per batch
- Trend percentages are `null` when the starting value was 0 (can't compute % from zero)
- Sparkline data covers last 24h with 12 data points (2-hour buckets)
- Alert `change_pct` is rounded to 1 decimal place

## Full API Reference

See `/llms.txt` for complete endpoint documentation and `/openapi.json` for the OpenAPI 3.0.3 specification.
";

} // verus!
