//! A single-tenant store of scalar metric snapshots with the analytics derived
//! from it on read: trends over fixed look-back windows, a downsampled
//! sparkline, and debounced change alerts.
//!
//! The store ([`db`]) is an append-only log of points in memory; what its
//! queries return is stated in [`series`] and [`alerts`]. On top of it stand
//! the trend engine ([`trend`]), the alert detector ([`detector`]) and the
//! ingestion of batches ([`ingest`]). [`routes`] holds the operations as a
//! serving layer calls them, [`models`] what they take and return.
//!
//! Metric values are binary64 numbers carried as bit patterns ([`value`]).
//! Their arithmetic is not done here: the caller passes it in as a function.
//! Instants are microseconds since the epoch ([`time`]).

pub mod value;
pub mod text;
pub mod time;
pub mod order;
pub mod series;
pub mod alerts;
pub mod db;
pub mod models;
pub mod trend;
pub mod detector;
pub mod ingest;
pub mod routes;
pub mod docs;
