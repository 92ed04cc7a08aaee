//! The metrics snapshot the observability command emits.

use vstd::prelude::*;

verus! {

/// The output format of a metrics snapshot.
#[derive(Copy, Clone, Debug, Eq, PartialEq, Structural)]
pub enum MetricsFormat {
    Text,
    Json,
}

/// The observability command's arguments.
#[derive(Debug)]
pub struct ObservabilityCmd {
    pub format: MetricsFormat,
}

/// The counter values of one scrape.
#[derive(Debug)]
pub struct MetricValues {
    pub jobs_total: i64,
    pub jobs_failed_total: i64,
    pub queue_depth: i64,
}

/// A point-in-time view of the job counters.
#[derive(Debug)]
pub struct ObservabilitySnapshot {
    pub scraped_at: u64,
    pub metrics: MetricValues,
}

impl ObservabilitySnapshot {
    /// A snapshot of the given counter readings at the given instant.
    pub fn new(scraped_at: u64, jobs_total: i64, jobs_failed_total: i64, queue_depth: i64) -> (r:
        ObservabilitySnapshot)
        ensures
            r.scraped_at == scraped_at,
            r.metrics.jobs_total == jobs_total,
            r.metrics.jobs_failed_total == jobs_failed_total,
            r.metrics.queue_depth == queue_depth,
    {
        ObservabilitySnapshot {
            scraped_at,
            metrics: MetricValues { jobs_total, jobs_failed_total, queue_depth },
        }
    }
}

} // verus!
