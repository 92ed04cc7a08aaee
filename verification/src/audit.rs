//! The audit trail: one summary record per job run and one record per
//! device, built here exactly from the job and its result; the binary
//! around the library serializes them and appends them to the two log
//! files.

use vstd::prelude::*;

use crate::model::{count_success, Job, JobResult, TaskStatus, TaskSummaryV};
use crate::text::concat2;

verus! {

/// The ids of the devices whose task failed, in result order.
pub open spec fn failed_ids(rs: Seq<TaskSummaryV>) -> Seq<Seq<char>>
    decreases rs.len(),
{
    if rs.len() == 0 {
        Seq::empty()
    } else {
        failed_ids(rs.drop_last()) + if rs.last().status == TaskStatus::Failed {
            seq![rs.last().device_id]
        } else {
            Seq::empty()
        }
    }
}

/// The one-per-run audit record.  It is built from the job's identity
/// and the result alone, so no job-kind payload (and in particular no
/// config-push snippet) can reach it.
#[derive(Debug)]
pub struct AuditRecord {
    pub job_id: String,
    pub job_name: String,
    pub success: usize,
    pub failure: usize,
    pub started_at: u64,
    pub finished_at: u64,
    pub failed_devices: Vec<String>,
}

/// The one-per-device audit record.
#[derive(Debug)]
pub struct DeviceAuditRecord {
    pub job_id: String,
    pub device_id: String,
    pub status: TaskStatus,
    pub logs: Vec<String>,
    pub diff_present: bool,
}

/// Builds the summary audit record of one run.
pub fn build_audit_record(job: &Job, result: &JobResult) -> (r: AuditRecord)
    ensures
        r.job_id@ == job.id@,
        r.job_name@ == job.name@,
        r.success == count_success(result.device_results@),
        r.failure == result.device_results@.len() - count_success(result.device_results@),
        r.started_at == result.started_at,
        r.finished_at == result.finished_at,
        r.failed_devices.deep_view() == failed_ids(result@.device_results),
{
    proof {
        crate::model::lemma_count_success_bound(result.device_results@);
    }
    let success = result.success_count();
    let failure = result.device_results.len() - success;
    let ghost rv = result@.device_results;
    let mut failed_devices: Vec<String> = Vec::new();
    let mut i: usize = 0;
    proof {
        assert(failed_devices.deep_view() =~= failed_ids(rv.subrange(0, 0)));
    }
    while i < result.device_results.len()
        invariant
            rv == result@.device_results,
            rv.len() == result.device_results@.len(),
            i <= result.device_results@.len(),
            failed_devices.deep_view() == failed_ids(rv.subrange(0, i as int)),
        decreases result.device_results@.len() - i,
    {
        let ghost old_failed = failed_devices.deep_view();
        if matches!(result.device_results[i].status, TaskStatus::Failed) {
            failed_devices.push(result.device_results[i].device_id.clone());
            proof {
                assert(failed_devices.deep_view() =~= old_failed.push(rv[i as int].device_id));
            }
        }
        proof {
            let pre = rv.subrange(0, i + 1 as int);
            assert(pre.drop_last() =~= rv.subrange(0, i as int));
            assert(pre.last() == rv[i as int]);
            if !(rv[i as int].status == TaskStatus::Failed) {
                assert(failed_devices.deep_view() =~= failed_ids(pre));
            }
        }
        i = i + 1;
    }
    proof {
        assert(rv.subrange(0, rv.len() as int) =~= rv);
    }
    AuditRecord {
        job_id: job.id.clone(),
        job_name: job.name.clone(),
        success,
        failure,
        started_at: result.started_at,
        finished_at: result.finished_at,
        failed_devices,
    }
}

/// Builds the per-device audit records of one run, in result order.
pub fn build_device_records(job: &Job, result: &JobResult) -> (r: Vec<DeviceAuditRecord>)
    ensures
        r@.len() == result.device_results@.len(),
        forall|k: int|
            0 <= k < r@.len() ==> {
                let d = #[trigger] r@[k];
                &&& d.job_id@ == job.id@
                &&& d.device_id@ == result@.device_results[k].device_id
                &&& d.status == result@.device_results[k].status
                &&& d.logs.deep_view() == result@.device_results[k].logs
                &&& d.diff_present == (result@.device_results[k].diff is Some)
            },
{
    let ghost rv = result@.device_results;
    let mut out: Vec<DeviceAuditRecord> = Vec::new();
    let mut i: usize = 0;
    while i < result.device_results.len()
        invariant
            rv == result@.device_results,
            rv.len() == result.device_results@.len(),
            i <= result.device_results@.len(),
            out@.len() == i,
            forall|k: int|
                0 <= k < i ==> {
                    let d = #[trigger] out@[k];
                    &&& d.job_id@ == job.id@
                    &&& d.device_id@ == rv[k].device_id
                    &&& d.status == rv[k].status
                    &&& d.logs.deep_view() == rv[k].logs
                    &&& d.diff_present == (rv[k].diff is Some)
                },
        decreases result.device_results@.len() - i,
    {
        let t = &result.device_results[i];
        let record = DeviceAuditRecord {
            job_id: job.id.clone(),
            device_id: t.device_id.clone(),
            status: t.status,
            logs: crate::model::clone_string_vec(&t.logs),
            diff_present: t.diff.is_some(),
        };
        out.push(record);
        i = i + 1;
    }
    out
}

/// The path of the per-device audit log beside a summary log: the base
/// audit-log path with `.devices.jsonl` appended.
pub open spec fn device_log_path_spec(base: Seq<char>) -> Seq<char> {
    base + ".devices.jsonl"@
}

/// Names the per-device audit log beside a summary log.
pub fn device_log_path(base: &str) -> (r: String)
    ensures
        r@ == device_log_path_spec(base@),
{
    concat2(base, ".devices.jsonl")
}

} // verus!
