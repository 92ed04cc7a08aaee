//! The job engine: fans a job out to its resolved targets, bounds
//! concurrent dispatch, applies the per-task timeout, and aggregates the
//! per-device outcomes into a job result.
//!
//! Driver protocol exchanges are I/O and happen behind the `DriverPort`
//! boundary: the engine decides what to dispatch and how to record
//! whatever comes back, and those decisions are what is verified here.
//! Time enters through a monotone `Clock` that the caller seeds and the
//! engine advances by the elapsed time each dispatch reports.

use vstd::prelude::*;
use vstd::string::StringExecFns;

use crate::compliance::{
    all_rules_pass, configs_lookup, evaluate_device_compliance, rule_log_lines, DeviceConfigs,
};
use crate::model::{param_lookup, ParamMap, ParamValue, ParamValueV};
use crate::text::chars_vec;
use crate::drivers::{
    driver_outcome_view, find_spec, handle_capabilities, DriverExecutionResultV, DriverHandle,
    DriverRegistry, PortReport,
};
use crate::inventory::{resolve_spec, DeviceInventory};
use crate::model::{
    ComplianceRuleV, Device, DeviceType, Job, JobKind, JobKindV, JobResult, TaskStatus,
    TaskSummary, TaskSummaryV,
};
use crate::text::concat2;

verus! {

/// The engine-level hard timeout for one device task, in milliseconds.
pub const TASK_TIMEOUT_MS: u64 = 300000;

/// The parallelism cap used when a job does not set one.
pub const DEFAULT_PARALLEL: usize = 32;

/// A monotone millisecond clock.  The caller seeds it with wall time;
/// the engine only ever advances it, which is what makes the recorded
/// timestamps ordered.
pub struct Clock {
    pub now_ms: u64,
}

/// Saturating addition on 64-bit milliseconds.
pub open spec fn add_sat(a: u64, d: u64) -> u64 {
    if a + d <= u64::MAX {
        (a + d) as u64
    } else {
        u64::MAX
    }
}

impl Clock {
    /// A clock starting at the given instant.
    pub fn new(start_ms: u64) -> (r: Clock)
        ensures
            r.now_ms == start_ms,
    {
        Clock { now_ms: start_ms }
    }

    /// The current instant.
    pub fn now(&self) -> (t: u64)
        ensures
            t == self.now_ms,
    {
        self.now_ms
    }

    /// Moves the clock forward; it never goes back.
    pub fn advance(&mut self, delta_ms: u64)
        ensures
            final(self).now_ms == add_sat(old(self).now_ms, delta_ms),
            old(self).now_ms <= final(self).now_ms,
    {
        if delta_ms <= u64::MAX - self.now_ms {
            self.now_ms = self.now_ms + delta_ms;
        } else {
            self.now_ms = u64::MAX;
        }
    }
}

/// The parallelism bound of one job run: the number of targets, capped
/// by the job's `max_parallel` (at least one) or the engine default.
pub open spec fn effective_cap(targets: int, max_parallel: Option<usize>, default: usize) -> int {
    let m: int = match max_parallel {
        Some(m) => if m >= 1 {
            m as int
        } else {
            1
        },
        None => if default >= 1 {
            default as int
        } else {
            1
        },
    };
    if targets < m {
        targets
    } else {
        m
    }
}

/// The semaphore that bounds how many device tasks are dispatched at
/// once.  Its capacity never changes, and the count of outstanding
/// permits never exceeds it: that is the engine's concurrency bound.
pub struct DispatchGate {
    cap: usize,
    in_flight: usize,
}

impl DispatchGate {
    /// The capacity of this dispatch slot pool.
    pub closed spec fn spec_cap(&self) -> int {
        self.cap as int
    }

    /// How many permits are outstanding.
    pub closed spec fn spec_in_flight(&self) -> int {
        self.in_flight as int
    }

    /// The invariant: outstanding permits never exceed capacity.
    pub closed spec fn wf(&self) -> bool {
        self.in_flight <= self.cap
    }

    /// A gate for a run over `targets` devices.
    pub fn new(targets: usize, max_parallel: Option<usize>, default_parallel: usize) -> (g:
        DispatchGate)
        ensures
            g.wf(),
            g.spec_in_flight() == 0,
            g.spec_cap() == effective_cap(targets as int, max_parallel, default_parallel),
    {
        let m: usize = match max_parallel {
            Some(m) => if m >= 1 {
                m
            } else {
                1
            },
            None => if default_parallel >= 1 {
                default_parallel
            } else {
                1
            },
        };
        let cap = if targets < m {
            targets
        } else {
            m
        };
        DispatchGate { cap, in_flight: 0 }
    }

    /// Takes a permit when one is free.
    pub fn try_acquire(&mut self) -> (ok: bool)
        requires
            old(self).wf(),
        ensures
            final(self).wf(),
            final(self).spec_cap() == old(self).spec_cap(),
            ok == (old(self).spec_in_flight() < old(self).spec_cap()),
            ok ==> final(self).spec_in_flight() == old(self).spec_in_flight() + 1,
            !ok ==> final(self).spec_in_flight() == old(self).spec_in_flight(),
    {
        if self.in_flight < self.cap {
            self.in_flight = self.in_flight + 1;
            true
        } else {
            false
        }
    }

    /// Returns a permit.
    pub fn release(&mut self)
        requires
            old(self).wf(),
        ensures
            final(self).wf(),
            final(self).spec_cap() == old(self).spec_cap(),
            final(self).spec_in_flight() == if old(self).spec_in_flight() > 0 {
                old(self).spec_in_flight() - 1
            } else {
                0int
            },
    {
        if self.in_flight > 0 {
            self.in_flight = self.in_flight - 1;
        }
    }
}

/// At no point do the outstanding dispatches of a run exceed
/// `min(targets, max_parallel or the default of 32)`: the outstanding permit
/// count never exceeds the capacity, and the capacity is that minimum.
pub proof fn lemma_concurrency_bound(
    g: DispatchGate,
    targets: usize,
    max_parallel: Option<usize>,
    default_parallel: usize,
)
    requires
        g.wf(),
        g.spec_cap() == effective_cap(targets as int, max_parallel, default_parallel),
    ensures
        g.spec_in_flight() <= effective_cap(targets as int, max_parallel, default_parallel),
{
}

/// The observer interface invoked on job-lifecycle transitions.
/// Implementations persist or export; their errors are never fatal to a
/// run.
pub trait JobStore {
    /// Called once when a job is accepted.
    fn create_job(&mut self, job: &Job) -> Result<(), String>;

    /// Called after each device task completes.
    fn update_task_summary(&mut self, job_id: &str, summary: &TaskSummary) -> Result<(), String>;

    /// Called once with the aggregate result.
    fn complete_job(&mut self, job_id: &str, result: &JobResult) -> Result<(), String>;
}

/// The do-nothing observer.
pub struct NoOpJobStore;

impl JobStore for NoOpJobStore {
    fn create_job(&mut self, job: &Job) -> Result<(), String> {
        Ok(())
    }

    fn update_task_summary(&mut self, job_id: &str, summary: &TaskSummary) -> Result<(), String> {
        Ok(())
    }

    fn complete_job(&mut self, job_id: &str, result: &JobResult) -> Result<(), String> {
        Ok(())
    }
}

/// Errors the engine can name at its boundary.
#[derive(Clone, Copy, PartialEq, Eq, Structural, Debug)]
pub enum JobEngineError {
    /// No driver is registered for a device type.
    MissingDriver,
}

/// The boundary at which a driver's protocol exchange happens.  The
/// worker binary implements this with real transports; `MockPort` serves
/// the deterministic mock driver.  Whatever an implementation reports,
/// the engine records it under its own rules.
pub trait DriverPort {
    /// Carries one action out against one device and reports the elapsed
    /// time and the outcome.
    fn perform(&mut self, driver: &DriverHandle, device: &Device, kind: &JobKind) -> PortReport;
}

/// A port that serves the mock driver and knows no other transport.
pub struct MockPort {
    /// How many times a driver was invoked through this port.
    pub calls: u64,
}

impl MockPort {
    /// A fresh port with no calls recorded.
    pub fn new() -> (r: MockPort)
        ensures
            r.calls == 0,
    {
        MockPort { calls: 0 }
    }
}

impl DriverPort for MockPort {
    fn perform(&mut self, driver: &DriverHandle, device: &Device, kind: &JobKind) -> PortReport {
        if self.calls < u64::MAX {
            self.calls = self.calls + 1;
        }
        match driver {
            DriverHandle::Mock(m) => m.execute(device, crate::drivers::DriverAction::Job(kind)),
            _ => PortReport {
                elapsed_ms: 0,
                outcome: Err(String::from_str("no transport linked for this driver")),
            },
        }
    }
}

/// What the engine decides for one device before any I/O happens.
pub ghost enum DecisionV {
    /// No registered driver serves the device type: the task is skipped.
    NoDriver,
    /// The job is a dry run and the driver cannot do one: short-circuit
    /// with a success, never calling the driver.
    DrySkip,
    /// Dispatch to this driver.
    Call(DriverHandle),
}

/// The engine's dispatch decision for one device type.
pub open spec fn dispatch_decision(
    drivers: Seq<DriverHandle>,
    dry_run: bool,
    t: DeviceType,
) -> DecisionV {
    match find_spec(drivers, t) {
        None => DecisionV::NoDriver,
        Some(h) => if dry_run && !handle_capabilities(h).supports_dry_run {
            DecisionV::DrySkip
        } else {
            DecisionV::Call(h)
        },
    }
}

/// Dry-run discipline: when a job is a dry run, the engine never decides
/// to call a driver that does not support dry runs.
pub proof fn lemma_dry_run_discipline(drivers: Seq<DriverHandle>, t: DeviceType, h: DriverHandle)
    requires
        dispatch_decision(drivers, true, t) == DecisionV::Call(h),
    ensures
        handle_capabilities(h).supports_dry_run,
{
}

/// The status of a compliance task: success when the corpus has the
/// device's configuration and every rule passes; failed otherwise.
pub open spec fn compliance_status(
    corpus: Seq<(Seq<char>, Seq<char>)>,
    rules: Seq<ComplianceRuleV>,
    id: Seq<char>,
) -> TaskStatus {
    match configs_lookup(corpus, id) {
        Some(c) => if all_rules_pass(rules, c) {
            TaskStatus::Success
        } else {
            TaskStatus::Failed
        },
        None => TaskStatus::Failed,
    }
}

/// The log lines of a compliance task: one line per rule, or the
/// missing-configuration notice.
pub open spec fn compliance_logs(
    corpus: Seq<(Seq<char>, Seq<char>)>,
    rules: Seq<ComplianceRuleV>,
    id: Seq<char>,
) -> Seq<Seq<char>> {
    match configs_lookup(corpus, id) {
        Some(c) => rule_log_lines(rules, c),
        None => seq!["no config provided for compliance evaluation"@],
    }
}

/// How a driver report becomes a task summary: a report whose elapsed
/// time reaches the engine timeout is a failure with the canonical
/// timeout log; otherwise a success carries the driver's logs and diff
/// and an error carries its message.
pub open spec fn report_summary_spec(
    id: Seq<char>,
    started: u64,
    finished: u64,
    elapsed: u64,
    outcome: Result<DriverExecutionResultV, Seq<char>>,
) -> TaskSummaryV {
    if elapsed >= TASK_TIMEOUT_MS {
        TaskSummaryV {
            device_id: id,
            status: TaskStatus::Failed,
            started_at: Some(started),
            finished_at: Some(finished),
            logs: seq!["Job execution timed out"@],
            diff: None,
        }
    } else {
        match outcome {
            Ok(res) => TaskSummaryV {
                device_id: id,
                status: TaskStatus::Success,
                started_at: Some(started),
                finished_at: Some(finished),
                logs: res.logs,
                diff: res.diff,
            },
            Err(m) => TaskSummaryV {
                device_id: id,
                status: TaskStatus::Failed,
                started_at: Some(started),
                finished_at: Some(finished),
                logs: seq!["error: "@ + m],
                diff: None,
            },
        }
    }
}

/// Records one driver report as a task summary, exactly as
/// `report_summary_spec` says.
pub fn summary_from_report(device_id: &str, started: u64, finished: u64, report: PortReport) -> (t:
    TaskSummary)
    ensures
        t@ == report_summary_spec(
            device_id@,
            started,
            finished,
            report.elapsed_ms,
            driver_outcome_view(report.outcome),
        ),
{
    let id = String::from_str(device_id);
    if report.elapsed_ms >= TASK_TIMEOUT_MS {
        let mut logs: Vec<String> = Vec::new();
        logs.push(String::from_str("Job execution timed out"));
        let t = TaskSummary {
            device_id: id,
            status: TaskStatus::Failed,
            started_at: Some(started),
            finished_at: Some(finished),
            logs,
            diff: None,
        };
        proof {
            assert(t@.logs =~= seq!["Job execution timed out"@]);
        }
        t
    } else {
        match report.outcome {
            Ok(res) => TaskSummary {
                device_id: id,
                status: TaskStatus::Success,
                started_at: Some(started),
                finished_at: Some(finished),
                logs: res.logs,
                diff: res.diff,
            },
            Err(m) => {
                let mut logs: Vec<String> = Vec::new();
                logs.push(concat2("error: ", m.as_str()));
                let t = TaskSummary {
                    device_id: id,
                    status: TaskStatus::Failed,
                    started_at: Some(started),
                    finished_at: Some(finished),
                    logs,
                    diff: None,
                };
                proof {
                    assert(t@.logs =~= seq!["error: "@ + m@]);
                }
                t
            },
        }
    }
}

/// A parent-directory component `..` occurs at this position: delimited
/// by the start or a slash on the left, and the end or a slash on the
/// right.
pub open spec fn dotdot_at(s: Seq<char>, i: int) -> bool {
    &&& 0 <= i && i + 2 <= s.len()
    &&& s[i] == '.' && s[i + 1] == '.'
    &&& (i == 0 || s[i - 1] == '/')
    &&& (i + 2 == s.len() || s[i + 2] == '/')
}

/// The path contains a parent-directory component.
pub open spec fn has_parent_component(s: Seq<char>) -> bool {
    exists|i: int| dotdot_at(s, i)
}

/// Whether a slash-separated path steps into a parent directory.
pub fn path_has_parent_component(path: &str) -> (r: bool)
    ensures
        r == has_parent_component(path@),
{
    let v = chars_vec(path);
    let n = v.len();
    if n < 2 {
        proof {
            assert(!has_parent_component(path@)) by {
                if has_parent_component(path@) {
                    let i = choose|i: int| dotdot_at(path@, i);
                }
            }
        }
        return false;
    }
    let mut i: usize = 0;
    while i <= n - 2
        invariant
            v@ == path@,
            n == v@.len(),
            2 <= n,
            i <= n - 1,
            forall|k: int| 0 <= k < i ==> !dotdot_at(path@, k),
        decreases n - i,
    {
        let boundary_left = i == 0 || v[i - 1] == '/';
        let boundary_right = i + 2 == n || v[i + 2] == '/';
        if v[i] == '.' && v[i + 1] == '.' && boundary_left && boundary_right {
            proof {
                assert(dotdot_at(path@, i as int));
            }
            return true;
        }
        i = i + 1;
    }
    proof {
        assert(!has_parent_component(path@)) by {
            if has_parent_component(path@) {
                let k = choose|k: int| dotdot_at(path@, k);
                assert(!dotdot_at(path@, k));
            }
        }
    }
    false
}

/// Where a compliance job's configuration corpus comes from.
#[derive(Debug)]
pub enum InputsSource {
    /// Read the YAML map of device id to configuration from this path.
    FromFile(String),
    /// The corpus was given inline in the job parameters.
    Inline(DeviceConfigs),
}

/// Decides where a compliance job's corpus comes from: a non-empty
/// `inputs_path` parameter names a file, whose path may not step into a
/// parent directory; otherwise a non-empty inline `inputs` map is taken;
/// otherwise the job is rejected.
pub fn compliance_inputs_plan(parameters: &ParamMap) -> (r: Result<InputsSource, String>)
    ensures
        ({
            let ps = parameters.entries.deep_view();
            match param_lookup(ps, "inputs_path"@) {
                Some(ParamValueV::Text(p)) if p.len() > 0 => if has_parent_component(p) {
                    r matches Err(m) && m@ == "path traversal not allowed in inputs_path"@
                } else {
                    r matches Ok(InputsSource::FromFile(f)) && f@ == p
                },
                _ => match param_lookup(ps, "inputs"@) {
                    Some(ParamValueV::TextMap(m)) if m.len() > 0 => r matches Ok(
                        InputsSource::Inline(c),
                    ) && c.entries.deep_view() == m,
                    _ => r matches Err(m) && m@
                        == "compliance job requires 'inputs_path' (YAML map of device_id->config) or inline 'inputs'"@,
                },
            }
        }),
{
    let path_param = parameters.get("inputs_path");
    let from_path: Option<&String> = match path_param {
        Some(ParamValue::Text(p)) if !p.as_str().is_empty() => Some(p),
        _ => None,
    };
    if let Some(p) = from_path {
        if path_has_parent_component(p.as_str()) {
            return Err(String::from_str("path traversal not allowed in inputs_path"));
        }
        return Ok(InputsSource::FromFile(p.clone()));
    }
    match parameters.get("inputs") {
        Some(ParamValue::TextMap(m)) if m.len() > 0 => {
            let entries = crate::model::clone_string_pairs(m);
            Ok(InputsSource::Inline(DeviceConfigs { entries }))
        },
        _ => Err(
            String::from_str(
                "compliance job requires 'inputs_path' (YAML map of device_id->config) or inline 'inputs'",
            ),
        ),
    }
}

/// The job engine: resolves targets, decides dispatch per device, bounds
/// concurrency, applies the task timeout, and aggregates results.
pub struct JobEngine<I: DeviceInventory> {
    pub inventory: I,
    pub drivers: DriverRegistry,
    pub default_parallel: usize,
}

impl<I: DeviceInventory> JobEngine<I> {
    /// An engine over an inventory and a driver registry, with the
    /// default parallelism cap.
    pub fn new(inventory: I, drivers: DriverRegistry) -> (r: Self)
        ensures
            r.inventory == inventory,
            r.drivers == drivers,
            r.default_parallel == DEFAULT_PARALLEL,
    {
        JobEngine { inventory, drivers, default_parallel: DEFAULT_PARALLEL }
    }

    /// The same engine with another default parallelism cap, floored at
    /// one.
    pub fn with_parallel(self, parallel: usize) -> (r: Self)
        ensures
            r.inventory == self.inventory,
            r.drivers == self.drivers,
            r.default_parallel == if parallel >= 1 {
                parallel as int
            } else {
                1int
            },
    {
        let default_parallel = if parallel >= 1 {
            parallel
        } else {
            1
        };
        JobEngine { inventory: self.inventory, drivers: self.drivers, default_parallel }
    }

    /// Executes one job and aggregates every device outcome.
    ///
    /// The result always carries exactly one task summary per resolved
    /// target, in target order, with timestamps bracketed by the job's
    /// own; a compliance job never reaches the driver port; and every
    /// non-compliance task follows the engine's dispatch decision.
    pub fn execute<P: DriverPort, S: JobStore>(
        &self,
        job: &Job,
        corpus: &DeviceConfigs,
        clock: &mut Clock,
        port: &mut P,
        store: &mut S,
    ) -> (r: JobResult)
        ensures
            ({
                let targets = resolve_spec(self.inventory.snapshot(), job.targets@);
                let rv = r@;
                &&& rv.job_id == job.id@
                &&& rv.started_at == old(clock).now_ms
                &&& rv.finished_at == final(clock).now_ms
                &&& old(clock).now_ms <= final(clock).now_ms
                &&& rv.device_results.len() == targets.len()
                &&& forall|k: int|
                    0 <= k < targets.len() ==> (#[trigger] rv.device_results[k]).device_id
                        == targets[k].id
                &&& forall|k: int|
                    0 <= k < targets.len() ==> {
                        let t = #[trigger] rv.device_results[k];
                        &&& t.started_at matches Some(s) && rv.started_at <= s
                        &&& t.started_at matches Some(s) && t.finished_at matches Some(f) && s <= f
                            <= rv.finished_at
                    }
                &&& (job@.kind matches JobKindV::ComplianceCheck { rules } ==> forall|k: int|
                    0 <= k < targets.len() ==> {
                        let t = #[trigger] rv.device_results[k];
                        &&& t.status == compliance_status(
                            corpus.entries.deep_view(),
                            rules,
                            targets[k].id,
                        )
                        &&& t.logs == compliance_logs(corpus.entries.deep_view(), rules, targets[k].id)
                        &&& t.diff is None
                    })
                &&& (job@.kind is ComplianceCheck ==> *final(port) == *old(port))
                &&& ((!(job@.kind is ComplianceCheck) && forall|k: int|
                    0 <= k < targets.len() ==> !(dispatch_decision(
                        self.drivers.drivers@,
                        job.dry_run,
                        (#[trigger] targets[k]).device_type,
                    ) is Call)) ==> *final(port) == *old(port))
                &&& (!(job@.kind is ComplianceCheck) ==> forall|k: int|
                    0 <= k < targets.len() ==> match dispatch_decision(
                        self.drivers.drivers@,
                        job.dry_run,
                        targets[k].device_type,
                    ) {
                        DecisionV::NoDriver => {
                            let t = #[trigger] rv.device_results[k];
                            &&& t.status == TaskStatus::Skipped
                            &&& t.logs == seq!["No driver available"@]
                            &&& t.diff is None
                        },
                        DecisionV::DrySkip => {
                            let t = rv.device_results[k];
                            &&& t.status == TaskStatus::Success
                            &&& t.logs == seq!["Dry run skipped (not supported)"@]
                            &&& t.diff is None
                        },
                        DecisionV::Call(h) => {
                            let t = rv.device_results[k];
                            t.status == TaskStatus::Success || t.status == TaskStatus::Failed
                        },
                    })
            }),
    {
        let _ = store.create_job(job);
        let targets = self.inventory.resolve_targets(&job.targets);
        let started_at = clock.now();
        let ghost tvs = targets.deep_view();
        match &job.kind {
            JobKind::ComplianceCheck { rules } => {
                let ghost rulesv = rules.deep_view();
                let ghost corpusv = corpus.entries.deep_view();
                let mut results: Vec<TaskSummary> = Vec::new();
                let mut i: usize = 0;
                while i < targets.len()
                    invariant
                        tvs == targets.deep_view(),
                        tvs.len() == targets@.len(),
                        rulesv == rules.deep_view(),
                        corpusv == corpus.entries.deep_view(),
                        i <= targets@.len(),
                        results.deep_view().len() == i,
                        clock.now_ms == started_at,
                        *port == *old(port),
                        forall|k: int|
                            0 <= k < i ==> {
                                let t = #[trigger] results.deep_view()[k];
                                &&& t.device_id == tvs[k].id
                                &&& t.started_at == Some(started_at)
                                &&& t.finished_at == Some(started_at)
                                &&& t.status == compliance_status(corpusv, rulesv, tvs[k].id)
                                &&& t.logs == compliance_logs(corpusv, rulesv, tvs[k].id)
                                &&& t.diff is None
                            },
                    decreases targets@.len() - i,
                {
                    let started = clock.now();
                    let summary = match corpus.get(targets[i].id.as_str()) {
                        Some(config) => {
                            let (passed, logs) = evaluate_device_compliance(
                                targets[i].id.as_str(),
                                rules,
                                config.as_str(),
                            );
                            TaskSummary {
                                device_id: targets[i].id.clone(),
                                status: if passed {
                                    TaskStatus::Success
                                } else {
                                    TaskStatus::Failed
                                },
                                started_at: Some(started),
                                finished_at: Some(started),
                                logs,
                                diff: None,
                            }
                        },
                        None => {
                            let mut logs: Vec<String> = Vec::new();
                            logs.push(
                                String::from_str("no config provided for compliance evaluation"),
                            );
                            let t = TaskSummary {
                                device_id: targets[i].id.clone(),
                                status: TaskStatus::Failed,
                                started_at: Some(started),
                                finished_at: Some(started),
                                logs,
                                diff: None,
                            };
                            proof {
                                assert(t@.logs =~= seq![
                                    "no config provided for compliance evaluation"@,
                                ]);
                            }
                            t
                        },
                    };
                    let _ = store.update_task_summary(job.id.as_str(), &summary);
                    let ghost old_results = results.deep_view();
                    results.push(summary);
                    proof {
                        assert(results.deep_view() =~= old_results.push(summary@));
                    }
                    i = i + 1;
                }
                let finished_at = clock.now();
                let result = JobResult {
                    job_id: job.id.clone(),
                    started_at,
                    finished_at,
                    device_results: results,
                };
                let _ = store.complete_job(job.id.as_str(), &result);
                result
            },
            _ => {
                let mut gate = DispatchGate::new(
                    targets.len(),
                    job.max_parallel,
                    self.default_parallel,
                );
                let mut results: Vec<TaskSummary> = Vec::new();
                let mut i: usize = 0;
                while i < targets.len()
                    invariant
                        tvs == targets.deep_view(),
                        tvs.len() == targets@.len(),
                        i <= targets@.len(),
                        results.deep_view().len() == i,
                        started_at <= clock.now_ms,
                        gate.wf(),
                        gate.spec_in_flight() == 0,
                        gate.spec_cap() == effective_cap(
                            targets@.len() as int,
                            job.max_parallel,
                            self.default_parallel,
                        ),
                        !(job@.kind is ComplianceCheck),
                        (forall|k: int|
                            0 <= k < i ==> !(dispatch_decision(
                                self.drivers.drivers@,
                                job.dry_run,
                                (#[trigger] tvs[k]).device_type,
                            ) is Call)) ==> *port == *old(port),
                        forall|k: int|
                            0 <= k < i ==> {
                                let t = #[trigger] results.deep_view()[k];
                                &&& t.device_id == tvs[k].id
                                &&& t.started_at matches Some(s) && started_at <= s
                                &&& t.started_at matches Some(s) && t.finished_at matches Some(f)
                                    && s <= f <= clock.now_ms
                                &&& match dispatch_decision(
                                    self.drivers.drivers@,
                                    job.dry_run,
                                    tvs[k].device_type,
                                ) {
                                    DecisionV::NoDriver => {
                                        &&& t.status == TaskStatus::Skipped
                                        &&& t.logs == seq!["No driver available"@]
                                        &&& t.diff is None
                                    },
                                    DecisionV::DrySkip => {
                                        &&& t.status == TaskStatus::Success
                                        &&& t.logs == seq!["Dry run skipped (not supported)"@]
                                        &&& t.diff is None
                                    },
                                    DecisionV::Call(h) => t.status == TaskStatus::Success
                                        || t.status == TaskStatus::Failed,
                                }
                            },
                    decreases targets@.len() - i,
                {
                    let found = self.drivers.find(&targets[i].device_type);
                    let summary = match found {
                        None => {
                            let t0 = clock.now();
                            let mut logs: Vec<String> = Vec::new();
                            logs.push(String::from_str("No driver available"));
                            let t = TaskSummary {
                                device_id: targets[i].id.clone(),
                                status: TaskStatus::Skipped,
                                started_at: Some(t0),
                                finished_at: Some(t0),
                                logs,
                                diff: None,
                            };
                            proof {
                                assert(t@.logs =~= seq!["No driver available"@]);
                            }
                            t
                        },
                        Some(h) => {
                            let caps = h.capabilities();
                            if job.dry_run && !caps.supports_dry_run {
                                let t0 = clock.now();
                                let mut logs: Vec<String> = Vec::new();
                                logs.push(String::from_str("Dry run skipped (not supported)"));
                                let t = TaskSummary {
                                    device_id: targets[i].id.clone(),
                                    status: TaskStatus::Success,
                                    started_at: Some(t0),
                                    finished_at: Some(t0),
                                    logs,
                                    diff: None,
                                };
                                proof {
                                    assert(t@.logs =~= seq!["Dry run skipped (not supported)"@]);
                                }
                                t
                            } else {
                                proof {
                                    assert(dispatch_decision(
                                        self.drivers.drivers@,
                                        job.dry_run,
                                        tvs[i as int].device_type,
                                    ) is Call);
                                }
                                let ok = gate.try_acquire();
                                assert(ok);
                                let started = clock.now();
                                let report = port.perform(&h, &targets[i], &job.kind);
                                let step = if report.elapsed_ms >= TASK_TIMEOUT_MS {
                                    TASK_TIMEOUT_MS
                                } else {
                                    report.elapsed_ms
                                };
                                clock.advance(step);
                                let finished = clock.now();
                                gate.release();
                                summary_from_report(targets[i].id.as_str(), started, finished, report)
                            }
                        },
                    };
                    let _ = store.update_task_summary(job.id.as_str(), &summary);
                    let ghost old_results = results.deep_view();
                    results.push(summary);
                    proof {
                        assert(results.deep_view() =~= old_results.push(summary@));
                    }
                    i = i + 1;
                }
                let finished_at = clock.now();
                let result = JobResult {
                    job_id: job.id.clone(),
                    started_at,
                    finished_at,
                    device_results: results,
                };
                let _ = store.complete_job(job.id.as_str(), &result);
                result
            },
        }
    }
}

} // verus!
