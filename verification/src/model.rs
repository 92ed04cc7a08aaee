//! Domain model: devices, credentials, jobs and their results.
//!
//! Credentials and configuration snippets are secret-bearing values; the
//! only string renderings this module offers for them are redacting ones,
//! and the redaction lemmas at the bottom prove that those renderings do
//! not depend on the secret fields.

use vstd::prelude::*;
use vstd::string::StringExecFns;

use crate::text::{
    chars_eq, chars_vec, concat3, dec_seq, lower_chars, lower_seq, trim_chars, trim_seq,
    usize_to_dec,
};

verus! {

/// Stable identifier of a device.
pub type DeviceId = String;

/// A point in time, in milliseconds since the Unix epoch.
pub type Timestamp = u64;

/// The closed set of device families the built-in drivers speak to.
#[derive(Clone, Copy, PartialEq, Eq, Structural, Hash, Debug)]
pub enum DeviceType {
    CiscoIos,
    JuniperJunos,
    GenericSsh,
    AristaEos,
    CiscoNxosApi,
    MerakiCloud,
}

/// What `DeviceType::parse` accepts: the snake_case and PascalCase forms
/// of each family name, case-insensitively, with surrounding whitespace
/// ignored.
pub open spec fn parse_device_type_spec(s: Seq<char>) -> Option<DeviceType> {
    let t = lower_seq(trim_seq(s));
    if t == "ciscoios"@ || t == "cisco_ios"@ {
        Some(DeviceType::CiscoIos)
    } else if t == "juniperjunos"@ || t == "juniper_junos"@ {
        Some(DeviceType::JuniperJunos)
    } else if t == "genericssh"@ || t == "generic_ssh"@ {
        Some(DeviceType::GenericSsh)
    } else if t == "aristaeos"@ || t == "arista_eos"@ {
        Some(DeviceType::AristaEos)
    } else if t == "cisconxosapi"@ || t == "cisco_nxos_api"@ || t == "nxos"@ {
        Some(DeviceType::CiscoNxosApi)
    } else if t == "merakicloud"@ || t == "meraki_cloud"@ {
        Some(DeviceType::MerakiCloud)
    } else {
        None
    }
}

impl DeviceType {
    /// Parses a device-type tag from its textual form.
    pub fn parse(s: &str) -> (r: Option<DeviceType>)
        ensures
            r == parse_device_type_spec(s@),
    {
        let raw = chars_vec(s);
        let trimmed = trim_chars(&raw);
        let t = lower_chars(&trimmed);
        if chars_eq(&t, &chars_vec("ciscoios")) || chars_eq(&t, &chars_vec("cisco_ios")) {
            Some(DeviceType::CiscoIos)
        } else if chars_eq(&t, &chars_vec("juniperjunos")) || chars_eq(
            &t,
            &chars_vec("juniper_junos"),
        ) {
            Some(DeviceType::JuniperJunos)
        } else if chars_eq(&t, &chars_vec("genericssh")) || chars_eq(
            &t,
            &chars_vec("generic_ssh"),
        ) {
            Some(DeviceType::GenericSsh)
        } else if chars_eq(&t, &chars_vec("aristaeos")) || chars_eq(&t, &chars_vec("arista_eos")) {
            Some(DeviceType::AristaEos)
        } else if chars_eq(&t, &chars_vec("cisconxosapi")) || chars_eq(
            &t,
            &chars_vec("cisco_nxos_api"),
        ) || chars_eq(&t, &chars_vec("nxos")) {
            Some(DeviceType::CiscoNxosApi)
        } else if chars_eq(&t, &chars_vec("merakicloud")) || chars_eq(
            &t,
            &chars_vec("meraki_cloud"),
        ) {
            Some(DeviceType::MerakiCloud)
        } else {
            None
        }
    }
}

/// A reference to a stored credential, resolved lazily at execution time.
#[derive(Debug)]
pub struct CredentialRef {
    pub name: String,
}

/// A resolved secret.  The struct carries the secret material; the only
/// rendering offered is `redacted`.
pub enum Credential {
    UserPassword { username: String, password: String },
    SshKey { username: String, key_path: String, passphrase: Option<String> },
    Token { token: String },
}

/// The redacting rendering of a credential.  Secret fields (password,
/// passphrase, token) do not occur in the definition.
pub open spec fn credential_redacted_spec(c: Credential) -> Seq<char> {
    match c {
        Credential::UserPassword { username, password } => "UserPassword { username: "@
            + username@ + ", password: ****** }"@,
        Credential::SshKey { username, key_path, passphrase } => "SshKey { username: "@
            + username@ + ", key_path: "@ + key_path@ + ", passphrase: ****** }"@,
        Credential::Token { token } => "Token { token: ****** }"@,
    }
}

impl Credential {
    /// Renders the credential with every secret field replaced by
    /// `******`.
    pub fn redacted(&self) -> (r: String)
        ensures
            r@ == credential_redacted_spec(*self),
    {
        match self {
            Credential::UserPassword { username, password: _ } => {
                let r = concat3(
                    "UserPassword { username: ",
                    username.as_str(),
                    ", password: ****** }",
                );
                proof {
                    assert(r@ =~= credential_redacted_spec(*self));
                }
                r
            },
            Credential::SshKey { username, key_path, passphrase: _ } => {
                let head = concat3("SshKey { username: ", username.as_str(), ", key_path: ");
                let r = concat3(head.as_str(), key_path.as_str(), ", passphrase: ****** }");
                proof {
                    assert(r@ =~= credential_redacted_spec(*self));
                }
                r
            },
            Credential::Token { token: _ } => {
                let r = String::from_str("Token { token: ****** }");
                r
            },
        }
    }
}

/// The capability flags a driver advertises.
#[derive(Clone, Copy, PartialEq, Eq, Structural, Debug)]
pub struct CapabilitySet {
    pub supports_commit: bool,
    pub supports_rollback: bool,
    pub supports_diff: bool,
    pub supports_dry_run: bool,
}

impl Default for CapabilitySet {
    /// All capability flags off.
    fn default() -> (r: Self)
        ensures
            r == (CapabilitySet {
                supports_commit: false,
                supports_rollback: false,
                supports_diff: false,
                supports_dry_run: false,
            }),
    {
        CapabilitySet {
            supports_commit: false,
            supports_rollback: false,
            supports_diff: false,
            supports_dry_run: false,
        }
    }
}

/// A managed network device, immutable once loaded from an inventory.
#[derive(Debug)]
pub struct Device {
    pub id: DeviceId,
    pub name: String,
    pub device_type: DeviceType,
    pub mgmt_address: String,
    pub credential: CredentialRef,
    pub tags: Vec<String>,
    pub capabilities: CapabilitySet,
}

/// A compliance rule: a named predicate over a device configuration.
#[derive(Debug)]
pub struct ComplianceRule {
    pub name: String,
    pub description: String,
    pub expression: String,
}

/// What a job does: run commands, push configuration, or check rules.
/// Config-push snippets are secret-equivalent; the enum deliberately has
/// no `Debug` form, only the redacting `redacted` rendering.
pub enum JobKind {
    CommandBatch { commands: Vec<String> },
    ConfigPush { snippet: String },
    ComplianceCheck { rules: Vec<ComplianceRule> },
}

/// The canonical short label of a job kind.
pub open spec fn job_kind_label_spec(k: JobKindV) -> Seq<char> {
    match k {
        JobKindV::CommandBatch { .. } => "command_batch"@,
        JobKindV::ConfigPush { .. } => "config_push"@,
        JobKindV::ComplianceCheck { .. } => "compliance_check"@,
    }
}

/// The canonical short label of a job kind.
pub fn job_kind_label(kind: &JobKind) -> (r: &'static str)
    ensures
        r@ == job_kind_label_spec(kind@),
{
    match kind {
        JobKind::CommandBatch { .. } => "command_batch",
        JobKind::ConfigPush { .. } => "config_push",
        JobKind::ComplianceCheck { .. } => "compliance_check",
    }
}

/// The redacting rendering of a job kind: the snippet of a config push
/// does not occur in the definition, only counts do.
pub open spec fn job_kind_redacted_spec(k: JobKindV) -> Seq<char> {
    match k {
        JobKindV::CommandBatch { commands } => "CommandBatch { commands: "@ + dec_seq(
            commands.len() as int,
        ) + " }"@,
        JobKindV::ConfigPush { snippet } => "ConfigPush { snippet: ***redacted*** }"@,
        JobKindV::ComplianceCheck { rules } => "ComplianceCheck { rules: "@ + dec_seq(
            rules.len() as int,
        ) + " }"@,
    }
}

impl JobKind {
    /// Renders the kind for logs, with the config-push snippet replaced
    /// by `***redacted***` and lists shown by their length.
    pub fn redacted(&self) -> (r: String)
        ensures
            r@ == job_kind_redacted_spec(self@),
    {
        match self {
            JobKind::CommandBatch { commands } => {
                let n = usize_to_dec(commands.len());
                let r = concat3("CommandBatch { commands: ", n.as_str(), " }");
                proof {
                    assert(r@ =~= job_kind_redacted_spec(self@));
                }
                r
            },
            JobKind::ConfigPush { snippet: _ } => String::from_str(
                "ConfigPush { snippet: ***redacted*** }",
            ),
            JobKind::ComplianceCheck { rules } => {
                let n = usize_to_dec(rules.len());
                let r = concat3("ComplianceCheck { rules: ", n.as_str(), " }");
                proof {
                    assert(r@ =~= job_kind_redacted_spec(self@));
                }
                r
            },
        }
    }
}

/// Selects the devices a job targets.
#[derive(Debug)]
pub enum TargetSelector {
    All,
    ByIds { ids: Vec<DeviceId> },
    ByTags { all_of: Vec<String> },
}

/// A free-form job parameter value, reduced to what the core reads.
#[derive(Debug)]
pub enum ParamValue {
    /// A textual value.
    Text(String),
    /// A map of device id to text, used for inline compliance inputs.
    TextMap(Vec<(String, String)>),
    /// Any other shape; the core does not look inside.
    Other,
}

/// First-match lookup in a parameter list, over views.
pub open spec fn param_lookup(entries: Seq<(Seq<char>, ParamValueV)>, key: Seq<char>) -> Option<
    ParamValueV,
>
    decreases entries.len(),
{
    if entries.len() == 0 {
        None
    } else if entries[0].0 == key {
        Some(entries[0].1)
    } else {
        param_lookup(entries.drop_first(), key)
    }
}

/// The mathematical image of a parameter value.
pub ghost enum ParamValueV {
    Text(Seq<char>),
    TextMap(Seq<(Seq<char>, Seq<char>)>),
    Other,
}

impl View for ParamValue {
    type V = ParamValueV;

    open spec fn view(&self) -> ParamValueV {
        match self {
            ParamValue::Text(t) => ParamValueV::Text(t@),
            ParamValue::TextMap(m) => ParamValueV::TextMap(m.deep_view()),
            ParamValue::Other => ParamValueV::Other,
        }
    }
}

impl DeepView for ParamValue {
    type V = ParamValueV;

    open spec fn deep_view(&self) -> ParamValueV {
        self.view()
    }
}

/// The free-form parameter map of a job.
#[derive(Debug)]
pub struct ParamMap {
    pub entries: Vec<(String, ParamValue)>,
}

impl ParamMap {
    /// An empty parameter map.
    pub fn new() -> (r: ParamMap)
        ensures
            r.entries@.len() == 0,
    {
        ParamMap { entries: Vec::new() }
    }

    /// Adds an entry at the end.
    pub fn push(&mut self, key: String, value: ParamValue)
        ensures
            final(self).entries@ == old(self).entries@.push((key, value)),
    {
        self.entries.push((key, value));
    }

    /// Looks a key up, first match wins.
    pub fn get(&self, key: &str) -> (r: Option<&ParamValue>)
        ensures
            match r {
                Some(v) => param_lookup(self.entries.deep_view(), key@) == Some(v.deep_view()),
                None => param_lookup(self.entries.deep_view(), key@) is None,
            },
    {
        let ghost dvs = self.entries.deep_view();
        let kv = chars_vec(key);
        let mut i: usize = 0;
        proof {
            assert(dvs.subrange(0, dvs.len() as int) =~= dvs);
        }
        while i < self.entries.len()
            invariant
                dvs == self.entries.deep_view(),
                dvs.len() == self.entries@.len(),
                i <= self.entries@.len(),
                kv@ == key@,
                param_lookup(dvs, key@) == param_lookup(
                    dvs.subrange(i as int, dvs.len() as int),
                    key@,
                ),
            decreases self.entries@.len() - i,
        {
            let ghost rest = dvs.subrange(i as int, dvs.len() as int);
            let ev = chars_vec(self.entries[i].0.as_str());
            if chars_eq(&ev, &kv) {
                return Some(&self.entries[i].1);
            }
            proof {
                assert(rest.drop_first() =~= dvs.subrange(i + 1 as int, dvs.len() as int));
            }
            i = i + 1;
        }
        None
    }
}

/// A unit of work targeting one or more devices.  Immutable once handed
/// to the engine.
pub struct Job {
    pub id: String,
    pub name: String,
    pub kind: JobKind,
    pub targets: TargetSelector,
    pub parameters: ParamMap,
    pub max_parallel: Option<usize>,
    pub dry_run: bool,
    pub approval_id: Option<String>,
}

/// The lifecycle state of one device task.
#[derive(Clone, Copy, PartialEq, Eq, Structural, Debug)]
pub enum TaskStatus {
    Pending,
    Running,
    Success,
    Failed,
    Skipped,
    RolledBack,
}

/// The per-device record of one job execution.
#[derive(Debug)]
pub struct TaskSummary {
    pub device_id: DeviceId,
    pub status: TaskStatus,
    pub started_at: Option<Timestamp>,
    pub finished_at: Option<Timestamp>,
    pub logs: Vec<String>,
    pub diff: Option<String>,
}

/// Number of summaries with status `Success`.
pub open spec fn count_success(rs: Seq<TaskSummary>) -> int
    decreases rs.len(),
{
    if rs.len() == 0 {
        0
    } else {
        count_success(rs.drop_last()) + if rs.last().status is Success {
            1int
        } else {
            0int
        }
    }
}

pub proof fn lemma_count_success_bound(rs: Seq<TaskSummary>)
    ensures
        0 <= count_success(rs) <= rs.len(),
    decreases rs.len(),
{
    if rs.len() > 0 {
        lemma_count_success_bound(rs.drop_last());
    }
}

/// The aggregate result of one job execution.
#[derive(Debug)]
pub struct JobResult {
    pub job_id: String,
    pub started_at: Timestamp,
    pub finished_at: Timestamp,
    pub device_results: Vec<TaskSummary>,
}

impl JobResult {
    /// Number of device tasks that succeeded.
    pub fn success_count(&self) -> (n: usize)
        ensures
            n == count_success(self.device_results@),
    {
        proof {
            lemma_count_success_bound(self.device_results@);
        }
        let mut n: usize = 0;
        let mut i: usize = 0;
        while i < self.device_results.len()
            invariant
                i <= self.device_results@.len(),
                n == count_success(self.device_results@.subrange(0, i as int)),
                0 <= n <= i,
            decreases self.device_results@.len() - i,
        {
            let ghost pre = self.device_results@.subrange(0, i + 1 as int);
            proof {
                assert(pre.drop_last() =~= self.device_results@.subrange(0, i as int));
                lemma_count_success_bound(pre.drop_last());
            }
            if matches!(self.device_results[i].status, TaskStatus::Success) {
                n = n + 1;
            }
            i = i + 1;
        }
        proof {
            assert(self.device_results@.subrange(0, self.device_results@.len() as int)
                =~= self.device_results@);
        }
        n
    }
}

/// The mathematical image of a compliance rule.
pub ghost struct ComplianceRuleV {
    pub name: Seq<char>,
    pub description: Seq<char>,
    pub expression: Seq<char>,
}

impl View for ComplianceRule {
    type V = ComplianceRuleV;

    open spec fn view(&self) -> ComplianceRuleV {
        ComplianceRuleV {
            name: self.name@,
            description: self.description@,
            expression: self.expression@,
        }
    }
}

impl DeepView for ComplianceRule {
    type V = ComplianceRuleV;

    open spec fn deep_view(&self) -> ComplianceRuleV {
        self.view()
    }
}

/// The mathematical image of a device.
pub ghost struct DeviceV {
    pub id: Seq<char>,
    pub name: Seq<char>,
    pub device_type: DeviceType,
    pub mgmt_address: Seq<char>,
    pub credential: Seq<char>,
    pub tags: Seq<Seq<char>>,
    pub capabilities: CapabilitySet,
}

impl View for Device {
    type V = DeviceV;

    open spec fn view(&self) -> DeviceV {
        DeviceV {
            id: self.id@,
            name: self.name@,
            device_type: self.device_type,
            mgmt_address: self.mgmt_address@,
            credential: self.credential.name@,
            tags: self.tags.deep_view(),
            capabilities: self.capabilities,
        }
    }
}

impl DeepView for Device {
    type V = DeviceV;

    open spec fn deep_view(&self) -> DeviceV {
        self.view()
    }
}

/// The mathematical image of a job kind.
pub ghost enum JobKindV {
    CommandBatch { commands: Seq<Seq<char>> },
    ConfigPush { snippet: Seq<char> },
    ComplianceCheck { rules: Seq<ComplianceRuleV> },
}

impl View for JobKind {
    type V = JobKindV;

    open spec fn view(&self) -> JobKindV {
        match self {
            JobKind::CommandBatch { commands } => JobKindV::CommandBatch {
                commands: commands.deep_view(),
            },
            JobKind::ConfigPush { snippet } => JobKindV::ConfigPush { snippet: snippet@ },
            JobKind::ComplianceCheck { rules } => JobKindV::ComplianceCheck {
                rules: rules.deep_view(),
            },
        }
    }
}

impl DeepView for JobKind {
    type V = JobKindV;

    open spec fn deep_view(&self) -> JobKindV {
        self.view()
    }
}

/// The mathematical image of a target selector.
pub ghost enum TargetSelectorV {
    All,
    ByIds { ids: Seq<Seq<char>> },
    ByTags { all_of: Seq<Seq<char>> },
}

impl View for TargetSelector {
    type V = TargetSelectorV;

    open spec fn view(&self) -> TargetSelectorV {
        match self {
            TargetSelector::All => TargetSelectorV::All,
            TargetSelector::ByIds { ids } => TargetSelectorV::ByIds { ids: ids.deep_view() },
            TargetSelector::ByTags { all_of } => TargetSelectorV::ByTags {
                all_of: all_of.deep_view(),
            },
        }
    }
}

impl DeepView for TargetSelector {
    type V = TargetSelectorV;

    open spec fn deep_view(&self) -> TargetSelectorV {
        self.view()
    }
}

/// The mathematical image of a task summary.
pub ghost struct TaskSummaryV {
    pub device_id: Seq<char>,
    pub status: TaskStatus,
    pub started_at: Option<Timestamp>,
    pub finished_at: Option<Timestamp>,
    pub logs: Seq<Seq<char>>,
    pub diff: Option<Seq<char>>,
}

impl View for TaskSummary {
    type V = TaskSummaryV;

    open spec fn view(&self) -> TaskSummaryV {
        TaskSummaryV {
            device_id: self.device_id@,
            status: self.status,
            started_at: self.started_at,
            finished_at: self.finished_at,
            logs: self.logs.deep_view(),
            diff: self.diff.deep_view(),
        }
    }
}

impl DeepView for TaskSummary {
    type V = TaskSummaryV;

    open spec fn deep_view(&self) -> TaskSummaryV {
        self.view()
    }
}

/// The mathematical image of a job result.
pub ghost struct JobResultV {
    pub job_id: Seq<char>,
    pub started_at: Timestamp,
    pub finished_at: Timestamp,
    pub device_results: Seq<TaskSummaryV>,
}

impl View for JobResult {
    type V = JobResultV;

    open spec fn view(&self) -> JobResultV {
        JobResultV {
            job_id: self.job_id@,
            started_at: self.started_at,
            finished_at: self.finished_at,
            device_results: self.device_results.deep_view(),
        }
    }
}

/// Clones a vector of strings, element for element.
pub fn clone_string_vec(v: &Vec<String>) -> (r: Vec<String>)
    ensures
        r.deep_view() == v.deep_view(),
{
    let mut r: Vec<String> = Vec::new();
    let mut i: usize = 0;
    while i < v.len()
        invariant
            i <= v@.len(),
            r@.len() == i,
            forall|k: int| 0 <= k < i ==> r@[k]@ == v@[k]@,
        decreases v@.len() - i,
    {
        r.push(v[i].clone());
        i = i + 1;
    }
    proof {
        assert(r.deep_view() =~= v.deep_view());
    }
    r
}

impl Clone for CredentialRef {
    /// An exact copy.
    fn clone(&self) -> (r: Self)
        ensures
            r == *self,
    {
        CredentialRef { name: self.name.clone() }
    }
}

impl Clone for Credential {
    /// An exact copy, secret fields included.
    fn clone(&self) -> (r: Self)
        ensures
            r == *self,
    {
        match self {
            Credential::UserPassword { username, password } => Credential::UserPassword {
                username: username.clone(),
                password: password.clone(),
            },
            Credential::SshKey { username, key_path, passphrase } => Credential::SshKey {
                username: username.clone(),
                key_path: key_path.clone(),
                passphrase: match passphrase {
                    Some(p) => Some(p.clone()),
                    None => None,
                },
            },
            Credential::Token { token } => Credential::Token { token: token.clone() },
        }
    }
}

impl Clone for ComplianceRule {
    /// An exact copy.
    fn clone(&self) -> (r: Self)
        ensures
            r == *self,
            r@ == self@,
    {
        ComplianceRule {
            name: self.name.clone(),
            description: self.description.clone(),
            expression: self.expression.clone(),
        }
    }
}

/// Clones a vector of compliance rules, element for element.
pub fn clone_rules(v: &Vec<ComplianceRule>) -> (r: Vec<ComplianceRule>)
    ensures
        r.deep_view() == v.deep_view(),
{
    let mut r: Vec<ComplianceRule> = Vec::new();
    let mut i: usize = 0;
    while i < v.len()
        invariant
            i <= v@.len(),
            r@.len() == i,
            forall|k: int| 0 <= k < i ==> r@[k]@ == v@[k]@,
        decreases v@.len() - i,
    {
        r.push(v[i].clone());
        i = i + 1;
    }
    proof {
        assert(r.deep_view() =~= v.deep_view());
    }
    r
}

impl Clone for Device {
    /// An exact copy.
    fn clone(&self) -> (r: Self)
        ensures
            r@ == self@,
    {
        Device {
            id: self.id.clone(),
            name: self.name.clone(),
            device_type: self.device_type,
            mgmt_address: self.mgmt_address.clone(),
            credential: self.credential.clone(),
            tags: clone_string_vec(&self.tags),
            capabilities: self.capabilities,
        }
    }
}

impl Clone for JobKind {
    /// An exact copy.
    fn clone(&self) -> (r: Self)
        ensures
            r@ == self@,
    {
        match self {
            JobKind::CommandBatch { commands } => JobKind::CommandBatch {
                commands: clone_string_vec(commands),
            },
            JobKind::ConfigPush { snippet } => JobKind::ConfigPush { snippet: snippet.clone() },
            JobKind::ComplianceCheck { rules } => JobKind::ComplianceCheck {
                rules: clone_rules(rules),
            },
        }
    }
}

impl Clone for TargetSelector {
    /// An exact copy.
    fn clone(&self) -> (r: Self)
        ensures
            r@ == self@,
    {
        match self {
            TargetSelector::All => TargetSelector::All,
            TargetSelector::ByIds { ids } => TargetSelector::ByIds {
                ids: clone_string_vec(ids),
            },
            TargetSelector::ByTags { all_of } => TargetSelector::ByTags {
                all_of: clone_string_vec(all_of),
            },
        }
    }
}

impl Clone for TaskSummary {
    /// An exact copy.
    fn clone(&self) -> (r: Self)
        ensures
            r@ == self@,
    {
        TaskSummary {
            device_id: self.device_id.clone(),
            status: self.status,
            started_at: self.started_at,
            finished_at: self.finished_at,
            logs: clone_string_vec(&self.logs),
            diff: match &self.diff {
                Some(d) => Some(d.clone()),
                None => None,
            },
        }
    }
}

/// The mathematical image of a job.
pub ghost struct JobV {
    pub id: Seq<char>,
    pub name: Seq<char>,
    pub kind: JobKindV,
    pub targets: TargetSelectorV,
    pub parameters: Seq<(Seq<char>, ParamValueV)>,
    pub max_parallel: Option<usize>,
    pub dry_run: bool,
    pub approval_id: Option<Seq<char>>,
}

impl View for Job {
    type V = JobV;

    open spec fn view(&self) -> JobV {
        JobV {
            id: self.id@,
            name: self.name@,
            kind: self.kind@,
            targets: self.targets@,
            parameters: self.parameters.entries.deep_view(),
            max_parallel: self.max_parallel,
            dry_run: self.dry_run,
            approval_id: self.approval_id.deep_view(),
        }
    }
}

/// Clones a vector of string pairs, element for element.
pub fn clone_string_pairs(v: &Vec<(String, String)>) -> (r: Vec<(String, String)>)
    ensures
        r.deep_view() == v.deep_view(),
{
    let mut r: Vec<(String, String)> = Vec::new();
    let mut i: usize = 0;
    while i < v.len()
        invariant
            i <= v@.len(),
            r@.len() == i,
            forall|k: int| 0 <= k < i ==> r@[k].0@ == v@[k].0@ && r@[k].1@ == v@[k].1@,
        decreases v@.len() - i,
    {
        r.push((v[i].0.clone(), v[i].1.clone()));
        i = i + 1;
    }
    proof {
        assert(r.deep_view() =~= v.deep_view());
    }
    r
}

impl Clone for ParamValue {
    /// An exact copy.
    fn clone(&self) -> (r: Self)
        ensures
            r@ == self@,
    {
        match self {
            ParamValue::Text(t) => ParamValue::Text(t.clone()),
            ParamValue::TextMap(m) => ParamValue::TextMap(clone_string_pairs(m)),
            ParamValue::Other => ParamValue::Other,
        }
    }
}

impl Clone for ParamMap {
    /// An exact copy.
    fn clone(&self) -> (r: Self)
        ensures
            r.entries.deep_view() == self.entries.deep_view(),
    {
        let mut entries: Vec<(String, ParamValue)> = Vec::new();
        let mut i: usize = 0;
        while i < self.entries.len()
            invariant
                i <= self.entries@.len(),
                entries@.len() == i,
                forall|k: int|
                    0 <= k < i ==> entries@[k].0@ == self.entries@[k].0@ && entries@[k].1@
                        == self.entries@[k].1@,
            decreases self.entries@.len() - i,
        {
            entries.push((self.entries[i].0.clone(), self.entries[i].1.clone()));
            i = i + 1;
        }
        proof {
            assert(entries.deep_view() =~= self.entries.deep_view());
        }
        ParamMap { entries }
    }
}

impl Clone for Job {
    /// An exact copy.
    fn clone(&self) -> (r: Self)
        ensures
            r@ == self@,
    {
        Job {
            id: self.id.clone(),
            name: self.name.clone(),
            kind: self.kind.clone(),
            targets: self.targets.clone(),
            parameters: self.parameters.clone(),
            max_parallel: self.max_parallel,
            dry_run: self.dry_run,
            approval_id: match &self.approval_id {
                Some(a) => Some(a.clone()),
                None => None,
            },
        }
    }
}

/// A job document as read from disk, before defaults are applied.  The
/// binary around the library decodes the document and supplies a fresh
/// id for documents that carry none.
pub struct JobFile {
    pub name: String,
    pub id: Option<String>,
    pub kind: JobKind,
    pub targets: Option<TargetSelector>,
    pub dry_run: bool,
    pub parameters: ParamMap,
    pub max_parallel: Option<usize>,
    pub approval_id: Option<String>,
}

impl JobFile {
    /// The job a document describes: the document's id or the freshly
    /// generated one, and `all` targets when the document names none.
    pub fn into_job(self, generated_id: String) -> (r: Job)
        ensures
            r.id@ == (match self.id {
                Some(id) => id@,
                None => generated_id@,
            }),
            r.name@ == self.name@,
            r.kind@ == self.kind@,
            r.targets@ == (match self.targets {
                Some(t) => t@,
                None => TargetSelectorV::All,
            }),
            r.parameters.entries.deep_view() == self.parameters.entries.deep_view(),
            r.max_parallel == self.max_parallel,
            r.dry_run == self.dry_run,
            r.approval_id.deep_view() == self.approval_id.deep_view(),
    {
        let id = match self.id {
            Some(id) => id,
            None => generated_id,
        };
        let targets = match self.targets {
            Some(t) => t,
            None => TargetSelector::All,
        };
        Job {
            id,
            name: self.name,
            kind: self.kind,
            targets,
            parameters: self.parameters,
            max_parallel: self.max_parallel,
            dry_run: self.dry_run,
            approval_id: self.approval_id,
        }
    }
}

/// Two credentials of the same shape that differ only in their secret
/// fields render identically: the redacted form carries no secret.
pub proof fn lemma_credential_redaction(c1: Credential, c2: Credential)
    requires
        match (c1, c2) {
            (
                Credential::UserPassword { username: u1, .. },
                Credential::UserPassword { username: u2, .. },
            ) => u1@ == u2@,
            (
                Credential::SshKey { username: u1, key_path: k1, .. },
                Credential::SshKey { username: u2, key_path: k2, .. },
            ) => u1@ == u2@ && k1@ == k2@,
            (Credential::Token { .. }, Credential::Token { .. }) => true,
            _ => false,
        },
    ensures
        credential_redacted_spec(c1) == credential_redacted_spec(c2),
{
}

/// Two jobs kinds that differ only in the config-push snippet render
/// identically: the redacted form carries no snippet text.
pub proof fn lemma_snippet_redaction(s1: Seq<char>, s2: Seq<char>)
    ensures
        job_kind_redacted_spec(JobKindV::ConfigPush { snippet: s1 }) == job_kind_redacted_spec(
            JobKindV::ConfigPush { snippet: s2 },
        ),
{
}

} // verus!
