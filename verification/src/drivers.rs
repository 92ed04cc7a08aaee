//! The driver abstraction: per-device-type adapters, the registry that
//! routes a device to its driver, and the deterministic mock driver.
//!
//! The protocol exchanges of the real drivers are network I/O performed
//! by the binary around the library; here each driver carries its
//! identity, its credential-store handle and its capability flags, and
//! the mock driver's whole behaviour is implemented and specified.

use vstd::prelude::*;
use vstd::string::StringExecFns;

use crate::inventory::seq_has;
use crate::model::{
    job_kind_redacted_spec, CapabilitySet, Device, DeviceType, DeviceV, JobKind, JobKindV,
};
use crate::plugin::{CapabilityMask, PluginDriverDescriptor, CAP_COMMIT, CAP_DIFF, CAP_DRY_RUN,
    CAP_ROLLBACK};
use crate::security::KeyringStore;
use crate::text::{concat2, concat3};

verus! {

/// The default SSH port.
pub const DEFAULT_SSH_PORT: u16 = 22;

/// The default NETCONF-over-SSH port.
pub const DEFAULT_NETCONF_PORT: u16 = 830;

/// The keychain service all built-in drivers resolve credentials under.
pub const KEYRING_SERVICE: &'static str = "netrust";

/// The credential store the built-in drivers use.
pub fn default_credential_store() -> (r: KeyringStore)
    ensures
        r.service@ == KEYRING_SERVICE@,
{
    KeyringStore::new(KEYRING_SERVICE)
}

/// The SSH command timeout the CLI drivers run under: the environment's
/// override, read by the caller, or the default.
pub fn command_timeout(override_secs: Option<u64>) -> (r: u64)
    ensures
        r == match override_secs {
            Some(v) => v as int,
            None => crate::rest::DEFAULT_SSH_TIMEOUT_SECS as int,
        },
{
    crate::rest::ssh_command_timeout(override_secs)
}

/// What a driver is asked to do: carry out a job kind.
#[derive(Clone, Copy)]
pub enum DriverAction<'a> {
    Job(&'a JobKind),
}

impl<'a> DriverAction<'a> {
    /// The job kind this action wraps.
    pub fn job_kind(&self) -> (k: &'a JobKind)
        ensures
            *self == DriverAction::Job(k),
    {
        match self {
            DriverAction::Job(k) => *k,
        }
    }
}

/// What a driver returns on success: log lines, optional before and
/// after snapshots, and an optional rendered diff.
#[derive(Debug)]
pub struct DriverExecutionResult {
    pub logs: Vec<String>,
    pub pre_snapshot: Option<String>,
    pub post_snapshot: Option<String>,
    pub diff: Option<String>,
}

/// The mathematical image of a driver result.
pub ghost struct DriverExecutionResultV {
    pub logs: Seq<Seq<char>>,
    pub pre_snapshot: Option<Seq<char>>,
    pub post_snapshot: Option<Seq<char>>,
    pub diff: Option<Seq<char>>,
}

impl View for DriverExecutionResult {
    type V = DriverExecutionResultV;

    open spec fn view(&self) -> DriverExecutionResultV {
        DriverExecutionResultV {
            logs: self.logs.deep_view(),
            pre_snapshot: self.pre_snapshot.deep_view(),
            post_snapshot: self.post_snapshot.deep_view(),
            diff: self.diff.deep_view(),
        }
    }
}

impl Default for DriverExecutionResult {
    /// No logs, no snapshots, no diff.
    fn default() -> (r: Self)
        ensures
            r@ == (DriverExecutionResultV {
                logs: Seq::empty(),
                pre_snapshot: None,
                post_snapshot: None,
                diff: None,
            }),
    {
        let r = DriverExecutionResult {
            logs: Vec::new(),
            pre_snapshot: None,
            post_snapshot: None,
            diff: None,
        };
        proof {
            assert(r@.logs =~= Seq::<Seq<char>>::empty());
        }
        r
    }
}

/// The mathematical image of a driver outcome.
pub open spec fn driver_outcome_view(o: Result<DriverExecutionResult, String>) -> Result<
    DriverExecutionResultV,
    Seq<char>,
> {
    match o {
        Ok(r) => Ok(r@),
        Err(e) => Err(e@),
    }
}

/// What one driver invocation reported back: how long it ran, and its
/// outcome.
pub struct PortReport {
    pub elapsed_ms: u64,
    pub outcome: Result<DriverExecutionResult, String>,
}

/// The identity every driver exposes: the device type it handles, a
/// display name, and its capability flags.
pub trait DeviceDriver {
    /// The device type, as a spec value.
    spec fn spec_device_type(&self) -> DeviceType;

    /// The capability flags, as a spec value.
    spec fn spec_capabilities(&self) -> CapabilitySet;

    /// The display name, as a spec value.
    spec fn spec_name(&self) -> Seq<char>;

    /// The device type this driver handles.
    fn device_type(&self) -> (t: DeviceType)
        ensures
            t == self.spec_device_type(),
    ;

    /// The driver's display name.
    fn name(&self) -> (n: &'static str)
        ensures
            n@ == self.spec_name(),
    ;

    /// The capability flags this driver advertises.
    fn capabilities(&self) -> (c: CapabilitySet)
        ensures
            c == self.spec_capabilities(),
    ;
}

/// Capability set with every flag off.
pub open spec fn caps_none() -> CapabilitySet {
    CapabilitySet {
        supports_commit: false,
        supports_rollback: false,
        supports_diff: false,
        supports_dry_run: false,
    }
}

/// Capability set with every flag on.
pub open spec fn caps_all() -> CapabilitySet {
    CapabilitySet {
        supports_commit: true,
        supports_rollback: true,
        supports_diff: true,
        supports_dry_run: true,
    }
}

/// The Cisco IOS CLI driver: SSH, command batches and config pushes.
pub struct CiscoIosDriver {
    pub credential_store: KeyringStore,
    pub port: u16,
}

impl Default for CiscoIosDriver {
    /// The default keychain service and SSH port.
    fn default() -> (r: Self)
        ensures
            r.credential_store.service@ == KEYRING_SERVICE@,
            r.port == DEFAULT_SSH_PORT,
    {
        CiscoIosDriver { credential_store: default_credential_store(), port: DEFAULT_SSH_PORT }
    }
}

impl Clone for CiscoIosDriver {
    /// An exact copy.
    fn clone(&self) -> (r: Self)
        ensures
            r == *self,
    {
        CiscoIosDriver { credential_store: self.credential_store.clone(), port: self.port }
    }
}

impl DeviceDriver for CiscoIosDriver {
    open spec fn spec_name(&self) -> Seq<char> {
        "Cisco IOS CLI"@
    }

    open spec fn spec_device_type(&self) -> DeviceType {
        DeviceType::CiscoIos
    }

    open spec fn spec_capabilities(&self) -> CapabilitySet {
        caps_none()
    }

    fn device_type(&self) -> (t: DeviceType) {
        DeviceType::CiscoIos
    }

    fn name(&self) -> &'static str {
        "Cisco IOS CLI"
    }

    fn capabilities(&self) -> (c: CapabilitySet) {
        CapabilitySet {
            supports_commit: false,
            supports_rollback: false,
            supports_diff: false,
            supports_dry_run: false,
        }
    }
}

/// The generic SSH driver: plain command execution over SSH.
pub struct GenericSshDriver {
    pub credential_store: KeyringStore,
    pub port: u16,
}

impl Default for GenericSshDriver {
    /// The default keychain service and SSH port.
    fn default() -> (r: Self)
        ensures
            r.credential_store.service@ == KEYRING_SERVICE@,
            r.port == DEFAULT_SSH_PORT,
    {
        GenericSshDriver { credential_store: default_credential_store(), port: DEFAULT_SSH_PORT }
    }
}

impl Clone for GenericSshDriver {
    /// An exact copy.
    fn clone(&self) -> (r: Self)
        ensures
            r == *self,
    {
        GenericSshDriver { credential_store: self.credential_store.clone(), port: self.port }
    }
}

impl DeviceDriver for GenericSshDriver {
    open spec fn spec_name(&self) -> Seq<char> {
        "Generic SSH"@
    }

    open spec fn spec_device_type(&self) -> DeviceType {
        DeviceType::GenericSsh
    }

    open spec fn spec_capabilities(&self) -> CapabilitySet {
        caps_none()
    }

    fn device_type(&self) -> (t: DeviceType) {
        DeviceType::GenericSsh
    }

    fn name(&self) -> &'static str {
        "Generic SSH"
    }

    fn capabilities(&self) -> (c: CapabilitySet) {
        CapabilitySet {
            supports_commit: false,
            supports_rollback: false,
            supports_diff: false,
            supports_dry_run: false,
        }
    }
}

/// The Juniper Junos driver: NETCONF candidate commits with validation.
pub struct JuniperJunosDriver {
    pub credential_store: KeyringStore,
    pub port: u16,
}

impl Default for JuniperJunosDriver {
    /// The default keychain service and NETCONF port.
    fn default() -> (r: Self)
        ensures
            r.credential_store.service@ == KEYRING_SERVICE@,
            r.port == DEFAULT_NETCONF_PORT,
    {
        JuniperJunosDriver {
            credential_store: default_credential_store(),
            port: DEFAULT_NETCONF_PORT,
        }
    }
}

impl Clone for JuniperJunosDriver {
    /// An exact copy.
    fn clone(&self) -> (r: Self)
        ensures
            r == *self,
    {
        JuniperJunosDriver { credential_store: self.credential_store.clone(), port: self.port }
    }
}

impl DeviceDriver for JuniperJunosDriver {
    open spec fn spec_name(&self) -> Seq<char> {
        "Juniper Junos NETCONF"@
    }

    open spec fn spec_device_type(&self) -> DeviceType {
        DeviceType::JuniperJunos
    }

    open spec fn spec_capabilities(&self) -> CapabilitySet {
        caps_all()
    }

    fn device_type(&self) -> (t: DeviceType) {
        DeviceType::JuniperJunos
    }

    fn name(&self) -> &'static str {
        "Juniper Junos NETCONF"
    }

    fn capabilities(&self) -> (c: CapabilitySet) {
        CapabilitySet {
            supports_commit: true,
            supports_rollback: true,
            supports_diff: true,
            supports_dry_run: true,
        }
    }
}

/// The Arista EOS driver: CLI over SSH, or eAPI over HTTPS.
pub struct AristaEosDriver {
    pub credential_store: KeyringStore,
    pub port: u16,
}

impl Default for AristaEosDriver {
    /// The default keychain service and SSH port.
    fn default() -> (r: Self)
        ensures
            r.credential_store.service@ == KEYRING_SERVICE@,
            r.port == DEFAULT_SSH_PORT,
    {
        AristaEosDriver { credential_store: default_credential_store(), port: DEFAULT_SSH_PORT }
    }
}

impl Clone for AristaEosDriver {
    /// An exact copy.
    fn clone(&self) -> (r: Self)
        ensures
            r == *self,
    {
        AristaEosDriver { credential_store: self.credential_store.clone(), port: self.port }
    }
}

impl DeviceDriver for AristaEosDriver {
    open spec fn spec_name(&self) -> Seq<char> {
        "Arista EOS CLI"@
    }

    open spec fn spec_device_type(&self) -> DeviceType {
        DeviceType::AristaEos
    }

    open spec fn spec_capabilities(&self) -> CapabilitySet {
        caps_none()
    }

    fn device_type(&self) -> (t: DeviceType) {
        DeviceType::AristaEos
    }

    fn name(&self) -> &'static str {
        "Arista EOS CLI"
    }

    fn capabilities(&self) -> (c: CapabilitySet) {
        CapabilitySet {
            supports_commit: false,
            supports_rollback: false,
            supports_diff: false,
            supports_dry_run: false,
        }
    }
}

/// The Cisco NX-OS driver: JSON-RPC over the NX-API REST endpoint.
pub struct CiscoNxosApiDriver {
    pub credential_store: KeyringStore,
}

impl Default for CiscoNxosApiDriver {
    /// The default keychain service.
    fn default() -> (r: Self)
        ensures
            r.credential_store.service@ == KEYRING_SERVICE@,
    {
        CiscoNxosApiDriver { credential_store: default_credential_store() }
    }
}

impl Clone for CiscoNxosApiDriver {
    /// An exact copy.
    fn clone(&self) -> (r: Self)
        ensures
            r == *self,
    {
        CiscoNxosApiDriver { credential_store: self.credential_store.clone() }
    }
}

impl DeviceDriver for CiscoNxosApiDriver {
    open spec fn spec_name(&self) -> Seq<char> {
        "Cisco NX-OS API"@
    }

    open spec fn spec_device_type(&self) -> DeviceType {
        DeviceType::CiscoNxosApi
    }

    open spec fn spec_capabilities(&self) -> CapabilitySet {
        caps_all()
    }

    fn device_type(&self) -> (t: DeviceType) {
        DeviceType::CiscoNxosApi
    }

    fn name(&self) -> &'static str {
        "Cisco NX-OS API"
    }

    fn capabilities(&self) -> (c: CapabilitySet) {
        CapabilitySet {
            supports_commit: true,
            supports_rollback: true,
            supports_diff: true,
            supports_dry_run: true,
        }
    }
}

/// The Meraki cloud driver: token-authenticated REST calls.  Its
/// rollback capability is advertised but not implemented; invoking it
/// only logs a warning.
pub struct MerakiCloudDriver {
    pub credential_store: KeyringStore,
}

impl Default for MerakiCloudDriver {
    /// The default keychain service.
    fn default() -> (r: Self)
        ensures
            r.credential_store.service@ == KEYRING_SERVICE@,
    {
        MerakiCloudDriver { credential_store: default_credential_store() }
    }
}

impl Clone for MerakiCloudDriver {
    /// An exact copy.
    fn clone(&self) -> (r: Self)
        ensures
            r == *self,
    {
        MerakiCloudDriver { credential_store: self.credential_store.clone() }
    }
}

impl DeviceDriver for MerakiCloudDriver {
    open spec fn spec_name(&self) -> Seq<char> {
        "Cisco Meraki Cloud"@
    }

    open spec fn spec_device_type(&self) -> DeviceType {
        DeviceType::MerakiCloud
    }

    open spec fn spec_capabilities(&self) -> CapabilitySet {
        CapabilitySet {
            supports_commit: false,
            supports_rollback: true,
            supports_diff: false,
            supports_dry_run: false,
        }
    }

    fn device_type(&self) -> (t: DeviceType) {
        DeviceType::MerakiCloud
    }

    fn name(&self) -> &'static str {
        "Cisco Meraki Cloud"
    }

    fn capabilities(&self) -> (c: CapabilitySet) {
        CapabilitySet {
            supports_commit: false,
            supports_rollback: true,
            supports_diff: false,
            supports_dry_run: false,
        }
    }
}

/// How long the mock driver stalls on the magic `timeout` command, in
/// milliseconds: one hour, longer than any engine timeout.
pub const MOCK_SLEEP_MS: u64 = 3600000;

/// The deterministic mock driver used by tests and benchmarks.
pub struct MockDriver {
    pub device_type: DeviceType,
    pub capabilities: CapabilitySet,
    pub label: &'static str,
}

impl MockDriver {
    /// A mock driver for the given device type, advertising every
    /// capability.
    pub fn new(device_type: DeviceType) -> (r: MockDriver)
        ensures
            r == (MockDriver { device_type, capabilities: caps_all(), label: "Mock Driver" }),
    {
        MockDriver {
            device_type,
            capabilities: CapabilitySet {
                supports_commit: true,
                supports_rollback: true,
                supports_diff: true,
                supports_dry_run: true,
            },
            label: "Mock Driver",
        }
    }
}

impl Clone for MockDriver {
    /// An exact copy.
    fn clone(&self) -> (r: Self)
        ensures
            r == *self,
    {
        MockDriver {
            device_type: self.device_type,
            capabilities: self.capabilities,
            label: self.label,
        }
    }
}

impl DeviceDriver for MockDriver {
    open spec fn spec_name(&self) -> Seq<char> {
        self.label@
    }

    open spec fn spec_device_type(&self) -> DeviceType {
        self.device_type
    }

    open spec fn spec_capabilities(&self) -> CapabilitySet {
        self.capabilities
    }

    fn device_type(&self) -> (t: DeviceType) {
        self.device_type
    }

    fn name(&self) -> &'static str {
        self.label
    }

    fn capabilities(&self) -> (c: CapabilitySet) {
        self.capabilities
    }
}

/// The device carries the tag that forces a simulated failure.
pub open spec fn mock_fail_tagged(d: DeviceV) -> bool {
    seq_has(d.tags, "mock:fail"@)
}

/// Whether a command batch carries the given magic command.
pub open spec fn batch_has_command(k: JobKindV, c: Seq<char>) -> bool {
    match k {
        JobKindV::CommandBatch { commands } => seq_has(commands, c),
        _ => false,
    }
}

/// How long the mock driver runs: an hour on the magic `timeout`
/// command, otherwise no time at all.
pub open spec fn mock_elapsed_spec(d: DeviceV, k: JobKindV) -> u64 {
    if mock_fail_tagged(d) {
        0
    } else if batch_has_command(k, "fail"@) {
        0
    } else if batch_has_command(k, "timeout"@) {
        MOCK_SLEEP_MS
    } else {
        0
    }
}

/// The single log line of a successful mock run: the device and a
/// redacting rendering of the action it was asked to carry out.
pub open spec fn mock_log_spec(d: DeviceV, k: JobKindV) -> Seq<char> {
    "[mock] device="@ + d.name + " action=Job("@ + job_kind_redacted_spec(k) + ")"@
}

/// What the mock driver returns: a simulated failure on the `mock:fail`
/// tag or the magic `fail` command, otherwise a success with one log
/// line and a mock diff.
pub open spec fn mock_outcome_spec(d: DeviceV, k: JobKindV) -> Result<
    DriverExecutionResultV,
    Seq<char>,
> {
    if mock_fail_tagged(d) {
        Err("simulated failure for "@ + d.name)
    } else if batch_has_command(k, "fail"@) {
        Err("simulated command failure"@)
    } else {
        Ok(
            DriverExecutionResultV {
                logs: seq![mock_log_spec(d, k)],
                pre_snapshot: None,
                post_snapshot: None,
                diff: Some("mock diff"@),
            },
        )
    }
}

impl MockDriver {
    /// Runs the mock driver: deterministic, no I/O.
    pub fn execute(&self, device: &Device, action: DriverAction<'_>) -> (r: PortReport)
        ensures
            r.elapsed_ms == mock_elapsed_spec(device@, action_kind_view(action)),
            driver_outcome_view(r.outcome) == mock_outcome_spec(
                device@,
                action_kind_view(action),
            ),
    {
        let kind = action.job_kind();
        let fail_tag = crate::inventory::seq_has_exec(
            &device.tags,
            &crate::text::chars_vec("mock:fail"),
        );
        if fail_tag {
            let msg = concat2("simulated failure for ", device.name.as_str());
            return PortReport { elapsed_ms: 0, outcome: Err(msg) };
        }
        let mut elapsed: u64 = 0;
        if let JobKind::CommandBatch { commands } = kind {
            if crate::inventory::seq_has_exec(commands, &crate::text::chars_vec("fail")) {
                let msg = String::from_str("simulated command failure");
                return PortReport { elapsed_ms: 0, outcome: Err(msg) };
            }
            if crate::inventory::seq_has_exec(commands, &crate::text::chars_vec("timeout")) {
                elapsed = MOCK_SLEEP_MS;
            }
        }
        let shown = kind.redacted();
        let head = concat3("[mock] device=", device.name.as_str(), " action=Job(");
        let line = concat3(head.as_str(), shown.as_str(), ")");
        let mut logs: Vec<String> = Vec::new();
        logs.push(line);
        let result = DriverExecutionResult {
            logs,
            pre_snapshot: None,
            post_snapshot: None,
            diff: Some(String::from_str("mock diff")),
        };
        proof {
            assert(result@.logs =~= seq![mock_log_spec(device@, action_kind_view(action))]);
        }
        PortReport { elapsed_ms: elapsed, outcome: Ok(result) }
    }
}

/// The kind a driver action wraps, as a view.
pub open spec fn action_kind_view(a: DriverAction<'_>) -> JobKindV {
    match a {
        DriverAction::Job(k) => k@,
    }
}

/// A placeholder for a plugin-declared driver: it can describe itself,
/// but running it is not yet supported, so `execute` and `rollback`
/// return errors.
pub struct PluginDriverPlaceholder {
    pub vendor: String,
    pub device_type: DeviceType,
    pub capabilities: CapabilitySet,
}

/// The capability set encoded by a plugin capability mask.
pub open spec fn mask_to_set_spec(mask: CapabilityMask) -> CapabilitySet {
    CapabilitySet {
        supports_commit: mask.bits & CAP_COMMIT == CAP_COMMIT,
        supports_rollback: mask.bits & CAP_ROLLBACK == CAP_ROLLBACK,
        supports_diff: mask.bits & CAP_DIFF == CAP_DIFF,
        supports_dry_run: mask.bits & CAP_DRY_RUN == CAP_DRY_RUN,
    }
}

/// Decodes a plugin capability mask into capability flags.
pub fn capability_mask_to_set(mask: CapabilityMask) -> (r: CapabilitySet)
    ensures
        r == mask_to_set_spec(mask),
{
    CapabilitySet {
        supports_commit: mask.contains(CAP_COMMIT),
        supports_rollback: mask.contains(CAP_ROLLBACK),
        supports_diff: mask.contains(CAP_DIFF),
        supports_dry_run: mask.contains(CAP_DRY_RUN),
    }
}

impl PluginDriverPlaceholder {
    /// A placeholder carrying a plugin's vendor, target type and
    /// capability flags.
    pub fn new(descriptor: &PluginDriverDescriptor, device_type: DeviceType) -> (r:
        PluginDriverPlaceholder)
        ensures
            r == (PluginDriverPlaceholder {
                vendor: descriptor.vendor,
                device_type,
                capabilities: mask_to_set_spec(descriptor.capabilities),
            }),
    {
        PluginDriverPlaceholder {
            vendor: descriptor.vendor.clone(),
            device_type,
            capabilities: capability_mask_to_set(descriptor.capabilities),
        }
    }

    /// Plugin execution is not yet supported: always an error naming the
    /// vendor and the device.
    pub fn execute(&self, device: &Device) -> (r: Result<DriverExecutionResult, String>)
        ensures
            r matches Err(m) && m@ == "plugin driver from "@ + self.vendor@
                + " is not yet executable for device "@ + device.name@,
    {
        let head = concat3("plugin driver from ", self.vendor.as_str(),
            " is not yet executable for device ");
        Err(concat2(head.as_str(), device.name.as_str()))
    }

    /// Plugin rollback is not yet supported: always an error naming the
    /// vendor.
    pub fn rollback(&self) -> (r: Result<(), String>)
        ensures
            r matches Err(m) && m@ == "plugin driver from "@ + self.vendor@
                + " cannot perform rollback (not implemented)"@,
    {
        Err(
            concat3(
                "plugin driver from ",
                self.vendor.as_str(),
                " cannot perform rollback (not implemented)",
            ),
        )
    }
}

impl Clone for PluginDriverPlaceholder {
    /// An exact copy.
    fn clone(&self) -> (r: Self)
        ensures
            r == *self,
    {
        PluginDriverPlaceholder {
            vendor: self.vendor.clone(),
            device_type: self.device_type,
            capabilities: self.capabilities,
        }
    }
}

impl DeviceDriver for PluginDriverPlaceholder {
    open spec fn spec_name(&self) -> Seq<char> {
        "WASM Plugin Driver"@
    }

    open spec fn spec_device_type(&self) -> DeviceType {
        self.device_type
    }

    open spec fn spec_capabilities(&self) -> CapabilitySet {
        self.capabilities
    }

    fn device_type(&self) -> (t: DeviceType) {
        self.device_type
    }

    fn name(&self) -> &'static str {
        "WASM Plugin Driver"
    }

    fn capabilities(&self) -> (c: CapabilitySet) {
        self.capabilities
    }
}

/// One registered driver, whichever family it belongs to.
pub enum DriverHandle {
    CiscoIos(CiscoIosDriver),
    JuniperJunos(JuniperJunosDriver),
    GenericSsh(GenericSshDriver),
    AristaEos(AristaEosDriver),
    CiscoNxosApi(CiscoNxosApiDriver),
    MerakiCloud(MerakiCloudDriver),
    Mock(MockDriver),
    Plugin(PluginDriverPlaceholder),
}

/// The device type a handle serves.
pub open spec fn handle_device_type(h: DriverHandle) -> DeviceType {
    match h {
        DriverHandle::CiscoIos(_) => DeviceType::CiscoIos,
        DriverHandle::JuniperJunos(_) => DeviceType::JuniperJunos,
        DriverHandle::GenericSsh(_) => DeviceType::GenericSsh,
        DriverHandle::AristaEos(_) => DeviceType::AristaEos,
        DriverHandle::CiscoNxosApi(_) => DeviceType::CiscoNxosApi,
        DriverHandle::MerakiCloud(_) => DeviceType::MerakiCloud,
        DriverHandle::Mock(m) => m.device_type,
        DriverHandle::Plugin(p) => p.device_type,
    }
}

/// The display name of a handle's driver.
pub open spec fn handle_name(h: DriverHandle) -> Seq<char> {
    match h {
        DriverHandle::CiscoIos(d) => d.spec_name(),
        DriverHandle::JuniperJunos(d) => d.spec_name(),
        DriverHandle::GenericSsh(d) => d.spec_name(),
        DriverHandle::AristaEos(d) => d.spec_name(),
        DriverHandle::CiscoNxosApi(d) => d.spec_name(),
        DriverHandle::MerakiCloud(d) => d.spec_name(),
        DriverHandle::Mock(m) => m.spec_name(),
        DriverHandle::Plugin(p) => p.spec_name(),
    }
}

/// The capability flags a handle advertises.
pub open spec fn handle_capabilities(h: DriverHandle) -> CapabilitySet {
    match h {
        DriverHandle::CiscoIos(d) => d.spec_capabilities(),
        DriverHandle::JuniperJunos(d) => d.spec_capabilities(),
        DriverHandle::GenericSsh(d) => d.spec_capabilities(),
        DriverHandle::AristaEos(d) => d.spec_capabilities(),
        DriverHandle::CiscoNxosApi(d) => d.spec_capabilities(),
        DriverHandle::MerakiCloud(d) => d.spec_capabilities(),
        DriverHandle::Mock(m) => m.capabilities,
        DriverHandle::Plugin(p) => p.capabilities,
    }
}

impl DriverHandle {
    /// The device type this handle serves.
    pub fn device_type(&self) -> (t: DeviceType)
        ensures
            t == handle_device_type(*self),
    {
        match self {
            DriverHandle::CiscoIos(d) => d.device_type(),
            DriverHandle::JuniperJunos(d) => d.device_type(),
            DriverHandle::GenericSsh(d) => d.device_type(),
            DriverHandle::AristaEos(d) => d.device_type(),
            DriverHandle::CiscoNxosApi(d) => d.device_type(),
            DriverHandle::MerakiCloud(d) => d.device_type(),
            DriverHandle::Mock(m) => m.device_type(),
            DriverHandle::Plugin(p) => p.device_type(),
        }
    }

    /// The capability flags this handle advertises.
    pub fn capabilities(&self) -> (c: CapabilitySet)
        ensures
            c == handle_capabilities(*self),
    {
        match self {
            DriverHandle::CiscoIos(d) => d.capabilities(),
            DriverHandle::JuniperJunos(d) => d.capabilities(),
            DriverHandle::GenericSsh(d) => d.capabilities(),
            DriverHandle::AristaEos(d) => d.capabilities(),
            DriverHandle::CiscoNxosApi(d) => d.capabilities(),
            DriverHandle::MerakiCloud(d) => d.capabilities(),
            DriverHandle::Mock(m) => m.capabilities(),
            DriverHandle::Plugin(p) => p.capabilities(),
        }
    }

    /// The display name of this handle's driver.
    pub fn name(&self) -> (n: &'static str)
        ensures
            n@ == handle_name(*self),
    {
        match self {
            DriverHandle::CiscoIos(d) => d.name(),
            DriverHandle::JuniperJunos(d) => d.name(),
            DriverHandle::GenericSsh(d) => d.name(),
            DriverHandle::AristaEos(d) => d.name(),
            DriverHandle::CiscoNxosApi(d) => d.name(),
            DriverHandle::MerakiCloud(d) => d.name(),
            DriverHandle::Mock(m) => m.name(),
            DriverHandle::Plugin(p) => p.name(),
        }
    }
}

impl Clone for DriverHandle {
    /// An exact copy.
    fn clone(&self) -> (r: Self)
        ensures
            r == *self,
    {
        match self {
            DriverHandle::CiscoIos(d) => DriverHandle::CiscoIos(d.clone()),
            DriverHandle::JuniperJunos(d) => DriverHandle::JuniperJunos(d.clone()),
            DriverHandle::GenericSsh(d) => DriverHandle::GenericSsh(d.clone()),
            DriverHandle::AristaEos(d) => DriverHandle::AristaEos(d.clone()),
            DriverHandle::CiscoNxosApi(d) => DriverHandle::CiscoNxosApi(d.clone()),
            DriverHandle::MerakiCloud(d) => DriverHandle::MerakiCloud(d.clone()),
            DriverHandle::Mock(m) => DriverHandle::Mock(m.clone()),
            DriverHandle::Plugin(p) => DriverHandle::Plugin(p.clone()),
        }
    }
}

/// First handle that serves the device type, in registration order.
pub open spec fn find_spec(ds: Seq<DriverHandle>, t: DeviceType) -> Option<DriverHandle>
    decreases ds.len(),
{
    if ds.len() == 0 {
        None
    } else if handle_device_type(ds[0]) == t {
        Some(ds[0])
    } else {
        find_spec(ds.drop_first(), t)
    }
}

/// The flat list of registered drivers; lookup is first match wins.
pub struct DriverRegistry {
    pub drivers: Vec<DriverHandle>,
}

impl DriverRegistry {
    /// A registry over the given drivers, in order.
    pub fn new(drivers: Vec<DriverHandle>) -> (r: DriverRegistry)
        ensures
            r.drivers == drivers,
    {
        DriverRegistry { drivers }
    }

    /// The first registered driver for the device type, if any.
    pub fn find(&self, device_type: &DeviceType) -> (r: Option<DriverHandle>)
        ensures
            r == find_spec(self.drivers@, *device_type),
    {
        let mut i: usize = 0;
        proof {
            assert(self.drivers@.subrange(0, self.drivers@.len() as int) =~= self.drivers@);
        }
        while i < self.drivers.len()
            invariant
                i <= self.drivers@.len(),
                find_spec(self.drivers@, *device_type) == find_spec(
                    self.drivers@.subrange(i as int, self.drivers@.len() as int),
                    *device_type,
                ),
            decreases self.drivers@.len() - i,
        {
            let ghost rest = self.drivers@.subrange(i as int, self.drivers@.len() as int);
            let t = self.drivers[i].device_type();
            if t == *device_type {
                return Some(self.drivers[i].clone());
            }
            proof {
                assert(rest.drop_first() =~= self.drivers@.subrange(
                    i + 1 as int,
                    self.drivers@.len() as int,
                ));
            }
            i = i + 1;
        }
        None
    }
}

/// The mock handle for one device type.
pub open spec fn mock_handle(t: DeviceType) -> DriverHandle {
    DriverHandle::Mock(MockDriver { device_type: t, capabilities: caps_all(), label: "Mock Driver" })
}

/// A registry of mock drivers, one per built-in device type.
pub fn mock_driver_registry() -> (r: DriverRegistry)
    ensures
        r.drivers@ == seq![
            mock_handle(DeviceType::CiscoIos),
            mock_handle(DeviceType::JuniperJunos),
            mock_handle(DeviceType::GenericSsh),
            mock_handle(DeviceType::AristaEos),
            mock_handle(DeviceType::CiscoNxosApi),
            mock_handle(DeviceType::MerakiCloud),
        ],
{
    let mut drivers: Vec<DriverHandle> = Vec::new();
    drivers.push(DriverHandle::Mock(MockDriver::new(DeviceType::CiscoIos)));
    drivers.push(DriverHandle::Mock(MockDriver::new(DeviceType::JuniperJunos)));
    drivers.push(DriverHandle::Mock(MockDriver::new(DeviceType::GenericSsh)));
    drivers.push(DriverHandle::Mock(MockDriver::new(DeviceType::AristaEos)));
    drivers.push(DriverHandle::Mock(MockDriver::new(DeviceType::CiscoNxosApi)));
    drivers.push(DriverHandle::Mock(MockDriver::new(DeviceType::MerakiCloud)));
    proof {
        assert(drivers@ =~= seq![
            mock_handle(DeviceType::CiscoIos),
            mock_handle(DeviceType::JuniperJunos),
            mock_handle(DeviceType::GenericSsh),
            mock_handle(DeviceType::AristaEos),
            mock_handle(DeviceType::CiscoNxosApi),
            mock_handle(DeviceType::MerakiCloud),
        ]);
    }
    DriverRegistry::new(drivers)
}

/// The device types of the built-in drivers, in registration order.
pub open spec fn builtin_order() -> Seq<DeviceType> {
    seq![
        DeviceType::CiscoIos,
        DeviceType::JuniperJunos,
        DeviceType::GenericSsh,
        DeviceType::AristaEos,
        DeviceType::CiscoNxosApi,
        DeviceType::MerakiCloud,
    ]
}

/// The registry of drivers: the six live built-ins, or six mocks when
/// asked for (the environment toggle is read by the caller).
pub fn driver_registry(use_mocks: bool) -> (r: DriverRegistry)
    ensures
        r.drivers@.len() == 6,
        forall|i: int|
            0 <= i < 6 ==> handle_device_type(#[trigger] r.drivers@[i]) == builtin_order()[i],
        use_mocks ==> forall|i: int| 0 <= i < 6 ==> (#[trigger] r.drivers@[i]) is Mock,
        !use_mocks ==> {
            &&& r.drivers@[0] is CiscoIos
            &&& r.drivers@[1] is JuniperJunos
            &&& r.drivers@[2] is GenericSsh
            &&& r.drivers@[3] is AristaEos
            &&& r.drivers@[4] is CiscoNxosApi
            &&& r.drivers@[5] is MerakiCloud
        },
{
    if use_mocks {
        mock_driver_registry()
    } else {
        let mut drivers: Vec<DriverHandle> = Vec::new();
        drivers.push(DriverHandle::CiscoIos(CiscoIosDriver::default()));
        drivers.push(DriverHandle::JuniperJunos(JuniperJunosDriver::default()));
        drivers.push(DriverHandle::GenericSsh(GenericSshDriver::default()));
        drivers.push(DriverHandle::AristaEos(AristaEosDriver::default()));
        drivers.push(DriverHandle::CiscoNxosApi(CiscoNxosApiDriver::default()));
        drivers.push(DriverHandle::MerakiCloud(MerakiCloudDriver::default()));
        DriverRegistry::new(drivers)
    }
}

/// A type is already served by some registered handle.
pub open spec fn registry_claims(ds: Seq<DriverHandle>, t: DeviceType) -> bool {
    exists|i: int| 0 <= i < ds.len() && handle_device_type(ds[i]) == t
}

fn registry_claims_exec(ds: &Vec<DriverHandle>, t: DeviceType) -> (r: bool)
    ensures
        r == registry_claims(ds@, t),
{
    let mut i: usize = 0;
    while i < ds.len()
        invariant
            i <= ds@.len(),
            forall|k: int| 0 <= k < i ==> handle_device_type(ds@[k]) != t,
        decreases ds@.len() - i,
    {
        let dt = ds[i].device_type();
        if dt == t {
            return true;
        }
        i = i + 1;
    }
    proof {
        if registry_claims(ds@, t) {
            let k = choose|k: int| 0 <= k < ds@.len() && handle_device_type(ds@[k]) == t;
        }
    }
    false
}

/// The handle a plugin descriptor contributes for a parsed device type.
pub open spec fn plugin_handle_spec(d: PluginDriverDescriptor, t: DeviceType) -> DriverHandle {
    DriverHandle::Plugin(
        PluginDriverPlaceholder {
            vendor: d.vendor,
            device_type: t,
            capabilities: mask_to_set_spec(d.capabilities),
        },
    )
}

/// The driver list after considering the plugin descriptors, in order: a
/// descriptor whose type does not parse, whose type a registered driver
/// already claims, or that arrives while plugins are disabled, is
/// skipped; the rest append placeholders.
pub open spec fn extend_spec(
    drivers: Seq<DriverHandle>,
    descs: Seq<PluginDriverDescriptor>,
    enable: bool,
) -> Seq<DriverHandle>
    decreases descs.len(),
{
    if descs.len() == 0 {
        drivers
    } else {
        let next = match crate::model::parse_device_type_spec(descs[0].device_type@) {
            Some(t) => if registry_claims(drivers, t) || !enable {
                drivers
            } else {
                drivers.push(plugin_handle_spec(descs[0], t))
            },
            None => drivers,
        };
        extend_spec(next, descs.drop_first(), enable)
    }
}

/// Appends placeholders for plugin drivers whose declared device type
/// parses and is not already claimed by a registered driver.  With
/// plugins disabled the list is returned unchanged.
pub fn extend_with_plugin_drivers(
    drivers: &mut Vec<DriverHandle>,
    descriptors: &Vec<PluginDriverDescriptor>,
    enable_plugins: bool,
)
    ensures
        final(drivers)@ == extend_spec(old(drivers)@, descriptors@, enable_plugins),
{
    let ghost orig = drivers@;
    let ghost all = descriptors@;
    let mut i: usize = 0;
    proof {
        assert(all.subrange(0, all.len() as int) =~= all);
    }
    while i < descriptors.len()
        invariant
            all == descriptors@,
            i <= all.len(),
            extend_spec(orig, all, enable_plugins) == extend_spec(
                drivers@,
                all.subrange(i as int, all.len() as int),
                enable_plugins,
            ),
        decreases all.len() - i,
    {
        let ghost rest = all.subrange(i as int, all.len() as int);
        proof {
            assert(rest[0] == all[i as int]);
            assert(rest.drop_first() =~= all.subrange(i + 1 as int, all.len() as int));
        }
        match DeviceType::parse(descriptors[i].device_type.as_str()) {
            Some(t) => {
                let claimed = registry_claims_exec(drivers, t);
                if !claimed && enable_plugins {
                    let placeholder = PluginDriverPlaceholder::new(&descriptors[i], t);
                    drivers.push(DriverHandle::Plugin(placeholder));
                }
            },
            None => {},
        }
        i = i + 1;
    }
}

} // verus!
