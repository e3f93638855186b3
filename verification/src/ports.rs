//! What the program needs from the outside, and how the outside fails.
use vstd::prelude::*;
use vstd::string::*;

use crate::domain::{
    ControlCapability, InputMode, IpAddr, SessionRole, StreamProfile, WindowSelector,
};
use crate::ids::NodeId;
use crate::seqs::lemma_concat_contains;
use crate::strings::{
    ascii_alphanumeric, byte_count, byte_len, chars_of, every_char, is_ascii_alphanumeric, same_text,
};

verus! {

pub type PortResult<T> = Result<T, PortError>;

/// A failure: a code by which it is told apart, a detail for the log, and whether trying again
/// may help.
#[derive(Debug, PartialEq, Eq)]
pub struct PortError {
    pub code: &'static str,
    pub message: String,
    pub retryable: bool,
}

pub struct PortErrorView {
    pub code: Seq<char>,
    pub message: Seq<char>,
    pub retryable: bool,
}

impl Clone for PortError {
    fn clone(&self) -> (r: Self)
        ensures
            r@ == self@,
    {
        PortError { code: self.code, message: self.message.clone(), retryable: self.retryable }
    }
}

impl View for PortError {
    type V = PortErrorView;

    open spec fn view(&self) -> PortErrorView {
        PortErrorView { code: self.code@, message: self.message@, retryable: self.retryable }
    }
}

pub open spec fn port_error(code: Seq<char>, message: Seq<char>, retryable: bool) -> PortErrorView {
    PortErrorView { code, message, retryable }
}

/// A result with its error taken by its view.
pub open spec fn outcome<T>(r: Result<T, PortError>) -> Result<T, PortErrorView> {
    match r {
        Ok(value) => Ok(value),
        Err(error) => Err(error@),
    }
}

/// What a person is told about a failure. It depends on the code alone.
pub open spec fn user_text(code: Seq<char>) -> Seq<char> {
    if code == "AGENT_UNREACHABLE"@ {
        "This device could not be reached. Check that it is online and connected to Tailscale."@
    } else if code == "AGENT_PROTOCOL_INVALID"@ {
        "This device sent an unexpected response. Make sure Omdesky is up to date on both devices."@
    } else if code == "AGENT_REQUEST_FAILED"@ {
        "The other device could not complete the request. Please try again."@
    } else if code == "UNAUTHORIZED"@ {
        "This device is not allowed to connect. Add it to the allowed controllers first."@
    } else if code == "HYPRLAND_UNAVAILABLE"@ || code == "HYPRLAND_DISPATCH_FAILED"@ {
        "The desktop could not be controlled. Make sure Hyprland is running."@
    } else if code == "HYPRLAND_TARGET_MISSING"@ || code == "WINDOW_NOT_FOUND"@ {
        "The requested window is no longer available."@
    } else if code == "WORKSPACE_NOT_FOUND"@ {
        "The requested workspace could not be found."@
    } else if code == "DISPLAY_NOT_FOUND"@ || code == "DISPLAY_SWITCH_FAILED"@ {
        "The requested display is not available for streaming."@
    } else if code == "SUNSHINE_NOT_INSTALLED"@ {
        "Sunshine is not installed on the device you are trying to connect to."@
    } else if code == "SUNSHINE_NOT_RUNNING"@ {
        "Sunshine is not running on the device you are trying to connect to."@
    } else if code == "SUNSHINE_NOT_READY"@ {
        "The other device is not ready to stream yet. Check Sunshine and try again."@
    } else if code == "SUNSHINE_API_UNAVAILABLE"@ {
        "Sunshine needs to be configured on the other device before pairing."@
    } else if code == "SUNSHINE_PAIRING_FAILED"@ || code == "MOONLIGHT_PAIRING_FAILED"@ {
        "The devices could not be paired. Check Sunshine and try again."@
    } else if code == "MOONLIGHT_PAIRING_REQUIRED"@ {
        "This device is not paired yet. Run `omdesky pair` first."@
    } else if code == "MOONLIGHT_NOT_INSTALLED"@ {
        "Moonlight is not installed on this device."@
    } else if code == "STREAM_START_FAILED"@ {
        "The stream could not be started. Check Moonlight and try again."@
    } else if code == "LOCAL_AGENT_UNAVAILABLE"@ {
        "The local Omdesky agent is not running. Start omdesky-agent and try again."@
    } else if code == "REMOTE_AGENT_UNAVAILABLE"@ {
        "The remote Omdesky agent stopped responding. The stream was closed."@
    } else if code == "VERSION_INCOMPATIBLE"@ {
        "The other device runs a different Omdesky release. Install the same version on both computers."@
    } else if code == "LOCAL_AGENT_INCOMPATIBLE"@ {
        "The local Omdesky agent runs a different release. Restart omdesky-agent after upgrading."@
    } else if code == "CAPABILITY_DENIED"@ {
        "The other device does not allow this action. Grant it there with `omdesky access allow`."@
    } else if code == "CALLBACK_ACCESS_MISSING"@ {
        "This computer does not let the other device send shortcuts back. Run `omdesky access allow` here, naming the other device."@
    } else if code == "CONTROLLER_UNREACHABLE"@ {
        "The other device could not reach this computer's agent. Check that omdesky-agent is running here."@
    } else if code == "PEER_IDENTITY_UNKNOWN"@ {
        "The other device could not be identified through Tailscale."@
    } else if code == "LOCAL_SUNSHINE_UNCONFIGURED"@ {
        "Sunshine is not configured on this device. Run `omdesky setup` and try again."@
    } else if code == "ACCESS_STORE_FAILED"@ {
        "The allowed devices list could not be updated. Check its file permissions."@
    } else if code == "OMARCHY_UNSUPPORTED_VERSION"@ {
        "This Omarchy version is not supported. Omarchy 4 is required."@
    } else if code == "OMARCHY_VERSION_UNKNOWN"@ {
        "The installed Omarchy version could not be detected."@
    } else if code == "COMMAND_TIMED_OUT"@ {
        "The operation took too long. Please try again."@
    } else if code == "COMMAND_NOT_AVAILABLE"@ {
        "A required program is not installed or could not be started."@
    } else if code == "INVALID_COMMAND"@ || code == "COMMAND_NOT_EXECUTABLE"@ || code == "INVALID_SESSION_TRANSITION"@ {
        "This action is not available right now."@
    } else if code == "LAUNCHER_IO_FAILED"@ {
        "The desktop shortcut could not be updated. Check the file permissions."@
    } else {
        "Omdesky could not complete the operation. Please try again."@
    }
}

impl PortError {
    pub fn new(code: &'static str, message: String, retryable: bool) -> (r: Self)
        ensures
            r@ == port_error(code@, message@, retryable),
            r.code == code,
            r.message == message,
    {
        PortError { code, message, retryable }
    }

    /// The same with a message that is a literal.
    pub fn plain(code: &'static str, message: &str, retryable: bool) -> (r: Self)
        ensures
            r@ == port_error(code@, message@, retryable),
            r.code == code,
    {
        PortError { code, message: message.to_owned(), retryable }
    }

    pub fn user_message(&self) -> (r: &'static str)
        ensures
            r@ == user_text(self@.code),
    {
        let code = self.code;
        if same_text(code, "AGENT_UNREACHABLE") {
            return "This device could not be reached. Check that it is online and connected to Tailscale.";
        }
        if same_text(code, "AGENT_PROTOCOL_INVALID") {
            return "This device sent an unexpected response. Make sure Omdesky is up to date on both devices.";
        }
        if same_text(code, "AGENT_REQUEST_FAILED") {
            return "The other device could not complete the request. Please try again.";
        }
        if same_text(code, "UNAUTHORIZED") {
            return "This device is not allowed to connect. Add it to the allowed controllers first.";
        }
        if same_text(code, "HYPRLAND_UNAVAILABLE") || same_text(code, "HYPRLAND_DISPATCH_FAILED") {
            return "The desktop could not be controlled. Make sure Hyprland is running.";
        }
        if same_text(code, "HYPRLAND_TARGET_MISSING") || same_text(code, "WINDOW_NOT_FOUND") {
            return "The requested window is no longer available.";
        }
        if same_text(code, "WORKSPACE_NOT_FOUND") {
            return "The requested workspace could not be found.";
        }
        if same_text(code, "DISPLAY_NOT_FOUND") || same_text(code, "DISPLAY_SWITCH_FAILED") {
            return "The requested display is not available for streaming.";
        }
        if same_text(code, "SUNSHINE_NOT_INSTALLED") {
            return "Sunshine is not installed on the device you are trying to connect to.";
        }
        if same_text(code, "SUNSHINE_NOT_RUNNING") {
            return "Sunshine is not running on the device you are trying to connect to.";
        }
        if same_text(code, "SUNSHINE_NOT_READY") {
            return "The other device is not ready to stream yet. Check Sunshine and try again.";
        }
        if same_text(code, "SUNSHINE_API_UNAVAILABLE") {
            return "Sunshine needs to be configured on the other device before pairing.";
        }
        if same_text(code, "SUNSHINE_PAIRING_FAILED") || same_text(code, "MOONLIGHT_PAIRING_FAILED") {
            return "The devices could not be paired. Check Sunshine and try again.";
        }
        if same_text(code, "MOONLIGHT_PAIRING_REQUIRED") {
            return "This device is not paired yet. Run `omdesky pair` first.";
        }
        if same_text(code, "MOONLIGHT_NOT_INSTALLED") {
            return "Moonlight is not installed on this device.";
        }
        if same_text(code, "STREAM_START_FAILED") {
            return "The stream could not be started. Check Moonlight and try again.";
        }
        if same_text(code, "LOCAL_AGENT_UNAVAILABLE") {
            return "The local Omdesky agent is not running. Start omdesky-agent and try again.";
        }
        if same_text(code, "REMOTE_AGENT_UNAVAILABLE") {
            return "The remote Omdesky agent stopped responding. The stream was closed.";
        }
        if same_text(code, "VERSION_INCOMPATIBLE") {
            return "The other device runs a different Omdesky release. Install the same version on both computers.";
        }
        if same_text(code, "LOCAL_AGENT_INCOMPATIBLE") {
            return "The local Omdesky agent runs a different release. Restart omdesky-agent after upgrading.";
        }
        if same_text(code, "CAPABILITY_DENIED") {
            return "The other device does not allow this action. Grant it there with `omdesky access allow`.";
        }
        if same_text(code, "CALLBACK_ACCESS_MISSING") {
            return "This computer does not let the other device send shortcuts back. Run `omdesky access allow` here, naming the other device.";
        }
        if same_text(code, "CONTROLLER_UNREACHABLE") {
            return "The other device could not reach this computer's agent. Check that omdesky-agent is running here.";
        }
        if same_text(code, "PEER_IDENTITY_UNKNOWN") {
            return "The other device could not be identified through Tailscale.";
        }
        if same_text(code, "LOCAL_SUNSHINE_UNCONFIGURED") {
            return "Sunshine is not configured on this device. Run `omdesky setup` and try again.";
        }
        if same_text(code, "ACCESS_STORE_FAILED") {
            return "The allowed devices list could not be updated. Check its file permissions.";
        }
        if same_text(code, "OMARCHY_UNSUPPORTED_VERSION") {
            return "This Omarchy version is not supported. Omarchy 4 is required.";
        }
        if same_text(code, "OMARCHY_VERSION_UNKNOWN") {
            return "The installed Omarchy version could not be detected.";
        }
        if same_text(code, "COMMAND_TIMED_OUT") {
            return "The operation took too long. Please try again.";
        }
        if same_text(code, "COMMAND_NOT_AVAILABLE") {
            return "A required program is not installed or could not be started.";
        }
        if same_text(code, "INVALID_COMMAND") || same_text(code, "COMMAND_NOT_EXECUTABLE") || same_text(code, "INVALID_SESSION_TRANSITION") {
            return "This action is not available right now.";
        }
        if same_text(code, "LAUNCHER_IO_FAILED") {
            return "The desktop shortcut could not be updated. Check the file permissions.";
        }
        "Omdesky could not complete the operation. Please try again."
    }

    pub fn has_code(&self, code: &str) -> (r: bool)
        ensures
            r == (self@.code == code@),
    {
        same_text(self.code, code)
    }
}

/// What a person is told does not depend on the detail: no part of it can reach them.
pub proof fn law_user_text_hides_the_detail(a: PortErrorView, b: PortErrorView)
    requires
        a.code == b.code,
    ensures
        user_text(a.code) == user_text(b.code),
{
}

/// Who a machine of the tailnet is.
#[derive(Debug, PartialEq, Eq)]
pub struct MeshNodeIdentity {
    pub tailnet_node_id: String,
    pub user: Option<String>,
    pub hostname: Option<String>,
    pub addresses: Vec<IpAddr>,
}

#[derive(Clone, Copy, Debug, PartialEq, Eq, Structural)]
pub struct AgentEndpoint {
    pub address: IpAddr,
    pub port: u16,
}

/// The machine and the application that Moonlight streams.
#[derive(Debug, PartialEq, Eq)]
pub struct StreamHostDescriptor {
    pub address: IpAddr,
    pub application: String,
}

pub const MAX_STREAM_APPLICATION_BYTES: usize = 64;

pub open spec fn application_char(c: char) -> bool {
    ascii_alphanumeric(c) || c == ' ' || c == '.' || c == '_' || c == '-'
}

fn is_application_char(c: char) -> (r: bool)
    ensures
        r == application_char(c),
{
    is_ascii_alphanumeric(c) || c == ' ' || c == '.' || c == '_' || c == '-'
}

/// An application name that may stand as an argument of a command: it cannot be read as an option.
pub open spec fn valid_application(name: Seq<char>) -> bool {
    &&& name.len() > 0
    &&& byte_len(name) <= MAX_STREAM_APPLICATION_BYTES
    &&& name[0] != '-'
    &&& forall|i: int| 0 <= i < name.len() ==> application_char(#[trigger] name[i])
}

impl StreamHostDescriptor {
    pub open spec fn checked(self) -> Result<(), PortErrorView> {
        if valid_application(self.application@) {
            Ok(())
        } else {
            Err(
                port_error(
                    "INVALID_STREAM_APPLICATION"@,
                    "the remote node advertised an unusable streaming application name"@,
                    false,
                ),
            )
        }
    }

    pub fn validate(&self) -> (r: PortResult<()>)
        ensures
            outcome(r) == self.checked(),
    {
        let name = self.application.as_str();
        let accepted = !name.is_empty() && byte_count(name) <= MAX_STREAM_APPLICATION_BYTES
            && chars_of(name)[0] != '-' && every_char(
            name,
            is_application_char,
            Ghost(|c: char| application_char(c)),
        );
        if accepted {
            Ok(())
        } else {
            Err(
                PortError::plain(
                    "INVALID_STREAM_APPLICATION",
                    "the remote node advertised an unusable streaming application name",
                    false,
                ),
            )
        }
    }
}

#[derive(Clone, Copy, Debug, PartialEq, Eq, Structural)]
pub enum PairingState {
    Paired,
    Required,
    Unsupported,
}

#[derive(Debug, PartialEq, Eq)]
pub struct PendingPairing {
    pub pin: String,
}

#[derive(Debug, PartialEq, Eq)]
pub struct StreamLaunchRequest {
    pub host: StreamHostDescriptor,
    pub profile: StreamProfile,
    pub fullscreen: bool,
    pub input_mode: InputMode,
}

#[derive(Debug, PartialEq, Eq)]
pub struct HostReadiness {
    pub installed: bool,
    pub running: bool,
    pub capture_ready: bool,
    pub input_ready: bool,
    pub exposure_warning: Option<String>,
}

#[derive(Debug, PartialEq, Eq)]
pub struct Notification {
    pub summary: String,
    pub body: String,
}

/// A computer that may control this one, and what it may do. The time of entry is in nanoseconds
/// since the Unix epoch.
#[derive(Debug, PartialEq, Eq)]
pub struct AllowedController {
    pub tailnet_node_id: String,
    pub label: Option<String>,
    pub added_at: i128,
    pub capabilities: Vec<ControlCapability>,
}

pub open spec fn if_held(held: Seq<ControlCapability>, capability: ControlCapability) -> Seq<
    ControlCapability,
> {
    if held.contains(capability) {
        seq![capability]
    } else {
        seq![]
    }
}

/// The capabilities that occur in `held`, in their order, each once.
pub open spec fn ordered_capabilities(held: Seq<ControlCapability>) -> Seq<ControlCapability> {
    if_held(held, ControlCapability::ReadMetadata) + if_held(held, ControlCapability::FocusWorkspace)
        + if_held(held, ControlCapability::ControlSession) + if_held(
        held,
        ControlCapability::SendShortcut,
    ) + if_held(held, ControlCapability::CloseStream) + if_held(
        held,
        ControlCapability::ApprovePairing,
    )
}

pub fn holds_capability(held: &Vec<ControlCapability>, capability: ControlCapability) -> (r: bool)
    ensures
        r == held@.contains(capability),
{
    let mut i: usize = 0;
    while i < held.len()
        invariant
            i <= held@.len(),
            forall|k: int| 0 <= k < i ==> held@[k] != capability,
        decreases held@.len() - i,
    {
        if held[i] == capability {
            return true;
        }
        i += 1;
    }
    false
}

fn push_if_held(out: &mut Vec<ControlCapability>, held: &Vec<ControlCapability>, capability: ControlCapability)
    ensures
        final(out)@ == old(out)@ + if_held(held@, capability),
{
    if holds_capability(held, capability) {
        out.push(capability);
    }
    assert(out@ =~= old(out)@ + if_held(held@, capability));
}

pub fn order_capabilities(held: &Vec<ControlCapability>) -> (r: Vec<ControlCapability>)
    ensures
        r@ == ordered_capabilities(held@),
{
    let mut out: Vec<ControlCapability> = Vec::new();
    push_if_held(&mut out, held, ControlCapability::ReadMetadata);
    push_if_held(&mut out, held, ControlCapability::FocusWorkspace);
    push_if_held(&mut out, held, ControlCapability::ControlSession);
    push_if_held(&mut out, held, ControlCapability::SendShortcut);
    push_if_held(&mut out, held, ControlCapability::CloseStream);
    push_if_held(&mut out, held, ControlCapability::ApprovePairing);
    assert(out@ =~= ordered_capabilities(held@));
    out
}

/// Ordering the capabilities neither grants nor withholds one.
pub proof fn law_ordering_keeps_capabilities(held: Seq<ControlCapability>, capability: ControlCapability)
    ensures
        ordered_capabilities(held).contains(capability) <==> held.contains(capability),
{
    let a = if_held(held, ControlCapability::ReadMetadata);
    let b = if_held(held, ControlCapability::FocusWorkspace);
    let c = if_held(held, ControlCapability::ControlSession);
    let d = if_held(held, ControlCapability::SendShortcut);
    let e = if_held(held, ControlCapability::CloseStream);
    let f = if_held(held, ControlCapability::ApprovePairing);
    lemma_concat_contains(a, b, capability);
    lemma_concat_contains(a + b, c, capability);
    lemma_concat_contains(a + b + c, d, capability);
    lemma_concat_contains(a + b + c + d, e, capability);
    lemma_concat_contains(a + b + c + d + e, f, capability);
    lemma_if_held_contains(held, ControlCapability::ReadMetadata, capability);
    lemma_if_held_contains(held, ControlCapability::FocusWorkspace, capability);
    lemma_if_held_contains(held, ControlCapability::ControlSession, capability);
    lemma_if_held_contains(held, ControlCapability::SendShortcut, capability);
    lemma_if_held_contains(held, ControlCapability::CloseStream, capability);
    lemma_if_held_contains(held, ControlCapability::ApprovePairing, capability);
}

proof fn lemma_if_held_contains(
    held: Seq<ControlCapability>,
    candidate: ControlCapability,
    capability: ControlCapability,
)
    ensures
        if_held(held, candidate).contains(capability) <==> candidate == capability && held.contains(
            capability,
        ),
{
    let s = if_held(held, candidate);
    if candidate == capability && held.contains(capability) {
        assert(s[0] == capability);
    }
}

impl AllowedController {
    pub fn new(
        tailnet_node_id: String,
        label: Option<String>,
        added_at: i128,
        capabilities: Vec<ControlCapability>,
    ) -> (r: Self)
        ensures
            r.tailnet_node_id == tailnet_node_id,
            r.label == label,
            r.added_at == added_at,
            r.capabilities@ == ordered_capabilities(capabilities@),
    {
        AllowedController {
            tailnet_node_id,
            label,
            added_at,
            capabilities: order_capabilities(&capabilities),
        }
    }

    pub open spec fn spec_allows(self, capability: ControlCapability) -> bool {
        self.capabilities@.contains(capability)
    }

    pub fn allows(&self, capability: ControlCapability) -> (r: bool)
        ensures
            r == self.spec_allows(capability),
    {
        holds_capability(&self.capabilities, capability)
    }
}

#[derive(Debug, PartialEq, Eq)]
pub struct LauncherSpec {
    pub node_id: NodeId,
    pub display_name: String,
    pub aliases: Vec<String>,
}

/// A program to run. The environment holds names with their values.
#[derive(Debug, PartialEq, Eq)]
pub struct CommandSpec {
    pub program: String,
    pub args: Vec<String>,
    pub environment: Vec<(String, String)>,
    pub working_directory: Option<String>,
    pub timeout_millis: u64,
    pub stdout_limit: usize,
    pub stderr_limit: usize,
    pub environment_policy: EnvironmentPolicy,
    pub stdin: StdinPolicy,
    pub capture: CapturePolicy,
    pub redacted_arg_indexes: Vec<usize>,
}

impl CommandSpec {
    /// Everything but the program and its arguments is as it is for a new command.
    pub open spec fn has_default_limits(self) -> bool {
        &&& self.environment@.len() == 0
        &&& self.working_directory is None
        &&& self.timeout_millis == 10_000
        &&& self.stdout_limit == 1024 * 1024
        &&& self.stderr_limit == 64 * 1024
        &&& self.stdin == StdinPolicy::Null
        &&& self.capture == CapturePolicy::Both
        &&& self.redacted_arg_indexes@.len() == 0
    }

    pub fn new(program: String, args: Vec<String>) -> (r: Self)
        ensures
            r.program == program,
            r.args == args,
            r.has_default_limits(),
            r.environment_policy == EnvironmentPolicy::Session,
    {
        CommandSpec {
            program,
            args,
            environment: Vec::new(),
            working_directory: None,
            timeout_millis: 10_000,
            stdout_limit: 1024 * 1024,
            stderr_limit: 64 * 1024,
            environment_policy: EnvironmentPolicy::Session,
            stdin: StdinPolicy::Null,
            capture: CapturePolicy::Both,
            redacted_arg_indexes: Vec::new(),
        }
    }

    pub fn with_environment_policy(self, policy: EnvironmentPolicy) -> (r: Self)
        ensures
            r == (CommandSpec { environment_policy: policy, ..self }),
    {
        let mut spec = self;
        spec.environment_policy = policy;
        spec
    }
}

#[derive(Clone, Copy, Debug, PartialEq, Eq, Structural)]
pub enum EnvironmentPolicy {
    Session,
    Inherited,
    Empty,
}

impl Default for EnvironmentPolicy {
    fn default() -> (r: Self)
        ensures
            r == EnvironmentPolicy::Session,
    {
        EnvironmentPolicy::Session
    }
}

#[derive(Clone, Copy, Debug, PartialEq, Eq, Structural)]
pub enum StdinPolicy {
    Null,
    Inherit,
}

#[derive(Clone, Copy, Debug, PartialEq, Eq, Structural)]
pub enum CapturePolicy {
    Both,
    Inherit,
    Discard,
}

#[derive(Debug, PartialEq, Eq)]
pub struct CommandOutput {
    pub status: i32,
    pub stdout: Vec<u8>,
    pub stderr: Vec<u8>,
}

/// What the key bindings of a session need to know.
#[derive(Debug, PartialEq, Eq)]
pub struct SessionKeybindConfig {
    pub role: SessionRole,
    pub controller: Option<AgentEndpoint>,
    pub window: WindowSelector,
}

/// What a person is told of each failure. It is told by the code alone, and a code without words of
/// its own has the last ones.
#[verifier::rlimit(60)]
pub proof fn law_a_person_is_told_by_the_code(error: PortError, r: &'static str)
    requires
        call_ensures(PortError::user_message, (&error,), r),
    ensures
        error.code@ == "AGENT_UNREACHABLE"@ ==> r@ == "This device could not be reached. Check that it is online and connected to Tailscale."@,
        error.code@ == "AGENT_PROTOCOL_INVALID"@ ==> r@ == "This device sent an unexpected response. Make sure Omdesky is up to date on both devices."@,
        error.code@ == "AGENT_REQUEST_FAILED"@ ==> r@ == "The other device could not complete the request. Please try again."@,
        error.code@ == "UNAUTHORIZED"@ ==> r@ == "This device is not allowed to connect. Add it to the allowed controllers first."@,
        error.code@ == "HYPRLAND_UNAVAILABLE"@ ==> r@ == "The desktop could not be controlled. Make sure Hyprland is running."@,
        error.code@ == "HYPRLAND_DISPATCH_FAILED"@ ==> r@ == "The desktop could not be controlled. Make sure Hyprland is running."@,
        error.code@ == "HYPRLAND_TARGET_MISSING"@ ==> r@ == "The requested window is no longer available."@,
        error.code@ == "WINDOW_NOT_FOUND"@ ==> r@ == "The requested window is no longer available."@,
        error.code@ == "WORKSPACE_NOT_FOUND"@ ==> r@ == "The requested workspace could not be found."@,
        error.code@ == "DISPLAY_NOT_FOUND"@ ==> r@ == "The requested display is not available for streaming."@,
        error.code@ == "DISPLAY_SWITCH_FAILED"@ ==> r@ == "The requested display is not available for streaming."@,
        error.code@ == "SUNSHINE_NOT_INSTALLED"@ ==> r@ == "Sunshine is not installed on the device you are trying to connect to."@,
        error.code@ == "SUNSHINE_NOT_RUNNING"@ ==> r@ == "Sunshine is not running on the device you are trying to connect to."@,
        error.code@ == "SUNSHINE_NOT_READY"@ ==> r@ == "The other device is not ready to stream yet. Check Sunshine and try again."@,
        error.code@ == "SUNSHINE_API_UNAVAILABLE"@ ==> r@ == "Sunshine needs to be configured on the other device before pairing."@,
        error.code@ == "SUNSHINE_PAIRING_FAILED"@ ==> r@ == "The devices could not be paired. Check Sunshine and try again."@,
        error.code@ == "MOONLIGHT_PAIRING_FAILED"@ ==> r@ == "The devices could not be paired. Check Sunshine and try again."@,
        error.code@ == "MOONLIGHT_PAIRING_REQUIRED"@ ==> r@ == "This device is not paired yet. Run `omdesky pair` first."@,
        error.code@ == "MOONLIGHT_NOT_INSTALLED"@ ==> r@ == "Moonlight is not installed on this device."@,
        error.code@ == "STREAM_START_FAILED"@ ==> r@ == "The stream could not be started. Check Moonlight and try again."@,
        error.code@ == "LOCAL_AGENT_UNAVAILABLE"@ ==> r@ == "The local Omdesky agent is not running. Start omdesky-agent and try again."@,
        error.code@ == "REMOTE_AGENT_UNAVAILABLE"@ ==> r@ == "The remote Omdesky agent stopped responding. The stream was closed."@,
        error.code@ == "VERSION_INCOMPATIBLE"@ ==> r@ == "The other device runs a different Omdesky release. Install the same version on both computers."@,
        error.code@ == "LOCAL_AGENT_INCOMPATIBLE"@ ==> r@ == "The local Omdesky agent runs a different release. Restart omdesky-agent after upgrading."@,
        error.code@ == "CAPABILITY_DENIED"@ ==> r@ == "The other device does not allow this action. Grant it there with `omdesky access allow`."@,
        error.code@ == "CALLBACK_ACCESS_MISSING"@ ==> r@ == "This computer does not let the other device send shortcuts back. Run `omdesky access allow` here, naming the other device."@,
        error.code@ == "CONTROLLER_UNREACHABLE"@ ==> r@ == "The other device could not reach this computer's agent. Check that omdesky-agent is running here."@,
        error.code@ == "PEER_IDENTITY_UNKNOWN"@ ==> r@ == "The other device could not be identified through Tailscale."@,
        error.code@ == "LOCAL_SUNSHINE_UNCONFIGURED"@ ==> r@ == "Sunshine is not configured on this device. Run `omdesky setup` and try again."@,
        error.code@ == "ACCESS_STORE_FAILED"@ ==> r@ == "The allowed devices list could not be updated. Check its file permissions."@,
        error.code@ == "OMARCHY_UNSUPPORTED_VERSION"@ ==> r@ == "This Omarchy version is not supported. Omarchy 4 is required."@,
        error.code@ == "OMARCHY_VERSION_UNKNOWN"@ ==> r@ == "The installed Omarchy version could not be detected."@,
        error.code@ == "COMMAND_TIMED_OUT"@ ==> r@ == "The operation took too long. Please try again."@,
        error.code@ == "COMMAND_NOT_AVAILABLE"@ ==> r@ == "A required program is not installed or could not be started."@,
        error.code@ == "INVALID_COMMAND"@ ==> r@ == "This action is not available right now."@,
        error.code@ == "COMMAND_NOT_EXECUTABLE"@ ==> r@ == "This action is not available right now."@,
        error.code@ == "INVALID_SESSION_TRANSITION"@ ==> r@ == "This action is not available right now."@,
        error.code@ == "LAUNCHER_IO_FAILED"@ ==> r@ == "The desktop shortcut could not be updated. Check the file permissions."@,
        error.code@ != "AGENT_UNREACHABLE"@ && error.code@ != "AGENT_PROTOCOL_INVALID"@ && error.code@ != "AGENT_REQUEST_FAILED"@ && error.code@ != "UNAUTHORIZED"@ && error.code@ != "HYPRLAND_UNAVAILABLE"@ && error.code@ != "HYPRLAND_DISPATCH_FAILED"@ && error.code@ != "HYPRLAND_TARGET_MISSING"@ && error.code@ != "WINDOW_NOT_FOUND"@ && error.code@ != "WORKSPACE_NOT_FOUND"@ && error.code@ != "DISPLAY_NOT_FOUND"@ && error.code@ != "DISPLAY_SWITCH_FAILED"@ && error.code@ != "SUNSHINE_NOT_INSTALLED"@ && error.code@ != "SUNSHINE_NOT_RUNNING"@ && error.code@ != "SUNSHINE_NOT_READY"@ && error.code@ != "SUNSHINE_API_UNAVAILABLE"@ && error.code@ != "SUNSHINE_PAIRING_FAILED"@ && error.code@ != "MOONLIGHT_PAIRING_FAILED"@ && error.code@ != "MOONLIGHT_PAIRING_REQUIRED"@ && error.code@ != "MOONLIGHT_NOT_INSTALLED"@ && error.code@ != "STREAM_START_FAILED"@ && error.code@ != "LOCAL_AGENT_UNAVAILABLE"@ && error.code@ != "REMOTE_AGENT_UNAVAILABLE"@ && error.code@ != "VERSION_INCOMPATIBLE"@ && error.code@ != "LOCAL_AGENT_INCOMPATIBLE"@ && error.code@ != "CAPABILITY_DENIED"@ && error.code@ != "CALLBACK_ACCESS_MISSING"@ && error.code@ != "CONTROLLER_UNREACHABLE"@ && error.code@ != "PEER_IDENTITY_UNKNOWN"@ && error.code@ != "LOCAL_SUNSHINE_UNCONFIGURED"@ && error.code@ != "ACCESS_STORE_FAILED"@ && error.code@ != "OMARCHY_UNSUPPORTED_VERSION"@ && error.code@ != "OMARCHY_VERSION_UNKNOWN"@ && error.code@ != "COMMAND_TIMED_OUT"@ && error.code@ != "COMMAND_NOT_AVAILABLE"@ && error.code@ != "INVALID_COMMAND"@ && error.code@ != "COMMAND_NOT_EXECUTABLE"@ && error.code@ != "INVALID_SESSION_TRANSITION"@ && error.code@ != "LAUNCHER_IO_FAILED"@
            ==> r@ == "Omdesky could not complete the operation. Please try again."@,
{
    assert(error@.code == error.code@);
    reveal_strlit("AGENT_UNREACHABLE");
    assert("AGENT_UNREACHABLE"@.len() == 17 && "AGENT_UNREACHABLE"@[0] == 'A' && "AGENT_UNREACHABLE"@[1] == 'G' && "AGENT_UNREACHABLE"@[2] == 'E');
    reveal_strlit("AGENT_PROTOCOL_INVALID");
    assert("AGENT_PROTOCOL_INVALID"@.len() == 22 && "AGENT_PROTOCOL_INVALID"@[0] == 'A' && "AGENT_PROTOCOL_INVALID"@[1] == 'G' && "AGENT_PROTOCOL_INVALID"@[2] == 'E');
    reveal_strlit("AGENT_REQUEST_FAILED");
    assert("AGENT_REQUEST_FAILED"@.len() == 20 && "AGENT_REQUEST_FAILED"@[0] == 'A' && "AGENT_REQUEST_FAILED"@[1] == 'G' && "AGENT_REQUEST_FAILED"@[2] == 'E');
    reveal_strlit("UNAUTHORIZED");
    assert("UNAUTHORIZED"@.len() == 12 && "UNAUTHORIZED"@[0] == 'U' && "UNAUTHORIZED"@[1] == 'N' && "UNAUTHORIZED"@[2] == 'A');
    reveal_strlit("HYPRLAND_UNAVAILABLE");
    assert("HYPRLAND_UNAVAILABLE"@.len() == 20 && "HYPRLAND_UNAVAILABLE"@[0] == 'H' && "HYPRLAND_UNAVAILABLE"@[1] == 'Y' && "HYPRLAND_UNAVAILABLE"@[2] == 'P');
    reveal_strlit("HYPRLAND_DISPATCH_FAILED");
    assert("HYPRLAND_DISPATCH_FAILED"@.len() == 24 && "HYPRLAND_DISPATCH_FAILED"@[0] == 'H' && "HYPRLAND_DISPATCH_FAILED"@[1] == 'Y' && "HYPRLAND_DISPATCH_FAILED"@[2] == 'P');
    reveal_strlit("HYPRLAND_TARGET_MISSING");
    assert("HYPRLAND_TARGET_MISSING"@.len() == 23 && "HYPRLAND_TARGET_MISSING"@[0] == 'H' && "HYPRLAND_TARGET_MISSING"@[1] == 'Y' && "HYPRLAND_TARGET_MISSING"@[2] == 'P');
    reveal_strlit("WINDOW_NOT_FOUND");
    assert("WINDOW_NOT_FOUND"@.len() == 16 && "WINDOW_NOT_FOUND"@[0] == 'W' && "WINDOW_NOT_FOUND"@[1] == 'I' && "WINDOW_NOT_FOUND"@[2] == 'N');
    reveal_strlit("WORKSPACE_NOT_FOUND");
    assert("WORKSPACE_NOT_FOUND"@.len() == 19 && "WORKSPACE_NOT_FOUND"@[0] == 'W' && "WORKSPACE_NOT_FOUND"@[1] == 'O' && "WORKSPACE_NOT_FOUND"@[2] == 'R');
    reveal_strlit("DISPLAY_NOT_FOUND");
    assert("DISPLAY_NOT_FOUND"@.len() == 17 && "DISPLAY_NOT_FOUND"@[0] == 'D' && "DISPLAY_NOT_FOUND"@[1] == 'I' && "DISPLAY_NOT_FOUND"@[2] == 'S');
    reveal_strlit("DISPLAY_SWITCH_FAILED");
    assert("DISPLAY_SWITCH_FAILED"@.len() == 21 && "DISPLAY_SWITCH_FAILED"@[0] == 'D' && "DISPLAY_SWITCH_FAILED"@[1] == 'I' && "DISPLAY_SWITCH_FAILED"@[2] == 'S');
    reveal_strlit("SUNSHINE_NOT_INSTALLED");
    assert("SUNSHINE_NOT_INSTALLED"@.len() == 22 && "SUNSHINE_NOT_INSTALLED"@[0] == 'S' && "SUNSHINE_NOT_INSTALLED"@[1] == 'U' && "SUNSHINE_NOT_INSTALLED"@[2] == 'N');
    reveal_strlit("SUNSHINE_NOT_RUNNING");
    assert("SUNSHINE_NOT_RUNNING"@.len() == 20 && "SUNSHINE_NOT_RUNNING"@[0] == 'S' && "SUNSHINE_NOT_RUNNING"@[1] == 'U' && "SUNSHINE_NOT_RUNNING"@[2] == 'N');
    reveal_strlit("SUNSHINE_NOT_READY");
    assert("SUNSHINE_NOT_READY"@.len() == 18 && "SUNSHINE_NOT_READY"@[0] == 'S' && "SUNSHINE_NOT_READY"@[1] == 'U' && "SUNSHINE_NOT_READY"@[2] == 'N');
    reveal_strlit("SUNSHINE_API_UNAVAILABLE");
    assert("SUNSHINE_API_UNAVAILABLE"@.len() == 24 && "SUNSHINE_API_UNAVAILABLE"@[0] == 'S' && "SUNSHINE_API_UNAVAILABLE"@[1] == 'U' && "SUNSHINE_API_UNAVAILABLE"@[2] == 'N');
    reveal_strlit("SUNSHINE_PAIRING_FAILED");
    assert("SUNSHINE_PAIRING_FAILED"@.len() == 23 && "SUNSHINE_PAIRING_FAILED"@[0] == 'S' && "SUNSHINE_PAIRING_FAILED"@[1] == 'U' && "SUNSHINE_PAIRING_FAILED"@[2] == 'N');
    reveal_strlit("MOONLIGHT_PAIRING_FAILED");
    assert("MOONLIGHT_PAIRING_FAILED"@.len() == 24 && "MOONLIGHT_PAIRING_FAILED"@[0] == 'M' && "MOONLIGHT_PAIRING_FAILED"@[1] == 'O' && "MOONLIGHT_PAIRING_FAILED"@[2] == 'O');
    reveal_strlit("MOONLIGHT_PAIRING_REQUIRED");
    assert("MOONLIGHT_PAIRING_REQUIRED"@.len() == 26 && "MOONLIGHT_PAIRING_REQUIRED"@[0] == 'M' && "MOONLIGHT_PAIRING_REQUIRED"@[1] == 'O' && "MOONLIGHT_PAIRING_REQUIRED"@[2] == 'O');
    reveal_strlit("MOONLIGHT_NOT_INSTALLED");
    assert("MOONLIGHT_NOT_INSTALLED"@.len() == 23 && "MOONLIGHT_NOT_INSTALLED"@[0] == 'M' && "MOONLIGHT_NOT_INSTALLED"@[1] == 'O' && "MOONLIGHT_NOT_INSTALLED"@[2] == 'O');
    reveal_strlit("STREAM_START_FAILED");
    assert("STREAM_START_FAILED"@.len() == 19 && "STREAM_START_FAILED"@[0] == 'S' && "STREAM_START_FAILED"@[1] == 'T' && "STREAM_START_FAILED"@[2] == 'R');
    reveal_strlit("LOCAL_AGENT_UNAVAILABLE");
    assert("LOCAL_AGENT_UNAVAILABLE"@.len() == 23 && "LOCAL_AGENT_UNAVAILABLE"@[0] == 'L' && "LOCAL_AGENT_UNAVAILABLE"@[1] == 'O' && "LOCAL_AGENT_UNAVAILABLE"@[2] == 'C');
    reveal_strlit("REMOTE_AGENT_UNAVAILABLE");
    assert("REMOTE_AGENT_UNAVAILABLE"@.len() == 24 && "REMOTE_AGENT_UNAVAILABLE"@[0] == 'R' && "REMOTE_AGENT_UNAVAILABLE"@[1] == 'E' && "REMOTE_AGENT_UNAVAILABLE"@[2] == 'M');
    reveal_strlit("VERSION_INCOMPATIBLE");
    assert("VERSION_INCOMPATIBLE"@.len() == 20 && "VERSION_INCOMPATIBLE"@[0] == 'V' && "VERSION_INCOMPATIBLE"@[1] == 'E' && "VERSION_INCOMPATIBLE"@[2] == 'R');
    reveal_strlit("LOCAL_AGENT_INCOMPATIBLE");
    assert("LOCAL_AGENT_INCOMPATIBLE"@.len() == 24 && "LOCAL_AGENT_INCOMPATIBLE"@[0] == 'L' && "LOCAL_AGENT_INCOMPATIBLE"@[1] == 'O' && "LOCAL_AGENT_INCOMPATIBLE"@[2] == 'C');
    reveal_strlit("CAPABILITY_DENIED");
    assert("CAPABILITY_DENIED"@.len() == 17 && "CAPABILITY_DENIED"@[0] == 'C' && "CAPABILITY_DENIED"@[1] == 'A' && "CAPABILITY_DENIED"@[2] == 'P');
    reveal_strlit("CALLBACK_ACCESS_MISSING");
    assert("CALLBACK_ACCESS_MISSING"@.len() == 23 && "CALLBACK_ACCESS_MISSING"@[0] == 'C' && "CALLBACK_ACCESS_MISSING"@[1] == 'A' && "CALLBACK_ACCESS_MISSING"@[2] == 'L');
    reveal_strlit("CONTROLLER_UNREACHABLE");
    assert("CONTROLLER_UNREACHABLE"@.len() == 22 && "CONTROLLER_UNREACHABLE"@[0] == 'C' && "CONTROLLER_UNREACHABLE"@[1] == 'O' && "CONTROLLER_UNREACHABLE"@[2] == 'N');
    reveal_strlit("PEER_IDENTITY_UNKNOWN");
    assert("PEER_IDENTITY_UNKNOWN"@.len() == 21 && "PEER_IDENTITY_UNKNOWN"@[0] == 'P' && "PEER_IDENTITY_UNKNOWN"@[1] == 'E' && "PEER_IDENTITY_UNKNOWN"@[2] == 'E');
    reveal_strlit("LOCAL_SUNSHINE_UNCONFIGURED");
    assert("LOCAL_SUNSHINE_UNCONFIGURED"@.len() == 27 && "LOCAL_SUNSHINE_UNCONFIGURED"@[0] == 'L' && "LOCAL_SUNSHINE_UNCONFIGURED"@[1] == 'O' && "LOCAL_SUNSHINE_UNCONFIGURED"@[2] == 'C');
    reveal_strlit("ACCESS_STORE_FAILED");
    assert("ACCESS_STORE_FAILED"@.len() == 19 && "ACCESS_STORE_FAILED"@[0] == 'A' && "ACCESS_STORE_FAILED"@[1] == 'C' && "ACCESS_STORE_FAILED"@[2] == 'C');
    reveal_strlit("OMARCHY_UNSUPPORTED_VERSION");
    assert("OMARCHY_UNSUPPORTED_VERSION"@.len() == 27 && "OMARCHY_UNSUPPORTED_VERSION"@[0] == 'O' && "OMARCHY_UNSUPPORTED_VERSION"@[1] == 'M' && "OMARCHY_UNSUPPORTED_VERSION"@[2] == 'A');
    reveal_strlit("OMARCHY_VERSION_UNKNOWN");
    assert("OMARCHY_VERSION_UNKNOWN"@.len() == 23 && "OMARCHY_VERSION_UNKNOWN"@[0] == 'O' && "OMARCHY_VERSION_UNKNOWN"@[1] == 'M' && "OMARCHY_VERSION_UNKNOWN"@[2] == 'A');
    reveal_strlit("COMMAND_TIMED_OUT");
    assert("COMMAND_TIMED_OUT"@.len() == 17 && "COMMAND_TIMED_OUT"@[0] == 'C' && "COMMAND_TIMED_OUT"@[1] == 'O' && "COMMAND_TIMED_OUT"@[2] == 'M');
    reveal_strlit("COMMAND_NOT_AVAILABLE");
    assert("COMMAND_NOT_AVAILABLE"@.len() == 21 && "COMMAND_NOT_AVAILABLE"@[0] == 'C' && "COMMAND_NOT_AVAILABLE"@[1] == 'O' && "COMMAND_NOT_AVAILABLE"@[2] == 'M');
    reveal_strlit("INVALID_COMMAND");
    assert("INVALID_COMMAND"@.len() == 15 && "INVALID_COMMAND"@[0] == 'I' && "INVALID_COMMAND"@[1] == 'N' && "INVALID_COMMAND"@[2] == 'V');
    reveal_strlit("COMMAND_NOT_EXECUTABLE");
    assert("COMMAND_NOT_EXECUTABLE"@.len() == 22 && "COMMAND_NOT_EXECUTABLE"@[0] == 'C' && "COMMAND_NOT_EXECUTABLE"@[1] == 'O' && "COMMAND_NOT_EXECUTABLE"@[2] == 'M');
    reveal_strlit("INVALID_SESSION_TRANSITION");
    assert("INVALID_SESSION_TRANSITION"@.len() == 26 && "INVALID_SESSION_TRANSITION"@[0] == 'I' && "INVALID_SESSION_TRANSITION"@[1] == 'N' && "INVALID_SESSION_TRANSITION"@[2] == 'V');
    reveal_strlit("LAUNCHER_IO_FAILED");
    assert("LAUNCHER_IO_FAILED"@.len() == 18 && "LAUNCHER_IO_FAILED"@[0] == 'L' && "LAUNCHER_IO_FAILED"@[1] == 'A' && "LAUNCHER_IO_FAILED"@[2] == 'U');
}

/// A failure keeps its code, its detail and whether it is worth trying again, and has no other code.
pub proof fn law_a_failure_keeps_what_it_was_made_of(
    code: &'static str,
    message: String,
    retryable: bool,
    r: PortError,
    other: &str,
    has: bool,
)
    requires
        call_ensures(PortError::new, (code, message, retryable), r),
        call_ensures(PortError::has_code, (&r, other), has),
    ensures
        r.code@ == code@,
        r.message@ == message@,
        r.retryable == retryable,
        has <==> other@ == code@,
{
    assert(r@.retryable == r.retryable);
    assert(r@.code == r.code@);
}

/// An application name has up to sixty-four letters, digits, spaces, dots, underscores and hyphens and
/// does not begin with a hyphen, so that it is never read as an option.
pub proof fn law_an_application_is_never_an_option(host: StreamHostDescriptor, r: PortResult<()>)
    requires
        call_ensures(StreamHostDescriptor::validate, (&host,), r),
    ensures
        r is Ok <==> {
            &&& host.application@.len() >= 1
            &&& byte_len(host.application@) <= 64
            &&& host.application@[0] != '-'
            &&& forall|i: int|
                0 <= i < host.application@.len() ==> {
                    let c = #[trigger] host.application@[i];
                    ('a' <= c <= 'z') || ('A' <= c <= 'Z') || ('0' <= c <= '9') || c == ' ' || c == '.'
                        || c == '_' || c == '-'
                }
        },
        r matches Err(error) ==> error.code@ == "INVALID_STREAM_APPLICATION"@ && !error.retryable,
{
    if let Err(error) = r {
        assert(outcome(r)->Err_0 == error@);
        assert(error@.code == error.code@);
        assert(error@.retryable == error.retryable);
    } else {
        assert(outcome(r) is Ok);
    }
}

/// A controller has the capabilities that it was given, each once and in their order: to read, to
/// focus, to control, to send shortcuts, to close and to approve.
pub proof fn law_a_controller_has_what_it_was_given(
    held: Vec<ControlCapability>,
    r: Vec<ControlCapability>,
    capability: ControlCapability,
    allows: bool,
)
    requires
        call_ensures(order_capabilities, (&held,), r),
        call_ensures(holds_capability, (&held, capability), allows),
    ensures
        allows <==> held@.contains(capability),
        r@.contains(capability) <==> held@.contains(capability),
        forall|i: int, j: int|
            0 <= i < j < r@.len() ==> capability_rank(#[trigger] r@[i]) < capability_rank(
                #[trigger] r@[j],
            ),
{
    law_ordering_keeps_capabilities(held@, capability);
}

pub open spec fn capability_rank(capability: ControlCapability) -> int {
    match capability {
        ControlCapability::ReadMetadata => 0,
        ControlCapability::FocusWorkspace => 1,
        ControlCapability::ControlSession => 2,
        ControlCapability::SendShortcut => 3,
        ControlCapability::CloseStream => 4,
        ControlCapability::ApprovePairing => 5,
    }
}

/// A program runs for ten seconds at most, with a mebibyte of output and sixty-four kibibytes of
/// errors, without input and with the environment of the session, unless it is told otherwise.
pub proof fn law_programs_are_limited(
    program: String,
    args: Vec<String>,
    r: CommandSpec,
    policy: EnvironmentPolicy,
    s: CommandSpec,
)
    requires
        call_ensures(CommandSpec::new, (program, args), r),
        call_ensures(CommandSpec::with_environment_policy, (r, policy), s),
    ensures
        r.program@ == program@,
        r.args@ == args@,
        r.timeout_millis == 10 * 1000,
        r.stdout_limit == 1024 * 1024,
        r.stderr_limit == 64 * 1024,
        r.environment@.len() == 0,
        r.working_directory is None,
        r.stdin == StdinPolicy::Null,
        r.capture == CapturePolicy::Both,
        r.environment_policy == EnvironmentPolicy::Session,
        r.redacted_arg_indexes@.len() == 0,
        s.environment_policy == policy,
        s.program == r.program,
        s.args == r.args,
        s.timeout_millis == r.timeout_millis,
{
}

} // verus!
