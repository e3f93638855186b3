//! How the agent starts.
use vstd::prelude::*;
use vstd::string::*;

use crate::domain::{
    choose_address, is_tailscale_address, law_the_preferred_address_is_one_of_them, preferred_address,
    tailscale_address, IpAddr,
};
use crate::ids::hyphenated;
use crate::launcher::NodeIdentity;
use crate::omarchy::OmarchyVersion;
use crate::ports::{user_text, MeshNodeIdentity, PortError};
use crate::protocol::{NodeInfoResponse, PROTOCOL_V1};
use crate::release::RELEASE;
use crate::strings::{decimal, decimal_text, push_decimal, same_text, texts};

verus! {

pub const DEFAULT_LOG_FILTER: &'static str = "info";

pub const TAILSCALE_STARTUP_ATTEMPTS: u32 = 30;

pub const TAILSCALE_STARTUP_INTERVAL_SECONDS: u64 = 2;

#[derive(Clone, Copy, Debug, PartialEq, Eq, Structural)]
pub enum Invocation {
    Serve,
    Version,
    Help,
}

/// What the arguments of the agent ask for: at most one may be given.
pub open spec fn invocation(arguments: Seq<Seq<char>>) -> Option<Invocation> {
    if arguments.len() == 0 {
        Some(Invocation::Serve)
    } else if arguments.len() == 1 && (arguments[0] == "--version"@ || arguments[0] == "-V"@) {
        Some(Invocation::Version)
    } else if arguments.len() == 1 && (arguments[0] == "--help"@ || arguments[0] == "-h"@) {
        Some(Invocation::Help)
    } else {
        None
    }
}

pub fn parse_arguments(arguments: &Vec<String>) -> (r: Result<Invocation, &'static str>)
    ensures
        match invocation(texts(arguments@)) {
            Some(wanted) => r == Ok::<Invocation, &'static str>(wanted),
            None => r is Err && r->Err_0@
                == "unexpected arguments; run `omdesky-agent --help` for usage"@,
        },
{
    assert(texts(arguments@).len() == arguments@.len());
    if arguments.len() == 0 {
        return Ok(Invocation::Serve);
    }
    let flag = arguments[0].as_str();
    assert(flag@ == texts(arguments@)[0]);
    if arguments.len() == 1 && (same_text(flag, "--version") || same_text(flag, "-V")) {
        return Ok(Invocation::Version);
    }
    if arguments.len() == 1 && (same_text(flag, "--help") || same_text(flag, "-h")) {
        return Ok(Invocation::Help);
    }
    Err("unexpected arguments; run `omdesky-agent --help` for usage")
}

pub fn version_text() -> (r: String)
    ensures
        r@ == "omdesky-agent "@ + RELEASE@,
{
    "omdesky-agent ".to_owned().concat(RELEASE)
}

pub fn help_text() -> (r: String)
    ensures
        r@ == "omdesky-agent "@ + RELEASE@
            + "\n\nRuns the Omdesky control agent on this computer's Tailscale address.\n\nUsage: omdesky-agent [--version | --help]\n\nLogging is controlled by RUST_LOG (default: "@
            + DEFAULT_LOG_FILTER@ + ")."@,
{
    "omdesky-agent ".to_owned().concat(RELEASE).concat(
        "\n\nRuns the Omdesky control agent on this computer's Tailscale address.\n\nUsage: omdesky-agent [--version | --help]\n\nLogging is controlled by RUST_LOG (default: ",
    ).concat(DEFAULT_LOG_FILTER).concat(").")
}

/// A failure as the operator sees it: with the detail that people are not shown.
pub fn port_failure(error: &PortError) -> (r: String)
    ensures
        r@ == user_text(error@.code) + " ["@ + error@.code + ": "@ + error@.message + "]"@,
{
    error.user_message().to_owned().concat(" [").concat(error.code).concat(": ").concat(
        error.message.as_str(),
    ).concat("]")
}

/// The wait for Tailscale: the attempt that runs.
#[derive(Clone, Copy, Debug, PartialEq, Eq, Structural)]
pub struct TailscaleWait {
    pub attempt: u32,
}

/// What is to be done after an attempt.
#[derive(Debug)]
pub enum WaitStep {
    Ready(MeshNodeIdentity),
    /// After a pause Tailscale is asked again; the text says why.
    Retry(String),
    Failed(String),
}

/// Why an attempt did not succeed.
pub open spec fn wait_detail(answer: Result<MeshNodeIdentity, PortError>) -> Seq<char> {
    match answer {
        Ok(_) => "Tailscale has no local address yet"@,
        Err(error) => error@.code + ": "@ + error@.message,
    }
}

impl TailscaleWait {
    pub open spec fn wf(self) -> bool {
        1 <= self.attempt <= TAILSCALE_STARTUP_ATTEMPTS
    }

    pub fn new() -> (r: Self)
        ensures
            r.attempt == 1,
    {
        TailscaleWait { attempt: 1 }
    }

    pub fn wait_for_tailscale(&mut self, answer: Result<MeshNodeIdentity, PortError>) -> (r: WaitStep)
        requires
            old(self).wf(),
        ensures
            final(self).wf(),
            if answer matches Ok(local) && local.addresses@.len() > 0 {
                &&& r == WaitStep::Ready(answer->Ok_0)
                &&& *final(self) == *old(self)
            } else if old(self).attempt >= TAILSCALE_STARTUP_ATTEMPTS {
                &&& r matches WaitStep::Failed(text) && text@ == "Tailscale is not ready: "@ + wait_detail(
                    answer,
                )
                &&& *final(self) == *old(self)
            } else {
                &&& r matches WaitStep::Retry(text) && text@ == wait_detail(answer)
                &&& final(self).attempt == old(self).attempt + 1
            },
    {
        let detail = match answer {
            Ok(local) => {
                if local.addresses.len() > 0 {
                    return WaitStep::Ready(local);
                }
                "Tailscale has no local address yet".to_owned()
            },
            Err(error) => error.code.to_owned().concat(": ").concat(error.message.as_str()),
        };
        if self.attempt >= TAILSCALE_STARTUP_ATTEMPTS {
            return WaitStep::Failed("Tailscale is not ready: ".to_owned().concat(detail.as_str()));
        }
        self.attempt = self.attempt + 1;
        WaitStep::Retry(detail)
    }
}

/// Where the agent listens: on the address of this computer in the tailnet, and elsewhere only
/// where that is allowed.
pub fn bind_address(addresses: &Vec<IpAddr>, allow_unsafe_wildcard_bind: bool) -> (r: Result<
    IpAddr,
    &'static str,
>)
    ensures
        match preferred_address(addresses@) {
            None => r is Err && r->Err_0@ == "Tailscale has no local address"@,
            Some(address) => if tailscale_address(address) || allow_unsafe_wildcard_bind {
                r == Ok::<IpAddr, &'static str>(address)
            } else {
                r is Err && r->Err_0@ == "refusing to bind agent outside the Tailscale address range"@
            },
        },
{
    match choose_address(addresses) {
        None => Err("Tailscale has no local address"),
        Some(address) => if !is_tailscale_address(address) && !allow_unsafe_wildcard_bind {
            Err("refusing to bind agent outside the Tailscale address range")
        } else {
            Ok(address)
        },
    }
}

pub open spec fn node_capabilities() -> Seq<Seq<char>> {
    seq![
        "omarchy.node"@,
        "desktop.stream-host"@,
        "desktop.input"@,
        "desktop.audio"@,
        "hyprland.workspaces"@,
        "hyprland.windows"@,
    ]
}

/// What the agent tells of this computer.
pub fn node_info(identity: &NodeIdentity, local: &MeshNodeIdentity, omarchy: &OmarchyVersion) -> (r: NodeInfoResponse)
    ensures
        r.node_id@ == hyphenated(identity.node_id.0),
        r.hostname@ == (match local.hostname {
            Some(hostname) => hostname@,
            None => local.tailnet_node_id@,
        }),
        r.omarchy_version@ == decimal(omarchy.major as nat) + "."@ + decimal(omarchy.minor as nat) + "."@
            + decimal(omarchy.patch as nat),
        r.agent_version@ == RELEASE@,
        r.protocol_versions@ == seq![PROTOCOL_V1],
        texts(r.capabilities@) == node_capabilities(),
{
    let mut version = decimal_text(omarchy.major as u64).concat(".");
    push_decimal(&mut version, omarchy.minor as u64);
    version.append(".");
    push_decimal(&mut version, omarchy.patch as u64);
    let mut capabilities: Vec<String> = Vec::new();
    capabilities.push("omarchy.node".to_owned());
    capabilities.push("desktop.stream-host".to_owned());
    capabilities.push("desktop.input".to_owned());
    capabilities.push("desktop.audio".to_owned());
    capabilities.push("hyprland.workspaces".to_owned());
    capabilities.push("hyprland.windows".to_owned());
    assert(texts(capabilities@) =~= node_capabilities());
    let protocol_versions: Vec<u16> = vec![PROTOCOL_V1];
    assert(protocol_versions@ =~= seq![PROTOCOL_V1]);
    let hostname = match &local.hostname {
        Some(hostname) => hostname.clone(),
        None => local.tailnet_node_id.clone(),
    };
    NodeInfoResponse {
        node_id: identity.node_id.to_text(),
        hostname,
        omarchy_version: version,
        agent_version: RELEASE.to_owned(),
        protocol_versions,
        capabilities,
    }
}

/// The agent serves without arguments; with one it may tell its version or its use; anything else is
/// refused.
pub proof fn law_the_agent_takes_one_argument_at_most(
    arguments: Vec<String>,
    r: Result<Invocation, &'static str>,
)
    requires
        call_ensures(parse_arguments, (&arguments,), r),
    ensures
        arguments@.len() == 0 ==> r == Ok::<Invocation, &'static str>(Invocation::Serve),
        arguments@.len() > 1 ==> r is Err,
        arguments@.len() == 1 && (arguments@[0]@ == "--version"@ || arguments@[0]@ == "-V"@) ==> r
            == Ok::<Invocation, &'static str>(Invocation::Version),
        arguments@.len() == 1 && (arguments@[0]@ == "--help"@ || arguments@[0]@ == "-h"@) ==> r == Ok::<
            Invocation,
            &'static str,
        >(Invocation::Help),
        r == Ok::<Invocation, &'static str>(Invocation::Serve) ==> arguments@.len() == 0,
        arguments@.len() == 1 && arguments@[0]@ != "--version"@ && arguments@[0]@ != "-V"@
            && arguments@[0]@ != "--help"@ && arguments@[0]@ != "-h"@ ==> r is Err,
{
    reveal_strlit("--version");
    reveal_strlit("-V");
    reveal_strlit("--help");
    reveal_strlit("-h");
    assert("--version"@.len() == 9);
    assert("-V"@.len() == 2);
    assert("--help"@.len() == 6);
    assert("-h"@.len() == 2);
    assert("-V"@[1] == 'V');
    assert("-h"@[1] == 'h');
    if arguments@.len() == 1 {
        assert(texts(arguments@)[0] == arguments@[0]@);
    }
}

/// Tailscale is ready once it has an address. Until then it is asked again, thirty times in all, and
/// then the start has failed.
pub proof fn law_tailscale_is_waited_for_thirty_times(
    wait: &mut TailscaleWait,
    answer: Result<MeshNodeIdentity, PortError>,
    r: WaitStep,
)
    requires
        old(wait).wf(),
        call_ensures(TailscaleWait::wait_for_tailscale, (wait, answer), r),
    ensures
        r is Ready <==> (answer matches Ok(local) && local.addresses@.len() > 0),
        r matches WaitStep::Ready(local) ==> answer == Ok::<MeshNodeIdentity, PortError>(local),
        r !is Ready ==> (r is Failed <==> old(wait).attempt == 30),
        r is Retry ==> final(wait).attempt == old(wait).attempt + 1,
{
}

/// The agent listens only on an address of its own, and outside the ranges of Tailscale only where
/// that is allowed.
pub proof fn law_the_agent_listens_in_the_tailnet(
    addresses: Vec<IpAddr>,
    allowed: bool,
    r: Result<IpAddr, &'static str>,
)
    requires
        call_ensures(bind_address, (&addresses, allowed), r),
    ensures
        r matches Ok(address) ==> addresses@.contains(address) && (tailscale_address(address) || allowed),
        addresses@.len() == 0 ==> r is Err,
        allowed && addresses@.len() > 0 ==> r is Ok,
        (forall|i: int| 0 <= i < addresses@.len() ==> tailscale_address(#[trigger] addresses@[i]))
            && addresses@.len() > 0 ==> r is Ok,
        (forall|i: int| 0 <= i < addresses@.len() ==> !tailscale_address(#[trigger] addresses@[i]))
            && !allowed ==> r is Err,
{
    law_the_preferred_address_is_one_of_them(addresses@);
    if let Some(address) = preferred_address(addresses@) {
        let i = choose|i: int| 0 <= i < addresses@.len() && addresses@[i] == address;
        assert(addresses@[i] == address);
    }
}

/// What the agent tells: who it is, its host name or else its identifier, its release, the first
/// protocol, and the six things that it offers.
pub proof fn law_the_agent_tells_who_it_is(
    identity: NodeIdentity,
    local: MeshNodeIdentity,
    omarchy: OmarchyVersion,
    r: NodeInfoResponse,
)
    requires
        call_ensures(node_info, (&identity, &local, &omarchy), r),
    ensures
        r.node_id@ == hyphenated(identity.node_id.0),
        local.hostname matches Some(name) ==> r.hostname@ == name@,
        local.hostname is None ==> r.hostname@ == local.tailnet_node_id@,
        r.agent_version@ == RELEASE@,
        r.protocol_versions@ == seq![1u16],
        r.omarchy_version@ == decimal(omarchy.major as nat) + "."@ + decimal(omarchy.minor as nat) + "."@
            + decimal(omarchy.patch as nat),
        texts(r.capabilities@) == seq![
            "omarchy.node"@,
            "desktop.stream-host"@,
            "desktop.input"@,
            "desktop.audio"@,
            "hyprland.workspaces"@,
            "hyprland.windows"@,
        ],
{
}

/// An operator is told what a person is told, with the code and the detail.
pub proof fn law_operators_see_the_detail(error: PortError, r: String)
    requires
        call_ensures(port_failure, (&error,), r),
    ensures
        r@ == user_text(error.code@) + " ["@ + error.code@ + ": "@ + error.message@ + "]"@,
{
    assert(error@.code == error.code@);
    assert(error@.message == error.message@);
}

/// The agent tells its name and its release.
pub proof fn law_the_agent_tells_its_release(version: String, help: String)
    requires
        call_ensures(version_text, (), version),
        call_ensures(help_text, (), help),
    ensures
        version@ == "omdesky-agent "@ + "0.2.0"@,
        help@.take(version@.len() as int) == version@,
{
    assert(help@.take(version@.len() as int) =~= version@);
}

/// The agent listens only at an address of the tailnet, unless anything else is allowed; the first
/// IPv4 address goes before the others.
pub proof fn law_the_agent_listens_inside_the_tailnet(
    addresses: &Vec<IpAddr>,
    chosen: Option<IpAddr>,
    strict: Result<IpAddr, &'static str>,
    open: Result<IpAddr, &'static str>,
)
    requires
        call_ensures(crate::domain::choose_address, (addresses,), chosen),
        call_ensures(bind_address, (addresses, false), strict),
        call_ensures(bind_address, (addresses, true), open),
    ensures
        chosen is None ==> strict is Err && open is Err && strict->Err_0@ == "Tailscale has no local address"@
            && open->Err_0@ == "Tailscale has no local address"@,
        chosen matches Some(address) ==> open == Ok::<IpAddr, &'static str>(address),
        strict matches Ok(address) ==> chosen == Some(address) && crate::domain::tailscale_address(address),
        chosen matches Some(address) ==> !crate::domain::tailscale_address(address) ==> (strict matches Err(text)
            && text@ == "refusing to bind agent outside the Tailscale address range"@),
        chosen matches Some(address) ==> crate::domain::tailscale_address(address) ==> strict is Ok,
{
}

/// Arguments that are not known are refused with a word on the help.
pub proof fn law_unknown_arguments_are_refused(arguments: &Vec<String>, r: Result<Invocation, &'static str>)
    requires
        call_ensures(parse_arguments, (arguments,), r),
        arguments@.len() > 1,
    ensures
        r matches Err(text) ==> text@ == "unexpected arguments; run `omdesky-agent --help` for usage"@,
{
}

/// What Tailscale waits for is told: its address, or its failure with the code.
pub proof fn law_the_wait_tells_what_is_missing(
    wait: &mut TailscaleWait,
    answer: Result<MeshNodeIdentity, PortError>,
    r: WaitStep,
)
    requires
        call_ensures(TailscaleWait::wait_for_tailscale, (wait, answer), r),
    ensures
        r matches WaitStep::Ready(local) ==> answer == Ok::<MeshNodeIdentity, PortError>(local)
            && local.addresses@.len() > 0,
        (answer matches Ok(local) && local.addresses@.len() > 0) ==> r is Ready,
        answer is Ok ==> (r matches WaitStep::Retry(text) ==> text@
            == "Tailscale has no local address yet"@),
        answer is Ok ==> (r matches WaitStep::Failed(text) ==> text@ == "Tailscale is not ready: "@
            + "Tailscale has no local address yet"@),
        answer matches Err(error) ==> (r matches WaitStep::Retry(text) ==> text@ == error@.code + ": "@
            + error@.message),
        answer matches Err(error) ==> (r matches WaitStep::Failed(text) ==> text@
            == "Tailscale is not ready: "@ + (error@.code + ": "@ + error@.message)),
        r is Retry ==> final(wait).attempt == old(wait).attempt + 1,
        r !is Retry ==> *final(wait) == *old(wait),
{
}

} // verus!
