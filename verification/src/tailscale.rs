//! What Tailscale tells of the tailnet.
use vstd::prelude::*;
use vstd::string::*;

use crate::address::{address_text, ip_text};
use crate::domain::{ConnectionKind, IpAddr, MeshPeer, MeshPeerView};
use crate::ports::{
    port_error, CapturePolicy, CommandSpec, EnvironmentPolicy, MeshNodeIdentity, PortError,
    PortErrorView, PortResult, StdinPolicy,
};
use crate::scan::{first_place, split_once};
use crate::seqs::{first_where, lemma_first_where_at, lemma_first_where_none, map_each};
use crate::strings::{byte_count, byte_len, opt_text, same_text, texts, trim_trailing_dots, without_trailing_dots};
use crate::text::{sanitize_for_display, sanitize_owned, sanitized, sanitized_option, DISPLAY_NAME_LIMIT};

verus! {

pub const TAILSCALE_STATUS_LIMIT: usize = 4_194_304;

pub const MAX_PEERS: usize = 1024;

pub const MAX_ID_BYTES: usize = 256;

pub const MAX_NAME_BYTES: usize = 255;

pub const MAX_IPS_PER_NODE: usize = 16;

/// A machine as Tailscale reports it. Of its addresses each is there that could be read, in its
/// place.
#[derive(Debug, PartialEq, Eq)]
pub struct RawPeer {
    pub id: String,
    pub dns_name: Option<String>,
    pub host_name: Option<String>,
    pub tailscale_ips: Vec<Option<IpAddr>>,
    pub online: bool,
    pub cur_addr: Option<String>,
    pub relay: Option<String>,
}

#[derive(Debug, PartialEq, Eq)]
pub struct TailscaleStatus {
    pub self_node: RawPeer,
    pub peers: Vec<RawPeer>,
}

#[derive(Debug, PartialEq, Eq)]
pub struct WhoisNode {
    pub stable_id: Option<String>,
    pub name: Option<String>,
    pub host_name: Option<String>,
}

/// Who an address belongs to.
#[derive(Debug, PartialEq, Eq)]
pub struct WhoisResponse {
    pub node: WhoisNode,
    pub login_name: Option<String>,
}

#[derive(Clone, Copy, Debug, PartialEq, Eq, Structural)]
pub struct ConnectionInfo {
    pub kind: ConnectionKind,
    pub latency_ms: Option<u32>,
}

pub open spec fn short_enough(text: Option<String>, limit: nat) -> bool {
    text matches Some(text) ==> byte_len(text@) <= limit
}

fn is_short_enough(text: &Option<String>, limit: usize) -> (r: bool)
    ensures
        r == short_enough(*text, limit as nat),
{
    match text {
        Some(text) => byte_count(text.as_str()) <= limit,
        None => true,
    }
}

pub open spec fn valid_peer(peer: RawPeer) -> bool {
    &&& byte_len(peer.id@) <= MAX_ID_BYTES
    &&& short_enough(peer.dns_name, MAX_NAME_BYTES as nat)
    &&& short_enough(peer.host_name, MAX_NAME_BYTES as nat)
    &&& peer.tailscale_ips@.len() <= MAX_IPS_PER_NODE
}

pub open spec fn field_limit() -> PortErrorView {
    port_error("TAILSCALE_FIELD_LIMIT"@, "tailscale status contained an oversized node field"@, false)
}

pub fn validate_peer(peer: &RawPeer) -> (r: PortResult<()>)
    ensures
        if valid_peer(*peer) {
            r is Ok
        } else {
            r is Err && r->Err_0@ == field_limit()
        },
{
    let valid = byte_count(peer.id.as_str()) <= MAX_ID_BYTES && is_short_enough(
        &peer.dns_name,
        MAX_NAME_BYTES,
    ) && is_short_enough(&peer.host_name, MAX_NAME_BYTES) && peer.tailscale_ips.len()
        <= MAX_IPS_PER_NODE;
    if valid {
        Ok(())
    } else {
        Err(
            PortError::plain(
                "TAILSCALE_FIELD_LIMIT",
                "tailscale status contained an oversized node field",
                false,
            ),
        )
    }
}

/// What a report is refused for: too many machines, or one with a field that is too large.
pub open spec fn status_error(status: TailscaleStatus) -> Option<PortErrorView> {
    if status.peers@.len() > MAX_PEERS {
        Some(
            port_error(
                "TAILSCALE_PEER_LIMIT"@,
                "tailscale status contained too many peers"@,
                false,
            ),
        )
    } else if valid_peer(status.self_node) && forall|i: int|
        0 <= i < status.peers@.len() ==> valid_peer(#[trigger] status.peers@[i]) {
        None
    } else {
        Some(field_limit())
    }
}

pub fn validate_status(status: &TailscaleStatus) -> (r: PortResult<()>)
    ensures
        match status_error(*status) {
            Some(error) => r is Err && r->Err_0@ == error,
            None => r is Ok,
        },
{
    if status.peers.len() > MAX_PEERS {
        return Err(
            PortError::plain(
                "TAILSCALE_PEER_LIMIT",
                "tailscale status contained too many peers",
                false,
            ),
        );
    }
    match validate_peer(&status.self_node) {
        Ok(()) => {},
        Err(error) => {
            return Err(error);
        },
    }
    let mut i: usize = 0;
    while i < status.peers.len()
        invariant
            i <= status.peers@.len(),
            status.peers@.len() <= MAX_PEERS,
            valid_peer(status.self_node),
            forall|k: int| 0 <= k < i ==> valid_peer(#[trigger] status.peers@[k]),
        decreases status.peers@.len() - i,
    {
        match validate_peer(&status.peers[i]) {
            Ok(()) => {},
            Err(error) => {
                assert(!valid_peer(status.peers@[i as int]));
                return Err(error);
            },
        }
        i += 1;
    }
    Ok(())
}

/// The call that asks for the report: it may be long.
pub fn status_spec() -> (r: CommandSpec)
    ensures
        r.program@ == "tailscale"@,
        texts(r.args@) == seq!["status"@, "--json"@],
        r.stdout_limit == TAILSCALE_STATUS_LIMIT,
        r.stderr_limit == 64 * 1024,
        r.capture == CapturePolicy::Both,
        r.stdin == StdinPolicy::Null,
        r.environment@.len() == 0,
        r.environment_policy == EnvironmentPolicy::Session,
        r.working_directory is None,
        r.timeout_millis == 10_000,
        r.redacted_arg_indexes@.len() == 0,
{
    let mut args: Vec<String> = Vec::new();
    args.push("status".to_owned());
    args.push("--json".to_owned());
    assert(texts(args@) =~= seq!["status"@, "--json"@]);
    let mut spec = CommandSpec::new("tailscale".to_owned(), args);
    spec.stdout_limit = TAILSCALE_STATUS_LIMIT;
    spec
}

/// Takes a report of that many bytes, by what was read of it.
pub fn parse_status(size: usize, status: Result<TailscaleStatus, String>) -> (r: PortResult<TailscaleStatus>)
    ensures
        if size > TAILSCALE_STATUS_LIMIT {
            r is Err && r->Err_0@ == port_error(
                "TAILSCALE_STATUS_LIMIT"@,
                "tailscale status exceeded the maximum response size"@,
                false,
            )
        } else {
            match status {
                Err(detail) => r is Err && r->Err_0@ == port_error(
                    "TAILSCALE_STATUS_INVALID"@,
                    "unable to parse tailscale status: "@ + detail@,
                    false,
                ),
                Ok(status) => match status_error(status) {
                    Some(error) => r is Err && r->Err_0@ == error,
                    None => r is Ok && r->Ok_0 == status,
                },
            }
        },
{
    if size > TAILSCALE_STATUS_LIMIT {
        return Err(
            PortError::plain(
                "TAILSCALE_STATUS_LIMIT",
                "tailscale status exceeded the maximum response size",
                false,
            ),
        );
    }
    match status {
        Err(detail) => Err(
            PortError::new(
                "TAILSCALE_STATUS_INVALID",
                "unable to parse tailscale status: ".to_owned().concat(detail.as_str()),
                false,
            ),
        ),
        Ok(status) => match validate_status(&status) {
            Ok(()) => Ok(status),
            Err(error) => Err(error),
        },
    }
}

/// The first label of a name, as it may be shown.
pub open spec fn first_label(dns_name: Seq<char>) -> Seq<char> {
    let name = without_trailing_dots(dns_name);
    sanitized(name.take(first_place(name, '.')), DISPLAY_NAME_LIMIT as nat)
}

proof fn lemma_first_place_bounds(s: Seq<char>, c: char)
    ensures
        0 <= first_place(s, c) <= s.len(),
    decreases s.len(),
{
    if s.len() > 0 && s[0] != c {
        lemma_first_place_bounds(s.drop_first(), c);
    }
}

pub fn dns_hostname(dns_name: &str) -> (r: String)
    ensures
        r@ == first_label(dns_name@),
{
    let name = trim_trailing_dots(dns_name);
    proof {
        lemma_first_place_bounds(name@, '.');
    }
    match split_once(name.as_str(), '.') {
        Some((label, _)) => sanitize_for_display(label.as_str(), DISPLAY_NAME_LIMIT),
        None => {
            assert(name@.take(name@.len() as int) =~= name@);
            sanitize_for_display(name.as_str(), DISPLAY_NAME_LIMIT)
        },
    }
}

/// The name to show of a machine: its host name, else the first label of its name.
pub open spec fn shown_hostname(host_name: Option<String>, dns_name: Option<String>) -> Option<Seq<char>> {
    match host_name {
        Some(name) => Some(sanitized(name@, DISPLAY_NAME_LIMIT as nat)),
        None => match dns_name {
            Some(name) => Some(first_label(name@)),
            None => None,
        },
    }
}

fn hostname_of(host_name: &Option<String>, dns_name: &Option<String>) -> (r: Option<String>)
    ensures
        opt_text(r) == shown_hostname(*host_name, *dns_name),
{
    match host_name {
        Some(name) => Some(sanitize_for_display(name.as_str(), DISPLAY_NAME_LIMIT)),
        None => match dns_name {
            Some(name) => Some(dns_hostname(name.as_str())),
            None => None,
        },
    }
}

/// The addresses that could be read, in their order.
pub open spec fn readable(ips: Seq<Option<IpAddr>>) -> Seq<IpAddr>
    decreases ips.len(),
{
    if ips.len() == 0 {
        Seq::empty()
    } else {
        match ips.last() {
            Some(ip) => readable(ips.drop_last()).push(ip),
            None => readable(ips.drop_last()),
        }
    }
}

fn readable_addresses(ips: &Vec<Option<IpAddr>>) -> (r: Vec<IpAddr>)
    ensures
        r@ == readable(ips@),
{
    let mut out: Vec<IpAddr> = Vec::new();
    let mut i: usize = 0;
    assert(ips@.take(0) =~= Seq::<Option<IpAddr>>::empty());
    while i < ips.len()
        invariant
            i <= ips@.len(),
            out@ == readable(ips@.take(i as int)),
        decreases ips@.len() - i,
    {
        assert(ips@.take(i + 1).drop_last() =~= ips@.take(i as int));
        match ips[i] {
            Some(ip) => out.push(ip),
            None => {},
        }
        i += 1;
    }
    assert(ips@.take(ips@.len() as int) =~= ips@);
    out
}

pub fn local_node(status: TailscaleStatus) -> (r: MeshNodeIdentity)
    ensures
        r.tailnet_node_id == status.self_node.id,
        r.user is None,
        opt_text(r.hostname) == shown_hostname(status.self_node.host_name, status.self_node.dns_name),
        r.addresses@ == readable(status.self_node.tailscale_ips@),
{
    let node = status.self_node;
    MeshNodeIdentity {
        hostname: hostname_of(&node.host_name, &node.dns_name),
        addresses: readable_addresses(&node.tailscale_ips),
        tailnet_node_id: node.id,
        user: None,
    }
}

pub open spec fn filled(text: Option<Seq<char>>) -> bool {
    text matches Some(text) && text.len() > 0
}

/// How a machine is reached: directly where it has an address, else over its relay.
pub open spec fn spec_connection_kind(current_address: Option<Seq<char>>, relay: Option<Seq<char>>) -> ConnectionKind {
    if filled(current_address) {
        ConnectionKind::Direct
    } else if filled(relay) {
        ConnectionKind::Relay
    } else {
        ConnectionKind::Unknown
    }
}

fn is_filled(text: &Option<String>) -> (r: bool)
    ensures
        r == filled(opt_text(*text)),
{
    match text {
        Some(text) => !text.as_str().is_empty(),
        None => false,
    }
}

pub fn connection_kind(current_address: &Option<String>, relay: &Option<String>) -> (r: ConnectionKind)
    ensures
        r == spec_connection_kind(opt_text(*current_address), opt_text(*relay)),
{
    if is_filled(current_address) {
        ConnectionKind::Direct
    } else if is_filled(relay) {
        ConnectionKind::Relay
    } else {
        ConnectionKind::Unknown
    }
}

/// A machine as the rest of the program knows it: its names may be shown, its identity is as it
/// came.
pub open spec fn domain_peer() -> spec_fn(RawPeer) -> MeshPeerView {
    |peer: RawPeer|
        MeshPeerView {
            tailnet_node_id: peer.id@,
            dns_name: sanitized_option(opt_text(peer.dns_name), DISPLAY_NAME_LIMIT as nat),
            hostname: sanitized_option(opt_text(peer.host_name), DISPLAY_NAME_LIMIT as nat),
            ips: readable(peer.tailscale_ips@),
            online: peer.online,
            connection: spec_connection_kind(opt_text(peer.cur_addr), opt_text(peer.relay)),
            latency_ms: None,
        }
}

pub open spec fn peer_view() -> spec_fn(MeshPeer) -> MeshPeerView {
    |peer: MeshPeer| peer@
}

pub fn raw_peer_to_domain(peer: RawPeer) -> (r: MeshPeer)
    ensures
        peer_view()(r) == domain_peer()(peer),
{
    MeshPeer {
        dns_name: sanitize_owned(&peer.dns_name, DISPLAY_NAME_LIMIT),
        hostname: sanitize_owned(&peer.host_name, DISPLAY_NAME_LIMIT),
        ips: readable_addresses(&peer.tailscale_ips),
        online: peer.online,
        connection: connection_kind(&peer.cur_addr, &peer.relay),
        latency_ms: None,
        tailnet_node_id: peer.id,
    }
}

pub fn peers(status: TailscaleStatus) -> (r: Vec<MeshPeer>)
    ensures
        r@.map_values(peer_view()) == status.peers@.map_values(domain_peer()),
{
    map_each::<RawPeer, MeshPeer, MeshPeerView, _>(
        status.peers,
        raw_peer_to_domain,
        Ghost(domain_peer()),
        Ghost(peer_view()),
    )
}

pub open spec fn has_id(id: Seq<char>) -> spec_fn(RawPeer) -> bool {
    |peer: RawPeer| peer.id@ == id
}

/// How the machine of an identity is reached.
pub fn connection_info(status: &TailscaleStatus, tailnet_node_id: &str) -> (r: PortResult<ConnectionInfo>)
    ensures
        match first_where(status.peers@, has_id(tailnet_node_id@)) {
            Some(peer) => r is Ok && r->Ok_0 == (ConnectionInfo {
                kind: spec_connection_kind(opt_text(peer.cur_addr), opt_text(peer.relay)),
                latency_ms: None,
            }),
            None => r is Err && r->Err_0@ == port_error("PEER_OFFLINE"@, "peer is not visible"@, true),
        },
{
    let ghost p = has_id(tailnet_node_id@);
    let mut i: usize = 0;
    while i < status.peers.len()
        invariant
            i <= status.peers@.len(),
            p == has_id(tailnet_node_id@),
            forall|k: int| 0 <= k < i ==> !p(#[trigger] status.peers@[k]),
        decreases status.peers@.len() - i,
    {
        let peer = &status.peers[i];
        if same_text(peer.id.as_str(), tailnet_node_id) {
            proof {
                lemma_first_where_at(status.peers@, p, i as int);
            }
            return Ok(
                ConnectionInfo { kind: connection_kind(&peer.cur_addr, &peer.relay), latency_ms: None },
            );
        }
        i += 1;
    }
    proof {
        lemma_first_where_none(status.peers@, p);
    }
    Err(PortError::plain("PEER_OFFLINE", "peer is not visible", true))
}

/// The call that asks who an address belongs to.
pub fn whois_spec(source: IpAddr) -> (r: CommandSpec)
    ensures
        r.program@ == "tailscale"@,
        texts(r.args@) == seq!["whois"@, "--json"@, ip_text(source)],
        r.has_default_limits(),
        r.environment_policy == EnvironmentPolicy::Session,
{
    let mut args: Vec<String> = Vec::new();
    args.push("whois".to_owned());
    args.push("--json".to_owned());
    args.push(address_text(source));
    assert(texts(args@) =~= seq!["whois"@, "--json"@, ip_text(source)]);
    CommandSpec::new("tailscale".to_owned(), args)
}

/// Whether an identity is the one that an answer tells: the identity itself is kept byte for byte,
/// the names may be shown.
pub open spec fn is_whois(identity: MeshNodeIdentity, whois: WhoisResponse) -> bool {
    &&& identity.tailnet_node_id@ == (match whois.node.stable_id {
        Some(id) => id@,
        None => Seq::<char>::empty(),
    })
    &&& opt_text(identity.user) == sanitized_option(
        opt_text(whois.login_name),
        DISPLAY_NAME_LIMIT as nat,
    )
    &&& opt_text(identity.hostname) == shown_hostname(whois.node.host_name, whois.node.name)
    &&& identity.addresses@.len() == 0
}

pub fn parse_whois(whois: Result<WhoisResponse, String>) -> (r: PortResult<MeshNodeIdentity>)
    ensures
        match whois {
            Ok(whois) => r is Ok && is_whois(r->Ok_0, whois),
            Err(detail) => r is Err && r->Err_0@ == port_error(
                "TAILSCALE_WHOIS_INVALID"@,
                "unable to parse tailscale whois: "@ + detail@,
                false,
            ),
        },
{
    match whois {
        Ok(whois) => {
            let hostname = hostname_of(&whois.node.host_name, &whois.node.name);
            let user = sanitize_owned(&whois.login_name, DISPLAY_NAME_LIMIT);
            let tailnet_node_id = match whois.node.stable_id {
                Some(id) => id,
                None => {
                    let empty = String::new();
                    assert(empty@ =~= Seq::<char>::empty());
                    empty
                },
            };
            Ok(MeshNodeIdentity { tailnet_node_id, user, hostname, addresses: Vec::new() })
        },
        Err(detail) => Err(
            PortError::new(
                "TAILSCALE_WHOIS_INVALID",
                "unable to parse tailscale whois: ".to_owned().concat(detail.as_str()),
                false,
            ),
        ),
    }
}

/// Who an address belongs to: nobody, where the call ends with a failure.
pub fn identify_source(answer: PortResult<Result<WhoisResponse, String>>) -> (r: PortResult<
    Option<MeshNodeIdentity>,
>)
    ensures
        match answer {
            Ok(Ok(whois)) => r is Ok && r->Ok_0 is Some && is_whois(r->Ok_0->0, whois),
            Ok(Err(detail)) => r is Err && r->Err_0@ == port_error(
                "TAILSCALE_WHOIS_INVALID"@,
                "unable to parse tailscale whois: "@ + detail@,
                false,
            ),
            Err(error) => if error@.code == "COMMAND_FAILED"@ {
                r is Ok && r->Ok_0 is None
            } else {
                r is Err && r->Err_0@ == error@
            },
        },
{
    match answer {
        Ok(whois) => match parse_whois(whois) {
            Ok(identity) => Ok(Some(identity)),
            Err(error) => Err(error),
        },
        Err(error) => if error.has_code("COMMAND_FAILED") {
            Ok(None)
        } else {
            Err(error)
        },
    }
}

/// Nothing that a machine tells of itself can control the terminal that it is shown on.
pub proof fn law_names_of_peers_are_safe_to_show(peer: RawPeer)
    ensures
        domain_peer()(peer).hostname matches Some(name) ==> forall|i: int|
            0 <= i < name.len() ==> crate::text::presentation_safe(#[trigger] name[i]),
        domain_peer()(peer).dns_name matches Some(name) ==> forall|i: int|
            0 <= i < name.len() ==> crate::text::presentation_safe(#[trigger] name[i]),
{
    match peer.host_name {
        Some(name) => crate::text::law_sanitized_text_is_safe(name@, DISPLAY_NAME_LIMIT as nat),
        None => {},
    }
    match peer.dns_name {
        Some(name) => crate::text::law_sanitized_text_is_safe(name@, DISPLAY_NAME_LIMIT as nat),
        None => {},
    }
}

/// Whether nothing that a machine tells of itself is too large: its identifier has up to 256 bytes,
/// its names up to 255, and it has up to sixteen addresses.
pub open spec fn within_limits(peer: RawPeer) -> bool {
    &&& byte_len(peer.id@) <= 256
    &&& peer.dns_name matches Some(name) ==> byte_len(name@) <= 255
    &&& peer.host_name matches Some(name) ==> byte_len(name@) <= 255
    &&& peer.tailscale_ips@.len() <= 16
}

/// A report is taken exactly when it is of up to four mebibytes, could be read, and has up to 1024
/// machines of which none has a field that is too large; then it is taken as it is.
pub proof fn law_a_report_is_taken_within_its_limits(
    size: usize,
    status: Result<TailscaleStatus, String>,
    r: PortResult<TailscaleStatus>,
)
    requires
        call_ensures(parse_status, (size, status), r),
    ensures
        r is Ok <==> size <= 4 * 1024 * 1024 && (status matches Ok(told) && told.peers@.len() <= 1024
            && within_limits(told.self_node) && forall|i: int|
            0 <= i < told.peers@.len() ==> within_limits(#[trigger] told.peers@[i])),
        r matches Ok(taken) ==> status == Ok::<TailscaleStatus, String>(taken),
        size > 4 * 1024 * 1024 ==> (r matches Err(error) && error.code@ == "TAILSCALE_STATUS_LIMIT"@),
        size <= 4 * 1024 * 1024 && status is Err ==> (r matches Err(error) && error.code@
            == "TAILSCALE_STATUS_INVALID"@),
        size <= 4 * 1024 * 1024 && (status matches Ok(told) && told.peers@.len() > 1024) ==> (r matches Err(
            error,
        ) && error.code@ == "TAILSCALE_PEER_LIMIT"@),
        r matches Err(error) ==> !error.retryable,
{
    if let Ok(told) = status {
        assert(valid_peer(told.self_node) <==> within_limits(told.self_node));
        assert(forall|i: int|
            0 <= i < told.peers@.len() ==> (valid_peer(#[trigger] told.peers@[i]) <==> within_limits(
                told.peers@[i],
            )));
    }
    if let Err(error) = r {
        assert(error@.code == error.code@);
        assert(error@.retryable == error.retryable);
    }
}

/// A machine has every address of its report that could be read, in the same order, and no other.
pub proof fn law_readable_addresses_keep_their_order(ips: Seq<Option<IpAddr>>, next: Option<IpAddr>)
    ensures
        readable(Seq::empty()).len() == 0,
        next matches Some(ip) ==> readable(ips.push(next)) == readable(ips).push(ip),
        next is None ==> readable(ips.push(next)) == readable(ips),
{
    assert(ips.push(next).drop_last() =~= ips);
    assert(ips.push(next).last() == next);
}

/// A machine is reached directly where it has an address now, else over its relay where it has one.
pub proof fn law_direct_goes_before_relay(
    address: Option<String>,
    relay: Option<String>,
    r: ConnectionKind,
)
    requires
        call_ensures(connection_kind, (&address, &relay), r),
    ensures
        r == ConnectionKind::Direct <==> (address matches Some(text) && text@.len() > 0),
        r == ConnectionKind::Relay <==> !(address matches Some(text) && text@.len() > 0) && (relay
            matches Some(text) && text@.len() > 0),
{
}

/// A machine keeps its identity, its addresses and whether it is there; only its names are made fit to
/// be shown.
pub proof fn law_a_machine_keeps_its_identity(raw: RawPeer, r: MeshPeer)
    requires
        call_ensures(raw_peer_to_domain, (raw,), r),
    ensures
        r.tailnet_node_id@ == raw.id@,
        r.ips@ == readable(raw.tailscale_ips@),
        r.online == raw.online,
        r.latency_ms is None,
        raw.host_name is None <==> r.hostname is None,
        raw.host_name matches Some(name) ==> r.hostname->0@ == sanitized(name@, 96),
        raw.dns_name is None <==> r.dns_name is None,
        raw.dns_name matches Some(name) ==> r.dns_name->0@ == sanitized(name@, 96),
        r.connection == ConnectionKind::Direct <==> (raw.cur_addr matches Some(text) && text@.len() > 0),
{
    let view = peer_view()(r);
    assert(view == r@);
    assert(view == domain_peer()(raw));
    assert(view.tailnet_node_id == r.tailnet_node_id@);
    assert(view.ips == r.ips@);
    assert(view.online == r.online);
    assert(view.connection == r.connection);
    assert(view.hostname == opt_text(r.hostname));
    assert(view.dns_name == opt_text(r.dns_name));
}

/// Every machine of a report is taken, each in its place.
pub proof fn law_every_machine_is_taken(status: TailscaleStatus, r: Vec<MeshPeer>, i: int)
    requires
        call_ensures(peers, (status,), r),
        0 <= i < status.peers@.len(),
    ensures
        r@.len() == status.peers@.len(),
        r@[i].tailnet_node_id@ == status.peers@[i].id@,
        r@[i].online == status.peers@[i].online,
        r@[i].ips@ == readable(status.peers@[i].tailscale_ips@),
{
    let a = r@.map_values(peer_view());
    let b = status.peers@.map_values(domain_peer());
    assert(a.len() == b.len());
    assert(a[i] == b[i]);
    assert(a[i] == r@[i]@);
}

/// This computer is the node that the report says is its own, with its host name, or else the first
/// label of its name, made fit to be shown.
pub proof fn law_this_computer_is_the_own_node(status: TailscaleStatus, r: MeshNodeIdentity)
    requires
        call_ensures(local_node, (status,), r),
    ensures
        r.tailnet_node_id@ == status.self_node.id@,
        r.user is None,
        r.addresses@ == readable(status.self_node.tailscale_ips@),
        status.self_node.host_name matches Some(name) ==> (r.hostname matches Some(shown) && shown@
            == sanitized(name@, 96)),
        status.self_node.host_name is None && status.self_node.dns_name is None ==> r.hostname is None,
        status.self_node.host_name is None ==> (status.self_node.dns_name matches Some(name) ==> (
        r.hostname matches Some(shown) && shown@ == first_label(name@))),
{
}

/// The first label of a name is what stands before its first dot.
pub proof fn law_a_label_ends_at_the_first_dot(name: &str, label: Seq<char>, rest: Seq<char>, r: String)
    requires
        call_ensures(dns_hostname, (name,), r),
        without_trailing_dots(name@) == label.push('.') + rest || (without_trailing_dots(name@) == label
            && rest.len() == 0),
        !label.contains('.'),
    ensures
        r@ == sanitized(label, 96),
{
    let text = without_trailing_dots(name@);
    assert forall|k: int| 0 <= k < label.len() implies text[k] != '.' by {
        assert(text[k] == label[k]);
        assert(label.contains(label[k]));
    }
    if text.len() > label.len() {
        assert(text[label.len() as int] == '.');
    }
    crate::scan::lemma_first_place(text, '.', label.len() as int);
    assert(text.take(label.len() as int) =~= label);
}

/// How a machine is reached is told of the first of that identity, and one that is not there is worth
/// trying again.
pub proof fn law_only_visible_machines_are_reached(
    status: TailscaleStatus,
    id: &str,
    i: int,
    r: PortResult<ConnectionInfo>,
)
    requires
        call_ensures(connection_info, (&status, id), r),
        0 <= i <= status.peers@.len(),
        forall|k: int| 0 <= k < i ==> (#[trigger] status.peers@[k]).id@ != id@,
        i < status.peers@.len() ==> status.peers@[i].id@ == id@,
    ensures
        r is Ok <==> i < status.peers@.len(),
        r matches Ok(info) ==> (info.kind == ConnectionKind::Direct <==> (status.peers@[i].cur_addr
            matches Some(text) && text@.len() > 0)),
        r matches Err(error) ==> error.code@ == "PEER_OFFLINE"@ && error.retryable,
{
    if i < status.peers@.len() {
        lemma_first_where_at(status.peers@, has_id(id@), i);
    } else {
        lemma_first_where_none(status.peers@, has_id(id@));
    }
    if let Err(error) = r {
        assert(error@.code == error.code@);
        assert(error@.retryable == error.retryable);
    }
}

/// Tailscale is asked for its status, and for whose an address is.
pub proof fn law_tailscale_is_asked_in_json(status: CommandSpec, source: IpAddr, whois: CommandSpec)
    requires
        call_ensures(status_spec, (), status),
        call_ensures(whois_spec, (source,), whois),
    ensures
        status.program@ == "tailscale"@ && texts(status.args@) == seq!["status"@, "--json"@],
        status.stdout_limit == 4 * 1024 * 1024,
        whois.program@ == "tailscale"@ && texts(whois.args@) == seq![
            "whois"@,
            "--json"@,
            ip_text(source),
        ],
{
}

/// An address belongs to whom the answer names, by the identity as it came; to nobody where the call
/// failed; any other failure is one.
pub proof fn law_an_address_belongs_to_whom_the_answer_names(
    answer: PortResult<Result<WhoisResponse, String>>,
    r: PortResult<Option<MeshNodeIdentity>>,
)
    requires
        call_ensures(identify_source, (answer,), r),
    ensures
        answer matches Ok(Ok(whois)) ==> (r matches Ok(Some(identity)) && (whois.node.stable_id
            matches Some(id) ==> identity.tailnet_node_id@ == id@) && (whois.node.stable_id is None
            ==> identity.tailnet_node_id@.len() == 0) && identity.addresses@.len() == 0),
        answer matches Ok(Err(_)) ==> (r matches Err(error) && error.code@ == "TAILSCALE_WHOIS_INVALID"@
            && !error.retryable),
        answer matches Err(error) ==> if error.code@ == "COMMAND_FAILED"@ {
            r matches Ok(None)
        } else {
            r matches Err(told) && told@ == error@
        },
{
    if let Err(error) = answer {
        assert(error@.code == error.code@);
    }
    if let Err(error) = r {
        assert(error@.code == error.code@);
        assert(error@.retryable == error.retryable);
    }
}

/// A machine is taken where its identity has at most 256 bytes, its names at most 255 each and its
/// addresses are at most 16.
pub proof fn law_a_machine_is_taken_within_its_limits(peer: &RawPeer, r: PortResult<()>)
    requires
        call_ensures(validate_peer, (peer,), r),
    ensures
        r is Ok <==> byte_len(peer.id@) <= 256 && (peer.dns_name matches Some(name) ==> byte_len(name@) <= 255)
            && (peer.host_name matches Some(name) ==> byte_len(name@) <= 255)
            && peer.tailscale_ips@.len() <= 16,
        r matches Err(error) ==> error@.code == "TAILSCALE_FIELD_LIMIT"@,
{
}

/// A machine of an answer is known by its stable identity, and by none where the answer has none;
/// an answer that cannot be read is told with its detail.
pub proof fn law_an_answer_names_a_machine_by_its_stable_identity(
    whois: WhoisResponse,
    known: PortResult<MeshNodeIdentity>,
    detail: String,
    unread: PortResult<MeshNodeIdentity>,
)
    requires
        call_ensures(parse_whois, (Ok(whois),), known),
        call_ensures(parse_whois, (Err(detail),), unread),
    ensures
        known is Ok,
        whois.node.stable_id matches Some(id) ==> known->Ok_0.tailnet_node_id@ == id@,
        whois.node.stable_id is None ==> known->Ok_0.tailnet_node_id@.len() == 0,
        known->Ok_0.addresses@.len() == 0,
        unread matches Err(error) && error@.code == "TAILSCALE_WHOIS_INVALID"@ && error@.message
            == "unable to parse tailscale whois: "@ + detail@,
{
}

/// A report that is too large or cannot be read is refused, with its detail; a machine that is not
/// in one is not visible, which may change.
pub proof fn law_unreadable_reports_are_refused(
    size: usize,
    detail: String,
    status: &TailscaleStatus,
    id: &str,
    unread: PortResult<TailscaleStatus>,
    info: PortResult<ConnectionInfo>,
)
    requires
        call_ensures(parse_status, (size, Err(detail)), unread),
        call_ensures(connection_info, (status, id), info),
    ensures
        unread is Err,
        unread matches Err(error) ==> error@.code == "TAILSCALE_STATUS_INVALID"@ ==> error@.message
            == "unable to parse tailscale status: "@ + detail@,
        unread matches Err(error) ==> error@.code == "TAILSCALE_STATUS_LIMIT"@ || error@.code
            == "TAILSCALE_STATUS_INVALID"@,
        size <= 1024 ==> unread->Err_0@.code == "TAILSCALE_STATUS_INVALID"@,
        info matches Err(error) ==> error@.code == "PEER_OFFLINE"@ && error@.message
            == "peer is not visible"@ && error@.retryable,
{
    reveal_strlit("TAILSCALE_STATUS_INVALID");
    reveal_strlit("TAILSCALE_STATUS_LIMIT");
    assert("TAILSCALE_STATUS_INVALID"@.len() != "TAILSCALE_STATUS_LIMIT"@.len());
}

} // verus!
