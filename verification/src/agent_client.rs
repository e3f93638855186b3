//! How agents are called over HTTP and what is taken of their answers.
use vstd::prelude::*;
use vstd::string::*;

use crate::access::{capability_names, is_capability_name};
use crate::address::{address_text, ip_text};
use crate::domain::{ControlCapability, Display, DisplayView, Window, WindowView, Workspace, WorkspaceView};
use crate::error_code::{ErrorCode, ErrorEnvelope};
use crate::ports::{port_error, AgentEndpoint, PortError, PortErrorView, PortResult};
use crate::protocol::{HealthResponse, NodeInfoResponse};
use crate::release::{compatible_release, is_compatible_release, RELEASE};
use crate::seqs::{lemma_filter_nothing, lemma_filter_step, map_each};
use crate::strings::{byte_count, byte_len, decimal, opt_text, push_decimal, texts};
use crate::text::{
    sanitize_for_display, sanitize_owned, sanitized, sanitized_option, DISPLAY_LINE_LIMIT, DISPLAY_NAME_LIMIT,
};

verus! {

pub const PROBE_TIMEOUT_SECONDS: u64 = 2;

pub const REQUEST_TIMEOUT_SECONDS: u64 = 10;

pub const MAX_RESPONSE_BYTES: usize = 1_048_576;

pub const MAX_NODE_FIELD_BYTES: usize = 256;

pub const MAX_VERSION_BYTES: usize = 128;

pub const MAX_CAPABILITIES: usize = 128;

pub const MAX_CAPABILITY_BYTES: usize = 128;

/// Where a request goes: an address of eight groups stands in brackets.
pub open spec fn agent_url(endpoint: AgentEndpoint, path: Seq<char>) -> Seq<char> {
    let address = if endpoint.address.spec_is_ipv4() {
        ip_text(endpoint.address)
    } else {
        "["@ + ip_text(endpoint.address) + "]"@
    };
    "http://"@ + address + ":"@ + decimal(endpoint.port as nat) + path
}

pub fn url(endpoint: &AgentEndpoint, path: &str) -> (r: String)
    ensures
        r@ == agent_url(*endpoint, path@),
{
    let address = if endpoint.address.is_ipv4() {
        address_text(endpoint.address)
    } else {
        "[".to_owned().concat(address_text(endpoint.address).as_str()).concat("]")
    };
    let mut out = "http://".to_owned().concat(address.as_str()).concat(":");
    push_decimal(&mut out, endpoint.port as u64);
    out.append(path);
    out
}

/// The path under which a window is brought to the front.
pub fn focus_window_path(window: &str) -> (r: String)
    ensures
        r@ == "/v1/windows/"@ + window@ + "/focus"@,
{
    "/v1/windows/".to_owned().concat(window).concat("/focus")
}

/// Adds a piece of an answer, unless it would be too large.
pub fn take_chunk(body: &mut Vec<u8>, piece: &[u8]) -> (r: PortResult<()>)
    ensures
        if old(body)@.len() + piece@.len() > MAX_RESPONSE_BYTES {
            &&& final(body)@ == old(body)@
            &&& r is Err
            &&& r->Err_0@ == port_error(
                "AGENT_RESPONSE_LIMIT"@,
                "the device response exceeded the maximum size"@,
                false,
            )
        } else {
            &&& final(body)@ == old(body)@ + piece@
            &&& r is Ok
        },
{
    let used: usize = body.len();
    if used > MAX_RESPONSE_BYTES || piece.len() > MAX_RESPONSE_BYTES - used {
        return Err(
            PortError::plain(
                "AGENT_RESPONSE_LIMIT",
                "the device response exceeded the maximum size",
                false,
            ),
        );
    }
    let mut i: usize = 0;
    while i < piece.len()
        invariant
            i <= piece@.len(),
            body@ == old(body)@ + piece@.take(i as int),
        decreases piece@.len() - i,
    {
        body.push(piece[i]);
        assert(body@ =~= old(body)@ + piece@.take(i + 1));
        i += 1;
    }
    assert(piece@.take(piece@.len() as int) =~= piece@);
    Ok(())
}

/// What an answer that could not be read is reported as.
pub fn invalid_response() -> (r: PortError)
    ensures
        r@ == port_error(
            "AGENT_PROTOCOL_INVALID"@,
            "the device returned an incompatible response"@,
            false,
        ),
{
    PortError::plain("AGENT_PROTOCOL_INVALID", "the device returned an incompatible response", false)
}

/// What a device that does not answer is reported as.
pub fn network_error() -> (r: PortError)
    ensures
        r@ == port_error("AGENT_UNREACHABLE"@, "the device could not be reached"@, true),
{
    PortError::plain("AGENT_UNREACHABLE", "the device could not be reached", true)
}

/// Whether a text is a code of the wire.
pub open spec fn is_wire_code(code: Seq<char>) -> bool {
    exists|c: ErrorCode| code == #[trigger] c.wire()
}

/// A refusal as it is reported here: under its code where that is one of the wire.
pub open spec fn refusal(status: u16, status_text: Seq<char>, envelope: Option<ErrorEnvelope>) -> PortErrorView {
    match envelope {
        Some(envelope) => port_error(
            if is_wire_code(envelope.error.code@) {
                envelope.error.code@
            } else {
                "AGENT_REQUEST_FAILED"@
            },
            envelope.error.message@,
            envelope.error.retryable,
        ),
        None => port_error(
            "AGENT_REQUEST_FAILED"@,
            "agent returned HTTP "@ + status_text,
            500 <= status < 600,
        ),
    }
}

pub fn http_error(status: u16, status_text: &str, envelope: Option<ErrorEnvelope>) -> (r: PortError)
    ensures
        r@ == refusal(status, status_text@, envelope),
{
    match envelope {
        Some(envelope) => match envelope.error.known_code() {
            Some(code) => {
                assert(is_wire_code(envelope.error.code@));
                PortError::new(code.as_str(), envelope.error.message, envelope.error.retryable)
            },
            None => PortError::new(
                "AGENT_REQUEST_FAILED",
                envelope.error.message,
                envelope.error.retryable,
            ),
        },
        None => PortError::new(
            "AGENT_REQUEST_FAILED",
            "agent returned HTTP ".to_owned().concat(status_text),
            500 <= status && status < 600,
        ),
    }
}

/// What an agent of another release is reported as.
pub open spec fn mismatch(remote: Option<Seq<char>>) -> PortErrorView {
    port_error(
        "VERSION_INCOMPATIBLE"@,
        "the device runs Omdesky "@ + (match remote {
            Some(release) => sanitized(release, DISPLAY_NAME_LIMIT as nat),
            None => "an earlier release"@,
        }) + " and this computer runs "@ + RELEASE@,
        false,
    )
}

pub fn release_mismatch(remote: Option<&str>) -> (r: PortError)
    ensures
        r@ == mismatch(
            match remote {
                Some(release) => Some(release@),
                None => None,
            },
        ),
{
    let remote = match remote {
        Some(release) => sanitize_for_display(release, DISPLAY_NAME_LIMIT),
        None => "an earlier release".to_owned(),
    };
    PortError::new(
        "VERSION_INCOMPATIBLE",
        "the device runs Omdesky ".to_owned().concat(remote.as_str()).concat(
            " and this computer runs ",
        ).concat(RELEASE),
        false,
    )
}

/// An answer counts only where it tells a release of this line.
pub fn verify_release(release: Option<&str>) -> (r: PortResult<()>)
    ensures
        if release matches Some(version) && compatible_release(version@) {
            r is Ok
        } else {
            r is Err && r->Err_0@ == mismatch(
                match release {
                    Some(version) => Some(version@),
                    None => None,
                },
            )
        },
{
    match release {
        Some(version) => if is_compatible_release(version) {
            Ok(())
        } else {
            Err(release_mismatch(Some(version)))
        },
        None => Err(release_mismatch(None)),
    }
}

pub open spec fn oversized() -> PortErrorView {
    port_error("AGENT_FIELD_LIMIT"@, "the device response contained an oversized field"@, false)
}

fn oversized_field() -> (r: PortError)
    ensures
        r@ == oversized(),
{
    PortError::plain("AGENT_FIELD_LIMIT", "the device response contained an oversized field", false)
}

/// Takes a sign of life: its version may be shown.
pub fn checked_health(health: HealthResponse) -> (r: PortResult<HealthResponse>)
    ensures
        if byte_len(health.agent_version@) > MAX_VERSION_BYTES {
            r is Err && r->Err_0@ == oversized()
        } else {
            r is Ok && r->Ok_0.agent_version@ == sanitized(
                health.agent_version@,
                DISPLAY_NAME_LIMIT as nat,
            ) && r->Ok_0.status == health.status && r->Ok_0.protocol == health.protocol
        },
{
    if byte_count(health.agent_version.as_str()) > MAX_VERSION_BYTES {
        return Err(oversized_field());
    }
    let mut health = health;
    health.agent_version = sanitize_for_display(health.agent_version.as_str(), DISPLAY_NAME_LIMIT);
    Ok(health)
}

pub open spec fn shown_display() -> spec_fn(Display) -> DisplayView {
    |d: Display|
        DisplayView {
            id: sanitized(d.id@, DISPLAY_NAME_LIMIT as nat),
            name: sanitized(d.name@, DISPLAY_NAME_LIMIT as nat),
            ..d@
        }
}

pub open spec fn display_view() -> spec_fn(Display) -> DisplayView {
    |d: Display| d@
}

pub fn sanitize_display(display: Display) -> (r: Display)
    ensures
        display_view()(r) == shown_display()(display),
{
    let id = sanitize_for_display(display.id.as_str(), DISPLAY_NAME_LIMIT);
    let name = sanitize_for_display(display.name.as_str(), DISPLAY_NAME_LIMIT);
    Display { id, name, ..display }
}

pub fn sanitize_displays(displays: Vec<Display>) -> (r: Vec<Display>)
    ensures
        r@.map_values(display_view()) == displays@.map_values(shown_display()),
{
    map_each::<Display, Display, DisplayView, _>(
        displays,
        sanitize_display,
        Ghost(shown_display()),
        Ghost(display_view()),
    )
}

pub open spec fn shown_workspace() -> spec_fn(Workspace) -> WorkspaceView {
    |w: Workspace|
        WorkspaceView {
            name: sanitized_option(opt_text(w.name), DISPLAY_NAME_LIMIT as nat),
            monitor: sanitized_option(opt_text(w.monitor), DISPLAY_NAME_LIMIT as nat),
            ..w@
        }
}

pub open spec fn workspace_view() -> spec_fn(Workspace) -> WorkspaceView {
    |w: Workspace| w@
}

pub fn sanitize_workspace(workspace: Workspace) -> (r: Workspace)
    ensures
        workspace_view()(r) == shown_workspace()(workspace),
{
    let name = sanitize_owned(&workspace.name, DISPLAY_NAME_LIMIT);
    let monitor = sanitize_owned(&workspace.monitor, DISPLAY_NAME_LIMIT);
    Workspace { name, monitor, ..workspace }
}

pub fn sanitize_workspaces(workspaces: Vec<Workspace>) -> (r: Vec<Workspace>)
    ensures
        r@.map_values(workspace_view()) == workspaces@.map_values(shown_workspace()),
{
    map_each::<Workspace, Workspace, WorkspaceView, _>(
        workspaces,
        sanitize_workspace,
        Ghost(shown_workspace()),
        Ghost(workspace_view()),
    )
}

/// A window with its texts as they may be shown; its address stays as it is.
pub open spec fn shown_window() -> spec_fn(Window) -> WindowView {
    |w: Window|
        WindowView {
            app_id: sanitized_option(opt_text(w.app_id), DISPLAY_NAME_LIMIT as nat),
            class: sanitized_option(opt_text(w.class), DISPLAY_NAME_LIMIT as nat),
            title: sanitized_option(opt_text(w.title), DISPLAY_LINE_LIMIT as nat),
            ..w@
        }
}

pub open spec fn window_view() -> spec_fn(Window) -> WindowView {
    |w: Window| w@
}

pub fn sanitize_window(window: Window) -> (r: Window)
    ensures
        window_view()(r) == shown_window()(window),
{
    let app_id = sanitize_owned(&window.app_id, DISPLAY_NAME_LIMIT);
    let class = sanitize_owned(&window.class, DISPLAY_NAME_LIMIT);
    let title = sanitize_owned(&window.title, DISPLAY_LINE_LIMIT);
    Window { app_id, class, title, ..window }
}

pub fn sanitize_windows(windows: Vec<Window>) -> (r: Vec<Window>)
    ensures
        r@.map_values(window_view()) == windows@.map_values(shown_window()),
{
    map_each::<Window, Window, WindowView, _>(
        windows,
        sanitize_window,
        Ghost(shown_window()),
        Ghost(window_view()),
    )
}

pub open spec fn sanitized_texts(v: Seq<Seq<char>>) -> Seq<Seq<char>> {
    v.map_values(|s: Seq<char>| sanitized(s, DISPLAY_NAME_LIMIT as nat))
}

fn sanitize_texts(v: &Vec<String>) -> (r: Vec<String>)
    ensures
        texts(r@) == sanitized_texts(texts(v@)),
{
    let ghost goal = sanitized_texts(texts(v@));
    let mut out: Vec<String> = Vec::new();
    let mut i: usize = 0;
    assert(texts(out@) =~= goal.take(0));
    while i < v.len()
        invariant
            i <= v@.len(),
            goal == sanitized_texts(texts(v@)),
            texts(out@) == goal.take(i as int),
        decreases v@.len() - i,
    {
        let ghost before = out@;
        let text = sanitize_for_display(v[i].as_str(), DISPLAY_NAME_LIMIT);
        out.push(text);
        assert(texts(out@) =~= texts(before).push(text@));
        assert(goal.take(i + 1) =~= goal.take(i as int).push(goal[i as int]));
        i += 1;
    }
    assert(goal.take(goal.len() as int) =~= goal);
    out
}

/// Whether an answer is the other with its texts as they may be shown.
pub open spec fn is_shown_info(r: NodeInfoResponse, response: NodeInfoResponse) -> bool {
    &&& r.node_id@ == sanitized(response.node_id@, DISPLAY_NAME_LIMIT as nat)
    &&& r.hostname@ == sanitized(response.hostname@, DISPLAY_NAME_LIMIT as nat)
    &&& r.omarchy_version@ == sanitized(response.omarchy_version@, DISPLAY_NAME_LIMIT as nat)
    &&& r.agent_version@ == sanitized(response.agent_version@, DISPLAY_NAME_LIMIT as nat)
    &&& r.protocol_versions == response.protocol_versions
    &&& texts(r.capabilities@) == sanitized_texts(texts(response.capabilities@))
}

pub fn sanitize_node_info(response: NodeInfoResponse) -> (r: NodeInfoResponse)
    ensures
        is_shown_info(r, response),
{
    NodeInfoResponse {
        node_id: sanitize_for_display(response.node_id.as_str(), DISPLAY_NAME_LIMIT),
        hostname: sanitize_for_display(response.hostname.as_str(), DISPLAY_NAME_LIMIT),
        omarchy_version: sanitize_for_display(response.omarchy_version.as_str(), DISPLAY_NAME_LIMIT),
        agent_version: sanitize_for_display(response.agent_version.as_str(), DISPLAY_NAME_LIMIT),
        capabilities: sanitize_texts(&response.capabilities),
        protocol_versions: response.protocol_versions,
    }
}

/// Whether no field of an answer is larger than it may be.
pub open spec fn fields_fit(response: NodeInfoResponse) -> bool {
    &&& byte_len(response.node_id@) <= MAX_NODE_FIELD_BYTES
    &&& byte_len(response.hostname@) <= MAX_NODE_FIELD_BYTES
    &&& byte_len(response.omarchy_version@) <= MAX_VERSION_BYTES
    &&& byte_len(response.agent_version@) <= MAX_VERSION_BYTES
    &&& response.capabilities@.len() <= MAX_CAPABILITIES
    &&& forall|i: int|
        0 <= i < response.capabilities@.len() ==> byte_len((#[trigger] response.capabilities@[i])@)
            <= MAX_CAPABILITY_BYTES
}

fn capabilities_fit(capabilities: &Vec<String>) -> (r: bool)
    ensures
        r == forall|i: int|
            0 <= i < capabilities@.len() ==> byte_len((#[trigger] capabilities@[i])@)
                <= MAX_CAPABILITY_BYTES,
{
    let mut i: usize = 0;
    while i < capabilities.len()
        invariant
            i <= capabilities@.len(),
            forall|k: int|
                0 <= k < i ==> byte_len((#[trigger] capabilities@[k])@) <= MAX_CAPABILITY_BYTES,
        decreases capabilities@.len() - i,
    {
        if byte_count(capabilities[i].as_str()) > MAX_CAPABILITY_BYTES {
            assert(byte_len(capabilities@[i as int]@) > MAX_CAPABILITY_BYTES);
            return false;
        }
        i += 1;
    }
    true
}

pub fn validate_node_info(response: NodeInfoResponse) -> (r: PortResult<NodeInfoResponse>)
    ensures
        if fields_fit(response) {
            r is Ok && is_shown_info(r->Ok_0, response)
        } else {
            r is Err && r->Err_0@ == oversized()
        },
{
    let valid = byte_count(response.node_id.as_str()) <= MAX_NODE_FIELD_BYTES && byte_count(
        response.hostname.as_str(),
    ) <= MAX_NODE_FIELD_BYTES && byte_count(response.omarchy_version.as_str()) <= MAX_VERSION_BYTES
        && byte_count(response.agent_version.as_str()) <= MAX_VERSION_BYTES
        && response.capabilities.len() <= MAX_CAPABILITIES && capabilities_fit(&response.capabilities);
    if !valid {
        return Err(oversized_field());
    }
    Ok(sanitize_node_info(response))
}

/// Whether a text is the name of a capability of this release.
pub open spec fn known_name() -> spec_fn(Seq<char>) -> bool {
    |name: Seq<char>| is_capability_name(name)
}

/// What an agent says that it grants. Names that this release does not know are left out.
pub fn granted_capabilities(names: &[String]) -> (r: Vec<ControlCapability>)
    ensures
        capability_names(r@) == texts(names@).filter(known_name()),
{
    let ghost all = texts(names@);
    let mut granted: Vec<ControlCapability> = Vec::new();
    let mut i: usize = 0;
    proof {
        lemma_filter_nothing(all.take(0), known_name());
    }
    assert(capability_names(granted@) =~= all.take(0).filter(known_name()));
    while i < names.len()
        invariant
            i <= names@.len(),
            all == texts(names@),
            capability_names(granted@) == all.take(i as int).filter(known_name()),
        decreases names@.len() - i,
    {
        proof {
            lemma_filter_step(all, known_name(), i as int);
        }
        let ghost before = granted@;
        match ControlCapability::from_str(names[i].as_str()) {
            Ok(capability) => {
                granted.push(capability);
                assert(is_capability_name(all[i as int]));
                assert(capability_names(granted@) =~= capability_names(before).push(all[i as int]));
            },
            Err(_) => {},
        }
        i += 1;
    }
    assert(all.take(all.len() as int) =~= all);
    granted
}

/// An agent that grants what this release knows is taken at its word.
pub proof fn law_known_grants_arrive(granted: Seq<ControlCapability>)
    ensures
        capability_names(granted).filter(known_name()) == capability_names(granted),
    decreases granted.len(),
{
    let names = capability_names(granted);
    if granted.len() == 0 {
        lemma_filter_nothing(names, known_name());
        assert(names.filter(known_name()) =~= names);
    } else {
        law_known_grants_arrive(granted.drop_last());
        assert(capability_names(granted.drop_last()) =~= names.drop_last());
        assert(names.last() == granted.last().spec_as_str());
        lemma_filter_step(names, known_name(), names.len() - 1);
        assert(names.take(names.len() as int) =~= names);
        assert(names.take(names.len() - 1) =~= names.drop_last());
        assert(is_capability_name(names.last()));
        assert(names.drop_last().push(names.last()) =~= names);
    }
}

/// Whatever an agent answers, the message for people depends on the code alone: where the code is
/// none of the wire, it is that of a failed request.
pub proof fn law_unknown_codes_become_failed_requests(status: u16, text: Seq<char>, envelope: ErrorEnvelope)
    requires
        !is_wire_code(envelope.error.code@),
    ensures
        refusal(status, text, Some(envelope)).code == "AGENT_REQUEST_FAILED"@,
{
}

/// Every code of the wire arrives as it was sent.
pub proof fn law_wire_codes_arrive(status: u16, text: Seq<char>, envelope: ErrorEnvelope, code: ErrorCode)
    requires
        envelope.error.code@ == code.wire(),
    ensures
        refusal(status, text, Some(envelope)).code == code.wire(),
{
    assert(is_wire_code(code.wire()));
}

/// A request goes to the address and the port of its agent, and an address of eight groups stands in
/// brackets.
pub proof fn law_a_request_goes_to_its_agent(endpoint: AgentEndpoint, path: &str, r: String)
    requires
        call_ensures(url, (&endpoint, path), r),
    ensures
        endpoint.address is V4 ==> r@ == "http://"@ + ip_text(endpoint.address) + ":"@ + decimal(
            endpoint.port as nat,
        ) + path@,
        endpoint.address is V6 ==> r@ == "http://"@ + ("["@ + ip_text(endpoint.address) + "]"@) + ":"@
            + decimal(endpoint.port as nat) + path@,
{
}

/// A window is brought to the front under its own path.
pub proof fn law_a_window_has_its_path(window: &str, r: String)
    requires
        call_ensures(focus_window_path, (window,), r),
    ensures
        r@ == "/v1/windows/"@ + window@ + "/focus"@,
{
}

/// An answer is taken up to a mebibyte, to the byte; a piece that would go over it is not taken.
pub proof fn law_an_answer_is_taken_up_to_a_mebibyte(body: &mut Vec<u8>, piece: &[u8], r: PortResult<()>)
    requires
        call_ensures(take_chunk, (body, piece), r),
    ensures
        r is Ok <==> old(body)@.len() + piece@.len() <= 1024 * 1024,
        r is Ok ==> final(body)@ == old(body)@ + piece@,
        r is Err ==> final(body)@ == old(body)@,
        r matches Err(error) ==> error.code@ == "AGENT_RESPONSE_LIMIT"@ && !error.retryable,
{
    if let Err(error) = r {
        assert(error@.code == error.code@);
        assert(error@.retryable == error.retryable);
    }
}

/// A refusal of an agent arrives under its own code, where this release knows it, with its own words
/// and its own advice; without a readable one, only a fault of the agent is worth trying again.
pub proof fn law_a_refusal_arrives_as_it_was_sent(
    status: u16,
    text: &str,
    envelope: Option<ErrorEnvelope>,
    known: Option<ErrorCode>,
    r: PortError,
)
    requires
        call_ensures(http_error, (status, text, envelope), r),
        envelope matches Some(told) ==> call_ensures(
            crate::error_code::ProtocolError::known_code,
            (&told.error,),
            known,
        ),
    ensures
        envelope matches Some(told) ==> {
            &&& r.message@ == told.error.message@
            &&& r.retryable == told.error.retryable
            &&& known is Some ==> r.code@ == told.error.code@
            &&& known is None ==> r.code@ == "AGENT_REQUEST_FAILED"@
        },
        envelope is None ==> r.code@ == "AGENT_REQUEST_FAILED"@ && r.message@ == "agent returned HTTP "@
            + text@ && (r.retryable <==> 500 <= status <= 599),
{
    assert(r@.code == r.code@);
    assert(r@.message == r.message@);
    assert(r@.retryable == r.retryable);
}

/// An agent that is not reached is worth trying again; an answer that cannot be read is not.
pub proof fn law_only_an_unreached_agent_is_tried_again(unreached: PortError, unreadable: PortError)
    requires
        call_ensures(network_error, (), unreached),
        call_ensures(invalid_response, (), unreadable),
    ensures
        unreached.code@ == "AGENT_UNREACHABLE"@ && unreached.retryable,
        unreadable.code@ == "AGENT_PROTOCOL_INVALID"@ && !unreadable.retryable,
{
    assert(unreached@.code == unreached.code@ && unreached@.retryable == unreached.retryable);
    assert(unreadable@.code == unreadable.code@ && unreadable@.retryable == unreadable.retryable);
}

/// An answer counts only where it tells a release that works with this one; else both releases are
/// named, the other as it may be shown.
pub proof fn law_an_answer_tells_its_release(release: Option<&str>, r: PortResult<()>)
    requires
        call_ensures(verify_release, (release,), r),
    ensures
        r is Ok <==> (release matches Some(version) && compatible_release(version@)),
        r matches Err(error) ==> error.code@ == "VERSION_INCOMPATIBLE"@ && !error.retryable,
        (r is Err && release is None) ==> r->Err_0.message@
            == "the device runs Omdesky "@ + "an earlier release"@ + " and this computer runs "@ + RELEASE@,
        r is Err ==> (release matches Some(version) ==> r->Err_0.message@ == "the device runs Omdesky "@
            + sanitized(version@, 96) + " and this computer runs "@ + RELEASE@),
{
    if let Err(error) = r {
        assert(error@.code == error.code@);
        assert(error@.message == error.message@);
        assert(error@.retryable == error.retryable);
    }
}

/// A sign of life is taken where its version has up to 128 bytes, and only the version is changed, to
/// what may be shown of it.
pub proof fn law_a_sign_of_life_keeps_its_protocol(health: HealthResponse, r: PortResult<HealthResponse>)
    requires
        call_ensures(checked_health, (health,), r),
    ensures
        r is Ok <==> byte_len(health.agent_version@) <= 128,
        r matches Ok(told) ==> told.protocol == health.protocol && told.status@ == health.status@
            && told.agent_version@ == sanitized(health.agent_version@, 96),
        r matches Err(error) ==> error.code@ == "AGENT_FIELD_LIMIT"@ && !error.retryable,
{
    if let Err(error) = r {
        assert(error@.code == error.code@);
        assert(error@.retryable == error.retryable);
    }
}

/// What an agent tells of itself is taken where its names have up to 256 bytes, its versions up to 128,
/// and it offers up to 128 things of up to 128 bytes; then every text is made fit to be shown.
pub proof fn law_what_an_agent_tells_is_bounded(response: NodeInfoResponse, r: PortResult<NodeInfoResponse>)
    requires
        call_ensures(validate_node_info, (response,), r),
    ensures
        r is Ok <==> {
            &&& byte_len(response.node_id@) <= 256
            &&& byte_len(response.hostname@) <= 256
            &&& byte_len(response.omarchy_version@) <= 128
            &&& byte_len(response.agent_version@) <= 128
            &&& response.capabilities@.len() <= 128
            &&& forall|i: int|
                0 <= i < response.capabilities@.len() ==> byte_len(
                    (#[trigger] response.capabilities@[i])@,
                ) <= 128
        },
        r matches Ok(told) ==> {
            &&& told.node_id@ == sanitized(response.node_id@, 96)
            &&& told.hostname@ == sanitized(response.hostname@, 96)
            &&& told.omarchy_version@ == sanitized(response.omarchy_version@, 96)
            &&& told.agent_version@ == sanitized(response.agent_version@, 96)
            &&& told.protocol_versions@ == response.protocol_versions@
            &&& told.capabilities@.len() == response.capabilities@.len()
            &&& forall|i: int|
                0 <= i < told.capabilities@.len() ==> (#[trigger] told.capabilities@[i])@ == sanitized(
                    response.capabilities@[i]@,
                    96,
                )
        },
        r matches Err(error) ==> error.code@ == "AGENT_FIELD_LIMIT"@,
{
    if let Err(error) = r {
        assert(error@.code == error.code@);
    }
    if let Ok(told) = r {
        let a = texts(told.capabilities@);
        let b = sanitized_texts(texts(response.capabilities@));
        assert(a.len() == b.len());
        assert forall|i: int| 0 <= i < told.capabilities@.len() implies (
        #[trigger] told.capabilities@[i])@ == sanitized(response.capabilities@[i]@, 96) by {
            assert(a[i] == b[i]);
        }
    }
}

/// What an agent grants is what of its names this release knows, each as often as it is named.
pub proof fn law_a_grant_is_known_by_its_name(
    names: &[String],
    r: Vec<ControlCapability>,
    capability: ControlCapability,
    i: int,
)
    requires
        call_ensures(granted_capabilities, (names,), r),
        0 <= i < names@.len(),
    ensures
        names@[i]@ == capability.spec_as_str() ==> r@.contains(capability),
        r@.len() <= names@.len(),
{
    let all = texts(names@);
    let p = known_name();
    all.lemma_filter_len(p);
    let kept = all.filter(p);
    assert(capability_names(r@).len() == r@.len());
    if names@[i]@ == capability.spec_as_str() {
        assert(all[i] == capability.spec_as_str());
        assert(is_capability_name(all[i]));
        all.lemma_filter_contains(p, i);
        let k = choose|k: int| 0 <= k < kept.len() && kept[k] == all[i];
        assert(capability_names(r@)[k] == r@[k].spec_as_str());
        crate::domain::law_capability_names_are_distinct(r@[k], capability);
        assert(r@[k] == capability);
    }
}

/// What a desktop tells is changed only in the texts that are shown: monitors in name and identifier,
/// workspaces in name and monitor, windows in all but their address.
pub proof fn law_only_shown_texts_are_changed(
    display: Display,
    d: Display,
    workspace: Workspace,
    w: Workspace,
    window: Window,
    v: Window,
)
    requires
        call_ensures(sanitize_display, (display,), d),
        call_ensures(sanitize_workspace, (workspace,), w),
        call_ensures(sanitize_window, (window,), v),
    ensures
        d.id@ == sanitized(display.id@, 96) && d.name@ == sanitized(display.name@, 96) && d.width
            == display.width && d.height == display.height && d.refresh_bits == display.refresh_bits
            && d.focused == display.focused,
        w.id == workspace.id && w.focused == workspace.focused && w.windows == workspace.windows,
        workspace.name matches Some(name) ==> (w.name matches Some(shown) && shown@ == sanitized(
            name@,
            96,
        )),
        workspace.name is None ==> w.name is None,
        workspace.monitor matches Some(name) ==> (w.monitor matches Some(shown) && shown@ == sanitized(
            name@,
            96,
        )),
        v.id@ == window.id@ && v.workspace == window.workspace && v.focused == window.focused,
        window.title matches Some(title) ==> (v.title matches Some(shown) && shown@ == sanitized(
            title@,
            256,
        )),
        window.class matches Some(class) ==> (v.class matches Some(shown) && shown@ == sanitized(
            class@,
            96,
        )),
        window.app_id matches Some(id) ==> (v.app_id matches Some(shown) && shown@ == sanitized(id@, 96)),
        window.class is None ==> v.class is None,
        window.title is None ==> v.title is None,
        window.app_id is None ==> v.app_id is None,
{
    assert(display_view()(d) == d@);
    assert(workspace_view()(w) == w@);
    assert(window_view()(v) == v@);
    assert(d@.id == d.id@ && d@.name == d.name@ && d@.width == d.width && d@.height == d.height
        && d@.refresh_bits == d.refresh_bits && d@.focused == d.focused);
    assert(w@.id == w.id && w@.focused == w.focused && w@.windows == w.windows && w@.name == opt_text(
        w.name,
    ) && w@.monitor == opt_text(w.monitor));
    assert(v@.id == v.id@ && v@.workspace == v.workspace && v@.focused == v.focused && v@.title == opt_text(
        v.title,
    ) && v@.class == opt_text(v.class) && v@.app_id == opt_text(v.app_id));
}

/// Each thing of a list is made fit to be shown in its place.
pub proof fn law_lists_keep_their_places(
    displays: Vec<Display>,
    d: Vec<Display>,
    workspaces: Vec<Workspace>,
    w: Vec<Workspace>,
    windows: Vec<Window>,
    v: Vec<Window>,
    i: int,
)
    requires
        call_ensures(sanitize_displays, (displays,), d),
        call_ensures(sanitize_workspaces, (workspaces,), w),
        call_ensures(sanitize_windows, (windows,), v),
    ensures
        d@.len() == displays@.len() && w@.len() == workspaces@.len() && v@.len() == windows@.len(),
        0 <= i < displays@.len() ==> d@[i].id@ == sanitized(displays@[i].id@, 96) && d@[i].width
            == displays@[i].width,
        0 <= i < workspaces@.len() ==> w@[i].id == workspaces@[i].id,
        0 <= i < windows@.len() ==> v@[i].id@ == windows@[i].id@,
{
    let a = d@.map_values(display_view());
    let b = displays@.map_values(shown_display());
    assert(a.len() == b.len());
    let c = w@.map_values(workspace_view());
    let e = workspaces@.map_values(shown_workspace());
    assert(c.len() == e.len());
    let f = v@.map_values(window_view());
    let g = windows@.map_values(shown_window());
    assert(f.len() == g.len());
    if 0 <= i < displays@.len() {
        assert(a[i] == b[i]);
        assert(a[i] == d@[i]@);
    }
    if 0 <= i < workspaces@.len() {
        assert(c[i] == e[i]);
        assert(c[i] == w@[i]@);
    }
    if 0 <= i < windows@.len() {
        assert(f[i] == g[i]);
        assert(f[i] == v@[i]@);
    }
}

/// What is wrong with an answer is said in words that name the device, not its text.
pub proof fn law_bad_answers_are_said_in_words(
    unreached: PortError,
    unreadable: PortError,
    body: &mut Vec<u8>,
    piece: &[u8],
    r: PortResult<()>,
)
    requires
        call_ensures(network_error, (), unreached),
        call_ensures(invalid_response, (), unreadable),
        call_ensures(take_chunk, (body, piece), r),
    ensures
        unreached@.message == "the device could not be reached"@,
        unreadable@.message == "the device returned an incompatible response"@,
        r matches Err(error) ==> error@.code == "AGENT_RESPONSE_LIMIT"@ && error@.message
            == "the device response exceeded the maximum size"@ && !error@.retryable,
{
}

} // verus!
