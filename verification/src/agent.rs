//! How the agent answers: which requests it takes, what it makes of them, and how it refuses.
use vstd::prelude::*;
use vstd::string::*;

use crate::authorize::{is_decision, AuthorizationError, AuthorizedPeer};
use crate::display::resolve_display_switch_shortcut;
use crate::domain::{
    ControlCapability, DisplayId, DomainError, IpAddr, RemoteCommand, RemoteCommandView, SessionClaim,
    SessionEndpoint, SessionRole, Window, WindowSelector, WorkspaceId, WorkspaceTarget,
};
use crate::error_code::{ErrorCode, ErrorEnvelope, ProtocolError};
use crate::ids::is_random_uuid;
use crate::pairing::{
    challenge_added, challenge_at, challenge_deadline, counters_follow, has_challenge,
    is_challenge_id, issued_to, may_issue, unexpired, PairingChallenges, PairingError,
    MAX_OUTSTANDING_PER_OWNER,
};
use crate::ports::{user_text, AgentEndpoint, AllowedController, Notification, PortError, PortErrorView};
use crate::protocol::{
    pairing_checked, CommandRequest, CommandResponse, HealthResponse, PairingFieldError,
    SunshinePairChallengeResponse, SunshinePairRequest, PROTOCOL_V1,
};
use crate::release::{compatible_release, is_compatible_release, RELEASE};
use crate::replay::{FreshnessError, ReplayGuard};
use crate::seqs::keep_when;
use crate::services::{fallback_window, MOONLIGHT_WINDOW_CLASS};
use crate::session::{
    next_generation, ActiveSession, ActiveSessionView, AttachStep, CoordinatorView, DetachStep, SessionCoordinator,
    SessionError, SessionOutcome,
};
use crate::strings::{every_char, is_whitespace, opt_text, same_optional, same_text, whitespace};

verus! {

pub const MAX_REQUEST_BODY_BYTES: usize = 65_536;

/// A refusal: the status of the HTTP answer, and what stands in it.
#[derive(Debug, PartialEq, Eq)]
pub struct ApiError {
    pub status: u16,
    pub envelope: ErrorEnvelope,
}

pub struct ApiErrorView {
    pub status: u16,
    pub code: Seq<char>,
    pub message: Seq<char>,
    pub retryable: bool,
}

impl View for ApiError {
    type V = ApiErrorView;

    open spec fn view(&self) -> ApiErrorView {
        ApiErrorView {
            status: self.status,
            code: self.envelope.error.code@,
            message: self.envelope.error.message@,
            retryable: self.envelope.error.retryable,
        }
    }
}

pub open spec fn api_error(status: u16, code: Seq<char>, message: Seq<char>, retryable: bool) -> ApiErrorView {
    ApiErrorView { status, code, message, retryable }
}

impl ApiError {
    pub fn new(status: u16, code: &str, message: &str, retryable: bool) -> (r: Self)
        ensures
            r@ == api_error(status, code@, message@, retryable),
    {
        ApiError {
            status,
            envelope: ErrorEnvelope {
                error: ProtocolError {
                    code: code.to_owned(),
                    message: message.to_owned(),
                    retryable,
                },
            },
        }
    }

    /// The refusal of a code of the wire: status and retry follow from the code.
    pub fn of_code(code: ErrorCode, message: &str) -> (r: Self)
        ensures
            r@ == api_error(code.status(), code.wire(), message@, code.may_retry()),
    {
        ApiError {
            status: code.http_status(),
            envelope: ErrorEnvelope::new(code, message.to_owned()),
        }
    }

    /// What a failure of the outside is answered with. The detail of the failure stays here.
    pub fn from_port(error: &PortError) -> (r: Self)
        ensures
            r@ == port_refusal(error@),
    {
        let code = error.code;
        let status: u16 = if same_text(code, "HYPRLAND_UNAVAILABLE") {
            503
        } else if same_text(code, "WORKSPACE_NOT_FOUND") || same_text(code, "WINDOW_NOT_FOUND")
            || same_text(code, "DISPLAY_NOT_FOUND") {
            404
        } else if same_text(code, "SUNSHINE_NOT_INSTALLED") || same_text(code, "SUNSHINE_NOT_RUNNING")
            || same_text(code, "SUNSHINE_API_UNAVAILABLE") {
            503
        } else if same_text(code, "SUNSHINE_PAIRING_FAILED") {
            502
        } else {
            500
        };
        ApiError::new(status, code, error.user_message(), error.retryable)
    }

    /// The same in the words of the wire: a code that the wire does not know becomes the internal
    /// error.
    pub fn wire_from_port(error: &PortError) -> (r: Self)
        ensures
            exists|code: ErrorCode| #[trigger]
                wire_code_of(error@.code, code) && r@ == api_error(
                    code.status(),
                    code.wire(),
                    user_text(error@.code),
                    code.may_retry(),
                ),
    {
        let code = match ErrorCode::from_code(error.code) {
            Some(code) => code,
            None => ErrorCode::Internal,
        };
        assert(wire_code_of(error@.code, code));
        ApiError::of_code(code, error.user_message())
    }
}

/// What a body that cannot be read is answered with.
pub fn body_rejected() -> (r: ApiError)
    ensures
        r@ == api_error(
            ErrorCode::InvalidCommand.status(),
            ErrorCode::InvalidCommand.wire(),
            "The request body is not valid."@,
            ErrorCode::InvalidCommand.may_retry(),
        ),
{
    ApiError::of_code(ErrorCode::InvalidCommand, "The request body is not valid.")
}

/// The code of the wire for a failure: the one of that text, or the internal error where none is.
pub open spec fn wire_code_of(text: Seq<char>, code: ErrorCode) -> bool {
    ||| code.wire() == text
    ||| code == ErrorCode::Internal && forall|c: ErrorCode| text != #[trigger] c.wire()
}

pub open spec fn port_status(code: Seq<char>) -> u16 {
    if code == "HYPRLAND_UNAVAILABLE"@ {
        503
    } else if code == "WORKSPACE_NOT_FOUND"@ || code == "WINDOW_NOT_FOUND"@ || code
        == "DISPLAY_NOT_FOUND"@ {
        404
    } else if code == "SUNSHINE_NOT_INSTALLED"@ || code == "SUNSHINE_NOT_RUNNING"@ || code
        == "SUNSHINE_API_UNAVAILABLE"@ {
        503
    } else if code == "SUNSHINE_PAIRING_FAILED"@ {
        502
    } else {
        500
    }
}

pub open spec fn port_refusal(error: PortErrorView) -> ApiErrorView {
    api_error(port_status(error.code), error.code, user_text(error.code), error.retryable)
}

/// The detail of a failure never reaches the answer.
pub proof fn law_answers_hide_the_detail(a: PortErrorView, b: PortErrorView)
    requires
        a.code == b.code,
        a.retryable == b.retryable,
    ensures
        port_refusal(a) == port_refusal(b),
{
}

pub open spec fn domain_refusal(error: DomainError) -> ApiErrorView {
    api_error(
        400,
        match error {
            DomainError::InvalidKeyChord => "INVALID_KEY_CHORD"@,
            DomainError::InvalidWindowSelector => "INVALID_WINDOW_SELECTOR"@,
            DomainError::InvalidSessionEndpoint => "INVALID_SESSION_ENDPOINT"@,
            _ => "INVALID_COMMAND"@,
        },
        "The requested action is not valid."@,
        false,
    )
}

pub fn domain_error(error: DomainError) -> (r: ApiError)
    ensures
        r@ == domain_refusal(error),
{
    let code = match error {
        DomainError::InvalidKeyChord => "INVALID_KEY_CHORD",
        DomainError::InvalidWindowSelector => "INVALID_WINDOW_SELECTOR",
        DomainError::InvalidSessionEndpoint => "INVALID_SESSION_ENDPOINT",
        _ => "INVALID_COMMAND",
    };
    ApiError::new(400, code, "The requested action is not valid.", false)
}

pub open spec fn session_refusal(error: SessionError) -> ApiErrorView {
    api_error(
        match error {
            SessionError::OwnedByAnotherController => 409,
            SessionError::NotOwner => 403,
            SessionError::NotFound => 404,
            SessionError::EffectsFailed => 503,
        },
        error.spec_code(),
        error.spec_message(),
        error == SessionError::EffectsFailed,
    )
}

pub fn session_error(error: SessionError) -> (r: ApiError)
    ensures
        r@ == session_refusal(error),
{
    let status: u16 = match error {
        SessionError::OwnedByAnotherController => 409,
        SessionError::NotOwner => 403,
        SessionError::NotFound => 404,
        SessionError::EffectsFailed => 503,
    };
    ApiError::new(status, error.code(), error.message(), error == SessionError::EffectsFailed)
}

pub open spec fn pairing_refusal(error: PairingError) -> ApiErrorView {
    api_error(
        match error {
            PairingError::RateLimited => 429,
            PairingError::UnknownChallenge => 403,
        },
        error.spec_code(),
        error.spec_message(),
        false,
    )
}

pub fn pairing_error(error: PairingError) -> (r: ApiError)
    ensures
        r@ == pairing_refusal(error),
{
    let status: u16 = match error {
        PairingError::RateLimited => 429,
        PairingError::UnknownChallenge => 403,
    };
    ApiError::new(status, error.code(), error.message(), false)
}

pub open spec fn freshness_refusal(error: FreshnessError) -> ApiErrorView {
    api_error(
        match error {
            FreshnessError::Saturated => 503,
            FreshnessError::Replayed => 409,
            _ => 400,
        },
        error.spec_code(),
        error.spec_message(),
        error == FreshnessError::Saturated,
    )
}

pub fn freshness_error(error: FreshnessError) -> (r: ApiError)
    ensures
        r@ == freshness_refusal(error),
{
    let status: u16 = match error {
        FreshnessError::Saturated => 503,
        FreshnessError::Replayed => 409,
        _ => 400,
    };
    ApiError::new(status, error.code(), error.message(), error == FreshnessError::Saturated)
}

pub open spec fn authorization_refusal(error: AuthorizationError) -> ApiErrorView {
    match error {
        AuthorizationError::RateLimited => api_error(
            429,
            "RATE_LIMITED"@,
            "Too many requests. Please slow down."@,
            true,
        ),
        AuthorizationError::Unavailable => api_error(
            503,
            "IDENTITY_UNAVAILABLE"@,
            "This device could not be identified right now. Please try again."@,
            true,
        ),
        AuthorizationError::Forbidden => api_error(
            403,
            "CAPABILITY_DENIED"@,
            "This device is not allowed to perform that action."@,
            false,
        ),
        AuthorizationError::AccessStoreFailed => api_error(
            500,
            "ACCESS_STORE_FAILED"@,
            "The allowed devices list could not be read."@,
            false,
        ),
        _ => api_error(
            401,
            "UNAUTHORIZED"@,
            "This device is not allowed to control Omdesky."@,
            false,
        ),
    }
}

pub fn authorization_error(error: AuthorizationError) -> (r: ApiError)
    ensures
        r@ == authorization_refusal(error),
{
    match error {
        AuthorizationError::RateLimited => ApiError::new(
            429,
            "RATE_LIMITED",
            "Too many requests. Please slow down.",
            true,
        ),
        AuthorizationError::Unavailable => ApiError::new(
            503,
            "IDENTITY_UNAVAILABLE",
            "This device could not be identified right now. Please try again.",
            true,
        ),
        AuthorizationError::Forbidden => ApiError::new(
            403,
            "CAPABILITY_DENIED",
            "This device is not allowed to perform that action.",
            false,
        ),
        AuthorizationError::AccessStoreFailed => ApiError::new(
            500,
            "ACCESS_STORE_FAILED",
            "The allowed devices list could not be read.",
            false,
        ),
        AuthorizationError::OutsideTailnet => unauthorized(),
        AuthorizationError::Unauthorized => unauthorized(),
    }
}

fn unauthorized() -> (r: ApiError)
    ensures
        r@ == authorization_refusal(AuthorizationError::Unauthorized),
{
    ApiError::new(401, "UNAUTHORIZED", "This device is not allowed to control Omdesky.", false)
}

/// A source outside the tailnet is answered as an unknown machine is: it learns nothing more.
pub proof fn law_outsiders_are_answered_like_strangers()
    ensures
        authorization_refusal(AuthorizationError::OutsideTailnet) == authorization_refusal(
            AuthorizationError::Unauthorized,
        ),
{
}

pub open spec fn release_refusal() -> ApiErrorView {
    api_error(
        409,
        "VERSION_INCOMPATIBLE"@,
        "this device runs Omdesky "@ + RELEASE@ + "; both computers must run the same release"@,
        false,
    )
}

/// A result with its error taken by its view.
pub open spec fn answered<T>(r: Result<T, ApiError>) -> Result<T, ApiErrorView> {
    match r {
        Ok(value) => Ok(value),
        Err(error) => Err(error@),
    }
}

/// Only a computer that tells a release of this line is served.
pub fn require_compatible_release(release: Option<&str>) -> (r: Result<(), ApiError>)
    ensures
        answered(r) == (if release matches Some(version) && compatible_release(version@) {
            Ok::<(), ApiErrorView>(())
        } else {
            Err(release_refusal())
        }),
{
    let compatible = match release {
        Some(version) => is_compatible_release(version),
        None => false,
    };
    if compatible {
        return Ok(());
    }
    let message = "this device runs Omdesky ".to_owned().concat(RELEASE).concat(
        "; both computers must run the same release",
    );
    Err(ApiError::new(409, "VERSION_INCOMPATIBLE", message.as_str(), false))
}

/// Whether the sender may do what needs the capability: it was authorized, and it is granted this.
pub open spec fn permission(
    peer: Result<&AuthorizedPeer, AuthorizationError>,
    required: ControlCapability,
) -> Result<(), ApiErrorView> {
    match peer {
        Err(error) => Err(authorization_refusal(error)),
        Ok(peer) => if peer.capabilities@.contains(required) {
            Ok(())
        } else {
            Err(authorization_refusal(AuthorizationError::Forbidden))
        },
    }
}

pub fn require_capability(
    peer: Result<&AuthorizedPeer, AuthorizationError>,
    required: ControlCapability,
) -> (r: Result<(), ApiError>)
    ensures
        answered(r) == permission(peer, required),
{
    match peer {
        Err(error) => Err(authorization_error(error)),
        Ok(peer) => if peer.allows(required) {
            Ok(())
        } else {
            Err(authorization_error(AuthorizationError::Forbidden))
        },
    }
}

/// What may be asked of the agent.
#[derive(Debug)]
pub enum AgentRoute<'a> {
    Health,
    Node,
    Capabilities,
    Displays,
    Workspaces,
    FocusWorkspace,
    Windows,
    ActiveWindow,
    FocusWindow,
    Command(&'a RemoteCommand),
    SunshineStatus,
    SunshinePairChallenge,
    SunshinePair,
}

/// What a route needs: the sign of life nothing, a command what that command needs.
pub open spec fn route_needs(route: AgentRoute) -> Option<ControlCapability> {
    match route {
        AgentRoute::Health => None,
        AgentRoute::FocusWorkspace => Some(ControlCapability::FocusWorkspace),
        AgentRoute::FocusWindow => Some(ControlCapability::FocusWorkspace),
        AgentRoute::Command(command) => Some(command@.required_capability()),
        AgentRoute::SunshinePairChallenge => Some(ControlCapability::ApprovePairing),
        AgentRoute::SunshinePair => Some(ControlCapability::ApprovePairing),
        _ => Some(ControlCapability::ReadMetadata),
    }
}

pub fn route_capability(route: &AgentRoute) -> (r: Option<ControlCapability>)
    ensures
        r == route_needs(*route),
{
    match route {
        AgentRoute::Health => None,
        AgentRoute::Node => Some(ControlCapability::ReadMetadata),
        AgentRoute::Capabilities => Some(ControlCapability::ReadMetadata),
        AgentRoute::Displays => Some(ControlCapability::ReadMetadata),
        AgentRoute::Workspaces => Some(ControlCapability::ReadMetadata),
        AgentRoute::FocusWorkspace => Some(ControlCapability::FocusWorkspace),
        AgentRoute::Windows => Some(ControlCapability::ReadMetadata),
        AgentRoute::ActiveWindow => Some(ControlCapability::ReadMetadata),
        AgentRoute::FocusWindow => Some(ControlCapability::FocusWorkspace),
        AgentRoute::Command(command) => Some(command.required_capability()),
        AgentRoute::SunshineStatus => Some(ControlCapability::ReadMetadata),
        AgentRoute::SunshinePairChallenge => Some(ControlCapability::ApprovePairing),
        AgentRoute::SunshinePair => Some(ControlCapability::ApprovePairing),
    }
}

/// The first check on a request: only the sign of life is given to every release.
pub open spec fn entry(route: AgentRoute, release: Option<Seq<char>>) -> Result<
    Option<ControlCapability>,
    ApiErrorView,
> {
    match route_needs(route) {
        None => Ok(None),
        Some(required) => if release matches Some(version) && compatible_release(version) {
            Ok(Some(required))
        } else {
            Err(release_refusal())
        },
    }
}

/// Takes in a request: the release is checked before anything is asked about the sender. The result
/// is what the sender must then be authorized for, or `None` where the route is open.
pub fn enter(route: &AgentRoute, release: Option<&str>) -> (r: Result<Option<ControlCapability>, ApiError>)
    ensures
        answered(r) == entry(
            *route,
            match release {
                Some(version) => Some(version@),
                None => None,
            },
        ),
{
    match route_capability(route) {
        None => Ok(None),
        Some(required) => match require_compatible_release(release) {
            Ok(()) => Ok(Some(required)),
            Err(error) => Err(error),
        },
    }
}

/// Every route but the sign of life needs a compatible release, and then a sender that is authorized
/// for what the route needs.
pub proof fn law_only_health_is_open(route: AgentRoute, release: Option<Seq<char>>)
    ensures
        entry(route, release) == Ok::<Option<ControlCapability>, ApiErrorView>(None) <==> route
            is Health,
        route !is Health && !(release matches Some(version) && compatible_release(version)) ==> entry(
            route,
            release,
        ) == Err::<Option<ControlCapability>, ApiErrorView>(release_refusal()),
        entry(route, release) matches Ok(Some(required)) ==> required == route_needs(route)->0,
{
}

/// What the checks on a sender came to, as a value.
pub open spec fn outcome_of(peer: Result<&AuthorizedPeer, AuthorizationError>) -> Result<
    AuthorizedPeer,
    AuthorizationError,
> {
    match peer {
        Ok(peer) => Ok(*peer),
        Err(error) => Err(error),
    }
}

/// By the list of controllers a route is served to a machine exactly where the list grants it what
/// the route needs; by an empty list nothing but the sign of life is served.
pub proof fn law_routes_follow_the_list(
    route: AgentRoute,
    entries: Seq<AllowedController>,
    id: Seq<char>,
    peer: Result<&AuthorizedPeer, AuthorizationError>,
)
    requires
        route !is Health,
        is_decision(outcome_of(peer), entries, id, route_needs(route)->0),
    ensures
        permission(peer, route_needs(route)->0) is Ok <==> crate::access::grants(
            entries,
            id,
            route_needs(route)->0,
        ),
        entries.len() == 0 ==> permission(peer, route_needs(route)->0) == Err::<
            (),
            ApiErrorView,
        >(authorization_refusal(AuthorizationError::Unauthorized)),
{
    let required = route_needs(route)->0;
    crate::authorize::law_a_machine_is_limited_to_its_entry(entries, id, required);
    if entries.len() == 0 {
        assert(entries =~= Seq::empty());
        crate::authorize::law_an_empty_list_lets_nobody_in(id, required);
    }
}

/// The sign of life of this agent.
pub fn health() -> (r: HealthResponse)
    ensures
        r.status@ == "ok"@,
        r.protocol == PROTOCOL_V1,
        r.agent_version@ == RELEASE@,
{
    HealthResponse {
        status: "ok".to_owned(),
        protocol: PROTOCOL_V1,
        agent_version: RELEASE.to_owned(),
    }
}

/// Which windows are asked for.
#[derive(Debug, PartialEq, Eq)]
pub struct WindowFilter {
    pub workspace: Option<i64>,
    pub app_id: Option<String>,
}

/// Whether a window is on that workspace, where one is named, and of that application.
pub open spec fn window_wanted(workspace: Option<i64>, app_id: Option<Seq<char>>) -> spec_fn(Window) -> bool {
    |w: Window|
        {
            &&& workspace is Some ==> w.workspace == WorkspaceId(workspace->0)
            &&& app_id is Some ==> opt_text(w.app_id) == app_id || opt_text(w.class) == app_id
        }
}

pub fn filter_matches(window: &Window, filter: &WindowFilter) -> (r: bool)
    ensures
        r == window_wanted(filter.workspace, opt_text(filter.app_id))(*window),
{
    let workspace_ok = match filter.workspace {
        Some(id) => window.workspace == WorkspaceId(id),
        None => true,
    };
    let app_ok = match &filter.app_id {
        Some(needle) => same_optional(&window.app_id, needle.as_str()) || same_optional(
            &window.class,
            needle.as_str(),
        ),
        None => true,
    };
    workspace_ok && app_ok
}

/// The windows that are asked for, in their order.
pub fn filter_windows(windows: Vec<Window>, filter: &WindowFilter) -> (r: Vec<Window>)
    ensures
        r@ == windows@.filter(window_wanted(filter.workspace, opt_text(filter.app_id))),
{
    let ghost p = window_wanted(filter.workspace, opt_text(filter.app_id));
    let wanted = |w: &Window| -> (b: bool)
        ensures
            b == p(*w),
        { filter_matches(w, filter) };
    keep_when(windows, wanted, Ghost(p))
}

/// A workspace name that may stand in a compositor command.
pub open spec fn valid_workspace_name(name: Seq<char>) -> bool {
    name.len() > 0 && forall|i: int| 0 <= i < name.len() ==> !whitespace(#[trigger] name[i])
}

fn is_not_whitespace(c: char) -> (r: bool)
    ensures
        r == !whitespace(c),
{
    !is_whitespace(c)
}

pub fn validate_workspace_target(target: &WorkspaceTarget) -> (r: Result<(), ApiError>)
    ensures
        answered(r) == (if target matches WorkspaceTarget::Name(name) && !valid_workspace_name(name@) {
            Err::<(), ApiErrorView>(
                api_error(
                    400,
                    "WORKSPACE_NOT_FOUND"@,
                    "The requested workspace name is not valid."@,
                    false,
                ),
            )
        } else {
            Ok(())
        }),
{
    if let WorkspaceTarget::Name(name) = target {
        if name.as_str().is_empty() || !every_char(
            name.as_str(),
            is_not_whitespace,
            Ghost(|c: char| !whitespace(c)),
        ) {
            return Err(
                ApiError::new(
                    400,
                    "WORKSPACE_NOT_FOUND",
                    "The requested workspace name is not valid.",
                    false,
                ),
            );
        }
    }
    Ok(())
}

/// What a person is told once a command was carried out here.
pub open spec fn command_notice(command: RemoteCommandView) -> Option<Seq<char>> {
    match command {
        RemoteCommandView::SendShortcut { .. } => Some("Remote shortcut capture changed"@),
        RemoteCommandView::CloseWindow { .. } => Some("The remote session was closed"@),
        _ => None,
    }
}

pub open spec fn notice_of(n: Option<Notification>) -> Option<(Seq<char>, Seq<char>)> {
    match n {
        Some(n) => Some((n.summary@, n.body@)),
        None => None,
    }
}

pub open spec fn titled(body: Option<Seq<char>>) -> Option<(Seq<char>, Seq<char>)> {
    match body {
        Some(body) => Some(("Omdesky"@, body)),
        None => None,
    }
}

pub fn controller_command_notification(command: &RemoteCommand) -> (r: Option<Notification>)
    ensures
        notice_of(r) == titled(command_notice(command@)),
{
    let body = match command {
        RemoteCommand::SendShortcut { .. } => "Remote shortcut capture changed",
        RemoteCommand::CloseWindow { .. } => "The remote session was closed",
        _ => {
            return None;
        },
    };
    Some(Notification { summary: "Omdesky".to_owned(), body: body.to_owned() })
}

/// What is to be done with a command.
#[derive(Debug, PartialEq, Eq)]
pub enum CommandRoute {
    /// It is about the session of this desktop.
    Session,
    /// It goes on to the controller of the session.
    Relay(AgentEndpoint),
    /// The stream on this computer switches to another monitor of the sender.
    SwitchDisplay(DisplayId),
    /// It is carried out here; then a person is told, where there is something to tell.
    Execute(Option<Notification>),
}

pub enum RouteView {
    NoController,
    Session,
    Relay(AgentEndpoint),
    SwitchDisplay(Seq<char>),
    Execute(Option<(Seq<char>, Seq<char>)>),
}

pub open spec fn no_controller() -> ApiErrorView {
    api_error(
        409,
        "NO_CONTROLLER"@,
        "remote session has no controller endpoint to relay to"@,
        false,
    )
}

/// Where a command goes, by the session that holds this desktop.
pub open spec fn route_of(command: RemoteCommandView, session: Option<ActiveSessionView>) -> RouteView {
    if command.is_session_control() {
        RouteView::Session
    } else if session is Some && session->0.role == SessionRole::Remote {
        match session->0.controller {
            Some(controller) => RouteView::Relay(controller),
            None => RouteView::NoController,
        }
    } else {
        match command {
            RemoteCommandView::SwitchStreamDisplay { display } => RouteView::SwitchDisplay(display),
            _ => RouteView::Execute(titled(command_notice(command))),
        }
    }
}

pub open spec fn routed(r: Result<CommandRoute, ApiError>) -> Result<RouteView, ApiErrorView> {
    match r {
        Ok(CommandRoute::Session) => Ok(RouteView::Session),
        Ok(CommandRoute::Relay(controller)) => Ok(RouteView::Relay(controller)),
        Ok(CommandRoute::SwitchDisplay(display)) => Ok(RouteView::SwitchDisplay(display@)),
        Ok(CommandRoute::Execute(n)) => Ok(RouteView::Execute(notice_of(n))),
        Err(error) => Err(error@),
    }
}

/// A route, with the lack of a controller as a refusal.
pub open spec fn route_answer(route: RouteView) -> Result<RouteView, ApiErrorView> {
    match route {
        RouteView::NoController => Err(no_controller()),
        _ => Ok(route),
    }
}

pub open spec fn opt_session(session: Option<&ActiveSession>) -> Option<ActiveSessionView> {
    match session {
        Some(session) => Some(session@),
        None => None,
    }
}

pub fn command_route(command: &RemoteCommand, session: Option<&ActiveSession>) -> (r: Result<
    CommandRoute,
    ApiError,
>)
    ensures
        routed(r) == route_answer(route_of(command@, opt_session(session))),
{
    if command.is_session_control() {
        return Ok(CommandRoute::Session);
    }
    if let Some(session) = session {
        if session.role == SessionRole::Remote {
            return match session.controller {
                Some(controller) => Ok(CommandRoute::Relay(controller)),
                None => Err(
                    ApiError::new(
                        409,
                        "NO_CONTROLLER",
                        "remote session has no controller endpoint to relay to",
                        false,
                    ),
                ),
            };
        }
    }
    match command {
        RemoteCommand::SwitchStreamDisplay { display } => Ok(
            CommandRoute::SwitchDisplay(display.clone()),
        ),
        _ => Ok(CommandRoute::Execute(controller_command_notification(command))),
    }
}

/// The answer to a command, by its sender and by whether the request is fresh. The sender must be
/// authorized for what the command needs, the command must be valid, and the request fresh; the
/// first of these that fails is answered.
pub open spec fn command_answer(
    peer: Result<&AuthorizedPeer, AuthorizationError>,
    command: RemoteCommandView,
    freshness: Result<(), FreshnessError>,
    session: Option<ActiveSessionView>,
) -> Result<RouteView, ApiErrorView> {
    match permission(peer, command.required_capability()) {
        Err(error) => Err(error),
        Ok(()) => match command.validated() {
            Err(error) => Err(domain_refusal(error)),
            Ok(()) => match freshness {
                Err(error) => Err(freshness_refusal(error)),
                Ok(()) => route_answer(route_of(command, session)),
            },
        },
    }
}

/// Takes in a command with what the checks on its sender came to. It goes somewhere only where the
/// sender is authorized for what it needs, and it is valid, and it is fresh, in this order. A
/// command of another sender, or one that is not valid, leaves no trace.
pub fn run_command(
    peer: Result<&AuthorizedPeer, AuthorizationError>,
    request: &CommandRequest,
    replay: &mut ReplayGuard,
    session: Option<&ActiveSession>,
    clock_nanos: i128,
    now: u64,
) -> (r: Result<CommandRoute, ApiError>)
    requires
        old(replay).wf(),
    ensures
        final(replay).wf(),
        final(replay).window() == old(replay).window(),
        final(replay).skew() == old(replay).skew(),
        final(replay).capacity() == old(replay).capacity(),
        routed(r) == command_answer(
            peer,
            request.command@,
            old(replay).verdict(request.request_id, request.issued_at, clock_nanos, now),
            opt_session(session),
        ),
        final(replay).seen() == (if permission(peer, request.command@.required_capability()) is Ok
            && request.command@.validated() is Ok {
            old(replay).seen_after(request.request_id, request.issued_at, clock_nanos, now)
        } else {
            old(replay).seen()
        }),
{
    match require_capability(peer, request.command.required_capability()) {
        Ok(()) => {},
        Err(error) => {
            return Err(error);
        },
    }
    match request.command.validate() {
        Ok(()) => {},
        Err(error) => {
            return Err(domain_error(error));
        },
    }
    match replay.admit_request(request.request_id, request.issued_at, clock_nanos, now) {
        Ok(()) => {},
        Err(error) => {
            return Err(freshness_error(error));
        },
    }
    command_route(&request.command, session)
}

/// A command goes somewhere only for a sender that is authorized for what it needs.
pub proof fn law_only_authorized_commands_are_routed(
    peer: Result<&AuthorizedPeer, AuthorizationError>,
    command: RemoteCommandView,
    freshness: Result<(), FreshnessError>,
    session: Option<ActiveSessionView>,
)
    ensures
        command_answer(peer, command, freshness, session) is Ok ==> {
            &&& peer matches Ok(peer) && peer.capabilities@.contains(command.required_capability())
            &&& command.validated() is Ok
            &&& freshness is Ok
        },
        peer matches Err(error) ==> command_answer(peer, command, freshness, session) == Err::<
            RouteView,
            ApiErrorView,
        >(authorization_refusal(error)),
{
}

/// The shortcut by which this computer's stream shows another monitor of the sender.
pub fn switch_display(displays: &[crate::domain::Display], target: &DisplayId) -> (r: Result<
    RemoteCommand,
    ApiError,
>)
    ensures
        match crate::display::index_of_display(crate::domain::display_views(displays@), target@) {
            Some(index) => match crate::display::switch_result(index) {
                Ok(command) => r matches Ok(c) && c@ == command,
                Err(error) => r matches Err(e) && e@ == port_refusal(error),
            },
            None => r matches Err(e) && e@ == port_refusal(
                crate::ports::port_error(
                    "DISPLAY_NOT_FOUND"@,
                    "display "@ + target@ + " is not part of the remote topology"@,
                    false,
                ),
            ),
        },
{
    match resolve_display_switch_shortcut(displays, target) {
        Ok(command) => Ok(command),
        Err(error) => Err(ApiError::from_port(&error)),
    }
}

/// The body of the notice about a switch: asked for, sent or failed.
pub fn switch_notice(target: &DisplayId, done: Option<bool>) -> (r: Notification)
    ensures
        r.summary@ == "Omdesky debug"@,
        r.body@ == (match done {
            None => "Display switch requested for "@ + target@,
            Some(true) => "Display switch sent for "@ + target@,
            Some(false) => "Display switch failed for "@ + target@,
        }),
{
    let start = match done {
        None => "Display switch requested for ",
        Some(done) => if done {
            "Display switch sent for "
        } else {
            "Display switch failed for "
        },
    };
    Notification {
        summary: "Omdesky debug".to_owned(),
        body: start.to_owned().concat(target.as_str()),
    }
}

pub open spec fn callback_refusal() -> ApiErrorView {
    api_error(
        400,
        "INVALID_SESSION_ENDPOINT"@,
        "The controller endpoint must be the address this request came from."@,
        false,
    )
}

/// The endpoint for answers: it must be on the machine that the request came from.
pub open spec fn callback_of(endpoint: SessionEndpoint, source: IpAddr) -> Result<AgentEndpoint, ApiErrorView> {
    if endpoint.address == source {
        Ok(AgentEndpoint { address: source, port: endpoint.port })
    } else {
        Err(callback_refusal())
    }
}

pub fn callback_endpoint(endpoint: SessionEndpoint, source: IpAddr) -> (r: Result<AgentEndpoint, ApiError>)
    ensures
        answered(r) == callback_of(endpoint, source),
{
    if endpoint.address != source {
        return Err(
            ApiError::new(
                400,
                "INVALID_SESSION_ENDPOINT",
                "The controller endpoint must be the address this request came from.",
                false,
            ),
        );
    }
    Ok(AgentEndpoint { address: source, port: endpoint.port })
}

pub open spec fn claim_refusal() -> ApiErrorView {
    api_error(
        400,
        "SESSION_CLAIM_REQUIRED"@,
        "This action requires the session it belongs to."@,
        false,
    )
}

fn missing_session_claim() -> (r: ApiError)
    ensures
        r@ == claim_refusal(),
{
    ApiError::new(
        400,
        "SESSION_CLAIM_REQUIRED",
        "This action requires the session it belongs to.",
        false,
    )
}

/// What is to be done for a command about the session.
#[derive(Debug)]
pub enum SessionStep {
    /// The desktop is to be cleared, whatever comes of that, and then the session installed; then
    /// `finish_session_attach`.
    ClearAndInstall(ActiveSession),
    /// The desktop is to be cleared; then `finish_session_detach`.
    Clear,
    /// The desktop is to be cleared; then the request is refused with this.
    ClearAndRefuse(ApiError),
    /// The answer is known.
    Respond(CommandResponse),
}

/// The endpoint for answers that an attachment names, if it names one.
pub open spec fn attach_endpoint(controller: Option<SessionEndpoint>, source: IpAddr) -> Result<
    Option<AgentEndpoint>,
    ApiErrorView,
> {
    match controller {
        None => Ok(None),
        Some(endpoint) => match callback_of(endpoint, source) {
            Ok(endpoint) => Ok(Some(endpoint)),
            Err(error) => Err(error),
        },
    }
}

/// The window of an attachment: the one that it names, else Moonlight's.
pub open spec fn is_attach_window(window: Option<WindowSelector>, chosen: WindowSelector) -> bool {
    match window {
        Some(window) => chosen == window,
        None => chosen matches WindowSelector::Class(class) && class@ == MOONLIGHT_WINDOW_CLASS@,
    }
}

/// Carries a command of an authorized machine about the session out, as far as it does not touch
/// the desktop. The machine owns the session that it attaches.
pub fn apply_session_command(
    sessions: &mut SessionCoordinator,
    peer: &AuthorizedPeer,
    source: IpAddr,
    command: RemoteCommand,
    claim: Option<SessionClaim>,
    now: u64,
) -> (r: Result<SessionStep, ApiError>)
    requires
        old(sessions)@.wf(),
    ensures
        final(sessions)@.wf(),
        match command {
            RemoteCommand::AttachSession { role, controller, window } => match attach_endpoint(
                controller,
                source,
            ) {
                Err(error) => {
                    &&& r matches Err(e) && e@ == error
                    &&& final(sessions)@ == old(sessions)@
                },
                Ok(endpoint) => if old(sessions)@.held_by_other(peer.tailnet_node_id@, now) {
                    &&& r matches Err(e) && e@ == session_refusal(SessionError::OwnedByAnotherController)
                    &&& final(sessions)@ == old(sessions)@
                } else {
                    &&& final(sessions)@ == (CoordinatorView {
                        generation: next_generation(old(sessions)@.generation),
                        ..old(sessions)@
                    })
                    &&& r matches Ok(SessionStep::ClearAndInstall(session)) && is_random_uuid(session.id.0)
                        && session.generation == final(sessions)@.generation && session.owner@
                        == peer.tailnet_node_id@ && session.role == role && session.controller
                        == endpoint && is_attach_window(window, session.window)
                },
            },
            RemoteCommand::DetachSession => {
                &&& final(sessions)@ == old(sessions)@
                &&& match claim {
                    None => r matches Err(e) && e@ == claim_refusal(),
                    Some(claim) => match old(sessions)@.active {
                        None => r matches Ok(SessionStep::Respond(answer)) && answer == (
                        CommandResponse { executed: false, session: None }),
                        Some(session) => if session.owner != peer.tailnet_node_id@ {
                            r matches Err(e) && e@ == session_refusal(SessionError::NotOwner)
                        } else if old(sessions)@.is_current(claim) {
                            r matches Ok(SessionStep::Clear)
                        } else {
                            r matches Ok(SessionStep::Respond(answer)) && answer == (
                            CommandResponse { executed: false, session: None })
                        },
                    },
                }
            },
            RemoteCommand::RenewSession => match claim {
                None => {
                    &&& r matches Err(e) && e@ == claim_refusal()
                    &&& final(sessions)@ == old(sessions)@
                },
                Some(claim) => if old(sessions)@.active is Some && old(sessions)@.active->0.owner
                    == peer.tailnet_node_id@ && old(sessions)@.is_current(claim) {
                    &&& final(sessions)@ == old(sessions)@.with_session(old(sessions)@.active->0, now)
                    &&& r matches Ok(SessionStep::Respond(answer)) && answer == (CommandResponse {
                        executed: true,
                        session: Some(old(sessions)@.grant_of(old(sessions)@.active->0)),
                    })
                } else {
                    &&& final(sessions)@ == old(sessions)@
                    &&& r matches Err(e) && e@ == session_refusal(
                        if old(sessions)@.active is Some && old(sessions)@.active->0.owner != peer.tailnet_node_id@ {
                            SessionError::NotOwner
                        } else {
                            SessionError::NotFound
                        },
                    )
                },
            },
            _ => {
                &&& final(sessions)@ == old(sessions)@
                &&& r matches Ok(SessionStep::Respond(answer)) && answer == (CommandResponse {
                    executed: false,
                    session: None,
                })
            },
        },
{
    let owner = peer.tailnet_node_id.as_str();
    match command {
        RemoteCommand::AttachSession { role, controller, window } => {
            let endpoint = match controller {
                None => None,
                Some(endpoint) => match callback_endpoint(endpoint, source) {
                    Ok(endpoint) => Some(endpoint),
                    Err(error) => {
                        return Err(error);
                    },
                },
            };
            let window = match window {
                Some(window) => window,
                None => fallback_window(),
            };
            match sessions.begin_attach(owner, role, endpoint, window, now) {
                Ok(session) => Ok(SessionStep::ClearAndInstall(session)),
                Err(error) => Err(session_error(error)),
            }
        },
        RemoteCommand::DetachSession => {
            let claim = match claim {
                Some(claim) => claim,
                None => {
                    return Err(missing_session_claim());
                },
            };
            match sessions.begin_detach(owner, claim) {
                Ok(DetachStep::Clear) => Ok(SessionStep::Clear),
                Ok(DetachStep::Ignore) => Ok(SessionStep::Respond(CommandResponse::ignored())),
                Err(error) => Err(session_error(error)),
            }
        },
        RemoteCommand::RenewSession => {
            let claim = match claim {
                Some(claim) => claim,
                None => {
                    return Err(missing_session_claim());
                },
            };
            match sessions.renew(owner, claim, now) {
                Ok(grant) => Ok(SessionStep::Respond(CommandResponse::granted(grant))),
                Err(error) => Err(session_error(error)),
            }
        },
        _ => Ok(SessionStep::Respond(CommandResponse::ignored())),
    }
}

/// Goes on with an attachment by whether the session was installed. Where it was not, the desktop is
/// cleared again.
pub fn finish_session_attach(
    sessions: &mut SessionCoordinator,
    session: ActiveSession,
    now: u64,
    installed: bool,
) -> (r: SessionStep)
    requires
        old(sessions)@.wf(),
        session.generation <= old(sessions)@.generation,
    ensures
        final(sessions)@.wf(),
        if installed {
            &&& final(sessions)@ == old(sessions)@.with_session(session@, now)
            &&& r matches SessionStep::Respond(answer) && answer == (CommandResponse {
                executed: true,
                session: Some(old(sessions)@.grant_of(session@)),
            })
        } else {
            &&& final(sessions)@ == old(sessions)@.without_session()
            &&& r matches SessionStep::ClearAndRefuse(error) && error@ == session_refusal(
                SessionError::EffectsFailed,
            )
        },
{
    match sessions.finish_attach(session, now, installed) {
        AttachStep::Granted(grant) => SessionStep::Respond(CommandResponse::granted(grant)),
        AttachStep::Clear(error) => SessionStep::ClearAndRefuse(session_error(error)),
    }
}

/// Ends a detachment with whether the desktop was cleared.
pub fn finish_session_detach(sessions: &mut SessionCoordinator, cleared: bool) -> (r: Result<
    CommandResponse,
    ApiError,
>)
    requires
        old(sessions)@.wf(),
    ensures
        final(sessions)@.wf(),
        if cleared {
            &&& final(sessions)@ == old(sessions)@.without_session()
            &&& answered(r) == Ok::<CommandResponse, ApiErrorView>(
                CommandResponse { executed: true, session: None },
            )
        } else {
            &&& final(sessions)@ == old(sessions)@
            &&& answered(r) == Err::<CommandResponse, ApiErrorView>(
                session_refusal(SessionError::EffectsFailed),
            )
        },
{
    match sessions.finish_detach(cleared) {
        Ok(SessionOutcome::Applied) => Ok(CommandResponse::executed()),
        Ok(SessionOutcome::Ignored) => Ok(CommandResponse::ignored()),
        Err(error) => Err(session_error(error)),
    }
}

/// Issues a challenge to a machine that may approve pairing. Any other leaves no trace.
pub fn sunshine_pair_challenge(
    challenges: &mut PairingChallenges,
    peer: Result<&AuthorizedPeer, AuthorizationError>,
    now: u64,
) -> (r: Result<SunshinePairChallengeResponse, ApiError>)
    requires
        old(challenges).wf(),
    ensures
        final(challenges).wf(),
        final(challenges).ttl() == old(challenges).ttl(),
        match permission(peer, ControlCapability::ApprovePairing) {
            Err(error) => {
                &&& r matches Err(e) && e@ == error
                &&& final(challenges).issued() == old(challenges).issued()
                &&& final(challenges).counters() == old(challenges).counters()
            },
            Ok(()) => {
                let owner = peer->Ok_0.tailnet_node_id@;
                let kept = old(challenges).issued().filter(unexpired(now));
                &&& counters_follow(old(challenges).counters(), final(challenges).counters(), owner, now)
                &&& if !may_issue(old(challenges).counters(), owner, now) {
                    &&& r matches Err(e) && e@ == pairing_refusal(PairingError::RateLimited)
                    &&& final(challenges).issued() == old(challenges).issued()
                } else if kept.filter(issued_to(owner)).len() >= MAX_OUTSTANDING_PER_OWNER {
                    &&& r matches Err(e) && e@ == pairing_refusal(PairingError::RateLimited)
                    &&& final(challenges).issued() == kept
                } else {
                    &&& r matches Ok(answer) && answer.expires_in_seconds == old(challenges).ttl() / 1000
                        && is_challenge_id(answer.pairing_id@) && challenge_added(
                        kept,
                        final(challenges).issued(),
                        answer.pairing_id@,
                        owner,
                        challenge_deadline(now, old(challenges).ttl()),
                    )
                }
            },
        },
{
    let owner = match peer {
        Ok(peer) => peer,
        Err(error) => {
            return Err(authorization_error(error));
        },
    };
    match require_capability(peer, ControlCapability::ApprovePairing) {
        Ok(()) => {},
        Err(error) => {
            return Err(error);
        },
    }
    match challenges.issue(owner.tailnet_node_id.as_str(), now) {
        Ok(pairing_id) => Ok(
            SunshinePairChallengeResponse {
                pairing_id,
                expires_in_seconds: challenges.ttl_seconds(),
            },
        ),
        Err(error) => Err(pairing_error(error)),
    }
}

pub open spec fn field_refusal(error: PairingFieldError) -> ApiErrorView {
    api_error(400, error.spec_code(), "The pairing request is not valid."@, false)
}

pub open spec fn challenge_refusal() -> ApiErrorView {
    api_error(
        400,
        "PAIRING_CHALLENGE_REQUIRED"@,
        "Start pairing again; this attempt has no challenge."@,
        false,
    )
}

/// Takes in a request to approve a client: its sender may approve pairing, it must be well formed,
/// and it uses its challenge up. Only then may the PIN go to Sunshine.
pub fn sunshine_pair(
    challenges: &mut PairingChallenges,
    peer: Result<&AuthorizedPeer, AuthorizationError>,
    request: &SunshinePairRequest,
    now: u64,
) -> (r: Result<(), ApiError>)
    requires
        old(challenges).wf(),
    ensures
        final(challenges).wf(),
        final(challenges).ttl() == old(challenges).ttl(),
        final(challenges).counters() == old(challenges).counters(),
        match permission(peer, ControlCapability::ApprovePairing) {
            Err(error) => {
                &&& answered(r) == Err::<(), ApiErrorView>(error)
                &&& final(challenges).issued() == old(challenges).issued()
            },
            Ok(()) => match pairing_checked(
                opt_text(request.pairing_id),
                request.pin@,
                request.client_name@,
            ) {
                Err(error) => {
                    &&& answered(r) == Err::<(), ApiErrorView>(field_refusal(error))
                    &&& final(challenges).issued() == old(challenges).issued()
                },
                Ok(()) => match request.pairing_id {
                    None => {
                        &&& answered(r) == Err::<(), ApiErrorView>(challenge_refusal())
                        &&& final(challenges).issued() == old(challenges).issued()
                    },
                    Some(id) => {
                        let kept = old(challenges).issued().filter(unexpired(now));
                        let at = challenge_at(kept, id@);
                        if has_challenge(kept, id@) && kept[at].owner@
                            == peer->Ok_0.tailnet_node_id@ {
                            &&& answered(r) == Ok::<(), ApiErrorView>(())
                            &&& final(challenges).issued() == kept.remove(at)
                        } else {
                            &&& answered(r) == Err::<(), ApiErrorView>(
                                pairing_refusal(PairingError::UnknownChallenge),
                            )
                            &&& final(challenges).issued() == kept
                        }
                    },
                },
            },
        },
{
    let owner = match peer {
        Ok(peer) => peer,
        Err(error) => {
            return Err(authorization_error(error));
        },
    };
    match require_capability(peer, ControlCapability::ApprovePairing) {
        Ok(()) => {},
        Err(error) => {
            return Err(error);
        },
    }
    match request.validate() {
        Ok(()) => {},
        Err(error) => {
            return Err(ApiError::new(400, error.code(), "The pairing request is not valid.", false));
        },
    }
    match &request.pairing_id {
        None => Err(
            ApiError::new(
                400,
                "PAIRING_CHALLENGE_REQUIRED",
                "Start pairing again; this attempt has no challenge.",
                false,
            ),
        ),
        Some(id) => match challenges.consume(owner.tailnet_node_id.as_str(), id.as_str(), now) {
            Ok(()) => Ok(()),
            Err(error) => Err(pairing_error(error)),
        },
    }
}

/// What a person is told once a client was approved.
pub fn pairing_notice(client_name: &str) -> (r: Notification)
    ensures
        r.summary@ == "Omdesky"@,
        r.body@ == "Approved stream pairing for "@ + client_name@,
{
    Notification {
        summary: "Omdesky".to_owned(),
        body: "Approved stream pairing for ".to_owned().concat(client_name),
    }
}

/// A command never leaves this computer for another address than the one that asked for the
/// session: the endpoint for answers is on the machine that the request came from.
pub proof fn law_answers_go_to_the_caller(endpoint: SessionEndpoint, source: IpAddr)
    ensures
        callback_of(endpoint, source) matches Ok(callback) ==> callback.address == source,
{
}

/// A command about the session is never passed on.
pub proof fn law_session_commands_stay_here(command: RemoteCommandView, session: Option<ActiveSessionView>)
    requires
        command.is_session_control(),
    ensures
        route_of(command, session) is Session,
{
}

/// Whether a route only reads.
pub open spec fn only_reads(route: AgentRoute) -> bool {
    route is Node || route is Capabilities || route is Displays || route is Workspaces || route
        is Windows || route is ActiveWindow || route is SunshineStatus
}

/// Each route that only reads needs leave to read and nothing else, what moves the focus needs leave
/// for that, and what approves a client leave for that; only the sign of life needs none.
pub proof fn law_each_route_needs_its_own_leave(route: AgentRoute, r: Option<ControlCapability>)
    requires
        call_ensures(route_capability, (&route,), r),
    ensures
        r is None <==> route is Health,
        r == Some(ControlCapability::ReadMetadata) <==> only_reads(route),
        r == Some(ControlCapability::FocusWorkspace) <==> route is FocusWorkspace || route
            is FocusWindow,
        r == Some(ControlCapability::ApprovePairing) <==> route is SunshinePairChallenge || route
            is SunshinePair,
{
}

/// A command needs leave by what it does: shortcuts and the switch of a monitor one, closing a
/// window another, and the session a third.
pub proof fn law_each_command_needs_its_own_leave(command: RemoteCommand, r: Option<ControlCapability>)
    requires
        call_ensures(route_capability, (&AgentRoute::Command(&command),), r),
    ensures
        r == Some(ControlCapability::SendShortcut) <==> command is SendShortcut || command
            is SwitchStreamDisplay,
        r == Some(ControlCapability::CloseStream) <==> command is CloseWindow,
        r == Some(ControlCapability::ControlSession) <==> command is AttachSession || command
            is DetachSession || command is RenewSession,
{
}

/// A machine that may only read is served on every route that only reads, and on no other but the
/// sign of life.
pub proof fn law_leave_to_read_opens_what_only_reads(
    route: AgentRoute,
    needed: Option<ControlCapability>,
    peer: &AuthorizedPeer,
    r: Result<(), ApiError>,
)
    requires
        peer.capabilities@ == seq![ControlCapability::ReadMetadata],
        call_ensures(route_capability, (&route,), needed),
        needed is Some,
        call_ensures(require_capability, (Ok(peer), needed->0), r),
    ensures
        r is Ok <==> only_reads(route),
        r matches Err(error) ==> error.status == 403 && error@.code == "CAPABILITY_DENIED"@,
{
    assert(peer.capabilities@[0] == ControlCapability::ReadMetadata);
}

/// What a machine was granted is what it may do, whatever else it was granted; one that was not
/// authorized may do nothing, and is answered by why not.
pub proof fn law_leave_is_what_was_granted(
    peer: Result<&AuthorizedPeer, AuthorizationError>,
    required: ControlCapability,
    r: Result<(), ApiError>,
)
    requires
        call_ensures(require_capability, (peer, required), r),
    ensures
        r is Ok <==> (peer matches Ok(machine) && machine.capabilities@.contains(required)),
        peer is Ok && r is Err ==> r->Err_0.status == 403 && r->Err_0@.code
            == "CAPABILITY_DENIED"@,
        peer == Err::<&AuthorizedPeer, AuthorizationError>(AuthorizationError::RateLimited) ==> r
            is Err && r->Err_0.status == 429 && r->Err_0@.code == "RATE_LIMITED"@
            && r->Err_0@.retryable,
        peer == Err::<&AuthorizedPeer, AuthorizationError>(AuthorizationError::Unavailable) ==> r
            is Err && r->Err_0.status == 503 && r->Err_0@.code == "IDENTITY_UNAVAILABLE"@
            && r->Err_0@.retryable,
        peer == Err::<&AuthorizedPeer, AuthorizationError>(AuthorizationError::Unauthorized) ==> r
            is Err && r->Err_0.status == 401 && r->Err_0@.code == "UNAUTHORIZED"@
            && !r->Err_0@.retryable,
        peer == Err::<&AuthorizedPeer, AuthorizationError>(AuthorizationError::OutsideTailnet) ==> r
            is Err && r->Err_0.status == 401 && r->Err_0@.code == "UNAUTHORIZED"@
            && !r->Err_0@.retryable,
        peer == Err::<&AuthorizedPeer, AuthorizationError>(AuthorizationError::Forbidden) ==> r is Err
            && r->Err_0.status == 403 && r->Err_0@.code == "CAPABILITY_DENIED"@,
        peer == Err::<&AuthorizedPeer, AuthorizationError>(AuthorizationError::AccessStoreFailed) ==> r
            is Err && r->Err_0.status == 500 && r->Err_0@.code == "ACCESS_STORE_FAILED"@,
{
}

/// The release of a request is checked before anything else, on every route but the sign of life.
pub proof fn law_the_release_is_checked_first(
    route: AgentRoute,
    release: Option<&str>,
    r: Result<Option<ControlCapability>, ApiError>,
)
    requires
        call_ensures(enter, (&route, release), r),
    ensures
        route is Health ==> r == Ok::<Option<ControlCapability>, ApiError>(None),
        route !is Health && !(release matches Some(version) && compatible_release(version@)) ==> (r
            matches Err(error) && error.status == 409 && error@.code == "VERSION_INCOMPATIBLE"@),
        route !is Health && (release matches Some(version) && compatible_release(version@)) ==> (r
            matches Ok(Some(required)) && Some(required) == route_needs(route)),
{
}

/// A command about the session stays here. Any other goes on to the controller while this desktop is
/// controlled from afar; else a switch of the monitor is made here, and everything else is carried
/// out here.
pub proof fn law_commands_go_where_the_session_says(
    command: RemoteCommand,
    session: Option<&ActiveSession>,
    r: Result<CommandRoute, ApiError>,
)
    requires
        call_ensures(command_route, (&command, session), r),
    ensures
        command is AttachSession || command is DetachSession || command is RenewSession ==> r
            == Ok::<CommandRoute, ApiError>(CommandRoute::Session),
        !(command is AttachSession || command is DetachSession || command is RenewSession) && (session
            matches Some(active) && active.role == SessionRole::Remote) ==> match session->0.controller {
            Some(controller) => r == Ok::<CommandRoute, ApiError>(CommandRoute::Relay(controller)),
            None => r matches Err(error) && error.status == 409 && error@.code == "NO_CONTROLLER"@
                && error@.message == "remote session has no controller endpoint to relay to"@,
        },
        !(session matches Some(active) && active.role == SessionRole::Remote) ==> {
            &&& command matches RemoteCommand::SwitchStreamDisplay { display } ==> (r matches Ok(
                CommandRoute::SwitchDisplay(target),
            ) && target@ == display@)
            &&& command is SendShortcut || command is CloseWindow ==> r matches Ok(
                CommandRoute::Execute(Some(_)),
            )
        },
{
}

/// A command that leaves no trace of a refused sender and is carried out for an authorized one: the
/// answer is by the first of leave, form and freshness that fails, and only then by the route.
pub proof fn law_leave_then_form_then_freshness(
    peer: Result<&AuthorizedPeer, AuthorizationError>,
    command: RemoteCommandView,
    freshness: Result<(), FreshnessError>,
    session: Option<ActiveSessionView>,
)
    ensures
        permission(peer, command.required_capability()) is Err ==> command_answer(
            peer,
            command,
            freshness,
            session,
        ) is Err && command_answer(peer, command, freshness, session)->Err_0 == permission(
            peer,
            command.required_capability(),
        )->Err_0,
        permission(peer, command.required_capability()) is Ok && command.validated() is Err
            ==> command_answer(peer, command, freshness, session) is Err && command_answer(
            peer,
            command,
            freshness,
            session,
        )->Err_0.status == 400,
        permission(peer, command.required_capability()) is Ok && command.validated() is Ok && freshness
            is Err ==> command_answer(peer, command, freshness, session) is Err && (freshness
            == Err::<(), FreshnessError>(FreshnessError::Replayed) ==> command_answer(
            peer,
            command,
            freshness,
            session,
        )->Err_0.status == 409) && (freshness == Err::<(), FreshnessError>(FreshnessError::Saturated)
            ==> command_answer(peer, command, freshness, session)->Err_0.status == 503),
        permission(peer, command.required_capability()) is Ok && command.validated() is Ok && freshness
            is Ok && (session matches Some(active) ==> active.role != SessionRole::Remote)
            ==> command_answer(peer, command, freshness, session) is Ok,
{
}

/// Answers go to the machine that the request came from, at the port that it named; any other address
/// is refused.
pub proof fn law_a_callback_is_on_the_calling_machine(
    endpoint: SessionEndpoint,
    source: IpAddr,
    r: Result<AgentEndpoint, ApiError>,
)
    requires
        call_ensures(callback_endpoint, (endpoint, source), r),
    ensures
        r is Ok <==> endpoint.address == source,
        r matches Ok(callback) ==> callback.address == source && callback.port == endpoint.port,
        r matches Err(error) ==> error.status == 400 && error@.code == "INVALID_SESSION_ENDPOINT"@
            && error@.message == "The controller endpoint must be the address this request came from."@
            && !error@.retryable,
{
}

/// The windows that are listed are those of the workspace and of the application that were asked
/// for, where one was, and no other.
pub proof fn law_listed_windows_are_those_asked_for(
    windows: Vec<Window>,
    filter: WindowFilter,
    r: Vec<Window>,
    window: Window,
)
    requires
        call_ensures(filter_windows, (windows, &filter), r),
    ensures
        r@.contains(window) <==> windows@.contains(window) && (filter.workspace matches Some(id)
            ==> window.workspace.0 == id) && (filter.app_id matches Some(app) ==> (window.app_id
            matches Some(name) && name@ == app@) || (window.class matches Some(name) && name@ == app@)),
{
    let p = window_wanted(filter.workspace, opt_text(filter.app_id));
    if r@.contains(window) {
        let k = choose|k: int| 0 <= k < r@.len() && r@[k] == window;
        windows@.lemma_filter_pred(p, k);
        windows@.lemma_filter_contains_rev(p, window);
    }
    if windows@.contains(window) && p(window) {
        let k = choose|k: int| 0 <= k < windows@.len() && windows@[k] == window;
        windows@.lemma_filter_contains(p, k);
    }
}

/// A workspace is focused by any number, and by a name that is not empty and holds no white space.
pub proof fn law_workspace_names_hold_no_white_space(target: WorkspaceTarget, r: Result<(), ApiError>)
    requires
        call_ensures(validate_workspace_target, (&target,), r),
    ensures
        target is Id ==> r is Ok,
        target matches WorkspaceTarget::Name(name) && name@.len() == 0 ==> r is Err,
        target matches WorkspaceTarget::Name(name) && name@.contains(' ') ==> r is Err,
        target matches WorkspaceTarget::Name(name) && name@.len() > 0 && (forall|i: int|
            0 <= i < name@.len() ==> !whitespace(#[trigger] name@[i])) ==> r is Ok,
        r matches Err(error) ==> error.status == 400 && error@.code == "WORKSPACE_NOT_FOUND"@
            && error@.message == "The requested workspace name is not valid."@,
{
}

/// A failure is answered with a status by its kind: what is missing is not found, what is down is
/// unavailable, and what is not known is the agent's own fault.
pub proof fn law_failures_have_their_status(error: PortError, r: ApiError)
    requires
        call_ensures(ApiError::from_port, (&error,), r),
    ensures
        error@.code == "WORKSPACE_NOT_FOUND"@ || error@.code == "WINDOW_NOT_FOUND"@ || error@.code
            == "DISPLAY_NOT_FOUND"@ ==> r.status == 404,
        error@.code == "HYPRLAND_UNAVAILABLE"@ || error@.code == "SUNSHINE_NOT_INSTALLED"@
            || error@.code == "SUNSHINE_NOT_RUNNING"@ || error@.code == "SUNSHINE_API_UNAVAILABLE"@
            ==> r.status == 503,
        error@.code == "SUNSHINE_PAIRING_FAILED"@ ==> r.status == 502,
        r.status == 404 || r.status == 503 || r.status == 502 || r.status == 500,
        r@.code == error@.code,
        r@.retryable == error@.retryable,
{
    reveal_strlit("HYPRLAND_UNAVAILABLE");
    reveal_strlit("WORKSPACE_NOT_FOUND");
    reveal_strlit("WINDOW_NOT_FOUND");
    reveal_strlit("DISPLAY_NOT_FOUND");
    reveal_strlit("SUNSHINE_NOT_INSTALLED");
    reveal_strlit("SUNSHINE_NOT_RUNNING");
    reveal_strlit("SUNSHINE_API_UNAVAILABLE");
    reveal_strlit("SUNSHINE_PAIRING_FAILED");
    assert("HYPRLAND_UNAVAILABLE"@[0] == 'H' && "WORKSPACE_NOT_FOUND"@[0] == 'W'
        && "WINDOW_NOT_FOUND"@[0] == 'W' && "DISPLAY_NOT_FOUND"@[0] == 'D');
    assert("SUNSHINE_NOT_INSTALLED"@[0] == 'S' && "SUNSHINE_NOT_RUNNING"@[0] == 'S'
        && "SUNSHINE_API_UNAVAILABLE"@[0] == 'S' && "SUNSHINE_PAIRING_FAILED"@[0] == 'S');
    assert("SUNSHINE_PAIRING_FAILED"@[9] == 'P' && "SUNSHINE_NOT_INSTALLED"@[9] == 'N'
        && "SUNSHINE_NOT_RUNNING"@[9] == 'N' && "SUNSHINE_API_UNAVAILABLE"@[9] == 'A');
}

/// What is wrong with a request has its status: a session of another is a conflict, or forbidden,
/// or not there, and a request that comes again is a conflict.
pub proof fn law_refusals_have_their_status(
    session: SessionError,
    pairing: PairingError,
    freshness: FreshnessError,
    s: ApiError,
    p: ApiError,
    f: ApiError,
)
    requires
        call_ensures(session_error, (session,), s),
        call_ensures(pairing_error, (pairing,), p),
        call_ensures(freshness_error, (freshness,), f),
    ensures
        session == SessionError::OwnedByAnotherController ==> s.status == 409 && s@.code
            == "SESSION_ALREADY_OWNED"@ && s@.message
            == "Another device already owns this desktop session."@,
        session == SessionError::NotOwner ==> s.status == 403 && s@.code == "SESSION_NOT_OWNED"@
            && s@.message == "This device does not own the desktop session."@,
        session == SessionError::NotFound ==> s.status == 404 && s@.code == "SESSION_NOT_FOUND"@
            && s@.message == "There is no desktop session to update."@,
        session == SessionError::EffectsFailed ==> s.status == 503 && s@.code
            == "SESSION_EFFECTS_FAILED"@ && s@.message
            == "The desktop session could not be updated. Please try again."@,
        s@.retryable <==> session == SessionError::EffectsFailed,
        pairing == PairingError::RateLimited ==> p.status == 429 && p@.code == "PAIRING_RATE_LIMITED"@,
        pairing == PairingError::UnknownChallenge ==> p.status == 403 && p@.code
            == "PAIRING_CHALLENGE_INVALID"@,
        !p@.retryable,
        freshness == FreshnessError::Missing ==> f.status == 400 && f@.code == "REQUEST_ID_REQUIRED"@,
        freshness == FreshnessError::Stale ==> f.status == 400 && f@.code == "REQUEST_STALE"@,
        freshness == FreshnessError::Replayed ==> f.status == 409 && f@.code == "REQUEST_REPLAYED"@,
        freshness == FreshnessError::Saturated ==> f.status == 503 && f@.code
            == "REQUEST_TRACKING_SATURATED"@,
        f@.retryable <==> freshness == FreshnessError::Saturated,
{
}

/// A request that is not valid is a bad one, whatever is wrong with it, and is not to be sent again.
pub proof fn law_invalid_requests_are_bad_ones(error: DomainError, d: ApiError, b: ApiError)
    requires
        call_ensures(domain_error, (error,), d),
        call_ensures(body_rejected, (), b),
    ensures
        d.status == 400 && b.status == 400,
        !d@.retryable && !b@.retryable,
        error == DomainError::InvalidKeyChord ==> d@.code == "INVALID_KEY_CHORD"@,
        error == DomainError::InvalidWindowSelector ==> d@.code == "INVALID_WINDOW_SELECTOR"@,
        error == DomainError::InvalidSessionEndpoint ==> d@.code == "INVALID_SESSION_ENDPOINT"@,
        error != DomainError::InvalidKeyChord && error != DomainError::InvalidWindowSelector && error
            != DomainError::InvalidSessionEndpoint ==> d@.code == "INVALID_COMMAND"@,
        d@.message == "The requested action is not valid."@,
        b@.code == "INVALID_COMMAND"@,
        b@.message == "The request body is not valid."@,
{
}

/// Why a machine was not authorized is told by status and code; a machine that is limited, or that
/// could not be identified, may try again.
pub proof fn law_authorization_refusals_have_their_words(error: AuthorizationError, r: ApiError)
    requires
        call_ensures(authorization_error, (error,), r),
    ensures
        error == AuthorizationError::RateLimited ==> r.status == 429 && r@.code == "RATE_LIMITED"@
            && r@.message == "Too many requests. Please slow down."@,
        error == AuthorizationError::Unavailable ==> r.status == 503 && r@.code
            == "IDENTITY_UNAVAILABLE"@ && r@.message
            == "This device could not be identified right now. Please try again."@,
        error == AuthorizationError::Forbidden ==> r.status == 403 && r@.code == "CAPABILITY_DENIED"@
            && r@.message == "This device is not allowed to perform that action."@,
        error == AuthorizationError::AccessStoreFailed ==> r.status == 500 && r@.code
            == "ACCESS_STORE_FAILED"@ && r@.message == "The allowed devices list could not be read."@,
        error == AuthorizationError::Unauthorized || error == AuthorizationError::OutsideTailnet ==> r.status
            == 401 && r@.code == "UNAUTHORIZED"@ && r@.message
            == "This device is not allowed to control Omdesky."@,
        r@.retryable <==> error == AuthorizationError::RateLimited || error
            == AuthorizationError::Unavailable,
{
}

/// A code of the wire is answered with its own status, its own text and its own word on trying
/// again, and the message given.
pub proof fn law_a_code_is_answered_as_itself(
    code: ErrorCode,
    message: &str,
    status: u16,
    text: &'static str,
    again: bool,
    r: ApiError,
)
    requires
        call_ensures(ApiError::of_code, (code, message), r),
        call_ensures(ErrorCode::http_status, (code,), status),
        call_ensures(ErrorCode::as_str, (code,), text),
        call_ensures(ErrorCode::retryable, (code,), again),
    ensures
        r.status == status,
        r@.code == text@,
        r@.message == message@,
        r@.retryable == again,
{
}

/// Only who tells a compatible release is served; who tells none, or another, is told which release
/// this is.
pub proof fn law_only_compatible_releases_are_served(
    version: &str,
    compatible: bool,
    told: Result<(), ApiError>,
    silent: Result<(), ApiError>,
)
    requires
        call_ensures(require_compatible_release, (Some(version),), told),
        call_ensures(require_compatible_release, (None,), silent),
        call_ensures(is_compatible_release, (version,), compatible),
    ensures
        told is Ok <==> compatible,
        silent is Err,
        told matches Err(error) ==> error@ == silent->Err_0@,
        silent matches Err(error) ==> error.status == 409 && error@.code == "VERSION_INCOMPATIBLE"@
            && error@.message == "this device runs Omdesky "@ + "0.2.0"@
            + "; both computers must run the same release"@ && !error@.retryable,
{
}

/// The sign of life tells that all is well, the protocol and the release.
pub proof fn law_the_sign_of_life_tells_the_release(r: HealthResponse)
    requires
        call_ensures(health, (), r),
    ensures
        r.status@ == "ok"@,
        r.protocol == 1,
        r.agent_version@ == "0.2.0"@,
{
}

/// A window matches a filter where it is on its workspace, if it names one, and of its application,
/// if it names one.
pub proof fn law_a_filter_asks_for_workspace_and_application(window: &Window, filter: &WindowFilter, r: bool)
    requires
        call_ensures(filter_matches, (window, filter), r),
    ensures
        filter.workspace is None && filter.app_id is None ==> r,
        filter.workspace matches Some(id) ==> window.workspace.0 != id ==> !r,
        filter.app_id matches Some(app) ==> !(window.app_id matches Some(name) && name@ == app@) && !(
        window.class matches Some(name) && name@ == app@) ==> !r,
        filter.workspace is None ==> (filter.app_id matches Some(app) ==> (window.class matches Some(name)
            && name@ == app@) ==> r),
{
}

/// A person is told of a change of the shortcuts and of the end of a session, and of nothing else.
pub proof fn law_shortcuts_and_closing_are_told(command: &RemoteCommand, r: Option<Notification>)
    requires
        call_ensures(controller_command_notification, (command,), r),
    ensures
        r is Some <==> command is SendShortcut || command is CloseWindow,
        r matches Some(n) ==> n.summary@ == "Omdesky"@,
        command is SendShortcut ==> r->0.body@ == "Remote shortcut capture changed"@,
        command is CloseWindow ==> r->0.body@ == "The remote session was closed"@,
{
}

/// A switch of the monitor is told when it is asked for, when it was sent and when it failed.
pub proof fn law_switches_are_told(target: &DisplayId, client: &str, asked: Notification, sent: Notification, failed: Notification, paired: Notification)
    requires
        call_ensures(switch_notice, (target, None), asked),
        call_ensures(switch_notice, (target, Some(true)), sent),
        call_ensures(switch_notice, (target, Some(false)), failed),
        call_ensures(pairing_notice, (client,), paired),
    ensures
        asked.body@ == "Display switch requested for "@ + target@,
        sent.body@ == "Display switch sent for "@ + target@,
        failed.body@ == "Display switch failed for "@ + target@,
        asked.summary@ == "Omdesky debug"@ && sent.summary@ == "Omdesky debug"@ && failed.summary@
            == "Omdesky debug"@,
        paired.summary@ == "Omdesky"@,
        paired.body@ == "Approved stream pairing for "@ + client@,
{
}

/// A command without leave, or one that is not valid, is refused by that and leaves no trace; any
/// other is admitted as the guard admits it, and then goes where a command of its kind goes.
pub proof fn law_a_command_is_checked_then_admitted_then_routed(
    peer: Result<&AuthorizedPeer, AuthorizationError>,
    request: &CommandRequest,
    replay: &mut ReplayGuard,
    session: Option<&ActiveSession>,
    clock_nanos: i128,
    now: u64,
    r: Result<CommandRoute, ApiError>,
    needed: ControlCapability,
    leave: Result<(), ApiError>,
    valid: Result<(), DomainError>,
    guard: &mut ReplayGuard,
    admitted: Result<(), FreshnessError>,
    route: Result<CommandRoute, ApiError>,
)
    requires
        call_ensures(run_command, (peer, request, replay, session, clock_nanos, now), r),
        call_ensures(RemoteCommand::required_capability, (&request.command,), needed),
        call_ensures(require_capability, (peer, needed), leave),
        call_ensures(RemoteCommand::validate, (&request.command,), valid),
        call_ensures(
            ReplayGuard::admit_request,
            (guard, request.request_id, request.issued_at, clock_nanos, now),
            admitted,
        ),
        *old(guard) == *old(replay),
        call_ensures(command_route, (&request.command, session), route),
    ensures
        leave matches Err(error) ==> (r matches Err(e) && e@ == error@) && final(replay).seen() == old(replay).seen(),
        leave is Ok && valid is Err ==> (r matches Err(e) && e.status == 400) && final(replay).seen() == old(replay).seen(),
        leave is Ok && valid is Ok ==> final(replay).seen() == final(guard).seen(),
        leave is Ok && valid is Ok && admitted is Err ==> r is Err,
        leave is Ok && valid is Ok && admitted is Ok ==> routed(r) == routed(route),
{
    assert(answered(leave) == permission(peer, needed));
}

/// An attachment installs a session of the machine that asked for it, with its role, one generation
/// on, answered at that machine alone; one that is to be answered elsewhere is refused.
pub proof fn law_an_attachment_belongs_to_who_asked(
    sessions: &mut SessionCoordinator,
    peer: &AuthorizedPeer,
    source: IpAddr,
    role: SessionRole,
    controller: Option<SessionEndpoint>,
    window: Option<WindowSelector>,
    claim: Option<SessionClaim>,
    now: u64,
    r: Result<SessionStep, ApiError>,
)
    requires
        call_ensures(
            apply_session_command,
            (sessions, peer, source, RemoteCommand::AttachSession { role, controller, window }, claim, now),
            r,
        ),
    ensures
        (controller matches Some(endpoint) && endpoint.address != source) ==> (r matches Err(error)
            && error.status == 400 && error@.code == "INVALID_SESSION_ENDPOINT"@) && final(sessions)@ == old(sessions)@,
        r matches Ok(step) ==> step is ClearAndInstall,
        r matches Ok(SessionStep::ClearAndInstall(session)) ==> {
            &&& session.owner@ == peer.tailnet_node_id@
            &&& session.role == role
            &&& controller is None ==> session.controller is None
            &&& controller matches Some(endpoint) ==> (session.controller matches Some(answer)
                && answer.address == source && answer.port == endpoint.port)
            &&& window matches Some(asked) ==> session.window == asked
            &&& window is None ==> (session.window matches WindowSelector::Class(class) && class@
                == MOONLIGHT_WINDOW_CLASS@)
            &&& old(sessions)@.generation < u64::MAX ==> session.generation == old(sessions)@.generation + 1
            &&& final(sessions)@.active == old(sessions)@.active
        },
        (old(sessions)@.active matches Some(held) && held.owner != peer.tailnet_node_id@ && (old(sessions)@.expires_at matches Some(end) && end > now)) ==> r is Err,
        (controller matches Some(endpoint) ==> endpoint.address == source) && (old(sessions)@.active
            matches Some(held) ==> held.owner == peer.tailnet_node_id@) ==> r is Ok,
{
}

/// A session is ended and kept alive only by the machine that owns it and with the claim on it; a
/// request without a claim is refused.
pub proof fn law_only_the_owner_commands_its_session(
    sessions: &mut SessionCoordinator,
    peer: &AuthorizedPeer,
    source: IpAddr,
    ends: bool,
    claim: Option<SessionClaim>,
    now: u64,
    r: Result<SessionStep, ApiError>,
)
    requires
        call_ensures(
            apply_session_command,
            (
                sessions,
                peer,
                source,
                if ends {
                    RemoteCommand::DetachSession
                } else {
                    RemoteCommand::RenewSession
                },
                claim,
                now,
            ),
            r,
        ),
    ensures
        claim is None ==> (r matches Err(error) && error.status == 400 && error@.code
            == "SESSION_CLAIM_REQUIRED"@ && error@.message
            == "This action requires the session it belongs to."@) && final(sessions)@ == old(sessions)@,
        (r matches Ok(SessionStep::Clear)) || final(sessions)@ != old(sessions)@ ==> (claim matches Some(c)
            && old(sessions)@.active matches Some(held) && held.owner == peer.tailnet_node_id@ && held.id
            == c.id && held.generation == c.generation),
        ends ==> final(sessions)@ == old(sessions)@,
        ends && (claim matches Some(c) && old(sessions)@.active matches Some(held) && held.owner
            == peer.tailnet_node_id@ && held.id == c.id && held.generation == c.generation) ==> r matches Ok(
            SessionStep::Clear,
        ),
        !ends && (claim matches Some(c) && old(sessions)@.active matches Some(held) && held.owner
            == peer.tailnet_node_id@ && held.id == c.id && held.generation == c.generation) ==> (r matches Ok(
            SessionStep::Respond(answer),
        ) && answer.executed && answer.session is Some && answer.session->0.id == old(sessions)@.active->0.id),
        claim is Some && (old(sessions)@.active matches Some(held) && held.owner != peer.tailnet_node_id@)
            ==> (r matches Err(error) && error.status == 403 && error@.code == "SESSION_NOT_OWNED"@),
        !ends && claim is Some && old(sessions)@.active is None ==> (r matches Err(error) && error.status
            == 404 && error@.code == "SESSION_NOT_FOUND"@),
{
}

/// An attachment is answered as done only where the session was installed, and the session then
/// holds the desktop; else none does, the desktop is cleared and the request refused.
pub proof fn law_an_attachment_is_done_where_it_was_installed(
    done: &mut SessionCoordinator,
    undone: &mut SessionCoordinator,
    session: ActiveSession,
    now: u64,
    granted: SessionStep,
    refused: SessionStep,
)
    requires
        call_ensures(finish_session_attach, (done, session, now, true), granted),
        call_ensures(finish_session_attach, (undone, session, now, false), refused),
    ensures
        granted matches SessionStep::Respond(answer) && answer.executed && (answer.session matches Some(grant)
            && grant.id == session.id && grant.generation == session.generation),
        final(done)@.active == Some(session@),
        final(undone)@.active is None,
        refused matches SessionStep::ClearAndRefuse(error) && error.status == 503 && error@.code
            == "SESSION_EFFECTS_FAILED"@ && error@.retryable,
{
}

/// A detachment is answered as done only where the desktop was cleared; else the session stays.
pub proof fn law_a_detachment_is_done_where_it_was_cleared(
    done: &mut SessionCoordinator,
    undone: &mut SessionCoordinator,
    cleared: Result<CommandResponse, ApiError>,
    refused: Result<CommandResponse, ApiError>,
)
    requires
        call_ensures(finish_session_detach, (done, true), cleared),
        call_ensures(finish_session_detach, (undone, false), refused),
    ensures
        cleared matches Ok(answer) && answer.executed && answer.session is None,
        final(done)@.active is None,
        refused matches Err(error) && error.status == 503 && error@.code == "SESSION_EFFECTS_FAILED"@,
        final(undone)@ == old(undone)@,
{
    assert(answered(cleared) is Ok);
    assert(answered(refused) is Err);
}

/// A client is approved only for a machine that may approve pairing, with a well formed request
/// that uses up a challenge of that machine.
pub proof fn law_a_client_is_approved_with_a_challenge(
    challenges: &mut PairingChallenges,
    peer: Result<&AuthorizedPeer, AuthorizationError>,
    request: &SunshinePairRequest,
    now: u64,
    valid: Result<(), PairingFieldError>,
    leave: Result<(), ApiError>,
    r: Result<(), ApiError>,
)
    requires
        call_ensures(sunshine_pair, (challenges, peer, request, now), r),
        call_ensures(require_capability, (peer, ControlCapability::ApprovePairing), leave),
        call_ensures(SunshinePairRequest::validate, (request,), valid),
    ensures
        r is Ok ==> leave is Ok && valid is Ok && request.pairing_id is Some,
        leave matches Err(error) ==> (r matches Err(e) && e@ == error@) && final(challenges).issued() == old(challenges).issued(),
        leave is Ok && valid is Err ==> (r matches Err(e) && e.status == 400 && e@.message
            == "The pairing request is not valid."@) && final(challenges).issued() == old(challenges).issued(),
        leave is Ok && valid is Ok && request.pairing_id is None ==> (r matches Err(e) && e.status == 400
            && e@.code == "PAIRING_CHALLENGE_REQUIRED"@ && e@.message
            == "Start pairing again; this attempt has no challenge."@) && final(challenges).issued() == old(challenges).issued(),
        leave is Ok && valid is Ok && request.pairing_id is Some && r is Err ==> r->Err_0.status == 403
            && r->Err_0@.code == "PAIRING_CHALLENGE_INVALID"@,
        r is Ok ==> final(challenges).issued().len() < old(challenges).issued().len(),
{
    assert(answered(leave) == permission(peer, ControlCapability::ApprovePairing));
    if r is Ok {
        assert(answered(r) is Ok);
        let kept = old(challenges).issued().filter(unexpired(now));
        old(challenges).issued().lemma_filter_len(unexpired(now));
        let at = challenge_at(kept, request.pairing_id->0@);
        assert(0 <= at < kept.len());
        assert(kept.remove(at).len() == kept.len() - 1);
    } else {
        assert(answered(r) is Err);
    }
}

/// A challenge is given only to a machine that may approve pairing; it tells for how many seconds
/// it holds.
pub proof fn law_a_challenge_is_given_to_who_may_approve(
    challenges: &mut PairingChallenges,
    peer: Result<&AuthorizedPeer, AuthorizationError>,
    now: u64,
    seconds: u64,
    r: Result<SunshinePairChallengeResponse, ApiError>,
)
    requires
        call_ensures(sunshine_pair_challenge, (challenges, peer, now), r),
        call_ensures(PairingChallenges::ttl_seconds, (&*old(challenges),), seconds),
    ensures
        r is Ok ==> (peer matches Ok(machine) && machine.capabilities@.contains(
            ControlCapability::ApprovePairing,
        )),
        r matches Ok(answer) ==> answer.expires_in_seconds == seconds,
        !(peer matches Ok(machine) && machine.capabilities@.contains(ControlCapability::ApprovePairing))
            ==> final(challenges).issued() == old(challenges).issued(),
        (peer matches Ok(machine) && machine.capabilities@.contains(ControlCapability::ApprovePairing)) && r
            is Err ==> r->Err_0.status == 429 && r->Err_0@.code == "PAIRING_RATE_LIMITED"@,
{
}

/// A monitor of the list is shown by the shortcut for its place, and one that is not in it is not
/// found.
pub proof fn law_a_monitor_that_is_not_listed_is_not_found(
    displays: &[crate::domain::Display],
    target: &DisplayId,
    found: Result<RemoteCommand, PortError>,
    r: Result<RemoteCommand, ApiError>,
)
    requires
        call_ensures(switch_display, (displays, target), r),
        call_ensures(resolve_display_switch_shortcut, (displays, target), found),
    ensures
        r is Ok <==> found is Ok,
        r matches Ok(command) ==> command@ == found->Ok_0@,
        (forall|i: int| 0 <= i < displays@.len() ==> (#[trigger] displays@[i]).id@ != target@) ==> (r
            matches Err(error) && error.status == 404 && error@.code == "DISPLAY_NOT_FOUND"@),
{
    lemma_port_not_found();
    if forall|i: int| 0 <= i < displays@.len() ==> (#[trigger] displays@[i]).id@ != target@ {
        let views = crate::domain::display_views(displays@);
        assert forall|i: int| 0 <= i < views.len() implies (#[trigger] views[i]).id != target@ by {
            assert(views[i] == displays@[i]@);
        }
        crate::display::lemma_index_of_display(views, target@, views.len() as int);
    }
}

proof fn lemma_port_not_found()
    ensures
        port_status("DISPLAY_NOT_FOUND"@) == 404,
{
    reveal_strlit("HYPRLAND_UNAVAILABLE");
    reveal_strlit("DISPLAY_NOT_FOUND");
    assert("HYPRLAND_UNAVAILABLE"@[0] == 'H' && "DISPLAY_NOT_FOUND"@[0] == 'D');
}

} // verus!
