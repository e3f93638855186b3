use omdesky::agent::{
    apply_session_command, authorization_error, body_rejected, callback_endpoint,
    controller_command_notification, domain_error, enter, filter_windows, finish_session_attach,
    finish_session_detach, freshness_error, health, pairing_error, pairing_notice,
    require_capability, route_capability, run_command, session_error, sunshine_pair,
    sunshine_pair_challenge, switch_display, switch_notice, validate_workspace_target, AgentRoute,
    ApiError, CommandRoute, SessionStep, WindowFilter,
};
use omdesky::authorize::{
    Admission, AuthorizationError, AuthorizedPeer, Authorizer, IdentityLookup, RateLimiter,
    ALLOWLIST_CACHE_TTL_MILLIS, RATE_LIMIT_BURST,
};
use omdesky::domain::{
    ControlCapability, Display, DisplayId, DomainError, IpAddr, KeyChord, KeyModifier,
    RemoteCommand, SessionClaim, SessionEndpoint, SessionGrant, SessionRole, Window, WindowId,
    WindowSelector, WorkspaceId, WorkspaceTarget,
};
use omdesky::error_code::ErrorCode;
use omdesky::pairing::{
    challenge_id, random_challenge_id, PairingChallenges, PairingError, MAX_ISSUES_PER_WINDOW,
    MAX_OUTSTANDING_PER_OWNER,
};
use omdesky::ports::{AgentEndpoint, AllowedController, MeshNodeIdentity, Notification, PortError};
use omdesky::protocol::{CommandRequest, CommandResponse, SunshinePairRequest};
use omdesky::release::ReleaseLine;
use omdesky::replay::{FreshnessError, ReplayGuard, MAX_CLOCK_SKEW_MILLIS, REQUEST_WINDOW_MILLIS};
use omdesky::session::{
    session_port_error, AttachStep, DetachStep, SessionCoordinator, SessionError, SessionOutcome,
};
use omdesky::startup::{
    bind_address, help_text, parse_arguments, port_failure, version_text, Invocation, TailscaleWait,
    WaitStep, TAILSCALE_STARTUP_ATTEMPTS,
};

const PEER: &str = "nPEER01";
const NANOS_PER_MINUTE: i128 = 60_000_000_000;

fn source() -> IpAddr {
    IpAddr::V4(100, 64, 0, 7)
}

fn other_source() -> IpAddr {
    IpAddr::V4(100, 64, 0, 9)
}

fn entry(id: &str, capabilities: &[ControlCapability]) -> AllowedController {
    AllowedController::new(id.to_owned(), None, 0, capabilities.to_vec())
}

fn identity(id: &str) -> MeshNodeIdentity {
    MeshNodeIdentity {
        tailnet_node_id: id.to_owned(),
        user: None,
        hostname: None,
        addresses: Vec::new(),
    }
}

/// An authorizer whose tailnet knows one identity, counting the lookups that it needs.
struct Gate {
    authorizer: Authorizer,
    identity: Option<&'static str>,
    entries: Vec<(String, Vec<ControlCapability>)>,
    lookups: usize,
    reads: usize,
}

fn gate(identity: Option<&'static str>, entries: &[(&str, &[ControlCapability])]) -> Gate {
    Gate {
        authorizer: Authorizer::new(),
        identity,
        entries: entries
            .iter()
            .map(|(id, capabilities)| (id.to_string(), capabilities.to_vec()))
            .collect(),
        lookups: 0,
        reads: 0,
    }
}

impl Gate {
    fn authorize(
        &mut self,
        source: IpAddr,
        required: ControlCapability,
        now: u64,
    ) -> Result<AuthorizedPeer, AuthorizationError> {
        let mut step = self.authorizer.authorize(source, required, now);
        loop {
            step = match step {
                Admission::Identify => {
                    self.lookups += 1;
                    let lookup = match self.identity {
                        Some(id) => IdentityLookup::Found(identity(id)),
                        None => IdentityLookup::Unknown,
                    };
                    self.authorizer.identified(source, required, lookup, now, now)
                }
                Admission::ReadAllowlist(id) => {
                    self.reads += 1;
                    let entries = self
                        .entries
                        .iter()
                        .map(|(id, capabilities)| entry(id, capabilities))
                        .collect();
                    return self.authorizer.listed(&id, required, Ok(entries), now);
                }
                Admission::Decided(outcome) => return outcome,
            };
        }
    }
}

#[test]
fn test_a_source_outside_the_tailnet_is_denied_before_any_lookup() {
    let mut gate = gate(Some("node-a"), &[("node-a", &ControlCapability::ALL)]);

    let error = gate
        .authorize(
            IpAddr::V4(192, 168, 1, 10),
            ControlCapability::ReadMetadata,
            0,
        )
        .expect_err("a non-tailnet source is denied");

    assert_eq!(error, AuthorizationError::OutsideTailnet);
    assert_eq!(gate.lookups, 0);
}

#[test]
fn test_relaxing_the_tailnet_check_allows_other_sources() {
    let mut gate = gate(Some("node-a"), &[("node-a", &ControlCapability::ALL)]);
    gate.authorizer = Authorizer::with_strict_tailnet_only(false);

    assert!(gate
        .authorize(
            IpAddr::V4(192, 168, 1, 10),
            ControlCapability::ReadMetadata,
            0,
        )
        .is_ok());
}

#[test]
fn test_an_empty_allowlist_denies_every_control_action() {
    let mut gate = gate(Some("node-a"), &[]);

    let error = gate
        .authorize(source(), ControlCapability::ReadMetadata, 0)
        .expect_err("an empty allowlist authorizes nobody");

    assert_eq!(error, AuthorizationError::Unauthorized);
}

#[test]
fn test_an_unlisted_identity_is_denied() {
    let mut gate = gate(Some("node-b"), &[("node-a", &ControlCapability::ALL)]);

    assert_eq!(
        gate.authorize(source(), ControlCapability::ReadMetadata, 0)
            .expect_err("an unlisted identity is denied"),
        AuthorizationError::Unauthorized
    );
}

#[test]
fn test_a_listed_identity_is_limited_to_its_granted_capabilities() {
    let mut gate = gate(
        Some("node-a"),
        &[("node-a", &[ControlCapability::ReadMetadata])],
    );

    let peer = gate
        .authorize(source(), ControlCapability::ReadMetadata, 0)
        .expect("reading is granted");
    assert_eq!(peer.tailnet_node_id, "node-a");
    assert!(peer.allows(ControlCapability::ReadMetadata));
    assert!(!peer.allows(ControlCapability::ApprovePairing));

    assert_eq!(
        gate.authorize(source(), ControlCapability::ApprovePairing, 0)
            .expect_err("pairing is not granted"),
        AuthorizationError::Forbidden
    );
}

#[test]
fn test_an_unresolvable_source_is_denied() {
    let mut gate = gate(None, &[("node-a", &ControlCapability::ALL)]);

    assert_eq!(
        gate.authorize(source(), ControlCapability::ReadMetadata, 0)
            .expect_err("an unknown source is denied"),
        AuthorizationError::Unauthorized
    );
}

#[test]
fn test_repeated_requests_reuse_one_identity_lookup() {
    let mut gate = gate(Some("node-a"), &[("node-a", &ControlCapability::ALL)]);

    for _ in 0..10 {
        gate.authorize(source(), ControlCapability::ReadMetadata, 0)
            .expect("authorized");
    }

    assert_eq!(gate.lookups, 1);
}

#[test]
fn an_identity_is_looked_up_again_after_a_while() {
    let mut gate = gate(Some("node-a"), &[("node-a", &ControlCapability::ALL)]);

    for now in [0, 14_999, 15_000] {
        gate.authorize(source(), ControlCapability::ReadMetadata, now)
            .expect("authorized");
    }
    assert_eq!(gate.lookups, 2);

    gate.authorizer.invalidate();
    gate.authorize(source(), ControlCapability::ReadMetadata, 15_000)
        .expect("authorized");
    assert_eq!(gate.lookups, 3);
}

#[test]
fn a_lookup_that_fails_is_not_remembered() {
    let mut authorizer = Authorizer::new();
    let required = ControlCapability::ReadMetadata;

    assert_eq!(
        authorizer.identified(source(), required, IdentityLookup::TimedOut, 0, 0),
        Admission::Decided(Err(AuthorizationError::Unavailable))
    );
    assert_eq!(
        authorizer.identified(source(), required, IdentityLookup::Failed, 0, 0),
        Admission::Decided(Err(AuthorizationError::Unauthorized))
    );
    assert_eq!(authorizer.authorize(source(), required, 0), Admission::Identify);
    assert_eq!(
        authorizer.listed(
            "node-a",
            required,
            Err(PortError::new("ACCESS_STORE_FAILED", "gone".to_owned(), true)),
            0
        ),
        Err(AuthorizationError::AccessStoreFailed)
    );
}

#[test]
fn a_revocation_takes_effect_once_the_list_is_read_again() {
    let mut gate = gate(Some("node-a"), &[("node-a", &ControlCapability::ALL)]);
    let required = ControlCapability::ReadMetadata;

    assert!(gate.authorize(source(), required, 0).is_ok());
    gate.entries.clear();
    assert!(gate
        .authorize(source(), required, ALLOWLIST_CACHE_TTL_MILLIS - 1)
        .is_ok());
    assert_eq!(gate.reads, 1);
    assert_eq!(
        gate.authorize(source(), required, ALLOWLIST_CACHE_TTL_MILLIS),
        Err(AuthorizationError::Unauthorized)
    );
    assert_eq!(gate.reads, 2);
}

#[test]
fn test_a_flood_from_one_source_is_rate_limited() {
    let mut gate = gate(Some("node-a"), &[("node-a", &ControlCapability::ALL)]);

    let mut denials = 0;

    for _ in 0..(RATE_LIMIT_BURST + 20) {
        if gate
            .authorize(source(), ControlCapability::ReadMetadata, 0)
            .is_err()
        {
            denials += 1;
        }
    }

    assert!(denials > 0);
    assert_eq!(denials, 20);
}

#[test]
fn test_the_rate_limiter_refills_over_time() {
    let mut limiter = RateLimiter::new(2, 1, 8);

    assert!(limiter.admit_request(source(), 0));
    assert!(limiter.admit_request(source(), 0));
    assert!(!limiter.admit_request(source(), 0));
    assert!(limiter.admit_request(source(), 1_000));
}

#[test]
fn test_the_rate_limiter_bounds_the_sources_it_tracks() {
    let mut limiter = RateLimiter::new(1, 0, 2);

    assert!(limiter.admit_request(IpAddr::V4(100, 64, 0, 1), 0));
    assert!(limiter.admit_request(IpAddr::V4(100, 64, 0, 2), 0));
    assert!(!limiter.admit_request(IpAddr::V4(100, 64, 0, 3), 0));
}

#[test]
fn test_a_challenge_is_single_use() {
    let mut challenges = PairingChallenges::default();
    let pairing_id = challenges.issue("node-a", 0).expect("issued");

    assert_eq!(challenges.consume("node-a", &pairing_id, 0), Ok(()));
    assert_eq!(
        challenges.consume("node-a", &pairing_id, 0),
        Err(PairingError::UnknownChallenge)
    );
}

#[test]
fn test_a_challenge_is_bound_to_the_identity_it_was_issued_to() {
    let mut challenges = PairingChallenges::default();
    let pairing_id = challenges.issue("node-a", 0).expect("issued");

    assert_eq!(
        challenges.consume("node-b", &pairing_id, 0),
        Err(PairingError::UnknownChallenge)
    );
    assert_eq!(challenges.consume("node-a", &pairing_id, 0), Ok(()));
}

#[test]
fn test_an_invented_challenge_is_rejected() {
    let mut challenges = PairingChallenges::default();

    assert_eq!(
        challenges.consume("node-a", "0123456789abcdef", 0),
        Err(PairingError::UnknownChallenge)
    );
}

#[test]
fn test_an_expired_challenge_is_rejected() {
    let mut challenges = PairingChallenges::new(1);
    let pairing_id = challenges.issue("node-a", 0).expect("issued");

    assert_eq!(
        challenges.consume("node-a", &pairing_id, 5),
        Err(PairingError::UnknownChallenge)
    );
}

#[test]
fn test_pairing_attempts_are_rate_limited_per_identity() {
    let mut challenges = PairingChallenges::default();

    for _ in 0..MAX_OUTSTANDING_PER_OWNER {
        challenges.issue("node-a", 0).expect("issued");
    }

    assert_eq!(challenges.issue("node-a", 0), Err(PairingError::RateLimited));
    assert!(challenges.issue("node-b", 0).is_ok());
}

#[test]
fn test_issuing_is_capped_over_the_window_even_after_consumption() {
    let mut challenges = PairingChallenges::default();

    for _ in 0..MAX_ISSUES_PER_WINDOW {
        let pairing_id = challenges.issue("node-a", 0).expect("issued");
        challenges
            .consume("node-a", &pairing_id, 0)
            .expect("consumed");
    }

    assert_eq!(challenges.issue("node-a", 0), Err(PairingError::RateLimited));
    assert!(challenges.issue("node-a", 300_001).is_ok());
}

#[test]
fn test_challenge_identifiers_are_long_and_unpredictable() {
    let first = random_challenge_id();
    let second = random_challenge_id();

    assert_eq!(first.len(), 32);
    assert_ne!(first, second);
    assert!(first.chars().all(|character| character.is_ascii_hexdigit()));
    assert_eq!(
        challenge_id(&[0, 1, 15, 16, 255, 0, 0, 0, 0, 0, 0, 0, 0, 0, 0, 171]),
        "00010f10ff00000000000000000000ab"
    );
}

#[test]
fn test_a_fresh_request_is_admitted_once() {
    let mut guard = ReplayGuard::default();

    assert_eq!(guard.admit_request(Some(7), Some(100), 100, 0), Ok(()));
    assert_eq!(
        guard.admit_request(Some(7), Some(100), 100, 0),
        Err(FreshnessError::Replayed)
    );
}

#[test]
fn test_a_request_without_an_identifier_is_rejected() {
    let mut guard = ReplayGuard::default();

    assert_eq!(
        guard.admit_request(None, Some(100), 100, 0),
        Err(FreshnessError::Missing)
    );
    assert_eq!(
        guard.admit_request(Some(7), None, 100, 0),
        Err(FreshnessError::Missing)
    );
}

#[test]
fn test_a_stale_or_future_request_is_rejected() {
    let mut guard = ReplayGuard::default();
    let clock = 100 * NANOS_PER_MINUTE;
    let old = clock - 10 * NANOS_PER_MINUTE;
    let ahead = clock + 10 * NANOS_PER_MINUTE;

    assert_eq!(
        guard.admit_request(Some(1), Some(old), clock, 0),
        Err(FreshnessError::Stale)
    );
    assert_eq!(
        guard.admit_request(Some(2), Some(ahead), clock, 0),
        Err(FreshnessError::Stale)
    );
}

#[test]
fn test_tracking_is_bounded() {
    let mut guard = ReplayGuard::new(REQUEST_WINDOW_MILLIS, MAX_CLOCK_SKEW_MILLIS, 2);

    assert_eq!(guard.admit_request(Some(1), Some(0), 0, 0), Ok(()));
    assert_eq!(guard.admit_request(Some(2), Some(0), 0, 0), Ok(()));
    assert_eq!(
        guard.admit_request(Some(3), Some(0), 0, 0),
        Err(FreshnessError::Saturated)
    );
}

#[test]
fn test_identifiers_are_forgotten_after_the_window() {
    let mut guard = ReplayGuard::new(1, MAX_CLOCK_SKEW_MILLIS, 8);

    assert_eq!(guard.admit_request(Some(1), Some(0), 0, 0), Ok(()));
    assert_eq!(guard.admit_request(Some(1), Some(0), 0, 5), Ok(()));
}

fn window() -> WindowSelector {
    WindowSelector::Address("0x55aa".to_owned())
}

fn endpoint() -> AgentEndpoint {
    AgentEndpoint {
        address: source(),
        port: 48155,
    }
}

fn try_attach(
    sessions: &mut SessionCoordinator,
    owner: &str,
    now: u64,
    installed: bool,
) -> Result<SessionGrant, SessionError> {
    let candidate =
        sessions.begin_attach(owner, SessionRole::Remote, Some(endpoint()), window(), now)?;

    match sessions.finish_attach(candidate, now, installed) {
        AttachStep::Granted(grant) => Ok(grant),
        AttachStep::Clear(error) => Err(error),
    }
}

fn attach(sessions: &mut SessionCoordinator, owner: &str, now: u64) -> SessionGrant {
    try_attach(sessions, owner, now, true).expect("attach")
}

fn try_detach(
    sessions: &mut SessionCoordinator,
    owner: &str,
    claim: SessionClaim,
    cleared: bool,
) -> Result<SessionOutcome, SessionError> {
    match sessions.begin_detach(owner, claim)? {
        DetachStep::Ignore => Ok(SessionOutcome::Ignored),
        DetachStep::Clear => sessions.finish_detach(cleared),
    }
}

fn expire(sessions: &mut SessionCoordinator, now: u64) -> SessionOutcome {
    if sessions.begin_expiry(now) {
        sessions.finish_expiry(true)
    } else {
        SessionOutcome::Ignored
    }
}

#[test]
fn test_attach_grants_an_unpredictable_session_with_a_rising_generation() {
    let mut sessions = SessionCoordinator::new(30_000);

    let first = attach(&mut sessions, "node-a", 0);
    let second = attach(&mut sessions, "node-a", 0);

    assert_ne!(first.id, second.id);
    assert_eq!(second.generation, first.generation + 1);
    assert_eq!(second.lease_seconds, 30);
}

#[test]
fn test_a_second_controller_cannot_take_a_live_session() {
    let mut sessions = SessionCoordinator::new(30_000);
    attach(&mut sessions, "node-a", 0);

    let error = try_attach(&mut sessions, "node-b", 0, true).expect_err("the session is owned");

    assert_eq!(error, SessionError::OwnedByAnotherController);
    assert_eq!(sessions.snapshot().expect("session survives").owner, "node-a");
}

#[test]
fn test_a_stale_detach_cannot_remove_the_current_session() {
    let mut sessions = SessionCoordinator::new(30_000);
    let stale = attach(&mut sessions, "node-a", 0);
    let current = attach(&mut sessions, "node-a", 0);

    let outcome = try_detach(&mut sessions, "node-a", stale.claim(), true)
        .expect("stale detach is accepted but ignored");

    assert_eq!(outcome, SessionOutcome::Ignored);
    assert_eq!(sessions.snapshot().expect("session survives").id, current.id);
}

#[test]
fn test_detach_requires_the_owning_identity() {
    let mut sessions = SessionCoordinator::new(30_000);
    let grant = attach(&mut sessions, "node-a", 0);

    let error = try_detach(&mut sessions, "node-b", grant.claim(), true)
        .expect_err("a foreign identity cannot detach");

    assert_eq!(error, SessionError::NotOwner);
    assert!(sessions.snapshot().is_some());
}

#[test]
fn test_a_failed_attach_leaves_no_session_and_clears_its_effects() {
    let mut sessions = SessionCoordinator::new(30_000);

    let error = try_attach(&mut sessions, "node-a", 0, false).expect_err("install fails");

    assert_eq!(error, SessionError::EffectsFailed);
    assert!(sessions.snapshot().is_none());
}

#[test]
fn test_a_failed_detach_keeps_the_session_so_cleanup_can_be_retried() {
    let mut sessions = SessionCoordinator::new(30_000);
    let grant = attach(&mut sessions, "node-a", 0);

    let error =
        try_detach(&mut sessions, "node-a", grant.claim(), false).expect_err("cleanup fails");

    assert_eq!(error, SessionError::EffectsFailed);
    assert!(sessions.snapshot().is_some());

    assert_eq!(
        try_detach(&mut sessions, "node-a", grant.claim(), true).expect("retry succeeds"),
        SessionOutcome::Applied
    );
    assert!(sessions.snapshot().is_none());
}

#[test]
fn test_an_unrenewed_lease_expires_and_restores_local_input() {
    let mut sessions = SessionCoordinator::new(30_000);
    attach(&mut sessions, "node-a", 0);

    assert_eq!(expire(&mut sessions, 0), SessionOutcome::Ignored);
    assert_eq!(expire(&mut sessions, 31_000), SessionOutcome::Applied);
    assert!(sessions.snapshot().is_none());
}

#[test]
fn test_renewal_extends_the_lease_for_the_owner_only() {
    let mut sessions = SessionCoordinator::new(30_000);
    let grant = attach(&mut sessions, "node-a", 0);

    let renewed = sessions
        .renew("node-a", grant.claim(), 20_000)
        .expect("owner renews");
    assert_eq!(renewed.id, grant.id);

    assert_eq!(
        sessions
            .renew("node-b", grant.claim(), 20_000)
            .expect_err("a foreign identity cannot renew"),
        SessionError::NotOwner
    );

    assert_eq!(expire(&mut sessions, 40_000), SessionOutcome::Ignored);
}

#[test]
fn test_an_expired_session_can_be_taken_by_another_controller() {
    let mut sessions = SessionCoordinator::new(1);
    attach(&mut sessions, "node-a", 0);

    let grant = attach(&mut sessions, "node-b", 5);

    assert_eq!(sessions.snapshot().expect("session").owner, "node-b");
    assert_eq!(grant.generation, 2);
}

#[test]
fn test_startup_reconciliation_clears_effects_left_by_a_previous_run() {
    let mut sessions = SessionCoordinator::new(30_000);
    attach(&mut sessions, "node-a", 0);

    sessions.reconcile();

    assert!(sessions.snapshot().is_none());
    assert!(!sessions.release());
}

#[test]
fn a_session_that_is_not_there_cannot_be_renewed() {
    let mut sessions = SessionCoordinator::new(30_000);
    let claim = attach(&mut sessions, "node-a", 0).claim();
    assert!(sessions.release());

    assert_eq!(
        sessions.renew("node-a", claim, 0),
        Err(SessionError::NotFound)
    );
    assert_eq!(
        session_port_error(SessionError::NotFound).code,
        SessionError::NotFound.code()
    );
}

fn chord() -> KeyChord {
    KeyChord::new(
        vec![KeyModifier::Ctrl, KeyModifier::Alt, KeyModifier::Shift],
        "Z".to_owned(),
    )
    .expect("valid shortcut")
}

#[test]
fn test_controller_shortcut_notification_describes_capture_toggle() {
    let command = RemoteCommand::SendShortcut {
        chord: chord(),
        window: WindowSelector::ActiveWindow,
    };

    assert_eq!(
        controller_command_notification(&command),
        Some(Notification {
            summary: "Omdesky".to_owned(),
            body: "Remote shortcut capture changed".to_owned(),
        })
    );
}

#[test]
fn test_controller_close_notification_describes_session_close() {
    let command = RemoteCommand::CloseWindow {
        window: WindowSelector::ActiveWindow,
    };

    assert_eq!(
        controller_command_notification(&command),
        Some(Notification {
            summary: "Omdesky".to_owned(),
            body: "The remote session was closed".to_owned(),
        })
    );
}

#[test]
fn test_session_commands_have_no_controller_action_notification() {
    assert_eq!(
        controller_command_notification(&RemoteCommand::DetachSession),
        None
    );
}

#[test]
fn test_display_switch_command_has_no_controller_notification() {
    let command = RemoteCommand::SwitchStreamDisplay {
        display: DisplayId::from_text("DP-2"),
    };
    assert_eq!(controller_command_notification(&command), None);
}

#[test]
fn test_callback_endpoint_must_match_the_authenticated_peer() {
    let matching = callback_endpoint(
        SessionEndpoint {
            address: source(),
            port: 48155,
        },
        source(),
    )
    .expect("the caller's own address is accepted");
    assert_eq!(matching.address, source());
    assert_eq!(matching.port, 48155);

    let loopback = callback_endpoint(
        SessionEndpoint {
            address: IpAddr::V4(127, 0, 0, 1),
            port: 8080,
        },
        source(),
    )
    .expect_err("a foreign callback address is rejected");
    assert_eq!(loopback.status, 400);

    let other_peer = callback_endpoint(
        SessionEndpoint {
            address: IpAddr::V4(100, 64, 0, 9),
            port: 48155,
        },
        source(),
    )
    .expect_err("another peer's address is rejected");
    assert_eq!(other_peer.status, 400);
}

#[test]
fn test_authorization_failures_map_to_distinct_statuses() {
    assert_eq!(
        authorization_error(AuthorizationError::Unauthorized).status,
        401
    );
    assert_eq!(
        authorization_error(AuthorizationError::Forbidden).status,
        403
    );
    assert_eq!(
        authorization_error(AuthorizationError::RateLimited).status,
        429
    );
    assert_eq!(
        authorization_error(AuthorizationError::Unavailable).status,
        503
    );
}

#[test]
fn test_session_failures_map_to_distinct_statuses() {
    assert_eq!(
        session_error(SessionError::OwnedByAnotherController).status,
        409
    );
    assert_eq!(session_error(SessionError::NotOwner).status, 403);
    assert_eq!(session_error(SessionError::NotFound).status, 404);
}

#[test]
fn test_replayed_requests_are_reported_as_conflicts() {
    assert_eq!(freshness_error(FreshnessError::Replayed).status, 409);
    assert_eq!(freshness_error(FreshnessError::Missing).status, 400);
}

#[test]
fn lib_test_port_error_response_hides_internal_details() {
    let response = ApiError::from_port(&PortError::new(
        "HYPRLAND_UNAVAILABLE",
        "hyprctl exited with status 1: socket path /run/user/1000/hypr/private".to_owned(),
        true,
    ));

    assert_eq!(response.status, 503);
    assert_eq!(
        response.envelope.error.message,
        "The desktop could not be controlled. Make sure Hyprland is running."
    );
    assert!(!response.envelope.error.message.contains("/run/user"));
}

#[test]
fn test_status_and_retryability_follow_the_error_code() {
    let response = ApiError::of_code(ErrorCode::RateLimited, "slow");

    assert_eq!(response.status, 429);
    assert_eq!(response.envelope.error.code, "RATE_LIMITED");
    assert!(response.envelope.error.retryable);
}

#[test]
fn error_test_port_error_response_hides_internal_details() {
    let error = PortError::new(
        "HYPRLAND_UNAVAILABLE",
        "socket /run/user/1000/hypr/private is missing".to_owned(),
        true,
    );

    let response = ApiError::wire_from_port(&error);

    assert_eq!(response.status, 503);
    assert_eq!(response.envelope.error.code, "HYPRLAND_UNAVAILABLE");
    assert!(!response.envelope.error.message.contains("/run/user"));
}

#[test]
fn test_a_port_error_outside_the_wire_vocabulary_becomes_internal() {
    let error = PortError::new("COMMAND_TIMEOUT", "hyprctl took too long".to_owned(), true);

    let response = ApiError::wire_from_port(&error);

    assert_eq!(response.status, 500);
    assert_eq!(response.envelope.error.code, "INTERNAL_ERROR");
    assert!(!response.envelope.error.message.contains("hyprctl"));
}

#[test]
fn test_an_unlisted_source_is_unauthorized() {
    let response = authorization_error(AuthorizationError::OutsideTailnet);

    assert_eq!(response.status, 401);
    assert_eq!(response.envelope.error.code, "UNAUTHORIZED");
}

#[test]
fn refusals_have_their_codes() {
    assert_eq!(body_rejected().status, 400);
    assert_eq!(domain_error(DomainError::InvalidKeyChord).status, 400);
    assert_eq!(pairing_error(PairingError::RateLimited).status, 429);
    assert_eq!(pairing_error(PairingError::UnknownChallenge).status, 403);
    assert_eq!(
        ApiError::new(418, "TEAPOT", "no", false).envelope.error.code,
        "TEAPOT"
    );
}

fn peer(id: &str, capabilities: &[ControlCapability]) -> AuthorizedPeer {
    AuthorizedPeer {
        tailnet_node_id: id.to_owned(),
        capabilities: capabilities.to_vec(),
    }
}

/// What the agent holds between requests.
struct Agent {
    gate: Gate,
    replay: ReplayGuard,
    sessions: SessionCoordinator,
    challenges: PairingChallenges,
}

fn agent(entries: &[(&str, &[ControlCapability])]) -> Agent {
    Agent {
        gate: gate(Some(PEER), entries),
        replay: ReplayGuard::default(),
        sessions: SessionCoordinator::new(30_000),
        challenges: PairingChallenges::default(),
    }
}

const RELEASED: &str = "0.2.0";

impl Agent {
    /// The checks on the sender of a request, once its release was checked.
    fn admit_sender(
        &mut self,
        source: IpAddr,
        required: ControlCapability,
    ) -> Result<AuthorizedPeer, AuthorizationError> {
        self.gate.identity = if source == other_source() {
            Some("nOTHER1")
        } else {
            Some(PEER)
        };

        self.gate.authorize(source, required, 0)
    }

    fn visit(
        &mut self,
        source: IpAddr,
        release: Option<&str>,
        route: &AgentRoute,
    ) -> Result<(), ApiError> {
        match enter(route, release)? {
            None => Ok(()),
            Some(required) => {
                let peer = self.admit_sender(source, required);
                require_capability(peer.as_ref().map_err(|error| *error), required)
            }
        }
    }

    fn command(&mut self, source: IpAddr, request: CommandRequest) -> Result<CommandResponse, ApiError> {
        let required = enter(&AgentRoute::Command(&request.command), Some(RELEASED))?
            .expect("commands are protected");
        let peer = self.admit_sender(source, required);
        let clock = request.issued_at.unwrap_or(0);
        let session = self.sessions.snapshot();
        match run_command(
            peer.as_ref().map_err(|error| *error),
            &request,
            &mut self.replay,
            session.as_ref(),
            clock,
            0,
        )? {
            CommandRoute::Session => {}
            _ => return Ok(CommandResponse::executed()),
        }
        let peer = peer.expect("a command is routed only for an authorized peer");
        let mut step = apply_session_command(
            &mut self.sessions,
            &peer,
            source,
            request.command,
            request.session,
            0,
        )?;
        loop {
            step = match step {
                SessionStep::ClearAndInstall(candidate) => {
                    finish_session_attach(&mut self.sessions, candidate, 0, true)
                }
                SessionStep::Clear => return finish_session_detach(&mut self.sessions, true),
                SessionStep::ClearAndRefuse(error) => return Err(error),
                SessionStep::Respond(response) => return Ok(response),
            };
        }
    }

    fn attach(&mut self, source: IpAddr) -> SessionGrant {
        self.command(source, attach_request(source, 48155))
            .expect("attached")
            .session
            .expect("the agent issues a session grant")
    }
}

fn attach_request(address: IpAddr, port: u16) -> CommandRequest {
    CommandRequest::new(RemoteCommand::AttachSession {
        role: SessionRole::Remote,
        window: Some(window()),
        controller: Some(SessionEndpoint { address, port }),
    })
}

#[test]
fn test_health_stays_reachable_without_authorization() {
    assert_eq!(health().protocol, 1);
    assert_eq!(health().status, "ok");
}

#[test]
fn test_a_controller_without_a_release_is_refused_before_authorization() {
    let mut agent = agent(&[(PEER, &ControlCapability::ALL)]);

    let error = agent
        .visit(source(), None, &AgentRoute::Node)
        .expect_err("refused");

    assert_eq!(error.status, 409);
    assert_eq!(error.envelope.error.code, "VERSION_INCOMPATIBLE");
    assert_eq!(agent.gate.lookups, 0);
    assert!(agent.visit(source(), None, &AgentRoute::Health).is_ok());
}

#[test]
fn test_a_controller_from_another_release_line_is_refused() {
    let mut agent = agent(&[(PEER, &ControlCapability::ALL)]);
    let current = ReleaseLine::current().expect("current release parses");
    let other = format!("{}.{}.0", current.major, current.minor + 1);

    for release in [other.as_str(), "999.0.0", "not-a-version"] {
        let error = agent
            .visit(source(), Some(release), &AgentRoute::Node)
            .expect_err("refused");

        assert_eq!(error.status, 409, "{release} must be refused");
    }
}

#[test]
fn test_an_empty_allowlist_denies_every_protected_route() {
    let mut agent = agent(&[]);

    for route in [
        AgentRoute::Node,
        AgentRoute::Capabilities,
        AgentRoute::Displays,
        AgentRoute::Workspaces,
        AgentRoute::FocusWorkspace,
        AgentRoute::Windows,
        AgentRoute::ActiveWindow,
        AgentRoute::FocusWindow,
        AgentRoute::SunshineStatus,
        AgentRoute::SunshinePairChallenge,
        AgentRoute::SunshinePair,
    ] {
        let error = agent
            .visit(source(), Some(RELEASED), &route)
            .expect_err("denied");

        assert_eq!(error.status, 401, "{route:?} must be denied");
    }

    assert_eq!(
        agent
            .command(source(), CommandRequest::new(RemoteCommand::DetachSession))
            .expect_err("denied")
            .status,
        401
    );
}

#[test]
fn test_an_unlisted_peer_is_denied_while_a_listed_peer_is_served() {
    let mut agent = agent(&[(PEER, &ControlCapability::ALL)]);

    assert!(agent
        .visit(source(), Some(RELEASED), &AgentRoute::Node)
        .is_ok());
    assert_eq!(
        agent
            .visit(other_source(), Some(RELEASED), &AgentRoute::Node)
            .expect_err("denied")
            .status,
        401
    );
}

#[test]
fn test_a_read_only_peer_cannot_take_a_session_or_approve_pairing() {
    let mut agent = agent(&[(PEER, &[ControlCapability::ReadMetadata])]);

    assert!(agent
        .visit(source(), Some(RELEASED), &AgentRoute::Node)
        .is_ok());

    let attach = agent
        .command(source(), attach_request(source(), 48155))
        .expect_err("attaching is not granted");
    assert_eq!(attach.status, 403);
    assert!(agent.sessions.snapshot().is_none());

    for route in [AgentRoute::SunshinePairChallenge, AgentRoute::FocusWorkspace] {
        let refused = agent
            .visit(source(), Some(RELEASED), &route)
            .expect_err("not granted");
        assert_eq!(refused.status, 403);
    }

    let reader = peer(PEER, &[ControlCapability::ReadMetadata]);
    assert_eq!(
        sunshine_pair_challenge(&mut agent.challenges, Ok(&reader), 0)
            .expect_err("not granted")
            .status,
        403
    );
}

#[test]
fn routes_need_their_capability() {
    let shortcut = RemoteCommand::CloseWindow { window: window() };

    assert_eq!(route_capability(&AgentRoute::Health), None);
    assert_eq!(
        route_capability(&AgentRoute::Windows),
        Some(ControlCapability::ReadMetadata)
    );
    assert_eq!(
        route_capability(&AgentRoute::FocusWindow),
        Some(ControlCapability::FocusWorkspace)
    );
    assert_eq!(
        route_capability(&AgentRoute::SunshinePair),
        Some(ControlCapability::ApprovePairing)
    );
    assert_eq!(
        route_capability(&AgentRoute::Command(&shortcut)),
        Some(ControlCapability::CloseStream)
    );
}

#[test]
fn a_refused_sender_leaves_no_trace() {
    let mut replay = ReplayGuard::default();
    let request = CommandRequest::new(RemoteCommand::DetachSession);
    let clock = request.issued_at.expect("a time");
    let reader = peer(PEER, &[ControlCapability::ReadMetadata]);
    let controller = peer(PEER, &ControlCapability::ALL);

    let unknown = run_command(
        Err(AuthorizationError::Unauthorized),
        &request,
        &mut replay,
        None,
        clock,
        0,
    );
    assert_eq!(unknown.expect_err("not authorized").status, 401);
    let refused = run_command(Ok(&reader), &request, &mut replay, None, clock, 0);
    assert_eq!(refused.expect_err("not granted").status, 403);

    assert_eq!(
        run_command(Ok(&controller), &request, &mut replay, None, clock, 0),
        Ok(CommandRoute::Session)
    );
}

#[test]
fn a_failed_install_is_cleared_again() {
    let mut sessions = SessionCoordinator::new(30_000);
    let owner = peer(PEER, &ControlCapability::ALL);
    let request = attach_request(source(), 48155);

    let step = apply_session_command(&mut sessions, &owner, source(), request.command, None, 0);
    let Ok(SessionStep::ClearAndInstall(candidate)) = step else {
        panic!("a session to install");
    };
    match finish_session_attach(&mut sessions, candidate, 0, false) {
        SessionStep::ClearAndRefuse(error) => assert_eq!(error.status, 503),
        other => panic!("the desktop is to be cleared, not {other:?}"),
    }
    assert!(sessions.snapshot().is_none());
}

#[test]
fn test_a_command_without_a_request_identifier_is_rejected() {
    let mut agent = agent(&[(PEER, &ControlCapability::ALL)]);

    let error = agent
        .command(
            source(),
            CommandRequest {
                command: RemoteCommand::DetachSession,
                session: None,
                request_id: None,
                issued_at: None,
            },
        )
        .expect_err("rejected");

    assert_eq!(error.status, 400);
}

#[test]
fn test_a_replayed_command_is_rejected() {
    let mut agent = agent(&[(PEER, &ControlCapability::ALL)]);
    let request = attach_request(source(), 48155);
    let mut replayed = attach_request(source(), 48155);
    replayed.request_id = request.request_id;
    replayed.issued_at = request.issued_at;

    assert!(agent.command(source(), request).is_ok());
    assert_eq!(
        agent.command(source(), replayed).expect_err("replayed").status,
        409
    );
}

#[test]
fn test_a_callback_endpoint_must_match_the_calling_peer() {
    let mut agent = agent(&[(PEER, &ControlCapability::ALL)]);

    let error = agent
        .command(source(), attach_request(IpAddr::V4(127, 0, 0, 1), 9000))
        .expect_err("a foreign callback");

    assert_eq!(error.status, 400);
}

#[test]
fn test_a_second_controller_cannot_steal_or_end_a_live_session() {
    let mut agent = agent(&[
        (PEER, &ControlCapability::ALL),
        ("nOTHER1", &ControlCapability::ALL),
    ]);
    let grant = agent.attach(source());

    let stolen = agent
        .command(other_source(), attach_request(other_source(), 48155))
        .expect_err("the session is owned");
    assert_eq!(stolen.status, 409);

    let ended = agent
        .command(
            other_source(),
            CommandRequest::for_session(RemoteCommand::DetachSession, grant.claim()),
        )
        .expect_err("a foreign identity cannot detach");
    assert_eq!(ended.status, 403);

    assert_eq!(
        agent.sessions.snapshot().expect("the session survives").owner,
        PEER
    );
}

#[test]
fn test_a_stale_detach_does_not_end_the_current_session() {
    let mut agent = agent(&[(PEER, &ControlCapability::ALL)]);
    let stale = agent.attach(source());
    let current = agent.attach(source());

    let response = agent
        .command(
            source(),
            CommandRequest::for_session(RemoteCommand::DetachSession, stale.claim()),
        )
        .expect("accepted");

    assert!(!response.executed);
    assert_eq!(
        agent.sessions.snapshot().expect("the session survives").id,
        current.id
    );
}

#[test]
fn test_the_owner_can_renew_and_end_its_own_session() {
    let mut agent = agent(&[(PEER, &ControlCapability::ALL)]);
    let grant = agent.attach(source());

    let renewed = agent
        .command(
            source(),
            CommandRequest::for_session(RemoteCommand::RenewSession, grant.claim()),
        )
        .expect("renewed");
    assert_eq!(
        renewed
            .session
            .expect("renewal returns the same session")
            .id,
        grant.id
    );

    let detached = agent
        .command(
            source(),
            CommandRequest::for_session(RemoteCommand::DetachSession, grant.claim()),
        )
        .expect("detached");
    assert!(detached.executed);
    assert!(agent.sessions.snapshot().is_none());
}

fn pair_request(pairing_id: Option<String>, pin: &str) -> SunshinePairRequest {
    SunshinePairRequest {
        pairing_id,
        pin: pin.to_owned(),
        client_name: "desktop-a".to_owned(),
    }
}

#[test]
fn test_pairing_requires_a_live_single_use_challenge() {
    let mut agent = agent(&[(PEER, &ControlCapability::ALL)]);
    let owner = peer(PEER, &ControlCapability::ALL);

    let unchallenged = sunshine_pair(&mut agent.challenges, Ok(&owner), &pair_request(None, "1234"), 0)
        .expect_err("no challenge");
    assert_eq!(unchallenged.status, 400);

    let issued = sunshine_pair_challenge(&mut agent.challenges, Ok(&owner), 0).expect("issued");
    assert_eq!(issued.expires_in_seconds, 120);

    let request = pair_request(Some(issued.pairing_id), "1234");
    assert!(sunshine_pair(&mut agent.challenges, Ok(&owner), &request, 0).is_ok());
    assert_eq!(
        sunshine_pair(&mut agent.challenges, Ok(&owner), &request, 0)
            .expect_err("used up")
            .status,
        403
    );
}

#[test]
fn test_a_challenge_issued_to_one_peer_cannot_be_used_by_another() {
    let mut challenges = PairingChallenges::default();
    let owner = peer(PEER, &ControlCapability::ALL);
    let other = peer("nOTHER1", &ControlCapability::ALL);
    let issued = sunshine_pair_challenge(&mut challenges, Ok(&owner), 0).expect("issued");

    let error = sunshine_pair(
        &mut challenges,
        Ok(&other),
        &pair_request(Some(issued.pairing_id), "1234"),
        0,
    )
    .expect_err("a foreign challenge");

    assert_eq!(error.status, 403);
}

#[test]
fn test_a_malformed_pin_is_rejected_before_reaching_sunshine() {
    let mut challenges = PairingChallenges::default();
    let owner = peer(PEER, &ControlCapability::ALL);

    let error = sunshine_pair(
        &mut challenges,
        Ok(&owner),
        &pair_request(Some("abcd".to_owned()), "not-a-pin"),
        0,
    )
    .expect_err("a malformed pin");

    assert_eq!(error.status, 400);
}

#[test]
fn commands_go_where_the_session_says() {
    let mut agent = agent(&[(PEER, &ControlCapability::ALL)]);
    let shortcut = CommandRequest::new(RemoteCommand::SendShortcut {
        chord: chord(),
        window: WindowSelector::ActiveWindow,
    });
    let clock = shortcut.issued_at.expect("a time");
    let sender = peer(PEER, &ControlCapability::ALL);

    let alone = run_command(Ok(&sender), &shortcut, &mut agent.replay, None, clock, 0).expect("a route");
    assert_eq!(
        alone,
        CommandRoute::Execute(controller_command_notification(&shortcut.command))
    );

    agent.attach(source());
    let session = agent.sessions.snapshot().expect("a session");
    let again = CommandRequest::new(RemoteCommand::SendShortcut {
        chord: chord(),
        window: WindowSelector::ActiveWindow,
    });
    assert_eq!(
        run_command(Ok(&sender), &again, &mut agent.replay, Some(&session), clock, 0).expect("a route"),
        CommandRoute::Relay(endpoint())
    );
}

fn display(id: &str) -> Display {
    Display {
        id: id.to_owned(),
        name: id.to_owned(),
        width: 1920,
        height: 1080,
        refresh_bits: 60.0_f64.to_bits(),
        focused: false,
    }
}

#[test]
fn a_monitor_is_switched_to_by_its_number() {
    let displays = [display("eDP-1"), display("DP-2")];

    let RemoteCommand::SendShortcut { chord, .. } =
        switch_display(&displays, &DisplayId::from_text("DP-2")).expect("a shortcut")
    else {
        panic!("a shortcut");
    };
    assert_eq!(chord.key(), "F2");

    assert_eq!(
        switch_display(&displays, &DisplayId::from_text("DP-9"))
            .expect_err("unknown")
            .status,
        404
    );
    assert_ne!(
        switch_notice(&DisplayId::from_text("DP-2"), Some(true)),
        switch_notice(&DisplayId::from_text("DP-2"), None)
    );
    assert!(pairing_notice("desktop-a").body.contains("desktop-a"));
}

#[test]
fn windows_are_filtered_by_workspace_and_application() {
    let window = |id: &str, workspace: i64, app: &str| Window {
        id: WindowId(id.to_owned()),
        app_id: Some(app.to_owned()),
        class: None,
        title: None,
        workspace: WorkspaceId(workspace),
        focused: false,
    };
    let windows = || vec![window("0x1", 1, "code"), window("0x2", 2, "code"), window("0x3", 1, "foot")];
    let ids = |windows: Vec<Window>| -> Vec<String> {
        windows.into_iter().map(|window| window.id.0).collect()
    };

    let all = WindowFilter {
        workspace: None,
        app_id: None,
    };
    assert_eq!(ids(filter_windows(windows(), &all)), ["0x1", "0x2", "0x3"]);
    let some = WindowFilter {
        workspace: Some(1),
        app_id: Some("code".to_owned()),
    };
    assert_eq!(ids(filter_windows(windows(), &some)), ["0x1"]);
}

#[test]
fn workspace_names_are_checked() {
    assert!(validate_workspace_target(&WorkspaceTarget::Id(WorkspaceId(2))).is_ok());
    assert!(validate_workspace_target(&WorkspaceTarget::Name("code".to_owned())).is_ok());
    assert_eq!(
        validate_workspace_target(&WorkspaceTarget::Name(String::new()))
            .expect_err("empty")
            .status,
        400
    );
}

fn invocation(arguments: &[&str]) -> Result<Invocation, &'static str> {
    parse_arguments(&arguments.iter().map(|argument| argument.to_string()).collect())
}

#[test]
fn test_no_arguments_serve_the_agent() {
    assert!(matches!(invocation(&[]), Ok(Invocation::Serve)));
}

#[test]
fn test_version_and_help_flags_are_recognized() {
    assert!(matches!(
        invocation(&["--version"]),
        Ok(Invocation::Version)
    ));
    assert!(matches!(invocation(&["-V"]), Ok(Invocation::Version)));
    assert!(matches!(invocation(&["--help"]), Ok(Invocation::Help)));
    assert!(matches!(invocation(&["-h"]), Ok(Invocation::Help)));
}

#[test]
fn test_unknown_arguments_are_rejected() {
    assert!(invocation(&["--bind", "0.0.0.0"]).is_err());
    assert!(invocation(&["--version", "--help"]).is_err());
}

#[test]
fn the_agent_says_what_it_is() {
    assert!(version_text().contains(RELEASED));
    assert!(help_text().contains("omdesky-agent"));
    assert!(port_failure(&PortError::new("CODE", "detail".to_owned(), false)).contains("CODE"));
}

#[test]
fn tailscale_is_waited_for_a_while() {
    let mut wait = TailscaleWait::new();
    let missing = || Err(PortError::new("TAILSCALE_UNAVAILABLE", "stopped".to_owned(), true));

    for _ in 1..TAILSCALE_STARTUP_ATTEMPTS {
        assert!(matches!(wait.wait_for_tailscale(missing()), WaitStep::Retry(_)));
    }
    assert!(matches!(wait.wait_for_tailscale(missing()), WaitStep::Failed(_)));

    let mut wait = TailscaleWait::new();
    assert!(matches!(
        wait.wait_for_tailscale(Ok(identity(PEER))),
        WaitStep::Retry(detail) if detail == "Tailscale has no local address yet"
    ));
    let mut local = identity(PEER);
    local.addresses.push(source());
    assert!(matches!(
        wait.wait_for_tailscale(Ok(local)),
        WaitStep::Ready(found) if found.tailnet_node_id == PEER
    ));
}

#[test]
fn the_agent_listens_on_the_tailnet() {
    assert_eq!(bind_address(&vec![source()], false), Ok(source()));
    assert!(bind_address(&vec![], false).is_err());
    let elsewhere = IpAddr::V4(192, 168, 1, 10);
    assert!(bind_address(&vec![elsewhere], false).is_err());
    assert_eq!(bind_address(&vec![elsewhere], true), Ok(elsewhere));
}
