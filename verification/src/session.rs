//! The session of the controller that holds this desktop: one at a time, for as long as its lease
//! is renewed.
//!
//! Times are milliseconds of a clock that never goes back. What a change of the session does to
//! the desktop lies outside: `begin_attach` hands out the session to install, and `finish_attach`
//! takes in whether that worked; `begin_detach` and `begin_expiry` say whether the desktop is to be
//! cleared, and their second halves take in whether it was.
use vstd::prelude::*;
use vstd::string::*;

use crate::domain::{SessionClaim, SessionGrant, SessionRole, WindowSelector};
use crate::ids::{is_random_uuid, SessionId};
use crate::ports::{port_error, AgentEndpoint, PortError, SessionKeybindConfig};
use crate::strings::same_text;

verus! {

pub const DEFAULT_LEASE_MILLIS: u64 = 45_000;

pub const LEASE_SWEEP_INTERVAL_MILLIS: u64 = 5_000;

/// The session that holds the desktop.
#[derive(Debug, PartialEq, Eq)]
pub struct ActiveSession {
    pub id: SessionId,
    pub generation: u64,
    pub owner: String,
    pub role: SessionRole,
    pub controller: Option<AgentEndpoint>,
    pub window: WindowSelector,
}

pub struct ActiveSessionView {
    pub id: SessionId,
    pub generation: u64,
    pub owner: Seq<char>,
    pub role: SessionRole,
    pub controller: Option<AgentEndpoint>,
    pub window: WindowSelector,
}

impl View for ActiveSession {
    type V = ActiveSessionView;

    open spec fn view(&self) -> ActiveSessionView {
        ActiveSessionView {
            id: self.id,
            generation: self.generation,
            owner: self.owner@,
            role: self.role,
            controller: self.controller,
            window: self.window,
        }
    }
}

impl Clone for ActiveSession {
    fn clone(&self) -> (r: Self)
        ensures
            r == *self,
    {
        ActiveSession {
            id: self.id,
            generation: self.generation,
            owner: self.owner.clone(),
            role: self.role,
            controller: self.controller,
            window: self.window.clone(),
        }
    }
}

impl ActiveSession {
    /// The key bindings that the session needs.
    pub fn keybind_config(&self) -> (r: SessionKeybindConfig)
        ensures
            r == (SessionKeybindConfig {
                role: self.role,
                controller: self.controller,
                window: self.window,
            }),
    {
        SessionKeybindConfig {
            role: self.role,
            controller: self.controller,
            window: self.window.clone(),
        }
    }

    /// Whether the stream follows the focus while the session lasts.
    pub fn follows_focus(&self) -> (r: bool)
        ensures
            r == (self.role == SessionRole::Remote),
    {
        self.role == SessionRole::Remote
    }
}

#[derive(Clone, Copy, Debug, PartialEq, Eq, Structural)]
pub enum SessionOutcome {
    Applied,
    Ignored,
}

#[derive(Clone, Copy, Debug, PartialEq, Eq, Structural)]
pub enum SessionError {
    OwnedByAnotherController,
    NotOwner,
    NotFound,
    EffectsFailed,
}

impl SessionError {
    pub open spec fn spec_code(self) -> Seq<char> {
        match self {
            SessionError::OwnedByAnotherController => "SESSION_ALREADY_OWNED"@,
            SessionError::NotOwner => "SESSION_NOT_OWNED"@,
            SessionError::NotFound => "SESSION_NOT_FOUND"@,
            SessionError::EffectsFailed => "SESSION_EFFECTS_FAILED"@,
        }
    }

    pub open spec fn spec_message(self) -> Seq<char> {
        match self {
            SessionError::OwnedByAnotherController =>
                "Another device already owns this desktop session."@,
            SessionError::NotOwner => "This device does not own the desktop session."@,
            SessionError::NotFound => "There is no desktop session to update."@,
            SessionError::EffectsFailed =>
                "The desktop session could not be updated. Please try again."@,
        }
    }

    pub fn code(self) -> (r: &'static str)
        ensures
            r@ == self.spec_code(),
    {
        match self {
            SessionError::OwnedByAnotherController => "SESSION_ALREADY_OWNED",
            SessionError::NotOwner => "SESSION_NOT_OWNED",
            SessionError::NotFound => "SESSION_NOT_FOUND",
            SessionError::EffectsFailed => "SESSION_EFFECTS_FAILED",
        }
    }

    pub fn message(self) -> (r: &'static str)
        ensures
            r@ == self.spec_message(),
    {
        match self {
            SessionError::OwnedByAnotherController =>
                "Another device already owns this desktop session.",
            SessionError::NotOwner => "This device does not own the desktop session.",
            SessionError::NotFound => "There is no desktop session to update.",
            SessionError::EffectsFailed =>
                "The desktop session could not be updated. Please try again.",
        }
    }
}

pub fn session_port_error(error: SessionError) -> (r: PortError)
    ensures
        r@ == port_error(error.spec_code(), error.spec_message(), false),
{
    PortError::plain(error.code(), error.message(), false)
}

/// Keeps the one session of this desktop.
#[derive(Debug)]
pub struct SessionCoordinator {
    active: Option<ActiveSession>,
    expires_at: Option<u64>,
    generation: u64,
    lease_millis: u64,
}

pub struct CoordinatorView {
    pub active: Option<ActiveSessionView>,
    /// When the lease of the session runs out.
    pub expires_at: Option<u64>,
    /// How many sessions were attached, or were tried to be.
    pub generation: u64,
    pub lease_millis: u64,
}

impl View for SessionCoordinator {
    type V = CoordinatorView;

    closed spec fn view(&self) -> CoordinatorView {
        CoordinatorView {
            active: match self.active {
                Some(session) => Some(session@),
                None => None,
            },
            expires_at: self.expires_at,
            generation: self.generation,
            lease_millis: self.lease_millis,
        }
    }
}

/// The end of a lease that begins now.
pub open spec fn deadline(now: u64, lease_millis: u64) -> u64 {
    if now + lease_millis > u64::MAX {
        u64::MAX
    } else {
        (now + lease_millis) as u64
    }
}

pub open spec fn next_generation(generation: u64) -> u64 {
    if generation < u64::MAX {
        (generation + 1) as u64
    } else {
        generation
    }
}

impl CoordinatorView {
    /// A session has a lease, and its generation was counted.
    pub open spec fn wf(self) -> bool {
        &&& self.active is Some <==> self.expires_at is Some
        &&& self.active matches Some(session) ==> session.generation <= self.generation
    }

    /// Whether another controller holds the desktop at this time.
    pub open spec fn held_by_other(self, owner: Seq<char>, now: u64) -> bool {
        &&& self.active matches Some(session) && session.owner != owner
        &&& self.expires_at matches Some(end) && end > now
    }

    pub open spec fn without_session(self) -> CoordinatorView {
        CoordinatorView { active: None, expires_at: None, ..self }
    }

    pub open spec fn with_session(self, session: ActiveSessionView, now: u64) -> CoordinatorView {
        CoordinatorView {
            active: Some(session),
            expires_at: Some(deadline(now, self.lease_millis)),
            ..self
        }
    }

    /// Whether the claim is on the session that holds the desktop.
    pub open spec fn is_current(self, claim: SessionClaim) -> bool {
        self.active matches Some(session) && session.id == claim.id && session.generation
            == claim.generation
    }

    /// Whether the lease of the session has run out.
    pub open spec fn expired(self, now: u64) -> bool {
        self.active is Some && (self.expires_at matches Some(end) ==> end <= now)
    }

    pub open spec fn grant_of(self, session: ActiveSessionView) -> SessionGrant {
        SessionGrant {
            id: session.id,
            generation: session.generation,
            lease_seconds: self.lease_millis / 1000,
        }
    }
}

/// What a request to end the session comes to.
#[derive(Clone, Copy, Debug, PartialEq, Eq, Structural)]
pub enum DetachStep {
    /// There is nothing to end.
    Ignore,
    /// The desktop is to be cleared.
    Clear,
}

/// What an attachment comes to.
#[derive(Clone, Copy, Debug, PartialEq, Eq, Structural)]
pub enum AttachStep {
    Granted(SessionGrant),
    /// The desktop is to be cleared again; then the attachment is refused with this.
    Clear(SessionError),
}

fn later(now: u64, lease_millis: u64) -> (r: u64)
    ensures
        r == deadline(now, lease_millis),
{
    if lease_millis > u64::MAX - now {
        u64::MAX
    } else {
        now + lease_millis
    }
}

impl SessionCoordinator {
    pub fn new(lease_millis: u64) -> (r: Self)
        ensures
            r@ == (CoordinatorView { active: None, expires_at: None, generation: 0, lease_millis }),
            r@.wf(),
    {
        SessionCoordinator { active: None, expires_at: None, generation: 0, lease_millis }
    }

    pub fn lease_seconds(&self) -> (r: u64)
        ensures
            r == self@.lease_millis / 1000,
    {
        self.lease_millis / 1000
    }

    pub fn snapshot(&self) -> (r: Option<ActiveSession>)
        ensures
            match r {
                Some(session) => self@.active == Some(session@),
                None => self@.active is None,
            },
    {
        match &self.active {
            Some(session) => Some(session.clone()),
            None => None,
        }
    }

    /// Forgets the session, as at a start. The desktop is to be cleared.
    pub fn reconcile(&mut self)
        ensures
            final(self)@ == old(self)@.without_session(),
            final(self)@.wf(),
    {
        self.active = None;
        self.expires_at = None;
    }

    /// The session that a controller may have now. The desktop is to be cleared and the session
    /// installed; `finish_attach` takes in whether it was.
    pub fn begin_attach(
        &mut self,
        owner: &str,
        role: SessionRole,
        controller: Option<AgentEndpoint>,
        window: WindowSelector,
        now: u64,
    ) -> (r: Result<ActiveSession, SessionError>)
        requires
            old(self)@.wf(),
        ensures
            final(self)@.wf(),
            if old(self)@.held_by_other(owner@, now) {
                &&& r == Err::<ActiveSession, SessionError>(SessionError::OwnedByAnotherController)
                &&& final(self)@ == old(self)@
            } else {
                &&& final(self)@ == (CoordinatorView {
                    generation: next_generation(old(self)@.generation),
                    ..old(self)@
                })
                &&& r matches Ok(candidate) && is_random_uuid(candidate.id.0) && candidate@ == (
                ActiveSessionView {
                    id: candidate.id,
                    generation: next_generation(old(self)@.generation),
                    owner: owner@,
                    role,
                    controller,
                    window,
                })
            },
    {
        let held_by_other = match (&self.active, self.expires_at) {
            (Some(active), Some(end)) => !same_text(active.owner.as_str(), owner) && end > now,
            _ => false,
        };
        if held_by_other {
            return Err(SessionError::OwnedByAnotherController);
        }
        if self.generation < u64::MAX {
            self.generation = self.generation + 1;
        }
        Ok(
            ActiveSession {
                id: SessionId::new(),
                generation: self.generation,
                owner: owner.to_owned(),
                role,
                controller,
                window,
            },
        )
    }

    /// Goes on with an attachment that `begin_attach` began at the time `now`, by whether the
    /// session was installed. Where it was not, there is no session, and what was installed of it
    /// is to be cleared.
    pub fn finish_attach(&mut self, candidate: ActiveSession, now: u64, installed: bool) -> (r: AttachStep)
        requires
            old(self)@.wf(),
            candidate.generation <= old(self)@.generation,
        ensures
            final(self)@.wf(),
            if installed {
                &&& final(self)@ == old(self)@.with_session(candidate@, now)
                &&& r == AttachStep::Granted(old(self)@.grant_of(candidate@))
            } else {
                &&& final(self)@ == old(self)@.without_session()
                &&& r == AttachStep::Clear(SessionError::EffectsFailed)
            },
    {
        if !installed {
            self.active = None;
            self.expires_at = None;
            return AttachStep::Clear(SessionError::EffectsFailed);
        }
        let grant = SessionGrant {
            id: candidate.id,
            generation: candidate.generation,
            lease_seconds: self.lease_millis / 1000,
        };
        self.expires_at = Some(later(now, self.lease_millis));
        self.active = Some(candidate);
        AttachStep::Granted(grant)
    }

    fn owned_by(&self, owner: &str) -> (r: bool)
        ensures
            r == (self@.active matches Some(session) && session.owner == owner@),
    {
        match &self.active {
            Some(active) => same_text(active.owner.as_str(), owner),
            None => false,
        }
    }

    fn has_claim(&self, claim: SessionClaim) -> (r: bool)
        ensures
            r == self@.is_current(claim),
    {
        match &self.active {
            Some(active) => active.id == claim.id && active.generation == claim.generation,
            None => false,
        }
    }

    /// Whether a controller may end the session that it claims. A claim on another session than
    /// the current one is ignored.
    pub fn begin_detach(&self, owner: &str, claim: SessionClaim) -> (r: Result<DetachStep, SessionError>)
        ensures
            r == (match self@.active {
                None => Ok::<DetachStep, SessionError>(DetachStep::Ignore),
                Some(session) => if session.owner != owner@ {
                    Err(SessionError::NotOwner)
                } else if self@.is_current(claim) {
                    Ok(DetachStep::Clear)
                } else {
                    Ok(DetachStep::Ignore)
                },
            }),
    {
        if self.active.is_none() {
            return Ok(DetachStep::Ignore);
        }
        if !self.owned_by(owner) {
            return Err(SessionError::NotOwner);
        }
        if self.has_claim(claim) {
            Ok(DetachStep::Clear)
        } else {
            Ok(DetachStep::Ignore)
        }
    }

    /// Ends a detachment with whether the desktop was cleared. Where it was not, the session stays,
    /// so that ending it can be tried again.
    pub fn finish_detach(&mut self, cleared: bool) -> (r: Result<SessionOutcome, SessionError>)
        requires
            old(self)@.wf(),
        ensures
            final(self)@.wf(),
            if cleared {
                &&& final(self)@ == old(self)@.without_session()
                &&& r == Ok::<SessionOutcome, SessionError>(SessionOutcome::Applied)
            } else {
                &&& final(self)@ == old(self)@
                &&& r == Err::<SessionOutcome, SessionError>(SessionError::EffectsFailed)
            },
    {
        if !cleared {
            return Err(SessionError::EffectsFailed);
        }
        self.active = None;
        self.expires_at = None;
        Ok(SessionOutcome::Applied)
    }

    /// Starts the lease of the session anew.
    pub fn renew(&mut self, owner: &str, claim: SessionClaim, now: u64) -> (r: Result<
        SessionGrant,
        SessionError,
    >)
        requires
            old(self)@.wf(),
        ensures
            final(self)@.wf(),
            match old(self)@.active {
                None => r == Err::<SessionGrant, SessionError>(SessionError::NotFound)
                    && final(self)@ == old(self)@,
                Some(session) => if session.owner != owner@ {
                    r == Err::<SessionGrant, SessionError>(SessionError::NotOwner) && final(self)@
                        == old(self)@
                } else if !old(self)@.is_current(claim) {
                    r == Err::<SessionGrant, SessionError>(SessionError::NotFound) && final(self)@
                        == old(self)@
                } else {
                    &&& r == Ok::<SessionGrant, SessionError>(old(self)@.grant_of(session))
                    &&& final(self)@ == old(self)@.with_session(session, now)
                },
            },
    {
        if self.active.is_none() {
            return Err(SessionError::NotFound);
        }
        if !self.owned_by(owner) {
            return Err(SessionError::NotOwner);
        }
        if !self.has_claim(claim) {
            return Err(SessionError::NotFound);
        }
        self.expires_at = Some(later(now, self.lease_millis));
        Ok(
            SessionGrant {
                id: claim.id,
                generation: claim.generation,
                lease_seconds: self.lease_millis / 1000,
            },
        )
    }

    /// Whether the lease has run out, so that the desktop is to be cleared.
    pub fn begin_expiry(&self, now: u64) -> (r: bool)
        ensures
            r == self@.expired(now),
    {
        self.active.is_some() && match self.expires_at {
            Some(end) => end <= now,
            None => true,
        }
    }

    /// Ends an expiry with whether the desktop was cleared. Where it was not, the session stays, so
    /// that the next sweep tries again.
    pub fn finish_expiry(&mut self, cleared: bool) -> (r: SessionOutcome)
        requires
            old(self)@.wf(),
        ensures
            final(self)@.wf(),
            if cleared {
                final(self)@ == old(self)@.without_session() && r == SessionOutcome::Applied
            } else {
                final(self)@ == old(self)@ && r == SessionOutcome::Ignored
            },
    {
        if !cleared {
            return SessionOutcome::Ignored;
        }
        self.active = None;
        self.expires_at = None;
        SessionOutcome::Applied
    }

    /// Gives the desktop up, as at a shutdown. The result is whether there was a session, so that
    /// the desktop is to be cleared.
    pub fn release(&mut self) -> (r: bool)
        requires
            old(self)@.wf(),
        ensures
            r == (old(self)@.active is Some),
            final(self)@ == old(self)@.without_session(),
            final(self)@.wf(),
    {
        let held = self.active.is_some();
        self.active = None;
        self.expires_at = None;
        held
    }
}

/// While a lease runs, nobody but its owner is given a session.
pub proof fn law_live_session_cannot_be_taken(state: CoordinatorView, session: ActiveSessionView, other: Seq<char>, attached_at: u64, now: u64)
    requires
        session.owner != other,
        now < deadline(attached_at, state.lease_millis),
    ensures
        state.with_session(session, attached_at).held_by_other(other, now),
{
}

/// Once the lease has run out another controller is given the session.
pub proof fn law_expired_session_can_be_taken(state: CoordinatorView, session: ActiveSessionView, other: Seq<char>, attached_at: u64, now: u64)
    requires
        now >= deadline(attached_at, state.lease_millis),
    ensures
        !state.with_session(session, attached_at).held_by_other(other, now),
        state.with_session(session, attached_at).expired(now),
{
}

/// A renewal makes the lease last a whole term from then on.
pub proof fn law_renewal_extends_the_lease(state: CoordinatorView, session: ActiveSessionView, renewed_at: u64, now: u64)
    requires
        now < deadline(renewed_at, state.lease_millis),
    ensures
        !state.with_session(session, renewed_at).expired(now),
{
}

/// Every attachment has a higher generation than the sessions before it, until the counter is
/// at its end; so a claim on an earlier session is not current.
pub proof fn law_earlier_claims_are_stale(state: CoordinatorView, session: ActiveSessionView, earlier: SessionClaim, now: u64)
    requires
        state.wf(),
        earlier.generation <= state.generation,
        state.generation < u64::MAX,
        session.generation == next_generation(state.generation),
    ensures
        !(CoordinatorView { generation: session.generation, ..state }).with_session(session, now).is_current(
            earlier,
        ),
{
}

/// A controller is given a session exactly when none is held, or it holds it itself, or the lease of
/// the one that holds it has run out. The session is then its own, under a new attachment; what was
/// held stays until it is installed.
pub proof fn law_the_desktop_is_given_to_one_controller(
    coordinator: &mut SessionCoordinator,
    owner: &str,
    role: SessionRole,
    controller: Option<AgentEndpoint>,
    window: WindowSelector,
    now: u64,
    r: Result<ActiveSession, SessionError>,
)
    requires
        old(coordinator)@.wf(),
        call_ensures(
            SessionCoordinator::begin_attach,
            (coordinator, owner, role, controller, window, now),
            r,
        ),
    ensures
        r is Err <==> (old(coordinator)@.active matches Some(held) && held.owner != owner@
            && old(coordinator)@.expires_at->0 > now),
        r matches Err(error) ==> error == SessionError::OwnedByAnotherController,
        r matches Ok(session) ==> {
            &&& session.owner@ == owner@
            &&& session.role == role
            &&& session.controller == controller
            &&& session.window == window
            &&& session.generation == final(coordinator)@.generation
            &&& old(coordinator)@.generation < u64::MAX ==> session.generation
                == old(coordinator)@.generation + 1
        },
        final(coordinator)@.active == old(coordinator)@.active,
        final(coordinator)@.expires_at == old(coordinator)@.expires_at,
        final(coordinator)@.lease_millis == old(coordinator)@.lease_millis,
{
    if let Ok(session) = r {
        assert(session@.owner == session.owner@);
        assert(session@.role == session.role);
        assert(session@.controller == session.controller);
        assert(session@.window == session.window);
        assert(session@.generation == session.generation);
    }
}

/// A session that was installed holds the desktop for its lease from the attachment on, and the grant
/// is of it; one that was not leaves the desktop to nobody.
pub proof fn law_an_installed_session_holds_the_desktop(
    coordinator: &mut SessionCoordinator,
    candidate: ActiveSession,
    now: u64,
    installed: bool,
    r: AttachStep,
)
    requires
        old(coordinator)@.wf(),
        candidate.generation <= old(coordinator)@.generation,
        call_ensures(SessionCoordinator::finish_attach, (coordinator, candidate, now, installed), r),
    ensures
        installed ==> {
            &&& final(coordinator)@.active == Some(candidate@)
            &&& final(coordinator)@.expires_at is Some
            &&& now + old(coordinator)@.lease_millis <= u64::MAX ==> final(coordinator)@.expires_at->0
                == now + old(coordinator)@.lease_millis
            &&& now + old(coordinator)@.lease_millis > u64::MAX ==> final(coordinator)@.expires_at->0
                == u64::MAX
            &&& r matches AttachStep::Granted(grant) && grant.id == candidate.id && grant.generation
                == candidate.generation && grant.lease_seconds * 1000
                <= old(coordinator)@.lease_millis < (grant.lease_seconds + 1) * 1000
        },
        !installed ==> final(coordinator)@.active is None && final(coordinator)@.expires_at is None && r
            == AttachStep::Clear(SessionError::EffectsFailed),
        final(coordinator)@.generation == old(coordinator)@.generation,
        final(coordinator)@.lease_millis == old(coordinator)@.lease_millis,
{
}

/// Only the owner ends a session, and only the one that it claims.
pub proof fn law_only_the_owner_ends_its_session(
    coordinator: SessionCoordinator,
    owner: &str,
    claim: SessionClaim,
    r: Result<DetachStep, SessionError>,
)
    requires
        call_ensures(SessionCoordinator::begin_detach, (&coordinator, owner, claim), r),
    ensures
        r == Ok::<DetachStep, SessionError>(DetachStep::Clear) <==> (coordinator@.active matches Some(
            held,
        ) && held.owner == owner@ && held.id == claim.id && held.generation == claim.generation),
        r == Err::<DetachStep, SessionError>(SessionError::NotOwner) <==> (coordinator@.active
            matches Some(held) && held.owner != owner@),
        coordinator@.active is None ==> r == Ok::<DetachStep, SessionError>(DetachStep::Ignore),
        r matches Err(error) ==> error == SessionError::NotOwner,
{
}

/// Only the owner renews a session, and only the one that it claims. The lease then runs from the
/// renewal on and nothing else changes; a refused renewal changes nothing.
pub proof fn law_only_the_owner_renews_its_session(
    coordinator: &mut SessionCoordinator,
    owner: &str,
    claim: SessionClaim,
    now: u64,
    r: Result<SessionGrant, SessionError>,
)
    requires
        old(coordinator)@.wf(),
        call_ensures(SessionCoordinator::renew, (coordinator, owner, claim, now), r),
    ensures
        r is Ok <==> (old(coordinator)@.active matches Some(held) && held.owner == owner@ && held.id
            == claim.id && held.generation == claim.generation),
        r matches Err(error) ==> (error == SessionError::NotOwner <==> (old(coordinator)@.active
            matches Some(held) && held.owner != owner@)),
        r matches Err(error) ==> error == SessionError::NotOwner || error == SessionError::NotFound,
        r is Err ==> final(coordinator)@ == old(coordinator)@,
        r matches Ok(grant) ==> {
            &&& grant.id == claim.id
            &&& grant.generation == claim.generation
            &&& grant.lease_seconds * 1000 <= old(coordinator)@.lease_millis < (grant.lease_seconds + 1)
                * 1000
            &&& final(coordinator)@.active == old(coordinator)@.active
            &&& final(coordinator)@.generation == old(coordinator)@.generation
            &&& now + old(coordinator)@.lease_millis <= u64::MAX ==> final(coordinator)@.expires_at
                == Some((now + old(coordinator)@.lease_millis) as u64)
        },
{
}

/// A session runs out exactly when its lease has ended, and a desktop that nobody holds never does.
pub proof fn law_a_session_runs_out_with_its_lease(
    coordinator: SessionCoordinator,
    now: u64,
    r: bool,
)
    requires
        coordinator@.wf(),
        call_ensures(SessionCoordinator::begin_expiry, (&coordinator, now), r),
    ensures
        r <==> coordinator@.active is Some && coordinator@.expires_at->0 <= now,
{
}

/// Once the desktop was cleared nobody holds it; where it could not be cleared the session stays, so
/// that ending it is tried again.
pub proof fn law_a_session_ends_when_the_desktop_is_cleared(
    coordinator: &mut SessionCoordinator,
    cleared: bool,
    r: Result<SessionOutcome, SessionError>,
)
    requires
        old(coordinator)@.wf(),
        call_ensures(SessionCoordinator::finish_detach, (coordinator, cleared), r),
    ensures
        cleared ==> final(coordinator)@.active is None && final(coordinator)@.expires_at is None && r
            == Ok::<SessionOutcome, SessionError>(SessionOutcome::Applied),
        !cleared ==> final(coordinator)@.active == old(coordinator)@.active
            && final(coordinator)@.expires_at == old(coordinator)@.expires_at && r == Err::<
            SessionOutcome,
            SessionError,
        >(SessionError::EffectsFailed),
        final(coordinator)@.generation == old(coordinator)@.generation,
{
}

/// An expiry that cleared the desktop leaves it to nobody; one that did not leaves the session for
/// the next sweep.
pub proof fn law_an_expiry_is_tried_until_the_desktop_is_cleared(
    coordinator: &mut SessionCoordinator,
    cleared: bool,
    r: SessionOutcome,
)
    requires
        old(coordinator)@.wf(),
        call_ensures(SessionCoordinator::finish_expiry, (coordinator, cleared), r),
    ensures
        cleared <==> r == SessionOutcome::Applied,
        cleared ==> final(coordinator)@.active is None && final(coordinator)@.expires_at is None,
        !cleared ==> final(coordinator)@.active == old(coordinator)@.active
            && final(coordinator)@.expires_at == old(coordinator)@.expires_at,
        final(coordinator)@.generation == old(coordinator)@.generation,
{
}

/// A start and a shutdown leave the desktop to nobody, and keep the count of attachments, so that an
/// earlier claim stays stale; a shutdown tells whether there was a session.
pub proof fn law_the_desktop_is_given_up(coordinator: &mut SessionCoordinator, held: bool)
    requires
        old(coordinator)@.wf(),
        call_ensures(SessionCoordinator::release, (coordinator,), held),
    ensures
        held <==> old(coordinator)@.active is Some,
        final(coordinator)@.active is None,
        final(coordinator)@.expires_at is None,
        final(coordinator)@.generation == old(coordinator)@.generation,
{
}

/// See `law_the_desktop_is_given_up`.
pub proof fn law_a_start_finds_no_session(coordinator: &mut SessionCoordinator)
    requires
        call_ensures(SessionCoordinator::reconcile, (coordinator,), ()),
    ensures
        final(coordinator)@.active is None,
        final(coordinator)@.expires_at is None,
        final(coordinator)@.generation == old(coordinator)@.generation,
        final(coordinator)@.lease_millis == old(coordinator)@.lease_millis,
{
}

/// Each refusal has a code and a sentence of its own, and none is worth trying again.
pub proof fn law_session_refusals_have_their_code(error: SessionError, r: PortError)
    requires
        call_ensures(session_port_error, (error,), r),
    ensures
        error == SessionError::OwnedByAnotherController ==> r.code@ == "SESSION_ALREADY_OWNED"@
            && r.message@ == "Another device already owns this desktop session."@,
        error == SessionError::NotOwner ==> r.code@ == "SESSION_NOT_OWNED"@ && r.message@
            == "This device does not own the desktop session."@,
        error == SessionError::NotFound ==> r.code@ == "SESSION_NOT_FOUND"@ && r.message@
            == "There is no desktop session to update."@,
        error == SessionError::EffectsFailed ==> r.code@ == "SESSION_EFFECTS_FAILED"@ && r.message@
            == "The desktop session could not be updated. Please try again."@,
        !r.retryable,
{
    assert(r@.code == r.code@);
    assert(r@.message == r.message@);
    assert(r@.retryable == r.retryable);
}

/// The stream follows the focus while this desktop is the remote one, and its key bindings are those
/// of the session.
pub proof fn law_a_remote_desktop_follows_its_focus(
    session: ActiveSession,
    follows: bool,
    bindings: SessionKeybindConfig,
)
    requires
        call_ensures(ActiveSession::follows_focus, (&session,), follows),
        call_ensures(ActiveSession::keybind_config, (&session,), bindings),
    ensures
        follows <==> session.role == SessionRole::Remote,
        bindings.role == session.role,
        bindings.controller == session.controller,
        bindings.window == session.window,
{
}

/// A lease is told in whole seconds, and the session that holds the desktop is told as it is.
pub proof fn law_a_session_is_told_as_it_is(
    coordinator: &SessionCoordinator,
    seconds: u64,
    r: Option<ActiveSession>,
)
    requires
        call_ensures(SessionCoordinator::lease_seconds, (coordinator,), seconds),
        call_ensures(SessionCoordinator::snapshot, (coordinator,), r),
    ensures
        seconds * 1000 <= coordinator@.lease_millis < seconds * 1000 + 1000,
        r is Some <==> coordinator@.active is Some,
        r matches Some(session) ==> coordinator@.active->0.id == session.id
            && coordinator@.active->0.generation == session.generation && coordinator@.active->0.owner
            == session.owner@ && coordinator@.active->0.role == session.role
            && coordinator@.active->0.controller == session.controller,
{
}

} // verus!
