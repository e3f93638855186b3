//! Whether this computer and an agent can work together.
use vstd::prelude::*;
use vstd::string::*;

use crate::ports::{outcome, port_error, PortError, PortErrorView, PortResult};
use crate::protocol::{HealthResponse, PROTOCOL};
use crate::release::{compatible_release, is_compatible_release, RELEASE};

verus! {

/// An agent that speaks this protocol and is of this release line.
pub open spec fn compatible_agent(health: HealthResponse) -> bool {
    health.protocol == PROTOCOL && compatible_release(health.agent_version@)
}

pub open spec fn incompatible_message(agent_version: Seq<char>) -> Seq<char> {
    "the device runs Omdesky "@ + agent_version + " and this computer runs "@ + RELEASE@
}

pub fn ensure_compatible_agent(health: &HealthResponse) -> (r: PortResult<()>)
    ensures
        outcome(r) == (if compatible_agent(*health) {
            Ok::<(), PortErrorView>(())
        } else {
            Err(
                port_error(
                    "VERSION_INCOMPATIBLE"@,
                    incompatible_message(health.agent_version@),
                    false,
                ),
            )
        }),
{
    if health.protocol == PROTOCOL && is_compatible_release(health.agent_version.as_str()) {
        return Ok(());
    }
    Err(
        PortError::new(
            "VERSION_INCOMPATIBLE",
            "the device runs Omdesky ".to_owned().concat(health.agent_version.as_str()).concat(
                " and this computer runs ",
            ).concat(RELEASE),
            false,
        ),
    )
}

/// What keeps this computer from being a controller, if anything does.
pub open spec fn controller_readiness(
    local_agent: Result<HealthResponse, PortError>,
    sunshine_configured: bool,
) -> Result<(), PortErrorView> {
    match local_agent {
        Err(_) => Err(
            port_error(
                "LOCAL_AGENT_UNAVAILABLE"@,
                "the local omdesky-agent is not running"@,
                true,
            ),
        ),
        Ok(health) => if !compatible_agent(health) {
            Err(
                port_error(
                    "LOCAL_AGENT_INCOMPATIBLE"@,
                    incompatible_message(health.agent_version@),
                    false,
                ),
            )
        } else if !sunshine_configured {
            Err(
                port_error(
                    "LOCAL_SUNSHINE_UNCONFIGURED"@,
                    "Sunshine credentials are not configured on this controller"@,
                    false,
                ),
            )
        } else {
            Ok(())
        },
    }
}

pub fn ensure_controller_ready(local_agent: PortResult<HealthResponse>, sunshine_configured: bool) -> (r:
    PortResult<()>)
    ensures
        outcome(r) == controller_readiness(local_agent, sunshine_configured),
{
    match local_agent {
        Err(_) => Err(
            PortError::plain(
                "LOCAL_AGENT_UNAVAILABLE",
                "the local omdesky-agent is not running",
                true,
            ),
        ),
        Ok(health) => {
            match ensure_compatible_agent(&health) {
                Err(error) => Err(PortError::new("LOCAL_AGENT_INCOMPATIBLE", error.message, false)),
                Ok(()) => {
                    if sunshine_configured {
                        Ok(())
                    } else {
                        Err(
                            PortError::plain(
                                "LOCAL_SUNSHINE_UNCONFIGURED",
                                "Sunshine credentials are not configured on this controller",
                                false,
                            ),
                        )
                    }
                },
            }
        },
    }
}

/// An agent works with this computer exactly when it speaks the first protocol and its release does;
/// else the two releases are named.
pub proof fn law_an_agent_must_speak_the_first_protocol(health: HealthResponse, r: PortResult<()>)
    requires
        call_ensures(ensure_compatible_agent, (&health,), r),
    ensures
        r is Ok <==> health.protocol == 1 && compatible_release(health.agent_version@),
        r matches Err(error) ==> error.code@ == "VERSION_INCOMPATIBLE"@ && !error.retryable
            && error.message@ == "the device runs Omdesky "@ + health.agent_version@
            + " and this computer runs "@ + RELEASE@,
{
    if let Err(error) = r {
        assert(outcome(r)->Err_0 == error@);
        assert(error@.code == error.code@);
        assert(error@.message == error.message@);
        assert(error@.retryable == error.retryable);
    } else {
        assert(outcome(r) is Ok);
    }
}

/// This computer is ready to be a controller exactly when its agent answers, works with it, and
/// Sunshine is set up; what is missing is named in that order, and only an agent that does not run is
/// worth trying again.
pub proof fn law_readiness_names_what_is_missing_first(
    local_agent: PortResult<HealthResponse>,
    configured: bool,
    r: PortResult<()>,
)
    requires
        call_ensures(ensure_controller_ready, (local_agent, configured), r),
    ensures
        r is Ok <==> configured && (local_agent matches Ok(health) && health.protocol == 1
            && compatible_release(health.agent_version@)),
        local_agent is Err ==> (r matches Err(error) && error.code@ == "LOCAL_AGENT_UNAVAILABLE"@
            && error.retryable),
        (local_agent matches Ok(health) && !(health.protocol == 1 && compatible_release(
            health.agent_version@,
        ))) ==> (r matches Err(error) && error.code@ == "LOCAL_AGENT_INCOMPATIBLE"@ && !error.retryable),
        (local_agent matches Ok(health) && health.protocol == 1 && compatible_release(
            health.agent_version@,
        ) && !configured) ==> (r matches Err(error) && error.code@ == "LOCAL_SUNSHINE_UNCONFIGURED"@
            && !error.retryable),
{
    if let Err(error) = r {
        assert(outcome(r)->Err_0 == error@);
        assert(error@.code == error.code@);
        assert(error@.retryable == error.retryable);
    } else {
        assert(outcome(r) is Ok);
    }
}

/// A controller needs its own agent, of this release, and credentials for Sunshine; the first that
/// is missing is told.
pub proof fn law_what_a_controller_lacks_is_told(
    error: PortError,
    gone: PortResult<()>,
    health: HealthResponse,
    same: PortResult<()>,
    bare: PortResult<()>,
    full: PortResult<()>,
)
    requires
        call_ensures(ensure_controller_ready, (Err(error), true), gone),
        call_ensures(ensure_compatible_agent, (&health,), same),
        call_ensures(ensure_controller_ready, (Ok(health), false), bare),
        call_ensures(ensure_controller_ready, (Ok(health), true), full),
    ensures
        gone matches Err(e) && e@.code == "LOCAL_AGENT_UNAVAILABLE"@ && e@.message
            == "the local omdesky-agent is not running"@ && e@.retryable,
        full is Ok <==> same is Ok,
        bare is Err,
        same is Ok ==> bare->Err_0@.code == "LOCAL_SUNSHINE_UNCONFIGURED"@ && bare->Err_0@.message
            == "Sunshine credentials are not configured on this controller"@ && !bare->Err_0@.retryable,
        same is Err ==> bare->Err_0@.code == "LOCAL_AGENT_INCOMPATIBLE"@ && full->Err_0@
            == bare->Err_0@,
{
    assert(outcome(gone)->Err_0 == gone->Err_0@);
    assert(outcome(full) is Ok == full is Ok);
    assert(outcome(bare) is Ok == bare is Ok);
    assert(outcome(same) is Ok == same is Ok);
    if bare is Err {
        assert(outcome(bare)->Err_0 == bare->Err_0@);
    }
    if full is Err {
        assert(outcome(full)->Err_0 == full->Err_0@);
    }
}

} // verus!
