//! Pairing Moonlight with the Sunshine of another computer.
//!
//! `PairStream` holds how far the pairing has come. `action` says what is to be done next, and
//! `reply` takes in how that went.
use vstd::prelude::*;
use vstd::string::*;

use crate::domain::IpAddr;
use crate::ports::{
    port_error, PairingState, PendingPairing, PortError, PortErrorView, PortResult, StreamHostDescriptor,
};
use crate::protocol::{SunshinePairChallengeResponse, SunshinePairRequest, SunshineStatusResponse};

verus! {

#[derive(Clone, Copy, Debug, PartialEq, Eq, Structural)]
pub enum PairStage {
    /// Moonlight is asked whether it is paired already.
    Check,
    /// The remote agent is asked about its Sunshine.
    Status,
    /// The remote agent is asked for a challenge.
    Challenge,
    /// Moonlight is told to begin, and gives a PIN.
    Begin,
    /// The PIN goes to the remote agent.
    Submit,
    /// Moonlight is asked whether it is paired now.
    Confirm,
    Finished,
}

/// A pairing in progress.
#[derive(Debug)]
pub struct PairStream {
    address: IpAddr,
    client_name: String,
    stage: PairStage,
    pairing_id: String,
    pin: String,
    failure: Option<PortError>,
}

pub struct PairView {
    pub address: IpAddr,
    pub client_name: Seq<char>,
    pub stage: PairStage,
    pub pairing_id: Seq<char>,
    pub pin: Seq<char>,
    pub failure: Option<PortErrorView>,
}

impl View for PairStream {
    type V = PairView;

    closed spec fn view(&self) -> PairView {
        PairView {
            address: self.address,
            client_name: self.client_name@,
            stage: self.stage,
            pairing_id: self.pairing_id@,
            pin: self.pin@,
            failure: match self.failure {
                Some(error) => Some(error@),
                None => None,
            },
        }
    }
}

/// What is to be done next.
pub enum PairAction {
    AskPairingState(StreamHostDescriptor),
    AskStatus,
    AskChallenge,
    BeginPairing(StreamHostDescriptor),
    SubmitPin(SunshinePairRequest),
    Finish(PortResult<()>),
}

/// How it went.
pub enum PairReply {
    PairingState(PortResult<PairingState>),
    Status(PortResult<SunshineStatusResponse>),
    Challenge(PortResult<SunshinePairChallengeResponse>),
    Pending(PortResult<PendingPairing>),
    Submitted(PortResult<()>),
}

impl PairView {
    pub open spec fn start(address: IpAddr, client_name: Seq<char>) -> PairView {
        PairView {
            address,
            client_name,
            stage: PairStage::Check,
            pairing_id: Seq::empty(),
            pin: Seq::empty(),
            failure: None,
        }
    }

    pub open spec fn at(self, stage: PairStage) -> PairView {
        PairView { stage, ..self }
    }

    pub open spec fn failed(self, error: PortErrorView) -> PairView {
        PairView { stage: PairStage::Finished, failure: Some(error), ..self }
    }

    /// The state after a reply. A reply to another question changes nothing.
    pub open spec fn next(self, reply: PairReply) -> PairView {
        match (self.stage, reply) {
            (PairStage::Check, PairReply::PairingState(Err(error))) => self.failed(error@),
            (PairStage::Check, PairReply::PairingState(Ok(state))) => if state
                == PairingState::Paired {
                self.at(PairStage::Finished)
            } else {
                self.at(PairStage::Status)
            },
            (PairStage::Status, PairReply::Status(Err(error))) => self.failed(error@),
            (PairStage::Status, PairReply::Status(Ok(status))) => if !status.running {
                self.failed(
                    port_error(
                        "SUNSHINE_NOT_RUNNING"@,
                        "Sunshine is not running on the remote node"@,
                        true,
                    ),
                )
            } else if !status.pairing_api_available {
                self.failed(
                    port_error(
                        "SUNSHINE_API_UNAVAILABLE"@,
                        "Sunshine admin credentials are missing on the remote host. Configure them on that machine (Settings -> Configure Sunshine credentials, or `omdesky setup`), not on this controller."@,
                        false,
                    ),
                )
            } else {
                self.at(PairStage::Challenge)
            },
            (PairStage::Challenge, PairReply::Challenge(Err(error))) => self.failed(error@),
            (PairStage::Challenge, PairReply::Challenge(Ok(challenge))) => PairView {
                stage: PairStage::Begin,
                pairing_id: challenge.pairing_id@,
                ..self
            },
            (PairStage::Begin, PairReply::Pending(Err(error))) => self.failed(error@),
            (PairStage::Begin, PairReply::Pending(Ok(pending))) => PairView {
                stage: PairStage::Submit,
                pin: pending.pin@,
                ..self
            },
            (PairStage::Submit, PairReply::Submitted(Err(error))) => self.failed(error@),
            (PairStage::Submit, PairReply::Submitted(Ok(()))) => self.at(PairStage::Confirm),
            (PairStage::Confirm, PairReply::PairingState(Err(error))) => self.failed(error@),
            (PairStage::Confirm, PairReply::PairingState(Ok(state))) => if state
                == PairingState::Paired {
                self.at(PairStage::Finished)
            } else {
                self.failed(
                    port_error(
                        "MOONLIGHT_PAIRING_FAILED"@,
                        "Moonlight did not report the host as paired"@,
                        true,
                    ),
                )
            },
            _ => self,
        }
    }

    /// Whether `action` is what is to be done in this state.
    pub open spec fn asks(self, action: PairAction) -> bool {
        match self.stage {
            PairStage::Check | PairStage::Confirm => action matches PairAction::AskPairingState(host)
                && host.address == self.address && host.application@ == "Desktop"@,
            PairStage::Status => action is AskStatus,
            PairStage::Challenge => action is AskChallenge,
            PairStage::Begin => action matches PairAction::BeginPairing(host) && host.address
                == self.address && host.application@ == "Desktop"@,
            PairStage::Submit => action matches PairAction::SubmitPin(request)
                && request.pairing_id is Some && request.pairing_id->0@ == self.pairing_id
                && request.pin@ == self.pin && request.client_name@ == self.client_name,
            PairStage::Finished => action matches PairAction::Finish(result) && match self.failure {
                None => result is Ok,
                Some(error) => result is Err && result->Err_0@ == error,
            },
        }
    }
}

impl PairStream {
    pub fn new(address: IpAddr, client_name: String) -> (r: Self)
        ensures
            r@ == PairView::start(address, client_name@),
    {
        PairStream {
            address,
            client_name,
            stage: PairStage::Check,
            pairing_id: String::new(),
            pin: String::new(),
            failure: None,
        }
    }

    fn host(&self) -> (r: StreamHostDescriptor)
        ensures
            r.address == self@.address,
            r.application@ == "Desktop"@,
    {
        StreamHostDescriptor { address: self.address, application: "Desktop".to_owned() }
    }

    pub fn action(&self) -> (r: PairAction)
        ensures
            self@.asks(r),
    {
        match self.stage {
            PairStage::Check => PairAction::AskPairingState(self.host()),
            PairStage::Status => PairAction::AskStatus,
            PairStage::Challenge => PairAction::AskChallenge,
            PairStage::Begin => PairAction::BeginPairing(self.host()),
            PairStage::Submit => PairAction::SubmitPin(
                SunshinePairRequest {
                    pairing_id: Some(self.pairing_id.clone()),
                    pin: self.pin.clone(),
                    client_name: self.client_name.clone(),
                },
            ),
            PairStage::Confirm => PairAction::AskPairingState(self.host()),
            PairStage::Finished => match &self.failure {
                None => PairAction::Finish(Ok(())),
                Some(error) => PairAction::Finish(Err(error.clone())),
            },
        }
    }

    fn fail(&mut self, error: PortError)
        ensures
            final(self)@ == old(self)@.failed(error@),
    {
        self.stage = PairStage::Finished;
        self.failure = Some(error);
    }

    fn go(&mut self, stage: PairStage)
        ensures
            final(self)@ == old(self)@.at(stage),
    {
        self.stage = stage;
    }

    pub fn reply(&mut self, reply: PairReply)
        ensures
            final(self)@ == old(self)@.next(reply),
    {
        match (self.stage, reply) {
            (PairStage::Check, PairReply::PairingState(Err(error))) => self.fail(error),
            (PairStage::Check, PairReply::PairingState(Ok(state))) => {
                if state == PairingState::Paired {
                    self.go(PairStage::Finished);
                } else {
                    self.go(PairStage::Status);
                }
            },
            (PairStage::Status, PairReply::Status(Err(error))) => self.fail(error),
            (PairStage::Status, PairReply::Status(Ok(status))) => {
                if !status.running {
                    self.fail(
                        PortError::plain(
                            "SUNSHINE_NOT_RUNNING",
                            "Sunshine is not running on the remote node",
                            true,
                        ),
                    );
                } else if !status.pairing_api_available {
                    self.fail(
                        PortError::plain(
                            "SUNSHINE_API_UNAVAILABLE",
                            "Sunshine admin credentials are missing on the remote host. Configure them on that machine (Settings -> Configure Sunshine credentials, or `omdesky setup`), not on this controller.",
                            false,
                        ),
                    );
                } else {
                    self.go(PairStage::Challenge);
                }
            },
            (PairStage::Challenge, PairReply::Challenge(Err(error))) => self.fail(error),
            (PairStage::Challenge, PairReply::Challenge(Ok(challenge))) => {
                self.pairing_id = challenge.pairing_id;
                self.go(PairStage::Begin);
            },
            (PairStage::Begin, PairReply::Pending(Err(error))) => self.fail(error),
            (PairStage::Begin, PairReply::Pending(Ok(pending))) => {
                self.pin = pending.pin;
                self.go(PairStage::Submit);
            },
            (PairStage::Submit, PairReply::Submitted(Err(error))) => self.fail(error),
            (PairStage::Submit, PairReply::Submitted(Ok(()))) => self.go(PairStage::Confirm),
            (PairStage::Confirm, PairReply::PairingState(Err(error))) => self.fail(error),
            (PairStage::Confirm, PairReply::PairingState(Ok(state))) => {
                if state == PairingState::Paired {
                    self.go(PairStage::Finished);
                } else {
                    self.fail(
                        PortError::plain(
                            "MOONLIGHT_PAIRING_FAILED",
                            "Moonlight did not report the host as paired",
                            true,
                        ),
                    );
                }
            },
            _ => {},
        }
    }
}

/// Pairing ends well only right after Moonlight reported that it is paired.
pub proof fn law_pairing_succeeds_only_when_reported(state: PairView, reply: PairReply)
    requires
        state.stage != PairStage::Finished,
        state.failure is None,
        state.next(reply).stage == PairStage::Finished,
        state.next(reply).failure is None,
    ensures
        reply == PairReply::PairingState(Ok(PairingState::Paired)),
{
}

/// A finished pairing stays as it ended.
pub proof fn law_finished_pairing_is_final(state: PairView, reply: PairReply)
    requires
        state.stage == PairStage::Finished,
    ensures
        state.next(reply) == state,
{
}

/// The PIN is given to the remote computer only for the challenge that it issued.
pub proof fn law_pin_goes_with_its_challenge(
    state: PairView,
    challenge: SunshinePairChallengeResponse,
    pending: PendingPairing,
    action: PairAction,
)
    requires
        state.stage == PairStage::Challenge,
        state.next(PairReply::Challenge(Ok(challenge))).next(PairReply::Pending(Ok(pending))).asks(action),
    ensures
        action matches PairAction::SubmitPin(request) && request.pairing_id is Some
            && request.pairing_id->0@ == challenge.pairing_id@ && request.pin@ == pending.pin@,
{
}

/// What was asked, how it went, and what is asked then.
pub open spec fn pair_step(state: PairView, action: PairAction, reply: PairReply, following: PairAction) -> bool {
    &&& state.failure is Some ==> state.stage == PairStage::Finished
    &&& state.asks(action)
    &&& state.next(reply).asks(following)
}

/// The end with this error code.
pub open spec fn ends_with(action: PairAction, code: Seq<char>, retryable: bool) -> bool {
    action matches PairAction::Finish(Err(error)) && error.code@ == code && error.retryable == retryable
}

/// A pairing begins by asking Moonlight about the computer, and goes on to its Sunshine exactly when
/// they are not paired yet.
pub proof fn law_a_pairing_begins_by_asking_moonlight(
    address: IpAddr,
    client_name: String,
    pairing: PairStream,
    action: PairAction,
    state: PairingState,
    following: PairAction,
)
    requires
        call_ensures(PairStream::new, (address, client_name), pairing),
        call_ensures(PairStream::action, (&pairing,), action),
        pairing@.next(PairReply::PairingState(Ok(state))).asks(following),
    ensures
        action matches PairAction::AskPairingState(host) && host.address == address
            && host.application@ == "Desktop"@,
        state == PairingState::Paired ==> following matches PairAction::Finish(Ok(_)),
        state != PairingState::Paired ==> following is AskStatus,
{
}

/// Sunshine must run and take PINs, or the pairing ends with what it lacks; only one that does not
/// run is worth trying again.
pub proof fn law_sunshine_must_run_and_take_pins(
    state: PairView,
    action: PairAction,
    status: SunshineStatusResponse,
    following: PairAction,
)
    requires
        pair_step(state, action, PairReply::Status(Ok(status)), following),
        action is AskStatus,
    ensures
        following is AskChallenge <==> status.running && status.pairing_api_available,
        !status.running ==> ends_with(following, "SUNSHINE_NOT_RUNNING"@, true),
        status.running && !status.pairing_api_available ==> ends_with(
            following,
            "SUNSHINE_API_UNAVAILABLE"@,
            false,
        ),
{
    if !(status.running && status.pairing_api_available) {
        lemma_ends_with(state.next(PairReply::Status(Ok(status))), following);
    }
}

proof fn lemma_ends_with(state: PairView, action: PairAction)
    requires
        state.asks(action),
        state.stage == PairStage::Finished,
        state.failure is Some,
    ensures
        ends_with(action, state.failure->0.code, state.failure->0.retryable),
{
    let error = action->Finish_0->Err_0;
    assert(error@.code == error.code@);
    assert(error@.retryable == error.retryable);
}

/// The order of a pairing: a challenge before Moonlight begins, a PIN before it is submitted, and
/// Moonlight's own word at the end.
pub proof fn law_a_pairing_goes_step_by_step(
    state: PairView,
    action: PairAction,
    reply: PairReply,
    following: PairAction,
)
    requires
        pair_step(state, action, reply, following),
    ensures
        (action is AskChallenge && reply matches PairReply::Challenge(Ok(_))) ==> (following
            matches PairAction::BeginPairing(host) && host.address == state.address
            && host.application@ == "Desktop"@),
        (action is BeginPairing && reply matches PairReply::Pending(Ok(_))) ==> following is SubmitPin,
        (action is SubmitPin && reply matches PairReply::Submitted(Ok(_))) ==> (following
            matches PairAction::AskPairingState(host) && host.address == state.address),
        following is SubmitPin ==> action is BeginPairing || action is SubmitPin,
        following is BeginPairing ==> action is AskChallenge || action is BeginPairing,
        following matches PairAction::SubmitPin(request) ==> request.client_name@ == state.client_name,
{
}

/// Whatever fails ends the pairing with its own error.
pub proof fn law_a_failure_ends_the_pairing(
    state: PairView,
    action: PairAction,
    reply: PairReply,
    following: PairAction,
    error: PortError,
)
    requires
        pair_step(state, action, reply, following),
        ({
            ||| action is AskPairingState && reply == PairReply::PairingState(Err(error))
            ||| action is AskStatus && reply == PairReply::Status(Err(error))
            ||| action is AskChallenge && reply == PairReply::Challenge(Err(error))
            ||| action is BeginPairing && reply == PairReply::Pending(Err(error))
            ||| action is SubmitPin && reply == PairReply::Submitted(Err(error))
        }),
    ensures
        following matches PairAction::Finish(Err(told)) && told@ == error@,
{
}

/// After the PIN was submitted, the pairing has succeeded exactly when Moonlight says so.
pub proof fn law_moonlight_has_the_last_word(
    state: PairView,
    action: PairAction,
    said: PairingState,
    following: PairAction,
)
    requires
        state.failure is None,
        state.asks(action),
        action is SubmitPin,
        state.next(PairReply::Submitted(Ok(()))).next(PairReply::PairingState(Ok(said))).asks(following),
    ensures
        said == PairingState::Paired ==> following matches PairAction::Finish(Ok(_)),
        said != PairingState::Paired ==> ends_with(following, "MOONLIGHT_PAIRING_FAILED"@, true),
{
    if said != PairingState::Paired {
        lemma_ends_with(
            state.next(PairReply::Submitted(Ok(()))).next(PairReply::PairingState(Ok(said))),
            following,
        );
    }
}

/// A reply is taken in by what was asked: one to another question changes nothing.
pub proof fn law_only_the_answer_that_was_asked_for_counts(
    pairing: &mut PairStream,
    action: PairAction,
    reply: PairReply,
)
    requires
        old(pairing)@.asks(action),
        call_ensures(PairStream::reply, (pairing, reply), ()),
        !(action is AskPairingState && reply is PairingState),
        !(action is AskStatus && reply is Status),
        !(action is AskChallenge && reply is Challenge),
        !(action is BeginPairing && reply is Pending),
        !(action is SubmitPin && reply is Submitted),
    ensures
        final(pairing)@ == old(pairing)@,
{
}

/// A pairing that cannot go on says why: Sunshine does not run, or takes no PIN, or Moonlight did
/// not report the pairing.
pub proof fn law_a_pairing_says_why_it_ends(
    stopped: &mut PairStream,
    status: SunshineStatusResponse,
    unpaired: &mut PairStream,
)
    requires
        old(stopped)@.stage == PairStage::Status,
        old(unpaired)@.stage == PairStage::Confirm,
        call_ensures(
            PairStream::reply,
            (unpaired, PairReply::PairingState(Ok(PairingState::Required))),
            (),
        ),
        call_ensures(PairStream::reply, (stopped, PairReply::Status(Ok(status))), ()),
        !(status.running && status.pairing_api_available),
    ensures
        !status.running ==> (final(stopped)@.failure matches Some(error) && error.message
            == "Sunshine is not running on the remote node"@),
        status.running ==> (final(stopped)@.failure matches Some(error) && error.message
            == "Sunshine admin credentials are missing on the remote host. Configure them on that machine (Settings -> Configure Sunshine credentials, or `omdesky setup`), not on this controller."@),
        final(unpaired)@.failure matches Some(error) && error.message
            == "Moonlight did not report the host as paired"@,
{
}

} // verus!
