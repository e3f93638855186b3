//! Connecting to another computer: from the question whether its Sunshine is ready to the
//! restoration of the local shortcuts after the stream.
//!
//! `ConnectNode` holds how far a connection has come. `action` says what is to be done next, and
//! `reply` takes in how that went.
use vstd::prelude::*;
use vstd::string::*;

use crate::domain::{
    InputMode, RemoteCommand, SessionClaim, SessionEndpoint, SessionGrant, SessionRole, StreamProfile,
    WindowSelector, WorkspaceTarget,
};
use crate::ports::{
    port_error, AgentEndpoint, Notification, PairingState, PortError, PortErrorView, PortResult,
    SessionKeybindConfig, StreamHostDescriptor, StreamLaunchRequest,
};
use crate::protocol::{CommandResponse, SunshineStatusResponse};
use crate::services::{failures, health_failure, verify_agents};

verus! {

/// What a person asked for.
#[derive(Debug, PartialEq, Eq)]
pub struct ConnectRequest {
    pub endpoint: AgentEndpoint,
    pub controller_endpoint: AgentEndpoint,
    pub profile: StreamProfile,
    pub fullscreen: bool,
    pub input_mode: InputMode,
    pub focus_workspace: Option<WorkspaceTarget>,
    pub focus_window: Option<String>,
    pub auto_pair: bool,
}

#[derive(Clone, Copy, Debug, PartialEq, Eq, Structural)]
pub enum ConnectStage {
    /// The remote agent is asked about its Sunshine.
    Status,
    /// Moonlight is asked whether it is paired.
    PairingState,
    /// The computers are paired.
    Pairing,
    FocusWorkspace,
    FocusWindow,
    /// Both agents are asked for a sign of life.
    Agents,
    Launch,
    /// The window of the stream is looked for.
    Window,
    /// The local key bindings are installed.
    Install,
    /// The remote agent is asked for a session.
    Attach,
    /// The local key bindings are taken back, since there is no session.
    Undo,
    NotifyReady,
    NotifyUnavailable,
    /// The start of the stream is recorded.
    Started,
    /// The stream runs.
    Supervise,
    /// The local key bindings are taken back after the stream.
    Clear,
    /// The remote agent is told that the session is over.
    Detach,
    NotifyRestored,
    NotifyNotRestored,
    Finished,
}

/// A connection in progress.
#[derive(Debug)]
pub struct ConnectNode {
    request: ConnectRequest,
    stage: ConnectStage,
    application: String,
    pid: Option<u32>,
    window: Option<WindowSelector>,
    grant: Option<SessionGrant>,
    cleared: bool,
    detached: bool,
    result: Option<PortResult<i32>>,
}

pub struct ConnectView {
    pub request: ConnectRequest,
    pub stage: ConnectStage,
    /// The application that is streamed.
    pub application: Seq<char>,
    /// The process of Moonlight.
    pub pid: Option<u32>,
    /// The window of the stream.
    pub window: Option<WindowSelector>,
    /// The session, where the remote agent granted one.
    pub grant: Option<SessionGrant>,
    /// Whether the local key bindings were taken back after the stream.
    pub cleared: bool,
    /// Whether the remote agent was told that the session is over.
    pub detached: bool,
    /// How the connection ended: the exit status of Moonlight, or the failure.
    pub result: Option<Result<i32, PortErrorView>>,
}

pub open spec fn ended(result: PortResult<i32>) -> Result<i32, PortErrorView> {
    match result {
        Ok(status) => Ok(status),
        Err(error) => Err(error@),
    }
}

impl View for ConnectNode {
    type V = ConnectView;

    closed spec fn view(&self) -> ConnectView {
        ConnectView {
            request: self.request,
            stage: self.stage,
            application: self.application@,
            pid: self.pid,
            window: self.window,
            grant: self.grant,
            cleared: self.cleared,
            detached: self.detached,
            result: match self.result {
                Some(result) => Some(ended(result)),
                None => None,
            },
        }
    }
}

/// What is to be done next.
#[derive(Debug, PartialEq, Eq)]
pub enum ConnectAction {
    AskStatus,
    AskPairingState(StreamHostDescriptor),
    Pair,
    FocusWorkspace(WorkspaceTarget),
    FocusWindow(String),
    AskAgents,
    Launch(StreamLaunchRequest),
    LocateWindow(Option<u32>),
    InstallKeybinds(SessionKeybindConfig),
    Attach(RemoteCommand),
    ClearKeybinds,
    Notify(Notification),
    RecordStart(Option<u32>),
    Supervise,
    Detach(SessionClaim),
    Finish(PortResult<i32>),
}

/// How it went. `Done` answers every action that gives nothing back.
pub enum ConnectReply {
    Status(PortResult<SunshineStatusResponse>),
    PairingState(PortResult<PairingState>),
    Done(PortResult<()>),
    Agents { local: bool, remote: bool },
    Launched(PortResult<Option<u32>>),
    Window(WindowSelector),
    Command(PortResult<CommandResponse>),
    Exited(PortResult<i32>),
}

impl ConnectView {
    pub open spec fn start(request: ConnectRequest) -> ConnectView {
        ConnectView {
            request,
            stage: ConnectStage::Status,
            application: Seq::empty(),
            pid: None,
            window: None,
            grant: None,
            cleared: false,
            detached: false,
            result: None,
        }
    }

    pub open spec fn at(self, stage: ConnectStage) -> ConnectView {
        ConnectView { stage, ..self }
    }

    pub open spec fn failed(self, error: PortErrorView) -> ConnectView {
        ConnectView { stage: ConnectStage::Finished, result: Some(Err(error)), ..self }
    }

    /// Once the computers are paired: what is focused first, if anything is.
    pub open spec fn paired(self) -> ConnectView {
        if self.request.focus_workspace is Some {
            self.at(ConnectStage::FocusWorkspace)
        } else {
            self.workspace_focused()
        }
    }

    pub open spec fn workspace_focused(self) -> ConnectView {
        if self.request.focus_window is Some {
            self.at(ConnectStage::FocusWindow)
        } else {
            self.at(ConnectStage::Agents)
        }
    }

    pub open spec fn after_status(self, status: SunshineStatusResponse) -> ConnectView {
        if !status.ready {
            self.failed(
                port_error(
                    "SUNSHINE_NOT_READY"@,
                    "Sunshine is not ready to stream on the remote node"@,
                    true,
                ),
            )
        } else {
            ConnectView {
                stage: ConnectStage::PairingState,
                application: match status.desktop_app {
                    Some(name) => name@,
                    None => "Desktop"@,
                },
                ..self
            }
        }
    }

    pub open spec fn after_pairing_state(self, state: PairingState) -> ConnectView {
        if state == PairingState::Paired {
            self.paired()
        } else if self.request.auto_pair {
            self.at(ConnectStage::Pairing)
        } else {
            self.failed(
                port_error(
                    "MOONLIGHT_PAIRING_REQUIRED"@,
                    "Moonlight is not paired with the host; run `omdesky pair` first"@,
                    false,
                ),
            )
        }
    }

    pub open spec fn after_done(self, result: PortResult<()>) -> ConnectView {
        match self.stage {
            ConnectStage::Pairing => match result {
                Ok(()) => self.paired(),
                Err(error) => self.failed(error@),
            },
            ConnectStage::FocusWorkspace => match result {
                Ok(()) => self.workspace_focused(),
                Err(error) => self.failed(error@),
            },
            ConnectStage::FocusWindow => match result {
                Ok(()) => self.at(ConnectStage::Agents),
                Err(error) => self.failed(error@),
            },
            ConnectStage::Install => if result is Ok {
                self.at(ConnectStage::Attach)
            } else {
                self.at(ConnectStage::NotifyUnavailable)
            },
            ConnectStage::Undo => self.at(ConnectStage::NotifyUnavailable),
            ConnectStage::NotifyReady => self.at(ConnectStage::Started),
            ConnectStage::NotifyUnavailable => self.at(ConnectStage::Started),
            ConnectStage::Started => self.at(ConnectStage::Supervise),
            ConnectStage::Clear => ConnectView {
                stage: ConnectStage::Detach,
                cleared: result is Ok,
                ..self
            },
            ConnectStage::NotifyRestored => self.at(ConnectStage::Finished),
            ConnectStage::NotifyNotRestored => self.at(ConnectStage::Finished),
            _ => self,
        }
    }

    pub open spec fn after_command(self, result: PortResult<CommandResponse>) -> ConnectView {
        match self.stage {
            ConnectStage::Attach => match result {
                Ok(response) => match response.session {
                    Some(grant) => ConnectView {
                        stage: ConnectStage::NotifyReady,
                        grant: Some(grant),
                        ..self
                    },
                    None => self.at(ConnectStage::NotifyUnavailable),
                },
                Err(_) => self.at(ConnectStage::Undo),
            },
            ConnectStage::Detach => ConnectView {
                stage: if self.cleared && result is Ok {
                    ConnectStage::NotifyRestored
                } else {
                    ConnectStage::NotifyNotRestored
                },
                detached: true,
                ..self
            },
            _ => self,
        }
    }

    /// The state after a reply. A reply to another question changes nothing.
    pub open spec fn next(self, reply: ConnectReply) -> ConnectView {
        match reply {
            ConnectReply::Status(result) => if self.stage == ConnectStage::Status {
                match result {
                    Ok(status) => self.after_status(status),
                    Err(error) => self.failed(error@),
                }
            } else {
                self
            },
            ConnectReply::PairingState(result) => if self.stage == ConnectStage::PairingState {
                match result {
                    Ok(state) => self.after_pairing_state(state),
                    Err(error) => self.failed(error@),
                }
            } else {
                self
            },
            ConnectReply::Done(result) => self.after_done(result),
            ConnectReply::Agents { local, remote } => if self.stage == ConnectStage::Agents {
                match health_failure(failures(local), failures(remote), 1) {
                    Some(error) => self.failed(error),
                    None => self.at(ConnectStage::Launch),
                }
            } else {
                self
            },
            ConnectReply::Launched(result) => if self.stage == ConnectStage::Launch {
                match result {
                    Ok(pid) => ConnectView {
                        stage: if self.request.input_mode == InputMode::Remote {
                            ConnectStage::Window
                        } else {
                            ConnectStage::Started
                        },
                        pid,
                        ..self
                    },
                    Err(error) => self.failed(error@),
                }
            } else {
                self
            },
            ConnectReply::Window(window) => if self.stage == ConnectStage::Window {
                ConnectView { stage: ConnectStage::Install, window: Some(window), ..self }
            } else {
                self
            },
            ConnectReply::Command(result) => self.after_command(result),
            ConnectReply::Exited(result) => if self.stage == ConnectStage::Supervise {
                ConnectView {
                    stage: if self.grant is Some {
                        ConnectStage::Clear
                    } else {
                        ConnectStage::Finished
                    },
                    result: Some(ended(result)),
                    ..self
                }
            } else {
                self
            },
        }
    }

    pub open spec fn notice(self) -> Seq<char> {
        match self.stage {
            ConnectStage::NotifyReady =>
                "Remote shortcuts are ready. Press SUPER+R to switch shortcut capture."@,
            ConnectStage::NotifyUnavailable =>
                "The stream started, but remote shortcuts are unavailable."@,
            ConnectStage::NotifyRestored =>
                "The stream ended and your local shortcuts were restored."@,
            _ =>
                "The stream ended, but local shortcuts could not be restored. Restart Hyprland before reconnecting."@,
        }
    }

    pub open spec fn is_host(self, host: StreamHostDescriptor) -> bool {
        host.address == self.request.endpoint.address && host.application@ == self.application
    }

    /// Whether `action` is what is to be done in this state.
    pub open spec fn asks(self, action: ConnectAction) -> bool {
        match self.stage {
            ConnectStage::Status => action is AskStatus,
            ConnectStage::PairingState => action matches ConnectAction::AskPairingState(host)
                && self.is_host(host),
            ConnectStage::Pairing => action is Pair,
            ConnectStage::FocusWorkspace => self.request.focus_workspace matches Some(target) ==> action
                == ConnectAction::FocusWorkspace(target),
            ConnectStage::FocusWindow => self.request.focus_window matches Some(window) ==> action
                == ConnectAction::FocusWindow(window),
            ConnectStage::Agents => action is AskAgents,
            ConnectStage::Launch => action matches ConnectAction::Launch(launch) && self.is_host(
                launch.host,
            ) && launch.profile == self.request.profile && launch.fullscreen
                == self.request.fullscreen && launch.input_mode == self.request.input_mode,
            ConnectStage::Window => action == ConnectAction::LocateWindow(self.pid),
            ConnectStage::Install => self.window matches Some(window) ==> action
                == ConnectAction::InstallKeybinds(
                SessionKeybindConfig { role: SessionRole::Controller, controller: None, window },
            ),
            ConnectStage::Attach => action == ConnectAction::Attach(
                RemoteCommand::AttachSession {
                    role: SessionRole::Remote,
                    controller: Some(
                        SessionEndpoint {
                            address: self.request.controller_endpoint.address,
                            port: self.request.controller_endpoint.port,
                        },
                    ),
                    window: self.window,
                },
            ),
            ConnectStage::Undo => action is ClearKeybinds,
            ConnectStage::Clear => action is ClearKeybinds,
            ConnectStage::NotifyReady | ConnectStage::NotifyUnavailable | ConnectStage::NotifyRestored
            | ConnectStage::NotifyNotRestored => action matches ConnectAction::Notify(n)
                && n.summary@ == "Omdesky"@ && n.body@ == self.notice(),
            ConnectStage::Started => action == ConnectAction::RecordStart(self.pid),
            ConnectStage::Supervise => action is Supervise,
            ConnectStage::Detach => self.grant matches Some(grant) ==> action == ConnectAction::Detach(
                grant.spec_claim(),
            ),
            ConnectStage::Finished => self.result matches Some(result) ==> (action
                matches ConnectAction::Finish(r) && ended(r) == result),
        }
    }

    /// What holds of every connection from its start on.
    pub open spec fn inv(self) -> bool {
        &&& self.stage == ConnectStage::FocusWorkspace ==> self.request.focus_workspace is Some
        &&& self.stage == ConnectStage::FocusWindow ==> self.request.focus_window is Some
        &&& (self.stage == ConnectStage::Install || self.stage == ConnectStage::Attach)
            ==> self.window is Some
        &&& self.stage == ConnectStage::Detach ==> self.grant is Some
        &&& self.stage == ConnectStage::Clear ==> self.grant is Some
        &&& self.grant is Some ==> (self.stage == ConnectStage::NotifyReady || self.stage
            == ConnectStage::Started || self.stage == ConnectStage::Supervise || self.stage
            == ConnectStage::Clear || self.stage == ConnectStage::Detach || self.detached)
        &&& self.stage == ConnectStage::Finished ==> self.result is Some
        &&& (self.stage == ConnectStage::Clear || self.stage == ConnectStage::Detach || self.stage
            == ConnectStage::NotifyRestored || self.stage == ConnectStage::NotifyNotRestored)
            ==> self.result is Some
        &&& self.detached ==> self.stage == ConnectStage::NotifyRestored || self.stage
            == ConnectStage::NotifyNotRestored || self.stage == ConnectStage::Finished
    }
}

impl ConnectNode {
    pub fn new(request: ConnectRequest) -> (r: Self)
        ensures
            r@ == ConnectView::start(request),
            r@.inv(),
    {
        ConnectNode {
            request,
            stage: ConnectStage::Status,
            application: String::new(),
            pid: None,
            window: None,
            grant: None,
            cleared: false,
            detached: false,
            result: None,
        }
    }

    /// The session, where the remote agent granted one: while it lasts it is renewed.
    pub fn grant(&self) -> (r: Option<SessionGrant>)
        ensures
            r == self@.grant,
    {
        self.grant
    }

    fn host(&self) -> (r: StreamHostDescriptor)
        ensures
            self@.is_host(r),
    {
        StreamHostDescriptor {
            address: self.request.endpoint.address,
            application: self.application.clone(),
        }
    }

    fn notification(&self) -> (r: Notification)
        ensures
            r.summary@ == "Omdesky"@,
            r.body@ == self@.notice(),
    {
        let body = match self.stage {
            ConnectStage::NotifyReady =>
                "Remote shortcuts are ready. Press SUPER+R to switch shortcut capture.",
            ConnectStage::NotifyUnavailable =>
                "The stream started, but remote shortcuts are unavailable.",
            ConnectStage::NotifyRestored => "The stream ended and your local shortcuts were restored.",
            _ =>
                "The stream ended, but local shortcuts could not be restored. Restart Hyprland before reconnecting.",
        };
        Notification { summary: "Omdesky".to_owned(), body: body.to_owned() }
    }

    fn window_copy(&self) -> (r: Option<WindowSelector>)
        ensures
            r == self@.window,
    {
        match &self.window {
            Some(window) => Some(window.clone()),
            None => None,
        }
    }

    pub fn action(&self) -> (r: ConnectAction)
        requires
            self@.inv(),
        ensures
            self@.asks(r),
    {
        match self.stage {
            ConnectStage::Status => ConnectAction::AskStatus,
            ConnectStage::PairingState => ConnectAction::AskPairingState(self.host()),
            ConnectStage::Pairing => ConnectAction::Pair,
            ConnectStage::FocusWorkspace => {
                match &self.request.focus_workspace {
                    Some(target) => ConnectAction::FocusWorkspace(target.clone()),
                    None => ConnectAction::AskAgents,
                }
            },
            ConnectStage::FocusWindow => {
                match &self.request.focus_window {
                    Some(window) => ConnectAction::FocusWindow(window.clone()),
                    None => ConnectAction::AskAgents,
                }
            },
            ConnectStage::Agents => ConnectAction::AskAgents,
            ConnectStage::Launch => ConnectAction::Launch(
                StreamLaunchRequest {
                    host: self.host(),
                    profile: self.request.profile,
                    fullscreen: self.request.fullscreen,
                    input_mode: self.request.input_mode,
                },
            ),
            ConnectStage::Window => ConnectAction::LocateWindow(self.pid),
            ConnectStage::Install => {
                match self.window_copy() {
                    Some(window) => ConnectAction::InstallKeybinds(
                        SessionKeybindConfig {
                            role: SessionRole::Controller,
                            controller: None,
                            window,
                        },
                    ),
                    None => ConnectAction::LocateWindow(self.pid),
                }
            },
            ConnectStage::Attach => ConnectAction::Attach(
                RemoteCommand::AttachSession {
                    role: SessionRole::Remote,
                    controller: Some(
                        SessionEndpoint {
                            address: self.request.controller_endpoint.address,
                            port: self.request.controller_endpoint.port,
                        },
                    ),
                    window: self.window_copy(),
                },
            ),
            ConnectStage::Undo => ConnectAction::ClearKeybinds,
            ConnectStage::Clear => ConnectAction::ClearKeybinds,
            ConnectStage::NotifyReady => ConnectAction::Notify(self.notification()),
            ConnectStage::NotifyUnavailable => ConnectAction::Notify(self.notification()),
            ConnectStage::NotifyRestored => ConnectAction::Notify(self.notification()),
            ConnectStage::NotifyNotRestored => ConnectAction::Notify(self.notification()),
            ConnectStage::Started => ConnectAction::RecordStart(self.pid),
            ConnectStage::Supervise => ConnectAction::Supervise,
            ConnectStage::Detach => {
                match self.grant {
                    Some(grant) => ConnectAction::Detach(grant.claim()),
                    None => ConnectAction::Supervise,
                }
            },
            ConnectStage::Finished => {
                match &self.result {
                    Some(Ok(status)) => ConnectAction::Finish(Ok(*status)),
                    Some(Err(error)) => ConnectAction::Finish(Err(error.clone())),
                    None => ConnectAction::Supervise,
                }
            },
        }
    }

    fn go(&mut self, stage: ConnectStage)
        ensures
            final(self)@ == old(self)@.at(stage),
    {
        self.stage = stage;
    }

    fn fail(&mut self, error: PortError)
        ensures
            final(self)@ == old(self)@.failed(error@),
    {
        self.stage = ConnectStage::Finished;
        self.result = Some(Err(error));
    }

    fn paired(&mut self)
        ensures
            final(self)@ == old(self)@.paired(),
    {
        if self.request.focus_workspace.is_some() {
            self.go(ConnectStage::FocusWorkspace);
        } else {
            self.workspace_focused();
        }
    }

    fn workspace_focused(&mut self)
        ensures
            final(self)@ == old(self)@.workspace_focused(),
    {
        if self.request.focus_window.is_some() {
            self.go(ConnectStage::FocusWindow);
        } else {
            self.go(ConnectStage::Agents);
        }
    }

    fn after_status(&mut self, status: SunshineStatusResponse)
        ensures
            final(self)@ == old(self)@.after_status(status),
    {
        if !status.ready {
            self.fail(
                PortError::plain(
                    "SUNSHINE_NOT_READY",
                    "Sunshine is not ready to stream on the remote node",
                    true,
                ),
            );
            return ;
        }
        self.application =
        match status.desktop_app {
            Some(name) => name,
            None => "Desktop".to_owned(),
        };
        self.stage = ConnectStage::PairingState;
    }

    fn after_pairing_state(&mut self, state: PairingState)
        ensures
            final(self)@ == old(self)@.after_pairing_state(state),
    {
        if state == PairingState::Paired {
            self.paired();
        } else if self.request.auto_pair {
            self.go(ConnectStage::Pairing);
        } else {
            self.fail(
                PortError::plain(
                    "MOONLIGHT_PAIRING_REQUIRED",
                    "Moonlight is not paired with the host; run `omdesky pair` first",
                    false,
                ),
            );
        }
    }

    fn after_done(&mut self, result: PortResult<()>)
        ensures
            final(self)@ == old(self)@.after_done(result),
    {
        match self.stage {
            ConnectStage::Pairing => match result {
                Ok(()) => self.paired(),
                Err(error) => self.fail(error),
            },
            ConnectStage::FocusWorkspace => match result {
                Ok(()) => self.workspace_focused(),
                Err(error) => self.fail(error),
            },
            ConnectStage::FocusWindow => match result {
                Ok(()) => self.go(ConnectStage::Agents),
                Err(error) => self.fail(error),
            },
            ConnectStage::Install => {
                if result.is_ok() {
                    self.go(ConnectStage::Attach);
                } else {
                    self.go(ConnectStage::NotifyUnavailable);
                }
            },
            ConnectStage::Undo => self.go(ConnectStage::NotifyUnavailable),
            ConnectStage::NotifyReady => self.go(ConnectStage::Started),
            ConnectStage::NotifyUnavailable => self.go(ConnectStage::Started),
            ConnectStage::Started => self.go(ConnectStage::Supervise),
            ConnectStage::Clear => {
                self.cleared = result.is_ok();
                self.stage = ConnectStage::Detach;
            },
            ConnectStage::NotifyRestored => self.go(ConnectStage::Finished),
            ConnectStage::NotifyNotRestored => self.go(ConnectStage::Finished),
            _ => {},
        }
    }

    fn after_command(&mut self, result: PortResult<CommandResponse>)
        ensures
            final(self)@ == old(self)@.after_command(result),
    {
        match self.stage {
            ConnectStage::Attach => match result {
                Ok(response) => match response.session {
                    Some(grant) => {
                        self.grant = Some(grant);
                        self.stage = ConnectStage::NotifyReady;
                    },
                    None => self.go(ConnectStage::NotifyUnavailable),
                },
                Err(_) => self.go(ConnectStage::Undo),
            },
            ConnectStage::Detach => {
                self.stage =
                if self.cleared && result.is_ok() {
                    ConnectStage::NotifyRestored
                } else {
                    ConnectStage::NotifyNotRestored
                };
                self.detached = true;
            },
            _ => {},
        }
    }

    pub fn reply(&mut self, reply: ConnectReply)
        requires
            old(self)@.inv(),
        ensures
            final(self)@ == old(self)@.next(reply),
            final(self)@.inv(),
    {
        match reply {
            ConnectReply::Status(result) => {
                if self.stage == ConnectStage::Status {
                    match result {
                        Ok(status) => self.after_status(status),
                        Err(error) => self.fail(error),
                    }
                }
            },
            ConnectReply::PairingState(result) => {
                if self.stage == ConnectStage::PairingState {
                    match result {
                        Ok(state) => self.after_pairing_state(state),
                        Err(error) => self.fail(error),
                    }
                }
            },
            ConnectReply::Done(result) => self.after_done(result),
            ConnectReply::Agents { local, remote } => {
                if self.stage == ConnectStage::Agents {
                    match verify_agents(local, remote) {
                        Ok(()) => self.go(ConnectStage::Launch),
                        Err(error) => self.fail(error),
                    }
                }
            },
            ConnectReply::Launched(result) => {
                if self.stage == ConnectStage::Launch {
                    match result {
                        Ok(pid) => {
                            self.stage =
                            if self.request.input_mode == InputMode::Remote {
                                ConnectStage::Window
                            } else {
                                ConnectStage::Started
                            };
                            self.pid = pid;
                        },
                        Err(error) => self.fail(error),
                    }
                }
            },
            ConnectReply::Window(window) => {
                if self.stage == ConnectStage::Window {
                    self.window = Some(window);
                    self.stage = ConnectStage::Install;
                }
            },
            ConnectReply::Command(result) => self.after_command(result),
            ConnectReply::Exited(result) => {
                if self.stage == ConnectStage::Supervise {
                    self.stage =
                    if self.grant.is_some() {
                        ConnectStage::Clear
                    } else {
                        ConnectStage::Finished
                    };
                    self.result = Some(result);
                }
            },
        }
    }
}

/// Every connection keeps its invariant, whatever is replied.
pub proof fn law_connection_keeps_its_invariant(state: ConnectView, reply: ConnectReply)
    requires
        state.inv(),
    ensures
        state.next(reply).inv(),
{
}

/// A stream is launched only after both agents answered.
pub proof fn law_launch_needs_both_agents(state: ConnectView, reply: ConnectReply)
    requires
        state.stage != ConnectStage::Launch,
        state.next(reply).stage == ConnectStage::Launch,
    ensures
        reply == (ConnectReply::Agents { local: true, remote: true }),
{
}

/// A connection over a Sunshine that is not ready is refused before anything else is done.
pub proof fn law_unready_sunshine_is_refused(request: ConnectRequest, status: SunshineStatusResponse)
    requires
        !status.ready,
    ensures
        ({
            let end = ConnectView::start(request).next(ConnectReply::Status(Ok(status)));
            end.stage == ConnectStage::Finished && (end.result matches Some(Err(error)) && error.code
                == "SUNSHINE_NOT_READY"@)
        }),
{
}

/// A session that was granted never outlives the connection: when the connection has finished,
/// the remote agent was told that the session is over.
pub proof fn law_granted_session_is_detached(state: ConnectView)
    requires
        state.inv(),
        state.stage == ConnectStage::Finished,
        state.grant is Some,
    ensures
        state.detached,
{
}

/// The end of the stream decides the result: restoring the shortcuts does not change it.
pub proof fn law_exit_status_survives_the_cleanup(
    state: ConnectView,
    exit: PortResult<i32>,
    cleared: PortResult<()>,
    detached: PortResult<CommandResponse>,
    notified: PortResult<()>,
)
    requires
        state.stage == ConnectStage::Supervise,
        state.grant is Some,
    ensures
        ({
            let end = state.next(ConnectReply::Exited(exit)).next(ConnectReply::Done(cleared)).next(
                ConnectReply::Command(detached),
            ).next(ConnectReply::Done(notified));
            end.stage == ConnectStage::Finished && end.result == Some(ended(exit))
        }),
{
}

/// Where the remote agent refuses the session, the local key bindings are taken back.
pub proof fn law_refused_session_takes_the_bindings_back(state: ConnectView, error: PortError)
    requires
        state.stage == ConnectStage::Attach,
    ensures
        state.next(ConnectReply::Command(Err(error))).stage == ConnectStage::Undo,
{
}

/// A finished connection stays as it ended.
pub proof fn law_finished_connection_is_final(state: ConnectView, reply: ConnectReply)
    requires
        state.stage == ConnectStage::Finished,
    ensures
        state.next(reply) == state,
{
}

/// How far a connection has come after a number of replies.
pub open spec fn after_replies(request: ConnectRequest, replies: Seq<ConnectReply>) -> ConnectView
    decreases replies.len(),
{
    if replies.len() == 0 {
        ConnectView::start(request)
    } else {
        after_replies(request, replies.drop_last()).next(replies.last())
    }
}

/// Whether this is what a connection asks for after these replies.
pub open spec fn asked(request: ConnectRequest, replies: Seq<ConnectReply>, action: ConnectAction) -> bool {
    after_replies(request, replies).asks(action)
}

proof fn lemma_replies_keep_the_request(request: ConnectRequest, replies: Seq<ConnectReply>)
    ensures
        after_replies(request, replies).inv(),
        after_replies(request, replies).request == request,
    decreases replies.len(),
{
    if replies.len() > 0 {
        lemma_replies_keep_the_request(request, replies.drop_last());
    }
}

/// A step of a connection: what was asked for, the reply, and what is asked for then.
pub open spec fn step(
    state: ConnectView,
    action: ConnectAction,
    reply: ConnectReply,
    following: ConnectAction,
) -> bool {
    state.inv() && state.asks(action) && state.next(reply).asks(following)
}

/// Whether a connection goes on with what its request wants focused: the workspace, else the
/// window, else nothing, so that the agents are asked.
pub open spec fn goes_on_to_focus(request: ConnectRequest, following: ConnectAction) -> bool {
    match request.focus_workspace {
        Some(target) => following == ConnectAction::FocusWorkspace(target),
        None => goes_on_to_window(request, following),
    }
}

pub open spec fn goes_on_to_window(request: ConnectRequest, following: ConnectAction) -> bool {
    match request.focus_window {
        Some(window) => following == ConnectAction::FocusWindow(window),
        None => following == ConnectAction::AskAgents,
    }
}

/// Whether a connection ends with that failure.
pub open spec fn ends_with_error(following: ConnectAction, error: PortErrorView) -> bool {
    following matches ConnectAction::Finish(Err(e)) && e@ == error
}

/// A connection begins with the question about Sunshine. A remote computer that is ready is then
/// looked at for pairing, under the application that it names, else `Desktop`.
pub proof fn law_a_connection_begins_with_sunshine(
    request: ConnectRequest,
    first: ConnectAction,
    result: PortResult<SunshineStatusResponse>,
    following: ConnectAction,
)
    requires
        asked(request, seq![], first),
        asked(request, seq![ConnectReply::Status(result)], following),
    ensures
        first == ConnectAction::AskStatus,
        match result {
            Err(error) => ends_with_error(following, error@),
            Ok(status) => if status.ready {
                following matches ConnectAction::AskPairingState(host) && host.address
                    == request.endpoint.address && host.application@ == (match status.desktop_app {
                    Some(name) => name@,
                    None => "Desktop"@,
                })
            } else {
                following matches ConnectAction::Finish(Err(error)) && error@.code
                    == "SUNSHINE_NOT_READY"@ && error@.retryable
            },
        },
{
    let replies = seq![ConnectReply::Status(result)];
    assert(replies.drop_last() =~= seq![]);
    assert(replies.last() == ConnectReply::Status(result));
    reveal_with_fuel(after_replies, 3);
}

/// Computers that are paired go on to what is to be focused. Others are paired first where that was
/// asked for, and else the connection ends.
pub proof fn law_unpaired_computers_are_paired_first(
    state: ConnectView,
    host: StreamHostDescriptor,
    result: PortResult<PairingState>,
    following: ConnectAction,
)
    requires
        step(
            state,
            ConnectAction::AskPairingState(host),
            ConnectReply::PairingState(result),
            following,
        ),
    ensures
        match result {
            Err(error) => ends_with_error(following, error@),
            Ok(PairingState::Paired) => goes_on_to_focus(state.request, following),
            Ok(_) => if state.request.auto_pair {
                following == ConnectAction::Pair
            } else {
                following matches ConnectAction::Finish(Err(error)) && error@.code
                    == "MOONLIGHT_PAIRING_REQUIRED"@ && !error@.retryable
            },
        },
{
}

/// A pairing that failed ends the connection; one that succeeded goes on like computers that were
/// paired before.
pub proof fn law_a_failed_pairing_ends_the_connection(
    state: ConnectView,
    result: PortResult<()>,
    following: ConnectAction,
)
    requires
        step(state, ConnectAction::Pair, ConnectReply::Done(result), following),
    ensures
        match result {
            Err(error) => ends_with_error(following, error@),
            Ok(()) => goes_on_to_focus(state.request, following),
        },
{
}

/// What was asked for is focused in turn, the workspace before the window, and a failure of either
/// ends the connection.
pub proof fn law_the_workspace_is_focused_before_the_window(
    state: ConnectView,
    action: ConnectAction,
    result: PortResult<()>,
    following: ConnectAction,
)
    requires
        step(state, action, ConnectReply::Done(result), following),
        action is FocusWorkspace || action is FocusWindow,
    ensures
        action matches ConnectAction::FocusWorkspace(target) ==> state.request.focus_workspace == Some(
            target,
        ),
        action matches ConnectAction::FocusWindow(window) ==> state.request.focus_window == Some(
            window,
        ),
        result matches Err(error) ==> ends_with_error(following, error@),
        result is Ok && action is FocusWorkspace ==> goes_on_to_window(state.request, following),
        result is Ok && action is FocusWindow ==> following == ConnectAction::AskAgents,
{
}

/// Moonlight is launched once both agents answered, with exactly what was asked for; an agent that
/// does not answer ends the connection, and the local one is named first.
pub proof fn law_a_launch_is_what_was_asked_for(
    state: ConnectView,
    local: bool,
    remote: bool,
    following: ConnectAction,
)
    requires
        step(
            state,
            ConnectAction::AskAgents,
            ConnectReply::Agents { local, remote },
            following,
        ),
    ensures
        local && remote ==> (following matches ConnectAction::Launch(launch) && launch.profile
            == state.request.profile && launch.fullscreen == state.request.fullscreen
            && launch.input_mode == state.request.input_mode && launch.host.address
            == state.request.endpoint.address && launch.host.application@ == state.application),
        !local ==> (following matches ConnectAction::Finish(Err(error)) && error@.code
            == "LOCAL_AGENT_UNAVAILABLE"@ && error@.retryable),
        local && !remote ==> (following matches ConnectAction::Finish(Err(error)) && error@.code
            == "REMOTE_AGENT_UNAVAILABLE"@ && error@.retryable),
{
}

/// Once Moonlight runs, a stream with remote input looks for its window by the process; any other
/// has started. A launch that failed ends the connection.
pub proof fn law_remote_input_needs_the_window(
    state: ConnectView,
    launch: StreamLaunchRequest,
    result: PortResult<Option<u32>>,
    following: ConnectAction,
)
    requires
        step(state, ConnectAction::Launch(launch), ConnectReply::Launched(result), following),
    ensures
        match result {
            Err(error) => ends_with_error(following, error@),
            Ok(pid) => if state.request.input_mode == InputMode::Remote {
                following == ConnectAction::LocateWindow(pid)
            } else {
                following == ConnectAction::RecordStart(pid)
            },
        },
{
}

/// The local key bindings are those of a controller for the window that was found.
pub proof fn law_bindings_are_for_the_window_that_was_found(
    state: ConnectView,
    pid: Option<u32>,
    window: WindowSelector,
    following: ConnectAction,
)
    requires
        step(state, ConnectAction::LocateWindow(pid), ConnectReply::Window(window), following),
    ensures
        following == ConnectAction::InstallKeybinds(
            SessionKeybindConfig { role: SessionRole::Controller, controller: None, window },
        ),
{
}

/// With the bindings in place the remote computer is asked for a session that answers to this
/// computer, for the same window; without them a person is told that there are no shortcuts.
pub proof fn law_a_session_answers_to_this_computer(
    state: ConnectView,
    config: SessionKeybindConfig,
    result: PortResult<()>,
    following: ConnectAction,
)
    requires
        step(state, ConnectAction::InstallKeybinds(config), ConnectReply::Done(result), following),
    ensures
        result is Ok ==> following == ConnectAction::Attach(
            RemoteCommand::AttachSession {
                role: SessionRole::Remote,
                controller: Some(
                    SessionEndpoint {
                        address: state.request.controller_endpoint.address,
                        port: state.request.controller_endpoint.port,
                    },
                ),
                window: Some(config.window),
            },
        ),
        result is Err ==> tells(
            following,
            "The stream started, but remote shortcuts are unavailable."@,
        ),
{
}

/// Whether a person is told that.
pub open spec fn tells(action: ConnectAction, body: Seq<char>) -> bool {
    action matches ConnectAction::Notify(notice) && notice.summary@ == "Omdesky"@ && notice.body@
        == body
}

/// A session that is granted makes the shortcuts ready and is the one that the connection holds;
/// where there is none they are unavailable, and where it is refused the bindings are taken back
/// first.
pub proof fn law_shortcuts_are_ready_only_with_a_session(
    state: ConnectView,
    command: RemoteCommand,
    result: PortResult<CommandResponse>,
    following: ConnectAction,
)
    requires
        step(state, ConnectAction::Attach(command), ConnectReply::Command(result), following),
    ensures
        match result {
            Ok(response) => match response.session {
                Some(grant) => tells(
                    following,
                    "Remote shortcuts are ready. Press SUPER+R to switch shortcut capture."@,
                ) && state.next(ConnectReply::Command(result)).grant == Some(grant),
                None => tells(
                    following,
                    "The stream started, but remote shortcuts are unavailable."@,
                ) && state.next(ConnectReply::Command(result)).grant is None,
            },
            Err(_) => following == ConnectAction::ClearKeybinds && state.next(
                ConnectReply::Command(result),
            ).grant is None,
        },
{
}

/// Taking the bindings back before the stream runs leads to word that there are no shortcuts;
/// after the stream it leads to the end of the session, with the claim on it.
pub proof fn law_bindings_are_taken_back_before_the_session_ends(
    state: ConnectView,
    result: PortResult<()>,
    following: ConnectAction,
)
    requires
        step(state, ConnectAction::ClearKeybinds, ConnectReply::Done(result), following),
    ensures
        match state.grant {
            Some(grant) => following == ConnectAction::Detach(
                SessionClaim { id: grant.id, generation: grant.generation },
            ),
            None => tells(following, "The stream started, but remote shortcuts are unavailable."@),
        },
{
}

/// A stream is recorded with its process and then watched.
pub proof fn law_a_started_stream_is_watched(
    state: ConnectView,
    pid: Option<u32>,
    result: PortResult<()>,
    following: ConnectAction,
)
    requires
        step(state, ConnectAction::RecordStart(pid), ConnectReply::Done(result), following),
    ensures
        pid == state.pid,
        following == ConnectAction::Supervise,
{
}

/// The end of a stream without a session is the end of the connection, with the same result; with a
/// session the bindings are taken back first.
pub proof fn law_a_session_is_cleaned_up_after_the_stream(
    state: ConnectView,
    result: PortResult<i32>,
    following: ConnectAction,
)
    requires
        step(state, ConnectAction::Supervise, ConnectReply::Exited(result), following),
    ensures
        state.grant is Some ==> following == ConnectAction::ClearKeybinds,
        state.grant is None ==> (following matches ConnectAction::Finish(end) && ended(end) == ended(
            result,
        )),
        state.next(ConnectReply::Exited(result)).result == Some(ended(result)),
{
}

/// A person is told that the shortcuts are restored only where the bindings were taken back and the
/// remote computer was told; and then the connection ends with the result of the stream.
pub proof fn law_restored_shortcuts_need_both_sides(
    state: ConnectView,
    cleared: PortResult<()>,
    claim: SessionClaim,
    detached: PortResult<CommandResponse>,
    told: ConnectAction,
    notified: PortResult<()>,
    last: ConnectAction,
)
    requires
        state.inv(),
        state.grant is Some,
        state.asks(ConnectAction::ClearKeybinds),
        step(
            state.next(ConnectReply::Done(cleared)),
            ConnectAction::Detach(claim),
            ConnectReply::Command(detached),
            told,
        ),
        state.next(ConnectReply::Done(cleared)).next(ConnectReply::Command(detached)).next(
            ConnectReply::Done(notified),
        ).asks(last),
    ensures
        cleared is Ok && detached is Ok ==> tells(
            told,
            "The stream ended and your local shortcuts were restored."@,
        ),
        cleared is Err || detached is Err ==> tells(
            told,
            "The stream ended, but local shortcuts could not be restored. Restart Hyprland before reconnecting."@,
        ),
        last matches ConnectAction::Finish(end) && Some(ended(end)) == state.result,
{
}

/// Whether Moonlight was found to be paired, or a pairing that was asked for succeeded.
pub open spec fn paired_within(request: ConnectRequest, replies: Seq<ConnectReply>) -> bool {
    exists|j: int|
        0 <= j < replies.len() && {
            ||| #[trigger] replies[j] matches ConnectReply::PairingState(Ok(PairingState::Paired))
            ||| replies[j] matches ConnectReply::Done(Ok(_)) && asked(
                request,
                replies.take(j),
                ConnectAction::Pair,
            )
        }
}

/// Nothing is focused and nothing launched on a computer that this one is not paired with: whatever
/// was replied, before any of that Moonlight reported the pairing or a pairing succeeded.
pub proof fn law_nothing_is_launched_unpaired(
    request: ConnectRequest,
    replies: Seq<ConnectReply>,
    action: ConnectAction,
)
    requires
        asked(request, replies, action),
        action is FocusWorkspace || action is FocusWindow || action is AskAgents || action is Launch
            || action is LocateWindow || action is InstallKeybinds || action is Attach || action
            is RecordStart || action is Supervise || action is Detach,
    ensures
        paired_within(request, replies),
{
    lemma_replies_keep_the_request(request, replies);
    lemma_paired_before(request, replies);
}

/// Whether a connection is beyond the question of pairing.
spec fn beyond_pairing(state: ConnectView) -> bool {
    state.stage != ConnectStage::Status && state.stage != ConnectStage::PairingState && state.stage
        != ConnectStage::Pairing && state.stage != ConnectStage::Finished
}

proof fn lemma_paired_before(request: ConnectRequest, replies: Seq<ConnectReply>)
    ensures
        beyond_pairing(after_replies(request, replies)) ==> paired_within(request, replies),
    decreases replies.len(),
{
    if replies.len() > 0 && beyond_pairing(after_replies(request, replies)) {
        let shorter = replies.drop_last();
        let n = replies.len() - 1;
        let before = after_replies(request, shorter);
        lemma_paired_before(request, shorter);
        assert(replies.take(n) =~= shorter);
        if beyond_pairing(before) {
            let j = choose|j: int|
                0 <= j < shorter.len() && {
                    ||| #[trigger] shorter[j] matches ConnectReply::PairingState(Ok(PairingState::Paired))
                    ||| shorter[j] matches ConnectReply::Done(Ok(_)) && asked(
                        request,
                        shorter.take(j),
                        ConnectAction::Pair,
                    )
                };
            assert(shorter.take(j) =~= replies.take(j));
            assert(replies[j] == shorter[j]);
        } else {
            assert(replies[n] == replies.last());
            if before.stage == ConnectStage::Pairing {
                assert(before.asks(ConnectAction::Pair));
                assert(asked(request, replies.take(n), ConnectAction::Pair));
            }
        }
    }
}

/// The application that is launched is the one that the remote computer named when it said that it
/// was ready, whatever came between.
pub proof fn law_the_application_is_the_one_that_was_named(
    request: ConnectRequest,
    replies: Seq<ConnectReply>,
    launch: StreamLaunchRequest,
)
    requires
        asked(request, replies, ConnectAction::Launch(launch)),
    ensures
        exists|j: int|
            0 <= j < replies.len() && (#[trigger] replies[j] matches ConnectReply::Status(Ok(status))
                && status.ready && launch.host.application@ == (match status.desktop_app {
                Some(name) => name@,
                None => "Desktop"@,
            })),
{
    lemma_replies_keep_the_request(request, replies);
    lemma_application(request, replies);
}

proof fn lemma_application(request: ConnectRequest, replies: Seq<ConnectReply>)
    ensures
        after_replies(request, replies).stage == ConnectStage::Status || after_replies(
            request,
            replies,
        ).stage == ConnectStage::Finished || exists|j: int|
            0 <= j < replies.len() && (#[trigger] replies[j] matches ConnectReply::Status(Ok(status))
                && status.ready && after_replies(request, replies).application == (
            match status.desktop_app {
                Some(name) => name@,
                None => "Desktop"@,
            })),
    decreases replies.len(),
{
    if replies.len() > 0 {
        let shorter = replies.drop_last();
        let before = after_replies(request, shorter);
        let after = after_replies(request, replies);
        lemma_application(request, shorter);
        if after.stage != ConnectStage::Status && after.stage != ConnectStage::Finished {
            if before.stage == ConnectStage::Status {
                assert(replies[replies.len() - 1] == replies.last());
            } else if before.stage != ConnectStage::Finished {
                let j = choose|j: int|
                    0 <= j < shorter.len() && (#[trigger] shorter[j] matches ConnectReply::Status(
                        Ok(status),
                    ) && status.ready && before.application == (match status.desktop_app {
                        Some(name) => name@,
                        None => "Desktop"@,
                    }));
                assert(replies[j] == shorter[j]);
                assert(after.application == before.application);
            }
        }
    }
}

/// A reply to another question than the one that was asked changes nothing.
pub proof fn law_only_the_reply_to_the_question_counts(
    state: ConnectView,
    action: ConnectAction,
    reply: ConnectReply,
)
    requires
        state.inv(),
        state.asks(action),
        match reply {
            ConnectReply::Status(_) => !(action is AskStatus),
            ConnectReply::PairingState(_) => !(action is AskPairingState),
            ConnectReply::Done(_) => action is AskStatus || action is AskPairingState || action
                is AskAgents || action is Launch || action is LocateWindow || action is Attach || action
                is Supervise || action is Detach || action is Finish,
            ConnectReply::Agents { .. } => !(action is AskAgents),
            ConnectReply::Launched(_) => !(action is Launch),
            ConnectReply::Window(_) => !(action is LocateWindow),
            ConnectReply::Command(_) => !(action is Attach || action is Detach),
            ConnectReply::Exited(_) => !(action is Supervise),
        },
    ensures
        state.next(reply) == state,
{
}

/// Word about the shortcuts, whether it arrives or not, is followed by the record of the start.
pub proof fn law_word_about_the_shortcuts_does_not_stop_the_stream(
    state: ConnectView,
    notice: Notification,
    result: PortResult<()>,
    following: ConnectAction,
)
    requires
        step(state, ConnectAction::Notify(notice), ConnectReply::Done(result), following),
        state.result is None,
    ensures
        following == ConnectAction::RecordStart(state.pid),
{
}

/// What a connection has learned it keeps: the request, the process, the window and the session
/// stay, whatever is replied to the later questions.
pub proof fn law_what_was_learned_is_kept(state: ConnectView, reply: ConnectReply)
    requires
        state.inv(),
    ensures
        state.next(reply).request == state.request,
        state.stage != ConnectStage::Status ==> state.next(reply).application == state.application,
        !(reply is Launched) ==> state.next(reply).pid == state.pid,
        !(reply is Window) ==> state.next(reply).window == state.window,
        !(reply is Command) ==> state.next(reply).grant == state.grant,
        state.grant is Some ==> state.next(reply).grant == state.grant,
        state.asks(ConnectAction::Supervise) && (reply matches ConnectReply::Exited(_)) ==> state.next(
            reply,
        ).grant == state.grant,
{
}

/// The process that is recorded is the one that was launched.
pub proof fn law_the_recorded_process_is_the_launched_one(
    state: ConnectView,
    launch: StreamLaunchRequest,
    pid: Option<u32>,
)
    requires
        state.inv(),
        state.asks(ConnectAction::Launch(launch)),
    ensures
        state.next(ConnectReply::Launched(Ok(pid))).pid == pid,
{
}

/// A connection that cannot go on says why: Sunshine is not ready, or the computers are not paired
/// and are not to be.
pub proof fn law_a_connection_says_why_it_ends(
    connection: &mut ConnectNode,
    status: SunshineStatusResponse,
    later: &mut ConnectNode,
)
    requires
        old(connection)@.stage == ConnectStage::Status,
        call_ensures(ConnectNode::reply, (connection, ConnectReply::Status(Ok(status))), ()),
        !status.ready,
        old(later)@.stage == ConnectStage::PairingState,
        !old(later)@.request.auto_pair,
        call_ensures(
            ConnectNode::reply,
            (later, ConnectReply::PairingState(Ok(PairingState::Required))),
            (),
        ),
    ensures
        final(connection)@.result matches Some(Err(error)) && error.code == "SUNSHINE_NOT_READY"@
            && error.message == "Sunshine is not ready to stream on the remote node"@ && error.retryable,
        final(later)@.result matches Some(Err(error)) && error.code == "MOONLIGHT_PAIRING_REQUIRED"@
            && error.message == "Moonlight is not paired with the host; run `omdesky pair` first"@
            && !error.retryable,
{
}

} // verus!
