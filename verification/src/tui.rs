//! The terminal interface as a state: what a key press, a click and a finished task change, and what
//! is to be done for a key press.
use vstd::prelude::*;
use vstd::string::*;

use crate::connect::ConnectRequest;
use crate::domain::{choose_address, preferred_address, InputMode, IpAddr, StreamProfile};
use crate::ports::{AgentEndpoint, AllowedController};
use crate::services::{DeviceStatus, DeviceView, DiscoveredNode};
use crate::settings::{change_stream_setting, changed, StreamSetting};
use crate::strings::{chars_of, control, is_control, opt_text, push_signed, signed, text_between};
use crate::theme::ThemeWatcher;

verus! {

#[derive(Clone, Copy, Debug, PartialEq, Eq, Structural)]
pub enum Activity {
    Idle,
    Connecting,
}

/// A line of the allowlist.
#[derive(Debug, PartialEq, Eq)]
pub struct AccessRow {
    pub tailnet_node_id: String,
    pub label: String,
}

pub struct AccessRowView {
    pub tailnet_node_id: Seq<char>,
    pub label: Seq<char>,
}

impl View for AccessRow {
    type V = AccessRowView;

    open spec fn view(&self) -> AccessRowView {
        AccessRowView { tailnet_node_id: self.tailnet_node_id@, label: self.label@ }
    }
}

pub open spec fn row_views(rows: Seq<AccessRow>) -> Seq<AccessRowView> {
    rows.map_values(|r: AccessRow| r@)
}

/// What stands over the list of devices.
#[derive(Debug, PartialEq, Eq)]
pub enum Overlay {
    Menu { selected: StreamSetting },
    CredentialsUser { user: String },
    CredentialsPass { user: String, pass: String },
    Access,
}

#[allow(inconsistent_fields)]
pub enum OverlayView {
    Menu { selected: StreamSetting },
    CredentialsUser { user: Seq<char> },
    CredentialsPass { user: Seq<char>, pass: Seq<char> },
    Access,
}

impl View for Overlay {
    type V = OverlayView;

    open spec fn view(&self) -> OverlayView {
        match self {
            Overlay::Menu { selected } => OverlayView::Menu { selected: *selected },
            Overlay::CredentialsUser { user } => OverlayView::CredentialsUser { user: user@ },
            Overlay::CredentialsPass { user, pass } => OverlayView::CredentialsPass {
                user: user@,
                pass: pass@,
            },
            Overlay::Access => OverlayView::Access,
        }
    }
}

pub open spec fn opt_overlay(o: Option<Overlay>) -> Option<OverlayView> {
    match o {
        Some(o) => Some(o@),
        None => None,
    }
}

#[derive(Clone, Copy, Debug, PartialEq, Eq, Structural)]
pub enum MessageKind {
    Notice,
    Error,
}

/// A part of the screen.
#[derive(Clone, Copy, Debug, PartialEq, Eq, Structural)]
pub struct Rect {
    pub x: u16,
    pub y: u16,
    pub width: u16,
    pub height: u16,
}

impl Rect {
    /// The edges can be counted.
    pub open spec fn fits(self) -> bool {
        self.x + self.width <= u16::MAX && self.y + self.height <= u16::MAX
    }

    pub open spec fn holds(self, column: u16, row: u16) -> bool {
        self.x <= column < self.x + self.width && self.y <= row < self.y + self.height
    }
}

pub fn point_in_rect(column: u16, row: u16, rect: Rect) -> (r: bool)
    requires
        rect.fits(),
    ensures
        r == rect.holds(column, row),
{
    column >= rect.x && column < rect.x + rect.width && row >= rect.y && row < rect.y + rect.height
}

pub open spec fn smaller(a: u16, b: u16) -> u16 {
    if a < b {
        a
    } else {
        b
    }
}

/// A window of that size in the middle of an area, or as large as the area allows.
pub open spec fn centered(area: Rect, width: u16, height: u16) -> Rect {
    Rect {
        x: (area.x + (area.width - smaller(width, area.width)) / 2) as u16,
        y: (area.y + (area.height - smaller(height, area.height)) / 2) as u16,
        width: smaller(width, area.width),
        height: smaller(height, area.height),
    }
}

pub fn popup_area(area: Rect, width: u16, height: u16) -> (r: Rect)
    requires
        area.fits(),
    ensures
        r == centered(area, width, height),
        r.fits(),
{
    let width: u16 = if width < area.width {
        width
    } else {
        area.width
    };
    let height: u16 = if height < area.height {
        height
    } else {
        area.height
    };
    Rect {
        x: area.x + (area.width - width) / 2,
        y: area.y + (area.height - height) / 2,
        width,
        height,
    }
}

/// A popup lies within the area that it is centered in.
pub proof fn law_popups_stay_inside(area: Rect, width: u16, height: u16, column: u16, row: u16)
    requires
        area.fits(),
        centered(area, width, height).holds(column, row),
    ensures
        area.holds(column, row),
{
}

/// What a task in the background reports.
#[derive(Debug)]
pub enum AsyncMessage {
    Discovery(Result<Vec<DiscoveredNode>, String>),
    Activity(Result<String, String>),
    Access(Result<Vec<AccessRow>, String>),
}

/// After a stream the terminal has to be drawn anew.
pub fn requires_terminal_reset(message: &AsyncMessage) -> (r: bool)
    ensures
        r == (message is Activity),
{
    matches!(message, AsyncMessage::Activity(_))
}

/// What the interface shows and remembers.
pub struct AppState {
    pub nodes: Vec<DiscoveredNode>,
    /// The place of the device that is selected.
    pub selection: Option<usize>,
    pub theme: ThemeWatcher,
    pub loading: bool,
    pub activity: Activity,
    pub notice: Option<String>,
    pub error: Option<String>,
    pub overlay: Option<Overlay>,
    pub sunshine_configured: bool,
    pub access_entries: Vec<AccessRow>,
    pub stream_profile: StreamProfile,
    pub detail_expanded: bool,
    pub detail_overflow: bool,
    pub detail_rect: Option<Rect>,
}

pub struct AppView {
    pub nodes: Seq<DeviceView>,
    pub selection: Option<usize>,
    pub theme: ThemeWatcher,
    pub loading: bool,
    pub activity: Activity,
    pub notice: Option<Seq<char>>,
    pub error: Option<Seq<char>>,
    pub overlay: Option<OverlayView>,
    pub sunshine_configured: bool,
    pub access_entries: Seq<AccessRowView>,
    pub stream_profile: StreamProfile,
    pub detail_expanded: bool,
    pub detail_overflow: bool,
    pub detail_rect: Option<Rect>,
}

pub open spec fn device_views(nodes: Seq<DiscoveredNode>) -> Seq<DeviceView> {
    nodes.map_values(|n: DiscoveredNode| n@)
}

impl View for AppState {
    type V = AppView;

    open spec fn view(&self) -> AppView {
        AppView {
            nodes: device_views(self.nodes@),
            selection: self.selection,
            theme: self.theme,
            loading: self.loading,
            activity: self.activity,
            notice: opt_text(self.notice),
            error: opt_text(self.error),
            overlay: opt_overlay(self.overlay),
            sunshine_configured: self.sunshine_configured,
            access_entries: row_views(self.access_entries@),
            stream_profile: self.stream_profile,
            detail_expanded: self.detail_expanded,
            detail_overflow: self.detail_overflow,
            detail_rect: self.detail_rect,
        }
    }
}

impl AppView {
    /// A device is selected only where there is one.
    pub open spec fn wf(self) -> bool {
        &&& self.selection matches Some(i) ==> i < self.nodes.len()
        &&& self.theme.wf()
        &&& self.detail_rect matches Some(rect) ==> rect.fits()
    }

    pub open spec fn selected(self) -> Option<DeviceView> {
        match self.selection {
            Some(i) => if i < self.nodes.len() {
                Some(self.nodes[i as int])
            } else {
                None
            },
            None => None,
        }
    }

    /// The selected device, where it can be connected to.
    pub open spec fn selected_remote(self) -> Option<DeviceView> {
        match self.selected() {
            Some(node) => if !node.is_local && node.status == DeviceStatus::Ready {
                Some(node)
            } else {
                None
            },
            None => None,
        }
    }

    pub open spec fn unavailable_reason(self) -> Option<Seq<char>> {
        match self.selected() {
            Some(node) => if node.is_local {
                Some("This device cannot connect to itself"@)
            } else if node.status != DeviceStatus::Ready {
                Some("This device is not ready"@)
            } else {
                None
            },
            None => None,
        }
    }

    /// An error comes before a notice.
    pub open spec fn message(self) -> Option<(MessageKind, Seq<char>)> {
        match self.error {
            Some(error) => Some((MessageKind::Error, error)),
            None => match self.notice {
                Some(notice) => Some((MessageKind::Notice, notice)),
                None => None,
            },
        }
    }

    pub open spec fn first_selection(nodes: Seq<DeviceView>) -> Option<usize> {
        if nodes.len() == 0 {
            None
        } else {
            Some(0)
        }
    }

    /// One device on, from the last to the first.
    pub open spec fn moved_on(self) -> AppView {
        if self.nodes.len() == 0 {
            self
        } else {
            AppView {
                selection: Some(
                    match self.selection {
                        Some(i) => ((i + 1) % self.nodes.len() as int) as usize,
                        None => 0,
                    },
                ),
                detail_expanded: false,
                ..self
            }
        }
    }

    /// One device back, from the first to the last.
    pub open spec fn moved_back(self) -> AppView {
        if self.nodes.len() == 0 {
            self
        } else {
            AppView {
                selection: Some(
                    match self.selection {
                        Some(i) => ((i + self.nodes.len() - 1) % self.nodes.len() as int) as usize,
                        None => 0,
                    },
                ),
                detail_expanded: false,
                ..self
            }
        }
    }

    pub open spec fn refreshed(self, result: Result<Seq<DeviceView>, Seq<char>>) -> AppView {
        match result {
            Ok(nodes) => AppView {
                loading: false,
                detail_expanded: false,
                nodes,
                error: None,
                selection: Self::first_selection(nodes),
                ..self
            },
            Err(error) => AppView {
                loading: false,
                detail_expanded: false,
                nodes: Seq::empty(),
                error: Some(error),
                selection: None,
                ..self
            },
        }
    }

    /// A task ended well or not: its text is the one message that stands.
    pub open spec fn told(self, result: Result<Seq<char>, Seq<char>>) -> AppView {
        match result {
            Ok(notice) => AppView { notice: Some(notice), error: None, ..self },
            Err(error) => AppView { error: Some(error), notice: None, ..self },
        }
    }

    pub open spec fn after(self, message: MessageView) -> AppView {
        match message {
            MessageView::Discovery(result) => self.refreshed(result),
            MessageView::Activity(result) => AppView {
                activity: Activity::Idle,
                detail_expanded: false,
                ..self
            }.told(result),
            MessageView::Access(Ok(entries)) => AppView { access_entries: entries, ..self },
            MessageView::Access(Err(error)) => AppView {
                detail_expanded: false,
                error: Some(error),
                ..self
            },
        }
    }

    pub open spec fn with_overlay(self, overlay: OverlayView) -> AppView {
        AppView { overlay: Some(overlay), ..self }
    }
}

pub enum MessageView {
    Discovery(Result<Seq<DeviceView>, Seq<char>>),
    Activity(Result<Seq<char>, Seq<char>>),
    Access(Result<Seq<AccessRowView>, Seq<char>>),
}

pub open spec fn text_result(r: Result<String, String>) -> Result<Seq<char>, Seq<char>> {
    match r {
        Ok(text) => Ok(text@),
        Err(text) => Err(text@),
    }
}

pub open spec fn discovery_result(r: Result<Vec<DiscoveredNode>, String>) -> Result<
    Seq<DeviceView>,
    Seq<char>,
> {
    match r {
        Ok(nodes) => Ok(device_views(nodes@)),
        Err(text) => Err(text@),
    }
}

impl View for AsyncMessage {
    type V = MessageView;

    open spec fn view(&self) -> MessageView {
        match self {
            AsyncMessage::Discovery(r) => MessageView::Discovery(discovery_result(*r)),
            AsyncMessage::Activity(r) => MessageView::Activity(text_result(*r)),
            AsyncMessage::Access(Ok(rows)) => MessageView::Access(Ok(row_views(rows@))),
            AsyncMessage::Access(Err(text)) => MessageView::Access(Err(text@)),
        }
    }
}

/// The keys that the interface knows.
#[derive(Clone, Copy, Debug, PartialEq, Eq, Structural)]
pub enum Key {
    Char(char),
    Enter,
    Esc,
    Backspace,
    Up,
    Down,
    Left,
    Right,
    Other,
}

/// What is to be done for a key press.
#[derive(Debug, PartialEq, Eq)]
pub enum Action {
    Nothing,
    Quit,
    /// Look for devices again.
    Refresh,
    /// Read the settings, then `open_settings`.
    OpenSettings,
    Connect(DiscoveredNode),
    /// Save the profile, then `profile_saved`.
    SaveProfile,
    ListAccess,
    /// Store the credentials of Sunshine, then `credentials_stored`.
    StoreCredentials { user: String, pass: String },
    AllowAccess { tailnet_node_id: String, label: String },
    RevokeAccess { tailnet_node_id: String },
}

#[allow(inconsistent_fields)]
pub enum ActionView {
    Nothing,
    Quit,
    Refresh,
    OpenSettings,
    Connect(DeviceView),
    SaveProfile,
    ListAccess,
    StoreCredentials { user: Seq<char>, pass: Seq<char> },
    AllowAccess { tailnet_node_id: Seq<char>, label: Seq<char> },
    RevokeAccess { tailnet_node_id: Seq<char> },
}

impl View for Action {
    type V = ActionView;

    open spec fn view(&self) -> ActionView {
        match self {
            Action::Nothing => ActionView::Nothing,
            Action::Quit => ActionView::Quit,
            Action::Refresh => ActionView::Refresh,
            Action::OpenSettings => ActionView::OpenSettings,
            Action::Connect(node) => ActionView::Connect(node@),
            Action::SaveProfile => ActionView::SaveProfile,
            Action::ListAccess => ActionView::ListAccess,
            Action::StoreCredentials { user, pass } => ActionView::StoreCredentials {
                user: user@,
                pass: pass@,
            },
            Action::AllowAccess { tailnet_node_id, label } => ActionView::AllowAccess {
                tailnet_node_id: tailnet_node_id@,
                label: label@,
            },
            Action::RevokeAccess { tailnet_node_id } => ActionView::RevokeAccess {
                tailnet_node_id: tailnet_node_id@,
            },
        }
    }
}

/// The menu as it opens.
pub open spec fn fresh_menu() -> OverlayView {
    OverlayView::Menu { selected: StreamSetting::Resolution }
}

pub open spec fn is_down(key: Key) -> bool {
    key == Key::Down || key == Key::Char('j')
}

pub open spec fn is_up(key: Key) -> bool {
    key == Key::Up || key == Key::Char('k')
}

pub open spec fn is_leave(key: Key) -> bool {
    key == Key::Esc || key == Key::Char('q')
}

/// A text without its last character.
pub open spec fn shortened(s: Seq<char>) -> Seq<char> {
    if s.len() > 0 {
        s.drop_last()
    } else {
        s
    }
}

/// What a key press in the list of devices does, while nothing stands over it and nothing runs.
pub open spec fn key_in_list(state: AppView, key: Key) -> (AppView, ActionView) {
    if is_leave(key) {
        (state, ActionView::Quit)
    } else if is_down(key) {
        (state.moved_on(), ActionView::Nothing)
    } else if is_up(key) {
        (state.moved_back(), ActionView::Nothing)
    } else if key == Key::Char('r') && !state.loading {
        (AppView { loading: true, error: None, notice: None, ..state }, ActionView::Refresh)
    } else if key == Key::Char('s') {
        (state, ActionView::OpenSettings)
    } else if key == Key::Enter {
        match state.unavailable_reason() {
            Some(reason) => (state.told(Err(reason)), ActionView::Nothing),
            None => match state.selected_remote() {
                Some(node) => (
                    AppView { activity: Activity::Connecting, ..state }.told(
                        Ok("Connecting to "@ + node.name + "…"@),
                    ),
                    ActionView::Connect(node),
                ),
                None => (state, ActionView::Nothing),
            },
        }
    } else {
        (state, ActionView::Nothing)
    }
}

pub open spec fn key_in_menu(state: AppView, selected: StreamSetting, key: Key) -> (AppView, ActionView) {
    if is_leave(key) {
        (AppView { overlay: None, ..state }, ActionView::Nothing)
    } else if is_down(key) {
        (state.with_overlay(OverlayView::Menu { selected: selected.spec_next() }), ActionView::Nothing)
    } else if is_up(key) {
        (
            state.with_overlay(OverlayView::Menu { selected: selected.spec_previous() }),
            ActionView::Nothing,
        )
    } else if key == Key::Left || key == Key::Char('h') {
        (
            AppView { stream_profile: changed(state.stream_profile, selected, -1), ..state },
            ActionView::SaveProfile,
        )
    } else if key == Key::Right || key == Key::Char('l') || key == Key::Enter {
        (
            AppView { stream_profile: changed(state.stream_profile, selected, 1), ..state },
            ActionView::SaveProfile,
        )
    } else if key == Key::Char('c') {
        (
            state.with_overlay(OverlayView::CredentialsUser { user: Seq::empty() }),
            ActionView::Nothing,
        )
    } else if key == Key::Char('a') {
        (state.with_overlay(OverlayView::Access), ActionView::ListAccess)
    } else {
        (state, ActionView::Nothing)
    }
}

pub open spec fn key_in_user(state: AppView, user: Seq<char>, key: Key) -> (AppView, ActionView) {
    match key {
        Key::Esc => (state.with_overlay(fresh_menu()), ActionView::Nothing),
        Key::Backspace => (
            state.with_overlay(OverlayView::CredentialsUser { user: shortened(user) }),
            ActionView::Nothing,
        ),
        Key::Char(c) => if control(c) {
            (state, ActionView::Nothing)
        } else {
            (
                state.with_overlay(OverlayView::CredentialsUser { user: user.push(c) }),
                ActionView::Nothing,
            )
        },
        Key::Enter => if user.len() > 0 {
            (
                state.with_overlay(OverlayView::CredentialsPass { user, pass: Seq::empty() }),
                ActionView::Nothing,
            )
        } else {
            (state, ActionView::Nothing)
        },
        _ => (state, ActionView::Nothing),
    }
}

pub open spec fn key_in_pass(state: AppView, user: Seq<char>, pass: Seq<char>, key: Key) -> (
    AppView,
    ActionView,
) {
    match key {
        Key::Esc => (state.with_overlay(fresh_menu()), ActionView::Nothing),
        Key::Backspace => (
            state.with_overlay(OverlayView::CredentialsPass { user, pass: shortened(pass) }),
            ActionView::Nothing,
        ),
        Key::Char(c) => if control(c) {
            (state, ActionView::Nothing)
        } else {
            (
                state.with_overlay(OverlayView::CredentialsPass { user, pass: pass.push(c) }),
                ActionView::Nothing,
            )
        },
        Key::Enter => if pass.len() > 0 {
            (state, ActionView::StoreCredentials { user, pass })
        } else {
            (state, ActionView::Nothing)
        },
        _ => (state, ActionView::Nothing),
    }
}

pub open spec fn key_in_access(state: AppView, key: Key) -> (AppView, ActionView) {
    if is_leave(key) {
        (state.with_overlay(fresh_menu()), ActionView::Nothing)
    } else if key == Key::Char('a') {
        match state.selected_remote() {
            Some(node) => (
                AppView {
                    notice: Some("Allowed "@ + node.name + " to control this device"@),
                    ..state
                },
                ActionView::AllowAccess {
                    tailnet_node_id: node.tailnet_node_id,
                    label: node.name,
                },
            ),
            None => (
                AppView {
                    error: Some("Select a remote device first to grant it access"@),
                    ..state
                },
                ActionView::Nothing,
            ),
        }
    } else if key == Key::Char('d') {
        match state.selected() {
            Some(node) => (
                AppView { notice: Some("Revoked access for "@ + node.name), ..state },
                ActionView::RevokeAccess { tailnet_node_id: node.tailnet_node_id },
            ),
            None => (state, ActionView::Nothing),
        }
    } else {
        (state, ActionView::Nothing)
    }
}

pub open spec fn key_in_overlay(state: AppView, key: Key) -> (AppView, ActionView) {
    match state.overlay {
        Some(OverlayView::Menu { selected }) => key_in_menu(state, selected, key),
        Some(OverlayView::CredentialsUser { user }) => key_in_user(state, user, key),
        Some(OverlayView::CredentialsPass { user, pass }) => key_in_pass(state, user, pass, key),
        Some(OverlayView::Access) => key_in_access(state, key),
        None => (state, ActionView::Nothing),
    }
}

/// What a key press does.
pub open spec fn pressed(state: AppView, key: Key) -> (AppView, ActionView) {
    if state.overlay is Some {
        key_in_overlay(state, key)
    } else if state.activity != Activity::Idle {
        (state, ActionView::Nothing)
    } else {
        key_in_list(state, key)
    }
}

/// Removes the last character.
fn shorten(text: &str) -> (r: String)
    ensures
        r@ == shortened(text@),
{
    let v = chars_of(text);
    if v.len() == 0 {
        return text.to_owned();
    }
    let r = text_between(&v, 0, v.len() - 1);
    assert(r@ =~= text@.drop_last());
    r
}

fn menu() -> (r: Option<Overlay>)
    ensures
        opt_overlay(r) == Some(fresh_menu()),
{
    Some(Overlay::Menu { selected: StreamSetting::Resolution })
}

impl AppState {
    pub fn new(theme: ThemeWatcher) -> (r: Self)
        requires
            theme.wf(),
        ensures
            r@ == (AppView {
                nodes: Seq::empty(),
                selection: None,
                theme,
                loading: false,
                activity: Activity::Idle,
                notice: None,
                error: None,
                overlay: None,
                sunshine_configured: false,
                access_entries: Seq::empty(),
                stream_profile: StreamProfile::spec_default(),
                detail_expanded: false,
                detail_overflow: false,
                detail_rect: None,
            }),
            r@.wf(),
    {
        let r = AppState {
            nodes: Vec::new(),
            selection: None,
            theme,
            loading: false,
            activity: Activity::Idle,
            notice: None,
            error: None,
            overlay: None,
            sunshine_configured: false,
            access_entries: Vec::new(),
            stream_profile: StreamProfile::default(),
            detail_expanded: false,
            detail_overflow: false,
            detail_rect: None,
        };
        assert(r@.nodes =~= Seq::<DeviceView>::empty());
        assert(r@.access_entries =~= Seq::<AccessRowView>::empty());
        r
    }

    pub fn message(&self) -> (r: Option<(MessageKind, &str)>)
        ensures
            match r {
                Some((kind, text)) => self@.message() == Some((kind, text@)),
                None => self@.message() is None,
            },
    {
        match &self.error {
            Some(error) => Some((MessageKind::Error, error.as_str())),
            None => match &self.notice {
                Some(notice) => Some((MessageKind::Notice, notice.as_str())),
                None => None,
            },
        }
    }

    pub fn selected(&self) -> (r: Option<&DiscoveredNode>)
        ensures
            match r {
                Some(node) => self@.selected() == Some(node@),
                None => self@.selected() is None,
            },
    {
        match self.selection {
            Some(i) => if i < self.nodes.len() {
                assert(self@.nodes[i as int] == self.nodes@[i as int]@);
                Some(&self.nodes[i])
            } else {
                None
            },
            None => None,
        }
    }

    pub fn selected_remote(&self) -> (r: Option<DiscoveredNode>)
        ensures
            match r {
                Some(node) => self@.selected_remote() == Some(node@),
                None => self@.selected_remote() is None,
            },
    {
        match self.selected() {
            Some(node) => if !node.is_local && node.status == DeviceStatus::Ready {
                Some(node.clone())
            } else {
                None
            },
            None => None,
        }
    }

    pub fn unavailable_reason(&self) -> (r: Option<&'static str>)
        ensures
            match r {
                Some(text) => self@.unavailable_reason() == Some(text@),
                None => self@.unavailable_reason() is None,
            },
    {
        match self.selected() {
            Some(node) => if node.is_local {
                Some("This device cannot connect to itself")
            } else if node.status != DeviceStatus::Ready {
                Some("This device is not ready")
            } else {
                None
            },
            None => None,
        }
    }

    pub fn select_first(&mut self)
        ensures
            final(self)@ == (AppView {
                selection: AppView::first_selection(old(self)@.nodes),
                ..old(self)@
            }),
    {
        if self.nodes.len() == 0 {
            self.selection = None;
        } else {
            self.selection = Some(0);
        }
    }

    pub fn select_next(&mut self)
        requires
            old(self)@.wf(),
        ensures
            final(self)@ == old(self)@.moved_on(),
            final(self)@.wf(),
    {
        let count: usize = self.nodes.len();
        if count == 0 {
            return;
        }
        let next: usize = match self.selection {
            Some(i) => if i + 1 < count {
                proof {
                    vstd::arithmetic::div_mod::lemma_small_mod((i + 1) as nat, count as nat);
                }
                i + 1
            } else {
                proof {
                    vstd::arithmetic::div_mod::lemma_mod_self_0(count as int);
                }
                0
            },
            None => 0,
        };
        self.selection = Some(next);
        self.detail_expanded = false;
    }

    pub fn select_previous(&mut self)
        requires
            old(self)@.wf(),
        ensures
            final(self)@ == old(self)@.moved_back(),
            final(self)@.wf(),
    {
        let count: usize = self.nodes.len();
        if count == 0 {
            return;
        }
        let previous: usize = match self.selection {
            Some(i) => if i > 0 {
                proof {
                    vstd::arithmetic::div_mod::lemma_small_mod((i - 1) as nat, count as nat);
                    vstd::arithmetic::div_mod::lemma_mod_add_multiples_vanish(i - 1, count as int);
                }
                i - 1
            } else {
                proof {
                    vstd::arithmetic::div_mod::lemma_small_mod((count - 1) as nat, count as nat);
                }
                count - 1
            },
            None => 0,
        };
        self.selection = Some(previous);
        self.detail_expanded = false;
    }

    /// Takes the outcome of a search for devices.
    pub fn apply_refresh(&mut self, result: Result<Vec<DiscoveredNode>, String>)
        requires
            old(self)@.wf(),
        ensures
            final(self)@ == old(self)@.refreshed(discovery_result(result)),
            final(self)@.wf(),
    {
        self.loading = false;
        self.detail_expanded = false;
        match result {
            Ok(nodes) => {
                self.nodes = nodes;
                self.error = None;
                self.select_first();
            },
            Err(error) => {
                self.nodes = Vec::new();
                self.error = Some(error);
                self.selection = None;
                assert(self@.nodes =~= Seq::<DeviceView>::empty());
            },
        }
    }

    fn tell(&mut self, result: Result<String, String>)
        ensures
            final(self)@ == old(self)@.told(text_result(result)),
    {
        match result {
            Ok(notice) => {
                self.notice = Some(notice);
                self.error = None;
            },
            Err(error) => {
                self.error = Some(error);
                self.notice = None;
            },
        }
    }

    /// Takes what a task in the background reports.
    pub fn apply_message(&mut self, message: AsyncMessage)
        requires
            old(self)@.wf(),
        ensures
            final(self)@ == old(self)@.after(message@),
            final(self)@.wf(),
    {
        match message {
            AsyncMessage::Discovery(result) => self.apply_refresh(result),
            AsyncMessage::Activity(result) => {
                self.activity = Activity::Idle;
                self.detail_expanded = false;
                self.tell(result);
            },
            AsyncMessage::Access(Ok(entries)) => {
                self.access_entries = entries;
            },
            AsyncMessage::Access(Err(error)) => {
                self.detail_expanded = false;
                self.error = Some(error);
            },
        }
    }

    /// A press of the left button: it opens and closes details that do not fit.
    pub fn click(&mut self, column: u16, row: u16)
        requires
            old(self)@.wf(),
        ensures
            final(self)@ == (if old(self)@.detail_overflow && (old(self)@.detail_rect matches Some(rect)
                && rect.holds(column, row)) {
                AppView { detail_expanded: !old(self)@.detail_expanded, ..old(self)@ }
            } else {
                old(self)@
            }),
            final(self)@.wf(),
    {
        if self.detail_overflow {
            if let Some(rect) = self.detail_rect {
                if point_in_rect(column, row, rect) {
                    self.detail_expanded = !self.detail_expanded;
                }
            }
        }
    }

    /// Starts the first search, with what is set on this computer.
    pub fn start(&mut self, sunshine_configured: bool, profile: StreamProfile)
        requires
            old(self)@.wf(),
        ensures
            final(self)@ == (AppView {
                loading: true,
                sunshine_configured,
                stream_profile: profile,
                ..old(self)@
            }),
            final(self)@.wf(),
    {
        self.loading = true;
        self.sunshine_configured = sunshine_configured;
        self.stream_profile = profile;
    }

    /// Opens the menu, with what is set on this computer.
    pub fn open_settings(&mut self, sunshine_configured: bool, profile: StreamProfile)
        requires
            old(self)@.wf(),
        ensures
            final(self)@ == (AppView {
                sunshine_configured,
                stream_profile: profile,
                overlay: Some(fresh_menu()),
                ..old(self)@
            }),
            final(self)@.wf(),
    {
        self.sunshine_configured = sunshine_configured;
        self.stream_profile = profile;
        self.overlay = menu();
    }

    /// Takes whether the profile was saved, or why not.
    pub fn profile_saved(&mut self, result: Result<(), String>)
        requires
            old(self)@.wf(),
        ensures
            final(self)@ == old(self)@.told(
                match result {
                    Ok(_) => Ok("Stream settings saved"@),
                    Err(error) => Err("Could not save stream settings: "@ + error@),
                },
            ),
            final(self)@.wf(),
    {
        match result {
            Ok(_) => self.tell(Ok("Stream settings saved".to_owned())),
            Err(error) => self.tell(
                Err("Could not save stream settings: ".to_owned().concat(error.as_str())),
            ),
        }
    }

    /// Takes whether the credentials were stored, or why not; the menu opens either way.
    pub fn credentials_stored(&mut self, result: Result<(), String>)
        requires
            old(self)@.wf(),
        ensures
            final(self)@ == (match result {
                Ok(_) => AppView { sunshine_configured: true, ..old(self)@ }.told(
                    Ok("Sunshine credentials saved"@),
                ),
                Err(error) => old(self)@.told(Err("Could not save credentials: "@ + error@)),
            }).with_overlay(fresh_menu()),
            final(self)@.wf(),
    {
        match result {
            Ok(_) => {
                self.sunshine_configured = true;
                self.tell(Ok("Sunshine credentials saved".to_owned()));
            },
            Err(error) => {
                self.tell(Err("Could not save credentials: ".to_owned().concat(error.as_str())));
            },
        }
        self.overlay = menu();
    }

    fn connect_selected(&mut self) -> (r: Action)
        requires
            old(self)@.wf(),
            old(self)@.overlay is None,
            old(self)@.activity == Activity::Idle,
        ensures
            (final(self)@, r@) == key_in_list(old(self)@, Key::Enter),
            final(self)@.wf(),
    {
        match self.unavailable_reason() {
            Some(reason) => {
                self.tell(Err(reason.to_owned()));
                Action::Nothing
            },
            None => match self.selected_remote() {
                Some(node) => {
                    self.activity = Activity::Connecting;
                    let notice = "Connecting to ".to_owned().concat(node.name.as_str()).concat("…");
                    self.tell(Ok(notice));
                    Action::Connect(node)
                },
                None => Action::Nothing,
            },
        }
    }

    /// Takes a key press; what it asks for beyond the state is returned.
    pub fn handle_key(&mut self, key: Key) -> (r: Action)
        requires
            old(self)@.wf(),
        ensures
            (final(self)@, r@) == pressed(old(self)@, key),
            final(self)@.wf(),
    {
        if self.overlay.is_some() {
            return self.handle_overlay_key(key);
        }
        if self.activity != Activity::Idle {
            return Action::Nothing;
        }
        match key {
            Key::Esc | Key::Char('q') => Action::Quit,
            Key::Down | Key::Char('j') => {
                self.select_next();
                Action::Nothing
            },
            Key::Up | Key::Char('k') => {
                self.select_previous();
                Action::Nothing
            },
            Key::Char('r') => {
                if self.loading {
                    return Action::Nothing;
                }
                self.loading = true;
                self.error = None;
                self.notice = None;
                Action::Refresh
            },
            Key::Char('s') => Action::OpenSettings,
            Key::Enter => self.connect_selected(),
            _ => Action::Nothing,
        }
    }

    fn handle_menu_key(&mut self, selected: StreamSetting, key: Key) -> (r: Action)
        requires
            old(self)@.wf(),
            old(self)@.overlay == Some(OverlayView::Menu { selected }),
        ensures
            (final(self)@, r@) == key_in_menu(old(self)@, selected, key),
            final(self)@.wf(),
    {
        match key {
            Key::Esc | Key::Char('q') => {
                self.overlay = None;
                Action::Nothing
            },
            Key::Down | Key::Char('j') => {
                self.overlay = Some(Overlay::Menu { selected: selected.next() });
                Action::Nothing
            },
            Key::Up | Key::Char('k') => {
                self.overlay = Some(Overlay::Menu { selected: selected.previous() });
                Action::Nothing
            },
            Key::Left | Key::Char('h') => {
                change_stream_setting(&mut self.stream_profile, selected, -1);
                Action::SaveProfile
            },
            Key::Right | Key::Char('l') | Key::Enter => {
                change_stream_setting(&mut self.stream_profile, selected, 1);
                Action::SaveProfile
            },
            Key::Char('c') => {
                let user = String::new();
                assert(user@ =~= Seq::<char>::empty());
                self.overlay = Some(Overlay::CredentialsUser { user });
                Action::Nothing
            },
            Key::Char('a') => {
                self.overlay = Some(Overlay::Access);
                Action::ListAccess
            },
            _ => Action::Nothing,
        }
    }

    fn handle_user_key(&mut self, user: String, key: Key) -> (r: Action)
        requires
            old(self)@.wf(),
            old(self)@.overlay == Some(OverlayView::CredentialsUser { user: user@ }),
        ensures
            (final(self)@, r@) == key_in_user(old(self)@, user@, key),
            final(self)@.wf(),
    {
        match key {
            Key::Esc => {
                self.overlay = menu();
            },
            Key::Backspace => {
                self.overlay = Some(Overlay::CredentialsUser { user: shorten(user.as_str()) });
            },
            Key::Char(c) => {
                if !is_control(c) {
                    let mut user = user;
                    user.push(c);
                    self.overlay = Some(Overlay::CredentialsUser { user });
                }
            },
            Key::Enter => {
                if !user.as_str().is_empty() {
                    let pass = String::new();
                    assert(pass@ =~= Seq::<char>::empty());
                    self.overlay = Some(Overlay::CredentialsPass { user, pass });
                }
            },
            _ => {},
        }
        Action::Nothing
    }

    fn handle_pass_key(&mut self, user: String, pass: String, key: Key) -> (r: Action)
        requires
            old(self)@.wf(),
            old(self)@.overlay == Some(OverlayView::CredentialsPass { user: user@, pass: pass@ }),
        ensures
            (final(self)@, r@) == key_in_pass(old(self)@, user@, pass@, key),
            final(self)@.wf(),
    {
        match key {
            Key::Esc => {
                self.overlay = menu();
                Action::Nothing
            },
            Key::Backspace => {
                self.overlay = Some(Overlay::CredentialsPass { user, pass: shorten(pass.as_str()) });
                Action::Nothing
            },
            Key::Char(c) => {
                if !is_control(c) {
                    let mut pass = pass;
                    pass.push(c);
                    self.overlay = Some(Overlay::CredentialsPass { user, pass });
                }
                Action::Nothing
            },
            Key::Enter => {
                if pass.as_str().is_empty() {
                    return Action::Nothing;
                }
                Action::StoreCredentials { user, pass }
            },
            _ => Action::Nothing,
        }
    }

    fn handle_access_key(&mut self, key: Key) -> (r: Action)
        requires
            old(self)@.wf(),
            old(self)@.overlay == Some(OverlayView::Access),
        ensures
            (final(self)@, r@) == key_in_access(old(self)@, key),
            final(self)@.wf(),
    {
        match key {
            Key::Esc | Key::Char('q') => {
                self.overlay = menu();
                Action::Nothing
            },
            Key::Char('a') => match self.selected_remote() {
                Some(node) => {
                    self.notice = Some(
                        "Allowed ".to_owned().concat(node.name.as_str()).concat(
                            " to control this device",
                        ),
                    );
                    Action::AllowAccess { tailnet_node_id: node.tailnet_node_id, label: node.name }
                },
                None => {
                    self.error = Some("Select a remote device first to grant it access".to_owned());
                    Action::Nothing
                },
            },
            Key::Char('d') => match self.selected() {
                Some(node) => {
                    let tailnet_node_id = node.tailnet_node_id.clone();
                    let notice = "Revoked access for ".to_owned().concat(node.name.as_str());
                    self.notice = Some(notice);
                    Action::RevokeAccess { tailnet_node_id }
                },
                None => Action::Nothing,
            },
            _ => Action::Nothing,
        }
    }

    /// Takes a key press while something stands over the list.
    pub fn handle_overlay_key(&mut self, key: Key) -> (r: Action)
        requires
            old(self)@.wf(),
        ensures
            (final(self)@, r@) == key_in_overlay(old(self)@, key),
            final(self)@.wf(),
    {
        match &self.overlay {
            Some(Overlay::Menu { selected }) => {
                let selected = *selected;
                self.handle_menu_key(selected, key)
            },
            Some(Overlay::CredentialsUser { user }) => {
                let user = user.clone();
                self.handle_user_key(user, key)
            },
            Some(Overlay::CredentialsPass { user, pass }) => {
                let user = user.clone();
                let pass = pass.clone();
                self.handle_pass_key(user, pass, key)
            },
            Some(Overlay::Access) => self.handle_access_key(key),
            None => Action::Nothing,
        }
    }
}

/// A connection is begun only to another device that is ready, and while no other runs.
pub proof fn law_connections_need_a_ready_remote(state: AppView, key: Key)
    ensures
        pressed(state, key).1 matches ActionView::Connect(node) ==> !node.is_local && node.status
            == DeviceStatus::Ready && state.activity == Activity::Idle && state.overlay is None
            && pressed(state, key).0.activity == Activity::Connecting,
{
}

/// While a connection is being made no key but those of an open window does anything.
pub proof fn law_a_running_connection_takes_no_keys(state: AppView, key: Key)
    requires
        state.activity == Activity::Connecting,
        state.overlay is None,
    ensures
        pressed(state, key) == (state, ActionView::Nothing),
{
}

/// One device on and one back lead to the same device.
pub proof fn law_navigation_goes_both_ways(state: AppView)
    requires
        state.wf(),
        state.selection is Some,
        state.nodes.len() <= usize::MAX,
    ensures
        state.moved_on().moved_back().selection == state.selection,
        state.moved_back().moved_on().selection == state.selection,
{
    let i = state.selection->0 as int;
    let n = state.nodes.len() as int;
    if i + 1 < n {
        vstd::arithmetic::div_mod::lemma_small_mod((i + 1) as nat, n as nat);
        vstd::arithmetic::div_mod::lemma_small_mod(i as nat, n as nat);
        vstd::arithmetic::div_mod::lemma_mod_add_multiples_vanish(i, n);
    } else {
        vstd::arithmetic::div_mod::lemma_mod_self_0(n);
        vstd::arithmetic::div_mod::lemma_small_mod((n - 1) as nat, n as nat);
    }
    if i > 0 {
        vstd::arithmetic::div_mod::lemma_small_mod((i - 1) as nat, n as nat);
        vstd::arithmetic::div_mod::lemma_mod_add_multiples_vanish(i - 1, n);
        vstd::arithmetic::div_mod::lemma_small_mod(i as nat, n as nat);
    } else {
        vstd::arithmetic::div_mod::lemma_small_mod((n - 1) as nat, n as nat);
        vstd::arithmetic::div_mod::lemma_mod_self_0(n);
    }
}

/// The line of the allowlist for an entry: its label, or the identity where it has none.
pub open spec fn access_row(entry: AllowedController) -> AccessRowView {
    AccessRowView {
        tailnet_node_id: entry.tailnet_node_id@,
        label: match entry.label {
            Some(label) => label@,
            None => entry.tailnet_node_id@,
        },
    }
}

pub fn access_rows(entries: &Vec<AllowedController>) -> (r: Vec<AccessRow>)
    ensures
        row_views(r@) == entries@.map_values(|e: AllowedController| access_row(e)),
{
    let mut rows: Vec<AccessRow> = Vec::new();
    let mut i: usize = 0;
    let ghost all = entries@.map_values(|e: AllowedController| access_row(e));
    assert(row_views(rows@) =~= all.take(0));
    while i < entries.len()
        invariant
            i <= entries@.len(),
            all == entries@.map_values(|e: AllowedController| access_row(e)),
            row_views(rows@) == all.take(i as int),
        decreases entries@.len() - i,
    {
        let entry = &entries[i];
        let label = match &entry.label {
            Some(label) => label.clone(),
            None => entry.tailnet_node_id.clone(),
        };
        let ghost before = rows@;
        let row = AccessRow { tailnet_node_id: entry.tailnet_node_id.clone(), label };
        rows.push(row);
        assert(row@ == all[i as int]);
        assert(row_views(rows@) =~= row_views(before).push(row@));
        assert(all.take(i + 1) =~= all.take(i as int).push(all[i as int]));
        i += 1;
    }
    assert(all.take(all.len() as int) =~= all);
    rows
}

/// Where the agent of this computer listens.
pub fn local_agent_endpoint(addresses: &Vec<IpAddr>, port: u16) -> (r: Option<AgentEndpoint>)
    ensures
        r == (match preferred_address(addresses@) {
            Some(address) => Some(AgentEndpoint { address, port }),
            None => None,
        }),
{
    match choose_address(addresses) {
        Some(address) => Some(AgentEndpoint { address, port }),
        None => None,
    }
}

/// What a connection from the list asks for: the whole screen with remote input, and pairing where
/// it is needed. Where this computer's own endpoint is not known, that of the device stands in.
pub fn connect_request(
    address: IpAddr,
    agent_port: u16,
    local: Option<AgentEndpoint>,
    profile: StreamProfile,
) -> (r: ConnectRequest)
    ensures
        r.endpoint == (AgentEndpoint { address, port: agent_port }),
        r.controller_endpoint == (match local {
            Some(local) => local,
            None => r.endpoint,
        }),
        r.profile == profile,
        r.fullscreen,
        r.input_mode == InputMode::Remote,
        r.focus_workspace is None,
        r.focus_window is None,
        r.auto_pair,
{
    let endpoint = AgentEndpoint { address, port: agent_port };
    let controller_endpoint = match local {
        Some(local) => local,
        None => endpoint,
    };
    ConnectRequest {
        endpoint,
        controller_endpoint,
        profile,
        fullscreen: true,
        input_mode: InputMode::Remote,
        focus_workspace: None,
        focus_window: None,
        auto_pair: true,
    }
}

/// What is told once a stream has ended.
pub fn disconnect_notice(name: &str, exit: i32) -> (r: String)
    ensures
        r@ == "Disconnected from "@ + name@ + " (exit "@ + signed(exit as int) + ")"@,
{
    let mut out = "Disconnected from ".to_owned().concat(name).concat(" (exit ");
    push_signed(&mut out, exit as i64);
    out.append(")");
    out
}

/// Of the keys that the list knows, `q` and Escape quit, `r` refreshes unless that runs already,
/// `s` opens the settings, and none of them leaves the selected device.
pub proof fn law_keys_of_the_list(state: &mut AppState, key: Key, r: Action)
    requires
        call_ensures(AppState::handle_key, (state, key), r),
        old(state)@.overlay is None,
        old(state)@.activity == Activity::Idle,
    ensures
        r@ == ActionView::Quit <==> key == Key::Esc || key == Key::Char('q'),
        r@ == ActionView::Refresh <==> key == Key::Char('r') && !old(state)@.loading,
        r@ == ActionView::OpenSettings <==> key == Key::Char('s'),
        r@ is Connect ==> key == Key::Enter,
        r@ == ActionView::Quit || r@ == ActionView::Refresh || r@ == ActionView::OpenSettings || r@ is Connect
            || r@ == ActionView::Nothing,
        r@ == ActionView::Refresh ==> final(state)@.loading && final(state)@.error is None && final(state)@.notice is None,
        r@ != ActionView::Refresh ==> final(state)@.loading == old(state)@.loading,
        key != Key::Down && key != Key::Up && key != Key::Char('j') && key != Key::Char('k') ==> final(state)@.selection == old(state)@.selection,
        final(state)@.nodes == old(state)@.nodes,
        final(state)@.overlay is None,
        final(state)@.stream_profile == old(state)@.stream_profile,
{
    let view = final(state)@;
    assert((view, r@) == pressed(old(state)@, key));
}

/// Down and `j` select the next device, up and `k` the one before, and round at the ends.
pub proof fn law_arrows_move_the_selection(state: &mut AppState, key: Key, i: usize, r: Action)
    requires
        call_ensures(AppState::handle_key, (state, key), r),
        old(state)@.overlay is None,
        old(state)@.activity == Activity::Idle,
        old(state)@.selection == Some(i),
        i < old(state)@.nodes.len() <= usize::MAX,
    ensures
        key == Key::Down || key == Key::Char('j') ==> final(state)@.selection == Some(
            if i + 1 < old(state)@.nodes.len() {
                (i + 1) as usize
            } else {
                0usize
            },
        ) && !final(state)@.detail_expanded && r@ == ActionView::Nothing,
        key == Key::Up || key == Key::Char('k') ==> final(state)@.selection == Some(
            if i > 0 {
                (i - 1) as usize
            } else {
                (old(state)@.nodes.len() - 1) as usize
            },
        ) && !final(state)@.detail_expanded && r@ == ActionView::Nothing,
{
    let view = final(state)@;
    assert((view, r@) == pressed(old(state)@, key));
    let n = old(state)@.nodes.len() as int;
    lemma_round(i as int, n);
}

proof fn lemma_round(i: int, n: int)
    requires
        0 <= i < n,
    ensures
        (i + 1) % n == (if i + 1 < n {
            i + 1
        } else {
            0
        }),
        (i + n - 1) % n == (if i > 0 {
            i - 1
        } else {
            n - 1
        }),
{
    if i + 1 < n {
        vstd::arithmetic::div_mod::lemma_small_mod((i + 1) as nat, n as nat);
    } else {
        vstd::arithmetic::div_mod::lemma_mod_self_0(n);
    }
    if i > 0 {
        vstd::arithmetic::div_mod::lemma_small_mod((i - 1) as nat, n as nat);
        vstd::arithmetic::div_mod::lemma_mod_add_multiples_vanish(i - 1, n);
    } else {
        vstd::arithmetic::div_mod::lemma_small_mod((n - 1) as nat, n as nat);
    }
}

/// Stepping through the devices selects the neighbour and closes the details; without a selection
/// the first device is selected.
pub proof fn law_stepping_selects_the_neighbour(on: &mut AppState, back: &mut AppState)
    requires
        call_ensures(AppState::select_next, (on,), ()),
        call_ensures(AppState::select_previous, (back,), ()),
        old(on)@.wf(),
        old(back)@.wf(),
        0 < old(on)@.nodes.len() <= usize::MAX,
        0 < old(back)@.nodes.len() <= usize::MAX,
    ensures
        old(on)@.selection is None ==> final(on)@.selection == Some(0usize),
        old(back)@.selection is None ==> final(back)@.selection == Some(0usize),
        old(on)@.selection matches Some(i) ==> final(on)@.selection == Some(
            if i + 1 < old(on)@.nodes.len() {
                (i + 1) as usize
            } else {
                0usize
            },
        ),
        old(back)@.selection matches Some(i) ==> final(back)@.selection == Some(
            if i > 0 {
                (i - 1) as usize
            } else {
                (old(back)@.nodes.len() - 1) as usize
            },
        ),
        !final(on)@.detail_expanded && !final(back)@.detail_expanded,
        final(on)@.nodes == old(on)@.nodes && final(back)@.nodes == old(back)@.nodes,
{
    if let Some(i) = old(on)@.selection {
        lemma_round(i as int, old(on)@.nodes.len() as int);
    }
    if let Some(i) = old(back)@.selection {
        lemma_round(i as int, old(back)@.nodes.len() as int);
    }
}

/// Enter connects to the selected device where it is another one that is ready, and tells why not
/// where one is selected that is not.
pub proof fn law_enter_connects_to_the_selected_device(state: &mut AppState, i: usize, r: Action)
    requires
        call_ensures(AppState::handle_key, (state, Key::Enter), r),
        old(state)@.overlay is None,
        old(state)@.activity == Activity::Idle,
        old(state)@.selection == Some(i),
        i < old(state)@.nodes.len(),
    ensures
        ({
            let node = old(state)@.nodes[i as int];
            if node.is_local {
                r@ == ActionView::Nothing && final(state)@.error == Some(
                    "This device cannot connect to itself"@,
                ) && final(state)@.activity == Activity::Idle
            } else if node.status == DeviceStatus::Ready {
                r@ == ActionView::Connect(node) && final(state)@.activity == Activity::Connecting && final(state)@.notice == Some("Connecting to "@ + node.name + "…"@) && final(state)@.error is None
            } else {
                r@ == ActionView::Nothing && final(state)@.error == Some("This device is not ready"@)
                    && final(state)@.activity == Activity::Idle
            }
        }),
{
    let view = final(state)@;
    assert((view, r@) == pressed(old(state)@, Key::Enter));
}

/// The menu closes with `q` or Escape, moves with the arrows, changes the selected setting with
/// left and right and then asks to save it, and leads to the credentials and the allowlist.
pub proof fn law_keys_of_the_menu(
    state: &mut AppState,
    selected: StreamSetting,
    key: Key,
    below: StreamSetting,
    above: StreamSetting,
    r: Action,
)
    requires
        call_ensures(AppState::handle_key, (state, key), r),
        call_ensures(StreamSetting::next, (selected,), below),
        call_ensures(StreamSetting::previous, (selected,), above),
        old(state)@.overlay == Some(OverlayView::Menu { selected }),
    ensures
        key == Key::Esc || key == Key::Char('q') ==> final(state)@.overlay is None,
        key == Key::Down || key == Key::Char('j') ==> final(state)@.overlay == Some(
            OverlayView::Menu { selected: below },
        ),
        key == Key::Up || key == Key::Char('k') ==> final(state)@.overlay == Some(
            OverlayView::Menu { selected: above },
        ),
        key == Key::Char('c') ==> final(state)@.overlay == Some(
            OverlayView::CredentialsUser { user: Seq::empty() },
        ),
        key == Key::Char('a') ==> final(state)@.overlay == Some(OverlayView::Access),
        r@ == ActionView::ListAccess <==> key == Key::Char('a'),
        r@ == ActionView::SaveProfile <==> key == Key::Left || key == Key::Right || key == Key::Char('h')
            || key == Key::Char('l') || key == Key::Enter,
        r@ == ActionView::SaveProfile || r@ == ActionView::ListAccess || r@ == ActionView::Nothing,
        r@ != ActionView::SaveProfile ==> final(state)@.stream_profile == old(state)@.stream_profile,
        r@ == ActionView::SaveProfile ==> final(state)@.overlay == old(state)@.overlay,
        final(state)@.selection == old(state)@.selection,
        final(state)@.nodes == old(state)@.nodes,
{
    let view = final(state)@;
    assert((view, r@) == pressed(old(state)@, key));
}

/// Left takes the selected setting one step back, right and Enter one step on.
pub proof fn law_left_and_right_change_the_setting(
    state: &mut AppState,
    selected: StreamSetting,
    key: Key,
    r: Action,
    profile: &mut StreamProfile,
    direction: i8,
)
    requires
        call_ensures(AppState::handle_key, (state, key), r),
        call_ensures(change_stream_setting, (profile, selected, direction), ()),
        old(state)@.overlay == Some(OverlayView::Menu { selected }),
        *old(profile) == old(state)@.stream_profile,
        direction == -1 && (key == Key::Left || key == Key::Char('h')) || direction == 1 && (key
            == Key::Right || key == Key::Char('l') || key == Key::Enter),
    ensures
        final(state)@.stream_profile == *final(profile),
{
    let view = final(state)@;
    assert((view, r@) == pressed(old(state)@, key));
}

/// What is typed is added to the name and the password, but no control characters; backspace takes
/// the last character away; Enter goes on only from a field that is filled in, and asks to store
/// exactly what was typed.
pub proof fn law_credentials_are_stored_as_typed(
    state: &mut AppState,
    key: Key,
    user: Seq<char>,
    pass: Seq<char>,
    r: Action,
)
    requires
        call_ensures(AppState::handle_key, (state, key), r),
        old(state)@.overlay == Some(OverlayView::CredentialsPass { user, pass }),
    ensures
        r@ == (ActionView::StoreCredentials { user, pass }) <==> key == Key::Enter && pass.len() > 0,
        r@ is StoreCredentials || r@ == ActionView::Nothing,
        r@ is StoreCredentials ==> key == Key::Enter && pass.len() > 0,
        key matches Key::Char(c) ==> final(state)@.overlay == Some(
            OverlayView::CredentialsPass {
                user,
                pass: if control(c) {
                    pass
                } else {
                    pass.push(c)
                },
            },
        ),
        key == Key::Backspace && pass.len() > 0 ==> final(state)@.overlay == Some(
            OverlayView::CredentialsPass { user, pass: pass.drop_last() },
        ),
        key == Key::Esc ==> final(state)@.overlay == Some(
            OverlayView::Menu { selected: StreamSetting::Resolution },
        ),
        key == Key::Enter ==> final(state)@.overlay == old(state)@.overlay,
{
    let view = final(state)@;
    assert((view, r@) == pressed(old(state)@, key));
}

/// The name is typed as the password is, and Enter goes from a name that is not empty to the
/// password.
pub proof fn law_a_name_comes_before_its_password(state: &mut AppState, key: Key, user: Seq<char>, r: Action)
    requires
        call_ensures(AppState::handle_key, (state, key), r),
        old(state)@.overlay == Some(OverlayView::CredentialsUser { user }),
    ensures
        r@ == ActionView::Nothing,
        key matches Key::Char(c) ==> final(state)@.overlay == Some(
            OverlayView::CredentialsUser {
                user: if control(c) {
                    user
                } else {
                    user.push(c)
                },
            },
        ),
        key == Key::Backspace && user.len() > 0 ==> final(state)@.overlay == Some(
            OverlayView::CredentialsUser { user: user.drop_last() },
        ),
        key == Key::Esc ==> final(state)@.overlay == Some(
            OverlayView::Menu { selected: StreamSetting::Resolution },
        ),
        key == Key::Enter && user.len() > 0 ==> final(state)@.overlay == Some(
            OverlayView::CredentialsPass { user, pass: Seq::empty() },
        ),
        key == Key::Enter && user.len() == 0 ==> final(state)@.overlay == old(state)@.overlay,
{
    let view = final(state)@;
    assert((view, r@) == pressed(old(state)@, key));
}

/// Access is given to and taken from the selected device, by its identity; it is given only to
/// another device that is ready.
pub proof fn law_access_is_given_to_the_selected_device(state: &mut AppState, i: usize, key: Key, r: Action)
    requires
        call_ensures(AppState::handle_key, (state, key), r),
        old(state)@.overlay == Some(OverlayView::Access),
        old(state)@.selection == Some(i),
        i < old(state)@.nodes.len(),
    ensures
        ({
            let node = old(state)@.nodes[i as int];
            &&& r@ is AllowAccess <==> key == Key::Char('a') && !node.is_local && node.status
                == DeviceStatus::Ready
            &&& r@ is RevokeAccess <==> key == Key::Char('d')
            &&& r@ is AllowAccess ==> r@ == (ActionView::AllowAccess {
                tailnet_node_id: node.tailnet_node_id,
                label: node.name,
            }) && final(state)@.notice == Some("Allowed "@ + node.name + " to control this device"@)
            &&& r@ is RevokeAccess ==> r@ == (ActionView::RevokeAccess {
                tailnet_node_id: node.tailnet_node_id,
            }) && final(state)@.notice == Some("Revoked access for "@ + node.name)
            &&& key == Key::Char('a') && r@ !is AllowAccess ==> final(state)@.error == Some(
                "Select a remote device first to grant it access"@,
            )
            &&& key == Key::Esc || key == Key::Char('q') ==> final(state)@.overlay == Some(
                OverlayView::Menu { selected: StreamSetting::Resolution },
            )
            &&& r@ is AllowAccess || r@ is RevokeAccess || r@ == ActionView::Nothing
        }),
{
    let view = final(state)@;
    assert((view, r@) == pressed(old(state)@, key));
}

/// A search that ended shows what it found, with the first device selected, or its error and no
/// device; it no longer runs either way.
pub proof fn law_a_search_shows_what_it_found(
    found: &mut AppState,
    nodes: Vec<DiscoveredNode>,
    failed: &mut AppState,
    error: String,
)
    requires
        call_ensures(AppState::apply_message, (found, AsyncMessage::Discovery(Ok(nodes))), ()),
        call_ensures(AppState::apply_message, (failed, AsyncMessage::Discovery(Err(error))), ()),
    ensures
        !final(found)@.loading && !final(failed)@.loading,
        final(found)@.nodes == device_views(nodes@),
        final(found)@.error is None,
        nodes@.len() > 0 ==> final(found)@.selection == Some(0usize),
        nodes@.len() == 0 ==> final(found)@.selection is None,
        final(failed)@.nodes.len() == 0,
        final(failed)@.error == Some(error@),
        final(failed)@.selection is None,
        !final(found)@.detail_expanded && !final(failed)@.detail_expanded,
        final(found)@.notice == old(found)@.notice && final(failed)@.notice == old(failed)@.notice,
        final(found)@.overlay == old(found)@.overlay && final(failed)@.overlay == old(failed)@.overlay,
        final(found)@.activity == old(found)@.activity,
        final(failed)@.activity == old(failed)@.activity,
{
    assert(device_views(nodes@).len() == nodes@.len());
}

/// A stream that ended leaves the interface idle, with its text as the only message.
pub proof fn law_an_ended_stream_leaves_its_message(
    well: &mut AppState,
    notice: String,
    badly: &mut AppState,
    error: String,
)
    requires
        call_ensures(AppState::apply_message, (well, AsyncMessage::Activity(Ok(notice))), ()),
        call_ensures(AppState::apply_message, (badly, AsyncMessage::Activity(Err(error))), ()),
    ensures
        final(well)@.activity == Activity::Idle && final(badly)@.activity == Activity::Idle,
        final(well)@.notice == Some(notice@) && final(well)@.error is None,
        final(badly)@.error == Some(error@) && final(badly)@.notice is None,
        final(well)@.nodes == old(well)@.nodes && final(badly)@.nodes == old(badly)@.nodes,
        final(well)@.selection == old(well)@.selection,
        final(badly)@.selection == old(badly)@.selection,
        final(well)@.loading == old(well)@.loading && final(badly)@.loading == old(badly)@.loading,
{
}

/// The list of who may connect is replaced as a whole; where it cannot be read the old one stays
/// and the error is told.
pub proof fn law_the_allowlist_is_replaced_or_stays(
    read: &mut AppState,
    rows: Vec<AccessRow>,
    unread: &mut AppState,
    error: String,
)
    requires
        call_ensures(AppState::apply_message, (read, AsyncMessage::Access(Ok(rows))), ()),
        call_ensures(AppState::apply_message, (unread, AsyncMessage::Access(Err(error))), ()),
    ensures
        final(read)@.access_entries == row_views(rows@),
        final(read)@.error == old(read)@.error && final(read)@.notice == old(read)@.notice,
        final(unread)@.access_entries == old(unread)@.access_entries,
        final(unread)@.error == Some(error@),
        final(unread)@.nodes == old(unread)@.nodes && final(read)@.nodes == old(read)@.nodes,
        final(unread)@.activity == old(unread)@.activity && final(read)@.activity == old(read)@.activity,
{
}

/// Only the end of a stream asks for the terminal to be drawn anew.
pub proof fn law_only_a_stream_resets_the_terminal(message: &AsyncMessage, r: bool)
    requires
        call_ensures(requires_terminal_reset, (message,), r),
    ensures
        r <==> !(message is Discovery) && !(message is Access),
{
}

/// A click opens and closes the details, where they do not fit and it is on them; twice in one
/// place undoes it, and it changes nothing else.
pub proof fn law_a_second_click_undoes_the_first(
    state: &mut AppState,
    afterwards: &mut AppState,
    column: u16,
    row: u16,
)
    requires
        call_ensures(AppState::click, (state, column, row), ()),
        call_ensures(AppState::click, (afterwards, column, row), ()),
        final(state)@ == old(afterwards)@,
    ensures
        final(afterwards)@ == old(state)@,
        final(state)@.detail_expanded != old(state)@.detail_expanded <==> old(state)@.detail_overflow && (
        old(state)@.detail_rect matches Some(rect) && rect.x <= column && column - rect.x < rect.width
            && rect.y <= row && row - rect.y < rect.height),
        final(state)@.selection == old(state)@.selection,
        final(state)@.overlay == old(state)@.overlay,
{
}

/// A point is in a part of the screen from its first to before its last column and row.
pub proof fn law_a_point_is_inside_its_edges(column: u16, row: u16, rect: Rect, r: bool)
    requires
        call_ensures(point_in_rect, (column, row, rect), r),
    ensures
        r <==> rect.x <= column && column - rect.x < rect.width && rect.y <= row && row - rect.y
            < rect.height,
{
}

/// A popup has the size asked for or what there is room for, and as much space before it as after
/// it, up to one row or column.
pub proof fn law_a_popup_is_in_the_middle(area: Rect, width: u16, height: u16, r: Rect)
    requires
        area.fits(),
        call_ensures(popup_area, (area, width, height), r),
    ensures
        width <= area.width ==> r.width == width,
        width > area.width ==> r.width == area.width,
        height <= area.height ==> r.height == height,
        height > area.height ==> r.height == area.height,
        ({
            let left = r.x - area.x;
            let right = (area.x + area.width) - (r.x + r.width);
            0 <= left <= right <= left + 1
        }),
        ({
            let above = r.y - area.y;
            let below = (area.y + area.height) - (r.y + r.height);
            0 <= above <= below <= above + 1
        }),
{
}

/// At the start nothing is known, nothing runs and nothing is shown over the list.
pub proof fn law_the_interface_starts_empty(theme: ThemeWatcher, r: AppState)
    requires
        call_ensures(AppState::new, (theme,), r),
    ensures
        r.nodes@.len() == 0,
        r.selection is None,
        r.theme == theme,
        !r.loading,
        r.activity == Activity::Idle,
        r@.notice is None && r@.error is None && r@.overlay is None,
        !r.sunshine_configured,
        r.access_entries@.len() == 0,
        !r.detail_expanded && !r.detail_overflow && r.detail_rect is None,
{
    assert(r@.nodes.len() == r.nodes@.len());
    assert(r@.access_entries.len() == r.access_entries@.len());
    assert(r@.selection == r.selection && r@.theme == r.theme && r@.loading == r.loading);
    assert(r@.activity == r.activity && r@.sunshine_configured == r.sunshine_configured);
    assert(r@.detail_expanded == r.detail_expanded && r@.detail_overflow == r.detail_overflow);
    assert(r@.detail_rect == r.detail_rect);
}

/// An error is shown before a notice, and without either there is no message.
pub proof fn law_errors_are_shown_first(state: &AppState, r: Option<(MessageKind, &str)>)
    requires
        call_ensures(AppState::message, (state,), r),
    ensures
        r is None <==> state.error is None && state.notice is None,
        state.error matches Some(error) ==> (r matches Some((kind, text)) && kind == MessageKind::Error
            && text@ == error@),
        state.error is None ==> (state.notice matches Some(notice) ==> (r matches Some((kind, text)) && kind
            == MessageKind::Notice && text@ == notice@)),
{
    assert(state@.error == opt_text(state.error));
    assert(state@.notice == opt_text(state.notice));
}

/// The selected device can be connected to, or it is told why not.
pub proof fn law_a_selected_device_is_open_or_told_about(
    state: &AppState,
    selected: Option<&DiscoveredNode>,
    remote: Option<DiscoveredNode>,
    reason: Option<&'static str>,
)
    requires
        call_ensures(AppState::selected, (state,), selected),
        call_ensures(AppState::selected_remote, (state,), remote),
        call_ensures(AppState::unavailable_reason, (state,), reason),
    ensures
        selected is None ==> remote is None && reason is None,
        selected is Some ==> (remote is Some <==> reason is None),
        selected matches Some(node) ==> (remote is Some <==> !node@.is_local && node@.status
            == DeviceStatus::Ready),
        selected matches Some(node) ==> node@.is_local ==> (reason matches Some(text) && text@
            == "This device cannot connect to itself"@),
        selected matches Some(node) ==> !node@.is_local && node@.status != DeviceStatus::Ready ==> (
        reason matches Some(text) && text@ == "This device is not ready"@),
        remote matches Some(node) ==> selected is Some && selected->0@ == node@,
        state@.selection matches Some(i) ==> i < state@.nodes.len() ==> (selected matches Some(node) && node@
            == state@.nodes[i as int]),
        state@.selection is None ==> selected is None,
{
}

/// What is set on this computer is taken when the interface starts and when the menu opens; the
/// first begins a search, and the second opens the menu at its first line.
pub proof fn law_settings_are_read_anew(
    started: &mut AppState,
    opened: &mut AppState,
    configured: bool,
    profile: StreamProfile,
)
    requires
        call_ensures(AppState::start, (started, configured, profile), ()),
        call_ensures(AppState::open_settings, (opened, configured, profile), ()),
    ensures
        final(started)@.loading,
        final(started)@.overlay == old(started)@.overlay,
        final(opened)@.loading == old(opened)@.loading,
        final(opened)@.overlay == Some(OverlayView::Menu { selected: StreamSetting::Resolution }),
        final(started)@.sunshine_configured == configured,
        final(opened)@.sunshine_configured == configured,
        final(started)@.stream_profile == profile && final(opened)@.stream_profile == profile,
        final(started)@.selection == old(started)@.selection,
        final(opened)@.selection == old(opened)@.selection,
{
}

/// Whether settings or credentials were saved is told, with the error where not; credentials
/// that could not be stored do not count as configured.
pub proof fn law_saving_is_told(
    saved: &mut AppState,
    stored: &mut AppState,
    result: Result<(), String>,
)
    requires
        call_ensures(AppState::profile_saved, (saved, result), ()),
        call_ensures(AppState::credentials_stored, (stored, result), ()),
    ensures
        result is Ok ==> final(saved)@.notice == Some("Stream settings saved"@) && final(saved)@.error
            is None,
        result is Ok ==> final(stored)@.notice == Some("Sunshine credentials saved"@) && final(stored)@.error is None && final(stored)@.sunshine_configured,
        result matches Err(error) ==> final(saved)@.error == Some(
            "Could not save stream settings: "@ + error@,
        ) && final(saved)@.notice is None,
        result matches Err(error) ==> final(stored)@.error == Some(
            "Could not save credentials: "@ + error@,
        ) && final(stored)@.notice is None && final(stored)@.sunshine_configured
            == old(stored)@.sunshine_configured,
        final(saved)@.overlay == old(saved)@.overlay,
        final(stored)@.overlay == Some(OverlayView::Menu { selected: StreamSetting::Resolution }),
        final(saved)@.stream_profile == old(saved)@.stream_profile,
{
}

/// Every entry of the allowlist has its row, in the same order, under its label or else its
/// identity.
pub proof fn law_every_entry_has_its_row(entries: &Vec<AllowedController>, i: int, r: Vec<AccessRow>)
    requires
        call_ensures(access_rows, (entries,), r),
        0 <= i < entries@.len(),
    ensures
        r@.len() == entries@.len(),
        r@[i].tailnet_node_id@ == entries@[i].tailnet_node_id@,
        entries@[i].label matches Some(label) ==> r@[i].label@ == label@,
        entries@[i].label is None ==> r@[i].label@ == entries@[i].tailnet_node_id@,
{
    let views = row_views(r@);
    assert(views.len() == r@.len());
    assert(views[i] == r@[i]@);
    assert(views[i] == access_row(entries@[i]));
}

/// A connection from the list goes to that device's agent, in full screen with remote input, and
/// pairs where that is needed; it is answered at this computer where that is known.
pub proof fn law_a_connection_goes_to_the_device(
    address: IpAddr,
    agent_port: u16,
    local: Option<AgentEndpoint>,
    profile: StreamProfile,
    r: ConnectRequest,
)
    requires
        call_ensures(connect_request, (address, agent_port, local, profile), r),
    ensures
        r.endpoint.address == address && r.endpoint.port == agent_port,
        local matches Some(here) ==> r.controller_endpoint == here,
        local is None ==> r.controller_endpoint == r.endpoint,
        r.profile == profile,
        r.fullscreen && r.auto_pair,
        r.input_mode == InputMode::Remote,
        r.focus_workspace is None && r.focus_window is None,
{
}

/// This computer is answered at one of its own addresses, an IPv4 one where it has any, on the
/// port given.
pub proof fn law_this_computer_is_answered_at_its_own_address(
    addresses: &Vec<IpAddr>,
    port: u16,
    chosen: Option<IpAddr>,
    r: Option<AgentEndpoint>,
)
    requires
        call_ensures(choose_address, (addresses,), chosen),
        call_ensures(local_agent_endpoint, (addresses, port), r),
    ensures
        r is Some <==> chosen is Some,
        r matches Some(endpoint) ==> endpoint.port == port && Some(endpoint.address) == chosen,
{
}

/// The end of a stream is told with the device's name and the exit code.
pub proof fn law_the_end_of_a_stream_is_told(name: &str, exit: i32, r: String)
    requires
        call_ensures(disconnect_notice, (name, exit), r),
    ensures
        exit >= 0 ==> r@ == "Disconnected from "@ + name@ + " (exit "@ + crate::strings::decimal(
            exit as nat,
        ) + ")"@,
        exit < 0 ==> r@ == "Disconnected from "@ + name@ + " (exit "@ + (seq!['-'] + crate::strings::decimal(
            (-exit) as nat,
        )) + ")"@,
{
}

} // verus!
