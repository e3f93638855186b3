//! The vocabulary of remote desktop control: nodes, displays, windows, key chords, sessions,
//! commands and stream profiles.
use vstd::prelude::*;
use vstd::string::*;

use crate::ids::SessionId;
use crate::order::{sorted_set, strictly_sorted};
use crate::strings::{
    ascii_alphanumeric, byte_count, byte_len, chars_of, every_char, hex_digit,
    is_ascii_alphanumeric, is_hex_digit, opt_text, same_text, texts,
};

verus! {

/// Whether a discovered node can be used.
#[derive(Clone, Copy, Debug, PartialEq, Eq, Structural)]
pub enum NodeStatus {
    Ready,
    Blocked,
    Offline,
    Unavailable,
}

#[derive(Clone, Copy, Debug, PartialEq, Eq, Structural)]
pub enum BlockerCode {
    Incompatible,
    Denied,
    NeedsAccess,
}

/// The computer on which a blocker is fixed.
#[derive(Clone, Copy, Debug, PartialEq, Eq, Structural)]
pub enum BlockerSide {
    Local,
    Remote,
}

/// What keeps a node from being used, and the command that fixes it.
#[derive(Debug, PartialEq, Eq)]
pub struct NodeBlocker {
    pub code: BlockerCode,
    pub side: BlockerSide,
    pub fix: String,
}

pub struct NodeBlockerView {
    pub code: BlockerCode,
    pub side: BlockerSide,
    pub fix: Seq<char>,
}

impl View for NodeBlocker {
    type V = NodeBlockerView;

    open spec fn view(&self) -> NodeBlockerView {
        NodeBlockerView { code: self.code, side: self.side, fix: self.fix@ }
    }
}

impl Clone for NodeBlocker {
    fn clone(&self) -> (r: Self)
        ensures
            r == *self,
    {
        NodeBlocker { code: self.code, side: self.side, fix: self.fix.clone() }
    }
}

/// The capability names that a node advertises: sorted, each once.
#[derive(Debug, PartialEq, Eq)]
pub struct NodeCapabilities(Vec<String>);

impl View for NodeCapabilities {
    type V = Seq<Seq<char>>;

    closed spec fn view(&self) -> Seq<Seq<char>> {
        texts(self.0@)
    }
}

impl NodeCapabilities {
    pub open spec fn wf(&self) -> bool {
        strictly_sorted(self@)
    }

    pub fn new(capabilities: Vec<String>) -> (r: Self)
        ensures
            r.wf(),
            forall|name: Seq<char>| r@.contains(name) <==> texts(capabilities@).contains(name),
    {
        NodeCapabilities(sorted_set(capabilities))
    }

    pub fn contains(&self, capability: &str) -> (r: bool)
        ensures
            r == self@.contains(capability@),
    {
        let mut i: usize = 0;
        while i < self.0.len()
            invariant
                i <= self.0@.len(),
                self@ == texts(self.0@),
                forall|k: int| 0 <= k < i ==> self@[k] != capability@,
            decreases self.0@.len() - i,
        {
            if same_text(self.0[i].as_str(), capability) {
                assert(self@[i as int] == capability@);
                return true;
            }
            assert(self@[i as int] != capability@);
            i += 1;
        }
        false
    }

    pub fn as_slice(&self) -> (r: &[String])
        ensures
            texts(r@) == self@,
    {
        self.0.as_slice()
    }
}

impl Clone for NodeCapabilities {
    fn clone(&self) -> (r: Self)
        ensures
            r@ == self@,
    {
        NodeCapabilities(clone_texts(&self.0))
    }
}

impl Default for NodeCapabilities {
    fn default() -> (r: Self)
        ensures
            r@ == Seq::<Seq<char>>::empty(),
            r.wf(),
    {
        let r = NodeCapabilities(Vec::new());
        assert(r@ =~= Seq::<Seq<char>>::empty());
        r
    }
}

/// A copy of a list of texts.
pub fn clone_texts(v: &Vec<String>) -> (r: Vec<String>)
    ensures
        r@ == v@,
{
    let mut r: Vec<String> = Vec::new();
    let mut i: usize = 0;
    while i < v.len()
        invariant
            i <= v@.len(),
            r@ == v@.take(i as int),
        decreases v@.len() - i,
    {
        r.push(v[i].clone());
        assert(v@.take(i + 1) =~= v@.take(i as int).push(v@[i as int]));
        i += 1;
    }
    assert(v@.take(v@.len() as int) =~= v@);
    r
}

/// How a peer is reached over the tailnet.
#[derive(Clone, Copy, Debug, PartialEq, Eq, Structural)]
pub enum ConnectionKind {
    Direct,
    Relay,
    Unknown,
}

/// An internet address: four octets, or eight segments.
#[derive(Clone, Copy, Debug, PartialEq, Eq, Hash, Structural)]
pub enum IpAddr {
    V4(u8, u8, u8, u8),
    V6(u16, u16, u16, u16, u16, u16, u16, u16),
}

impl IpAddr {
    pub open spec fn spec_is_ipv4(self) -> bool {
        self is V4
    }

    pub fn is_ipv4(&self) -> (r: bool)
        ensures
            r == self.spec_is_ipv4(),
    {
        matches!(self, IpAddr::V4(..))
    }
}

/// The address to use among those of a machine: the first of the fourth version where there is
/// one, else the first.
pub open spec fn preferred_address(addresses: Seq<IpAddr>) -> Option<IpAddr> {
    if exists|i: int| 0 <= i < addresses.len() && (#[trigger] addresses[i]).spec_is_ipv4() {
        Some(addresses[first_ipv4(addresses)])
    } else if addresses.len() > 0 {
        Some(addresses[0])
    } else {
        None
    }
}

pub open spec fn first_ipv4(addresses: Seq<IpAddr>) -> int {
    choose|i: int|
        0 <= i < addresses.len() && (#[trigger] addresses[i]).spec_is_ipv4() && forall|k: int|
            0 <= k < i ==> !(#[trigger] addresses[k]).spec_is_ipv4()
}

pub fn choose_address(addresses: &Vec<IpAddr>) -> (r: Option<IpAddr>)
    ensures
        r == preferred_address(addresses@),
{
    let mut i: usize = 0;
    while i < addresses.len()
        invariant
            i <= addresses@.len(),
            forall|k: int| 0 <= k < i ==> !(#[trigger] addresses@[k]).spec_is_ipv4(),
        decreases addresses@.len() - i,
    {
        if addresses[i].is_ipv4() {
            proof {
                let f = first_ipv4(addresses@);
                assert(addresses@[i as int].spec_is_ipv4());
                assert(f == i);
            }
            return Some(addresses[i]);
        }
        i += 1;
    }
    if addresses.len() > 0 {
        Some(addresses[0])
    } else {
        None
    }
}

/// A machine of the tailnet.
#[derive(Debug, PartialEq, Eq)]
pub struct MeshPeer {
    pub tailnet_node_id: String,
    pub dns_name: Option<String>,
    pub hostname: Option<String>,
    pub ips: Vec<IpAddr>,
    pub online: bool,
    pub connection: ConnectionKind,
    pub latency_ms: Option<u32>,
}

pub struct MeshPeerView {
    pub tailnet_node_id: Seq<char>,
    pub dns_name: Option<Seq<char>>,
    pub hostname: Option<Seq<char>>,
    pub ips: Seq<IpAddr>,
    pub online: bool,
    pub connection: ConnectionKind,
    pub latency_ms: Option<u32>,
}

impl View for MeshPeer {
    type V = MeshPeerView;

    open spec fn view(&self) -> MeshPeerView {
        MeshPeerView {
            tailnet_node_id: self.tailnet_node_id@,
            dns_name: opt_text(self.dns_name),
            hostname: opt_text(self.hostname),
            ips: self.ips@,
            online: self.online,
            connection: self.connection,
            latency_ms: self.latency_ms,
        }
    }
}

/// A monitor of a desktop. The refresh rate, in hertz, is kept as the bits of a double.
#[derive(Debug, PartialEq, Eq)]
pub struct Display {
    pub id: String,
    pub name: String,
    pub width: u32,
    pub height: u32,
    pub refresh_bits: u64,
    pub focused: bool,
}

pub struct DisplayView {
    pub id: Seq<char>,
    pub name: Seq<char>,
    pub width: u32,
    pub height: u32,
    pub refresh_bits: u64,
    pub focused: bool,
}

impl View for Display {
    type V = DisplayView;

    open spec fn view(&self) -> DisplayView {
        DisplayView {
            id: self.id@,
            name: self.name@,
            width: self.width,
            height: self.height,
            refresh_bits: self.refresh_bits,
            focused: self.focused,
        }
    }
}

/// What a domain value was refused for.
#[derive(Clone, Copy, Debug, PartialEq, Eq, Structural)]
pub enum DomainError {
    InvalidKeyChord,
    InvalidWindowSelector,
    InvalidSessionEndpoint,
    InvalidDisplayId,
    InvalidStreamProfile,
    UnknownCapability,
}

impl DomainError {
    pub open spec fn spec_message(self) -> Seq<char> {
        match self {
            DomainError::InvalidKeyChord => "key chord key must be a short ASCII-alphanumeric token"@,
            DomainError::InvalidWindowSelector => "window selector is not a safe class token"@,
            DomainError::InvalidSessionEndpoint =>
                "session endpoint requires a controller address and non-zero port"@,
            DomainError::InvalidDisplayId => "display identifier is not a safe monitor token"@,
            DomainError::InvalidStreamProfile =>
                "stream profile is outside the supported resolution, frame rate or bitrate range"@,
            DomainError::UnknownCapability => "unknown control capability"@,
        }
    }

    pub fn message(&self) -> (r: &'static str)
        ensures
            r@ == self.spec_message(),
    {
        match self {
            DomainError::InvalidKeyChord => "key chord key must be a short ASCII-alphanumeric token",
            DomainError::InvalidWindowSelector => "window selector is not a safe class token",
            DomainError::InvalidSessionEndpoint =>
                "session endpoint requires a controller address and non-zero port",
            DomainError::InvalidDisplayId => "display identifier is not a safe monitor token",
            DomainError::InvalidStreamProfile =>
                "stream profile is outside the supported resolution, frame rate or bitrate range",
            DomainError::UnknownCapability => "unknown control capability",
        }
    }
}

/// The success of a check, or the error that it fails with.
pub open spec fn checked(ok: bool, error: DomainError) -> Result<(), DomainError> {
    if ok {
        Ok(())
    } else {
        Err(error)
    }
}

/// A letter or digit of ASCII, or one of `-`, `_` and `.`.
pub open spec fn safe_token_char(c: char) -> bool {
    ascii_alphanumeric(c) || c == '-' || c == '_' || c == '.'
}

pub open spec fn all_safe_token_chars(s: Seq<char>) -> bool {
    forall|i: int| 0 <= i < s.len() ==> safe_token_char(#[trigger] s[i])
}

pub open spec fn all_alphanumeric(s: Seq<char>) -> bool {
    forall|i: int| 0 <= i < s.len() ==> ascii_alphanumeric(#[trigger] s[i])
}

pub fn is_safe_class_char(c: char) -> (r: bool)
    ensures
        r == safe_token_char(c),
{
    is_ascii_alphanumeric(c) || c == '.' || c == '_' || c == '-'
}

/// The name of a monitor.
#[derive(Debug, PartialEq, Eq, Hash)]
pub struct DisplayId(pub String);

impl View for DisplayId {
    type V = Seq<char>;

    open spec fn view(&self) -> Seq<char> {
        self.0@
    }
}

impl Clone for DisplayId {
    fn clone(&self) -> (r: Self)
        ensures
            r == *self,
    {
        DisplayId(self.0.clone())
    }
}

/// A monitor name that may stand in a command.
pub open spec fn valid_display_id(s: Seq<char>) -> bool {
    s.len() > 0 && byte_len(s) <= 64 && all_safe_token_chars(s)
}

impl DisplayId {
    pub fn new(value: String) -> (r: Self)
        ensures
            r.0 == value,
    {
        DisplayId(value)
    }

    pub fn from_text(value: &str) -> (r: Self)
        ensures
            r@ == value@,
    {
        DisplayId(value.to_owned())
    }

    pub fn as_str(&self) -> (r: &str)
        ensures
            r@ == self@,
    {
        self.0.as_str()
    }

    pub fn same(&self, other: &DisplayId) -> (r: bool)
        ensures
            r == (self@ == other@),
    {
        same_text(self.as_str(), other.as_str())
    }

    pub fn validate(&self) -> (r: Result<(), DomainError>)
        ensures
            r == checked(valid_display_id(self@), DomainError::InvalidDisplayId),
    {
        let value = self.as_str();
        if value.is_empty() || byte_count(value) > 64 {
            return Err(DomainError::InvalidDisplayId);
        }
        if every_char(value, is_safe_class_char, Ghost(|c: char| safe_token_char(c))) {
            Ok(())
        } else {
            Err(DomainError::InvalidDisplayId)
        }
    }
}

/// Which monitor a stream shows.
#[derive(Clone, Copy, Debug, PartialEq, Eq, Structural)]
pub enum DisplayMode {
    FollowFocus,
}

impl DisplayMode {
    pub fn all() -> (r: [DisplayMode; 1])
        ensures
            r@ == seq![DisplayMode::FollowFocus],
    {
        let r = [DisplayMode::FollowFocus];
        assert(r@ =~= seq![DisplayMode::FollowFocus]);
        r
    }

    pub fn label(self) -> (r: &'static str)
        ensures
            r@ == "Follow Focus"@,
    {
        match self {
            DisplayMode::FollowFocus => "Follow Focus",
        }
    }
}

impl Default for DisplayMode {
    fn default() -> (r: Self)
        ensures
            r == DisplayMode::FollowFocus,
    {
        DisplayMode::FollowFocus
    }
}

pub open spec fn display_ids(v: Seq<DisplayId>) -> Seq<Seq<char>> {
    v.map_values(|d: DisplayId| d@)
}

pub open spec fn opt_display(d: Option<DisplayId>) -> Option<Seq<char>> {
    match d {
        Some(id) => Some(id@),
        None => None,
    }
}

pub open spec fn opt_display_ref(d: Option<&DisplayId>) -> Option<Seq<char>> {
    match d {
        Some(id) => Some(id@),
        None => None,
    }
}

/// The monitors of a remote desktop, and the one that has the focus.
#[derive(Debug, PartialEq, Eq)]
pub struct RemoteDesktopTopology {
    displays: Vec<DisplayId>,
    focused: Option<DisplayId>,
}

pub struct TopologyView {
    pub displays: Seq<Seq<char>>,
    pub focused: Option<Seq<char>>,
}

impl View for RemoteDesktopTopology {
    type V = TopologyView;

    closed spec fn view(&self) -> TopologyView {
        TopologyView { displays: display_ids(self.displays@), focused: opt_display(self.focused) }
    }
}

impl TopologyView {
    /// The focused monitor, or the first one where none has the focus.
    pub open spec fn preferred(self) -> Option<Seq<char>> {
        if self.focused is Some {
            self.focused
        } else if self.displays.len() > 0 {
            Some(self.displays[0])
        } else {
            None
        }
    }

    /// The monitor to switch to from the streamed one, if it is another.
    pub open spec fn follow_focus_target(self, streamed: Seq<char>) -> Option<Seq<char>> {
        if self.preferred() is Some && self.preferred()->0 != streamed {
            self.preferred()
        } else {
            None
        }
    }
}

/// The position of the first focused monitor, if there is one.
pub open spec fn first_focused(displays: Seq<DisplayView>) -> Option<Seq<char>>
    decreases displays.len(),
{
    if displays.len() == 0 {
        None
    } else if displays[0].focused {
        Some(displays[0].id)
    } else {
        first_focused(displays.drop_first())
    }
}

pub open spec fn display_views(v: Seq<Display>) -> Seq<DisplayView> {
    v.map_values(|d: Display| d@)
}

/// A desktop of these monitors.
pub open spec fn desktop_of(displays: Seq<DisplayView>) -> TopologyView {
    TopologyView {
        displays: displays.map_values(|d: DisplayView| d.id),
        focused: first_focused(displays),
    }
}

impl RemoteDesktopTopology {
    pub fn new(displays: Vec<DisplayId>, focused: Option<DisplayId>) -> (r: Self)
        ensures
            r@.displays == display_ids(displays@),
            r@.focused == opt_display(focused),
    {
        RemoteDesktopTopology { displays, focused }
    }

    pub fn from_displays(displays: &[Display]) -> (r: Self)
        ensures
            r@ == desktop_of(display_views(displays@)),
    {
        let mut ids: Vec<DisplayId> = Vec::new();
        let mut focused: Option<DisplayId> = None;
        let ghost all = display_views(displays@);
        let mut i: usize = 0;
        assert(all.skip(0) =~= all);
        while i < displays.len()
            invariant
                i <= displays@.len(),
                all == display_views(displays@),
                display_ids(ids@) == all.take(i as int).map_values(|d: DisplayView| d.id),
                focused is None ==> first_focused(all) == first_focused(all.skip(i as int)),
                focused is Some ==> first_focused(all) == opt_display(focused),
            decreases displays@.len() - i,
        {
            assert(all[i as int] == displays@[i as int]@);
            assert(all.skip(i as int).drop_first() =~= all.skip(i + 1));
            let ghost before = ids@;
            ids.push(DisplayId(displays[i].id.clone()));
            assert(all.take(i + 1) =~= all.take(i as int).push(all[i as int]));
            assert(display_ids(ids@) =~= display_ids(before).push(all[i as int].id));
            assert(all.take(i + 1).map_values(|d: DisplayView| d.id) =~= all.take(
                i as int,
            ).map_values(|d: DisplayView| d.id).push(all[i as int].id));
            if focused.is_none() && displays[i].focused {
                focused = Some(DisplayId(displays[i].id.clone()));
            }
            i += 1;
        }
        assert(all.take(all.len() as int) =~= all);
        assert(display_ids(ids@) =~= desktop_of(all).displays);
        RemoteDesktopTopology { displays: ids, focused }
    }

    pub fn displays(&self) -> (r: &[DisplayId])
        ensures
            display_ids(r@) == self@.displays,
    {
        self.displays.as_slice()
    }

    pub fn focused(&self) -> (r: Option<&DisplayId>)
        ensures
            opt_display_ref(r) == self@.focused,
    {
        match &self.focused {
            Some(id) => Some(id),
            None => None,
        }
    }

    pub fn contains(&self, display: &DisplayId) -> (r: bool)
        ensures
            r == self@.displays.contains(display@),
    {
        let mut i: usize = 0;
        while i < self.displays.len()
            invariant
                i <= self.displays@.len(),
                self@.displays == display_ids(self.displays@),
                forall|k: int| 0 <= k < i ==> self@.displays[k] != display@,
            decreases self.displays@.len() - i,
        {
            assert(self@.displays[i as int] == self.displays@[i as int]@);
            if self.displays[i].same(display) {
                return true;
            }
            i += 1;
        }
        false
    }

    pub fn preferred(&self) -> (r: Option<&DisplayId>)
        ensures
            opt_display_ref(r) == self@.preferred(),
    {
        match &self.focused {
            Some(id) => Some(id),
            None => {
                if self.displays.len() > 0 {
                    Some(&self.displays[0])
                } else {
                    None
                }
            },
        }
    }
}

impl Default for RemoteDesktopTopology {
    fn default() -> (r: Self)
        ensures
            r@.displays == Seq::<Seq<char>>::empty(),
            r@.focused is None,
    {
        let r = RemoteDesktopTopology { displays: Vec::new(), focused: None };
        assert(r@.displays =~= Seq::<Seq<char>>::empty());
        r
    }
}

/// The monitor that the stream should switch to, or `None` where it already shows it.
pub fn follow_focus_target(topology: &RemoteDesktopTopology, streamed: &DisplayId) -> (r: Option<
    DisplayId,
>)
    ensures
        opt_display(r) == topology@.follow_focus_target(streamed@),
{
    match topology.preferred() {
        Some(target) => {
            if target.same(streamed) {
                None
            } else {
                Some(target.clone())
            }
        },
        None => None,
    }
}

/// Following the focus settles: once the target is streamed, no further switch is asked for.
pub proof fn law_following_focus_settles(topology: TopologyView, streamed: Seq<char>)
    ensures
        topology.follow_focus_target(streamed) matches Some(target) ==> target != streamed
            && topology.follow_focus_target(target) is None,
{
}

#[derive(Clone, Copy, Debug, PartialEq, Eq, PartialOrd, Ord, Hash, Structural)]
pub struct WorkspaceId(pub i64);

/// The address of a window.
#[derive(Debug, PartialEq, Eq, Hash)]
pub struct WindowId(pub String);

impl View for WindowId {
    type V = Seq<char>;

    open spec fn view(&self) -> Seq<char> {
        self.0@
    }
}

#[derive(Debug, PartialEq, Eq)]
pub struct Workspace {
    pub id: WorkspaceId,
    pub name: Option<String>,
    pub monitor: Option<String>,
    pub focused: bool,
    pub windows: u32,
}

pub struct WorkspaceView {
    pub id: WorkspaceId,
    pub name: Option<Seq<char>>,
    pub monitor: Option<Seq<char>>,
    pub focused: bool,
    pub windows: u32,
}

impl View for Workspace {
    type V = WorkspaceView;

    open spec fn view(&self) -> WorkspaceView {
        WorkspaceView {
            id: self.id,
            name: opt_text(self.name),
            monitor: opt_text(self.monitor),
            focused: self.focused,
            windows: self.windows,
        }
    }
}

#[derive(Debug, PartialEq, Eq)]
pub struct Window {
    pub id: WindowId,
    pub app_id: Option<String>,
    pub class: Option<String>,
    pub title: Option<String>,
    pub workspace: WorkspaceId,
    pub focused: bool,
}

pub struct WindowView {
    pub id: Seq<char>,
    pub app_id: Option<Seq<char>>,
    pub class: Option<Seq<char>>,
    pub title: Option<Seq<char>>,
    pub workspace: WorkspaceId,
    pub focused: bool,
}

impl View for Window {
    type V = WindowView;

    open spec fn view(&self) -> WindowView {
        WindowView {
            id: self.id@,
            app_id: opt_text(self.app_id),
            class: opt_text(self.class),
            title: opt_text(self.title),
            workspace: self.workspace,
            focused: self.focused,
        }
    }
}

/// A copy of an optional text.
pub fn clone_optional(v: &Option<String>) -> (r: Option<String>)
    ensures
        r == *v,
{
    match v {
        Some(s) => Some(s.clone()),
        None => None,
    }
}

impl Clone for Window {
    fn clone(&self) -> (r: Self)
        ensures
            r == *self,
    {
        Window {
            id: WindowId(self.id.0.clone()),
            app_id: clone_optional(&self.app_id),
            class: clone_optional(&self.class),
            title: clone_optional(&self.title),
            workspace: self.workspace,
            focused: self.focused,
        }
    }
}

#[derive(Debug, PartialEq, Eq)]
pub enum WorkspaceTarget {
    Id(WorkspaceId),
    Name(String),
}

pub enum WorkspaceTargetView {
    Id(WorkspaceId),
    Name(Seq<char>),
}

impl View for WorkspaceTarget {
    type V = WorkspaceTargetView;

    open spec fn view(&self) -> WorkspaceTargetView {
        match self {
            WorkspaceTarget::Id(id) => WorkspaceTargetView::Id(*id),
            WorkspaceTarget::Name(name) => WorkspaceTargetView::Name(name@),
        }
    }
}

impl Clone for WorkspaceTarget {
    fn clone(&self) -> (r: Self)
        ensures
            r == *self,
    {
        match self {
            WorkspaceTarget::Id(id) => WorkspaceTarget::Id(*id),
            WorkspaceTarget::Name(name) => WorkspaceTarget::Name(name.clone()),
        }
    }
}

/// A modifier key; the order of the variants is the order in which a chord names them.
#[derive(Clone, Copy, Debug, PartialEq, Eq, PartialOrd, Ord, Structural)]
pub enum KeyModifier {
    Super,
    Ctrl,
    Alt,
    Shift,
}

impl KeyModifier {
    pub open spec fn rank(self) -> int {
        match self {
            KeyModifier::Super => 0,
            KeyModifier::Ctrl => 1,
            KeyModifier::Alt => 2,
            KeyModifier::Shift => 3,
        }
    }

    pub open spec fn spec_as_hypr(self) -> Seq<char> {
        match self {
            KeyModifier::Super => "SUPER"@,
            KeyModifier::Ctrl => "CTRL"@,
            KeyModifier::Alt => "ALT"@,
            KeyModifier::Shift => "SHIFT"@,
        }
    }

    pub fn as_hypr(self) -> (r: &'static str)
        ensures
            r@ == self.spec_as_hypr(),
    {
        match self {
            KeyModifier::Super => "SUPER",
            KeyModifier::Ctrl => "CTRL",
            KeyModifier::Alt => "ALT",
            KeyModifier::Shift => "SHIFT",
        }
    }
}

/// The modifiers that occur in `mods`, in their order, each once.
pub open spec fn ordered_modifiers(mods: Seq<KeyModifier>) -> Seq<KeyModifier> {
    (if mods.contains(KeyModifier::Super) { seq![KeyModifier::Super] } else { seq![] })
        + (if mods.contains(KeyModifier::Ctrl) { seq![KeyModifier::Ctrl] } else { seq![] })
        + (if mods.contains(KeyModifier::Alt) { seq![KeyModifier::Alt] } else { seq![] })
        + (if mods.contains(KeyModifier::Shift) { seq![KeyModifier::Shift] } else { seq![] })
}

fn has_modifier(mods: &Vec<KeyModifier>, wanted: KeyModifier) -> (r: bool)
    ensures
        r == mods@.contains(wanted),
{
    let mut i: usize = 0;
    while i < mods.len()
        invariant
            i <= mods@.len(),
            forall|k: int| 0 <= k < i ==> mods@[k] != wanted,
        decreases mods@.len() - i,
    {
        if mods[i] == wanted {
            return true;
        }
        i += 1;
    }
    false
}

/// A key token that may stand in a compositor command.
pub open spec fn safe_key_token(key: Seq<char>) -> bool {
    key.len() > 0 && byte_len(key) <= 32 && all_alphanumeric(key)
}

pub fn is_safe_key_token(key: &str) -> (r: bool)
    ensures
        r == safe_key_token(key@),
{
    !key.is_empty() && byte_count(key) <= 32 && every_char(
        key,
        is_ascii_alphanumeric,
        Ghost(|c: char| ascii_alphanumeric(c)),
    )
}

/// The texts with `separator` between each two.
pub open spec fn joined(parts: Seq<Seq<char>>, separator: Seq<char>) -> Seq<char>
    decreases parts.len(),
{
    if parts.len() == 0 {
        Seq::empty()
    } else if parts.len() == 1 {
        parts[0]
    } else {
        joined(parts.drop_last(), separator) + separator + parts.last()
    }
}

/// A key with the modifiers that are held with it.
#[derive(Debug, PartialEq, Eq)]
pub struct KeyChord {
    mods: Vec<KeyModifier>,
    key: String,
}

pub struct KeyChordView {
    pub mods: Seq<KeyModifier>,
    pub key: Seq<char>,
}

impl View for KeyChord {
    type V = KeyChordView;

    closed spec fn view(&self) -> KeyChordView {
        KeyChordView { mods: self.mods@, key: self.key@ }
    }
}

impl KeyChord {
    pub fn new(mods: Vec<KeyModifier>, key: String) -> (r: Result<Self, DomainError>)
        ensures
            r is Ok <==> safe_key_token(key@),
            r matches Ok(chord) ==> chord@ == (KeyChordView {
                mods: ordered_modifiers(mods@),
                key: key@,
            }),
            r matches Err(error) ==> error == DomainError::InvalidKeyChord,
    {
        let mut ordered: Vec<KeyModifier> = Vec::new();
        if has_modifier(&mods, KeyModifier::Super) {
            ordered.push(KeyModifier::Super);
        }
        if has_modifier(&mods, KeyModifier::Ctrl) {
            ordered.push(KeyModifier::Ctrl);
        }
        if has_modifier(&mods, KeyModifier::Alt) {
            ordered.push(KeyModifier::Alt);
        }
        if has_modifier(&mods, KeyModifier::Shift) {
            ordered.push(KeyModifier::Shift);
        }
        assert(ordered@ =~= ordered_modifiers(mods@));
        let chord = KeyChord { mods: ordered, key };
        match chord.validate() {
            Ok(()) => Ok(chord),
            Err(error) => Err(error),
        }
    }

    /// A chord as it arrives from another computer, not checked.
    pub fn from_wire(mods: Vec<KeyModifier>, key: String) -> (r: Self)
        ensures
            r@ == (KeyChordView { mods: mods@, key: key@ }),
    {
        KeyChord { mods, key }
    }

    pub fn validate(&self) -> (r: Result<(), DomainError>)
        ensures
            r == checked(safe_key_token(self@.key), DomainError::InvalidKeyChord),
    {
        if is_safe_key_token(self.key.as_str()) {
            Ok(())
        } else {
            Err(DomainError::InvalidKeyChord)
        }
    }

    pub fn modifiers(&self) -> (r: &[KeyModifier])
        ensures
            r@ == self@.mods,
    {
        self.mods.as_slice()
    }

    pub fn key(&self) -> (r: &str)
        ensures
            r@ == self@.key,
    {
        self.key.as_str()
    }

    /// The names of the modifiers, separated by spaces.
    pub fn modifiers_hypr(&self) -> (r: String)
        ensures
            r@ == joined(self@.mods.map_values(|m: KeyModifier| m.spec_as_hypr()), " "@),
    {
        let mut out = String::new();
        let mut i: usize = 0;
        let ghost names = self@.mods.map_values(|m: KeyModifier| m.spec_as_hypr());
        while i < self.mods.len()
            invariant
                i <= self.mods@.len(),
                names == self.mods@.map_values(|m: KeyModifier| m.spec_as_hypr()),
                out@ == joined(names.take(i as int), " "@),
            decreases self.mods@.len() - i,
        {
            if i > 0 {
                out.append(" ");
            }
            out.append(self.mods[i].as_hypr());
            assert(names.take(i + 1).drop_last() =~= names.take(i as int));
            if i == 0 {
                assert(Seq::<char>::empty() + names[0] =~= names[0]);
            }
            i += 1;
        }
        assert(names.take(names.len() as int) =~= names);
        out
    }
}

impl Clone for KeyChord {
    fn clone(&self) -> (r: Self)
        ensures
            r@ == self@,
    {
        let mut mods: Vec<KeyModifier> = Vec::new();
        let mut i: usize = 0;
        while i < self.mods.len()
            invariant
                i <= self.mods@.len(),
                mods@ == self.mods@.take(i as int),
            decreases self.mods@.len() - i,
        {
            mods.push(self.mods[i]);
            assert(self.mods@.take(i + 1) =~= self.mods@.take(i as int).push(self.mods@[i as int]));
            i += 1;
        }
        assert(self.mods@.take(self.mods@.len() as int) =~= self.mods@);
        KeyChord { mods, key: self.key.clone() }
    }
}

/// The modifiers of a chord are named in their order and each once, whatever they were given as.
pub proof fn law_modifiers_are_ordered_and_distinct(mods: Seq<KeyModifier>)
    ensures
        forall|i: int, j: int|
            0 <= i < j < ordered_modifiers(mods).len() ==> (#[trigger] ordered_modifiers(
                mods,
            )[i]).rank() < (#[trigger] ordered_modifiers(mods)[j]).rank(),
        forall|m: KeyModifier| ordered_modifiers(mods).contains(m) <==> mods.contains(m),
{
    let r = ordered_modifiers(mods);
    assert forall|m: KeyModifier| r.contains(m) <==> mods.contains(m) by {
        if mods.contains(m) {
            let a = if mods.contains(KeyModifier::Super) { 1int } else { 0 };
            let b = if mods.contains(KeyModifier::Ctrl) { 1int } else { 0 };
            let c = if mods.contains(KeyModifier::Alt) { 1int } else { 0 };
            match m {
                KeyModifier::Super => {
                    assert(r[0] == m);
                },
                KeyModifier::Ctrl => {
                    assert(r[a] == m);
                },
                KeyModifier::Alt => {
                    assert(r[a + b] == m);
                },
                KeyModifier::Shift => {
                    assert(r[a + b + c] == m);
                },
            }
        }
        if r.contains(m) {
            let k = choose|k: int| 0 <= k < r.len() && r[k] == m;
            assert(r[k] == m);
        }
    }
}

/// A window address: `0x` and at least one hexadecimal digit, of at most thirty-four bytes.
pub open spec fn window_address(s: Seq<char>) -> bool {
    &&& byte_len(s) <= 34
    &&& s.len() > 2
    &&& s[0] == '0'
    &&& s[1] == 'x'
    &&& forall|i: int| 2 <= i < s.len() ==> hex_digit(#[trigger] s[i])
}

pub fn is_window_address(value: &str) -> (r: bool)
    ensures
        r == window_address(value@),
{
    if byte_count(value) > 34 {
        return false;
    }
    let v = chars_of(value);
    if v.len() <= 2 || v[0] != '0' || v[1] != 'x' {
        return false;
    }
    let mut i: usize = 2;
    while i < v.len()
        invariant
            v@ == value@,
            2 <= i <= v@.len(),
            forall|k: int| 2 <= k < i ==> hex_digit(#[trigger] value@[k]),
        decreases v@.len() - i,
    {
        if !is_hex_digit(v[i]) {
            assert(!hex_digit(value@[i as int]));
            return false;
        }
        i += 1;
    }
    true
}

/// The window that a command is meant for.
#[derive(Debug, PartialEq, Eq)]
pub enum WindowSelector {
    ActiveWindow,
    Class(String),
    Address(String),
}

pub enum WindowSelectorView {
    ActiveWindow,
    Class(Seq<char>),
    Address(Seq<char>),
}

impl View for WindowSelector {
    type V = WindowSelectorView;

    open spec fn view(&self) -> WindowSelectorView {
        match self {
            WindowSelector::ActiveWindow => WindowSelectorView::ActiveWindow,
            WindowSelector::Class(class) => WindowSelectorView::Class(class@),
            WindowSelector::Address(address) => WindowSelectorView::Address(address@),
        }
    }
}

impl WindowSelectorView {
    pub open spec fn valid(self) -> bool {
        match self {
            WindowSelectorView::ActiveWindow => true,
            WindowSelectorView::Class(class) => class.len() > 0 && all_safe_token_chars(class),
            WindowSelectorView::Address(address) => window_address(address),
        }
    }

    pub open spec fn as_hypr(self) -> Seq<char> {
        match self {
            WindowSelectorView::ActiveWindow => "activewindow"@,
            WindowSelectorView::Class(class) => "class:"@ + class,
            WindowSelectorView::Address(address) => "address:"@ + address,
        }
    }
}

impl WindowSelector {
    pub fn validate(&self) -> (r: Result<(), DomainError>)
        ensures
            r == checked(self@.valid(), DomainError::InvalidWindowSelector),
    {
        match self {
            WindowSelector::ActiveWindow => Ok(()),
            WindowSelector::Class(class) => {
                if !class.as_str().is_empty() && every_char(
                    class.as_str(),
                    is_safe_class_char,
                    Ghost(|c: char| safe_token_char(c)),
                ) {
                    Ok(())
                } else {
                    Err(DomainError::InvalidWindowSelector)
                }
            },
            WindowSelector::Address(address) => {
                if is_window_address(address.as_str()) {
                    Ok(())
                } else {
                    Err(DomainError::InvalidWindowSelector)
                }
            },
        }
    }

    pub fn as_hypr(&self) -> (r: String)
        ensures
            r@ == self@.as_hypr(),
    {
        match self {
            WindowSelector::ActiveWindow => "activewindow".to_owned(),
            WindowSelector::Class(class) => "class:".to_owned().concat(class.as_str()),
            WindowSelector::Address(address) => "address:".to_owned().concat(address.as_str()),
        }
    }
}

impl Clone for WindowSelector {
    fn clone(&self) -> (r: Self)
        ensures
            r == *self,
    {
        match self {
            WindowSelector::ActiveWindow => WindowSelector::ActiveWindow,
            WindowSelector::Class(class) => WindowSelector::Class(class.clone()),
            WindowSelector::Address(address) => WindowSelector::Address(address.clone()),
        }
    }
}

/// The address ranges that Tailscale assigns.
pub open spec fn tailscale_address(address: IpAddr) -> bool {
    match address {
        IpAddr::V4(a, b, _, _) => a == 100 && 64 <= b < 128,
        IpAddr::V6(a, b, c, _, _, _, _, _) => a == 0xfd7a && b == 0x115c && c == 0xa1e0,
    }
}

pub fn is_tailscale_address(address: IpAddr) -> (r: bool)
    ensures
        r == tailscale_address(address),
{
    match address {
        IpAddr::V4(a, b, _, _) => a == 100 && 64 <= b && b < 128,
        IpAddr::V6(a, b, c, _, _, _, _, _) => a == 0xfd7a && b == 0x115c && c == 0xa1e0,
    }
}

#[derive(Clone, Copy, Debug, PartialEq, Eq, Structural)]
pub enum SessionRole {
    Controller,
    Remote,
}

#[derive(Clone, Copy, Debug, PartialEq, Eq, Structural)]
pub struct SessionEndpoint {
    pub address: IpAddr,
    pub port: u16,
}

impl SessionEndpoint {
    pub fn validate(&self) -> (r: Result<(), DomainError>)
        ensures
            r == checked(self.port != 0, DomainError::InvalidSessionEndpoint),
    {
        if self.port == 0 {
            Err(DomainError::InvalidSessionEndpoint)
        } else {
            Ok(())
        }
    }
}

/// What a controller holds of a session: its identifier, and which attachment of it.
#[derive(Clone, Copy, Debug, PartialEq, Eq, Structural)]
pub struct SessionClaim {
    pub id: SessionId,
    pub generation: u64,
}

#[derive(Clone, Copy, Debug, PartialEq, Eq, Structural)]
pub struct SessionGrant {
    pub id: SessionId,
    pub generation: u64,
    pub lease_seconds: u64,
}

impl SessionGrant {
    pub open spec fn spec_claim(self) -> SessionClaim {
        SessionClaim { id: self.id, generation: self.generation }
    }

    pub fn claim(&self) -> (r: SessionClaim)
        ensures
            r == self.spec_claim(),
    {
        SessionClaim { id: self.id, generation: self.generation }
    }
}

/// What a controller may be allowed to do.
#[derive(Clone, Copy, Debug, PartialEq, Eq, PartialOrd, Ord, Hash, Structural)]
pub enum ControlCapability {
    ReadMetadata,
    FocusWorkspace,
    ControlSession,
    SendShortcut,
    CloseStream,
    ApprovePairing,
}

impl ControlCapability {
    pub const ALL: [ControlCapability; 6] = [
        ControlCapability::ReadMetadata,
        ControlCapability::FocusWorkspace,
        ControlCapability::ControlSession,
        ControlCapability::SendShortcut,
        ControlCapability::CloseStream,
        ControlCapability::ApprovePairing,
    ];

    pub const CALLBACK: [ControlCapability; 2] = [
        ControlCapability::SendShortcut,
        ControlCapability::CloseStream,
    ];

    pub open spec fn spec_as_str(self) -> Seq<char> {
        match self {
            ControlCapability::ReadMetadata => "read_metadata"@,
            ControlCapability::FocusWorkspace => "focus_workspace"@,
            ControlCapability::ControlSession => "control_session"@,
            ControlCapability::SendShortcut => "send_shortcut"@,
            ControlCapability::CloseStream => "close_stream"@,
            ControlCapability::ApprovePairing => "approve_pairing"@,
        }
    }

    pub fn as_str(self) -> (r: &'static str)
        ensures
            r@ == self.spec_as_str(),
    {
        match self {
            ControlCapability::ReadMetadata => "read_metadata",
            ControlCapability::FocusWorkspace => "focus_workspace",
            ControlCapability::ControlSession => "control_session",
            ControlCapability::SendShortcut => "send_shortcut",
            ControlCapability::CloseStream => "close_stream",
            ControlCapability::ApprovePairing => "approve_pairing",
        }
    }

    /// The capability of that name.
    pub fn from_str(value: &str) -> (r: Result<ControlCapability, DomainError>)
        ensures
            r is Ok <==> exists|c: ControlCapability| value@ == #[trigger] c.spec_as_str(),
            r matches Ok(c) ==> c.spec_as_str() == value@,
            r matches Err(error) ==> error == DomainError::UnknownCapability,
    {
        if same_text(value, "read_metadata") {
            assert(value@ == ControlCapability::ReadMetadata.spec_as_str());
            return Ok(ControlCapability::ReadMetadata);
        }
        if same_text(value, "focus_workspace") {
            assert(value@ == ControlCapability::FocusWorkspace.spec_as_str());
            return Ok(ControlCapability::FocusWorkspace);
        }
        if same_text(value, "control_session") {
            assert(value@ == ControlCapability::ControlSession.spec_as_str());
            return Ok(ControlCapability::ControlSession);
        }
        if same_text(value, "send_shortcut") {
            assert(value@ == ControlCapability::SendShortcut.spec_as_str());
            return Ok(ControlCapability::SendShortcut);
        }
        if same_text(value, "close_stream") {
            assert(value@ == ControlCapability::CloseStream.spec_as_str());
            return Ok(ControlCapability::CloseStream);
        }
        if same_text(value, "approve_pairing") {
            assert(value@ == ControlCapability::ApprovePairing.spec_as_str());
            return Ok(ControlCapability::ApprovePairing);
        }
        Err(DomainError::UnknownCapability)
    }
}

/// Different capabilities have different names, so a name is read back as what was written.
pub proof fn law_capability_names_are_distinct(a: ControlCapability, b: ControlCapability)
    ensures
        a.spec_as_str() == b.spec_as_str() ==> a == b,
{
    reveal_strlit("read_metadata");
    reveal_strlit("focus_workspace");
    reveal_strlit("control_session");
    reveal_strlit("send_shortcut");
    reveal_strlit("close_stream");
    reveal_strlit("approve_pairing");
    assert("read_metadata"@[0] == 'r');
    assert("focus_workspace"@[0] == 'f');
    assert("control_session"@[1] == 'o');
    assert("send_shortcut"@[0] == 's');
    assert("close_stream"@[1] == 'l');
    assert("approve_pairing"@[0] == 'a');
}

/// A command from one computer of a session to the other.
#[derive(Debug, PartialEq, Eq)]
#[allow(inconsistent_fields)]
pub enum RemoteCommand {
    SendShortcut { chord: KeyChord, window: WindowSelector },
    CloseWindow { window: WindowSelector },
    SwitchStreamDisplay { display: DisplayId },
    AttachSession {
        role: SessionRole,
        controller: Option<SessionEndpoint>,
        window: Option<WindowSelector>,
    },
    DetachSession,
    RenewSession,
}

#[allow(inconsistent_fields)]
pub enum RemoteCommandView {
    SendShortcut { chord: KeyChordView, window: WindowSelectorView },
    CloseWindow { window: WindowSelectorView },
    SwitchStreamDisplay { display: Seq<char> },
    AttachSession {
        role: SessionRole,
        controller: Option<SessionEndpoint>,
        window: Option<WindowSelectorView>,
    },
    DetachSession,
    RenewSession,
}

pub open spec fn opt_selector(window: Option<WindowSelector>) -> Option<WindowSelectorView> {
    match window {
        Some(window) => Some(window@),
        None => None,
    }
}

impl View for RemoteCommand {
    type V = RemoteCommandView;

    open spec fn view(&self) -> RemoteCommandView {
        match self {
            RemoteCommand::SendShortcut { chord, window } => RemoteCommandView::SendShortcut {
                chord: chord@,
                window: window@,
            },
            RemoteCommand::CloseWindow { window } => RemoteCommandView::CloseWindow { window: window@ },
            RemoteCommand::SwitchStreamDisplay { display } =>
                RemoteCommandView::SwitchStreamDisplay { display: display@ },
            RemoteCommand::AttachSession { role, controller, window } =>
                RemoteCommandView::AttachSession {
                role: *role,
                controller: *controller,
                window: opt_selector(*window),
            },
            RemoteCommand::DetachSession => RemoteCommandView::DetachSession,
            RemoteCommand::RenewSession => RemoteCommandView::RenewSession,
        }
    }
}

impl RemoteCommandView {
    pub open spec fn kind(self) -> Seq<char> {
        match self {
            RemoteCommandView::SendShortcut { .. } => "send_shortcut"@,
            RemoteCommandView::CloseWindow { .. } => "close_window"@,
            RemoteCommandView::SwitchStreamDisplay { .. } => "switch_stream_display"@,
            RemoteCommandView::AttachSession { .. } => "attach_session"@,
            RemoteCommandView::DetachSession => "detach_session"@,
            RemoteCommandView::RenewSession => "renew_session"@,
        }
    }

    /// Whether the command may be carried out, or what it is refused for.
    pub open spec fn validated(self) -> Result<(), DomainError> {
        match self {
            RemoteCommandView::SendShortcut { chord, window } => if !safe_key_token(chord.key) {
                Err(DomainError::InvalidKeyChord)
            } else {
                checked(window.valid(), DomainError::InvalidWindowSelector)
            },
            RemoteCommandView::CloseWindow { window } => checked(
                window.valid(),
                DomainError::InvalidWindowSelector,
            ),
            RemoteCommandView::SwitchStreamDisplay { display } => checked(
                valid_display_id(display),
                DomainError::InvalidDisplayId,
            ),
            RemoteCommandView::AttachSession { role, controller, window } => if window is Some
                && !window->0.valid() {
                Err(DomainError::InvalidWindowSelector)
            } else {
                checked(
                    role == SessionRole::Remote ==> controller is Some && controller->0.port != 0,
                    DomainError::InvalidSessionEndpoint,
                )
            },
            RemoteCommandView::DetachSession => Ok(()),
            RemoteCommandView::RenewSession => Ok(()),
        }
    }

    pub open spec fn is_session_control(self) -> bool {
        self is AttachSession || self is DetachSession || self is RenewSession
    }

    pub open spec fn required_capability(self) -> ControlCapability {
        match self {
            RemoteCommandView::SendShortcut { .. } => ControlCapability::SendShortcut,
            RemoteCommandView::SwitchStreamDisplay { .. } => ControlCapability::SendShortcut,
            RemoteCommandView::CloseWindow { .. } => ControlCapability::CloseStream,
            _ => ControlCapability::ControlSession,
        }
    }
}

impl RemoteCommand {
    pub fn kind(&self) -> (r: &'static str)
        ensures
            r@ == self@.kind(),
    {
        match self {
            RemoteCommand::SendShortcut { .. } => "send_shortcut",
            RemoteCommand::CloseWindow { .. } => "close_window",
            RemoteCommand::SwitchStreamDisplay { .. } => "switch_stream_display",
            RemoteCommand::AttachSession { .. } => "attach_session",
            RemoteCommand::DetachSession => "detach_session",
            RemoteCommand::RenewSession => "renew_session",
        }
    }

    pub fn validate(&self) -> (r: Result<(), DomainError>)
        ensures
            r == self@.validated(),
    {
        match self {
            RemoteCommand::SendShortcut { chord, window } => {
                match chord.validate() {
                    Ok(()) => window.validate(),
                    Err(error) => Err(error),
                }
            },
            RemoteCommand::CloseWindow { window } => window.validate(),
            RemoteCommand::SwitchStreamDisplay { display } => display.validate(),
            RemoteCommand::AttachSession { role, controller, window } => {
                if let Some(window) = window {
                    match window.validate() {
                        Ok(()) => {},
                        Err(error) => {
                            return Err(error);
                        },
                    }
                }
                match role {
                    SessionRole::Remote => {
                        match controller {
                            Some(endpoint) => endpoint.validate(),
                            None => Err(DomainError::InvalidSessionEndpoint),
                        }
                    },
                    SessionRole::Controller => Ok(()),
                }
            },
            RemoteCommand::DetachSession => Ok(()),
            RemoteCommand::RenewSession => Ok(()),
        }
    }

    pub fn is_session_control(&self) -> (r: bool)
        ensures
            r == self@.is_session_control(),
    {
        match self {
            RemoteCommand::AttachSession { .. } => true,
            RemoteCommand::DetachSession => true,
            RemoteCommand::RenewSession => true,
            _ => false,
        }
    }

    pub fn required_capability(&self) -> (r: ControlCapability)
        ensures
            r == self@.required_capability(),
    {
        match self {
            RemoteCommand::SendShortcut { .. } => ControlCapability::SendShortcut,
            RemoteCommand::SwitchStreamDisplay { .. } => ControlCapability::SendShortcut,
            RemoteCommand::CloseWindow { .. } => ControlCapability::CloseStream,
            RemoteCommand::AttachSession { .. } => ControlCapability::ControlSession,
            RemoteCommand::DetachSession => ControlCapability::ControlSession,
            RemoteCommand::RenewSession => ControlCapability::ControlSession,
        }
    }
}

/// What a valid command puts into a compositor command: the key, the class and the monitor name
/// hold only letters, digits, `-`, `_` and `.`.
pub proof fn law_valid_commands_hold_only_safe_tokens(command: RemoteCommandView)
    requires
        command.validated() is Ok,
    ensures
        match command {
            RemoteCommandView::SendShortcut { chord, window } => all_alphanumeric(chord.key)
                && selector_is_safe(window),
            RemoteCommandView::CloseWindow { window } => selector_is_safe(window),
            RemoteCommandView::SwitchStreamDisplay { display } => all_safe_token_chars(display),
            RemoteCommandView::AttachSession { window: Some(window), .. } => selector_is_safe(window),
            _ => true,
        },
{
}

pub open spec fn selector_is_safe(window: WindowSelectorView) -> bool {
    match window {
        WindowSelectorView::ActiveWindow => true,
        WindowSelectorView::Class(class) => all_safe_token_chars(class),
        WindowSelectorView::Address(address) => all_safe_token_chars(address),
    }
}

#[derive(Clone, Copy, Debug, PartialEq, Eq, Structural)]
pub enum CodecPreference {
    Auto,
    H264,
    Hevc,
    Av1,
}

/// How a stream is encoded.
#[derive(Clone, Copy, Debug, PartialEq, Eq, Structural)]
pub struct StreamProfile {
    pub width: u32,
    pub height: u32,
    pub fps: u16,
    pub codec_preference: CodecPreference,
    pub audio: bool,
    pub bitrate_kbps: Option<u32>,
}

pub const MIN_STREAM_WIDTH: u32 = 320;

pub const MAX_STREAM_WIDTH: u32 = 7680;

pub const MIN_STREAM_HEIGHT: u32 = 240;

pub const MAX_STREAM_HEIGHT: u32 = 4320;

pub const MIN_STREAM_FPS: u16 = 15;

pub const MAX_STREAM_FPS: u16 = 480;

pub const MIN_STREAM_BITRATE_KBPS: u32 = 500;

pub const MAX_STREAM_BITRATE_KBPS: u32 = 500_000;

impl StreamProfile {
    pub open spec fn valid(self) -> bool {
        &&& MIN_STREAM_WIDTH <= self.width <= MAX_STREAM_WIDTH
        &&& MIN_STREAM_HEIGHT <= self.height <= MAX_STREAM_HEIGHT
        &&& MIN_STREAM_FPS <= self.fps <= MAX_STREAM_FPS
        &&& self.bitrate_kbps matches Some(kbps) ==> MIN_STREAM_BITRATE_KBPS <= kbps
            <= MAX_STREAM_BITRATE_KBPS
    }

    pub fn validate(&self) -> (r: Result<(), DomainError>)
        ensures
            r == checked(self.valid(), DomainError::InvalidStreamProfile),
    {
        let bitrate = match self.bitrate_kbps {
            Some(kbps) => MIN_STREAM_BITRATE_KBPS <= kbps && kbps <= MAX_STREAM_BITRATE_KBPS,
            None => true,
        };
        if MIN_STREAM_WIDTH <= self.width && self.width <= MAX_STREAM_WIDTH && MIN_STREAM_HEIGHT
            <= self.height && self.height <= MAX_STREAM_HEIGHT && MIN_STREAM_FPS <= self.fps
            && self.fps <= MAX_STREAM_FPS && bitrate {
            Ok(())
        } else {
            Err(DomainError::InvalidStreamProfile)
        }
    }

    pub open spec fn spec_default() -> StreamProfile {
        StreamProfile {
            width: 1920,
            height: 1080,
            fps: 60,
            codec_preference: CodecPreference::Auto,
            audio: true,
            bitrate_kbps: None,
        }
    }
}

impl Default for StreamProfile {
    fn default() -> (r: Self)
        ensures
            r == StreamProfile::spec_default(),
            r.valid(),
    {
        StreamProfile {
            width: 1920,
            height: 1080,
            fps: 60,
            codec_preference: CodecPreference::Auto,
            audio: true,
            bitrate_kbps: None,
        }
    }
}

/// The bitrate in kilobits for one in megabits, where a stream profile may have it.
pub fn bitrate_kbps_from_mbps(mbps: u32) -> (r: Result<u32, DomainError>)
    ensures
        if MIN_STREAM_BITRATE_KBPS <= mbps * 1000 <= MAX_STREAM_BITRATE_KBPS {
            r == Ok::<u32, DomainError>((mbps * 1000) as u32)
        } else {
            r == Err::<u32, DomainError>(DomainError::InvalidStreamProfile)
        },
{
    match mbps.checked_mul(1000) {
        Some(kbps) => {
            if MIN_STREAM_BITRATE_KBPS <= kbps && kbps <= MAX_STREAM_BITRATE_KBPS {
                Ok(kbps)
            } else {
                Err(DomainError::InvalidStreamProfile)
            }
        },
        None => Err(DomainError::InvalidStreamProfile),
    }
}

#[derive(Clone, Copy, Debug, PartialEq, Eq, Structural)]
pub enum InputMode {
    Local,
    Remote,
}

/// The address to use is one of the machine's own, and there is one wherever it has any.
pub proof fn law_the_preferred_address_is_one_of_them(addresses: Seq<IpAddr>)
    ensures
        preferred_address(addresses) is Some <==> addresses.len() > 0,
        preferred_address(addresses) matches Some(address) ==> addresses.contains(address),
{
    if exists|i: int| 0 <= i < addresses.len() && (#[trigger] addresses[i]).spec_is_ipv4() {
        let i = choose|i: int| 0 <= i < addresses.len() && (#[trigger] addresses[i]).spec_is_ipv4();
        lemma_first_ipv4(addresses, i);
        assert(addresses.contains(addresses[first_ipv4(addresses)]));
    } else if addresses.len() > 0 {
        assert(addresses.contains(addresses[0]));
    }
}

proof fn lemma_first_ipv4(addresses: Seq<IpAddr>, i: int)
    requires
        0 <= i < addresses.len(),
        addresses[i].spec_is_ipv4(),
    ensures
        0 <= first_ipv4(addresses) <= i,
        addresses[first_ipv4(addresses)].spec_is_ipv4(),
        forall|k: int| 0 <= k < first_ipv4(addresses) ==> !(#[trigger] addresses[k]).spec_is_ipv4(),
    decreases i,
{
    if exists|k: int| 0 <= k < i && (#[trigger] addresses[k]).spec_is_ipv4() {
        let k = choose|k: int| 0 <= k < i && (#[trigger] addresses[k]).spec_is_ipv4();
        lemma_first_ipv4(addresses, k);
    }
}

/// The first address of the fourth version is used, however many others stand before it; without
/// one, the first of all.
pub proof fn law_the_first_ipv4_address_is_used(addresses: Vec<IpAddr>, i: int, r: Option<IpAddr>)
    requires
        call_ensures(choose_address, (&addresses,), r),
        0 <= i < addresses@.len(),
        forall|k: int| 0 <= k < i ==> (#[trigger] addresses@[k]) is V6,
    ensures
        addresses@[i] is V4 ==> r == Some(addresses@[i]),
        i == addresses@.len() - 1 && addresses@[i] is V6 ==> r == Some(addresses@[0]),
{
    if addresses@[i] is V4 {
        let f = first_ipv4(addresses@);
        assert(addresses@[i].spec_is_ipv4());
        assert(addresses@[f].spec_is_ipv4());
        assert(f == i);
    }
}

/// The monitor that has the focus is the one to show; without one, the first of the desktop. It is
/// switched to exactly when another one is shown.
pub proof fn law_the_stream_shows_the_focused_monitor(
    topology: RemoteDesktopTopology,
    streamed: DisplayId,
    r: Option<DisplayId>,
)
    requires
        call_ensures(follow_focus_target, (&topology, &streamed), r),
    ensures
        topology@.focused matches Some(focused) ==> {
            &&& r is Some <==> focused != streamed@
            &&& r matches Some(target) ==> target@ == focused
        },
        topology@.focused is None && topology@.displays.len() > 0 ==> {
            &&& r is Some <==> topology@.displays[0] != streamed@
            &&& r matches Some(target) ==> target@ == topology@.displays[0]
        },
        topology@.focused is None && topology@.displays.len() == 0 ==> r is None,
{
}

/// The desktop of a list of monitors has them all, in their order, and its focus is on the first of
/// them that says so.
pub proof fn law_the_focus_is_on_a_monitor_that_says_so(
    displays: &[Display],
    i: int,
    r: RemoteDesktopTopology,
)
    requires
        call_ensures(RemoteDesktopTopology::from_displays, (displays,), r),
        0 <= i <= displays@.len(),
        forall|k: int| 0 <= k < i ==> !(#[trigger] displays@[k]).focused,
    ensures
        i < displays@.len() && displays@[i].focused ==> r@.focused == Some(displays@[i].id@),
        i == displays@.len() ==> r@.focused is None,
        r@.displays.len() == displays@.len(),
        forall|k: int| 0 <= k < displays@.len() ==> #[trigger] r@.displays[k] == displays@[k].id@,
{
    let all = display_views(displays@);
    assert forall|k: int| 0 <= k < i implies !(#[trigger] all[k]).focused by {
        assert(all[k] == displays@[k]@);
    }
    lemma_first_focused(all, i);
    assert forall|k: int| 0 <= k < displays@.len() implies #[trigger] r@.displays[k]
        == displays@[k].id@ by {
        assert(all[k] == displays@[k]@);
    }
    if i < displays@.len() {
        assert(all[i] == displays@[i]@);
    }
}

proof fn lemma_first_focused(displays: Seq<DisplayView>, i: int)
    requires
        0 <= i <= displays.len(),
        forall|k: int| 0 <= k < i ==> !(#[trigger] displays[k]).focused,
    ensures
        i < displays.len() && displays[i].focused ==> first_focused(displays) == Some(displays[i].id),
        i == displays.len() ==> first_focused(displays) is None,
    decreases i,
{
    if i > 0 {
        let rest = displays.drop_first();
        assert forall|k: int| 0 <= k < i - 1 implies !(#[trigger] rest[k]).focused by {
            assert(rest[k] == displays[k + 1]);
        }
        lemma_first_focused(rest, i - 1);
        assert(!displays[0].focused);
        if i < displays.len() {
            assert(rest[i - 1] == displays[i]);
        }
    }
}

/// What may stand in a compositor command is short and plain: a key of at most thirty-two letters
/// and digits, a monitor name of at most sixty-four bytes.
pub proof fn law_names_in_commands_are_short_and_plain(
    key: &str,
    as_key: bool,
    display: DisplayId,
    as_display: Result<(), DomainError>,
)
    requires
        call_ensures(is_safe_key_token, (key,), as_key),
        call_ensures(DisplayId::validate, (&display,), as_display),
    ensures
        as_key <==> {
            &&& 1 <= key@.len()
            &&& byte_len(key@) <= 32
            &&& forall|i: int|
                0 <= i < key@.len() ==> {
                    let c = #[trigger] key@[i];
                    ('a' <= c && c <= 'z') || ('A' <= c && c <= 'Z') || ('0' <= c && c <= '9')
                }
        },
        as_display is Ok <==> {
            &&& 1 <= display@.len()
            &&& byte_len(display@) <= 64
            &&& forall|i: int|
                0 <= i < display@.len() ==> {
                    let c = #[trigger] display@[i];
                    ('a' <= c && c <= 'z') || ('A' <= c && c <= 'Z') || ('0' <= c && c <= '9') || c
                        == '-' || c == '_' || c == '.'
                }
        },
        as_display matches Err(error) ==> error == DomainError::InvalidDisplayId,
{
}

/// A window is chosen as the active one, by a class of plain characters, or by an address of `0x` and
/// hexadecimal digits, and is named to the compositor by which of these it is.
pub proof fn law_windows_are_chosen_by_class_or_address(
    window: WindowSelector,
    valid: Result<(), DomainError>,
    named: String,
)
    requires
        call_ensures(WindowSelector::validate, (&window,), valid),
        call_ensures(WindowSelector::as_hypr, (&window,), named),
    ensures
        window is ActiveWindow ==> valid is Ok && named@ == "activewindow"@,
        window matches WindowSelector::Class(class) ==> {
            &&& named@ == "class:"@ + class@
            &&& class@.len() == 0 ==> valid is Err
            &&& valid is Ok <==> class@.len() > 0 && forall|i: int|
                0 <= i < class@.len() ==> {
                    let c = #[trigger] class@[i];
                    ('a' <= c && c <= 'z') || ('A' <= c && c <= 'Z') || ('0' <= c && c <= '9') || c
                        == '-' || c == '_' || c == '.'
                }
        },
        window matches WindowSelector::Address(address) ==> {
            &&& named@ == "address:"@ + address@
            &&& valid is Ok <==> byte_len(address@) <= 34 && address@.len() > 2 && address@[0] == '0'
                && address@[1] == 'x' && forall|i: int|
                2 <= i < address@.len() ==> {
                    let c = #[trigger] address@[i];
                    ('0' <= c && c <= '9') || ('a' <= c && c <= 'f') || ('A' <= c && c <= 'F')
                }
        },
        valid matches Err(error) ==> error == DomainError::InvalidWindowSelector,
{
}

/// A command is refused for the first thing in it that may not be carried out, and for nothing else.
pub proof fn law_commands_are_refused_for_what_they_hold(
    command: RemoteCommand,
    r: Result<(), DomainError>,
)
    requires
        call_ensures(RemoteCommand::validate, (&command,), r),
    ensures
        command matches RemoteCommand::SendShortcut { chord, window } ==> {
            &&& r is Ok <==> safe_key_token(chord@.key) && window@.valid()
            &&& !safe_key_token(chord@.key) ==> r == Err::<(), DomainError>(
                DomainError::InvalidKeyChord,
            )
            &&& safe_key_token(chord@.key) && !window@.valid() ==> r == Err::<(), DomainError>(
                DomainError::InvalidWindowSelector,
            )
        },
        command matches RemoteCommand::CloseWindow { window } ==> {
            &&& r is Ok <==> window@.valid()
            &&& !window@.valid() ==> r == Err::<(), DomainError>(DomainError::InvalidWindowSelector)
        },
        command matches RemoteCommand::SwitchStreamDisplay { display } ==> {
            &&& r is Ok <==> valid_display_id(display@)
            &&& !valid_display_id(display@) ==> r == Err::<(), DomainError>(
                DomainError::InvalidDisplayId,
            )
        },
        command matches RemoteCommand::AttachSession { role, controller, window } ==> {
            let fits = window matches Some(window) ==> window@.valid();
            &&& !fits ==> r == Err::<(), DomainError>(DomainError::InvalidWindowSelector)
            &&& fits && role == SessionRole::Controller ==> r is Ok
            &&& fits && role == SessionRole::Remote && (controller matches Some(endpoint)
                && endpoint.port > 0) ==> r is Ok
            &&& fits && role == SessionRole::Remote && !(controller matches Some(endpoint)
                && endpoint.port > 0) ==> r == Err::<(), DomainError>(
                DomainError::InvalidSessionEndpoint,
            )
        },
        command is DetachSession || command is RenewSession ==> r is Ok,
{
}

/// A command has one name, needs one capability, and is about the session or about the desktop.
pub proof fn law_commands_have_a_name_and_a_capability(
    command: RemoteCommand,
    kind: &'static str,
    needs: ControlCapability,
    session: bool,
)
    requires
        call_ensures(RemoteCommand::kind, (&command,), kind),
        call_ensures(RemoteCommand::required_capability, (&command,), needs),
        call_ensures(RemoteCommand::is_session_control, (&command,), session),
    ensures
        command is SendShortcut ==> kind@ == "send_shortcut"@ && needs
            == ControlCapability::SendShortcut && !session,
        command is CloseWindow ==> kind@ == "close_window"@ && needs == ControlCapability::CloseStream
            && !session,
        command is SwitchStreamDisplay ==> kind@ == "switch_stream_display"@ && needs
            == ControlCapability::SendShortcut && !session,
        command is AttachSession ==> kind@ == "attach_session"@ && needs
            == ControlCapability::ControlSession && session,
        command is DetachSession ==> kind@ == "detach_session"@ && needs
            == ControlCapability::ControlSession && session,
        command is RenewSession ==> kind@ == "renew_session"@ && needs
            == ControlCapability::ControlSession && session,
{
}

/// A capability is read back from its name, and the names are these.
pub proof fn law_capabilities_are_read_back(
    capability: ControlCapability,
    name: &'static str,
    r: Result<ControlCapability, DomainError>,
)
    requires
        call_ensures(ControlCapability::as_str, (capability,), name),
        call_ensures(ControlCapability::from_str, (name,), r),
    ensures
        r == Ok::<ControlCapability, DomainError>(capability),
        capability == ControlCapability::ReadMetadata ==> name@ == "read_metadata"@,
        capability == ControlCapability::FocusWorkspace ==> name@ == "focus_workspace"@,
        capability == ControlCapability::ControlSession ==> name@ == "control_session"@,
        capability == ControlCapability::SendShortcut ==> name@ == "send_shortcut"@,
        capability == ControlCapability::CloseStream ==> name@ == "close_stream"@,
        capability == ControlCapability::ApprovePairing ==> name@ == "approve_pairing"@,
{
    assert(name@ == capability.spec_as_str());
    if let Ok(c) = r {
        law_capability_names_are_distinct(capability, c);
    }
}

/// Tailscale's addresses are those of 100.64.0.0/10 and of fd7a:115c:a1e0::/48.
pub proof fn law_tailscale_has_two_ranges(address: IpAddr, r: bool)
    requires
        call_ensures(is_tailscale_address, (address,), r),
    ensures
        address matches IpAddr::V4(a, b, c, d) ==> (r <==> a == 100 && b / 64 == 1),
        address matches IpAddr::V6(a, b, c, d, e, f, g, h) ==> (r <==> a == 0xfd7a && b == 0x115c && c
            == 0xa1e0),
{
}

/// A stream is between 320 by 240 and 7680 by 4320, of 15 to 480 frames a second and, where a bitrate
/// is asked for, of half to five hundred megabits.
pub proof fn law_streams_are_within_bounds(profile: StreamProfile, r: Result<(), DomainError>)
    requires
        call_ensures(StreamProfile::validate, (&profile,), r),
    ensures
        r is Ok <==> {
            &&& 320 <= profile.width <= 7680
            &&& 240 <= profile.height <= 4320
            &&& 15 <= profile.fps <= 480
            &&& profile.bitrate_kbps matches Some(kbps) ==> 500 <= kbps <= 500_000
        },
        r matches Err(error) ==> error == DomainError::InvalidStreamProfile,
{
}

/// A bitrate in megabits is kept from one to five hundred, a thousand kilobits each.
pub proof fn law_a_megabit_is_a_thousand_kilobits(mbps: u32, r: Result<u32, DomainError>)
    requires
        call_ensures(bitrate_kbps_from_mbps, (mbps,), r),
    ensures
        1 <= mbps <= 500 ==> (r matches Ok(kbps) && kbps == 1000 * mbps),
        !(1 <= mbps <= 500) ==> r == Err::<u32, DomainError>(DomainError::InvalidStreamProfile),
{
}

/// What is refused is said in words of its own.
pub proof fn law_refusals_are_said_in_words(error: DomainError, r: &'static str)
    requires
        call_ensures(DomainError::message, (&error,), r),
    ensures
        error == DomainError::InvalidKeyChord ==> r@
            == "key chord key must be a short ASCII-alphanumeric token"@,
        error == DomainError::InvalidWindowSelector ==> r@
            == "window selector is not a safe class token"@,
        error == DomainError::InvalidSessionEndpoint ==> r@
            == "session endpoint requires a controller address and non-zero port"@,
        error == DomainError::InvalidDisplayId ==> r@
            == "display identifier is not a safe monitor token"@,
        error == DomainError::InvalidStreamProfile ==> r@
            == "stream profile is outside the supported resolution, frame rate or bitrate range"@,
        error == DomainError::UnknownCapability ==> r@ == "unknown control capability"@,
{
}

/// Modifiers are named to the compositor in capitals, and a chord names them with a space between
/// each two, in the order super, control, alt, shift.
pub proof fn law_modifiers_are_named_in_capitals(modifier: KeyModifier, r: &'static str)
    requires
        call_ensures(KeyModifier::as_hypr, (modifier,), r),
    ensures
        modifier == KeyModifier::Super ==> r@ == "SUPER"@ && modifier.rank() == 0,
        modifier == KeyModifier::Ctrl ==> r@ == "CTRL"@ && modifier.rank() == 1,
        modifier == KeyModifier::Alt ==> r@ == "ALT"@ && modifier.rank() == 2,
        modifier == KeyModifier::Shift ==> r@ == "SHIFT"@ && modifier.rank() == 3,
{
}

/// A chord keeps its key and names each modifier once, in order; only a plain short key makes one.
pub proof fn law_a_chord_is_made_of_a_plain_key(
    mods: Vec<KeyModifier>,
    key: String,
    r: Result<KeyChord, DomainError>,
)
    requires
        call_ensures(KeyChord::new, (mods, key), r),
    ensures
        r is Ok <==> safe_key_token(key@),
        r matches Ok(chord) ==> {
            &&& chord@.key == key@
            &&& forall|m: KeyModifier| chord@.mods.contains(m) <==> mods@.contains(m)
            &&& forall|i: int, j: int|
                0 <= i < j < chord@.mods.len() ==> (#[trigger] chord@.mods[i]).rank() < (
                #[trigger] chord@.mods[j]).rank()
        },
{
    law_modifiers_are_ordered_and_distinct(mods@);
}

/// Joining puts the separator between each two texts and nowhere else: one text is left as it is, and
/// each further one adds the separator and itself.
pub proof fn law_a_separator_stands_between_texts(
    parts: Seq<Seq<char>>,
    next: Seq<char>,
    separator: Seq<char>,
)
    ensures
        joined(seq![next], separator) == next,
        parts.len() > 0 ==> joined(parts.push(next), separator) == joined(parts, separator) + separator
            + next,
        joined(Seq::empty(), separator).len() == 0,
{
    if parts.len() > 0 {
        assert(parts.push(next).drop_last() =~= parts);
    }
}

/// The names that a node advertises are each there once, whatever they were given as, and asking for
/// one finds exactly those that were given.
pub proof fn law_advertised_names_are_found(
    given: Vec<String>,
    capabilities: NodeCapabilities,
    name: &str,
    r: bool,
)
    requires
        call_ensures(NodeCapabilities::new, (given,), capabilities),
        call_ensures(NodeCapabilities::contains, (&capabilities, name), r),
    ensures
        r <==> exists|i: int| 0 <= i < given@.len() && (#[trigger] given@[i])@ == name@,
        forall|i: int, j: int|
            0 <= i < j < capabilities@.len() ==> #[trigger] capabilities@[i]
                != #[trigger] capabilities@[j],
{
    let all = texts(given@);
    if r {
        let k = choose|k: int| 0 <= k < all.len() && all[k] == name@;
        assert(given@[k]@ == name@);
    }
    if exists|i: int| 0 <= i < given@.len() && (#[trigger] given@[i])@ == name@ {
        let k = choose|i: int| 0 <= i < given@.len() && (#[trigger] given@[i])@ == name@;
        assert(all[k] == name@);
    }
    assert forall|i: int, j: int| 0 <= i < j < capabilities@.len() implies #[trigger] capabilities@[i]
        != #[trigger] capabilities@[j] by {
        crate::order::lemma_text_order();
    }
}

/// A claim is that of the grant: its session and its attachment.
pub proof fn law_a_claim_is_of_its_grant(grant: SessionGrant, r: SessionClaim)
    requires
        call_ensures(SessionGrant::claim, (&grant,), r),
    ensures
        r.id == grant.id,
        r.generation == grant.generation,
{
}

/// A window's address is `0x` and up to 32 hexadecimal digits, at least one.
pub proof fn law_a_window_address_is_hexadecimal(value: &str, r: bool)
    requires
        call_ensures(is_window_address, (value,), r),
    ensures
        r ==> value@.len() >= 3 && value@[0] == '0' && value@[1] == 'x' && byte_len(value@) <= 34,
        r ==> forall|i: int|
            2 <= i < value@.len() ==> ('0' <= #[trigger] value@[i] <= '9') || ('a' <= value@[i] <= 'f') || (
            'A' <= value@[i] <= 'F'),
        value@.len() >= 3 && value@[0] == '0' && value@[1] == 'x' && byte_len(value@) <= 34 && (forall|i: int|
            2 <= i < value@.len() ==> ('0' <= #[trigger] value@[i] <= '9') || ('a' <= value@[i] <= 'f') || (
            'A' <= value@[i] <= 'F')) ==> r,
{
}

/// A name in a command may hold letters and digits of ASCII, dots, underscores and hyphens.
pub proof fn law_plain_characters_are_letters_digits_and_three_signs(c: char, r: bool)
    requires
        call_ensures(is_safe_class_char, (c,), r),
    ensures
        r <==> ('a' <= c <= 'z') || ('A' <= c <= 'Z') || ('0' <= c <= '9') || c == '.' || c == '_' || c == '-',
{
}

/// The modifiers of a chord are named one after the other, a space between each two.
pub proof fn law_modifiers_are_named_with_spaces(
    chord: &KeyChord,
    a: KeyModifier,
    b: KeyModifier,
    first: &'static str,
    second: &'static str,
    r: String,
)
    requires
        call_ensures(KeyChord::modifiers_hypr, (chord,), r),
        call_ensures(KeyModifier::as_hypr, (a,), first),
        call_ensures(KeyModifier::as_hypr, (b,), second),
    ensures
        chord@.mods == Seq::<KeyModifier>::empty() ==> r@.len() == 0,
        chord@.mods == seq![a] ==> r@ == first@,
        chord@.mods == seq![a, b] ==> r@ == first@ + " "@ + second@,
{
    let names = chord@.mods.map_values(|m: KeyModifier| m.spec_as_hypr());
    reveal_with_fuel(joined, 3);
    if chord@.mods == seq![a] {
        assert(names =~= seq![first@]);
    }
    if chord@.mods == seq![a, b] {
        assert(names =~= seq![first@, second@]);
        assert(names.drop_last() =~= seq![first@]);
    }
}

/// The monitor to show first is the one with the focus, else the first of the list.
pub proof fn law_the_focused_monitor_is_preferred(
    topology: &RemoteDesktopTopology,
    focused: Option<&DisplayId>,
    displays: &[DisplayId],
    preferred: Option<&DisplayId>,
)
    requires
        call_ensures(RemoteDesktopTopology::focused, (topology,), focused),
        call_ensures(RemoteDesktopTopology::displays, (topology,), displays),
        call_ensures(RemoteDesktopTopology::preferred, (topology,), preferred),
    ensures
        focused matches Some(id) ==> (preferred matches Some(shown) && shown@ == id@),
        focused is None && displays@.len() > 0 ==> (preferred matches Some(shown) && shown@ == displays@[0]@),
        focused is None && displays@.len() == 0 ==> preferred is None,
{
    let ids = display_ids(displays@);
    assert(ids.len() == displays@.len());
    if displays@.len() > 0 {
        assert(ids[0] == displays@[0]@);
    }
    assert(opt_display_ref(focused) is Some == focused is Some);
    assert(opt_display_ref(preferred) is Some == preferred is Some);
}

} // verus!
