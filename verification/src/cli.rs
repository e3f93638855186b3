//! What the command line asks for and what it prints.
use vstd::prelude::*;
use vstd::string::*;

use crate::access::{capability_names, is_capability_name, join_capabilities};
use crate::config::{Config, DeviceConfig};
use crate::connect::ConnectRequest;
use crate::domain::{
    bitrate_kbps_from_mbps, choose_address, clone_optional, joined, preferred_address,
    CodecPreference, ConnectionKind, ControlCapability, DisplayId, DomainError, InputMode, IpAddr,
    KeyChord, KeyModifier, MeshPeer, RemoteCommand, RemoteCommandView, StreamProfile, Window,
    WindowSelector, WindowSelectorView, Workspace, WorkspaceId, WorkspaceTarget, WorkspaceTargetView,
    KeyChordView, ordered_modifiers, safe_key_token, MAX_STREAM_BITRATE_KBPS,
    MIN_STREAM_BITRATE_KBPS,
};
use crate::ports::{AgentEndpoint, AllowedController, MeshNodeIdentity};
use crate::protocol::NodeInfoResponse;
use crate::scan::{begins_with, starts_with};
use crate::seqs::{first_where, lemma_first_where_at, lemma_first_where_none};
use crate::services::{DeviceStatus, DiscoveredNode};
use crate::session_record::{opt_line, still_running, SessionRecord};
use crate::strings::{
    ascii_lower, chars_of, decimal, decimal_text, opt_text, parse_digits, parsed_digits,
    push_decimal, push_signed, same_optional, same_text, signed, split_text, split_when,
    text_between, texts, to_ascii_lower, trim_text, trim_trailing_dots, trimmed,
    without_trailing_dots,
};
use crate::text::{sanitize_for_display, sanitized, DISPLAY_NAME_LIMIT};

verus! {

/// The number that text denotes, with a sign or without, where it fits a workspace number.
pub open spec fn parsed_signed(s: Seq<char>) -> Option<int> {
    if s.len() > 1 && s[0] == '-' {
        match parsed_digits(s.drop_first(), 9223372036854775808) {
            Some(n) => Some(-n),
            None => None,
        }
    } else if s.len() > 1 && s[0] == '+' {
        parsed_digits(s.drop_first(), i64::MAX as int)
    } else {
        parsed_digits(s, i64::MAX as int)
    }
}

fn parse_signed(s: &str) -> (r: Option<i64>)
    ensures
        match r {
            Some(n) => parsed_signed(s@) == Some(n as int),
            None => parsed_signed(s@) is None,
        },
{
    let v = chars_of(s);
    if v.len() > 1 && (v[0] == '-' || v[0] == '+') {
        let rest = text_between(&v, 1, v.len());
        assert(rest@ =~= s@.drop_first());
        match parse_digits(rest.as_str()) {
            Some(n) => if v[0] == '-' {
                if n == 9223372036854775808 {
                    Some(i64::MIN)
                } else if n < 9223372036854775808 {
                    Some(-(n as i64))
                } else {
                    None
                }
            } else if n <= 9223372036854775807 {
                Some(n as i64)
            } else {
                None
            },
            None => None,
        }
    } else {
        match parse_digits(s) {
            Some(n) => if n <= 9223372036854775807 {
                Some(n as i64)
            } else {
                None
            },
            None => None,
        }
    }
}

/// A workspace by its number where the text is one, else by its name.
pub open spec fn workspace_named(value: Seq<char>) -> WorkspaceTargetView {
    match parsed_signed(value) {
        Some(id) => WorkspaceTargetView::Id(WorkspaceId(id as i64)),
        None => WorkspaceTargetView::Name(value),
    }
}

pub fn parse_workspace_target(value: &str) -> (r: WorkspaceTarget)
    ensures
        r@ == workspace_named(value@),
{
    match parse_signed(value) {
        Some(id) => WorkspaceTarget::Id(WorkspaceId(id)),
        None => WorkspaceTarget::Name(value.to_owned()),
    }
}

/// The window that a command is meant for: by address before by class, else the one with the focus.
pub open spec fn selector_of(class: Option<Seq<char>>, address: Option<Seq<char>>) -> WindowSelectorView {
    match address {
        Some(address) => WindowSelectorView::Address(address),
        None => match class {
            Some(class) => WindowSelectorView::Class(class),
            None => WindowSelectorView::ActiveWindow,
        },
    }
}

pub fn window_selector(class: Option<String>, address: Option<String>) -> (r: WindowSelector)
    ensures
        r@ == selector_of(opt_text(class), opt_text(address)),
{
    match address {
        Some(address) => WindowSelector::Address(address),
        None => match class {
            Some(class) => WindowSelector::Class(class),
            None => WindowSelector::ActiveWindow,
        },
    }
}

/// The pieces of a list, trimmed, without those that are blank.
pub open spec fn nonblank(pieces: Seq<Seq<char>>) -> Seq<Seq<char>>
    decreases pieces.len(),
{
    if pieces.len() == 0 {
        Seq::empty()
    } else {
        let before = nonblank(pieces.drop_last());
        let last = trimmed(pieces.last());
        if last.len() > 0 {
            before.push(last)
        } else {
            before
        }
    }
}

fn trim_pieces(pieces: &Vec<String>) -> (r: Vec<String>)
    ensures
        texts(r@) == nonblank(texts(pieces@)),
{
    let ghost all = texts(pieces@);
    let mut out: Vec<String> = Vec::new();
    let mut i: usize = 0;
    assert(all.take(0) =~= Seq::<Seq<char>>::empty());
    assert(texts(out@) =~= Seq::<Seq<char>>::empty());
    while i < pieces.len()
        invariant
            all == texts(pieces@),
            i <= pieces@.len(),
            texts(out@) == nonblank(all.take(i as int)),
        decreases pieces@.len() - i,
    {
        assert(all.take(i + 1).drop_last() =~= all.take(i as int));
        assert(all.take(i + 1).last() == pieces@[i as int]@);
        let text = trim_text(pieces[i].as_str());
        if !text.as_str().is_empty() {
            let ghost before = out@;
            out.push(text);
            assert(texts(out@) =~= texts(before).push(text@));
        }
        i += 1;
    }
    assert(all.take(all.len() as int) =~= all);
    out
}

pub open spec fn is_comma() -> spec_fn(char) -> bool {
    |c: char| c == ','
}

fn is_list_comma(c: char) -> (r: bool)
    ensures
        r == (c == ','),
{
    c == ','
}

/// The names of several lists, one after the other.
pub open spec fn listed_names(values: Seq<Seq<char>>) -> Seq<Seq<char>>
    decreases values.len(),
{
    if values.len() == 0 {
        Seq::empty()
    } else {
        listed_names(values.drop_last()) + nonblank(split_when(values.last(), is_comma()))
    }
}

fn collect_names(values: &[String]) -> (r: Vec<String>)
    ensures
        texts(r@) == listed_names(texts(values@)),
{
    let ghost all = texts(values@);
    let mut out: Vec<String> = Vec::new();
    let mut i: usize = 0;
    assert(all.take(0) =~= Seq::<Seq<char>>::empty());
    assert(texts(out@) =~= Seq::<Seq<char>>::empty());
    while i < values.len()
        invariant
            all == texts(values@),
            i <= values@.len(),
            texts(out@) == listed_names(all.take(i as int)),
        decreases values@.len() - i,
    {
        assert(all.take(i + 1).drop_last() =~= all.take(i as int));
        assert(all.take(i + 1).last() == values@[i as int]@);
        let pieces = split_text(values[i].as_str(), is_list_comma, Ghost(is_comma()));
        let mut names = trim_pieces(&pieces);
        let ghost a = out@;
        let ghost b = names@;
        out.append(&mut names);
        assert(texts(out@) =~= texts(a) + texts(b));
        i += 1;
    }
    assert(all.take(all.len() as int) =~= all);
    out
}

/// The place of the first name that is none of a capability, or the number of names.
pub open spec fn first_unknown(names: Seq<Seq<char>>) -> int
    decreases names.len(),
{
    if names.len() == 0 || !is_capability_name(names[0]) {
        0
    } else {
        1 + first_unknown(names.drop_first())
    }
}

pub open spec fn all_capability_names() -> Seq<char> {
    joined(capability_names(ControlCapability::ALL@), ", "@)
}

proof fn lemma_first_unknown(names: Seq<Seq<char>>, i: int)
    requires
        0 <= i <= names.len(),
        i < names.len() ==> !is_capability_name(names[i]),
        forall|k: int| 0 <= k < i ==> is_capability_name(#[trigger] names[k]),
    ensures
        first_unknown(names) == i,
    decreases i,
{
    if i > 0 {
        assert(is_capability_name(names[0]));
        assert forall|k: int| 0 <= k < i - 1 implies is_capability_name(
            #[trigger] names.drop_first()[k],
        ) by {
            assert(is_capability_name(names[k + 1]));
        }
        lemma_first_unknown(names.drop_first(), i - 1);
    }
}

/// What a computer is allowed: everything where nothing is named, else what is named. A name that
/// is none is an error, with the names that there are.
pub fn parse_capabilities(values: &[String]) -> (r: Result<Vec<ControlCapability>, String>)
    ensures
        if values@.len() == 0 {
            r is Ok && r->Ok_0@ == ControlCapability::ALL@
        } else {
            let names = listed_names(texts(values@));
            let bad = first_unknown(names);
            if bad < names.len() {
                r is Err && r->Err_0@ == "unknown capability '"@ + names[bad] + "'; expected one of "@
                    + all_capability_names()
            } else {
                r is Ok && capability_names(r->Ok_0@) == names
            }
        },
{
    if values.len() == 0 {
        let mut every: Vec<ControlCapability> = Vec::new();
        let mut k: usize = 0;
        while k < ControlCapability::ALL.len()
            invariant
                k <= ControlCapability::ALL@.len(),
                every@ == ControlCapability::ALL@.take(k as int),
            decreases ControlCapability::ALL@.len() - k,
        {
            every.push(ControlCapability::ALL[k]);
            assert(every@ =~= ControlCapability::ALL@.take(k + 1));
            k += 1;
        }
        assert(every@ =~= ControlCapability::ALL@);
        return Ok(every);
    }
    let list = collect_names(values);
    let ghost names = listed_names(texts(values@));
    let mut out: Vec<ControlCapability> = Vec::new();
    let mut i: usize = 0;
    assert(capability_names(out@) =~= names.take(0));
    while i < list.len()
        invariant
            values@.len() > 0,
            texts(list@) == names,
            names == listed_names(texts(values@)),
            i <= list@.len(),
            capability_names(out@) == names.take(i as int),
            forall|k: int| 0 <= k < i ==> is_capability_name(#[trigger] names[k]),
        decreases list@.len() - i,
    {
        assert(names[i as int] == list@[i as int]@);
        match ControlCapability::from_str(list[i].as_str()) {
            Ok(capability) => {
                let ghost before = out@;
                out.push(capability);
                assert(capability_names(out@) =~= capability_names(before).push(names[i as int]));
                assert(names.take(i + 1) =~= names.take(i as int).push(names[i as int]));
                assert(is_capability_name(names[i as int]));
            },
            Err(_) => {
                proof {
                    lemma_first_unknown(names, i as int);
                }
                let known = join_capabilities(&ControlCapability::ALL, ", ");
                return Err(
                    "unknown capability '".to_owned().concat(list[i].as_str()).concat(
                        "'; expected one of ",
                    ).concat(known.as_str()),
                );
            },
        }
        i += 1;
    }
    proof {
        lemma_first_unknown(names, names.len() as int);
    }
    assert(names.take(names.len() as int) =~= names);
    Ok(out)
}

pub open spec fn separates_modifiers() -> spec_fn(char) -> bool {
    |c: char| c == '+' || c == ' ' || c == ','
}

fn is_modifier_separator(c: char) -> (r: bool)
    ensures
        r == separates_modifiers()(c),
{
    c == '+' || c == ' ' || c == ','
}

/// The modifier of a name, in any case of its letters.
pub open spec fn modifier_named(name: Seq<char>) -> Option<KeyModifier> {
    let low = ascii_lower(name);
    if low == "super"@ || low == "win"@ || low == "meta"@ || low == "mod"@ {
        Some(KeyModifier::Super)
    } else if low == "ctrl"@ || low == "control"@ {
        Some(KeyModifier::Ctrl)
    } else if low == "alt"@ {
        Some(KeyModifier::Alt)
    } else if low == "shift"@ {
        Some(KeyModifier::Shift)
    } else {
        None
    }
}

fn find_modifier(low: &str) -> (r: Option<KeyModifier>)
    ensures
        r == (if low@ == "super"@ || low@ == "win"@ || low@ == "meta"@ || low@ == "mod"@ {
            Some(KeyModifier::Super)
        } else if low@ == "ctrl"@ || low@ == "control"@ {
            Some(KeyModifier::Ctrl)
        } else if low@ == "alt"@ {
            Some(KeyModifier::Alt)
        } else if low@ == "shift"@ {
            Some(KeyModifier::Shift)
        } else {
            None
        }),
{
    if same_text(low, "super") || same_text(low, "win") || same_text(low, "meta") || same_text(
        low,
        "mod",
    ) {
        return Some(KeyModifier::Super);
    }
    if same_text(low, "ctrl") || same_text(low, "control") {
        return Some(KeyModifier::Ctrl);
    }
    if same_text(low, "alt") {
        return Some(KeyModifier::Alt);
    }
    if same_text(low, "shift") {
        return Some(KeyModifier::Shift);
    }
    None
}

/// The modifiers of a list of names, or the first that is none, in small letters.
pub open spec fn modifiers_named(names: Seq<Seq<char>>) -> Result<Seq<KeyModifier>, Seq<char>>
    decreases names.len(),
{
    if names.len() == 0 {
        Ok(Seq::empty())
    } else {
        match modifiers_named(names.drop_last()) {
            Err(name) => Err(name),
            Ok(before) => match modifier_named(names.last()) {
                Some(modifier) => Ok(before.push(modifier)),
                None => Err(ascii_lower(names.last())),
            },
        }
    }
}

pub open spec fn parsed_modifiers(input: Seq<char>) -> Result<Seq<KeyModifier>, Seq<char>> {
    modifiers_named(nonblank(split_when(input, separates_modifiers())))
}

proof fn lemma_modifiers_error(names: Seq<Seq<char>>, i: int)
    requires
        0 <= i <= names.len(),
        modifiers_named(names.take(i)) is Err,
    ensures
        modifiers_named(names) == modifiers_named(names.take(i)),
    decreases names.len() - i,
{
    if i == names.len() {
        assert(names.take(i) =~= names);
    } else {
        assert(names.take(i + 1).drop_last() =~= names.take(i));
        lemma_modifiers_error(names, i + 1);
    }
}

/// The modifiers in a text, or the first name in it that is none.
pub fn parse_modifiers(input: &str) -> (r: Result<Vec<KeyModifier>, String>)
    ensures
        match parsed_modifiers(input@) {
            Ok(mods) => r is Ok && r->Ok_0@ == mods,
            Err(name) => r is Err && r->Err_0@ == "unknown modifier: "@ + name,
        },
{
    let pieces = split_text(input, is_modifier_separator, Ghost(separates_modifiers()));
    let list = trim_pieces(&pieces);
    let ghost names = nonblank(split_when(input@, separates_modifiers()));
    let mut out: Vec<KeyModifier> = Vec::new();
    let mut i: usize = 0;
    assert(names.take(0) =~= Seq::<Seq<char>>::empty());
    while i < list.len()
        invariant
            texts(list@) == names,
            names == nonblank(split_when(input@, separates_modifiers())),
            i <= list@.len(),
            modifiers_named(names.take(i as int)) == Ok::<Seq<KeyModifier>, Seq<char>>(out@),
        decreases list@.len() - i,
    {
        assert(names.take(i + 1).drop_last() =~= names.take(i as int));
        assert(names.take(i + 1).last() == list@[i as int]@);
        let low = to_ascii_lower(list[i].as_str());
        match find_modifier(low.as_str()) {
            Some(modifier) => out.push(modifier),
            None => {
                proof {
                    lemma_modifiers_error(names, i + 1);
                }
                return Err("unknown modifier: ".to_owned().concat(low.as_str()));
            },
        }
        i += 1;
    }
    assert(names.take(names.len() as int) =~= names);
    Ok(out)
}

/// A command as the command line gives it.
#[derive(Debug, PartialEq, Eq)]
pub enum CommandAction {
    SendShortcut {
        mods: String,
        key: String,
        window_class: Option<String>,
        window_address: Option<String>,
    },
    CloseWindow { window_class: Option<String>, window_address: Option<String> },
    SwitchDisplay { display: String },
}

/// Why a command is not sent.
#[derive(Debug, PartialEq, Eq)]
pub enum CommandLineError {
    /// With the text that tells it.
    UnknownModifier(String),
    InvalidKeyChord(DomainError),
    InvalidCommand(DomainError),
}

pub enum CommandLineErrorView {
    UnknownModifier(Seq<char>),
    InvalidKeyChord(DomainError),
    InvalidCommand(DomainError),
}

impl View for CommandLineError {
    type V = CommandLineErrorView;

    open spec fn view(&self) -> CommandLineErrorView {
        match self {
            CommandLineError::UnknownModifier(text) => CommandLineErrorView::UnknownModifier(text@),
            CommandLineError::InvalidKeyChord(error) => CommandLineErrorView::InvalidKeyChord(*error),
            CommandLineError::InvalidCommand(error) => CommandLineErrorView::InvalidCommand(*error),
        }
    }
}

impl CommandLineError {
    pub fn message(&self) -> (r: String)
        ensures
            r@ == (match self@ {
                CommandLineErrorView::UnknownModifier(text) => text,
                CommandLineErrorView::InvalidKeyChord(_) => "invalid key chord"@,
                CommandLineErrorView::InvalidCommand(_) => "invalid command"@,
            }),
    {
        match self {
            CommandLineError::UnknownModifier(text) => text.clone(),
            CommandLineError::InvalidKeyChord(_) => "invalid key chord".to_owned(),
            CommandLineError::InvalidCommand(_) => "invalid command".to_owned(),
        }
    }
}

/// A command that was built, if it is one that may be sent.
pub open spec fn checked_command(command: RemoteCommandView) -> Result<RemoteCommandView, CommandLineErrorView> {
    match command.validated() {
        Ok(_) => Ok(command),
        Err(error) => Err(CommandLineErrorView::InvalidCommand(error)),
    }
}

/// The command that an action is.
pub open spec fn command_of(action: CommandAction) -> Result<RemoteCommandView, CommandLineErrorView> {
    match action {
        CommandAction::SendShortcut { mods, key, window_class, window_address } => match parsed_modifiers(
            mods@,
        ) {
            Err(name) => Err(CommandLineErrorView::UnknownModifier("unknown modifier: "@ + name)),
            Ok(mods) => if safe_key_token(key@) {
                checked_command(
                    RemoteCommandView::SendShortcut {
                        chord: KeyChordView { mods: ordered_modifiers(mods), key: key@ },
                        window: selector_of(opt_text(window_class), opt_text(window_address)),
                    },
                )
            } else {
                Err(CommandLineErrorView::InvalidKeyChord(DomainError::InvalidKeyChord))
            },
        },
        CommandAction::CloseWindow { window_class, window_address } => checked_command(
            RemoteCommandView::CloseWindow {
                window: selector_of(opt_text(window_class), opt_text(window_address)),
            },
        ),
        CommandAction::SwitchDisplay { display } => checked_command(
            RemoteCommandView::SwitchStreamDisplay { display: display@ },
        ),
    }
}

pub open spec fn built(r: Result<RemoteCommand, CommandLineError>) -> Result<
    RemoteCommandView,
    CommandLineErrorView,
> {
    match r {
        Ok(command) => Ok(command@),
        Err(error) => Err(error@),
    }
}

/// Builds the command of an action. Nothing is built that an agent would refuse as not valid.
pub fn remote_command(action: CommandAction) -> (r: Result<RemoteCommand, CommandLineError>)
    ensures
        built(r) == command_of(action),
{
    let command = match action {
        CommandAction::SendShortcut { mods, key, window_class, window_address } => {
            let modifiers = match parse_modifiers(mods.as_str()) {
                Ok(modifiers) => modifiers,
                Err(text) => {
                    return Err(CommandLineError::UnknownModifier(text));
                },
            };
            let chord = match KeyChord::new(modifiers, key) {
                Ok(chord) => chord,
                Err(error) => {
                    return Err(CommandLineError::InvalidKeyChord(error));
                },
            };
            RemoteCommand::SendShortcut { chord, window: window_selector(window_class, window_address) }
        },
        CommandAction::CloseWindow { window_class, window_address } => RemoteCommand::CloseWindow {
            window: window_selector(window_class, window_address),
        },
        CommandAction::SwitchDisplay { display } => RemoteCommand::SwitchStreamDisplay {
            display: DisplayId::new(display),
        },
    };
    match command.validate() {
        Ok(()) => Ok(command),
        Err(error) => Err(CommandLineError::InvalidCommand(error)),
    }
}

/// A command that is sent is one that every agent accepts as valid.
pub proof fn law_sent_commands_are_valid(action: CommandAction)
    ensures
        command_of(action) matches Ok(command) ==> command.validated() is Ok,
{
}

/// The endpoint of a target that is an address with a port; any other has to be looked up.
pub fn explicit_endpoint(address: Option<IpAddr>, port: Option<u16>) -> (r: Option<AgentEndpoint>)
    ensures
        r == (match (address, port) {
            (Some(address), Some(port)) => Some(AgentEndpoint { address, port }),
            _ => None,
        }),
{
    match (address, port) {
        (Some(address), Some(port)) => Some(AgentEndpoint { address, port }),
        _ => None,
    }
}

pub open spec fn device_named(name: Seq<char>) -> spec_fn((String, DeviceConfig)) -> bool {
    |device: (String, DeviceConfig)| device.0@ == name
}

/// The name behind an alias of the settings, else the name itself.
pub open spec fn resolved_name(devices: Seq<(String, DeviceConfig)>, target: Seq<char>) -> Seq<char> {
    match first_where(devices, device_named(target)) {
        Some(device) => match device.1.alias {
            Some(alias) => alias@,
            None => target,
        },
        None => target,
    }
}

fn resolve_alias(devices: &Vec<(String, DeviceConfig)>, target: &str) -> (r: String)
    ensures
        r@ == resolved_name(devices@, target@),
{
    let ghost p = device_named(target@);
    let mut i: usize = 0;
    while i < devices.len()
        invariant
            i <= devices@.len(),
            p == device_named(target@),
            forall|k: int| 0 <= k < i ==> !p(#[trigger] devices@[k]),
        decreases devices@.len() - i,
    {
        if same_text(devices[i].0.as_str(), target) {
            proof {
                lemma_first_where_at(devices@, p, i as int);
            }
            return match &devices[i].1.alias {
                Some(alias) => alias.clone(),
                None => target.to_owned(),
            };
        }
        i += 1;
    }
    proof {
        lemma_first_where_none(devices@, p);
    }
    target.to_owned()
}

/// Where no name stands twice, a name stands for the alias that is set for the device of this name.
pub proof fn law_a_device_is_found_by_its_name(config: Config, i: int)
    requires
        config.wf(),
        0 <= i < config.devices@.len(),
    ensures
        resolved_name(config.devices@, config.devices@[i].0@) == (match config.devices@[i].1.alias {
            Some(alias) => alias@,
            None => config.devices@[i].0@,
        }),
{
    let devices = config.devices@;
    assert forall|k: int| 0 <= k < i implies !device_named(devices[i].0@)(#[trigger] devices[k]) by {
        assert(devices[k].0@ != devices[i].0@);
    }
    lemma_first_where_at(devices, device_named(devices[i].0@), i);
}

/// Whether a name stands for a peer that is online: its host name, its identity, or the start of
/// its name in the tailnet.
pub open spec fn online_as(name: Seq<char>) -> spec_fn(MeshPeer) -> bool {
    |peer: MeshPeer|
        {
            &&& peer.online
            &&& {
                ||| opt_text(peer.hostname) == Some(name)
                ||| peer.tailnet_node_id@ == name
                ||| (peer.dns_name matches Some(dns) && begins_with(without_trailing_dots(dns@), name))
            }
        }
}

fn is_online_as(peer: &MeshPeer, name: &str) -> (r: bool)
    ensures
        r == online_as(name@)(*peer),
{
    if !peer.online {
        return false;
    }
    if same_optional(&peer.hostname, name) || same_text(peer.tailnet_node_id.as_str(), name) {
        return true;
    }
    match &peer.dns_name {
        Some(dns) => starts_with(trim_trailing_dots(dns.as_str()).as_str(), name),
        None => false,
    }
}

/// The address of the first peer that a name stands for.
pub open spec fn peer_address(peers: Seq<MeshPeer>, name: Seq<char>) -> Option<IpAddr> {
    match first_where(peers, online_as(name)) {
        Some(peer) => preferred_address(peer.ips@),
        None => None,
    }
}

fn find_address(peers: &Vec<MeshPeer>, name: &str) -> (r: Option<IpAddr>)
    ensures
        r == peer_address(peers@, name@),
{
    let ghost p = online_as(name@);
    let mut i: usize = 0;
    while i < peers.len()
        invariant
            i <= peers@.len(),
            p == online_as(name@),
            forall|k: int| 0 <= k < i ==> !p(#[trigger] peers@[k]),
        decreases peers@.len() - i,
    {
        if is_online_as(&peers[i], name) {
            proof {
                lemma_first_where_at(peers@, p, i as int);
            }
            return choose_address(&peers[i].ips);
        }
        i += 1;
    }
    proof {
        lemma_first_where_none(peers@, p);
    }
    None
}

/// The agent of a target: at the address that the target is, else at that of the peer that it
/// names, by itself or by an alias.
pub fn resolve_endpoint(target: &str, address: Option<IpAddr>, config: &Config, peers: &Vec<MeshPeer>) -> (r: Result<
    AgentEndpoint,
    String,
>)
    ensures
        match address {
            Some(address) => r == Ok::<AgentEndpoint, String>(
                AgentEndpoint { address, port: config.network.agent_port },
            ),
            None => match peer_address(peers@, resolved_name(config.devices@, target@)) {
                Some(address) => r == Ok::<AgentEndpoint, String>(
                    AgentEndpoint { address, port: config.network.agent_port },
                ),
                None => r is Err && r->Err_0@ == "no online Tailnet peer matches '"@ + target@ + "'"@,
            },
        },
{
    let port: u16 = config.network.agent_port;
    match address {
        Some(address) => Ok(AgentEndpoint { address, port }),
        None => {
            let name = resolve_alias(&config.devices, target);
            match find_address(peers, name.as_str()) {
                Some(address) => Ok(AgentEndpoint { address, port }),
                None => Err(
                    "no online Tailnet peer matches '".to_owned().concat(target).concat("'"),
                ),
            }
        },
    }
}

pub open spec fn known_as(name: Seq<char>) -> spec_fn(MeshPeer) -> bool {
    |peer: MeshPeer| opt_text(peer.hostname) == Some(name) || peer.tailnet_node_id@ == name
}

/// The identity of a target that is an address, by who Tailscale says it is.
pub fn identity_of_address(identity: Option<MeshNodeIdentity>) -> (r: Result<String, &'static str>)
    ensures
        match identity {
            Some(identity) => r == Ok::<String, &'static str>(identity.tailnet_node_id),
            None => r is Err && r->Err_0@ == "target is not a visible Tailscale identity"@,
        },
{
    match identity {
        Some(identity) => Ok(identity.tailnet_node_id),
        None => Err("target is not a visible Tailscale identity"),
    }
}

/// The identity of a target that is a name.
pub fn resolve_tailnet_identity(target: &str, peers: &Vec<MeshPeer>) -> (r: Result<String, String>)
    ensures
        match first_where(peers@, known_as(target@)) {
            Some(peer) => r is Ok && r->Ok_0@ == peer.tailnet_node_id@,
            None => r is Err && r->Err_0@ == "no Tailnet peer matches '"@ + target@ + "'"@,
        },
{
    let ghost p = known_as(target@);
    let mut i: usize = 0;
    while i < peers.len()
        invariant
            i <= peers@.len(),
            p == known_as(target@),
            forall|k: int| 0 <= k < i ==> !p(#[trigger] peers@[k]),
        decreases peers@.len() - i,
    {
        if same_optional(&peers[i].hostname, target) || same_text(
            peers[i].tailnet_node_id.as_str(),
            target,
        ) {
            proof {
                lemma_first_where_at(peers@, p, i as int);
            }
            return Ok(peers[i].tailnet_node_id.clone());
        }
        i += 1;
    }
    proof {
        lemma_first_where_none(peers@, p);
    }
    Err("no Tailnet peer matches '".to_owned().concat(target).concat("'"))
}

/// What `connect` is asked for.
#[derive(Debug, PartialEq, Eq)]
pub struct ConnectArgs {
    pub target: String,
    pub workspace: Option<String>,
    pub window: Option<String>,
    pub app_id: Option<String>,
    pub width: u32,
    pub height: u32,
    pub fps: u16,
    pub codec: CodecPreference,
    pub bitrate: Option<u32>,
    pub fullscreen: bool,
    pub windowed: bool,
    pub input: InputMode,
    pub no_audio: bool,
}

/// The bitrate in megabits that holds: the one that is asked for, else that of the settings, where
/// they have one.
pub open spec fn wanted_bitrate(asked: Option<u32>, configured: u32) -> Option<u32> {
    match asked {
        Some(mbps) => Some(mbps),
        None => if configured > 0 {
            Some(configured)
        } else {
            None
        },
    }
}

pub open spec fn bitrate_allowed(mbps: Option<u32>) -> bool {
    mbps matches Some(mbps) ==> MIN_STREAM_BITRATE_KBPS <= mbps * 1000 <= MAX_STREAM_BITRATE_KBPS
}

/// The profile of a stream, by what is asked for and the settings.
pub open spec fn wanted_profile(args: ConnectArgs, configured_mbps: u32) -> StreamProfile {
    StreamProfile {
        width: args.width,
        height: args.height,
        fps: args.fps,
        codec_preference: args.codec,
        audio: !args.no_audio,
        bitrate_kbps: match wanted_bitrate(args.bitrate, configured_mbps) {
            Some(mbps) => Some((mbps * 1000) as u32),
            None => None,
        },
    }
}

/// The profile, or what about it is not allowed.
pub fn stream_profile_of(args: &ConnectArgs, configured_mbps: u32) -> (r: Result<StreamProfile, &'static str>)
    ensures
        if !bitrate_allowed(wanted_bitrate(args.bitrate, configured_mbps)) {
            r is Err && r->Err_0@ == "invalid stream bitrate"@
        } else if !wanted_profile(*args, configured_mbps).valid() {
            r is Err && r->Err_0@ == "invalid stream profile"@
        } else {
            r is Ok && r->Ok_0 == wanted_profile(*args, configured_mbps)
        },
{
    let mbps = match args.bitrate {
        Some(mbps) => Some(mbps),
        None => if configured_mbps > 0 {
            Some(configured_mbps)
        } else {
            None
        },
    };
    let bitrate_kbps = match mbps {
        Some(mbps) => match bitrate_kbps_from_mbps(mbps) {
            Ok(kbps) => Some(kbps),
            Err(_) => {
                return Err("invalid stream bitrate");
            },
        },
        None => None,
    };
    let profile = StreamProfile {
        width: args.width,
        height: args.height,
        fps: args.fps,
        codec_preference: args.codec,
        audio: !args.no_audio,
        bitrate_kbps,
    };
    match profile.validate() {
        Ok(()) => Ok(profile),
        Err(_) => Err("invalid stream profile"),
    }
}

pub open spec fn opt_workspace(w: Option<WorkspaceTarget>) -> Option<WorkspaceTargetView> {
    match w {
        Some(w) => Some(w@),
        None => None,
    }
}

/// The request for a connection: on the whole screen unless a window is asked for; a window is
/// named by its address before its application.
pub fn connect_request(
    args: &ConnectArgs,
    profile: StreamProfile,
    endpoint: AgentEndpoint,
    controller_endpoint: AgentEndpoint,
) -> (r: ConnectRequest)
    ensures
        r.endpoint == endpoint,
        r.controller_endpoint == controller_endpoint,
        r.profile == profile,
        r.fullscreen == (args.fullscreen || !args.windowed),
        r.input_mode == args.input,
        opt_workspace(r.focus_workspace) == (match args.workspace {
            Some(workspace) => Some(workspace_named(workspace@)),
            None => None,
        }),
        r.focus_window == (if args.window is Some {
            args.window
        } else {
            args.app_id
        }),
        r.auto_pair,
{
    let focus_workspace = match &args.workspace {
        Some(workspace) => Some(parse_workspace_target(workspace.as_str())),
        None => None,
    };
    let focus_window = match &args.window {
        Some(window) => Some(window.clone()),
        None => clone_optional(&args.app_id),
    };
    ConnectRequest {
        endpoint,
        controller_endpoint,
        profile,
        fullscreen: args.fullscreen || !args.windowed,
        input_mode: args.input,
        focus_workspace,
        focus_window,
        auto_pair: true,
    }
}

pub open spec fn input_text(mode: InputMode) -> Seq<char> {
    match mode {
        InputMode::Local => "local"@,
        InputMode::Remote => "remote"@,
    }
}

pub fn input_name(mode: InputMode) -> (r: &'static str)
    ensures
        r@ == input_text(mode),
{
    match mode {
        InputMode::Local => "local",
        InputMode::Remote => "remote",
    }
}

/// Where the input goes, by the session that runs.
pub fn input_status(record: Option<&SessionRecord>) -> (r: String)
    ensures
        r@ == "input mode: "@ + (match record {
            Some(record) => input_text(record.input_mode),
            None => "local"@,
        }),
{
    let mode = match record {
        Some(record) => input_name(record.input_mode),
        None => "local",
    };
    "input mode: ".to_owned().concat(mode)
}

/// The session as it is printed.
pub fn session_line(record: &SessionRecord) -> (r: String)
    ensures
        r@ == "node "@ + sanitized(record.remote_node@, DISPLAY_NAME_LIMIT as nat) + "  ·  pid "@ + (
        match record.moonlight {
            Some(process) => decimal(process.pid as nat),
            None => "—"@,
        }) + "  ·  input "@ + input_text(record.input_mode),
{
    let name = sanitize_for_display(record.remote_node.as_str(), DISPLAY_NAME_LIMIT);
    let pid = match record.moonlight {
        Some(process) => decimal_text(process.pid as u64),
        None => "—".to_owned(),
    };
    "node ".to_owned().concat(name.as_str()).concat("  ·  pid ").concat(pid.as_str()).concat(
        "  ·  input ",
    ).concat(input_name(record.input_mode))
}

/// What ending a session does: the process to stop, if it is still the one that the session
/// started, and what is printed.
#[derive(Debug, PartialEq, Eq)]
pub struct DisconnectPlan {
    pub signal: Option<u32>,
    pub message: String,
}

pub fn disconnect_plan(record: &SessionRecord, stat: Option<&str>) -> (r: DisconnectPlan)
    ensures
        match record.moonlight {
            Some(process) => if still_running(process, opt_line(stat)) {
                &&& r.signal == Some(process.pid)
                &&& r.message@ == "Signalled Moonlight process "@ + decimal(process.pid as nat)
                    + " to stop"@
            } else {
                &&& r.signal is None
                &&& r.message@ == "Moonlight process "@ + decimal(process.pid as nat)
                    + " is no longer the one this session started; nothing was signalled"@
            },
            None => {
                &&& r.signal is None
                &&& r.message@ == "Session has no supervised Moonlight process"@
            },
        },
{
    match record.moonlight {
        Some(process) => {
            if process.is_still_running(stat) {
                let mut message = "Signalled Moonlight process ".to_owned();
                push_decimal(&mut message, process.pid as u64);
                message.append(" to stop");
                DisconnectPlan { signal: Some(process.pid), message }
            } else {
                let mut message = "Moonlight process ".to_owned();
                push_decimal(&mut message, process.pid as u64);
                message.append(" is no longer the one this session started; nothing was signalled");
                DisconnectPlan { signal: None, message }
            }
        },
        None => DisconnectPlan {
            signal: None,
            message: "Session has no supervised Moonlight process".to_owned(),
        },
    }
}

/// An entry of the allowlist as it is printed.
pub fn access_line(entry: &AllowedController) -> (r: String)
    ensures
        r@ == sanitized(entry.tailnet_node_id@, DISPLAY_NAME_LIMIT as nat) + "\t"@ + sanitized(
            match entry.label {
                Some(label) => label@,
                None => "—"@,
            },
            DISPLAY_NAME_LIMIT as nat,
        ) + "\t"@ + joined(capability_names(entry.capabilities@), ","@),
{
    let id = sanitize_for_display(entry.tailnet_node_id.as_str(), DISPLAY_NAME_LIMIT);
    let label = match &entry.label {
        Some(label) => sanitize_for_display(label.as_str(), DISPLAY_NAME_LIMIT),
        None => sanitize_for_display("—", DISPLAY_NAME_LIMIT),
    };
    let capabilities = join_capabilities(entry.capabilities.as_slice(), ",");
    id.concat("\t").concat(label.as_str()).concat("\t").concat(capabilities.as_str())
}

pub open spec fn device_status_name(status: DeviceStatus) -> Seq<char> {
    match status {
        DeviceStatus::Ready => "Ready"@,
        DeviceStatus::Offline => "Offline"@,
        DeviceStatus::AgentUnknown => "AgentUnknown"@,
        DeviceStatus::Incompatible => "Incompatible"@,
    }
}

pub open spec fn connection_name(connection: ConnectionKind) -> Seq<char> {
    match connection {
        ConnectionKind::Direct => "Direct"@,
        ConnectionKind::Relay => "Relay"@,
        ConnectionKind::Unknown => "Unknown"@,
    }
}

/// A device as it is printed.
pub fn device_line(node: &DiscoveredNode) -> (r: String)
    ensures
        r@ == node.name@ + "\t"@ + device_status_name(node.status) + "\t"@ + connection_name(
            node.connection,
        ) + "\t"@ + (match node.latency_ms {
            Some(ms) => decimal(ms as nat) + "ms"@,
            None => "—"@,
        }),
{
    let status = match node.status {
        DeviceStatus::Ready => "Ready",
        DeviceStatus::Offline => "Offline",
        DeviceStatus::AgentUnknown => "AgentUnknown",
        DeviceStatus::Incompatible => "Incompatible",
    };
    let connection = match node.connection {
        ConnectionKind::Direct => "Direct",
        ConnectionKind::Relay => "Relay",
        ConnectionKind::Unknown => "Unknown",
    };
    let latency = match node.latency_ms {
        Some(ms) => decimal_text(ms as u64).concat("ms"),
        None => "—".to_owned(),
    };
    node.name.clone().concat("\t").concat(status).concat("\t").concat(connection).concat("\t").concat(
        latency.as_str(),
    )
}

pub open spec fn first_text(a: Option<Seq<char>>, b: Option<Seq<char>>, c: Option<Seq<char>>) -> Seq<char> {
    match a {
        Some(text) => text,
        None => match b {
            Some(text) => text,
            None => match c {
                Some(text) => text,
                None => "—"@,
            },
        },
    }
}

/// What a window is called: by its title, else its application, else its class.
pub fn window_label(window: &Window) -> (r: &str)
    ensures
        r@ == first_text(opt_text(window.title), opt_text(window.app_id), opt_text(window.class)),
{
    match &window.title {
        Some(text) => text.as_str(),
        None => match &window.app_id {
            Some(text) => text.as_str(),
            None => match &window.class {
                Some(text) => text.as_str(),
                None => "—",
            },
        },
    }
}

/// What is printed of the windows of a workspace, in their order.
pub open spec fn window_rows(windows: Seq<Window>, id: WorkspaceId) -> Seq<Seq<char>>
    decreases windows.len(),
{
    if windows.len() == 0 {
        Seq::empty()
    } else {
        let before = window_rows(windows.drop_last(), id);
        let last = windows.last();
        if last.workspace == id {
            before.push(
                "   "@ + first_text(opt_text(last.title), opt_text(last.app_id), opt_text(last.class)),
            )
        } else {
            before
        }
    }
}

/// A workspace as it is printed, with its windows below it.
pub fn workspace_lines(workspace: &Workspace, windows: &[Window]) -> (r: Vec<String>)
    ensures
        texts(r@) == seq![
            signed(workspace.id.0 as int) + "  "@ + first_text(opt_text(workspace.name), None, None),
        ] + window_rows(windows@, workspace.id),
{
    let mut line = String::new();
    push_signed(&mut line, workspace.id.0);
    assert(line@ =~= signed(workspace.id.0 as int));
    line.append("  ");
    match &workspace.name {
        Some(name) => line.append(name.as_str()),
        None => line.append("—"),
    }
    let ghost first = line@;
    let mut lines: Vec<String> = Vec::new();
    lines.push(line);
    let mut i: usize = 0;
    assert(texts(lines@) =~= seq![first] + window_rows(windows@.take(0), workspace.id));
    while i < windows.len()
        invariant
            i <= windows@.len(),
            texts(lines@) == seq![first] + window_rows(windows@.take(i as int), workspace.id),
        decreases windows@.len() - i,
    {
        let window = &windows[i];
        let ghost before = lines@;
        assert(windows@.take(i + 1).drop_last() =~= windows@.take(i as int));
        if window.workspace == workspace.id {
            lines.push("   ".to_owned().concat(window_label(window)));
            assert(texts(lines@) =~= texts(before).push(lines@.last()@));
            assert(texts(lines@) =~= seq![first] + window_rows(windows@.take(i + 1), workspace.id));
        }
        i += 1;
    }
    assert(windows@.take(windows@.len() as int) =~= windows@);
    lines
}

/// A device as it introduces itself.
pub fn info_lines(node: &NodeInfoResponse) -> (r: Vec<String>)
    ensures
        texts(r@) == seq![
            node.hostname@ + " ("@ + node.node_id@ + ")"@,
            "Omarchy "@ + node.omarchy_version@ + "  ·  agent "@ + node.agent_version@,
        ],
{
    let mut lines: Vec<String> = Vec::new();
    lines.push(node.hostname.clone().concat(" (").concat(node.node_id.as_str()).concat(")"));
    lines.push(
        "Omarchy ".to_owned().concat(node.omarchy_version.as_str()).concat("  ·  agent ").concat(
            node.agent_version.as_str(),
        ),
    );
    assert(texts(lines@) =~= seq![
        node.hostname@ + " ("@ + node.node_id@ + ")"@,
        "Omarchy "@ + node.omarchy_version@ + "  ·  agent "@ + node.agent_version@,
    ]);
    lines
}

/// A window as it is printed.
pub fn window_line(window: &Window) -> (r: String)
    ensures
        r@ == signed(window.workspace.0 as int) + "\t"@ + first_text(
            opt_text(window.app_id),
            opt_text(window.class),
            None,
        ) + "\t"@ + first_text(opt_text(window.title), None, None),
{
    let mut line = String::new();
    push_signed(&mut line, window.workspace.0);
    assert(line@ =~= signed(window.workspace.0 as int));
    let app = match &window.app_id {
        Some(text) => text.as_str(),
        None => match &window.class {
            Some(text) => text.as_str(),
            None => "—",
        },
    };
    let title = match &window.title {
        Some(text) => text.as_str(),
        None => "—",
    };
    line.concat("\t").concat(app).concat("\t").concat(title)
}

/// How the credentials of Sunshine are set up.
pub enum ProvisionStep {
    /// Nothing is to be done; the text says why.
    Done(&'static str),
    /// They are asked for; then `after_prompt`.
    Prompt,
    Store { username: String, password: String },
}

/// They are taken from the environment where it has both, else asked for where there is a terminal.
pub fn provision_sunshine_credentials(
    configured: bool,
    username: Option<String>,
    password: Option<String>,
    is_terminal: bool,
) -> (r: ProvisionStep)
    ensures
        if configured {
            r matches ProvisionStep::Done(text) && text@
                == "Sunshine credentials already configured in the desktop Secret Service"@
        } else if username is Some && password is Some {
            if username->0@.len() == 0 || password->0@.len() == 0 {
                r matches ProvisionStep::Done(text) && text@
                    == "Skipping Sunshine credential setup (empty username or password)"@
            } else {
                r == (ProvisionStep::Store { username: username->0, password: password->0 })
            }
        } else if is_terminal {
            r is Prompt
        } else {
            r matches ProvisionStep::Done(text) && text@
                == "Skipping Sunshine credential setup (no terminal). Set OMDESKY_SUNSHINE_USERNAME and OMDESKY_SUNSHINE_PASSWORD, or run `omdesky setup` interactively on the host."@
        },
{
    if configured {
        return ProvisionStep::Done(
            "Sunshine credentials already configured in the desktop Secret Service",
        );
    }
    match (username, password) {
        (Some(username), Some(password)) => after_prompt(username, password),
        _ => if is_terminal {
            ProvisionStep::Prompt
        } else {
            ProvisionStep::Done(
                "Skipping Sunshine credential setup (no terminal). Set OMDESKY_SUNSHINE_USERNAME and OMDESKY_SUNSHINE_PASSWORD, or run `omdesky setup` interactively on the host.",
            )
        },
    }
}

/// Credentials with an empty part are not stored.
pub fn after_prompt(username: String, password: String) -> (r: ProvisionStep)
    ensures
        if username@.len() == 0 || password@.len() == 0 {
            r matches ProvisionStep::Done(text) && text@
                == "Skipping Sunshine credential setup (empty username or password)"@
        } else {
            r == (ProvisionStep::Store { username, password })
        },
{
    if username.as_str().is_empty() || password.as_str().is_empty() {
        return ProvisionStep::Done(
            "Skipping Sunshine credential setup (empty username or password)",
        );
    }
    ProvisionStep::Store { username, password }
}

/// Under which name this computer pairs.
pub fn client_name(hostname: Option<String>) -> (r: String)
    ensures
        r@ == (match hostname {
            Some(name) => name@,
            None => "omdesky"@,
        }),
{
    match hostname {
        Some(name) => name,
        None => "omdesky".to_owned(),
    }
}

/// A workspace is named by its number where the text is one, with or without a sign, and else by its
/// name.
pub proof fn law_a_workspace_is_a_number_or_a_name(n: u64, digits: Seq<char>, value: &str, r: WorkspaceTarget)
    requires
        call_ensures(parse_workspace_target, (value,), r),
        digits == decimal(n as nat),
        n <= i64::MAX,
    ensures
        value@ == digits ==> r@ == WorkspaceTargetView::Id(WorkspaceId(n as i64)),
        value@ == seq!['-'] + digits ==> r@ == WorkspaceTargetView::Id(WorkspaceId((-n) as i64)),
        value@ == seq!['+'] + digits ==> r@ == WorkspaceTargetView::Id(WorkspaceId(n as i64)),
        value@.len() > 0 && !crate::strings::digit(value@[0]) && value@[0] != '-' && value@[0] != '+' ==> r@
            == WorkspaceTargetView::Name(value@),
        r@ matches WorkspaceTargetView::Name(name) ==> name == value@,
{
    crate::strings::lemma_decimal_reads(n as nat);
    assert(crate::strings::digit(digits[0]));
    if value@ == seq!['-'] + digits || value@ == seq!['+'] + digits {
        assert(value@.drop_first() =~= digits);
    }
    if value@.len() > 0 && !crate::strings::digit(value@[0]) {
        assert(!crate::strings::all_digits(value@));
    }
}

/// A window is named by its address before its class, and else is the active one.
pub proof fn law_an_address_goes_before_a_class(
    class: Option<String>,
    address: Option<String>,
    r: WindowSelector,
)
    requires
        call_ensures(window_selector, (class, address), r),
    ensures
        address matches Some(text) ==> r@ == WindowSelectorView::Address(text@),
        address is None ==> (class matches Some(text) ==> r@ == WindowSelectorView::Class(text@)),
        address is None && class is None ==> r@ is ActiveWindow,
{
}

/// Where nothing is named, everything is allowed; else exactly what is named, and only names of
/// capabilities are taken.
pub proof fn law_what_is_named_is_allowed(
    values: &[String],
    r: Result<Vec<ControlCapability>, String>,
)
    requires
        call_ensures(parse_capabilities, (values,), r),
    ensures
        values@.len() == 0 ==> (r matches Ok(all) && all@ == seq![
            ControlCapability::ReadMetadata,
            ControlCapability::FocusWorkspace,
            ControlCapability::ControlSession,
            ControlCapability::SendShortcut,
            ControlCapability::CloseStream,
            ControlCapability::ApprovePairing,
        ]),
        values@.len() > 0 ==> ({
            let names = listed_names(texts(values@));
            &&& r is Ok <==> forall|i: int|
                0 <= i < names.len() ==> is_capability_name(#[trigger] names[i])
            &&& r matches Ok(allowed) ==> allowed@.len() == names.len() && forall|i: int|
                0 <= i < names.len() ==> (#[trigger] allowed@[i]).spec_as_str() == names[i]
        }),
{
    assert(ControlCapability::ALL@ =~= seq![
        ControlCapability::ReadMetadata,
        ControlCapability::FocusWorkspace,
        ControlCapability::ControlSession,
        ControlCapability::SendShortcut,
        ControlCapability::CloseStream,
        ControlCapability::ApprovePairing,
    ]);
    if values@.len() > 0 {
        let names = listed_names(texts(values@));
        lemma_first_unknown_place(names);
        if let Ok(allowed) = r {
            assert(capability_names(allowed@).len() == allowed@.len());
            assert forall|i: int| 0 <= i < names.len() implies (#[trigger] allowed@[i]).spec_as_str()
                == names[i] by {
                assert(capability_names(allowed@)[i] == names[i]);
            }
        }
    }
}

proof fn lemma_first_unknown_place(names: Seq<Seq<char>>)
    ensures
        0 <= first_unknown(names) <= names.len(),
        first_unknown(names) < names.len() ==> !is_capability_name(names[first_unknown(names)]),
        forall|i: int| 0 <= i < first_unknown(names) ==> is_capability_name(#[trigger] names[i]),
    decreases names.len(),
{
    if names.len() > 0 && is_capability_name(names[0]) {
        let rest = names.drop_first();
        lemma_first_unknown_place(rest);
        assert forall|i: int| 0 <= i < first_unknown(names) implies is_capability_name(
            #[trigger] names[i],
        ) by {
            if i > 0 {
                assert(rest[i - 1] == names[i]);
            }
        }
        if first_unknown(rest) < rest.len() {
            assert(rest[first_unknown(rest)] == names[first_unknown(names)]);
        }
    }
}

/// The names of a list are its pieces in their order, without the space around them; blank ones are
/// none.
pub proof fn law_blank_names_are_none(pieces: Seq<Seq<char>>, next: Seq<char>, values: Seq<Seq<char>>)
    ensures
        nonblank(Seq::empty()).len() == 0,
        trimmed(next).len() > 0 ==> nonblank(pieces.push(next)) == nonblank(pieces).push(trimmed(next)),
        trimmed(next).len() == 0 ==> nonblank(pieces.push(next)) == nonblank(pieces),
        listed_names(values.push(next)) == listed_names(values) + nonblank(
            split_when(next, |c: char| c == ','),
        ),
{
    assert(pieces.push(next).drop_last() =~= pieces);
    assert(values.push(next).drop_last() =~= values);
}

/// A modifier has these names, in whatever case, and a list of them is between plus signs, spaces or
/// commas. Only a list of such names is taken, as it stands.
pub proof fn law_modifiers_have_their_names(
    input: &str,
    names: Seq<Seq<char>>,
    i: int,
    r: Result<Vec<KeyModifier>, String>,
)
    requires
        call_ensures(parse_modifiers, (input,), r),
        names == nonblank(split_when(input@, |c: char| c == '+' || c == ' ' || c == ',')),
        0 <= i < names.len(),
    ensures
        r matches Ok(mods) ==> mods@.len() == names.len(),
        r matches Ok(mods) ==> (mods@[i] == KeyModifier::Super <==> ascii_lower(names[i]) == "super"@
            || ascii_lower(names[i]) == "win"@ || ascii_lower(names[i]) == "meta"@ || ascii_lower(names[i])
            == "mod"@),
        r matches Ok(mods) ==> (ascii_lower(names[i]) == "ctrl"@ || ascii_lower(names[i]) == "control"@
            ==> mods@[i] == KeyModifier::Ctrl),
        r matches Ok(mods) ==> (ascii_lower(names[i]) == "alt"@ ==> mods@[i] == KeyModifier::Alt),
        r matches Ok(mods) ==> (ascii_lower(names[i]) == "shift"@ ==> mods@[i] == KeyModifier::Shift),
        ({
            let low = ascii_lower(names[i]);
            low != "super"@ && low != "win"@ && low != "meta"@ && low != "mod"@ && low != "ctrl"@ && low
                != "control"@ && low != "alt"@ && low != "shift"@
        }) ==> r is Err,
{
    lemma_modifier_names_differ();
    lemma_modifiers_by_place(names, i);
    assert(parsed_modifiers(input@) == modifiers_named(names));
}

proof fn lemma_modifier_names_differ()
    ensures
        "super"@.len() == 5 && "super"@[1] == 'u',
        "win"@.len() == 3 && "win"@[0] == 'w',
        "meta"@.len() == 4 && "meta"@[0] == 'm',
        "mod"@.len() == 3 && "mod"@[0] == 'm',
        "ctrl"@.len() == 4 && "ctrl"@[0] == 'c',
        "control"@.len() == 7,
        "alt"@.len() == 3 && "alt"@[0] == 'a',
        "shift"@.len() == 5 && "shift"@[1] == 'h',
{
    reveal_strlit("super");
    reveal_strlit("win");
    reveal_strlit("meta");
    reveal_strlit("mod");
    reveal_strlit("ctrl");
    reveal_strlit("control");
    reveal_strlit("alt");
    reveal_strlit("shift");
}

proof fn lemma_modifiers_by_place(names: Seq<Seq<char>>, i: int)
    requires
        0 <= i < names.len(),
    ensures
        modifiers_named(names) matches Ok(mods) ==> mods.len() == names.len() && modifier_named(names[i])
            == Some(mods[i]),
        modifier_named(names[i]) is None ==> modifiers_named(names) is Err,
    decreases names.len(),
{
    let before = names.drop_last();
    if i < names.len() - 1 {
        assert(before[i] == names[i]);
        lemma_modifiers_by_place(before, i);
    } else if before.len() > 0 {
        lemma_modifiers_by_place(before, 0);
    }
}

/// A command is built from what was asked for, and only one that may be carried out: a shortcut with
/// the modifiers and the key that were named, for the window that was named.
pub proof fn law_a_command_is_what_was_asked_for(
    action: CommandAction,
    r: Result<RemoteCommand, CommandLineError>,
)
    requires
        call_ensures(remote_command, (action,), r),
    ensures
        r matches Ok(command) ==> command@.validated() is Ok,
        action matches CommandAction::SwitchDisplay { display } ==> {
            &&& r is Ok <==> crate::domain::valid_display_id(display@)
            &&& r matches Ok(command) ==> command@ == (RemoteCommandView::SwitchStreamDisplay {
                display: display@,
            })
        },
        action matches CommandAction::CloseWindow { window_class, window_address } ==> {
            &&& r matches Ok(command) ==> command@ is CloseWindow && command@->CloseWindow_window
                == selector_of(opt_text(window_class), opt_text(window_address))
            &&& r is Ok <==> selector_of(opt_text(window_class), opt_text(window_address)).valid()
        },
        action matches CommandAction::SendShortcut { mods, key, window_class, window_address } ==> {
            &&& r matches Ok(command) ==> (command@ matches RemoteCommandView::SendShortcut {
                chord,
                window,
            } && chord.key == key@ && window == selector_of(opt_text(window_class), opt_text(window_address))
                && parsed_modifiers(mods@) is Ok && forall|m: KeyModifier|
                #![auto]
                chord.mods.contains(m) <==> parsed_modifiers(mods@)->Ok_0.contains(m))
            &&& r is Ok <==> parsed_modifiers(mods@) is Ok && safe_key_token(key@) && selector_of(
                opt_text(window_class),
                opt_text(window_address),
            ).valid()
        },
{
    assert(built(r) is Ok <==> r is Ok);
    if let CommandAction::SendShortcut { mods, key, window_class, window_address } = action {
        if let Ok(list) = parsed_modifiers(mods@) {
            crate::domain::law_modifiers_are_ordered_and_distinct(list);
        }
    }
}

/// What is wrong with a command line is said in words of its own.
pub proof fn law_command_line_errors_are_said_in_words(error: CommandLineError, r: String)
    requires
        call_ensures(CommandLineError::message, (&error,), r),
    ensures
        error matches CommandLineError::UnknownModifier(text) ==> r@ == text@,
        error is InvalidKeyChord ==> r@ == "invalid key chord"@,
        error is InvalidCommand ==> r@ == "invalid command"@,
{
}

/// Only an address with a port needs no looking up.
pub proof fn law_an_address_with_a_port_is_an_endpoint(
    address: Option<IpAddr>,
    port: Option<u16>,
    r: Option<AgentEndpoint>,
)
    requires
        call_ensures(explicit_endpoint, (address, port), r),
    ensures
        r is Some <==> address is Some && port is Some,
        r matches Some(endpoint) ==> Some(endpoint.address) == address && Some(endpoint.port) == port,
{
}

/// The agent of a target is at the address that the target is, or else at an address of the first peer
/// that is online and has the name that the target stands for; always at the port of the settings.
pub proof fn law_an_agent_is_found_at_its_peer(
    target: &str,
    address: Option<IpAddr>,
    config: Config,
    peers: Vec<MeshPeer>,
    i: int,
    r: Result<AgentEndpoint, String>,
)
    requires
        call_ensures(resolve_endpoint, (target, address, &config, &peers), r),
        0 <= i <= peers@.len(),
        forall|k: int|
            0 <= k < i ==> !online_as(resolved_name(config.devices@, target@))(#[trigger] peers@[k]),
        i < peers@.len() ==> online_as(resolved_name(config.devices@, target@))(peers@[i]),
    ensures
        r matches Ok(endpoint) ==> endpoint.port == config.network.agent_port,
        address matches Some(given) ==> (r matches Ok(endpoint) && endpoint.address == given),
        address is None && i == peers@.len() ==> r is Err,
        address is None && i < peers@.len() ==> (r is Ok <==> peers@[i].ips@.len() > 0),
        (address is None && i < peers@.len() && r is Ok) ==> peers@[i].ips@.contains(r->Ok_0.address),
{
    let p = online_as(resolved_name(config.devices@, target@));
    if i < peers@.len() {
        lemma_first_where_at(peers@, p, i);
        crate::domain::law_the_preferred_address_is_one_of_them(peers@[i].ips@);
    } else {
        lemma_first_where_none(peers@, p);
    }
}

/// Only a peer that is online is found: by its host name, its identity, or the start of its name in the
/// tailnet.
pub proof fn law_only_peers_that_are_online_are_found(peer: MeshPeer, name: Seq<char>)
    ensures
        online_as(name)(peer) ==> peer.online,
        peer.online && (peer.hostname matches Some(host) && host@ == name) ==> online_as(name)(peer),
        peer.online && peer.tailnet_node_id@ == name ==> online_as(name)(peer),
        peer.online && (peer.dns_name matches Some(dns) && begins_with(without_trailing_dots(dns@), name))
            ==> online_as(name)(peer),
        online_as(name)(peer) && peer.hostname is None && peer.dns_name is None
            ==> peer.tailnet_node_id@ == name,
{
}

/// A target is identified by the first peer of that host name or identity, online or not.
pub proof fn law_a_target_is_identified_by_its_peer(
    target: &str,
    peers: Vec<MeshPeer>,
    i: int,
    r: Result<String, String>,
    identity: Option<MeshNodeIdentity>,
    s: Result<String, &'static str>,
)
    requires
        call_ensures(resolve_tailnet_identity, (target, &peers), r),
        call_ensures(identity_of_address, (identity,), s),
        0 <= i <= peers@.len(),
        forall|k: int|
            0 <= k < i ==> (#[trigger] peers@[k]).tailnet_node_id@ != target@ && opt_text(
                peers@[k].hostname,
            ) != Some(target@),
        i < peers@.len() ==> peers@[i].tailnet_node_id@ == target@ || opt_text(peers@[i].hostname)
            == Some(target@),
    ensures
        r is Ok <==> i < peers@.len(),
        r matches Ok(id) ==> id@ == peers@[i].tailnet_node_id@,
        s is Ok <==> identity is Some,
        identity matches Some(machine) ==> s == Ok::<String, &'static str>(machine.tailnet_node_id),
{
    let p = known_as(target@);
    if i < peers@.len() {
        lemma_first_where_at(peers@, p, i);
    } else {
        lemma_first_where_none(peers@, p);
    }
}

/// A stream is as it is asked for. The bitrate that is asked for goes before that of the settings, of
/// which zero is none; what is out of bounds is refused, the bitrate first.
pub proof fn law_a_stream_is_as_it_is_asked_for(
    args: ConnectArgs,
    configured: u32,
    r: Result<StreamProfile, &'static str>,
)
    requires
        call_ensures(stream_profile_of, (&args, configured), r),
    ensures
        ({
            let mbps = if args.bitrate is Some {
                args.bitrate->0
            } else {
                configured
            };
            let none = args.bitrate is None && configured == 0;
            let fits = none || 1 <= mbps <= 500;
            let size = 320 <= args.width <= 7680 && 240 <= args.height <= 4320 && 15 <= args.fps <= 480;
            &&& r is Ok <==> fits && size
            &&& !fits ==> (r matches Err(text) && text@ == "invalid stream bitrate"@)
            &&& fits && !size ==> (r matches Err(text) && text@ == "invalid stream profile"@)
            &&& r matches Ok(profile) ==> profile.width == args.width && profile.height == args.height
                && profile.fps == args.fps && profile.codec_preference == args.codec && profile.audio
                == !args.no_audio && (none ==> profile.bitrate_kbps is None) && (!none ==> (
            profile.bitrate_kbps matches Some(kbps) && kbps == 1000 * mbps))
        }),
{
}

/// A connection is asked for on the whole screen, unless a window is wanted; a window is named before
/// an application, and pairing is tried where it is needed.
pub proof fn law_a_connection_is_as_it_is_asked_for(
    args: ConnectArgs,
    profile: StreamProfile,
    endpoint: AgentEndpoint,
    controller: AgentEndpoint,
    r: ConnectRequest,
)
    requires
        call_ensures(connect_request, (&args, profile, endpoint, controller), r),
    ensures
        r.endpoint == endpoint,
        r.controller_endpoint == controller,
        r.profile == profile,
        r.input_mode == args.input,
        r.auto_pair,
        !r.fullscreen <==> args.windowed && !args.fullscreen,
        args.window matches Some(window) ==> (r.focus_window matches Some(named) && named@ == window@),
        args.window is None && args.app_id is None ==> r.focus_window is None,
        args.window is None ==> (args.app_id matches Some(id) ==> (r.focus_window matches Some(named)
            && named@ == id@)),
        r.focus_workspace is Some <==> args.workspace is Some,
        args.workspace matches Some(name) ==> r.focus_workspace->0@ == workspace_named(name@),
{
    assert(opt_workspace(r.focus_workspace) is Some <==> r.focus_workspace is Some);
}

/// Only the process that the session started is stopped.
pub proof fn law_only_the_own_process_is_stopped(
    record: SessionRecord,
    stat: Option<&str>,
    running: bool,
    r: DisconnectPlan,
)
    requires
        call_ensures(disconnect_plan, (&record, stat), r),
        record.moonlight matches Some(process) ==> call_ensures(
            crate::session_record::SupervisedProcess::is_still_running,
            (&process, stat),
            running,
        ),
    ensures
        r.signal is Some <==> record.moonlight is Some && running,
        r.signal matches Some(pid) ==> record.moonlight->0.pid == pid,
        record.moonlight is None ==> r.message@ == "Session has no supervised Moonlight process"@,
        r.signal matches Some(pid) ==> r.message@ == "Signalled Moonlight process "@ + decimal(pid as nat)
            + " to stop"@,
{
}

/// The input is local unless a session with remote input runs.
pub proof fn law_input_is_local_without_a_session(
    record: Option<&SessionRecord>,
    r: String,
    mode: InputMode,
    name: &'static str,
)
    requires
        call_ensures(input_status, (record,), r),
        call_ensures(input_name, (mode,), name),
    ensures
        record is None ==> r@ == "input mode: "@ + "local"@,
        record matches Some(session) ==> (session.input_mode == InputMode::Remote ==> r@
            == "input mode: "@ + "remote"@),
        record matches Some(session) ==> (session.input_mode == InputMode::Local ==> r@ == "input mode: "@
            + "local"@),
        mode == InputMode::Local ==> name@ == "local"@,
        mode == InputMode::Remote ==> name@ == "remote"@,
{
}

/// What is printed of a session, of an entry of the allowlist, of a device and of a computer.
pub proof fn law_lines_tell_what_they_are_of(
    record: SessionRecord,
    session: String,
    entry: AllowedController,
    access: String,
    node: DiscoveredNode,
    device: String,
    told: NodeInfoResponse,
    lines: Vec<String>,
)
    requires
        call_ensures(session_line, (&record,), session),
        call_ensures(access_line, (&entry,), access),
        call_ensures(device_line, (&node,), device),
        call_ensures(info_lines, (&told,), lines),
    ensures
        session@ == "node "@ + sanitized(record.remote_node@, 96) + "  ·  pid "@ + (if record.moonlight is Some {
            decimal(record.moonlight->0.pid as nat)
        } else {
            "—"@
        }) + "  ·  input "@ + (if record.input_mode == InputMode::Local {
            "local"@
        } else {
            "remote"@
        }),
        access@ == sanitized(entry.tailnet_node_id@, 96) + "\t"@ + sanitized(
            if entry.label is Some {
                entry.label->0@
            } else {
                "—"@
            },
            96,
        ) + "\t"@ + joined(capability_names(entry.capabilities@), ","@),
        device@ == node.name@ + "\t"@ + (if node.status == DeviceStatus::Ready {
            "Ready"@
        } else if node.status == DeviceStatus::Offline {
            "Offline"@
        } else if node.status == DeviceStatus::AgentUnknown {
            "AgentUnknown"@
        } else {
            "Incompatible"@
        }) + "\t"@ + (if node.connection == ConnectionKind::Direct {
            "Direct"@
        } else if node.connection == ConnectionKind::Relay {
            "Relay"@
        } else {
            "Unknown"@
        }) + "\t"@ + (if node.latency_ms is Some {
            decimal(node.latency_ms->0 as nat) + "ms"@
        } else {
            "—"@
        }),
        texts(lines@) == seq![
            told.hostname@ + " ("@ + told.node_id@ + ")"@,
            "Omarchy "@ + told.omarchy_version@ + "  ·  agent "@ + told.agent_version@,
        ],
{
}

/// A window is called by its title, else its application, else its class; its own line has its
/// workspace, its application and its title.
pub proof fn law_a_window_is_called_by_its_title(window: Window, label: &str, line: String)
    requires
        call_ensures(window_label, (&window,), label),
        call_ensures(window_line, (&window,), line),
    ensures
        window.title matches Some(title) ==> label@ == title@,
        window.title is None ==> (window.app_id matches Some(id) ==> label@ == id@),
        window.title is None && window.app_id is None ==> (window.class matches Some(class) ==> label@
            == class@),
        window.title is None && window.app_id is None && window.class is None ==> label@ == "—"@,
        (window.app_id is Some && window.title is Some) ==> line@ == signed(window.workspace.0 as int)
            + "\t"@ + window.app_id->0@ + "\t"@ + window.title->0@,
        (window.app_id is None && window.class is Some && window.title is None) ==> line@ == signed(
            window.workspace.0 as int,
        ) + "\t"@ + window.class->0@ + "\t"@ + "—"@,
{
}

/// A workspace is printed with its own windows below it, in their order, and with no others.
pub proof fn law_a_workspace_has_its_own_windows(
    workspace: Workspace,
    windows: &[Window],
    r: Vec<String>,
    earlier: Seq<Window>,
    next: Window,
    id: WorkspaceId,
)
    requires
        call_ensures(workspace_lines, (&workspace, windows), r),
    ensures
        texts(r@) == seq![
            signed(workspace.id.0 as int) + "  "@ + (if workspace.name is Some {
                workspace.name->0@
            } else {
                "—"@
            }),
        ] + window_rows(windows@, workspace.id),
        window_rows(Seq::empty(), id).len() == 0,
        next.workspace != id ==> window_rows(earlier.push(next), id) == window_rows(earlier, id),
        next.workspace == id ==> window_rows(earlier.push(next), id).len() == window_rows(
            earlier,
            id,
        ).len() + 1,
        (next.workspace == id && next.title is Some) ==> window_rows(earlier.push(next), id)
            == window_rows(earlier, id).push("   "@ + next.title->0@),
{
    assert(earlier.push(next).drop_last() =~= earlier);
    assert(earlier.push(next).last() == next);
}

/// Credentials that are there are left alone; else those of the environment are stored, where it has
/// both and neither is empty; else they are asked for, where there is a terminal to ask at.
pub proof fn law_credentials_are_set_up_once(
    configured: bool,
    username: Option<String>,
    password: Option<String>,
    terminal: bool,
    r: ProvisionStep,
    name: String,
    secret: String,
    s: ProvisionStep,
)
    requires
        call_ensures(provision_sunshine_credentials, (configured, username, password, terminal), r),
        call_ensures(after_prompt, (name, secret), s),
    ensures
        r is Store <==> !configured && (username matches Some(a) && a@.len() > 0) && (password matches Some(
            b,
        ) && b@.len() > 0),
        r is Prompt <==> !configured && terminal && (username is None || password is None),
        r is Store ==> r == (ProvisionStep::Store { username: username->0, password: password->0 }),
        s is Store <==> name@.len() > 0 && secret@.len() > 0,
        s is Store ==> s == (ProvisionStep::Store { username: name, password: secret }),
        s !is Prompt,
{
}

/// This computer pairs under its host name.
pub proof fn law_this_computer_pairs_under_its_name(hostname: Option<String>, r: String)
    requires
        call_ensures(client_name, (hostname,), r),
    ensures
        hostname matches Some(name) ==> r@ == name@,
        hostname is None ==> r@ == "omdesky"@,
{
}

/// Ending a session signals the process that it started, and only where that still runs; what was
/// done is told.
pub proof fn law_disconnecting_tells_what_it_signalled(record: &SessionRecord, stat: Option<&str>, r: DisconnectPlan)
    requires
        call_ensures(disconnect_plan, (record, stat), r),
    ensures
        r.signal matches Some(pid) ==> (record.moonlight matches Some(process) && process.pid == pid)
            && r.message@ == "Signalled Moonlight process "@ + decimal(pid as nat) + " to stop"@,
        r.signal is None ==> (record.moonlight matches Some(process) ==> r.message@ == "Moonlight process "@
            + decimal(process.pid as nat)
            + " is no longer the one this session started; nothing was signalled"@),
        record.moonlight is None ==> r.signal is None && r.message@
            == "Session has no supervised Moonlight process"@,
{
}

/// Credentials that are there already stay; such as are given are stored, unless one is empty; else
/// a person is asked, where there is one.
pub proof fn law_credentials_are_provisioned_once(
    username: Option<String>,
    password: Option<String>,
    is_terminal: bool,
    there: ProvisionStep,
    wanted: ProvisionStep,
)
    requires
        call_ensures(provision_sunshine_credentials, (true, username, password, is_terminal), there),
        call_ensures(provision_sunshine_credentials, (false, username, password, is_terminal), wanted),
    ensures
        there matches ProvisionStep::Done(text) && text@
            == "Sunshine credentials already configured in the desktop Secret Service"@,
        wanted is Prompt <==> is_terminal && (username is None || password is None),
        wanted is Store <==> (username matches Some(u) && u@.len() > 0 && (password matches Some(p) && p@.len() > 0)),
        wanted matches ProvisionStep::Store { username: u, password: p } ==> username == Some(u) && password
            == Some(p),
        !is_terminal && (username is None || password is None) ==> (wanted matches ProvisionStep::Done(text)
            && text@
            == "Skipping Sunshine credential setup (no terminal). Set OMDESKY_SUNSHINE_USERNAME and OMDESKY_SUNSHINE_PASSWORD, or run `omdesky setup` interactively on the host."@),
        username is Some && password is Some && (username->0@.len() == 0 || password->0@.len() == 0) ==> (wanted
            matches ProvisionStep::Done(text) && text@
            == "Skipping Sunshine credential setup (empty username or password)"@),
{
}

/// What was typed is stored, unless a part of it is empty.
pub proof fn law_typed_credentials_are_stored(username: String, password: String, r: ProvisionStep)
    requires
        call_ensures(after_prompt, (username, password), r),
    ensures
        username@.len() > 0 && password@.len() > 0 ==> r == (ProvisionStep::Store { username, password }),
        username@.len() == 0 || password@.len() == 0 ==> (r matches ProvisionStep::Done(text) && text@
            == "Skipping Sunshine credential setup (empty username or password)"@),
{
}

/// A machine that is not found is named as it was asked for.
pub proof fn law_what_is_not_found_is_named(
    target: &str,
    peers: &Vec<MeshPeer>,
    config: &Config,
    identity: Result<String, String>,
    endpoint: Result<AgentEndpoint, String>,
    unseen: Result<String, &'static str>,
)
    requires
        call_ensures(resolve_tailnet_identity, (target, peers), identity),
        call_ensures(resolve_endpoint, (target, None, config, peers), endpoint),
        call_ensures(identity_of_address, (None,), unseen),
    ensures
        identity matches Err(text) ==> text@ == "no Tailnet peer matches '"@ + target@ + "'"@,
        endpoint matches Err(text) ==> text@ == "no online Tailnet peer matches '"@ + target@ + "'"@,
        unseen matches Err(text) && text@ == "target is not a visible Tailscale identity"@,
        endpoint matches Ok(found) ==> found.port == config.network.agent_port,
{
}

} // verus!
