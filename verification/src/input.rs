//! The key bindings of a session and the commands that press keys, as scripts of the compositor.
use vstd::prelude::*;
use vstd::string::*;

use crate::address::{address_text, ip_text};
use crate::domain::{
    joined, ordered_modifiers, safe_key_token, KeyChord, KeyChordView, KeyModifier, RemoteCommand,
    RemoteCommandView, SessionRole, WindowSelector, WindowSelectorView,
};
use crate::ports::{AgentEndpoint, CommandSpec};
use crate::services::MOONLIGHT_WINDOW_CLASS;
use crate::strings::{decimal, push_decimal, same_text, texts};

verus! {

/// A key combination of a session and what it does.
#[derive(Debug, PartialEq, Eq)]
pub struct Keybind {
    pub trigger: &'static str,
    pub description: &'static str,
    pub command: RemoteCommand,
    pub allow_input_capture: bool,
}

pub struct KeybindView {
    pub trigger: Seq<char>,
    pub description: Seq<char>,
    pub command: RemoteCommandView,
    pub allow_input_capture: bool,
}

impl View for Keybind {
    type V = KeybindView;

    open spec fn view(&self) -> KeybindView {
        KeybindView {
            trigger: self.trigger@,
            description: self.description@,
            command: self.command@,
            allow_input_capture: self.allow_input_capture,
        }
    }
}

/// The chord of Moonlight with that key, sent to its window.
pub open spec fn shortcut_command(key: Seq<char>) -> RemoteCommandView {
    RemoteCommandView::SendShortcut {
        chord: KeyChordView {
            mods: ordered_modifiers(seq![KeyModifier::Ctrl, KeyModifier::Alt, KeyModifier::Shift]),
            key,
        },
        window: WindowSelectorView::Class(MOONLIGHT_WINDOW_CLASS@),
    }
}

pub fn moonlight_shortcut(key: &str) -> (r: RemoteCommand)
    requires
        safe_key_token(key@),
    ensures
        r@ == shortcut_command(key@),
{
    let mods: Vec<KeyModifier> = vec![KeyModifier::Ctrl, KeyModifier::Alt, KeyModifier::Shift];
    assert(mods@ =~= seq![KeyModifier::Ctrl, KeyModifier::Alt, KeyModifier::Shift]);
    let window = WindowSelector::Class(MOONLIGHT_WINDOW_CLASS.to_owned());
    match KeyChord::new(mods, key.to_owned()) {
        Ok(chord) => RemoteCommand::SendShortcut { chord, window },
        Err(_) => RemoteCommand::CloseWindow { window },
    }
}

pub open spec fn close_command() -> RemoteCommandView {
    RemoteCommandView::CloseWindow { window: WindowSelectorView::Class(MOONLIGHT_WINDOW_CLASS@) }
}

pub fn moonlight_close_command() -> (r: RemoteCommand)
    ensures
        r@ == close_command(),
{
    RemoteCommand::CloseWindow { window: WindowSelector::Class(MOONLIGHT_WINDOW_CLASS.to_owned()) }
}

/// The bindings of a session: one lets go of the keyboard, one ends the session.
pub open spec fn keybinds() -> Seq<KeybindView> {
    seq![
        KeybindView {
            trigger: "SUPER + R"@,
            description: "toggle remote shortcut capture"@,
            command: shortcut_command("Z"@),
            allow_input_capture: true,
        },
        KeybindView {
            trigger: "SUPER + Q"@,
            description: "close remote session"@,
            command: close_command(),
            allow_input_capture: true,
        },
    ]
}

fn capture_keybind() -> (r: Keybind)
    ensures
        r@ == keybinds()[0],
{
    proof {
        reveal_strlit("Z");
        lemma_one_letter_key("Z"@);
    }
    Keybind {
        trigger: "SUPER + R",
        description: "toggle remote shortcut capture",
        command: moonlight_shortcut("Z"),
        allow_input_capture: true,
    }
}

fn close_keybind() -> (r: Keybind)
    ensures
        r@ == keybinds()[1],
{
    Keybind {
        trigger: "SUPER + Q",
        description: "close remote session",
        command: moonlight_close_command(),
        allow_input_capture: true,
    }
}

pub fn session_keybinds() -> (r: Vec<Keybind>)
    ensures
        r@.map_values(|b: Keybind| b@) == keybinds(),
{
    let mut binds: Vec<Keybind> = Vec::new();
    binds.push(capture_keybind());
    binds.push(close_keybind());
    assert(binds@.map_values(|b: Keybind| b@) =~= keybinds());
    binds
}

/// The name of the key that a modifier is.
pub open spec fn modifier_name(modifier: KeyModifier) -> Seq<char> {
    match modifier {
        KeyModifier::Super => "Super_L"@,
        KeyModifier::Ctrl => "Control_L"@,
        KeyModifier::Alt => "Alt_L"@,
        KeyModifier::Shift => "Shift_L"@,
    }
}

pub fn modifier_key(modifier: KeyModifier) -> (r: &'static str)
    ensures
        r@ == modifier_name(modifier),
{
    match modifier {
        KeyModifier::Super => "Super_L",
        KeyModifier::Ctrl => "Control_L",
        KeyModifier::Alt => "Alt_L",
        KeyModifier::Shift => "Shift_L",
    }
}

/// Brings a key into a state.
pub open spec fn key_state(key: Seq<char>, state: Seq<char>) -> Seq<char> {
    "hl.dsp.send_key_state({ mods = \"\", key = \""@ + key + "\", state = \""@ + state + "\" })"@
}

pub fn key_state_dispatcher(key: &str, state: &str) -> (r: String)
    ensures
        r@ == key_state(key@, state@),
{
    "hl.dsp.send_key_state({ mods = \"\", key = \"".to_owned().concat(key).concat("\", state = \"").concat(
        state,
    ).concat("\" })")
}

/// Brings a key with modifiers into a state.
pub open spec fn chord_state(mods: Seq<char>, key: Seq<char>, state: Seq<char>) -> Seq<char> {
    "hl.dispatch(hl.dsp.send_key_state({ mods = \""@ + mods + "\", key = \""@ + key + "\", state = \""@
        + state + "\" }))"@
}

fn chord_state_dispatch(mods: &str, key: &str, state: &str) -> (r: String)
    ensures
        r@ == chord_state(mods@, key@, state@),
{
    "hl.dispatch(hl.dsp.send_key_state({ mods = \"".to_owned().concat(mods).concat("\", key = \"").concat(
        key,
    ).concat("\", state = \"").concat(state).concat("\" }))")
}

pub open spec fn focus(window: WindowSelectorView) -> Seq<char> {
    "hl.dsp.focus({ window = \""@ + window.as_hypr() + "\" })"@
}

pub fn focus_dispatcher(window: &WindowSelector) -> (r: String)
    ensures
        r@ == focus(window@),
{
    "hl.dsp.focus({ window = \"".to_owned().concat(window.as_hypr().as_str()).concat("\" })")
}

pub open spec fn restore_focus(address: Seq<char>) -> Seq<char> {
    "hl.dsp.focus({ window = \"address:"@ + address + "\" })"@
}

pub fn restore_focus_dispatcher(address: &str) -> (r: String)
    ensures
        r@ == restore_focus(address@),
{
    "hl.dsp.focus({ window = \"address:".to_owned().concat(address).concat("\" })")
}

pub open spec fn modifier_states(mods: Seq<KeyModifier>, state: Seq<char>) -> Seq<Seq<char>> {
    mods.map_values(|m: KeyModifier| key_state(modifier_name(m), state))
}

/// The modifiers go down in their order, then the key goes down and up, then the modifiers go up
/// in the opposite order.
pub open spec fn key_sequence(chord: KeyChordView) -> Seq<Seq<char>> {
    modifier_states(chord.mods, "down"@) + seq![
        key_state(chord.key, "down"@),
        key_state(chord.key, "up"@),
    ] + modifier_states(chord.mods.reverse(), "up"@)
}

pub fn shortcut_key_dispatchers(chord: &KeyChord) -> (r: Vec<String>)
    ensures
        texts(r@) == key_sequence(chord@),
{
    let mods = chord.modifiers();
    let ghost down = modifier_states(chord@.mods, "down"@);
    let ghost up = modifier_states(chord@.mods.reverse(), "up"@);
    let mut out: Vec<String> = Vec::new();
    let mut i: usize = 0;
    assert(texts(out@) =~= down.take(0));
    while i < mods.len()
        invariant
            i <= mods@.len(),
            mods@ == chord@.mods,
            down == modifier_states(chord@.mods, "down"@),
            texts(out@) == down.take(i as int),
        decreases mods@.len() - i,
    {
        let ghost before = out@;
        let text = key_state_dispatcher(modifier_key(mods[i]), "down");
        out.push(text);
        assert(texts(out@) =~= texts(before).push(text@));
        assert(down.take(i + 1) =~= down.take(i as int).push(down[i as int]));
        i += 1;
    }
    assert(down.take(down.len() as int) =~= down);
    let ghost before = out@;
    let press = key_state_dispatcher(chord.key(), "down");
    let release = key_state_dispatcher(chord.key(), "up");
    out.push(press);
    out.push(release);
    let ghost pressed = down + seq![
        key_state(chord@.key, "down"@),
        key_state(chord@.key, "up"@),
    ];
    assert(texts(out@) =~= pressed);
    let mut left: usize = mods.len();
    assert(texts(out@) =~= pressed + up.take(0));
    while left > 0
        invariant
            left <= mods@.len(),
            mods@ == chord@.mods,
            up == modifier_states(chord@.mods.reverse(), "up"@),
            texts(out@) == pressed + up.take(mods@.len() - left),
        decreases left,
    {
        let ghost before = out@;
        let ghost k = mods@.len() - left;
        let text = key_state_dispatcher(modifier_key(mods[left - 1]), "up");
        out.push(text);
        assert(text@ == up[k]);
        assert(texts(out@) =~= texts(before).push(text@));
        assert(up.take(k + 1) =~= up.take(k).push(up[k]));
        assert(texts(out@) =~= pressed + up.take(k + 1));
        left -= 1;
    }
    assert(up.take(up.len() as int) =~= up);
    out
}

/// Every key that goes down goes up again, and the last that went down goes up first.
pub proof fn law_shortcuts_release_what_they_press(chord: KeyChordView, i: int)
    requires
        0 <= i <= chord.mods.len(),
    ensures
        ({
            let n = key_sequence(chord).len() as int;
            let name = if i < chord.mods.len() {
                modifier_name(chord.mods[i])
            } else {
                chord.key
            };
            &&& n == 2 * chord.mods.len() + 2
            &&& key_sequence(chord)[i] == key_state(name, "down"@)
            &&& key_sequence(chord)[n - 1 - i] == key_state(name, "up"@)
        }),
{
}

/// The actions one after the other, with a pause between each two.
pub open spec fn timed(actions: Seq<Seq<char>>) -> Seq<char>
    decreases actions.len(),
{
    if actions.len() == 0 {
        Seq::empty()
    } else if actions.len() == 1 {
        "hl.dispatch("@ + actions[0] + "); return true"@
    } else {
        "hl.dispatch("@ + actions[0] + "); hl.timer(function() "@ + timed(actions.drop_first())
            + " end, { timeout = 25, type = \"oneshot\" })"@
    }
}

fn timed_lua(actions: &Vec<String>, from: usize) -> (r: String)
    requires
        from < actions@.len(),
    ensures
        r@ == timed(texts(actions@).skip(from as int)),
    decreases actions@.len() - from,
{
    let ghost all = texts(actions@);
    let ghost rest = all.skip(from as int);
    assert(rest[0] == actions@[from as int]@);
    let start = "hl.dispatch(".to_owned().concat(actions[from].as_str());
    if actions.len() - from == 1 {
        return start.concat("); return true");
    }
    assert(rest.drop_first() =~= all.skip(from + 1));
    let tail = timed_lua(actions, from + 1);
    start.concat("); hl.timer(function() ").concat(tail.as_str()).concat(
        " end, { timeout = 25, type = \"oneshot\" })",
    )
}

pub open spec fn opt_str(s: Option<&str>) -> Option<Seq<char>> {
    match s {
        Some(s) => Some(s@),
        None => None,
    }
}

/// The step that brings a window to the front, where one is named.
pub open spec fn focus_first(window: WindowSelectorView) -> Seq<char> {
    match window {
        WindowSelectorView::ActiveWindow => Seq::empty(),
        _ => "hl.dispatch("@ + focus(window) + "); "@,
    }
}

/// The step back to the window that had the focus.
pub open spec fn focus_last(address: Option<Seq<char>>) -> Seq<char> {
    match address {
        Some(address) => "; hl.dispatch("@ + restore_focus(address) + ")"@,
        None => Seq::empty(),
    }
}

pub open spec fn restore_steps(address: Option<Seq<char>>) -> Seq<Seq<char>> {
    match address {
        Some(address) => seq![restore_focus(address)],
        None => Seq::empty(),
    }
}

pub open spec fn mods_text(chord: KeyChordView) -> Seq<char> {
    joined(chord.mods.map_values(|m: KeyModifier| m.spec_as_hypr()), " "@)
}

/// The script that sends a shortcut. The one by which Moonlight lets go of the keyboard goes out
/// with its modifiers in one; the others key by key.
pub open spec fn shortcut_lua(
    chord: KeyChordView,
    window: WindowSelectorView,
    restore_address: Option<Seq<char>>,
) -> Seq<char> {
    if chord.key == "Z"@ {
        focus_first(window) + chord_state(mods_text(chord), chord.key, "down"@)
            + "; hl.timer(function() "@ + chord_state(mods_text(chord), chord.key, "up"@)
            + focus_last(restore_address) + " end, { timeout = 50, type = \"oneshot\" }); return true"@
    } else {
        focus_first(window) + timed(key_sequence(chord) + restore_steps(restore_address))
    }
}

pub fn timed_shortcut_lua(chord: &KeyChord, window: &WindowSelector, restore_address: Option<&str>) -> (r: String)
    ensures
        r@ == shortcut_lua(chord@, window@, opt_str(restore_address)),
{
    let first = match window {
        WindowSelector::ActiveWindow => {
            let empty = String::new();
            assert(empty@ =~= Seq::<char>::empty());
            empty
        },
        _ => "hl.dispatch(".to_owned().concat(focus_dispatcher(window).as_str()).concat("); "),
    };
    if same_text(chord.key(), "Z") {
        let mods = chord.modifiers_hypr();
        let last = match restore_address {
            Some(address) => "; hl.dispatch(".to_owned().concat(
                restore_focus_dispatcher(address).as_str(),
            ).concat(")"),
            None => {
                let empty = String::new();
                assert(empty@ =~= Seq::<char>::empty());
                empty
            },
        };
        let down = chord_state_dispatch(mods.as_str(), chord.key(), "down");
        let up = chord_state_dispatch(mods.as_str(), chord.key(), "up");
        return first.concat(down.as_str()).concat("; hl.timer(function() ").concat(up.as_str()).concat(
            last.as_str(),
        ).concat(" end, { timeout = 50, type = \"oneshot\" }); return true");
    }
    let mut actions = shortcut_key_dispatchers(chord);
    let ghost keys = actions@;
    assert(texts(actions@).len() == actions@.len());
    if let Some(address) = restore_address {
        let back = restore_focus_dispatcher(address);
        actions.push(back);
        assert(texts(actions@) =~= texts(keys) + seq![back@]);
    }
    assert(texts(actions@) =~= key_sequence(chord@) + restore_steps(opt_str(restore_address)));
    assert(texts(actions@).skip(0) =~= texts(actions@));
    first.concat(timed_lua(&actions, 0).as_str())
}

/// The argument by which `hyprctl` takes several scripts.
pub open spec fn batch(dispatchers: Seq<Seq<char>>) -> Seq<char> {
    joined(dispatchers.map_values(|d: Seq<char>| "eval hl.dispatch("@ + d + ")"@), " ; "@)
}

pub fn hyprctl_batch_argument(dispatchers: &[String]) -> (r: String)
    ensures
        r@ == batch(texts(dispatchers@)),
{
    let ghost parts = texts(dispatchers@).map_values(|d: Seq<char>| "eval hl.dispatch("@ + d + ")"@);
    let mut out = String::new();
    let mut i: usize = 0;
    while i < dispatchers.len()
        invariant
            i <= dispatchers@.len(),
            parts == texts(dispatchers@).map_values(
                |d: Seq<char>| "eval hl.dispatch("@ + d + ")"@,
            ),
            out@ == joined(parts.take(i as int), " ; "@),
        decreases dispatchers@.len() - i,
    {
        if i > 0 {
            out.append(" ; ");
        }
        let part = "eval hl.dispatch(".to_owned().concat(dispatchers[i].as_str()).concat(")");
        assert(part@ == parts[i as int]);
        out.append(part.as_str());
        assert(parts.take(i + 1).drop_last() =~= parts.take(i as int));
        if i == 0 {
            assert(Seq::<char>::empty() + parts[0] =~= parts[0]);
        }
        i += 1;
    }
    assert(parts.take(parts.len() as int) =~= parts);
    out
}

pub open spec fn close_window(window: WindowSelectorView) -> Seq<char> {
    "hl.dsp.window.close({ window = \""@ + window.as_hypr() + "\" })"@
}

fn close_dispatcher(window: &WindowSelector) -> (r: String)
    ensures
        r@ == close_window(window@),
{
    "hl.dsp.window.close({ window = \"".to_owned().concat(window.as_hypr().as_str()).concat("\" })")
}

/// The modifiers of a list that a chord does not hold.
pub open spec fn not_in(mods: Seq<KeyModifier>) -> spec_fn(KeyModifier) -> bool {
    |m: KeyModifier| !mods.contains(m)
}

/// The steps of a command that acts on a window, `None` for the others. Modifiers that are still
/// held, and are not part of the chord, are let go first.
pub open spec fn actions_of(command: RemoteCommandView, held: Seq<KeyModifier>) -> Option<Seq<Seq<char>>> {
    match command {
        RemoteCommandView::SendShortcut { chord, window } => Some(
            seq![focus(window)] + modifier_states(held.filter(not_in(chord.mods)), "up"@) + key_sequence(
                chord,
            ),
        ),
        RemoteCommandView::CloseWindow { window } => Some(seq![close_window(window)]),
        _ => None,
    }
}

fn holds_modifier(mods: &[KeyModifier], m: KeyModifier) -> (r: bool)
    ensures
        r == mods@.contains(m),
{
    let mut i: usize = 0;
    while i < mods.len()
        invariant
            i <= mods@.len(),
            forall|k: int| 0 <= k < i ==> mods@[k] != m,
        decreases mods@.len() - i,
    {
        if mods[i] == m {
            assert(mods@[i as int] == m);
            return true;
        }
        i += 1;
    }
    false
}

fn release_held(chord: &KeyChord, held: &[KeyModifier]) -> (r: Vec<String>)
    ensures
        texts(r@) == modifier_states(held@.filter(not_in(chord@.mods)), "up"@),
{
    let ghost p = not_in(chord@.mods);
    let mut out: Vec<String> = Vec::new();
    let mut i: usize = 0;
    proof {
        crate::seqs::lemma_filter_nothing(held@.take(0), p);
    }
    assert(texts(out@) =~= modifier_states(held@.take(0).filter(p), "up"@));
    while i < held.len()
        invariant
            i <= held@.len(),
            p == not_in(chord@.mods),
            texts(out@) == modifier_states(held@.take(i as int).filter(p), "up"@),
        decreases held@.len() - i,
    {
        proof {
            crate::seqs::lemma_filter_step(held@, p, i as int);
        }
        let ghost before = out@;
        let ghost kept = held@.take(i as int).filter(p);
        if !holds_modifier(chord.modifiers(), held[i]) {
            let text = key_state_dispatcher(modifier_key(held[i]), "up");
            out.push(text);
            assert(texts(out@) =~= texts(before).push(text@));
            assert(modifier_states(kept.push(held@[i as int]), "up"@) =~= modifier_states(kept, "up"@).push(
                text@,
            ));
        }
        i += 1;
    }
    assert(held@.take(held@.len() as int) =~= held@);
    out
}

pub open spec fn opt_texts(r: Option<Vec<String>>) -> Option<Seq<Seq<char>>> {
    match r {
        Some(v) => Some(texts(v@)),
        None => None,
    }
}

pub fn command_actions(command: &RemoteCommand, held_modifiers: &[KeyModifier]) -> (r: Option<Vec<String>>)
    ensures
        opt_texts(r) == actions_of(command@, held_modifiers@),
{
    match command {
        RemoteCommand::SendShortcut { chord, window } => {
            let first = focus_dispatcher(window);
            let mut actions: Vec<String> = Vec::new();
            actions.push(first);
            assert(texts(actions@) =~= seq![focus(window@)]);
            let mut held = release_held(chord, held_modifiers);
            let ghost a = actions@;
            let ghost b = held@;
            actions.append(&mut held);
            let mut keys = shortcut_key_dispatchers(chord);
            let ghost c = keys@;
            actions.append(&mut keys);
            assert(texts(actions@) =~= texts(a) + texts(b) + texts(c));
            Some(actions)
        },
        RemoteCommand::CloseWindow { window } => {
            let mut actions: Vec<String> = Vec::new();
            actions.push(close_dispatcher(window));
            assert(texts(actions@) =~= seq![close_window(window@)]);
            Some(actions)
        },
        _ => None,
    }
}

/// The option by which the command line names a window.
pub open spec fn window_option(window: WindowSelectorView) -> Seq<char> {
    match window {
        WindowSelectorView::ActiveWindow => Seq::empty(),
        WindowSelectorView::Class(class) => " --window-class "@ + class,
        WindowSelectorView::Address(address) => " --window-address "@ + address,
    }
}

fn window_argument(window: &WindowSelector) -> (r: String)
    ensures
        r@ == window_option(window@),
{
    match window {
        WindowSelector::ActiveWindow => {
            let empty = String::new();
            assert(empty@ =~= Seq::<char>::empty());
            empty
        },
        WindowSelector::Class(class) => " --window-class ".to_owned().concat(class.as_str()),
        WindowSelector::Address(address) => " --window-address ".to_owned().concat(address.as_str()),
    }
}

pub open spec fn endpoint_arguments(endpoint: AgentEndpoint) -> Seq<char> {
    ip_text(endpoint.address) + " --port "@ + decimal(endpoint.port as nat)
}

fn endpoint_options(endpoint: &AgentEndpoint) -> (r: String)
    ensures
        r@ == endpoint_arguments(*endpoint),
{
    let mut out = address_text(endpoint.address).concat(" --port ");
    push_decimal(&mut out, endpoint.port as u64);
    out
}

/// The command line that sends a command to an agent.
pub open spec fn invocation_of(command: RemoteCommandView, endpoint: AgentEndpoint) -> Option<Seq<char>> {
    match command {
        RemoteCommandView::SendShortcut { chord, window } => Some(
            "omdesk command send-shortcut "@ + endpoint_arguments(endpoint) + " --mods '"@ + mods_text(
                chord,
            ) + "' --key "@ + chord.key + window_option(window),
        ),
        RemoteCommandView::CloseWindow { window } => Some(
            "omdesk command close-window "@ + endpoint_arguments(endpoint) + window_option(window),
        ),
        _ => None,
    }
}

pub open spec fn opt_string(r: Option<String>) -> Option<Seq<char>> {
    match r {
        Some(s) => Some(s@),
        None => None,
    }
}

pub fn command_cli_invocation(command: &RemoteCommand, endpoint: &AgentEndpoint) -> (r: Option<String>)
    ensures
        opt_string(r) == invocation_of(command@, *endpoint),
{
    match command {
        RemoteCommand::SendShortcut { chord, window } => {
            let target = endpoint_options(endpoint);
            let mods = chord.modifiers_hypr();
            let option = window_argument(window);
            Some(
                "omdesk command send-shortcut ".to_owned().concat(target.as_str()).concat(
                    " --mods '",
                ).concat(mods.as_str()).concat("' --key ").concat(chord.key()).concat(option.as_str()),
            )
        },
        RemoteCommand::CloseWindow { window } => {
            let target = endpoint_options(endpoint);
            let option = window_argument(window);
            Some(
                "omdesk command close-window ".to_owned().concat(target.as_str()).concat(
                    option.as_str(),
                ),
            )
        },
        _ => None,
    }
}

pub open spec fn notify_lua(message: Seq<char>) -> Seq<char> {
    "hl.dispatch(hl.dsp.exec_cmd(\"omarchy-notification-send 'Omarchy Desk' '"@ + message + "'\"))"@
}

fn notify(message: &str) -> (r: String)
    ensures
        r@ == notify_lua(message@),
{
    "hl.dispatch(hl.dsp.exec_cmd(\"omarchy-notification-send 'Omarchy Desk' '".to_owned().concat(message).concat(
        "'\"))",
    )
}

/// What a binding runs on the controller: the action itself, then a notification.
pub open spec fn controller_lua(bind: KeybindView) -> Option<Seq<char>> {
    match bind.command {
        RemoteCommandView::SendShortcut { chord, window } => Some(
            "function() ("@ + ("function() hl.timer(function() hl.dispatch("@ + focus(window) + "); "@
                + chord_state(mods_text(chord), chord.key, "down"@) + "; hl.timer(function() "@
                + chord_state(mods_text(chord), chord.key, "up"@)
                + " end, { timeout = 50, type = \"oneshot\" }) end, { timeout = 100, type = \"oneshot\" }) end"@)
                + ")(); "@ + notify_lua(bind.description) + " end"@,
        ),
        RemoteCommandView::CloseWindow { window } => Some(
            "function() ("@ + ("function() hl.dispatch(hl.dsp.exec_cmd([==[hyprctl --batch '"@ + batch(
                seq![close_window(window)],
            ) + "']==])) end"@) + ")(); "@ + notify_lua(bind.description) + " end"@,
        ),
        _ => None,
    }
}

pub fn controller_action_lua(bind: &Keybind) -> (r: Option<String>)
    ensures
        opt_string(r) == controller_lua(bind@),
{
    let action = match &bind.command {
        RemoteCommand::SendShortcut { chord, window } => {
            let mods = chord.modifiers_hypr();
            let target = focus_dispatcher(window);
            let down = chord_state_dispatch(mods.as_str(), chord.key(), "down");
            let up = chord_state_dispatch(mods.as_str(), chord.key(), "up");
            "function() hl.timer(function() hl.dispatch(".to_owned().concat(target.as_str()).concat("); ").concat(
                down.as_str(),
            ).concat("; hl.timer(function() ").concat(up.as_str()).concat(
                " end, { timeout = 50, type = \"oneshot\" }) end, { timeout = 100, type = \"oneshot\" }) end",
            )
        },
        RemoteCommand::CloseWindow { window } => {
            let mut actions: Vec<String> = Vec::new();
            actions.push(close_dispatcher(window));
            assert(texts(actions@) =~= seq![close_window(window@)]);
            let argument = hyprctl_batch_argument(actions.as_slice());
            "function() hl.dispatch(hl.dsp.exec_cmd([==[hyprctl --batch '".to_owned().concat(
                argument.as_str(),
            ).concat("']==])) end")
        },
        _ => {
            return None;
        },
    };
    let message = notify(bind.description);
    Some(
        "function() (".to_owned().concat(action.as_str()).concat(")(); ").concat(message.as_str()).concat(
            " end",
        ),
    )
}

/// What a binding runs on the remote computer: the command goes to the controller, and a failure
/// is shown.
pub open spec fn remote_lua(bind: KeybindView, controller: AgentEndpoint) -> Option<Seq<char>> {
    match invocation_of(bind.command, controller) {
        Some(invocation) => Some(
            "hl.dsp.exec_cmd(\"log=\\\"${XDG_RUNTIME_DIR:-/tmp}/omdesk-keybind.log\\\"; "@ + invocation
                + " >\\\"$log\\\" 2>&1 || omarchy-notification-send 'Omarchy Desk' \\\"Omarchy Desk failed: $(cat \\\"$log\\\")\\\"\")"@,
        ),
        None => None,
    }
}

pub fn remote_action_lua(bind: &Keybind, controller: &AgentEndpoint) -> (r: Option<String>)
    ensures
        opt_string(r) == remote_lua(bind@, *controller),
{
    match command_cli_invocation(&bind.command, controller) {
        Some(invocation) => Some(
            "hl.dsp.exec_cmd(\"log=\\\"${XDG_RUNTIME_DIR:-/tmp}/omdesk-keybind.log\\\"; ".to_owned().concat(
                invocation.as_str(),
            ).concat(
                " >\\\"$log\\\" 2>&1 || omarchy-notification-send 'Omarchy Desk' \\\"Omarchy Desk failed: $(cat \\\"$log\\\")\\\"\")",
            ),
        ),
        None => None,
    }
}

pub open spec fn action_for(
    bind: KeybindView,
    role: SessionRole,
    controller: Option<AgentEndpoint>,
) -> Option<Seq<char>> {
    match role {
        SessionRole::Controller => controller_lua(bind),
        SessionRole::Remote => match controller {
            Some(controller) => remote_lua(bind, controller),
            None => None,
        },
    }
}

/// The step that registers one binding, where it has an action.
pub open spec fn bind_lua(bind: KeybindView, role: SessionRole, controller: Option<AgentEndpoint>) -> Seq<char> {
    match action_for(bind, role, controller) {
        Some(action) => "; table.insert(_G.omdesk_binds, hl.bind(\""@ + bind.trigger + "\", "@ + action
            + ", { allow_input_capture = "@ + (if role == SessionRole::Remote && bind.allow_input_capture {
            "true"@
        } else {
            "false"@
        }) + ", description = \"Omarchy Desk: "@ + bind.description + "\" }))"@,
        None => Seq::empty(),
    }
}

/// The script that registers the bindings of a session, in place of those of an earlier one.
pub open spec fn install_lua(role: SessionRole, controller: Option<AgentEndpoint>) -> Seq<char> {
    "if _G.omdesk_binds then for _, b in ipairs(_G.omdesk_binds) do b:remove() end end; _G.omdesk_binds = {}"@
        + bind_lua(keybinds()[0], role, controller) + bind_lua(keybinds()[1], role, controller)
}

fn push_bind(out: &mut String, bind: &Keybind, role: SessionRole, controller: Option<AgentEndpoint>)
    ensures
        final(out)@ == old(out)@ + bind_lua(bind@, role, controller),
{
    let action = match role {
        SessionRole::Controller => controller_action_lua(bind),
        SessionRole::Remote => match controller {
            Some(controller) => remote_action_lua(bind, &controller),
            None => None,
        },
    };
    match action {
        Some(action) => {
            let capture = if role == SessionRole::Remote && bind.allow_input_capture {
                "true"
            } else {
                "false"
            };
            let text = "; table.insert(_G.omdesk_binds, hl.bind(\"".to_owned().concat(bind.trigger).concat(
                "\", ",
            ).concat(action.as_str()).concat(", { allow_input_capture = ").concat(capture).concat(
                ", description = \"Omarchy Desk: ",
            ).concat(bind.description).concat("\" }))");
            out.append(text.as_str());
        },
        None => {
            assert(out@ + Seq::<char>::empty() =~= out@);
        },
    }
}

/// A call of `hyprctl` with a script.
pub open spec fn is_eval(spec: CommandSpec, lua: Seq<char>) -> bool {
    &&& spec.program@ == "hyprctl"@
    &&& texts(spec.args@) == seq!["eval"@, lua]
    &&& spec.has_default_limits()
    &&& spec.environment_policy == crate::ports::EnvironmentPolicy::Session
}

fn eval_spec(lua: String) -> (r: CommandSpec)
    ensures
        is_eval(r, lua@),
{
    let mut args: Vec<String> = Vec::new();
    args.push("eval".to_owned());
    args.push(lua);
    assert(texts(args@) =~= seq!["eval"@, lua@]);
    CommandSpec::new("hyprctl".to_owned(), args)
}

pub fn install_session_keybinds_spec(role: SessionRole, controller: Option<AgentEndpoint>) -> (r: CommandSpec)
    ensures
        is_eval(r, install_lua(role, controller)),
{
    let mut lua =
        "if _G.omdesk_binds then for _, b in ipairs(_G.omdesk_binds) do b:remove() end end; _G.omdesk_binds = {}".to_owned();
    push_bind(&mut lua, &capture_keybind(), role, controller);
    push_bind(&mut lua, &close_keybind(), role, controller);
    eval_spec(lua)
}

pub fn remove_session_keybinds_spec() -> (r: CommandSpec)
    ensures
        is_eval(
            r,
            "if _G.omdesk_binds then for _, b in ipairs(_G.omdesk_binds) do b:remove() end end; _G.omdesk_binds = nil"@,
        ),
{
    eval_spec(
        "if _G.omdesk_binds then for _, b in ipairs(_G.omdesk_binds) do b:remove() end end; _G.omdesk_binds = nil".to_owned(),
    )
}

/// A remote computer that knows no controller registers no binding: it only removes what there was.
pub proof fn law_no_controller_no_bindings()
    ensures
        install_lua(SessionRole::Remote, None)
            == "if _G.omdesk_binds then for _, b in ipairs(_G.omdesk_binds) do b:remove() end end; _G.omdesk_binds = {}"@,
{
    let start =
        "if _G.omdesk_binds then for _, b in ipairs(_G.omdesk_binds) do b:remove() end end; _G.omdesk_binds = {}"@;
    assert(install_lua(SessionRole::Remote, None) =~= start);
}

/// A short name of a key is one that may stand in a script.
proof fn lemma_one_letter_key(key: Seq<char>)
    requires
        key.len() == 1,
        crate::strings::ascii_alphanumeric(key[0]),
    ensures
        safe_key_token(key),
{
    reveal_with_fuel(vstd::utf8::encode_utf8, 2);
}

/// The keys by which Moonlight is told: the one that it is told by with control, alt and shift held.
pub proof fn law_moonlight_is_told_with_three_modifiers(key: &str, r: RemoteCommand, close: RemoteCommand)
    requires
        safe_key_token(key@),
        call_ensures(moonlight_shortcut, (key,), r),
        call_ensures(moonlight_close_command, (), close),
    ensures
        r matches RemoteCommand::SendShortcut { chord, window } && chord@.key == key@ && chord@.mods
            == seq![KeyModifier::Ctrl, KeyModifier::Alt, KeyModifier::Shift] && window@
            == WindowSelectorView::Class("com.moonlight_stream.Moonlight"@),
        close matches RemoteCommand::CloseWindow { window } && window@ == WindowSelectorView::Class(
            "com.moonlight_stream.Moonlight"@,
        ),
{
    let mods = seq![KeyModifier::Ctrl, KeyModifier::Alt, KeyModifier::Shift];
    assert(mods[0] == KeyModifier::Ctrl && mods[1] == KeyModifier::Alt && mods[2] == KeyModifier::Shift);
    assert(!mods.contains(KeyModifier::Super));
    assert(mods.contains(KeyModifier::Ctrl) && mods.contains(KeyModifier::Alt) && mods.contains(
        KeyModifier::Shift,
    ));
    assert(ordered_modifiers(mods) =~= mods);
}

/// A session has two bindings: one lets go of the keyboard, by the key by which Moonlight does, and one
/// closes the stream.
pub proof fn law_a_session_has_two_bindings(r: Vec<Keybind>)
    requires
        call_ensures(session_keybinds, (), r),
    ensures
        r@.len() == 2,
        r@[0].trigger@ == "SUPER + R"@ && r@[0].description@ == "toggle remote shortcut capture"@
            && r@[0].allow_input_capture && (r@[0].command@ matches RemoteCommandView::SendShortcut {
            chord,
            window,
        } && chord.key == "Z"@ && window == WindowSelectorView::Class(
            "com.moonlight_stream.Moonlight"@,
        )),
        r@[1].trigger@ == "SUPER + Q"@ && r@[1].description@ == "close remote session"@
            && r@[1].allow_input_capture && (r@[1].command@ matches RemoteCommandView::CloseWindow {
            window,
        } && window == WindowSelectorView::Class("com.moonlight_stream.Moonlight"@)),
{
    let views = r@.map_values(|b: Keybind| b@);
    assert(views.len() == r@.len());
    assert(views[0] == r@[0]@ && views[1] == r@[1]@);
}

/// The name of the key that is pressed for a modifier.
pub open spec fn left_key(modifier: KeyModifier) -> Seq<char> {
    if modifier == KeyModifier::Super {
        "Super_L"@
    } else if modifier == KeyModifier::Ctrl {
        "Control_L"@
    } else if modifier == KeyModifier::Alt {
        "Alt_L"@
    } else {
        "Shift_L"@
    }
}

/// A key is brought into a state by its name, without modifiers; a modifier is the left one of its
/// keys; the focus goes to a window as it is named, and back to an address.
pub proof fn law_steps_name_what_they_act_on(
    key: &str,
    state: &str,
    step: String,
    modifier: KeyModifier,
    name: &'static str,
    window: WindowSelector,
    there: String,
    address: &str,
    back: String,
)
    requires
        call_ensures(key_state_dispatcher, (key, state), step),
        call_ensures(modifier_key, (modifier,), name),
        call_ensures(focus_dispatcher, (&window,), there),
        call_ensures(restore_focus_dispatcher, (address,), back),
    ensures
        step@ == "hl.dsp.send_key_state({ mods = \"\", key = \""@ + key@ + "\", state = \""@ + state@
            + "\" })"@,
        name@ == left_key(modifier),
        there@ == "hl.dsp.focus({ window = \""@ + window@.as_hypr() + "\" })"@,
        back@ == "hl.dsp.focus({ window = \"address:"@ + address@ + "\" })"@,
{
}

/// A shortcut presses its modifiers in order, then its key, and lets everything go the other way
/// round: the key first, then the modifiers from the last to the first.
pub proof fn law_a_shortcut_is_pressed_and_let_go(chord: KeyChord, r: Vec<String>, i: int)
    requires
        call_ensures(shortcut_key_dispatchers, (&chord,), r),
        0 <= i <= chord@.mods.len(),
    ensures
        r@.len() == 2 * chord@.mods.len() + 2,
        ({
            let name = if i < chord@.mods.len() {
                left_key(chord@.mods[i])
            } else {
                chord@.key
            };
            &&& r@[i]@ == "hl.dsp.send_key_state({ mods = \"\", key = \""@ + name + "\", state = \""@
                + "down"@ + "\" })"@
            &&& r@[r@.len() - 1 - i]@ == "hl.dsp.send_key_state({ mods = \"\", key = \""@ + name
                + "\", state = \""@ + "up"@ + "\" })"@
        }),
{
    law_shortcuts_release_what_they_press(chord@, i);
    let all = texts(r@);
    assert(all.len() == r@.len());
    assert(all[i] == r@[i]@);
    assert(all[all.len() - 1 - i] == r@[r@.len() - 1 - i]@);
}

/// The steps of a shortcut follow each other: each is carried out before the rest, twenty-five
/// milliseconds apart, and the last says that it is done.
pub proof fn law_steps_follow_each_other(first: Seq<char>, rest: Seq<Seq<char>>)
    ensures
        timed(seq![first]) == "hl.dispatch("@ + first + "); return true"@,
        rest.len() > 0 ==> timed(seq![first] + rest) == "hl.dispatch("@ + first
            + "); hl.timer(function() "@ + timed(rest) + " end, { timeout = 25, type = \"oneshot\" })"@,
{
    if rest.len() > 0 {
        let all = seq![first] + rest;
        assert(all.drop_first() =~= rest);
        assert(all[0] == first);
    }
}

/// A shortcut for another window than the active one brings that window to the front first, and where
/// the focus is to be given back, that is the last step. The key by which Moonlight lets go of the
/// keyboard goes out with its modifiers in one.
pub proof fn law_a_shortcut_goes_to_its_window(
    chord: KeyChord,
    window: WindowSelector,
    restore: Option<&str>,
    r: String,
)
    requires
        call_ensures(timed_shortcut_lua, (&chord, &window, restore), r),
    ensures
        ({
            let first = if window is ActiveWindow {
                Seq::empty()
            } else {
                "hl.dispatch("@ + ("hl.dsp.focus({ window = \""@ + window@.as_hypr() + "\" })"@) + "); "@
            };
            let back = match restore {
                Some(address) => seq!["hl.dsp.focus({ window = \"address:"@ + address@ + "\" })"@],
                None => Seq::empty(),
            };
            &&& chord@.key != "Z"@ ==> r@ == first + timed(key_sequence(chord@) + back)
            &&& chord@.key == "Z"@ ==> r@ == first + chord_state(mods_text(chord@), "Z"@, "down"@)
                + "; hl.timer(function() "@ + chord_state(mods_text(chord@), "Z"@, "up"@) + (match restore {
                Some(address) => "; hl.dispatch("@ + ("hl.dsp.focus({ window = \"address:"@ + address@
                    + "\" })"@) + ")"@,
                None => Seq::empty(),
            }) + " end, { timeout = 50, type = \"oneshot\" }); return true"@
        }),
{
}

/// A chord in one names its modifiers and its key.
pub proof fn law_a_chord_in_one_names_its_modifiers(mods: Seq<char>, key: Seq<char>, state: Seq<char>)
    ensures
        chord_state(mods, key, state) == "hl.dispatch(hl.dsp.send_key_state({ mods = \""@ + mods
            + "\", key = \""@ + key + "\", state = \""@ + state + "\" }))"@,
{
}

/// Several steps are handed over in one call, with a semicolon between each two.
pub proof fn law_steps_are_handed_over_together(steps: Seq<Seq<char>>, next: Seq<char>)
    ensures
        batch(seq![next]) == "eval hl.dispatch("@ + next + ")"@,
        steps.len() > 0 ==> batch(steps.push(next)) == batch(steps) + " ; "@ + ("eval hl.dispatch("@ + next
            + ")"@),
{
    let f = |d: Seq<char>| "eval hl.dispatch("@ + d + ")"@;
    assert(seq![next].map_values(f) =~= seq![f(next)]);
    if steps.len() > 0 {
        assert(steps.push(next).map_values(f) =~= steps.map_values(f).push(f(next)));
        crate::domain::law_a_separator_stands_between_texts(steps.map_values(f), f(next), " ; "@);
    }
}

/// A shortcut brings its window to the front, lets go of the held modifiers that it does not hold
/// itself, and is then pressed; closing is one step; nothing else acts on a window.
pub proof fn law_a_command_has_its_steps(
    command: RemoteCommand,
    held: &[KeyModifier],
    r: Option<Vec<String>>,
)
    requires
        call_ensures(command_actions, (&command, held), r),
    ensures
        r is Some <==> command is SendShortcut || command is CloseWindow,
        command matches RemoteCommand::CloseWindow { window } ==> (r matches Some(steps) && texts(steps@)
            == seq!["hl.dsp.window.close({ window = \""@ + window@.as_hypr() + "\" })"@]),
        command matches RemoteCommand::SendShortcut { chord, window } ==> (r matches Some(steps) && texts(
            steps@,
        ) == seq!["hl.dsp.focus({ window = \""@ + window@.as_hypr() + "\" })"@] + held@.filter(
            |m: KeyModifier| !chord@.mods.contains(m),
        ).map_values(|m: KeyModifier| key_state(left_key(m), "up"@)) + key_sequence(chord@)),
{
    assert(opt_texts(r) is Some <==> r is Some);
    if let RemoteCommand::SendShortcut { chord, window } = command {
        let p = |m: KeyModifier| !chord@.mods.contains(m);
        assert(p =~= not_in(chord@.mods));
        let kept = held@.filter(p);
        assert(modifier_states(kept, "up"@) =~= kept.map_values(
            |m: KeyModifier| key_state(left_key(m), "up"@),
        ));
    }
}

/// A command is sent to an agent by a command line that names the agent's address and port, the keys,
/// and the window where it is not the active one.
pub proof fn law_a_command_line_names_its_agent(
    command: RemoteCommand,
    endpoint: AgentEndpoint,
    r: Option<String>,
)
    requires
        call_ensures(command_cli_invocation, (&command, &endpoint), r),
    ensures
        r is Some <==> command is SendShortcut || command is CloseWindow,
        ({
            let agent = ip_text(endpoint.address) + " --port "@ + decimal(endpoint.port as nat);
            &&& command matches RemoteCommand::CloseWindow { window } ==> (r matches Some(line) && line@
                == "omdesk command close-window "@ + agent + (match window@ {
                WindowSelectorView::ActiveWindow => Seq::empty(),
                WindowSelectorView::Class(class) => " --window-class "@ + class,
                WindowSelectorView::Address(address) => " --window-address "@ + address,
            }))
            &&& command matches RemoteCommand::SendShortcut { chord, window } ==> (r matches Some(line)
                && line@ == "omdesk command send-shortcut "@ + agent + " --mods '"@ + mods_text(chord@)
                + "' --key "@ + chord@.key + (match window@ {
                WindowSelectorView::ActiveWindow => Seq::empty(),
                WindowSelectorView::Class(class) => " --window-class "@ + class,
                WindowSelectorView::Address(address) => " --window-address "@ + address,
            }))
        }),
{
    assert(opt_string(r) is Some <==> r is Some);
}

/// On the controller a binding acts on the window itself and says so; on the remote computer it sends
/// the command to the controller and shows a failure.
pub proof fn law_a_binding_acts_on_the_controller(
    bind: Keybind,
    controller: AgentEndpoint,
    here: Option<String>,
    line: Option<String>,
    there: Option<String>,
)
    requires
        call_ensures(controller_action_lua, (&bind,), here),
        call_ensures(command_cli_invocation, (&bind.command, &controller), line),
        call_ensures(remote_action_lua, (&bind, &controller), there),
    ensures
        here is Some <==> bind.command is SendShortcut || bind.command is CloseWindow,
        there is Some <==> line is Some,
        there matches Some(lua) ==> lua@
            == "hl.dsp.exec_cmd(\"log=\\\"${XDG_RUNTIME_DIR:-/tmp}/omdesk-keybind.log\\\"; "@ + line->0@
            + " >\\\"$log\\\" 2>&1 || omarchy-notification-send 'Omarchy Desk' \\\"Omarchy Desk failed: $(cat \\\"$log\\\")\\\"\")"@,
        bind.command matches RemoteCommand::CloseWindow { window } ==> (here matches Some(lua) && lua@
            == "function() ("@ + ("function() hl.dispatch(hl.dsp.exec_cmd([==[hyprctl --batch '"@ + (
        "eval hl.dispatch("@ + ("hl.dsp.window.close({ window = \""@ + window@.as_hypr() + "\" })"@) + ")"@)
            + "']==])) end"@) + ")(); "@ + (
        "hl.dispatch(hl.dsp.exec_cmd(\"omarchy-notification-send 'Omarchy Desk' '"@ + bind.description@
            + "'\"))"@) + " end"@),
        bind.command matches RemoteCommand::SendShortcut { chord, window } ==> (here matches Some(lua)
            && lua@ == "function() ("@ + ("function() hl.timer(function() hl.dispatch("@ + (
        "hl.dsp.focus({ window = \""@ + window@.as_hypr() + "\" })"@) + "); "@ + chord_state(
            mods_text(chord@),
            chord@.key,
            "down"@,
        ) + "; hl.timer(function() "@ + chord_state(mods_text(chord@), chord@.key, "up"@)
            + " end, { timeout = 50, type = \"oneshot\" }) end, { timeout = 100, type = \"oneshot\" }) end"@)
            + ")(); "@ + (
        "hl.dispatch(hl.dsp.exec_cmd(\"omarchy-notification-send 'Omarchy Desk' '"@ + bind.description@
            + "'\"))"@) + " end"@),
{
    assert(opt_string(here) is Some <==> here is Some);
    assert(opt_string(there) is Some <==> there is Some);
    assert(opt_string(line) is Some <==> line is Some);
    assert(bind@.description == bind.description@);
    assert(bind@.command == bind.command@);
    if let RemoteCommand::CloseWindow { window } = bind.command {
        law_steps_are_handed_over_together(Seq::empty(), close_window(window@));
    }
}

/// Registering takes the bindings of an earlier session away first. On the controller both bindings are
/// registered without taking part in captured input; on the remote computer, where the controller is
/// known, both do.
pub proof fn law_bindings_are_registered_for_their_side(
    role: SessionRole,
    controller: Option<AgentEndpoint>,
    r: CommandSpec,
    removal: CommandSpec,
)
    requires
        call_ensures(install_session_keybinds_spec, (role, controller), r),
        call_ensures(remove_session_keybinds_spec, (), removal),
    ensures
        r.program@ == "hyprctl"@,
        r.args@.len() == 2,
        r.args@[0]@ == "eval"@,
        removal.program@ == "hyprctl"@,
        texts(removal.args@) == seq![
            "eval"@,
            "if _G.omdesk_binds then for _, b in ipairs(_G.omdesk_binds) do b:remove() end end; _G.omdesk_binds = nil"@,
        ],
        ({
            let start =
                "if _G.omdesk_binds then for _, b in ipairs(_G.omdesk_binds) do b:remove() end end; _G.omdesk_binds = {}"@;
            let capture = if role == SessionRole::Remote {
                "true"@
            } else {
                "false"@
            };
            let registered = |bind: KeybindView, action: Seq<char>|
                "; table.insert(_G.omdesk_binds, hl.bind(\""@ + bind.trigger + "\", "@ + action
                    + ", { allow_input_capture = "@ + capture + ", description = \"Omarchy Desk: "@
                    + bind.description + "\" }))"@;
            &&& role == SessionRole::Controller ==> r.args@[1]@ == start + registered(
                keybinds()[0],
                controller_lua(keybinds()[0])->0,
            ) + registered(keybinds()[1], controller_lua(keybinds()[1])->0)
            &&& role == SessionRole::Remote && controller is Some ==> r.args@[1]@ == start + registered(
                keybinds()[0],
                remote_lua(keybinds()[0], controller->0)->0,
            ) + registered(keybinds()[1], remote_lua(keybinds()[1], controller->0)->0)
            &&& role == SessionRole::Remote && controller is None ==> r.args@[1]@ == start
        }),
{
    let args = texts(r.args@);
    assert(args.len() == r.args@.len());
    assert(args[0] == r.args@[0]@ && args[1] == r.args@[1]@);
    law_no_controller_no_bindings();
}

} // verus!
