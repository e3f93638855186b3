//! Switching the streamed monitor by Sunshine's shortcuts, and the signs of a changed focus.
use vstd::prelude::*;
use vstd::string::*;
use vstd::utf8::*;

use crate::config::{join_path, path_below};
use crate::domain::{
    display_views, ordered_modifiers, safe_key_token, Display, DisplayId, DisplayView, KeyChord,
    KeyChordView, KeyModifier, RemoteCommand, RemoteCommandView, RemoteDesktopTopology, WindowSelector, WindowSelectorView,
};
use crate::ports::{port_error, PortError, PortErrorView, PortResult};
use crate::services::MOONLIGHT_WINDOW_CLASS;
use crate::strings::{
    all_digits, ascii_alphanumeric, chars_of, decimal, digit, digit_char, push_decimal, same_text, text_between,
    texts,
};

verus! {

pub const POLL_INTERVAL_MILLIS: u64 = 750;

pub const SUNSHINE_MAX_SWITCH_DISPLAYS: usize = 13;

/// The place of the first monitor of that name.
pub open spec fn index_of_display(displays: Seq<DisplayView>, id: Seq<char>) -> Option<int>
    decreases displays.len(),
{
    if displays.len() == 0 {
        None
    } else if displays[0].id == id {
        Some(0)
    } else {
        match index_of_display(displays.drop_first(), id) {
            Some(i) => Some(i + 1),
            None => None,
        }
    }
}

pub proof fn lemma_index_of_display(displays: Seq<DisplayView>, id: Seq<char>, i: int)
    requires
        0 <= i <= displays.len(),
        forall|k: int| 0 <= k < i ==> (#[trigger] displays[k]).id != id,
        i < displays.len() ==> displays[i].id == id,
    ensures
        index_of_display(displays, id) == (if i < displays.len() { Some(i) } else { None::<int> }),
    decreases i,
{
    if i > 0 {
        assert(displays[0].id != id);
        assert forall|k: int| 0 <= k < i - 1 implies (#[trigger] displays.drop_first()[k]).id != id by {
            assert(displays[k + 1].id != id);
        }
        lemma_index_of_display(displays.drop_first(), id, i - 1);
    }
}

pub fn display_switch_index(displays: &[Display], target: &DisplayId) -> (r: Option<usize>)
    ensures
        match r {
            Some(i) => index_of_display(display_views(displays@), target@) == Some(i as int),
            None => index_of_display(display_views(displays@), target@) is None,
        },
{
    let ghost views = display_views(displays@);
    let mut i: usize = 0;
    while i < displays.len()
        invariant
            i <= displays@.len(),
            views == display_views(displays@),
            forall|k: int| 0 <= k < i ==> (#[trigger] views[k]).id != target@,
        decreases displays@.len() - i,
    {
        assert(views[i as int].id == displays@[i as int].id@);
        if same_text(displays[i].id.as_str(), target.as_str()) {
            proof {
                lemma_index_of_display(views, target@, i as int);
            }
            return Some(i);
        }
        i += 1;
    }
    proof {
        lemma_index_of_display(views, target@, i as int);
    }
    None
}

/// The shortcut by which Sunshine shows the monitor of an index: Ctrl, Alt, Shift and a function
/// key, sent to Moonlight's window.
pub open spec fn switch_command(index: int) -> RemoteCommandView {
    RemoteCommandView::SendShortcut {
        chord: KeyChordView {
            mods: seq![KeyModifier::Ctrl, KeyModifier::Alt, KeyModifier::Shift],
            key: "F"@ + decimal((index + 1) as nat),
        },
        window: WindowSelectorView::Class(MOONLIGHT_WINDOW_CLASS@),
    }
}

pub open spec fn command_result(r: PortResult<RemoteCommand>) -> Result<RemoteCommandView, PortErrorView> {
    match r {
        Ok(command) => Ok(command@),
        Err(error) => Err(error@),
    }
}

/// The shortcut for an index, where Sunshine has one for it.
pub open spec fn switch_result(index: int) -> Result<RemoteCommandView, PortErrorView> {
    if index >= SUNSHINE_MAX_SWITCH_DISPLAYS {
        Err(
            port_error(
                "DISPLAY_NOT_FOUND"@,
                "display index is beyond Sunshine's switchable range"@,
                false,
            ),
        )
    } else {
        Ok(switch_command(index))
    }
}

pub proof fn lemma_decimal_is_digits(n: nat)
    ensures
        all_digits(decimal(n)),
        decimal(n).len() > 0,
        n < 100 ==> decimal(n).len() <= 2,
    decreases n,
{
    assert(digit(digit_char(n % 10)));
    if n >= 10 {
        lemma_decimal_is_digits(n / 10);
    }
}

proof fn lemma_function_key_is_safe(n: nat)
    requires
        n < 100,
    ensures
        safe_key_token("F"@ + decimal(n)),
{
    reveal_strlit("F");
    lemma_decimal_is_digits(n);
    let key = "F"@ + decimal(n);
    assert(key[0] == 'F');
    assert forall|i: int| 0 <= i < key.len() implies ascii_alphanumeric(#[trigger] key[i]) by {
        if i > 0 {
            assert(key[i] == decimal(n)[i - 1]);
            assert(digit(decimal(n)[i - 1]));
        }
    }
    assert(is_ascii_chars(key));
    is_ascii_chars_encode_utf8(key);
}

pub fn display_switch_shortcut(index: usize) -> (r: PortResult<RemoteCommand>)
    ensures
        command_result(r) == switch_result(index as int),
{
    if index >= SUNSHINE_MAX_SWITCH_DISPLAYS {
        return Err(
            PortError::plain(
                "DISPLAY_NOT_FOUND",
                "display index is beyond Sunshine's switchable range",
                false,
            ),
        );
    }
    let mut mods: Vec<KeyModifier> = Vec::new();
    mods.push(KeyModifier::Ctrl);
    mods.push(KeyModifier::Alt);
    mods.push(KeyModifier::Shift);
    let mut key = "F".to_owned();
    push_decimal(&mut key, index as u64 + 1);
    proof {
        lemma_function_key_is_safe((index + 1) as nat);
        assert(mods@[0] == KeyModifier::Ctrl && mods@[1] == KeyModifier::Alt && mods@[2]
            == KeyModifier::Shift);
        assert(ordered_modifiers(mods@) =~= seq![KeyModifier::Ctrl, KeyModifier::Alt, KeyModifier::Shift]);
    }
    match KeyChord::new(mods, key) {
        Ok(chord) => Ok(
            RemoteCommand::SendShortcut {
                chord,
                window: WindowSelector::Class(MOONLIGHT_WINDOW_CLASS.to_owned()),
            },
        ),
        Err(error) => Err(PortError::plain("INVALID_COMMAND", error.message(), false)),
    }
}

/// The shortcut that shows the monitor of that name.
pub fn resolve_display_switch_shortcut(displays: &[Display], target: &DisplayId) -> (r: PortResult<
    RemoteCommand,
>)
    ensures
        command_result(r) == (match index_of_display(display_views(displays@), target@) {
            Some(index) => switch_result(index),
            None => Err::<RemoteCommandView, PortErrorView>(
                port_error(
                    "DISPLAY_NOT_FOUND"@,
                    "display "@ + target@ + " is not part of the remote topology"@,
                    false,
                ),
            ),
        }),
{
    match display_switch_index(displays, target) {
        Some(index) => display_switch_shortcut(index),
        None => Err(
            PortError::new(
                "DISPLAY_NOT_FOUND",
                "display ".to_owned().concat(target.as_str()).concat(
                    " is not part of the remote topology",
                ),
                false,
            ),
        ),
    }
}

/// The command that asks a controller to switch, for a monitor name that may stand in one.
pub fn switch_display_command(display: &DisplayId) -> (r: PortResult<RemoteCommand>)
    ensures
        command_result(r) == (if crate::domain::valid_display_id(display@) {
            Ok::<RemoteCommandView, PortErrorView>(
                RemoteCommandView::SwitchStreamDisplay { display: display@ },
            )
        } else {
            Err(
                port_error(
                    "INVALID_COMMAND"@,
                    crate::domain::DomainError::InvalidDisplayId.spec_message(),
                    false,
                ),
            )
        }),
{
    match display.validate() {
        Ok(()) => Ok(RemoteCommand::SwitchStreamDisplay { display: display.clone() }),
        Err(error) => Err(PortError::plain("INVALID_COMMAND", error.message(), false)),
    }
}

/// What stands before the first `>>`, or everything where there is none.
pub open spec fn before_arrows(line: Seq<char>) -> Seq<char>
    decreases line.len(),
{
    if line.len() < 2 {
        line
    } else if line[0] == '>' && line[1] == '>' {
        Seq::empty()
    } else {
        seq![line[0]] + before_arrows(line.drop_first())
    }
}

/// The events after which the focus may be on another monitor.
pub open spec fn focus_event_name(name: Seq<char>) -> bool {
    ||| name == "focusedmon"@
    ||| name == "workspace"@
    ||| name == "workspacev2"@
    ||| name == "moveworkspace"@
    ||| name == "moveworkspacev2"@
    ||| name == "monitoradded"@
    ||| name == "monitoraddedv2"@
    ||| name == "monitorremoved"@
    ||| name == "configreloaded"@
}

fn event_name(line: &str) -> (r: String)
    ensures
        r@ == before_arrows(line@),
{
    let v = chars_of(line);
    let mut i: usize = 0;
    assert(line@.skip(0) =~= line@);
    assert(line@.take(0) + line@ =~= line@);
    assert(line@.take(0) + before_arrows(line@) =~= before_arrows(line@));
    while i < v.len() && !(v.len() - i >= 2 && v[i] == '>' && v[i + 1] == '>')
        invariant
            v@ == line@,
            i <= v@.len(),
            before_arrows(line@) == line@.take(i as int) + before_arrows(line@.skip(i as int)),
        decreases v@.len() - i,
    {
        let ghost rest = line@.skip(i as int);
        assert(rest.drop_first() =~= line@.skip(i + 1));
        assert(line@.take(i + 1) =~= line@.take(i as int).push(line@[i as int]));
        proof {
            if rest.len() < 2 {
                assert(before_arrows(rest) == rest);
                assert(before_arrows(line@.skip(i + 1)) == line@.skip(i + 1));
                assert(line@.take(i as int) + rest =~= line@.take(i + 1) + line@.skip(i + 1));
            } else {
                assert(line@.take(i as int) + (seq![rest[0]] + before_arrows(rest.drop_first()))
                    =~= line@.take(i + 1) + before_arrows(line@.skip(i + 1)));
            }
        }
        i += 1;
    }
    assert(before_arrows(line@.skip(i as int)) =~= Seq::empty());
    assert(line@.subrange(0, i as int) =~= line@.take(i as int));
    assert(line@.take(i as int) + Seq::<char>::empty() =~= line@.take(i as int));
    text_between(&v, 0, i)
}

/// Whether a line of the compositor's event stream tells of such an event.
pub fn is_focus_event(line: &str) -> (r: bool)
    ensures
        r == focus_event_name(before_arrows(line@)),
{
    let name = event_name(line);
    let name = name.as_str();
    same_text(name, "focusedmon") || same_text(name, "workspace") || same_text(name, "workspacev2")
        || same_text(name, "moveworkspace") || same_text(name, "moveworkspacev2") || same_text(
        name,
        "monitoradded",
    ) || same_text(name, "monitoraddedv2") || same_text(name, "monitorremoved") || same_text(
        name,
        "configreloaded",
    )
}

/// The monitor that is shown at first: the one with the focus, else the first.
pub fn current_display(displays: &[Display]) -> (r: PortResult<DisplayId>)
    ensures
        match crate::domain::desktop_of(display_views(displays@)).preferred() {
            Some(id) => r is Ok && r->Ok_0@ == id,
            None => r is Err && r->Err_0@ == port_error(
                "DISPLAY_NOT_FOUND"@,
                "no displays available"@,
                false,
            ),
        },
{
    let topology = RemoteDesktopTopology::from_displays(displays);
    match topology.preferred() {
        Some(id) => Ok(id.clone()),
        None => Err(PortError::plain("DISPLAY_NOT_FOUND", "no displays available", false)),
    }
}

/// Where the events of the compositor may be read, by its signature and `XDG_RUNTIME_DIR`, the
/// likelier place first.
pub open spec fn socket_places(signature: Seq<char>, runtime_dir: Option<Seq<char>>) -> Seq<Seq<char>> {
    (match runtime_dir {
        Some(base) => seq![path_below(base, "hypr/"@ + signature + "/.socket2.sock"@)],
        None => Seq::<Seq<char>>::empty(),
    }) + seq!["/tmp/hypr/"@ + signature + "/.socket2.sock"@]
}

pub fn event_socket_candidates(signature: &str, runtime_dir: Option<&str>) -> (r: Vec<String>)
    ensures
        texts(r@) == socket_places(
            signature@,
            match runtime_dir {
                Some(base) => Some(base@),
                None => None,
            },
        ),
{
    let mut places: Vec<String> = Vec::new();
    if let Some(base) = runtime_dir {
        let rest = "hypr/".to_owned().concat(signature).concat("/.socket2.sock");
        places.push(join_path(base, rest.as_str()));
    }
    places.push("/tmp/hypr/".to_owned().concat(signature).concat("/.socket2.sock"));
    assert(texts(places@) =~= socket_places(
        signature@,
        match runtime_dir {
            Some(base) => Some(base@),
            None => None,
        },
    ));
    places
}

/// A shortcut that was resolved is a valid command.
pub proof fn law_switch_commands_are_valid(index: int)
    requires
        0 <= index < SUNSHINE_MAX_SWITCH_DISPLAYS,
    ensures
        switch_command(index).validated() is Ok,
{
    lemma_function_key_is_safe((index + 1) as nat);
    reveal_strlit("com.moonlight_stream.Moonlight");
    let class = MOONLIGHT_WINDOW_CLASS@;
    assert(class.len() == 30);
    assert forall|i: int| 0 <= i < class.len() implies crate::domain::safe_token_char(#[trigger] class[i]) by {
        assert(class[0] == 'c' && class[1] == 'o' && class[2] == 'm' && class[3] == '.');
        assert(class[4] == 'm' && class[5] == 'o' && class[6] == 'o' && class[7] == 'n');
        assert(class[8] == 'l' && class[9] == 'i' && class[10] == 'g' && class[11] == 'h');
        assert(class[12] == 't' && class[13] == '_' && class[14] == 's' && class[15] == 't');
        assert(class[16] == 'r' && class[17] == 'e' && class[18] == 'a' && class[19] == 'm');
        assert(class[20] == '.' && class[21] == 'M' && class[22] == 'o' && class[23] == 'o');
        assert(class[24] == 'n' && class[25] == 'l' && class[26] == 'i' && class[27] == 'g');
        assert(class[28] == 'h' && class[29] == 't');
    }
}

/// The name of the function key for each of the thirteen monitors that can be switched to.
pub open spec fn function_key(number: int) -> Seq<char> {
    if number == 1 {
        "F1"@
    } else if number == 2 {
        "F2"@
    } else if number == 3 {
        "F3"@
    } else if number == 4 {
        "F4"@
    } else if number == 5 {
        "F5"@
    } else if number == 6 {
        "F6"@
    } else if number == 7 {
        "F7"@
    } else if number == 8 {
        "F8"@
    } else if number == 9 {
        "F9"@
    } else if number == 10 {
        "F10"@
    } else if number == 11 {
        "F11"@
    } else if number == 12 {
        "F12"@
    } else {
        "F13"@
    }
}

proof fn lemma_function_keys()
    ensures
        forall|n: int| 1 <= n <= 13 ==> "F"@ + #[trigger] decimal(n as nat) == function_key(n),
{
    reveal_strlit("F");
    reveal_strlit("F1");
    reveal_strlit("F2");
    reveal_strlit("F3");
    reveal_strlit("F4");
    reveal_strlit("F5");
    reveal_strlit("F6");
    reveal_strlit("F7");
    reveal_strlit("F8");
    reveal_strlit("F9");
    reveal_strlit("F10");
    reveal_strlit("F11");
    reveal_strlit("F12");
    reveal_strlit("F13");
    assert forall|n: int| 1 <= n <= 13 implies "F"@ + #[trigger] decimal(n as nat) == function_key(
        n,
    ) by {
        reveal_with_fuel(decimal, 3);
        assert("F"@ + decimal(n as nat) =~= function_key(n));
    }
}

/// The monitor at a place, counted from one, is shown by the function key of that number, with
/// Ctrl, Alt and Shift, in Moonlight's window; there are keys for thirteen monitors.
pub proof fn law_each_monitor_has_its_function_key(index: usize, r: PortResult<RemoteCommand>)
    requires
        call_ensures(display_switch_shortcut, (index,), r),
    ensures
        index < 13 <==> r is Ok,
        r matches Ok(command) ==> command@ == (RemoteCommandView::SendShortcut {
            chord: KeyChordView {
                mods: seq![KeyModifier::Ctrl, KeyModifier::Alt, KeyModifier::Shift],
                key: function_key(index + 1),
            },
            window: WindowSelectorView::Class("com.moonlight_stream.Moonlight"@),
        }),
        r matches Err(error) ==> error@.code == "DISPLAY_NOT_FOUND"@,
{
    lemma_function_keys();
    assert("F"@ + decimal((index + 1) as nat) == "F"@ + decimal((index + 1) as int as nat));
}

/// A name is resolved to the place where a monitor of that name first stands; a name that no monitor
/// has is not found.
pub proof fn law_a_monitor_is_found_by_its_name(
    displays: Seq<Display>,
    slice: &[Display],
    target: DisplayId,
    found: Option<usize>,
    r: PortResult<RemoteCommand>,
    shortcut: PortResult<RemoteCommand>,
)
    requires
        slice@ == displays,
        call_ensures(display_switch_index, (slice, &target), found),
        call_ensures(resolve_display_switch_shortcut, (slice, &target), r),
        found matches Some(i) ==> call_ensures(display_switch_shortcut, (i,), shortcut),
    ensures
        found matches Some(i) ==> {
            &&& i < displays.len()
            &&& displays[i as int].id@ == target@
            &&& forall|k: int| 0 <= k < i ==> (#[trigger] displays[k]).id@ != target@
            &&& command_result(r) == command_result(shortcut)
        },
        found is None ==> {
            &&& forall|k: int| 0 <= k < displays.len() ==> (#[trigger] displays[k]).id@ != target@
            &&& r matches Err(error) && error@.code == "DISPLAY_NOT_FOUND"@
        },
{
    lemma_first_display(display_views(displays), target@);
    assert forall|k: int| 0 <= k < displays.len() implies (#[trigger] display_views(displays)[k]).id
        == displays[k].id@ by {}
    if found is None {
        assert forall|k: int| 0 <= k < displays.len() implies (#[trigger] displays[k]).id@ != target@ by {
            assert(display_views(displays)[k].id != target@);
        }
    } else {
        assert forall|k: int| 0 <= k < found->0 implies (#[trigger] displays[k]).id@ != target@ by {
            assert(display_views(displays)[k].id != target@);
        }
    }
}

proof fn lemma_first_display(displays: Seq<DisplayView>, id: Seq<char>)
    ensures
        match index_of_display(displays, id) {
            Some(i) => {
                &&& 0 <= i < displays.len()
                &&& displays[i].id == id
                &&& forall|k: int| 0 <= k < i ==> (#[trigger] displays[k]).id != id
            },
            None => forall|k: int| 0 <= k < displays.len() ==> (#[trigger] displays[k]).id != id,
        },
    decreases displays.len(),
{
    if displays.len() > 0 && displays[0].id != id {
        let rest = displays.drop_first();
        lemma_first_display(rest, id);
        assert forall|k: int| 1 <= k < displays.len() implies displays[k] == #[trigger] rest[k - 1] by {}
        if index_of_display(rest, id) is None {
            assert forall|k: int| 0 <= k < displays.len() implies (#[trigger] displays[k]).id != id by {
                if k > 0 {
                    assert(rest[k - 1].id != id);
                }
            }
        } else {
            let i = index_of_display(rest, id)->0;
            assert forall|k: int| 0 <= k < i + 1 implies (#[trigger] displays[k]).id != id by {
                if k > 0 {
                    assert(rest[k - 1].id != id);
                }
            }
        }
    }
}

/// The events after which the focus is looked at again are known by the word before the arrows,
/// whatever stands behind them.
pub proof fn law_focus_events_are_known_by_their_name(name: Seq<char>, rest: Seq<char>)
    requires
        forall|i: int| 0 <= i < name.len() ==> #[trigger] name[i] != '>',
    ensures
        focus_event_name(before_arrows(name + seq!['>', '>'] + rest)) <==> {
            ||| name == "focusedmon"@
            ||| name == "workspace"@
            ||| name == "workspacev2"@
            ||| name == "moveworkspace"@
            ||| name == "moveworkspacev2"@
            ||| name == "monitoradded"@
            ||| name == "monitoraddedv2"@
            ||| name == "monitorremoved"@
            ||| name == "configreloaded"@
        },
{
    lemma_before_arrows(name, rest);
}

proof fn lemma_before_arrows(name: Seq<char>, rest: Seq<char>)
    requires
        forall|i: int| 0 <= i < name.len() ==> #[trigger] name[i] != '>',
    ensures
        before_arrows(name + seq!['>', '>'] + rest) == name,
    decreases name.len(),
{
    let line = name + seq!['>', '>'] + rest;
    if name.len() == 0 {
        assert(line[0] == '>' && line[1] == '>');
        assert(before_arrows(line) =~= name);
    } else {
        assert(line[0] == name[0]);
        let shorter = name.drop_first();
        assert(line.drop_first() =~= shorter + seq!['>', '>'] + rest);
        lemma_before_arrows(shorter, rest);
        assert(seq![line[0]] + shorter =~= name);
    }
}

/// A switch to a monitor is asked for by the monitor's own name, where that may stand in a command,
/// and is an invalid command else.
pub proof fn law_a_switch_names_its_monitor(
    display: &DisplayId,
    valid: Result<(), crate::domain::DomainError>,
    r: PortResult<RemoteCommand>,
)
    requires
        call_ensures(switch_display_command, (display,), r),
        call_ensures(DisplayId::validate, (display,), valid),
    ensures
        r is Ok <==> valid is Ok,
        r matches Ok(command) ==> (command@ matches RemoteCommandView::SwitchStreamDisplay { display: named }
            && named == display@),
        r matches Err(error) ==> error@.code == "INVALID_COMMAND"@ && !error@.retryable,
{
    assert(command_result(r) is Ok == r is Ok);
}

/// A line tells of a changed focus by the name before its arrows.
pub proof fn law_a_line_is_known_by_what_is_before_its_arrows(
    line: &str,
    name: Seq<char>,
    rest: Seq<char>,
    r: bool,
)
    requires
        call_ensures(is_focus_event, (line,), r),
        line@ == name + seq!['>', '>'] + rest,
        forall|i: int| 0 <= i < name.len() ==> #[trigger] name[i] != '>',
    ensures
        r <==> name == "focusedmon"@ || name == "workspace"@ || name == "workspacev2"@ || name
            == "moveworkspace"@ || name == "moveworkspacev2"@ || name == "monitoradded"@ || name
            == "monitoraddedv2"@ || name == "monitorremoved"@ || name == "configreloaded"@,
{
    lemma_before_arrows(name, rest);
}

/// The first monitor that has the focus is the current one, and the first of all where none has;
/// without monitors there is none.
pub proof fn law_the_current_monitor_has_the_focus(displays: &[Display], i: int, r: PortResult<DisplayId>)
    requires
        call_ensures(current_display, (displays,), r),
        0 <= i <= displays@.len(),
        forall|k: int| 0 <= k < i ==> !(#[trigger] displays@[k]).focused,
        i < displays@.len() ==> displays@[i].focused,
    ensures
        i < displays@.len() ==> (r matches Ok(id) && id@ == displays@[i].id@),
        i == displays@.len() && i > 0 ==> (r matches Ok(id) && id@ == displays@[0].id@),
        displays@.len() == 0 ==> (r matches Err(error) && error@.code == "DISPLAY_NOT_FOUND"@),
{
    let views = display_views(displays@);
    assert forall|k: int| 0 <= k < i implies !(#[trigger] views[k]).focused by {
        assert(views[k] == displays@[k]@);
        assert(!displays@[k].focused);
    }
    if i < displays@.len() {
        assert(views[i] == displays@[i]@);
    }
    if displays@.len() > 0 {
        assert(views[0] == displays@[0]@);
    }
    lemma_first_with_focus(views, i);
}

proof fn lemma_first_with_focus(displays: Seq<DisplayView>, i: int)
    requires
        0 <= i <= displays.len(),
        forall|k: int| 0 <= k < i ==> !(#[trigger] displays[k]).focused,
        i < displays.len() ==> displays[i].focused,
    ensures
        crate::domain::first_focused(displays) == (if i < displays.len() {
            Some(displays[i].id)
        } else {
            None
        }),
    decreases i,
{
    if i > 0 {
        let rest = displays.drop_first();
        assert(!displays[0].focused);
        assert forall|k: int| 0 <= k < i - 1 implies !(#[trigger] rest[k]).focused by {
            assert(rest[k] == displays[k + 1]);
        }
        lemma_first_with_focus(rest, i - 1);
    }
}

/// The events of the compositor are read below the runtime directory, where there is one, before
/// the old place.
pub proof fn law_events_are_read_below_the_runtime_directory(
    signature: &str,
    base: &str,
    known: Vec<String>,
    unknown: Vec<String>,
)
    requires
        call_ensures(event_socket_candidates, (signature, Some(base)), known),
        call_ensures(event_socket_candidates, (signature, None), unknown),
        base@.len() > 0,
        base@.last() != '/',
    ensures
        texts(known@) == seq![
            base@ + "/"@ + ("hypr/"@ + signature@ + "/.socket2.sock"@),
            "/tmp/hypr/"@ + signature@ + "/.socket2.sock"@,
        ],
        texts(unknown@) == seq!["/tmp/hypr/"@ + signature@ + "/.socket2.sock"@],
{
}

} // verus!
