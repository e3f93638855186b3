//! The panels of the terminal interface: header, footer, the empty list and what opens over it.
use vstd::prelude::*;
use vstd::string::*;

use crate::domain::StreamProfile;
use crate::screen::{
    add_line, blank, in_bold, in_color, input_line, input_row, line_views, one, property, property_line,
    setting_row, settings_line, span, unstyled, Line, Span, SpanView, Style,
};
use crate::settings::{codec_label, spec_codec_label, StreamSetting};
use crate::strings::{decimal, decimal_text, push_decimal};
use crate::theme::OmarchyTheme;
use crate::tui::{AccessRowView, AppState, AppView, Overlay, OverlayView};

verus! {

/// A window over the list: its title, the rows that it takes and its lines.
#[derive(Debug, PartialEq, Eq)]
pub struct OverlayPanel {
    pub title: &'static str,
    pub height: u16,
    pub lines: Vec<Line>,
}

pub struct PanelView {
    pub title: Seq<char>,
    pub height: u16,
    pub lines: Seq<Seq<SpanView>>,
}

impl View for OverlayPanel {
    type V = PanelView;

    open spec fn view(&self) -> PanelView {
        PanelView { title: self.title@, height: self.height, lines: line_views(self.lines@) }
    }
}

pub const OVERLAY_WIDTH: u16 = 62;

pub open spec fn resolution_text(profile: StreamProfile) -> Seq<char> {
    decimal(profile.width as nat) + "x"@ + decimal(profile.height as nat)
}

fn resolution_label(profile: &StreamProfile) -> (r: String)
    ensures
        r@ == resolution_text(*profile),
{
    let mut out = decimal_text(profile.width as u64).concat("x");
    push_decimal(&mut out, profile.height as u64);
    out
}

pub open spec fn bitrate_text(bitrate_kbps: Option<u32>) -> Seq<char> {
    match bitrate_kbps {
        Some(kbps) => decimal((kbps / 1000) as nat) + " Mbps"@,
        None => "Auto"@,
    }
}

fn bitrate_label(bitrate_kbps: Option<u32>) -> (r: String)
    ensures
        r@ == bitrate_text(bitrate_kbps),
{
    match bitrate_kbps {
        Some(kbps) => decimal_text((kbps / 1000) as u64).concat(" Mbps"),
        None => "Auto".to_owned(),
    }
}

/// The settings, what Sunshine and the allowlist are like, and the keys.
pub open spec fn menu_lines(state: AppView, selected: StreamSetting, theme: OmarchyTheme) -> Seq<Seq<SpanView>> {
    let profile = state.stream_profile;
    seq![
        blank(),
        setting_row(
            "Resolution"@,
            resolution_text(profile),
            selected == StreamSetting::Resolution,
            theme,
        ),
        setting_row("FPS"@, decimal(profile.fps as nat), selected == StreamSetting::Fps, theme),
        setting_row(
            "Bitrate"@,
            bitrate_text(profile.bitrate_kbps),
            selected == StreamSetting::Bitrate,
            theme,
        ),
        setting_row(
            "Codec"@,
            spec_codec_label(profile.codec_preference),
            selected == StreamSetting::Codec,
            theme,
        ),
        setting_row(
            "Audio"@,
            if profile.audio {
                "On"@
            } else {
                "Off"@
            },
            selected == StreamSetting::Audio,
            theme,
        ),
        blank(),
        property(
            "Sunshine"@,
            if state.sunshine_configured {
                "configured"@
            } else {
                "not configured"@
            },
            theme,
        ),
        property("Allowlist"@, decimal(state.access_entries.len()) + " identities"@, theme),
        blank(),
        one("c Sunshine credentials    a access allowlist"@, in_color(theme.muted)),
        blank(),
        one("↑↓ select    ←→ change"@, in_color(theme.muted)),
        one("Esc close"@, in_color(theme.muted)),
    ]
}

/// A form of one field.
pub open spec fn form_lines(
    prompt: Seq<char>,
    label: Seq<char>,
    value: Seq<char>,
    masked: bool,
    keys: Seq<char>,
    theme: OmarchyTheme,
) -> Seq<Seq<SpanView>> {
    seq![
        blank(),
        one(prompt, in_color(theme.muted)),
        blank(),
        input_row(label, value, masked, theme),
        blank(),
        one(keys, in_color(theme.muted)),
    ]
}

/// The lines of the identities, or the hint that there are none.
pub open spec fn identity_lines(entries: Seq<AccessRowView>, theme: OmarchyTheme) -> Seq<Seq<SpanView>> {
    if entries.len() == 0 {
        seq![
            one(
                "  (empty, nobody may connect)"@,
                in_color(theme.muted),
            ),
        ]
    } else {
        entries.map_values(|row: AccessRowView| one("  ● "@ + row.label, in_color(theme.foreground)))
    }
}

pub open spec fn access_lines(entries: Seq<AccessRowView>, theme: OmarchyTheme) -> Seq<Seq<SpanView>> {
    seq![
        blank(),
        one("Identities allowed to control this device:"@, in_color(theme.muted)),
        blank(),
    ] + identity_lines(entries, theme) + seq![
        blank(),
        one("a allow selected device    d revoke    Esc back"@, in_color(theme.muted)),
    ]
}

pub open spec fn overlay_view(overlay: OverlayView, state: AppView, theme: OmarchyTheme) -> PanelView {
    match overlay {
        OverlayView::Menu { selected } => PanelView {
            title: " Settings "@,
            height: 20,
            lines: menu_lines(state, selected, theme),
        },
        OverlayView::CredentialsUser { user } => PanelView {
            title: " Sunshine credentials "@,
            height: 9,
            lines: form_lines(
                "Enter the Sunshine admin username"@,
                "Username"@,
                user,
                false,
                "Enter next    Esc cancel"@,
                theme,
            ),
        },
        OverlayView::CredentialsPass { pass, .. } => PanelView {
            title: " Sunshine credentials "@,
            height: 9,
            lines: form_lines(
                "Enter the Sunshine admin password"@,
                "Password"@,
                pass,
                true,
                "Enter save    Esc cancel"@,
                theme,
            ),
        },
        OverlayView::Access => PanelView {
            title: " Access allowlist "@,
            height: 14,
            lines: access_lines(state.access_entries, theme),
        },
    }
}

fn menu_panel(state: &AppState, selected: StreamSetting, theme: &OmarchyTheme) -> (r: Vec<Line>)
    ensures
        line_views(r@) == menu_lines(state@, selected, *theme),
{
    let profile = &state.stream_profile;
    let muted = Style::color(theme.muted);
    let resolution = resolution_label(profile);
    let fps = decimal_text(profile.fps as u64);
    let bitrate = bitrate_label(profile.bitrate_kbps);
    let audio = if profile.audio {
        "On"
    } else {
        "Off"
    };
    let sunshine = if state.sunshine_configured {
        "configured"
    } else {
        "not configured"
    };
    let allowlist = decimal_text(state.access_entries.len() as u64).concat(" identities");
    let mut lines: Vec<Line> = Vec::new();
    lines.push(Line::blank());
    lines.push(
        settings_line("Resolution", resolution.as_str(), selected == StreamSetting::Resolution, theme),
    );
    lines.push(settings_line("FPS", fps.as_str(), selected == StreamSetting::Fps, theme));
    lines.push(settings_line("Bitrate", bitrate.as_str(), selected == StreamSetting::Bitrate, theme));
    lines.push(
        settings_line(
            "Codec",
            codec_label(profile.codec_preference),
            selected == StreamSetting::Codec,
            theme,
        ),
    );
    lines.push(settings_line("Audio", audio, selected == StreamSetting::Audio, theme));
    lines.push(Line::blank());
    lines.push(property_line("Sunshine", sunshine, theme));
    lines.push(property_line("Allowlist", allowlist.as_str(), theme));
    lines.push(Line::blank());
    lines.push(Line::of("c Sunshine credentials    a access allowlist", muted));
    lines.push(Line::blank());
    lines.push(Line::of("↑↓ select    ←→ change", muted));
    lines.push(Line::of("Esc close", muted));
    assert(state@.access_entries.len() == state.access_entries@.len());
    assert(line_views(lines@) =~= menu_lines(state@, selected, *theme));
    lines
}

fn form(prompt: &str, label: &str, value: &str, masked: bool, keys: &str, theme: &OmarchyTheme) -> (r: Vec<Line>)
    ensures
        line_views(r@) == form_lines(prompt@, label@, value@, masked, keys@, *theme),
{
    let muted = Style::color(theme.muted);
    let mut lines: Vec<Line> = Vec::new();
    lines.push(Line::blank());
    lines.push(Line::of(prompt, muted));
    lines.push(Line::blank());
    lines.push(input_line(label, value, masked, theme));
    lines.push(Line::blank());
    lines.push(Line::of(keys, muted));
    assert(line_views(lines@) =~= form_lines(prompt@, label@, value@, masked, keys@, *theme));
    lines
}

fn access_panel(state: &AppState, theme: &OmarchyTheme) -> (r: Vec<Line>)
    ensures
        line_views(r@) == access_lines(state@.access_entries, *theme),
{
    let muted = Style::color(theme.muted);
    let ghost entries = state@.access_entries;
    let ghost top = seq![
        blank(),
        one("Identities allowed to control this device:"@, in_color(theme.muted)),
        blank(),
    ];
    let mut lines: Vec<Line> = Vec::new();
    lines.push(Line::blank());
    lines.push(Line::of("Identities allowed to control this device:", muted));
    lines.push(Line::blank());
    assert(line_views(lines@) =~= top);
    let ghost middle = identity_lines(entries, *theme);
    assert(entries.len() == state.access_entries@.len());
    if state.access_entries.len() == 0 {
        add_line(
            &mut lines,
            Line::of("  (empty, nobody may connect)", muted),
        );
        assert(line_views(lines@) =~= top + middle);
    } else {
        let mut i: usize = 0;
        assert(line_views(lines@) =~= top + middle.take(0));
        while i < state.access_entries.len()
            invariant
                i <= state.access_entries@.len(),
                entries == state@.access_entries,
                entries.len() == state.access_entries@.len(),
                entries.len() > 0,
                middle == identity_lines(entries, *theme),
                line_views(lines@) == top + middle.take(i as int),
            decreases state.access_entries@.len() - i,
        {
            let text = "  ● ".to_owned().concat(state.access_entries[i].label.as_str());
            assert(entries[i as int] == state.access_entries@[i as int]@);
            add_line(&mut lines, Line::one(text, Style::color(theme.foreground)));
            assert(middle.take(i + 1) =~= middle.take(i as int).push(middle[i as int]));
            assert(line_views(lines@) =~= top + middle.take(i + 1));
            i += 1;
        }
        assert(middle.take(middle.len() as int) =~= middle);
    }
    add_line(&mut lines, Line::blank());
    add_line(&mut lines, Line::of("a allow selected device    d revoke    Esc back", muted));
    assert(line_views(lines@) =~= access_lines(entries, *theme));
    lines
}

/// What a window over the list shows.
pub fn draw_overlay(overlay: &Overlay, state: &AppState, theme: &OmarchyTheme) -> (r: OverlayPanel)
    ensures
        r@ == overlay_view(overlay@, state@, *theme),
{
    match overlay {
        Overlay::Menu { selected } => OverlayPanel {
            title: " Settings ",
            height: 20,
            lines: menu_panel(state, *selected, theme),
        },
        Overlay::CredentialsUser { user } => OverlayPanel {
            title: " Sunshine credentials ",
            height: 9,
            lines: form(
                "Enter the Sunshine admin username",
                "Username",
                user.as_str(),
                false,
                "Enter next    Esc cancel",
                theme,
            ),
        },
        Overlay::CredentialsPass { user: _, pass } => OverlayPanel {
            title: " Sunshine credentials ",
            height: 9,
            lines: form(
                "Enter the Sunshine admin password",
                "Password",
                pass.as_str(),
                true,
                "Enter save    Esc cancel",
                theme,
            ),
        },
        Overlay::Access => OverlayPanel {
            title: " Access allowlist ",
            height: 14,
            lines: access_panel(state, theme),
        },
    }
}

/// Two passwords of one length look the same on the screen.
pub proof fn law_passwords_do_not_show(
    user: Seq<char>,
    a: Seq<char>,
    b: Seq<char>,
    state: AppView,
    theme: OmarchyTheme,
)
    requires
        a.len() == b.len(),
    ensures
        overlay_view(OverlayView::CredentialsPass { user, pass: a }, state, theme) == overlay_view(
            OverlayView::CredentialsPass { user, pass: b },
            state,
            theme,
        ),
{
    crate::screen::law_masked_fields_show_only_their_length("Password"@, a, b, theme);
}

/// What stands in place of the list while it is searched for, or where it is empty.
pub open spec fn empty_lines(state: AppView, theme: OmarchyTheme) -> Seq<Seq<SpanView>> {
    if state.loading {
        seq![blank(), one("Discovering DeskLink devices…"@, in_color(theme.accent))]
    } else {
        match state.error {
            Some(error) => seq![
                blank(),
                one("Discovery failed"@, in_bold(theme.error)),
                one(error, in_color(theme.muted)),
                blank(),
                one("Press r to retry"@, unstyled()),
            ],
            None => seq![
                blank(),
                one("No compatible devices found"@, in_color(theme.foreground)),
                one("Start omdesk-agent on another Omarchy device"@, in_color(theme.muted)),
            ],
        }
    }
}

pub fn empty_state_lines(state: &AppState, theme: &OmarchyTheme) -> (r: Vec<Line>)
    ensures
        line_views(r@) == empty_lines(state@, *theme),
{
    let mut lines: Vec<Line> = Vec::new();
    lines.push(Line::blank());
    if state.loading {
        lines.push(Line::of("Discovering DeskLink devices…", Style::color(theme.accent)));
        assert(line_views(lines@) =~= empty_lines(state@, *theme));
        return lines;
    }
    match &state.error {
        Some(error) => {
            lines.push(Line::of("Discovery failed", Style::bold(theme.error)));
            lines.push(Line::of(error.as_str(), Style::color(theme.muted)));
            lines.push(Line::blank());
            lines.push(Line::of("Press r to retry", Style { fg: None, bg: None, bold: false }));
            assert(line_views(lines@) =~= empty_lines(state@, *theme));
        },
        None => {
            lines.push(Line::of("No compatible devices found", Style::color(theme.foreground)));
            lines.push(
                Line::of("Start omdesk-agent on another Omarchy device", Style::color(theme.muted)),
            );
            assert(line_views(lines@) =~= empty_lines(state@, *theme));
        },
    }
    lines
}

/// The style of a key and of the title: dark on the accent.
pub open spec fn in_reverse(theme: OmarchyTheme) -> Style {
    Style { fg: Some(theme.background), bg: Some(theme.accent), bold: true }
}

fn reversed(theme: &OmarchyTheme) -> (r: Style)
    ensures
        r == in_reverse(*theme),
{
    Style { fg: Some(theme.background), bg: Some(theme.accent), bold: true }
}

pub open spec fn key_span(value: Seq<char>, theme: OmarchyTheme) -> SpanView {
    span(" "@ + value + " "@, in_reverse(theme))
}

pub fn key(value: &str, theme: &OmarchyTheme) -> (r: Span)
    ensures
        r@ == key_span(value@, *theme),
{
    Span::new(" ".to_owned().concat(value).concat(" "), reversed(theme))
}

pub fn label(value: &str, theme: &OmarchyTheme) -> (r: Span)
    ensures
        r@ == span(value@, in_color(theme.muted)),
{
    Span::of(value, Style::color(theme.muted))
}

/// The keys at the bottom; that for connecting only where it would connect.
pub open spec fn footer_spans(state: AppView, theme: OmarchyTheme) -> Seq<SpanView> {
    let muted = in_color(theme.muted);
    seq![
        key_span("↑↓"@, theme),
        span(" navigate   "@, muted),
        key_span("r"@, theme),
        span(" refresh   "@, muted),
    ] + (if state.selected_remote() is Some {
        seq![key_span("Enter"@, theme), span(" connect   "@, muted)]
    } else {
        Seq::empty()
    }) + seq![
        key_span("s"@, theme),
        span(" settings   "@, muted),
        key_span("q"@, theme),
        span(" quit"@, muted),
    ]
}

pub fn footer_line(state: &AppState, theme: &OmarchyTheme) -> (r: Line)
    ensures
        r@ == footer_spans(state@, *theme),
{
    let mut line = Line::two(key("↑↓", theme), label(" navigate   ", theme));
    line.push(key("r", theme));
    line.push(label(" refresh   ", theme));
    if state.selected_remote().is_some() {
        line.push(key("Enter", theme));
        line.push(label(" connect   ", theme));
    }
    line.push(key("s", theme));
    line.push(label(" settings   ", theme));
    line.push(key("q", theme));
    line.push(label(" quit", theme));
    assert(line@ =~= footer_spans(state@, *theme));
    line
}

/// The title at the top.
pub open spec fn header_spans(theme: OmarchyTheme) -> Seq<SpanView> {
    seq![
        span(" DESKLINK "@, in_reverse(theme)),
        span("  Omarchy remote desktop"@, in_color(theme.foreground)),
    ]
}

pub fn header_line(theme: &OmarchyTheme) -> (r: Line)
    ensures
        r@ == header_spans(*theme),
{
    let line = Line::two(
        Span::of(" DESKLINK ", reversed(theme)),
        Span::of("  Omarchy remote desktop", Style::color(theme.foreground)),
    );
    assert(line@ =~= header_spans(*theme));
    line
}

/// The footer names the keys in order; that for connecting only where the selected device can be
/// connected to.
pub proof fn law_the_footer_offers_connecting_where_it_works(
    state: &AppState,
    theme: &OmarchyTheme,
    remote: Option<crate::services::DiscoveredNode>,
    r: Line,
)
    requires
        call_ensures(footer_line, (state, theme), r),
        call_ensures(AppState::selected_remote, (state,), remote),
    ensures
        remote is Some ==> r@.len() == 10 && r@[4].text == " "@ + "Enter"@ + " "@ && r@[5].text
            == " connect   "@,
        remote is None ==> r@.len() == 8,
        r@[0].text == " "@ + "↑↓"@ + " "@ && r@[1].text == " navigate   "@,
        r@[2].text == " "@ + "r"@ + " "@ && r@[3].text == " refresh   "@,
        r@[r@.len() - 4].text == " "@ + "s"@ + " "@ && r@[r@.len() - 3].text == " settings   "@,
        r@[r@.len() - 2].text == " "@ + "q"@ + " "@ && r@[r@.len() - 1].text == " quit"@,
{
}

/// The header is the name on the accent, and what it is.
pub proof fn law_the_header_names_the_program(theme: &OmarchyTheme, r: Line)
    requires
        call_ensures(header_line, (theme,), r),
    ensures
        r@.len() == 2,
        r@[0].text == " DESKLINK "@,
        r@[0].style.fg == Some(theme.background) && r@[0].style.bg == Some(theme.accent),
        r@[1].text == "  Omarchy remote desktop"@,
        r@[1].style.fg == Some(theme.foreground),
{
}

/// A key stands dark on the accent with a space on each side; a label is muted.
pub proof fn law_keys_stand_out_from_labels(value: &str, theme: &OmarchyTheme, k: Span, l: Span)
    requires
        call_ensures(key, (value, theme), k),
        call_ensures(label, (value, theme), l),
    ensures
        k.text@ == " "@ + value@ + " "@,
        k.style.fg == Some(theme.background) && k.style.bg == Some(theme.accent) && k.style.bold,
        l.text@ == value@,
        l.style.fg == Some(theme.muted) && l.style.bg is None && !l.style.bold,
{
    assert(k@.text == k.text@ && k@.style == k.style);
    assert(l@.text == l.text@ && l@.style == l.style);
}

/// While devices are searched for that is said; a search that failed shows its error and how to
/// try again; else it is said that there is none.
pub proof fn law_an_empty_list_says_why(state: &AppState, theme: &OmarchyTheme, r: Vec<Line>)
    requires
        call_ensures(empty_state_lines, (state, theme), r),
    ensures
        r@.len() >= 2,
        r@[0]@.len() == 0,
        state.loading ==> r@[1]@[0].text == "Discovering DeskLink devices…"@ && r@.len() == 2,
        !state.loading && state.error is None ==> r@.len() == 3 && r@[1]@[0].text
            == "No compatible devices found"@ && r@[2]@[0].text
            == "Start omdesk-agent on another Omarchy device"@,
        !state.loading ==> (state.error matches Some(error) ==> r@.len() == 5 && r@[1]@[0].text
            == "Discovery failed"@ && r@[2]@[0].text == error@ && r@[4]@[0].text == "Press r to retry"@),
{
    let views = line_views(r@);
    assert(views == empty_lines(state@, *theme));
    assert(views.len() == r@.len());
    assert(state@.loading == state.loading);
    assert(state@.error == crate::strings::opt_text(state.error));
    assert forall|i: int| 0 <= i < r@.len() implies #[trigger] views[i] == r@[i]@ by {}
    assert(views[0] == r@[0]@ && views[1] == r@[1]@);
    if r@.len() > 2 {
        assert(views[2] == r@[2]@);
    }
    if r@.len() > 4 {
        assert(views[4] == r@[4]@);
    }
}

/// Each window has its title and its rows.
pub proof fn law_windows_have_their_titles(overlay: &Overlay, state: &AppState, theme: &OmarchyTheme, r: OverlayPanel)
    requires
        call_ensures(draw_overlay, (overlay, state, theme), r),
    ensures
        overlay is Menu ==> r.title@ == " Settings "@ && r.height == 20 && r.lines@.len() == 14,
        overlay is CredentialsUser || overlay is CredentialsPass ==> r.title@
            == " Sunshine credentials "@ && r.height == 9 && r.lines@.len() == 6,
        overlay is Access ==> r.title@ == " Access allowlist "@ && r.height == 14,
        r.height <= 20,
{
    assert(r@.title == r.title@ && r@.height == r.height);
    assert(r@.lines.len() == r.lines@.len());
}

/// The menu shows every setting of the profile under its name, with the selected one marked.
pub proof fn law_the_menu_shows_the_profile(
    selected: StreamSetting,
    state: &AppState,
    theme: &OmarchyTheme,
    codec: &'static str,
    r: OverlayPanel,
)
    requires
        call_ensures(draw_overlay, (&Overlay::Menu { selected }, state, theme), r),
        call_ensures(codec_label, (state.stream_profile.codec_preference,), codec),
    ensures
        ({
            let profile = state.stream_profile;
            let lines = r.lines@;
            &&& lines.len() == 14
            &&& lines[1]@[2].text == decimal(profile.width as nat) + "x"@ + decimal(profile.height as nat)
            &&& lines[2]@[2].text == decimal(profile.fps as nat)
            &&& lines[3]@[2].text == (match profile.bitrate_kbps {
                Some(kbps) => decimal((kbps / 1000) as nat) + " Mbps"@,
                None => "Auto"@,
            })
            &&& lines[4]@[2].text == codec@
            &&& lines[5]@[2].text == (if profile.audio {
                "On"@
            } else {
                "Off"@
            })
            &&& lines[1]@[0].text == "▸ "@ <== selected == StreamSetting::Resolution
            &&& lines[2]@[0].text == "▸ "@ <== selected == StreamSetting::Fps
            &&& lines[3]@[0].text == "▸ "@ <== selected == StreamSetting::Bitrate
            &&& lines[4]@[0].text == "▸ "@ <== selected == StreamSetting::Codec
            &&& lines[5]@[0].text == "▸ "@ <== selected == StreamSetting::Audio
            &&& lines[1]@[0].text == "  "@ <== selected != StreamSetting::Resolution
            &&& lines[2]@[0].text == "  "@ <== selected != StreamSetting::Fps
            &&& lines[3]@[0].text == "  "@ <== selected != StreamSetting::Bitrate
            &&& lines[4]@[0].text == "  "@ <== selected != StreamSetting::Codec
            &&& lines[5]@[0].text == "  "@ <== selected != StreamSetting::Audio
            &&& lines[7]@[1].text == (if state.sunshine_configured {
                "configured"@
            } else {
                "not configured"@
            })
            &&& lines[8]@[1].text == decimal(state.access_entries@.len()) + " identities"@
        }),
{
    let views = line_views(r.lines@);
    assert(r@ == overlay_view((Overlay::Menu { selected })@, state@, *theme));
    assert(views == menu_lines(state@, selected, *theme));
    assert(views.len() == r.lines@.len());
    assert(state@.access_entries.len() == state.access_entries@.len());
    assert(state@.stream_profile == state.stream_profile);
    assert(state@.sunshine_configured == state.sunshine_configured);
    assert(views[1] == r.lines@[1]@ && views[2] == r.lines@[2]@ && views[3] == r.lines@[3]@ && views[4]
        == r.lines@[4]@ && views[5] == r.lines@[5]@ && views[7] == r.lines@[7]@ && views[8]
        == r.lines@[8]@);
}

/// The name is shown as it is typed, and the password only as dots.
pub proof fn law_names_show_and_passwords_do_not(
    user: String,
    pass: String,
    state: &AppState,
    theme: &OmarchyTheme,
    i: int,
    name: OverlayPanel,
    secret: OverlayPanel,
)
    requires
        call_ensures(draw_overlay, (&Overlay::CredentialsUser { user }, state, theme), name),
        call_ensures(draw_overlay, (&Overlay::CredentialsPass { user, pass }, state, theme), secret),
        0 <= i < pass@.len(),
    ensures
        name.lines@.len() == 6 && secret.lines@.len() == 6,
        name.lines@[1]@[0].text == "Enter the Sunshine admin username"@,
        secret.lines@[1]@[0].text == "Enter the Sunshine admin password"@,
        name.lines@[3]@[1].text == user@ + "▏"@,
        secret.lines@[3]@[1].text[i] == '•',
        secret.lines@[3]@[1].text.len() == pass@.len() + "▏"@.len(),
        name.lines@[5]@[0].text == "Enter next    Esc cancel"@,
        secret.lines@[5]@[0].text == "Enter save    Esc cancel"@,
{
    let a = line_views(name.lines@);
    let b = line_views(secret.lines@);
    assert(name@ == overlay_view((Overlay::CredentialsUser { user })@, state@, *theme));
    assert(secret@ == overlay_view((Overlay::CredentialsPass { user, pass })@, state@, *theme));
    assert(a == name@.lines && b == secret@.lines);
    assert(a.len() == name.lines@.len() && b.len() == secret.lines@.len());
    assert(a[1] == name.lines@[1]@ && a[3] == name.lines@[3]@ && a[5] == name.lines@[5]@);
    assert(b[1] == secret.lines@[1]@ && b[3] == secret.lines@[3]@ && b[5] == secret.lines@[5]@);
}

/// Everyone who may connect has a line of their own, in order; where nobody may that is said.
pub proof fn law_everyone_who_may_connect_is_listed(state: &AppState, theme: &OmarchyTheme, i: int, r: OverlayPanel)
    requires
        call_ensures(draw_overlay, (&Overlay::Access, state, theme), r),
        0 <= i,
    ensures
        r.lines@[1]@[0].text == "Identities allowed to control this device:"@,
        i < state.access_entries@.len() ==> r.lines@.len() == state.access_entries@.len() + 5
            && r.lines@[3 + i]@[0].text == "  ● "@ + state.access_entries@[i].label@,
        state.access_entries@.len() == 0 ==> r.lines@.len() == 6 && r.lines@[3]@[0].text
            == "  (empty, nobody may connect)"@,
        r.lines@.last()@[0].text == "a allow selected device    d revoke    Esc back"@,
{
    let views = line_views(r.lines@);
    assert(r@ == overlay_view(Overlay::Access@, state@, *theme));
    assert(views == access_lines(state@.access_entries, *theme));
    assert(views.len() == r.lines@.len());
    assert(state@.access_entries.len() == state.access_entries@.len());
    assert(views[1] == r.lines@[1]@ && views.last() == r.lines@.last()@);
    if i < state.access_entries@.len() {
        assert(state@.access_entries[i] == state.access_entries@[i]@);
        assert(views[3 + i] == r.lines@[3 + i]@);
        assert(views[3 + i] == identity_lines(state@.access_entries, *theme)[i]);
    }
    if state.access_entries@.len() == 0 {
        assert(views[3] == r.lines@[3]@);
    }
}

/// Every line of the menu stands under its own name.
pub proof fn law_the_menu_names_its_lines(
    selected: StreamSetting,
    state: &AppState,
    theme: &OmarchyTheme,
    i: int,
    r: OverlayPanel,
)
    requires
        call_ensures(draw_overlay, (&Overlay::Menu { selected }, state, theme), r),
        1 <= i <= 8,
        i != 6,
    ensures
        ({
            let name = if i == 1 {
                "Resolution"@
            } else if i == 2 {
                "FPS"@
            } else if i == 3 {
                "Bitrate"@
            } else if i == 4 {
                "Codec"@
            } else if i == 5 {
                "Audio"@
            } else if i == 7 {
                "Sunshine"@
            } else {
                "Allowlist"@
            };
            let shown = if i <= 5 {
                r.lines@[i]@[1].text
            } else {
                r.lines@[i]@[0].text
            };
            name.len() <= shown.len() && shown.take(name.len() as int) == name
        }),
        r.lines@[10]@[0].text == "c Sunshine credentials    a access allowlist"@,
        r.lines@[12]@[0].text == "↑↓ select    ←→ change"@,
        r.lines@[13]@[0].text == "Esc close"@,
{
    let views = line_views(r.lines@);
    assert(r@ == overlay_view((Overlay::Menu { selected })@, state@, *theme));
    assert(views == menu_lines(state@, selected, *theme));
    assert(views.len() == r.lines@.len());
    assert(views[i] == r.lines@[i]@);
    assert(views[10] == r.lines@[10]@ && views[12] == r.lines@[12]@ && views[13] == r.lines@[13]@);
    let name = if i == 1 {
        "Resolution"@
    } else if i == 2 {
        "FPS"@
    } else if i == 3 {
        "Bitrate"@
    } else if i == 4 {
        "Codec"@
    } else if i == 5 {
        "Audio"@
    } else if i == 7 {
        "Sunshine"@
    } else {
        "Allowlist"@
    };
    let shown = crate::screen::padded(name, 11);
    assert(shown.take(name.len() as int) =~= name);
}

} // verus!
