//! What the terminal interface shows, as lines of styled text.
use vstd::prelude::*;
use vstd::string::*;

use crate::address::{address_text, ip_text};
use crate::domain::{joined, ConnectionKind};
use crate::services::{DeviceStatus, DeviceView, DiscoveredNode};
use crate::strings::{decimal, decimal_text, opt_text, texts};
use crate::theme::{OmarchyTheme, Rgb};
use crate::tui::{AppState, AppView, MessageKind, Rect};
use crate::wrap::{law_wrapped_lines_fit, wrap_text, wrapped};

verus! {

#[derive(Clone, Copy, Debug, PartialEq, Eq, Structural)]
pub struct Style {
    pub fg: Option<Rgb>,
    pub bg: Option<Rgb>,
    pub bold: bool,
}

/// A text in one style.
#[derive(Debug, PartialEq, Eq)]
pub struct Span {
    pub text: String,
    pub style: Style,
}

pub struct SpanView {
    pub text: Seq<char>,
    pub style: Style,
}

impl View for Span {
    type V = SpanView;

    open spec fn view(&self) -> SpanView {
        SpanView { text: self.text@, style: self.style }
    }
}

#[derive(Debug, PartialEq, Eq)]
pub struct Line {
    pub spans: Vec<Span>,
}

impl View for Line {
    type V = Seq<SpanView>;

    open spec fn view(&self) -> Seq<SpanView> {
        self.spans@.map_values(|s: Span| s@)
    }
}

pub open spec fn line_views(lines: Seq<Line>) -> Seq<Seq<SpanView>> {
    lines.map_values(|l: Line| l@)
}

pub open spec fn span(text: Seq<char>, style: Style) -> SpanView {
    SpanView { text, style }
}

/// Text in a color.
pub open spec fn in_color(color: Rgb) -> Style {
    Style { fg: Some(color), bg: None, bold: false }
}

pub open spec fn in_bold(color: Rgb) -> Style {
    Style { fg: Some(color), bg: None, bold: true }
}

pub open spec fn unstyled() -> Style {
    Style { fg: None, bg: None, bold: false }
}

pub open spec fn blank() -> Seq<SpanView> {
    Seq::empty()
}

/// A line of one text.
pub open spec fn one(text: Seq<char>, style: Style) -> Seq<SpanView> {
    seq![span(text, style)]
}

pub open spec fn two(a: SpanView, b: SpanView) -> Seq<SpanView> {
    seq![a, b]
}

impl Style {
    pub fn color(color: Rgb) -> (r: Style)
        ensures
            r == in_color(color),
    {
        Style { fg: Some(color), bg: None, bold: false }
    }

    pub fn bold(color: Rgb) -> (r: Style)
        ensures
            r == in_bold(color),
    {
        Style { fg: Some(color), bg: None, bold: true }
    }
}

impl Span {
    pub fn new(text: String, style: Style) -> (r: Span)
        ensures
            r@ == span(text@, style),
    {
        Span { text, style }
    }

    pub fn of(text: &str, style: Style) -> (r: Span)
        ensures
            r@ == span(text@, style),
    {
        Span { text: text.to_owned(), style }
    }
}

/// The text of a line, without its styles.
pub open spec fn plain(line: Seq<SpanView>) -> Seq<char>
    decreases line.len(),
{
    if line.len() == 0 {
        Seq::empty()
    } else {
        plain(line.drop_last()) + line.last().text
    }
}

impl Line {
    pub fn blank() -> (r: Line)
        ensures
            r@ == blank(),
    {
        let r = Line { spans: Vec::new() };
        assert(r@ =~= blank());
        r
    }

    pub fn one(text: String, style: Style) -> (r: Line)
        ensures
            r@ == one(text@, style),
    {
        let mut spans: Vec<Span> = Vec::new();
        spans.push(Span::new(text, style));
        let r = Line { spans };
        assert(r@ =~= one(text@, style));
        r
    }

    pub fn of(text: &str, style: Style) -> (r: Line)
        ensures
            r@ == one(text@, style),
    {
        Line::one(text.to_owned(), style)
    }

    pub fn two(a: Span, b: Span) -> (r: Line)
        ensures
            r@ == two(a@, b@),
    {
        let mut spans: Vec<Span> = Vec::new();
        spans.push(a);
        spans.push(b);
        let r = Line { spans };
        assert(r@ =~= two(a@, b@));
        r
    }

    pub fn push(&mut self, more: Span)
        ensures
            final(self)@ == old(self)@.push(more@),
    {
        self.spans.push(more);
        assert(self@ =~= old(self)@.push(more@));
    }

    /// The text of the line.
    pub fn to_text(&self) -> (r: String)
        ensures
            r@ == plain(self@),
    {
        let mut out = String::new();
        let mut i: usize = 0;
        assert(out@ =~= plain(self@.take(0)));
        while i < self.spans.len()
            invariant
                i <= self.spans@.len(),
                out@ == plain(self@.take(i as int)),
            decreases self.spans@.len() - i,
        {
            out.append(self.spans[i].text.as_str());
            assert(self@.take(i + 1).drop_last() =~= self@.take(i as int));
            i += 1;
        }
        assert(self@.take(self@.len() as int) =~= self@);
        out
    }
}

pub fn add_line(lines: &mut Vec<Line>, line: Line)
    ensures
        line_views(final(lines)@) == line_views(old(lines)@).push(line@),
{
    lines.push(line);
    assert(line_views(lines@) =~= line_views(old(lines)@).push(line@));
}

pub fn add_lines(lines: &mut Vec<Line>, more: Vec<Line>)
    ensures
        line_views(final(lines)@) == line_views(old(lines)@) + line_views(more@),
{
    let mut more = more;
    let ghost added = more@;
    lines.append(&mut more);
    assert(line_views(lines@) =~= line_views(old(lines)@) + line_views(added));
}

/// So many times the same character.
pub open spec fn repeated(c: char, count: nat) -> Seq<char> {
    Seq::new(count, |i: int| c)
}

/// A text with spaces after it, up to a width.
pub open spec fn padded(text: Seq<char>, width: nat) -> Seq<char> {
    if text.len() < width {
        text + repeated(' ', (width - text.len()) as nat)
    } else {
        text
    }
}

pub fn repeat_char(c: char, count: usize) -> (r: String)
    ensures
        r@ == repeated(c, count as nat),
{
    let mut out = String::new();
    let mut i: usize = 0;
    while i < count
        invariant
            i <= count,
            out@ == repeated(c, i as nat),
        decreases count - i,
    {
        out.push(c);
        assert(repeated(c, i as nat).push(c) =~= repeated(c, (i + 1) as nat));
        i += 1;
    }
    assert(out@ =~= repeated(c, count as nat));
    out
}

pub fn pad_right(text: &str, width: usize) -> (r: String)
    ensures
        r@ == padded(text@, width as nat),
{
    let used: usize = text.unicode_len();
    if used < width {
        text.to_owned().concat(repeat_char(' ', width - used).as_str())
    } else {
        text.to_owned()
    }
}

/// A text in lines of a width, all in one style.
pub open spec fn styled_wrapped(text: Seq<char>, width: nat, style: Style) -> Seq<Seq<SpanView>> {
    wrapped(text, width).map_values(|line: Seq<char>| one(line, style))
}

pub fn styled_wrapped_lines(text: &str, width: usize, style: Style) -> (r: Vec<Line>)
    ensures
        line_views(r@) == styled_wrapped(text@, width as nat, style),
{
    let mut rest = wrap_text(text, width);
    let ghost all = rest@;
    let ghost goal = styled_wrapped(text@, width as nat, style);
    let mut lines: Vec<Line> = Vec::new();
    let ghost mut i: int = 0;
    assert(rest@ =~= all.skip(0));
    assert(line_views(lines@) =~= goal.take(0));
    while rest.len() > 0
        invariant
            0 <= i <= all.len(),
            rest@ == all.skip(i),
            texts(all) == wrapped(text@, width as nat),
            goal == styled_wrapped(text@, width as nat, style),
            line_views(lines@) == goal.take(i),
        decreases rest@.len(),
    {
        let text_line = rest.remove(0);
        assert(rest@ =~= all.skip(i + 1));
        assert(text_line@ == texts(all)[i]);
        add_line(&mut lines, Line::one(text_line, style));
        assert(goal.take(i + 1) =~= goal.take(i).push(goal[i]));
        proof {
            i = i + 1;
        }
    }
    assert(goal.take(goal.len() as int) =~= goal);
    lines
}

/// How wide the label of a property is.
pub open spec fn label_width(width: nat) -> nat {
    if width < 11 {
        width
    } else {
        11
    }
}

/// How wide its value is.
pub open spec fn value_width(width: nat) -> nat {
    if width > label_width(width) {
        (width - label_width(width)) as nat
    } else {
        1
    }
}

/// A property: the label before the first line of its value, and space before the others.
pub open spec fn wrapped_property(label: Seq<char>, value: Seq<char>, width: nat, theme: OmarchyTheme) -> Seq<
    Seq<SpanView>,
> {
    let lines = wrapped(value, value_width(width));
    Seq::new(
        lines.len(),
        |i: int|
            two(
                span(
                    if i == 0 {
                        padded(label, label_width(width))
                    } else {
                        repeated(' ', label_width(width))
                    },
                    in_color(theme.muted),
                ),
                span(lines[i], in_color(theme.foreground)),
            ),
    )
}

pub fn wrapped_property_lines(label: &str, value: &str, width: usize, theme: &OmarchyTheme) -> (r: Vec<Line>)
    ensures
        line_views(r@) == wrapped_property(label@, value@, width as nat, *theme),
{
    let label_columns: usize = if width < 11 {
        width
    } else {
        11
    };
    let value_columns: usize = if width > label_columns {
        width - label_columns
    } else {
        1
    };
    let mut rest = wrap_text(value, value_columns);
    let ghost all = rest@;
    let ghost goal = wrapped_property(label@, value@, width as nat, *theme);
    let mut lines: Vec<Line> = Vec::new();
    let mut first = true;
    let ghost mut i: int = 0;
    assert(rest@ =~= all.skip(0));
    assert(line_views(lines@) =~= goal.take(0));
    while rest.len() > 0
        invariant
            0 <= i <= all.len(),
            first == (i == 0),
            rest@ == all.skip(i),
            texts(all) == wrapped(value@, value_width(width as nat)),
            label_columns == label_width(width as nat),
            goal == wrapped_property(label@, value@, width as nat, *theme),
            line_views(lines@) == goal.take(i),
        decreases rest@.len(),
    {
        let text_line = rest.remove(0);
        assert(rest@ =~= all.skip(i + 1));
        assert(text_line@ == texts(all)[i]);
        let start = if first {
            pad_right(label, label_columns)
        } else {
            repeat_char(' ', label_columns)
        };
        first = false;
        let line = Line::two(
            Span::new(start, Style::color(theme.muted)),
            Span::new(text_line, Style::color(theme.foreground)),
        );
        add_line(&mut lines, line);
        assert(line@ == goal[i]);
        assert(goal.take(i + 1) =~= goal.take(i).push(goal[i]));
        proof {
            i = i + 1;
        }
    }
    assert(goal.take(goal.len() as int) =~= goal);
    lines
}

/// A property on one line.
pub open spec fn property(label: Seq<char>, value: Seq<char>, theme: OmarchyTheme) -> Seq<SpanView> {
    two(span(padded(label, 11), in_color(theme.muted)), span(value, in_color(theme.foreground)))
}

pub fn property_line(label: &str, value: &str, theme: &OmarchyTheme) -> (r: Line)
    ensures
        r@ == property(label@, value@, *theme),
{
    Line::two(
        Span::new(pad_right(label, 11), Style::color(theme.muted)),
        Span::of(value, Style::color(theme.foreground)),
    )
}

/// A setting of the menu; the selected one is marked.
pub open spec fn setting_row(label: Seq<char>, value: Seq<char>, selected: bool, theme: OmarchyTheme) -> Seq<
    SpanView,
> {
    seq![
        span(
            if selected {
                "▸ "@
            } else {
                "  "@
            },
            in_color(theme.accent),
        ),
        span(padded(label, 11), in_color(theme.muted)),
        span(
            value,
            if selected {
                in_bold(theme.accent)
            } else {
                in_color(theme.foreground)
            },
        ),
    ]
}

pub fn settings_line(label: &str, value: &str, selected: bool, theme: &OmarchyTheme) -> (r: Line)
    ensures
        r@ == setting_row(label@, value@, selected, *theme),
{
    let mark = if selected {
        "▸ "
    } else {
        "  "
    };
    let style = if selected {
        Style::bold(theme.accent)
    } else {
        Style::color(theme.foreground)
    };
    let mut line = Line::two(
        Span::of(mark, Style::color(theme.accent)),
        Span::new(pad_right(label, 11), Style::color(theme.muted)),
    );
    line.push(Span::of(value, style));
    assert(line@ =~= setting_row(label@, value@, selected, *theme));
    line
}

/// A field that is being filled in; what is secret shows as dots.
pub open spec fn input_row(label: Seq<char>, value: Seq<char>, masked: bool, theme: OmarchyTheme) -> Seq<
    SpanView,
> {
    let shown = if masked {
        repeated('•', value.len())
    } else {
        value
    };
    two(
        span(padded(label, 11), in_color(theme.muted)),
        span(shown + "▏"@, in_bold(theme.accent)),
    )
}

pub fn input_line(label: &str, value: &str, masked: bool, theme: &OmarchyTheme) -> (r: Line)
    ensures
        r@ == input_row(label@, value@, masked, *theme),
{
    let shown = if masked {
        repeat_char('•', value.unicode_len())
    } else {
        value.to_owned()
    };
    Line::two(
        Span::new(pad_right(label, 11), Style::color(theme.muted)),
        Span::new(shown.concat("▏"), Style::bold(theme.accent)),
    )
}

/// Of a masked field nothing shows but its length.
pub proof fn law_masked_fields_show_only_their_length(
    label: Seq<char>,
    a: Seq<char>,
    b: Seq<char>,
    theme: OmarchyTheme,
)
    requires
        a.len() == b.len(),
    ensures
        input_row(label, a, true, theme) == input_row(label, b, true, theme),
{
}

pub open spec fn spec_status_label(status: DeviceStatus) -> Seq<char> {
    match status {
        DeviceStatus::Ready => "READY"@,
        DeviceStatus::Offline => "OFFLINE"@,
        DeviceStatus::AgentUnknown => "UNKNOWN"@,
        DeviceStatus::Incompatible => "INCOMPATIBLE"@,
    }
}

pub fn status_label(status: DeviceStatus) -> (r: &'static str)
    ensures
        r@ == spec_status_label(status),
{
    match status {
        DeviceStatus::Ready => "READY",
        DeviceStatus::Offline => "OFFLINE",
        DeviceStatus::AgentUnknown => "UNKNOWN",
        DeviceStatus::Incompatible => "INCOMPATIBLE",
    }
}

pub open spec fn spec_connection_label(connection: ConnectionKind) -> Seq<char> {
    match connection {
        ConnectionKind::Direct => "DIRECT"@,
        ConnectionKind::Relay => "RELAY"@,
        ConnectionKind::Unknown => "—"@,
    }
}

pub fn connection_label(connection: ConnectionKind) -> (r: &'static str)
    ensures
        r@ == spec_connection_label(connection),
{
    match connection {
        ConnectionKind::Direct => "DIRECT",
        ConnectionKind::Relay => "RELAY",
        ConnectionKind::Unknown => "—",
    }
}

/// The style of a device's status: this device is muted, the others show how they are.
pub open spec fn status_color(node: DeviceView, theme: OmarchyTheme) -> Rgb {
    if node.is_local {
        theme.muted
    } else {
        match node.status {
            DeviceStatus::Ready => theme.success,
            DeviceStatus::Offline => theme.error,
            DeviceStatus::Incompatible => theme.error,
            DeviceStatus::AgentUnknown => theme.warning,
        }
    }
}

pub fn status_style(node: &DiscoveredNode, theme: &OmarchyTheme) -> (r: Style)
    ensures
        r == in_color(status_color(node@, *theme)),
{
    let color = if node.is_local {
        theme.muted
    } else {
        match node.status {
            DeviceStatus::Ready => theme.success,
            DeviceStatus::Offline => theme.error,
            DeviceStatus::Incompatible => theme.error,
            DeviceStatus::AgentUnknown => theme.warning,
        }
    };
    Style::color(color)
}

pub open spec fn latency_text(latency_ms: Option<u32>) -> Seq<char> {
    match latency_ms {
        Some(ms) => decimal(ms as nat) + " ms"@,
        None => "—"@,
    }
}

fn latency_label(latency_ms: Option<u32>) -> (r: String)
    ensures
        r@ == latency_text(latency_ms),
{
    match latency_ms {
        Some(ms) => decimal_text(ms as u64).concat(" ms"),
        None => "—".to_owned(),
    }
}

/// The three lines of a device in the list.
pub open spec fn device_rows(node: DeviceView, theme: OmarchyTheme) -> Seq<Seq<SpanView>> {
    let name = if node.is_local {
        node.name + " (This device)"@
    } else {
        node.name
    };
    let color = if node.is_local {
        theme.muted
    } else {
        theme.foreground
    };
    seq![
        two(span("  ● "@, in_color(status_color(node, theme))), span(name, in_color(color))),
        seq![
            span("    "@, unstyled()),
            span(padded(spec_status_label(node.status), 13), in_color(status_color(node, theme))),
            span(padded(spec_connection_label(node.connection), 10), in_color(theme.muted)),
            span(latency_text(node.latency_ms), in_color(theme.muted)),
        ],
        blank(),
    ]
}

pub fn device_item(node: &DiscoveredNode, theme: &OmarchyTheme) -> (r: Vec<Line>)
    ensures
        line_views(r@) == device_rows(node@, *theme),
{
    let name = if node.is_local {
        node.name.clone().concat(" (This device)")
    } else {
        node.name.clone()
    };
    let color = if node.is_local {
        theme.muted
    } else {
        theme.foreground
    };
    let status = status_style(node, theme);
    let first = Line::two(Span::of("  ● ", status), Span::new(name, Style::color(color)));
    let mut second = Line::two(
        Span::of("    ", Style { fg: None, bg: None, bold: false }),
        Span::new(pad_right(status_label(node.status), 13), status),
    );
    second.push(
        Span::new(pad_right(connection_label(node.connection), 10), Style::color(theme.muted)),
    );
    second.push(Span::new(latency_label(node.latency_ms), Style::color(theme.muted)));
    let ghost rows = device_rows(node@, *theme);
    assert(second@ =~= rows[1]);
    let mut lines: Vec<Line> = Vec::new();
    lines.push(first);
    lines.push(second);
    lines.push(Line::blank());
    assert(line_views(lines@) =~= rows);
    lines
}

pub open spec fn or_dash(text: Option<Seq<char>>) -> Seq<char> {
    match text {
        Some(text) => text,
        None => "—"@,
    }
}

fn text_or_dash(text: &Option<String>) -> (r: &str)
    ensures
        r@ == or_dash(opt_text(*text)),
{
    match text {
        Some(text) => text.as_str(),
        None => "—",
    }
}

pub open spec fn capability_text(capabilities: Seq<Seq<char>>) -> Seq<char> {
    if capabilities.len() == 0 {
        "Not advertised"@
    } else {
        joined(capabilities, ", "@)
    }
}

/// The texts with a separator between each two.
pub fn join_texts(parts: &[String], separator: &str) -> (r: String)
    ensures
        r@ == joined(texts(parts@), separator@),
{
    let mut out = String::new();
    let mut i: usize = 0;
    let ghost all = texts(parts@);
    while i < parts.len()
        invariant
            i <= parts@.len(),
            all == texts(parts@),
            out@ == joined(all.take(i as int), separator@),
        decreases parts@.len() - i,
    {
        if i > 0 {
            out.append(separator);
        }
        out.append(parts[i].as_str());
        assert(all.take(i + 1).drop_last() =~= all.take(i as int));
        if i == 0 {
            assert(Seq::<char>::empty() + all[0] =~= all[0]);
        }
        i += 1;
    }
    assert(all.take(all.len() as int) =~= all);
    out
}

fn capabilities_label(node: &DiscoveredNode) -> (r: String)
    ensures
        r@ == capability_text(node@.capabilities),
{
    let names = node.capabilities.as_slice();
    assert(texts(names@).len() == names@.len());
    if names.len() == 0 {
        "Not advertised".to_owned()
    } else {
        join_texts(names, ", ")
    }
}

/// What is shown of a device.
pub open spec fn device_details(node: DeviceView, width: nat, theme: OmarchyTheme) -> Seq<Seq<SpanView>> {
    seq![blank()] + styled_wrapped(
        node.name,
        width,
        in_bold(
            if node.is_local {
                theme.muted
            } else {
                theme.accent
            },
        ),
    ) + styled_wrapped(ip_text(node.address), width, in_color(theme.muted)) + seq![blank()]
        + wrapped_property("Status"@, spec_status_label(node.status), width, theme)
        + wrapped_property("Link"@, spec_connection_label(node.connection), width, theme)
        + wrapped_property("Latency"@, latency_text(node.latency_ms), width, theme)
        + wrapped_property("Omarchy"@, or_dash(node.omarchy_version), width, theme)
        + wrapped_property("Agent"@, or_dash(node.agent_version), width, theme) + seq![blank()]
        + styled_wrapped("CAPABILITIES"@, width, in_bold(theme.muted)) + styled_wrapped(
        capability_text(node.capabilities),
        width,
        in_color(theme.foreground),
    )
}

/// Why the selected device cannot be connected to.
pub open spec fn reason_details(reason: Option<Seq<char>>, width: nat, theme: OmarchyTheme) -> Seq<Seq<SpanView>> {
    match reason {
        Some(reason) => seq![blank()] + styled_wrapped(reason, width, in_color(theme.muted)),
        None => Seq::empty(),
    }
}

/// The message that stands.
pub open spec fn message_details(
    message: Option<(MessageKind, Seq<char>)>,
    width: nat,
    theme: OmarchyTheme,
) -> Seq<Seq<SpanView>> {
    match message {
        Some((kind, text)) => {
            let title = if kind == MessageKind::Error {
                "ERROR"@
            } else {
                "MESSAGE"@
            };
            let color = if kind == MessageKind::Error {
                theme.error
            } else {
                theme.success
            };
            seq![blank()] + styled_wrapped(title, width, in_bold(color)) + styled_wrapped(
                text,
                width,
                in_color(color),
            )
        },
        None => Seq::empty(),
    }
}

pub open spec fn details(node: DeviceView, state: AppView, width: nat, theme: OmarchyTheme) -> Seq<Seq<SpanView>> {
    device_details(node, width, theme) + reason_details(state.unavailable_reason(), width, theme)
        + message_details(state.message(), width, theme)
}

fn device_lines(node: &DiscoveredNode, theme: &OmarchyTheme, width: usize) -> (r: Vec<Line>)
    ensures
        line_views(r@) == device_details(node@, width as nat, *theme),
{
    let mut lines: Vec<Line> = Vec::new();
    lines.push(Line::blank());
    assert(line_views(lines@) =~= seq![blank()]);
    let name_color = if node.is_local {
        theme.muted
    } else {
        theme.accent
    };
    add_lines(&mut lines, styled_wrapped_lines(node.name.as_str(), width, Style::bold(name_color)));
    let address = address_text(node.address);
    add_lines(&mut lines, styled_wrapped_lines(address.as_str(), width, Style::color(theme.muted)));
    let ghost before = line_views(lines@);
    add_line(&mut lines, Line::blank());
    assert(before.push(blank()) =~= before + seq![blank()]);
    add_lines(&mut lines, wrapped_property_lines("Status", status_label(node.status), width, theme));
    add_lines(
        &mut lines,
        wrapped_property_lines("Link", connection_label(node.connection), width, theme),
    );
    let latency = latency_label(node.latency_ms);
    add_lines(&mut lines, wrapped_property_lines("Latency", latency.as_str(), width, theme));
    add_lines(
        &mut lines,
        wrapped_property_lines("Omarchy", text_or_dash(&node.omarchy_version), width, theme),
    );
    add_lines(
        &mut lines,
        wrapped_property_lines("Agent", text_or_dash(&node.agent_version), width, theme),
    );
    let ghost before = line_views(lines@);
    add_line(&mut lines, Line::blank());
    assert(before.push(blank()) =~= before + seq![blank()]);
    add_lines(&mut lines, styled_wrapped_lines("CAPABILITIES", width, Style::bold(theme.muted)));
    let capabilities = capabilities_label(node);
    add_lines(
        &mut lines,
        styled_wrapped_lines(capabilities.as_str(), width, Style::color(theme.foreground)),
    );
    lines
}

/// The overview of a device: what it is, why it cannot be connected to, and the message that
/// stands.
pub fn detail_lines(node: &DiscoveredNode, state: &AppState, theme: &OmarchyTheme, width: usize) -> (r: Vec<Line>)
    ensures
        line_views(r@) == details(node@, state@, width as nat, *theme),
{
    let mut lines = device_lines(node, theme, width);
    let ghost first = line_views(lines@);
    match state.unavailable_reason() {
        Some(reason) => {
            add_line(&mut lines, Line::blank());
            add_lines(&mut lines, styled_wrapped_lines(reason, width, Style::color(theme.muted)));
        },
        None => {},
    }
    let ghost second = reason_details(state@.unavailable_reason(), width as nat, *theme);
    assert(line_views(lines@) =~= first + second);
    match state.message() {
        Some((kind, text)) => {
            let title = if kind == MessageKind::Error {
                "ERROR"
            } else {
                "MESSAGE"
            };
            let color = if kind == MessageKind::Error {
                theme.error
            } else {
                theme.success
            };
            add_line(&mut lines, Line::blank());
            add_lines(&mut lines, styled_wrapped_lines(title, width, Style::bold(color)));
            add_lines(&mut lines, styled_wrapped_lines(text, width, Style::color(color)));
        },
        None => {},
    }
    let ghost third = message_details(state@.message(), width as nat, *theme);
    assert(line_views(lines@) =~= first + second + third);
    lines
}

/// What the panel of the overview holds before it is cut.
pub open spec fn overview(state: AppView, width: nat, theme: OmarchyTheme) -> Seq<Seq<SpanView>> {
    match state.selected() {
        Some(node) => details(node, state, width, theme),
        None => seq![blank(), one("Select a device"@, in_color(theme.muted))],
    }
}

/// The columns inside a panel of that width.
pub open spec fn inner_width(width: u16) -> nat {
    if width > 5 {
        (width - 4) as nat
    } else {
        1
    }
}

/// The rows inside a panel of that height.
pub open spec fn inner_height(height: u16) -> nat {
    if height > 2 {
        (height - 2) as nat
    } else {
        0
    }
}

/// Lines cut to what there is room for, with a hint that there are more.
pub open spec fn cut_lines(lines: Seq<Seq<SpanView>>, room: nat, theme: OmarchyTheme) -> Seq<Seq<SpanView>> {
    lines.take(
        if room > 0 {
            room - 1
        } else {
            0
        },
    ).push(one("▾ click to expand"@, in_bold(theme.muted)))
}

/// The lines of the overview in its panel. The state keeps where the panel is and whether all
/// lines fit; where they do not, and the panel is not expanded, they are cut.
pub fn draw_details(state: &mut AppState, area: Rect, theme: &OmarchyTheme) -> (r: Vec<Line>)
    requires
        old(state)@.wf(),
        area.fits(),
    ensures
        final(state)@.wf(),
        ({
            let shown = overview(old(state)@, inner_width(area.width), *theme);
            let room = inner_height(area.height);
            &&& final(state)@ == (AppView {
                detail_rect: Some(area),
                detail_overflow: shown.len() > room,
                ..old(state)@
            })
            &&& line_views(r@) == (if shown.len() > room && !old(state)@.detail_expanded {
                cut_lines(shown, room, *theme)
            } else {
                shown
            })
        }),
{
    let width: usize = if area.width > 5 {
        (area.width - 4) as usize
    } else {
        1
    };
    let room: usize = if area.height > 2 {
        (area.height - 2) as usize
    } else {
        0
    };
    let mut lines = match state.selected() {
        Some(node) => detail_lines(node, state, theme, width),
        None => {
            let mut lines: Vec<Line> = Vec::new();
            lines.push(Line::blank());
            lines.push(Line::of("Select a device", Style::color(theme.muted)));
            assert(line_views(lines@) =~= seq![
                blank(),
                one("Select a device"@, in_color(theme.muted)),
            ]);
            lines
        },
    };
    let ghost shown = line_views(lines@);
    let overflow = lines.len() > room;
    state.detail_rect = Some(area);
    state.detail_overflow = overflow;
    if overflow && !state.detail_expanded {
        let keep: usize = if room > 0 {
            room - 1
        } else {
            0
        };
        lines.truncate(keep);
        assert(line_views(lines@) =~= shown.take(keep as int));
        add_line(&mut lines, Line::of("▾ click to expand", Style::bold(theme.muted)));
    }
    lines
}

/// Unless it is expanded, the overview takes no more rows than its panel has, if it has any.
pub proof fn law_a_closed_overview_fits_its_panel(lines: Seq<Seq<SpanView>>, room: nat, theme: OmarchyTheme)
    requires
        lines.len() > room > 0,
    ensures
        cut_lines(lines, room, theme).len() == room,
{
}

/// The number of characters of a line.
pub open spec fn line_width(line: Seq<SpanView>) -> nat {
    plain(line).len()
}

pub open spec fn lines_fit(lines: Seq<Seq<SpanView>>, width: nat) -> bool {
    forall|i: int| 0 <= i < lines.len() ==> line_width(#[trigger] lines[i]) <= width
}

proof fn lemma_one_width(text: Seq<char>, style: Style)
    ensures
        line_width(one(text, style)) == text.len(),
{
    reveal_with_fuel(plain, 2);
    assert(one(text, style).drop_last() =~= Seq::<SpanView>::empty());
}

proof fn lemma_two_width(a: SpanView, b: SpanView)
    ensures
        line_width(two(a, b)) == a.text.len() + b.text.len(),
{
    reveal_with_fuel(plain, 3);
    assert(two(a, b).drop_last() =~= seq![a]);
    assert(seq![a].drop_last() =~= Seq::<SpanView>::empty());
}

proof fn lemma_wrapped_fit(text: Seq<char>, width: nat, style: Style)
    requires
        width > 0,
    ensures
        lines_fit(styled_wrapped(text, width, style), width),
{
    law_wrapped_lines_fit(text, width);
    let lines = styled_wrapped(text, width, style);
    assert forall|i: int| 0 <= i < lines.len() implies line_width(#[trigger] lines[i]) <= width by {
        lemma_one_width(wrapped(text, width)[i], style);
    }
}

proof fn lemma_property_fit(label: Seq<char>, value: Seq<char>, width: nat, theme: OmarchyTheme)
    requires
        width > 11,
        label.len() <= 11,
    ensures
        lines_fit(wrapped_property(label, value, width, theme), width),
{
    law_wrapped_lines_fit(value, value_width(width));
    let lines = wrapped_property(label, value, width, theme);
    assert forall|i: int| 0 <= i < lines.len() implies line_width(#[trigger] lines[i]) <= width by {
        lemma_two_width(lines[i][0], lines[i][1]);
        assert(lines[i] =~= two(lines[i][0], lines[i][1]));
        assert(wrapped(value, value_width(width))[i].len() <= value_width(width));
    }
}

proof fn lemma_fit_concat(a: Seq<Seq<SpanView>>, b: Seq<Seq<SpanView>>, width: nat)
    requires
        lines_fit(a, width),
        lines_fit(b, width),
    ensures
        lines_fit(a + b, width),
{
}

proof fn lemma_blank_fits(width: nat)
    ensures
        lines_fit(seq![blank()], width),
{
    reveal_with_fuel(plain, 2);
}

proof fn lemma_device_details_fit(node: DeviceView, width: nat, theme: OmarchyTheme)
    requires
        width > 11,
    ensures
        lines_fit(device_details(node, width, theme), width),
{
    reveal_strlit("Status");
    reveal_strlit("Link");
    reveal_strlit("Latency");
    reveal_strlit("Omarchy");
    reveal_strlit("Agent");
    let color = if node.is_local {
        theme.muted
    } else {
        theme.accent
    };
    let b = seq![blank()];
    let p1 = styled_wrapped(node.name, width, in_bold(color));
    let p2 = styled_wrapped(ip_text(node.address), width, in_color(theme.muted));
    let p3 = wrapped_property("Status"@, spec_status_label(node.status), width, theme);
    let p4 = wrapped_property("Link"@, spec_connection_label(node.connection), width, theme);
    let p5 = wrapped_property("Latency"@, latency_text(node.latency_ms), width, theme);
    let p6 = wrapped_property("Omarchy"@, or_dash(node.omarchy_version), width, theme);
    let p7 = wrapped_property("Agent"@, or_dash(node.agent_version), width, theme);
    let p8 = styled_wrapped("CAPABILITIES"@, width, in_bold(theme.muted));
    let p9 = styled_wrapped(capability_text(node.capabilities), width, in_color(theme.foreground));
    lemma_blank_fits(width);
    lemma_wrapped_fit(node.name, width, in_bold(color));
    lemma_wrapped_fit(ip_text(node.address), width, in_color(theme.muted));
    lemma_property_fit("Status"@, spec_status_label(node.status), width, theme);
    lemma_property_fit("Link"@, spec_connection_label(node.connection), width, theme);
    lemma_property_fit("Latency"@, latency_text(node.latency_ms), width, theme);
    lemma_property_fit("Omarchy"@, or_dash(node.omarchy_version), width, theme);
    lemma_property_fit("Agent"@, or_dash(node.agent_version), width, theme);
    lemma_wrapped_fit("CAPABILITIES"@, width, in_bold(theme.muted));
    lemma_wrapped_fit(capability_text(node.capabilities), width, in_color(theme.foreground));
    lemma_fit_concat(b, p1, width);
    lemma_fit_concat(b + p1, p2, width);
    lemma_fit_concat(b + p1 + p2, b, width);
    lemma_fit_concat(b + p1 + p2 + b, p3, width);
    lemma_fit_concat(b + p1 + p2 + b + p3, p4, width);
    lemma_fit_concat(b + p1 + p2 + b + p3 + p4, p5, width);
    lemma_fit_concat(b + p1 + p2 + b + p3 + p4 + p5, p6, width);
    lemma_fit_concat(b + p1 + p2 + b + p3 + p4 + p5 + p6, p7, width);
    lemma_fit_concat(b + p1 + p2 + b + p3 + p4 + p5 + p6 + p7, b, width);
    lemma_fit_concat(b + p1 + p2 + b + p3 + p4 + p5 + p6 + p7 + b, p8, width);
    lemma_fit_concat(b + p1 + p2 + b + p3 + p4 + p5 + p6 + p7 + b + p8, p9, width);
}

/// No line of the overview is wider than the panel, however long its texts are, as soon as there
/// is room for a label and one column of its value.
pub proof fn law_the_overview_fits_its_width(node: DeviceView, state: AppView, width: nat, theme: OmarchyTheme)
    requires
        width > 11,
    ensures
        lines_fit(details(node, state, width, theme), width),
{
    lemma_device_details_fit(node, width, theme);
    lemma_blank_fits(width);
    let reason = reason_details(state.unavailable_reason(), width, theme);
    match state.unavailable_reason() {
        Some(text) => {
            lemma_wrapped_fit(text, width, in_color(theme.muted));
        },
        None => {},
    }
    match state.message() {
        Some((kind, text)) => {
            let title = if kind == MessageKind::Error {
                "ERROR"@
            } else {
                "MESSAGE"@
            };
            let color = if kind == MessageKind::Error {
                theme.error
            } else {
                theme.success
            };
            lemma_wrapped_fit(title, width, in_bold(color));
            lemma_wrapped_fit(text, width, in_color(color));
            lemma_fit_concat(seq![blank()], styled_wrapped(title, width, in_bold(color)), width);
        },
        None => {},
    }
    lemma_fit_concat(device_details(node, width, theme), reason, width);
}

/// Each status and each kind of link has its own word.
pub proof fn law_status_and_link_are_named(
    status: DeviceStatus,
    connection: ConnectionKind,
    s: &'static str,
    c: &'static str,
)
    requires
        call_ensures(status_label, (status,), s),
        call_ensures(connection_label, (connection,), c),
    ensures
        status == DeviceStatus::Ready ==> s@ == "READY"@,
        status == DeviceStatus::Offline ==> s@ == "OFFLINE"@,
        status == DeviceStatus::AgentUnknown ==> s@ == "UNKNOWN"@,
        status == DeviceStatus::Incompatible ==> s@ == "INCOMPATIBLE"@,
        connection == ConnectionKind::Direct ==> c@ == "DIRECT"@,
        connection == ConnectionKind::Relay ==> c@ == "RELAY"@,
        connection == ConnectionKind::Unknown ==> c@ == "—"@,
{
}

/// A ready device shows in the color of success, one that is off or does not match in that of an
/// error, one that is not known in that of a warning, and this device is muted.
pub proof fn law_the_color_tells_the_status(node: &DiscoveredNode, theme: &OmarchyTheme, r: Style)
    requires
        call_ensures(status_style, (node, theme), r),
    ensures
        node@.is_local ==> r.fg == Some(theme.muted),
        !node@.is_local && node@.status == DeviceStatus::Ready ==> r.fg == Some(theme.success),
        !node@.is_local && node@.status == DeviceStatus::Offline ==> r.fg == Some(theme.error),
        !node@.is_local && node@.status == DeviceStatus::Incompatible ==> r.fg == Some(theme.error),
        !node@.is_local && node@.status == DeviceStatus::AgentUnknown ==> r.fg == Some(theme.warning),
        r.bg is None && !r.bold,
{
}

/// A color is that of the letters; the bold style differs from the plain one in nothing else.
pub proof fn law_bold_differs_only_in_weight(color: Rgb, plain_style: Style, bold_style: Style)
    requires
        call_ensures(Style::color, (color,), plain_style),
        call_ensures(Style::bold, (color,), bold_style),
    ensures
        plain_style.fg == Some(color) && bold_style.fg == Some(color),
        plain_style.bg is None && bold_style.bg is None,
        !plain_style.bold && bold_style.bold,
{
}

/// Padding keeps the text at the start, adds only spaces, and fills exactly the width, unless the
/// text is longer.
pub proof fn law_padding_fills_the_width(text: &str, width: usize, r: String)
    requires
        call_ensures(pad_right, (text, width), r),
    ensures
        r@.take(text@.len() as int) == text@,
        text@.len() <= width ==> r@.len() == width,
        text@.len() > width ==> r@ == text@,
        forall|i: int| text@.len() <= i < r@.len() ==> r@[i] == ' ',
{
    assert(r@.take(text@.len() as int) =~= text@);
}

/// A character is repeated as often as asked.
pub proof fn law_a_character_is_repeated(c: char, count: usize, r: String)
    requires
        call_ensures(repeat_char, (c, count), r),
    ensures
        r@.len() == count,
        forall|i: int| 0 <= i < r@.len() ==> r@[i] == c,
{
}

/// One more text is joined with one more separator; one alone stands as it is, and none is empty.
pub proof fn law_joining_adds_one_separator(
    parts: &[String],
    more: &[String],
    last: String,
    separator: &str,
    r: String,
    longer: String,
)
    requires
        call_ensures(join_texts, (parts, separator), r),
        call_ensures(join_texts, (more, separator), longer),
        more@ == parts@.push(last),
    ensures
        parts@.len() > 0 ==> longer@ == r@ + separator@ + last@,
        parts@.len() == 0 ==> longer@ == last@,
        parts@.len() == 0 ==> r@.len() == 0,
{
    let a = texts(parts@);
    let b = texts(more@);
    assert(b.drop_last() =~= a);
    assert(b.last() == last@);
    assert(b.len() == parts@.len() + 1);
    if parts@.len() == 0 {
        assert(b[0] == last@);
    }
}

/// The text of a line is that of its parts, one after the other.
pub proof fn law_the_text_of_a_line_is_its_parts(
    line: &mut Line,
    more: Span,
    before: String,
    after: String,
)
    requires
        call_ensures(Line::to_text, (&*old(line),), before),
        call_ensures(Line::push, (line, more), ()),
        call_ensures(Line::to_text, (&*final(line),), after),
    ensures
        after@ == before@ + more.text@,
{
    let b = final(line)@;
    assert(b == old(line)@.push(more@));
    assert(b.drop_last() =~= old(line)@);
}

/// A property shows its label in eleven columns and then its value.
pub proof fn law_a_property_is_label_and_value(label: &str, value: &str, theme: &OmarchyTheme, r: Line)
    requires
        call_ensures(property_line, (label, value, theme), r),
    ensures
        r@.len() == 2,
        r@[0].text.take(label@.len() as int) == label@,
        label@.len() <= 11 ==> r@[0].text.len() == 11,
        r@[1].text == value@,
        r@[0].style.fg == Some(theme.muted),
        r@[1].style.fg == Some(theme.foreground),
{
    assert(r@[0].text.take(label@.len() as int) =~= label@);
}

/// A wrapped property shows its label once, before the first line of its value; the lines of the
/// value are those that wrapping gives in what is left of the width.
pub proof fn law_a_wrapped_property_shows_its_label_once(
    label: &str,
    value: &str,
    width: usize,
    theme: &OmarchyTheme,
    lines: Vec<String>,
    r: Vec<Line>,
    i: int,
)
    requires
        call_ensures(wrapped_property_lines, (label, value, width, theme), r),
        width > 11,
        call_ensures(wrap_text, (value, (width - 11) as usize), lines),
        label@.len() <= 11,
        0 <= i < lines@.len(),
    ensures
        r@.len() == lines@.len(),
        r@[i]@.len() == 2,
        r@[i]@[0].text.len() == 11,
        i == 0 ==> r@[i]@[0].text.take(label@.len() as int) == label@,
        i > 0 ==> forall|k: int| 0 <= k < 11 ==> r@[i]@[0].text[k] == ' ',
        r@[i]@[1].text == lines@[i]@,
{
    let views = line_views(r@);
    assert(views == wrapped_property(label@, value@, width as nat, *theme));
    assert(value_width(width as nat) == (width - 11) as nat);
    assert(texts(lines@).len() == lines@.len());
    assert(views.len() == r@.len());
    assert(views[i] == r@[i]@);
    assert(texts(lines@)[i] == lines@[i]@);
    if i == 0 {
        assert(r@[i]@[0].text.take(label@.len() as int) =~= label@);
    }
}

/// A text in one style is the text wrapped, each line in that style.
pub proof fn law_a_styled_text_is_wrapped(text: &str, width: usize, style: Style, lines: Vec<String>, r: Vec<Line>, i: int)
    requires
        call_ensures(styled_wrapped_lines, (text, width, style), r),
        call_ensures(wrap_text, (text, width), lines),
        0 <= i < lines@.len(),
    ensures
        r@.len() == lines@.len(),
        r@[i]@.len() == 1,
        r@[i]@[0].text == lines@[i]@,
        r@[i]@[0].style == style,
{
    let views = line_views(r@);
    assert(views == styled_wrapped(text@, width as nat, style));
    assert(texts(lines@).len() == lines@.len());
    assert(views.len() == r@.len());
    assert(views[i] == r@[i]@);
    assert(texts(lines@)[i] == lines@[i]@);
}

/// The selected setting, and only that, is marked and bold.
pub proof fn law_the_selected_setting_is_marked(label: &str, value: &str, selected: bool, theme: &OmarchyTheme, r: Line)
    requires
        call_ensures(settings_line, (label, value, selected, theme), r),
    ensures
        r@.len() == 3,
        r@[0].text == (if selected {
            "▸ "@
        } else {
            "  "@
        }),
        r@[1].text.take(label@.len() as int) == label@,
        r@[2].text == value@,
        r@[2].style.bold == selected,
        r@[2].style.fg == Some(
            if selected {
                theme.accent
            } else {
                theme.foreground
            },
        ),
{
    assert(r@[1].text.take(label@.len() as int) =~= label@);
}

/// A field shows its text before the cursor, or as many dots where it is masked.
pub proof fn law_a_masked_field_shows_dots(label: &str, value: &str, theme: &OmarchyTheme, open: Line, masked: Line)
    requires
        call_ensures(input_line, (label, value, false, theme), open),
        call_ensures(input_line, (label, value, true, theme), masked),
    ensures
        open@.len() == 2 && masked@.len() == 2,
        open@[1].text == value@ + "▏"@,
        masked@[1].text.len() == open@[1].text.len(),
        forall|i: int| 0 <= i < value@.len() ==> masked@[1].text[i] == '•',
        open@[0] == masked@[0],
        open@[0].text.take(label@.len() as int) == label@,
{
    assert(open@[0].text.take(label@.len() as int) =~= label@);
}

/// A device takes three rows in the list: its name, then its status, link and latency, then an
/// empty one. This device is told from the others.
pub proof fn law_a_device_shows_its_name_and_state(
    node: &DiscoveredNode,
    theme: &OmarchyTheme,
    status: &'static str,
    link: &'static str,
    r: Vec<Line>,
)
    requires
        call_ensures(device_item, (node, theme), r),
        call_ensures(status_label, (node.status,), status),
        call_ensures(connection_label, (node.connection,), link),
    ensures
        r@.len() == 3,
        r@[0]@.len() == 2,
        r@[0]@[0].text == "  ● "@,
        r@[0]@[1].text == (if node.is_local {
            node.name@ + " (This device)"@
        } else {
            node.name@
        }),
        r@[1]@.len() == 4,
        r@[1]@[1].text.take(status@.len() as int) == status@,
        r@[1]@[2].text.take(link@.len() as int) == link@,
        r@[1]@[3].text == (match node.latency_ms {
            Some(ms) => decimal(ms as nat) + " ms"@,
            None => "—"@,
        }),
        r@[2]@.len() == 0,
{
    let views = line_views(r@);
    assert(views == device_rows(node@, *theme));
    assert(views.len() == r@.len());
    assert(views[0] == r@[0]@ && views[1] == r@[1]@ && views[2] == r@[2]@);
    assert(r@[1]@[1].text.take(status@.len() as int) =~= status@);
    assert(r@[1]@[2].text.take(link@.len() as int) =~= link@);
    assert(node@.name == node.name@ && node@.is_local == node.is_local && node@.latency_ms
        == node.latency_ms && node@.status == node.status && node@.connection == node.connection);
}

/// The overview keeps where its panel is and whether all fits; cut lines end with the hint, and
/// lines are cut only where they do not fit and the panel is closed.
pub proof fn law_an_overview_that_does_not_fit_is_cut(
    state: &mut AppState,
    area: Rect,
    theme: &OmarchyTheme,
    r: Vec<Line>,
)
    requires
        call_ensures(draw_details, (state, area, theme), r),
        area.height > 2,
    ensures
        final(state)@.detail_rect == Some(area),
        !final(state)@.detail_overflow ==> r@.len() <= area.height - 2,
        final(state)@.detail_overflow && !old(state)@.detail_expanded ==> r@.len() == area.height - 2
            && r@.last()@.len() == 1 && r@.last()@[0].text == "▾ click to expand"@,
        final(state)@.detail_overflow && old(state)@.detail_expanded ==> r@.len() > area.height - 2,
        final(state)@.detail_expanded == old(state)@.detail_expanded,
        final(state)@.selection == old(state)@.selection,
{
    let views = line_views(r@);
    assert(views.len() == r@.len());
    if r@.len() > 0 {
        assert(views.last() == r@.last()@);
    }
}

/// Without a selected device the overview asks for one.
pub proof fn law_without_a_device_one_is_asked_for(
    state: &mut AppState,
    area: Rect,
    theme: &OmarchyTheme,
    r: Vec<Line>,
)
    requires
        call_ensures(draw_details, (state, area, theme), r),
        area.height >= 4,
        old(state)@.selection is None,
    ensures
        r@.len() == 2,
        r@[0]@.len() == 0,
        r@[1]@.len() == 1 && r@[1]@[0].text == "Select a device"@,
        !final(state)@.detail_overflow,
{
    let views = line_views(r@);
    assert(views.len() == r@.len());
    assert(overview(old(state)@, inner_width(area.width), *theme).len() == 2);
    assert(views[0] == r@[0]@ && views[1] == r@[1]@);
}

/// The details of a device begin with an empty line and its name, and hold everything that is
/// known of it under its own label, each wrapped to the width.
pub proof fn law_the_details_name_everything(
    node: &DiscoveredNode,
    state: &AppState,
    theme: &OmarchyTheme,
    width: usize,
    name: Vec<Line>,
    address: Vec<Line>,
    status: Vec<Line>,
    link: Vec<Line>,
    status_text: &'static str,
    link_text: &'static str,
    shown: &str,
    title: &str,
    r: Vec<Line>,
)
    requires
        call_ensures(detail_lines, (node, state, theme, width), r),
        title@ == node.name@,
        shown@ == ip_text(node.address),
        call_ensures(
            styled_wrapped_lines,
            (
                title,
                width,
                Style {
                    fg: Some(
                        if node.is_local {
                            theme.muted
                        } else {
                            theme.accent
                        },
                    ),
                    bg: None,
                    bold: true,
                },
            ),
            name,
        ),
        call_ensures(
            styled_wrapped_lines,
            (shown, width, Style { fg: Some(theme.muted), bg: None, bold: false }),
            address,
        ),
        call_ensures(status_label, (node.status,), status_text),
        call_ensures(connection_label, (node.connection,), link_text),
        call_ensures(wrapped_property_lines, ("Status", status_text, width, theme), status),
        call_ensures(wrapped_property_lines, ("Link", link_text, width, theme), link),
    ensures
        ({
            let start = seq![Seq::<SpanView>::empty()] + line_views(name@) + line_views(address@) + seq![
                Seq::<SpanView>::empty(),
            ] + line_views(status@) + line_views(link@);
            start.len() <= r@.len() && line_views(r@).take(start.len() as int) == start
        }),
{
    assert(node@.name == node.name@ && node@.is_local == node.is_local && node@.address == node.address
        && node@.status == node.status && node@.connection == node.connection);
    let start = seq![Seq::<SpanView>::empty()] + line_views(name@) + line_views(address@) + seq![
        Seq::<SpanView>::empty(),
    ] + line_views(status@) + line_views(link@);
    let all = line_views(r@);
    assert(all.len() == r@.len());
    assert(all.take(start.len() as int) =~= start);
}

/// The details of a device go on with its latency, its versions and what it advertises, each under
/// its label.
pub proof fn law_the_details_tell_versions_and_capabilities(
    node: &DiscoveredNode,
    state: &AppState,
    theme: &OmarchyTheme,
    width: usize,
    omarchy: &str,
    agent: &str,
    versions: Vec<Line>,
    agents: Vec<Line>,
    title: Vec<Line>,
    r: Vec<Line>,
)
    requires
        call_ensures(detail_lines, (node, state, theme, width), r),
        omarchy@ == (match node.omarchy_version {
            Some(version) => version@,
            None => "—"@,
        }),
        agent@ == (match node.agent_version {
            Some(version) => version@,
            None => "—"@,
        }),
        call_ensures(wrapped_property_lines, ("Omarchy", omarchy, width, theme), versions),
        call_ensures(wrapped_property_lines, ("Agent", agent, width, theme), agents),
        call_ensures(
            styled_wrapped_lines,
            ("CAPABILITIES", width, Style { fg: Some(theme.muted), bg: None, bold: true }),
            title,
        ),
    ensures
        exists|at: int|
            0 <= at <= r@.len() && #[trigger] line_views(r@).skip(at).take(
                (versions@.len() + agents@.len() + 1 + title@.len()) as int,
            ) == line_views(versions@) + line_views(agents@) + seq![Seq::<SpanView>::empty()] + line_views(
                title@,
            ),
{
    let width_n = width as nat;
    assert(node@.omarchy_version == opt_text(node.omarchy_version));
    assert(node@.agent_version == opt_text(node.agent_version));
    assert(or_dash(node@.omarchy_version) == omarchy@);
    assert(or_dash(node@.agent_version) == agent@);
    let color = if node@.is_local {
        theme.muted
    } else {
        theme.accent
    };
    let b = seq![blank()];
    let start = b + styled_wrapped(node@.name, width_n, in_bold(color)) + styled_wrapped(
        ip_text(node@.address),
        width_n,
        in_color(theme.muted),
    ) + b + wrapped_property("Status"@, spec_status_label(node@.status), width_n, *theme)
        + wrapped_property("Link"@, spec_connection_label(node@.connection), width_n, *theme)
        + wrapped_property("Latency"@, latency_text(node@.latency_ms), width_n, *theme);
    let middle = line_views(versions@) + line_views(agents@) + b + line_views(title@);
    let end = styled_wrapped(capability_text(node@.capabilities), width_n, in_color(theme.foreground))
        + reason_details(state@.unavailable_reason(), width_n, *theme) + message_details(
        state@.message(),
        width_n,
        *theme,
    );
    let all = line_views(r@);
    assert(all.len() == r@.len());
    assert(all =~= start + middle + end);
    let at = start.len() as int;
    assert(middle.len() == versions@.len() + agents@.len() + 1 + title@.len());
    assert(all.skip(at).take(middle.len() as int) =~= middle);
}

/// The details end with the message that stands: an error under that word in its color, a notice
/// under another in that of success.
pub proof fn law_the_details_end_with_the_message(
    node: &DiscoveredNode,
    state: &AppState,
    theme: &OmarchyTheme,
    width: usize,
    kind: MessageKind,
    text: &str,
    title: &str,
    color: Rgb,
    head: Vec<Line>,
    body: Vec<Line>,
    r: Vec<Line>,
)
    requires
        call_ensures(detail_lines, (node, state, theme, width), r),
        call_ensures(AppState::message, (state,), Some((kind, text))),
        kind == MessageKind::Error ==> title@ == "ERROR"@ && color == theme.error,
        kind != MessageKind::Error ==> title@ == "MESSAGE"@ && color == theme.success,
        call_ensures(
            styled_wrapped_lines,
            (title, width, Style { fg: Some(color), bg: None, bold: true }),
            head,
        ),
        call_ensures(
            styled_wrapped_lines,
            (text, width, Style { fg: Some(color), bg: None, bold: false }),
            body,
        ),
    ensures
        head@.len() + body@.len() < r@.len(),
        line_views(r@).skip(r@.len() - head@.len() - body@.len() - 1) == seq![Seq::<SpanView>::empty()]
            + line_views(head@) + line_views(body@),
{
    let all = line_views(r@);
    assert(all.len() == r@.len());
    assert(state@.message() == Some((kind, text@)));
    let end = message_details(state@.message(), width as nat, *theme);
    assert(end =~= seq![Seq::<SpanView>::empty()] + line_views(head@) + line_views(body@));
    let start = device_details(node@, width as nat, *theme) + reason_details(
        state@.unavailable_reason(),
        width as nat,
        *theme,
    );
    assert(all == start + end);
    assert(end.len() == head@.len() + body@.len() + 1);
    assert(all.skip(r@.len() - head@.len() - body@.len() - 1) =~= end);
}

/// Without a message the details end with why the selected device cannot be connected to, and
/// without that with what the device advertises, if anything.
pub proof fn law_the_details_end_with_the_reason(
    node: &DiscoveredNode,
    state: &AppState,
    theme: &OmarchyTheme,
    width: usize,
    reason: Option<&'static str>,
    none_told: &str,
    lines: Vec<Line>,
    r: Vec<Line>,
)
    requires
        call_ensures(detail_lines, (node, state, theme, width), r),
        call_ensures(AppState::message, (state,), None),
        call_ensures(AppState::unavailable_reason, (state,), reason),
        none_told@ == "Not advertised"@,
        call_ensures(
            styled_wrapped_lines,
            (
                match reason {
                    Some(text) => text,
                    None => none_told,
                },
                width,
                Style {
                    fg: Some(
                        if reason is Some {
                            theme.muted
                        } else {
                            theme.foreground
                        },
                    ),
                    bg: None,
                    bold: false,
                },
            ),
            lines,
        ),
        reason is None ==> node@.capabilities.len() == 0,
    ensures
        lines@.len() <= r@.len(),
        line_views(r@).skip(r@.len() - lines@.len()) == line_views(lines@),
{
    let all = line_views(r@);
    assert(all.len() == r@.len());
    assert(state@.message() is None);
    let device = device_details(node@, width as nat, *theme);
    let why = reason_details(state@.unavailable_reason(), width as nat, *theme);
    assert(all =~= device + why);
    assert(line_views(lines@).len() == lines@.len());
    assert(all.skip(r@.len() - lines@.len()) =~= line_views(lines@));
}

} // verus!
