//! The colors of the desktop theme.
use vstd::prelude::*;
use vstd::string::*;

use crate::scan::{ends_in, ends_with};
use crate::strings::{
    byte_count, byte_len, chars_of, hex_digit, is_hex_digit, opt_text, same_text,
    text_between, texts,
};

verus! {

#[derive(Clone, Copy, Debug, PartialEq, Eq, Structural)]
pub struct Rgb {
    pub red: u8,
    pub green: u8,
    pub blue: u8,
}

impl Rgb {
    pub fn new(red: u8, green: u8, blue: u8) -> (r: Self)
        ensures
            r == (Rgb { red, green, blue }),
    {
        Rgb { red, green, blue }
    }
}

#[derive(Clone, Copy, Debug, PartialEq, Eq, Structural)]
pub struct OmarchyTheme {
    pub accent: Rgb,
    pub selection: Rgb,
    pub muted: Rgb,
    pub background: Rgb,
    pub foreground: Rgb,
    pub error: Rgb,
    pub success: Rgb,
    pub warning: Rgb,
}

pub open spec fn rgb(red: u8, green: u8, blue: u8) -> Rgb {
    Rgb { red, green, blue }
}

impl OmarchyTheme {
    pub open spec fn spec_default() -> OmarchyTheme {
        OmarchyTheme {
            accent: rgb(0x7a, 0xa2, 0xf7),
            selection: rgb(0x33, 0x3b, 0x55),
            muted: rgb(0x56, 0x5f, 0x89),
            background: rgb(0x1a, 0x1b, 0x26),
            foreground: rgb(0xc0, 0xca, 0xf5),
            error: rgb(0xf7, 0x76, 0x8e),
            success: rgb(0x9e, 0xce, 0x6a),
            warning: rgb(0xe0, 0xaf, 0x68),
        }
    }
}

impl Default for OmarchyTheme {
    fn default() -> (r: Self)
        ensures
            r == OmarchyTheme::spec_default(),
    {
        OmarchyTheme {
            accent: Rgb::new(0x7a, 0xa2, 0xf7),
            selection: Rgb::new(0x33, 0x3b, 0x55),
            muted: Rgb::new(0x56, 0x5f, 0x89),
            background: Rgb::new(0x1a, 0x1b, 0x26),
            foreground: Rgb::new(0xc0, 0xca, 0xf5),
            error: Rgb::new(0xf7, 0x76, 0x8e),
            success: Rgb::new(0x9e, 0xce, 0x6a),
            warning: Rgb::new(0xe0, 0xaf, 0x68),
        }
    }
}

#[derive(Debug, PartialEq, Eq)]
pub enum ThemeError {
    /// The color of that name is not a color.
    InvalidColor(&'static str),
    /// The file is no table that gives a text for every color; the parser's words say why.
    Toml(String),
}

pub enum ThemeErrorView {
    InvalidColor(Seq<char>),
    Toml(Seq<char>),
}

impl View for ThemeError {
    type V = ThemeErrorView;

    open spec fn view(&self) -> ThemeErrorView {
        match self {
            ThemeError::InvalidColor(name) => ThemeErrorView::InvalidColor(name@),
            ThemeError::Toml(detail) => ThemeErrorView::Toml(detail@),
        }
    }
}

impl ThemeError {
    pub fn message(&self) -> (r: String)
        ensures
            r@ == (match self@ {
                ThemeErrorView::InvalidColor(name) => "invalid Omarchy theme color: "@ + name,
                ThemeErrorView::Toml(detail) => "invalid Omarchy theme file: "@ + detail,
            }),
    {
        match self {
            ThemeError::InvalidColor(name) => "invalid Omarchy theme color: ".to_owned().concat(name),
            ThemeError::Toml(detail) => "invalid Omarchy theme file: ".to_owned().concat(
                detail.as_str(),
            ),
        }
    }
}

/// The keys of the top level of a TOML document, in the order in which the `toml` crate hands them
/// out; the text of its error where the document is not valid.
pub uninterp spec fn toml_keys(content: Seq<char>) -> Result<Seq<Seq<char>>, Seq<char>>;

/// What the `toml` crate makes of the value of a key of the top level for one who wants a string:
/// the string, or the text of its error; `None` where the document is not valid or has no such key.
pub uninterp spec fn toml_string(content: Seq<char>, key: Seq<char>) -> Option<
    Result<Seq<char>, Seq<char>>,
>;

/// The text of the error of the `toml` crate on the value of a key of the top level for one who
/// ignores it; `None` where there is no error, or no such key, or the document is not valid.
pub uninterp spec fn toml_ignored(content: Seq<char>, key: Seq<char>) -> Option<Seq<char>>;

/// The text of the error of the `toml` crate for one who takes the whole document for a string.
pub uninterp spec fn toml_refusal(content: Seq<char>) -> Option<Seq<char>>;

pub open spec fn keys_view(r: Result<Vec<String>, String>) -> Result<Seq<Seq<char>>, Seq<char>> {
    match r {
        Ok(keys) => Ok(texts(keys@)),
        Err(detail) => Err(detail@),
    }
}

pub open spec fn string_view(r: Option<Result<String, String>>) -> Option<Result<Seq<char>, Seq<char>>> {
    match r {
        Some(Ok(text)) => Some(Ok(text@)),
        Some(Err(detail)) => Some(Err(detail@)),
        None => None,
    }
}

/// `DeTable::parse`, then `Map::keys`. The outcome is named by the document: reading the same
/// document twice gives the same.
#[verifier::external_body]
fn read_toml_keys(content: &str) -> (r: Result<Vec<String>, String>)
    ensures
        keys_view(r) == toml_keys(content@),
{
    let table = toml::de::DeTable::parse(content).map_err(|error| error.to_string())?;
    Ok(table.get_ref().keys().map(|key| key.get_ref().to_string()).collect())
}

/// `DeTable::parse` and `Map::remove` find the value; a `String` is deserialized from it by a
/// `ValueDeserializer`, and an error is told of the document with `Error::set_input`. The outcome is
/// named by the document and the key.
#[verifier::external_body]
fn read_toml_string(content: &str, key: &str) -> (r: Option<Result<String, String>>)
    ensures
        string_view(r) == toml_string(content@, key@),
{
    let value = toml::de::DeTable::parse(content).ok()?.into_inner().remove(key)?;
    let source = toml::de::ValueDeserializer::from(value);
    let read = <String as serde::de::Deserialize>::deserialize(source);
    Some(read.map_err(|mut error| {
        error.set_input(Some(content));
        error.to_string()
    }))
}

/// The same with an `IgnoredAny` in place of the `String`: only an error comes back.
#[verifier::external_body]
fn ignore_toml_value(content: &str, key: &str) -> (r: Option<String>)
    ensures
        opt_text(r) == toml_ignored(content@, key@),
{
    let value = toml::de::DeTable::parse(content).ok()?.into_inner().remove(key)?;
    let source = toml::de::ValueDeserializer::from(value);
    let mut error = <serde::de::IgnoredAny as serde::de::Deserialize>::deserialize(source).err()?;
    error.set_input(Some(content));
    Some(error.to_string())
}

/// `toml::from_str` into a `String`. The text of the error is named by the document.
#[verifier::external_body]
fn read_toml_refusal(content: &str) -> (r: Option<String>)
    ensures
        opt_text(r) == toml_refusal(content@),
{
    toml::from_str::<String>(content).err().map(|error| error.to_string())
}

/// The value of a hexadecimal digit.
pub open spec fn hex_value(c: char) -> int {
    if '0' <= c <= '9' {
        c as u32 - 48
    } else if 'a' <= c <= 'f' {
        c as u32 - 87
    } else {
        c as u32 - 55
    }
}

/// The number that a sequence of hexadecimal digits denotes.
pub open spec fn hex_number(s: Seq<char>) -> int
    decreases s.len(),
{
    if s.len() == 0 {
        0
    } else {
        hex_number(s.drop_last()) * 16 + hex_value(s.last())
    }
}

pub open spec fn all_hex(s: Seq<char>) -> bool {
    forall|i: int| 0 <= i < s.len() ==> hex_digit(#[trigger] s[i])
}

/// The digits of a number that may be written with a plus sign.
pub open spec fn unsigned_digits(s: Seq<char>) -> Seq<char> {
    if s.len() > 1 && s[0] == '+' {
        s.drop_first()
    } else {
        s
    }
}

/// The number that a color is written as: a hash sign and six bytes of hexadecimal digits, the
/// first of which may be a plus sign.
pub open spec fn color_number(value: Seq<char>) -> Option<int> {
    let hex = value.drop_first();
    let digits = unsigned_digits(hex);
    if value.len() > 0 && value[0] == '#' && byte_len(hex) == 6 && all_hex(digits) {
        Some(hex_number(digits))
    } else {
        None
    }
}

/// A number of three bytes as a color.
pub open spec fn color_of(n: int) -> Rgb {
    Rgb { red: (n / 65536) as u8, green: (n / 256 % 256) as u8, blue: (n % 256) as u8 }
}

proof fn lemma_hex_bound(s: Seq<char>)
    requires
        all_hex(s),
    ensures
        0 <= hex_number(s),
        s.len() <= 6 ==> hex_number(s) < 0x100_0000,
        s.len() <= 5 ==> hex_number(s) < 0x10_0000,
        s.len() <= 4 ==> hex_number(s) < 0x1_0000,
        s.len() <= 3 ==> hex_number(s) < 0x1000,
        s.len() <= 2 ==> hex_number(s) < 0x100,
        s.len() <= 1 ==> hex_number(s) < 0x10,
    decreases s.len(),
{
    if s.len() > 0 {
        assert(hex_digit(s.last()));
        lemma_hex_bound(s.drop_last());
    }
}

/// Text has at most as many characters as bytes.
proof fn lemma_chars_at_most_bytes(s: Seq<char>)
    ensures
        s.len() <= byte_len(s),
    decreases s.len(),
{
    reveal_with_fuel(vstd::utf8::encode_utf8, 2);
    if s.len() > 0 {
        lemma_chars_at_most_bytes(s.drop_first());
    }
}

fn hex_digit_value(c: char) -> (r: u32)
    requires
        hex_digit(c),
    ensures
        r == hex_value(c),
        r < 16,
{
    let u: u32 = c as u32;
    if '0' <= c && c <= '9' {
        u - 48
    } else if 'a' <= c && c <= 'f' {
        u - 87
    } else {
        u - 55
    }
}

pub open spec fn color_result(name: Seq<char>, value: Seq<char>) -> Result<Rgb, ThemeErrorView> {
    match color_number(value) {
        Some(n) => Ok(color_of(n)),
        None => Err(ThemeErrorView::InvalidColor(name)),
    }
}

pub open spec fn theme_view<T>(r: Result<T, ThemeError>) -> Result<T, ThemeErrorView> {
    match r {
        Ok(v) => Ok(v),
        Err(e) => Err(e@),
    }
}

pub fn parse_color(name: &'static str, value: &str) -> (r: Result<Rgb, ThemeError>)
    ensures
        theme_view(r) == color_result(name@, value@),
{
    let v = chars_of(value);
    if v.len() == 0 || v[0] != '#' {
        return Err(ThemeError::InvalidColor(name));
    }
    let hex = text_between(&v, 1, v.len());
    assert(hex@ =~= value@.drop_first());
    if byte_count(hex.as_str()) != 6 {
        return Err(ThemeError::InvalidColor(name));
    }
    proof {
        lemma_chars_at_most_bytes(hex@);
    }
    let start: usize = if v.len() > 2 && v[1] == '+' {
        2
    } else {
        1
    };
    let ghost digits = unsigned_digits(hex@);
    assert(digits =~= value@.skip(start as int));
    let mut n: u32 = 0;
    let mut i: usize = start;
    assert(digits.take(0) =~= Seq::<char>::empty());
    while i < v.len()
        invariant
            v@ == value@,
            1 <= start <= i <= v@.len(),
            hex@ == value@.drop_first(),
            value@.len() > 0,
            value@[0] == '#',
            digits == unsigned_digits(hex@),
            digits == value@.skip(start as int),
            digits.len() <= 6,
            all_hex(digits.take(i - start)),
            n == hex_number(digits.take(i - start)),
        decreases v@.len() - i,
    {
        let c = v[i];
        assert(digits[i - start] == c);
        if !is_hex_digit(c) {
            return Err(ThemeError::InvalidColor(name));
        }
        let ghost next = digits.take(i + 1 - start);
        assert(next.drop_last() =~= digits.take(i - start));
        assert(all_hex(next));
        proof {
            lemma_hex_bound(next);
            lemma_hex_bound(digits.take(i - start));
        }
        let d: u32 = hex_digit_value(c);
        assert(hex_number(next) == n * 16 + d);
        n = n * 16 + d;
        i += 1;
    }
    assert(digits.take(v@.len() - start) =~= digits);
    proof {
        lemma_hex_bound(digits);
    }
    Ok(Rgb::new((n / 65536) as u8, ((n / 256) % 256) as u8, (n % 256) as u8))
}

/// The names of the colors of a theme file, in the order in which they are read.
pub open spec fn color_names() -> Seq<Seq<char>> {
    seq![
        "accent"@,
        "selection"@,
        "muted"@,
        "background"@,
        "foreground"@,
        "red"@,
        "green"@,
        "yellow"@,
    ]
}

/// The theme that the texts of its eight colors make: the first that is no color is the error.
pub open spec fn theme_of(values: Seq<Seq<char>>) -> Result<OmarchyTheme, ThemeErrorView> {
    let bad = first_bad(values, 0);
    if bad < 8 {
        Err(ThemeErrorView::InvalidColor(color_names()[bad]))
    } else {
        let c = |i: int| color_of(color_number(values[i])->0);
        Ok(
            OmarchyTheme {
                accent: c(0),
                selection: c(1),
                muted: c(2),
                background: c(3),
                foreground: c(4),
                error: c(5),
                success: c(6),
                warning: c(7),
            },
        )
    }
}

/// The place of the first text, from `i` on, that is no color.
pub open spec fn first_bad(values: Seq<Seq<char>>, i: int) -> int
    decreases 8 - i,
{
    if i >= 8 || color_number(values[i]) is None {
        i
    } else {
        first_bad(values, i + 1)
    }
}

/// The texts of the colors of a theme file as they were read.
#[derive(Debug, PartialEq, Eq)]
pub struct RawTheme {
    pub accent: String,
    pub selection: String,
    pub muted: String,
    pub background: String,
    pub foreground: String,
    pub red: String,
    pub green: String,
    pub yellow: String,
}

impl View for RawTheme {
    type V = Seq<Seq<char>>;

    open spec fn view(&self) -> Seq<Seq<char>> {
        seq![
            self.accent@,
            self.selection@,
            self.muted@,
            self.background@,
            self.foreground@,
            self.red@,
            self.green@,
            self.yellow@,
        ]
    }
}

impl RawTheme {
    pub fn colors(&self) -> (r: Result<OmarchyTheme, ThemeError>)
        ensures
            theme_view(r) == theme_of(self@),
    {
        proof {
            reveal_with_fuel(first_bad, 9);
        }
        let accent = match parse_color("accent", self.accent.as_str()) {
            Ok(c) => c,
            Err(e) => return Err(e),
        };
        let selection = match parse_color("selection", self.selection.as_str()) {
            Ok(c) => c,
            Err(e) => return Err(e),
        };
        let muted = match parse_color("muted", self.muted.as_str()) {
            Ok(c) => c,
            Err(e) => return Err(e),
        };
        let background = match parse_color("background", self.background.as_str()) {
            Ok(c) => c,
            Err(e) => return Err(e),
        };
        let foreground = match parse_color("foreground", self.foreground.as_str()) {
            Ok(c) => c,
            Err(e) => return Err(e),
        };
        let error = match parse_color("red", self.red.as_str()) {
            Ok(c) => c,
            Err(e) => return Err(e),
        };
        let success = match parse_color("green", self.green.as_str()) {
            Ok(c) => c,
            Err(e) => return Err(e),
        };
        let warning = match parse_color("yellow", self.yellow.as_str()) {
            Ok(c) => c,
            Err(e) => return Err(e),
        };
        Ok(
            OmarchyTheme {
                accent,
                selection,
                muted,
                background,
                foreground,
                error,
                success,
                warning,
            },
        )
    }
}

/// A value of a theme file: the text of a color, or nothing where the value is no color's, or why it
/// could not be read.
#[derive(Debug, PartialEq, Eq)]
pub struct ThemeEntry {
    pub key: String,
    pub value: Result<Option<String>, String>,
}

pub struct ThemeEntryView {
    pub key: Seq<char>,
    pub value: Result<Option<Seq<char>>, Seq<char>>,
}

impl View for ThemeEntry {
    type V = ThemeEntryView;

    open spec fn view(&self) -> ThemeEntryView {
        ThemeEntryView {
            key: self.key@,
            value: match self.value {
                Ok(text) => Ok(opt_text(text)),
                Err(detail) => Err(detail@),
            },
        }
    }
}

/// What was read of a theme file: its values, and the lines in which the parser shows the place of
/// the document before it says what is wrong with it.
#[derive(Debug, PartialEq, Eq)]
pub struct ThemeDocument {
    pub entries: Vec<ThemeEntry>,
    pub place: String,
}

pub struct ThemeDocumentView {
    pub entries: Seq<ThemeEntryView>,
    pub place: Seq<char>,
}

impl View for ThemeDocument {
    type V = ThemeDocumentView;

    open spec fn view(&self) -> ThemeDocumentView {
        ThemeDocumentView { entries: entry_views(self.entries@), place: self.place@ }
    }
}

pub open spec fn entry_views(entries: Seq<ThemeEntry>) -> Seq<ThemeEntryView> {
    entries.map_values(|entry: ThemeEntry| entry@)
}

/// Why the first value that could not be read could not.
pub open spec fn entry_failure(entries: Seq<ThemeEntryView>) -> Option<Seq<char>>
    decreases entries.len(),
{
    if entries.len() == 0 {
        None
    } else {
        match entries[0].value {
            Err(detail) => Some(detail),
            Ok(_) => entry_failure(entries.drop_first()),
        }
    }
}

/// The text that the first value of that key has.
pub open spec fn entry_text(entries: Seq<ThemeEntryView>, key: Seq<char>) -> Option<Seq<char>>
    decreases entries.len(),
{
    if entries.len() == 0 {
        None
    } else if entries[0].key == key {
        match entries[0].value {
            Ok(text) => text,
            Err(_) => None,
        }
    } else {
        entry_text(entries.drop_first(), key)
    }
}

/// The place of the first color, from `i` on, that there is no text for.
pub open spec fn first_missing(entries: Seq<ThemeEntryView>, i: int) -> int
    decreases 8 - i,
{
    if i >= 8 || entry_text(entries, color_names()[i]) is None {
        i
    } else {
        first_missing(entries, i + 1)
    }
}

/// The parser's words where a field is missing.
pub open spec fn missing_field(place: Seq<char>, name: Seq<char>) -> Seq<char> {
    place + "missing field `"@ + name + "`\n"@
}

/// The theme that was read: the first value that could not be read is the error, then the first
/// color that is missing, then the first that is no color.
pub open spec fn theme_read(read: Result<ThemeDocumentView, Seq<char>>) -> Result<
    OmarchyTheme,
    ThemeErrorView,
> {
    match read {
        Err(detail) => Err(ThemeErrorView::Toml(detail)),
        Ok(document) => match entry_failure(document.entries) {
            Some(detail) => Err(ThemeErrorView::Toml(detail)),
            None => {
                let missing = first_missing(document.entries, 0);
                if missing < 8 {
                    Err(ThemeErrorView::Toml(missing_field(document.place, color_names()[missing])))
                } else {
                    theme_of(
                        color_names().map_values(
                            |name: Seq<char>| entry_text(document.entries, name)->0,
                        ),
                    )
                }
            },
        },
    }
}

pub open spec fn document_read(r: Result<ThemeDocument, String>) -> Result<
    ThemeDocumentView,
    Seq<char>,
> {
    match r {
        Ok(document) => Ok(document@),
        Err(detail) => Err(detail@),
    }
}

fn find_failure(entries: &Vec<ThemeEntry>) -> (r: Option<String>)
    ensures
        opt_text(r) == entry_failure(entry_views(entries@)),
{
    let ghost views = entry_views(entries@);
    let mut i: usize = 0;
    assert(views.skip(0) =~= views);
    while i < entries.len()
        invariant
            i <= entries@.len(),
            views == entry_views(entries@),
            entry_failure(views) == entry_failure(views.skip(i as int)),
        decreases entries@.len() - i,
    {
        assert(views.skip(i as int)[0] == entries@[i as int]@);
        assert(views.skip(i as int).drop_first() =~= views.skip(i + 1));
        if let Err(detail) = &entries[i].value {
            return Some(detail.clone());
        }
        i += 1;
    }
    None
}

fn find_text(entries: &Vec<ThemeEntry>, key: &str) -> (r: Option<String>)
    ensures
        opt_text(r) == entry_text(entry_views(entries@), key@),
{
    let ghost views = entry_views(entries@);
    let mut i: usize = 0;
    assert(views.skip(0) =~= views);
    while i < entries.len()
        invariant
            i <= entries@.len(),
            views == entry_views(entries@),
            entry_text(views, key@) == entry_text(views.skip(i as int), key@),
        decreases entries@.len() - i,
    {
        assert(views.skip(i as int)[0] == entries@[i as int]@);
        assert(views.skip(i as int).drop_first() =~= views.skip(i + 1));
        if same_text(entries[i].key.as_str(), key) {
            return match &entries[i].value {
                Ok(Some(text)) => Some(text.clone()),
                Ok(None) => None,
                Err(_) => None,
            };
        }
        i += 1;
    }
    None
}

fn required_text(document: &ThemeDocument, name: &'static str) -> (r: Result<String, ThemeError>)
    ensures
        match entry_text(document@.entries, name@) {
            Some(text) => r is Ok && r->Ok_0@ == text,
            None => r is Err && r->Err_0@ == ThemeErrorView::Toml(
                missing_field(document@.place, name@),
            ),
        },
{
    match find_text(&document.entries, name) {
        Some(text) => Ok(text),
        None => Err(
            ThemeError::Toml(
                document.place.clone().concat("missing field `").concat(name).concat("`\n"),
            ),
        ),
    }
}

/// The theme of a file, by what was read of it.
pub fn theme_of_document(read: Result<ThemeDocument, String>) -> (r: Result<OmarchyTheme, ThemeError>)
    ensures
        theme_view(r) == theme_read(document_read(read)),
{
    let document = match read {
        Ok(document) => document,
        Err(detail) => return Err(ThemeError::Toml(detail)),
    };
    if let Some(detail) = find_failure(&document.entries) {
        return Err(ThemeError::Toml(detail));
    }
    proof {
        reveal_with_fuel(first_missing, 9);
    }
    let ghost names = color_names();
    assert(names[0] == "accent"@ && names[1] == "selection"@ && names[2] == "muted"@ && names[3]
        == "background"@ && names[4] == "foreground"@ && names[5] == "red"@ && names[6] == "green"@
        && names[7] == "yellow"@);
    let accent = match required_text(&document, "accent") {
        Ok(text) => text,
        Err(e) => return Err(e),
    };
    let selection = match required_text(&document, "selection") {
        Ok(text) => text,
        Err(e) => return Err(e),
    };
    let muted = match required_text(&document, "muted") {
        Ok(text) => text,
        Err(e) => return Err(e),
    };
    let background = match required_text(&document, "background") {
        Ok(text) => text,
        Err(e) => return Err(e),
    };
    let foreground = match required_text(&document, "foreground") {
        Ok(text) => text,
        Err(e) => return Err(e),
    };
    let red = match required_text(&document, "red") {
        Ok(text) => text,
        Err(e) => return Err(e),
    };
    let green = match required_text(&document, "green") {
        Ok(text) => text,
        Err(e) => return Err(e),
    };
    let yellow = match required_text(&document, "yellow") {
        Ok(text) => text,
        Err(e) => return Err(e),
    };
    let raw = RawTheme { accent, selection, muted, background, foreground, red, green, yellow };
    assert(raw@ =~= names.map_values(
        |name: Seq<char>| entry_text(document@.entries, name)->0,
    ));
    raw.colors()
}

/// What is read of a key of a document: a color as a string, anything else only so far as it can be
/// ignored.
pub open spec fn document_entry(content: Seq<char>, key: Seq<char>) -> ThemeEntryView {
    ThemeEntryView {
        key,
        value: if color_names().contains(key) {
            match toml_string(content, key) {
                Some(Ok(text)) => Ok(Some(text)),
                Some(Err(detail)) => Err(detail),
                None => Ok(None),
            }
        } else {
            match toml_ignored(content, key) {
                Some(detail) => Err(detail),
                None => Ok(None),
            }
        },
    }
}

/// The words of the parser for one who takes a table for a string.
pub open spec fn wrong_type() -> Seq<char> {
    "invalid type: map, expected a string\n"@
}

/// The lines that stand before those words, where they end a text.
pub open spec fn before_wrong_type(text: Seq<char>) -> Seq<char> {
    if ends_in(text, wrong_type()) {
        text.take(text.len() - wrong_type().len())
    } else {
        Seq::empty()
    }
}

/// The lines in which the parser shows the place of a document.
pub open spec fn document_place(content: Seq<char>) -> Seq<char> {
    match toml_refusal(content) {
        Some(text) => before_wrong_type(text),
        None => Seq::empty(),
    }
}

/// What is read of a document, in the order of its keys.
pub open spec fn document_of(content: Seq<char>) -> Result<ThemeDocumentView, Seq<char>> {
    match toml_keys(content) {
        Ok(keys) => Ok(
            ThemeDocumentView {
                entries: keys.map_values(|key: Seq<char>| document_entry(content, key)),
                place: document_place(content),
            },
        ),
        Err(detail) => Err(detail),
    }
}

pub open spec fn parsed_theme(content: Seq<char>) -> Result<OmarchyTheme, ThemeErrorView> {
    theme_read(document_of(content))
}

fn is_color_name(key: &str) -> (r: bool)
    ensures
        r == color_names().contains(key@),
{
    let ghost names = color_names();
    assert(names[0] == "accent"@ && names[1] == "selection"@ && names[2] == "muted"@ && names[3]
        == "background"@ && names[4] == "foreground"@ && names[5] == "red"@ && names[6] == "green"@
        && names[7] == "yellow"@);
    same_text(key, "accent") || same_text(key, "selection") || same_text(key, "muted") || same_text(
        key,
        "background",
    ) || same_text(key, "foreground") || same_text(key, "red") || same_text(key, "green")
        || same_text(key, "yellow")
}

fn read_entry(content: &str, key: String) -> (r: ThemeEntry)
    ensures
        r@ == document_entry(content@, key@),
{
    let value = if is_color_name(key.as_str()) {
        match read_toml_string(content, key.as_str()) {
            Some(Ok(text)) => Ok(Some(text)),
            Some(Err(detail)) => Err(detail),
            None => Ok(None),
        }
    } else {
        match ignore_toml_value(content, key.as_str()) {
            Some(detail) => Err(detail),
            None => Ok(None),
        }
    };
    ThemeEntry { key, value }
}

pub fn strip_wrong_type(text: &str) -> (r: String)
    ensures
        r@ == before_wrong_type(text@),
{
    if !ends_with(text, "invalid type: map, expected a string\n") {
        let empty = String::new();
        assert(empty@ =~= Seq::<char>::empty());
        return empty;
    }
    let v = chars_of(text);
    let suffix = chars_of("invalid type: map, expected a string\n");
    let place = text_between(&v, 0, v.len() - suffix.len());
    assert(place@ =~= before_wrong_type(text@));
    place
}

fn read_place(content: &str) -> (r: String)
    ensures
        r@ == document_place(content@),
{
    match read_toml_refusal(content) {
        Some(text) => strip_wrong_type(text.as_str()),
        None => {
            let empty = String::new();
            assert(empty@ =~= Seq::<char>::empty());
            empty
        },
    }
}

fn read_document(content: &str) -> (r: Result<ThemeDocument, String>)
    ensures
        document_read(r) == document_of(content@),
{
    let keys = match read_toml_keys(content) {
        Ok(keys) => keys,
        Err(detail) => return Err(detail),
    };
    let ghost goal = texts(keys@).map_values(|key: Seq<char>| document_entry(content@, key));
    let mut entries: Vec<ThemeEntry> = Vec::new();
    let mut i: usize = 0;
    assert(entry_views(entries@) =~= goal.take(0));
    while i < keys.len()
        invariant
            i <= keys@.len(),
            goal == texts(keys@).map_values(|key: Seq<char>| document_entry(content@, key)),
            entry_views(entries@) == goal.take(i as int),
        decreases keys@.len() - i,
    {
        let ghost before = entries@;
        entries.push(read_entry(content, keys[i].clone()));
        assert(texts(keys@)[i as int] == keys@[i as int]@);
        assert(entry_views(entries@) =~= entry_views(before).push(entries@.last()@));
        assert(goal.take(i + 1) =~= goal.take(i as int).push(goal[i as int]));
        i += 1;
    }
    assert(goal.take(goal.len() as int) =~= goal);
    Ok(ThemeDocument { entries, place: read_place(content) })
}

pub fn parse_theme(content: &str) -> (r: Result<OmarchyTheme, ThemeError>)
    ensures
        theme_view(r) == parsed_theme(content@),
{
    theme_of_document(read_document(content))
}

/// The theme of a file: the default where there is none or it is no theme.
pub open spec fn theme_or_default(source: Option<Seq<char>>) -> OmarchyTheme {
    match source {
        Some(content) => match parsed_theme(content) {
            Ok(theme) => theme,
            Err(_) => OmarchyTheme::spec_default(),
        },
        None => OmarchyTheme::spec_default(),
    }
}

pub fn load_theme(source: Option<&str>) -> (r: OmarchyTheme)
    ensures
        r == theme_or_default(
            match source {
                Some(s) => Some(s@),
                None => None,
            },
        ),
{
    match source {
        Some(content) => match parse_theme(content) {
            Ok(theme) => theme,
            Err(_) => OmarchyTheme::default(),
        },
        None => OmarchyTheme::default(),
    }
}

/// The theme of a file that may change: what was last read of it, and the theme that it makes.
pub struct ThemeWatcher {
    source: Option<String>,
    theme: OmarchyTheme,
}

impl ThemeWatcher {
    pub closed spec fn source(&self) -> Option<Seq<char>> {
        opt_text(self.source)
    }

    pub closed spec fn theme(&self) -> OmarchyTheme {
        self.theme
    }

    /// The theme is that of the source.
    pub open spec fn wf(&self) -> bool {
        self.theme() == theme_or_default(self.source())
    }

    pub fn new(source: Option<String>) -> (r: Self)
        ensures
            r.wf(),
            r.source() == opt_text(source),
    {
        let mut watcher = ThemeWatcher { source: None, theme: OmarchyTheme::default() };
        watcher.refresh(source);
        watcher
    }

    pub fn current(&self) -> (r: &OmarchyTheme)
        ensures
            *r == self.theme(),
    {
        &self.theme
    }

    /// Takes what the file holds now; says whether it changed.
    pub fn refresh(&mut self, source: Option<String>) -> (r: bool)
        requires
            old(self).wf(),
        ensures
            final(self).wf(),
            final(self).source() == opt_text(source),
            r == (opt_text(source) != old(self).source()),
    {
        let same = match (&source, &self.source) {
            (Some(a), Some(b)) => same_text(a.as_str(), b.as_str()),
            (None, None) => true,
            _ => false,
        };
        if same {
            return false;
        }
        self.theme = match &source {
            Some(content) => load_theme(Some(content.as_str())),
            None => load_theme(None),
        };
        self.source = source;
        true
    }
}

/// Whatever was read before, the theme is a function of the last text alone.
pub proof fn law_theme_follows_the_last_source(a: ThemeWatcher, b: ThemeWatcher)
    requires
        a.wf(),
        b.wf(),
        a.source() == b.source(),
    ensures
        a.theme() == b.theme(),
{
}

/// Whether a character is the hexadecimal digit of that value, small or capital.
pub open spec fn is_digit_of(c: char, value: int) -> bool {
    0 <= value < 16 && (c == "0123456789abcdef"@[value] || c == "0123456789ABCDEF"@[value])
}

proof fn lemma_digit_of(c: char, value: int)
    requires
        is_digit_of(c, value),
    ensures
        hex_digit(c),
        hex_value(c) == value,
        c != '+',
        is_ascii_char(c),
{
    reveal_strlit("0123456789abcdef");
    reveal_strlit("0123456789ABCDEF");
}

pub open spec fn is_ascii_char(c: char) -> bool {
    c as u32 <= 127
}

/// A hash sign and six digits are a color: two digits each for red, green and blue, the higher
/// first.
pub proof fn law_a_color_is_its_three_bytes(
    name: &'static str,
    value: &str,
    d: Seq<int>,
    r: Result<Rgb, ThemeError>,
)
    requires
        call_ensures(parse_color, (name, value), r),
        value@.len() == 7,
        d.len() == 6,
        value@[0] == '#',
        is_digit_of(value@[1], d[0]),
        is_digit_of(value@[2], d[1]),
        is_digit_of(value@[3], d[2]),
        is_digit_of(value@[4], d[3]),
        is_digit_of(value@[5], d[4]),
        is_digit_of(value@[6], d[5]),
    ensures
        r matches Ok(color) && color.red == d[0] * 16 + d[1] && color.green == d[2] * 16 + d[3]
            && color.blue == d[4] * 16 + d[5],
{
    let hex = value@.drop_first();
    lemma_digit_of(hex[0], d[0]);
    lemma_digit_of(hex[1], d[1]);
    lemma_digit_of(hex[2], d[2]);
    lemma_digit_of(hex[3], d[3]);
    lemma_digit_of(hex[4], d[4]);
    lemma_digit_of(hex[5], d[5]);
    assert(hex.len() == 6);
    assert(byte_len(hex) == 6) by {
        lemma_plain_bytes(hex);
    }
    assert(unsigned_digits(hex) == hex);
    assert(all_hex(hex)) by {
        assert forall|i: int| 0 <= i < hex.len() implies hex_digit(#[trigger] hex[i]) by {
            assert(i == 0 || i == 1 || i == 2 || i == 3 || i == 4 || i == 5);
        }
    }
    let p1 = seq![hex[0]];
    let p2 = p1.push(hex[1]);
    let p3 = p2.push(hex[2]);
    let p4 = p3.push(hex[3]);
    let p5 = p4.push(hex[4]);
    let p6 = p5.push(hex[5]);
    assert(p6 =~= hex);
    assert(p6.drop_last() =~= p5 && p5.drop_last() =~= p4 && p4.drop_last() =~= p3 && p3.drop_last() =~= p2
        && p2.drop_last() =~= p1 && p1.drop_last() =~= Seq::<char>::empty());
    assert(hex_number(p1) == d[0]) by {
        reveal_with_fuel(hex_number, 2);
    }
    assert(hex_number(p2) == d[0] * 16 + d[1]);
    assert(hex_number(p3) == (d[0] * 16 + d[1]) * 16 + d[2]);
    assert(hex_number(p4) == ((d[0] * 16 + d[1]) * 16 + d[2]) * 16 + d[3]);
    assert(hex_number(p5) == (((d[0] * 16 + d[1]) * 16 + d[2]) * 16 + d[3]) * 16 + d[4]);
    let n = hex_number(hex);
    assert(n == (d[0] * 16 + d[1]) * 65536 + (d[2] * 16 + d[3]) * 256 + d[4] * 16 + d[5]);
    let red = d[0] * 16 + d[1];
    let green = d[2] * 16 + d[3];
    let blue = d[4] * 16 + d[5];
    assert(0 <= red < 256 && 0 <= green < 256 && 0 <= blue < 256);
    assert(n == red * 65536 + green * 256 + blue);
    assert(n / 65536 == red);
    assert(n / 256 == red * 256 + green);
    assert(n / 256 % 256 == green);
    assert(n % 256 == blue);
    assert(color_number(value@) == Some(n));
    assert(theme_view(r) == Ok::<Rgb, ThemeErrorView>(color_of(n)));
}

proof fn lemma_plain_bytes(s: Seq<char>)
    requires
        forall|i: int| 0 <= i < s.len() ==> is_ascii_char(#[trigger] s[i]),
    ensures
        byte_len(s) == s.len(),
    decreases s.len(),
{
    reveal_with_fuel(vstd::utf8::encode_utf8, 2);
    if s.len() > 0 {
        let rest = s.drop_first();
        assert forall|i: int| 0 <= i < rest.len() implies is_ascii_char(#[trigger] rest[i]) by {
            assert(rest[i] == s[i + 1]);
        }
        lemma_plain_bytes(rest);
        assert(is_ascii_char(s[0]));
    }
}

/// Whatever does not begin with a hash sign, or has not seven bytes, or a character after the
/// second that is no hexadecimal digit, is no color; and the error names the color that was asked for.
pub proof fn law_other_texts_are_no_colors(name: &'static str, value: &str, i: int, r: Result<Rgb, ThemeError>)
    requires
        call_ensures(parse_color, (name, value), r),
        value@.len() == 0 || value@[0] != '#' || byte_len(value@.drop_first()) != 6 || (2 <= i < value@.len()
            && forall|d: int| !is_digit_of(value@[i], d)),
    ensures
        r matches Err(error) && error matches ThemeError::InvalidColor(asked) && asked@ == name@,
{
    if value@.len() > 0 && value@[0] == '#' && byte_len(value@.drop_first()) == 6 {
        let c = value@[i];
        let hex = value@.drop_first();
        let digits = unsigned_digits(hex);
        if hex_digit(c) {
            lemma_has_digit(c);
        }
        assert(digits == hex || digits == hex.drop_first());
        if digits == hex {
            assert(digits[i - 1] == c);
        } else {
            assert(digits[i - 2] == c);
        }
        assert(!all_hex(digits));
    }
    assert(theme_view(r) == Err::<Rgb, ThemeErrorView>(ThemeErrorView::InvalidColor(name@)));
}

proof fn lemma_has_digit(c: char)
    requires
        hex_digit(c),
    ensures
        exists|d: int| is_digit_of(c, d),
{
    reveal_strlit("0123456789abcdef");
    reveal_strlit("0123456789ABCDEF");
    let d = hex_value(c);
    assert(0 <= d < 16);
    assert(is_digit_of(c, d));
}

/// The colors of a theme are read each from its own field: the error color from red, that of
/// success from green and that of a warning from yellow. One that is no color makes no theme.
pub proof fn law_each_color_is_read_from_its_field(
    raw: &RawTheme,
    name: &'static str,
    value: &str,
    color: Result<Rgb, ThemeError>,
    r: Result<OmarchyTheme, ThemeError>,
)
    requires
        call_ensures(RawTheme::colors, (raw,), r),
        call_ensures(parse_color, (name, value), color),
    ensures
        r is Ok && value@ == raw.accent@ ==> color is Ok && r->Ok_0.accent == color->Ok_0,
        r is Ok && value@ == raw.selection@ ==> color is Ok && r->Ok_0.selection == color->Ok_0,
        r is Ok && value@ == raw.muted@ ==> color is Ok && r->Ok_0.muted == color->Ok_0,
        r is Ok && value@ == raw.background@ ==> color is Ok && r->Ok_0.background == color->Ok_0,
        r is Ok && value@ == raw.foreground@ ==> color is Ok && r->Ok_0.foreground == color->Ok_0,
        r is Ok && value@ == raw.red@ ==> color is Ok && r->Ok_0.error == color->Ok_0,
        r is Ok && value@ == raw.green@ ==> color is Ok && r->Ok_0.success == color->Ok_0,
        r is Ok && value@ == raw.yellow@ ==> color is Ok && r->Ok_0.warning == color->Ok_0,
        r is Err ==> r->Err_0 is InvalidColor,
{
    reveal_with_fuel(first_bad, 9);
    assert(theme_view(r) == theme_of(raw@));
    assert(theme_view(color) == color_result(name@, value@));
    let v = raw@;
    assert(v[0] == raw.accent@ && v[1] == raw.selection@ && v[2] == raw.muted@ && v[3] == raw.background@
        && v[4] == raw.foreground@ && v[5] == raw.red@ && v[6] == raw.green@ && v[7] == raw.yellow@);
}

/// The first field that is no color is the one that the error names.
pub proof fn law_the_first_bad_color_is_named(
    raw: &RawTheme,
    accent: Result<Rgb, ThemeError>,
    selection: Result<Rgb, ThemeError>,
    value: &str,
    other: &str,
    r: Result<OmarchyTheme, ThemeError>,
)
    requires
        call_ensures(RawTheme::colors, (raw,), r),
        value@ == raw.accent@,
        other@ == raw.selection@,
        call_ensures(parse_color, ("accent", value), accent),
        call_ensures(parse_color, ("selection", other), selection),
    ensures
        accent is Err ==> (r matches Err(ThemeError::InvalidColor(name)) && name@ == "accent"@),
        accent is Ok && selection is Err ==> (r matches Err(ThemeError::InvalidColor(name)) && name@
            == "selection"@),
{
    reveal_with_fuel(first_bad, 9);
    assert(theme_view(r) == theme_of(raw@));
    assert(theme_view(accent) == color_result("accent"@, value@));
    assert(theme_view(selection) == color_result("selection"@, other@));
    let v = raw@;
    assert(v[0] == raw.accent@ && v[1] == raw.selection@);
    let names = color_names();
    assert(names[0] == "accent"@ && names[1] == "selection"@);
}

/// A document that cannot be read is no theme, nor is one with a value that cannot be read; the
/// words of the parser stay.
pub proof fn law_what_the_parser_refuses_is_no_theme(
    detail: String,
    unread: Result<OmarchyTheme, ThemeError>,
    document: ThemeDocument,
    i: int,
    r: Result<OmarchyTheme, ThemeError>,
)
    requires
        call_ensures(theme_of_document, (Err(detail),), unread),
        call_ensures(theme_of_document, (Ok(document),), r),
        0 <= i < document.entries@.len(),
        document.entries@[i].value is Err,
        forall|k: int| 0 <= k < i ==> (#[trigger] document.entries@[k]).value is Ok,
    ensures
        unread matches Err(ThemeError::Toml(told)) && told@ == detail@,
        r matches Err(ThemeError::Toml(told)) && told@ == document.entries@[i].value->Err_0@,
{
    assert(theme_view(unread) == theme_read(Err::<ThemeDocumentView, Seq<char>>(detail@)));
    let views = entry_views(document.entries@);
    assert forall|k: int| 0 <= k < i implies (#[trigger] views[k]).value is Ok by {
        assert(views[k] == document.entries@[k]@);
    }
    assert(views[i] == document.entries@[i]@);
    lemma_first_failure(views, i);
    assert(theme_view(r) == theme_read(document_read(Ok(document))));
}

proof fn lemma_first_failure(entries: Seq<ThemeEntryView>, i: int)
    requires
        0 <= i < entries.len(),
        entries[i].value is Err,
        forall|k: int| 0 <= k < i ==> (#[trigger] entries[k]).value is Ok,
    ensures
        entry_failure(entries) == Some(entries[i].value->Err_0),
    decreases i,
{
    if i > 0 {
        let rest = entries.drop_first();
        assert(entries[0].value is Ok);
        assert forall|k: int| 0 <= k < i - 1 implies (#[trigger] rest[k]).value is Ok by {
            assert(rest[k] == entries[k + 1]);
        }
        lemma_first_failure(rest, i - 1);
    }
}

proof fn lemma_no_failure(entries: Seq<ThemeEntryView>)
    requires
        forall|k: int| 0 <= k < entries.len() ==> (#[trigger] entries[k]).value is Ok,
    ensures
        entry_failure(entries) is None,
    decreases entries.len(),
{
    if entries.len() > 0 {
        let rest = entries.drop_first();
        assert(entries[0].value is Ok);
        assert forall|k: int| 0 <= k < rest.len() implies (#[trigger] rest[k]).value is Ok by {
            assert(rest[k] == entries[k + 1]);
        }
        lemma_no_failure(rest);
    }
}

proof fn lemma_no_text(entries: Seq<ThemeEntryView>, key: Seq<char>)
    requires
        forall|k: int| 0 <= k < entries.len() ==> (#[trigger] entries[k]).key != key,
    ensures
        entry_text(entries, key) is None,
    decreases entries.len(),
{
    if entries.len() > 0 {
        let rest = entries.drop_first();
        assert(entries[0].key != key);
        assert forall|k: int| 0 <= k < rest.len() implies (#[trigger] rest[k]).key != key by {
            assert(rest[k] == entries[k + 1]);
        }
        lemma_no_text(rest, key);
    }
}

proof fn lemma_text_at(entries: Seq<ThemeEntryView>, key: Seq<char>, i: int)
    requires
        0 <= i < entries.len(),
        entries[i].key == key,
        entries[i].value is Ok,
        forall|k: int| 0 <= k < i ==> (#[trigger] entries[k]).key != key,
    ensures
        entry_text(entries, key) == entries[i].value->Ok_0,
    decreases i,
{
    if i > 0 {
        let rest = entries.drop_first();
        assert(entries[0].key != key);
        assert forall|k: int| 0 <= k < i - 1 implies (#[trigger] rest[k]).key != key by {
            assert(rest[k] == entries[k + 1]);
        }
        lemma_text_at(rest, key, i - 1);
    }
}

/// A document without one of the eight colors is no theme, and where the accent is missing that is
/// what is told, in the parser's words.
pub proof fn law_every_color_is_needed(
    document: ThemeDocument,
    name: Seq<char>,
    r: Result<OmarchyTheme, ThemeError>,
)
    requires
        call_ensures(theme_of_document, (Ok(document),), r),
        forall|k: int| 0 <= k < document.entries@.len() ==> (#[trigger] document.entries@[k]).value is Ok,
        forall|k: int| 0 <= k < document.entries@.len() ==> (#[trigger] document.entries@[k]).key@ != name,
        name == "accent"@ || name == "selection"@ || name == "muted"@ || name == "background"@ || name
            == "foreground"@ || name == "red"@ || name == "green"@ || name == "yellow"@,
    ensures
        r matches Err(ThemeError::Toml(_)),
        name == "accent"@ ==> (r matches Err(ThemeError::Toml(told)) && told@ == document.place@
            + "missing field `"@ + "accent"@ + "`\n"@),
{
    let views = entry_views(document.entries@);
    assert forall|k: int| 0 <= k < views.len() implies (#[trigger] views[k]).value is Ok by {
        assert(views[k] == document.entries@[k]@);
        assert(document.entries@[k].value is Ok);
    }
    assert forall|k: int| 0 <= k < views.len() implies (#[trigger] views[k]).key != name by {
        assert(views[k] == document.entries@[k]@);
        assert(document.entries@[k].key@ != name);
    }
    lemma_no_failure(views);
    lemma_no_text(views, name);
    reveal_with_fuel(first_missing, 9);
    let names = color_names();
    assert(names[0] == "accent"@ && names[1] == "selection"@ && names[2] == "muted"@ && names[3]
        == "background"@ && names[4] == "foreground"@ && names[5] == "red"@ && names[6] == "green"@
        && names[7] == "yellow"@);
    assert(theme_view(r) == theme_read(document_read(Ok(document))));
    assert(first_missing(views, 0) < 8);
}

/// A color of a document is that of the value under its key, the error color under red, that of
/// success under green and that of a warning under yellow.
pub proof fn law_a_documents_colors_are_under_their_keys(
    document: ThemeDocument,
    i: int,
    name: &'static str,
    value: &str,
    color: Result<Rgb, ThemeError>,
    r: Result<OmarchyTheme, ThemeError>,
)
    requires
        call_ensures(theme_of_document, (Ok(document),), r),
        call_ensures(parse_color, (name, value), color),
        r is Ok,
        0 <= i < document.entries@.len(),
        document.entries@[i].key@ == name@,
        document.entries@[i].value matches Ok(Some(text)) && text@ == value@,
        forall|k: int| 0 <= k < i ==> (#[trigger] document.entries@[k]).key@ != name@,
    ensures
        name@ == "accent"@ ==> color is Ok && r->Ok_0.accent == color->Ok_0,
        name@ == "selection"@ ==> color is Ok && r->Ok_0.selection == color->Ok_0,
        name@ == "muted"@ ==> color is Ok && r->Ok_0.muted == color->Ok_0,
        name@ == "background"@ ==> color is Ok && r->Ok_0.background == color->Ok_0,
        name@ == "foreground"@ ==> color is Ok && r->Ok_0.foreground == color->Ok_0,
        name@ == "red"@ ==> color is Ok && r->Ok_0.error == color->Ok_0,
        name@ == "green"@ ==> color is Ok && r->Ok_0.success == color->Ok_0,
        name@ == "yellow"@ ==> color is Ok && r->Ok_0.warning == color->Ok_0,
{
    let views = entry_views(document.entries@);
    assert(views[i] == document.entries@[i]@);
    assert forall|k: int| 0 <= k < i implies (#[trigger] views[k]).key != name@ by {
        assert(views[k] == document.entries@[k]@);
        assert(document.entries@[k].key@ != name@);
    }
    lemma_text_at(views, name@, i);
    reveal_with_fuel(first_bad, 9);
    let names = color_names();
    assert(names[0] == "accent"@ && names[1] == "selection"@ && names[2] == "muted"@ && names[3]
        == "background"@ && names[4] == "foreground"@ && names[5] == "red"@ && names[6] == "green"@
        && names[7] == "yellow"@);
    assert(theme_view(r) == theme_read(document_read(Ok(document))));
    assert(theme_view(color) == color_result(name@, value@));
}

/// Without a theme file, or with one that is no theme, the theme is the dark blue one; else it is
/// that of the file.
pub proof fn law_the_default_theme_stands_in(
    content: &str,
    parsed: Result<OmarchyTheme, ThemeError>,
    loaded: OmarchyTheme,
    none: OmarchyTheme,
    default: OmarchyTheme,
)
    requires
        call_ensures(parse_theme, (content,), parsed),
        call_ensures(load_theme, (Some(content),), loaded),
        call_ensures(load_theme, (None,), none),
        call_ensures(OmarchyTheme::default, (), default),
    ensures
        parsed matches Ok(theme) ==> loaded == theme,
        parsed is Err ==> loaded == default,
        none == default,
        default.accent == (Rgb { red: 0x7a, green: 0xa2, blue: 0xf7 }),
        default.selection == (Rgb { red: 0x33, green: 0x3b, blue: 0x55 }),
        default.muted == (Rgb { red: 0x56, green: 0x5f, blue: 0x89 }),
        default.background == (Rgb { red: 0x1a, green: 0x1b, blue: 0x26 }),
        default.foreground == (Rgb { red: 0xc0, green: 0xca, blue: 0xf5 }),
        default.error == (Rgb { red: 0xf7, green: 0x76, blue: 0x8e }),
        default.success == (Rgb { red: 0x9e, green: 0xce, blue: 0x6a }),
        default.warning == (Rgb { red: 0xe0, green: 0xaf, blue: 0x68 }),
{
    assert(theme_view(parsed) == parsed_theme(content@));
}

/// What is wrong with a theme is told with the name of the color, or in the parser's words.
pub proof fn law_theme_errors_say_what_is_wrong(name: &'static str, detail: String, color: String, file: String)
    requires
        call_ensures(ThemeError::message, (&ThemeError::InvalidColor(name),), color),
        call_ensures(ThemeError::message, (&ThemeError::Toml(detail),), file),
    ensures
        color@ == "invalid Omarchy theme color: "@ + name@,
        file@ == "invalid Omarchy theme file: "@ + detail@,
{
}

/// Of the parser's words on a document that is no string, those on its type are taken away and
/// those before them stay.
pub proof fn law_the_place_stands_before_the_type(text: &str, place: Seq<char>, r: String)
    requires
        call_ensures(strip_wrong_type, (text,), r),
        text@ == place + "invalid type: map, expected a string\n"@,
    ensures
        r@ == place,
{
    let end = "invalid type: map, expected a string\n"@;
    assert(text@.skip(text@.len() - end.len()) =~= end);
    assert(text@.subrange(text@.len() - end.len(), text@.len() as int) =~= end);
    assert(ends_in(text@, end));
    assert(text@.take(text@.len() - end.len()) =~= place);
}

/// A watched theme is that of the text last taken, and only another text is a change.
pub proof fn law_the_watched_theme_is_that_of_the_text(
    watcher: &mut ThemeWatcher,
    source: String,
    content: &str,
    loaded: OmarchyTheme,
    changed: bool,
    again: &mut ThemeWatcher,
    changed_again: bool,
)
    requires
        call_ensures(ThemeWatcher::refresh, (watcher, Some(source)), changed),
        call_ensures(ThemeWatcher::refresh, (again, Some(source)), changed_again),
        call_ensures(load_theme, (Some(content),), loaded),
        content@ == source@,
        *final(watcher) == *old(again),
    ensures
        final(watcher).theme() == loaded,
        !changed_again,
        changed <==> old(watcher).source() != Some(source@),
{
}

/// A watcher begins with the theme of its first text, and shows the theme that it has.
pub proof fn law_a_watcher_begins_with_its_text(
    source: String,
    content: &str,
    loaded: OmarchyTheme,
    watcher: ThemeWatcher,
    shown: &OmarchyTheme,
)
    requires
        call_ensures(ThemeWatcher::new, (Some(source),), watcher),
        call_ensures(load_theme, (Some(content),), loaded),
        call_ensures(ThemeWatcher::current, (&watcher,), shown),
        content@ == source@,
    ensures
        *shown == loaded,
{
}

} // verus!
