//! Text that reaches a terminal: what is unsafe to print is replaced, and length is bounded.
use vstd::prelude::*;
use vstd::string::*;

use crate::strings::{chars_of, control, is_control};

verus! {

pub const REPLACEMENT: char = '\u{fffd}';

pub const ELLIPSIS: char = '…';

pub const DISPLAY_NAME_LIMIT: usize = 96;

pub const DISPLAY_LINE_LIMIT: usize = 256;

/// A character that reorders text or takes no space on the screen.
pub open spec fn bidi_or_invisible(c: char) -> bool {
    let u = c as u32;
    ||| u == 0xad
    ||| u == 0x61c
    ||| u == 0x180e
    ||| 0x200b <= u <= 0x200f
    ||| 0x202a <= u <= 0x202e
    ||| 0x2060 <= u <= 0x2064
    ||| 0x2066 <= u <= 0x206f
    ||| u == 0xfeff
    ||| 0xfff9 <= u <= 0xfffb
    ||| 0xe0000 <= u <= 0xe007f
}

/// A character that may be printed as it is.
pub open spec fn presentation_safe(c: char) -> bool {
    !control(c) && !bidi_or_invisible(c)
}

/// The character that is shown for `c`.
pub open spec fn shown(c: char) -> char {
    if presentation_safe(c) {
        c
    } else {
        REPLACEMENT
    }
}

/// The first `limit` characters as they are shown, with an ellipsis where something was cut.
pub open spec fn sanitized(value: Seq<char>, limit: nat) -> Seq<char> {
    if value.len() <= limit {
        value.map_values(|c: char| shown(c))
    } else {
        value.take(limit as int).map_values(|c: char| shown(c)).push(ELLIPSIS)
    }
}

pub open spec fn sanitized_option(value: Option<Seq<char>>, limit: nat) -> Option<Seq<char>> {
    match value {
        Some(text) => Some(sanitized(text, limit)),
        None => None,
    }
}

pub fn is_bidi_or_invisible(c: char) -> (r: bool)
    ensures
        r == bidi_or_invisible(c),
{
    let u: u32 = c as u32;
    u == 0xad || u == 0x61c || u == 0x180e || (0x200b <= u && u <= 0x200f) || (0x202a <= u && u
        <= 0x202e) || (0x2060 <= u && u <= 0x2064) || (0x2066 <= u && u <= 0x206f) || u == 0xfeff
        || (0xfff9 <= u && u <= 0xfffb) || (0xe0000 <= u && u <= 0xe007f)
}

pub fn is_presentation_safe(c: char) -> (r: bool)
    ensures
        r == presentation_safe(c),
{
    !is_control(c) && !is_bidi_or_invisible(c)
}

/// What is shown of `value` within `limit` characters.
pub fn sanitize_for_display(value: &str, limit: usize) -> (r: String)
    ensures
        r@ == sanitized(value@, limit as nat),
{
    let v = chars_of(value);
    let mut out = String::new();
    let mut i: usize = 0;
    while i < v.len() && i < limit
        invariant
            v@ == value@,
            i <= v@.len(),
            i <= limit,
            out@ == value@.take(i as int).map_values(|c: char| shown(c)),
        decreases v@.len() - i,
    {
        let c = v[i];
        out.push(
            if is_presentation_safe(c) {
                c
            } else {
                REPLACEMENT
            },
        );
        assert(value@.take(i + 1).map_values(|c: char| shown(c)) =~= value@.take(
            i as int,
        ).map_values(|c: char| shown(c)).push(shown(c)));
        i += 1;
    }
    if i < v.len() {
        out.push(ELLIPSIS);
    } else {
        assert(value@.take(i as int) =~= value@);
    }
    out
}

pub fn sanitize_optional(value: Option<&str>, limit: usize) -> (r: Option<String>)
    ensures
        r is Some <==> value is Some,
        r matches Some(text) ==> text@ == sanitized(value->0@, limit as nat),
{
    match value {
        Some(text) => Some(sanitize_for_display(text, limit)),
        None => None,
    }
}

/// The same for an owned text.
pub fn sanitize_owned(value: &Option<String>, limit: usize) -> (r: Option<String>)
    ensures
        crate::strings::opt_text(r) == sanitized_option(crate::strings::opt_text(*value), limit as nat),
{
    match value {
        Some(text) => Some(sanitize_for_display(text.as_str(), limit)),
        None => None,
    }
}

/// Whatever the input, every character that is shown may be printed as it is.
pub proof fn law_sanitized_text_is_safe(value: Seq<char>, limit: nat)
    ensures
        forall|i: int|
            0 <= i < sanitized(value, limit).len() ==> presentation_safe(
                #[trigger] sanitized(value, limit)[i],
            ),
{
}

/// What is shown has at most one character more than the limit.
pub proof fn law_sanitized_text_is_bounded(value: Seq<char>, limit: nat)
    ensures
        sanitized(value, limit).len() <= limit + 1,
        value.len() <= limit ==> sanitized(value, limit).len() == value.len(),
{
}

/// Text that is safe and short enough is shown unchanged.
pub proof fn law_safe_text_is_unchanged(value: Seq<char>, limit: nat)
    requires
        value.len() <= limit,
        forall|i: int| 0 <= i < value.len() ==> presentation_safe(#[trigger] value[i]),
    ensures
        sanitized(value, limit) == value,
{
    assert(sanitized(value, limit) =~= value);
}

/// What was shown of a text is shown unchanged the second time.
pub proof fn law_sanitizing_twice_is_sanitizing_once(value: Seq<char>, limit: nat)
    ensures
        sanitized(sanitized(value, limit), limit) == sanitized(value, limit),
{
    law_sanitized_text_is_safe(value, limit);
    if value.len() <= limit {
        law_safe_text_is_unchanged(sanitized(value, limit), limit);
    } else {
        assert(sanitized(sanitized(value, limit), limit) =~= sanitized(value, limit));
    }
}

/// What is shown has the safe characters of a text in their places, the replacement character in
/// those of the others, and an ellipsis at the end exactly where something was cut.
pub proof fn law_text_is_shown_character_by_character(value: &str, limit: usize, r: String, i: int)
    requires
        call_ensures(sanitize_for_display, (value, limit), r),
        0 <= i < value@.len(),
    ensures
        value@.len() <= limit ==> r@.len() == value@.len(),
        value@.len() > limit ==> r@.len() == limit + 1 && r@.last() == '…',
        i < limit && presentation_safe(value@[i]) ==> r@[i] == value@[i],
        i < limit && !presentation_safe(value@[i]) ==> r@[i] == '\u{fffd}',
{
}

/// The printable characters of ASCII are safe, its control characters are not, and neither is what
/// turns the direction of text or cannot be seen.
pub proof fn law_what_may_be_printed(c: char, safe: bool, hidden: bool)
    requires
        call_ensures(is_presentation_safe, (c,), safe),
        call_ensures(is_bidi_or_invisible, (c,), hidden),
    ensures
        ' ' <= c <= '~' ==> safe && !hidden,
        (c as u32) < 32 || 127 <= (c as u32) < 160 ==> !safe,
        hidden ==> !safe,
        0x202a <= (c as u32) <= 0x202e || 0x2066 <= (c as u32) <= 0x2069 ==> hidden,
        0x200b <= (c as u32) <= 0x200f || c as u32 == 0xfeff || c as u32 == 0xad || 0x2060 <= (c as u32)
            <= 0x2064 || 0xe0000 <= (c as u32) <= 0xe007f ==> hidden,
        0xa1 <= (c as u32) <= 0xac || 0xae <= (c as u32) <= 0x61b || 0x3000 <= (c as u32) <= 0xd7ff ==> !hidden
            && safe,
{
}

/// A text that is not there stays so, and one that is there is shown.
pub proof fn law_only_texts_that_are_there_are_shown(
    value: Option<String>,
    limit: usize,
    r: Option<String>,
    text: Option<&str>,
    s: Option<String>,
)
    requires
        call_ensures(sanitize_owned, (&value, limit), r),
        call_ensures(sanitize_optional, (text, limit), s),
    ensures
        r is Some <==> value is Some,
        value matches Some(text) ==> r->0@ == sanitized(text@, limit as nat),
        s is Some <==> text is Some,
        DISPLAY_NAME_LIMIT == 96,
        DISPLAY_LINE_LIMIT == 256,
{
}

} // verus!
