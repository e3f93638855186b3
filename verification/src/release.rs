//! Releases of the program, and which of them work together.
use vstd::prelude::*;
use vstd::string::*;
use vstd::utf8::*;

use crate::strings::{
    all_digits, byte_count, byte_len, chars_of, decimal, digit, law_a_text_is_cut_where_it_is_picked_out,
    lemma_decimal_reads, number, parse_digits, parsed_digits, split_text, split_when, texts,
};

verus! {

pub const RELEASE: &'static str = "0.2.0";

pub const RELEASE_HEADER: &'static str = "omdesky-release";

pub const MAX_RELEASE_BYTES: usize = 64;

/// The part of a release that decides whether two computers work together.
#[derive(Clone, Copy, Debug, PartialEq, Eq, PartialOrd, Ord, Structural)]
pub struct ReleaseLine {
    pub major: u64,
    pub minor: u64,
}

/// A number without leading zeros.
pub open spec fn canonical_number(s: Seq<char>) -> bool {
    s.len() > 0 && all_digits(s) && (s.len() == 1 || s[0] != '0')
}

pub open spec fn component(s: Seq<char>) -> Option<int> {
    if canonical_number(s) {
        parsed_digits(s, u64::MAX as int)
    } else {
        None
    }
}

/// The dotted numbers of a version: what stands before a pre-release or build suffix.
pub open spec fn version_core(version: Seq<char>) -> Seq<char> {
    split_when(version, |c: char| c == '-' || c == '+')[0]
}

/// The release line of a version of exactly three canonical numbers.
pub open spec fn release_line(version: Seq<char>) -> Option<ReleaseLine> {
    let parts = split_when(version_core(version), |c: char| c == '.');
    if version.len() > 0 && byte_len(version) <= MAX_RELEASE_BYTES && parts.len() == 3
        && component(parts[0]) is Some && component(parts[1]) is Some && component(parts[2]) is Some {
        Some(ReleaseLine { major: component(parts[0])->0 as u64, minor: component(parts[1])->0 as u64 })
    } else {
        None
    }
}

fn is_suffix_mark(c: char) -> (r: bool)
    ensures
        r == (c == '-' || c == '+'),
{
    c == '-' || c == '+'
}

fn is_dot(c: char) -> (r: bool)
    ensures
        r == (c == '.'),
{
    c == '.'
}

pub fn parse_component(s: &str) -> (r: Option<u64>)
    ensures
        match r {
            Some(n) => component(s@) == Some(n as int),
            None => component(s@) is None,
        },
{
    match parse_digits(s) {
        Some(n) => {
            let v = chars_of(s);
            if v.len() == 1 || v[0] != '0' {
                Some(n)
            } else {
                None
            }
        },
        None => None,
    }
}

impl ReleaseLine {
    pub fn parse(version: &str) -> (r: Option<Self>)
        ensures
            r == release_line(version@),
    {
        if version.is_empty() || byte_count(version) > MAX_RELEASE_BYTES {
            return None;
        }
        let pieces = split_text(version, is_suffix_mark, Ghost(|c: char| c == '-' || c == '+'));
        assert(texts(pieces@)[0] == pieces@[0]@);
        let parts = split_text(pieces[0].as_str(), is_dot, Ghost(|c: char| c == '.'));
        assert(texts(parts@).len() == parts@.len());
        if parts.len() != 3 {
            return None;
        }
        assert(texts(parts@)[0] == parts@[0]@ && texts(parts@)[1] == parts@[1]@ && texts(parts@)[2]
            == parts@[2]@);
        match (
            parse_component(parts[0].as_str()),
            parse_component(parts[1].as_str()),
            parse_component(parts[2].as_str()),
        ) {
            (Some(major), Some(minor), Some(_)) => Some(ReleaseLine { major, minor }),
            _ => None,
        }
    }

    pub fn current() -> (r: Option<Self>)
        ensures
            r == release_line(RELEASE@),
    {
        Self::parse(RELEASE)
    }

    /// Whether this line is older than `other`.
    pub open spec fn older_than(self, other: ReleaseLine) -> bool {
        self.major < other.major || (self.major == other.major && self.minor < other.minor)
    }

    pub fn is_older_than(&self, other: &ReleaseLine) -> (r: bool)
        ensures
            r == self.older_than(*other),
    {
        self.major < other.major || (self.major == other.major && self.minor < other.minor)
    }
}

/// Whether a computer that runs `version` works with this one.
pub open spec fn compatible_release(version: Seq<char>) -> bool {
    release_line(RELEASE@) is Some && release_line(version) == release_line(RELEASE@)
}

pub fn is_compatible_release(version: &str) -> (r: bool)
    ensures
        r == compatible_release(version@),
{
    match (ReleaseLine::current(), ReleaseLine::parse(version)) {
        (Some(current), Some(line)) => line == current,
        _ => false,
    }
}

/// Two computers work together exactly when their versions have the same major and minor number.
pub proof fn law_compatibility_is_by_release_line(a: Seq<char>, b: Seq<char>)
    requires
        release_line(a) is Some,
        release_line(b) is Some,
        release_line(a)->0.major == release_line(b)->0.major,
        release_line(a)->0.minor == release_line(b)->0.minor,
    ensures
        compatible_release(a) == compatible_release(b),
{
}

proof fn lemma_split_keeps_first(s: Seq<char>, rest: Seq<char>, p: spec_fn(char) -> bool)
    requires
        rest.len() > 0,
        p(rest[0]),
        forall|i: int| 0 <= i < s.len() ==> !p(#[trigger] s[i]),
    ensures
        split_when(s + rest, p)[0] == s,
        split_when(s + rest, p).len() > 1,
    decreases rest.len(),
{
    let whole = s + rest;
    let shorter = rest.drop_last();
    assert(whole.drop_last() =~= s + shorter);
    assert(whole.last() == rest.last());
    if shorter.len() == 0 {
        assert(s + shorter =~= s);
        lemma_no_split(s, p);
    } else {
        lemma_split_keeps_first(s, shorter, p);
    }
}

proof fn lemma_no_split(s: Seq<char>, p: spec_fn(char) -> bool)
    requires
        forall|i: int| 0 <= i < s.len() ==> !p(#[trigger] s[i]),
    ensures
        split_when(s, p) == seq![s],
    decreases s.len(),
{
    if s.len() > 0 {
        assert(!p(s.last()));
        assert forall|i: int| 0 <= i < s.drop_last().len() implies !p(#[trigger] s.drop_last()[i]) by {
            assert(s.drop_last()[i] == s[i]);
        }
        lemma_no_split(s.drop_last(), p);
        let before = split_when(s.drop_last(), p);
        assert(before.last().push(s.last()) =~= s);
        assert(split_when(s, p) =~= seq![s]);
    } else {
        assert(s =~= Seq::<char>::empty());
        assert(split_when(s, p) =~= seq![s]);
    }
}

/// A pre-release or build suffix does not change the release line of a version.
pub proof fn law_suffix_is_ignored(version: Seq<char>, suffix: Seq<char>)
    requires
        release_line(version) is Some,
        forall|i: int| 0 <= i < version.len() ==> #[trigger] version[i] != '-' && version[i] != '+',
        suffix.len() > 0,
        suffix[0] == '-' || suffix[0] == '+',
        byte_len(version + suffix) <= MAX_RELEASE_BYTES,
    ensures
        release_line(version + suffix) == release_line(version),
{
    let p = |c: char| c == '-' || c == '+';
    lemma_no_split(version, p);
    lemma_split_keeps_first(version, suffix, p);
}

proof fn lemma_three_numbers(major: nat, minor: nat, patch: nat)
    ensures
        split_when(
            decimal(major) + "."@ + decimal(minor) + "."@ + decimal(patch),
            |c: char| c == '.',
        ) == seq![decimal(major), decimal(minor), decimal(patch)],
        version_core(decimal(major) + "."@ + decimal(minor) + "."@ + decimal(patch)) == decimal(major)
            + "."@ + decimal(minor) + "."@ + decimal(patch),
{
    reveal_strlit(".");
    let dot = |c: char| c == '.';
    let suffix = |c: char| c == '-' || c == '+';
    let a = decimal(major);
    let b = decimal(minor);
    let c = decimal(patch);
    lemma_decimal_reads(major);
    lemma_decimal_reads(minor);
    lemma_decimal_reads(patch);
    let whole = a + "."@ + b + "."@ + c;
    assert forall|i: int| 0 <= i < a.len() implies !dot(#[trigger] a[i]) by {
        assert(digit(a[i]));
    }
    assert forall|i: int| 0 <= i < b.len() implies !dot(#[trigger] b[i]) by {
        assert(digit(b[i]));
    }
    assert forall|i: int| 0 <= i < c.len() implies !dot(#[trigger] c[i]) by {
        assert(digit(c[i]));
    }
    let rest = b.push('.') + c;
    assert(whole =~= a.push('.') + rest);
    law_a_text_is_cut_where_it_is_picked_out(a, '.', rest, dot);
    law_a_text_is_cut_where_it_is_picked_out(b, '.', c, dot);
    law_a_text_is_cut_where_it_is_picked_out(c, '.', c, dot);
    assert(split_when(whole, dot) =~= seq![a, b, c]);
    assert forall|i: int| 0 <= i < whole.len() implies !suffix(#[trigger] whole[i]) by {
        if i < a.len() {
            assert(digit(a[i]));
        } else if i == a.len() {
        } else if i < a.len() + 1 + b.len() {
            assert(whole[i] == b[i - a.len() - 1]);
            assert(digit(b[i - a.len() - 1]));
        } else if i == a.len() + 1 + b.len() {
        } else {
            assert(whole[i] == c[i - a.len() - b.len() - 2]);
            assert(digit(c[i - a.len() - b.len() - 2]));
        }
    }
    law_a_text_is_cut_where_it_is_picked_out(whole, '-', c, suffix);
}

/// A version of three numbers is of the line of the first two; the third does not count.
pub proof fn law_a_line_is_the_first_two_numbers(
    major: u64,
    minor: u64,
    patch: u64,
    version: &str,
    r: Option<ReleaseLine>,
)
    requires
        version@ == decimal(major as nat) + "."@ + decimal(minor as nat) + "."@ + decimal(patch as nat),
        byte_len(version@) <= 64,
        call_ensures(ReleaseLine::parse, (version,), r),
    ensures
        r matches Some(line) && line.major == major && line.minor == minor,
{
    lemma_three_numbers(major as nat, minor as nat, patch as nat);
    lemma_decimal_reads(major as nat);
    lemma_decimal_reads(minor as nat);
    lemma_decimal_reads(patch as nat);
    assert(version@.len() > 0);
}

/// A number of a version has digits only and no leading zero.
pub proof fn law_version_numbers_have_no_leading_zero(s: &str, r: Option<u64>)
    requires
        call_ensures(parse_component, (s,), r),
    ensures
        s@.len() > 1 && s@[0] == '0' ==> r is None,
        s@.len() == 0 ==> r is None,
        (exists|i: int| 0 <= i < s@.len() && !digit(#[trigger] s@[i])) ==> r is None,
        r is Some ==> r->0 == number(s@),
        s@.len() >= 1 && (s@.len() == 1 || s@[0] != '0') && all_digits(s@) && number(s@) <= u64::MAX
            ==> r is Some,
{
}

/// A version of more than sixty-four bytes is none, nor is an empty one.
pub proof fn law_long_versions_are_none(version: &str, r: Option<ReleaseLine>)
    requires
        call_ensures(ReleaseLine::parse, (version,), r),
        byte_len(version@) > 64 || version@.len() == 0,
    ensures
        r is None,
{
}

/// A line is older than another by its major number, and where these are the same by its minor one.
pub proof fn law_lines_are_ordered_by_their_numbers(a: ReleaseLine, b: ReleaseLine, r: bool, s: bool)
    requires
        call_ensures(ReleaseLine::is_older_than, (&a, &b), r),
        call_ensures(ReleaseLine::is_older_than, (&b, &a), s),
    ensures
        a.major < b.major ==> r && !s,
        a.major == b.major && a.minor < b.minor ==> r && !s,
        a == b ==> !r && !s,
        !(r && s),
        a != b ==> r || s,
{
}

/// A release works with this one exactly when it is of the same line.
pub proof fn law_a_release_works_with_its_own_line(
    version: &str,
    line: Option<ReleaseLine>,
    current: Option<ReleaseLine>,
    r: bool,
)
    requires
        call_ensures(is_compatible_release, (version,), r),
        call_ensures(ReleaseLine::parse, (version,), line),
        call_ensures(ReleaseLine::current, (), current),
    ensures
        r <==> match (line, current) {
            (Some(a), Some(b)) => a.major == b.major && a.minor == b.minor,
            _ => false,
        },
{
}

/// This computer is of the line 0.2: a release works with it exactly when its first two numbers are
/// these.
pub proof fn law_this_is_a_release_of_the_line_0_2(version: &str, line: Option<ReleaseLine>, r: bool)
    requires
        call_ensures(is_compatible_release, (version,), r),
        call_ensures(ReleaseLine::parse, (version,), line),
    ensures
        RELEASE@ == "0.2.0"@,
        r <==> (line matches Some(line) && line.major == 0 && line.minor == 2),
{
    reveal_strlit("0.2.0");
    reveal_strlit(".");
    let own = RELEASE@;
    assert(decimal(0).len() == 1 && decimal(0)[0] == '0');
    assert(decimal(2).len() == 1 && decimal(2)[0] == '2');
    assert(own =~= decimal(0) + "."@ + decimal(2) + "."@ + decimal(0));
    assert(vstd::utf8::is_ascii_chars(own));
    vstd::utf8::is_ascii_chars_encode_utf8(own);
    lemma_three_numbers(0, 2, 0);
    lemma_decimal_reads(0);
    lemma_decimal_reads(2);
}

} // verus!
