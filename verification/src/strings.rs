//! Operations on text, stated over the sequence of characters that a string holds.
use vstd::prelude::*;
use vstd::string::*;
use vstd::utf8::*;

verus! {

/// `String::push` appends one character to the end of the string.
pub assume_specification[ String::push ](s: &mut String, c: char)
    ensures
        final(s)@ == old(s)@.push(c),
;

#[verifier::external_type_specification]
#[verifier::external_body]
pub struct ExFromUtf8Error(std::string::FromUtf8Error);

/// `String::from_utf8` makes a string of exactly these bytes where they are valid UTF-8, and fails
/// where they are not.
pub assume_specification[ String::from_utf8 ](vec: Vec<u8>) -> (r: Result<
    String,
    std::string::FromUtf8Error,
>)
    ensures
        r is Ok <==> valid_utf8(vec@),
        r matches Ok(s) ==> encode_utf8(s@) == vec@,
;

/// The number of bytes that the characters take in UTF-8.
pub open spec fn byte_len(s: Seq<char>) -> nat {
    encode_utf8(s).len()
}

/// The number of bytes of `s`.
pub fn byte_count(s: &str) -> (n: usize)
    ensures
        n == byte_len(s@),
{
    s.as_bytes().len()
}

/// The characters of `s`, in order.
pub fn chars_of(s: &str) -> (v: Vec<char>)
    ensures
        v@ == s@,
{
    let mut v: Vec<char> = Vec::new();
    for c in it: s.chars()
        invariant
            it.seq() == s@,
            v@ == s@.take(it.index() as int),
    {
        v.push(c);
        assert(s@.take(it.index() + 1) =~= s@.take(it.index() as int).push(c));
    }
    assert(s@.take(s@.len() as int) =~= s@);
    v
}

/// The characters from position `from` up to, and without, position `to`.
pub fn text_between(v: &Vec<char>, from: usize, to: usize) -> (s: String)
    requires
        from <= to <= v@.len(),
    ensures
        s@ == v@.subrange(from as int, to as int),
{
    let mut s = String::new();
    let mut i: usize = from;
    while i < to
        invariant
            from <= i <= to <= v@.len(),
            s@ == v@.subrange(from as int, i as int),
        decreases to - i,
    {
        s.push(v[i]);
        assert(v@.subrange(from as int, i + 1) =~= v@.subrange(from as int, i as int).push(v@[i as int]));
        i += 1;
    }
    s
}

/// Whether two texts hold the same characters.
pub fn same_text(a: &str, b: &str) -> (r: bool)
    ensures
        r == (a@ == b@),
{
    let x = a.as_bytes();
    let y = b.as_bytes();
    proof {
        encode_utf8_decode_utf8(a@);
        encode_utf8_decode_utf8(b@);
    }
    if x.len() != y.len() {
        return false;
    }
    let mut i: usize = 0;
    while i < x.len()
        invariant
            x@ == encode_utf8(a@),
            y@ == encode_utf8(b@),
            x@.len() == y@.len(),
            i <= x@.len(),
            forall|k: int| 0 <= k < i ==> x@[k] == y@[k],
        decreases x@.len() - i,
    {
        if x[i] != y[i] {
            return false;
        }
        i += 1;
    }
    assert(x@ =~= y@);
    true
}

/// Whether two optional texts are both absent or hold the same characters.
pub fn same_optional(a: &Option<String>, b: &str) -> (r: bool)
    ensures
        r == (a is Some && a->0@ == b@),
{
    match a {
        Some(x) => same_text(x.as_str(), b),
        None => false,
    }
}

pub open spec fn digit(c: char) -> bool {
    '0' <= c <= '9'
}

pub open spec fn ascii_letter(c: char) -> bool {
    ('a' <= c <= 'z') || ('A' <= c <= 'Z')
}

pub open spec fn ascii_alphanumeric(c: char) -> bool {
    digit(c) || ascii_letter(c)
}

pub open spec fn hex_digit(c: char) -> bool {
    digit(c) || ('a' <= c <= 'f') || ('A' <= c <= 'F')
}

/// A Unicode control character (general category Cc).
pub open spec fn control(c: char) -> bool {
    (c as u32) < 0x20 || 0x7f <= (c as u32) <= 0x9f
}

/// A character with the Unicode property `White_Space`.
pub open spec fn whitespace(c: char) -> bool {
    ||| 0x09 <= (c as u32) <= 0x0d
    ||| c as u32 == 0x20
    ||| c as u32 == 0x85
    ||| c as u32 == 0xa0
    ||| c as u32 == 0x1680
    ||| 0x2000 <= (c as u32) <= 0x200a
    ||| c as u32 == 0x2028
    ||| c as u32 == 0x2029
    ||| c as u32 == 0x202f
    ||| c as u32 == 0x205f
    ||| c as u32 == 0x3000
}

pub fn is_digit(c: char) -> (r: bool)
    ensures
        r == digit(c),
{
    '0' <= c && c <= '9'
}

pub fn is_ascii_alphanumeric(c: char) -> (r: bool)
    ensures
        r == ascii_alphanumeric(c),
{
    ('0' <= c && c <= '9') || ('a' <= c && c <= 'z') || ('A' <= c && c <= 'Z')
}

pub fn is_hex_digit(c: char) -> (r: bool)
    ensures
        r == hex_digit(c),
{
    ('0' <= c && c <= '9') || ('a' <= c && c <= 'f') || ('A' <= c && c <= 'F')
}

pub fn is_control(c: char) -> (r: bool)
    ensures
        r == control(c),
{
    let u: u32 = c as u32;
    u < 0x20 || (0x7f <= u && u <= 0x9f)
}

pub fn is_whitespace(c: char) -> (r: bool)
    ensures
        r == whitespace(c),
{
    let u: u32 = c as u32;
    (0x09 <= u && u <= 0x0d) || u == 0x20 || u == 0x85 || u == 0xa0 || u == 0x1680 || (0x2000 <= u
        && u <= 0x200a) || u == 0x2028 || u == 0x2029 || u == 0x202f || u == 0x205f || u == 0x3000
}

/// The characters of each text of a list.
pub open spec fn texts(v: Seq<String>) -> Seq<Seq<char>> {
    v.map_values(|s: String| s@)
}

/// The characters of an optional text.
pub open spec fn opt_text(v: Option<String>) -> Option<Seq<char>> {
    match v {
        Some(s) => Some(s@),
        None => None,
    }
}

/// Whether `f` accepts every character of `s`; `p` says what `f` accepts.
pub(crate) fn every_char<F: Fn(char) -> bool>(
    s: &str,
    f: F,
    Ghost(p): Ghost<spec_fn(char) -> bool>,
) -> (r: bool)
    requires
        forall|c: char| call_requires(f, (c,)),
        forall|c: char, b: bool| call_ensures(f, (c,), b) ==> b == p(c),
    ensures
        r == (forall|i: int| 0 <= i < s@.len() ==> p(#[trigger] s@[i])),
{
    let v = chars_of(s);
    let mut i: usize = 0;
    while i < v.len()
        invariant
            v@ == s@,
            i <= v@.len(),
            forall|c: char| call_requires(f, (c,)),
            forall|c: char, b: bool| call_ensures(f, (c,), b) ==> b == p(c),
            forall|k: int| 0 <= k < i ==> p(#[trigger] s@[k]),
        decreases v@.len() - i,
    {
        if !f(v[i]) {
            assert(!p(s@[i as int]));
            return false;
        }
        i += 1;
    }
    true
}

/// The pieces of a text between the characters that `p` picks out; one more than these.
pub open spec fn split_when(s: Seq<char>, p: spec_fn(char) -> bool) -> Seq<Seq<char>>
    decreases s.len(),
{
    if s.len() == 0 {
        seq![Seq::<char>::empty()]
    } else {
        let before = split_when(s.drop_last(), p);
        if p(s.last()) {
            before.push(Seq::<char>::empty())
        } else {
            before.drop_last().push(before.last().push(s.last()))
        }
    }
}

pub proof fn lemma_split_when_nonempty(s: Seq<char>, p: spec_fn(char) -> bool)
    ensures
        split_when(s, p).len() > 0,
    decreases s.len(),
{
    if s.len() > 0 {
        lemma_split_when_nonempty(s.drop_last(), p);
    }
}

/// The pieces of `s` between the characters that `f` picks out; `p` says which these are.
pub(crate) fn split_text<F: Fn(char) -> bool>(
    s: &str,
    f: F,
    Ghost(p): Ghost<spec_fn(char) -> bool>,
) -> (r: Vec<String>)
    requires
        forall|c: char| call_requires(f, (c,)),
        forall|c: char, b: bool| call_ensures(f, (c,), b) ==> b == p(c),
    ensures
        texts(r@) == split_when(s@, p),
        r@.len() > 0,
{
    let v = chars_of(s);
    let mut out: Vec<String> = Vec::new();
    let mut piece = String::new();
    let mut i: usize = 0;
    assert(texts(out@).push(piece@) =~= split_when(s@.take(0), p));
    while i < v.len()
        invariant
            v@ == s@,
            i <= v@.len(),
            forall|c: char| call_requires(f, (c,)),
            forall|c: char, b: bool| call_ensures(f, (c,), b) ==> b == p(c),
            texts(out@).push(piece@) == split_when(s@.take(i as int), p),
        decreases v@.len() - i,
    {
        let c = v[i];
        let ghost before = texts(out@).push(piece@);
        let ghost done = out@;
        assert(s@.take(i + 1).drop_last() =~= s@.take(i as int));
        assert(before.drop_last() =~= texts(out@));
        if f(c) {
            out.push(piece);
            piece = String::new();
            assert(texts(out@) =~= before);
        } else {
            piece.push(c);
        }
        assert(texts(out@).push(piece@) =~= split_when(s@.take(i + 1), p));
        i += 1;
    }
    let ghost done = out@;
    out.push(piece);
    assert(texts(out@) =~= texts(done).push(piece@));
    assert(s@.take(s@.len() as int) =~= s@);
    out
}

/// A text without the characters at its end that `p` picks out.
pub open spec fn trim_end_when(s: Seq<char>, p: spec_fn(char) -> bool) -> Seq<char>
    decreases s.len(),
{
    if s.len() > 0 && p(s.last()) {
        trim_end_when(s.drop_last(), p)
    } else {
        s
    }
}

/// A text without the characters at its start that `p` picks out.
pub open spec fn trim_start_when(s: Seq<char>, p: spec_fn(char) -> bool) -> Seq<char>
    decreases s.len(),
{
    if s.len() > 0 && p(s[0]) {
        trim_start_when(s.drop_first(), p)
    } else {
        s
    }
}

/// A text without the white space around it.
pub open spec fn trimmed(s: Seq<char>) -> Seq<char> {
    trim_end_when(trim_start_when(s, |c: char| whitespace(c)), |c: char| whitespace(c))
}

/// A text without the dots at its end.
pub open spec fn without_trailing_dots(s: Seq<char>) -> Seq<char> {
    trim_end_when(s, |c: char| c == '.')
}

pub fn trim_text(s: &str) -> (r: String)
    ensures
        r@ == trimmed(s@),
{
    let v = chars_of(s);
    let ghost p = |c: char| whitespace(c);
    let mut from: usize = 0;
    assert(s@.skip(0) =~= s@);
    while from < v.len() && is_whitespace(v[from])
        invariant
            v@ == s@,
            from <= v@.len(),
            p == (|c: char| whitespace(c)),
            trim_start_when(s@, p) == trim_start_when(s@.skip(from as int), p),
        decreases v@.len() - from,
    {
        assert(s@.skip(from as int).drop_first() =~= s@.skip(from + 1));
        from += 1;
    }
    assert(trim_start_when(s@, p) == s@.skip(from as int));
    let mut to: usize = v.len();
    assert(s@.subrange(from as int, to as int) =~= s@.skip(from as int));
    while to > from && is_whitespace(v[to - 1])
        invariant
            v@ == s@,
            from <= to <= v@.len(),
            p == (|c: char| whitespace(c)),
            trim_end_when(s@.skip(from as int), p) == trim_end_when(
                s@.subrange(from as int, to as int),
                p,
            ),
        decreases to,
    {
        assert(s@.subrange(from as int, to as int).drop_last() =~= s@.subrange(from as int, to - 1));
        to -= 1;
    }
    assert(trim_end_when(s@.subrange(from as int, to as int), p) == s@.subrange(from as int, to as int));
    text_between(&v, from, to)
}

pub fn trim_trailing_dots(s: &str) -> (r: String)
    ensures
        r@ == without_trailing_dots(s@),
{
    let v = chars_of(s);
    let ghost p = |c: char| c == '.';
    let mut to: usize = v.len();
    assert(s@.take(to as int) =~= s@);
    while to > 0 && v[to - 1] == '.'
        invariant
            v@ == s@,
            to <= v@.len(),
            p == (|c: char| c == '.'),
            trim_end_when(s@, p) == trim_end_when(s@.take(to as int), p),
        decreases to,
    {
        assert(s@.take(to as int).drop_last() =~= s@.take(to - 1));
        to -= 1;
    }
    assert(trim_end_when(s@.take(to as int), p) == s@.take(to as int));
    assert(s@.subrange(0, to as int) =~= s@.take(to as int));
    text_between(&v, 0, to)
}

pub open spec fn lower_char(c: char) -> char {
    if 'A' <= c <= 'Z' {
        (c as u32 + 32) as char
    } else {
        c
    }
}

/// A text with the capital letters of ASCII made small.
pub open spec fn ascii_lower(s: Seq<char>) -> Seq<char> {
    s.map_values(|c: char| lower_char(c))
}

pub fn to_ascii_lower(s: &str) -> (r: String)
    ensures
        r@ == ascii_lower(s@),
{
    let v = chars_of(s);
    let mut out = String::new();
    let mut i: usize = 0;
    while i < v.len()
        invariant
            v@ == s@,
            i <= v@.len(),
            out@ == ascii_lower(s@.take(i as int)),
        decreases v@.len() - i,
    {
        let c = v[i];
        let low = if 'A' <= c && c <= 'Z' {
            ((c as u32 + 32) as u8) as char
        } else {
            c
        };
        assert(low == lower_char(c));
        out.push(low);
        assert(ascii_lower(s@.take(i + 1)) =~= ascii_lower(s@.take(i as int)).push(low));
        i += 1;
    }
    assert(s@.take(s@.len() as int) =~= s@);
    out
}

/// Whether two texts are the same but for the case of ASCII letters.
pub open spec fn same_ignoring_case(a: Seq<char>, b: Seq<char>) -> bool {
    ascii_lower(a) == ascii_lower(b)
}

pub fn is_same_ignoring_case(a: &str, b: &str) -> (r: bool)
    ensures
        r == same_ignoring_case(a@, b@),
{
    same_text(to_ascii_lower(a).as_str(), to_ascii_lower(b).as_str())
}

/// The value of a decimal digit.
pub open spec fn digit_value(c: char) -> int {
    c as u32 - 48
}

/// The number that a sequence of decimal digits denotes.
pub open spec fn number(s: Seq<char>) -> int
    decreases s.len(),
{
    if s.len() == 0 {
        0
    } else {
        number(s.drop_last()) * 10 + digit_value(s.last())
    }
}

pub open spec fn all_digits(s: Seq<char>) -> bool {
    forall|i: int| 0 <= i < s.len() ==> digit(#[trigger] s[i])
}

pub proof fn lemma_number_grows(s: Seq<char>, n: int)
    requires
        all_digits(s),
        0 <= n <= s.len(),
    ensures
        0 <= number(s.take(n)) <= number(s),
    decreases s.len(),
{
    if n == s.len() {
        assert(s.take(n) =~= s);
        if s.len() > 0 {
            lemma_number_grows(s.drop_last(), s.len() - 1);
            assert(s.drop_last().take(s.len() - 1) =~= s.drop_last());
            assert(digit(s.last()));
        }
    } else {
        lemma_number_grows(s.drop_last(), n);
        assert(s.drop_last().take(n) =~= s.take(n));
        assert(digit(s.last()));
    }
}

/// The number that a text of decimal digits denotes, where it holds nothing else and the number
/// is small enough.
pub open spec fn parsed_digits(s: Seq<char>, max: int) -> Option<int> {
    if s.len() > 0 && all_digits(s) && number(s) <= max {
        Some(number(s))
    } else {
        None
    }
}

/// Reads a number from text of at least one decimal digit and nothing else.
pub fn parse_digits(s: &str) -> (r: Option<u64>)
    ensures
        match r {
            Some(n) => parsed_digits(s@, u64::MAX as int) == Some(n as int),
            None => parsed_digits(s@, u64::MAX as int) is None,
        },
{
    let v = chars_of(s);
    if v.len() == 0 {
        return None;
    }
    if !every_char(s, is_digit, Ghost(|c: char| digit(c))) {
        return None;
    }
    let mut n: u64 = 0;
    let mut i: usize = 0;
    while i < v.len()
        invariant
            v@ == s@,
            all_digits(s@),
            i <= v@.len(),
            n == number(s@.take(i as int)),
        decreases v@.len() - i,
    {
        assert(digit(s@[i as int]));
        let d: u64 = (v[i] as u32 - 48) as u64;
        assert(s@.take(i + 1).drop_last() =~= s@.take(i as int));
        proof {
            lemma_number_grows(s@, i + 1);
        }
        if n > (u64::MAX - d) / 10 {
            return None;
        }
        n = n * 10 + d;
        i += 1;
    }
    assert(s@.take(s@.len() as int) =~= s@);
    Some(n)
}

/// The decimal digits of `n`, without leading zeros.
pub open spec fn decimal(n: nat) -> Seq<char>
    decreases n,
{
    if n < 10 {
        seq![digit_char(n)]
    } else {
        decimal(n / 10).push(digit_char(n % 10))
    }
}

pub open spec fn digit_char(d: nat) -> char {
    (48 + d) as char
}

/// Appends the decimal digits of `n`.
pub fn push_decimal(out: &mut String, n: u64)
    ensures
        final(out)@ == old(out)@ + decimal(n as nat),
    decreases n,
{
    if n >= 10 {
        push_decimal(out, n / 10);
    }
    let d: u8 = (n % 10) as u8;
    let c = (48 + d) as char;
    out.push(c);
    assert(c == digit_char((n % 10) as nat));
    proof {
        if n >= 10 {
            assert(old(out)@ + decimal(n as nat) =~= (old(out)@ + decimal((n / 10) as nat)).push(c));
        } else {
            assert(old(out)@ + decimal(n as nat) =~= old(out)@.push(c));
        }
    }
}

/// The decimal digits of `n`.
pub fn decimal_text(n: u64) -> (s: String)
    ensures
        s@ == decimal(n as nat),
{
    let mut s = String::new();
    push_decimal(&mut s, n);
    assert(Seq::<char>::empty() + decimal(n as nat) =~= decimal(n as nat));
    s
}

/// A number with its sign, where it is negative.
pub open spec fn signed(n: int) -> Seq<char> {
    if n < 0 {
        seq!['-'] + decimal((-n) as nat)
    } else {
        decimal(n as nat)
    }
}

pub fn push_signed(out: &mut String, n: i64)
    ensures
        final(out)@ == old(out)@ + signed(n as int),
{
    if n < 0 {
        out.push('-');
        let size: u64 = if n == i64::MIN {
            9223372036854775808
        } else {
            (-n) as u64
        };
        push_decimal(out, size);
        assert(out@ =~= old(out)@ + signed(n as int));
    } else {
        push_decimal(out, n as u64);
    }
}

/// A number is read back from its digits, which have no leading zero and nothing around them.
pub proof fn law_numbers_are_read_back(n: u64, s: String, text: &str, r: Option<u64>)
    requires
        call_ensures(decimal_text, (n,), s),
        text@ == s@,
        call_ensures(parse_digits, (text,), r),
    ensures
        r == Some(n),
        s@.len() >= 1,
        s@.len() > 1 ==> s@[0] != '0',
{
    lemma_decimal_reads(n as nat);
}

pub proof fn lemma_decimal_reads(n: nat)
    ensures
        all_digits(decimal(n)),
        number(decimal(n)) == n,
        decimal(n).len() >= 1,
        decimal(n).len() > 1 ==> decimal(n)[0] != '0' && n >= 10,
        n > 0 ==> decimal(n)[0] != '0',
    decreases n,
{
    if n < 10 {
        let s = decimal(n);
        assert(s.drop_last().len() == 0);
        assert(number(s.drop_last()) == 0);
        assert(digit(s[0]));
        assert(n > 0 ==> digit_char(n) as u32 > 48);
    } else {
        lemma_decimal_reads(n / 10);
        let s = decimal(n);
        assert(s.drop_last() =~= decimal(n / 10));
        assert(digit(digit_char(n % 10)));
        assert forall|i: int| 0 <= i < s.len() implies digit(#[trigger] s[i]) by {
            if i < s.len() - 1 {
                assert(s[i] == decimal(n / 10)[i]);
            }
        }
        assert(s[0] == decimal(n / 10)[0]);
    }
}

/// Text of digits is read in base ten: each further digit makes ten times the number before it and
/// itself. Anything but digits is no number, nor is nothing.
pub proof fn law_digits_are_read_in_base_ten(
    s: &str,
    longer: &str,
    d: char,
    r: Option<u64>,
    next: Option<u64>,
)
    requires
        call_ensures(parse_digits, (s,), r),
        call_ensures(parse_digits, (longer,), next),
        longer@ == s@.push(d),
        r is Some,
    ensures
        next matches Some(n) ==> '0' <= d <= '9' && n == 10 * r->0 + (d as u32 - '0' as u32),
        '0' <= d <= '9' && 10 * r->0 + (d as u32 - '0' as u32) <= u64::MAX ==> next is Some,
        !('0' <= d <= '9') ==> next is None,
{
    assert(longer@.drop_last() =~= s@);
    assert(longer@.last() == d);
    if '0' <= d <= '9' {
        assert forall|i: int| 0 <= i < longer@.len() implies digit(#[trigger] longer@[i]) by {
            if i < s@.len() {
                assert(longer@[i] == s@[i]);
                assert(digit(s@[i]));
            }
        }
    } else {
        assert(!digit(longer@[s@.len() as int]));
    }
}

/// One digit is its own number; no text at all is none.
pub proof fn law_one_digit_is_its_number(s: &str, r: Option<u64>)
    requires
        call_ensures(parse_digits, (s,), r),
    ensures
        s@.len() == 0 ==> r is None,
        s@.len() == 1 && '0' <= s@[0] <= '9' ==> r == Some((s@[0] as u32 - '0' as u32) as u64),
        (exists|i: int| 0 <= i < s@.len() && !('0' <= #[trigger] s@[i] <= '9')) ==> r is None,
{
    if s@.len() == 1 && '0' <= s@[0] <= '9' {
        assert(s@.drop_last().len() == 0);
        assert(number(s@.drop_last()) == 0);
        assert(digit(s@[0]));
    }
}

/// A negative number has a minus before the digits of its size.
pub proof fn law_negative_numbers_have_a_sign(out: &mut String, n: i64)
    requires
        call_ensures(push_signed, (out, n), ()),
    ensures
        n >= 0 ==> final(out)@ == old(out)@ + decimal(n as nat),
        n < 0 ==> final(out)@ == old(out)@.push('-') + decimal((-n) as nat),
{
    if n < 0 {
        assert(old(out)@ + (seq!['-'] + decimal((-n) as nat)) =~= old(out)@.push('-') + decimal(
            (-n) as nat,
        ));
    }
}

/// Trimming takes white space from both ends and nothing else: what is left stands in the text with
/// only white space before and after it, and has none at its own ends.
pub proof fn law_trimming_takes_only_white_space(s: &str, r: String)
    requires
        call_ensures(trim_text, (s,), r),
    ensures
        exists|from: int, to: int|
            0 <= from <= to <= s@.len() && r@ == #[trigger] s@.subrange(from, to) && (forall|i: int|
                0 <= i < from ==> whitespace(#[trigger] s@[i])) && (forall|i: int|
                to <= i < s@.len() ==> whitespace(#[trigger] s@[i])),
        r@.len() > 0 ==> !whitespace(r@[0]) && !whitespace(r@.last()),
{
    let p = |c: char| whitespace(c);
    let from = lemma_trim_start(s@, p);
    let rest = s@.skip(from);
    let to = lemma_trim_end(rest, p);
    assert(rest.take(to) =~= s@.subrange(from, from + to));
    assert forall|i: int| from + to <= i < s@.len() implies whitespace(#[trigger] s@[i]) by {
        assert(rest[i - from] == s@[i]);
        assert(p(rest[i - from]));
    }
    assert forall|i: int| 0 <= i < from implies whitespace(#[trigger] s@[i]) by {
        assert(p(s@[i]));
    }
    if r@.len() > 0 {
        assert(r@[0] == rest[0]);
        assert(!p(rest[0]));
        assert(!p(r@.last()));
    }
}

pub proof fn lemma_trim_start(s: Seq<char>, p: spec_fn(char) -> bool) -> (from: int)
    ensures
        0 <= from <= s.len(),
        trim_start_when(s, p) == s.skip(from),
        forall|i: int| 0 <= i < from ==> p(#[trigger] s[i]),
        from < s.len() ==> !p(s[from]),
    decreases s.len(),
{
    if s.len() > 0 && p(s[0]) {
        let rest = s.drop_first();
        let n = lemma_trim_start(rest, p);
        assert(rest.skip(n) =~= s.skip(n + 1));
        assert forall|i: int| 0 <= i < n + 1 implies p(#[trigger] s[i]) by {
            if i > 0 {
                assert(rest[i - 1] == s[i]);
                assert(p(rest[i - 1]));
            }
        }
        if n + 1 < s.len() {
            assert(rest[n] == s[n + 1]);
        }
        n + 1
    } else {
        assert(s.skip(0) =~= s);
        0
    }
}

pub proof fn lemma_trim_end(s: Seq<char>, p: spec_fn(char) -> bool) -> (to: int)
    ensures
        0 <= to <= s.len(),
        trim_end_when(s, p) == s.take(to),
        forall|i: int| to <= i < s.len() ==> p(#[trigger] s[i]),
        to > 0 ==> !p(s[to - 1]),
    decreases s.len(),
{
    if s.len() > 0 && p(s.last()) {
        let rest = s.drop_last();
        let n = lemma_trim_end(rest, p);
        assert(rest.take(n) =~= s.take(n));
        assert forall|i: int| n <= i < s.len() implies p(#[trigger] s[i]) by {
            if i < s.len() - 1 {
                assert(rest[i] == s[i]);
                assert(p(rest[i]));
            }
        }
        n
    } else {
        assert(s.take(s.len() as int) =~= s);
        s.len() as int
    }
}

/// Only the dots at the end are taken away, and all of them.
pub proof fn law_only_trailing_dots_go(s: &str, r: String)
    requires
        call_ensures(trim_trailing_dots, (s,), r),
    ensures
        r@.len() <= s@.len(),
        r@ == s@.take(r@.len() as int),
        forall|i: int| r@.len() <= i < s@.len() ==> #[trigger] s@[i] == '.',
        r@.len() > 0 ==> r@.last() != '.',
{
    let p = |c: char| c == '.';
    let to = lemma_trim_end(s@, p);
    assert(s@.take(to).len() == to);
    assert forall|i: int| to <= i < s@.len() implies #[trigger] s@[i] == '.' by {
        assert(p(s@[i]));
    }
    if to > 0 {
        assert(!p(s@[to - 1]));
    }
}

/// Making letters small changes the capital letters of ASCII, each to the small one thirty-two places
/// on, and nothing else.
pub proof fn law_only_capitals_become_small(s: &str, r: String, i: int)
    requires
        call_ensures(to_ascii_lower, (s,), r),
        0 <= i < s@.len(),
    ensures
        r@.len() == s@.len(),
        'A' <= s@[i] <= 'Z' ==> r@[i] as u32 == s@[i] as u32 + 32 && 'a' <= r@[i] <= 'z',
        !('A' <= s@[i] <= 'Z') ==> r@[i] == s@[i],
{
}

/// Two texts are the same but for their case exactly when each character of the one is that of the
/// other or its small or capital form.
pub proof fn law_case_is_ignored_by_the_letter(a: &str, b: &str, r: bool)
    requires
        call_ensures(is_same_ignoring_case, (a, b), r),
    ensures
        r <==> a@.len() == b@.len() && forall|i: int|
            0 <= i < a@.len() ==> {
                ||| #[trigger] a@[i] == b@[i]
                ||| 'A' <= a@[i] <= 'Z' && b@[i] as u32 == a@[i] as u32 + 32
                ||| 'A' <= b@[i] <= 'Z' && a@[i] as u32 == b@[i] as u32 + 32
            },
{
    let x = ascii_lower(a@);
    let y = ascii_lower(b@);
    if r {
        assert(x.len() == y.len());
        assert forall|i: int| 0 <= i < a@.len() implies {
            ||| #[trigger] a@[i] == b@[i]
            ||| 'A' <= a@[i] <= 'Z' && b@[i] as u32 == a@[i] as u32 + 32
            ||| 'A' <= b@[i] <= 'Z' && a@[i] as u32 == b@[i] as u32 + 32
        } by {
            assert(x[i] == y[i]);
        }
    }
    if a@.len() == b@.len() && (forall|i: int|
        0 <= i < a@.len() ==> {
            ||| #[trigger] a@[i] == b@[i]
            ||| 'A' <= a@[i] <= 'Z' && b@[i] as u32 == a@[i] as u32 + 32
            ||| 'A' <= b@[i] <= 'Z' && a@[i] as u32 == b@[i] as u32 + 32
        }) {
        assert forall|i: int| 0 <= i < x.len() implies x[i] == y[i] by {
            assert(a@[i] == b@[i] || a@[i] != b@[i]);
        }
        assert(x =~= y);
    }
}

/// A text is cut at the characters that are picked out and nowhere else: one without them is one
/// piece, and one of them parts the pieces before it from those after it.
pub proof fn law_a_text_is_cut_where_it_is_picked_out(
    a: Seq<char>,
    c: char,
    b: Seq<char>,
    p: spec_fn(char) -> bool,
)
    ensures
        (forall|i: int| 0 <= i < a.len() ==> !p(#[trigger] a[i])) ==> split_when(a, p) == seq![a],
        p(c) ==> split_when(a.push(c) + b, p) == split_when(a, p) + split_when(b, p),
    decreases b.len(), a.len(),
{
    if forall|i: int| 0 <= i < a.len() ==> !p(#[trigger] a[i]) {
        lemma_one_piece(a, p);
    }
    if p(c) {
        lemma_cut(a, c, b, p);
    }
}

proof fn lemma_one_piece(a: Seq<char>, p: spec_fn(char) -> bool)
    requires
        forall|i: int| 0 <= i < a.len() ==> !p(#[trigger] a[i]),
    ensures
        split_when(a, p) == seq![a],
    decreases a.len(),
{
    if a.len() > 0 {
        let shorter = a.drop_last();
        assert forall|i: int| 0 <= i < shorter.len() implies !p(#[trigger] shorter[i]) by {
            assert(shorter[i] == a[i]);
        }
        lemma_one_piece(shorter, p);
        assert(!p(a[a.len() - 1]));
        assert(shorter.push(a.last()) =~= a);
        assert(split_when(a, p) =~= seq![a]);
    } else {
        assert(a =~= Seq::<char>::empty());
    }
}

proof fn lemma_cut(a: Seq<char>, c: char, b: Seq<char>, p: spec_fn(char) -> bool)
    requires
        p(c),
    ensures
        split_when(a.push(c) + b, p) == split_when(a, p) + split_when(b, p),
    decreases b.len(),
{
    let whole = a.push(c) + b;
    if b.len() == 0 {
        assert(whole =~= a.push(c));
        assert(whole.drop_last() =~= a);
        assert(split_when(whole, p) =~= split_when(a, p) + split_when(b, p));
    } else {
        let shorter = b.drop_last();
        lemma_cut(a, c, shorter, p);
        assert(whole.drop_last() =~= a.push(c) + shorter);
        assert(whole.last() == b.last());
        lemma_split_when_nonempty(shorter, p);
        assert(split_when(whole, p) =~= split_when(a, p) + split_when(b, p));
    }
}

/// The white space of ASCII is the space and what is from the tab to the carriage return; its control
/// characters are those below the space and the delete character.
pub proof fn law_the_white_space_of_ascii(c: char, white: bool, controls: bool)
    requires
        call_ensures(is_whitespace, (c,), white),
        call_ensures(is_control, (c,), controls),
        (c as u32) < 128,
    ensures
        white <==> c == ' ' || '\t' <= c <= '\r',
        controls <==> c < ' ' || c as u32 == 127,
{
}

/// Texts are the same exactly when they hold the same characters in the same order.
pub proof fn law_same_texts_hold_the_same(a: &str, b: &str, r: bool)
    requires
        call_ensures(same_text, (a, b), r),
    ensures
        r <==> a@.len() == b@.len() && forall|i: int| 0 <= i < a@.len() ==> #[trigger] a@[i] == b@[i],
{
    if a@.len() == b@.len() && forall|i: int| 0 <= i < a@.len() ==> #[trigger] a@[i] == b@[i] {
        assert(a@ =~= b@);
    }
}

/// The characters of a kind are those of their ranges.
pub proof fn law_digits_and_letters_are_their_ranges(c: char, d: bool, a: bool, h: bool)
    requires
        call_ensures(is_digit, (c,), d),
        call_ensures(is_ascii_alphanumeric, (c,), a),
        call_ensures(is_hex_digit, (c,), h),
    ensures
        d <==> 0x30 <= c as u32 <= 0x39,
        a <==> d || 0x41 <= c as u32 <= 0x5a || 0x61 <= c as u32 <= 0x7a,
        h <==> d || 0x41 <= c as u32 <= 0x46 || 0x61 <= c as u32 <= 0x66,
{
}

/// A text that is not there is the same as none.
pub proof fn law_a_missing_text_is_the_same_as_none(a: Option<String>, b: &str, r: bool)
    requires
        call_ensures(same_optional, (&a, b), r),
    ensures
        a is None ==> !r,
        a matches Some(text) ==> (r <==> text@ == b@),
{
}

} // verus!
