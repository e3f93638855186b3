//! How addresses are written.
use vstd::prelude::*;
use vstd::string::*;

use crate::domain::IpAddr;
use crate::ids::hex_char;
use crate::strings::{decimal, push_decimal};

verus! {

/// The hexadecimal digits of `n`, without leading zeros.
pub open spec fn hexadecimal(n: nat) -> Seq<char>
    decreases n,
{
    if n < 16 {
        seq![hex_char(n as int)]
    } else {
        hexadecimal(n / 16).push(hex_char((n % 16) as int))
    }
}

fn push_hexadecimal(out: &mut String, n: u16)
    ensures
        final(out)@ == old(out)@ + hexadecimal(n as nat),
    decreases n,
{
    if n >= 16 {
        push_hexadecimal(out, n / 16);
    }
    let d: u8 = (n % 16) as u8;
    let c = if d < 10 {
        (48 + d) as char
    } else {
        (87 + d) as char
    };
    out.push(c);
    assert(c == hex_char((n % 16) as int));
    proof {
        if n >= 16 {
            assert(old(out)@ + hexadecimal(n as nat) =~= (old(out)@ + hexadecimal((n / 16) as nat)).push(
                c,
            ));
        } else {
            assert(old(out)@ + hexadecimal(n as nat) =~= old(out)@.push(c));
        }
    }
}

pub open spec fn ipv4_text(a: u8, b: u8, c: u8, d: u8) -> Seq<char> {
    decimal(a as nat) + "."@ + decimal(b as nat) + "."@ + decimal(c as nat) + "."@ + decimal(d as nat)
}

/// How many groups from `i` on are zero without a break.
pub open spec fn zeros_from(groups: Seq<u16>, i: int) -> int
    decreases groups.len() - i,
{
    if 0 <= i < groups.len() && groups[i] == 0 {
        1 + zeros_from(groups, i + 1)
    } else {
        0
    }
}

/// The place, from `i` on, where the longest run of zeros begins; the first, where several are
/// longest.
pub open spec fn longest_zeros(groups: Seq<u16>, i: int) -> int
    decreases groups.len() - i,
{
    if i + 1 >= groups.len() {
        i
    } else {
        let later = longest_zeros(groups, i + 1);
        if zeros_from(groups, later) > zeros_from(groups, i) {
            later
        } else {
            i
        }
    }
}

/// Groups in hexadecimal with colons between them.
pub open spec fn colon_groups(groups: Seq<u16>) -> Seq<char>
    decreases groups.len(),
{
    if groups.len() == 0 {
        Seq::empty()
    } else if groups.len() == 1 {
        hexadecimal(groups[0] as nat)
    } else {
        colon_groups(groups.drop_last()) + ":"@ + hexadecimal(groups.last() as nat)
    }
}

/// An address of eight groups: an address that stands for one of four bytes ends with these, and
/// the longest run of two or more zeros is left out.
pub open spec fn ipv6_text(groups: Seq<u16>) -> Seq<char> {
    let start = longest_zeros(groups, 0);
    let count = zeros_from(groups, start);
    if groups.take(5) == seq![0u16, 0, 0, 0, 0] && groups[5] == 0xffff {
        "::ffff:"@ + ipv4_text(
            (groups[6] / 256) as u8,
            (groups[6] % 256) as u8,
            (groups[7] / 256) as u8,
            (groups[7] % 256) as u8,
        )
    } else if count > 1 {
        colon_groups(groups.take(start)) + "::"@ + colon_groups(groups.skip(start + count))
    } else {
        colon_groups(groups)
    }
}

pub open spec fn ip_text(address: IpAddr) -> Seq<char> {
    match address {
        IpAddr::V4(a, b, c, d) => ipv4_text(a, b, c, d),
        IpAddr::V6(a, b, c, d, e, f, g, h) => ipv6_text(seq![a, b, c, d, e, f, g, h]),
    }
}

fn push_ipv4(out: &mut String, a: u8, b: u8, c: u8, d: u8)
    ensures
        final(out)@ == old(out)@ + ipv4_text(a, b, c, d),
{
    push_decimal(out, a as u64);
    out.append(".");
    push_decimal(out, b as u64);
    out.append(".");
    push_decimal(out, c as u64);
    out.append(".");
    push_decimal(out, d as u64);
    assert(out@ =~= old(out)@ + ipv4_text(a, b, c, d));
}

fn count_zeros(groups: &Vec<u16>, i: usize) -> (r: usize)
    requires
        i <= groups@.len(),
    ensures
        r == zeros_from(groups@, i as int),
        i + r <= groups@.len(),
    decreases groups@.len() - i,
{
    if i < groups.len() && groups[i] == 0 {
        1 + count_zeros(groups, i + 1)
    } else {
        0
    }
}

fn find_longest_zeros(groups: &Vec<u16>, i: usize) -> (r: usize)
    requires
        i < groups@.len(),
    ensures
        r == longest_zeros(groups@, i as int),
        i <= r < groups@.len(),
    decreases groups@.len() - i,
{
    if groups.len() - i <= 1 {
        i
    } else {
        let later: usize = find_longest_zeros(groups, i + 1);
        if count_zeros(groups, later) > count_zeros(groups, i) {
            later
        } else {
            i
        }
    }
}

fn push_groups(out: &mut String, groups: &Vec<u16>, from: usize, to: usize)
    requires
        from <= to <= groups@.len(),
    ensures
        final(out)@ == old(out)@ + colon_groups(groups@.subrange(from as int, to as int)),
{
    let mut i: usize = from;
    assert(out@ =~= old(out)@ + colon_groups(groups@.subrange(from as int, from as int)));
    while i < to
        invariant
            from <= i <= to <= groups@.len(),
            out@ == old(out)@ + colon_groups(groups@.subrange(from as int, i as int)),
        decreases to - i,
    {
        let ghost before = groups@.subrange(from as int, i as int);
        let ghost now = groups@.subrange(from as int, i + 1);
        assert(now.drop_last() =~= before);
        if i > from {
            out.append(":");
        }
        push_hexadecimal(out, groups[i]);
        assert(out@ =~= old(out)@ + colon_groups(now));
        i += 1;
    }
}

fn push_ipv6(out: &mut String, groups: &Vec<u16>)
    requires
        groups@.len() == 8,
    ensures
        final(out)@ == old(out)@ + ipv6_text(groups@),
{
    assert((groups@.take(5) == seq![0u16, 0, 0, 0, 0]) == (groups@[0] == 0 && groups@[1] == 0
        && groups@[2] == 0 && groups@[3] == 0 && groups@[4] == 0)) by {
        if groups@.take(5) == seq![0u16, 0, 0, 0, 0] {
            assert(forall|i: int| 0 <= i < 5 ==> groups@.take(5)[i] == #[trigger] groups@[i]);
        } else if groups@[0] == 0 && groups@[1] == 0 && groups@[2] == 0 && groups@[3] == 0
            && groups@[4] == 0 {
            assert(groups@.take(5) =~= seq![0u16, 0, 0, 0, 0]);
        }
    }
    if groups[0] == 0 && groups[1] == 0 && groups[2] == 0 && groups[3] == 0 && groups[4] == 0
        && groups[5] == 0xffff {
        out.append("::ffff:");
        push_ipv4(
            out,
            (groups[6] / 256) as u8,
            (groups[6] % 256) as u8,
            (groups[7] / 256) as u8,
            (groups[7] % 256) as u8,
        );
        assert(out@ =~= old(out)@ + ipv6_text(groups@));
        return;
    }
    let start: usize = find_longest_zeros(groups, 0);
    let count: usize = count_zeros(groups, start);
    if count > 1 {
        push_groups(out, groups, 0, start);
        out.append("::");
        push_groups(out, groups, start + count, 8);
        assert(groups@.subrange(0, start as int) =~= groups@.take(start as int));
        assert(groups@.subrange(start + count, 8) =~= groups@.skip(start + count));
        assert(out@ =~= old(out)@ + ipv6_text(groups@));
    } else {
        push_groups(out, groups, 0, 8);
        assert(groups@.subrange(0, 8) =~= groups@);
    }
}

/// The address as text.
pub fn address_text(address: IpAddr) -> (r: String)
    ensures
        r@ == ip_text(address),
{
    let mut out = String::new();
    match address {
        IpAddr::V4(a, b, c, d) => {
            push_ipv4(&mut out, a, b, c, d);
        },
        IpAddr::V6(a, b, c, d, e, f, g, h) => {
            let groups: Vec<u16> = vec![a, b, c, d, e, f, g, h];
            assert(groups@ =~= seq![a, b, c, d, e, f, g, h]);
            push_ipv6(&mut out, &groups);
        },
    }
    assert(Seq::<char>::empty() + ip_text(address) =~= ip_text(address));
    out
}

/// An address of four bytes is these in decimal with dots between them.
pub proof fn law_four_bytes_have_dots_between_them(a: u8, b: u8, c: u8, d: u8, r: String)
    requires
        call_ensures(address_text, (IpAddr::V4(a, b, c, d),), r),
    ensures
        r@ == decimal(a as nat) + "."@ + decimal(b as nat) + "."@ + decimal(c as nat) + "."@ + decimal(
            d as nat,
        ),
{
}

/// A group is written in hexadecimal, without leading zeros: its last digit is the remainder by
/// sixteen, and what is before it is the group without it.
pub proof fn law_groups_are_hexadecimal(n: nat)
    ensures
        n < 10 ==> hexadecimal(n).len() == 1 && hexadecimal(n)[0] as u32 == '0' as u32 + n,
        10 <= n < 16 ==> hexadecimal(n).len() == 1 && hexadecimal(n)[0] as u32 == 'a' as u32 + (n - 10),
        n >= 16 ==> hexadecimal(n) == hexadecimal(n / 16) + hexadecimal(n % 16),
        n > 0 ==> hexadecimal(n)[0] != '0',
    decreases n,
{
    if n >= 16 {
        law_groups_are_hexadecimal(n / 16);
        assert(hexadecimal(n) =~= hexadecimal(n / 16) + hexadecimal(n % 16));
        assert(hexadecimal(n / 16).len() > 0) by {
            if n / 16 >= 16 {
                assert(hexadecimal(n / 16) == hexadecimal(n / 16 / 16).push(
                    hex_char((n / 16 % 16) as int),
                ));
            }
        }
        assert(hexadecimal(n)[0] == hexadecimal(n / 16)[0]);
    }
}

/// Groups have colons between them: one is itself, and each further one adds a colon and itself.
pub proof fn law_colons_stand_between_groups(groups: Seq<u16>, next: u16)
    ensures
        colon_groups(seq![next]) == hexadecimal(next as nat),
        groups.len() > 0 ==> colon_groups(groups.push(next)) == colon_groups(groups) + ":"@
            + hexadecimal(next as nat),
{
    if groups.len() > 0 {
        assert(groups.push(next).drop_last() =~= groups);
    }
}

proof fn lemma_zeros_from(groups: Seq<u16>, i: int)
    requires
        0 <= i <= groups.len(),
    ensures
        0 <= zeros_from(groups, i) <= groups.len() - i,
        forall|m: int| i <= m < i + zeros_from(groups, i) ==> #[trigger] groups[m] == 0,
        i + zeros_from(groups, i) < groups.len() ==> groups[i + zeros_from(groups, i)] != 0,
    decreases groups.len() - i,
{
    if i < groups.len() && groups[i] == 0 {
        lemma_zeros_from(groups, i + 1);
    }
}

proof fn lemma_longest_zeros(groups: Seq<u16>, i: int)
    requires
        0 <= i < groups.len(),
    ensures
        i <= longest_zeros(groups, i) < groups.len(),
        forall|j: int|
            i <= j < groups.len() ==> #[trigger] zeros_from(groups, j) <= zeros_from(
                groups,
                longest_zeros(groups, i),
            ),
        forall|j: int|
            i <= j < longest_zeros(groups, i) ==> #[trigger] zeros_from(groups, j) < zeros_from(
                groups,
                longest_zeros(groups, i),
            ),
    decreases groups.len() - i,
{
    if i + 1 < groups.len() {
        lemma_longest_zeros(groups, i + 1);
    }
}

/// Of an address of eight groups the first longest run of zeros is left out for two colons, where it
/// has two or more; the groups around it stand in their order.
pub proof fn law_the_first_longest_run_of_zeros_is_left_out(
    address: IpAddr,
    groups: Seq<u16>,
    start: int,
    count: int,
    r: String,
)
    requires
        call_ensures(address_text, (address,), r),
        address matches IpAddr::V6(a, b, c, d, e, f, g, h) && groups == seq![a, b, c, d, e, f, g, h],
        !(groups[0] == 0 && groups[1] == 0 && groups[2] == 0 && groups[3] == 0 && groups[4] == 0
            && groups[5] == 0xffff),
        0 <= start,
        2 <= count,
        start + count <= 8,
        forall|m: int| start <= m < start + count ==> #[trigger] groups[m] == 0,
        start + count < 8 ==> groups[start + count] != 0,
        forall|j: int| 0 <= j < start ==> #[trigger] holds_another(groups, j, count),
        forall|j: int| 0 <= j && j + count < 8 ==> #[trigger] holds_another(groups, j, count + 1),
    ensures
        r@ == colon_groups(groups.take(start)) + "::"@ + colon_groups(groups.skip(start + count)),
{
    let best = longest_zeros(groups, 0);
    lemma_longest_zeros(groups, 0);
    lemma_zeros_from(groups, start);
    lemma_zeros_from(groups, best);
    assert(zeros_from(groups, start) == count) by {
        let n = zeros_from(groups, start);
        if n < count {
            assert(groups[start + n] == 0);
        } else if n > count {
            assert(groups[start + count] == 0);
        }
    }
    let n = zeros_from(groups, best);
    assert(n >= count);
    if n > count {
        assert(best + count < 8);
        assert(holds_another(groups, best, count + 1));
    }
    if best < start {
        assert(holds_another(groups, best, count));
    }
    assert(best == start);
    assert(groups.take(5) != seq![0u16, 0, 0, 0, 0] || groups[5] != 0xffff) by {
        if groups.take(5) == seq![0u16, 0, 0, 0, 0] {
            assert(forall|i: int| 0 <= i < 5 ==> groups.take(5)[i] == #[trigger] groups[i]);
        }
    }
}

/// Whether one of the groups from a place on, as many as are there of so many, is not zero.
pub open spec fn holds_another(groups: Seq<u16>, from: int, count: int) -> bool {
    exists|m: int| from <= m < from + count && m < groups.len() && #[trigger] groups[m] != 0
}

/// An address without two zeros in a row is all its eight groups.
pub proof fn law_without_a_run_of_zeros_all_groups_are_written(
    address: IpAddr,
    groups: Seq<u16>,
    r: String,
)
    requires
        call_ensures(address_text, (address,), r),
        address matches IpAddr::V6(a, b, c, d, e, f, g, h) && groups == seq![a, b, c, d, e, f, g, h],
        forall|m: int| 0 <= m < 7 ==> #[trigger] groups[m] != 0 || groups[m + 1] != 0,
    ensures
        r@ == colon_groups(groups),
{
    let best = longest_zeros(groups, 0);
    lemma_longest_zeros(groups, 0);
    lemma_zeros_from(groups, best);
    if zeros_from(groups, best) > 1 {
        assert(groups[best] == 0 && groups[best + 1] == 0);
    }
    assert(groups[0] != 0 || groups[1] != 0);
    assert(groups.take(5) != seq![0u16, 0, 0, 0, 0]) by {
        if groups.take(5) == seq![0u16, 0, 0, 0, 0] {
            assert(groups.take(5)[0] == groups[0] && groups.take(5)[1] == groups[1]);
        }
    }
}

/// An address that stands for one of four bytes ends with these.
pub proof fn law_a_mapped_address_ends_with_its_bytes(
    a: u8,
    b: u8,
    c: u8,
    d: u8,
    high: u16,
    low: u16,
    r: String,
)
    requires
        high == 256 * a + b,
        low == 256 * c + d,
        call_ensures(address_text, (IpAddr::V6(0, 0, 0, 0, 0, 0xffff, high, low),), r),
    ensures
        r@ == "::ffff:"@ + (decimal(a as nat) + "."@ + decimal(b as nat) + "."@ + decimal(c as nat) + "."@
            + decimal(d as nat)),
{
    let groups = seq![0u16, 0, 0, 0, 0, 0xffff, high, low];
    assert(groups.take(5) =~= seq![0u16, 0, 0, 0, 0]);
}

} // verus!
