//! Internet addresses in text form.

use crate::outside;
use crate::routes;
use crate::text;
use vstd::prelude::*;

verus! {

/// An address: four octets, or eight groups of sixteen bits.
#[derive(Debug)]
pub enum IpAddr {
    V4(Vec<u8>),
    V6(Vec<u16>),
}

#[verifier::ext_equal]
pub enum IpAddrView {
    V4(Seq<u8>),
    V6(Seq<u16>),
}

impl DeepView for IpAddr {
    type V = IpAddrView;

    open spec fn deep_view(&self) -> IpAddrView {
        match self {
            IpAddr::V4(o) => IpAddrView::V4(o@),
            IpAddr::V6(g) => IpAddrView::V6(g@),
        }
    }
}

/// A decimal number of up to three digits, at most 255, without leading zeros.
pub open spec fn octet_of(s: Seq<char>) -> Option<u8> {
    if 1 <= s.len() <= 3 && text::all_digits(s) && (s.len() > 1 ==> s[0] != '0')
        && text::value_of(s) <= 255 {
        Some(text::value_of(s) as u8)
    } else {
        None
    }
}

fn parse_octet(s: &str) -> (r: Option<u8>)
    ensures
        r == octet_of(s@),
{
    let x = text::chars_of(s);
    if x.len() < 1 || x.len() > 3 {
        return None;
    }
    let mut v: u32 = 0;
    let mut i: usize = 0;
    while i < x.len()
        invariant
            x@ == s@,
            i <= x@.len(),
            1 <= x@.len() <= 3,
            text::all_digits(s@.take(i as int)),
            v == text::value_of(s@.take(i as int)),
            i == 0 ==> v == 0,
            i == 1 ==> v <= 9,
            i == 2 ==> v <= 99,
            i == 3 ==> v <= 999,
        decreases x@.len() - i,
    {
        let c = x[i];
        if c < '0' || c > '9' {
            assert(!text::is_digit_char(s@[i as int]));
            return None;
        }
        assert(s@.take(i + 1).drop_last() =~= s@.take(i as int));
        v = v * 10 + ((c as u32) - 48);
        i = i + 1;
    }
    assert(s@.take(i as int) =~= s@);
    if x.len() > 1 && x[0] == '0' {
        return None;
    }
    if v > 255 {
        return None;
    }
    Some(v as u8)
}

/// Four octets with dots between them.
pub open spec fn ipv4_of(s: Seq<char>) -> Option<Seq<u8>> {
    let parts = text::split_of(s, '.');
    if parts.len() == 4 && octet_of(parts[0]) is Some && octet_of(parts[1]) is Some && octet_of(
        parts[2],
    ) is Some && octet_of(parts[3]) is Some {
        Some(
            seq![
                octet_of(parts[0])->0,
                octet_of(parts[1])->0,
                octet_of(parts[2])->0,
                octet_of(parts[3])->0,
            ],
        )
    } else {
        None
    }
}

pub fn parse_ipv4(s: &str) -> (r: Option<Vec<u8>>)
    ensures
        r.deep_view() == ipv4_of(s@),
        r is Some ==> r->0@ == ipv4_of(s@)->0 && r->0@.len() == 4,
{
    let parts = text::split(s, '.');
    let ghost all = parts.deep_view();
    if parts.len() != 4 {
        return None;
    }
    assert(all[0] == parts@[0]@ && all[1] == parts@[1]@ && all[2] == parts@[2]@ && all[3]
        == parts@[3]@);
    match (
        parse_octet(parts[0].as_str()),
        parse_octet(parts[1].as_str()),
        parse_octet(parts[2].as_str()),
        parse_octet(parts[3].as_str()),
    ) {
        (Some(a), Some(b), Some(c), Some(d)) => {
            let mut out: Vec<u8> = Vec::new();
            out.push(a);
            out.push(b);
            out.push(c);
            out.push(d);
            assert(out@ =~= ipv4_of(s@)->0);
            assert(out.deep_view() =~= out@);
            Some(out)
        },
        _ => None,
    }
}

/// The value of a hexadecimal digit.
pub open spec fn hex_value(c: char) -> int {
    if '0' <= c && c <= '9' {
        c as u32 - 48
    } else if 'a' <= c && c <= 'f' {
        c as u32 - 87
    } else {
        c as u32 - 55
    }
}

/// The number that hexadecimal digits write.
pub open spec fn hex_number(s: Seq<char>) -> int
    decreases s.len(),
{
    if s.len() == 0 {
        0
    } else {
        hex_number(s.drop_last()) * 16 + hex_value(s.last())
    }
}

/// One to four hexadecimal digits.
pub open spec fn group_of(s: Seq<char>) -> Option<u16> {
    if 1 <= s.len() <= 4 && routes::all_hex(s) {
        Some(hex_number(s) as u16)
    } else {
        None
    }
}

fn parse_group(s: &str) -> (r: Option<u16>)
    ensures
        r == group_of(s@),
{
    let x = text::chars_of(s);
    if x.len() < 1 || x.len() > 4 {
        return None;
    }
    let mut v: u32 = 0;
    let mut i: usize = 0;
    while i < x.len()
        invariant
            x@ == s@,
            i <= x@.len(),
            1 <= x@.len() <= 4,
            routes::all_hex(s@.take(i as int)),
            v == hex_number(s@.take(i as int)),
            i == 0 ==> v == 0,
            i == 1 ==> v <= 0xf,
            i == 2 ==> v <= 0xff,
            i == 3 ==> v <= 0xfff,
            i == 4 ==> v <= 0xffff,
        decreases x@.len() - i,
    {
        let c = x[i];
        let d: u32 = if '0' <= c && c <= '9' {
            (c as u32) - 48
        } else if 'a' <= c && c <= 'f' {
            (c as u32) - 87
        } else if 'A' <= c && c <= 'F' {
            (c as u32) - 55
        } else {
            assert(!routes::is_hex_char(s@[i as int]));
            return None;
        };
        assert(s@.take(i + 1).drop_last() =~= s@.take(i as int));
        v = v * 16 + d;
        i = i + 1;
    }
    assert(s@.take(i as int) =~= s@);
    Some(v as u16)
}

/// Two octets as one group.
pub open spec fn joined_octets(a: u8, b: u8) -> u16 {
    (a * 256 + b) as u16
}

/// The groups that one part of an address stands for: one group or, where it may, the two groups of
/// an address of four octets.
pub open spec fn part_groups(part: Seq<char>, v4_allowed: bool) -> Option<Seq<u16>> {
    match group_of(part) {
        Some(g) => Some(seq![g]),
        None => if v4_allowed && ipv4_of(part) is Some {
            let o = ipv4_of(part)->0;
            Some(seq![joined_octets(o[0], o[1]), joined_octets(o[2], o[3])])
        } else {
            None
        },
    }
}

/// The groups of some parts; only the last may be an address of four octets.
pub open spec fn parts_groups(parts: Seq<Seq<char>>, v4_allowed: bool) -> Option<Seq<u16>>
    decreases parts.len(),
{
    if parts.len() == 0 {
        Some(Seq::empty())
    } else {
        match (parts_groups(parts.drop_last(), false), part_groups(parts.last(), v4_allowed)) {
            (Some(before), Some(last)) => Some(before + last),
            _ => None,
        }
    }
}

/// The groups of one side of an address; an empty side has none.
pub open spec fn side_groups(s: Seq<char>, v4_allowed: bool) -> Option<Seq<u16>> {
    if s.len() == 0 {
        Some(Seq::empty())
    } else {
        parts_groups(text::split_of(s, ':'), v4_allowed)
    }
}

fn parse_part(part: &str, v4_allowed: bool) -> (r: Option<Vec<u16>>)
    ensures
        r is Some == part_groups(part@, v4_allowed) is Some,
        r is Some ==> r->0@ == part_groups(part@, v4_allowed)->0 && r->0@.len() <= 2,
{
    let mut out: Vec<u16> = Vec::new();
    match parse_group(part) {
        Some(g) => {
            out.push(g);
            assert(out@ =~= seq![g]);
            Some(out)
        },
        None => {
            if !v4_allowed {
                return None;
            }
            match parse_ipv4(part) {
                Some(o) => {
                    out.push(o[0] as u16 * 256 + o[1] as u16);
                    out.push(o[2] as u16 * 256 + o[3] as u16);
                    assert(out@ =~= part_groups(part@, true)->0);
                    Some(out)
                },
                None => None,
            }
        },
    }
}

fn parse_side(s: &str, v4_allowed: bool) -> (r: Option<Vec<u16>>)
    ensures
        r is Some == side_groups(s@, v4_allowed) is Some,
        r is Some ==> r->0@ == side_groups(s@, v4_allowed)->0,
{
    let mut out: Vec<u16> = Vec::new();
    if s.is_empty() {
        assert(out@ =~= Seq::empty());
        return Some(out);
    }
    let parts = text::split(s, ':');
    let ghost all = parts.deep_view();
    proof {
        text::lemma_split_parts(s@, ':');
    }
    let n = parts.len();
    let mut i: usize = 0;
    assert(all.take(0) =~= Seq::empty());
    assert(out@ =~= Seq::empty());
    while i < n
        invariant
            i <= n,
            n == parts@.len(),
            n > 0,
            s@.len() > 0,
            all == parts.deep_view(),
            all == text::split_of(s@, ':'),
            i < n ==> parts_groups(all.take(i as int), false) == Some(out@),
            i == n ==> parts_groups(all, v4_allowed) == Some(out@),
        decreases n - i,
    {
        let last = i + 1 == n;
        assert(all[i as int] == parts@[i as int]@);
        assert(all.take(i + 1).drop_last() =~= all.take(i as int));
        assert(last ==> all.take(i + 1) =~= all);
        match parse_part(parts[i].as_str(), last && v4_allowed) {
            Some(more) => {
                let ghost before = out@;
                let mut j: usize = 0;
                while j < more.len()
                    invariant
                        j <= more@.len(),
                        out@ == before + more@.take(j as int),
                    decreases more@.len() - j,
                {
                    out.push(more[j]);
                    j = j + 1;
                    assert(out@ =~= before + more@.take(j as int));
                }
                assert(more@.take(j as int) =~= more@);
                i = i + 1;
            },
            None => {
                proof {
                    lemma_bad_part(all, i as int, v4_allowed);
                }
                return None;
            },
        }
    }
    Some(out)
}

proof fn lemma_bad_part(parts: Seq<Seq<char>>, i: int, v4_allowed: bool)
    requires
        0 <= i < parts.len(),
        part_groups(parts[i], i + 1 == parts.len() && v4_allowed) is None,
    ensures
        parts_groups(parts, v4_allowed) is None,
    decreases parts.len(),
{
    if i < parts.len() - 1 {
        let d = parts.drop_last();
        assert(d[i] == parts[i]);
        lemma_bad_part(d, i, false);
    }
}

/// The position of the first double colon at or after a position.
pub open spec fn double_colon(s: Seq<char>, from: int) -> Option<int>
    decreases s.len() - from,
{
    if from < 0 || from + 1 >= s.len() {
        None
    } else if s[from] == ':' && s[from + 1] == ':' {
        Some(from)
    } else {
        double_colon(s, from + 1)
    }
}

/// The groups of an address: eight of them, or fewer around a double colon that stands for zeros.
pub open spec fn ipv6_of(s: Seq<char>) -> Option<Seq<u16>> {
    match double_colon(s, 0) {
        None => match side_groups(s, true) {
            Some(g) => if g.len() == 8 {
                Some(g)
            } else {
                None
            },
            None => None,
        },
        Some(at) => match (side_groups(s.take(at), false), side_groups(s.skip(at + 2), true)) {
            (Some(a), Some(b)) => if a.len() + b.len() <= 7 {
                Some(a + Seq::new((8 - a.len() - b.len()) as nat, |i: int| 0u16) + b)
            } else {
                None
            },
            _ => None,
        },
    }
}

fn find_double_colon(x: &Vec<char>) -> (r: Option<usize>)
    ensures
        match r {
            Some(at) => double_colon(x@, 0) == Some(at as int) && at + 2 <= x@.len(),
            None => double_colon(x@, 0) is None,
        },
{
    let n = x.len();
    if n < 2 {
        return None;
    }
    let mut i: usize = 0;
    while i < n - 1
        invariant
            2 <= n == x@.len(),
            i <= n - 1,
            double_colon(x@, 0) == double_colon(x@, i as int),
        decreases n - i,
    {
        if x[i] == ':' && x[i + 1] == ':' {
            return Some(i);
        }
        i = i + 1;
    }
    None
}

pub fn parse_ipv6(s: &str) -> (r: Option<Vec<u16>>)
    ensures
        r is Some == ipv6_of(s@) is Some,
        r is Some ==> r->0@ == ipv6_of(s@)->0 && r->0@.len() == 8,
{
    let x = text::chars_of(s);
    match find_double_colon(&x) {
        None => match parse_side(s, true) {
            Some(g) => if g.len() == 8 {
                Some(g)
            } else {
                None
            },
            None => None,
        },
        Some(at) => {
            let head = text::string_of(&x, 0, at);
            let tail = text::string_of(&x, at + 2, x.len());
            assert(head@ =~= s@.take(at as int));
            assert(tail@ =~= s@.skip(at + 2));
            match (parse_side(head.as_str(), false), parse_side(tail.as_str(), true)) {
                (Some(a), Some(b)) => {
                    if a.len() > 7 || b.len() > 7 - a.len() {
                        return None;
                    }
                    let ghost goal = ipv6_of(s@)->0;
                    let mut out: Vec<u16> = Vec::new();
                    let zeros: usize = 8 - a.len() - b.len();
                    let mut i: usize = 0;
                    while i < 8
                        invariant
                            i <= 8,
                            zeros == 8 - a@.len() - b@.len(),
                            a@.len() + b@.len() <= 7,
                            goal == a@ + Seq::new(zeros as nat, |i: int| 0u16) + b@,
                            out@ == goal.take(i as int),
                        decreases 8 - i,
                    {
                        let g: u16 = if i < a.len() {
                            a[i]
                        } else if i < a.len() + zeros {
                            0
                        } else {
                            b[i - a.len() - zeros]
                        };
                        assert(g == goal[i as int]);
                        out.push(g);
                        i = i + 1;
                        assert(out@ =~= goal.take(i as int));
                    }
                    assert(goal.take(8) =~= goal);
                    Some(out)
                },
                _ => None,
            }
        },
    }
}

/// The address that a text writes.
pub open spec fn ip_of(s: Seq<char>) -> Option<IpAddrView> {
    match ipv4_of(s) {
        Some(o) => Some(IpAddrView::V4(o)),
        None => match ipv6_of(s) {
            Some(g) => Some(IpAddrView::V6(g)),
            None => None,
        },
    }
}

pub fn parse_ip(s: &str) -> (r: Option<IpAddr>)
    ensures
        r.deep_view() == ip_of(s@),
        r matches Some(IpAddr::V4(o)) ==> o@.len() == 4,
        r matches Some(IpAddr::V6(g)) ==> g@.len() == 8,
{
    match parse_ipv4(s) {
        Some(o) => Some(IpAddr::V4(o)),
        None => match parse_ipv6(s) {
            Some(g) => Some(IpAddr::V6(g)),
            None => None,
        },
    }
}

/// Whether an address is of this machine, of a private network or of the local link.
pub open spec fn is_internal(ip: IpAddrView) -> bool {
    match ip {
        IpAddrView::V4(o) => {
            ||| o[0] == 127
            ||| o[0] == 10
            ||| o[0] == 172 && 16 <= o[1] <= 31
            ||| o[0] == 192 && o[1] == 168
            ||| o[0] == 169 && o[1] == 254
        },
        IpAddrView::V6(g) => {
            ||| g == seq![0u16, 0, 0, 0, 0, 0, 0, 1]
            ||| 0xfc00 <= g[0] <= 0xfdff
            ||| 0xfe80 <= g[0] <= 0xfebf
        },
    }
}

pub fn is_private_or_link_local(ip: &IpAddr) -> (r: bool)
    requires
        ip matches IpAddr::V4(o) ==> o@.len() == 4,
        ip matches IpAddr::V6(g) ==> g@.len() == 8,
    ensures
        r == is_internal(ip.deep_view()),
{
    match ip {
        IpAddr::V4(o) => {
            o[0] == 127 || o[0] == 10 || (o[0] == 172 && 16 <= o[1] && o[1] <= 31) || (o[0] == 192
                && o[1] == 168) || (o[0] == 169 && o[1] == 254)
        },
        IpAddr::V6(g) => {
            let loopback = g[0] == 0 && g[1] == 0 && g[2] == 0 && g[3] == 0 && g[4] == 0 && g[5]
                == 0 && g[6] == 0 && g[7] == 1;
            proof {
                let one = seq![0u16, 0, 0, 0, 0, 0, 0, 1];
                if loopback {
                    assert(g@ =~= one);
                } else if g@ == one {
                    assert(one[0] == 0 && one[1] == 0 && one[2] == 0 && one[3] == 0 && one[4] == 0
                        && one[5] == 0 && one[6] == 0 && one[7] == 1);
                }
            }
            loopback || (0xfc00 <= g[0] && g[0] <= 0xfdff) || (0xfe80 <= g[0] && g[0] <= 0xfebf)
        },
    }
}

/// The hexadecimal digits of a number, without leading zeros.
pub open spec fn group_text(v: nat) -> Seq<char>
    decreases v,
{
    if v < 16 {
        seq![outside::hex_digit(v as int)]
    } else {
        group_text(v / 16).push(outside::hex_digit((v % 16) as int))
    }
}

fn show_digit(d: u16) -> (r: char)
    requires
        d < 16,
    ensures
        r == outside::hex_digit(d as int),
{
    if d < 10 {
        (d as u8 + 48) as char
    } else {
        (d as u8 + 87) as char
    }
}

fn show_group(v: u16) -> (r: String)
    ensures
        r@ == group_text(v as nat),
    decreases v,
{
    if v < 16 {
        let mut out = String::new();
        out.push(show_digit(v));
        assert(out@ =~= seq![outside::hex_digit(v as int)]);
        out
    } else {
        let mut out = show_group(v / 16);
        out.push(show_digit(v % 16));
        out
    }
}

/// Groups in hexadecimal digits with colons between them.
pub open spec fn groups_text(s: Seq<u16>) -> Seq<char> {
    text::join_of(s.map_values(|v: u16| group_text(v as nat)), ":"@)
}

fn show_groups(s: &Vec<u16>, from: usize, to: usize) -> (r: String)
    requires
        from <= to <= s@.len(),
    ensures
        r@ == groups_text(s@.subrange(from as int, to as int)),
{
    let ghost show = |v: u16| group_text(v as nat);
    let ghost part = s@.subrange(from as int, to as int);
    let mut out: Vec<String> = Vec::new();
    let mut i: usize = from;
    assert(out.deep_view() =~= part.take(0).map_values(show));
    while i < to
        invariant
            from <= i <= to <= s@.len(),
            show == (|v: u16| group_text(v as nat)),
            part == s@.subrange(from as int, to as int),
            out.deep_view() == part.take(i - from).map_values(show),
        decreases to - i,
    {
        let group = show_group(s[i]);
        assert(group@ == show(part[i - from]));
        text::push_text(&mut out, group);
        i = i + 1;
        assert(out.deep_view() =~= part.take(i - from).map_values(show));
    }
    assert(part.take(i - from) =~= part);
    text::join(&out, ":")
}

/// Four octets in decimal digits with dots between them.
pub open spec fn octets_text(a: u8, b: u8, c: u8, d: u8) -> Seq<char> {
    text::decimal_of(a as nat) + "."@ + text::decimal_of(b as nat) + "."@ + text::decimal_of(
        c as nat,
    ) + "."@ + text::decimal_of(d as nat)
}

fn show_octets(a: u8, b: u8, c: u8, d: u8) -> (r: String)
    ensures
        r@ == octets_text(a, b, c, d),
{
    let first = text::decimal(a as u128);
    let second = text::decimal(b as u128);
    let third = text::decimal(c as u128);
    let fourth = text::decimal(d as u128);
    let start = text::cat5(first.as_str(), ".", second.as_str(), ".", third.as_str());
    text::cat3(start.as_str(), ".", fourth.as_str())
}

/// How many groups that are zero follow one another from a position on.
pub open spec fn zeros_from(s: Seq<u16>, i: int) -> nat
    decreases s.len() - i,
{
    if 0 <= i < s.len() && s[i] == 0 {
        1 + zeros_from(s, i + 1)
    } else {
        0
    }
}

/// Where the longest run of zero groups among the first positions starts, and its length; of
/// several the first.
pub open spec fn longest_zeros(s: Seq<u16>, n: nat) -> (int, nat)
    decreases n,
{
    if n == 0 {
        (0, 0)
    } else {
        let best = longest_zeros(s, (n - 1) as nat);
        if zeros_from(s, n - 1) > best.1 {
            (n - 1, zeros_from(s, n - 1))
        } else {
            best
        }
    }
}

fn count_zeros(s: &Vec<u16>, i: usize) -> (r: usize)
    requires
        i <= s@.len(),
        s@.len() <= 8,
    ensures
        r == zeros_from(s@, i as int),
        i + r <= s@.len(),
    decreases s@.len() - i,
{
    if i < s.len() && s[i] == 0 {
        1 + count_zeros(s, i + 1)
    } else {
        0
    }
}

/// Whether an address of sixteen bytes stands for one of four.
pub open spec fn is_mapped(g: Seq<u16>) -> bool {
    g[0] == 0 && g[1] == 0 && g[2] == 0 && g[3] == 0 && g[4] == 0 && g[5] == 0xffff
}

/// The canonical text of an address of sixteen bytes: lower-case digits, the longest run of zero
/// groups left out where it has two groups or more, and dots in what stands for four bytes.
pub open spec fn ipv6_text(g: Seq<u16>) -> Seq<char> {
    if is_mapped(g) {
        "::ffff:"@ + octets_text(
            (g[6] / 256) as u8,
            (g[6] % 256) as u8,
            (g[7] / 256) as u8,
            (g[7] % 256) as u8,
        )
    } else {
        let (start, len) = longest_zeros(g, g.len());
        if len > 1 {
            groups_text(g.subrange(0, start)) + "::"@ + groups_text(
                g.subrange(start + len, g.len() as int),
            )
        } else {
            groups_text(g.subrange(0, g.len() as int))
        }
    }
}

/// The canonical text of an address.
pub open spec fn ip_text(ip: IpAddrView) -> Seq<char> {
    match ip {
        IpAddrView::V4(o) => octets_text(o[0], o[1], o[2], o[3]),
        IpAddrView::V6(g) => ipv6_text(g),
    }
}

fn show_ipv6(g: &Vec<u16>) -> (r: String)
    requires
        g@.len() == 8,
    ensures
        r@ == ipv6_text(g@),
{
    if g[0] == 0 && g[1] == 0 && g[2] == 0 && g[3] == 0 && g[4] == 0 && g[5] == 0xffff {
        let tail = show_octets(
            (g[6] / 256) as u8,
            (g[6] % 256) as u8,
            (g[7] / 256) as u8,
            (g[7] % 256) as u8,
        );
        return text::cat2("::ffff:", tail.as_str());
    }
    let mut start: usize = 0;
    let mut len: usize = 0;
    let mut i: usize = 0;
    while i < g.len()
        invariant
            i <= g@.len(),
            g@.len() == 8,
            (start as int, len as nat) == longest_zeros(g@, i as nat),
            start + len <= g@.len(),
        decreases g@.len() - i,
    {
        let run = count_zeros(g, i);
        if run > len {
            start = i;
            len = run;
        }
        i = i + 1;
    }
    if len > 1 {
        let head = show_groups(g, 0, start);
        let tail = show_groups(g, start + len, g.len());
        text::cat3(head.as_str(), "::", tail.as_str())
    } else {
        show_groups(g, 0, g.len())
    }
}

pub fn show_ip(ip: &IpAddr) -> (r: String)
    requires
        ip matches IpAddr::V4(o) ==> o@.len() == 4,
        ip matches IpAddr::V6(g) ==> g@.len() == 8,
    ensures
        r@ == ip_text(ip.deep_view()),
{
    match ip {
        IpAddr::V4(o) => show_octets(o[0], o[1], o[2], o[3]),
        IpAddr::V6(g) => show_ipv6(g),
    }
}

/// The canonical text of the address that a text writes.
pub open spec fn canonical_ip_of(s: Seq<char>) -> Option<Seq<char>> {
    match ip_of(s) {
        Some(ip) => Some(ip_text(ip)),
        None => None,
    }
}

pub fn canonical_ip(s: &str) -> (r: Option<String>)
    ensures
        r.deep_view() == canonical_ip_of(s@),
{
    match parse_ip(s) {
        Some(ip) => Some(show_ip(&ip)),
        None => None,
    }
}

/// A number up to 255 is read back from its digits, which hold neither dots nor colons.
proof fn lemma_octet_read(a: u8)
    ensures
        octet_of(text::decimal_of(a as nat)) == Some(a),
        !text::decimal_of(a as nat).contains('.'),
        !text::decimal_of(a as nat).contains(':'),
        text::decimal_of(a as nat).len() > 0,
{
    let n = a as nat;
    let d = text::decimal_of(n);
    text::law_decimal_value(n);
    reveal_with_fuel(text::decimal_of, 3);
    if n < 10 {
        assert(d.len() == 1);
    } else if n < 100 {
        assert(d.len() == 2);
        assert(d[0] == text::digit_char(n / 10));
        assert(d[0] as u32 == n / 10 + 48);
    } else {
        assert(d.len() == 3);
        assert(d[0] == text::digit_char(n / 10 / 10));
        assert(d[0] as u32 == n / 10 / 10 + 48);
    }
    assert forall|i: int| 0 <= i < d.len() implies d[i] != '.' && d[i] != ':' by {
        assert(text::is_digit_char(d[i]));
    }
}

/// Four octets are read back from their text, which holds no colon and is no group.
proof fn lemma_octets_read(a: u8, b: u8, c: u8, d: u8)
    ensures
        ipv4_of(octets_text(a, b, c, d)) == Some(seq![a, b, c, d]),
        !octets_text(a, b, c, d).contains(':'),
        group_of(octets_text(a, b, c, d)) is None,
{
    reveal_strlit(".");
    let dot = seq!['.'];
    assert("."@ =~= dot);
    lemma_octet_read(a);
    lemma_octet_read(b);
    lemma_octet_read(c);
    lemma_octet_read(d);
    let p = text::decimal_of(a as nat);
    let q = text::decimal_of(b as nat);
    let r = text::decimal_of(c as nat);
    let t = text::decimal_of(d as nat);
    let s = octets_text(a, b, c, d);
    text::lemma_split_whole(p, '.');
    text::lemma_split_append(p, '.', q);
    text::lemma_split_append(p + dot + q, '.', r);
    text::lemma_split_append(p + dot + q + dot + r, '.', t);
    assert(text::split_of(s, '.') =~= seq![p, q, r, t]);
    assert(ipv4_of(s)->0 =~= seq![a, b, c, d]);
    assert forall|i: int| 0 <= i < s.len() implies s[i] != ':' by {
        let n = p.len() as int;
        let m = n + 1 + q.len();
        let k = m + 1 + r.len();
        if i < n {
            assert(s[i] == p[i]);
        } else if n < i < m {
            assert(s[i] == q[i - n - 1]);
        } else if m < i < k {
            assert(s[i] == r[i - m - 1]);
        } else if k < i {
            assert(s[i] == t[i - k - 1]);
        }
    }
    assert(s[p.len() as int] == '.');
    assert(!routes::is_hex_char(s[p.len() as int]));
}

/// Whether a text may stand as a group: hexadecimal digits, one at least.
spec fn is_group_text(s: Seq<char>) -> bool {
    s.len() > 0 && routes::all_hex(s)
}

proof fn lemma_group_text(v: nat)
    ensures
        is_group_text(group_text(v)),
        hex_number(group_text(v)) == v,
    decreases v,
{
    let d = group_text(v);
    if v < 16 {
        assert(d.drop_last() =~= Seq::empty());
        assert(hex_number(d.drop_last()) == 0);
        assert(d.last() == outside::hex_digit(v as int));
        assert(v < 10 ==> d.last() as u32 == v + 48);
        assert(v >= 10 ==> d.last() as u32 == v + 87);
    } else {
        lemma_group_text(v / 16);
        let low = v % 16;
        assert(d.drop_last() =~= group_text(v / 16));
        assert(d.last() == outside::hex_digit(low as int));
        assert(low < 10 ==> d.last() as u32 == low + 48);
        assert(low >= 10 ==> d.last() as u32 == low + 87);
        assert forall|i: int| 0 <= i < d.len() implies routes::is_hex_char(#[trigger] d[i]) by {
            if i < d.len() - 1 {
                assert(routes::is_hex_char(group_text(v / 16)[i]));
            }
        }
    }
}

/// A group is read back from its text, which holds no colon.
proof fn lemma_group_read(v: u16)
    ensures
        group_of(group_text(v as nat)) == Some(v),
        is_group_text(group_text(v as nat)),
        !group_text(v as nat).contains(':'),
{
    let d = group_text(v as nat);
    lemma_group_text(v as nat);
    reveal_with_fuel(group_text, 4);
    assert(d.len() <= 4);
    assert forall|i: int| 0 <= i < d.len() implies d[i] != ':' by {
        assert(routes::is_hex_char(d[i]));
    }
}

/// The texts of groups.
spec fn group_texts(s: Seq<u16>) -> Seq<Seq<char>> {
    s.map_values(|v: u16| group_text(v as nat))
}

proof fn lemma_parts_read(s: Seq<u16>, v4_allowed: bool)
    ensures
        parts_groups(group_texts(s), v4_allowed) == Some(s),
    decreases s.len(),
{
    let parts = group_texts(s);
    if s.len() == 0 {
        assert(s =~= Seq::empty());
    } else {
        lemma_parts_read(s.drop_last(), false);
        lemma_group_read(s.last());
        assert(parts.drop_last() =~= group_texts(s.drop_last()));
        assert(parts.last() == group_text(s.last() as nat));
        assert(s.drop_last() + seq![s.last()] =~= s);
    }
}

/// Whether no two colons follow each other and none stands at either end.
spec fn colons_apart(s: Seq<char>) -> bool {
    &&& forall|i: int| 0 <= i < s.len() - 1 && #[trigger] s[i] == ':' ==> s[i + 1] != ':'
    &&& s.len() > 0 ==> s[0] != ':' && s.last() != ':'
}

/// Groups are read back from their text.
proof fn lemma_groups_read(s: Seq<u16>, v4_allowed: bool)
    ensures
        side_groups(groups_text(s), v4_allowed) == Some(s),
        colons_apart(groups_text(s)),
        groups_text(s).len() == 0 <==> s.len() == 0,
        s.len() > 1 ==> groups_text(s).contains(':'),
    decreases s.len(),
{
    reveal_strlit(":");
    assert(":"@ =~= seq![':']);
    let parts = group_texts(s);
    let joined = groups_text(s);
    if s.len() == 0 {
        assert(joined =~= Seq::empty());
        assert(s =~= Seq::empty());
    } else {
        assert forall|i: int| 0 <= i < parts.len() implies !(#[trigger] parts[i]).contains(':') by {
            lemma_group_read(s[i]);
        }
        text::law_split_undoes_join(parts, ':');
        lemma_parts_read(s, v4_allowed);
        lemma_group_read(s.last());
        let last = group_text(s.last() as nat);
        assert(parts.last() == last);
        assert forall|i: int| 0 <= i < last.len() implies #[trigger] last[i] != ':' by {
            assert(routes::is_hex_char(last[i]));
        }
        if s.len() == 1 {
            assert(joined =~= last);
        } else {
            let before = groups_text(s.drop_last());
            lemma_groups_read(s.drop_last(), false);
            assert(parts.drop_last() =~= group_texts(s.drop_last()));
            assert(joined =~= before + seq![':'] + last);
            let n = before.len() as int;
            assert(joined[n] == ':');
            assert(joined[0] == before[0]);
            assert(joined.last() == last[last.len() - 1]);
            assert forall|i: int| 0 <= i < joined.len() - 1 && #[trigger] joined[i] == ':' implies joined[i
                + 1] != ':' by {
                if i < n - 1 {
                    assert(before[i] == joined[i]);
                    assert(before[i + 1] == joined[i + 1]);
                } else if i == n - 1 {
                    assert(joined[i] == before.last());
                } else {
                    assert(joined[i + 1] == last[i - n]);
                }
            }
        }
    }
}

/// Where the first double colon stands.
proof fn lemma_double_colon(s: Seq<char>, from: int, at: Option<int>)
    requires
        0 <= from,
        match at {
            Some(at) => from <= at && at + 1 < s.len() && s[at] == ':' && s[at + 1] == ':',
            None => true,
        },
        forall|i: int|
            from <= i < (match at {
                Some(at) => at,
                None => s.len() - 1,
            }) ==> !(#[trigger] s[i] == ':' && s[i + 1] == ':'),
    ensures
        double_colon(s, from) == at,
    decreases s.len() - from,
{
    if from + 1 < s.len() && at != Some(from) {
        assert(!(s[from] == ':' && s[from + 1] == ':'));
        lemma_double_colon(s, from + 1, at);
    }
}

/// A text with a colon is no address of four octets.
proof fn lemma_colon_is_no_ipv4(s: Seq<char>)
    requires
        s.contains(':'),
    ensures
        ipv4_of(s) is None,
{
    if ipv4_of(s) is Some {
        let parts = text::split_of(s, '.');
        let dot = seq!['.'];
        text::law_join_undoes_split(s, '.');
        let one = parts.take(1);
        let two = parts.take(2);
        let three = parts.take(3);
        assert(parts.drop_last() =~= three);
        assert(three.drop_last() =~= two);
        assert(two.drop_last() =~= one);
        assert(text::join_of(one, dot) == parts[0]);
        assert(text::join_of(two, dot) == parts[0] + dot + parts[1]);
        assert(text::join_of(three, dot) == parts[0] + dot + parts[1] + dot + parts[2]);
        assert(s =~= parts[0] + dot + parts[1] + dot + parts[2] + dot + parts[3]);
        let i = choose|i: int| 0 <= i < s.len() && s[i] == ':';
        let n = parts[0].len() as int;
        let m = n + 1 + parts[1].len();
        let k = m + 1 + parts[2].len();
        if i < n {
            assert(text::is_digit_char(parts[0][i]));
        } else if n < i < m {
            assert(text::is_digit_char(parts[1][i - n - 1]));
        } else if m < i < k {
            assert(text::is_digit_char(parts[2][i - m - 1]));
        } else if k < i {
            assert(text::is_digit_char(parts[3][i - k - 1]));
        }
    }
}

proof fn lemma_zeros_from(s: Seq<u16>, i: int)
    requires
        0 <= i <= s.len(),
    ensures
        i + zeros_from(s, i) <= s.len(),
        forall|j: int| i <= j < i + zeros_from(s, i) ==> #[trigger] s[j] == 0,
    decreases s.len() - i,
{
    if i < s.len() && s[i] == 0 {
        lemma_zeros_from(s, i + 1);
    }
}

proof fn lemma_longest_zeros(s: Seq<u16>, n: nat)
    requires
        n <= s.len(),
    ensures
        0 <= longest_zeros(s, n).0,
        longest_zeros(s, n).0 + longest_zeros(s, n).1 <= s.len(),
        forall|j: int|
            longest_zeros(s, n).0 <= j < longest_zeros(s, n).0 + longest_zeros(s, n).1
                ==> #[trigger] s[j] == 0,
    decreases n,
{
    if n > 0 {
        lemma_longest_zeros(s, (n - 1) as nat);
        lemma_zeros_from(s, n - 1);
    }
}

/// Eight groups are read back from their canonical text, which holds a colon.
proof fn lemma_ipv6_read(g: Seq<u16>)
    requires
        g.len() == 8,
    ensures
        ipv6_of(ipv6_text(g)) == Some(g),
        ipv6_text(g).contains(':'),
{
    reveal_strlit("::");
    let s = ipv6_text(g);
    if is_mapped(g) {
        lemma_mapped_read(g);
    } else {
        lemma_longest_zeros(g, 8);
        let (start, len) = longest_zeros(g, g.len());
        if len > 1 {
            let front = g.subrange(0, start);
            let back = g.subrange(start + len, 8);
            let a = groups_text(front);
            let b = groups_text(back);
            lemma_groups_read(front, false);
            lemma_groups_read(back, true);
            assert(s =~= a + seq![':', ':'] + b);
            let at = a.len() as int;
            assert(s[at] == ':' && s[at + 1] == ':');
            assert forall|i: int| 0 <= i < at implies !(#[trigger] s[i] == ':' && s[i + 1] == ':') by {
                assert(s[i] == a[i]);
                if i + 1 < at {
                    assert(s[i + 1] == a[i + 1]);
                } else {
                    assert(a.last() == a[i]);
                }
            }
            lemma_double_colon(s, 0, Some(at));
            assert(s.take(at) =~= a);
            assert(s.skip(at + 2) =~= b);
            assert(front + Seq::new((8 - front.len() - back.len()) as nat, |i: int| 0u16) + back
                =~= g);
        } else {
            assert(g.subrange(0, 8) =~= g);
            lemma_groups_read(g, true);
            lemma_double_colon(s, 0, None);
        }
    }
}

proof fn lemma_mapped_read(g: Seq<u16>)
    requires
        g.len() == 8,
        is_mapped(g),
    ensures
        ipv6_of(ipv6_text(g)) == Some(g),
        ipv6_text(g).contains(':'),
{
    reveal_strlit("::ffff:");
    let s = ipv6_text(g);
    let a = (g[6] / 256) as u8;
    let b = (g[6] % 256) as u8;
    let c = (g[7] / 256) as u8;
    let d = (g[7] % 256) as u8;
    let octets = octets_text(a, b, c, d);
    lemma_octets_read(a, b, c, d);
    assert(s[0] == ':' && s[1] == ':');
    lemma_double_colon(s, 0, Some(0));
    assert(s.take(0) =~= Seq::empty());
    let f = seq!['f', 'f', 'f', 'f'];
    let tail = s.skip(2);
    assert(tail =~= f + seq![':'] + octets);
    assert forall|i: int| 0 <= i < f.len() implies f[i] != ':' by {}
    text::lemma_split_whole(f, ':');
    text::lemma_split_append(f, ':', octets);
    let parts = text::split_of(tail, ':');
    assert(parts =~= seq![f, octets]);
    assert(parts.drop_last() =~= seq![f]);
    assert(seq![f].drop_last() =~= Seq::<Seq<char>>::empty());
    assert(group_of(f) == Some(0xffffu16)) by {
        reveal_with_fuel(hex_number, 5);
        assert(f.drop_last() =~= seq!['f', 'f', 'f']);
        assert(f.drop_last().drop_last() =~= seq!['f', 'f']);
        assert(f.drop_last().drop_last().drop_last() =~= seq!['f']);
        assert(f.drop_last().drop_last().drop_last().drop_last() =~= Seq::<char>::empty());
    }
    assert(parts_groups(seq![f].drop_last(), false) == Some(Seq::<u16>::empty()));
    assert(seq![f].last() == f);
    assert(Seq::<u16>::empty() + seq![0xffffu16] =~= seq![0xffffu16]);
    assert(parts_groups(seq![f], false) == Some(seq![0xffffu16]));
    assert(joined_octets(a, b) == g[6]);
    assert(joined_octets(c, d) == g[7]);
    let back = seq![0xffffu16] + seq![g[6], g[7]];
    assert(parts.last() == octets);
    assert(parts_groups(parts, true) == Some(back));
    assert(Seq::<u16>::empty() + Seq::new(5, |i: int| 0u16) + back =~= g);
}

/// An address is read back from its canonical text.
pub proof fn law_address_read_back(ip: IpAddrView)
    requires
        match ip {
            IpAddrView::V4(o) => o.len() == 4,
            IpAddrView::V6(g) => g.len() == 8,
        },
    ensures
        ip_of(ip_text(ip)) == Some(ip),
{
    match ip {
        IpAddrView::V4(o) => {
            lemma_octets_read(o[0], o[1], o[2], o[3]);
            assert(seq![o[0], o[1], o[2], o[3]] =~= o);
        },
        IpAddrView::V6(g) => {
            lemma_ipv6_read(g);
            lemma_colon_is_no_ipv4(ipv6_text(g));
        },
    }
}

/// The canonical text of an address is its own canonical text, and no other address has it.
pub proof fn law_canonical_text(a: Seq<char>, b: Seq<char>)
    requires
        ip_of(a) is Some,
        ip_of(b) is Some,
    ensures
        canonical_ip_of(canonical_ip_of(a)->0) == canonical_ip_of(a),
        canonical_ip_of(a) == canonical_ip_of(b) <==> ip_of(a) == ip_of(b),
{
    law_address_read_back(ip_of(a)->0);
    law_address_read_back(ip_of(b)->0);
}

} // verus!
