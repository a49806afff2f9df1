//! Textual IPv4/IPv6 address parsing.
//!
//! The grammar is stated by recursive spec functions over the byte sequence
//! of the input, and the executable parser is proved to return exactly what
//! the spec functions denote.
//!
//! IPv4 text is four decimal octets separated by dots, each at most three
//! digits, without leading zeros, with value at most 255.  IPv6 text is
//! eight groups of one to four hex digits separated by colons, where at most
//! one `::` stands for a run of zero groups and the last two groups may be
//! written as an embedded IPv4 address.

use vstd::prelude::*;

verus! {

/// A parsed IP address: four octets, or eight 16-bit groups.
#[derive(Clone, Copy, PartialEq, Eq, Structural, Debug, Hash)]
pub enum IpAddress {
    V4 { a: u8, b: u8, c: u8, d: u8 },
    V6 { g0: u16, g1: u16, g2: u16, g3: u16, g4: u16, g5: u16, g6: u16, g7: u16 },
}

pub open spec fn is_dec_digit(b: u8) -> bool {
    48 <= b <= 57
}

pub open spec fn dec_val(b: u8) -> int {
    b - 48
}

pub open spec fn is_hex_digit(b: u8) -> bool {
    is_dec_digit(b) || (97 <= b <= 102) || (65 <= b <= 70)
}

pub open spec fn hex_val(b: u8) -> int {
    if is_dec_digit(b) {
        b - 48
    } else if 97 <= b <= 102 {
        b - 87
    } else {
        b - 55
    }
}

/// Index of the first byte at or after `i` that is not a decimal digit.
pub open spec fn dec_end(s: Seq<u8>, i: int) -> int
    decreases s.len() - i,
    when 0 <= i <= s.len()
{
    if i == s.len() || !is_dec_digit(s[i]) {
        i
    } else {
        dec_end(s, i + 1)
    }
}

/// Index of the first byte at or after `i` that is not a hex digit.
pub open spec fn hex_end(s: Seq<u8>, i: int) -> int
    decreases s.len() - i,
    when 0 <= i <= s.len()
{
    if i == s.len() || !is_hex_digit(s[i]) {
        i
    } else {
        hex_end(s, i + 1)
    }
}

pub proof fn lemma_dec_end(s: Seq<u8>, i: int)
    requires
        0 <= i <= s.len(),
    ensures
        i <= dec_end(s, i) <= s.len(),
        forall|j: int| i <= j < dec_end(s, i) ==> is_dec_digit(s[j]),
        dec_end(s, i) < s.len() ==> !is_dec_digit(s[dec_end(s, i)]),
    decreases s.len() - i,
{
    if i < s.len() && is_dec_digit(s[i]) {
        lemma_dec_end(s, i + 1);
    }
}

pub proof fn lemma_hex_end(s: Seq<u8>, i: int)
    requires
        0 <= i <= s.len(),
    ensures
        i <= hex_end(s, i) <= s.len(),
        forall|j: int| i <= j < hex_end(s, i) ==> is_hex_digit(s[j]),
        hex_end(s, i) < s.len() ==> !is_hex_digit(s[hex_end(s, i)]),
    decreases s.len() - i,
{
    if i < s.len() && is_hex_digit(s[i]) {
        lemma_hex_end(s, i + 1);
    }
}

/// Value of the decimal numeral written in `s[i..j]`.
pub open spec fn dec_value(s: Seq<u8>, i: int, j: int) -> int
    decreases j - i,
{
    if j <= i {
        0
    } else {
        dec_value(s, i, j - 1) * 10 + dec_val(s[j - 1])
    }
}

/// Value of the hex numeral written in `s[i..j]`.
pub open spec fn hex_value(s: Seq<u8>, i: int, j: int) -> int
    decreases j - i,
{
    if j <= i {
        0
    } else {
        hex_value(s, i, j - 1) * 16 + hex_val(s[j - 1])
    }
}

pub proof fn lemma_dec_value_bound(s: Seq<u8>, i: int, j: int)
    requires
        0 <= i <= j <= s.len(),
        forall|k: int| i <= k < j ==> is_dec_digit(s[k]),
    ensures
        0 <= dec_value(s, i, j),
        j - i <= 1 ==> dec_value(s, i, j) < 10,
        j - i <= 2 ==> dec_value(s, i, j) < 100,
        j - i <= 3 ==> dec_value(s, i, j) < 1000,
    decreases j - i,
{
    if j > i {
        lemma_dec_value_bound(s, i, j - 1);
    }
}

pub proof fn lemma_hex_value_bound(s: Seq<u8>, i: int, j: int)
    requires
        0 <= i <= j <= s.len(),
        forall|k: int| i <= k < j ==> is_hex_digit(s[k]),
    ensures
        0 <= hex_value(s, i, j),
        j - i <= 1 ==> hex_value(s, i, j) < 0x10,
        j - i <= 2 ==> hex_value(s, i, j) < 0x100,
        j - i <= 3 ==> hex_value(s, i, j) < 0x1000,
        j - i <= 4 ==> hex_value(s, i, j) < 0x10000,
    decreases j - i,
{
    if j > i {
        lemma_hex_value_bound(s, i, j - 1);
    }
}

/// A decimal octet at position `i`: its value and the index just past it.
/// One to three digits, no leading zero, value at most 255.
pub open spec fn octet_at(s: Seq<u8>, i: int) -> Option<(int, int)> {
    let j = dec_end(s, i);
    if j == i || j - i > 3 {
        None
    } else if j - i > 1 && s[i] == 48 {
        None
    } else if dec_value(s, i, j) <= 255 {
        Some((dec_value(s, i, j), j))
    } else {
        None
    }
}

/// An IPv4 address occupying exactly `s[i..]`: four octets separated by dots.
pub open spec fn spec_ipv4_at(s: Seq<u8>, i: int) -> Option<(int, int, int, int)> {
    match octet_at(s, i) {
        None => None,
        Some((a, j)) => if j < s.len() && s[j] == 46 {
            match octet_at(s, j + 1) {
                None => None,
                Some((b, k)) => if k < s.len() && s[k] == 46 {
                    match octet_at(s, k + 1) {
                        None => None,
                        Some((c, m)) => if m < s.len() && s[m] == 46 {
                            match octet_at(s, m + 1) {
                                None => None,
                                Some((d, n)) => if n == s.len() {
                                    Some((a, b, c, d))
                                } else {
                                    None
                                },
                            }
                        } else {
                            None
                        },
                    }
                } else {
                    None
                },
            }
        } else {
            None
        },
    }
}

/// A hex group at position `i`: its value and the index just past it.
/// One to four hex digits.
pub open spec fn h16_at(s: Seq<u8>, i: int) -> Option<(int, int)> {
    let j = hex_end(s, i);
    if j == i || j - i > 4 {
        None
    } else {
        Some((hex_value(s, i, j), j))
    }
}

/// The colon-separated group list filling exactly `s[i..]`, where the final
/// groups may be written as an embedded IPv4 address (two groups).
pub open spec fn spec_tail_groups(s: Seq<u8>, i: int) -> Option<Seq<int>>
    decreases s.len() - i,
    when 0 <= i <= s.len()
{
    match spec_ipv4_at(s, i) {
        Some((a, b, c, d)) => Some(seq![a * 256 + b, c * 256 + d]),
        None => match h16_at(s, i) {
            None => None,
            Some((v, j)) => if j == s.len() {
                Some(seq![v])
            } else if i < j && j < s.len() && s[j] == 58 {
                match spec_tail_groups(s, j + 1) {
                    None => None,
                    Some(g) => Some(seq![v] + g),
                }
            } else {
                None
            },
        },
    }
}

/// The colon-separated group list filling exactly `s[i..]`, hex groups only.
pub open spec fn spec_plain_groups(s: Seq<u8>, i: int) -> Option<Seq<int>>
    decreases s.len() - i,
    when 0 <= i <= s.len()
{
    match h16_at(s, i) {
        None => None,
        Some((v, j)) => if j == s.len() {
            Some(seq![v])
        } else if i < j && j < s.len() && s[j] == 58 {
            match spec_plain_groups(s, j + 1) {
                None => None,
                Some(g) => Some(seq![v] + g),
            }
        } else {
            None
        },
    }
}

/// Position of the first `::` at or after `i`.
pub open spec fn find_dcolon(s: Seq<u8>, i: int) -> Option<int>
    decreases s.len() - i,
    when 0 <= i
{
    if i + 2 > s.len() {
        None
    } else if s[i] == 58 && s[i + 1] == 58 {
        Some(i)
    } else {
        find_dcolon(s, i + 1)
    }
}

pub proof fn lemma_find_dcolon(s: Seq<u8>, i: int)
    requires
        0 <= i,
    ensures
        find_dcolon(s, i) matches Some(p) ==> i <= p && p + 2 <= s.len() && s[p] == 58 && s[p
            + 1] == 58,
    decreases s.len() - i,
{
    if i + 2 <= s.len() && !(s[i] == 58 && s[i + 1] == 58) {
        lemma_find_dcolon(s, i + 1);
    }
}

pub open spec fn zero_groups(n: int) -> Seq<int> {
    Seq::new(n as nat, |k: int| 0)
}

/// An IPv6 address filling all of `s`: either eight groups outright, or a
/// single `::` standing for the missing groups, with at most seven written.
pub open spec fn spec_parse_ipv6(s: Seq<u8>) -> Option<Seq<int>> {
    match find_dcolon(s, 0) {
        None => match spec_tail_groups(s, 0) {
            Some(g) => if g.len() == 8 {
                Some(g)
            } else {
                None
            },
            None => None,
        },
        Some(p) => {
            let left = if p == 0 {
                Some(Seq::<int>::empty())
            } else {
                spec_plain_groups(s.subrange(0, p), 0)
            };
            let right = if p + 2 == s.len() {
                Some(Seq::<int>::empty())
            } else {
                spec_tail_groups(s, p + 2)
            };
            match (left, right) {
                (Some(l), Some(r)) => if l.len() + r.len() <= 7 {
                    Some(l + zero_groups(8 - l.len() - r.len()) + r)
                } else {
                    None
                },
                _ => None,
            }
        },
    }
}

/// What an input byte string denotes as an IP address, if anything.
pub open spec fn spec_parse_ip(s: Seq<u8>) -> Option<IpAddress> {
    match spec_ipv4_at(s, 0) {
        Some((a, b, c, d)) => Some(
            IpAddress::V4 { a: a as u8, b: b as u8, c: c as u8, d: d as u8 },
        ),
        None => match spec_parse_ipv6(s) {
            Some(g) => Some(
                IpAddress::V6 {
                    g0: g[0] as u16,
                    g1: g[1] as u16,
                    g2: g[2] as u16,
                    g3: g[3] as u16,
                    g4: g[4] as u16,
                    g5: g[5] as u16,
                    g6: g[6] as u16,
                    g7: g[7] as u16,
                },
            ),
            None => None,
        },
    }
}

fn scan_dec_end(s: &[u8], i: usize) -> (j: usize)
    requires
        i <= s@.len(),
    ensures
        j == dec_end(s@, i as int),
    decreases s@.len() - i,
{
    if i < s.len() && 48 <= s[i] && s[i] <= 57 {
        scan_dec_end(s, i + 1)
    } else {
        i
    }
}

fn scan_hex_end(s: &[u8], i: usize) -> (j: usize)
    requires
        i <= s@.len(),
    ensures
        j == hex_end(s@, i as int),
    decreases s@.len() - i,
{
    if i < s.len() && (48 <= s[i] && s[i] <= 57 || 97 <= s[i] && s[i] <= 102 || 65 <= s[i] && s[i]
        <= 70) {
        scan_hex_end(s, i + 1)
    } else {
        i
    }
}

fn read_dec_value(s: &[u8], i: usize, j: usize) -> (v: u32)
    requires
        i <= j <= s@.len(),
        j - i <= 3,
        forall|k: int| i <= k < j ==> is_dec_digit(s@[k]),
    ensures
        v == dec_value(s@, i as int, j as int),
        v < 1000,
    decreases j - i,
{
    proof {
        lemma_dec_value_bound(s@, i as int, j as int);
    }
    if j <= i {
        0
    } else {
        let hi = read_dec_value(s, i, j - 1);
        hi * 10 + ((s[j - 1] - 48) as u32)
    }
}

fn read_hex_value(s: &[u8], i: usize, j: usize) -> (v: u32)
    requires
        i <= j <= s@.len(),
        j - i <= 4,
        forall|k: int| i <= k < j ==> is_hex_digit(s@[k]),
    ensures
        v == hex_value(s@, i as int, j as int),
        v < 0x10000,
    decreases j - i,
{
    proof {
        lemma_hex_value_bound(s@, i as int, j as int);
    }
    if j <= i {
        0
    } else {
        let b = s[j - 1];
        let d: u32 = if 48 <= b && b <= 57 {
            (b - 48) as u32
        } else if 97 <= b && b <= 102 {
            (b - 87) as u32
        } else {
            (b - 55) as u32
        };
        let hi = read_hex_value(s, i, j - 1);
        hi * 16 + d
    }
}

fn parse_octet_at(s: &[u8], i: usize) -> (r: Option<(u8, usize)>)
    requires
        i <= s@.len(),
    ensures
        match r {
            Some((v, j)) => octet_at(s@, i as int) == Some((v as int, j as int)) && i < j
                <= s@.len(),
            None => octet_at(s@, i as int) is None,
        },
{
    let j = scan_dec_end(s, i);
    proof {
        lemma_dec_end(s@, i as int);
    }
    if j == i || j - i > 3 {
        None
    } else if j - i > 1 && s[i] == 48 {
        None
    } else {
        let v = read_dec_value(s, i, j);
        if v <= 255 {
            Some((v as u8, j))
        } else {
            None
        }
    }
}

fn parse_ipv4_at(s: &[u8], i: usize) -> (r: Option<(u8, u8, u8, u8)>)
    requires
        i <= s@.len(),
    ensures
        match r {
            Some((a, b, c, d)) => spec_ipv4_at(s@, i as int) == Some(
                (a as int, b as int, c as int, d as int),
            ),
            None => spec_ipv4_at(s@, i as int) is None,
        },
{
    match parse_octet_at(s, i) {
        None => None,
        Some((a, j)) => if j < s.len() && s[j] == 46 {
            match parse_octet_at(s, j + 1) {
                None => None,
                Some((b, k)) => if k < s.len() && s[k] == 46 {
                    match parse_octet_at(s, k + 1) {
                        None => None,
                        Some((c, m)) => if m < s.len() && s[m] == 46 {
                            match parse_octet_at(s, m + 1) {
                                None => None,
                                Some((d, n)) => if n == s.len() {
                                    Some((a, b, c, d))
                                } else {
                                    None
                                },
                            }
                        } else {
                            None
                        },
                    }
                } else {
                    None
                },
            }
        } else {
            None
        },
    }
}

/// What a sequence of group values denotes, group by group.
pub open spec fn groups_view(v: Seq<u16>) -> Seq<int> {
    v.map_values(|x: u16| x as int)
}

fn parse_h16_at(s: &[u8], i: usize) -> (r: Option<(u16, usize)>)
    requires
        i <= s@.len(),
    ensures
        match r {
            Some((v, j)) => h16_at(s@, i as int) == Some((v as int, j as int)) && i < j
                <= s@.len(),
            None => h16_at(s@, i as int) is None,
        },
{
    let j = scan_hex_end(s, i);
    proof {
        lemma_hex_end(s@, i as int);
    }
    if j == i || j - i > 4 {
        None
    } else {
        let v = read_hex_value(s, i, j);
        Some((v as u16, j))
    }
}

fn parse_tail_groups(s: &[u8], i: usize) -> (r: Option<Vec<u16>>)
    requires
        i <= s@.len(),
    ensures
        match r {
            Some(g) => spec_tail_groups(s@, i as int) == Some(groups_view(g@)),
            None => spec_tail_groups(s@, i as int) is None,
        },
    decreases s@.len() - i,
{
    match parse_ipv4_at(s, i) {
        Some((a, b, c, d)) => {
            let g0: u16 = (a as u16) * 256 + (b as u16);
            let g1: u16 = (c as u16) * 256 + (d as u16);
            let mut g: Vec<u16> = Vec::new();
            g.push(g0);
            g.push(g1);
            proof {
                assert(groups_view(g@) =~= seq![a as int * 256 + b, c as int * 256 + d]);
            }
            Some(g)
        },
        None => match parse_h16_at(s, i) {
            None => None,
            Some((v, j)) => if j == s.len() {
                let mut g: Vec<u16> = Vec::new();
                g.push(v);
                proof {
                    assert(groups_view(g@) =~= seq![v as int]);
                }
                Some(g)
            } else if i < j && j < s.len() && s[j] == 58 {
                match parse_tail_groups(s, j + 1) {
                    None => None,
                    Some(rest) => {
                        let ghost restv = rest@;
                        let mut g = rest;
                        g.insert(0, v);
                        proof {
                            assert(groups_view(g@) =~= seq![v as int] + groups_view(restv));
                        }
                        Some(g)
                    },
                }
            } else {
                None
            },
        },
    }
}

fn parse_plain_groups(s: &[u8], i: usize) -> (r: Option<Vec<u16>>)
    requires
        i <= s@.len(),
    ensures
        match r {
            Some(g) => spec_plain_groups(s@, i as int) == Some(groups_view(g@)),
            None => spec_plain_groups(s@, i as int) is None,
        },
    decreases s@.len() - i,
{
    match parse_h16_at(s, i) {
        None => None,
        Some((v, j)) => if j == s.len() {
            let mut g: Vec<u16> = Vec::new();
            g.push(v);
            proof {
                assert(groups_view(g@) =~= seq![v as int]);
            }
            Some(g)
        } else if i < j && j < s.len() && s[j] == 58 {
            match parse_plain_groups(s, j + 1) {
                None => None,
                Some(rest) => {
                    let ghost restv = rest@;
                    let mut g = rest;
                    g.insert(0, v);
                    proof {
                        assert(groups_view(g@) =~= seq![v as int] + groups_view(restv));
                    }
                    Some(g)
                },
            }
        } else {
            None
        },
    }
}

fn scan_dcolon(s: &[u8], i: usize) -> (r: Option<usize>)
    requires
        i <= s@.len(),
    ensures
        match r {
            Some(p) => find_dcolon(s@, i as int) == Some(p as int) && i <= p && p + 2 <= s@.len(),
            None => find_dcolon(s@, i as int) is None,
        },
    decreases s@.len() - i,
{
    let n = s.len();
    if n < 2 || i > n - 2 {
        None
    } else if s[i] == 58 && s[i + 1] == 58 {
        Some(i)
    } else {
        scan_dcolon(s, i + 1)
    }
}

fn parse_ipv6(s: &[u8]) -> (r: Option<Vec<u16>>)
    ensures
        match r {
            Some(g) => spec_parse_ipv6(s@) == Some(groups_view(g@)) && g@.len() == 8,
            None => spec_parse_ipv6(s@) is None,
        },
{
    match scan_dcolon(s, 0) {
        None => {
            match parse_tail_groups(s, 0) {
                Some(g) => if g.len() == 8 {
                    Some(g)
                } else {
                    None
                },
                None => None,
            }
        },
        Some(p) => {
            let n = s.len();
            let left: Option<Vec<u16>> = if p == 0 {
                Some(Vec::new())
            } else {
                let lpart = vstd::slice::slice_subrange(s, 0, p);
                parse_plain_groups(lpart, 0)
            };
            let right: Option<Vec<u16>> = if p + 2 == n {
                Some(Vec::new())
            } else {
                parse_tail_groups(s, p + 2)
            };
            proof {
                if p == 0 {
                    assert(groups_view(Seq::<u16>::empty()) =~= Seq::<int>::empty());
                }
                if p + 2 == s.len() {
                    assert(groups_view(Seq::<u16>::empty()) =~= Seq::<int>::empty());
                }
            }
            match (left, right) {
                (Some(l), Some(rt)) => if l.len() <= 7 && rt.len() <= 7 - l.len() {
                    let ghost lv = l@;
                    let ghost rv = rt@;
                    let mut g = l;
                    let fill: usize = 8 - g.len() - rt.len();
                    let mut z: usize = 0;
                    while z < fill
                        invariant
                            z <= fill,
                            fill == 8 - lv.len() - rv.len(),
                            g@ == lv + Seq::new(z as nat, |k: int| 0u16),
                        decreases fill - z,
                    {
                        g.push(0);
                        proof {
                            assert(g@ =~= lv + Seq::new((z + 1) as nat, |k: int| 0u16));
                        }
                        z += 1;
                    }
                    let mut rrest = rt;
                    g.append(&mut rrest);
                    proof {
                        assert(g@ =~= lv + Seq::new(fill as nat, |k: int| 0u16) + rv);
                        assert(groups_view(g@) =~= groups_view(lv) + zero_groups(fill as int)
                            + groups_view(rv));
                    }
                    Some(g)
                } else {
                    None
                },
                _ => None,
            }
        },
    }
}

/// Parse the byte text of an IP address.  Returns exactly what the grammar
/// spec functions denote: `Some` for a well-formed IPv4 or IPv6 address,
/// `None` otherwise.
pub fn parse_ip(s: &[u8]) -> (r: Option<IpAddress>)
    ensures
        r == spec_parse_ip(s@),
{
    match parse_ipv4_at(s, 0) {
        Some((a, b, c, d)) => Some(IpAddress::V4 { a, b, c, d }),
        None => match parse_ipv6(s) {
            Some(g) => Some(
                IpAddress::V6 {
                    g0: g[0],
                    g1: g[1],
                    g2: g[2],
                    g3: g[3],
                    g4: g[4],
                    g5: g[5],
                    g6: g[6],
                    g7: g[7],
                },
            ),
            None => None,
        },
    }
}

} // verus!
