//! IP address literals: the textual forms accepted for IPv4 (`a.b.c.d`) and
//! IPv6 (eight colon-separated hex groups, one `::` for a run of zero groups,
//! an optional dotted IPv4 tail), and their numeric values.

use vstd::prelude::*;
use crate::text::{
    chars_of, digits_value, find_exec, find_from, is_digit, lemma_find_from, lemma_split_on_len,
    occurs_at, split_chars, split_on, views,
};

verus! {

/// An IP address: IPv4 as a 32-bit number, IPv6 as a 128-bit number
/// (most significant group first).
#[derive(Debug, Clone, Copy, PartialEq, Eq, Structural)]
pub enum IpAddress {
    V4(u32),
    V6(u128),
}

// ── IPv4 ──────────────────────────────────────────────────────────────────────

/// One dotted-quad octet: 1–3 ASCII digits, no leading zero unless it is the
/// only digit, value at most 255.
pub open spec fn octet_value(p: Seq<char>) -> Option<nat> {
    if 1 <= p.len() <= 3 && (forall|i: int| 0 <= i < p.len() ==> is_digit(#[trigger] p[i])) && !(
    p.len() > 1 && p[0] == '0') && digits_value(p) <= 255 {
        Some(digits_value(p))
    } else {
        None
    }
}

/// An IPv4 literal `a.b.c.d` and its value `a·2²⁴ + b·2¹⁶ + c·2⁸ + d`.
pub open spec fn parse_ipv4_spec(s: Seq<char>) -> Option<nat> {
    let parts = split_on(s, '.');
    if parts.len() == 4 && octet_value(parts[0]) is Some && octet_value(parts[1]) is Some
        && octet_value(parts[2]) is Some && octet_value(parts[3]) is Some {
        Some(
            octet_value(parts[0])->0 * 16777216 + octet_value(parts[1])->0 * 65536 + octet_value(
                parts[2],
            )->0 * 256 + octet_value(parts[3])->0,
        )
    } else {
        None
    }
}

// ── IPv6 ──────────────────────────────────────────────────────────────────────

pub open spec fn is_hex(c: char) -> bool {
    ('0' <= c && c <= '9') || ('a' <= c && c <= 'f') || ('A' <= c && c <= 'F')
}

pub open spec fn hex_value(c: char) -> nat {
    if '0' <= c && c <= '9' {
        (c as u32 - '0' as u32) as nat
    } else if 'a' <= c && c <= 'f' {
        (c as u32 - 'a' as u32 + 10) as nat
    } else {
        (c as u32 - 'A' as u32 + 10) as nat
    }
}

pub open spec fn hex_digits_value(s: Seq<char>) -> nat
    decreases s.len(),
{
    if s.len() == 0 {
        0
    } else {
        hex_digits_value(s.drop_last()) * 16 + hex_value(s.last())
    }
}

/// One IPv6 group: 1–4 hex digits.
pub open spec fn group_value(p: Seq<char>) -> Option<nat> {
    if 1 <= p.len() <= 4 && forall|i: int| 0 <= i < p.len() ==> is_hex(#[trigger] p[i]) {
        Some(hex_digits_value(p))
    } else {
        None
    }
}

/// Values of the hex groups `parts`, or `None` if one is not a group.
pub open spec fn groups_of(parts: Seq<Seq<char>>) -> Option<Seq<nat>>
    decreases parts.len(),
{
    if parts.len() == 0 {
        Some(Seq::empty())
    } else {
        match (groups_of(parts.drop_last()), group_value(parts.last())) {
            (Some(g), Some(v)) => Some(g.push(v)),
            _ => None,
        }
    }
}

/// A colon-separated list of groups (possibly empty). With `allow_v4`, the
/// last element may be a dotted IPv4 literal, standing for two groups.
pub open spec fn group_list(t: Seq<char>, allow_v4: bool) -> Option<Seq<nat>> {
    if t.len() == 0 {
        Some(Seq::empty())
    } else {
        let parts = split_on(t, ':');
        match groups_of(parts.drop_last()) {
            None => None,
            Some(g) => match group_value(parts.last()) {
                Some(v) => Some(g.push(v)),
                None => if allow_v4 {
                    match parse_ipv4_spec(parts.last()) {
                        Some(a) => Some(g.push(a / 65536).push(a % 65536)),
                        None => None,
                    }
                } else {
                    None
                },
            },
        }
    }
}

/// Big-endian value of 16-bit groups.
pub open spec fn groups_value(g: Seq<nat>) -> nat
    decreases g.len(),
{
    if g.len() == 0 {
        0
    } else {
        groups_value(g.drop_last()) * 65536 + g.last()
    }
}

/// An IPv6 literal and its value. Without `::` it has exactly eight groups;
/// with `::` (its first occurrence splits head from tail) the head holds plain
/// groups, the tail may end in a dotted IPv4 part, and together they hold at
/// most seven groups, the rest being zero.
pub open spec fn parse_ipv6_spec(s: Seq<char>) -> Option<nat> {
    match find_from(s, "::"@, 0) {
        None => match group_list(s, true) {
            Some(g) => if g.len() == 8 {
                Some(groups_value(g))
            } else {
                None
            },
            None => None,
        },
        Some(k) => match (group_list(s.take(k), false), group_list(s.skip(k + 2), true)) {
            (Some(h), Some(t)) => if h.len() + t.len() <= 7 {
                Some(groups_value(h + Seq::new((8 - h.len() - t.len()) as nat, |i: int| 0nat) + t))
            } else {
                None
            },
            _ => None,
        },
    }
}

/// The textual IP address literals accepted by `IpAddr::from_str`.
pub open spec fn parse_ip_spec(s: Seq<char>) -> Option<IpAddress> {
    match parse_ipv4_spec(s) {
        Some(v) => Some(IpAddress::V4(v as u32)),
        None => match parse_ipv6_spec(s) {
            Some(v) => Some(IpAddress::V6(v as u128)),
            None => None,
        },
    }
}

// ── Proofs about values ───────────────────────────────────────────────────────

proof fn lemma_digits_bound(p: Seq<char>)
    requires
        forall|i: int| 0 <= i < p.len() ==> is_digit(#[trigger] p[i]),
    ensures
        p.len() <= 3 ==> digits_value(p) < 1000,
        p.len() <= 2 ==> digits_value(p) < 100,
        p.len() <= 1 ==> digits_value(p) < 10,
    decreases p.len(),
{
    if p.len() > 0 {
        assert forall|i: int| 0 <= i < p.drop_last().len() implies is_digit(
            #[trigger] p.drop_last()[i],
        ) by {
            assert(p.drop_last()[i] == p[i]);
        }
        lemma_digits_bound(p.drop_last());
        assert(is_digit(p[p.len() - 1]));
    }
}

proof fn lemma_hex_bound(p: Seq<char>)
    requires
        forall|i: int| 0 <= i < p.len() ==> is_hex(#[trigger] p[i]),
    ensures
        hex_digits_value(p) < pow16(p.len()),
    decreases p.len(),
{
    if p.len() > 0 {
        assert forall|i: int| 0 <= i < p.drop_last().len() implies is_hex(
            #[trigger] p.drop_last()[i],
        ) by {
            assert(p.drop_last()[i] == p[i]);
        }
        lemma_hex_bound(p.drop_last());
        assert(is_hex(p[p.len() - 1]));
        let v = hex_digits_value(p.drop_last());
        let b = pow16((p.len() - 1) as nat);
        assert(v * 16 + hex_value(p.last()) < b * 16) by (nonlinear_arith)
            requires
                v < b,
                hex_value(p.last()) < 16,
        ;
    }
}

pub open spec fn pow16(n: nat) -> nat
    decreases n,
{
    if n == 0 {
        1
    } else {
        pow16((n - 1) as nat) * 16
    }
}

/// All groups are below 2¹⁶.
pub open spec fn groups_bounded(g: Seq<nat>) -> bool {
    forall|i: int| 0 <= i < g.len() ==> #[trigger] g[i] < 65536
}

pub open spec fn pow65536(n: nat) -> nat
    decreases n,
{
    if n == 0 {
        1
    } else {
        pow65536((n - 1) as nat) * 65536
    }
}

proof fn lemma_groups_value_bound(g: Seq<nat>)
    requires
        groups_bounded(g),
    ensures
        groups_value(g) < pow65536(g.len()),
    decreases g.len(),
{
    if g.len() > 0 {
        assert(groups_bounded(g.drop_last()));
        lemma_groups_value_bound(g.drop_last());
        let v = groups_value(g.drop_last());
        let b = pow65536((g.len() - 1) as nat);
        assert(g[g.len() - 1] < 65536);
        assert(v * 65536 + g.last() < b * 65536) by (nonlinear_arith)
            requires
                v < b,
                g.last() < 65536,
        ;
    }
}

// ── Executable parsing ────────────────────────────────────────────────────────

fn octet_exec(p: &[char]) -> (r: Option<u32>)
    ensures
        match octet_value(p@) {
            Some(v) => r == Some(v as u32),
            None => r is None,
        },
{
    if p.len() < 1 || p.len() > 3 {
        return None;
    }
    let mut i: usize = 0;
    while i < p.len()
        invariant
            i <= p.len() <= 3,
            forall|j: int| 0 <= j < i ==> is_digit(#[trigger] p@[j]),
        decreases p.len() - i,
    {
        if !('0' <= p[i] && p[i] <= '9') {
            return None;
        }
        i = i + 1;
    }
    if p.len() > 1 && p[0] == '0' {
        return None;
    }
    proof {
        lemma_digits_bound(p@);
    }
    let mut v: u32 = 0;
    let mut k: usize = 0;
    assert(p@.take(0) =~= Seq::<char>::empty());
    while k < p.len()
        invariant
            k <= p.len() <= 3,
            forall|j: int| 0 <= j < p@.len() ==> is_digit(#[trigger] p@[j]),
            v == digits_value(p@.take(k as int)),
            v < 1000,
        decreases p.len() - k,
    {
        assert(p@.take(k + 1).drop_last() =~= p@.take(k as int));
        assert(is_digit(p@[k as int]));
        proof {
            assert forall|j: int| 0 <= j < p@.take(k + 1).len() implies is_digit(
                #[trigger] p@.take(k + 1)[j],
            ) by {
                assert(p@.take(k + 1)[j] == p@[j]);
            }
            lemma_digits_bound(p@.take(k + 1));
        }
        v = v * 10 + (p[k] as u32 - '0' as u32);
        k = k + 1;
    }
    assert(p@.take(p.len() as int) =~= p@);
    if v > 255 {
        None
    } else {
        Some(v)
    }
}

/// Parses an IPv4 literal.
pub fn parse_ipv4(s: &[char]) -> (r: Option<u32>)
    ensures
        match parse_ipv4_spec(s@) {
            Some(v) => r == Some(v as u32),
            None => r is None,
        },
{
    let parts = split_chars(s, '.');
    if parts.len() != 4 {
        return None;
    }
    let ghost pv = views(parts@);
    assert(pv[0] == parts@[0]@ && pv[1] == parts@[1]@ && pv[2] == parts@[2]@ && pv[3]
        == parts@[3]@);
    let a = octet_exec(parts[0].as_slice());
    let b = octet_exec(parts[1].as_slice());
    let c = octet_exec(parts[2].as_slice());
    let d = octet_exec(parts[3].as_slice());
    match (a, b, c, d) {
        (Some(a), Some(b), Some(c), Some(d)) => Some(a * 16777216 + b * 65536 + c * 256 + d),
        _ => None,
    }
}

fn hex_exec(c: char) -> (r: Option<u32>)
    ensures
        is_hex(c) ==> r == Some(hex_value(c) as u32),
        !is_hex(c) ==> r is None,
{
    if '0' <= c && c <= '9' {
        Some(c as u32 - '0' as u32)
    } else if 'a' <= c && c <= 'f' {
        Some(c as u32 - 'a' as u32 + 10)
    } else if 'A' <= c && c <= 'F' {
        Some(c as u32 - 'A' as u32 + 10)
    } else {
        None
    }
}

fn group_exec(p: &[char]) -> (r: Option<u32>)
    ensures
        match group_value(p@) {
            Some(v) => r == Some(v as u32) && v < 65536,
            None => r is None,
        },
{
    if p.len() < 1 || p.len() > 4 {
        return None;
    }
    let mut v: u32 = 0;
    let mut k: usize = 0;
    assert(p@.take(0) =~= Seq::<char>::empty());
    while k < p.len()
        invariant
            k <= p.len() <= 4,
            forall|j: int| 0 <= j < k ==> is_hex(#[trigger] p@[j]),
            v == hex_digits_value(p@.take(k as int)),
            v < pow16(k as nat),
            pow16(k as nat) <= 65536,
        decreases p.len() - k,
    {
        let h = hex_exec(p[k]);
        match h {
            None => {
                assert(!is_hex(p@[k as int]));
                return None;
            },
            Some(h) => {
                assert(p@.take(k + 1).drop_last() =~= p@.take(k as int));
                assert(pow16((k + 1) as nat) == pow16(k as nat) * 16);
                assert(pow16(0) == 1);
                assert(pow16(1) == 16);
                assert(pow16(2) == 256);
                assert(pow16(3) == 4096);
                assert(pow16(4) == 65536);
                assert(v * 16 + h < pow16(k as nat) * 16) by (nonlinear_arith)
                    requires
                        v < pow16(k as nat),
                        h < 16,
                ;
                v = v * 16 + h;
                k = k + 1;
            },
        }
    }
    assert(p@.take(p.len() as int) =~= p@);
    Some(v)
}

/// Values of the groups of `parts[..n]`.
fn groups_exec(parts: &Vec<Vec<char>>, n: usize) -> (r: Option<Vec<u32>>)
    requires
        n <= parts@.len(),
    ensures
        match groups_of(views(parts@).take(n as int)) {
            Some(g) => r matches Some(v) && v@.map_values(|x: u32| x as nat) == g && groups_bounded(
                g,
            ),
            None => r is None,
        },
{
    let ghost pv = views(parts@);
    let mut out: Vec<u32> = Vec::new();
    let mut i: usize = 0;
    assert(pv.take(0) =~= Seq::<Seq<char>>::empty());
    assert(out@.map_values(|x: u32| x as nat) =~= Seq::<nat>::empty());
    while i < n
        invariant
            i <= n <= parts@.len(),
            pv == views(parts@),
            groups_of(pv.take(i as int)) == Some(out@.map_values(|x: u32| x as nat)),
            groups_bounded(out@.map_values(|x: u32| x as nat)),
        decreases n - i,
    {
        assert(pv.take(i + 1).drop_last() =~= pv.take(i as int));
        assert(pv.take(i + 1).last() == parts@[i as int]@);
        match group_exec(parts[i].as_slice()) {
            None => {
                proof {
                    assert(groups_of(pv.take(i + 1)) is None);
                    assert(pv.take(i + 1) =~= pv.take(n as int).take(i + 1));
                    lemma_groups_of_none_extends(pv.take(i + 1), pv.take(n as int));
                }
                return None;
            },
            Some(g) => {
                let ghost old_out = out@;
                out.push(g);
                assert(out@.map_values(|x: u32| x as nat) =~= old_out.map_values(
                    |x: u32| x as nat,
                ).push(g as nat));
            },
        }
        i = i + 1;
    }
    Some(out)
}

/// A failing prefix makes the whole list fail.
proof fn lemma_groups_of_none_extends(a: Seq<Seq<char>>, b: Seq<Seq<char>>)
    requires
        groups_of(a) is None,
        a.len() <= b.len(),
        a == b.take(a.len() as int),
    ensures
        groups_of(b) is None,
    decreases b.len(),
{
    if b.len() > a.len() {
        assert(b.drop_last().take(a.len() as int) =~= a);
        lemma_groups_of_none_extends(a, b.drop_last());
    } else {
        assert(a =~= b);
    }
}

/// Parses a group list (see `group_list`).
fn group_list_exec(t: &[char], allow_v4: bool) -> (r: Option<Vec<u32>>)
    ensures
        match group_list(t@, allow_v4) {
            Some(g) => r matches Some(v) && v@.map_values(|x: u32| x as nat) == g && groups_bounded(
                g,
            ),
            None => r is None,
        },
{
    if t.len() == 0 {
        let v: Vec<u32> = Vec::new();
        assert(v@.map_values(|x: u32| x as nat) =~= Seq::<nat>::empty());
        return Some(v);
    }
    let parts = split_chars(t, ':');
    proof {
        lemma_split_on_len(t@, ':');
    }
    let n = parts.len();
    let ghost pv = views(parts@);
    assert(pv.take(n - 1) =~= pv.drop_last());
    let head = groups_exec(&parts, n - 1);
    match head {
        None => None,
        Some(mut g) => {
            let ghost gs = g@.map_values(|x: u32| x as nat);
            let last = parts[n - 1].as_slice();
            assert(last@ == pv.last());
            match group_exec(last) {
                Some(v) => {
                    g.push(v);
                    assert(g@.map_values(|x: u32| x as nat) =~= gs.push(v as nat));
                    Some(g)
                },
                None => {
                    if !allow_v4 {
                        return None;
                    }
                    match parse_ipv4(last) {
                        None => None,
                        Some(a) => {
                            g.push(a / 65536);
                            g.push(a % 65536);
                            assert(g@.map_values(|x: u32| x as nat) =~= gs.push(
                                (a / 65536) as nat,
                            ).push((a % 65536) as nat));
                            Some(g)
                        },
                    }
                },
            }
        },
    }
}

/// Big-endian value of bounded groups, with at most eight groups.
fn groups_value_exec(g: &Vec<u32>) -> (r: u128)
    requires
        g@.len() <= 8,
        groups_bounded(g@.map_values(|x: u32| x as nat)),
    ensures
        r == groups_value(g@.map_values(|x: u32| x as nat)),
{
    let ghost gs = g@.map_values(|x: u32| x as nat);
    let mut acc: u128 = 0;
    let mut i: usize = 0;
    assert(gs.take(0) =~= Seq::<nat>::empty());
    while i < g.len()
        invariant
            i <= g@.len() <= 8,
            gs == g@.map_values(|x: u32| x as nat),
            groups_bounded(gs),
            acc == groups_value(gs.take(i as int)),
        decreases g.len() - i,
    {
        assert(gs.take(i + 1).drop_last() =~= gs.take(i as int));
        assert(groups_bounded(gs.take(i + 1)));
        proof {
            lemma_groups_value_bound(gs.take(i + 1));
            lemma_pow65536_mono((i + 1) as nat, 8);
        }
        proof {
            lemma_pow65536_8();
        }
        assert(gs[i as int] == g@[i as int] as nat);
        acc = acc * 65536 + g[i] as u128;
        i = i + 1;
    }
    assert(gs.take(g.len() as int) =~= gs);
    acc
}

proof fn lemma_pow65536_8()
    ensures
        pow65536(8) == 0x1_0000_0000_0000_0000_0000_0000_0000_0000,
{
    assert(pow65536(0) == 1);
    assert(pow65536(1) == 0x1_0000);
    assert(pow65536(2) == 0x1_0000_0000);
    assert(pow65536(3) == 0x1_0000_0000_0000);
    assert(pow65536(4) == 0x1_0000_0000_0000_0000);
    assert(pow65536(5) == 0x1_0000_0000_0000_0000_0000);
    assert(pow65536(6) == 0x1_0000_0000_0000_0000_0000_0000);
    assert(pow65536(7) == 0x1_0000_0000_0000_0000_0000_0000_0000);
}

proof fn lemma_pow65536_mono(a: nat, b: nat)
    requires
        a <= b,
    ensures
        pow65536(a) <= pow65536(b),
    decreases b,
{
    if a < b {
        lemma_pow65536_mono(a, (b - 1) as nat);
        lemma_pow65536_pos((b - 1) as nat);
    }
}

proof fn lemma_pow65536_pos(a: nat)
    ensures
        pow65536(a) >= 1,
    decreases a,
{
    if a > 0 {
        lemma_pow65536_pos((a - 1) as nat);
    }
}

/// Parses an IPv6 literal.
pub fn parse_ipv6(s: &[char]) -> (r: Option<u128>)
    ensures
        match parse_ipv6_spec(s@) {
            Some(v) => r == Some(v as u128),
            None => r is None,
        },
{
    let dc = chars_of("::");
    proof {
        lemma_find_from(s@, dc@, 0);
    }
    match find_exec(s, dc.as_slice(), 0) {
        None => {
            match group_list_exec(s, true) {
                None => None,
                Some(g) => {
                    if g.len() == 8 {
                        let v = groups_value_exec(&g);
                        Some(v)
                    } else {
                        None
                    }
                },
            }
        },
        Some(k) => {
            assert(occurs_at(s@, dc@, k as int));
            proof {
                reveal_strlit("::");
            }
            assert(dc@.len() == 2);
            let mut head_chars: Vec<char> = Vec::new();
            let mut i: usize = 0;
            while i < k
                invariant
                    i <= k,
                    k + 2 <= s@.len(),
                    head_chars@ == s@.take(i as int),
                decreases k - i,
            {
                head_chars.push(s[i]);
                assert(head_chars@ =~= s@.take(i + 1));
                i = i + 1;
            }
            let mut tail_chars: Vec<char> = Vec::new();
            assert(k + 2 <= s.len());
            let mut j: usize = k + 2;
            assert(tail_chars@ =~= s@.subrange(k + 2, j as int));
            while j < s.len()
                invariant
                    k + 2 <= j <= s@.len(),
                    tail_chars@ == s@.subrange(k + 2, j as int),
                decreases s.len() - j,
            {
                tail_chars.push(s[j]);
                assert(tail_chars@ =~= s@.subrange(k + 2, j + 1));
                j = j + 1;
            }
            assert(tail_chars@ =~= s@.skip(k + 2));
            let h = group_list_exec(head_chars.as_slice(), false);
            let t = group_list_exec(tail_chars.as_slice(), true);
            match (h, t) {
                (Some(h), Some(t)) => {
                    if h.len() > 7 || t.len() > 7 - h.len() {
                        return None;
                    }
                    let ghost hs = h@.map_values(|x: u32| x as nat);
                    let ghost ts = t@.map_values(|x: u32| x as nat);
                    let zeros = 8 - h.len() - t.len();
                    let mut all: Vec<u32> = h;
                    let mut z: usize = 0;
                    while z < zeros
                        invariant
                            z <= zeros,
                            all@.map_values(|x: u32| x as nat) == hs + Seq::new(
                                z as nat,
                                |i: int| 0nat,
                            ),
                        decreases zeros - z,
                    {
                        let ghost prev = all@;
                        all.push(0);
                        assert(all@ =~= prev.push(0u32));
                        assert(all@.map_values(|x: u32| x as nat) =~= prev.map_values(
                            |x: u32| x as nat,
                        ).push(0nat));
                        assert(hs + Seq::new((z + 1) as nat, |i: int| 0nat) =~= (hs + Seq::new(
                            z as nat,
                            |i: int| 0nat,
                        )).push(0nat));
                        z = z + 1;
                    }
                    let mut q: usize = 0;
                    let ghost mid = hs + Seq::new(zeros as nat, |i: int| 0nat);
                    assert(all@.map_values(|x: u32| x as nat) =~= mid + ts.take(0));
                    while q < t.len()
                        invariant
                            q <= t@.len(),
                            ts == t@.map_values(|x: u32| x as nat),
                            all@.map_values(|x: u32| x as nat) == mid + ts.take(q as int),
                        decreases t.len() - q,
                    {
                        let ghost prev = all@;
                        all.push(t[q]);
                        assert(all@ =~= prev.push(t@[q as int]));
                        assert(all@.map_values(|x: u32| x as nat) =~= prev.map_values(
                            |x: u32| x as nat,
                        ).push(t@[q as int] as nat));
                        assert(ts.take(q + 1) =~= ts.take(q as int).push(ts[q as int]));
                        assert(mid + ts.take(q + 1) =~= (mid + ts.take(q as int)).push(
                            ts[q as int],
                        ));
                        q = q + 1;
                    }
                    assert(ts.take(t.len() as int) =~= ts);
                    assert(groups_bounded(all@.map_values(|x: u32| x as nat)));
                    let v = groups_value_exec(&all);
                    Some(v)
                },
                _ => None,
            }
        },
    }
}

/// Parses an IP address literal, IPv4 first (`IpAddr::from_str`).
pub fn parse_ip(s: &[char]) -> (r: Option<IpAddress>)
    ensures
        r == parse_ip_spec(s@),
{
    match parse_ipv4(s) {
        Some(v) => Some(IpAddress::V4(v)),
        None => match parse_ipv6(s) {
            Some(v) => Some(IpAddress::V6(v)),
            None => None,
        },
    }
}

/// Parses an IP address literal given as a string.
pub fn parse_ip_str(s: &str) -> (r: Option<IpAddress>)
    ensures
        r == parse_ip_spec(s@),
{
    let c = chars_of(s);
    parse_ip(c.as_slice())
}

} // verus!
