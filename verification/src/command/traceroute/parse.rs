//! Parser for `traceroute` output.
//!
//! Hop round-trip times are handed out as the decimal text that traceroute
//! printed (`\d+(\.\d+)?`); turning them into numbers is left to the caller.

use vstd::prelude::*;
use crate::text::{
    append_chars, chars_of, chars_range, re_digit_run, re_digit_run_exec, is_re_digit, is_word,
    char_is_re_digit, char_is_word,
    is_ws, join, join_exec, lemma_re_digit_run_bound, lemma_nonws_run_bound, lemma_ws_run_bound,
    lines, lines_of, nonws_run, nonws_run_exec, occurs_at, occurs_at_exec, opt_chars_view,
    string_of, views, ws_run, ws_run_exec, trim, trim_chars, char_is_ws,
};
use crate::util::ip::IpAddress;
use crate::util::private_ip::{is_private_literal, private_literal};

verus! {

#[derive(Debug, Clone, Copy, PartialEq, Eq, Structural)]
pub enum TracerouteStatus {
    Finished,
    Failed,
}

/// One probe's round-trip time in milliseconds, as the decimal text
/// traceroute printed.
#[derive(Debug, Clone)]
pub struct HopTiming {
    pub rtt: String,
}

/// One hop: the responding host, if any, and the round-trip times printed
/// for it.
#[derive(Debug, Clone)]
pub struct TracerouteHop {
    pub resolved_address: Option<String>,
    pub resolved_hostname: Option<String>,
    pub timings: Vec<HopTiming>,
}

#[derive(Debug, Clone)]
pub struct ParsedTraceroute {
    pub status: TracerouteStatus,
    pub raw_output: String,
    pub resolved_address: Option<String>,
    pub resolved_hostname: Option<String>,
    pub hops: Vec<TracerouteHop>,
}

pub struct HopView {
    pub resolved_address: Option<Seq<char>>,
    pub resolved_hostname: Option<Seq<char>>,
    pub rtts: Seq<Seq<char>>,
}

pub open spec fn opt_string_view(o: Option<String>) -> Option<Seq<char>> {
    match o {
        Some(s) => Some(s@),
        None => None,
    }
}

pub open spec fn timing_views(v: Seq<HopTiming>) -> Seq<Seq<char>> {
    v.map_values(|t: HopTiming| t.rtt@)
}

impl View for TracerouteHop {
    type V = HopView;

    open spec fn view(&self) -> HopView {
        HopView {
            resolved_address: opt_string_view(self.resolved_address),
            resolved_hostname: opt_string_view(self.resolved_hostname),
            rtts: timing_views(self.timings@),
        }
    }
}

pub struct TracerouteView {
    pub status: TracerouteStatus,
    pub raw_output: Seq<char>,
    pub resolved_address: Option<Seq<char>>,
    pub resolved_hostname: Option<Seq<char>>,
    pub hops: Seq<HopView>,
}

pub open spec fn hop_views(v: Seq<TracerouteHop>) -> Seq<HopView> {
    v.map_values(|h: TracerouteHop| h@)
}

impl View for ParsedTraceroute {
    type V = TracerouteView;

    open spec fn view(&self) -> TracerouteView {
        TracerouteView {
            status: self.status,
            raw_output: self.raw_output@,
            resolved_address: opt_string_view(self.resolved_address),
            resolved_hostname: opt_string_view(self.resolved_hostname),
            hops: hop_views(self.hops@),
        }
    }
}

// ── The host pattern ──────────────────────────────────────────────────────────
//
// `(\S+?)(?:%\w+)?(\s+)\(((?:\d+\.){3}\d+|[\da-fA-F:]+)(?:%\w+)?\)`, with
// `\w` and `\d` read as their Unicode classes.

pub open spec fn is_hex_colon(c: char) -> bool {
    is_re_digit(c) || ('a' <= c && c <= 'f') || ('A' <= c && c <= 'F') || c == ':'
}

pub open spec fn word_run(s: Seq<char>, i: int) -> nat
    decreases s.len() - i,
{
    if 0 <= i < s.len() && is_word(s[i]) {
        1 + word_run(s, i + 1)
    } else {
        0
    }
}

pub open spec fn hex_colon_run(s: Seq<char>, i: int) -> nat
    decreases s.len() - i,
{
    if 0 <= i < s.len() && is_hex_colon(s[i]) {
        1 + hex_colon_run(s, i + 1)
    } else {
        0
    }
}

/// `(?:%\w+)?\)` at `e`: the end of the match.
pub open spec fn close_at(s: Seq<char>, e: int) -> Option<int> {
    if 0 <= e < s.len() && s[e] == '%' {
        let w = word_run(s, e + 1);
        if w >= 1 && e + 1 + w < s.len() && s[e + 1 + w] == ')' {
            Some(e + 1 + w + 1)
        } else {
            None
        }
    } else if 0 <= e < s.len() && s[e] == ')' {
        Some(e + 1)
    } else {
        None
    }
}

/// `(?:\d+\.){3}\d+` at `a`: its end.
pub open spec fn dotted_quad(s: Seq<char>, a: int) -> Option<int> {
    let d1 = re_digit_run(s, a);
    let b = a + d1;
    let d2 = re_digit_run(s, b + 1);
    let c = b + 1 + d2;
    let d3 = re_digit_run(s, c + 1);
    let d = c + 1 + d3;
    let d4 = re_digit_run(s, d + 1);
    if d1 >= 1 && 0 <= b < s.len() && s[b] == '.' && d2 >= 1 && c < s.len() && s[c] == '.' && d3
        >= 1 && d < s.len() && s[d] == '.' && d4 >= 1 {
        Some(d + 1 + d4)
    } else {
        None
    }
}

/// The address and the rest of the pattern at `a` (just after `(`): the
/// address's end and the match's end.
pub open spec fn addr_tail(s: Seq<char>, a: int) -> Option<(int, int)> {
    let first = match dotted_quad(s, a) {
        Some(e) => match close_at(s, e) {
            Some(m) => Some((e, m)),
            None => None,
        },
        None => None,
    };
    match first {
        Some(x) => Some(x),
        None => {
            let h = hex_colon_run(s, a);
            if h >= 1 {
                match close_at(s, a + h) {
                    Some(m) => Some((a + h, m)),
                    None => None,
                }
            } else {
                None
            }
        },
    }
}

/// A match of the host pattern.
pub struct HostMatch {
    pub start: int,
    pub name_end: int,
    pub ws_start: int,
    pub ws_end: int,
    pub addr_end: int,
    pub end: int,
}

/// The pattern at `p` with a name of `n` characters.
pub open spec fn host_at_n(s: Seq<char>, p: int, n: int) -> Option<HostMatch> {
    let q = p + n;
    let r = if 0 <= q < s.len() && s[q] == '%' {
        q + 1 + word_run(s, q + 1)
    } else {
        q
    };
    let scope_ok = !(0 <= q < s.len() && s[q] == '%') || word_run(s, q + 1) >= 1;
    let w = ws_run(s, r);
    let b = r + w;
    if scope_ok && w >= 1 && b < s.len() && s[b] == '(' {
        match addr_tail(s, b + 1) {
            Some((e, m)) => Some(
                HostMatch { start: p, name_end: q, ws_start: r, ws_end: b, addr_end: e, end: m },
            ),
            None => None,
        }
    } else {
        None
    }
}

/// The lazy name: the shortest that lets the rest match.
pub open spec fn host_search(s: Seq<char>, p: int, n: int) -> Option<HostMatch>
    decreases nonws_run(s, p) + 1 - n,
{
    if n < 1 || n > nonws_run(s, p) {
        None
    } else {
        match host_at_n(s, p, n) {
            Some(m) => Some(m),
            None => host_search(s, p, n + 1),
        }
    }
}

/// The leftmost match of the host pattern at or after `p`.
pub open spec fn host_from(s: Seq<char>, p: int) -> Option<HostMatch>
    decreases s.len() + 1 - p,
{
    if p < 0 || p > s.len() {
        None
    } else {
        match host_search(s, p, 1) {
            Some(m) => Some(m),
            None => host_from(s, p + 1),
        }
    }
}

// ── Round-trip times ──────────────────────────────────────────────────────────

/// `(\d+(?:\.\d+)?)\s+ms` at `p`: the number's end and the match's end.
pub open spec fn rtt_at(s: Seq<char>, p: int) -> Option<(int, int)> {
    let d = re_digit_run(s, p);
    let e1 = p + d;
    let f = re_digit_run(s, e1 + 1);
    let e = if 0 <= e1 < s.len() && s[e1] == '.' && f >= 1 {
        e1 + 1 + f
    } else {
        e1
    };
    let w = ws_run(s, e);
    if d >= 1 && w >= 1 && occurs_at(s, "ms"@, e + w) {
        Some((e, e + w + 2))
    } else {
        None
    }
}

/// Every round-trip time from `p` on, left to right, without overlaps.
pub open spec fn rtts_from(s: Seq<char>, p: int) -> Seq<Seq<char>>
    decreases s.len() + 1 - p,
{
    if p < 0 || p > s.len() {
        Seq::empty()
    } else {
        match rtt_at(s, p) {
            Some((e, m)) => if p < m <= s.len() {
                seq![s.subrange(p, e)] + rtts_from(s, m)
            } else {
                Seq::empty()
            },
            None => rtts_from(s, p + 1),
        }
    }
}

/// A hop line: the host of the first match, and every round-trip time.
pub open spec fn hop_spec(line: Seq<char>) -> HopView {
    match host_from(line, 0) {
        Some(m) => HopView {
            resolved_hostname: Some(line.subrange(m.start, m.name_end)),
            resolved_address: Some(line.subrange(m.ws_end + 1, m.addr_end)),
            rtts: rtts_from(line, 0),
        },
        None => HopView { resolved_hostname: None, resolved_address: None, rtts: rtts_from(line, 0) },
    }
}

/// The first hop's host name replaced by `_gateway` (scope ids dropped).
pub open spec fn gateway_line(line: Seq<char>) -> Seq<char> {
    match host_from(line, 0) {
        Some(m) => line.take(m.start) + "_gateway"@ + line.subrange(m.ws_start, m.ws_end) + "("@
            + line.subrange(m.ws_end + 1, m.addr_end) + ")"@ + line.skip(m.end),
        None => line,
    }
}

pub open spec fn last_hostname(hops: Seq<HopView>) -> Option<Seq<char>>
    decreases hops.len(),
{
    if hops.len() == 0 {
        None
    } else {
        match hops.last().resolved_hostname {
            Some(h) => Some(h),
            None => last_hostname(hops.drop_last()),
        }
    }
}

/// The output lines, the first hop line rewritten.
pub open spec fn output_lines(ls: Seq<Seq<char>>) -> Seq<Seq<char>> {
    if ls.len() > 1 {
        ls.update(1, gateway_line(ls[1]))
    } else {
        ls
    }
}

/// traceroute output parsed: without lines, or without the host pattern on
/// the header line, a failure; otherwise the target address from the
/// header, one hop per further line, the last hop host name, and the output
/// with the gateway's name hidden.
pub open spec fn parse_spec(raw: Seq<char>) -> TracerouteView {
    let ls = lines(raw);
    let failed = TracerouteView {
        status: TracerouteStatus::Failed,
        raw_output: raw,
        resolved_address: None,
        resolved_hostname: None,
        hops: Seq::empty(),
    };
    if ls.len() == 0 {
        failed
    } else {
        match host_from(ls[0], 0) {
            None => failed,
            Some(h) => {
                let out = output_lines(ls);
                let hops = out.skip(1).map_values(|l: Seq<char>| hop_spec(l));
                TracerouteView {
                    status: TracerouteStatus::Finished,
                    raw_output: join(out, "\n"@),
                    resolved_address: Some(ls[0].subrange(h.ws_end + 1, h.addr_end)),
                    resolved_hostname: last_hostname(hops),
                    hops,
                }
            },
        }
    }
}


// ── Executable matching ───────────────────────────────────────────────────────

proof fn lemma_word_run_bound(s: Seq<char>, i: int)
    requires
        0 <= i <= s.len(),
    ensures
        i + word_run(s, i) <= s.len(),
    decreases s.len() - i,
{
    if i < s.len() && is_word(s[i]) {
        lemma_word_run_bound(s, i + 1);
    }
}

proof fn lemma_hex_colon_run_bound(s: Seq<char>, i: int)
    requires
        0 <= i <= s.len(),
    ensures
        i + hex_colon_run(s, i) <= s.len(),
    decreases s.len() - i,
{
    if i < s.len() && is_hex_colon(s[i]) {
        lemma_hex_colon_run_bound(s, i + 1);
    }
}

fn word_run_exec(s: &[char], i: usize) -> (n: usize)
    requires
        i <= s@.len(),
    ensures
        n == word_run(s@, i as int),
        i + n <= s@.len(),
{
    proof {
        lemma_word_run_bound(s@, i as int);
    }
    let mut j = i;
    while j < s.len() && char_is_word(s[j])
        invariant
            i <= j <= s@.len(),
            word_run(s@, i as int) == (j - i) + word_run(s@, j as int),
        decreases s.len() - j,
    {
        j = j + 1;
    }
    j - i
}

fn hex_colon_run_exec(s: &[char], i: usize) -> (n: usize)
    requires
        i <= s@.len(),
    ensures
        n == hex_colon_run(s@, i as int),
        i + n <= s@.len(),
{
    proof {
        lemma_hex_colon_run_bound(s@, i as int);
    }
    let mut j = i;
    while j < s.len() && (char_is_re_digit(s[j]) || ('a' <= s[j] && s[j] <= 'f') || ('A' <= s[j]
        && s[j] <= 'F') || s[j] == ':')
        invariant
            i <= j <= s@.len(),
            hex_colon_run(s@, i as int) == (j - i) + hex_colon_run(s@, j as int),
        decreases s.len() - j,
    {
        j = j + 1;
    }
    j - i
}

fn digits(s: &[char], i: usize) -> (n: usize)
    requires
        i <= s@.len(),
    ensures
        n == re_digit_run(s@, i as int),
        i + n <= s@.len(),
{
    proof {
        lemma_re_digit_run_bound(s@, i as int);
    }
    re_digit_run_exec(s, i)
}

fn close_at_exec(s: &[char], e: usize) -> (r: Option<usize>)
    requires
        e <= s@.len(),
    ensures
        match close_at(s@, e as int) {
            Some(m) => r matches Some(x) && x as int == m,
            None => r is None,
        },
{
    let _n = s.len();
    if e < s.len() && s[e] == '%' {
        let w = word_run_exec(s, e + 1);
        if w >= 1 && e + 1 + w < s.len() && s[e + 1 + w] == ')' {
            Some(e + 1 + w + 1)
        } else {
            None
        }
    } else if e < s.len() && s[e] == ')' {
        Some(e + 1)
    } else {
        None
    }
}

fn dotted_quad_exec(s: &[char], a: usize) -> (r: Option<usize>)
    requires
        a <= s@.len(),
    ensures
        match dotted_quad(s@, a as int) {
            Some(e) => r matches Some(x) && x as int == e,
            None => r is None,
        },
{
    let _n = s.len();
    let d1 = digits(s, a);
    let b = a + d1;
    if d1 < 1 || b >= s.len() || s[b] != '.' {
        return None;
    }
    let d2 = digits(s, b + 1);
    let c = b + 1 + d2;
    if d2 < 1 || c >= s.len() || s[c] != '.' {
        return None;
    }
    let d3 = digits(s, c + 1);
    let d = c + 1 + d3;
    if d3 < 1 || d >= s.len() || s[d] != '.' {
        return None;
    }
    let d4 = digits(s, d + 1);
    if d4 < 1 {
        return None;
    }
    Some(d + 1 + d4)
}

fn addr_tail_exec(s: &[char], a: usize) -> (r: Option<(usize, usize)>)
    requires
        a <= s@.len(),
    ensures
        match addr_tail(s@, a as int) {
            Some((e, m)) => r matches Some(x) && x.0 as int == e && x.1 as int == m,
            None => r is None,
        },
{
    let _n = s.len();
    if let Some(e) = dotted_quad_exec(s, a) {
        proof {
            lemma_re_digit_run_bound(s@, a as int);
        }
        if e <= s.len() {
            if let Some(m) = close_at_exec(s, e) {
                assert(dotted_quad(s@, a as int) == Some(e as int));
                assert(close_at(s@, e as int) == Some(m as int));
                assert(addr_tail(s@, a as int) == Some((e as int, m as int)));
                return Some((e, m));
            }
        }
    }
    let h = hex_colon_run_exec(s, a);
    if h >= 1 {
        match close_at_exec(s, a + h) {
            Some(m) => Some((a + h, m)),
            None => None,
        }
    } else {
        None
    }
}

/// Exec form of a `HostMatch`.
#[derive(Clone, Copy)]
struct HostSpan {
    start: usize,
    name_end: usize,
    ws_start: usize,
    ws_end: usize,
    addr_end: usize,
    end: usize,
}

spec fn span_view(h: HostSpan) -> HostMatch {
    HostMatch {
        start: h.start as int,
        name_end: h.name_end as int,
        ws_start: h.ws_start as int,
        ws_end: h.ws_end as int,
        addr_end: h.addr_end as int,
        end: h.end as int,
    }
}

spec fn span_ok(h: HostSpan, len: nat) -> bool {
    h.start <= h.name_end <= h.ws_start <= h.ws_end < h.addr_end <= h.end <= len
}

fn host_at_n_exec(s: &[char], p: usize, n: usize) -> (r: Option<HostSpan>)
    requires
        p + n <= s@.len(),
    ensures
        match host_at_n(s@, p as int, n as int) {
            Some(m) => r matches Some(h) && span_view(h) == m && span_ok(h, s@.len()),
            None => r is None,
        },
{
    let _n = s.len();
    let q = p + n;
    let mut r = q;
    if q < s.len() && s[q] == '%' {
        let w = word_run_exec(s, q + 1);
        if w < 1 {
            return None;
        }
        r = q + 1 + w;
    }
    proof {
        lemma_ws_run_bound(s@, r as int);
    }
    let w = ws_run_exec(s, r);
    let b = r + w;
    if w < 1 || b >= s.len() || s[b] != '(' {
        return None;
    }
    proof {
        lemma_re_digit_run_bound(s@, b + 1);
        lemma_hex_colon_run_bound(s@, b + 1);
    }
    match addr_tail_exec(s, b + 1) {
        Some((e, m)) => {
            assert(b + 1 < e) by {
                if dotted_quad(s@, b + 1) is Some && close_at(s@, dotted_quad(s@, b + 1)->0) is Some {
                } else {
                }
            }
            assert(e < m <= s@.len());
            Some(HostSpan { start: p, name_end: q, ws_start: r, ws_end: b, addr_end: e, end: m })
        },
        None => None,
    }
}

fn host_search_exec(s: &[char], p: usize) -> (r: Option<HostSpan>)
    requires
        p <= s@.len(),
    ensures
        match host_search(s@, p as int, 1) {
            Some(m) => r matches Some(h) && span_view(h) == m && span_ok(h, s@.len()),
            None => r is None,
        },
{
    proof {
        lemma_nonws_run_bound(s@, p as int);
    }
    let run = nonws_run_exec(s, p);
    let _len = s.len();
    let mut n: usize = 1;
    while n <= run
        invariant
            1 <= n <= run + 1,
            s@.len() <= usize::MAX,
            run == nonws_run(s@, p as int),
            p + run <= s@.len(),
            host_search(s@, p as int, 1) == host_search(s@, p as int, n as int),
        decreases run + 1 - n,
    {
        let h = host_at_n_exec(s, p, n);
        if h.is_some() {
            return h;
        }
        if n == run {
            assert(host_search(s@, p as int, n + 1) is None);
            return None;
        }
        n = n + 1;
    }
    None
}

fn host_from_exec(s: &[char]) -> (r: Option<HostSpan>)
    ensures
        match host_from(s@, 0) {
            Some(m) => r matches Some(h) && span_view(h) == m && span_ok(h, s@.len()),
            None => r is None,
        },
{
    let mut p: usize = 0;
    while p <= s.len()
        invariant
            p <= s@.len() + 1,
            host_from(s@, 0) == host_from(s@, p as int),
        decreases s.len() + 1 - p,
    {
        let h = host_search_exec(s, p);
        if h.is_some() {
            return h;
        }
        if p == s.len() {
            assert(host_from(s@, p + 1) is None);
            return None;
        }
        p = p + 1;
    }
    None
}

fn rtt_at_exec(s: &[char], p: usize) -> (r: Option<(usize, usize)>)
    requires
        p <= s@.len(),
    ensures
        match rtt_at(s@, p as int) {
            Some((e, m)) => r matches Some(x) && x.0 as int == e && x.1 as int == m && p < e <= m <= s@.len(),
            None => r is None,
        },
{
    let _n = s.len();
    let d = digits(s, p);
    let e1 = p + d;
    let mut e = e1;
    if e1 < s.len() && s[e1] == '.' {
        let f = digits(s, e1 + 1);
        if f >= 1 {
            e = e1 + 1 + f;
        }
    }
    proof {
        lemma_ws_run_bound(s@, e as int);
    }
    let w = ws_run_exec(s, e);
    let ms = chars_of("ms");
    proof {
        reveal_strlit("ms");
    }
    if d >= 1 && w >= 1 && occurs_at_exec(s, ms.as_slice(), e + w) {
        Some((e, e + w + 2))
    } else {
        None
    }
}

fn rtts_exec(s: &[char]) -> (r: Vec<HopTiming>)
    ensures
        timing_views(r@) == rtts_from(s@, 0),
{
    let mut out: Vec<HopTiming> = Vec::new();
    let mut p: usize = 0;
    assert(timing_views(out@) + rtts_from(s@, 0) =~= rtts_from(s@, 0));
    while p <= s.len()
        invariant
            p <= s@.len() + 1,
            timing_views(out@) + rtts_from(s@, p as int) == rtts_from(s@, 0),
        decreases s.len() + 1 - p,
    {
        match rtt_at_exec(s, p) {
            Some((e, m)) => {
                let ghost prev = out@;
                out.push(HopTiming { rtt: string_of(chars_range(s, p, e).as_slice()) });
                assert(timing_views(out@) =~= timing_views(prev).push(s@.subrange(p as int, e as int)));
                assert(timing_views(out@) + rtts_from(s@, m as int) =~= timing_views(prev) + rtts_from(s@, p as int));
                p = m;
            },
            None => {
                if p == s.len() {
                    assert(rtts_from(s@, p + 1) =~= Seq::<Seq<char>>::empty());
                    assert(timing_views(out@) + rtts_from(s@, p as int) =~= timing_views(out@));
                    return out;
                }
                p = p + 1;
            },
        }
    }
    assert(rtts_from(s@, p as int) =~= Seq::<Seq<char>>::empty());
    assert(timing_views(out@) + rtts_from(s@, p as int) =~= timing_views(out@));
    out
}

fn hop_exec(line: &[char]) -> (r: TracerouteHop)
    ensures
        r@ == hop_spec(line@),
{
    let rtts = rtts_exec(line);
    match host_from_exec(line) {
        Some(h) => TracerouteHop {
            resolved_hostname: Some(string_of(chars_range(line, h.start, h.name_end).as_slice())),
            resolved_address: Some(string_of(chars_range(line, h.ws_end + 1, h.addr_end).as_slice())),
            timings: rtts,
        },
        None => TracerouteHop { resolved_hostname: None, resolved_address: None, timings: rtts },
    }
}

fn gateway_line_exec(line: &[char]) -> (r: Vec<char>)
    ensures
        r@ == gateway_line(line@),
{
    match host_from_exec(line) {
        Some(h) => {
            let mut out = chars_range(line, 0, h.start);
            append_chars(&mut out, chars_of("_gateway").as_slice());
            append_chars(&mut out, chars_range(line, h.ws_start, h.ws_end).as_slice());
            append_chars(&mut out, chars_of("(").as_slice());
            append_chars(&mut out, chars_range(line, h.ws_end + 1, h.addr_end).as_slice());
            append_chars(&mut out, chars_of(")").as_slice());
            append_chars(&mut out, chars_range(line, h.end, line.len()).as_slice());
            let ghost want = gateway_line(line@);
            assert(out@ =~= want);
            out
        },
        None => chars_range(line, 0, line.len()),
    }
}

/// Parse traceroute output.
pub fn parse(raw_output: &str) -> (r: ParsedTraceroute)
    ensures
        r@ == parse_spec(raw_output@),
{
    let c = chars_of(raw_output);
    let ls = lines_of(c.as_slice());
    let ghost lv = views(ls@);
    if ls.len() == 0 {
        let hops: Vec<TracerouteHop> = Vec::new();
        assert(hop_views(hops@) =~= Seq::<HopView>::empty());
        return ParsedTraceroute {
            status: TracerouteStatus::Failed,
            raw_output: raw_output.to_string(),
            resolved_address: None,
            resolved_hostname: None,
            hops,
        };
    }
    assert(lv[0] == ls@[0]@);
    let header = match host_from_exec(ls[0].as_slice()) {
        Some(h) => h,
        None => {
            let hops: Vec<TracerouteHop> = Vec::new();
            assert(hop_views(hops@) =~= Seq::<HopView>::empty());
            return ParsedTraceroute {
                status: TracerouteStatus::Failed,
                raw_output: raw_output.to_string(),
                resolved_address: None,
                resolved_hostname: None,
                hops,
            };
        },
    };
    let resolved_address = string_of(chars_range(ls[0].as_slice(), header.ws_end + 1, header.addr_end).as_slice());
    let out = output_lines_exec(&ls);
    let ghost ov = output_lines(lv);
    let ghost hv = ov.skip(1).map_values(|l: Seq<char>| hop_spec(l));
    let hops = hops_exec(&out);
    let resolved_hostname = last_hostname_exec(&hops);
    let nl = chars_of("\n");
    let joined = join_exec(out.as_slice(), nl.as_slice());
    ParsedTraceroute {
        status: TracerouteStatus::Finished,
        raw_output: string_of(joined.as_slice()),
        resolved_address: Some(resolved_address),
        resolved_hostname,
        hops,
    }
}

fn output_lines_exec(ls: &Vec<Vec<char>>) -> (out: Vec<Vec<char>>)
    ensures
        views(out@) == output_lines(views(ls@)),
{
    let ghost lv = views(ls@);
    let ghost ov = output_lines(lv);
    let mut out: Vec<Vec<char>> = Vec::new();
    let mut i: usize = 0;
    while i < ls.len()
        invariant
            i <= ls@.len(),
            lv == views(ls@),
            ov == output_lines(lv),
            ov.len() == lv.len(),
            views(out@) == ov.take(i as int),
        decreases ls.len() - i,
    {
        let ghost prev = out@;
        let line = if i == 1 {
            gateway_line_exec(ls[i].as_slice())
        } else {
            let l = chars_range(ls[i].as_slice(), 0, ls[i].len());
            assert(l@ =~= ls@[i as int]@);
            l
        };
        assert(line@ == ov[i as int]);
        out.push(line);
        assert(views(out@) =~= views(prev).push(ov[i as int]));
        assert(ov.take(i + 1) =~= ov.take(i as int).push(ov[i as int]));
        i = i + 1;
    }
    assert(ov.take(ls@.len() as int) =~= ov);
    out
}

fn hops_exec(out: &Vec<Vec<char>>) -> (hops: Vec<TracerouteHop>)
    requires
        out@.len() >= 1,
    ensures
        hop_views(hops@) == views(out@).skip(1).map_values(|l: Seq<char>| hop_spec(l)),
{
    let ghost ov = views(out@);
    let ghost hv = ov.skip(1).map_values(|l: Seq<char>| hop_spec(l));
    let mut hops: Vec<TracerouteHop> = Vec::new();
    let mut k: usize = 1;
    while k < out.len()
        invariant
            1 <= k <= out@.len(),
            views(out@) == ov,
            hv == ov.skip(1).map_values(|l: Seq<char>| hop_spec(l)),
            hop_views(hops@) == hv.take(k - 1),
        decreases out.len() - k,
    {
        let ghost prev = hops@;
        let h = hop_exec(out[k].as_slice());
        assert(h@ == hv[k - 1]);
        hops.push(h);
        assert(hop_views(hops@) =~= hop_views(prev).push(hv[k - 1]));
        assert(hv.take(k as int) =~= hv.take(k - 1).push(hv[k - 1]));
        k = k + 1;
    }
    assert(hv.take(out@.len() - 1) =~= hv);
    hops
}

fn last_hostname_exec(hops: &Vec<TracerouteHop>) -> (r: Option<String>)
    ensures
        opt_string_view(r) == last_hostname(hop_views(hops@)),
{
    let ghost hv = hop_views(hops@);
    let mut j: usize = hops.len();
    assert(hv.take(j as int) =~= hv);
    while j > 0
        invariant
            j <= hops@.len(),
            hop_views(hops@) == hv,
            last_hostname(hv) == last_hostname(hv.take(j as int)),
        decreases j,
    {
        assert(hv.take(j as int).drop_last() =~= hv.take(j - 1));
        assert(hv.take(j as int).last() == hops@[j - 1]@);
        match &hops[j - 1].resolved_hostname {
            Some(h) => {
                return Some(h.clone());
            },
            None => {},
        }
        j = j - 1;
    }
    assert(hv.take(0) =~= Seq::<HopView>::empty());
    None
}

// ── While traceroute runs ─────────────────────────────────────────────────────

/// A hop line: `^\s*\d+\s`.
pub open spec fn hop_line_spec(s: Seq<char>) -> bool {
    let w = ws_run(s, 0);
    let d = re_digit_run(s, w as int);
    d >= 1 && w + d < s.len() && is_ws(s[(w + d) as int])
}

pub fn is_hop_line(line: &str) -> (b: bool)
    ensures
        b == hop_line_spec(line@),
{
    let c = chars_of(line);
    proof {
        lemma_ws_run_bound(c@, 0);
    }
    let w = ws_run_exec(c.as_slice(), 0);
    proof {
        lemma_re_digit_run_bound(c@, w as int);
    }
    let d = re_digit_run_exec(c.as_slice(), w);
    d >= 1 && w + d < c.len() && char_is_ws(c[w + d])
}

/// The result of a finished run: a failure with no output when traceroute
/// printed nothing but whitespace; the parse otherwise, turned into a
/// failure without hops when the target address is private.
pub open spec fn finish_spec(raw: Seq<char>, local_ips: Seq<IpAddress>) -> TracerouteView {
    if trim(raw).len() == 0 {
        TracerouteView {
            status: TracerouteStatus::Failed,
            raw_output: Seq::empty(),
            resolved_address: None,
            resolved_hostname: None,
            hops: Seq::empty(),
        }
    } else {
        let p = parse_spec(raw);
        match p.resolved_address {
            Some(a) => if private_literal(a, local_ips) {
                TracerouteView {
                    status: TracerouteStatus::Failed,
                    raw_output: "Private IP ranges are not allowed."@,
                    hops: Seq::empty(),
                    ..p
                }
            } else {
                p
            },
            None => p,
        }
    }
}

pub fn finish(raw: &str, local_ips: &[IpAddress]) -> (r: ParsedTraceroute)
    ensures
        r@ == finish_spec(raw@, local_ips@),
{
    let c = chars_of(raw);
    let t = trim_chars(c.as_slice());
    if t.len() == 0 {
        let hops: Vec<TracerouteHop> = Vec::new();
        assert(hop_views(hops@) =~= Seq::<HopView>::empty());
        let empty: Vec<char> = Vec::new();
        assert(trim(raw@).len() == 0);
        return ParsedTraceroute {
            status: TracerouteStatus::Failed,
            raw_output: string_of(empty.as_slice()),
            resolved_address: None,
            resolved_hostname: None,
            hops,
        };
    }
    let mut p = parse(raw);
    let private = match &p.resolved_address {
        Some(a) => is_private_literal(a.as_str(), local_ips),
        None => false,
    };
    if private {
        p.status = TracerouteStatus::Failed;
        p.raw_output = "Private IP ranges are not allowed.".to_string();
        p.hops = Vec::new();
        assert(hop_views(p.hops@) =~= Seq::<HopView>::empty());
    }
    p
}

// ── Laws ──────────────────────────────────────────────────────────────────────

/// The host name of a run is that of its last hop with a host name, however
/// many hops without one follow; there is none only when no hop has one.
pub proof fn law_hostname_of_last_named_hop(raw: Seq<char>)
    ensures
        parse_spec(raw).resolved_hostname is None <==> forall|i: int|
            0 <= i < parse_spec(raw).hops.len() ==> (#[trigger] parse_spec(raw).hops[i]).resolved_hostname is None,
        parse_spec(raw).resolved_hostname matches Some(h) ==> exists|i: int|
            0 <= i < parse_spec(raw).hops.len() && (#[trigger] parse_spec(raw).hops[i]).resolved_hostname
                == Some(h) && forall|j: int|
                i < j < parse_spec(raw).hops.len() ==> (#[trigger] parse_spec(raw).hops[j]).resolved_hostname is None,
{
    lemma_last_hostname(parse_spec(raw).hops);
}

proof fn lemma_last_hostname(hops: Seq<HopView>)
    ensures
        last_hostname(hops) is None <==> forall|i: int|
            0 <= i < hops.len() ==> (#[trigger] hops[i]).resolved_hostname is None,
        last_hostname(hops) matches Some(h) ==> exists|i: int|
            0 <= i < hops.len() && (#[trigger] hops[i]).resolved_hostname == Some(h) && forall|j: int|
                i < j < hops.len() ==> (#[trigger] hops[j]).resolved_hostname is None,
    decreases hops.len(),
{
    if hops.len() > 0 {
        let p = hops.drop_last();
        lemma_last_hostname(p);
        let n = hops.len() - 1;
        match hops.last().resolved_hostname {
            Some(h) => {
                assert(hops[n].resolved_hostname == Some(h));
            },
            None => {
                assert forall|i: int| 0 <= i < p.len() implies hops[i] == p[i] by {}
                if last_hostname(p) is None {
                    assert forall|i: int| 0 <= i < hops.len() implies (#[trigger] hops[i]).resolved_hostname
                        is None by {
                        if i < n {
                            assert(hops[i] == p[i]);
                        }
                    }
                } else {
                    let h = last_hostname(p)->0;
                    let i = choose|i: int|
                        0 <= i < p.len() && (#[trigger] p[i]).resolved_hostname == Some(h) && forall|j: int|
                            i < j < p.len() ==> (#[trigger] p[j]).resolved_hostname is None;
                    assert(hops[i] == p[i]);
                    assert forall|j: int| i < j < hops.len() implies (#[trigger] hops[j]).resolved_hostname
                        is None by {
                        if j < n {
                            assert(hops[j] == p[j]);
                        }
                    }
                    assert(!(forall|k: int| 0 <= k < hops.len() ==> (#[trigger] hops[k]).resolved_hostname is None));
                }
            },
        }
    }
}

} // verus!
