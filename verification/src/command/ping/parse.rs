//! Parser for `ping` output.
//!
//! Round-trip times and the loss percentage are handed out as the decimal
//! text ping printed (`\d*(\.\d+)?`), kept only where it reads as a number;
//! turning them into numbers is left to the caller. `\d`, `\w` and `\b` are
//! read in their Unicode sense, as the `regex` crate reads them.

use vstd::prelude::*;
use crate::text::{
    char_is_word, chars_of, chars_range, re_digit_run, re_digit_run_exec, find_char_exec,
    find_char_from, is_word, is_ws, lemma_re_digit_run_bound, lemma_find_char_from, lines,
    lines_of, occurs_at, occurs_at_exec, opt_view, parse_unsigned, parse_unsigned_exec,
    string_of, string_of_range, trim_end_char, trim_end_char_exec, views, char_is_ws, find_exec,
    find_from, lemma_find_from, float_text, float_text_exec,
};
use crate::util::ip::IpAddress;
use crate::util::private_ip::{is_private_literal, private_literal};

verus! {

#[derive(Debug, Clone, Copy, PartialEq, Eq, Structural)]
pub enum PingStatus {
    Finished,
    Failed,
}

/// One reply: its round-trip time in milliseconds, as printed, and its TTL.
#[derive(Debug, Clone)]
pub struct PingTiming {
    pub rtt: String,
    pub ttl: u32,
}

/// The summary block: times as printed, packet counts as numbers.
#[derive(Debug, Clone)]
pub struct PingStats {
    pub min: Option<String>,
    pub max: Option<String>,
    pub avg: Option<String>,
    pub total: Option<u32>,
    pub loss: Option<String>,
    pub rcv: Option<u32>,
    pub drop: Option<u32>,
}

#[derive(Debug, Clone)]
pub struct ParsedPing {
    pub status: PingStatus,
    pub raw_output: String,
    pub resolved_address: Option<String>,
    pub resolved_hostname: Option<String>,
    pub timings: Vec<PingTiming>,
    pub stats: PingStats,
}

pub struct TimingView {
    pub rtt: Seq<char>,
    pub ttl: u32,
}

pub struct StatsView {
    pub min: Option<Seq<char>>,
    pub max: Option<Seq<char>>,
    pub avg: Option<Seq<char>>,
    pub total: Option<u32>,
    pub loss: Option<Seq<char>>,
    pub rcv: Option<u32>,
    pub drop: Option<u32>,
}

pub struct PingView {
    pub status: PingStatus,
    pub raw_output: Seq<char>,
    pub resolved_address: Option<Seq<char>>,
    pub resolved_hostname: Option<Seq<char>>,
    pub timings: Seq<TimingView>,
    pub stats: StatsView,
}

impl View for PingTiming {
    type V = TimingView;

    open spec fn view(&self) -> TimingView {
        TimingView { rtt: self.rtt@, ttl: self.ttl }
    }
}

impl View for PingStats {
    type V = StatsView;

    open spec fn view(&self) -> StatsView {
        StatsView {
            min: opt_view(self.min),
            max: opt_view(self.max),
            avg: opt_view(self.avg),
            total: self.total,
            loss: opt_view(self.loss),
            rcv: self.rcv,
            drop: self.drop,
        }
    }
}

pub open spec fn timing_views(v: Seq<PingTiming>) -> Seq<TimingView> {
    v.map_values(|t: PingTiming| t@)
}

impl View for ParsedPing {
    type V = PingView;

    open spec fn view(&self) -> PingView {
        PingView {
            status: self.status,
            raw_output: self.raw_output@,
            resolved_address: opt_view(self.resolved_address),
            resolved_hostname: opt_view(self.resolved_hostname),
            timings: timing_views(self.timings@),
            stats: self.stats@,
        }
    }
}

pub open spec fn empty_stats() -> StatsView {
    StatsView {
        min: None,
        max: None,
        avg: None,
        total: None,
        loss: None,
        rcv: None,
        drop: None,
    }
}

impl Default for PingStats {
    fn default() -> (r: Self)
        ensures
            r@ == empty_stats(),
    {
        PingStats {
            min: None,
            max: None,
            avg: None,
            total: None,
            loss: None,
            rcv: None,
            drop: None,
        }
    }
}

// ── Numbers ───────────────────────────────────────────────────────────────────

/// `\d*(?:\.\d+)?` at `x`: its end.
pub open spec fn number_end(s: Seq<char>, x: int) -> int {
    let e = x + re_digit_run(s, x);
    if 0 <= e < s.len() && s[e] == '.' && re_digit_run(s, e + 1) >= 1 {
        e + 1 + re_digit_run(s, e + 1)
    } else {
        e
    }
}

/// The text between `a` and `b`, when it reads as a number
/// (`str::parse::<f64>` accepts it).
pub open spec fn number_between(s: Seq<char>, a: int, b: int) -> Option<Seq<char>> {
    if 0 <= a < b <= s.len() && float_text(s.subrange(a, b)) {
        Some(s.subrange(a, b))
    } else {
        None
    }
}

pub open spec fn as_u32(o: Option<nat>) -> Option<u32> {
    match o {
        Some(v) => Some(v as u32),
        None => None,
    }
}

// ── The header line ───────────────────────────────────────────────────────────
//
// `^PING\s([^()\s]*?)\s?\((?:[^()\s]+\s?\()?([^()\s]+?)\)`

pub open spec fn is_plain(c: char) -> bool {
    c != '(' && c != ')' && !is_ws(c)
}

/// Length of the run of characters other than parentheses and whitespace.
pub open spec fn plain_run(s: Seq<char>, i: int) -> nat
    decreases s.len() - i,
{
    if 0 <= i < s.len() && is_plain(s[i]) {
        1 + plain_run(s, i + 1)
    } else {
        0
    }
}

/// `\s?\(` at `q`: the index after the `(`.
pub open spec fn open_paren(s: Seq<char>, q: int) -> Option<int> {
    if 0 <= q && q + 1 < s.len() && is_ws(s[q]) && s[q + 1] == '(' {
        Some(q + 2)
    } else if 0 <= q < s.len() && s[q] == '(' {
        Some(q + 1)
    } else {
        None
    }
}

/// `[^()\s]+?\)` at `a`: the end of the name, where the `)` stands.
pub open spec fn closed_name(s: Seq<char>, a: int) -> Option<int> {
    let r = plain_run(s, a);
    if r >= 1 && a + r < s.len() && s[a + r] == ')' {
        Some(a + r)
    } else {
        None
    }
}

/// The address in a header line: its start and end.
pub open spec fn header_addr(s: Seq<char>) -> Option<(int, int)> {
    if s.len() >= 5 && occurs_at(s, "PING"@, 0) && is_ws(s[4]) {
        match open_paren(s, 5 + plain_run(s, 5) as int) {
            Some(a) => {
                let r = plain_run(s, a);
                let inner = if r >= 1 {
                    open_paren(s, a + r)
                } else {
                    None
                };
                let outer = match closed_name(s, a) {
                    Some(e) => Some((a, e)),
                    None => None,
                };
                match inner {
                    Some(g) => match closed_name(s, g) {
                        Some(e) => Some((g, e)),
                        None => outer,
                    },
                    None => outer,
                }
            },
            None => None,
        }
    } else {
        None
    }
}

// ── The host name ─────────────────────────────────────────────────────────────
//
// `from\s(.*?)(?:\s\(|:\s)`

/// `\s\(` or `:\s` at `e`.
pub open spec fn name_stop(s: Seq<char>, e: int) -> bool {
    0 <= e && e + 1 < s.len() && ((is_ws(s[e]) && s[e + 1] == '(') || (s[e] == ':' && is_ws(
        s[e + 1],
    )))
}

/// The first stop at or after `e`.
pub open spec fn stop_from(s: Seq<char>, e: int) -> Option<int>
    decreases s.len() - e,
{
    if e < 0 || e + 1 >= s.len() {
        None
    } else if name_stop(s, e) {
        Some(e)
    } else {
        stop_from(s, e + 1)
    }
}

/// `from\s` at `p` and a stop after it: the name's start and end.
pub open spec fn from_at(s: Seq<char>, p: int) -> Option<(int, int)> {
    if occurs_at(s, "from"@, p) && p + 4 < s.len() && is_ws(s[p + 4]) {
        match stop_from(s, p + 5) {
            Some(e) => Some((p + 5, e)),
            None => None,
        }
    } else {
        None
    }
}

/// The leftmost host name at or after `p`.
pub open spec fn hostname_from(s: Seq<char>, p: int) -> Option<(int, int)>
    decreases s.len() + 1 - p,
{
    if p < 0 || p > s.len() {
        None
    } else {
        match from_at(s, p) {
            Some(m) => Some(m),
            None => hostname_from(s, p + 1),
        }
    }
}

// ── Reply lines ───────────────────────────────────────────────────────────────
//
// `^\d+ bytes from (.*?)(?:\s\([^)]*\))?: (?:icmp_)?seq=\d+ ttl=(\d+) time=(\d*(?:\.\d+)?) ms`

/// The part from `: ` on, at `t`: the spans of the TTL and of the time.
pub open spec fn packet_tail(s: Seq<char>, t: int) -> Option<(int, int, int, int)> {
    let u = if occurs_at(s, "icmp_"@, t + 2) {
        t + 7
    } else {
        t + 2
    };
    let v = u + 4 + re_digit_run(s, u + 4);
    let w = v + 5 + re_digit_run(s, v + 5);
    let y = number_end(s, w + 6);
    if occurs_at(s, ": "@, t) && occurs_at(s, "seq="@, u) && re_digit_run(s, u + 4) >= 1
        && occurs_at(s, " ttl="@, v) && re_digit_run(s, v + 5) >= 1 && occurs_at(s, " time="@, w)
        && occurs_at(s, " ms"@, y) {
        Some((v + 5, w, w + 6, y))
    } else {
        None
    }
}

/// The optional ` (address)` and the rest of the line at `e`, the
/// parenthesised form tried first.
pub open spec fn packet_at(s: Seq<char>, e: int) -> Option<(int, int, int, int)> {
    let with_addr = if 0 <= e && e + 1 < s.len() && is_ws(s[e]) && s[e + 1] == '(' {
        match find_char_from(s, ')', e + 2) {
            Some(f) => packet_tail(s, f + 1),
            None => None,
        }
    } else {
        None
    };
    match with_addr {
        Some(m) => Some(m),
        None => packet_tail(s, e),
    }
}

/// The shortest host that lets the rest of the line match.
pub open spec fn packet_search(s: Seq<char>, e: int) -> Option<(int, int, int, int)>
    decreases s.len() + 1 - e,
{
    if e < 0 || e > s.len() {
        None
    } else {
        match packet_at(s, e) {
            Some(m) => Some(m),
            None => packet_search(s, e + 1),
        }
    }
}

pub open spec fn packet_match(s: Seq<char>) -> Option<(int, int, int, int)> {
    let d = re_digit_run(s, 0) as int;
    if d >= 1 && occurs_at(s, " bytes from "@, d) {
        packet_search(s, d + 12)
    } else {
        None
    }
}

/// A reply line's timing: its TTL must fit a `u32` and its time be
/// non-empty.
pub open spec fn packet_spec(s: Seq<char>) -> Option<TimingView> {
    match packet_match(s) {
        Some((a, b, c, d)) => match parse_unsigned(s.subrange(a, b), u32::MAX as nat) {
            Some(ttl) => if c < d && float_text(s.subrange(c, d)) {
                Some(TimingView { rtt: s.subrange(c, d), ttl: ttl as u32 })
            } else {
                None
            },
            None => None,
        },
        None => None,
    }
}

/// The timings of every reply line, in order.
pub open spec fn timings_spec(ls: Seq<Seq<char>>) -> Seq<TimingView>
    decreases ls.len(),
{
    if ls.len() == 0 {
        Seq::empty()
    } else {
        let rest = timings_spec(ls.drop_last());
        match packet_spec(ls.last()) {
            Some(t) => rest.push(t),
            None => rest,
        }
    }
}

// ── The summary ───────────────────────────────────────────────────────────────

/// `^---\s.*\sstatistics ---`.
pub open spec fn stats_header(s: Seq<char>) -> bool {
    &&& s.len() >= 4
    &&& occurs_at(s, "---"@, 0)
    &&& is_ws(s[3])
    &&& exists|k: int| 4 <= k < s.len() && is_ws(s[k]) && #[trigger] occurs_at(s, "statistics ---"@, k + 1)
}

/// The first summary header at or after line `i`.
pub open spec fn stats_index(ls: Seq<Seq<char>>, i: int) -> Option<int>
    decreases ls.len() - i,
{
    if i < 0 || i >= ls.len() {
        None
    } else if stats_header(ls[i]) {
        Some(i)
    } else {
        stats_index(ls, i + 1)
    }
}

/// `\b` at `p`.
pub open spec fn word_boundary(s: Seq<char>, p: int) -> bool {
    (0 < p <= s.len() && is_word(s[p - 1])) != (0 <= p < s.len() && is_word(s[p]))
}

/// The three counters of the packets line.
#[derive(Clone, Copy)]
pub enum Counter {
    /// `\b(\d+)\spackets\stransmitted`
    Transmitted,
    /// `\b(\d+)\s(?:received|packets received)`
    Received,
    /// `\b(\d*(?:\.\d+)?)%\spacket\sloss`
    Loss,
}

/// The counter's pattern at `p`: the end of its number.
pub open spec fn counter_at(s: Seq<char>, k: Counter, p: int) -> Option<int> {
    match k {
        Counter::Loss => {
            let y = number_end(s, p);
            if word_boundary(s, p) && occurs_at(s, "%"@, y) && y + 1 < s.len() && is_ws(s[y + 1])
                && occurs_at(s, "packet"@, y + 2) && y + 8 < s.len() && is_ws(s[y + 8])
                && occurs_at(s, "loss"@, y + 9) {
                Some(y)
            } else {
                None
            }
        },
        _ => {
            let e = p + re_digit_run(s, p);
            let tail = match k {
                Counter::Transmitted => occurs_at(s, "packets"@, e + 1) && e + 8 < s.len()
                    && is_ws(s[e + 8]) && occurs_at(s, "transmitted"@, e + 9),
                _ => occurs_at(s, "received"@, e + 1) || occurs_at(s, "packets received"@, e + 1),
            };
            if word_boundary(s, p) && re_digit_run(s, p) >= 1 && e < s.len() && is_ws(s[e]) && tail {
                Some(e)
            } else {
                None
            }
        },
    }
}

/// The leftmost match of the counter's pattern at or after `p`: the span of
/// its number.
pub open spec fn counter_from(s: Seq<char>, k: Counter, p: int) -> Option<(int, int)>
    decreases s.len() + 1 - p,
{
    if p < 0 || p > s.len() {
        None
    } else {
        match counter_at(s, k, p) {
            Some(e) => Some((p, e)),
            None => counter_from(s, k, p + 1),
        }
    }
}

pub open spec fn count_spec(s: Seq<char>, k: Counter) -> Option<u32> {
    match counter_from(s, k, 0) {
        Some((p, e)) => as_u32(parse_unsigned(s.subrange(p, e), u32::MAX as nat)),
        None => None,
    }
}

pub open spec fn loss_spec(s: Seq<char>) -> Option<Seq<char>> {
    match counter_from(s, Counter::Loss, 0) {
        Some((p, e)) => number_between(s, p, e),
        None => None,
    }
}

// `^(?:round-trip|rtt)\s.*\s=\s(\d*(?:\.\d+)?)\/(\d*(?:\.\d+)?)\/(\d*(?:\.\d+)?)`

/// Where the `.*` of the round-trip line starts.
pub open spec fn rtt_prefix(s: Seq<char>) -> Option<int> {
    if occurs_at(s, "round-trip"@, 0) && 10 < s.len() && is_ws(s[10]) {
        Some(11)
    } else if occurs_at(s, "rtt"@, 0) && 3 < s.len() && is_ws(s[3]) {
        Some(4)
    } else {
        None
    }
}

/// `\s=\s` at `k` and the three numbers: the spans of min, avg and max.
pub open spec fn triple_at(s: Seq<char>, k: int) -> Option<(int, int, int, int, int, int)> {
    let b = number_end(s, k + 3);
    let d = number_end(s, b + 1);
    let f = number_end(s, d + 1);
    if 0 <= k && k + 2 < s.len() && is_ws(s[k]) && s[k + 1] == '=' && is_ws(s[k + 2])
        && occurs_at(s, "/"@, b) && occurs_at(s, "/"@, d) {
        Some((k + 3, b, b + 1, d, d + 1, f))
    } else {
        None
    }
}

/// The greedy `.*`: the last `k` in `lo..=hi` where the rest matches.
pub open spec fn triple_last(s: Seq<char>, lo: int, hi: int) -> Option<(int, int, int, int, int, int)>
    decreases hi - lo + 1,
{
    if hi < lo {
        None
    } else {
        match triple_at(s, hi) {
            Some(t) => Some(t),
            None => triple_last(s, lo, hi - 1),
        }
    }
}

pub open spec fn rtt_match(s: Seq<char>) -> Option<(int, int, int, int, int, int)> {
    match rtt_prefix(s) {
        Some(h) => triple_last(s, h, s.len() as int),
        None => None,
    }
}

/// The summary lines after the header: counts from the first, times from
/// the second, and the dropped count as `total - rcv`, floored at zero.
pub open spec fn summary_spec(ls: Seq<Seq<char>>) -> StatsView {
    let total = if ls.len() >= 1 {
        count_spec(ls[0], Counter::Transmitted)
    } else {
        None
    };
    let rcv = if ls.len() >= 1 {
        count_spec(ls[0], Counter::Received)
    } else {
        None
    };
    let times = if ls.len() >= 2 {
        rtt_match(ls[1])
    } else {
        None
    };
    StatsView {
        min: match times {
            Some((a, b, _, _, _, _)) => number_between(ls[1], a, b),
            None => None,
        },
        avg: match times {
            Some((_, _, c, d, _, _)) => number_between(ls[1], c, d),
            None => None,
        },
        max: match times {
            Some((_, _, _, _, e, f)) => number_between(ls[1], e, f),
            None => None,
        },
        total,
        rcv,
        loss: if ls.len() >= 1 {
            loss_spec(ls[0])
        } else {
            None
        },
        drop: match (total, rcv) {
            (Some(t), Some(r)) => Some(
                if t >= r {
                    (t - r) as u32
                } else {
                    0u32
                },
            ),
            _ => None,
        },
    }
}

// ── The whole output ──────────────────────────────────────────────────────────

pub open spec fn hostname_spec(ls: Seq<Seq<char>>) -> Seq<char> {
    if ls.len() >= 2 {
        match hostname_from(ls[1], 0) {
            Some((a, e)) => ls[1].subrange(a, e),
            None => Seq::empty(),
        }
    } else {
        Seq::empty()
    }
}

/// ping output parsed: empty, or without the header pattern on its first
/// line, a failure; otherwise the address from the header, the host name
/// from the first reply line (empty when it has none), one timing per reply
/// line, the summary after the first `--- … statistics ---` line, and the
/// output without trailing newlines.
pub open spec fn parse_spec(raw: Seq<char>) -> PingView {
    let ls = lines(raw);
    if raw.len() == 0 || ls.len() == 0 {
        PingView {
            status: PingStatus::Failed,
            raw_output: raw,
            resolved_address: None,
            resolved_hostname: None,
            timings: Seq::empty(),
            stats: empty_stats(),
        }
    } else {
        match header_addr(ls[0]) {
            None => PingView {
                status: PingStatus::Failed,
                raw_output: raw,
                resolved_address: None,
                resolved_hostname: None,
                timings: Seq::empty(),
                stats: empty_stats(),
            },
            Some((a, e)) => PingView {
                status: PingStatus::Finished,
                raw_output: trim_end_char(raw, '\n'),
                resolved_address: Some(ls[0].subrange(a, e)),
                resolved_hostname: Some(hostname_spec(ls)),
                timings: timings_spec(ls.skip(1)),
                stats: match stats_index(ls, 0) {
                    Some(i) => summary_spec(ls.skip(i + 1)),
                    None => empty_stats(),
                },
            },
        }
    }
}

// ── Executable matching ───────────────────────────────────────────────────────

proof fn lemma_plain_run_bound(s: Seq<char>, i: int)
    requires
        0 <= i <= s.len(),
    ensures
        i + plain_run(s, i) <= s.len(),
        i + plain_run(s, i) < s.len() ==> !is_plain(s[i + plain_run(s, i)]),
    decreases s.len() - i,
{
    if i < s.len() && is_plain(s[i]) {
        lemma_plain_run_bound(s, i + 1);
    }
}

fn plain_run_exec(s: &[char], i: usize) -> (n: usize)
    requires
        i <= s@.len(),
    ensures
        n == plain_run(s@, i as int),
        i + n <= s@.len(),
{
    proof {
        lemma_plain_run_bound(s@, i as int);
    }
    let mut j = i;
    while j < s.len() && s[j] != '(' && s[j] != ')' && !char_is_ws(s[j])
        invariant
            i <= j <= s@.len(),
            plain_run(s@, i as int) == (j - i) + plain_run(s@, j as int),
        decreases s.len() - j,
    {
        j = j + 1;
    }
    j - i
}

fn digits(s: &[char], i: usize) -> (n: usize)
    requires
        i <= s@.len(),
    ensures
        n == re_digit_run(s@, i as int),
        i + n <= s@.len(),
{
    proof {
        lemma_re_digit_run_bound(s@, i as int);
    }
    re_digit_run_exec(s, i)
}

fn open_paren_exec(s: &[char], q: usize) -> (r: Option<usize>)
    requires
        q <= s@.len(),
    ensures
        match open_paren(s@, q as int) {
            Some(a) => r == Some(a as usize) && a <= s@.len(),
            None => r is None,
        },
{
    if q < s.len() && q + 1 < s.len() && char_is_ws(s[q]) && s[q + 1] == '(' {
        Some(q + 2)
    } else if q < s.len() && s[q] == '(' {
        Some(q + 1)
    } else {
        None
    }
}

fn closed_name_exec(s: &[char], a: usize) -> (r: Option<usize>)
    requires
        a <= s@.len(),
    ensures
        match closed_name(s@, a as int) {
            Some(e) => r == Some(e as usize) && a < e < s@.len(),
            None => r is None,
        },
{
    let len = s.len();
    let n = plain_run_exec(s, a);
    if n >= 1 && a + n < len && s[a + n] == ')' {
        Some(a + n)
    } else {
        None
    }
}

fn header_addr_exec(s: &[char]) -> (r: Option<(usize, usize)>)
    ensures
        match header_addr(s@) {
            Some((a, e)) => r matches Some(x) && x.0 == a && x.1 == e && a < e <= s@.len(),
            None => r is None,
        },
{
    let ping = chars_of("PING");
    proof {
        reveal_strlit("PING");
    }
    if s.len() < 5 || !occurs_at_exec(s, ping.as_slice(), 0) || !char_is_ws(s[4]) {
        return None;
    }
    let q = 5 + plain_run_exec(s, 5);
    let a = match open_paren_exec(s, q) {
        Some(a) => a,
        None => {
            return None;
        },
    };
    let r = plain_run_exec(s, a);
    if r >= 1 {
        if let Some(g) = open_paren_exec(s, a + r) {
            if let Some(e) = closed_name_exec(s, g) {
                return Some((g, e));
            }
        }
    }
    match closed_name_exec(s, a) {
        Some(e) => Some((a, e)),
        None => None,
    }
}

fn stop_from_exec(s: &[char], e: usize) -> (r: Option<usize>)
    requires
        e <= s@.len(),
    ensures
        match stop_from(s@, e as int) {
            Some(k) => r == Some(k as usize) && e <= k < s@.len(),
            None => r is None,
        },
{
    let len = s.len();
    let mut k = e;
    while k < len && k + 1 < len
        invariant
            e <= k <= len,
            len == s@.len(),
            stop_from(s@, e as int) == stop_from(s@, k as int),
        decreases len - k,
    {
        if (char_is_ws(s[k]) && s[k + 1] == '(') || (s[k] == ':' && char_is_ws(s[k + 1])) {
            return Some(k);
        }
        k = k + 1;
    }
    None
}

fn from_at_exec(s: &[char], p: usize) -> (r: Option<(usize, usize)>)
    requires
        p <= s@.len(),
    ensures
        match from_at(s@, p as int) {
            Some((a, e)) => r matches Some(x) && x.0 == a && x.1 == e && a <= e <= s@.len(),
            None => r is None,
        },
{
    let from = chars_of("from");
    proof {
        reveal_strlit("from");
    }
    let len = s.len();
    if occurs_at_exec(s, from.as_slice(), p) && p + 4 < len && char_is_ws(s[p + 4]) {
        match stop_from_exec(s, p + 5) {
            Some(e) => Some((p + 5, e)),
            None => None,
        }
    } else {
        None
    }
}

fn hostname_exec(s: &[char]) -> (r: Option<(usize, usize)>)
    ensures
        match hostname_from(s@, 0) {
            Some((a, e)) => r matches Some(x) && x.0 == a && x.1 == e && a <= e <= s@.len(),
            None => r is None,
        },
{
    let mut p: usize = 0;
    while p <= s.len()
        invariant
            p <= s@.len() + 1,
            hostname_from(s@, 0) == hostname_from(s@, p as int),
        decreases s.len() + 1 - p,
    {
        let m = from_at_exec(s, p);
        if m.is_some() {
            return m;
        }
        if p == s.len() {
            assert(hostname_from(s@, p + 1) is None);
            return None;
        }
        p = p + 1;
    }
    None
}

fn number_end_exec(s: &[char], x: usize) -> (y: usize)
    requires
        x <= s@.len(),
    ensures
        y == number_end(s@, x as int),
        x <= y <= s@.len(),
{
    let len = s.len();
    let e = x + digits(s, x);
    if e < len && s[e] == '.' {
        let f = digits(s, e + 1);
        if f >= 1 {
            return e + 1 + f;
        }
    }
    e
}

fn packet_tail_exec(s: &[char], t: usize) -> (r: Option<(usize, usize, usize, usize)>)
    requires
        t <= s@.len(),
    ensures
        match packet_tail(s@, t as int) {
            Some((a, b, c, d)) => r matches Some(x) && x.0 == a && x.1 == b && x.2 == c && x.3 == d
                && a <= b <= c <= d <= s@.len(),
            None => r is None,
        },
{
    let _len = s.len();
    let colon = chars_of(": ");
    let echo = chars_of("icmp_");
    let seq = chars_of("seq=");
    let ttl = chars_of(" ttl=");
    let time = chars_of(" time=");
    let ms = chars_of(" ms");
    proof {
        reveal_strlit(": ");
        reveal_strlit("icmp_");
        reveal_strlit("seq=");
        reveal_strlit(" ttl=");
        reveal_strlit(" time=");
        reveal_strlit(" ms");
    }
    if !occurs_at_exec(s, colon.as_slice(), t) {
        return None;
    }
    let u = if occurs_at_exec(s, echo.as_slice(), t + 2) {
        t + 7
    } else {
        t + 2
    };
    if !occurs_at_exec(s, seq.as_slice(), u) {
        return None;
    }
    let ds = digits(s, u + 4);
    if ds < 1 {
        return None;
    }
    let v = u + 4 + ds;
    if !occurs_at_exec(s, ttl.as_slice(), v) {
        return None;
    }
    let dt = digits(s, v + 5);
    if dt < 1 {
        return None;
    }
    let w = v + 5 + dt;
    if !occurs_at_exec(s, time.as_slice(), w) {
        return None;
    }
    let y = number_end_exec(s, w + 6);
    if !occurs_at_exec(s, ms.as_slice(), y) {
        return None;
    }
    Some((v + 5, w, w + 6, y))
}

fn packet_at_exec(s: &[char], e: usize) -> (r: Option<(usize, usize, usize, usize)>)
    requires
        e <= s@.len(),
    ensures
        match packet_at(s@, e as int) {
            Some((a, b, c, d)) => r matches Some(x) && x.0 == a && x.1 == b && x.2 == c && x.3 == d
                && a <= b <= c <= d <= s@.len(),
            None => r is None,
        },
{
    let len = s.len();
    if e < len && e + 1 < len && char_is_ws(s[e]) && s[e + 1] == '(' {
        proof {
            lemma_find_char_from(s@, ')', e + 2);
        }
        if let Some(f) = find_char_exec(s, ')', e + 2) {
            if let Some(m) = packet_tail_exec(s, f + 1) {
                return Some(m);
            }
        }
    }
    packet_tail_exec(s, e)
}

fn packet_match_exec(s: &[char]) -> (r: Option<(usize, usize, usize, usize)>)
    ensures
        match packet_match(s@) {
            Some((a, b, c, d)) => r matches Some(x) && x.0 == a && x.1 == b && x.2 == c && x.3 == d
                && a <= b <= c <= d <= s@.len(),
            None => r is None,
        },
{
    let _len = s.len();
    let bytes_from = chars_of(" bytes from ");
    proof {
        reveal_strlit(" bytes from ");
    }
    let d = digits(s, 0);
    if d < 1 || !occurs_at_exec(s, bytes_from.as_slice(), d) {
        return None;
    }
    let mut e: usize = d + 12;
    while e <= s.len()
        invariant
            e <= s@.len() + 1,
            packet_match(s@) == packet_search(s@, e as int),
        decreases s.len() + 1 - e,
    {
        let m = packet_at_exec(s, e);
        if m.is_some() {
            return m;
        }
        if e == s.len() {
            assert(packet_search(s@, e + 1) is None);
            return None;
        }
        e = e + 1;
    }
    None
}

fn packet_exec(s: &[char]) -> (r: Option<PingTiming>)
    ensures
        match packet_spec(s@) {
            Some(t) => r matches Some(x) && x@ == t,
            None => r is None,
        },
{
    match packet_match_exec(s) {
        Some((a, b, c, d)) => {
            let ttl_text = chars_range(s, a, b);
            match parse_unsigned_exec(ttl_text.as_slice(), 0xffff_ffff) {
                Some(v) => {
                    if c < d && float_text_exec(chars_range(s, c, d).as_slice()) {
                        Some(PingTiming { rtt: string_of_range(s, c, d), ttl: v as u32 })
                    } else {
                        None
                    }
                },
                None => None,
            }
        },
        None => None,
    }
}

fn word_boundary_exec(s: &[char], p: usize) -> (b: bool)
    requires
        p <= s@.len(),
    ensures
        b == word_boundary(s@, p as int),
{
    let before = p > 0 && char_is_word(s[p - 1]);
    let after = p < s.len() && char_is_word(s[p]);
    before != after
}

fn counter_at_exec(s: &[char], k: Counter, p: usize) -> (r: Option<usize>)
    requires
        p <= s@.len(),
    ensures
        match counter_at(s@, k, p as int) {
            Some(e) => r == Some(e as usize) && p <= e <= s@.len(),
            None => r is None,
        },
{
    let len = s.len();
    match k {
        Counter::Loss => {
            let pct = chars_of("%");
            let packet = chars_of("packet");
            let loss = chars_of("loss");
            proof {
                reveal_strlit("%");
                reveal_strlit("packet");
                reveal_strlit("loss");
            }
            let y = number_end_exec(s, p);
            if word_boundary_exec(s, p) && occurs_at_exec(s, pct.as_slice(), y) && y + 1 < len
                && char_is_ws(s[y + 1]) && occurs_at_exec(s, packet.as_slice(), y + 2) && y + 8
                < len && char_is_ws(s[y + 8]) && occurs_at_exec(s, loss.as_slice(), y + 9) {
                Some(y)
            } else {
                None
            }
        },
        _ => {
            let packets = chars_of("packets");
            let transmitted = chars_of("transmitted");
            let received = chars_of("received");
            let packets_received = chars_of("packets received");
            proof {
                reveal_strlit("packets");
                reveal_strlit("transmitted");
                reveal_strlit("received");
                reveal_strlit("packets received");
            }
            let d = digits(s, p);
            let e = p + d;
            if !word_boundary_exec(s, p) || d < 1 || e >= len || !char_is_ws(s[e]) {
                return None;
            }
            let tail = match k {
                Counter::Transmitted => occurs_at_exec(s, packets.as_slice(), e + 1) && e + 8 < len
                    && char_is_ws(s[e + 8]) && occurs_at_exec(s, transmitted.as_slice(), e + 9),
                _ => occurs_at_exec(s, received.as_slice(), e + 1) || occurs_at_exec(
                    s,
                    packets_received.as_slice(),
                    e + 1,
                ),
            };
            if tail {
                Some(e)
            } else {
                None
            }
        },
    }
}

fn counter_from_exec(s: &[char], k: Counter) -> (r: Option<(usize, usize)>)
    ensures
        match counter_from(s@, k, 0) {
            Some((p, e)) => r matches Some(x) && x.0 == p && x.1 == e && p <= e <= s@.len(),
            None => r is None,
        },
{
    let mut p: usize = 0;
    while p <= s.len()
        invariant
            p <= s@.len() + 1,
            counter_from(s@, k, 0) == counter_from(s@, k, p as int),
        decreases s.len() + 1 - p,
    {
        if let Some(e) = counter_at_exec(s, k, p) {
            return Some((p, e));
        }
        if p == s.len() {
            assert(counter_from(s@, k, p + 1) is None);
            return None;
        }
        p = p + 1;
    }
    None
}

fn count_exec(s: &[char], k: Counter) -> (r: Option<u32>)
    ensures
        r == count_spec(s@, k),
{
    match counter_from_exec(s, k) {
        Some((p, e)) => {
            let text = chars_range(s, p, e);
            match parse_unsigned_exec(text.as_slice(), 0xffff_ffff) {
                Some(v) => Some(v as u32),
                None => None,
            }
        },
        None => None,
    }
}

fn number_between_exec(s: &[char], a: usize, b: usize) -> (r: Option<String>)
    requires
        b <= s@.len(),
    ensures
        opt_view(r) == number_between(s@, a as int, b as int),
{
    if a < b {
        let t = chars_range(s, a, b);
        if float_text_exec(t.as_slice()) {
            Some(string_of(t.as_slice()))
        } else {
            None
        }
    } else {
        None
    }
}

fn loss_exec(s: &[char]) -> (r: Option<String>)
    ensures
        opt_view(r) == loss_spec(s@),
{
    match counter_from_exec(s, Counter::Loss) {
        Some((p, e)) => number_between_exec(s, p, e),
        None => None,
    }
}

fn rtt_prefix_exec(s: &[char]) -> (r: Option<usize>)
    ensures
        match rtt_prefix(s@) {
            Some(h) => r == Some(h as usize) && 4 <= h <= s@.len(),
            None => r is None,
        },
{
    let round_trip = chars_of("round-trip");
    let rtt = chars_of("rtt");
    proof {
        reveal_strlit("round-trip");
        reveal_strlit("rtt");
    }
    let len = s.len();
    if occurs_at_exec(s, round_trip.as_slice(), 0) && 10 < len && char_is_ws(s[10]) {
        Some(11)
    } else if occurs_at_exec(s, rtt.as_slice(), 0) && 3 < len && char_is_ws(s[3]) {
        Some(4)
    } else {
        None
    }
}

fn triple_at_exec(s: &[char], k: usize) -> (r: Option<(usize, usize, usize, usize, usize, usize)>)
    requires
        k <= s@.len(),
    ensures
        match triple_at(s@, k as int) {
            Some(t) => r matches Some(x) && x.0 == t.0 && x.1 == t.1 && x.2 == t.2 && x.3 == t.3
                && x.4 == t.4 && x.5 == t.5 && t.0 <= t.1 <= t.2 <= t.3 <= t.4 <= t.5 <= s@.len(),
            None => r is None,
        },
{
    let slash = chars_of("/");
    proof {
        reveal_strlit("/");
    }
    let len = s.len();
    if !(k < len && k + 1 < len && k + 2 < len && char_is_ws(s[k]) && s[k + 1] == '=' && char_is_ws(s[k + 2])) {
        return None;
    }
    let b = number_end_exec(s, k + 3);
    if !occurs_at_exec(s, slash.as_slice(), b) {
        return None;
    }
    let d = number_end_exec(s, b + 1);
    if !occurs_at_exec(s, slash.as_slice(), d) {
        return None;
    }
    let f = number_end_exec(s, d + 1);
    Some((k + 3, b, b + 1, d, d + 1, f))
}

fn rtt_match_exec(s: &[char]) -> (r: Option<(usize, usize, usize, usize, usize, usize)>)
    ensures
        match rtt_match(s@) {
            Some(t) => r matches Some(x) && x.0 == t.0 && x.1 == t.1 && x.2 == t.2 && x.3 == t.3
                && x.4 == t.4 && x.5 == t.5 && t.0 <= t.1 <= t.2 <= t.3 <= t.4 <= t.5 <= s@.len(),
            None => r is None,
        },
{
    let lo = match rtt_prefix_exec(s) {
        Some(h) => h,
        None => {
            return None;
        },
    };
    let mut hi = s.len();
    while hi >= lo
        invariant
            4 <= lo <= s@.len(),
            lo - 1 <= hi <= s@.len(),
            rtt_match(s@) == triple_last(s@, lo as int, hi as int),
        decreases hi,
    {
        let t = triple_at_exec(s, hi);
        if t.is_some() {
            return t;
        }
        hi = hi - 1;
    }
    None
}

fn summary_exec(ls: &Vec<Vec<char>>, start: usize) -> (r: PingStats)
    requires
        start <= ls@.len(),
    ensures
        r@ == summary_spec(views(ls@).skip(start as int)),
{
    let ghost rest = views(ls@).skip(start as int);
    let mut stats = PingStats::default();
    if start < ls.len() {
        assert(rest[0] == ls@[start as int]@);
        let first = ls[start].as_slice();
        stats.total = count_exec(first, Counter::Transmitted);
        stats.rcv = count_exec(first, Counter::Received);
        stats.loss = loss_exec(first);
        stats.drop = match (stats.total, stats.rcv) {
            (Some(t), Some(r)) => Some(
                if t >= r {
                    t - r
                } else {
                    0
                },
            ),
            _ => None,
        };
    }
    if start < ls.len() && start + 1 < ls.len() {
        assert(rest[1] == ls@[start + 1]@);
        let second = ls[start + 1].as_slice();
        if let Some((a, b, c, d, e, f)) = rtt_match_exec(second) {
            stats.min = number_between_exec(second, a, b);
            stats.avg = number_between_exec(second, c, d);
            stats.max = number_between_exec(second, e, f);
        }
    }
    stats
}

fn stats_header_exec(s: &[char]) -> (b: bool)
    ensures
        b == stats_header(s@),
{
    let dashes = chars_of("---");
    let statistics = chars_of("statistics ---");
    proof {
        reveal_strlit("---");
        reveal_strlit("statistics ---");
    }
    if s.len() < 4 || !occurs_at_exec(s, dashes.as_slice(), 0) || !char_is_ws(s[3]) {
        return false;
    }
    let mut k: usize = 4;
    while k < s.len()
        invariant
            4 <= k <= s@.len(),
            s@.len() >= 4,
            occurs_at(s@, "---"@, 0),
            is_ws(s@[3]),
            statistics@ == "statistics ---"@,
            forall|j: int|
                4 <= j < k ==> !(is_ws(s@[j]) && #[trigger] occurs_at(s@, "statistics ---"@, j + 1)),
        decreases s.len() - k,
    {
        if char_is_ws(s[k]) && occurs_at_exec(s, statistics.as_slice(), k + 1) {
            return true;
        }
        k = k + 1;
    }
    false
}

fn stats_index_exec(ls: &Vec<Vec<char>>) -> (r: Option<usize>)
    ensures
        match stats_index(views(ls@), 0) {
            Some(i) => r == Some(i as usize) && 0 <= i < ls@.len(),
            None => r is None,
        },
{
    let ghost lv = views(ls@);
    let mut i: usize = 0;
    while i < ls.len()
        invariant
            i <= ls@.len(),
            lv == views(ls@),
            stats_index(lv, 0) == stats_index(lv, i as int),
        decreases ls.len() - i,
    {
        assert(lv[i as int] == ls@[i as int]@);
        if stats_header_exec(ls[i].as_slice()) {
            return Some(i);
        }
        i = i + 1;
    }
    None
}

fn timings_exec(ls: &Vec<Vec<char>>) -> (r: Vec<PingTiming>)
    requires
        ls@.len() >= 1,
    ensures
        timing_views(r@) == timings_spec(views(ls@).skip(1)),
{
    let ghost tail = views(ls@).skip(1);
    let mut out: Vec<PingTiming> = Vec::new();
    let mut k: usize = 1;
    assert(tail.take(0) =~= Seq::<Seq<char>>::empty());
    assert(timing_views(out@) =~= Seq::<TimingView>::empty());
    while k < ls.len()
        invariant
            1 <= k <= ls@.len(),
            tail == views(ls@).skip(1),
            timing_views(out@) == timings_spec(tail.take(k - 1)),
        decreases ls.len() - k,
    {
        let ghost prev = out@;
        assert(tail.take(k as int).drop_last() =~= tail.take(k - 1));
        assert(tail.take(k as int).last() == ls@[k as int]@);
        match packet_exec(ls[k].as_slice()) {
            Some(t) => {
                out.push(t);
                assert(timing_views(out@) =~= timing_views(prev).push(t@));
            },
            None => {},
        }
        k = k + 1;
    }
    assert(tail.take(ls@.len() - 1) =~= tail);
    out
}

/// Parse ping output.
pub fn parse(raw_output: &str) -> (r: ParsedPing)
    ensures
        r@ == parse_spec(raw_output@),
{
    let c = chars_of(raw_output);
    let ls = lines_of(c.as_slice());
    let ghost lv = views(ls@);
    let header = if c.len() == 0 || ls.len() == 0 {
        None
    } else {
        assert(lv[0] == ls@[0]@);
        header_addr_exec(ls[0].as_slice())
    };
    match header {
        None => {
            let timings: Vec<PingTiming> = Vec::new();
            assert(timing_views(timings@) =~= Seq::<TimingView>::empty());
            ParsedPing {
                status: PingStatus::Failed,
                raw_output: string_of(c.as_slice()),
                resolved_address: None,
                resolved_hostname: None,
                timings,
                stats: PingStats::default(),
            }
        },
        Some((a, e)) => {
            let first = ls[0].as_slice();
            let resolved_address = string_of_range(first, a, e);
            let hostname = if ls.len() >= 2 {
                assert(lv[1] == ls@[1]@);
                match hostname_exec(ls[1].as_slice()) {
                    Some((h, k)) => string_of_range(ls[1].as_slice(), h, k),
                    None => string_of(&[]),
                }
            } else {
                string_of(&[])
            };
            let timings = timings_exec(&ls);
            let stats = match stats_index_exec(&ls) {
                Some(i) => summary_exec(&ls, i + 1),
                None => PingStats::default(),
            };
            let trimmed = trim_end_char_exec(c.as_slice(), '\n');
            let done = ParsedPing {
                status: PingStatus::Finished,
                raw_output: string_of(trimmed.as_slice()),
                resolved_address: Some(resolved_address),
                resolved_hostname: Some(hostname),
                timings,
                stats,
            };
            let ghost want = parse_spec(raw_output@);
            assert(done@.status == want.status);
            assert(done@.raw_output == want.raw_output);
            assert(done@.resolved_address == want.resolved_address);
            assert(done@.resolved_hostname == want.resolved_hostname);
            assert(done@.timings == want.timings);
            assert(done@.stats == want.stats);
            done
        },
    }
}

// ── While ping runs ───────────────────────────────────────────────────────────

/// A reply line: `bytes from .* time=`.
pub open spec fn reply_line_spec(s: Seq<char>) -> bool {
    exists|i: int, j: int|
        #[trigger] occurs_at(s, "bytes from "@, i) && i + 11 <= j && #[trigger] occurs_at(s, " time="@, j)
}

/// Whether a line of ping output reports a reply.
pub fn is_reply_line(line: &str) -> (b: bool)
    ensures
        b == reply_line_spec(line@),
{
    let c = chars_of(line);
    let _len = c.len();
    let from = chars_of("bytes from ");
    let time = chars_of(" time=");
    proof {
        reveal_strlit("bytes from ");
        lemma_find_from(c@, from@, 0);
    }
    match find_exec(c.as_slice(), from.as_slice(), 0) {
        Some(i) => {
            proof {
                lemma_find_from(c@, time@, i + 11);
            }
            match find_exec(c.as_slice(), time.as_slice(), i + 11) {
                Some(j) => {
                    assert(occurs_at(c@, time@, j as int));
                    true
                },
                None => {
                    assert forall|a: int, b: int|
                        !(#[trigger] occurs_at(c@, from@, a) && a + 11 <= b && #[trigger] occurs_at(
                            c@,
                            time@,
                            b,
                        )) by {
                        if occurs_at(c@, from@, a) && a + 11 <= b && occurs_at(c@, time@, b) {
                            assert(i <= a);
                        }
                    }
                    false
                },
            }
        },
        None => false,
    }
}

/// Whether the address ping resolved so far is private: `None` until the
/// output names one.
pub open spec fn resolved_private_spec(raw: Seq<char>, local_ips: Seq<IpAddress>) -> Option<bool> {
    match parse_spec(raw).resolved_address {
        Some(a) => Some(private_literal(a, local_ips)),
        None => None,
    }
}

pub fn resolved_private(raw: &str, local_ips: &[IpAddress]) -> (r: Option<bool>)
    ensures
        r == resolved_private_spec(raw@, local_ips@),
{
    let p = parse(raw);
    match &p.resolved_address {
        Some(a) => Some(is_private_literal(a.as_str(), local_ips)),
        None => None,
    }
}

/// The result of a run stopped because the target resolved to a private
/// address.
pub fn refused_result() -> (r: ParsedPing)
    ensures
        r@.status == PingStatus::Failed,
        r@.raw_output == "Private IP ranges are not allowed."@,
        r@.resolved_address is None,
        r@.resolved_hostname is None,
        r@.timings.len() == 0,
        r@.stats == empty_stats(),
{
    let timings: Vec<PingTiming> = Vec::new();
    assert(timing_views(timings@) =~= Seq::<TimingView>::empty());
    ParsedPing {
        status: PingStatus::Failed,
        raw_output: "Private IP ranges are not allowed.".to_string(),
        resolved_address: None,
        resolved_hostname: None,
        timings,
        stats: PingStats::default(),
    }
}

// ── Laws ──────────────────────────────────────────────────────────────────────

/// Every lost packet is counted as dropped: whenever the summary gives both
/// the transmitted count `t` and the received count `r`, the dropped count
/// is `t - r` (`0` if more came back than were sent), so a run where nothing
/// came back drops all `t`; without both counts there is no dropped count.
pub proof fn law_drop_counts_every_lost_packet(raw: Seq<char>)
    ensures
        match (parse_spec(raw).stats.total, parse_spec(raw).stats.rcv) {
            (Some(t), Some(r)) => parse_spec(raw).stats.drop == Some(
                if t >= r {
                    (t - r) as u32
                } else {
                    0u32
                },
            ) && (r == 0 ==> parse_spec(raw).stats.drop == Some(t)),
            _ => parse_spec(raw).stats.drop is None,
        },
{
}

} // verus!
