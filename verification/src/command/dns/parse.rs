//! Parsers for `dig` output: classic queries and `+trace` runs.

use vstd::prelude::*;
use crate::text::{
    char_ascii_lower, char_is_ws, chars_eq, chars_of, contains_exec, contains_seq,
    eq_ignore_ascii_case, eq_ignore_ascii_case_exec, lemma_split_on_len, seq_ascii_lower,
    split_chars, split_on, starts_with, starts_with_exec, chars_range, re_digit_run, re_digit_run_exec, find_char_exec,
    find_char_from, find_exec, find_from, is_ascii_upper, is_ws, join, join_exec,
    lemma_re_digit_run_bound, lemma_find_char_from, lemma_find_from, lemma_nonws_run_bound,
    lemma_ws_run_bound, nonws_run, nonws_run_exec, occurs_at, occurs_at_exec, parse_unsigned,
    parse_unsigned_exec, string_of, views, opt_view, words, words_of, ws_run, ws_run_exec,
};
use crate::util::ip::{parse_ip, parse_ip_spec};
use crate::util::private_ip::{is_ip_private, is_ip_private_spec};
use crate::util::ip::IpAddress;

verus! {

// ── Result types ──────────────────────────────────────────────────────────────

#[derive(Debug, Clone, Copy, PartialEq, Eq, Structural)]
pub enum DnsStatus {
    Finished,
    Failed,
}

/// One resource record of an answer section.
#[derive(Debug, Clone, PartialEq)]
pub struct DnsAnswer {
    pub name: String,
    pub record_type: String,
    pub ttl: u32,
    pub class: String,
    pub value: String,
}

#[derive(Debug, Clone, PartialEq)]
pub struct DnsTimings {
    pub total: u32,
}

/// Result of a classic (non-trace) query.
#[derive(Debug, Clone)]
pub struct ClassicResult {
    pub status: DnsStatus,
    pub status_code_name: Option<String>,
    pub status_code: Option<u16>,
    pub answers: Vec<DnsAnswer>,
    pub timings: DnsTimings,
    pub resolver: Option<String>,
    pub raw_output: String,
}

/// One delegation step of a `+trace` run.
#[derive(Debug, Clone)]
pub struct TraceHop {
    pub answers: Vec<DnsAnswer>,
    pub timings: DnsTimings,
    pub resolver: Option<String>,
}

/// Result of a `+trace` query.
#[derive(Debug, Clone)]
pub struct TraceResult {
    pub status: DnsStatus,
    pub hops: Vec<TraceHop>,
    pub raw_output: String,
}

// ── Views ─────────────────────────────────────────────────────────────────────

pub struct AnswerView {
    pub name: Seq<char>,
    pub record_type: Seq<char>,
    pub ttl: u32,
    pub class: Seq<char>,
    pub value: Seq<char>,
}

impl View for DnsAnswer {
    type V = AnswerView;

    open spec fn view(&self) -> AnswerView {
        AnswerView {
            name: self.name@,
            record_type: self.record_type@,
            ttl: self.ttl,
            class: self.class@,
            value: self.value@,
        }
    }
}

pub open spec fn answer_views(v: Seq<DnsAnswer>) -> Seq<AnswerView> {
    v.map_values(|a: DnsAnswer| a@)
}


pub struct ClassicView {
    pub status: DnsStatus,
    pub status_code_name: Option<Seq<char>>,
    pub status_code: Option<u16>,
    pub answers: Seq<AnswerView>,
    pub total: u32,
    pub resolver: Option<Seq<char>>,
    pub raw_output: Seq<char>,
}

impl View for ClassicResult {
    type V = ClassicView;

    open spec fn view(&self) -> ClassicView {
        ClassicView {
            status: self.status,
            status_code_name: opt_view(self.status_code_name),
            status_code: self.status_code,
            answers: answer_views(self.answers@),
            total: self.timings.total,
            resolver: opt_view(self.resolver),
            raw_output: self.raw_output@,
        }
    }
}

pub struct HopView {
    pub answers: Seq<AnswerView>,
    pub total: u32,
    pub resolver: Option<Seq<char>>,
}

impl View for TraceHop {
    type V = HopView;

    open spec fn view(&self) -> HopView {
        HopView {
            answers: answer_views(self.answers@),
            total: self.timings.total,
            resolver: opt_view(self.resolver),
        }
    }
}

pub open spec fn hop_views(v: Seq<TraceHop>) -> Seq<HopView> {
    v.map_values(|h: TraceHop| h@)
}

pub struct TraceView {
    pub status: DnsStatus,
    pub hops: Seq<HopView>,
    pub raw_output: Seq<char>,
}

impl View for TraceResult {
    type V = TraceView;

    open spec fn view(&self) -> TraceView {
        TraceView { status: self.status, hops: hop_views(self.hops@), raw_output: self.raw_output@ }
    }
}

// ── Answer lines ──────────────────────────────────────────────────────────────

/// An answer line `name TTL class type value...`: at least five words, the
/// second a `u32`; the value is the remaining words joined by single spaces.
pub open spec fn parse_answer_spec(line: Seq<char>) -> Option<AnswerView> {
    let parts = words(line);
    if parts.len() < 5 {
        None
    } else {
        match parse_unsigned(parts[1], u32::MAX as nat) {
            None => None,
            Some(t) => Some(
                AnswerView {
                    name: parts[0],
                    record_type: parts[3],
                    ttl: t as u32,
                    class: parts[2],
                    value: join(parts.skip(4), " "@),
                },
            ),
        }
    }
}

/// Parse one answer line: `name  TTL  class  type  value...`
pub fn parse_answer_line(line: &str) -> (r: Option<DnsAnswer>)
    ensures
        match parse_answer_spec(line@) {
            Some(a) => r matches Some(x) && x@ == a,
            None => r is None,
        },
{
    let c = chars_of(line);
    parse_answer_chars(c.as_slice())
}

fn parse_answer_chars(line: &[char]) -> (r: Option<DnsAnswer>)
    ensures
        match parse_answer_spec(line@) {
            Some(a) => r matches Some(x) && x@ == a,
            None => r is None,
        },
{
    let parts = words_of(line);
    let ghost pv = views(parts@);
    if parts.len() < 5 {
        return None;
    }
    assert(pv[1] == parts@[1]@);
    let ttl = parse_unsigned_exec(parts[1].as_slice(), 0xffff_ffff);
    match ttl {
        None => None,
        Some(t) => {
            let mut rest: Vec<Vec<char>> = Vec::new();
            let mut i: usize = 4;
            assert(views(rest@) =~= pv.subrange(4, 4));
            while i < parts.len()
                invariant
                    4 <= i <= parts@.len(),
                    pv == views(parts@),
                    views(rest@) == pv.subrange(4, i as int),
                decreases parts.len() - i,
            {
                let ghost prev = rest@;
                rest.push(parts[i].clone());
                assert(views(rest@) =~= views(prev).push(pv[i as int]));
                assert(pv.subrange(4, i + 1) =~= pv.subrange(4, i as int).push(pv[i as int]));
                i = i + 1;
            }
            assert(pv.subrange(4, parts@.len() as int) =~= pv.skip(4));
            let sp = chars_of(" ");
            let value = join_exec(rest.as_slice(), sp.as_slice());
            assert(pv[0] == parts@[0]@ && pv[2] == parts@[2]@ && pv[3] == parts@[3]@);
            Some(
                DnsAnswer {
                    name: string_of(parts[0].as_slice()),
                    record_type: string_of(parts[3].as_slice()),
                    ttl: t as u32,
                    class: string_of(parts[2].as_slice()),
                    value: string_of(value.as_slice()),
                },
            )
        },
    }
}

// ── Line matchers ─────────────────────────────────────────────────────────────

/// `Query\s+time:\s+(\d+)` matched at `p`: the digits.
pub open spec fn query_time_at(line: Seq<char>, p: int) -> Option<Seq<char>> {
    let a = p + "Query"@.len();
    let w1 = ws_run(line, a);
    let b = a + w1 + "time:"@.len();
    let w2 = ws_run(line, b);
    let c = b + w2;
    let d = re_digit_run(line, c);
    if occurs_at(line, "Query"@, p) && w1 >= 1 && occurs_at(line, "time:"@, a + w1) && w2 >= 1 && d
        >= 1 {
        Some(line.subrange(c, c + d))
    } else {
        None
    }
}

/// Leftmost match of `Query\s+time:\s+(\d+)` at or after `p`.
pub open spec fn query_time_from(line: Seq<char>, p: int) -> Option<Seq<char>>
    decreases line.len() + 1 - p,
{
    if p < 0 || p > line.len() {
        None
    } else {
        match query_time_at(line, p) {
            Some(x) => Some(x),
            None => query_time_from(line, p + 1),
        }
    }
}

/// Length of the run of ASCII capitals starting at `i`.
pub open spec fn upper_run(s: Seq<char>, i: int) -> nat
    decreases s.len() - i,
{
    if 0 <= i < s.len() && is_ascii_upper(s[i]) {
        1 + upper_run(s, i + 1)
    } else {
        0
    }
}

/// `status:\s*([A-Z]+)` matched at `p`: the status name.
pub open spec fn status_at(line: Seq<char>, p: int) -> Option<Seq<char>> {
    let a = p + "status:"@.len();
    let c = a + ws_run(line, a);
    let u = upper_run(line, c);
    if occurs_at(line, "status:"@, p) && u >= 1 {
        Some(line.subrange(c, c + u))
    } else {
        None
    }
}

/// Leftmost match of `status:\s*([A-Z]+)` at or after `p`.
pub open spec fn status_from(line: Seq<char>, p: int) -> Option<Seq<char>>
    decreases line.len() + 1 - p,
{
    if p < 0 || p > line.len() {
        None
    } else {
        match status_at(line, p) {
            Some(x) => Some(x),
            None => status_from(line, p + 1),
        }
    }
}

/// `SERVER:.*?\((.*?)\)`: after the first `SERVER:`, the text between the
/// first `(` and the first `)` after it.
pub open spec fn resolver_of(line: Seq<char>) -> Option<Seq<char>> {
    match find_from(line, "SERVER:"@, 0) {
        None => None,
        Some(k) => match find_char_from(line, '(', k + "SERVER:"@.len()) {
            None => None,
            Some(q) => match find_char_from(line, ')', q + 1) {
                None => None,
                Some(r) => Some(line.subrange(q + 1, r)),
            },
        },
    }
}

/// `(;; )(\S+)( SECTION:)` matched at `p`: the section name.
pub open spec fn section_at(line: Seq<char>, p: int) -> Option<Seq<char>> {
    let a = p + ";; "@.len();
    let k = nonws_run(line, a);
    if occurs_at(line, ";; "@, p) && k >= 1 && occurs_at(line, " SECTION:"@, a + k) {
        Some(line.subrange(a, a + k))
    } else {
        None
    }
}

/// Leftmost match of `(;; )(\S+)( SECTION:)` at or after `p`.
pub open spec fn section_from(line: Seq<char>, p: int) -> Option<Seq<char>>
    decreases line.len() + 1 - p,
{
    if p < 0 || p > line.len() {
        None
    } else {
        match section_at(line, p) {
            Some(x) => Some(x),
            None => section_from(line, p + 1),
        }
    }
}

/// Length of the run of characters other than whitespace and `#` from `i`.
pub open spec fn host_run(s: Seq<char>, i: int) -> nat
    decreases s.len() - i,
{
    if 0 <= i < s.len() && !is_ws(s[i]) && s[i] != '#' {
        1 + host_run(s, i + 1)
    } else {
        0
    }
}

/// `SERVER:\s*([^\s#]+)` matched at `p`: the server address.
pub open spec fn server_ip_at(line: Seq<char>, p: int) -> Option<Seq<char>> {
    let a = p + "SERVER:"@.len();
    let c = a + ws_run(line, a);
    let k = host_run(line, c);
    if occurs_at(line, "SERVER:"@, p) && k >= 1 {
        Some(line.subrange(c, c + k))
    } else {
        None
    }
}

/// Leftmost match of `SERVER:\s*([^\s#]+)` at or after `p`.
pub open spec fn server_ip_from(line: Seq<char>, p: int) -> Option<Seq<char>>
    decreases line.len() + 1 - p,
{
    if p < 0 || p > line.len() {
        None
    } else {
        match server_ip_at(line, p) {
            Some(x) => Some(x),
            None => server_ip_from(line, p + 1),
        }
    }
}

/// `str::replace(from, to)` applied to `s[i..]`: every non-overlapping
/// occurrence of `from`, left to right, replaced by `to`.
pub open spec fn replace_from(s: Seq<char>, from: Seq<char>, to: Seq<char>, i: int) -> Seq<char>
    decreases s.len() + 1 - i,
{
    if from.len() == 0 || i < 0 || i > s.len() {
        s.skip(i)
    } else {
        match find_from(s, from, i) {
            None => s.skip(i),
            Some(k) => {
                proof {
                    lemma_find_from(s, from, i);
                }
                s.subrange(i, k) + to + replace_from(s, from, to, k + from.len())
            },
        }
    }
}

/// `s.replace(from, to)`.
pub open spec fn replace_all(s: Seq<char>, from: Seq<char>, to: Seq<char>) -> Seq<char> {
    replace_from(s, from, to, 0)
}

// ── Status codes ──────────────────────────────────────────────────────────────

/// The numeric DNS status code of a lowercased status name.
pub open spec fn status_code_of(name: Seq<char>) -> Option<u16> {
    if name == "noerror"@ {
        Some(0)
    } else if name == "formerr"@ {
        Some(1)
    } else if name == "servfail"@ {
        Some(2)
    } else if name == "nxdomain"@ {
        Some(3)
    } else if name == "notimp"@ {
        Some(4)
    } else if name == "refused"@ {
        Some(5)
    } else if name == "yxdomain"@ {
        Some(6)
    } else if name == "yxrrset"@ {
        Some(7)
    } else if name == "nxrrset"@ {
        Some(8)
    } else if name == "notauth"@ {
        Some(9)
    } else if name == "notzone"@ {
        Some(10)
    } else if name == "dsotypeni"@ {
        Some(11)
    } else if name == "badvers"@ {
        Some(16)
    } else if name == "badsig"@ {
        Some(16)
    } else if name == "badkey"@ {
        Some(17)
    } else if name == "badtime"@ {
        Some(18)
    } else if name == "badmode"@ {
        Some(19)
    } else if name == "badname"@ {
        Some(20)
    } else if name == "badalg"@ {
        Some(21)
    } else if name == "badtrunc"@ {
        Some(22)
    } else if name == "badcookie"@ {
        Some(23)
    } else {
        None
    }
}

fn is_name(name: &[char], lit: &str) -> (b: bool)
    ensures
        b == (name@ == lit@),
{
    let l = chars_of(lit);
    chars_eq(name, l.as_slice())
}

fn status_code_exec(name: &[char]) -> (r: Option<u16>)
    ensures
        r == status_code_of(name@),
{
    if is_name(name, "noerror") {
        Some(0)
    } else if is_name(name, "formerr") {
        Some(1)
    } else if is_name(name, "servfail") {
        Some(2)
    } else if is_name(name, "nxdomain") {
        Some(3)
    } else if is_name(name, "notimp") {
        Some(4)
    } else if is_name(name, "refused") {
        Some(5)
    } else if is_name(name, "yxdomain") {
        Some(6)
    } else if is_name(name, "yxrrset") {
        Some(7)
    } else if is_name(name, "nxrrset") {
        Some(8)
    } else if is_name(name, "notauth") {
        Some(9)
    } else if is_name(name, "notzone") {
        Some(10)
    } else if is_name(name, "dsotypeni") {
        Some(11)
    } else if is_name(name, "badvers") {
        Some(16)
    } else if is_name(name, "badsig") {
        Some(16)
    } else if is_name(name, "badkey") {
        Some(17)
    } else if is_name(name, "badtime") {
        Some(18)
    } else if is_name(name, "badmode") {
        Some(19)
    } else if is_name(name, "badname") {
        Some(20)
    } else if is_name(name, "badalg") {
        Some(21)
    } else if is_name(name, "badtrunc") {
        Some(22)
    } else if is_name(name, "badcookie") {
        Some(23)
    } else {
        None
    }
}


// ── Executable matchers ───────────────────────────────────────────────────────

pub open spec fn opt_chars(o: Option<Vec<char>>) -> Option<Seq<char>> {
    match o {
        Some(v) => Some(v@),
        None => None,
    }
}

fn query_time_at_exec(line: &[char], p: usize) -> (r: Option<Vec<char>>)
    requires
        p <= line@.len(),
    ensures
        opt_chars(r) == query_time_at(line@, p as int),
{
    let _n = line.len();
    let q = chars_of("Query");
    if !occurs_at_exec(line, q.as_slice(), p) {
        return None;
    }
    let a = p + q.len();
    let w1 = ws_run_exec(line, a);
    proof {
        lemma_ws_run_bound(line@, a as int);
    }
    if w1 < 1 {
        return None;
    }
    let t = chars_of("time:");
    if !occurs_at_exec(line, t.as_slice(), a + w1) {
        return None;
    }
    let b = a + w1 + t.len();
    let w2 = ws_run_exec(line, b);
    proof {
        lemma_ws_run_bound(line@, b as int);
    }
    if w2 < 1 {
        return None;
    }
    let c = b + w2;
    let d = re_digit_run_exec(line, c);
    proof {
        lemma_re_digit_run_bound(line@, c as int);
    }
    if d < 1 {
        return None;
    }
    Some(chars_range(line, c, c + d))
}

fn query_time_exec(line: &[char]) -> (r: Option<Vec<char>>)
    ensures
        opt_chars(r) == query_time_from(line@, 0),
{
    let mut p: usize = 0;
    while p <= line.len()
        invariant
            p <= line@.len() + 1,
            query_time_from(line@, 0) == query_time_from(line@, p as int),
        decreases line.len() + 1 - p,
    {
        let r = query_time_at_exec(line, p);
        if r.is_some() {
            return r;
        }
        if p == line.len() {
            assert(query_time_from(line@, p + 1) is None);
            return None;
        }
        p = p + 1;
    }
    None
}

fn upper_run_exec(s: &[char], i: usize) -> (n: usize)
    requires
        i <= s@.len(),
    ensures
        n == upper_run(s@, i as int),
{
    let mut j = i;
    while j < s.len() && 'A' <= s[j] && s[j] <= 'Z'
        invariant
            i <= j <= s@.len(),
            upper_run(s@, i as int) == (j - i) + upper_run(s@, j as int),
        decreases s.len() - j,
    {
        j = j + 1;
    }
    j - i
}

proof fn lemma_upper_run_bound(s: Seq<char>, i: int)
    requires
        0 <= i <= s.len(),
    ensures
        i + upper_run(s, i) <= s.len(),
        forall|j: int| i <= j < i + upper_run(s, i) ==> is_ascii_upper(#[trigger] s[j]),
    decreases s.len() - i,
{
    if i < s.len() && is_ascii_upper(s[i]) {
        lemma_upper_run_bound(s, i + 1);
    }
}

fn status_at_exec(line: &[char], p: usize) -> (r: Option<Vec<char>>)
    requires
        p <= line@.len(),
    ensures
        opt_chars(r) == status_at(line@, p as int),
{
    let _n = line.len();
    let q = chars_of("status:");
    if !occurs_at_exec(line, q.as_slice(), p) {
        return None;
    }
    let a = p + q.len();
    let w = ws_run_exec(line, a);
    proof {
        lemma_ws_run_bound(line@, a as int);
    }
    let c = a + w;
    let u = upper_run_exec(line, c);
    proof {
        lemma_upper_run_bound(line@, c as int);
    }
    if u < 1 {
        return None;
    }
    Some(chars_range(line, c, c + u))
}

fn status_exec(line: &[char]) -> (r: Option<Vec<char>>)
    ensures
        opt_chars(r) == status_from(line@, 0),
{
    let mut p: usize = 0;
    while p <= line.len()
        invariant
            p <= line@.len() + 1,
            status_from(line@, 0) == status_from(line@, p as int),
        decreases line.len() + 1 - p,
    {
        let r = status_at_exec(line, p);
        if r.is_some() {
            return r;
        }
        if p == line.len() {
            assert(status_from(line@, p + 1) is None);
            return None;
        }
        p = p + 1;
    }
    None
}

fn resolver_exec(line: &[char]) -> (r: Option<Vec<char>>)
    ensures
        opt_chars(r) == resolver_of(line@),
{
    let _n = line.len();
    let sv = chars_of("SERVER:");
    proof {
        lemma_find_from(line@, sv@, 0);
    }
    match find_exec(line, sv.as_slice(), 0) {
        None => None,
        Some(k) => {
            let from = k + sv.len();
            proof {
                lemma_find_char_from(line@, '(', from as int);
            }
            match find_char_exec(line, '(', from) {
                None => None,
                Some(q) => {
                    proof {
                        lemma_find_char_from(line@, ')', q + 1);
                    }
                    match find_char_exec(line, ')', q + 1) {
                        None => None,
                        Some(r) => Some(chars_range(line, q + 1, r)),
                    }
                },
            }
        },
    }
}

fn section_at_exec(line: &[char], p: usize) -> (r: Option<Vec<char>>)
    requires
        p <= line@.len(),
    ensures
        opt_chars(r) == section_at(line@, p as int),
{
    let _n = line.len();
    let q = chars_of(";; ");
    if !occurs_at_exec(line, q.as_slice(), p) {
        return None;
    }
    let a = p + q.len();
    let k = nonws_run_exec(line, a);
    proof {
        lemma_nonws_run_bound(line@, a as int);
    }
    if k < 1 {
        return None;
    }
    let t = chars_of(" SECTION:");
    if !occurs_at_exec(line, t.as_slice(), a + k) {
        return None;
    }
    Some(chars_range(line, a, a + k))
}

fn section_exec(line: &[char]) -> (r: Option<Vec<char>>)
    ensures
        opt_chars(r) == section_from(line@, 0),
{
    let mut p: usize = 0;
    while p <= line.len()
        invariant
            p <= line@.len() + 1,
            section_from(line@, 0) == section_from(line@, p as int),
        decreases line.len() + 1 - p,
    {
        let r = section_at_exec(line, p);
        if r.is_some() {
            return r;
        }
        if p == line.len() {
            assert(section_from(line@, p + 1) is None);
            return None;
        }
        p = p + 1;
    }
    None
}

fn host_run_exec(s: &[char], i: usize) -> (n: usize)
    requires
        i <= s@.len(),
    ensures
        n == host_run(s@, i as int),
{
    let mut j = i;
    while j < s.len() && !char_is_ws(s[j]) && s[j] != '#'
        invariant
            i <= j <= s@.len(),
            host_run(s@, i as int) == (j - i) + host_run(s@, j as int),
        decreases s.len() - j,
    {
        j = j + 1;
    }
    j - i
}

proof fn lemma_host_run_bound(s: Seq<char>, i: int)
    requires
        0 <= i <= s.len(),
    ensures
        i + host_run(s, i) <= s.len(),
    decreases s.len() - i,
{
    if i < s.len() && !is_ws(s[i]) && s[i] != '#' {
        lemma_host_run_bound(s, i + 1);
    }
}

fn server_ip_at_exec(line: &[char], p: usize) -> (r: Option<Vec<char>>)
    requires
        p <= line@.len(),
    ensures
        opt_chars(r) == server_ip_at(line@, p as int),
{
    let _n = line.len();
    let q = chars_of("SERVER:");
    if !occurs_at_exec(line, q.as_slice(), p) {
        return None;
    }
    let a = p + q.len();
    let w = ws_run_exec(line, a);
    proof {
        lemma_ws_run_bound(line@, a as int);
    }
    let c = a + w;
    let k = host_run_exec(line, c);
    proof {
        lemma_host_run_bound(line@, c as int);
    }
    if k < 1 {
        return None;
    }
    Some(chars_range(line, c, c + k))
}

fn server_ip_exec(line: &[char]) -> (r: Option<Vec<char>>)
    ensures
        opt_chars(r) == server_ip_from(line@, 0),
{
    let mut p: usize = 0;
    while p <= line.len()
        invariant
            p <= line@.len() + 1,
            server_ip_from(line@, 0) == server_ip_from(line@, p as int),
        decreases line.len() + 1 - p,
    {
        let r = server_ip_at_exec(line, p);
        if r.is_some() {
            return r;
        }
        if p == line.len() {
            assert(server_ip_from(line@, p + 1) is None);
            return None;
        }
        p = p + 1;
    }
    None
}

fn push_range(out: &mut Vec<char>, s: &[char], from: usize, to: usize)
    requires
        from <= to <= s@.len(),
    ensures
        final(out)@ == old(out)@ + s@.subrange(from as int, to as int),
{
    let ghost start = out@;
    let mut i = from;
    assert(out@ =~= start + s@.subrange(from as int, from as int));
    while i < to
        invariant
            from <= i <= to <= s@.len(),
            out@ == start + s@.subrange(from as int, i as int),
        decreases to - i,
    {
        out.push(s[i]);
        assert(out@ =~= start + s@.subrange(from as int, i + 1));
        i = i + 1;
    }
}

fn replace_all_exec(s: &[char], from: &[char], to: &[char]) -> (r: Vec<char>)
    requires
        from@.len() > 0,
    ensures
        r@ == replace_all(s@, from@, to@),
{
    let mut out: Vec<char> = Vec::new();
    let mut i: usize = 0;
    assert(out@ + replace_from(s@, from@, to@, 0) =~= replace_all(s@, from@, to@));
    loop
        invariant
            i <= s@.len(),
            from@.len() > 0,
            out@ + replace_from(s@, from@, to@, i as int) == replace_all(s@, from@, to@),
        decreases s.len() - i,
    {
        proof {
            lemma_find_from(s@, from@, i as int);
        }
        match find_exec(s, from, i) {
            None => {
                let ghost before = out@;
                push_range(&mut out, s, i, s.len());
                assert(s@.subrange(i as int, s@.len() as int) =~= s@.skip(i as int));
                assert(out@ == before + replace_from(s@, from@, to@, i as int));
                return out;
            },
            Some(k) => {
                let ghost before = out@;
                push_range(&mut out, s, i, k);
                push_range(&mut out, to, 0, to.len());
                assert(to@.subrange(0, to@.len() as int) =~= to@);
                assert(out@ + replace_from(s@, from@, to@, k + from@.len()) =~= before
                    + replace_from(s@, from@, to@, i as int));
                i = k + from.len();
            },
        }
    }
}


// ── Rewriting private resolvers ───────────────────────────────────────────────

/// A `SERVER:` line naming a private address gets that address replaced by
/// `x.x.x.x`; every other line is kept.
pub open spec fn rewrite_line(line: Seq<char>, local_ips: Seq<IpAddress>) -> Seq<char> {
    if !contains_seq(line, "SERVER:"@) {
        line
    } else {
        match server_ip_from(line, 0) {
            Some(ip) => match parse_ip_spec(ip) {
                Some(a) => if is_ip_private_spec(a, local_ips) {
                    replace_all(line, ip, "x.x.x.x"@)
                } else {
                    line
                },
                None => line,
            },
            None => line,
        }
    }
}

/// `raw` with private addresses on `SERVER:` lines hidden.
pub open spec fn rewrite_classic_spec(raw: Seq<char>, local_ips: Seq<IpAddress>) -> Seq<char> {
    join(split_on(raw, '\n').map_values(|l: Seq<char>| rewrite_line(l, local_ips)), "\n"@)
}

fn rewrite_line_exec(line: &[char], local_ips: &[IpAddress]) -> (r: Vec<char>)
    ensures
        r@ == rewrite_line(line@, local_ips@),
{
    let sv = chars_of("SERVER:");
    assert(line@.subrange(0, line@.len() as int) =~= line@);
    if !contains_exec(line, sv.as_slice()) {
        return chars_range(line, 0, line.len());
    }
    match server_ip_exec(line) {
        None => chars_range(line, 0, line.len()),
        Some(ip) => match parse_ip(ip.as_slice()) {
            None => chars_range(line, 0, line.len()),
            Some(a) => {
                if is_ip_private(a, local_ips) {
                    proof {
                        lemma_server_ip_nonempty(line@, 0);
                    }
                    let x = chars_of("x.x.x.x");
                    replace_all_exec(line, ip.as_slice(), x.as_slice())
                } else {
                    chars_range(line, 0, line.len())
                }
            },
        },
    }
}

proof fn lemma_server_ip_nonempty(line: Seq<char>, p: int)
    ensures
        server_ip_from(line, p) matches Some(ip) ==> ip.len() > 0,
    decreases line.len() + 1 - p,
{
    if 0 <= p <= line.len() {
        if server_ip_at(line, p) is None {
            lemma_server_ip_nonempty(line, p + 1);
        } else {
            let a = p + "SERVER:"@.len();
            let c = a + ws_run(line, a);
            if 0 <= c <= line.len() {
                lemma_host_run_bound(line, c);
            }
        }
    }
}

/// Replace private IPs in `SERVER:` lines with `x.x.x.x` so the output is
/// safe to transmit; the parser then reports the resolver as `private`.
pub fn rewrite_classic(raw: &str, local_ips: &[IpAddress]) -> (r: String)
    ensures
        r@ == rewrite_classic_spec(raw@, local_ips@),
{
    let c = chars_of(raw);
    let v = rewrite_classic_chars(c.as_slice(), local_ips);
    string_of(v.as_slice())
}

fn rewrite_classic_chars(raw: &[char], local_ips: &[IpAddress]) -> (r: Vec<char>)
    ensures
        r@ == rewrite_classic_spec(raw@, local_ips@),
{
    let lines = split_chars(raw, '\n');
    let ghost lv = views(lines@);
    let ghost mapped = lv.map_values(|l: Seq<char>| rewrite_line(l, local_ips@));
    let mut out: Vec<Vec<char>> = Vec::new();
    let mut i: usize = 0;
    while i < lines.len()
        invariant
            i <= lines@.len(),
            lv == views(lines@),
            mapped == lv.map_values(|l: Seq<char>| rewrite_line(l, local_ips@)),
            views(out@) == mapped.take(i as int),
        decreases lines.len() - i,
    {
        let r = rewrite_line_exec(lines[i].as_slice(), local_ips);
        let ghost prev = out@;
        out.push(r);
        assert(views(out@) =~= views(prev).push(r@));
        assert(mapped.take(i + 1) =~= mapped.take(i as int).push(mapped[i as int]));
        i = i + 1;
    }
    assert(mapped.take(lines@.len() as int) =~= mapped);
    let nl = chars_of("\n");
    join_exec(out.as_slice(), nl.as_slice())
}

// ── Classic output ────────────────────────────────────────────────────────────

/// The section of `dig` output a line belongs to.
#[derive(Debug, Clone, Copy, PartialEq, Eq, Structural)]
pub enum DigSection {
    Blank,
    Header,
    Question,
    Answer,
    Authority,
    Additional,
    Other,
}

pub open spec fn section_kind(name: Seq<char>) -> DigSection {
    if eq_ignore_ascii_case(name, "ANSWER"@) {
        DigSection::Answer
    } else if eq_ignore_ascii_case(name, "QUESTION"@) {
        DigSection::Question
    } else if eq_ignore_ascii_case(name, "AUTHORITY"@) {
        DigSection::Authority
    } else if eq_ignore_ascii_case(name, "ADDITIONAL"@) {
        DigSection::Additional
    } else {
        DigSection::Other
    }
}

fn section_kind_exec(name: &[char]) -> (k: DigSection)
    ensures
        k == section_kind(name@),
{
    let a = chars_of("ANSWER");
    let q = chars_of("QUESTION");
    let au = chars_of("AUTHORITY");
    let ad = chars_of("ADDITIONAL");
    if eq_ignore_ascii_case_exec(name, a.as_slice()) {
        DigSection::Answer
    } else if eq_ignore_ascii_case_exec(name, q.as_slice()) {
        DigSection::Question
    } else if eq_ignore_ascii_case_exec(name, au.as_slice()) {
        DigSection::Authority
    } else if eq_ignore_ascii_case_exec(name, ad.as_slice()) {
        DigSection::Additional
    } else {
        DigSection::Other
    }
}

/// What the classic parser has gathered after some lines.
pub struct ClassicState {
    pub answers: Seq<AnswerView>,
    pub total: u32,
    pub resolver: Option<Seq<char>>,
    pub status_code_name: Option<Seq<char>>,
    pub status_code: Option<u16>,
    pub section: DigSection,
}

pub open spec fn classic_initial() -> ClassicState {
    ClassicState {
        answers: Seq::empty(),
        total: 0,
        resolver: None,
        status_code_name: None,
        status_code: None,
        section: DigSection::Header,
    }
}

/// One line of classic output: query time, status, resolver and section
/// headers are picked up where they occur; records are taken from lines of
/// the answer section that do not start with `;`.
pub open spec fn classic_step(st: ClassicState, line: Seq<char>) -> ClassicState {
    let total = match query_time_from(line, 0) {
        Some(d) => match parse_unsigned(d, u32::MAX as nat) {
            Some(v) => v as u32,
            None => 0,
        },
        None => st.total,
    };
    let (code_name, code) = match status_from(line, 0) {
        Some(n) => (Some(n), status_code_of(seq_ascii_lower(n))),
        None => (st.status_code_name, st.status_code),
    };
    let resolver = match resolver_of(line) {
        Some(ip) => Some(
            if ip == "x.x.x.x"@ {
                "private"@
            } else {
                ip
            },
        ),
        None => st.resolver,
    };
    let (section, changed) = if line.len() == 0 {
        (DigSection::Blank, false)
    } else {
        match section_from(line, 0) {
            Some(n) => (section_kind(n), true),
            None => (st.section, false),
        }
    };
    let answers = if section == DigSection::Blank || changed {
        st.answers
    } else if section == DigSection::Answer && !starts_with(line, ";"@) {
        match parse_answer_spec(line) {
            Some(a) => st.answers.push(a),
            None => st.answers,
        }
    } else {
        st.answers
    };
    ClassicState {
        answers,
        total,
        resolver,
        status_code_name: code_name,
        status_code: code,
        section,
    }
}

pub open spec fn classic_fold(lines: Seq<Seq<char>>) -> ClassicState
    decreases lines.len(),
{
    if lines.len() == 0 {
        classic_initial()
    } else {
        classic_step(classic_fold(lines.drop_last()), lines.last())
    }
}

/// Classic `dig` output parsed: after hiding private resolvers, output of
/// fewer than six lines, or starting with `;; Got bad packet:`, is a failure.
pub open spec fn parse_classic_spec(raw: Seq<char>, local_ips: Seq<IpAddress>) -> ClassicView {
    let rw = rewrite_classic_spec(raw, local_ips);
    let lines = split_on(rw, '\n');
    if lines.len() < 6 || starts_with(lines[0], ";; Got bad packet:"@) {
        ClassicView {
            status: DnsStatus::Failed,
            status_code_name: None,
            status_code: None,
            answers: Seq::empty(),
            total: 0,
            resolver: None,
            raw_output: rw,
        }
    } else {
        let st = classic_fold(lines);
        ClassicView {
            status: DnsStatus::Finished,
            status_code_name: st.status_code_name,
            status_code: st.status_code,
            answers: st.answers,
            total: st.total,
            resolver: st.resolver,
            raw_output: rw,
        }
    }
}

fn lower_chars(s: &[char]) -> (r: Vec<char>)
    ensures
        r@ == seq_ascii_lower(s@),
{
    let mut r: Vec<char> = Vec::new();
    let mut i: usize = 0;
    while i < s.len()
        invariant
            i <= s@.len(),
            r@ == seq_ascii_lower(s@.take(i as int)),
        decreases s.len() - i,
    {
        r.push(char_ascii_lower(s[i]));
        assert(r@ =~= seq_ascii_lower(s@.take(i + 1)));
        i = i + 1;
    }
    assert(s@.take(s@.len() as int) =~= s@);
    r
}

/// Parse classic `dig` output (no `+trace`). Private resolver addresses,
/// including the probe's own `local_ips`, are hidden first.
pub fn parse_classic(raw: &str, local_ips: &[IpAddress]) -> (r: ClassicResult)
    ensures
        r@ == parse_classic_spec(raw@, local_ips@),
{
    let rc = chars_of(raw);
    let rw = rewrite_classic_chars(rc.as_slice(), local_ips);
    let lines = split_chars(rw.as_slice(), '\n');
    let ghost lv = views(lines@);
    proof {
        lemma_split_on_len(rw@, '\n');
    }
    let bad = chars_of(";; Got bad packet:");
    if lines.len() < 6 || starts_with_exec(lines[0].as_slice(), bad.as_slice()) {
        let empty: Vec<DnsAnswer> = Vec::new();
        assert(answer_views(empty@) =~= Seq::<AnswerView>::empty());
        return ClassicResult {
            status: DnsStatus::Failed,
            status_code_name: None,
            status_code: None,
            answers: empty,
            timings: DnsTimings { total: 0 },
            resolver: None,
            raw_output: string_of(rw.as_slice()),
        };
    }
    let mut answers: Vec<DnsAnswer> = Vec::new();
    let mut total: u32 = 0;
    let mut resolver: Option<String> = None;
    let mut code_name: Option<String> = None;
    let mut code: Option<u16> = None;
    let mut section = DigSection::Header;
    let mut i: usize = 0;
    assert(lv.take(0) =~= Seq::<Seq<char>>::empty());
    assert(answer_views(answers@) =~= Seq::<AnswerView>::empty());
    while i < lines.len()
        invariant
            i <= lines@.len(),
            lv == views(lines@),
            classic_fold(lv.take(i as int)) == (ClassicState {
                answers: answer_views(answers@),
                total,
                resolver: opt_view(resolver),
                status_code_name: opt_view(code_name),
                status_code: code,
                section,
            }),
        decreases lines.len() - i,
    {
        let line = lines[i].as_slice();
        assert(line@ == lv[i as int]);
        assert(lv.take(i + 1).drop_last() =~= lv.take(i as int));
        assert(lv.take(i + 1).last() == lv[i as int]);
        match query_time_exec(line) {
            Some(d) => {
                total = match parse_unsigned_exec(d.as_slice(), 0xffff_ffff) {
                    Some(v) => v as u32,
                    None => 0,
                };
            },
            None => {},
        }
        match status_exec(line) {
            Some(n) => {
                let low = lower_chars(n.as_slice());
                code = status_code_exec(low.as_slice());
                code_name = Some(string_of(n.as_slice()));
            },
            None => {},
        }
        match resolver_exec(line) {
            Some(ip) => {
                let x = chars_of("x.x.x.x");
                if chars_eq(ip.as_slice(), x.as_slice()) {
                    resolver = Some("private".to_string());
                } else {
                    resolver = Some(string_of(ip.as_slice()));
                }
            },
            None => {},
        }
        let mut changed = false;
        if line.len() == 0 {
            section = DigSection::Blank;
        } else {
            match section_exec(line) {
                Some(n) => {
                    section = section_kind_exec(n.as_slice());
                    changed = true;
                },
                None => {},
            }
        }
        if !(section == DigSection::Blank || changed) {
            let semi = chars_of(";");
            if section == DigSection::Answer && !starts_with_exec(line, semi.as_slice()) {
                match parse_answer_chars(line) {
                    Some(a) => {
                        let ghost prev = answers@;
                        answers.push(a);
                        assert(answer_views(answers@) =~= answer_views(prev).push(a@));
                    },
                    None => {},
                }
            }
        }
        i = i + 1;
    }
    assert(lv.take(lines@.len() as int) =~= lv);
    ClassicResult {
        status: DnsStatus::Finished,
        status_code_name: code_name,
        status_code: code,
        answers,
        timings: DnsTimings { total },
        resolver,
        raw_output: string_of(rw.as_slice()),
    }
}


// ── Trace output ──────────────────────────────────────────────────────────────

/// The rest of `from\s+\S+\(([^)]+)\)\s+in\s+(\d+)\s+ms` when the `(` is at
/// `j`: the resolver name and the milliseconds.
pub open spec fn trace_tail_at(line: Seq<char>, j: int) -> Option<(Seq<char>, Seq<char>)> {
    if !(0 <= j < line.len() && line[j] == '(') {
        None
    } else {
        match find_char_from(line, ')', j + 1) {
            None => None,
            Some(r) => {
                let a = r + 1;
                let w1 = ws_run(line, a);
                let c = a + w1 + "in"@.len();
                let w2 = ws_run(line, c);
                let d0 = c + w2;
                let d = re_digit_run(line, d0);
                let e = d0 + d;
                let w3 = ws_run(line, e);
                if r > j + 1 && w1 >= 1 && occurs_at(line, "in"@, a + w1) && w2 >= 1 && d >= 1
                    && w3 >= 1 && occurs_at(line, "ms"@, e + w3) {
                    Some((line.subrange(j + 1, r), line.subrange(d0, e)))
                } else {
                    None
                }
            },
        }
    }
}

/// The greedy `\S+` tries the last `(` of the run first: search `j` downwards.
pub open spec fn trace_paren_search(line: Seq<char>, s0: int, j: int) -> Option<
    (Seq<char>, Seq<char>),
>
    decreases j - s0,
{
    if j <= s0 {
        None
    } else {
        match trace_tail_at(line, j) {
            Some(x) => Some(x),
            None => trace_paren_search(line, s0, j - 1),
        }
    }
}

/// `from\s+\S+\(([^)]+)\)\s+in\s+(\d+)\s+ms` matched at `p`.
pub open spec fn received_at(line: Seq<char>, p: int) -> Option<(Seq<char>, Seq<char>)> {
    let a = p + "from"@.len();
    let w = ws_run(line, a);
    let s0 = a + w;
    let run = nonws_run(line, s0);
    if occurs_at(line, "from"@, p) && w >= 1 {
        trace_paren_search(line, s0, s0 + run - 1)
    } else {
        None
    }
}

/// Leftmost match of the `;; Received … from …(name) in N ms` pattern.
pub open spec fn received_from(line: Seq<char>, p: int) -> Option<(Seq<char>, Seq<char>)>
    decreases line.len() + 1 - p,
{
    if p < 0 || p > line.len() {
        None
    } else {
        match received_at(line, p) {
            Some(x) => Some(x),
            None => received_from(line, p + 1),
        }
    }
}

/// What the trace parser has gathered: finished hops and the hop being read.
pub struct TraceState {
    pub hops: Seq<HopView>,
    pub answers: Seq<AnswerView>,
    pub total: u32,
    pub resolver: Option<Seq<char>>,
}

pub open spec fn trace_initial() -> TraceState {
    TraceState { hops: Seq::empty(), answers: Seq::empty(), total: 0, resolver: None }
}

/// Closes the hop being read if it has answers or a resolver.
pub open spec fn trace_flush(st: TraceState) -> TraceState {
    if st.answers.len() > 0 || st.resolver is Some {
        TraceState {
            hops: st.hops.push(HopView { answers: st.answers, total: st.total, resolver: st.resolver }),
            answers: Seq::empty(),
            total: 0,
            resolver: None,
        }
    } else {
        st
    }
}

/// One line of trace output: a blank line closes a hop, a `;;` line may name
/// the resolver and its time, any other line may be a record.
pub open spec fn trace_step(st: TraceState, line: Seq<char>) -> TraceState {
    if line.len() == 0 {
        trace_flush(st)
    } else if starts_with(line, ";;"@) {
        match received_from(line, 0) {
            Some((name, ms)) => TraceState {
                resolver: Some(name),
                total: match parse_unsigned(ms, u32::MAX as nat) {
                    Some(v) => v as u32,
                    None => 0,
                },
                ..st
            },
            None => st,
        }
    } else {
        match parse_answer_spec(line) {
            Some(a) => TraceState { answers: st.answers.push(a), ..st },
            None => st,
        }
    }
}

pub open spec fn trace_fold(lines: Seq<Seq<char>>) -> TraceState
    decreases lines.len(),
{
    if lines.len() == 0 {
        trace_initial()
    } else {
        trace_step(trace_fold(lines.drop_last()), lines.last())
    }
}

/// `dig +trace` output parsed: fewer than three lines, or a first line
/// starting with `;; Got bad packet:`, is a failure.
pub open spec fn parse_trace_spec(raw: Seq<char>) -> TraceView {
    let lines = split_on(raw, '\n');
    if lines.len() < 3 || starts_with(lines[0], ";; Got bad packet:"@) {
        TraceView { status: DnsStatus::Failed, hops: Seq::empty(), raw_output: raw }
    } else {
        TraceView {
            status: DnsStatus::Finished,
            hops: trace_flush(trace_fold(lines)).hops,
            raw_output: raw,
        }
    }
}

fn trace_tail_exec(line: &[char], j: usize) -> (r: Option<(Vec<char>, Vec<char>)>)
    requires
        j < line@.len(),
    ensures
        opt_pair(r) == trace_tail_at(line@, j as int),
{
    let _n = line.len();
    if line[j] != '(' {
        return None;
    }
    proof {
        lemma_find_char_from(line@, ')', j + 1);
    }
    match find_char_exec(line, ')', j + 1) {
        None => None,
        Some(r) => {
            if r <= j + 1 {
                return None;
            }
            let a = r + 1;
            let w1 = ws_run_exec(line, a);
            proof {
                lemma_ws_run_bound(line@, a as int);
            }
            if w1 < 1 {
                return None;
            }
            let inw = chars_of("in");
            if !occurs_at_exec(line, inw.as_slice(), a + w1) {
                return None;
            }
            let c = a + w1 + inw.len();
            let w2 = ws_run_exec(line, c);
            proof {
                lemma_ws_run_bound(line@, c as int);
            }
            if w2 < 1 {
                return None;
            }
            let d0 = c + w2;
            let d = re_digit_run_exec(line, d0);
            proof {
                lemma_re_digit_run_bound(line@, d0 as int);
            }
            if d < 1 {
                return None;
            }
            let e = d0 + d;
            let w3 = ws_run_exec(line, e);
            proof {
                lemma_ws_run_bound(line@, e as int);
            }
            if w3 < 1 {
                return None;
            }
            let ms = chars_of("ms");
            if !occurs_at_exec(line, ms.as_slice(), e + w3) {
                return None;
            }
            Some((chars_range(line, j + 1, r), chars_range(line, d0, e)))
        },
    }
}

pub open spec fn opt_pair(o: Option<(Vec<char>, Vec<char>)>) -> Option<(Seq<char>, Seq<char>)> {
    match o {
        Some((a, b)) => Some((a@, b@)),
        None => None,
    }
}

fn received_at_exec(line: &[char], p: usize) -> (r: Option<(Vec<char>, Vec<char>)>)
    requires
        p <= line@.len(),
    ensures
        opt_pair(r) == received_at(line@, p as int),
{
    let _n = line.len();
    let f = chars_of("from");
    if !occurs_at_exec(line, f.as_slice(), p) {
        return None;
    }
    let a = p + f.len();
    let w = ws_run_exec(line, a);
    proof {
        lemma_ws_run_bound(line@, a as int);
    }
    if w < 1 {
        return None;
    }
    let s0 = a + w;
    let run = nonws_run_exec(line, s0);
    proof {
        lemma_nonws_run_bound(line@, s0 as int);
    }
    if run < 2 {
        assert(trace_paren_search(line@, s0 as int, s0 + run - 1) is None);
        return None;
    }
    let mut j = s0 + run - 1;
    assert(received_at(line@, p as int) == trace_paren_search(line@, s0 as int, j as int));
    while j > s0
        invariant
            s0 <= j < line@.len(),
            received_at(line@, p as int) == trace_paren_search(line@, s0 as int, j as int),
        decreases j,
    {
        let t = trace_tail_exec(line, j);
        if t.is_some() {
            return t;
        }
        j = j - 1;
    }
    None
}

fn received_exec(line: &[char]) -> (r: Option<(Vec<char>, Vec<char>)>)
    ensures
        opt_pair(r) == received_from(line@, 0),
{
    let mut p: usize = 0;
    while p <= line.len()
        invariant
            p <= line@.len() + 1,
            received_from(line@, 0) == received_from(line@, p as int),
        decreases line.len() + 1 - p,
    {
        let r = received_at_exec(line, p);
        if r.is_some() {
            return r;
        }
        if p == line.len() {
            assert(received_from(line@, p + 1) is None);
            return None;
        }
        p = p + 1;
    }
    None
}

/// Parse `dig +trace` output.
pub fn parse_trace(raw: &str) -> (r: TraceResult)
    ensures
        r@ == parse_trace_spec(raw@),
{
    let rc = chars_of(raw);
    let lines = split_chars(rc.as_slice(), '\n');
    let ghost lv = views(lines@);
    proof {
        lemma_split_on_len(rc@, '\n');
    }
    let bad = chars_of(";; Got bad packet:");
    if lines.len() < 3 || starts_with_exec(lines[0].as_slice(), bad.as_slice()) {
        let empty: Vec<TraceHop> = Vec::new();
        assert(hop_views(empty@) =~= Seq::<HopView>::empty());
        return TraceResult { status: DnsStatus::Failed, hops: empty, raw_output: raw.to_string() };
    }
    let hops = parse_trace_hops(&lines);
    assert(lv.take(lines@.len() as int) =~= lv);
    TraceResult { status: DnsStatus::Finished, hops, raw_output: raw.to_string() }
}

fn flush_hop(
    hops: &mut Vec<TraceHop>,
    answers: &mut Vec<DnsAnswer>,
    total: &mut u32,
    resolver: &mut Option<String>,
)
    ensures
        (TraceState {
            hops: hop_views(final(hops)@),
            answers: answer_views(final(answers)@),
            total: *final(total),
            resolver: opt_view(*final(resolver)),
        }) == trace_flush(
            TraceState {
                hops: hop_views(old(hops)@),
                answers: answer_views(old(answers)@),
                total: *old(total),
                resolver: opt_view(*old(resolver)),
            },
        ),
{
    if answers.len() > 0 || resolver.is_some() {
        let mut a: Vec<DnsAnswer> = Vec::new();
        std::mem::swap(answers, &mut a);
        let r = resolver.take();
        let t = *total;
        *total = 0;
        let ghost prev = hops@;
        let hop = TraceHop { answers: a, timings: DnsTimings { total: t }, resolver: r };
        hops.push(hop);
        assert(hop_views(hops@) =~= hop_views(prev).push(hop@));
        assert(answer_views(answers@) =~= Seq::<AnswerView>::empty());
    }
}

/// Hops of a trace: records grouped by the blank lines between delegation
/// steps, each with the resolver and time from its `;; Received` line.
fn parse_trace_hops(lines: &Vec<Vec<char>>) -> (r: Vec<TraceHop>)
    ensures
        hop_views(r@) == trace_flush(trace_fold(views(lines@))).hops,
{
    let ghost lv = views(lines@);
    let mut hops: Vec<TraceHop> = Vec::new();
    let mut answers: Vec<DnsAnswer> = Vec::new();
    let mut total: u32 = 0;
    let mut resolver: Option<String> = None;
    let mut i: usize = 0;
    assert(lv.take(0) =~= Seq::<Seq<char>>::empty());
    assert(answer_views(answers@) =~= Seq::<AnswerView>::empty());
    assert(hop_views(hops@) =~= Seq::<HopView>::empty());
    while i < lines.len()
        invariant
            i <= lines@.len(),
            lv == views(lines@),
            trace_fold(lv.take(i as int)) == (TraceState {
                hops: hop_views(hops@),
                answers: answer_views(answers@),
                total,
                resolver: opt_view(resolver),
            }),
        decreases lines.len() - i,
    {
        let line = lines[i].as_slice();
        assert(line@ == lv[i as int]);
        assert(lv.take(i + 1).drop_last() =~= lv.take(i as int));
        assert(lv.take(i + 1).last() == lv[i as int]);
        let semis = chars_of(";;");
        if line.len() == 0 {
            flush_hop(&mut hops, &mut answers, &mut total, &mut resolver);
        } else if starts_with_exec(line, semis.as_slice()) {
            match received_exec(line) {
                Some((name, ms)) => {
                    resolver = Some(string_of(name.as_slice()));
                    total = match parse_unsigned_exec(ms.as_slice(), 0xffff_ffff) {
                        Some(v) => v as u32,
                        None => 0,
                    };
                },
                None => {},
            }
        } else {
            match parse_answer_chars(line) {
                Some(a) => {
                    let ghost prev = answers@;
                    answers.push(a);
                    assert(answer_views(answers@) =~= answer_views(prev).push(a@));
                },
                None => {},
            }
        }
        i = i + 1;
    }
    assert(lv.take(lines@.len() as int) =~= lv);
    flush_hop(&mut hops, &mut answers, &mut total, &mut resolver);
    hops
}

// ── Laws ──────────────────────────────────────────────────────────────────────

/// The status names map to their DNS RCODEs (RFC 1035, RFC 6895 and its
/// registry): `NOERROR` 0, `FORMERR` 1, `SERVFAIL` 2, `NXDOMAIN` 3, `NOTIMP`
/// 4, `REFUSED` 5, `YXDOMAIN` 6, `YXRRSET` 7, `NXRRSET` 8, `NOTAUTH` 9,
/// `NOTZONE` 10, `DSOTYPENI` 11, and the extended codes 16–23; no other name
/// has a code.
pub proof fn law_status_codes_are_rcodes()
    ensures
        status_code_of("noerror"@) == Some(0u16),
        status_code_of("formerr"@) == Some(1u16),
        status_code_of("servfail"@) == Some(2u16),
        status_code_of("nxdomain"@) == Some(3u16),
        status_code_of("notimp"@) == Some(4u16),
        status_code_of("refused"@) == Some(5u16),
        status_code_of("yxdomain"@) == Some(6u16),
        status_code_of("yxrrset"@) == Some(7u16),
        status_code_of("nxrrset"@) == Some(8u16),
        status_code_of("notauth"@) == Some(9u16),
        status_code_of("notzone"@) == Some(10u16),
        status_code_of("dsotypeni"@) == Some(11u16),
        status_code_of("badvers"@) == Some(16u16),
        status_code_of("badsig"@) == Some(16u16),
        status_code_of("badkey"@) == Some(17u16),
        status_code_of("badtime"@) == Some(18u16),
        status_code_of("badmode"@) == Some(19u16),
        status_code_of("badname"@) == Some(20u16),
        status_code_of("badalg"@) == Some(21u16),
        status_code_of("badtrunc"@) == Some(22u16),
        status_code_of("badcookie"@) == Some(23u16),
        forall|n: Seq<char>| #[trigger] status_code_of(n) matches Some(c) ==> c <= 23,
{
    reveal_strlit("noerror");
    reveal_strlit("formerr");
    reveal_strlit("servfail");
    reveal_strlit("nxdomain");
    reveal_strlit("notimp");
    reveal_strlit("refused");
    reveal_strlit("yxdomain");
    reveal_strlit("yxrrset");
    reveal_strlit("nxrrset");
    reveal_strlit("notauth");
    reveal_strlit("notzone");
    reveal_strlit("dsotypeni");
    reveal_strlit("badvers");
    reveal_strlit("badsig");
    reveal_strlit("badkey");
    reveal_strlit("badtime");
    reveal_strlit("badmode");
    reveal_strlit("badname");
    reveal_strlit("badalg");
    reveal_strlit("badtrunc");
    reveal_strlit("badcookie");
    assert("formerr"@[0] != "noerror"@[0]);
    assert("servfail"@[0] != "noerror"@[0]);
    assert("servfail"@[0] != "formerr"@[0]);
    assert("nxdomain"@[1] != "noerror"@[1]);
    assert("nxdomain"@[0] != "formerr"@[0]);
    assert("nxdomain"@[0] != "servfail"@[0]);
    assert("notimp"@[2] != "noerror"@[2]);
    assert("notimp"@[0] != "formerr"@[0]);
    assert("notimp"@[0] != "servfail"@[0]);
    assert("notimp"@[1] != "nxdomain"@[1]);
    assert("refused"@[0] != "noerror"@[0]);
    assert("refused"@[0] != "formerr"@[0]);
    assert("refused"@[0] != "servfail"@[0]);
    assert("refused"@[0] != "nxdomain"@[0]);
    assert("refused"@[0] != "notimp"@[0]);
    assert("yxdomain"@[0] != "noerror"@[0]);
    assert("yxdomain"@[0] != "formerr"@[0]);
    assert("yxdomain"@[0] != "servfail"@[0]);
    assert("yxdomain"@[0] != "nxdomain"@[0]);
    assert("yxdomain"@[0] != "notimp"@[0]);
    assert("yxdomain"@[0] != "refused"@[0]);
    assert("yxrrset"@[0] != "noerror"@[0]);
    assert("yxrrset"@[0] != "formerr"@[0]);
    assert("yxrrset"@[0] != "servfail"@[0]);
    assert("yxrrset"@[0] != "nxdomain"@[0]);
    assert("yxrrset"@[0] != "notimp"@[0]);
    assert("yxrrset"@[0] != "refused"@[0]);
    assert("yxrrset"@[2] != "yxdomain"@[2]);
    assert("nxrrset"@[1] != "noerror"@[1]);
    assert("nxrrset"@[0] != "formerr"@[0]);
    assert("nxrrset"@[0] != "servfail"@[0]);
    assert("nxrrset"@[2] != "nxdomain"@[2]);
    assert("nxrrset"@[1] != "notimp"@[1]);
    assert("nxrrset"@[0] != "refused"@[0]);
    assert("nxrrset"@[0] != "yxdomain"@[0]);
    assert("nxrrset"@[0] != "yxrrset"@[0]);
    assert("notauth"@[2] != "noerror"@[2]);
    assert("notauth"@[0] != "formerr"@[0]);
    assert("notauth"@[0] != "servfail"@[0]);
    assert("notauth"@[1] != "nxdomain"@[1]);
    assert("notauth"@[3] != "notimp"@[3]);
    assert("notauth"@[0] != "refused"@[0]);
    assert("notauth"@[0] != "yxdomain"@[0]);
    assert("notauth"@[0] != "yxrrset"@[0]);
    assert("notauth"@[1] != "nxrrset"@[1]);
    assert("notzone"@[2] != "noerror"@[2]);
    assert("notzone"@[0] != "formerr"@[0]);
    assert("notzone"@[0] != "servfail"@[0]);
    assert("notzone"@[1] != "nxdomain"@[1]);
    assert("notzone"@[3] != "notimp"@[3]);
    assert("notzone"@[0] != "refused"@[0]);
    assert("notzone"@[0] != "yxdomain"@[0]);
    assert("notzone"@[0] != "yxrrset"@[0]);
    assert("notzone"@[1] != "nxrrset"@[1]);
    assert("notzone"@[3] != "notauth"@[3]);
    assert("dsotypeni"@[0] != "noerror"@[0]);
    assert("dsotypeni"@[0] != "formerr"@[0]);
    assert("dsotypeni"@[0] != "servfail"@[0]);
    assert("dsotypeni"@[0] != "nxdomain"@[0]);
    assert("dsotypeni"@[0] != "notimp"@[0]);
    assert("dsotypeni"@[0] != "refused"@[0]);
    assert("dsotypeni"@[0] != "yxdomain"@[0]);
    assert("dsotypeni"@[0] != "yxrrset"@[0]);
    assert("dsotypeni"@[0] != "nxrrset"@[0]);
    assert("dsotypeni"@[0] != "notauth"@[0]);
    assert("dsotypeni"@[0] != "notzone"@[0]);
    assert("badvers"@[0] != "noerror"@[0]);
    assert("badvers"@[0] != "formerr"@[0]);
    assert("badvers"@[0] != "servfail"@[0]);
    assert("badvers"@[0] != "nxdomain"@[0]);
    assert("badvers"@[0] != "notimp"@[0]);
    assert("badvers"@[0] != "refused"@[0]);
    assert("badvers"@[0] != "yxdomain"@[0]);
    assert("badvers"@[0] != "yxrrset"@[0]);
    assert("badvers"@[0] != "nxrrset"@[0]);
    assert("badvers"@[0] != "notauth"@[0]);
    assert("badvers"@[0] != "notzone"@[0]);
    assert("badvers"@[0] != "dsotypeni"@[0]);
    assert("badsig"@[0] != "noerror"@[0]);
    assert("badsig"@[0] != "formerr"@[0]);
    assert("badsig"@[0] != "servfail"@[0]);
    assert("badsig"@[0] != "nxdomain"@[0]);
    assert("badsig"@[0] != "notimp"@[0]);
    assert("badsig"@[0] != "refused"@[0]);
    assert("badsig"@[0] != "yxdomain"@[0]);
    assert("badsig"@[0] != "yxrrset"@[0]);
    assert("badsig"@[0] != "nxrrset"@[0]);
    assert("badsig"@[0] != "notauth"@[0]);
    assert("badsig"@[0] != "notzone"@[0]);
    assert("badsig"@[0] != "dsotypeni"@[0]);
    assert("badsig"@[3] != "badvers"@[3]);
    assert("badkey"@[0] != "noerror"@[0]);
    assert("badkey"@[0] != "formerr"@[0]);
    assert("badkey"@[0] != "servfail"@[0]);
    assert("badkey"@[0] != "nxdomain"@[0]);
    assert("badkey"@[0] != "notimp"@[0]);
    assert("badkey"@[0] != "refused"@[0]);
    assert("badkey"@[0] != "yxdomain"@[0]);
    assert("badkey"@[0] != "yxrrset"@[0]);
    assert("badkey"@[0] != "nxrrset"@[0]);
    assert("badkey"@[0] != "notauth"@[0]);
    assert("badkey"@[0] != "notzone"@[0]);
    assert("badkey"@[0] != "dsotypeni"@[0]);
    assert("badkey"@[3] != "badvers"@[3]);
    assert("badkey"@[3] != "badsig"@[3]);
    assert("badtime"@[0] != "noerror"@[0]);
    assert("badtime"@[0] != "formerr"@[0]);
    assert("badtime"@[0] != "servfail"@[0]);
    assert("badtime"@[0] != "nxdomain"@[0]);
    assert("badtime"@[0] != "notimp"@[0]);
    assert("badtime"@[0] != "refused"@[0]);
    assert("badtime"@[0] != "yxdomain"@[0]);
    assert("badtime"@[0] != "yxrrset"@[0]);
    assert("badtime"@[0] != "nxrrset"@[0]);
    assert("badtime"@[0] != "notauth"@[0]);
    assert("badtime"@[0] != "notzone"@[0]);
    assert("badtime"@[0] != "dsotypeni"@[0]);
    assert("badtime"@[3] != "badvers"@[3]);
    assert("badtime"@[3] != "badsig"@[3]);
    assert("badtime"@[3] != "badkey"@[3]);
    assert("badmode"@[0] != "noerror"@[0]);
    assert("badmode"@[0] != "formerr"@[0]);
    assert("badmode"@[0] != "servfail"@[0]);
    assert("badmode"@[0] != "nxdomain"@[0]);
    assert("badmode"@[0] != "notimp"@[0]);
    assert("badmode"@[0] != "refused"@[0]);
    assert("badmode"@[0] != "yxdomain"@[0]);
    assert("badmode"@[0] != "yxrrset"@[0]);
    assert("badmode"@[0] != "nxrrset"@[0]);
    assert("badmode"@[0] != "notauth"@[0]);
    assert("badmode"@[0] != "notzone"@[0]);
    assert("badmode"@[0] != "dsotypeni"@[0]);
    assert("badmode"@[3] != "badvers"@[3]);
    assert("badmode"@[3] != "badsig"@[3]);
    assert("badmode"@[3] != "badkey"@[3]);
    assert("badmode"@[3] != "badtime"@[3]);
    assert("badname"@[0] != "noerror"@[0]);
    assert("badname"@[0] != "formerr"@[0]);
    assert("badname"@[0] != "servfail"@[0]);
    assert("badname"@[0] != "nxdomain"@[0]);
    assert("badname"@[0] != "notimp"@[0]);
    assert("badname"@[0] != "refused"@[0]);
    assert("badname"@[0] != "yxdomain"@[0]);
    assert("badname"@[0] != "yxrrset"@[0]);
    assert("badname"@[0] != "nxrrset"@[0]);
    assert("badname"@[0] != "notauth"@[0]);
    assert("badname"@[0] != "notzone"@[0]);
    assert("badname"@[0] != "dsotypeni"@[0]);
    assert("badname"@[3] != "badvers"@[3]);
    assert("badname"@[3] != "badsig"@[3]);
    assert("badname"@[3] != "badkey"@[3]);
    assert("badname"@[3] != "badtime"@[3]);
    assert("badname"@[3] != "badmode"@[3]);
    assert("badalg"@[0] != "noerror"@[0]);
    assert("badalg"@[0] != "formerr"@[0]);
    assert("badalg"@[0] != "servfail"@[0]);
    assert("badalg"@[0] != "nxdomain"@[0]);
    assert("badalg"@[0] != "notimp"@[0]);
    assert("badalg"@[0] != "refused"@[0]);
    assert("badalg"@[0] != "yxdomain"@[0]);
    assert("badalg"@[0] != "yxrrset"@[0]);
    assert("badalg"@[0] != "nxrrset"@[0]);
    assert("badalg"@[0] != "notauth"@[0]);
    assert("badalg"@[0] != "notzone"@[0]);
    assert("badalg"@[0] != "dsotypeni"@[0]);
    assert("badalg"@[3] != "badvers"@[3]);
    assert("badalg"@[3] != "badsig"@[3]);
    assert("badalg"@[3] != "badkey"@[3]);
    assert("badalg"@[3] != "badtime"@[3]);
    assert("badalg"@[3] != "badmode"@[3]);
    assert("badalg"@[3] != "badname"@[3]);
    assert("badtrunc"@[0] != "noerror"@[0]);
    assert("badtrunc"@[0] != "formerr"@[0]);
    assert("badtrunc"@[0] != "servfail"@[0]);
    assert("badtrunc"@[0] != "nxdomain"@[0]);
    assert("badtrunc"@[0] != "notimp"@[0]);
    assert("badtrunc"@[0] != "refused"@[0]);
    assert("badtrunc"@[0] != "yxdomain"@[0]);
    assert("badtrunc"@[0] != "yxrrset"@[0]);
    assert("badtrunc"@[0] != "nxrrset"@[0]);
    assert("badtrunc"@[0] != "notauth"@[0]);
    assert("badtrunc"@[0] != "notzone"@[0]);
    assert("badtrunc"@[0] != "dsotypeni"@[0]);
    assert("badtrunc"@[3] != "badvers"@[3]);
    assert("badtrunc"@[3] != "badsig"@[3]);
    assert("badtrunc"@[3] != "badkey"@[3]);
    assert("badtrunc"@[4] != "badtime"@[4]);
    assert("badtrunc"@[3] != "badmode"@[3]);
    assert("badtrunc"@[3] != "badname"@[3]);
    assert("badtrunc"@[3] != "badalg"@[3]);
    assert("badcookie"@[0] != "noerror"@[0]);
    assert("badcookie"@[0] != "formerr"@[0]);
    assert("badcookie"@[0] != "servfail"@[0]);
    assert("badcookie"@[0] != "nxdomain"@[0]);
    assert("badcookie"@[0] != "notimp"@[0]);
    assert("badcookie"@[0] != "refused"@[0]);
    assert("badcookie"@[0] != "yxdomain"@[0]);
    assert("badcookie"@[0] != "yxrrset"@[0]);
    assert("badcookie"@[0] != "nxrrset"@[0]);
    assert("badcookie"@[0] != "notauth"@[0]);
    assert("badcookie"@[0] != "notzone"@[0]);
    assert("badcookie"@[0] != "dsotypeni"@[0]);
    assert("badcookie"@[3] != "badvers"@[3]);
    assert("badcookie"@[3] != "badsig"@[3]);
    assert("badcookie"@[3] != "badkey"@[3]);
    assert("badcookie"@[3] != "badtime"@[3]);
    assert("badcookie"@[3] != "badmode"@[3]);
    assert("badcookie"@[3] != "badname"@[3]);
    assert("badcookie"@[3] != "badalg"@[3]);
    assert("badcookie"@[3] != "badtrunc"@[3]);
}

/// Below 16 the RCODEs are one per name: two status names with the same
/// code under 16 are the same name.
pub proof fn law_status_codes_distinct(a: Seq<char>, b: Seq<char>)
    ensures
        (status_code_of(a) matches Some(c) && c < 16 && status_code_of(b) == Some(c)) ==> a == b,
{
}


/// The status code always goes with the status name: it is the RCODE of the
/// name (read case-blind), and there is none without a name.
pub proof fn law_status_code_matches_name(raw: Seq<char>, local_ips: Seq<IpAddress>)
    ensures
        parse_classic_spec(raw, local_ips).status_code == match parse_classic_spec(
            raw,
            local_ips,
        ).status_code_name {
            Some(n) => status_code_of(seq_ascii_lower(n)),
            None => None,
        },
{
    let rw = rewrite_classic_spec(raw, local_ips);
    lemma_code_with_name(split_on(rw, '\n'));
}

proof fn lemma_code_with_name(ls: Seq<Seq<char>>)
    ensures
        classic_fold(ls).status_code == match classic_fold(ls).status_code_name {
            Some(n) => status_code_of(seq_ascii_lower(n)),
            None => None,
        },
    decreases ls.len(),
{
    if ls.len() > 0 {
        lemma_code_with_name(ls.drop_last());
    }
}

} // verus!
