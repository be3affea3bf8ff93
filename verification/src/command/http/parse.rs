//! Parsers for what `curl` leaves behind: the dumped response headers, the
//! verbose TLS log, and the assembled `rawOutput`.

use vstd::prelude::*;
use crate::text::{
    append_chars, opt_chars_view, strip_prefix, strip_prefix_exec, starts_with, starts_with_exec, trim_start_char,
    trim_start_char_exec, words, words_of, join, join_exec, split_on, split_chars, find_from, find_exec,
    lemma_find_from,
    chars_of, chars_range, find_char_exec, find_char_from, lemma_find_char_from, lines,
    lines_of, opt_view, string_of, utf8_len, byte_cut, byte_prefix, utf8_len_exec, utf8_len_checked, trim, trim_chars, trim_end_char, trim_end_char_exec, views,
    decimal, u64_to_string, to_lowercase, unicode_lowercase, chars_eq,
};

verus! {

// ── Result types ──────────────────────────────────────────────────────────────

#[derive(Debug, Clone, Copy, PartialEq, Eq, Structural)]
pub enum HttpStatus {
    Finished,
    Failed,
}

/// Phase durations in milliseconds.
#[derive(Debug, Clone, Copy, PartialEq, Eq, Structural)]
pub struct HttpTimings {
    pub total: Option<u64>,
    pub dns: Option<u64>,
    pub tcp: Option<u64>,
    pub tls: Option<u64>,
    pub first_byte: Option<u64>,
    pub download: Option<u64>,
}

impl Default for HttpTimings {
    fn default() -> (r: Self)
        ensures
            r == (HttpTimings {
                total: None,
                dns: None,
                tcp: None,
                tls: None,
                first_byte: None,
                download: None,
            }),
    {
        HttpTimings { total: None, dns: None, tcp: None, tls: None, first_byte: None, download: None }
    }
}

// ── Header dump ───────────────────────────────────────────────────────────────

/// The character views of `(name, value)` pairs.
pub open spec fn pair_views(v: Seq<(String, String)>) -> Seq<(Seq<char>, Seq<char>)> {
    v.map_values(|p: (String, String)| (p.0@, p.1@))
}

/// A header line `name: value`, both sides trimmed; `None` for a blank line
/// or one without a colon.
pub open spec fn header_pair(line: Seq<char>) -> Option<(Seq<char>, Seq<char>)> {
    let l = trim(trim_end_char(line, '\r'));
    if l.len() == 0 {
        None
    } else {
        match find_char_from(l, ':', 0) {
            Some(c) => Some((trim(l.take(c)), trim(l.skip(c + 1)))),
            None => None,
        }
    }
}

pub open spec fn header_pairs_of(ls: Seq<Seq<char>>) -> Seq<(Seq<char>, Seq<char>)>
    decreases ls.len(),
{
    if ls.len() == 0 {
        Seq::empty()
    } else {
        let prev = header_pairs_of(ls.drop_last());
        match header_pair(ls.last()) {
            Some(p) => prev.push(p),
            None => prev,
        }
    }
}

/// The header pairs of a `-D` dump: every line but the first (the status
/// line) that holds a colon.
pub open spec fn parse_header_file_spec(raw: Seq<char>) -> Seq<(Seq<char>, Seq<char>)> {
    let ls = lines(raw);
    if ls.len() == 0 {
        Seq::empty()
    } else {
        header_pairs_of(ls.skip(1))
    }
}

fn header_pair_exec(line: &[char]) -> (r: Option<(Vec<char>, Vec<char>)>)
    ensures
        match header_pair(line@) {
            Some(p) => r matches Some(x) && x.0@ == p.0 && x.1@ == p.1,
            None => r is None,
        },
{
    let t = trim_end_char_exec(line, '\r');
    let l = trim_chars(t.as_slice());
    if l.len() == 0 {
        return None;
    }
    proof {
        lemma_find_char_from(l@, ':', 0);
    }
    match find_char_exec(l.as_slice(), ':', 0) {
        Some(c) => {
            let name_raw = chars_range(l.as_slice(), 0, c);
            let value_raw = chars_range(l.as_slice(), c + 1, l.len());
            assert(name_raw@ =~= l@.take(c as int));
            assert(value_raw@ =~= l@.skip(c + 1));
            Some((trim_chars(name_raw.as_slice()), trim_chars(value_raw.as_slice())))
        },
        None => None,
    }
}

/// Parse the `-D` dump-header file content into (name, value) pairs.
/// Skips the first line (HTTP status line) and empty lines.
pub fn parse_header_file(raw: &str) -> (r: Vec<(String, String)>)
    ensures
        pair_views(r@) == parse_header_file_spec(raw@),
{
    let c = chars_of(raw);
    let ls = lines_of(c.as_slice());
    let ghost lv = views(ls@);
    let mut out: Vec<(String, String)> = Vec::new();
    if ls.len() == 0 {
        assert(pair_views(out@) =~= Seq::<(Seq<char>, Seq<char>)>::empty());
        return out;
    }
    let mut i: usize = 1;
    assert(lv.subrange(1, 1) =~= Seq::<Seq<char>>::empty());
    assert(pair_views(out@) =~= Seq::<(Seq<char>, Seq<char>)>::empty());
    while i < ls.len()
        invariant
            1 <= i <= ls@.len(),
            lv == views(ls@),
            pair_views(out@) == header_pairs_of(lv.subrange(1, i as int)),
        decreases ls.len() - i,
    {
        assert(lv.subrange(1, i + 1).drop_last() =~= lv.subrange(1, i as int));
        assert(lv.subrange(1, i + 1).last() == ls@[i as int]@);
        match header_pair_exec(ls[i].as_slice()) {
            Some((k, v)) => {
                let ghost prev = out@;
                out.push((string_of(k.as_slice()), string_of(v.as_slice())));
                assert(pair_views(out@) =~= pair_views(prev).push((k@, v@)));
            },
            None => {},
        }
        i = i + 1;
    }
    assert(lv.subrange(1, ls@.len() as int) =~= lv.skip(1));
    out
}

// ── Header grouping ───────────────────────────────────────────────────────────

/// The first group named `k`.
pub open spec fn group_index(groups: Seq<(Seq<char>, Seq<Seq<char>>)>, k: Seq<char>, i: int) -> Option<int>
    decreases groups.len() - i,
{
    if i < 0 || i >= groups.len() {
        None
    } else if groups[i].0 == k {
        Some(i)
    } else {
        group_index(groups, k, i + 1)
    }
}

/// Header values grouped under their lowercased names, names in order of
/// first appearance, values in order: a name seen once maps to one value, a
/// repeated name to all of its values.
pub open spec fn dedup_spec(pairs: Seq<(Seq<char>, Seq<char>)>) -> Seq<(Seq<char>, Seq<Seq<char>>)>
    decreases pairs.len(),
{
    if pairs.len() == 0 {
        Seq::empty()
    } else {
        let g = dedup_spec(pairs.drop_last());
        let k = unicode_lowercase(pairs.last().0);
        let v = pairs.last().1;
        match group_index(g, k, 0) {
            Some(i) => g.update(i, (g[i].0, g[i].1.push(v))),
            None => g.push((k, seq![v])),
        }
    }
}

pub open spec fn group_views(v: Seq<(String, Vec<String>)>) -> Seq<(Seq<char>, Seq<Seq<char>>)> {
    v.map_values(|g: (String, Vec<String>)| (g.0@, g.1@.map_values(|s: String| s@)))
}

fn find_group(groups: &Vec<(String, Vec<String>)>, k: &str) -> (r: Option<usize>)
    ensures
        match group_index(group_views(groups@), k@, 0) {
            Some(i) => r matches Some(x) && x as int == i && i < groups@.len(),
            None => r is None,
        },
{
    let ghost gv = group_views(groups@);
    let kc = chars_of(k);
    let mut i: usize = 0;
    while i < groups.len()
        invariant
            i <= groups@.len(),
            gv == group_views(groups@),
            kc@ == k@,
            group_index(gv, k@, 0) == group_index(gv, k@, i as int),
        decreases groups.len() - i,
    {
        let name = chars_of(groups[i].0.as_str());
        if chars_eq(name.as_slice(), kc.as_slice()) {
            return Some(i);
        }
        i = i + 1;
    }
    None
}

/// Group header values by lowercased name (see `dedup_spec`).
pub fn dedup_headers(pairs: &[(String, String)]) -> (r: Vec<(String, Vec<String>)>)
    ensures
        group_views(r@) == dedup_spec(pair_views(pairs@)),
{
    let ghost pv = pair_views(pairs@);
    let mut groups: Vec<(String, Vec<String>)> = Vec::new();
    let mut n: usize = 0;
    assert(pv.take(0) =~= Seq::<(Seq<char>, Seq<char>)>::empty());
    assert(group_views(groups@) =~= Seq::<(Seq<char>, Seq<Seq<char>>)>::empty());
    while n < pairs.len()
        invariant
            n <= pairs@.len(),
            pv == pair_views(pairs@),
            group_views(groups@) == dedup_spec(pv.take(n as int)),
        decreases pairs.len() - n,
    {
        assert(pv.take(n + 1).drop_last() =~= pv.take(n as int));
        assert(pv.take(n + 1).last() == (pairs@[n as int].0@, pairs@[n as int].1@));
        let ghost g0 = group_views(groups@);
        let k = to_lowercase(pairs[n].0.as_str());
        let v = string_of(chars_of(pairs[n].1.as_str()).as_slice());
        match find_group(&groups, k.as_str()) {
            Some(i) => {
                let mut cur: (String, Vec<String>) = (String::new(), Vec::new());
                groups.set_and_swap(i, &mut cur);
                let ghost vals = cur.1@;
                cur.1.push(v);
                assert(cur.1@.map_values(|s: String| s@) =~= vals.map_values(|s: String| s@).push(v@));
                groups.set(i, cur);
                assert(group_views(groups@) =~= g0.update(i as int, (g0[i as int].0, g0[i as int].1.push(v@))));
            },
            None => {
                let mut vals: Vec<String> = Vec::new();
                vals.push(v);
                assert(vals@.map_values(|s: String| s@) =~= seq![v@]);
                groups.push((k, vals));
                assert(group_views(groups@) =~= g0.push((k@, seq![v@])));
            },
        }
        n = n + 1;
    }
    assert(pv.take(pairs@.len() as int) =~= pv);
    groups
}

/// Text after the second space of the first line (`"HTTP/1.1 404 Not Found"`
/// gives `"Not Found"`), trimmed; `None` without a line or two spaces.
pub open spec fn parse_status_text_spec(raw: Seq<char>) -> Option<Seq<char>> {
    let ls = lines(raw);
    if ls.len() == 0 {
        None
    } else {
        let first = trim_end_char(ls[0], '\r');
        match find_char_from(first, ' ', 0) {
            None => None,
            Some(a) => match find_char_from(first, ' ', a + 1) {
                None => None,
                Some(b) => Some(trim(first.skip(b + 1))),
            },
        }
    }
}

/// Extract HTTP status text from the dump-header first line.
/// e.g. "HTTP/1.1 200 OK" → Some("OK")
pub fn parse_status_text(raw: &str) -> (r: Option<String>)
    ensures
        opt_view(r) == parse_status_text_spec(raw@),
{
    let c = chars_of(raw);
    let ls = lines_of(c.as_slice());
    if ls.len() == 0 {
        return None;
    }
    assert(views(ls@)[0] == ls@[0]@);
    let first = trim_end_char_exec(ls[0].as_slice(), '\r');
    proof {
        lemma_find_char_from(first@, ' ', 0);
    }
    match find_char_exec(first.as_slice(), ' ', 0) {
        None => None,
        Some(a) => {
            let _n = first.len();
            assert(a < first@.len());
            match find_char_exec(first.as_slice(), ' ', a + 1) {
                None => None,
                Some(b) => {
                    proof {
                        lemma_find_char_from(first@, ' ', a + 1);
                    }
                    assert(b < first@.len());
                    let rest = chars_range(first.as_slice(), b + 1, first.len());
                    assert(rest@ =~= first@.skip(b + 1));
                    let t = trim_chars(rest.as_slice());
                    Some(string_of(t.as_slice()))
                },
            }
        },
    }
}

// ── rawOutput ─────────────────────────────────────────────────────────────────

pub open spec fn opt_str_view(o: Option<&str>) -> Option<Seq<char>> {
    match o {
        Some(s) => Some(s@),
        None => None,
    }
}

/// `HTTP/{version} {code}\n{headers}`, followed by a blank line and the body
/// unless the method is `HEAD` or the body is missing or empty; `None`
/// without a version or a status code.
pub open spec fn build_raw_output_spec(
    http_version: Option<Seq<char>>,
    status_code: Option<u16>,
    raw_headers: Option<Seq<char>>,
    raw_body: Option<Seq<char>>,
    method: Seq<char>,
) -> Option<Seq<char>> {
    match (http_version, status_code) {
        (Some(v), Some(code)) => {
            let headers = match raw_headers {
                Some(h) => h,
                None => Seq::empty(),
            };
            let base = "HTTP/"@ + v + " "@ + decimal(code as nat) + "\n"@ + headers;
            match raw_body {
                Some(b) => if method == "HEAD"@ || b.len() == 0 {
                    Some(base)
                } else {
                    Some(base + "\n\n"@ + b)
                },
                None => Some(base),
            }
        },
        _ => None,
    }
}

pub fn build_raw_output(
    http_version: Option<&str>,
    status_code: Option<u16>,
    raw_headers: Option<&str>,
    raw_body: Option<&str>,
    method: &str,
) -> (r: Option<String>)
    ensures
        opt_view(r) == build_raw_output_spec(
            opt_str_view(http_version),
            status_code,
            opt_str_view(raw_headers),
            opt_str_view(raw_body),
            method@,
        ),
{
    let version = match http_version {
        Some(v) => v,
        None => return None,
    };
    let code = match status_code {
        Some(c) => c,
        None => return None,
    };
    let mut out = chars_of("HTTP/");
    append_chars(&mut out, chars_of(version).as_slice());
    append_chars(&mut out, chars_of(" ").as_slice());
    let code_text = u64_to_string(code as u64);
    append_chars(&mut out, chars_of(code_text.as_str()).as_slice());
    append_chars(&mut out, chars_of("\n").as_slice());
    match raw_headers {
        Some(h) => append_chars(&mut out, chars_of(h).as_slice()),
        None => {},
    }
    let ghost base = out@;
    assert(base =~= "HTTP/"@ + version@ + " "@ + decimal(code as nat) + "\n"@ + match raw_headers {
        Some(h) => h@,
        None => Seq::<char>::empty(),
    });
    match raw_body {
        Some(b) => {
            let m = chars_of(method);
            let head = chars_of("HEAD");
            let bc = chars_of(b);
            if crate::text::chars_eq(m.as_slice(), head.as_slice()) || bc.len() == 0 {
                return Some(string_of(out.as_slice()));
            }
            append_chars(&mut out, chars_of("\n\n").as_slice());
            append_chars(&mut out, bc.as_slice());
            Some(string_of(out.as_slice()))
        },
        None => Some(string_of(out.as_slice())),
    }
}


// ── Header truncation ─────────────────────────────────────────────────────────

/// Budget in bytes for the serialized headers (`name: value` lines).
pub const HEADERS_SIZE_LIMIT: usize = 10_000;

/// Appended to a shortened header value.
pub const TRUNCATION_MARK: &'static str = "...[truncated]";

pub open spec fn mark_len() -> int {
    14
}

pub struct TruncateResult {
    pub truncated: bool,
    pub headers: Vec<(String, String)>,
}

pub type Pair = (Seq<char>, Seq<char>);

/// Bytes one header takes in `name: value\n`.
pub open spec fn pair_size(p: Pair) -> int {
    (utf8_len(p.0) + utf8_len(p.1) + 3) as int
}

/// Bytes one header takes at the least, once its value is cut to the mark.
pub open spec fn pair_min_size(p: Pair) -> int {
    utf8_len(p.0) as int + (if utf8_len(p.1) < mark_len() { utf8_len(p.1) as int } else { mark_len() }) + 3
}

pub open spec fn sum_sizes(ps: Seq<Pair>) -> int
    decreases ps.len(),
{
    if ps.len() == 0 {
        0
    } else {
        sum_sizes(ps.drop_last()) + pair_size(ps.last())
    }
}

/// Sum of the least sizes of the headers not yet dropped.
pub open spec fn sum_min_kept(ps: Seq<Pair>, dropped: Seq<bool>) -> int
    decreases ps.len(),
{
    if ps.len() == 0 {
        0
    } else {
        sum_min_kept(ps.drop_last(), dropped.drop_last()) + if dropped.last() {
            0
        } else {
            pair_min_size(ps.last())
        }
    }
}

/// The header not yet dropped with the largest least size, the first one
/// among equals.
pub open spec fn heaviest_from(ps: Seq<Pair>, dropped: Seq<bool>, i: int) -> Option<int>
    decreases ps.len() - i,
{
    if i < 0 || i >= ps.len() {
        None
    } else {
        let r = heaviest_from(ps, dropped, i + 1);
        if dropped[i] {
            r
        } else {
            match r {
                None => Some(i),
                Some(j) => if pair_min_size(ps[i]) >= pair_min_size(ps[j]) {
                    Some(i)
                } else {
                    Some(j)
                },
            }
        }
    }
}

/// Drop the heaviest headers, one at a time, until the least total size
/// (`cur_min`) fits the limit.
pub open spec fn drop_plan(ps: Seq<Pair>, dropped: Seq<bool>, cur_min: int, fuel: nat) -> Seq<bool>
    decreases fuel,
{
    if fuel == 0 || cur_min <= HEADERS_SIZE_LIMIT {
        dropped
    } else {
        match heaviest_from(ps, dropped, 0) {
            None => dropped,
            Some(m) => drop_plan(
                ps,
                dropped.update(m, true),
                cur_min - pair_min_size(ps[m]),
                (fuel - 1) as nat,
            ),
        }
    }
}

pub open spec fn keep(ps: Seq<Pair>, dropped: Seq<bool>) -> Seq<Pair>
    decreases ps.len(),
{
    if ps.len() == 0 {
        Seq::empty()
    } else {
        let prev = keep(ps.drop_last(), dropped.drop_last());
        if dropped.last() {
            prev
        } else {
            prev.push(ps.last())
        }
    }
}

/// The headers that survive the dropping phase.
pub open spec fn kept_headers(ps: Seq<Pair>) -> Seq<Pair> {
    let none = Seq::new(ps.len(), |i: int| false);
    keep(ps, drop_plan(ps, none, sum_min_kept(ps, none) - 1, ps.len()))
}

pub open spec fn sum_values(ps: Seq<Pair>) -> int
    decreases ps.len(),
{
    if ps.len() == 0 {
        0
    } else {
        sum_values(ps.drop_last()) + utf8_len(ps.last().1)
    }
}

/// Total value bytes when every value is capped at `c` bytes.
pub open spec fn capped_values(ps: Seq<Pair>, c: int) -> int
    decreases ps.len(),
{
    if ps.len() == 0 {
        0
    } else {
        capped_values(ps.drop_last(), c) + if utf8_len(ps.last().1) < c {
            utf8_len(ps.last().1) as int
        } else {
            c
        }
    }
}

/// Bytes left for values once names and separators are paid for.
pub open spec fn value_budget(ps: Seq<Pair>) -> int {
    HEADERS_SIZE_LIMIT + sum_values(ps) - (sum_sizes(ps) - 1)
}

/// The largest cap at or below `c` under which the capped values fit `budget`.
pub open spec fn level_from(ps: Seq<Pair>, budget: int, c: int) -> int
    decreases c,
{
    if c <= 0 || capped_values(ps, c) <= budget {
        c
    } else {
        level_from(ps, budget, c - 1)
    }
}

pub open spec fn max_value_len(ps: Seq<Pair>) -> int
    decreases ps.len(),
{
    if ps.len() == 0 {
        0
    } else {
        let m = max_value_len(ps.drop_last());
        if utf8_len(ps.last().1) > m {
            utf8_len(ps.last().1) as int
        } else {
            m
        }
    }
}

/// The common cap on value bytes: the largest that fits the budget, and at
/// least the mark's length.
pub open spec fn shrink_cap(ps: Seq<Pair>) -> int {
    let l = level_from(ps, value_budget(ps), max_value_len(ps));
    if l < mark_len() {
        mark_len()
    } else {
        l
    }
}

/// A value longer than `cap` keeps its first `cap - 14` bytes and gets the
/// mark; a shorter one is left alone.
pub open spec fn shrink_pair(p: Pair, cap: int) -> Pair {
    if utf8_len(p.1) > cap {
        match byte_cut(p.1, cap - mark_len()) {
            Some(k) => (p.0, p.1.take(k as int) + TRUNCATION_MARK@),
            None => p,
        }
    } else {
        p
    }
}

/// Whether the values phase runs: the headers do not fit even after the
/// dropping phase.
pub open spec fn needs_shrink(ps: Seq<Pair>) -> bool {
    sum_sizes(ps) - 1 > HEADERS_SIZE_LIMIT && sum_sizes(kept_headers(ps)) - 1 > HEADERS_SIZE_LIMIT
}

/// Every value that gets cut is cut on a character boundary (a cut inside a
/// character is a panic in `str` slicing), and the sizes fit a `usize`.
pub open spec fn truncation_defined(ps: Seq<Pair>) -> bool {
    &&& sum_sizes(ps) <= usize::MAX
    &&& needs_shrink(ps) ==> forall|i: int|
        0 <= i < kept_headers(ps).len() && utf8_len(#[trigger] kept_headers(ps)[i].1) > shrink_cap(
            kept_headers(ps),
        ) ==> byte_cut(kept_headers(ps)[i].1, shrink_cap(kept_headers(ps)) - mark_len()) is Some
}

/// Headers within the limit are kept whole; otherwise the heaviest are
/// dropped until cutting could make the rest fit, and if they still do not
/// fit, every value is cut to one common cap.
pub open spec fn truncate_headers_spec(ps: Seq<Pair>) -> (bool, Seq<Pair>) {
    if sum_sizes(ps) - 1 <= HEADERS_SIZE_LIMIT {
        (false, ps)
    } else if sum_sizes(kept_headers(ps)) - 1 <= HEADERS_SIZE_LIMIT {
        (true, kept_headers(ps))
    } else {
        let k = kept_headers(ps);
        let cap = shrink_cap(k);
        (true, k.map_values(|p: Pair| shrink_pair(p, cap)))
    }
}

// ── lemmas ──

proof fn lemma_sum_sizes_nonneg(ps: Seq<Pair>)
    ensures
        sum_sizes(ps) >= 0,
    decreases ps.len(),
{
    if ps.len() > 0 {
        lemma_sum_sizes_nonneg(ps.drop_last());
    }
}

proof fn lemma_sum_sizes_prefix(ps: Seq<Pair>, i: int)
    requires
        0 <= i <= ps.len(),
    ensures
        0 <= sum_sizes(ps.take(i)) <= sum_sizes(ps),
        i < ps.len() ==> sum_sizes(ps.take(i)) + pair_size(ps[i]) <= sum_sizes(ps),
    decreases ps.len(),
{
    lemma_sum_sizes_nonneg(ps.take(i));
    if i < ps.len() {
        if i == ps.len() - 1 {
            assert(ps.take(i) =~= ps.drop_last());
        } else {
            lemma_sum_sizes_prefix(ps.drop_last(), i);
            assert(ps.drop_last().take(i) =~= ps.take(i));
            assert(ps.drop_last()[i] == ps[i]);
        }
    } else {
        assert(ps.take(i) =~= ps);
    }
}

proof fn lemma_keep_sums(ps: Seq<Pair>, dropped: Seq<bool>)
    requires
        dropped.len() == ps.len(),
    ensures
        sum_min_kept(ps, dropped) == sum_min_kept(
            keep(ps, dropped),
            Seq::new(keep(ps, dropped).len(), |i: int| false),
        ),
        sum_sizes(keep(ps, dropped)) <= sum_sizes(ps),
        sum_min_kept(ps, dropped) >= 0,
    decreases ps.len(),
{
    if ps.len() > 0 {
        lemma_keep_sums(ps.drop_last(), dropped.drop_last());
        let k0 = keep(ps.drop_last(), dropped.drop_last());
        let f0 = Seq::new(k0.len(), |i: int| false);
        if !dropped.last() {
            let k = k0.push(ps.last());
            let f = Seq::new(k.len(), |i: int| false);
            assert(k.drop_last() =~= k0);
            assert(f.drop_last() =~= f0);
        }
    }
}

proof fn lemma_min_kept_update(ps: Seq<Pair>, dropped: Seq<bool>, m: int)
    requires
        dropped.len() == ps.len(),
        0 <= m < ps.len(),
        !dropped[m],
    ensures
        sum_min_kept(ps, dropped.update(m, true)) == sum_min_kept(ps, dropped) - pair_min_size(ps[m]),
    decreases ps.len(),
{
    let d2 = dropped.update(m, true);
    if m == ps.len() - 1 {
        assert(d2.drop_last() =~= dropped.drop_last());
    } else {
        assert(d2.drop_last() =~= dropped.drop_last().update(m, true));
        lemma_min_kept_update(ps.drop_last(), dropped.drop_last(), m);
    }
}

proof fn lemma_heaviest(ps: Seq<Pair>, dropped: Seq<bool>, i: int)
    requires
        dropped.len() == ps.len(),
        0 <= i,
    ensures
        match heaviest_from(ps, dropped, i) {
            Some(m) => i <= m < ps.len() && !dropped[m],
            None => forall|j: int| i <= j < ps.len() ==> dropped[j],
        },
    decreases ps.len() - i,
{
    if i < ps.len() {
        lemma_heaviest(ps, dropped, i + 1);
    }
}

/// The exec form of the sizes: name bytes, value bytes, pair size, least size.
struct SizedPair {
    name: Vec<char>,
    value: Vec<char>,
    klen: usize,
    vlen: usize,
}

spec fn sized_view(v: Seq<SizedPair>) -> Seq<Pair> {
    v.map_values(|p: SizedPair| (p.name@, p.value@))
}

spec fn sized_ok(v: Seq<SizedPair>) -> bool {
    forall|i: int|
        #![trigger v[i]]
        0 <= i < v.len() ==> v[i].klen == utf8_len(v[i].name@) && v[i].vlen == utf8_len(v[i].value@)
}

fn min_size_of(p: &SizedPair) -> (r: usize)
    requires
        p.klen == utf8_len(p.name@),
        p.vlen == utf8_len(p.value@),
        p.klen + p.vlen + 3 <= usize::MAX,
    ensures
        r == pair_min_size((p.name@, p.value@)),
{
    let v = if p.vlen < 14 { p.vlen } else { 14 };
    p.klen + v + 3
}

fn heaviest_exec(ps: &Vec<SizedPair>, dropped: &Vec<bool>) -> (r: Option<usize>)
    requires
        dropped@.len() == ps@.len(),
        sized_ok(ps@),
        sum_sizes(sized_view(ps@)) <= usize::MAX,
    ensures
        match heaviest_from(sized_view(ps@), dropped@, 0) {
            Some(m) => r matches Some(b) && b as int == m,
            None => r is None,
        },
{
    let ghost pv = sized_view(ps@);
    let mut best: Option<usize> = None;
    let mut i: usize = ps.len();
    while i > 0
        invariant
            i <= ps@.len(),
            dropped@.len() == ps@.len(),
            pv == sized_view(ps@),
            sized_ok(ps@),
            sum_sizes(pv) <= usize::MAX,
            match heaviest_from(pv, dropped@, i as int) {
                Some(m) => best matches Some(b) && b as int == m,
                None => best is None,
            },
        decreases i,
    {
        i = i - 1;
        proof {
            lemma_heaviest(pv, dropped@, i + 1);
            lemma_sum_sizes_prefix(pv, i as int);
        }
        if !dropped[i] {
            assert(ps@[i as int].klen == utf8_len(ps@[i as int].name@));
            assert(ps@[i as int].vlen == utf8_len(ps@[i as int].value@));
            let mi = min_size_of(&ps[i]);
            match best {
                None => {
                    best = Some(i);
                },
                Some(j) => {
                    proof {
                        lemma_sum_sizes_prefix(pv, j as int);
                        assert(ps@[j as int].klen == utf8_len(ps@[j as int].name@));
                        assert(ps@[j as int].vlen == utf8_len(ps@[j as int].value@));
                    }
                    let mj = min_size_of(&ps[j]);
                    if mi >= mj {
                        best = Some(i);
                    }
                },
            }
        }
    }
    best
}


pub open spec fn all_kept(n: nat) -> Seq<bool> {
    Seq::new(n, |i: int| false)
}

pub open spec fn count_kept(d: Seq<bool>) -> nat
    decreases d.len(),
{
    if d.len() == 0 {
        0
    } else {
        count_kept(d.drop_last()) + if d.last() {
            0nat
        } else {
            1nat
        }
    }
}

/// Name bytes plus the three separator bytes of every header.
pub open spec fn sum_names(ps: Seq<Pair>) -> int
    decreases ps.len(),
{
    if ps.len() == 0 {
        0
    } else {
        sum_names(ps.drop_last()) + utf8_len(ps.last().0) + 3
    }
}

proof fn lemma_count_update(d: Seq<bool>, m: int)
    requires
        0 <= m < d.len(),
        !d[m],
    ensures
        count_kept(d.update(m, true)) + 1 == count_kept(d),
    decreases d.len(),
{
    let d2 = d.update(m, true);
    if m == d.len() - 1 {
        assert(d2.drop_last() =~= d.drop_last());
    } else {
        assert(d2.drop_last() =~= d.drop_last().update(m, true));
        lemma_count_update(d.drop_last(), m);
    }
}

proof fn lemma_count_all_kept(n: nat)
    ensures
        count_kept(all_kept(n)) == n,
    decreases n,
{
    if n > 0 {
        assert(all_kept(n).drop_last() =~= all_kept((n - 1) as nat));
        lemma_count_all_kept((n - 1) as nat);
    }
}

proof fn lemma_all_dropped(ps: Seq<Pair>, d: Seq<bool>)
    requires
        d.len() == ps.len(),
        forall|j: int| 0 <= j < d.len() ==> d[j],
    ensures
        sum_min_kept(ps, d) == 0,
        count_kept(d) == 0,
    decreases ps.len(),
{
    if ps.len() > 0 {
        lemma_all_dropped(ps.drop_last(), d.drop_last());
    }
}

proof fn lemma_sizes_split(ps: Seq<Pair>)
    ensures
        sum_sizes(ps) == sum_names(ps) + sum_values(ps),
        sum_min_kept(ps, all_kept(ps.len())) >= sum_names(ps),
        sum_values(ps) >= 0,
        sum_names(ps) >= 0,
    decreases ps.len(),
{
    if ps.len() > 0 {
        lemma_sizes_split(ps.drop_last());
        assert(all_kept(ps.len()).drop_last() =~= all_kept(ps.drop_last().len()));
    }
}

proof fn lemma_capped_mono(ps: Seq<Pair>, a: int, b: int)
    requires
        0 <= a <= b,
    ensures
        0 <= capped_values(ps, a) <= capped_values(ps, b),
    decreases ps.len(),
{
    if ps.len() > 0 {
        lemma_capped_mono(ps.drop_last(), a, b);
    }
}

proof fn lemma_capped_zero(ps: Seq<Pair>)
    ensures
        capped_values(ps, 0) == 0,
    decreases ps.len(),
{
    if ps.len() > 0 {
        lemma_capped_zero(ps.drop_last());
    }
}

proof fn lemma_capped_at_max(ps: Seq<Pair>, c: int)
    requires
        c >= max_value_len(ps),
    ensures
        capped_values(ps, c) == sum_values(ps),
        max_value_len(ps) >= 0,
    decreases ps.len(),
{
    if ps.len() > 0 {
        lemma_capped_at_max(ps.drop_last(), c);
    }
}

proof fn lemma_capped_prefix(ps: Seq<Pair>, c: int, i: int)
    requires
        0 <= i <= ps.len(),
        c >= 0,
    ensures
        capped_values(ps.take(i), c) <= capped_values(ps, c),
    decreases ps.len(),
{
    if i < ps.len() {
        lemma_capped_prefix(ps.drop_last(), c, i);
        assert(ps.drop_last().take(i) =~= ps.take(i));
    } else {
        assert(ps.take(i) =~= ps);
    }
}

proof fn lemma_level(ps: Seq<Pair>, budget: int, lo: int, m: int)
    requires
        0 <= lo <= m,
        capped_values(ps, lo) <= budget,
        capped_values(ps, lo + 1) > budget,
    ensures
        level_from(ps, budget, m) == lo,
    decreases m,
{
    if m > lo {
        lemma_capped_mono(ps, lo + 1, m);
        lemma_level(ps, budget, lo, m - 1);
    }
}

/// Whether the values capped at `c` bytes fit `budget`.
fn fits_cap(k: &Vec<SizedPair>, c: usize, budget: usize) -> (b: bool)
    requires
        sized_ok(k@),
    ensures
        b == (capped_values(sized_view(k@), c as int) <= budget),
{
    let ghost kv = sized_view(k@);
    let mut acc: usize = 0;
    let mut i: usize = 0;
    assert(kv.take(0) =~= Seq::<Pair>::empty());
    while i < k.len()
        invariant
            i <= k@.len(),
            kv == sized_view(k@),
            sized_ok(k@),
            acc == capped_values(kv.take(i as int), c as int),
            acc <= budget,
        decreases k.len() - i,
    {
        assert(kv.take(i + 1).drop_last() =~= kv.take(i as int));
        assert(k@[i as int].vlen == utf8_len(k@[i as int].value@));
        let t = if k[i].vlen < c { k[i].vlen } else { c };
        if t > budget - acc {
            proof {
                lemma_capped_prefix(kv, c as int, i + 1);
            }
            return false;
        }
        acc = acc + t;
        i = i + 1;
    }
    assert(kv.take(k@.len() as int) =~= kv);
    true
}

fn to_string_pairs(k: &Vec<SizedPair>) -> (r: Vec<(String, String)>)
    ensures
        pair_views(r@) == sized_view(k@),
{
    let mut out: Vec<(String, String)> = Vec::new();
    let mut i: usize = 0;
    while i < k.len()
        invariant
            i <= k@.len(),
            pair_views(out@) == sized_view(k@).take(i as int),
        decreases k.len() - i,
    {
        let ghost prev = out@;
        out.push((string_of(k[i].name.as_slice()), string_of(k[i].value.as_slice())));
        assert(pair_views(out@) =~= pair_views(prev).push((k@[i as int].name@, k@[i as int].value@)));
        assert(sized_view(k@).take(i + 1) =~= sized_view(k@).take(i as int).push(
            (k@[i as int].name@, k@[i as int].value@),
        ));
        i = i + 1;
    }
    assert(sized_view(k@).take(k@.len() as int) =~= sized_view(k@));
    out
}


/// Names, values and their byte lengths, for all pairs.
fn sized_pairs(pairs: &Vec<(String, String)>) -> (r: (Vec<SizedPair>, usize))
    requires
        sum_sizes(pair_views(pairs@)) <= usize::MAX,
    ensures
        sized_view(r.0@) == pair_views(pairs@),
        sized_ok(r.0@),
        r.1 == sum_sizes(pair_views(pairs@)),
{
    let ghost pv = pair_views(pairs@);
    let mut out: Vec<SizedPair> = Vec::new();
    let mut total: usize = 0;
    let mut i: usize = 0;
    assert(pv.take(0) =~= Seq::<Pair>::empty());
    while i < pairs.len()
        invariant
            i <= pairs@.len(),
            pv == pair_views(pairs@),
            sum_sizes(pv) <= usize::MAX,
            sized_view(out@) == pv.take(i as int),
            sized_ok(out@),
            total == sum_sizes(pv.take(i as int)),
        decreases pairs.len() - i,
    {
        proof {
            lemma_sum_sizes_prefix(pv, i as int);
        }
        assert(pv.take(i + 1).drop_last() =~= pv.take(i as int));
        assert(pv[i as int] == (pairs@[i as int].0@, pairs@[i as int].1@));
        let name = chars_of(pairs[i].0.as_str());
        let value = chars_of(pairs[i].1.as_str());
        let klen = utf8_len_exec(name.as_slice());
        let vlen = utf8_len_exec(value.as_slice());
        total = total + klen + vlen + 3;
        let ghost prev = out@;
        out.push(SizedPair { name, value, klen, vlen });
        assert(sized_view(out@) =~= sized_view(prev).push(pv[i as int]));
        assert(sized_view(out@) =~= pv.take(i + 1));
        i = i + 1;
    }
    assert(pv.take(pairs@.len() as int) =~= pv);
    (out, total)
}

/// The dropping phase: which headers go.
fn drop_phase(sized: &Vec<SizedPair>) -> (r: Vec<bool>)
    requires
        sized_ok(sized@),
        sum_sizes(sized_view(sized@)) <= usize::MAX,
    ensures
        r@ == drop_plan(
            sized_view(sized@),
            all_kept(sized@.len()),
            sum_min_kept(sized_view(sized@), all_kept(sized@.len())) - 1,
            sized@.len(),
        ),
        sum_min_kept(sized_view(sized@), r@) <= HEADERS_SIZE_LIMIT + 1,
        r@.len() == sized@.len(),
{
    let ghost pv = sized_view(sized@);
    let n = sized.len();
    let mut dropped: Vec<bool> = Vec::new();
    let mut least_total: usize = 0;
    let mut i: usize = 0;
    assert(pv.take(0) =~= Seq::<Pair>::empty());
    while i < n
        invariant
            i <= n == sized@.len(),
            sized_view(sized@) == pv,
            sized_ok(sized@),
            sum_sizes(pv) <= usize::MAX,
            dropped@ == all_kept(i as nat),
            least_total == sum_min_kept(pv.take(i as int), all_kept(i as nat)),
            least_total <= sum_sizes(pv.take(i as int)),
        decreases n - i,
    {
        proof {
            lemma_sum_sizes_prefix(pv, i as int);
        }
        assert(pv.take(i + 1).drop_last() =~= pv.take(i as int));
        assert(all_kept((i + 1) as nat).drop_last() =~= all_kept(i as nat));
        assert(sized@[i as int].klen == utf8_len(sized@[i as int].name@));
        let m = min_size_of(&sized[i]);
        least_total = least_total + m;
        dropped.push(false);
        assert(dropped@ =~= all_kept((i + 1) as nat));
        i = i + 1;
    }
    assert(pv.take(n as int) =~= pv);
    let ghost start_min = least_total as int;
    let ghost plan = drop_plan(pv, all_kept(n as nat), start_min - 1, n as nat);
    proof {
        lemma_count_all_kept(n as nat);
    }
    let mut fuel: usize = n;
    let mut exhausted = false;
    while least_total > HEADERS_SIZE_LIMIT + 1 && !exhausted
        invariant
            n == sized@.len() == pv.len(),
            sized_view(sized@) == pv,
            sized_ok(sized@),
            sum_sizes(pv) <= usize::MAX,
            dropped@.len() == n,
            least_total == sum_min_kept(pv, dropped@),
            fuel == count_kept(dropped@),
            plan == drop_plan(pv, dropped@, least_total - 1, fuel as nat),
            exhausted ==> (plan == dropped@ && forall|j: int| 0 <= j < n ==> dropped@[j]),
        decreases fuel + if exhausted { 0usize } else { 1usize },
    {
        proof {
            lemma_heaviest(pv, dropped@, 0);
        }
        match heaviest_exec(&sized, &dropped) {
            None => {
                proof {
                    lemma_all_dropped(pv, dropped@);
                }
                exhausted = true;
            },
            Some(m) => {
                proof {
                    lemma_min_kept_update(pv, dropped@, m as int);
                    lemma_count_update(dropped@, m as int);
                    lemma_keep_sums(pv, dropped@.update(m as int, true));
                    assert(sized@[m as int].klen == utf8_len(sized@[m as int].name@));
                    lemma_sum_sizes_prefix(pv, m as int);
                }
                let w = min_size_of(&sized[m]);
                dropped.set(m, true);
                least_total = least_total - w;
                fuel = fuel - 1;
            },
        }
    }
    proof {
        if exhausted {
            lemma_all_dropped(pv, dropped@);
        }
    }
    dropped
}

/// The headers not dropped, and their total size.
fn keep_phase(sized: &Vec<SizedPair>, dropped: &Vec<bool>) -> (r: (Vec<SizedPair>, usize))
    requires
        sized_ok(sized@),
        sum_sizes(sized_view(sized@)) <= usize::MAX,
        dropped@.len() == sized@.len(),
    ensures
        sized_view(r.0@) == keep(sized_view(sized@), dropped@),
        sized_ok(r.0@),
        r.1 == sum_sizes(sized_view(r.0@)),
{
    let ghost pv = sized_view(sized@);
    let n = sized.len();
    let mut kept: Vec<SizedPair> = Vec::new();
    let mut kept_total: usize = 0;
    let mut i: usize = 0;
    assert(pv.take(0) =~= Seq::<Pair>::empty());
    assert(dropped@.take(0) =~= Seq::<bool>::empty());
    while i < n
        invariant
            i <= n == sized@.len() == pv.len() == dropped@.len(),
            sized_view(sized@) == pv,
            sized_ok(sized@),
            sized_ok(kept@),
            sum_sizes(pv) <= usize::MAX,
            sized_view(kept@) == keep(pv.take(i as int), dropped@.take(i as int)),
            kept_total == sum_sizes(sized_view(kept@)),
        decreases n - i,
    {
        assert(pv.take(i + 1).drop_last() =~= pv.take(i as int));
        assert(dropped@.take(i + 1).drop_last() =~= dropped@.take(i as int));
        proof {
            lemma_keep_sums(pv.take(i + 1), dropped@.take(i + 1));
            lemma_sum_sizes_prefix(pv, i + 1);
        }
        if !dropped[i] {
            let p = &sized[i];
            assert(sized@[i as int].klen == utf8_len(sized@[i as int].name@));
            let ghost prev = kept@;
            assert(dropped@.take(i + 1).last() == dropped@[i as int]);
            assert(pv.take(i + 1).last() == pv[i as int]);
            assert(keep(pv.take(i + 1), dropped@.take(i + 1)) == sized_view(prev).push(pv[i as int]));
            assert(sized_view(prev).push(pv[i as int]).drop_last() =~= sized_view(prev));
            assert(sum_sizes(sized_view(prev).push(pv[i as int])) == kept_total + pair_size(pv[i as int]));
            kept_total = kept_total + p.klen + p.vlen + 3;
            kept.push(SizedPair { name: p.name.clone(), value: p.value.clone(), klen: p.klen, vlen: p.vlen });
            assert(sized_view(kept@) =~= sized_view(prev).push(pv[i as int]));
            assert(sized_view(kept@).drop_last() =~= sized_view(prev));
        }
        i = i + 1;
    }
    assert(pv.take(n as int) =~= pv);
    assert(dropped@.take(n as int) =~= dropped@);
    (kept, kept_total)
}

/// The common cap of the values phase.
fn cap_phase(kept: &Vec<SizedPair>, ghost_pv: Ghost<Seq<Pair>>, dropped: Ghost<Seq<bool>>) -> (cap: usize)
    requires
        sized_ok(kept@),
        sum_sizes(ghost_pv@) <= usize::MAX,
        dropped@.len() == ghost_pv@.len(),
        sized_view(kept@) == keep(ghost_pv@, dropped@),
        sum_min_kept(ghost_pv@, dropped@) <= HEADERS_SIZE_LIMIT + 1,
        sum_sizes(sized_view(kept@)) - 1 > HEADERS_SIZE_LIMIT,
    ensures
        cap == shrink_cap(sized_view(kept@)),
        cap >= 14,
{
    let ghost pv = ghost_pv@;
    let ghost kv = sized_view(kept@);
    proof {
        lemma_keep_sums(pv, dropped@);
        lemma_sizes_split(kv);
        lemma_capped_zero(kv);
    }
    let mut names: usize = 0;
    let mut maxv: usize = 0;
    let mut i: usize = 0;
    assert(kv.take(0) =~= Seq::<Pair>::empty());
    while i < kept.len()
        invariant
            i <= kept@.len() == kv.len(),
            kv == sized_view(kept@),
            sized_ok(kept@),
            names == sum_names(kv.take(i as int)),
            names <= sum_names(kv),
            sum_names(kv) <= HEADERS_SIZE_LIMIT + 1,
            sum_sizes(kv) <= usize::MAX,
            maxv == max_value_len(kv.take(i as int)),
            maxv <= sum_sizes(kv),
        decreases kept.len() - i,
    {
        assert(kv.take(i + 1).drop_last() =~= kv.take(i as int));
        assert(kept@[i as int].klen == utf8_len(kept@[i as int].name@));
        proof {
            lemma_sizes_split(kv.take(i + 1));
            lemma_sizes_split(kv.take(i as int));
            lemma_names_prefix(kv, i + 1);
            lemma_sum_sizes_prefix(kv, i as int);
        }
        names = names + kept[i].klen + 3;
        if kept[i].vlen > maxv {
            maxv = kept[i].vlen;
        }
        i = i + 1;
    }
    assert(kv.take(kept@.len() as int) =~= kv);
    let budget: usize = HEADERS_SIZE_LIMIT + 1 - names;
    assert(budget == value_budget(kv));
    proof {
        lemma_capped_at_max(kv, maxv as int);
    }
    let mut lo: usize = 0;
    let mut hi: usize = maxv;
    while hi - lo > 1
        invariant
            lo < hi <= maxv,
            kv == sized_view(kept@),
            sized_ok(kept@),
            capped_values(kv, lo as int) <= budget,
            capped_values(kv, hi as int) > budget,
        decreases hi - lo,
    {
        let mid = lo + (hi - lo) / 2;
        if fits_cap(&kept, mid, budget) {
            lo = mid;
        } else {
            hi = mid;
        }
    }
    proof {
        lemma_level(kv, budget as int, lo as int, maxv as int);
    }
    if lo < 14 { 14 } else { lo }
}

/// Headers limited to `HEADERS_SIZE_LIMIT` bytes: first drop the headers
/// with the largest least size until cutting values could make the rest fit,
/// then cut every value longer than a common cap to that cap, marked.
pub fn truncate_headers(pairs: Vec<(String, String)>) -> (r: TruncateResult)
    requires
        truncation_defined(pair_views(pairs@)),
    ensures
        (r.truncated, pair_views(r.headers@)) == truncate_headers_spec(pair_views(pairs@)),
{
    let ghost pv = pair_views(pairs@);
    let (sized, total) = sized_pairs(&pairs);
    if total <= HEADERS_SIZE_LIMIT + 1 {
        return TruncateResult { truncated: false, headers: pairs };
    }
    let dropped = drop_phase(&sized);
    let (kept, kept_total) = keep_phase(&sized, &dropped);
    let ghost kv = sized_view(kept@);
    assert(kv == kept_headers(pv));
    if kept_total <= HEADERS_SIZE_LIMIT + 1 {
        return TruncateResult { truncated: true, headers: to_string_pairs(&kept) };
    }
    let cap = cap_phase(&kept, Ghost(pv), Ghost(dropped@));
    let mark = chars_of(TRUNCATION_MARK);
    proof {
        reveal_strlit("...[truncated]");
    }
    let ghost target = kv.map_values(|p: Pair| shrink_pair(p, cap as int));
    let mut out: Vec<(String, String)> = Vec::new();
    let mut i: usize = 0;
    while i < kept.len()
        invariant
            i <= kept@.len() == kv.len(),
            kv == sized_view(kept@),
            kv == kept_headers(pv),
            needs_shrink(pv),
            truncation_defined(pv),
            cap == shrink_cap(kv),
            cap >= 14,
            sized_ok(kept@),
            mark@ == TRUNCATION_MARK@,
            target == kv.map_values(|p: Pair| shrink_pair(p, cap as int)),
            pair_views(out@) == target.take(i as int),
        decreases kept.len() - i,
    {
        let p = &kept[i];
        assert(kept@[i as int].vlen == utf8_len(kept@[i as int].value@));
        assert(kv[i as int] == (p.name@, p.value@));
        let ghost prev = out@;
        if p.vlen > cap {
            assert(utf8_len(kv[i as int].1) > shrink_cap(kept_headers(pv)));
            match byte_prefix(p.value.as_slice(), cap - 14) {
                Some(mut head) => {
                    append_chars(&mut head, mark.as_slice());
                    out.push((string_of(p.name.as_slice()), string_of(head.as_slice())));
                },
                None => {
                    out.push((string_of(p.name.as_slice()), string_of(p.value.as_slice())));
                },
            }
        } else {
            out.push((string_of(p.name.as_slice()), string_of(p.value.as_slice())));
        }
        assert(pair_views(out@) =~= pair_views(prev).push(target[i as int]));
        assert(target.take(i + 1) =~= target.take(i as int).push(target[i as int]));
        i = i + 1;
    }
    assert(target.take(kept@.len() as int) =~= target);
    TruncateResult { truncated: true, headers: out }
}

// ── The size bound ──

proof fn lemma_none_kept(d: Seq<bool>)
    requires
        count_kept(d) == 0,
    ensures
        forall|j: int| 0 <= j < d.len() ==> d[j],
    decreases d.len(),
{
    if d.len() > 0 {
        lemma_none_kept(d.drop_last());
        assert forall|j: int| 0 <= j < d.len() implies d[j] by {
            if j < d.len() - 1 {
                assert(d.drop_last()[j] == d[j]);
            }
        }
    }
}

/// Dropping runs until the least total size fits, or nothing is left.
proof fn lemma_drop_plan_fits(ps: Seq<Pair>, dropped: Seq<bool>, fuel: nat)
    requires
        dropped.len() == ps.len(),
        fuel == count_kept(dropped),
    ensures
        drop_plan(ps, dropped, sum_min_kept(ps, dropped) - 1, fuel).len() == ps.len(),
        sum_min_kept(ps, drop_plan(ps, dropped, sum_min_kept(ps, dropped) - 1, fuel))
            <= HEADERS_SIZE_LIMIT + 1,
    decreases fuel,
{
    let cur = sum_min_kept(ps, dropped) - 1;
    if fuel == 0 {
        lemma_none_kept(dropped);
        lemma_all_dropped(ps, dropped);
    } else if cur <= HEADERS_SIZE_LIMIT {
    } else {
        lemma_heaviest(ps, dropped, 0);
        match heaviest_from(ps, dropped, 0) {
            None => {
                lemma_all_dropped(ps, dropped);
            },
            Some(m) => {
                lemma_min_kept_update(ps, dropped, m);
                lemma_count_update(dropped, m);
                lemma_drop_plan_fits(ps, dropped.update(m, true), (fuel - 1) as nat);
            },
        }
    }
}

/// The headers left after dropping fit once every value is cut to the mark.
proof fn lemma_kept_min_fits(ps: Seq<Pair>)
    ensures
        sum_min_kept(kept_headers(ps), all_kept(kept_headers(ps).len())) <= HEADERS_SIZE_LIMIT + 1,
{
    let none = all_kept(ps.len());
    assert(none =~= Seq::new(ps.len(), |i: int| false));
    lemma_count_all_kept(ps.len());
    lemma_drop_plan_fits(ps, none, ps.len());
    let d = drop_plan(ps, none, sum_min_kept(ps, none) - 1, ps.len());
    lemma_keep_sums(ps, d);
    assert(all_kept(keep(ps, d).len()) =~= Seq::new(keep(ps, d).len(), |i: int| false));
}

/// The least sizes are the names plus the values capped at the mark's length.
proof fn lemma_min_is_capped(ps: Seq<Pair>)
    ensures
        sum_min_kept(ps, all_kept(ps.len())) == sum_names(ps) + capped_values(ps, mark_len()),
    decreases ps.len(),
{
    if ps.len() > 0 {
        assert(all_kept(ps.len()).drop_last() =~= all_kept(ps.drop_last().len()));
        lemma_min_is_capped(ps.drop_last());
    }
}

/// A level above zero is one under which the capped values fit the budget.
proof fn lemma_level_fits(ps: Seq<Pair>, budget: int, c: int)
    ensures
        level_from(ps, budget, c) > 0 ==> capped_values(ps, level_from(ps, budget, c)) <= budget,
    decreases c,
{
    if c > 0 && capped_values(ps, c) > budget {
        lemma_level_fits(ps, budget, c - 1);
    }
}

/// Cutting values to `cap` keeps the names and leaves each value at most
/// `cap` bytes.
proof fn lemma_shrunk_sizes(k: Seq<Pair>, cap: int)
    requires
        cap >= mark_len(),
        utf8_len(TRUNCATION_MARK@) == mark_len(),
        forall|i: int|
            0 <= i < k.len() && utf8_len(#[trigger] k[i].1) > cap ==> byte_cut(k[i].1, cap - mark_len()) is Some,
    ensures
        sum_names(k.map_values(|p: Pair| shrink_pair(p, cap))) == sum_names(k),
        sum_values(k.map_values(|p: Pair| shrink_pair(p, cap))) <= capped_values(k, cap),
    decreases k.len(),
{
    if k.len() > 0 {
        let r = k.map_values(|p: Pair| shrink_pair(p, cap));
        let k0 = k.drop_last();
        assert(r.drop_last() =~= k0.map_values(|p: Pair| shrink_pair(p, cap)));
        assert forall|i: int|
            0 <= i < k0.len() && utf8_len(#[trigger] k0[i].1) > cap implies byte_cut(
            k0[i].1,
            cap - mark_len(),
        ) is Some by {
            assert(k0[i] == k[i]);
        }
        lemma_shrunk_sizes(k0, cap);
        let p = k.last();
        assert(r.last() == shrink_pair(p, cap));
        if utf8_len(p.1) > cap {
            assert(k[k.len() - 1] == p);
            let n = byte_cut(p.1, cap - mark_len())->0;
            crate::text::lemma_cut_from_bound(p.1, cap - mark_len(), 0);
            crate::text::lemma_utf8_len_concat(p.1.take(n as int), TRUNCATION_MARK@);
        }
    }
}

/// Headers after `truncate_headers` fit the budget: their `name: value`
/// lines joined by newlines take at most `HEADERS_SIZE_LIMIT` bytes.
pub proof fn law_truncated_headers_fit(ps: Seq<Pair>)
    requires
        truncation_defined(ps),
    ensures
        sum_sizes(truncate_headers_spec(ps).1) - 1 <= HEADERS_SIZE_LIMIT,
{
    if needs_shrink(ps) {
        let k = kept_headers(ps);
        let cap = shrink_cap(k);
        let r = k.map_values(|p: Pair| shrink_pair(p, cap));
        reveal_strlit("...[truncated]");
        crate::text::lemma_utf8_len_ascii(TRUNCATION_MARK@);
        lemma_shrunk_sizes(k, cap);
        lemma_sizes_split(r);
        lemma_sizes_split(k);
        let budget = value_budget(k);
        let l = level_from(k, budget, max_value_len(k));
        if l < mark_len() {
            lemma_kept_min_fits(ps);
            lemma_min_is_capped(k);
        } else {
            lemma_level_fits(k, budget, max_value_len(k));
        }
    }
}

/// Whether `truncate_headers` is defined on `pairs`: the sizes fit a
/// `usize`, and every cut falls on a character boundary.
pub fn truncation_is_defined(pairs: &Vec<(String, String)>) -> (b: bool)
    ensures
        b == truncation_defined(pair_views(pairs@)),
{
    let ghost pv = pair_views(pairs@);
    let mut total: usize = 0;
    let mut i: usize = 0;
    assert(pv.take(0) =~= Seq::<Pair>::empty());
    while i < pairs.len()
        invariant
            i <= pairs@.len(),
            pv == pair_views(pairs@),
            total == sum_sizes(pv.take(i as int)),
        decreases pairs.len() - i,
    {
        assert(pv.take(i + 1).drop_last() =~= pv.take(i as int));
        assert(pv[i as int] == (pairs@[i as int].0@, pairs@[i as int].1@));
        let name = chars_of(pairs[i].0.as_str());
        let value = chars_of(pairs[i].1.as_str());
        proof {
            lemma_sum_sizes_prefix(pv, i as int);
            lemma_sizes_upper(pv, i + 1);
        }
        let klen = match utf8_len_checked(name.as_slice()) {
            Some(k) => k,
            None => return false,
        };
        let vlen = match utf8_len_checked(value.as_slice()) {
            Some(v) => v,
            None => return false,
        };
        if klen > usize::MAX - total || vlen > usize::MAX - total - klen || 3 > usize::MAX - total - klen - vlen {
            return false;
        }
        let step = klen + vlen + 3;
        total = total + step;
        i = i + 1;
    }
    assert(pv.take(pairs@.len() as int) =~= pv);
    let (sized, total2) = sized_pairs(pairs);
    if total2 <= HEADERS_SIZE_LIMIT + 1 {
        return true;
    }
    let dropped = drop_phase(&sized);
    let (kept, kept_total) = keep_phase(&sized, &dropped);
    let ghost kv = sized_view(kept@);
    assert(kv == kept_headers(pv));
    if kept_total <= HEADERS_SIZE_LIMIT + 1 {
        return true;
    }
    let cap = cap_phase(&kept, Ghost(pv), Ghost(dropped@));
    let mut i: usize = 0;
    while i < kept.len()
        invariant
            i <= kept@.len() == kv.len(),
            kv == sized_view(kept@),
            kv == kept_headers(pv),
            needs_shrink(pv),
            pv == pair_views(pairs@),
            sum_sizes(pv) <= usize::MAX,
            cap == shrink_cap(kv),
            cap >= 14,
            sized_ok(kept@),
            forall|j: int|
                0 <= j < i && utf8_len(#[trigger] kv[j].1) > cap ==> byte_cut(kv[j].1, cap - mark_len()) is Some,
        decreases kept.len() - i,
    {
        let p = &kept[i];
        assert(kept@[i as int].vlen == utf8_len(kept@[i as int].value@));
        assert(kv[i as int] == (p.name@, p.value@));
        if p.vlen > cap {
            if byte_prefix(p.value.as_slice(), cap - 14).is_none() {
                let ghost kh = kept_headers(pv);
                assert(byte_cut(kh[i as int].1, shrink_cap(kh) - mark_len()) is None);
                assert(!(0 <= i < kh.len() && utf8_len(kh[i as int].1) > shrink_cap(kh)
                    ==> byte_cut(kh[i as int].1, shrink_cap(kh) - mark_len()) is Some));
                assert(!truncation_defined(pv));
                return false;
            }
        }
        i = i + 1;
    }
    true
}

proof fn lemma_utf8_len_bound(s: Seq<char>)
    ensures
        utf8_len(s) <= 4 * s.len(),
    decreases s.len(),
{
    if s.len() > 0 {
        lemma_utf8_len_bound(s.drop_last());
    }
}

/// Once a prefix's sizes exceed `usize::MAX`, so do all of them.
proof fn lemma_sizes_upper(ps: Seq<Pair>, i: int)
    requires
        0 <= i <= ps.len(),
    ensures
        sum_sizes(ps.take(i)) <= sum_sizes(ps),
    decreases ps.len(),
{
    lemma_sum_sizes_prefix(ps, i);
}

proof fn lemma_names_prefix(ps: Seq<Pair>, i: int)
    requires
        0 <= i <= ps.len(),
    ensures
        sum_names(ps.take(i)) <= sum_names(ps),
    decreases ps.len(),
{
    lemma_sizes_split(ps);
    if i < ps.len() {
        lemma_names_prefix(ps.drop_last(), i);
        assert(ps.drop_last().take(i) =~= ps.take(i));
        lemma_sizes_split(ps.drop_last());
    } else {
        assert(ps.take(i) =~= ps);
    }
}


// ── TLS details from `curl -v` ────────────────────────────────────────────────

#[derive(Debug, Clone, PartialEq, Eq)]
pub struct TlsSubject {
    pub cn: Option<String>,
    pub alt: Option<String>,
}

#[derive(Debug, Clone, PartialEq, Eq)]
pub struct TlsIssuer {
    pub cn: Option<String>,
    pub o: Option<String>,
    pub c: Option<String>,
}

impl Default for TlsSubject {
    fn default() -> (r: Self)
        ensures
            r.cn is None && r.alt is None,
    {
        TlsSubject { cn: None, alt: None }
    }
}

impl Default for TlsIssuer {
    fn default() -> (r: Self)
        ensures
            r.cn is None && r.o is None && r.c is None,
    {
        TlsIssuer { cn: None, o: None, c: None }
    }
}

#[derive(Debug, Clone)]
pub struct TlsInfo {
    pub authorized: bool,
    pub protocol: Option<String>,
    pub cipher_name: Option<String>,
    pub created_at: Option<String>,
    pub expires_at: Option<String>,
    pub subject: TlsSubject,
    pub issuer: TlsIssuer,
    pub key_type: Option<String>,
    pub key_bits: Option<u32>,
    pub serial_number: Option<String>,
    pub fingerprint256: Option<String>,
    pub public_key: Option<String>,
}

/// What the verbose log tells of the TLS session.
pub struct TlsView {
    pub authorized: bool,
    pub protocol: Option<Seq<char>>,
    pub cipher_name: Option<Seq<char>>,
    pub created_at: Option<Seq<char>>,
    pub expires_at: Option<Seq<char>>,
    pub subject_cn: Option<Seq<char>>,
    pub subject_alt: Option<Seq<char>>,
    pub issuer_cn: Option<Seq<char>>,
    pub issuer_o: Option<Seq<char>>,
    pub issuer_c: Option<Seq<char>>,
    pub key_type: Option<Seq<char>>,
    pub key_bits: Option<u32>,
    pub serial_number: Option<Seq<char>>,
    pub fingerprint256: Option<Seq<char>>,
    pub public_key: Option<Seq<char>>,
}

impl View for TlsInfo {
    type V = TlsView;

    open spec fn view(&self) -> TlsView {
        TlsView {
            authorized: self.authorized,
            protocol: opt_view(self.protocol),
            cipher_name: opt_view(self.cipher_name),
            created_at: opt_view(self.created_at),
            expires_at: opt_view(self.expires_at),
            subject_cn: opt_view(self.subject.cn),
            subject_alt: opt_view(self.subject.alt),
            issuer_cn: opt_view(self.issuer.cn),
            issuer_o: opt_view(self.issuer.o),
            issuer_c: opt_view(self.issuer.c),
            key_type: opt_view(self.key_type),
            key_bits: self.key_bits,
            serial_number: opt_view(self.serial_number),
            fingerprint256: opt_view(self.fingerprint256),
            public_key: opt_view(self.public_key),
        }
    }
}

/// What `chrono` makes of `date` read with the `strftime`-style `fmt`:
/// `NaiveDateTime::parse_from_str`, taken as UTC and written by
/// `to_rfc3339_opts(SecondsFormat::Millis, true)`.
pub uninterp spec fn chrono_rfc3339(date: Seq<char>, fmt: Seq<char>) -> Option<Seq<char>>;

/// Calls `chrono::NaiveDateTime::parse_from_str(date, fmt)` and, on success,
/// renders the time as UTC with `to_rfc3339_opts(SecondsFormat::Millis, true)`.
/// The contract claims only that the result is a function of the two
/// arguments, named `chrono_rfc3339`.
#[verifier::external_body]
fn naive_date_rfc3339(date: &str, fmt: &str) -> (r: Option<String>)
    ensures
        opt_view(r) == chrono_rfc3339(date@, fmt@),
{
    match chrono::NaiveDateTime::parse_from_str(date, fmt) {
        Ok(dt) => Some(dt.and_utc().to_rfc3339_opts(chrono::SecondsFormat::Millis, true)),
        Err(_) => None,
    }
}

/// curl's certificate date (`Nov  5 00:00:00 2024 GMT`): its first four
/// words, rejoined by single spaces, read as `%b %e %H:%M:%S %Y` or else as
/// `%b %d %H:%M:%S %Y`; `None` with fewer than four words.
pub open spec fn curl_date_spec(s: Seq<char>) -> Option<Seq<char>> {
    let w = words(s);
    if w.len() < 4 {
        None
    } else {
        let d = join(w.take(4), " "@);
        match chrono_rfc3339(d, "%b %e %H:%M:%S %Y"@) {
            Some(x) => Some(x),
            None => chrono_rfc3339(d, "%b %d %H:%M:%S %Y"@),
        }
    }
}

/// Parse curl's date format: "Nov  5 00:00:00 2024 GMT" → ISO 8601
pub fn parse_curl_date(s: &str) -> (r: Option<String>)
    ensures
        opt_view(r) == curl_date_spec(s@),
{
    let c = chars_of(s);
    let w = words_of(c.as_slice());
    if w.len() < 4 {
        return None;
    }
    let mut first: Vec<Vec<char>> = Vec::new();
    let mut i: usize = 0;
    while i < 4
        invariant
            i <= 4 <= w@.len(),
            views(first@) == views(w@).take(i as int),
        decreases 4 - i,
    {
        let ghost prev = first@;
        first.push(w[i].clone());
        assert(views(first@) =~= views(prev).push(w@[i as int]@));
        assert(views(w@).take(i + 1) =~= views(w@).take(i as int).push(w@[i as int]@));
        i = i + 1;
    }
    let sp = chars_of(" ");
    let d = join_exec(first.as_slice(), sp.as_slice());
    let ds = string_of(d.as_slice());
    match naive_date_rfc3339(ds.as_str(), "%b %e %H:%M:%S %Y") {
        Some(x) => Some(x),
        None => naive_date_rfc3339(ds.as_str(), "%b %d %H:%M:%S %Y"),
    }
}

/// What the scan of the verbose log has gathered so far.
pub struct TlsScan {
    pub found: bool,
    pub protocol: Option<Seq<char>>,
    pub cipher_name: Option<Seq<char>>,
    pub created_at: Option<Seq<char>>,
    pub expires_at: Option<Seq<char>>,
    pub subject_cn: Option<Seq<char>>,
    pub subject_alt: Option<Seq<char>>,
    pub issuer_cn: Option<Seq<char>>,
    pub issuer_o: Option<Seq<char>>,
    pub issuer_c: Option<Seq<char>>,
}

pub open spec fn tls_scan_initial() -> TlsScan {
    TlsScan {
        found: false,
        protocol: None,
        cipher_name: None,
        created_at: None,
        expires_at: None,
        subject_cn: None,
        subject_alt: None,
        issuer_cn: None,
        issuer_o: None,
        issuer_c: None,
    }
}

/// The last `CN=` of the `;`-separated parts, or `cn` if there is none.
pub open spec fn cn_of_parts(parts: Seq<Seq<char>>, cn: Option<Seq<char>>) -> Option<Seq<char>>
    decreases parts.len(),
{
    if parts.len() == 0 {
        cn
    } else {
        let prev = cn_of_parts(parts.drop_last(), cn);
        match strip_prefix(trim(parts.last()), "CN="@) {
            Some(v) => Some(trim(v)),
            None => prev,
        }
    }
}

/// Issuer `CN=`, `O=` and `C=` from the `;`-separated parts, the last of each
/// winning, starting from `init`.
pub open spec fn issuer_of_parts(
    parts: Seq<Seq<char>>,
    init: (Option<Seq<char>>, Option<Seq<char>>, Option<Seq<char>>),
) -> (Option<Seq<char>>, Option<Seq<char>>, Option<Seq<char>>)
    decreases parts.len(),
{
    if parts.len() == 0 {
        init
    } else {
        let prev = issuer_of_parts(parts.drop_last(), init);
        let p = trim(parts.last());
        match strip_prefix(p, "CN="@) {
            Some(v) => (Some(trim(v)), prev.1, prev.2),
            None => match strip_prefix(p, "O="@) {
                Some(v) => (prev.0, Some(trim(v)), prev.2),
                None => match strip_prefix(p, "C="@) {
                    Some(v) => (prev.0, prev.1, Some(trim(v))),
                    None => prev,
                },
            },
        }
    }
}

/// `SSL connection using PROTO / CIPHER[ / …]`: the protocol and, when
/// there is a second part, the cipher.
pub open spec fn ssl_parts(rest: Seq<char>) -> (Seq<char>, Option<Seq<char>>) {
    match find_from(rest, " / "@, 0) {
        None => (trim(rest), None),
        Some(a) => {
            let tail = rest.skip(a + 3);
            match find_from(tail, " / "@, 0) {
                None => (trim(rest.take(a)), Some(trim(tail))),
                Some(b) => (trim(rest.take(a)), Some(trim(tail.take(b)))),
            }
        },
    }
}

/// One line of the verbose log: lines starting with `* ` (after trimming)
/// may carry a TLS detail.
pub open spec fn tls_step(st: TlsScan, line: Seq<char>) -> TlsScan {
    let t = trim(line);
    if !starts_with(t, "* "@) {
        st
    } else {
        let content = trim(trim_start_char(t, '*'));
        match strip_prefix(content, "SSL connection using "@) {
            Some(rest) => {
                let (proto, cipher) = ssl_parts(rest);
                TlsScan {
                    found: true,
                    protocol: Some(proto),
                    cipher_name: match cipher {
                        Some(c) => Some(c),
                        None => st.cipher_name,
                    },
                    ..st
                }
            },
            None => match strip_prefix(content, "start date: "@) {
                Some(rest) => TlsScan { created_at: curl_date_spec(trim(rest)), ..st },
                None => match strip_prefix(content, "expire date: "@) {
                    Some(rest) => TlsScan { expires_at: curl_date_spec(trim(rest)), ..st },
                    None => match strip_prefix(content, "subject: "@) {
                        Some(rest) => TlsScan {
                            subject_cn: cn_of_parts(split_on(rest, ';'), st.subject_cn),
                            ..st
                        },
                        None => match strip_prefix(content, "issuer: "@) {
                            Some(rest) => {
                                let (cn, o, c) = issuer_of_parts(
                                    split_on(rest, ';'),
                                    (st.issuer_cn, st.issuer_o, st.issuer_c),
                                );
                                TlsScan { issuer_cn: cn, issuer_o: o, issuer_c: c, ..st }
                            },
                            None => match strip_prefix(content, "subjectAltName: "@) {
                                Some(rest) => TlsScan { subject_alt: Some(trim(rest)), ..st },
                                None => st,
                            },
                        },
                    },
                },
            },
        }
    }
}

pub open spec fn tls_fold(ls: Seq<Seq<char>>) -> TlsScan
    decreases ls.len(),
{
    if ls.len() == 0 {
        tls_scan_initial()
    } else {
        tls_step(tls_fold(ls.drop_last()), ls.last())
    }
}

// ── Laws on the TLS details ──

/// The rest of a detail line of the verbose log after `field`: a line that,
/// trimmed, starts with `* `, whose text after the `*`s starts with `field`.
pub open spec fn detail_after(line: Seq<char>, field: Seq<char>) -> Option<Seq<char>> {
    let t = trim(line);
    if starts_with(t, "* "@) {
        strip_prefix(trim(trim_start_char(t, '*')), field)
    } else {
        None
    }
}

/// The rest of the last line carrying `field`.
pub open spec fn last_detail(ls: Seq<Seq<char>>, field: Seq<char>) -> Option<Seq<char>>
    decreases ls.len(),
{
    if ls.len() == 0 {
        None
    } else {
        match detail_after(ls.last(), field) {
            Some(r) => Some(r),
            None => last_detail(ls.drop_last(), field),
        }
    }
}

pub open spec fn date_of(rest: Option<Seq<char>>) -> Option<Seq<char>> {
    match rest {
        Some(r) => curl_date_spec(trim(r)),
        None => None,
    }
}

proof fn lemma_prefixes_exclusive(c: Seq<char>, a: Seq<char>, b: Seq<char>)
    requires
        a.len() > 0,
        b.len() > 0,
        a[0] != b[0],
        strip_prefix(c, a) is Some,
    ensures
        strip_prefix(c, b) is None,
{
    assert(c.subrange(0, a.len() as int)[0] == a[0]);
    if strip_prefix(c, b) is Some {
        assert(c.subrange(0, b.len() as int)[0] == b[0]);
    }
}

proof fn lemma_tls_dates(ls: Seq<Seq<char>>)
    ensures
        tls_fold(ls).created_at == date_of(last_detail(ls, "start date: "@)),
        tls_fold(ls).expires_at == date_of(last_detail(ls, "expire date: "@)),
    decreases ls.len(),
{
    if ls.len() > 0 {
        lemma_tls_dates(ls.drop_last());
        let line = ls.last();
        let t = trim(line);
        let content = trim(trim_start_char(t, '*'));
        reveal_strlit("start date: ");
        reveal_strlit("expire date: ");
        reveal_strlit("SSL connection using ");
        if starts_with(t, "* "@) {
            if strip_prefix(content, "start date: "@) is Some {
                lemma_prefixes_exclusive(content, "start date: "@, "SSL connection using "@);
                lemma_prefixes_exclusive(content, "start date: "@, "expire date: "@);
            }
            if strip_prefix(content, "expire date: "@) is Some {
                lemma_prefixes_exclusive(content, "expire date: "@, "SSL connection using "@);
                lemma_prefixes_exclusive(content, "expire date: "@, "start date: "@);
            }
        }
    }
}

/// The certificate's validity: `created_at` is the date on the last
/// `start date:` line of the log and `expires_at` the date on the last
/// `expire date:` line; a date missing from the log is `None`.
pub proof fn law_tls_dates_from_their_lines(verbose: Seq<char>, ssl_verify_result: u32)
    ensures
        parse_tls_verbose_spec(verbose, ssl_verify_result) matches Some(v) ==> v.created_at == date_of(
            last_detail(lines(verbose), "start date: "@),
        ) && v.expires_at == date_of(last_detail(lines(verbose), "expire date: "@)),
{
    lemma_tls_dates(lines(verbose));
}

/// TLS details of a verbose curl log; `None` unless it names the TLS
/// session (`SSL connection using …`). `authorized` is whether curl's
/// `ssl_verify_result` is 0; the certificate fields curl does not print are
/// left empty.
pub open spec fn parse_tls_verbose_spec(verbose: Seq<char>, ssl_verify_result: u32) -> Option<TlsView> {
    let st = tls_fold(lines(verbose));
    if !st.found {
        None
    } else {
        Some(
            TlsView {
                authorized: ssl_verify_result == 0,
                protocol: st.protocol,
                cipher_name: st.cipher_name,
                created_at: st.created_at,
                expires_at: st.expires_at,
                subject_cn: st.subject_cn,
                subject_alt: st.subject_alt,
                issuer_cn: st.issuer_cn,
                issuer_o: st.issuer_o,
                issuer_c: st.issuer_c,
                key_type: None,
                key_bits: None,
                serial_number: None,
                fingerprint256: None,
                public_key: None,
            },
        )
    }
}

struct TlsScanExec {
    found: bool,
    protocol: Option<Vec<char>>,
    cipher_name: Option<Vec<char>>,
    created_at: Option<String>,
    expires_at: Option<String>,
    subject_cn: Option<Vec<char>>,
    subject_alt: Option<Vec<char>>,
    issuer_cn: Option<Vec<char>>,
    issuer_o: Option<Vec<char>>,
    issuer_c: Option<Vec<char>>,
}

spec fn scan_view(e: TlsScanExec) -> TlsScan {
    TlsScan {
        found: e.found,
        protocol: opt_chars_view(e.protocol),
        cipher_name: opt_chars_view(e.cipher_name),
        created_at: opt_view(e.created_at),
        expires_at: opt_view(e.expires_at),
        subject_cn: opt_chars_view(e.subject_cn),
        subject_alt: opt_chars_view(e.subject_alt),
        issuer_cn: opt_chars_view(e.issuer_cn),
        issuer_o: opt_chars_view(e.issuer_o),
        issuer_c: opt_chars_view(e.issuer_c),
    }
}

fn ssl_parts_exec(rest: &[char]) -> (r: (Vec<char>, Option<Vec<char>>))
    ensures
        (r.0@, opt_chars_view(r.1)) == ssl_parts(rest@),
{
    let _n = rest.len();
    let sep = chars_of(" / ");
    proof {
        reveal_strlit(" / ");
    }
    match find_exec(rest, sep.as_slice(), 0) {
        None => (trim_chars(rest), None),
        Some(a) => {
            proof {
                lemma_find_from(rest@, sep@, 0);
            }
            let head = chars_range(rest, 0, a);
            assert(head@ =~= rest@.take(a as int));
            let tail = chars_range(rest, a + 3, rest.len());
            assert(tail@ =~= rest@.skip(a + 3));
            match find_exec(tail.as_slice(), sep.as_slice(), 0) {
                None => (trim_chars(head.as_slice()), Some(trim_chars(tail.as_slice()))),
                Some(b) => {
                    proof {
                        lemma_find_from(tail@, sep@, 0);
                    }
                    let mid = chars_range(tail.as_slice(), 0, b);
                    assert(mid@ =~= tail@.take(b as int));
                    (trim_chars(head.as_slice()), Some(trim_chars(mid.as_slice())))
                },
            }
        },
    }
}

fn cn_of_parts_exec(parts: &Vec<Vec<char>>, cn: Option<Vec<char>>) -> (r: Option<Vec<char>>)
    ensures
        opt_chars_view(r) == cn_of_parts(views(parts@), opt_chars_view(cn)),
{
    let ghost pv = views(parts@);
    let mut cur = cn;
    let ghost init = opt_chars_view(cur);
    let mut i: usize = 0;
    assert(pv.take(0) =~= Seq::<Seq<char>>::empty());
    let pre = chars_of("CN=");
    while i < parts.len()
        invariant
            i <= parts@.len(),
            pv == views(parts@),
            pre@ == "CN="@,
            opt_chars_view(cur) == cn_of_parts(pv.take(i as int), init),
        decreases parts.len() - i,
    {
        assert(pv.take(i + 1).drop_last() =~= pv.take(i as int));
        let p = trim_chars(parts[i].as_slice());
        match strip_prefix_exec(p.as_slice(), pre.as_slice()) {
            Some(v) => {
                cur = Some(trim_chars(v.as_slice()));
            },
            None => {},
        }
        i = i + 1;
    }
    assert(pv.take(parts@.len() as int) =~= pv);
    cur
}

fn tls_step_exec(st: &mut TlsScanExec, line: &[char])
    ensures
        scan_view(*final(st)) == tls_step(scan_view(*old(st)), line@),
{
    let t = trim_chars(line);
    let star = chars_of("* ");
    if !starts_with_exec(t.as_slice(), star.as_slice()) {
        return;
    }
    let t2 = trim_start_char_exec(t.as_slice(), '*');
    let content = trim_chars(t2.as_slice());
    let p_ssl = chars_of("SSL connection using ");
    let p_start = chars_of("start date: ");
    let p_expire = chars_of("expire date: ");
    let p_subject = chars_of("subject: ");
    let p_issuer = chars_of("issuer: ");
    let p_alt = chars_of("subjectAltName: ");
    if let Some(rest) = strip_prefix_exec(content.as_slice(), p_ssl.as_slice()) {
        let (proto, cipher) = ssl_parts_exec(rest.as_slice());
        st.found = true;
        st.protocol = Some(proto);
        if cipher.is_some() {
            st.cipher_name = cipher;
        }
        return;
    }
    if let Some(rest) = strip_prefix_exec(content.as_slice(), p_start.as_slice()) {
        let r = trim_chars(rest.as_slice());
        st.created_at = parse_curl_date(string_of(r.as_slice()).as_str());
        return;
    }
    if let Some(rest) = strip_prefix_exec(content.as_slice(), p_expire.as_slice()) {
        let r = trim_chars(rest.as_slice());
        st.expires_at = parse_curl_date(string_of(r.as_slice()).as_str());
        return;
    }
    if let Some(rest) = strip_prefix_exec(content.as_slice(), p_subject.as_slice()) {
        let parts = split_chars(rest.as_slice(), ';');
        let cur = st.subject_cn.take();
        st.subject_cn = cn_of_parts_exec(&parts, cur);
        return;
    }
    if let Some(rest) = strip_prefix_exec(content.as_slice(), p_issuer.as_slice()) {
        let parts = split_chars(rest.as_slice(), ';');
        let ghost pv = views(parts@);
        let ghost init = (
            opt_chars_view(st.issuer_cn),
            opt_chars_view(st.issuer_o),
            opt_chars_view(st.issuer_c),
        );
        let pcn = chars_of("CN=");
        let po = chars_of("O=");
        let pc = chars_of("C=");
        let mut i: usize = 0;
        assert(pv.take(0) =~= Seq::<Seq<char>>::empty());
        while i < parts.len()
            invariant
                i <= parts@.len(),
                pv == views(parts@),
                pcn@ == "CN="@,
                po@ == "O="@,
                pc@ == "C="@,
                (opt_chars_view(st.issuer_cn), opt_chars_view(st.issuer_o), opt_chars_view(st.issuer_c))
                    == issuer_of_parts(pv.take(i as int), init),
                scan_view(*st) == (TlsScan {
                    issuer_cn: opt_chars_view(st.issuer_cn),
                    issuer_o: opt_chars_view(st.issuer_o),
                    issuer_c: opt_chars_view(st.issuer_c),
                    ..scan_view(*old(st))
                }),
            decreases parts.len() - i,
        {
            assert(pv.take(i + 1).drop_last() =~= pv.take(i as int));
            let p = trim_chars(parts[i].as_slice());
            if let Some(v) = strip_prefix_exec(p.as_slice(), pcn.as_slice()) {
                st.issuer_cn = Some(trim_chars(v.as_slice()));
            } else if let Some(v) = strip_prefix_exec(p.as_slice(), po.as_slice()) {
                st.issuer_o = Some(trim_chars(v.as_slice()));
            } else if let Some(v) = strip_prefix_exec(p.as_slice(), pc.as_slice()) {
                st.issuer_c = Some(trim_chars(v.as_slice()));
            }
            i = i + 1;
        }
        assert(pv.take(parts@.len() as int) =~= pv);
        return;
    }
    if let Some(rest) = strip_prefix_exec(content.as_slice(), p_alt.as_slice()) {
        st.subject_alt = Some(trim_chars(rest.as_slice()));
    }
}

fn opt_string(o: Option<Vec<char>>) -> (r: Option<String>)
    ensures
        opt_view(r) == opt_chars_view(o),
{
    match o {
        Some(v) => Some(string_of(v.as_slice())),
        None => None,
    }
}

/// Parse curl -v stderr output for TLS connection details.
/// Returns None if no TLS info found (plain HTTP).
pub fn parse_tls_verbose(verbose: &str, ssl_verify_result: u32) -> (r: Option<TlsInfo>)
    ensures
        match parse_tls_verbose_spec(verbose@, ssl_verify_result) {
            Some(v) => r matches Some(t) && t@ == v,
            None => r is None,
        },
{
    let c = chars_of(verbose);
    let ls = lines_of(c.as_slice());
    let ghost lv = views(ls@);
    let mut st = TlsScanExec {
        found: false,
        protocol: None,
        cipher_name: None,
        created_at: None,
        expires_at: None,
        subject_cn: None,
        subject_alt: None,
        issuer_cn: None,
        issuer_o: None,
        issuer_c: None,
    };
    let mut i: usize = 0;
    assert(lv.take(0) =~= Seq::<Seq<char>>::empty());
    while i < ls.len()
        invariant
            i <= ls@.len(),
            lv == views(ls@),
            scan_view(st) == tls_fold(lv.take(i as int)),
        decreases ls.len() - i,
    {
        assert(lv.take(i + 1).drop_last() =~= lv.take(i as int));
        tls_step_exec(&mut st, ls[i].as_slice());
        i = i + 1;
    }
    assert(lv.take(ls@.len() as int) =~= lv);
    if !st.found {
        return None;
    }
    Some(
        TlsInfo {
            authorized: ssl_verify_result == 0,
            protocol: opt_string(st.protocol),
            cipher_name: opt_string(st.cipher_name),
            created_at: st.created_at,
            expires_at: st.expires_at,
            subject: TlsSubject { cn: opt_string(st.subject_cn), alt: opt_string(st.subject_alt) },
            issuer: TlsIssuer {
                cn: opt_string(st.issuer_cn),
                o: opt_string(st.issuer_o),
                c: opt_string(st.issuer_c),
            },
            key_type: None,
            key_bits: None,
            serial_number: None,
            fingerprint256: None,
            public_key: None,
        },
    )
}

} // verus!
