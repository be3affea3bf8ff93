//! The text table of an MTR report.
//!
//! Columns are padded as `format!` pads (`{:<w$}`, `{:>w$}`: by characters),
//! while column widths are measured in bytes, as `str::len` measures. The
//! one-decimal figures (loss, average, standard deviation, jitter) arrive
//! already written, as `format!("{:.1}", x)` writes them.

use vstd::prelude::*;
use crate::command::mtr::parse::MtrHop;
use crate::text::{
    append_chars, char_width, char_width_exec, chars_of, decimal, decimal_chars, join, join_exec,
    string_of, utf8_len, views,
};

verus! {

/// What the table shows of one hop.
#[derive(Debug, Clone)]
pub struct OutputRow {
    pub resolved_address: Option<String>,
    pub resolved_hostname: Option<String>,
    pub asn: Vec<u32>,
    pub drop: usize,
    pub rcv: usize,
    pub loss: String,
    pub avg: String,
    pub st_dev: String,
    pub j_avg: String,
}

pub struct RowView {
    pub addr: Option<Seq<char>>,
    pub host: Option<Seq<char>>,
    pub asn: Seq<u32>,
    pub drop: usize,
    pub rcv: usize,
    pub loss: Seq<char>,
    pub avg: Seq<char>,
    pub st_dev: Seq<char>,
    pub j_avg: Seq<char>,
}

pub open spec fn ov(o: Option<String>) -> Option<Seq<char>> {
    match o {
        Some(s) => Some(s@),
        None => None,
    }
}

impl View for OutputRow {
    type V = RowView;

    open spec fn view(&self) -> RowView {
        RowView {
            addr: ov(self.resolved_address),
            host: ov(self.resolved_hostname),
            asn: self.asn@,
            drop: self.drop,
            rcv: self.rcv,
            loss: self.loss@,
            avg: self.avg@,
            st_dev: self.st_dev@,
            j_avg: self.j_avg@,
        }
    }
}

pub open spec fn row_views(v: Seq<OutputRow>) -> Seq<RowView> {
    v.map_values(|r: OutputRow| r@)
}

pub open spec fn has_address(r: RowView) -> bool {
    r.addr is Some
}

/// Row `i` is shown unless it has no address and neither has any row from
/// the one before it on: trailing rows without a reply are left out, but
/// the first of them stays.
pub open spec fn keep(rows: Seq<RowView>, i: int) -> bool {
    exists|j: int|
        (if i > 0 {
            i - 1
        } else {
            0
        }) <= j < rows.len() && #[trigger] has_address(rows[j])
}

/// The rows shown among the first `k`.
pub open spec fn kept_to(rows: Seq<RowView>, k: int) -> Seq<RowView>
    decreases k,
{
    if k <= 0 {
        Seq::empty()
    } else if keep(rows, k - 1) {
        kept_to(rows, k - 1).push(rows[k - 1])
    } else {
        kept_to(rows, k - 1)
    }
}

pub open spec fn max_of(s: Seq<nat>) -> nat
    decreases s.len(),
{
    if s.len() == 0 {
        0
    } else if s.last() > max_of(s.drop_last()) {
        s.last()
    } else {
        max_of(s.drop_last())
    }
}

pub open spec fn text_of(o: Option<Seq<char>>) -> Seq<char> {
    match o {
        Some(s) => s,
        None => Seq::empty(),
    }
}

/// `AS???` without numbers, else `AS` and the numbers joined by spaces.
pub open spec fn asn_text(asn: Seq<u32>) -> Seq<char> {
    if asn.len() == 0 {
        "AS???"@
    } else {
        "AS"@ + join(asn.map_values(|a: u32| decimal(a as nat)), " "@)
    }
}

/// The name shown for the `di`-th row: `_gateway` for the first, else the
/// host name, the address, or nothing.
pub open spec fn display_host(di: int, r: RowView) -> Seq<char> {
    if di == 0 {
        "_gateway"@
    } else {
        match r.host {
            Some(h) => h,
            None => text_of(r.addr),
        }
    }
}

pub struct Widths {
    pub idx: nat,
    pub asn: nat,
    pub addr: nat,
    pub hn: nat,
    pub drop_max: nat,
    pub avg: nat,
}

pub open spec fn widths(f: Seq<RowView>) -> Widths {
    let a = max_of(f.map_values(|r: RowView| utf8_len(r.avg)));
    Widths {
        idx: decimal(f.len()).len(),
        asn: 2 + max_of(f.map_values(|r: RowView| asn_text(r.asn).len())),
        addr: max_of(f.map_values(|r: RowView| utf8_len(text_of(r.addr)))),
        hn: max_of(Seq::new(f.len(), |i: int| utf8_len(display_host(i, f[i])))),
        drop_max: max_of(f.map_values(|r: RowView| decimal(r.drop as nat).len())),
        avg: if a > 3 {
            a
        } else {
            3
        },
    }
}

pub open spec fn hostname_col(w: Widths) -> nat {
    3 + w.addr + w.hn
}

pub open spec fn drop_col(w: Widths) -> nat {
    if w.drop_max > 4 {
        w.drop_max
    } else {
        4
    }
}

pub open spec fn rcv_col(w: Widths) -> nat {
    2 + w.drop_max
}

pub open spec fn host_col(w: Widths) -> nat {
    w.idx + w.asn + hostname_col(w) + 4
}

pub open spec fn spaces(n: nat) -> Seq<char> {
    Seq::new(n, |i: int| ' ')
}

/// `{:>w$}`.
pub open spec fn pad_left(s: Seq<char>, w: nat) -> Seq<char> {
    if s.len() < w {
        spaces((w - s.len()) as nat) + s
    } else {
        s
    }
}

/// `{:<w$}`.
pub open spec fn pad_right(s: Seq<char>, w: nat) -> Seq<char> {
    if s.len() < w {
        s + spaces((w - s.len()) as nat)
    } else {
        s
    }
}

pub open spec fn header(w: Widths) -> Seq<char> {
    pad_right("Host"@, host_col(w)) + " "@ + pad_left("Loss%"@, 7) + " "@ + pad_left(
        "Drop"@,
        drop_col(w),
    ) + " "@ + pad_left("Rcv"@, rcv_col(w)) + " "@ + pad_left("Avg"@, w.avg) + " "@ + pad_left(
        "StDev"@,
        6,
    ) + " "@ + pad_left("Javg"@, 5) + "\n"@
}

pub open spec fn figures(w: Widths, r: RowView) -> Seq<char> {
    " "@ + pad_left(r.loss, 5) + "% "@ + pad_left(decimal(r.drop as nat), drop_col(w)) + " "@
        + pad_left(decimal(r.rcv as nat), rcv_col(w)) + " "@ + pad_left(r.avg, w.avg) + " "@
        + pad_left(r.st_dev, 6) + " "@ + pad_left(r.j_avg, 5)
}

pub open spec fn row_line(w: Widths, di: int, r: RowView) -> Seq<char> {
    let lead = pad_left(decimal((di + 1) as nat), w.idx) + ". "@ + pad_right(asn_text(r.asn), w.asn)
        + " "@;
    let rest = match r.addr {
        Some(a) => pad_right(display_host(di, r) + " ("@ + a + ")"@, hostname_col(w)) + figures(
            w,
            r,
        ),
        None => pad_right("(waiting for reply)"@, hostname_col(w)),
    };
    lead + rest + "\n"@
}

pub open spec fn body(w: Widths, f: Seq<RowView>, k: int) -> Seq<char>
    decreases k,
{
    if k <= 0 {
        Seq::empty()
    } else {
        body(w, f, k - 1) + row_line(w, k - 1, f[k - 1])
    }
}

/// The table: nothing when no row is shown; otherwise the header line and
/// one line per row shown.
pub open spec fn output_spec(rows: Seq<RowView>) -> Seq<char> {
    let f = kept_to(rows, rows.len() as int);
    if f.len() == 0 {
        Seq::empty()
    } else {
        header(widths(f)) + body(widths(f), f, f.len() as int)
    }
}

// ── Laws ──────────────────────────────────────────────────────────────────────

/// `l` is the last row with an address.
pub open spec fn last_addressed(rows: Seq<RowView>, l: int) -> bool {
    &&& 0 <= l < rows.len()
    &&& has_address(rows[l])
    &&& forall|j: int| l < j < rows.len() ==> !has_address(#[trigger] rows[j])
}

/// The table shows every hop up to the last one that answered, silent hops
/// among them included, plus at most one silent hop after it; when no hop
/// answered it shows nothing.
pub proof fn law_shown_rows_reach_last_reply(rows: Seq<RowView>, l: int)
    ensures
        (forall|j: int| 0 <= j < rows.len() ==> !has_address(#[trigger] rows[j])) ==> kept_to(
            rows,
            rows.len() as int,
        ).len() == 0,
        last_addressed(rows, l) ==> kept_to(rows, rows.len() as int) == rows.take(
            if l + 2 < rows.len() {
                l + 2
            } else {
                rows.len() as int
            },
        ),
{
    if forall|j: int| 0 <= j < rows.len() ==> !has_address(#[trigger] rows[j]) {
        lemma_none_kept(rows, rows.len() as int);
    }
    if last_addressed(rows, l) {
        lemma_kept_prefix(rows, l, rows.len() as int);
    }
}

proof fn lemma_none_kept(rows: Seq<RowView>, k: int)
    requires
        0 <= k <= rows.len(),
        forall|j: int| 0 <= j < rows.len() ==> !has_address(#[trigger] rows[j]),
    ensures
        kept_to(rows, k).len() == 0,
    decreases k,
{
    if k > 0 {
        lemma_none_kept(rows, k - 1);
    }
}

proof fn lemma_kept_prefix(rows: Seq<RowView>, l: int, k: int)
    requires
        last_addressed(rows, l),
        0 <= k <= rows.len(),
    ensures
        kept_to(rows, k) == rows.take(
            if k < l + 2 {
                k
            } else {
                l + 2
            },
        ),
    decreases k,
{
    if k > 0 {
        lemma_kept_prefix(rows, l, k - 1);
        let i = k - 1;
        if i <= l + 1 {
            assert(has_address(rows[l]));
            assert(keep(rows, i));
            assert(rows.take(k) =~= rows.take(i).push(rows[i]));
        } else {
            assert forall|j: int|
                (if i > 0 {
                    i - 1
                } else {
                    0
                }) <= j < rows.len() implies !#[trigger] has_address(rows[j]) by {}
            assert(!keep(rows, i));
        }
    } else {
        assert(rows.take(0) =~= Seq::<RowView>::empty());
    }
}

// ── Building the table ────────────────────────────────────────────────────────

/// `utf8_len`, counted in a type too wide to overflow.
fn utf8_len_wide(s: &[char]) -> (n: u128)
    ensures
        n == utf8_len(s@),
        n <= 4 * s@.len(),
{
    let mut n: u128 = 0;
    let mut k: usize = 0;
    assert(s@.take(0) =~= Seq::<char>::empty());
    while k < s.len()
        invariant
            k <= s@.len(),
            n == utf8_len(s@.take(k as int)),
            n <= 4 * k,
        decreases s.len() - k,
    {
        assert(s@.take(k + 1).drop_last() =~= s@.take(k as int));
        assert(s@.take(k + 1).last() == s@[k as int]);
        let w = char_width_exec(s[k]);
        n = n + w as u128;
        k = k + 1;
    }
    assert(s@.take(s@.len() as int) =~= s@);
    n
}

fn push_spaces(out: &mut Vec<char>, n: u128)
    ensures
        final(out)@ == old(out)@ + spaces(n as nat),
{
    let ghost start = out@;
    let mut i: u128 = 0;
    assert(start + spaces(0) =~= start);
    while i < n
        invariant
            i <= n,
            out@ == start + spaces(i as nat),
        decreases n - i,
    {
        out.push(' ');
        assert(start + spaces((i + 1) as nat) =~= (start + spaces(i as nat)).push(' '));
        i = i + 1;
    }
}

fn pad_left_into(out: &mut Vec<char>, s: &[char], w: u128)
    ensures
        final(out)@ == old(out)@ + pad_left(s@, w as nat),
{
    let ghost start = out@;
    let len = s.len() as u128;
    if len < w {
        push_spaces(out, w - len);
    }
    append_chars(out, s);
    assert(out@ =~= start + pad_left(s@, w as nat));
}

fn pad_right_into(out: &mut Vec<char>, s: &[char], w: u128)
    ensures
        final(out)@ == old(out)@ + pad_right(s@, w as nat),
{
    let ghost start = out@;
    append_chars(out, s);
    let len = s.len() as u128;
    if len < w {
        push_spaces(out, w - len);
    }
    assert(out@ =~= start + pad_right(s@, w as nat));
}

fn push_text(out: &mut Vec<char>, t: &str)
    ensures
        final(out)@ == old(out)@ + t@,
{
    let c = chars_of(t);
    append_chars(out, c.as_slice());
}

fn asn_text_exec(asn: &[u32]) -> (r: Vec<char>)
    ensures
        r@ == asn_text(asn@),
{
    if asn.len() == 0 {
        return chars_of("AS???");
    }
    let ghost want = asn@.map_values(|a: u32| decimal(a as nat));
    let mut parts: Vec<Vec<char>> = Vec::new();
    let mut i: usize = 0;
    while i < asn.len()
        invariant
            i <= asn@.len(),
            want == asn@.map_values(|a: u32| decimal(a as nat)),
            views(parts@) == want.take(i as int),
        decreases asn.len() - i,
    {
        let ghost prev = parts@;
        parts.push(decimal_chars(asn[i] as u64));
        assert(views(parts@) =~= views(prev).push(want[i as int]));
        assert(want.take(i + 1) =~= want.take(i as int).push(want[i as int]));
        i = i + 1;
    }
    assert(want.take(asn@.len() as int) =~= want);
    let sp = chars_of(" ");
    let joined = join_exec(parts.as_slice(), sp.as_slice());
    let mut r = chars_of("AS");
    append_chars(&mut r, joined.as_slice());
    r
}

fn opt_chars(o: &Option<String>) -> (r: Vec<char>)
    ensures
        r@ == text_of(ov(*o)),
{
    match o {
        Some(s) => chars_of(s.as_str()),
        None => Vec::new(),
    }
}

fn display_host_exec(di: usize, r: &OutputRow) -> (h: Vec<char>)
    ensures
        h@ == display_host(di as int, r@),
{
    if di == 0 {
        chars_of("_gateway")
    } else {
        match &r.resolved_hostname {
            Some(h) => chars_of(h.as_str()),
            None => opt_chars(&r.resolved_address),
        }
    }
}

fn keep_exec(rows: &[OutputRow], i: usize) -> (b: bool)
    requires
        i < rows@.len(),
    ensures
        b == keep(row_views(rows@), i as int),
{
    let ghost rv = row_views(rows@);
    let from: usize = if i > 0 {
        i - 1
    } else {
        0
    };
    let mut j = from;
    while j < rows.len()
        invariant
            from <= j <= rows@.len(),
            rv == row_views(rows@),
            from == (if i > 0 {
                i - 1
            } else {
                0
            }),
            forall|k: int| from <= k < j ==> !#[trigger] has_address(rv[k]),
        decreases rows.len() - j,
    {
        if rows[j].resolved_address.is_some() {
            assert(has_address(rv[j as int]));
            return true;
        }
        j = j + 1;
    }
    false
}

spec fn picked(rv: Seq<RowView>, ks: Seq<usize>) -> Seq<RowView> {
    ks.map_values(|j: usize| rv[j as int])
}

/// The indices of the rows shown.
fn kept_indices(rows: &[OutputRow]) -> (ks: Vec<usize>)
    ensures
        picked(row_views(rows@), ks@) == kept_to(row_views(rows@), rows@.len() as int),
        forall|d: int| 0 <= d < ks@.len() ==> #[trigger] ks@[d] < rows@.len(),
{
    let ghost rv = row_views(rows@);
    let mut ks: Vec<usize> = Vec::new();
    let mut i: usize = 0;
    assert(picked(rv, ks@) =~= Seq::<RowView>::empty());
    while i < rows.len()
        invariant
            i <= rows@.len(),
            rv == row_views(rows@),
            picked(rv, ks@) == kept_to(rv, i as int),
            forall|d: int| 0 <= d < ks@.len() ==> #[trigger] ks@[d] < rows@.len(),
        decreases rows.len() - i,
    {
        if keep_exec(rows, i) {
            let ghost prev = ks@;
            ks.push(i);
            assert(picked(rv, ks@) =~= picked(rv, prev).push(rv[i as int]));
        }
        i = i + 1;
    }
    ks
}

struct Cols {
    idx: u128,
    asn: u128,
    addr: u128,
    hn: u128,
    drop_max: u128,
    avg: u128,
}

spec fn cols_view(c: Cols) -> Widths {
    Widths {
        idx: c.idx as nat,
        asn: c.asn as nat,
        addr: c.addr as nat,
        hn: c.hn as nat,
        drop_max: c.drop_max as nat,
        avg: c.avg as nat,
    }
}

spec fn cols_small(c: Cols) -> bool {
    c.idx <= 0x1_0000_0000_0000_0000_0000 && c.asn <= 0x1_0000_0000_0000_0000_0000 && c.addr
        <= 0x1_0000_0000_0000_0000_0000 && c.hn <= 0x1_0000_0000_0000_0000_0000 && c.drop_max
        <= 0x1_0000_0000_0000_0000_0000 && c.avg <= 0x1_0000_0000_0000_0000_0000
}

proof fn lemma_max_step(s: Seq<nat>, d: int)
    requires
        0 <= d < s.len(),
    ensures
        max_of(s.take(d + 1)) == if s[d] > max_of(s.take(d)) {
            s[d]
        } else {
            max_of(s.take(d))
        },
{
    assert(s.take(d + 1).drop_last() =~= s.take(d));
    assert(s.take(d + 1).last() == s[d]);
}

fn column_widths(rows: &[OutputRow], ks: &Vec<usize>) -> (c: Cols)
    requires
        forall|d: int| 0 <= d < ks@.len() ==> #[trigger] ks@[d] < rows@.len(),
    ensures
        cols_view(c) == widths(picked(row_views(rows@), ks@)),
        cols_small(c),
{
    let ghost f = picked(row_views(rows@), ks@);
    let ghost sa = f.map_values(|r: RowView| asn_text(r.asn).len());
    let ghost sd = f.map_values(|r: RowView| utf8_len(text_of(r.addr)));
    let ghost sh = Seq::new(f.len(), |i: int| utf8_len(display_host(i, f[i])));
    let ghost sp = f.map_values(|r: RowView| decimal(r.drop as nat).len());
    let ghost sv = f.map_values(|r: RowView| utf8_len(r.avg));
    let mut m_asn: u128 = 0;
    let mut m_addr: u128 = 0;
    let mut m_hn: u128 = 0;
    let mut m_drop: u128 = 0;
    let mut m_avg: u128 = 0;
    let mut d: usize = 0;
    assert(sa.take(0) =~= Seq::<nat>::empty());
    assert(sd.take(0) =~= Seq::<nat>::empty());
    assert(sh.take(0) =~= Seq::<nat>::empty());
    assert(sp.take(0) =~= Seq::<nat>::empty());
    assert(sv.take(0) =~= Seq::<nat>::empty());
    while d < ks.len()
        invariant
            d <= ks@.len(),
            forall|e: int| 0 <= e < ks@.len() ==> #[trigger] ks@[e] < rows@.len(),
            f == picked(row_views(rows@), ks@),
            sa == f.map_values(|r: RowView| asn_text(r.asn).len()),
            sd == f.map_values(|r: RowView| utf8_len(text_of(r.addr))),
            sh == Seq::new(f.len(), |i: int| utf8_len(display_host(i, f[i]))),
            sp == f.map_values(|r: RowView| decimal(r.drop as nat).len()),
            sv == f.map_values(|r: RowView| utf8_len(r.avg)),
            m_asn == max_of(sa.take(d as int)),
            m_addr == max_of(sd.take(d as int)),
            m_hn == max_of(sh.take(d as int)),
            m_drop == max_of(sp.take(d as int)),
            m_avg == max_of(sv.take(d as int)),
            m_asn <= 0xffff_ffff_ffff_ffff,
            m_addr <= 0x4_0000_0000_0000_0000,
            m_hn <= 0x4_0000_0000_0000_0000,
            m_drop <= 0xffff_ffff_ffff_ffff,
            m_avg <= 0x4_0000_0000_0000_0000,
        decreases ks.len() - d,
    {
        let k = ks[d];
        let row = &rows[k];
        assert(f[d as int] == rows@[k as int]@);
        proof {
            lemma_max_step(sa, d as int);
            lemma_max_step(sd, d as int);
            lemma_max_step(sh, d as int);
            lemma_max_step(sp, d as int);
            lemma_max_step(sv, d as int);
        }
        let t = asn_text_exec(row.asn.as_slice());
        let la = t.len() as u128;
        if la > m_asn {
            m_asn = la;
        }
        let a = opt_chars(&row.resolved_address);
        let _alen = a.len();
        let ld = utf8_len_wide(a.as_slice());
        if ld > m_addr {
            m_addr = ld;
        }
        let h = display_host_exec(d, row);
        let _hlen = h.len();
        let lh = utf8_len_wide(h.as_slice());
        if lh > m_hn {
            m_hn = lh;
        }
        let p = decimal_chars(row.drop as u64);
        let lp = p.len() as u128;
        if lp > m_drop {
            m_drop = lp;
        }
        let v = chars_of(row.avg.as_str());
        let _vlen = v.len();
        let lv = utf8_len_wide(v.as_slice());
        if lv > m_avg {
            m_avg = lv;
        }
        d = d + 1;
    }
    assert(sa.take(ks@.len() as int) =~= sa);
    assert(sd.take(ks@.len() as int) =~= sd);
    assert(sh.take(ks@.len() as int) =~= sh);
    assert(sp.take(ks@.len() as int) =~= sp);
    assert(sv.take(ks@.len() as int) =~= sv);
    let n = decimal_chars(ks.len() as u64);
    Cols {
        idx: n.len() as u128,
        asn: 2 + m_asn,
        addr: m_addr,
        hn: m_hn,
        drop_max: m_drop,
        avg: if m_avg > 3 {
            m_avg
        } else {
            3
        },
    }
}

fn header_into(out: &mut Vec<char>, c: &Cols)
    requires
        cols_small(*c),
    ensures
        final(out)@ == old(out)@ + header(cols_view(*c)),
{
    let hostname = 3 + c.addr + c.hn;
    let host = c.idx + c.asn + hostname + 4;
    let drop_w = if c.drop_max > 4 {
        c.drop_max
    } else {
        4
    };
    let mut h: Vec<char> = Vec::new();
    pad_right_into(&mut h, chars_of("Host").as_slice(), host);
    assert(h@ =~= pad_right("Host"@, host as nat));
    push_text(&mut h, " ");
    pad_left_into(&mut h, chars_of("Loss%").as_slice(), 7);
    push_text(&mut h, " ");
    pad_left_into(&mut h, chars_of("Drop").as_slice(), drop_w);
    push_text(&mut h, " ");
    pad_left_into(&mut h, chars_of("Rcv").as_slice(), 2 + c.drop_max);
    push_text(&mut h, " ");
    pad_left_into(&mut h, chars_of("Avg").as_slice(), c.avg);
    push_text(&mut h, " ");
    pad_left_into(&mut h, chars_of("StDev").as_slice(), 6);
    push_text(&mut h, " ");
    pad_left_into(&mut h, chars_of("Javg").as_slice(), 5);
    push_text(&mut h, "\n");
    append_chars(out, h.as_slice());
}

fn figures_exec(c: &Cols, row: &OutputRow) -> (v: Vec<char>)
    requires
        cols_small(*c),
    ensures
        v@ == figures(cols_view(*c), row@),
{
    let drop_w = if c.drop_max > 4 {
        c.drop_max
    } else {
        4
    };
    let mut v: Vec<char> = Vec::new();
    push_text(&mut v, " ");
    assert(v@ =~= " "@);
    pad_left_into(&mut v, chars_of(row.loss.as_str()).as_slice(), 5);
    push_text(&mut v, "% ");
    pad_left_into(&mut v, decimal_chars(row.drop as u64).as_slice(), drop_w);
    push_text(&mut v, " ");
    pad_left_into(&mut v, decimal_chars(row.rcv as u64).as_slice(), 2 + c.drop_max);
    push_text(&mut v, " ");
    pad_left_into(&mut v, chars_of(row.avg.as_str()).as_slice(), c.avg);
    push_text(&mut v, " ");
    pad_left_into(&mut v, chars_of(row.st_dev.as_str()).as_slice(), 6);
    push_text(&mut v, " ");
    pad_left_into(&mut v, chars_of(row.j_avg.as_str()).as_slice(), 5);
    v
}

fn row_into(out: &mut Vec<char>, c: &Cols, di: usize, row: &OutputRow)
    requires
        cols_small(*c),
        di < usize::MAX,
    ensures
        final(out)@ == old(out)@ + row_line(cols_view(*c), di as int, row@),
{
    let ghost w = cols_view(*c);
    let hostname = 3 + c.addr + c.hn;
    let mut v: Vec<char> = Vec::new();
    pad_left_into(&mut v, decimal_chars((di + 1) as u64).as_slice(), c.idx);
    assert(v@ =~= pad_left(decimal((di + 1) as nat), w.idx));
    push_text(&mut v, ". ");
    pad_right_into(&mut v, asn_text_exec(row.asn.as_slice()).as_slice(), c.asn);
    push_text(&mut v, " ");
    let mut rest: Vec<char> = Vec::new();
    match &row.resolved_address {
        Some(a) => {
            let mut shown = display_host_exec(di, row);
            push_text(&mut shown, " (");
            push_text(&mut shown, a.as_str());
            push_text(&mut shown, ")");
            pad_right_into(&mut rest, shown.as_slice(), hostname);
            assert(rest@ =~= pad_right(shown@, hostname as nat));
            let fig = figures_exec(c, row);
            append_chars(&mut rest, fig.as_slice());
        },
        None => {
            pad_right_into(&mut rest, chars_of("(waiting for reply)").as_slice(), hostname);
            assert(rest@ =~= pad_right("(waiting for reply)"@, hostname as nat));
        },
    }
    append_chars(&mut v, rest.as_slice());
    push_text(&mut v, "\n");
    append_chars(out, v.as_slice());
}

/// The MTR report table (see `output_spec`).
pub fn build_output(rows: &[OutputRow]) -> (r: String)
    ensures
        r@ == output_spec(row_views(rows@)),
{
    let ghost rv = row_views(rows@);
    let ks = kept_indices(rows);
    let ghost f = picked(rv, ks@);
    if ks.len() == 0 {
        return string_of(&[]);
    }
    let c = column_widths(rows, &ks);
    let ghost w = cols_view(c);
    let mut out: Vec<char> = Vec::new();
    header_into(&mut out, &c);
    let mut d: usize = 0;
    assert(out@ =~= header(w) + body(w, f, 0));
    while d < ks.len()
        invariant
            d <= ks@.len(),
            forall|e: int| 0 <= e < ks@.len() ==> #[trigger] ks@[e] < rows@.len(),
            f == picked(rv, ks@),
            rv == row_views(rows@),
            w == cols_view(c),
            cols_small(c),
            out@ == header(w) + body(w, f, d as int),
        decreases ks.len() - d,
    {
        let k = ks[d];
        assert(f[d as int] == rows@[k as int]@);
        let ghost prev = out@;
        row_into(&mut out, &c, d, &rows[k]);
        assert(out@ =~= header(w) + body(w, f, d + 1));
        d = d + 1;
    }
    string_of(out.as_slice())
}

fn copy_opt(o: &Option<String>) -> (r: Option<String>)
    ensures
        ov(r) == ov(*o),
{
    match o {
        Some(s) => Some(string_of(chars_of(s.as_str()).as_slice())),
        None => None,
    }
}

/// The row for a hop, given its one-decimal figures.
pub fn output_row(hop: &MtrHop, loss: String, avg: String, st_dev: String, j_avg: String) -> (r: OutputRow)
    ensures
        r@ == (RowView {
            addr: ov(hop.resolved_address),
            host: ov(hop.resolved_hostname),
            asn: hop.asn@,
            drop: hop.counts.drop,
            rcv: hop.counts.rcv,
            loss: loss@,
            avg: avg@,
            st_dev: st_dev@,
            j_avg: j_avg@,
        }),
{
    let mut asn: Vec<u32> = Vec::new();
    let mut i: usize = 0;
    while i < hop.asn.len()
        invariant
            i <= hop.asn@.len(),
            asn@ == hop.asn@.take(i as int),
        decreases hop.asn.len() - i,
    {
        asn.push(hop.asn[i]);
        assert(hop.asn@.take(i + 1) =~= hop.asn@.take(i as int).push(hop.asn@[i as int]));
        i = i + 1;
    }
    assert(hop.asn@.take(hop.asn@.len() as int) =~= hop.asn@);
    OutputRow {
        resolved_address: copy_opt(&hop.resolved_address),
        resolved_hostname: copy_opt(&hop.resolved_hostname),
        asn,
        drop: hop.counts.drop,
        rcv: hop.counts.rcv,
        loss,
        avg,
        st_dev,
        j_avg,
    }
}

} // verus!
