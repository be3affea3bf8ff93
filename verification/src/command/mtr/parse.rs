//! Reader for `mtr --raw` output.
//!
//! Each line is an action on one hop: `h` (its address), `d` (its host
//! name), `x` (a probe sent, with its sequence number) and `p` (a reply,
//! with its time in microseconds and the probe's sequence number). Reply
//! times are handed out as the text mtr printed; turning them into
//! milliseconds is left to the caller.

use vstd::prelude::*;
use crate::util::ip::IpAddress;
use crate::util::private_ip::{is_private_literal, private_literal};
use crate::text::{
    chars_eq, chars_of, float_text, float_text_exec, join, join_exec, lines, lines_of,
    opt_chars_view, opt_view, parse_unsigned, parse_unsigned_exec, split_chars, split_on,
    string_of, trim, trim_chars, views,
};

verus! {

#[derive(Debug, Clone, Copy, PartialEq, Eq, Structural)]
pub enum MtrStatus {
    Finished,
    Failed,
}

/// One probe: the reply time in microseconds as mtr printed it, or `None`
/// when no reply came.
#[derive(Debug, Clone)]
pub struct HopTiming {
    pub rtt: Option<String>,
}

/// How many probes a hop sent, and how many of those counted got a reply
/// or were dropped.
#[derive(Debug, Clone, Copy, PartialEq, Eq, Structural)]
pub struct HopCounts {
    pub total: usize,
    pub rcv: usize,
    pub drop: usize,
}

#[derive(Debug, Clone)]
pub struct MtrHop {
    pub resolved_address: Option<String>,
    pub resolved_hostname: Option<String>,
    pub asn: Vec<u32>,
    pub counts: HopCounts,
    pub timings: Vec<HopTiming>,
}

pub struct HopView {
    pub resolved_address: Option<Seq<char>>,
    pub resolved_hostname: Option<Seq<char>>,
    pub asn: Seq<u32>,
    pub counts: HopCounts,
    pub rtts: Seq<Option<Seq<char>>>,
}

pub open spec fn rtt_views(v: Seq<HopTiming>) -> Seq<Option<Seq<char>>> {
    v.map_values(|t: HopTiming| opt_view(t.rtt))
}

impl View for MtrHop {
    type V = HopView;

    open spec fn view(&self) -> HopView {
        HopView {
            resolved_address: opt_view(self.resolved_address),
            resolved_hostname: opt_view(self.resolved_hostname),
            asn: self.asn@,
            counts: self.counts,
            rtts: rtt_views(self.timings@),
        }
    }
}

pub open spec fn hop_views(v: Seq<MtrHop>) -> Seq<HopView> {
    v.map_values(|h: MtrHop| h@)
}

// ── Counting replies ──────────────────────────────────────────────────────────

pub open spec fn received(rtts: Seq<Option<Seq<char>>>) -> nat
    decreases rtts.len(),
{
    if rtts.len() == 0 {
        0
    } else {
        received(rtts.drop_last()) + if rtts.last() is Some {
            1nat
        } else {
            0nat
        }
    }
}

pub open spec fn dropped(rtts: Seq<Option<Seq<char>>>) -> nat
    decreases rtts.len(),
{
    if rtts.len() == 0 {
        0
    } else {
        dropped(rtts.drop_last()) + if rtts.last() is None {
            1nat
        } else {
            0nat
        }
    }
}

/// The probes that are counted: all of them in a final report; otherwise
/// the last one may still be in flight and is left out.
pub open spec fn counted(rtts: Seq<Option<Seq<char>>>, is_final: bool) -> Seq<Option<Seq<char>>> {
    if !is_final && rtts.len() > 0 {
        rtts.drop_last()
    } else {
        rtts
    }
}

pub open spec fn counts_spec(rtts: Seq<Option<Seq<char>>>, is_final: bool) -> HopCounts {
    HopCounts {
        total: rtts.len() as usize,
        rcv: received(counted(rtts, is_final)) as usize,
        drop: dropped(counted(rtts, is_final)) as usize,
    }
}

// ── The hops being built ──────────────────────────────────────────────────────

/// A hop as the lines describe it so far: its probes are pairs of sequence
/// number and reply time.
pub struct BuilderView {
    pub addr: Option<Seq<char>>,
    pub host: Option<Seq<char>>,
    pub probes: Seq<(Seq<char>, Option<Seq<char>>)>,
    pub duplicate: bool,
}

/// The hops by index (`None` where no line named the index yet) and every
/// address → host name pair seen, in order; the last pair for an address
/// is the one that counts.
pub struct RawState {
    pub hops: Seq<Option<BuilderView>>,
    pub names: Seq<(Seq<char>, Seq<char>)>,
}

pub open spec fn fresh_builder() -> BuilderView {
    BuilderView { addr: None, host: None, probes: Seq::empty(), duplicate: false }
}

/// `str::splitn(4, ' ')`.
pub open spec fn splitn4(s: Seq<char>) -> Seq<Seq<char>> {
    let p = split_on(s, ' ');
    if p.len() <= 4 {
        p
    } else {
        p.take(3).push(join(p.skip(3), " "@))
    }
}

/// The hops, long enough to hold index `idx`.
pub open spec fn grown(hops: Seq<Option<BuilderView>>, idx: int) -> Seq<Option<BuilderView>> {
    if idx < hops.len() {
        hops
    } else {
        hops + Seq::new((idx + 1 - hops.len()) as nat, |i: int| None::<BuilderView>)
    }
}

pub open spec fn has_addr(o: Option<BuilderView>, a: Seq<char>) -> bool {
    match o {
        Some(b) => b.addr == Some(a),
        None => false,
    }
}

/// Some hop before `idx` already has address `a`.
pub open spec fn addr_seen(hops: Seq<Option<BuilderView>>, idx: int, a: Seq<char>) -> bool {
    exists|j: int| 0 <= j < idx && #[trigger] has_addr(hops[j], a)
}

pub open spec fn has_seq(probes: Seq<(Seq<char>, Option<Seq<char>>)>, seq: Seq<char>) -> bool {
    exists|k: int| 0 <= k < probes.len() && #[trigger] probes[k].0 == seq
}

/// The first probe at or after `k` with sequence number `seq`.
pub open spec fn first_seq(probes: Seq<(Seq<char>, Option<Seq<char>>)>, seq: Seq<char>, k: int) -> Option<int>
    decreases probes.len() - k,
{
    if k < 0 || k >= probes.len() {
        None
    } else if probes[k].0 == seq {
        Some(k)
    } else {
        first_seq(probes, seq, k + 1)
    }
}

/// The reply time recorded on the first probe with sequence number `seq`.
pub open spec fn answered(probes: Seq<(Seq<char>, Option<Seq<char>>)>, seq: Seq<char>, rtt: Seq<char>) -> Seq<(Seq<char>, Option<Seq<char>>)> {
    match first_seq(probes, seq, 0) {
        Some(k) => probes.update(k, (probes[k].0, Some(rtt))),
        None => probes,
    }
}

/// One line of output applied to the state. Lines with fewer than three
/// space-separated fields, or whose index is not a number, are skipped;
/// otherwise the hops grow to hold the index, and the action applies. A
/// reply needs a fourth field and a time that reads as a float, and only
/// fills in a hop that exists.
pub open spec fn step(st: RawState, line: Seq<char>) -> RawState {
    let parts = splitn4(line);
    if parts.len() < 3 {
        st
    } else {
        match parse_unsigned(parts[1], usize::MAX as nat) {
            None => st,
            Some(n) => {
                let idx = n as int;
                let hops = grown(st.hops, idx);
                let cur = match hops[idx] {
                    Some(b) => b,
                    None => fresh_builder(),
                };
                let arg = parts[2];
                if parts[0] == "h"@ {
                    let b = BuilderView {
                        addr: Some(arg),
                        host: cur.host,
                        probes: cur.probes,
                        duplicate: addr_seen(hops, idx, arg),
                    };
                    RawState { hops: hops.update(idx, Some(b)), names: st.names }
                } else if parts[0] == "d"@ {
                    let b = BuilderView {
                        addr: cur.addr,
                        host: Some(arg),
                        probes: cur.probes,
                        duplicate: cur.duplicate,
                    };
                    let names = match cur.addr {
                        Some(a) => st.names.push((a, arg)),
                        None => st.names,
                    };
                    RawState { hops: hops.update(idx, Some(b)), names }
                } else if parts[0] == "x"@ {
                    let b = if has_seq(cur.probes, arg) {
                        cur
                    } else {
                        BuilderView {
                            addr: cur.addr,
                            host: cur.host,
                            probes: cur.probes.push((arg, None)),
                            duplicate: cur.duplicate,
                        }
                    };
                    RawState { hops: hops.update(idx, Some(b)), names: st.names }
                } else if parts[0] == "p"@ && parts.len() >= 4 && float_text(arg) {
                    match hops[idx] {
                        Some(b) => {
                            let nb = BuilderView {
                                addr: b.addr,
                                host: b.host,
                                probes: answered(b.probes, trim(parts[3]), arg),
                                duplicate: b.duplicate,
                            };
                            RawState { hops: hops.update(idx, Some(nb)), names: st.names }
                        },
                        None => RawState { hops, names: st.names },
                    }
                } else {
                    RawState { hops, names: st.names }
                }
            },
        }
    }
}

pub open spec fn fold_lines(ls: Seq<Seq<char>>) -> RawState
    decreases ls.len(),
{
    if ls.len() == 0 {
        RawState { hops: Seq::empty(), names: Seq::empty() }
    } else {
        step(fold_lines(ls.drop_last()), ls.last())
    }
}

/// The host name last recorded for address `a`.
pub open spec fn name_of(names: Seq<(Seq<char>, Seq<char>)>, a: Seq<char>) -> Option<Seq<char>>
    decreases names.len(),
{
    if names.len() == 0 {
        None
    } else if names.last().0 == a {
        Some(names.last().1)
    } else {
        name_of(names.drop_last(), a)
    }
}

/// A hop without a host name, or whose name is its address, takes the name
/// recorded for its address, if any.
pub open spec fn fulfilled(b: BuilderView, names: Seq<(Seq<char>, Seq<char>)>) -> Option<Seq<char>> {
    if b.host is None || b.host == b.addr {
        match b.addr {
            Some(a) => match name_of(names, a) {
                Some(n) => Some(n),
                None => b.host,
            },
            None => b.host,
        }
    } else {
        b.host
    }
}

pub open spec fn probe_rtts(probes: Seq<(Seq<char>, Option<Seq<char>>)>) -> Seq<Option<Seq<char>>> {
    probes.map_values(|p: (Seq<char>, Option<Seq<char>>)| p.1)
}

pub open spec fn hop_out(b: BuilderView, names: Seq<(Seq<char>, Seq<char>)>, is_final: bool) -> HopView {
    HopView {
        resolved_address: b.addr,
        resolved_hostname: fulfilled(b, names),
        asn: Seq::empty(),
        counts: counts_spec(probe_rtts(b.probes), is_final),
        rtts: probe_rtts(b.probes),
    }
}

/// The hops in index order, skipping indices no line named and hops whose
/// address an earlier hop already had.
pub open spec fn collect(hops: Seq<Option<BuilderView>>, names: Seq<(Seq<char>, Seq<char>)>, is_final: bool) -> Seq<HopView>
    decreases hops.len(),
{
    if hops.len() == 0 {
        Seq::empty()
    } else {
        let rest = collect(hops.drop_last(), names, is_final);
        match hops.last() {
            Some(b) => if b.duplicate {
                rest
            } else {
                rest.push(hop_out(b, names, is_final))
            },
            None => rest,
        }
    }
}

pub open spec fn parse_raw_spec(data: Seq<char>, is_final: bool) -> Seq<HopView> {
    let st = fold_lines(lines(data));
    collect(st.hops, st.names, is_final)
}

// ── Executable reading ────────────────────────────────────────────────────────

/// The probe counts of a hop (`HopCounts` as `counts_spec` gives them).
pub fn compute_counts(timings: &[HopTiming], is_final: bool) -> (r: HopCounts)
    ensures
        r == counts_spec(rtt_views(timings@), is_final),
{
    let ghost all = rtt_views(timings@);
    let ghost c = counted(all, is_final);
    let n: usize = if !is_final && timings.len() > 0 {
        timings.len() - 1
    } else {
        timings.len()
    };
    assert(c.len() == n);
    let mut rcv: usize = 0;
    let mut drop: usize = 0;
    let mut i: usize = 0;
    assert(c.take(0) =~= Seq::<Option<Seq<char>>>::empty());
    while i < n
        invariant
            n <= timings@.len(),
            c.len() == n,
            all == rtt_views(timings@),
            c == counted(all, is_final),
            i <= n,
            rcv == received(c.take(i as int)),
            drop == dropped(c.take(i as int)),
            rcv + drop == i,
        decreases n - i,
    {
        assert(c.take(i + 1).drop_last() =~= c.take(i as int));
        assert(c[i as int] == all[i as int]);
        if timings[i].rtt.is_some() {
            rcv = rcv + 1;
        } else {
            drop = drop + 1;
        }
        i = i + 1;
    }
    assert(c.take(n as int) =~= c);
    HopCounts { total: timings.len(), rcv, drop }
}

struct Builder {
    addr: Option<Vec<char>>,
    host: Option<Vec<char>>,
    probes: Vec<(Vec<char>, Option<Vec<char>>)>,
    duplicate: bool,
}

spec fn probe_view(p: (Vec<char>, Option<Vec<char>>)) -> (Seq<char>, Option<Seq<char>>) {
    (p.0@, opt_chars_view(p.1))
}

spec fn probes_view(v: Seq<(Vec<char>, Option<Vec<char>>)>) -> Seq<(Seq<char>, Option<Seq<char>>)> {
    v.map_values(|p: (Vec<char>, Option<Vec<char>>)| probe_view(p))
}

spec fn bview(b: Builder) -> BuilderView {
    BuilderView {
        addr: opt_chars_view(b.addr),
        host: opt_chars_view(b.host),
        probes: probes_view(b.probes@),
        duplicate: b.duplicate,
    }
}

spec fn obview(o: Option<Builder>) -> Option<BuilderView> {
    match o {
        Some(b) => Some(bview(b)),
        None => None,
    }
}

spec fn hops_view(v: Seq<Option<Builder>>) -> Seq<Option<BuilderView>> {
    v.map_values(|o: Option<Builder>| obview(o))
}

spec fn names_view(v: Seq<(Vec<char>, Vec<char>)>) -> Seq<(Seq<char>, Seq<char>)> {
    v.map_values(|p: (Vec<char>, Vec<char>)| (p.0@, p.1@))
}

struct RawBuild {
    hops: Vec<Option<Builder>>,
    names: Vec<(Vec<char>, Vec<char>)>,
}

spec fn state_view(b: RawBuild) -> RawState {
    RawState { hops: hops_view(b.hops@), names: names_view(b.names@) }
}

fn copy_chars(v: &[char]) -> (r: Vec<char>)
    ensures
        r@ == v@,
{
    let r = crate::text::chars_range(v, 0, v.len());
    assert(v@.subrange(0, v@.len() as int) =~= v@);
    r
}

fn splitn4_exec(line: &[char]) -> (r: Vec<Vec<char>>)
    ensures
        views(r@) == splitn4(line@),
{
    let mut p = split_chars(line, ' ');
    if p.len() <= 4 {
        return p;
    }
    let ghost all = views(p@);
    let rest = p.split_off(3);
    assert(views(rest@) =~= all.skip(3));
    assert(views(p@) =~= all.take(3));
    let sp = chars_of(" ");
    let joined = join_exec(rest.as_slice(), sp.as_slice());
    p.push(joined);
    assert(views(p@) =~= all.take(3).push(join(all.skip(3), " "@)));
    p
}

fn opt_copy(o: &Option<Vec<char>>) -> (r: Option<Vec<char>>)
    ensures
        opt_chars_view(r) == opt_chars_view(*o),
{
    match o {
        Some(v) => Some(copy_chars(v.as_slice())),
        None => None,
    }
}

proof fn lemma_first_seq(p: Seq<(Seq<char>, Option<Seq<char>>)>, seq: Seq<char>, k: int)
    requires
        0 <= k,
    ensures
        match first_seq(p, seq, k) {
            Some(j) => k <= j < p.len() && p[j].0 == seq && forall|i: int| k <= i < j ==> #[trigger] p[i].0 != seq,
            None => forall|i: int| k <= i < p.len() ==> #[trigger] p[i].0 != seq,
        },
    decreases p.len() - k,
{
    if k < p.len() && p[k].0 != seq {
        lemma_first_seq(p, seq, k + 1);
    }
}

fn find_seq(probes: &Vec<(Vec<char>, Option<Vec<char>>)>, seq: &[char]) -> (r: Option<usize>)
    ensures
        match first_seq(probes_view(probes@), seq@, 0) {
            Some(k) => r matches Some(x) && x as int == k,
            None => r is None,
        },
{
    let ghost pb = probes_view(probes@);
    let mut k: usize = 0;
    while k < probes.len()
        invariant
            pb == probes_view(probes@),
            k <= probes@.len(),
            first_seq(pb, seq@, 0) == first_seq(pb, seq@, k as int),
        decreases probes.len() - k,
    {
        if chars_eq(probes[k].0.as_slice(), seq) {
            return Some(k);
        }
        k = k + 1;
    }
    None
}

impl RawBuild {
    /// Whether a hop before `idx` has address `a`.
    fn addr_seen_exec(&self, idx: usize, a: &[char]) -> (b: bool)
        requires
            idx <= self.hops@.len(),
        ensures
            b == addr_seen(hops_view(self.hops@), idx as int, a@),
    {
        let ghost hv = hops_view(self.hops@);
        let mut j: usize = 0;
        while j < idx
            invariant
                j <= idx <= self.hops@.len(),
                hv == hops_view(self.hops@),
                forall|k: int| 0 <= k < j ==> !#[trigger] has_addr(hv[k], a@),
            decreases idx - j,
        {
            match &self.hops[j] {
                Some(b) => match &b.addr {
                    Some(x) => {
                        if chars_eq(x.as_slice(), a) {
                            assert(has_addr(hv[j as int], a@));
                            return true;
                        }
                    },
                    None => {},
                },
                None => {},
            }
            j = j + 1;
        }
        false
    }

    /// Apply one line of output.
    fn step(&mut self, line: &[char])
        ensures
            state_view(*final(self)) == step(state_view(*old(self)), line@),
    {
        let ghost st0 = state_view(*self);
        let parts = splitn4_exec(line);
        let ghost pv = views(parts@);
        if parts.len() < 3 {
            return;
        }
        assert(pv[1] == parts@[1]@ && pv[0] == parts@[0]@ && pv[2] == parts@[2]@);
        let n = match parse_unsigned_exec(parts[1].as_slice(), usize::MAX as u64) {
            Some(n) => n,
            None => {
                return;
            },
        };
        let idx = n as usize;
        let ghost h0 = st0.hops;
        while self.hops.len() <= idx
            invariant
                idx == n,
                self.names@ == old(self).names@,
                h0 == hops_view(old(self).hops@),
                self.hops@.len() >= h0.len(),
                self.hops@.len() == h0.len() || self.hops@.len() <= idx + 1,
                hops_view(self.hops@) =~= h0 + Seq::new(
                    (self.hops@.len() - h0.len()) as nat,
                    |i: int| None::<BuilderView>,
                ),
            decreases idx + 1 - self.hops@.len(),
        {
            let ghost prev = self.hops@;
            self.hops.push(None);
            assert(hops_view(self.hops@) =~= hops_view(prev).push(None));
            assert(Seq::new((self.hops@.len() - h0.len()) as nat, |i: int| None::<BuilderView>)
                =~= Seq::new((prev.len() - h0.len()) as nat, |i: int| None::<BuilderView>).push(None));
        }
        let ghost hops = grown(h0, idx as int);
        assert(hops_view(self.hops@) =~= hops);
        let h = chars_of("h");
        let d = chars_of("d");
        let x = chars_of("x");
        let p = chars_of("p");
        let action = parts[0].as_slice();
        let arg = parts[2].as_slice();
        if chars_eq(action, h.as_slice()) {
            let dup = self.addr_seen_exec(idx, arg);
            let mut cur: Option<Builder> = None;
            self.hops.set_and_swap(idx, &mut cur);
            let b = match cur {
                Some(c) => Builder { addr: Some(copy_chars(arg)), host: c.host, probes: c.probes, duplicate: dup },
                None => Builder { addr: Some(copy_chars(arg)), host: None, probes: Vec::new(), duplicate: dup },
            };
            proof {
                assert(probes_view(Seq::<(Vec<char>, Option<Vec<char>>)>::empty()) =~= Seq::empty());
            }
            self.hops.set(idx, Some(b));
            assert(hops_view(self.hops@) =~= hops.update(idx as int, Some(bview(b))));
        } else if chars_eq(action, d.as_slice()) {
            let mut cur: Option<Builder> = None;
            self.hops.set_and_swap(idx, &mut cur);
            let b = match cur {
                Some(c) => Builder { addr: c.addr, host: Some(copy_chars(arg)), probes: c.probes, duplicate: c.duplicate },
                None => Builder { addr: None, host: Some(copy_chars(arg)), probes: Vec::new(), duplicate: false },
            };
            proof {
                assert(probes_view(Seq::<(Vec<char>, Option<Vec<char>>)>::empty()) =~= Seq::empty());
            }
            match &b.addr {
                Some(a) => {
                    let ghost nv = names_view(self.names@);
                    self.names.push((copy_chars(a.as_slice()), copy_chars(arg)));
                    assert(names_view(self.names@) =~= nv.push((a@, arg@)));
                },
                None => {},
            }
            self.hops.set(idx, Some(b));
            assert(hops_view(self.hops@) =~= hops.update(idx as int, Some(bview(b))));
        } else if chars_eq(action, x.as_slice()) {
            let mut cur: Option<Builder> = None;
            self.hops.set_and_swap(idx, &mut cur);
            let mut b = match cur {
                Some(c) => c,
                None => Builder { addr: None, host: None, probes: Vec::new(), duplicate: false },
            };
            proof {
                assert(probes_view(Seq::<(Vec<char>, Option<Vec<char>>)>::empty()) =~= Seq::empty());
            }
            let ghost pb = probes_view(b.probes@);
            proof {
                lemma_first_seq(pb, arg@, 0);
            }
            let found = find_seq(&b.probes, arg).is_some();
            if !found {
                b.probes.push((copy_chars(arg), None));
                assert(probes_view(b.probes@) =~= pb.push((arg@, None)));
            }
            self.hops.set(idx, Some(b));
            assert(hops_view(self.hops@) =~= hops.update(idx as int, Some(bview(b))));
        } else if chars_eq(action, p.as_slice()) && parts.len() >= 4 && float_text_exec(arg)
            && self.hops[idx].is_some() {
            assert(pv[3] == parts@[3]@);
            let seq = trim_chars(parts[3].as_slice());
            let mut cur: Option<Builder> = None;
            self.hops.set_and_swap(idx, &mut cur);
            let mut b = match cur {
                Some(c) => c,
                None => Builder { addr: None, host: None, probes: Vec::new(), duplicate: false },
            };
            let ghost pb = probes_view(b.probes@);
            proof {
                lemma_first_seq(pb, seq@, 0);
            }
            match find_seq(&b.probes, seq.as_slice()) {
                Some(k) => {
                    assert(pb[k as int].0 == seq@);
                    let ghost before = b.probes@;
                    let pair = (copy_chars(seq.as_slice()), Some(copy_chars(arg)));
                    assert(probe_view(pair) == (seq@, Some(arg@)));
                    b.probes.set(k, pair);
                    assert(b.probes@ == before.update(k as int, pair));
                    assert(probes_view(b.probes@) =~= pb.update(k as int, (pb[k as int].0, Some(arg@))));
                },
                None => {},
            }
            self.hops.set(idx, Some(b));
            assert(hops_view(self.hops@) =~= hops.update(idx as int, Some(bview(b))));
        }
    }
}

fn name_of_exec(names: &Vec<(Vec<char>, Vec<char>)>, a: &[char]) -> (r: Option<Vec<char>>)
    ensures
        opt_chars_view(r) == name_of(names_view(names@), a@),
{
    let ghost nv = names_view(names@);
    let mut j: usize = names.len();
    assert(nv.take(j as int) =~= nv);
    while j > 0
        invariant
            j <= names@.len(),
            nv == names_view(names@),
            name_of(nv, a@) == name_of(nv.take(j as int), a@),
        decreases j,
    {
        assert(nv.take(j as int).drop_last() =~= nv.take(j - 1));
        assert(nv.take(j as int).last() == (names@[j - 1].0@, names@[j - 1].1@));
        if chars_eq(names[j - 1].0.as_slice(), a) {
            return Some(copy_chars(names[j - 1].1.as_slice()));
        }
        j = j - 1;
    }
    assert(nv.take(0) =~= Seq::<(Seq<char>, Seq<char>)>::empty());
    None
}

fn opt_string(o: &Option<Vec<char>>) -> (r: Option<String>)
    ensures
        opt_view(r) == opt_chars_view(*o),
{
    match o {
        Some(v) => Some(string_of(v.as_slice())),
        None => None,
    }
}

fn hop_out_exec(b: &Builder, names: &Vec<(Vec<char>, Vec<char>)>, is_final: bool) -> (r: MtrHop)
    ensures
        r@ == hop_out(bview(*b), names_view(names@), is_final),
{
    let same = match (&b.host, &b.addr) {
        (Some(h), Some(a)) => chars_eq(h.as_slice(), a.as_slice()),
        (None, None) => true,
        _ => false,
    };
    let host = if b.host.is_none() || same {
        match &b.addr {
            Some(a) => match name_of_exec(names, a.as_slice()) {
                Some(n) => Some(n),
                None => opt_copy(&b.host),
            },
            None => opt_copy(&b.host),
        }
    } else {
        opt_copy(&b.host)
    };
    let ghost pb = probes_view(b.probes@);
    let mut timings: Vec<HopTiming> = Vec::new();
    let mut i: usize = 0;
    while i < b.probes.len()
        invariant
            i <= b.probes@.len(),
            pb == probes_view(b.probes@),
            rtt_views(timings@) == probe_rtts(pb).take(i as int),
        decreases b.probes.len() - i,
    {
        let ghost prev = timings@;
        timings.push(HopTiming { rtt: opt_string(&b.probes[i].1) });
        assert(rtt_views(timings@) =~= rtt_views(prev).push(pb[i as int].1));
        assert(probe_rtts(pb).take(i + 1) =~= probe_rtts(pb).take(i as int).push(pb[i as int].1));
        i = i + 1;
    }
    assert(probe_rtts(pb).take(b.probes@.len() as int) =~= probe_rtts(pb));
    let counts = compute_counts(timings.as_slice(), is_final);
    MtrHop {
        resolved_address: opt_string(&b.addr),
        resolved_hostname: opt_string(&host),
        asn: Vec::new(),
        counts,
        timings,
    }
}

/// Read `mtr --raw` output into hops (see `parse_raw_spec`); `is_final`
/// says whether the run is over, so that the last probe of each hop counts.
pub fn parse_raw(data: &str, is_final: bool) -> (r: Vec<MtrHop>)
    ensures
        hop_views(r@) == parse_raw_spec(data@, is_final),
{
    let c = chars_of(data);
    let ls = lines_of(c.as_slice());
    let ghost lv = views(ls@);
    let mut st = RawBuild { hops: Vec::new(), names: Vec::new() };
    assert(hops_view(st.hops@) =~= Seq::<Option<BuilderView>>::empty());
    assert(names_view(st.names@) =~= Seq::<(Seq<char>, Seq<char>)>::empty());
    assert(lv.take(0) =~= Seq::<Seq<char>>::empty());
    let mut i: usize = 0;
    while i < ls.len()
        invariant
            i <= ls@.len(),
            lv == views(ls@),
            state_view(st) == fold_lines(lv.take(i as int)),
        decreases ls.len() - i,
    {
        assert(lv.take(i + 1).drop_last() =~= lv.take(i as int));
        assert(lv[i as int] == ls@[i as int]@);
        st.step(ls[i].as_slice());
        i = i + 1;
    }
    assert(lv.take(ls@.len() as int) =~= lv);
    let ghost hv = hops_view(st.hops@);
    let ghost nv = names_view(st.names@);
    let mut out: Vec<MtrHop> = Vec::new();
    let mut k: usize = 0;
    assert(hv.take(0) =~= Seq::<Option<BuilderView>>::empty());
    assert(hop_views(out@) =~= Seq::<HopView>::empty());
    while k < st.hops.len()
        invariant
            k <= st.hops@.len(),
            hv == hops_view(st.hops@),
            nv == names_view(st.names@),
            hop_views(out@) == collect(hv.take(k as int), nv, is_final),
        decreases st.hops.len() - k,
    {
        assert(hv.take(k + 1).drop_last() =~= hv.take(k as int));
        assert(hv.take(k + 1).last() == obview(st.hops@[k as int]));
        let ghost prev = out@;
        match &st.hops[k] {
            Some(b) => {
                if !b.duplicate {
                    let h = hop_out_exec(b, &st.names, is_final);
                    out.push(h);
                    assert(hop_views(out@) =~= hop_views(prev).push(h@));
                }
            },
            None => {},
        }
        k = k + 1;
    }
    assert(hv.take(st.hops@.len() as int) =~= hv);
    out
}

/// The last hop that has an address.
pub open spec fn last_addressed(hops: Seq<HopView>) -> Option<int>
    decreases hops.len(),
{
    if hops.len() == 0 {
        None
    } else if hops.last().resolved_address is Some {
        Some(hops.len() - 1)
    } else {
        last_addressed(hops.drop_last())
    }
}

proof fn lemma_last_addressed(hops: Seq<HopView>)
    ensures
        match last_addressed(hops) {
            Some(i) => 0 <= i < hops.len() && hops[i].resolved_address is Some,
            None => true,
        },
    decreases hops.len(),
{
    if hops.len() > 0 && hops.last().resolved_address is None {
        lemma_last_addressed(hops.drop_last());
    }
}

pub fn last_addressed_hop(hops: &[MtrHop]) -> (r: Option<usize>)
    ensures
        match last_addressed(hop_views(hops@)) {
            Some(i) => r matches Some(x) && x == i && 0 <= i < hops@.len(),
            None => r is None,
        },
{
    let ghost hv = hop_views(hops@);
    let mut j: usize = hops.len();
    assert(hv.take(j as int) =~= hv);
    while j > 0
        invariant
            j <= hops@.len(),
            hv == hop_views(hops@),
            last_addressed(hv) == last_addressed(hv.take(j as int)),
        decreases j,
    {
        assert(hv.take(j as int).drop_last() =~= hv.take(j - 1));
        assert(hv.take(j as int).last() == hops@[j - 1]@);
        if hops[j - 1].resolved_address.is_some() {
            return Some(j - 1);
        }
        j = j - 1;
    }
    assert(hv.take(0) =~= Seq::<HopView>::empty());
    None
}

/// A finished run is refused when its last responding hop has a private
/// address.
pub open spec fn ends_private(hops: Seq<HopView>, local_ips: Seq<IpAddress>) -> bool {
    match last_addressed(hops) {
        Some(i) => private_literal(hops[i].resolved_address->0, local_ips),
        None => false,
    }
}

pub fn target_is_private(hops: &[MtrHop], local_ips: &[IpAddress]) -> (b: bool)
    ensures
        b == ends_private(hop_views(hops@), local_ips@),
{
    proof {
        lemma_last_addressed(hop_views(hops@));
    }
    match last_addressed_hop(hops) {
        Some(i) => match &hops[i].resolved_address {
            Some(a) => is_private_literal(a.as_str(), local_ips),
            None => false,
        },
        None => false,
    }
}

/// What a run reports when mtr printed nothing: its error output, or a
/// generic message when that is blank too.
pub open spec fn failed_output_spec(stderr: Seq<char>) -> Seq<char> {
    if trim(stderr).len() == 0 {
        "Test failed. Please try again."@
    } else {
        stderr
    }
}

pub fn failed_output(stderr: &str) -> (r: String)
    ensures
        r@ == failed_output_spec(stderr@),
{
    let c = chars_of(stderr);
    if trim_chars(c.as_slice()).len() == 0 {
        "Test failed. Please try again.".to_string()
    } else {
        string_of(c.as_slice())
    }
}

} // verus!
