//! The probe's other public addresses: which ones `ip -o addr show scope
//! global` lists, and the order in which confirmed addresses are reported.

use vstd::prelude::*;
use crate::text::{
    chars_eq, chars_of, lemma_split_on_len, lines, lines_of, split_chars, split_on, starts_with,
    starts_with_exec, string_of, to_lowercase, unicode_lowercase, views, words, words_of,
};
use crate::util::ip::{parse_ip, parse_ip_spec, parse_ip_str, IpAddress};

verus! {

/// The address part of `addr/prefix`.
pub open spec fn addr_token(w: Seq<char>) -> Seq<char> {
    split_on(w, '/')[0]
}

/// IPv6 (`fe80:`) and IPv4 (`169.254.`) link-local addresses are left out.
pub open spec fn link_local(t: Seq<char>) -> bool {
    starts_with(unicode_lowercase(t), "fe80:"@) || starts_with(t, "169.254."@)
}

/// The address after the word at `i`, when that word is `inet` or `inet6`.
pub open spec fn addr_after(ws: Seq<Seq<char>>, i: int) -> Seq<IpAddress> {
    if (ws[i] == "inet"@ || ws[i] == "inet6"@) && i + 1 < ws.len() {
        let t = addr_token(ws[i + 1]);
        if link_local(t) {
            Seq::empty()
        } else {
            match parse_ip_spec(t) {
                Some(ip) => seq![ip],
                None => Seq::empty(),
            }
        }
    } else {
        Seq::empty()
    }
}

pub open spec fn line_addrs(ws: Seq<Seq<char>>, k: int) -> Seq<IpAddress>
    decreases k,
{
    if k <= 0 {
        Seq::empty()
    } else {
        line_addrs(ws, k - 1) + addr_after(ws, k - 1)
    }
}

pub open spec fn output_addrs(ls: Seq<Seq<char>>, k: int) -> Seq<IpAddress>
    decreases k,
{
    if k <= 0 {
        Seq::empty()
    } else {
        output_addrs(ls, k - 1) + line_addrs(words(ls[k - 1]), words(ls[k - 1]).len() as int)
    }
}

/// Every address the `ip -o addr show scope global` output lists after an
/// `inet`/`inet6` word, in order, link-local ones and unreadable ones left
/// out.
pub open spec fn global_addrs_spec(out: Seq<char>) -> Seq<IpAddress> {
    output_addrs(lines(out), lines(out).len() as int)
}

fn addr_after_exec(ws: &Vec<Vec<char>>, i: usize) -> (r: Vec<IpAddress>)
    requires
        i < ws@.len(),
    ensures
        r@ == addr_after(views(ws@), i as int),
{
    let ghost wv = views(ws@);
    assert(wv[i as int] == ws@[i as int]@);
    let len = ws.len();
    let inet = chars_of("inet");
    let inet6 = chars_of("inet6");
    let mut r: Vec<IpAddress> = Vec::new();
    if (chars_eq(ws[i].as_slice(), inet.as_slice()) || chars_eq(ws[i].as_slice(), inet6.as_slice()))
        && i + 1 < len {
        assert(wv[i + 1] == ws@[i + 1]@);
        let parts = split_chars(ws[i + 1].as_slice(), '/');
        proof {
            lemma_split_on_len(ws@[i + 1]@, '/');
        }
        assert(views(parts@)[0] == parts@[0]@);
        let t = parts[0].as_slice();
        let ts = string_of(t);
        let lower = to_lowercase(ts.as_str());
        let lc = chars_of(lower.as_str());
        let fe80 = chars_of("fe80:");
        let v4ll = chars_of("169.254.");
        if !(starts_with_exec(lc.as_slice(), fe80.as_slice()) || starts_with_exec(t, v4ll.as_slice())) {
            match parse_ip(t) {
                Some(ip) => {
                    r.push(ip);
                    assert(r@ =~= seq![ip]);
                },
                None => {},
            }
        }
    }
    assert(r@ =~= addr_after(wv, i as int));
    r
}

/// The addresses listed in `ip -o addr show scope global` output (see
/// `global_addrs_spec`).
pub fn parse_global_addrs(out: &str) -> (r: Vec<IpAddress>)
    ensures
        r@ == global_addrs_spec(out@),
{
    let c = chars_of(out);
    let ls = lines_of(c.as_slice());
    let ghost lv = views(ls@);
    let mut r: Vec<IpAddress> = Vec::new();
    let mut k: usize = 0;
    assert(r@ =~= output_addrs(lv, 0));
    while k < ls.len()
        invariant
            k <= ls@.len(),
            lv == views(ls@),
            lv == lines(out@),
            r@ == output_addrs(lv, k as int),
        decreases ls.len() - k,
    {
        assert(lv[k as int] == ls@[k as int]@);
        let ws = words_of(ls[k].as_slice());
        let ghost wv = views(ws@);
        let ghost base = r@;
        let mut i: usize = 0;
        assert(base + line_addrs(wv, 0) =~= base);
        while i < ws.len()
            invariant
                i <= ws@.len(),
                wv == views(ws@),
                r@ == base + line_addrs(wv, i as int),
            decreases ws.len() - i,
        {
            let a = addr_after_exec(&ws, i);
            let ghost before = r@;
            let mut j: usize = 0;
            while j < a.len()
                invariant
                    j <= a@.len(),
                    r@ == before + a@.take(j as int),
                decreases a.len() - j,
            {
                r.push(a[j]);
                assert(a@.take(j + 1) =~= a@.take(j as int).push(a@[j as int]));
                j = j + 1;
            }
            assert(a@.take(a@.len() as int) =~= a@);
            assert(base + line_addrs(wv, i + 1) =~= base + line_addrs(wv, i as int) + addr_after(wv, i as int));
            i = i + 1;
        }
        assert(output_addrs(lv, k + 1) =~= output_addrs(lv, k as int) + line_addrs(wv, wv.len() as int));
        k = k + 1;
    }
    r
}

// ── Reporting confirmed addresses ─────────────────────────────────────────────

/// The main address, then each confirmed address not listed yet.
pub open spec fn merged(main: Seq<char>, confirmed: Seq<Seq<char>>) -> Seq<Seq<char>>
    decreases confirmed.len(),
{
    if confirmed.len() == 0 {
        seq![main]
    } else {
        let m = merged(main, confirmed.drop_last());
        if m.contains(confirmed.last()) {
            m
        } else {
            m.push(confirmed.last())
        }
    }
}

/// Whether an address sorts after the IPv4 ones (IPv6, or unreadable).
pub open spec fn sorts_late(s: Seq<char>) -> bool {
    !(parse_ip_spec(s) matches Some(IpAddress::V4(_)))
}

pub open spec fn of_kind(list: Seq<Seq<char>>, late: bool) -> Seq<Seq<char>>
    decreases list.len(),
{
    if list.len() == 0 {
        Seq::empty()
    } else if sorts_late(list.last()) == late {
        of_kind(list.drop_last(), late).push(list.last())
    } else {
        of_kind(list.drop_last(), late)
    }
}

/// The confirmed addresses as reported: merged, IPv4 first, order kept
/// otherwise (a stable sort).
pub open spec fn confirmed_order(main: Seq<char>, confirmed: Seq<Seq<char>>) -> Seq<Seq<char>> {
    let m = merged(main, confirmed);
    of_kind(m, false) + of_kind(m, true)
}

pub open spec fn string_seq(v: Seq<String>) -> Seq<Seq<char>> {
    v.map_values(|s: String| s@)
}

fn copy_string(s: &String) -> (r: String)
    ensures
        r@ == s@,
{
    string_of(chars_of(s.as_str()).as_slice())
}

fn contains_string(list: &Vec<String>, s: &String) -> (b: bool)
    ensures
        b == string_seq(list@).contains(s@),
{
    let ghost lv = string_seq(list@);
    let sc = chars_of(s.as_str());
    let mut i: usize = 0;
    while i < list.len()
        invariant
            i <= list@.len(),
            lv == string_seq(list@),
            sc@ == s@,
            forall|j: int| 0 <= j < i ==> lv[j] != s@,
        decreases list.len() - i,
    {
        let e = chars_of(list[i].as_str());
        if chars_eq(e.as_slice(), sc.as_slice()) {
            assert(lv[i as int] == s@);
            return true;
        }
        i = i + 1;
    }
    false
}

fn kind_of(list: &Vec<String>, late: bool) -> (r: Vec<String>)
    ensures
        string_seq(r@) == of_kind(string_seq(list@), late),
{
    let ghost lv = string_seq(list@);
    let mut r: Vec<String> = Vec::new();
    let mut i: usize = 0;
    assert(string_seq(r@) =~= of_kind(lv.take(0), late));
    while i < list.len()
        invariant
            i <= list@.len(),
            lv == string_seq(list@),
            string_seq(r@) == of_kind(lv.take(i as int), late),
        decreases list.len() - i,
    {
        assert(lv.take(i + 1).drop_last() =~= lv.take(i as int));
        assert(lv.take(i + 1).last() == list@[i as int]@);
        let v4 = match parse_ip_str(list[i].as_str()) {
            Some(IpAddress::V4(_)) => true,
            _ => false,
        };
        if v4 != late {
            let ghost prev = string_seq(r@);
            r.push(copy_string(&list[i]));
            assert(string_seq(r@) =~= prev.push(lv[i as int]));
        }
        i = i + 1;
    }
    assert(lv.take(list@.len() as int) =~= lv);
    r
}

/// The addresses to report (see `confirmed_order`).
pub fn order_confirmed(main: &str, confirmed: &Vec<String>) -> (r: Vec<String>)
    ensures
        string_seq(r@) == confirmed_order(main@, string_seq(confirmed@)),
{
    let ghost cv = string_seq(confirmed@);
    let mut m: Vec<String> = Vec::new();
    m.push(string_of(chars_of(main).as_slice()));
    let mut i: usize = 0;
    assert(string_seq(m@) =~= merged(main@, cv.take(0)));
    while i < confirmed.len()
        invariant
            i <= confirmed@.len(),
            cv == string_seq(confirmed@),
            string_seq(m@) == merged(main@, cv.take(i as int)),
        decreases confirmed.len() - i,
    {
        assert(cv.take(i + 1).drop_last() =~= cv.take(i as int));
        assert(cv.take(i + 1).last() == confirmed@[i as int]@);
        if !contains_string(&m, &confirmed[i]) {
            let ghost prev = string_seq(m@);
            m.push(copy_string(&confirmed[i]));
            assert(string_seq(m@) =~= prev.push(cv[i as int]));
        }
        i = i + 1;
    }
    assert(cv.take(confirmed@.len() as int) =~= cv);
    let mut first = kind_of(&m, false);
    let second = kind_of(&m, true);
    let ghost f0 = string_seq(first@);
    let mut j: usize = 0;
    while j < second.len()
        invariant
            j <= second@.len(),
            string_seq(first@) == f0 + string_seq(second@).take(j as int),
        decreases second.len() - j,
    {
        let ghost prev = string_seq(first@);
        first.push(copy_string(&second[j]));
        assert(string_seq(first@) =~= prev.push(second@[j as int]@));
        assert(string_seq(second@).take(j + 1) =~= string_seq(second@).take(j as int).push(second@[j as int]@));
        j = j + 1;
    }
    assert(string_seq(second@).take(second@.len() as int) =~= string_seq(second@));
    first
}

} // verus!
