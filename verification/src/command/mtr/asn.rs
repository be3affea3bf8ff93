//! The pieces of an ASN lookup that are not I/O: the DNS name to ask for
//! TXT records of, and the AS numbers read from the answer.

use vstd::prelude::*;
use crate::text::{
    append_chars, chars_of, decimal, decimal_chars, lemma_split_on_len, lines, lines_of,
    parse_unsigned, parse_unsigned_exec, split_chars, split_on, string_of, trim, trim_chars,
    trim_end_char, trim_end_char_exec, trim_start_char, trim_start_char_exec, views, words,
    words_of,
};
use crate::util::ip::{parse_ip_spec, parse_ip_str, IpAddress};
use crate::util::private_ip::{is_ip_private, is_ip_private_spec};

verus! {

/// The reversed-octet name under `origin.asn.cymru.com` for a public IPv4
/// address; `None` for anything else (not an address, private, or IPv6).
pub open spec fn asn_query_spec(addr: Seq<char>, local_ips: Seq<IpAddress>) -> Option<Seq<char>> {
    match parse_ip_spec(addr) {
        Some(ip) => if is_ip_private_spec(ip, local_ips) {
            None
        } else {
            match ip {
                IpAddress::V4(a) => Some(
                    decimal((a % 256) as nat) + "."@ + decimal(((a / 256) % 256) as nat) + "."@
                        + decimal(((a / 65536) % 256) as nat) + "."@ + decimal(
                        (a / 16777216) as nat,
                    ) + ".origin.asn.cymru.com"@,
                ),
                IpAddress::V6(_) => None,
            }
        },
        None => None,
    }
}

pub fn asn_query_name(addr: &str, local_ips: &[IpAddress]) -> (r: Option<String>)
    ensures
        crate::text::opt_view(r) == asn_query_spec(addr@, local_ips@),
{
    let ip = match parse_ip_str(addr) {
        Some(ip) => ip,
        None => {
            return None;
        },
    };
    if is_ip_private(ip, local_ips) {
        return None;
    }
    match ip {
        IpAddress::V4(a) => {
            let mut v = decimal_chars((a % 256) as u64);
            append_chars(&mut v, chars_of(".").as_slice());
            append_chars(&mut v, decimal_chars(((a / 256) % 256) as u64).as_slice());
            append_chars(&mut v, chars_of(".").as_slice());
            append_chars(&mut v, decimal_chars(((a / 65536) % 256) as u64).as_slice());
            append_chars(&mut v, chars_of(".").as_slice());
            append_chars(&mut v, decimal_chars((a / 16777216) as u64).as_slice());
            append_chars(&mut v, chars_of(".origin.asn.cymru.com").as_slice());
            Some(string_of(v.as_slice()))
        },
        IpAddress::V6(_) => None,
    }
}

/// A TXT line with its surrounding whitespace and quotes removed.
pub open spec fn unquoted(line: Seq<char>) -> Seq<char> {
    trim_start_char(trim_end_char(trim(line), '"'), '"')
}

/// The words that read as `u32`, in order.
pub open spec fn numbers_of(ws: Seq<Seq<char>>) -> Seq<u32>
    decreases ws.len(),
{
    if ws.len() == 0 {
        Seq::empty()
    } else {
        let rest = numbers_of(ws.drop_last());
        match parse_unsigned(ws.last(), u32::MAX as nat) {
            Some(n) => rest.push(n as u32),
            None => rest,
        }
    }
}

/// The numbers in the first `|`-separated field of a TXT line
/// (`15169 | 8.8.8.0/24 | US | arin | 2014-03-14`).
pub open spec fn line_asns(line: Seq<char>) -> Seq<u32> {
    numbers_of(words(split_on(unquoted(line), '|')[0]))
}

pub open spec fn asns_from(ls: Seq<Seq<char>>, i: int) -> Seq<u32>
    decreases ls.len() - i,
{
    if i < 0 || i >= ls.len() {
        Seq::empty()
    } else if line_asns(ls[i]).len() > 0 {
        line_asns(ls[i])
    } else {
        asns_from(ls, i + 1)
    }
}

/// The AS numbers of the first answer line that has any.
pub open spec fn parse_asn_spec(out: Seq<char>) -> Seq<u32> {
    asns_from(lines(out), 0)
}

fn line_asns_exec(line: &[char]) -> (r: Vec<u32>)
    ensures
        r@ == line_asns(line@),
{
    let t = trim_chars(line);
    let e = trim_end_char_exec(t.as_slice(), '"');
    let u = trim_start_char_exec(e.as_slice(), '"');
    let fields = split_chars(u.as_slice(), '|');
    proof {
        lemma_split_on_len(u@, '|');
    }
    assert(views(fields@)[0] == fields@[0]@);
    let ws = words_of(fields[0].as_slice());
    let ghost wv = views(ws@);
    let mut r: Vec<u32> = Vec::new();
    let mut i: usize = 0;
    assert(wv.take(0) =~= Seq::<Seq<char>>::empty());
    while i < ws.len()
        invariant
            i <= ws@.len(),
            wv == views(ws@),
            r@ == numbers_of(wv.take(i as int)),
        decreases ws.len() - i,
    {
        assert(wv.take(i + 1).drop_last() =~= wv.take(i as int));
        assert(wv.take(i + 1).last() == ws@[i as int]@);
        match parse_unsigned_exec(ws[i].as_slice(), 0xffff_ffff) {
            Some(n) => {
                r.push(n as u32);
            },
            None => {},
        }
        i = i + 1;
    }
    assert(wv.take(ws@.len() as int) =~= wv);
    r
}

/// The AS numbers in `dig +short … TXT` output (see `parse_asn_spec`).
pub fn parse_asn_txt(out: &str) -> (r: Vec<u32>)
    ensures
        r@ == parse_asn_spec(out@),
{
    let c = chars_of(out);
    let ls = lines_of(c.as_slice());
    let ghost lv = views(ls@);
    assert(lv == lines(out@));
    let mut i: usize = 0;
    while i < ls.len()
        invariant
            i <= ls@.len(),
            lv == views(ls@),
            lv == lines(out@),
            asns_from(lv, 0) == asns_from(lv, i as int),
        decreases ls.len() - i,
    {
        assert(lv[i as int] == ls@[i as int]@);
        let nums = line_asns_exec(ls[i].as_slice());
        if nums.len() > 0 {
            assert(asns_from(lv, i as int) == line_asns(lv[i as int]));
            return nums;
        }
        i = i + 1;
    }
    Vec::new()
}

} // verus!
