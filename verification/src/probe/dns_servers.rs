//! The resolvers listed in `resolv.conf`, as reported to the API: private
//! ones are masked.

use vstd::prelude::*;
use crate::text::{
    chars_eq, chars_of, lemma_split_on_len, lines, lines_of, split_chars, split_on, string_of,
    views, words, words_of,
};
use crate::util::ip::IpAddress;
use crate::util::private_ip::{is_private_literal, private_literal};

verus! {

/// A `nameserver <address>[#port]` line: the address as reported, or
/// `private` when it is a private IP; `None` for any other line.
pub open spec fn server_entry(line: Seq<char>, local_ips: Seq<IpAddress>) -> Option<Seq<char>> {
    let ws = words(line);
    if ws.len() >= 2 && ws[0] == "nameserver"@ {
        let addr = split_on(ws[1], '#')[0];
        Some(
            if private_literal(addr, local_ips) {
                "private"@
            } else {
                addr
            },
        )
    } else {
        None
    }
}

pub open spec fn servers_upto(ls: Seq<Seq<char>>, local_ips: Seq<IpAddress>, k: int) -> Seq<Seq<char>>
    decreases k,
{
    if k <= 0 {
        Seq::empty()
    } else {
        let rest = servers_upto(ls, local_ips, k - 1);
        match server_entry(ls[k - 1], local_ips) {
            Some(s) => rest.push(s),
            None => rest,
        }
    }
}

pub open spec fn resolv_conf_spec(conf: Seq<char>, local_ips: Seq<IpAddress>) -> Seq<Seq<char>> {
    servers_upto(lines(conf), local_ips, lines(conf).len() as int)
}

pub open spec fn strings(v: Seq<String>) -> Seq<Seq<char>> {
    v.map_values(|s: String| s@)
}

fn server_entry_exec(line: &[char], local_ips: &[IpAddress]) -> (r: Option<String>)
    ensures
        crate::text::opt_view(r) == server_entry(line@, local_ips@),
{
    let ws = words_of(line);
    let ghost wv = views(ws@);
    if ws.len() < 2 {
        return None;
    }
    assert(wv[0] == ws@[0]@ && wv[1] == ws@[1]@);
    if !chars_eq(ws[0].as_slice(), chars_of("nameserver").as_slice()) {
        return None;
    }
    let parts = split_chars(ws[1].as_slice(), '#');
    proof {
        lemma_split_on_len(ws@[1]@, '#');
    }
    assert(views(parts@)[0] == parts@[0]@);
    let addr = string_of(parts[0].as_slice());
    if is_private_literal(addr.as_str(), local_ips) {
        Some("private".to_string())
    } else {
        Some(addr)
    }
}

/// The resolvers in `resolv.conf` text (see `resolv_conf_spec`).
pub fn parse_resolv_conf(conf: &str, local_ips: &[IpAddress]) -> (r: Vec<String>)
    ensures
        strings(r@) == resolv_conf_spec(conf@, local_ips@),
{
    let c = chars_of(conf);
    let ls = lines_of(c.as_slice());
    let ghost lv = views(ls@);
    let mut r: Vec<String> = Vec::new();
    let mut k: usize = 0;
    assert(strings(r@) =~= Seq::<Seq<char>>::empty());
    while k < ls.len()
        invariant
            k <= ls@.len(),
            lv == views(ls@),
            lv == lines(conf@),
            strings(r@) == servers_upto(lv, local_ips@, k as int),
        decreases ls.len() - k,
    {
        assert(lv[k as int] == ls@[k as int]@);
        match server_entry_exec(ls[k].as_slice(), local_ips) {
            Some(s) => {
                let ghost prev = strings(r@);
                let ghost sv = s@;
                r.push(s);
                assert(strings(r@) =~= prev.push(sv));
            },
            None => {},
        }
        k = k + 1;
    }
    r
}

} // verus!
