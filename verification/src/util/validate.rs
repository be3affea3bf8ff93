//! Input validation for untrusted measurement parameters.
//!
//! Measurement jobs arrive from the API and their string fields (`target`,
//! `resolver`, `Host`, …) are handed to system binaries as single arguments.
//! A value that starts with `-` would be read as an option (argument
//! injection); shell metacharacters are dangerous wherever a value might reach
//! a shell. These checks enforce a strict allow-list.

use vstd::prelude::*;
use crate::text::{chars_of, char_width_exec, is_ascii_alnum, is_ascii_control, utf8_len};
use crate::util::ip::{parse_ip_spec, parse_ip};

verus! {

/// Maximum length of a DNS name per RFC 1035.
pub const MAX_HOST_LEN: usize = 253;

/// Characters allowed in a hostname: `[A-Za-z0-9._-]`.
pub open spec fn is_host_char(c: char) -> bool {
    is_ascii_alnum(c) || c == '.' || c == '-' || c == '_'
}

/// A non-empty value of at most 253 bytes that is an IP literal, or a
/// hostname of `[A-Za-z0-9._-]` not starting with `-` or `.`.
pub open spec fn is_safe_host_spec(s: Seq<char>) -> bool {
    &&& s.len() > 0
    &&& utf8_len(s) <= MAX_HOST_LEN
    &&& (parse_ip_spec(s) is Some || (s[0] != '-' && s[0] != '.' && forall|i: int|
        0 <= i < s.len() ==> is_host_char(#[trigger] s[i])))
}

/// No ASCII control character and no space.
pub open spec fn is_safe_url_component_spec(s: Seq<char>) -> bool {
    forall|i: int| 0 <= i < s.len() ==> !is_ascii_control(#[trigger] s[i]) && s[i] != ' '
}

/// Returns `true` if `s` is safe to pass to a network tool as a host/target.
pub fn is_safe_host(s: &str) -> (b: bool)
    ensures
        b == is_safe_host_spec(s@),
{
    let c = chars_of(s);
    if c.len() == 0 {
        return false;
    }
    let mut bytes: usize = 0;
    let mut k: usize = 0;
    assert(c@.take(0) =~= Seq::<char>::empty());
    while k < c.len()
        invariant
            k <= c@.len(),
            c@ == s@,
            bytes == utf8_len(c@.take(k as int)),
            bytes <= MAX_HOST_LEN,
        decreases c.len() - k,
    {
        assert(c@.take(k + 1).drop_last() =~= c@.take(k as int));
        bytes = bytes + char_width_exec(c[k]);
        if bytes > MAX_HOST_LEN {
            proof {
                crate::text::lemma_utf8_len_concat(c@.take(k + 1), c@.skip(k + 1));
                assert(c@.take(k + 1) + c@.skip(k + 1) =~= c@);
            }
            return false;
        }
        k = k + 1;
    }
    assert(c@.take(c.len() as int) =~= c@);
    if parse_ip(c.as_slice()).is_some() {
        return true;
    }
    if c[0] == '-' || c[0] == '.' {
        return false;
    }
    let mut i: usize = 0;
    while i < c.len()
        invariant
            i <= c@.len(),
            c@ == s@,
            c@.len() > 0,
            parse_ip_spec(c@) is None,
            c@[0] != '-' && c@[0] != '.',
            utf8_len(c@) <= MAX_HOST_LEN,
            forall|j: int| 0 <= j < i ==> is_host_char(#[trigger] c@[j]),
        decreases c.len() - i,
    {
        let ch = c[i];
        if !(('0' <= ch && ch <= '9') || ('A' <= ch && ch <= 'Z') || ('a' <= ch && ch <= 'z')
            || ch == '.' || ch == '-' || ch == '_') {
            assert(!is_host_char(c@[i as int]));
            return false;
        }
        i = i + 1;
    }
    true
}

/// Returns `true` if `s` is safe to embed in a URL path or query string:
/// no ASCII control characters (CR, LF, NUL, …) and no space.
pub fn is_safe_url_component(s: &str) -> (b: bool)
    ensures
        b == is_safe_url_component_spec(s@),
{
    let c = chars_of(s);
    let mut i: usize = 0;
    while i < c.len()
        invariant
            i <= c@.len(),
            c@ == s@,
            forall|j: int| 0 <= j < i ==> !is_ascii_control(#[trigger] c@[j]) && c@[j] != ' ',
        decreases c.len() - i,
    {
        let u = c[i] as u32;
        if u < 0x20 || u == 0x7f || c[i] == ' ' {
            assert(is_ascii_control(c@[i as int]) || c@[i as int] == ' ');
            return false;
        }
        i = i + 1;
    }
    true
}

} // verus!
