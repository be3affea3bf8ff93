//! Pre-resolving the target with `dig +short`, and reading what
//! `openssl s_client` and `openssl x509 -text` print about the certificate.

use vstd::prelude::*;
use crate::command::dns::{push_str_arg, string_views};
use crate::command::http::parse::{TlsInfo, TlsView};
use crate::text::{
    chars_eq, chars_of, chars_range, concat_str, contains_exec, contains_seq, decimal, lines,
    lines_of, opt_view, parse_unsigned, parse_unsigned_exec, starts_with, starts_with_exec,
    strip_prefix, strip_prefix_exec, string_of, to_uppercase, trim, trim_chars,
    unicode_uppercase, u64_to_string, views, opt_chars_view,
};
use crate::util::ip::{parse_ip, parse_ip_spec, parse_ip_str};

verus! {

// ── Pre-resolution ────────────────────────────────────────────────────────────

pub open spec fn resolve_args_spec(target: Seq<char>, resolver: Option<Seq<char>>, ip_version: u8) -> Seq<Seq<char>> {
    let head = match resolver {
        Some(r) => seq!["@"@ + r],
        None => Seq::empty(),
    };
    head + seq![
        target,
        if ip_version == 6 {
            "AAAA"@
        } else {
            "A"@
        },
        "+short"@,
        "+time=2"@,
        "+tries=1"@,
    ]
}

/// `dig` arguments asking for the target's A (AAAA for IPv6) records.
pub fn resolve_args(target: &str, resolver: Option<&str>, ip_version: u8) -> (r: Vec<String>)
    ensures
        string_views(r@) == resolve_args_spec(
            target@,
            match resolver {
                Some(x) => Some(x@),
                None => None,
            },
            ip_version,
        ),
{
    let mut args: Vec<String> = Vec::new();
    match resolver {
        Some(x) => push_str_arg(&mut args, concat_str("@", x)),
        None => {},
    }
    push_str_arg(&mut args, string_of(chars_of(target).as_slice()));
    if ip_version == 6 {
        push_str_arg(&mut args, "AAAA".to_string());
    } else {
        push_str_arg(&mut args, "A".to_string());
    }
    push_str_arg(&mut args, "+short".to_string());
    push_str_arg(&mut args, "+time=2".to_string());
    push_str_arg(&mut args, "+tries=1".to_string());
    assert(string_views(args@) =~= resolve_args_spec(
        target@,
        match resolver {
            Some(x) => Some(x@),
            None => None,
        },
        ip_version,
    ));
    args
}

/// A `dig +short` line that is an address: non-empty, not a comment, and an
/// IP literal (after trimming).
pub open spec fn address_line(l: Seq<char>) -> bool {
    let t = trim(l);
    t.len() > 0 && !starts_with(t, ";"@) && parse_ip_spec(t) is Some
}

pub open spec fn first_address_from(ls: Seq<Seq<char>>, i: int) -> Option<Seq<char>>
    decreases ls.len() - i,
{
    if i < 0 || i >= ls.len() {
        None
    } else if address_line(ls[i]) {
        Some(trim(ls[i]))
    } else {
        first_address_from(ls, i + 1)
    }
}

/// The first address `dig +short` printed.
pub fn first_resolved_address(out: &str) -> (r: Option<String>)
    ensures
        opt_view(r) == first_address_from(lines(out@), 0),
{
    let c = chars_of(out);
    let ls = lines_of(c.as_slice());
    let ghost lv = views(ls@);
    let semi = chars_of(";");
    let mut i: usize = 0;
    while i < ls.len()
        invariant
            i <= ls@.len(),
            lv == views(ls@),
            lv == lines(out@),
            semi@ == ";"@,
            first_address_from(lv, 0) == first_address_from(lv, i as int),
        decreases ls.len() - i,
    {
        assert(lv[i as int] == ls@[i as int]@);
        let t = trim_chars(ls[i].as_slice());
        if t.len() > 0 && !starts_with_exec(t.as_slice(), semi.as_slice()) && parse_ip(t.as_slice()).is_some() {
            return Some(string_of(t.as_slice()));
        }
        i = i + 1;
    }
    None
}

// ── openssl s_client ──────────────────────────────────────────────────────────

pub open spec fn s_client_args_spec(ip: Seq<char>, port: u16, servername: Seq<char>) -> Seq<Seq<char>> {
    let addr = if contains_seq(ip, ":"@) {
        "["@ + ip + "]:"@ + decimal(port as nat)
    } else {
        ip + ":"@ + decimal(port as nat)
    };
    let sni = if parse_ip_spec(servername) is Some {
        seq!["-noservername"@]
    } else {
        seq!["-servername"@, servername]
    };
    seq!["s_client"@, "-connect"@, addr] + sni
}

/// `openssl s_client` arguments connecting to `ip:port` (bracketed for
/// IPv6), with `servername` as SNI unless it is an IP address.
pub fn s_client_args(ip: &str, port: u16, servername: &str) -> (r: Vec<String>)
    ensures
        string_views(r@) == s_client_args_spec(ip@, port, servername@),
{
    let ipc = chars_of(ip);
    let colon = chars_of(":");
    let p = u64_to_string(port as u64);
    let addr = if contains_exec(ipc.as_slice(), colon.as_slice()) {
        concat_str(concat_str(concat_str("[", ip).as_str(), "]:").as_str(), p.as_str())
    } else {
        concat_str(concat_str(ip, ":").as_str(), p.as_str())
    };
    let mut args: Vec<String> = Vec::new();
    push_str_arg(&mut args, "s_client".to_string());
    push_str_arg(&mut args, "-connect".to_string());
    push_str_arg(&mut args, addr);
    if parse_ip_str(servername).is_some() {
        push_str_arg(&mut args, "-noservername".to_string());
    } else {
        push_str_arg(&mut args, "-servername".to_string());
        push_str_arg(&mut args, string_of(chars_of(servername).as_slice()));
    }
    assert(string_views(args@) =~= s_client_args_spec(ip@, port, servername@));
    args
}

pub open spec fn verdict_from(ls: Seq<Seq<char>>, i: int) -> Option<bool>
    decreases ls.len() - i,
{
    if i < 0 || i >= ls.len() {
        None
    } else if contains_seq(ls[i], "Verify return code:"@) {
        Some(contains_seq(ls[i], "Verify return code: 0 (ok)"@))
    } else {
        verdict_from(ls, i + 1)
    }
}

/// Whether `s_client` accepted the chain: read from its first
/// `Verify return code:` line; `None` when it printed none.
pub fn verify_verdict(text: &str) -> (r: Option<bool>)
    ensures
        r == verdict_from(lines(text@), 0),
{
    let c = chars_of(text);
    let ls = lines_of(c.as_slice());
    let ghost lv = views(ls@);
    let code = chars_of("Verify return code:");
    let ok = chars_of("Verify return code: 0 (ok)");
    let mut i: usize = 0;
    while i < ls.len()
        invariant
            i <= ls@.len(),
            lv == views(ls@),
            lv == lines(text@),
            code@ == "Verify return code:"@,
            ok@ == "Verify return code: 0 (ok)"@,
            verdict_from(lv, 0) == verdict_from(lv, i as int),
        decreases ls.len() - i,
    {
        assert(lv[i as int] == ls@[i as int]@);
        if contains_exec(ls[i].as_slice(), code.as_slice()) {
            return Some(contains_exec(ls[i].as_slice(), ok.as_slice()));
        }
        i = i + 1;
    }
    None
}

// ── openssl x509 -text ────────────────────────────────────────────────────────

/// `x509 -noout -fingerprint -sha256 -serial -text`.
pub fn x509_args() -> (r: Vec<String>)
    ensures
        string_views(r@) == seq!["x509"@, "-noout"@, "-fingerprint"@, "-sha256"@, "-serial"@, "-text"@],
{
    let mut args: Vec<String> = Vec::new();
    push_str_arg(&mut args, "x509".to_string());
    push_str_arg(&mut args, "-noout".to_string());
    push_str_arg(&mut args, "-fingerprint".to_string());
    push_str_arg(&mut args, "-sha256".to_string());
    push_str_arg(&mut args, "-serial".to_string());
    push_str_arg(&mut args, "-text".to_string());
    args
}

/// `s.strip_suffix(pat)`.
pub open spec fn strip_suffix(s: Seq<char>, pat: Seq<char>) -> Option<Seq<char>> {
    if s.len() >= pat.len() && s.skip(s.len() - pat.len()) == pat {
        Some(s.take(s.len() - pat.len()))
    } else {
        None
    }
}

/// Hex digits in pairs separated by colons (`AABBC` → `AA:BB:C`).
pub open spec fn colon_pairs(s: Seq<char>) -> Seq<char>
    decreases s.len(),
{
    if s.len() <= 2 {
        s
    } else {
        s.take(2) + ":"@ + colon_pairs(s.skip(2))
    }
}

/// The certificate fields the x509 text fills in, and whether the next
/// non-empty line lists the subject alternative names.
pub struct X509Fields {
    pub fingerprint256: Option<Seq<char>>,
    pub serial_number: Option<Seq<char>>,
    pub key_type: Option<Seq<char>>,
    pub key_bits: Option<u32>,
    pub subject_alt: Option<Seq<char>>,
    pub next_is_san: bool,
}

/// One line of `x509 -text` output.
pub open spec fn x509_line(f: X509Fields, line: Seq<char>) -> X509Fields {
    let t = trim(line);
    let fp = match strip_prefix(t, "sha256 Fingerprint="@) {
        Some(x) => Some(x),
        None => strip_prefix(t, "SHA256 Fingerprint="@),
    };
    if fp is Some {
        X509Fields { fingerprint256: Some(trim(fp->0)), ..f }
    } else if strip_prefix(t, "serial="@) is Some {
        let hex = unicode_uppercase(trim(strip_prefix(t, "serial="@)->0));
        if hex.len() > 0 {
            X509Fields { serial_number: Some(colon_pairs(hex)), ..f }
        } else {
            f
        }
    } else if starts_with(t, "Public Key Algorithm:"@) {
        if contains_seq(t, "ecPublicKey"@) || contains_seq(t, "id-ec"@) {
            X509Fields { key_type: Some("EC"@), ..f }
        } else if contains_seq(t, "rsaEncryption"@) {
            X509Fields { key_type: Some("RSA"@), ..f }
        } else {
            f
        }
    } else if strip_prefix(t, "Public-Key: ("@) is Some {
        match strip_suffix(strip_prefix(t, "Public-Key: ("@)->0, " bit)"@) {
            Some(b) => match parse_unsigned(b, u32::MAX as nat) {
                Some(n) => X509Fields { key_bits: Some(n as u32), ..f },
                None => f,
            },
            None => f,
        }
    } else if starts_with(t, "X509v3 Subject Alternative Name"@) {
        X509Fields { next_is_san: true, ..f }
    } else if f.next_is_san && t.len() > 0 {
        X509Fields { subject_alt: Some(t), next_is_san: false, ..f }
    } else {
        f
    }
}

pub open spec fn x509_fold(f: X509Fields, ls: Seq<Seq<char>>) -> X509Fields
    decreases ls.len(),
{
    if ls.len() == 0 {
        f
    } else {
        x509_line(x509_fold(f, ls.drop_last()), ls.last())
    }
}

pub open spec fn fields_of(v: TlsView) -> X509Fields {
    X509Fields {
        fingerprint256: v.fingerprint256,
        serial_number: v.serial_number,
        key_type: v.key_type,
        key_bits: v.key_bits,
        subject_alt: v.subject_alt,
        next_is_san: false,
    }
}

/// `v` with the fields the x509 text gives replaced.
pub open spec fn with_x509(v: TlsView, text: Seq<char>) -> TlsView {
    let f = x509_fold(fields_of(v), lines(text));
    TlsView {
        fingerprint256: f.fingerprint256,
        serial_number: f.serial_number,
        key_type: f.key_type,
        key_bits: f.key_bits,
        subject_alt: f.subject_alt,
        ..v
    }
}

fn colon_pairs_exec(s: &[char]) -> (r: Vec<char>)
    ensures
        r@ == colon_pairs(s@),
    decreases s.len(),
{
    if s.len() <= 2 {
        return chars_range(s, 0, s.len());
    }
    let mut r = chars_range(s, 0, 2);
    r.push(':');
    proof {
        reveal_strlit(":");
    }
    let rest = chars_range(s, 2, s.len());
    let tail = colon_pairs_exec(rest.as_slice());
    crate::text::append_chars(&mut r, tail.as_slice());
    assert(s@.subrange(0, 2) =~= s@.take(2));
    assert(rest@ =~= s@.skip(2));
    assert(r@ =~= s@.take(2) + ":"@ + colon_pairs(s@.skip(2)));
    r
}

fn strip_suffix_exec(s: &[char], pat: &[char]) -> (r: Option<Vec<char>>)
    ensures
        opt_chars_view(r) == strip_suffix(s@, pat@),
{
    if s.len() < pat.len() {
        return None;
    }
    let cut = s.len() - pat.len();
    let tail = chars_range(s, cut, s.len());
    assert(tail@ =~= s@.skip(cut as int));
    if chars_eq(tail.as_slice(), pat) {
        let head = chars_range(s, 0, cut);
        assert(head@ =~= s@.take(cut as int));
        Some(head)
    } else {
        None
    }
}

struct X509Scan {
    fingerprint256: Option<String>,
    serial_number: Option<String>,
    key_type: Option<String>,
    key_bits: Option<u32>,
    subject_alt: Option<String>,
    next_is_san: bool,
}

spec fn scan_view(s: X509Scan) -> X509Fields {
    X509Fields {
        fingerprint256: opt_view(s.fingerprint256),
        serial_number: opt_view(s.serial_number),
        key_type: opt_view(s.key_type),
        key_bits: s.key_bits,
        subject_alt: opt_view(s.subject_alt),
        next_is_san: s.next_is_san,
    }
}

fn x509_line_exec(s: &mut X509Scan, line: &[char])
    ensures
        scan_view(*final(s)) == x509_line(scan_view(*old(s)), line@),
{
    let t = trim_chars(line);
    let fp = match strip_prefix_exec(t.as_slice(), chars_of("sha256 Fingerprint=").as_slice()) {
        Some(x) => Some(x),
        None => strip_prefix_exec(t.as_slice(), chars_of("SHA256 Fingerprint=").as_slice()),
    };
    if let Some(x) = fp {
        s.fingerprint256 = Some(string_of(trim_chars(x.as_slice()).as_slice()));
        return;
    }
    if let Some(hex) = strip_prefix_exec(t.as_slice(), chars_of("serial=").as_slice()) {
        let trimmed = string_of(trim_chars(hex.as_slice()).as_slice());
        let upper = to_uppercase(trimmed.as_str());
        let uc = chars_of(upper.as_str());
        if uc.len() > 0 {
            s.serial_number = Some(string_of(colon_pairs_exec(uc.as_slice()).as_slice()));
        }
        return;
    }
    if starts_with_exec(t.as_slice(), chars_of("Public Key Algorithm:").as_slice()) {
        if contains_exec(t.as_slice(), chars_of("ecPublicKey").as_slice()) || contains_exec(
            t.as_slice(),
            chars_of("id-ec").as_slice(),
        ) {
            s.key_type = Some("EC".to_string());
        } else if contains_exec(t.as_slice(), chars_of("rsaEncryption").as_slice()) {
            s.key_type = Some("RSA".to_string());
        }
        return;
    }
    if let Some(rest) = strip_prefix_exec(t.as_slice(), chars_of("Public-Key: (").as_slice()) {
        if let Some(b) = strip_suffix_exec(rest.as_slice(), chars_of(" bit)").as_slice()) {
            if let Some(n) = parse_unsigned_exec(b.as_slice(), 0xffff_ffff) {
                s.key_bits = Some(n as u32);
            }
        }
        return;
    }
    if starts_with_exec(t.as_slice(), chars_of("X509v3 Subject Alternative Name").as_slice()) {
        s.next_is_san = true;
        return;
    }
    if s.next_is_san && t.len() > 0 {
        s.subject_alt = Some(string_of(t.as_slice()));
        s.next_is_san = false;
    }
}

fn opt_string_copy(o: &Option<String>) -> (r: Option<String>)
    ensures
        opt_view(r) == opt_view(*o),
{
    match o {
        Some(x) => Some(string_of(chars_of(x.as_str()).as_slice())),
        None => None,
    }
}

/// Fill in the certificate fields that `x509 -text` output gives (see
/// `with_x509`); every other field stays as it was.
pub fn apply_x509_text(tls: &mut TlsInfo, text: &str)
    ensures
        final(tls)@ == with_x509(old(tls)@, text@),
{
    let c = chars_of(text);
    let ls = lines_of(c.as_slice());
    let ghost lv = views(ls@);
    let ghost f0 = fields_of(tls@);
    let mut scan = X509Scan {
        fingerprint256: opt_string_copy(&tls.fingerprint256),
        serial_number: opt_string_copy(&tls.serial_number),
        key_type: opt_string_copy(&tls.key_type),
        key_bits: tls.key_bits,
        subject_alt: opt_string_copy(&tls.subject.alt),
        next_is_san: false,
    };
    let mut i: usize = 0;
    assert(lv.take(0) =~= Seq::<Seq<char>>::empty());
    while i < ls.len()
        invariant
            i <= ls@.len(),
            lv == views(ls@),
            scan_view(scan) == x509_fold(f0, lv.take(i as int)),
        decreases ls.len() - i,
    {
        assert(lv.take(i + 1).drop_last() =~= lv.take(i as int));
        assert(lv.take(i + 1).last() == ls@[i as int]@);
        x509_line_exec(&mut scan, ls[i].as_slice());
        i = i + 1;
    }
    assert(lv.take(ls@.len() as int) =~= lv);
    tls.fingerprint256 = scan.fingerprint256;
    tls.serial_number = scan.serial_number;
    tls.key_type = scan.key_type;
    tls.key_bits = scan.key_bits;
    tls.subject.alt = scan.subject_alt;
}

} // verus!
