//! HTTP measurements with `curl`: options, their checks, the URL and the
//! argument list.

pub mod openssl;
pub mod parse;

use vstd::prelude::*;
use crate::command::dns::{opt_string_view, push_str_arg, string_views};
use crate::text::{
    append_chars, chars_of, chars_range, concat_str, contains_exec, contains_seq, decimal,
    find_exec, find_from, is_ascii_control, lemma_find_from, str_is, string_of, to_uppercase,
    trim_start_char, trim_start_char_exec, u64_to_string, unicode_uppercase,
};
use crate::util::ip::{parse_ip_spec, parse_ip_str, IpAddress};
use crate::util::private_ip::{is_private_literal, private_literal};
use crate::util::validate::{
    is_safe_host, is_safe_host_spec, is_safe_url_component, is_safe_url_component_spec,
};

verus! {

// ── Options ───────────────────────────────────────────────────────────────────

#[derive(Debug, Clone)]
pub struct HttpRequestOptions {
    pub method: String,
    pub host: Option<String>,
    pub path: String,
    pub query: String,
    /// Extra request headers, in the order they are sent.
    pub headers: Vec<(String, String)>,
}

#[derive(Debug, Clone)]
pub struct HttpOptions {
    pub target: String,
    pub resolver: Option<String>,
    pub protocol: String,
    pub port: Option<u16>,
    pub ip_version: u8,
    pub in_progress_updates: bool,
    pub request: HttpRequestOptions,
}

/// Runs an HTTP measurement; the runner itself lives with the process plumbing.
pub struct HttpCommand;

pub fn default_method() -> (r: String)
    ensures
        r@ == "HEAD"@,
{
    "HEAD".to_string()
}

pub fn default_path() -> (r: String)
    ensures
        r@ == "/"@,
{
    "/".to_string()
}

pub fn default_protocol() -> (r: String)
    ensures
        r@ == "HTTPS"@,
{
    "HTTPS".to_string()
}

pub fn default_ip_version() -> (r: u8)
    ensures
        r == 4,
{
    4
}

// ── Validation ────────────────────────────────────────────────────────────────

/// Why an HTTP measurement was refused.
#[derive(Debug, Clone, Copy, PartialEq, Eq, Structural)]
pub enum HttpError {
    InvalidTarget,
    BadIpVersion,
    BadProtocol,
    BadMethod,
    InvalidResolver,
    PrivateResolver,
    InvalidHost,
    InvalidPath,
    InvalidQuery,
    InvalidHeader,
    PrivateTarget,
}

pub open spec fn http_error_message(e: HttpError) -> Seq<char> {
    match e {
        HttpError::InvalidTarget => "Invalid target."@,
        HttpError::BadIpVersion => "ipVersion must be 4 or 6"@,
        HttpError::BadProtocol => "protocol must be HTTP, HTTPS, or HTTP2"@,
        HttpError::BadMethod => "method must be GET, HEAD, or OPTIONS"@,
        HttpError::InvalidResolver => "Invalid resolver."@,
        HttpError::PrivateResolver => "Private IP ranges are not allowed."@,
        HttpError::InvalidHost => "Invalid host header."@,
        HttpError::InvalidPath => "Invalid request path."@,
        HttpError::InvalidQuery => "Invalid request query."@,
        HttpError::InvalidHeader => "Invalid request header."@,
        HttpError::PrivateTarget => "Private IP ranges are not allowed"@,
    }
}

impl HttpError {
    /// The message reported to the API.
    pub fn message(&self) -> (r: String)
        ensures
            r@ == http_error_message(*self),
    {
        match self {
            HttpError::InvalidTarget => "Invalid target.".to_string(),
            HttpError::BadIpVersion => "ipVersion must be 4 or 6".to_string(),
            HttpError::BadProtocol => "protocol must be HTTP, HTTPS, or HTTP2".to_string(),
            HttpError::BadMethod => "method must be GET, HEAD, or OPTIONS".to_string(),
            HttpError::InvalidResolver => "Invalid resolver.".to_string(),
            HttpError::PrivateResolver => "Private IP ranges are not allowed.".to_string(),
            HttpError::InvalidHost => "Invalid host header.".to_string(),
            HttpError::InvalidPath => "Invalid request path.".to_string(),
            HttpError::InvalidQuery => "Invalid request query.".to_string(),
            HttpError::InvalidHeader => "Invalid request header.".to_string(),
            HttpError::PrivateTarget => "Private IP ranges are not allowed".to_string(),
        }
    }
}

pub open spec fn no_control(s: Seq<char>) -> bool {
    forall|i: int| 0 <= i < s.len() ==> !is_ascii_control(#[trigger] s[i])
}

pub open spec fn header_clean(p: (String, String)) -> bool {
    no_control(p.0@) && no_control(p.1@)
}

pub open spec fn headers_clean(h: Seq<(String, String)>) -> bool {
    forall|i: int| 0 <= i < h.len() ==> #[trigger] header_clean(h[i])
}


/// The first check that the options fail, in the order the probe makes them.
pub open spec fn http_check(opts: HttpOptions, local_ips: Seq<IpAddress>) -> Option<HttpError> {
    let proto = unicode_uppercase(opts.protocol@);
    let method = unicode_uppercase(opts.request.method@);
    if !is_safe_host_spec(opts.target@) {
        Some(HttpError::InvalidTarget)
    } else if opts.ip_version != 4 && opts.ip_version != 6 {
        Some(HttpError::BadIpVersion)
    } else if proto != "HTTP"@ && proto != "HTTPS"@ && proto != "HTTP2"@ {
        Some(HttpError::BadProtocol)
    } else if method != "GET"@ && method != "HEAD"@ && method != "OPTIONS"@ {
        Some(HttpError::BadMethod)
    } else if opts.resolver is Some && !is_safe_host_spec(opts.resolver.unwrap()@) {
        Some(HttpError::InvalidResolver)
    } else if opts.resolver is Some && private_literal(opts.resolver.unwrap()@, local_ips) {
        Some(HttpError::PrivateResolver)
    } else if opts.request.host is Some && !is_safe_host_spec(opts.request.host.unwrap()@) {
        Some(HttpError::InvalidHost)
    } else if !is_safe_url_component_spec(opts.request.path@) {
        Some(HttpError::InvalidPath)
    } else if !is_safe_url_component_spec(opts.request.query@) {
        Some(HttpError::InvalidQuery)
    } else if !headers_clean(opts.request.headers@) {
        Some(HttpError::InvalidHeader)
    } else if private_literal(opts.target@, local_ips) {
        Some(HttpError::PrivateTarget)
    } else {
        None
    }
}

fn has_control(s: &str) -> (b: bool)
    ensures
        b == !no_control(s@),
{
    let c = chars_of(s);
    let mut i: usize = 0;
    while i < c.len()
        invariant
            i <= c@.len(),
            c@ == s@,
            forall|j: int| 0 <= j < i ==> !is_ascii_control(#[trigger] c@[j]),
        decreases c.len() - i,
    {
        let u = c[i] as u32;
        if u < 0x20 || u == 0x7f {
            return true;
        }
        i = i + 1;
    }
    false
}

fn headers_have_control(headers: &Vec<(String, String)>) -> (b: bool)
    ensures
        b == !headers_clean(headers@),
{
    let mut i: usize = 0;
    while i < headers.len()
        invariant
            i <= headers@.len(),
            forall|j: int| 0 <= j < i ==> #[trigger] header_clean(headers@[j]),
        decreases headers.len() - i,
    {
        let hk = &headers[i].0;
        let hv = &headers[i].1;
        assert(hk@ == headers@[i as int].0@);
        assert(hv@ == headers@[i as int].1@);
        let k = has_control(hk.as_str());
        let v = has_control(hv.as_str());
        if k || v {
            assert(!header_clean(headers@[i as int]));
            return true;
        }
        assert(header_clean(headers@[i as int]));
        i = i + 1;
    }
    false
}


/// Checks HTTP options before `curl` is run. `local_ips` are this machine's
/// own addresses, which count as private.
pub fn validate(opts: &HttpOptions, local_ips: &[IpAddress]) -> (r: Result<(), HttpError>)
    ensures
        match http_check(*opts, local_ips@) {
            None => r is Ok,
            Some(e) => r == Err::<(), HttpError>(e),
        },
{
    if !is_safe_host(opts.target.as_str()) {
        return Err(HttpError::InvalidTarget);
    }
    if opts.ip_version != 4 && opts.ip_version != 6 {
        return Err(HttpError::BadIpVersion);
    }
    let proto = to_uppercase(opts.protocol.as_str());
    if !str_is(proto.as_str(), "HTTP") && !str_is(proto.as_str(), "HTTPS") && !str_is(
        proto.as_str(),
        "HTTP2",
    ) {
        return Err(HttpError::BadProtocol);
    }
    let method = to_uppercase(opts.request.method.as_str());
    if !str_is(method.as_str(), "GET") && !str_is(method.as_str(), "HEAD") && !str_is(
        method.as_str(),
        "OPTIONS",
    ) {
        return Err(HttpError::BadMethod);
    }
    if let Some(resolver) = &opts.resolver {
        if !is_safe_host(resolver.as_str()) {
            return Err(HttpError::InvalidResolver);
        }
        if is_private_literal(resolver.as_str(), local_ips) {
            return Err(HttpError::PrivateResolver);
        }
    }
    if let Some(host) = &opts.request.host {
        if !is_safe_host(host.as_str()) {
            return Err(HttpError::InvalidHost);
        }
    }
    if !is_safe_url_component(opts.request.path.as_str()) {
        return Err(HttpError::InvalidPath);
    }
    if !is_safe_url_component(opts.request.query.as_str()) {
        return Err(HttpError::InvalidQuery);
    }
    if headers_have_control(&opts.request.headers) {
        return Err(HttpError::InvalidHeader);
    }
    if is_private_literal(opts.target.as_str(), local_ips) {
        return Err(HttpError::PrivateTarget);
    }
    Ok(())
}

// ── URL and port ──────────────────────────────────────────────────────────────

/// The port asked for, else 80 for plain HTTP and 443 otherwise.
pub open spec fn effective_port_spec(opts: HttpOptions) -> u16 {
    match opts.port {
        Some(p) => p,
        None => if unicode_uppercase(opts.protocol@) == "HTTP"@ {
            80
        } else {
            443
        },
    }
}

pub fn effective_port(opts: &HttpOptions) -> (r: u16)
    ensures
        r == effective_port_spec(*opts),
{
    match opts.port {
        Some(p) => p,
        None => {
            let proto = to_uppercase(opts.protocol.as_str());
            if str_is(proto.as_str(), "HTTP") {
                80
            } else {
                443
            }
        },
    }
}

/// `scheme://host:port/path?query`: `http` only for plain HTTP, an IPv6
/// target in brackets, one leading `/` on the path, and the query (without
/// leading `?`s) only when there is one.
pub open spec fn build_url_spec(opts: HttpOptions, port: u16) -> Seq<char> {
    let scheme = if unicode_uppercase(opts.protocol@) == "HTTP"@ {
        "http"@
    } else {
        "https"@
    };
    let host = if contains_seq(opts.target@, ":"@) {
        "["@ + opts.target@ + "]"@
    } else {
        opts.target@
    };
    let path = "/"@ + trim_start_char(opts.request.path@, '/');
    let query = if opts.request.query@.len() == 0 {
        Seq::empty()
    } else {
        "?"@ + trim_start_char(opts.request.query@, '?')
    };
    scheme + "://"@ + host + ":"@ + decimal(port as nat) + path + query
}

pub fn build_url(opts: &HttpOptions, port: u16) -> (r: String)
    ensures
        r@ == build_url_spec(*opts, port),
{
    let proto = to_uppercase(opts.protocol.as_str());
    let mut out = if str_is(proto.as_str(), "HTTP") {
        chars_of("http")
    } else {
        chars_of("https")
    };
    append_chars(&mut out, chars_of("://").as_slice());
    let t = chars_of(opts.target.as_str());
    let colon = chars_of(":");
    if contains_exec(t.as_slice(), colon.as_slice()) {
        append_chars(&mut out, chars_of("[").as_slice());
        append_chars(&mut out, t.as_slice());
        append_chars(&mut out, chars_of("]").as_slice());
    } else {
        append_chars(&mut out, t.as_slice());
    }
    append_chars(&mut out, colon.as_slice());
    append_chars(&mut out, chars_of(u64_to_string(port as u64).as_str()).as_slice());
    append_chars(&mut out, chars_of("/").as_slice());
    let path = chars_of(opts.request.path.as_str());
    append_chars(&mut out, trim_start_char_exec(path.as_slice(), '/').as_slice());
    let q = chars_of(opts.request.query.as_str());
    if q.len() > 0 {
        append_chars(&mut out, chars_of("?").as_slice());
        append_chars(&mut out, trim_start_char_exec(q.as_slice(), '?').as_slice());
    }
    let ghost want = build_url_spec(*opts, port);
    assert(out@ =~= want);
    string_of(out.as_slice())
}

// ── curl arguments ────────────────────────────────────────────────────────────

/// `--write-out` format: curl's timing and connection figures as JSON.
pub const CURL_WRITE_FMT: &'static str = "{\"remote_ip\":\"%{remote_ip}\",\"time_namelookup\":%{time_namelookup},\"time_connect\":%{time_connect},\"time_appconnect\":%{time_appconnect},\"time_starttransfer\":%{time_starttransfer},\"time_total\":%{time_total},\"http_version\":\"%{http_version}\",\"response_code\":%{response_code},\"ssl_verify_result\":%{ssl_verify_result}}";

pub open spec fn header_args(h: Seq<(String, String)>) -> Seq<Seq<char>>
    decreases h.len(),
{
    if h.len() == 0 {
        Seq::empty()
    } else {
        header_args(h.drop_last()) + seq!["-H"@, h.last().0@ + ": "@ + h.last().1@]
    }
}

/// The `curl` argument list: fixed flags, the method, IP version, output
/// files, the write-out format, the `Host` header (override or target) and
/// the fixed headers, the extra headers, the protocol flag, `--resolve`
/// pinning a host target to the resolved address, and the URL.
pub open spec fn curl_args_spec(
    opts: HttpOptions,
    url: Seq<char>,
    port: u16,
    resolved_ip: Seq<char>,
    headers_path: Seq<char>,
    body_path: Seq<char>,
) -> Seq<Seq<char>> {
    let proto = unicode_uppercase(opts.protocol@);
    let host_header = match opts.request.host {
        Some(h) => h@,
        None => opts.target@,
    };
    let a = fixed_curl_args_spec(
        unicode_uppercase(opts.request.method@),
        opts.ip_version,
        headers_path,
        body_path,
        host_header,
        ) + header_args(opts.request.headers@);
    let b = if proto == "HTTP2"@ {
        a.push("--http2"@)
    } else if proto == "HTTP"@ {
        a.push("--http1.1"@)
    } else {
        a
    };
    let c = if parse_ip_spec(opts.target@) is None {
        let ip = if contains_seq(resolved_ip, ":"@) {
            "["@ + resolved_ip + "]"@
        } else {
            resolved_ip
        };
        b + seq!["--resolve"@, opts.target@ + ":"@ + decimal(port as nat) + ":"@ + ip]
    } else {
        b
    };
    c.push(url)
}

pub open spec fn fixed_curl_args_spec(
    method: Seq<char>,
    ip_version: u8,
    headers_path: Seq<char>,
    body_path: Seq<char>,
    host_header: Seq<char>,
) -> Seq<Seq<char>> {
    seq![
        "-sS"@,
        "-k"@,
        "-v"@,
        "--compressed"@,
        "--max-time"@,
        "10"@,
        "-X"@,
        method,
        "-"@ + decimal(ip_version as nat),
        "-D"@,
        headers_path,
        "-o"@,
        body_path,
        "--write-out"@,
        CURL_WRITE_FMT@,
        "-H"@,
        "Host: "@ + host_header,
        "-H"@,
        "User-Agent: globalping probe (https://github.com/jsdelivr/globalping)"@,
        "-H"@,
        "Connection: close"@,
        "-H"@,
        "Accept-Encoding: gzip, deflate, br"@,
    ]
}

fn fixed_curl_args(
    method: String,
    ip_version: u8,
    headers_path: &str,
    body_path: &str,
    host_header: &str,
) -> (r: Vec<String>)
    ensures
        string_views(r@) == fixed_curl_args_spec(method@, ip_version, headers_path@, body_path@, host_header@),
{
    let ghost m = method@;
    let mut args: Vec<String> = Vec::new();
    push_str_arg(&mut args, "-sS".to_string());
    push_str_arg(&mut args, "-k".to_string());
    push_str_arg(&mut args, "-v".to_string());
    push_str_arg(&mut args, "--compressed".to_string());
    push_str_arg(&mut args, "--max-time".to_string());
    push_str_arg(&mut args, "10".to_string());
    push_str_arg(&mut args, "-X".to_string());
    push_str_arg(&mut args, method);
    let v = u64_to_string(ip_version as u64);
    push_str_arg(&mut args, concat_str("-", v.as_str()));
    push_str_arg(&mut args, "-D".to_string());
    push_str_arg(&mut args, headers_path.to_string());
    push_str_arg(&mut args, "-o".to_string());
    push_str_arg(&mut args, body_path.to_string());
    push_str_arg(&mut args, "--write-out".to_string());
    push_str_arg(&mut args, CURL_WRITE_FMT.to_string());
    push_str_arg(&mut args, "-H".to_string());
    push_str_arg(&mut args, concat_str("Host: ", host_header));
    push_str_arg(&mut args, "-H".to_string());
    push_str_arg(
        &mut args,
        "User-Agent: globalping probe (https://github.com/jsdelivr/globalping)".to_string(),
    );
    push_str_arg(&mut args, "-H".to_string());
    push_str_arg(&mut args, "Connection: close".to_string());
    push_str_arg(&mut args, "-H".to_string());
    push_str_arg(&mut args, "Accept-Encoding: gzip, deflate, br".to_string());
    let ghost want = fixed_curl_args_spec(m, ip_version, headers_path@, body_path@, host_header@);
    assert(string_views(args@) =~= want);
    args
}

fn concat3(a: &str, b: &str, c: &str) -> (r: String)
    ensures
        r@ == a@ + b@ + c@,
{
    let mut v = chars_of(a);
    append_chars(&mut v, chars_of(b).as_slice());
    append_chars(&mut v, chars_of(c).as_slice());
    string_of(v.as_slice())
}

pub fn build_curl_args(
    opts: &HttpOptions,
    url: &str,
    port: u16,
    resolved_ip: &str,
    headers_path: &str,
    body_path: &str,
) -> (r: Vec<String>)
    ensures
        string_views(r@) == curl_args_spec(
            *opts,
            url@,
            port,
            resolved_ip@,
            headers_path@,
            body_path@,
        ),
{
    let proto = to_uppercase(opts.protocol.as_str());
    let method = to_uppercase(opts.request.method.as_str());
    let host_header = match &opts.request.host {
        Some(h) => h.clone(),
        None => opts.target.clone(),
    };
    let mut args = fixed_curl_args(method, opts.ip_version, headers_path, body_path, host_header.as_str());
    let ghost fixed = string_views(args@);
    let headers = &opts.request.headers;
    let mut i: usize = 0;
    assert(headers@.take(0) =~= Seq::<(String, String)>::empty());
    assert(string_views(args@) =~= fixed + header_args(headers@.take(0)));
    while i < headers.len()
        invariant
            i <= headers@.len(),
            string_views(args@) == fixed + header_args(headers@.take(i as int)),
        decreases headers.len() - i,
    {
        assert(headers@.take(i + 1).drop_last() =~= headers@.take(i as int));
        push_str_arg(&mut args, "-H".to_string());
        push_str_arg(&mut args, concat3(headers[i].0.as_str(), ": ", headers[i].1.as_str()));
        assert(string_views(args@) =~= fixed + header_args(headers@.take(i + 1)));
        i = i + 1;
    }
    assert(headers@.take(headers@.len() as int) =~= headers@);
    if str_is(proto.as_str(), "HTTP2") {
        push_str_arg(&mut args, "--http2".to_string());
    } else if str_is(proto.as_str(), "HTTP") {
        push_str_arg(&mut args, "--http1.1".to_string());
    }
    if parse_ip_str(opts.target.as_str()).is_none() {
        push_str_arg(&mut args, "--resolve".to_string());
        let ipc = chars_of(resolved_ip);
        let colon = chars_of(":");
        let resolve_ip = if contains_exec(ipc.as_slice(), colon.as_slice()) {
            concat3("[", resolved_ip, "]")
        } else {
            resolved_ip.to_string()
        };
        let p = u64_to_string(port as u64);
        let mut v = chars_of(opts.target.as_str());
        append_chars(&mut v, colon.as_slice());
        append_chars(&mut v, chars_of(p.as_str()).as_slice());
        append_chars(&mut v, colon.as_slice());
        append_chars(&mut v, chars_of(resolve_ip.as_str()).as_slice());
        push_str_arg(&mut args, string_of(v.as_slice()));
    }
    push_str_arg(&mut args, url.to_string());
    let ghost want = curl_args_spec(*opts, url@, port, resolved_ip@, headers_path@, body_path@);
    assert(string_views(args@) =~= want);
    args
}

// ── Certificate block ─────────────────────────────────────────────────────────

pub open spec fn pem_begin() -> Seq<char> {
    "-----BEGIN CERTIFICATE-----"@
}

pub open spec fn pem_end() -> Seq<char> {
    "-----END CERTIFICATE-----"@
}

/// The first PEM certificate block, from its BEGIN marker through the first
/// END marker after it.
pub open spec fn extract_pem_spec(s: Seq<char>) -> Option<Seq<char>> {
    match find_from(s, pem_begin(), 0) {
        None => None,
        Some(b) => match find_from(s, pem_end(), b) {
            None => None,
            Some(e) => Some(s.subrange(b, e + pem_end().len())),
        },
    }
}

/// Extract the first PEM certificate block (inclusive of BEGIN/END markers).
pub fn extract_pem(s: &str) -> (r: Option<String>)
    ensures
        crate::text::opt_view(r) == extract_pem_spec(s@),
{
    let c = chars_of(s);
    let _n = c.len();
    let begin = chars_of("-----BEGIN CERTIFICATE-----");
    let end = chars_of("-----END CERTIFICATE-----");
    match find_exec(c.as_slice(), begin.as_slice(), 0) {
        None => None,
        Some(b) => {
            proof {
                lemma_find_from(c@, begin@, 0);
            }
            match find_exec(c.as_slice(), end.as_slice(), b) {
                None => None,
                Some(e) => {
                    proof {
                        lemma_find_from(c@, end@, b as int);
                    }
                    Some(string_of(chars_range(c.as_slice(), b, e + end.len()).as_slice()))
                },
            }
        },
    }
}


// ── Reading curl's report ─────────────────────────────────────────────────────

/// curl's `http_version` as reported: `2.0` is shortened to `2`, an empty
/// value means no version.
pub open spec fn http_version_label_spec(v: Seq<char>) -> Option<Seq<char>> {
    if v == "2.0"@ {
        Some("2"@)
    } else if v.len() == 0 {
        None
    } else {
        Some(v)
    }
}

pub fn http_version_label(v: &str) -> (r: Option<String>)
    ensures
        crate::text::opt_view(r) == http_version_label_spec(v@),
{
    if str_is(v, "2.0") {
        Some("2".to_string())
    } else if chars_of(v).len() == 0 {
        None
    } else {
        Some(v.to_string())
    }
}

/// `s` with every leading `"* "` removed (`trim_start_matches("* ")`).
pub open spec fn strip_bullets(s: Seq<char>) -> Seq<char>
    decreases s.len(),
{
    if s.len() >= 2 && s[0] == '*' && s[1] == ' ' {
        strip_bullets(s.skip(2))
    } else {
        s
    }
}

fn strip_bullets_exec(s: &[char]) -> (r: Vec<char>)
    ensures
        r@ == strip_bullets(s@),
{
    let mut start: usize = 0;
    assert(s@.skip(0) =~= s@);
    while s.len() >= 2 && start <= s.len() - 2 && s[start] == '*' && s[start + 1] == ' '
        invariant
            start <= s@.len(),
            strip_bullets(s@) == strip_bullets(s@.skip(start as int)),
        decreases s.len() - start,
    {
        assert(s@.skip(start as int).skip(2) =~= s@.skip(start + 2));
        start = start + 2;
    }
    chars_range(s, start, s.len())
}

/// A line of curl's verbose log that names an error when the report is
/// unreadable: it mentions `curl:` or `error`, or is a `* ` info line.
pub open spec fn is_error_line(l: Seq<char>) -> bool {
    contains_seq(l, "curl:"@) || contains_seq(l, "error"@) || crate::text::starts_with(l, "* "@)
}

/// A line reporting a failed exchange: a `* ` info line or one mentioning
/// `error`.
pub open spec fn is_failure_line(l: Seq<char>) -> bool {
    crate::text::starts_with(l, "* "@) || contains_seq(l, "error"@)
}

pub open spec fn first_matching(ls: Seq<Seq<char>>, last: bool, which: bool) -> Option<Seq<char>>
    decreases ls.len(),
{
    if ls.len() == 0 {
        None
    } else if last {
        let l = ls.last();
        if (if which { is_error_line(l) } else { is_failure_line(l) }) {
            Some(l)
        } else {
            first_matching(ls.drop_last(), last, which)
        }
    } else {
        let l = ls[0];
        if (if which { is_error_line(l) } else { is_failure_line(l) }) {
            Some(l)
        } else {
            first_matching(ls.drop_first(), last, which)
        }
    }
}

/// The message reported for a failed request: the chosen log line without
/// its `* ` bullets, trimmed, or `HTTP request failed` without one.
pub open spec fn failure_message_spec(line: Option<Seq<char>>) -> Seq<char> {
    match line {
        Some(l) => crate::text::trim(strip_bullets(l)),
        None => "HTTP request failed"@,
    }
}

fn line_matches(l: &[char], which: bool) -> (b: bool)
    ensures
        b == (if which { is_error_line(l@) } else { is_failure_line(l@) }),
{
    let star = chars_of("* ");
    let err = chars_of("error");
    if which {
        let curl = chars_of("curl:");
        contains_exec(l, curl.as_slice()) || contains_exec(l, err.as_slice())
            || crate::text::starts_with_exec(l, star.as_slice())
    } else {
        crate::text::starts_with_exec(l, star.as_slice()) || contains_exec(l, err.as_slice())
    }
}

/// The failure message when curl's `--write-out` report cannot be read:
/// from the first line naming an error.
pub fn unreadable_report_message(verbose: &str) -> (r: String)
    ensures
        r@ == failure_message_spec(first_matching(crate::text::lines(verbose@), false, true)),
{
    let c = chars_of(verbose);
    let ls = crate::text::lines_of(c.as_slice());
    let ghost lv = crate::text::views(ls@);
    let mut i: usize = 0;
    assert(lv.skip(0) =~= lv);
    while i < ls.len()
        invariant
            i <= ls@.len(),
            lv == crate::text::views(ls@),
            lv == crate::text::lines(verbose@),
            first_matching(lv, false, true) == first_matching(lv.skip(i as int), false, true),
        decreases ls.len() - i,
    {
        assert(lv.skip(i as int)[0] == ls@[i as int]@);
        assert(lv.skip(i as int).drop_first() =~= lv.skip(i + 1));
        if line_matches(ls[i].as_slice(), true) {
            let t = crate::text::trim_chars(strip_bullets_exec(ls[i].as_slice()).as_slice());
            return string_of(t.as_slice());
        }
        i = i + 1;
    }
    assert(lv.skip(ls@.len() as int) =~= Seq::<Seq<char>>::empty());
    "HTTP request failed".to_string()
}

/// The failure message when curl got no response (status code 0): from
/// the last line reporting a failure.
pub fn no_response_message(verbose: &str) -> (r: String)
    ensures
        r@ == failure_message_spec(first_matching(crate::text::lines(verbose@), true, false)),
{
    let c = chars_of(verbose);
    let ls = crate::text::lines_of(c.as_slice());
    let ghost lv = crate::text::views(ls@);
    let mut i: usize = ls.len();
    assert(lv.take(lv.len() as int) =~= lv);
    while i > 0
        invariant
            i <= ls@.len(),
            lv == crate::text::views(ls@),
            lv == crate::text::lines(verbose@),
            first_matching(lv, true, false) == first_matching(lv.take(i as int), true, false),
        decreases i,
    {
        assert(lv.take(i as int).last() == ls@[i - 1]@);
        assert(lv.take(i as int).drop_last() =~= lv.take(i - 1));
        if line_matches(ls[i - 1].as_slice(), false) {
            let t = crate::text::trim_chars(strip_bullets_exec(ls[i - 1].as_slice()).as_slice());
            return string_of(t.as_slice());
        }
        i = i - 1;
    }
    assert(lv.take(0) =~= Seq::<Seq<char>>::empty());
    "HTTP request failed".to_string()
}

pub open spec fn header_lines(h: Seq<(Seq<char>, Seq<char>)>) -> Seq<Seq<char>> {
    h.map_values(|p: (Seq<char>, Seq<char>)| p.0 + ": "@ + p.1)
}

/// The headers as sent in `rawHeaders`: `name: value` lines joined by `\n`.
pub fn raw_headers_text(headers: &Vec<(String, String)>) -> (r: String)
    ensures
        r@ == crate::text::join(header_lines(crate::command::http::parse::pair_views(headers@)), "\n"@),
{
    let ghost hv = crate::command::http::parse::pair_views(headers@);
    let mut parts: Vec<Vec<char>> = Vec::new();
    let mut i: usize = 0;
    while i < headers.len()
        invariant
            i <= headers@.len(),
            hv == crate::command::http::parse::pair_views(headers@),
            crate::text::views(parts@) == header_lines(hv).take(i as int),
        decreases headers.len() - i,
    {
        let mut line = chars_of(headers[i].0.as_str());
        append_chars(&mut line, chars_of(": ").as_slice());
        append_chars(&mut line, chars_of(headers[i].1.as_str()).as_slice());
        let ghost prev = parts@;
        parts.push(line);
        assert(crate::text::views(parts@) =~= crate::text::views(prev).push(header_lines(hv)[i as int]));
        assert(header_lines(hv).take(i + 1) =~= header_lines(hv).take(i as int).push(header_lines(hv)[i as int]));
        i = i + 1;
    }
    assert(header_lines(hv).take(headers@.len() as int) =~= header_lines(hv));
    let nl = chars_of("\n");
    let joined = crate::text::join_exec(parts.as_slice(), nl.as_slice());
    string_of(joined.as_slice())
}

// ── After curl has answered ─────────────────────────────────────────────────

/// Most body bytes kept in a result.
pub const BODY_LIMIT: usize = 10_000;

/// Whether the request goes over TLS: every protocol but plain `HTTP`.
pub fn uses_tls(protocol: &str) -> (b: bool)
    ensures
        b == (unicode_uppercase(protocol@) != "HTTP"@),
{
    let proto = to_uppercase(protocol);
    !str_is(proto.as_str(), "HTTP")
}

/// The address the response came from: curl's `remote_ip`, else the one the
/// target was resolved to.
pub open spec fn final_address_spec(remote_ip: Seq<char>, resolved_ip: Seq<char>) -> Seq<char> {
    if remote_ip.len() == 0 {
        resolved_ip
    } else {
        remote_ip
    }
}

/// How a request that curl reported on ends before its response is read.
#[derive(Debug, Clone)]
pub enum CurlOutcome {
    /// Response code 0: no response came.
    NoResponse,
    /// The response came from a private address.
    PrivateAddress,
    /// A response came from this public address.
    Answered(String),
}

/// No response (code 0) fails first; otherwise the response's address must
/// not be private.
pub fn curl_outcome(response_code: u16, remote_ip: &str, resolved_ip: &str, local_ips: &[IpAddress]) -> (r:
    CurlOutcome)
    ensures
        match r {
            CurlOutcome::NoResponse => response_code == 0,
            CurlOutcome::PrivateAddress => response_code != 0 && private_literal(
                final_address_spec(remote_ip@, resolved_ip@),
                local_ips@,
            ),
            CurlOutcome::Answered(ip) => response_code != 0 && ip@ == final_address_spec(
                remote_ip@,
                resolved_ip@,
            ) && !private_literal(ip@, local_ips@),
        },
{
    if response_code == 0 {
        return CurlOutcome::NoResponse;
    }
    let ip = if chars_of(remote_ip).len() == 0 {
        resolved_ip.to_string()
    } else {
        remote_ip.to_string()
    };
    if is_private_literal(ip.as_str(), local_ips) {
        CurlOutcome::PrivateAddress
    } else {
        CurlOutcome::Answered(ip)
    }
}

/// The body bytes kept, and whether any were cut off: at most `BODY_LIMIT`.
pub fn capped_body(bytes: &Vec<u8>) -> (r: (Vec<u8>, bool))
    ensures
        bytes@.len() > BODY_LIMIT ==> r.0@ == bytes@.take(BODY_LIMIT as int) && r.1,
        bytes@.len() <= BODY_LIMIT ==> r.0@ == bytes@ && !r.1,
{
    let n = if bytes.len() > BODY_LIMIT {
        BODY_LIMIT
    } else {
        bytes.len()
    };
    let mut kept: Vec<u8> = Vec::new();
    let mut i: usize = 0;
    while i < n
        invariant
            i <= n <= bytes@.len(),
            kept@ == bytes@.take(i as int),
        decreases n - i,
    {
        kept.push(bytes[i]);
        assert(bytes@.take(i + 1) =~= bytes@.take(i as int).push(bytes@[i as int]));
        i = i + 1;
    }
    if bytes.len() <= BODY_LIMIT {
        assert(bytes@.take(n as int) =~= bytes@);
    }
    (kept, bytes.len() > BODY_LIMIT)
}

/// A text field of the result: absent when empty.
pub fn non_empty(s: String) -> (r: Option<String>)
    ensures
        match r {
            Some(t) => t@ == s@ && s@.len() > 0,
            None => s@.len() == 0,
        },
{
    if chars_of(s.as_str()).len() == 0 {
        None
    } else {
        Some(s)
    }
}

} // verus!
