//! The connection handshake URL and the admission of measurement requests.

use vstd::prelude::*;
use crate::text::{
    append_chars, chars_of, concat_str, decimal, find_char_exec, find_char_from, opt_view, string_of,
    string_of_range, u64_to_string,
};
use crate::status::status_manager::ProbeStatus;

verus! {

/// Probe version reported to the API.
pub const VERSION: &'static str = "0.1.0";

/// Runtime version reported to the API.
pub const NODE_VERSION: &'static str = "v22.22.3";

/// Hard time limit for any single measurement, in seconds.
pub const MEASUREMENT_TIMEOUT_SECS: u64 = 30;

/// How often measurement counts are sent to the API, in seconds.
pub const STATS_INTERVAL_SECS: u64 = 60;

/// How long shutdown waits for measurements in flight, in seconds.
pub const DRAIN_TIMEOUT_SECS: u64 = 5;

#[derive(Debug, Clone)]
pub struct ClientConfig {
    pub api_host: String,
    pub uuid: String,
    pub ping_target: String,
    pub adoption_token: Option<String>,
}

impl Default for ClientConfig {
    fn default() -> (r: Self)
        ensures
            r.api_host@ == "https://api.globalping.io"@,
            r.uuid@ == Seq::<char>::empty(),
            r.ping_target@ == "api.globalping.io"@,
            r.adoption_token is None,
    {
        ClientConfig {
            api_host: "https://api.globalping.io".to_string(),
            uuid: String::new(),
            ping_target: "api.globalping.io".to_string(),
            adoption_token: None,
        }
    }
}

/// `host?version=…&nodeVersion=…&totalMemory=…&totalDiskSize=…&availableDiskSpace=…&uuid=…`
/// and `&adoptionToken=…` when a token is set.
pub open spec fn connection_url_spec(
    cfg: ClientConfig,
    total_memory: u64,
    total_disk: u64,
    avail_disk: u64,
) -> Seq<char> {
    let base = cfg.api_host@ + "?version="@ + VERSION@ + "&nodeVersion="@ + NODE_VERSION@
        + "&totalMemory="@ + decimal(total_memory as nat) + "&totalDiskSize="@ + decimal(
        total_disk as nat,
    ) + "&availableDiskSpace="@ + decimal(avail_disk as nat) + "&uuid="@ + cfg.uuid@;
    match cfg.adoption_token {
        Some(t) => base + "&adoptionToken="@ + t@,
        None => base,
    }
}

fn push_text(out: &mut Vec<char>, s: &str)
    ensures
        final(out)@ == old(out)@ + s@,
{
    append_chars(out, chars_of(s).as_slice());
}

/// Build the WebSocket handshake URL with probe metadata as query params:
/// total memory in bytes and disk sizes in megabytes, as measured.
pub fn connection_url(cfg: &ClientConfig, total_memory: u64, total_disk: u64, avail_disk: u64) -> (r: String)
    ensures
        r@ == connection_url_spec(*cfg, total_memory, total_disk, avail_disk),
{
    let mut out: Vec<char> = Vec::new();
    push_text(&mut out, cfg.api_host.as_str());
    push_text(&mut out, "?version=");
    push_text(&mut out, VERSION);
    push_text(&mut out, "&nodeVersion=");
    push_text(&mut out, NODE_VERSION);
    push_text(&mut out, "&totalMemory=");
    push_text(&mut out, u64_to_string(total_memory).as_str());
    push_text(&mut out, "&totalDiskSize=");
    push_text(&mut out, u64_to_string(total_disk).as_str());
    push_text(&mut out, "&availableDiskSpace=");
    push_text(&mut out, u64_to_string(avail_disk).as_str());
    push_text(&mut out, "&uuid=");
    push_text(&mut out, cfg.uuid.as_str());
    match &cfg.adoption_token {
        Some(t) => {
            push_text(&mut out, "&adoptionToken=");
            push_text(&mut out, t.as_str());
        },
        None => {},
    }
    let ghost want = connection_url_spec(*cfg, total_memory, total_disk, avail_disk);
    assert(out@ =~= want);
    string_of(out.as_slice())
}

/// What becomes of a measurement request.
#[derive(Debug, Clone, Copy, PartialEq, Eq, Structural)]
pub enum Admission {
    /// Every slot is taken: the request is dropped.
    Busy,
    /// The probe is not ready: the request is dropped.
    NotReady,
    /// The request is acknowledged and run.
    Accept,
}

/// A request needs a free slot first, then a probe in the `ready` state.
pub fn admission(slot_acquired: bool, status: ProbeStatus) -> (r: Admission)
    ensures
        r == (if !slot_acquired {
            Admission::Busy
        } else if status != ProbeStatus::Ready {
            Admission::NotReady
        } else {
            Admission::Accept
        }),
{
    if !slot_acquired {
        Admission::Busy
    } else if status != ProbeStatus::Ready {
        Admission::NotReady
    } else {
        Admission::Accept
    }
}

/// The `rawOutput` of the failure sent back for a type the probe does not run.
pub fn unknown_type_output(mtype: &str) -> (r: String)
    ensures
        r@ == "Unknown measurement type: "@ + mtype@,
{
    concat_str("Unknown measurement type: ", mtype)
}

/// The `rawOutput` of the failure sent back when a measurement overran
/// `MEASUREMENT_TIMEOUT_SECS`.
pub const TIMED_OUT_OUTPUT: &'static str = "Measurement timed out.";

// ── Connect errors ────────────────────────────────────────────────────────────

/// What `serde_json` makes of `text` read as a JSON value: `None` when it is
/// not JSON; otherwise the string at `message` and the string at
/// `data.ipAddress`, each `None` where absent or not a string.
pub uninterp spec fn json_envelope(text: Seq<char>) -> Option<(Option<Seq<char>>, Option<Seq<char>>)>;

pub open spec fn envelope_view(e: Option<(Option<String>, Option<String>)>) -> Option<
    (Option<Seq<char>>, Option<Seq<char>>),
> {
    match e {
        Some((m, ip)) => Some((opt_view(m), opt_view(ip))),
        None => None,
    }
}

/// Calls `serde_json::from_str::<serde_json::Value>(text)` and, on success,
/// reads the string fields `message` and `data.ipAddress`. The contract
/// claims only that the result is a function of `text`, named
/// `json_envelope`.
#[verifier::external_body]
fn parse_json_envelope(text: &str) -> (r: Option<(Option<String>, Option<String>)>)
    ensures
        envelope_view(r) == json_envelope(text@),
{
    match serde_json::from_str::<serde_json::Value>(text) {
        Ok(v) => Some((
            v.get("message").and_then(|m| m.as_str()).map(|m| m.to_string()),
            v.get("data").and_then(|d| d.get("ipAddress")).and_then(|ip| ip.as_str()).map(|ip| ip.to_string()),
        )),
        Err(_) => None,
    }
}

/// The message and refused address of a connect error, given what its JSON
/// part (from the first `{`) reads as: the inner message where there is one,
/// else the whole text; no address unless the JSON part names one.
pub open spec fn connect_error_parts_spec(
    outer: Seq<char>,
    envelope: Option<(Option<Seq<char>>, Option<Seq<char>>)>,
) -> (Seq<char>, Option<Seq<char>>) {
    match envelope {
        Some((message, ip)) => (
            match message {
                Some(m) => m,
                None => outer,
            },
            ip,
        ),
        None => (outer, None),
    }
}

/// A connect error as the API sends it: plain text, or text that carries a
/// JSON envelope `{"message": .., "data": {"ipAddress": ..}}`.
pub open spec fn connect_error_spec(outer: Seq<char>) -> (Seq<char>, Option<Seq<char>>) {
    connect_error_parts_spec(
        outer,
        match find_char_from(outer, '{', 0) {
            Some(i) => json_envelope(outer.skip(i)),
            None => None,
        },
    )
}

/// The message and address of a connect error, given what its JSON part was
/// read as (`None`: no JSON part, or one that is not JSON).
pub fn connect_error_parts(outer: &str, envelope: Option<(Option<String>, Option<String>)>) -> (r: (
    String,
    Option<String>,
))
    ensures
        (r.0@, opt_view(r.1)) == connect_error_parts_spec(outer@, envelope_view(envelope)),
{
    match envelope {
        Some((message, ip)) => {
            let m = match message {
                Some(m) => m,
                None => outer.to_string(),
            };
            (m, ip)
        },
        None => (outer.to_string(), None),
    }
}

/// Splits a connect error into the message to classify and, where the API
/// named one, the refused IP address.
pub fn parse_connect_error(outer: &str) -> (r: (String, Option<String>))
    ensures
        (r.0@, opt_view(r.1)) == connect_error_spec(outer@),
{
    let c = chars_of(outer);
    let envelope = match find_char_exec(c.as_slice(), '{', 0) {
        Some(i) => {
            proof {
                crate::text::lemma_find_char_from(c@, '{', 0);
            }
            let tail = string_of_range(c.as_slice(), i, c.len());
            assert(tail@ =~= outer@.skip(i as int));
            parse_json_envelope(tail.as_str())
        },
        None => None,
    };
    connect_error_parts(outer, envelope)
}

} // verus!
