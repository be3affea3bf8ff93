pub mod dns;
pub mod http;
pub mod mtr;
pub mod ping;
pub mod traceroute;

use vstd::prelude::*;
use crate::text::str_is;

verus! {

/// The kinds of measurement the API can ask for.
#[derive(Debug, Clone, Copy, PartialEq, Eq, Structural)]
pub enum MeasurementType {
    Ping,
    Dns,
    Traceroute,
    Mtr,
    Http,
}

pub open spec fn measurement_type_spec(t: Seq<char>) -> Option<MeasurementType> {
    if t == "ping"@ {
        Some(MeasurementType::Ping)
    } else if t == "dns"@ {
        Some(MeasurementType::Dns)
    } else if t == "traceroute"@ {
        Some(MeasurementType::Traceroute)
    } else if t == "mtr"@ {
        Some(MeasurementType::Mtr)
    } else if t == "http"@ {
        Some(MeasurementType::Http)
    } else {
        None
    }
}

/// The measurement a job's `type` names; `None` for an unknown type.
pub fn measurement_type(t: &str) -> (r: Option<MeasurementType>)
    ensures
        r == measurement_type_spec(t@),
{
    if str_is(t, "ping") {
        Some(MeasurementType::Ping)
    } else if str_is(t, "dns") {
        Some(MeasurementType::Dns)
    } else if str_is(t, "traceroute") {
        Some(MeasurementType::Traceroute)
    } else if str_is(t, "mtr") {
        Some(MeasurementType::Mtr)
    } else if str_is(t, "http") {
        Some(MeasurementType::Http)
    } else {
        None
    }
}

} // verus!
