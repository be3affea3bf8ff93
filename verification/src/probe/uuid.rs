//! The probe's persistent identity.

use vstd::prelude::*;
use crate::text::{chars_of, string_of, trim, trim_chars};

verus! {

/// Default UUID path when running as root.
pub const UUID_PATH: &'static str = "/.globalping-probe-uuid";

#[derive(Debug, Clone)]
pub struct ProbeUuid {
    pub id: String,
}

impl ProbeUuid {
    /// The identity stored in a UUID file: its content trimmed, unless that
    /// is empty (then a new one must be generated).
    pub fn from_file_content(content: &str) -> (r: Option<ProbeUuid>)
        ensures
            trim(content@).len() == 0 ==> r is None,
            trim(content@).len() > 0 ==> (r matches Some(u) && u.id@ == trim(content@)),
    {
        let t = trim_chars(chars_of(content).as_slice());
        if t.len() == 0 {
            None
        } else {
            Some(ProbeUuid { id: string_of(t.as_slice()) })
        }
    }
}

} // verus!
