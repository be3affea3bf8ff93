//! Size limit for the `rawOutput` field of results and progress events.

use vstd::prelude::*;
use crate::text::{
    chars_of, char_width_exec, lemma_utf8_len_ascii, lemma_utf8_len_concat, lemma_utf8_len_take_mono,
    string_of_range, utf8_len,
};

verus! {

/// Maximum size in bytes of the `rawOutput` field sent to the API.
pub const MAX_RAW_OUTPUT_BYTES: usize = 10_240;

/// Appended after a cut.
pub const TRUNCATION_MARKER: &'static str = "\n[...truncated]";

/// Number of leading characters of `s` whose UTF-8 encoding fits in `max`
/// bytes (the cut lands on a character boundary).
pub open spec fn fitting_chars(s: Seq<char>, max: nat) -> nat
    decreases s.len(),
{
    if utf8_len(s) <= max {
        s.len()
    } else {
        fitting_chars(s.drop_last(), max)
    }
}

/// `s` unchanged if it fits in `max` bytes; otherwise its longest prefix that
/// fits, followed by the marker.
pub open spec fn truncate_spec(s: Seq<char>, max: nat) -> Seq<char> {
    if utf8_len(s) <= max {
        s
    } else {
        s.take(fitting_chars(s, max) as int) + TRUNCATION_MARKER@
    }
}

proof fn lemma_fitting_chars(s: Seq<char>, max: nat, k: int)
    requires
        0 <= k < s.len(),
        utf8_len(s.take(k)) <= max,
        utf8_len(s.take(k + 1)) > max,
    ensures
        fitting_chars(s, max) == k,
    decreases s.len(),
{
    lemma_utf8_len_take_mono(s, k + 1, s.len() as int);
    assert(s.take(s.len() as int) =~= s);
    if s.len() == k + 1 {
        assert(s.drop_last() =~= s.take(k));
        assert(fitting_chars(s.drop_last(), max) == k);
    } else {
        assert(s.drop_last().take(k) =~= s.take(k));
        assert(s.drop_last().take(k + 1) =~= s.take(k + 1));
        lemma_fitting_chars(s.drop_last(), max, k);
    }
}

/// Truncate `s` to at most `max_bytes` bytes, preserving valid UTF-8, and
/// append the marker if anything was removed.
pub fn truncate_output(s: &str, max_bytes: usize) -> (r: String)
    ensures
        r@ == truncate_spec(s@, max_bytes as nat),
{
    let c = chars_of(s);
    let mut bytes: usize = 0;
    let mut k: usize = 0;
    assert(c@.take(0) =~= Seq::<char>::empty());
    while k < c.len()
        invariant
            k <= c@.len(),
            c@ == s@,
            bytes == utf8_len(c@.take(k as int)),
            bytes <= max_bytes,
        decreases c.len() - k,
    {
        assert(c@.take(k + 1).drop_last() =~= c@.take(k as int));
        let w = char_width_exec(c[k]);
        if w > max_bytes - bytes {
            proof {
                lemma_fitting_chars(c@, max_bytes as nat, k as int);
                lemma_utf8_len_take_mono(c@, k + 1, c@.len() as int);
                assert(c@.take(c@.len() as int) =~= c@);
            }
            let mut out = string_of_range(c.as_slice(), 0, k);
            proof {
                reveal_strlit("\n[...truncated]");
            }
            let marker = TRUNCATION_MARKER;
            out.append(marker);
            assert(c@.subrange(0, k as int) =~= c@.take(k as int));
            return out;
        }
        bytes = bytes + w;
        k = k + 1;
    }
    assert(c@.take(c.len() as int) =~= c@);
    s.to_string()
}

proof fn lemma_fitting_prefix(s: Seq<char>, max: nat)
    ensures
        fitting_chars(s, max) <= s.len(),
        utf8_len(s.take(fitting_chars(s, max) as int)) <= max,
    decreases s.len(),
{
    if utf8_len(s) <= max {
        assert(s.take(s.len() as int) =~= s);
    } else {
        lemma_fitting_prefix(s.drop_last(), max);
        let k = fitting_chars(s.drop_last(), max);
        assert(s.drop_last().take(k as int) =~= s.take(k as int));
    }
}

/// A truncated text never takes more than `max` bytes plus the marker's 15;
/// a text that fits is returned as it is.
pub proof fn law_truncated_output_bounded(s: Seq<char>, max: nat)
    ensures
        utf8_len(truncate_spec(s, max)) <= max + 15,
        utf8_len(s) <= max ==> truncate_spec(s, max) == s,
{
    if utf8_len(s) > max {
        lemma_fitting_prefix(s, max);
        reveal_strlit("\n[...truncated]");
        lemma_utf8_len_ascii(TRUNCATION_MARKER@);
        lemma_utf8_len_concat(s.take(fitting_chars(s, max) as int), TRUNCATION_MARKER@);
    }
}

/// The replacement for a `rawOutput` text that is over the limit, or `None`
/// when it fits and stays as it is.
pub fn limited_raw_output(raw: &str) -> (r: Option<String>)
    ensures
        match r {
            Some(t) => utf8_len(raw@) > MAX_RAW_OUTPUT_BYTES && t@ == truncate_spec(
                raw@,
                MAX_RAW_OUTPUT_BYTES as nat,
            ),
            None => utf8_len(raw@) <= MAX_RAW_OUTPUT_BYTES,
        },
{
    let c = chars_of(raw);
    let over = match crate::text::utf8_len_checked(c.as_slice()) {
        Some(n) => n > MAX_RAW_OUTPUT_BYTES,
        None => true,
    };
    if over {
        Some(truncate_output(raw, MAX_RAW_OUTPUT_BYTES))
    } else {
        None
    }
}

} // verus!
