//! Machine facts reported on connect: total memory and disk space, read
//! from `/proc/meminfo` and `df` output.

use vstd::prelude::*;
use crate::text::{
    chars_of, chars_range, lines, lines_of, parse_unsigned, parse_unsigned_exec, starts_with,
    starts_with_exec, trim_end_char, trim_end_char_exec, views, words, words_of,
};

verus! {

/// The number after `MemTotal:` (its first word, read as a `u64`, else 0).
pub open spec fn mem_total_kb_of(rest: Seq<char>) -> nat {
    let w = words(rest);
    if w.len() == 0 {
        0
    } else {
        match parse_unsigned(w[0], u64::MAX as nat) {
            Some(v) => v,
            None => 0,
        }
    }
}

/// The kilobytes on the first `MemTotal:` line, if there is one.
pub open spec fn mem_total_from(ls: Seq<Seq<char>>) -> Option<nat>
    decreases ls.len(),
{
    if ls.len() == 0 {
        None
    } else if starts_with(ls[0], "MemTotal:"@) {
        Some(mem_total_kb_of(ls[0].skip(9)))
    } else {
        mem_total_from(ls.drop_first())
    }
}

/// Total memory in bytes: `MemTotal` kilobytes times 1024, or 0 without it.
pub open spec fn meminfo_total_spec(content: Seq<char>) -> nat {
    match mem_total_from(lines(content)) {
        Some(kb) => kb * 1024,
        None => 0,
    }
}

fn mem_total_kb_exec(rest: &[char]) -> (r: u64)
    ensures
        r == mem_total_kb_of(rest@),
{
    let w = words_of(rest);
    if w.len() == 0 {
        return 0;
    }
    assert(views(w@)[0] == w@[0]@);
    match parse_unsigned_exec(w[0].as_slice(), u64::MAX) {
        Some(v) => v,
        None => 0,
    }
}

fn mem_total_exec(content: &str) -> (r: Option<u64>)
    ensures
        match mem_total_from(lines(content@)) {
            Some(kb) => r matches Some(v) && v as nat == kb,
            None => r is None,
        },
{
    let c = chars_of(content);
    let ls = lines_of(c.as_slice());
    let ghost lv = views(ls@);
    let pre = chars_of("MemTotal:");
    proof {
        reveal_strlit("MemTotal:");
    }
    let mut i: usize = 0;
    assert(lv.skip(0) =~= lv);
    while i < ls.len()
        invariant
            i <= ls@.len(),
            lv == views(ls@),
            lv == lines(content@),
            pre@ == "MemTotal:"@,
            pre@.len() == 9,
            mem_total_from(lv) == mem_total_from(lv.skip(i as int)),
        decreases ls.len() - i,
    {
        assert(lv.skip(i as int)[0] == ls@[i as int]@);
        assert(lv.skip(i as int).drop_first() =~= lv.skip(i + 1));
        let line = ls[i].as_slice();
        if starts_with_exec(line, pre.as_slice()) {
            let rest = chars_range(line, 9, line.len());
            assert(rest@ =~= line@.skip(9));
            assert(mem_total_from(lv.skip(i as int)) == Some(mem_total_kb_of(line@.skip(9))));
            return Some(mem_total_kb_exec(rest.as_slice()));
        }
        i = i + 1;
    }
    assert(lv.skip(ls@.len() as int) =~= Seq::<Seq<char>>::empty());
    None
}

/// Whether `parse_meminfo_total` is defined: the bytes fit a `u64` (the
/// multiplication overflows otherwise).
pub fn meminfo_total_fits(content: &str) -> (b: bool)
    ensures
        b == (meminfo_total_spec(content@) <= u64::MAX),
{
    match mem_total_exec(content) {
        Some(kb) => {
            assert(kb <= u64::MAX / 1024 <==> kb * 1024 <= u64::MAX) by (nonlinear_arith);
            kb <= u64::MAX / 1024
        },
        None => true,
    }
}

/// Total memory in bytes from `/proc/meminfo` content.
pub fn parse_meminfo_total(content: &str) -> (r: u64)
    requires
        meminfo_total_spec(content@) <= u64::MAX,
    ensures
        r == meminfo_total_spec(content@),
{
    match mem_total_exec(content) {
        Some(kb) => {
            assert(kb * 1024 <= u64::MAX);
            kb * 1024
        },
        None => 0,
    }
}

/// A `df` figure with its `M` suffixes dropped, read as a `u64`, else 0.
pub open spec fn df_number(p: Seq<char>) -> u64 {
    match parse_unsigned(trim_end_char(p, 'M'), u64::MAX as nat) {
        Some(v) => v as u64,
        None => 0,
    }
}

/// `(total, available)` megabytes from the line after the header, or
/// `(0, 0)` when it is missing or has fewer than two columns.
pub open spec fn df_spec(output: Seq<char>) -> (u64, u64) {
    let ls = lines(output);
    if ls.len() < 2 {
        (0, 0)
    } else {
        let parts = words(ls[1]);
        if parts.len() < 2 {
            (0, 0)
        } else {
            (df_number(parts[0]), df_number(parts[1]))
        }
    }
}

fn df_number_exec(p: &[char]) -> (r: u64)
    ensures
        r == df_number(p@),
{
    let t = trim_end_char_exec(p, 'M');
    match parse_unsigned_exec(t.as_slice(), u64::MAX) {
        Some(v) => v,
        None => 0,
    }
}

/// Parse `df -BM --output=size,avail /` output.
pub fn parse_df_output(output: &str) -> (r: (u64, u64))
    ensures
        r == df_spec(output@),
{
    let c = chars_of(output);
    let ls = lines_of(c.as_slice());
    if ls.len() < 2 {
        return (0, 0);
    }
    assert(views(ls@)[1] == ls@[1]@);
    let parts = words_of(ls[1].as_slice());
    if parts.len() < 2 {
        return (0, 0);
    }
    assert(views(parts@)[0] == parts@[0]@ && views(parts@)[1] == parts@[1]@);
    (df_number_exec(parts[0].as_slice()), df_number_exec(parts[1].as_slice()))
}

} // verus!
