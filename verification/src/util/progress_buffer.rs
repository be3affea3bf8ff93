//! Buffers partial measurement output between progress events.
//!
//! In `Append` mode pushed values accumulate per field until taken; in
//! `Overwrite` mode the last push wins; in `Diff` mode each push holds the
//! whole output so far, and a take hands out only what is new since the
//! previous take.

use vstd::prelude::*;
use crate::text::{
    byte_cut, byte_prefix, chars_eq, cut_from, lemma_utf8_len_concat, chars_of, chars_range, concat_str, string_of, utf8_len,
    utf8_len_checked,
};

verus! {

#[derive(Debug, Clone, Copy, PartialEq, Eq, Structural)]
pub enum BufferMode {
    Append,
    Diff,
    Overwrite,
}

struct Entry {
    field: String,
    value: String,
    /// Bytes of `value` already handed out (Diff mode).
    offset: usize,
}

pub struct ProgressBuffer {
    entries: Vec<Entry>,
    mode: BufferMode,
    is_first: bool,
}

/// Field name → (buffered value, bytes already handed out).
pub type BufferMap = Map<Seq<char>, (Seq<char>, nat)>;

pub struct ProgressView {
    pub buffer: BufferMap,
    pub mode: BufferMode,
    pub is_first: bool,
}

spec fn entries_map(s: Seq<Entry>) -> BufferMap
    decreases s.len(),
{
    if s.len() == 0 {
        Map::empty()
    } else {
        entries_map(s.drop_last()).insert(s.last().field@, (s.last().value@, s.last().offset as nat))
    }
}

spec fn distinct_fields(s: Seq<Entry>) -> bool {
    forall|i: int, j: int| 0 <= i < j < s.len() ==> s[i].field@ != s[j].field@
}

impl View for ProgressBuffer {
    type V = ProgressView;

    closed spec fn view(&self) -> ProgressView {
        ProgressView { buffer: entries_map(self.entries@), mode: self.mode, is_first: self.is_first }
    }
}

/// The buffer after `push(field, value)`.
pub open spec fn push_spec(v: ProgressView, field: Seq<char>, value: Seq<char>) -> ProgressView {
    match v.mode {
        BufferMode::Append => if v.buffer.contains_key(field) {
            ProgressView {
                buffer: v.buffer.insert(field, (v.buffer[field].0 + value, v.buffer[field].1)),
                ..v
            }
        } else {
            ProgressView { buffer: v.buffer.insert(field, (value, 0)), ..v }
        },
        _ => {
            let off = if v.buffer.contains_key(field) {
                v.buffer[field].1
            } else {
                0
            };
            ProgressView { buffer: v.buffer.insert(field, (value, off)), ..v }
        },
    }
}

/// What `take_progress` hands out for one field in Diff mode: the value
/// from the byte offset on.
pub open spec fn diff_part(e: (Seq<char>, nat)) -> Seq<char> {
    match byte_cut(e.0, e.1 as int) {
        Some(k) => e.0.skip(k as int),
        None => Seq::empty(),
    }
}

/// Every Diff slice lands on a character boundary and every value's size
/// fits a `usize` (`value[offset..]` panics otherwise).
pub open spec fn take_defined(v: ProgressView) -> bool {
    v.mode == BufferMode::Diff ==> forall|f: Seq<char>|
        #[trigger] v.buffer.contains_key(f) ==> byte_cut(v.buffer[f].0, v.buffer[f].1 as int) is Some
            && utf8_len(v.buffer[f].0) <= usize::MAX
}

/// What `take_progress` returns: in Diff mode the new part of every field,
/// otherwise every buffered value.
pub open spec fn taken_spec(v: ProgressView) -> Map<Seq<char>, Seq<char>> {
    match v.mode {
        BufferMode::Diff => v.buffer.map_values(|e: (Seq<char>, nat)| diff_part(e)),
        _ => v.buffer.map_values(|e: (Seq<char>, nat)| e.0),
    }
}

/// The buffer after `take_progress`: in Diff mode every offset moves to the
/// end of its value; otherwise the buffer is emptied.
pub open spec fn after_take_spec(v: ProgressView) -> ProgressView {
    match v.mode {
        BufferMode::Diff => ProgressView {
            buffer: v.buffer.map_values(|e: (Seq<char>, nat)| (e.0, utf8_len(e.0))),
            ..v
        },
        _ => ProgressView { buffer: Map::empty(), ..v },
    }
}

pub open spec fn pairs_map(s: Seq<(String, String)>) -> Map<Seq<char>, Seq<char>>
    decreases s.len(),
{
    if s.len() == 0 {
        Map::empty()
    } else {
        pairs_map(s.drop_last()).insert(s.last().0@, s.last().1@)
    }
}

pub open spec fn distinct_keys(s: Seq<(String, String)>) -> bool {
    forall|i: int, j: int| 0 <= i < j < s.len() ==> s[i].0@ != s[j].0@
}

proof fn lemma_entries_map_at(s: Seq<Entry>, i: int)
    requires
        distinct_fields(s),
        0 <= i < s.len(),
    ensures
        entries_map(s).contains_key(s[i].field@),
        entries_map(s)[s[i].field@] == (s[i].value@, s[i].offset as nat),
    decreases s.len(),
{
    if i < s.len() - 1 {
        assert(distinct_fields(s.drop_last()));
        lemma_entries_map_at(s.drop_last(), i);
        assert(s.drop_last()[i] == s[i]);
    }
}

proof fn lemma_entries_map_update(s: Seq<Entry>, i: int, e: Entry)
    requires
        distinct_fields(s),
        0 <= i < s.len(),
        e.field@ == s[i].field@,
    ensures
        entries_map(s.update(i, e)) == entries_map(s).insert(e.field@, (e.value@, e.offset as nat)),
        distinct_fields(s.update(i, e)),
    decreases s.len(),
{
    let t = s.update(i, e);
    if i == s.len() - 1 {
        assert(t.drop_last() =~= s.drop_last());
        lemma_entries_map_absent(s.drop_last(), e.field@);
        assert(entries_map(t) =~= entries_map(s).insert(e.field@, (e.value@, e.offset as nat)));
    } else {
        assert(t.drop_last() =~= s.drop_last().update(i, e));
        assert(distinct_fields(s.drop_last()));
        lemma_entries_map_update(s.drop_last(), i, e);
        assert(entries_map(t) =~= entries_map(s).insert(e.field@, (e.value@, e.offset as nat)));
    }
}


proof fn lemma_taken_diff(s0: Seq<Entry>, out: Seq<(String, String)>)
    requires
        distinct_fields(s0),
        out.len() == s0.len(),
        forall|j: int|
            #![trigger out[j]]
            0 <= j < s0.len() ==> out[j].0@ == s0[j].field@ && out[j].1@ == diff_part(
                (s0[j].value@, s0[j].offset as nat),
            ),
    ensures
        pairs_map(out) == entries_map(s0).map_values(|e: (Seq<char>, nat)| diff_part(e)),
        distinct_keys(out),
    decreases s0.len(),
{
    if s0.len() > 0 {
        let t = s0.drop_last();
        let o = out.drop_last();
        assert forall|j: int| #![trigger o[j]] 0 <= j < t.len() implies o[j].0@ == t[j].field@
            && o[j].1@ == diff_part((t[j].value@, t[j].offset as nat)) by {
            assert(o[j] == out[j]);
            assert(t[j] == s0[j]);
        }
        assert(distinct_fields(t));
        lemma_taken_diff(t, o);
        assert(out.last() == out[out.len() - 1]);
        assert(pairs_map(out) =~= entries_map(s0).map_values(|e: (Seq<char>, nat)| diff_part(e)));
    }
}

proof fn lemma_taken_plain(s0: Seq<Entry>, out: Seq<(String, String)>)
    requires
        distinct_fields(s0),
        out.len() == s0.len(),
        forall|j: int|
            #![trigger out[j]]
            0 <= j < s0.len() ==> out[j].0@ == s0[j].field@ && out[j].1@ == s0[j].value@,
    ensures
        pairs_map(out) == entries_map(s0).map_values(|e: (Seq<char>, nat)| e.0),
        distinct_keys(out),
    decreases s0.len(),
{
    if s0.len() > 0 {
        let t = s0.drop_last();
        let o = out.drop_last();
        assert forall|j: int| #![trigger o[j]] 0 <= j < t.len() implies o[j].0@ == t[j].field@
            && o[j].1@ == t[j].value@ by {
            assert(o[j] == out[j]);
            assert(t[j] == s0[j]);
        }
        assert(distinct_fields(t));
        lemma_taken_plain(t, o);
        assert(out.last() == out[out.len() - 1]);
        assert(pairs_map(out) =~= entries_map(s0).map_values(|e: (Seq<char>, nat)| e.0));
    }
}

proof fn lemma_moved_offsets(s0: Seq<Entry>, s1: Seq<Entry>)
    requires
        distinct_fields(s0),
        s1.len() == s0.len(),
        forall|j: int|
            #![trigger s1[j]]
            0 <= j < s0.len() ==> s1[j].field@ == s0[j].field@ && s1[j].value@ == s0[j].value@
                && s1[j].offset == utf8_len(s0[j].value@),
    ensures
        entries_map(s1) == entries_map(s0).map_values(|e: (Seq<char>, nat)| (e.0, utf8_len(e.0))),
        distinct_fields(s1),
    decreases s0.len(),
{
    if s0.len() > 0 {
        let t0 = s0.drop_last();
        let t1 = s1.drop_last();
        assert forall|j: int| #![trigger t1[j]] 0 <= j < t0.len() implies t1[j].field@ == t0[j].field@
            && t1[j].value@ == t0[j].value@ && t1[j].offset == utf8_len(t0[j].value@) by {
            assert(t1[j] == s1[j]);
            assert(t0[j] == s0[j]);
        }
        assert(distinct_fields(t0));
        lemma_moved_offsets(t0, t1);
        assert(s1.last() == s1[s1.len() - 1]);
        assert(entries_map(s1) =~= entries_map(s0).map_values(
            |e: (Seq<char>, nat)| (e.0, utf8_len(e.0)),
        ));
        assert forall|i: int, j: int| 0 <= i < j < s1.len() implies s1[i].field@ != s1[j].field@ by {
            assert(s1[i].field@ == s0[i].field@);
            assert(s1[j].field@ == s0[j].field@);
        }
    }
}

proof fn lemma_entries_map_absent(s: Seq<Entry>, f: Seq<char>)
    requires
        forall|i: int| 0 <= i < s.len() ==> s[i].field@ != f,
    ensures
        !entries_map(s).contains_key(f),
    decreases s.len(),
{
    if s.len() > 0 {
        assert(s.last().field@ != f);
        assert forall|i: int| 0 <= i < s.drop_last().len() implies s.drop_last()[i].field@ != f by {
            assert(s.drop_last()[i] == s[i]);
        }
        lemma_entries_map_absent(s.drop_last(), f);
    }
}

/// Every field of the map comes from some entry.
proof fn lemma_map_all(s0: Seq<Entry>)
    requires
        forall|j: int|
            #![trigger s0[j]]
            0 <= j < s0.len() ==> byte_cut(s0[j].value@, s0[j].offset as int) is Some && utf8_len(
                s0[j].value@,
            ) <= usize::MAX,
    ensures
        forall|f: Seq<char>|
            #[trigger] entries_map(s0).contains_key(f) ==> byte_cut(
                entries_map(s0)[f].0,
                entries_map(s0)[f].1 as int,
            ) is Some && utf8_len(entries_map(s0)[f].0) <= usize::MAX,
    decreases s0.len(),
{
    if s0.len() > 0 {
        let t = s0.drop_last();
        assert forall|j: int| #![trigger t[j]] 0 <= j < t.len() implies byte_cut(
            t[j].value@,
            t[j].offset as int,
        ) is Some && utf8_len(t[j].value@) <= usize::MAX by {
            assert(t[j] == s0[j]);
        }
        lemma_map_all(t);
        assert(s0.last() == s0[s0.len() - 1]);
    }
}

impl ProgressBuffer {
    #[verifier::type_invariant]
    spec fn inv(self) -> bool {
        distinct_fields(self.entries@)
    }

    pub fn new(mode: BufferMode) -> (b: Self)
        ensures
            b@.buffer == BufferMap::empty(),
            b@.mode == mode,
            b@.is_first,
    {
        ProgressBuffer { entries: Vec::new(), mode, is_first: true }
    }

    fn find(&self, field: &str) -> (r: Option<usize>)
        ensures
            match r {
                Some(i) => i < self.entries@.len() && self.entries@[i as int].field@ == field@,
                None => forall|j: int| 0 <= j < self.entries@.len() ==> self.entries@[j].field@ != field@,
            },
    {
        let f = chars_of(field);
        let mut i: usize = 0;
        while i < self.entries.len()
            invariant
                i <= self.entries@.len(),
                f@ == field@,
                forall|j: int| 0 <= j < i ==> self.entries@[j].field@ != field@,
            decreases self.entries.len() - i,
        {
            let g = chars_of(self.entries[i].field.as_str());
            if chars_eq(g.as_slice(), f.as_slice()) {
                return Some(i);
            }
            i = i + 1;
        }
        None
    }

    pub fn push(&mut self, field: &str, value: &str)
        ensures
            final(self)@ == push_spec(old(self)@, field@, value@),
    {
        proof {
            use_type_invariant(&*self);
        }
        let ghost s0 = self.entries@;
        match self.find(field) {
            Some(i) => {
                let e = &self.entries[i];
                let new_value = match self.mode {
                    BufferMode::Append => concat_str(e.value.as_str(), value),
                    _ => value.to_string(),
                };
                let ne = Entry { field: e.field.clone(), value: new_value, offset: e.offset };
                proof {
                    lemma_entries_map_at(s0, i as int);
                    lemma_entries_map_update(s0, i as int, ne);
                }
                let mut entries: Vec<Entry> = Vec::new();
                std::mem::swap(&mut entries, &mut self.entries);
                entries.set(i, ne);
                self.entries = entries;
            },
            None => {
                proof {
                    lemma_entries_map_absent(s0, field@);
                }
                let ne = Entry { field: field.to_string(), value: value.to_string(), offset: 0 };
                let mut entries: Vec<Entry> = Vec::new();
                std::mem::swap(&mut entries, &mut self.entries);
                entries.push(ne);
                assert(entries@.drop_last() =~= s0);
                self.entries = entries;
            },
        }
    }

    /// The buffered progress, as `(field, part)` pairs with distinct fields.
    pub fn take_progress(&mut self) -> (r: Vec<(String, String)>)
        requires
            take_defined(old(self)@),
        ensures
            pairs_map(r@) == taken_spec(old(self)@),
            distinct_keys(r@),
            final(self)@ == after_take_spec(old(self)@),
    {
        proof {
            use_type_invariant(&*self);
        }
        let ghost s0 = self.entries@;
        let mut entries: Vec<Entry> = Vec::new();
        std::mem::swap(&mut entries, &mut self.entries);
        let mut out: Vec<(String, String)> = Vec::new();
        let n = entries.len();
        match self.mode {
            BufferMode::Diff => {
                let mut moved: Vec<Entry> = Vec::new();
                let mut i: usize = 0;
                while i < n
                    invariant
                        i <= n == s0.len() == entries@.len(),
                        entries@ == s0,
                        distinct_fields(s0),
                        forall|f: Seq<char>|
                            #[trigger] entries_map(s0).contains_key(f) ==> byte_cut(
                                entries_map(s0)[f].0,
                                entries_map(s0)[f].1 as int,
                            ) is Some && utf8_len(entries_map(s0)[f].0) <= usize::MAX,
                        out@.len() == i,
                        moved@.len() == i,
                        forall|j: int|
                            #![trigger out@[j]]
                            0 <= j < i ==> out@[j].0@ == s0[j].field@ && out@[j].1@ == diff_part(
                                (s0[j].value@, s0[j].offset as nat),
                            ),
                        forall|j: int|
                            #![trigger moved@[j]]
                            0 <= j < i ==> moved@[j].field@ == s0[j].field@ && moved@[j].value@
                                == s0[j].value@ && moved@[j].offset == utf8_len(s0[j].value@),
                    decreases n - i,
                {
                    proof {
                        lemma_entries_map_at(s0, i as int);
                    }
                    let e = &entries[i];
                    let v = chars_of(e.value.as_str());
                    proof {
                        crate::text::lemma_cut_from_bound(v@, e.offset as int, 0);
                    }
                    let head = byte_prefix(v.as_slice(), e.offset);
                    let k = match head {
                        Some(h) => h.len(),
                        None => v.len(),
                    };
                    let part = string_of(chars_range(v.as_slice(), k, v.len()).as_slice());
                    assert(part@ =~= diff_part((s0[i as int].value@, s0[i as int].offset as nat)));
                    let len = match utf8_len_checked(v.as_slice()) {
                        Some(l) => l,
                        None => 0,
                    };
                    out.push((e.field.clone(), part));
                    moved.push(Entry { field: e.field.clone(), value: e.value.clone(), offset: len });
                    i = i + 1;
                }
                proof {
                    lemma_taken_diff(s0, out@);
                    lemma_moved_offsets(s0, moved@);
                }
                self.entries = moved;
            },
            _ => {
                let mut i: usize = 0;
                while i < n
                    invariant
                        i <= n == s0.len() == entries@.len(),
                        entries@ == s0,
                        out@.len() == i,
                        forall|j: int|
                            #![trigger out@[j]]
                            0 <= j < i ==> out@[j].0@ == s0[j].field@ && out@[j].1@ == s0[j].value@,
                    decreases n - i,
                {
                    let e = &entries[i];
                    out.push((e.field.clone(), e.value.clone()));
                    i = i + 1;
                }
                proof {
                    lemma_taken_plain(s0, out@);
                    assert(entries_map(self.entries@) =~= BufferMap::empty());
                }
            },
        }
        out
    }

    /// Whether `take_progress` may be called now (see `take_defined`).
    pub fn can_take_progress(&self) -> (b: bool)
        ensures
            b == take_defined(self@),
    {
        proof {
            use_type_invariant(self);
        }
        if self.mode != BufferMode::Diff {
            return true;
        }
        let ghost s0 = self.entries@;
        let mut i: usize = 0;
        while i < self.entries.len()
            invariant
                i <= s0.len(),
                s0 == self.entries@,
                distinct_fields(s0),
                self.mode == BufferMode::Diff,
                forall|j: int|
                    #![trigger s0[j]]
                    0 <= j < i ==> byte_cut(s0[j].value@, s0[j].offset as int) is Some && utf8_len(
                        s0[j].value@,
                    ) <= usize::MAX,
            decreases s0.len() - i,
        {
            proof {
                lemma_entries_map_at(s0, i as int);
            }
            let v = chars_of(self.entries[i].value.as_str());
            if byte_prefix(v.as_slice(), self.entries[i].offset).is_none() || utf8_len_checked(
                v.as_slice(),
            ).is_none() {
                assert(!take_defined(self@)) by {
                    let f = s0[i as int].field@;
                    assert(entries_map(s0).contains_key(f));
                }
                return false;
            }
            i = i + 1;
        }
        proof {
            lemma_map_all(s0);
        }
        true
    }

    /// `true` on the first call only.
    pub fn is_first_progress(&mut self) -> (r: bool)
        ensures
            r == old(self)@.is_first,
            final(self)@ == (ProgressView { is_first: false, ..old(self)@ }),
    {
        proof {
            use_type_invariant(&*self);
        }
        let f = self.is_first;
        self.is_first = false;
        f
    }
}


// ── Laws ──────────────────────────────────────────────────────────────────────

/// In Append mode, two pushes to a field are handed out concatenated, after
/// whatever the field already held.
pub proof fn law_append_concatenates(v: ProgressView, f: Seq<char>, a: Seq<char>, b: Seq<char>)
    requires
        v.mode == BufferMode::Append,
    ensures
        taken_spec(push_spec(push_spec(v, f, a), f, b))[f] == (if v.buffer.contains_key(f) {
            v.buffer[f].0
        } else {
            Seq::empty()
        }) + a + b,
{
    if !v.buffer.contains_key(f) {
        assert(Seq::<char>::empty() + a =~= a);
    }
}

/// In Overwrite mode the last push to a field is what is handed out.
pub proof fn law_overwrite_last_wins(v: ProgressView, f: Seq<char>, a: Seq<char>, b: Seq<char>)
    requires
        v.mode == BufferMode::Overwrite,
    ensures
        taken_spec(push_spec(push_spec(v, f, a), f, b))[f] == b,
{
}

/// Outside Diff mode a take empties the buffer.
pub proof fn law_take_empties(v: ProgressView)
    requires
        v.mode != BufferMode::Diff,
    ensures
        after_take_spec(v).buffer == BufferMap::empty(),
{
}

proof fn lemma_cut_at_prefix(w: Seq<char>, d: Seq<char>, k: int)
    requires
        0 <= k <= w.len(),
    ensures
        cut_from(w + d, utf8_len(w) as int, k) == Some(w.len()),
    decreases w.len() - k,
{
    let s = w + d;
    assert(s.take(w.len() as int) =~= w);
    if k < w.len() {
        lemma_utf8_len_concat(s.take(k), s.subrange(k, w.len() as int));
        assert(s.take(k) + s.subrange(k, w.len() as int) =~= w);
        lemma_utf8_len_pos(s.subrange(k, w.len() as int));
        lemma_cut_at_prefix(w, d, k + 1);
    }
}

proof fn lemma_utf8_len_pos(s: Seq<char>)
    requires
        s.len() > 0,
    ensures
        utf8_len(s) > 0,
{
}

/// In Diff mode, once a field has been taken, pushing its old value with
/// more appended hands out exactly the addition on the next take.
pub proof fn law_diff_hands_out_addition(v: ProgressView, f: Seq<char>, d: Seq<char>)
    requires
        v.mode == BufferMode::Diff,
        v.buffer.contains_key(f),
    ensures
        ({
            let w = v.buffer[f].0;
            let next = push_spec(after_take_spec(v), f, w + d);
            taken_spec(next)[f] == d
        }),
{
    let w = v.buffer[f].0;
    lemma_cut_at_prefix(w, d, 0);
    assert((w + d).skip(w.len() as int) =~= d);
}


/// One call on a buffer, for laws over sequences of calls.
pub enum ProgressStep {
    /// `push(field, value)`
    Push(Seq<char>, Seq<char>),
    /// `take_progress()`
    Take,
    /// `is_first_progress()`
    First,
}

/// The buffer after one call.
pub open spec fn step_spec(v: ProgressView, s: ProgressStep) -> ProgressView {
    match s {
        ProgressStep::Push(f, x) => push_spec(v, f, x),
        ProgressStep::Take => after_take_spec(v),
        ProgressStep::First => ProgressView { is_first: false, ..v },
    }
}

/// The buffer after the calls in order.
pub open spec fn run_steps(v: ProgressView, steps: Seq<ProgressStep>) -> ProgressView
    decreases steps.len(),
{
    if steps.len() == 0 {
        v
    } else {
        step_spec(run_steps(v, steps.drop_last()), steps.last())
    }
}

/// The answers of the `is_first_progress` calls among `steps`, in order.
pub open spec fn first_answers(v: ProgressView, steps: Seq<ProgressStep>) -> Seq<bool>
    decreases steps.len(),
{
    if steps.len() == 0 {
        Seq::empty()
    } else {
        let a = first_answers(v, steps.drop_last());
        match steps.last() {
            ProgressStep::First => a.push(run_steps(v, steps.drop_last()).is_first),
            _ => a,
        }
    }
}

/// A fresh buffer answers `true` to the first `is_first_progress` call and
/// `false` to every later one, whatever pushes and takes come between.
pub proof fn law_first_progress_once(v: ProgressView, steps: Seq<ProgressStep>)
    requires
        v.is_first,
    ensures
        first_answers(v, steps).len() > 0 ==> first_answers(v, steps)[0],
        forall|i: int| 0 < i < first_answers(v, steps).len() ==> !#[trigger] first_answers(v, steps)[i],
{
    lemma_first_answers(v, steps);
}

proof fn lemma_first_answers(v: ProgressView, steps: Seq<ProgressStep>)
    ensures
        forall|i: int|
            0 <= i < first_answers(v, steps).len() ==> #[trigger] first_answers(v, steps)[i] == (i == 0
                && v.is_first),
        run_steps(v, steps).is_first == (v.is_first && first_answers(v, steps).len() == 0),
    decreases steps.len(),
{
    if steps.len() > 0 {
        lemma_first_answers(v, steps.drop_last());
        let a = first_answers(v, steps.drop_last());
        assert forall|i: int|
            0 <= i < first_answers(v, steps).len() implies #[trigger] first_answers(v, steps)[i] == (i
            == 0 && v.is_first) by {
            if i < a.len() {
                assert(first_answers(v, steps)[i] == a[i]);
            }
        }
    }
}

} // verus!
