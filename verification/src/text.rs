//! Character-level text handling shared by the output parsers: the views that
//! describe `lines`, `split`, `split_whitespace`, `trim` and decimal numbers,
//! and executable functions proved against them.

use vstd::prelude::*;

verus! {

// ── Character classes ─────────────────────────────────────────────────────────

/// Unicode `White_Space`, the class used by `char::is_whitespace`,
/// `str::trim` and `str::split_whitespace`.
pub open spec fn is_ws(c: char) -> bool {
    let u = c as u32;
    (0x9 <= u && u <= 0xd) || u == 0x20 || u == 0x85 || u == 0xa0 || u == 0x1680 || (0x2000 <= u
        && u <= 0x200a) || u == 0x2028 || u == 0x2029 || u == 0x202f || u == 0x205f || u == 0x3000
}

pub fn char_is_ws(c: char) -> (b: bool)
    ensures
        b == is_ws(c),
{
    let u = c as u32;
    (0x9 <= u && u <= 0xd) || u == 0x20 || u == 0x85 || u == 0xa0 || u == 0x1680 || (0x2000 <= u
        && u <= 0x200a) || u == 0x2028 || u == 0x2029 || u == 0x202f || u == 0x205f || u == 0x3000
}

pub open spec fn is_digit(c: char) -> bool {
    '0' <= c && c <= '9'
}

pub open spec fn digit_value(c: char) -> nat {
    (c as u32 - '0' as u32) as nat
}

pub open spec fn is_ascii_upper(c: char) -> bool {
    'A' <= c && c <= 'Z'
}

pub open spec fn is_ascii_lower(c: char) -> bool {
    'a' <= c && c <= 'z'
}

/// `char::to_ascii_lowercase`.
pub open spec fn ascii_lower(c: char) -> char {
    if is_ascii_upper(c) {
        ((c as u32) + 32) as char
    } else {
        c
    }
}

/// `char::is_ascii_control`: U+0000–U+001F and U+007F.
pub open spec fn is_ascii_control(c: char) -> bool {
    (c as u32) < 0x20 || (c as u32) == 0x7f
}

/// `char::is_ascii_alphanumeric`.
pub open spec fn is_ascii_alnum(c: char) -> bool {
    is_digit(c) || is_ascii_upper(c) || is_ascii_lower(c)
}

/// The regex class `\w` (Unicode): in ASCII letters, digits and `_`.
pub open spec fn is_word(c: char) -> bool {
    if (c as u32) < 0x80 {
        is_ascii_alnum(c) || c == '_'
    } else {
        crate::unicode::word_above_ascii(c as u32)
    }
}

pub fn char_is_word(c: char) -> (b: bool)
    ensures
        b == is_word(c),
{
    if (c as u32) < 0x80 {
        ('0' <= c && c <= '9') || ('a' <= c && c <= 'z') || ('A' <= c && c <= 'Z') || c == '_'
    } else {
        crate::unicode::word_above_ascii_exec(c as u32)
    }
}

/// The regex class `\d` (Unicode `Nd`): in ASCII the digits `0`–`9`.
pub open spec fn is_re_digit(c: char) -> bool {
    if (c as u32) < 0x80 {
        is_digit(c)
    } else {
        crate::unicode::decimal_above_ascii(c as u32)
    }
}

pub fn char_is_re_digit(c: char) -> (b: bool)
    ensures
        b == is_re_digit(c),
{
    if (c as u32) < 0x80 {
        '0' <= c && c <= '9'
    } else {
        crate::unicode::decimal_above_ascii_exec(c as u32)
    }
}

/// A `\d` is never whitespace.
pub proof fn lemma_re_digit_not_ws(c: char)
    requires
        is_re_digit(c),
    ensures
        !is_ws(c),
{
    if (c as u32) >= 0x80 {
        crate::unicode::lemma_decimal_not_ws(c as u32);
    }
}

pub fn char_ascii_lower(c: char) -> (r: char)
    ensures
        r == ascii_lower(c),
{
    if 'A' <= c && c <= 'Z' {
        let u = (c as u32) + 32;
        assert(0x61 <= u <= 0x7a);
        let r = char_from_ascii(u);
        r
    } else {
        c
    }
}

fn char_from_ascii(u: u32) -> (c: char)
    requires
        u < 0x80,
    ensures
        c as u32 == u,
{
    let b = u as u8;
    let c = b as char;
    c
}

// ── UTF-8 length ──────────────────────────────────────────────────────────────

/// Number of bytes in the UTF-8 encoding of `c`.
pub open spec fn char_width(c: char) -> nat {
    let u = c as u32;
    if u <= 0x7f {
        1
    } else if u <= 0x7ff {
        2
    } else if u <= 0xffff {
        3
    } else {
        4
    }
}

/// Number of bytes in the UTF-8 encoding of `s` (what `str::len` returns).
pub open spec fn utf8_len(s: Seq<char>) -> nat
    decreases s.len(),
{
    if s.len() == 0 {
        0
    } else {
        utf8_len(s.drop_last()) + char_width(s.last())
    }
}

/// Text of ASCII characters takes one byte per character.
pub proof fn lemma_utf8_len_ascii(s: Seq<char>)
    requires
        forall|i: int| 0 <= i < s.len() ==> (s[i] as u32) <= 0x7f,
    ensures
        utf8_len(s) == s.len(),
    decreases s.len(),
{
    if s.len() > 0 {
        lemma_utf8_len_ascii(s.drop_last());
    }
}

pub proof fn lemma_utf8_len_concat(a: Seq<char>, b: Seq<char>)
    ensures
        utf8_len(a + b) == utf8_len(a) + utf8_len(b),
    decreases b.len(),
{
    if b.len() == 0 {
        assert(a + b =~= a);
    } else {
        assert((a + b).drop_last() =~= a + b.drop_last());
        lemma_utf8_len_concat(a, b.drop_last());
    }
}

/// `utf8_len` is the length of vstd's `encode_utf8`.
pub proof fn lemma_utf8_len_encode(s: Seq<char>)
    ensures
        utf8_len(s) == vstd::utf8::encode_utf8(s).len(),
    decreases s.len(),
{
    if s.len() > 0 {
        lemma_utf8_len_encode(s.drop_first());
        assert(s =~= seq![s[0]] + s.drop_first());
        lemma_utf8_len_concat(seq![s[0]], s.drop_first());
        assert(seq![s[0]].drop_last() =~= Seq::<char>::empty());
        vstd::utf8::char_is_scalar(s[0]);
        let u = s[0] as u32;
        let one = seq![s[0]];
        assert(one.drop_last() =~= Seq::<char>::empty());
        assert(one.last() == s[0]);
        assert(utf8_len(one.drop_last()) == 0);
        assert(utf8_len(one) == char_width(s[0]));
        if u <= 0x7f {
            assert(vstd::utf8::encode_scalar(u).len() == 1);
        } else if u <= 0x7ff {
            assert(vstd::utf8::encode_scalar(u).len() == 2);
        } else if u <= 0xffff {
            assert(!(0xD800 <= u <= 0xDFFF));
            assert(vstd::utf8::encode_scalar(u).len() == 3);
        } else {
            assert(vstd::utf8::encode_scalar(u).len() == 4);
        }
    }
}

pub fn char_width_exec(c: char) -> (w: usize)
    ensures
        w == char_width(c),
{
    let u = c as u32;
    if u <= 0x7f {
        1
    } else if u <= 0x7ff {
        2
    } else if u <= 0xffff {
        3
    } else {
        4
    }
}

// ── Sequences of characters ───────────────────────────────────────────────────

/// `s` with ASCII letters lowered (`str::to_ascii_lowercase`).
pub open spec fn seq_ascii_lower(s: Seq<char>) -> Seq<char> {
    s.map_values(|c: char| ascii_lower(c))
}

/// `a.eq_ignore_ascii_case(b)`.
pub open spec fn eq_ignore_ascii_case(a: Seq<char>, b: Seq<char>) -> bool {
    seq_ascii_lower(a) == seq_ascii_lower(b)
}

/// `pat` occurs in `s` starting at index `i`.
pub open spec fn occurs_at(s: Seq<char>, pat: Seq<char>, i: int) -> bool {
    0 <= i && i + pat.len() <= s.len() && s.subrange(i, i + pat.len()) == pat
}

/// `str::contains` for a string pattern.
pub open spec fn contains_seq(s: Seq<char>, pat: Seq<char>) -> bool {
    exists|i: int| occurs_at(s, pat, i)
}

/// `str::starts_with`.
pub open spec fn starts_with(s: Seq<char>, pat: Seq<char>) -> bool {
    occurs_at(s, pat, 0)
}

/// First index at or after `from` where `pat` occurs, or `None`.
pub open spec fn find_from(s: Seq<char>, pat: Seq<char>, from: int) -> Option<int>
    decreases s.len() + 1 - from,
{
    if from < 0 || from + pat.len() > s.len() {
        None
    } else if occurs_at(s, pat, from) {
        Some(from)
    } else {
        find_from(s, pat, from + 1)
    }
}

/// First index at or after `from` holding `c`, or `None`.
pub open spec fn find_char_from(s: Seq<char>, c: char, from: int) -> Option<int>
    decreases s.len() - from,
{
    if from < 0 || from >= s.len() {
        None
    } else if s[from] == c {
        Some(from)
    } else {
        find_char_from(s, c, from + 1)
    }
}

pub proof fn lemma_find_from(s: Seq<char>, pat: Seq<char>, from: int)
    requires
        0 <= from,
    ensures
        match find_from(s, pat, from) {
            Some(k) => from <= k && occurs_at(s, pat, k) && forall|j: int|
                from <= j < k ==> !occurs_at(s, pat, j),
            None => forall|j: int| from <= j ==> !occurs_at(s, pat, j),
        },
    decreases s.len() + 1 - from,
{
    if from + pat.len() > s.len() {
    } else if occurs_at(s, pat, from) {
    } else {
        lemma_find_from(s, pat, from + 1);
    }
}

pub proof fn lemma_find_char_from(s: Seq<char>, c: char, from: int)
    requires
        0 <= from,
    ensures
        match find_char_from(s, c, from) {
            Some(k) => from <= k < s.len() && s[k] == c && forall|j: int| from <= j < k ==> s[j] != c,
            None => forall|j: int| from <= j < s.len() ==> s[j] != c,
        },
    decreases s.len() - from,
{
    if from >= s.len() {
    } else if s[from] == c {
    } else {
        lemma_find_char_from(s, c, from + 1);
    }
}

/// `str::split(sep)` for a single-character separator: every piece, including
/// empty ones at either end.
pub open spec fn split_on(s: Seq<char>, sep: char) -> Seq<Seq<char>>
    decreases s.len(),
{
    if s.len() == 0 {
        seq![Seq::<char>::empty()]
    } else {
        let prev = split_on(s.drop_last(), sep);
        if s.last() == sep {
            prev.push(Seq::<char>::empty())
        } else {
            prev.update(prev.len() - 1, prev.last().push(s.last()))
        }
    }
}

pub proof fn lemma_split_on_len(s: Seq<char>, sep: char)
    ensures
        split_on(s, sep).len() >= 1,
    decreases s.len(),
{
    if s.len() > 0 {
        lemma_split_on_len(s.drop_last(), sep);
    }
}

/// Drops one `'\r'` at the end, if there is one.
pub open spec fn strip_cr(s: Seq<char>) -> Seq<char> {
    if s.len() > 0 && s.last() == '\r' {
        s.drop_last()
    } else {
        s
    }
}

/// `str::lines`: pieces between `'\n'`, a `'\r'` before a `'\n'` removed, and
/// no empty piece after a final `'\n'`.
pub open spec fn lines(s: Seq<char>) -> Seq<Seq<char>> {
    if s.len() == 0 {
        Seq::empty()
    } else {
        let p = split_on(s, '\n');
        let body = p.drop_last().map_values(|l: Seq<char>| strip_cr(l));
        if p.last().len() == 0 {
            body
        } else {
            body.push(p.last())
        }
    }
}

/// Left fold behind `split_whitespace`: the words completed so far and the
/// word being read.
pub open spec fn ws_split(s: Seq<char>) -> (Seq<Seq<char>>, Seq<char>)
    decreases s.len(),
{
    if s.len() == 0 {
        (Seq::empty(), Seq::empty())
    } else {
        let (done, cur) = ws_split(s.drop_last());
        if is_ws(s.last()) {
            if cur.len() > 0 {
                (done.push(cur), Seq::empty())
            } else {
                (done, cur)
            }
        } else {
            (done, cur.push(s.last()))
        }
    }
}

/// `str::split_whitespace`: the maximal runs of non-whitespace characters.
pub open spec fn words(s: Seq<char>) -> Seq<Seq<char>> {
    let (done, cur) = ws_split(s);
    if cur.len() > 0 {
        done.push(cur)
    } else {
        done
    }
}

/// `str::trim_start`.
pub open spec fn trim_start(s: Seq<char>) -> Seq<char>
    decreases s.len(),
{
    if s.len() > 0 && is_ws(s[0]) {
        trim_start(s.drop_first())
    } else {
        s
    }
}

/// `str::trim_end`.
pub open spec fn trim_end(s: Seq<char>) -> Seq<char>
    decreases s.len(),
{
    if s.len() > 0 && is_ws(s.last()) {
        trim_end(s.drop_last())
    } else {
        s
    }
}

/// `str::trim`.
pub open spec fn trim(s: Seq<char>) -> Seq<char> {
    trim_end(trim_start(s))
}

/// `str::trim_end_matches(c)` for a single character.
pub open spec fn trim_end_char(s: Seq<char>, c: char) -> Seq<char>
    decreases s.len(),
{
    if s.len() > 0 && s.last() == c {
        trim_end_char(s.drop_last(), c)
    } else {
        s
    }
}

/// `str::trim_start_matches(c)` for a single character.
pub open spec fn trim_start_char(s: Seq<char>, c: char) -> Seq<char>
    decreases s.len(),
{
    if s.len() > 0 && s[0] == c {
        trim_start_char(s.drop_first(), c)
    } else {
        s
    }
}

/// Joins `parts` with `sep` between neighbours (`[T]::join`).
pub open spec fn join(parts: Seq<Seq<char>>, sep: Seq<char>) -> Seq<char>
    decreases parts.len(),
{
    if parts.len() == 0 {
        Seq::empty()
    } else if parts.len() == 1 {
        parts[0]
    } else {
        join(parts.drop_last(), sep) + sep + parts.last()
    }
}

// ── Decimal numbers ───────────────────────────────────────────────────────────

pub open spec fn all_digits(s: Seq<char>) -> bool {
    forall|i: int| 0 <= i < s.len() ==> is_digit(#[trigger] s[i])
}

/// Value of a run of ASCII digits.
pub open spec fn digits_value(s: Seq<char>) -> nat
    decreases s.len(),
{
    if s.len() == 0 {
        0
    } else {
        digits_value(s.drop_last()) * 10 + digit_value(s.last())
    }
}

/// `str::parse` for an unsigned integer type whose largest value is `max`:
/// an optional `'+'`, then one or more ASCII digits, within range.
pub open spec fn parse_unsigned(s: Seq<char>, max: nat) -> Option<nat> {
    let d = if s.len() > 0 && s[0] == '+' {
        s.drop_first()
    } else {
        s
    };
    if d.len() > 0 && all_digits(d) && digits_value(d) <= max {
        Some(digits_value(d))
    } else {
        None
    }
}

pub open spec fn digit_char(d: nat) -> char {
    (('0' as u32) + d) as char
}

/// Decimal rendering of `n`, as `to_string` writes it.
pub open spec fn decimal(n: nat) -> Seq<char>
    decreases n,
{
    if n < 10 {
        seq![digit_char(n)]
    } else {
        decimal(n / 10).push(digit_char(n % 10))
    }
}

// ── Executable helpers ────────────────────────────────────────────────────────

/// Appends one character (`String::push`).
#[verifier::external_body]
pub(crate) fn push_char(s: &mut String, c: char)
    ensures
        final(s)@ == old(s)@.push(c),
{
    s.push(c);
}

/// The characters of `s`.
pub fn chars_of(s: &str) -> (v: Vec<char>)
    ensures
        v@ == s@,
{
    let mut v: Vec<char> = Vec::new();
    broadcast use vstd::string::group_string_axioms;
    for c in it: s.chars()
        invariant
            it.seq() == s@,
            v@ == s@.take(it.index() as int),
    {
        v.push(c);
    }
    assert(s@.take(s@.len() as int) == s@);
    v
}

/// A `String` holding exactly the characters `v`.
pub fn string_of(v: &[char]) -> (s: String)
    ensures
        s@ == v@,
{
    let s = string_of_range(v, 0, v.len());
    assert(v@.subrange(0, v@.len() as int) =~= v@);
    s
}

/// A `String` holding the characters `v[from..to]`.
pub fn string_of_range(v: &[char], from: usize, to: usize) -> (s: String)
    requires
        from <= to <= v@.len(),
    ensures
        s@ == v@.subrange(from as int, to as int),
{
    let mut s = String::new();
    let mut i: usize = from;
    assert(s@ =~= v@.subrange(from as int, from as int));
    while i < to
        invariant
            from <= i <= to <= v@.len(),
            s@ == v@.subrange(from as int, i as int),
        decreases to - i,
    {
        push_char(&mut s, v[i]);
        assert(v@.subrange(from as int, i + 1) =~= v@.subrange(from as int, i as int).push(
            v@[i as int],
        ));
        i = i + 1;
    }
    s
}

/// The characters `v[from..to]`.
pub fn chars_range(v: &[char], from: usize, to: usize) -> (r: Vec<char>)
    requires
        from <= to <= v@.len(),
    ensures
        r@ == v@.subrange(from as int, to as int),
{
    let mut r: Vec<char> = Vec::new();
    let mut i: usize = from;
    assert(r@ =~= v@.subrange(from as int, from as int));
    while i < to
        invariant
            from <= i <= to <= v@.len(),
            r@ == v@.subrange(from as int, i as int),
        decreases to - i,
    {
        r.push(v[i]);
        assert(r@ =~= v@.subrange(from as int, i + 1));
        i = i + 1;
    }
    r
}


/// The character views of a sequence of character vectors.
pub open spec fn views(v: Seq<Vec<char>>) -> Seq<Seq<char>> {
    v.map_values(|x: Vec<char>| x@)
}

/// `s.split(sep)` for a single-character separator.
pub fn split_chars(s: &[char], sep: char) -> (r: Vec<Vec<char>>)
    ensures
        views(r@) == split_on(s@, sep),
{
    let mut pieces: Vec<Vec<char>> = Vec::new();
    let mut cur: Vec<char> = Vec::new();
    let mut i: usize = 0;
    assert(s@.take(0) =~= Seq::<char>::empty());
    assert(views(pieces@).push(cur@) =~= split_on(s@.take(0), sep));
    while i < s.len()
        invariant
            i <= s.len(),
            views(pieces@).push(cur@) == split_on(s@.take(i as int), sep),
        decreases s.len() - i,
    {
        let ghost t = s@.take(i + 1);
        assert(t.drop_last() =~= s@.take(i as int));
        let c = s[i];
        if c == sep {
            let ghost old_pieces = pieces@;
            pieces.push(cur);
            cur = Vec::new();
            assert(views(pieces@) =~= views(old_pieces).push(pieces@.last()@));
            assert(views(pieces@).push(cur@) =~= split_on(t, sep));
        } else {
            let ghost old_cur = cur@;
            cur.push(c);
            assert(views(pieces@).push(cur@) =~= split_on(t, sep));
        }
        i = i + 1;
    }
    assert(s@.take(s.len() as int) =~= s@);
    let ghost before = views(pieces@).push(cur@);
    pieces.push(cur);
    assert(views(pieces@) =~= before);
    pieces
}

/// `s.lines()`.
pub fn lines_of(s: &[char]) -> (r: Vec<Vec<char>>)
    ensures
        views(r@) == lines(s@),
{
    if s.len() == 0 {
        let r: Vec<Vec<char>> = Vec::new();
        assert(views(r@) =~= lines(s@));
        return r;
    }
    let p = split_chars(s, '\n');
    proof {
        lemma_split_on_len(s@, '\n');
    }
    let ghost pv = views(p@);
    let n = p.len();
    let mut r: Vec<Vec<char>> = Vec::new();
    let mut i: usize = 0;
    while i + 1 < n
        invariant
            n == p@.len(),
            n >= 1,
            pv == views(p@),
            i + 1 <= n,
            views(r@) == pv.take(i as int).map_values(|l: Seq<char>| strip_cr(l)),
        decreases n - i,
    {
        let line = &p[i];
        let mut v: Vec<char> = line.clone();
        let len = v.len();
        if len > 0 && v[len - 1] == '\r' {
            v.pop();
        }
        assert(v@ == strip_cr(pv[i as int]));
        let ghost old_r = r@;
        r.push(v);
        assert(views(r@) =~= views(old_r).push(v@));
        assert(pv.take(i + 1) =~= pv.take(i as int).push(pv[i as int]));
        assert(views(r@) =~= pv.take(i + 1).map_values(|l: Seq<char>| strip_cr(l)));
        i = i + 1;
    }
    assert(pv.take(i as int) =~= pv.drop_last());
    let last = &p[n - 1];
    if last.len() > 0 {
        let ghost old_r = r@;
        r.push(last.clone());
        assert(views(r@) =~= views(old_r).push(pv.last()));
    }
    r
}

/// `s.split_whitespace()`.
pub fn words_of(s: &[char]) -> (r: Vec<Vec<char>>)
    ensures
        views(r@) == words(s@),
{
    let mut done: Vec<Vec<char>> = Vec::new();
    let mut cur: Vec<char> = Vec::new();
    let mut i: usize = 0;
    assert(s@.take(0) =~= Seq::<char>::empty());
    while i < s.len()
        invariant
            i <= s.len(),
            ws_split(s@.take(i as int)) == (views(done@), cur@),
        decreases s.len() - i,
    {
        let ghost t = s@.take(i + 1);
        assert(t.drop_last() =~= s@.take(i as int));
        let c = s[i];
        if char_is_ws(c) {
            if cur.len() > 0 {
                let ghost old_done = done@;
                done.push(cur);
                cur = Vec::new();
                assert(views(done@) =~= views(old_done).push(done@.last()@));
            }
        } else {
            cur.push(c);
        }
        assert(ws_split(t) == (views(done@), cur@));
        i = i + 1;
    }
    assert(s@.take(s.len() as int) =~= s@);
    if cur.len() > 0 {
        let ghost old_done = done@;
        done.push(cur);
        assert(views(done@) =~= views(old_done).push(done@.last()@));
    }
    done
}

/// `s.trim()`.
pub fn trim_chars(s: &[char]) -> (r: Vec<char>)
    ensures
        r@ == trim(s@),
{
    let mut start: usize = 0;
    assert(s@.skip(0) =~= s@);
    while start < s.len() && char_is_ws(s[start])
        invariant
            start <= s.len(),
            trim_start(s@) == trim_start(s@.skip(start as int)),
        decreases s.len() - start,
    {
        assert(s@.skip(start as int).drop_first() =~= s@.skip(start + 1));
        start = start + 1;
    }
    let ghost ts = s@.skip(start as int);
    assert(trim_start(s@) == ts);
    let mut end: usize = s.len();
    while end > start && char_is_ws(s[end - 1])
        invariant
            start <= end <= s.len(),
            trim_end(ts) == trim_end(s@.subrange(start as int, end as int)),
        decreases end,
    {
        assert(s@.subrange(start as int, end as int).drop_last() =~= s@.subrange(
            start as int,
            end - 1,
        ));
        end = end - 1;
    }
    assert(trim_end(ts) == s@.subrange(start as int, end as int));
    let mut r: Vec<char> = Vec::new();
    let mut k: usize = start;
    while k < end
        invariant
            start <= k <= end <= s.len(),
            r@ == s@.subrange(start as int, k as int),
        decreases end - k,
    {
        r.push(s[k]);
        assert(r@ =~= s@.subrange(start as int, k + 1));
        k = k + 1;
    }
    assert(ts =~= s@.skip(start as int));
    r
}

/// Whether `pat` occurs in `s` at index `i`.
pub fn occurs_at_exec(s: &[char], pat: &[char], i: usize) -> (b: bool)
    ensures
        b == occurs_at(s@, pat@, i as int),
{
    if i > s.len() || pat.len() > s.len() - i {
        return false;
    }
    let mut k: usize = 0;
    while k < pat.len()
        invariant
            i + pat.len() <= s.len(),
            k <= pat.len(),
            forall|j: int| 0 <= j < k ==> s@[i + j] == pat@[j],
        decreases pat.len() - k,
    {
        if s[i + k] != pat[k] {
            assert(s@.subrange(i as int, i + pat.len())[k as int] != pat@[k as int]);
            return false;
        }
        k = k + 1;
    }
    assert(s@.subrange(i as int, i + pat.len()) =~= pat@);
    true
}

/// First index at or after `from` where `pat` occurs.
pub fn find_exec(s: &[char], pat: &[char], from: usize) -> (r: Option<usize>)
    ensures
        r matches Some(k) ==> find_from(s@, pat@, from as int) == Some(k as int),
        r is None ==> find_from(s@, pat@, from as int) is None,
{
    if pat.len() > s.len() || from > s.len() - pat.len() {
        return None;
    }
    let last = s.len() - pat.len();
    let mut i = from;
    while i <= last
        invariant
            from <= i,
            last == s.len() - pat.len(),
            find_from(s@, pat@, from as int) == find_from(s@, pat@, i as int),
        decreases last + 1 - i,
    {
        if occurs_at_exec(s, pat, i) {
            return Some(i);
        }
        if i == last {
            assert(find_from(s@, pat@, i + 1) is None);
            return None;
        }
        i = i + 1;
    }
    None
}

/// First index at or after `from` holding `c`.
pub fn find_char_exec(s: &[char], c: char, from: usize) -> (r: Option<usize>)
    ensures
        r matches Some(k) ==> find_char_from(s@, c, from as int) == Some(k as int),
        r is None ==> find_char_from(s@, c, from as int) is None,
{
    let mut i = from;
    while i < s.len()
        invariant
            from <= i,
            find_char_from(s@, c, from as int) == find_char_from(s@, c, i as int),
        decreases s.len() - i,
    {
        if s[i] == c {
            return Some(i);
        }
        i = i + 1;
    }
    None
}

/// `str::parse` for an unsigned integer type whose largest value is `max`.
pub fn parse_unsigned_exec(s: &[char], max: u64) -> (r: Option<u64>)
    ensures
        match parse_unsigned(s@, max as nat) {
            Some(v) => r == Some(v as u64),
            None => r is None,
        },
{
    let start: usize = if s.len() > 0 && s[0] == '+' { 1 } else { 0 };
    let ghost d = if s@.len() > 0 && s@[0] == '+' { s@.drop_first() } else { s@ };
    assert(d =~= s@.skip(start as int));
    if start >= s.len() {
        return None;
    }
    let mut acc: u64 = 0;
    let mut over = false;
    let mut i = start;
    assert(d.take(0) =~= Seq::<char>::empty());
    while i < s.len()
        invariant
            start <= i <= s.len(),
            d =~= s@.skip(start as int),
            d == (if s@.len() > 0 && s@[0] == '+' { s@.drop_first() } else { s@ }),
            all_digits(d.take(i - start)),
            over ==> digits_value(d.take(i - start)) > max,
            !over ==> acc == digits_value(d.take(i - start)) && acc <= max,
        decreases s.len() - i,
    {
        let c = s[i];
        if !('0' <= c && c <= '9') {
            assert(d[i - start] == c);
            assert(!is_digit(d[(i - start) as int]));
            assert(!all_digits(d));
            assert(parse_unsigned(s@, max as nat) is None);
            return None;
        }
        let dv = (c as u32 - '0' as u32) as u64;
        assert(d.take(i + 1 - start).drop_last() =~= d.take(i - start));
        assert(d.take(i + 1 - start).last() == c);
        if !over {
            if dv > max {
                over = true;
            } else if acc > (max - dv) / 10 {
                over = true;
                assert(acc * 10 + dv > max) by (nonlinear_arith)
                    requires
                        acc > (max - dv) / 10,
                        dv <= max,
                ;
            } else {
                assert(acc * 10 + dv <= max) by (nonlinear_arith)
                    requires acc <= (max - dv) / 10, dv <= 9;
                acc = acc * 10 + dv;
            }
        }
        i = i + 1;
    }
    assert(d.take(s.len() - start) =~= d);
    if over {
        None
    } else {
        Some(acc)
    }
}

fn digit_to_char(d: u64) -> (c: char)
    requires
        d < 10,
    ensures
        c == digit_char(d as nat),
{
    char_from_ascii(48 + d as u32)
}

/// Decimal digits of `n`.
pub fn decimal_chars(n: u64) -> (r: Vec<char>)
    ensures
        r@ == decimal(n as nat),
    decreases n,
{
    if n < 10 {
        let mut r: Vec<char> = Vec::new();
        r.push(digit_to_char(n));
        assert(r@ =~= decimal(n as nat));
        r
    } else {
        let mut r = decimal_chars(n / 10);
        r.push(digit_to_char(n % 10));
        r
    }
}

/// `n.to_string()`.
pub fn u64_to_string(n: u64) -> (s: String)
    ensures
        s@ == decimal(n as nat),
{
    let v = decimal_chars(n);
    string_of(v.as_slice())
}


// ── Floating-point literals ───────────────────────────────────────────────────

/// `[+-]?` at `i`: where what follows it starts.
pub open spec fn after_sign(s: Seq<char>, i: int) -> int {
    if 0 <= i < s.len() && (s[i] == '+' || s[i] == '-') {
        i + 1
    } else {
        i
    }
}

/// `Number ::= ( Digit+ | Digit+ '.' Digit* | Digit* '.' Digit+ ) Exp?`,
/// `Exp ::= 'e' Sign? Digit+`, on the whole of `s` (already lowercased).
pub open spec fn float_number(s: Seq<char>) -> bool {
    let d1 = digit_run(s, 0) as int;
    let has_point = d1 < s.len() && s[d1] == '.';
    let d2 = if has_point {
        digit_run(s, d1 + 1) as int
    } else {
        0
    };
    let m = if has_point {
        d1 + 1 + d2
    } else {
        d1
    };
    let e = after_sign(s, m + 1);
    d1 + d2 >= 1 && (m == s.len() || (m < s.len() && s[m] == 'e' && digit_run(s, e) >= 1 && e
        + digit_run(s, e) == s.len()))
}

/// The strings `str::parse::<f64>` accepts, as its documentation gives the
/// grammar: `Sign? ( 'inf' | 'infinity' | 'nan' | Number )`, letters in
/// either case.
pub open spec fn float_text(s: Seq<char>) -> bool {
    let t = seq_ascii_lower(s);
    let r = t.skip(after_sign(t, 0));
    r == "inf"@ || r == "infinity"@ || r == "nan"@ || float_number(r)
}

fn lower_chars(s: &[char]) -> (r: Vec<char>)
    ensures
        r@ == seq_ascii_lower(s@),
{
    let mut r: Vec<char> = Vec::new();
    let mut i: usize = 0;
    while i < s.len()
        invariant
            i <= s@.len(),
            r@ == seq_ascii_lower(s@.take(i as int)),
        decreases s.len() - i,
    {
        r.push(char_ascii_lower(s[i]));
        assert(seq_ascii_lower(s@.take(i + 1)) =~= seq_ascii_lower(s@.take(i as int)).push(
            ascii_lower(s@[i as int]),
        ));
        i = i + 1;
    }
    assert(s@.take(s@.len() as int) =~= s@);
    r
}

fn float_number_exec(s: &[char]) -> (b: bool)
    ensures
        b == float_number(s@),
{
    proof {
        lemma_digit_run_bound(s@, 0);
    }
    let len = s.len();
    let d1 = digit_run_exec(s, 0);
    let has_point = d1 < len && s[d1] == '.';
    let mut d2: usize = 0;
    if has_point {
        proof {
            lemma_digit_run_bound(s@, d1 + 1);
        }
        d2 = digit_run_exec(s, d1 + 1);
    }
    let m = if has_point {
        d1 + 1 + d2
    } else {
        d1
    };
    if d1 + d2 < 1 {
        return false;
    }
    if m == len {
        return true;
    }
    if s[m] != 'e' {
        return false;
    }
    let e = if m + 1 < len && (s[m + 1] == '+' || s[m + 1] == '-') {
        m + 2
    } else {
        m + 1
    };
    proof {
        lemma_digit_run_bound(s@, e as int);
    }
    let d3 = digit_run_exec(s, e);
    d3 >= 1 && e + d3 == len
}

/// Whether `str::parse::<f64>` accepts `s`.
pub fn float_text_exec(s: &[char]) -> (b: bool)
    ensures
        b == float_text(s@),
{
    let t = lower_chars(s);
    let start: usize = if t.len() > 0 && (t[0] == '+' || t[0] == '-') {
        1
    } else {
        0
    };
    let r = chars_range(t.as_slice(), start, t.len());
    assert(r@ =~= t@.skip(after_sign(t@, 0)));
    let inf = chars_of("inf");
    let infinity = chars_of("infinity");
    let nan = chars_of("nan");
    chars_eq(r.as_slice(), inf.as_slice()) || chars_eq(r.as_slice(), infinity.as_slice())
        || chars_eq(r.as_slice(), nan.as_slice()) || float_number_exec(r.as_slice())
}

// ── Character runs ────────────────────────────────────────────────────────────

/// Length of the run of whitespace starting at `i`.
pub open spec fn ws_run(s: Seq<char>, i: int) -> nat
    decreases s.len() - i,
{
    if 0 <= i < s.len() && is_ws(s[i]) {
        1 + ws_run(s, i + 1)
    } else {
        0
    }
}

/// Length of the run of non-whitespace starting at `i`.
pub open spec fn nonws_run(s: Seq<char>, i: int) -> nat
    decreases s.len() - i,
{
    if 0 <= i < s.len() && !is_ws(s[i]) {
        1 + nonws_run(s, i + 1)
    } else {
        0
    }
}

/// Length of the run of ASCII digits starting at `i`.
pub open spec fn digit_run(s: Seq<char>, i: int) -> nat
    decreases s.len() - i,
{
    if 0 <= i < s.len() && is_digit(s[i]) {
        1 + digit_run(s, i + 1)
    } else {
        0
    }
}

pub proof fn lemma_ws_run_bound(s: Seq<char>, i: int)
    requires
        0 <= i <= s.len(),
    ensures
        i + ws_run(s, i) <= s.len(),
        forall|j: int| i <= j < i + ws_run(s, i) ==> is_ws(#[trigger] s[j]),
        i + ws_run(s, i) < s.len() ==> !is_ws(s[i + ws_run(s, i)]),
    decreases s.len() - i,
{
    if i < s.len() && is_ws(s[i]) {
        lemma_ws_run_bound(s, i + 1);
    }
}

pub proof fn lemma_nonws_run_bound(s: Seq<char>, i: int)
    requires
        0 <= i <= s.len(),
    ensures
        i + nonws_run(s, i) <= s.len(),
        forall|j: int| i <= j < i + nonws_run(s, i) ==> !is_ws(#[trigger] s[j]),
        i + nonws_run(s, i) < s.len() ==> is_ws(s[i + nonws_run(s, i)]),
    decreases s.len() - i,
{
    if i < s.len() && !is_ws(s[i]) {
        lemma_nonws_run_bound(s, i + 1);
    }
}

/// Length of the run of `\d` characters starting at `i`.
pub open spec fn re_digit_run(s: Seq<char>, i: int) -> nat
    decreases s.len() - i,
{
    if 0 <= i < s.len() && is_re_digit(s[i]) {
        1 + re_digit_run(s, i + 1)
    } else {
        0
    }
}

pub proof fn lemma_re_digit_run_bound(s: Seq<char>, i: int)
    requires
        0 <= i <= s.len(),
    ensures
        i + re_digit_run(s, i) <= s.len(),
        forall|j: int| i <= j < i + re_digit_run(s, i) ==> is_re_digit(#[trigger] s[j]),
        forall|j: int| i <= j < i + re_digit_run(s, i) ==> !is_ws(#[trigger] s[j]),
        i + re_digit_run(s, i) < s.len() ==> !is_re_digit(s[i + re_digit_run(s, i)]),
    decreases s.len() - i,
{
    if i < s.len() && is_re_digit(s[i]) {
        lemma_re_digit_run_bound(s, i + 1);
        lemma_re_digit_not_ws(s[i]);
    }
}

pub fn re_digit_run_exec(s: &[char], i: usize) -> (n: usize)
    requires
        i <= s@.len(),
    ensures
        n == re_digit_run(s@, i as int),
{
    let mut j = i;
    while j < s.len() && char_is_re_digit(s[j])
        invariant
            i <= j <= s@.len(),
            re_digit_run(s@, i as int) == (j - i) + re_digit_run(s@, j as int),
        decreases s.len() - j,
    {
        j = j + 1;
    }
    j - i
}

pub proof fn lemma_digit_run_bound(s: Seq<char>, i: int)
    requires
        0 <= i <= s.len(),
    ensures
        i + digit_run(s, i) <= s.len(),
        forall|j: int| i <= j < i + digit_run(s, i) ==> is_digit(#[trigger] s[j]),
        i + digit_run(s, i) < s.len() ==> !is_digit(s[i + digit_run(s, i)]),
    decreases s.len() - i,
{
    if i < s.len() && is_digit(s[i]) {
        lemma_digit_run_bound(s, i + 1);
    }
}

pub fn ws_run_exec(s: &[char], i: usize) -> (n: usize)
    requires
        i <= s@.len(),
    ensures
        n == ws_run(s@, i as int),
{
    let mut j = i;
    while j < s.len() && char_is_ws(s[j])
        invariant
            i <= j <= s@.len(),
            ws_run(s@, i as int) == (j - i) + ws_run(s@, j as int),
        decreases s.len() - j,
    {
        j = j + 1;
    }
    j - i
}

pub fn nonws_run_exec(s: &[char], i: usize) -> (n: usize)
    requires
        i <= s@.len(),
    ensures
        n == nonws_run(s@, i as int),
{
    let mut j = i;
    while j < s.len() && !char_is_ws(s[j])
        invariant
            i <= j <= s@.len(),
            nonws_run(s@, i as int) == (j - i) + nonws_run(s@, j as int),
        decreases s.len() - j,
    {
        j = j + 1;
    }
    j - i
}

pub fn digit_run_exec(s: &[char], i: usize) -> (n: usize)
    requires
        i <= s@.len(),
    ensures
        n == digit_run(s@, i as int),
{
    let mut j = i;
    while j < s.len() && '0' <= s[j] && s[j] <= '9'
        invariant
            i <= j <= s@.len(),
            digit_run(s@, i as int) == (j - i) + digit_run(s@, j as int),
        decreases s.len() - j,
    {
        j = j + 1;
    }
    j - i
}

/// Whether `s` starts with `pat`.
pub fn starts_with_exec(s: &[char], pat: &[char]) -> (b: bool)
    ensures
        b == starts_with(s@, pat@),
{
    occurs_at_exec(s, pat, 0)
}

/// Whether `pat` occurs anywhere in `s`.
pub fn contains_exec(s: &[char], pat: &[char]) -> (b: bool)
    ensures
        b == contains_seq(s@, pat@),
{
    proof {
        lemma_find_from(s@, pat@, 0);
    }
    match find_exec(s, pat, 0) {
        Some(k) => {
            assert(occurs_at(s@, pat@, k as int));
            true
        },
        None => false,
    }
}

/// Character-wise equality.
pub fn chars_eq(a: &[char], b: &[char]) -> (r: bool)
    ensures
        r == (a@ == b@),
{
    if a.len() != b.len() {
        return false;
    }
    let mut i: usize = 0;
    while i < a.len()
        invariant
            i <= a@.len() == b@.len(),
            forall|j: int| 0 <= j < i ==> a@[j] == b@[j],
        decreases a.len() - i,
    {
        if a[i] != b[i] {
            return false;
        }
        i = i + 1;
    }
    assert(a@ =~= b@);
    true
}

/// `a.eq_ignore_ascii_case(b)`.
pub fn eq_ignore_ascii_case_exec(a: &[char], b: &[char]) -> (r: bool)
    ensures
        r == eq_ignore_ascii_case(a@, b@),
{
    if a.len() != b.len() {
        assert(seq_ascii_lower(a@).len() != seq_ascii_lower(b@).len());
        return false;
    }
    let mut i: usize = 0;
    while i < a.len()
        invariant
            i <= a@.len() == b@.len(),
            forall|j: int| 0 <= j < i ==> ascii_lower(a@[j]) == ascii_lower(b@[j]),
        decreases a.len() - i,
    {
        if char_ascii_lower(a[i]) != char_ascii_lower(b[i]) {
            assert(seq_ascii_lower(a@)[i as int] != seq_ascii_lower(b@)[i as int]);
            return false;
        }
        i = i + 1;
    }
    assert(seq_ascii_lower(a@) =~= seq_ascii_lower(b@));
    true
}

/// `parts.join(sep)`.
pub fn join_exec(parts: &[Vec<char>], sep: &[char]) -> (r: Vec<char>)
    ensures
        r@ == join(views(parts@), sep@),
{
    let mut r: Vec<char> = Vec::new();
    let mut i: usize = 0;
    let ghost pv = views(parts@);
    assert(pv.take(0) =~= Seq::<Seq<char>>::empty());
    while i < parts.len()
        invariant
            i <= parts@.len(),
            pv == views(parts@),
            r@ == join(pv.take(i as int), sep@),
        decreases parts.len() - i,
    {
        let ghost prev = r@;
        if i > 0 {
            let mut k: usize = 0;
            while k < sep.len()
                invariant
                    k <= sep@.len(),
                    r@ == prev + sep@.take(k as int),
                decreases sep.len() - k,
            {
                r.push(sep[k]);
                assert(r@ =~= prev + sep@.take(k + 1));
                k = k + 1;
            }
            assert(sep@.take(sep@.len() as int) =~= sep@);
        }
        let ghost mid = r@;
        let p = &parts[i];
        let mut k: usize = 0;
        assert(r@ =~= mid + p@.take(0));
        while k < p.len()
            invariant
                k <= p@.len(),
                r@ == mid + p@.take(k as int),
            decreases p.len() - k,
        {
            r.push(p[k]);
            assert(r@ =~= mid + p@.take(k + 1));
            k = k + 1;
        }
        assert(p@.take(p@.len() as int) =~= p@);
        assert(pv.take(i + 1).drop_last() =~= pv.take(i as int));
        assert(pv[i as int] == p@);
        if i == 0 {
            assert(pv.take(1) =~= seq![p@]);
            assert(r@ =~= p@);
        }
        i = i + 1;
    }
    assert(pv.take(parts@.len() as int) =~= pv);
    r
}


// ── More helpers ──────────────────────────────────────────────────────────────

pub open spec fn opt_view(o: Option<String>) -> Option<Seq<char>> {
    match o {
        Some(s) => Some(s@),
        None => None,
    }
}

pub open spec fn opt_chars_view(o: Option<Vec<char>>) -> Option<Seq<char>> {
    match o {
        Some(v) => Some(v@),
        None => None,
    }
}

/// `s.strip_prefix(pat)`.
pub open spec fn strip_prefix(s: Seq<char>, pat: Seq<char>) -> Option<Seq<char>> {
    if starts_with(s, pat) {
        Some(s.skip(pat.len() as int))
    } else {
        None
    }
}

pub fn strip_prefix_exec(s: &[char], pat: &[char]) -> (r: Option<Vec<char>>)
    ensures
        opt_chars_view(r) == strip_prefix(s@, pat@),
{
    if starts_with_exec(s, pat) {
        let r = chars_range(s, pat.len(), s.len());
        assert(r@ =~= s@.skip(pat@.len() as int));
        Some(r)
    } else {
        None
    }
}

pub fn trim_end_char_exec(s: &[char], c: char) -> (r: Vec<char>)
    ensures
        r@ == trim_end_char(s@, c),
{
    let mut end: usize = s.len();
    assert(s@.take(end as int) =~= s@);
    while end > 0 && s[end - 1] == c
        invariant
            end <= s@.len(),
            trim_end_char(s@, c) == trim_end_char(s@.take(end as int), c),
        decreases end,
    {
        assert(s@.take(end as int).drop_last() =~= s@.take(end - 1));
        end = end - 1;
    }
    let r = chars_range(s, 0, end);
    assert(r@ =~= s@.take(end as int));
    r
}

pub fn trim_start_char_exec(s: &[char], c: char) -> (r: Vec<char>)
    ensures
        r@ == trim_start_char(s@, c),
{
    let mut start: usize = 0;
    assert(s@.skip(0) =~= s@);
    while start < s.len() && s[start] == c
        invariant
            start <= s@.len(),
            trim_start_char(s@, c) == trim_start_char(s@.skip(start as int), c),
        decreases s.len() - start,
    {
        assert(s@.skip(start as int).drop_first() =~= s@.skip(start + 1));
        start = start + 1;
    }
    let r = chars_range(s, start, s.len());
    assert(r@ =~= s@.skip(start as int));
    r
}

pub proof fn lemma_utf8_len_take_mono(s: Seq<char>, a: int, b: int)
    requires
        0 <= a <= b <= s.len(),
    ensures
        utf8_len(s.take(a)) <= utf8_len(s.take(b)),
{
    lemma_utf8_len_concat(s.take(a), s.subrange(a, b));
    assert(s.take(a) + s.subrange(a, b) =~= s.take(b));
}

/// `str::len` of the characters `s`.
pub fn utf8_len_exec(s: &[char]) -> (n: usize)
    requires
        utf8_len(s@) <= usize::MAX,
    ensures
        n == utf8_len(s@),
{
    let mut n: usize = 0;
    let mut k: usize = 0;
    assert(s@.take(0) =~= Seq::<char>::empty());
    while k < s.len()
        invariant
            k <= s@.len(),
            n == utf8_len(s@.take(k as int)),
            utf8_len(s@) <= usize::MAX,
        decreases s.len() - k,
    {
        assert(s@.take(k + 1).drop_last() =~= s@.take(k as int));
        proof {
            lemma_utf8_len_take_mono(s@, k + 1, s@.len() as int);
            assert(s@.take(s@.len() as int) =~= s@);
        }
        n = n + char_width_exec(s[k]);
        k = k + 1;
    }
    assert(s@.take(s@.len() as int) =~= s@);
    n
}

/// Number of leading characters whose encoding takes exactly `b` bytes, if
/// byte `b` falls on a character boundary.
pub open spec fn cut_from(s: Seq<char>, b: int, k: int) -> Option<nat>
    decreases s.len() + 1 - k,
{
    if k < 0 || k > s.len() {
        None
    } else if utf8_len(s.take(k)) >= b {
        if utf8_len(s.take(k)) == b {
            Some(k as nat)
        } else {
            None
        }
    } else {
        cut_from(s, b, k + 1)
    }
}

pub open spec fn byte_cut(s: Seq<char>, b: int) -> Option<nat> {
    cut_from(s, b, 0)
}

/// The characters making up the first `b` bytes of `s`, if byte `b` is a
/// character boundary (`&s[..b]` panics otherwise).
pub fn byte_prefix(s: &[char], b: usize) -> (r: Option<Vec<char>>)
    ensures
        match byte_cut(s@, b as int) {
            Some(k) => r matches Some(v) && v@ == s@.take(k as int),
            None => r is None,
        },
{
    let mut n: usize = 0;
    let mut k: usize = 0;
    assert(s@.take(0) =~= Seq::<char>::empty());
    while k < s.len() && n < b
        invariant
            k <= s@.len(),
            n == utf8_len(s@.take(k as int)),
            n <= b,
            byte_cut(s@, b as int) == cut_from(s@, b as int, k as int),
        decreases s.len() - k,
    {
        assert(s@.take(k + 1).drop_last() =~= s@.take(k as int));
        let w = char_width_exec(s[k]);
        if w > b - n {
            assert(cut_from(s@, b as int, k + 1) is None);
            return None;
        }
        n = n + w;
        k = k + 1;
    }
    if n == b {
        Some(chars_range(s, 0, k))
    } else {
        assert(k == s@.len());
        assert(cut_from(s@, b as int, k + 1) is None);
        None
    }
}


/// `str::len` of the characters `s`, or `None` where it exceeds `usize::MAX`.
pub fn utf8_len_checked(s: &[char]) -> (r: Option<usize>)
    ensures
        match r {
            Some(n) => n == utf8_len(s@),
            None => utf8_len(s@) > usize::MAX,
        },
{
    let mut n: usize = 0;
    let mut k: usize = 0;
    assert(s@.take(0) =~= Seq::<char>::empty());
    while k < s.len()
        invariant
            k <= s@.len(),
            n == utf8_len(s@.take(k as int)),
        decreases s.len() - k,
    {
        assert(s@.take(k + 1).drop_last() =~= s@.take(k as int));
        let w = char_width_exec(s[k]);
        if w > usize::MAX - n {
            proof {
                lemma_utf8_len_take_mono(s@, k + 1, s@.len() as int);
                assert(s@.take(s@.len() as int) =~= s@);
            }
            return None;
        }
        n = n + w;
        k = k + 1;
    }
    assert(s@.take(s@.len() as int) =~= s@);
    Some(n)
}


pub fn append_chars(out: &mut Vec<char>, s: &[char])
    ensures
        final(out)@ == old(out)@ + s@,
{
    let ghost start = out@;
    let mut i: usize = 0;
    assert(out@ =~= start + s@.take(0));
    while i < s.len()
        invariant
            i <= s@.len(),
            out@ == start + s@.take(i as int),
        decreases s.len() - i,
    {
        out.push(s[i]);
        assert(out@ =~= start + s@.take(i + 1));
        i = i + 1;
    }
    assert(s@.take(s@.len() as int) =~= s@);
}

/// `a` followed by `b`.
pub fn concat_str(a: &str, b: &str) -> (r: String)
    ensures
        r@ == a@ + b@,
{
    let mut v = chars_of(a);
    append_chars(&mut v, chars_of(b).as_slice());
    string_of(v.as_slice())
}

/// Uppercase mapping of `str::to_uppercase` (full Unicode case mapping).
pub uninterp spec fn unicode_uppercase(s: Seq<char>) -> Seq<char>;

/// Calls `str::to_uppercase`. Its result is named by `unicode_uppercase`:
/// the full Unicode case mapping is not restated here.
#[verifier::external_body]
pub(crate) fn to_uppercase(s: &str) -> (r: String)
    ensures
        r@ == unicode_uppercase(s@),
{
    s.to_uppercase()
}

/// Whether `s` holds exactly the characters of the literal `lit`.
pub fn str_is(s: &str, lit: &str) -> (b: bool)
    ensures
        b == (s@ == lit@),
{
    let a = chars_of(s);
    let c = chars_of(lit);
    chars_eq(a.as_slice(), c.as_slice())
}


/// Lowercase mapping of `str::to_lowercase` (Unicode `Lowercase` property).
pub uninterp spec fn unicode_lowercase(s: Seq<char>) -> Seq<char>;

/// Calls `str::to_lowercase`. Its result is named by `unicode_lowercase`:
/// the full Unicode case mapping is not restated here.
#[verifier::external_body]
pub(crate) fn to_lowercase(s: &str) -> (r: String)
    ensures
        r@ == unicode_lowercase(s@),
{
    s.to_lowercase()
}



pub proof fn lemma_cut_from_bound(s: Seq<char>, b: int, k: int)
    ensures
        cut_from(s, b, k) matches Some(c) ==> k <= c <= s.len() && utf8_len(s.take(c as int)) == b,
    decreases s.len() + 1 - k,
{
    if 0 <= k <= s.len() && utf8_len(s.take(k)) < b {
        lemma_cut_from_bound(s, b, k + 1);
    }
}

} // verus!
