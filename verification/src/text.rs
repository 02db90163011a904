//! Character-level text helpers shared by the parsers and formatters.
//!
//! Text is handled as sequences of Unicode scalar values (`Seq<char>`), which
//! is what `str` views as in Verus.
use vstd::prelude::*;

verus! {

// ---------------------------------------------------------------------------
// Specifications
// ---------------------------------------------------------------------------
/// The Unicode `White_Space` property, which `char::is_whitespace` and
/// `str::trim` go by.
pub open spec fn is_white_space(c: char) -> bool {
    let u = c as u32;
    ||| 0x09 <= u <= 0x0D
    ||| u == 0x20
    ||| u == 0x85
    ||| u == 0xA0
    ||| u == 0x1680
    ||| 0x2000 <= u <= 0x200A
    ||| u == 0x2028
    ||| u == 0x2029
    ||| u == 0x202F
    ||| u == 0x205F
    ||| u == 0x3000
}

/// `s` without its leading white space.
pub open spec fn trim_start(s: Seq<char>) -> Seq<char>
    decreases s.len(),
{
    if s.len() > 0 && is_white_space(s[0]) {
        trim_start(s.drop_first())
    } else {
        s
    }
}

/// `s` without its trailing white space.
pub open spec fn trim_end(s: Seq<char>) -> Seq<char>
    decreases s.len(),
{
    if s.len() > 0 && is_white_space(s.last()) {
        trim_end(s.drop_last())
    } else {
        s
    }
}

/// `str::trim`: `s` without leading and trailing white space.
pub open spec fn trim(s: Seq<char>) -> Seq<char> {
    trim_end(trim_start(s))
}

/// Position of the first `c` in `s`, or `s.len()` when `s` holds none.
pub open spec fn index_of(s: Seq<char>, c: char) -> int
    decreases s.len(),
{
    if s.len() == 0 {
        0
    } else if s[0] == c {
        0
    } else {
        1 + index_of(s.drop_first(), c)
    }
}

/// `s` without one trailing carriage return.
pub open spec fn strip_cr(s: Seq<char>) -> Seq<char> {
    if s.len() > 0 && s.last() == '\r' {
        s.drop_last()
    } else {
        s
    }
}

/// `str::lines`: the pieces of `s` between line feeds; a carriage return
/// just before a line feed belongs to the line ending, and a line feed at
/// the very end starts no further line.
pub open spec fn lines(s: Seq<char>) -> Seq<Seq<char>>
    decreases s.len(),
{
    if s.len() == 0 {
        seq![]
    } else {
        let i = index_of(s, '\n');
        if 0 <= i < s.len() {
            seq![strip_cr(s.subrange(0, i))] + lines(s.subrange(i + 1, s.len() as int))
        } else {
            seq![s]
        }
    }
}

/// `p` is a prefix of `s`.
pub open spec fn has_prefix(s: Seq<char>, p: Seq<char>) -> bool {
    p.len() <= s.len() && s.subrange(0, p.len() as int) == p
}

/// `p` occurs in `s` at position `i`.
pub open spec fn occurs_at(s: Seq<char>, p: Seq<char>, i: int) -> bool {
    0 <= i && i + p.len() <= s.len() && s.subrange(i, i + p.len()) == p
}

/// `p` occurs somewhere in `s` (`str::contains`).
pub open spec fn has_sub(s: Seq<char>, p: Seq<char>) -> bool {
    exists|i: int| occurs_at(s, p, i)
}

/// Number of bytes that `c` takes in UTF-8.
pub open spec fn utf8_width(c: char) -> int {
    let u = c as u32;
    if u < 0x80 {
        1
    } else if u < 0x800 {
        2
    } else if u < 0x10000 {
        3
    } else {
        4
    }
}

/// The position of the character that starts at byte offset `b` of the
/// UTF-8 encoding of `t` (`t.len()` for the end), or `-1` when no character
/// starts there, so that `&t[b..]` would panic.
pub open spec fn char_pos_of_byte(t: Seq<char>, b: int) -> int
    decreases t.len(),
{
    if b == 0 {
        0
    } else if b < 0 || t.len() == 0 || b < utf8_width(t[0]) {
        -1
    } else {
        let r = char_pos_of_byte(t.drop_first(), b - utf8_width(t[0]));
        if r < 0 {
            -1
        } else {
            r + 1
        }
    }
}

/// All characters of `s` are ASCII.
pub open spec fn is_ascii_text(s: Seq<char>) -> bool {
    forall|i: int| 0 <= i < s.len() ==> (#[trigger] s[i] as u32) < 0x80
}

/// `char::to_ascii_uppercase`: `a` to `z` become `A` to `Z`, the rest stays.
pub open spec fn ascii_upper_char(c: char) -> char {
    if 'a' <= c <= 'z' {
        ((c as u32) - 0x20) as char
    } else {
        c
    }
}

/// `char::to_ascii_lowercase`: `A` to `Z` become `a` to `z`, the rest stays.
pub open spec fn ascii_lower_char(c: char) -> char {
    if 'A' <= c <= 'Z' {
        ((c as u32) + 0x20) as char
    } else {
        c
    }
}

/// `str::to_ascii_uppercase`.
pub open spec fn ascii_upper(s: Seq<char>) -> Seq<char> {
    s.map_values(|c: char| ascii_upper_char(c))
}

/// `str::to_ascii_lowercase`.
pub open spec fn ascii_lower(s: Seq<char>) -> Seq<char> {
    s.map_values(|c: char| ascii_lower_char(c))
}

/// Uppercase mapping of `str::to_uppercase` (Unicode case tables).
pub uninterp spec fn uppercase_of(s: Seq<char>) -> Seq<char>;

/// Lowercase mapping of `str::to_lowercase` (Unicode case tables).
pub uninterp spec fn lowercase_of(s: Seq<char>) -> Seq<char>;

// ---------------------------------------------------------------------------
// Lemmas
// ---------------------------------------------------------------------------
pub proof fn lemma_index_of(s: Seq<char>, c: char)
    ensures
        0 <= index_of(s, c) <= s.len(),
        index_of(s, c) < s.len() ==> s[index_of(s, c)] == c,
        forall|j: int| 0 <= j < index_of(s, c) ==> s[j] != c,
    decreases s.len(),
{
    if s.len() > 0 && s[0] != c {
        lemma_index_of(s.drop_first(), c);
        assert forall|j: int| 0 <= j < index_of(s, c) implies s[j] != c by {
            if j > 0 {
                assert(s[j] == s.drop_first()[j - 1]);
            }
        }
    }
}

proof fn lemma_index_of_step(s: Seq<char>, j: int, c: char)
    requires
        0 <= j < s.len(),
        s[j] != c,
    ensures
        index_of(s.subrange(j, s.len() as int), c) == 1 + index_of(
            s.subrange(j + 1, s.len() as int),
            c,
        ),
{
    assert(s.subrange(j, s.len() as int).drop_first() =~= s.subrange(j + 1, s.len() as int));
}

proof fn lemma_trim_start_ascii(s: Seq<char>)
    requires
        is_ascii_text(s),
    ensures
        is_ascii_text(trim_start(s)),
    decreases s.len(),
{
    if s.len() > 0 && is_white_space(s[0]) {
        assert forall|i: int| 0 <= i < s.drop_first().len() implies (#[trigger] s.drop_first()[i]
            as u32) < 0x80 by {
            assert(s.drop_first()[i] == s[i + 1]);
        }
        lemma_trim_start_ascii(s.drop_first());
    }
}

proof fn lemma_trim_end_ascii(s: Seq<char>)
    requires
        is_ascii_text(s),
    ensures
        is_ascii_text(trim_end(s)),
    decreases s.len(),
{
    if s.len() > 0 && is_white_space(s.last()) {
        assert forall|i: int| 0 <= i < s.drop_last().len() implies (#[trigger] s.drop_last()[i]
            as u32) < 0x80 by {
            assert(s.drop_last()[i] == s[i]);
        }
        lemma_trim_end_ascii(s.drop_last());
    }
}

/// Trimming ASCII text leaves ASCII text.
pub proof fn lemma_trim_keeps_ascii(s: Seq<char>)
    requires
        is_ascii_text(s),
    ensures
        is_ascii_text(trim(s)),
{
    lemma_trim_start_ascii(s);
    lemma_trim_end_ascii(trim_start(s));
}

proof fn lemma_trim_start_step(s: Seq<char>, lo: int)
    requires
        0 <= lo < s.len(),
        is_white_space(s[lo]),
    ensures
        trim_start(s.subrange(lo, s.len() as int)) == trim_start(
            s.subrange(lo + 1, s.len() as int),
        ),
{
    assert(s.subrange(lo, s.len() as int).drop_first() =~= s.subrange(lo + 1, s.len() as int));
}

proof fn lemma_trim_end_step(s: Seq<char>, lo: int, hi: int)
    requires
        0 <= lo < hi <= s.len(),
        is_white_space(s[hi - 1]),
    ensures
        trim_end(s.subrange(lo, hi)) == trim_end(s.subrange(lo, hi - 1)),
{
    assert(s.subrange(lo, hi).drop_last() =~= s.subrange(lo, hi - 1));
}

// ---------------------------------------------------------------------------
// Executable helpers
// ---------------------------------------------------------------------------
/// Collects the characters of a string slice.
pub fn chars_of(s: &str) -> (r: Vec<char>)
    ensures
        r@ == s@,
{
    let mut r: Vec<char> = Vec::new();
    for c in it: s.chars()
        invariant
            r@ == it.seq().take(it.index() as int),
    {
        r.push(c);
    }
    r
}

/// `String: FromIterator<char>`: builds a string of the given characters, in order.
#[verifier::external_body]
pub(crate) fn string_from_chars(v: &Vec<char>) -> (r: String)
    ensures
        r@ == v@,
{
    v.iter().collect()
}

/// `char::is_whitespace`.
pub fn is_white_space_char(c: char) -> (r: bool)
    ensures
        r == is_white_space(c),
{
    let u = c as u32;
    (0x09 <= u && u <= 0x0D) || u == 0x20 || u == 0x85 || u == 0xA0 || u == 0x1680 || (0x2000
        <= u && u <= 0x200A) || u == 0x2028 || u == 0x2029 || u == 0x202F || u == 0x205F || u
        == 0x3000
}

/// The characters of `s` from `lo` up to `hi`.
pub fn copy_range(s: &Vec<char>, lo: usize, hi: usize) -> (r: Vec<char>)
    requires
        lo <= hi <= s.len(),
    ensures
        r@ == s@.subrange(lo as int, hi as int),
{
    let mut r: Vec<char> = Vec::new();
    let mut i = lo;
    while i < hi
        invariant
            lo <= i <= hi <= s.len(),
            r@ == s@.subrange(lo as int, i as int),
        decreases hi - i,
    {
        r.push(s[i]);
        i = i + 1;
    }
    r
}

/// Position of the first `c` in `s` at or after `from`, or `s.len()`.
pub fn find_char(s: &Vec<char>, from: usize, c: char) -> (r: usize)
    requires
        from <= s.len(),
    ensures
        r == from + index_of(s@.subrange(from as int, s.len() as int), c),
        from <= r <= s.len(),
        r < s.len() ==> s@[r as int] == c,
{
    let mut j = from;
    while j < s.len()
        invariant
            from <= j <= s.len(),
            index_of(s@.subrange(from as int, s.len() as int), c) == (j - from) + index_of(
                s@.subrange(j as int, s.len() as int),
                c,
            ),
        decreases s.len() - j,
    {
        if s[j] == c {
            proof {
                assert(s@.subrange(j as int, s.len() as int)[0] == c);
            }
            return j;
        }
        proof {
            lemma_index_of_step(s@, j as int, c);
        }
        j = j + 1;
    }
    j
}

/// `str::trim` on a character sequence.
pub fn trim_chars(s: &Vec<char>) -> (r: Vec<char>)
    ensures
        r@ == trim(s@),
{
    let n = s.len();
    let mut lo: usize = 0;
    proof {
        assert(s@.subrange(0, n as int) =~= s@);
    }
    loop
        invariant
            lo <= n == s.len(),
            trim_start(s@) == trim_start(s@.subrange(lo as int, n as int)),
        ensures
            lo <= n,
            trim_start(s@) == trim_start(s@.subrange(lo as int, n as int)),
            lo < n ==> !is_white_space(s@[lo as int]),
        decreases n - lo,
    {
        if lo >= n {
            break;
        }
        if !is_white_space_char(s[lo]) {
            break;
        }
        proof {
            lemma_trim_start_step(s@, lo as int);
        }
        lo = lo + 1;
    }
    proof {
        let t = s@.subrange(lo as int, n as int);
        if t.len() > 0 {
            assert(t[0] == s@[lo as int]);
        }
        assert(trim_start(s@) == t);
        assert(s@.subrange(lo as int, n as int) == t);
    }
    let mut hi: usize = n;
    loop
        invariant
            lo <= hi <= n == s.len(),
            trim(s@) == trim_end(s@.subrange(lo as int, hi as int)),
        ensures
            lo <= hi <= n,
            trim(s@) == trim_end(s@.subrange(lo as int, hi as int)),
            lo < hi ==> !is_white_space(s@[hi - 1]),
        decreases hi - lo,
    {
        if hi <= lo {
            break;
        }
        if !is_white_space_char(s[hi - 1]) {
            break;
        }
        proof {
            lemma_trim_end_step(s@, lo as int, hi as int);
        }
        hi = hi - 1;
    }
    proof {
        let t = s@.subrange(lo as int, hi as int);
        if t.len() > 0 {
            assert(t.last() == s@[hi - 1]);
        }
        assert(trim_end(t) == t);
    }
    copy_range(s, lo, hi)
}

/// Whether `p` occurs in `s` at position `i`.
pub fn matches_at(s: &Vec<char>, i: usize, p: &Vec<char>) -> (r: bool)
    ensures
        r == occurs_at(s@, p@, i as int),
{
    if i > s.len() || p.len() > s.len() - i {
        return false;
    }
    let mut k: usize = 0;
    while k < p.len()
        invariant
            i + p.len() <= s.len(),
            k <= p.len(),
            forall|m: int| 0 <= m < k ==> s@[i + m] == p@[m],
        decreases p.len() - k,
    {
        if s[i + k] != p[k] {
            proof {
                assert(s@.subrange(i as int, i + p.len())[k as int] != p@[k as int]);
            }
            return false;
        }
        k = k + 1;
    }
    proof {
        assert(s@.subrange(i as int, i + p.len()) =~= p@);
    }
    true
}

/// `str::starts_with` with a string pattern.
pub fn starts_with(s: &Vec<char>, p: &str) -> (r: bool)
    ensures
        r == has_prefix(s@, p@),
{
    let pc = chars_of(p);
    matches_at(s, 0, &pc)
}

/// `str::contains` with a string pattern.
pub fn contains(s: &Vec<char>, p: &str) -> (r: bool)
    ensures
        r == has_sub(s@, p@),
{
    let pc = chars_of(p);
    if pc.len() > s.len() {
        return false;
    }
    let last = s.len() - pc.len();
    let mut i: usize = 0;
    loop
        invariant
            i <= last,
            last + pc@.len() == s.len(),
            pc@ == p@,
            forall|j: int| 0 <= j < i ==> !occurs_at(s@, p@, j),
        ensures
            forall|j: int| 0 <= j <= last ==> !occurs_at(s@, p@, j),
        decreases last - i,
    {
        if matches_at(s, i, &pc) {
            return true;
        }
        if i == last {
            break;
        }
        i = i + 1;
    }
    proof {
        assert forall|j: int| !occurs_at(s@, p@, j) by {
            if j > last {
                assert(!(j + p@.len() <= s@.len()));
            }
        }
    }
    false
}

/// `str::lines` on a character sequence.
pub fn split_lines(s: &Vec<char>) -> (r: Vec<Vec<char>>)
    ensures
        r@.map_values(|v: Vec<char>| v@) == lines(s@),
{
    let n = s.len();
    let mut out: Vec<Vec<char>> = Vec::new();
    let mut start: usize = 0;
    proof {
        assert(s@.subrange(0, n as int) =~= s@);
    }
    while start < n
        invariant
            start <= n == s.len(),
            lines(s@) == out@.map_values(|v: Vec<char>| v@) + lines(
                s@.subrange(start as int, n as int),
            ),
        decreases n - start,
    {
        let e = find_char(s, start, '\n');
        let ghost rest = s@.subrange(start as int, n as int);
        proof {
            lemma_index_of(rest, '\n');
        }
        if e < n {
            let mut line = copy_range(s, start, e);
            if line.len() > 0 && line[line.len() - 1] == '\r' {
                line.pop();
            }
            proof {
                assert(rest.subrange(0, e - start) =~= s@.subrange(start as int, e as int));
                assert(rest.subrange(e - start + 1, rest.len() as int) =~= s@.subrange(
                    e + 1,
                    n as int,
                ));
                assert(line@ == strip_cr(s@.subrange(start as int, e as int)));
            }
            let ghost before = out@.map_values(|v: Vec<char>| v@);
            out.push(line);
            proof {
                assert(out@.map_values(|v: Vec<char>| v@) =~= before.push(line@));
                assert(lines(rest) == seq![line@] + lines(s@.subrange(e + 1, n as int)));
                assert(before + lines(rest) =~= before.push(line@) + lines(
                    s@.subrange(e + 1, n as int),
                ));
            }
            start = e + 1;
        } else {
            let line = copy_range(s, start, n);
            let ghost before = out@.map_values(|v: Vec<char>| v@);
            out.push(line);
            proof {
                assert(out@.map_values(|v: Vec<char>| v@) =~= before.push(line@));
                assert(lines(rest) == seq![rest]);
                assert(s@.subrange(n as int, n as int) =~= Seq::<char>::empty());
                assert(before + lines(rest) =~= before.push(line@) + lines(
                    s@.subrange(n as int, n as int),
                ));
            }
            start = n;
        }
    }
    proof {
        assert(s@.subrange(n as int, n as int) =~= Seq::<char>::empty());
        assert(lines(s@) =~= out@.map_values(|v: Vec<char>| v@));
    }
    out
}

/// `str::to_uppercase`. The result is named, not described: it follows the
/// Unicode case tables of the standard library. Of ASCII text it is the
/// ASCII uppercase, as `str::to_ascii_uppercase` gives it.
#[verifier::external_body]
pub(crate) fn to_uppercase(s: &str) -> (r: String)
    ensures
        r@ == uppercase_of(s@),
        is_ascii_text(s@) ==> r@ == ascii_upper(s@),
{
    s.to_uppercase()
}

/// `str::to_lowercase`. The result is named, not described: it follows the
/// Unicode case tables of the standard library. Of ASCII text it is the
/// ASCII lowercase, as `str::to_ascii_lowercase` gives it.
#[verifier::external_body]
pub(crate) fn to_lowercase(s: &str) -> (r: String)
    ensures
        r@ == lowercase_of(s@),
        is_ascii_text(s@) ==> r@ == ascii_lower(s@),
{
    s.to_lowercase()
}

/// Whether two character sequences are equal.
pub fn chars_eq(a: &Vec<char>, b: &Vec<char>) -> (r: bool)
    ensures
        r == (a@ == b@),
{
    if a.len() != b.len() {
        return false;
    }
    let mut i: usize = 0;
    while i < a.len()
        invariant
            a.len() == b.len(),
            i <= a.len(),
            forall|j: int| 0 <= j < i ==> a@[j] == b@[j],
        decreases a.len() - i,
    {
        if a[i] != b[i] {
            return false;
        }
        i = i + 1;
    }
    proof {
        assert(a@ =~= b@);
    }
    true
}

/// `char::len_utf8`.
pub fn utf8_width_of(c: char) -> (r: usize)
    ensures
        r == utf8_width(c),
{
    let u = c as u32;
    if u < 0x80 {
        1
    } else if u < 0x800 {
        2
    } else if u < 0x10000 {
        3
    } else {
        4
    }
}

/// The character position at byte offset `b` of `t`, if a character starts there.
pub fn char_index_at_byte(t: &Vec<char>, b: usize) -> (r: Option<usize>)
    ensures
        match r {
            Some(k) => char_pos_of_byte(t@, b as int) == k,
            None => char_pos_of_byte(t@, b as int) < 0,
        },
{
    let n = t.len();
    let mut k: usize = 0;
    let mut acc: usize = 0;
    proof {
        assert(t@.subrange(0, n as int) =~= t@);
    }
    loop
        invariant
            k <= n == t.len(),
            acc <= b,
            ({
                let r = char_pos_of_byte(t@.subrange(k as int, n as int), b - acc);
                char_pos_of_byte(t@, b as int) == if r < 0 {
                    -1
                } else {
                    r + k
                }
            }),
        decreases n - k,
    {
        if acc == b {
            return Some(k);
        }
        if k == n {
            proof {
                assert(t@.subrange(k as int, n as int).len() == 0);
            }
            return None;
        }
        let w = utf8_width_of(t[k]);
        proof {
            let sub = t@.subrange(k as int, n as int);
            assert(sub[0] == t@[k as int]);
            assert(sub.drop_first() =~= t@.subrange(k + 1, n as int));
        }
        if w > b - acc {
            return None;
        }
        acc = acc + w;
        k = k + 1;
    }
}

} // verus!
