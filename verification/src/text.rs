//! Character-level text helpers: whitespace trimming, line splitting, and
//! decimal integer parsing with the same acceptance rules as `str::parse`.
use vstd::prelude::*;

verus! {

/// The characters of `s`, in order.
pub fn chars_of(s: &str) -> (v: Vec<char>)
    ensures
        v@ == s@,
{
    let mut v: Vec<char> = Vec::new();
    for c in it: s.chars()
        invariant
            v@ == it.seq().take(it.index() as int),
    {
        v.push(c);
    }
    v
}

/// Appends one character to a string (`String::push`).
#[verifier::external_body]
pub(crate) fn push_char(s: &mut String, c: char)
    ensures
        final(s)@ == old(s)@.push(c),
{
    s.push(c);
}

/// A fresh string holding `v[lo..hi]`.
pub fn string_of(v: &Vec<char>, lo: usize, hi: usize) -> (s: String)
    requires
        lo <= hi <= v@.len(),
    ensures
        s@ == v@.subrange(lo as int, hi as int),
{
    let mut s = String::new();
    let mut i = lo;
    while i < hi
        invariant
            lo <= i <= hi <= v@.len(),
            s@ == v@.subrange(lo as int, i as int),
        decreases hi - i,
    {
        push_char(&mut s, v[i]);
        i = i + 1;
        assert(s@ == v@.subrange(lo as int, i as int));
    }
    s
}

/// The Unicode `White_Space` characters, the set `char::is_whitespace` tests.
pub open spec fn is_ws(c: char) -> bool {
    ||| ('\u{9}' <= c && c <= '\u{d}')
    ||| c == ' '
    ||| c == '\u{85}'
    ||| c == '\u{a0}'
    ||| c == '\u{1680}'
    ||| ('\u{2000}' <= c && c <= '\u{200a}')
    ||| c == '\u{2028}'
    ||| c == '\u{2029}'
    ||| c == '\u{202f}'
    ||| c == '\u{205f}'
    ||| c == '\u{3000}'
}

/// Whether `c` is Unicode white space.
pub fn is_whitespace(c: char) -> (b: bool)
    ensures
        b == is_ws(c),
{
    ('\u{9}' <= c && c <= '\u{d}') || c == ' ' || c == '\u{85}' || c == '\u{a0}' || c
        == '\u{1680}' || ('\u{2000}' <= c && c <= '\u{200a}') || c == '\u{2028}' || c
        == '\u{2029}' || c == '\u{202f}' || c == '\u{205f}' || c == '\u{3000}'
}

/// `s` without its leading white space.
pub open spec fn trim_start(s: Seq<char>) -> Seq<char>
    decreases s.len(),
{
    if s.len() > 0 && is_ws(s[0]) {
        trim_start(s.drop_first())
    } else {
        s
    }
}

/// `s` without its trailing white space.
pub open spec fn trim_end(s: Seq<char>) -> Seq<char>
    decreases s.len(),
{
    if s.len() > 0 && is_ws(s.last()) {
        trim_end(s.drop_last())
    } else {
        s
    }
}

/// `s` without leading and trailing white space (`str::trim`).
pub open spec fn trim(s: Seq<char>) -> Seq<char> {
    trim_end(trim_start(s))
}

/// Skipping a run of leading white space does not change what `trim_start`
/// gives.
pub proof fn lemma_trim_start_skip(s: Seq<char>, i: int)
    requires
        0 <= i <= s.len(),
        forall|k: int| 0 <= k < i ==> is_ws(#[trigger] s[k]),
    ensures
        trim_start(s) == trim_start(s.subrange(i, s.len() as int)),
    decreases i,
{
    if i > 0 {
        assert(is_ws(s[0]));
        let t = s.drop_first();
        assert forall|k: int| 0 <= k < i - 1 implies is_ws(#[trigger] t[k]) by {
            assert(t[k] == s[k + 1]);
        }
        lemma_trim_start_skip(t, i - 1);
        assert(t.subrange(i - 1, t.len() as int) =~= s.subrange(i, s.len() as int));
    } else {
        assert(s.subrange(0, s.len() as int) =~= s);
    }
}

proof fn lemma_trim_end_cut(s: Seq<char>, j: int)
    requires
        0 <= j <= s.len(),
        forall|k: int| j <= k < s.len() ==> is_ws(#[trigger] s[k]),
    ensures
        trim_end(s) == trim_end(s.subrange(0, j)),
    decreases s.len() - j,
{
    if j < s.len() {
        assert(is_ws(s.last()));
        let t = s.drop_last();
        assert forall|k: int| j <= k < t.len() implies is_ws(#[trigger] t[k]) by {
            assert(t[k] == s[k]);
        }
        lemma_trim_end_cut(t, j);
        assert(t.subrange(0, j) =~= s.subrange(0, j));
    } else {
        assert(s.subrange(0, j) =~= s);
    }
}

/// Bounds `(a, b)` such that `v[a..b]` is `v[lo..hi]` trimmed.
pub fn trim_range(v: &Vec<char>, lo: usize, hi: usize) -> (r: (usize, usize))
    requires
        lo <= hi <= v@.len(),
    ensures
        lo <= r.0 <= r.1 <= hi,
        v@.subrange(r.0 as int, r.1 as int) == trim(v@.subrange(lo as int, hi as int)),
{
    let ghost s = v@.subrange(lo as int, hi as int);
    let mut a = lo;
    while a < hi && is_whitespace(v[a])
        invariant
            lo <= a <= hi <= v@.len(),
            s == v@.subrange(lo as int, hi as int),
            forall|k: int| lo <= k < a ==> is_ws(#[trigger] v@[k]),
        decreases hi - a,
    {
        a = a + 1;
    }
    proof {
        assert forall|k: int| 0 <= k < a - lo implies is_ws(#[trigger] s[k]) by {
            assert(s[k] == v@[lo + k]);
        }
        lemma_trim_start_skip(s, a - lo);
        assert(s.subrange(a - lo, s.len() as int) =~= v@.subrange(a as int, hi as int));
        let t = v@.subrange(a as int, hi as int);
        if a < hi {
            assert(t.len() > 0 && !is_ws(t[0]));
        }
        assert(trim_start(s) == t);
    }
    let mut b = hi;
    while b > a && is_whitespace(v[b - 1])
        invariant
            lo <= a <= b <= hi <= v@.len(),
            forall|k: int| b <= k < hi ==> is_ws(#[trigger] v@[k]),
        decreases b - a,
    {
        b = b - 1;
    }
    proof {
        let t = v@.subrange(a as int, hi as int);
        assert forall|k: int| b - a <= k < t.len() implies is_ws(#[trigger] t[k]) by {
            assert(t[k] == v@[a + k]);
        }
        lemma_trim_end_cut(t, b - a);
        let u = t.subrange(0, b - a);
        assert(u =~= v@.subrange(a as int, b as int));
        if b > a {
            assert(u.len() > 0 && !is_ws(u.last()));
        }
        assert(trim_end(u) == u);
    }
    (a, b)
}

/// `s` with leading and trailing white space removed.
pub fn trimmed(s: &str) -> (t: String)
    ensures
        t@ == trim(s@),
{
    let v = chars_of(s);
    let (a, b) = trim_range(&v, 0, v.len());
    assert(v@.subrange(0, v@.len() as int) =~= v@);
    string_of(&v, a, b)
}

/// Whether `s` begins with `p`.
pub open spec fn has_prefix(s: Seq<char>, p: Seq<char>) -> bool {
    p.len() <= s.len() && s.subrange(0, p.len() as int) == p
}

/// Whether `s` ends with `p`.
pub open spec fn has_suffix(s: Seq<char>, p: Seq<char>) -> bool {
    p.len() <= s.len() && s.subrange(s.len() - p.len(), s.len() as int) == p
}

/// Whether `v[lo..hi]` begins with `p`.
pub fn starts_with_at(v: &Vec<char>, lo: usize, hi: usize, p: &Vec<char>) -> (b: bool)
    requires
        lo <= hi <= v@.len(),
    ensures
        b == has_prefix(v@.subrange(lo as int, hi as int), p@),
{
    if p.len() > hi - lo {
        return false;
    }
    let mut i: usize = 0;
    while i < p.len()
        invariant
            lo <= hi <= v@.len(),
            p@.len() <= hi - lo,
            i <= p@.len(),
            forall|k: int| 0 <= k < i ==> v@[lo + k] == p@[k],
        decreases p@.len() - i,
    {
        if v[lo + i] != p[i] {
            assert(v@.subrange(lo as int, hi as int).subrange(0, p@.len() as int)[i as int]
                != p@[i as int]);
            return false;
        }
        i = i + 1;
    }
    assert(v@.subrange(lo as int, hi as int).subrange(0, p@.len() as int) =~= p@);
    true
}

/// Whether `v` ends with `p`.
pub fn ends_with(v: &Vec<char>, p: &Vec<char>) -> (b: bool)
    ensures
        b == has_suffix(v@, p@),
{
    if p.len() > v.len() {
        return false;
    }
    let off = v.len() - p.len();
    let mut i: usize = 0;
    while i < p.len()
        invariant
            off as int + p@.len() == v@.len(),
            v@.len() == v.len(),
            i <= p@.len(),
            forall|k: int| 0 <= k < i ==> v@[off + k] == p@[k],
        decreases p@.len() - i,
    {
        assert(off + i < v@.len());
        if v[off + i] != p[i] {
            assert(v@.subrange(off as int, v@.len() as int)[i as int] != p@[i as int]);
            return false;
        }
        i = i + 1;
    }
    assert(v@.subrange(off as int, v@.len() as int) =~= p@);
    true
}

/// The first index in `lo..hi` holding `c`, if any.
pub fn find_char(v: &Vec<char>, lo: usize, hi: usize, c: char) -> (r: Option<usize>)
    requires
        lo <= hi <= v@.len(),
    ensures
        match r {
            Some(i) => lo <= i < hi && v@[i as int] == c && forall|k: int|
                lo <= k < i ==> v@[k] != c,
            None => forall|k: int| lo <= k < hi ==> v@[k] != c,
        },
{
    let mut i = lo;
    while i < hi
        invariant
            lo <= i <= hi <= v@.len(),
            forall|k: int| lo <= k < i ==> v@[k] != c,
        decreases hi - i,
    {
        if v[i] == c {
            return Some(i);
        }
        i = i + 1;
    }
    None
}

/// The index of the first `c` in `s`, if any.
pub open spec fn first_index(s: Seq<char>, c: char) -> Option<int> {
    if exists|i: int| 0 <= i < s.len() && s[i] == c {
        Some(choose|i: int| 0 <= i < s.len() && s[i] == c && forall|k: int| 0 <= k < i ==> s[k] != c)
    } else {
        None
    }
}

proof fn lemma_first_index(s: Seq<char>, c: char, i: int)
    requires
        0 <= i < s.len(),
        s[i] == c,
        forall|k: int| 0 <= k < i ==> s[k] != c,
    ensures
        first_index(s, c) == Some(i),
{
    let j = choose|j: int| 0 <= j < s.len() && s[j] == c && forall|k: int| 0 <= k < j ==> s[k] != c;
    assert(0 <= j < s.len() && s[j] == c && forall|k: int| 0 <= k < j ==> s[k] != c);
    if j < i {
        assert(s[j] != c);
    }
    if i < j {
        assert(s[i] != c);
    }
}

/// The index of the first `c` in `v[lo..hi]`, relative to `lo`.
pub fn find_in(v: &Vec<char>, lo: usize, hi: usize, c: char) -> (r: Option<usize>)
    requires
        lo <= hi <= v@.len(),
    ensures
        match r {
            Some(i) => lo <= i < hi && first_index(v@.subrange(lo as int, hi as int), c) == Some(
                i - lo,
            ),
            None => first_index(v@.subrange(lo as int, hi as int), c) is None,
        },
{
    let r = find_char(v, lo, hi, c);
    let ghost s = v@.subrange(lo as int, hi as int);
    proof {
        match r {
            Some(i) => {
                assert(s[i - lo] == c);
                assert forall|k: int| 0 <= k < i - lo implies s[k] != c by {
                    assert(s[k] == v@[lo + k]);
                }
                lemma_first_index(s, c, i - lo);
            },
            None => {
                assert forall|k: int| 0 <= k < s.len() implies s[k] != c by {
                    assert(s[k] == v@[lo + k]);
                }
            },
        }
    }
    r
}

/// The lines of `s` as `str::lines` yields them: split after each `'\n'`,
/// then one `"\n"` or `"\r\n"` terminator removed from each piece. A final
/// piece with no terminator is kept; an empty input has no lines.
#[verifier::opaque]
pub open spec fn lines_of(s: Seq<char>) -> Seq<Seq<char>>
    decreases s.len(),
{
    if s.len() == 0 {
        Seq::empty()
    } else {
        match first_index(s, '\n') {
            None => seq![s],
            Some(i) => if 0 <= i < s.len() {
                let piece = s.subrange(0, i);
                let line = if piece.len() > 0 && piece.last() == '\r' {
                    piece.drop_last()
                } else {
                    piece
                };
                seq![line] + lines_of(s.subrange(i + 1, s.len() as int))
            } else {
                seq![s]
            },
        }
    }
}

/// The bounds of one line of `v`.
pub struct LineSpan {
    pub start: usize,
    pub end: usize,
}

proof fn lemma_lines_step(s: Seq<char>, a: int, i: int)
    requires
        0 <= a <= i < s.len(),
        s[i] == '\n',
        forall|k: int| a <= k < i ==> s[k] != '\n',
    ensures
        ({
            let piece = s.subrange(a, i);
            let line = if piece.len() > 0 && piece.last() == '\r' {
                piece.drop_last()
            } else {
                piece
            };
            lines_of(s.subrange(a, s.len() as int)) == seq![line] + lines_of(
                s.subrange(i + 1, s.len() as int),
            )
        }),
{
    reveal(lines_of);
    let t = s.subrange(a, s.len() as int);
    assert(t[i - a] == '\n');
    assert forall|k: int| 0 <= k < i - a implies t[k] != '\n' by {
        assert(t[k] == s[a + k]);
    }
    lemma_first_index(t, '\n', i - a);
    assert(t.subrange(0, i - a) =~= s.subrange(a, i));
    assert(t.subrange(i - a + 1, t.len() as int) =~= s.subrange(i + 1, s.len() as int));
}

proof fn lemma_lines_last(s: Seq<char>, a: int)
    requires
        0 <= a < s.len(),
        forall|k: int| a <= k < s.len() ==> s[k] != '\n',
    ensures
        lines_of(s.subrange(a, s.len() as int)) == seq![s.subrange(a, s.len() as int)],
{
    reveal(lines_of);
    let line = s.subrange(a, s.len() as int);
    if exists|j: int| 0 <= j < line.len() && line[j] == '\n' {
        let j = choose|j: int| 0 <= j < line.len() && line[j] == '\n';
        assert(s[a + j] == '\n');
    }
    assert(first_index(line, '\n') is None);
}

/// The line spans of `v`, in order.
pub fn line_spans(v: &Vec<char>) -> (r: Vec<LineSpan>)
    ensures
        r@.len() == lines_of(v@).len(),
        forall|k: int|
            0 <= k < r@.len() ==> {
                &&& (#[trigger] r@[k]).start <= r@[k].end <= v@.len()
                &&& v@.subrange(r@[k].start as int, r@[k].end as int) == lines_of(v@)[k]
            },
{
    let mut r: Vec<LineSpan> = Vec::new();
    let mut a: usize = 0;
    let ghost done: Seq<Seq<char>> = Seq::empty();
    assert(v@.subrange(0, v@.len() as int) =~= v@);
    assert(done + lines_of(v@) =~= lines_of(v@));
    while a < v.len()
        invariant
            a <= v@.len(),
            lines_of(v@) == done + lines_of(v@.subrange(a as int, v@.len() as int)),
            r@.len() == done.len(),
            forall|k: int|
                0 <= k < r@.len() ==> {
                    &&& (#[trigger] r@[k]).start <= r@[k].end <= v@.len()
                    &&& v@.subrange(r@[k].start as int, r@[k].end as int) == done[k]
                },
        decreases v@.len() - a,
    {
        let (e, next) = match find_char(v, a, v.len(), '\n') {
            Some(i) => {
                proof {
                    lemma_lines_step(v@, a as int, i as int);
                }
                if i > a && v[i - 1] == '\r' {
                    assert(v@.subrange(a as int, i as int).drop_last() =~= v@.subrange(
                        a as int,
                        i - 1,
                    ));
                    (i - 1, i + 1)
                } else {
                    (i, i + 1)
                }
            },
            None => {
                proof {
                    lemma_lines_last(v@, a as int);
                    assert(lines_of(v@.subrange(v@.len() as int, v@.len() as int)) =~= Seq::<
                        Seq<char>,
                    >::empty()) by {
                        reveal(lines_of);
                    }
                    assert(seq![v@.subrange(a as int, v@.len() as int)] + Seq::<Seq<char>>::empty()
                        =~= seq![v@.subrange(a as int, v@.len() as int)]);
                }
                (v.len(), v.len())
            },
        };
        let ghost line = v@.subrange(a as int, e as int);
        proof {
            assert(lines_of(v@.subrange(a as int, v@.len() as int)) == seq![line] + lines_of(
                v@.subrange(next as int, v@.len() as int),
            ));
            assert(done + (seq![line] + lines_of(v@.subrange(next as int, v@.len() as int)))
                =~= done.push(line) + lines_of(v@.subrange(next as int, v@.len() as int)));
            done = done.push(line);
        }
        r.push(LineSpan { start: a, end: e });
        a = next;
    }
    assert(lines_of(v@.subrange(a as int, v@.len() as int)) =~= Seq::<Seq<char>>::empty()) by {
        reveal(lines_of);
    }
    assert(done + Seq::<Seq<char>>::empty() =~= done);
    r
}

/// Whether `c` is an ASCII decimal digit.
pub open spec fn is_digit(c: char) -> bool {
    '0' <= c && c <= '9'
}

/// The value of one decimal digit.
pub open spec fn digit_value(c: char) -> nat {
    (c as nat - '0' as nat) as nat
}

/// The value of a run of decimal digits, most significant first.
pub open spec fn digits_value(s: Seq<char>) -> nat
    decreases s.len(),
{
    if s.len() == 0 {
        0
    } else {
        digits_value(s.drop_last()) * 10 + digit_value(s.last())
    }
}

/// Whether `s` is a non-empty run of decimal digits.
pub open spec fn all_digits(s: Seq<char>) -> bool {
    s.len() > 0 && forall|i: int| 0 <= i < s.len() ==> is_digit(#[trigger] s[i])
}

/// The value `str::parse` gives an unsigned integer text, before the range
/// check: an optional `'+'`, then one or more decimal digits.
pub open spec fn unsigned_text(s: Seq<char>) -> Option<nat> {
    let body = if s.len() > 0 && s[0] == '+' {
        s.drop_first()
    } else {
        s
    };
    if all_digits(body) {
        Some(digits_value(body))
    } else {
        None
    }
}

/// The value `str::parse` gives a signed integer text, before the range
/// check: an optional `'+'` or `'-'`, then one or more decimal digits.
pub open spec fn signed_text(s: Seq<char>) -> Option<int> {
    if s.len() > 0 && s[0] == '-' {
        if all_digits(s.drop_first()) {
            Some(-digits_value(s.drop_first()))
        } else {
            None
        }
    } else {
        match unsigned_text(s) {
            Some(v) => Some(v as int),
            None => None,
        }
    }
}

proof fn lemma_digits_monotone(s: Seq<char>, i: int)
    requires
        0 <= i <= s.len(),
    ensures
        digits_value(s.subrange(0, i)) <= digits_value(s),
    decreases s.len() - i,
{
    if i < s.len() {
        lemma_digits_monotone(s, i + 1);
        let t = s.subrange(0, i + 1);
        assert(t.drop_last() =~= s.subrange(0, i));
    } else {
        assert(s.subrange(0, i) =~= s);
    }
}

/// The value of the all-digit text `v[lo..hi]`, or `None` if it exceeds `max`.
fn digits_upto(v: &Vec<char>, lo: usize, hi: usize, max: u64) -> (r: Option<u64>)
    requires
        lo <= hi <= v@.len(),
        forall|k: int| lo <= k < hi ==> is_digit(#[trigger] v@[k]),
    ensures
        match r {
            Some(x) => x == digits_value(v@.subrange(lo as int, hi as int)) && x <= max,
            None => digits_value(v@.subrange(lo as int, hi as int)) > max,
        },
{
    let mut acc: u64 = 0;
    let mut i = lo;
    assert(v@.subrange(lo as int, lo as int).len() == 0);
    while i < hi
        invariant
            lo <= i <= hi <= v@.len(),
            forall|k: int| lo <= k < hi ==> is_digit(#[trigger] v@[k]),
            acc == digits_value(v@.subrange(lo as int, i as int)),
            acc <= max,
        decreases hi - i,
    {
        let c = v[i];
        assert(is_digit(v@[i as int]));
        let d = (c as u32 - '0' as u32) as u64;
        let ghost next = v@.subrange(lo as int, i + 1);
        assert(next.drop_last() =~= v@.subrange(lo as int, i as int));
        assert(next.last() == c);
        assert(digits_value(next) == acc * 10 + d);
        if d > max || acc > (max - d) / 10 {
            proof {
                assert(acc * 10 + d > max) by (nonlinear_arith)
                    requires
                        d > max || acc > (max - d) / 10,
                ;
                let whole = v@.subrange(lo as int, hi as int);
                lemma_digits_monotone(whole, i - lo + 1);
                assert(whole.subrange(0, i - lo + 1) =~= next);
            }
            return None;
        }
        proof {
            assert(acc * 10 + d <= max) by (nonlinear_arith)
                requires
                    acc <= (max - d) / 10,
                    d <= max,
            ;
        }
        acc = acc * 10 + d;
        i = i + 1;
    }
    Some(acc)
}

/// Whether every character of `v[lo..hi]` is a decimal digit.
fn digits_only(v: &Vec<char>, lo: usize, hi: usize) -> (b: bool)
    requires
        lo <= hi <= v@.len(),
    ensures
        b == forall|k: int| lo <= k < hi ==> is_digit(#[trigger] v@[k]),
{
    let mut i = lo;
    while i < hi
        invariant
            lo <= i <= hi <= v@.len(),
            forall|k: int| lo <= k < i ==> is_digit(#[trigger] v@[k]),
        decreases hi - i,
    {
        if !('0' <= v[i] && v[i] <= '9') {
            assert(!is_digit(v@[i as int]));
            return false;
        }
        i = i + 1;
    }
    true
}

/// `v[lo..hi]` parsed as an unsigned integer no larger than `max`, accepting
/// exactly what `str::parse` accepts for an unsigned type with that maximum.
pub fn parse_unsigned(v: &Vec<char>, lo: usize, hi: usize, max: u64) -> (r: Option<u64>)
    requires
        lo <= hi <= v@.len(),
    ensures
        match unsigned_text(v@.subrange(lo as int, hi as int)) {
            Some(x) => if x <= max {
                r == Some(x as u64)
            } else {
                r is None
            },
            None => r is None,
        },
{
    let ghost s = v@.subrange(lo as int, hi as int);
    let mut start = lo;
    if lo < hi && v[lo] == '+' {
        start = lo + 1;
    }
    let ghost body = v@.subrange(start as int, hi as int);
    assert(body =~= (if s.len() > 0 && s[0] == '+' {
        s.drop_first()
    } else {
        s
    }));
    if start == hi {
        return None;
    }
    if !digits_only(v, start, hi) {
        proof {
            let k = choose|k: int| start <= k < hi && !is_digit(#[trigger] v@[k]);
            assert(body[k - start] == v@[k]);
        }
        return None;
    }
    assert forall|k: int| 0 <= k < body.len() implies is_digit(#[trigger] body[k]) by {
        assert(body[k] == v@[start + k]);
    }
    digits_upto(v, start, hi, max)
}

/// `v[lo..hi]` parsed as an `i64`, accepting exactly what `str::parse::<i64>`
/// accepts.
pub fn parse_i64(v: &Vec<char>, lo: usize, hi: usize) -> (r: Option<i64>)
    requires
        lo <= hi <= v@.len(),
    ensures
        match signed_text(v@.subrange(lo as int, hi as int)) {
            Some(x) => if i64::MIN <= x <= i64::MAX {
                r == Some(x as i64)
            } else {
                r is None
            },
            None => r is None,
        },
{
    let ghost s = v@.subrange(lo as int, hi as int);
    if lo < hi && v[lo] == '-' {
        let ghost body = v@.subrange(lo + 1, hi as int);
        assert(body =~= s.drop_first());
        if lo + 1 == hi {
            return None;
        }
        if !digits_only(v, lo + 1, hi) {
            proof {
                let k = choose|k: int| lo + 1 <= k < hi && !is_digit(#[trigger] v@[k]);
                assert(body[k - lo - 1] == v@[k]);
            }
            return None;
        }
        assert forall|k: int| 0 <= k < body.len() implies is_digit(#[trigger] body[k]) by {
            assert(body[k] == v@[lo + 1 + k]);
        }
        match digits_upto(v, lo + 1, hi, 0x8000_0000_0000_0000u64) {
            Some(m) => {
                if m == 0x8000_0000_0000_0000u64 {
                    Some(i64::MIN)
                } else {
                    Some(-(m as i64))
                }
            },
            None => None,
        }
    } else {
        let r = parse_unsigned(v, lo, hi, 0x7fff_ffff_ffff_ffffu64);
        match r {
            Some(x) => Some(x as i64),
            None => None,
        }
    }
}

/// Whether two texts are the same.
pub fn same_text(a: &str, b: &str) -> (r: bool)
    ensures
        r == (a@ == b@),
{
    let x = chars_of(a);
    let y = chars_of(b);
    if x.len() != y.len() {
        return false;
    }
    let mut i: usize = 0;
    while i < x.len()
        invariant
            x@ == a@,
            y@ == b@,
            x@.len() == y@.len(),
            i <= x@.len(),
            forall|k: int| 0 <= k < i ==> x@[k] == y@[k],
        decreases x@.len() - i,
    {
        if x[i] != y[i] {
            assert(x@[i as int] != y@[i as int]);
            return false;
        }
        i = i + 1;
    }
    assert(x@ =~= y@);
    true
}

} // verus!
