//! Text helpers: Unicode whitespace trimming, joining, and the line structure
//! of a text file as `str::lines` sees it.

use vstd::prelude::*;
use vstd::string::*;

verus! {

broadcast use vstd::string::group_string_axioms;

/// Characters with the Unicode `White_Space` property.
pub open spec fn is_white_space(c: char) -> bool {
    let u = c as u32;
    ||| 0x09 <= u <= 0x0D
    ||| u == 0x20
    ||| u == 0x85
    ||| u == 0xA0
    ||| u == 0x1680
    ||| 0x2000 <= u <= 0x200A
    ||| u == 0x2028
    ||| u == 0x2029
    ||| u == 0x202F
    ||| u == 0x205F
    ||| u == 0x3000
}

/// `s` without its leading whitespace.
pub open spec fn trim_start(s: Seq<char>) -> Seq<char>
    decreases s.len(),
{
    if s.len() > 0 && is_white_space(s[0]) {
        trim_start(s.drop_first())
    } else {
        s
    }
}

/// `s` without its trailing whitespace.
pub open spec fn trim_end(s: Seq<char>) -> Seq<char>
    decreases s.len(),
{
    if s.len() > 0 && is_white_space(s.last()) {
        trim_end(s.drop_last())
    } else {
        s
    }
}

/// `s` without leading and trailing whitespace.
pub open spec fn trimmed(s: Seq<char>) -> Seq<char> {
    trim_end(trim_start(s))
}

/// Calls `str::trim`. Claimed, as its documentation says: leading and
/// trailing characters with the Unicode `White_Space` property are removed.
#[verifier::external_body]
pub(crate) fn str_trim(s: &str) -> (t: &str)
    ensures
        t@ == trimmed(s@),
{
    s.trim()
}

/// `a` followed by `b`.
pub fn concat(a: &str, b: &str) -> (s: String)
    ensures
        s@ == a@ + b@,
{
    let mut s = String::from_str(a);
    s.append(b);
    s
}

/// The characters of `s`, one by one.
pub fn chars_of(s: &str) -> (v: Vec<char>)
    ensures
        v@ == s@,
{
    let mut v: Vec<char> = Vec::new();
    for c in it: s.chars()
        invariant
            it.seq() == s@,
            v@ == it.seq().take(it.index()),
    {
        v.push(c);
        assert(v@ =~= it.seq().take(it.index() + 1));
    }
    assert(s@.take(s@.len() as int) =~= s@);
    v
}

/// A trimmed text neither starts nor ends with whitespace, and is the part
/// of the original between a run of leading and a run of trailing whitespace:
/// only outer whitespace is removed.
pub proof fn trimmed_has_no_outer_white_space(s: Seq<char>)
    ensures
        trimmed(s).len() > 0 ==> !is_white_space(trimmed(s)[0]) && !is_white_space(
            trimmed(s).last(),
        ),
        exists|i: int, j: int|
            0 <= i <= j <= s.len() && trimmed(s) == s.subrange(i, j) && (forall|k: int|
                0 <= k < i ==> is_white_space(#[trigger] s[k])) && (forall|k: int|
                j <= k < s.len() ==> is_white_space(#[trigger] s[k])),
{
    trim_start_shape(s);
    let t = trim_start(s);
    trim_end_shape(t);
    let i = choose|i: int|
        0 <= i <= s.len() && t == s.subrange(i, s.len() as int) && (forall|k: int|
            0 <= k < i ==> is_white_space(#[trigger] s[k]));
    let j = choose|j: int|
        0 <= j <= t.len() && trim_end(t) == t.subrange(0, j) && (forall|k: int|
            j <= k < t.len() ==> is_white_space(#[trigger] t[k]));
    assert(trimmed(s) =~= s.subrange(i, i + j));
    assert forall|k: int| i + j <= k < s.len() implies is_white_space(#[trigger] s[k]) by {
        assert(s[k] == t[k - i]);
    }
}

/// Text without leading or trailing whitespace is kept whole by trimming.
pub proof fn trimming_keeps_inner_text(s: Seq<char>)
    requires
        s.len() == 0 || (!is_white_space(s[0]) && !is_white_space(s.last())),
    ensures
        trimmed(s) == s,
{
}

/// Among ASCII characters, the whitespace is tab, line feed, vertical tab,
/// form feed, carriage return and space.
pub proof fn ascii_white_space(c: char)
    requires
        (c as u32) < 0x80,
    ensures
        is_white_space(c) <==> (c == '\t' || c == '\n' || c == '\x0b' || c == '\x0c' || c == '\r'
            || c == ' '),
{
}

proof fn trim_start_shape(s: Seq<char>)
    ensures
        trim_start(s).len() > 0 ==> !is_white_space(trim_start(s)[0]),
        exists|i: int|
            0 <= i <= s.len() && trim_start(s) == s.subrange(i, s.len() as int) && (forall|k: int|
                0 <= k < i ==> is_white_space(#[trigger] s[k])),
    decreases s.len(),
{
    if s.len() > 0 && is_white_space(s[0]) {
        let r = s.drop_first();
        trim_start_shape(r);
        let i = choose|i: int|
            0 <= i <= r.len() && trim_start(r) == r.subrange(i, r.len() as int) && (forall|k: int|
                0 <= k < i ==> is_white_space(#[trigger] r[k]));
        assert(trim_start(s) =~= s.subrange(i + 1, s.len() as int));
        assert forall|k: int| 0 <= k < i + 1 implies is_white_space(#[trigger] s[k]) by {
            if k > 0 {
                assert(s[k] == r[k - 1]);
            }
        }
    } else {
        assert(s =~= s.subrange(0, s.len() as int));
    }
}

proof fn trim_end_shape(s: Seq<char>)
    ensures
        trim_end(s).len() > 0 ==> !is_white_space(trim_end(s).last()),
        trim_end(s).len() > 0 ==> trim_end(s)[0] == s[0],
        exists|j: int|
            0 <= j <= s.len() && trim_end(s) == s.subrange(0, j) && (forall|k: int|
                j <= k < s.len() ==> is_white_space(#[trigger] s[k])),
    decreases s.len(),
{
    if s.len() > 0 && is_white_space(s.last()) {
        let r = s.drop_last();
        trim_end_shape(r);
        let j = choose|j: int|
            0 <= j <= r.len() && trim_end(r) == r.subrange(0, j) && (forall|k: int|
                j <= k < r.len() ==> is_white_space(#[trigger] r[k]));
        assert(trim_end(s) =~= s.subrange(0, j));
        assert forall|k: int| j <= k < s.len() implies is_white_space(#[trigger] s[k]) by {
            if k < s.len() - 1 {
                assert(s[k] == r[k]);
            }
        }
    } else {
        assert(s =~= s.subrange(0, s.len() as int));
    }
}

// ---------------------------------------------------------------------------
// Lines

/// `s[a..b]` is a line of `s`: it starts the text or follows a `\n`, it runs
/// up to the next `\n` or to the end, and it does not start at the very end
/// (so a final line ending yields no empty last line).
pub open spec fn is_line_span(s: Seq<char>, a: int, b: int) -> bool {
    &&& 0 <= a <= b <= s.len()
    &&& a < s.len()
    &&& (a == 0 || s[a - 1] == '\n')
    &&& (b == s.len() || s[b] == '\n')
    &&& forall|k: int| a <= k < b ==> s[k] != '\n'
}

/// The text of the line `s[a..b]`: a `\r` directly before its `\n` belongs to
/// the line ending, not to the line.
pub open spec fn line_text(s: Seq<char>, a: int, b: int) -> Seq<char> {
    if b < s.len() && a < b && s[b - 1] == '\r' {
        s.subrange(a, b - 1)
    } else {
        s.subrange(a, b)
    }
}

/// One of the lines of `s`, as `str::lines` yields them, equals `line`.
pub open spec fn has_line(s: Seq<char>, line: Seq<char>) -> bool {
    exists|a: int, b: int| #[trigger] is_line_span(s, a, b) && line_text(s, a, b) == line
}

/// `v[a..b] == w`.
fn segment_equals(v: &Vec<char>, a: usize, b: usize, w: &Vec<char>) -> (eq: bool)
    requires
        a <= b <= v@.len(),
    ensures
        eq == (v@.subrange(a as int, b as int) == w@),
{
    if b - a != w.len() {
        assert(v@.subrange(a as int, b as int).len() != w@.len());
        return false;
    }
    let mut k: usize = 0;
    while k < w.len()
        invariant
            a <= b <= v@.len(),
            b - a == w@.len(),
            k <= w@.len(),
            forall|t: int| 0 <= t < k ==> v@[a + t] == w@[t],
        decreases w@.len() - k,
    {
        if v[a + k] != w[k] {
            assert(v@.subrange(a as int, b as int)[k as int] != w@[k as int]);
            return false;
        }
        k = k + 1;
    }
    assert(v@.subrange(a as int, b as int) =~= w@);
    true
}

/// Whether the line `v[a..b]` of `v` (ended by a `\n` at `b`, or by the end
/// of the text) reads `line`.
fn line_at_equals(v: &Vec<char>, a: usize, b: usize, line: &Vec<char>) -> (eq: bool)
    requires
        a <= b <= v@.len(),
    ensures
        eq == (line_text(v@, a as int, b as int) == line@),
{
    if b < v.len() && a < b && v[b - 1] == '\r' {
        segment_equals(v, a, b - 1, line)
    } else {
        segment_equals(v, a, b, line)
    }
}

/// Whether one of the lines of `text` equals `line`.
pub fn contains_line(text: &str, line: &str) -> (found: bool)
    ensures
        found == has_line(text@, line@),
{
    let v = chars_of(text);
    let w = chars_of(line);
    let n = v.len();
    let ghost s = v@;
    let mut start: usize = 0;
    let mut i: usize = 0;
    while i < n
        invariant
            n == s.len(),
            s == v@,
            s == text@,
            w@ == line@,
            start <= i <= n,
            start == 0 || s[start - 1] == '\n',
            forall|k: int| start <= k < i ==> s[k] != '\n',
            forall|a: int, b: int|
                #[trigger] is_line_span(s, a, b) && a < start ==> line_text(s, a, b) != line@,
        decreases n - i,
    {
        if v[i] == '\n' {
            if line_at_equals(&v, start, i, &w) {
                assert(is_line_span(s, start as int, i as int));
                return true;
            }
            assert forall|a: int, b: int|
                #[trigger] is_line_span(s, a, b) && a < i + 1 implies line_text(s, a, b) != line@ by {
                if a >= start {
                    if a > start {
                        assert(s[a - 1] != '\n');
                    }
                    assert(a == start);
                    if b > i {
                        assert(s[i as int] != '\n');
                    }
                    if b < i {
                        assert(s[b] != '\n');
                    }
                    assert(b == i);
                }
            }
            start = i + 1;
        }
        i = i + 1;
    }
    if start < n {
        if line_at_equals(&v, start, n, &w) {
            assert(is_line_span(s, start as int, n as int));
            return true;
        }
    }
    assert forall|a: int, b: int| #[trigger] is_line_span(s, a, b) implies line_text(s, a, b) != line@ by {
        if a >= start {
            if a > start {
                assert(s[a - 1] != '\n');
            }
            assert(a == start);
            if b < n {
                assert(s[b] != '\n');
            }
        }
    }
    false
}

/// A text that holds no line feed.
pub open spec fn no_line_feed(s: Seq<char>) -> bool {
    forall|k: int| 0 <= k < s.len() ==> s[k] != '\n'
}

/// A line never holds a line feed: what `str::lines` yields stops before
/// each `\n`.
pub proof fn lines_hold_no_line_feed(s: Seq<char>, line: Seq<char>)
    requires
        has_line(s, line),
    ensures
        no_line_feed(line),
{
    let (a, b) = choose|a: int, b: int| #[trigger] is_line_span(s, a, b) && line_text(s, a, b) == line;
    assert forall|k: int| 0 <= k < line.len() implies line[k] != '\n' by {
        assert(line[k] == s[a + k]);
    }
}

/// Wherever it sits, a line without `\n` (and not ending in `\r`) that
/// starts the text or follows a `\n` is found: before `\n`, before `\r\n`,
/// and, when not empty, at the very end.
pub proof fn a_line_is_found_wherever_it_sits(pre: Seq<char>, line: Seq<char>, post: Seq<char>)
    requires
        pre.len() == 0 || pre.last() == '\n',
        no_line_feed(line),
        line.len() == 0 || line.last() != '\r',
    ensures
        has_line(pre + line + seq!['\n'] + post, line),
        has_line(pre + line + seq!['\r', '\n'] + post, line),
        line.len() > 0 ==> has_line(pre + line, line),
{
    let a = pre.len() as int;
    let b = a + line.len();
    let s1 = pre + line + seq!['\n'] + post;
    assert(s1[b] == '\n');
    assert forall|k: int| a <= k < b implies s1[k] != '\n' by {
        assert(s1[k] == line[k - a]);
    }
    assert(a == 0 || s1[a - 1] == '\n');
    assert(is_line_span(s1, a, b));
    if a < b {
        assert(s1[b - 1] == line.last());
    }
    assert(s1.subrange(a, b) =~= line);
    assert(line_text(s1, a, b) == line);

    let s2 = pre + line + seq!['\r', '\n'] + post;
    assert(s2[b + 1] == '\n');
    assert(s2[b] == '\r');
    assert forall|k: int| a <= k < b + 1 implies s2[k] != '\n' by {
        if k < b {
            assert(s2[k] == line[k - a]);
        }
    }
    assert(a == 0 || s2[a - 1] == '\n');
    assert(is_line_span(s2, a, b + 1));
    assert(s2.subrange(a, b) =~= line);
    assert(line_text(s2, a, b + 1) == line);

    if line.len() > 0 {
        let s3 = pre + line;
        assert forall|k: int| a <= k < b implies s3[k] != '\n' by {
            assert(s3[k] == line[k - a]);
        }
        assert(a == 0 || s3[a - 1] == '\n');
        assert(is_line_span(s3, a, b));
        assert(s3.subrange(a, b) =~= line);
        assert(line_text(s3, a, b) == line);
    }
}

} // verus!
