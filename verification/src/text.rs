//! Text helpers with exact specifications: decimal rendering of numbers,
//! substring search, first-line extraction and whitespace trimming.

use vstd::prelude::*;

verus! {

/// The decimal digit character for `d` (0 <= d < 10).
pub open spec fn digit_char(d: int) -> char {
    ((48 + d) as u32) as char
}

/// The decimal representation of `n`, without sign or leading zeros.
pub open spec fn decimal(n: nat) -> Seq<char>
    decreases n,
{
    if n < 10 {
        seq![digit_char(n as int)]
    } else {
        decimal(n / 10).push(digit_char((n % 10) as int))
    }
}

fn digit_str(d: u16) -> (s: &'static str)
    requires
        d < 10,
    ensures
        s@ == seq![digit_char(d as int)],
{
    match d {
        0 => {
            proof { reveal_strlit("0"); }
            "0"
        },
        1 => {
            proof { reveal_strlit("1"); }
            "1"
        },
        2 => {
            proof { reveal_strlit("2"); }
            "2"
        },
        3 => {
            proof { reveal_strlit("3"); }
            "3"
        },
        4 => {
            proof { reveal_strlit("4"); }
            "4"
        },
        5 => {
            proof { reveal_strlit("5"); }
            "5"
        },
        6 => {
            proof { reveal_strlit("6"); }
            "6"
        },
        7 => {
            proof { reveal_strlit("7"); }
            "7"
        },
        8 => {
            proof { reveal_strlit("8"); }
            "8"
        },
        _ => {
            proof { reveal_strlit("9"); }
            "9"
        },
    }
}

/// Renders a port number in decimal, as `format!("{}", n)` does.
pub fn port_text(n: u16) -> (s: String)
    ensures
        s@ == decimal(n as nat),
    decreases n,
{
    if n < 10 {
        String::from_str(digit_str(n))
    } else {
        let mut s = port_text(n / 10);
        s.append(digit_str(n % 10));
        s
    }
}

/// `pattern` occurs in `text` starting at position `i`.
pub open spec fn occurs_at(text: Seq<char>, pattern: Seq<char>, i: int) -> bool {
    &&& 0 <= i
    &&& i + pattern.len() <= text.len()
    &&& text.subrange(i, i + pattern.len()) == pattern
}

/// `pattern` occurs somewhere in `text` (the empty pattern occurs everywhere).
pub open spec fn spec_contains(text: Seq<char>, pattern: Seq<char>) -> bool {
    exists|i: int| occurs_at(text, pattern, i)
}

/// The characters of a string slice, in order.
pub fn chars_of(s: &str) -> (v: Vec<char>)
    ensures
        v@ == s@,
{
    let n = s.unicode_len();
    let mut v: Vec<char> = Vec::new();
    let mut i: usize = 0;
    while i < n
        invariant
            n == s@.len(),
            i <= n,
            v@ == s@.take(i as int),
        decreases n - i,
    {
        let c = s.get_char(i);
        v.push(c);
        i = i + 1;
        assert(v@ == s@.take(i as int));
    }
    assert(s@.take(n as int) == s@);
    v
}

/// Whether `pattern` occurs at position `i` of `text`, by direct comparison.
fn matches_at(text: &Vec<char>, pattern: &Vec<char>, i: usize) -> (r: bool)
    requires
        i + pattern@.len() <= text@.len(),
    ensures
        r == occurs_at(text@, pattern@, i as int),
{
    let m = pattern.len();
    let tl = text.len();
    let mut k: usize = 0;
    while k < m
        invariant
            m == pattern@.len(),
            tl == text@.len(),
            i + m <= text@.len(),
            k <= m,
            forall|j: int| 0 <= j < k ==> text@[i + j] == pattern@[j],
        decreases m - k,
    {
        if text[i + k] != pattern[k] {
            assert(text@.subrange(i as int, i + m)[k as int] != pattern@[k as int]);
            return false;
        }
        k = k + 1;
    }
    assert(text@.subrange(i as int, i + m) =~= pattern@);
    true
}

/// Whether `pattern` occurs in `text`, as `str::contains` answers it.
pub fn contains(text: &str, pattern: &str) -> (r: bool)
    ensures
        r == spec_contains(text@, pattern@),
{
    let t = chars_of(text);
    let p = chars_of(pattern);
    let n = t.len();
    let m = p.len();
    if m > n {
        assert forall|i: int| !occurs_at(text@, pattern@, i) by {}
        return false;
    }
    let last = n - m;
    let mut i: usize = 0;
    loop
        invariant
            n == t@.len(),
            m == p@.len(),
            last == n - m,
            t@ == text@,
            p@ == pattern@,
            i <= last,
            forall|j: int| 0 <= j < i ==> !occurs_at(text@, pattern@, j),
        ensures
            forall|j: int| 0 <= j <= last ==> !occurs_at(text@, pattern@, j),
        decreases last - i,
    {
        if matches_at(&t, &p, i) {
            assert(occurs_at(text@, pattern@, i as int));
            return true;
        }
        if i == last {
            break;
        }
        i = i + 1;
    }
    assert forall|j: int| !occurs_at(text@, pattern@, j) by {
        if 0 <= j && j + m <= n {
            assert(j <= last);
        }
    }
    false
}

/// The index of the first `'\n'` at or after `i`, or the length of `t` when
/// there is none.
pub open spec fn line_end_from(t: Seq<char>, i: int) -> int
    decreases t.len() - i,
{
    if i >= t.len() {
        t.len() as int
    } else if t[i] == '\n' {
        i
    } else {
        line_end_from(t, i + 1)
    }
}

/// The first line of `t` as `str::lines` yields it: the text before the
/// first `'\n'`, without a `'\r'` that directly precedes that `'\n'`; the
/// whole text when it holds no `'\n'`; nothing for the empty text.
pub open spec fn spec_first_line(t: Seq<char>) -> Option<Seq<char>> {
    if t.len() == 0 {
        None
    } else {
        let e = line_end_from(t, 0);
        if e < t.len() && e > 0 && t[e - 1] == '\r' {
            Some(t.take(e - 1))
        } else {
            Some(t.take(e))
        }
    }
}

/// Bounds and meaning of `line_end_from`.
pub proof fn lemma_line_end(t: Seq<char>, i: int)
    requires
        0 <= i <= t.len(),
    ensures
        i <= line_end_from(t, i) <= t.len(),
        forall|k: int| i <= k < line_end_from(t, i) ==> t[k] != '\n',
        line_end_from(t, i) < t.len() ==> t[line_end_from(t, i)] == '\n',
    decreases t.len() - i,
{
    if i < t.len() && t[i] != '\n' {
        lemma_line_end(t, i + 1);
    }
}

/// The first line of a text never holds a line feed, and it is a prefix of
/// the text.
pub proof fn lemma_first_line_has_no_newline(t: Seq<char>)
    ensures
        spec_first_line(t) matches Some(line) ==> {
            &&& !line.contains('\n')
            &&& line.len() <= t.len()
            &&& line == t.take(line.len() as int)
        },
{
    lemma_line_end(t, 0);
    if let Some(line) = spec_first_line(t) {
        assert forall|k: int| 0 <= k < line.len() implies line[k] != '\n' by {
            assert(line[k] == t[k]);
        }
    }
}

/// What the first line of a text is, without reference to how it is
/// computed: a text has a first line exactly when it is not empty; the line
/// is a prefix of the text holding no line feed, and right after it the
/// text either ends (and then holds no line feed at all), or has the line
/// feed that ends the line (the line not ending in a carriage return), or
/// has a carriage return directly followed by that line feed.
pub proof fn lemma_first_line_characterized(t: Seq<char>)
    ensures
        spec_first_line(t) is Some <==> t.len() > 0,
        spec_first_line(t) matches Some(l) ==> {
            &&& l.len() <= t.len()
            &&& l == t.take(l.len() as int)
            &&& forall|k: int| 0 <= k < l.len() ==> l[k] != '\n'
            &&& {
                ||| l.len() == t.len() && forall|k: int| 0 <= k < t.len() ==> t[k] != '\n'
                ||| l.len() < t.len() && t[l.len() as int] == '\n' && (l.len() == 0 || l.last()
                    != '\r')
                ||| l.len() + 1 < t.len() && t[l.len() as int] == '\r' && t[l.len() + 1int] == '\n'
            }
        },
{
    lemma_line_end(t, 0);
    if let Some(l) = spec_first_line(t) {
        let e = line_end_from(t, 0);
        assert forall|k: int| 0 <= k < l.len() implies l[k] != '\n' by {
            assert(l[k] == t[k]);
        }
        if e < t.len() && e > 0 && t[e - 1] == '\r' {
            assert(l.len() == e - 1);
        } else if e < t.len() {
            assert(l.len() == e);
            if l.len() > 0 {
                assert(l.last() == t[e - 1]);
            }
        } else {
            assert(l.len() == t.len());
        }
    }
}

/// The first line of `text`, as `text.lines().next()` gives it.
pub fn first_line(text: &str) -> (line: Option<String>)
    ensures
        match line {
            Some(l) => spec_first_line(text@) == Some(l@),
            None => spec_first_line(text@) is None,
        },
{
    let t = chars_of(text);
    let n = t.len();
    if n == 0 {
        return None;
    }
    let mut e: usize = 0;
    while e < n && t[e] != '\n'
        invariant
            n == t@.len(),
            t@ == text@,
            e <= n,
            line_end_from(t@, 0) == line_end_from(t@, e as int),
        decreases n - e,
    {
        e = e + 1;
    }
    let end = if e < n && e > 0 && t[e - 1] == '\r' {
        e - 1
    } else {
        e
    };
    let slice = text.substring_char(0, end);
    Some(slice.to_owned())
}

/// Whether `c` is white space as `char::is_whitespace` defines it (the
/// Unicode `White_Space` property).
pub open spec fn is_whitespace(c: char) -> bool {
    let u = c as u32;
    ||| u == 0x20
    ||| 0x09 <= u <= 0x0D
    ||| u == 0x85
    ||| u == 0xA0
    ||| u == 0x1680
    ||| 0x2000 <= u <= 0x200A
    ||| u == 0x2028
    ||| u == 0x2029
    ||| u == 0x202F
    ||| u == 0x205F
    ||| u == 0x3000
}

fn char_is_whitespace(c: char) -> (r: bool)
    ensures
        r == is_whitespace(c),
{
    let u = c as u32;
    u == 0x20 || (0x09 <= u && u <= 0x0D) || u == 0x85 || u == 0xA0 || u == 0x1680 || (0x2000
        <= u && u <= 0x200A) || u == 0x2028 || u == 0x2029 || u == 0x202F || u == 0x205F || u
        == 0x3000
}

/// The index of the first non-white-space character at or after `i`, or
/// the length of `t` when there is none.
pub open spec fn trim_start_from(t: Seq<char>, i: int) -> int
    decreases t.len() - i,
{
    if i >= t.len() {
        t.len() as int
    } else if is_whitespace(t[i]) {
        trim_start_from(t, i + 1)
    } else {
        i
    }
}

/// The index just past the last non-white-space character before `j` that
/// is at or after `lo`, or `lo` when there is none.
pub open spec fn trim_end_from(t: Seq<char>, j: int, lo: int) -> int
    decreases j - lo,
{
    if j <= lo {
        lo
    } else if is_whitespace(t[j - 1]) {
        trim_end_from(t, j - 1, lo)
    } else {
        j
    }
}

/// `t` without leading and trailing white space, as `str::trim` gives it.
pub open spec fn spec_trim(t: Seq<char>) -> Seq<char> {
    let s = trim_start_from(t, 0);
    t.subrange(s, trim_end_from(t, t.len() as int, s))
}

/// Bounds and meaning of `trim_start_from`.
pub proof fn lemma_trim_start(t: Seq<char>, i: int)
    requires
        0 <= i <= t.len(),
    ensures
        i <= trim_start_from(t, i) <= t.len(),
        forall|k: int| i <= k < trim_start_from(t, i) ==> is_whitespace(t[k]),
        trim_start_from(t, i) < t.len() ==> !is_whitespace(t[trim_start_from(t, i)]),
    decreases t.len() - i,
{
    if i < t.len() && is_whitespace(t[i]) {
        lemma_trim_start(t, i + 1);
    }
}

/// Bounds and meaning of `trim_end_from`.
pub proof fn lemma_trim_end(t: Seq<char>, j: int, lo: int)
    requires
        0 <= lo <= j <= t.len(),
    ensures
        lo <= trim_end_from(t, j, lo) <= j,
        forall|k: int| trim_end_from(t, j, lo) <= k < j ==> is_whitespace(t[k]),
        trim_end_from(t, j, lo) > lo ==> !is_whitespace(t[trim_end_from(t, j, lo) - 1]),
    decreases j - lo,
{
    if j > lo && is_whitespace(t[j - 1]) {
        lemma_trim_end(t, j - 1, lo);
    }
}

/// A trimmed text neither starts nor ends with white space.
pub proof fn lemma_trim_edges(t: Seq<char>)
    ensures
        spec_trim(t).len() > 0 ==> !is_whitespace(spec_trim(t)[0]),
        spec_trim(t).len() > 0 ==> !is_whitespace(spec_trim(t).last()),
        spec_trim(t).len() <= t.len(),
{
    let s = trim_start_from(t, 0);
    lemma_trim_start(t, 0);
    lemma_trim_end(t, t.len() as int, s);
}

/// Trimming twice gives what trimming once gives.
pub proof fn lemma_trim_idempotent(t: Seq<char>)
    ensures
        spec_trim(spec_trim(t)) == spec_trim(t),
{
    let u = spec_trim(t);
    lemma_trim_edges(t);
    if u.len() == 0 {
        assert(trim_start_from(u, 0) == 0);
        assert(u.subrange(0, 0) =~= u);
    } else {
        assert(trim_start_from(u, 0) == 0);
        assert(trim_end_from(u, u.len() as int, 0) == u.len());
        assert(u.subrange(0, u.len() as int) =~= u);
    }
}

/// `text` without leading and trailing white space, as `str::trim` gives it.
pub fn trim(text: &str) -> (r: String)
    ensures
        r@ == spec_trim(text@),
{
    let t = chars_of(text);
    let n = t.len();
    let mut s: usize = 0;
    while s < n && char_is_whitespace(t[s])
        invariant
            n == t@.len(),
            t@ == text@,
            s <= n,
            trim_start_from(t@, 0) == trim_start_from(t@, s as int),
        decreases n - s,
    {
        s = s + 1;
    }
    assert(trim_start_from(t@, s as int) == s);
    let mut e: usize = n;
    while e > s && char_is_whitespace(t[e - 1])
        invariant
            n == t@.len(),
            t@ == text@,
            s <= e <= n,
            trim_end_from(t@, n as int, s as int) == trim_end_from(t@, e as int, s as int),
        decreases e,
    {
        e = e - 1;
    }
    assert(trim_end_from(t@, e as int, s as int) == e);
    text.substring_char(s, e).to_owned()
}

/// `"{target}:{port}"`, the address form the probes connect to and report.
pub open spec fn spec_endpoint(target: Seq<char>, port: u16) -> Seq<char> {
    target + ":"@ + decimal(port as nat)
}

/// Renders `"{target}:{port}"`.
pub fn endpoint(target: &str, port: u16) -> (s: String)
    ensures
        s@ == spec_endpoint(target@, port),
{
    let mut s = String::from_str(target);
    s.append(":");
    let p = port_text(port);
    s.append(p.as_str());
    s
}

} // verus!
