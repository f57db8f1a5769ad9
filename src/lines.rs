use vstd::prelude::*;

verus! {

/// Unicode `White_Space`, the set that `char::is_whitespace` tests for.
pub open spec fn is_ws(c: char) -> bool {
    let u = c as u32;
    (0x09 <= u && u <= 0x0D) || u == 0x20 || u == 0x85 || u == 0xA0 || u == 0x1680 || (0x2000 <= u
        && u <= 0x200A) || u == 0x2028 || u == 0x2029 || u == 0x202F || u == 0x205F || u == 0x3000
}

/// A line without the `'\r'` that ends it, if any.
pub open spec fn strip_cr(l: Seq<char>) -> Seq<char> {
    if l.len() > 0 && l.last() == '\r' {
        l.drop_last()
    } else {
        l
    }
}

/// The lines of `s` from position `start` on, `i` being the next position to
/// look at: lines end at `'\n'`, a `'\r'` before it is dropped, and a final
/// line needs no terminator.
pub open spec fn lines_scan(s: Seq<char>, start: int, i: int) -> Seq<Seq<char>>
    decreases s.len() - i,
{
    if i >= s.len() {
        if 0 <= start < s.len() {
            seq![s.subrange(start, s.len() as int)]
        } else {
            seq![]
        }
    } else if s[i] == '\n' {
        seq![strip_cr(s.subrange(start, i))] + lines_scan(s, i + 1, i + 1)
    } else {
        lines_scan(s, start, i + 1)
    }
}

/// The lines of a text.
pub open spec fn lines_of(s: Seq<char>) -> Seq<Seq<char>> {
    lines_scan(s, 0, 0)
}

/// The whitespace-separated words of `l` from position `start` on, `i` being
/// the next position to look at.
pub open spec fn words_scan(l: Seq<char>, start: int, i: int) -> Seq<Seq<char>>
    decreases l.len() - i,
{
    if i >= l.len() {
        if start < i {
            seq![l.subrange(start, l.len() as int)]
        } else {
            seq![]
        }
    } else if is_ws(l[i]) {
        (if start < i {
            seq![l.subrange(start, i)]
        } else {
            seq![]
        }) + words_scan(l, i + 1, i + 1)
    } else {
        words_scan(l, start, i + 1)
    }
}

/// The whitespace-separated words of a line.
pub open spec fn words(l: Seq<char>) -> Seq<Seq<char>> {
    words_scan(l, 0, 0)
}

/// The first position at or after `i` that holds no whitespace, or `l.len()`.
pub open spec fn skip_ws(l: Seq<char>, i: int) -> int
    decreases l.len() - i,
{
    if i >= l.len() {
        l.len() as int
    } else if is_ws(l[i]) {
        skip_ws(l, i + 1)
    } else {
        i
    }
}

/// The end of `l[..j]` with trailing whitespace removed.
pub open spec fn skip_ws_back(l: Seq<char>, j: int) -> int
    decreases j,
{
    if j <= 0 {
        0
    } else if is_ws(l[j - 1]) {
        skip_ws_back(l, j - 1)
    } else {
        j
    }
}

/// `l` without leading and trailing whitespace.
pub open spec fn trim(l: Seq<char>) -> Seq<char> {
    let a = skip_ws(l, 0);
    let b = skip_ws_back(l, l.len() as int);
    if a < b {
        l.subrange(a, b)
    } else {
        seq![]
    }
}

/// The first position at or after `i` that holds `':'`, or `l.len()`.
pub open spec fn colon_pos(l: Seq<char>, i: int) -> int
    decreases l.len() - i,
{
    if i >= l.len() {
        l.len() as int
    } else if l[i] == ':' {
        i
    } else {
        colon_pos(l, i + 1)
    }
}

/// Whether `c` is whitespace, as `char::is_whitespace` decides.
pub fn is_whitespace(c: char) -> (r: bool)
    ensures
        r == is_ws(c),
{
    let u = c as u32;
    (0x09 <= u && u <= 0x0D) || u == 0x20 || u == 0x85 || u == 0xA0 || u == 0x1680 || (0x2000 <= u
        && u <= 0x200A) || u == 0x2028 || u == 0x2029 || u == 0x202F || u == 0x205F || u == 0x3000
}

/// Finds where the line that starts at `p` ends: at the next `'\n'`, or at
/// the end of the text.
pub fn line_end(s: &str, n: usize, p: usize) -> (e: usize)
    requires
        n == s@.len(),
        p < n,
    ensures
        p <= e <= n,
        e < n ==> s@[e as int] == '\n',
        lines_scan(s@, p as int, p as int) == seq![
            if e < n { strip_cr(s@.subrange(p as int, e as int)) } else { s@.subrange(p as int, n as int) }
        ] + lines_scan(s@, e + 1, e + 1),
{
    let mut i: usize = p;
    while i < n && s.get_char(i) != '\n'
        invariant
            n == s@.len(),
            p <= i <= n,
            lines_scan(s@, p as int, p as int) == lines_scan(s@, p as int, i as int),
        decreases n - i,
    {
        i = i + 1;
    }
    proof {
        if i == n {
            assert(lines_scan(s@, n + 1, n + 1) =~= Seq::<Seq<char>>::empty());
        }
    }
    i
}

/// Finds the first word of `l` at or after position `p`: its start and end.
pub fn next_word(l: &str, m: usize, p: usize) -> (r: Option<(usize, usize)>)
    requires
        m == l@.len(),
        p <= m,
    ensures
        match r {
            None => words_scan(l@, p as int, p as int) == Seq::<Seq<char>>::empty(),
            Some((a, b)) => p <= a < b <= m && words_scan(l@, p as int, p as int) == seq![
                l@.subrange(a as int, b as int)
            ] + words_scan(l@, b as int, b as int),
        },
{
    let mut i: usize = p;
    while i < m && is_whitespace(l.get_char(i))
        invariant
            m == l@.len(),
            p <= i <= m,
            words_scan(l@, p as int, p as int) == words_scan(l@, i as int, i as int),
        decreases m - i,
    {
        proof {
            assert(Seq::<Seq<char>>::empty() + words_scan(l@, i + 1, i + 1) =~= words_scan(
                l@,
                i + 1,
                i + 1,
            ));
        }
        i = i + 1;
    }
    if i == m {
        return None;
    }
    let a = i;
    i = i + 1;
    while i < m && !is_whitespace(l.get_char(i))
        invariant
            m == l@.len(),
            a < i <= m,
            words_scan(l@, a as int, a as int) == words_scan(l@, a as int, i as int),
        decreases m - i,
    {
        i = i + 1;
    }
    proof {
        if i < m {
            assert(Seq::<Seq<char>>::empty() + words_scan(l@, i + 1, i + 1) =~= words_scan(
                l@,
                i + 1,
                i + 1,
            ));
        } else {
            assert(seq![l@.subrange(a as int, m as int)] + Seq::<Seq<char>>::empty() =~= seq![
                l@.subrange(a as int, m as int)
            ]);
        }
    }
    Some((a, i))
}

/// The first position of `':'` in `l`, or `l`'s length.
pub fn find_colon(l: &str, m: usize) -> (r: usize)
    requires
        m == l@.len(),
    ensures
        r == colon_pos(l@, 0),
        r <= m,
{
    let mut i: usize = 0;
    while i < m && l.get_char(i) != ':'
        invariant
            m == l@.len(),
            i <= m,
            colon_pos(l@, 0) == colon_pos(l@, i as int),
        decreases m - i,
    {
        i = i + 1;
    }
    i
}

/// `l` without leading and trailing whitespace.
pub fn trim_str(l: &str) -> (r: String)
    ensures
        r@ == trim(l@),
{
    let m = l.unicode_len();
    let mut a: usize = 0;
    while a < m && is_whitespace(l.get_char(a))
        invariant
            m == l@.len(),
            a <= m,
            skip_ws(l@, 0) == skip_ws(l@, a as int),
        decreases m - a,
    {
        a = a + 1;
    }
    let mut b: usize = m;
    while b > 0 && is_whitespace(l.get_char(b - 1))
        invariant
            m == l@.len(),
            b <= m,
            skip_ws_back(l@, m as int) == skip_ws_back(l@, b as int),
        decreases b,
    {
        b = b - 1;
    }
    if a < b {
        String::from_str(l.substring_char(a, b))
    } else {
        String::new()
    }
}

} // verus!
