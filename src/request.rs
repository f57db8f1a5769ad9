use vstd::prelude::*;
use vstd::utf8::{decode_utf8, valid_utf8};

use crate::headers::Headers;
use crate::lines::{colon_pos, find_colon, line_end, lines_of, lines_scan, next_word, trim, trim_str, words};

verus! {

/// Why a request could not be parsed.
#[derive(Debug, Clone, Copy, PartialEq, Eq, Structural)]
pub enum ParseError {
    /// The text holds no line at all.
    RequestLineMissing,
    /// The request line holds no word.
    MethodMissing,
    /// The request line holds one word.
    PathMissing,
    /// The request line holds two words.
    VersionMissing,
    /// A header line has no name part. Splitting at the first `':'` always
    /// yields one, so no input gives this error.
    HeaderKeyMissing,
    /// A non-empty header line holds no `':'`.
    HeaderValueMissing,
}

/// A request as values: method, path, version and the header mapping.
pub type RequestView = (Seq<char>, Seq<char>, Seq<char>, Map<Seq<char>, Seq<char>>);

/// The index of the first empty line at or after `i`, or `ls.len()`.
pub open spec fn header_end(ls: Seq<Seq<char>>, i: int) -> int
    decreases ls.len() - i,
{
    if i >= ls.len() || ls[i].len() == 0 {
        i
    } else {
        header_end(ls, i + 1)
    }
}

/// The header lines of a request: those after the request line, up to the
/// first empty line.
pub open spec fn header_block(ls: Seq<Seq<char>>) -> Seq<Seq<char>> {
    ls.subrange(1, header_end(ls, 1))
}

pub open spec fn has_colon(l: Seq<char>) -> bool {
    colon_pos(l, 0) < l.len()
}

/// The name of a header line: what comes before its first `':'`, trimmed.
pub open spec fn header_name(l: Seq<char>) -> Seq<char> {
    trim(l.subrange(0, colon_pos(l, 0)))
}

/// The value of a header line: what comes after its first `':'`, trimmed.
pub open spec fn header_value(l: Seq<char>) -> Seq<char> {
    trim(l.subrange(colon_pos(l, 0) + 1, l.len() as int))
}

/// The mapping that header lines give, the last line for a name winning.
pub open spec fn headers_fold(hs: Seq<Seq<char>>) -> Map<Seq<char>, Seq<char>>
    decreases hs.len(),
{
    if hs.len() == 0 {
        Map::empty()
    } else {
        headers_fold(hs.drop_last()).insert(header_name(hs.last()), header_value(hs.last()))
    }
}

/// The request that a text denotes, or why it denotes none.
pub open spec fn parse_spec(s: Seq<char>) -> Result<RequestView, ParseError> {
    let ls = lines_of(s);
    if ls.len() == 0 {
        Err(ParseError::RequestLineMissing)
    } else {
        let w = words(ls[0]);
        if w.len() == 0 {
            Err(ParseError::MethodMissing)
        } else if w.len() == 1 {
            Err(ParseError::PathMissing)
        } else if w.len() == 2 {
            Err(ParseError::VersionMissing)
        } else {
            let hs = header_block(ls);
            if exists|i: int| 0 <= i < hs.len() && !has_colon(#[trigger] hs[i]) {
                Err(ParseError::HeaderValueMissing)
            } else {
                Ok((w[0], w[1], w[2], headers_fold(hs)))
            }
        }
    }
}

/// What bytes decode to, invalid sequences becoming U+FFFD.
pub uninterp spec fn lossy_of(b: Seq<u8>) -> Seq<char>;

/// Relies on `String::from_utf8_lossy`: valid UTF-8 decodes as such, and the
/// result depends on the bytes alone.
#[verifier::external_body]
fn decode_lossy(b: &[u8]) -> (r: String)
    ensures
        r@ == lossy_of(b@),
        valid_utf8(b@) ==> r@ == decode_utf8(b@),
{
    String::from_utf8_lossy(b).into_owned()
}

/// A parsed HTTP request.
#[derive(Debug)]
pub struct HttpRequest {
    method: String,
    path: String,
    http_version: String,
    headers: Headers,
}

impl View for HttpRequest {
    type V = RequestView;

    closed spec fn view(&self) -> RequestView {
        (self.method@, self.path@, self.http_version@, self.headers.map())
    }
}

/// A parse result as values.
pub open spec fn result_view(r: Result<HttpRequest, ParseError>) -> Result<RequestView, ParseError> {
    match r {
        Ok(q) => Ok(q@),
        Err(e) => Err(e),
    }
}

proof fn lemma_header_end(ls: Seq<Seq<char>>, i: int)
    requires
        0 <= i <= ls.len(),
    ensures
        i <= header_end(ls, i) <= ls.len(),
        forall|j: int| i <= j < header_end(ls, i) ==> #[trigger] ls[j].len() > 0,
    decreases ls.len() - i,
{
    if i < ls.len() && ls[i].len() > 0 {
        lemma_header_end(ls, i + 1);
    }
}

impl HttpRequest {
    /// A request with the given fields.
    pub fn new(method: &str, path: &str, http_version: &str, headers: Headers) -> (r: HttpRequest)
        requires
            headers.wf(),
        ensures
            r@ == (method@, path@, http_version@, headers.map()),
            r.wf(),
    {
        HttpRequest {
            method: String::from_str(method),
            path: String::from_str(path),
            http_version: String::from_str(http_version),
            headers,
        }
    }

    pub closed spec fn wf(&self) -> bool {
        self.headers.wf()
    }

    pub fn method(&self) -> (r: &str)
        ensures
            r@ == self@.0,
    {
        self.method.as_str()
    }

    /// The path as received, leading `'/'` included.
    pub fn path(&self) -> (r: &str)
        ensures
            r@ == self@.1,
    {
        self.path.as_str()
    }

    pub fn http_version(&self) -> (r: &str)
        ensures
            r@ == self@.2,
    {
        self.http_version.as_str()
    }

    /// The value of the header named `key`, if there is one.
    pub fn header(&self, key: &str) -> (r: Option<&str>)
        requires
            self.wf(),
        ensures
            r.is_some() == self@.3.contains_key(key@),
            r.is_some() ==> r.unwrap()@ == self@.3[key@],
    {
        self.headers.get(key)
    }

    /// Parses a raw request buffer, decoding it as UTF-8 with invalid
    /// sequences replaced.
    pub fn from_buffer(buffer: &[u8]) -> (r: Result<HttpRequest, ParseError>)
        ensures
            result_view(r) == parse_spec(lossy_of(buffer@)),
            r matches Ok(q) ==> q.wf(),
    {
        let text = decode_lossy(buffer);
        HttpRequest::parse(text.as_str())
    }

    /// Parses the text of a request: the request line, then header lines up to
    /// the first empty line; anything after that is ignored.
    pub fn parse(text: &str) -> (r: Result<HttpRequest, ParseError>)
        ensures
            result_view(r) == parse_spec(text@),
            r matches Ok(q) ==> q.wf(),
    {
        let ghost s = text@;
        let ghost ls = lines_of(s);
        let n = text.unicode_len();
        if n == 0 {
            assert(ls =~= Seq::<Seq<char>>::empty());
            return Err(ParseError::RequestLineMissing);
        }
        let e = line_end(text, n, 0);
        let q = if e < n && e > 0 && text.get_char(e - 1) == '\r' {
            e - 1
        } else {
            e
        };
        let line = text.substring_char(0, q);
        assert(line@ =~= ls[0]);
        let m = line.unicode_len();
        let w1 = next_word(line, m, 0);
        let (a1, b1) = match w1 {
            None => {
                return Err(ParseError::MethodMissing);
            },
            Some(w) => w,
        };
        let w2 = next_word(line, m, b1);
        let (a2, b2) = match w2 {
            None => {
                assert(words(ls[0]).len() == 1);
                return Err(ParseError::PathMissing);
            },
            Some(w) => w,
        };
        let w3 = next_word(line, m, b2);
        let (a3, b3) = match w3 {
            None => {
                assert(words(ls[0]).len() == 2);
                return Err(ParseError::VersionMissing);
            },
            Some(w) => w,
        };
        let ghost ws = words(ls[0]);
        assert(ws.len() >= 3);
        assert(ws[0] == line@.subrange(a1 as int, b1 as int));
        assert(ws[1] == line@.subrange(a2 as int, b2 as int));
        assert(ws[2] == line@.subrange(a3 as int, b3 as int));
        let method = line.substring_char(a1, b1);
        let path = line.substring_char(a2, b2);
        let version = line.substring_char(a3, b3);

        let mut headers = Headers::new();
        let mut p: usize = if e < n { e + 1 } else { n };
        let ghost mut k: int = 1;
        let mut done = false;
        assert(lines_scan(s, n as int, n as int) =~= lines_scan(s, n + 1, n + 1));
        assert(ls.subrange(1, ls.len() as int) =~= lines_scan(s, p as int, p as int));
        assert(ls.subrange(1, 1) =~= Seq::<Seq<char>>::empty());
        while p < n && !done
            invariant
                n == s.len(),
                s == text@,
                ls == lines_of(s),
                1 <= k <= ls.len(),
                p <= n,
                words(ls[0]).len() >= 3,
                method@ == words(ls[0])[0],
                path@ == words(ls[0])[1],
                version@ == words(ls[0])[2],
                !done ==> ls.subrange(k, ls.len() as int) == lines_scan(s, p as int, p as int),
                done ==> k < ls.len() && ls[k].len() == 0,
                forall|j: int| 1 <= j < k ==> #[trigger] ls[j].len() > 0 && has_colon(ls[j]),
                headers.wf(),
                headers.map() == headers_fold(ls.subrange(1, k)),
                header_end(ls, 1) == header_end(ls, k),
            decreases n - p + (if done { 0int } else { 1int }),
        {
            let e2 = line_end(text, n, p);
            let q2 = if e2 < n && e2 > p && text.get_char(e2 - 1) == '\r' {
                e2 - 1
            } else {
                e2
            };
            let l = text.substring_char(p, q2);
            assert(lines_scan(s, p as int, p as int).len() > 0);
            assert(ls.subrange(k, ls.len() as int).len() > 0);
            assert(ls[k] == ls.subrange(k, ls.len() as int)[0]);
            assert(l@ =~= ls[k]);
            let m2 = l.unicode_len();
            if m2 == 0 {
                done = true;
            } else {
                let c = find_colon(l, m2);
                if c == m2 {
                    proof {
                        lemma_header_end(ls, k + 1);
                        assert(header_end(ls, k) == header_end(ls, k + 1));
                        let hs = header_block(ls);
                        assert(hs[k - 1] == ls[k]);
                        assert(!has_colon(hs[k - 1]));
                    }
                    return Err(ParseError::HeaderValueMissing);
                }
                let key = trim_str(l.substring_char(0, c));
                let value = trim_str(l.substring_char(c + 1, m2));
                headers.insert(key, value);
                proof {
                    assert(ls.subrange(1, k + 1).drop_last() =~= ls.subrange(1, k));
                    assert(lines_scan(s, n as int, n as int) =~= lines_scan(s, n + 1, n + 1));
                    let t = ls.subrange(k, ls.len() as int);
                    let rest = lines_scan(s, e2 + 1, e2 + 1);
                    assert(t == seq![t[0]] + rest);
                    assert(ls.subrange(k + 1, ls.len() as int) =~= t.subrange(1, t.len() as int));
                    assert((seq![t[0]] + rest).subrange(1, t.len() as int) =~= rest);
                    assert(l@.subrange(0, c as int) =~= ls[k].subrange(0, colon_pos(ls[k], 0)));
                    assert(l@.subrange(c + 1, m2 as int) =~= ls[k].subrange(
                        colon_pos(ls[k], 0) + 1,
                        ls[k].len() as int,
                    ));
                    k = k + 1;
                }
                p = if e2 < n { e2 + 1 } else { n };
            }
        }
        proof {
            if !done {
                assert(lines_scan(s, p as int, p as int) =~= Seq::<Seq<char>>::empty());
                assert(ls.len() == k);
            }
            let hs = header_block(ls);
            assert(hs =~= ls.subrange(1, k));
            assert forall|i: int| 0 <= i < hs.len() implies has_colon(#[trigger] hs[i]) by {
                assert(hs[i] == ls[i + 1]);
            }
        }
        Ok(HttpRequest::new(method, path, version, headers))
    }
}

/// A request whose first line holds at least three words, and whose header
/// lines all hold a `':'`, parses into the first three words of that line as
/// method, path and version.
pub proof fn lemma_request_line_fields(s: Seq<char>)
    requires
        lines_of(s).len() > 0,
        words(lines_of(s)[0]).len() >= 3,
        forall|i: int|
            0 <= i < header_block(lines_of(s)).len() ==> has_colon(
                #[trigger] header_block(lines_of(s))[i],
            ),
    ensures
        parse_spec(s) matches Ok(v) && v.0 == words(lines_of(s)[0])[0] && v.1 == words(
            lines_of(s)[0],
        )[1] && v.2 == words(lines_of(s)[0])[2],
{
}

/// A non-empty header line without `':'`, with only non-empty lines between
/// it and the request line, makes the request fail to parse.
pub proof fn lemma_missing_colon_fails(s: Seq<char>, i: int)
    requires
        1 <= i < lines_of(s).len(),
        forall|j: int| 1 <= j <= i ==> #[trigger] lines_of(s)[j].len() > 0,
        !has_colon(lines_of(s)[i]),
    ensures
        parse_spec(s) is Err,
{
    let ls = lines_of(s);
    lemma_header_end_past(ls, 1, i);
    lemma_header_end(ls, 1);
    let hs = header_block(ls);
    assert(hs[i - 1] == ls[i]);
}

proof fn lemma_header_end_past(ls: Seq<Seq<char>>, k: int, i: int)
    requires
        1 <= k <= i < ls.len(),
        forall|j: int| k <= j <= i ==> #[trigger] ls[j].len() > 0,
    ensures
        header_end(ls, k) > i,
    decreases i - k,
{
    lemma_header_end(ls, i + 1);
    if k < i {
        lemma_header_end_past(ls, k + 1, i);
    }
}

proof fn lemma_colon_at(l: Seq<char>, i: int, c: int)
    requires
        0 <= i <= c < l.len(),
        l[c] == ':',
        forall|j: int| i <= j < c ==> #[trigger] l[j] != ':',
    ensures
        colon_pos(l, i) == c,
    decreases c - i,
{
    if i < c {
        lemma_colon_at(l, i + 1, c);
    }
}

/// A line `k: v` whose `k` holds no `':'` names header `k` trimmed, with
/// value `v` trimmed.
pub proof fn lemma_header_line(k: Seq<char>, v: Seq<char>)
    requires
        forall|j: int| 0 <= j < k.len() ==> #[trigger] k[j] != ':',
    ensures
        has_colon(k + seq![':'] + v),
        header_name(k + seq![':'] + v) == trim(k),
        header_value(k + seq![':'] + v) == trim(v),
{
    let l = k + seq![':'] + v;
    assert forall|j: int| 0 <= j < k.len() implies #[trigger] l[j] != ':' by {
        assert(l[j] == k[j]);
    }
    lemma_colon_at(l, 0, k.len() as int);
    assert(l.subrange(0, k.len() as int) =~= k);
    assert(l.subrange(k.len() as int + 1, l.len() as int) =~= v);
}

/// Each header line gives its name the value of the last line with that
/// name: a line that no later line overrides sets its own value.
pub proof fn lemma_headers_last_wins(hs: Seq<Seq<char>>, i: int)
    requires
        0 <= i < hs.len(),
        forall|j: int| i < j < hs.len() ==> header_name(#[trigger] hs[j]) != header_name(hs[i]),
    ensures
        headers_fold(hs).contains_key(header_name(hs[i])),
        headers_fold(hs)[header_name(hs[i])] == header_value(hs[i]),
    decreases hs.len(),
{
    if i < hs.len() - 1 {
        let d = hs.drop_last();
        assert forall|j: int| i < j < d.len() implies header_name(#[trigger] d[j]) != header_name(
            d[i],
        ) by {
            assert(d[j] == hs[j]);
        }
        lemma_headers_last_wins(d, i);
        assert(header_name(hs.last()) != header_name(hs[i]));
    }
}

/// In a parsed request, each header line that no later line overrides gives
/// its trimmed name its trimmed value.
pub proof fn lemma_parsed_headers(s: Seq<char>, i: int)
    requires
        parse_spec(s) is Ok,
        0 <= i < header_block(lines_of(s)).len(),
        forall|j: int|
            i < j < header_block(lines_of(s)).len() ==> header_name(
                #[trigger] header_block(lines_of(s))[j],
            ) != header_name(header_block(lines_of(s))[i]),
    ensures
        parse_spec(s) matches Ok(v) && v.3.contains_key(header_name(header_block(lines_of(s))[i]))
            && v.3[header_name(header_block(lines_of(s))[i])] == header_value(
            header_block(lines_of(s))[i],
        ),
{
    lemma_headers_last_wins(header_block(lines_of(s)), i);
}

} // verus!
