use vstd::prelude::*;
use vstd::utf8::encode_utf8;

use crate::headers::{entries_insert, entries_map, key_pos, HeaderView, Headers};
use crate::text::{decimal, push_decimal};

verus! {

/// The length in bytes of the UTF-8 encoding of `b`.
pub open spec fn byte_len(b: Seq<char>) -> usize {
    encode_utf8(b).len() as usize
}

/// The headers that every response starts with.
pub open spec fn default_entries(body: Seq<char>) -> Seq<HeaderView> {
    seq![
        ("Content-Type"@, "text/html"@),
        ("Content-Length"@, decimal(byte_len(body) as nat)),
    ]
}

/// Header entries as wire text, each as `name: value` and CRLF.
pub open spec fn header_lines(s: Seq<HeaderView>) -> Seq<char>
    decreases s.len(),
{
    if s.len() == 0 {
        seq![]
    } else {
        header_lines(s.drop_last()) + s.last().0 + ": "@ + s.last().1 + "\r\n"@
    }
}

/// The `Content-Length` line that serialization appends after the headers.
pub open spec fn length_line(body: Seq<char>) -> Seq<char> {
    "Content-Length: "@ + decimal(byte_len(body) as nat) + "\r\n"@
}

/// The wire form of a response: status line (whose reason phrase is always
/// `OK`), the headers, a `Content-Length` line, a blank line, the body.
pub open spec fn serialize(status: u16, entries: Seq<HeaderView>, body: Seq<char>) -> Seq<char> {
    "HTTP/1.1 "@ + decimal(status as nat) + " OK\r\n"@ + header_lines(entries) + length_line(body)
        + "\r\n"@ + body
}

/// An HTTP response: status code, headers and body.
#[derive(Debug)]
pub struct HttpResponse {
    status_code: u16,
    headers: Headers,
    body: String,
}

/// A response as values: status code, header entries in order, body.
pub type ResponseView = (u16, Seq<HeaderView>, Seq<char>);

impl View for HttpResponse {
    type V = ResponseView;

    closed spec fn view(&self) -> ResponseView {
        (self.status_code, self.headers@, self.body@)
    }
}

impl HttpResponse {
    pub closed spec fn wf(&self) -> bool {
        self.headers.wf()
    }

    /// The header mapping of this response.
    pub closed spec fn header_map(&self) -> Map<Seq<char>, Seq<char>> {
        self.headers.map()
    }

    /// A response with the given status and body, and the headers
    /// `Content-Type: text/html` and `Content-Length: <bytes of body>`.
    pub fn new(status_code: u16, body: String) -> (r: HttpResponse)
        ensures
            r@ == (status_code, default_entries(body@), body@),
            r.wf(),
            r.header_map() == entries_map(default_entries(body@)),
    {
        proof {
            reveal_strlit("Content-Type");
            reveal_strlit("Content-Length");
        }
        let mut headers = Headers::new();
        headers.insert(String::from_str("Content-Type"), String::from_str("text/html"));
        let mut len_text = String::new();
        push_decimal(&mut len_text, body.as_str().len() as u64);
        let ghost e0 = headers@;
        assert(e0 =~= seq![("Content-Type"@, "text/html"@)]);
        assert("Content-Type"@.len() != "Content-Length"@.len());
        assert(key_pos(e0, "Content-Length"@, 1) == 1);
        assert(key_pos(e0, "Content-Length"@, 0) == 1);
        headers.insert(String::from_str("Content-Length"), len_text);
        assert(headers@ =~= default_entries(body@));
        HttpResponse { status_code, headers, body }
    }

    /// Sets header `key` to `value`, replacing any value it had.
    pub fn add_header(&mut self, key: &str, value: &str)
        requires
            old(self).wf(),
        ensures
            final(self)@ == (old(self)@.0, entries_insert(old(self)@.1, key@, value@), old(self)@.2),
            final(self).wf(),
            final(self).header_map() == old(self).header_map().insert(key@, value@),
    {
        self.headers.insert(String::from_str(key), String::from_str(value));
    }

    pub fn status_code(&self) -> (r: u16)
        ensures
            r == self@.0,
    {
        self.status_code
    }

    pub fn body(&self) -> (r: &str)
        ensures
            r@ == self@.2,
    {
        self.body.as_str()
    }

    pub fn headers(&self) -> (r: &Headers)
        ensures
            r@ == self@.1,
            r.map() == self.header_map(),
            self.wf() ==> r.wf(),
    {
        &self.headers
    }

    /// The wire form of this response.
    pub fn to_string(&self) -> (r: String)
        ensures
            r@ == serialize(self@.0, self@.1, self@.2),
    {
        let mut out = String::from_str("HTTP/1.1 ");
        push_decimal(&mut out, self.status_code as u64);
        out.append(" OK\r\n");
        let ghost start = out@;
        let n = self.headers.len();
        let mut i: usize = 0;
        while i < n
            invariant
                n == self.headers@.len(),
                i <= n,
                out@ == start + header_lines(self.headers@.subrange(0, i as int)),
            decreases n - i,
        {
            let (k, v) = self.headers.entry(i);
            out.append(k);
            out.append(": ");
            out.append(v);
            out.append("\r\n");
            proof {
                let t = self.headers@.subrange(0, i + 1);
                assert(t.drop_last() =~= self.headers@.subrange(0, i as int));
            }
            i = i + 1;
        }
        assert(self.headers@.subrange(0, n as int) =~= self.headers@);
        out.append("Content-Length: ");
        push_decimal(&mut out, self.body.as_str().len() as u64);
        out.append("\r\n\r\n");
        out.append(self.body.as_str());
        proof {
            reveal_strlit("\r\n\r\n");
            reveal_strlit("\r\n");
            assert("\r\n\r\n"@ =~= "\r\n"@ + "\r\n"@);
        }
        assert(out@ =~= serialize(self@.0, self@.1, self@.2));
        out
    }
}

/// A response built with body `b` serializes to the status line, the
/// `Content-Type` header, the `Content-Length` line twice (once from the
/// headers, once appended), a blank line, and `b` itself.
pub proof fn lemma_body_round_trip(status: u16, b: Seq<char>)
    ensures
        serialize(status, default_entries(b), b) == "HTTP/1.1 "@ + decimal(status as nat)
            + " OK\r\n"@ + "Content-Type: text/html\r\n"@ + length_line(b) + length_line(b)
            + "\r\n"@ + b,
        ({
            let t = serialize(status, default_entries(b), b);
            t.subrange(t.len() - b.len(), t.len() as int) == b
        }),
{
    reveal_strlit("Content-Type: text/html\r\n");
    reveal_strlit("Content-Type");
    reveal_strlit(": ");
    reveal_strlit("text/html");
    reveal_strlit("\r\n");
    reveal_strlit("Content-Length");
    reveal_strlit("Content-Length: ");
    let e = default_entries(b);
    assert(e.drop_last() =~= seq![("Content-Type"@, "text/html"@)]);
    assert(e.drop_last().drop_last() =~= Seq::<HeaderView>::empty());
    assert(header_lines(e.drop_last().drop_last()) =~= Seq::<char>::empty());
    assert(header_lines(e.drop_last()) =~= "Content-Type: text/html\r\n"@);
    assert(header_lines(e) =~= "Content-Type: text/html\r\n"@ + length_line(b));
    let t = serialize(status, e, b);
    assert(t =~= "HTTP/1.1 "@ + decimal(status as nat) + " OK\r\n"@ + "Content-Type: text/html\r\n"@
        + length_line(b) + length_line(b) + "\r\n"@ + b);
    assert(t.subrange(t.len() - b.len(), t.len() as int) =~= b);
}

} // verus!
