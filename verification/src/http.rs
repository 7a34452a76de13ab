//! The message model and the two pure algorithms of the server core:
//! parsing a request line into a request, and resolving a fetch
//! target into a safe relative path. Also renders responses to their
//! wire form.

use vstd::prelude::*;

use crate::text::{
    byte_length, dec_rep, is_ascii_ws, is_ws_char, push_decimal, spec_byte_len, str_eq,
};

verus! {

/// The only two methods the server implements; any other token on
/// the wire is an unsupported-method outcome, not a value of this
/// type.
#[derive(Debug, PartialEq, Eq, Structural, Clone, Copy)]
pub enum HttpMethod {
    GET,
    HEAD,
}

/// The status codes the core can produce.
#[derive(Debug, PartialEq, Eq, Structural, Clone, Copy)]
pub enum HttpResponseCode {
    Continue100,
    OK200,
    BadRequest400,
    Forbbiden403,
    NotFound404,
    MethodNotAllowed405,
    ImATeapot418,
    NotImplemented501,
    HttpVersionNotSupported505,
}

/// The code and its reason phrase, as they appear on the status line.
pub open spec fn reason_phrase(code: HttpResponseCode) -> Seq<char> {
    match code {
        HttpResponseCode::Continue100 => "100 Continue"@,
        HttpResponseCode::OK200 => "200 Ok"@,
        HttpResponseCode::BadRequest400 => "400 Bad Request"@,
        HttpResponseCode::Forbbiden403 => "403 Forbidden"@,
        HttpResponseCode::NotFound404 => "404 Not Found"@,
        HttpResponseCode::MethodNotAllowed405 => "405 Method Not Allowed"@,
        HttpResponseCode::ImATeapot418 => "418 I'm A Teapot"@,
        HttpResponseCode::NotImplemented501 => "501 Not Implemented"@,
        HttpResponseCode::HttpVersionNotSupported505 => "505 HTTP Version Not Supported"@,
    }
}

impl HttpResponseCode {
    /// The status-line fragment for this code: number and reason
    /// phrase.
    pub fn to_string(&self) -> (r: String)
        ensures
            r@ == reason_phrase(*self),
    {
        match self {
            HttpResponseCode::Continue100 => String::from_str("100 Continue"),
            HttpResponseCode::OK200 => String::from_str("200 Ok"),
            HttpResponseCode::BadRequest400 => String::from_str("400 Bad Request"),
            HttpResponseCode::Forbbiden403 => String::from_str("403 Forbidden"),
            HttpResponseCode::NotFound404 => String::from_str("404 Not Found"),
            HttpResponseCode::MethodNotAllowed405 => String::from_str("405 Method Not Allowed"),
            HttpResponseCode::ImATeapot418 => String::from_str("418 I'm A Teapot"),
            HttpResponseCode::NotImplemented501 => String::from_str("501 Not Implemented"),
            HttpResponseCode::HttpVersionNotSupported505 => String::from_str(
                "505 HTTP Version Not Supported",
            ),
        }
    }
}

/// A validated request: the method and the raw fetch target from the
/// request line, before any decoding.
#[derive(Debug)]
pub struct HttpRequest {
    pub method: HttpMethod,
    pub fetch: String,
}

impl PartialEq for HttpRequest {
    fn eq(&self, other: &Self) -> bool {
        self.method == other.method && self.fetch == other.fetch
    }
}

impl vstd::std_specs::cmp::PartialEqSpecImpl for HttpRequest {
    open spec fn obeys_eq_spec() -> bool {
        true
    }

    open spec fn eq_spec(&self, other: &Self) -> bool {
        self.method == other.method && self.fetch@ == other.fetch@
    }
}

/// A terminal response: a status code with an optional body. The
/// length field is present exactly when the body is, and then holds
/// the body's byte length.
#[derive(Debug)]
pub struct HttpResponse {
    pub code: HttpResponseCode,
    pub content: Option<String>,
    pub content_length: Option<usize>,
}

/// The representation invariant of a response: a length is carried
/// exactly when a body is, and equals the body's byte length.
pub open spec fn wf_response(r: HttpResponse) -> bool {
    match (r.content, r.content_length) {
        (Some(c), Some(n)) => n == spec_byte_len(c@),
        (None, None) => true,
        _ => false,
    }
}

impl PartialEq for HttpResponse {
    fn eq(&self, other: &Self) -> bool {
        let content_eq = match (&self.content, &other.content) {
            (Some(x), Some(y)) => *x == *y,
            (None, None) => true,
            _ => false,
        };
        let length_eq = match (&self.content_length, &other.content_length) {
            (Some(x), Some(y)) => *x == *y,
            (None, None) => true,
            _ => false,
        };
        self.code == other.code && content_eq && length_eq
    }
}

impl vstd::std_specs::cmp::PartialEqSpecImpl for HttpResponse {
    open spec fn obeys_eq_spec() -> bool {
        true
    }

    open spec fn eq_spec(&self, other: &Self) -> bool {
        &&& self.code == other.code
        &&& match (self.content, other.content) {
            (Some(x), Some(y)) => x@ == y@,
            (None, None) => true,
            _ => false,
        }
        &&& self.content_length == other.content_length
    }
}

/// The wire form of a response: the status line; then, if a length is
/// present, a content-length header and a blank line; then, if a body
/// is present, the body and a line break; and a final line break.
pub open spec fn render(r: HttpResponse) -> Seq<char> {
    "HTTP/1.1 "@ + reason_phrase(r.code) + "\r\n"@ + (match r.content_length {
        Some(n) => "Content-Length: "@ + dec_rep(n as nat) + "\r\n\r\n"@,
        None => Seq::<char>::empty(),
    }) + (match r.content {
        Some(c) => c@ + "\r\n"@,
        None => Seq::<char>::empty(),
    }) + "\r\n"@
}

impl HttpResponse {
    /// The bodyless bad-request reply.
    pub fn bad_request_400() -> (r: HttpResponse)
        ensures
            r.code == HttpResponseCode::BadRequest400,
            r.content is None,
            r.content_length is None,
            wf_response(r),
    {
        HttpResponse { code: HttpResponseCode::BadRequest400, content: None, content_length: None }
    }

    /// The bodyless forbidden reply.
    pub fn forbidden_403() -> (r: HttpResponse)
        ensures
            r.code == HttpResponseCode::Forbbiden403,
            r.content is None,
            r.content_length is None,
            wf_response(r),
    {
        HttpResponse { code: HttpResponseCode::Forbbiden403, content: None, content_length: None }
    }

    /// The response for the outcome of reading the resolved file:
    /// success carries the file's text, failure falls back on the
    /// not-found page when one could be read, and stays bodyless
    /// otherwise.
    pub fn from_file_read(content: Option<String>, fallback: Option<String>) -> (r: HttpResponse)
        ensures
            wf_response(r),
            match content {
                Some(c) => r.code == HttpResponseCode::OK200 && r.content == Some(c),
                None => r.code == HttpResponseCode::NotFound404 && r.content == fallback,
            },
    {
        match content {
            Some(c) => {
                let n = byte_length(c.as_str());
                HttpResponse {
                    code: HttpResponseCode::OK200,
                    content: Some(c),
                    content_length: Some(n),
                }
            },
            None => match fallback {
                Some(f) => {
                    let n = byte_length(f.as_str());
                    HttpResponse {
                        code: HttpResponseCode::NotFound404,
                        content: Some(f),
                        content_length: Some(n),
                    }
                },
                None => HttpResponse {
                    code: HttpResponseCode::NotFound404,
                    content: None,
                    content_length: None,
                },
            },
        }
    }

    /// Renders the response to its exact wire form.
    pub fn to_string(&self) -> (r: String)
        ensures
            r@ == render(*self),
    {
        let mut out = String::from_str("HTTP/1.1 ");
        let code_str = self.code.to_string();
        out.append(code_str.as_str());
        out.append("\r\n");
        if let Some(length) = self.content_length {
            out.append("Content-Length: ");
            push_decimal(&mut out, length);
            out.append("\r\n\r\n");
        }
        if let Some(content) = &self.content {
            out.append(content.as_str());
            out.append("\r\n");
        }
        out.append("\r\n");
        proof {
            assert(out@ =~= render(*self));
        }
        out
    }
}

/// Whether a resolved path names a file the server keeps to itself:
/// its third character is an underscore.
pub fn path_is_internal(path: &str) -> (r: bool)
    ensures
        r == (path@.len() >= 3 && path@[2] == '_'),
{
    if path.unicode_len() >= 3 {
        path.get_char(2) == '_'
    } else {
        false
    }
}

/// Relies on std's `io::Error` type: carried opaquely as the payload
/// of a failed line read; the parser only tells a failed read from a
/// successful one.
#[verifier::external_type_specification]
#[verifier::external_body]
pub struct ExIoError(std::io::Error);

/// Index of the first character at or after `i` that is not ASCII
/// whitespace (the sequence's length when there is none).
pub open spec fn skip_ws_idx(s: Seq<char>, i: int) -> int
    decreases s.len() - i,
{
    if 0 <= i < s.len() && is_ascii_ws(s[i]) {
        skip_ws_idx(s, i + 1)
    } else {
        i
    }
}

/// Index of the first character at or after `i` that is ASCII
/// whitespace (the sequence's length when there is none).
pub open spec fn skip_token_idx(s: Seq<char>, i: int) -> int
    decreases s.len() - i,
{
    if 0 <= i < s.len() && !is_ascii_ws(s[i]) {
        skip_token_idx(s, i + 1)
    } else {
        i
    }
}

pub open spec fn tok1_start(s: Seq<char>) -> int {
    skip_ws_idx(s, 0)
}

pub open spec fn tok1_end(s: Seq<char>) -> int {
    skip_token_idx(s, tok1_start(s))
}

pub open spec fn tok2_start(s: Seq<char>) -> int {
    skip_ws_idx(s, tok1_end(s))
}

pub open spec fn tok2_end(s: Seq<char>) -> int {
    skip_token_idx(s, tok2_start(s))
}

/// Whether the line splits into at least two whitespace-separated
/// tokens.
pub open spec fn has_two_tokens(s: Seq<char>) -> bool {
    tok1_start(s) < s.len() && tok2_start(s) < s.len()
}

/// The first whitespace-separated token: the method token.
pub open spec fn token1(s: Seq<char>) -> Seq<char> {
    s.subrange(tok1_start(s), tok1_end(s))
}

/// The second whitespace-separated token: the fetch target.
pub open spec fn token2(s: Seq<char>) -> Seq<char> {
    s.subrange(tok2_start(s), tok2_end(s))
}

/// The method a token names, when it names one.
pub open spec fn method_of_token(t: Seq<char>) -> Option<HttpMethod> {
    if t == "GET"@ {
        Some(HttpMethod::GET)
    } else if t == "HEAD"@ {
        Some(HttpMethod::HEAD)
    } else {
        None
    }
}

/// Whether the first line-read result is a successfully read line.
pub open spec fn good_first_line(lines: Seq<Result<String, std::io::Error>>) -> bool {
    lines.len() > 0 && lines[0] is Ok
}

/// The request line, for a sequence whose first read succeeded.
pub open spec fn request_line(lines: Seq<Result<String, std::io::Error>>) -> Seq<char> {
    (lines[0]->Ok_0)@
}

/// Whether the line-read results parse into a request: the first
/// read succeeded, the line has two tokens, and the method token
/// names an implemented method.
pub open spec fn parse_accepts(lines: Seq<Result<String, std::io::Error>>) -> bool {
    &&& good_first_line(lines)
    &&& has_two_tokens(request_line(lines))
    &&& method_of_token(token1(request_line(lines))) is Some
}

impl HttpRequest {
    /// Reads the one request line from the line-read results, in the
    /// order a reader yields them, and parses it: two tokens become
    /// the method and the verbatim fetch target, anything after them
    /// is ignored. A missing or unreadable line or a single token is
    /// a bad request; an unknown method token is unimplemented. No
    /// later line is examined.
    pub fn parse_from_lines_iterator(lines: Vec<Result<String, std::io::Error>>) -> (r: Result<
        HttpRequest,
        HttpResponse,
    >)
        ensures
            match r {
                Ok(req) => {
                    &&& parse_accepts(lines@)
                    &&& Some(req.method) == method_of_token(token1(request_line(lines@)))
                    &&& req.fetch@ == token2(request_line(lines@))
                },
                Err(resp) => {
                    &&& !parse_accepts(lines@)
                    &&& resp.content is None
                    &&& resp.content_length is None
                    &&& wf_response(resp)
                    &&& if !good_first_line(lines@) || !has_two_tokens(request_line(lines@)) {
                        resp.code == HttpResponseCode::BadRequest400
                    } else {
                        resp.code == HttpResponseCode::NotImplemented501
                    }
                },
            },
    {
        if lines.len() == 0 {
            return Err(HttpResponse::bad_request_400());
        }
        let line: &String = match &lines[0] {
            Ok(l) => l,
            Err(_) => {
                return Err(HttpResponse::bad_request_400());
            },
        };
        let s = line.as_str();
        let n = s.unicode_len();

        let mut i: usize = 0;
        while i < n && is_ws_char(s.get_char(i))
            invariant
                0 <= i <= n,
                n == s@.len(),
                skip_ws_idx(s@, 0) == skip_ws_idx(s@, i as int),
            decreases n - i,
        {
            i = i + 1;
        }
        assert(tok1_start(s@) == i);
        if i == n {
            return Err(HttpResponse::bad_request_400());
        }

        let mut j: usize = i;
        while j < n && !is_ws_char(s.get_char(j))
            invariant
                i <= j <= n,
                n == s@.len(),
                skip_token_idx(s@, i as int) == skip_token_idx(s@, j as int),
            decreases n - j,
        {
            j = j + 1;
        }
        assert(tok1_end(s@) == j);
        let method_str = s.substring_char(i, j);

        let mut k: usize = j;
        while k < n && is_ws_char(s.get_char(k))
            invariant
                j <= k <= n,
                n == s@.len(),
                skip_ws_idx(s@, j as int) == skip_ws_idx(s@, k as int),
            decreases n - k,
        {
            k = k + 1;
        }
        assert(tok2_start(s@) == k);
        if k == n {
            return Err(HttpResponse::bad_request_400());
        }

        let mut l: usize = k;
        while l < n && !is_ws_char(s.get_char(l))
            invariant
                k <= l <= n,
                n == s@.len(),
                skip_token_idx(s@, k as int) == skip_token_idx(s@, l as int),
            decreases n - l,
        {
            l = l + 1;
        }
        assert(tok2_end(s@) == l);
        let fetch_str = s.substring_char(k, l);

        let method = if str_eq(method_str, "GET") {
            HttpMethod::GET
        } else if str_eq(method_str, "HEAD") {
            HttpMethod::HEAD
        } else {
            return Err(
                HttpResponse {
                    code: HttpResponseCode::NotImplemented501,
                    content: None,
                    content_length: None,
                },
            );
        };
        Ok(HttpRequest { method, fetch: fetch_str.to_owned() })
    }
}

/// Whether the characters `c0`, `c1` stand side by side at index `i`.
pub open spec fn pair_at(s: Seq<char>, c0: char, c1: char, i: int) -> bool {
    0 <= i && i + 1 < s.len() && s[i] == c0 && s[i + 1] == c1
}

/// Whether the characters `c0`, `c1` stand side by side anywhere in
/// the sequence.
pub open spec fn has_pair(s: Seq<char>, c0: char, c1: char) -> bool {
    exists|i: int| pair_at(s, c0, c1, i)
}

/// A fetch target the resolver refuses outright: it contains `//` or
/// `..`, or ends with a slash — the directory-escape and
/// directory-listing attempts.
pub open spec fn forbidden_fetch(f: Seq<char>) -> bool {
    has_pair(f, '/', '/') || has_pair(f, '.', '.') || (f.len() > 0 && f[f.len() - 1] == '/')
}

/// Every literal `%20` replaced by a single space; the only
/// percent-decoding the resolver performs.
pub open spec fn decode_spaces(f: Seq<char>) -> Seq<char>
    decreases f.len(),
{
    if f.len() >= 3 && f[0] == '%' && f[1] == '2' && f[2] == '0' {
        seq![' '] + decode_spaces(f.subrange(3, f.len() as int))
    } else if f.len() == 0 {
        Seq::<char>::empty()
    } else {
        seq![f[0]] + decode_spaces(f.subrange(1, f.len() as int))
    }
}

/// The path a fetch target resolves to when the resolver accepts it:
/// the default file for the bare root target, otherwise the
/// space-decoded target rooted at the working directory.
pub open spec fn resolved_path(f: Seq<char>, default: Seq<char>) -> Seq<char> {
    if f == "/"@ {
        "./"@ + default
    } else {
        let d = decode_spaces(f);
        if d.len() > 0 && d[0] == '/' {
            "."@ + d
        } else {
            "./"@ + d
        }
    }
}

/// The body of the teapot refusal page.
pub open spec fn teapot_page() -> Seq<char> {
    "\
<!DOCTYPE html>
<html lang=\"en\">
    <head>
        <meta charset=\"utf-8\">
        <title>QST Teapots Inc.</title>
    </head>

    <body>
        <h1>418 - I'm a Teapot</h1>
        <p>
        The server refuses to brew coffee because it is a teapot.
        </p>
    </body>
</html>
"@
}

/// Whether the characters `c0`, `c1` stand side by side anywhere in
/// the string.
fn contains_pair(s: &str, c0: char, c1: char) -> (r: bool)
    ensures
        r == has_pair(s@, c0, c1),
{
    let n = s.unicode_len();
    if n < 2 {
        return false;
    }
    let mut i: usize = 0;
    while i < n - 1
        invariant
            0 <= i <= n,
            2 <= n,
            n == s@.len(),
            forall|j: int| 0 <= j < i ==> !pair_at(s@, c0, c1, j),
        decreases n - i,
    {
        if s.get_char(i) == c0 && s.get_char(i + 1) == c1 {
            proof {
                assert(pair_at(s@, c0, c1, i as int));
            }
            return true;
        }
        i = i + 1;
    }
    proof {
        assert forall|j: int| !pair_at(s@, c0, c1, j) by {
            if 0 <= j && j + 1 < s@.len() {
                assert(j < i ==> !pair_at(s@, c0, c1, j));
            }
        }
    }
    false
}

/// Builds the space-decoded form of the string.
fn decode_spaces_exec(s: &str) -> (r: String)
    ensures
        r@ == decode_spaces(s@),
{
    let n = s.unicode_len();
    let mut out = String::new();
    proof {
        assert(s@.subrange(0, n as int) =~= s@);
        assert(out@ + decode_spaces(s@) =~= decode_spaces(s@));
    }
    let mut i: usize = 0;
    while i < n
        invariant
            0 <= i <= n,
            n == s@.len(),
            decode_spaces(s@) == out@ + decode_spaces(s@.subrange(i as int, n as int)),
        decreases n - i,
    {
        let ghost rest = s@.subrange(i as int, n as int);
        if n - i >= 3 && s.get_char(i) == '%' && s.get_char(i + 1) == '2' && s.get_char(i + 2)
            == '0' {
            out.push(' ');
            proof {
                assert(rest.subrange(3, rest.len() as int) =~= s@.subrange(
                    i + 3 as int,
                    n as int,
                ));
                assert(decode_spaces(rest) == seq![' '] + decode_spaces(
                    s@.subrange(i + 3 as int, n as int),
                ));
                assert(out@ + decode_spaces(s@.subrange(i + 3 as int, n as int)) =~= decode_spaces(
                    s@,
                ));
            }
            i = i + 3;
        } else {
            let c = s.get_char(i);
            out.push(c);
            proof {
                assert(rest.subrange(1, rest.len() as int) =~= s@.subrange(
                    i + 1 as int,
                    n as int,
                ));
                assert(decode_spaces(rest) == seq![c] + decode_spaces(
                    s@.subrange(i + 1 as int, n as int),
                ));
                assert(out@ + decode_spaces(s@.subrange(i + 1 as int, n as int)) =~= decode_spaces(
                    s@,
                ));
            }
            i = i + 1;
        }
    }
    proof {
        assert(s@.subrange(n as int, n as int) =~= Seq::<char>::empty());
        assert(out@ =~= decode_spaces(s@));
    }
    out
}

impl HttpRequest {
    /// Maps the fetch target to the path to read, always rooted at
    /// the working directory. The bare root target resolves to the
    /// default file; the coffee target is refused as a teapot with
    /// the refusal page as body; a target containing `//` or `..` or
    /// ending with a slash is forbidden; anything else has each
    /// literal `%20` replaced by a space and is prefixed with `.` or
    /// `./`.
    pub fn match_fetch(&self, default: &str) -> (r: Result<String, HttpResponse>)
        ensures
            match r {
                Ok(path) => {
                    &&& path@ == resolved_path(self.fetch@, default@)
                    &&& (self.fetch@ == "/"@ || (self.fetch@ != "//coffee"@ && !forbidden_fetch(
                        self.fetch@,
                    )))
                },
                Err(resp) => {
                    &&& self.fetch@ != "/"@
                    &&& wf_response(resp)
                    &&& if self.fetch@ == "//coffee"@ {
                        &&& resp.code == HttpResponseCode::ImATeapot418
                        &&& resp.content is Some
                        &&& (resp.content->0)@ == teapot_page()
                        &&& teapot_page().len() > 0
                    } else {
                        &&& forbidden_fetch(self.fetch@)
                        &&& resp.code == HttpResponseCode::Forbbiden403
                        &&& resp.content is None
                        &&& resp.content_length is None
                    }
                },
            },
    {
        let fetch = self.fetch.as_str();
        if str_eq(fetch, "/") {
            Ok(String::from_str("./").concat(default))
        } else if str_eq(fetch, "//coffee") {
            let content = String::from_str(
                "\
<!DOCTYPE html>
<html lang=\"en\">
    <head>
        <meta charset=\"utf-8\">
        <title>QST Teapots Inc.</title>
    </head>

    <body>
        <h1>418 - I'm a Teapot</h1>
        <p>
        The server refuses to brew coffee because it is a teapot.
        </p>
    </body>
</html>
",
            );
            let n = byte_length(content.as_str());
            proof {
                reveal_strlit(
                    "\
<!DOCTYPE html>
<html lang=\"en\">
    <head>
        <meta charset=\"utf-8\">
        <title>QST Teapots Inc.</title>
    </head>

    <body>
        <h1>418 - I'm a Teapot</h1>
        <p>
        The server refuses to brew coffee because it is a teapot.
        </p>
    </body>
</html>
",
                );
            }
            Err(
                HttpResponse {
                    code: HttpResponseCode::ImATeapot418,
                    content: Some(content),
                    content_length: Some(n),
                },
            )
        } else if contains_pair(fetch, '/', '/') || contains_pair(fetch, '.', '.') || (
        fetch.unicode_len() > 0 && fetch.get_char(fetch.unicode_len() - 1) == '/') {
            Err(HttpResponse::forbidden_403())
        } else {
            let decoded = decode_spaces_exec(fetch);
            if decoded.as_str().unicode_len() > 0 && decoded.as_str().get_char(0) == '/' {
                Ok(String::from_str(".").concat(decoded.as_str()))
            } else {
                Ok(String::from_str("./").concat(decoded.as_str()))
            }
        }
    }
}

/// The first character of a decoded sequence: a space put in for a
/// `%20`, or the sequence's own first character.
proof fn lemma_decode_head(g: Seq<char>)
    requires
        g.len() > 0,
    ensures
        decode_spaces(g).len() > 0,
        decode_spaces(g)[0] == ' ' || decode_spaces(g)[0] == g[0],
{
    if g.len() >= 3 && g[0] == '%' && g[1] == '2' && g[2] == '0' {
        assert(decode_spaces(g) == seq![' '] + decode_spaces(g.subrange(3, g.len() as int)));
    } else {
        assert(decode_spaces(g) == seq![g[0]] + decode_spaces(g.subrange(1, g.len() as int)));
    }
}

/// Decoding cannot put two equal characters other than spaces side by
/// side where the raw target did not already have them.
proof fn lemma_decode_adds_no_pair(f: Seq<char>, c: char)
    requires
        c != ' ',
        !has_pair(f, c, c),
    ensures
        !has_pair(decode_spaces(f), c, c),
    decreases f.len(),
{
    if f.len() == 0 {
    } else if f.len() >= 3 && f[0] == '%' && f[1] == '2' && f[2] == '0' {
        let rest = f.subrange(3, f.len() as int);
        assert forall|i: int| !pair_at(rest, c, c, i) by {
            if 0 <= i && i + 1 < rest.len() {
                assert(!pair_at(f, c, c, i + 3));
            }
        }
        lemma_decode_adds_no_pair(rest, c);
        let d = decode_spaces(f);
        let dt = decode_spaces(rest);
        assert(d == seq![' '] + dt);
        assert forall|i: int| !pair_at(d, c, c, i) by {
            if 0 <= i && i + 1 < d.len() {
                if i == 0 {
                    assert(d[0] == ' ');
                } else {
                    assert(d[i] == dt[i - 1] && d[i + 1] == dt[i]);
                    assert(!pair_at(dt, c, c, i - 1));
                }
            }
        }
    } else {
        let rest = f.subrange(1, f.len() as int);
        assert forall|i: int| !pair_at(rest, c, c, i) by {
            if 0 <= i && i + 1 < rest.len() {
                assert(!pair_at(f, c, c, i + 1));
            }
        }
        lemma_decode_adds_no_pair(rest, c);
        let d = decode_spaces(f);
        let dt = decode_spaces(rest);
        assert(d == seq![f[0]] + dt);
        assert forall|i: int| !pair_at(d, c, c, i) by {
            if 0 <= i && i + 1 < d.len() {
                if i == 0 {
                    if f[0] == c && d[1] == c {
                        assert(dt.len() > 0);
                        if rest.len() == 0 {
                            assert(dt =~= Seq::<char>::empty());
                        }
                        lemma_decode_head(rest);
                        assert(dt[0] == rest[0]);
                        assert(pair_at(f, c, c, 0));
                    }
                } else {
                    assert(d[i] == dt[i - 1] && d[i + 1] == dt[i]);
                    assert(!pair_at(dt, c, c, i - 1));
                }
            }
        }
    }
}

/// Resolution keeps an accepted target under the working directory:
/// the path starts with `./`, and still contains neither `..` nor
/// `//` — decoding cannot introduce a path escape. The bare root
/// target stands aside: it resolves to the configured default file.
pub proof fn lemma_resolution_stays_rooted(f: Seq<char>, default: Seq<char>)
    requires
        f != "/"@,
        !forbidden_fetch(f),
    ensures
        ({
            let p = resolved_path(f, default);
            &&& p.len() >= 2
            &&& p[0] == '.'
            &&& p[1] == '/'
            &&& !has_pair(p, '.', '.')
            &&& !has_pair(p, '/', '/')
        }),
{
    reveal_strlit(".");
    reveal_strlit("./");
    let d = decode_spaces(f);
    lemma_decode_adds_no_pair(f, '.');
    lemma_decode_adds_no_pair(f, '/');
    if d.len() > 0 && d[0] == '/' {
        let p = "."@ + d;
        assert(p[0] == '.' && p[1] == '/');
        assert forall|i: int| !pair_at(p, '.', '.', i) by {
            if 0 <= i && i + 1 < p.len() {
                if i == 0 {
                    assert(p[1] == '/');
                } else {
                    assert(p[i] == d[i - 1] && p[i + 1] == d[i]);
                    assert(!pair_at(d, '.', '.', i - 1));
                }
            }
        }
        assert forall|i: int| !pair_at(p, '/', '/', i) by {
            if 0 <= i && i + 1 < p.len() {
                if i == 0 {
                    assert(p[0] == '.');
                } else {
                    assert(p[i] == d[i - 1] && p[i + 1] == d[i]);
                    assert(!pair_at(d, '/', '/', i - 1));
                }
            }
        }
    } else {
        let p = "./"@ + d;
        assert(p[0] == '.' && p[1] == '/');
        assert forall|i: int| !pair_at(p, '.', '.', i) by {
            if 0 <= i && i + 1 < p.len() {
                if i == 0 {
                    assert(p[1] == '/');
                } else if i == 1 {
                    assert(p[1] == '/');
                } else {
                    assert(p[i] == d[i - 2] && p[i + 1] == d[i - 1]);
                    assert(!pair_at(d, '.', '.', i - 2));
                }
            }
        }
        assert forall|i: int| !pair_at(p, '/', '/', i) by {
            if 0 <= i && i + 1 < p.len() {
                if i == 0 {
                    assert(p[0] == '.');
                } else if i == 1 {
                    assert(p[2] == d[0] && d[0] != '/');
                } else {
                    assert(p[i] == d[i - 2] && p[i + 1] == d[i - 1]);
                    assert(!pair_at(d, '/', '/', i - 2));
                }
            }
        }
    }
}

/// Resolution is a pure function of the fetch target and the default
/// file name: resolving the same target twice yields the same path.
pub proof fn lemma_resolution_deterministic(
    f: Seq<char>,
    default: Seq<char>,
    p1: Seq<char>,
    p2: Seq<char>,
)
    requires
        p1 == resolved_path(f, default),
        p2 == resolved_path(f, default),
    ensures
        p1 == p2,
{
}

} // verus!
