//! A minimal HTTP/1.1 front end: parses a request, hands it to the handler of
//! its method, and builds response headers.

use vstd::prelude::*;
use vstd::string::is_ascii;
use vstd::utf8::{valid_utf8, decode_utf8};
use crate::text::{
    ascii, decimal, push_ascii, push_decimal, decode_chars, string_from_chars, is_ws,
    is_whitespace,
};

verus! {

/// Why a request could not be served.
#[derive(Debug, Clone, Copy, PartialEq, Eq, Structural)]
pub enum HttpError {
    ParseError,
    CallbackNotFound,
    Unsupported,
}

/// The content type announced by a response.
#[derive(Debug, Clone, Copy, PartialEq, Eq, Structural)]
pub enum HttpContentType {
    Text,
    Data,
}

/// The content encoding announced by a response.
#[derive(Debug, Clone, Copy, PartialEq, Eq, Structural)]
pub enum HttpEncodingType {
    Plain,
    Gzip,
}

/// The header line that announces `t`.
pub open spec fn content_type_line(t: HttpContentType) -> Seq<char> {
    match t {
        HttpContentType::Data => "Content-Type: application/data\r\n"@,
        HttpContentType::Text => "Content-Type: text/html\r\n"@,
    }
}

/// The header line that announces `e`, if any.
pub open spec fn encoding_line(e: HttpEncodingType) -> Seq<char> {
    match e {
        HttpEncodingType::Gzip => "Content-Encoding: gzip\r\n"@,
        HttpEncodingType::Plain => Seq::empty(),
    }
}

impl HttpContentType {
    /// The header line that announces this type.
    pub fn as_str(&self) -> (r: &'static str)
        ensures
            r@ == content_type_line(*self),
            is_ascii(r),
    {
        match self {
            HttpContentType::Data => {
                proof {
                    reveal_strlit("Content-Type: application/data\r\n");
                }
                "Content-Type: application/data\r\n"
            },
            HttpContentType::Text => {
                proof {
                    reveal_strlit("Content-Type: text/html\r\n");
                }
                "Content-Type: text/html\r\n"
            },
        }
    }
}

impl HttpEncodingType {
    /// The header line that announces this encoding (empty for none).
    pub fn as_str(&self) -> (r: &'static str)
        ensures
            r@ == encoding_line(*self),
            is_ascii(r),
    {
        match self {
            HttpEncodingType::Gzip => {
                proof {
                    reveal_strlit("Content-Encoding: gzip\r\n");
                }
                "Content-Encoding: gzip\r\n"
            },
            _ => {
                proof {
                    reveal_strlit("");
                }
                ""
            },
        }
    }
}

/// The header of a `200 OK` response with a body of `len` bytes.
pub open spec fn ok_header(len: nat, t: HttpContentType, e: HttpEncodingType) -> Seq<u8> {
    ascii("HTTP/1.1 200 OK\r\n"@) + ascii(content_type_line(t)) + ascii(encoding_line(e)) + ascii(
        "Content-Length: "@,
    ) + decimal(len) + ascii("\r\n"@) + ascii("Connection: close\r\n\r\n"@)
}

/// The header of a `200 OK` response whose body is `data` (none: empty), of type
/// `content_type`, with `encoding_type` (none: no encoding line).
pub fn gen_http_header(
    data: Option<&[u8]>,
    content_type: HttpContentType,
    encoding_type: Option<HttpEncodingType>,
) -> (r: Vec<u8>)
    ensures
        r@ == ok_header(
            match data {
                Some(d) => d@.len(),
                None => 0,
            },
            content_type,
            match encoding_type {
                Some(e) => e,
                None => HttpEncodingType::Plain,
            },
        ),
{
    let len: usize = match data {
        Some(d) => d.len(),
        None => 0,
    };
    let enc = match encoding_type {
        Some(e) => e,
        None => HttpEncodingType::Plain,
    };
    let mut out: Vec<u8> = Vec::new();
    proof {
        reveal_strlit("HTTP/1.1 200 OK\r\n");
        reveal_strlit("Content-Length: ");
        reveal_strlit("\r\n");
        reveal_strlit("Connection: close\r\n\r\n");
    }
    push_ascii(&mut out, "HTTP/1.1 200 OK\r\n");
    push_ascii(&mut out, content_type.as_str());
    push_ascii(&mut out, enc.as_str());
    push_ascii(&mut out, "Content-Length: ");
    push_decimal(&mut out, len as u64);
    push_ascii(&mut out, "\r\n");
    push_ascii(&mut out, "Connection: close\r\n\r\n");
    out
}

/// The text of the response to a request for an unknown resource.
pub open spec fn not_found_text() -> Seq<char> {
    "HTTP/1.1 404 Not Found\r\nContent-Type: text/plain\r\nContent-Length: 13\r\nConnection: close\r\n\r\n404 Not Found"@
}

/// The response to a request for an unknown resource.
pub fn http_404_response() -> (r: Vec<u8>)
    ensures
        r@ == ascii(not_found_text()),
{
    let mut out: Vec<u8> = Vec::new();
    proof {
        reveal_strlit(
            "HTTP/1.1 404 Not Found\r\nContent-Type: text/plain\r\nContent-Length: 13\r\nConnection: close\r\n\r\n404 Not Found",
        );
    }
    push_ascii(
        &mut out,
        "HTTP/1.1 404 Not Found\r\nContent-Type: text/plain\r\nContent-Length: 13\r\nConnection: close\r\n\r\n404 Not Found",
    );
    out
}

/// A parsed request.
pub struct HttpRequest {
    pub method: String,
    pub path: String,
    pub body: String,
}

/// Serves the requests of one method.
pub trait HttpCallback {
    fn handle_request(&self, request: &HttpRequest) -> Vec<u8>;
}

/// The methods this server serves.
#[derive(Debug, Clone, Copy, PartialEq, Eq, Structural)]
pub enum HttpMethod {
    Get,
    Post,
}

/// The method of a request that parsing admitted (a GET or a POST).
pub fn request_method(request: &HttpRequest) -> (r: HttpMethod)
    requires
        request.method@ == seq!['G', 'E', 'T'] || request.method@ == seq!['P', 'O', 'S', 'T'],
    ensures
        r == HttpMethod::Get <==> request.method@ == seq!['G', 'E', 'T'],
{
    let m = chars_of_string(&request.method);
    if m.len() == 3 {
        HttpMethod::Get
    } else {
        HttpMethod::Post
    }
}

/// The first index from `i` on that does not hold white space (or the end).
pub open spec fn ws_end(s: Seq<char>, i: int) -> int
    decreases s.len() - i,
{
    if i >= s.len() || !is_ws(s[i]) {
        i
    } else {
        ws_end(s, i + 1)
    }
}

/// The first index from `i` on that holds white space (or the end).
pub open spec fn word_end(s: Seq<char>, i: int) -> int
    decreases s.len() - i,
{
    if i >= s.len() || is_ws(s[i]) {
        i
    } else {
        word_end(s, i + 1)
    }
}

/// The first index from `i` on that holds `c` (or the end).
pub open spec fn find_char(s: Seq<char>, i: int, c: char) -> int
    decreases s.len() - i,
{
    if i >= s.len() || s[i] == c {
        i
    } else {
        find_char(s, i + 1, c)
    }
}

/// The first index from `i` on where `"\r\n\r\n"` starts, or -1.
pub open spec fn find_blank_line(s: Seq<char>, i: int) -> int
    decreases s.len() - i,
{
    if i + 4 > s.len() {
        -1
    } else if s.subrange(i, i + 4) == seq!['\r', '\n', '\r', '\n'] {
        i
    } else {
        find_blank_line(s, i + 1)
    }
}

/// What parsing the request `b` gives: its method, path and body, or the error.
/// The method and path are the first two words of the first line; the body is
/// what follows the first empty line.
pub open spec fn http_parse(b: Seq<u8>) -> Result<(Seq<char>, Seq<char>, Seq<char>), HttpError> {
    if !valid_utf8(b) {
        Err(HttpError::ParseError)
    } else {
        let cs = decode_utf8(b);
        let line = cs.take(find_char(cs, 0, '\n'));
        let ms = ws_end(line, 0);
        let me = word_end(line, ms);
        let method = line.subrange(ms, me);
        if method != seq!['G', 'E', 'T'] && method != seq!['P', 'O', 'S', 'T'] {
            Err(HttpError::Unsupported)
        } else {
            let ps = ws_end(line, me);
            if ps >= line.len() {
                Err(HttpError::ParseError)
            } else if find_blank_line(cs, 0) < 0 {
                Err(HttpError::ParseError)
            } else {
                Ok((method, line.subrange(ps, word_end(line, ps)), cs.skip(find_blank_line(cs, 0) + 4)))
            }
        }
    }
}

/// Skips white space in `s[i..end]`.
fn skip_ws(s: &Vec<char>, end: usize, i: usize) -> (r: usize)
    requires
        i <= end <= s@.len(),
    ensures
        r == ws_end(s@.take(end as int), i as int),
        i <= r <= end,
{
    let ghost line = s@.take(end as int);
    let mut j = i;
    while j < end && is_whitespace(s[j])
        invariant
            i <= j <= end,
            end <= s@.len(),
            line == s@.take(end as int),
            ws_end(line, j as int) == ws_end(line, i as int),
        decreases end - j,
    {
        j = j + 1;
    }
    j
}

/// Skips a word in `s[i..end]`.
fn skip_word(s: &Vec<char>, end: usize, i: usize) -> (r: usize)
    requires
        i <= end <= s@.len(),
    ensures
        r == word_end(s@.take(end as int), i as int),
        i <= r <= end,
{
    let ghost line = s@.take(end as int);
    let mut j = i;
    while j < end && !is_whitespace(s[j])
        invariant
            i <= j <= end,
            end <= s@.len(),
            line == s@.take(end as int),
            word_end(line, j as int) == word_end(line, i as int),
        decreases end - j,
    {
        j = j + 1;
    }
    j
}

/// Where the first line of `s` ends.
fn find_newline(s: &Vec<char>) -> (r: usize)
    ensures
        r == find_char(s@, 0, '\n'),
        r <= s@.len(),
{
    let n = s.len();
    let mut j: usize = 0;
    while j < n && s[j] != '\n'
        invariant
            j <= n,
            n == s@.len(),
            find_char(s@, j as int, '\n') == find_char(s@, 0, '\n'),
        decreases n - j,
    {
        j = j + 1;
    }
    j
}

/// Where the first `"\r\n\r\n"` of `s` starts.
fn find_blank(s: &Vec<char>) -> (r: Option<usize>)
    ensures
        r is None <==> find_blank_line(s@, 0) < 0,
        r matches Some(i) ==> i == find_blank_line(s@, 0) && i + 4 <= s@.len(),
{
    let n = s.len();
    let mut j: usize = 0;
    while n >= 4 && j <= n - 4
        invariant
            n == s@.len(),
            j <= n,
            find_blank_line(s@, j as int) == find_blank_line(s@, 0),
        decreases n - j,
    {
        if s[j] == '\r' && s[j + 1] == '\n' && s[j + 2] == '\r' && s[j + 3] == '\n' {
            assert(s@.subrange(j as int, j + 4) =~= seq!['\r', '\n', '\r', '\n']);
            return Some(j);
        }
        assert(s@.subrange(j as int, j + 4)[0] == s@[j as int]);
        assert(s@.subrange(j as int, j + 4)[1] == s@[j + 1]);
        assert(s@.subrange(j as int, j + 4)[2] == s@[j + 2]);
        assert(s@.subrange(j as int, j + 4)[3] == s@[j + 3]);
        j = j + 1;
    }
    assert(j + 4 > n);
    None
}

/// Whether `s[a..b]` is `GET` or `POST`.
fn supported_method(s: &Vec<char>, a: usize, b: usize) -> (r: bool)
    requires
        a <= b <= s@.len(),
    ensures
        r == (s@.subrange(a as int, b as int) == seq!['G', 'E', 'T'] || s@.subrange(a as int, b as int)
            == seq!['P', 'O', 'S', 'T']),
{
    let ghost m = s@.subrange(a as int, b as int);
    if b - a == 3 && s[a] == 'G' && s[a + 1] == 'E' && s[a + 2] == 'T' {
        assert(m =~= seq!['G', 'E', 'T']);
        true
    } else if b - a == 4 && s[a] == 'P' && s[a + 1] == 'O' && s[a + 2] == 'S' && s[a + 3] == 'T' {
        assert(m =~= seq!['P', 'O', 'S', 'T']);
        true
    } else {
        assert(m.len() == 3 ==> m[0] == s@[a as int] && m[1] == s@[a + 1] && m[2] == s@[a + 2]);
        assert(m.len() == 4 ==> m[0] == s@[a as int] && m[1] == s@[a + 1] && m[2] == s@[a + 2]
            && m[3] == s@[a + 3]);
        false
    }
}

/// Parses the request in `request_buf`.
pub fn parse_http_request(request_buf: &[u8]) -> (r: Result<HttpRequest, HttpError>)
    ensures
        r is Ok <==> http_parse(request_buf@) is Ok,
        r matches Err(e) ==> http_parse(request_buf@) == Err::<(Seq<char>, Seq<char>, Seq<char>), HttpError>(e),
        r matches Ok(req) ==> (req.method@, req.path@, req.body@) == http_parse(request_buf@)->Ok_0,
{
    let cs = match decode_chars(request_buf) {
        Some(cs) => cs,
        None => return Err(HttpError::ParseError),
    };
    let lend = find_newline(&cs);
    let ghost line = cs@.take(lend as int);
    let ms = skip_ws(&cs, lend, 0);
    let me = skip_word(&cs, lend, ms);
    assert(line.subrange(ms as int, me as int) =~= cs@.subrange(ms as int, me as int));
    if !supported_method(&cs, ms, me) {
        return Err(HttpError::Unsupported);
    }
    let ps = skip_ws(&cs, lend, me);
    if ps >= lend {
        return Err(HttpError::ParseError);
    }
    let pe = skip_word(&cs, lend, ps);
    assert(line.subrange(ps as int, pe as int) =~= cs@.subrange(ps as int, pe as int));
    let bi = match find_blank(&cs) {
        Some(i) => i,
        None => return Err(HttpError::ParseError),
    };
    let n = cs.len();
    assert(bi + 4 <= n);
    let all = cs.as_slice();
    let method = string_from_chars(&all[ms..me]);
    let path = string_from_chars(&all[ps..pe]);
    let body = string_from_chars(&all[bi + 4..n]);
    assert(all@.subrange(bi + 4, cs@.len() as int) =~= cs@.skip(bi + 4));
    Ok(HttpRequest { method, path, body })
}

/// An HTTP server that hands GET requests to one handler and POST requests to
/// another.
pub struct Httpserver<G: HttpCallback, P: HttpCallback> {
    get: G,
    post: P,
}

impl<G: HttpCallback, P: HttpCallback> Httpserver<G, P> {
    /// The handler of GET requests.
    pub closed spec fn get_handler(&self) -> G {
        self.get
    }

    /// The handler of POST requests.
    pub closed spec fn post_handler(&self) -> P {
        self.post
    }

    pub fn new(get: G, post: P) -> (r: Self)
        ensures
            r.get_handler() == get,
            r.post_handler() == post,
    {
        Httpserver { get, post }
    }

    /// Parses the request in `request_buf` and answers it with the handler of
    /// its method; fails exactly when parsing does.
    pub fn parse_request(&mut self, request_buf: &[u8]) -> (r: Result<Vec<u8>, HttpError>)
        ensures
            final(self).get_handler() == old(self).get_handler(),
            final(self).post_handler() == old(self).post_handler(),
            r is Ok <==> http_parse(request_buf@) is Ok,
            r matches Err(e) ==> http_parse(request_buf@) == Err::<(Seq<char>, Seq<char>, Seq<char>), HttpError>(e),
    {
        let request = parse_http_request(request_buf)?;
        match request_method(&request) {
            HttpMethod::Get => Ok(self.get.handle_request(&request)),
            HttpMethod::Post => Ok(self.post.handle_request(&request)),
        }
    }
}

/// The characters of `s`.
fn chars_of_string(s: &String) -> (r: Vec<char>)
    ensures
        r@ == s@,
{
    crate::text::chars_of(s.as_str())
}

} // verus!
