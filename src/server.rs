//! The web application served on the link: the status page, the statistics
//! endpoint and the RGB LED endpoint.

use vstd::prelude::*;
use vstd::string::is_ascii;
use crate::text::{ascii, decimal, push_ascii, push_bytes, push_decimal, chars_of};
use crate::http::{
    HttpRequest, HttpContentType, HttpEncodingType, ok_header, not_found_text, gen_http_header,
    http_404_response,
};

verus! {

/// Whether `s` holds exactly the characters of `lit`.
fn chars_eq(s: &Vec<char>, lit: &str) -> (r: bool)
    ensures
        r == (s@ == lit@),
{
    let l = chars_of(lit);
    if s.len() != l.len() {
        return false;
    }
    let n = s.len();
    let mut i: usize = 0;
    while i < n
        invariant
            n == s@.len(),
            n == l@.len(),
            l@ == lit@,
            i <= n,
            forall|k: int| 0 <= k < i ==> s@[k] == l@[k],
        decreases n - i,
    {
        if s[i] != l[i] {
            return false;
        }
        i = i + 1;
    }
    assert(s@ =~= l@);
    true
}

/// The body of the statistics endpoint: loops per second and temperature.
pub open spec fn stats_text(stats: (u32, u32)) -> Seq<u8> {
    decimal(stats.0 as nat) + ascii(","@) + decimal(stats.1 as nat)
}

/// The response to a GET request for `path`, where `page` is the gzip-encoded
/// status page and `stats` the current statistics.
pub open spec fn get_reply(path: Seq<char>, page: Seq<u8>, stats: (u32, u32)) -> Seq<u8> {
    if path == "/"@ || path == "/index.html"@ {
        ok_header(page.len(), HttpContentType::Text, HttpEncodingType::Gzip) + page
    } else if path == "/stats"@ {
        ok_header(stats_text(stats).len(), HttpContentType::Data, HttpEncodingType::Plain)
            + stats_text(stats)
    } else {
        ascii(not_found_text())
    }
}

/// Answers a GET request.
pub fn handle_get_request(request: &HttpRequest, page: &[u8], stats: (u32, u32)) -> (r: Vec<u8>)
    ensures
        r@ == get_reply(request.path@, page@, stats),
{
    let path = chars_of(request.path.as_str());
    if chars_eq(&path, "/") || chars_eq(&path, "/index.html") {
        let mut buf = gen_http_header(Some(page), HttpContentType::Text, Some(HttpEncodingType::Gzip));
        push_bytes(&mut buf, page);
        buf
    } else if chars_eq(&path, "/stats") {
        let mut data: Vec<u8> = Vec::new();
        push_decimal(&mut data, stats.0 as u64);
        proof {
            reveal_strlit(",");
        }
        push_ascii(&mut data, ",");
        push_decimal(&mut data, stats.1 as u64);
        let mut buf = gen_http_header(Some(data.as_slice()), HttpContentType::Data, None);
        push_bytes(&mut buf, data.as_slice());
        buf
    } else {
        http_404_response()
    }
}

/// The value of the hexadecimal digit `c`.
pub open spec fn hex_value(c: char) -> Option<u8> {
    let u = c as u32;
    if 48 <= u <= 57 {
        Some((u - 48) as u8)
    } else if 65 <= u <= 70 {
        Some((u - 55) as u8)
    } else if 97 <= u <= 102 {
        Some((u - 87) as u8)
    } else {
        None
    }
}

/// The value of the hexadecimal digit `c`.
fn hex_digit(c: char) -> (r: Option<u8>)
    ensures
        r == hex_value(c),
{
    let u = c as u32;
    if 48 <= u && u <= 57 {
        Some((u - 48) as u8)
    } else if 65 <= u && u <= 70 {
        Some((u - 55) as u8)
    } else if 97 <= u && u <= 102 {
        Some((u - 87) as u8)
    } else {
        None
    }
}

/// The byte written as two hexadecimal digits at `s[i..i + 2]`.
pub open spec fn hex_byte(s: Seq<char>, i: int) -> Option<u8> {
    match (hex_value(s[i]), hex_value(s[i + 1])) {
        (Some(h), Some(l)) => Some((16 * h + l) as u8),
        _ => None,
    }
}

/// The colour in a body of the form `#RRGGBB` (the first character is not
/// looked at; anything after the seventh is ignored).
pub open spec fn parse_rgb(body: Seq<char>) -> Option<(u8, u8, u8)> {
    if body.len() < 7 {
        None
    } else {
        match (hex_byte(body, 1), hex_byte(body, 3), hex_byte(body, 5)) {
            (Some(r), Some(g), Some(b)) => Some((r, g, b)),
            _ => None,
        }
    }
}

fn hex_pair(s: &Vec<char>, i: usize) -> (r: Option<u8>)
    requires
        i <= 5,
        i + 2 <= s@.len(),
    ensures
        r == hex_byte(s@, i as int),
{
    match (hex_digit(s[i]), hex_digit(s[i + 1])) {
        (Some(h), Some(l)) => Some(16 * h + l),
        _ => None,
    }
}

/// Reads the colour in a body of the form `#RRGGBB`.
pub fn rgb_from_body(body: &String) -> (r: Option<(u8, u8, u8)>)
    ensures
        r == parse_rgb(body@),
{
    let cs = chars_of(body.as_str());
    if cs.len() < 7 {
        return None;
    }
    match (hex_pair(&cs, 1), hex_pair(&cs, 3), hex_pair(&cs, 5)) {
        (Some(r), Some(g), Some(b)) => Some((r, g, b)),
        _ => None,
    }
}

/// The response to a POST request for `path` with `body`, and the colour it sets,
/// if any. A body that holds no colour is answered like an unknown resource.
pub open spec fn post_reply(path: Seq<char>, body: Seq<char>) -> (Seq<u8>, Option<(u8, u8, u8)>) {
    if path == "/rgb"@ && parse_rgb(body) is Some {
        (ok_header(0, HttpContentType::Text, HttpEncodingType::Plain), parse_rgb(body))
    } else {
        (ascii(not_found_text()), None)
    }
}

/// Answers a POST request; also gives the colour the LED is to take.
pub fn handle_post_request(request: &HttpRequest) -> (r: (Vec<u8>, Option<(u8, u8, u8)>))
    ensures
        (r.0@, r.1) == post_reply(request.path@, request.body@),
{
    let path = chars_of(request.path.as_str());
    if chars_eq(&path, "/rgb") {
        if let Some(rgb) = rgb_from_body(&request.body) {
            return (gen_http_header(None, HttpContentType::Text, None), Some(rgb));
        }
    }
    (http_404_response(), None)
}

} // verus!
