use ipoverusb::board::{led_levels, perf_window_elapsed, pwm_duty};
use ipoverusb::dhcp::DhcpServer;
use ipoverusb::http::{
    request_method, HttpMethod, gen_http_header, http_404_response, parse_http_request, HttpCallback, HttpContentType, HttpEncodingType,
    HttpError, HttpRequest, Httpserver,
};
use ipoverusb::server::{handle_get_request, handle_post_request, rgb_from_body};

struct Echo(&'static str);

impl HttpCallback for Echo {
    fn handle_request(&self, request: &HttpRequest) -> Vec<u8> {
        format!("{} {} {}", self.0, request.path, request.body).into_bytes()
    }
}

fn text(v: Vec<u8>) -> String {
    String::from_utf8(v).unwrap()
}

#[test]
fn header_with_gzip_page() {
    let h = gen_http_header(Some(&[0u8; 1234]), HttpContentType::Text, Some(HttpEncodingType::Gzip));
    assert_eq!(
        text(h),
        "HTTP/1.1 200 OK\r\nContent-Type: text/html\r\nContent-Encoding: gzip\r\nContent-Length: 1234\r\nConnection: close\r\n\r\n"
    );
}

#[test]
fn header_without_body() {
    let h = gen_http_header(None, HttpContentType::Data, None);
    assert_eq!(
        text(h),
        "HTTP/1.1 200 OK\r\nContent-Type: application/data\r\nContent-Length: 0\r\nConnection: close\r\n\r\n"
    );
    assert_eq!(HttpEncodingType::Plain.as_str(), "");
    assert_eq!(HttpContentType::Data.as_str(), "Content-Type: application/data\r\n");
}

#[test]
fn parses_get_request() {
    let r = parse_http_request(b"GET /index.html HTTP/1.1\r\nHost: 192.168.69.1\r\n\r\n").ok().unwrap();
    assert_eq!((r.method.as_str(), r.path.as_str(), r.body.as_str()), ("GET", "/index.html", ""));
}

#[test]
fn parses_post_request_with_body() {
    let r = parse_http_request("POST  /rgb\tHTTP/1.1\r\nContent-Length: 7\r\n\r\n#A1B2C3 é".as_bytes()).ok().unwrap();
    assert_eq!((r.method.as_str(), r.path.as_str(), r.body.as_str()), ("POST", "/rgb", "#A1B2C3 é"));
}

#[test]
fn request_errors() {
    assert_eq!(parse_http_request(&[0x47, 0xFF, 0x20]).err(), Some(HttpError::ParseError));
    assert_eq!(parse_http_request(b"PUT / HTTP/1.1\r\n\r\n").err(), Some(HttpError::Unsupported));
    assert_eq!(parse_http_request(b"").err(), Some(HttpError::Unsupported));
    assert_eq!(parse_http_request(b"GET\r\n\r\n").err(), Some(HttpError::ParseError));
    assert_eq!(parse_http_request(b"GET / HTTP/1.1\r\nHost: x\r\n").err(), Some(HttpError::ParseError));
}

#[test]
fn server_dispatches_by_method() {
    let mut s = Httpserver::new(Echo("get"), Echo("post"));
    assert_eq!(text(s.parse_request(b"GET /stats HTTP/1.1\r\n\r\n").ok().unwrap()), "get /stats ");
    assert_eq!(text(s.parse_request(b"POST /rgb HTTP/1.1\r\n\r\n#010203").ok().unwrap()), "post /rgb #010203");
    assert_eq!(s.parse_request(b"DELETE / HTTP/1.1\r\n\r\n").err(), Some(HttpError::Unsupported));
    assert_eq!(text(s.parse_request(b"GET /a HTTP/1.1\r\n\r\nx").ok().unwrap()), "get /a x");
}

fn request(method: &str, path: &str, body: &str) -> HttpRequest {
    HttpRequest { method: method.to_string(), path: path.to_string(), body: body.to_string() }
}

#[test]
fn get_routes() {
    let page = [0x1Fu8, 0x8B, 0x08];
    let r = handle_get_request(&request("GET", "/", ""), &page, (0, 0));
    let mut expected = gen_http_header(Some(&page), HttpContentType::Text, Some(HttpEncodingType::Gzip));
    expected.extend_from_slice(&page);
    assert_eq!(r, expected);
    assert_eq!(handle_get_request(&request("GET", "/index.html", ""), &page, (0, 0)), expected);
    let stats = handle_get_request(&request("GET", "/stats", ""), &page, (123, 4567));
    assert_eq!(
        text(stats),
        "HTTP/1.1 200 OK\r\nContent-Type: application/data\r\nContent-Length: 8\r\nConnection: close\r\n\r\n123,4567"
    );
    let missing = handle_get_request(&request("GET", "/nope", ""), &page, (0, 0));
    assert_eq!(missing, http_404_response());
    assert_eq!(
        text(missing),
        "HTTP/1.1 404 Not Found\r\nContent-Type: text/plain\r\nContent-Length: 13\r\nConnection: close\r\n\r\n404 Not Found"
    );
}

#[test]
fn post_routes() {
    let (resp, rgb) = handle_post_request(&request("POST", "/rgb", "#0A0bFF"));
    assert_eq!(rgb, Some((10, 11, 255)));
    assert_eq!(resp, gen_http_header(None, HttpContentType::Text, None));
    let (resp, rgb) = handle_post_request(&request("POST", "/rgb", "#0A0"));
    assert_eq!(rgb, None);
    assert_eq!(resp, http_404_response());
    let (resp, rgb) = handle_post_request(&request("POST", "/led", "#000000"));
    assert_eq!((resp, rgb), (http_404_response(), None));
    assert_eq!(rgb_from_body(&"#12345G".to_string()), None);
}

fn dhcp_msg(msg_type: u8, mac: [u8; 6]) -> Vec<u8> {
    let mut m = vec![0u8; 300];
    m[0] = 1;
    m[1] = 1;
    m[2] = 6;
    m[4..8].copy_from_slice(&[0xDE, 0xAD, 0xBE, 0xEF]);
    m[8] = 3;
    m[10] = 0x80;
    m[28..34].copy_from_slice(&mac);
    m[236..240].copy_from_slice(&[0x63, 0x82, 0x53, 0x63]);
    m[240..243].copy_from_slice(&[53, 1, msg_type]);
    m[243] = 255;
    m
}

fn server() -> DhcpServer {
    DhcpServer::new([192, 168, 69, 1])
}

#[test]
fn dhcp_server_pool() {
    let s = server();
    assert_eq!((s.addrstart, s.maxaddr, s.addrcnt), (5, 128, 0));
    assert_eq!(s.subnet, [255, 255, 255, 0]);
    assert!(s.allocated.is_empty());
}

#[test]
fn dhcp_offer_and_ack() {
    let mut s = server();
    let mac = [0x00, 0x80, 0xE1, 0x00, 0x00, 0x00];
    let offer = s.recv(&dhcp_msg(1, mac)).unwrap();
    assert_eq!(offer.len(), 308);
    assert_eq!(offer[0], 2);
    assert_eq!(offer[1..8].to_vec(), vec![1, 6, 0, 0xDE, 0xAD, 0xBE, 0xEF]);
    assert_eq!(offer[8..12].to_vec(), vec![0, 0, 0, 0]);
    assert_eq!(offer[16..20].to_vec(), vec![192, 168, 69, 5]);
    assert_eq!(offer[28..34].to_vec(), mac.to_vec());
    assert_eq!(offer[236..240].to_vec(), vec![0x63, 0x82, 0x53, 0x63]);
    assert_eq!(
        offer[240..274].to_vec(),
        vec![
            53, 1, 2, 1, 4, 255, 255, 255, 0, 3, 4, 192, 168, 69, 1, 54, 4, 192, 168, 69, 1, 51, 4, 0x00,
            0x01, 0x51, 0x80, 6, 4, 192, 168, 69, 1, 255
        ]
    );
    assert!(offer[274..].iter().all(|b| *b == 0));
    let ack = s.recv(&dhcp_msg(3, mac)).unwrap();
    assert_eq!(ack[242], 5);
    assert_eq!(ack[16..20].to_vec(), vec![192, 168, 69, 5]);
    assert_eq!(s.addrcnt, 1);
    let other = s.recv(&dhcp_msg(1, [1, 2, 3, 4, 5, 6])).unwrap();
    assert_eq!(other[16..20].to_vec(), vec![192, 168, 69, 6]);
    assert_eq!(s.allocated, vec![mac, [1, 2, 3, 4, 5, 6]]);
}

#[test]
fn dhcp_ignores_other_messages() {
    let mut s = server();
    let mac = [9u8; 6];
    assert_eq!(s.recv(&dhcp_msg(7, mac)), None);
    assert_eq!(s.recv(&dhcp_msg(1, mac)[0..239]), None);
    let mut odd = dhcp_msg(1, mac);
    odd[240] = 99;
    assert_eq!(s.recv(&odd), None);
    let mut long = dhcp_msg(1, mac);
    long[241] = 5;
    assert_eq!(s.recv(&long), None);
    assert_eq!(s.addrcnt, 0);
}

#[test]
fn dhcp_pool_exhaustion() {
    let mut s = server();
    s.maxaddr = 1;
    assert!(s.recv(&dhcp_msg(1, [1u8; 6])).is_some());
    assert_eq!(s.recv(&dhcp_msg(1, [2u8; 6])), None);
    assert!(s.recv(&dhcp_msg(3, [1u8; 6])).is_some());
}

#[test]
fn board_decisions() {
    assert_eq!(pwm_duty(65535, 255), 65535);
    assert_eq!(pwm_duty(1000, 128), 3 * 128);
    assert_eq!(pwm_duty(100, 200), 0);
    assert_eq!(led_levels((255, 0, 10)), (0, 255, 245));
    assert!(perf_window_elapsed(2000, 1000));
    assert!(!perf_window_elapsed(1999, 1000));
    assert!(!perf_window_elapsed(10, 5000));
}

#[test]
fn method_routing() {
    assert_eq!(request_method(&request("GET", "/", "")), HttpMethod::Get);
    assert_eq!(request_method(&request("POST", "/", "")), HttpMethod::Post);
}
