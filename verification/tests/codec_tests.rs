//! Wire-codec behaviour: body-length resolution, encoding, decoding, the
//! round trip, and the numeral helpers.

use ylong_http_client::body::Body;
use ylong_http_client::decoder::{decode_request, ResponseDecoder};
use ylong_http_client::encoder::{build_chunked_frame, build_request_head, RequestEncoder};
use ylong_http_client::error::ErrorKind;
use ylong_http_client::headers::Headers;
use ylong_http_client::method::Method;
use ylong_http_client::normalizer::{resolve_body_length, BodyLength};
use ylong_http_client::num::{parse_u64_dec, parse_u64_hex, to_dec_u64, to_hex_u64};
use ylong_http_client::request::Request;
use ylong_http_client::response::ResponsePart;
use ylong_http_client::version::Version;

fn parse_head(raw: &[u8]) -> ResponsePart {
    let mut decoder = ResponseDecoder::new();
    decoder.decode(raw).unwrap().unwrap().0
}

#[test]
fn head_request_resolves_to_zero_despite_headers() {
    let part = parse_head(b"HTTP/1.1 200 OK\r\nContent-Length: 11\r\nTransfer-Encoding: chunked\r\n\r\n");
    let resolved = resolve_body_length(Method::Head, &part).unwrap();
    assert_eq!(resolved, BodyLength::Zero);
}

#[test]
fn status_204_and_304_resolve_to_zero() {
    let part = parse_head(b"HTTP/1.1 204 No Content\r\nContent-Length: 11\r\n\r\n");
    assert_eq!(resolve_body_length(Method::Get, &part).unwrap(), BodyLength::Zero);
    let part = parse_head(b"HTTP/1.1 304 Not Modified\r\nContent-Length: 11\r\n\r\n");
    assert_eq!(resolve_body_length(Method::Get, &part).unwrap(), BodyLength::Zero);
}

#[test]
fn connect_2xx_resolves_to_zero() {
    let part = parse_head(b"HTTP/1.1 200 OK\r\nContent-Length: 11\r\n\r\n");
    assert_eq!(resolve_body_length(Method::Connect, &part).unwrap(), BodyLength::Zero);
    let part = parse_head(b"HTTP/1.1 404 Not Found\r\nContent-Length: 11\r\n\r\n");
    assert_eq!(resolve_body_length(Method::Connect, &part).unwrap(), BodyLength::Fixed(11));
}

#[test]
fn chunked_wins_over_content_length() {
    let part = parse_head(b"HTTP/1.1 200 OK\r\nTransfer-Encoding: chunked\r\nContent-Length: 11\r\n\r\n");
    assert_eq!(resolve_body_length(Method::Get, &part).unwrap(), BodyLength::Chunked);
}

#[test]
fn lone_content_length_resolves_to_fixed() {
    let part = parse_head(b"HTTP/1.1 200 OK\r\nContent-Length: 42\r\n\r\n");
    assert_eq!(resolve_body_length(Method::Get, &part).unwrap(), BodyLength::Fixed(42));
}

#[test]
fn no_framing_header_resolves_to_until_close() {
    let part = parse_head(b"HTTP/1.1 200 OK\r\n\r\n");
    assert_eq!(resolve_body_length(Method::Get, &part).unwrap(), BodyLength::UntilClose);
}

#[test]
fn malformed_content_length_is_an_error_not_until_close() {
    let part = parse_head(b"HTTP/1.1 200 OK\r\nContent-Length: abc\r\n\r\n");
    let err = resolve_body_length(Method::Get, &part).unwrap_err();
    assert_eq!(err.error_kind(), ErrorKind::Request);
}

#[test]
fn decoder_is_incremental_and_leftover_aware() {
    let mut decoder = ResponseDecoder::new();
    assert!(decoder.decode(b"HTTP/1.1 200").unwrap().is_none());
    assert!(decoder.decode(b" OK\r\nContent-Length: 5\r\n").unwrap().is_none());
    let (part, leftover) = decoder.decode(b"\r\nhel").unwrap().unwrap();
    assert_eq!(part.status, 200);
    assert_eq!(part.version, Version::Http1_1);
    assert_eq!(leftover.as_slice(), b"hel");
}

#[test]
fn decoder_trims_whitespace_around_values() {
    let part = parse_head(b"HTTP/1.1 200 OK\r\nAge: \t 270646 \t \t\r\n\r\n");
    let value = part.headers.get(b"age").unwrap();
    assert_eq!(value.as_slice(), b"270646");
}

#[test]
fn decoder_rejects_a_bare_carriage_return() {
    let mut decoder = ResponseDecoder::new();
    let err = decoder.decode(b"HTTP/1.1 200 OK\rX").unwrap_err();
    assert_eq!(err.error_kind(), ErrorKind::Request);
}

#[test]
fn request_head_encodes_in_origin_form() {
    let request = Request::builder()
        .url("http://example.com/foo?a=1")
        .method("POST")
        .header("Accept", "*/*")
        .body(Body::empty())
        .unwrap();
    let head = build_request_head(&request, false);
    assert_eq!(
        head.as_slice(),
        b"POST /foo?a=1 HTTP/1.1\r\nAccept: */*\r\n\r\n".as_slice()
    );
}

#[test]
fn request_head_encodes_in_absolute_form_for_proxies() {
    let request = Request::builder()
        .url("http://example.com:8080/foo")
        .body(Body::empty())
        .unwrap();
    let head = build_request_head(&request, true);
    assert_eq!(
        head.as_slice(),
        b"GET http://example.com:8080/foo HTTP/1.1\r\n\r\n".as_slice()
    );
}

#[test]
fn request_encoder_resumes_over_a_small_buffer() {
    let request = Request::builder()
        .url("http://example.com/")
        .body(Body::empty())
        .unwrap();
    let whole = build_request_head(&request, false);
    let mut encoder = RequestEncoder::new(&request, false);
    let mut out: Vec<u8> = Vec::new();
    loop {
        let piece = encoder.encode(3);
        if piece.is_empty() {
            break;
        }
        out.extend_from_slice(piece.as_slice());
    }
    assert_eq!(out, whole);
}

#[test]
fn encoding_then_decoding_preserves_the_request() {
    let request = Request::builder()
        .url("http://example.com/foo?a=1")
        .method("PUT")
        .header("Accept", "*/*")
        .header("X-Tag", "one")
        .header("X-Tag", "two")
        .body(Body::empty())
        .unwrap();
    let wire = build_request_head(&request, false);
    let decoded = decode_request(wire.as_slice()).unwrap().unwrap();
    assert_eq!(decoded.method, Method::Put);
    assert_eq!(decoded.target.as_slice(), b"/foo?a=1");
    assert_eq!(decoded.version, Version::Http1_1);
    assert_eq!(decoded.headers.len(), 3);
    assert_eq!(decoded.headers.name_at(0).as_slice(), b"Accept");
    assert_eq!(decoded.headers.value_at(0).as_slice(), b"*/*");
    assert_eq!(decoded.headers.name_at(1).as_slice(), b"X-Tag");
    assert_eq!(decoded.headers.value_at(1).as_slice(), b"one");
    assert_eq!(decoded.headers.name_at(2).as_slice(), b"X-Tag");
    assert_eq!(decoded.headers.value_at(2).as_slice(), b"two");
    assert!(decoded.leftover.is_empty());
}

#[test]
fn chunk_framing_writes_size_data_and_terminator() {
    assert_eq!(build_chunked_frame(b"hello").as_slice(), b"5\r\nhello\r\n0\r\n\r\n".as_slice());
    assert_eq!(build_chunked_frame(b"").as_slice(), b"0\r\n\r\n".as_slice());
    let big = [b'x'; 26];
    assert_eq!(build_chunked_frame(&big[..]).as_slice(), b"1a\r\n".iter().chain(big.iter()).chain(b"\r\n0\r\n\r\n".iter()).copied().collect::<Vec<u8>>().as_slice());
}

#[test]
fn decimal_numerals_parse_and_write_exactly() {
    assert_eq!(parse_u64_dec(b"0"), Some(0));
    assert_eq!(parse_u64_dec(b"270646"), Some(270646));
    assert_eq!(parse_u64_dec(b"18446744073709551615"), Some(u64::MAX));
    assert_eq!(parse_u64_dec(b"18446744073709551616"), None);
    assert_eq!(parse_u64_dec(b""), None);
    assert_eq!(parse_u64_dec(b"12a"), None);
    assert_eq!(to_dec_u64(0).as_slice(), b"0".as_slice());
    assert_eq!(to_dec_u64(270646).as_slice(), b"270646".as_slice());
}

#[test]
fn hexadecimal_numerals_parse_and_write_exactly() {
    assert_eq!(parse_u64_hex(b"1a"), Some(26));
    assert_eq!(parse_u64_hex(b"FF"), Some(255));
    assert_eq!(parse_u64_hex(b"g"), None);
    assert_eq!(parse_u64_hex(b""), None);
    assert_eq!(to_hex_u64(26).as_slice(), b"1a".as_slice());
    assert_eq!(to_hex_u64(0).as_slice(), b"0".as_slice());
}

#[test]
fn header_lookup_folds_ascii_case_and_keeps_order() {
    let mut headers = Headers::new();
    headers.push(b"Accept".to_vec(), b"*/*".to_vec());
    headers.push(b"ACCEPT".to_vec(), b"text/html".to_vec());
    assert_eq!(headers.get(b"accept").unwrap().as_slice(), b"*/*");
    assert!(headers.contains(b"aCCePt"));
    assert!(!headers.contains(b"host"));
    assert_eq!(headers.len(), 2);
    assert_eq!(headers.name_at(1).as_slice(), b"ACCEPT");
}

#[test]
fn host_header_is_added_by_the_formatter() {
    let mut request = Request::builder()
        .url("http://example.com:8080/x")
        .body(Body::empty())
        .unwrap();
    ylong_http_client::normalizer::format_request(&mut request).unwrap();
    assert_eq!(request.headers.get(b"host").unwrap().as_slice(), b"example.com:8080");
    // The default port is left off.
    let mut request = Request::builder()
        .url("http://example.com/x")
        .body(Body::empty())
        .unwrap();
    ylong_http_client::normalizer::format_request(&mut request).unwrap();
    assert_eq!(request.headers.get(b"host").unwrap().as_slice(), b"example.com");
}

#[test]
fn uri_parser_reads_scheme_host_port_and_path() {
    let uri = ylong_http_client::uri::Uri::from_str("http://example1.com:80/foo?a=1").unwrap();
    assert_eq!(uri.host.as_slice(), b"example1.com");
    assert_eq!(uri.port, 80);
    assert_eq!(uri.path.as_slice(), b"/foo?a=1");
    let uri = ylong_http_client::uri::Uri::from_str("https://example.com").unwrap();
    assert_eq!(uri.port, 443);
    assert_eq!(uri.path.as_slice(), b"/");
}

#[test]
fn uri_parser_rejects_what_cannot_reach_a_host() {
    assert!(ylong_http_client::uri::Uri::from_str("example.com").is_none());
    assert!(ylong_http_client::uri::Uri::from_str("http:///nohost").is_none());
    assert!(ylong_http_client::uri::Uri::from_str("http://example.com:notaport/").is_none());
    assert!(ylong_http_client::uri::Uri::from_str("http://example.com:99999/").is_none());
}
