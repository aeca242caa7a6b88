//! Client-level behaviour: builders, redirects, retries, and whole
//! exchanges against prepared transports.

use ylong_http_client::body::Body;
use ylong_http_client::client::{Client, ClientBuilder};
use ylong_http_client::config::{check_deadline, Certificate, Proxy, Retry, TimeGroup, Timeout};
use ylong_http_client::decoder::ResponseDecoder;
use ylong_http_client::error::ErrorKind;
use ylong_http_client::redirect::Redirect;
use ylong_http_client::request::Request;
use ylong_http_client::response::Response;

#[test]
fn ut_client_builder() {
    let builder = Client::builder().http1_only().build();
    assert!(builder.is_ok());
    let builder_proxy = Client::builder()
        .proxy(Proxy::http("http://www.example.com").build().unwrap())
        .build();
    assert!(builder_proxy.is_ok());
}

#[test]
fn ut_client_builder_default() {
    let builder = ClientBuilder::default()
        .redirect(Redirect::none())
        .connect_timeout(Timeout::from_secs(9))
        .build();
    assert!(builder.is_ok())
}

#[test]
fn ut_client_request_redirect() {
    let response_str = "HTTP/1.1 304 \r\nAge: \t 270646 \t \t\r\nLocation: \t http://example3.com:80/foo?a=1 \t \t\r\nDate: \t Mon, 19 Dec 2022 01:46:59 GMT \t \t\r\nEtag:\t \"3147526947+gzip\" \t \t\r\n\r\n".as_bytes();
    let mut decoder = ResponseDecoder::new();
    let result = decoder.decode(response_str).unwrap().unwrap();

    let response = Response::new(result.0, Vec::new());
    let mut request = Request::builder()
        .url("http://example1.com:80/foo?a=1")
        .body(Body::slice("this is a body"))
        .unwrap();

    let mut client = ClientBuilder::default()
        .redirect(Redirect::limited(2))
        .connect_timeout(Timeout::from_secs(2))
        .build()
        .unwrap();
    let res = client.redirect(response, &mut request);
    assert!(res.is_ok())
}

#[test]
fn ut_client_request_http1_0() {
    let request = Request::builder()
        .url("http://example1.com:80/foo?a=1")
        .method("CONNECT")
        .version("HTTP/1.0")
        .body(Body::empty())
        .unwrap();

    let mut client = Client::builder().http1_only().build().unwrap();
    let res = client.request(request);
    assert!(res
        .map_err(|e| {
            assert_eq!(e.formatted(), "Request Error: Unknown METHOD in HTTP/1.0");
            e
        })
        .is_err());
}

fn get_request(url: &str) -> Request {
    Request::builder().url(url).body(Body::empty()).unwrap()
}

#[test]
fn exchange_with_fixed_body_keeps_connection() {
    let mut client = Client::new();
    client.provide_transport(
        b"HTTP/1.1 200 OK\r\nContent-Length: 5\r\n\r\nhello".to_vec(),
        false,
        false,
    );
    let response = client.request(get_request("http://example.com/")).unwrap();
    assert_eq!(response.status(), 200);
    assert_eq!(response.body_bytes().as_slice(), b"hello");
    assert_eq!(client.idle_connections(), 1);
}

#[test]
fn http1_0_response_without_keep_alive_shuts_down() {
    let mut client = Client::new();
    client.provide_transport(b"HTTP/1.0 200 OK\r\nContent-Length: 2\r\n\r\nok".to_vec(), false, false);
    let response = client.request(get_request("http://example.com/")).unwrap();
    assert_eq!(response.status(), 200);
    assert_eq!(response.body_bytes().as_slice(), b"ok");
    assert_eq!(client.idle_connections(), 0);
}

#[test]
fn http1_0_keep_alive_is_pooled() {
    let mut client = Client::new();
    client.provide_transport(
        b"HTTP/1.0 200 OK\r\nConnection: keep-alive\r\nContent-Length: 0\r\n\r\n".to_vec(),
        false,
        false,
    );
    let response = client.request(get_request("http://example.com/")).unwrap();
    assert_eq!(response.status(), 200);
    assert_eq!(client.idle_connections(), 1);
}

#[test]
fn http1_1_connection_close_shuts_down() {
    let mut client = Client::new();
    client.provide_transport(
        b"HTTP/1.1 200 OK\r\nConnection: close\r\nContent-Length: 0\r\n\r\n".to_vec(),
        false,
        false,
    );
    let response = client.request(get_request("http://example.com/")).unwrap();
    assert_eq!(response.status(), 200);
    assert_eq!(client.idle_connections(), 0);
}

#[test]
fn malformed_content_length_is_protocol_error() {
    let mut client = Client::new();
    client.provide_transport(b"HTTP/1.1 200 OK\r\nContent-Length: abc\r\n\r\n".to_vec(), false, false);
    let err = client.request(get_request("http://example.com/")).unwrap_err();
    assert_eq!(err.error_kind(), ErrorKind::Request);
}

#[test]
fn chunked_response_body_is_dechunked() {
    let mut client = Client::new();
    client.provide_transport(
        b"HTTP/1.1 200 OK\r\nTransfer-Encoding: chunked\r\n\r\n5\r\nhello\r\n6\r\n world\r\n0\r\n\r\n"
            .to_vec(),
        false,
        false,
    );
    let response = client.request(get_request("http://example.com/")).unwrap();
    assert_eq!(response.body_bytes().as_slice(), b"hello world");
}

#[test]
fn until_close_body_runs_to_end_of_stream() {
    let mut client = Client::new();
    client.provide_transport(b"HTTP/1.1 200 OK\r\n\r\nstream until the end".to_vec(), false, false);
    let response = client.request(get_request("http://example.com/")).unwrap();
    assert_eq!(response.body_bytes().as_slice(), b"stream until the end");
    assert_eq!(client.idle_connections(), 1);
}

#[test]
fn short_fixed_body_is_transfer_error() {
    let mut client = Client::new();
    client.provide_transport(b"HTTP/1.1 200 OK\r\nContent-Length: 10\r\n\r\nabc".to_vec(), false, false);
    let err = client.request(get_request("http://example.com/")).unwrap_err();
    assert_eq!(err.error_kind(), ErrorKind::BodyTransfer);
}

#[test]
fn aborting_body_is_user_aborted() {
    let mut client = Client::new();
    client.provide_transport(b"HTTP/1.1 200 OK\r\nContent-Length: 0\r\n\r\n".to_vec(), false, false);
    let request = Request::builder()
        .url("http://example.com/")
        .method("POST")
        .body(Body::reader(b"partial".to_vec(), true))
        .unwrap();
    let err = client.request(request).unwrap_err();
    assert_eq!(err.error_kind(), ErrorKind::UserAborted);
}

#[test]
fn connector_exhausted_is_connect_error() {
    let mut client = Client::new();
    let err = client.request(get_request("http://example.com/")).unwrap_err();
    assert_eq!(err.error_kind(), ErrorKind::Connect);
}

#[test]
fn non_reusable_body_is_not_retried() {
    let mut client = Client::builder()
        .retry(Retry::max(3))
        .redirect(Redirect::none())
        .build()
        .unwrap();
    let request = Request::builder()
        .url("http://example.com/")
        .method("POST")
        .body(Body::reader(b"once".to_vec(), false))
        .unwrap();
    let err = client.request(request).unwrap_err();
    assert_eq!(err.error_kind(), ErrorKind::Connect);
    assert_eq!(client.attempts_made(), 1);
}

#[test]
fn reusable_body_is_retried_once_then_succeeds() {
    let mut client = Client::builder().retry(Retry::max(1)).build().unwrap();
    client.provide_transport(b"HTTP/1.1 200 bad head \x01".to_vec(), false, false);
    client.provide_transport(b"HTTP/1.1 200 OK\r\nContent-Length: 0\r\n\r\n".to_vec(), false, false);
    let response = client.request(get_request("http://example.com/")).unwrap();
    assert_eq!(response.status(), 200);
    assert_eq!(client.attempts_made(), 2);
}

#[test]
fn reusable_body_exhausts_the_retry_budget() {
    let mut client = Client::builder().retry(Retry::max(2)).build().unwrap();
    let err = client.request(get_request("http://example.com/")).unwrap_err();
    assert_eq!(err.error_kind(), ErrorKind::Connect);
    assert_eq!(client.attempts_made(), 3);
}

#[test]
fn redirects_are_followed_to_the_target() {
    let mut client = Client::builder().redirect(Redirect::limited(5)).build().unwrap();
    client.provide_transport(
        b"HTTP/1.1 301 Moved\r\nLocation: http://example2.com/next\r\nContent-Length: 0\r\n\r\n"
            .to_vec(),
        false,
        false,
    );
    client.provide_transport(b"HTTP/1.1 200 OK\r\nContent-Length: 4\r\n\r\ndone".to_vec(), false, false);
    let response = client.request(get_request("http://example.com/")).unwrap();
    assert_eq!(response.status(), 200);
    assert_eq!(response.body_bytes().as_slice(), b"done");
}

#[test]
fn redirect_hop_limit_is_a_policy_error() {
    // Each response closes its connection, so every hop connects afresh.
    let redirect_response: &[u8] =
        b"HTTP/1.1 301 Moved\r\nLocation: http://example2.com/next\r\nConnection: close\r\nContent-Length: 0\r\n\r\n";
    let mut client = Client::builder().redirect(Redirect::limited(2)).build().unwrap();
    client.provide_transport(redirect_response.to_vec(), false, false);
    client.provide_transport(redirect_response.to_vec(), false, false);
    client.provide_transport(redirect_response.to_vec(), false, false);
    let err = client.request(get_request("http://example.com/")).unwrap_err();
    assert_eq!(err.error_kind(), ErrorKind::Redirect);
}

#[test]
fn connection_closed_before_head_is_protocol_error() {
    let mut client = Client::new();
    client.provide_transport(b"HTTP/1.1 200 OK\r\nContent-".to_vec(), false, false);
    let err = client.request(get_request("http://example.com/")).unwrap_err();
    assert_eq!(err.error_kind(), ErrorKind::Request);
    assert_eq!(err.formatted(), "Request Error: tcp closed");
}

#[test]
fn deadline_decision_reports_timeout_distinctly() {
    assert!(check_deadline(&Timeout::none(), u64::MAX).is_ok());
    assert!(check_deadline(&Timeout::from_secs(2), 1999).is_ok());
    let err = check_deadline(&Timeout::from_secs(2), 2000).unwrap_err();
    assert_eq!(err.error_kind(), ErrorKind::Timeout);
    assert_eq!(err.formatted(), "Timeout Error: time budget exceeded");
}

#[test]
fn timing_record_marks_are_write_once() {
    let mut times = TimeGroup::new();
    times.set_connect_start(5);
    times.set_connect_start(9);
    times.set_transfer_end(20);
    times.set_transfer_end(30);
    assert_eq!(times.connect_start, Some(5));
    assert_eq!(times.connect_end, None);
    assert_eq!(times.transfer_end, Some(20));
}

#[test]
fn chunk_extensions_and_trailers_are_ignored() {
    let mut client = Client::new();
    client.provide_transport(
        b"HTTP/1.1 200 OK\r\nTransfer-Encoding: chunked\r\n\r\n5;ext=1\r\nhello\r\n0\r\nExpires: never\r\nVia: proxy\r\n\r\n"
            .to_vec(),
        false,
        false,
    );
    let response = client.request(get_request("http://example.com/")).unwrap();
    assert_eq!(response.body_bytes().as_slice(), b"hello");
}

#[test]
fn request_without_url_is_a_build_error() {
    let err = Request::builder().body(Body::empty()).unwrap_err();
    assert_eq!(err.error_kind(), ErrorKind::Build);
    let err = Request::builder()
        .url("not a target")
        .body(Body::empty())
        .unwrap_err();
    assert_eq!(err.error_kind(), ErrorKind::Build);
}

#[test]
fn proxy_with_invalid_address_is_a_build_error() {
    let err = Proxy::http("nonsense").build().unwrap_err();
    assert_eq!(err.error_kind(), ErrorKind::Build);
}

#[test]
fn pool_entries_are_keyed_by_target() {
    let mut client = Client::new();
    let keep_alive: &[u8] = b"HTTP/1.1 200 OK\r\nContent-Length: 0\r\n\r\n";
    client.provide_transport(keep_alive.to_vec(), false, false);
    client.provide_transport(keep_alive.to_vec(), false, false);
    client.request(get_request("http://one.example.com/")).unwrap();
    assert_eq!(client.idle_connections(), 1);
    // A different target must not reuse the pooled connection.
    client.request(get_request("http://two.example.com/")).unwrap();
    assert_eq!(client.idle_connections(), 2);
}

#[test]
fn builder_setters_touch_only_their_own_field() {
    let builder = Client::builder()
        .danger_accept_invalid_certs(true)
        .add_root_certificate(Certificate::from_pem(b"pem bytes".to_vec()))
        .proxy(Proxy::http("http://proxy.example.com").build().unwrap())
        .set_http2_max_frame_size(32768)
        .http1_only();
    assert!(builder.tls.accept_invalid_certs);
    assert_eq!(builder.tls.root_certificates.len(), 1);
    assert_eq!(builder.tls.root_certificates[0].pem, b"pem bytes".to_vec());
    // Everything a setter did not name keeps its default.
    assert!(builder.tls.sni);
    assert!(!builder.tls.accept_invalid_hostnames);
    assert!(builder.tls.built_in_root_certs);
    assert_eq!(builder.proxies.list.len(), 1);
    assert_eq!(builder.http.http2_config.max_frame_size, 32768);
    assert_eq!(builder.http.http2_config.header_table_size, 4096);
}
