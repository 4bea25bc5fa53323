use npu_sched::client::{
    cli_delete, cli_get, cli_post, job_endpoint, jobs_endpoint, read_response, response_body,
    status_endpoint, submit_request,
};
use npu_sched::url::Url;

const ID: u128 = 0xa1a2a3a4b1b2c1c2d1d2d3d4d5d6d7d8;

fn url(s: &str) -> Url {
    Url::from_str(s).unwrap()
}

#[test]
fn url_with_all_parts() {
    let u = url("http://127.0.0.1:7890/jobs/1");
    assert_eq!(u.scheme, "http");
    assert_eq!(u.host_str(), Some("127.0.0.1"));
    assert_eq!(u.port(), Some(7890));
    assert_eq!(u.path(), "/jobs/1");
}

#[test]
fn url_without_port_or_path() {
    let u = url("https://example.org");
    assert_eq!(u.scheme, "https");
    assert_eq!(u.host_str(), Some("example.org"));
    assert_eq!(u.port(), None);
    assert_eq!(u.path(), "/");
}

#[test]
fn url_with_other_scheme_is_refused() {
    assert_eq!(Url::from_str("ftp://example.org/").unwrap_err(), "Unsupported scheme");
    assert_eq!(Url::from_str("").unwrap_err(), "Unsupported scheme");
    assert_eq!(Url::from_str("http:/x").unwrap_err(), "Unsupported scheme");
    assert_eq!(Url::from_str("HTTP://x").unwrap_err(), "Unsupported scheme");
}

#[test]
fn url_port_that_is_no_port_number_belongs_to_the_host() {
    let u = url("http://host:65536/x");
    assert_eq!(u.host_str(), Some("host:65536"));
    assert_eq!(u.port(), None);
    let u = url("http://host:/x");
    assert_eq!(u.host_str(), Some("host:"));
    assert_eq!(u.port(), None);
    let u = url("http://host:-1/x");
    assert_eq!(u.host_str(), Some("host:-1"));
    let u = url("http://host:+/x");
    assert_eq!(u.host_str(), Some("host:+"));
}

#[test]
fn url_port_is_read_as_an_unsigned_number() {
    assert_eq!(url("http://host:65535").port(), Some(65535));
    assert_eq!(url("http://host:0").port(), Some(0));
    assert_eq!(url("http://host:+80").port(), Some(80));
    assert_eq!(url("http://host:0000000080").port(), Some(80));
}

#[test]
fn url_last_colon_parts_host_and_port() {
    let u = url("http://[::1]:8080/a:b/c");
    assert_eq!(u.host_str(), Some("[::1]"));
    assert_eq!(u.port(), Some(8080));
    assert_eq!(u.path(), "/a:b/c");
}

#[test]
fn url_with_empty_host_and_other_letters() {
    let u = url("http:///only/path");
    assert_eq!(u.host_str(), Some(""));
    assert_eq!(u.path(), "/only/path");
    let u = url("http://h\u{f6}st:81/\u{4e2d}");
    assert_eq!(u.host_str(), Some("h\u{f6}st"));
    assert_eq!(u.port(), Some(81));
    assert_eq!(u.path(), "/\u{4e2d}");
}

#[test]
fn url_parses_through_the_standard_trait() {
    let u: Url = "http://a:1/b".parse().unwrap();
    assert_eq!(u.host, "a");
    assert_eq!(u.port, Some(1));
    assert_eq!(u.path, "/b");
    let e: Result<Url, String> = "x".parse();
    assert_eq!(e.unwrap_err(), "Unsupported scheme");
}

#[test]
fn url_reads_back_what_is_written() {
    for port in [0u16, 7, 80, 7890, 65535] {
        for host in ["", "localhost", "a:b", "1.2.3.4"] {
            let u = url(&format!("https://{}:{}{}", host, port, "/p/q"));
            assert_eq!((u.scheme.as_str(), u.host.as_str()), ("https", host));
            assert_eq!((u.port, u.path.as_str()), (Some(port), "/p/q"));
        }
    }
}

fn written(u: &Url) -> String {
    match u.port() {
        Some(p) => format!("{}://{}:{}{}", u.scheme, u.host, p, u.path),
        None => format!("{}://{}{}", u.scheme, u.host, u.path),
    }
}

#[test]
fn every_url_reads_back_from_its_parts() {
    let texts = [
        "http://a", "https://a:b/c", "http://h:+80/x", "http://h:65536", "http://:/", "http://[::1]:1",
        "http://a:b:007/p:9", "https:///", "http://h:",
    ];
    for t in texts {
        let u = url(t);
        let v = url(&written(&u));
        assert_eq!((&v.scheme, &v.host, v.port, &v.path), (&u.scheme, &u.host, u.port, &u.path));
    }
}

#[test]
fn get_request() {
    let x = cli_get("http://127.0.0.1:7890/status").unwrap();
    assert_eq!(x.addr, "127.0.0.1:7890");
    assert_eq!(
        x.request,
        "GET /status HTTP/1.1\r\nHost: 127.0.0.1\r\nConnection: close\r\n\r\n"
    );
}

#[test]
fn delete_request_without_port() {
    let x = cli_delete("http://localhost/jobs/7").unwrap();
    assert_eq!(x.addr, "localhost:80");
    assert_eq!(
        x.request,
        "DELETE /jobs/7 HTTP/1.1\r\nHost: localhost\r\nConnection: close\r\n\r\n"
    );
}

#[test]
fn post_request_counts_bytes() {
    let x = cli_post("http://h:1/jobs", "{\"name\":\"\u{e9}\"}").unwrap();
    assert_eq!(x.addr, "h:1");
    assert_eq!(
        x.request,
        "POST /jobs HTTP/1.1\r\nHost: h\r\nContent-Type: application/json\r\nContent-Length: 13\r\nConnection: close\r\n\r\n{\"name\":\"\u{e9}\"}"
    );
    assert_eq!(response_body(&x.request), "{\"name\":\"\u{e9}\"}");
}

#[test]
fn requests_to_urls_that_cannot_be_read() {
    assert_eq!(cli_get("localhost").unwrap_err(), "Invalid URL");
    assert_eq!(cli_post("localhost", "{}").unwrap_err(), "Invalid URL");
    assert_eq!(cli_delete("localhost").unwrap_err(), "Invalid URL");
}

#[test]
fn body_follows_the_first_empty_line() {
    assert_eq!(response_body("HTTP/1.1 200 OK\r\nA: b\r\n\r\n{}\r\n\r\nx"), "{}\r\n\r\nx");
    assert_eq!(response_body("\r\n\r\n"), "");
    assert_eq!(response_body("no empty line\r\n"), "no empty line\r\n");
    assert_eq!(response_body(""), "");
    assert_eq!(response_body("\r\n\r\r\n\r\nrest"), "rest");
}

#[test]
fn response_bytes_are_read_as_text() {
    assert_eq!(read_response("a\r\n\r\n\u{e9}".as_bytes()), "\u{e9}");
    assert_eq!(read_response(b"a\r\n\r\nx\xffy"), "x\u{fffd}y");
}

#[test]
fn endpoints_of_the_daemon() {
    assert_eq!(status_endpoint("http://h:1"), "http://h:1/status");
    assert_eq!(jobs_endpoint("http://h:1"), "http://h:1/jobs");
    assert_eq!(
        job_endpoint("http://h:1", ID),
        "http://h:1/jobs/a1a2a3a4-b1b2-c1c2-d1d2-d3d4d5d6d7d8"
    );
}

#[test]
fn client_limits_the_priority_only() {
    let r = submit_request("n".to_string(), "c".to_string(), 200, 99999);
    assert_eq!((r.name.as_str(), r.command.as_str()), ("n", "c"));
    assert_eq!((r.priority, r.timeout_secs), (9, 99999));
    assert_eq!(submit_request(String::new(), String::new(), 3, 0).priority, 3);
}
