use fast_lane::cache::IpCache;
use fast_lane::proxy::{
    after_measure, after_measure_at, after_probe, begin_resolution, begin_resolution_at,
    connect_address, forward_headers, is_tunnel_request, forward_method, http_target, parse_connect_target,
    plan_forward, request_host, request_path, response_headers, should_accelerate, target_url,
    ForwardMethod, ProxyError, Resolution,
};

fn domains() -> Vec<String> {
    vec!["github.com".to_string(), "httpbin.org".to_string()]
}

#[test]
fn proxy_error_new_keeps_fields() {
    let e = ProxyError::new(400, "Missing authority".to_string());
    assert_eq!(e.status(), 400);
    assert_eq!(e.message(), "Missing authority");
}

#[test]
fn error_constructors_describe() {
    let e = ProxyError::connection_failed("refused");
    assert_eq!((e.status(), e.message()), (502, "Connection failed: refused"));
    let e = ProxyError::body_error("eof");
    assert_eq!((e.status(), e.message()), (400, "Body error: eof"));
    let e = ProxyError::request_error("timeout");
    assert_eq!((e.status(), e.message()), (502, "Request error: timeout"));
    let e = ProxyError::response_body_error("reset");
    assert_eq!((e.status(), e.message()), (502, "Response body error: reset"));
    let e = ProxyError::response_error("bad");
    assert_eq!((e.status(), e.message()), (500, "Response error: bad"));
}

#[test]
fn connect_target_with_port() {
    let (h, p) = parse_connect_target(Some("github.com:443")).unwrap();
    assert_eq!((h.as_str(), p), ("github.com", 443));
    let (h, p) = parse_connect_target(Some("example.org:+8080")).unwrap();
    assert_eq!((h.as_str(), p), ("example.org", 8080));
}

#[test]
fn connect_target_default_port() {
    let (h, p) = parse_connect_target(Some("github.com")).unwrap();
    assert_eq!((h.as_str(), p), ("github.com", 443));
}

#[test]
fn connect_target_errors() {
    let e = parse_connect_target(None).unwrap_err();
    assert_eq!((e.status(), e.message()), (400, "Missing authority"));
    for bad in ["h:", "h:65536", "h:-1", "h:12a", "h:+", "h: 80", "h:1:2"] {
        let e = parse_connect_target(Some(bad)).unwrap_err();
        assert_eq!((e.status(), e.message()), (400, "Invalid port"), "{}", bad);
    }
}

#[test]
fn acceleration_by_suffix() {
    assert!(should_accelerate("github.com", &domains()));
    assert!(should_accelerate("api.github.com", &domains()));
    assert!(should_accelerate("notgithub.com", &domains()));
    assert!(!should_accelerate("github.co", &domains()));
    assert!(!should_accelerate("example.com", &Vec::new()));
}

#[test]
fn resolution_direct_for_other_hosts() {
    let mut c = IpCache::new(1000);
    c.put_at("example.com", "1.1.1.1", 1, 0);
    let r = begin_resolution_at(&mut c, "example.com", &domains(), 0);
    assert!(matches!(r, Resolution::Direct));
    assert_eq!(c.stats_at(0).total, 1);
    assert_eq!(connect_address("example.com", 443, &r), "example.com:443");
    assert_eq!(http_target("example.com", &r), ("example.com".to_string(), false));
}

#[test]
fn resolution_probes_cached_ip() {
    let mut c = IpCache::new(1000);
    c.put_at("github.com", "20.27.177.113", 120, 0);
    let r = begin_resolution_at(&mut c, "github.com", &domains(), 10);
    match &r {
        Resolution::Probe(ip) => assert_eq!(ip, "20.27.177.113"),
        other => panic!("unexpected {:?}", other),
    }
    let r = after_probe(&mut c, "github.com", "20.27.177.113".to_string(), true);
    assert_eq!(connect_address("github.com", 443, &r), "20.27.177.113:443");
    assert_eq!(http_target("github.com", &r), ("20.27.177.113".to_string(), true));
    assert_eq!(c.get_at("github.com", 10), Some("20.27.177.113".to_string()));
}

#[test]
fn resolution_failed_probe_measures_again() {
    let mut c = IpCache::new(1000);
    c.put_at("github.com", "20.27.177.113", 120, 0);
    let r = after_probe(&mut c, "github.com", "20.27.177.113".to_string(), false);
    assert!(matches!(r, Resolution::Measure));
    assert_eq!(c.get_at("github.com", 10), None);
    let r = after_measure_at(&mut c, "github.com", Some(("140.82.112.3".to_string(), 80)), 20);
    assert_eq!(connect_address("github.com", 443, &r), "140.82.112.3:443");
    let e = c.get_entry_at("github.com", 20).unwrap();
    assert_eq!((e.ip.as_str(), e.latency, e.expires_at()), ("140.82.112.3", 80, 1020));
}

#[test]
fn resolution_measures_on_miss_and_expired() {
    let mut c = IpCache::new(1000);
    let r = begin_resolution_at(&mut c, "httpbin.org", &domains(), 0);
    assert!(matches!(r, Resolution::Measure));
    c.put_at("github.com", "1.1.1.1", 1, 0);
    let r = begin_resolution_at(&mut c, "github.com", &domains(), 1000);
    assert!(matches!(r, Resolution::Measure));
    assert_eq!(c.stats_at(0).total, 0);
}

#[test]
fn resolution_failed_measure_goes_direct() {
    let mut c = IpCache::new(1000);
    let r = after_measure_at(&mut c, "github.com", None, 0);
    assert!(matches!(r, Resolution::Direct));
    assert_eq!(connect_address("github.com", 8443, &r), "github.com:8443");
    assert_eq!(c.stats_at(0).total, 0);
}

#[test]
fn resolution_with_clock() {
    let mut c = IpCache::new(60_000);
    let r = begin_resolution(&mut c, "github.com", &domains());
    assert!(matches!(r, Resolution::Measure));
    let r = after_measure(&mut c, "github.com", Some(("1.2.3.4".to_string(), 5)));
    assert!(matches!(r, Resolution::UseIp(ref ip) if ip == "1.2.3.4"));
    let r = begin_resolution(&mut c, "github.com", &domains());
    assert!(matches!(r, Resolution::Probe(ref ip) if ip == "1.2.3.4"));
}

#[test]
fn request_parts() {
    assert_eq!(request_host(Some("httpbin.org")), "httpbin.org");
    assert_eq!(request_host(None), "");
    assert_eq!(request_path(Some("/ip?x=1")), "/ip?x=1");
    assert_eq!(request_path(Some("")), "/");
    assert_eq!(request_path(None), "/");
    assert_eq!(target_url(Some("http"), "34.203.4.216", "/ip"), "http://34.203.4.216/ip");
    assert_eq!(target_url(None, "httpbin.org", "/"), "http://httpbin.org/");
    assert_eq!(target_url(Some("https"), "h", "/a"), "https://h/a");
}

#[test]
fn methods_forwarded() {
    assert_eq!(forward_method("GET"), ForwardMethod::Get);
    assert_eq!(forward_method("POST"), ForwardMethod::Post);
    assert_eq!(forward_method("PUT"), ForwardMethod::Put);
    assert_eq!(forward_method("DELETE"), ForwardMethod::Delete);
    assert_eq!(forward_method("HEAD"), ForwardMethod::Head);
    assert_eq!(forward_method("OPTIONS"), ForwardMethod::Options);
    assert_eq!(forward_method("PATCH"), ForwardMethod::Patch);
    assert_eq!(forward_method("TRACE"), ForwardMethod::Get);
    assert_eq!(forward_method("get"), ForwardMethod::Get);
}

fn hin(v: &[(&str, Option<&str>)]) -> Vec<(String, Option<String>)> {
    v.iter().map(|(n, x)| (n.to_string(), x.map(|s| s.to_string()))).collect()
}

fn hout(v: &[(&str, &str)]) -> Vec<(String, String)> {
    v.iter().map(|(n, x)| (n.to_string(), x.to_string())).collect()
}

#[test]
fn headers_forwarded() {
    let hs = hin(&[
        ("host", Some("httpbin.org")),
        ("proxy-connection", Some("keep-alive")),
        ("accept", Some("*/*")),
        ("x-bin", None),
        ("proxy-authorization", Some("Basic dXNlcjpwdw==")),
    ]);
    assert_eq!(forward_headers(&hs, "httpbin.org", false, None), hout(&[("host", "httpbin.org"), ("accept", "*/*")]));
    assert_eq!(
        forward_headers(&hs, "httpbin.org", true, Some("127.0.0.1")),
        hout(&[
            ("host", "httpbin.org"),
            ("accept", "*/*"),
            ("Host", "httpbin.org"),
            ("X-Forwarded-For", "127.0.0.1"),
            ("X-Forwarded-Proto", "http"),
        ])
    );
    assert_eq!(
        response_headers(&hs),
        hout(&[
            ("host", "httpbin.org"),
            ("proxy-connection", "keep-alive"),
            ("accept", "*/*"),
            ("proxy-authorization", "Basic dXNlcjpwdw=="),
        ])
    );
}

#[test]
fn forward_plan() {
    let hs = hin(&[("accept", Some("*/*"))]);
    let p = plan_forward("POST", Some("http"), "34.203.4.216", Some("/post"), &hs, "httpbin.org", true, "127.0.0.1", false, b"abc".to_vec());
    assert_eq!(p.method, ForwardMethod::Post);
    assert_eq!(p.url, "http://34.203.4.216/post");
    assert_eq!(p.headers, hout(&[("accept", "*/*"), ("Host", "httpbin.org")]));
    assert_eq!(p.body, Some(b"abc".to_vec()));
    let p = plan_forward("GET", None, "example.com", None, &Vec::new(), "example.com", false, "10.0.0.1", true, Vec::new());
    assert_eq!(p.url, "http://example.com/");
    assert_eq!(p.headers, hout(&[("X-Forwarded-For", "10.0.0.1"), ("X-Forwarded-Proto", "http")]));
    assert_eq!(p.body, None);
}

#[test]
fn connect_target_reads_back_proxy_address() {
    let c = fast_lane::config::Config::default();
    let (h, p) = parse_connect_target(Some(&c.proxy_address())).unwrap();
    assert_eq!((h.as_str(), p), ("127.0.0.1", 1080));
    let (h, p) = parse_connect_target(Some("static.crates.io:0")).unwrap();
    assert_eq!((h.as_str(), p), ("static.crates.io", 0));
}

#[test]
fn tunnel_requests() {
    assert!(is_tunnel_request("CONNECT"));
    assert!(!is_tunnel_request("GET"));
    assert!(!is_tunnel_request("connect"));
}

#[test]
fn proxy_answers_root_and_health_itself() {
    let r = fast_lane::proxy::local_reply(None, "/").unwrap();
    assert_eq!((r.status, r.body.as_str()), (200, "FastLane Proxy Running"));
    let r = fast_lane::proxy::local_reply(None, "/health").unwrap();
    assert_eq!((r.status, r.body.as_str()), (200, "OK"));
    assert!(fast_lane::proxy::local_reply(None, "/ip").is_none());
    assert!(fast_lane::proxy::local_reply(Some("httpbin.org"), "/").is_none());
    assert!(fast_lane::proxy::local_reply(Some("httpbin.org"), "/health").is_none());
}
