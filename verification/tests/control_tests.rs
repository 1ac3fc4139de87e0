use fast_lane::control::{control_reply_for, handle_control_request};

#[test]
fn status_reports_switch_as_json() {
    let r = handle_control_request("GET", "/status", b"", true);
    assert_eq!(r.status, 200);
    assert!(r.json);
    assert_eq!(r.body, "{\"port\":1080,\"proxy_enabled\":true}");
    assert_eq!(r.set_enabled, None);
    let r = handle_control_request("GET", "/status", b"", false);
    assert_eq!(r.body, "{\"port\":1080,\"proxy_enabled\":false}");
}

#[test]
fn set_switches_proxy() {
    let r = handle_control_request("POST", "/set", br#"{"enabled":true}"#, false);
    assert_eq!(r.status, 200);
    assert!(!r.json);
    assert_eq!(r.body, "OK");
    assert_eq!(r.set_enabled, Some(true));
    let r = handle_control_request("POST", "/set", br#"{ "enabled" : false, "x": 1 }"#, true);
    assert_eq!(r.set_enabled, Some(false));
}

#[test]
fn set_rejects_bad_bodies() {
    for body in [&b"not json"[..], br#"{"enabled":"yes"}"#, br#"{"other":true}"#, b"[true]", b""] {
        let r = handle_control_request("POST", "/set", body, true);
        assert_eq!(r.status, 400);
        assert_eq!(r.body, "Invalid request");
        assert_eq!(r.set_enabled, None);
    }
}

#[test]
fn other_routes_not_found() {
    for (m, p) in [("GET", "/set"), ("POST", "/status"), ("GET", "/"), ("PUT", "/set")] {
        let r = handle_control_request(m, p, br#"{"enabled":true}"#, true);
        assert_eq!(r.status, 404);
        assert_eq!(r.body, "Not Found");
        assert_eq!(r.set_enabled, None);
    }
}

#[test]
fn only_set_reads_body() {
    assert!(fast_lane::control::reads_body("POST", "/set"));
    assert!(!fast_lane::control::reads_body("GET", "/status"));
    assert!(!fast_lane::control::reads_body("POST", "/status"));
    assert!(!fast_lane::control::reads_body("GET", "/set"));
}

#[test]
fn reply_after_parse_follows_the_parsed_switch() {
    let r = control_reply_for("POST", "/set", Some(true), false);
    assert_eq!((r.status, r.json, r.body.as_str(), r.set_enabled), (200, false, "OK", Some(true)));
    let r = control_reply_for("POST", "/set", Some(false), true);
    assert_eq!(r.set_enabled, Some(false));
    let r = control_reply_for("POST", "/set", None, true);
    assert_eq!((r.status, r.body.as_str(), r.set_enabled), (400, "Invalid request", None));
}

#[test]
fn reply_after_parse_ignores_parse_off_set() {
    let r = control_reply_for("GET", "/status", Some(false), true);
    assert_eq!(r.status, 200);
    assert!(r.json);
    assert_eq!(r.body, "{\"port\":1080,\"proxy_enabled\":true}");
    assert_eq!(r.set_enabled, None);
    let r = control_reply_for("GET", "/set", Some(true), true);
    assert_eq!((r.status, r.body.as_str(), r.set_enabled), (404, "Not Found", None));
}
