//! The control API's decisions: which reply a request gets, and whether it
//! switches the system proxy on or off.

use vstd::prelude::*;
use vstd::string::*;

use crate::text::{decimal, str_eq};

verus! {

/// A JSON object member as serde_json writes it compactly: the quoted key,
/// a colon and the value's text.
pub open spec fn json_member(key: Seq<char>, value: Seq<char>) -> Seq<char> {
    "\""@ + key + "\":"@ + value
}

/// The JSON text of a boolean.
pub open spec fn json_bool_text(b: bool) -> Seq<char> {
    if b {
        "true"@
    } else {
        "false"@
    }
}

/// A key that JSON writes without escapes: lower-case ASCII letters and
/// underscores.
pub open spec fn plain_key(k: Seq<char>) -> bool {
    forall|i: int| 0 <= i < k.len() ==> ('a' <= #[trigger] k[i] && k[i] <= 'z') || k[i] == '_'
}

/// Lexicographic order of character sequences, the order of `String` keys.
pub open spec fn lex_less(a: Seq<char>, b: Seq<char>) -> bool
    decreases a.len(),
{
    if a.len() == 0 {
        b.len() > 0
    } else if b.len() == 0 {
        false
    } else if a[0] < b[0] {
        true
    } else if a[0] > b[0] {
        false
    } else {
        lex_less(a.drop_first(), b.drop_first())
    }
}

/// The compact JSON text of an object with a number member and a boolean
/// member, the members in key order.
pub open spec fn json_object_text(num_key: Seq<char>, num: u16, bool_key: Seq<char>, flag: bool) -> Seq<char> {
    let n = json_member(num_key, decimal(num as nat));
    let b = json_member(bool_key, json_bool_text(flag));
    if lex_less(num_key, bool_key) {
        "{"@ + n + ","@ + b + "}"@
    } else {
        "{"@ + b + ","@ + n + "}"@
    }
}

/// `serde_json::Value::to_string` on an object built from a number member
/// and a boolean member. The map of a `serde_json` object is a `BTreeMap`
/// (the `preserve_order` feature is off), so the members come out in key
/// order; the text is compact, and keys of lower-case letters and
/// underscores are written without escapes.
#[verifier::external_body]
fn json_two_member_object(num_key: &str, num: u16, bool_key: &str, flag: bool) -> (s: String)
    requires
        plain_key(num_key@),
        plain_key(bool_key@),
        num_key@ != bool_key@,
    ensures
        s@ == json_object_text(num_key@, num, bool_key@, flag),
{
    let mut m = serde_json::Map::new();
    m.insert(num_key.to_string(), serde_json::Value::from(num));
    m.insert(bool_key.to_string(), serde_json::Value::from(flag));
    serde_json::Value::Object(m).to_string()
}

/// What `serde_json::from_slice::<serde_json::Value>` makes of `body`,
/// then the boolean member `key` of it: `None` where the body is not JSON,
/// not an object, lacks the member, or the member is not a boolean.
pub uninterp spec fn json_bool_member(body: Seq<u8>, key: Seq<char>) -> Option<bool>;

/// `serde_json::from_slice::<serde_json::Value>`, then the member `key` if it
/// is a boolean.
#[verifier::external_body]
fn json_body_bool(body: &[u8], key: &str) -> (r: Option<bool>)
    ensures
        r == json_bool_member(body@, key@),
{
    match serde_json::from_slice::<serde_json::Value>(body) {
        Ok(v) => match v.get(key) {
            Some(serde_json::Value::Bool(b)) => Some(*b),
            _ => None,
        },
        Err(_) => None,
    }
}

/// The body of the status reply.
pub open spec fn status_body(enabled: bool) -> Seq<char> {
    json_object_text("port"@, 1080, "proxy_enabled"@, enabled)
}

/// The reply to a control request.
#[derive(Debug)]
pub struct ControlReply {
    /// HTTP status code.
    pub status: u16,
    /// Whether the body is JSON (`Content-Type: application/json`).
    pub json: bool,
    /// The body text.
    pub body: String,
    /// The proxy switch that the request sets, if it sets one.
    pub set_enabled: Option<bool>,
}

/// Whether the control API reads a request's body: only `POST /set` has
/// one that matters.
pub fn reads_body(method: &str, path: &str) -> (r: bool)
    ensures
        r == (method@ == "POST"@ && path@ == "/set"@),
{
    str_eq(method, "POST") && str_eq(path, "/set")
}

/// The reply that a control request gets, as (status, JSON, body, switch),
/// given what was read of its body: `parsed` is the boolean `enabled`
/// member of the JSON body, or `None` where there is none.
pub open spec fn control_reply_parsed(
    method: Seq<char>,
    path: Seq<char>,
    parsed: Option<bool>,
    enabled: bool,
) -> (u16, bool, Seq<char>, Option<bool>) {
    if method == "GET"@ && path == "/status"@ {
        (200, true, status_body(enabled), None)
    } else if method == "POST"@ && path == "/set"@ {
        match parsed {
            Some(b) => (200, false, "OK"@, Some(b)),
            None => (400, false, "Invalid request"@, None),
        }
    } else {
        (404, false, "Not Found"@, None)
    }
}

/// The reply that a control request with body `body` gets.
pub open spec fn control_reply(
    method: Seq<char>,
    path: Seq<char>,
    body: Seq<u8>,
    enabled: bool,
) -> (u16, bool, Seq<char>, Option<bool>) {
    control_reply_parsed(method, path, json_bool_member(body, "enabled"@), enabled)
}

/// Answers a control request once its body has been read: `parsed` is the
/// boolean `enabled` member of the JSON body, or `None` where the body is
/// not JSON, not an object or lacks a boolean `enabled`. `enabled` is the
/// current switch.
pub fn control_reply_for(method: &str, path: &str, parsed: Option<bool>, enabled: bool) -> (r: ControlReply)
    ensures
        (r.status, r.json, r.body@, r.set_enabled) == control_reply_parsed(method@, path@, parsed, enabled),
{
    if str_eq(method, "GET") && str_eq(path, "/status") {
        proof {
            reveal_strlit("port");
            reveal_strlit("proxy_enabled");
        }
        let text = json_two_member_object("port", 1080, "proxy_enabled", enabled);
        ControlReply { status: 200, json: true, body: text, set_enabled: None }
    } else if str_eq(method, "POST") && str_eq(path, "/set") {
        match parsed {
            Some(b) => ControlReply {
                status: 200,
                json: false,
                body: String::from_str("OK"),
                set_enabled: Some(b),
            },
            None => ControlReply {
                status: 400,
                json: false,
                body: String::from_str("Invalid request"),
                set_enabled: None,
            },
        }
    } else {
        ControlReply {
            status: 404,
            json: false,
            body: String::from_str("Not Found"),
            set_enabled: None,
        }
    }
}

/// Answers a control request: `GET /status` reports the switch, `POST /set`
/// with a JSON body `{"enabled": <bool>}` sets it, anything else is not
/// found. `enabled` is the current switch. Only `POST /set` has its body
/// parsed.
pub fn handle_control_request(method: &str, path: &str, body: &[u8], enabled: bool) -> (r: ControlReply)
    ensures
        (r.status, r.json, r.body@, r.set_enabled) == control_reply(method@, path@, body@, enabled),
{
    let parsed = if reads_body(method, path) {
        json_body_bool(body, "enabled")
    } else {
        None
    };
    control_reply_for(method, path, parsed, enabled)
}

/// Only `POST /set` with a boolean `enabled` member switches the proxy, and
/// it switches it to that value.
pub proof fn law_only_set_switches(method: Seq<char>, path: Seq<char>, body: Seq<u8>, enabled: bool)
    ensures
        control_reply(method, path, body, enabled).3 is Some ==> method == "POST"@ && path == "/set"@
            && control_reply(method, path, body, enabled).0 == 200 && control_reply(method, path, body, enabled).3
            == json_bool_member(body, "enabled"@),
{
}

/// `GET /status` reports the current switch as JSON and changes nothing.
pub proof fn law_status_reports_switch(body: Seq<u8>, enabled: bool)
    ensures
        control_reply("GET"@, "/status"@, body, enabled) == (200u16, true, status_body(enabled), None::<bool>),
{
}

/// Every other route is answered 404 and changes nothing.
pub proof fn law_unknown_routes_not_found(method: Seq<char>, path: Seq<char>, body: Seq<u8>, enabled: bool)
    requires
        !(method == "GET"@ && path == "/status"@),
        !(method == "POST"@ && path == "/set"@),
    ensures
        control_reply(method, path, body, enabled) == (404u16, false, "Not Found"@, None::<bool>),
{
}

/// Only `POST /set` depends on the body: every other request gets the same
/// reply whatever its body.
pub proof fn law_body_only_read_by_set(method: Seq<char>, path: Seq<char>, b1: Seq<u8>, b2: Seq<u8>, enabled: bool)
    requires
        !(method == "POST"@ && path == "/set"@),
    ensures
        control_reply(method, path, b1, enabled) == control_reply(method, path, b2, enabled),
{
}

/// `POST /set` whose body has a boolean `enabled` is obeyed whatever the
/// current switch: it is answered `200 OK` and sets the switch to that
/// boolean, also where the switch already has that value.
pub proof fn law_set_obeys_every_boolean(body: Seq<u8>, enabled: bool)
    requires
        json_bool_member(body, "enabled"@) is Some,
    ensures
        control_reply("POST"@, "/set"@, body, enabled) == (
            200u16,
            false,
            "OK"@,
            json_bool_member(body, "enabled"@),
        ),
{
    reveal_strlit("GET");
    reveal_strlit("POST");
    reveal_strlit("/status");
    reveal_strlit("/set");
    assert("GET"@ != "POST"@ && "/status"@ != "/set"@) by {
        assert("GET"@[0] != "POST"@[0]);
        assert("/status"@.len() != "/set"@.len());
    }
}

/// Once the body is read, `POST /set` with the boolean `b` is answered
/// `200 OK` and sets the switch to `b`, for either current switch.
pub proof fn law_parsed_set_obeys_every_boolean(b: bool, enabled: bool)
    ensures
        control_reply_parsed("POST"@, "/set"@, Some(b), enabled) == (200u16, false, "OK"@, Some(b)),
        control_reply_parsed("POST"@, "/set"@, Some(b), b).3 == Some(b),
{
    reveal_strlit("GET");
    reveal_strlit("POST");
    reveal_strlit("/status");
    reveal_strlit("/set");
    assert("GET"@ != "POST"@ && "/status"@ != "/set"@) by {
        assert("GET"@[0] != "POST"@[0]);
        assert("/status"@.len() != "/set"@.len());
    }
}

/// The answer to `POST /set` does not depend on the current switch.
pub proof fn law_set_ignores_current_switch(parsed: Option<bool>, e1: bool, e2: bool)
    ensures
        control_reply_parsed("POST"@, "/set"@, parsed, e1) == control_reply_parsed(
            "POST"@,
            "/set"@,
            parsed,
            e2,
        ),
{
    reveal_strlit("GET");
    reveal_strlit("POST");
    reveal_strlit("/status");
    reveal_strlit("/set");
    assert("GET"@ != "POST"@ && "/status"@ != "/set"@) by {
        assert("GET"@[0] != "POST"@[0]);
        assert("/status"@.len() != "/set"@.len());
    }
}

} // verus!
