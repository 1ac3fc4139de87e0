//! The proxy's decisions: parsing a `CONNECT` target, choosing the address
//! to connect to (the cached or measured IP of an accelerated domain, or the
//! host itself), and planning the request that forwards a plain HTTP one.
//!
//! Choosing the address alternates with network work (checking that a
//! cached IP answers, measuring the domain's IPs). The choice is a small
//! state machine: each step takes what the last piece of network work found
//! and says what to do next, as a [`Resolution`].

use vstd::prelude::*;
use vstd::string::*;

use crate::cache::{after_lookup, expiry_after, lookup, CacheModel, EntryModel, IpCache};
use crate::config::host_port;
use crate::text::{decimal, lemma_decimal_digits, lemma_decimal_has_no_colon, decimal_string, ends_with, find_char, is_suffix, parse_u16, parse_u16_spec, str_eq};

verus! {

/// An error of the proxy, with the HTTP status it answers with.
#[derive(Debug)]
pub struct ProxyError {
    status: u16,
    message: String,
}

impl View for ProxyError {
    type V = (u16, Seq<char>);

    closed spec fn view(&self) -> (u16, Seq<char>) {
        (self.status, self.message@)
    }
}

impl ProxyError {
    /// An error answered with `status` and described by `message`.
    pub fn new(status: u16, message: String) -> (e: ProxyError)
        ensures
            e@ == (status, message@),
    {
        ProxyError { status, message }
    }

    /// The HTTP status the error is answered with.
    pub fn status(&self) -> (s: u16)
        ensures
            s == self@.0,
    {
        self.status
    }

    /// The description of the error.
    pub fn message(&self) -> (m: &str)
        ensures
            m@ == self@.1,
    {
        self.message.as_str()
    }
}

/// Whether a request opens a tunnel (`CONNECT`) rather than asking for a
/// resource to be forwarded.
pub fn is_tunnel_request(method: &str) -> (r: bool)
    ensures
        r == (method@ == "CONNECT"@),
{
    str_eq(method, "CONNECT")
}

/// The reply that the proxy gives itself to a request addressed to it
/// (a URI without a host): `200 FastLane Proxy Running` for `/`,
/// `200 OK` for `/health`; every other request is forwarded.
pub open spec fn local_reply_of(host: Option<Seq<char>>, path: Seq<char>) -> Option<(u16, Seq<char>)> {
    if host is None && path == "/"@ {
        Some((200u16, "FastLane Proxy Running"@))
    } else if host is None && path == "/health"@ {
        Some((200u16, "OK"@))
    } else {
        None
    }
}

/// A request whose URI names a host is always forwarded, and a request to
/// the proxy itself for `/` or `/health` never is.
pub proof fn law_local_replies_only_for_the_proxy(host: Seq<char>, path: Seq<char>)
    ensures
        local_reply_of(Some(host), path) is None,
        local_reply_of(None, "/"@) == Some((200u16, "FastLane Proxy Running"@)),
        local_reply_of(None, "/health"@) == Some((200u16, "OK"@)),
{
    reveal_strlit("/");
    reveal_strlit("/health");
    assert("/"@.len() != "/health"@.len());
}

/// A reply that the proxy gives itself instead of forwarding.
#[derive(Debug)]
pub struct LocalReply {
    /// HTTP status code.
    pub status: u16,
    /// The body text.
    pub body: String,
}

/// Decides whether a plain HTTP request is answered by the proxy itself:
/// `host` is the host of the request's URI (none for a request addressed to
/// the proxy), `path` its path.
pub fn local_reply(host: Option<&str>, path: &str) -> (r: Option<LocalReply>)
    ensures
        match r {
            Some(l) => local_reply_of(
                match host {
                    Some(h) => Some(h@),
                    None => None,
                },
                path@,
            ) == Some((l.status, l.body@)),
            None => local_reply_of(
                match host {
                    Some(h) => Some(h@),
                    None => None,
                },
                path@,
            ) is None,
        },
{
    if host.is_none() && str_eq(path, "/") {
        Some(LocalReply { status: 200, body: String::from_str("FastLane Proxy Running") })
    } else if host.is_none() && str_eq(path, "/health") {
        Some(LocalReply { status: 200, body: String::from_str("OK") })
    } else {
        None
    }
}

/// What `CONNECT` with `authority` targets: host and port, the port after
/// the first `:` (443 where there is none), or the error it is answered
/// with.
pub open spec fn connect_target(authority: Option<Seq<char>>) -> Result<(Seq<char>, u16), (u16, Seq<char>)> {
    match authority {
        None => Err((400, "Missing authority"@)),
        Some(a) => {
            if exists|i: int| 0 <= i < a.len() && a[i] == ':' {
                let i = choose|i: int| 0 <= i < a.len() && a[i] == ':' && forall|j: int| 0 <= j < i ==> a[j] != ':';
                match parse_u16_spec(a.subrange(i + 1, a.len() as int)) {
                    Some(port) => Ok((a.subrange(0, i), port)),
                    None => Err((400, "Invalid port"@)),
                }
            } else {
                Ok((a, 443))
            }
        },
    }
}

/// Splits the authority of a `CONNECT` request into host and port.
pub fn parse_connect_target(authority: Option<&str>) -> (r: Result<(String, u16), ProxyError>)
    ensures
        connect_target(
            match authority {
                Some(a) => Some(a@),
                None => None,
            },
        ) == match r {
            Ok((h, p)) => Ok::<(Seq<char>, u16), (u16, Seq<char>)>((h@, p)),
            Err(e) => Err(e@),
        },
{
    match authority {
        None => Err(ProxyError::new(400, String::from_str("Missing authority"))),
        Some(a) => {
            let n = a.unicode_len();
            match find_char(a, ':') {
                Some(i) => {
                    let host = a.substring_char(0, i);
                    let port_text = a.substring_char(i + 1, n);
                    match parse_u16(port_text) {
                        Some(port) => Ok((host.to_owned(), port)),
                        None => Err(ProxyError::new(400, String::from_str("Invalid port"))),
                    }
                },
                None => Ok((a.to_owned(), 443)),
            }
        },
    }
}

/// Whether `host` ends with one of the accelerated domains.
pub open spec fn accelerated(host: Seq<char>, domains: Seq<String>) -> bool {
    exists|i: int| 0 <= i < domains.len() && is_suffix(host, #[trigger] domains[i]@)
}

/// Whether `host` is to be accelerated: it ends with one of `domains`.
pub fn should_accelerate(host: &str, domains: &Vec<String>) -> (r: bool)
    ensures
        r == accelerated(host@, domains@),
{
    let mut i: usize = 0;
    while i < domains.len()
        invariant
            i <= domains.len(),
            forall|j: int| 0 <= j < i ==> !is_suffix(host@, #[trigger] domains@[j]@),
        decreases domains.len() - i,
    {
        if ends_with(host, domains[i].as_str()) {
            return true;
        }
        i = i + 1;
    }
    false
}

/// The state of choosing the address for a host.
#[derive(Debug)]
pub enum Resolution {
    /// Done: connect to the host itself.
    Direct,
    /// Check that the cached IP answers, then call [`after_probe`].
    Probe(String),
    /// Measure the host's IPs, then call [`after_measure`] with the fastest.
    Measure,
    /// Done: connect to this IP.
    UseIp(String),
}

/// Starts choosing the address for `host` at time `now`: a host outside the
/// accelerated domains goes direct; otherwise a live cached IP is probed,
/// and without one the host is measured. The lookup drops an expired entry.
pub fn begin_resolution_at(cache: &mut IpCache, host: &str, domains: &Vec<String>, now: u64) -> (r: Resolution)
    ensures
        !accelerated(host@, domains@) ==> r is Direct && final(cache)@ == old(cache)@,
        accelerated(host@, domains@) ==> final(cache)@ == after_lookup(old(cache)@, host@, now)
            && match lookup(old(cache)@, host@, now) {
            Some(e) => (r matches Resolution::Probe(ip) && ip@ == e.0),
            None => r is Measure,
        },
        final(cache).ttl() == old(cache).ttl(),
        final(cache).time() == old(cache).time(),
{
    if !should_accelerate(host, domains) {
        return Resolution::Direct;
    }
    match cache.get_entry_at(host, now) {
        Some(e) => Resolution::Probe(e.into_ip()),
        None => Resolution::Measure,
    }
}

/// After probing the cached `ip` of `host`: use it if it answered;
/// otherwise drop it from the cache and measure the host.
pub fn after_probe(cache: &mut IpCache, host: &str, ip: String, reachable: bool) -> (r: Resolution)
    ensures
        reachable ==> (r matches Resolution::UseIp(used) && used@ == ip@) && final(cache)@ == old(cache)@,
        !reachable ==> r is Measure && final(cache)@ == old(cache)@.remove(host@),
        final(cache).ttl() == old(cache).ttl(),
        final(cache).time() == old(cache).time(),
{
    if reachable {
        Resolution::UseIp(ip)
    } else {
        cache.remove(host);
        Resolution::Measure
    }
}

/// After measuring `host` at time `now`: the fastest IP with its latency is
/// recorded and used; without one, the host is used directly.
pub fn after_measure_at(cache: &mut IpCache, host: &str, fastest: Option<(String, u32)>, now: u64) -> (r: Resolution)
    ensures
        match fastest {
            Some((ip, latency)) => (r matches Resolution::UseIp(used) && used@ == ip@) && final(cache)@ == old(cache)@.insert(
                host@,
                (ip@, latency, expiry_after(now, old(cache).ttl())),
            ),
            None => r is Direct && final(cache)@ == old(cache)@,
        },
        final(cache).ttl() == old(cache).ttl(),
        final(cache).time() == old(cache).time(),
{
    match fastest {
        Some((ip, latency)) => {
            let kept = ip.clone();
            cache.set_at(host.to_owned(), ip, latency, now);
            Resolution::UseIp(kept)
        },
        None => Resolution::Direct,
    }
}

/// Starts choosing the address for `host` now; see [`begin_resolution_at`].
pub fn begin_resolution(cache: &mut IpCache, host: &str, domains: &Vec<String>) -> (r: Resolution)
    ensures
        !accelerated(host@, domains@) ==> r is Direct && final(cache)@ == old(cache)@,
        !accelerated(host@, domains@) ==> final(cache).time() == old(cache).time(),
        accelerated(host@, domains@) ==> exists|now: u64|
            now >= old(cache).time() && final(cache).time() == now
                && final(cache)@ == #[trigger] after_lookup(old(cache)@, host@, now) && match lookup(
                old(cache)@,
                host@,
                now,
            ) {
                Some(e) => (r matches Resolution::Probe(ip) && ip@ == e.0),
                None => r is Measure,
            },
        final(cache).ttl() == old(cache).ttl(),
{
    if !should_accelerate(host, domains) {
        return Resolution::Direct;
    }
    let now = cache.now();
    begin_resolution_at(cache, host, domains, now)
}

/// After measuring `host` now; see [`after_measure_at`].
pub fn after_measure(cache: &mut IpCache, host: &str, fastest: Option<(String, u32)>) -> (r: Resolution)
    ensures
        match fastest {
            Some((ip, latency)) => (r matches Resolution::UseIp(used) && used@ == ip@) && exists|now: u64|
                now >= old(cache).time() && final(cache).time() == now && final(cache)@ == old(cache)@.insert(
                    host@,
                    (ip@, latency, #[trigger] expiry_after(now, old(cache).ttl())),
                ),
            None => r is Direct && final(cache)@ == old(cache)@ && final(cache).time() == old(cache).time(),
        },
        final(cache).ttl() == old(cache).ttl(),
{
    match fastest {
        Some(_) => {
            let now = cache.now();
            after_measure_at(cache, host, fastest, now)
        },
        None => after_measure_at(cache, host, fastest, 0),
    }
}

/// A finished resolution: direct or a chosen IP.
pub open spec fn is_finished(r: Resolution) -> bool {
    r is Direct || r is UseIp
}

/// The address that a `CONNECT` to `host:port` goes to once the resolution
/// is finished: the chosen IP with the port, or the host with the port.
pub fn connect_address(host: &str, port: u16, r: &Resolution) -> (a: String)
    requires
        is_finished(*r),
    ensures
        a@ == match *r {
            Resolution::UseIp(ip) => host_port(ip@, port),
            _ => host_port(host@, port),
        },
{
    let mut a = match r {
        Resolution::UseIp(ip) => ip.clone(),
        _ => host.to_owned(),
    };
    a.append(":");
    let p = decimal_string(port as u64);
    a.append(p.as_str());
    a
}

/// The host that a plain HTTP request goes to once the resolution is
/// finished, and whether it is a chosen IP (so the request needs its own
/// `Host` header).
pub fn http_target(host: &str, r: &Resolution) -> (t: (String, bool))
    requires
        is_finished(*r),
    ensures
        match *r {
            Resolution::UseIp(ip) => t.0@ == ip@ && t.1,
            _ => t.0@ == host@ && !t.1,
        },
{
    match r {
        Resolution::UseIp(ip) => (ip.clone(), true),
        _ => (host.to_owned(), false),
    }
}

/// The host of a request's URI, empty where it has none.
pub fn request_host(host: Option<&str>) -> (h: String)
    ensures
        h@ == match host {
            Some(s) => s@,
            None => Seq::<char>::empty(),
        },
{
    match host {
        Some(s) => s.to_owned(),
        None => String::new(),
    }
}

/// The path and query that a forwarded request asks for: `/` where the URI
/// has none or an empty one.
pub open spec fn path_or_root(pq: Option<Seq<char>>) -> Seq<char> {
    match pq {
        Some(p) => if p.len() == 0 { "/"@ } else { p },
        None => "/"@,
    }
}

/// The path and query that a forwarded request asks for.
pub fn request_path(pq: Option<&str>) -> (p: String)
    ensures
        p@ == path_or_root(
            match pq {
                Some(s) => Some(s@),
                None => None,
            },
        ),
{
    match pq {
        Some(s) => {
            if s.unicode_len() == 0 {
                String::from_str("/")
            } else {
                s.to_owned()
            }
        },
        None => String::from_str("/"),
    }
}

/// The URL a plain HTTP request is forwarded to: scheme (`http` where the
/// URI has none), `://`, target host, path and query.
pub open spec fn target_url_text(scheme: Option<Seq<char>>, host: Seq<char>, path: Seq<char>) -> Seq<char> {
    let s = match scheme {
        Some(s) => s,
        None => "http"@,
    };
    s + "://"@ + host + path
}

/// The URL a plain HTTP request is forwarded to.
pub fn target_url(scheme: Option<&str>, host: &str, path: &str) -> (u: String)
    ensures
        u@ == target_url_text(
            match scheme {
                Some(s) => Some(s@),
                None => None,
            },
            host@,
            path@,
        ),
{
    let mut u = match scheme {
        Some(s) => s.to_owned(),
        None => String::from_str("http"),
    };
    u.append("://");
    u.append(host);
    u.append(path);
    u
}

/// The method of a forwarded request.
#[derive(Debug, Clone, Copy, PartialEq, Eq)]
pub enum ForwardMethod {
    Get,
    Post,
    Put,
    Delete,
    Head,
    Options,
    Patch,
}

/// The method a request is forwarded with: the same for the seven methods
/// that the forwarder knows, `GET` for any other.
pub open spec fn forward_method_of(m: Seq<char>) -> ForwardMethod {
    if m == "POST"@ {
        ForwardMethod::Post
    } else if m == "PUT"@ {
        ForwardMethod::Put
    } else if m == "DELETE"@ {
        ForwardMethod::Delete
    } else if m == "HEAD"@ {
        ForwardMethod::Head
    } else if m == "OPTIONS"@ {
        ForwardMethod::Options
    } else if m == "PATCH"@ {
        ForwardMethod::Patch
    } else {
        ForwardMethod::Get
    }
}

/// The method a request is forwarded with.
pub fn forward_method(m: &str) -> (f: ForwardMethod)
    ensures
        f == forward_method_of(m@),
{
    if str_eq(m, "POST") {
        ForwardMethod::Post
    } else if str_eq(m, "PUT") {
        ForwardMethod::Put
    } else if str_eq(m, "DELETE") {
        ForwardMethod::Delete
    } else if str_eq(m, "HEAD") {
        ForwardMethod::Head
    } else if str_eq(m, "OPTIONS") {
        ForwardMethod::Options
    } else if str_eq(m, "PATCH") {
        ForwardMethod::Patch
    } else {
        ForwardMethod::Get
    }
}

/// A header as the program hands it over: its name, and its value where the
/// value is visible ASCII text (`None` otherwise).
pub type HeaderIn = (String, Option<String>);

/// The view of an incoming header.
pub open spec fn header_in_view(h: HeaderIn) -> (Seq<char>, Option<Seq<char>>) {
    (
        h.0@,
        match h.1 {
            Some(v) => Some(v@),
            None => None,
        },
    )
}

/// The views of incoming headers.
pub open spec fn headers_in_view(hs: Seq<HeaderIn>) -> Seq<(Seq<char>, Option<Seq<char>>)> {
    hs.map_values(|h: HeaderIn| header_in_view(h))
}

/// The views of outgoing headers.
pub open spec fn headers_out_view(hs: Seq<(String, String)>) -> Seq<(Seq<char>, Seq<char>)> {
    hs.map_values(|h: (String, String)| (h.0@, h.1@))
}

/// Whether a request header stays with the proxy instead of being forwarded.
pub open spec fn hop_header(name: Seq<char>) -> bool {
    name == "proxy-connection"@ || name == "proxy-authorization"@
}

/// The headers that pass on: those with a text value, in order, without
/// the two that stay with the proxy where `drop_hop` is set.
pub open spec fn passed_headers(
    hs: Seq<(Seq<char>, Option<Seq<char>>)>,
    drop_hop: bool,
) -> Seq<(Seq<char>, Seq<char>)>
    decreases hs.len(),
{
    if hs.len() == 0 {
        seq![]
    } else {
        let rest = passed_headers(hs.drop_last(), drop_hop);
        let (name, value) = hs.last();
        match value {
            Some(v) => if drop_hop && hop_header(name) { rest } else { rest.push((name, v)) },
            None => rest,
        }
    }
}

/// Whether a header name is one of the two that stay with the proxy.
fn is_hop_header(name: &str) -> (r: bool)
    ensures
        r == hop_header(name@),
{
    str_eq(name, "proxy-connection") || str_eq(name, "proxy-authorization")
}

/// Copies the headers with a text value, in order, dropping the ones that
/// stay with the proxy where `drop_hop` is set.
fn pass_headers(hs: &Vec<HeaderIn>, drop_hop: bool) -> (out: Vec<(String, String)>)
    ensures
        headers_out_view(out@) == passed_headers(headers_in_view(hs@), drop_hop),
{
    let mut out: Vec<(String, String)> = Vec::new();
    let mut i: usize = 0;
    while i < hs.len()
        invariant
            i <= hs.len(),
            headers_out_view(out@) == passed_headers(headers_in_view(hs@).take(i as int), drop_hop),
        decreases hs.len() - i,
    {
        let ghost hv = headers_in_view(hs@);
        assert(hv.take(i + 1).drop_last() =~= hv.take(i as int));
        assert(hv.take(i + 1).last() == header_in_view(hs@[i as int]));
        let (name, value) = &hs[i];
        match value {
            Some(v) => {
                if !(drop_hop && is_hop_header(name.as_str())) {
                    out.push((name.clone(), v.clone()));
                    assert(headers_out_view(out@) =~= passed_headers(hv.take(i as int), drop_hop).push((name@, v@)));
                }
            },
            None => {},
        }
        i = i + 1;
    }
    assert(headers_in_view(hs@).take(hs.len() as int) =~= headers_in_view(hs@));
    out
}

/// The headers of a forwarded request: the client's, without the two that
/// stay with the proxy; then `Host` with the original host where the
/// request goes to a chosen IP; then `X-Forwarded-For` with the client's IP
/// and `X-Forwarded-Proto: http` where that is configured.
pub open spec fn forward_headers_of(
    hs: Seq<(Seq<char>, Option<Seq<char>>)>,
    host: Seq<char>,
    used_ip: bool,
    forwarded_for: Option<Seq<char>>,
) -> Seq<(Seq<char>, Seq<char>)> {
    let base = passed_headers(hs, true);
    let with_host = if used_ip { base.push(("Host"@, host)) } else { base };
    match forwarded_for {
        Some(ip) => with_host.push(("X-Forwarded-For"@, ip)).push(("X-Forwarded-Proto"@, "http"@)),
        None => with_host,
    }
}

/// The headers of a forwarded request; `forwarded_for` is the client's IP
/// where `X-Forwarded-For` is configured.
pub fn forward_headers(hs: &Vec<HeaderIn>, host: &str, used_ip: bool, forwarded_for: Option<&str>) -> (out: Vec<(String, String)>)
    ensures
        headers_out_view(out@) == forward_headers_of(
            headers_in_view(hs@),
            host@,
            used_ip,
            match forwarded_for {
                Some(s) => Some(s@),
                None => None,
            },
        ),
{
    let mut out = pass_headers(hs, true);
    let ghost base = headers_out_view(out@);
    if used_ip {
        out.push((String::from_str("Host"), host.to_owned()));
        assert(headers_out_view(out@) =~= base.push(("Host"@, host@)));
    }
    let ghost with_host = headers_out_view(out@);
    match forwarded_for {
        Some(ip) => {
            out.push((String::from_str("X-Forwarded-For"), ip.to_owned()));
            out.push((String::from_str("X-Forwarded-Proto"), String::from_str("http")));
            assert(headers_out_view(out@) =~= with_host.push(("X-Forwarded-For"@, ip@)).push(
                ("X-Forwarded-Proto"@, "http"@),
            ));
        },
        None => {},
    }
    out
}

/// The headers of the reply to the client: every header of the upstream
/// response with a text value, in order.
pub fn response_headers(hs: &Vec<HeaderIn>) -> (out: Vec<(String, String)>)
    ensures
        headers_out_view(out@) == passed_headers(headers_in_view(hs@), false),
{
    pass_headers(hs, false)
}

/// The request that forwards a plain HTTP request.
#[derive(Debug)]
pub struct ForwardPlan {
    /// The method.
    pub method: ForwardMethod,
    /// The URL.
    pub url: String,
    /// The headers, in the order they are added.
    pub headers: Vec<(String, String)>,
    /// The body, where the client's request has a non-empty one.
    pub body: Option<Vec<u8>>,
}

/// Plans the request that forwards a plain HTTP request. `target_host` and
/// `used_ip` come from [`http_target`]; `client_ip` is the client's
/// address, sent as `X-Forwarded-For` where `add_forwarded_for` is set.
pub fn plan_forward(
    method: &str,
    scheme: Option<&str>,
    target_host: &str,
    path_and_query: Option<&str>,
    headers: &Vec<HeaderIn>,
    host: &str,
    used_ip: bool,
    client_ip: &str,
    add_forwarded_for: bool,
    body: Vec<u8>,
) -> (p: ForwardPlan)
    ensures
        p.method == forward_method_of(method@),
        p.url@ == target_url_text(
            match scheme {
                Some(s) => Some(s@),
                None => None,
            },
            target_host@,
            path_or_root(
                match path_and_query {
                    Some(s) => Some(s@),
                    None => None,
                },
            ),
        ),
        headers_out_view(p.headers@) == forward_headers_of(
            headers_in_view(headers@),
            host@,
            used_ip,
            if add_forwarded_for { Some(client_ip@) } else { None },
        ),
        match p.body {
            Some(b) => body@.len() > 0 && b@ == body@,
            None => body@.len() == 0,
        },
{
    let path = request_path(path_and_query);
    let url = target_url(scheme, target_host, path.as_str());
    let forwarded_for = if add_forwarded_for { Some(client_ip) } else { None };
    let hs = forward_headers(headers, host, used_ip, forwarded_for);
    let body = if body.len() > 0 { Some(body) } else { None };
    ForwardPlan { method: forward_method(method), url, headers: hs, body }
}

/// `what: detail`.
pub open spec fn described(what: Seq<char>, detail: Seq<char>) -> Seq<char> {
    what + ": "@ + detail
}

fn describe(what: &str, detail: &str) -> (s: String)
    ensures
        s@ == described(what@, detail@),
{
    let mut s = what.to_owned();
    s.append(": ");
    s.append(detail);
    s
}

impl ProxyError {
    /// The target of a `CONNECT` could not be reached: 502.
    pub fn connection_failed(detail: &str) -> (e: ProxyError)
        ensures
            e@ == (502u16, described("Connection failed"@, detail@)),
    {
        ProxyError::new(502, describe("Connection failed", detail))
    }

    /// The client's request body could not be read: 400.
    pub fn body_error(detail: &str) -> (e: ProxyError)
        ensures
            e@ == (400u16, described("Body error"@, detail@)),
    {
        ProxyError::new(400, describe("Body error", detail))
    }

    /// The forwarded request failed: 502.
    pub fn request_error(detail: &str) -> (e: ProxyError)
        ensures
            e@ == (502u16, described("Request error"@, detail@)),
    {
        ProxyError::new(502, describe("Request error", detail))
    }

    /// The upstream response body could not be read: 502.
    pub fn response_body_error(detail: &str) -> (e: ProxyError)
        ensures
            e@ == (502u16, described("Response body error"@, detail@)),
    {
        ProxyError::new(502, describe("Response body error", detail))
    }

    /// The reply to the client could not be built: 500.
    pub fn response_error(detail: &str) -> (e: ProxyError)
        ensures
            e@ == (500u16, described("Response error"@, detail@)),
    {
        ProxyError::new(500, describe("Response error", detail))
    }
}

/// A `CONNECT` authority written as `host:port`, with a host without a
/// colon, is read back as that host and port.
pub proof fn law_connect_target_reads_host_port(host: Seq<char>, port: u16)
    requires
        forall|i: int| 0 <= i < host.len() ==> host[i] != ':',
    ensures
        connect_target(Some(host_port(host, port))) == Ok::<(Seq<char>, u16), (u16, Seq<char>)>((host, port)),
{
    let a = host_port(host, port);
    let d = decimal(port as nat);
    lemma_decimal_digits(port as nat);
    lemma_decimal_has_no_colon(port as nat);
    reveal_strlit(":");
    assert(a[host.len() as int] == ':');
    let i = choose|i: int| 0 <= i < a.len() && a[i] == ':' && forall|j: int| 0 <= j < i ==> a[j] != ':';
    assert(i == host.len()) by {
        if i < host.len() {
            assert(a[i] == host[i]);
        }
        if i > host.len() {
            assert(a[host.len() as int] == ':');
        }
    }
    assert(a.subrange(i + 1, a.len() as int) =~= d);
    assert(a.subrange(0, i) =~= host);
    assert(crate::text::is_digit(d[0]));
}

/// A `CONNECT` authority without a colon targets the host on port 443.
pub proof fn law_connect_default_port(host: Seq<char>)
    requires
        forall|i: int| 0 <= i < host.len() ==> host[i] != ':',
    ensures
        connect_target(Some(host)) == Ok::<(Seq<char>, u16), (u16, Seq<char>)>((host, 443u16)),
{
}

/// A domain whose IP was just measured is served from the cache (and
/// probed) until the entry's lifetime runs out.
pub proof fn law_measured_ip_is_reused(
    c: CacheModel,
    host: Seq<char>,
    ip: Seq<char>,
    latency: u32,
    now: u64,
    ttl: u64,
    t: u64,
)
    requires
        t < expiry_after(now, ttl),
    ensures
        lookup(c.insert(host, (ip, latency, expiry_after(now, ttl))), host, t) == Some::<EntryModel>(
            (ip, latency, expiry_after(now, ttl)),
        ),
{
}

/// After a cached IP fails its probe, the cache has nothing for the host
/// until a new measurement is recorded.
pub proof fn law_failed_probe_forgets(c: CacheModel, host: Seq<char>, t: u64)
    ensures
        lookup(c.remove(host), host, t) is None,
{
}

/// Passing headers on never passes a header that is not in the input or
/// has no text value.
proof fn lemma_passed_headers_no_hop(hs: Seq<(Seq<char>, Option<Seq<char>>)>)
    ensures
        forall|k: int| 0 <= k < passed_headers(hs, true).len() ==> !hop_header(#[trigger] passed_headers(hs, true)[k].0),
    decreases hs.len(),
{
    if hs.len() > 0 {
        lemma_passed_headers_no_hop(hs.drop_last());
        let rest = passed_headers(hs.drop_last(), true);
        assert forall|k: int| 0 <= k < passed_headers(hs, true).len() implies !hop_header(#[trigger] passed_headers(hs, true)[k].0) by {
            if k < rest.len() {
                assert(passed_headers(hs, true)[k] == rest[k]);
            }
        }
    }
}

/// A forwarded request never carries `proxy-connection` or
/// `proxy-authorization`.
pub proof fn law_hop_headers_stay(
    hs: Seq<(Seq<char>, Option<Seq<char>>)>,
    host: Seq<char>,
    used_ip: bool,
    forwarded_for: Option<Seq<char>>,
)
    ensures
        forall|k: int|
            0 <= k < forward_headers_of(hs, host, used_ip, forwarded_for).len() ==> !hop_header(
                #[trigger] forward_headers_of(hs, host, used_ip, forwarded_for)[k].0,
            ),
{
    lemma_passed_headers_no_hop(hs);
    reveal_strlit("Host");
    reveal_strlit("X-Forwarded-For");
    reveal_strlit("X-Forwarded-Proto");
    reveal_strlit("proxy-connection");
    reveal_strlit("proxy-authorization");
    assert("Host"@.len() == 4);
    assert("X-Forwarded-For"@.len() == 15);
    assert("X-Forwarded-Proto"@.len() == 17);
    assert("proxy-connection"@.len() == 16);
    assert("proxy-authorization"@.len() == 19);
    assert(!hop_header("Host"@));
    assert(!hop_header("X-Forwarded-For"@));
    assert(!hop_header("X-Forwarded-Proto"@));
    let base = passed_headers(hs, true);
    let with_host = if used_ip { base.push(("Host"@, host)) } else { base };
    assert forall|k: int| 0 <= k < with_host.len() implies !hop_header(#[trigger] with_host[k].0) by {
        if k < base.len() {
            assert(with_host[k] == base[k]);
        }
    }
    assert forall|k: int|
        0 <= k < forward_headers_of(hs, host, used_ip, forwarded_for).len() implies !hop_header(
            #[trigger] forward_headers_of(hs, host, used_ip, forwarded_for)[k].0,
        ) by {
        if k < with_host.len() {
            if forwarded_for is Some {
                let ip = forwarded_for->0;
                assert(with_host.push(("X-Forwarded-For"@, ip)).push(("X-Forwarded-Proto"@, "http"@))[k] == with_host[k]);
            }
        }
    }
}

/// A host is accelerated as soon as any configured domain, wherever it
/// stands in the list, is a suffix of the host.
pub proof fn law_any_matching_domain_accelerates(host: Seq<char>, domains: Seq<String>, i: int)
    requires
        0 <= i < domains.len(),
        is_suffix(host, domains[i]@),
    ensures
        accelerated(host, domains),
{
    assert(is_suffix(host, domains[i]@));
}

/// A host is accelerated only where some configured domain is a suffix of
/// it.
pub proof fn law_acceleration_needs_matching_domain(host: Seq<char>, domains: Seq<String>)
    requires
        accelerated(host, domains),
    ensures
        exists|i: int| 0 <= i < domains.len() && host.len() >= domains[i]@.len()
            && host.subrange(host.len() - domains[i]@.len(), host.len() as int) == domains[i]@,
{
    let i = choose|i: int| 0 <= i < domains.len() && is_suffix(host, #[trigger] domains[i]@);
    assert(0 <= i < domains.len() && host.len() >= domains[i]@.len()
        && host.subrange(host.len() - domains[i]@.len(), host.len() as int) == domains[i]@);
}

/// Adding a domain to the list accelerates exactly the hosts that it is a
/// suffix of, in addition to those accelerated before.
pub proof fn law_added_domain_accelerates(host: Seq<char>, domains: Seq<String>, d: String)
    ensures
        accelerated(host, domains.push(d)) == (accelerated(host, domains) || is_suffix(host, d@)),
{
    let ds = domains.push(d);
    if accelerated(host, domains) {
        let i = choose|i: int| 0 <= i < domains.len() && is_suffix(host, #[trigger] domains[i]@);
        assert(ds[i] == domains[i]);
        assert(is_suffix(host, ds[i]@));
    }
    if is_suffix(host, d@) {
        assert(ds[domains.len() as int] == d);
        assert(is_suffix(host, ds[domains.len() as int]@));
    }
    if accelerated(host, ds) {
        let i = choose|i: int| 0 <= i < ds.len() && is_suffix(host, #[trigger] ds[i]@);
        if i < domains.len() {
            assert(ds[i] == domains[i]);
            assert(is_suffix(host, domains[i]@));
        }
    }
}

/// Whether a host is accelerated does not depend on the order of the
/// configured domains, nor on repeats: two lists with the same domains
/// accelerate the same hosts.
pub proof fn law_acceleration_ignores_order(host: Seq<char>, d1: Seq<String>, d2: Seq<String>)
    requires
        forall|i: int| 0 <= i < d1.len() ==> exists|j: int| 0 <= j < d2.len() && (#[trigger] d2[j])@ == (#[trigger] d1[i])@,
        forall|j: int| 0 <= j < d2.len() ==> exists|i: int| 0 <= i < d1.len() && (#[trigger] d1[i])@ == (#[trigger] d2[j])@,
    ensures
        accelerated(host, d1) == accelerated(host, d2),
{
    if accelerated(host, d1) {
        let i = choose|i: int| 0 <= i < d1.len() && is_suffix(host, #[trigger] d1[i]@);
        let j = choose|j: int| 0 <= j < d2.len() && (#[trigger] d2[j])@ == d1[i]@;
        assert(is_suffix(host, d2[j]@));
    }
    if accelerated(host, d2) {
        let j = choose|j: int| 0 <= j < d2.len() && is_suffix(host, #[trigger] d2[j]@);
        let i = choose|i: int| 0 <= i < d1.len() && (#[trigger] d1[i])@ == d2[j]@;
        assert(is_suffix(host, d1[i]@));
    }
}

/// The forwarded URL keeps the request's path and query as they are:
/// whatever follows the path in the request follows it in the URL.
pub proof fn law_forwarded_url_keeps_path_and_query(
    scheme: Option<Seq<char>>,
    host: Seq<char>,
    path: Seq<char>,
    more: Seq<char>,
)
    ensures
        target_url_text(scheme, host, path + more) == target_url_text(scheme, host, path) + more,
{
    let s = match scheme {
        Some(s) => s,
        None => "http"@,
    };
    assert(s + "://"@ + host + (path + more) =~= (s + "://"@ + host + path) + more);
}

/// The forwarded URL is the scheme (`http` where there is none), `://` and
/// the target host, followed by the request's path and query verbatim.
pub proof fn law_forwarded_url_shape(scheme: Option<Seq<char>>, host: Seq<char>, path: Seq<char>)
    ensures
        target_url_text(Some("https"@), host, Seq::empty()) == "https://"@ + host,
        target_url_text(None, host, Seq::empty()) == "http://"@ + host,
        scheme matches Some(s) ==> target_url_text(scheme, host, Seq::empty()) == s + "://"@ + host,
        target_url_text(scheme, host, path) == target_url_text(scheme, host, Seq::empty()) + path,
        is_suffix(target_url_text(scheme, host, path), path),
{
    reveal_strlit("https");
    reveal_strlit("http");
    reveal_strlit("://");
    reveal_strlit("https://");
    reveal_strlit("http://");
    assert("https"@ + "://"@ + host + Seq::<char>::empty() =~= "https://"@ + host);
    assert("http"@ + "://"@ + host + Seq::<char>::empty() =~= "http://"@ + host);
    if scheme is Some {
        let s = scheme->0;
        assert(s + "://"@ + host + Seq::<char>::empty() =~= s + "://"@ + host);
    }
    law_forwarded_url_keeps_path_and_query(scheme, host, Seq::empty(), path);
    assert(Seq::<char>::empty() + path =~= path);
    let u = target_url_text(scheme, host, path);
    let b = target_url_text(scheme, host, Seq::empty());
    assert(u.subrange(u.len() - path.len(), u.len() as int) =~= path);
}

} // verus!
