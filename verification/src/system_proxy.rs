//! The system proxy setting that FastLane switches on and off, and the
//! memory of the setting it found, so that switching off can restore it.
//!
//! Reading and writing the setting (the Windows registry, `networksetup`,
//! `gsettings`) is the program's work; this module says what is written and
//! what is remembered.

use vstd::prelude::*;
use vstd::string::*;

use crate::config::{host_port, views};
use crate::text::{decimal, contains_str, decimal_string, has_substring, lines_after, lines_of, strip_cr, trim, trimmed};

verus! {

/// A system proxy setting.
#[derive(Debug, Clone)]
pub struct ProxyState {
    /// Whether the proxy is on.
    pub enabled: bool,
    /// The proxy server, `host:port`.
    pub server: String,
    /// The hosts that bypass the proxy, `;`-separated.
    pub override_list: String,
}

/// The model of a proxy setting.
pub type ProxyStateModel = (bool, Seq<char>, Seq<char>);

/// The model of a proxy setting: (on, server, bypass list).
pub open spec fn state_model(s: ProxyState) -> ProxyStateModel {
    (s.enabled, s.server@, s.override_list@)
}

/// The models of an optional proxy setting.
pub open spec fn opt_state_model(s: Option<ProxyState>) -> Option<ProxyStateModel> {
    match s {
        Some(st) => Some(state_model(st)),
        None => None,
    }
}

/// The hosts that bypass FastLane's proxy: local and private addresses.
pub open spec fn local_bypass() -> Seq<char> {
    "localhost;127.*;10.*;172.16.*;192.168.*"@
}

/// The registry values that a proxy setting writes.
#[derive(Debug)]
pub struct RegistryValues {
    /// `ProxyEnable`: 1 for on, 0 for off.
    pub proxy_enable: u32,
    /// `ProxyServer`, written only where the setting names a server.
    pub proxy_server: Option<String>,
    /// `ProxyOverride`, written only where the setting has a bypass list.
    pub proxy_override: Option<String>,
}

impl ProxyState {
    /// The setting that points the system at FastLane on `port`.
    pub fn for_fastlane(port: u16) -> (s: ProxyState)
        ensures
            state_model(s) == (true, host_port("127.0.0.1"@, port), local_bypass()),
    {
        let mut server = String::from_str("127.0.0.1");
        server.append(":");
        server.append(decimal_string(port as u64).as_str());
        ProxyState {
            enabled: true,
            server,
            override_list: String::from_str("localhost;127.*;10.*;172.16.*;192.168.*"),
        }
    }

    /// The setting with the proxy off and nothing else set.
    pub fn turned_off() -> (s: ProxyState)
        ensures
            state_model(s) == (false, Seq::<char>::empty(), Seq::<char>::empty()),
    {
        ProxyState { enabled: false, server: String::new(), override_list: String::new() }
    }

    /// The registry values that writing this setting sets: the switch
    /// always, the server and the bypass list only where they are not empty.
    pub fn registry_values(&self) -> (v: RegistryValues)
        ensures
            v.proxy_enable == if self.enabled { 1u32 } else { 0u32 },
            match v.proxy_server {
                Some(s) => self.server@.len() > 0 && s@ == self.server@,
                None => self.server@.len() == 0,
            },
            match v.proxy_override {
                Some(s) => self.override_list@.len() > 0 && s@ == self.override_list@,
                None => self.override_list@.len() == 0,
            },
    {
        let server = if self.server.as_str().unicode_len() > 0 {
            Some(self.server.clone())
        } else {
            None
        };
        let bypass = if self.override_list.as_str().unicode_len() > 0 {
            Some(self.override_list.clone())
        } else {
            None
        };
        RegistryValues {
            proxy_enable: if self.enabled { 1 } else { 0 },
            proxy_server: server,
            proxy_override: bypass,
        }
    }
}

/// The model of registry writes: `ProxyEnable`, and `ProxyServer` and
/// `ProxyOverride` where they are written.
pub type RegistryWrites = (u32, Option<Seq<char>>, Option<Seq<char>>);

/// The model of the registry values that a write plan holds.
pub open spec fn writes_model(v: RegistryValues) -> RegistryWrites {
    (
        v.proxy_enable,
        match v.proxy_server {
            Some(s) => Some(s@),
            None => None,
        },
        match v.proxy_override {
            Some(s) => Some(s@),
            None => None,
        },
    )
}

/// The writes that put a remembered setting back: all three values, empty
/// ones included, so that nothing of FastLane's setting is left.
pub open spec fn restore_writes(s: ProxyStateModel) -> RegistryWrites {
    (if s.0 { 1u32 } else { 0u32 }, Some(s.1), Some(s.2))
}

/// The writes that switching off makes: the remembered setting put back,
/// or, without one, the proxy turned off and nothing else written.
pub open spec fn switch_off_writes(saved: Option<ProxyStateModel>) -> RegistryWrites {
    match saved {
        Some(s) => restore_writes(s),
        None => (0u32, None, None),
    }
}

/// The registry's (ProxyEnable, ProxyServer, ProxyOverride) after `w` is
/// written over `before`.
pub open spec fn registry_after(before: (u32, Seq<char>, Seq<char>), w: RegistryWrites) -> (u32, Seq<char>, Seq<char>) {
    (
        w.0,
        match w.1 {
            Some(s) => s,
            None => before.1,
        },
        match w.2 {
            Some(s) => s,
            None => before.2,
        },
    )
}

impl ProxyState {
    /// The registry values that put this setting back: the switch, the
    /// server and the bypass list, each written even where it is empty.
    pub fn restore_values(&self) -> (v: RegistryValues)
        ensures
            writes_model(v) == restore_writes(state_model(*self)),
    {
        RegistryValues {
            proxy_enable: if self.enabled { 1 } else { 0 },
            proxy_server: Some(self.server.clone()),
            proxy_override: Some(self.override_list.clone()),
        }
    }
}

/// The setting that the system had before FastLane first switched it, once
/// it is known.
pub struct SavedProxy {
    original: Option<ProxyState>,
}

impl View for SavedProxy {
    type V = Option<ProxyStateModel>;

    closed spec fn view(&self) -> Option<ProxyStateModel> {
        opt_state_model(self.original)
    }
}

impl SavedProxy {
    /// Nothing remembered yet.
    pub fn new() -> (s: SavedProxy)
        ensures
            s@ is None,
    {
        SavedProxy { original: None }
    }

    /// Records the setting found before switching the proxy on, unless one
    /// is already remembered: the first known setting is kept.
    pub fn remember(&mut self, current: Option<ProxyState>)
        ensures
            final(self)@ == remembered(old(self)@, opt_state_model(current)),
    {
        if self.original.is_none() {
            self.original = current;
        }
    }

    /// The registry values that switching off writes: the remembered
    /// setting restored, or without one the proxy turned off.
    pub fn switch_off_values(&self) -> (v: RegistryValues)
        ensures
            writes_model(v) == switch_off_writes(self@),
    {
        match &self.original {
            Some(st) => st.restore_values(),
            None => ProxyState::turned_off().registry_values(),
        }
    }

    /// The remembered setting, which switching off restores; without one,
    /// switching off just turns the proxy off.
    pub fn original(&self) -> (s: Option<&ProxyState>)
        ensures
            match s {
                Some(st) => self@ == Some(state_model(*st)),
                None => self@ is None,
            },
    {
        match &self.original {
            Some(st) => Some(st),
            None => None,
        }
    }
}

/// What is remembered after finding `found` with `saved` remembered.
pub open spec fn remembered(saved: Option<ProxyStateModel>, found: Option<ProxyStateModel>) -> Option<ProxyStateModel> {
    if saved is Some {
        saved
    } else {
        found
    }
}

/// What is remembered after switching on once for each setting found, in
/// order.
pub open spec fn remembered_after(saved: Option<ProxyStateModel>, founds: Seq<Option<ProxyStateModel>>) -> Option<ProxyStateModel>
    decreases founds.len(),
{
    if founds.len() == 0 {
        saved
    } else {
        remembered(remembered_after(saved, founds.drop_last()), founds.last())
    }
}

/// The first known setting among `s`, if any.
pub open spec fn first_known(s: Seq<Option<ProxyStateModel>>) -> Option<ProxyStateModel> {
    if exists|i: int| 0 <= i < s.len() && s[i] is Some {
        s[choose|i: int| 0 <= i < s.len() && s[i] is Some && forall|j: int| 0 <= j < i ==> s[j] is None]
    } else {
        None
    }
}

/// However often the proxy is switched on, the setting that switching off
/// restores is the first one that was ever found.
pub proof fn law_first_setting_is_kept(saved: Option<ProxyStateModel>, founds: Seq<Option<ProxyStateModel>>)
    ensures
        remembered_after(saved, founds) == first_known(seq![saved] + founds),
    decreases founds.len(),
{
    let all = seq![saved] + founds;
    if founds.len() == 0 {
        if saved is Some {
            assert(all[0] is Some);
        }
    } else {
        let rest = founds.drop_last();
        law_first_setting_is_kept(saved, rest);
        let prefix = seq![saved] + rest;
        assert(all.drop_last() =~= prefix);
        assert(all =~= prefix.push(founds.last()));
        if exists|i: int| 0 <= i < prefix.len() && prefix[i] is Some {
            let i = choose|i: int| 0 <= i < prefix.len() && prefix[i] is Some && forall|j: int| 0 <= j < i ==> prefix[j] is None;
            assert(exists|i: int| 0 <= i < prefix.len() && prefix[i] is Some && forall|j: int| 0 <= j < i ==> prefix[j] is None) by {
                let m = choose|m: int| 0 <= m < prefix.len() && prefix[m] is Some;
                lemma_first_some_exists(prefix, m);
            }
            let k = choose|k: int| 0 <= k < all.len() && all[k] is Some && forall|j: int| 0 <= j < k ==> all[j] is None;
            assert(all[i] == prefix[i]);
            assert(k <= i) by {
                if k > i { assert(all[i] is None); }
            }
            assert(i <= k) by {
                if i > k { assert(prefix[k] == all[k]); }
            }
            assert(remembered_after(saved, rest) is Some);
        } else {
            assert(remembered_after(saved, rest) is None);
            if founds.last() is Some {
                let n = prefix.len() as int;
                assert(all[n] is Some);
                assert(exists|i: int| 0 <= i < all.len() && all[i] is Some);
                let k = choose|k: int| 0 <= k < all.len() && all[k] is Some && forall|j: int| 0 <= j < k ==> all[j] is None;
                assert(exists|i: int| 0 <= i < all.len() && all[i] is Some && forall|j: int| 0 <= j < i ==> all[j] is None) by {
                    lemma_first_some_exists(all, n);
                }
                assert(k == n) by {
                    if k < n { assert(prefix[k] == all[k]); }
                }
            } else {
                assert forall|i: int| 0 <= i < all.len() implies all[i] is None by {
                    if i < prefix.len() { assert(all[i] == prefix[i]); }
                }
            }
        }
    }
}

/// Switching the proxy off after any number of switch-ons puts the registry
/// back to the first setting that was found: its switch, server and bypass
/// list, whatever FastLane wrote in between.
pub proof fn law_switch_off_restores_first_found(
    founds: Seq<Option<ProxyStateModel>>,
    first: ProxyStateModel,
    registry: (u32, Seq<char>, Seq<char>),
)
    requires
        first_known(seq![None] + founds) == Some(first),
    ensures
        registry_after(registry, switch_off_writes(remembered_after(None, founds))) == (
            if first.0 { 1u32 } else { 0u32 },
            first.1,
            first.2,
        ),
{
    law_first_setting_is_kept(None, founds);
}

/// Where some element is known, there is a first known element.
proof fn lemma_first_some_exists(s: Seq<Option<ProxyStateModel>>, m: int)
    requires
        0 <= m < s.len(),
        s[m] is Some,
    ensures
        exists|i: int| 0 <= i < s.len() && s[i] is Some && forall|j: int| 0 <= j < i ==> s[j] is None,
    decreases m,
{
    if exists|j: int| 0 <= j < m && s[j] is Some {
        let j = choose|j: int| 0 <= j < m && s[j] is Some;
        lemma_first_some_exists(s, j);
    } else {
        assert(forall|j: int| 0 <= j < m ==> s[j] is None);
    }
}

/// A line of `networksetup -listallnetworkservices` that names a usable
/// service: Wi-Fi or Ethernet, not disabled, not marked with `*`.
pub open spec fn service_candidate(l: Seq<char>) -> bool {
    (has_substring(l, "Wi-Fi"@) || has_substring(l, "Ethernet"@)) && !has_substring(l, "disabled"@)
        && !has_substring(l, "*"@)
}

/// The first usable service line among `ls`.
pub open spec fn first_candidate(ls: Seq<Seq<char>>) -> Option<Seq<char>>
    decreases ls.len(),
{
    if ls.len() == 0 {
        None
    } else if service_candidate(ls[0]) {
        Some(ls[0])
    } else {
        first_candidate(ls.drop_first())
    }
}

/// The network service that the macOS proxy settings go to: the first
/// usable line of the listing, trimmed, or `Wi-Fi` where there is none.
pub open spec fn chosen_service(listing: Seq<char>) -> Seq<char> {
    match first_candidate(lines_of(listing)) {
        Some(l) => trimmed(l),
        None => "Wi-Fi"@,
    }
}

fn is_service_candidate(l: &str) -> (r: bool)
    ensures
        r == service_candidate(l@),
{
    (contains_str(l, "Wi-Fi") || contains_str(l, "Ethernet")) && !contains_str(l, "disabled")
        && !contains_str(l, "*")
}

fn strip_cr_str(l: &str) -> (r: &str)
    ensures
        r@ == strip_cr(l@),
{
    let n = l.unicode_len();
    if n > 0 && l.get_char(n - 1) == '\r' {
        l.substring_char(0, n - 1)
    } else {
        l
    }
}

/// Chooses the network service from the output of `networksetup
/// -listallnetworkservices`.
pub fn choose_network_service(listing: &str) -> (s: String)
    ensures
        s@ == chosen_service(listing@),
{
    let n = listing.unicode_len();
    let ghost all = listing@;
    let mut start: usize = 0;
    let mut i: usize = 0;
    assert(all.subrange(0, n as int) =~= all);
    assert(all.subrange(0, 0) =~= Seq::<char>::empty());
    while i < n
        invariant
            n == all.len(),
            all == listing@,
            start <= i <= n,
            first_candidate(lines_of(all)) == first_candidate(
                lines_after(all.subrange(i as int, n as int), all.subrange(start as int, i as int)),
            ),
        decreases n - i,
    {
        let ghost rest = all.subrange(i as int, n as int);
        let ghost cur = all.subrange(start as int, i as int);
        assert(rest[0] == all[i as int]);
        assert(rest.drop_first() =~= all.subrange(i + 1, n as int));
        if listing.get_char(i) == '\n' {
            let raw = listing.substring_char(start, i);
            let line = strip_cr_str(raw);
            let ghost later = lines_after(all.subrange(i + 1, n as int), Seq::<char>::empty());
            assert(lines_after(rest, cur) == seq![strip_cr(cur)] + later);
            assert((seq![strip_cr(cur)] + later)[0] == strip_cr(cur));
            assert((seq![strip_cr(cur)] + later).drop_first() =~= later);
            if is_service_candidate(line) {
                return trim(line).to_owned();
            }
            start = i + 1;
            assert(all.subrange(start as int, i + 1) =~= Seq::<char>::empty());
        } else {
            assert(cur.push(all[i as int]) =~= all.subrange(start as int, i + 1));
        }
        i = i + 1;
    }
    let ghost cur = all.subrange(start as int, n as int);
    assert(all.subrange(n as int, n as int) =~= Seq::<char>::empty());
    if start < n {
        let line = listing.substring_char(start, n);
        assert(seq![cur][0] == cur);
        assert(seq![cur].drop_first() =~= Seq::<Seq<char>>::empty());
        assert(first_candidate(Seq::<Seq<char>>::empty()) is None);
        assert(lines_after(all.subrange(n as int, n as int), cur) == seq![cur]);
        if is_service_candidate(line) {
            return trim(line).to_owned();
        }
    } else {
        assert(cur.len() == 0);
        assert(lines_after(all.subrange(n as int, n as int), cur) == Seq::<Seq<char>>::empty());
    }
    proof { reveal_strlit("Wi-Fi"); }
    String::from_str("Wi-Fi")
}

/// The views of a list of argument lists.
pub open spec fn arg_lists_view(v: Seq<Vec<String>>) -> Seq<Seq<Seq<char>>> {
    v.map_values(|a: Vec<String>| views(a@))
}

fn args3(a: &str, b: &str, c: &str) -> (v: Vec<String>)
    ensures
        views(v@) == seq![a@, b@, c@],
{
    let v = vec![a.to_owned(), b.to_owned(), c.to_owned()];
    assert(views(v@) =~= seq![a@, b@, c@]);
    v
}

fn args4(a: &str, b: &str, c: &str, d: &str) -> (v: Vec<String>)
    ensures
        views(v@) == seq![a@, b@, c@, d@],
{
    let v = vec![a.to_owned(), b.to_owned(), c.to_owned(), d.to_owned()];
    assert(views(v@) =~= seq![a@, b@, c@, d@]);
    v
}

/// The `gsettings` calls that point GNOME's HTTP and HTTPS proxy at
/// FastLane on `port`.
pub open spec fn gnome_enable_calls(port: u16) -> Seq<Seq<Seq<char>>> {
    seq![
        seq!["set"@, "org.gnome.system.proxy"@, "mode"@, "'manual'"@],
        seq!["set"@, "org.gnome.system.proxy.http"@, "host"@, "'127.0.0.1'"@],
        seq!["set"@, "org.gnome.system.proxy.http"@, "port"@, decimal(port as nat)],
        seq!["set"@, "org.gnome.system.proxy.https"@, "host"@, "'127.0.0.1'"@],
        seq!["set"@, "org.gnome.system.proxy.https"@, "port"@, decimal(port as nat)],
    ]
}

/// The arguments of the `gsettings` calls that switch GNOME's proxy to
/// FastLane on `port`.
pub fn gnome_enable_args(port: u16) -> (calls: Vec<Vec<String>>)
    ensures
        arg_lists_view(calls@) == gnome_enable_calls(port),
{
    let p = decimal_string(port as u64);
    let calls = vec![
        args4("set", "org.gnome.system.proxy", "mode", "'manual'"),
        args4("set", "org.gnome.system.proxy.http", "host", "'127.0.0.1'"),
        args4("set", "org.gnome.system.proxy.http", "port", p.as_str()),
        args4("set", "org.gnome.system.proxy.https", "host", "'127.0.0.1'"),
        args4("set", "org.gnome.system.proxy.https", "port", p.as_str()),
    ];
    assert(arg_lists_view(calls@) =~= gnome_enable_calls(port));
    calls
}

/// The arguments of the `gsettings` call that switches GNOME's proxy off.
pub fn gnome_disable_args() -> (calls: Vec<Vec<String>>)
    ensures
        arg_lists_view(calls@) == seq![seq!["set"@, "org.gnome.system.proxy"@, "mode"@, "'none'"@]],
{
    let calls = vec![args4("set", "org.gnome.system.proxy", "mode", "'none'")];
    assert(arg_lists_view(calls@) =~= seq![seq!["set"@, "org.gnome.system.proxy"@, "mode"@, "'none'"@]]);
    calls
}

/// The arguments of the `networksetup` calls that point the web and secure
/// web proxy of `service` at FastLane on `port`.
pub fn networksetup_enable_args(service: &str, port: u16) -> (calls: Vec<Vec<String>>)
    ensures
        arg_lists_view(calls@) == seq![
            seq!["-setwebproxy"@, service@, "127.0.0.1"@, decimal(port as nat)],
            seq!["-setsecurewebproxy"@, service@, "127.0.0.1"@, decimal(port as nat)],
        ],
{
    let p = decimal_string(port as u64);
    let calls = vec![
        args4("-setwebproxy", service, "127.0.0.1", p.as_str()),
        args4("-setsecurewebproxy", service, "127.0.0.1", p.as_str()),
    ];
    assert(arg_lists_view(calls@) =~= seq![
        seq!["-setwebproxy"@, service@, "127.0.0.1"@, decimal(port as nat)],
        seq!["-setsecurewebproxy"@, service@, "127.0.0.1"@, decimal(port as nat)],
    ]);
    calls
}

/// The arguments of the `networksetup` calls that switch the web and secure
/// web proxy of `service` off.
pub fn networksetup_disable_args(service: &str) -> (calls: Vec<Vec<String>>)
    ensures
        arg_lists_view(calls@) == seq![
            seq!["-setwebproxystate"@, service@, "off"@],
            seq!["-setsecurewebproxystate"@, service@, "off"@],
        ],
{
    let calls = vec![
        args3("-setwebproxystate", service, "off"),
        args3("-setsecurewebproxystate", service, "off"),
    ];
    assert(arg_lists_view(calls@) =~= seq![
        seq!["-setwebproxystate"@, service@, "off"@],
        seq!["-setsecurewebproxystate"@, service@, "off"@],
    ]);
    calls
}

/// The arguments of the `cmd` call that tells WinHTTP to take over the
/// changed proxy setting.
pub fn winhttp_import_args() -> (args: Vec<String>)
    ensures
        views(args@) == seq!["/c"@, "netsh"@, "winhttp"@, "import"@, "proxy"@, "source=ie"@],
{
    let args = vec![
        String::from_str("/c"),
        String::from_str("netsh"),
        String::from_str("winhttp"),
        String::from_str("import"),
        String::from_str("proxy"),
        String::from_str("source=ie"),
    ];
    assert(views(args@) =~= seq!["/c"@, "netsh"@, "winhttp"@, "import"@, "proxy"@, "source=ie"@]);
    args
}

} // verus!
