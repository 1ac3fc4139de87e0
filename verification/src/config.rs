//! The FastLane configuration and the decisions of loading it.
//!
//! Reading and writing the file, and turning TOML text into a `Config`, are
//! the program's work. This module says what the default configuration is,
//! which fields a stored file lacks, and which of the loading paths a given
//! file leads to.

use vstd::prelude::*;
use vstd::string::*;

use crate::text::{decimal, decimal_string};

verus! {

/// FastLane's configuration.
#[derive(Debug, Clone)]
pub struct Config {
    /// Listening address of the proxy server.
    pub proxy_addr: String,
    /// Listening port of the proxy server.
    pub proxy_port: u16,
    /// Lifetime of an IP cache entry, in seconds.
    pub cache_ttl_secs: u64,
    /// Interval of the background refresh in seconds; 0 turns it off.
    pub background_refresh_interval_secs: u64,
    /// Timeout of a speed test, in seconds.
    pub speed_test_timeout_secs: u64,
    /// The domains to accelerate.
    pub accelerated_domains: Vec<String>,
    /// Whether forwarded requests carry `X-Forwarded-For`.
    pub add_x_forwarded_for: bool,
}

/// The accelerated domains of the default configuration.
pub open spec fn default_domains() -> Seq<Seq<char>> {
    seq![
        "github.com"@,
        "raw.githubusercontent.com"@,
        "crates.io"@,
        "static.crates.io"@,
        "httpbin.org"@,
    ]
}

/// The views of a list of strings.
pub open spec fn views(v: Seq<String>) -> Seq<Seq<char>> {
    v.map_values(|s: String| s@)
}

/// `c` is the default configuration.
pub open spec fn is_default_config(c: Config) -> bool {
    &&& c.proxy_addr@ == "127.0.0.1"@
    &&& c.proxy_port == 1080
    &&& c.cache_ttl_secs == 300
    &&& c.background_refresh_interval_secs == 0
    &&& c.speed_test_timeout_secs == 2
    &&& views(c.accelerated_domains@) == default_domains()
    &&& !c.add_x_forwarded_for
}

/// The value that a stored configuration without `add_x_forwarded_for`
/// takes for it: off.
pub fn default_add_x_forwarded_for() -> (r: bool)
    ensures
        r == false,
{
    false
}

impl Default for Config {
    /// The default configuration: a proxy on 127.0.0.1:1080, a five-minute
    /// cache, no background refresh, two-second speed tests, five
    /// accelerated domains and no `X-Forwarded-For`.
    fn default() -> (c: Config)
        ensures
            is_default_config(c),
    {
        let domains = vec![
            String::from_str("github.com"),
            String::from_str("raw.githubusercontent.com"),
            String::from_str("crates.io"),
            String::from_str("static.crates.io"),
            String::from_str("httpbin.org"),
        ];
        assert(views(domains@) =~= default_domains());
        Config {
            proxy_addr: String::from_str("127.0.0.1"),
            proxy_port: 1080,
            cache_ttl_secs: 300,
            background_refresh_interval_secs: 0,
            speed_test_timeout_secs: 2,
            accelerated_domains: domains,
            add_x_forwarded_for: default_add_x_forwarded_for(),
        }
    }
}

/// `host:port` with the port in decimal.
pub open spec fn host_port(host: Seq<char>, port: u16) -> Seq<char> {
    host + ":"@ + decimal(port as nat)
}

impl Config {
    /// The full listening address, `proxy_addr:proxy_port`.
    pub fn proxy_address(&self) -> (s: String)
        ensures
            s@ == host_port(self.proxy_addr@, self.proxy_port),
    {
        let mut s = self.proxy_addr.clone();
        s.append(":");
        let port = decimal_string(self.proxy_port as u64);
        s.append(port.as_str());
        s
    }

    /// Fills fields that a stored configuration lacked from `default`.
    /// Every field is already set once a configuration is parsed, so the
    /// configuration stays as it is.
    pub fn apply_defaults(&mut self, default: &Config)
        ensures
            *final(self) == *old(self),
    {
        if self.add_x_forwarded_for == false && default.add_x_forwarded_for == false {
        }
    }
}

/// A configuration as a stored file gives it: each field that the file has,
/// and `None` for each field that it lacks.
#[derive(Debug, Clone)]
pub struct StoredConfig {
    pub proxy_addr: Option<String>,
    pub proxy_port: Option<u16>,
    pub cache_ttl_secs: Option<u64>,
    pub background_refresh_interval_secs: Option<u64>,
    pub speed_test_timeout_secs: Option<u64>,
    pub accelerated_domains: Option<Vec<String>>,
    pub add_x_forwarded_for: Option<bool>,
}

/// A stored value, or the default where the file lacks it.
pub open spec fn or_default<T>(stored: Option<T>, default: T) -> T {
    match stored {
        Some(v) => v,
        None => default,
    }
}

/// `c` is `stored` with each missing field taken from `default`.
pub open spec fn completed(c: Config, stored: StoredConfig, default: Config) -> bool {
    &&& c.proxy_addr@ == match stored.proxy_addr {
        Some(v) => v@,
        None => default.proxy_addr@,
    }
    &&& c.proxy_port == or_default(stored.proxy_port, default.proxy_port)
    &&& c.cache_ttl_secs == or_default(stored.cache_ttl_secs, default.cache_ttl_secs)
    &&& c.background_refresh_interval_secs == or_default(
        stored.background_refresh_interval_secs,
        default.background_refresh_interval_secs,
    )
    &&& c.speed_test_timeout_secs == or_default(stored.speed_test_timeout_secs, default.speed_test_timeout_secs)
    &&& views(c.accelerated_domains@) == match stored.accelerated_domains {
        Some(v) => views(v@),
        None => views(default.accelerated_domains@),
    }
    &&& c.add_x_forwarded_for == or_default(stored.add_x_forwarded_for, default.add_x_forwarded_for)
}

fn clone_strings(v: &Vec<String>) -> (r: Vec<String>)
    ensures
        views(r@) == views(v@),
{
    let r = v.clone();
    assert(views(r@) =~= views(v@)) by {
        assert forall|i: int| 0 <= i < v@.len() implies r@[i]@ == v@[i]@ by {
            assert(cloned::<String>(v[i], r[i]));
        }
    }
    r
}

impl StoredConfig {
    /// The configuration that the stored file gives, each field that it
    /// lacks filled from `default`.
    pub fn complete(self, default: &Config) -> (c: Config)
        ensures
            completed(c, self, *default),
    {
        let proxy_addr = match self.proxy_addr {
            Some(v) => v,
            None => default.proxy_addr.clone(),
        };
        let accelerated_domains = match self.accelerated_domains {
            Some(v) => v,
            None => clone_strings(&default.accelerated_domains),
        };
        Config {
            proxy_addr,
            proxy_port: match self.proxy_port {
                Some(v) => v,
                None => default.proxy_port,
            },
            cache_ttl_secs: match self.cache_ttl_secs {
                Some(v) => v,
                None => default.cache_ttl_secs,
            },
            background_refresh_interval_secs: match self.background_refresh_interval_secs {
                Some(v) => v,
                None => default.background_refresh_interval_secs,
            },
            speed_test_timeout_secs: match self.speed_test_timeout_secs {
                Some(v) => v,
                None => default.speed_test_timeout_secs,
            },
            accelerated_domains,
            add_x_forwarded_for: match self.add_x_forwarded_for {
                Some(v) => v,
                None => default.add_x_forwarded_for,
            },
        }
    }
}

/// Completing a file that has every field gives back the file's values, and
/// completing a file that has none gives the defaults.
pub proof fn law_completion_keeps_stored_values(c: Config, stored: StoredConfig, default: Config)
    requires
        completed(c, stored, default),
    ensures
        stored.proxy_addr matches Some(v) ==> c.proxy_addr@ == v@,
        stored.proxy_port matches Some(v) ==> c.proxy_port == v,
        stored.cache_ttl_secs matches Some(v) ==> c.cache_ttl_secs == v,
        stored.background_refresh_interval_secs matches Some(v) ==> c.background_refresh_interval_secs == v,
        stored.speed_test_timeout_secs matches Some(v) ==> c.speed_test_timeout_secs == v,
        stored.accelerated_domains matches Some(v) ==> views(c.accelerated_domains@) == views(v@),
        stored.add_x_forwarded_for matches Some(v) ==> c.add_x_forwarded_for == v,
        stored.proxy_addr is None ==> c.proxy_addr@ == default.proxy_addr@,
        stored.proxy_port is None ==> c.proxy_port == default.proxy_port,
        stored.cache_ttl_secs is None ==> c.cache_ttl_secs == default.cache_ttl_secs,
        stored.background_refresh_interval_secs is None ==> c.background_refresh_interval_secs
            == default.background_refresh_interval_secs,
        stored.speed_test_timeout_secs is None ==> c.speed_test_timeout_secs == default.speed_test_timeout_secs,
        stored.accelerated_domains is None ==> views(c.accelerated_domains@) == views(default.accelerated_domains@),
        stored.add_x_forwarded_for is None ==> c.add_x_forwarded_for == default.add_x_forwarded_for,
{
}

/// The field names of `defaults` that `present` lacks, in their order.
pub open spec fn missing_fields(defaults: Seq<Seq<char>>, present: Set<Seq<char>>) -> Seq<Seq<char>>
    decreases defaults.len(),
{
    if defaults.len() == 0 {
        seq![]
    } else {
        let rest = missing_fields(defaults.drop_last(), present);
        if present.contains(defaults.last()) {
            rest
        } else {
            rest.push(defaults.last())
        }
    }
}

/// Whether `s` equals one of the strings of `v`.
fn contains_string(v: &Vec<String>, s: &String) -> (r: bool)
    ensures
        r == views(v@).contains(s@),
{
    let mut i: usize = 0;
    while i < v.len()
        invariant
            i <= v.len(),
            forall|j: int| 0 <= j < i ==> v@[j]@ != s@,
        decreases v.len() - i,
    {
        if v[i] == *s {
            assert(views(v@)[i as int] == s@);
            return true;
        }
        i = i + 1;
    }
    assert(!views(v@).contains(s@)) by {
        if views(v@).contains(s@) {
            let j = choose|j: int| 0 <= j < views(v@).len() && views(v@)[j] == s@;
            assert(v@[j]@ == s@);
        }
    }
    false
}

/// The field names of `defaults` that do not occur in `parsed`, in the
/// order of `defaults`.
pub fn find_missing_fields(parsed: &Vec<String>, defaults: &Vec<String>) -> (missing: Vec<String>)
    ensures
        views(missing@) == missing_fields(views(defaults@), views(parsed@).to_set()),
{
    let mut missing: Vec<String> = Vec::new();
    let mut i: usize = 0;
    while i < defaults.len()
        invariant
            i <= defaults.len(),
            views(missing@) == missing_fields(views(defaults@).take(i as int), views(parsed@).to_set()),
        decreases defaults.len() - i,
    {
        let ghost d = views(defaults@);
        assert(d.take(i + 1).drop_last() =~= d.take(i as int));
        assert(d.take(i + 1).last() == defaults@[i as int]@);
        if !contains_string(parsed, &defaults[i]) {
            missing.push(defaults[i].clone());
            assert(views(missing@) =~= missing_fields(d.take(i as int), views(parsed@).to_set()).push(defaults@[i as int]@));
        }
        i = i + 1;
    }
    assert(views(defaults@).take(defaults.len() as int) =~= views(defaults@));
    missing
}

/// The keys of the top-level table of the TOML document `content`, as
/// `toml::from_str::<HashMap<String, toml::Value>>` parses it; `None` where
/// that parse fails.
pub uninterp spec fn toml_table_key_set(content: Seq<char>) -> Option<Set<Seq<char>>>;

/// `toml::from_str::<HashMap<String, toml::Value>>`, keeping the keys of the
/// table: the keys that the parse gives, each once, in the order that the
/// hash map walks them (left open), or `None` where the parse fails.
#[verifier::external_body]
fn toml_table_keys(content: &str) -> (keys: Option<Vec<String>>)
    ensures
        keys is Some <==> toml_table_key_set(content@) is Some,
        keys matches Some(ks) ==> views(ks@).to_set() == toml_table_key_set(content@).unwrap()
            && views(ks@).no_duplicates(),
{
    match toml::from_str::<std::collections::HashMap<String, toml::Value>>(content) {
        Ok(table) => Some(table.into_keys().collect()),
        Err(_) => None,
    }
}

/// The keys of the top-level table of a TOML document, or `None` where it
/// does not parse as a table.
pub fn table_keys(content: &str) -> (keys: Option<Vec<String>>)
    ensures
        keys is Some <==> toml_table_key_set(content@) is Some,
        keys matches Some(ks) ==> views(ks@).to_set() == toml_table_key_set(content@).unwrap()
            && views(ks@).no_duplicates(),
{
    toml_table_keys(content)
}

/// The way a configuration is loaded, decided from what is on disk.
#[derive(Debug)]
pub enum LoadPlan {
    /// No file: write the default configuration and use it.
    CreateDefault,
    /// The file has every field: parse it, failing on a parse error.
    Parse,
    /// The file lacks these fields: read the fields it has (failing on a
    /// parse error), fill the others from the defaults with
    /// [`StoredConfig::complete`] and write it back.
    CompleteAndSave(Vec<String>),
    /// The file is not a TOML table: parse it as a configuration if that
    /// works, otherwise write the default configuration and use it.
    ParseOrReset,
}

/// The plan for a stored file whose top-level keys are `keys` (`None`
/// where the file is not a table), given the default configuration's keys.
pub open spec fn plan_for_keys(plan: LoadPlan, keys: Option<Set<Seq<char>>>, defaults: Seq<Seq<char>>) -> bool {
    match keys {
        None => plan is ParseOrReset,
        Some(present) => {
            let missing = missing_fields(defaults, present);
            if missing.len() == 0 {
                plan is Parse
            } else {
                plan matches LoadPlan::CompleteAndSave(m) && views(m@) == missing
            }
        },
    }
}

/// The names of the configuration's fields, which a complete stored file
/// has as its keys.
pub open spec fn config_field_names() -> Seq<Seq<char>> {
    seq![
        "proxy_addr"@,
        "proxy_port"@,
        "cache_ttl_secs"@,
        "background_refresh_interval_secs"@,
        "speed_test_timeout_secs"@,
        "accelerated_domains"@,
        "add_x_forwarded_for"@,
    ]
}

/// The names of the configuration's fields, in the order they are declared.
pub fn field_names() -> (names: Vec<String>)
    ensures
        views(names@) == config_field_names(),
{
    let names = vec![
        String::from_str("proxy_addr"),
        String::from_str("proxy_port"),
        String::from_str("cache_ttl_secs"),
        String::from_str("background_refresh_interval_secs"),
        String::from_str("speed_test_timeout_secs"),
        String::from_str("accelerated_domains"),
        String::from_str("add_x_forwarded_for"),
    ];
    assert(views(names@) =~= config_field_names());
    names
}

/// Decides how to load a stored file from the keys of its top-level table
/// (`None` where the file is not a table).
pub fn plan_from_keys(keys: Option<Vec<String>>) -> (plan: LoadPlan)
    ensures
        plan_for_keys(
            plan,
            match keys {
                Some(ks) => Some(views(ks@).to_set()),
                None => None,
            },
            config_field_names(),
        ),
{
    match keys {
        None => LoadPlan::ParseOrReset,
        Some(ks) => {
            let names = field_names();
            let missing = find_missing_fields(&ks, &names);
            if missing.len() == 0 {
                LoadPlan::Parse
            } else {
                LoadPlan::CompleteAndSave(missing)
            }
        },
    }
}

/// Decides how to load the configuration: `existing` is the file's text,
/// `None` where there is no file.
pub fn plan_load(existing: Option<&str>) -> (plan: LoadPlan)
    ensures
        existing is None ==> plan is CreateDefault,
        existing matches Some(content) ==> plan_for_keys(
            plan,
            toml_table_key_set(content@),
            config_field_names(),
        ),
{
    match existing {
        None => LoadPlan::CreateDefault,
        Some(content) => {
            let keys = toml_table_keys(content);
            plan_from_keys(keys)
        },
    }
}

/// A field is reported missing exactly when the default configuration has
/// it and the stored file does not.
pub proof fn law_missing_fields_exact(defaults: Seq<Seq<char>>, present: Set<Seq<char>>, k: Seq<char>)
    ensures
        missing_fields(defaults, present).contains(k) <==> defaults.contains(k) && !present.contains(k),
    decreases defaults.len(),
{
    if defaults.len() > 0 {
        let rest = defaults.drop_last();
        law_missing_fields_exact(rest, present, k);
        assert(defaults =~= rest.push(defaults.last()));
        if defaults.contains(k) && k != defaults.last() {
            let j = choose|j: int| 0 <= j < defaults.len() && defaults[j] == k;
            assert(rest[j] == k);
        }
        if rest.contains(k) {
            let j = choose|j: int| 0 <= j < rest.len() && rest[j] == k;
            assert(defaults[j] == k);
        }
        let rm = missing_fields(rest, present);
        if !present.contains(defaults.last()) {
            let x = defaults.last();
            if rm.push(x).contains(k) {
                let j = choose|j: int| 0 <= j < rm.push(x).len() && rm.push(x)[j] == k;
                if j < rm.len() {
                    assert(rm[j] == k);
                }
            }
            if rm.contains(k) {
                let j = choose|j: int| 0 <= j < rm.len() && rm[j] == k;
                assert(rm.push(x)[j] == k);
            }
            if k == x {
                assert(rm.push(x)[rm.len() as int] == k);
            }
        }
    }
}

/// A file that has every field of the default configuration lacks none.
pub proof fn law_complete_file_lacks_nothing(defaults: Seq<Seq<char>>, present: Set<Seq<char>>)
    requires
        forall|k: Seq<char>| defaults.contains(k) ==> present.contains(k),
    ensures
        missing_fields(defaults, present).len() == 0,
    decreases defaults.len(),
{
    if defaults.len() > 0 {
        let rest = defaults.drop_last();
        assert forall|k: Seq<char>| rest.contains(k) implies present.contains(k) by {
            let j = choose|j: int| 0 <= j < rest.len() && rest[j] == k;
            assert(defaults[j] == k);
        }
        law_complete_file_lacks_nothing(rest, present);
        assert(defaults.contains(defaults.last()));
    }
}

} // verus!
