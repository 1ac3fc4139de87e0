# fast_lane

FastLane is a local HTTP proxy that accelerates chosen domains: for each
accelerated domain it measures the TCP connect time of the domain's IPv4
addresses, keeps the fastest one in a time-limited cache, and connects
through it.

Layout:

- `src/` — the library, verified with Verus: the IP cache (`cache`), the
  configuration and its loading decisions (`config`), the control API's
  routing (`control`), target resolution and request forwarding
  (`proxy`), speed-test selection (`speedtest`), the system proxy setting
  and its memory (`system_proxy`), the clock (`clock`) and text helpers
  (`text`).
- `app/` — the program: command line, configuration file, DNS and TCP
  measurements, the hyper proxy server, the control API server and the
  platform calls that switch the system proxy.
- `tests/` — tests of the library.

Choosing a `background_refresh_interval_secs` value:

| scenario | cache_ttl_secs | background_refresh_interval_secs |
|---|---|---|
| fastest, stable network | 600 | 120 |
| IPs change often | 120 | 30 |
| save resources, poor network | 1800 | 300 |
