//! The decisions of a speed test: which resolved addresses are measured,
//! which measured address is the fastest, and the latency recorded for it.
//!
//! Resolving a domain and timing TCP connections are the program's work; it
//! hands over the addresses and the measured round-trip times in
//! nanoseconds (`None` for an address that did not answer in time).

use vstd::prelude::*;
use vstd::string::*;

use crate::text::{decimal, decimal_string, digits_value, dotted_fields, lemma_decimal_digits, lemma_digits_one_field, lemma_split_after_digits};

verus! {

/// An IPv4 address, by its four octets.
#[derive(Debug, Clone, Copy, PartialEq, Eq)]
pub struct Ipv4(pub u8, pub u8, pub u8, pub u8);

/// An address that a domain resolves to.
#[derive(Debug, Clone, Copy, PartialEq, Eq)]
pub enum HostIp {
    V4(Ipv4),
    V6([u16; 8]),
}

/// The IPv4 addresses of `ips`, in order.
pub open spec fn ipv4_only(ips: Seq<HostIp>) -> Seq<Ipv4>
    decreases ips.len(),
{
    if ips.len() == 0 {
        seq![]
    } else {
        let rest = ipv4_only(ips.drop_last());
        match ips.last() {
            HostIp::V4(a) => rest.push(a),
            HostIp::V6(_) => rest,
        }
    }
}

/// Keeps the IPv4 addresses, in order; only these are measured.
pub fn keep_ipv4(ips: &Vec<HostIp>) -> (out: Vec<Ipv4>)
    ensures
        out@ == ipv4_only(ips@),
{
    let mut out: Vec<Ipv4> = Vec::new();
    let mut i: usize = 0;
    while i < ips.len()
        invariant
            i <= ips.len(),
            out@ == ipv4_only(ips@.take(i as int)),
        decreases ips.len() - i,
    {
        assert(ips@.take(i + 1).drop_last() =~= ips@.take(i as int));
        match ips[i] {
            HostIp::V4(a) => {
                out.push(a);
            },
            HostIp::V6(_) => {},
        }
        i = i + 1;
    }
    assert(ips@.take(ips.len() as int) =~= ips@);
    out
}

/// The bound that a round-trip time must be under to count: `u64::MAX`
/// seconds, in nanoseconds.
pub open spec fn rtt_bound() -> u128 {
    18446744073709551615000000000u128
}

/// The best (address, round-trip time) among `samples`, scanning in order
/// and taking a sample only where its time is strictly below the best so
/// far, starting from [`rtt_bound`].
pub open spec fn best_sample(samples: Seq<(Ipv4, Option<u128>)>) -> (Option<Ipv4>, u128)
    decreases samples.len(),
{
    if samples.len() == 0 {
        (None, rtt_bound())
    } else {
        let (best, best_rtt) = best_sample(samples.drop_last());
        let (ip, rtt) = samples.last();
        match rtt {
            Some(t) => if t < best_rtt { (Some(ip), t) } else { (best, best_rtt) },
            None => (best, best_rtt),
        }
    }
}

/// The fastest address and its round-trip time, or `None` where no
/// address answered.
pub open spec fn fastest_of(samples: Seq<(Ipv4, Option<u128>)>) -> Option<(Ipv4, u128)> {
    match best_sample(samples).0 {
        Some(ip) => Some((ip, best_sample(samples).1)),
        None => None,
    }
}

/// Picks the fastest address among the measured ones: the first with the
/// least round-trip time.
pub fn pick_fastest(samples: &Vec<(Ipv4, Option<u128>)>) -> (r: Option<(Ipv4, u128)>)
    ensures
        r == fastest_of(samples@),
{
    let mut best: Option<Ipv4> = None;
    let mut best_rtt: u128 = 18446744073709551615000000000u128;
    let mut i: usize = 0;
    while i < samples.len()
        invariant
            i <= samples.len(),
            (best, best_rtt) == best_sample(samples@.take(i as int)),
        decreases samples.len() - i,
    {
        assert(samples@.take(i + 1).drop_last() =~= samples@.take(i as int));
        let (ip, rtt) = samples[i];
        match rtt {
            Some(t) => {
                if t < best_rtt {
                    best_rtt = t;
                    best = Some(ip);
                }
            },
            None => {},
        }
        i = i + 1;
    }
    assert(samples@.take(samples.len() as int) =~= samples@);
    match best {
        Some(ip) => Some((ip, best_rtt)),
        None => None,
    }
}

/// The latency recorded for a round-trip time: whole milliseconds, cut to
/// 32 bits as `as u32` does.
pub open spec fn latency_of(rtt_nanos: u128) -> u32 {
    ((rtt_nanos / 1_000_000) % 0x1_0000_0000) as u32
}

/// The latency recorded for a round-trip time given in nanoseconds.
pub fn latency_millis(rtt_nanos: u128) -> (ms: u32)
    ensures
        ms == latency_of(rtt_nanos),
{
    ((rtt_nanos / 1_000_000) % 0x1_0000_0000) as u32
}

/// The dotted-decimal text of an IPv4 address.
pub open spec fn ipv4_text(a: Ipv4) -> Seq<char> {
    decimal(a.0 as nat) + "."@ + decimal(a.1 as nat) + "."@ + decimal(a.2 as nat) + "."@ + decimal(
        a.3 as nat,
    )
}

/// Writes an IPv4 address in dotted-decimal form, as its `Display` does.
pub fn ipv4_string(a: Ipv4) -> (s: String)
    ensures
        s@ == ipv4_text(a),
{
    let mut s = decimal_string(a.0 as u64);
    s.append(".");
    s.append(decimal_string(a.1 as u64).as_str());
    s.append(".");
    s.append(decimal_string(a.2 as u64).as_str());
    s.append(".");
    s.append(decimal_string(a.3 as u64).as_str());
    s
}

/// What a speed test reports to the cache: the fastest address as text and
/// its latency in milliseconds.
pub fn fastest_for_cache(samples: &Vec<(Ipv4, Option<u128>)>) -> (r: Option<(String, u32)>)
    ensures
        match fastest_of(samples@) {
            Some((ip, rtt)) => r matches Some((s, ms)) && s@ == ipv4_text(ip) && ms == latency_of(rtt),
            None => r is None,
        },
{
    match pick_fastest(samples) {
        Some((ip, rtt)) => Some((ipv4_string(ip), latency_millis(rtt))),
        None => None,
    }
}

/// A measured time is no faster than `best`, or is not counted.
pub open spec fn no_faster(best: u128, rtt: Option<u128>) -> bool {
    match rtt {
        Some(t) => best <= t || t >= rtt_bound(),
        None => true,
    }
}

/// The fastest address is at least as fast as every address that answered
/// (within [`rtt_bound`]), and it is one of the samples with the time it
/// was measured with.
pub proof fn law_fastest_is_minimal(samples: Seq<(Ipv4, Option<u128>)>)
    ensures
        forall|i: int|
            0 <= i < samples.len() ==> no_faster(best_sample(samples).1, (#[trigger] samples[i]).1),
        best_sample(samples).1 <= rtt_bound(),
        best_sample(samples).0 matches Some(ip) ==> exists|i: int|
            0 <= i < samples.len() && #[trigger] samples[i] == (ip, Some(best_sample(samples).1)),
        best_sample(samples).0 is None ==> best_sample(samples).1 == rtt_bound(),
    decreases samples.len(),
{
    if samples.len() > 0 {
        let rest = samples.drop_last();
        law_fastest_is_minimal(rest);
        assert forall|i: int|
            0 <= i < samples.len() implies no_faster(best_sample(samples).1, (#[trigger] samples[i]).1) by {
            if i < rest.len() {
                assert(samples[i] == rest[i]);
            }
        }
        if best_sample(samples).0 is Some {
            if best_sample(samples) != best_sample(rest) {
                assert(samples[samples.len() - 1] == samples.last());
            } else {
                let ip = best_sample(rest).0->0;
                let i = choose|i: int| 0 <= i < rest.len() && #[trigger] rest[i] == (ip, Some(best_sample(rest).1));
                assert(samples[i] == rest[i]);
            }
        }
    }
}

/// No address is chosen exactly when none answered within [`rtt_bound`].
pub proof fn law_no_fastest_without_answer(samples: Seq<(Ipv4, Option<u128>)>)
    ensures
        fastest_of(samples) is None <==> forall|i: int|
            0 <= i < samples.len() ==> match (#[trigger] samples[i]).1 {
                Some(t) => t >= rtt_bound(),
                None => true,
            },
    decreases samples.len(),
{
    law_fastest_is_minimal(samples);
    if samples.len() > 0 {
        let rest = samples.drop_last();
        law_no_fastest_without_answer(rest);
        law_fastest_is_minimal(rest);
        if fastest_of(samples) is None {
            assert forall|i: int| 0 <= i < samples.len() implies match (#[trigger] samples[i]).1 {
                Some(t) => t >= rtt_bound(),
                None => true,
            } by {
                if i < rest.len() {
                    assert(samples[i] == rest[i]);
                }
            }
        } else {
            let ip = best_sample(samples).0->0;
            let i = choose|i: int| 0 <= i < samples.len() && #[trigger] samples[i] == (ip, Some(best_sample(samples).1));
            assert(best_sample(samples).1 < rtt_bound()) by {
                if best_sample(samples) == best_sample(rest) {
                    assert(best_sample(rest).0 is Some);
                }
            }
        }
    }
}

/// Every sample before `k` answered strictly slower than `best`, or not at
/// all.
pub open spec fn slower_before(samples: Seq<(Ipv4, Option<u128>)>, k: int, best: u128) -> bool {
    forall|j: int| 0 <= j < k ==> match (#[trigger] samples[j]).1 {
        Some(t) => t > best,
        None => true,
    }
}

/// The first address with the least time wins: the chosen address was
/// measured at some position with the chosen time, and every sample before
/// that position answered strictly slower.
pub proof fn law_fastest_is_first(samples: Seq<(Ipv4, Option<u128>)>)
    ensures
        best_sample(samples).0 matches Some(ip) ==> exists|k: int|
            0 <= k < samples.len() && #[trigger] samples[k] == (ip, Some(best_sample(samples).1))
                && slower_before(samples, k, best_sample(samples).1),
    decreases samples.len(),
{
    if samples.len() > 0 {
        let rest = samples.drop_last();
        law_fastest_is_first(rest);
        law_fastest_is_minimal(rest);
        if best_sample(samples) != best_sample(rest) {
            let k = samples.len() - 1;
            assert(samples[k] == samples.last());
            assert forall|j: int| 0 <= j < k implies match (#[trigger] samples[j]).1 {
                Some(t) => t > best_sample(samples).1,
                None => true,
            } by {
                assert(samples[j] == rest[j]);
                assert(no_faster(best_sample(rest).1, rest[j].1));
            }
            assert(slower_before(samples, k, best_sample(samples).1));
        } else if best_sample(samples).0 is Some {
            let ip = best_sample(rest).0->0;
            let k = choose|k: int|
                0 <= k < rest.len() && #[trigger] rest[k] == (ip, Some(best_sample(rest).1))
                    && slower_before(rest, k, best_sample(rest).1);
            assert(samples[k] == rest[k]);
            assert forall|j: int| 0 <= j < k implies match (#[trigger] samples[j]).1 {
                Some(t) => t > best_sample(samples).1,
                None => true,
            } by {
                assert(samples[j] == rest[j]);
            }
            assert(slower_before(samples, k, best_sample(samples).1));
        }
    }
}

/// Only IPv4 addresses are measured, each one an address that the domain
/// resolved to, and every IPv4 address it resolved to is measured.
pub proof fn law_ipv4_only_keeps_resolved(ips: Seq<HostIp>)
    ensures
        forall|k: int| 0 <= k < ipv4_only(ips).len() ==> ips.contains(HostIp::V4(#[trigger] ipv4_only(ips)[k])),
        forall|a: Ipv4| ips.contains(HostIp::V4(a)) ==> #[trigger] ipv4_only(ips).contains(a),
    decreases ips.len(),
{
    if ips.len() > 0 {
        let rest = ips.drop_last();
        law_ipv4_only_keeps_resolved(rest);
        let out = ipv4_only(ips);
        let rout = ipv4_only(rest);
        assert forall|k: int| 0 <= k < out.len() implies ips.contains(HostIp::V4(#[trigger] out[k])) by {
            if k < rout.len() {
                assert(out[k] == rout[k]);
                let j = choose|j: int| 0 <= j < rest.len() && rest[j] == HostIp::V4(rout[k]);
                assert(ips[j] == rest[j]);
            } else {
                assert(ips[ips.len() - 1] == ips.last());
            }
        }
        assert forall|a: Ipv4| ips.contains(HostIp::V4(a)) implies #[trigger] out.contains(a) by {
            let j = choose|j: int| 0 <= j < ips.len() && ips[j] == HostIp::V4(a);
            if j < rest.len() {
                assert(rest[j] == ips[j]);
                assert(rout.contains(a));
                let k = choose|k: int| 0 <= k < rout.len() && rout[k] == a;
                assert(out[k] == rout[k]);
            } else {
                assert(out[out.len() - 1] == a);
            }
        }
    }
}

/// The text of an address reads back as the address: split at its dots it
/// gives four fields of digits, which denote the four octets in order.
pub proof fn law_ipv4_text_reads_back(a: Ipv4)
    ensures
        dotted_fields(ipv4_text(a)).len() == 4,
        digits_value(dotted_fields(ipv4_text(a))[0]) == a.0,
        digits_value(dotted_fields(ipv4_text(a))[1]) == a.1,
        digits_value(dotted_fields(ipv4_text(a))[2]) == a.2,
        digits_value(dotted_fields(ipv4_text(a))[3]) == a.3,
{
    let d0 = decimal(a.0 as nat);
    let d1 = decimal(a.1 as nat);
    let d2 = decimal(a.2 as nat);
    let d3 = decimal(a.3 as nat);
    lemma_decimal_digits(a.0 as nat);
    lemma_decimal_digits(a.1 as nat);
    lemma_decimal_digits(a.2 as nat);
    lemma_decimal_digits(a.3 as nat);
    reveal_strlit(".");
    assert("."@ =~= seq!['.']);
    let r2 = d2 + seq!['.'] + d3;
    let r1 = d1 + seq!['.'] + r2;
    assert(ipv4_text(a) =~= d0 + seq!['.'] + r1);
    lemma_digits_one_field(d3);
    lemma_split_after_digits(d2, d3);
    lemma_split_after_digits(d1, r2);
    lemma_split_after_digits(d0, r1);
    assert(dotted_fields(ipv4_text(a)) =~= seq![d0, d1, d2, d3]);
}

/// Different addresses have different texts.
pub proof fn law_ipv4_text_one_to_one(a: Ipv4, b: Ipv4)
    requires
        ipv4_text(a) == ipv4_text(b),
    ensures
        a == b,
{
    law_ipv4_text_reads_back(a);
    law_ipv4_text_reads_back(b);
}

} // verus!
