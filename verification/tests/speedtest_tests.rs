use fast_lane::speedtest::{fastest_for_cache, ipv4_string, keep_ipv4, latency_millis, pick_fastest, HostIp, Ipv4};

#[test]
fn keeps_only_ipv4_in_order() {
    let ips = vec![
        HostIp::V6([0x2001, 0xdb8, 0, 0, 0, 0, 0, 1]),
        HostIp::V4(Ipv4(1, 2, 3, 4)),
        HostIp::V6([0; 8]),
        HostIp::V4(Ipv4(5, 6, 7, 8)),
    ];
    assert_eq!(keep_ipv4(&ips), vec![Ipv4(1, 2, 3, 4), Ipv4(5, 6, 7, 8)]);
    assert!(keep_ipv4(&Vec::new()).is_empty());
}

#[test]
fn picks_first_fastest() {
    let a = Ipv4(1, 1, 1, 1);
    let b = Ipv4(2, 2, 2, 2);
    let c = Ipv4(3, 3, 3, 3);
    let samples = vec![(a, Some(30_000_000u128)), (b, None), (c, Some(10_000_000)), (Ipv4(4, 4, 4, 4), Some(10_000_000))];
    assert_eq!(pick_fastest(&samples), Some((c, 10_000_000)));
    assert_eq!(pick_fastest(&vec![(a, None), (b, None)]), None);
    assert_eq!(pick_fastest(&Vec::new()), None);
}

#[test]
fn ignores_times_beyond_bound() {
    let bound = 18446744073709551615000000000u128;
    let a = Ipv4(1, 1, 1, 1);
    assert_eq!(pick_fastest(&vec![(a, Some(bound))]), None);
    assert_eq!(pick_fastest(&vec![(a, Some(bound - 1))]), Some((a, bound - 1)));
}

#[test]
fn latency_in_millis() {
    assert_eq!(latency_millis(0), 0);
    assert_eq!(latency_millis(999_999), 0);
    assert_eq!(latency_millis(272_500_000), 272);
    assert_eq!(latency_millis(4_294_967_296_000_000), 0);
    assert_eq!(latency_millis(4_294_967_297_000_000), 1);
}

#[test]
fn ipv4_text() {
    assert_eq!(ipv4_string(Ipv4(34, 203, 4, 216)), "34.203.4.216");
    assert_eq!(ipv4_string(Ipv4(0, 0, 0, 0)), "0.0.0.0");
    assert_eq!(ipv4_string(Ipv4(255, 255, 255, 255)), "255.255.255.255");
    assert_eq!(ipv4_string(Ipv4(10, 0, 0, 1)), "10.0.0.1");
}

#[test]
fn fastest_as_cache_entry() {
    let samples = vec![(Ipv4(20, 27, 177, 113), Some(120_400_000u128))];
    assert_eq!(fastest_for_cache(&samples), Some(("20.27.177.113".to_string(), 120)));
    assert_eq!(fastest_for_cache(&Vec::new()), None);
}
