use dnet_p2p::utils::{get_bridge_ip, get_local_network_ip, IpAddress};

fn v4(a: u8, b: u8, c: u8, d: u8) -> IpAddress {
    IpAddress::V4(u32::from_be_bytes([a, b, c, d]))
}

// Only the IPv4 addresses take part in either choice, so an IPv6
// address is kept as a placeholder.
fn to_model(text: &str, is_ipv4: bool) -> IpAddress {
    if is_ipv4 {
        let octets: Vec<u8> = text.split('.').map(|o| o.parse().unwrap()).collect();
        v4(octets[0], octets[1], octets[2], octets[3])
    } else {
        IpAddress::V6(0)
    }
}

#[test]
fn test_ips() {
    let ifaces: Vec<(String, IpAddress)> = local_ip_address::list_afinet_netifas()
        .unwrap_or_default()
        .into_iter()
        .map(|(name, addr)| (name, to_model(&addr.to_string(), addr.is_ipv4())))
        .collect();
    let local_ip = get_local_network_ip(&ifaces);
    println!("Local network IP: {:?}", local_ip);

    let bridge_ip = get_bridge_ip(&ifaces);
    println!("Bridge IP: {:?}", bridge_ip);
}

#[test]
fn local_ip_needs_private_address() {
    let ifaces = vec![
        ("en0".to_string(), v4(8, 8, 8, 8)),
        ("en1".to_string(), v4(172, 20, 0, 3)),
    ];
    assert_eq!(get_local_network_ip(&ifaces), Some(("en1".to_string(), v4(172, 20, 0, 3))));
    assert_eq!(get_local_network_ip(&ifaces[..1].to_vec()), None);
}

#[test]
fn local_ip_is_least_en_ipv4() {
    let ifaces = vec![
        ("lo".to_string(), v4(127, 0, 0, 1)),
        ("en1".to_string(), v4(192, 168, 1, 5)),
        ("en0".to_string(), IpAddress::V6(1)),
        ("en0".to_string(), v4(10, 0, 0, 9)),
        ("en0".to_string(), v4(10, 0, 0, 2)),
        ("eth0".to_string(), v4(10, 0, 0, 1)),
    ];
    assert_eq!(get_local_network_ip(&ifaces), Some(("en0".to_string(), v4(10, 0, 0, 2))));
}

#[test]
fn local_ip_orders_names_by_bytes() {
    let ifaces = vec![
        ("enp3s0".to_string(), v4(10, 1, 1, 1)),
        ("en".to_string(), v4(10, 9, 9, 9)),
        ("ené".to_string(), v4(10, 0, 0, 1)),
        ("enZ".to_string(), v4(10, 0, 0, 2)),
    ];
    assert_eq!(get_local_network_ip(&ifaces), Some(("en".to_string(), v4(10, 9, 9, 9))));
    let without_short = ifaces[..1].iter().chain(ifaces[2..].iter()).cloned().collect::<Vec<_>>();
    assert_eq!(get_local_network_ip(&without_short), Some(("enZ".to_string(), v4(10, 0, 0, 2))));
}

#[test]
fn no_local_ip_without_candidates() {
    let ifaces = vec![("en0".to_string(), IpAddress::V6(7)), ("wlan0".to_string(), v4(10, 2, 3, 4))];
    assert_eq!(get_local_network_ip(&ifaces), None);
    assert_eq!(get_local_network_ip(&vec![]), None);
}

#[test]
fn bridge_is_first_ipv4_bridge0() {
    let ifaces = vec![
        ("bridge0".to_string(), IpAddress::V6(3)),
        ("bridge1".to_string(), v4(169, 254, 0, 1)),
        ("bridge0".to_string(), v4(169, 254, 0, 9)),
        ("bridge0".to_string(), v4(169, 254, 0, 2)),
    ];
    assert_eq!(get_bridge_ip(&ifaces), Some(("bridge0".to_string(), v4(169, 254, 0, 9))));
    assert_eq!(get_bridge_ip(&ifaces[..2].to_vec()), None);
}
