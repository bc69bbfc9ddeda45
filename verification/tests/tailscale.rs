use loungy::tailscale::{by_name, peer_entries, peer_filter_options, peer_name, show_offline, Peer};

fn peer(dns: &str, online: bool) -> Peer {
    Peer {
        id: dns.to_string(),
        dns_name: dns.to_string(),
        os: "linux".to_string(),
        tailscale_ips: vec!["100.64.0.1".to_string(), "fd7a::1".to_string()],
        online,
        last_seen: "2024-05-01".to_string(),
    }
}

#[test]
fn peers_are_named_by_their_host() {
    assert_eq!(peer_name("laptop.tail1234.ts.net."), "laptop");
    assert_eq!(peer_name("plain"), "plain");
    assert!(show_offline("offline") && !show_offline("online"));
    assert_eq!(peer_filter_options()[0], ("online".to_string(), "Hide Offline".to_string()));
}

#[test]
fn offline_peers_only_when_asked() {
    let peers = vec![peer("zeta.ts.net", true), peer("alpha.ts.net", false), peer("beta.ts.net", true)];
    let shown = peer_entries(&peers, &vec![1, 2, 3], false, true);
    assert_eq!(shown.iter().map(|e| e.name.clone()).collect::<Vec<_>>(), vec!["zeta", "beta"]);
    let all = peer_entries(&peers, &vec![1, 2, 3], true, true);
    assert_eq!(all[1].tag, "Last seen: 2024-05-01");
    assert_eq!(all[0].tag, "Connected");
    let sorted = by_name(all);
    assert_eq!(sorted.iter().map(|e| e.name.clone()).collect::<Vec<_>>(), vec!["alpha", "beta", "zeta"]);
}

#[test]
fn peer_actions_use_its_addresses() {
    let e = &peer_entries(&vec![peer("box.ts.net", true)], &vec![7], false, false)[0];
    assert_eq!(e.url, "https://100.64.0.1");
    assert_eq!((e.ipv4.as_str(), e.ipv6.as_str()), ("100.64.0.1", "fd7a::1"));
    let labels: Vec<String> = e.item.actions.iter().map(|a| a.label.clone()).collect();
    assert_eq!(labels, vec!["Open", "Copy IPv4", "Copy IPv6"]);
    let v6 = e.item.actions[2].shortcut.as_ref().unwrap();
    assert!(v6.inner.modifiers.platform && v6.inner.modifiers.shift);
    assert!(e.item.actions[1].shortcut.as_ref().unwrap().inner.modifiers.control);
}

#[test]
fn peers_show_their_system() {
    let shown = peer_entries(&vec![peer("box.ts.net", true)], &vec![7], false, true);
    assert_eq!(shown[0].item.subtitle.as_deref(), Some("linux"));
}
