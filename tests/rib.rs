use zebra::link::{link_addr_del, link_addr_update, Link, LinkAddr, OsAddr, OsLink};
use zebra::net::{ipv4_network, IpAddress, IpPrefix};
use zebra::rib::{Command, ConfigOp, OsMessage, Rib};
use zebra::route::{OsRoute, RibEntry};
use zebra::show::{link_show, rib_show, ROUTE_LEGEND};

fn v4(a: u8, b: u8, c: u8, d: u8) -> u32 {
    u32::from_be_bytes([a, b, c, d])
}

fn os_link(index: u32, name: &str) -> OsLink {
    OsLink { index, name: name.to_string(), flags: 0 }
}

fn os_addr(link_index: u32, addr: IpPrefix) -> OsAddr {
    OsAddr { addr, link_index }
}

fn tokens(s: &[&str]) -> Vec<String> {
    s.iter().map(|t| t.to_string()).collect()
}

fn count_index(rib: &Rib, index: u32) -> usize {
    rib.links().iter().filter(|l| l.index == index).count()
}

fn bare_link(index: u32) -> Link {
    Link::from_os(os_link(index, "eth0"))
}

#[test]
fn new_link_twice_keeps_one() {
    let mut rib = Rib::new();
    rib.process_os_message(OsMessage::NewLink(os_link(5, "eth0")));
    rib.process_os_message(OsMessage::NewLink(os_link(5, "eth1")));
    assert_eq!(count_index(&rib, 5), 1);
    assert_eq!(rib.links().len(), 1);
    assert_eq!(rib.links()[0].name, "eth0");
}

#[test]
fn links_kept_in_index_order() {
    let mut rib = Rib::new();
    rib.link_add(os_link(7, "c"));
    rib.link_add(os_link(2, "a"));
    rib.link_add(os_link(4, "b"));
    let idx: Vec<u32> = rib.links().iter().map(|l| l.index).collect();
    assert_eq!(idx, vec![2, 4, 7]);
    assert_eq!(rib.link_comps(), vec!["a".to_string(), "b".to_string(), "c".to_string()]);
}

#[test]
fn delete_absent_link_is_noop() {
    let mut rib = Rib::new();
    rib.link_add(os_link(1, "lo"));
    rib.link_delete(os_link(9, "x"));
    assert_eq!(rib.links().len(), 1);
    rib.link_delete(os_link(1, "lo"));
    assert_eq!(rib.links().len(), 0);
}

#[test]
fn add_del_add_leaves_one_link() {
    let mut rib = Rib::new();
    rib.process_os_message(OsMessage::NewLink(os_link(1, "eth0")));
    rib.process_os_message(OsMessage::DelLink(os_link(1, "eth0")));
    assert_eq!(count_index(&rib, 1), 0);
    rib.process_os_message(OsMessage::NewLink(os_link(1, "eth0")));
    assert_eq!(count_index(&rib, 1), 1);
}

#[test]
fn addr_round_trip_restores_list() {
    let mut link = bare_link(3);
    let a = LinkAddr { addr: IpPrefix::V4(v4(10, 0, 0, 1), 24), link_index: 3 };
    let b = LinkAddr { addr: IpPrefix::V4(v4(10, 0, 1, 1), 24), link_index: 3 };
    link_addr_update(&mut link, b);
    let before = link.addr4.clone();
    link_addr_update(&mut link, a);
    assert_eq!(link.addr4.len(), 2);
    link_addr_del(&mut link, a);
    assert_eq!(link.addr4, before);
    assert!(link.addr6.is_empty());
}

#[test]
fn addr_insert_is_unique_per_family() {
    let mut link = bare_link(3);
    let a = LinkAddr { addr: IpPrefix::V4(v4(10, 0, 0, 1), 24), link_index: 3 };
    let b = LinkAddr { addr: IpPrefix::V6(0x2001_0db8u128 << 96 | 1, 64), link_index: 3 };
    link_addr_update(&mut link, a);
    link_addr_update(&mut link, a);
    link_addr_update(&mut link, b);
    assert_eq!(link.addr4, vec![a]);
    assert_eq!(link.addr6, vec![b]);
    link_addr_del(&mut link, b);
    assert!(link.addr6.is_empty());
    link_addr_del(&mut link, b);
    assert_eq!(link.addr4, vec![a]);
}

#[test]
fn addr_for_unknown_link_is_dropped() {
    let mut rib = Rib::new();
    rib.link_add(os_link(1, "eth0"));
    rib.addr_add(os_addr(1, IpPrefix::V4(v4(10, 0, 0, 1), 24)));
    rib.process_os_message(OsMessage::NewAddr(os_addr(2, IpPrefix::V4(v4(10, 9, 0, 1), 24))));
    rib.process_os_message(OsMessage::DelAddr(os_addr(2, IpPrefix::V4(v4(10, 0, 0, 1), 24))));
    assert_eq!(rib.links().len(), 1);
    assert_eq!(rib.links()[0].addr4.len(), 1);
    assert_eq!(rib.links()[0].addr4[0].addr, IpPrefix::V4(v4(10, 0, 0, 1), 24));
}

#[test]
fn route_visible_in_listing() {
    let mut rib = Rib::new();
    let out = rib.process_show_message(&tokens(&["show", "ip", "route"])).unwrap();
    assert!(!out.contains("10.0.0.0/24"));
    assert!(!out.contains("192.0.2.1"));
    rib.process_os_message(OsMessage::NewRoute(OsRoute {
        route: IpPrefix::V4(v4(10, 0, 0, 0), 24),
        gateway: IpAddress::V4(v4(192, 0, 2, 1)),
    }));
    let out = rib.process_show_message(&tokens(&["show", "ip", "route"])).unwrap();
    assert!(out.contains("10.0.0.0/24"));
    assert!(out.contains("192.0.2.1"));
    assert_eq!(out, format!("{}K  10.0.0.0/24     192.0.2.1\n", ROUTE_LEGEND));
}

#[test]
fn empty_route_listing_is_legend() {
    let rib = Rib::new();
    assert_eq!(rib_show(&rib, vec![]), ROUTE_LEGEND);
    assert!(ROUTE_LEGEND.starts_with("Codes: K - kernel"));
    assert!(ROUTE_LEGEND.contains("i - IS-IS"));
}

#[test]
fn ipv6_route_ignored() {
    let mut rib = Rib::new();
    rib.route_add(OsRoute {
        route: IpPrefix::V4(v4(10, 0, 0, 0), 8),
        gateway: IpAddress::V4(v4(10, 0, 0, 1)),
    });
    assert_eq!(rib.route_count(), 1);
    rib.process_os_message(OsMessage::NewRoute(OsRoute {
        route: IpPrefix::V6(0x2001_0db8u128 << 96, 32),
        gateway: IpAddress::V6(1),
    }));
    assert_eq!(rib.route_count(), 1);
}

#[test]
fn route_host_bits_cleared_and_replaced() {
    let mut rib = Rib::new();
    rib.route_add(OsRoute {
        route: IpPrefix::V4(v4(10, 0, 0, 7), 24),
        gateway: IpAddress::V4(v4(192, 0, 2, 1)),
    });
    rib.route_add(OsRoute {
        route: IpPrefix::V4(v4(10, 0, 0, 0), 24),
        gateway: IpAddress::V4(v4(192, 0, 2, 9)),
    });
    assert_eq!(rib.route_count(), 1);
    let out = rib_show(&rib, vec![]);
    assert!(out.ends_with("K  10.0.0.0/24     192.0.2.9\n"));
    assert!(!out.contains("10.0.0.7"));
}

#[test]
fn route_delete_removes_entry() {
    let mut rib = Rib::new();
    let r = OsRoute { route: IpPrefix::V4(v4(10, 1, 0, 0), 16), gateway: IpAddress::V4(0) };
    rib.route_add(r);
    rib.route_add(OsRoute { route: IpPrefix::V4(v4(10, 2, 0, 0), 16), gateway: IpAddress::V4(0) });
    assert_eq!(rib.route_count(), 2);
    rib.process_os_message(OsMessage::DelRoute(r));
    assert_eq!(rib.route_count(), 1);
    let out = rib_show(&rib, vec![]);
    assert!(!out.contains("10.1.0.0/16"));
    assert!(out.contains("10.2.0.0/16     0.0.0.0"));
    rib.route_del(r);
    assert_eq!(rib.route_count(), 1);
}

#[test]
fn completion_lists_link_names() {
    let mut rib = Rib::new();
    rib.process_os_message(OsMessage::NewLink(os_link(2, "eth0")));
    rib.process_os_message(OsMessage::NewLink(os_link(1, "lo")));
    let mut names = rib.process_cm_message(ConfigOp::Completion).unwrap();
    names.sort();
    assert_eq!(names, vec!["eth0".to_string(), "lo".to_string()]);
    assert!(rib.process_cm_message(ConfigOp::Assign).is_none());
    assert!(rib.process_cm_message(ConfigOp::Delete).is_none());
}

#[test]
fn unknown_command_has_no_answer() {
    let rib = Rib::new();
    assert!(rib.process_show_message(&tokens(&["show", "bogus"])).is_none());
    assert!(rib.process_show_message(&tokens(&[])).is_none());
    assert!(rib.process_show_message(&tokens(&["show"])).is_none());
}

#[test]
fn interfaces_summary_and_filter() {
    let mut rib = Rib::new();
    rib.link_add(os_link(1, "lo"));
    rib.link_add(os_link(2, "eth0"));
    rib.addr_add(os_addr(2, IpPrefix::V4(v4(10, 0, 0, 1), 24)));
    rib.addr_add(os_addr(2, IpPrefix::V6(0x2001_0db8u128 << 96 | 1, 64)));
    let all = rib.process_show_message(&tokens(&["show", "interfaces"])).unwrap();
    assert_eq!(
        all,
        "Interface lo\nInterface eth0\n  inet 10.0.0.1/24\n  inet6 2001:db8::1/64\n"
    );
    let one = rib.process_show_message(&tokens(&["show", "interfaces", "eth0"])).unwrap();
    assert_eq!(one, "Interface eth0\n  inet 10.0.0.1/24\n  inet6 2001:db8::1/64\n");
    assert_eq!(link_show(&rib, tokens(&["none"])), "");
    assert_eq!(link_show(&Rib::new(), vec![]), "");
}

#[test]
fn link_lookup_by_name() {
    let mut rib = Rib::new();
    rib.link_add(os_link(3, "eth0"));
    rib.link_add(os_link(8, "wlan0"));
    assert_eq!(rib.link_by_name("wlan0").map(|l| l.index), Some(8));
    assert!(rib.link_by_name("eth9").is_none());
}

#[test]
fn callback_registration_replaces() {
    let mut rib = Rib::new();
    assert_eq!(rib.callback_get(&"/show/ip/route".to_string()), Some(Command::ShowIpRoute));
    assert_eq!(rib.callback_get(&"/show/interfaces".to_string()), Some(Command::ShowInterfaces));
    rib.callback_add("/show/ip/route", Command::ShowInterfaces);
    assert_eq!(rib.callback_get(&"/show/ip/route".to_string()), Some(Command::ShowInterfaces));
    rib.callback_add("/show/links", Command::ShowInterfaces);
    assert!(rib.process_show_message(&tokens(&["show", "links"])).is_some());
    assert_eq!(rib.callback_get(&"/show/bogus".to_string()), None);
}

#[test]
fn network_address_of_prefix() {
    assert_eq!(ipv4_network(v4(10, 1, 2, 3), 8), v4(10, 0, 0, 0));
    assert_eq!(ipv4_network(v4(10, 1, 2, 3), 0), 0);
    assert_eq!(ipv4_network(v4(10, 1, 2, 3), 32), v4(10, 1, 2, 3));
    assert_eq!(ipv4_network(u32::MAX, 31), u32::MAX - 1);
}

#[test]
fn fresh_entry_defaults() {
    let e = RibEntry::new();
    assert!(!e.selected);
    assert_eq!(e.preference, 0);
    assert_eq!(e.tag, 0);
    assert!(e.color.is_empty());
    assert!(e.nexthops.is_empty());
    assert_eq!(e.gateway, IpAddress::V4(0));
}

#[test]
fn route_with_ipv6_gateway_listed() {
    let mut rib = Rib::new();
    rib.route_add(OsRoute {
        route: IpPrefix::V4(v4(10, 0, 0, 0), 8),
        gateway: IpAddress::V6(0x2001_0db8u128 << 96 | 1),
    });
    let out = rib_show(&rib, vec![]);
    assert_eq!(out, format!("{}K  10.0.0.0/8     2001:db8::1\n", ROUTE_LEGEND));
}
