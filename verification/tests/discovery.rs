use neardesk::discovery::{collapse, mdns_services, note_advertised};
use neardesk::network::scan_plan;
use neardesk::protocol::confirm_protocol;
use neardesk::{discover, pick_target, Discovery, Host, IpAddr, Ipv4Addr, NameTable, Protocol};

fn v4(d: u8) -> Ipv4Addr {
    Ipv4Addr::new(10, 0, 0, d)
}

#[test]
fn three_services_are_browsed() {
    assert_eq!(
        mdns_services(),
        vec!["_rfb._tcp.local.", "_workstation._tcp.local.", "_rdp._tcp.local."]
    );
}

#[test]
fn labels_fall_back_to_the_address() {
    let mut host = Host { ip: v4(7), protocol: Protocol::Vnc, name: None };
    assert_eq!(host.label(), "10.0.0.7");
    host.name = Some("Studio".to_string());
    assert_eq!(host.label(), "Studio");
    let copy = host.clone();
    assert_eq!(copy.ip, host.ip);
    assert_eq!(copy.protocol, host.protocol);
    assert_eq!(copy.name, host.name);
}

#[test]
fn local_domain_is_left_out() {
    let mut names = NameTable::new();
    note_advertised(&mut names, "studio.local.", &vec![IpAddr::V4(v4(7)), IpAddr::V6]);
    assert_eq!(names.get(v4(7)), Some("studio"));
    assert_eq!(names.get(v4(8)), None);
}

#[test]
fn first_advertised_name_stays() {
    let mut names = NameTable::new();
    note_advertised(&mut names, "first.local.", &vec![IpAddr::V4(v4(7))]);
    note_advertised(&mut names, "second", &vec![IpAddr::V4(v4(7)), IpAddr::V4(v4(8))]);
    assert_eq!(names.get(v4(7)), Some("first"));
    assert_eq!(names.get(v4(8)), Some("second"));
}

#[test]
fn empty_names_are_not_noted() {
    let mut names = NameTable::new();
    note_advertised(&mut names, ".local.", &vec![IpAddr::V4(v4(7))]);
    note_advertised(&mut names, "...", &vec![IpAddr::V4(v4(7))]);
    assert_eq!(names.get(v4(7)), None);
}

#[test]
fn rdp_is_preferred_and_addresses_rise() {
    let confirmed = vec![
        (v4(20), Protocol::Vnc),
        (v4(3), Protocol::Rdp),
        (v4(20), Protocol::Rdp),
        (v4(3), Protocol::Vnc),
        (v4(9), Protocol::Vnc),
    ];
    assert_eq!(
        collapse(&confirmed),
        vec![(v4(3), Protocol::Rdp), (v4(9), Protocol::Vnc), (v4(20), Protocol::Rdp)]
    );
    assert_eq!(collapse(&vec![]), vec![]);
}

#[test]
fn order_of_replies_does_not_matter() {
    let mut confirmed = vec![
        (v4(20), Protocol::Vnc),
        (v4(20), Protocol::Rdp),
        (v4(4), Protocol::Vnc),
        (v4(20), Protocol::Vnc),
    ];
    let forward = collapse(&confirmed);
    confirmed.reverse();
    assert_eq!(collapse(&confirmed), forward);
}

#[test]
fn certificate_names_win_over_advertised_ones() {
    let mut certificates = NameTable::new();
    certificates.add(v4(3), "DESKTOP-1");
    let mut advertised = NameTable::new();
    advertised.add(v4(3), "desktop");
    advertised.add(v4(9), "studio");
    let confirmed =
        vec![(v4(9), Protocol::Vnc), (v4(3), Protocol::Rdp), (v4(11), Protocol::Rdp)];
    let d = discover("", &confirmed, &certificates, &advertised);
    let labels: Vec<String> = d.hosts.iter().map(|h| h.label()).collect();
    assert_eq!(labels, vec!["DESKTOP-1", "studio", "10.0.0.11"]);
    assert_eq!(d.hosts[1].protocol, Protocol::Vnc);
    assert_eq!(d.name_match, None);
    assert_eq!(pick_target(&d), None);
}

#[test]
fn a_typed_name_matches_ignoring_case() {
    let mut advertised = NameTable::new();
    advertised.add(v4(3), "Alpha");
    advertised.add(v4(9), "Studio");
    let confirmed = vec![(v4(9), Protocol::Vnc), (v4(3), Protocol::Rdp)];
    let d = discover(" STUDIO ", &confirmed, &NameTable::new(), &advertised);
    assert_eq!(d.name_match, Some(v4(9)));
    assert_eq!(pick_target(&d), Some(v4(9)));
    let none = discover("stud", &confirmed, &NameTable::new(), &advertised);
    assert_eq!(none.name_match, None);
    assert_eq!(pick_target(&none), None);
}

#[test]
fn an_address_is_not_a_name() {
    let d = discover(
        "10.0.0.9",
        &vec![(v4(9), Protocol::Vnc), (v4(3), Protocol::Rdp)],
        &NameTable::new(),
        &NameTable::new(),
    );
    assert_eq!(d.name_match, None);
}

#[test]
fn the_only_host_is_the_target() {
    let d = discover("other", &vec![(v4(9), Protocol::Vnc)], &NameTable::new(), &NameTable::new());
    assert_eq!(pick_target(&d), Some(v4(9)));
    assert_eq!(pick_target(&Discovery { hosts: vec![], name_match: None }), None);
}

#[test]
fn hosts_are_other_machines() {
    let locals = vec![v4(5)];
    let mut confirmed = Vec::new();
    for (ip, port) in scan_plan(&locals, &vec![]) {
        if let Some(p) = confirm_protocol(port, b"RFB 003.008\n") {
            confirmed.push((ip, p));
        }
    }
    let d = discover("", &confirmed, &NameTable::new(), &NameTable::new());
    assert_eq!(d.hosts.len(), 253);
    assert!(d.hosts.iter().all(|h| h.ip != v4(5) && h.protocol == Protocol::Vnc));
}
