use neardesk::network::{
    current_username, local_ipv4s, names_to_resolve, primary_ipv4, resolve_name, scan_plan,
    Interface,
};
use neardesk::protocol::{confirm_protocol, confirm_rdp, confirm_vnc, probe};
use neardesk::{IpAddr, Ipv4Addr, Protocol};

fn v4(a: u8, b: u8, c: u8, d: u8) -> Ipv4Addr {
    Ipv4Addr::new(a, b, c, d)
}

fn seen(loopback: bool, ip: Ipv4Addr) -> Interface {
    Interface { loopback, ip: IpAddr::V4(ip) }
}

#[test]
fn addresses_are_written_in_dotted_decimal() {
    assert_eq!(v4(192, 168, 0, 10).to_string(), "192.168.0.10");
    assert_eq!(v4(0, 0, 0, 0).to_string(), "0.0.0.0");
    assert_eq!(v4(255, 255, 255, 255).to_string(), "255.255.255.255");
    assert_eq!(v4(1, 2, 3, 4).octets(), [1, 2, 3, 4]);
}

#[test]
fn text_tells_addresses_apart() {
    assert_ne!(v4(1, 11, 1, 1).to_string(), v4(11, 1, 1, 1).to_string());
    assert_ne!(v4(1, 1, 1, 11).to_string(), v4(1, 1, 11, 1).to_string());
}

#[test]
fn addresses_are_ordered_by_their_octets() {
    assert!(v4(9, 255, 255, 255).precedes(&v4(10, 0, 0, 0)));
    assert!(v4(10, 0, 0, 2).precedes(&v4(10, 0, 0, 10)));
    assert!(!v4(10, 0, 0, 2).precedes(&v4(10, 0, 0, 2)));
    assert!(!v4(10, 0, 1, 0).precedes(&v4(10, 0, 0, 255)));
}

#[test]
fn username_comes_from_either_variable() {
    assert_eq!(current_username(Some("ann".to_string()), Some("bob".to_string())), "ann");
    assert_eq!(current_username(None, Some("bob".to_string())), "bob");
    assert_eq!(current_username(None, None), "");
}

#[test]
fn primary_address_is_ipv4() {
    assert_eq!(primary_ipv4(Some(IpAddr::V4(v4(10, 0, 0, 5)))), Some(v4(10, 0, 0, 5)));
    assert_eq!(primary_ipv4(Some(IpAddr::V6)), None);
    assert_eq!(primary_ipv4(None), None);
}

#[test]
fn locals_leave_out_loopback_link_local_and_repeats() {
    let interfaces = vec![
        seen(true, v4(127, 0, 0, 1)),
        seen(false, v4(127, 0, 0, 2)),
        seen(false, v4(169, 254, 3, 4)),
        seen(false, v4(192, 168, 1, 20)),
        Interface { loopback: false, ip: IpAddr::V6 },
        seen(false, v4(10, 0, 0, 5)),
        seen(false, v4(192, 168, 1, 20)),
    ];
    assert_eq!(
        local_ipv4s(&interfaces, Some(v4(1, 1, 1, 1))),
        vec![v4(192, 168, 1, 20), v4(10, 0, 0, 5)]
    );
}

#[test]
fn primary_address_stands_in_for_no_interfaces() {
    let loopback = vec![seen(true, v4(127, 0, 0, 1))];
    assert_eq!(local_ipv4s(&loopback, Some(v4(10, 0, 0, 5))), vec![v4(10, 0, 0, 5)]);
    assert_eq!(local_ipv4s(&vec![], None), vec![]);
    assert_eq!(local_ipv4s(&vec![], Some(v4(169, 254, 1, 1))), vec![]);
    assert_eq!(local_ipv4s(&loopback, Some(v4(127, 0, 0, 1))), vec![]);
}

#[test]
fn a_typed_name_is_looked_up_in_two_forms() {
    assert_eq!(names_to_resolve(" studio "), vec!["studio".to_string(), "studio.local".to_string()]);
    assert_eq!(names_to_resolve("  "), Vec::<String>::new());
}

#[test]
fn answers_are_merged_without_repeats() {
    let answers = vec![
        vec![IpAddr::V4(v4(10, 0, 0, 7)), IpAddr::V6, IpAddr::V4(v4(10, 0, 0, 7))],
        vec![IpAddr::V4(v4(10, 0, 0, 8)), IpAddr::V4(v4(10, 0, 0, 7))],
    ];
    assert_eq!(resolve_name(&answers), vec![v4(10, 0, 0, 7), v4(10, 0, 0, 8)]);
    assert_eq!(resolve_name(&vec![]), vec![]);
}

#[test]
fn scan_covers_each_network_but_not_this_machine() {
    let plan = scan_plan(&vec![v4(192, 168, 1, 20), v4(192, 168, 1, 21)], &vec![]);
    assert_eq!(plan.len(), 2 * 252);
    assert_eq!(plan[0], (v4(192, 168, 1, 1), 3389));
    assert_eq!(plan[1], (v4(192, 168, 1, 1), 5900));
    assert_eq!(plan[plan.len() - 1], (v4(192, 168, 1, 254), 5900));
    assert!(!plan.contains(&(v4(192, 168, 1, 20), 3389)));
    assert!(!plan.contains(&(v4(192, 168, 1, 21), 5900)));
    assert!(!plan.contains(&(v4(192, 168, 1, 0), 3389)));
    assert!(!plan.contains(&(v4(192, 168, 1, 255), 3389)));
}

#[test]
fn scan_tries_the_typed_machine_last_even_if_local() {
    let local = v4(192, 168, 1, 20);
    let plan = scan_plan(&vec![local], &vec![local, v4(8, 8, 8, 8)]);
    assert_eq!(plan.len(), 2 * 253 + 4);
    assert_eq!(
        plan[2 * 253..],
        [(local, 3389), (local, 5900), (v4(8, 8, 8, 8), 3389), (v4(8, 8, 8, 8), 5900)]
    );
}

#[test]
fn every_local_network_is_scanned() {
    let mut locals = Vec::new();
    for c in 0..12u8 {
        locals.push(v4(10, 0, c, 1));
    }
    let plan = scan_plan(&locals, &vec![]);
    assert_eq!(plan.len(), 12 * 2 * 253);
    for c in 0..12u8 {
        assert!(!plan.contains(&(v4(10, 0, c, 1), 3389)));
        for d in 2..=254u8 {
            assert!(plan.contains(&(v4(10, 0, c, d), 3389)));
            assert!(plan.contains(&(v4(10, 0, c, d), 5900)));
        }
    }
    assert_eq!(scan_plan(&vec![], &vec![]), vec![]);
}

#[test]
fn protocols_have_their_ports_and_labels() {
    assert_eq!(Protocol::Rdp.port(), 3389);
    assert_eq!(Protocol::Vnc.port(), 5900);
    assert_eq!(Protocol::Rdp.label(), "RDP");
    assert_eq!(Protocol::Vnc.label(), "VNC");
}

#[test]
fn probes_fit_the_port() {
    let vnc = probe(5900).unwrap();
    assert!(vnc.request.is_empty());
    assert_eq!(vnc.reply_limit, 12);
    let rdp = probe(3389).unwrap();
    assert_eq!(
        rdp.request,
        vec![0x03, 0x00, 0x00, 0x13, 0x0e, 0xe0, 0, 0, 0, 0, 0, 0x01, 0, 0x08, 0, 0x03, 0, 0, 0]
    );
    assert_eq!(rdp.reply_limit, 32);
    assert!(probe(22).is_none());
}

#[test]
fn banners_confirm_on_their_own_port_alone() {
    assert!(confirm_vnc(b"RFB 003.008\n"));
    assert!(confirm_vnc(b"RFB "));
    assert!(!confirm_vnc(b"RFB"));
    assert!(!confirm_vnc(b"SSH-2.0-x"));
    assert!(confirm_rdp(&[3, 0, 0, 19]));
    assert!(!confirm_rdp(&[3]));
    assert!(!confirm_rdp(&[3, 1]));
    assert_eq!(confirm_protocol(5900, b"RFB 003.889\n"), Some(Protocol::Vnc));
    assert_eq!(confirm_protocol(3389, &[3, 0]), Some(Protocol::Rdp));
    assert_eq!(confirm_protocol(3389, b"RFB 003.889\n"), None);
    assert_eq!(confirm_protocol(5900, &[3, 0]), None);
    assert_eq!(confirm_protocol(22, b"RFB 003.889\n"), None);
    assert_eq!(confirm_protocol(5900, b""), None);
}
