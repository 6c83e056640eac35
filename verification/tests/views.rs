use neardesk::connect::{NOTHING_FOUND, SEARCHING};
use neardesk::logo::{check_sizes, decode};
use neardesk::platform::windows::qualify_user;
use neardesk::this_pc::{to_steps, RemoteAccess};
use neardesk::{
    load_config, save_config, Connect, Discovery, Host, Ipv4Addr, Protocol, SystemInfo, TextMap,
    ThisPc,
};

fn v4(d: u8) -> Ipv4Addr {
    Ipv4Addr::new(10, 0, 0, d)
}

fn host(d: u8, protocol: Protocol, name: Option<&str>) -> Host {
    Host { ip: v4(d), protocol, name: name.map(|s| s.to_string()) }
}

fn two_hosts() -> Discovery {
    Discovery {
        hosts: vec![host(3, Protocol::Rdp, Some("Alpha")), host(9, Protocol::Vnc, None)],
        name_match: None,
    }
}

fn start(settings: &str) -> Connect {
    Connect::new(&load_config(Some(settings)), "me".to_string())
}

#[test]
fn settings_are_remembered_by_machine() {
    let c = start(
        "hostname=Alpha\nusername=ann\nuser.Alpha=bob\nuser.Old=NearDesk\nrole.Alpha=Builds\n\
         role.=x\nother=1\n",
    );
    assert_eq!(c.username, "ann");
    assert_eq!(c.last_used.as_deref(), Some("Alpha"));
    assert_eq!(c.host_users.len(), 1);
    assert_eq!(c.host_users.get("Alpha"), Some("bob"));
    assert_eq!(c.host_users.get("Old"), None);
    assert_eq!(c.host_roles.get("Alpha"), Some("Builds"));
    assert_eq!(c.host_roles.get(""), Some("x"));
    assert!(c.fullscreen);
    assert!(!c.is_scanning());
    assert!(c.hosts.is_empty());
    assert_eq!(c.selected, None);
}

#[test]
fn stale_or_missing_settings_fall_back() {
    let c = start("username=NEARDESK\nhostname=\n");
    assert_eq!(c.username, "me");
    assert_eq!(c.last_used, None);
    assert_eq!(start("").username, "me");
}

#[test]
fn the_first_turn_starts_a_search() {
    let mut c = start("");
    c.name = " Alpha ".to_string();
    assert_eq!(c.poll(None), Some("Alpha".to_string()));
    assert!(c.is_scanning());
    assert_eq!(c.empty_message(), SEARCHING);
    assert_eq!(c.poll(None), None);
    assert!(c.is_scanning());
}

#[test]
fn what_a_search_found_is_taken_in_once() {
    let mut c = start("");
    c.poll(None);
    assert_eq!(c.poll(Some(two_hosts())), None);
    assert!(!c.is_scanning());
    assert_eq!(c.hosts.len(), 2);
    assert_eq!(c.selected, None);
    assert_eq!(c.status, "Found 2 computers.");
    c.poll(Some(Discovery { hosts: vec![], name_match: None }));
    assert_eq!(c.hosts.len(), 2);
}

#[test]
fn the_only_machine_is_selected() {
    let mut c = start("user.Alpha=bob\nrole.Alpha=Builds\n");
    c.poll(None);
    c.poll(Some(Discovery {
        hosts: vec![host(3, Protocol::Rdp, Some("Alpha"))],
        name_match: None,
    }));
    assert_eq!(c.selected, Some(v4(3)));
    assert_eq!(c.username, "bob");
    assert_eq!(c.role, "Builds");
    assert_eq!(c.status, "Found Alpha.");
}

#[test]
fn the_machine_last_used_is_selected_unless_a_name_matched() {
    let mut c = start("hostname=10.0.0.9\n");
    c.poll(None);
    c.poll(Some(two_hosts()));
    assert_eq!(c.selected, Some(v4(9)));
    assert_eq!(c.last_used_ip(), Some(v4(9)));
    c.start_discovery();
    assert_eq!(c.selected, None);
    let mut d = two_hosts();
    d.name_match = Some(v4(3));
    c.poll(Some(d));
    assert_eq!(c.selected, Some(v4(3)));
}

#[test]
fn nothing_found_is_said_in_the_list() {
    let mut c = start("hostname=Alpha\n");
    c.poll(None);
    c.poll(Some(Discovery { hosts: vec![], name_match: None }));
    assert_eq!(c.status, "");
    assert_eq!(c.selected, None);
    assert_eq!(c.empty_message(), NOTHING_FOUND);
    assert_eq!(
        NOTHING_FOUND,
        "No computers found. Turn on sharing on the other PC under \u{201C}This PC\u{201D}, then \
         Rescan."
    );
}

#[test]
fn labels_follow_the_selection() {
    let mut c = start("");
    c.poll(None);
    c.poll(Some(two_hosts()));
    assert_eq!(c.sign_in_title(), "Sign in");
    assert_eq!(c.connect_label(), "Connect");
    c.select(v4(3));
    assert_eq!(c.sign_in_title(), "Sign in to Alpha");
    assert_eq!(c.connect_label(), "Connect to Alpha");
    c.select(v4(77));
    assert_eq!(c.connect_label(), "Connect to 10.0.0.77");
}

#[test]
fn rows_show_what_is_known() {
    let mut c = start("hostname=10.0.0.9\nrole.Alpha=Builds\n");
    c.poll(None);
    let mut d = two_hosts();
    d.name_match = Some(v4(3));
    c.poll(Some(d));
    let rows = c.computers();
    assert_eq!(rows.len(), 2);
    assert_eq!(rows[0].label, "Alpha");
    assert_eq!(rows[0].role.as_deref(), Some("Builds"));
    assert_eq!(rows[0].address.as_deref(), Some("10.0.0.3"));
    assert!(rows[0].selected && rows[0].name_match && !rows[0].last_used);
    assert_eq!(rows[0].protocol, Protocol::Rdp);
    assert_eq!(rows[1].label, "10.0.0.9");
    assert_eq!(rows[1].role, None);
    assert_eq!(rows[1].address, None);
    assert!(!rows[1].selected && !rows[1].name_match && rows[1].last_used);
}

#[test]
fn nothing_is_saved_without_a_selection() {
    let mut c = start("");
    assert!(c.persist(TextMap::new()).is_none());
    assert_eq!(c.last_used, None);
    assert_eq!(c.host_users.len(), 0);
}

#[test]
fn sign_in_survives_a_restart() {
    let before = "hostname=Old\nuser.Old=zoe\nrole.Alpha=Builds\nrole.Old=Mail\n";
    let mut c = start(before);
    c.poll(None);
    c.poll(Some(two_hosts()));
    c.select(v4(3));
    c.username = " ann ".to_string();
    c.role = "  ".to_string();
    let saved = c.persist(load_config(Some(before))).unwrap();
    assert_eq!(c.last_used.as_deref(), Some("Alpha"));
    let next = start(&save_config(&saved));
    assert_eq!(next.last_used.as_deref(), Some("Alpha"));
    assert_eq!(next.username, "ann");
    assert_eq!(next.host_users.get("Alpha"), Some("ann"));
    assert_eq!(next.host_users.get("Old"), Some("zoe"));
    assert_eq!(next.host_roles.get("Alpha"), None);
    assert_eq!(next.host_roles.get("Old"), Some("Mail"));
}

#[test]
fn only_the_password_is_needed_after_a_restart() {
    let mut c = start("");
    c.poll(None);
    c.poll(Some(two_hosts()));
    c.select(v4(3));
    c.username = "ann".to_string();
    c.role = "Builds".to_string();
    c.password = "pw".to_string();
    let file = save_config(&c.persist(load_config(None)).unwrap());
    assert!(!file.contains("pw"));
    let mut next = start(&file);
    next.poll(None);
    next.poll(Some(two_hosts()));
    assert_eq!(next.selected, Some(v4(3)));
    assert_eq!(next.username, "ann");
    assert_eq!(next.role, "Builds");
    assert_eq!(next.password, "");
}

#[test]
fn selecting_recalls_the_sign_in() {
    let mut c = start("");
    c.poll(None);
    c.poll(Some(two_hosts()));
    c.select(v4(3));
    c.username = " ann ".to_string();
    c.role = " Tests ".to_string();
    c.persist(TextMap::new());
    c.select(v4(9));
    assert_eq!(c.role, "");
    c.username = "other".to_string();
    c.select(v4(3));
    assert_eq!(c.username, "ann");
    assert_eq!(c.role, "Tests");
}

#[test]
fn connecting_remembers_the_sign_in_first() {
    let mut c = start("");
    c.poll(None);
    c.poll(Some(two_hosts()));
    c.username = " ann ".to_string();
    let (saved, request) = c.open(v4(9), TextMap::new());
    assert!(saved.is_none());
    assert!(request.is_some());
    c.select(v4(3));
    c.password = "pw".to_string();
    let (saved, request) = c.open(v4(3), load_config(Some("kept=1\n")));
    let saved = saved.unwrap();
    assert_eq!(saved.get("kept"), Some("1"));
    assert_eq!(saved.get("hostname"), Some("Alpha"));
    assert_eq!(saved.get("user.Alpha"), Some("ann"));
    assert_eq!(c.last_used.as_deref(), Some("Alpha"));
    let request = request.unwrap();
    assert_eq!((request.port, request.username.as_str()), (3389, " ann "));
    assert_eq!(request.password, "pw");
    let (saved, request) = c.open(v4(77), TextMap::new());
    assert!(saved.is_some());
    assert!(request.is_none());
}

#[test]
fn sessions_are_requested_and_reported() {
    let mut c = start("");
    c.poll(None);
    c.poll(Some(two_hosts()));
    c.username = "ann".to_string();
    c.password = "pw".to_string();
    let q = c.request(v4(9)).unwrap();
    assert_eq!((q.ip, q.port, q.protocol), (v4(9), 5900, Protocol::Vnc));
    assert_eq!((q.username.as_str(), q.password.as_str(), q.fullscreen), ("ann", "pw", true));
    assert!(c.request(v4(77)).is_none());
    c.connect(v4(9), Ok(()));
    assert_eq!(c.status, "Opening 10.0.0.9 (VNC)\u{2026}");
    c.connect(v4(3), Err("no client".to_string()));
    assert_eq!(c.status, "Couldn't connect: no client");
    c.connect(v4(77), Ok(()));
    assert_eq!(c.status, "Couldn't connect: no client");
}

// This PC

fn pc(sharing_enabled: bool, elevated: bool) -> SystemInfo {
    SystemInfo {
        hostname: "DESKTOP-1".to_string(),
        username: "ann".to_string(),
        os_name: "Windows 11 Pro".to_string(),
        os_build: "23H2 (build 22631.3447)".to_string(),
        arch: "x64".to_string(),
        ip: "10.0.0.7".to_string(),
        sharing_enabled,
        elevated,
    }
}

#[test]
fn details_are_listed_in_order() {
    let p = ThisPc::new(pc(true, true));
    assert_eq!(
        p.info_card(),
        vec![
            ("Computer name", "DESKTOP-1"),
            ("Signed in as", "ann"),
            ("Operating system", "Windows 11 Pro"),
            ("Version", "23H2 (build 22631.3447)"),
            ("Architecture", "x64"),
            ("IP address", "10.0.0.7"),
        ]
    );
    assert_eq!(p.sharing_badge(), "Enabled");
    assert_eq!(ThisPc::new(pc(false, true)).sharing_badge(), "Disabled");
    assert_eq!(p.info().hostname, "DESKTOP-1");
}

#[test]
fn sharing_is_offered_by_rights_and_state() {
    assert!(matches!(ThisPc::new(pc(true, false)).remote_access(), RemoteAccess::NeedsElevation));
    match ThisPc::new(pc(false, true)).remote_access() {
        RemoteAccess::Ready { on, badge, explanation, account, button, how_to } => {
            assert!(!on);
            assert_eq!(badge, "Off");
            assert_eq!(
                explanation,
                "Turn on access, then connect with your Windows password."
            );
            assert_eq!(account, r"DESKTOP-1\ann");
            assert_eq!(button, "Turn on remote access");
            assert!(how_to.is_none());
        },
        RemoteAccess::NeedsElevation => panic!("the rights are there"),
    }
    match ThisPc::new(pc(true, true)).remote_access() {
        RemoteAccess::Ready { on, badge, explanation, button, how_to, .. } => {
            assert!(on);
            assert_eq!(badge, "On");
            assert_eq!(
                explanation,
                "Other PCs on your network can connect to this computer."
            );
            assert_eq!(button, "Re-apply remote access");
            let how_to = how_to.unwrap();
            assert_eq!(how_to.computer, "DESKTOP-1");
            assert_eq!(how_to.username, "ann");
        },
        RemoteAccess::NeedsElevation => panic!("the rights are there"),
    }
}

#[test]
fn the_shown_account_is_complete() {
    match ThisPc::new(pc(true, true)).remote_access() {
        RemoteAccess::Ready { account, .. } => assert_eq!(qualify_user(&account), account),
        RemoteAccess::NeedsElevation => panic!("the rights are there"),
    }
}

#[test]
fn steps_keep_names_and_details() {
    let steps = to_steps(vec![
        ("one".to_string(), Ok(())),
        ("two".to_string(), Err("denied".to_string())),
    ]);
    assert_eq!(steps.len(), 2);
    assert_eq!((steps[0].name.as_str(), steps[0].ok, steps[0].detail.as_str()), ("one", true, ""));
    assert_eq!(
        (steps[1].name.as_str(), steps[1].ok, steps[1].detail.as_str()),
        ("two", false, "denied")
    );
}

#[test]
fn turning_on_fills_the_checklist() {
    let mut p = ThisPc::new(pc(false, true));
    p.password = "pw".to_string();
    assert_eq!(p.credentials(), ("ann", "pw"));
    assert!(p.checklist().is_empty());
    p.turn_on(
        vec![
            ("one".to_string(), Ok(())),
            ("two".to_string(), Err("denied".to_string())),
            ("three".to_string(), Err(String::new())),
        ],
        pc(true, true),
    );
    assert!(p.info().sharing_enabled);
    assert_eq!(p.password, "pw");
    let lines = p.checklist();
    assert_eq!(lines.len(), 3);
    assert_eq!((lines[0].mark, lines[0].name.as_str()), ("\u{2713}", "one"));
    assert_eq!(lines[0].detail, None);
    assert_eq!((lines[1].mark, lines[1].ok), ("\u{2717}", false));
    assert_eq!(lines[1].detail.as_deref(), Some("      denied"));
    assert_eq!(lines[2].detail, None);
    p.refresh(pc(false, false));
    assert_eq!(p.checklist().len(), 3);
}

#[test]
fn sidebar_sums_up_this_machine() {
    let s = ThisPc::new(pc(true, false)).sidebar();
    assert_eq!((s.title.as_str(), s.rights, s.sharing), ("This PC: DESKTOP-1", "Standard", "on"));
    let s = ThisPc::new(pc(false, true)).sidebar();
    assert_eq!((s.rights, s.sharing), ("Admin", "off"));
}

// The logo

const TWO_PIXELS: [u8; 72] = [
    137, 80, 78, 71, 13, 10, 26, 10, 0, 0, 0, 13, 73, 72, 68, 82, 0, 0, 0, 2, 0, 0, 0, 1, 8, 2, 0,
    0, 0, 123, 64, 232, 221, 0, 0, 0, 15, 73, 68, 65, 84, 120, 156, 99, 248, 207, 192, 192, 208,
    240, 31, 0, 8, 0, 2, 127, 156, 69, 64, 78, 0, 0, 0, 0, 73, 69, 78, 68, 174, 66, 96, 130,
];

#[test]
fn pictures_are_decoded_to_four_bytes_a_pixel() {
    let (rgba, width, height) = decode(&TWO_PIXELS).unwrap();
    assert_eq!((width, height), (2, 1));
    assert_eq!(rgba, vec![255, 0, 0, 255, 0, 128, 255, 255]);
}

#[test]
fn what_is_no_picture_is_not_decoded() {
    assert!(decode(b"").is_none());
    assert!(decode(b"plain text").is_none());
    assert!(decode(&TWO_PIXELS[..40]).is_none());
}

const INDEXED: [u8; 86] = [
    137, 80, 78, 71, 13, 10, 26, 10, 0, 0, 0, 13, 73, 72, 68, 82, 0, 0, 0, 2, 0, 0, 0, 1, 8, 3, 0,
    0, 0, 195, 252, 143, 184, 0, 0, 0, 6, 80, 76, 84, 69, 255, 0, 0, 0, 128, 255, 87, 34, 101, 197,
    0, 0, 0, 11, 73, 68, 65, 84, 120, 156, 99, 96, 100, 0, 0, 0, 5, 0, 2, 209, 102, 51, 120, 0, 0,
    0, 0, 73, 69, 78, 68, 174, 66, 96, 130,
];

const ODD_PALETTE: [u8; 84] = [
    137, 80, 78, 71, 13, 10, 26, 10, 0, 0, 0, 13, 73, 72, 68, 82, 0, 0, 0, 2, 0, 0, 0, 1, 8, 3, 0,
    0, 0, 195, 252, 143, 184, 0, 0, 0, 4, 80, 76, 84, 69, 255, 0, 0, 0, 106, 166, 168, 139, 0, 0,
    0, 11, 73, 68, 65, 84, 120, 156, 99, 96, 96, 0, 0, 0, 3, 0, 1, 184, 173, 58, 99, 0, 0, 0, 0,
    73, 69, 78, 68, 174, 66, 96, 130,
];

#[test]
fn indexed_pictures_are_decoded() {
    assert!(check_sizes(&INDEXED));
    let (rgba, width, height) = decode(&INDEXED).unwrap();
    assert_eq!((width, height), (2, 1));
    assert_eq!(rgba, vec![0, 128, 255, 255, 255, 0, 0, 255]);
}

#[test]
fn palettes_of_a_wrong_length_are_not_decoded() {
    assert!(!check_sizes(&ODD_PALETTE));
    assert!(decode(&ODD_PALETTE).is_none());
    let mut long = INDEXED[..33].to_vec();
    long.extend([0, 0, 3, 3]);
    long.extend(b"PLTE");
    long.extend(vec![0; 771 + 4]);
    assert!(!check_sizes(&long));
    long[35..37].copy_from_slice(&[3, 0]);
    assert!(check_sizes(&long));
}

#[test]
fn animations_with_too_many_frames_are_not_decoded() {
    let mut animated = TWO_PIXELS[..33].to_vec();
    animated.extend([0, 0, 0, 8]);
    animated.extend(b"acTL");
    animated.extend([255, 255, 255, 255, 0, 0, 0, 0]);
    animated.extend([0; 4]);
    animated.extend(&TWO_PIXELS[33..]);
    assert!(!check_sizes(&animated));
    assert!(decode(&animated).is_none());
    animated[44] = 254;
    assert!(check_sizes(&animated));
}

#[test]
fn pictures_of_two_gibibytes_are_not_decoded() {
    let mut wide = INDEXED.to_vec();
    wide[16..24].copy_from_slice(&[0, 0, 128, 0, 0, 0, 64, 0]);
    assert!(!check_sizes(&wide));
    assert!(decode(&wide).is_none());
    wide[22..24].copy_from_slice(&[63, 255]);
    assert!(check_sizes(&wide));
    assert!(check_sizes(b"plain text"));
    assert!(check_sizes(&TWO_PIXELS));
}
