use neardesk::platform::launch::{LaunchPlan, NextStep, Otherwise, Place};
use neardesk::platform::share::PlannedStep;
use neardesk::platform::windows::{
    allow_clipboard, cpu_arch, computer_name, desktop_scale_factor, enable_remote_desktop,
    find_match, find_registry_data, is_elevated, launch, os_build, os_name, parse_reg_number, primary_screen_size, qualify_user,
    rdp_enabled, rdp_query, rdp_target, reg_query, reg_query_command, relaunch_elevated, remote_name, share,
    system_info, where_is, Display, Readings, CURRENT_VERSION, TERMINAL_SERVER,
};
use neardesk::platform::Outcome;
use neardesk::{Ipv4Addr, Protocol};

fn shows(out: &str) -> Outcome {
    Outcome::Finished {
        success: true,
        status: "exit code: 0".to_string(),
        stdout: out.as_bytes().to_vec(),
        stderr: Vec::new(),
    }
}

fn refused() -> Outcome {
    Outcome::Finished {
        success: false,
        status: "exit code: 1".to_string(),
        stdout: b"    UBR    REG_DWORD    0x1\r\n".to_vec(),
        stderr: b"ERROR".to_vec(),
    }
}

fn value(name: &str, kind: &str, data: &str) -> Outcome {
    shows(&format!("\r\nHKEY_LOCAL_MACHINE\\Key\r\n    {name}    {kind}    {data}\r\n\r\n"))
}

fn ip() -> Ipv4Addr {
    Ipv4Addr::new(10, 0, 0, 7)
}

const DISPLAY: Display = Display { width: 2560, height: 1440, dpi: 144 };

#[test]
fn screen_size_falls_back() {
    assert_eq!(primary_screen_size(2560, 1440), (2560, 1440));
    assert_eq!(primary_screen_size(0, 1440), (1920, 1080));
    assert_eq!(primary_screen_size(2560, -1), (1920, 1080));
}

#[test]
fn scale_is_the_nearest_accepted_one() {
    assert_eq!(desktop_scale_factor(96), 100);
    assert_eq!(desktop_scale_factor(120), 125);
    assert_eq!(desktop_scale_factor(144), 150);
    assert_eq!(desktop_scale_factor(192), 200);
    assert_eq!(desktop_scale_factor(216), 200);
    assert_eq!(desktop_scale_factor(217), 250);
    assert_eq!(desktop_scale_factor(0), 100);
    assert_eq!(desktop_scale_factor(u32::MAX), 300);
}

#[test]
fn scale_agrees_with_rounding_in_floating_point() {
    let mut samples: Vec<u32> = (0..20_000).collect();
    samples.extend([1 << 24, (1 << 24) + 1, 1 << 31, u32::MAX]);
    for dpi in samples {
        let pct = (dpi as f32 / 96.0 * 100.0).round() as i32;
        let mut best = 100i32;
        for v in [125, 150, 175, 200, 250, 300] {
            if (v - pct).abs() < (best - pct).abs() {
                best = v;
            }
        }
        assert_eq!(desktop_scale_factor(dpi), best as u32, "{dpi}");
    }
}

#[test]
fn registry_values_are_read_by_name() {
    let o = value("ProductName", "REG_SZ", "Windows 10  Pro");
    assert_eq!(reg_query(&o, "ProductName"), Some("Windows 10 Pro".to_string()));
    assert_eq!(reg_query(&o, "Product"), None);
    assert_eq!(reg_query(&value("UBR", "REG_SZ", ""), "UBR"), None);
    assert_eq!(reg_query(&refused(), "UBR"), None);
    assert_eq!(reg_query(&Outcome::Failed("no reg".to_string()), "UBR"), None);
    assert_eq!(find_registry_data("UBR REG_DWORD 0x1", "UBR"), Some("0x1".to_string()));
    let c = reg_query_command(CURRENT_VERSION, "UBR");
    assert_eq!(c.program, "reg");
    assert_eq!(
        c.args,
        vec!["query", r"HKLM\SOFTWARE\Microsoft\Windows NT\CurrentVersion", "/v", "UBR"]
    );
}

#[test]
fn registry_numbers_are_hexadecimal_or_decimal() {
    assert_eq!(parse_reg_number("0xd77"), Some(3447));
    assert_eq!(parse_reg_number(" 0XFF "), Some(255));
    assert_eq!(parse_reg_number("3447"), Some(3447));
    assert_eq!(parse_reg_number("0x"), None);
    assert_eq!(parse_reg_number("0xffffffff"), Some(u32::MAX));
    assert_eq!(parse_reg_number("0x100000000"), None);
    assert_eq!(parse_reg_number("d77"), None);
    assert_eq!(parse_reg_number(""), None);
}

#[test]
fn registry_numbers_read_back_decimal() {
    for n in [0u32, 1, 22631, u32::MAX] {
        assert_eq!(parse_reg_number(&n.to_string()), Some(n));
    }
}

#[test]
fn processor_and_name_come_from_the_environment() {
    assert_eq!(cpu_arch(&Some("AMD64".to_string())), "x64");
    assert_eq!(cpu_arch(&Some("ARM64".to_string())), "ARM64");
    assert_eq!(cpu_arch(&Some("x86".to_string())), "x86");
    assert_eq!(cpu_arch(&None), "unknown");
    assert_eq!(computer_name(Some("PC".to_string())), "PC");
    assert_eq!(computer_name(None), "UNKNOWN");
}

#[test]
fn rdp_is_enabled_where_nothing_is_denied() {
    assert!(rdp_enabled(&value("fDenyTSConnections", "REG_DWORD", "0x0")));
    assert!(!rdp_enabled(&value("fDenyTSConnections", "REG_DWORD", "0x1")));
    assert!(!rdp_enabled(&value("fDenyTSConnections", "REG_DWORD", "x")));
    assert!(!rdp_enabled(&refused()));
    assert!(is_elevated(&shows("")));
    assert!(!is_elevated(&refused()));
}

#[test]
fn enabling_shows_as_enabled() {
    let query = rdp_query();
    let written = args(&enable_remote_desktop()[0]);
    assert_eq!(query.program, "reg");
    assert_eq!(query.args, vec!["query", TERMINAL_SERVER, "/v", "fDenyTSConnections"]);
    assert_eq!(written[2], query.args[1]);
    assert_eq!(written[4], query.args[3]);
    assert!(rdp_enabled(&value(&written[4], &written[6], &written[8])));
    assert!(rdp_enabled(&value(&written[4], &written[6], "0x0")));
}

#[test]
fn windows_11_is_told_by_its_build() {
    let ten = || Some("Windows 10 Pro".to_string());
    assert_eq!(os_name(ten(), 22631), "Windows 11 Pro");
    assert_eq!(os_name(ten(), 22000), "Windows 11 Pro");
    assert_eq!(os_name(ten(), 21999), "Windows 10 Pro");
    assert_eq!(
        os_name(Some("Windows Server 2025".to_string()), 26100),
        "Windows Server 2025"
    );
    assert_eq!(os_name(None, 22631), "Windows");
}

#[test]
fn build_is_shown_with_its_revision() {
    assert_eq!(os_build(Some("23H2".to_string()), 22631, 3447), "23H2 (build 22631.3447)");
    assert_eq!(os_build(Some(String::new()), 22631, 3447), "build 22631.3447");
    assert_eq!(os_build(None, 22631, 0), "build 22631.0");
    assert_eq!(os_build(Some("23H2".to_string()), 0, 3447), "unknown");
}

#[test]
fn windows_system_info_is_read() {
    let readings = Readings {
        product_name: value("ProductName", "REG_SZ", "Windows 10 Pro"),
        current_build: value("CurrentBuild", "REG_SZ", "22631"),
        display_version: value("DisplayVersion", "REG_SZ", "23H2"),
        ubr: value("UBR", "REG_DWORD", "0xd77"),
        deny_connections: value("fDenyTSConnections", "REG_DWORD", "0x0"),
        session: refused(),
        computer_name: Some("DESKTOP-1".to_string()),
        processor: Some("AMD64".to_string()),
        username: "ann".to_string(),
        ip: Some(ip()),
    };
    let info = system_info(&readings);
    assert_eq!(info.hostname, "DESKTOP-1");
    assert_eq!(info.username, "ann");
    assert_eq!(info.os_name, "Windows 11 Pro");
    assert_eq!(info.os_build, "23H2 (build 22631.3447)");
    assert_eq!(info.arch, "x64");
    assert_eq!(info.ip, "10.0.0.7");
    assert!(info.sharing_enabled);
    assert!(!info.elevated);
    let blank = Readings {
        product_name: refused(),
        current_build: value("CurrentBuild", "REG_SZ", "0x5867"),
        display_version: refused(),
        ubr: refused(),
        deny_connections: refused(),
        session: shows(""),
        computer_name: None,
        processor: None,
        username: String::new(),
        ip: None,
    };
    let info = system_info(&blank);
    assert_eq!(info.hostname, "UNKNOWN");
    assert_eq!(info.os_name, "Windows");
    assert_eq!(info.os_build, "unknown");
    assert_eq!(info.arch, "unknown");
    assert_eq!(info.ip, "(no network)");
    assert!(!info.sharing_enabled);
    assert!(info.elevated);
}

#[test]
fn elevation_goes_through_powershell() {
    let c = relaunch_elevated(r"C:\Apps\neardesk.exe").unwrap();
    assert_eq!(c.program, "powershell");
    assert_eq!(
        c.args,
        vec![
            "-NoProfile",
            "-Command",
            r"Start-Process -FilePath 'C:\Apps\neardesk.exe' -Verb RunAs"
        ]
    );
}

fn names(steps: &Vec<PlannedStep>) -> Vec<String> {
    steps
        .iter()
        .map(|s| match s {
            PlannedStep::Run { name, .. } => name.clone(),
            PlannedStep::Advise { name, .. } => name.clone(),
        })
        .collect()
}

fn args(step: &PlannedStep) -> Vec<String> {
    match step {
        PlannedStep::Run { command, .. } => {
            let mut v = vec![command.program.clone()];
            v.extend(command.args.clone());
            v
        },
        PlannedStep::Advise { .. } => panic!("a command"),
    }
}

#[test]
fn remote_desktop_is_enabled_in_six_steps() {
    let steps = enable_remote_desktop();
    assert_eq!(
        names(&steps),
        vec![
            "Enable Remote Desktop",
            "Require Network Level Authentication",
            "Open firewall: Remote Desktop",
            "Open firewall: Network Discovery",
            "Disable sleep on AC power",
            "Disable hibernate on AC power",
        ]
    );
    assert_eq!(
        args(&steps[0]),
        vec![
            "reg", "add", TERMINAL_SERVER, "/v", "fDenyTSConnections", "/t", "REG_DWORD", "/d",
            "0", "/f"
        ]
    );
    assert_eq!(
        args(&steps[1]),
        vec![
            "reg",
            "add",
            r"HKLM\System\CurrentControlSet\Control\Terminal Server\WinStations\RDP-Tcp",
            "/v",
            "UserAuthentication",
            "/t",
            "REG_DWORD",
            "/d",
            "1",
            "/f"
        ]
    );
    assert_eq!(
        args(&steps[2]),
        vec![
            "netsh", "advfirewall", "firewall", "set", "rule", "group=remote desktop", "new",
            "enable=Yes"
        ]
    );
    assert_eq!(args(&steps[5]), vec!["powercfg", "/change", "hibernate-timeout-ac", "0"]);
    let clip = allow_clipboard();
    assert_eq!(clip.program, "reg");
    assert_eq!(clip.args[3], "fDisableClip");
    assert_eq!(clip.args[7], "0");
}

#[test]
fn sharing_sets_up_the_account() {
    let steps = share(" ann ", "secret");
    assert_eq!(
        names(&steps)[6..],
        [
            "Allow clipboard sharing",
            "Grant administrator access",
            "Allow Remote Desktop sign-in",
            "Set password for \u{201C}ann\u{201D}",
            "Remove old NearDesk account",
        ]
    );
    assert_eq!(args(&steps[7]), vec!["net", "localgroup", "Administrators", "ann", "/add"]);
    assert_eq!(args(&steps[8]), vec!["net", "localgroup", "Remote Desktop Users", "ann", "/add"]);
    assert_eq!(args(&steps[9]), vec!["net", "user", "ann", "secret"]);
    assert_eq!(args(&steps[10]), vec!["net", "user", "neardesk", "/delete"]);
    for (i, expected) in
        [(7, Some("already a member")), (9, None), (10, Some("could not be found"))]
    {
        match &steps[i] {
            PlannedStep::Run { tolerate, .. } => assert_eq!(tolerate.as_deref(), expected),
            PlannedStep::Advise { .. } => panic!("a command"),
        }
    }
}

#[test]
fn sharing_without_a_password_sets_none() {
    assert_eq!(share("ann", "").len(), 10);
}

#[test]
fn a_password_is_never_an_option() {
    for password in ["/delete", "/", "/add"] {
        let steps = share("ann", password);
        assert_eq!(steps.len(), 11);
        match &steps[9] {
            PlannedStep::Advise { name, message, open } => {
                assert_eq!(name, "Set password for \u{201C}ann\u{201D}");
                assert_eq!(
                    message,
                    "A password that starts with a slash can't be set from here. Choose another \
                     one."
                );
                assert!(open.is_none());
            },
            PlannedStep::Run { .. } => panic!("advice"),
        }
        assert_eq!(args(&steps[10]), vec!["net", "user", "neardesk", "/delete"]);
    }
}

#[test]
fn sharing_keeps_the_account_in_use() {
    let steps = share("NearDesk", "secret");
    assert_eq!(steps.len(), 10);
    for step in &steps {
        assert!(!args(step).contains(&"/delete".to_string()));
    }
}

#[test]
fn no_account_no_changes() {
    let steps = share("  ", "secret");
    assert_eq!(steps.len(), 8);
    for step in &steps[..7] {
        assert_ne!(args(step)[0], "net");
    }
    match &steps[7] {
        PlannedStep::Advise { name, message, open } => {
            assert_eq!(name, "Set up the sign-in");
            assert_eq!(message, "No Windows account name was found.");
            assert!(open.is_none());
        },
        PlannedStep::Run { .. } => panic!("advice"),
    }
}

#[test]
fn bare_usernames_are_qualified_once() {
    assert_eq!(qualify_user("ann"), r".\ann");
    assert_eq!(qualify_user(r"PC\ann"), r"PC\ann");
    assert_eq!(qualify_user("ann@home"), "ann@home");
    assert_eq!(qualify_user(""), "");
    assert_eq!(qualify_user(&qualify_user("ann")), r".\ann");
}

#[test]
fn the_usual_port_goes_without_saying() {
    assert_eq!(rdp_target(ip(), 3389), "10.0.0.7");
    assert_eq!(rdp_target(ip(), 3390), "10.0.0.7:3390");
}

#[test]
fn rdp_sessions_go_by_a_file() {
    let plan = launch(ip(), 3389, " ann ", "pw", true, Protocol::Rdp, DISPLAY);
    let LaunchPlan::File(file) = plan else { panic!("a file") };
    assert_eq!(file.file_name, "neardesk.rdp");
    assert_eq!(file.program, "mstsc");
    let stored = file.credentials.unwrap();
    assert_eq!(stored.program, "cmdkey");
    assert_eq!(stored.args, vec!["/generic:TERMSRV/10.0.0.7", r"/user:.\ann", "/pass:pw"]);
    assert_eq!(
        file.contents,
        "full address:s:10.0.0.7\r\n\
         username:s:.\\ann\r\n\
         screen mode id:i:2\r\n\
         desktopwidth:i:2560\r\n\
         desktopheight:i:1440\r\n\
         desktopscalefactor:i:150\r\n\
         session bpp:i:32\r\n\
         smart sizing:i:1\r\n\
         authentication level:i:0\r\n\
         enablecredsspsupport:i:1\r\n\
         prompt for credentials:i:0\r\n\
         redirectclipboard:i:1\r\n\
         redirectprinters:i:0\r\n\
         redirectcomports:i:0\r\n\
         redirectsmartcards:i:0\r\n\
         redirectposdevices:i:0\r\n\
         drivestoredirect:s:\r\n\
         devicestoredirect:s:\r\n\
         audiocapturemode:i:0\r\n\
         autoreconnection enabled:i:1\r\n\
         bandwidthautodetect:i:1\r\n\
         networkautodetect:i:1\r\n"
    );
}

#[test]
fn no_password_is_stored_without_an_account() {
    let small = Display { width: 0, height: 0, dpi: 96 };
    let plan = launch(ip(), 3390, " ", "pw", false, Protocol::Rdp, small);
    let LaunchPlan::File(file) = plan else { panic!("a file") };
    assert!(file.credentials.is_none());
    assert!(file.contents.starts_with(
        "full address:s:10.0.0.7:3390\r\nscreen mode id:i:1\r\ndesktopwidth:i:1920\r\n\
         desktopheight:i:1080\r\ndesktopscalefactor:i:100\r\n"
    ));
    let plan = launch(ip(), 3389, "ann", "", false, Protocol::Rdp, small);
    let LaunchPlan::File(file) = plan else { panic!("a file") };
    assert!(file.credentials.is_none());
}

#[test]
fn programs_are_found_on_the_first_line() {
    assert_eq!(where_is(&shows("C:\\a\\b.exe \r\nC:\\c.exe\r\n")), Some(r"C:\a\b.exe".to_string()));
    assert_eq!(where_is(&shows("")), None);
    assert_eq!(where_is(&shows("\r\n")), Some(String::new()));
    assert_eq!(where_is(&refused()), None);
    assert_eq!(where_is(&Outcome::Failed("no where".to_string())), None);
    assert_eq!(find_match(" a.exe\nb.exe"), Some("a.exe".to_string()));
    assert_eq!(find_match(""), None);
}

#[test]
fn vnc_viewers_are_looked_for_in_turn() {
    let plan = launch(ip(), 5900, "ann", "pw", true, Protocol::Vnc, DISPLAY);
    let LaunchPlan::Search(search) = plan else { panic!("a search") };
    let places: Vec<String> = search
        .clients
        .iter()
        .map(|c| match &c.place {
            Place::OnPath(s) => format!("path {s}"),
            Place::At(s) => format!("file {s}"),
        })
        .collect();
    assert_eq!(
        places,
        vec![
            "path vncviewer.exe",
            r"file C:\Program Files\RealVNC\VNC Viewer\vncviewer.exe",
            r"file C:\Program Files\uvnc bvba\UltraVNC\vncviewer.exe",
            "path tvnviewer.exe",
            r"file C:\Program Files\TightVNC\tvnviewer.exe",
        ]
    );
    assert_eq!(search.clients[0].args, vec!["10.0.0.7::5900"]);
    assert_eq!(search.clients[4].args, vec!["-host=10.0.0.7", "-port=5900"]);
    match search.next(&vec![None, None, None, None, None]) {
        NextStep::GiveUp(Otherwise::Missing { page, message }) => {
            let page = page.as_ref().unwrap();
            assert_eq!(page.program, "cmd");
            assert_eq!(
                page.args,
                vec![
                    "/C",
                    "start",
                    "",
                    "https://www.realvnc.com/connect/download/viewer/windows/"
                ]
            );
            assert_eq!(
                message,
                "No VNC viewer found. Opened the RealVNC Viewer download page \u{2014} install \
                 it, then press Connect again."
            );
        },
        _ => panic!("no viewer"),
    }
}

#[test]
fn rdp_servers_are_asked_for_their_names() {
    let query = remote_name(ip(), Protocol::Rdp).unwrap();
    assert_eq!(query.file_name, "neardesk_10_0_0_7.ps1");
    assert!(query.script.starts_with("$ip='10.0.0.7';$port=3389;try{$c=New-Object System.Net"));
    assert!(query.script.ends_with("$ssl.Close();$c.Close()}catch{}"));
    assert_eq!(query.command.program, "powershell");
    assert_eq!(query.command.args, vec!["-NoProfile", "-ExecutionPolicy", "Bypass", "-File"]);
    assert!(remote_name(ip(), Protocol::Vnc).is_none());
}
