use neardesk::platform::launch::{opened, Client, LaunchPlan, NextStep, Otherwise, Place};
use neardesk::platform::share::{run_lenient, settle, settle_all, PlannedStep};
use neardesk::platform::{
    arch, capture, command, linux, macos, reply_name, run, show_address, succeeded, Outcome,
};
use neardesk::{Ipv4Addr, Protocol};

fn printed(out: &str) -> Outcome {
    Outcome::Finished {
        success: true,
        status: "exit status: 0".to_string(),
        stdout: out.as_bytes().to_vec(),
        stderr: Vec::new(),
    }
}

fn failed(err: &str) -> Outcome {
    Outcome::Finished {
        success: false,
        status: "exit status: 2".to_string(),
        stdout: b" partial ".to_vec(),
        stderr: err.as_bytes().to_vec(),
    }
}

fn missing() -> Outcome {
    Outcome::Failed("No such file or directory (os error 2)".to_string())
}

fn ip() -> Ipv4Addr {
    Ipv4Addr::new(10, 0, 0, 7)
}

fn on_path(client: &Client) -> &str {
    match &client.place {
        Place::OnPath(bin) => bin,
        Place::At(_) => panic!("a file"),
    }
}

#[test]
fn a_failure_is_told_by_its_error_output() {
    assert_eq!(run("net", &printed("")), Ok(()));
    assert_eq!(run("net", &failed(" Access is denied.\r\n")), Err("Access is denied.".to_string()));
    assert_eq!(
        run("net", &failed(" \n")),
        Err("net exited with status exit status: 2".to_string())
    );
    assert_eq!(
        run("net", &missing()),
        Err("No such file or directory (os error 2)".to_string())
    );
    assert!(succeeded(&printed("")));
    assert!(!succeeded(&failed("")));
    assert!(!succeeded(&missing()));
}

#[test]
fn error_output_need_not_be_utf8() {
    let o = Outcome::Finished {
        success: false,
        status: "1".to_string(),
        stdout: Vec::new(),
        stderr: b"bad \x81\n".to_vec(),
    };
    assert_eq!(run("net", &o), Err("bad \u{fffd}".to_string()));
}

#[test]
fn output_is_captured_trimmed() {
    assert_eq!(capture(&printed(" studio \n")), "studio");
    assert_eq!(capture(&failed("x")), "");
    assert_eq!(capture(&missing()), "");
    assert_eq!(reply_name(&printed("DESKTOP-1\r\n")), Some("DESKTOP-1".to_string()));
    assert_eq!(reply_name(&printed("\r\n")), None);
    assert_eq!(reply_name(&failed("x")), Some("partial".to_string()));
    assert_eq!(reply_name(&missing()), None);
}

#[test]
fn lenient_only_forgives() {
    let member = failed("The account is Already a MEMBER of the group.");
    assert_eq!(run_lenient("net", &member, "already a member"), Ok(()));
    assert_eq!(run_lenient("net", &printed(""), "already a member"), Ok(()));
    assert_eq!(
        run_lenient("net", &failed("Access is denied."), "already a member"),
        Err("Access is denied.".to_string())
    );
    assert_eq!(
        run_lenient("net", &failed("\u{dc}BEL: ALREADY A MEMBER"), "\u{fc}bel: already"),
        Ok(())
    );
}

#[test]
fn steps_are_settled_by_their_outcomes() {
    let steps = vec![
        PlannedStep::Run {
            name: "one".to_string(),
            command: command("net", &["session"]),
            tolerate: None,
        },
        PlannedStep::Run {
            name: "two".to_string(),
            command: command("net", &["user"]),
            tolerate: Some("gone".to_string()),
        },
        PlannedStep::Advise {
            name: "three".to_string(),
            message: "by hand".to_string(),
            open: None,
        },
    ];
    let ran = vec![Some(failed("")), Some(failed("It is Gone.")), None];
    assert_eq!(
        settle_all(&steps, &ran),
        vec![
            ("one".to_string(), Err("net exited with status exit status: 2".to_string())),
            ("two".to_string(), Ok(())),
            ("three".to_string(), Err("by hand".to_string())),
        ]
    );
    assert_eq!(settle(&steps[0], &Some(printed(""))), ("one".to_string(), Ok(())));
}

#[test]
fn architectures_and_addresses_are_shown() {
    assert_eq!(arch("x86_64"), "x64");
    assert_eq!(arch("aarch64"), "ARM64");
    assert_eq!(arch("riscv64"), "riscv64");
    assert_eq!(show_address(Some(ip())), "10.0.0.7");
    assert_eq!(show_address(None), "(no network)");
}

// Linux

#[test]
fn superuser_has_the_id_zero() {
    assert!(linux::is_root(&printed("0\n")));
    assert!(!linux::is_root(&printed("1000\n")));
    assert!(!linux::is_root(&missing()));
    let cut_off = Outcome::Finished {
        success: false,
        status: "exit status: 1".to_string(),
        stdout: b"0\n".to_vec(),
        stderr: Vec::new(),
    };
    assert!(!linux::is_root(&cut_off));
}

#[test]
fn distribution_is_the_pretty_name() {
    let file = "NAME=\"Ubuntu\"\nPRETTY_NAME=\"Ubuntu 24.04 LTS\"\nPRETTY_NAME=later\n";
    assert_eq!(linux::distro(Some(file)), "Ubuntu 24.04 LTS");
    assert_eq!(linux::distro(Some(" PRETTY_NAME=x\n")), "Linux");
    assert_eq!(linux::distro(Some("PRETTY_NAME= Arch \n")), "Arch");
    assert_eq!(linux::distro(None), "Linux");
}

#[test]
fn linux_system_info_is_read() {
    let mut readings = linux::Readings {
        hostname: printed("box\n"),
        hostname_file: Some("other\n".to_string()),
        os_release: Some("PRETTY_NAME=\"Debian\"\n".to_string()),
        kernel: printed("6.8.0\n"),
        username: "ann".to_string(),
        target_arch: "x86_64".to_string(),
        ip: Some(ip()),
    };
    let info = linux::system_info(&readings);
    assert_eq!(info.hostname, "box");
    assert_eq!(info.username, "ann");
    assert_eq!(info.os_name, "Debian");
    assert_eq!(info.os_build, "kernel 6.8.0");
    assert_eq!(info.arch, "x64");
    assert_eq!(info.ip, "10.0.0.7");
    assert!(!info.sharing_enabled);
    assert!(info.elevated);
    readings.hostname = missing();
    readings.kernel = missing();
    readings.os_release = None;
    readings.ip = None;
    let info = linux::system_info(&readings);
    assert_eq!(info.hostname, "other");
    assert_eq!(info.os_name, "Linux");
    assert_eq!(info.os_build, "unknown");
    assert_eq!(info.ip, "(no network)");
    readings.hostname_file = None;
    assert_eq!(linux::system_info(&readings).hostname, "");
}

#[test]
fn linux_hosting_is_advice() {
    for (id, expected) in [("0\n", "Share this PC"), ("1000\n", "Share this PC (needs sudo)")] {
        let steps = linux::share("ann", "secret", &printed(id));
        assert_eq!(steps.len(), 1);
        match &steps[0] {
            PlannedStep::Advise { name, message, open } => {
                assert_eq!(name, expected);
                assert!(message.starts_with("Hosting from Linux is coming soon. For now enable"));
                assert!(message.ends_with("works once a client is installed."));
                assert!(open.is_none());
            },
            PlannedStep::Run { .. } => panic!("nothing is run"),
        }
    }
    assert!(linux::relaunch_elevated().is_none());
    assert!(linux::remote_name(ip(), Protocol::Rdp).is_none());
}

#[test]
fn linux_looks_for_rdp_clients_in_turn() {
    let plan = linux::launch(ip(), 3389, " ann ", "pw ", true, Protocol::Rdp);
    let LaunchPlan::Search(search) = plan else { panic!("a search") };
    let bins: Vec<&str> = search.clients.iter().map(on_path).collect();
    assert_eq!(bins, vec!["xfreerdp3", "xfreerdp", "remmina", "gnome-connections"]);
    assert_eq!(
        search.clients[1].args,
        vec![
            "/v:10.0.0.7:3389",
            "/cert:ignore",
            "/dynamic-resolution",
            "+clipboard",
            "/u:ann",
            "/p:pw "
        ]
    );
    assert_eq!(search.clients[2].args, vec!["-c", "rdp://ann@10.0.0.7"]);
    assert_eq!(search.clients[3].args, vec!["rdp://ann@10.0.0.7"]);
    match &search.otherwise {
        Otherwise::Missing { page, message } => {
            assert!(page.is_none());
            assert_eq!(
                message,
                "No RDP client found. Install one with:  sudo apt install -y freerdp3-x11"
            );
        },
        _ => panic!("no client"),
    }
}

#[test]
fn linux_leaves_out_what_was_not_typed() {
    let plan = linux::launch(ip(), 3389, "  ", "", false, Protocol::Rdp);
    let LaunchPlan::Search(search) = plan else { panic!("a search") };
    assert_eq!(search.clients[0].args.len(), 4);
    assert_eq!(search.clients[3].args, vec!["rdp://10.0.0.7"]);
}

#[test]
fn linux_vnc_goes_by_address() {
    let plan = linux::launch(ip(), 5900, "ann", "pw", false, Protocol::Vnc);
    let LaunchPlan::Search(search) = plan else { panic!("a search") };
    assert_eq!(search.clients.len(), 2);
    assert_eq!(search.clients[0].args, vec!["-c", "vnc://10.0.0.7"]);
    assert_eq!(search.clients[1].args, vec!["vnc://10.0.0.7"]);
    match &search.otherwise {
        Otherwise::Missing { message, .. } => assert_eq!(
            message,
            "No VNC client found. Install one with:  sudo apt install -y remmina remmina-plugin-vnc"
        ),
        _ => panic!("no client"),
    }
}

#[test]
fn search_goes_on_until_a_client_is_found() {
    let plan = linux::launch(ip(), 3389, "", "", false, Protocol::Rdp);
    let LaunchPlan::Search(search) = plan else { panic!("a search") };
    let mut answers: Vec<Option<String>> = Vec::new();
    for bin in ["xfreerdp3", "xfreerdp", "remmina", "gnome-connections"] {
        match search.next(&answers) {
            NextStep::Look(Place::OnPath(b)) => assert_eq!(b, bin),
            _ => panic!("look for {bin}"),
        }
        answers.push(None);
    }
    assert!(matches!(search.next(&answers), NextStep::GiveUp(Otherwise::Missing { .. })));
}

#[test]
fn first_client_found_is_started() {
    let plan = linux::launch(ip(), 3389, "", "", false, Protocol::Rdp);
    let LaunchPlan::Search(search) = plan else { panic!("a search") };
    let answers = vec![None, None, Some("/usr/bin/remmina".to_string())];
    match search.next(&answers) {
        NextStep::Start(c) => {
            assert_eq!(c.program, "/usr/bin/remmina");
            assert_eq!(c.args, vec!["-c", "rdp://10.0.0.7"]);
        },
        _ => panic!("a client was found"),
    }
}

#[test]
fn opening_fails_with_its_message() {
    assert_eq!(opened(&printed(""), "no client"), Ok(()));
    assert_eq!(opened(&failed("x"), "no client"), Err("no client".to_string()));
    assert_eq!(opened(&missing(), "no client"), Err("no client".to_string()));
}

// macOS

#[test]
fn macos_system_info_is_read() {
    let mut readings = macos::Readings {
        computer_name: printed("Studio\n"),
        hostname: None,
        product: printed("14.5\n"),
        build: printed("23F79\n"),
        username: "ann".to_string(),
        target_arch: "aarch64".to_string(),
        ip: Some(ip()),
    };
    let info = macos::system_info(&readings);
    assert_eq!(info.hostname, "Studio");
    assert_eq!(info.os_name, "macOS 14.5");
    assert_eq!(info.os_build, "23F79");
    assert_eq!(info.arch, "ARM64");
    assert!(!info.sharing_enabled);
    assert!(info.elevated);
    readings.computer_name = printed("\n");
    readings.hostname = Some(printed("studio.local\n"));
    readings.product = missing();
    readings.build = missing();
    let info = macos::system_info(&readings);
    assert_eq!(info.hostname, "studio.local");
    assert_eq!(info.os_name, "macOS");
    assert_eq!(info.os_build, "unknown");
}

#[test]
fn macos_sharing_needs_a_password() {
    let steps = macos::share("ann", "");
    assert_eq!(steps.len(), 2);
    match &steps[0] {
        PlannedStep::Advise { name, message, open } => {
            assert_eq!(name, "Set a password");
            assert_eq!(
                message,
                "Enter a short password (max 8 characters) to connect with."
            );
            assert!(open.is_none());
        },
        PlannedStep::Run { .. } => panic!("nothing is run"),
    }
}

#[test]
fn macos_sharing_sets_a_short_password() {
    let steps = macos::share("ann", "a\"b\\cdefgh-left-out");
    match &steps[0] {
        PlannedStep::Run { name, command, tolerate } => {
            assert_eq!(name, "Enable Screen Sharing and set the password");
            assert!(tolerate.is_none());
            assert_eq!(command.program, "osascript");
            assert_eq!(
                command.args,
                vec![
                    "-e",
                    "do shell script \"/System/Library/CoreServices/RemoteManagement/ARDAgent.app/\
                     Contents/Resources/kickstart -configure -clientopts -setvnclegacy -vnclegacy \
                     yes -setvncpw -vncpw 'a\\\"b\\\\cdef' ; launchctl enable \
                     system/com.apple.screensharing ; launchctl bootstrap system \
                     /System/Library/LaunchDaemons/com.apple.screensharing.plist\" with \
                     administrator privileges"
                ]
            );
        },
        PlannedStep::Advise { .. } => panic!("a command"),
    }
    match &steps[1] {
        PlannedStep::Advise { name, message, open } => {
            assert_eq!(name, "Allow Screen Recording (one-time click in Settings)");
            assert_eq!(
                message,
                "Opened System Settings \u{2192} Privacy & Security \u{2192} Screen Recording. \
                 Turn it on for Screen Sharing \u{2014} Apple requires this click; it can't be \
                 scripted."
            );
            let open = open.as_ref().unwrap();
            assert_eq!(open.program, "open");
            assert_eq!(
                open.args,
                vec!["x-apple.systempreferences:com.apple.preference.security?Privacy_ScreenCapture"]
            );
        },
        PlannedStep::Run { .. } => panic!("advice"),
    }
    assert!(macos::relaunch_elevated().is_none());
    assert!(macos::remote_name(ip(), Protocol::Vnc).is_none());
}

#[test]
fn macos_password_is_one_word_of_the_command() {
    for (password, word) in [
        ("a b", "'a b'"),
        ("a;b", "'a;b'"),
        ("$(x)", "'$(x)'"),
        ("it's", "'it'\\\\''s'"),
        ("12345678-left-out", "'12345678'"),
        ("1234567'8", "'1234567'\\\\'''"),
    ] {
        match &macos::share("ann", password)[0] {
            PlannedStep::Run { command, .. } => {
                let expected = format!("-vncpw {word} ; launchctl enable");
                assert!(command.args[1].contains(&expected), "{}", command.args[1]);
            },
            PlannedStep::Advise { .. } => panic!("a command"),
        }
    }
}

#[test]
fn macos_vnc_is_opened_at_once() {
    for (user, password, url) in [
        ("", "pw", "vnc://10.0.0.7"),
        (" ann ", "", "vnc://ann@10.0.0.7"),
        ("ann", "pw", "vnc://ann:pw@10.0.0.7"),
    ] {
        let plan = macos::launch(ip(), 5900, user, password, true, Protocol::Vnc);
        let LaunchPlan::Search(search) = plan else { panic!("a search") };
        match search.next(&vec![]) {
            NextStep::GiveUp(Otherwise::Start(c)) => {
                assert_eq!(c.program, "open");
                assert_eq!(c.args, vec![url]);
            },
            _ => panic!("Screen Sharing is built in"),
        }
    }
}

#[test]
fn macos_rdp_prefers_freerdp() {
    let plan = macos::launch(ip(), 3389, "ann", "pw", true, Protocol::Rdp);
    let LaunchPlan::Search(search) = plan else { panic!("a search") };
    let bins: Vec<&str> = search.clients.iter().map(on_path).collect();
    assert_eq!(bins, vec!["sdl-freerdp", "xfreerdp"]);
    assert_eq!(
        search.clients[0].args,
        vec!["/v:10.0.0.7:3389", "/cert:ignore", "/u:ann", "/p:pw"]
    );
    match &search.otherwise {
        Otherwise::Open { command, message } => {
            assert_eq!(command.program, "open");
            assert_eq!(
                command.args,
                vec!["rdp://full%20address=s:10.0.0.7:3389&username=s:ann"]
            );
            assert_eq!(message, "No RDP client found. Install one with:  brew install freerdp");
        },
        _ => panic!("the scheme is opened"),
    }
}
