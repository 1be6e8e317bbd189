use xcplane::daemon::lock::{is_unique, pid_in_file, LockAction, LockEvent};
use xcplane::daemon::startup::{
    ansible_version, check_ansible, check_xray_paths, clash_warning, first_line, judge_ansible,
    judge_xray, word, FileState, XrayFiles, ANSIBLE_CFG_TEXT,
};
use xcplane::workspace::{
    ansible_dir, prepare_workspace, validate_workspace, RequiredFiles, UserDirs, WorkSpace,
};

fn fine() -> XrayFiles {
    let f = FileState { exists: true, readable: true };
    XrayFiles { bin: f, geoip: f, geosite: f }
}

fn user(runtime: Option<&str>, state: Option<&str>) -> UserDirs {
    UserDirs {
        config_dir: "/h/.config/xcplane".to_string(),
        data_dir: "/h/.local/share/xcplane".to_string(),
        cache_dir: "/h/.cache/xcplane".to_string(),
        runtime_dir: runtime.map(|s| s.to_string()),
        state_dir: state.map(|s| s.to_string()),
    }
}

fn root() -> WorkSpace {
    prepare_workspace(0, None).unwrap()
}

#[test]
fn lines_and_words() {
    assert_eq!(first_line(""), None);
    assert_eq!(first_line("a\r\nb"), Some("a".to_string()));
    assert_eq!(first_line("a\nb"), Some("a".to_string()));
    assert_eq!(first_line("\nb"), Some("".to_string()));
    // A carriage return without a line feed ends no line.
    assert_eq!(first_line("a\r"), Some("a\r".to_string()));
    assert_eq!(first_line("a\r\r\n"), Some("a\r".to_string()));
    assert_eq!(word("  Xray  26.1.0 (go)", 1), Some("26.1.0".to_string()));
    assert_eq!(word("Xray", 1), None);
    assert_eq!(word("\u{3000}a", 0), Some("a".to_string()));
}

#[test]
fn the_version_of_ansible() {
    let v = |s: &str| ansible_version(s);
    assert_eq!(v("ansible [core 2.19.2]\n  config"), Some("2.19.2".to_string()));
    assert_eq!(v("ansible 2.9.1\nx"), Some("2.9.1".to_string()));
    assert_eq!(v("ansible [core  2.20.0 ] core 3"), Some("2.20.0".to_string()));
    assert_eq!(v("core core 1]"), Some("".to_string()));
    assert_eq!(v("ansible"), None);
    assert_eq!(v(""), None);
    assert_eq!(v("ansible\n[core 2.19.2]"), None);
}

#[test]
fn ansible_is_recent_enough() {
    let too_old = Err("Ansible must be upgraded to at least 2.19.0.".to_string());
    assert_eq!(check_ansible(Some(b"ansible [core 2.19.0]")), Ok(()));
    assert_eq!(check_ansible(Some(b"ansible [core 2.20.1]")), Ok(()));
    assert_eq!(check_ansible(Some(b"ansible [core 3.0.0]")), Ok(()));
    assert_eq!(check_ansible(Some(b"ansible [core 2.18.9]")), too_old);
    assert_eq!(check_ansible(Some(b"ansible 2.9.1")), too_old);
    // Two numbers are enough, and a release candidate comes before its release.
    assert_eq!(check_ansible(Some(b"ansible [core 2.19]")), Ok(()));
    assert_eq!(check_ansible(Some(b"ansible [core 2.19.0-rc1]")), too_old);
    assert_eq!(check_ansible(Some(b"ansible [core devel]")), too_old);
    assert_eq!(
        check_ansible(Some(b"ansible")),
        Err("Could not parse version from ansible --version output. Is Ansible properly installed?"
            .to_string())
    );
    assert!(check_ansible(None).unwrap_err().starts_with("Ansible is absent from the system."));
    assert_eq!(judge_ansible(&Some("1".to_string()), true), too_old);
}

#[test]
fn xray_is_recent_enough() {
    let too_old = Err("Minimum required Xray version is 26.".to_string());
    assert_eq!(check_xray_paths(&fine(), Some(b"Xray 26.0.0 (Xray)")), Ok(()));
    assert_eq!(check_xray_paths(&fine(), Some(b"Xray 26.1 (Xray)")), Ok(()));
    assert_eq!(check_xray_paths(&fine(), Some(b"Xray 25.12.31 x")), too_old);
    assert_eq!(check_xray_paths(&fine(), Some(b"Xray v26 x")), too_old);
    assert_eq!(
        check_xray_paths(&fine(), Some(b"Xray")),
        Err("Xray doesn't report its version.".to_string())
    );
    assert_eq!(
        check_xray_paths(&fine(), None),
        Err("Xray is not installed properly.".to_string())
    );
    assert_eq!(judge_xray(&None, false), Err("Xray doesn't report its version.".to_string()));
}

#[test]
fn the_files_of_xray() {
    let mut f = fine();
    f.geosite.readable = false;
    assert_eq!(
        check_xray_paths(&f, Some(b"Xray 26.0.0")),
        Err("The file '/usr/local/bin/geosite.dat' is not accessible.".to_string())
    );
    f.geoip.readable = false;
    f.bin.readable = false;
    assert_eq!(
        check_xray_paths(&f, Some(b"Xray 26.0.0")),
        Err("The file '/usr/local/bin/xray' is not accessible.".to_string())
    );
    f.geoip.exists = false;
    assert_eq!(
        check_xray_paths(&f, None),
        Err("Xray binary and/or its data files are missing from the system. Compile or download \
             the file(s) from https://github.com/XTLS/Xray-core"
            .to_string())
    );
}

#[test]
fn backup_folders_have_a_dash() {
    assert_eq!(clash_warning("Cloud-Backups"), None);
    assert_eq!(clash_warning("Xui-Backups"), None);
    assert_eq!(
        clash_warning("backups"),
        Some("Name the backup folder 'backups' with a dash to ensure compatibility.".to_string())
    );
}

#[test]
fn the_ansible_configuration() {
    assert!(ANSIBLE_CFG_TEXT.starts_with("[defaults]\nhost_key_checking = False\n"));
    assert!(ANSIBLE_CFG_TEXT.contains("nocows = 1\n\n[ssh_connection]\nssh_args = -o BatchMode=yes -o "));
    assert!(ANSIBLE_CFG_TEXT.ends_with("-o UserKnownHostsFile=/dev/null"));
}

#[test]
fn directories_of_the_system() {
    let w = root();
    assert_eq!(w.dirs.config_dir, "/etc/xcplane");
    assert_eq!(w.dirs.state_dir, "/var/log/xcplane");
    assert_eq!(w.daemon.pid_file, "/run/xcplane/xcplane.pid");
    assert_eq!(w.daemon.sock_file, "/run/xcplane/xcplane.sock");
    assert_eq!(ansible_dir(&w), "/var/lib/xcplane/Ansible-Files/0.1.0");
}

#[test]
fn directories_of_a_user() {
    let w = prepare_workspace(1000, Some(user(Some("/run/user/1000/xcplane/"), Some("/s")))).unwrap();
    assert_eq!(w.dirs.data_dir, "/h/.local/share/xcplane");
    assert_eq!(w.daemon.pid_file, "/run/user/1000/xcplane/xcplane.pid");
    let err = |u| match prepare_workspace(1000, u) {
        Err(e) => e,
        Ok(_) => panic!("there are no directories"),
    };
    assert_eq!(err(None), "Couldn't determine XDG directories.");
    assert_eq!(
        err(Some(user(None, None))),
        "Couldn't find a runtime directory for the user."
    );
    assert_eq!(
        err(Some(user(Some("/r"), None))),
        "Couldn't find a state directory for the user."
    );
}

#[test]
fn required_files() {
    let files = |config, auth, token: Result<&str, &str>| RequiredFiles {
        config_exists: config,
        auth_exists: auth,
        token: token.map(|s| s.to_string()).map_err(|s| s.to_string()),
    };
    let w = root();
    assert_eq!(validate_workspace(&w, &files(true, true, Ok("t"))), Ok(()));
    assert_eq!(
        validate_workspace(&w, &files(false, false, Ok("t"))),
        Err(("Supply the missing file.".to_string(), Some("/etc/xcplane/cloud.toml".to_string())))
    );
    assert_eq!(
        validate_workspace(&w, &files(true, false, Ok("t"))),
        Err(("Supply the missing file.".to_string(), Some("/etc/xcplane/cf-auth.toml".to_string())))
    );
    assert_eq!(
        validate_workspace(&w, &files(true, true, Ok(""))),
        Err(("The CloudFlare token in /etc/xcplane/cf-auth.toml is empty.".to_string(), None))
    );
    assert_eq!(
        validate_workspace(&w, &files(true, true, Err("bad"))),
        Err(("bad".to_string(), None))
    );
}

#[test]
fn process_identifiers() {
    assert_eq!(pid_in_file(" 4711\n"), Some(4711));
    assert_eq!(pid_in_file("+7"), Some(7));
    assert_eq!(pid_in_file("-2147483648"), Some(i32::MIN));
    assert_eq!(pid_in_file("2147483647"), Some(i32::MAX));
    for bad in ["", "-", "+", "x", "12x", "2147483648", "-2147483649", "1 2", "99999999999999999999"] {
        assert_eq!(pid_in_file(bad), None, "{bad}");
    }
}

#[test]
fn a_running_daemon_is_left_alone() {
    let fail = |e| match is_unique(&e) {
        LockAction::Fail(m) => m,
        _ => panic!("the daemon was not recognized"),
    };
    assert_eq!(
        fail(LockEvent::Pinged(4711, true)),
        "Error: Daemon is already running with PID: 4711"
    );
    assert_eq!(
        fail(LockEvent::Pinged(-5, true)),
        "Error: Daemon is already running with PID: -5"
    );
    assert_eq!(
        fail(LockEvent::Socket(true)),
        "Error: Daemon socket is active. Another instance is running."
    );
}

#[test]
fn what_a_daemon_left_behind_is_removed() {
    assert!(matches!(is_unique(&LockEvent::NoPidFile), LockAction::CheckSocket));
    assert!(matches!(is_unique(&LockEvent::PidFile("12".to_string())), LockAction::Ping(12)));
    assert!(matches!(is_unique(&LockEvent::PidFile("?".to_string())), LockAction::RemovePid));
    assert!(matches!(is_unique(&LockEvent::Pinged(12, false)), LockAction::RemovePid));
    assert!(matches!(is_unique(&LockEvent::PidRemoved), LockAction::CheckSocket));
    assert!(matches!(is_unique(&LockEvent::Socket(false)), LockAction::RemoveSocket));
    assert!(matches!(is_unique(&LockEvent::SocketRemoved), LockAction::Acquire));
    assert!(matches!(is_unique(&LockEvent::NoSocket), LockAction::Acquire));
}
