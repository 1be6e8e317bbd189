use xcplane::ansible::runs::{
    acme_check, ansible_data, destroy_server, full_setup, inventory_filename, log_filename,
    next_life_step, ping_call, ping_fault, test_ssh, vars_filename, without_super, AnsibleRun, LifeAction,
    LifeChange, LifeEvent, TaskFile,
};
use xcplane::ansible::AnsibleAction;
use xcplane::cloud::rebase::{RebaseData, RebaseDomain};
use xcplane::cloudflare::CFState;
use xcplane::constants::{
    default_dns_subdomain, default_outbound_block, default_ssh_port, default_sub_subdomain,
    default_true, default_ui_subdomain,
};
use xcplane::strmap::StrMap;
use xcplane::types::{
    AtomicServerState, Inbound, InboundKind, Ip, IpAddr, KetServer, Secrets, ServerState, XuiToken,
};
use xcplane::workspace::DaemonDirs;

fn inbound(name: &str, port: u16) -> Inbound {
    Inbound {
        name: name.to_string(),
        port,
        kind: InboundKind::VlessXhttpTls,
        total: 10,
        traffic: 20,
        expiry: 3,
        comment: String::new(),
    }
}

fn no_secrets() -> Secrets {
    Secrets {
        health_path: String::new(),
        doh_endpoint: String::new(),
        xui_username: String::new(),
        xui_password: String::new(),
        xui_token: XuiToken::empty(),
        xui_webpath: String::new(),
        xui_subpath: String::new(),
        xui_jsubpath: String::new(),
        mother_subids: StrMap::new(),
    }
}

fn server(name: &str, last: u8) -> KetServer {
    KetServer {
        name: name.to_string(),
        ip: IpAddr { ip: Ip::V4(5, 9, 0, last), text: format!("5.9.0.{last}") },
        domain: format!("{name}.example.com"),
        region: KetServer::default_country_code(),
        state: AtomicServerState::new(ServerState::Offgrid),
        quota: 0,
        enabled: default_true(),
        ssh_port: default_ssh_port(),
        dns_subdomain: default_dns_subdomain(),
        ui_subdomain: default_ui_subdomain(),
        sub_subdomain: default_sub_subdomain(),
        cloudflare_proxied: false,
        inbounds: vec![],
        outbound_block: default_outbound_block(),
        ansible_conn: None,
        secrets: no_secrets(),
        cfstate: None,
    }
}


fn ready(name: &str) -> KetServer {
    let mut s = server(name, 1);
    s.inbounds = vec![inbound("day3", 2083), Inbound::super_inbound()];
    s.build_inventory();
    s.fill_secrets();
    s.cfstate = Some(CFState {
        zone_name: "example.com".to_string(),
        zone_id: "z1".to_string(),
        too_deep: false,
        cloudflare_only: true,
        list_data: None,
    });
    s
}

fn run(s: KetServer, actions: Vec<AnsibleAction>) -> AnsibleRun {
    AnsibleRun { server: s, actions, stream_it: false, rebase_data: None }
}

fn data(added: Vec<Inbound>, removed: Vec<Inbound>) -> RebaseData {
    RebaseData {
        added_inbounds: added,
        removed_inbounds: removed,
        rebase_domain: RebaseDomain { zone: None, dns: None, ui: None, sub: None },
    }
}

fn dirs() -> DaemonDirs {
    DaemonDirs {
        config_dir: "/etc/xcplane".to_string(),
        data_dir: "/var/lib/xcplane".to_string(),
        cache_dir: "/var/cache/xcplane".to_string(),
        runtime_dir: "/run/xcplane".to_string(),
        state_dir: "/var/log/xcplane".to_string(),
    }
}

#[test]
fn all_actions_have_their_own_files() {
    let files = AnsibleAction::all_taskfiles();
    assert_eq!(files.len(), 25);
    for (i, f) in files.iter().enumerate() {
        assert!(f.ends_with(".yaml"));
        assert!(!files[..i].contains(f), "{f}");
    }
    for (i, a) in AnsibleAction::all().iter().enumerate() {
        assert_eq!(a.id(), i as u64);
        assert_eq!(a.taskname(), files[i]);
    }
    assert_eq!(AnsibleAction::PortsCheck.taskname(), "check_ports.yaml");
    assert_eq!(AnsibleAction::XrayRestoreDB.taskname(), "xui_restore_db.yaml");
    assert_eq!(AnsibleAction::DestroyServer.taskname(), "destroy_server.yaml");
}

#[test]
fn actions_are_sorted_by_priority() {
    let mut v = vec![
        AnsibleAction::SSH,
        AnsibleAction::Cloudflare,
        AnsibleAction::PortsCheck,
        AnsibleAction::Cloudflare,
    ];
    AnsibleAction::sort_unique(&mut v);
    assert_eq!(v, [AnsibleAction::PortsCheck, AnsibleAction::Cloudflare, AnsibleAction::SSH]);
    let mut w = vec![AnsibleAction::PortsCheck, AnsibleAction::SSH, AnsibleAction::Cloudflare];
    AnsibleAction::sort_unique(&mut w);
    assert_eq!(v, w);
}

#[test]
fn the_identifier_names_the_actions() {
    let tasks = AnsibleAction::task_gen(&vec![
        AnsibleAction::PortsCheck,
        AnsibleAction::Basics,
        AnsibleAction::CloudflareDel,
        AnsibleAction::Acme,
        AnsibleAction::Nginx,
        AnsibleAction::Bootstrap,
        AnsibleAction::XuiAuth,
        AnsibleAction::DelInbound,
        AnsibleAction::AddInbound,
        AnsibleAction::PanelSettings,
        AnsibleAction::Fail2ban,
        AnsibleAction::Firewall,
    ]);
    assert_eq!(tasks.id, "0_2_3_5_6_16_17_18_19_20_21_22");
    assert_eq!(
        vars_filename("server1", &tasks.id),
        "server1-0_2_3_5_6_16_17_18_19_20_21_22-general_vars.yaml"
    );
    assert_eq!(tasks.tasks[0], "check_ports.yaml");
    let none = AnsibleAction::task_gen(&vec![]);
    assert_eq!(none.id, "");
    assert!(none.tasks.is_empty());
}

#[test]
fn lists_have_identifiers_of_their_own() {
    let id = |v: Vec<AnsibleAction>| AnsibleAction::task_gen(&v).id;
    let ids = [
        id(vec![]),
        id(vec![AnsibleAction::PortsCheck]),
        id(vec![AnsibleAction::DnsReset]),
        id(vec![AnsibleAction::DnsReset, AnsibleAction::DnsReset]),
        id(vec![AnsibleAction::FullSetup]),
        id(vec![AnsibleAction::DnsReset, AnsibleAction::Basics]),
        id(vec![AnsibleAction::Basics, AnsibleAction::DnsReset]),
        id(vec![AnsibleAction::NginxRestart]),
    ];
    assert_eq!(ids, ["", "0", "1", "1_1", "11", "1_2", "2_1", "12"]);
}

#[test]
fn file_names() {
    assert_eq!(inventory_filename("myserver", "2_4"), "myserver-2_4-inventory.json");
    assert_eq!(
        log_filename("myserver", "2_4_7_18_19", "2026_08_09_11_54_28", "stderr"),
        "myserver-2_4_7_18_19-2026_08_09_11_54_28-ansible-stderr.log"
    );
    let d = ansible_data(&dirs(), "a", "0", "{}".to_string(), "T1", "T2");
    assert_eq!(d.ansible_vars, "{}");
    assert_eq!(d.inventory_path, "/var/lib/xcplane/a/a-0-inventory.json");
    assert_eq!(d.stdout_path, "/var/log/xcplane/a-0-T1-ansible-stdout.log");
    assert_eq!(d.stderr_path, "/var/log/xcplane/a-0-T2-ansible-stderr.log");
}

#[test]
fn the_variables_of_a_run() {
    let mut s = ready("a");
    s.cloudflare_proxied = true;
    let password = s.secrets.xui_password.clone();
    let mut r = run(s, vec![AnsibleAction::SSH, AnsibleAction::Nginx, AnsibleAction::SSH]);
    let plan = r.write_ansible_vars("/data", StrMap::new(), None).unwrap();
    assert_eq!(r.actions, [AnsibleAction::Nginx, AnsibleAction::SSH]);
    assert_eq!(plan.id, "6_23");
    let v = &plan.vars;
    assert_eq!(v.ansible_tasks, ["nginx_setup.yaml", "ssh_setup.yaml"]);
    assert!(!v.full_setup);
    assert_eq!(v.data_dir, "/data");
    assert_eq!(v.node_name, "a");
    assert_eq!(v.base_hostname, "a.example.com");
    assert_eq!(v.node_region, "US");
    assert_eq!(v.secrets.xui_password, password);
    assert!(v.cloudflare_proxied);
    assert_eq!((v.unbound_https_port, v.ui_webport, v.sub_port), (444, 400, 401));
    // The server is still reached at port 22.
    assert_eq!(v.new_ports, [79]);
    assert_eq!(v.inbound_data.len(), 1);
    assert_eq!(v.sublinks_suffix, "_sublinks.txt");
    assert_eq!(v.jsublinks_suffix, "_json_sublinks.txt");
    assert!(v.extra.entries.is_empty());
    assert_eq!(plan.hosts.entries.len(), 2);
    let local = plan.hosts.get("localhost").unwrap();
    assert_eq!(local.ansible_connection.as_deref(), Some("local"));
    assert_eq!(local.ansible_host, None);
    assert_eq!(plan.hosts.get("a").unwrap().ansible_host.as_deref(), Some("5.9.0.1"));
}

#[test]
fn a_deep_domain_is_not_proxied() {
    let mut s = ready("a");
    s.cloudflare_proxied = true;
    s.cfstate.as_mut().unwrap().too_deep = true;
    let plan = run(s, vec![AnsibleAction::Nginx])
        .write_ansible_vars("/data", StrMap::new(), None)
        .unwrap();
    assert!(!plan.vars.cloudflare_proxied);
}

#[test]
fn ports_that_must_be_free() {
    let ports = |mut r: AnsibleRun| {
        r.write_ansible_vars("/data", StrMap::new(), None).unwrap().vars.new_ports
    };
    assert_eq!(ports(run(ready("a"), vec![AnsibleAction::FullSetup])), [79, 444, 400, 401]);
    let mut s = ready("a");
    s.state.store(ServerState::Production);
    s.build_inventory();
    assert_eq!(ports(run(s.clone(), vec![AnsibleAction::FullSetup])), [444, 400, 401]);
    assert!(ports(run(s.clone(), vec![AnsibleAction::Nginx])).is_empty());
    let mut r = run(s.clone(), vec![AnsibleAction::AddInbound]);
    r.rebase_data = Some(data(vec![inbound("x", 2087), inbound("y", 2096)], vec![inbound("z", 2096)]));
    assert_eq!(ports(r), [2087]);
    // In a full setup the inbounds do not count.
    let mut r = run(s, vec![AnsibleAction::FullSetup]);
    r.rebase_data = Some(data(vec![inbound("x", 2087)], vec![]));
    assert_eq!(ports(r), [444, 400, 401]);
}

#[test]
fn a_restoration_is_told_the_backup() {
    let mut r = run(ready("a"), vec![AnsibleAction::XrayRestoreDB]);
    match r.write_ansible_vars("/data", StrMap::new(), None) {
        Err(e) => assert_eq!(e, "Couldn't find any DB to choose from."),
        Ok(_) => panic!("there is no backup"),
    }
    let plan = r.write_ansible_vars("/data", StrMap::new(), Some("/b.db".to_string())).unwrap();
    assert_eq!(plan.vars.extra.get("latest_backup").unwrap(), "/b.db");
    // Other actions are not told.
    let plan = run(ready("a"), vec![AnsibleAction::XrayRestart])
        .write_ansible_vars("/data", StrMap::new(), Some("/b.db".to_string()))
        .unwrap();
    assert!(plan.vars.extra.entries.is_empty());
}

#[test]
fn what_a_run_needs() {
    let mut s = ready("a");
    s.ansible_conn = None;
    match run(s, vec![]).write_ansible_vars("/data", StrMap::new(), None) {
        Err(e) => assert_eq!(e, "Couldn't unwrap AnsibleConn of server a for AnsibleVars."),
        Ok(_) => panic!("there is no connection"),
    }
    let mut s = ready("a");
    s.cfstate = None;
    match run(s, vec![]).write_ansible_vars("/data", StrMap::new(), None) {
        Err(e) => assert_eq!(e, "Couldn't unwrap Cloudflare state data in write_ansible_vars."),
        Ok(_) => panic!("there is no state"),
    }
}

#[test]
fn actions_are_in_order_before_the_connection_is_needed() {
    let actions = vec![AnsibleAction::SSH, AnsibleAction::Acme, AnsibleAction::SSH];
    let mut s = ready("a");
    s.ansible_conn = None;
    let mut r = run(s, actions.clone());
    assert!(r.write_ansible_vars("/data", StrMap::new(), None).is_err());
    assert_eq!(r.actions, [AnsibleAction::Acme, AnsibleAction::SSH]);
    let mut s = ready("a");
    s.cfstate = None;
    let mut r = run(s, actions.clone());
    assert!(r.write_ansible_vars("/data", StrMap::new(), None).is_err());
    assert_eq!(r.actions, actions);
}

#[test]
fn secrets_are_hidden() {
    let mut plan = run(ready("a"), vec![]).write_ansible_vars("/d", StrMap::new(), None).unwrap();
    plan.vars.hide_secrets();
    let x = &plan.vars.secrets;
    for t in [
        &x.health_path,
        &x.doh_endpoint,
        &x.xui_username,
        &x.xui_password,
        &x.xui_webpath,
        &x.xui_subpath,
        &x.xui_jsubpath,
    ] {
        assert_eq!(t, "******");
    }
    assert_eq!(x.xui_token.0.as_deref(), Some("******"));
    assert!(x.mother_subids.entries.is_empty());
    assert_eq!(plan.vars.node_name, "a");
}

#[test]
fn pings_are_judged() {
    assert_eq!(test_ssh(true, b"anything"), Ok(()));
    assert_eq!(
        test_ssh(false, b"root@1: Permission denied (publickey)"),
        Err("problem with the SSH key--either it is not properly installed on the server, or \
             password is required"
            .to_string())
    );
    let away = "network/firewall issue or port mismatch--the remote server cannot be reached";
    assert_eq!(test_ssh(false, b"ssh: Connection timed out"), Err(away.to_string()));
    assert_eq!(ping_fault("No route to host"), away);
    assert_eq!(ping_fault("Host key verification failed."), "host key verification failed");
    assert_eq!(ping_fault("something else"), "something else");
    assert_eq!(test_ssh(false, &[0x41, 0xff]), Err("A\u{fffd}".to_string()));
}

#[test]
fn task_files_are_validated() {
    let files = |f: fn(usize) -> (bool, bool)| -> Vec<TaskFile> {
        (0..25)
            .map(|i| TaskFile { path: format!("/t/{i}"), exists: f(i).0, readable: f(i).1 })
            .collect()
    };
    assert_eq!(AnsibleAction::validate(&files(|_| (true, true))), Ok(()));
    assert_eq!(
        AnsibleAction::validate(&files(|i| (i != 3, i != 2))),
        Err("The path for task 'basics_install.yaml' is not readable.".to_string())
    );
    assert_eq!(
        AnsibleAction::validate(&files(|i| (i != 3, true))),
        Err("The path for task 'cloudflare_del.yaml' is invalid or doesn't exist. Path: /t/3"
            .to_string())
    );
}

#[test]
fn the_supervisor_is_not_deployed() {
    let kept = without_super(&vec![inbound("a", 1), Inbound::super_inbound(), inbound("b", 2)]);
    assert_eq!(kept.len(), 2);
    assert_eq!((kept[0].name.as_str(), kept[1].name.as_str()), ("a", "b"));
}

#[test]
fn runs_of_their_own() {
    let r = full_setup(ready("a"));
    assert_eq!((r.actions, r.stream_it), (vec![AnsibleAction::FullSetup], true));
    let r = destroy_server(ready("a"));
    assert_eq!((r.actions, r.stream_it), (vec![AnsibleAction::DestroyServer], true));
    let r = acme_check(ready("a"));
    assert_eq!((r.actions, r.stream_it), (vec![AnsibleAction::Acme], false));
}

#[test]
fn the_course_of_a_setup() {
    let step = |e| next_life_step(LifeChange::Setup, e);
    assert_eq!(step(LifeEvent::Started), LifeAction::CountDown);
    assert_eq!(step(LifeEvent::CountedDown), LifeAction::Run);
    assert_eq!(step(LifeEvent::Ran(false)), LifeAction::ReportFailure);
    assert_eq!(step(LifeEvent::NotRun), LifeAction::ReportFailure);
    assert_eq!(step(LifeEvent::Ran(true)), LifeAction::ReadToken);
    assert_eq!(step(LifeEvent::TokenRead), LifeAction::MarkProduction);
    assert_eq!(step(LifeEvent::Marked), LifeAction::DeleteBackups);
    assert_eq!(step(LifeEvent::BackupsDeleted), LifeAction::Inquire);
    assert_eq!(step(LifeEvent::Inquired(true)), LifeAction::DelayReload);
    assert_eq!(step(LifeEvent::Inquired(false)), LifeAction::Reload);
}

#[test]
fn the_course_of_a_destruction() {
    let step = |e| next_life_step(LifeChange::Destruction, e);
    assert_eq!(step(LifeEvent::Ran(true)), LifeAction::MarkOffgrid);
    assert_eq!(step(LifeEvent::Marked), LifeAction::Inquire);
}

#[test]
fn the_connection_is_tested_with_a_ping() {
    let c = ping_call(&dirs(), "/var/lib/xcplane/a/a-0-inventory.json");
    assert_eq!(c.program, "ansible");
    assert_eq!(c.args, ["all", "-i", "/var/lib/xcplane/a/a-0-inventory.json", "-m", "ping"]);
    assert_eq!(c.env, [("ANSIBLE_CONFIG", "/etc/xcplane/ansible_min.cfg".to_string())]);
    assert!(!c.stream);
}

#[test]
fn the_call_of_a_run() {
    let dirs = dirs();
    let d = ansible_data(&dirs, "a", "0", "{}".to_string(), "T1", "T2");
    let mut r = run(ready("a"), vec![AnsibleAction::Acme]);
    let c = r.run(&dirs, &d, "token", false);
    assert_eq!(c.program, "ansible-playbook");
    assert_eq!(
        c.args,
        [
            "/var/lib/xcplane/Ansible-Files/0.1.0/master_playbook.yaml",
            "-i",
            "/var/lib/xcplane/a/a-0-inventory.json",
            "-e",
            "{}",
        ]
    );
    let quiet = [
        ("ANSIBLE_CONFIG", "/etc/xcplane/ansible_min.cfg".to_string()),
        ("CF_API_TOKEN", "token".to_string()),
    ];
    assert_eq!(c.env, quiet);
    assert!(!c.stream);

    let shown = r.run(&dirs, &d, "token", true);
    assert!(shown.stream);
    assert_eq!(shown.env[..2], quiet);
    assert_eq!(shown.env[2], ("PYTHONUNBUFFERED", "1".to_string()));
    r.stream_it = true;
    assert!(r.run(&dirs, &d, "token", false).stream);
}
