use xcplane::cli::{
    check_config, process_socket_reply, CliComm, CloudSummary, CommArgs, CommandPlace, ExpandOpts,
    RebaseOpts, ReplyDisplay, ReplyFormat, ServerSummary, ShowSecrets, SocketForm, SocketMessage,
    StatusOpts, SvcHealthSummary, SvcSummary, TaskSummary,
};
use xcplane::cloud::config::parse_cloud_config;
use xcplane::cloud::reconcile::ReconMode;
use xcplane::constants::{
    default_dns_subdomain, default_mon_interval, default_outbound_block, default_ssh_port,
    default_sub_subdomain, default_threshold, default_true, default_ui_subdomain,
};
use xcplane::strmap::StrMap;
use xcplane::daemon::cycle::{
    after_cycle, check_and_backup, core_action, settle_cloud, AfterCycle, Checked, CoreAction,
    DaemonNext,
};
use xcplane::daemon::plan::{plan_daemon, TaskMap, TaskRun};
use xcplane::daemon::report::{
    build_servers_creds, get_cloud_clients, get_summary, humanize_status_report, managed_servers,
};
use xcplane::daemon::{signal_command, DaemonComm, DaemonReply, Signal};
use xcplane::types::{
    AtomicServerState, Cloud, CloudSettings, Inbound, InboundKind, Ip, IpAddr, KetServer, Secrets,
    ServerState, SvcHealth, SvcInfo, SvcKind, TaskEntry, XuiToken,
};
use xcplane::workspace::Daemon;

fn inbound(name: &str, port: u16) -> Inbound {
    Inbound {
        name: name.to_string(),
        port,
        kind: InboundKind::VlessXhttpTls,
        total: 10,
        traffic: 20,
        expiry: 3,
        comment: String::new(),
    }
}

fn no_secrets() -> Secrets {
    Secrets {
        health_path: String::new(),
        doh_endpoint: String::new(),
        xui_username: String::new(),
        xui_password: String::new(),
        xui_token: XuiToken::empty(),
        xui_webpath: String::new(),
        xui_subpath: String::new(),
        xui_jsubpath: String::new(),
        mother_subids: StrMap::new(),
    }
}

fn server(name: &str, last: u8) -> KetServer {
    KetServer {
        name: name.to_string(),
        ip: IpAddr { ip: Ip::V4(5, 9, 0, last), text: format!("5.9.0.{last}") },
        domain: format!("{name}.example.com"),
        region: KetServer::default_country_code(),
        state: AtomicServerState::new(ServerState::Offgrid),
        quota: 0,
        enabled: default_true(),
        ssh_port: default_ssh_port(),
        dns_subdomain: default_dns_subdomain(),
        ui_subdomain: default_ui_subdomain(),
        sub_subdomain: default_sub_subdomain(),
        cloudflare_proxied: false,
        inbounds: vec![],
        outbound_block: default_outbound_block(),
        ansible_conn: None,
        secrets: no_secrets(),
        cfstate: None,
    }
}

fn cloud(servers: Vec<KetServer>) -> Cloud {
    Cloud {
        servers,
        settings: CloudSettings {
            inbound_set: vec![inbound("day3", 2083), inbound("day30", 8443)],
            auto_fix: true,
            fix_threshold: default_threshold(),
            monitor_interval: default_mon_interval(),
        },
    }
}


fn ready(servers: Vec<KetServer>) -> Cloud {
    let mut c = parse_cloud_config(&cloud(servers)).unwrap();
    for s in c.servers.iter_mut() {
        s.secrets.xui_token = XuiToken::from("token".to_string());
    }
    c
}

fn production(name: &str, last: u8) -> KetServer {
    let mut s = server(name, last);
    s.state.store(ServerState::Production);
    s.inbounds = vec![inbound("day3", 2083), inbound("day30", 8443)];
    s
}

fn names(tasks: &[TaskEntry]) -> Vec<String> {
    tasks.iter().map(|t| t.nice_display()).collect()
}

fn svc(kind: SvcKind, server: &str, health: SvcHealth) -> SvcSummary {
    SvcSummary { service: kind, server: server.to_string(), health }
}

fn message(r: DaemonReply) -> String {
    match r {
        DaemonReply::Message(m) => m,
        _ => panic!("the reply is no message"),
    }
}

fn applied(r: Result<Checked, String>) -> (String, DaemonNext) {
    match r {
        Ok(Checked::Apply(m, n)) => (m, n),
        Ok(Checked::Refuse(m)) => panic!("{m}"),
        Err(e) => panic!("{e}"),
    }
}

fn refused(r: Result<Checked, String>) -> String {
    match r {
        Ok(Checked::Refuse(m)) => m,
        Ok(Checked::Apply(m, _)) => panic!("{m}"),
        Err(e) => panic!("{e}"),
    }
}

#[test]
fn names_of_commands() {
    let expand = |s: Option<&str>| DaemonComm::Expand(ExpandOpts { server: s.map(|s| s.to_string()) });
    assert_eq!(expand(None).to_string(), "Expand");
    assert_eq!(expand(Some("a")).to_string(), "Expand on a");
    assert_eq!(DaemonComm::Rebase(RebaseOpts { forced: true }).to_string(), "Forced Rebase");
    assert_eq!(DaemonComm::Rebase(RebaseOpts { forced: false }).to_string(), "Rebase");
    assert_eq!(DaemonComm::Status(StatusOpts { full: true }).to_string(), "Full Status");
    assert_eq!(DaemonComm::Status(StatusOpts { full: false }).to_string(), "Status");
    assert_eq!(
        DaemonComm::Credentials(ShowSecrets { show_all: true }).to_string(),
        "Credentials-All"
    );
    assert_eq!(DaemonComm::Unknown.to_string(), "Unknown");
    assert_eq!(DaemonComm::ResetFix.to_string(), "ResetFix");
}

#[test]
fn signals_are_commands() {
    assert!(matches!(signal_command(Signal::Hangup), DaemonComm::Reload));
    assert!(matches!(signal_command(Signal::Interrupt), DaemonComm::Shutdown));
    assert!(matches!(signal_command(Signal::Terminate), DaemonComm::Shutdown));
}

#[test]
fn commands_of_the_program() {
    assert!(matches!(CommArgs { mode: None }.command(), CliComm::Daemon));
    assert!(matches!(CommArgs { mode: Some(CliComm::Check) }.command(), CliComm::Check));
    assert_eq!(CliComm::Daemon.place(), CommandPlace::Daemon);
    assert_eq!(CliComm::Check.place(), CommandPlace::Check);
    assert_eq!(CliComm::Restore.place(), CommandPlace::Restore);
    assert_eq!(CliComm::Reload.place(), CommandPlace::Socket);
    assert!(matches!(CliComm::Restore.daemon_command(), DaemonComm::Unknown));
    assert!(matches!(
        CliComm::Rebase(RebaseOpts { forced: true }).daemon_command(),
        DaemonComm::Rebase(RebaseOpts { forced: true })
    ));
    let opts = ExpandOpts { server: Some("a".to_string()) };
    match CliComm::Expand(opts).daemon_command() {
        DaemonComm::Expand(o) => assert_eq!(o.server.as_deref(), Some("a")),
        _ => panic!("another command was made of it"),
    }
}

#[test]
fn secrets_are_shown_in_a_pager() {
    let creds = CliComm::Creds(ShowSecrets { show_all: false });
    assert_eq!(process_socket_reply(&creds), ReplyDisplay::Pager);
    assert_eq!(process_socket_reply(&CliComm::Clients), ReplyDisplay::Pager);
    assert_eq!(process_socket_reply(&CliComm::Reload), ReplyDisplay::Print);
}

#[test]
fn forms_of_replies() {
    assert_eq!(DaemonReply::Clients(StrMap::new()).reply_format(), ReplyFormat::Toml);
    assert_eq!(DaemonReply::SetupInquiry(true).reply_format(), ReplyFormat::Json);
    let plain = SocketMessage::of(Ok(DaemonReply::Message("done".to_string())));
    assert!(matches!(plain.serialize_pretty(), SocketForm::Plain(t) if t == "done"));
    let toml = SocketMessage::of(Ok(DaemonReply::Credentials(StrMap::new())));
    assert!(matches!(toml.serialize_pretty(), SocketForm::Toml));
    let json = SocketMessage::of(Ok(DaemonReply::SetupInquiry(false)));
    assert!(matches!(json.serialize_pretty(), SocketForm::Json));
    let failure = SocketMessage::of(Err("no".to_string()));
    assert!(matches!(&failure, SocketMessage::Failure(e) if e == "no"));
    assert!(matches!(failure.serialize_pretty(), SocketForm::Json));
}

#[test]
fn reports_on_a_check() {
    assert_eq!(check_config(&None), "The cloud config is Ok.");
    assert_eq!(check_config(&Some("bad".to_string())), "Error in cloud config: bad");
}

#[test]
fn services_are_grouped_by_server() {
    let r = get_summary(
        vec![
            svc(SvcKind::Ssh, "b", SvcHealth::Healthy),
            svc(SvcKind::Ssh, "a", SvcHealth::Sick),
            svc(SvcKind::Xray("day3".to_string()), "b", SvcHealth::Unknown),
        ],
        vec![TaskSummary { task: "Aggregator".to_string(), running: true }],
        StatusOpts { full: true },
    );
    let s = match r {
        DaemonReply::Status(s) => s,
        _ => panic!("the reply is no summary"),
    };
    assert_eq!(s.tasks.len(), 1);
    assert_eq!(s.cloud.len(), 2);
    assert_eq!(s.cloud[0].server, "b");
    assert_eq!(s.cloud[0].services.len(), 2);
    assert_eq!(s.cloud[0].services[1].service, "Xray(day3)");
    assert_eq!(s.cloud[0].services[1].health, SvcHealth::Unknown);
    assert_eq!(s.cloud[1].server, "a");
    assert_eq!(s.cloud[1].services[0].service, "SSH");
}

#[test]
fn the_report_names_what_is_wrong() {
    let task = |name: &str, running| TaskSummary { task: name.to_string(), running };
    let brief = StatusOpts { full: false };
    assert_eq!(
        message(get_summary(
            vec![
                svc(SvcKind::Nginx, "a", SvcHealth::Sick),
                svc(SvcKind::Ssh, "b", SvcHealth::Healthy),
                svc(SvcKind::Ssh, "a", SvcHealth::Unknown),
            ],
            vec![task("GeoipUpdater", false), task("Aggregator", true)],
            brief,
        )),
        "Task 'GeoipUpdater' has crashed.\nService Nginx on server 'a' is Sick.\nService SSH on \
         server 'a' is Unknown."
    );
    assert_eq!(message(get_summary(vec![], vec![task("x", true)], brief)), "All tasks are running.");
    assert_eq!(
        message(get_summary(vec![svc(SvcKind::Ssh, "a", SvcHealth::Healthy)], vec![], brief)),
        "All tasks are running. All services are Ok."
    );
    let sick = SvcHealthSummary { service: "SSH".to_string(), health: SvcHealth::Sick };
    let summary = CloudSummary {
        tasks: vec![],
        cloud: vec![ServerSummary { server: "a".to_string(), services: vec![sick] }],
    };
    assert_eq!(humanize_status_report(&summary), "Service SSH on server 'a' is Sick.");
}

#[test]
fn credentials_of_managed_servers() {
    let mut disabled = production("c", 3);
    disabled.enabled = false;
    let c = ready(vec![production("a", 1), server("b", 2), disabled]);
    let creds = |all| match build_servers_creds(&c, all) {
        DaemonReply::Credentials(m) => m,
        _ => panic!("the reply holds no credentials"),
    };
    let hidden = creds(false);
    assert_eq!(hidden.entries.len(), 1);
    let a = hidden.get("a").unwrap();
    let secrets = &c.servers[0].secrets;
    assert_eq!(a.doh, format!("https://dns.a.example.com/{}", secrets.doh_endpoint));
    assert_eq!(a.ui, format!("https://ui.a.example.com/{}/", secrets.xui_webpath));
    assert_eq!((&a.xui_username, &a.xui_password, &a.xui_token), (&None, &None, &None));
    let shown = creds(true);
    let a = shown.get("a").unwrap();
    assert_eq!(a.xui_username.as_ref(), Some(&secrets.xui_username));
    assert_eq!(a.xui_password.as_ref(), Some(&secrets.xui_password));
    assert_eq!(a.xui_token.as_deref(), Some("token"));
    let m = managed_servers(&c.servers);
    assert_eq!(m.iter().map(|s| s.name.as_str()).collect::<Vec<_>>(), ["a"]);
}

#[test]
fn clients_of_all_servers() {
    let t = |a: &str, b: &str| (a.to_string(), b.to_string());
    match get_cloud_clients(&vec![t("a", "1"), t("b", "2"), t("a", "3")]) {
        DaemonReply::Clients(m) => {
            assert_eq!(m.entries.len(), 2);
            assert_eq!(m.get("a").unwrap(), "1");
            assert_eq!(m.get("b").unwrap(), "2");
        }
        _ => panic!("the reply holds no clients"),
    }
}

#[test]
fn tasks_of_a_daemon() {
    let c = ready(vec![production("a", 1), server("b", 2)]);
    let plan = plan_daemon(&c).unwrap();
    assert_eq!(
        names(&plan.tasks),
        [
            "SignalWatcher",
            "GeoipUpdater",
            "Aggregator",
            "SshMonitor(a(SSH))",
            "NginxMonitor(a(Nginx))",
            "XrayMonitor(a(Xray(day3)))",
            "XrayMonitor(a(Xray(day30)))",
            "XrayMonitor(a(Xray(super)))",
            "XuiDbPruner(a)",
            "AcmeChecker(a)",
        ]
    );
    assert_eq!(plan.ndata, 5);
    assert_eq!((plan.interval, plan.auto_fix, plan.fix_threshold), (60, true, 10));
    assert!(!plan.nothing_to_monitor);
    let ports: Vec<u16> = plan
        .tasks
        .iter()
        .filter_map(|t| match t {
            TaskEntry::SshMonitor(i) | TaskEntry::NginxMonitor(i) | TaskEntry::XrayMonitor(i) => {
                Some(i.port)
            }
            _ => None,
        })
        .collect();
    // The supervisor is tested without a local port.
    assert_eq!(ports, [79, 443, 10000, 10001, 0]);
    match &plan.tasks[5] {
        TaskEntry::XrayMonitor(i) => {
            let secrets = &c.servers[0].secrets;
            assert_eq!(
                i.link.as_ref().unwrap(),
                &format!(
                    "https://sub.a.example.com/{}/{}",
                    secrets.xui_jsubpath,
                    secrets.mother_subids.get("day3").unwrap()
                )
            );
        }
        _ => panic!("another task stands there"),
    }
}

#[test]
fn ports_go_on_from_server_to_server() {
    let c = ready(vec![production("a", 1), production("b", 2)]);
    let plan = plan_daemon(&c).unwrap();
    let ports: Vec<u16> = plan
        .tasks
        .iter()
        .filter_map(|t| match t {
            TaskEntry::XrayMonitor(i) if i.port != 0 => Some(i.port),
            _ => None,
        })
        .collect();
    assert_eq!(ports, [10000, 10001, 10002, 10003]);
    assert_eq!(plan.ndata, 10);
}

#[test]
fn without_production_there_is_nothing_to_monitor() {
    let plan = plan_daemon(&ready(vec![server("b", 2)])).unwrap();
    assert_eq!(names(&plan.tasks), ["SignalWatcher", "GeoipUpdater"]);
    assert_eq!(plan.ndata, 0);
    assert!(plan.nothing_to_monitor);
}

#[test]
fn a_monitor_needs_its_link() {
    let mut c = ready(vec![production("a", 1)]);
    c.servers[0].secrets.mother_subids = StrMap::new();
    match plan_daemon(&c) {
        Err(e) => assert_eq!(
            e,
            "Mother sub-ID is absent from the secrets of server 'a' for inbound 'day3'"
        ),
        Ok(_) => panic!("there is no link"),
    }
}

#[test]
fn the_inquirer_does_not_count() {
    let run = |entry, finished| TaskRun { entry, finished };
    let mut m = TaskMap {
        tasks: vec![
            run(TaskEntry::Aggregator, false),
            run(TaskEntry::FullSetup(server("a", 1)), false),
            run(TaskEntry::DestroyServer(server("b", 2)), true),
        ],
    };
    let status = m.status();
    assert_eq!(status[1].task, "FullSetup(a)");
    assert_eq!((status[1].running, status[2].running), (true, false));
    assert!(m.setup_inquiry(&TaskEntry::DestroyServer(server("b", 2))));
    assert_eq!(m.tasks.len(), 2);
    assert!(!m.setup_inquiry(&TaskEntry::FullSetup(server("a", 1))));
    assert_eq!(m.tasks.len(), 1);
    // What is finished is under way no more.
    m.tasks.push(run(TaskEntry::FullSetup(server("c", 3)), true));
    assert!(!m.setup_inquiry(&TaskEntry::FullSetup(server("a", 1))));
    assert_eq!(m.tasks.len(), 2);
}

#[test]
fn tasks_are_known_by_server_and_service() {
    let info = |port| SvcInfo { server: server("a", 1), port, kind: SvcKind::Ssh, link: None };
    assert!(TaskEntry::SshMonitor(info(1)) == TaskEntry::SshMonitor(info(1)));
    assert!(TaskEntry::SshMonitor(info(1)) != TaskEntry::NginxMonitor(info(1)));
    assert!(TaskEntry::FullSetup(server("a", 1)) != TaskEntry::FullSetup(server("b", 1)));
    assert!(TaskEntry::FullSetup(server("a", 1)) != TaskEntry::DestroyServer(server("a", 1)));
}

#[test]
fn the_first_cycle_is_a_reload() {
    let n = Daemon::init_state();
    assert_eq!(n.code, 0);
    assert!(matches!(n.mode, ReconMode::Reload));
    assert!(n.old_cloud.is_none() && n.new_cloud.is_none() && n.rebase_data.is_none());
}

#[test]
fn codes_at_the_end_of_a_cycle() {
    assert!(matches!(after_cycle(0), AfterCycle::Stop));
    assert!(matches!(after_cycle(20), AfterCycle::Restart));
    for code in [21, 22, 23] {
        assert!(matches!(after_cycle(code), AfterCycle::Again));
    }
    let fail = |code| match after_cycle(code) {
        AfterCycle::Fail(e) => e,
        _ => panic!("the daemon goes on"),
    };
    assert_eq!(fail(1), "Daemon exited with error.");
    assert_eq!(fail(24), "Unknown exit code");
    assert_eq!(fail(-1), "Unknown exit code");
}

#[test]
fn the_old_cloud_is_kept_where_the_new_one_fails() {
    let (c, store) = settle_cloud(Ok(cloud(vec![server("new", 1)])), cloud(vec![]));
    assert_eq!((c.servers.len(), store), (1, true));
    let (c, store) = settle_cloud(Err("no".to_string()), cloud(vec![server("old", 1)]));
    assert_eq!((c.servers[0].name.as_str(), store), ("old", false));
}

#[test]
fn what_is_done_on_a_command() {
    assert!(matches!(core_action(&DaemonComm::Shutdown), CoreAction::Stop("Shutting down")));
    assert!(matches!(core_action(&DaemonComm::ResetFix), CoreAction::ResetFix("Reset done.")));
    assert!(matches!(core_action(&DaemonComm::Unknown), CoreAction::Ignore));
    assert!(matches!(core_action(&DaemonComm::Clients), CoreAction::Clients));
    assert!(matches!(
        core_action(&DaemonComm::Status(StatusOpts { full: true })),
        CoreAction::Summarize(StatusOpts { full: true })
    ));
    assert!(matches!(
        core_action(&DaemonComm::SetupInquiry(TaskEntry::Aggregator)),
        CoreAction::Inquire
    ));
    for c in [DaemonComm::Restart, DaemonComm::Reload, DaemonComm::Remap] {
        assert!(matches!(core_action(&c), CoreAction::CheckAndBackup));
    }
}

#[test]
fn a_faulty_declaration_is_refused() {
    let curr = ready(vec![server("a", 1)]);
    assert_eq!(
        refused(check_and_backup(&DaemonComm::Remap, &curr, Err("no servers".to_string()))),
        "Cloud config file has failed the check. We can't proceed with 'Remap'. Error: no servers"
    );
}

#[test]
fn a_declaration_is_applied() {
    let curr = ready(vec![server("a", 1)]);
    for (c, code, mode, text) in [
        (DaemonComm::Restart, 20, ReconMode::Reload, "Restart is being applied."),
        (DaemonComm::Reload, 21, ReconMode::Reload, "Reload is being applied."),
        (DaemonComm::Remap, 22, ReconMode::Remap, "Remap is being applied."),
    ] {
        let (m, n) = applied(check_and_backup(&c, &curr, Ok(ready(vec![server("b", 2)]))));
        assert_eq!(m, text);
        assert_eq!(n.code, code);
        assert_eq!(n.mode, mode);
        assert_eq!(n.old_cloud.unwrap().servers[0].name, "a");
        assert_eq!(n.new_cloud.unwrap().servers[0].name, "b");
        assert!(n.rebase_data.is_none());
    }
    match check_and_backup(&DaemonComm::Clients, &curr, Ok(ready(vec![]))) {
        Err(e) => assert_eq!(e, "Unsuitable DaemonComm variant in check_and_config."),
        Ok(_) => panic!("the command applies nothing"),
    }
}

#[test]
fn a_rebase_is_prepared() {
    let curr = ready(vec![production("a", 1)]);
    let mut fewer = production("a", 1);
    fewer.inbounds.pop();
    let new = ready(vec![fewer]);
    let rebase = |forced| DaemonComm::Rebase(RebaseOpts { forced });
    let (m, n) = applied(check_and_backup(&rebase(true), &curr, Ok(new.clone())));
    assert_eq!(m, "Forced Rebase is being applied.");
    assert_eq!(n.code, 23);
    assert_eq!(n.mode, ReconMode::Rebase);
    let data = n.rebase_data.unwrap();
    assert_eq!(data.get("a").unwrap().removed_inbounds[0].name, "day30");
    // Without force no inbound is removed.
    assert!(!refused(check_and_backup(&rebase(false), &curr, Ok(new))).is_empty());
}
