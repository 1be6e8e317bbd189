use xcplane::ansible::AnsibleAction::{
    Acme, AddInbound, Cloudflare, CloudflareDel, DelInbound, DnsReset, DoH, Fail2ban, Firewall, Nginx,
    OutblockedUpdate, PanelSettings, PortsCheck, XuiAuth, SSH,
};
use xcplane::ansible::{AnsibleAction, AnsibleConn};
use xcplane::cli::{ExpandOpts, RebaseOpts};
use xcplane::cloud::expand::{expand_cloud, Expansion, SetupTask};
use xcplane::cloud::rebase::{
    create_rebase_data, deploy_rebase, finish_rebase, rebase_actions, RebaseData,
};
use xcplane::cloud::reconcile::{deleted_servers, reconcile_cloud, ReconMode};
use xcplane::cloudflare::CFState;
use xcplane::constants::{
    default_dns_subdomain, default_mon_interval, default_outbound_block, default_ssh_port,
    default_sub_subdomain, default_threshold, default_true, default_ui_subdomain,
};
use xcplane::strmap::StrMap;
use xcplane::types::{
    AtomicServerState, Cloud, CloudSettings, Inbound, InboundKind, Ip, IpAddr, KetServer, Secrets,
    ServerState, XuiToken,
};

fn inbound(name: &str, port: u16) -> Inbound {
    Inbound {
        name: name.to_string(),
        port,
        kind: InboundKind::VlessXhttpTls,
        total: 10,
        traffic: 20,
        expiry: 3,
        comment: String::new(),
    }
}

fn no_secrets() -> Secrets {
    Secrets {
        health_path: String::new(),
        doh_endpoint: String::new(),
        xui_username: String::new(),
        xui_password: String::new(),
        xui_token: XuiToken::empty(),
        xui_webpath: String::new(),
        xui_subpath: String::new(),
        xui_jsubpath: String::new(),
        mother_subids: StrMap::new(),
    }
}

fn server(name: &str, last: u8) -> KetServer {
    KetServer {
        name: name.to_string(),
        ip: IpAddr { ip: Ip::V4(5, 9, 0, last), text: format!("5.9.0.{last}") },
        domain: format!("{name}.example.com"),
        region: KetServer::default_country_code(),
        state: AtomicServerState::new(ServerState::Offgrid),
        quota: 0,
        enabled: default_true(),
        ssh_port: default_ssh_port(),
        dns_subdomain: default_dns_subdomain(),
        ui_subdomain: default_ui_subdomain(),
        sub_subdomain: default_sub_subdomain(),
        cloudflare_proxied: false,
        inbounds: vec![],
        outbound_block: default_outbound_block(),
        ansible_conn: None,
        secrets: no_secrets(),
        cfstate: None,
    }
}

fn cloud(servers: Vec<KetServer>) -> Cloud {
    Cloud {
        servers,
        settings: CloudSettings {
            inbound_set: vec![inbound("day3", 2083), inbound("day30", 8443)],
            auto_fix: true,
            fix_threshold: default_threshold(),
            monitor_interval: default_mon_interval(),
        },
    }
}


fn production(name: &str, last: u8) -> KetServer {
    let mut s = server(name, last);
    s.state.store(ServerState::Production);
    s.inbounds = vec![inbound("day3", 2083), Inbound::super_inbound()];
    s.build_inventory();
    s.fill_secrets();
    s.secrets.xui_token = XuiToken::from(format!("token-{name}"));
    s.cfstate = Some(CFState {
        zone_name: "example.com".to_string(),
        zone_id: "z1".to_string(),
        too_deep: true,
        cloudflare_only: true,
        list_data: None,
    });
    s
}

fn fault<T>(r: Result<T, String>) -> String {
    match r {
        Err(e) => e,
        Ok(_) => panic!("it was accepted"),
    }
}

#[test]
fn an_empty_cloud_takes_the_declared_one() {
    let new = cloud(vec![server("a", 1), server("b", 2)]);
    let r = reconcile_cloud(&cloud(vec![]), &new, &ReconMode::Rebase).unwrap();
    assert_eq!(r.cloud.servers.len(), 2);
    assert!(r.to_rebase.is_empty());
}

#[test]
fn servers_are_added_and_deleted() {
    let old = cloud(vec![server("a", 1), server("b", 2)]);
    let new = cloud(vec![server("b", 2), server("c", 3)]);
    let r = reconcile_cloud(&old, &new, &ReconMode::Reload).unwrap();
    let names: Vec<&str> = r.cloud.servers.iter().map(|s| s.name.as_str()).collect();
    assert_eq!(names, ["b", "c"]);
    assert_eq!(deleted_servers(&old, &new), ["a"]);
}

#[test]
fn a_deleted_server_frees_its_place() {
    let old = cloud(vec![server("a", 1), server("b", 2)]);
    let mut c = server("c", 1);
    c.domain = "a.example.com".to_string();
    let new = cloud(vec![server("b", 2), c]);
    assert!(reconcile_cloud(&old, &new, &ReconMode::Reload).is_ok());
}

#[test]
fn an_added_server_needs_a_place_of_its_own() {
    let old = cloud(vec![server("a", 1)]);
    let mut b = server("b", 2);
    b.domain = "a.example.com".to_string();
    assert_eq!(
        fault(reconcile_cloud(&old, &cloud(vec![server("a", 1), b]), &ReconMode::Remap)),
        "[ Remap ] The new server 'b' has the same domain used in the current cloud."
    );
    assert_eq!(
        fault(reconcile_cloud(&old, &cloud(vec![server("a", 1), server("b", 1)]), &ReconMode::Rebase)),
        "[ Rebase ] The new server 'b' uses an existing IP in the cloud."
    );
}

#[test]
fn settings_come_from_the_declaration() {
    let old = cloud(vec![server("a", 1)]);
    let mut new = cloud(vec![server("a", 1)]);
    new.settings.auto_fix = false;
    new.settings.fix_threshold = 3;
    let r = reconcile_cloud(&old, &new, &ReconMode::Reload).unwrap();
    assert!(!r.cloud.settings.auto_fix);
    assert_eq!(r.cloud.settings.fix_threshold, 3);
}

#[test]
fn a_reload_takes_offgrid_servers_as_declared() {
    let mut a = server("a", 1);
    a.ssh_port = 91;
    let r = reconcile_cloud(&cloud(vec![server("a", 1)]), &cloud(vec![a]), &ReconMode::Reload).unwrap();
    assert_eq!(r.cloud.servers[0].ssh_port, 91);
}

#[test]
fn a_reload_leaves_production_servers_alone() {
    let mut a = production("a", 1);
    a.ssh_port = 91;
    a.enabled = false;
    a.domain = "other.com".to_string();
    let old = cloud(vec![production("a", 1)]);
    let r = reconcile_cloud(&old, &cloud(vec![a]), &ReconMode::Reload).unwrap();
    let s = &r.cloud.servers[0];
    assert_eq!(s.ssh_port, 79);
    assert_eq!(s.domain, "a.example.com");
    assert!(!s.enabled);
    assert_eq!(s.secrets.xui_password, old.servers[0].secrets.xui_password);
}

#[test]
fn a_reload_needs_the_inbounds_of_production_servers() {
    let mut new = cloud(vec![production("a", 1)]);
    new.settings.inbound_set = vec![inbound("day30", 8443)];
    assert_eq!(
        fault(reconcile_cloud(&cloud(vec![production("a", 1)]), &new, &ReconMode::Reload)),
        "[ Reload ] The existing server 'a' has inbound names that are not defined in the new \
         cloud inbound-set. You must add the missing ones. The server's inbounds: {(\"day3\", 2083)}"
    );
}

#[test]
fn uncovered_inbounds_are_listed_once() {
    let mut a = production("a", 1);
    a.inbounds = vec![
        inbound("day3", 2083),
        inbound("day3", 2083),
        Inbound::super_inbound(),
        inbound("day3", 2087),
        inbound("a \"b\"\n", 1),
    ];
    let mut new = cloud(vec![production("a", 1)]);
    new.settings.inbound_set = vec![inbound("day30", 8443)];
    let e = fault(reconcile_cloud(&cloud(vec![a]), &new, &ReconMode::Reload));
    let list = r#"{("day3", 2083), ("day3", 2087), ("a \"b\"\n", 1)}"#;
    assert!(e.ends_with(&format!("The server's inbounds: {list}")), "{e}");
}

#[test]
fn a_remap_takes_the_declaration_and_keeps_the_secrets() {
    let old = cloud(vec![production("a", 1)]);
    let mut a = production("a", 7);
    a.ssh_port = 91;
    a.state.store(ServerState::Offgrid);
    let r = reconcile_cloud(&old, &cloud(vec![a]), &ReconMode::Remap).unwrap();
    let s = &r.cloud.servers[0];
    assert_eq!(s.ssh_port, 91);
    assert_eq!(s.ip.text, "5.9.0.7");
    assert_eq!(s.state.load(), ServerState::Offgrid);
    assert_eq!(s.secrets.xui_password, old.servers[0].secrets.xui_password);
    assert_eq!(s.secrets.xui_token.0.as_deref(), Some("token-a"));
}

#[test]
fn a_rebase_refreshes_what_is_derived() {
    let old = cloud(vec![production("a", 1)]);
    let mut a = production("a", 7);
    a.dns_subdomain = "doh".to_string();
    a.ssh_port = 91;
    a.inbounds.insert(0, inbound("day30", 8443));
    a.build_inventory();
    a.fill_secrets();
    let r = reconcile_cloud(&old, &cloud(vec![a]), &ReconMode::Rebase).unwrap();
    let s = &r.cloud.servers[0];
    assert_eq!(r.to_rebase, [(0, 0)]);
    assert_eq!(s.secrets.xui_password, old.servers[0].secrets.xui_password);
    assert_eq!(s.secrets.doh_endpoint, old.servers[0].secrets.doh_endpoint);
    assert_ne!(s.secrets.health_path, old.servers[0].secrets.health_path);
    assert_eq!(
        s.secrets.mother_subids.get("day3"),
        old.servers[0].secrets.mother_subids.get("day3")
    );
    assert!(s.secrets.mother_subids.get("day30").is_some());
    // It is reached at the new address, and still at the old port.
    let conn = s.ansible_conn.as_ref().unwrap();
    assert_eq!(conn.ansible_host.as_deref(), Some("5.9.0.7"));
    assert_eq!(conn.ansible_port, Some(79));
}

#[test]
fn a_rebase_leaves_a_disabled_server_as_it_is() {
    let old = cloud(vec![production("a", 1)]);
    let mut a = production("a", 7);
    a.enabled = false;
    a.ssh_port = 91;
    let r = reconcile_cloud(&old, &cloud(vec![a]), &ReconMode::Rebase).unwrap();
    let s = &r.cloud.servers[0];
    assert!(!s.enabled);
    assert_eq!(s.ssh_port, 79);
    assert_eq!(s.ip.text, "5.9.0.1");
}

#[test]
fn a_rebase_to_production_needs_provisioning() {
    assert_eq!(
        fault(reconcile_cloud(
            &cloud(vec![server("a", 1)]),
            &cloud(vec![production("a", 1)]),
            &ReconMode::Rebase
        )),
        "'a' is not provisioned yet. Rebase to Production is invalid."
    );
}

#[test]
fn a_rebase_to_offgrid_is_a_remap() {
    let old = cloud(vec![production("a", 1)]);
    let r = reconcile_cloud(&old, &cloud(vec![server("a", 7)]), &ReconMode::Rebase).unwrap();
    assert!(r.to_rebase.is_empty());
    assert_eq!(r.cloud.servers[0].ip.text, "5.9.0.7");
    assert_eq!(r.cloud.servers[0].secrets.xui_token.0.as_deref(), Some("token-a"));
}

#[test]
fn a_second_reload_changes_nothing() {
    let old = cloud(vec![production("a", 1), server("b", 2)]);
    let mut b = server("b", 3);
    b.ssh_port = 80;
    let new = cloud(vec![production("a", 9), b]);
    let once = reconcile_cloud(&old, &new, &ReconMode::Reload).unwrap().cloud;
    let twice = reconcile_cloud(&once, &new, &ReconMode::Reload).unwrap().cloud;
    for (x, y) in once.servers.iter().zip(&twice.servers) {
        assert_eq!(x.name, y.name);
        assert_eq!(x.ip.text, y.ip.text);
        assert_eq!(x.ssh_port, y.ssh_port);
        assert_eq!(x.secrets.xui_password, y.secrets.xui_password);
    }
}

fn data_for(curr: KetServer, new: KetServer, forced: bool) -> Result<RebaseData, String> {
    let (curr, new) = (cloud(vec![curr]), cloud(vec![new]));
    let map = create_rebase_data(&curr, &new, &RebaseOpts { forced })?;
    Ok(map.get("a").unwrap().clone())
}

#[test]
fn nothing_changed_gives_empty_data() {
    let d = data_for(production("a", 1), production("a", 1), false).unwrap();
    assert!(d.added_inbounds.is_empty() && d.removed_inbounds.is_empty());
    assert_eq!(d.rebase_domain.zone, None);
    assert_eq!(d.rebase_domain.dns, None);
}

#[test]
fn a_new_server_gives_empty_data() {
    let d = {
        let (curr, new) = (cloud(vec![production("b", 2)]), cloud(vec![server("a", 1)]));
        create_rebase_data(&curr, &new, &RebaseOpts { forced: false }).unwrap()
    };
    let d = d.get("a").unwrap();
    assert!(d.added_inbounds.is_empty() && d.removed_inbounds.is_empty());
    assert_eq!(d.rebase_domain.sub, None);
}

#[test]
fn added_inbounds_are_listed() {
    let mut new = production("a", 1);
    new.inbounds.push(inbound("day30", 8443));
    let d = data_for(production("a", 1), new, false).unwrap();
    assert_eq!(d.added_inbounds.len(), 1);
    assert_eq!(d.added_inbounds[0].name, "day30");
}

#[test]
fn removed_inbounds_need_force() {
    let mut curr = production("a", 1);
    curr.inbounds.push(inbound("day30", 8443));
    assert_eq!(
        fault(data_for(curr.clone(), production("a", 1), false)),
        "Inbound deletion detected for server 'a'. Rebase must be invoked with forced (-f) flag \
         if you really intend to delete an inbound."
    );
    let d = data_for(curr, production("a", 1), true).unwrap();
    assert_eq!(d.removed_inbounds.len(), 1);
    assert_eq!(d.removed_inbounds[0].name, "day30");
}

#[test]
fn inbounds_are_immutable() {
    let mut new = production("a", 1);
    new.inbounds[0].total = 11;
    assert_eq!(
        fault(data_for(production("a", 1), new, true)),
        "Inbounds are immutable, but server 'a' has modified its 'day3' inbound in the new \
         cloud. Rebase will not be performed."
    );
}

#[test]
fn tls_inbounds_keep_their_host() {
    let mut new = production("a", 1);
    new.sub_subdomain = "xsub".to_string();
    assert_eq!(
        fault(data_for(production("a", 1), new, false)),
        "Inbound 'day3' in server 'a' is of TLS kind. Servers with TLS inbounds cannot change \
         their domain or subscription subdomain, because their TLS inbounds will have to change, too."
    );
}

#[test]
fn old_host_names_are_recorded() {
    let mut curr = production("a", 1);
    curr.inbounds[0].kind = InboundKind::VlessTcpReality;
    let mut new = curr.clone();
    new.ui_subdomain = "panel".to_string();
    let d = data_for(curr.clone(), new.clone(), false).unwrap().rebase_domain;
    assert_eq!(d.ui.as_deref(), Some("ui.a.example.com"));
    assert_eq!((d.dns.as_deref(), d.sub.as_deref()), (None, None));
    assert_eq!(d.zone.as_deref(), Some("example.com"));
    new.domain = "b.example.com".to_string();
    let d = data_for(curr.clone(), new.clone(), false).unwrap().rebase_domain;
    assert_eq!(d.dns.as_deref(), Some("dns.a.example.com"));
    assert_eq!(d.sub.as_deref(), Some("sub.a.example.com"));
    curr.cfstate = None;
    assert_eq!(fault(data_for(curr, new, false)), "Couldn't get CFState in create_rebase_data");
}

#[test]
fn actions_of_a_rebase() {
    let old = production("a", 1);
    let with = |f: fn(&mut KetServer)| {
        let mut new = production("a", 1);
        f(&mut new);
        rebase_actions(&old, &new, None).unwrap()
    };
    assert_eq!(with(|_| ()), []);
    assert_eq!(with(|s| s.quota = 9), []);
    assert_eq!(with(|s| s.region = "DE".to_string()), []);
    assert_eq!(with(|s| s.ip = server("a", 8).ip), [Cloudflare]);
    assert_eq!(
        with(|s| s.domain = "b.com".to_string()),
        [DnsReset, CloudflareDel, Cloudflare, Acme, Nginx, DoH]
    );
    assert_eq!(
        with(|s| s.dns_subdomain = "doh".to_string()),
        [DnsReset, CloudflareDel, Cloudflare, Nginx, DoH]
    );
    assert_eq!(with(|s| s.ui_subdomain = "x".to_string()), [CloudflareDel, Cloudflare, Nginx]);
    assert_eq!(
        with(|s| s.sub_subdomain = "x".to_string()),
        [CloudflareDel, Cloudflare, Nginx, XuiAuth, PanelSettings]
    );
    assert_eq!(with(|s| s.ssh_port = 91), [PortsCheck, Fail2ban, SSH]);
    assert_eq!(
        with(|s| s.cloudflare_proxied = true),
        [Cloudflare, Nginx, Fail2ban, Firewall]
    );
    assert_eq!(with(|s| s.outbound_block = vec!["CN".to_string()]), [OutblockedUpdate]);
    // The order of the blocked countries does not count.
    assert_eq!(with(|s| s.outbound_block.reverse()), []);
    // A disabled server is skipped.
    assert_eq!(
        with(|s| {
            s.enabled = false;
            s.ssh_port = 91;
        }),
        []
    );
}

#[test]
fn inbounds_are_removed_before_others_are_added() {
    let s = production("a", 1);
    let mut d = data_for(production("a", 1), production("a", 1), false).unwrap();
    d.added_inbounds.push(inbound("x", 2087));
    assert_eq!(rebase_actions(&s, &s, Some(&d)).unwrap(), [PortsCheck, XuiAuth, AddInbound]);
    d.removed_inbounds.push(inbound("y", 2096));
    assert_eq!(
        rebase_actions(&s, &s, Some(&d)).unwrap(),
        [PortsCheck, XuiAuth, DelInbound, AddInbound]
    );
}

#[test]
fn a_rebase_needs_the_cloudflare_states() {
    let mut bare = production("a", 1);
    bare.cfstate = None;
    assert_eq!(
        fault(rebase_actions(&bare, &production("a", 1), None)),
        "Couldn't take a reference to the CFState struct."
    );
}

#[test]
fn only_changed_servers_are_rebased() {
    let old = cloud(vec![production("a", 1), production("b", 2)]);
    let mut merged = cloud(vec![production("a", 1), production("b", 2)]);
    merged.servers[1].ssh_port = 91;
    let data = create_rebase_data(&old, &merged, &RebaseOpts { forced: false }).unwrap();
    let runs = deploy_rebase(&old, &merged, &vec![(0, 0), (1, 1)], &Some(data)).unwrap();
    assert_eq!(runs.len(), 2);
    assert_eq!((runs[0].server, runs[1].server), (0, 1));
    assert!(runs[0].actions.is_empty());
    assert_eq!(
        runs[1].actions,
        [AnsibleAction::PortsCheck, AnsibleAction::Fail2ban, AnsibleAction::SSH]
    );
    assert!(runs[1].rebase_data.is_some());
    assert_eq!(
        fault(deploy_rebase(&old, &merged, &vec![(0, 0)], &None)),
        "RebaseData is empty in a Rebase action."
    );
}

#[test]
fn the_connection_follows_the_new_port() {
    let mut s = production("a", 1);
    s.ssh_port = 91;
    let conn: AnsibleConn = finish_rebase(&s, true).unwrap();
    assert_eq!(conn.ansible_port, Some(91));
    assert_eq!(conn.ansible_host.as_deref(), Some("5.9.0.1"));
    assert_eq!(
        fault(finish_rebase(&s, false)),
        "Rebase failed because remote action on server 'a' encountered an error."
    );
    s.ansible_conn = None;
    assert_eq!(fault(finish_rebase(&s, true)), "Couldn't unwrap AnsibleConn in deploy_rebase.");
}

fn expand(c: &Cloud, name: Option<&str>, setup: Option<SetupTask>) -> Result<Expansion, String> {
    expand_cloud(c, &ExpandOpts { server: name.map(|n| n.to_string()) }, &setup)
}

#[test]
fn a_fresh_server_is_found() {
    let mut disabled = server("b", 2);
    disabled.enabled = false;
    let c = cloud(vec![production("a", 1), disabled, server("c", 3)]);
    match expand(&c, None, None) {
        Ok(Expansion::Start(i, m)) => {
            assert_eq!(i, 2);
            assert_eq!(m, "Server 'c' is being provisioned to become Production.");
        }
        _ => panic!("no setup was started"),
    }
    assert_eq!(
        fault(expand(&cloud(vec![production("a", 1)]), None, None)),
        "No fresh, enabled and offgrid server is available for setup. Add a new server to the \
         cloud config and reload the daemon."
    );
}

#[test]
fn a_named_server_is_checked() {
    let mut disabled = server("b", 2);
    disabled.enabled = false;
    let mut before = server("d", 4);
    before.secrets.xui_token = XuiToken::from("t".to_string());
    let c = cloud(vec![production("a", 1), disabled, server("c", 3), before]);
    assert_eq!(fault(expand(&c, Some("x"), None)), "A server with name 'x' does not exist in the cloud.");
    assert_eq!(fault(expand(&c, Some("b"), None)), "Server 'b' is not enabled.");
    assert_eq!(fault(expand(&c, Some("a"), None)), "Server 'a' is already a production unit.");
    assert_eq!(
        fault(expand(&c, Some("d"), None)),
        "Server 'd' has been a production unit before. Do a Reload first, to refresh the secrets."
    );
    assert!(matches!(expand(&c, Some("c"), None), Ok(Expansion::Start(2, _))));
}

#[test]
fn one_setup_at_a_time() {
    let c = cloud(vec![server("a", 1)]);
    let running = SetupTask { server: "z".to_string(), finished: false };
    match expand(&c, None, Some(running)) {
        Ok(Expansion::Running(m)) => assert_eq!(
            m,
            "Expansion in progress: full setup is already running for server 'z'"
        ),
        _ => panic!("a second setup was started"),
    }
    let over = SetupTask { server: "z".to_string(), finished: true };
    assert!(matches!(expand(&c, None, Some(over)), Ok(Expansion::Start(0, _))));
}

#[test]
fn provisioning_again_takes_a_remap_and_a_reload() {
    let mut declared = server("a", 1);
    declared.fill_secrets();
    let new = cloud(vec![declared]);
    let remapped = reconcile_cloud(&cloud(vec![production("a", 1)]), &new, &ReconMode::Remap);
    let c = remapped.unwrap().cloud;
    assert_eq!(c.servers[0].state.load(), ServerState::Offgrid);
    assert_eq!(
        fault(expand(&c, Some("a"), None)),
        "Server 'a' has been a production unit before. Do a Reload first, to refresh the secrets."
    );
    let c = reconcile_cloud(&c, &new, &ReconMode::Reload).unwrap().cloud;
    assert!(matches!(expand(&c, Some("a"), None), Ok(Expansion::Start(0, _))));
}
