use xcplane::cloud::config::parse_cloud_config;
use xcplane::constants::{
    default_dns_subdomain, default_mon_interval, default_outbound_block, default_ssh_port,
    default_sub_subdomain, default_threshold, default_true, default_ui_subdomain,
};
use xcplane::db::{
    backup_name, default_options, delete_inbounds_sql, delete_servers_sql, delete_stats_sql,
    holders, inbound_rows, initial_status, load_cloud, load_server, load_settings, parse_flag,
    parse_number, read_status_data, restore_config, server_row, stored_options, update_db,
    write_status_data, StoredOptions, StoredServer,
};
use xcplane::document::{backup_text, mark_production};
use xcplane::strmap::StrMap;
use xcplane::types::{
    AtomicServerState, Cloud, CloudSettings, Inbound, InboundKind, Ip, IpAddr, KetServer, Secrets,
    ServerState, SvcEntry, SvcHealth, SvcInfo, SvcKind, SvcStatus, XuiToken,
};

fn inbound(name: &str, port: u16) -> Inbound {
    Inbound {
        name: name.to_string(),
        port,
        kind: InboundKind::VlessXhttpTls,
        total: 10,
        traffic: 20,
        expiry: 3,
        comment: String::new(),
    }
}

fn no_secrets() -> Secrets {
    Secrets {
        health_path: String::new(),
        doh_endpoint: String::new(),
        xui_username: String::new(),
        xui_password: String::new(),
        xui_token: XuiToken::empty(),
        xui_webpath: String::new(),
        xui_subpath: String::new(),
        xui_jsubpath: String::new(),
        mother_subids: StrMap::new(),
    }
}

fn server(name: &str, last: u8) -> KetServer {
    KetServer {
        name: name.to_string(),
        ip: IpAddr { ip: Ip::V4(5, 9, 0, last), text: format!("5.9.0.{last}") },
        domain: format!("{name}.example.com"),
        region: KetServer::default_country_code(),
        state: AtomicServerState::new(ServerState::Offgrid),
        quota: 0,
        enabled: default_true(),
        ssh_port: default_ssh_port(),
        dns_subdomain: default_dns_subdomain(),
        ui_subdomain: default_ui_subdomain(),
        sub_subdomain: default_sub_subdomain(),
        cloudflare_proxied: false,
        inbounds: vec![],
        outbound_block: default_outbound_block(),
        ansible_conn: None,
        secrets: no_secrets(),
        cfstate: None,
    }
}

fn cloud(servers: Vec<KetServer>) -> Cloud {
    Cloud {
        servers,
        settings: CloudSettings {
            inbound_set: vec![inbound("day3", 2083), inbound("day30", 8443)],
            auto_fix: true,
            fix_threshold: default_threshold(),
            monitor_interval: default_mon_interval(),
        },
    }
}


fn built() -> KetServer {
    let mut s = server("a", 1);
    s.inbounds = vec![inbound("day3", 2083)];
    s.cloudflare_proxied = true;
    s.quota = 500;
    let mut c = parse_cloud_config(&cloud(vec![s])).unwrap();
    c.servers.pop().unwrap()
}

fn failure(r: Result<KetServer, String>) -> String {
    match r {
        Err(e) => e,
        Ok(_) => panic!("the server was read"),
    }
}

#[test]
fn a_stored_server_reads_back() {
    let mut s = built();
    s.state.store(ServerState::Production);
    s.secrets.xui_token = XuiToken::from("token".to_string());
    let rows = inbound_rows(&s).unwrap();
    assert_eq!(rows.len(), 2);
    assert_eq!((rows[0].inbound_group.as_str(), rows[0].port, rows[0].traffic), ("day3", 2083, 20));
    assert_eq!(rows[0].kind, "VlessXhttpTls");
    let row = server_row(&s).unwrap();
    assert_eq!(row.outbound_block, "[\"CN\",\"IR\",\"RU\"]");
    assert_eq!((row.enabled, row.cloudflare_proxied, row.quota), (1, 1, 500));
    assert_eq!((row.state.as_str(), row.ip_text.as_str()), ("Production", "5.9.0.1"));
    let r = load_server(row, &rows).unwrap();
    assert_eq!(r.name, s.name);
    assert_eq!(r.ip.ip, s.ip.ip);
    assert_eq!(r.domain, s.domain);
    assert_eq!(r.region, "US");
    assert_eq!(r.state.load(), ServerState::Production);
    assert_eq!((r.quota, r.enabled, r.ssh_port), (500, true, 79));
    assert!(r.cloudflare_proxied);
    assert_eq!(r.outbound_block, ["CN", "IR", "RU"]);
    assert!(r.inbounds == s.inbounds);
    assert_eq!(r.secrets.xui_password, s.secrets.xui_password);
    assert_eq!(r.secrets.xui_token.0.as_deref(), Some("token"));
    for i in &s.inbounds {
        assert_eq!(
            r.secrets.mother_subids.get(&i.name).unwrap(),
            s.secrets.mother_subids.get(&i.name).unwrap()
        );
    }
    let conn = r.ansible_conn.unwrap();
    assert_eq!(conn.ansible_host.as_deref(), Some("5.9.0.1"));
    assert_eq!(conn.ansible_port, Some(79));
    assert_eq!(conn.ansible_user.as_deref(), Some("root"));
    assert!(r.cfstate.is_none());
}

#[test]
fn faulty_rows() {
    let s = built();
    let rows = || inbound_rows(&s).unwrap();
    let row = || server_row(&s).unwrap();
    let mut r = row();
    r.ip = Err("invalid IP address syntax".to_string());
    assert_eq!(failure(load_server(r, &rows())), "invalid IP address syntax");
    let mut r = row();
    r.domain = "a b".to_string();
    assert_eq!(failure(load_server(r, &rows())), "invalid international domain name");
    let mut r = row();
    r.domain = "A.Example.COM".to_string();
    assert_eq!(load_server(r, &rows()).unwrap().domain, "a.example.com");
    let mut r = row();
    r.region = "us".to_string();
    assert!(load_server(r, &rows()).is_err());
    let mut r = row();
    r.region = "XX".to_string();
    assert!(load_server(r, &rows()).is_err());
    let mut r = row();
    r.state = "Gone".to_string();
    assert_eq!(failure(load_server(r, &rows())), "Matching variant not found");
    let mut r = row();
    r.outbound_block = String::new();
    assert_eq!(
        failure(load_server(r, &rows())),
        "EOF while parsing a value at line 1 column 0"
    );
    let mut r = row();
    r.outbound_block = "[\"CN\",\"XX\"]".to_string();
    assert_eq!(
        failure(load_server(r, &rows())),
        "invalid value: string \"XX\", expected an ISO 3166-1 compliant alpha-2 country code \
         at line 1 column 10"
    );
    let mut r = row();
    r.state = "Gone".to_string();
    r.outbound_block = String::new();
    assert_eq!(failure(load_server(r, &rows())), "Matching variant not found");
    let mut bad = rows();
    bad[1].kind = "VMESS".to_string();
    assert_eq!(failure(load_server(row(), &bad)), "Matching variant not found");
}

#[test]
fn blocked_countries_are_stored_as_json() {
    let mut s = built();
    s.outbound_block = vec![];
    let row = server_row(&s).unwrap();
    assert_eq!(row.outbound_block, "[]");
    assert!(load_server(row, &vec![]).unwrap().outbound_block.is_empty());
    s.outbound_block = vec!["DE".to_string(), "CN".to_string(), "DE".to_string()];
    let row = server_row(&s).unwrap();
    assert_eq!(row.outbound_block, "[\"DE\",\"CN\",\"DE\"]");
    assert_eq!(load_server(row, &vec![]).unwrap().outbound_block, ["DE", "CN", "DE"]);
    let mut row = server_row(&s).unwrap();
    row.outbound_block = " [ \"de\", \"Cn\" ] ".to_string();
    assert_eq!(load_server(row, &vec![]).unwrap().outbound_block, ["DE", "CN"]);
    s.outbound_block.push("cn".to_string());
    assert_eq!(
        server_row(&s).err().unwrap(),
        "invalid alpha-2 country code string: cn"
    );
    let u = update_db(&cloud(vec![s]));
    assert!(u.servers[0].row.is_err());
    assert_eq!(u.names, ["a"]);
}

#[test]
fn an_inbound_is_stored_with_its_subid() {
    let mut s = built();
    s.inbounds.push(inbound("extra", 8443));
    match inbound_rows(&s) {
        Err(e) => assert_eq!(e, "Missing mother_subid for inbound extra in server a"),
        Ok(_) => panic!("there is no subid"),
    }
}

#[test]
fn stored_numbers_and_flags() {
    assert_eq!(parse_number("0"), Ok(0));
    assert_eq!(parse_number("+60"), Ok(60));
    assert_eq!(parse_number("007"), Ok(7));
    assert_eq!(parse_number("18446744073709551615"), Ok(u64::MAX));
    let err = |s: &str| parse_number(s).unwrap_err();
    assert_eq!(err(""), "cannot parse integer from empty string");
    assert_eq!(err("+"), "invalid digit found in string");
    assert_eq!(err("-1"), "invalid digit found in string");
    assert_eq!(err("1x"), "invalid digit found in string");
    assert_eq!(err("18446744073709551616"), "number too large to fit in target type");
    for s in ["", "+", "++1", "-", " 1", "99999999999999999999x", "184467440737095516150"] {
        assert_eq!(parse_number(s), s.parse::<u64>().map_err(|e| e.to_string()), "{s}");
    }
    assert_eq!(parse_flag("true"), Ok(true));
    assert_eq!(parse_flag("false"), Ok(false));
    assert_eq!(parse_flag("True"), Err("provided string was not `true` or `false`".to_string()));
}

#[test]
fn stored_options_read_back() {
    let c = cloud(vec![]);
    let o = stored_options(&c.settings);
    assert_eq!([&o.auto_fix, &o.fix_threshold, &o.monitor_interval], ["true", "10", "60"]);
    let d = default_options();
    assert_eq!([&d.auto_fix, &d.fix_threshold, &d.monitor_interval], ["true", "10", "60"]);
    let s = load_settings(vec![inbound("day3", 2083)], &o).unwrap();
    assert_eq!((s.auto_fix, s.fix_threshold, s.monitor_interval), (true, 10, 60));
    assert_eq!(s.inbound_set.len(), 1);
    let with = |a: &str, b: &str, c: &str| StoredOptions {
        auto_fix: a.to_string(),
        fix_threshold: b.to_string(),
        monitor_interval: c.to_string(),
    };
    let err = |o: StoredOptions| match load_settings(vec![], &o) {
        Err(e) => e,
        Ok(_) => panic!("the options were read"),
    };
    assert_eq!(err(with("no", "x", "")), "provided string was not `true` or `false`");
    assert_eq!(err(with("true", "x", "")), "invalid digit found in string");
    assert_eq!(err(with("true", "1", "")), "cannot parse integer from empty string");
}

#[test]
fn statements_that_remove() {
    assert_eq!(holders(0), "");
    assert_eq!(holders(3), "?,?,?");
    assert_eq!(delete_servers_sql(0), "DELETE FROM servers");
    assert_eq!(delete_servers_sql(2), "DELETE FROM servers WHERE name NOT IN (?,?)");
    assert_eq!(
        delete_inbounds_sql(1),
        "DELETE FROM inbounds WHERE server_name = ? AND inbound_group NOT IN (?)"
    );
    assert_eq!(
        delete_stats_sql(2),
        "DELETE FROM stats WHERE server_name = ? AND service NOT IN (?,?)"
    );
}

#[test]
fn what_is_stored_of_a_cloud() {
    let mut s = server("a", 1);
    s.inbounds = vec![inbound("day3", 2083)];
    let mut c = parse_cloud_config(&cloud(vec![s, server("b", 2)])).unwrap();
    c.settings.auto_fix = false;
    let u = update_db(&c);
    assert_eq!(u.options.auto_fix, "false");
    assert_eq!(u.names, ["a", "b"]);
    assert_eq!(u.delete_servers, "DELETE FROM servers WHERE name NOT IN (?,?)");
    assert_eq!(u.servers.len(), 2);
    let a = &u.servers[0];
    assert_eq!(a.row.as_ref().unwrap().name, "a");
    assert_eq!(a.inbounds.as_ref().unwrap().len(), a.inbound_names.len());
    assert_eq!(a.inbound_names, ["day3", "super"]);
    assert_eq!(a.services, ["ssh", "nginx", "xray_day3", "xray_super"]);
    assert!(a.delete_inbounds.ends_with("NOT IN (?,?)"));
    assert!(a.delete_stats.ends_with("NOT IN (?,?,?,?)"));
}

#[test]
fn a_provisioned_server_is_production() {
    let mut s = built();
    assert_eq!(s.ansible_conn.as_ref().unwrap().ansible_port, Some(22));
    assert_eq!(s.mark_production("token".to_string()), Ok(()));
    assert_eq!(s.state.load(), ServerState::Production);
    assert_eq!(s.secrets.xui_token.0.as_deref(), Some("token"));
    assert_eq!(s.ansible_conn.as_ref().unwrap().ansible_port, Some(79));
    // The token is set once.
    assert_eq!(s.mark_production("other".to_string()), Err("other".to_string()));
    assert_eq!(s.secrets.xui_token.0.as_deref(), Some("token"));
    let mut s = built();
    s.ansible_conn = None;
    assert_eq!(
        s.mark_production("token".to_string()),
        Err("Couldn't get AnsibleConn in mark_server_production.".to_string())
    );
}

#[test]
fn stored_statuses() {
    let s = read_status_data("Sick", 3, 1700000000, 1).unwrap();
    assert_eq!((s.health, s.failed_count, s.failed_since, s.fix_try), (SvcHealth::Sick, 3, 1700000000, 1));
    match read_status_data("sick", 0, 0, 0) {
        Err(e) => assert_eq!(e, "Matching variant not found"),
        Ok(_) => panic!("there is no such health"),
    }
    let status = SvcStatus { health: SvcHealth::Healthy, failed_count: 1, failed_since: 2, fix_try: 3 };
    let kind = SvcKind::Xray("day3".to_string());
    let info = SvcInfo { server: server("a", 1), port: 10000, kind, link: None };
    let row = write_status_data(&SvcEntry { info, status });
    assert_eq!(row.server_name, "a");
    assert_eq!(row.service, "xray_day3");
    assert_eq!(row.health, "Ok");
    assert_eq!((row.failed_count, row.failed_since, row.fix_try), (1, 2, 3));
    let s = initial_status();
    assert_eq!((s.health, s.failed_count, s.failed_since, s.fix_try), (SvcHealth::Unknown, 0, 0, 0));
}

#[test]
fn backups_of_the_configuration() {
    assert_eq!(
        backup_name("Reload", "2026_08_09_11_54_28", "toml"),
        "cloud-Reload-2026_08_09_11_54_28.toml"
    );
    assert_eq!(restore_config("a = 1\n".to_string()), Ok("a = 1\n".to_string()));
    assert_eq!(
        restore_config(" \n\t".to_string()),
        Err("No cloud config has been backed up to DB yet.".to_string())
    );
}

const CONFIG: &str = "# The cloud.
auto_fix = true

[[servers]]
name = \"a\" # the first
state = \"Offgrid\"

[[servers.inbounds]]
name = \"day3\"

[[servers.inbounds]]
name = \"super\"

[[servers]]
name = \"b\"
";

#[test]
fn a_server_is_marked_in_the_configuration() {
    assert_eq!(
        mark_production(CONFIG, "a").unwrap(),
        CONFIG.replace("\"Offgrid\"", "\"Production\"")
    );
    let b = mark_production(CONFIG, "b").unwrap();
    assert_eq!(b, format!("{CONFIG}state = \"Production\"\n"));
    // One that is not declared leaves the configuration as it is.
    assert_eq!(mark_production(CONFIG, "c").unwrap(), CONFIG);
}

#[test]
fn a_backup_leaves_the_supervisor_out() {
    assert_eq!(
        backup_text(CONFIG).unwrap(),
        CONFIG.replace("\n[[servers.inbounds]]\nname = \"super\"\n", "")
    );
}

#[test]
fn a_configuration_has_servers() {
    let none = Err("servers must be an array of tables in cloud config.".to_string());
    assert_eq!(mark_production("servers = 1\n", "a"), none);
    assert_eq!(backup_text("auto_fix = true\n"), none);
    assert!(mark_production("servers = [", "a").is_err());
    assert!(backup_text("= 1").is_err());
}

fn stored(s: &KetServer) -> StoredServer {
    StoredServer { row: server_row(s).unwrap(), inbounds: inbound_rows(s).unwrap() }
}

fn cloud_failure(r: Result<Cloud, String>) -> String {
    match r {
        Err(e) => e,
        Ok(_) => panic!("the cloud was read"),
    }
}

#[test]
fn a_stored_cloud_reads_back() {
    let c = parse_cloud_config(&cloud(vec![server("a", 1), server("b", 2)])).unwrap();
    let rows = vec![stored(&c.servers[0]), stored(&c.servers[1])];
    let set = c.settings.inbound_set.clone();
    let r = load_cloud(rows, Ok(set), &stored_options(&c.settings)).unwrap();
    assert_eq!(r.servers.len(), 2);
    for (x, y) in r.servers.iter().zip(&c.servers) {
        assert_eq!((&x.name, &x.domain), (&y.name, &y.domain));
        assert_eq!(x.secrets.xui_username, y.secrets.xui_username);
        assert!(x.inbounds == y.inbounds);
    }
    assert!(r.settings.inbound_set == c.settings.inbound_set);
    assert!(r.settings.auto_fix);
    assert_eq!(r.settings.fix_threshold, c.settings.fix_threshold);
    assert_eq!(r.settings.monitor_interval, c.settings.monitor_interval);
}

#[test]
fn an_empty_cloud_is_stored_at_first() {
    let r = load_cloud(vec![], Ok(vec![]), &default_options()).unwrap();
    assert!(r.servers.is_empty());
    assert!(r.settings.inbound_set.is_empty());
}

#[test]
fn faults_of_a_stored_cloud() {
    let s = built();
    let faulty = StoredOptions {
        auto_fix: "yes".to_string(),
        fix_threshold: "5".to_string(),
        monitor_interval: "x".to_string(),
    };
    let mut broken = stored(&s);
    broken.row.state = "Elsewhere".to_string();
    let e = load_cloud(vec![stored(&s), broken], Err("set".to_string()), &faulty);
    assert_eq!(cloud_failure(e), "Matching variant not found");
    let e = load_cloud(vec![stored(&s)], Err("set".to_string()), &faulty);
    assert_eq!(cloud_failure(e), "set");
    let e = load_cloud(vec![stored(&s)], Ok(vec![]), &faulty);
    assert_eq!(cloud_failure(e), "provided string was not `true` or `false`");
    let faulty = StoredOptions { auto_fix: "true".to_string(), ..faulty };
    let e = load_cloud(vec![stored(&s)], Ok(vec![]), &faulty);
    assert_eq!(cloud_failure(e), "invalid digit found in string");
}

#[test]
fn an_update_loads_back_in_any_order() {
    let c = parse_cloud_config(&cloud(vec![server("a", 1), server("b", 2)])).unwrap();
    let u = update_db(&c);
    let mut rows: Vec<StoredServer> = Vec::new();
    for s in u.servers {
        let mut inbounds = s.inbounds.unwrap();
        inbounds.reverse();
        rows.insert(0, StoredServer { row: s.row.unwrap(), inbounds });
    }
    let d = load_cloud(rows, Ok(c.settings.inbound_set.clone()), &u.options).unwrap();
    let names: Vec<&str> = d.servers.iter().map(|s| s.name.as_str()).collect();
    assert_eq!(names, ["b", "a"]);
    for s in &d.servers {
        let t = c.servers.iter().find(|t| t.name == s.name).unwrap();
        assert_eq!((&s.domain, s.ip.ip, s.ssh_port), (&t.domain, t.ip.ip, t.ssh_port));
        assert_eq!(s.secrets.xui_subpath, t.secrets.xui_subpath);
        assert_eq!(s.inbounds.len(), t.inbounds.len());
        for i in &t.inbounds {
            assert!(s.inbounds.contains(i));
            assert_eq!(s.secrets.mother_subids.get(&i.name), t.secrets.mother_subids.get(&i.name));
        }
        assert!(s.cfstate.is_none());
    }
    assert_eq!(d.settings.fix_threshold, c.settings.fix_threshold);
    assert_eq!(d.settings.monitor_interval, c.settings.monitor_interval);
}
