use xcplane::cloud::config::{is_global, parse_cloud_config};
use xcplane::constants::{
    default_dns_subdomain, default_mon_interval, default_outbound_block, default_ssh_port,
    default_sub_subdomain, default_threshold, default_true, default_ui_subdomain,
};
use xcplane::strmap::StrMap;
use xcplane::types::{
    AtomicServerState, Cloud, CloudSettings, Inbound, InboundKind, Ip, IpAddr, KetServer, Secrets,
    ServerState, XuiToken,
};

fn inbound(name: &str, port: u16) -> Inbound {
    Inbound {
        name: name.to_string(),
        port,
        kind: InboundKind::VlessXhttpTls,
        total: 10,
        traffic: 20,
        expiry: 3,
        comment: String::new(),
    }
}

fn no_secrets() -> Secrets {
    Secrets {
        health_path: String::new(),
        doh_endpoint: String::new(),
        xui_username: String::new(),
        xui_password: String::new(),
        xui_token: XuiToken::empty(),
        xui_webpath: String::new(),
        xui_subpath: String::new(),
        xui_jsubpath: String::new(),
        mother_subids: StrMap::new(),
    }
}

fn server(name: &str, last: u8) -> KetServer {
    KetServer {
        name: name.to_string(),
        ip: IpAddr { ip: Ip::V4(5, 9, 0, last), text: format!("5.9.0.{last}") },
        domain: format!("{name}.example.com"),
        region: KetServer::default_country_code(),
        state: AtomicServerState::new(ServerState::Offgrid),
        quota: 0,
        enabled: default_true(),
        ssh_port: default_ssh_port(),
        dns_subdomain: default_dns_subdomain(),
        ui_subdomain: default_ui_subdomain(),
        sub_subdomain: default_sub_subdomain(),
        cloudflare_proxied: false,
        inbounds: vec![],
        outbound_block: default_outbound_block(),
        ansible_conn: None,
        secrets: no_secrets(),
        cfstate: None,
    }
}

fn cloud(servers: Vec<KetServer>) -> Cloud {
    Cloud {
        servers,
        settings: CloudSettings {
            inbound_set: vec![inbound("day3", 2083), inbound("day30", 8443)],
            auto_fix: true,
            fix_threshold: default_threshold(),
            monitor_interval: default_mon_interval(),
        },
    }
}

fn fault(c: &Cloud) -> String {
    match parse_cloud_config(c) {
        Err(e) => e,
        Ok(_) => panic!("the configuration was accepted"),
    }
}

#[test]
fn defaults() {
    assert_eq!(default_ssh_port(), 79);
    assert_eq!(default_mon_interval(), 60);
    assert_eq!(default_threshold(), 10);
    assert_eq!(default_dns_subdomain(), "dns");
    assert_eq!(default_ui_subdomain(), "ui");
    assert_eq!(default_sub_subdomain(), "sub");
    assert_eq!(default_outbound_block(), vec!["CN", "IR", "RU"]);
    assert_eq!(KetServer::default_country_code(), "US");
}

#[test]
fn a_server_without_inbounds_takes_the_set() {
    let built = parse_cloud_config(&cloud(vec![server("a", 1)])).unwrap();
    let s = &built.servers[0];
    let names: Vec<&str> = s.inbounds.iter().map(|i| i.name.as_str()).collect();
    assert_eq!(names, ["day3", "day30", "super"]);
    assert_eq!(s.inbounds[2].port, 0);
    let conn = s.ansible_conn.as_ref().unwrap();
    assert_eq!(conn.ansible_host.as_deref(), Some("5.9.0.1"));
    assert_eq!(conn.ansible_port, Some(22));
    assert_eq!(conn.ansible_user, Some("root"));
    assert_eq!(conn.ansible_connection, None);
    for name in ["day3", "day30", "super"] {
        assert!(s.secrets.mother_subids.get(name).is_some(), "{name}");
    }
    assert!(s.secrets.xui_token.is_none());
    assert!(!s.secrets.health_path.is_empty());
}

#[test]
fn a_production_server_is_reached_at_its_own_port() {
    let mut s = server("a", 1);
    s.state.store(ServerState::Production);
    let built = parse_cloud_config(&cloud(vec![s])).unwrap();
    let conn = built.servers[0].ansible_conn.as_ref().unwrap();
    assert_eq!(conn.ansible_port, Some(79));
}

#[test]
fn a_server_keeps_its_own_inbounds() {
    let mut s = server("a", 1);
    s.inbounds = vec![inbound("day30", 8443)];
    s.inbounds[0].total = 1000;
    let built = parse_cloud_config(&cloud(vec![s])).unwrap();
    let inbounds = &built.servers[0].inbounds;
    assert_eq!(inbounds.len(), 2);
    assert_eq!(inbounds[0].name, "day30");
    assert_eq!(inbounds[0].total, 1000);
    assert_eq!(inbounds[1].name, "super");
}

#[test]
fn the_interval_has_a_minimum() {
    let mut c = cloud(vec![]);
    c.settings.monitor_interval = 5;
    assert_eq!(parse_cloud_config(&c).unwrap().settings.monitor_interval, 21);
    c.settings.monitor_interval = 120;
    assert_eq!(parse_cloud_config(&c).unwrap().settings.monitor_interval, 120);
}

#[test]
fn the_set_must_not_be_empty() {
    let mut c = cloud(vec![]);
    c.settings.inbound_set.clear();
    assert_eq!(fault(&c), "[ Cloud Config ] The cloud inbound-set cannot be empty.");
}

#[test]
fn the_set_has_proper_names() {
    let mut c = cloud(vec![]);
    c.settings.inbound_set[0].name = "3-day".to_string();
    assert_eq!(
        fault(&c),
        "[ Cloud Config ] The inbound-set name '3-day' is not a proper name. \
         A valid name can be '3_day'"
    );
}

#[test]
fn the_set_has_unique_names_and_ports() {
    let mut c = cloud(vec![]);
    c.settings.inbound_set[1].name = "day3".to_string();
    assert_eq!(fault(&c), "[ Cloud Config ] The cloud inbound-set names are not unique.");
    let mut c = cloud(vec![]);
    c.settings.inbound_set[1].port = 2083;
    assert_eq!(fault(&c), "[ Cloud Config ] The cloud inbound-set ports are not unique.");
}

#[test]
fn the_set_has_no_reserved_name_or_port() {
    let mut c = cloud(vec![]);
    c.settings.inbound_set[1].name = "super".to_string();
    assert_eq!(
        fault(&c),
        "[ Cloud Config ] The cloud inbound-set names have 'super' which is a reserved keyword."
    );
    for port in [79, 443, 400, 401, 444] {
        let mut c = cloud(vec![]);
        c.settings.inbound_set[1].port = port;
        assert_eq!(
            fault(&c),
            format!(
                "[ Cloud Config ] {port} is a reserved port and should not be duplicated or used \
                 for the cloud inbound-set ports."
            )
        );
    }
}

#[test]
fn server_names_are_proper_and_unique() {
    assert_eq!(
        fault(&cloud(vec![server("a.b", 1)])),
        "[ Cloud Config ] The server name 'a.b' is not a proper name. A valid name can be 'a_b'"
    );
    let mut twin = server("b", 2);
    twin.name = "a".to_string();
    assert_eq!(
        fault(&cloud(vec![server("a", 1), twin])),
        "[ Cloud Config ] Server names are not unique."
    );
}

#[test]
fn domains_and_addresses_are_unique() {
    let mut b = server("b", 2);
    b.domain = "a.example.com".to_string();
    assert_eq!(
        fault(&cloud(vec![server("a", 1), b])),
        "[ Cloud Config ] Domain names are not unique."
    );
    assert_eq!(
        fault(&cloud(vec![server("a", 1), server("b", 1)])),
        "[ Cloud Config ] Servers IPs are not unique."
    );
}

#[test]
fn addresses_are_global() {
    let mut s = server("a", 1);
    s.ip = IpAddr { ip: Ip::V4(192, 168, 0, 1), text: "192.168.0.1".to_string() };
    assert_eq!(fault(&cloud(vec![s])), "[ Cloud Config ] Server a has a non-global IP.");
}

#[test]
fn subdomains_are_proper_and_unique() {
    let mut s = server("a", 1);
    s.ui_subdomain = "UI".to_string();
    assert_eq!(
        fault(&cloud(vec![s])),
        "'UI' is not a proper subdomain. A subdomain must be lowercase and start and end with an \
         ASCII alphanumeric character, and only hyphen is allowed in the middle."
    );
    let mut s = server("a", 1);
    s.dns_subdomain = "sub".to_string();
    assert_eq!(fault(&cloud(vec![s])), "'sub' is not a unique subdomain in server 'a'.");
}

#[test]
fn inbounds_of_a_server_are_checked() {
    let mut s = server("a", 1);
    s.inbounds = vec![inbound("super", 2083)];
    assert_eq!(
        fault(&cloud(vec![s])),
        "[ Cloud Config ] The inbound names for the server 'a' are not unique, or one is named \
         'super' which is a reserved keyword."
    );
    let mut s = server("a", 1);
    s.inbounds = vec![inbound("day3", 2083), inbound("day30", 2083)];
    assert_eq!(
        fault(&cloud(vec![s])),
        "[ Cloud Config ] The inbound ports for the server 'a' are not unique."
    );
    let mut s = server("a", 1);
    s.inbounds = vec![inbound("day3", 443)];
    assert_eq!(
        fault(&cloud(vec![s])),
        "[ Cloud Config ] Server 'a' cannot use 443 as an inbound port because it is a reserved \
         port and should not be duplicated or used anywhere else."
    );
    let mut s = server("a", 1);
    s.inbounds = vec![inbound("day3", 8443)];
    assert_eq!(
        fault(&cloud(vec![s])),
        "[ Cloud Config ] The inbounds of server 'a' must be a sub-group of the cloud inbound-set."
    );
}

#[test]
fn global_v4_addresses() {
    for (a, b, c, d) in [
        (5, 9, 0, 1),
        (172, 15, 0, 1),
        (172, 32, 0, 1),
        (100, 63, 1, 1),
        (223, 255, 255, 255),
        (0, 0, 0, 1),
        (192, 0, 3, 1),
        (192, 0, 1, 255),
        (198, 51, 101, 1),
        (203, 0, 114, 1),
    ] {
        assert!(is_global(&Ip::V4(a, b, c, d)), "{a}.{b}.{c}.{d}");
    }
    for (a, b, c, d) in [
        (10, 1, 1, 1),
        (172, 16, 0, 1),
        (172, 31, 9, 9),
        (192, 168, 1, 1),
        (127, 0, 0, 1),
        (169, 254, 1, 1),
        (224, 0, 0, 1),
        (0, 0, 0, 0),
        (255, 255, 255, 255),
        (100, 64, 0, 1),
        (100, 127, 0, 1),
        (192, 0, 2, 1),
        (198, 51, 100, 1),
        (203, 0, 113, 10),
        (203, 0, 113, 255),
        (198, 18, 0, 1),
        (198, 19, 0, 1),
        (240, 0, 0, 1),
    ] {
        assert!(!is_global(&Ip::V4(a, b, c, d)), "{a}.{b}.{c}.{d}");
    }
}

#[test]
fn global_v6_addresses() {
    let v6 = |s0: u16, s1: u16, s2: u16| Ip::V6(s0, s1, s2, 0, 0, 0, 0, 1);
    for (s0, s1, s2) in [(0x2a01, 0x4f8, 1), (0x2001, 0x20, 0), (0x2001, 2, 1), (0x3fff, 0x1000, 0), (0x2000, 0, 0)] {
        assert!(is_global(&v6(s0, s1, s2)), "{s0:x}:{s1:x}:{s2:x}");
    }
    for (s0, s1, s2) in [
        (0, 0, 0),
        (0xfe80, 0, 0),
        (0xff02, 0, 0),
        (0xfd00, 0, 0),
        (0x2001, 2, 0),
        (0x2001, 0x10, 0),
        (0x2001, 0x1f, 0),
        (0x2001, 0, 0),
        (0x2001, 0, 1),
        (0x2001, 0, 0x4136),
        (0x2001, 0xdb8, 0),
        (0x3fff, 0xfff, 0),
        (0x4000, 0, 0),
    ] {
        assert!(!is_global(&v6(s0, s1, s2)), "{s0:x}:{s1:x}:{s2:x}");
    }
}

#[test]
fn domains_are_normalized() {
    assert_eq!(KetServer::deserialize_host("Example.COM"), Ok("example.com".to_string()));
    assert_eq!(KetServer::deserialize_host("bücher.example"), Ok("xn--bcher-kva.example".to_string()));
    assert!(KetServer::deserialize_host("").is_err());
    assert!(KetServer::deserialize_host("a b").is_err());
}

#[test]
fn secrets_are_fresh_and_of_their_lengths() {
    let built = parse_cloud_config(&cloud(vec![server("a", 1), server("b", 2)])).unwrap();
    let (x, y) = (&built.servers[0].secrets, &built.servers[1].secrets);
    assert_ne!(x.xui_password, y.xui_password);
    assert_ne!(x.doh_endpoint, y.doh_endpoint);
    assert_ne!(x.xui_webpath, x.xui_subpath);
    assert!(x.xui_username.chars().all(|c| c.is_ascii_alphanumeric()));
    // What is derived does not change from one run to the next.
    let again = parse_cloud_config(&cloud(vec![server("a", 1)])).unwrap();
    assert_eq!(again.servers[0].secrets.health_path, x.health_path);
    assert_ne!(again.servers[0].secrets.xui_password, x.xui_password);
    assert_ne!(y.health_path, x.health_path);
}
