use xcplane::cloud::server::{path_of_digest, username_of, SecretSeeds};
use xcplane::constants::{
    default_dns_subdomain, default_outbound_block, default_ssh_port, default_sub_subdomain,
    default_true, default_ui_subdomain,
};
use xcplane::strmap::StrMap;
use xcplane::types::{
    AtomicServerState, Inbound, InboundKind, Ip, IpAddr, KetServer, Secrets, ServerState, SvcKind,
    XuiToken,
};

fn inbound(name: &str, port: u16) -> Inbound {
    Inbound {
        name: name.to_string(),
        port,
        kind: InboundKind::VlessXhttpTls,
        total: 10,
        traffic: 20,
        expiry: 3,
        comment: String::new(),
    }
}

fn no_secrets() -> Secrets {
    Secrets {
        health_path: String::new(),
        doh_endpoint: String::new(),
        xui_username: String::new(),
        xui_password: String::new(),
        xui_token: XuiToken::empty(),
        xui_webpath: String::new(),
        xui_subpath: String::new(),
        xui_jsubpath: String::new(),
        mother_subids: StrMap::new(),
    }
}

fn server(name: &str, last: u8) -> KetServer {
    KetServer {
        name: name.to_string(),
        ip: IpAddr { ip: Ip::V4(5, 9, 0, last), text: format!("5.9.0.{last}") },
        domain: format!("{name}.example.com"),
        region: KetServer::default_country_code(),
        state: AtomicServerState::new(ServerState::Offgrid),
        quota: 0,
        enabled: default_true(),
        ssh_port: default_ssh_port(),
        dns_subdomain: default_dns_subdomain(),
        ui_subdomain: default_ui_subdomain(),
        sub_subdomain: default_sub_subdomain(),
        cloudflare_proxied: false,
        inbounds: vec![],
        outbound_block: default_outbound_block(),
        ansible_conn: None,
        secrets: no_secrets(),
        cfstate: None,
    }
}


#[test]
fn host_names() {
    let s = server("a", 1);
    assert_eq!(s.dnshostname(), "dns.a.example.com");
    assert_eq!(s.uihostname(), "ui.a.example.com");
    assert_eq!(s.subhostname(), "sub.a.example.com");
}

#[test]
fn services_of_a_server() {
    let mut s = server("a", 1);
    s.inbounds = vec![inbound("day3", 2083), Inbound::super_inbound()];
    assert_eq!(s.svc_num(), 4);
    assert_eq!(s.svc_kinds_string(), ["ssh", "nginx", "xray_day3", "xray_super"]);
    assert!(s.svc_kinds()[3] == SvcKind::super_xray());
}

#[test]
fn the_health_path_is_the_start_of_a_digest() {
    // SHA-256 of name=a|domain=a.example.com|dsub=dns|usub=ui|ssub=sub
    assert_eq!(server("a", 1).health_path_gen(), "35f58135e4e3ef7a");
    let digest: Vec<u8> = (0..32).map(|i| i * 8 + 1).collect();
    assert_eq!(path_of_digest(&digest), "0109111921293139");
}

#[test]
fn user_names_are_picked_from_the_alphabet() {
    let bytes = vec![0, 1, 25, 26, 51, 52, 61, 62, 63, 123, 124, 200, 255, 100, 7, 8];
    assert_eq!(username_of(&bytes), "abzAZ09ab9aohMhi");
    assert_eq!(username_of(&vec![]), "");
}

#[test]
fn secrets_from_given_bytes() {
    let mut s = server("a", 1);
    s.inbounds = vec![inbound("day3", 2083), inbound("day30", 8443), inbound("day3", 2087)];
    s.fill_secrets_from(&SecretSeeds {
        subids: vec![vec![7; 7], vec![8; 7], vec![1; 7]],
        doh: (0..16).collect(),
        username: vec![0; 16],
        password: vec![255; 16],
        webpath: (0..10).collect(),
        subpath: vec![251, 255, 191, 1, 2, 3, 4, 5],
        jsubpath: vec![9; 8],
    });
    let x = &s.secrets;
    assert_eq!(x.health_path, "35f58135e4e3ef7a");
    assert_eq!(x.doh_endpoint, "AAECAwQFBgcICQoLDA0ODw");
    assert_eq!(x.xui_username, "aaaaaaaaaaaaaaaa");
    assert_eq!(x.xui_password, "_____________________w");
    assert_eq!(x.xui_webpath, "AAECAwQFBgcICQ");
    assert_eq!(x.xui_subpath, "-_-_AQIDBAU");
    assert_eq!(x.xui_jsubpath, "CQkJCQkJCQk");
    assert!(x.xui_token.is_none());
    // Of two inbounds with the same name the first one counts.
    assert_eq!(x.mother_subids.get("day3").unwrap(), "BwcHBwcHBw");
    assert_eq!(x.mother_subids.get("day30").unwrap(), "CAgICAgICA");
    assert_eq!(x.mother_subids.get("super").unwrap(), "super");
    assert!(x.mother_subids.get("day7").is_none());
}

#[test]
fn random_secrets_have_their_lengths() {
    let mut s = server("a", 1);
    s.inbounds = vec![inbound("day3", 2083)];
    s.fill_secrets();
    let x = &s.secrets;
    assert_eq!(x.doh_endpoint.len(), 22);
    assert_eq!(x.xui_username.len(), 16);
    assert_eq!(x.xui_password.len(), 22);
    assert_eq!(x.xui_webpath.len(), 14);
    assert_eq!(x.xui_subpath.len(), 11);
    assert_eq!(x.xui_jsubpath.len(), 11);
    assert_eq!(x.mother_subids.get("day3").unwrap().len(), 10);
    let first = x.xui_password.clone();
    s.fill_secrets();
    assert_ne!(s.secrets.xui_password, first);
}

#[test]
fn connections() {
    let mut s = server("a", 1);
    s.build_inventory();
    assert_eq!(s.ansible_conn.as_ref().unwrap().ansible_port, Some(22));
    s.state.store(ServerState::Production);
    s.build_inventory();
    assert_eq!(s.ansible_conn.as_ref().unwrap().ansible_port, Some(79));
}

#[test]
fn json_sublinks() {
    let mut s = server("a", 1);
    s.inbounds = vec![inbound("day3", 2083)];
    s.secrets.xui_jsubpath = "jp".to_string();
    assert_eq!(
        s.inbounds[0].get_jsub(&s),
        Err("Mother sub-ID is absent from the secrets of server 'a' for inbound 'day3'".to_string())
    );
    s.secrets.mother_subids.or_insert("day3".to_string(), "id 1".to_string());
    assert_eq!(
        s.inbounds[0].jsub_address(&s),
        Ok("https://sub.a.example.com/jp/id 1".to_string())
    );
    // The address is brought into normal form.
    assert_eq!(
        s.inbounds[0].get_jsub(&s),
        Ok("https://sub.a.example.com/jp/id%201".to_string())
    );
    s.domain = "exa mple.com".to_string();
    assert!(s.inbounds[0].get_jsub(&s).is_err());
}
