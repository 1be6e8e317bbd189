use xcplane::ansible::AnsibleConn;
use xcplane::types::{
    is_proper, is_proper_subdomain, AtomicServerState, Inbound, InboundKind, Secrets, ServerState,
    Slugged, SvcHealth, SvcKind, XuiToken,
};

#[test]
fn proper_names() {
    for name in ["server1", "a", "A_b_9", "0x0", "de_frankfurt_2"] {
        assert!(is_proper(name), "{name}");
    }
    for name in ["", "_a", "a_", "a-b", "a b", "é", "aé", "a.b"] {
        assert!(!is_proper(name), "{name}");
    }
}

#[test]
fn proper_subdomains() {
    for name in ["dns", "a", "a-b", "0-9", &"x".repeat(63)] {
        assert!(is_proper_subdomain(name), "{name}");
    }
    for name in ["", "-a", "a-", "a_b", "Dns", "a.b", "ü", &"x".repeat(64)] {
        assert!(!is_proper_subdomain(name), "{name}");
    }
}

#[test]
fn slugs() {
    assert_eq!("  my server ".slug(), "my_server");
    assert_eq!("-x-".slug(), "axa");
    assert_eq!("".slug(), "good_nickname1");
    assert_eq!(" \u{3000} ".slug(), "good_nickname1");
    assert_eq!("é".slug(), "a");
    assert_eq!("aéz".slug(), "a_z");
    assert_eq!("server-1".to_string().slug(), "server_1");
}

#[test]
fn a_slug_is_proper_and_stays() {
    for s in ["", "é", "my-server 7!", "__", " ok ", "a\tb"] {
        let slug = s.slug();
        assert!(is_proper(&slug), "{s}");
        assert_eq!(slug.slug(), slug);
    }
    assert_eq!("already_fine".slug(), "already_fine");
}

#[test]
fn server_states() {
    assert_eq!(ServerState::Offgrid.to_string(), "Offgrid");
    assert_eq!(ServerState::Production.to_string(), "Production");
    assert_eq!(ServerState::from_name("Production"), Some(ServerState::Production));
    assert_eq!(ServerState::from_name("production"), None);
    assert_eq!(ServerState::parse("  PRODUCTION\n"), Ok(ServerState::Production));
    assert_eq!(ServerState::parse("OffGrid"), Ok(ServerState::Offgrid));
    assert_eq!(
        ServerState::parse(" Retired "),
        Err("Invalid server state: retired".to_string())
    );
    assert_eq!(ServerState::default(), ServerState::Offgrid);
}

#[test]
fn the_state_of_a_server_changes() {
    let mut state = AtomicServerState::new(ServerState::Offgrid);
    assert_eq!(state.load(), ServerState::Offgrid);
    state.store(ServerState::Production);
    assert_eq!(state.load(), ServerState::Production);
    assert_eq!(state.clone().load(), ServerState::Production);
}

#[test]
fn tokens() {
    assert!(XuiToken::empty().is_none());
    let token = XuiToken::from("abc".to_string());
    assert!(!token.is_none());
    assert_eq!(token.0.as_deref(), Some("abc"));
}

#[test]
fn service_names_read_back() {
    for kind in [SvcKind::Ssh, SvcKind::Nginx, SvcKind::Xray("inb1".to_string())] {
        let name = kind.to_string();
        assert!(name.parse::<SvcKind>() == Ok(kind.clone()), "{name}");
    }
    assert_eq!(SvcKind::Ssh.to_string(), "ssh");
    assert_eq!(SvcKind::Xray("inb1".to_string()).to_string(), "xray_inb1");
    assert_eq!(SvcKind::Xray("inb1".to_string()).display(), "Xray");
    assert_eq!(SvcKind::Xray("inb1".to_string()).nice_display(), "Xray(inb1)");
    assert!("Telnet".parse::<SvcKind>().is_err());
    assert!(SvcKind::super_xray() == SvcKind::Xray(SvcKind::super_name()));
}

#[test]
fn healths_and_kinds_read_back() {
    for h in [SvcHealth::Healthy, SvcHealth::Sick, SvcHealth::Unknown] {
        assert_eq!(SvcHealth::from_name(&h.to_string()), Some(h));
    }
    assert_eq!(SvcHealth::Healthy.to_string(), "Ok");
    for k in [
        InboundKind::VlessXhttpReality,
        InboundKind::VlessTcpReality,
        InboundKind::VlessXhttpTls,
        InboundKind::VlessWsTls,
        InboundKind::VlessGrpcTls,
    ] {
        assert_eq!(InboundKind::from_name(&k.to_string()), Some(k));
    }
    assert_eq!(InboundKind::from_name("Vmess"), None);
}

#[test]
fn compatible_kinds() {
    assert!(!InboundKind::VlessXhttpReality.cloudflare_compatible());
    assert!(!InboundKind::VlessTcpReality.cloudflare_compatible());
    assert!(InboundKind::VlessXhttpTls.cloudflare_compatible());
    assert!(InboundKind::VlessWsTls.cloudflare_compatible());
    assert!(InboundKind::VlessGrpcTls.cloudflare_compatible());
}

#[test]
fn the_super_inbound() {
    let inb = Inbound::super_inbound();
    assert_eq!(inb.name, SvcKind::super_name());
    assert_eq!(inb.port, 0);
    assert_eq!(inb.kind, InboundKind::VlessTcpReality);
    assert_eq!((inb.total, inb.traffic, inb.expiry), (0, 0, 0));
    assert_eq!(inb.comment, "The super inbound");
}

#[test]
fn default_values_are_empty() {
    let mut state = AtomicServerState::default();
    assert_eq!(state.load(), ServerState::Offgrid);
    state.store(ServerState::Production);
    assert_eq!(state.load(), ServerState::Production);
    assert!(XuiToken::default().is_none());
    let secrets = Secrets::default();
    assert!(secrets.health_path.is_empty() && secrets.xui_password.is_empty());
    assert!(secrets.xui_token.is_none());
    assert!(secrets.mother_subids.get("super").is_none());
    let conn = AnsibleConn::default();
    assert!(conn.ansible_host.is_none() && conn.ansible_port.is_none());
    assert!(conn.ansible_user.is_none() && conn.ansible_connection.is_none());
}
