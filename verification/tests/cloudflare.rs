use xcplane::cloudflare::{
    cloudflare_only, cloudflare_port, get_cf_rule, get_cf_ruleset, keep_cf_list, lists_endpoint,
    needs_cf_list, prepare_cf_list, rules_endpoint, ruleset_endpoint, rulesets_endpoint,
    test_cf_token, verify_endpoint, zones_endpoint, CFAccount, CFGetResponse, CFList,
    CFPostResponse, CFRule, CFRuleIds, CFRuleSet, CFToken, CFZone,
};
use xcplane::constants::{
    default_dns_subdomain, default_mon_interval, default_outbound_block, default_ssh_port,
    default_sub_subdomain, default_threshold, default_true, default_ui_subdomain,
};
use xcplane::strmap::StrMap;
use xcplane::types::{
    AtomicServerState, Cloud, CloudSettings, Inbound, InboundKind, Ip, IpAddr, KetServer, Secrets,
    ServerState, XuiToken,
};

fn inbound(name: &str, port: u16) -> Inbound {
    Inbound {
        name: name.to_string(),
        port,
        kind: InboundKind::VlessXhttpTls,
        total: 10,
        traffic: 20,
        expiry: 3,
        comment: String::new(),
    }
}

fn no_secrets() -> Secrets {
    Secrets {
        health_path: String::new(),
        doh_endpoint: String::new(),
        xui_username: String::new(),
        xui_password: String::new(),
        xui_token: XuiToken::empty(),
        xui_webpath: String::new(),
        xui_subpath: String::new(),
        xui_jsubpath: String::new(),
        mother_subids: StrMap::new(),
    }
}

fn server(name: &str, last: u8) -> KetServer {
    KetServer {
        name: name.to_string(),
        ip: IpAddr { ip: Ip::V4(5, 9, 0, last), text: format!("5.9.0.{last}") },
        domain: format!("{name}.example.com"),
        region: KetServer::default_country_code(),
        state: AtomicServerState::new(ServerState::Offgrid),
        quota: 0,
        enabled: default_true(),
        ssh_port: default_ssh_port(),
        dns_subdomain: default_dns_subdomain(),
        ui_subdomain: default_ui_subdomain(),
        sub_subdomain: default_sub_subdomain(),
        cloudflare_proxied: false,
        inbounds: vec![],
        outbound_block: default_outbound_block(),
        ansible_conn: None,
        secrets: no_secrets(),
        cfstate: None,
    }
}

fn cloud(servers: Vec<KetServer>) -> Cloud {
    Cloud {
        servers,
        settings: CloudSettings {
            inbound_set: vec![inbound("day3", 2083), inbound("day30", 8443)],
            auto_fix: true,
            fix_threshold: default_threshold(),
            monitor_interval: default_mon_interval(),
        },
    }
}


fn zone(name: &str) -> CFZone {
    CFZone {
        id: format!("id of {name}"),
        name: name.to_string(),
        account: CFAccount { id: "acc".to_string(), name: "Account".to_string() },
    }
}

fn rule(id: &str, action: &str, description: &str, enabled: bool) -> CFRule {
    CFRule {
        id: id.to_string(),
        action: action.to_string(),
        description: description.to_string(),
        enabled,
        expression: String::new(),
    }
}

fn ruleset(id: &str, kind: &str, phase: &str, rules: Vec<CFRule>) -> CFRuleSet {
    CFRuleSet {
        id: id.to_string(),
        kind: kind.to_string(),
        name: String::new(),
        phase: phase.to_string(),
        rules,
    }
}

fn list(id: &str, description: &str, kind: &str) -> CFList {
    CFList {
        id: id.to_string(),
        name: String::new(),
        description: description.to_string(),
        kind: kind.to_string(),
        num_items: 0,
    }
}

fn at(domain: &str) -> KetServer {
    let mut s = server("a", 1);
    s.domain = domain.to_string();
    s
}

#[test]
fn the_zone_is_the_most_specific_one() {
    let zones = vec![zone("com"), zone("Example.com"), zone("le.com"), zone("other.org")];
    assert_eq!(at("www.example.COM").get_cf_zone(&zones), Ok(1));
    assert_eq!(at("example.com").get_cf_zone(&zones), Ok(1));
    assert_eq!(at("x.le.com").get_cf_zone(&zones), Ok(2));
    assert_eq!(at("sample.com").get_cf_zone(&zones), Ok(0));
    // The last one counts where two are of one length.
    assert_eq!(at("a.b.c").get_cf_zone(&vec![zone("b.c"), zone("b.c")]), Ok(1));
    assert_eq!(
        at("Example.net").get_cf_zone(&zones),
        Err("Domain 'example.net' is not within any Cloudflare zone. Have you added it to \
             Cloudflare properly?"
            .to_string())
    );
}

#[test]
fn the_state_of_a_server() {
    let mut s = at("Deep.example.com");
    s.inbounds = vec![inbound("day3", 2083), Inbound::super_inbound()];
    assert_eq!(s.set_cf_state(&zone("example.com"), None, &None), Ok(()));
    let state = s.cfstate.unwrap();
    assert_eq!((state.zone_name.as_str(), state.zone_id.as_str()), ("example.com", "id of example.com"));
    assert!(state.too_deep);
    assert!(state.cloudflare_only);
    assert!(state.list_data.is_none());
}

#[test]
fn a_proxied_server_has_the_data_of_the_list() {
    let ids = || Some(CFRuleIds { ruleset_id: "rs".to_string(), rule_id: "r".to_string() });
    let mut s = at("example.com");
    s.cloudflare_proxied = true;
    assert_eq!(
        s.set_cf_state(&zone("example.com"), ids(), &None),
        Err("cf_list is None while it should contain Some value.".to_string())
    );
    assert!(s.cfstate.is_none());
    assert_eq!(s.set_cf_state(&zone("example.com"), ids(), &Some("l".to_string())), Ok(()));
    let state = s.cfstate.unwrap();
    assert!(!state.too_deep);
    let data = state.list_data.unwrap();
    assert_eq!(
        [data.account_name, data.account_id, data.ruleset_id, data.rule_id, data.list_id],
        ["Account", "acc", "rs", "r", "l"]
    );
}

#[test]
fn what_cloudflare_can_carry() {
    for p in [2053, 2083, 2087, 2096, 8443] {
        assert!(cloudflare_port(p));
    }
    assert!(!cloudflare_port(443));
    assert!(cloudflare_only(&vec![]));
    assert!(cloudflare_only(&vec![Inbound::super_inbound(), inbound("a", 8443)]));
    assert!(!cloudflare_only(&vec![inbound("a", 8443), inbound("b", 8444)]));
    let mut reality = inbound("a", 8443);
    reality.kind = InboundKind::VlessXhttpReality;
    assert!(!cloudflare_only(&vec![reality]));
}

#[test]
fn addresses_of_the_api() {
    let api = "https://api.cloudflare.com/client/v4";
    assert_eq!(zones_endpoint(), format!("{api}/zones"));
    assert_eq!(rulesets_endpoint("z"), format!("{api}/zones/z/rulesets"));
    assert_eq!(ruleset_endpoint("z", "r"), format!("{api}/zones/z/rulesets/r"));
    assert_eq!(rules_endpoint("z", "r"), format!("{api}/zones/z/rulesets/r/rules"));
    assert_eq!(lists_endpoint("a"), format!("{api}/accounts/a/rules/lists"));
    assert_eq!(verify_endpoint(), format!("{api}/user/tokens/verify"));
}

#[test]
fn the_managed_ruleset_and_rule() {
    let phase = "http_request_firewall_custom";
    let sets = |result| CFGetResponse { result, success: true, errors: vec![] };
    let found = get_cf_ruleset(&sets(vec![
        ruleset("1", "managed", phase, vec![]),
        ruleset("2", "zone", "another", vec![]),
        ruleset("3", "zone", phase, vec![]),
        ruleset("4", "zone", phase, vec![]),
    ]));
    assert_eq!(found.as_deref(), Some("3"));
    assert_eq!(get_cf_ruleset(&sets(vec![])), None);
    let name = "xcplane-managed fail2ban rule";
    let rules = vec![
        rule("1", "block", name, false),
        rule("2", "allow", name, true),
        rule("3", "block", "mine", true),
        rule("4", "block", name, true),
    ];
    let set = ruleset("3", "zone", phase, rules);
    assert_eq!(get_cf_rule(&set).as_deref(), Some("4"));
    assert_eq!(at("a.b").created_rule(&set), Ok("4".to_string()));
    let empty = ruleset("3", "zone", phase, vec![]);
    assert_eq!(get_cf_rule(&empty), None);
    assert_eq!(
        at("a.b").created_rule(&empty),
        Err("Couldn't create a fail2ban rule for Cloudflare-proxied server 'a'".to_string())
    );
}

#[test]
fn the_managed_list() {
    let lists = |success| CFGetResponse {
        result: vec![
            list("1", "xcplane-managed blocklist", "hostname"),
            list("2", "mine", "ip"),
            list("3", "xcplane-managed blocklist", "ip"),
        ],
        success,
        errors: vec![],
    };
    assert_eq!(prepare_cf_list(&lists(true)).as_deref(), Some("3"));
    assert_eq!(prepare_cf_list(&lists(false)), None);
    assert!(!needs_cf_list(&cloud(vec![server("a", 1)])));
    let mut s = server("b", 2);
    s.cloudflare_proxied = true;
    assert!(needs_cf_list(&cloud(vec![server("a", 1), s])));
    let mut known = None;
    keep_cf_list(Ok("1".to_string()), &mut known);
    keep_cf_list(Err("no".to_string()), &mut known);
    assert_eq!(known.as_deref(), Some("1"));
}

#[test]
fn tokens_are_judged() {
    let token = |success, status: &str| CFPostResponse {
        result: CFToken { status: status.to_string(), id: String::new() },
        success,
        errors: vec![],
    };
    assert_eq!(test_cf_token(&token(true, "active")), Ok(()));
    let bad = Err("The Cloudflare token either is invalid or has expired.".to_string());
    assert_eq!(test_cf_token(&token(true, "expired")), bad);
    assert_eq!(test_cf_token(&token(false, "active")), bad);
}
