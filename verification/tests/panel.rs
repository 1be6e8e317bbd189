use xcplane::constants::{
    default_dns_subdomain, default_outbound_block, default_ssh_port, default_sub_subdomain,
    default_true, default_ui_subdomain,
};
use xcplane::strmap::StrMap;
use xcplane::types::{
    AtomicServerState, Inbound, InboundKind, Ip, IpAddr, KetServer, Secrets, ServerState, XuiToken,
};
use xcplane::xui::api::{
    cookie_fault, csrf_token, xui_get_call_cookie, CookieAction, CookieEvent, CookieFault,
    INBOUNDS_PATH, RULE, TAB,
};
use xcplane::xui::db::{
    backup_of, delete_xui_backups, last_xui_db, prune_xui_backups, xui_backup_name, BackupFile,
};
use xcplane::xui::types::{ApiResponse, CSettings, ClientStat, Sniffing, XuiApiInbound};

fn inbound(name: &str, port: u16) -> Inbound {
    Inbound {
        name: name.to_string(),
        port,
        kind: InboundKind::VlessXhttpTls,
        total: 10,
        traffic: 20,
        expiry: 3,
        comment: String::new(),
    }
}

fn no_secrets() -> Secrets {
    Secrets {
        health_path: String::new(),
        doh_endpoint: String::new(),
        xui_username: String::new(),
        xui_password: String::new(),
        xui_token: XuiToken::empty(),
        xui_webpath: String::new(),
        xui_subpath: String::new(),
        xui_jsubpath: String::new(),
        mother_subids: StrMap::new(),
    }
}

fn server(name: &str, last: u8) -> KetServer {
    KetServer {
        name: name.to_string(),
        ip: IpAddr { ip: Ip::V4(5, 9, 0, last), text: format!("5.9.0.{last}") },
        domain: format!("{name}.example.com"),
        region: KetServer::default_country_code(),
        state: AtomicServerState::new(ServerState::Offgrid),
        quota: 0,
        enabled: default_true(),
        ssh_port: default_ssh_port(),
        dns_subdomain: default_dns_subdomain(),
        ui_subdomain: default_ui_subdomain(),
        sub_subdomain: default_sub_subdomain(),
        cloudflare_proxied: false,
        inbounds: vec![],
        outbound_block: default_outbound_block(),
        ansible_conn: None,
        secrets: no_secrets(),
        cfstate: None,
    }
}


fn client(email: &str, sub_id: &str) -> ClientStat {
    ClientStat {
        id: 1,
        inbound_id: 1,
        enable: true,
        email: email.to_string(),
        uuid: String::new(),
        sub_id: sub_id.to_string(),
        up: 0,
        down: 0,
        expiry_time: 0,
        total: 0,
        reset: 0,
        last_online: 0,
    }
}

fn api_inbound(remark: &str, client_stats: Vec<ClientStat>) -> XuiApiInbound {
    XuiApiInbound {
        id: 1,
        up: 0,
        down: 0,
        total: 0,
        remark: remark.to_string(),
        sub_sort_index: 0,
        enable: true,
        expiry_time: 0,
        traffic_reset: String::new(),
        last_traffic_reset_time: 0,
        listen: String::new(),
        port: 2083,
        protocol: String::new(),
        tag: String::new(),
        share_addr_strategy: String::new(),
        share_addr: String::new(),
        client_stats,
        settings: CSettings {
            clients: vec![],
            decryption: String::new(),
            encryption: String::new(),
        },
        sniffing: Sniffing {
            enabled: false,
            dest_override: vec![],
            metadata_only: false,
            route_only: false,
        },
    }
}

fn panel() -> KetServer {
    let mut s = server("a", 1);
    s.secrets.xui_webpath = "web".to_string();
    s.secrets.xui_subpath = "sub".to_string();
    s.secrets.xui_jsubpath = "json".to_string();
    s.secrets.xui_username = "user".to_string();
    s.secrets.xui_password = "pass".to_string();
    s.secrets.xui_token = XuiToken::from("token".to_string());
    s
}

fn texts(v: &[&str]) -> Vec<String> {
    v.iter().map(|s| s.to_string()).collect()
}

#[test]
fn access_to_the_panel() {
    assert_eq!(panel().panel_address(), "https://ui.a.example.com/web/");
    let x = panel().new_xui_client().unwrap();
    assert_eq!(x.xui_url_global, "https://ui.a.example.com/web/");
    assert_eq!(
        [x.xui_username.as_str(), x.xui_password.as_str(), x.xui_token.as_str()],
        ["user", "pass", "token"]
    );
    assert_eq!(
        x.endpoint(INBOUNDS_PATH).unwrap(),
        "https://ui.a.example.com/web/panel/api/inbounds/list"
    );
    assert_eq!(x.endpoint("/login").unwrap(), "https://ui.a.example.com/login");
    assert!(x.endpoint("https://[").is_err());
}

#[test]
fn access_needs_a_token_and_an_address() {
    let err = |s: KetServer| match s.new_xui_client() {
        Err(e) => e,
        Ok(_) => panic!("there is no access"),
    };
    let mut s = panel();
    s.secrets.xui_token = XuiToken::empty();
    assert_eq!(err(s), "'xui_token' is absent from secrets container of production server 'a'");
    let mut s = panel();
    s.domain = "a b".to_string();
    assert_eq!(err(s), "invalid international domain name");
}

#[test]
fn tokens_for_a_login() {
    let answer = |success| ApiResponse { success, msg: String::new(), obj: "csrf".to_string() };
    assert_eq!(csrf_token(answer(true)), Ok("csrf".to_string()));
    assert_eq!(csrf_token(answer(false)), Err("Couldn't mint a CSRF token.".to_string()));
}

#[test]
fn the_table_of_clients() {
    assert_eq!(RULE, "-".repeat(120));
    assert_eq!(TAB, " ".repeat(6));
    let clients = vec![
        client("one@example.com", "s1"),
        client("mother_inbound_day3", "s2"),
        client("silent", ""),
        client("a-very-long-name@example.com", "s3"),
    ];
    let table = panel().xui_call_clients(&vec![
        api_inbound("day3", clients),
        api_inbound("empty", vec![]),
    ]);
    let head = format!("{:<20}{:<20}{}sublink & json sublink\n{}\n", "inbound", "email", TAB, RULE);
    let sub = "https://sub.a.example.com/sub/";
    let json = "https://sub.a.example.com/json/";
    let one = format!("{:<20}{:<20}{TAB}{sub}s1{TAB}{json}s1\n", "day3", "one@example.com");
    let three =
        format!("{:<20}{:<20}{TAB}{sub}s3{TAB}{json}s3\n", "day3", "a-very-long-name@example.com");
    assert_eq!(table, format!("{head}{one}{three}\n\n"));
}

#[test]
fn a_session_is_opened_once() {
    let step = |e| xui_get_call_cookie(0, e);
    assert_eq!(step(CookieEvent::Started(true)), CookieAction::Send);
    assert_eq!(step(CookieEvent::Started(false)), CookieAction::TakeLock);
    assert_eq!(step(CookieEvent::LockTaken(true)), CookieAction::Send);
    assert_eq!(step(CookieEvent::LockTaken(false)), CookieAction::Login);
    assert_eq!(step(CookieEvent::LoggedIn(true)), CookieAction::Send);
    assert_eq!(
        step(CookieEvent::LoggedIn(false)),
        CookieAction::Fail(CookieFault::AfterLogin)
    );
}

#[test]
fn a_refused_request_is_sent_once_more() {
    let step = |e| xui_get_call_cookie(7, e);
    for status in [401, 403, 404] {
        assert_eq!(step(CookieEvent::Answered(status)), CookieAction::Look);
    }
    assert_eq!(step(CookieEvent::Answered(200)), CookieAction::Done);
    assert_eq!(step(CookieEvent::Answered(500)), CookieAction::Done);
    assert_eq!(step(CookieEvent::Looked(Some(8))), CookieAction::SendAgain);
    assert_eq!(step(CookieEvent::Looked(Some(7))), CookieAction::TakeLockAgain);
    assert_eq!(step(CookieEvent::LockTakenAgain(Some(7))), CookieAction::Renew);
    assert_eq!(step(CookieEvent::LockTakenAgain(Some(8))), CookieAction::UseRenewed);
    assert_eq!(step(CookieEvent::Renewed(true)), CookieAction::SendAgain);
    assert_eq!(step(CookieEvent::AnsweredAgain), CookieAction::Done);
    let fail = CookieAction::Fail(CookieFault::Meanwhile);
    assert_eq!(step(CookieEvent::Looked(None)), fail);
    assert_eq!(step(CookieEvent::LockTakenAgain(None)), fail);
    assert_eq!(step(CookieEvent::Renewed(false)), fail);
    assert_eq!(
        cookie_fault(CookieFault::AfterLogin),
        "Couldn't get the xui value in xui_get_call_cookie after login."
    );
    assert_eq!(
        cookie_fault(CookieFault::Meanwhile),
        "Couldn't get the xui value in xui_get_call_cookie."
    );
}

#[test]
fn names_of_backups() {
    let name = xui_backup_name("a", "2026_08_09_11_54_28");
    assert_eq!(name, "a-2026_08_09_11_54_28-xui-backup.db");
    assert!(backup_of(&name, "a"));
    assert!(!backup_of(&name, "b"));
    assert!(!backup_of("ab-1-xui-backup.db", "a"));
    assert!(!backup_of("a-1-xui-backup.db.tmp", "a"));
}

#[test]
fn the_latest_backup() {
    let names = texts(&[
        "a-2026_01_02-xui-backup.db",
        "b-2027_01_01-xui-backup.db",
        "a-2026_01_10-xui-backup.db",
        "a-2026_01_09-xui-backup.db",
        "a-notes",
    ]);
    assert_eq!(last_xui_db(&names, "a"), Ok("a-2026_01_10-xui-backup.db".to_string()));
    assert_eq!(
        last_xui_db(&names, "c"),
        Err("Couldn't find any DB to choose from.".to_string())
    );
    assert_eq!(
        delete_xui_backups(&names, "a"),
        ["a-2026_01_02-xui-backup.db", "a-2026_01_10-xui-backup.db", "a-2026_01_09-xui-backup.db"]
    );
}

#[test]
fn only_the_newest_backups_are_kept() {
    let file = |i: i128| BackupFile { name: format!("{i}"), created: (i * 7919) % 4322 };
    let few: Vec<BackupFile> = (0..4320).map(file).collect();
    assert!(prune_xui_backups(&few).is_empty());
    // The two oldest of 4322 files go.
    let all: Vec<BackupFile> = (0..4322).map(file).collect();
    let mut stale = prune_xui_backups(&all);
    stale.sort();
    let mut oldest: Vec<String> =
        all.iter().filter(|f| f.created < 2).map(|f| f.name.clone()).collect();
    oldest.sort();
    assert_eq!(stale, oldest);
    assert_eq!(stale.len(), 2);
    // Of files of one time those that are listed last go.
    let same: Vec<BackupFile> =
        (0..4321).map(|i| BackupFile { name: format!("{i}"), created: 5 }).collect();
    assert_eq!(prune_xui_backups(&same), ["4320"]);
}
