use xcplane::cloud::probe::{
    check_service, check_ssh_stream, check_tls_stream, check_xray, head_request, ip_endpoints,
    ip_step, ip_verdict, judge_answer, reach_step, read_step, IpStep, ReachStep, ReadStep,
    ServiceTest, XrayTest,
};
use xcplane::cloud::report::{endpoint, success_message, ErrorLine, SvcError};
use xcplane::cloud::sublink::{dl_sublink, port_for, LocalInbound, PortField};
use xcplane::constants::{
    default_dns_subdomain, default_outbound_block, default_ssh_port, default_sub_subdomain,
    default_true, default_ui_subdomain, IPV4_ENDPOINTS, IPV6_ENDPOINTS,
};
use xcplane::strmap::StrMap;
use xcplane::types::{
    AtomicServerState, Inbound, InboundKind, Ip, IpAddr, KetServer, Secrets, ServerState, SvcEntry,
    SvcHealth, SvcInfo, SvcKind, SvcStatus, XuiToken,
};

fn inbound(name: &str, port: u16) -> Inbound {
    Inbound {
        name: name.to_string(),
        port,
        kind: InboundKind::VlessXhttpTls,
        total: 10,
        traffic: 20,
        expiry: 3,
        comment: String::new(),
    }
}

fn no_secrets() -> Secrets {
    Secrets {
        health_path: String::new(),
        doh_endpoint: String::new(),
        xui_username: String::new(),
        xui_password: String::new(),
        xui_token: XuiToken::empty(),
        xui_webpath: String::new(),
        xui_subpath: String::new(),
        xui_jsubpath: String::new(),
        mother_subids: StrMap::new(),
    }
}

fn server(name: &str, last: u8) -> KetServer {
    KetServer {
        name: name.to_string(),
        ip: IpAddr { ip: Ip::V4(5, 9, 0, last), text: format!("5.9.0.{last}") },
        domain: format!("{name}.example.com"),
        region: KetServer::default_country_code(),
        state: AtomicServerState::new(ServerState::Offgrid),
        quota: 0,
        enabled: default_true(),
        ssh_port: default_ssh_port(),
        dns_subdomain: default_dns_subdomain(),
        ui_subdomain: default_ui_subdomain(),
        sub_subdomain: default_sub_subdomain(),
        cloudflare_proxied: false,
        inbounds: vec![],
        outbound_block: default_outbound_block(),
        ansible_conn: None,
        secrets: no_secrets(),
        cfstate: None,
    }
}


fn info(kind: SvcKind, port: u16, link: Option<&str>) -> SvcInfo {
    let mut s = server("a", 1);
    s.inbounds = vec![inbound("day3", 2083)];
    s.secrets.health_path = "health".to_string();
    SvcInfo { server: s, port, kind, link: link.map(|l| l.to_string()) }
}

fn xray(name: &str) -> SvcKind {
    SvcKind::Xray(name.to_string())
}

fn failed(kind: SvcKind, port: u16, since: u64) -> SvcError {
    let status =
        SvcStatus { health: SvcHealth::Sick, failed_count: 3, failed_since: since, fix_try: 0 };
    SvcError { service: SvcEntry { info: info(kind, port, None), status }, errmsg: "bad".to_string() }
}

#[test]
fn banners_of_ssh() {
    assert_eq!(check_ssh_stream(b"SSH-2.0-OpenSSH_9.6\r\n"), Ok(()));
    assert_eq!(check_ssh_stream(b""), Err("Connection closed before SSH banner.".to_string()));
    assert_eq!(check_ssh_stream(b"HTTP/1.1"), Err("Not an SSH server.".to_string()));
    assert_eq!(
        check_ssh_stream(b"SSH-\xff"),
        Err("invalid utf-8 sequence of 1 bytes from index 4".to_string())
    );
}

#[test]
fn the_request_for_the_headers() {
    assert_eq!(
        head_request(&info(SvcKind::Nginx, 443, None).server),
        "HEAD /health HTTP/1.1\r\nHost: ui.a.example.com\r\nUser-Agent: xcplane/0.1.0\r\nAccept: \
         */*\r\nConnection: close\r\n\r\n"
    );
}

#[test]
fn headers_are_read_to_their_end() {
    assert_eq!(read_step(&b"".to_vec()), ReadStep::More);
    assert_eq!(read_step(&b"HTTP/1.1 200 OK\r\nA: b\r\n".to_vec()), ReadStep::More);
    assert_eq!(read_step(&b"HTTP/1.1 200 OK\r\n\r\nx".to_vec()), ReadStep::Done);
    assert_eq!(read_step(&vec![65; 16384]), ReadStep::More);
    let mut long = vec![65; 16385];
    assert_eq!(read_step(&long), ReadStep::TooLarge);
    long.extend_from_slice(b"\r\n\r\n");
    assert_eq!(read_step(&long), ReadStep::Done);
}

#[test]
fn answers_of_nginx() {
    let check = |s: &str| check_tls_stream(&s.as_bytes().to_vec());
    assert_eq!(
        check("HTTP/1.1 200 OK\r\nX-Health-Verify: My-Origin-Server\r\n\r\n"),
        Ok(())
    );
    assert_eq!(
        check("HTTP/1.1 200 OK\r\nServer: other\r\n\r\n"),
        Err("Status 200 received, but the secret 'X-Health-Verify' header is missing (possible \
             cache hit or wrong origin)"
            .to_string())
    );
    for code in 520..528 {
        let line = format!("HTTP/1.1 {code} Error");
        assert_eq!(
            check(&format!("{line}\r\n\r\n")),
            Err(format!("Cloudflare edge is up, but Nginx is having issues: {line}"))
        );
    }
    assert_eq!(
        check("HTTP/1.1 404 Not Found\r\n\r\n"),
        Err("HTTP Error: HTTP/1.1 404 Not Found".to_string())
    );
    assert_eq!(
        check("HTTP/1.1 200 OK\n"),
        Err("No valid HTTP status line found in TLS response".to_string())
    );
    assert_eq!(check_tls_stream(&b"\xff\r\n".to_vec()), Err("HTTP Error: \u{fffd}".to_string()));
    assert_eq!(judge_answer(Some("200 OK"), "x-health-verify: my-origin-server"), Ok(()));
    assert!(judge_answer(Some("200 OK"), "X-Health-Verify: my-origin-server").is_err());
}

#[test]
fn endpoints_come_in_any_order() {
    let sorted = |v: Vec<&'static str>| {
        let mut v = v;
        v.sort();
        v
    };
    let v4 = Ip::V4(5, 9, 0, 1);
    let v6 = Ip::V6(0x2a01, 0, 0, 0, 0, 0, 0, 1);
    assert_eq!(sorted(ip_endpoints(&v4)), sorted(IPV4_ENDPOINTS.to_vec()));
    assert_eq!(sorted(ip_endpoints(&v6)), sorted(IPV6_ENDPOINTS.to_vec()));
    let first = ip_endpoints(&v4);
    assert!((0..200).any(|_| ip_endpoints(&v4) != first));
}

#[test]
fn two_answers_confirm() {
    let run = |answers: &[Option<&str>]| {
        answers.iter().fold(IpStep::Matched(0), |s, a| ip_step(s, *a, "5.9.0.1"))
    };
    assert_eq!(run(&[Some("5.9.0.1\n"), Some("1.1.1.1"), Some(" 5.9.0.1")]), IpStep::Confirmed);
    assert_eq!(run(&[Some("5.9.0.1"), Some("5.9.0.10")]), IpStep::Matched(1));
    assert_eq!(run(&[Some("5.9.0.1"), None, Some("5.9.0.1")]), IpStep::Unconfirmed);
    assert_eq!(run(&[Some("5.9.0.1"), Some("5.9.0.1"), None]), IpStep::Confirmed);
    assert_eq!(run(&[]), IpStep::Matched(0));
}

#[test]
fn tests_of_services() {
    match check_service(&info(SvcKind::Ssh, 79, None)) {
        Ok(ServiceTest::Ssh(a)) => assert_eq!(a, "5.9.0.1:79"),
        _ => panic!("SSH is tested otherwise"),
    }
    match check_service(&info(SvcKind::Nginx, 443, None)) {
        Ok(ServiceTest::Nginx(a)) => assert_eq!(a, "ui.a.example.com:443"),
        _ => panic!("Nginx is tested otherwise"),
    }
    match check_service(&info(xray("day3"), 10000, Some("https://x/y"))) {
        Ok(ServiceTest::Xray(XrayTest::Inbound(link, file))) => {
            assert_eq!(link, "https://x/y");
            assert_eq!(file, "jsub_a_day3.json");
        }
        _ => panic!("an inbound is tested otherwise"),
    }
    assert!(matches!(
        check_service(&info(xray("super"), 0, None)),
        Ok(ServiceTest::Xray(XrayTest::Super))
    ));
    let err = |r: Result<XrayTest, String>| match r {
        Err(e) => e,
        Ok(_) => panic!("the service was tested"),
    };
    assert_eq!(
        err(check_xray(&info(xray("day3"), 10000, None))),
        "The link in an Xray service shouldn't be empty"
    );
    assert_eq!(
        err(check_xray(&info(SvcKind::Ssh, 79, None))),
        "The service given is not an Xray one"
    );
}

#[test]
fn ports_of_local_inbounds() {
    let inb = |protocol: Option<&str>, port| LocalInbound {
        protocol: protocol.map(|p| p.to_string()),
        port,
    };
    assert_eq!(port_for(&inb(Some("socks"), PortField::Number(1)), 10000), Some(10000));
    assert_eq!(port_for(&inb(Some("mixed"), PortField::Other), 10000), Some(10000));
    assert_eq!(port_for(&inb(Some("socks"), PortField::Absent), 10000), None);
    assert_eq!(port_for(&inb(Some("http"), PortField::Number(10809)), 10000), Some(20809));
    assert_eq!(port_for(&inb(Some("http"), PortField::Other), 10000), None);
    assert_eq!(port_for(&inb(Some("vless"), PortField::Number(1)), 10000), None);
    assert_eq!(port_for(&inb(None, PortField::Number(1)), 10000), None);
}

#[test]
fn ports_of_a_document_are_moved() {
    let text = "{\"inbounds\":[{\"protocol\":\"socks\",\"port\":10808},{\"protocol\":\"http\",\
                \"port\":10809},{\"protocol\":\"dokodemo-door\",\"port\":1},{\"protocol\":\
                \"mixed\",\"port\":\"any\"}],\"log\":{}}";
    let moved: serde_json::Value =
        serde_json::from_str(&dl_sublink(text, 10003).unwrap()).unwrap();
    let port = |i: usize| moved["inbounds"][i]["port"].as_u64();
    assert_eq!([port(0), port(1), port(2), port(3)], [Some(10003), Some(20812), Some(1), Some(10003)]);
    assert!(moved["log"].is_object());
    assert_eq!(dl_sublink("{\"a\":1}", 1).unwrap(), "{\n  \"a\": 1\n}");
    assert_eq!(dl_sublink("[{\"port\":1}]", 7).unwrap(), "[\n  {\n    \"port\": 1\n  }\n]");
    assert!(dl_sublink("{", 1).is_err());
}

#[test]
fn places_of_services() {
    let place = |kind, port| endpoint(&info(kind, port, None));
    assert_eq!(place(SvcKind::Ssh, 79).as_deref(), Some("5.9.0.1:79"));
    assert_eq!(place(SvcKind::Nginx, 443).as_deref(), Some("ui.a.example.com:443"));
    assert_eq!(place(xray("day3"), 10000).as_deref(), Some("sub.a.example.com:2083"));
    assert_eq!(place(xray("gone"), 10000), None);
    assert_eq!(success_message(&info(SvcKind::Ssh, 79, None)), "connectable");
    assert_eq!(success_message(&info(SvcKind::Nginx, 443, None)), "reachable");
    assert_eq!(success_message(&info(xray("day3"), 1, None)), "healthy");
    assert_eq!(success_message(&info(xray("super"), 0, None)), "all inbounds are healthy");
}

#[test]
fn reports_of_failures() {
    assert_eq!(
        failed(SvcKind::Ssh, 79, 1700000000).to_string(),
        "❌[ Monitoring ][ SSH ][ a ] (5.9.0.1:79) has failed 3 times since 2023-11-14 22:13:20. \
         Error: bad"
    );
    assert_eq!(
        failed(xray("gone"), 1, 0).to_string(),
        "The inbound can't be found in the server."
    );
    assert_eq!(
        failed(SvcKind::Ssh, 79, i64::MAX as u64).to_string(),
        "Couldn't convert failed_since to a human-readable format."
    );
}

#[test]
fn lines_of_the_log() {
    match failed(SvcKind::Nginx, 443, 0).print_error("") {
        ErrorLine::Failure(place, since, count, error, extra, word) => {
            assert_eq!(place, "ui.a.example.com:443");
            assert_eq!(since, "1970-01-01 00:00:00");
            assert_eq!(count, 3);
            assert_eq!(error, "bad");
            assert_eq!(extra, None);
            assert_eq!(word, "unreachable");
        }
        _ => panic!("the failure was not reported"),
    }
    match failed(xray("day3"), 1, 0).print_error("more") {
        ErrorLine::Failure(_, _, _, _, extra, word) => {
            assert_eq!((extra.as_deref(), word), (Some("more"), "unhealthy"));
        }
        _ => panic!("the failure was not reported"),
    }
    assert!(matches!(
        failed(xray("gone"), 1, 0).print_error(""),
        ErrorLine::NoInbound(i) if i == "gone"
    ));
    assert!(matches!(
        failed(SvcKind::Ssh, 79, i64::MAX as u64).print_error(""),
        ErrorLine::NoTime
    ));
}

#[test]
fn the_local_proxy_is_tried_ten_times() {
    for tries in 0..9 {
        assert_eq!(reach_step(tries, false), ReachStep::Again);
        assert_eq!(reach_step(tries, true), ReachStep::Reached);
    }
    assert_eq!(reach_step(9, false), ReachStep::Unreachable);
    assert_eq!(reach_step(9, true), ReachStep::Reached);
    assert_eq!(reach_step(u64::MAX, false), ReachStep::Unreachable);
}

#[test]
fn only_confirmed_addresses_pass() {
    let other = Err("The returned IP is not the same as the server IP".to_string());
    assert_eq!(ip_verdict(IpStep::Confirmed), Ok(()));
    assert_eq!(ip_verdict(IpStep::Unconfirmed), other);
    assert_eq!(ip_verdict(IpStep::Matched(1)), other);
}
