use xcplane::ansible::AnsibleAction;
use xcplane::cloud::monitor::{
    initial_action, Aggregator, CheckEnd, Monitor, MonitorAction, MonitorEvent, SvcComm,
};
use xcplane::cloud::service::{
    check_super_xray, handle_response, sibling_health_check, super_sibling_fixtry, ActionMap,
    DashAction, FixJob, Response,
};
use xcplane::constants::{
    default_dns_subdomain, default_outbound_block, default_ssh_port, default_sub_subdomain,
    default_true, default_ui_subdomain,
};
use xcplane::strmap::StrMap;
use xcplane::types::{
    AtomicServerState, Inbound, InboundKind, Ip, IpAddr, KetServer, Secrets, ServerState, SvcEntry,
    SvcHealth, SvcInfo, SvcKind, SvcStatus, XuiToken,
};

fn inbound(name: &str, port: u16) -> Inbound {
    Inbound {
        name: name.to_string(),
        port,
        kind: InboundKind::VlessXhttpTls,
        total: 10,
        traffic: 20,
        expiry: 3,
        comment: String::new(),
    }
}

fn no_secrets() -> Secrets {
    Secrets {
        health_path: String::new(),
        doh_endpoint: String::new(),
        xui_username: String::new(),
        xui_password: String::new(),
        xui_token: XuiToken::empty(),
        xui_webpath: String::new(),
        xui_subpath: String::new(),
        xui_jsubpath: String::new(),
        mother_subids: StrMap::new(),
    }
}

fn server(name: &str, last: u8) -> KetServer {
    KetServer {
        name: name.to_string(),
        ip: IpAddr { ip: Ip::V4(5, 9, 0, last), text: format!("5.9.0.{last}") },
        domain: format!("{name}.example.com"),
        region: KetServer::default_country_code(),
        state: AtomicServerState::new(ServerState::Offgrid),
        quota: 0,
        enabled: default_true(),
        ssh_port: default_ssh_port(),
        dns_subdomain: default_dns_subdomain(),
        ui_subdomain: default_ui_subdomain(),
        sub_subdomain: default_sub_subdomain(),
        cloudflare_proxied: false,
        inbounds: vec![],
        outbound_block: default_outbound_block(),
        ansible_conn: None,
        secrets: no_secrets(),
        cfstate: None,
    }
}

fn info(kind: SvcKind) -> SvcInfo {
    let mut s = server("a", 1);
    s.inbounds = vec![inbound("day3", 2083)];
    SvcInfo { server: s, port: 1, kind, link: None }
}

fn xray(name: &str) -> SvcKind {
    SvcKind::Xray(name.to_string())
}

fn action(svc_health: SvcHealth, fix_try: u8, fix_action: FixJob) -> DashAction {
    DashAction { svc_health, fix_try, fix_action }
}

/// The registry of a server with one inbound, with these entries for SSH, Nginx,
/// the inbound and the supervisor.
fn registry(a: [DashAction; 4]) -> ActionMap {
    let kinds = [SvcKind::Ssh, SvcKind::Nginx, xray("day3"), xray("super")];
    ActionMap { entries: kinds.into_iter().map(|k| info(k).task()).zip(a).collect() }
}

fn well() -> DashAction {
    action(SvcHealth::Healthy, 0, FixJob::Idle)
}

fn sick(failed_count: u64, fix_try: u8) -> SvcStatus {
    SvcStatus { health: SvcHealth::Sick, failed_count, failed_since: 50, fix_try }
}

/// What is done after a failed check of a service that had failed 9 times before,
/// where 10 failures call for a repair.
fn fail(kind: SvcKind, fix_try: u8, m: &ActionMap, backup: bool) -> Response {
    handle_response(&info(kind), sick(9, fix_try), false, m, true, 10, 77, backup).unwrap()
}

fn failure(r: Result<Response, String>) -> String {
    match r {
        Err(e) => e,
        Ok(_) => panic!("there was an answer"),
    }
}

#[test]
fn failures_are_counted() {
    let m = registry([well(); 4]);
    let fresh = SvcStatus { health: SvcHealth::Healthy, failed_count: 0, failed_since: 5, fix_try: 0 };
    let r = handle_response(&info(SvcKind::Nginx), fresh, false, &m, true, 10, 77, true).unwrap();
    assert_eq!(r.status, SvcStatus { health: SvcHealth::Sick, failed_count: 1, failed_since: 77, fix_try: 0 });
    assert_eq!(r.own, Some(action(SvcHealth::Sick, 0, FixJob::Idle)));
    let r = handle_response(&info(SvcKind::Nginx), r.status, false, &m, true, 10, 99, true).unwrap();
    assert_eq!((r.status.failed_count, r.status.failed_since), (2, 77));
    assert_eq!(r.extra_info, "");
}

#[test]
fn no_repair_without_cause_or_leave() {
    let m = registry([well(); 4]);
    let r = handle_response(&info(SvcKind::Nginx), sick(8, 0), false, &m, true, 10, 77, true).unwrap();
    assert_eq!((r.start, r.action), (None, None));
    let r = handle_response(&info(SvcKind::Nginx), sick(99, 0), false, &m, false, 10, 77, true).unwrap();
    assert_eq!((r.start, r.status.fix_try), (None, 0));
}

#[test]
fn ssh_is_never_repaired() {
    let r = fail(SvcKind::Ssh, 0, &registry([well(); 4]), true);
    assert_eq!(r.start, None);
    assert_eq!(r.status, SvcStatus { fix_try: 1, ..sick(10, 1) });
    assert_eq!(r.own, Some(action(SvcHealth::Sick, 1, FixJob::Idle)));
    assert_eq!(r.extra_info, "critical connection issue; needs manual inspection");
}

#[test]
fn repairs_of_nginx() {
    let with = |a: DashAction| registry([well(), a, well(), well()]);
    let job = |level, j| action(SvcHealth::Sick, level, j);
    let r = fail(SvcKind::Nginx, 0, &with(well()), true);
    assert_eq!(r.start, Some(AnsibleAction::NginxRestart));
    assert_eq!((r.take_job, r.status.fix_try), (false, 0));
    assert_eq!(r.own, Some(job(0, FixJob::Running)));
    assert_eq!(r.extra_info, "fix action: try to restart Nginx");
    let r = fail(SvcKind::Nginx, 0, &with(job(0, FixJob::Running)), true);
    assert_eq!((r.start, r.action), (None, Some(AnsibleAction::NginxRestart)));
    assert_eq!(r.own, Some(job(0, FixJob::Running)));
    assert_eq!(r.extra_info, "fix action: trying to restart Nginx");
    let r = fail(SvcKind::Nginx, 0, &with(job(0, FixJob::Finished)), true);
    assert_eq!(r.start, Some(AnsibleAction::NginxRestoreConfig));
    assert_eq!((r.take_job, r.status.fix_try), (true, 1));
    assert_eq!(r.own, Some(job(1, FixJob::Running)));
    assert_eq!(r.extra_info, "fix action: restore Nginx config");
    let r = fail(SvcKind::Nginx, 1, &with(job(1, FixJob::Running)), true);
    assert_eq!(r.extra_info, "fix action: restoring Nginx config");
    let r = fail(SvcKind::Nginx, 1, &with(job(1, FixJob::Finished)), true);
    assert_eq!((r.start, r.take_job, r.status.fix_try), (None, true, 2));
    assert_eq!(r.own, Some(job(2, FixJob::Idle)));
    assert_eq!(r.extra_info, "fixing attempts failed");
    let r = fail(SvcKind::Nginx, 2, &with(job(2, FixJob::Idle)), true);
    assert_eq!((r.start, r.status.fix_try), (None, 2));
    assert_eq!(
        r.extra_info,
        "automated fix attempts have been futile--inspect the server manually"
    );
}

#[test]
fn nginx_is_repaired_through_ssh() {
    let m = registry([action(SvcHealth::Unknown, 0, FixJob::Idle), well(), well(), well()]);
    let r = fail(SvcKind::Nginx, 0, &m, true);
    assert_eq!(r.start, None);
    assert_eq!(r.extra_info, "SSH is not working--no fixing attempt could be done");
    assert_eq!(r.own, Some(action(SvcHealth::Sick, 0, FixJob::Idle)));
}

#[test]
fn repairs_of_xray() {
    let with = |a: DashAction| registry([well(), well(), well(), a]);
    let job = |level, j| action(SvcHealth::Sick, level, j);
    let r = fail(xray("super"), 0, &with(job(0, FixJob::Idle)), true);
    assert_eq!(r.start, Some(AnsibleAction::XrayRestart));
    assert_eq!(r.own, Some(job(0, FixJob::Running)));
    assert_eq!(r.extra_info, "fix action: try to restart Xray");
    let r = fail(xray("super"), 0, &with(job(0, FixJob::Running)), true);
    assert_eq!((r.start, r.take_job, r.extra_info.as_str()), (None, false, ""));
    // After a repair the next one waits for the following check.
    let r = fail(xray("super"), 0, &with(job(0, FixJob::Finished)), true);
    assert_eq!((r.start, r.take_job, r.status.fix_try), (None, true, 1));
    assert_eq!(r.own, Some(job(0, FixJob::Idle)));
    assert_eq!(r.extra_info, "");
    let r = fail(xray("super"), 1, &with(job(0, FixJob::Idle)), true);
    assert_eq!(r.start, Some(AnsibleAction::XrayRestoreDB));
    assert_eq!(r.own, Some(job(1, FixJob::Running)));
    assert_eq!(r.extra_info, "fix action: restore the last known good DB");
    // Without a backup nothing can be restored.
    let r = fail(xray("super"), 0, &with(job(0, FixJob::Finished)), false);
    assert_eq!((r.take_job, r.status.fix_try), (true, 2));
    assert_eq!(r.extra_info, "no backup exits, ");
    let r = fail(xray("super"), 1, &with(job(1, FixJob::Finished)), false);
    assert_eq!((r.status.fix_try, r.extra_info.as_str()), (2, ""));
    let r = fail(xray("super"), 2, &with(job(1, FixJob::Idle)), true);
    assert_eq!(r.start, None);
    assert_eq!(
        r.extra_info,
        "automated fix attempts have been futile--inspect the server manually"
    );
}

#[test]
fn xray_is_repaired_where_ssh_and_nginx_work() {
    let bad = action(SvcHealth::Sick, 0, FixJob::Idle);
    for m in [registry([bad, well(), well(), well()]), registry([well(), bad, well(), well()])] {
        let r = fail(xray("super"), 0, &m, true);
        assert_eq!(r.start, None);
        assert_eq!(
            r.extra_info,
            "SSH and/or Nginx are not working--no fixing attempt could be done"
        );
    }
}

#[test]
fn inbounds_follow_the_supervisor() {
    let sup = action(SvcHealth::Sick, 2, FixJob::Idle);
    let m = registry([well(), well(), well(), sup]);
    let r = fail(xray("day3"), 0, &m, true);
    assert_eq!((r.start, r.status.fix_try), (None, 2));
    assert_eq!(r.own, Some(action(SvcHealth::Sick, 2, FixJob::Idle)));
    assert_eq!(super_sibling_fixtry(&info(xray("day3")), &m), Ok(2));
}

#[test]
fn missing_entries() {
    let only = |k: SvcKind| ActionMap { entries: vec![(info(k).task(), well())] };
    let of = |k: SvcKind, m: &ActionMap| {
        failure(handle_response(&info(k), sick(9, 0), false, m, true, 10, 77, true))
    };
    assert_eq!(
        of(SvcKind::Nginx, &only(SvcKind::Ssh)),
        "Couldn't get the Nginx 'action' from the action_map to see if the fix has finished."
    );
    assert_eq!(
        of(xray("day3"), &only(SvcKind::Ssh)),
        "Couldn't extract super xray fix_try from action_map"
    );
    let both = ActionMap {
        entries: vec![(info(SvcKind::Ssh).task(), well()), (info(SvcKind::Nginx).task(), well())],
    };
    assert_eq!(
        of(xray("super"), &both),
        "Couldn't get the super Xray 'action' from the action_map to see if the fix has finished."
    );
    assert_eq!(
        failure(handle_response(&info(xray("gone")), sick(0, 0), true, &both, true, 10, 0, true)),
        "The inbound cannot be found in the server."
    );
}

#[test]
fn a_healthy_service_starts_anew() {
    let m = registry([action(SvcHealth::Sick, 1, FixJob::Finished); 4]);
    let r = handle_response(&info(SvcKind::Nginx), sick(9, 2), true, &m, true, 10, 99, true).unwrap();
    assert_eq!(
        r.status,
        SvcStatus { health: SvcHealth::Healthy, failed_count: 0, failed_since: 50, fix_try: 0 }
    );
    assert_eq!(r.own, Some(well()));
    assert!(!r.backup);
    // The supervisor has a backup made.
    let r = handle_response(&info(xray("super")), sick(9, 2), true, &m, true, 10, 99, true).unwrap();
    assert!(r.backup);
    assert_eq!(r.status.health, SvcHealth::Healthy);
    assert_eq!(r.own, Some(action(SvcHealth::Sick, 1, FixJob::Finished)));
}

#[test]
fn the_supervisor_looks_at_all_inbounds() {
    let sup = info(xray("super"));
    let bad = action(SvcHealth::Unknown, 0, FixJob::Idle);
    assert_eq!(check_super_xray(&sup, &registry([bad, bad, well(), bad])), Ok(()));
    assert_eq!(
        check_super_xray(&sup, &registry([well(), well(), bad, well()])),
        Err("one or more unhealthy inbounds".to_string())
    );
    let m = registry([well(), bad, well(), well()]);
    assert!(sibling_health_check(&sup, &m, &SvcKind::Ssh));
    assert!(!sibling_health_check(&sup, &m, &SvcKind::Nginx));
    assert!(sibling_health_check(&info(SvcKind::Ssh), &m, &xray("day3")));
    // Those of other servers do not count.
    let mut other = info(SvcKind::Ssh);
    other.server.name = "b".to_string();
    assert!(!sibling_health_check(&other, &m, &SvcKind::Ssh));
}

#[test]
fn the_loop_of_a_monitor() {
    let mut m = Monitor::new(SvcEntry { info: info(SvcKind::Nginx), status: sick(3, 2) });
    assert!(matches!(m.step(MonitorEvent::Tick), MonitorAction::StartCheck));
    assert!(matches!(m.step(MonitorEvent::Tick), MonitorAction::Nothing));
    assert!(matches!(m.step(MonitorEvent::Checked(sick(4, 2))), MonitorAction::Nothing));
    assert_eq!(m.entry.status, sick(4, 2));
    assert!(matches!(m.step(MonitorEvent::CheckEnded(CheckEnd::Failed)), MonitorAction::Nothing));
    assert!(matches!(m.step(MonitorEvent::Tick), MonitorAction::StartCheck));
    // A check that crashed is never followed by another one.
    m.step(MonitorEvent::CheckEnded(CheckEnd::Crashed));
    assert!(matches!(m.step(MonitorEvent::Tick), MonitorAction::Nothing));
    match m.step(MonitorEvent::Command(SvcComm::ResetFix)) {
        MonitorAction::Flush(a) => assert_eq!(a, action(SvcHealth::Sick, 0, FixJob::Idle)),
        _ => panic!("nothing was written"),
    }
    assert_eq!(m.entry.status, sick(4, 0));
    match m.step(MonitorEvent::Command(SvcComm::GetSummary)) {
        MonitorAction::Reply(s) => {
            assert!(s.service == SvcKind::Nginx);
            assert_eq!((s.server.as_str(), s.health), ("a", SvcHealth::Sick));
        }
        _ => panic!("there was no reply"),
    }
    assert_eq!(initial_action(&sick(1, 2)), action(SvcHealth::Sick, 2, FixJob::Idle));
    assert_eq!(DashAction::default(), action(SvcHealth::Unknown, 0, FixJob::Idle));
}

#[test]
fn statuses_are_written_together() {
    let entry = |n| SvcEntry { info: info(SvcKind::Ssh), status: sick(n, 0) };
    let mut a = Aggregator::new();
    assert!(a.tick().is_none());
    assert!(a.push(3, entry(1)).is_none());
    assert!(a.push(3, entry(2)).is_none());
    let batch = a.push(3, entry(3)).unwrap();
    assert_eq!(batch.iter().map(|e| e.status.failed_count).collect::<Vec<_>>(), [1, 2, 3]);
    assert!(a.push(3, entry(4)).is_none());
    assert_eq!(a.tick().unwrap().len(), 1);
    assert!(a.tick().is_none());
}
