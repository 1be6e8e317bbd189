//! Monitoring a service: what a check changes in its status, and which repair
//! is tried.

use vstd::prelude::*;

use crate::ansible::AnsibleAction;
use crate::types::{
    same_service, super_text, SvcHealth, SvcInfo, SvcInfoView, SvcKind, SvcKindView, SvcStatus,
    TaskEntry, TaskView,
};

verus! {

// ---------------------------------------------------------------- the registry

/// The repair of a service, as the registry shows it.
#[derive(Clone, Copy, Debug, PartialEq, Eq, Structural)]
pub enum FixJob {
    /// None was started, or the last one was taken out.
    Idle,
    Running,
    Finished,
}

/// What the registry knows of a service, for the others to see.
#[derive(Clone, Copy, Debug, PartialEq, Eq, Structural)]
pub struct DashAction {
    pub svc_health: SvcHealth,
    pub fix_try: u8,
    pub fix_action: FixJob,
}

impl DashAction {
    /// What is known of a service before its first check.
    pub fn default() -> (r: Self)
        ensures
            r == (DashAction {
                svc_health: SvcHealth::Unknown,
                fix_try: 0,
                fix_action: FixJob::Idle,
            }),
    {
        DashAction { svc_health: SvcHealth::Unknown, fix_try: 0, fix_action: FixJob::Idle }
    }
}

/// A picture of the registry.
pub struct ActionMap {
    pub entries: Vec<(TaskEntry, DashAction)>,
}

pub open spec fn registry(m: ActionMap) -> Seq<(TaskView, DashAction)> {
    m.entries@.map_values(|e: (TaskEntry, DashAction)| (e.0@, e.1))
}

/// The task monitors the service.
pub open spec fn monitors(t: TaskView, info: SvcInfoView) -> bool {
    match (t, info.kind) {
        (TaskView::SshMonitor(i), SvcKindView::Ssh) => same_service(i, info),
        (TaskView::NginxMonitor(i), SvcKindView::Nginx) => same_service(i, info),
        (TaskView::XrayMonitor(i), SvcKindView::Xray(_)) => same_service(i, info),
        _ => false,
    }
}

/// The task monitors the given kind of service on the server. For Xray that is
/// the supervisor.
pub open spec fn is_sibling(t: TaskView, server: Seq<char>, kind: SvcKindView) -> bool {
    match (t, kind) {
        (TaskView::SshMonitor(i), SvcKindView::Ssh) => i.server.name == server,
        (TaskView::NginxMonitor(i), SvcKindView::Nginx) => i.server.name == server,
        (TaskView::XrayMonitor(i), SvcKindView::Xray(_)) => i.server.name == server && i.kind
            == SvcKindView::Xray(super_text()),
        _ => false,
    }
}

/// The entry of a sibling service, from this place on.
pub open spec fn sibling_from(
    m: Seq<(TaskView, DashAction)>,
    server: Seq<char>,
    kind: SvcKindView,
    i: int,
) -> Option<DashAction>
    decreases m.len() - i,
{
    if i >= m.len() {
        None
    } else if is_sibling(m[i].0, server, kind) {
        Some(m[i].1)
    } else {
        sibling_from(m, server, kind, i + 1)
    }
}

/// The entry of the service itself, from this place on.
pub open spec fn own_from(m: Seq<(TaskView, DashAction)>, info: SvcInfoView, i: int) -> Option<
    DashAction,
>
    decreases m.len() - i,
{
    if i >= m.len() {
        None
    } else if monitors(m[i].0, info) {
        Some(m[i].1)
    } else {
        own_from(m, info, i + 1)
    }
}

/// A sibling service is known to be healthy.
pub open spec fn sibling_ok(m: Seq<(TaskView, DashAction)>, server: Seq<char>, kind: SvcKindView) -> bool {
    match sibling_from(m, server, kind, 0) {
        Some(a) => a.svc_health == SvcHealth::Healthy,
        None => false,
    }
}

/// The inbound of another Xray service of the server is not known to be healthy.
pub open spec fn is_unhealthy_inbound(e: (TaskView, DashAction), info: SvcInfoView) -> bool {
    match e.0 {
        TaskView::XrayMonitor(i) => i.kind != info.kind && i.server.name == info.server.name
            && e.1.svc_health != SvcHealth::Healthy,
        _ => false,
    }
}

fn task_monitors(t: &TaskEntry, info: &SvcInfo) -> (r: bool)
    ensures
        r == monitors(t@, info@),
{
    match (t, &info.kind) {
        (TaskEntry::SshMonitor(i), SvcKind::Ssh) => *i == *info,
        (TaskEntry::NginxMonitor(i), SvcKind::Nginx) => *i == *info,
        (TaskEntry::XrayMonitor(i), SvcKind::Xray(_)) => *i == *info,
        _ => false,
    }
}

fn task_is_sibling(t: &TaskEntry, server: &String, kind: &SvcKind) -> (r: bool)
    ensures
        r == is_sibling(t@, server@, kind@),
{
    match (t, kind) {
        (TaskEntry::SshMonitor(i), SvcKind::Ssh) => i.server.name == *server,
        (TaskEntry::NginxMonitor(i), SvcKind::Nginx) => i.server.name == *server,
        (TaskEntry::XrayMonitor(i), SvcKind::Xray(_)) => i.server.name == *server && i.kind
            == SvcKind::super_xray(),
        _ => false,
    }
}

impl ActionMap {
    /// The entry of the service.
    pub fn get(&self, info: &SvcInfo) -> (r: Option<DashAction>)
        ensures
            r == own_from(registry(*self), info@, 0),
    {
        let ghost m = registry(*self);
        let mut i: usize = 0;
        while i < self.entries.len()
            invariant
                i <= self.entries@.len(),
                m == registry(*self),
                own_from(m, info@, 0) == own_from(m, info@, i as int),
            decreases self.entries@.len() - i,
        {
            assert(m[i as int] == (self.entries@[i as int].0@, self.entries@[i as int].1));
            if task_monitors(&self.entries[i].0, info) {
                return Some(self.entries[i].1);
            }
            i += 1;
        }
        None
    }

    /// The entry of a sibling service.
    fn sibling(&self, server: &String, kind: &SvcKind) -> (r: Option<DashAction>)
        ensures
            r == sibling_from(registry(*self), server@, kind@, 0),
    {
        let ghost m = registry(*self);
        let mut i: usize = 0;
        while i < self.entries.len()
            invariant
                i <= self.entries@.len(),
                m == registry(*self),
                sibling_from(m, server@, kind@, 0) == sibling_from(m, server@, kind@, i as int),
            decreases self.entries@.len() - i,
        {
            assert(m[i as int] == (self.entries@[i as int].0@, self.entries@[i as int].1));
            if task_is_sibling(&self.entries[i].0, server, kind) {
                return Some(self.entries[i].1);
            }
            i += 1;
        }
        None
    }
}

/// Is a sibling service known to be healthy?
pub fn sibling_health_check(svc_info: &SvcInfo, action_map: &ActionMap, sibling: &SvcKind) -> (r: bool)
    ensures
        r == sibling_ok(registry(*action_map), svc_info@.server.name, sibling@),
{
    match action_map.sibling(&svc_info.server.name, sibling) {
        Some(a) => a.svc_health == SvcHealth::Healthy,
        None => false,
    }
}

/// The repairs that were tried for the Xray daemon of the server.
pub fn super_sibling_fixtry(svc_info: &SvcInfo, action_map: &ActionMap) -> (r: Result<u8, String>)
    ensures
        match (
            r,
            sibling_from(
                registry(*action_map),
                svc_info@.server.name,
                SvcKindView::Xray(super_text()),
                0,
            ),
        ) {
            (Ok(n), Some(a)) => n == a.fix_try,
            (Err(e), None) => e@ == "Couldn't extract super xray fix_try from action_map"@,
            _ => false,
        },
{
    let sup = SvcKind::super_xray();
    match action_map.sibling(&svc_info.server.name, &sup) {
        Some(a) => Ok(a.fix_try),
        None => Err("Couldn't extract super xray fix_try from action_map".to_owned()),
    }
}

/// Checks that all Xray inbounds of the server are healthy.
pub fn check_super_xray(svc_info: &SvcInfo, action_map: &ActionMap) -> (r: Result<(), String>)
    ensures
        r is Err <==> exists|i: int|
            0 <= i < registry(*action_map).len() && #[trigger] is_unhealthy_inbound(
                registry(*action_map)[i],
                svc_info@,
            ),
        r matches Err(e) ==> e@ == "one or more unhealthy inbounds"@,
{
    let ghost m = registry(*action_map);
    let mut i: usize = 0;
    while i < action_map.entries.len()
        invariant
            i <= action_map.entries@.len(),
            m == registry(*action_map),
            forall|j: int| 0 <= j < i ==> !#[trigger] is_unhealthy_inbound(m[j], svc_info@),
        decreases action_map.entries@.len() - i,
    {
        let e = &action_map.entries[i];
        assert(m[i as int] == (e.0@, e.1));
        if let TaskEntry::XrayMonitor(svc) = &e.0 {
            if !(svc.kind == svc_info.kind) && svc.server.name == svc_info.server.name
                && e.1.svc_health != SvcHealth::Healthy {
                assert(is_unhealthy_inbound(m[i as int], svc_info@));
                return Err("one or more unhealthy inbounds".to_owned());
            }
        }
        i += 1;
    }
    Ok(())
}

// ---------------------------------------------------------------- statuses

/// The status after a check that succeeded. The time of the last failure stays.
pub open spec fn status_ok(s: SvcStatus) -> SvcStatus {
    if s.failed_count > 0 || s.health != SvcHealth::Healthy {
        SvcStatus { health: SvcHealth::Healthy, failed_count: 0, fix_try: 0, ..s }
    } else {
        s
    }
}

/// The status after a check that failed at the time `now`, before any repair.
pub open spec fn status_failed(s: SvcStatus, now: u64) -> SvcStatus {
    SvcStatus {
        health: SvcHealth::Sick,
        failed_count: (s.failed_count + 1) as u64,
        failed_since: if s.failed_count == 0 {
            now
        } else {
            s.failed_since
        },
        ..s
    }
}

/// What is done about a service after a check.
pub struct Response {
    /// The status of the service from now on.
    pub status: SvcStatus,
    /// The finished repair is taken out of the registry, and its result is
    /// reported.
    pub take_job: bool,
    /// The repair that is started.
    pub start: Option<AnsibleAction>,
    /// The entry of the service in the registry from now on, where it has one.
    pub own: Option<DashAction>,
    /// The repair that the report of the failure names.
    pub action: Option<AnsibleAction>,
    /// What the report of the failure adds.
    pub extra_info: String,
    /// The database of the panel is backed up.
    pub backup: bool,
}

#[verifier::ext_equal]
pub struct ResponseView {
    pub status: SvcStatus,
    pub take_job: bool,
    pub start: Option<AnsibleAction>,
    pub own: Option<DashAction>,
    pub action: Option<AnsibleAction>,
    pub extra_info: Seq<char>,
    pub backup: bool,
}

impl View for Response {
    type V = ResponseView;

    open spec fn view(&self) -> ResponseView {
        ResponseView {
            status: self.status,
            take_job: self.take_job,
            start: self.start,
            own: self.own,
            action: self.action,
            extra_info: self.extra_info@,
            backup: self.backup,
        }
    }
}

/// The entry with a changed health.
pub open spec fn with_health(own: Option<DashAction>, h: SvcHealth) -> Option<DashAction> {
    match own {
        Some(a) => Some(DashAction { svc_health: h, ..a }),
        None => None,
    }
}

/// The entry replaced by another one, where there is one.
pub open spec fn replaced(own: Option<DashAction>, a: DashAction) -> Option<DashAction> {
    match own {
        Some(_) => Some(a),
        None => None,
    }
}

/// Nothing but the status and the health in the registry changes.
pub open spec fn no_repair(s: SvcStatus, own: Option<DashAction>, extra: Seq<char>) -> ResponseView {
    ResponseView {
        status: s,
        take_job: false,
        start: None,
        own: with_health(own, s.health),
        action: None,
        extra_info: extra,
        backup: false,
    }
}

pub open spec fn job_of(start: Option<AnsibleAction>) -> FixJob {
    match start {
        Some(_) => FixJob::Running,
        None => FixJob::Idle,
    }
}

/// The repair of Nginx at a level, and what is said of it: `free` tells that no
/// repair is running.
pub open spec fn nginx_repair(free: bool, level: int) -> (Option<AnsibleAction>, Seq<char>) {
    if level == 0 {
        (
            Some(AnsibleAction::NginxRestart),
            if free {
                "fix action: try to restart Nginx"@
            } else {
                "fix action: trying to restart Nginx"@
            },
        )
    } else if level == 1 {
        (
            Some(AnsibleAction::NginxRestoreConfig),
            if free {
                "fix action: restore Nginx config"@
            } else {
                "fix action: restoring Nginx config"@
            },
        )
    } else {
        (None, "fixing attempts failed"@)
    }
}

/// What is done about a sick Nginx past the threshold: with SSH at hand and a
/// level left, a restart first, and the restoration of its configuration once
/// the restart has finished without effect.
pub open spec fn nginx_response(s: SvcStatus, own: Option<DashAction>, ssh_ok: bool) -> Result<
    ResponseView,
    Seq<char>,
> {
    if !ssh_ok {
        Ok(no_repair(s, own, "SSH is not working--no fixing attempt could be done"@))
    } else if s.fix_try >= 2 {
        Ok(
            no_repair(
                s,
                own,
                "automated fix attempts have been futile--inspect the server manually"@,
            ),
        )
    } else {
        match own {
            None => Err(
                "Couldn't get the Nginx 'action' from the action_map to see if the fix has finished."@,
            ),
            Some(a) => {
                let finished = a.fix_action == FixJob::Finished;
                let free = a.fix_action != FixJob::Running;
                let level: int = if finished {
                    s.fix_try + 1
                } else {
                    s.fix_try as int
                };
                let (action, extra) = nginx_repair(free, level);
                let start = if free {
                    action
                } else {
                    None
                };
                Ok(
                    ResponseView {
                        status: SvcStatus { fix_try: level as u8, ..s },
                        take_job: finished,
                        start,
                        own: if free {
                            Some(
                                DashAction {
                                    svc_health: s.health,
                                    fix_try: level as u8,
                                    fix_action: job_of(start),
                                },
                            )
                        } else {
                            with_health(own, s.health)
                        },
                        action,
                        extra_info: extra,
                        backup: false,
                    },
                )
            },
        }
    }
}

/// What is done about a sick Xray daemon past the threshold: with SSH and Nginx
/// at hand and a level left, a restart first, and the restoration of the last
/// good database later. After a repair has finished, the next one waits for the
/// following check. Where there is no backup, the second level is skipped.
pub open spec fn super_response(
    s: SvcStatus,
    own: Option<DashAction>,
    ssh_nginx_ok: bool,
    backup_exists: bool,
) -> Result<ResponseView, Seq<char>> {
    if !ssh_nginx_ok {
        Ok(
            no_repair(
                s,
                own,
                "SSH and/or Nginx are not working--no fixing attempt could be done"@,
            ),
        )
    } else if s.fix_try >= 2 {
        Ok(
            no_repair(
                s,
                own,
                "automated fix attempts have been futile--inspect the server manually"@,
            ),
        )
    } else {
        match own {
            None => Err(
                "Couldn't get the super Xray 'action' from the action_map to see if the fix has finished."@,
            ),
            Some(a) => match a.fix_action {
                FixJob::Running => Ok(no_repair(s, own, Seq::empty())),
                FixJob::Finished => {
                    let skip = s.fix_try == 0 && !backup_exists;
                    Ok(
                        ResponseView {
                            status: SvcStatus {
                                fix_try: if skip {
                                    2
                                } else {
                                    (s.fix_try + 1) as u8
                                },
                                ..s
                            },
                            take_job: true,
                            start: None,
                            own: Some(
                                DashAction {
                                    svc_health: s.health,
                                    fix_action: FixJob::Idle,
                                    ..a
                                },
                            ),
                            action: None,
                            extra_info: if skip {
                                "no backup exits, "@
                            } else {
                                Seq::empty()
                            },
                            backup: false,
                        },
                    )
                },
                FixJob::Idle => {
                    let (action, extra) = if s.fix_try == 0 {
                        (AnsibleAction::XrayRestart, "fix action: try to restart Xray"@)
                    } else {
                        (
                            AnsibleAction::XrayRestoreDB,
                            "fix action: restore the last known good DB"@,
                        )
                    };
                    Ok(
                        ResponseView {
                            status: s,
                            take_job: false,
                            start: Some(action),
                            own: Some(
                                DashAction {
                                    svc_health: s.health,
                                    fix_try: s.fix_try,
                                    fix_action: FixJob::Running,
                                },
                            ),
                            action: Some(action),
                            extra_info: extra,
                            backup: false,
                        },
                    )
                },
            },
        }
    }
}

/// What is done about a service after a check that failed at the time `now`.
pub open spec fn failure_response(
    info: SvcInfoView,
    before: SvcStatus,
    m: Seq<(TaskView, DashAction)>,
    auto_fix: bool,
    fix_threshold: u64,
    now: u64,
    backup_exists: bool,
) -> Result<ResponseView, Seq<char>> {
    let s = status_failed(before, now);
    let own = own_from(m, info, 0);
    let server = info.server.name;
    if !auto_fix || s.failed_count < fix_threshold {
        Ok(no_repair(s, own, Seq::empty()))
    } else {
        match info.kind {
            SvcKindView::Ssh => {
                let t = SvcStatus { fix_try: 1, ..s };
                Ok(
                    ResponseView {
                        status: t,
                        own: replaced(
                            own,
                            DashAction {
                                svc_health: t.health,
                                fix_try: 1,
                                fix_action: FixJob::Idle,
                            },
                        ),
                        ..no_repair(
                            t,
                            own,
                            "critical connection issue; needs manual inspection"@,
                        )
                    },
                )
            },
            SvcKindView::Nginx => nginx_response(s, own, sibling_ok(m, server, SvcKindView::Ssh)),
            SvcKindView::Xray(inbound) => if inbound == super_text() {
                super_response(
                    s,
                    own,
                    sibling_ok(m, server, SvcKindView::Ssh) && sibling_ok(
                        m,
                        server,
                        SvcKindView::Nginx,
                    ),
                    backup_exists,
                )
            } else {
                match sibling_from(m, server, SvcKindView::Xray(super_text()), 0) {
                    None => Err("Couldn't extract super xray fix_try from action_map"@),
                    Some(sup) => {
                        let t = SvcStatus { fix_try: sup.fix_try, ..s };
                        Ok(
                            ResponseView {
                                status: t,
                                own: replaced(
                                    own,
                                    DashAction {
                                        svc_health: t.health,
                                        fix_try: sup.fix_try,
                                        fix_action: FixJob::Idle,
                                    },
                                ),
                                ..no_repair(t, own, Seq::empty())
                            },
                        )
                    },
                }
            },
        }
    }
}

fn quiet(status: SvcStatus, own: Option<DashAction>, extra: &str) -> (r: Response)
    ensures
        r@ == no_repair(status, own, extra@),
{
    let changed = match own {
        Some(a) => Some(
            DashAction {
                svc_health: status.health,
                fix_try: a.fix_try,
                fix_action: a.fix_action,
            },
        ),
        None => None,
    };
    Response {
        status,
        take_job: false,
        start: None,
        own: changed,
        action: None,
        extra_info: extra.to_owned(),
        backup: false,
    }
}

/// The repairs of Nginx.
pub fn nginx_actions(status: SvcStatus, own: Option<DashAction>, ssh_ok: bool) -> (r: Result<
    Response,
    String,
>)
    ensures
        match r {
            Ok(x) => nginx_response(status, own, ssh_ok) == Ok::<ResponseView, Seq<char>>(x@),
            Err(e) => nginx_response(status, own, ssh_ok) == Err::<ResponseView, Seq<char>>(e@),
        },
{
    if !ssh_ok {
        return Ok(quiet(status, own, "SSH is not working--no fixing attempt could be done"));
    }
    if status.fix_try >= 2 {
        return Ok(
            quiet(
                status,
                own,
                "automated fix attempts have been futile--inspect the server manually",
            ),
        );
    }
    let entry = match own {
        Some(a) => a,
        None => return Err(
            "Couldn't get the Nginx 'action' from the action_map to see if the fix has finished.".to_owned(),
        ),
    };
    let finished = entry.fix_action == FixJob::Finished;
    let free = entry.fix_action != FixJob::Running;
    let level: u8 = if finished {
        status.fix_try + 1
    } else {
        status.fix_try
    };
    let (action, extra) = if level == 0 {
        (
            Some(AnsibleAction::NginxRestart),
            if free {
                "fix action: try to restart Nginx"
            } else {
                "fix action: trying to restart Nginx"
            },
        )
    } else if level == 1 {
        (
            Some(AnsibleAction::NginxRestoreConfig),
            if free {
                "fix action: restore Nginx config"
            } else {
                "fix action: restoring Nginx config"
            },
        )
    } else {
        (None, "fixing attempts failed")
    };
    let start = if free {
        action
    } else {
        None
    };
    let job = match start {
        Some(_) => FixJob::Running,
        None => FixJob::Idle,
    };
    let changed = if free {
        DashAction { svc_health: status.health, fix_try: level, fix_action: job }
    } else {
        DashAction {
            svc_health: status.health,
            fix_try: entry.fix_try,
            fix_action: entry.fix_action,
        }
    };
    Ok(
        Response {
            status: SvcStatus {
                health: status.health,
                failed_count: status.failed_count,
                failed_since: status.failed_since,
                fix_try: level,
            },
            take_job: finished,
            start,
            own: Some(changed),
            action,
            extra_info: extra.to_owned(),
            backup: false,
        },
    )
}

/// The repairs of the Xray daemon as a whole.
pub fn super_xray_actions(
    status: SvcStatus,
    own: Option<DashAction>,
    ssh_nginx_ok: bool,
    backup_exists: bool,
) -> (r: Result<Response, String>)
    ensures
        match r {
            Ok(x) => super_response(status, own, ssh_nginx_ok, backup_exists) == Ok::<
                ResponseView,
                Seq<char>,
            >(x@),
            Err(e) => super_response(status, own, ssh_nginx_ok, backup_exists) == Err::<
                ResponseView,
                Seq<char>,
            >(e@),
        },
{
    if !ssh_nginx_ok {
        return Ok(
            quiet(
                status,
                own,
                "SSH and/or Nginx are not working--no fixing attempt could be done",
            ),
        );
    }
    if status.fix_try >= 2 {
        return Ok(
            quiet(
                status,
                own,
                "automated fix attempts have been futile--inspect the server manually",
            ),
        );
    }
    let entry = match own {
        Some(a) => a,
        None => return Err(
            "Couldn't get the super Xray 'action' from the action_map to see if the fix has finished.".to_owned(),
        ),
    };
    match entry.fix_action {
        FixJob::Running => {
            let r = quiet(status, own, "");
            proof {
                reveal_strlit("");
                assert(""@ =~= Seq::<char>::empty());
            }
            Ok(r)
        },
        FixJob::Finished => {
            let skip = status.fix_try == 0 && !backup_exists;
            let level: u8 = if skip {
                2
            } else {
                status.fix_try + 1
            };
            let extra = if skip {
                "no backup exits, ".to_owned()
            } else {
                String::new()
            };
            Ok(
                Response {
                    status: SvcStatus {
                        health: status.health,
                        failed_count: status.failed_count,
                        failed_since: status.failed_since,
                        fix_try: level,
                    },
                    take_job: true,
                    start: None,
                    own: Some(
                        DashAction {
                            svc_health: status.health,
                            fix_try: entry.fix_try,
                            fix_action: FixJob::Idle,
                        },
                    ),
                    action: None,
                    extra_info: extra,
                    backup: false,
                },
            )
        },
        FixJob::Idle => {
            let (action, extra) = if status.fix_try == 0 {
                (AnsibleAction::XrayRestart, "fix action: try to restart Xray")
            } else {
                (AnsibleAction::XrayRestoreDB, "fix action: restore the last known good DB")
            };
            Ok(
                Response {
                    status,
                    take_job: false,
                    start: Some(action),
                    own: Some(
                        DashAction {
                            svc_health: status.health,
                            fix_try: status.fix_try,
                            fix_action: FixJob::Running,
                        },
                    ),
                    action: Some(action),
                    extra_info: extra.to_owned(),
                    backup: false,
                },
            )
        },
    }
}

/// What is done about a service after a check that failed.
pub fn handle_failure(
    info: &SvcInfo,
    before: SvcStatus,
    action_map: &ActionMap,
    auto_fix: bool,
    fix_threshold: u64,
    now: u64,
    backup_exists: bool,
) -> (r: Result<Response, String>)
    requires
        before.failed_count < u64::MAX,
    ensures
        match r {
            Ok(x) => failure_response(
                info@,
                before,
                registry(*action_map),
                auto_fix,
                fix_threshold,
                now,
                backup_exists,
            ) == Ok::<ResponseView, Seq<char>>(x@),
            Err(e) => failure_response(
                info@,
                before,
                registry(*action_map),
                auto_fix,
                fix_threshold,
                now,
                backup_exists,
            ) == Err::<ResponseView, Seq<char>>(e@),
        },
{
    let status = SvcStatus {
        health: SvcHealth::Sick,
        failed_count: before.failed_count + 1,
        failed_since: if before.failed_count == 0 {
            now
        } else {
            before.failed_since
        },
        fix_try: before.fix_try,
    };
    let own = action_map.get(info);
    proof {
        reveal_strlit("");
        assert(""@ =~= Seq::<char>::empty());
    }
    if !auto_fix || status.failed_count < fix_threshold {
        return Ok(quiet(status, own, ""));
    }
    match &info.kind {
        SvcKind::Ssh => Ok(
            settled_response(status, own, 1, "critical connection issue; needs manual inspection"),
        ),
        SvcKind::Nginx => {
            let ssh_ok = sibling_health_check(info, action_map, &SvcKind::Ssh);
            nginx_actions(status, own, ssh_ok)
        },
        SvcKind::Xray(inbound) => {
            if *inbound == SvcKind::super_name() {
                let ok = sibling_health_check(info, action_map, &SvcKind::Ssh)
                    && sibling_health_check(info, action_map, &SvcKind::Nginx);
                super_xray_actions(status, own, ok, backup_exists)
            } else {
                match super_sibling_fixtry(info, action_map) {
                    Ok(level) => Ok(settled_response(status, own, level, "")),
                    Err(e) => Err(e),
                }
            }
        },
    }
}

/// The response that sets the level in the status and in the registry, and
/// repairs nothing.
fn settled_response(status: SvcStatus, own: Option<DashAction>, level: u8, extra: &str) -> (r: Response)
    ensures
        ({
            let t = SvcStatus { fix_try: level, ..status };
            r@ == (ResponseView {
                status: t,
                own: replaced(
                    own,
                    DashAction { svc_health: t.health, fix_try: level, fix_action: FixJob::Idle },
                ),
                ..no_repair(t, own, extra@)
            })
        }),
{
    let t = SvcStatus {
        health: status.health,
        failed_count: status.failed_count,
        failed_since: status.failed_since,
        fix_try: level,
    };
    let changed = match own {
        Some(_) => Some(
            DashAction { svc_health: t.health, fix_try: level, fix_action: FixJob::Idle },
        ),
        None => None,
    };
    Response {
        status: t,
        take_job: false,
        start: None,
        own: changed,
        action: None,
        extra_info: extra.to_owned(),
        backup: false,
    }
}

/// What is done about a service after a check that succeeded: its status and
/// its entry in the registry are reset, and the supervisor has the database of
/// the panel backed up.
pub open spec fn success_response(
    info: SvcInfoView,
    before: SvcStatus,
    m: Seq<(TaskView, DashAction)>,
) -> Result<ResponseView, Seq<char>> {
    let own = own_from(m, info, 0);
    let is_super = info.kind == SvcKindView::Xray(super_text());
    if info.kind is Xray && !is_super && !crate::cloud::rebase::has_inbound(
        info.server.inbounds,
        info.kind->Xray_0,
    ) {
        Err("The inbound cannot be found in the server."@)
    } else {
        Ok(
            ResponseView {
                status: status_ok(before),
                take_job: false,
                start: None,
                own: if is_super {
                    own
                } else {
                    replaced(
                        own,
                        DashAction {
                            svc_health: SvcHealth::Healthy,
                            fix_try: 0,
                            fix_action: FixJob::Idle,
                        },
                    )
                },
                action: None,
                extra_info: Seq::empty(),
                backup: is_super,
            },
        )
    }
}

/// What is done about a service after a check that succeeded.
pub fn handle_success(info: &SvcInfo, before: SvcStatus, action_map: &ActionMap) -> (r: Result<
    Response,
    String,
>)
    ensures
        match r {
            Ok(x) => success_response(info@, before, registry(*action_map)) == Ok::<
                ResponseView,
                Seq<char>,
            >(x@),
            Err(e) => success_response(info@, before, registry(*action_map)) == Err::<
                ResponseView,
                Seq<char>,
            >(e@),
        },
{
    let own = action_map.get(info);
    let mut is_super = false;
    if let SvcKind::Xray(inbound) = &info.kind {
        if *inbound == SvcKind::super_name() {
            is_super = true;
        } else if crate::cloud::rebase::find_inbound(&info.server.inbounds, inbound).is_none() {
            return Err("The inbound cannot be found in the server.".to_owned());
        }
    }
    let status = if before.failed_count > 0 || before.health != SvcHealth::Healthy {
        SvcStatus {
            health: SvcHealth::Healthy,
            failed_count: 0,
            failed_since: before.failed_since,
            fix_try: 0,
        }
    } else {
        before
    };
    let changed = if is_super {
        own
    } else {
        match own {
            Some(_) => Some(
                DashAction {
                    svc_health: SvcHealth::Healthy,
                    fix_try: 0,
                    fix_action: FixJob::Idle,
                },
            ),
            None => None,
        }
    };
    Ok(
        Response {
            status,
            take_job: false,
            start: None,
            own: changed,
            action: None,
            extra_info: String::new(),
            backup: is_super,
        },
    )
}

/// What is done about a service after a check: `healthy` is its result, `now`
/// the time, and `backup_exists` tells whether the panel database of the server
/// was ever backed up.
pub fn handle_response(
    info: &SvcInfo,
    before: SvcStatus,
    healthy: bool,
    action_map: &ActionMap,
    auto_fix: bool,
    fix_threshold: u64,
    now: u64,
    backup_exists: bool,
) -> (r: Result<Response, String>)
    requires
        healthy || before.failed_count < u64::MAX,
    ensures
        ({
            let m = registry(*action_map);
            let want = if healthy {
                success_response(info@, before, m)
            } else {
                failure_response(
                    info@,
                    before,
                    m,
                    auto_fix,
                    fix_threshold,
                    now,
                    backup_exists,
                )
            };
            match r {
                Ok(x) => want == Ok::<ResponseView, Seq<char>>(x@),
                Err(e) => want == Err::<ResponseView, Seq<char>>(e@),
            }
        }),
{
    if healthy {
        handle_success(info, before, action_map)
    } else {
        handle_failure(
            info,
            before,
            action_map,
            auto_fix,
            fix_threshold,
            now,
            backup_exists,
        )
    }
}

// ---------------------------------------------------------------- the laws

/// Without automated repairs, or below the threshold, nothing is repaired and
/// no level is used up.
pub proof fn law_no_repair_below_threshold(
    info: SvcInfoView,
    before: SvcStatus,
    m: Seq<(TaskView, DashAction)>,
    auto_fix: bool,
    fix_threshold: u64,
    now: u64,
    backup_exists: bool,
)
    requires
        before.failed_count < u64::MAX,
        !auto_fix || before.failed_count + 1 < fix_threshold,
    ensures
        ({
            let r = failure_response(
                info,
                before,
                m,
                auto_fix,
                fix_threshold,
                now,
                backup_exists,
            );
            &&& r is Ok
            &&& r->Ok_0.start is None
            &&& !r->Ok_0.take_job
            &&& r->Ok_0.status.fix_try == before.fix_try
        }),
{
}

/// Repairs exist for Nginx and for the Xray daemon alone. They come in two
/// steps, the second one after the first has been completed, never while
/// another repair of the service is running, and never without SSH; those of
/// Xray need Nginx too.
pub proof fn law_repairs_come_in_steps(
    info: SvcInfoView,
    before: SvcStatus,
    m: Seq<(TaskView, DashAction)>,
    auto_fix: bool,
    fix_threshold: u64,
    now: u64,
    backup_exists: bool,
)
    requires
        failure_response(info, before, m, auto_fix, fix_threshold, now, backup_exists) is Ok,
        failure_response(
            info,
            before,
            m,
            auto_fix,
            fix_threshold,
            now,
            backup_exists,
        )->Ok_0.start is Some,
    ensures
        ({
            let r = failure_response(
                info,
                before,
                m,
                auto_fix,
                fix_threshold,
                now,
                backup_exists,
            )->Ok_0;
            let own = own_from(m, info, 0);
            &&& auto_fix
            &&& r.status.failed_count >= fix_threshold
            &&& before.fix_try < 2
            &&& own is Some && own->Some_0.fix_action != FixJob::Running
            &&& sibling_ok(m, info.server.name, SvcKindView::Ssh)
            &&& match info.kind {
                SvcKindView::Ssh => false,
                SvcKindView::Nginx => r.start == Some(
                    if r.status.fix_try == 0 {
                        AnsibleAction::NginxRestart
                    } else {
                        AnsibleAction::NginxRestoreConfig
                    },
                ),
                SvcKindView::Xray(inbound) => inbound == super_text() && sibling_ok(
                    m,
                    info.server.name,
                    SvcKindView::Nginx,
                ) && r.start == Some(
                    if r.status.fix_try == 0 {
                        AnsibleAction::XrayRestart
                    } else {
                        AnsibleAction::XrayRestoreDB
                    },
                ),
            }
            &&& r.status.fix_try <= 1
        }),
{
}

/// SSH is never repaired.
pub proof fn law_ssh_is_never_repaired(
    info: SvcInfoView,
    before: SvcStatus,
    m: Seq<(TaskView, DashAction)>,
    auto_fix: bool,
    fix_threshold: u64,
    now: u64,
    backup_exists: bool,
)
    requires
        info.kind == SvcKindView::Ssh,
    ensures
        failure_response(info, before, m, auto_fix, fix_threshold, now, backup_exists) is Ok,
        failure_response(
            info,
            before,
            m,
            auto_fix,
            fix_threshold,
            now,
            backup_exists,
        )->Ok_0.start is None,
{
}

/// A service whose two levels are used up is not repaired any more, until it
/// recovers or its levels are reset.
pub proof fn law_two_levels_at_most(
    info: SvcInfoView,
    before: SvcStatus,
    m: Seq<(TaskView, DashAction)>,
    auto_fix: bool,
    fix_threshold: u64,
    now: u64,
    backup_exists: bool,
)
    requires
        before.fix_try >= 2,
        failure_response(info, before, m, auto_fix, fix_threshold, now, backup_exists) is Ok,
    ensures
        failure_response(
            info,
            before,
            m,
            auto_fix,
            fix_threshold,
            now,
            backup_exists,
        )->Ok_0.start is None,
{
}

/// All levels in a registry are at most 2.
pub open spec fn levels_bounded(m: Seq<(TaskView, DashAction)>) -> bool {
    forall|i: int| 0 <= i < m.len() ==> (#[trigger] m[i]).1.fix_try <= 2
}

/// The levels of a service and of its entry in the registry stay at most 2.
pub proof fn law_levels_stay_bounded(
    info: SvcInfoView,
    before: SvcStatus,
    m: Seq<(TaskView, DashAction)>,
    auto_fix: bool,
    fix_threshold: u64,
    now: u64,
    backup_exists: bool,
)
    requires
        before.fix_try <= 2,
        levels_bounded(m),
        failure_response(info, before, m, auto_fix, fix_threshold, now, backup_exists) is Ok,
    ensures
        ({
            let r = failure_response(
                info,
                before,
                m,
                auto_fix,
                fix_threshold,
                now,
                backup_exists,
            )->Ok_0;
            &&& r.status.fix_try <= 2
            &&& r.own is Some ==> r.own->Some_0.fix_try <= 2
        }),
{
    lemma_own_in(m, info, 0);
    lemma_sibling_in(m, info.server.name, SvcKindView::Xray(super_text()), 0);
}

proof fn lemma_own_in(m: Seq<(TaskView, DashAction)>, info: SvcInfoView, i: int)
    requires
        0 <= i,
        levels_bounded(m),
    ensures
        own_from(m, info, i) is Some ==> own_from(m, info, i)->Some_0.fix_try <= 2,
    decreases m.len() - i,
{
    if i < m.len() {
        lemma_own_in(m, info, i + 1);
    }
}

proof fn lemma_sibling_in(m: Seq<(TaskView, DashAction)>, server: Seq<char>, kind: SvcKindView, i: int)
    requires
        0 <= i,
        levels_bounded(m),
    ensures
        sibling_from(m, server, kind, i) is Some ==> sibling_from(
            m,
            server,
            kind,
            i,
        )->Some_0.fix_try <= 2,
    decreases m.len() - i,
{
    if i < m.len() {
        lemma_sibling_in(m, server, kind, i + 1);
    }
}

/// A failed check counts one more failure and keeps the time of the first one; a
/// check that succeeds after failures clears the count and the levels and keeps
/// the time of the last failure.
pub proof fn law_failures_are_counted(s: SvcStatus, now: u64)
    requires
        s.failed_count < u64::MAX,
    ensures
        status_failed(s, now).failed_count == s.failed_count + 1,
        status_failed(s, now).health == SvcHealth::Sick,
        s.failed_count > 0 ==> status_failed(s, now).failed_since == s.failed_since,
        s.failed_count == 0 ==> status_failed(s, now).failed_since == now,
        status_ok(s).health == SvcHealth::Healthy,
        status_ok(s).failed_count == 0,
        status_ok(s).failed_since == s.failed_since,
        status_ok(status_failed(s, now)).fix_try == 0,
{
}

/// The panel database is backed up after a check of the supervisor that
/// succeeded, and never otherwise.
pub proof fn law_backup_when_all_healthy(
    info: SvcInfoView,
    before: SvcStatus,
    m: Seq<(TaskView, DashAction)>,
    auto_fix: bool,
    fix_threshold: u64,
    now: u64,
    backup_exists: bool,
)
    ensures
        ({
            let ok = success_response(info, before, m);
            let sick = failure_response(
                info,
                before,
                m,
                auto_fix,
                fix_threshold,
                now,
                backup_exists,
            );
            &&& ok is Ok ==> (ok->Ok_0.backup <==> info.kind == SvcKindView::Xray(super_text()))
            &&& sick is Ok ==> !sick->Ok_0.backup
        }),
{
}

/// A failed check is recorded whatever else is done: one more failure, the time of
/// the first one, and the sickness in the status and in the registry.
pub proof fn law_failed_check_is_recorded(
    info: SvcInfoView,
    before: SvcStatus,
    m: Seq<(TaskView, DashAction)>,
    auto_fix: bool,
    fix_threshold: u64,
    now: u64,
    backup_exists: bool,
)
    requires
        before.failed_count < u64::MAX,
        failure_response(info, before, m, auto_fix, fix_threshold, now, backup_exists) is Ok,
    ensures
        ({
            let r = failure_response(info, before, m, auto_fix, fix_threshold, now, backup_exists)->Ok_0;
            &&& r.status.health == SvcHealth::Sick
            &&& r.status.failed_count == before.failed_count + 1
            &&& r.status.failed_since == (if before.failed_count == 0 {
                now
            } else {
                before.failed_since
            })
            &&& r.own is Some <==> own_from(m, info, 0) is Some
            &&& r.own is Some ==> r.own->Some_0.svc_health == SvcHealth::Sick
            &&& !r.backup
        }),
{
}

/// A check that succeeds is recorded: the service is healthy, its failures and levels
/// are cleared, the time of the last failure stays, and nothing is repaired. Only an
/// inbound that the server does not have is an error.
pub proof fn law_successful_check_resets(
    info: SvcInfoView,
    before: SvcStatus,
    m: Seq<(TaskView, DashAction)>,
)
    ensures
        ({
            let r = success_response(info, before, m);
            let sup = info.kind == SvcKindView::Xray("super"@);
            &&& r is Err <==> info.kind is Xray && !sup && forall|i: int|
                0 <= i < info.server.inbounds.len() ==> (#[trigger] info.server.inbounds[i]).name
                    != info.kind->Xray_0
            &&& r is Ok ==> ({
                let x = r->Ok_0;
                &&& x.status.health == SvcHealth::Healthy
                &&& x.status.failed_count == 0
                &&& x.status.failed_since == before.failed_since
                &&& before.failed_count > 0 || before.health != SvcHealth::Healthy
                    ==> x.status.fix_try == 0
                &&& before.failed_count == 0 && before.health == SvcHealth::Healthy ==> x.status
                    == before
                &&& !x.take_job
                &&& x.start is None
                &&& x.backup <==> sup
                &&& sup ==> x.own == own_from(m, info, 0)
                &&& !sup && own_from(m, info, 0) is Some ==> x.own == Some(
                    DashAction {
                        svc_health: SvcHealth::Healthy,
                        fix_try: 0,
                        fix_action: FixJob::Idle,
                    },
                )
            })
        }),
{
    if info.kind is Xray && exists|i: int|
        0 <= i < info.server.inbounds.len() && (#[trigger] info.server.inbounds[i]).name
            == info.kind->Xray_0 {
        assert(crate::cloud::rebase::has_inbound(info.server.inbounds, info.kind->Xray_0));
    }
}

/// From the threshold on, every failed check of Nginx makes progress while a level is
/// left, SSH is healthy and no repair is running: where none was started the repair of
/// the level starts, and one that has finished without effect is taken out and
/// followed by the next level, whose repair starts at once.
pub proof fn law_nginx_repairs_make_progress(
    info: SvcInfoView,
    before: SvcStatus,
    m: Seq<(TaskView, DashAction)>,
    auto_fix: bool,
    fix_threshold: u64,
    now: u64,
    backup_exists: bool,
)
    requires
        info.kind == SvcKindView::Nginx,
        auto_fix,
        before.failed_count < u64::MAX,
        before.failed_count + 1 >= fix_threshold,
        before.fix_try < 2,
        sibling_ok(m, info.server.name, SvcKindView::Ssh),
        own_from(m, info, 0) is Some,
    ensures
        ({
            let r = failure_response(info, before, m, auto_fix, fix_threshold, now, backup_exists);
            let job = own_from(m, info, 0)->Some_0.fix_action;
            let x = r->Ok_0;
            &&& r is Ok
            &&& job == FixJob::Idle ==> !x.take_job && x.status.fix_try == before.fix_try && x.start
                == Some(
                if before.fix_try == 0 {
                    AnsibleAction::NginxRestart
                } else {
                    AnsibleAction::NginxRestoreConfig
                },
            ) && x.action == x.start && x.extra_info == (if before.fix_try == 0 {
                "fix action: try to restart Nginx"@
            } else {
                "fix action: restore Nginx config"@
            })
            &&& job == FixJob::Finished ==> x.take_job && x.status.fix_try == before.fix_try + 1
                && x.start == (if before.fix_try == 0 {
                Some(AnsibleAction::NginxRestoreConfig)
            } else {
                None
            }) && x.action == x.start && x.extra_info == (if before.fix_try == 0 {
                "fix action: restore Nginx config"@
            } else {
                "fixing attempts failed"@
            })
            &&& job == FixJob::Running ==> !x.take_job && x.start is None && x.status.fix_try
                == before.fix_try && x.own == Some(
                DashAction { svc_health: SvcHealth::Sick, ..own_from(m, info, 0)->Some_0 },
            )
            &&& job == FixJob::Running ==> x.action == Some(
                if before.fix_try == 0 {
                    AnsibleAction::NginxRestart
                } else {
                    AnsibleAction::NginxRestoreConfig
                },
            ) && x.extra_info == (if before.fix_try == 0 {
                "fix action: trying to restart Nginx"@
            } else {
                "fix action: restoring Nginx config"@
            })
            &&& job != FixJob::Running ==> x.own == Some(
                DashAction {
                    svc_health: SvcHealth::Sick,
                    fix_try: x.status.fix_try,
                    fix_action: if x.start is Some {
                        FixJob::Running
                    } else {
                        FixJob::Idle
                    },
                },
            )
        }),
{
}

/// From the threshold on, every failed check of the supervisor makes progress while a
/// level is left, SSH and Nginx are healthy and no repair is running: where none was
/// started the repair of the level starts, and one that has finished without effect is
/// taken out and raises the level, past the second one where there is no backup to be
/// restored.
pub proof fn law_xray_repairs_make_progress(
    info: SvcInfoView,
    before: SvcStatus,
    m: Seq<(TaskView, DashAction)>,
    auto_fix: bool,
    fix_threshold: u64,
    now: u64,
    backup_exists: bool,
)
    requires
        info.kind == SvcKindView::Xray("super"@),
        auto_fix,
        before.failed_count < u64::MAX,
        before.failed_count + 1 >= fix_threshold,
        before.fix_try < 2,
        sibling_ok(m, info.server.name, SvcKindView::Ssh),
        sibling_ok(m, info.server.name, SvcKindView::Nginx),
        own_from(m, info, 0) is Some,
    ensures
        ({
            let r = failure_response(info, before, m, auto_fix, fix_threshold, now, backup_exists);
            let job = own_from(m, info, 0)->Some_0.fix_action;
            let x = r->Ok_0;
            &&& r is Ok
            &&& job == FixJob::Idle ==> !x.take_job && x.status.fix_try == before.fix_try && x.start
                == Some(
                if before.fix_try == 0 {
                    AnsibleAction::XrayRestart
                } else {
                    AnsibleAction::XrayRestoreDB
                },
            ) && x.action == x.start && x.own == Some(
                DashAction {
                    svc_health: SvcHealth::Sick,
                    fix_try: before.fix_try,
                    fix_action: FixJob::Running,
                },
            ) && x.extra_info == (if before.fix_try == 0 {
                "fix action: try to restart Xray"@
            } else {
                "fix action: restore the last known good DB"@
            })
            &&& job == FixJob::Finished ==> x.take_job && x.start is None && x.action is None
                && x.status.fix_try == (if before.fix_try == 0 && !backup_exists {
                2
            } else {
                before.fix_try + 1
            }) && x.own == Some(
                DashAction {
                    svc_health: SvcHealth::Sick,
                    fix_try: own_from(m, info, 0)->Some_0.fix_try,
                    fix_action: FixJob::Idle,
                },
            ) && (before.fix_try == 0 && !backup_exists ==> x.extra_info == "no backup exits, "@) && (
            before.fix_try == 1 || backup_exists ==> x.extra_info.len() == 0)
            &&& job == FixJob::Running ==> !x.take_job && x.start is None && x.status.fix_try
                == before.fix_try && x.own == Some(
                DashAction { svc_health: SvcHealth::Sick, ..own_from(m, info, 0)->Some_0 },
            )
        }),
{
}

/// Nothing is repaired and no level is used up where SSH, or for the supervisor Nginx,
/// is not known to be healthy, or where both levels are used up; the report says why.
pub proof fn law_hopeless_repairs_are_not_tried(
    info: SvcInfoView,
    before: SvcStatus,
    m: Seq<(TaskView, DashAction)>,
    auto_fix: bool,
    fix_threshold: u64,
    now: u64,
    backup_exists: bool,
)
    requires
        info.kind == SvcKindView::Nginx || info.kind == SvcKindView::Xray("super"@),
        auto_fix,
        before.failed_count < u64::MAX,
        before.failed_count + 1 >= fix_threshold,
    ensures
        ({
            let r = failure_response(info, before, m, auto_fix, fix_threshold, now, backup_exists);
            let ssh = sibling_ok(m, info.server.name, SvcKindView::Ssh);
            let reachable = if info.kind == SvcKindView::Nginx {
                ssh
            } else {
                ssh && sibling_ok(m, info.server.name, SvcKindView::Nginx)
            };
            &&& r is Err <==> reachable && before.fix_try < 2 && own_from(m, info, 0) is None
            &&& !reachable || before.fix_try >= 2 ==> r is Ok && r->Ok_0.start is None
                && !r->Ok_0.take_job && r->Ok_0.action is None && r->Ok_0.status.fix_try
                == before.fix_try
            &&& !reachable && info.kind == SvcKindView::Nginx ==> r->Ok_0.extra_info
                == "SSH is not working--no fixing attempt could be done"@
            &&& !reachable && info.kind is Xray ==> r->Ok_0.extra_info
                == "SSH and/or Nginx are not working--no fixing attempt could be done"@
            &&& reachable && before.fix_try >= 2 ==> r->Ok_0.extra_info
                == "automated fix attempts have been futile--inspect the server manually"@
        }),
{
}

/// A sick SSH from the threshold on needs a look at the server: its level is 1.
pub proof fn law_sick_ssh_asks_for_inspection(
    info: SvcInfoView,
    before: SvcStatus,
    m: Seq<(TaskView, DashAction)>,
    auto_fix: bool,
    fix_threshold: u64,
    now: u64,
    backup_exists: bool,
)
    requires
        info.kind == SvcKindView::Ssh,
        auto_fix,
        before.failed_count < u64::MAX,
        before.failed_count + 1 >= fix_threshold,
    ensures
        ({
            let r = failure_response(info, before, m, auto_fix, fix_threshold, now, backup_exists);
            &&& r is Ok
            &&& r->Ok_0.status.fix_try == 1
            &&& !r->Ok_0.take_job
            &&& r->Ok_0.action is None
            &&& r->Ok_0.extra_info == "critical connection issue; needs manual inspection"@
            &&& own_from(m, info, 0) is Some ==> r->Ok_0.own == Some(
                DashAction { svc_health: SvcHealth::Sick, fix_try: 1, fix_action: FixJob::Idle },
            )
        }),
{
}

/// A sick inbound has the level of the supervisor of its server from the threshold on,
/// and is not repaired by itself.
pub proof fn law_inbounds_follow_the_supervisor(
    info: SvcInfoView,
    before: SvcStatus,
    m: Seq<(TaskView, DashAction)>,
    auto_fix: bool,
    fix_threshold: u64,
    now: u64,
    backup_exists: bool,
)
    requires
        info.kind is Xray,
        info.kind->Xray_0 != "super"@,
        auto_fix,
        before.failed_count < u64::MAX,
        before.failed_count + 1 >= fix_threshold,
    ensures
        ({
            let r = failure_response(info, before, m, auto_fix, fix_threshold, now, backup_exists);
            let sup = sibling_from(m, info.server.name, SvcKindView::Xray("super"@), 0);
            &&& r is Ok <==> sup is Some
            &&& sup is Some ==> r->Ok_0.status.fix_try == sup->Some_0.fix_try && r->Ok_0.start is None
                && !r->Ok_0.take_job && r->Ok_0.action is None
            &&& sup is Some && own_from(m, info, 0) is Some ==> r->Ok_0.own == Some(
                DashAction {
                    svc_health: SvcHealth::Sick,
                    fix_try: sup->Some_0.fix_try,
                    fix_action: FixJob::Idle,
                },
            )
        }),
{
}

/// The task is the monitoring of this service: of its kind, on a server of its name,
/// at its port and with its link.
pub open spec fn is_monitor_of(t: TaskView, info: SvcInfoView) -> bool {
    ||| info.kind is Ssh && t is SshMonitor && same_service(t->SshMonitor_0, info)
    ||| info.kind is Nginx && t is NginxMonitor && same_service(t->NginxMonitor_0, info)
    ||| info.kind is Xray && t is XrayMonitor && same_service(t->XrayMonitor_0, info)
}

/// The entry of a service in the registry is that of the first task that monitors it.
pub proof fn law_own_entry_is_found(m: Seq<(TaskView, DashAction)>, info: SvcInfoView, i: int)
    ensures
        0 <= i < m.len() && is_monitor_of(m[i].0, info) && (forall|j: int|
            0 <= j < i ==> !is_monitor_of((#[trigger] m[j]).0, info)) ==> own_from(m, info, 0)
            == Some(m[i].1),
        (forall|j: int| 0 <= j < m.len() ==> !is_monitor_of((#[trigger] m[j]).0, info))
            ==> own_from(m, info, 0) is None,
{
    if 0 <= i < m.len() && is_monitor_of(m[i].0, info) && (forall|j: int|
        0 <= j < i ==> !is_monitor_of((#[trigger] m[j]).0, info)) {
        lemma_own_at(m, info, 0, i);
    }
    if forall|j: int| 0 <= j < m.len() ==> !is_monitor_of((#[trigger] m[j]).0, info) {
        lemma_own_absent(m, info, 0);
    }
}

proof fn lemma_own_at(m: Seq<(TaskView, DashAction)>, info: SvcInfoView, k: int, i: int)
    requires
        0 <= k <= i < m.len(),
        is_monitor_of(m[i].0, info),
        forall|j: int| 0 <= j < i ==> !is_monitor_of((#[trigger] m[j]).0, info),
    ensures
        own_from(m, info, k) == Some(m[i].1),
    decreases i - k,
{
    if k < i {
        assert(!is_monitor_of(m[k].0, info));
        lemma_own_at(m, info, k + 1, i);
    }
}

proof fn lemma_own_absent(m: Seq<(TaskView, DashAction)>, info: SvcInfoView, k: int)
    requires
        0 <= k <= m.len(),
        forall|j: int| 0 <= j < m.len() ==> !is_monitor_of((#[trigger] m[j]).0, info),
    ensures
        own_from(m, info, k) is None,
    decreases m.len() - k,
{
    if k < m.len() {
        assert(!is_monitor_of(m[k].0, info));
        lemma_own_absent(m, info, k + 1);
    }
}

/// The task monitors SSH, Nginx or the supervisor of the server.
pub open spec fn is_monitor_on(t: TaskView, server: Seq<char>, kind: SvcKindView) -> bool {
    ||| kind is Ssh && t is SshMonitor && t->SshMonitor_0.server.name == server
    ||| kind is Nginx && t is NginxMonitor && t->NginxMonitor_0.server.name == server
    ||| kind is Xray && t is XrayMonitor && t->XrayMonitor_0.server.name == server
        && t->XrayMonitor_0.kind == SvcKindView::Xray("super"@)
}

/// The entry of a sibling is that of the first task that monitors it on the server,
/// and the sibling counts as healthy exactly where that entry says so.
pub proof fn law_sibling_is_found(
    m: Seq<(TaskView, DashAction)>,
    server: Seq<char>,
    kind: SvcKindView,
    i: int,
)
    ensures
        0 <= i < m.len() && is_monitor_on(m[i].0, server, kind) && (forall|j: int|
            0 <= j < i ==> !is_monitor_on((#[trigger] m[j]).0, server, kind)) ==> sibling_from(
            m,
            server,
            kind,
            0,
        ) == Some(m[i].1) && (sibling_ok(m, server, kind) <==> m[i].1.svc_health
            == SvcHealth::Healthy),
        (forall|j: int| 0 <= j < m.len() ==> !is_monitor_on((#[trigger] m[j]).0, server, kind))
            ==> sibling_from(m, server, kind, 0) is None && !sibling_ok(m, server, kind),
{
    if 0 <= i < m.len() && is_monitor_on(m[i].0, server, kind) && (forall|j: int|
        0 <= j < i ==> !is_monitor_on((#[trigger] m[j]).0, server, kind)) {
        lemma_sibling_at(m, server, kind, 0, i);
    }
    if forall|j: int| 0 <= j < m.len() ==> !is_monitor_on((#[trigger] m[j]).0, server, kind) {
        lemma_sibling_absent(m, server, kind, 0);
    }
}

proof fn lemma_sibling_at(
    m: Seq<(TaskView, DashAction)>,
    server: Seq<char>,
    kind: SvcKindView,
    k: int,
    i: int,
)
    requires
        0 <= k <= i < m.len(),
        is_monitor_on(m[i].0, server, kind),
        forall|j: int| 0 <= j < i ==> !is_monitor_on((#[trigger] m[j]).0, server, kind),
    ensures
        sibling_from(m, server, kind, k) == Some(m[i].1),
    decreases i - k,
{
    if k < i {
        assert(!is_monitor_on(m[k].0, server, kind));
        lemma_sibling_at(m, server, kind, k + 1, i);
    }
}

proof fn lemma_sibling_absent(
    m: Seq<(TaskView, DashAction)>,
    server: Seq<char>,
    kind: SvcKindView,
    k: int,
)
    requires
        0 <= k <= m.len(),
        forall|j: int| 0 <= j < m.len() ==> !is_monitor_on((#[trigger] m[j]).0, server, kind),
    ensures
        sibling_from(m, server, kind, k) is None,
    decreases m.len() - k,
{
    if k < m.len() {
        assert(!is_monitor_on(m[k].0, server, kind));
        lemma_sibling_absent(m, server, kind, k + 1);
    }
}

/// The supervisor is healthy exactly where the registry shows every other Xray service
/// of its server to be healthy.
pub proof fn law_supervisor_needs_all_inbounds(e: (TaskView, DashAction), info: SvcInfoView)
    ensures
        is_unhealthy_inbound(e, info) <==> e.0 is XrayMonitor && e.0->XrayMonitor_0.server.name
            == info.server.name && e.0->XrayMonitor_0.kind != info.kind && e.1.svc_health
            != SvcHealth::Healthy,
{
}

} // verus!
