//! What the daemon reports: the health of the cloud, and the credentials.

use vstd::prelude::*;

use crate::cli::{
    health_views, server_summary_views, task_summary_views, CloudSummary, CloudSummaryView,
    ServerCreds, ServerCredsView, ServerSummary, ServerSummaryView, StatusOpts, SvcHealthSummary,
    SvcHealthSummaryView, SvcSummary, SvcSummaryView, TaskSummary, TaskSummaryView,
};
use crate::cloud::server::{dns_host, ui_host};
use crate::daemon::DaemonReply;
use crate::strmap::StrMap;
use crate::text::{join, joined, texts};
use crate::types::{
    health_text, server_views, svc_nice_text, Cloud, CloudView, KetServer, ServerState, ServerView,
    SvcHealth,
};

verus! {

// ---------------------------------------------------------------- the summary

/// The position of the summary of a server, or the length where there is none.
pub open spec fn summary_index(s: Seq<ServerSummaryView>, server: Seq<char>, i: int) -> int
    decreases s.len() - i,
{
    if i >= s.len() {
        s.len() as int
    } else if s[i].server == server {
        i
    } else {
        summary_index(s, server, i + 1)
    }
}

pub open spec fn shown(s: SvcSummaryView) -> SvcHealthSummaryView {
    SvcHealthSummaryView { service: svc_nice_text(s.service), health: s.health }
}

/// A service put under its server.
pub open spec fn added(s: Seq<ServerSummaryView>, svc: SvcSummaryView) -> Seq<ServerSummaryView> {
    let i = summary_index(s, svc.server, 0);
    if i < s.len() {
        s.update(
            i,
            ServerSummaryView { server: s[i].server, services: s[i].services.push(shown(svc)) },
        )
    } else {
        s.push(ServerSummaryView { server: svc.server, services: seq![shown(svc)] })
    }
}

pub open spec fn summary_views(s: Seq<SvcSummary>) -> Seq<SvcSummaryView> {
    s.map_values(|x: SvcSummary| x@)
}

/// The first `k` services, put together by server.
pub open spec fn grouped_upto(s: Seq<SvcSummaryView>, k: int) -> Seq<ServerSummaryView>
    decreases k,
{
    if k <= 0 {
        Seq::empty()
    } else {
        added(grouped_upto(s, k - 1), s[k - 1])
    }
}

/// The services, put together by server.
pub open spec fn grouped(s: Seq<SvcSummaryView>) -> Seq<ServerSummaryView> {
    grouped_upto(s, s.len() as int)
}

fn find_summary(v: &Vec<ServerSummary>, server: &String) -> (r: usize)
    ensures
        r == summary_index(server_summary_views(v@), server@, 0),
        r <= v@.len(),
{
    let ghost views = server_summary_views(v@);
    let mut i: usize = 0;
    while i < v.len()
        invariant
            i <= v@.len(),
            views == server_summary_views(v@),
            summary_index(views, server@, 0) == summary_index(views, server@, i as int),
        decreases v@.len() - i,
    {
        assert(views[i as int] == v@[i as int]@);
        if v[i].server == *server {
            return i;
        }
        i += 1;
    }
    i
}

fn add_service(v: &mut Vec<ServerSummary>, svc: &SvcSummary)
    ensures
        server_summary_views(final(v)@) == added(server_summary_views(old(v)@), svc@),
{
    let ghost before = server_summary_views(v@);
    let entry = SvcHealthSummary { service: svc.service.nice_display(), health: svc.health };
    let i = find_summary(v, &svc.server);
    if i < v.len() {
        assert(before[i as int] == v@[i as int]@);
        let mut s = v.remove(i);
        let ghost services = s.services@;
        s.services.push(entry);
        assert(health_views(s.services@) =~= health_views(services).push(entry@));
        v.insert(i, s);
        assert(server_summary_views(v@) =~= before.update(i as int, s@));
    } else {
        let mut services: Vec<SvcHealthSummary> = Vec::new();
        services.push(entry);
        assert(health_views(services@) =~= seq![entry@]);
        let s = ServerSummary { server: svc.server.clone(), services };
        v.push(s);
        assert(server_summary_views(v@) =~= before.push(s@));
    }
}

// ---------------------------------------------------------------- the report

pub open spec fn crash_text(task: Seq<char>) -> Seq<char> {
    "Task '"@ + task + "' has crashed."@
}

/// The lines on the first `k` tasks: one for each that does not run.
pub open spec fn crash_lines(tasks: Seq<TaskSummaryView>, k: int) -> Seq<Seq<char>>
    decreases k,
{
    if k <= 0 {
        Seq::empty()
    } else if tasks[k - 1].running {
        crash_lines(tasks, k - 1)
    } else {
        crash_lines(tasks, k - 1).push(crash_text(tasks[k - 1].task))
    }
}

pub open spec fn sick_text(server: Seq<char>, s: SvcHealthSummaryView) -> Seq<char> {
    "Service "@ + s.service + " on server '"@ + server + "' is "@ + health_text(s.health) + "."@
}

/// The lines on the first `k` services of a server: one for each that is not
/// healthy.
pub open spec fn sick_lines(s: ServerSummaryView, k: int) -> Seq<Seq<char>>
    decreases k,
{
    if k <= 0 {
        Seq::empty()
    } else if s.services[k - 1].health == SvcHealth::Healthy {
        sick_lines(s, k - 1)
    } else {
        sick_lines(s, k - 1).push(sick_text(s.server, s.services[k - 1]))
    }
}

pub open spec fn cloud_lines(cloud: Seq<ServerSummaryView>, k: int) -> Seq<Seq<char>>
    decreases k,
{
    if k <= 0 {
        Seq::empty()
    } else {
        cloud_lines(cloud, k - 1) + sick_lines(
            cloud[k - 1],
            cloud[k - 1].services.len() as int,
        )
    }
}

/// The lines of the report: crashed tasks, then unhealthy services.
pub open spec fn report_lines(s: CloudSummaryView) -> Seq<Seq<char>> {
    crash_lines(s.tasks, s.tasks.len() as int) + cloud_lines(s.cloud, s.cloud.len() as int)
}

/// The report for a reader.
pub open spec fn report_text(s: CloudSummaryView) -> Seq<char> {
    if report_lines(s).len() > 0 {
        joined(report_lines(s), "\n"@)
    } else if s.cloud.len() == 0 {
        "All tasks are running."@
    } else {
        "All tasks are running. All services are Ok."@
    }
}

/// Writes the report for a reader.
pub fn humanize_status_report(summary: &CloudSummary) -> (r: String)
    ensures
        r@ == report_text(summary@),
{
    let ghost sv = summary@;
    let mut lines: Vec<String> = Vec::new();
    assert(texts(lines@) =~= crash_lines(sv.tasks, 0));
    let mut i: usize = 0;
    while i < summary.tasks.len()
        invariant
            i <= summary.tasks@.len(),
            sv == summary@,
            texts(lines@) == crash_lines(sv.tasks, i as int),
        decreases summary.tasks@.len() - i,
    {
        assert(sv.tasks[i as int] == summary.tasks@[i as int]@);
        let t = &summary.tasks[i];
        if !t.running {
            let mut l = "Task '".to_owned();
            l.append(t.task.as_str());
            l.append("' has crashed.");
            let ghost before = lines@;
            lines.push(l);
            assert(texts(lines@) =~= texts(before).push(l@));
        }
        i += 1;
    }
    let ghost crashed = texts(lines@);
    assert(texts(lines@) =~= crashed + cloud_lines(sv.cloud, 0));
    let mut j: usize = 0;
    while j < summary.cloud.len()
        invariant
            j <= summary.cloud@.len(),
            sv == summary@,
            texts(lines@) == crashed + cloud_lines(sv.cloud, j as int),
        decreases summary.cloud@.len() - j,
    {
        let server = &summary.cloud[j];
        let ghost one = sv.cloud[j as int];
        assert(one == server@);
        let ghost above = texts(lines@);
        assert(texts(lines@) =~= above + sick_lines(one, 0));
        let mut k: usize = 0;
        while k < server.services.len()
            invariant
                k <= server.services@.len(),
                one == server@,
                texts(lines@) == above + sick_lines(one, k as int),
            decreases server.services@.len() - k,
        {
            let service = &server.services[k];
            assert(one.services[k as int] == service@);
            let healthy = match service.health {
                SvcHealth::Healthy => true,
                _ => false,
            };
            if !healthy {
                let health = service.health.to_string();
                let mut l = "Service ".to_owned();
                l.append(service.service.as_str());
                l.append(" on server '");
                l.append(server.server.as_str());
                l.append("' is ");
                l.append(health.as_str());
                l.append(".");
                let ghost before = lines@;
                lines.push(l);
                assert(texts(lines@) =~= texts(before).push(l@));
                assert(texts(lines@) =~= above + sick_lines(one, k as int).push(l@));
            }
            k += 1;
        }
        j += 1;
        assert(texts(lines@) =~= crashed + cloud_lines(sv.cloud, j as int));
    }
    assert(texts(lines@).len() == lines@.len());
    if lines.len() > 0 {
        join(&lines, "\n")
    } else if summary.cloud.len() == 0 {
        "All tasks are running.".to_owned()
    } else {
        "All tasks are running. All services are Ok.".to_owned()
    }
}

/// The summary of the cloud.
pub open spec fn cloud_summary(
    services: Seq<SvcSummaryView>,
    tasks: Seq<TaskSummaryView>,
) -> CloudSummaryView {
    CloudSummaryView { tasks, cloud: grouped(services) }
}

/// Reports on the health of the cloud: the whole summary where that is asked
/// for, and a text otherwise. The servers come in the order of their first
/// services.
pub fn get_summary(
    services: Vec<SvcSummary>,
    tasks_summary: Vec<TaskSummary>,
    status_opts: StatusOpts,
) -> (r: DaemonReply)
    ensures
        ({
            let s = cloud_summary(
                summary_views(services@),
                task_summary_views(tasks_summary@),
            );
            if status_opts.full {
                r matches DaemonReply::Status(c) && c@ == s
            } else {
                r matches DaemonReply::Message(m) && m@ == report_text(s)
            }
        }),
{
    let ghost views = summary_views(services@);
    let mut cloud: Vec<ServerSummary> = Vec::new();
    assert(server_summary_views(cloud@) =~= grouped_upto(views, 0));
    let mut i: usize = 0;
    while i < services.len()
        invariant
            i <= services@.len(),
            views == summary_views(services@),
            server_summary_views(cloud@) == grouped_upto(views, i as int),
        decreases services@.len() - i,
    {
        assert(views[i as int] == services@[i as int]@);
        add_service(&mut cloud, &services[i]);
        i += 1;
    }
    let summary = CloudSummary { tasks: tasks_summary, cloud };
    if status_opts.full {
        DaemonReply::Status(summary)
    } else {
        DaemonReply::Message(humanize_status_report(&summary))
    }
}

// ---------------------------------------------------------------- credentials

/// A server that is managed and monitored.
pub open spec fn is_managed(s: ServerView) -> bool {
    s.enabled && s.state == ServerState::Production
}

/// The credentials of a server.
pub open spec fn creds_of(s: ServerView, show_all: bool) -> ServerCredsView {
    ServerCredsView {
        doh: "https://"@ + dns_host(s) + "/"@ + s.secrets.doh_endpoint,
        ui: "https://"@ + ui_host(s) + "/"@ + s.secrets.xui_webpath + "/"@,
        xui_username: if show_all {
            Some(s.secrets.xui_username)
        } else {
            None
        },
        xui_password: if show_all {
            Some(s.secrets.xui_password)
        } else {
            None
        },
        xui_token: if show_all {
            s.secrets.xui_token
        } else {
            None
        },
    }
}

/// The credentials of the managed ones among the first `k` servers.
pub open spec fn creds_upto(servers: Seq<ServerView>, show_all: bool, k: int) -> Map<
    Seq<char>,
    ServerCredsView,
>
    decreases k,
{
    if k <= 0 {
        Map::empty()
    } else {
        let before = creds_upto(servers, show_all, k - 1);
        let s = servers[k - 1];
        if is_managed(s) && !before.dom().contains(s.name) {
            before.insert(s.name, creds_of(s, show_all))
        } else {
            before
        }
    }
}

/// The credentials of the cloud.
pub open spec fn cloud_creds(cloud: CloudView, show_all: bool) -> Map<Seq<char>, ServerCredsView> {
    creds_upto(cloud.servers, show_all, cloud.servers.len() as int)
}

pub open spec fn creds_map(m: Map<Seq<char>, ServerCreds>) -> Map<Seq<char>, ServerCredsView> {
    m.map_values(|c: ServerCreds| c@)
}

/// Is the server managed and monitored?
pub fn managed(s: &KetServer) -> (r: bool)
    ensures
        r == is_managed(s@),
{
    s.enabled && s.state.load() == ServerState::Production
}

fn server_creds(server: &KetServer, show_all: bool) -> (r: ServerCreds)
    ensures
        r@ == creds_of(server@, show_all),
{
    let mut doh = "https://".to_owned();
    let dns = server.dnshostname();
    doh.append(dns.as_str());
    doh.append("/");
    doh.append(server.secrets.doh_endpoint.as_str());
    let mut ui = "https://".to_owned();
    let panel = server.uihostname();
    ui.append(panel.as_str());
    ui.append("/");
    ui.append(server.secrets.xui_webpath.as_str());
    ui.append("/");
    if show_all {
        let token = server.secrets.xui_token.clone();
        ServerCreds {
            doh,
            ui,
            xui_username: Some(server.secrets.xui_username.clone()),
            xui_password: Some(server.secrets.xui_password.clone()),
            xui_token: token.0,
        }
    } else {
        ServerCreds { doh, ui, xui_username: None, xui_password: None, xui_token: None }
    }
}

/// Lists the credentials of the managed servers.
pub fn build_servers_creds(cloud: &Cloud, show_all: bool) -> (r: DaemonReply)
    ensures
        r matches DaemonReply::Credentials(m) && creds_map(m@) == cloud_creds(cloud@, show_all),
{
    let ghost cv = cloud@;
    let mut m: StrMap<ServerCreds> = StrMap::new();
    assert(creds_map(m@) =~= creds_upto(cv.servers, show_all, 0));
    let mut i: usize = 0;
    while i < cloud.servers.len()
        invariant
            i <= cloud.servers@.len(),
            cv == cloud@,
            creds_map(m@) == creds_upto(cv.servers, show_all, i as int),
        decreases cloud.servers@.len() - i,
    {
        let server = &cloud.servers[i];
        assert(cv.servers[i as int] == server@);
        if managed(server) {
            let ghost before = m@;
            assert(before.dom().contains(server.name@) <==> creds_map(before).dom().contains(
                server.name@,
            ));
            let c = server_creds(server, show_all);
            m.or_insert(server.name.clone(), c);
            proof {
                if !before.dom().contains(server.name@) {
                    assert(creds_map(m@) =~= creds_map(before).insert(server.name@, c@));
                }
            }
        }
        i += 1;
    }
    DaemonReply::Credentials(m)
}

/// The managed ones among the first `k` servers.
pub open spec fn managed_upto(servers: Seq<ServerView>, k: int) -> Seq<ServerView>
    decreases k,
{
    if k <= 0 {
        Seq::empty()
    } else if is_managed(servers[k - 1]) {
        managed_upto(servers, k - 1).push(servers[k - 1])
    } else {
        managed_upto(servers, k - 1)
    }
}

/// The servers that are managed and monitored, in order.
pub open spec fn managed_of(servers: Seq<ServerView>) -> Seq<ServerView> {
    managed_upto(servers, servers.len() as int)
}

/// Collects the servers that are managed and monitored.
pub fn managed_servers(servers: &Vec<KetServer>) -> (r: Vec<KetServer>)
    ensures
        server_views(r@) == managed_of(server_views(servers@)),
{
    let ghost views = server_views(servers@);
    let mut r: Vec<KetServer> = Vec::new();
    assert(server_views(r@) =~= managed_upto(views, 0));
    let mut i: usize = 0;
    while i < servers.len()
        invariant
            i <= servers@.len(),
            views == server_views(servers@),
            server_views(r@) == managed_upto(views, i as int),
        decreases servers@.len() - i,
    {
        assert(views[i as int] == servers@[i as int]@);
        if managed(&servers[i]) {
            let ghost before = r@;
            r.push(servers[i].clone());
            assert(server_views(r@) =~= server_views(before).push(views[i as int]));
        }
        i += 1;
    }
    r
}

/// The table of clients of each server; where a name comes twice the first
/// table counts.
pub open spec fn tables_upto(t: Seq<(String, String)>, k: int) -> Map<Seq<char>, Seq<char>>
    decreases k,
{
    if k <= 0 {
        Map::empty()
    } else {
        let before = tables_upto(t, k - 1);
        if before.dom().contains(t[k - 1].0@) {
            before
        } else {
            before.insert(t[k - 1].0@, t[k - 1].1@)
        }
    }
}

/// Puts the tables of clients together, each by the name of its server.
pub fn get_cloud_clients(tables: &Vec<(String, String)>) -> (r: DaemonReply)
    ensures
        r matches DaemonReply::Clients(m) && crate::strmap::text_map(m@) == tables_upto(
            tables@,
            tables@.len() as int,
        ),
{
    let mut m: StrMap<String> = StrMap::new();
    assert(crate::strmap::text_map(m@) =~= tables_upto(tables@, 0));
    let mut i: usize = 0;
    while i < tables.len()
        invariant
            i <= tables@.len(),
            crate::strmap::text_map(m@) == tables_upto(tables@, i as int),
        decreases tables@.len() - i,
    {
        let ghost before = m@;
        let ghost name = tables@[i as int].0@;
        assert(before.dom().contains(name) <==> crate::strmap::text_map(before).dom().contains(
            name,
        ));
        m.or_insert(tables[i].0.clone(), tables[i].1.clone());
        proof {
            if !before.dom().contains(name) {
                assert(crate::strmap::text_map(m@) =~= crate::strmap::text_map(before).insert(
                    name,
                    tables@[i as int].1@,
                ));
            }
        }
        i += 1;
    }
    DaemonReply::Clients(m)
}

// ---------------------------------------------------------------- the laws

proof fn lemma_summary_index(s: Seq<ServerSummaryView>, server: Seq<char>, i: int)
    requires
        0 <= i <= s.len(),
    ensures
        i <= summary_index(s, server, i) <= s.len(),
        summary_index(s, server, i) < s.len() ==> s[summary_index(s, server, i)].server == server,
        forall|j: int| i <= j < summary_index(s, server, i) ==> (#[trigger] s[j]).server != server,
    decreases s.len() - i,
{
    if i < s.len() && s[i].server != server {
        lemma_summary_index(s, server, i + 1);
    }
}

/// Each server comes once in a summary.
pub proof fn law_servers_come_once(services: Seq<SvcSummaryView>, i: int, j: int)
    requires
        0 <= i < j < grouped(services).len(),
    ensures
        grouped(services)[i].server != grouped(services)[j].server,
{
    lemma_once(services, services.len() as int, i, j);
}

proof fn lemma_once(s: Seq<SvcSummaryView>, k: int, i: int, j: int)
    requires
        0 <= k <= s.len(),
        0 <= i < j < grouped_upto(s, k).len(),
    ensures
        grouped_upto(s, k)[i].server != grouped_upto(s, k)[j].server,
    decreases k,
{
    if k > 0 {
        let before = grouped_upto(s, k - 1);
        lemma_summary_index(before, s[k - 1].server, 0);
        if j < before.len() {
            lemma_once(s, k - 1, i, j);
        }
    }
}

/// The summary lists the service under the server.
pub open spec fn listed(
    summary: Seq<ServerSummaryView>,
    server: Seq<char>,
    svc: SvcHealthSummaryView,
) -> bool {
    exists|g: int|
        0 <= g < summary.len() && (#[trigger] summary[g]).server == server
            && summary[g].services.contains(svc)
}

/// Every service is listed under its server, and nothing else is.
pub proof fn law_summary_lists_all_services(
    services: Seq<SvcSummaryView>,
    server: Seq<char>,
    svc: SvcHealthSummaryView,
)
    ensures
        listed(grouped(services), server, svc) <==> exists|i: int|
            0 <= i < services.len() && (#[trigger] services[i]).server == server && shown(
                services[i],
            ) == svc,
{
    lemma_listed(services, services.len() as int, server, svc);
}

proof fn lemma_listed(
    s: Seq<SvcSummaryView>,
    k: int,
    server: Seq<char>,
    svc: SvcHealthSummaryView,
)
    requires
        0 <= k <= s.len(),
    ensures
        listed(grouped_upto(s, k), server, svc) <==> exists|i: int|
            0 <= i < k && (#[trigger] s[i]).server == server && shown(s[i]) == svc,
    decreases k,
{
    if k > 0 {
        lemma_listed(s, k - 1, server, svc);
        let before = grouped_upto(s, k - 1);
        let now = grouped_upto(s, k);
        let new = s[k - 1];
        let at = summary_index(before, new.server, 0);
        lemma_summary_index(before, new.server, 0);
        assert(now[at].server == new.server);
        assert(now[at].services.contains(shown(new))) by {
            let l = now[at].services;
            assert(l[l.len() - 1] == shown(new));
        }
        if listed(before, server, svc) {
            let g = choose|g: int|
                0 <= g < before.len() && (#[trigger] before[g]).server == server
                    && before[g].services.contains(svc);
            assert(now[g].server == server);
            let p = choose|p: int|
                0 <= p < before[g].services.len() && before[g].services[p] == svc;
            assert(now[g].services[p] == svc);
            assert(now[g].services.contains(svc));
        }
        if listed(now, server, svc) && !(new.server == server && shown(new) == svc) {
            let g = choose|g: int|
                0 <= g < now.len() && (#[trigger] now[g]).server == server
                    && now[g].services.contains(svc);
            let p = choose|p: int| 0 <= p < now[g].services.len() && now[g].services[p] == svc;
            assert(g < before.len());
            assert(before[g].server == server);
            if g == at {
                assert(now[g].services == before[g].services.push(shown(new)));
                assert(p < before[g].services.len());
            }
            assert(before[g].services[p] == svc);
            assert(before[g].services.contains(svc));
            assert(listed(before, server, svc));
        }
    }
}

/// The report says that all is well just where all tasks run and all services
/// are healthy.
pub proof fn law_report_is_clean(s: CloudSummaryView)
    ensures
        report_lines(s).len() == 0 <==> {
            &&& forall|i: int| 0 <= i < s.tasks.len() ==> (#[trigger] s.tasks[i]).running
            &&& forall|i: int, j: int|
                0 <= i < s.cloud.len() && 0 <= j < s.cloud[i].services.len() ==> (
                #[trigger] s.cloud[i].services[j]).health == SvcHealth::Healthy
        },
{
    lemma_crash_lines(s.tasks, s.tasks.len() as int);
    lemma_cloud_lines(s.cloud, s.cloud.len() as int);
}

proof fn lemma_crash_lines(t: Seq<TaskSummaryView>, k: int)
    requires
        0 <= k <= t.len(),
    ensures
        crash_lines(t, k).len() == 0 <==> forall|i: int| 0 <= i < k ==> (#[trigger] t[i]).running,
    decreases k,
{
    if k > 0 {
        lemma_crash_lines(t, k - 1);
    }
}

proof fn lemma_sick_lines(s: ServerSummaryView, k: int)
    requires
        0 <= k <= s.services.len(),
    ensures
        sick_lines(s, k).len() == 0 <==> forall|j: int|
            0 <= j < k ==> (#[trigger] s.services[j]).health == SvcHealth::Healthy,
    decreases k,
{
    if k > 0 {
        lemma_sick_lines(s, k - 1);
    }
}

proof fn lemma_cloud_lines(c: Seq<ServerSummaryView>, k: int)
    requires
        0 <= k <= c.len(),
    ensures
        cloud_lines(c, k).len() == 0 <==> forall|i: int, j: int|
            0 <= i < k && 0 <= j < c[i].services.len() ==> (#[trigger] c[i].services[j]).health
                == SvcHealth::Healthy,
    decreases k,
{
    if k > 0 {
        lemma_cloud_lines(c, k - 1);
        lemma_sick_lines(c[k - 1], c[k - 1].services.len() as int);
    }
}

/// Credentials are listed of the managed servers and of no others.
pub proof fn law_creds_are_of_managed_servers(cloud: CloudView, show_all: bool, name: Seq<char>)
    ensures
        cloud_creds(cloud, show_all).dom().contains(name) <==> exists|i: int|
            0 <= i < cloud.servers.len() && (#[trigger] cloud.servers[i]).name == name && is_managed(
                cloud.servers[i],
            ),
{
    lemma_creds(cloud.servers, show_all, cloud.servers.len() as int, name);
}

proof fn lemma_creds(servers: Seq<ServerView>, show_all: bool, k: int, name: Seq<char>)
    requires
        0 <= k <= servers.len(),
    ensures
        creds_upto(servers, show_all, k).dom().contains(name) <==> exists|i: int|
            0 <= i < k && (#[trigger] servers[i]).name == name && is_managed(servers[i]),
        creds_upto(servers, show_all, k).dom().contains(name) ==> exists|i: int|
            0 <= i < k && (#[trigger] servers[i]).name == name && creds_upto(servers, show_all, k)[name]
                == creds_of(servers[i], show_all),
    decreases k,
{
    if k > 0 {
        lemma_creds(servers, show_all, k - 1, name);
        let before = creds_upto(servers, show_all, k - 1);
        let now = creds_upto(servers, show_all, k);
        if before.dom().contains(name) {
            let i = choose|i: int|
                0 <= i < k - 1 && (#[trigger] servers[i]).name == name && before[name] == creds_of(
                    servers[i],
                    show_all,
                );
            assert(now[name] == before[name]);
            assert(servers[i].name == name && now[name] == creds_of(servers[i], show_all));
        } else if now.dom().contains(name) {
            assert(servers[k - 1].name == name && now[name] == creds_of(servers[k - 1], show_all));
        }
    }
}

/// Unless all secrets are asked for, no user name, password or token is shown.
pub proof fn law_secrets_stay_hidden(cloud: CloudView, name: Seq<char>)
    requires
        cloud_creds(cloud, false).dom().contains(name),
    ensures
        cloud_creds(cloud, false)[name].xui_username is None,
        cloud_creds(cloud, false)[name].xui_password is None,
        cloud_creds(cloud, false)[name].xui_token is None,
{
    lemma_creds(cloud.servers, false, cloud.servers.len() as int, name);
}

/// The servers that are managed are the enabled ones in production, in their order: one
/// more server is managed behind the others exactly where it is such a one.
pub proof fn law_managed_servers(servers: Seq<ServerView>, s: ServerView)
    ensures
        managed_of(Seq::empty()) == Seq::<ServerView>::empty(),
        managed_of(servers.push(s)) == (if s.enabled && s.state == ServerState::Production {
            managed_of(servers).push(s)
        } else {
            managed_of(servers)
        }),
{
    lemma_managed_prefix(servers.push(s), servers, servers.len() as int);
}

proof fn lemma_managed_prefix(a: Seq<ServerView>, b: Seq<ServerView>, k: int)
    requires
        k <= a.len(),
        k <= b.len(),
        forall|i: int| 0 <= i < k ==> #[trigger] a[i] == b[i],
    ensures
        managed_upto(a, k) == managed_upto(b, k),
    decreases k,
{
    if k > 0 {
        lemma_managed_prefix(a, b, k - 1);
        assert(a[k - 1] == b[k - 1]);
    }
}

/// The credentials of a managed server are the addresses of its DNS server and its panel,
/// and, where all secrets are asked for, what a login to the panel needs.
pub proof fn law_credentials_of_a_server(cloud: CloudView, show_all: bool, i: int)
    requires
        0 <= i < cloud.servers.len(),
        cloud.servers[i].enabled,
        cloud.servers[i].state == ServerState::Production,
        forall|j: int| 0 <= j < i ==> (#[trigger] cloud.servers[j]).name != cloud.servers[i].name,
    ensures
        ({
            let s = cloud.servers[i];
            let c = cloud_creds(cloud, show_all)[s.name];
            &&& cloud_creds(cloud, show_all).dom().contains(s.name)
            &&& c.doh == "https://"@ + s.dns_subdomain + "."@ + s.domain + "/"@
                + s.secrets.doh_endpoint
            &&& c.ui == "https://"@ + s.ui_subdomain + "."@ + s.domain + "/"@
                + s.secrets.xui_webpath + "/"@
            &&& show_all ==> c.xui_username == Some(s.secrets.xui_username) && c.xui_password
                == Some(s.secrets.xui_password) && c.xui_token == s.secrets.xui_token
            &&& !show_all ==> c.xui_username is None && c.xui_password is None && c.xui_token is None
        }),
{
    let s = cloud.servers[i];
    lemma_creds_at(cloud.servers, show_all, i, cloud.servers.len() as int);
    assert("https://"@ + dns_host(s) + "/"@ + s.secrets.doh_endpoint =~= "https://"@
        + s.dns_subdomain + "."@ + s.domain + "/"@ + s.secrets.doh_endpoint);
    assert("https://"@ + ui_host(s) + "/"@ + s.secrets.xui_webpath + "/"@ =~= "https://"@
        + s.ui_subdomain + "."@ + s.domain + "/"@ + s.secrets.xui_webpath + "/"@);
}

proof fn lemma_creds_at(servers: Seq<ServerView>, show_all: bool, i: int, k: int)
    requires
        0 <= i < k <= servers.len(),
        is_managed(servers[i]),
        forall|j: int| 0 <= j < i ==> (#[trigger] servers[j]).name != servers[i].name,
    ensures
        creds_upto(servers, show_all, k).dom().contains(servers[i].name),
        creds_upto(servers, show_all, k)[servers[i].name] == creds_of(servers[i], show_all),
    decreases k,
{
    if i < k - 1 {
        lemma_creds_at(servers, show_all, i, k - 1);
    } else {
        lemma_creds(servers, show_all, k - 1, servers[i].name);
    }
}

/// The tables of clients stand under the names of their servers, all of them and nothing
/// else.
pub proof fn law_tables_stand_under_their_servers(t: Seq<(String, String)>, i: int, name: Seq<char>)
    ensures
        tables_upto(t, t.len() as int).dom().contains(name) <==> exists|j: int|
            0 <= j < t.len() && (#[trigger] t[j]).0@ == name,
        0 <= i < t.len() && (forall|j: int| 0 <= j < i ==> (#[trigger] t[j]).0@ != t[i].0@)
            ==> tables_upto(t, t.len() as int)[t[i].0@] == t[i].1@,
{
    lemma_table_names(t, t.len() as int, name);
    if 0 <= i < t.len() && (forall|j: int| 0 <= j < i ==> (#[trigger] t[j]).0@ != t[i].0@) {
        lemma_table_at(t, i, t.len() as int);
    }
}

proof fn lemma_table_names(t: Seq<(String, String)>, k: int, name: Seq<char>)
    requires
        0 <= k <= t.len(),
    ensures
        tables_upto(t, k).dom().contains(name) <==> exists|j: int|
            0 <= j < k && (#[trigger] t[j]).0@ == name,
    decreases k,
{
    if k > 0 {
        lemma_table_names(t, k - 1, name);
        if t[k - 1].0@ == name {
            assert(0 <= k - 1 < k && t[k - 1].0@ == name);
        }
    }
}

proof fn lemma_table_at(t: Seq<(String, String)>, i: int, k: int)
    requires
        0 <= i < k <= t.len(),
        forall|j: int| 0 <= j < i ==> (#[trigger] t[j]).0@ != t[i].0@,
    ensures
        tables_upto(t, k).dom().contains(t[i].0@),
        tables_upto(t, k)[t[i].0@] == t[i].1@,
    decreases k,
{
    if i < k - 1 {
        lemma_table_at(t, i, k - 1);
    } else {
        lemma_table_names(t, k - 1, t[i].0@);
    }
}

/// One more service is put at the end of those of its server, and leaves the others as they
/// are; the first service of a server puts the server behind the others.
pub proof fn law_summary_grows_by_service(services: Seq<SvcSummaryView>, x: SvcSummaryView, g: int)
    ensures
        ({
            let a = grouped(services);
            let b = grouped(services.push(x));
            let known = exists|i: int| 0 <= i < a.len() && (#[trigger] a[i]).server == x.server;
            let line = SvcHealthSummaryView {
                service: svc_nice_text(x.service),
                health: x.health,
            };
            &&& grouped(Seq::empty()) == Seq::<ServerSummaryView>::empty()
            &&& b.len() == (if known {
                a.len()
            } else {
                a.len() + 1
            })
            &&& 0 <= g < a.len() ==> b[g].server == a[g].server
            &&& 0 <= g < a.len() && a[g].server != x.server ==> b[g].services == a[g].services
            &&& 0 <= g < a.len() && a[g].server == x.server ==> b[g].services
                == a[g].services.push(line)
            &&& !known ==> b.last().server == x.server && b.last().services == seq![line]
        }),
{
    let n = services.len() as int;
    lemma_grouped_prefix(services.push(x), services, n);
    let a = grouped(services);
    lemma_summary_index(a, x.server, 0);
    if 0 <= g < a.len() && a[g].server == x.server {
        let at = summary_index(a, x.server, 0);
        if at < g {
            law_servers_come_once(services, at, g);
        }
    }
}

proof fn lemma_grouped_prefix(a: Seq<SvcSummaryView>, b: Seq<SvcSummaryView>, k: int)
    requires
        k <= a.len(),
        k <= b.len(),
        forall|i: int| 0 <= i < k ==> #[trigger] a[i] == b[i],
    ensures
        grouped_upto(a, k) == grouped_upto(b, k),
    decreases k,
{
    if k > 0 {
        lemma_grouped_prefix(a, b, k - 1);
        assert(a[k - 1] == b[k - 1]);
    }
}

/// The lines of the report: one more task adds its line where it does not run, one more
/// server adds nothing by itself, and one more service of the last server adds its line
/// where it is not healthy.
pub proof fn law_report_grows_by_fault(
    tasks: Seq<TaskSummaryView>,
    t: TaskSummaryView,
    cloud: Seq<ServerSummaryView>,
    server: Seq<char>,
    services: Seq<SvcHealthSummaryView>,
    x: SvcHealthSummaryView,
)
    ensures
        report_lines(CloudSummaryView { tasks: Seq::empty(), cloud: Seq::empty() }) == Seq::<
            Seq<char>,
        >::empty(),
        report_lines(CloudSummaryView { tasks: tasks.push(t), cloud: Seq::empty() })
            == report_lines(CloudSummaryView { tasks, cloud: Seq::empty() }) + (if t.running {
            Seq::empty()
        } else {
            seq!["Task '"@ + t.task + "' has crashed."@]
        }),
        report_lines(
            CloudSummaryView {
                tasks,
                cloud: cloud.push(ServerSummaryView { server, services: Seq::empty() }),
            },
        ) == report_lines(CloudSummaryView { tasks, cloud }),
        report_lines(
            CloudSummaryView {
                tasks,
                cloud: cloud.push(ServerSummaryView { server, services: services.push(x) }),
            },
        ) == report_lines(
            CloudSummaryView { tasks, cloud: cloud.push(ServerSummaryView { server, services }) },
        ) + (if x.health == SvcHealth::Healthy {
            Seq::empty()
        } else {
            seq![
                "Service "@ + x.service + " on server '"@ + server + "' is "@ + health_text(
                    x.health,
                ) + "."@,
            ]
        }),
{
    let none = Seq::<ServerSummaryView>::empty();
    let n = tasks.len() as int;
    let m = cloud.len() as int;
    let k = services.len() as int;
    let a = ServerSummaryView { server, services: Seq::empty() };
    let b = ServerSummaryView { server, services };
    let c = ServerSummaryView { server, services: services.push(x) };
    lemma_crash_prefix(tasks.push(t), tasks, n);
    lemma_cloud_prefix(cloud.push(a), cloud, m);
    lemma_cloud_prefix(cloud.push(b), cloud, m);
    lemma_cloud_prefix(cloud.push(c), cloud, m);
    lemma_sick_prefix(c, b, k);
    assert(cloud_lines(none, 0) =~= Seq::empty());
    assert(report_lines(CloudSummaryView { tasks: Seq::empty(), cloud: none }) =~= Seq::empty());
    assert(report_lines(CloudSummaryView { tasks: tasks.push(t), cloud: none }) =~= report_lines(
        CloudSummaryView { tasks, cloud: none },
    ) + (if t.running {
        Seq::empty()
    } else {
        seq![crash_text(t.task)]
    }));
    assert(report_lines(CloudSummaryView { tasks, cloud: cloud.push(a) }) =~= report_lines(
        CloudSummaryView { tasks, cloud },
    ));
    assert(cloud_lines(cloud.push(b), m + 1) == cloud_lines(cloud, m) + sick_lines(b, k));
    assert(cloud_lines(cloud.push(c), m + 1) == cloud_lines(cloud, m) + sick_lines(c, k + 1));
    assert(c.services[k] == x);
    assert(report_lines(CloudSummaryView { tasks, cloud: cloud.push(c) }) =~= report_lines(
        CloudSummaryView { tasks, cloud: cloud.push(b) },
    ) + (if x.health == SvcHealth::Healthy {
        Seq::empty()
    } else {
        seq![sick_text(server, x)]
    }));
}

proof fn lemma_crash_prefix(a: Seq<TaskSummaryView>, b: Seq<TaskSummaryView>, k: int)
    requires
        k <= a.len(),
        k <= b.len(),
        forall|i: int| 0 <= i < k ==> #[trigger] a[i] == b[i],
    ensures
        crash_lines(a, k) == crash_lines(b, k),
    decreases k,
{
    if k > 0 {
        lemma_crash_prefix(a, b, k - 1);
        assert(a[k - 1] == b[k - 1]);
    }
}

proof fn lemma_cloud_prefix(a: Seq<ServerSummaryView>, b: Seq<ServerSummaryView>, k: int)
    requires
        k <= a.len(),
        k <= b.len(),
        forall|i: int| 0 <= i < k ==> #[trigger] a[i] == b[i],
    ensures
        cloud_lines(a, k) == cloud_lines(b, k),
    decreases k,
{
    if k > 0 {
        lemma_cloud_prefix(a, b, k - 1);
        assert(a[k - 1] == b[k - 1]);
    }
}

proof fn lemma_sick_prefix(a: ServerSummaryView, b: ServerSummaryView, k: int)
    requires
        k <= a.services.len(),
        k <= b.services.len(),
        a.server == b.server,
        forall|i: int| 0 <= i < k ==> #[trigger] a.services[i] == b.services[i],
    ensures
        sick_lines(a, k) == sick_lines(b, k),
    decreases k,
{
    if k > 0 {
        lemma_sick_prefix(a, b, k - 1);
        assert(a.services[k - 1] == b.services[k - 1]);
    }
}

/// A report is made of its lines, and says that all is well where there are none.
pub proof fn law_report_shows_its_lines(s: CloudSummaryView)
    ensures
        report_lines(s).len() > 0 ==> report_text(s) == joined(report_lines(s), "\n"@),
        report_lines(s).len() == 0 && s.cloud.len() == 0 ==> report_text(s)
            == "All tasks are running."@,
        report_lines(s).len() == 0 && s.cloud.len() > 0 ==> report_text(s)
            == "All tasks are running. All services are Ok."@,
{
}

} // verus!
