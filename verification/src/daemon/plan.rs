//! The tasks that the daemon starts, and what it keeps of them.

use vstd::prelude::*;

use crate::cli::{task_summary_views, TaskSummary, TaskSummaryView};
use crate::cloud::server::svc_kinds_of;
use crate::constants::{NGINX_PORT, PROXY_START_PORT};
use crate::daemon::report::{managed_of, managed_servers};
use crate::types::{
    jsub_of, same_task, server_views, super_text, task_nice_text, Cloud, CloudView, KetServer,
    ServerView, SvcInfo, SvcInfoView, SvcKind, SvcKindView, TaskEntry, TaskView,
};

verus! {

// ---------------------------------------------------------------- the registry

/// A task, and whether it has come to its end.
pub struct TaskRun {
    pub entry: TaskEntry,
    pub finished: bool,
}

#[verifier::ext_equal]
pub struct TaskRunView {
    pub entry: TaskView,
    pub finished: bool,
}

impl View for TaskRun {
    type V = TaskRunView;

    open spec fn view(&self) -> TaskRunView {
        TaskRunView { entry: self.entry@, finished: self.finished }
    }
}

/// The tasks that were started.
pub struct TaskMap {
    pub tasks: Vec<TaskRun>,
}

pub open spec fn run_views(s: Seq<TaskRun>) -> Seq<TaskRunView> {
    s.map_values(|t: TaskRun| t@)
}

impl View for TaskMap {
    type V = Seq<TaskRunView>;

    open spec fn view(&self) -> Seq<TaskRunView> {
        run_views(self.tasks@)
    }
}

/// The tasks without this one.
pub open spec fn without_upto(tasks: Seq<TaskRunView>, entry: TaskView, k: int) -> Seq<TaskRunView>
    decreases k,
{
    if k <= 0 {
        Seq::empty()
    } else if same_task(tasks[k - 1].entry, entry) {
        without_upto(tasks, entry, k - 1)
    } else {
        without_upto(tasks, entry, k - 1).push(tasks[k - 1])
    }
}

pub open spec fn without_task(tasks: Seq<TaskRunView>, entry: TaskView) -> Seq<TaskRunView> {
    without_upto(tasks, entry, tasks.len() as int)
}

/// A setup or destruction that is under way.
pub open spec fn is_busy(t: TaskRunView) -> bool {
    (t.entry is FullSetup || t.entry is DestroyServer) && !t.finished
}

pub open spec fn any_busy(tasks: Seq<TaskRunView>) -> bool {
    exists|i: int| 0 <= i < tasks.len() && is_busy(#[trigger] tasks[i])
}

impl TaskMap {
    /// The names of the tasks, and whether they are running.
    pub fn status(&self) -> (r: Vec<TaskSummary>)
        ensures
            task_summary_views(r@) == self@.map_values(
                |t: TaskRunView|
                    TaskSummaryView { task: task_nice_text(t.entry), running: !t.finished },
            ),
    {
        let ghost f = |t: TaskRunView|
            TaskSummaryView { task: task_nice_text(t.entry), running: !t.finished };
        let mut r: Vec<TaskSummary> = Vec::new();
        assert(task_summary_views(r@) =~= self@.take(0).map_values(f));
        let mut i: usize = 0;
        while i < self.tasks.len()
            invariant
                i <= self.tasks@.len(),
                f == (|t: TaskRunView|
                    TaskSummaryView { task: task_nice_text(t.entry), running: !t.finished }),
                task_summary_views(r@) == self@.take(i as int).map_values(f),
            decreases self.tasks@.len() - i,
        {
            let t = &self.tasks[i];
            assert(self@[i as int] == t@);
            let ghost before = r@;
            let s = TaskSummary { task: t.entry.nice_display(), running: !t.finished };
            r.push(s);
            assert(task_summary_views(r@) =~= task_summary_views(before).push(s@));
            assert(self@.take(i + 1) =~= self@.take(i as int).push(self@[i as int]));
            assert(self@.take(i + 1).map_values(f) =~= self@.take(i as int).map_values(f).push(
                f(self@[i as int]),
            ));
            i += 1;
        }
        assert(self@.take(i as int) =~= self@);
        r
    }

    /// Answers a setup or destruction that has succeeded: it leaves the tasks, and
    /// the answer tells whether another one is under way.
    pub fn setup_inquiry(&mut self, entry: &TaskEntry) -> (found: bool)
        ensures
            final(self)@ == without_task(old(self)@, entry@),
            found == any_busy(final(self)@),
    {
        let ghost all = self@;
        let mut found = false;
        let mut kept: Vec<TaskRun> = Vec::new();
        assert(run_views(kept@) =~= without_upto(all, entry@, 0));
        let mut i: usize = 0;
        while i < self.tasks.len()
            invariant
                i <= self.tasks@.len(),
                all == self@,
                run_views(kept@) == without_upto(all, entry@, i as int),
                found == any_busy(run_views(kept@)),
            decreases self.tasks@.len() - i,
        {
            let t = &self.tasks[i];
            assert(all[i as int] == t@);
            if t.entry != *entry {
                let ghost before = run_views(kept@);
                let busy = match t.entry {
                    TaskEntry::FullSetup(_) => !t.finished,
                    TaskEntry::DestroyServer(_) => !t.finished,
                    _ => false,
                };
                kept.push(TaskRun { entry: t.entry.clone(), finished: t.finished });
                let ghost now = run_views(kept@);
                assert(now =~= before.push(t@));
                proof {
                    assert(now[before.len() as int] == t@);
                    if any_busy(before) {
                        let j = choose|j: int| 0 <= j < before.len() && is_busy(
                            #[trigger] before[j],
                        );
                        assert(is_busy(now[j]));
                    }
                    if any_busy(now) && !busy {
                        let j = choose|j: int| 0 <= j < now.len() && is_busy(#[trigger] now[j]);
                        assert(is_busy(before[j]));
                    }
                }
                if busy {
                    found = true;
                }
            }
            i += 1;
        }
        self.tasks = kept;
        found
    }
}

// ---------------------------------------------------------------- the plan

/// The service that checks SSH on a server.
pub open spec fn ssh_info(s: ServerView) -> SvcInfoView {
    SvcInfoView { server: s, port: s.ssh_port, kind: SvcKindView::Ssh, link: None }
}

/// The service that checks Nginx on a server.
pub open spec fn nginx_info(s: ServerView) -> SvcInfoView {
    SvcInfoView { server: s, port: NGINX_PORT, kind: SvcKindView::Nginx, link: None }
}

/// The local port after this one.
pub open spec fn next_port(p: u16) -> u16 {
    vstd::wrapping::u16_specs::wrapping_add(p, 1)
}

/// The monitors of the first `k` inbounds of a server, where the local ports from
/// `port` on are free, and the port that is free after them. The supervisor
/// needs no port.
pub open spec fn xray_upto(s: ServerView, port: u16, k: int) -> Result<
    (Seq<TaskView>, u16),
    Seq<char>,
>
    decreases k,
{
    if k <= 0 {
        Ok((Seq::empty(), port))
    } else {
        match xray_upto(s, port, k - 1) {
            Err(e) => Err(e),
            Ok((tasks, p)) => {
                let inb = s.inbounds[k - 1];
                let is_super = inb.name == super_text();
                match jsub_of(inb, s) {
                    Err(e) => Err(e),
                    Ok(url) => Ok(
                        (
                            tasks.push(
                                TaskView::XrayMonitor(
                                    SvcInfoView {
                                        server: s,
                                        port: if is_super {
                                            0
                                        } else {
                                            p
                                        },
                                        kind: SvcKindView::Xray(inb.name),
                                        link: Some(url),
                                    },
                                ),
                            ),
                            if is_super {
                                p
                            } else {
                                next_port(p)
                            },
                        ),
                    ),
                }
            },
        }
    }
}

/// The tasks for a server: the monitors of its services, and the two that look
/// after its backups and its certificate.
pub open spec fn server_tasks(s: ServerView, port: u16) -> Result<
    (Seq<TaskView>, u16),
    Seq<char>,
> {
    match xray_upto(s, port, s.inbounds.len() as int) {
        Err(e) => Err(e),
        Ok((tasks, p)) => Ok(
            (
                seq![TaskView::SshMonitor(ssh_info(s)), TaskView::NginxMonitor(nginx_info(s))]
                    + tasks + seq![TaskView::XuiDbPruner(s), TaskView::AcmeChecker(s)],
                p,
            ),
        ),
    }
}

/// The tasks for the first `k` servers.
pub open spec fn tasks_upto(servers: Seq<ServerView>, k: int) -> Result<
    (Seq<TaskView>, u16),
    Seq<char>,
>
    decreases k,
{
    if k <= 0 {
        Ok((Seq::empty(), PROXY_START_PORT))
    } else {
        match tasks_upto(servers, k - 1) {
            Err(e) => Err(e),
            Ok((tasks, p)) => match server_tasks(servers[k - 1], p) {
                Err(e) => Err(e),
                Ok((more, q)) => Ok((tasks + more, q)),
            },
        }
    }
}

/// The task is among these.
pub open spec fn has_task(tasks: Seq<TaskView>, t: TaskView) -> bool {
    exists|i: int| 0 <= i < tasks.len() && same_task(#[trigger] tasks[i], t)
}

/// The first `k` tasks, each once.
pub open spec fn distinct_upto(tasks: Seq<TaskView>, k: int) -> Seq<TaskView>
    decreases k,
{
    if k <= 0 {
        Seq::empty()
    } else {
        let before = distinct_upto(tasks, k - 1);
        if has_task(before, tasks[k - 1]) {
            before
        } else {
            before.push(tasks[k - 1])
        }
    }
}

pub open spec fn distinct(tasks: Seq<TaskView>) -> Seq<TaskView> {
    distinct_upto(tasks, tasks.len() as int)
}

/// The tasks that every daemon has beside its socket listener.
pub open spec fn global_tasks() -> Seq<TaskView> {
    seq![TaskView::SignalWatcher, TaskView::GeoipUpdater]
}

/// The tasks that the daemon starts for a cloud, in order, or why it cannot.
pub open spec fn planned_tasks(cloud: CloudView) -> Result<Seq<TaskView>, Seq<char>> {
    let prod = managed_of(cloud.servers);
    if prod.len() == 0 {
        Ok(global_tasks())
    } else {
        match tasks_upto(prod, prod.len() as int) {
            Err(e) => Err(e),
            Ok((tasks, _)) => Ok(distinct(global_tasks() + seq![TaskView::Aggregator] + tasks)),
        }
    }
}

/// How many services the first `k` servers have.
pub open spec fn services_upto(servers: Seq<ServerView>, k: int) -> nat
    decreases k,
{
    if k <= 0 {
        0
    } else {
        services_upto(servers, k - 1) + svc_kinds_of(servers[k - 1]).len()
    }
}

/// How many services of the cloud are monitored.
pub open spec fn service_count(cloud: CloudView) -> nat {
    let prod = managed_of(cloud.servers);
    services_upto(prod, prod.len() as int)
}

pub open spec fn task_views(s: Seq<TaskEntry>) -> Seq<TaskView> {
    s.map_values(|t: TaskEntry| t@)
}

/// What the daemon starts for a cloud.
pub struct DaemonPlan {
    pub tasks: Vec<TaskEntry>,
    /// How many services are monitored in all.
    pub ndata: usize,
    /// How many seconds lie between two checks of a service.
    pub interval: u64,
    pub auto_fix: bool,
    pub fix_threshold: u64,
    /// There is no production server, and so nothing to monitor.
    pub nothing_to_monitor: bool,
}

fn push_task(tasks: &mut Vec<TaskEntry>, t: TaskEntry)
    ensures
        task_views(final(tasks)@) == task_views(old(tasks)@).push(t@),
{
    tasks.push(t);
    assert(task_views(tasks@) =~= task_views(old(tasks)@).push(t@));
}

/// Adds the monitors of the inbounds of a server; the result is the local port
/// that is free after them.
fn plan_inbounds(server: &KetServer, port: u16, tasks: &mut Vec<TaskEntry>) -> (r: Result<
    u16,
    String,
>)
    ensures
        match r {
            Ok(p) => xray_upto(server@, port, server@.inbounds.len() as int) is Ok && p
                == xray_upto(server@, port, server@.inbounds.len() as int)->Ok_0.1 && task_views(
                final(tasks)@,
            ) == task_views(old(tasks)@) + xray_upto(
                server@,
                port,
                server@.inbounds.len() as int,
            )->Ok_0.0,
            Err(e) => xray_upto(server@, port, server@.inbounds.len() as int) == Err::<
                (Seq<TaskView>, u16),
                Seq<char>,
            >(e@),
        },
{
    let ghost sv = server@;
    let ghost start = task_views(tasks@);
    let super_name = SvcKind::super_name();
    let mut p: u16 = port;
    assert(task_views(tasks@) =~= start + Seq::<TaskView>::empty());
    let mut i: usize = 0;
    while i < server.inbounds.len()
        invariant
            i <= server.inbounds@.len(),
            sv == server@,
            super_name@ == super_text(),
            xray_upto(sv, port, i as int) is Ok,
            p == xray_upto(sv, port, i as int)->Ok_0.1,
            task_views(tasks@) == start + xray_upto(sv, port, i as int)->Ok_0.0,
        decreases server.inbounds@.len() - i,
    {
        let inbound = &server.inbounds[i];
        assert(sv.inbounds[i as int] == inbound@);
        let is_super = inbound.name == super_name;
        let link = match inbound.get_jsub(server) {
            Ok(u) => u,
            Err(e) => {
                proof {
                    lemma_xray_error(sv, port, i + 1, sv.inbounds.len() as int);
                }
                return Err(e);
            },
        };
        let info = SvcInfo {
            server: server.clone(),
            port: if is_super {
                0
            } else {
                p
            },
            kind: SvcKind::Xray(inbound.name.clone()),
            link: Some(link),
        };
        let ghost before = task_views(tasks@);
        push_task(tasks, TaskEntry::XrayMonitor(info));
        if !is_super {
            p = p.wrapping_add(1);
        }
        i += 1;
        assert(task_views(tasks@) =~= start + xray_upto(sv, port, i as int)->Ok_0.0);
    }
    Ok(p)
}

proof fn lemma_xray_error(s: ServerView, port: u16, i: int, k: int)
    requires
        0 <= i <= k,
        xray_upto(s, port, i) is Err,
    ensures
        xray_upto(s, port, k) == xray_upto(s, port, i),
    decreases k - i,
{
    if i < k {
        lemma_xray_error(s, port, i, k - 1);
    }
}

proof fn lemma_tasks_error(servers: Seq<ServerView>, i: int, k: int)
    requires
        0 <= i <= k,
        tasks_upto(servers, i) is Err,
    ensures
        tasks_upto(servers, k) == tasks_upto(servers, i),
    decreases k - i,
{
    if i < k {
        lemma_tasks_error(servers, i, k - 1);
    }
}

/// Adds the tasks for a server.
fn plan_server(server: &KetServer, port: u16, tasks: &mut Vec<TaskEntry>) -> (r: Result<u16, String>)
    ensures
        match r {
            Ok(p) => server_tasks(server@, port) is Ok && p == server_tasks(server@, port)->Ok_0.1
                && task_views(final(tasks)@) == task_views(old(tasks)@) + server_tasks(
                server@,
                port,
            )->Ok_0.0,
            Err(e) => server_tasks(server@, port) == Err::<(Seq<TaskView>, u16), Seq<char>>(e@),
        },
{
    let ghost start = task_views(tasks@);
    let ssh = SvcInfo {
        server: server.clone(),
        port: server.ssh_port,
        kind: SvcKind::Ssh,
        link: None,
    };
    push_task(tasks, TaskEntry::SshMonitor(ssh));
    let nginx = SvcInfo {
        server: server.clone(),
        port: NGINX_PORT,
        kind: SvcKind::Nginx,
        link: None,
    };
    push_task(tasks, TaskEntry::NginxMonitor(nginx));
    match plan_inbounds(server, port, tasks) {
        Err(e) => Err(e),
        Ok(p) => {
            push_task(tasks, TaskEntry::XuiDbPruner(server.clone()));
            push_task(tasks, TaskEntry::AcmeChecker(server.clone()));
            assert(task_views(tasks@) =~= start + server_tasks(server@, port)->Ok_0.0);
            Ok(p)
        },
    }
}

fn contains_task(tasks: &Vec<TaskEntry>, t: &TaskEntry) -> (r: bool)
    ensures
        r == has_task(task_views(tasks@), t@),
{
    let ghost views = task_views(tasks@);
    let mut i: usize = 0;
    while i < tasks.len()
        invariant
            i <= tasks@.len(),
            views == task_views(tasks@),
            forall|j: int| 0 <= j < i ==> !same_task(#[trigger] views[j], t@),
        decreases tasks@.len() - i,
    {
        assert(views[i as int] == tasks@[i as int]@);
        if tasks[i] == *t {
            return true;
        }
        i += 1;
    }
    false
}

fn distinct_tasks(tasks: &Vec<TaskEntry>) -> (r: Vec<TaskEntry>)
    ensures
        task_views(r@) == distinct(task_views(tasks@)),
{
    let ghost views = task_views(tasks@);
    let mut r: Vec<TaskEntry> = Vec::new();
    assert(task_views(r@) =~= distinct_upto(views, 0));
    let mut i: usize = 0;
    while i < tasks.len()
        invariant
            i <= tasks@.len(),
            views == task_views(tasks@),
            task_views(r@) == distinct_upto(views, i as int),
        decreases tasks@.len() - i,
    {
        assert(views[i as int] == tasks@[i as int]@);
        if !contains_task(&r, &tasks[i]) {
            push_task(&mut r, tasks[i].clone());
        }
        i += 1;
    }
    r
}

/// Plans what the daemon starts for a cloud.
pub fn plan_daemon(cloud: &Cloud) -> (r: Result<DaemonPlan, String>)
    requires
        service_count(cloud@) <= usize::MAX,
    ensures
        match r {
            Ok(p) => {
                &&& planned_tasks(cloud@) == Ok::<Seq<TaskView>, Seq<char>>(task_views(p.tasks@))
                &&& p.ndata == service_count(cloud@)
                &&& p.interval == cloud.settings.monitor_interval
                &&& p.auto_fix == cloud.settings.auto_fix
                &&& p.fix_threshold == cloud.settings.fix_threshold
                &&& p.nothing_to_monitor == (managed_of(cloud@.servers).len() == 0)
            },
            Err(e) => planned_tasks(cloud@) == Err::<Seq<TaskView>, Seq<char>>(e@),
        },
{
    let prod = managed_servers(&cloud.servers);
    let ghost pv = server_views(prod@);
    assert(pv == managed_of(cloud@.servers));
    assert(pv.len() == prod@.len());
    let mut tasks: Vec<TaskEntry> = Vec::new();
    assert(task_views(tasks@) =~= Seq::<TaskView>::empty());
    push_task(&mut tasks, TaskEntry::SignalWatcher);
    push_task(&mut tasks, TaskEntry::GeoipUpdater);
    assert(task_views(tasks@) =~= global_tasks());
    if prod.len() == 0 {
        return Ok(
            DaemonPlan {
                tasks,
                ndata: 0,
                interval: cloud.settings.monitor_interval,
                auto_fix: cloud.settings.auto_fix,
                fix_threshold: cloud.settings.fix_threshold,
                nothing_to_monitor: true,
            },
        );
    }
    push_task(&mut tasks, TaskEntry::Aggregator);
    let ghost start = global_tasks() + seq![TaskView::Aggregator];
    assert(task_views(tasks@) =~= start + Seq::<TaskView>::empty());
    let mut ndata: usize = 0;
    let mut port: u16 = PROXY_START_PORT;
    let mut i: usize = 0;
    while i < prod.len()
        invariant
            i <= prod@.len(),
            pv == server_views(prod@),
            pv == managed_of(cloud@.servers),
            prod@.len() > 0,
            pv.len() == prod@.len(),
            service_count(cloud@) <= usize::MAX,
            ndata == services_upto(pv, i as int),
            tasks_upto(pv, i as int) is Ok,
            port == tasks_upto(pv, i as int)->Ok_0.1,
            task_views(tasks@) == start + tasks_upto(pv, i as int)->Ok_0.0,
        decreases prod@.len() - i,
    {
        assert(pv[i as int] == prod@[i as int]@);
        proof {
            lemma_services_grow(pv, i + 1, pv.len() as int);
        }
        ndata = ndata + prod[i].svc_num();
        match plan_server(&prod[i], port, &mut tasks) {
            Err(e) => {
                proof {
                    lemma_tasks_error(pv, i + 1, pv.len() as int);
                }
                return Err(e);
            },
            Ok(p) => {
                port = p;
            },
        }
        i += 1;
        assert(task_views(tasks@) =~= start + tasks_upto(pv, i as int)->Ok_0.0);
    }
    let tasks = distinct_tasks(&tasks);
    Ok(
        DaemonPlan {
            tasks,
            ndata,
            interval: cloud.settings.monitor_interval,
            auto_fix: cloud.settings.auto_fix,
            fix_threshold: cloud.settings.fix_threshold,
            nothing_to_monitor: false,
        },
    )
}

proof fn lemma_services_grow(servers: Seq<ServerView>, i: int, k: int)
    requires
        0 <= i <= k,
    ensures
        services_upto(servers, i) <= services_upto(servers, k),
    decreases k - i,
{
    if i < k {
        lemma_services_grow(servers, i, k - 1);
    }
}

} // verus!
