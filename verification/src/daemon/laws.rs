//! What holds of the tasks that the daemon starts.

use vstd::prelude::*;

use crate::cloud::server::svc_kinds_of;
use crate::constants::PROXY_START_PORT;
use crate::daemon::plan::{
    any_busy, distinct, distinct_upto, global_tasks, has_task, is_busy, planned_tasks, server_tasks,
    service_count, services_upto, tasks_upto, without_task, without_upto, xray_upto, TaskRunView,
};
use crate::daemon::report::{is_managed, managed_of, managed_upto};
use crate::types::{
    jsub_of, same_task, task_server, CloudView, ServerState, ServerView, SvcKindView, TaskView,
};

verus! {

/// The service that a task monitors, where it monitors one.
pub open spec fn monitored(t: TaskView) -> Option<SvcKindView> {
    match t {
        TaskView::SshMonitor(i) | TaskView::NginxMonitor(i) | TaskView::XrayMonitor(i) => Some(
            i.kind,
        ),
        _ => None,
    }
}

/// Some task monitors the service of the server.
pub open spec fn is_monitored(tasks: Seq<TaskView>, server: Seq<char>, kind: SvcKindView) -> bool {
    exists|i: int|
        0 <= i < tasks.len() && task_server(#[trigger] tasks[i]) == Some(server) && monitored(
            tasks[i],
        ) == Some(kind)
}

proof fn lemma_distinct_has(tasks: Seq<TaskView>, k: int, j: int)
    requires
        0 <= j < k <= tasks.len(),
    ensures
        has_task(distinct_upto(tasks, k), tasks[j]),
    decreases k,
{
    let before = distinct_upto(tasks, k - 1);
    let now = distinct_upto(tasks, k);
    if j < k - 1 {
        lemma_distinct_has(tasks, k - 1, j);
        let i = choose|i: int| 0 <= i < before.len() && same_task(#[trigger] before[i], tasks[j]);
        assert(now[i] == before[i]);
    } else if !has_task(before, tasks[j]) {
        assert(now[before.len() as int] == tasks[j]);
        assert(same_task(now[before.len() as int], tasks[j]));
    }
}

proof fn lemma_same_service_monitored(a: TaskView, b: TaskView)
    requires
        same_task(a, b),
    ensures
        task_server(a) == task_server(b),
        monitored(a) == monitored(b),
{
}

proof fn lemma_distinct_monitors(tasks: Seq<TaskView>, server: Seq<char>, kind: SvcKindView)
    requires
        is_monitored(tasks, server, kind),
    ensures
        is_monitored(distinct(tasks), server, kind),
{
    let j = choose|i: int|
        0 <= i < tasks.len() && task_server(#[trigger] tasks[i]) == Some(server) && monitored(
            tasks[i],
        ) == Some(kind);
    lemma_distinct_has(tasks, tasks.len() as int, j);
    let d = distinct(tasks);
    let i = choose|i: int| 0 <= i < d.len() && same_task(#[trigger] d[i], tasks[j]);
    lemma_same_service_monitored(d[i], tasks[j]);
}

proof fn lemma_xray_at(s: ServerView, port: u16, k: int, j: int)
    requires
        0 <= j < k <= s.inbounds.len(),
        xray_upto(s, port, k) is Ok,
    ensures
        xray_upto(s, port, k)->Ok_0.0.len() == k,
        task_server(xray_upto(s, port, k)->Ok_0.0[j]) == Some(s.name),
        monitored(xray_upto(s, port, k)->Ok_0.0[j]) == Some(SvcKindView::Xray(s.inbounds[j].name)),
        xray_upto(s, port, k)->Ok_0.0[j] is XrayMonitor,
    decreases k,
{
    if k > 1 {
        lemma_xray_at(s, port, k - 1, if j < k - 1 {
            j
        } else {
            0
        });
    } else {
        assert(xray_upto(s, port, 0)->Ok_0.0 =~= Seq::empty());
    }
}

proof fn lemma_server_monitored(s: ServerView, port: u16, m: int)
    requires
        server_tasks(s, port) is Ok,
        0 <= m < svc_kinds_of(s).len(),
    ensures
        is_monitored(server_tasks(s, port)->Ok_0.0, s.name, svc_kinds_of(s)[m]),
{
    let tasks = server_tasks(s, port)->Ok_0.0;
    let n = s.inbounds.len() as int;
    if m >= 2 {
        lemma_xray_at(s, port, n, m - 2);
        assert(tasks[m] == xray_upto(s, port, n)->Ok_0.0[m - 2]);
    }
    assert(task_server(tasks[m]) == Some(s.name));
    assert(monitored(tasks[m]) == Some(svc_kinds_of(s)[m]));
}

proof fn lemma_tasks_monitored(servers: Seq<ServerView>, k: int, i: int, m: int)
    requires
        0 <= i < k <= servers.len(),
        tasks_upto(servers, k) is Ok,
        0 <= m < svc_kinds_of(servers[i]).len(),
    ensures
        is_monitored(tasks_upto(servers, k)->Ok_0.0, servers[i].name, svc_kinds_of(servers[i])[m]),
    decreases k,
{
    let before = tasks_upto(servers, k - 1)->Ok_0;
    let more = server_tasks(servers[k - 1], before.1)->Ok_0.0;
    let now = tasks_upto(servers, k)->Ok_0.0;
    let name = servers[i].name;
    let kind = svc_kinds_of(servers[i])[m];
    if i < k - 1 {
        lemma_tasks_monitored(servers, k - 1, i, m);
        let p = choose|p: int|
            0 <= p < before.0.len() && task_server(#[trigger] before.0[p]) == Some(name)
                && monitored(before.0[p]) == Some(kind);
        assert(now[p] == before.0[p]);
    } else {
        lemma_server_monitored(servers[i], before.1, m);
        let p = choose|p: int|
            0 <= p < more.len() && task_server(#[trigger] more[p]) == Some(name) && monitored(
                more[p],
            ) == Some(kind);
        assert(now[before.0.len() + p] == more[p]);
    }
}

proof fn lemma_managed_in(servers: Seq<ServerView>, k: int, i: int)
    requires
        0 <= i < k <= servers.len(),
        is_managed(servers[i]),
    ensures
        exists|j: int| 0 <= j < managed_upto(servers, k).len() && #[trigger] managed_upto(servers, k)[j]
            == servers[i],
    decreases k,
{
    let before = managed_upto(servers, k - 1);
    let now = managed_upto(servers, k);
    if i < k - 1 {
        lemma_managed_in(servers, k - 1, i);
        let j = choose|j: int| 0 <= j < before.len() && #[trigger] before[j] == servers[i];
        assert(now[j] == servers[i]);
    } else {
        assert(now[before.len() as int] == servers[i]);
    }
}

/// Every service of every managed server is monitored: SSH, Nginx, and each of
/// its inbounds.
pub proof fn law_every_service_is_monitored(cloud: CloudView, i: int, m: int)
    requires
        planned_tasks(cloud) is Ok,
        0 <= i < cloud.servers.len(),
        is_managed(cloud.servers[i]),
        0 <= m < svc_kinds_of(cloud.servers[i]).len(),
    ensures
        is_monitored(
            planned_tasks(cloud)->Ok_0,
            cloud.servers[i].name,
            svc_kinds_of(cloud.servers[i])[m],
        ),
{
    let prod = managed_of(cloud.servers);
    lemma_managed_in(cloud.servers, cloud.servers.len() as int, i);
    let j = choose|j: int| 0 <= j < prod.len() && #[trigger] prod[j] == cloud.servers[i];
    lemma_tasks_monitored(prod, prod.len() as int, j, m);
    let tasks = tasks_upto(prod, prod.len() as int)->Ok_0.0;
    let head = global_tasks() + seq![TaskView::Aggregator];
    let all = head + tasks;
    let name = cloud.servers[i].name;
    let kind = svc_kinds_of(cloud.servers[i])[m];
    let p = choose|p: int|
        0 <= p < tasks.len() && task_server(#[trigger] tasks[p]) == Some(name) && monitored(
            tasks[p],
        ) == Some(kind);
    assert(all[head.len() + p] == tasks[p]);
    assert(is_monitored(all, name, kind));
    lemma_distinct_monitors(all, name, kind);
}

// ---------------------------------------------------------------- only managed servers

proof fn lemma_server_tasks_named(s: ServerView, port: u16, j: int)
    requires
        server_tasks(s, port) is Ok,
        0 <= j < server_tasks(s, port)->Ok_0.0.len(),
    ensures
        task_server(server_tasks(s, port)->Ok_0.0[j]) == Some(s.name),
        server_tasks(s, port)->Ok_0.0.len() == s.inbounds.len() + 4,
{
    let n = s.inbounds.len() as int;
    let x = xray_upto(s, port, n)->Ok_0.0;
    if n > 0 {
        lemma_xray_at(s, port, n, 0);
    }
    if 2 <= j < 2 + n {
        lemma_xray_at(s, port, n, j - 2);
        assert(server_tasks(s, port)->Ok_0.0[j] == x[j - 2]);
    }
}

proof fn lemma_tasks_named(servers: Seq<ServerView>, k: int, j: int)
    requires
        0 <= k <= servers.len(),
        tasks_upto(servers, k) is Ok,
        0 <= j < tasks_upto(servers, k)->Ok_0.0.len(),
    ensures
        exists|i: int|
            0 <= i < k && task_server(tasks_upto(servers, k)->Ok_0.0[j]) == Some(
                (#[trigger] servers[i]).name,
            ),
    decreases k,
{
    if k > 0 {
        let before = tasks_upto(servers, k - 1)->Ok_0;
        let more = server_tasks(servers[k - 1], before.1)->Ok_0.0;
        let now = tasks_upto(servers, k)->Ok_0.0;
        if j < before.0.len() {
            lemma_tasks_named(servers, k - 1, j);
            assert(now[j] == before.0[j]);
        } else {
            lemma_server_tasks_named(servers[k - 1], before.1, j - before.0.len());
            assert(now[j] == more[j - before.0.len()]);
            assert(task_server(now[j]) == Some(servers[k - 1].name));
        }
    }
}

proof fn lemma_managed_from(servers: Seq<ServerView>, k: int, j: int)
    requires
        0 <= k <= servers.len(),
        0 <= j < managed_upto(servers, k).len(),
    ensures
        exists|i: int|
            0 <= i < k && #[trigger] servers[i] == managed_upto(servers, k)[j] && is_managed(
                servers[i],
            ),
    decreases k,
{
    if k > 0 {
        let before = managed_upto(servers, k - 1);
        if j < before.len() {
            lemma_managed_from(servers, k - 1, j);
        } else {
            assert(servers[k - 1] == managed_upto(servers, k)[j]);
        }
    }
}

proof fn lemma_distinct_from(tasks: Seq<TaskView>, k: int, j: int)
    requires
        0 <= k <= tasks.len(),
        0 <= j < distinct_upto(tasks, k).len(),
    ensures
        exists|i: int| 0 <= i < k && #[trigger] tasks[i] == distinct_upto(tasks, k)[j],
    decreases k,
{
    if k > 0 {
        let before = distinct_upto(tasks, k - 1);
        if j < before.len() {
            lemma_distinct_from(tasks, k - 1, j);
        } else {
            assert(tasks[k - 1] == distinct_upto(tasks, k)[j]);
        }
    }
}

/// No task works for a server that is disabled or not in production.
pub proof fn law_unmanaged_servers_are_left_alone(cloud: CloudView, j: int)
    requires
        planned_tasks(cloud) is Ok,
        0 <= j < planned_tasks(cloud)->Ok_0.len(),
    ensures
        match task_server(planned_tasks(cloud)->Ok_0[j]) {
            None => true,
            Some(name) => exists|i: int|
                0 <= i < cloud.servers.len() && (#[trigger] cloud.servers[i]).name == name
                    && is_managed(cloud.servers[i]),
        },
{
    let prod = managed_of(cloud.servers);
    let n = prod.len() as int;
    if n > 0 {
        let tasks = tasks_upto(prod, n)->Ok_0.0;
        let head = global_tasks() + seq![TaskView::Aggregator];
        let all = head + tasks;
        lemma_distinct_from(all, all.len() as int, j);
        let p = choose|p: int|
            0 <= p < all.len() && #[trigger] all[p] == distinct(all)[j];
        if p >= head.len() {
            lemma_tasks_named(prod, n, p - head.len());
            let i = choose|i: int|
                0 <= i < n && task_server(tasks[p - head.len()]) == Some((#[trigger] prod[i]).name);
            lemma_managed_from(cloud.servers, cloud.servers.len() as int, i);
        }
    }
}

// ---------------------------------------------------------------- local ports

/// The local port of the monitor of an inbound.
pub open spec fn local_port(t: TaskView) -> Option<u16> {
    match t {
        TaskView::XrayMonitor(i) => if i.port == 0 {
            None
        } else {
            Some(i.port)
        },
        _ => None,
    }
}

/// The local ports of the tasks lie in a range, and each is greater than those
/// before it.
pub open spec fn ports_rise(tasks: Seq<TaskView>, from: int, to: int) -> bool {
    &&& forall|i: int|
        0 <= i < tasks.len() && local_port(#[trigger] tasks[i]) is Some ==> from <= local_port(
            tasks[i],
        )->Some_0 < to
    &&& forall|i: int, j: int|
        0 <= i < j < tasks.len() && local_port(#[trigger] tasks[i]) is Some && local_port(
            #[trigger] tasks[j],
        ) is Some ==> local_port(tasks[i])->Some_0 < local_port(tasks[j])->Some_0
}

proof fn lemma_rise_concat(a: Seq<TaskView>, b: Seq<TaskView>, from: int, mid: int, to: int)
    requires
        ports_rise(a, from, mid),
        ports_rise(b, mid, to),
        from <= mid <= to,
    ensures
        ports_rise(a + b, from, to),
{
    let c = a + b;
    assert forall|i: int|
        0 <= i < c.len() && local_port(#[trigger] c[i]) is Some implies from <= local_port(
        c[i],
    )->Some_0 < to by {
        if i < a.len() {
            assert(c[i] == a[i]);
        } else {
            assert(c[i] == b[i - a.len()]);
        }
    }
    assert forall|i: int, j: int|
        0 <= i < j < c.len() && local_port(#[trigger] c[i]) is Some && local_port(
            #[trigger] c[j],
        ) is Some implies local_port(c[i])->Some_0 < local_port(c[j])->Some_0 by {
        if i < a.len() {
            assert(c[i] == a[i]);
        } else {
            assert(c[i] == b[i - a.len()]);
        }
        if j < a.len() {
            assert(c[j] == a[j]);
        } else {
            assert(c[j] == b[j - a.len()]);
        }
    }
}

proof fn lemma_xray_ports(s: ServerView, port: u16, k: int)
    requires
        0 <= k <= s.inbounds.len(),
        xray_upto(s, port, k) is Ok,
        0 < port,
        port + k <= 0xffff,
    ensures
        port <= xray_upto(s, port, k)->Ok_0.1 <= port + k,
        ports_rise(xray_upto(s, port, k)->Ok_0.0, port as int, xray_upto(s, port, k)->Ok_0.1 as int),
    decreases k,
{
    if k > 0 {
        lemma_xray_ports(s, port, k - 1);
        let before = xray_upto(s, port, k - 1)->Ok_0;
        let now = xray_upto(s, port, k)->Ok_0;
        let one = seq![now.0[k - 1]];
        if k > 1 {
            lemma_xray_at(s, port, k - 1, 0);
        }
        assert(now.0 =~= before.0 + one);
        assert(ports_rise(one, before.1 as int, now.1 as int));
        lemma_rise_concat(before.0, one, port as int, before.1 as int, now.1 as int);
    }
}

proof fn lemma_server_ports(s: ServerView, port: u16)
    requires
        server_tasks(s, port) is Ok,
        0 < port,
        port + s.inbounds.len() <= 0xffff,
    ensures
        port <= server_tasks(s, port)->Ok_0.1 <= port + s.inbounds.len(),
        ports_rise(
            server_tasks(s, port)->Ok_0.0,
            port as int,
            server_tasks(s, port)->Ok_0.1 as int,
        ),
{
    let n = s.inbounds.len() as int;
    lemma_xray_ports(s, port, n);
    let (x, p) = xray_upto(s, port, n)->Ok_0;
    let a = seq![
        TaskView::SshMonitor(crate::daemon::plan::ssh_info(s)),
        TaskView::NginxMonitor(crate::daemon::plan::nginx_info(s)),
    ];
    let b = seq![TaskView::XuiDbPruner(s), TaskView::AcmeChecker(s)];
    lemma_rise_concat(a, x, port as int, port as int, p as int);
    lemma_rise_concat(a + x, b, port as int, p as int, p as int);
}

proof fn lemma_tasks_ports(servers: Seq<ServerView>, k: int)
    requires
        0 <= k <= servers.len(),
        tasks_upto(servers, k) is Ok,
        PROXY_START_PORT + services_upto(servers, k) <= 0xffff,
    ensures
        PROXY_START_PORT <= tasks_upto(servers, k)->Ok_0.1 <= PROXY_START_PORT + services_upto(
            servers,
            k,
        ),
        ports_rise(
            tasks_upto(servers, k)->Ok_0.0,
            PROXY_START_PORT as int,
            tasks_upto(servers, k)->Ok_0.1 as int,
        ),
    decreases k,
{
    if k > 0 {
        lemma_tasks_ports(servers, k - 1);
        let before = tasks_upto(servers, k - 1)->Ok_0;
        let more = server_tasks(servers[k - 1], before.1)->Ok_0;
        assert(svc_kinds_of(servers[k - 1]).len() == servers[k - 1].inbounds.len() + 2);
        lemma_server_ports(servers[k - 1], before.1);
        lemma_rise_concat(
            before.0,
            more.0,
            PROXY_START_PORT as int,
            before.1 as int,
            more.1 as int,
        );
    }
}

proof fn lemma_distinct_rise(tasks: Seq<TaskView>, k: int, from: int, to: int)
    requires
        0 <= k <= tasks.len(),
        ports_rise(tasks, from, to),
    ensures
        ports_rise(distinct_upto(tasks, k), from, to),
    decreases k,
{
    if k > 0 {
        lemma_distinct_rise(tasks, k - 1, from, to);
        let before = distinct_upto(tasks, k - 1);
        let now = distinct_upto(tasks, k);
        assert forall|i: int, j: int|
            0 <= i < j < now.len() && local_port(#[trigger] now[i]) is Some && local_port(
                #[trigger] now[j],
            ) is Some implies local_port(now[i])->Some_0 < local_port(now[j])->Some_0 by {
            if j < before.len() {
                assert(now[i] == before[i] && now[j] == before[j]);
            } else {
                assert(now[i] == before[i]);
                lemma_distinct_from(tasks, k - 1, i);
                let m = choose|m: int| 0 <= m < k - 1 && #[trigger] tasks[m] == before[i];
                assert(now[j] == tasks[k - 1]);
            }
        }
        assert forall|i: int|
            0 <= i < now.len() && local_port(#[trigger] now[i]) is Some implies from
            <= local_port(now[i])->Some_0 < to by {
            if i < before.len() {
                assert(now[i] == before[i]);
            } else {
                assert(now[i] == tasks[k - 1]);
            }
        }
    }
}

/// No two inbounds are tested at the same local port, as long as there are ports
/// enough.
pub proof fn law_local_ports_differ(cloud: CloudView, i: int, j: int)
    requires
        planned_tasks(cloud) is Ok,
        PROXY_START_PORT + service_count(cloud) <= 0xffff,
        0 <= i < j < planned_tasks(cloud)->Ok_0.len(),
        local_port(planned_tasks(cloud)->Ok_0[i]) is Some,
        local_port(planned_tasks(cloud)->Ok_0[j]) is Some,
    ensures
        local_port(planned_tasks(cloud)->Ok_0[i]) != local_port(planned_tasks(cloud)->Ok_0[j]),
        local_port(planned_tasks(cloud)->Ok_0[i])->Some_0 >= PROXY_START_PORT,
{
    let prod = managed_of(cloud.servers);
    let n = prod.len() as int;
    if n > 0 {
        lemma_tasks_ports(prod, n);
        let (tasks, p) = tasks_upto(prod, n)->Ok_0;
        let head = global_tasks() + seq![TaskView::Aggregator];
        lemma_rise_concat(
            head,
            tasks,
            PROXY_START_PORT as int,
            PROXY_START_PORT as int,
            p as int,
        );
        let all = head + tasks;
        lemma_distinct_rise(all, all.len() as int, PROXY_START_PORT as int, p as int);
    }
}

// ---------------------------------------------------------------- the count

/// How many of the first `k` tasks monitor a service.
pub open spec fn monitors_upto(tasks: Seq<TaskView>, k: int) -> nat
    decreases k,
{
    if k <= 0 {
        0
    } else if monitored(tasks[k - 1]) is Some {
        monitors_upto(tasks, k - 1) + 1
    } else {
        monitors_upto(tasks, k - 1)
    }
}

pub open spec fn monitor_count(tasks: Seq<TaskView>) -> nat {
    monitors_upto(tasks, tasks.len() as int)
}

/// No two of the tasks are the same.
pub open spec fn all_differ(tasks: Seq<TaskView>) -> bool {
    forall|i: int, j: int|
        0 <= i < j < tasks.len() ==> !same_task(#[trigger] tasks[i], #[trigger] tasks[j])
}

proof fn lemma_distinct_same(tasks: Seq<TaskView>, k: int)
    requires
        all_differ(tasks),
        0 <= k <= tasks.len(),
    ensures
        distinct_upto(tasks, k) == tasks.take(k),
    decreases k,
{
    if k > 0 {
        lemma_distinct_same(tasks, k - 1);
        let before = tasks.take(k - 1);
        if has_task(before, tasks[k - 1]) {
            let i = choose|i: int| 0 <= i < before.len() && same_task(
                #[trigger] before[i],
                tasks[k - 1],
            );
            assert(same_task(tasks[i], tasks[k - 1]));
        }
        assert(tasks.take(k) =~= before.push(tasks[k - 1]));
    } else {
        assert(tasks.take(0) =~= Seq::empty());
    }
}

proof fn lemma_monitors_same(a: Seq<TaskView>, b: Seq<TaskView>, k: int)
    requires
        0 <= k <= a.len(),
        k <= b.len(),
        forall|i: int| 0 <= i < k ==> a[i] == #[trigger] b[i],
    ensures
        monitors_upto(a, k) == monitors_upto(b, k),
    decreases k,
{
    if k > 0 {
        assert(a[k - 1] == b[k - 1]);
        lemma_monitors_same(a, b, k - 1);
    }
}

proof fn lemma_monitors_concat(a: Seq<TaskView>, b: Seq<TaskView>, k: int)
    requires
        0 <= k <= b.len(),
    ensures
        monitors_upto(a + b, a.len() + k) == monitor_count(a) + monitors_upto(b, k),
    decreases k,
{
    if k > 0 {
        lemma_monitors_concat(a, b, k - 1);
        assert((a + b)[a.len() + k - 1] == b[k - 1]);
    } else {
        lemma_monitors_same(a, a + b, a.len() as int);
    }
}

proof fn lemma_all_monitors(tasks: Seq<TaskView>, k: int)
    requires
        0 <= k <= tasks.len(),
        forall|i: int| 0 <= i < k ==> monitored(#[trigger] tasks[i]) is Some,
    ensures
        monitors_upto(tasks, k) == k,
    decreases k,
{
    if k > 0 {
        lemma_all_monitors(tasks, k - 1);
    }
}

proof fn lemma_server_count(s: ServerView, port: u16)
    requires
        server_tasks(s, port) is Ok,
    ensures
        monitor_count(server_tasks(s, port)->Ok_0.0) == svc_kinds_of(s).len(),
{
    let n = s.inbounds.len() as int;
    let tasks = server_tasks(s, port)->Ok_0.0;
    let x = xray_upto(s, port, n)->Ok_0.0;
    if n > 0 {
        lemma_xray_at(s, port, n, 0);
    }
    assert(tasks.len() == n + 4);
    assert forall|i: int| 0 <= i < n + 2 implies monitored(#[trigger] tasks[i]) is Some by {
        if i >= 2 {
            lemma_xray_at(s, port, n, i - 2);
            assert(tasks[i] == x[i - 2]);
        }
    }
    lemma_all_monitors(tasks, n + 2);
    assert(tasks[n + 2] == TaskView::XuiDbPruner(s));
    assert(tasks[n + 3] == TaskView::AcmeChecker(s));
    assert(monitors_upto(tasks, n + 3) == monitors_upto(tasks, n + 2));
    assert(monitors_upto(tasks, n + 4) == monitors_upto(tasks, n + 3));
}

proof fn lemma_tasks_count(servers: Seq<ServerView>, k: int)
    requires
        0 <= k <= servers.len(),
        tasks_upto(servers, k) is Ok,
    ensures
        monitor_count(tasks_upto(servers, k)->Ok_0.0) == services_upto(servers, k),
    decreases k,
{
    if k > 0 {
        lemma_tasks_count(servers, k - 1);
        let before = tasks_upto(servers, k - 1)->Ok_0;
        let more = server_tasks(servers[k - 1], before.1)->Ok_0.0;
        lemma_server_count(servers[k - 1], before.1);
        lemma_monitors_concat(before.0, more, more.len() as int);
    }
}

/// No two servers have the same name, and no two inbounds of a server either.
pub open spec fn well_named(servers: Seq<ServerView>) -> bool {
    &&& forall|i: int, j: int|
        0 <= i < j < servers.len() ==> (#[trigger] servers[i]).name != (#[trigger] servers[j]).name
    &&& forall|s: int, i: int, j: int|
        0 <= s < servers.len() && 0 <= i < j < servers[s].inbounds.len() ==> (
        #[trigger] servers[s].inbounds[i]).name != (#[trigger] servers[s].inbounds[j]).name
}

proof fn lemma_server_differ(servers: Seq<ServerView>, s: int, port: u16)
    requires
        well_named(servers),
        0 <= s < servers.len(),
        server_tasks(servers[s], port) is Ok,
    ensures
        all_differ(server_tasks(servers[s], port)->Ok_0.0),
{
    let sv = servers[s];
    let n = sv.inbounds.len() as int;
    let tasks = server_tasks(sv, port)->Ok_0.0;
    let x = xray_upto(sv, port, n)->Ok_0.0;
    if n > 0 {
        lemma_xray_at(sv, port, n, 0);
    }
    assert(tasks.len() == n + 4);
    assert forall|i: int, j: int| 0 <= i < j < tasks.len() implies !same_task(
        #[trigger] tasks[i],
        #[trigger] tasks[j],
    ) by {
        assert(tasks[n + 2] == TaskView::XuiDbPruner(sv));
        assert(tasks[n + 3] == TaskView::AcmeChecker(sv));
        if 2 <= i < 2 + n {
            lemma_xray_at(sv, port, n, i - 2);
            assert(tasks[i] == x[i - 2]);
        }
        if 2 <= j < 2 + n {
            lemma_xray_at(sv, port, n, j - 2);
            assert(tasks[j] == x[j - 2]);
        }
        if 2 <= i && j < 2 + n {
            assert(sv.inbounds[i - 2].name != sv.inbounds[j - 2].name);
        }
    }
}

proof fn lemma_tasks_differ(servers: Seq<ServerView>, k: int)
    requires
        well_named(servers),
        0 <= k <= servers.len(),
        tasks_upto(servers, k) is Ok,
    ensures
        all_differ(tasks_upto(servers, k)->Ok_0.0),
    decreases k,
{
    if k > 0 {
        lemma_tasks_differ(servers, k - 1);
        let before = tasks_upto(servers, k - 1)->Ok_0;
        let more = server_tasks(servers[k - 1], before.1)->Ok_0.0;
        let now = tasks_upto(servers, k)->Ok_0.0;
        lemma_server_differ(servers, k - 1, before.1);
        let n = before.0.len() as int;
        assert forall|i: int, j: int| 0 <= i < j < now.len() implies !same_task(
            #[trigger] now[i],
            #[trigger] now[j],
        ) by {
            if j < n {
                assert(now[i] == before.0[i] && now[j] == before.0[j]);
            } else if i >= n {
                assert(now[i] == more[i - n] && now[j] == more[j - n]);
            } else {
                assert(now[i] == before.0[i] && now[j] == more[j - n]);
                lemma_tasks_named(servers, k - 1, i);
                lemma_server_tasks_named(servers[k - 1], before.1, j - n);
                if same_task(now[i], now[j]) {
                    lemma_same_service_monitored(now[i], now[j]);
                }
            }
        }
    }
}

/// As many services report to the aggregator as it waits for: one for each task
/// that monitors a service.
pub proof fn law_aggregator_hears_of_all(cloud: CloudView)
    requires
        planned_tasks(cloud) is Ok,
        well_named(managed_of(cloud.servers)),
    ensures
        monitor_count(planned_tasks(cloud)->Ok_0) == service_count(cloud),
{
    let prod = managed_of(cloud.servers);
    let n = prod.len() as int;
    let head = global_tasks() + seq![TaskView::Aggregator];
    if n == 0 {
        let g = global_tasks();
        assert(g.len() == 2);
        assert(monitors_upto(g, 0) == 0);
        assert(monitors_upto(g, 1) == 0);
        assert(monitors_upto(g, 2) == 0);
    } else {
        let tasks = tasks_upto(prod, n)->Ok_0.0;
        lemma_tasks_differ(prod, n);
        lemma_tasks_count(prod, n);
        let all = head + tasks;
        assert forall|i: int, j: int| 0 <= i < j < all.len() implies !same_task(
            #[trigger] all[i],
            #[trigger] all[j],
        ) by {
            if i >= 3 {
                assert(all[i] == tasks[i - 3] && all[j] == tasks[j - 3]);
            } else {
                assert(all[i] == head[i]);
                if j >= 3 {
                    assert(all[j] == tasks[j - 3]);
                    lemma_tasks_named(prod, n, j - 3);
                } else {
                    assert(all[j] == head[j]);
                }
            }
        }
        lemma_distinct_same(all, all.len() as int);
        assert(all.take(all.len() as int) =~= all);
        lemma_monitors_concat(head, tasks, tasks.len() as int);
        assert(head.len() == 3);
        assert(monitors_upto(head, 0) == 0);
        assert(monitors_upto(head, 1) == 0);
        assert(monitors_upto(head, 2) == 0);
        assert(monitors_upto(head, 3) == 0);
    }
}

// ---------------------------------------------------------------- setups

/// A setup or destruction that is over does not hold back a reload: the answer to
/// its own inquiry does not count it. Any other one that is under way does.
pub proof fn law_inquirer_does_not_count(tasks: Seq<TaskRunView>, entry: TaskView)
    ensures
        any_busy(without_task(tasks, entry)) <==> exists|i: int|
            0 <= i < tasks.len() && is_busy(#[trigger] tasks[i]) && !same_task(
                tasks[i].entry,
                entry,
            ),
{
    lemma_without(tasks, entry, tasks.len() as int);
}

proof fn lemma_without(tasks: Seq<TaskRunView>, entry: TaskView, k: int)
    requires
        0 <= k <= tasks.len(),
    ensures
        any_busy(without_upto(tasks, entry, k)) <==> exists|i: int|
            0 <= i < k && is_busy(#[trigger] tasks[i]) && !same_task(tasks[i].entry, entry),
    decreases k,
{
    if k > 0 {
        lemma_without(tasks, entry, k - 1);
        let before = without_upto(tasks, entry, k - 1);
        let now = without_upto(tasks, entry, k);
        if any_busy(before) {
            let i = choose|i: int| 0 <= i < before.len() && is_busy(#[trigger] before[i]);
            assert(now[i] == before[i]);
        }
        if !same_task(tasks[k - 1].entry, entry) {
            assert(now[before.len() as int] == tasks[k - 1]);
            if any_busy(now) && !is_busy(tasks[k - 1]) {
                let i = choose|i: int| 0 <= i < now.len() && is_busy(#[trigger] now[i]);
                assert(is_busy(before[i]));
            }
        }
    }
}

// ---------------------------------------------------------------- what tasks work for

/// The task works for the server: it monitors SSH at the server's SSH port, Nginx at the
/// HTTPS port, or an inbound through its sublink, the supervisor without a local port, or
/// it looks after the backups or the certificate.
pub open spec fn works_for(t: TaskView, s: ServerView) -> bool {
    match t {
        TaskView::SshMonitor(i) => i.server == s && i.port == s.ssh_port && i.kind
            == SvcKindView::Ssh && i.link is None,
        TaskView::NginxMonitor(i) => i.server == s && i.port == 443 && i.kind == SvcKindView::Nginx
            && i.link is None,
        TaskView::XrayMonitor(i) => i.server == s && exists|k: int|
            0 <= k < s.inbounds.len() && i.kind == SvcKindView::Xray(
                (#[trigger] s.inbounds[k]).name,
            ) && i.link is Some && jsub_of(s.inbounds[k], s) == Ok::<Seq<char>, Seq<char>>(
                i.link->Some_0,
            ) && (s.inbounds[k].name == "super"@ ==> i.port == 0),
        TaskView::XuiDbPruner(x) => x == s,
        TaskView::AcmeChecker(x) => x == s,
        _ => false,
    }
}

proof fn lemma_xray_works(s: ServerView, port: u16, k: int, j: int)
    requires
        0 <= j < k <= s.inbounds.len(),
        xray_upto(s, port, k) is Ok,
    ensures
        xray_upto(s, port, k)->Ok_0.0.len() == k,
        works_for(xray_upto(s, port, k)->Ok_0.0[j], s),
    decreases k,
{
    if k > 1 {
        lemma_xray_works(s, port, k - 1, if j < k - 1 {
            j
        } else {
            0
        });
    } else {
        assert(xray_upto(s, port, 0)->Ok_0.0 =~= Seq::empty());
    }
    if j == k - 1 {
        assert(SvcKindView::Xray(s.inbounds[j].name) == xray_upto(
            s,
            port,
            k,
        )->Ok_0.0[j]->XrayMonitor_0.kind);
    }
}

proof fn lemma_server_works(s: ServerView, port: u16, j: int)
    requires
        server_tasks(s, port) is Ok,
        0 <= j < server_tasks(s, port)->Ok_0.0.len(),
    ensures
        works_for(server_tasks(s, port)->Ok_0.0[j], s),
{
    let n = s.inbounds.len() as int;
    let x = xray_upto(s, port, n)->Ok_0.0;
    if n > 0 {
        lemma_xray_works(s, port, n, 0);
    }
    if 2 <= j < 2 + n {
        lemma_xray_works(s, port, n, j - 2);
        assert(server_tasks(s, port)->Ok_0.0[j] == x[j - 2]);
    }
}

proof fn lemma_tasks_work(servers: Seq<ServerView>, k: int, j: int)
    requires
        0 <= k <= servers.len(),
        tasks_upto(servers, k) is Ok,
        0 <= j < tasks_upto(servers, k)->Ok_0.0.len(),
    ensures
        exists|i: int|
            0 <= i < k && works_for(tasks_upto(servers, k)->Ok_0.0[j], #[trigger] servers[i]),
    decreases k,
{
    if k > 0 {
        let before = tasks_upto(servers, k - 1)->Ok_0;
        let more = server_tasks(servers[k - 1], before.1)->Ok_0.0;
        let now = tasks_upto(servers, k)->Ok_0.0;
        if j < before.0.len() {
            lemma_tasks_work(servers, k - 1, j);
            assert(now[j] == before.0[j]);
        } else {
            lemma_server_works(servers[k - 1], before.1, j - before.0.len());
            assert(now[j] == more[j - before.0.len()]);
            assert(works_for(now[j], servers[k - 1]));
        }
    }
}

/// Every task that is planned is one of the three that belong to no server, or it works for
/// an enabled Production server of the cloud.
pub proof fn law_tasks_work_for_the_cloud(cloud: CloudView, j: int)
    requires
        planned_tasks(cloud) is Ok,
        0 <= j < planned_tasks(cloud)->Ok_0.len(),
    ensures
        ({
            let t = planned_tasks(cloud)->Ok_0[j];
            ||| t is SignalWatcher
            ||| t is GeoipUpdater
            ||| t is Aggregator
            ||| exists|i: int|
                0 <= i < cloud.servers.len() && works_for(t, #[trigger] cloud.servers[i])
                    && cloud.servers[i].enabled && cloud.servers[i].state == ServerState::Production
        }),
{
    let prod = managed_of(cloud.servers);
    let n = prod.len() as int;
    if n > 0 {
        let tasks = tasks_upto(prod, n)->Ok_0.0;
        let head = global_tasks() + seq![TaskView::Aggregator];
        let all = head + tasks;
        lemma_distinct_from(all, all.len() as int, j);
        let p = choose|p: int| 0 <= p < all.len() && #[trigger] all[p] == distinct(all)[j];
        if p >= head.len() {
            lemma_tasks_work(prod, n, p - head.len());
            let i = choose|i: int|
                0 <= i < n && works_for(tasks[p - head.len()], #[trigger] prod[i]);
            lemma_managed_from(cloud.servers, cloud.servers.len() as int, i);
        }
    }
}

proof fn lemma_tasks_have(servers: Seq<ServerView>, k: int, i: int)
    requires
        0 <= i < k <= servers.len(),
        tasks_upto(servers, k) is Ok,
    ensures
        has_task(tasks_upto(servers, k)->Ok_0.0, TaskView::XuiDbPruner(servers[i])),
        has_task(tasks_upto(servers, k)->Ok_0.0, TaskView::AcmeChecker(servers[i])),
    decreases k,
{
    let before = tasks_upto(servers, k - 1)->Ok_0;
    let more = server_tasks(servers[k - 1], before.1)->Ok_0.0;
    let now = tasks_upto(servers, k)->Ok_0.0;
    let a = TaskView::XuiDbPruner(servers[i]);
    let b = TaskView::AcmeChecker(servers[i]);
    if i < k - 1 {
        lemma_tasks_have(servers, k - 1, i);
        let p = choose|p: int| 0 <= p < before.0.len() && same_task(#[trigger] before.0[p], a);
        let q = choose|q: int| 0 <= q < before.0.len() && same_task(#[trigger] before.0[q], b);
        assert(now[p] == before.0[p] && now[q] == before.0[q]);
        assert(same_task(now[p], a) && same_task(now[q], b));
    } else {
        let m = more.len() as int;
        assert(more[m - 2] == a && more[m - 1] == b);
        let base = before.0.len() as int;
        assert(now[base + m - 2] == a && now[base + m - 1] == b);
        assert(same_task(now[base + m - 2], a) && same_task(now[base + m - 1], b));
    }
}

/// The daemon always watches signals and updates the GeoIP data; where there is an enabled
/// Production server it collects statuses, and looks after the backups and the certificate
/// of each of them.
pub proof fn law_every_server_is_looked_after(cloud: CloudView, i: int)
    requires
        planned_tasks(cloud) is Ok,
    ensures
        has_task(planned_tasks(cloud)->Ok_0, TaskView::SignalWatcher),
        has_task(planned_tasks(cloud)->Ok_0, TaskView::GeoipUpdater),
        0 <= i < cloud.servers.len() && cloud.servers[i].enabled && cloud.servers[i].state
            == ServerState::Production ==> has_task(
            planned_tasks(cloud)->Ok_0,
            TaskView::Aggregator,
        ) && has_task(planned_tasks(cloud)->Ok_0, TaskView::XuiDbPruner(cloud.servers[i]))
            && has_task(planned_tasks(cloud)->Ok_0, TaskView::AcmeChecker(cloud.servers[i])),
{
    let prod = managed_of(cloud.servers);
    let n = prod.len() as int;
    let g = global_tasks();
    if n == 0 {
        assert(same_task(g[0], TaskView::SignalWatcher));
        assert(same_task(g[1], TaskView::GeoipUpdater));
        if 0 <= i < cloud.servers.len() && is_managed(cloud.servers[i]) {
            lemma_managed_in(cloud.servers, cloud.servers.len() as int, i);
        }
    } else {
        let tasks = tasks_upto(prod, n)->Ok_0.0;
        let head = g + seq![TaskView::Aggregator];
        let all = head + tasks;
        let l = all.len() as int;
        assert(all[0] is SignalWatcher && all[1] is GeoipUpdater && all[2] is Aggregator);
        lemma_distinct_has(all, l, 0);
        lemma_distinct_has(all, l, 1);
        lemma_distinct_has(all, l, 2);
        if 0 <= i < cloud.servers.len() && is_managed(cloud.servers[i]) {
            lemma_managed_in(cloud.servers, cloud.servers.len() as int, i);
            let j = choose|j: int| 0 <= j < prod.len() && #[trigger] prod[j] == cloud.servers[i];
            lemma_tasks_have(prod, n, j);
            let a = TaskView::XuiDbPruner(cloud.servers[i]);
            let b = TaskView::AcmeChecker(cloud.servers[i]);
            let p = choose|p: int| 0 <= p < tasks.len() && same_task(#[trigger] tasks[p], a);
            let q = choose|q: int| 0 <= q < tasks.len() && same_task(#[trigger] tasks[q], b);
            assert(all[3 + p] == tasks[p] && all[3 + q] == tasks[q]);
            lemma_distinct_has(all, l, 3 + p);
            lemma_distinct_has(all, l, 3 + q);
            let d = distinct(all);
            let x = choose|x: int| 0 <= x < d.len() && same_task(#[trigger] d[x], all[3 + p]);
            let y = choose|y: int| 0 <= y < d.len() && same_task(#[trigger] d[y], all[3 + q]);
            assert(same_task(d[x], a));
            assert(same_task(d[y], b));
        }
    }
}

/// The daemon can start wherever each inbound of its enabled Production servers has a
/// sublink.
pub proof fn law_daemon_starts_with_sublinks(cloud: CloudView)
    requires
        forall|i: int, k: int|
            0 <= i < cloud.servers.len() && cloud.servers[i].enabled && cloud.servers[i].state
                == ServerState::Production && 0 <= k < cloud.servers[i].inbounds.len() ==> jsub_of(
                #[trigger] cloud.servers[i].inbounds[k],
                cloud.servers[i],
            ) is Ok,
    ensures
        planned_tasks(cloud) is Ok,
{
    let prod = managed_of(cloud.servers);
    assert forall|j: int, k: int|
        0 <= j < prod.len() && 0 <= k < prod[j].inbounds.len() implies jsub_of(
        #[trigger] prod[j].inbounds[k],
        prod[j],
    ) is Ok by {
        lemma_managed_from(cloud.servers, cloud.servers.len() as int, j);
        let i = choose|i: int|
            0 <= i < cloud.servers.len() && #[trigger] cloud.servers[i] == prod[j] && is_managed(
                cloud.servers[i],
            );
        assert(cloud.servers[i].inbounds[k] == prod[j].inbounds[k]);
    }
    lemma_tasks_ok(prod, prod.len() as int);
}

proof fn lemma_tasks_ok(servers: Seq<ServerView>, k: int)
    requires
        0 <= k <= servers.len(),
        forall|j: int, m: int|
            0 <= j < servers.len() && 0 <= m < servers[j].inbounds.len() ==> jsub_of(
                #[trigger] servers[j].inbounds[m],
                servers[j],
            ) is Ok,
    ensures
        tasks_upto(servers, k) is Ok,
    decreases k,
{
    if k > 0 {
        lemma_tasks_ok(servers, k - 1);
        let s = servers[k - 1];
        assert forall|m: int| 0 <= m < s.inbounds.len() implies jsub_of(
            #[trigger] s.inbounds[m],
            s,
        ) is Ok by {
            assert(jsub_of(servers[k - 1].inbounds[m], servers[k - 1]) is Ok);
        }
        lemma_xray_ok(s, tasks_upto(servers, k - 1)->Ok_0.1, s.inbounds.len() as int);
    }
}

proof fn lemma_xray_ok(s: ServerView, port: u16, k: int)
    requires
        0 <= k <= s.inbounds.len(),
        forall|m: int|
            0 <= m < s.inbounds.len() ==> jsub_of(#[trigger] s.inbounds[m], s) is Ok,
    ensures
        xray_upto(s, port, k) is Ok,
    decreases k,
{
    if k > 0 {
        lemma_xray_ok(s, port, k - 1);
        assert(jsub_of(s.inbounds[k - 1], s) is Ok);
    }
}

/// Where a task leaves, those of others stay, in their order: a list of tasks that is made
/// of two is treated as the two are, and one task alone stays unless it is that which leaves.
pub proof fn law_only_the_inquirer_leaves(
    a: Seq<TaskRunView>,
    b: Seq<TaskRunView>,
    t: TaskRunView,
    entry: TaskView,
)
    ensures
        without_task(a + b, entry) == without_task(a, entry) + without_task(b, entry),
        same_task(t.entry, entry) ==> without_task(seq![t], entry) == Seq::<TaskRunView>::empty(),
        !same_task(t.entry, entry) ==> without_task(seq![t], entry) == seq![t],
{
    lemma_without_of_two(a, b, entry, b.len() as int);
    let s = seq![t];
    assert(without_upto(s, entry, 0) =~= Seq::empty());
    assert(without_upto(s, entry, 1) == (if same_task(s[0].entry, entry) {
        without_upto(s, entry, 0)
    } else {
        without_upto(s, entry, 0).push(s[0])
    }));
    if !same_task(t.entry, entry) {
        assert(without_task(s, entry) =~= seq![t]);
    }
}

proof fn lemma_without_of_two(a: Seq<TaskRunView>, b: Seq<TaskRunView>, entry: TaskView, k: int)
    requires
        0 <= k <= b.len(),
    ensures
        without_upto(a + b, entry, a.len() + k) == without_upto(a, entry, a.len() as int)
            + without_upto(b, entry, k),
    decreases k,
{
    if k > 0 {
        lemma_without_of_two(a, b, entry, k - 1);
        assert((a + b)[a.len() + k - 1] == b[k - 1]);
        let x = without_upto(a, entry, a.len() as int);
        assert(x + without_upto(b, entry, k - 1).push(b[k - 1]) =~= (x + without_upto(
            b,
            entry,
            k - 1,
        )).push(b[k - 1]));
    } else {
        lemma_without_prefix(a, b, entry, a.len() as int);
        assert(without_upto(a, entry, a.len() as int) + without_upto(b, entry, 0)
            =~= without_upto(a, entry, a.len() as int));
    }
}

proof fn lemma_without_prefix(a: Seq<TaskRunView>, b: Seq<TaskRunView>, entry: TaskView, k: int)
    requires
        0 <= k <= a.len(),
    ensures
        without_upto(a + b, entry, k) == without_upto(a, entry, k),
    decreases k,
{
    if k > 0 {
        lemma_without_prefix(a, b, entry, k - 1);
        assert((a + b)[k - 1] == a[k - 1]);
    }
}

/// Under way is a setup or destruction that has not finished, and nothing else.
pub proof fn law_what_is_under_way(t: TaskRunView)
    ensures
        is_busy(t) <==> !t.finished && (t.entry is FullSetup || t.entry is DestroyServer),
{
}

/// The monitor of an inbound has a local port for its test.
spec fn has_local_port(t: TaskView) -> bool {
    t is XrayMonitor && t->XrayMonitor_0.kind != SvcKindView::Xray("super"@)
        ==> t->XrayMonitor_0.port >= PROXY_START_PORT
}

proof fn lemma_xray_has_port(s: ServerView, port: u16, k: int, j: int)
    requires
        0 <= j < k <= s.inbounds.len(),
        xray_upto(s, port, k) is Ok,
        PROXY_START_PORT <= port,
        port + k <= 0xffff,
    ensures
        has_local_port(xray_upto(s, port, k)->Ok_0.0[j]),
    decreases k,
{
    lemma_xray_ports(s, port, k - 1);
    lemma_xray_works(s, port, k, 0);
    if k > 1 {
        lemma_xray_works(s, port, k - 1, 0);
    } else {
        assert(xray_upto(s, port, 0)->Ok_0.0 =~= Seq::empty());
    }
    if j < k - 1 {
        lemma_xray_has_port(s, port, k - 1, j);
    }
}

proof fn lemma_tasks_have_ports(servers: Seq<ServerView>, k: int, j: int)
    requires
        0 <= k <= servers.len(),
        tasks_upto(servers, k) is Ok,
        PROXY_START_PORT + services_upto(servers, k) <= 0xffff,
        0 <= j < tasks_upto(servers, k)->Ok_0.0.len(),
    ensures
        has_local_port(tasks_upto(servers, k)->Ok_0.0[j]),
    decreases k,
{
    if k > 0 {
        let before = tasks_upto(servers, k - 1)->Ok_0;
        let s = servers[k - 1];
        let more = server_tasks(s, before.1)->Ok_0.0;
        assert(svc_kinds_of(s).len() == s.inbounds.len() + 2);
        lemma_tasks_ports(servers, k - 1);
        if j < before.0.len() {
            lemma_tasks_have_ports(servers, k - 1, j);
        } else {
            let m = j - before.0.len();
            let n = s.inbounds.len() as int;
            lemma_server_tasks_named(s, before.1, m);
            if 2 <= m < 2 + n {
                lemma_xray_works(s, before.1, n, m - 2);
                lemma_xray_has_port(s, before.1, n, m - 2);
                assert(more[m] == xray_upto(s, before.1, n)->Ok_0.0[m - 2]);
            } else if n > 0 {
                lemma_xray_works(s, before.1, n, 0);
            }
        }
    }
}

/// Every inbound that is monitored, but for the supervisor, is tested at a local port, as
/// long as there are ports enough.
pub proof fn law_inbounds_have_local_ports(cloud: CloudView, j: int)
    requires
        planned_tasks(cloud) is Ok,
        PROXY_START_PORT + service_count(cloud) <= 0xffff,
        0 <= j < planned_tasks(cloud)->Ok_0.len(),
        planned_tasks(cloud)->Ok_0[j] is XrayMonitor,
        planned_tasks(cloud)->Ok_0[j]->XrayMonitor_0.kind != SvcKindView::Xray("super"@),
    ensures
        planned_tasks(cloud)->Ok_0[j]->XrayMonitor_0.port >= PROXY_START_PORT,
{
    let prod = managed_of(cloud.servers);
    let n = prod.len() as int;
    if n > 0 {
        let tasks = tasks_upto(prod, n)->Ok_0.0;
        let head = global_tasks() + seq![TaskView::Aggregator];
        let all = head + tasks;
        lemma_distinct_from(all, all.len() as int, j);
        let p = choose|p: int| 0 <= p < all.len() && #[trigger] all[p] == distinct(all)[j];
        if p >= head.len() {
            lemma_tasks_have_ports(prod, n, p - head.len());
        }
    }
}

/// No task is planned twice.
pub proof fn law_no_task_comes_twice(cloud: CloudView, i: int, j: int)
    requires
        planned_tasks(cloud) is Ok,
        0 <= i < j < planned_tasks(cloud)->Ok_0.len(),
    ensures
        !same_task(planned_tasks(cloud)->Ok_0[i], planned_tasks(cloud)->Ok_0[j]),
{
    let prod = managed_of(cloud.servers);
    if prod.len() > 0 {
        let tasks = tasks_upto(prod, prod.len() as int)->Ok_0.0;
        let all = global_tasks() + seq![TaskView::Aggregator] + tasks;
        lemma_distinct_differ(all, all.len() as int, i, j);
    }
}

proof fn lemma_distinct_differ(tasks: Seq<TaskView>, k: int, i: int, j: int)
    requires
        0 <= k <= tasks.len(),
        0 <= i < j < distinct_upto(tasks, k).len(),
    ensures
        !same_task(distinct_upto(tasks, k)[i], distinct_upto(tasks, k)[j]),
    decreases k,
{
    if k > 0 {
        let before = distinct_upto(tasks, k - 1);
        if j < before.len() {
            lemma_distinct_differ(tasks, k - 1, i, j);
        } else {
            assert(!has_task(before, tasks[k - 1]));
            assert(!same_task(before[i], tasks[k - 1]));
        }
    }
}

} // verus!
