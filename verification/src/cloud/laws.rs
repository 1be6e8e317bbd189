//! What holds of reconciliation as a whole.

use vstd::prelude::*;

use crate::ansible::AnsibleConnView;
use crate::cloud::reconcile::{
    covered, domain_kept, domain_taken, has_server, ip_kept, ip_taken, is_added, is_deleted, is_entry,
    lemma_server_index, lemma_server_index_is, merged_at, merged_upto, pairs_upto, rebase_pairs, rebased,
    rebased_secrets, reconciled, reloaded, remapped, server_index, ReconMode,
};
use crate::types::{CloudView, SecretsView, ServerState, ServerView};

verus! {

/// Servers are told apart by their names.
pub open spec fn names_unique(servers: Seq<ServerView>) -> bool {
    forall|i: int, j: int|
        0 <= i < j < servers.len() ==> #[trigger] servers[i].name != #[trigger] servers[j].name
}

pub open spec fn domains_unique(servers: Seq<ServerView>) -> bool {
    forall|i: int, j: int|
        0 <= i < j < servers.len() ==> #[trigger] servers[i].domain != #[trigger] servers[j].domain
}

pub open spec fn ips_unique(servers: Seq<ServerView>) -> bool {
    forall|i: int, j: int|
        0 <= i < j < servers.len() ==> #[trigger] servers[i].ip.ip != #[trigger] servers[j].ip.ip
}

/// The server that a name stands for.
pub open spec fn named(servers: Seq<ServerView>, name: Seq<char>) -> ServerView {
    servers[server_index(servers, name)]
}

/// The places among the first `k` at which a server stands that its name stands
/// for.
spec fn entries_upto(servers: Seq<ServerView>, k: int) -> Seq<int>
    decreases k,
{
    if k <= 0 {
        Seq::empty()
    } else if is_entry(servers, k - 1) {
        entries_upto(servers, k - 1).push(k - 1)
    } else {
        entries_upto(servers, k - 1)
    }
}

proof fn lemma_entries(servers: Seq<ServerView>, k: int)
    requires
        0 <= k <= servers.len(),
    ensures
        forall|m: int|
            0 <= m < entries_upto(servers, k).len() ==> 0 <= #[trigger] entries_upto(servers, k)[m] < k
                && is_entry(servers, entries_upto(servers, k)[m]),
        forall|m: int, n: int|
            0 <= m < n < entries_upto(servers, k).len() ==> #[trigger] entries_upto(servers, k)[m]
                < #[trigger] entries_upto(servers, k)[n],
        forall|i: int|
            0 <= i < k && #[trigger] is_entry(servers, i) ==> entries_upto(servers, k).contains(i),
    decreases k,
{
    if k > 0 {
        lemma_entries(servers, k - 1);
        let before = entries_upto(servers, k - 1);
        let now = entries_upto(servers, k);
        if is_entry(servers, k - 1) {
            assert(now[before.len() as int] == k - 1);
            assert forall|i: int| 0 <= i < k && #[trigger] is_entry(servers, i) implies now.contains(
                i,
            ) by {
                if i < k - 1 {
                    let m = choose|m: int| 0 <= m < before.len() && before[m] == i;
                    assert(now[m] == i);
                }
            }
            assert forall|m: int| 0 <= m < now.len() implies 0 <= #[trigger] now[m] < k && is_entry(
                servers,
                now[m],
            ) by {
                if m < before.len() {
                    assert(now[m] == before[m]);
                }
            }
            assert forall|m: int, n: int| 0 <= m < n < now.len() implies #[trigger] now[m]
                < #[trigger] now[n] by {
                assert(now[m] == before[m]);
                if n < before.len() {
                    assert(now[n] == before[n]);
                }
            }
        }
    }
}

/// Merging keeps the name.
proof fn lemma_merged_name(old: CloudView, new: CloudView, mode: ReconMode, i: int)
    requires
        0 <= i < new.servers.len(),
        merged_at(old, new, mode, i) is Ok,
    ensures
        merged_at(old, new, mode, i)->Ok_0.name == new.servers[i].name,
{
    lemma_server_index(old.servers, new.servers[i].name);
}

/// The merged servers are those of the new cloud's entries, in their order.
proof fn lemma_merged(old: CloudView, new: CloudView, mode: ReconMode, k: int)
    requires
        0 <= k <= new.servers.len(),
        merged_upto(old, new, mode, k) is Ok,
    ensures
        ({
            let t = merged_upto(old, new, mode, k)->Ok_0;
            let e = entries_upto(new.servers, k);
            &&& t.len() == e.len()
            &&& forall|m: int|
                0 <= m < t.len() ==> merged_at(old, new, mode, #[trigger] e[m]) == Ok::<
                    ServerView,
                    Seq<char>,
                >(t[m]) && t[m].name == new.servers[e[m]].name
        }),
    decreases k,
{
    if k > 0 {
        lemma_merged(old, new, mode, k - 1);
        if is_entry(new.servers, k - 1) {
            lemma_merged_name(old, new, mode, k - 1);
        }
    }
}

/// The result holds each name once, those of the new cloud and no others, and
/// the server of a name is what the merge of that name gives.
proof fn lemma_result(old: CloudView, new: CloudView, mode: ReconMode)
    requires
        old.servers.len() > 0,
        reconciled(old, new, mode) is Ok,
    ensures
        ({
            let c = reconciled(old, new, mode)->Ok_0;
            &&& names_unique(c.servers)
            &&& forall|name: Seq<char>| #[trigger]
                has_server(c.servers, name) <==> has_server(new.servers, name)
            &&& forall|name: Seq<char>| #[trigger]
                has_server(new.servers, name) ==> merged_at(
                    old,
                    new,
                    mode,
                    server_index(new.servers, name),
                ) == Ok::<ServerView, Seq<char>>(named(c.servers, name))
        }),
{
    let n = new.servers.len() as int;
    let c = reconciled(old, new, mode)->Ok_0;
    let t = c.servers;
    let e = entries_upto(new.servers, n);
    lemma_merged(old, new, mode, n);
    lemma_entries(new.servers, n);
    assert forall|i: int, j: int| 0 <= i < j < t.len() implies #[trigger] t[i].name
        != #[trigger] t[j].name by {
        assert(e[i] < e[j]);
        assert(is_entry(new.servers, e[i]) && is_entry(new.servers, e[j]));
    }
    assert forall|name: Seq<char>| #[trigger] has_server(t, name) implies has_server(
        new.servers,
        name,
    ) by {
        let m = choose|m: int| 0 <= m < t.len() && #[trigger] t[m].name == name;
        assert(0 <= e[m] < n);
        assert(new.servers[e[m]].name == name);
    }
    assert forall|name: Seq<char>| #[trigger] has_server(new.servers, name) implies has_server(
        t,
        name,
    ) && merged_at(old, new, mode, server_index(new.servers, name)) == Ok::<ServerView, Seq<char>>(
        named(t, name),
    ) by {
        lemma_server_index(new.servers, name);
        let i = server_index(new.servers, name);
        assert(is_entry(new.servers, i));
        let m = choose|m: int| 0 <= m < e.len() && e[m] == i;
        assert(merged_at(old, new, mode, e[m]) == Ok::<ServerView, Seq<char>>(t[m]));
        assert(t[m].name == name);
        assert forall|j: int| m < j < t.len() implies #[trigger] t[j].name != name by {
            assert(t[m].name != t[j].name);
        }
        lemma_server_index_is(t, name, m);
    }
}

// ---------------------------------------------------------------- the laws

/// The settings of the reconciled cloud are those of the new one.
pub proof fn law_settings_are_new(old: CloudView, new: CloudView, mode: ReconMode)
    requires
        reconciled(old, new, mode) is Ok,
    ensures
        reconciled(old, new, mode)->Ok_0.settings == new.settings,
{
}

/// Where the old cloud is empty everything is taken from the new one.
pub proof fn law_empty_cloud_takes_all(old: CloudView, new: CloudView, mode: ReconMode)
    requires
        old.servers.len() == 0,
    ensures
        reconciled(old, new, mode) == Ok::<CloudView, Seq<char>>(new),
{
}

/// The reconciled cloud has the servers that the new one names: what the new
/// cloud adds is added, and what it lacks is deleted.
pub proof fn law_servers_follow_new(old: CloudView, new: CloudView, mode: ReconMode, name: Seq<char>)
    requires
        reconciled(old, new, mode) is Ok,
    ensures
        has_server(reconciled(old, new, mode)->Ok_0.servers, name) <==> has_server(
            new.servers,
            name,
        ),
{
    if old.servers.len() > 0 {
        lemma_result(old, new, mode);
    }
}

/// The names of a reconciled cloud are unique where those of the new one are,
/// and wherever there was an old cloud.
pub proof fn law_names_stay_unique(old: CloudView, new: CloudView, mode: ReconMode)
    requires
        reconciled(old, new, mode) is Ok,
        old.servers.len() > 0 || names_unique(new.servers),
    ensures
        names_unique(reconciled(old, new, mode)->Ok_0.servers),
{
    if old.servers.len() > 0 {
        lemma_result(old, new, mode);
    }
}

/// A server that only the new cloud has is taken as it is declared, in every
/// mode.
pub proof fn law_added_as_declared(old: CloudView, new: CloudView, mode: ReconMode, name: Seq<char>)
    requires
        reconciled(old, new, mode) is Ok,
        has_server(new.servers, name),
        !has_server(old.servers, name),
    ensures
        named(reconciled(old, new, mode)->Ok_0.servers, name) == named(new.servers, name),
{
    if old.servers.len() > 0 {
        lemma_result(old, new, mode);
        lemma_server_index(new.servers, name);
    }
}

/// A server that both clouds have becomes what the mode makes of the two.
proof fn lemma_pair(old: CloudView, new: CloudView, mode: ReconMode, name: Seq<char>)
    requires
        reconciled(old, new, mode) is Ok,
        has_server(new.servers, name),
        has_server(old.servers, name),
    ensures
        ({
            let r = named(reconciled(old, new, mode)->Ok_0.servers, name);
            let o = named(old.servers, name);
            let n = named(new.servers, name);
            match mode {
                ReconMode::Reload => reloaded(o, n, new.settings.inbound_set) == Ok::<
                    ServerView,
                    Seq<char>,
                >(r),
                ReconMode::Remap => r == remapped(o, n),
                ReconMode::Rebase => rebased(o, n) == Ok::<ServerView, Seq<char>>(r),
            }
        }),
{
    lemma_result(old, new, mode);
    lemma_server_index(new.servers, name);
    lemma_server_index(old.servers, name);
}

/// A Reload does not change a Production server, but for its being enabled.
pub proof fn law_reload_keeps_production(old: CloudView, new: CloudView, name: Seq<char>)
    requires
        reconciled(old, new, ReconMode::Reload) is Ok,
        has_server(old.servers, name),
        has_server(new.servers, name),
        named(old.servers, name).state == ServerState::Production,
    ensures
        named(reconciled(old, new, ReconMode::Reload)->Ok_0.servers, name) == (ServerView {
            enabled: named(new.servers, name).enabled,
            ..named(old.servers, name)
        }),
{
    lemma_pair(old, new, ReconMode::Reload, name);
}

/// A Reload takes the new declaration of a server that is and stays Offgrid.
pub proof fn law_reload_takes_offgrid(old: CloudView, new: CloudView, name: Seq<char>)
    requires
        reconciled(old, new, ReconMode::Reload) is Ok,
        has_server(old.servers, name),
        has_server(new.servers, name),
        named(old.servers, name).state == ServerState::Offgrid,
        named(new.servers, name).state == ServerState::Offgrid,
    ensures
        named(reconciled(old, new, ReconMode::Reload)->Ok_0.servers, name) == named(
            new.servers,
            name,
        ),
{
    lemma_pair(old, new, ReconMode::Reload, name);
}

/// A Reload is refused while the new inbound set lacks an inbound of a
/// Production server that stays.
pub proof fn law_reload_needs_inbounds(old: CloudView, new: CloudView, name: Seq<char>)
    requires
        has_server(old.servers, name),
        has_server(new.servers, name),
        named(old.servers, name).state == ServerState::Production,
        !covered(named(old.servers, name), new.settings.inbound_set),
    ensures
        reconciled(old, new, ReconMode::Reload) is Err,
{
    if reconciled(old, new, ReconMode::Reload) is Ok {
        lemma_pair(old, new, ReconMode::Reload, name);
    }
}

/// A Remap takes the new declaration and keeps the secrets.
pub proof fn law_remap_is_declaration_with_secrets(old: CloudView, new: CloudView, name: Seq<char>)
    requires
        has_server(old.servers, name),
        has_server(new.servers, name),
        reconciled(old, new, ReconMode::Remap) is Ok,
    ensures
        named(reconciled(old, new, ReconMode::Remap)->Ok_0.servers, name) == (ServerView {
            secrets: named(old.servers, name).secrets,
            ..named(new.servers, name)
        }),
{
    lemma_pair(old, new, ReconMode::Remap, name);
}

/// The secrets that stay for the lifetime of a Production server: everything but
/// the health path and the identifiers of added inbounds.
pub open spec fn lasting_secrets_kept(before: SecretsView, after: SecretsView) -> bool {
    &&& after.doh_endpoint == before.doh_endpoint
    &&& after.xui_username == before.xui_username
    &&& after.xui_password == before.xui_password
    &&& after.xui_token == before.xui_token
    &&& after.xui_webpath == before.xui_webpath
    &&& after.xui_subpath == before.xui_subpath
    &&& after.xui_jsubpath == before.xui_jsubpath
    &&& before.mother_subids.submap_of(after.mother_subids)
}

/// Once a server is Production its secrets stay, in every mode.
pub proof fn law_production_secrets_stay(
    old: CloudView,
    new: CloudView,
    mode: ReconMode,
    name: Seq<char>,
)
    requires
        reconciled(old, new, mode) is Ok,
        has_server(old.servers, name),
        has_server(new.servers, name),
        named(old.servers, name).state == ServerState::Production,
    ensures
        lasting_secrets_kept(
            named(old.servers, name).secrets,
            named(reconciled(old, new, mode)->Ok_0.servers, name).secrets,
        ),
{
    lemma_pair(old, new, mode, name);
    let o = named(old.servers, name).secrets;
    let n = named(new.servers, name).secrets;
    let u = rebased_secrets(o, n);
    assert(o.mother_subids.submap_of(u.mother_subids));
}

/// A Rebase of an enabled Production server takes the health path of the new
/// declaration, and has an identifier for every inbound that either one has an
/// identifier for.
pub proof fn law_rebase_refreshes_secrets(old: CloudView, new: CloudView, name: Seq<char>)
    requires
        reconciled(old, new, ReconMode::Rebase) is Ok,
        has_server(old.servers, name),
        has_server(new.servers, name),
        named(old.servers, name).state == ServerState::Production,
        named(new.servers, name).state == ServerState::Production,
        named(new.servers, name).enabled,
    ensures
        ({
            let r = named(reconciled(old, new, ReconMode::Rebase)->Ok_0.servers, name).secrets;
            let o = named(old.servers, name).secrets;
            let n = named(new.servers, name).secrets;
            &&& r.health_path == n.health_path
            &&& r.mother_subids.dom() == o.mother_subids.dom().union(n.mother_subids.dom())
            &&& forall|k: Seq<char>| #[trigger]
                r.mother_subids.dom().contains(k) ==> r.mother_subids[k] == (
                if o.mother_subids.dom().contains(k) {
                    o.mother_subids[k]
                } else {
                    n.mother_subids[k]
                })
        }),
{
    lemma_pair(old, new, ReconMode::Rebase, name);
    let r = named(reconciled(old, new, ReconMode::Rebase)->Ok_0.servers, name).secrets;
    let o = named(old.servers, name).secrets;
    let n = named(new.servers, name).secrets;
    assert(r.mother_subids.dom() =~= o.mother_subids.dom().union(n.mother_subids.dom()));
}

/// During a Rebase the server is reached at its new address through the port
/// that is in use until then.
pub proof fn law_rebase_connection(old: CloudView, new: CloudView, name: Seq<char>)
    requires
        reconciled(old, new, ReconMode::Rebase) is Ok,
        has_server(old.servers, name),
        has_server(new.servers, name),
        named(old.servers, name).state == ServerState::Production,
        named(new.servers, name).state == ServerState::Production,
        named(new.servers, name).enabled,
    ensures
        ({
            let r = named(reconciled(old, new, ReconMode::Rebase)->Ok_0.servers, name);
            let o = named(old.servers, name);
            let n = named(new.servers, name);
            &&& o.ansible_conn is Some
            &&& n.ansible_conn is Some
            &&& r.ansible_conn == Some(
                AnsibleConnView {
                    host: n.ansible_conn->Some_0.host,
                    ..o.ansible_conn->Some_0
                },
            )
        }),
{
    lemma_pair(old, new, ReconMode::Rebase, name);
}

/// A Rebase leaves a disabled Production server as it was, but disabled.
pub proof fn law_rebase_skips_disabled(old: CloudView, new: CloudView, name: Seq<char>)
    requires
        reconciled(old, new, ReconMode::Rebase) is Ok,
        has_server(old.servers, name),
        has_server(new.servers, name),
        named(old.servers, name).state == ServerState::Production,
        named(new.servers, name).state == ServerState::Production,
        !named(new.servers, name).enabled,
    ensures
        named(reconciled(old, new, ReconMode::Rebase)->Ok_0.servers, name) == (ServerView {
            enabled: false,
            ..named(old.servers, name)
        }),
{
    lemma_pair(old, new, ReconMode::Rebase, name);
}

/// A Rebase to Offgrid is a Remap.
pub proof fn law_rebase_to_offgrid_is_remap(old: ServerView, new: ServerView)
    requires
        new.state == ServerState::Offgrid,
    ensures
        rebased(old, new) == Ok::<ServerView, Seq<char>>(remapped(old, new)),
{
}

/// A Rebase of an unprovisioned server to Production is refused.
pub proof fn law_rebase_needs_provisioning(old: CloudView, new: CloudView, name: Seq<char>)
    requires
        has_server(old.servers, name),
        has_server(new.servers, name),
        named(old.servers, name).state == ServerState::Offgrid,
        named(new.servers, name).state == ServerState::Production,
    ensures
        reconciled(old, new, ReconMode::Rebase) is Err,
{
    if reconciled(old, new, ReconMode::Rebase) is Ok {
        lemma_pair(old, new, ReconMode::Rebase, name);
    }
}

/// Being enabled follows the new cloud in every mode.
pub proof fn law_enabled_follows_new(old: CloudView, new: CloudView, mode: ReconMode, name: Seq<char>)
    requires
        reconciled(old, new, mode) is Ok,
        has_server(new.servers, name),
    ensures
        named(reconciled(old, new, mode)->Ok_0.servers, name).enabled == named(
            new.servers,
            name,
        ).enabled,
{
    if old.servers.len() > 0 {
        if has_server(old.servers, name) {
            lemma_pair(old, new, mode, name);
        } else {
            law_added_as_declared(old, new, mode, name);
        }
    }
}

proof fn lemma_entries_prefix(servers: Seq<ServerView>, k: int, n: int)
    requires
        0 <= k <= n <= servers.len(),
    ensures
        entries_upto(servers, k).len() <= entries_upto(servers, n).len(),
        entries_upto(servers, n).take(entries_upto(servers, k).len() as int) == entries_upto(
            servers,
            k,
        ),
    decreases n,
{
    if k < n {
        lemma_entries_prefix(servers, k, n - 1);
        let e = entries_upto(servers, k);
        assert(entries_upto(servers, n).take(e.len() as int) =~= entries_upto(servers, n - 1).take(
            e.len() as int,
        ));
    } else {
        assert(entries_upto(servers, n).take(entries_upto(servers, k).len() as int)
            =~= entries_upto(servers, k));
    }
}

/// The new declaration changes nothing in the server any more.
spec fn settled_in(c: CloudView, new: CloudView, mode: ReconMode, r: ServerView, n: ServerView) -> bool {
    match mode {
        ReconMode::Reload => reloaded(r, n, new.settings.inbound_set) == Ok::<ServerView, Seq<char>>(
            r,
        ),
        ReconMode::Remap => remapped(r, n) == r,
        ReconMode::Rebase => rebased(r, n) == Ok::<ServerView, Seq<char>>(r),
    }
}

/// A cloud that has the servers of the new one in their order, each settled,
/// stays as it is.
proof fn lemma_rerun(c: CloudView, new: CloudView, mode: ReconMode, k: int)
    requires
        0 <= k <= new.servers.len(),
        names_unique(c.servers),
        c.servers.len() == entries_upto(new.servers, new.servers.len() as int).len(),
        forall|m: int|
            0 <= m < c.servers.len() ==> ({
                let n = new.servers[entries_upto(new.servers, new.servers.len() as int)[m]];
                (#[trigger] c.servers[m]).name == n.name && settled_in(
                    c,
                    new,
                    mode,
                    c.servers[m],
                    n,
                )
            }),
    ensures
        merged_upto(c, new, mode, k) == Ok::<Seq<ServerView>, Seq<char>>(
            c.servers.take(entries_upto(new.servers, k).len() as int),
        ),
    decreases k,
{
    let n = new.servers.len() as int;
    let all = entries_upto(new.servers, n);
    lemma_entries_prefix(new.servers, k, n);
    if k > 0 {
        lemma_rerun(c, new, mode, k - 1);
        let e = entries_upto(new.servers, k - 1);
        lemma_entries_prefix(new.servers, k - 1, n);
        if is_entry(new.servers, k - 1) {
            let m = e.len() as int;
            assert(entries_upto(new.servers, k)[m] == k - 1);
            assert(all.take(m + 1)[m] == k - 1);
            assert(all[m] == k - 1);
            let name = new.servers[k - 1].name;
            assert(c.servers[m].name == name);
            assert forall|j: int| m < j < c.servers.len() implies #[trigger] c.servers[j].name
                != name by {
                assert(c.servers[m].name != c.servers[j].name);
            }
            lemma_server_index_is(c.servers, name, m);
            assert(c.servers.take(m + 1) =~= c.servers.take(m).push(c.servers[m]));
        }
    } else {
        assert(c.servers.take(0) =~= Seq::empty());
    }
}

proof fn lemma_all_entries(servers: Seq<ServerView>, k: int)
    requires
        0 <= k <= servers.len(),
        names_unique(servers),
    ensures
        entries_upto(servers, k) == Seq::new(k as nat, |i: int| i),
    decreases k,
{
    if k > 0 {
        lemma_all_entries(servers, k - 1);
        let name = servers[k - 1].name;
        assert forall|j: int| k - 1 < j < servers.len() implies #[trigger] servers[j].name != name by {
            assert(servers[k - 1].name != servers[j].name);
        }
        lemma_server_index_is(servers, name, k - 1);
        assert(is_entry(servers, k - 1));
    }
    assert(entries_upto(servers, k) =~= Seq::new(k as nat, |i: int| i));
}

/// What a first reconciliation needs to hold of the new cloud for a second one
/// to accept it: unique names, and an inbound set that has the inbounds of the
/// servers which are not Offgrid.
pub open spec fn self_consistent(new: CloudView) -> bool {
    &&& names_unique(new.servers)
    &&& forall|i: int|
        0 <= i < new.servers.len() ==> (#[trigger] new.servers[i]).state == ServerState::Offgrid
            || covered(new.servers[i], new.settings.inbound_set)
}

/// A second Reload with the same declaration changes nothing.
pub proof fn law_reload_idempotent(old: CloudView, new: CloudView)
    requires
        reconciled(old, new, ReconMode::Reload) is Ok,
        self_consistent(new),
    ensures
        reconciled(
            reconciled(old, new, ReconMode::Reload)->Ok_0,
            new,
            ReconMode::Reload,
        ) == reconciled(old, new, ReconMode::Reload),
{
    lemma_second_run(old, new, ReconMode::Reload);
}

/// A second Remap with the same declaration changes nothing.
pub proof fn law_remap_idempotent(old: CloudView, new: CloudView)
    requires
        reconciled(old, new, ReconMode::Remap) is Ok,
        names_unique(new.servers),
    ensures
        reconciled(
            reconciled(old, new, ReconMode::Remap)->Ok_0,
            new,
            ReconMode::Remap,
        ) == reconciled(old, new, ReconMode::Remap),
{
    lemma_second_run(old, new, ReconMode::Remap);
}

proof fn lemma_second_run(old: CloudView, new: CloudView, mode: ReconMode)
    requires
        mode == ReconMode::Remap || (mode == ReconMode::Reload && self_consistent(new)),
        names_unique(new.servers),
        reconciled(old, new, mode) is Ok,
    ensures
        reconciled(reconciled(old, new, mode)->Ok_0, new, mode) == reconciled(old, new, mode),
{
    let c = reconciled(old, new, mode)->Ok_0;
    let n = new.servers.len() as int;
    let e = entries_upto(new.servers, n);
    lemma_all_entries(new.servers, n);
    if old.servers.len() > 0 {
        lemma_merged(old, new, mode, n);
        lemma_entries(new.servers, n);
        lemma_result(old, new, mode);
    }
    assert(c.servers.len() == n);
    if n > 0 {
        assert forall|m: int| 0 <= m < c.servers.len() implies (#[trigger] c.servers[m]).name
            == new.servers[e[m]].name && settled_in(
            c,
            new,
            mode,
            c.servers[m],
            new.servers[e[m]],
        ) by {
            assert(e[m] == m);
            let s = new.servers[m];
            if old.servers.len() > 0 {
                assert(merged_at(old, new, mode, e[m]) == Ok::<ServerView, Seq<char>>(c.servers[m]));
                lemma_server_index(old.servers, s.name);
            }
            let r = c.servers[m];
            if mode == ReconMode::Reload {
                assert((ServerView { enabled: r.enabled, ..r }) == r);
            } else {
                assert((ServerView { secrets: r.secrets, ..r }) == r);
            }
        }
        lemma_rerun(c, new, mode, n);
        assert(c.servers.take(e.len() as int) =~= c.servers);
    } else {
        assert(c.servers =~= new.servers);
    }
}

/// No server that both clouds have is declared with another domain or address.
pub open spec fn places_stay(old: Seq<ServerView>, new: Seq<ServerView>) -> bool {
    forall|name: Seq<char>| #[trigger]
        has_server(old, name) && has_server(new, name) ==> named(old, name).domain == named(
            new,
            name,
        ).domain && named(old, name).ip.ip == named(new, name).ip.ip
}

/// Domains and addresses stay unique in a reconciled cloud: always in a Remap,
/// and in the other modes where no server that both clouds have is declared
/// with another domain or address.
pub proof fn law_places_stay_unique(old: CloudView, new: CloudView, mode: ReconMode)
    requires
        reconciled(old, new, mode) is Ok,
        names_unique(new.servers),
        domains_unique(new.servers),
        ips_unique(new.servers),
        mode == ReconMode::Remap || places_stay(old.servers, new.servers),
    ensures
        domains_unique(reconciled(old, new, mode)->Ok_0.servers),
        ips_unique(reconciled(old, new, mode)->Ok_0.servers),
{
    let c = reconciled(old, new, mode)->Ok_0;
    if old.servers.len() > 0 {
        let n = new.servers.len() as int;
        let e = entries_upto(new.servers, n);
        lemma_all_entries(new.servers, n);
        lemma_merged(old, new, mode, n);
        assert forall|m: int| 0 <= m < c.servers.len() implies (#[trigger] c.servers[m]).domain
            == new.servers[m].domain && c.servers[m].ip.ip == new.servers[m].ip.ip by {
            assert(e[m] == m);
            let s = new.servers[m];
            assert(merged_at(old, new, mode, e[m]) == Ok::<ServerView, Seq<char>>(c.servers[m]));
            lemma_server_index(old.servers, s.name);
            assert forall|j: int| m < j < new.servers.len() implies #[trigger] new.servers[j].name
                != s.name by {
                assert(new.servers[m].name != new.servers[j].name);
            }
            lemma_server_index_is(new.servers, s.name, m);
        }
    }
}

/// An added server brings a domain and an address that no remaining server of
/// the old cloud and no other added server has.
pub proof fn law_added_places_are_free(old: CloudView, new: CloudView, mode: ReconMode, i: int, j: int)
    requires
        reconciled(old, new, mode) is Ok,
        old.servers.len() > 0,
        domains_unique(old.servers),
        ips_unique(old.servers),
        is_added(old.servers, new.servers, i),
    ensures
        0 <= j < old.servers.len() && !is_deleted(old.servers, new.servers, j)
            ==> old.servers[j].domain != new.servers[i].domain && old.servers[j].ip.ip
            != new.servers[i].ip.ip,
        is_added(old.servers, new.servers, j) && j != i ==> new.servers[j].domain
            != new.servers[i].domain && new.servers[j].ip.ip != new.servers[i].ip.ip,
{
    let n = new.servers.len() as int;
    lemma_merged(old, new, mode, n);
    lemma_entries(new.servers, n);
    let e = entries_upto(new.servers, n);
    let m = choose|m: int| 0 <= m < e.len() && e[m] == i;
    assert(merged_at(old, new, mode, e[m]) is Ok);
    assert(!domain_taken(old.servers, new.servers, i) && !ip_taken(old.servers, new.servers, i));
    if 0 <= j < old.servers.len() && !is_deleted(old.servers, new.servers, j) {
        if old.servers[j].domain == new.servers[i].domain {
            assert(!domain_kept(old.servers, new.servers, new.servers[i].domain));
            let k = choose|k: int| #[trigger]
                is_deleted(old.servers, new.servers, k) && old.servers[k].domain
                    == new.servers[i].domain;
            assert(is_deleted(old.servers, new.servers, k));
            assert(k != j);
            assert(old.servers[k].domain == old.servers[j].domain);
        }
        if old.servers[j].ip.ip == new.servers[i].ip.ip {
            assert(!ip_kept(old.servers, new.servers, new.servers[i].ip.ip));
            let k = choose|k: int| #[trigger]
                is_deleted(old.servers, new.servers, k) && old.servers[k].ip.ip
                    == new.servers[i].ip.ip;
            assert(is_deleted(old.servers, new.servers, k));
            assert(k != j);
            assert(old.servers[k].ip.ip == old.servers[j].ip.ip);
        }
    }
    if is_added(old.servers, new.servers, j) && j > i {
        let l = choose|l: int| 0 <= l < e.len() && e[l] == j;
        assert(merged_at(old, new, mode, e[l]) is Ok);
        assert(!domain_taken(old.servers, new.servers, j) && !ip_taken(old.servers, new.servers, j));
    }
}

/// A Rebase of an enabled Production server takes over everything that its new
/// declaration says: all but the secrets and the way to reach it during the Rebase.
pub proof fn law_rebase_takes_the_declaration(old: CloudView, new: CloudView, name: Seq<char>)
    requires
        reconciled(old, new, ReconMode::Rebase) is Ok,
        has_server(old.servers, name),
        has_server(new.servers, name),
        named(old.servers, name).state == ServerState::Production,
        named(new.servers, name).state == ServerState::Production,
        named(new.servers, name).enabled,
    ensures
        ({
            let r = named(reconciled(old, new, ReconMode::Rebase)->Ok_0.servers, name);
            let n = named(new.servers, name);
            &&& r.name == n.name
            &&& r.ip == n.ip
            &&& r.domain == n.domain
            &&& r.region == n.region
            &&& r.state == n.state
            &&& r.quota == n.quota
            &&& r.enabled == n.enabled
            &&& r.ssh_port == n.ssh_port
            &&& r.dns_subdomain == n.dns_subdomain
            &&& r.ui_subdomain == n.ui_subdomain
            &&& r.sub_subdomain == n.sub_subdomain
            &&& r.cloudflare_proxied == n.cloudflare_proxied
            &&& r.inbounds == n.inbounds
            &&& r.outbound_block == n.outbound_block
            &&& r.cfstate == n.cfstate
        }),
{
    lemma_pair(old, new, ReconMode::Rebase, name);
}

/// A Rebase to Offgrid takes the new declaration and keeps the secrets, whatever
/// the server was before.
pub proof fn law_rebase_to_offgrid_takes_the_declaration(
    old: CloudView,
    new: CloudView,
    name: Seq<char>,
)
    requires
        reconciled(old, new, ReconMode::Rebase) is Ok,
        has_server(old.servers, name),
        has_server(new.servers, name),
        named(new.servers, name).state == ServerState::Offgrid,
    ensures
        named(reconciled(old, new, ReconMode::Rebase)->Ok_0.servers, name) == (ServerView {
            secrets: named(old.servers, name).secrets,
            ..named(new.servers, name)
        }),
{
    lemma_pair(old, new, ReconMode::Rebase, name);
}

/// A Reload changes nothing but the being enabled of a server that is not Offgrid
/// in both clouds.
pub proof fn law_reload_keeps_specs(old: CloudView, new: CloudView, name: Seq<char>)
    requires
        reconciled(old, new, ReconMode::Reload) is Ok,
        has_server(old.servers, name),
        has_server(new.servers, name),
        named(old.servers, name).state == ServerState::Production || named(new.servers, name).state
            == ServerState::Production,
    ensures
        named(reconciled(old, new, ReconMode::Reload)->Ok_0.servers, name) == (ServerView {
            enabled: named(new.servers, name).enabled,
            ..named(old.servers, name)
        }),
{
    lemma_pair(old, new, ReconMode::Reload, name);
}

/// The servers of a reconciled cloud come in the order of the new one.
pub proof fn law_order_follows_new(old: CloudView, new: CloudView, mode: ReconMode)
    requires
        reconciled(old, new, mode) is Ok,
        names_unique(new.servers),
    ensures
        reconciled(old, new, mode)->Ok_0.servers.len() == new.servers.len(),
        forall|i: int|
            0 <= i < new.servers.len() ==> (#[trigger] reconciled(
                old,
                new,
                mode,
            )->Ok_0.servers[i]).name == new.servers[i].name,
{
    if old.servers.len() > 0 {
        let n = new.servers.len() as int;
        lemma_all_entries(new.servers, n);
        lemma_merged(old, new, mode, n);
        let e = entries_upto(new.servers, n);
        let c = reconciled(old, new, mode)->Ok_0;
        assert forall|i: int| 0 <= i < n implies (#[trigger] c.servers[i]).name
            == new.servers[i].name by {
            assert(e[i] == i);
        }
    }
}

/// Nothing that remains or comes has the domain or the address of the server that
/// is added at this place.
pub open spec fn place_is_free(old: Seq<ServerView>, new: Seq<ServerView>, i: int) -> bool {
    &&& forall|j: int|
        0 <= j < old.len() && ((#[trigger] old[j]).domain == new[i].domain || old[j].ip.ip
            == new[i].ip.ip) ==> !has_server(new, old[j].name) && is_entry(old, j)
    &&& forall|j: int|
        0 <= j < i && ((#[trigger] new[j]).domain == new[i].domain || new[j].ip.ip == new[i].ip.ip)
            ==> has_server(old, new[j].name)
}

/// The mode accepts the new declaration of the server: a Reload where the server is
/// Offgrid in both or the inbound set has its inbounds, a Remap always, and a Rebase
/// to Offgrid always, and to Production for a provisioned server which, if enabled,
/// can be reached.
pub open spec fn mode_accepts(o: ServerView, n: ServerView, new: CloudView, mode: ReconMode) -> bool {
    match mode {
        ReconMode::Reload => {
            ||| o.state == ServerState::Offgrid && n.state == ServerState::Offgrid
            ||| forall|i: int|
                0 <= i < o.inbounds.len() && (#[trigger] o.inbounds[i]).name != "super"@
                    ==> exists|j: int|
                    0 <= j < new.settings.inbound_set.len()
                        && #[trigger] new.settings.inbound_set[j].name == o.inbounds[i].name
                        && new.settings.inbound_set[j].port == o.inbounds[i].port
        },
        ReconMode::Remap => true,
        ReconMode::Rebase => {
            ||| n.state == ServerState::Offgrid
            ||| o.state == ServerState::Production && (!n.enabled || (o.ansible_conn is Some
                && n.ansible_conn is Some))
        },
    }
}

/// A declaration is accepted where every added server has a domain and an address of
/// its own, and the mode accepts what is declared of every server that stays.
pub proof fn law_good_declarations_are_accepted(old: CloudView, new: CloudView, mode: ReconMode)
    requires
        forall|i: int|
            0 <= i < new.servers.len() && !has_server(
                old.servers,
                (#[trigger] new.servers[i]).name,
            ) ==> place_is_free(old.servers, new.servers, i),
        forall|name: Seq<char>| #[trigger]
            has_server(new.servers, name) && has_server(old.servers, name) ==> mode_accepts(
                named(old.servers, name),
                named(new.servers, name),
                new,
                mode,
            ),
    ensures
        reconciled(old, new, mode) is Ok,
{
    if old.servers.len() > 0 {
        lemma_accepted_upto(old, new, mode, new.servers.len() as int);
    }
}

proof fn lemma_accepted_upto(old: CloudView, new: CloudView, mode: ReconMode, k: int)
    requires
        0 <= k <= new.servers.len(),
        forall|i: int|
            0 <= i < new.servers.len() && !has_server(
                old.servers,
                (#[trigger] new.servers[i]).name,
            ) ==> place_is_free(old.servers, new.servers, i),
        forall|name: Seq<char>| #[trigger]
            has_server(new.servers, name) && has_server(old.servers, name) ==> mode_accepts(
                named(old.servers, name),
                named(new.servers, name),
                new,
                mode,
            ),
    ensures
        merged_upto(old, new, mode, k) is Ok,
    decreases k,
{
    if k > 0 {
        lemma_accepted_upto(old, new, mode, k - 1);
        let i = k - 1;
        let s = new.servers[i];
        if is_entry(new.servers, i) {
            if has_server(old.servers, s.name) {
                assert(has_server(new.servers, s.name));
                let o = named(old.servers, s.name);
                assert(mode_accepts(o, s, new, mode));
                if mode == ReconMode::Reload && !(o.state == ServerState::Offgrid && s.state
                    == ServerState::Offgrid) {
                    assert(covered(o, new.settings.inbound_set));
                }
            } else {
                assert(place_is_free(old.servers, new.servers, i));
                if domain_kept(old.servers, new.servers, s.domain) {
                    let j = choose|j: int|
                        0 <= j < old.servers.len() && #[trigger] old.servers[j].domain == s.domain;
                    assert(is_deleted(old.servers, new.servers, j));
                }
                if ip_kept(old.servers, new.servers, s.ip.ip) {
                    let j = choose|j: int|
                        0 <= j < old.servers.len() && #[trigger] old.servers[j].ip.ip == s.ip.ip;
                    assert(is_deleted(old.servers, new.servers, j));
                }
                if domain_taken(old.servers, new.servers, i) {
                    let j = choose|j: int|
                        0 <= j < i && #[trigger] is_added(old.servers, new.servers, j)
                            && new.servers[j].domain == s.domain;
                    assert(new.servers[j].domain == s.domain);
                }
                if ip_taken(old.servers, new.servers, i) {
                    let j = choose|j: int|
                        0 <= j < i && #[trigger] is_added(old.servers, new.servers, j)
                            && new.servers[j].ip.ip == s.ip.ip;
                    assert(new.servers[j].ip.ip == s.ip.ip);
                }
            }
        }
    }
}

/// The pairs of a Rebase among the first `k` servers of the new cloud.
proof fn lemma_pairs(old: CloudView, new: CloudView, k: int)
    requires
        0 <= k <= new.servers.len(),
        merged_upto(old, new, ReconMode::Rebase, k) is Ok,
    ensures
        ({
            let p = pairs_upto(old, new, ReconMode::Rebase, k);
            let e = entries_upto(new.servers, k);
            &&& forall|q: int|
                0 <= q < p.len() ==> 0 <= (#[trigger] p[q]).1 < e.len() && ({
                    let n = new.servers[e[p[q].1]];
                    has_server(old.servers, n.name) && p[q].0 == server_index(old.servers, n.name)
                        && n.state == ServerState::Production
                })
            &&& forall|q: int, r: int|
                0 <= q < r < p.len() ==> (#[trigger] p[q]).1 < (#[trigger] p[r]).1
            &&& forall|m: int|
                0 <= m < e.len() && has_server(old.servers, new.servers[#[trigger] e[m]].name)
                    && new.servers[e[m]].state == ServerState::Production ==> exists|q: int|
                    0 <= q < p.len() && (#[trigger] p[q]).1 == m
        }),
    decreases k,
{
    if k > 0 {
        lemma_pairs(old, new, k - 1);
        lemma_merged(old, new, ReconMode::Rebase, k - 1);
        let p0 = pairs_upto(old, new, ReconMode::Rebase, k - 1);
        let e0 = entries_upto(new.servers, k - 1);
        let p = pairs_upto(old, new, ReconMode::Rebase, k);
        let e = entries_upto(new.servers, k);
        assert forall|q: int| 0 <= q < p.len() implies 0 <= (#[trigger] p[q]).1 < e.len() && ({
            let n = new.servers[e[p[q].1]];
            has_server(old.servers, n.name) && p[q].0 == server_index(old.servers, n.name) && n.state
                == ServerState::Production
        }) by {
            if q < p0.len() {
                assert(p[q] == p0[q]);
                assert(e[p[q].1] == e0[p[q].1]);
            }
        }
        assert forall|q: int, r: int| 0 <= q < r < p.len() implies (#[trigger] p[q]).1 < (
        #[trigger] p[r]).1 by {
            assert(p[q] == p0[q]);
            if r < p0.len() {
                assert(p[r] == p0[r]);
            }
        }
        assert forall|m: int|
            0 <= m < e.len() && has_server(old.servers, new.servers[#[trigger] e[m]].name)
                && new.servers[e[m]].state == ServerState::Production implies exists|q: int|
            0 <= q < p.len() && (#[trigger] p[q]).1 == m by {
            if m < e0.len() {
                assert(e[m] == e0[m]);
                let q = choose|q: int| 0 <= q < p0.len() && (#[trigger] p0[q]).1 == m;
                assert(p[q].1 == m);
            } else {
                assert(p[p0.len() as int].1 == m);
            }
        }
    }
}

/// A Rebase reconciles every server remotely that is Production in the new cloud and
/// was in the old one: the pair of what it was and what it becomes is among those to
/// be reconciled.
pub proof fn law_rebase_reaches_production(old: CloudView, new: CloudView, name: Seq<char>)
    requires
        reconciled(old, new, ReconMode::Rebase) is Ok,
        has_server(old.servers, name),
        has_server(new.servers, name),
        named(new.servers, name).state == ServerState::Production,
    ensures
        ({
            let c = reconciled(old, new, ReconMode::Rebase)->Ok_0;
            let p = rebase_pairs(old, new, ReconMode::Rebase);
            exists|q: int|
                0 <= q < p.len() && old.servers[(#[trigger] p[q]).0] == named(old.servers, name)
                    && c.servers[p[q].1] == named(c.servers, name)
        }),
{
    let c = reconciled(old, new, ReconMode::Rebase)->Ok_0;
    let n = new.servers.len() as int;
    let p = rebase_pairs(old, new, ReconMode::Rebase);
    let e = entries_upto(new.servers, n);
    lemma_pairs(old, new, n);
    lemma_merged(old, new, ReconMode::Rebase, n);
    lemma_entries(new.servers, n);
    lemma_result(old, new, ReconMode::Rebase);
    lemma_server_index(new.servers, name);
    let i = server_index(new.servers, name);
    assert(is_entry(new.servers, i));
    let m = choose|m: int| 0 <= m < e.len() && e[m] == i;
    assert(new.servers[e[m]].name == name);
    let q = choose|q: int| 0 <= q < p.len() && (#[trigger] p[q]).1 == m;
    assert(c.servers[m].name == name);
    assert forall|j: int| m < j < c.servers.len() implies #[trigger] c.servers[j].name != name by {
        assert(c.servers[m].name != c.servers[j].name);
    }
    lemma_server_index_is(c.servers, name, m);
    assert(old.servers[p[q].0] == named(old.servers, name));
}

/// Nothing else is reconciled remotely: each pair is that of one server, which is
/// Production in the new cloud, no server comes twice, and the other modes have none.
pub proof fn law_only_production_is_rebased(old: CloudView, new: CloudView, mode: ReconMode, q: int, r: int)
    requires
        reconciled(old, new, mode) is Ok,
        0 <= q < rebase_pairs(old, new, mode).len(),
    ensures
        ({
            let c = reconciled(old, new, mode)->Ok_0;
            let p = rebase_pairs(old, new, mode);
            let name = c.servers[p[q].1].name;
            &&& mode == ReconMode::Rebase
            &&& 0 <= p[q].0 < old.servers.len()
            &&& 0 <= p[q].1 < c.servers.len()
            &&& old.servers[p[q].0].name == name
            &&& has_server(new.servers, name)
            &&& named(new.servers, name).state == ServerState::Production
            &&& 0 <= r < p.len() && r != q ==> p[r].1 != p[q].1
        }),
{
    let n = new.servers.len() as int;
    if mode == ReconMode::Rebase {
        let p = rebase_pairs(old, new, mode);
        let e = entries_upto(new.servers, n);
        lemma_pairs(old, new, n);
        lemma_merged(old, new, mode, n);
        lemma_entries(new.servers, n);
        let m = p[q].1;
        let s = new.servers[e[m]];
        assert(is_entry(new.servers, e[m]));
        assert(new.servers[e[m]].name == s.name);
        lemma_server_index(old.servers, s.name);
        if 0 <= r < p.len() && r < q {
            assert(p[r].1 < p[q].1);
        }
    } else {
        lemma_no_pairs(old, new, mode, n);
    }
}

proof fn lemma_no_pairs(old: CloudView, new: CloudView, mode: ReconMode, k: int)
    requires
        mode != ReconMode::Rebase,
    ensures
        pairs_upto(old, new, mode, k).len() == 0,
    decreases k,
{
    if k > 0 {
        lemma_no_pairs(old, new, mode, k - 1);
    }
}

/// A Reload is refused while a server that stays, and is not Offgrid in both clouds, has an
/// inbound of which the new inbound set has none of the same name and port.
pub proof fn law_reload_refuses_unknown_inbounds(old: CloudView, new: CloudView, name: Seq<char>, i: int)
    requires
        has_server(old.servers, name),
        has_server(new.servers, name),
        named(old.servers, name).state == ServerState::Production || named(new.servers, name).state
            == ServerState::Production,
        0 <= i < named(old.servers, name).inbounds.len(),
        named(old.servers, name).inbounds[i].name != "super"@,
        forall|j: int|
            0 <= j < new.settings.inbound_set.len() ==> !(
            #[trigger] new.settings.inbound_set[j].name == named(
                old.servers,
                name,
            ).inbounds[i].name && new.settings.inbound_set[j].port == named(
                old.servers,
                name,
            ).inbounds[i].port),
    ensures
        reconciled(old, new, ReconMode::Reload) is Err,
{
    let o = named(old.servers, name);
    assert(!crate::cloud::reconcile::in_set(
        new.settings.inbound_set,
        o.inbounds[i].name,
        o.inbounds[i].port,
    ));
    assert(!covered(o, new.settings.inbound_set));
    if reconciled(old, new, ReconMode::Reload) is Ok {
        lemma_pair(old, new, ReconMode::Reload, name);
    }
}

} // verus!
