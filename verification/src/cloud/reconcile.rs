//! Reconciling the running cloud with a new declaration of it.
//!
//! - The settings are those of the new cloud.
//! - Where the old cloud has no servers, everything is taken from the new one.
//! - A server that only the new cloud has is added; one that only the old cloud
//!   has is deleted.
//! - A server that both have is merged as the mode says: a Reload changes it
//!   only while it stays Offgrid, a Remap takes the new declaration and keeps
//!   the secrets, a Rebase does so too and has the remote server reconciled.

use vstd::prelude::*;

use crate::ansible::{AnsibleConn, AnsibleConnView};
use crate::outside::{debug_string, debug_text};
use crate::strmap::{has_key, text_map, StrMap};
use crate::types::{
    inbound_views, server_views, super_text, Cloud, CloudView, Inbound, InboundView, KetServer,
    SecretsView, ServerState, ServerView,
};

verus! {

/// How a new declaration of the cloud is applied.
#[derive(Clone, Copy, Debug, PartialEq, Eq, Structural)]
pub enum ReconMode {
    Reload,
    Remap,
    Rebase,
}

/// The name of a mode.
pub open spec fn mode_text(m: ReconMode) -> Seq<char> {
    match m {
        ReconMode::Reload => "Reload"@,
        ReconMode::Remap => "Remap"@,
        ReconMode::Rebase => "Rebase"@,
    }
}

impl ReconMode {
    pub fn name(&self) -> (r: &'static str)
        ensures
            r@ == mode_text(*self),
    {
        match self {
            ReconMode::Reload => "Reload",
            ReconMode::Remap => "Remap",
            ReconMode::Rebase => "Rebase",
        }
    }
}

// ---------------------------------------------------------------- lookups

/// A server with the name is in the list.
pub open spec fn has_server(servers: Seq<ServerView>, name: Seq<char>) -> bool {
    exists|i: int| 0 <= i < servers.len() && #[trigger] servers[i].name == name
}

/// The position of the last server with the name.
pub open spec fn server_index(servers: Seq<ServerView>, name: Seq<char>) -> int
    decreases servers.len(),
{
    if servers.len() == 0 {
        -1
    } else if servers.last().name == name {
        servers.len() - 1
    } else {
        server_index(servers.drop_last(), name)
    }
}

/// The server is the one that its name stands for.
pub open spec fn is_entry(servers: Seq<ServerView>, i: int) -> bool {
    0 <= i < servers.len() && server_index(servers, servers[i].name) == i
}

/// Where the last server with a name stands.
pub proof fn lemma_server_index(servers: Seq<ServerView>, name: Seq<char>)
    ensures
        -1 <= server_index(servers, name) < servers.len(),
        server_index(servers, name) >= 0 <==> has_server(servers, name),
        server_index(servers, name) >= 0 ==> servers[server_index(servers, name)].name == name,
        forall|j: int|
            server_index(servers, name) < j < servers.len() ==> #[trigger] servers[j].name != name,
    decreases servers.len(),
{
    if servers.len() > 0 {
        if servers.last().name != name {
            let front = servers.drop_last();
            lemma_server_index(front, name);
            assert forall|j: int|
                server_index(servers, name) < j < servers.len() implies #[trigger] servers[j].name
                != name by {
                if j < front.len() {
                    assert(front[j] == servers[j]);
                }
            }
            if has_server(servers, name) {
                let i = choose|i: int|
                    0 <= i < servers.len() && #[trigger] servers[i].name == name;
                assert(front[i].name == name);
            }
            if has_server(front, name) {
                let i = choose|i: int| 0 <= i < front.len() && #[trigger] front[i].name == name;
                assert(servers[i].name == name);
            }
        } else {
            assert(servers[servers.len() - 1].name == name);
        }
    }
}

/// The last server with a name is the one that no later one follows.
pub proof fn lemma_server_index_is(servers: Seq<ServerView>, name: Seq<char>, i: int)
    requires
        0 <= i < servers.len(),
        servers[i].name == name,
        forall|j: int| i < j < servers.len() ==> #[trigger] servers[j].name != name,
    ensures
        server_index(servers, name) == i,
        has_server(servers, name),
{
    lemma_server_index(servers, name);
}

/// The last server with the name.
pub fn find_server(servers: &Vec<KetServer>, name: &str) -> (r: Option<usize>)
    ensures
        match r {
            Some(i) => has_server(server_views(servers@), name@) && i < servers@.len() && i
                == server_index(server_views(servers@), name@),
            None => !has_server(server_views(servers@), name@),
        },
{
    let wanted = name.to_owned();
    let ghost views = server_views(servers@);
    let mut i: usize = servers.len();
    while i > 0
        invariant
            i <= servers@.len(),
            wanted@ == name@,
            views == server_views(servers@),
            forall|j: int| i <= j < servers@.len() ==> #[trigger] views[j].name != name@,
        decreases i,
    {
        i -= 1;
        assert(views[i as int] == servers@[i as int]@);
        if servers[i].name == wanted {
            proof {
                lemma_server_index_is(views, name@, i as int);
            }
            return Some(i);
        }
    }
    None
}

// ---------------------------------------------------------------- merges

/// The inbound set has an inbound with this name and port.
pub open spec fn in_set(set: Seq<InboundView>, name: Seq<char>, port: u16) -> bool {
    exists|i: int| 0 <= i < set.len() && #[trigger] set[i].name == name && set[i].port == port
}

/// All inbounds of the server but the supervisor's are in the set.
pub open spec fn covered(server: ServerView, set: Seq<InboundView>) -> bool {
    forall|i: int|
        0 <= i < server.inbounds.len() && (#[trigger] server.inbounds[i]).name != super_text()
            ==> in_set(set, server.inbounds[i].name, server.inbounds[i].port)
}

/// An inbound before this place has the same name and port.
pub open spec fn pair_before(s: Seq<InboundView>, i: int) -> bool {
    exists|j: int| 0 <= j < i && #[trigger] s[j].name == s[i].name && s[j].port == s[i].port
}

/// The list of a server's inbounds, as it is put into a message: the names, as
/// debug output writes them, and the ports of the first `k` of them, each pair
/// once and without the supervisor's.
pub open spec fn inbound_list(s: Seq<InboundView>, k: int) -> Seq<char>
    decreases k,
{
    if k <= 0 {
        Seq::empty()
    } else if s[k - 1].name == super_text() || pair_before(s, k - 1) {
        inbound_list(s, k - 1)
    } else {
        let before = inbound_list(s, k - 1);
        let sep = if before.len() == 0 {
            before
        } else {
            before + ", "@
        };
        sep + "("@ + debug_text(s[k - 1].name) + ", "@ + crate::text::decimal(
            s[k - 1].port as nat,
        ) + ")"@
    }
}

pub open spec fn uncovered_text(old: ServerView) -> Seq<char> {
    "[ Reload ] The existing server '"@ + old.name
        + "' has inbound names that are not defined in the new cloud inbound-set. You must add the missing ones. The server's inbounds: {"@
        + inbound_list(old.inbounds, old.inbounds.len() as int) + "}"@
}

/// What a Reload makes of a server: it is changed only where it was and stays
/// Offgrid. Otherwise only its being enabled follows the new cloud, whose
/// inbound set must have the server's inbounds.
pub open spec fn reloaded(old: ServerView, new: ServerView, set: Seq<InboundView>) -> Result<
    ServerView,
    Seq<char>,
> {
    if old.state == ServerState::Offgrid && new.state == ServerState::Offgrid {
        Ok(new)
    } else if covered(old, set) {
        Ok(ServerView { enabled: new.enabled, ..old })
    } else {
        Err(uncovered_text(old))
    }
}

/// What a Remap makes of a server: the new declaration with the old secrets.
pub open spec fn remapped(old: ServerView, new: ServerView) -> ServerView {
    ServerView { secrets: old.secrets, ..new }
}

/// The secrets of a rebased server: the new health path, the old values of
/// everything else, and a subscription identifier for each added inbound.
pub open spec fn rebased_secrets(old: SecretsView, new: SecretsView) -> SecretsView {
    SecretsView {
        health_path: new.health_path,
        mother_subids: new.mother_subids.union_prefer_right(old.mother_subids),
        ..old
    }
}

/// What a Rebase makes of a server.
pub open spec fn rebased(old: ServerView, new: ServerView) -> Result<ServerView, Seq<char>> {
    if new.state == ServerState::Offgrid {
        Ok(remapped(old, new))
    } else if old.state == ServerState::Offgrid {
        Err("'"@ + old.name + "' is not provisioned yet. Rebase to Production is invalid."@)
    } else if !new.enabled {
        Ok(ServerView { enabled: false, ..old })
    } else {
        match (new.ansible_conn, old.ansible_conn) {
            (None, _) => Err("Couldn't unwrap new AnsibleConn for a Rebase."@),
            (Some(_), None) => Err("Couldn't unwrap old AnsibleConn for a Rebase."@),
            (Some(n), Some(o)) => Ok(
                ServerView {
                    secrets: rebased_secrets(old.secrets, new.secrets),
                    ansible_conn: Some(AnsibleConnView { host: n.host, ..o }),
                    ..new
                },
            ),
        }
    }
}

/// Is an inbound with this name and port in the set?
pub fn set_has(set: &Vec<Inbound>, name: &String, port: u16) -> (r: bool)
    ensures
        r == in_set(inbound_views(set@), name@, port),
{
    let ghost views = inbound_views(set@);
    let mut i: usize = 0;
    while i < set.len()
        invariant
            i <= set@.len(),
            views == inbound_views(set@),
            forall|j: int|
                0 <= j < i ==> !(#[trigger] views[j].name == name@ && views[j].port == port),
        decreases set@.len() - i,
    {
        assert(views[i as int] == set@[i as int]@);
        if set[i].name == *name && set[i].port == port {
            assert(views[i as int].name == name@);
            return true;
        }
        i += 1;
    }
    false
}

fn has_pair_before(s: &Vec<Inbound>, i: usize) -> (r: bool)
    requires
        i < s@.len(),
    ensures
        r == pair_before(inbound_views(s@), i as int),
{
    let ghost views = inbound_views(s@);
    let mut j: usize = 0;
    assert(views[i as int] == s@[i as int]@);
    while j < i
        invariant
            j <= i < s@.len(),
            views == inbound_views(s@),
            views[i as int] == s@[i as int]@,
            forall|k: int|
                0 <= k < j ==> !(#[trigger] views[k].name == views[i as int].name && views[k].port
                    == views[i as int].port),
        decreases i - j,
    {
        assert(views[j as int] == s@[j as int]@);
        if s[j].name == s[i].name && s[j].port == s[i].port {
            assert(views[j as int].name == views[i as int].name);
            return true;
        }
        j += 1;
    }
    false
}

/// The text of a server's inbounds in a message.
fn list_inbounds(inbounds: &Vec<Inbound>) -> (r: String)
    ensures
        r@ == inbound_list(inbound_views(inbounds@), inbounds@.len() as int),
{
    let ghost views = inbound_views(inbounds@);
    let super_name = crate::types::SvcKind::super_name();
    let mut s = String::new();
    let mut i: usize = 0;
    while i < inbounds.len()
        invariant
            i <= inbounds@.len(),
            views == inbound_views(inbounds@),
            super_name@ == super_text(),
            s@ == inbound_list(views, i as int),
        decreases inbounds@.len() - i,
    {
        assert(views[i as int] == inbounds@[i as int]@);
        if inbounds[i].name != super_name && !has_pair_before(inbounds, i) {
            if !s.as_str().is_empty() {
                s.append(", ");
            }
            s.append("(");
            s.append(debug_string(inbounds[i].name.as_str()).as_str());
            s.append(", ");
            s.append(crate::text::number(inbounds[i].port as u64).as_str());
            s.append(")");
        }
        i += 1;
    }
    s
}

fn is_covered(server: &KetServer, set: &Vec<Inbound>) -> (r: bool)
    ensures
        r == covered(server@, inbound_views(set@)),
{
    let ghost views = inbound_views(server.inbounds@);
    let super_name = crate::types::SvcKind::super_name();
    let mut i: usize = 0;
    while i < server.inbounds.len()
        invariant
            i <= server.inbounds@.len(),
            views == server@.inbounds,
            views == inbound_views(server.inbounds@),
            super_name@ == super_text(),
            forall|j: int|
                0 <= j < i && (#[trigger] views[j]).name != super_text() ==> in_set(
                    inbound_views(set@),
                    views[j].name,
                    views[j].port,
                ),
        decreases server.inbounds@.len() - i,
    {
        assert(views[i as int] == server.inbounds@[i as int]@);
        if server.inbounds[i].name != super_name && !set_has(
            set,
            &server.inbounds[i].name,
            server.inbounds[i].port,
        ) {
            return false;
        }
        i += 1;
    }
    true
}

/// Merges a server in a Reload.
pub fn reload_merge(old: &KetServer, new: &KetServer, inbound_set: &Vec<Inbound>) -> (r: Result<
    KetServer,
    String,
>)
    ensures
        match r {
            Ok(s) => reloaded(old@, new@, inbound_views(inbound_set@)) == Ok::<
                ServerView,
                Seq<char>,
            >(s@),
            Err(e) => reloaded(old@, new@, inbound_views(inbound_set@)) == Err::<
                ServerView,
                Seq<char>,
            >(e@),
        },
{
    if old.state.load() == ServerState::Offgrid && new.state.load() == ServerState::Offgrid {
        return Ok(new.clone());
    }
    if !is_covered(old, inbound_set) {
        let mut e = "[ Reload ] The existing server '".to_owned();
        e.append(old.name.as_str());
        e.append(
            "' has inbound names that are not defined in the new cloud inbound-set. You must add the missing ones. The server's inbounds: {",
        );
        e.append(list_inbounds(&old.inbounds).as_str());
        e.append("}");
        return Err(e);
    }
    let mut merged = old.clone();
    merged.enabled = new.enabled;
    Ok(merged)
}

/// Merges a server in a Remap.
pub fn remap_merge(old: &KetServer, new: &KetServer) -> (r: KetServer)
    ensures
        r@ == remapped(old@, new@),
        r.secrets@ == old.secrets@,
        r.enabled == new.enabled,
        r.quota == new.quota,
        r.ssh_port == new.ssh_port,
        r.cloudflare_proxied == new.cloudflare_proxied,
        inbound_views(r.inbounds@) == inbound_views(new.inbounds@),
        crate::text::texts(r.outbound_block@) == crate::text::texts(new.outbound_block@),
{
    let mut merged = new.clone();
    merged.secrets = old.secrets.clone();
    merged
}

/// Adds the entries of `new` whose keys `old` lacks.
fn merge_subids(old: &StrMap<String>, new: &StrMap<String>) -> (r: StrMap<String>)
    ensures
        text_map(r@) == text_map(new@).union_prefer_right(text_map(old@)),
{
    let mut m = old.clone();
    let mut i: usize = 0;
    while i < new.entries.len()
        invariant
            i <= new.entries@.len(),
            forall|k: Seq<char>|
                #![trigger m@.dom().contains(k)]
                m@.dom().contains(k) <==> old@.dom().contains(k) || has_key(
                    new.entries@.take(i as int),
                    k,
                ),
            forall|k: Seq<char>|
                #![trigger m@[k]]
                m@.dom().contains(k) ==> m@[k] == (if old@.dom().contains(k) {
                    old@[k]
                } else {
                    new@[k]
                }),
        decreases new.entries@.len() - i,
    {
        let ghost before = m@;
        let ghost front = new.entries@.take(i as int);
        let key = new.entries[i].0.clone();
        let value = new.entries[i].1.clone();
        m.or_insert(key, value);
        proof {
            let more = new.entries@.take(i + 1);
            assert(more =~= front.push(new.entries@[i as int]));
            crate::strmap::lemma_push(front, new.entries@[i as int]);
            assert forall|k: Seq<char>|
                #![trigger m@.dom().contains(k)]
                m@.dom().contains(k) <==> old@.dom().contains(k) || has_key(more, k) by {
                assert(has_key(more, k) <==> has_key(front, k) || k == key@);
                assert(before.dom().contains(k) <==> old@.dom().contains(k) || has_key(front, k));
            }
            assert forall|k: Seq<char>| #![trigger m@[k]] m@.dom().contains(k) implies m@[k] == (
            if old@.dom().contains(k) {
                old@[k]
            } else {
                new@[k]
            }) by {
                if before.dom().contains(k) {
                    assert(before[k] == m@[k]);
                } else {
                    assert(k == key@);
                    assert(!has_key(front, k));
                    assert forall|j: int| 0 <= j < i implies #[trigger] new.entries@[j].0@ != k by {
                        assert(front[j].0@ == new.entries@[j].0@);
                    }
                    crate::strmap::lemma_key_index_is(new.entries@, k, i as int);
                }
            }
        }
        i += 1;
    }
    proof {
        assert(new.entries@.take(i as int) =~= new.entries@);
        assert forall|k: Seq<char>| #[trigger]
            text_map(m@).dom().contains(k) == text_map(new@).union_prefer_right(
                text_map(old@),
            ).dom().contains(k) by {
            assert(m@.dom().contains(k) <==> old@.dom().contains(k) || has_key(new.entries@, k));
        }
        assert(text_map(m@) =~= text_map(new@).union_prefer_right(text_map(old@)));
    }
    m
}

/// Merges a server in a Rebase.
pub fn rebase_merge(old: &KetServer, new: &KetServer) -> (r: Result<KetServer, String>)
    ensures
        match r {
            Ok(s) => rebased(old@, new@) == Ok::<ServerView, Seq<char>>(s@),
            Err(e) => rebased(old@, new@) == Err::<ServerView, Seq<char>>(e@),
        },
        old@.state == ServerState::Production && new@.state == ServerState::Production
            && new.enabled ==> (r matches Ok(s) ==> {
            &&& s.name@ == new.name@
            &&& s.ip@ == new.ip@
            &&& s.domain@ == new.domain@
            &&& s.region@ == new.region@
            &&& s.quota == new.quota
            &&& s.enabled
            &&& s.ssh_port == new.ssh_port
            &&& s.dns_subdomain@ == new.dns_subdomain@
            &&& s.ui_subdomain@ == new.ui_subdomain@
            &&& s.sub_subdomain@ == new.sub_subdomain@
            &&& s.cloudflare_proxied == new.cloudflare_proxied
            &&& inbound_views(s.inbounds@) == inbound_views(new.inbounds@)
            &&& crate::text::texts(s.outbound_block@) == crate::text::texts(new.outbound_block@)
        }),
{
    if new.state.load() == ServerState::Offgrid {
        return Ok(remap_merge(old, new));
    }
    if old.state.load() == ServerState::Offgrid {
        let mut e = "'".to_owned();
        e.append(old.name.as_str());
        e.append("' is not provisioned yet. Rebase to Production is invalid.");
        return Err(e);
    }
    if !new.enabled {
        let mut merged = old.clone();
        merged.enabled = false;
        return Ok(merged);
    }
    let new_conn = match &new.ansible_conn {
        Some(c) => c,
        None => return Err("Couldn't unwrap new AnsibleConn for a Rebase.".to_owned()),
    };
    let old_conn = match &old.ansible_conn {
        Some(c) => c,
        None => return Err("Couldn't unwrap old AnsibleConn for a Rebase.".to_owned()),
    };
    let mut secrets = old.secrets.clone();
    secrets.health_path = new.secrets.health_path.clone();
    secrets.mother_subids = merge_subids(&old.secrets.mother_subids, &new.secrets.mother_subids);
    let mut conn = old_conn.clone();
    conn.ansible_host = new_conn.ansible_host.clone();
    let mut merged = new.clone();
    merged.secrets = secrets;
    merged.ansible_conn = Some(conn);
    assert(merged@.secrets == rebased_secrets(old@.secrets, new@.secrets));
    Ok(merged)
}

// ---------------------------------------------------------------- the cloud

/// The old server is deleted: its name stands for it, and the new cloud has no
/// server of that name.
pub open spec fn is_deleted(old: Seq<ServerView>, new: Seq<ServerView>, i: int) -> bool {
    is_entry(old, i) && !has_server(new, old[i].name)
}

/// The new server is added.
pub open spec fn is_added(old: Seq<ServerView>, new: Seq<ServerView>, i: int) -> bool {
    is_entry(new, i) && !has_server(old, new[i].name)
}

/// A server of the old cloud has the domain, and none that is deleted had it.
pub open spec fn domain_kept(old: Seq<ServerView>, new: Seq<ServerView>, d: Seq<char>) -> bool {
    &&& exists|i: int| 0 <= i < old.len() && #[trigger] old[i].domain == d
    &&& forall|i: int| #[trigger] is_deleted(old, new, i) ==> old[i].domain != d
}

/// A server of the old cloud has the address, and none that is deleted had it.
pub open spec fn ip_kept(old: Seq<ServerView>, new: Seq<ServerView>, ip: crate::types::Ip) -> bool {
    &&& exists|i: int| 0 <= i < old.len() && #[trigger] old[i].ip.ip == ip
    &&& forall|i: int| #[trigger] is_deleted(old, new, i) ==> old[i].ip.ip != ip
}

/// The domain of the added server is in use: by the old cloud, or by a server
/// that was added before.
pub open spec fn domain_taken(old: Seq<ServerView>, new: Seq<ServerView>, i: int) -> bool {
    ||| domain_kept(old, new, new[i].domain)
    ||| exists|j: int| 0 <= j < i && #[trigger] is_added(old, new, j) && new[j].domain == new[i].domain
}

/// The address of the added server is in use.
pub open spec fn ip_taken(old: Seq<ServerView>, new: Seq<ServerView>, i: int) -> bool {
    ||| ip_kept(old, new, new[i].ip.ip)
    ||| exists|j: int| 0 <= j < i && #[trigger] is_added(old, new, j) && new[j].ip.ip == new[i].ip.ip
}

pub open spec fn same_domain_text(mode: ReconMode, name: Seq<char>) -> Seq<char> {
    "[ "@ + mode_text(mode) + " ] The new server '"@ + name
        + "' has the same domain used in the current cloud."@
}

pub open spec fn same_ip_text(mode: ReconMode, name: Seq<char>) -> Seq<char> {
    "[ "@ + mode_text(mode) + " ] The new server '"@ + name + "' uses an existing IP in the cloud."@
}

/// What becomes of the server at a place of the new cloud.
pub open spec fn merged_at(old: CloudView, new: CloudView, mode: ReconMode, i: int) -> Result<
    ServerView,
    Seq<char>,
> {
    let s = new.servers[i];
    if !has_server(old.servers, s.name) {
        if domain_taken(old.servers, new.servers, i) {
            Err(same_domain_text(mode, s.name))
        } else if ip_taken(old.servers, new.servers, i) {
            Err(same_ip_text(mode, s.name))
        } else {
            Ok(s)
        }
    } else {
        let o = old.servers[server_index(old.servers, s.name)];
        match mode {
            ReconMode::Reload => reloaded(o, s, new.settings.inbound_set),
            ReconMode::Remap => Ok(remapped(o, s)),
            ReconMode::Rebase => rebased(o, s),
        }
    }
}

/// What becomes of the first `k` servers of the new cloud: all of them merged,
/// in their order, or the first error among them.
pub open spec fn merged_upto(old: CloudView, new: CloudView, mode: ReconMode, k: int) -> Result<
    Seq<ServerView>,
    Seq<char>,
>
    decreases k,
{
    if k <= 0 {
        Ok(Seq::empty())
    } else {
        match merged_upto(old, new, mode, k - 1) {
            Err(e) => Err(e),
            Ok(t) => if !is_entry(new.servers, k - 1) {
                Ok(t)
            } else {
                match merged_at(old, new, mode, k - 1) {
                    Err(e) => Err(e),
                    Ok(s) => Ok(t.push(s)),
                }
            },
        }
    }
}

/// The pairs of old and merged servers that a Rebase reconciles remotely, among
/// the first `k` servers of the new cloud: the places of the old server in the
/// old cloud, and of the merged one in the merged cloud.
pub open spec fn pairs_upto(old: CloudView, new: CloudView, mode: ReconMode, k: int) -> Seq<
    (int, int),
>
    decreases k,
{
    if k <= 0 {
        Seq::empty()
    } else {
        let before = pairs_upto(old, new, mode, k - 1);
        let s = new.servers[k - 1];
        if mode == ReconMode::Rebase && is_entry(new.servers, k - 1) && has_server(
            old.servers,
            s.name,
        ) && s.state == ServerState::Production {
            before.push(
                (
                    server_index(old.servers, s.name),
                    merged_upto(old, new, mode, k - 1)->Ok_0.len() as int,
                ),
            )
        } else {
            before
        }
    }
}

/// The reconciled cloud, or the first error.
pub open spec fn reconciled(old: CloudView, new: CloudView, mode: ReconMode) -> Result<
    CloudView,
    Seq<char>,
> {
    if old.servers.len() == 0 {
        Ok(new)
    } else {
        match merged_upto(old, new, mode, new.servers.len() as int) {
            Ok(servers) => Ok(CloudView { servers, settings: new.settings }),
            Err(e) => Err(e),
        }
    }
}

/// The pairs that a Rebase reconciles remotely.
pub open spec fn rebase_pairs(old: CloudView, new: CloudView, mode: ReconMode) -> Seq<(int, int)> {
    if old.servers.len() == 0 {
        Seq::empty()
    } else {
        pairs_upto(old, new, mode, new.servers.len() as int)
    }
}

/// A reconciled cloud, with the pairs of places in the old and in the
/// reconciled cloud of the servers that are to be reconciled remotely.
pub struct Reconciled {
    pub cloud: Cloud,
    pub to_rebase: Vec<(usize, usize)>,
}

pub open spec fn pair_views(s: Seq<(usize, usize)>) -> Seq<(int, int)> {
    s.map_values(|p: (usize, usize)| (p.0 as int, p.1 as int))
}

proof fn lemma_error_stays(old: CloudView, new: CloudView, mode: ReconMode, k: int, n: int)
    requires
        0 <= k <= n,
        merged_upto(old, new, mode, k) is Err,
    ensures
        merged_upto(old, new, mode, n) == merged_upto(old, new, mode, k),
    decreases n,
{
    if k < n {
        lemma_error_stays(old, new, mode, k, n - 1);
    }
}

fn entry(servers: &Vec<KetServer>, i: usize) -> (r: bool)
    requires
        i < servers@.len(),
    ensures
        r == is_entry(server_views(servers@), i as int),
{
    let ghost views = server_views(servers@);
    assert(views[i as int] == servers@[i as int]@);
    match find_server(servers, servers[i].name.as_str()) {
        Some(j) => j == i,
        None => {
            assert(views[i as int].name == servers@[i as int]@.name);
            false
        },
    }
}

fn deleted(old: &Vec<KetServer>, new: &Vec<KetServer>, i: usize) -> (r: bool)
    requires
        i < old@.len(),
    ensures
        r == is_deleted(server_views(old@), server_views(new@), i as int),
{
    assert(server_views(old@)[i as int] == old@[i as int]@);
    entry(old, i) && find_server(new, old[i].name.as_str()).is_none()
}

fn added(old: &Vec<KetServer>, new: &Vec<KetServer>, i: usize) -> (r: bool)
    requires
        i < new@.len(),
    ensures
        r == is_added(server_views(old@), server_views(new@), i as int),
{
    assert(server_views(new@)[i as int] == new@[i as int]@);
    entry(new, i) && find_server(old, new[i].name.as_str()).is_none()
}

fn keeps_domain(old: &Vec<KetServer>, new: &Vec<KetServer>, domain: &String) -> (r: bool)
    ensures
        r == domain_kept(server_views(old@), server_views(new@), domain@),
{
    let ghost ov = server_views(old@);
    let ghost nv = server_views(new@);
    let mut found = false;
    let mut i: usize = 0;
    while i < old.len()
        invariant
            i <= old@.len(),
            ov == server_views(old@),
            nv == server_views(new@),
            found <==> exists|j: int| 0 <= j < i && #[trigger] ov[j].domain == domain@,
            forall|j: int| 0 <= j < i && #[trigger] is_deleted(ov, nv, j) ==> ov[j].domain != domain@,
        decreases old@.len() - i,
    {
        assert(ov[i as int] == old@[i as int]@);
        if old[i].domain == *domain {
            assert(ov[i as int].domain == domain@);
            found = true;
            if deleted(old, new, i) {
                return false;
            }
        }
        i += 1;
    }
    found
}

fn keeps_ip(old: &Vec<KetServer>, new: &Vec<KetServer>, ip: crate::types::Ip) -> (r: bool)
    ensures
        r == ip_kept(server_views(old@), server_views(new@), ip),
{
    let ghost ov = server_views(old@);
    let ghost nv = server_views(new@);
    let mut found = false;
    let mut i: usize = 0;
    while i < old.len()
        invariant
            i <= old@.len(),
            ov == server_views(old@),
            nv == server_views(new@),
            found <==> exists|j: int| 0 <= j < i && #[trigger] ov[j].ip.ip == ip,
            forall|j: int| 0 <= j < i && #[trigger] is_deleted(ov, nv, j) ==> ov[j].ip.ip != ip,
        decreases old@.len() - i,
    {
        assert(ov[i as int] == old@[i as int]@);
        if old[i].ip.ip == ip {
            assert(ov[i as int].ip.ip == ip);
            found = true;
            if deleted(old, new, i) {
                return false;
            }
        }
        i += 1;
    }
    found
}

fn takes_domain(old: &Vec<KetServer>, new: &Vec<KetServer>, i: usize) -> (r: bool)
    requires
        i < new@.len(),
    ensures
        r == domain_taken(server_views(old@), server_views(new@), i as int),
{
    let ghost ov = server_views(old@);
    let ghost nv = server_views(new@);
    assert(nv[i as int] == new@[i as int]@);
    if keeps_domain(old, new, &new[i].domain) {
        return true;
    }
    let mut j: usize = 0;
    while j < i
        invariant
            j <= i < new@.len(),
            ov == server_views(old@),
            nv == server_views(new@),
            nv[i as int] == new@[i as int]@,
            forall|k: int|
                0 <= k < j && #[trigger] is_added(ov, nv, k) ==> nv[k].domain != nv[i as int].domain,
        decreases i - j,
    {
        assert(nv[j as int] == new@[j as int]@);
        if new[j].domain == new[i].domain && added(old, new, j) {
            assert(is_added(ov, nv, j as int));
            return true;
        }
        j += 1;
    }
    false
}

fn takes_ip(old: &Vec<KetServer>, new: &Vec<KetServer>, i: usize) -> (r: bool)
    requires
        i < new@.len(),
    ensures
        r == ip_taken(server_views(old@), server_views(new@), i as int),
{
    let ghost ov = server_views(old@);
    let ghost nv = server_views(new@);
    assert(nv[i as int] == new@[i as int]@);
    if keeps_ip(old, new, new[i].ip.ip) {
        return true;
    }
    let mut j: usize = 0;
    while j < i
        invariant
            j <= i < new@.len(),
            ov == server_views(old@),
            nv == server_views(new@),
            nv[i as int] == new@[i as int]@,
            forall|k: int|
                0 <= k < j && #[trigger] is_added(ov, nv, k) ==> nv[k].ip.ip != nv[i as int].ip.ip,
        decreases i - j,
    {
        assert(nv[j as int] == new@[j as int]@);
        if new[j].ip.ip == new[i].ip.ip && added(old, new, j) {
            assert(is_added(ov, nv, j as int));
            return true;
        }
        j += 1;
    }
    false
}

/// One of the first `i` servers of the old cloud is deleted and has the name.
spec fn deleted_below(old: Seq<ServerView>, new: Seq<ServerView>, i: int, name: Seq<char>) -> bool {
    exists|j: int| 0 <= j < i && #[trigger] is_deleted(old, new, j) && old[j].name == name
}

/// The servers of the old cloud that the new one deletes, by their names.
pub fn deleted_servers(old: &Cloud, new: &Cloud) -> (r: Vec<String>)
    ensures
        forall|name: Seq<char>|
            #![trigger crate::text::texts(r@).contains(name)]
            crate::text::texts(r@).contains(name) <==> has_server(old@.servers, name) && !has_server(
                new@.servers,
                name,
            ),
        crate::text::texts(r@).no_duplicates(),
{
    let ghost ov = old@.servers;
    let ghost nv = new@.servers;
    let mut r: Vec<String> = Vec::new();
    let mut i: usize = 0;
    while i < old.servers.len()
        invariant
            i <= old.servers@.len(),
            ov == old@.servers,
            nv == new@.servers,
            forall|m: int| 0 <= m < r@.len() ==> deleted_below(ov, nv, i as int, #[trigger] r@[m]@),
            forall|j: int|
                0 <= j < i && #[trigger] is_deleted(ov, nv, j) ==> exists|m: int|
                    0 <= m < r@.len() && #[trigger] r@[m]@ == ov[j].name,
            forall|m: int, n: int| 0 <= m < n < r@.len() ==> #[trigger] r@[m]@ != #[trigger] r@[n]@,
        decreases old.servers@.len() - i,
    {
        assert(ov[i as int] == old.servers@[i as int]@);
        let ghost before = r@;
        if deleted(&old.servers, &new.servers, i) {
            let name = old.servers[i].name.clone();
            r.push(name);
            assert forall|m: int| 0 <= m < before.len() implies #[trigger] r@[m]@ != name@ by {
                assert(before[m] == r@[m]);
                let j = choose|j: int|
                    0 <= j < i && #[trigger] is_deleted(ov, nv, j) && ov[j].name == before[m]@;
                assert(is_deleted(ov, nv, j));
                assert(is_deleted(ov, nv, i as int));
            }
            assert forall|j: int| 0 <= j < i + 1 && #[trigger] is_deleted(ov, nv, j) implies exists|
                m: int,
            |
                0 <= m < r@.len() && #[trigger] r@[m]@ == ov[j].name by {
                if j < i {
                    let m = choose|m: int|
                        0 <= m < before.len() && #[trigger] before[m]@ == ov[j].name;
                    assert(r@[m]@ == ov[j].name);
                } else {
                    assert(r@[before.len() as int]@ == ov[j].name);
                }
            }
        }
        assert forall|m: int| 0 <= m < r@.len() implies deleted_below(
            ov,
            nv,
            i + 1,
            #[trigger] r@[m]@,
        ) by {
            if m < before.len() {
                assert(before[m] == r@[m]);
                let j = choose|j: int|
                    0 <= j < i && #[trigger] is_deleted(ov, nv, j) && ov[j].name == before[m]@;
                assert(is_deleted(ov, nv, j));
            } else {
                assert(is_deleted(ov, nv, i as int));
            }
        }
        i += 1;
    }
    proof {
        let ts = crate::text::texts(r@);
        assert forall|name: Seq<char>| #![trigger ts.contains(name)] ts.contains(name) <==> has_server(ov, name) && !has_server(nv, name) by {
            if ts.contains(name) {
                let m = choose|m: int| 0 <= m < ts.len() && ts[m] == name;
                assert(r@[m]@ == name);
                let j = choose|j: int|
                    0 <= j < i && #[trigger] is_deleted(ov, nv, j) && ov[j].name == r@[m]@;
                assert(is_deleted(ov, nv, j));
                assert(ov[j].name == name);
            }
            if has_server(ov, name) && !has_server(nv, name) {
                lemma_server_index(ov, name);
                let j = server_index(ov, name);
                assert(is_deleted(ov, nv, j));
                let m = choose|m: int| 0 <= m < r@.len() && #[trigger] r@[m]@ == ov[j].name;
                assert(ts[m] == name);
            }
        }
        assert forall|m: int, n: int| 0 <= m < ts.len() && 0 <= n < ts.len() && m != n implies ts[m] != ts[n] by {
            assert(ts[m] == r@[m]@ && ts[n] == r@[n]@);
        }
    }
    r
}

/// The server at a place of the new cloud, as it stands in the merged one.
fn merge_at(old: &Cloud, new: &Cloud, mode: &ReconMode, i: usize) -> (r: Result<KetServer, String>)
    requires
        i < new.servers@.len(),
    ensures
        match r {
            Ok(s) => merged_at(old@, new@, *mode, i as int) == Ok::<ServerView, Seq<char>>(s@),
            Err(e) => merged_at(old@, new@, *mode, i as int) == Err::<ServerView, Seq<char>>(e@),
        },
{
    let server = &new.servers[i];
    assert(new@.servers[i as int] == server@);
    match find_server(&old.servers, server.name.as_str()) {
        None => {
            if takes_domain(&old.servers, &new.servers, i) {
                let mut e = "[ ".to_owned();
                e.append(mode.name());
                e.append(" ] The new server '");
                e.append(server.name.as_str());
                e.append("' has the same domain used in the current cloud.");
                return Err(e);
            }
            if takes_ip(&old.servers, &new.servers, i) {
                let mut e = "[ ".to_owned();
                e.append(mode.name());
                e.append(" ] The new server '");
                e.append(server.name.as_str());
                e.append("' uses an existing IP in the cloud.");
                return Err(e);
            }
            Ok(server.clone())
        },
        Some(j) => {
            assert(old@.servers[j as int] == old.servers@[j as int]@);
            match mode {
                ReconMode::Reload => reload_merge(
                    &old.servers[j],
                    server,
                    &new.settings.inbound_set,
                ),
                ReconMode::Remap => Ok(remap_merge(&old.servers[j], server)),
                ReconMode::Rebase => rebase_merge(&old.servers[j], server),
            }
        },
    }
}

/// Reconciles the old cloud with the new declaration.
pub fn reconcile_cloud(old: &Cloud, new: &Cloud, mode: &ReconMode) -> (r: Result<
    Reconciled,
    String,
>)
    ensures
        match r {
            Ok(x) => reconciled(old@, new@, *mode) == Ok::<CloudView, Seq<char>>(x.cloud@)
                && pair_views(x.to_rebase@) == rebase_pairs(old@, new@, *mode) && forall|i: int|
                0 <= i < x.to_rebase@.len() ==> (#[trigger] x.to_rebase@[i]).0 < old.servers@.len()
                    && x.to_rebase@[i].1 < x.cloud.servers@.len(),
            Err(e) => reconciled(old@, new@, *mode) == Err::<CloudView, Seq<char>>(e@),
        },
{
    if old.servers.len() == 0 {
        let to_rebase: Vec<(usize, usize)> = Vec::new();
        assert(pair_views(to_rebase@) =~= Seq::empty());
        return Ok(Reconciled { cloud: new.clone(), to_rebase });
    }
    let mut servers: Vec<KetServer> = Vec::new();
    let mut to_rebase: Vec<(usize, usize)> = Vec::new();
    assert(server_views(servers@) =~= Seq::empty());
    assert(pair_views(to_rebase@) =~= Seq::empty());
    let mut i: usize = 0;
    while i < new.servers.len()
        invariant
            i <= new.servers@.len(),
            old.servers@.len() > 0,
            servers@.len() <= i,
            merged_upto(old@, new@, *mode, i as int) == Ok::<Seq<ServerView>, Seq<char>>(
                server_views(servers@),
            ),
            pair_views(to_rebase@) == pairs_upto(old@, new@, *mode, i as int),
            forall|k: int|
                0 <= k < to_rebase@.len() ==> (#[trigger] to_rebase@[k]).0 < old.servers@.len()
                    && to_rebase@[k].1 < servers@.len(),
        decreases new.servers@.len() - i,
    {
        assert(new@.servers[i as int] == new.servers@[i as int]@);
        if entry(&new.servers, i) {
            match merge_at(old, new, mode, i) {
                Err(e) => {
                    proof {
                        lemma_error_stays(
                            old@,
                            new@,
                            *mode,
                            i + 1,
                            new@.servers.len() as int,
                        );
                    }
                    return Err(e);
                },
                Ok(s) => {
                    let place = servers.len();
                    let ghost merged_before = servers@;
                    servers.push(s);
                    assert(server_views(servers@) =~= server_views(merged_before).push(s@));
                    let rebase = *mode == ReconMode::Rebase;
                    if rebase && new.servers[i].state.load() == ServerState::Production {
                        if let Some(j) = find_server(&old.servers, new.servers[i].name.as_str()) {
                            let ghost before = to_rebase@;
                            to_rebase.push((j, place));
                            assert(pair_views(to_rebase@) =~= pair_views(before).push(
                                (j as int, place as int),
                            ));
                        }
                    }
                },
            }
        }
        i += 1;
    }
    Ok(Reconciled { cloud: Cloud { servers, settings: new.settings.clone() }, to_rebase })
}

/// What is said of a server whose inbounds the new set lacks names the server and lists its
/// inbounds: each name with its port, once, and without that of the supervisor.
pub proof fn law_uncovered_inbounds_are_told(old: ServerView, s: Seq<InboundView>, x: InboundView)
    ensures
        uncovered_text(old) == "[ Reload ] The existing server '"@ + old.name
            + "' has inbound names that are not defined in the new cloud inbound-set. You must add the missing ones. The server's inbounds: {"@
            + inbound_list(old.inbounds, old.inbounds.len() as int) + "}"@,
        inbound_list(Seq::empty(), 0) == Seq::<char>::empty(),
        ({
            let a = inbound_list(s, s.len() as int);
            let b = inbound_list(s.push(x), (s.len() + 1) as int);
            let known = exists|j: int|
                0 <= j < s.len() && #[trigger] s[j].name == x.name && s[j].port == x.port;
            let entry = "("@ + debug_text(x.name) + ", "@ + crate::text::decimal(x.port as nat)
                + ")"@;
            &&& x.name == "super"@ || known ==> b == a
            &&& x.name != "super"@ && !known && a.len() == 0 ==> b == entry
            &&& x.name != "super"@ && !known && a.len() > 0 ==> b == a + ", "@ + entry
        }),
{
    let n = s.len() as int;
    let t = s.push(x);
    lemma_list_prefix(t, s, n);
    let a = inbound_list(s, n);
    assert(t[n] == x);
    let known = exists|j: int|
        0 <= j < s.len() && #[trigger] s[j].name == x.name && s[j].port == x.port;
    if known {
        let j = choose|j: int|
            0 <= j < s.len() && #[trigger] s[j].name == x.name && s[j].port == x.port;
        assert(t[j].name == t[n].name);
    }
    if pair_before(t, n) {
        let j = choose|j: int|
            0 <= j < n && #[trigger] t[j].name == t[n].name && t[j].port == t[n].port;
        assert(s[j].name == x.name);
    }
    let entry = "("@ + debug_text(x.name) + ", "@ + crate::text::decimal(x.port as nat) + ")"@;
    if x.name != super_text() && !known {
        let sep = if a.len() == 0 {
            a
        } else {
            a + ", "@
        };
        assert(inbound_list(t, n + 1) == sep + "("@ + debug_text(x.name) + ", "@
            + crate::text::decimal(x.port as nat) + ")"@);
        if a.len() == 0 {
            assert(inbound_list(t, n + 1) =~= entry);
        } else {
            assert(inbound_list(t, n + 1) =~= a + ", "@ + entry);
        }
    }
}

proof fn lemma_list_prefix(a: Seq<InboundView>, b: Seq<InboundView>, k: int)
    requires
        k <= a.len(),
        k <= b.len(),
        forall|i: int| 0 <= i < k ==> #[trigger] a[i] == b[i],
    ensures
        inbound_list(a, k) == inbound_list(b, k),
    decreases k,
{
    if k > 0 {
        lemma_list_prefix(a, b, k - 1);
        assert(a[k - 1] == b[k - 1]);
        if pair_before(a, k - 1) {
            let j = choose|j: int|
                0 <= j < k - 1 && #[trigger] a[j].name == a[k - 1].name && a[j].port == a[k
                    - 1].port;
            assert(b[j].name == b[k - 1].name);
        }
        if pair_before(b, k - 1) {
            let j = choose|j: int|
                0 <= j < k - 1 && #[trigger] b[j].name == b[k - 1].name && b[j].port == b[k
                    - 1].port;
            assert(a[j].name == a[k - 1].name);
        }
    }
}

} // verus!
