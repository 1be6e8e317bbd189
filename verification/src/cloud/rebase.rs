//! What a Rebase has to do on the remote servers: the inbounds that come and
//! go, the host names that are given up, and the Ansible actions that follow.

use vstd::prelude::*;

use crate::ansible::{
    action_id, all_actions, in_priority_order, lemma_all_by_id, lemma_id_determines, AnsibleAction, AnsibleConn, AnsibleConnView,
};
use crate::cli::RebaseOpts;
use crate::cloud::server::{dns_host, sub_host, ui_host};
use crate::strmap::StrMap;
use crate::text::opt_text;
use crate::types::{
    inbound_views, is_tls, server_views, Cloud, CloudView, Inbound, InboundKind, InboundView, KetServer,
    ServerView,
};

verus! {

/// The host names that a server gives up, with their zone. A name that stays is
/// absent.
pub struct RebaseDomain {
    pub zone: Option<String>,
    pub dns: Option<String>,
    pub ui: Option<String>,
    pub sub: Option<String>,
}

/// What changes on a server in a Rebase.
pub struct RebaseData {
    pub added_inbounds: Vec<Inbound>,
    pub removed_inbounds: Vec<Inbound>,
    pub rebase_domain: RebaseDomain,
}

#[verifier::ext_equal]
pub struct RebaseDomainView {
    pub zone: Option<Seq<char>>,
    pub dns: Option<Seq<char>>,
    pub ui: Option<Seq<char>>,
    pub sub: Option<Seq<char>>,
}

#[verifier::ext_equal]
pub struct RebaseDataView {
    pub added_inbounds: Seq<InboundView>,
    pub removed_inbounds: Seq<InboundView>,
    pub rebase_domain: RebaseDomainView,
}

impl View for RebaseDomain {
    type V = RebaseDomainView;

    open spec fn view(&self) -> RebaseDomainView {
        RebaseDomainView {
            zone: opt_text(self.zone),
            dns: opt_text(self.dns),
            ui: opt_text(self.ui),
            sub: opt_text(self.sub),
        }
    }
}

impl View for RebaseData {
    type V = RebaseDataView;

    open spec fn view(&self) -> RebaseDataView {
        RebaseDataView {
            added_inbounds: inbound_views(self.added_inbounds@),
            removed_inbounds: inbound_views(self.removed_inbounds@),
            rebase_domain: self.rebase_domain@,
        }
    }
}

/// The views of a map of rebase data.
pub open spec fn data_map(m: Map<Seq<char>, RebaseData>) -> Map<Seq<char>, RebaseDataView> {
    m.map_values(|d: RebaseData| d@)
}

impl Clone for RebaseDomain {
    fn clone(&self) -> (r: Self)
        ensures
            r@ == self@,
    {
        RebaseDomain {
            zone: self.zone.clone(),
            dns: self.dns.clone(),
            ui: self.ui.clone(),
            sub: self.sub.clone(),
        }
    }
}

impl Clone for RebaseData {
    fn clone(&self) -> (r: Self)
        ensures
            r@ == self@,
    {
        RebaseData {
            added_inbounds: crate::types::clone_inbounds(&self.added_inbounds),
            removed_inbounds: crate::types::clone_inbounds(&self.removed_inbounds),
            rebase_domain: self.rebase_domain.clone(),
        }
    }
}

// ---------------------------------------------------------------- inbounds

/// An inbound with the name is in the list.
pub open spec fn has_inbound(s: Seq<InboundView>, name: Seq<char>) -> bool {
    exists|i: int| 0 <= i < s.len() && #[trigger] s[i].name == name
}

/// The position of the first inbound with the name.
pub open spec fn inbound_index(s: Seq<InboundView>, name: Seq<char>) -> int
    decreases s.len(),
{
    if s.len() == 0 {
        0
    } else if s[0].name == name {
        0
    } else {
        1 + inbound_index(s.skip(1), name)
    }
}

/// No earlier inbound has the name of this one.
pub open spec fn is_first(s: Seq<InboundView>, i: int) -> bool {
    forall|j: int| 0 <= j < i ==> #[trigger] s[j].name != s[i].name
}

/// The first inbound with a name is the one that no earlier one precedes.
pub proof fn lemma_inbound_index_is(s: Seq<InboundView>, name: Seq<char>, i: int)
    requires
        0 <= i < s.len(),
        s[i].name == name,
        forall|j: int| 0 <= j < i ==> #[trigger] s[j].name != name,
    ensures
        has_inbound(s, name),
        inbound_index(s, name) == i,
    decreases s.len(),
{
    if s[0].name != name {
        let t = s.skip(1);
        assert forall|j: int| 0 <= j < i - 1 implies #[trigger] t[j].name != name by {
            assert(t[j] == s[j + 1]);
        }
        lemma_inbound_index_is(t, name, i - 1);
    }
}

/// The first inbound with the name.
pub fn find_inbound(s: &Vec<Inbound>, name: &String) -> (r: Option<usize>)
    ensures
        match r {
            Some(i) => has_inbound(inbound_views(s@), name@) && i < s@.len() && i == inbound_index(
                inbound_views(s@),
                name@,
            ),
            None => !has_inbound(inbound_views(s@), name@),
        },
{
    let ghost views = inbound_views(s@);
    let mut i: usize = 0;
    while i < s.len()
        invariant
            i <= s@.len(),
            views == inbound_views(s@),
            forall|j: int| 0 <= j < i ==> #[trigger] views[j].name != name@,
        decreases s@.len() - i,
    {
        assert(views[i as int] == s@[i as int]@);
        if s[i].name == *name {
            proof {
                lemma_inbound_index_is(views, name@, i as int);
            }
            return Some(i);
        }
        i += 1;
    }
    None
}

fn first(s: &Vec<Inbound>, i: usize) -> (r: bool)
    requires
        i < s@.len(),
    ensures
        r == is_first(inbound_views(s@), i as int),
{
    let ghost views = inbound_views(s@);
    assert(views[i as int] == s@[i as int]@);
    let mut j: usize = 0;
    while j < i
        invariant
            j <= i < s@.len(),
            views == inbound_views(s@),
            views[i as int] == s@[i as int]@,
            forall|k: int| 0 <= k < j ==> #[trigger] views[k].name != views[i as int].name,
        decreases i - j,
    {
        assert(views[j as int] == s@[j as int]@);
        if s[j].name == s[i].name {
            assert(views[j as int].name == views[i as int].name);
            return false;
        }
        j += 1;
    }
    true
}

/// The first `k` inbounds of `s` that `other` has none of the same name of.
pub open spec fn only_in(s: Seq<InboundView>, other: Seq<InboundView>, k: int) -> Seq<InboundView>
    decreases k,
{
    if k <= 0 {
        Seq::empty()
    } else if is_first(s, k - 1) && !has_inbound(other, s[k - 1].name) {
        only_in(s, other, k - 1).push(s[k - 1])
    } else {
        only_in(s, other, k - 1)
    }
}

/// The inbounds that the new declaration of a server adds.
pub open spec fn added_inbounds(curr: ServerView, new: ServerView) -> Seq<InboundView> {
    only_in(new.inbounds, curr.inbounds, new.inbounds.len() as int)
}

/// The inbounds that the new declaration of a server removes.
pub open spec fn removed_inbounds(curr: ServerView, new: ServerView) -> Seq<InboundView> {
    only_in(curr.inbounds, new.inbounds, curr.inbounds.len() as int)
}

fn collect_only_in(s: &Vec<Inbound>, other: &Vec<Inbound>) -> (r: Vec<Inbound>)
    ensures
        inbound_views(r@) == only_in(inbound_views(s@), inbound_views(other@), s@.len() as int),
{
    let ghost sv = inbound_views(s@);
    let ghost ov = inbound_views(other@);
    let mut r: Vec<Inbound> = Vec::new();
    assert(inbound_views(r@) =~= Seq::empty());
    let mut i: usize = 0;
    while i < s.len()
        invariant
            i <= s@.len(),
            sv == inbound_views(s@),
            ov == inbound_views(other@),
            inbound_views(r@) == only_in(sv, ov, i as int),
        decreases s@.len() - i,
    {
        assert(sv[i as int] == s@[i as int]@);
        if first(s, i) && find_inbound(other, &s[i].name).is_none() {
            let ghost before = r@;
            r.push(s[i].clone());
            assert(inbound_views(r@) =~= inbound_views(before).push(sv[i as int]));
        }
        i += 1;
    }
    r
}

pub open spec fn tls_fault_text(inbound: Seq<char>, server: Seq<char>) -> Seq<char> {
    "Inbound '"@ + inbound + "' in server '"@ + server
        + "' is of TLS kind. Servers with TLS inbounds cannot change their domain or subscription subdomain, because their TLS inbounds will have to change, too."@
}

pub open spec fn modified_text(server: Seq<char>, inbound: Seq<char>) -> Seq<char> {
    "Inbounds are immutable, but server '"@ + server + "' has modified its '"@ + inbound
        + "' inbound in the new cloud. Rebase will not be performed."@
}

pub open spec fn deletion_text(server: Seq<char>) -> Seq<char> {
    "Inbound deletion detected for server '"@ + server
        + "'. Rebase must be invoked with forced (-f) flag if you really intend to delete an inbound."@
}

/// What forbids a Rebase in the declared inbound at this place: it exists and
/// was modified, or it is of a TLS kind and the subscription host changes.
pub open spec fn declared_fault(curr: ServerView, new: ServerView, i: int) -> Option<Seq<char>> {
    let n = new.inbounds[i];
    if is_first(new.inbounds, i) && has_inbound(curr.inbounds, n.name) {
        let c = curr.inbounds[inbound_index(curr.inbounds, n.name)];
        if c != n {
            Some(modified_text(new.name, n.name))
        } else if is_tls(c.kind) && sub_host(curr) != sub_host(new) {
            Some(tls_fault_text(c.name, curr.name))
        } else {
            None
        }
    } else {
        None
    }
}

/// The first fault among the declared inbounds from this place on.
pub open spec fn declared_fault_from(curr: ServerView, new: ServerView, i: int) -> Option<Seq<char>>
    decreases new.inbounds.len() - i,
{
    if i >= new.inbounds.len() {
        None
    } else {
        match declared_fault(curr, new, i) {
            Some(e) => Some(e),
            None => declared_fault_from(curr, new, i + 1),
        }
    }
}

/// What forbids a Rebase in the inbounds of a server: a modified inbound, a TLS
/// inbound whose host changes, or a removal that is not forced.
pub open spec fn inbound_fault(curr: ServerView, new: ServerView, forced: bool) -> Option<Seq<char>> {
    match declared_fault_from(curr, new, 0) {
        Some(e) => Some(e),
        None => if !forced && removed_inbounds(curr, new).len() > 0 {
            Some(deletion_text(new.name))
        } else {
            None
        },
    }
}

fn check_inbounds(curr: &KetServer, new: &KetServer, forced: bool) -> (r: Option<String>)
    ensures
        opt_text(r) == inbound_fault(curr@, new@, forced),
{
    let ghost cv = curr@;
    let ghost nv = new@;
    let mut i: usize = 0;
    while i < new.inbounds.len()
        invariant
            i <= new.inbounds@.len(),
            cv == curr@,
            nv == new@,
            declared_fault_from(cv, nv, 0) == declared_fault_from(cv, nv, i as int),
        decreases new.inbounds@.len() - i,
    {
        let n = &new.inbounds[i];
        assert(nv.inbounds[i as int] == n@);
        if first(&new.inbounds, i) {
            if let Some(j) = find_inbound(&curr.inbounds, &n.name) {
                let c = &curr.inbounds[j];
                assert(cv.inbounds[j as int] == c@);
                if !(*c == *n) {
                    let mut e = "Inbounds are immutable, but server '".to_owned();
                    e.append(new.name.as_str());
                    e.append("' has modified its '");
                    e.append(n.name.as_str());
                    e.append("' inbound in the new cloud. Rebase will not be performed.");
                    return Some(e);
                }
                if c.kind.cloudflare_compatible() && curr.subhostname() != new.subhostname() {
                    let mut e = "Inbound '".to_owned();
                    e.append(c.name.as_str());
                    e.append("' in server '");
                    e.append(curr.name.as_str());
                    e.append(
                        "' is of TLS kind. Servers with TLS inbounds cannot change their domain or subscription subdomain, because their TLS inbounds will have to change, too.",
                    );
                    return Some(e);
                }
            }
        }
        i += 1;
    }
    let removed = collect_only_in(&curr.inbounds, &new.inbounds);
    assert(inbound_views(removed@) == removed_inbounds(cv, nv));
    if !forced && removed.len() > 0 {
        let mut e = "Inbound deletion detected for server '".to_owned();
        e.append(new.name.as_str());
        e.append(
            "'. Rebase must be invoked with forced (-f) flag if you really intend to delete an inbound.",
        );
        return Some(e);
    }
    None
}

// ---------------------------------------------------------------- domains

/// The host names that the server gives up: that of a changed subdomain, and
/// all of them where the domain changes.
pub open spec fn given_up(curr: ServerView, new: ServerView) -> RebaseDomainView {
    let moved = new.domain != curr.domain;
    let dns = moved || new.dns_subdomain != curr.dns_subdomain;
    let ui = moved || new.ui_subdomain != curr.ui_subdomain;
    let sub = moved || new.sub_subdomain != curr.sub_subdomain;
    RebaseDomainView {
        zone: if dns || ui || sub {
            match curr.cfstate {
                Some(c) => Some(c.zone_name),
                None => None,
            }
        } else {
            None
        },
        dns: if dns {
            Some(dns_host(curr))
        } else {
            None
        },
        ui: if ui {
            Some(ui_host(curr))
        } else {
            None
        },
        sub: if sub {
            Some(sub_host(curr))
        } else {
            None
        },
    }
}

/// The host names of the server change while its Cloudflare state is unknown.
pub open spec fn zone_unknown(curr: ServerView, new: ServerView) -> bool {
    let g = given_up(curr, new);
    curr.cfstate is None && (g.dns is Some || g.ui is Some || g.sub is Some)
}

/// What a Rebase changes on a server that both clouds have, or what forbids it.
pub open spec fn pair_data(curr: ServerView, new: ServerView, forced: bool) -> Result<
    RebaseDataView,
    Seq<char>,
> {
    match inbound_fault(curr, new, forced) {
        Some(e) => Err(e),
        None => if zone_unknown(curr, new) {
            Err("Couldn't get CFState in create_rebase_data"@)
        } else {
            Ok(
                RebaseDataView {
                    added_inbounds: added_inbounds(curr, new),
                    removed_inbounds: removed_inbounds(curr, new),
                    rebase_domain: given_up(curr, new),
                },
            )
        },
    }
}

/// Nothing to reconcile: the data of a server that only the new cloud has.
pub open spec fn no_data() -> RebaseDataView {
    RebaseDataView {
        added_inbounds: Seq::empty(),
        removed_inbounds: Seq::empty(),
        rebase_domain: RebaseDomainView { zone: None, dns: None, ui: None, sub: None },
    }
}

/// The data of a server of both clouds, or what forbids a Rebase of it.
fn compare_servers(curr: &KetServer, new: &KetServer, forced: bool) -> (r: Result<
    RebaseData,
    String,
>)
    ensures
        match r {
            Ok(d) => pair_data(curr@, new@, forced) == Ok::<RebaseDataView, Seq<char>>(d@),
            Err(e) => pair_data(curr@, new@, forced) == Err::<RebaseDataView, Seq<char>>(e@),
        },
{
    if let Some(e) = check_inbounds(curr, new, forced) {
        return Err(e);
    }
    let moved = new.domain != curr.domain;
    let mut dns: Option<String> = None;
    let mut ui: Option<String> = None;
    let mut sub: Option<String> = None;
    if moved || new.dns_subdomain != curr.dns_subdomain {
        dns = Some(curr.dnshostname());
    }
    if moved || new.ui_subdomain != curr.ui_subdomain {
        ui = Some(curr.uihostname());
    }
    if moved || new.sub_subdomain != curr.sub_subdomain {
        sub = Some(curr.subhostname());
    }
    let zone: Option<String> = if dns.is_none() && ui.is_none() && sub.is_none() {
        None
    } else {
        match &curr.cfstate {
            Some(c) => Some(c.zone_name.clone()),
            None => return Err("Couldn't get CFState in create_rebase_data".to_owned()),
        }
    };
    Ok(
        RebaseData {
            added_inbounds: collect_only_in(&new.inbounds, &curr.inbounds),
            removed_inbounds: collect_only_in(&curr.inbounds, &new.inbounds),
            rebase_domain: RebaseDomain { zone, dns, ui, sub },
        },
    )
}

// ---------------------------------------------------------------- all servers

/// The position of the first server with the name.
pub open spec fn first_server(servers: Seq<ServerView>, name: Seq<char>) -> int
    decreases servers.len(),
{
    if servers.len() == 0 {
        0
    } else if servers[0].name == name {
        0
    } else {
        1 + first_server(servers.skip(1), name)
    }
}

/// The first server with a name is the one that no earlier one precedes.
pub proof fn lemma_first_server_is(s: Seq<ServerView>, name: Seq<char>, i: int)
    requires
        0 <= i < s.len(),
        s[i].name == name,
        forall|j: int| 0 <= j < i ==> #[trigger] s[j].name != name,
    ensures
        crate::cloud::reconcile::has_server(s, name),
        first_server(s, name) == i,
    decreases s.len(),
{
    if s[0].name != name {
        let t = s.skip(1);
        assert forall|j: int| 0 <= j < i - 1 implies #[trigger] t[j].name != name by {
            assert(t[j] == s[j + 1]);
        }
        lemma_first_server_is(t, name, i - 1);
    }
}

/// Where the first server with a name stands.
pub proof fn lemma_first_server(s: Seq<ServerView>, name: Seq<char>)
    requires
        crate::cloud::reconcile::has_server(s, name),
    ensures
        0 <= first_server(s, name) < s.len(),
        s[first_server(s, name)].name == name,
    decreases s.len(),
{
    if s[0].name != name {
        let t = s.skip(1);
        let i = choose|i: int| 0 <= i < s.len() && #[trigger] s[i].name == name;
        assert(t[i - 1].name == name);
        lemma_first_server(t, name);
    }
}

/// The first server with the name.
pub fn find_first_server(servers: &Vec<KetServer>, name: &String) -> (r: Option<usize>)
    ensures
        match r {
            Some(i) => crate::cloud::reconcile::has_server(server_views(servers@), name@) && i
                < servers@.len() && i == first_server(server_views(servers@), name@),
            None => !crate::cloud::reconcile::has_server(server_views(servers@), name@),
        },
{
    let ghost views = server_views(servers@);
    let mut i: usize = 0;
    while i < servers.len()
        invariant
            i <= servers@.len(),
            views == server_views(servers@),
            forall|j: int| 0 <= j < i ==> #[trigger] views[j].name != name@,
        decreases servers@.len() - i,
    {
        assert(views[i as int] == servers@[i as int]@);
        if servers[i].name == *name {
            proof {
                lemma_first_server_is(views, name@, i as int);
            }
            return Some(i);
        }
        i += 1;
    }
    None
}

/// The data of the new server at this place, or what forbids a Rebase of it.
pub open spec fn data_at(curr: CloudView, new: CloudView, forced: bool, i: int) -> Result<
    RebaseDataView,
    Seq<char>,
> {
    let n = new.servers[i];
    if crate::cloud::reconcile::has_server(curr.servers, n.name) {
        pair_data(curr.servers[first_server(curr.servers, n.name)], n, forced)
    } else {
        Ok(no_data())
    }
}

/// The data of the first `k` servers of the new cloud by their names, or the
/// first thing among them that forbids a Rebase. Of two servers with the same
/// name the first one counts.
pub open spec fn data_upto(curr: CloudView, new: CloudView, forced: bool, k: int) -> Result<
    Map<Seq<char>, RebaseDataView>,
    Seq<char>,
>
    decreases k,
{
    if k <= 0 {
        Ok(Map::empty())
    } else {
        match data_upto(curr, new, forced, k - 1) {
            Err(e) => Err(e),
            Ok(m) => if m.dom().contains(new.servers[k - 1].name) {
                Ok(m)
            } else {
                match data_at(curr, new, forced, k - 1) {
                    Err(e) => Err(e),
                    Ok(d) => Ok(m.insert(new.servers[k - 1].name, d)),
                }
            },
        }
    }
}

/// The data of all servers of the new cloud, or what forbids a Rebase.
pub open spec fn rebase_data(curr: CloudView, new: CloudView, forced: bool) -> Result<
    Map<Seq<char>, RebaseDataView>,
    Seq<char>,
> {
    data_upto(curr, new, forced, new.servers.len() as int)
}

proof fn lemma_data_error_stays(curr: CloudView, new: CloudView, forced: bool, k: int, n: int)
    requires
        0 <= k <= n,
        data_upto(curr, new, forced, k) is Err,
    ensures
        data_upto(curr, new, forced, n) == data_upto(curr, new, forced, k),
    decreases n,
{
    if k < n {
        lemma_data_error_stays(curr, new, forced, k, n - 1);
    }
}

/// Compares the running cloud with the new declaration, server by server.
pub fn create_rebase_data(curr_cloud: &Cloud, new_cloud: &Cloud, rebase_opts: &RebaseOpts) -> (r:
    Result<StrMap<RebaseData>, String>)
    ensures
        match r {
            Ok(m) => rebase_data(curr_cloud@, new_cloud@, rebase_opts.forced) == Ok::<
                Map<Seq<char>, RebaseDataView>,
                Seq<char>,
            >(data_map(m@)),
            Err(e) => rebase_data(curr_cloud@, new_cloud@, rebase_opts.forced) == Err::<
                Map<Seq<char>, RebaseDataView>,
                Seq<char>,
            >(e@),
        },
{
    let forced = rebase_opts.forced;
    let ghost cv = curr_cloud@;
    let ghost nv = new_cloud@;
    let mut m: StrMap<RebaseData> = StrMap::new();
    assert(data_map(m@) =~= Map::empty());
    let mut i: usize = 0;
    while i < new_cloud.servers.len()
        invariant
            i <= new_cloud.servers@.len(),
            cv == curr_cloud@,
            nv == new_cloud@,
            forced == rebase_opts.forced,
            data_upto(cv, nv, forced, i as int) == Ok::<Map<Seq<char>, RebaseDataView>, Seq<char>>(
                data_map(m@),
            ),
        decreases new_cloud.servers@.len() - i,
    {
        let n = &new_cloud.servers[i];
        assert(nv.servers[i as int] == n@);
        if m.get(n.name.as_str()).is_none() {
            let data: Result<RebaseData, String> = match find_first_server(
                &curr_cloud.servers,
                &n.name,
            ) {
                Some(j) => {
                    assert(cv.servers[j as int] == curr_cloud.servers@[j as int]@);
                    compare_servers(&curr_cloud.servers[j], n, forced)
                },
                None => {
                    let d = RebaseData {
                        added_inbounds: Vec::new(),
                        removed_inbounds: Vec::new(),
                        rebase_domain: RebaseDomain { zone: None, dns: None, ui: None, sub: None },
                    };
                    assert(d@ =~= no_data());
                    Ok(d)
                },
            };
            match data {
                Err(e) => {
                    proof {
                        lemma_data_error_stays(cv, nv, forced, i + 1, nv.servers.len() as int);
                    }
                    return Err(e);
                },
                Ok(d) => {
                    let ghost before = m@;
                    m.or_insert(n.name.clone(), d);
                    assert(data_map(m@) =~= data_map(before).insert(n@.name, d@));
                },
            }
        }
        i += 1;
    }
    Ok(m)
}

// ---------------------------------------------------------------- actions

/// The two lists hold the same texts, in whatever order and number.
pub open spec fn same_texts(a: Seq<Seq<char>>, b: Seq<Seq<char>>) -> bool {
    forall|t: Seq<char>| #![trigger a.contains(t)] #![trigger b.contains(t)] a.contains(t) <==> b.contains(t)
}

/// Where the proxying of a server changes: by its declaration, or because its
/// inbounds come to be, or cease to be, all reachable through Cloudflare.
pub open spec fn proxying_changes(old: ServerView, new: ServerView) -> bool {
    ||| old.cloudflare_proxied != new.cloudflare_proxied
    ||| old.cfstate->Some_0.cloudflare_only != new.cfstate->Some_0.cloudflare_only
}

/// The primary parameters of a server that change.
#[derive(Clone, Copy, Debug, PartialEq, Eq, Structural)]
pub struct Changes {
    pub ip: bool,
    pub domain: bool,
    pub dns: bool,
    pub ui: bool,
    pub sub: bool,
    pub ssh: bool,
    pub proxy: bool,
    pub block: bool,
    pub removal: bool,
    pub addition: bool,
}

pub open spec fn changes(
    old: ServerView,
    new: ServerView,
    data: Option<RebaseDataView>,
) -> Changes {
    Changes {
        ip: old.ip.ip != new.ip.ip,
        domain: old.domain != new.domain,
        dns: old.dns_subdomain != new.dns_subdomain,
        ui: old.ui_subdomain != new.ui_subdomain,
        sub: old.sub_subdomain != new.sub_subdomain,
        ssh: old.ssh_port != new.ssh_port,
        proxy: proxying_changes(old, new),
        block: !same_texts(old.outbound_block, new.outbound_block),
        removal: data is Some && data->Some_0.removed_inbounds.len() > 0,
        addition: data is Some && data->Some_0.added_inbounds.len() > 0,
    }
}

/// The changes which ask for an action.
pub open spec fn asks_for(c: Changes, a: AnsibleAction) -> bool {
    match a {
        AnsibleAction::PortsCheck => c.ssh || c.addition,
        AnsibleAction::DnsReset => c.domain || c.dns,
        AnsibleAction::CloudflareDel => c.domain || c.dns || c.ui || c.sub,
        AnsibleAction::Cloudflare => c.ip || c.domain || c.dns || c.ui || c.sub || c.proxy,
        AnsibleAction::Acme => c.domain,
        AnsibleAction::Nginx => c.domain || c.dns || c.ui || c.sub || c.proxy,
        AnsibleAction::DoH => c.domain || c.dns,
        AnsibleAction::OutblockedUpdate => c.block,
        AnsibleAction::XuiAuth => c.sub || c.removal || c.addition,
        AnsibleAction::DelInbound => c.removal,
        AnsibleAction::AddInbound => c.addition,
        AnsibleAction::PanelSettings => c.sub,
        AnsibleAction::Fail2ban => c.ssh || c.proxy,
        AnsibleAction::Firewall => c.proxy,
        AnsibleAction::SSH => c.ssh,
        _ => false,
    }
}

/// Whether the reconciliation of a server needs an action: the change of a
/// primary parameter asks for those that carry it out, and nothing else does. A
/// disabled server is skipped.
pub open spec fn needs_action(
    old: ServerView,
    new: ServerView,
    data: Option<RebaseDataView>,
    a: AnsibleAction,
) -> bool {
    new.enabled && asks_for(changes(old, new, data), a)
}

/// The list holds the actions that the reconciliation needs, each once, in
/// order of priority.
pub open spec fn is_plan(
    old: ServerView,
    new: ServerView,
    data: Option<RebaseDataView>,
    actions: Seq<AnsibleAction>,
) -> bool {
    &&& in_priority_order(actions)
    &&& forall|a: AnsibleAction|
        #[trigger] actions.contains(a) <==> needs_action(old, new, data, a)
}

pub open spec fn data_view(d: Option<RebaseData>) -> Option<RebaseDataView> {
    match d {
        Some(x) => Some(x@),
        None => None,
    }
}

fn has_text_in(v: &Vec<String>, t: &String) -> (r: bool)
    ensures
        r == crate::text::texts(v@).contains(t@),
{
    let ghost views = crate::text::texts(v@);
    let mut i: usize = 0;
    while i < v.len()
        invariant
            i <= v@.len(),
            views == crate::text::texts(v@),
            forall|j: int| 0 <= j < i ==> #[trigger] views[j] != t@,
        decreases v@.len() - i,
    {
        assert(views[i as int] == v@[i as int]@);
        if v[i] == *t {
            return true;
        }
        i += 1;
    }
    false
}

fn all_in(a: &Vec<String>, b: &Vec<String>) -> (r: bool)
    ensures
        r == forall|t: Seq<char>|
            #![trigger crate::text::texts(a@).contains(t)]
            crate::text::texts(a@).contains(t) ==> crate::text::texts(b@).contains(t),
{
    let ghost av = crate::text::texts(a@);
    let ghost bv = crate::text::texts(b@);
    let mut i: usize = 0;
    while i < a.len()
        invariant
            i <= a@.len(),
            av == crate::text::texts(a@),
            bv == crate::text::texts(b@),
            forall|j: int| 0 <= j < i ==> bv.contains(#[trigger] av[j]),
        decreases a@.len() - i,
    {
        assert(av[i as int] == a@[i as int]@);
        if !has_text_in(b, &a[i]) {
            assert(av.contains(av[i as int]));
            return false;
        }
        i += 1;
    }
    true
}

impl Changes {
    fn asks(&self, a: AnsibleAction) -> (r: bool)
        ensures
            r == asks_for(*self, a),
    {
        match a {
            AnsibleAction::PortsCheck => self.ssh || self.addition,
            AnsibleAction::DnsReset => self.domain || self.dns,
            AnsibleAction::CloudflareDel => self.domain || self.dns || self.ui || self.sub,
            AnsibleAction::Cloudflare => self.ip || self.domain || self.dns || self.ui || self.sub
                || self.proxy,
            AnsibleAction::Acme => self.domain,
            AnsibleAction::Nginx => self.domain || self.dns || self.ui || self.sub || self.proxy,
            AnsibleAction::DoH => self.domain || self.dns,
            AnsibleAction::OutblockedUpdate => self.block,
            AnsibleAction::XuiAuth => self.sub || self.removal || self.addition,
            AnsibleAction::DelInbound => self.removal,
            AnsibleAction::AddInbound => self.addition,
            AnsibleAction::PanelSettings => self.sub,
            AnsibleAction::Fail2ban => self.ssh || self.proxy,
            AnsibleAction::Firewall => self.proxy,
            AnsibleAction::SSH => self.ssh,
            _ => false,
        }
    }

    /// The actions that the changes ask for, in order of priority.
    fn actions(&self) -> (v: Vec<AnsibleAction>)
        ensures
            in_priority_order(v@),
            forall|a: AnsibleAction| #[trigger] v@.contains(a) <==> asks_for(*self, a),
    {
        let all = AnsibleAction::all();
        let mut v: Vec<AnsibleAction> = Vec::new();
        let mut i: usize = 0;
        while i < all.len()
            invariant
                i <= all@.len(),
                all@ == all_actions(),
                forall|a: AnsibleAction|
                    #[trigger] v@.contains(a) ==> asks_for(*self, a),
                forall|k: int|
                    0 <= k < i && asks_for(*self, #[trigger] all@[k]) ==> v@.contains(all@[k]),
            decreases all@.len() - i,
        {
            let ghost before = v@;
            if self.asks(all[i]) {
                v.push(all[i]);
                assert(v@[before.len() as int] == all@[i as int]);
                assert forall|a: AnsibleAction| before.contains(a) implies #[trigger] v@.contains(a) by {
                    let k = choose|k: int| 0 <= k < before.len() && before[k] == a;
                    assert(v@[k] == a);
                }
                assert forall|a: AnsibleAction| #[trigger] v@.contains(a) implies asks_for(*self, a) by {
                    let k = choose|k: int| 0 <= k < v@.len() && v@[k] == a;
                    if k < before.len() {
                        assert(before[k] == a);
                        assert(before.contains(a));
                    }
                }
            }
            i += 1;
        }
        let ghost wanted = v@;
        AnsibleAction::sort_unique(&mut v);
        proof {
            assert forall|a: AnsibleAction| #[trigger] v@.contains(a) <==> asks_for(*self, a) by {
                assert(v@.contains(a) <==> wanted.contains(a));
                lemma_all_by_id(action_id(a) as int);
                lemma_id_determines(a, all_actions()[action_id(a) as int]);
            }
        }
        v
    }
}

/// The actions that reconcile a remote server with its new declaration.
pub fn rebase_actions(
    old_server: &KetServer,
    new_server: &KetServer,
    rebase_data: Option<&RebaseData>,
) -> (r: Result<Vec<AnsibleAction>, String>)
    ensures
        r is Err <==> old_server@.cfstate is None || new_server@.cfstate is None,
        match r {
            Ok(actions) => is_plan(
                old_server@,
                new_server@,
                match rebase_data {
                    Some(d) => Some(d@),
                    None => None,
                },
                actions@,
            ),
            Err(e) => e@ == "Couldn't take a reference to the CFState struct."@,
        },
{
    let old_only = match &old_server.cfstate {
        Some(c) => c.cloudflare_only,
        None => return Err("Couldn't take a reference to the CFState struct.".to_owned()),
    };
    let new_only = match &new_server.cfstate {
        Some(c) => c.cloudflare_only,
        None => return Err("Couldn't take a reference to the CFState struct.".to_owned()),
    };
    if !new_server.enabled {
        return Ok(Vec::new());
    }
    let same_block = all_in(&old_server.outbound_block, &new_server.outbound_block) && all_in(
        &new_server.outbound_block,
        &old_server.outbound_block,
    );
    let (removal, addition) = match rebase_data {
        Some(data) => (data.removed_inbounds.len() > 0, data.added_inbounds.len() > 0),
        None => (false, false),
    };
    let c = Changes {
        ip: old_server.ip.ip != new_server.ip.ip,
        domain: old_server.domain != new_server.domain,
        dns: old_server.dns_subdomain != new_server.dns_subdomain,
        ui: old_server.ui_subdomain != new_server.ui_subdomain,
        sub: old_server.sub_subdomain != new_server.sub_subdomain,
        ssh: old_server.ssh_port != new_server.ssh_port,
        proxy: old_server.cloudflare_proxied != new_server.cloudflare_proxied || old_only
            != new_only,
        block: !same_block,
        removal,
        addition,
    };
    Ok(c.actions())
}

/// What is run for one pair of servers of a Rebase. Where no action is needed
/// the list is empty and nothing is run.
pub struct RebaseRun {
    /// The place of the server in the reconciled cloud.
    pub server: usize,
    pub actions: Vec<AnsibleAction>,
    pub rebase_data: Option<RebaseData>,
}

/// The data that belongs to a server of the old cloud.
pub open spec fn data_of(data: Map<Seq<char>, RebaseDataView>, name: Seq<char>) -> Option<
    RebaseDataView,
> {
    if data.dom().contains(name) {
        Some(data[name])
    } else {
        None
    }
}

/// The run is the one for this pair.
pub open spec fn run_fits(
    old: CloudView,
    merged: CloudView,
    pair: (usize, usize),
    data: Map<Seq<char>, RebaseDataView>,
    run: RebaseRun,
) -> bool {
    let o = old.servers[pair.0 as int];
    let n = merged.servers[pair.1 as int];
    let d = data_of(data, o.name);
    &&& run.server == pair.1
    &&& data_view(run.rebase_data) == d
    &&& is_plan(o, n, d, run.actions@)
}

/// Both servers of the pair have a Cloudflare state.
pub open spec fn states_known(old: CloudView, merged: CloudView, pair: (usize, usize)) -> bool {
    old.servers[pair.0 as int].cfstate is Some && merged.servers[pair.1 as int].cfstate is Some
}

/// The remote runs of a Rebase, one for each pair.
pub fn deploy_rebase(
    old: &Cloud,
    merged: &Cloud,
    recon_pairs: &Vec<(usize, usize)>,
    rebase_data: &Option<StrMap<RebaseData>>,
) -> (r: Result<Vec<RebaseRun>, String>)
    requires
        forall|i: int|
            0 <= i < recon_pairs@.len() ==> (#[trigger] recon_pairs@[i]).0 < old.servers@.len()
                && recon_pairs@[i].1 < merged.servers@.len(),
    ensures
        r is Ok <==> rebase_data is Some && forall|i: int|
            0 <= i < recon_pairs@.len() ==> states_known(old@, merged@, #[trigger] recon_pairs@[i]),
        match r {
            Ok(runs) => runs@.len() == recon_pairs@.len() && forall|i: int|
                0 <= i < runs@.len() ==> run_fits(
                    old@,
                    merged@,
                    recon_pairs@[i],
                    data_map(rebase_data->Some_0@),
                    #[trigger] runs@[i],
                ),
            Err(e) => e@ == (if rebase_data is None {
                "RebaseData is empty in a Rebase action."@
            } else {
                "Couldn't take a reference to the CFState struct."@
            }),
        },
{
    let data = match rebase_data {
        Some(m) => m,
        None => return Err("RebaseData is empty in a Rebase action.".to_owned()),
    };
    let mut runs: Vec<RebaseRun> = Vec::new();
    let mut i: usize = 0;
    while i < recon_pairs.len()
        invariant
            i <= recon_pairs@.len(),
            i == runs@.len(),
            *rebase_data == Some(*data),
            forall|j: int|
                0 <= j < recon_pairs@.len() ==> (#[trigger] recon_pairs@[j]).0 < old.servers@.len()
                    && recon_pairs@[j].1 < merged.servers@.len(),
            forall|j: int|
                0 <= j < i ==> states_known(old@, merged@, #[trigger] recon_pairs@[j]),
            forall|j: int|
                0 <= j < i ==> run_fits(
                    old@,
                    merged@,
                    recon_pairs@[j],
                    data_map(data@),
                    #[trigger] runs@[j],
                ),
        decreases recon_pairs@.len() - i,
    {
        let pair = recon_pairs[i];
        assert(recon_pairs@[i as int].0 < old.servers@.len());
        let o = &old.servers[pair.0];
        let n = &merged.servers[pair.1];
        assert(old@.servers[pair.0 as int] == o@);
        assert(merged@.servers[pair.1 as int] == n@);
        let d = data.get(o.name.as_str());
        match rebase_actions(o, n, d) {
            Err(e) => {
                assert(!states_known(old@, merged@, recon_pairs@[i as int]));
                return Err(e);
            },
            Ok(actions) => {
                let kept: Option<RebaseData> = match d {
                    Some(x) => Some(x.clone()),
                    None => None,
                };
                assert(data_view(kept) == data_of(data_map(data@), o@.name));
                runs.push(RebaseRun { server: pair.1, actions, rebase_data: kept });
            },
        }
        i += 1;
    }
    Ok(runs)
}

/// A connection after the server's SSH port was set up.
pub open spec fn settled(conn: AnsibleConnView, ssh_port: u16) -> AnsibleConnView {
    AnsibleConnView { port: Some(ssh_port), connection: None, ..conn }
}

pub fn settled_conn(conn: &AnsibleConn, ssh_port: u16) -> (r: AnsibleConn)
    ensures
        r@ == settled(conn@, ssh_port),
{
    AnsibleConn {
        ansible_host: conn.ansible_host.clone(),
        ansible_port: Some(ssh_port),
        ansible_user: conn.ansible_user,
        ansible_connection: None,
    }
}

/// What follows a finished run of a Rebase: the server's connection from now
/// on, or an error.
pub fn finish_rebase(server: &KetServer, success: bool) -> (r: Result<AnsibleConn, String>)
    ensures
        r is Ok <==> success && server@.ansible_conn is Some,
        match r {
            Ok(c) => c@ == settled(server@.ansible_conn->Some_0, server@.ssh_port) && c@.port == Some(
                server@.ssh_port,
            ) && c@.host == server@.ansible_conn->Some_0.host && c@.user
                == server@.ansible_conn->Some_0.user && c@.connection is None,
            Err(e) => e@ == (if !success {
                "Rebase failed because remote action on server '"@ + server@.name
                    + "' encountered an error."@
            } else {
                "Couldn't unwrap AnsibleConn in deploy_rebase."@
            }),
        },
{
    if !success {
        let mut e = "Rebase failed because remote action on server '".to_owned();
        e.append(server.name.as_str());
        e.append("' encountered an error.");
        return Err(e);
    }
    match &server.ansible_conn {
        Some(c) => Ok(settled_conn(c, server.ssh_port)),
        None => Err("Couldn't unwrap AnsibleConn in deploy_rebase.".to_owned()),
    }
}

// ---------------------------------------------------------------- the laws

/// A disabled server is skipped: no action runs on it.
pub proof fn law_disabled_is_skipped(
    old: ServerView,
    new: ServerView,
    data: Option<RebaseDataView>,
    actions: Seq<AnsibleAction>,
)
    requires
        is_plan(old, new, data, actions),
        !new.enabled,
    ensures
        actions.len() == 0,
{
    if actions.len() > 0 {
        assert(actions.contains(actions[0]));
    }
}

/// The parameters that are not primary, such as quota and region, trigger no
/// action: where all primary ones stay, nothing is done.
pub proof fn law_secondary_changes_do_nothing(
    old: ServerView,
    new: ServerView,
    data: Option<RebaseDataView>,
    actions: Seq<AnsibleAction>,
)
    requires
        is_plan(old, new, data, actions),
        old.ip.ip == new.ip.ip,
        old.domain == new.domain,
        old.dns_subdomain == new.dns_subdomain,
        old.ui_subdomain == new.ui_subdomain,
        old.sub_subdomain == new.sub_subdomain,
        old.ssh_port == new.ssh_port,
        old.cloudflare_proxied == new.cloudflare_proxied,
        old.cfstate is Some,
        new.cfstate is Some,
        old.cfstate->Some_0.cloudflare_only == new.cfstate->Some_0.cloudflare_only,
        same_texts(old.outbound_block, new.outbound_block),
        data is Some ==> data->Some_0.added_inbounds.len() == 0
            && data->Some_0.removed_inbounds.len() == 0,
    ensures
        actions.len() == 0,
{
    if actions.len() > 0 {
        assert(actions.contains(actions[0]));
        assert(needs_action(old, new, data, actions[0]));
    }
}

/// Inbounds are removed before others are added.
pub proof fn law_removal_before_addition(
    old: ServerView,
    new: ServerView,
    data: Option<RebaseDataView>,
    actions: Seq<AnsibleAction>,
    i: int,
    j: int,
)
    requires
        is_plan(old, new, data, actions),
        0 <= i < actions.len(),
        0 <= j < actions.len(),
        actions[i] == AnsibleAction::DelInbound,
        actions[j] == AnsibleAction::AddInbound,
    ensures
        i < j,
{
}

/// A change of SSH comes last.
pub proof fn law_ssh_comes_last(
    old: ServerView,
    new: ServerView,
    data: Option<RebaseDataView>,
    actions: Seq<AnsibleAction>,
)
    requires
        is_plan(old, new, data, actions),
        actions.contains(AnsibleAction::SSH),
    ensures
        actions.last() == AnsibleAction::SSH,
{
    let i = choose|i: int| 0 <= i < actions.len() && actions[i] == AnsibleAction::SSH;
    if i < actions.len() - 1 {
        assert(actions.contains(actions.last()));
        assert(needs_action(old, new, data, actions.last()));
        assert(action_id(actions[i]) < action_id(actions[actions.len() - 1]));
    }
}

/// A removal without the forced flag is refused, and so is the modification of
/// an inbound, forced or not.
pub proof fn law_inbounds_are_immutable(curr: ServerView, new: ServerView, forced: bool, i: int, j: int)
    requires
        0 <= i < curr.inbounds.len(),
        0 <= j < new.inbounds.len(),
        is_first(curr.inbounds, i),
        is_first(new.inbounds, j),
        curr.inbounds[i].name == new.inbounds[j].name,
        curr.inbounds[i] != new.inbounds[j],
    ensures
        pair_data(curr, new, forced) is Err,
{
    lemma_inbound_index_is(curr.inbounds, new.inbounds[j].name, i);
    lemma_fault_found(curr, new, 0, j);
}

proof fn lemma_fault_found(curr: ServerView, new: ServerView, from: int, j: int)
    requires
        0 <= from <= j < new.inbounds.len(),
        declared_fault(curr, new, j) is Some,
    ensures
        declared_fault_from(curr, new, from) is Some,
    decreases j - from,
{
    if from < j {
        lemma_fault_found(curr, new, from + 1, j);
    }
}

/// A removal of inbounds is refused unless it is forced.
pub proof fn law_removal_needs_force(curr: ServerView, new: ServerView)
    requires
        removed_inbounds(curr, new).len() > 0,
    ensures
        pair_data(curr, new, false) is Err,
{
}

/// A server with a TLS inbound that stays keeps its subscription host.
pub proof fn law_tls_keeps_host(curr: ServerView, new: ServerView, forced: bool, i: int, j: int)
    requires
        0 <= i < curr.inbounds.len(),
        0 <= j < new.inbounds.len(),
        is_first(curr.inbounds, i),
        is_first(new.inbounds, j),
        curr.inbounds[i] == new.inbounds[j],
        is_tls(curr.inbounds[i].kind),
        sub_host(curr) != sub_host(new),
    ensures
        pair_data(curr, new, forced) is Err,
{
    lemma_inbound_index_is(curr.inbounds, new.inbounds[j].name, i);
    lemma_fault_found(curr, new, 0, j);
}

/// A server that only the new cloud has does not stand in the way of a Rebase.
pub proof fn law_added_server_is_no_obstacle(curr: CloudView, new: CloudView, forced: bool, i: int)
    requires
        0 <= i < new.servers.len(),
        !crate::cloud::reconcile::has_server(curr.servers, new.servers[i].name),
    ensures
        data_at(curr, new, forced, i) == Ok::<RebaseDataView, Seq<char>>(no_data()),
{
}

/// A server whose declaration stays has nothing to be reconciled.
pub proof fn law_same_declaration_needs_nothing(curr: ServerView, new: ServerView, forced: bool)
    requires
        new.inbounds == curr.inbounds,
        new.name == curr.name,
        new.domain == curr.domain,
        new.dns_subdomain == curr.dns_subdomain,
        new.ui_subdomain == curr.ui_subdomain,
        new.sub_subdomain == curr.sub_subdomain,
    ensures
        pair_data(curr, new, forced) == Ok::<RebaseDataView, Seq<char>>(no_data()),
{
    lemma_nothing_only(curr.inbounds, curr.inbounds.len() as int);
    lemma_no_fault(curr, new, 0);
    assert(given_up(curr, new) =~= no_data().rebase_domain);
}

proof fn lemma_nothing_only(s: Seq<InboundView>, k: int)
    requires
        0 <= k <= s.len(),
    ensures
        only_in(s, s, k) == Seq::<InboundView>::empty(),
    decreases k,
{
    if k > 0 {
        lemma_nothing_only(s, k - 1);
        assert(s[k - 1].name == s[k - 1].name);
    }
}

proof fn lemma_no_fault(curr: ServerView, new: ServerView, i: int)
    requires
        0 <= i <= new.inbounds.len(),
        new.inbounds == curr.inbounds,
        sub_host(curr) == sub_host(new),
    ensures
        declared_fault_from(curr, new, i) is None,
    decreases new.inbounds.len() - i,
{
    if i < new.inbounds.len() {
        lemma_no_fault(curr, new, i + 1);
        if is_first(new.inbounds, i) {
            lemma_inbound_index_is(curr.inbounds, new.inbounds[i].name, i);
        }
    }
}

/// The host names that a server gives up are recorded, and no others: each of the
/// three where its subdomain or the domain changes, under its old name, and the old
/// zone along with any of them.
pub proof fn law_given_up_hosts_are_recorded(curr: ServerView, new: ServerView, forced: bool)
    requires
        pair_data(curr, new, forced) is Ok,
    ensures
        ({
            let d = pair_data(curr, new, forced)->Ok_0.rebase_domain;
            &&& d.dns == (if new.dns_subdomain != curr.dns_subdomain || new.domain != curr.domain {
                Some(curr.dns_subdomain + "."@ + curr.domain)
            } else {
                None
            })
            &&& d.ui == (if new.ui_subdomain != curr.ui_subdomain || new.domain != curr.domain {
                Some(curr.ui_subdomain + "."@ + curr.domain)
            } else {
                None
            })
            &&& d.sub == (if new.sub_subdomain != curr.sub_subdomain || new.domain != curr.domain {
                Some(curr.sub_subdomain + "."@ + curr.domain)
            } else {
                None
            })
            &&& d.zone is Some <==> d.dns is Some || d.ui is Some || d.sub is Some
            &&& d.zone is Some ==> curr.cfstate is Some && d.zone->Some_0
                == curr.cfstate->Some_0.zone_name
        }),
{
}

/// The places of the inbounds that are only in the one list.
spec fn only_places(s: Seq<InboundView>, other: Seq<InboundView>, k: int) -> Seq<int>
    decreases k,
{
    if k <= 0 {
        Seq::empty()
    } else if is_first(s, k - 1) && !has_inbound(other, s[k - 1].name) {
        only_places(s, other, k - 1).push(k - 1)
    } else {
        only_places(s, other, k - 1)
    }
}

proof fn lemma_only_places(s: Seq<InboundView>, other: Seq<InboundView>, k: int)
    requires
        0 <= k <= s.len(),
    ensures
        ({
            let r = only_in(s, other, k);
            let p = only_places(s, other, k);
            &&& r.len() == p.len()
            &&& forall|m: int|
                0 <= m < p.len() ==> 0 <= #[trigger] p[m] < k && r[m] == s[p[m]] && !has_inbound(
                    other,
                    s[p[m]].name,
                )
            &&& forall|m: int, n: int| 0 <= m < n < p.len() ==> #[trigger] p[m] < #[trigger] p[n]
            &&& forall|i: int|
                0 <= i < k && is_first(s, i) && !has_inbound(other, (#[trigger] s[i]).name)
                    ==> p.contains(i)
        }),
    decreases k,
{
    if k > 0 {
        lemma_only_places(s, other, k - 1);
        let p0 = only_places(s, other, k - 1);
        let p = only_places(s, other, k);
        assert forall|i: int|
            0 <= i < k && is_first(s, i) && !has_inbound(
                other,
                (#[trigger] s[i]).name,
            ) implies p.contains(i) by {
            if i < k - 1 {
                let m = choose|m: int| 0 <= m < p0.len() && p0[m] == i;
                assert(p[m] == i);
            } else {
                assert(p[p0.len() as int] == i);
            }
        }
    }
}

/// What is only in the one list, where its names are unique.
proof fn lemma_only_in(s: Seq<InboundView>, other: Seq<InboundView>)
    requires
        forall|i: int, j: int| 0 <= i < j < s.len() ==> #[trigger] s[i].name != #[trigger] s[j].name,
    ensures
        ({
            let r = only_in(s, other, s.len() as int);
            &&& forall|x: InboundView| #[trigger]
                r.contains(x) <==> s.contains(x) && forall|j: int|
                    0 <= j < other.len() ==> (#[trigger] other[j]).name != x.name
            &&& forall|m: int, n: int, i: int, j: int|
                0 <= m < n < r.len() && 0 <= i < s.len() && 0 <= j < s.len() && #[trigger] r[m]
                    == #[trigger] s[i] && #[trigger] r[n] == #[trigger] s[j] ==> i < j
        }),
{
    let k = s.len() as int;
    lemma_only_places(s, other, k);
    let r = only_in(s, other, k);
    let p = only_places(s, other, k);
    assert forall|x: InboundView| #[trigger] r.contains(x) <==> s.contains(x) && forall|j: int|
        0 <= j < other.len() ==> (#[trigger] other[j]).name != x.name by {
        if r.contains(x) {
            let m = choose|m: int| 0 <= m < r.len() && r[m] == x;
            assert(s[p[m]] == x);
            assert(!has_inbound(other, x.name));
        }
        if s.contains(x) && forall|j: int|
            0 <= j < other.len() ==> (#[trigger] other[j]).name != x.name {
            let i = choose|i: int| 0 <= i < s.len() && s[i] == x;
            assert(is_first(s, i));
            assert(!has_inbound(other, s[i].name));
            let m = choose|m: int| 0 <= m < p.len() && p[m] == i;
            assert(r[m] == x);
        }
    }
    assert forall|m: int, n: int, i: int, j: int|
        0 <= m < n < r.len() && 0 <= i < s.len() && 0 <= j < s.len() && #[trigger] r[m]
            == #[trigger] s[i] && #[trigger] r[n] == #[trigger] s[j] implies i < j by {
        assert(p[m] < p[n]);
        assert(s[p[m]].name == s[i].name);
        assert(s[p[n]].name == s[j].name);
        assert(p[m] == i && p[n] == j);
    }
}

/// The inbounds that a new declaration adds are those of a name that the server has
/// none of, and those that it removes are those whose name is declared no more. Both
/// come in the order in which they stand.
pub proof fn law_added_and_removed_inbounds(curr: ServerView, new: ServerView, forced: bool)
    requires
        pair_data(curr, new, forced) is Ok,
        forall|i: int, j: int|
            0 <= i < j < curr.inbounds.len() ==> #[trigger] curr.inbounds[i].name
                != #[trigger] curr.inbounds[j].name,
        forall|i: int, j: int|
            0 <= i < j < new.inbounds.len() ==> #[trigger] new.inbounds[i].name
                != #[trigger] new.inbounds[j].name,
    ensures
        ({
            let d = pair_data(curr, new, forced)->Ok_0;
            &&& forall|x: InboundView| #[trigger]
                d.added_inbounds.contains(x) <==> new.inbounds.contains(x) && forall|j: int|
                    0 <= j < curr.inbounds.len() ==> (#[trigger] curr.inbounds[j]).name != x.name
            &&& forall|x: InboundView| #[trigger]
                d.removed_inbounds.contains(x) <==> curr.inbounds.contains(x) && forall|j: int|
                    0 <= j < new.inbounds.len() ==> (#[trigger] new.inbounds[j]).name != x.name
            &&& forall|m: int, n: int, i: int, j: int|
                0 <= m < n < d.added_inbounds.len() && 0 <= i < new.inbounds.len() && 0 <= j
                    < new.inbounds.len() && #[trigger] d.added_inbounds[m]
                    == #[trigger] new.inbounds[i] && #[trigger] d.added_inbounds[n]
                    == #[trigger] new.inbounds[j] ==> i < j
            &&& forall|m: int, n: int, i: int, j: int|
                0 <= m < n < d.removed_inbounds.len() && 0 <= i < curr.inbounds.len() && 0 <= j
                    < curr.inbounds.len() && #[trigger] d.removed_inbounds[m]
                    == #[trigger] curr.inbounds[i] && #[trigger] d.removed_inbounds[n]
                    == #[trigger] curr.inbounds[j] ==> i < j
        }),
{
    lemma_only_in(new.inbounds, curr.inbounds);
    lemma_only_in(curr.inbounds, new.inbounds);
}

proof fn lemma_inbound_index(s: Seq<InboundView>, name: Seq<char>)
    requires
        has_inbound(s, name),
    ensures
        0 <= inbound_index(s, name) < s.len(),
        s[inbound_index(s, name)].name == name,
    decreases s.len(),
{
    if s[0].name != name {
        let t = s.skip(1);
        let i = choose|i: int| 0 <= i < s.len() && #[trigger] s[i].name == name;
        assert(t[i - 1].name == name);
        lemma_inbound_index(t, name);
        assert(t[inbound_index(t, name)] == s[inbound_index(t, name) + 1]);
    }
}

/// A Rebase of a server is not refused where its inbounds stay as they are or are
/// added, where a removal is forced, where a server with TLS inbounds that stay keeps
/// its domain and subscription subdomain, and where its zone is known or not needed.
pub proof fn law_permitted_changes_are_accepted(curr: ServerView, new: ServerView, forced: bool)
    requires
        forall|i: int, j: int|
            0 <= i < curr.inbounds.len() && 0 <= j < new.inbounds.len()
                && #[trigger] curr.inbounds[i].name == #[trigger] new.inbounds[j].name
                ==> curr.inbounds[i] == new.inbounds[j] && (curr.inbounds[i].kind
                == InboundKind::VlessTcpReality || curr.inbounds[i].kind
                == InboundKind::VlessXhttpReality || (curr.domain == new.domain
                && curr.sub_subdomain == new.sub_subdomain)),
        forced || forall|i: int|
            0 <= i < curr.inbounds.len() ==> exists|j: int|
                0 <= j < new.inbounds.len() && #[trigger] new.inbounds[j].name == (
                #[trigger] curr.inbounds[i]).name,
        curr.cfstate is Some || (curr.domain == new.domain && curr.dns_subdomain
            == new.dns_subdomain && curr.ui_subdomain == new.ui_subdomain && curr.sub_subdomain
            == new.sub_subdomain),
    ensures
        pair_data(curr, new, forced) is Ok,
{
    lemma_declared_clean(curr, new, 0);
    let r = removed_inbounds(curr, new);
    if !forced && r.len() > 0 {
        lemma_only_places(curr.inbounds, new.inbounds, curr.inbounds.len() as int);
        let i = only_places(curr.inbounds, new.inbounds, curr.inbounds.len() as int)[0];
        let j = choose|j: int|
            0 <= j < new.inbounds.len() && #[trigger] new.inbounds[j].name
                == curr.inbounds[i].name;
        assert(has_inbound(new.inbounds, curr.inbounds[i].name));
    }
}

proof fn lemma_declared_clean(curr: ServerView, new: ServerView, k: int)
    requires
        0 <= k <= new.inbounds.len(),
        forall|i: int, j: int|
            0 <= i < curr.inbounds.len() && 0 <= j < new.inbounds.len()
                && #[trigger] curr.inbounds[i].name == #[trigger] new.inbounds[j].name
                ==> curr.inbounds[i] == new.inbounds[j] && (curr.inbounds[i].kind
                == InboundKind::VlessTcpReality || curr.inbounds[i].kind
                == InboundKind::VlessXhttpReality || (curr.domain == new.domain
                && curr.sub_subdomain == new.sub_subdomain)),
    ensures
        declared_fault_from(curr, new, k) is None,
    decreases new.inbounds.len() - k,
{
    if k < new.inbounds.len() {
        lemma_declared_clean(curr, new, k + 1);
        let n = new.inbounds[k];
        if has_inbound(curr.inbounds, n.name) {
            lemma_inbound_index(curr.inbounds, n.name);
            let i = inbound_index(curr.inbounds, n.name);
            assert(curr.inbounds[i].name == new.inbounds[k].name);
        }
    }
}

/// The names that have an entry among the first `k` servers.
proof fn lemma_data_names(curr: CloudView, new: CloudView, forced: bool, k: int, x: Seq<char>)
    requires
        0 <= k <= new.servers.len(),
        data_upto(curr, new, forced, k) is Ok,
    ensures
        data_upto(curr, new, forced, k)->Ok_0.dom().contains(x) <==> exists|i: int|
            0 <= i < k && #[trigger] new.servers[i].name == x,
    decreases k,
{
    if k > 0 {
        lemma_data_names(curr, new, forced, k - 1, x);
        if new.servers[k - 1].name == x {
            assert(0 <= k - 1 < k && new.servers[k - 1].name == x);
        }
        if exists|i: int| 0 <= i < k - 1 && #[trigger] new.servers[i].name == x {
            let i = choose|i: int| 0 <= i < k - 1 && #[trigger] new.servers[i].name == x;
            assert(0 <= i < k && new.servers[i].name == x);
        }
    }
}

/// The entry of a name is that of the first server with it.
proof fn lemma_data(curr: CloudView, new: CloudView, forced: bool, i: int, k: int)
    requires
        0 <= i < k <= new.servers.len(),
        data_upto(curr, new, forced, k) is Ok,
        forall|j: int| 0 <= j < i ==> #[trigger] new.servers[j].name != new.servers[i].name,
    ensures
        data_upto(curr, new, forced, k)->Ok_0.dom().contains(new.servers[i].name),
        data_at(curr, new, forced, i) == Ok::<RebaseDataView, Seq<char>>(
            data_upto(curr, new, forced, k)->Ok_0[new.servers[i].name],
        ),
    decreases k,
{
    let name = new.servers[i].name;
    if i < k - 1 {
        lemma_data(curr, new, forced, i, k - 1);
    } else {
        lemma_data_names(curr, new, forced, k - 1, name);
    }
}

/// The comparison of two clouds has an entry for each server of the new one: what the
/// comparison of the two servers of that name gives, or nothing where the running
/// cloud has no such server. It has no other entries.
pub proof fn law_comparison_covers_every_server(curr: CloudView, new: CloudView, forced: bool, i: int, j: int)
    requires
        rebase_data(curr, new, forced) is Ok,
        0 <= i < new.servers.len(),
        forall|k: int| 0 <= k < i ==> #[trigger] new.servers[k].name != new.servers[i].name,
    ensures
        ({
            let m = rebase_data(curr, new, forced)->Ok_0;
            let d = m[new.servers[i].name];
            &&& m.dom().contains(new.servers[i].name)
            &&& 0 <= j < curr.servers.len() && curr.servers[j].name == new.servers[i].name && (
            forall|k: int| 0 <= k < j ==> #[trigger] curr.servers[k].name != new.servers[i].name)
                ==> pair_data(curr.servers[j], new.servers[i], forced) == Ok::<
                RebaseDataView,
                Seq<char>,
            >(d)
            &&& (forall|k: int|
                0 <= k < curr.servers.len() ==> #[trigger] curr.servers[k].name
                    != new.servers[i].name) ==> d.added_inbounds.len() == 0
                && d.removed_inbounds.len() == 0 && d.rebase_domain.zone is None
                && d.rebase_domain.dns is None && d.rebase_domain.ui is None
                && d.rebase_domain.sub is None
            &&& forall|x: Seq<char>| #[trigger]
                m.dom().contains(x) ==> exists|k: int|
                    0 <= k < new.servers.len() && #[trigger] new.servers[k].name == x
        }),
{
    let n = new.servers.len() as int;
    lemma_data(curr, new, forced, i, n);
    assert forall|x: Seq<char>| #[trigger]
        rebase_data(curr, new, forced)->Ok_0.dom().contains(x) implies exists|k: int|
        0 <= k < new.servers.len() && #[trigger] new.servers[k].name == x by {
        lemma_data_names(curr, new, forced, n, x);
    }
    let name = new.servers[i].name;
    assert(data_at(curr, new, forced, i) is Ok);
    if 0 <= j < curr.servers.len() && curr.servers[j].name == name && (forall|k: int|
        0 <= k < j ==> #[trigger] curr.servers[k].name != name) {
        lemma_first_server_is(curr.servers, name, j);
    }
}

/// Two clouds can be compared where each server of the new one can be compared with
/// that of its name in the running one.
pub proof fn law_comparison_fails_for_a_server_only(curr: CloudView, new: CloudView, forced: bool)
    requires
        forall|i: int, j: int|
            0 <= i < new.servers.len() && 0 <= j < curr.servers.len()
                && #[trigger] curr.servers[j].name == #[trigger] new.servers[i].name ==> pair_data(
                curr.servers[j],
                new.servers[i],
                forced,
            ) is Ok,
    ensures
        rebase_data(curr, new, forced) is Ok,
{
    lemma_comparable(curr, new, forced, new.servers.len() as int);
}

proof fn lemma_comparable(curr: CloudView, new: CloudView, forced: bool, k: int)
    requires
        0 <= k <= new.servers.len(),
        forall|i: int, j: int|
            0 <= i < new.servers.len() && 0 <= j < curr.servers.len()
                && #[trigger] curr.servers[j].name == #[trigger] new.servers[i].name ==> pair_data(
                curr.servers[j],
                new.servers[i],
                forced,
            ) is Ok,
    ensures
        data_upto(curr, new, forced, k) is Ok,
    decreases k,
{
    if k > 0 {
        lemma_comparable(curr, new, forced, k - 1);
        let n = new.servers[k - 1];
        if crate::cloud::reconcile::has_server(curr.servers, n.name) {
            lemma_first_server(curr.servers, n.name);
            assert(curr.servers[first_server(curr.servers, n.name)].name
                == new.servers[k - 1].name);
        }
    }
}

/// Each change of a primary parameter of an enabled server brings the actions that
/// carry it out on the server, and no action comes without such a change.
pub proof fn law_changes_are_carried_out(
    old: ServerView,
    new: ServerView,
    data: Option<RebaseDataView>,
    actions: Seq<AnsibleAction>,
)
    requires
        is_plan(old, new, data, actions),
        new.enabled,
        old.cfstate is Some,
        new.cfstate is Some,
    ensures
        ({
            let domain = old.domain != new.domain;
            let dns = old.dns_subdomain != new.dns_subdomain;
            let ui = old.ui_subdomain != new.ui_subdomain;
            let sub = old.sub_subdomain != new.sub_subdomain;
            let ssh = old.ssh_port != new.ssh_port;
            let proxy = old.cloudflare_proxied != new.cloudflare_proxied
                || old.cfstate->Some_0.cloudflare_only != new.cfstate->Some_0.cloudflare_only;
            let adds = data is Some && data->Some_0.added_inbounds.len() > 0;
            let removes = data is Some && data->Some_0.removed_inbounds.len() > 0;
            &&& actions.contains(AnsibleAction::PortsCheck) <==> ssh || adds
            &&& actions.contains(AnsibleAction::DnsReset) <==> domain || dns
            &&& actions.contains(AnsibleAction::CloudflareDel) <==> domain || dns || ui || sub
            &&& actions.contains(AnsibleAction::Cloudflare) <==> old.ip.ip != new.ip.ip || domain
                || dns || ui || sub || proxy
            &&& actions.contains(AnsibleAction::Acme) <==> domain
            &&& actions.contains(AnsibleAction::Nginx) <==> domain || dns || ui || sub || proxy
            &&& actions.contains(AnsibleAction::DoH) <==> domain || dns
            &&& actions.contains(AnsibleAction::OutblockedUpdate) <==> exists|t: Seq<char>|
                #![trigger old.outbound_block.contains(t)]
                #![trigger new.outbound_block.contains(t)]
                old.outbound_block.contains(t) != new.outbound_block.contains(t)
            &&& actions.contains(AnsibleAction::XuiAuth) <==> sub || adds || removes
            &&& actions.contains(AnsibleAction::DelInbound) <==> removes
            &&& actions.contains(AnsibleAction::AddInbound) <==> adds
            &&& actions.contains(AnsibleAction::PanelSettings) <==> sub
            &&& actions.contains(AnsibleAction::Fail2ban) <==> ssh || proxy
            &&& actions.contains(AnsibleAction::Firewall) <==> proxy
            &&& actions.contains(AnsibleAction::SSH) <==> ssh
            &&& !actions.contains(AnsibleAction::Basics)
            &&& !actions.contains(AnsibleAction::FirewallBootstrap)
            &&& !actions.contains(AnsibleAction::BaseSetup)
            &&& !actions.contains(AnsibleAction::FullSetup)
            &&& !actions.contains(AnsibleAction::NginxRestart)
            &&& !actions.contains(AnsibleAction::NginxRestoreConfig)
            &&& !actions.contains(AnsibleAction::XrayRestart)
            &&& !actions.contains(AnsibleAction::XrayRestoreDB)
            &&& !actions.contains(AnsibleAction::Bootstrap)
            &&& !actions.contains(AnsibleAction::DestroyServer)
        }),
{
    assert(same_texts(old.outbound_block, new.outbound_block) <==> !exists|t: Seq<char>|
        #![trigger old.outbound_block.contains(t)]
        #![trigger new.outbound_block.contains(t)]
        old.outbound_block.contains(t) != new.outbound_block.contains(t));
}

/// A run of a Rebase is on the reconciled server of its pair, with the data that was
/// recorded under the server's name.
pub proof fn law_run_is_for_its_pair(
    old: CloudView,
    merged: CloudView,
    pair: (usize, usize),
    data: Map<Seq<char>, RebaseDataView>,
    run: RebaseRun,
)
    requires
        run_fits(old, merged, pair, data, run),
        data.dom().contains(old.servers[pair.0 as int].name),
    ensures
        run.server == pair.1,
        run.rebase_data is Some,
        run.rebase_data->Some_0@ == data[old.servers[pair.0 as int].name],
        is_plan(
            old.servers[pair.0 as int],
            merged.servers[pair.1 as int],
            Some(data[old.servers[pair.0 as int].name]),
            run.actions@,
        ),
{
}

} // verus!
