//! Expanding the cloud: which server is provisioned next.

use vstd::prelude::*;

use crate::cli::ExpandOpts;
use crate::cloud::laws::{
    law_names_stay_unique, law_reload_takes_offgrid, law_remap_is_declaration_with_secrets,
    law_servers_follow_new, named, names_unique,
};
use crate::cloud::rebase::{find_first_server, first_server, lemma_first_server};
use crate::cloud::reconcile::{has_server, lemma_server_index, reconciled, ReconMode};
use crate::types::{Cloud, CloudView, ServerState, ServerView};

verus! {

/// A server that can be provisioned: enabled, Offgrid, and never provisioned
/// before.
pub open spec fn is_fresh(s: ServerView) -> bool {
    s.state == ServerState::Offgrid && s.enabled && s.secrets.xui_token is None
}

/// The first server from this place on that can be provisioned.
pub open spec fn fresh_from(servers: Seq<ServerView>, i: int) -> Option<int>
    decreases servers.len() - i,
{
    if i >= servers.len() {
        None
    } else if is_fresh(servers[i]) {
        Some(i)
    } else {
        fresh_from(servers, i + 1)
    }
}

/// Why a server that was asked for cannot be provisioned.
pub open spec fn refusal(s: ServerView, name: Seq<char>) -> Option<Seq<char>> {
    if !s.enabled {
        Some("Server '"@ + name + "' is not enabled."@)
    } else if s.state == ServerState::Production {
        Some("Server '"@ + name + "' is already a production unit."@)
    } else if s.secrets.xui_token is Some {
        Some(
            "Server '"@ + name
                + "' has been a production unit before. Do a Reload first, to refresh the secrets."@,
        )
    } else {
        None
    }
}

/// The server that is provisioned, by its place, or why none is.
pub open spec fn chosen(cloud: CloudView, name: Option<Seq<char>>) -> Result<int, Seq<char>> {
    match name {
        Some(n) => if !has_server(cloud.servers, n) {
            Err("A server with name '"@ + n + "' does not exist in the cloud."@)
        } else {
            let i = first_server(cloud.servers, n);
            match refusal(cloud.servers[i], n) {
                Some(e) => Err(e),
                None => Ok(i),
            }
        },
        None => match fresh_from(cloud.servers, 0) {
            Some(i) => Ok(i),
            None => Err(
                "No fresh, enabled and offgrid server is available for setup. Add a new server to the cloud config and reload the daemon."@,
            ),
        },
    }
}

/// A full setup among the tasks of the daemon.
pub struct SetupTask {
    pub server: String,
    pub finished: bool,
}

/// What is done on a request to expand the cloud.
pub enum Expansion {
    /// A setup is running already; the reply says so.
    Running(String),
    /// The server at this place is set up, in place of an earlier setup that has
    /// finished, if any.
    Start(usize, String),
}

pub open spec fn running_text(server: Seq<char>) -> Seq<char> {
    "Expansion in progress: full setup is already running for server '"@ + server + "'"@
}

pub open spec fn start_text(server: Seq<char>) -> Seq<char> {
    "Server '"@ + server + "' is being provisioned to become Production."@
}

/// Chooses the server with which the cloud is expanded.
pub fn choose_server(cloud: &Cloud, expand_opts: &ExpandOpts) -> (r: Result<usize, String>)
    ensures
        match r {
            Ok(i) => i < cloud.servers@.len() && chosen(cloud@, expand_opts.name()) == Ok::<
                int,
                Seq<char>,
            >(i as int),
            Err(e) => chosen(cloud@, expand_opts.name()) == Err::<int, Seq<char>>(e@),
        },
{
    let ghost cv = cloud@;
    match &expand_opts.server {
        Some(name) => {
            match find_first_server(&cloud.servers, name) {
                None => {
                    let mut e = "A server with name '".to_owned();
                    e.append(name.as_str());
                    e.append("' does not exist in the cloud.");
                    Err(e)
                },
                Some(i) => {
                    let s = &cloud.servers[i];
                    assert(cv.servers[i as int] == s@);
                    let mut e = "Server '".to_owned();
                    e.append(name.as_str());
                    if !s.enabled {
                        e.append("' is not enabled.");
                        return Err(e);
                    }
                    if s.state.load() == ServerState::Production {
                        e.append("' is already a production unit.");
                        return Err(e);
                    }
                    if !s.secrets.xui_token.is_none() {
                        e.append(
                            "' has been a production unit before. Do a Reload first, to refresh the secrets.",
                        );
                        return Err(e);
                    }
                    Ok(i)
                },
            }
        },
        None => {
            let mut i: usize = 0;
            while i < cloud.servers.len()
                invariant
                    i <= cloud.servers@.len(),
                    cv == cloud@,
                    expand_opts.name() is None,
                    fresh_from(cv.servers, 0) == fresh_from(cv.servers, i as int),
                decreases cloud.servers@.len() - i,
            {
                let s = &cloud.servers[i];
                assert(cv.servers[i as int] == s@);
                if s.state.load() == ServerState::Offgrid && s.enabled
                    && s.secrets.xui_token.is_none() {
                    return Ok(i);
                }
                i += 1;
            }
            Err(
                "No fresh, enabled and offgrid server is available for setup. Add a new server to the cloud config and reload the daemon.".to_owned(),
            )
        },
    }
}

/// Decides on a request to expand the cloud, while `setup` is the full setup
/// among the tasks.
pub fn expand_cloud(cloud: &Cloud, expand_opts: &ExpandOpts, setup: &Option<SetupTask>) -> (r: Result<
    Expansion,
    String,
>)
    ensures
        match r {
            Err(e) => chosen(cloud@, expand_opts.name()) == Err::<int, Seq<char>>(e@),
            Ok(Expansion::Running(m)) => chosen(cloud@, expand_opts.name()) is Ok && setup is Some
                && !setup->Some_0.finished && m@ == running_text(setup->Some_0.server@),
            Ok(Expansion::Start(i, m)) => i < cloud.servers@.len() && chosen(
                cloud@,
                expand_opts.name(),
            ) == Ok::<int, Seq<char>>(i as int) && (setup is Some ==> setup->Some_0.finished) && m@
                == start_text(cloud@.servers[i as int].name),
        },
{
    let i = match choose_server(cloud, expand_opts) {
        Ok(i) => i,
        Err(e) => return Err(e),
    };
    if let Some(task) = setup {
        if !task.finished {
            let mut m = "Expansion in progress: full setup is already running for server '".to_owned();
            m.append(task.server.as_str());
            m.append("'");
            return Ok(Expansion::Running(m));
        }
    }
    let mut m = "Server '".to_owned();
    m.append(cloud.servers[i].name.as_str());
    m.append("' is being provisioned to become Production.");
    assert(cloud@.servers[i as int] == cloud.servers@[i as int]@);
    Ok(Expansion::Start(i, m))
}

/// A server is provisioned only where it is enabled, Offgrid, and was never
/// provisioned before: an earlier Production unit is not provisioned again.
pub proof fn law_only_fresh_servers_expand(cloud: CloudView, name: Option<Seq<char>>)
    requires
        chosen(cloud, name) is Ok,
    ensures
        0 <= chosen(cloud, name)->Ok_0 < cloud.servers.len(),
        is_fresh(cloud.servers[chosen(cloud, name)->Ok_0]),
        name is Some ==> cloud.servers[chosen(cloud, name)->Ok_0].name == name->Some_0,
{
    match name {
        Some(n) => {
            lemma_first_server(cloud.servers, n);
        },
        None => {
            lemma_fresh(cloud.servers, 0);
        },
    }
}

proof fn lemma_fresh(servers: Seq<ServerView>, i: int)
    requires
        0 <= i,
        fresh_from(servers, i) is Some,
    ensures
        i <= fresh_from(servers, i)->Some_0 < servers.len(),
        is_fresh(servers[fresh_from(servers, i)->Some_0]),
    decreases servers.len() - i,
{
    if !is_fresh(servers[i]) {
        lemma_fresh(servers, i + 1);
    }
}

/// Without a name, some server is provisioned whenever there is one that can be.
pub proof fn law_any_fresh_server_is_found(cloud: CloudView, i: int)
    requires
        0 <= i < cloud.servers.len(),
        is_fresh(cloud.servers[i]),
    ensures
        chosen(cloud, None) is Ok,
{
    lemma_fresh_found(cloud.servers, 0, i);
}

proof fn lemma_fresh_found(servers: Seq<ServerView>, from: int, i: int)
    requires
        0 <= from <= i < servers.len(),
        is_fresh(servers[i]),
    ensures
        fresh_from(servers, from) is Some,
    decreases i - from,
{
    if from < i {
        lemma_fresh_found(servers, from + 1, i);
    }
}

/// Where names are unique the first server with a name is the one that it stands
/// for.
proof fn lemma_first_is_named(servers: Seq<ServerView>, name: Seq<char>)
    requires
        names_unique(servers),
        has_server(servers, name),
    ensures
        servers[first_server(servers, name)] == named(servers, name),
{
    lemma_first_server(servers, name);
    lemma_server_index(servers, name);
}

/// A Remap does not make a server that was Production once ready for another
/// provisioning: it keeps the secrets by which the server is recognized.
pub proof fn law_remap_is_no_fresh_start(old: CloudView, new: CloudView, name: Seq<char>)
    requires
        reconciled(old, new, ReconMode::Remap) is Ok,
        has_server(old.servers, name),
        has_server(new.servers, name),
        named(old.servers, name).secrets.xui_token is Some,
    ensures
        chosen(reconciled(old, new, ReconMode::Remap)->Ok_0, Some(name)) is Err,
{
    let c = reconciled(old, new, ReconMode::Remap)->Ok_0;
    law_servers_follow_new(old, new, ReconMode::Remap, name);
    law_names_stay_unique(old, new, ReconMode::Remap);
    law_remap_is_declaration_with_secrets(old, new, name);
    lemma_first_is_named(c.servers, name);
}

/// A Reload of a server that is Offgrid, and is declared so with secrets of its
/// own, makes it ready to be provisioned, whatever it was before.
pub proof fn law_reload_is_a_fresh_start(old: CloudView, new: CloudView, name: Seq<char>)
    requires
        reconciled(old, new, ReconMode::Reload) is Ok,
        has_server(old.servers, name),
        has_server(new.servers, name),
        named(old.servers, name).state == ServerState::Offgrid,
        is_fresh(named(new.servers, name)),
    ensures
        ({
            let c = reconciled(old, new, ReconMode::Reload)->Ok_0;
            &&& chosen(c, Some(name)) is Ok
            &&& c.servers[chosen(c, Some(name))->Ok_0] == named(new.servers, name)
        }),
{
    let c = reconciled(old, new, ReconMode::Reload)->Ok_0;
    law_servers_follow_new(old, new, ReconMode::Reload, name);
    law_names_stay_unique(old, new, ReconMode::Reload);
    law_reload_takes_offgrid(old, new, name);
    lemma_first_is_named(c.servers, name);
}

/// A server that is asked for by its name is provisioned exactly where it is enabled,
/// Offgrid and was never provisioned before; otherwise the reply says what stands in the
/// way.
pub proof fn law_named_server_is_expanded(cloud: CloudView, i: int)
    requires
        0 <= i < cloud.servers.len(),
        forall|j: int| 0 <= j < i ==> #[trigger] cloud.servers[j].name != cloud.servers[i].name,
    ensures
        ({
            let s = cloud.servers[i];
            let r = chosen(cloud, Some(s.name));
            &&& s.enabled && s.state == ServerState::Offgrid && s.secrets.xui_token is None ==> r
                == Ok::<int, Seq<char>>(i)
            &&& !s.enabled ==> r == Err::<int, Seq<char>>(
                "Server '"@ + s.name + "' is not enabled."@,
            )
            &&& s.enabled && s.state == ServerState::Production ==> r == Err::<int, Seq<char>>(
                "Server '"@ + s.name + "' is already a production unit."@,
            )
            &&& s.enabled && s.state == ServerState::Offgrid && s.secrets.xui_token is Some ==> r
                == Err::<int, Seq<char>>(
                "Server '"@ + s.name
                    + "' has been a production unit before. Do a Reload first, to refresh the secrets."@,
            )
        }),
{
    crate::cloud::rebase::lemma_first_server_is(cloud.servers, cloud.servers[i].name, i);
}

/// A name that no server has is refused.
pub proof fn law_unknown_server_is_refused(cloud: CloudView, name: Seq<char>)
    requires
        forall|j: int| 0 <= j < cloud.servers.len() ==> #[trigger] cloud.servers[j].name != name,
    ensures
        chosen(cloud, Some(name)) == Err::<int, Seq<char>>(
            "A server with name '"@ + name + "' does not exist in the cloud."@,
        ),
{
}

/// Without a name the first server is taken that is enabled, Offgrid and was never
/// provisioned before, and the request is refused where there is none.
pub proof fn law_first_fresh_server_is_taken(cloud: CloudView, i: int)
    ensures
        0 <= i < cloud.servers.len() && cloud.servers[i].enabled && cloud.servers[i].state
            == ServerState::Offgrid && cloud.servers[i].secrets.xui_token is None && (forall|j: int|
            0 <= j < i ==> !((#[trigger] cloud.servers[j]).enabled && cloud.servers[j].state
                == ServerState::Offgrid && cloud.servers[j].secrets.xui_token is None)) ==> chosen(
            cloud,
            None,
        ) == Ok::<int, Seq<char>>(i),
        (forall|j: int|
            0 <= j < cloud.servers.len() ==> !((#[trigger] cloud.servers[j]).enabled
                && cloud.servers[j].state == ServerState::Offgrid
                && cloud.servers[j].secrets.xui_token is None)) ==> chosen(cloud, None) is Err,
{
    let s = cloud.servers;
    if 0 <= i < s.len() && s[i].enabled && s[i].state == ServerState::Offgrid
        && s[i].secrets.xui_token is None && (forall|j: int|
        0 <= j < i ==> !((#[trigger] s[j]).enabled && s[j].state == ServerState::Offgrid
            && s[j].secrets.xui_token is None)) {
        lemma_first_fresh(s, 0, i);
    }
    if fresh_from(s, 0) is Some {
        lemma_fresh(s, 0);
    }
}

proof fn lemma_first_fresh(servers: Seq<ServerView>, from: int, i: int)
    requires
        0 <= from <= i < servers.len(),
        is_fresh(servers[i]),
        forall|j: int|
            0 <= j < i ==> !((#[trigger] servers[j]).enabled && servers[j].state
                == ServerState::Offgrid && servers[j].secrets.xui_token is None),
    ensures
        fresh_from(servers, from) == Some(i),
    decreases i - from,
{
    if from < i {
        assert(!is_fresh(servers[from]));
        lemma_first_fresh(servers, from + 1, i);
    }
}

} // verus!
