//! The data that an Ansible run is given, and the files that go with it.

use vstd::prelude::*;

use crate::ansible::{
    all_actions, id_texts, in_priority_order, task_text, AnsibleAction, AnsibleConn, AnsibleConnView,
};
use crate::cloud::rebase::{data_view, RebaseData, RebaseDataView};
use crate::cloudflare::CFState;
use crate::constants::{
    ANSIBLE_CFG, ANSIBLE_DIR, JSON_SUBLINKS_SUFFIX, MASTER_PLAYBOOK, SUBLINKS_SUFFIX, SUB_PORT,
    UI_PORT, UNBOUND_PORT,
};
use crate::strmap::{text_map, StrMap};
use crate::text::{has_text, join_path, joined, joined_path, str_contains, texts};
use crate::types::{
    inbound_views, super_text, Inbound, InboundView, KetServer, Secrets, SecretsView, ServerView, SvcKind,
    XuiToken,
};
use crate::workspace::{DaemonDirs, DirsView};

verus! {

/// The variables that an Ansible run is given.
pub struct AnsibleVars {
    /// The task files to be run, in order.
    pub ansible_tasks: Vec<&'static str>,
    pub full_setup: bool,
    pub data_dir: String,
    pub node_name: String,
    pub base_hostname: String,
    pub node_region: String,
    pub ssh_port: u16,
    pub dns_subdomain: String,
    pub ui_subdomain: String,
    pub sub_subdomain: String,
    pub secrets: Secrets,
    pub cloudflare_proxied: bool,
    pub cloudflare_state: CFState,
    pub unbound_https_port: u16,
    pub ui_webport: u16,
    pub sub_port: u16,
    /// The ports that must be free on the server.
    pub new_ports: Vec<u16>,
    /// The files with firewall rules.
    pub nftops: StrMap<String>,
    pub inbound_data: Vec<Inbound>,
    pub sublinks_suffix: &'static str,
    pub jsublinks_suffix: &'static str,
    pub rebase_data: Option<RebaseData>,
    /// Variables of single tasks.
    pub extra: StrMap<String>,
}

/// Secrets with a dummy in place of each of them.
pub open spec fn hidden_secrets() -> SecretsView {
    SecretsView {
        health_path: "******"@,
        doh_endpoint: "******"@,
        xui_username: "******"@,
        xui_password: "******"@,
        xui_token: Some("******"@),
        xui_webpath: "******"@,
        xui_subpath: "******"@,
        xui_jsubpath: "******"@,
        mother_subids: Map::empty(),
    }
}

impl AnsibleVars {
    /// Puts dummies in place of the secrets.
    pub fn hide_secrets(&mut self)
        ensures
            final(self).secrets@ == hidden_secrets(),
            final(self).secrets@.health_path == "******"@,
            final(self).secrets@.doh_endpoint == "******"@,
            final(self).secrets@.xui_username == "******"@,
            final(self).secrets@.xui_password == "******"@,
            final(self).secrets@.xui_token == Some("******"@),
            final(self).secrets@.xui_webpath == "******"@,
            final(self).secrets@.xui_subpath == "******"@,
            final(self).secrets@.xui_jsubpath == "******"@,
            final(self).secrets@.mother_subids == Map::<Seq<char>, Seq<char>>::empty(),
            *final(self) == (AnsibleVars { secrets: final(self).secrets, ..*old(self) }),
    {
        let none: StrMap<String> = StrMap::new();
        assert(text_map(none@) =~= Map::empty());
        self.secrets = Secrets {
            health_path: "******".to_owned(),
            doh_endpoint: "******".to_owned(),
            xui_username: "******".to_owned(),
            xui_password: "******".to_owned(),
            xui_token: XuiToken::from("******".to_owned()),
            xui_webpath: "******".to_owned(),
            xui_subpath: "******".to_owned(),
            xui_jsubpath: "******".to_owned(),
            mother_subids: none,
        };
    }
}

/// The first `k` inbounds without the supervisor's.
pub open spec fn real_upto(s: Seq<InboundView>, k: int) -> Seq<InboundView>
    decreases k,
{
    if k <= 0 {
        Seq::empty()
    } else if s[k - 1].name == super_text() {
        real_upto(s, k - 1)
    } else {
        real_upto(s, k - 1).push(s[k - 1])
    }
}

/// The inbounds without the supervisor's.
pub open spec fn real_inbounds(s: Seq<InboundView>) -> Seq<InboundView> {
    real_upto(s, s.len() as int)
}

pub fn without_super(s: &Vec<Inbound>) -> (r: Vec<Inbound>)
    ensures
        inbound_views(r@) == real_inbounds(inbound_views(s@)),
{
    let ghost views = inbound_views(s@);
    let super_name = SvcKind::super_name();
    let mut r: Vec<Inbound> = Vec::new();
    assert(inbound_views(r@) =~= Seq::empty());
    let mut i: usize = 0;
    while i < s.len()
        invariant
            i <= s@.len(),
            views == inbound_views(s@),
            super_name@ == super_text(),
            inbound_views(r@) == real_upto(views, i as int),
        decreases s@.len() - i,
    {
        assert(views[i as int] == s@[i as int]@);
        if s[i].name != super_name {
            let ghost before = r@;
            r.push(s[i].clone());
            assert(inbound_views(r@) =~= inbound_views(before).push(views[i as int]));
        }
        i += 1;
    }
    r
}

/// The port is that of one of the inbounds.
pub open spec fn has_port(s: Seq<InboundView>, p: u16) -> bool {
    exists|i: int| 0 <= i < s.len() && #[trigger] s[i].port == p
}

/// The ports of the first `k` added inbounds that are not freed first.
pub open spec fn added_ports(added: Seq<InboundView>, removed: Seq<InboundView>, k: int) -> Seq<u16>
    decreases k,
{
    if k <= 0 {
        Seq::empty()
    } else if has_port(removed, added[k - 1].port) {
        added_ports(added, removed, k - 1)
    } else {
        added_ports(added, removed, k - 1).push(added[k - 1].port)
    }
}

/// The ports that must be free on the server: its SSH port where the connection
/// goes through another one, the internal ports in a full setup, and those of
/// added inbounds in a Rebase.
pub open spec fn needed_ports(
    conn: AnsibleConnView,
    ssh_port: u16,
    full: bool,
    data: Option<RebaseDataView>,
) -> Seq<u16> {
    let ssh = if conn.port != Some(ssh_port) {
        seq![ssh_port]
    } else {
        Seq::<u16>::empty()
    };
    ssh + (if full {
        seq![UNBOUND_PORT, UI_PORT, SUB_PORT]
    } else {
        match data {
            Some(d) => added_ports(
                d.added_inbounds,
                d.removed_inbounds,
                d.added_inbounds.len() as int,
            ),
            None => Seq::empty(),
        }
    })
}

fn has_inbound_port(s: &Vec<Inbound>, p: u16) -> (r: bool)
    ensures
        r == has_port(inbound_views(s@), p),
{
    let ghost views = inbound_views(s@);
    let mut i: usize = 0;
    while i < s.len()
        invariant
            i <= s@.len(),
            views == inbound_views(s@),
            forall|j: int| 0 <= j < i ==> #[trigger] views[j].port != p,
        decreases s@.len() - i,
    {
        assert(views[i as int] == s@[i as int]@);
        if s[i].port == p {
            assert(views[i as int].port == p);
            return true;
        }
        i += 1;
    }
    false
}

fn collect_ports(
    conn: &AnsibleConn,
    ssh_port: u16,
    full: bool,
    data: &Option<RebaseData>,
) -> (r: Vec<u16>)
    ensures
        r@ == needed_ports(conn@, ssh_port, full, data_view(*data)),
{
    let mut ports: Vec<u16> = Vec::new();
    let same = match conn.ansible_port {
        Some(p) => p == ssh_port,
        None => false,
    };
    if !same {
        ports.push(ssh_port);
    }
    let ghost ssh = ports@;
    assert(ssh =~= (if conn@.port != Some(ssh_port) {
        seq![ssh_port]
    } else {
        Seq::<u16>::empty()
    }));
    if full {
        ports.push(UNBOUND_PORT);
        ports.push(UI_PORT);
        ports.push(SUB_PORT);
        assert(ports@ =~= ssh + seq![UNBOUND_PORT, UI_PORT, SUB_PORT]);
    } else if let Some(d) = data {
        let ghost added = inbound_views(d.added_inbounds@);
        let ghost removed = inbound_views(d.removed_inbounds@);
        assert(ports@ =~= ssh + added_ports(added, removed, 0));
        let mut i: usize = 0;
        while i < d.added_inbounds.len()
            invariant
                i <= d.added_inbounds@.len(),
                added == inbound_views(d.added_inbounds@),
                removed == inbound_views(d.removed_inbounds@),
                ports@ == ssh + added_ports(added, removed, i as int),
            decreases d.added_inbounds@.len() - i,
        {
            assert(added[i as int] == d.added_inbounds@[i as int]@);
            let p = d.added_inbounds[i].port;
            if !has_inbound_port(&d.removed_inbounds, p) {
                ports.push(p);
                assert(ports@ =~= ssh + added_ports(added, removed, i as int).push(p));
            }
            i += 1;
        }
    } else {
        assert(ports@ =~= ssh + Seq::<u16>::empty());
    }
    ports
}

/// An Ansible run on a server.
pub struct AnsibleRun {
    pub server: KetServer,
    pub actions: Vec<AnsibleAction>,
    /// Is the output shown while it comes in?
    pub stream_it: bool,
    pub rebase_data: Option<RebaseData>,
}

/// What is prepared for an Ansible run.
pub struct AnsiblePlan {
    pub vars: AnsibleVars,
    /// The identifier of the actions.
    pub id: String,
    /// The hosts of the inventory.
    pub hosts: StrMap<AnsibleConn>,
}

pub open spec fn conn_map(m: Map<Seq<char>, AnsibleConn>) -> Map<Seq<char>, AnsibleConnView> {
    m.map_values(|c: AnsibleConn| c@)
}

/// The connection to the local host.
pub open spec fn local_conn() -> AnsibleConnView {
    AnsibleConnView { host: None, port: None, user: None, connection: Some("local"@) }
}

/// The hosts of an inventory: the server, and the local host.
pub open spec fn inventory_hosts(name: Seq<char>, conn: AnsibleConnView) -> Map<
    Seq<char>,
    AnsibleConnView,
> {
    Map::empty().insert(name, conn).insert("localhost"@, local_conn())
}

fn inventory(name: &String, conn: AnsibleConn) -> (r: StrMap<AnsibleConn>)
    ensures
        conn_map(r@) == inventory_hosts(name@, conn@),
{
    let mut hosts: StrMap<AnsibleConn> = StrMap::new();
    let local = AnsibleConn {
        ansible_host: None,
        ansible_port: None,
        ansible_user: None,
        ansible_connection: Some("local".to_owned()),
    };
    hosts.or_insert("localhost".to_owned(), local);
    hosts.or_insert(name.clone(), conn);
    assert(conn_map(hosts@) =~= inventory_hosts(name@, conn@));
    hosts
}

/// The variables of single tasks: the restoration of a database is told the path
/// of the backup.
pub open spec fn extra_of(restores: bool, latest_backup: Option<Seq<char>>) -> Map<
    Seq<char>,
    Seq<char>,
> {
    if restores {
        Map::empty().insert("latest_backup"@, latest_backup->Some_0)
    } else {
        Map::empty()
    }
}

/// Why a run cannot be prepared.
pub open spec fn run_fault(
    server: ServerView,
    actions: Seq<AnsibleAction>,
    latest_backup: Option<Seq<char>>,
) -> Option<Seq<char>> {
    if actions.contains(AnsibleAction::XrayRestoreDB) && latest_backup is None {
        Some("Couldn't find any DB to choose from."@)
    } else if server.cfstate is None {
        Some("Couldn't unwrap Cloudflare state data in write_ansible_vars."@)
    } else if server.ansible_conn is None {
        Some("Couldn't unwrap AnsibleConn of server "@ + server.name + " for AnsibleVars."@)
    } else {
        None
    }
}

/// A backup or the Cloudflare state that the run needs is missing, which shows
/// before its actions are put in order.
pub open spec fn lacks_data(
    server: ServerView,
    actions: Seq<AnsibleAction>,
    latest_backup: Option<Seq<char>>,
) -> bool {
    (actions.contains(AnsibleAction::XrayRestoreDB) && latest_backup is None) || server.cfstate is None
}

/// The variables are those of the run: `actions` are what it does.
pub open spec fn vars_fit(
    server: ServerView,
    actions: Seq<AnsibleAction>,
    data: Option<RebaseDataView>,
    data_dir: Seq<char>,
    latest_backup: Option<Seq<char>>,
    v: AnsibleVars,
) -> bool {
    let cf = server.cfstate->Some_0;
    let conn = server.ansible_conn->Some_0;
    let full = actions.contains(AnsibleAction::FullSetup);
    &&& v.ansible_tasks@.len() == actions.len()
    &&& forall|i: int|
        0 <= i < actions.len() ==> (#[trigger] v.ansible_tasks@[i])@ == task_text(actions[i])
    &&& v.full_setup == full
    &&& v.data_dir@ == data_dir
    &&& v.node_name@ == server.name
    &&& v.base_hostname@ == server.domain
    &&& v.node_region@ == server.region
    &&& v.ssh_port == server.ssh_port
    &&& v.dns_subdomain@ == server.dns_subdomain
    &&& v.ui_subdomain@ == server.ui_subdomain
    &&& v.sub_subdomain@ == server.sub_subdomain
    &&& v.secrets@ == server.secrets
    &&& v.cloudflare_proxied == (server.cloudflare_proxied && !cf.too_deep)
    &&& v.cloudflare_state@ == cf
    &&& v.unbound_https_port == UNBOUND_PORT
    &&& v.ui_webport == UI_PORT
    &&& v.sub_port == SUB_PORT
    &&& v.new_ports@ == needed_ports(conn, server.ssh_port, full, data)
    &&& inbound_views(v.inbound_data@) == real_inbounds(server.inbounds)
    &&& v.sublinks_suffix@ == SUBLINKS_SUFFIX@
    &&& v.jsublinks_suffix@ == JSON_SUBLINKS_SUFFIX@
    &&& data_view(v.rebase_data) == data
    &&& text_map(v.extra@) == extra_of(
        actions.contains(AnsibleAction::XrayRestoreDB),
        latest_backup,
    )
}

impl AnsibleRun {
    /// Prepares the run: puts its actions in order, and computes the variables.
    pub fn write_ansible_vars(
        &mut self,
        data_dir: &str,
        nftops: StrMap<String>,
        latest_backup: Option<String>,
    ) -> (r: Result<AnsiblePlan, String>)
        ensures
            final(self).server == old(self).server,
            final(self).rebase_data == old(self).rebase_data,
            final(self).stream_it == old(self).stream_it,
            if lacks_data(
                old(self).server@,
                old(self).actions@,
                crate::text::opt_text(latest_backup),
            ) {
                final(self).actions@ == old(self).actions@
            } else {
                &&& in_priority_order(final(self).actions@)
                &&& forall|a: AnsibleAction| #[trigger]
                    final(self).actions@.contains(a) <==> old(self).actions@.contains(a)
            },
            ({
                let fault = run_fault(
                    old(self).server@,
                    old(self).actions@,
                    crate::text::opt_text(latest_backup),
                );
                match r {
                    Err(e) => fault == Some(e@),
                    Ok(p) => {
                        &&& fault is None
                        &&& vars_fit(
                            old(self).server@,
                            final(self).actions@,
                            data_view(old(self).rebase_data),
                            data_dir@,
                            crate::text::opt_text(latest_backup),
                            p.vars,
                        )
                        &&& p.vars.nftops == nftops
                        &&& p.id@ == joined(id_texts(final(self).actions@), "_"@)
                        &&& conn_map(p.hosts@) == inventory_hosts(
                            old(self).server@.name,
                            old(self).server@.ansible_conn->Some_0,
                        )
                    },
                }
            }),
    {
        let ghost before = self.actions@;
        let restores = AnsibleAction::contains(&self.actions, AnsibleAction::XrayRestoreDB);
        let ghost backup = crate::text::opt_text(latest_backup);
        let mut extra: StrMap<String> = StrMap::new();
        assert(text_map(extra@) =~= Map::empty());
        if restores {
            match latest_backup {
                Some(path) => {
                    extra.or_insert("latest_backup".to_owned(), path);
                    assert(text_map(extra@) =~= extra_of(true, backup));
                },
                None => return Err("Couldn't find any DB to choose from.".to_owned()),
            }
        }
        let cf = match &self.server.cfstate {
            Some(c) => c.clone(),
            None => return Err(
                "Couldn't unwrap Cloudflare state data in write_ansible_vars.".to_owned(),
            ),
        };
        AnsibleAction::sort_unique(&mut self.actions);
        assert forall|a: AnsibleAction| #[trigger] self.actions@.contains(a) <==> before.contains(
            a,
        ) by {}
        let conn = match &self.server.ansible_conn {
            Some(c) => c.clone(),
            None => {
                let mut e = "Couldn't unwrap AnsibleConn of server ".to_owned();
                e.append(self.server.name.as_str());
                e.append(" for AnsibleVars.");
                return Err(e);
            },
        };
        let full_setup = AnsibleAction::contains(&self.actions, AnsibleAction::FullSetup);
        let new_ports = collect_ports(&conn, self.server.ssh_port, full_setup, &self.rebase_data);
        let tasks = AnsibleAction::task_gen(&self.actions);
        let proxied = if cf.too_deep {
            false
        } else {
            self.server.cloudflare_proxied
        };
        let data = match &self.rebase_data {
            Some(d) => Some(d.clone()),
            None => None,
        };
        let vars = AnsibleVars {
            ansible_tasks: tasks.tasks,
            full_setup,
            data_dir: data_dir.to_owned(),
            node_name: self.server.name.clone(),
            base_hostname: self.server.domain.clone(),
            node_region: self.server.region.clone(),
            ssh_port: self.server.ssh_port,
            dns_subdomain: self.server.dns_subdomain.clone(),
            ui_subdomain: self.server.ui_subdomain.clone(),
            sub_subdomain: self.server.sub_subdomain.clone(),
            secrets: self.server.secrets.clone(),
            cloudflare_proxied: proxied,
            cloudflare_state: cf,
            unbound_https_port: UNBOUND_PORT,
            ui_webport: UI_PORT,
            sub_port: SUB_PORT,
            new_ports,
            nftops,
            inbound_data: without_super(&self.server.inbounds),
            sublinks_suffix: SUBLINKS_SUFFIX,
            jsublinks_suffix: JSON_SUBLINKS_SUFFIX,
            rebase_data: data,
            extra,
        };
        let hosts = inventory(&self.server.name, conn);
        Ok(AnsiblePlan { vars, id: tasks.id, hosts })
    }
}

// ---------------------------------------------------------------- files

pub open spec fn inventory_file_text(server: Seq<char>, id: Seq<char>) -> Seq<char> {
    server + "-"@ + id + "-inventory.json"@
}

pub open spec fn vars_file_text(server: Seq<char>, id: Seq<char>) -> Seq<char> {
    server + "-"@ + id + "-general_vars.yaml"@
}

pub open spec fn log_file_text(
    server: Seq<char>,
    id: Seq<char>,
    time: Seq<char>,
    stream: Seq<char>,
) -> Seq<char> {
    server + "-"@ + id + "-"@ + time + "-ansible-"@ + stream + ".log"@
}

/// The name of the inventory file of a run.
pub fn inventory_filename(server: &str, id: &str) -> (r: String)
    ensures
        r@ == inventory_file_text(server@, id@),
{
    let mut s = server.to_owned();
    s.append("-");
    s.append(id);
    s.append("-inventory.json");
    s
}

/// The name of the file with the variables of a run.
pub fn vars_filename(server: &str, id: &str) -> (r: String)
    ensures
        r@ == vars_file_text(server@, id@),
{
    let mut s = server.to_owned();
    s.append("-");
    s.append(id);
    s.append("-general_vars.yaml");
    s
}

/// The name of a log file of a run that starts at the time; `stream` is
/// `stdout` or `stderr`.
pub fn log_filename(server: &str, id: &str, time: &str, stream: &str) -> (r: String)
    ensures
        r@ == log_file_text(server@, id@, time@, stream@),
{
    let mut s = server.to_owned();
    s.append("-");
    s.append(id);
    s.append("-");
    s.append(time);
    s.append("-ansible-");
    s.append(stream);
    s.append(".log");
    s
}

/// The texts and paths that an Ansible run is started with.
pub struct AnsibleData {
    /// The variables, as JSON.
    pub ansible_vars: String,
    pub inventory_path: String,
    pub stdout_path: String,
    pub stderr_path: String,
}

/// Where the files of a run stand: those of the server in its own folder below
/// the data directory, and the logs in the state directory.
pub fn ansible_data(
    dirs: &DaemonDirs,
    server: &str,
    id: &str,
    vars_json: String,
    stdout_time: &str,
    stderr_time: &str,
) -> (r: AnsibleData)
    ensures
        r.ansible_vars@ == vars_json@,
        r.inventory_path@ == joined_path(
            joined_path(dirs@.data_dir, server@),
            inventory_file_text(server@, id@),
        ),
        r.stdout_path@ == joined_path(
            dirs@.state_dir,
            log_file_text(server@, id@, stdout_time@, "stdout"@),
        ),
        r.stderr_path@ == joined_path(
            dirs@.state_dir,
            log_file_text(server@, id@, stderr_time@, "stderr"@),
        ),
{
    let folder = join_path(dirs.data_dir.as_str(), server);
    let inventory = inventory_filename(server, id);
    let out = log_filename(server, id, stdout_time, "stdout");
    let err = log_filename(server, id, stderr_time, "stderr");
    AnsibleData {
        ansible_vars: vars_json,
        inventory_path: join_path(folder.as_str(), inventory.as_str()),
        stdout_path: join_path(dirs.state_dir.as_str(), out.as_str()),
        stderr_path: join_path(dirs.state_dir.as_str(), err.as_str()),
    }
}

// ---------------------------------------------------------------- calls

/// A call of an Ansible program.
pub struct AnsibleCall {
    pub program: &'static str,
    pub args: Vec<String>,
    /// The variables of its environment.
    pub env: Vec<(&'static str, String)>,
    /// Is the output shown while it comes in?
    pub stream: bool,
}

pub open spec fn env_texts(s: Seq<(&'static str, String)>) -> Seq<(Seq<char>, Seq<char>)> {
    s.map_values(|v: (&'static str, String)| (v.0@, v.1@))
}

/// The path of the configuration with which all calls are made.
pub open spec fn ansible_cfg_text(dirs: DirsView) -> Seq<char> {
    joined_path(dirs.config_dir, ANSIBLE_CFG@)
}

/// The path of the playbook that runs the tasks.
pub open spec fn playbook_text(dirs: DirsView) -> Seq<char> {
    joined_path(joined_path(dirs.data_dir, ANSIBLE_DIR@), MASTER_PLAYBOOK@)
}

/// The call with which the connection to the hosts of an inventory is tested.
pub fn ping_call(dirs: &DaemonDirs, inventory_path: &str) -> (r: AnsibleCall)
    ensures
        r.program@ == "ansible"@,
        texts(r.args@) == seq!["all"@, "-i"@, inventory_path@, "-m"@, "ping"@],
        env_texts(r.env@) == seq![("ANSIBLE_CONFIG"@, ansible_cfg_text(dirs@))],
        !r.stream,
{
    let mut args: Vec<String> = Vec::new();
    args.push("all".to_owned());
    args.push("-i".to_owned());
    args.push(inventory_path.to_owned());
    args.push("-m".to_owned());
    args.push("ping".to_owned());
    assert(texts(args@) =~= seq!["all"@, "-i"@, inventory_path@, "-m"@, "ping"@]);
    let mut env: Vec<(&'static str, String)> = Vec::new();
    env.push(("ANSIBLE_CONFIG", join_path(dirs.config_dir.as_str(), ANSIBLE_CFG)));
    assert(env_texts(env@) =~= seq![("ANSIBLE_CONFIG"@, ansible_cfg_text(dirs@))]);
    AnsibleCall { program: "ansible", args, env, stream: false }
}

impl AnsibleRun {
    /// The call that performs the run. The output is shown where the run asks for
    /// it or where that is asked for all runs; it is not buffered then.
    pub fn run(&self, dirs: &DaemonDirs, data: &AnsibleData, token: &str, stream_all: bool) -> (r:
        AnsibleCall)
        ensures
            r.program@ == "ansible-playbook"@,
            texts(r.args@) == seq![
                playbook_text(dirs@),
                "-i"@,
                data.inventory_path@,
                "-e"@,
                data.ansible_vars@,
            ],
            r.stream == (self.stream_it || stream_all),
            env_texts(r.env@) == (if r.stream {
                seq![
                    ("ANSIBLE_CONFIG"@, ansible_cfg_text(dirs@)),
                    ("CF_API_TOKEN"@, token@),
                    ("PYTHONUNBUFFERED"@, "1"@),
                ]
            } else {
                seq![("ANSIBLE_CONFIG"@, ansible_cfg_text(dirs@)), ("CF_API_TOKEN"@, token@)]
            }),
    {
        let sources = join_path(dirs.data_dir.as_str(), ANSIBLE_DIR);
        let playbook = join_path(sources.as_str(), MASTER_PLAYBOOK);
        let mut args: Vec<String> = Vec::new();
        args.push(playbook);
        args.push("-i".to_owned());
        args.push(data.inventory_path.clone());
        args.push("-e".to_owned());
        args.push(data.ansible_vars.clone());
        assert(texts(args@) =~= seq![
            playbook_text(dirs@),
            "-i"@,
            data.inventory_path@,
            "-e"@,
            data.ansible_vars@,
        ]);
        let stream = self.stream_it || stream_all;
        let mut env: Vec<(&'static str, String)> = Vec::new();
        env.push(("ANSIBLE_CONFIG", join_path(dirs.config_dir.as_str(), ANSIBLE_CFG)));
        env.push(("CF_API_TOKEN", token.to_owned()));
        assert(env_texts(env@) =~= seq![
            ("ANSIBLE_CONFIG"@, ansible_cfg_text(dirs@)),
            ("CF_API_TOKEN"@, token@),
        ]);
        if stream {
            env.push(("PYTHONUNBUFFERED", "1".to_owned()));
            assert(env_texts(env@) =~= seq![
                ("ANSIBLE_CONFIG"@, ansible_cfg_text(dirs@)),
                ("CF_API_TOKEN"@, token@),
                ("PYTHONUNBUFFERED"@, "1"@),
            ]);
        }
        AnsibleCall { program: "ansible-playbook", args, env, stream }
    }
}

// ---------------------------------------------------------------- outcomes

/// What a failed ping tells.
pub open spec fn ping_fault_text(stdout: Seq<char>) -> Seq<char> {
    if has_text(stdout, "Permission denied"@) {
        "problem with the SSH key--either it is not properly installed on the server, or password is required"@
    } else if has_text(stdout, "Connection timed out"@) || has_text(stdout, "No route to host"@) {
        "network/firewall issue or port mismatch--the remote server cannot be reached"@
    } else if has_text(stdout, "Host key verification failed"@) {
        "host key verification failed"@
    } else {
        stdout
    }
}

/// Judges the output of a ping that failed.
pub fn ping_fault(stdout: &str) -> (r: String)
    ensures
        r@ == ping_fault_text(stdout@),
{
    if str_contains(stdout, "Permission denied") {
        "problem with the SSH key--either it is not properly installed on the server, or password is required".to_owned()
    } else if str_contains(stdout, "Connection timed out") || str_contains(
        stdout,
        "No route to host",
    ) {
        "network/firewall issue or port mismatch--the remote server cannot be reached".to_owned()
    } else if str_contains(stdout, "Host key verification failed") {
        "host key verification failed".to_owned()
    } else {
        stdout.to_owned()
    }
}

/// Judges a ping by whether it succeeded and by the bytes that it printed.
pub fn test_ssh(success: bool, stdout: &[u8]) -> (r: Result<(), String>)
    ensures
        r is Ok <==> success,
        r matches Err(e) ==> e@ == ping_fault_text(crate::outside::lossy_text(stdout@)),
{
    if success {
        Ok(())
    } else {
        let text = crate::outside::from_utf8_lossy(stdout);
        Err(ping_fault(text.as_str()))
    }
}

/// A task file on disk.
pub struct TaskFile {
    pub path: String,
    pub exists: bool,
    pub readable: bool,
}

#[verifier::ext_equal]
pub struct TaskFileView {
    pub path: Seq<char>,
    pub exists: bool,
    pub readable: bool,
}

impl View for TaskFile {
    type V = TaskFileView;

    open spec fn view(&self) -> TaskFileView {
        TaskFileView { path: self.path@, exists: self.exists, readable: self.readable }
    }
}

/// What is wrong with the task file of an action.
pub open spec fn task_file_fault(a: AnsibleAction, f: TaskFileView) -> Option<Seq<char>> {
    if !f.exists {
        Some(
            "The path for task '"@ + task_text(a) + "' is invalid or doesn't exist. Path: "@ + f.path,
        )
    } else if !f.readable {
        Some("The path for task '"@ + task_text(a) + "' is not readable."@)
    } else {
        None
    }
}

pub open spec fn task_files_fault(files: Seq<TaskFile>, i: int) -> Option<Seq<char>>
    decreases files.len() - i,
{
    if i >= files.len() {
        None
    } else {
        match task_file_fault(all_actions()[i], files[i]@) {
            Some(e) => Some(e),
            None => task_files_fault(files, i + 1),
        }
    }
}

impl AnsibleAction {
    /// Checks that the task files of all actions can be read. They are given in
    /// the order of the actions.
    pub fn validate(files: &Vec<TaskFile>) -> (r: Result<(), String>)
        requires
            files@.len() == all_actions().len(),
        ensures
            match r {
                Ok(_) => task_files_fault(files@, 0) is None,
                Err(e) => task_files_fault(files@, 0) == Some(e@),
            },
    {
        let names = AnsibleAction::all_taskfiles();
        let mut i: usize = 0;
        while i < files.len()
            invariant
                i <= files@.len(),
                files@.len() == all_actions().len(),
                names@.len() == all_actions().len(),
                forall|j: int|
                    0 <= j < names@.len() ==> (#[trigger] names@[j])@ == task_text(
                        all_actions()[j],
                    ),
                task_files_fault(files@, 0) == task_files_fault(files@, i as int),
            decreases files@.len() - i,
        {
            let f = &files[i];
            if !f.exists {
                let mut e = "The path for task '".to_owned();
                e.append(names[i]);
                e.append("' is invalid or doesn't exist. Path: ");
                e.append(f.path.as_str());
                return Err(e);
            }
            if !f.readable {
                let mut e = "The path for task '".to_owned();
                e.append(names[i]);
                e.append("' is not readable.");
                return Err(e);
            }
            i += 1;
        }
        Ok(())
    }
}

// ---------------------------------------------------------------- setup and destruction

/// The run that provisions a server.
pub fn full_setup(server: KetServer) -> (r: AnsibleRun)
    ensures
        r.server == server,
        r.actions@ == seq![AnsibleAction::FullSetup],
        r.stream_it,
        r.rebase_data is None,
{
    let mut actions: Vec<AnsibleAction> = Vec::new();
    actions.push(AnsibleAction::FullSetup);
    AnsibleRun { server, actions, stream_it: true, rebase_data: None }
}

/// The run that turns a production server back into a bare one.
pub fn destroy_server(server: KetServer) -> (r: AnsibleRun)
    ensures
        r.server == server,
        r.actions@ == seq![AnsibleAction::DestroyServer],
        r.stream_it,
        r.rebase_data is None,
{
    let mut actions: Vec<AnsibleAction> = Vec::new();
    actions.push(AnsibleAction::DestroyServer);
    AnsibleRun { server, actions, stream_it: true, rebase_data: None }
}

/// The run that checks the certificate of a server, and renews it where needed.
pub fn acme_check(server: KetServer) -> (r: AnsibleRun)
    ensures
        r.server == server,
        r.actions@ == seq![AnsibleAction::Acme],
        !r.stream_it,
        r.rebase_data is None,
{
    let mut actions: Vec<AnsibleAction> = Vec::new();
    actions.push(AnsibleAction::Acme);
    AnsibleRun { server, actions, stream_it: false, rebase_data: None }
}

/// What changes the state of a server for good.
#[derive(Clone, Copy, Debug, PartialEq, Eq, Structural)]
pub enum LifeChange {
    Setup,
    Destruction,
}

/// What a setup or destruction has come to. Where a step fails on the controller
/// the task fails with that error.
#[derive(Clone, Copy, Debug, PartialEq, Eq, Structural)]
pub enum LifeEvent {
    /// The task has started.
    Started,
    /// The time in which it can still be aborted is over.
    CountedDown,
    /// The run is over, with success or not.
    Ran(bool),
    /// The run could not be made.
    NotRun,
    /// The token of the panel was read.
    TokenRead,
    /// The state of the server was changed.
    Marked,
    /// The backups of an earlier life of the server were deleted.
    BackupsDeleted,
    /// Another setup or destruction is under way, or not.
    Inquired(bool),
}

/// What a setup or destruction does next.
#[derive(Clone, Copy, Debug, PartialEq, Eq, Structural)]
pub enum LifeAction {
    /// Leaves the time to abort it.
    CountDown,
    Run,
    /// Reads the token that the run has produced.
    ReadToken,
    MarkProduction,
    MarkOffgrid,
    DeleteBackups,
    /// Leaves the tasks, and asks whether another one is under way.
    Inquire,
    /// Leaves the reload to the last one that is under way.
    DelayReload,
    Reload,
    /// Reports the failure; nothing changes.
    ReportFailure,
}

/// The step after an event.
pub open spec fn life_step(change: LifeChange, e: LifeEvent) -> LifeAction {
    match e {
        LifeEvent::Started => LifeAction::CountDown,
        LifeEvent::CountedDown => LifeAction::Run,
        LifeEvent::NotRun => LifeAction::ReportFailure,
        LifeEvent::Ran(success) => if !success {
            LifeAction::ReportFailure
        } else if change == LifeChange::Setup {
            LifeAction::ReadToken
        } else {
            LifeAction::MarkOffgrid
        },
        LifeEvent::TokenRead => LifeAction::MarkProduction,
        LifeEvent::Marked => if change == LifeChange::Setup {
            LifeAction::DeleteBackups
        } else {
            LifeAction::Inquire
        },
        LifeEvent::BackupsDeleted => LifeAction::Inquire,
        LifeEvent::Inquired(found) => if found {
            LifeAction::DelayReload
        } else {
            LifeAction::Reload
        },
    }
}

/// Decides what a setup or destruction does next.
pub fn next_life_step(change: LifeChange, e: LifeEvent) -> (r: LifeAction)
    ensures
        r == life_step(change, e),
{
    match e {
        LifeEvent::Started => LifeAction::CountDown,
        LifeEvent::CountedDown => LifeAction::Run,
        LifeEvent::NotRun => LifeAction::ReportFailure,
        LifeEvent::Ran(success) => if !success {
            LifeAction::ReportFailure
        } else if change == LifeChange::Setup {
            LifeAction::ReadToken
        } else {
            LifeAction::MarkOffgrid
        },
        LifeEvent::TokenRead => LifeAction::MarkProduction,
        LifeEvent::Marked => if change == LifeChange::Setup {
            LifeAction::DeleteBackups
        } else {
            LifeAction::Inquire
        },
        LifeEvent::BackupsDeleted => LifeAction::Inquire,
        LifeEvent::Inquired(found) => if found {
            LifeAction::DelayReload
        } else {
            LifeAction::Reload
        },
    }
}

/// The event is what can come of the action. What ends the task is followed by
/// nothing.
pub open spec fn life_answers(a: LifeAction, e: LifeEvent) -> bool {
    match a {
        LifeAction::CountDown => e == LifeEvent::CountedDown,
        LifeAction::Run => e is Ran || e is NotRun,
        LifeAction::ReadToken => e == LifeEvent::TokenRead,
        LifeAction::MarkProduction => e == LifeEvent::Marked,
        LifeAction::MarkOffgrid => e == LifeEvent::Marked,
        LifeAction::DeleteBackups => e == LifeEvent::BackupsDeleted,
        LifeAction::Inquire => e is Inquired,
        LifeAction::DelayReload => false,
        LifeAction::Reload => false,
        LifeAction::ReportFailure => false,
    }
}

/// The event at this place comes of the step after the one before it.
pub open spec fn life_follows(change: LifeChange, c: Seq<LifeEvent>, i: int) -> bool {
    life_answers(life_step(change, c[i - 1]), c[i])
}

/// A course of a setup or destruction, from its start on.
pub open spec fn is_life_course(change: LifeChange, c: Seq<LifeEvent>) -> bool {
    &&& c.len() > 0
    &&& c[0] == LifeEvent::Started
    &&& forall|i: int| 0 < i < c.len() ==> #[trigger] life_follows(change, c, i)
}

// ---------------------------------------------------------------- the laws

/// The state of a server is changed only after its run has succeeded: a setup
/// makes it Production, and a destruction makes it Offgrid.
pub proof fn law_only_success_changes_the_server(change: LifeChange, c: Seq<LifeEvent>, i: int)
    requires
        is_life_course(change, c),
        0 <= i < c.len(),
        life_step(change, c[i]) == LifeAction::MarkProduction || life_step(change, c[i])
            == LifeAction::MarkOffgrid,
    ensures
        life_step(change, c[i]) == LifeAction::MarkProduction <==> change == LifeChange::Setup,
        exists|j: int| 0 <= j <= i && #[trigger] c[j] == LifeEvent::Ran(true),
{
    if c[i] == LifeEvent::TokenRead {
        assert(life_follows(change, c, i));
        assert(c[i - 1] == LifeEvent::Ran(true));
    } else {
        assert(c[i] == LifeEvent::Ran(true));
    }
}

/// The daemon reloads only after the state of the server was changed.
pub proof fn law_reload_follows_a_change(change: LifeChange, c: Seq<LifeEvent>, i: int)
    requires
        is_life_course(change, c),
        0 <= i < c.len(),
        life_step(change, c[i]) == LifeAction::Reload,
    ensures
        exists|j: int| 0 <= j < i && #[trigger] c[j] == LifeEvent::Marked,
{
    assert(life_follows(change, c, i));
    if c[i - 1] == LifeEvent::BackupsDeleted {
        assert(life_follows(change, c, i - 1));
        assert(c[i - 2] == LifeEvent::Marked);
    } else {
        assert(c[i - 1] == LifeEvent::Marked);
    }
}

/// How far a setup or destruction has come at the least.
spec fn life_rank(e: LifeEvent) -> int {
    match e {
        LifeEvent::Started => 0,
        LifeEvent::CountedDown => 1,
        LifeEvent::Ran(_) => 2,
        LifeEvent::NotRun => 2,
        LifeEvent::TokenRead => 3,
        LifeEvent::Marked => 4,
        LifeEvent::BackupsDeleted => 5,
        LifeEvent::Inquired(_) => 6,
    }
}

proof fn lemma_life_rank(change: LifeChange, c: Seq<LifeEvent>, i: int)
    requires
        is_life_course(change, c),
        0 <= i < c.len(),
    ensures
        i <= life_rank(c[i]),
    decreases i,
{
    if i > 0 {
        lemma_life_rank(change, c, i - 1);
        assert(life_follows(change, c, i));
    }
}

/// Every setup and every destruction comes to its end: no course has more than
/// seven events.
pub proof fn law_life_courses_end(change: LifeChange, c: Seq<LifeEvent>)
    requires
        is_life_course(change, c),
    ensures
        c.len() <= 7,
{
    lemma_life_rank(change, c, c.len() - 1);
}

/// A server on a domain that is too deep in its zone is never proxied.
pub proof fn law_too_deep_is_not_proxied(
    server: ServerView,
    actions: Seq<AnsibleAction>,
    data: Option<RebaseDataView>,
    data_dir: Seq<char>,
    latest_backup: Option<Seq<char>>,
    v: AnsibleVars,
)
    requires
        vars_fit(server, actions, data, data_dir, latest_backup, v),
        server.cfstate is Some,
        server.cfstate->Some_0.too_deep,
    ensures
        !v.cloudflare_proxied,
{
}

/// The supervisor's inbound is not handed to Ansible, and all others are.
pub proof fn law_super_is_not_deployed(s: Seq<InboundView>, i: InboundView)
    ensures
        real_inbounds(s).contains(i) <==> s.contains(i) && i.name != super_text(),
{
    lemma_real(s, s.len() as int, i);
    assert(s.take(s.len() as int) =~= s);
}

proof fn lemma_real(s: Seq<InboundView>, k: int, i: InboundView)
    requires
        0 <= k <= s.len(),
    ensures
        real_upto(s, k).contains(i) <==> s.take(k).contains(i) && i.name != super_text(),
    decreases k,
{
    if k > 0 {
        lemma_real(s, k - 1, i);
        let before = real_upto(s, k - 1);
        assert(s.take(k) =~= s.take(k - 1).push(s[k - 1]));
        assert(s.take(k)[k - 1] == s[k - 1]);
        assert(s.take(k - 1).contains(i) ==> s.take(k).contains(i)) by {
            if s.take(k - 1).contains(i) {
                let before = s.take(k - 1);
                let j = choose|j: int| 0 <= j < before.len() && before[j] == i;
                assert(s.take(k)[j] == i);
            }
        }
        assert(s.take(k).contains(i) ==> s.take(k - 1).contains(i) || i == s[k - 1]) by {
            if s.take(k).contains(i) {
                let j = choose|j: int| 0 <= j < k && s.take(k)[j] == i;
                if j < k - 1 {
                    assert(s.take(k - 1)[j] == i);
                }
            }
        }
        if s[k - 1].name != super_text() {
            let now = before.push(s[k - 1]);
            assert(now[before.len() as int] == s[k - 1]);
            assert(before.contains(i) ==> now.contains(i)) by {
                if before.contains(i) {
                    let j = choose|j: int| 0 <= j < before.len() && before[j] == i;
                    assert(now[j] == i);
                }
            }
            assert(now.contains(i) ==> before.contains(i) || i == s[k - 1]) by {
                if now.contains(i) {
                    let j = choose|j: int| 0 <= j < now.len() && now[j] == i;
                    if j < before.len() {
                        assert(before[j] == i);
                    }
                }
            }
        }
    }
}

/// The variables of a run say what the server is, what is done and with which data.
pub proof fn law_vars_describe_the_run(
    server: ServerView,
    actions: Seq<AnsibleAction>,
    data: Option<RebaseDataView>,
    data_dir: Seq<char>,
    latest_backup: Option<Seq<char>>,
    v: AnsibleVars,
)
    requires
        vars_fit(server, actions, data, data_dir, latest_backup, v),
        server.cfstate is Some,
    ensures
        v.ansible_tasks@.len() == actions.len(),
        forall|i: int|
            0 <= i < actions.len() ==> (#[trigger] v.ansible_tasks@[i])@ == task_text(actions[i]),
        v.full_setup <==> actions.contains(AnsibleAction::FullSetup),
        v.data_dir@ == data_dir,
        v.node_name@ == server.name,
        v.base_hostname@ == server.domain,
        v.node_region@ == server.region,
        v.ssh_port == server.ssh_port,
        v.dns_subdomain@ == server.dns_subdomain,
        v.ui_subdomain@ == server.ui_subdomain,
        v.sub_subdomain@ == server.sub_subdomain,
        v.secrets@ == server.secrets,
        v.cloudflare_proxied <==> server.cloudflare_proxied && !server.cfstate->Some_0.too_deep,
        v.cloudflare_state@ == server.cfstate->Some_0,
        v.unbound_https_port == 444,
        v.ui_webport == 400,
        v.sub_port == 401,
        v.sublinks_suffix@ == "_sublinks.txt"@,
        v.jsublinks_suffix@ == "_json_sublinks.txt"@,
        data is Some ==> v.rebase_data is Some && v.rebase_data->Some_0@ == data->Some_0,
        data is None ==> v.rebase_data is None,
        actions.contains(AnsibleAction::XrayRestoreDB) && latest_backup is Some ==> v.extra@.dom()
            == set!["latest_backup"@] && v.extra@["latest_backup"@]@ == latest_backup->Some_0,
        !actions.contains(AnsibleAction::XrayRestoreDB) ==> v.extra@.dom() == Set::<
            Seq<char>,
        >::empty(),
        inbound_views(v.inbound_data@) == real_inbounds(server.inbounds),
{
    let x = text_map(v.extra@);
    assert(x.dom() =~= v.extra@.dom());
    if actions.contains(AnsibleAction::XrayRestoreDB) && latest_backup is Some {
        assert(x.dom() =~= set!["latest_backup"@]);
        assert(x["latest_backup"@] == v.extra@["latest_backup"@]@);
    }
}

/// The ports that must be free on the server are its SSH port, where the connection
/// goes through another one; in a full setup the three internal ports; and otherwise
/// those of the inbounds that a Rebase adds, apart from those that it frees.
pub proof fn law_ports_that_must_be_free(
    server: ServerView,
    actions: Seq<AnsibleAction>,
    data: Option<RebaseDataView>,
    data_dir: Seq<char>,
    latest_backup: Option<Seq<char>>,
    v: AnsibleVars,
    p: u16,
)
    requires
        vars_fit(server, actions, data, data_dir, latest_backup, v),
        server.ansible_conn is Some,
    ensures
        v.new_ports@.contains(p) <==> {
            ||| p == server.ssh_port && server.ansible_conn->Some_0.port != Some(server.ssh_port)
            ||| actions.contains(AnsibleAction::FullSetup) && (p == 444 || p == 400 || p == 401)
            ||| !actions.contains(AnsibleAction::FullSetup) && data is Some && (exists|i: int|
                0 <= i < data->Some_0.added_inbounds.len()
                    && #[trigger] data->Some_0.added_inbounds[i].port == p) && !(exists|i: int|
                0 <= i < data->Some_0.removed_inbounds.len()
                    && #[trigger] data->Some_0.removed_inbounds[i].port == p)
        },
{
    let conn = server.ansible_conn->Some_0;
    let full = actions.contains(AnsibleAction::FullSetup);
    let ssh = if conn.port != Some(server.ssh_port) {
        seq![server.ssh_port]
    } else {
        Seq::<u16>::empty()
    };
    let rest = if full {
        seq![UNBOUND_PORT, UI_PORT, SUB_PORT]
    } else {
        match data {
            Some(d) => added_ports(
                d.added_inbounds,
                d.removed_inbounds,
                d.added_inbounds.len() as int,
            ),
            None => Seq::empty(),
        }
    };
    let all = v.new_ports@;
    assert(all == ssh + rest);
    assert(all.contains(p) <==> ssh.contains(p) || rest.contains(p)) by {
        if ssh.contains(p) {
            let j = choose|j: int| 0 <= j < ssh.len() && ssh[j] == p;
            assert(all[j] == p);
        }
        if rest.contains(p) {
            let j = choose|j: int| 0 <= j < rest.len() && rest[j] == p;
            assert(all[ssh.len() + j] == p);
        }
        if all.contains(p) {
            let j = choose|j: int| 0 <= j < all.len() && all[j] == p;
            if j < ssh.len() {
                assert(ssh[j] == p);
            } else {
                assert(rest[j - ssh.len()] == p);
            }
        }
    }
    if conn.port != Some(server.ssh_port) {
        assert(ssh[0] == server.ssh_port);
    }
    if full {
        assert(rest[0] == 444 && rest[1] == 400 && rest[2] == 401);
    } else if data is Some {
        let d = data->Some_0;
        lemma_added_ports(d.added_inbounds, d.removed_inbounds, d.added_inbounds.len() as int, p);
    }
}

proof fn lemma_added_ports(added: Seq<InboundView>, removed: Seq<InboundView>, k: int, p: u16)
    requires
        0 <= k <= added.len(),
    ensures
        added_ports(added, removed, k).contains(p) <==> (exists|i: int|
            0 <= i < k && #[trigger] added[i].port == p) && !has_port(removed, p),
    decreases k,
{
    if k > 0 {
        lemma_added_ports(added, removed, k - 1, p);
        let before = added_ports(added, removed, k - 1);
        let now = added_ports(added, removed, k);
        if now.contains(p) {
            let j = choose|j: int| 0 <= j < now.len() && now[j] == p;
            if j < before.len() {
                assert(before[j] == p);
            } else {
                assert(added[k - 1].port == p);
            }
        }
        if before.contains(p) {
            let j = choose|j: int| 0 <= j < before.len() && before[j] == p;
            assert(now[j] == p);
        }
        if added[k - 1].port == p && !has_port(removed, p) {
            assert(now[before.len() as int] == p);
        }
        if exists|i: int| 0 <= i < k && #[trigger] added[i].port == p {
            let i = choose|i: int| 0 <= i < k && #[trigger] added[i].port == p;
            if i < k - 1 {
                assert(0 <= i < k - 1 && added[i].port == p);
            }
        }
    }
}

/// Of a list of inbounds that is made of two, those of the first are handed to Ansible
/// before those of the second. One inbound alone is handed on unless it is that of the
/// supervisor.
pub proof fn law_inbounds_are_deployed_in_order(a: Seq<InboundView>, b: Seq<InboundView>, x: InboundView)
    ensures
        real_inbounds(a + b) == real_inbounds(a) + real_inbounds(b),
        x.name != "super"@ ==> real_inbounds(seq![x]) == seq![x],
        x.name == "super"@ ==> real_inbounds(seq![x]) == Seq::<InboundView>::empty(),
{
    lemma_real_of_two(a, b, b.len() as int);
    let s = seq![x];
    assert(real_upto(s, 0) =~= Seq::empty());
    assert(real_upto(s, 1) == (if s[0].name == super_text() {
        real_upto(s, 0)
    } else {
        real_upto(s, 0).push(s[0])
    }));
    if x.name != super_text() {
        assert(real_inbounds(s) =~= seq![x]);
    }
}

proof fn lemma_real_of_two(a: Seq<InboundView>, b: Seq<InboundView>, k: int)
    requires
        0 <= k <= b.len(),
    ensures
        real_upto(a + b, a.len() + k) == real_upto(a, a.len() as int) + real_upto(b, k),
    decreases k,
{
    if k > 0 {
        lemma_real_of_two(a, b, k - 1);
        assert((a + b)[a.len() + k - 1] == b[k - 1]);
        if b[k - 1].name != super_text() {
            assert(real_upto(a, a.len() as int) + real_upto(b, k) =~= (real_upto(
                a,
                a.len() as int,
            ) + real_upto(b, k - 1)).push(b[k - 1]));
        }
    } else {
        lemma_real_prefix(a, b, a.len() as int);
        assert(real_upto(a, a.len() as int) + real_upto(b, 0) =~= real_upto(a, a.len() as int));
    }
}

proof fn lemma_real_prefix(a: Seq<InboundView>, b: Seq<InboundView>, k: int)
    requires
        0 <= k <= a.len(),
    ensures
        real_upto(a + b, k) == real_upto(a, k),
    decreases k,
{
    if k > 0 {
        lemma_real_prefix(a, b, k - 1);
        assert((a + b)[k - 1] == a[k - 1]);
    }
}

/// A run can be prepared exactly where its server can be reached and has a Cloudflare
/// state, and where there is a backup if one is to be restored.
pub proof fn law_runs_need_their_data(
    server: ServerView,
    actions: Seq<AnsibleAction>,
    latest_backup: Option<Seq<char>>,
)
    ensures
        run_fault(server, actions, latest_backup) is None <==> server.cfstate is Some
            && server.ansible_conn is Some && (actions.contains(AnsibleAction::XrayRestoreDB)
            ==> latest_backup is Some),
        actions.contains(AnsibleAction::XrayRestoreDB) && latest_backup is None ==> run_fault(
            server,
            actions,
            latest_backup,
        ) == Some("Couldn't find any DB to choose from."@),
{
}

/// An inventory has the server, as it is reached, and the local host, and no others.
pub proof fn law_inventory_has_two_hosts(name: Seq<char>, conn: AnsibleConnView)
    requires
        name != "localhost"@,
    ensures
        inventory_hosts(name, conn).dom() == set![name, "localhost"@],
        inventory_hosts(name, conn)[name] == conn,
        inventory_hosts(name, conn)["localhost"@].connection == Some("local"@),
        inventory_hosts(name, conn)["localhost"@].host is None,
        inventory_hosts(name, conn)["localhost"@].port is None,
        inventory_hosts(name, conn)["localhost"@].user is None,
{
    assert(inventory_hosts(name, conn).dom() =~= set![name, "localhost"@]);
}

/// What a failed ping says is told in plain words where it is known: a key that is not
/// accepted before an unreachable server, and that before an unknown host key. Anything
/// else is told as it is.
pub proof fn law_ping_faults_are_told(stdout: Seq<char>)
    ensures
        ({
            let key = has_text(stdout, "Permission denied"@);
            let away = has_text(stdout, "Connection timed out"@) || has_text(
                stdout,
                "No route to host"@,
            );
            let unknown = has_text(stdout, "Host key verification failed"@);
            let r = ping_fault_text(stdout);
            &&& key ==> r
                == "problem with the SSH key--either it is not properly installed on the server, or password is required"@
            &&& !key && away ==> r
                == "network/firewall issue or port mismatch--the remote server cannot be reached"@
            &&& !key && !away && unknown ==> r == "host key verification failed"@
            &&& !key && !away && !unknown ==> r == stdout
        }),
{
}

/// The task files are accepted exactly where all of them exist and can be read, and the
/// fault that is told is that of the first one which does not.
pub proof fn law_all_task_files_are_needed(files: Seq<TaskFile>, i: int)
    requires
        files.len() == all_actions().len(),
    ensures
        task_files_fault(files, 0) is None <==> forall|j: int|
            0 <= j < files.len() ==> (#[trigger] files[j]).exists && files[j].readable,
        0 <= i < files.len() && !(files[i].exists && files[i].readable) && (forall|j: int|
            0 <= j < i ==> (#[trigger] files[j]).exists && files[j].readable) ==> task_files_fault(
            files,
            0,
        ) == Some(
            if !files[i].exists {
                "The path for task '"@ + task_text(all_actions()[i])
                    + "' is invalid or doesn't exist. Path: "@ + files[i].path@
            } else {
                "The path for task '"@ + task_text(all_actions()[i]) + "' is not readable."@
            },
        ),
{
    lemma_task_files(files, 0);
    if 0 <= i < files.len() && !(files[i].exists && files[i].readable) && (forall|j: int|
        0 <= j < i ==> (#[trigger] files[j]).exists && files[j].readable) {
        lemma_first_task_file(files, 0, i);
    }
}

proof fn lemma_task_files(files: Seq<TaskFile>, k: int)
    requires
        0 <= k <= files.len(),
    ensures
        task_files_fault(files, k) is None <==> forall|j: int|
            k <= j < files.len() ==> (#[trigger] files[j]).exists && files[j].readable,
    decreases files.len() - k,
{
    if k < files.len() {
        lemma_task_files(files, k + 1);
        if task_files_fault(files, k) is None {
            assert forall|j: int| k <= j < files.len() implies (#[trigger] files[j]).exists
                && files[j].readable by {
                if j == k {
                    assert(files[k]@.exists && files[k]@.readable);
                }
            }
        }
    }
}

proof fn lemma_first_task_file(files: Seq<TaskFile>, k: int, i: int)
    requires
        0 <= k <= i < files.len(),
        forall|j: int| 0 <= j < i ==> (#[trigger] files[j]).exists && files[j].readable,
        !(files[i].exists && files[i].readable),
    ensures
        task_files_fault(files, k) == task_file_fault(all_actions()[i], files[i]@),
    decreases i - k,
{
    if k < i {
        assert(files[k].exists && files[k].readable);
        lemma_first_task_file(files, k + 1, i);
    }
}

/// The course of a setup or destruction: the time to abort it, the run, and after its
/// success the change of state, with the token of the panel read before it and old
/// backups deleted after it in a setup. In the end the last one under way reloads.
pub proof fn law_life_goes_on(change: LifeChange, e: LifeEvent)
    ensures
        life_step(change, e) == LifeAction::CountDown <==> e == LifeEvent::Started,
        life_step(change, e) == LifeAction::Run <==> e == LifeEvent::CountedDown,
        life_step(change, e) == LifeAction::ReportFailure <==> e == LifeEvent::NotRun || e
            == LifeEvent::Ran(false),
        life_step(change, e) == LifeAction::ReadToken <==> change == LifeChange::Setup && e
            == LifeEvent::Ran(true),
        life_step(change, e) == LifeAction::MarkProduction <==> e == LifeEvent::TokenRead,
        life_step(change, e) == LifeAction::MarkOffgrid <==> change == LifeChange::Destruction && e
            == LifeEvent::Ran(true),
        life_step(change, e) == LifeAction::DeleteBackups <==> change == LifeChange::Setup && e
            == LifeEvent::Marked,
        life_step(change, e) == LifeAction::Inquire <==> e == LifeEvent::BackupsDeleted || (change
            == LifeChange::Destruction && e == LifeEvent::Marked),
        life_step(change, e) == LifeAction::DelayReload <==> e == LifeEvent::Inquired(true),
        life_step(change, e) == LifeAction::Reload <==> e == LifeEvent::Inquired(false),
{
}

} // verus!
