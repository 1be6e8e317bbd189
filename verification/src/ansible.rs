//! Ansible runs: the actions, their task files, and the data they are given.

use vstd::prelude::*;

use crate::constants::{
    ACME, ADD_INBOUND, BASE_SETUP, BASICS, BOOTSTRAP, CLOUDFLARE, CLOUDFLARE_DEL, DEL_INBOUND, DESTROY_SERVER, DNS_RESET, DOH_SETUP, FAIL2BAN, FIREWALL, FIREWALL_BOOTSTRAP, FULL_SETUP, NGINX_FIX1, NGINX_FIX2, NGINX_SETUP, OUTBLOCKED_UPDATE, PANEL_SETTINGS, PORTS_CHECK, SSH_SETUP, XRAY_FIX1, XRAY_FIX2, XUI_AUTH,
};
use crate::daemon::lock::{all_digits, lemma_decimal};
use crate::text::{decimal, is_digit, join, joined, number, opt_text, texts};

pub mod runs;

verus! {

/// How Ansible reaches a server.
pub struct AnsibleConn {
    /// The address of the server.
    pub ansible_host: Option<String>,
    /// The port at which the SSH connection is made. It can differ from the
    /// server's SSH port until that one is set up.
    pub ansible_port: Option<u16>,
    /// Always root.
    pub ansible_user: Option<&'static str>,
    /// The kind of connection, for the entry of the local host.
    pub ansible_connection: Option<String>,
}

#[verifier::ext_equal]
pub struct AnsibleConnView {
    pub host: Option<Seq<char>>,
    pub port: Option<u16>,
    pub user: Option<Seq<char>>,
    pub connection: Option<Seq<char>>,
}

impl View for AnsibleConn {
    type V = AnsibleConnView;

    open spec fn view(&self) -> AnsibleConnView {
        AnsibleConnView {
            host: opt_text(self.ansible_host),
            port: self.ansible_port,
            user: match self.ansible_user {
                Some(u) => Some(u@),
                None => None,
            },
            connection: opt_text(self.ansible_connection),
        }
    }
}

pub open spec fn conn_view(c: Option<AnsibleConn>) -> Option<AnsibleConnView> {
    match c {
        Some(x) => Some(x@),
        None => None,
    }
}

impl Default for AnsibleConn {
    fn default() -> (r: Self)
        ensures
            r@ == (AnsibleConnView { host: None, port: None, user: None, connection: None }),
    {
        AnsibleConn {
            ansible_host: None,
            ansible_port: None,
            ansible_user: None,
            ansible_connection: None,
        }
    }
}

impl Clone for AnsibleConn {
    fn clone(&self) -> (r: Self)
        ensures
            r@ == self@,
    {
        AnsibleConn {
            ansible_host: self.ansible_host.clone(),
            ansible_port: self.ansible_port,
            ansible_user: self.ansible_user,
            ansible_connection: self.ansible_connection.clone(),
        }
    }
}

/// The Ansible actions in order of priority: of several that are asked for, the
/// earlier ones run first. A change of SSH comes after all the others that
/// reconcile a server, so that a failure before it does not lock the program
/// out.
#[derive(Clone, Copy, Debug, PartialEq, Eq, Structural)]
pub enum AnsibleAction {
    PortsCheck,
    DnsReset,
    Basics,
    CloudflareDel,
    Cloudflare,
    Acme,
    Nginx,
    DoH,
    FirewallBootstrap,
    OutblockedUpdate,
    BaseSetup,
    FullSetup,
    NginxRestart,
    NginxRestoreConfig,
    XrayRestart,
    XrayRestoreDB,
    Bootstrap,
    XuiAuth,
    DelInbound,
    AddInbound,
    PanelSettings,
    Fail2ban,
    Firewall,
    SSH,
    DestroyServer,
}

/// The priority of an action, which is its identifier too.
pub open spec fn action_id(a: AnsibleAction) -> nat {
    match a {
        AnsibleAction::PortsCheck => 0,
        AnsibleAction::DnsReset => 1,
        AnsibleAction::Basics => 2,
        AnsibleAction::CloudflareDel => 3,
        AnsibleAction::Cloudflare => 4,
        AnsibleAction::Acme => 5,
        AnsibleAction::Nginx => 6,
        AnsibleAction::DoH => 7,
        AnsibleAction::FirewallBootstrap => 8,
        AnsibleAction::OutblockedUpdate => 9,
        AnsibleAction::BaseSetup => 10,
        AnsibleAction::FullSetup => 11,
        AnsibleAction::NginxRestart => 12,
        AnsibleAction::NginxRestoreConfig => 13,
        AnsibleAction::XrayRestart => 14,
        AnsibleAction::XrayRestoreDB => 15,
        AnsibleAction::Bootstrap => 16,
        AnsibleAction::XuiAuth => 17,
        AnsibleAction::DelInbound => 18,
        AnsibleAction::AddInbound => 19,
        AnsibleAction::PanelSettings => 20,
        AnsibleAction::Fail2ban => 21,
        AnsibleAction::Firewall => 22,
        AnsibleAction::SSH => 23,
        AnsibleAction::DestroyServer => 24,
    }
}

/// The file with the tasks of an action.
pub open spec fn task_text(a: AnsibleAction) -> Seq<char> {
    match a {
        AnsibleAction::PortsCheck => PORTS_CHECK@,
        AnsibleAction::DnsReset => DNS_RESET@,
        AnsibleAction::Basics => BASICS@,
        AnsibleAction::CloudflareDel => CLOUDFLARE_DEL@,
        AnsibleAction::Cloudflare => CLOUDFLARE@,
        AnsibleAction::Acme => ACME@,
        AnsibleAction::Nginx => NGINX_SETUP@,
        AnsibleAction::DoH => DOH_SETUP@,
        AnsibleAction::FirewallBootstrap => FIREWALL_BOOTSTRAP@,
        AnsibleAction::OutblockedUpdate => OUTBLOCKED_UPDATE@,
        AnsibleAction::BaseSetup => BASE_SETUP@,
        AnsibleAction::FullSetup => FULL_SETUP@,
        AnsibleAction::NginxRestart => NGINX_FIX1@,
        AnsibleAction::NginxRestoreConfig => NGINX_FIX2@,
        AnsibleAction::XrayRestart => XRAY_FIX1@,
        AnsibleAction::XrayRestoreDB => XRAY_FIX2@,
        AnsibleAction::Bootstrap => BOOTSTRAP@,
        AnsibleAction::XuiAuth => XUI_AUTH@,
        AnsibleAction::DelInbound => DEL_INBOUND@,
        AnsibleAction::AddInbound => ADD_INBOUND@,
        AnsibleAction::PanelSettings => PANEL_SETTINGS@,
        AnsibleAction::Fail2ban => FAIL2BAN@,
        AnsibleAction::Firewall => FIREWALL@,
        AnsibleAction::SSH => SSH_SETUP@,
        AnsibleAction::DestroyServer => DESTROY_SERVER@,
    }
}

/// All actions in order of priority.
pub open spec fn all_actions() -> Seq<AnsibleAction> {
    seq![
        AnsibleAction::PortsCheck,
        AnsibleAction::DnsReset,
        AnsibleAction::Basics,
        AnsibleAction::CloudflareDel,
        AnsibleAction::Cloudflare,
        AnsibleAction::Acme,
        AnsibleAction::Nginx,
        AnsibleAction::DoH,
        AnsibleAction::FirewallBootstrap,
        AnsibleAction::OutblockedUpdate,
        AnsibleAction::BaseSetup,
        AnsibleAction::FullSetup,
        AnsibleAction::NginxRestart,
        AnsibleAction::NginxRestoreConfig,
        AnsibleAction::XrayRestart,
        AnsibleAction::XrayRestoreDB,
        AnsibleAction::Bootstrap,
        AnsibleAction::XuiAuth,
        AnsibleAction::DelInbound,
        AnsibleAction::AddInbound,
        AnsibleAction::PanelSettings,
        AnsibleAction::Fail2ban,
        AnsibleAction::Firewall,
        AnsibleAction::SSH,
        AnsibleAction::DestroyServer,
    ]
}

/// The list is in order of priority and holds nothing twice.
pub open spec fn in_priority_order(s: Seq<AnsibleAction>) -> bool {
    forall|i: int, j: int|
        0 <= i < j < s.len() ==> action_id(#[trigger] s[i]) < action_id(#[trigger] s[j])
}

/// The identifiers of actions, in decimal.
pub open spec fn id_texts(s: Seq<AnsibleAction>) -> Seq<Seq<char>> {
    s.map_values(|a: AnsibleAction| decimal(action_id(a)))
}

/// The task files of a list of actions, with an identifier for the list.
pub struct AnsibleTasks {
    pub tasks: Vec<&'static str>,
    pub id: String,
}

impl AnsibleAction {
    /// All actions in order of priority.
    pub fn all() -> (v: Vec<Self>)
        ensures
            v@ == all_actions(),
    {
        let mut v: Vec<AnsibleAction> = Vec::new();
        v.push(AnsibleAction::PortsCheck);
        v.push(AnsibleAction::DnsReset);
        v.push(AnsibleAction::Basics);
        v.push(AnsibleAction::CloudflareDel);
        v.push(AnsibleAction::Cloudflare);
        v.push(AnsibleAction::Acme);
        v.push(AnsibleAction::Nginx);
        v.push(AnsibleAction::DoH);
        v.push(AnsibleAction::FirewallBootstrap);
        v.push(AnsibleAction::OutblockedUpdate);
        v.push(AnsibleAction::BaseSetup);
        v.push(AnsibleAction::FullSetup);
        v.push(AnsibleAction::NginxRestart);
        v.push(AnsibleAction::NginxRestoreConfig);
        v.push(AnsibleAction::XrayRestart);
        v.push(AnsibleAction::XrayRestoreDB);
        v.push(AnsibleAction::Bootstrap);
        v.push(AnsibleAction::XuiAuth);
        v.push(AnsibleAction::DelInbound);
        v.push(AnsibleAction::AddInbound);
        v.push(AnsibleAction::PanelSettings);
        v.push(AnsibleAction::Fail2ban);
        v.push(AnsibleAction::Firewall);
        v.push(AnsibleAction::SSH);
        v.push(AnsibleAction::DestroyServer);
        assert(v@ =~= all_actions());
        v
    }

    /// The task files of all actions, in order of priority.
    pub fn all_taskfiles() -> (v: Vec<&'static str>)
        ensures
            v@.len() == all_actions().len(),
            forall|i: int| 0 <= i < v@.len() ==> (#[trigger] v@[i])@ == task_text(all_actions()[i]),
    {
        let actions = AnsibleAction::all();
        AnsibleAction::tasknames(&actions)
    }

    fn tasknames(actions: &Vec<Self>) -> (v: Vec<&'static str>)
        ensures
            v@.len() == actions@.len(),
            forall|i: int| 0 <= i < v@.len() ==> (#[trigger] v@[i])@ == task_text(actions@[i]),
    {
        let mut v: Vec<&'static str> = Vec::new();
        let mut i: usize = 0;
        while i < actions.len()
            invariant
                i == v@.len(),
                i <= actions@.len(),
                forall|j: int| 0 <= j < i ==> (#[trigger] v@[j])@ == task_text(actions@[j]),
            decreases actions@.len() - i,
        {
            v.push(actions[i].taskname());
            i += 1;
        }
        v
    }

    /// Puts the actions in order of priority, each once.
    pub fn sort_unique(actions: &mut Vec<Self>)
        ensures
            in_priority_order(final(actions)@),
            forall|a: AnsibleAction|
                final(actions)@.contains(a) <==> #[trigger] old(actions)@.contains(a),
    {
        let all = AnsibleAction::all();
        let mut sorted: Vec<AnsibleAction> = Vec::new();
        let mut i: usize = 0;
        while i < all.len()
            invariant
                i <= all@.len(),
                all@ == all_actions(),
                *actions == *old(actions),
                in_priority_order(sorted@),
                forall|k: int| 0 <= k < sorted@.len() ==> action_id(#[trigger] sorted@[k]) < i,
                forall|a: AnsibleAction|
                    #![trigger old(actions)@.contains(a)]
                    sorted@.contains(a) <==> old(actions)@.contains(a) && action_id(a) < i,
            decreases all@.len() - i,
        {
            let ghost before = sorted@;
            let a = all[i];
            proof {
                lemma_all_by_id(i as int);
            }
            if AnsibleAction::contains(actions, a) {
                sorted.push(a);
                assert(sorted@[before.len() as int] == a);
            }
            assert forall|b: AnsibleAction|
                #![trigger old(actions)@.contains(b)]
                sorted@.contains(b) <==> old(actions)@.contains(b) && action_id(b) < i + 1 by {
                if sorted@.contains(b) && !before.contains(b) {
                    let k = choose|k: int| 0 <= k < sorted@.len() && sorted@[k] == b;
                    if k < before.len() {
                        assert(before[k] == b);
                    }
                }
                if before.contains(b) {
                    let k = choose|k: int| 0 <= k < before.len() && before[k] == b;
                    assert(sorted@[k] == b);
                }
                lemma_id_determines(a, b);
            }
            i += 1;
        }
        proof {
            assert forall|a: AnsibleAction| action_id(a) < 25 by {
                lemma_id_bound(a);
            }
        }
        *actions = sorted;
    }

    /// Is the action in the list?
    pub fn contains(actions: &Vec<Self>, a: Self) -> (r: bool)
        ensures
            r == actions@.contains(a),
    {
        let mut i: usize = 0;
        while i < actions.len()
            invariant
                i <= actions@.len(),
                forall|j: int| 0 <= j < i ==> #[trigger] actions@[j] != a,
            decreases actions@.len() - i,
        {
            if actions[i] == a {
                return true;
            }
            i += 1;
        }
        false
    }

    /// The task files of the actions in the given order, and the identifiers of
    /// the actions joined by underscores.
    pub fn task_gen(actions: &Vec<Self>) -> (r: AnsibleTasks)
        ensures
            r.tasks@.len() == actions@.len(),
            forall|i: int|
                0 <= i < actions@.len() ==> (#[trigger] r.tasks@[i])@ == task_text(actions@[i]),
            r.id@ == joined(id_texts(actions@), "_"@),
    {
        let mut ids: Vec<String> = Vec::new();
        let mut i: usize = 0;
        while i < actions.len()
            invariant
                i <= actions@.len(),
                texts(ids@) == id_texts(actions@).take(i as int),
            decreases actions@.len() - i,
        {
            let ghost before = ids@;
            let id = number(actions[i].id());
            ids.push(id);
            assert(texts(ids@) =~= texts(before).push(id@));
            assert(id_texts(actions@).take(i + 1) =~= id_texts(actions@).take(i as int).push(id@));
            i += 1;
        }
        assert(id_texts(actions@).take(i as int) =~= id_texts(actions@));
        AnsibleTasks { tasks: AnsibleAction::tasknames(actions), id: join(&ids, "_") }
    }

    /// The identifier of the action.
    pub fn id(&self) -> (r: u64)
        ensures
            r == action_id(*self),
    {
        match self {
            AnsibleAction::PortsCheck => 0,
            AnsibleAction::DnsReset => 1,
            AnsibleAction::Basics => 2,
            AnsibleAction::CloudflareDel => 3,
            AnsibleAction::Cloudflare => 4,
            AnsibleAction::Acme => 5,
            AnsibleAction::Nginx => 6,
            AnsibleAction::DoH => 7,
            AnsibleAction::FirewallBootstrap => 8,
            AnsibleAction::OutblockedUpdate => 9,
            AnsibleAction::BaseSetup => 10,
            AnsibleAction::FullSetup => 11,
            AnsibleAction::NginxRestart => 12,
            AnsibleAction::NginxRestoreConfig => 13,
            AnsibleAction::XrayRestart => 14,
            AnsibleAction::XrayRestoreDB => 15,
            AnsibleAction::Bootstrap => 16,
            AnsibleAction::XuiAuth => 17,
            AnsibleAction::DelInbound => 18,
            AnsibleAction::AddInbound => 19,
            AnsibleAction::PanelSettings => 20,
            AnsibleAction::Fail2ban => 21,
            AnsibleAction::Firewall => 22,
            AnsibleAction::SSH => 23,
            AnsibleAction::DestroyServer => 24,
        }
    }

    /// The file with the tasks of the action.
    pub fn taskname(&self) -> (r: &'static str)
        ensures
            r@ == task_text(*self),
    {
        match self {
            AnsibleAction::PortsCheck => PORTS_CHECK,
            AnsibleAction::DnsReset => DNS_RESET,
            AnsibleAction::Basics => BASICS,
            AnsibleAction::CloudflareDel => CLOUDFLARE_DEL,
            AnsibleAction::Cloudflare => CLOUDFLARE,
            AnsibleAction::Acme => ACME,
            AnsibleAction::Nginx => NGINX_SETUP,
            AnsibleAction::DoH => DOH_SETUP,
            AnsibleAction::FirewallBootstrap => FIREWALL_BOOTSTRAP,
            AnsibleAction::OutblockedUpdate => OUTBLOCKED_UPDATE,
            AnsibleAction::BaseSetup => BASE_SETUP,
            AnsibleAction::FullSetup => FULL_SETUP,
            AnsibleAction::NginxRestart => NGINX_FIX1,
            AnsibleAction::NginxRestoreConfig => NGINX_FIX2,
            AnsibleAction::XrayRestart => XRAY_FIX1,
            AnsibleAction::XrayRestoreDB => XRAY_FIX2,
            AnsibleAction::Bootstrap => BOOTSTRAP,
            AnsibleAction::XuiAuth => XUI_AUTH,
            AnsibleAction::DelInbound => DEL_INBOUND,
            AnsibleAction::AddInbound => ADD_INBOUND,
            AnsibleAction::PanelSettings => PANEL_SETTINGS,
            AnsibleAction::Fail2ban => FAIL2BAN,
            AnsibleAction::Firewall => FIREWALL,
            AnsibleAction::SSH => SSH_SETUP,
            AnsibleAction::DestroyServer => DESTROY_SERVER,
        }
    }
}

/// The action at a place of the full list has that place as its identifier.
pub proof fn lemma_all_by_id(i: int)
    requires
        0 <= i < 25,
    ensures
        all_actions().len() == 25,
        action_id(all_actions()[i]) == i,
{
}

proof fn lemma_id_bound(a: AnsibleAction)
    ensures
        action_id(a) < 25,
        all_actions()[action_id(a) as int] == a,
{
}

/// Different actions have different identifiers.
pub proof fn lemma_id_determines(a: AnsibleAction, b: AnsibleAction)
    ensures
        action_id(a) == action_id(b) <==> a == b,
{
    lemma_id_bound(a);
    lemma_id_bound(b);
}

/// What tells the task files apart: the length of the name, and its first,
/// second and fifth characters.
spec fn file_mark(a: AnsibleAction) -> (nat, char, char, char) {
    match a {
        AnsibleAction::PortsCheck => (16, 'c', 'h', 'k'),
        AnsibleAction::DnsReset => (14, 'd', 'n', 'r'),
        AnsibleAction::Basics => (19, 'b', 'a', 'c'),
        AnsibleAction::CloudflareDel => (19, 'c', 'l', 'd'),
        AnsibleAction::Cloudflare => (21, 'c', 'l', 'd'),
        AnsibleAction::Acme => (18, 'a', 'c', '_'),
        AnsibleAction::Nginx => (16, 'n', 'g', 'x'),
        AnsibleAction::DoH => (14, 'd', 'o', 's'),
        AnsibleAction::FirewallBootstrap => (23, 'f', 'i', 'w'),
        AnsibleAction::OutblockedUpdate => (22, 'o', 'u', 'l'),
        AnsibleAction::BaseSetup => (15, 'b', 'a', '_'),
        AnsibleAction::FullSetup => (15, 'f', 'u', '_'),
        AnsibleAction::NginxRestart => (18, 'n', 'g', 'x'),
        AnsibleAction::NginxRestoreConfig => (25, 'n', 'g', 'x'),
        AnsibleAction::XrayRestart => (16, 'x', 'u', 'r'),
        AnsibleAction::XrayRestoreDB => (19, 'x', 'u', 'r'),
        AnsibleAction::Bootstrap => (14, 'b', 'o', 's'),
        AnsibleAction::XuiAuth => (13, 'x', 'u', 'a'),
        AnsibleAction::DelInbound => (20, 'x', 'u', 'd'),
        AnsibleAction::AddInbound => (20, 'x', 'u', 'a'),
        AnsibleAction::PanelSettings => (20, 'x', 'u', 's'),
        AnsibleAction::Fail2ban => (19, 'f', 'a', '2'),
        AnsibleAction::Firewall => (13, 'f', 'i', 'w'),
        AnsibleAction::SSH => (14, 's', 's', 's'),
        AnsibleAction::DestroyServer => (19, 'd', 'e', 'r'),
    }
}

proof fn lemma_file_mark(a: AnsibleAction)
    ensures
        task_text(a).len() == file_mark(a).0,
        task_text(a)[0] == file_mark(a).1,
        task_text(a)[1] == file_mark(a).2,
        task_text(a)[4] == file_mark(a).3,
{
    match a {
        AnsibleAction::PortsCheck => {
            reveal_strlit("check_ports.yaml");
        },
        AnsibleAction::DnsReset => {
            reveal_strlit("dns_reset.yaml");
        },
        AnsibleAction::Basics => {
            reveal_strlit("basics_install.yaml");
        },
        AnsibleAction::CloudflareDel => {
            reveal_strlit("cloudflare_del.yaml");
        },
        AnsibleAction::Cloudflare => {
            reveal_strlit("cloudflare_setup.yaml");
        },
        AnsibleAction::Acme => {
            reveal_strlit("acme_get_cert.yaml");
        },
        AnsibleAction::Nginx => {
            reveal_strlit("nginx_setup.yaml");
        },
        AnsibleAction::DoH => {
            reveal_strlit("doh_setup.yaml");
        },
        AnsibleAction::FirewallBootstrap => {
            reveal_strlit("firewall_bootstrap.yaml");
        },
        AnsibleAction::OutblockedUpdate => {
            reveal_strlit("outblocked_update.yaml");
        },
        AnsibleAction::BaseSetup => {
            reveal_strlit("base_setup.yaml");
        },
        AnsibleAction::FullSetup => {
            reveal_strlit("full_setup.yaml");
        },
        AnsibleAction::NginxRestart => {
            reveal_strlit("nginx_restart.yaml");
        },
        AnsibleAction::NginxRestoreConfig => {
            reveal_strlit("nginx_restore_config.yaml");
        },
        AnsibleAction::XrayRestart => {
            reveal_strlit("xui_restart.yaml");
        },
        AnsibleAction::XrayRestoreDB => {
            reveal_strlit("xui_restore_db.yaml");
        },
        AnsibleAction::Bootstrap => {
            reveal_strlit("bootstrap.yaml");
        },
        AnsibleAction::XuiAuth => {
            reveal_strlit("xui_auth.yaml");
        },
        AnsibleAction::DelInbound => {
            reveal_strlit("xui_del_inbound.yaml");
        },
        AnsibleAction::AddInbound => {
            reveal_strlit("xui_add_inbound.yaml");
        },
        AnsibleAction::PanelSettings => {
            reveal_strlit("xui_setup_panel.yaml");
        },
        AnsibleAction::Fail2ban => {
            reveal_strlit("fail2ban_setup.yaml");
        },
        AnsibleAction::Firewall => {
            reveal_strlit("firewall.yaml");
        },
        AnsibleAction::SSH => {
            reveal_strlit("ssh_setup.yaml");
        },
        AnsibleAction::DestroyServer => {
            reveal_strlit("destroy_server.yaml");
        },
    }
}

// ---------------------------------------------------------------- the laws

/// No two actions have the same task file, and none has an empty name.
pub proof fn law_task_files_differ(a: AnsibleAction, b: AnsibleAction)
    ensures
        task_text(a) == task_text(b) <==> a == b,
        task_text(a).len() > 0,
{
    lemma_file_mark(a);
    lemma_file_mark(b);
}

/// Two lists of actions have the same identifier only where they are the same list.
pub proof fn law_id_determines_actions(a: Seq<AnsibleAction>, b: Seq<AnsibleAction>)
    ensures
        joined(id_texts(a), "_"@) == joined(id_texts(b), "_"@) <==> a == b,
{
    if joined(id_texts(a), "_"@) == joined(id_texts(b), "_"@) {
        lemma_same_id(a, b);
    }
}

proof fn lemma_same_id(a: Seq<AnsibleAction>, b: Seq<AnsibleAction>)
    requires
        joined(id_texts(a), "_"@) == joined(id_texts(b), "_"@),
    ensures
        a == b,
    decreases a.len(),
{
    reveal_strlit("_");
    let f = id_texts(a);
    let g = id_texts(b);
    if a.len() > 0 {
        lemma_decimal(action_id(a.last()));
        assert(f.last() == decimal(action_id(a.last())));
        assert(joined(f, "_"@).len() >= f.last().len());
    }
    if b.len() > 0 {
        lemma_decimal(action_id(b.last()));
        assert(g.last() == decimal(action_id(b.last())));
        assert(joined(g, "_"@).len() >= g.last().len());
    }
    if a.len() == 0 || b.len() == 0 {
        assert(a =~= b);
    } else if a.len() == 1 && b.len() == 1 {
        lemma_ids_differ(a[0], b[0]);
        assert(a =~= b);
    } else if a.len() == 1 {
        lemma_underscore(f.last(), joined(g.drop_last(), "_"@), g.last());
    } else if b.len() == 1 {
        lemma_underscore(g.last(), joined(f.drop_last(), "_"@), f.last());
    } else {
        lemma_last_part(
            joined(f.drop_last(), "_"@),
            f.last(),
            joined(g.drop_last(), "_"@),
            g.last(),
        );
        assert(id_texts(a.drop_last()) =~= f.drop_last());
        assert(id_texts(b.drop_last()) =~= g.drop_last());
        lemma_same_id(a.drop_last(), b.drop_last());
        lemma_ids_differ(a.last(), b.last());
        assert(a =~= a.drop_last().push(a.last()));
        assert(b =~= b.drop_last().push(b.last()));
    }
}

proof fn lemma_ids_differ(a: AnsibleAction, b: AnsibleAction)
    requires
        action_id(a) == action_id(b),
    ensures
        a == b,
{
    lemma_id_bound(a);
    lemma_id_bound(b);
    assert(all_actions()[action_id(a) as int] == a);
    assert(all_actions()[action_id(b) as int] == b);
}

/// Digits alone hold no underscore.
proof fn lemma_underscore(p: Seq<char>, y: Seq<char>, q: Seq<char>)
    requires
        all_digits(p),
    ensures
        p != y + "_"@ + q,
{
    reveal_strlit("_");
    assert((y + "_"@ + q)[y.len() as int] == '_');
    if p == y + "_"@ + q {
        assert(is_digit(p[y.len() as int]));
    }
}

/// The digits behind the last underscore of a text are determined by it.
proof fn lemma_last_part(x: Seq<char>, p: Seq<char>, y: Seq<char>, q: Seq<char>)
    requires
        all_digits(p),
        all_digits(q),
        x + "_"@ + p == y + "_"@ + q,
    ensures
        x == y,
        p == q,
{
    reveal_strlit("_");
    let s = x + "_"@ + p;
    let t = y + "_"@ + q;
    assert(s.len() == x.len() + 1 + p.len());
    assert(t.len() == y.len() + 1 + q.len());
    assert(s[x.len() as int] == '_');
    assert(t[y.len() as int] == '_');
    if x.len() > y.len() {
        assert(t[x.len() as int] == q[x.len() - y.len() - 1]);
    } else if x.len() < y.len() {
        assert(s[y.len() as int] == p[y.len() - x.len() - 1]);
    }
    assert(s.take(x.len() as int) =~= x);
    assert(t.take(y.len() as int) =~= y);
    assert(s.skip((x.len() + 1) as int) =~= p);
    assert(t.skip((y.len() + 1) as int) =~= q);
}

/// The full list holds every action once, in order of priority.
pub proof fn law_all_actions_are_listed(a: AnsibleAction)
    ensures
        all_actions().contains(a),
        in_priority_order(all_actions()),
{
    lemma_id_bound(a);
    assert(all_actions()[action_id(a) as int] == a);
    assert forall|i: int, j: int| 0 <= i < j < all_actions().len() implies action_id(
        #[trigger] all_actions()[i],
    ) < action_id(#[trigger] all_actions()[j]) by {
        lemma_all_by_id(i);
        lemma_all_by_id(j);
    }
}

/// A list in order of priority is determined by the actions that it holds: the
/// same request gives the same run, in whatever order it was put together.
pub proof fn law_order_is_determined(s: Seq<AnsibleAction>, t: Seq<AnsibleAction>)
    requires
        in_priority_order(s),
        in_priority_order(t),
        forall|a: AnsibleAction| s.contains(a) <==> #[trigger] t.contains(a),
    ensures
        s == t,
    decreases s.len(),
{
    if s.len() == 0 {
        if t.len() > 0 {
            assert(t.contains(t[0]));
        }
        assert(s =~= t);
    } else {
        assert(s.contains(s.last()));
        assert(t.contains(s.last()));
        assert(t.contains(t.last()));
        assert(s.contains(t.last()));
        let i = choose|i: int| 0 <= i < s.len() && s[i] == t.last();
        let j = choose|j: int| 0 <= j < t.len() && t[j] == s.last();
        assert(s.last() == t.last()) by {
            lemma_id_determines(s.last(), t.last());
            if i < s.len() - 1 {
                assert(action_id(s[i]) < action_id(s[s.len() - 1]));
            }
            if j < t.len() - 1 {
                assert(action_id(t[j]) < action_id(t[t.len() - 1]));
            }
        }
        let s1 = s.drop_last();
        let t1 = t.drop_last();
        assert forall|a: AnsibleAction| s1.contains(a) <==> #[trigger] t1.contains(a) by {
            lemma_drop_last_holds(s, a);
            lemma_drop_last_holds(t, a);
        }
        law_order_is_determined(s1, t1);
        assert(s =~= s1.push(s.last()));
        assert(t =~= t1.push(t.last()));
    }
}

proof fn lemma_drop_last_holds(s: Seq<AnsibleAction>, a: AnsibleAction)
    requires
        s.len() > 0,
        in_priority_order(s),
    ensures
        s.drop_last().contains(a) <==> s.contains(a) && a != s.last(),
{
    let d = s.drop_last();
    if d.contains(a) {
        let i = choose|i: int| 0 <= i < d.len() && d[i] == a;
        assert(s[i] == a);
        assert(action_id(s[i]) < action_id(s[s.len() - 1]));
    }
    if s.contains(a) && a != s.last() {
        let i = choose|i: int| 0 <= i < s.len() && s[i] == a;
        assert(d[i] == a);
    }
}

/// The tasks of each action stand in the file that is named after them.
pub proof fn law_task_files_of_actions(a: AnsibleAction)
    ensures
        a is PortsCheck ==> task_text(a) == "check_ports.yaml"@,
        a is DnsReset ==> task_text(a) == "dns_reset.yaml"@,
        a is Basics ==> task_text(a) == "basics_install.yaml"@,
        a is CloudflareDel ==> task_text(a) == "cloudflare_del.yaml"@,
        a is Cloudflare ==> task_text(a) == "cloudflare_setup.yaml"@,
        a is Acme ==> task_text(a) == "acme_get_cert.yaml"@,
        a is Nginx ==> task_text(a) == "nginx_setup.yaml"@,
        a is DoH ==> task_text(a) == "doh_setup.yaml"@,
        a is FirewallBootstrap ==> task_text(a) == "firewall_bootstrap.yaml"@,
        a is OutblockedUpdate ==> task_text(a) == "outblocked_update.yaml"@,
        a is BaseSetup ==> task_text(a) == "base_setup.yaml"@,
        a is FullSetup ==> task_text(a) == "full_setup.yaml"@,
        a is NginxRestart ==> task_text(a) == "nginx_restart.yaml"@,
        a is NginxRestoreConfig ==> task_text(a) == "nginx_restore_config.yaml"@,
        a is XrayRestart ==> task_text(a) == "xui_restart.yaml"@,
        a is XrayRestoreDB ==> task_text(a) == "xui_restore_db.yaml"@,
        a is Bootstrap ==> task_text(a) == "bootstrap.yaml"@,
        a is XuiAuth ==> task_text(a) == "xui_auth.yaml"@,
        a is DelInbound ==> task_text(a) == "xui_del_inbound.yaml"@,
        a is AddInbound ==> task_text(a) == "xui_add_inbound.yaml"@,
        a is PanelSettings ==> task_text(a) == "xui_setup_panel.yaml"@,
        a is Fail2ban ==> task_text(a) == "fail2ban_setup.yaml"@,
        a is Firewall ==> task_text(a) == "firewall.yaml"@,
        a is SSH ==> task_text(a) == "ssh_setup.yaml"@,
        a is DestroyServer ==> task_text(a) == "destroy_server.yaml"@,
{
}

/// The order of priority: checks and the system come before Cloudflare and the certificate,
/// those before Nginx and what stands behind it, repairs before the panel, the removal of
/// inbounds before the addition of others, and the firewall, SSH and the destruction last.
pub proof fn law_order_of_priority()
    ensures
        action_id(AnsibleAction::PortsCheck) < action_id(AnsibleAction::DnsReset),
        action_id(AnsibleAction::DnsReset) < action_id(AnsibleAction::Basics),
        action_id(AnsibleAction::Basics) < action_id(AnsibleAction::CloudflareDel),
        action_id(AnsibleAction::CloudflareDel) < action_id(AnsibleAction::Cloudflare),
        action_id(AnsibleAction::Cloudflare) < action_id(AnsibleAction::Acme),
        action_id(AnsibleAction::Acme) < action_id(AnsibleAction::Nginx),
        action_id(AnsibleAction::Nginx) < action_id(AnsibleAction::DoH),
        action_id(AnsibleAction::DoH) < action_id(AnsibleAction::FirewallBootstrap),
        action_id(AnsibleAction::FirewallBootstrap) < action_id(AnsibleAction::OutblockedUpdate),
        action_id(AnsibleAction::OutblockedUpdate) < action_id(AnsibleAction::BaseSetup),
        action_id(AnsibleAction::BaseSetup) < action_id(AnsibleAction::FullSetup),
        action_id(AnsibleAction::FullSetup) < action_id(AnsibleAction::NginxRestart),
        action_id(AnsibleAction::NginxRestart) < action_id(AnsibleAction::NginxRestoreConfig),
        action_id(AnsibleAction::NginxRestoreConfig) < action_id(AnsibleAction::XrayRestart),
        action_id(AnsibleAction::XrayRestart) < action_id(AnsibleAction::XrayRestoreDB),
        action_id(AnsibleAction::XrayRestoreDB) < action_id(AnsibleAction::Bootstrap),
        action_id(AnsibleAction::Bootstrap) < action_id(AnsibleAction::XuiAuth),
        action_id(AnsibleAction::XuiAuth) < action_id(AnsibleAction::DelInbound),
        action_id(AnsibleAction::DelInbound) < action_id(AnsibleAction::AddInbound),
        action_id(AnsibleAction::AddInbound) < action_id(AnsibleAction::PanelSettings),
        action_id(AnsibleAction::PanelSettings) < action_id(AnsibleAction::Fail2ban),
        action_id(AnsibleAction::Fail2ban) < action_id(AnsibleAction::Firewall),
        action_id(AnsibleAction::Firewall) < action_id(AnsibleAction::SSH),
        action_id(AnsibleAction::SSH) < action_id(AnsibleAction::DestroyServer),
{
}

} // verus!
