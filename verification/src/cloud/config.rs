//! The declared cloud: the rules that a configuration must meet, and the cloud
//! that is built from it.

use vstd::prelude::*;

use crate::cloud::server::{fresh_secrets, inventory_of, seeds_fit, SeedsView};
use crate::constants::{
    ANSIBLE_PORT, MIN_MON_INTERVAL, NGINX_PORT, SSH_PORT, SUB_PORT, UI_PORT, UNBOUND_PORT,
};
use crate::outside::base64url_text;
use crate::text::{decimal, number, opt_text};
use crate::types::{
    inbound_views, is_proper, is_proper_subdomain, proper, proper_subdomain, slugged, super_text,
    super_view, Cloud, CloudView, Inbound, InboundView, Ip, KetServer, ServerState, ServerView,
    SettingsView, Slugged, SvcKind,
};

verus! {

// ---------------------------------------------------------------- addresses

/// An IPv4 address that can be the public address of a server: none of the
/// private, loopback, link-local, multicast, unspecified or shared ones
/// (100.64.0.0/10), none for documentation (192.0.2.0/24, 198.51.100.0/24 and
/// 203.0.113.0/24) or benchmarking (198.18.0.0/15), and none that is reserved
/// (240.0.0.0/4).
pub open spec fn global_v4(a: u8, b: u8, c: u8, d: u8) -> bool {
    &&& a != 10
    &&& !(a == 172 && 16 <= b <= 31)
    &&& !(a == 192 && b == 168)
    &&& a != 127
    &&& !(a == 169 && b == 254)
    &&& !(a == 0 && b == 0 && c == 0 && d == 0)
    &&& !(a == 100 && 64 <= b <= 127)
    &&& !(a == 192 && b == 0 && c == 2)
    &&& !(a == 198 && b == 51 && c == 100)
    &&& !(a == 203 && b == 0 && c == 113)
    &&& !(a == 198 && 18 <= b <= 19)
    &&& a < 224
}

/// An IPv6 address that can be the public address of a server: a global unicast
/// one that is not set aside for benchmarking (2001:2::/48), ORCHID (2001:10::/28),
/// Teredo (2001::/32) or documentation (2001:db8::/32 and 3fff::/20).
pub open spec fn global_v6(s0: u16, s1: u16, s2: u16) -> bool {
    &&& 0x2000 <= s0 <= 0x3fff
    &&& !(s0 == 0x2001 && ((s1 == 0x2 && s2 == 0) || 0x10 <= s1 <= 0x1f || s1 == 0 || s1 == 0xdb8))
    &&& !(s0 == 0x3fff && s1 <= 0xfff)
}

pub open spec fn global(ip: Ip) -> bool {
    match ip {
        Ip::V4(a, b, c, d) => global_v4(a, b, c, d),
        Ip::V6(s0, s1, s2, _, _, _, _, _) => global_v6(s0, s1, s2),
    }
}

fn is_global_v4(a: u8, b: u8, c: u8, d: u8) -> (r: bool)
    ensures
        r == global_v4(a, b, c, d),
{
    let private = a == 10 || (a == 172 && 16 <= b && b <= 31) || (a == 192 && b == 168);
    let loopback = a == 127;
    let link_local = a == 169 && b == 254;
    let multicast = 224 <= a && a <= 239;
    let unspecified = a == 0 && b == 0 && c == 0 && d == 0;
    if private || loopback || link_local || multicast || unspecified {
        return false;
    }
    let shared = a == 100 && 64 <= b && b <= 127;
    let documentation = (a == 192 && b == 0 && c == 2) || (a == 198 && b == 51 && c == 100) || (a
        == 203 && b == 0 && c == 113);
    let benchmarking = a == 198 && 18 <= b && b <= 19;
    let reserved = a >= 240;
    !(shared || documentation || benchmarking || reserved)
}

fn is_global_v6(s0: u16, s1: u16, s2: u16) -> (r: bool)
    ensures
        r == global_v6(s0, s1, s2),
{
    if s0 == 0x2001 {
        if s1 == 0x2 && s2 == 0 {
            return false;
        }
        if s1 >= 0x10 && s1 <= 0x1f {
            return false;
        }
        if s1 == 0 {
            return false;
        }
    }
    let documentation = (s0 == 0x2001 && s1 == 0xdb8) || (s0 == 0x3fff && s1 <= 0xfff);
    !documentation && 0x2000 <= s0 && s0 <= 0x3fff
}

/// Checks whether an address is suitable for a server. The check is neither
/// exhaustive, nor can it tell whether the address is usable.
pub fn is_global(ip: &Ip) -> (r: bool)
    ensures
        r == global(*ip),
{
    match ip {
        Ip::V4(a, b, c, d) => is_global_v4(*a, *b, *c, *d),
        Ip::V6(s0, s1, s2, _, _, _, _, _) => is_global_v6(*s0, *s1, *s2),
    }
}

// ---------------------------------------------------------------- inbound set

/// An inbound before this place has the name.
pub open spec fn name_before(s: Seq<InboundView>, i: int, name: Seq<char>) -> bool {
    exists|j: int| 0 <= j < i && #[trigger] s[j].name == name
}

/// An inbound before this place has the port.
pub open spec fn port_before(s: Seq<InboundView>, i: int, port: u16) -> bool {
    exists|j: int| 0 <= j < i && #[trigger] s[j].port == port
}

/// The ports that no inbound may have, in the order in which they are checked.
pub open spec fn reserved_ports() -> Seq<u16> {
    seq![SSH_PORT, NGINX_PORT, UI_PORT, SUB_PORT, UNBOUND_PORT]
}

pub open spec fn improper_set_text(name: Seq<char>) -> Seq<char> {
    "[ Cloud Config ] The inbound-set name '"@ + name + "' is not a proper name. A valid name can be '"@
        + slugged(name) + "'"@
}

/// What is wrong with the inbound at a place of the inbound set.
pub open spec fn set_entry_fault(set: Seq<InboundView>, i: int) -> Option<Seq<char>> {
    if !proper(set[i].name) {
        Some(improper_set_text(set[i].name))
    } else if name_before(set, i, set[i].name) {
        Some("[ Cloud Config ] The cloud inbound-set names are not unique."@)
    } else if port_before(set, i, set[i].port) {
        Some("[ Cloud Config ] The cloud inbound-set ports are not unique."@)
    } else {
        None
    }
}

pub open spec fn set_fault_from(set: Seq<InboundView>, i: int) -> Option<Seq<char>>
    decreases set.len() - i,
{
    if i >= set.len() {
        None
    } else {
        match set_entry_fault(set, i) {
            Some(e) => Some(e),
            None => set_fault_from(set, i + 1),
        }
    }
}

/// The first reserved port from this place on that an inbound has.
pub open spec fn reserved_from(s: Seq<InboundView>, k: int) -> Option<u16>
    decreases 5 - k,
{
    if k >= 5 {
        None
    } else if port_before(s, s.len() as int, reserved_ports()[k]) {
        Some(reserved_ports()[k])
    } else {
        reserved_from(s, k + 1)
    }
}

pub open spec fn reserved_set_text(port: u16) -> Seq<char> {
    "[ Cloud Config ] "@ + decimal(port as nat)
        + " is a reserved port and should not be duplicated or used for the cloud inbound-set ports."@
}

/// What is wrong with the inbound set.
pub open spec fn set_fault(set: Seq<InboundView>) -> Option<Seq<char>> {
    if set.len() == 0 {
        Some("[ Cloud Config ] The cloud inbound-set cannot be empty."@)
    } else {
        match set_fault_from(set, 0) {
            Some(e) => Some(e),
            None => if name_before(set, set.len() as int, super_text()) {
                Some(
                    "[ Cloud Config ] The cloud inbound-set names have '"@ + super_text()
                        + "' which is a reserved keyword."@,
                )
            } else {
                match reserved_from(set, 0) {
                    Some(p) => Some(reserved_set_text(p)),
                    None => None,
                }
            },
        }
    }
}

fn has_name_before(s: &Vec<Inbound>, i: usize, name: &String) -> (r: bool)
    requires
        i <= s@.len(),
    ensures
        r == name_before(inbound_views(s@), i as int, name@),
{
    let ghost views = inbound_views(s@);
    let mut j: usize = 0;
    while j < i
        invariant
            j <= i <= s@.len(),
            views == inbound_views(s@),
            forall|k: int| 0 <= k < j ==> #[trigger] views[k].name != name@,
        decreases i - j,
    {
        assert(views[j as int] == s@[j as int]@);
        if s[j].name == *name {
            assert(views[j as int].name == name@);
            return true;
        }
        j += 1;
    }
    false
}

fn has_port_before(s: &Vec<Inbound>, i: usize, port: u16) -> (r: bool)
    requires
        i <= s@.len(),
    ensures
        r == port_before(inbound_views(s@), i as int, port),
{
    let ghost views = inbound_views(s@);
    let mut j: usize = 0;
    while j < i
        invariant
            j <= i <= s@.len(),
            views == inbound_views(s@),
            forall|k: int| 0 <= k < j ==> #[trigger] views[k].port != port,
        decreases i - j,
    {
        assert(views[j as int] == s@[j as int]@);
        if s[j].port == port {
            assert(views[j as int].port == port);
            return true;
        }
        j += 1;
    }
    false
}

fn find_reserved(s: &Vec<Inbound>) -> (r: Option<u16>)
    ensures
        r == reserved_from(inbound_views(s@), 0),
{
    let ports: [u16; 5] = [SSH_PORT, NGINX_PORT, UI_PORT, SUB_PORT, UNBOUND_PORT];
    assert(ports@ =~= reserved_ports());
    let mut k: usize = 0;
    while k < 5
        invariant
            k <= 5,
            ports@ == reserved_ports(),
            reserved_from(inbound_views(s@), 0) == reserved_from(inbound_views(s@), k as int),
        decreases 5 - k,
    {
        if has_port_before(s, s.len(), ports[k]) {
            return Some(ports[k]);
        }
        k += 1;
    }
    None
}

fn check_set(set: &Vec<Inbound>) -> (r: Option<String>)
    ensures
        opt_text(r) == set_fault(inbound_views(set@)),
{
    let ghost views = inbound_views(set@);
    if set.len() == 0 {
        return Some("[ Cloud Config ] The cloud inbound-set cannot be empty.".to_owned());
    }
    let mut i: usize = 0;
    while i < set.len()
        invariant
            i <= set@.len(),
            set@.len() > 0,
            views == inbound_views(set@),
            set_fault_from(views, 0) == set_fault_from(views, i as int),
        decreases set@.len() - i,
    {
        assert(views[i as int] == set@[i as int]@);
        if !is_proper(set[i].name.as_str()) {
            let mut e = "[ Cloud Config ] The inbound-set name '".to_owned();
            e.append(set[i].name.as_str());
            e.append("' is not a proper name. A valid name can be '");
            e.append(set[i].name.slug().as_str());
            e.append("'");
            return Some(e);
        }
        if has_name_before(set, i, &set[i].name) {
            return Some("[ Cloud Config ] The cloud inbound-set names are not unique.".to_owned());
        }
        if has_port_before(set, i, set[i].port) {
            return Some("[ Cloud Config ] The cloud inbound-set ports are not unique.".to_owned());
        }
        i += 1;
    }
    let super_name = SvcKind::super_name();
    if has_name_before(set, set.len(), &super_name) {
        let mut e = "[ Cloud Config ] The cloud inbound-set names have '".to_owned();
        e.append(super_name.as_str());
        e.append("' which is a reserved keyword.");
        return Some(e);
    }
    match find_reserved(set) {
        Some(p) => {
            let mut e = "[ Cloud Config ] ".to_owned();
            e.append(number(p as u64).as_str());
            e.append(
                " is a reserved port and should not be duplicated or used for the cloud inbound-set ports.",
            );
            Some(e)
        },
        None => None,
    }
}

// ---------------------------------------------------------------- servers

/// The inbounds of a declared server: its own, or the whole set where it has
/// none.
pub open spec fn effective_inbounds(s: ServerView, set: Seq<InboundView>) -> Seq<InboundView> {
    if s.inbounds.len() == 0 {
        set
    } else {
        s.inbounds
    }
}

/// What is wrong with the inbound at a place of a server.
pub open spec fn server_entry_fault(name: Seq<char>, s: Seq<InboundView>, i: int) -> Option<Seq<char>> {
    if s[i].name == super_text() || name_before(s, i, s[i].name) {
        Some(
            "[ Cloud Config ] The inbound names for the server '"@ + name
                + "' are not unique, or one is named '"@ + super_text()
                + "' which is a reserved keyword."@,
        )
    } else if port_before(s, i, s[i].port) {
        Some(
            "[ Cloud Config ] The inbound ports for the server '"@ + name + "' are not unique."@,
        )
    } else {
        None
    }
}

pub open spec fn server_entries_fault(name: Seq<char>, s: Seq<InboundView>, i: int) -> Option<Seq<char>>
    decreases s.len() - i,
{
    if i >= s.len() {
        None
    } else {
        match server_entry_fault(name, s, i) {
            Some(e) => Some(e),
            None => server_entries_fault(name, s, i + 1),
        }
    }
}

/// All inbounds are in the set, by name and port.
pub open spec fn all_in_set(s: Seq<InboundView>, set: Seq<InboundView>) -> bool {
    forall|i: int|
        0 <= i < s.len() ==> crate::cloud::reconcile::in_set(set, (#[trigger] s[i]).name, s[i].port)
}

pub open spec fn reserved_server_text(name: Seq<char>, port: u16) -> Seq<char> {
    "[ Cloud Config ] Server '"@ + name + "' cannot use "@ + decimal(port as nat)
        + " as an inbound port because it is a reserved port and should not be duplicated or used anywhere else."@
}

/// What is wrong with the inbounds of a server.
pub open spec fn inbounds_fault(name: Seq<char>, s: Seq<InboundView>, set: Seq<InboundView>) -> Option<
    Seq<char>,
> {
    match server_entries_fault(name, s, 0) {
        Some(e) => Some(e),
        None => match reserved_from(s, 0) {
            Some(p) => Some(reserved_server_text(name, p)),
            None => if !all_in_set(s, set) {
                Some(
                    "[ Cloud Config ] The inbounds of server '"@ + name
                        + "' must be a sub-group of the cloud inbound-set."@,
                )
            } else {
                None
            },
        },
    }
}

pub open spec fn improper_subdomain_text(sd: Seq<char>) -> Seq<char> {
    "'"@ + sd
        + "' is not a proper subdomain. A subdomain must be lowercase and start and end with an ASCII alphanumeric character, and only hyphen is allowed in the middle."@
}

pub open spec fn double_subdomain_text(sd: Seq<char>, name: Seq<char>) -> Seq<char> {
    "'"@ + sd + "' is not a unique subdomain in server '"@ + name + "'."@
}

/// What is wrong with the subdomains of a server: those of the subscription
/// server, the panel and the DNS server are checked in this order.
pub open spec fn subdomains_fault(s: ServerView) -> Option<Seq<char>> {
    let a = s.sub_subdomain;
    let b = s.ui_subdomain;
    let c = s.dns_subdomain;
    if !proper_subdomain(a) {
        Some(improper_subdomain_text(a))
    } else if !proper_subdomain(b) {
        Some(improper_subdomain_text(b))
    } else if b == a {
        Some(double_subdomain_text(b, s.name))
    } else if !proper_subdomain(c) {
        Some(improper_subdomain_text(c))
    } else if c == a || c == b {
        Some(double_subdomain_text(c, s.name))
    } else {
        None
    }
}

/// What is wrong with the server at a place of the configuration.
pub open spec fn server_fault(cfg: CloudView, i: int) -> Option<Seq<char>> {
    let s = cfg.servers[i];
    if !proper(s.name) {
        Some(
            "[ Cloud Config ] The server name '"@ + s.name
                + "' is not a proper name. A valid name can be '"@ + slugged(s.name) + "'"@,
        )
    } else if exists|j: int| 0 <= j < i && #[trigger] cfg.servers[j].name == s.name {
        Some("[ Cloud Config ] Server names are not unique."@)
    } else if exists|j: int| 0 <= j < i && #[trigger] cfg.servers[j].domain == s.domain {
        Some("[ Cloud Config ] Domain names are not unique."@)
    } else if !global(s.ip.ip) {
        Some("[ Cloud Config ] Server "@ + s.name + " has a non-global IP."@)
    } else if exists|j: int| 0 <= j < i && #[trigger] cfg.servers[j].ip.ip == s.ip.ip {
        Some("[ Cloud Config ] Servers IPs are not unique."@)
    } else {
        match subdomains_fault(s) {
            Some(e) => Some(e),
            None => inbounds_fault(
                s.name,
                effective_inbounds(s, cfg.settings.inbound_set),
                cfg.settings.inbound_set,
            ),
        }
    }
}

pub open spec fn servers_fault_from(cfg: CloudView, i: int) -> Option<Seq<char>>
    decreases cfg.servers.len() - i,
{
    if i >= cfg.servers.len() {
        None
    } else {
        match server_fault(cfg, i) {
            Some(e) => Some(e),
            None => servers_fault_from(cfg, i + 1),
        }
    }
}

/// The first thing that is wrong with a configuration: the inbound set is
/// checked first, and then one server after the other.
pub open spec fn config_fault(cfg: CloudView) -> Option<Seq<char>> {
    match set_fault(cfg.settings.inbound_set) {
        Some(e) => Some(e),
        None => servers_fault_from(cfg, 0),
    }
}

/// The declared server before the supervisor's inbound is added to it.
pub open spec fn declared(s: ServerView, set: Seq<InboundView>) -> ServerView {
    ServerView {
        ansible_conn: Some(inventory_of(s)),
        inbounds: effective_inbounds(s, set),
        ..s
    }
}

/// The server of the cloud that a declared server becomes, with the random
/// bytes that its secrets are made from.
pub open spec fn prepared(s: ServerView, set: Seq<InboundView>, x: SeedsView) -> ServerView {
    let d = declared(s, set);
    ServerView {
        secrets: fresh_secrets(d, x),
        inbounds: d.inbounds.push(super_view()),
        ..d
    }
}

/// The server is what the declared one becomes, for some random bytes.
pub open spec fn is_prepared(s: ServerView, set: Seq<InboundView>, r: ServerView) -> bool {
    exists|x: SeedsView| #[trigger]
        seeds_fit(x, effective_inbounds(s, set).len()) && r == prepared(s, set, x)
}

/// The settings of a cloud: those that are declared, with the monitoring
/// interval raised to the least one.
pub open spec fn effective_settings(s: SettingsView) -> SettingsView {
    SettingsView {
        monitor_interval: if s.monitor_interval < MIN_MON_INTERVAL {
            MIN_MON_INTERVAL
        } else {
            s.monitor_interval
        },
        ..s
    }
}

/// The cloud is built from the configuration, server by server.
pub open spec fn built_from(cfg: CloudView, c: CloudView) -> bool {
    &&& c.settings == effective_settings(cfg.settings)
    &&& c.servers.len() == cfg.servers.len()
    &&& forall|i: int|
        0 <= i < c.servers.len() ==> is_prepared(
            cfg.servers[i],
            cfg.settings.inbound_set,
            #[trigger] c.servers[i],
        )
}

fn check_subdomains(s: &KetServer) -> (r: Option<String>)
    ensures
        opt_text(r) == subdomains_fault(s@),
{
    if !is_proper_subdomain(s.sub_subdomain.as_str()) {
        return Some(improper_subdomain(&s.sub_subdomain));
    }
    if !is_proper_subdomain(s.ui_subdomain.as_str()) {
        return Some(improper_subdomain(&s.ui_subdomain));
    }
    if s.ui_subdomain == s.sub_subdomain {
        return Some(double_subdomain(&s.ui_subdomain, &s.name));
    }
    if !is_proper_subdomain(s.dns_subdomain.as_str()) {
        return Some(improper_subdomain(&s.dns_subdomain));
    }
    if s.dns_subdomain == s.sub_subdomain || s.dns_subdomain == s.ui_subdomain {
        return Some(double_subdomain(&s.dns_subdomain, &s.name));
    }
    None
}

fn improper_subdomain(sd: &String) -> (r: String)
    ensures
        r@ == improper_subdomain_text(sd@),
{
    let mut e = "'".to_owned();
    e.append(sd.as_str());
    e.append(
        "' is not a proper subdomain. A subdomain must be lowercase and start and end with an ASCII alphanumeric character, and only hyphen is allowed in the middle.",
    );
    e
}

fn double_subdomain(sd: &String, name: &String) -> (r: String)
    ensures
        r@ == double_subdomain_text(sd@, name@),
{
    let mut e = "'".to_owned();
    e.append(sd.as_str());
    e.append("' is not a unique subdomain in server '");
    e.append(name.as_str());
    e.append("'.");
    e
}

fn check_inbounds(name: &String, s: &Vec<Inbound>, set: &Vec<Inbound>) -> (r: Option<String>)
    ensures
        opt_text(r) == inbounds_fault(name@, inbound_views(s@), inbound_views(set@)),
{
    let ghost views = inbound_views(s@);
    let super_name = SvcKind::super_name();
    let mut i: usize = 0;
    while i < s.len()
        invariant
            i <= s@.len(),
            views == inbound_views(s@),
            super_name@ == super_text(),
            server_entries_fault(name@, views, 0) == server_entries_fault(name@, views, i as int),
        decreases s@.len() - i,
    {
        assert(views[i as int] == s@[i as int]@);
        if s[i].name == super_name || has_name_before(s, i, &s[i].name) {
            let mut e = "[ Cloud Config ] The inbound names for the server '".to_owned();
            e.append(name.as_str());
            e.append("' are not unique, or one is named '");
            e.append(super_name.as_str());
            e.append("' which is a reserved keyword.");
            return Some(e);
        }
        if has_port_before(s, i, s[i].port) {
            let mut e = "[ Cloud Config ] The inbound ports for the server '".to_owned();
            e.append(name.as_str());
            e.append("' are not unique.");
            return Some(e);
        }
        i += 1;
    }
    if let Some(p) = find_reserved(s) {
        let mut e = "[ Cloud Config ] Server '".to_owned();
        e.append(name.as_str());
        e.append("' cannot use ");
        e.append(number(p as u64).as_str());
        e.append(
            " as an inbound port because it is a reserved port and should not be duplicated or used anywhere else.",
        );
        return Some(e);
    }
    let mut k: usize = 0;
    while k < s.len()
        invariant
            k <= s@.len(),
            views == inbound_views(s@),
            server_entries_fault(name@, views, 0) is None,
            reserved_from(views, 0) is None,
            forall|j: int|
                0 <= j < k ==> crate::cloud::reconcile::in_set(
                    inbound_views(set@),
                    (#[trigger] views[j]).name,
                    views[j].port,
                ),
        decreases s@.len() - k,
    {
        assert(views[k as int] == s@[k as int]@);
        if !crate::cloud::reconcile::set_has(set, &s[k].name, s[k].port) {
            assert(!all_in_set(views, inbound_views(set@)));
            let mut e = "[ Cloud Config ] The inbounds of server '".to_owned();
            e.append(name.as_str());
            e.append("' must be a sub-group of the cloud inbound-set.");
            return Some(e);
        }
        k += 1;
    }
    None
}

/// Checks the server at a place of the configuration against the rules, and
/// against the servers before it.
fn check_server(cfg: &Cloud, i: usize) -> (r: Option<String>)
    requires
        i < cfg.servers@.len(),
    ensures
        opt_text(r) == server_fault(cfg@, i as int),
{
    let ghost cv = cfg@;
    let s = &cfg.servers[i];
    assert(cv.servers[i as int] == s@);
    if !is_proper(s.name.as_str()) {
        let mut e = "[ Cloud Config ] The server name '".to_owned();
        e.append(s.name.as_str());
        e.append("' is not a proper name. A valid name can be '");
        e.append(s.name.slug().as_str());
        e.append("'");
        return Some(e);
    }
    let mut same_name = false;
    let mut same_domain = false;
    let mut same_ip = false;
    let mut j: usize = 0;
    while j < i
        invariant
            j <= i < cfg.servers@.len(),
            cv == cfg@,
            *s == cfg.servers@[i as int],
            cv.servers[i as int] == s@,
            same_name <==> exists|k: int| 0 <= k < j && #[trigger] cv.servers[k].name == s@.name,
            same_domain <==> exists|k: int|
                0 <= k < j && #[trigger] cv.servers[k].domain == s@.domain,
            same_ip <==> exists|k: int| 0 <= k < j && #[trigger] cv.servers[k].ip.ip == s@.ip.ip,
        decreases i - j,
    {
        let o = &cfg.servers[j];
        assert(cv.servers[j as int] == o@);
        if o.name == s.name {
            assert(cv.servers[j as int].name == s@.name);
            same_name = true;
        }
        if o.domain == s.domain {
            assert(cv.servers[j as int].domain == s@.domain);
            same_domain = true;
        }
        if o.ip.ip == s.ip.ip {
            assert(cv.servers[j as int].ip.ip == s@.ip.ip);
            same_ip = true;
        }
        j += 1;
    }
    if same_name {
        return Some("[ Cloud Config ] Server names are not unique.".to_owned());
    }
    if same_domain {
        return Some("[ Cloud Config ] Domain names are not unique.".to_owned());
    }
    if !is_global(&s.ip.ip) {
        let mut e = "[ Cloud Config ] Server ".to_owned();
        e.append(s.name.as_str());
        e.append(" has a non-global IP.");
        return Some(e);
    }
    if same_ip {
        return Some("[ Cloud Config ] Servers IPs are not unique.".to_owned());
    }
    if let Some(e) = check_subdomains(s) {
        return Some(e);
    }
    assert(inbound_views(s.inbounds@).len() == s.inbounds@.len());
    if s.inbounds.len() == 0 {
        check_inbounds(&s.name, &cfg.settings.inbound_set, &cfg.settings.inbound_set)
    } else {
        check_inbounds(&s.name, &s.inbounds, &cfg.settings.inbound_set)
    }
}

/// The server of the cloud that a declared server becomes.
fn prepare(s: &KetServer, set: &Vec<Inbound>) -> (r: KetServer)
    ensures
        is_prepared(s@, inbound_views(set@), r@),
{
    let mut r = s.clone();
    r.build_inventory();
    assert(inbound_views(s.inbounds@).len() == s.inbounds@.len());
    assert(r@.inbounds == s@.inbounds);
    assert(inbound_views(r.inbounds@).len() == r.inbounds@.len());
    if r.inbounds.len() == 0 {
        r.inbounds = crate::types::clone_inbounds(set);
    }
    let ghost d = r@;
    assert(d == declared(s@, inbound_views(set@)));
    assert(inbound_views(r.inbounds@).len() == r.inbounds@.len());
    r.fill_secrets();
    let ghost x = choose|x: SeedsView| #[trigger]
        seeds_fit(x, d.inbounds.len()) && r@ == (ServerView { secrets: fresh_secrets(d, x), ..d });
    let ghost before = r.inbounds@;
    let sup = Inbound::super_inbound();
    r.inbounds.push(sup);
    assert(inbound_views(r.inbounds@) =~= inbound_views(before).push(sup@));
    assert(r@ == prepared(s@, inbound_views(set@), x));
    r
}

/// Builds the cloud from a parsed configuration file, which must meet the rules.
pub fn parse_cloud_config(config: &Cloud) -> (r: Result<Cloud, String>)
    ensures
        match r {
            Ok(c) => config_fault(config@) is None && built_from(config@, c@),
            Err(e) => config_fault(config@) == Some(e@),
        },
        r matches Ok(c) ==> {
            &&& inbound_views(c.settings.inbound_set@) == inbound_views(
                config.settings.inbound_set@,
            )
            &&& c.settings.auto_fix == config.settings.auto_fix
            &&& c.settings.fix_threshold == config.settings.fix_threshold
            &&& c.settings.monitor_interval == (if config.settings.monitor_interval
                < MIN_MON_INTERVAL {
                MIN_MON_INTERVAL
            } else {
                config.settings.monitor_interval
            })
            &&& c.servers@.len() == config.servers@.len()
        },
{
    if let Some(e) = check_set(&config.settings.inbound_set) {
        return Err(e);
    }
    let ghost cv = config@;
    let mut servers: Vec<KetServer> = Vec::new();
    let mut i: usize = 0;
    while i < config.servers.len()
        invariant
            i <= config.servers@.len(),
            i == servers@.len(),
            cv == config@,
            set_fault(cv.settings.inbound_set) is None,
            servers_fault_from(cv, 0) == servers_fault_from(cv, i as int),
            forall|j: int|
                0 <= j < i ==> is_prepared(
                    cv.servers[j],
                    cv.settings.inbound_set,
                    (#[trigger] servers@[j])@,
                ),
        decreases config.servers@.len() - i,
    {
        assert(cv.servers[i as int] == config.servers@[i as int]@);
        if let Some(e) = check_server(config, i) {
            return Err(e);
        }
        servers.push(prepare(&config.servers[i], &config.settings.inbound_set));
        i += 1;
    }
    let mut settings = config.settings.clone();
    if settings.monitor_interval < MIN_MON_INTERVAL {
        settings.monitor_interval = MIN_MON_INTERVAL;
    }
    let cloud = Cloud { servers, settings };
    assert forall|j: int| 0 <= j < cloud@.servers.len() implies is_prepared(
        cv.servers[j],
        cv.settings.inbound_set,
        #[trigger] cloud@.servers[j],
    ) by {
        assert(cloud@.servers[j] == servers@[j]@);
    }
    Ok(cloud)
}

// ---------------------------------------------------------------- the laws

/// The inbound names of a server are unique, and the supervisor's is among them
/// exactly at the end.
pub open spec fn inbounds_valid(s: Seq<InboundView>) -> bool {
    &&& s.len() >= 2
    &&& s.last() == super_view()
    &&& forall|i: int, j: int|
        0 <= i < j < s.len() ==> #[trigger] s[i].name != #[trigger] s[j].name
    &&& forall|i: int, j: int|
        0 <= i < j < s.len() - 1 ==> #[trigger] s[i].port != #[trigger] s[j].port
    &&& forall|i: int| 0 <= i < s.len() - 1 ==> !reserved_ports().contains(#[trigger] s[i].port)
}

/// What holds of every server of a cloud that was built from a configuration.
pub open spec fn server_valid(s: ServerView, set: Seq<InboundView>) -> bool {
    &&& proper(s.name)
    &&& global(s.ip.ip)
    &&& proper_subdomain(s.dns_subdomain)
    &&& proper_subdomain(s.ui_subdomain)
    &&& proper_subdomain(s.sub_subdomain)
    &&& s.dns_subdomain != s.ui_subdomain
    &&& s.dns_subdomain != s.sub_subdomain
    &&& s.ui_subdomain != s.sub_subdomain
    &&& inbounds_valid(s.inbounds)
    &&& crate::cloud::reconcile::covered(s, set)
    &&& s.ansible_conn is Some
    &&& s.secrets.xui_token is None
    &&& forall|i: int|
        0 <= i < s.inbounds.len() ==> s.secrets.mother_subids.dom().contains(
            (#[trigger] s.inbounds[i]).name,
        )
}

proof fn lemma_set_clean(set: Seq<InboundView>, from: int, i: int)
    requires
        0 <= from <= i < set.len(),
        set_fault_from(set, from) is None,
    ensures
        set_entry_fault(set, i) is None,
    decreases i - from,
{
    if from < i {
        lemma_set_clean(set, from + 1, i);
    }
}

proof fn lemma_entries_clean(name: Seq<char>, s: Seq<InboundView>, from: int, i: int)
    requires
        0 <= from <= i < s.len(),
        server_entries_fault(name, s, from) is None,
    ensures
        server_entry_fault(name, s, i) is None,
    decreases i - from,
{
    if from < i {
        lemma_entries_clean(name, s, from + 1, i);
    }
}

proof fn lemma_servers_clean(cfg: CloudView, from: int, i: int)
    requires
        0 <= from <= i < cfg.servers.len(),
        servers_fault_from(cfg, from) is None,
    ensures
        server_fault(cfg, i) is None,
    decreases i - from,
{
    if from < i {
        lemma_servers_clean(cfg, from + 1, i);
    }
}

proof fn lemma_unreserved(s: Seq<InboundView>, from: int, k: int)
    requires
        0 <= from <= k < 5,
        reserved_from(s, from) is None,
    ensures
        !port_before(s, s.len() as int, reserved_ports()[k]),
    decreases k - from,
{
    if from < k {
        lemma_unreserved(s, from + 1, k);
    }
}

proof fn lemma_inbounds_valid(name: Seq<char>, s: Seq<InboundView>, set: Seq<InboundView>)
    requires
        s.len() > 0,
        inbounds_fault(name, s, set) is None,
    ensures
        inbounds_valid(s.push(super_view())),
        forall|i: int| 0 <= i < s.len() ==> (#[trigger] s[i]).name != super_text(),
{
    let t = s.push(super_view());
    assert forall|i: int| 0 <= i < s.len() implies (#[trigger] s[i]).name != super_text() by {
        lemma_entries_clean(name, s, 0, i);
    }
    assert forall|i: int, j: int| 0 <= i < j < t.len() implies #[trigger] t[i].name
        != #[trigger] t[j].name by {
        assert(t[i] == s[i]);
        if j < s.len() {
            lemma_entries_clean(name, s, 0, j);
            assert(t[j] == s[j]);
        }
    }
    assert forall|i: int, j: int| 0 <= i < j < t.len() - 1 implies #[trigger] t[i].port
        != #[trigger] t[j].port by {
        lemma_entries_clean(name, s, 0, j);
        assert(t[i] == s[i] && t[j] == s[j]);
    }
    assert forall|i: int| 0 <= i < t.len() - 1 implies !reserved_ports().contains(
        #[trigger] t[i].port,
    ) by {
        assert(t[i] == s[i]);
        if reserved_ports().contains(t[i].port) {
            let k = choose|k: int| 0 <= k < 5 && reserved_ports()[k] == t[i].port;
            lemma_unreserved(s, 0, k);
            assert(s[i].port == reserved_ports()[k]);
        }
    }
}

proof fn lemma_server_valid(cfg: CloudView, c: CloudView, i: int)
    requires
        config_fault(cfg) is None,
        built_from(cfg, c),
        0 <= i < c.servers.len(),
    ensures
        server_valid(c.servers[i], c.settings.inbound_set),
        c.servers[i].name == cfg.servers[i].name,
        c.servers[i].domain == cfg.servers[i].domain,
        c.servers[i].ip == cfg.servers[i].ip,
{
    let set = cfg.settings.inbound_set;
    let s = cfg.servers[i];
    let r = c.servers[i];
    lemma_servers_clean(cfg, 0, i);
    assert(is_prepared(s, set, r));
    let x = choose|x: SeedsView| #[trigger]
        seeds_fit(x, effective_inbounds(s, set).len()) && r == prepared(s, set, x);
    let e = effective_inbounds(s, set);
    lemma_inbounds_valid(s.name, e, set);
    assert forall|k: int|
        0 <= k < r.inbounds.len() && (#[trigger] r.inbounds[k]).name
            != super_text() implies crate::cloud::reconcile::in_set(
        set,
        r.inbounds[k].name,
        r.inbounds[k].port,
    ) by {
        assert(r.inbounds[k] == e[k]);
    }
    assert forall|k: int|
        0 <= k < r.inbounds.len() implies r.secrets.mother_subids.dom().contains(
        (#[trigger] r.inbounds[k]).name,
    ) by {
        crate::cloud::server::law_every_inbound_has_subid(e, x.subids, r.inbounds[k].name);
        if k < e.len() {
            assert(e[k].name == r.inbounds[k].name);
        }
    }
}

/// A cloud that was built from a configuration has unique names, domains and
/// addresses, valid servers whose inbounds are all in the set, and a monitoring
/// interval that is not below the least one.
pub proof fn law_built_cloud_is_valid(cfg: CloudView, c: CloudView)
    requires
        config_fault(cfg) is None,
        built_from(cfg, c),
    ensures
        crate::cloud::laws::names_unique(c.servers),
        crate::cloud::laws::domains_unique(c.servers),
        crate::cloud::laws::ips_unique(c.servers),
        crate::cloud::laws::self_consistent(c),
        c.settings.inbound_set.len() > 0,
        c.settings.monitor_interval >= MIN_MON_INTERVAL,
        forall|i: int|
            0 <= i < c.servers.len() ==> server_valid(
                #[trigger] c.servers[i],
                c.settings.inbound_set,
            ),
{
    assert forall|i: int| 0 <= i < c.servers.len() implies server_valid(
        #[trigger] c.servers[i],
        c.settings.inbound_set,
    ) && c.servers[i].name == cfg.servers[i].name && c.servers[i].domain == cfg.servers[i].domain
        && c.servers[i].ip == cfg.servers[i].ip by {
        lemma_server_valid(cfg, c, i);
    }
    assert forall|i: int, j: int| 0 <= i < j < c.servers.len() implies c.servers[i].name
        != c.servers[j].name && c.servers[i].domain != c.servers[j].domain && c.servers[i].ip.ip
        != c.servers[j].ip.ip by {
        lemma_servers_clean(cfg, 0, j);
        assert(cfg.servers[i].name == c.servers[i].name);
        assert(cfg.servers[i].domain == c.servers[i].domain);
        assert(cfg.servers[i].ip.ip == c.servers[i].ip.ip);
    }
}

/// The inbounds of the set of an accepted configuration have proper names, none
/// of which is the supervisor's, and ports that are not reserved. No two of them
/// have the same name or the same port.
pub proof fn law_accepted_set_is_valid(cfg: CloudView, i: int, j: int)
    requires
        config_fault(cfg) is None,
        0 <= i < cfg.settings.inbound_set.len(),
        0 <= j < cfg.settings.inbound_set.len(),
    ensures
        ({
            let set = cfg.settings.inbound_set;
            &&& proper(set[i].name)
            &&& set[i].name != super_text()
            &&& !reserved_ports().contains(set[i].port)
            &&& i != j ==> set[i].name != set[j].name && set[i].port != set[j].port
        }),
{
    let set = cfg.settings.inbound_set;
    lemma_set_clean(set, 0, i);
    lemma_set_clean(set, 0, j);
    if reserved_ports().contains(set[i].port) {
        let k = choose|k: int| 0 <= k < 5 && reserved_ports()[k] == set[i].port;
        lemma_unreserved(set, 0, k);
        assert(set[i].port == reserved_ports()[k]);
    }
}

/// The settings of a built cloud are those that were declared; only a monitoring
/// interval below the least one is raised to it.
pub proof fn law_settings_are_as_declared(cfg: CloudView, c: CloudView)
    requires
        config_fault(cfg) is None,
        built_from(cfg, c),
    ensures
        c.settings.inbound_set == cfg.settings.inbound_set,
        c.settings.auto_fix == cfg.settings.auto_fix,
        c.settings.fix_threshold == cfg.settings.fix_threshold,
        cfg.settings.monitor_interval >= MIN_MON_INTERVAL ==> c.settings.monitor_interval
            == cfg.settings.monitor_interval,
        cfg.settings.monitor_interval < MIN_MON_INTERVAL ==> c.settings.monitor_interval
            == MIN_MON_INTERVAL,
{
}

/// The servers of a built cloud are those that were declared, in their order and with
/// all that was declared of them. A server that declares no inbounds has those of the
/// set, and every server has that of the supervisor behind them. Ansible reaches an
/// Offgrid server at its default port, and a Production one at the SSH port.
pub proof fn law_servers_are_as_declared(cfg: CloudView, c: CloudView, i: int)
    requires
        config_fault(cfg) is None,
        built_from(cfg, c),
        0 <= i < cfg.servers.len(),
    ensures
        c.servers.len() == cfg.servers.len(),
        ({
            let s = cfg.servers[i];
            let r = c.servers[i];
            let own = if s.inbounds.len() == 0 {
                cfg.settings.inbound_set
            } else {
                s.inbounds
            };
            &&& r.name == s.name
            &&& r.ip == s.ip
            &&& r.domain == s.domain
            &&& r.region == s.region
            &&& r.state == s.state
            &&& r.quota == s.quota
            &&& r.enabled == s.enabled
            &&& r.ssh_port == s.ssh_port
            &&& r.dns_subdomain == s.dns_subdomain
            &&& r.ui_subdomain == s.ui_subdomain
            &&& r.sub_subdomain == s.sub_subdomain
            &&& r.cloudflare_proxied == s.cloudflare_proxied
            &&& r.outbound_block == s.outbound_block
            &&& r.cfstate == s.cfstate
            &&& r.inbounds.len() == own.len() + 1
            &&& forall|k: int| 0 <= k < own.len() ==> #[trigger] r.inbounds[k] == own[k]
            &&& r.inbounds.last().name == "super"@
            &&& r.ansible_conn is Some
            &&& r.ansible_conn->Some_0.host == Some(s.ip.text)
            &&& r.ansible_conn->Some_0.port == Some(
                if s.state == ServerState::Offgrid {
                    ANSIBLE_PORT
                } else {
                    s.ssh_port
                },
            )
            &&& r.ansible_conn->Some_0.user == Some("root"@)
            &&& r.ansible_conn->Some_0.connection is None
        }),
{
    assert(is_prepared(cfg.servers[i], cfg.settings.inbound_set, c.servers[i]));
}

/// The secrets of a built server are fresh: no token of the panel, the health path of
/// its declaration, a subscription identifier for each inbound and for the supervisor,
/// and the others made from random bytes of their own.
pub proof fn law_secrets_are_fresh(cfg: CloudView, c: CloudView, i: int)
    requires
        config_fault(cfg) is None,
        built_from(cfg, c),
        0 <= i < cfg.servers.len(),
    ensures
        ({
            let s = c.servers[i];
            let x = s.secrets;
            &&& x.xui_token is None
            &&& x.health_path == crate::cloud::server::health_path_of(cfg.servers[i])
            &&& x.xui_username.len() == 16
            &&& exists|b: Seq<u8>| b.len() == 16 && x.doh_endpoint == #[trigger] base64url_text(b)
            &&& exists|b: Seq<u8>| b.len() == 16 && x.xui_password == #[trigger] base64url_text(b)
            &&& exists|b: Seq<u8>| b.len() == 10 && x.xui_webpath == #[trigger] base64url_text(b)
            &&& exists|b: Seq<u8>| b.len() == 8 && x.xui_subpath == #[trigger] base64url_text(b)
            &&& exists|b: Seq<u8>| b.len() == 8 && x.xui_jsubpath == #[trigger] base64url_text(b)
            &&& forall|name: Seq<char>| #[trigger]
                x.mother_subids.dom().contains(name) <==> exists|k: int|
                    0 <= k < s.inbounds.len() && #[trigger] s.inbounds[k].name == name
        }),
{
    let set = cfg.settings.inbound_set;
    let s = cfg.servers[i];
    let r = c.servers[i];
    assert(is_prepared(s, set, r));
    let x = choose|x: SeedsView| #[trigger]
        seeds_fit(x, effective_inbounds(s, set).len()) && r == prepared(s, set, x);
    let e = effective_inbounds(s, set);
    assert(r.inbounds[e.len() as int].name == super_text());
    assert forall|name: Seq<char>| #[trigger]
        r.secrets.mother_subids.dom().contains(name) <==> exists|k: int|
            0 <= k < r.inbounds.len() && #[trigger] r.inbounds[k].name == name by {
        crate::cloud::server::law_every_inbound_has_subid(e, x.subids, name);
        if exists|k: int| 0 <= k < e.len() && #[trigger] e[k].name == name {
            let k = choose|k: int| 0 <= k < e.len() && #[trigger] e[k].name == name;
            assert(r.inbounds[k].name == name);
        }
        if exists|k: int| 0 <= k < r.inbounds.len() && #[trigger] r.inbounds[k].name == name {
            let k = choose|k: int|
                0 <= k < r.inbounds.len() && #[trigger] r.inbounds[k].name == name;
            if k < e.len() {
                assert(e[k].name == name);
            }
        }
    }
    crate::cloud::server::law_health_path_is_derived(declared(s, set), s);
}

/// The ports that no inbound may have.
spec fn port_is_reserved(p: u16) -> bool {
    p == SSH_PORT || p == NGINX_PORT || p == UI_PORT || p == SUB_PORT || p == UNBOUND_PORT
}

/// The inbounds can stand beside one another: their names and ports are unique, and
/// none has the name of the supervisor or a reserved port.
pub open spec fn inbounds_agree(s: Seq<InboundView>) -> bool {
    &&& forall|i: int, j: int|
        0 <= i < j < s.len() ==> #[trigger] s[i].name != #[trigger] s[j].name
    &&& forall|i: int, j: int|
        0 <= i < j < s.len() ==> #[trigger] s[i].port != #[trigger] s[j].port
    &&& forall|i: int|
        0 <= i < s.len() ==> (#[trigger] s[i]).name != "super"@ && s[i].port != SSH_PORT && s[i].port
            != NGINX_PORT && s[i].port != UI_PORT && s[i].port != SUB_PORT && s[i].port
            != UNBOUND_PORT
}

/// A configuration that meets the rules is accepted.
pub proof fn law_proper_configuration_is_accepted(cfg: CloudView)
    requires
        cfg.settings.inbound_set.len() > 0,
        inbounds_agree(cfg.settings.inbound_set),
        forall|k: int|
            0 <= k < cfg.settings.inbound_set.len() ==> proper(
                (#[trigger] cfg.settings.inbound_set[k]).name,
            ),
        crate::cloud::laws::names_unique(cfg.servers),
        crate::cloud::laws::domains_unique(cfg.servers),
        crate::cloud::laws::ips_unique(cfg.servers),
        forall|i: int|
            0 <= i < cfg.servers.len() ==> ({
                let s = #[trigger] cfg.servers[i];
                &&& proper(s.name)
                &&& global(s.ip.ip)
                &&& proper_subdomain(s.dns_subdomain)
                &&& proper_subdomain(s.ui_subdomain)
                &&& proper_subdomain(s.sub_subdomain)
                &&& s.dns_subdomain != s.ui_subdomain
                &&& s.dns_subdomain != s.sub_subdomain
                &&& s.ui_subdomain != s.sub_subdomain
                &&& inbounds_agree(s.inbounds)
                &&& forall|k: int|
                    0 <= k < s.inbounds.len() ==> crate::cloud::reconcile::in_set(
                        cfg.settings.inbound_set,
                        (#[trigger] s.inbounds[k]).name,
                        s.inbounds[k].port,
                    )
            }),
    ensures
        config_fault(cfg) is None,
{
    let set = cfg.settings.inbound_set;
    lemma_set_accepted(set, 0);
    lemma_none_reserved(set, 0);
    lemma_servers_accepted(cfg, 0);
}

proof fn lemma_set_accepted(set: Seq<InboundView>, i: int)
    requires
        0 <= i <= set.len(),
        inbounds_agree(set),
        forall|k: int| 0 <= k < set.len() ==> proper((#[trigger] set[k]).name),
    ensures
        set_fault_from(set, i) is None,
    decreases set.len() - i,
{
    if i < set.len() {
        lemma_set_accepted(set, i + 1);
    }
}

proof fn lemma_none_reserved(s: Seq<InboundView>, k: int)
    requires
        0 <= k <= 5,
        inbounds_agree(s),
    ensures
        reserved_from(s, k) is None,
    decreases 5 - k,
{
    if k < 5 {
        lemma_none_reserved(s, k + 1);
        assert(port_is_reserved(reserved_ports()[k]));
    }
}

proof fn lemma_entries_accepted(name: Seq<char>, s: Seq<InboundView>, i: int)
    requires
        0 <= i <= s.len(),
        inbounds_agree(s),
    ensures
        server_entries_fault(name, s, i) is None,
    decreases s.len() - i,
{
    if i < s.len() {
        lemma_entries_accepted(name, s, i + 1);
    }
}

proof fn lemma_servers_accepted(cfg: CloudView, i: int)
    requires
        0 <= i <= cfg.servers.len(),
        inbounds_agree(cfg.settings.inbound_set),
        crate::cloud::laws::names_unique(cfg.servers),
        crate::cloud::laws::domains_unique(cfg.servers),
        crate::cloud::laws::ips_unique(cfg.servers),
        forall|j: int|
            0 <= j < cfg.servers.len() ==> ({
                let s = #[trigger] cfg.servers[j];
                &&& proper(s.name)
                &&& global(s.ip.ip)
                &&& proper_subdomain(s.dns_subdomain)
                &&& proper_subdomain(s.ui_subdomain)
                &&& proper_subdomain(s.sub_subdomain)
                &&& s.dns_subdomain != s.ui_subdomain
                &&& s.dns_subdomain != s.sub_subdomain
                &&& s.ui_subdomain != s.sub_subdomain
                &&& inbounds_agree(s.inbounds)
                &&& forall|k: int|
                    0 <= k < s.inbounds.len() ==> crate::cloud::reconcile::in_set(
                        cfg.settings.inbound_set,
                        (#[trigger] s.inbounds[k]).name,
                        s.inbounds[k].port,
                    )
            }),
    ensures
        servers_fault_from(cfg, i) is None,
    decreases cfg.servers.len() - i,
{
    if i < cfg.servers.len() {
        lemma_servers_accepted(cfg, i + 1);
        let set = cfg.settings.inbound_set;
        let s = cfg.servers[i];
        let e = effective_inbounds(s, set);
        assert(inbounds_agree(e));
        lemma_entries_accepted(s.name, e, 0);
        lemma_none_reserved(e, 0);
        assert(all_in_set(e, set)) by {
            assert forall|k: int| 0 <= k < e.len() implies crate::cloud::reconcile::in_set(
                set,
                (#[trigger] e[k]).name,
                e[k].port,
            ) by {
                if s.inbounds.len() == 0 {
                    assert(set[k].name == e[k].name);
                }
            }
        }
    }
}

/// The number that an IPv4 address stands for.
pub open spec fn v4_number(a: u8, b: u8, c: u8, d: u8) -> int {
    a * 0x100_0000 + b * 0x1_0000 + c * 0x100 + d
}

/// The address is in the block of this size that begins at the other address.
pub open spec fn in_block(n: int, first: int, size: int) -> bool {
    first <= n < first + size
}

/// An IPv4 address can be that of a server unless it is in one of the blocks that are
/// set aside: 10.0.0.0/8, 172.16.0.0/12, 192.168.0.0/16, 127.0.0.0/8, 169.254.0.0/16,
/// 0.0.0.0/32, 100.64.0.0/10, 192.0.2.0/24, 198.51.100.0/24, 203.0.113.0/24,
/// 198.18.0.0/15, 224.0.0.0/4 and 240.0.0.0/4.
pub proof fn law_global_v4_blocks(a: u8, b: u8, c: u8, d: u8)
    ensures
        ({
            let n = v4_number(a, b, c, d);
            global(Ip::V4(a, b, c, d)) <==> !({
                ||| in_block(n, 0x0a00_0000, 0x100_0000)
                ||| in_block(n, 0xac10_0000, 0x10_0000)
                ||| in_block(n, 0xc0a8_0000, 0x1_0000)
                ||| in_block(n, 0x7f00_0000, 0x100_0000)
                ||| in_block(n, 0xa9fe_0000, 0x1_0000)
                ||| in_block(n, 0, 1)
                ||| in_block(n, 0x6440_0000, 0x40_0000)
                ||| in_block(n, 0xc000_0200, 0x100)
                ||| in_block(n, 0xc633_6400, 0x100)
                ||| in_block(n, 0xcb00_7100, 0x100)
                ||| in_block(n, 0xc612_0000, 0x2_0000)
                ||| in_block(n, 0xe000_0000, 0x1000_0000)
                ||| in_block(n, 0xf000_0000, 0x1000_0000)
            })
        }),
{
}

/// An IPv6 address can be that of a server where it is in 2000::/3 and in none of the
/// blocks 2001::/32, 2001:2::/48, 2001:10::/28, 2001:db8::/32 and 3fff::/20.
pub proof fn law_global_v6_blocks(
    s0: u16,
    s1: u16,
    s2: u16,
    s3: u16,
    s4: u16,
    s5: u16,
    s6: u16,
    s7: u16,
)
    ensures
        ({
            let n = s0 * 0x1_0000_0000 + s1 * 0x1_0000 + s2;
            global(Ip::V6(s0, s1, s2, s3, s4, s5, s6, s7)) <==> in_block(
                n,
                0x2000_0000_0000,
                0x2000_0000_0000,
            ) && !({
                ||| in_block(n, 0x2001_0000_0000, 0x1_0000)
                ||| in_block(n, 0x2001_0002_0000, 1)
                ||| in_block(n, 0x2001_0010_0000, 0x10_0000)
                ||| in_block(n, 0x2001_0db8_0000, 0x1_0000)
                ||| in_block(n, 0x3fff_0000_0000, 0x1000_0000)
            })
        }),
{
}

/// Five ports are reserved: that of SSH, those of Nginx, of the panel and of the subscription
/// server, and that of the DNS server.
pub proof fn law_reserved_ports(p: u16)
    ensures
        reserved_ports().contains(p) <==> p == 79 || p == 443 || p == 400 || p == 401 || p == 444,
{
    let r = reserved_ports();
    assert(r[0] == 79 && r[1] == 443 && r[2] == 400 && r[3] == 401 && r[4] == 444);
}

/// Every inbound of a built server but that of the supervisor is one of the set, by its name
/// and port.
pub proof fn law_inbounds_are_of_the_set(cfg: CloudView, c: CloudView, i: int, k: int)
    requires
        config_fault(cfg) is None,
        built_from(cfg, c),
        0 <= i < c.servers.len(),
        0 <= k < c.servers[i].inbounds.len() - 1,
    ensures
        exists|j: int|
            0 <= j < cfg.settings.inbound_set.len() && #[trigger] cfg.settings.inbound_set[j].name
                == c.servers[i].inbounds[k].name && cfg.settings.inbound_set[j].port
                == c.servers[i].inbounds[k].port,
{
    lemma_servers_clean(cfg, 0, i);
    law_servers_are_as_declared(cfg, c, i);
    let e = effective_inbounds(cfg.servers[i], cfg.settings.inbound_set);
    assert(c.servers[i].inbounds[k] == e[k]);
    assert(all_in_set(e, cfg.settings.inbound_set));
}

/// The subscription identifier of each inbound of a built server is made from random bytes of
/// its own.
pub proof fn law_subids_are_fresh(cfg: CloudView, c: CloudView, i: int, k: int)
    requires
        config_fault(cfg) is None,
        built_from(cfg, c),
        0 <= i < c.servers.len(),
        0 <= k < c.servers[i].inbounds.len() - 1,
    ensures
        exists|b: Seq<u8>|
            b.len() == 7 && c.servers[i].secrets.mother_subids[c.servers[i].inbounds[k].name]
                == #[trigger] base64url_text(b),
{
    let set = cfg.settings.inbound_set;
    let s = cfg.servers[i];
    let r = c.servers[i];
    lemma_server_valid(cfg, c, i);
    assert(is_prepared(s, set, r));
    let x = choose|x: SeedsView| #[trigger]
        seeds_fit(x, effective_inbounds(s, set).len()) && r == prepared(s, set, x);
    let e = effective_inbounds(s, set);
    assert(r.inbounds[k] == e[k]);
    assert forall|j: int| 0 <= j < k implies #[trigger] e[j].name != e[k].name by {
        assert(r.inbounds[j] == e[j]);
        assert(r.inbounds[j].name != r.inbounds[k].name);
    }
    crate::cloud::server::law_subids_come_from_their_seeds(e, x.subids, k);
    assert(x.subids[k].len() == 7);
}

/// The fault that is told of a configuration is that of its inbound set, if it has one, and
/// otherwise that of the first server which has one.
pub proof fn law_first_fault_is_told(cfg: CloudView, i: int)
    ensures
        set_fault(cfg.settings.inbound_set) is Some ==> config_fault(cfg) == set_fault(
            cfg.settings.inbound_set,
        ),
        cfg.settings.inbound_set.len() == 0 ==> set_fault(cfg.settings.inbound_set) == Some(
            "[ Cloud Config ] The cloud inbound-set cannot be empty."@,
        ),
        set_fault(cfg.settings.inbound_set) is None && 0 <= i < cfg.servers.len() && server_fault(
            cfg,
            i,
        ) is Some && (forall|j: int| 0 <= j < i ==> #[trigger] server_fault(cfg, j) is None)
            ==> config_fault(cfg) == server_fault(cfg, i),
{
    if 0 <= i < cfg.servers.len() && server_fault(cfg, i) is Some && (forall|j: int|
        0 <= j < i ==> #[trigger] server_fault(cfg, j) is None) {
        lemma_first_fault(cfg, 0, i);
    }
}

proof fn lemma_first_fault(cfg: CloudView, k: int, i: int)
    requires
        0 <= k <= i < cfg.servers.len(),
        server_fault(cfg, i) is Some,
        forall|j: int| 0 <= j < i ==> #[trigger] server_fault(cfg, j) is None,
    ensures
        servers_fault_from(cfg, k) == server_fault(cfg, i),
    decreases i - k,
{
    if k < i {
        assert(server_fault(cfg, k) is None);
        lemma_first_fault(cfg, k + 1, i);
    }
}

/// What is told of a server: its name, then names, domains and addresses that are taken or of
/// no use, then its subdomains in the order of the subscription server, the panel and the DNS
/// server, and its inbounds last.
pub proof fn law_faults_of_a_server(cfg: CloudView, i: int)
    requires
        0 <= i < cfg.servers.len(),
    ensures
        ({
            let s = cfg.servers[i];
            let f = server_fault(cfg, i);
            let named = exists|j: int| 0 <= j < i && #[trigger] cfg.servers[j].name == s.name;
            let placed = exists|j: int| 0 <= j < i && #[trigger] cfg.servers[j].domain == s.domain;
            let addressed = exists|j: int|
                0 <= j < i && #[trigger] cfg.servers[j].ip.ip == s.ip.ip;
            let unique = proper(s.name) && !named && !placed && global(s.ip.ip) && !addressed;
            let a = s.sub_subdomain;
            let b = s.ui_subdomain;
            let c = s.dns_subdomain;
            &&& !proper(s.name) ==> f == Some(
                "[ Cloud Config ] The server name '"@ + s.name
                    + "' is not a proper name. A valid name can be '"@ + slugged(s.name) + "'"@,
            )
            &&& proper(s.name) && named ==> f == Some(
                "[ Cloud Config ] Server names are not unique."@,
            )
            &&& proper(s.name) && !named && placed ==> f == Some(
                "[ Cloud Config ] Domain names are not unique."@,
            )
            &&& proper(s.name) && !named && !placed && !global(s.ip.ip) ==> f == Some(
                "[ Cloud Config ] Server "@ + s.name + " has a non-global IP."@,
            )
            &&& proper(s.name) && !named && !placed && global(s.ip.ip) && addressed ==> f == Some(
                "[ Cloud Config ] Servers IPs are not unique."@,
            )
            &&& unique && !proper_subdomain(a) ==> f == Some(improper_subdomain_text(a))
            &&& unique && proper_subdomain(a) && !proper_subdomain(b) ==> f == Some(
                improper_subdomain_text(b),
            )
            &&& unique && proper_subdomain(a) && proper_subdomain(b) && a == b ==> f == Some(
                "'"@ + b + "' is not a unique subdomain in server '"@ + s.name + "'."@,
            )
            &&& unique && proper_subdomain(a) && proper_subdomain(b) && a != b
                && !proper_subdomain(c) ==> f == Some(improper_subdomain_text(c))
            &&& unique && proper_subdomain(a) && proper_subdomain(b) && a != b && proper_subdomain(c)
                && (c == a || c == b) ==> f == Some(
                "'"@ + c + "' is not a unique subdomain in server '"@ + s.name + "'."@,
            )
        }),
{
}

/// What is told of the inbounds of a server: those that repeat a name or a port, or have that
/// of the supervisor, come before reserved ports, and these before inbounds that the set does
/// not have.
pub proof fn law_faults_of_inbounds(name: Seq<char>, s: Seq<InboundView>, set: Seq<InboundView>, i: int)
    ensures
        0 <= i < s.len() && inbounds_agree_upto(s, i) && (s[i].name == "super"@ || exists|j: int|
            0 <= j < i && #[trigger] s[j].name == s[i].name) ==> inbounds_fault(name, s, set)
            == Some(
            "[ Cloud Config ] The inbound names for the server '"@ + name
                + "' are not unique, or one is named '"@ + "super"@
                + "' which is a reserved keyword."@,
        ),
        0 <= i < s.len() && inbounds_agree_upto(s, i) && s[i].name != "super"@ && !(exists|j: int|
            0 <= j < i && #[trigger] s[j].name == s[i].name) && (exists|j: int|
            0 <= j < i && #[trigger] s[j].port == s[i].port) ==> inbounds_fault(name, s, set)
            == Some(
            "[ Cloud Config ] The inbound ports for the server '"@ + name + "' are not unique."@,
        ),
        inbounds_agree(s) && !all_in_set(s, set) ==> inbounds_fault(name, s, set) == Some(
            "[ Cloud Config ] The inbounds of server '"@ + name
                + "' must be a sub-group of the cloud inbound-set."@,
        ),
{
    if 0 <= i < s.len() && inbounds_agree_upto(s, i) && server_entry_fault(name, s, i) is Some {
        lemma_first_entry_fault(name, s, 0, i);
    }
    if inbounds_agree(s) {
        lemma_entries_accepted(name, s, 0);
        lemma_none_reserved(s, 0);
    }
}

/// Among the first inbounds no name or port comes twice, and none has the name of the
/// supervisor.
pub open spec fn inbounds_agree_upto(s: Seq<InboundView>, k: int) -> bool {
    &&& forall|i: int, j: int| 0 <= i < j < k ==> #[trigger] s[i].name != #[trigger] s[j].name
    &&& forall|i: int, j: int| 0 <= i < j < k ==> #[trigger] s[i].port != #[trigger] s[j].port
    &&& forall|i: int| 0 <= i < k ==> (#[trigger] s[i]).name != "super"@
}

proof fn lemma_first_entry_fault(name: Seq<char>, s: Seq<InboundView>, k: int, i: int)
    requires
        0 <= k <= i < s.len(),
        inbounds_agree_upto(s, i),
        server_entry_fault(name, s, i) is Some,
    ensures
        server_entries_fault(name, s, k) == server_entry_fault(name, s, i),
    decreases i - k,
{
    if k < i {
        assert(server_entry_fault(name, s, k) is None);
        lemma_first_entry_fault(name, s, k + 1, i);
    }
}

} // verus!
