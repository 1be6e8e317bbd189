//! What is stored of the cloud, and how it is read back.

use vstd::prelude::*;

use crate::ansible::{AnsibleConn, AnsibleConnView};
use crate::cloud::laws::{named, names_unique};
use crate::cloud::rebase::{settled, settled_conn};
use crate::cloud::reconcile::{has_server, lemma_server_index_is};
use crate::constants::{FIX_THRESHOLD, ROOT_USER, SVC_MON_INTERVAL};
use crate::daemon::lock::{all_digits, digits_value, lemma_decimal};
use crate::outside::{
    all_countries, countries_of, countries_text, country_of, host_of, parse_countries, parse_country,
    parse_host, print_countries,
};
use crate::strmap::{text_map, StrMap};
use crate::text::{
    chars_of, decimal, digit, is_digit, join, joined, number, str_eq, texts, trim, trimmed,
};
use crate::types::{
    health_text, inbound_views, kind_text, server_views, state_text, svc_text,
    AtomicServerState, Cloud, CloudSettings, CloudView, Inbound, InboundKind, InboundView, IpAddr,
    IpAddrView, KetServer, Secrets, SecretsView, ServerState, ServerView, SvcEntry, SvcHealth,
    SvcStatus, XuiToken,
};

verus! {

// ---------------------------------------------------------------- rows

/// A row of the table of servers. The address comes both as it is stored and as
/// what it stands for, or why it stands for nothing.
pub struct ServerRow {
    pub name: String,
    pub ip_text: String,
    pub ip: Result<IpAddr, String>,
    pub domain: String,
    pub region: String,
    pub state: String,
    pub quota: i64,
    pub enabled: i64,
    pub ssh_port: i64,
    pub dns_subdomain: String,
    pub ui_subdomain: String,
    pub sub_subdomain: String,
    pub health_path: String,
    pub doh_endpoint: String,
    pub xui_username: String,
    pub xui_password: String,
    pub xui_token: Option<String>,
    pub xui_webpath: String,
    pub xui_subpath: String,
    pub xui_jsubpath: String,
    pub cloudflare_proxied: i64,
    pub outbound_block: String,
}

/// A row of the table of inbounds.
pub struct InboundRow {
    pub inbound_group: String,
    pub port: i64,
    pub kind: String,
    pub total_clients: i64,
    pub traffic: i64,
    pub expiry: i64,
    pub comment: String,
    pub mother_subid: String,
}

/// What is said where a stored name stands for nothing.
pub open spec fn no_variant_text() -> Seq<char> {
    "Matching variant not found"@
}

fn no_variant() -> (r: String)
    ensures
        r@ == no_variant_text(),
{
    "Matching variant not found".to_owned()
}

/// The inbound of a row, where its kind is `k`.
pub open spec fn inbound_of(row: InboundRow, k: InboundKind) -> InboundView {
    InboundView {
        name: row.inbound_group@,
        port: row.port as u16,
        kind: k,
        total: row.total_clients as u16,
        traffic: row.traffic as u32,
        expiry: row.expiry as u16,
        comment: row.comment@,
    }
}

/// The row names a kind.
pub open spec fn has_kind(row: InboundRow) -> bool {
    exists|k: InboundKind| #[trigger] kind_text(k) == row.kind@
}

/// The kind that the row names.
pub open spec fn kind_of(row: InboundRow) -> InboundKind {
    choose|k: InboundKind| #[trigger] kind_text(k) == row.kind@
}

/// The inbounds of the first `k` rows, or why they cannot be read.
pub open spec fn inbounds_upto(rows: Seq<InboundRow>, k: int) -> Result<
    Seq<InboundView>,
    Seq<char>,
>
    decreases k,
{
    if k <= 0 {
        Ok(Seq::empty())
    } else {
        match inbounds_upto(rows, k - 1) {
            Err(e) => Err(e),
            Ok(before) => if has_kind(rows[k - 1]) {
                Ok(before.push(inbound_of(rows[k - 1], kind_of(rows[k - 1]))))
            } else {
                Err(no_variant_text())
            },
        }
    }
}

/// The subscription identifiers of the first `k` rows.
pub open spec fn subids_of_rows(rows: Seq<InboundRow>, k: int) -> Map<Seq<char>, Seq<char>>
    decreases k,
{
    if k <= 0 {
        Map::empty()
    } else {
        let before = subids_of_rows(rows, k - 1);
        if before.dom().contains(rows[k - 1].inbound_group@) {
            before
        } else {
            before.insert(rows[k - 1].inbound_group@, rows[k - 1].mother_subid@)
        }
    }
}

/// The connection with which a stored server is reached.
pub open spec fn stored_conn(ip_text: Seq<char>, ssh_port: u16) -> AnsibleConnView {
    AnsibleConnView {
        host: Some(ip_text),
        port: Some(ssh_port),
        user: Some(ROOT_USER@),
        connection: None,
    }
}

/// The server of a row, once its parts were read.
pub open spec fn server_with(
    row: ServerRow,
    ip: IpAddrView,
    domain: Seq<char>,
    region: Seq<char>,
    state: ServerState,
    block: Seq<Seq<char>>,
    inbounds: Seq<InboundView>,
    subids: Map<Seq<char>, Seq<char>>,
) -> ServerView {
    ServerView {
        name: row.name@,
        ip,
        domain,
        region,
        state,
        quota: row.quota as u16,
        enabled: row.enabled == 1,
        ssh_port: row.ssh_port as u16,
        dns_subdomain: row.dns_subdomain@,
        ui_subdomain: row.ui_subdomain@,
        sub_subdomain: row.sub_subdomain@,
        cloudflare_proxied: row.cloudflare_proxied == 1,
        inbounds,
        outbound_block: block,
        ansible_conn: Some(stored_conn(row.ip_text@, row.ssh_port as u16)),
        secrets: SecretsView {
            health_path: row.health_path@,
            doh_endpoint: row.doh_endpoint@,
            xui_username: row.xui_username@,
            xui_password: row.xui_password@,
            xui_token: crate::text::opt_text(row.xui_token),
            xui_webpath: row.xui_webpath@,
            xui_subpath: row.xui_subpath@,
            xui_jsubpath: row.xui_jsubpath@,
            mother_subids: subids,
        },
        cfstate: None,
    }
}

/// The state that the row names.
pub open spec fn row_state(row: ServerRow) -> Option<ServerState> {
    if row.state@ == state_text(ServerState::Offgrid) {
        Some(ServerState::Offgrid)
    } else if row.state@ == state_text(ServerState::Production) {
        Some(ServerState::Production)
    } else {
        None
    }
}

/// The server that is stored in these rows, or why it cannot be read.
pub open spec fn stored_server(row: ServerRow, inbounds: Seq<InboundRow>) -> Result<
    ServerView,
    Seq<char>,
> {
    match row.ip {
        Err(e) => Err(e@),
        Ok(ip) => match host_of(row.domain@) {
            Err(e) => Err(e),
            Ok(domain) => match country_of(row.region@) {
                Err(e) => Err(e),
                Ok(region) => match row_state(row) {
                    None => Err(no_variant_text()),
                    Some(state) => match countries_of(row.outbound_block@) {
                        Err(e) => Err(e),
                        Ok(block) => match inbounds_upto(inbounds, inbounds.len() as int) {
                            Err(e) => Err(e),
                            Ok(list) => Ok(
                                server_with(
                                    row,
                                    ip@,
                                    domain,
                                    region,
                                    state,
                                    block,
                                    list,
                                    subids_of_rows(inbounds, inbounds.len() as int),
                                ),
                            ),
                        },
                    },
                },
            },
        },
    }
}

proof fn lemma_kind_is(row: InboundRow, k: InboundKind)
    requires
        kind_text(k) == row.kind@,
    ensures
        has_kind(row),
        kind_of(row) == k,
{
    let c = kind_of(row);
    crate::types::law_names_read_back(
        ServerState::Offgrid,
        ServerState::Offgrid,
        c,
        k,
        SvcHealth::Healthy,
        SvcHealth::Healthy,
    );
}

proof fn lemma_rows_error(rows: Seq<InboundRow>, i: int, k: int)
    requires
        0 <= i <= k,
        inbounds_upto(rows, i) is Err,
    ensures
        inbounds_upto(rows, k) == inbounds_upto(rows, i),
    decreases k - i,
{
    if i < k {
        lemma_rows_error(rows, i, k - 1);
    }
}

fn read_inbounds(rows: &Vec<InboundRow>) -> (r: Result<Vec<Inbound>, String>)
    ensures
        match r {
            Ok(v) => inbounds_upto(rows@, rows@.len() as int) == Ok::<Seq<InboundView>, Seq<char>>(
                inbound_views(v@),
            ),
            Err(e) => inbounds_upto(rows@, rows@.len() as int) == Err::<
                Seq<InboundView>,
                Seq<char>,
            >(e@),
        },
{
    let mut v: Vec<Inbound> = Vec::new();
    assert(inbound_views(v@) =~= Seq::empty());
    let mut i: usize = 0;
    while i < rows.len()
        invariant
            i <= rows@.len(),
            inbounds_upto(rows@, i as int) == Ok::<Seq<InboundView>, Seq<char>>(
                inbound_views(v@),
            ),
        decreases rows@.len() - i,
    {
        let row = &rows[i];
        let kind = match InboundKind::from_name(row.kind.as_str()) {
            Some(k) => k,
            None => {
                proof {
                    assert(!has_kind(*row));
                    lemma_rows_error(rows@, i + 1, rows@.len() as int);
                }
                return Err(no_variant());
            },
        };
        proof {
            lemma_kind_is(*row, kind);
        }
        let inb = Inbound {
            name: row.inbound_group.clone(),
            port: row.port as u16,
            kind,
            total: row.total_clients as u16,
            traffic: row.traffic as u32,
            expiry: row.expiry as u16,
            comment: row.comment.clone(),
        };
        let ghost before = v@;
        v.push(inb);
        assert(inbound_views(v@) =~= inbound_views(before).push(inb@));
        i += 1;
    }
    Ok(v)
}

fn read_subids(rows: &Vec<InboundRow>) -> (r: StrMap<String>)
    ensures
        text_map(r@) == subids_of_rows(rows@, rows@.len() as int),
{
    let mut m: StrMap<String> = StrMap::new();
    assert(text_map(m@) =~= subids_of_rows(rows@, 0));
    let mut i: usize = 0;
    while i < rows.len()
        invariant
            i <= rows@.len(),
            text_map(m@) == subids_of_rows(rows@, i as int),
        decreases rows@.len() - i,
    {
        let ghost before = m@;
        let ghost name = rows@[i as int].inbound_group@;
        assert(before.dom().contains(name) <==> text_map(before).dom().contains(name));
        m.or_insert(rows[i].inbound_group.clone(), rows[i].mother_subid.clone());
        proof {
            if !before.dom().contains(name) {
                assert(text_map(m@) =~= text_map(before).insert(
                    name,
                    rows@[i as int].mother_subid@,
                ));
            }
        }
        i += 1;
    }
    m
}

/// Reads a server from its row and those of its inbounds. What is known only
/// while the program runs is left empty.
pub fn load_server(row: ServerRow, inbounds: &Vec<InboundRow>) -> (r: Result<KetServer, String>)
    ensures
        match r {
            Ok(s) => stored_server(row, inbounds@) == Ok::<ServerView, Seq<char>>(s@),
            Err(e) => stored_server(row, inbounds@) == Err::<ServerView, Seq<char>>(e@),
        },
{
    let ip = match row.ip {
        Ok(ip) => ip,
        Err(e) => return Err(e),
    };
    let domain = match parse_host(row.domain.as_str()) {
        Ok(d) => d,
        Err(e) => return Err(e),
    };
    let region = match parse_country(row.region.as_str()) {
        Ok(c) => c,
        Err(e) => return Err(e),
    };
    let state = match ServerState::from_name(row.state.as_str()) {
        Some(s) => s,
        None => {
            assert(state_text(ServerState::Offgrid) != row.state@);
            assert(state_text(ServerState::Production) != row.state@);
            return Err(no_variant());
        },
    };
    proof {
        crate::types::law_names_read_back(
            ServerState::Offgrid,
            ServerState::Production,
            InboundKind::VlessTcpReality,
            InboundKind::VlessTcpReality,
            SvcHealth::Healthy,
            SvcHealth::Healthy,
        );
    }
    let block = match parse_countries(row.outbound_block.as_str()) {
        Ok(b) => b,
        Err(e) => return Err(e),
    };
    let list = match read_inbounds(inbounds) {
        Ok(l) => l,
        Err(e) => return Err(e),
    };
    let ssh_port = row.ssh_port as u16;
    let token = match row.xui_token {
        None => XuiToken::empty(),
        Some(value) => XuiToken::from(value),
    };
    Ok(
        KetServer {
            name: row.name,
            ip,
            domain,
            region,
            state: AtomicServerState::new(state),
            quota: row.quota as u16,
            enabled: row.enabled == 1,
            ssh_port,
            dns_subdomain: row.dns_subdomain,
            ui_subdomain: row.ui_subdomain,
            sub_subdomain: row.sub_subdomain,
            cloudflare_proxied: row.cloudflare_proxied == 1,
            inbounds: list,
            outbound_block: block,
            ansible_conn: Some(
                AnsibleConn {
                    ansible_host: Some(row.ip_text),
                    ansible_port: Some(ssh_port),
                    ansible_user: Some(ROOT_USER),
                    ansible_connection: None,
                },
            ),
            secrets: Secrets {
                health_path: row.health_path,
                doh_endpoint: row.doh_endpoint,
                xui_username: row.xui_username,
                xui_password: row.xui_password,
                xui_token: token,
                xui_webpath: row.xui_webpath,
                xui_subpath: row.xui_subpath,
                xui_jsubpath: row.xui_jsubpath,
                mother_subids: read_subids(inbounds),
            },
            cfstate: None,
        },
    )
}

// ---------------------------------------------------------------- storing

/// The row is that of the server.
pub open spec fn row_fits(s: ServerView, row: ServerRow) -> bool {
    &&& row.name@ == s.name
    &&& row.ip_text@ == s.ip.text
    &&& row.ip matches Ok(ip) && ip@ == s.ip
    &&& row.domain@ == s.domain
    &&& row.region@ == s.region
    &&& row.state@ == state_text(s.state)
    &&& row.quota == s.quota
    &&& row.enabled == (if s.enabled {
        1int
    } else {
        0
    })
    &&& row.ssh_port == s.ssh_port
    &&& row.dns_subdomain@ == s.dns_subdomain
    &&& row.ui_subdomain@ == s.ui_subdomain
    &&& row.sub_subdomain@ == s.sub_subdomain
    &&& row.health_path@ == s.secrets.health_path
    &&& row.doh_endpoint@ == s.secrets.doh_endpoint
    &&& row.xui_username@ == s.secrets.xui_username
    &&& row.xui_password@ == s.secrets.xui_password
    &&& crate::text::opt_text(row.xui_token) == s.secrets.xui_token
    &&& row.xui_webpath@ == s.secrets.xui_webpath
    &&& row.xui_subpath@ == s.secrets.xui_subpath
    &&& row.xui_jsubpath@ == s.secrets.xui_jsubpath
    &&& row.cloudflare_proxied == (if s.cloudflare_proxied {
        1int
    } else {
        0
    })
    &&& countries_text(s.outbound_block) == Ok::<Seq<char>, Seq<char>>(row.outbound_block@)
    &&& countries_of(row.outbound_block@) == Ok::<Seq<Seq<char>>, Seq<char>>(s.outbound_block)
}

/// The result is the row of the server, or why it has none.
pub open spec fn row_is(s: ServerView, r: Result<ServerRow, String>) -> bool {
    &&& r is Ok <==> all_countries(s.outbound_block)
    &&& match r {
        Ok(row) => row_fits(s, row),
        Err(e) => countries_text(s.outbound_block) == Err::<Seq<char>, Seq<char>>(e@),
    }
}

/// The row is that of the inbound.
pub open spec fn inbound_row_fits(i: InboundView, subid: Seq<char>, row: InboundRow) -> bool {
    &&& row.inbound_group@ == i.name
    &&& row.port == i.port
    &&& row.kind@ == kind_text(i.kind)
    &&& row.total_clients == i.total
    &&& row.traffic == i.traffic
    &&& row.expiry == i.expiry
    &&& row.comment@ == i.comment
    &&& row.mother_subid@ == subid
}

pub open spec fn missing_subid_text(inbound: Seq<char>, server: Seq<char>) -> Seq<char> {
    "Missing mother_subid for inbound "@ + inbound + " in server "@ + server
}

/// The first inbound from a place on that has no subscription identifier.
pub open spec fn without_subid(s: ServerView, i: int) -> Option<int>
    decreases s.inbounds.len() - i,
{
    if i >= s.inbounds.len() {
        None
    } else if !s.secrets.mother_subids.dom().contains(s.inbounds[i].name) {
        Some(i)
    } else {
        without_subid(s, i + 1)
    }
}

/// The rows are those of the inbounds of the server, in order.
pub open spec fn rows_fit(s: ServerView, rows: Seq<InboundRow>) -> bool {
    &&& rows.len() == s.inbounds.len()
    &&& forall|i: int|
        0 <= i < rows.len() ==> inbound_row_fits(
            s.inbounds[i],
            s.secrets.mother_subids[s.inbounds[i].name],
            #[trigger] rows[i],
        )
}

fn flag(b: bool) -> (r: i64)
    ensures
        r == (if b {
            1int
        } else {
            0
        }),
{
    if b {
        1
    } else {
        0
    }
}

/// The row of a server. The countries to which it blocks connections are written
/// as JSON, for which each of them must be the code of one.
pub fn server_row(s: &KetServer) -> (r: Result<ServerRow, String>)
    ensures
        row_is(s@, r),
{
    let block = match print_countries(&s.outbound_block) {
        Ok(t) => t,
        Err(e) => return Err(e),
    };
    let token = s.secrets.xui_token.clone();
    let row = ServerRow {
        name: s.name.clone(),
        ip_text: s.ip.text.clone(),
        ip: Ok(s.ip.clone()),
        domain: s.domain.clone(),
        region: s.region.clone(),
        state: s.state.load().to_string(),
        quota: s.quota as i64,
        enabled: flag(s.enabled),
        ssh_port: s.ssh_port as i64,
        dns_subdomain: s.dns_subdomain.clone(),
        ui_subdomain: s.ui_subdomain.clone(),
        sub_subdomain: s.sub_subdomain.clone(),
        health_path: s.secrets.health_path.clone(),
        doh_endpoint: s.secrets.doh_endpoint.clone(),
        xui_username: s.secrets.xui_username.clone(),
        xui_password: s.secrets.xui_password.clone(),
        xui_token: token.0,
        xui_webpath: s.secrets.xui_webpath.clone(),
        xui_subpath: s.secrets.xui_subpath.clone(),
        xui_jsubpath: s.secrets.xui_jsubpath.clone(),
        cloudflare_proxied: flag(s.cloudflare_proxied),
        outbound_block: block,
    };
    Ok(row)
}

/// The rows of the inbounds of a server. Each of them needs its subscription
/// identifier.
pub fn inbound_rows(s: &KetServer) -> (r: Result<Vec<InboundRow>, String>)
    ensures
        match without_subid(s@, 0) {
            None => r matches Ok(rows) && rows_fit(s@, rows@),
            Some(i) => r matches Err(e) && e@ == missing_subid_text(s@.inbounds[i].name, s@.name),
        },
{
    let ghost sv = s@;
    let mut rows: Vec<InboundRow> = Vec::new();
    let mut i: usize = 0;
    while i < s.inbounds.len()
        invariant
            i <= s.inbounds@.len(),
            sv == s@,
            rows@.len() == i,
            without_subid(sv, 0) == without_subid(sv, i as int),
            forall|j: int|
                0 <= j < i ==> inbound_row_fits(
                    sv.inbounds[j],
                    sv.secrets.mother_subids[sv.inbounds[j].name],
                    #[trigger] rows@[j],
                ),
        decreases s.inbounds@.len() - i,
    {
        let inbound = &s.inbounds[i];
        assert(sv.inbounds[i as int] == inbound@);
        let subid = match s.secrets.mother_subids.get(inbound.name.as_str()) {
            Some(v) => v.clone(),
            None => {
                let mut e = "Missing mother_subid for inbound ".to_owned();
                e.append(inbound.name.as_str());
                e.append(" in server ");
                e.append(s.name.as_str());
                return Err(e);
            },
        };
        rows.push(
            InboundRow {
                inbound_group: inbound.name.clone(),
                port: inbound.port as i64,
                kind: inbound.kind.to_string(),
                total_clients: inbound.total as i64,
                traffic: inbound.traffic as i64,
                expiry: inbound.expiry as i64,
                comment: inbound.comment.clone(),
                mother_subid: subid,
            },
        );
        i += 1;
    }
    Ok(rows)
}

// ---------------------------------------------------------------- what reads back

/// The subscription identifiers of the inbounds alone.
pub open spec fn inbound_subids(s: ServerView) -> Map<Seq<char>, Seq<char>> {
    s.secrets.mother_subids.restrict(
        Set::new(
            |n: Seq<char>|
                exists|i: int| 0 <= i < s.inbounds.len() && #[trigger] s.inbounds[i].name == n,
        ),
    )
}

/// What is read back of a server that was stored: all of it, but for what is
/// known only while the program runs. The connection goes to the server's SSH
/// port.
pub open spec fn read_back(s: ServerView) -> ServerView {
    ServerView {
        ansible_conn: Some(stored_conn(s.ip.text, s.ssh_port)),
        secrets: SecretsView { mother_subids: inbound_subids(s), ..s.secrets },
        cfstate: None,
        ..s
    }
}

proof fn lemma_rows_read_back(s: ServerView, rows: Seq<InboundRow>, k: int)
    requires
        rows_fit(s, rows),
        0 <= k <= rows.len(),
    ensures
        inbounds_upto(rows, k) == Ok::<Seq<InboundView>, Seq<char>>(s.inbounds.take(k)),
    decreases k,
{
    if k > 0 {
        lemma_rows_read_back(s, rows, k - 1);
        let row = rows[k - 1];
        lemma_kind_is(row, s.inbounds[k - 1].kind);
        assert(inbound_of(row, kind_of(row)) =~= s.inbounds[k - 1]);
        assert(s.inbounds.take(k) =~= s.inbounds.take(k - 1).push(s.inbounds[k - 1]));
    } else {
        assert(s.inbounds.take(0) =~= Seq::empty());
    }
}

proof fn lemma_subids_read_back(s: ServerView, rows: Seq<InboundRow>, k: int)
    requires
        rows_fit(s, rows),
        0 <= k <= rows.len(),
    ensures
        forall|n: Seq<char>|
            #![trigger subids_of_rows(rows, k).dom().contains(n)]
            subids_of_rows(rows, k).dom().contains(n) <==> exists|i: int|
                0 <= i < k && #[trigger] s.inbounds[i].name == n,
        forall|n: Seq<char>|
            subids_of_rows(rows, k).dom().contains(n) ==> #[trigger] subids_of_rows(rows, k)[n]
                == s.secrets.mother_subids[n],
    decreases k,
{
    if k > 0 {
        lemma_subids_read_back(s, rows, k - 1);
        let before = subids_of_rows(rows, k - 1);
        let now = subids_of_rows(rows, k);
        let name = rows[k - 1].inbound_group@;
        assert(name == s.inbounds[k - 1].name);
        assert forall|n: Seq<char>| #[trigger] now.dom().contains(n) <==> exists|i: int|
            0 <= i < k && #[trigger] s.inbounds[i].name == n by {
            if before.dom().contains(n) {
                let i = choose|i: int| 0 <= i < k - 1 && #[trigger] s.inbounds[i].name == n;
                assert(s.inbounds[i].name == n);
            }
            if exists|i: int| 0 <= i < k && #[trigger] s.inbounds[i].name == n {
                let i = choose|i: int| 0 <= i < k && #[trigger] s.inbounds[i].name == n;
                if i < k - 1 {
                    assert(before.dom().contains(n));
                }
            }
        }
    }
}

/// A server that is stored reads back as it was, apart from what is known only
/// while the program runs. Its domain is in normal form and its region is the code
/// of a country, as they are in every cloud that was read from a declaration.
pub proof fn law_stored_server_reads_back(s: ServerView, row: ServerRow, rows: Seq<InboundRow>)
    requires
        row_fits(s, row),
        rows_fit(s, rows),
        without_subid(s, 0) is None,
        host_of(s.domain) == Ok::<Seq<char>, Seq<char>>(s.domain),
        country_of(s.region) == Ok::<Seq<char>, Seq<char>>(s.region),
    ensures
        stored_server(row, rows) == Ok::<ServerView, Seq<char>>(read_back(s)),
{
    let n = rows.len() as int;
    lemma_rows_read_back(s, rows, n);
    assert(s.inbounds.take(n) =~= s.inbounds);
    lemma_subids_read_back(s, rows, n);
    lemma_all_subids(s, 0);
    let subids = subids_of_rows(rows, n);
    assert(subids =~= inbound_subids(s)) by {
        assert forall|k: Seq<char>| subids.dom().contains(k) <==> inbound_subids(
            s,
        ).dom().contains(k) by {
            if subids.dom().contains(k) {
                let i = choose|i: int| 0 <= i < n && #[trigger] s.inbounds[i].name == k;
                assert(s.secrets.mother_subids.dom().contains(s.inbounds[i].name));
            }
        }
    }
    crate::types::law_names_read_back(
        ServerState::Offgrid,
        ServerState::Production,
        InboundKind::VlessTcpReality,
        InboundKind::VlessTcpReality,
        SvcHealth::Healthy,
        SvcHealth::Healthy,
    );
    assert(row_state(row) == Some(s.state));
    assert(stored_server(row, rows)->Ok_0 =~= read_back(s));
}

proof fn lemma_all_subids(s: ServerView, i: int)
    requires
        0 <= i,
        without_subid(s, i) is None,
    ensures
        forall|j: int|
            i <= j < s.inbounds.len() ==> s.secrets.mother_subids.dom().contains(
                (#[trigger] s.inbounds[j]).name,
            ),
    decreases s.inbounds.len() - i,
{
    if i < s.inbounds.len() {
        lemma_all_subids(s, i + 1);
    }
}

// ---------------------------------------------------------------- options

/// The result of reading a number from this place on, where those before it have
/// this value.
pub open spec fn number_from(s: Seq<char>, i: int, acc: nat) -> Result<u64, Seq<char>>
    decreases s.len() - i,
{
    if i >= s.len() {
        Ok(acc as u64)
    } else if !is_digit(s[i]) {
        Err("invalid digit found in string"@)
    } else {
        let n = acc * 10 + (s[i] as nat - '0' as nat) as nat;
        if n > u64::MAX {
            Err("number too large to fit in target type"@)
        } else {
            number_from(s, i + 1, n)
        }
    }
}

/// The number that a stored text stands for, or why it stands for none.
pub open spec fn number_of(s: Seq<char>) -> Result<u64, Seq<char>> {
    if s.len() == 0 {
        Err("cannot parse integer from empty string"@)
    } else if s[0] == '+' && s.len() > 1 {
        number_from(s, 1, 0)
    } else {
        number_from(s, 0, 0)
    }
}

/// Reads a stored number.
pub fn parse_number(text: &str) -> (r: Result<u64, String>)
    ensures
        match r {
            Ok(n) => number_of(text@) == Ok::<u64, Seq<char>>(n),
            Err(e) => number_of(text@) == Err::<u64, Seq<char>>(e@),
        },
{
    let v = chars_of(text);
    if v.len() == 0 {
        return Err("cannot parse integer from empty string".to_owned());
    }
    let start: usize = if v[0] == '+' && v.len() > 1 {
        1
    } else {
        0
    };
    let mut n: u64 = 0;
    let mut i: usize = start;
    while i < v.len()
        invariant
            start <= i <= v@.len(),
            v@ == text@,
            v@.len() > 0,
            start == (if v@[0] == '+' && v@.len() > 1 {
                1int
            } else {
                0
            }),
            number_of(text@) == number_from(v@, i as int, n as nat),
        decreases v@.len() - i,
    {
        let c = v[i];
        if !digit(c) {
            return Err("invalid digit found in string".to_owned());
        }
        let d: u64 = (c as u32 - '0' as u32) as u64;
        let wide: u128 = (n as u128) * 10 + (d as u128);
        if wide > u64::MAX as u128 {
            return Err("number too large to fit in target type".to_owned());
        }
        n = wide as u64;
        i += 1;
    }
    Ok(n)
}

/// The name of a truth value.
pub open spec fn bool_text(b: bool) -> Seq<char> {
    if b {
        "true"@
    } else {
        "false"@
    }
}

/// Reads a stored truth value.
pub fn parse_flag(text: &str) -> (r: Result<bool, String>)
    ensures
        match r {
            Ok(b) => text@ == bool_text(b),
            Err(e) => text@ != "true"@ && text@ != "false"@ && e@
                == "provided string was not `true` or `false`"@,
        },
{
    if str_eq(text, "true") {
        Ok(true)
    } else if str_eq(text, "false") {
        Ok(false)
    } else {
        Err("provided string was not `true` or `false`".to_owned())
    }
}

/// The options of the cloud as they are stored, but for the configuration and the
/// set of inbounds.
pub struct StoredOptions {
    pub auto_fix: String,
    pub fix_threshold: String,
    pub monitor_interval: String,
}

/// The options are stored as these texts.
pub open spec fn options_fit(
    auto_fix: bool,
    fix_threshold: u64,
    monitor_interval: u64,
    o: StoredOptions,
) -> bool {
    &&& o.auto_fix@ == bool_text(auto_fix)
    &&& o.fix_threshold@ == decimal(fix_threshold as nat)
    &&& o.monitor_interval@ == decimal(monitor_interval as nat)
}

fn flag_name(b: bool) -> (r: String)
    ensures
        r@ == bool_text(b),
{
    if b {
        "true".to_owned()
    } else {
        "false".to_owned()
    }
}

/// The texts under which the options of a cloud are stored.
pub fn stored_options(settings: &CloudSettings) -> (r: StoredOptions)
    ensures
        options_fit(settings.auto_fix, settings.fix_threshold, settings.monitor_interval, r),
{
    StoredOptions {
        auto_fix: flag_name(settings.auto_fix),
        fix_threshold: number(settings.fix_threshold),
        monitor_interval: number(settings.monitor_interval),
    }
}

/// The options that a new database starts with.
pub fn default_options() -> (r: StoredOptions)
    ensures
        options_fit(true, FIX_THRESHOLD, SVC_MON_INTERVAL, r),
{
    StoredOptions {
        auto_fix: flag_name(true),
        fix_threshold: number(FIX_THRESHOLD),
        monitor_interval: number(SVC_MON_INTERVAL),
    }
}

/// The settings that are stored as these texts, or why they cannot be read.
pub fn load_settings(inbound_set: Vec<Inbound>, o: &StoredOptions) -> (r: Result<
    CloudSettings,
    String,
>)
    ensures
        match r {
            Ok(c) => {
                &&& c.inbound_set == inbound_set
                &&& o.auto_fix@ == bool_text(c.auto_fix)
                &&& number_of(o.fix_threshold@) == Ok::<u64, Seq<char>>(c.fix_threshold)
                &&& number_of(o.monitor_interval@) == Ok::<u64, Seq<char>>(c.monitor_interval)
            },
            Err(e) => if o.auto_fix@ != "true"@ && o.auto_fix@ != "false"@ {
                e@ == "provided string was not `true` or `false`"@
            } else if number_of(o.fix_threshold@) is Err {
                number_of(o.fix_threshold@) == Err::<u64, Seq<char>>(e@)
            } else {
                number_of(o.monitor_interval@) == Err::<u64, Seq<char>>(e@)
            },
        },
{
    let auto_fix = match parse_flag(o.auto_fix.as_str()) {
        Ok(b) => b,
        Err(e) => return Err(e),
    };
    let fix_threshold = match parse_number(o.fix_threshold.as_str()) {
        Ok(n) => n,
        Err(e) => return Err(e),
    };
    let monitor_interval = match parse_number(o.monitor_interval.as_str()) {
        Ok(n) => n,
        Err(e) => return Err(e),
    };
    Ok(CloudSettings { inbound_set, auto_fix, fix_threshold, monitor_interval })
}

// ---------------------------------------------------------------- the stored cloud

/// What is stored of a server: its row, and those of its inbounds.
pub struct StoredServer {
    pub row: ServerRow,
    pub inbounds: Vec<InboundRow>,
}

/// The first `k` servers that are stored, or why they cannot be read.
pub open spec fn stored_upto(s: Seq<StoredServer>, k: int) -> Result<Seq<ServerView>, Seq<char>>
    decreases k,
{
    if k <= 0 {
        Ok(Seq::empty())
    } else {
        match stored_upto(s, k - 1) {
            Err(e) => Err(e),
            Ok(before) => match stored_server(s[k - 1].row, s[k - 1].inbounds@) {
                Err(e) => Err(e),
                Ok(server) => Ok(before.push(server)),
            },
        }
    }
}

/// Why stored options cannot be read.
pub open spec fn options_fault(o: StoredOptions) -> Option<Seq<char>> {
    if o.auto_fix@ != "true"@ && o.auto_fix@ != "false"@ {
        Some("provided string was not `true` or `false`"@)
    } else {
        match (number_of(o.fix_threshold@), number_of(o.monitor_interval@)) {
            (Err(e), _) => Some(e),
            (Ok(_), Err(e)) => Some(e),
            _ => None,
        }
    }
}

proof fn lemma_stored_error(s: Seq<StoredServer>, i: int, k: int)
    requires
        0 <= i <= k,
        stored_upto(s, i) is Err,
    ensures
        stored_upto(s, k) == stored_upto(s, i),
    decreases k - i,
{
    if i < k {
        lemma_stored_error(s, i, k - 1);
    }
}

/// The result is the cloud that is stored, or why it cannot be read.
pub open spec fn is_loaded(
    servers: Seq<StoredServer>,
    inbound_set: Result<Vec<Inbound>, String>,
    options: StoredOptions,
    r: Result<Cloud, String>,
) -> bool {
    match stored_upto(servers, servers.len() as int) {
        Err(e) => r matches Err(m) && m@ == e,
        Ok(views) => match inbound_set {
            Err(e) => r == Err::<Cloud, String>(e),
            Ok(set) => match options_fault(options) {
                Some(e) => r matches Err(m) && m@ == e,
                None => {
                    &&& r matches Ok(c)
                    &&& server_views(c.servers@) == views
                    &&& c.settings.inbound_set == set
                    &&& options.auto_fix@ == bool_text(c.settings.auto_fix)
                    &&& number_of(options.fix_threshold@) == Ok::<u64, Seq<char>>(
                        c.settings.fix_threshold,
                    )
                    &&& number_of(options.monitor_interval@) == Ok::<u64, Seq<char>>(
                        c.settings.monitor_interval,
                    )
                },
            },
        },
    }
}

/// Reads the cloud that is stored: first its servers, then its options, with the
/// set of inbounds before the others.
pub fn load_cloud(
    servers: Vec<StoredServer>,
    inbound_set: Result<Vec<Inbound>, String>,
    options: &StoredOptions,
) -> (r: Result<Cloud, String>)
    ensures
        is_loaded(servers@, inbound_set, *options, r),
{
    let ghost all = servers@;
    let mut list: Vec<KetServer> = Vec::new();
    assert(server_views(list@) =~= Seq::<ServerView>::empty());
    for s in it: servers
        invariant
            it.seq() == all,
            stored_upto(all, it.index() as int) == Ok::<Seq<ServerView>, Seq<char>>(
                server_views(list@),
            ),
    {
        let ghost i = it.index() as int;
        match load_server(s.row, &s.inbounds) {
            Ok(server) => {
                let ghost before = list@;
                list.push(server);
                assert(server_views(list@) =~= server_views(before).push(server@));
            },
            Err(e) => {
                proof {
                    lemma_stored_error(all, i + 1, all.len() as int);
                }
                return Err(e);
            },
        }
    }
    let set = match inbound_set {
        Ok(set) => set,
        Err(e) => return Err(e),
    };
    match load_settings(set, options) {
        Ok(settings) => Ok(Cloud { servers: list, settings }),
        Err(e) => Err(e),
    }
}

/// The rows are those of the server, which can be read back.
pub open spec fn readable_as(stored: StoredServer, s: ServerView) -> bool {
    &&& row_fits(s, stored.row)
    &&& rows_fit(s, stored.inbounds@)
    &&& without_subid(s, 0) is None
    &&& host_of(s.domain) == Ok::<Seq<char>, Seq<char>>(s.domain)
    &&& country_of(s.region) == Ok::<Seq<char>, Seq<char>>(s.region)
}

/// The servers of a cloud that is stored read back as they were, all of them and
/// in order, apart from what is known only while the program runs.
pub proof fn law_stored_cloud_reads_back(servers: Seq<ServerView>, stored: Seq<StoredServer>)
    requires
        stored.len() == servers.len(),
        forall|i: int| 0 <= i < stored.len() ==> readable_as(#[trigger] stored[i], servers[i]),
    ensures
        stored_upto(stored, stored.len() as int) == Ok::<Seq<ServerView>, Seq<char>>(
            servers.map_values(|s: ServerView| read_back(s)),
        ),
{
    lemma_stored_cloud(servers, stored, stored.len() as int);
    assert(servers.take(stored.len() as int) =~= servers);
}

proof fn lemma_stored_cloud(servers: Seq<ServerView>, stored: Seq<StoredServer>, k: int)
    requires
        0 <= k <= stored.len(),
        stored.len() == servers.len(),
        forall|i: int| 0 <= i < stored.len() ==> readable_as(#[trigger] stored[i], servers[i]),
    ensures
        stored_upto(stored, k) == Ok::<Seq<ServerView>, Seq<char>>(
            servers.take(k).map_values(|s: ServerView| read_back(s)),
        ),
    decreases k,
{
    let f = |s: ServerView| read_back(s);
    if k > 0 {
        lemma_stored_cloud(servers, stored, k - 1);
        assert(readable_as(stored[k - 1], servers[k - 1]));
        law_stored_server_reads_back(servers[k - 1], stored[k - 1].row, stored[k - 1].inbounds@);
        assert(servers.take(k).map_values(f) =~= servers.take(k - 1).map_values(f).push(
            read_back(servers[k - 1]),
        ));
    } else {
        assert(servers.take(0).map_values(f) =~= Seq::empty());
    }
}

proof fn lemma_prefix_value(s: Seq<char>, i: int)
    requires
        0 <= i < s.len(),
    ensures
        digits_value(s.take(i + 1)) == digits_value(s.take(i)) * 10 + (s[i] as nat
            - '0' as nat) as nat,
{
    assert(s.take(i + 1).drop_last() =~= s.take(i));
    assert(s.take(i + 1).last() == s[i]);
}

proof fn lemma_prefix_grows(s: Seq<char>, i: int)
    requires
        0 <= i <= s.len(),
    ensures
        digits_value(s.take(i)) <= digits_value(s),
    decreases s.len() - i,
{
    if i < s.len() {
        lemma_prefix_grows(s, i + 1);
        lemma_prefix_value(s, i);
    } else {
        assert(s.take(i) =~= s);
    }
}

proof fn lemma_number_reads(s: Seq<char>, i: int)
    requires
        0 <= i <= s.len(),
        all_digits(s),
        digits_value(s) <= u64::MAX,
    ensures
        number_from(s, i, digits_value(s.take(i))) == Ok::<u64, Seq<char>>(digits_value(s) as u64),
    decreases s.len() - i,
{
    if i < s.len() {
        lemma_number_reads(s, i + 1);
        lemma_prefix_value(s, i);
        lemma_prefix_grows(s, i + 1);
    } else {
        assert(s.take(i) =~= s);
    }
}

/// A number that is stored reads back as it was.
pub proof fn law_stored_number_reads_back(n: u64)
    ensures
        number_of(decimal(n as nat)) == Ok::<u64, Seq<char>>(n),
{
    lemma_decimal(n as nat);
    let s = decimal(n as nat);
    assert(s.take(0) =~= Seq::empty());
    lemma_number_reads(s, 0);
}

/// Options that are stored read back as they were.
pub proof fn law_stored_options_read_back(
    auto_fix: bool,
    fix_threshold: u64,
    monitor_interval: u64,
    o: StoredOptions,
    b: bool,
)
    requires
        options_fit(auto_fix, fix_threshold, monitor_interval, o),
    ensures
        o.auto_fix@ == bool_text(b) <==> b == auto_fix,
        number_of(o.fix_threshold@) == Ok::<u64, Seq<char>>(fix_threshold),
        number_of(o.monitor_interval@) == Ok::<u64, Seq<char>>(monitor_interval),
{
    reveal_strlit("true");
    reveal_strlit("false");
    assert("true"@.len() != "false"@.len());
    law_stored_number_reads_back(fix_threshold);
    law_stored_number_reads_back(monitor_interval);
}

// ---------------------------------------------------------------- statements

/// As many placeholders as there are values, with commas between them.
pub open spec fn holders_text(n: nat) -> Seq<char> {
    joined(Seq::new(n, |i: int| "?"@), ","@)
}

pub fn holders(n: usize) -> (r: String)
    ensures
        r@ == holders_text(n as nat),
{
    let mut v: Vec<String> = Vec::new();
    let mut i: usize = 0;
    while i < n
        invariant
            i <= n,
            texts(v@) == Seq::new(i as nat, |j: int| "?"@),
        decreases n - i,
    {
        let ghost before = v@;
        let h = "?".to_owned();
        v.push(h);
        assert(texts(v@) =~= texts(before).push("?"@));
        i += 1;
    }
    join(&v, ",")
}

/// The statement that removes the servers which are not among `n` names.
pub fn delete_servers_sql(n: usize) -> (r: String)
    ensures
        r@ == (if n == 0 {
            "DELETE FROM servers"@
        } else {
            "DELETE FROM servers WHERE name NOT IN ("@ + holders_text(n as nat) + ")"@
        }),
{
    if n == 0 {
        return "DELETE FROM servers".to_owned();
    }
    let mut s = "DELETE FROM servers WHERE name NOT IN (".to_owned();
    let h = holders(n);
    s.append(h.as_str());
    s.append(")");
    s
}

/// The statement that removes the inbounds of a server which are not among `n`
/// names.
pub fn delete_inbounds_sql(n: usize) -> (r: String)
    ensures
        r@ == "DELETE FROM inbounds WHERE server_name = ? AND inbound_group NOT IN ("@
            + holders_text(n as nat) + ")"@,
{
    let mut s = "DELETE FROM inbounds WHERE server_name = ? AND inbound_group NOT IN (".to_owned();
    let h = holders(n);
    s.append(h.as_str());
    s.append(")");
    s
}

/// The statement that removes the statuses of services of a server which are not
/// among `n` names.
pub fn delete_stats_sql(n: usize) -> (r: String)
    ensures
        r@ == "DELETE FROM stats WHERE server_name = ? AND service NOT IN ("@ + holders_text(
            n as nat,
        ) + ")"@,
{
    let mut s = "DELETE FROM stats WHERE server_name = ? AND service NOT IN (".to_owned();
    let h = holders(n);
    s.append(h.as_str());
    s.append(")");
    s
}

/// What is stored of a server: its row, the rows of its inbounds, and the names
/// of its services. What is stored of it beyond these is removed.
pub struct ServerUpdate {
    /// The row of the server, or why it cannot be stored.
    pub row: Result<ServerRow, String>,
    /// The rows of the inbounds, or why they cannot be stored.
    pub inbounds: Result<Vec<InboundRow>, String>,
    /// The names of the inbounds.
    pub inbound_names: Vec<String>,
    pub services: Vec<String>,
    /// The statements that remove other inbounds and services of the server.
    pub delete_inbounds: String,
    pub delete_stats: String,
}

/// What is stored of a cloud.
pub struct CloudUpdate {
    pub options: StoredOptions,
    /// The names of the servers.
    pub names: Vec<String>,
    /// The statement that removes all other servers.
    pub delete_servers: String,
    pub servers: Vec<ServerUpdate>,
}

/// What is stored is that of the server.
pub open spec fn update_fits(s: ServerView, u: ServerUpdate) -> bool {
    &&& row_is(s, u.row)
    &&& match without_subid(s, 0) {
        None => u.inbounds matches Ok(rows) && rows_fit(s, rows@),
        Some(i) => u.inbounds matches Err(e) && e@ == missing_subid_text(s.inbounds[i].name, s.name),
    }
    &&& texts(u.inbound_names@) == s.inbounds.map_values(|i: InboundView| i.name)
    &&& texts(u.services@) == crate::cloud::server::svc_kinds_of(s).map_values(
        |k: crate::types::SvcKindView| svc_text(k),
    )
    &&& u.delete_inbounds@ == "DELETE FROM inbounds WHERE server_name = ? AND inbound_group NOT IN ("@
        + holders_text(s.inbounds.len()) + ")"@
    &&& u.delete_stats@ == "DELETE FROM stats WHERE server_name = ? AND service NOT IN ("@
        + holders_text(crate::cloud::server::svc_kinds_of(s).len()) + ")"@
}

fn update_server(s: &KetServer) -> (u: ServerUpdate)
    ensures
        update_fits(s@, u),
{
    let ghost sv = s@;
    let mut names: Vec<String> = Vec::new();
    let mut i: usize = 0;
    while i < s.inbounds.len()
        invariant
            i <= s.inbounds@.len(),
            sv == s@,
            texts(names@) == sv.inbounds.take(i as int).map_values(|x: InboundView| x.name),
        decreases s.inbounds@.len() - i,
    {
        assert(sv.inbounds[i as int] == s.inbounds@[i as int]@);
        let ghost before = names@;
        let n = s.inbounds[i].name.clone();
        names.push(n);
        assert(texts(names@) =~= texts(before).push(n@));
        assert(sv.inbounds.take(i + 1).map_values(|x: InboundView| x.name)
            =~= sv.inbounds.take(i as int).map_values(|x: InboundView| x.name).push(n@));
        i += 1;
    }
    assert(sv.inbounds.take(i as int) =~= sv.inbounds);
    ServerUpdate {
        row: server_row(s),
        inbounds: inbound_rows(s),
        inbound_names: names,
        services: s.svc_kinds_string(),
        delete_inbounds: delete_inbounds_sql(s.inbounds.len()),
        delete_stats: delete_stats_sql(s.svc_num()),
    }
}

/// What is stored is that of the cloud.
pub open spec fn is_update(cloud: CloudView, u: CloudUpdate) -> bool {
    &&& options_fit(
        cloud.settings.auto_fix,
        cloud.settings.fix_threshold,
        cloud.settings.monitor_interval,
        u.options,
    )
    &&& texts(u.names@) == cloud.servers.map_values(|s: ServerView| s.name)
    &&& u.delete_servers@ == (if cloud.servers.len() == 0 {
        "DELETE FROM servers"@
    } else {
        "DELETE FROM servers WHERE name NOT IN ("@ + holders_text(cloud.servers.len()) + ")"@
    })
    &&& u.servers@.len() == cloud.servers.len()
    &&& forall|i: int|
        0 <= i < u.servers@.len() ==> update_fits(cloud.servers[i], #[trigger] u.servers@[i])
}

/// Prepares what is stored of a cloud.
pub fn update_db(cloud: &Cloud) -> (r: CloudUpdate)
    ensures
        is_update(cloud@, r),
{
    let ghost cv = cloud@;
    let mut names: Vec<String> = Vec::new();
    let mut servers: Vec<ServerUpdate> = Vec::new();
    let mut i: usize = 0;
    while i < cloud.servers.len()
        invariant
            i <= cloud.servers@.len(),
            cv == cloud@,
            servers@.len() == i,
            texts(names@) == cv.servers.take(i as int).map_values(|s: ServerView| s.name),
            forall|j: int| 0 <= j < i ==> update_fits(cv.servers[j], #[trigger] servers@[j]),
        decreases cloud.servers@.len() - i,
    {
        assert(cv.servers[i as int] == cloud.servers@[i as int]@);
        let ghost before = names@;
        let n = cloud.servers[i].name.clone();
        names.push(n);
        assert(texts(names@) =~= texts(before).push(n@));
        assert(cv.servers.take(i + 1).map_values(|s: ServerView| s.name) =~= cv.servers.take(
            i as int,
        ).map_values(|s: ServerView| s.name).push(n@));
        servers.push(update_server(&cloud.servers[i]));
        i += 1;
    }
    assert(cv.servers.take(i as int) =~= cv.servers);
    CloudUpdate {
        options: stored_options(&cloud.settings),
        names,
        delete_servers: delete_servers_sql(cloud.servers.len()),
        servers,
    }
}

// ---------------------------------------------------------------- the round trip

/// The two rows hold the same.
pub open spec fn same_row(a: ServerRow, b: ServerRow) -> bool {
    &&& a.name@ == b.name@
    &&& a.ip_text@ == b.ip_text@
    &&& match (a.ip, b.ip) {
        (Ok(x), Ok(y)) => x@ == y@,
        (Err(x), Err(y)) => x@ == y@,
        _ => false,
    }
    &&& a.domain@ == b.domain@
    &&& a.region@ == b.region@
    &&& a.state@ == b.state@
    &&& a.quota == b.quota
    &&& a.enabled == b.enabled
    &&& a.ssh_port == b.ssh_port
    &&& a.dns_subdomain@ == b.dns_subdomain@
    &&& a.ui_subdomain@ == b.ui_subdomain@
    &&& a.sub_subdomain@ == b.sub_subdomain@
    &&& a.health_path@ == b.health_path@
    &&& a.doh_endpoint@ == b.doh_endpoint@
    &&& a.xui_username@ == b.xui_username@
    &&& a.xui_password@ == b.xui_password@
    &&& crate::text::opt_text(a.xui_token) == crate::text::opt_text(b.xui_token)
    &&& a.xui_webpath@ == b.xui_webpath@
    &&& a.xui_subpath@ == b.xui_subpath@
    &&& a.xui_jsubpath@ == b.xui_jsubpath@
    &&& a.cloudflare_proxied == b.cloudflare_proxied
    &&& a.outbound_block@ == b.outbound_block@
}

/// The two rows hold the same.
pub open spec fn same_inbound_row(a: InboundRow, b: InboundRow) -> bool {
    &&& a.inbound_group@ == b.inbound_group@
    &&& a.port == b.port
    &&& a.kind@ == b.kind@
    &&& a.total_clients == b.total_clients
    &&& a.traffic == b.traffic
    &&& a.expiry == b.expiry
    &&& a.comment@ == b.comment@
    &&& a.mother_subid@ == b.mother_subid@
}

/// An order of the first `n` places: each of them once.
pub open spec fn is_order(p: Seq<int>, n: nat) -> bool {
    &&& p.len() == n
    &&& p.no_duplicates()
    &&& forall|i: int| 0 <= i < n ==> 0 <= #[trigger] p[i] < n
    &&& forall|j: int| 0 <= j < n ==> #[trigger] p.contains(j)
}

/// The rows that were read are those that the update has stored of a server; the
/// rows of the inbounds come in the order `q`.
pub open spec fn holds_update(stored: StoredServer, u: ServerUpdate, q: Seq<int>) -> bool {
    &&& u.row is Ok
    &&& same_row(stored.row, u.row->Ok_0)
    &&& u.inbounds is Ok
    &&& is_order(q, u.inbounds->Ok_0@.len())
    &&& stored.inbounds@.len() == u.inbounds->Ok_0@.len()
    &&& forall|k: int|
        0 <= k < q.len() ==> same_inbound_row(
            #[trigger] stored.inbounds@[k],
            u.inbounds->Ok_0@[q[k]],
        )
}

/// The two hold the same texts.
pub open spec fn same_options(a: StoredOptions, b: StoredOptions) -> bool {
    &&& a.auto_fix@ == b.auto_fix@
    &&& a.fix_threshold@ == b.fix_threshold@
    &&& a.monitor_interval@ == b.monitor_interval@
}

/// The domain is in normal form and the region is the code of a country, as in
/// every server that was read from a declaration.
pub open spec fn in_normal_form(s: ServerView) -> bool {
    &&& host_of(s.domain) == Ok::<Seq<char>, Seq<char>>(s.domain)
    &&& country_of(s.region) == Ok::<Seq<char>, Seq<char>>(s.region)
}

/// The two servers are equal but for the order of their inbounds.
pub open spec fn alike(a: ServerView, b: ServerView) -> bool {
    &&& a == (ServerView { inbounds: a.inbounds, ..b })
    &&& a.inbounds.len() == b.inbounds.len()
    &&& forall|i: InboundView|
        #![trigger a.inbounds.contains(i)]
        #![trigger b.inbounds.contains(i)]
        a.inbounds.contains(i) <==> b.inbounds.contains(i)
}

/// The second cloud is what is read back of the first one: the same settings, and
/// the same servers by their names, in whatever order.
pub open spec fn reads_back_as(c: CloudView, d: CloudView) -> bool {
    &&& d.settings == c.settings
    &&& d.servers.len() == c.servers.len()
    &&& names_unique(d.servers)
    &&& forall|name: Seq<char>| #[trigger]
        has_server(d.servers, name) <==> has_server(c.servers, name)
    &&& forall|i: int|
        0 <= i < d.servers.len() ==> alike(
            #[trigger] d.servers[i],
            read_back(named(c.servers, d.servers[i].name)),
        )
}

/// The server with its inbounds in another order.
spec fn reordered(s: ServerView, q: Seq<int>) -> ServerView {
    ServerView { inbounds: Seq::new(q.len(), |k: int| s.inbounds[q[k]]), ..s }
}

proof fn lemma_no_missing_subid(s: ServerView, i: int)
    requires
        0 <= i,
        forall|j: int|
            i <= j < s.inbounds.len() ==> s.secrets.mother_subids.dom().contains(
                (#[trigger] s.inbounds[j]).name,
            ),
    ensures
        without_subid(s, i) is None,
    decreases s.inbounds.len() - i,
{
    if i < s.inbounds.len() {
        assert(s.secrets.mother_subids.dom().contains(s.inbounds[i].name));
        lemma_no_missing_subid(s, i + 1);
    }
}

/// The rows of a server, read in another order, are those of the server with its
/// inbounds in that order.
proof fn lemma_reordered_rows(s: ServerView, u: ServerUpdate, stored: StoredServer, q: Seq<int>)
    requires
        update_fits(s, u),
        holds_update(stored, u, q),
        in_normal_form(s),
    ensures
        readable_as(stored, reordered(s, q)),
        alike(read_back(reordered(s, q)), read_back(s)),
{
    let t = reordered(s, q);
    let rows = u.inbounds->Ok_0@;
    assert(without_subid(s, 0) is None);
    lemma_all_subids(s, 0);
    assert forall|j: int| 0 <= j < t.inbounds.len() implies t.secrets.mother_subids.dom().contains(
        (#[trigger] t.inbounds[j]).name,
    ) by {
        assert(t.inbounds[j] == s.inbounds[q[j]]);
        assert(s.secrets.mother_subids.dom().contains(s.inbounds[q[j]].name));
    }
    lemma_no_missing_subid(t, 0);
    assert forall|k: int| 0 <= k < stored.inbounds@.len() implies inbound_row_fits(
        t.inbounds[k],
        t.secrets.mother_subids[t.inbounds[k].name],
        #[trigger] stored.inbounds@[k],
    ) by {
        assert(t.inbounds[k] == s.inbounds[q[k]]);
        assert(same_inbound_row(stored.inbounds@[k], rows[q[k]]));
        assert(inbound_row_fits(
            s.inbounds[q[k]],
            s.secrets.mother_subids[s.inbounds[q[k]].name],
            rows[q[k]],
        ));
    }
    assert forall|j: int| 0 <= j < s.inbounds.len() implies t.inbounds.contains(
        #[trigger] s.inbounds[j],
    ) by {
        assert(q.contains(j));
        let k = choose|k: int| 0 <= k < q.len() && q[k] == j;
        assert(t.inbounds[k] == s.inbounds[j]);
    }
    assert(inbound_subids(t) =~= inbound_subids(s)) by {
        assert forall|n: Seq<char>| #[trigger]
            inbound_subids(t).dom().contains(n) <==> inbound_subids(s).dom().contains(n) by {
            if exists|i: int| 0 <= i < t.inbounds.len() && #[trigger] t.inbounds[i].name == n {
                let i = choose|i: int| 0 <= i < t.inbounds.len() && #[trigger] t.inbounds[i].name == n;
                assert(s.inbounds[q[i]].name == n);
            }
            if exists|i: int| 0 <= i < s.inbounds.len() && #[trigger] s.inbounds[i].name == n {
                let i = choose|i: int| 0 <= i < s.inbounds.len() && #[trigger] s.inbounds[i].name == n;
                assert(t.inbounds.contains(s.inbounds[i]));
                let k = choose|k: int| 0 <= k < t.inbounds.len() && t.inbounds[k] == s.inbounds[i];
                assert(t.inbounds[k].name == n);
            }
        }
    }
    let a = read_back(t);
    let b = read_back(s);
    assert forall|i: InboundView| a.inbounds.contains(i) <==> b.inbounds.contains(i) by {
        if t.inbounds.contains(i) {
            let k = choose|k: int| 0 <= k < t.inbounds.len() && t.inbounds[k] == i;
            assert(s.inbounds[q[k]] == i);
        }
        if s.inbounds.contains(i) {
            let j = choose|j: int| 0 <= j < s.inbounds.len() && s.inbounds[j] == i;
            assert(t.inbounds.contains(s.inbounds[j]));
        }
    }
}

/// A cloud that is stored reads back as it was: from the rows and options of its
/// update, in whatever order the rows come, its settings and its servers are read,
/// each with all that is stored of it. The names of its servers are unique, and
/// they are in normal form.
pub proof fn law_update_loads_back(
    cloud: CloudView,
    u: CloudUpdate,
    stored: Seq<StoredServer>,
    p: Seq<int>,
    q: Seq<Seq<int>>,
    set: Vec<Inbound>,
    options: StoredOptions,
    r: Result<Cloud, String>,
)
    requires
        is_update(cloud, u),
        names_unique(cloud.servers),
        forall|i: int| 0 <= i < cloud.servers.len() ==> in_normal_form(#[trigger] cloud.servers[i]),
        is_order(p, cloud.servers.len()),
        stored.len() == cloud.servers.len(),
        q.len() == cloud.servers.len(),
        forall|i: int|
            0 <= i < stored.len() ==> holds_update(#[trigger] stored[i], u.servers@[p[i]], q[i]),
        inbound_views(set@) == cloud.settings.inbound_set,
        same_options(options, u.options),
        is_loaded(stored, Ok(set), options, r),
    ensures
        r is Ok,
        reads_back_as(cloud, r->Ok_0@),
{
    let n = stored.len() as int;
    let moved = Seq::new(stored.len(), |i: int| reordered(cloud.servers[p[i]], q[i]));
    assert forall|i: int| 0 <= i < n implies readable_as(#[trigger] stored[i], moved[i]) && alike(
        read_back(moved[i]),
        read_back(cloud.servers[p[i]]),
    ) by {
        assert(0 <= p[i] < n);
        assert(update_fits(cloud.servers[p[i]], u.servers@[p[i]]));
        assert(in_normal_form(cloud.servers[p[i]]));
        lemma_reordered_rows(cloud.servers[p[i]], u.servers@[p[i]], stored[i], q[i]);
    }
    law_stored_cloud_reads_back(moved, stored);
    law_stored_options_read_back(
        cloud.settings.auto_fix,
        cloud.settings.fix_threshold,
        cloud.settings.monitor_interval,
        options,
        true,
    );
    law_stored_options_read_back(
        cloud.settings.auto_fix,
        cloud.settings.fix_threshold,
        cloud.settings.monitor_interval,
        options,
        false,
    );
    assert(options_fault(options) is None);
    let d = r->Ok_0@;
    assert(d.settings =~= cloud.settings);
    let f = |s: ServerView| read_back(s);
    assert(d.servers == moved.map_values(f));
    assert forall|i: int| 0 <= i < n implies (#[trigger] d.servers[i]).name
        == cloud.servers[p[i]].name && alike(d.servers[i], read_back(cloud.servers[p[i]])) by {
        assert(d.servers[i] == read_back(moved[i]));
        assert(readable_as(stored[i], moved[i]));
    }
    assert forall|i: int, j: int| 0 <= i < j < n implies #[trigger] d.servers[i].name
        != #[trigger] d.servers[j].name by {
        assert(p[i] != p[j]);
        if p[i] < p[j] {
            assert(cloud.servers[p[i]].name != cloud.servers[p[j]].name);
        } else {
            assert(cloud.servers[p[j]].name != cloud.servers[p[i]].name);
        }
    }
    assert forall|name: Seq<char>| #[trigger] has_server(d.servers, name) <==> has_server(
        cloud.servers,
        name,
    ) by {
        if has_server(d.servers, name) {
            let i = choose|i: int| 0 <= i < n && #[trigger] d.servers[i].name == name;
            assert(cloud.servers[p[i]].name == name);
        }
        if has_server(cloud.servers, name) {
            let j = choose|j: int| 0 <= j < n && #[trigger] cloud.servers[j].name == name;
            assert(p.contains(j));
            let i = choose|i: int| 0 <= i < p.len() && p[i] == j;
            assert(d.servers[i].name == name);
        }
    }
    assert forall|i: int| 0 <= i < n implies alike(
        #[trigger] d.servers[i],
        read_back(named(cloud.servers, d.servers[i].name)),
    ) by {
        let j = p[i];
        assert forall|k: int| j < k < n implies #[trigger] cloud.servers[k].name
            != cloud.servers[j].name by {
            assert(cloud.servers[j].name != cloud.servers[k].name);
        }
        lemma_server_index_is(cloud.servers, cloud.servers[j].name, j);
    }
}

// ---------------------------------------------------------------- production

/// What a server becomes when it was provisioned.
pub open spec fn provisioned(s: ServerView, token: Seq<char>) -> ServerView {
    ServerView {
        state: ServerState::Production,
        secrets: SecretsView { xui_token: Some(token), ..s.secrets },
        ansible_conn: Some(settled(s.ansible_conn->Some_0, s.ssh_port)),
        ..s
    }
}

impl KetServer {
    /// Marks a server that was provisioned as Production, with the token of its
    /// panel. A token is set once: for a server that has one already, that is
    /// refused.
    pub fn mark_production(&mut self, xui_token: String) -> (r: Result<(), String>)
        ensures
            match old(self)@.secrets.xui_token {
                Some(_) => r matches Err(e) && e@ == xui_token@ && final(self)@ == (ServerView {
                    state: ServerState::Production,
                    ..old(self)@
                }),
                None => match old(self)@.ansible_conn {
                    None => r matches Err(e) && e@
                        == "Couldn't get AnsibleConn in mark_server_production."@ && final(self)@
                        == (ServerView {
                        state: ServerState::Production,
                        secrets: SecretsView {
                            xui_token: Some(xui_token@),
                            ..old(self)@.secrets
                        },
                        ..old(self)@
                    }),
                    Some(_) => r is Ok && final(self)@ == provisioned(old(self)@, xui_token@),
                },
            },
    {
        self.state.store(ServerState::Production);
        if !self.secrets.xui_token.is_none() {
            return Err(xui_token);
        }
        self.secrets.xui_token = XuiToken::from(xui_token);
        let conn = match &self.ansible_conn {
            Some(c) => settled_conn(c, self.ssh_port),
            None => return Err("Couldn't get AnsibleConn in mark_server_production.".to_owned()),
        };
        self.ansible_conn = Some(conn);
        Ok(())
    }
}

// ---------------------------------------------------------------- statuses

/// A row of the table of statuses.
pub struct StatRow {
    pub server_name: String,
    pub service: String,
    pub health: String,
    pub failed_count: u64,
    pub failed_since: u64,
    pub fix_try: u8,
}

/// The status that a row holds.
pub fn read_status_data(health: &str, failed_count: u64, failed_since: u64, fix_try: u8) -> (r: Result<
    SvcStatus,
    String,
>)
    ensures
        match r {
            Ok(s) => health_text(s.health) == health@ && s.failed_count == failed_count
                && s.failed_since == failed_since && s.fix_try == fix_try,
            Err(e) => e@ == no_variant_text() && forall|h: SvcHealth| #[trigger]
                health_text(h) != health@,
        },
{
    match SvcHealth::from_name(health) {
        Some(h) => Ok(SvcStatus { health: h, failed_count, failed_since, fix_try }),
        None => Err(no_variant()),
    }
}

/// The row in which the status of a service is stored.
pub fn write_status_data(e: &SvcEntry) -> (r: StatRow)
    ensures
        r.server_name@ == e@.info.server.name,
        r.service@ == svc_text(e@.info.kind),
        r.health@ == health_text(e@.status.health),
        r.failed_count == e@.status.failed_count,
        r.failed_since == e@.status.failed_since,
        r.fix_try == e@.status.fix_try,
{
    StatRow {
        server_name: e.info.server.name.clone(),
        service: e.info.kind.to_string(),
        health: e.status.health.to_string(),
        failed_count: e.status.failed_count,
        failed_since: e.status.failed_since,
        fix_try: e.status.fix_try,
    }
}

/// The status with which a service starts.
pub fn initial_status() -> (r: SvcStatus)
    ensures
        r == (SvcStatus {
            health: SvcHealth::Unknown,
            failed_count: 0,
            failed_since: 0,
            fix_try: 0,
        }),
{
    SvcStatus { health: SvcHealth::Unknown, failed_count: 0, failed_since: 0, fix_try: 0 }
}

// ---------------------------------------------------------------- backups

pub open spec fn backup_name_text(action: Seq<char>, time: Seq<char>, ending: Seq<char>) -> Seq<
    char,
> {
    "cloud-"@ + action + "-"@ + time + "."@ + ending
}

/// The name of a backup that is made before an action; `ending` is `db` or
/// `toml`.
pub fn backup_name(action: &str, time: &str, ending: &str) -> (r: String)
    ensures
        r@ == backup_name_text(action@, time@, ending@),
{
    let mut s = "cloud-".to_owned();
    s.append(action);
    s.append("-");
    s.append(time);
    s.append(".");
    s.append(ending);
    s
}

/// Hands out the stored configuration, unless it is blank.
pub fn restore_config(cloud_config: String) -> (r: Result<String, String>)
    ensures
        if trimmed(cloud_config@).len() == 0 {
            r matches Err(e) && e@ == "No cloud config has been backed up to DB yet."@
        } else {
            r == Ok::<String, String>(cloud_config)
        },
{
    let inner = trim(cloud_config.as_str());
    let v = chars_of(inner.as_str());
    if v.len() == 0 {
        Err("No cloud config has been backed up to DB yet.".to_owned())
    } else {
        Ok(cloud_config)
    }
}

// ---------------------------------------------------------------- further laws

/// What is read back of a server is all that was declared of it and all its secrets; the
/// subscription identifiers are those of its inbounds, the connection goes to its SSH port,
/// and the Cloudflare state is not stored.
pub proof fn law_everything_is_read_back(s: ServerView)
    ensures
        ({
            let r = read_back(s);
            &&& r.name == s.name
            &&& r.ip == s.ip
            &&& r.domain == s.domain
            &&& r.region == s.region
            &&& r.state == s.state
            &&& r.quota == s.quota
            &&& r.enabled == s.enabled
            &&& r.ssh_port == s.ssh_port
            &&& r.dns_subdomain == s.dns_subdomain
            &&& r.ui_subdomain == s.ui_subdomain
            &&& r.sub_subdomain == s.sub_subdomain
            &&& r.cloudflare_proxied == s.cloudflare_proxied
            &&& r.inbounds == s.inbounds
            &&& r.outbound_block == s.outbound_block
            &&& r.cfstate is None
            &&& r.ansible_conn is Some
            &&& r.ansible_conn->Some_0.host == Some(s.ip.text)
            &&& r.ansible_conn->Some_0.port == Some(s.ssh_port)
            &&& r.ansible_conn->Some_0.user == Some("root"@)
            &&& r.ansible_conn->Some_0.connection is None
            &&& r.secrets.health_path == s.secrets.health_path
            &&& r.secrets.doh_endpoint == s.secrets.doh_endpoint
            &&& r.secrets.xui_username == s.secrets.xui_username
            &&& r.secrets.xui_password == s.secrets.xui_password
            &&& r.secrets.xui_token == s.secrets.xui_token
            &&& r.secrets.xui_webpath == s.secrets.xui_webpath
            &&& r.secrets.xui_subpath == s.secrets.xui_subpath
            &&& r.secrets.xui_jsubpath == s.secrets.xui_jsubpath
            &&& forall|n: Seq<char>| #[trigger]
                r.secrets.mother_subids.dom().contains(n) <==> s.secrets.mother_subids.dom().contains(
                    n,
                ) && exists|i: int| 0 <= i < s.inbounds.len() && #[trigger] s.inbounds[i].name == n
            &&& forall|n: Seq<char>|
                r.secrets.mother_subids.dom().contains(n) ==> #[trigger] r.secrets.mother_subids[n]
                    == s.secrets.mother_subids[n]
        }),
{
}

/// The server that a row gives has what stands in the row, read as what it is.
pub proof fn law_server_is_as_its_row(row: ServerRow, inbounds: Seq<InboundRow>)
    requires
        stored_server(row, inbounds) is Ok,
    ensures
        ({
            let s = stored_server(row, inbounds)->Ok_0;
            &&& row.ip is Ok && s.ip == row.ip->Ok_0@
            &&& host_of(row.domain@) == Ok::<Seq<char>, Seq<char>>(s.domain)
            &&& country_of(row.region@) == Ok::<Seq<char>, Seq<char>>(s.region)
            &&& row.state@ == state_text(s.state)
            &&& countries_of(row.outbound_block@) == Ok::<Seq<Seq<char>>, Seq<char>>(
                s.outbound_block,
            )
            &&& s.name == row.name@
            &&& 0 <= row.quota <= u16::MAX ==> s.quota == row.quota
            &&& 0 <= row.ssh_port <= u16::MAX ==> s.ssh_port == row.ssh_port
            &&& s.enabled <==> row.enabled == 1
            &&& s.cloudflare_proxied <==> row.cloudflare_proxied == 1
            &&& s.dns_subdomain == row.dns_subdomain@
            &&& s.ui_subdomain == row.ui_subdomain@
            &&& s.sub_subdomain == row.sub_subdomain@
            &&& s.secrets.health_path == row.health_path@
            &&& s.secrets.doh_endpoint == row.doh_endpoint@
            &&& s.secrets.xui_username == row.xui_username@
            &&& s.secrets.xui_password == row.xui_password@
            &&& row.xui_token is Some ==> s.secrets.xui_token == Some(row.xui_token->Some_0@)
            &&& row.xui_token is None ==> s.secrets.xui_token is None
            &&& s.secrets.xui_webpath == row.xui_webpath@
            &&& s.secrets.xui_subpath == row.xui_subpath@
            &&& s.secrets.xui_jsubpath == row.xui_jsubpath@
            &&& s.cfstate is None
            &&& s.ansible_conn is Some && s.ansible_conn->Some_0.host == Some(row.ip_text@)
                && s.ansible_conn->Some_0.port == Some(s.ssh_port) && s.ansible_conn->Some_0.user
                == Some("root"@) && s.ansible_conn->Some_0.connection is None
            &&& s.inbounds.len() == inbounds.len()
        }),
{
    lemma_inbounds_number(inbounds, inbounds.len() as int);
}

proof fn lemma_inbounds_number(rows: Seq<InboundRow>, k: int)
    requires
        0 <= k <= rows.len(),
    ensures
        inbounds_upto(rows, k) is Ok ==> inbounds_upto(rows, k)->Ok_0.len() == k,
    decreases k,
{
    if k > 0 {
        lemma_inbounds_number(rows, k - 1);
    }
}

/// The inbounds of a stored server are those of its rows, in their order, with the
/// identifier that stands in the row.
pub proof fn law_inbounds_are_as_their_rows(row: ServerRow, rows: Seq<InboundRow>, i: int)
    requires
        stored_server(row, rows) is Ok,
        0 <= i < rows.len(),
    ensures
        ({
            let s = stored_server(row, rows)->Ok_0;
            let x = s.inbounds[i];
            &&& x.name == rows[i].inbound_group@
            &&& kind_text(x.kind) == rows[i].kind@
            &&& x.comment == rows[i].comment@
            &&& 0 <= rows[i].port <= u16::MAX ==> x.port == rows[i].port
            &&& 0 <= rows[i].total_clients <= u16::MAX ==> x.total == rows[i].total_clients
            &&& 0 <= rows[i].traffic <= u32::MAX ==> x.traffic == rows[i].traffic
            &&& 0 <= rows[i].expiry <= u16::MAX ==> x.expiry == rows[i].expiry
            &&& s.secrets.mother_subids.dom().contains(x.name)
            &&& (forall|j: int|
                0 <= j < i ==> (#[trigger] rows[j]).inbound_group@ != rows[i].inbound_group@)
                ==> s.secrets.mother_subids[x.name] == rows[i].mother_subid@
        }),
{
    lemma_inbound_at(rows, rows.len() as int, i);
    lemma_subid_of_row(rows, rows.len() as int, i);
}

proof fn lemma_inbound_at(rows: Seq<InboundRow>, k: int, i: int)
    requires
        0 <= i < k <= rows.len(),
        inbounds_upto(rows, k) is Ok,
    ensures
        inbounds_upto(rows, k)->Ok_0.len() == k,
        has_kind(rows[i]),
        inbounds_upto(rows, k)->Ok_0[i] == inbound_of(rows[i], kind_of(rows[i])),
    decreases k,
{
    lemma_inbounds_number(rows, k);
    lemma_inbounds_number(rows, k - 1);
    if i < k - 1 {
        lemma_inbound_at(rows, k - 1, i);
    }
}

proof fn lemma_subid_of_row(rows: Seq<InboundRow>, k: int, i: int)
    requires
        0 <= i < k <= rows.len(),
    ensures
        subids_of_rows(rows, k).dom().contains(rows[i].inbound_group@),
        (forall|j: int|
            0 <= j < i ==> (#[trigger] rows[j]).inbound_group@ != rows[i].inbound_group@)
            ==> subids_of_rows(rows, k)[rows[i].inbound_group@] == rows[i].mother_subid@,
    decreases k,
{
    if i < k - 1 {
        lemma_subid_of_row(rows, k - 1, i);
    } else {
        lemma_subid_names(rows, k - 1, rows[i].inbound_group@);
    }
}

proof fn lemma_subid_names(rows: Seq<InboundRow>, k: int, n: Seq<char>)
    requires
        0 <= k <= rows.len(),
    ensures
        subids_of_rows(rows, k).dom().contains(n) <==> exists|j: int|
            0 <= j < k && (#[trigger] rows[j]).inbound_group@ == n,
    decreases k,
{
    if k > 0 {
        lemma_subid_names(rows, k - 1, n);
        if rows[k - 1].inbound_group@ == n {
            assert(0 <= k - 1 < k && rows[k - 1].inbound_group@ == n);
        }
    }
}

/// A stored server can be read exactly where its address, its domain, its region, its state
/// and its blocked countries stand for something, and the kinds of all its inbounds do.
pub proof fn law_what_can_be_read(row: ServerRow, rows: Seq<InboundRow>)
    ensures
        stored_server(row, rows) is Ok <==> row.ip is Ok && host_of(row.domain@) is Ok
            && country_of(row.region@) is Ok && (row.state@ == state_text(ServerState::Offgrid)
            || row.state@ == state_text(ServerState::Production)) && countries_of(
            row.outbound_block@,
        ) is Ok && forall|i: int|
            0 <= i < rows.len() ==> exists|k: InboundKind| #[trigger]
                kind_text(k) == (#[trigger] rows[i]).kind@,
{
    lemma_kinds(rows, rows.len() as int);
}

proof fn lemma_kinds(rows: Seq<InboundRow>, k: int)
    requires
        0 <= k <= rows.len(),
    ensures
        inbounds_upto(rows, k) is Ok <==> forall|i: int|
            0 <= i < k ==> exists|x: InboundKind| #[trigger]
                kind_text(x) == (#[trigger] rows[i]).kind@,
    decreases k,
{
    if k > 0 {
        lemma_kinds(rows, k - 1);
        if inbounds_upto(rows, k) is Ok {
            assert(has_kind(rows[k - 1]));
        }
    }
}

/// The servers of a stored cloud are read one by one, in their order, and all of them.
pub proof fn law_stored_servers_are_read_in_order(stored: Seq<StoredServer>, i: int)
    requires
        stored_upto(stored, stored.len() as int) is Ok,
        0 <= i < stored.len(),
    ensures
        stored_upto(stored, stored.len() as int)->Ok_0.len() == stored.len(),
        stored_server(stored[i].row, stored[i].inbounds@) == Ok::<ServerView, Seq<char>>(
            stored_upto(stored, stored.len() as int)->Ok_0[i],
        ),
{
    lemma_stored_at(stored, stored.len() as int, i);
}

proof fn lemma_stored_at(stored: Seq<StoredServer>, k: int, i: int)
    requires
        0 <= i < k <= stored.len(),
        stored_upto(stored, k) is Ok,
    ensures
        stored_upto(stored, k)->Ok_0.len() == k,
        stored_server(stored[i].row, stored[i].inbounds@) == Ok::<ServerView, Seq<char>>(
            stored_upto(stored, k)->Ok_0[i],
        ),
    decreases k,
{
    if k > 1 {
        lemma_stored_at(stored, k - 1, if i < k - 1 {
            i
        } else {
            0
        });
    } else {
        assert(stored_upto(stored, 0)->Ok_0 =~= Seq::empty());
    }
}

/// A stored number is one where it consists of digits, with or without a plus sign before
/// them, and is not too large; nothing else is a number.
pub proof fn law_what_is_a_number(s: Seq<char>, i: int)
    ensures
        all_digits(s) && digits_value(s) <= u64::MAX ==> number_of(s) == Ok::<u64, Seq<char>>(
            digits_value(s) as u64,
        ),
        s.len() == 0 ==> number_of(s) is Err,
        number_of(s) is Ok && 0 < i < s.len() ==> is_digit(s[i]),
        number_of(s) is Ok ==> is_digit(s[0]) || (s[0] == '+' && s.len() > 1),
{
    if all_digits(s) && digits_value(s) <= u64::MAX {
        assert(is_digit(s[0]));
        assert(s.take(0) =~= Seq::empty());
        lemma_number_reads(s, 0);
    }
    if number_of(s) is Ok {
        if s[0] == '+' && s.len() > 1 {
            lemma_number_digits(s, 1, 0, i);
        } else {
            lemma_number_digits(s, 0, 0, i);
            lemma_number_digits(s, 0, 0, 0);
        }
    }
}

proof fn lemma_number_digits(s: Seq<char>, k: int, acc: nat, i: int)
    requires
        0 <= k <= s.len(),
        number_from(s, k, acc) is Ok,
    ensures
        k <= i < s.len() ==> is_digit(s[i]),
    decreases s.len() - k,
{
    if k < s.len() {
        let n = acc * 10 + (s[k] as nat - '0' as nat) as nat;
        lemma_number_digits(s, k + 1, n, i);
    }
}

/// There is one placeholder for each value, and a comma between each two.
pub proof fn law_one_placeholder_for_each_value(n: nat)
    ensures
        holders_text(0) == Seq::<char>::empty(),
        holders_text(1) == "?"@,
        n > 0 ==> holders_text(n + 1) == holders_text(n) + ","@ + "?"@,
{
    let a = Seq::new(n, |i: int| "?"@);
    assert(Seq::new(n + 1, |i: int| "?"@) =~= a.push("?"@));
    assert(Seq::new(1, |i: int| "?"@) =~= seq!["?"@]);
    assert(Seq::new(0, |i: int| "?"@) =~= Seq::<Seq<char>>::empty());
    crate::text::law_parts_are_joined(a, "?"@, ","@);
}

/// What is stored of a cloud is stored of all its servers: their names, their rows and the
/// names of their inbounds and services, and whatever else is stored is removed.
pub proof fn law_update_covers_the_cloud(cloud: CloudView, u: CloudUpdate, i: int, j: int)
    requires
        is_update(cloud, u),
        0 <= i < cloud.servers.len(),
    ensures
        u.names@.len() == cloud.servers.len(),
        u.servers@.len() == cloud.servers.len(),
        u.names@[i]@ == cloud.servers[i].name,
        u.delete_servers@ == "DELETE FROM servers WHERE name NOT IN ("@ + holders_text(
            u.names@.len(),
        ) + ")"@,
        ({
            let s = cloud.servers[i];
            let x = u.servers@[i];
            &&& x.inbound_names@.len() == s.inbounds.len()
            &&& 0 <= j < s.inbounds.len() ==> x.inbound_names@[j]@ == s.inbounds[j].name
            &&& x.services@.len() == s.inbounds.len() + 2
            &&& x.delete_inbounds@
                == "DELETE FROM inbounds WHERE server_name = ? AND inbound_group NOT IN ("@
                + holders_text(x.inbound_names@.len()) + ")"@
            &&& x.delete_stats@ == "DELETE FROM stats WHERE server_name = ? AND service NOT IN ("@
                + holders_text(x.services@.len()) + ")"@
            &&& 0 <= j < x.services@.len() ==> x.services@[j]@ == svc_text(
                crate::cloud::server::svc_kinds_of(s)[j],
            )
            &&& x.row is Ok <==> all_countries(s.outbound_block)
            &&& x.row is Ok ==> row_fits(s, x.row->Ok_0)
            &&& x.inbounds is Ok <==> forall|k: int|
                0 <= k < s.inbounds.len() ==> s.secrets.mother_subids.dom().contains(
                    (#[trigger] s.inbounds[k]).name,
                )
        }),
        u.options.auto_fix@ == (if cloud.settings.auto_fix {
            "true"@
        } else {
            "false"@
        }),
        u.options.fix_threshold@ == decimal(cloud.settings.fix_threshold as nat),
        u.options.monitor_interval@ == decimal(cloud.settings.monitor_interval as nat),
{
    let s = cloud.servers[i];
    let x = u.servers@[i];
    assert(update_fits(s, x));
    assert(texts(u.names@).len() == u.names@.len());
    assert(texts(u.names@)[i] == u.names@[i]@);
    assert(texts(x.inbound_names@).len() == x.inbound_names@.len());
    assert(texts(x.services@).len() == x.services@.len());
    if 0 <= j < s.inbounds.len() {
        assert(texts(x.inbound_names@)[j] == x.inbound_names@[j]@);
    }
    if 0 <= j < x.services@.len() {
        assert(texts(x.services@)[j] == x.services@[j]@);
    }
    if without_subid(s, 0) is None {
        lemma_all_subids(s, 0);
    } else if forall|k: int|
        0 <= k < s.inbounds.len() ==> s.secrets.mother_subids.dom().contains(
            (#[trigger] s.inbounds[k]).name,
        ) {
        lemma_no_missing_subid(s, 0);
    }
}

/// The row of a server has all that is stored of it.
pub proof fn law_row_has_everything(s: ServerView, row: ServerRow)
    requires
        row_fits(s, row),
    ensures
        row.name@ == s.name,
        row.ip_text@ == s.ip.text,
        row.domain@ == s.domain,
        row.region@ == s.region,
        row.state@ == state_text(s.state),
        row.quota == s.quota,
        row.enabled == 1 <==> s.enabled,
        row.enabled == 0 <==> !s.enabled,
        row.ssh_port == s.ssh_port,
        row.dns_subdomain@ == s.dns_subdomain,
        row.ui_subdomain@ == s.ui_subdomain,
        row.sub_subdomain@ == s.sub_subdomain,
        row.health_path@ == s.secrets.health_path,
        row.doh_endpoint@ == s.secrets.doh_endpoint,
        row.xui_username@ == s.secrets.xui_username,
        row.xui_password@ == s.secrets.xui_password,
        s.secrets.xui_token is Some ==> row.xui_token is Some && row.xui_token->Some_0@
            == s.secrets.xui_token->Some_0,
        s.secrets.xui_token is None ==> row.xui_token is None,
        row.xui_webpath@ == s.secrets.xui_webpath,
        row.xui_subpath@ == s.secrets.xui_subpath,
        row.xui_jsubpath@ == s.secrets.xui_jsubpath,
        row.cloudflare_proxied == 1 <==> s.cloudflare_proxied,
        row.cloudflare_proxied == 0 <==> !s.cloudflare_proxied,
        countries_text(s.outbound_block) == Ok::<Seq<char>, Seq<char>>(row.outbound_block@),
{
}

/// The rows of the inbounds have all that is stored of them, each at its place.
pub proof fn law_inbound_rows_have_everything(s: ServerView, rows: Seq<InboundRow>, i: int)
    requires
        rows_fit(s, rows),
        0 <= i < s.inbounds.len(),
    ensures
        rows.len() == s.inbounds.len(),
        rows[i].inbound_group@ == s.inbounds[i].name,
        rows[i].port == s.inbounds[i].port,
        rows[i].kind@ == kind_text(s.inbounds[i].kind),
        rows[i].total_clients == s.inbounds[i].total,
        rows[i].traffic == s.inbounds[i].traffic,
        rows[i].expiry == s.inbounds[i].expiry,
        rows[i].comment@ == s.inbounds[i].comment,
        rows[i].mother_subid@ == s.secrets.mother_subids[s.inbounds[i].name],
{
    assert(inbound_row_fits(
        s.inbounds[i],
        s.secrets.mother_subids[s.inbounds[i].name],
        rows[i],
    ));
}

/// A server that was provisioned is Production, has the token of its panel, is reached at
/// its SSH port, and is otherwise what it was.
pub proof fn law_provisioning_changes_little(s: ServerView, token: Seq<char>)
    requires
        s.ansible_conn is Some,
    ensures
        ({
            let r = provisioned(s, token);
            &&& r.state == ServerState::Production
            &&& r.secrets.xui_token == Some(token)
            &&& r.secrets == (SecretsView { xui_token: r.secrets.xui_token, ..s.secrets })
            &&& r.ansible_conn is Some && r.ansible_conn->Some_0.port == Some(s.ssh_port)
                && r.ansible_conn->Some_0.host == s.ansible_conn->Some_0.host
                && r.ansible_conn->Some_0.user == s.ansible_conn->Some_0.user
            &&& r == (ServerView {
                state: r.state,
                secrets: r.secrets,
                ansible_conn: r.ansible_conn,
                ..s
            })
        }),
{
}

/// A backup of the cloud is named by the action and the time.
pub proof fn law_backups_are_named(action: Seq<char>, time: Seq<char>, ending: Seq<char>)
    ensures
        backup_name_text(action, time, ending) == "cloud-"@ + action + "-"@ + time + "."@ + ending,
{
}

} // verus!
