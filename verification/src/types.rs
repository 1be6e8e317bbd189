//! The model of the cloud: its servers, their inbounds and secrets, and the
//! services that are monitored on them.

use vstd::prelude::*;

use crate::ansible::{conn_view, AnsibleConn, AnsibleConnView};
use crate::cloudflare::{cf_view, CFState, CFStateView};
use crate::strmap::{text_map, StrMap};
use crate::text::{
    alnum, chars_of, digit, is_alnum, is_digit, is_lower, lower, str_eq, str_starts_with, starts_with,
    text_of, trim, trimmed,
};

verus! {

// ---------------------------------------------------------------- names

/// A name that starts and ends with an ASCII letter or digit and holds nothing
/// but those and underscores.
pub open spec fn proper(s: Seq<char>) -> bool {
    &&& s.len() > 0
    &&& is_alnum(s[0])
    &&& is_alnum(s.last())
    &&& forall|i: int| 0 <= i < s.len() ==> is_alnum(#[trigger] s[i]) || s[i] == '_'
}

/// A lowercase ASCII letter or a digit.
pub open spec fn is_label_char(c: char) -> bool {
    is_lower(c) || is_digit(c)
}

/// A subdomain of at most 63 characters that starts and ends with a lowercase
/// ASCII letter or digit and holds nothing but those and hyphens.
pub open spec fn proper_subdomain(s: Seq<char>) -> bool {
    &&& 0 < s.len() <= 63
    &&& is_label_char(s[0])
    &&& is_label_char(s.last())
    &&& forall|i: int| 0 <= i < s.len() ==> is_label_char(#[trigger] s[i]) || s[i] == '-'
}

/// Checks a subdomain: lowercase ASCII letters, digits and inner hyphens, at
/// most 63 of them.
pub fn is_proper_subdomain(name: &str) -> (r: bool)
    ensures
        r == proper_subdomain(name@),
{
    let v = chars_of(name);
    if v.len() == 0 || v.len() > 63 {
        return false;
    }
    let mut i: usize = 0;
    while i < v.len()
        invariant
            i <= v@.len(),
            v@ == name@,
            forall|j: int| 0 <= j < i ==> is_label_char(#[trigger] v@[j]) || v@[j] == '-',
        decreases v@.len() - i,
    {
        if !(lower(v[i]) || digit(v[i]) || v[i] == '-') {
            return false;
        }
        i += 1;
    }
    let first = v[0];
    let last = v[v.len() - 1];
    (lower(first) || digit(first)) && (lower(last) || digit(last))
}

/// Checks a name: ASCII letters and digits with inner underscores. A dash is
/// not allowed.
pub fn is_proper(name: &str) -> (r: bool)
    ensures
        r == proper(name@),
{
    let v = chars_of(name);
    if v.len() == 0 {
        return false;
    }
    let mut i: usize = 0;
    while i < v.len()
        invariant
            i <= v@.len(),
            v@ == name@,
            forall|j: int| 0 <= j < i ==> is_alnum(#[trigger] v@[j]) || v@[j] == '_',
        decreases v@.len() - i,
    {
        if !(alnum(v[i]) || v[i] == '_') {
            return false;
        }
        i += 1;
    }
    alnum(v[0]) && alnum(v[v.len() - 1])
}

/// What becomes of a character in a suggested name: `edge` tells that it is the
/// first or the last one.
pub open spec fn slug_char(c: char, edge: bool) -> char {
    if is_alnum(c) {
        c
    } else if edge {
        'a'
    } else {
        '_'
    }
}

/// The proper name that is suggested in place of a text.
pub open spec fn slugged(s: Seq<char>) -> Seq<char> {
    let t = trimmed(s);
    if t.len() == 0 {
        "good_nickname1"@
    } else {
        Seq::new(t.len(), |i: int| slug_char(t[i], i == 0 || i == t.len() - 1))
    }
}

/// Suggests a proper name.
pub trait Slugged {
    fn slug(&self) -> String;
}

impl Slugged for str {
    fn slug(&self) -> (r: String)
        ensures
            r@ == slugged(self@),
    {
        let t = trim(self);
        let v = chars_of(t.as_str());
        if v.len() == 0 {
            return "good_nickname1".to_owned();
        }
        let mut r = String::new();
        let mut i: usize = 0;
        while i < v.len()
            invariant
                i <= v@.len(),
                v@.len() > 0,
                r@ == Seq::new(i as nat, |j: int| slug_char(v@[j], j == 0 || j == v@.len() - 1)),
            decreases v@.len() - i,
        {
            if alnum(v[i]) {
                r.push(v[i]);
            } else if i == 0 || i == v.len() - 1 {
                r.push('a');
            } else {
                r.push('_');
            }
            assert(r@ =~= Seq::new(
                (i + 1) as nat,
                |j: int| slug_char(v@[j], j == 0 || j == v@.len() - 1),
            ));
            i += 1;
        }
        r
    }
}

impl Slugged for String {
    fn slug(&self) -> (r: String)
        ensures
            r@ == slugged(self@),
    {
        self.as_str().slug()
    }
}

/// Whatever the text, the suggested name is a proper one.
pub proof fn law_slug_is_proper(s: Seq<char>)
    ensures
        proper(slugged(s)),
{
    reveal_strlit("good_nickname1");
    let t = trimmed(s);
    if t.len() == 0 {
        let g = "good_nickname1"@;
        assert(g.len() == 14);
        assert(g[0] == 'g' && g[1] == 'o' && g[2] == 'o' && g[3] == 'd' && g[4] == '_' && g[5]
            == 'n' && g[6] == 'i' && g[7] == 'c' && g[8] == 'k' && g[9] == 'n' && g[10] == 'a'
            && g[11] == 'm' && g[12] == 'e' && g[13] == '1');
    }
}

/// A proper name is suggested unchanged.
pub proof fn law_slug_keeps_proper(s: Seq<char>)
    requires
        proper(s),
    ensures
        slugged(s) == s,
{
    assert(trimmed(s) == s);
    assert(slugged(s) =~= s);
}

/// Suggesting a name for a suggested name changes nothing.
pub proof fn law_slug_idempotent(s: Seq<char>)
    ensures
        slugged(slugged(s)) == slugged(s),
{
    law_slug_is_proper(s);
    law_slug_keeps_proper(slugged(s));
}

// ---------------------------------------------------------------- servers

/// Whether a server is ready to serve in the cloud, or has not been prepared
/// yet.
#[derive(Clone, Copy, Debug, PartialEq, Eq, Structural)]
pub enum ServerState {
    Offgrid,
    Production,
}

impl Default for ServerState {
    fn default() -> (r: Self)
        ensures
            r == ServerState::Offgrid,
    {
        ServerState::Offgrid
    }
}

/// The name of a state.
pub open spec fn state_text(s: ServerState) -> Seq<char> {
    match s {
        ServerState::Offgrid => "Offgrid"@,
        ServerState::Production => "Production"@,
    }
}

impl ServerState {
    pub fn to_string(&self) -> (r: String)
        ensures
            r@ == state_text(*self),
    {
        match self {
            ServerState::Offgrid => "Offgrid".to_owned(),
            ServerState::Production => "Production".to_owned(),
        }
    }

    /// Reads a state from a declaration, whatever its case and the white space
    /// round it.
    pub fn parse(s: &str) -> (r: Result<Self, String>)
        ensures
            ({
                let t = crate::outside::lowercase_text(trimmed(s@));
                match r {
                    Ok(ServerState::Production) => t == "production"@,
                    Ok(ServerState::Offgrid) => t == "offgrid"@,
                    Err(e) => t != "production"@ && t != "offgrid"@ && e@
                        == "Invalid server state: "@ + t,
                }
            }),
    {
        let inner = trim(s);
        let t = crate::outside::lowercase(inner.as_str());
        ServerState::of_text(t)
    }

    /// The state that a lowercase text declares.
    pub fn of_text(t: String) -> (r: Result<Self, String>)
        ensures
            match r {
                Ok(ServerState::Production) => t@ == "production"@,
                Ok(ServerState::Offgrid) => t@ == "offgrid"@,
                Err(e) => t@ != "production"@ && t@ != "offgrid"@ && e@
                    == "Invalid server state: "@ + t@,
            },
    {
        proof {
            reveal_strlit("production");
            reveal_strlit("offgrid");
            assert("production"@.len() != "offgrid"@.len());
        }
        if str_eq(t.as_str(), "production") {
            Ok(ServerState::Production)
        } else if str_eq(t.as_str(), "offgrid") {
            Ok(ServerState::Offgrid)
        } else {
            let mut e = "Invalid server state: ".to_owned();
            e.append(t.as_str());
            Err(e)
        }
    }

    /// The state with exactly this name.
    pub fn from_name(s: &str) -> (r: Option<Self>)
        ensures
            match r {
                Some(st) => state_text(st) == s@,
                None => forall|st: ServerState| #[trigger] state_text(st) != s@,
            },
    {
        if str_eq(s, "Offgrid") {
            Some(ServerState::Offgrid)
        } else if str_eq(s, "Production") {
            Some(ServerState::Production)
        } else {
            None
        }
    }
}

/// The state of a server, which changes while the program runs.
#[derive(Debug)]
pub struct AtomicServerState {
    state: ServerState,
}

impl AtomicServerState {
    pub closed spec fn current(self) -> ServerState {
        self.state
    }

    pub fn new(state: ServerState) -> (r: Self)
        ensures
            r.current() == state,
    {
        AtomicServerState { state }
    }

    pub fn load(&self) -> (r: ServerState)
        ensures
            r == self.current(),
    {
        self.state
    }

    pub fn store(&mut self, state: ServerState)
        ensures
            final(self).current() == state,
    {
        self.state = state;
    }
}

impl Default for AtomicServerState {
    fn default() -> (r: Self)
        ensures
            r.current() == ServerState::Offgrid,
    {
        AtomicServerState::new(ServerState::Offgrid)
    }
}

impl Clone for AtomicServerState {
    fn clone(&self) -> (r: Self)
        ensures
            r.current() == self.current(),
    {
        AtomicServerState::new(self.load())
    }
}

/// An address, by its parts.
#[derive(Clone, Copy, Debug, PartialEq, Eq, Structural)]
pub enum Ip {
    V4(u8, u8, u8, u8),
    V6(u16, u16, u16, u16, u16, u16, u16, u16),
}

/// The public address of a server: its parts, and the text that it is written
/// as.
#[derive(Debug)]
pub struct IpAddr {
    pub ip: Ip,
    pub text: String,
}

#[verifier::ext_equal]
pub struct IpAddrView {
    pub ip: Ip,
    pub text: Seq<char>,
}

impl View for IpAddr {
    type V = IpAddrView;

    open spec fn view(&self) -> IpAddrView {
        IpAddrView { ip: self.ip, text: self.text@ }
    }
}

impl Clone for IpAddr {
    fn clone(&self) -> (r: Self)
        ensures
            r@ == self@,
    {
        IpAddr { ip: self.ip, text: self.text.clone() }
    }
}

/// The token of the panel's API, which a server has once it is provisioned.
#[derive(Debug)]
pub struct XuiToken(pub Option<String>);

impl XuiToken {
    pub open spec fn text(self) -> Option<Seq<char>> {
        match self.0 {
            Some(t) => Some(t@),
            None => None,
        }
    }

    pub fn is_none(&self) -> (r: bool)
        ensures
            r == self.text() is None,
    {
        self.0.is_none()
    }

    pub fn empty() -> (r: Self)
        ensures
            r.text() is None,
    {
        XuiToken(None)
    }

    pub fn from(value: String) -> (r: Self)
        ensures
            r.text() == Some(value@),
    {
        XuiToken(Some(value))
    }
}

impl Default for XuiToken {
    fn default() -> (r: Self)
        ensures
            r.text() is None,
    {
        XuiToken::empty()
    }
}

impl Clone for XuiToken {
    fn clone(&self) -> (r: Self)
        ensures
            r.text() == self.text(),
    {
        match &self.0 {
            Some(t) => XuiToken(Some(t.clone())),
            None => XuiToken(None),
        }
    }
}

/// The secrets of a server.
pub struct Secrets {
    /// The path at which the health of Nginx is checked. It is derived from the
    /// server's name, domain and subdomains.
    pub health_path: String,
    /// The endpoint of the DNS-over-HTTPS server.
    pub doh_endpoint: String,
    pub xui_username: String,
    pub xui_password: String,
    pub xui_token: XuiToken,
    /// The path of the panel.
    pub xui_webpath: String,
    /// The path of sublinks on the subscription server.
    pub xui_subpath: String,
    /// The path of JSON sublinks on the subscription server.
    pub xui_jsubpath: String,
    /// The subscription identifier of the mother client of each inbound.
    pub mother_subids: StrMap<String>,
}

#[verifier::ext_equal]
pub struct SecretsView {
    pub health_path: Seq<char>,
    pub doh_endpoint: Seq<char>,
    pub xui_username: Seq<char>,
    pub xui_password: Seq<char>,
    pub xui_token: Option<Seq<char>>,
    pub xui_webpath: Seq<char>,
    pub xui_subpath: Seq<char>,
    pub xui_jsubpath: Seq<char>,
    pub mother_subids: Map<Seq<char>, Seq<char>>,
}

impl View for Secrets {
    type V = SecretsView;

    open spec fn view(&self) -> SecretsView {
        SecretsView {
            health_path: self.health_path@,
            doh_endpoint: self.doh_endpoint@,
            xui_username: self.xui_username@,
            xui_password: self.xui_password@,
            xui_token: self.xui_token.text(),
            xui_webpath: self.xui_webpath@,
            xui_subpath: self.xui_subpath@,
            xui_jsubpath: self.xui_jsubpath@,
            mother_subids: text_map(self.mother_subids@),
        }
    }
}

/// The secrets of a server for which none were made yet.
pub open spec fn no_secrets() -> SecretsView {
    SecretsView {
        health_path: Seq::empty(),
        doh_endpoint: Seq::empty(),
        xui_username: Seq::empty(),
        xui_password: Seq::empty(),
        xui_token: None,
        xui_webpath: Seq::empty(),
        xui_subpath: Seq::empty(),
        xui_jsubpath: Seq::empty(),
        mother_subids: Map::empty(),
    }
}

impl Default for Secrets {
    fn default() -> (r: Self)
        ensures
            r@ == no_secrets(),
    {
        let r = Secrets {
            health_path: String::new(),
            doh_endpoint: String::new(),
            xui_username: String::new(),
            xui_password: String::new(),
            xui_token: XuiToken::empty(),
            xui_webpath: String::new(),
            xui_subpath: String::new(),
            xui_jsubpath: String::new(),
            mother_subids: StrMap::new(),
        };
        assert(r@ =~= no_secrets());
        r
    }
}

impl Clone for Secrets {
    fn clone(&self) -> (r: Self)
        ensures
            r@ == self@,
    {
        Secrets {
            health_path: self.health_path.clone(),
            doh_endpoint: self.doh_endpoint.clone(),
            xui_username: self.xui_username.clone(),
            xui_password: self.xui_password.clone(),
            xui_token: self.xui_token.clone(),
            xui_webpath: self.xui_webpath.clone(),
            xui_subpath: self.xui_subpath.clone(),
            xui_jsubpath: self.xui_jsubpath.clone(),
            mother_subids: self.mother_subids.clone(),
        }
    }
}

/// The kind of an inbound: protocol, transmission and security.
#[derive(Clone, Copy, Debug, PartialEq, Eq, Structural)]
pub enum InboundKind {
    VlessXhttpReality,
    VlessTcpReality,
    VlessXhttpTls,
    VlessWsTls,
    VlessGrpcTls,
}

impl Default for InboundKind {
    fn default() -> (r: Self)
        ensures
            r == InboundKind::VlessXhttpReality,
    {
        InboundKind::VlessXhttpReality
    }
}

/// The name of a kind.
pub open spec fn kind_text(k: InboundKind) -> Seq<char> {
    match k {
        InboundKind::VlessXhttpReality => "VlessXhttpReality"@,
        InboundKind::VlessTcpReality => "VlessTcpReality"@,
        InboundKind::VlessXhttpTls => "VlessXhttpTls"@,
        InboundKind::VlessWsTls => "VlessWsTls"@,
        InboundKind::VlessGrpcTls => "VlessGrpcTls"@,
    }
}

/// The kinds that are secured by TLS.
pub open spec fn is_tls(k: InboundKind) -> bool {
    k is VlessXhttpTls || k is VlessWsTls || k is VlessGrpcTls
}

impl InboundKind {
    /// Can connections of this kind go through Cloudflare?
    pub fn cloudflare_compatible(&self) -> (r: bool)
        ensures
            r == is_tls(*self),
    {
        match self {
            InboundKind::VlessXhttpReality => false,
            InboundKind::VlessTcpReality => false,
            InboundKind::VlessXhttpTls => true,
            InboundKind::VlessWsTls => true,
            InboundKind::VlessGrpcTls => true,
        }
    }

    pub fn to_string(&self) -> (r: String)
        ensures
            r@ == kind_text(*self),
    {
        match self {
            InboundKind::VlessXhttpReality => "VlessXhttpReality".to_owned(),
            InboundKind::VlessTcpReality => "VlessTcpReality".to_owned(),
            InboundKind::VlessXhttpTls => "VlessXhttpTls".to_owned(),
            InboundKind::VlessWsTls => "VlessWsTls".to_owned(),
            InboundKind::VlessGrpcTls => "VlessGrpcTls".to_owned(),
        }
    }

    /// The kind with exactly this name.
    pub fn from_name(s: &str) -> (r: Option<Self>)
        ensures
            match r {
                Some(k) => kind_text(k) == s@,
                None => forall|k: InboundKind| #[trigger] kind_text(k) != s@,
            },
    {
        if str_eq(s, "VlessXhttpReality") {
            Some(InboundKind::VlessXhttpReality)
        } else if str_eq(s, "VlessTcpReality") {
            Some(InboundKind::VlessTcpReality)
        } else if str_eq(s, "VlessXhttpTls") {
            Some(InboundKind::VlessXhttpTls)
        } else if str_eq(s, "VlessWsTls") {
            Some(InboundKind::VlessWsTls)
        } else if str_eq(s, "VlessGrpcTls") {
            Some(InboundKind::VlessGrpcTls)
        } else {
            None
        }
    }
}

/// An Xray inbound. Once created it is immutable.
#[derive(Debug)]
pub struct Inbound {
    pub name: String,
    pub port: u16,
    pub kind: InboundKind,
    /// How many clients the inbound serves.
    pub total: u16,
    /// The traffic of a client in gigabytes; 0 is without limit.
    pub traffic: u32,
    /// The days that a client has from the first use on; 0 is without limit.
    pub expiry: u16,
    pub comment: String,
}

#[verifier::ext_equal]
pub struct InboundView {
    pub name: Seq<char>,
    pub port: u16,
    pub kind: InboundKind,
    pub total: u16,
    pub traffic: u32,
    pub expiry: u16,
    pub comment: Seq<char>,
}

impl View for Inbound {
    type V = InboundView;

    open spec fn view(&self) -> InboundView {
        InboundView {
            name: self.name@,
            port: self.port,
            kind: self.kind,
            total: self.total,
            traffic: self.traffic,
            expiry: self.expiry,
            comment: self.comment@,
        }
    }
}

pub open spec fn inbound_views(s: Seq<Inbound>) -> Seq<InboundView> {
    s.map_values(|i: Inbound| i@)
}

impl Clone for Inbound {
    fn clone(&self) -> (r: Self)
        ensures
            r == *self,
    {
        Inbound {
            name: self.name.clone(),
            port: self.port,
            kind: self.kind,
            total: self.total,
            traffic: self.traffic,
            expiry: self.expiry,
            comment: self.comment.clone(),
        }
    }
}

impl PartialEq for Inbound {
    fn eq(&self, other: &Self) -> (r: bool) {
        self.name == other.name && self.port == other.port && self.kind == other.kind && self.total
            == other.total && self.traffic == other.traffic && self.expiry == other.expiry
            && self.comment == other.comment
    }
}

impl vstd::std_specs::cmp::PartialEqSpecImpl for Inbound {
    open spec fn obeys_eq_spec() -> bool {
        true
    }

    open spec fn eq_spec(&self, other: &Self) -> bool {
        self@ == other@
    }
}

/// The name of the supervisor Xray.
pub open spec fn super_text() -> Seq<char> {
    "super"@
}

/// The inbound that stands for the supervisor Xray.
pub open spec fn super_view() -> InboundView {
    InboundView {
        name: super_text(),
        port: 0,
        kind: InboundKind::VlessTcpReality,
        total: 0,
        traffic: 0,
        expiry: 0,
        comment: "The super inbound"@,
    }
}

impl Inbound {
    /// The representative of the supervisor Xray: it has no clients and no
    /// sublink, and stands for the Xray daemon as a whole.
    pub fn super_inbound() -> (r: Self)
        ensures
            r@ == super_view(),
            r.name@ == "super"@,
            r.port == 0,
            r.kind == InboundKind::VlessTcpReality,
            r.total == 0,
            r.traffic == 0,
            r.expiry == 0,
            r.comment@ == "The super inbound"@,
    {
        Inbound {
            name: SvcKind::super_name(),
            port: 0,
            kind: InboundKind::VlessTcpReality,
            total: 0,
            traffic: 0,
            expiry: 0,
            comment: "The super inbound".to_owned(),
        }
    }
}

/// Copies a list of inbounds.
pub fn clone_inbounds(v: &Vec<Inbound>) -> (r: Vec<Inbound>)
    ensures
        r@ == v@,
{
    let mut r: Vec<Inbound> = Vec::new();
    let mut i: usize = 0;
    while i < v.len()
        invariant
            i <= v@.len(),
            r@ == v@.take(i as int),
        decreases v@.len() - i,
    {
        r.push(v[i].clone());
        i += 1;
    }
    assert(r@ =~= v@);
    r
}

/// Copies a list of texts.
pub fn clone_texts(v: &Vec<String>) -> (r: Vec<String>)
    ensures
        r@ == v@,
{
    let mut r: Vec<String> = Vec::new();
    let mut i: usize = 0;
    while i < v.len()
        invariant
            i <= v@.len(),
            r@ == v@.take(i as int),
        decreases v@.len() - i,
    {
        r.push(v[i].clone());
        i += 1;
    }
    assert(r@ =~= v@);
    r
}

/// A server of the cloud.
pub struct KetServer {
    /// The unique name of the server.
    pub name: String,
    pub ip: IpAddr,
    /// The base domain of the server's services.
    pub domain: String,
    /// The two-letter code of the country where the server resides.
    pub region: String,
    pub state: AtomicServerState,
    /// The monthly traffic in terabytes; 0 is without limit.
    pub quota: u16,
    /// Is the server managed and monitored?
    pub enabled: bool,
    /// The intended SSH port.
    pub ssh_port: u16,
    pub dns_subdomain: String,
    pub ui_subdomain: String,
    pub sub_subdomain: String,
    /// Do DNS and connections go through the Cloudflare proxy?
    pub cloudflare_proxied: bool,
    pub inbounds: Vec<Inbound>,
    /// The codes of the countries to which new outbound connections are
    /// blocked.
    pub outbound_block: Vec<String>,
    pub ansible_conn: Option<AnsibleConn>,
    pub secrets: Secrets,
    pub cfstate: Option<CFState>,
}

#[verifier::ext_equal]
pub struct ServerView {
    pub name: Seq<char>,
    pub ip: IpAddrView,
    pub domain: Seq<char>,
    pub region: Seq<char>,
    pub state: ServerState,
    pub quota: u16,
    pub enabled: bool,
    pub ssh_port: u16,
    pub dns_subdomain: Seq<char>,
    pub ui_subdomain: Seq<char>,
    pub sub_subdomain: Seq<char>,
    pub cloudflare_proxied: bool,
    pub inbounds: Seq<InboundView>,
    pub outbound_block: Seq<Seq<char>>,
    pub ansible_conn: Option<AnsibleConnView>,
    pub secrets: SecretsView,
    pub cfstate: Option<CFStateView>,
}

impl View for KetServer {
    type V = ServerView;

    open spec fn view(&self) -> ServerView {
        ServerView {
            name: self.name@,
            ip: self.ip@,
            domain: self.domain@,
            region: self.region@,
            state: self.state.current(),
            quota: self.quota,
            enabled: self.enabled,
            ssh_port: self.ssh_port,
            dns_subdomain: self.dns_subdomain@,
            ui_subdomain: self.ui_subdomain@,
            sub_subdomain: self.sub_subdomain@,
            cloudflare_proxied: self.cloudflare_proxied,
            inbounds: inbound_views(self.inbounds@),
            outbound_block: crate::text::texts(self.outbound_block@),
            ansible_conn: conn_view(self.ansible_conn),
            secrets: self.secrets@,
            cfstate: cf_view(self.cfstate),
        }
    }
}

pub open spec fn server_views(s: Seq<KetServer>) -> Seq<ServerView> {
    s.map_values(|x: KetServer| x@)
}

impl Clone for KetServer {
    fn clone(&self) -> (r: Self)
        ensures
            r@ == self@,
    {
        KetServer {
            name: self.name.clone(),
            ip: self.ip.clone(),
            domain: self.domain.clone(),
            region: self.region.clone(),
            state: self.state.clone(),
            quota: self.quota,
            enabled: self.enabled,
            ssh_port: self.ssh_port,
            dns_subdomain: self.dns_subdomain.clone(),
            ui_subdomain: self.ui_subdomain.clone(),
            sub_subdomain: self.sub_subdomain.clone(),
            cloudflare_proxied: self.cloudflare_proxied,
            inbounds: clone_inbounds(&self.inbounds),
            outbound_block: clone_texts(&self.outbound_block),
            ansible_conn: match &self.ansible_conn {
                Some(c) => Some(c.clone()),
                None => None,
            },
            secrets: self.secrets.clone(),
            cfstate: match &self.cfstate {
                Some(c) => Some(c.clone()),
                None => None,
            },
        }
    }
}

/// Servers are told apart by their names.
impl PartialEq for KetServer {
    fn eq(&self, other: &Self) -> (r: bool) {
        self.name == other.name
    }
}

impl vstd::std_specs::cmp::PartialEqSpecImpl for KetServer {
    open spec fn obeys_eq_spec() -> bool {
        true
    }

    open spec fn eq_spec(&self, other: &Self) -> bool {
        self@.name == other@.name
    }
}

/// The options of the whole cloud.
pub struct CloudSettings {
    /// The inbounds from which each server chooses its own.
    pub inbound_set: Vec<Inbound>,
    /// Are repairs tried automatically?
    pub auto_fix: bool,
    /// How many checks in a row must fail before a repair is tried.
    pub fix_threshold: u64,
    /// The seconds between two checks.
    pub monitor_interval: u64,
}

#[verifier::ext_equal]
pub struct SettingsView {
    pub inbound_set: Seq<InboundView>,
    pub auto_fix: bool,
    pub fix_threshold: u64,
    pub monitor_interval: u64,
}

impl View for CloudSettings {
    type V = SettingsView;

    open spec fn view(&self) -> SettingsView {
        SettingsView {
            inbound_set: inbound_views(self.inbound_set@),
            auto_fix: self.auto_fix,
            fix_threshold: self.fix_threshold,
            monitor_interval: self.monitor_interval,
        }
    }
}

impl Clone for CloudSettings {
    fn clone(&self) -> (r: Self)
        ensures
            r@ == self@,
    {
        CloudSettings {
            inbound_set: clone_inbounds(&self.inbound_set),
            auto_fix: self.auto_fix,
            fix_threshold: self.fix_threshold,
            monitor_interval: self.monitor_interval,
        }
    }
}

/// The cloud.
pub struct Cloud {
    pub servers: Vec<KetServer>,
    pub settings: CloudSettings,
}

#[verifier::ext_equal]
pub struct CloudView {
    pub servers: Seq<ServerView>,
    pub settings: SettingsView,
}

impl View for Cloud {
    type V = CloudView;

    open spec fn view(&self) -> CloudView {
        CloudView { servers: server_views(self.servers@), settings: self.settings@ }
    }
}

/// Copies a list of servers.
pub fn clone_servers(v: &Vec<KetServer>) -> (r: Vec<KetServer>)
    ensures
        server_views(r@) == server_views(v@),
{
    let mut r: Vec<KetServer> = Vec::new();
    let mut i: usize = 0;
    while i < v.len()
        invariant
            i <= v@.len(),
            server_views(r@) == server_views(v@).take(i as int),
        decreases v@.len() - i,
    {
        let ghost before = r@;
        let s = v[i].clone();
        r.push(s);
        assert(server_views(r@) =~= server_views(before).push(s@));
        assert(server_views(v@).take(i + 1) =~= server_views(v@).take(i as int).push(v@[i as int]@));
        i += 1;
    }
    assert(server_views(v@).take(i as int) =~= server_views(v@));
    r
}

impl Clone for Cloud {
    fn clone(&self) -> (r: Self)
        ensures
            r@ == self@,
    {
        Cloud { servers: clone_servers(&self.servers), settings: self.settings.clone() }
    }
}

// ---------------------------------------------------------------- services

/// The kinds of services that are monitored.
#[derive(Debug)]
pub enum SvcKind {
    Ssh,
    Nginx,
    /// The name of an inbound.
    Xray(String),
}

#[verifier::ext_equal]
pub enum SvcKindView {
    Ssh,
    Nginx,
    Xray(Seq<char>),
}

impl View for SvcKind {
    type V = SvcKindView;

    open spec fn view(&self) -> SvcKindView {
        match self {
            SvcKind::Ssh => SvcKindView::Ssh,
            SvcKind::Nginx => SvcKindView::Nginx,
            SvcKind::Xray(inb) => SvcKindView::Xray(inb@),
        }
    }
}

impl Clone for SvcKind {
    fn clone(&self) -> (r: Self)
        ensures
            r@ == self@,
    {
        match self {
            SvcKind::Ssh => SvcKind::Ssh,
            SvcKind::Nginx => SvcKind::Nginx,
            SvcKind::Xray(inb) => SvcKind::Xray(inb.clone()),
        }
    }
}

impl PartialEq for SvcKind {
    fn eq(&self, other: &Self) -> (r: bool) {
        match (self, other) {
            (SvcKind::Ssh, SvcKind::Ssh) => true,
            (SvcKind::Nginx, SvcKind::Nginx) => true,
            (SvcKind::Xray(a), SvcKind::Xray(b)) => *a == *b,
            _ => false,
        }
    }
}

impl vstd::std_specs::cmp::PartialEqSpecImpl for SvcKind {
    open spec fn obeys_eq_spec() -> bool {
        true
    }

    open spec fn eq_spec(&self, other: &Self) -> bool {
        self@ == other@
    }
}

/// The name under which a service is stored.
pub open spec fn svc_text(k: SvcKindView) -> Seq<char> {
    match k {
        SvcKindView::Ssh => "ssh"@,
        SvcKindView::Nginx => "nginx"@,
        SvcKindView::Xray(inb) => "xray_"@ + inb,
    }
}

/// The name under which a service is shown.
pub open spec fn svc_nice_text(k: SvcKindView) -> Seq<char> {
    match k {
        SvcKindView::Ssh => "SSH"@,
        SvcKindView::Nginx => "Nginx"@,
        SvcKindView::Xray(inb) => "Xray("@ + inb + ")"@,
    }
}

/// The service that is stored under a name.
pub open spec fn svc_of_text(s: Seq<char>) -> Option<SvcKindView> {
    if s == "ssh"@ {
        Some(SvcKindView::Ssh)
    } else if s == "nginx"@ {
        Some(SvcKindView::Nginx)
    } else if starts_with(s, "xray_"@) {
        Some(SvcKindView::Xray(s.skip("xray_"@.len() as int)))
    } else {
        None
    }
}

impl SvcKind {
    /// The name of the supervisor Xray.
    pub fn super_name() -> (r: String)
        ensures
            r@ == super_text(),
    {
        "super".to_owned()
    }

    /// The service of the supervisor Xray.
    pub fn super_xray() -> (r: Self)
        ensures
            r@ == SvcKindView::Xray(super_text()),
    {
        SvcKind::Xray(SvcKind::super_name())
    }

    /// The name of the variant.
    pub fn display(&self) -> (r: String)
        ensures
            r@ == (match self@ {
                SvcKindView::Ssh => "SSH"@,
                SvcKindView::Nginx => "Nginx"@,
                SvcKindView::Xray(_) => "Xray"@,
            }),
    {
        match self {
            SvcKind::Ssh => "SSH".to_owned(),
            SvcKind::Nginx => "Nginx".to_owned(),
            SvcKind::Xray(_) => "Xray".to_owned(),
        }
    }

    /// The name of the variant, with the inbound of an Xray service.
    pub fn nice_display(&self) -> (r: String)
        ensures
            r@ == svc_nice_text(self@),
    {
        match self {
            SvcKind::Ssh => "SSH".to_owned(),
            SvcKind::Nginx => "Nginx".to_owned(),
            SvcKind::Xray(inb) => {
                let mut s = "Xray(".to_owned();
                s.append(inb.as_str());
                s.append(")");
                s
            },
        }
    }

    /// The name under which the service is stored.
    pub fn to_string(&self) -> (r: String)
        ensures
            r@ == svc_text(self@),
    {
        match self {
            SvcKind::Ssh => "ssh".to_owned(),
            SvcKind::Nginx => "nginx".to_owned(),
            SvcKind::Xray(inb) => {
                let mut s = "xray_".to_owned();
                s.append(inb.as_str());
                s
            },
        }
    }

    /// The service that is stored under a name.
    pub fn from_name(s: &str) -> (r: Option<Self>)
        ensures
            match r {
                Some(k) => svc_of_text(s@) == Some(k@),
                None => svc_of_text(s@) is None,
            },
    {
        if str_eq(s, "ssh") {
            return Some(SvcKind::Ssh);
        }
        if str_eq(s, "nginx") {
            return Some(SvcKind::Nginx);
        }
        if str_starts_with(s, "xray_") {
            let v = chars_of(s);
            let p = chars_of("xray_");
            let rest = text_of(&v, p.len(), v.len());
            assert(rest@ =~= s@.skip("xray_"@.len() as int));
            return Some(SvcKind::Xray(rest));
        }
        None
    }
}

impl std::str::FromStr for SvcKind {
    type Err = ();

    fn from_str(s: &str) -> (r: Result<Self, ()>)
        ensures
            match r {
                Ok(k) => svc_of_text(s@) == Some(k@),
                Err(_) => svc_of_text(s@) is None,
            },
    {
        match SvcKind::from_name(s) {
            Some(k) => Ok(k),
            None => Err(()),
        }
    }
}

/// What a service is stored as reads back as the same service.
pub proof fn law_svc_name_round_trip(k: SvcKindView)
    ensures
        svc_of_text(svc_text(k)) == Some(k),
{
    reveal_strlit("ssh");
    reveal_strlit("nginx");
    reveal_strlit("xray_");
    match k {
        SvcKindView::Ssh => {},
        SvcKindView::Nginx => {
            assert("nginx"@.len() == 5);
        },
        SvcKindView::Xray(inb) => {
            let t = "xray_"@ + inb;
            assert(t[0] == 'x');
            assert(t != "ssh"@) by {
                assert("ssh"@[0] == 's');
            }
            assert(t != "nginx"@) by {
                assert("nginx"@[0] == 'n');
            }
            assert(t.subrange(0, "xray_"@.len() as int) =~= "xray_"@);
            assert(t.skip("xray_"@.len() as int) =~= inb);
        },
    }
}

/// Two services are never stored under the same name.
pub proof fn law_svc_names_differ(a: SvcKindView, b: SvcKindView)
    requires
        svc_text(a) == svc_text(b),
    ensures
        a == b,
{
    law_svc_name_round_trip(a);
    law_svc_name_round_trip(b);
}

/// The health of a service.
#[derive(Clone, Copy, Debug, PartialEq, Eq, Structural)]
pub enum SvcHealth {
    Healthy,
    Sick,
    Unknown,
}

/// The name of a health.
pub open spec fn health_text(h: SvcHealth) -> Seq<char> {
    match h {
        SvcHealth::Healthy => "Ok"@,
        SvcHealth::Sick => "Sick"@,
        SvcHealth::Unknown => "Unknown"@,
    }
}

impl SvcHealth {
    pub fn to_string(&self) -> (r: String)
        ensures
            r@ == health_text(*self),
    {
        match self {
            SvcHealth::Healthy => "Ok".to_owned(),
            SvcHealth::Sick => "Sick".to_owned(),
            SvcHealth::Unknown => "Unknown".to_owned(),
        }
    }

    /// The health with exactly this name.
    pub fn from_name(s: &str) -> (r: Option<Self>)
        ensures
            match r {
                Some(h) => health_text(h) == s@,
                None => forall|h: SvcHealth| #[trigger] health_text(h) != s@,
            },
    {
        if str_eq(s, "Ok") {
            Some(SvcHealth::Healthy)
        } else if str_eq(s, "Sick") {
            Some(SvcHealth::Sick)
        } else if str_eq(s, "Unknown") {
            Some(SvcHealth::Unknown)
        } else {
            None
        }
    }
}

/// The address of the JSON sublink of an inbound's mother client.
pub open spec fn jsub_text(s: ServerView, subid: Seq<char>) -> Seq<char> {
    "https://"@ + crate::cloud::server::sub_host(s) + "/"@ + s.secrets.xui_jsubpath + "/"@ + subid
}

pub open spec fn no_subid_text(server: Seq<char>, inbound: Seq<char>) -> Seq<char> {
    "Mother sub-ID is absent from the secrets of server '"@ + server + "' for inbound '"@ + inbound
        + "'"@
}

/// The JSON sublink of an inbound of a server, or why there is none.
pub open spec fn jsub_of(i: InboundView, s: ServerView) -> Result<Seq<char>, Seq<char>> {
    if s.secrets.mother_subids.dom().contains(i.name) {
        crate::outside::url_of(jsub_text(s, s.secrets.mother_subids[i.name]))
    } else {
        Err(no_subid_text(s.name, i.name))
    }
}

impl Inbound {
    /// The JSON sublink of the inbound's mother client, with which the inbound is
    /// tested.
    pub fn get_jsub(&self, server: &KetServer) -> (r: Result<String, String>)
        ensures
            match r {
                Ok(u) => jsub_of(self@, server@) == Ok::<Seq<char>, Seq<char>>(u@),
                Err(e) => jsub_of(self@, server@) == Err::<Seq<char>, Seq<char>>(e@),
            },
    {
        match self.jsub_address(server) {
            Ok(address) => crate::outside::parse_url(address.as_str()),
            Err(e) => Err(e),
        }
    }

    /// The address of the JSON sublink, as it is written before it is parsed.
    pub fn jsub_address(&self, server: &KetServer) -> (r: Result<String, String>)
        ensures
            match r {
                Ok(a) => server@.secrets.mother_subids.dom().contains(self@.name) && a@ == jsub_text(
                    server@,
                    server@.secrets.mother_subids[self@.name],
                ),
                Err(e) => !server@.secrets.mother_subids.dom().contains(self@.name) && e@
                    == no_subid_text(server@.name, self@.name),
            },
    {
        match server.secrets.mother_subids.get(self.name.as_str()) {
            Some(subid) => {
                let mut a = "https://".to_owned();
                let host = server.subhostname();
                a.append(host.as_str());
                a.append("/");
                a.append(server.secrets.xui_jsubpath.as_str());
                a.append("/");
                a.append(subid.as_str());
                Ok(a)
            },
            None => {
                let mut e = "Mother sub-ID is absent from the secrets of server '".to_owned();
                e.append(server.name.as_str());
                e.append("' for inbound '");
                e.append(self.name.as_str());
                e.append("'");
                Err(e)
            },
        }
    }
}

/// What a service is, apart from its live status.
pub struct SvcInfo {
    /// The server that the service runs on.
    pub server: KetServer,
    /// The port of SSH or Nginx, or the local port at which an Xray inbound is
    /// tested.
    pub port: u16,
    pub kind: SvcKind,
    /// The JSON sublink with which an Xray inbound is tested.
    pub link: Option<String>,
}

#[verifier::ext_equal]
pub struct SvcInfoView {
    pub server: ServerView,
    pub port: u16,
    pub kind: SvcKindView,
    pub link: Option<Seq<char>>,
}

impl View for SvcInfo {
    type V = SvcInfoView;

    open spec fn view(&self) -> SvcInfoView {
        SvcInfoView {
            server: self.server@,
            port: self.port,
            kind: self.kind@,
            link: crate::text::opt_text(self.link),
        }
    }
}

impl Clone for SvcInfo {
    fn clone(&self) -> (r: Self)
        ensures
            r@ == self@,
    {
        SvcInfo {
            server: self.server.clone(),
            port: self.port,
            kind: self.kind.clone(),
            link: self.link.clone(),
        }
    }
}

/// The live status of a service.
#[derive(Clone, Copy, Debug, PartialEq, Eq, Structural)]
pub struct SvcStatus {
    pub health: SvcHealth,
    /// How many checks in a row have failed.
    pub failed_count: u64,
    /// When the first of them failed, in seconds since the epoch.
    pub failed_since: u64,
    /// The repairs that were tried and completed: 0 is none, 1 the first level,
    /// 2 the second.
    pub fix_try: u8,
}

/// A service with its status.
pub struct SvcEntry {
    pub info: SvcInfo,
    pub status: SvcStatus,
}

#[verifier::ext_equal]
pub struct SvcEntryView {
    pub info: SvcInfoView,
    pub status: SvcStatus,
}

impl View for SvcEntry {
    type V = SvcEntryView;

    open spec fn view(&self) -> SvcEntryView {
        SvcEntryView { info: self.info@, status: self.status }
    }
}

/// A task of the daemon.
pub enum TaskEntry {
    SshMonitor(SvcInfo),
    NginxMonitor(SvcInfo),
    XrayMonitor(SvcInfo),
    SocketListener,
    SignalWatcher,
    Aggregator,
    FullSetup(KetServer),
    DestroyServer(KetServer),
    XuiDbPruner(KetServer),
    AcmeChecker(KetServer),
    GeoipUpdater,
}

#[verifier::ext_equal]
pub enum TaskView {
    SshMonitor(SvcInfoView),
    NginxMonitor(SvcInfoView),
    XrayMonitor(SvcInfoView),
    SocketListener,
    SignalWatcher,
    Aggregator,
    FullSetup(ServerView),
    DestroyServer(ServerView),
    XuiDbPruner(ServerView),
    AcmeChecker(ServerView),
    GeoipUpdater,
}

impl View for TaskEntry {
    type V = TaskView;

    open spec fn view(&self) -> TaskView {
        match self {
            TaskEntry::SshMonitor(i) => TaskView::SshMonitor(i@),
            TaskEntry::NginxMonitor(i) => TaskView::NginxMonitor(i@),
            TaskEntry::XrayMonitor(i) => TaskView::XrayMonitor(i@),
            TaskEntry::SocketListener => TaskView::SocketListener,
            TaskEntry::SignalWatcher => TaskView::SignalWatcher,
            TaskEntry::Aggregator => TaskView::Aggregator,
            TaskEntry::FullSetup(s) => TaskView::FullSetup(s@),
            TaskEntry::DestroyServer(s) => TaskView::DestroyServer(s@),
            TaskEntry::XuiDbPruner(s) => TaskView::XuiDbPruner(s@),
            TaskEntry::AcmeChecker(s) => TaskView::AcmeChecker(s@),
            TaskEntry::GeoipUpdater => TaskView::GeoipUpdater,
        }
    }
}

/// The name of the kind of a task.
pub open spec fn task_name(t: TaskView) -> Seq<char> {
    match t {
        TaskView::SshMonitor(_) => "SshMonitor"@,
        TaskView::NginxMonitor(_) => "NginxMonitor"@,
        TaskView::XrayMonitor(_) => "XrayMonitor"@,
        TaskView::SocketListener => "SocketListener"@,
        TaskView::SignalWatcher => "SignalWatcher"@,
        TaskView::Aggregator => "Aggregator"@,
        TaskView::FullSetup(_) => "FullSetup"@,
        TaskView::DestroyServer(_) => "DestroyServer"@,
        TaskView::XuiDbPruner(_) => "XuiDbPruner"@,
        TaskView::AcmeChecker(_) => "AcmeChecker"@,
        TaskView::GeoipUpdater => "GeoipUpdater"@,
    }
}

/// The name of the server that a task works for.
pub open spec fn task_server(t: TaskView) -> Option<Seq<char>> {
    match t {
        TaskView::SshMonitor(i) | TaskView::NginxMonitor(i) | TaskView::XrayMonitor(i) => Some(
            i.server.name,
        ),
        TaskView::FullSetup(s) | TaskView::DestroyServer(s) | TaskView::XuiDbPruner(s)
        | TaskView::AcmeChecker(s) => Some(s.name),
        _ => None,
    }
}

/// The service that a task monitors.
pub open spec fn task_service(t: TaskView) -> Option<Seq<char>> {
    match t {
        TaskView::SshMonitor(i) | TaskView::NginxMonitor(i) | TaskView::XrayMonitor(i) => Some(
            svc_nice_text(i.kind),
        ),
        _ => None,
    }
}

/// How a task is shown.
pub open spec fn task_nice_text(t: TaskView) -> Seq<char> {
    match (task_server(t), task_service(t)) {
        (None, _) => task_name(t),
        (Some(server), None) => task_name(t) + "("@ + server + ")"@,
        (Some(server), Some(service)) => task_name(t) + "("@ + server + "("@ + service + "))"@,
    }
}

impl TaskEntry {
    /// The name of the kind of the task.
    pub fn to_string(&self) -> (r: String)
        ensures
            r@ == task_name(self@),
    {
        match self {
            TaskEntry::SshMonitor(_) => "SshMonitor".to_owned(),
            TaskEntry::NginxMonitor(_) => "NginxMonitor".to_owned(),
            TaskEntry::XrayMonitor(_) => "XrayMonitor".to_owned(),
            TaskEntry::SocketListener => "SocketListener".to_owned(),
            TaskEntry::SignalWatcher => "SignalWatcher".to_owned(),
            TaskEntry::Aggregator => "Aggregator".to_owned(),
            TaskEntry::FullSetup(_) => "FullSetup".to_owned(),
            TaskEntry::DestroyServer(_) => "DestroyServer".to_owned(),
            TaskEntry::XuiDbPruner(_) => "XuiDbPruner".to_owned(),
            TaskEntry::AcmeChecker(_) => "AcmeChecker".to_owned(),
            TaskEntry::GeoipUpdater => "GeoipUpdater".to_owned(),
        }
    }

    /// The name of the server that the task works for.
    pub fn server(&self) -> (r: Option<&str>)
        ensures
            match r {
                Some(n) => task_server(self@) == Some(n@),
                None => task_server(self@) is None,
            },
    {
        match self {
            TaskEntry::SshMonitor(svc) => Some(svc.server.name.as_str()),
            TaskEntry::NginxMonitor(svc) => Some(svc.server.name.as_str()),
            TaskEntry::XrayMonitor(svc) => Some(svc.server.name.as_str()),
            TaskEntry::FullSetup(server) => Some(server.name.as_str()),
            TaskEntry::DestroyServer(server) => Some(server.name.as_str()),
            TaskEntry::XuiDbPruner(server) => Some(server.name.as_str()),
            TaskEntry::AcmeChecker(server) => Some(server.name.as_str()),
            TaskEntry::SocketListener => None,
            TaskEntry::SignalWatcher => None,
            TaskEntry::Aggregator => None,
            TaskEntry::GeoipUpdater => None,
        }
    }

    /// The service that the task monitors.
    pub fn service(&self) -> (r: Option<String>)
        ensures
            crate::text::opt_text(r) == task_service(self@),
    {
        match self {
            TaskEntry::SshMonitor(svc) => Some(svc.kind.nice_display()),
            TaskEntry::NginxMonitor(svc) => Some(svc.kind.nice_display()),
            TaskEntry::XrayMonitor(svc) => Some(svc.kind.nice_display()),
            _ => None,
        }
    }

    /// How the task is shown.
    pub fn nice_display(&self) -> (r: String)
        ensures
            r@ == task_nice_text(self@),
    {
        let mut s = self.to_string();
        match (self.server(), self.service()) {
            (None, _) => s,
            (Some(server), None) => {
                s.append("(");
                s.append(server);
                s.append(")");
                s
            },
            (Some(server), Some(service)) => {
                s.append("(");
                s.append(server);
                s.append("(");
                s.append(service.as_str());
                s.append("))");
                s
            },
        }
    }
}

/// Two services are the same: they are on servers of the same name, and agree in
/// everything else.
pub open spec fn same_service(a: SvcInfoView, b: SvcInfoView) -> bool {
    &&& a.server.name == b.server.name
    &&& a.port == b.port
    &&& a.kind == b.kind
    &&& a.link == b.link
}

/// Two tasks are the same.
pub open spec fn same_task(a: TaskView, b: TaskView) -> bool {
    match (a, b) {
        (TaskView::SshMonitor(x), TaskView::SshMonitor(y)) => same_service(x, y),
        (TaskView::NginxMonitor(x), TaskView::NginxMonitor(y)) => same_service(x, y),
        (TaskView::XrayMonitor(x), TaskView::XrayMonitor(y)) => same_service(x, y),
        (TaskView::SocketListener, TaskView::SocketListener) => true,
        (TaskView::SignalWatcher, TaskView::SignalWatcher) => true,
        (TaskView::Aggregator, TaskView::Aggregator) => true,
        (TaskView::FullSetup(x), TaskView::FullSetup(y)) => x.name == y.name,
        (TaskView::DestroyServer(x), TaskView::DestroyServer(y)) => x.name == y.name,
        (TaskView::XuiDbPruner(x), TaskView::XuiDbPruner(y)) => x.name == y.name,
        (TaskView::AcmeChecker(x), TaskView::AcmeChecker(y)) => x.name == y.name,
        (TaskView::GeoipUpdater, TaskView::GeoipUpdater) => true,
        _ => false,
    }
}

impl PartialEq for SvcInfo {
    fn eq(&self, other: &Self) -> (r: bool) {
        let link = match (&self.link, &other.link) {
            (Some(a), Some(b)) => *a == *b,
            (None, None) => true,
            _ => false,
        };
        self.server.name == other.server.name && self.port == other.port && self.kind == other.kind
            && link
    }
}

impl vstd::std_specs::cmp::PartialEqSpecImpl for SvcInfo {
    open spec fn obeys_eq_spec() -> bool {
        true
    }

    open spec fn eq_spec(&self, other: &Self) -> bool {
        same_service(self@, other@)
    }
}

impl PartialEq for TaskEntry {
    fn eq(&self, other: &Self) -> (r: bool) {
        match (self, other) {
            (TaskEntry::SshMonitor(a), TaskEntry::SshMonitor(b)) => *a == *b,
            (TaskEntry::NginxMonitor(a), TaskEntry::NginxMonitor(b)) => *a == *b,
            (TaskEntry::XrayMonitor(a), TaskEntry::XrayMonitor(b)) => *a == *b,
            (TaskEntry::SocketListener, TaskEntry::SocketListener) => true,
            (TaskEntry::SignalWatcher, TaskEntry::SignalWatcher) => true,
            (TaskEntry::Aggregator, TaskEntry::Aggregator) => true,
            (TaskEntry::FullSetup(a), TaskEntry::FullSetup(b)) => *a == *b,
            (TaskEntry::DestroyServer(a), TaskEntry::DestroyServer(b)) => *a == *b,
            (TaskEntry::XuiDbPruner(a), TaskEntry::XuiDbPruner(b)) => *a == *b,
            (TaskEntry::AcmeChecker(a), TaskEntry::AcmeChecker(b)) => *a == *b,
            (TaskEntry::GeoipUpdater, TaskEntry::GeoipUpdater) => true,
            _ => false,
        }
    }
}

impl vstd::std_specs::cmp::PartialEqSpecImpl for TaskEntry {
    open spec fn obeys_eq_spec() -> bool {
        true
    }

    open spec fn eq_spec(&self, other: &Self) -> bool {
        same_task(self@, other@)
    }
}

impl Clone for TaskEntry {
    fn clone(&self) -> (r: Self)
        ensures
            r@ == self@,
    {
        match self {
            TaskEntry::SshMonitor(i) => TaskEntry::SshMonitor(i.clone()),
            TaskEntry::NginxMonitor(i) => TaskEntry::NginxMonitor(i.clone()),
            TaskEntry::XrayMonitor(i) => TaskEntry::XrayMonitor(i.clone()),
            TaskEntry::SocketListener => TaskEntry::SocketListener,
            TaskEntry::SignalWatcher => TaskEntry::SignalWatcher,
            TaskEntry::Aggregator => TaskEntry::Aggregator,
            TaskEntry::FullSetup(s) => TaskEntry::FullSetup(s.clone()),
            TaskEntry::DestroyServer(s) => TaskEntry::DestroyServer(s.clone()),
            TaskEntry::XuiDbPruner(s) => TaskEntry::XuiDbPruner(s.clone()),
            TaskEntry::AcmeChecker(s) => TaskEntry::AcmeChecker(s.clone()),
            TaskEntry::GeoipUpdater => TaskEntry::GeoipUpdater,
        }
    }
}

impl SvcInfo {
    /// The task that monitors the service.
    pub fn task(&self) -> (r: TaskEntry)
        ensures
            r@ == (match self@.kind {
                SvcKindView::Ssh => TaskView::SshMonitor(self@),
                SvcKindView::Nginx => TaskView::NginxMonitor(self@),
                SvcKindView::Xray(_) => TaskView::XrayMonitor(self@),
            }),
    {
        match &self.kind {
            SvcKind::Ssh => TaskEntry::SshMonitor(self.clone()),
            SvcKind::Nginx => TaskEntry::NginxMonitor(self.clone()),
            SvcKind::Xray(_) => TaskEntry::XrayMonitor(self.clone()),
        }
    }
}

/// The names of states, kinds and healths read back as what they name.
pub proof fn law_names_read_back(
    a: ServerState,
    b: ServerState,
    c: InboundKind,
    d: InboundKind,
    e: SvcHealth,
    f: SvcHealth,
)
    ensures
        state_text(a) == state_text(b) <==> a == b,
        kind_text(c) == kind_text(d) <==> c == d,
        health_text(e) == health_text(f) <==> e == f,
{
    reveal_strlit("Offgrid");
    reveal_strlit("Production");
    reveal_strlit("VlessXhttpReality");
    reveal_strlit("VlessTcpReality");
    reveal_strlit("VlessXhttpTls");
    reveal_strlit("VlessWsTls");
    reveal_strlit("VlessGrpcTls");
    reveal_strlit("Ok");
    reveal_strlit("Sick");
    reveal_strlit("Unknown");
    assert("Offgrid"@.len() == 7 && "Production"@.len() == 10);
    assert("VlessXhttpReality"@.len() == 17 && "VlessTcpReality"@.len() == 15
        && "VlessXhttpTls"@.len() == 13 && "VlessWsTls"@.len() == 10 && "VlessGrpcTls"@.len()
        == 12);
    assert("Ok"@.len() == 2 && "Sick"@.len() == 4 && "Unknown"@.len() == 7);
}

/// All kinds but the two of Reality are secured by TLS.
pub proof fn law_kinds_over_tls(k: InboundKind)
    ensures
        is_tls(k) <==> k != InboundKind::VlessTcpReality && k != InboundKind::VlessXhttpReality,
{
}

/// A suggested name keeps the letters and digits of the text, without the white space round
/// it, and has an underscore in place of every other character, or an `a` at its two ends.
pub proof fn law_slug_changes_little(s: Seq<char>, i: int)
    requires
        0 <= i < trimmed(s).len(),
    ensures
        slugged(s).len() == trimmed(s).len(),
        is_alnum(trimmed(s)[i]) ==> slugged(s)[i] == trimmed(s)[i],
        !is_alnum(trimmed(s)[i]) && 0 < i < trimmed(s).len() - 1 ==> slugged(s)[i] == '_',
        !is_alnum(trimmed(s)[i]) && (i == 0 || i == trimmed(s).len() - 1) ==> slugged(s)[i] == 'a',
{
}

/// Names are made of ASCII letters, digits and underscores, and subdomains of lowercase ones,
/// digits and hyphens; neither begins or ends with the latter.
pub proof fn law_what_names_are_made_of(s: Seq<char>)
    ensures
        proper(s) <==> s.len() > 0 && s[0] != '_' && s.last() != '_' && forall|i: int|
            0 <= i < s.len() ==> 'a' <= #[trigger] s[i] <= 'z' || 'A' <= s[i] <= 'Z' || '0' <= s[i]
                <= '9' || s[i] == '_',
        proper_subdomain(s) <==> 0 < s.len() <= 63 && s[0] != '-' && s.last() != '-' && forall|i: int|
            0 <= i < s.len() ==> 'a' <= #[trigger] s[i] <= 'z' || '0' <= s[i] <= '9' || s[i] == '-',
{
    if s.len() > 0 {
        assert(s[s.len() - 1] == s.last());
    }
}

/// Services are shown by their kind, and those of Xray with their inbound.
pub proof fn law_services_are_shown(k: SvcKindView)
    ensures
        k is Ssh ==> svc_nice_text(k) == "SSH"@ && svc_text(k) == "ssh"@,
        k is Nginx ==> svc_nice_text(k) == "Nginx"@ && svc_text(k) == "nginx"@,
        k is Xray ==> svc_nice_text(k) == "Xray("@ + k->Xray_0 + ")"@ && svc_text(k) == "xray_"@
            + k->Xray_0,
{
}

/// A task is shown by its kind, with the server that it works for and the service that it
/// monitors.
pub proof fn law_tasks_are_shown(i: SvcInfoView, s: ServerView)
    ensures
        task_nice_text(TaskView::SshMonitor(i)) == "SshMonitor"@ + "("@ + i.server.name + "("@
            + svc_nice_text(i.kind) + "))"@,
        task_nice_text(TaskView::NginxMonitor(i)) == "NginxMonitor"@ + "("@ + i.server.name + "("@
            + svc_nice_text(i.kind) + "))"@,
        task_nice_text(TaskView::XrayMonitor(i)) == "XrayMonitor"@ + "("@ + i.server.name + "("@
            + svc_nice_text(i.kind) + "))"@,
        task_nice_text(TaskView::FullSetup(s)) == "FullSetup"@ + "("@ + s.name + ")"@,
        task_nice_text(TaskView::DestroyServer(s)) == "DestroyServer"@ + "("@ + s.name + ")"@,
        task_nice_text(TaskView::XuiDbPruner(s)) == "XuiDbPruner"@ + "("@ + s.name + ")"@,
        task_nice_text(TaskView::AcmeChecker(s)) == "AcmeChecker"@ + "("@ + s.name + ")"@,
        task_nice_text(TaskView::SocketListener) == "SocketListener"@,
        task_nice_text(TaskView::SignalWatcher) == "SignalWatcher"@,
        task_nice_text(TaskView::Aggregator) == "Aggregator"@,
        task_nice_text(TaskView::GeoipUpdater) == "GeoipUpdater"@,
{
}

/// Two monitors are the same where they watch the same service of servers of one name, at
/// one port and with one link; two tasks for a server are the same where they do the same
/// for servers of one name.
pub proof fn law_tasks_are_told_apart(i: SvcInfoView, j: SvcInfoView, s: ServerView, t: ServerView)
    ensures
        same_service(i, j) <==> i.server.name == j.server.name && i.port == j.port && i.kind
            == j.kind && i.link == j.link,
        same_task(TaskView::SshMonitor(i), TaskView::SshMonitor(j)) <==> same_service(i, j),
        same_task(TaskView::NginxMonitor(i), TaskView::NginxMonitor(j)) <==> same_service(i, j),
        same_task(TaskView::XrayMonitor(i), TaskView::XrayMonitor(j)) <==> same_service(i, j),
        same_task(TaskView::FullSetup(s), TaskView::FullSetup(t)) <==> s.name == t.name,
        same_task(TaskView::DestroyServer(s), TaskView::DestroyServer(t)) <==> s.name == t.name,
        same_task(TaskView::XuiDbPruner(s), TaskView::XuiDbPruner(t)) <==> s.name == t.name,
        same_task(TaskView::AcmeChecker(s), TaskView::AcmeChecker(t)) <==> s.name == t.name,
        !same_task(TaskView::SshMonitor(i), TaskView::NginxMonitor(j)),
        !same_task(TaskView::NginxMonitor(i), TaskView::XrayMonitor(j)),
        !same_task(TaskView::FullSetup(s), TaskView::DestroyServer(t)),
        !same_task(TaskView::XuiDbPruner(s), TaskView::AcmeChecker(t)),
{
}

/// The same task is a task of the same kind, and every task is the same as itself.
pub proof fn law_same_tasks_are_of_a_kind(a: TaskView, b: TaskView)
    ensures
        same_task(a, a),
        same_task(a, b) ==> same_task(b, a),
        same_task(a, b) ==> task_name(a) == task_name(b) && task_server(a) == task_server(b),
{
}

/// The sublink of an inbound is at the subscription host, below the secret path, and ends in
/// the identifier of the inbound; without one there is none.
pub proof fn law_sublink_of_an_inbound(i: InboundView, s: ServerView)
    ensures
        s.secrets.mother_subids.dom().contains(i.name) ==> jsub_of(i, s) == crate::outside::url_of(
            "https://"@ + s.sub_subdomain + "."@ + s.domain + "/"@ + s.secrets.xui_jsubpath + "/"@
                + s.secrets.mother_subids[i.name],
        ),
        !s.secrets.mother_subids.dom().contains(i.name) ==> jsub_of(i, s) == Err::<
            Seq<char>,
            Seq<char>,
        >(
            "Mother sub-ID is absent from the secrets of server '"@ + s.name + "' for inbound '"@
                + i.name + "'"@,
        ),
{
    assert(jsub_text(s, s.secrets.mother_subids[i.name]) =~= "https://"@ + s.sub_subdomain + "."@
        + s.domain + "/"@ + s.secrets.xui_jsubpath + "/"@ + s.secrets.mother_subids[i.name]);
}

} // verus!
