//! What is derived from a server's own data: host names, services, secrets.

use vstd::prelude::*;

use crate::ansible::{AnsibleConn, AnsibleConnView};
use crate::constants::{ALPHABET, ANSIBLE_PORT, ROOT_USER};
use crate::outside::{base64url, base64url_text, random_bytes, sha256, sha256_digest};
use crate::strmap::{text_map, StrMap};
use crate::text::{chars_of, trim, trimmed};
use crate::types::{
    super_text, svc_text, InboundView, KetServer, Secrets, SecretsView, ServerState, ServerView, SvcKind,
    SvcKindView, XuiToken,
};

verus! {

/// A subdomain of a domain.
pub open spec fn host_text(sub: Seq<char>, domain: Seq<char>) -> Seq<char> {
    sub + "."@ + domain
}

pub open spec fn dns_host(s: ServerView) -> Seq<char> {
    host_text(s.dns_subdomain, s.domain)
}

pub open spec fn ui_host(s: ServerView) -> Seq<char> {
    host_text(s.ui_subdomain, s.domain)
}

pub open spec fn sub_host(s: ServerView) -> Seq<char> {
    host_text(s.sub_subdomain, s.domain)
}

fn hostname(sub: &str, domain: &str) -> (r: String)
    ensures
        r@ == host_text(sub@, domain@),
{
    let mut s = sub.to_owned();
    s.append(".");
    s.append(domain);
    s
}

/// The services of a server: SSH, Nginx, and one for each inbound.
pub open spec fn svc_kinds_of(s: ServerView) -> Seq<SvcKindView> {
    seq![SvcKindView::Ssh, SvcKindView::Nginx] + s.inbounds.map_values(
        |i: InboundView| SvcKindView::Xray(i.name),
    )
}

pub open spec fn kind_views(s: Seq<SvcKind>) -> Seq<SvcKindView> {
    s.map_values(|k: SvcKind| k@)
}

// ---------------------------------------------------------------- health path

/// The lowercase hexadecimal digit with the value `d`.
pub open spec fn hex_digit(d: int) -> char {
    if d < 10 {
        ('0' as int + d) as char
    } else {
        ('a' as int + d - 10) as char
    }
}

/// Two hexadecimal digits for each byte.
pub open spec fn hex_text(bytes: Seq<u8>) -> Seq<char> {
    Seq::new(
        bytes.len() * 2,
        |i: int|
            if i % 2 == 0 {
                hex_digit(bytes[i / 2] as int / 16)
            } else {
                hex_digit(bytes[i / 2] as int % 16)
            },
    )
}

/// What the health path is derived from.
pub open spec fn health_seed(s: ServerView) -> Seq<char> {
    "name="@ + s.name + "|domain="@ + trimmed(s.domain) + "|dsub="@ + s.dns_subdomain + "|usub="@
        + s.ui_subdomain + "|ssub="@ + s.sub_subdomain
}

/// The health path that a digest gives: its first 16 hexadecimal digits.
pub open spec fn digest_path(digest: Seq<u8>) -> Seq<char> {
    hex_text(digest).take(16)
}

/// The health path of a server.
pub open spec fn health_path_of(s: ServerView) -> Seq<char> {
    digest_path(sha256_digest(vstd::utf8::encode_utf8(health_seed(s))))
}

fn hex_char(d: u8) -> (c: char)
    requires
        d < 16,
    ensures
        c == hex_digit(d as int),
{
    match d {
        0 => '0',
        1 => '1',
        2 => '2',
        3 => '3',
        4 => '4',
        5 => '5',
        6 => '6',
        7 => '7',
        8 => '8',
        9 => '9',
        10 => 'a',
        11 => 'b',
        12 => 'c',
        13 => 'd',
        14 => 'e',
        _ => 'f',
    }
}

/// The health path that a digest gives.
pub fn path_of_digest(digest: &Vec<u8>) -> (r: String)
    requires
        digest@.len() >= 8,
    ensures
        r@ == digest_path(digest@),
{
    let mut s = String::new();
    let mut i: usize = 0;
    while i < 8
        invariant
            i <= 8 <= digest@.len(),
            s@ == hex_text(digest@).take(i * 2),
        decreases 8 - i,
    {
        let b = digest[i];
        s.push(hex_char(b / 16));
        s.push(hex_char(b % 16));
        proof {
            let h = hex_text(digest@);
            assert((2 * i) / 2 == i && (2 * i) % 2 == 0);
            assert((2 * i + 1) / 2 == i && (2 * i + 1) % 2 == 1);
            assert(h[2 * i] == hex_digit(b as int / 16));
            assert(h[2 * i + 1] == hex_digit(b as int % 16));
            assert(h.take((i + 1) * 2) =~= h.take(i * 2).push(h[2 * i]).push(h[2 * i + 1]));
        }
        i += 1;
    }
    s
}

// ---------------------------------------------------------------- secrets

/// The user name that some bytes give: each picks a character of the alphabet.
pub open spec fn username_text(bytes: Seq<u8>) -> Seq<char> {
    Seq::new(bytes.len(), |i: int| ALPHABET@[bytes[i] as int % ALPHABET@.len() as int])
}

/// The user name that some bytes give.
pub fn username_of(bytes: &Vec<u8>) -> (r: String)
    ensures
        r@ == username_text(bytes@),
{
    let letters = chars_of(ALPHABET);
    proof {
        lemma_alphabet();
    }
    let mut s = String::new();
    let mut i: usize = 0;
    while i < bytes.len()
        invariant
            i <= bytes@.len(),
            letters@ == ALPHABET@,
            letters@.len() == 62,
            s@ == username_text(bytes@).take(i as int),
        decreases bytes@.len() - i,
    {
        let k: usize = bytes[i] as usize % letters.len();
        s.push(letters[k]);
        assert(username_text(bytes@).take(i + 1) =~= username_text(bytes@).take(i as int).push(
            ALPHABET@[k as int],
        ));
        i += 1;
    }
    assert(username_text(bytes@).take(i as int) =~= username_text(bytes@));
    s
}

/// The alphabet has 62 characters, all of them ASCII letters or digits.
pub proof fn lemma_alphabet()
    ensures
        ALPHABET@.len() == 62,
        forall|i: int| 0 <= i < 62 ==> crate::text::is_alnum(#[trigger] ALPHABET@[i]),
{
    reveal_strlit("abcdefghijklmnopqrstuvwxyzABCDEFGHIJKLMNOPQRSTUVWXYZ0123456789");
    let a = "abcdefghijklmnopqrstuvwxyzABCDEFGHIJKLMNOPQRSTUVWXYZ0123456789"@;
    assert(ALPHABET@ == a);
    assert forall|i: int| 0 <= i < 62 implies crate::text::is_alnum(#[trigger] a[i]) by {
        assert(0 <= i < 26 ==> a[i] as int == 'a' as int + i);
        assert(26 <= i < 52 ==> a[i] as int == 'A' as int + i - 26);
        assert(52 <= i < 62 ==> a[i] as int == '0' as int + i - 52);
    }
}

/// The random bytes that the secrets of a server are made from.
pub struct SecretSeeds {
    /// One for each inbound of the server.
    pub subids: Vec<Vec<u8>>,
    pub doh: Vec<u8>,
    pub username: Vec<u8>,
    pub password: Vec<u8>,
    pub webpath: Vec<u8>,
    pub subpath: Vec<u8>,
    pub jsubpath: Vec<u8>,
}

#[verifier::ext_equal]
pub struct SeedsView {
    pub subids: Seq<Seq<u8>>,
    pub doh: Seq<u8>,
    pub username: Seq<u8>,
    pub password: Seq<u8>,
    pub webpath: Seq<u8>,
    pub subpath: Seq<u8>,
    pub jsubpath: Seq<u8>,
}

impl View for SecretSeeds {
    type V = SeedsView;

    open spec fn view(&self) -> SeedsView {
        SeedsView {
            subids: self.subids@.map_values(|v: Vec<u8>| v@),
            doh: self.doh@,
            username: self.username@,
            password: self.password@,
            webpath: self.webpath@,
            subpath: self.subpath@,
            jsubpath: self.jsubpath@,
        }
    }
}

/// How many random bytes go into each secret of a server with `n` inbounds.
pub open spec fn seeds_fit(x: SeedsView, n: nat) -> bool {
    &&& x.subids.len() == n
    &&& forall|i: int| 0 <= i < n ==> (#[trigger] x.subids[i]).len() == 7
    &&& x.doh.len() == 16
    &&& x.username.len() == 16
    &&& x.password.len() == 16
    &&& x.webpath.len() == 10
    &&& x.subpath.len() == 8
    &&& x.jsubpath.len() == 8
}

/// The subscription identifiers of the first `k` inbounds. Of two inbounds with
/// the same name the first one counts.
pub open spec fn subids_upto(inbounds: Seq<InboundView>, seeds: Seq<Seq<u8>>, k: int) -> Map<
    Seq<char>,
    Seq<char>,
>
    decreases k,
{
    if k <= 0 {
        Map::empty()
    } else {
        let m = subids_upto(inbounds, seeds, k - 1);
        if m.dom().contains(inbounds[k - 1].name) {
            m
        } else {
            m.insert(inbounds[k - 1].name, base64url_text(seeds[k - 1]))
        }
    }
}

/// The subscription identifiers of a server: one for each inbound, and a dummy
/// for the supervisor's.
pub open spec fn subids_of(inbounds: Seq<InboundView>, seeds: Seq<Seq<u8>>) -> Map<
    Seq<char>,
    Seq<char>,
> {
    let m = subids_upto(inbounds, seeds, inbounds.len() as int);
    if m.dom().contains(super_text()) {
        m
    } else {
        m.insert(super_text(), super_text())
    }
}

/// The fresh secrets of a server. It has no token until it is provisioned.
pub open spec fn fresh_secrets(s: ServerView, x: SeedsView) -> SecretsView {
    SecretsView {
        health_path: health_path_of(s),
        doh_endpoint: base64url_text(x.doh),
        xui_username: username_text(x.username),
        xui_password: base64url_text(x.password),
        xui_token: None,
        xui_webpath: base64url_text(x.webpath),
        xui_subpath: base64url_text(x.subpath),
        xui_jsubpath: base64url_text(x.jsubpath),
        mother_subids: subids_of(s.inbounds, x.subids),
    }
}

/// How Ansible reaches a declared server: at its address, through the default
/// port while it is not provisioned, and through its SSH port from then on.
pub open spec fn inventory_of(s: ServerView) -> AnsibleConnView {
    AnsibleConnView {
        host: Some(s.ip.text),
        port: Some(
            match s.state {
                ServerState::Offgrid => ANSIBLE_PORT,
                ServerState::Production => s.ssh_port,
            },
        ),
        user: Some(ROOT_USER@),
        connection: None,
    }
}

impl KetServer {
    /// All services of the server.
    pub fn svc_kinds(&self) -> (v: Vec<SvcKind>)
        ensures
            kind_views(v@) == svc_kinds_of(self@),
    {
        let mut v: Vec<SvcKind> = Vec::new();
        v.push(SvcKind::Ssh);
        v.push(SvcKind::Nginx);
        let ghost names = self@.inbounds.map_values(|i: InboundView| SvcKindView::Xray(i.name));
        let ghost head = seq![SvcKindView::Ssh, SvcKindView::Nginx];
        assert(kind_views(v@) =~= head + names.take(0));
        let mut i: usize = 0;
        while i < self.inbounds.len()
            invariant
                i <= self.inbounds@.len(),
                names == self@.inbounds.map_values(|i: InboundView| SvcKindView::Xray(i.name)),
                kind_views(v@) == head + names.take(i as int),
            decreases self.inbounds@.len() - i,
        {
            let ghost before = v@;
            let k = SvcKind::Xray(self.inbounds[i].name.clone());
            assert(self@.inbounds[i as int] == self.inbounds@[i as int]@);
            assert(names[i as int] == k@);
            v.push(k);
            assert(kind_views(v@) =~= kind_views(before).push(k@));
            assert(head + names.take(i + 1) =~= (head + names.take(i as int)).push(
                names[i as int],
            ));
            i += 1;
        }
        assert(names.take(i as int) =~= names);
        v
    }

    /// How many services the server has.
    pub fn svc_num(&self) -> (r: usize)
        ensures
            r == svc_kinds_of(self@).len(),
            r == self.inbounds@.len() + 2,
    {
        let kinds = self.svc_kinds();
        assert(kind_views(kinds@).len() == kinds@.len());
        kinds.len()
    }

    /// The names under which the services of the server are stored.
    pub fn svc_kinds_string(&self) -> (v: Vec<String>)
        ensures
            crate::text::texts(v@) == svc_kinds_of(self@).map_values(|k: SvcKindView| svc_text(k)),
    {
        let kinds = self.svc_kinds();
        let ghost all = svc_kinds_of(self@).map_values(|k: SvcKindView| svc_text(k));
        let mut v: Vec<String> = Vec::new();
        let mut i: usize = 0;
        assert(crate::text::texts(v@) =~= all.take(0));
        while i < kinds.len()
            invariant
                i <= kinds@.len(),
                kind_views(kinds@) == svc_kinds_of(self@),
                all == svc_kinds_of(self@).map_values(|k: SvcKindView| svc_text(k)),
                crate::text::texts(v@) == all.take(i as int),
            decreases kinds@.len() - i,
        {
            let ghost before = v@;
            let t = kinds[i].to_string();
            assert(kind_views(kinds@)[i as int] == kinds@[i as int]@);
            v.push(t);
            assert(crate::text::texts(v@) =~= crate::text::texts(before).push(t@));
            assert(all.take(i + 1) =~= all.take(i as int).push(all[i as int]));
            i += 1;
        }
        assert(all.take(i as int) =~= all);
        v
    }

    /// A path that is derived from the server's name, domain and subdomains.
    pub fn health_path_gen(&self) -> (r: String)
        ensures
            r@ == health_path_of(self@),
    {
        let mut seed = "name=".to_owned();
        seed.append(self.name.as_str());
        seed.append("|domain=");
        seed.append(trim(self.domain.as_str()).as_str());
        seed.append("|dsub=");
        seed.append(self.dns_subdomain.as_str());
        seed.append("|usub=");
        seed.append(self.ui_subdomain.as_str());
        seed.append("|ssub=");
        seed.append(self.sub_subdomain.as_str());
        let digest = sha256(seed.as_str().as_bytes());
        path_of_digest(&digest)
    }

    /// Gives the server fresh secrets made from the seeds.
    pub fn fill_secrets_from(&mut self, seeds: &SecretSeeds)
        requires
            seeds_fit(seeds@, old(self).inbounds@.len()),
        ensures
            final(self)@ == (ServerView {
                secrets: fresh_secrets(old(self)@, seeds@),
                ..old(self)@
            }),
            final(self).inbounds@ == old(self).inbounds@,
    {
        let ghost sv = self@;
        let mut subids: StrMap<String> = StrMap::new();
        assert(text_map(subids@) =~= Map::empty());
        let mut i: usize = 0;
        while i < self.inbounds.len()
            invariant
                i <= self.inbounds@.len(),
                *self == *old(self),
                sv == self@,
                seeds_fit(seeds@, self.inbounds@.len()),
                text_map(subids@) == subids_upto(sv.inbounds, seeds@.subids, i as int),
            decreases self.inbounds@.len() - i,
        {
            assert(sv.inbounds[i as int] == self.inbounds@[i as int]@);
            assert(seeds@.subids[i as int] == seeds.subids@[i as int]@);
            let ghost before = subids@;
            let id = base64url(&seeds.subids[i]);
            subids.or_insert(self.inbounds[i].name.clone(), id);
            assert(text_map(subids@) =~= (if before.dom().contains(sv.inbounds[i as int].name) {
                text_map(before)
            } else {
                text_map(before).insert(sv.inbounds[i as int].name, id@)
            }));
            i += 1;
        }
        let ghost before = subids@;
        let super_name = SvcKind::super_name();
        subids.or_insert(super_name.clone(), super_name);
        assert(text_map(subids@) =~= subids_of(sv.inbounds, seeds@.subids));
        self.secrets = Secrets {
            health_path: self.health_path_gen(),
            doh_endpoint: base64url(&seeds.doh),
            xui_username: username_of(&seeds.username),
            xui_password: base64url(&seeds.password),
            xui_token: XuiToken::empty(),
            xui_webpath: base64url(&seeds.webpath),
            xui_subpath: base64url(&seeds.subpath),
            xui_jsubpath: base64url(&seeds.jsubpath),
            mother_subids: subids,
        };
    }

    /// Gives the server fresh random secrets.
    pub fn fill_secrets(&mut self)
        ensures
            exists|x: SeedsView| #[trigger]
                seeds_fit(x, old(self).inbounds@.len()) && final(self)@ == (ServerView {
                    secrets: fresh_secrets(old(self)@, x),
                    ..old(self)@
                }),
            final(self).inbounds@ == old(self).inbounds@,
    {
        let mut subids: Vec<Vec<u8>> = Vec::new();
        let mut i: usize = 0;
        while i < self.inbounds.len()
            invariant
                i <= self.inbounds@.len(),
                *self == *old(self),
                subids@.len() == i,
                forall|j: int| 0 <= j < i ==> (#[trigger] subids@[j])@.len() == 7,
            decreases self.inbounds@.len() - i,
        {
            subids.push(random_bytes(7));
            i += 1;
        }
        let seeds = SecretSeeds {
            subids,
            doh: random_bytes(16),
            username: random_bytes(16),
            password: random_bytes(16),
            webpath: random_bytes(10),
            subpath: random_bytes(8),
            jsubpath: random_bytes(8),
        };
        assert forall|j: int| 0 <= j < seeds@.subids.len() implies (
        #[trigger] seeds@.subids[j]).len() == 7 by {
            assert(seeds@.subids[j] == subids@[j]@);
        }
        assert(seeds_fit(seeds@, self.inbounds@.len()));
        self.fill_secrets_from(&seeds);
    }

    /// Sets how Ansible reaches the server.
    pub fn build_inventory(&mut self)
        ensures
            final(self)@ == (ServerView {
                ansible_conn: Some(inventory_of(old(self)@)),
                ..old(self)@
            }),
            final(self).inbounds@ == old(self).inbounds@,
    {
        let port = match self.state.load() {
            ServerState::Offgrid => ANSIBLE_PORT,
            ServerState::Production => self.ssh_port,
        };
        self.ansible_conn = Some(
            AnsibleConn {
                ansible_host: Some(self.ip.text.clone()),
                ansible_port: Some(port),
                ansible_user: Some(ROOT_USER),
                ansible_connection: None,
            },
        );
    }

    /// The host name of the DNS-over-HTTPS server.
    pub fn dnshostname(&self) -> (r: String)
        ensures
            r@ == dns_host(self@),
    {
        hostname(self.dns_subdomain.as_str(), self.domain.as_str())
    }

    /// Reads the domain of a server from a declaration.
    pub fn deserialize_host(domain: &str) -> (r: Result<String, String>)
        ensures
            match r {
                Ok(h) => crate::outside::host_of(domain@) == Ok::<Seq<char>, Seq<char>>(h@),
                Err(e) => crate::outside::host_of(domain@) == Err::<Seq<char>, Seq<char>>(e@),
            },
    {
        crate::outside::parse_host(domain)
    }

    /// The region of a server that declares none, by its two-letter code.
    pub fn default_country_code() -> (r: String)
        ensures
            r@ == "US"@,
    {
        "US".to_owned()
    }

    /// The host name of the panel.
    pub fn uihostname(&self) -> (r: String)
        ensures
            r@ == ui_host(self@),
    {
        hostname(self.ui_subdomain.as_str(), self.domain.as_str())
    }

    /// The host name of the subscription server.
    pub fn subhostname(&self) -> (r: String)
        ensures
            r@ == sub_host(self@),
    {
        hostname(self.sub_subdomain.as_str(), self.domain.as_str())
    }
}

// ---------------------------------------------------------------- the laws

/// A generated user name consists of ASCII letters and digits, one for each
/// random byte.
pub proof fn law_usernames_are_alphanumeric(bytes: Seq<u8>)
    ensures
        username_text(bytes).len() == bytes.len(),
        forall|i: int|
            0 <= i < bytes.len() ==> crate::text::is_alnum(#[trigger] username_text(bytes)[i]),
{
    lemma_alphabet();
}

/// The health path is derived from the name, the domain and the subdomains, and
/// from nothing else.
pub proof fn law_health_path_is_derived(a: ServerView, b: ServerView)
    requires
        a.name == b.name,
        a.domain == b.domain,
        a.dns_subdomain == b.dns_subdomain,
        a.ui_subdomain == b.ui_subdomain,
        a.sub_subdomain == b.sub_subdomain,
    ensures
        health_path_of(a) == health_path_of(b),
{
}

/// Every inbound of a server, and the supervisor, has a subscription identifier
/// among its fresh secrets, and nothing else has.
pub proof fn law_every_inbound_has_subid(inbounds: Seq<InboundView>, seeds: Seq<Seq<u8>>, name: Seq<char>)
    ensures
        subids_of(inbounds, seeds).dom().contains(name) <==> name == super_text() || exists|i: int|
            0 <= i < inbounds.len() && #[trigger] inbounds[i].name == name,
{
    lemma_subids(inbounds, seeds, inbounds.len() as int, name);
}

proof fn lemma_subids(inbounds: Seq<InboundView>, seeds: Seq<Seq<u8>>, k: int, name: Seq<char>)
    requires
        0 <= k <= inbounds.len(),
    ensures
        subids_upto(inbounds, seeds, k).dom().contains(name) <==> exists|i: int|
            0 <= i < k && #[trigger] inbounds[i].name == name,
    decreases k,
{
    if k > 0 {
        lemma_subids(inbounds, seeds, k - 1, name);
        if inbounds[k - 1].name == name {
            assert(0 <= k - 1 < k && inbounds[k - 1].name == name);
        }
    }
}

/// The stored names of a server's services differ from one another where the
/// names of its inbounds do.
pub proof fn law_service_names_differ(s: ServerView, i: int, j: int)
    requires
        forall|a: int, b: int|
            0 <= a < b < s.inbounds.len() ==> #[trigger] s.inbounds[a].name
                != #[trigger] s.inbounds[b].name,
        0 <= i < j < svc_kinds_of(s).len(),
    ensures
        svc_text(svc_kinds_of(s)[i]) != svc_text(svc_kinds_of(s)[j]),
{
    let a = svc_kinds_of(s)[i];
    let b = svc_kinds_of(s)[j];
    if svc_text(a) == svc_text(b) {
        crate::types::law_svc_names_differ(a, b);
        assert(i >= 2 && j >= 2);
        assert(s.inbounds[i - 2].name == s.inbounds[j - 2].name);
    }
}

/// The host names of a server are its subdomains of its domain.
pub proof fn law_host_names(s: ServerView)
    ensures
        dns_host(s) == s.dns_subdomain + "."@ + s.domain,
        ui_host(s) == s.ui_subdomain + "."@ + s.domain,
        sub_host(s) == s.sub_subdomain + "."@ + s.domain,
{
}

/// A server has the services SSH and Nginx, and one for each inbound, in this order.
pub proof fn law_services_of_a_server(s: ServerView, i: int)
    ensures
        svc_kinds_of(s).len() == s.inbounds.len() + 2,
        svc_kinds_of(s)[0] == SvcKindView::Ssh,
        svc_kinds_of(s)[1] == SvcKindView::Nginx,
        0 <= i < s.inbounds.len() ==> svc_kinds_of(s)[i + 2] == SvcKindView::Xray(
            s.inbounds[i].name,
        ),
{
}

/// The health path is made of the first eight bytes of the digest, two hexadecimal digits
/// for each.
pub proof fn law_health_path_shows_the_digest(digest: Seq<u8>, i: int)
    requires
        digest.len() >= 8,
        0 <= i < 8,
    ensures
        digest_path(digest).len() == 16,
        hex_value(digest_path(digest)[2 * i]) * 16 + hex_value(digest_path(digest)[2 * i + 1])
            == digest[i],
{
    let h = hex_text(digest);
    assert((2 * i) / 2 == i && (2 * i) % 2 == 0);
    assert((2 * i + 1) / 2 == i && (2 * i + 1) % 2 == 1);
    assert(h[2 * i] == hex_digit(digest[i] as int / 16));
    assert(h[2 * i + 1] == hex_digit(digest[i] as int % 16));
    lemma_hex(digest[i] as int / 16);
    lemma_hex(digest[i] as int % 16);
}

/// The value of a lowercase hexadecimal digit.
pub open spec fn hex_value(c: char) -> int {
    if '0' <= c <= '9' {
        c as int - '0' as int
    } else if 'a' <= c <= 'f' {
        c as int - 'a' as int + 10
    } else {
        -1
    }
}

proof fn lemma_hex(d: int)
    requires
        0 <= d < 16,
    ensures
        hex_value(hex_digit(d)) == d,
{
}

/// The seed of the health path tells the name, the domain and the subdomains apart.
pub proof fn law_health_seed(s: ServerView)
    ensures
        health_path_of(s) == digest_path(
            sha256_digest(
                vstd::utf8::encode_utf8(
                    "name="@ + s.name + "|domain="@ + trimmed(s.domain) + "|dsub="@
                        + s.dns_subdomain + "|usub="@ + s.ui_subdomain + "|ssub="@
                        + s.sub_subdomain,
                ),
            ),
        ),
{
}

/// Each byte picks the character of its remainder from the letters and digits.
pub proof fn law_usernames_follow_their_bytes(bytes: Seq<u8>, i: int)
    requires
        0 <= i < bytes.len(),
    ensures
        username_text(bytes)[i]
            == "abcdefghijklmnopqrstuvwxyzABCDEFGHIJKLMNOPQRSTUVWXYZ0123456789"@[bytes[i] as int
            % 62],
{
    lemma_alphabet();
}

/// Fresh secrets come each from its own bytes.
pub proof fn law_secrets_come_from_their_seeds(s: ServerView, x: SeedsView)
    ensures
        ({
            let f = fresh_secrets(s, x);
            &&& f.health_path == health_path_of(s)
            &&& f.doh_endpoint == base64url_text(x.doh)
            &&& f.xui_username == username_text(x.username)
            &&& f.xui_password == base64url_text(x.password)
            &&& f.xui_token is None
            &&& f.xui_webpath == base64url_text(x.webpath)
            &&& f.xui_subpath == base64url_text(x.subpath)
            &&& f.xui_jsubpath == base64url_text(x.jsubpath)
        }),
{
}

/// The subscription identifier of an inbound comes from the bytes that stand at its
/// place, and that of the supervisor is a dummy.
pub proof fn law_subids_come_from_their_seeds(inbounds: Seq<InboundView>, seeds: Seq<Seq<u8>>, i: int)
    requires
        0 <= i < inbounds.len(),
        forall|j: int| 0 <= j < i ==> #[trigger] inbounds[j].name != inbounds[i].name,
    ensures
        subids_of(inbounds, seeds)[inbounds[i].name] == base64url_text(seeds[i]),
        (forall|j: int| 0 <= j < inbounds.len() ==> #[trigger] inbounds[j].name != "super"@)
            ==> subids_of(inbounds, seeds)["super"@] == "super"@,
{
    lemma_subid_at(inbounds, seeds, i, inbounds.len() as int);
    lemma_subids(inbounds, seeds, inbounds.len() as int, super_text());
}

proof fn lemma_subid_at(inbounds: Seq<InboundView>, seeds: Seq<Seq<u8>>, i: int, k: int)
    requires
        0 <= i < k <= inbounds.len(),
        forall|j: int| 0 <= j < i ==> #[trigger] inbounds[j].name != inbounds[i].name,
    ensures
        subids_upto(inbounds, seeds, k).dom().contains(inbounds[i].name),
        subids_upto(inbounds, seeds, k)[inbounds[i].name] == base64url_text(seeds[i]),
    decreases k,
{
    if i < k - 1 {
        lemma_subid_at(inbounds, seeds, i, k - 1);
    } else {
        lemma_subids(inbounds, seeds, k - 1, inbounds[i].name);
    }
}

/// Ansible reaches a server as root at its address, through the default port while it is
/// Offgrid and through its SSH port once it is Production.
pub proof fn law_inventory_follows_the_state(s: ServerView)
    ensures
        inventory_of(s).host == Some(s.ip.text),
        inventory_of(s).user == Some("root"@),
        inventory_of(s).connection is None,
        s.state == ServerState::Offgrid ==> inventory_of(s).port == Some(22u16),
        s.state == ServerState::Production ==> inventory_of(s).port == Some(s.ssh_port),
{
}

} // verus!
