//! What is known of a server's Cloudflare zone, and the rules that derive it.

use vstd::prelude::*;
use vstd::utf8::encode_utf8;

use crate::constants::CLOUDFLARE_SPORTS;
use crate::outside::{lowercase, lowercase_text};
use crate::text::{ends_with, str_ends_with, str_eq};
use crate::types::{
    inbound_views, is_tls, super_text, Cloud, CloudView, Inbound, InboundKind, InboundView, KetServer,
    ServerView, SvcKind,
};

verus! {

// ---------------------------------------------------------------- the API

/// The response to a GET call to the Cloudflare API.
#[derive(Debug)]
pub struct CFGetResponse<T> {
    pub result: Vec<T>,
    pub success: bool,
    pub errors: Vec<CFError>,
}

/// The response to a POST call to the Cloudflare API.
#[derive(Debug)]
pub struct CFPostResponse<T> {
    pub result: T,
    pub success: bool,
    pub errors: Vec<CFError>,
}

/// A Cloudflare account.
#[derive(Debug, Default)]
pub struct CFAccount {
    pub id: String,
    pub name: String,
}

/// An error that the API reports.
#[derive(Debug)]
pub struct CFError {
    pub code: i32,
    pub message: String,
}

/// The status of a token.
#[derive(Debug, Default)]
pub struct CFToken {
    pub status: String,
    pub id: String,
}

/// A zone.
#[derive(Debug, Default)]
pub struct CFZone {
    pub id: String,
    pub name: String,
    pub account: CFAccount,
}

/// A list of addresses of an account.
#[derive(Debug, Default)]
pub struct CFList {
    pub id: String,
    pub name: String,
    pub description: String,
    pub kind: String,
    pub num_items: u32,
}

/// A ruleset of a zone.
#[derive(Debug, Default)]
pub struct CFRuleSet {
    pub id: String,
    pub kind: String,
    pub name: String,
    pub phase: String,
    pub rules: Vec<CFRule>,
}

/// A rule of a ruleset.
#[derive(Debug, Default)]
pub struct CFRule {
    pub id: String,
    pub action: String,
    pub description: String,
    pub enabled: bool,
    pub expression: String,
}

/// The description of the rule that blocks the addresses of the list.
pub const RULE_DESCRIPTION: &'static str = "xcplane-managed fail2ban rule";

/// What the rule matches.
pub const RULE_EXPRESSION: &'static str = "(ip.src in $xcplane)";

/// The description of the list.
pub const LIST_DESCRIPTION: &'static str = "xcplane-managed blocklist";

/// The phase of the ruleset.
pub const RULESET_PHASE: &'static str = "http_request_firewall_custom";

/// The name of the ruleset and of the list.
pub const MANAGED_NAME: &'static str = "xcplane";

/// The address of the API.
pub const CF_API: &'static str = "https://api.cloudflare.com/client/v4";

pub open spec fn zones_text() -> Seq<char> {
    CF_API@ + "/zones"@
}

pub open spec fn rulesets_text(zone: Seq<char>) -> Seq<char> {
    CF_API@ + "/zones/"@ + zone + "/rulesets"@
}

pub open spec fn ruleset_text(zone: Seq<char>, ruleset: Seq<char>) -> Seq<char> {
    rulesets_text(zone) + "/"@ + ruleset
}

pub open spec fn rules_text(zone: Seq<char>, ruleset: Seq<char>) -> Seq<char> {
    ruleset_text(zone, ruleset) + "/rules"@
}

pub open spec fn lists_text(account: Seq<char>) -> Seq<char> {
    CF_API@ + "/accounts/"@ + account + "/rules/lists"@
}

pub open spec fn verify_text() -> Seq<char> {
    CF_API@ + "/user/tokens/verify"@
}

/// Where the zones are listed.
pub fn zones_endpoint() -> (r: String)
    ensures
        r@ == zones_text(),
{
    let mut s = CF_API.to_owned();
    s.append("/zones");
    s
}

/// Where the rulesets of a zone are listed and created.
pub fn rulesets_endpoint(zone_id: &str) -> (r: String)
    ensures
        r@ == rulesets_text(zone_id@),
{
    let mut s = CF_API.to_owned();
    s.append("/zones/");
    s.append(zone_id);
    s.append("/rulesets");
    s
}

/// Where a ruleset is read.
pub fn ruleset_endpoint(zone_id: &str, ruleset_id: &str) -> (r: String)
    ensures
        r@ == ruleset_text(zone_id@, ruleset_id@),
{
    let mut s = rulesets_endpoint(zone_id);
    s.append("/");
    s.append(ruleset_id);
    s
}

/// Where the rules of a ruleset are created.
pub fn rules_endpoint(zone_id: &str, ruleset_id: &str) -> (r: String)
    ensures
        r@ == rules_text(zone_id@, ruleset_id@),
{
    let mut s = ruleset_endpoint(zone_id, ruleset_id);
    s.append("/rules");
    s
}

/// Where the lists of an account are listed and created.
pub fn lists_endpoint(account_id: &str) -> (r: String)
    ensures
        r@ == lists_text(account_id@),
{
    let mut s = CF_API.to_owned();
    s.append("/accounts/");
    s.append(account_id);
    s.append("/rules/lists");
    s
}

/// Where a token is verified.
pub fn verify_endpoint() -> (r: String)
    ensures
        r@ == verify_text(),
{
    let mut s = CF_API.to_owned();
    s.append("/user/tokens/verify");
    s
}

// ---------------------------------------------------------------- the state of a server

/// The identifiers that a Cloudflare-proxied server needs.
pub struct CFListData {
    pub account_name: String,
    pub account_id: String,
    pub ruleset_id: String,
    pub rule_id: String,
    pub list_id: String,
}

/// The Cloudflare state of a server.
pub struct CFState {
    pub zone_name: String,
    pub zone_id: String,
    /// The server's domain is a subdomain of its zone.
    pub too_deep: bool,
    /// All inbounds are reachable through Cloudflare.
    pub cloudflare_only: bool,
    /// Present where the server asks for the Cloudflare proxy.
    pub list_data: Option<CFListData>,
}

#[verifier::ext_equal]
pub struct CFListDataView {
    pub account_name: Seq<char>,
    pub account_id: Seq<char>,
    pub ruleset_id: Seq<char>,
    pub rule_id: Seq<char>,
    pub list_id: Seq<char>,
}

#[verifier::ext_equal]
pub struct CFStateView {
    pub zone_name: Seq<char>,
    pub zone_id: Seq<char>,
    pub too_deep: bool,
    pub cloudflare_only: bool,
    pub list_data: Option<CFListDataView>,
}

impl View for CFListData {
    type V = CFListDataView;

    open spec fn view(&self) -> CFListDataView {
        CFListDataView {
            account_name: self.account_name@,
            account_id: self.account_id@,
            ruleset_id: self.ruleset_id@,
            rule_id: self.rule_id@,
            list_id: self.list_id@,
        }
    }
}

impl View for CFState {
    type V = CFStateView;

    open spec fn view(&self) -> CFStateView {
        CFStateView {
            zone_name: self.zone_name@,
            zone_id: self.zone_id@,
            too_deep: self.too_deep,
            cloudflare_only: self.cloudflare_only,
            list_data: match self.list_data {
                Some(d) => Some(d@),
                None => None,
            },
        }
    }
}

pub open spec fn cf_view(c: Option<CFState>) -> Option<CFStateView> {
    match c {
        Some(x) => Some(x@),
        None => None,
    }
}

impl Clone for CFListData {
    fn clone(&self) -> (r: Self)
        ensures
            r@ == self@,
    {
        CFListData {
            account_name: self.account_name.clone(),
            account_id: self.account_id.clone(),
            ruleset_id: self.ruleset_id.clone(),
            rule_id: self.rule_id.clone(),
            list_id: self.list_id.clone(),
        }
    }
}

impl Clone for CFState {
    fn clone(&self) -> (r: Self)
        ensures
            r@ == self@,
    {
        CFState {
            zone_name: self.zone_name.clone(),
            zone_id: self.zone_id.clone(),
            too_deep: self.too_deep,
            cloudflare_only: self.cloudflare_only,
            list_data: match &self.list_data {
                Some(d) => Some(d.clone()),
                None => None,
            },
        }
    }
}

// ---------------------------------------------------------------- the zone

/// The domain, in lower case, is the zone or lies below it.
pub open spec fn in_zone(domain: Seq<char>, zone: Seq<char>) -> bool {
    let z = lowercase_text(zone);
    z == domain || ends_with(domain, "."@ + z)
}

/// The place of the most specific one among the first `k` zones that the domain
/// lies in: the one with the longest name, and the last of those.
pub open spec fn zone_upto(zones: Seq<CFZone>, domain: Seq<char>, k: int) -> Option<int>
    decreases k,
{
    if k <= 0 {
        None
    } else {
        let before = zone_upto(zones, domain, k - 1);
        if !in_zone(domain, zones[k - 1].name@) {
            before
        } else {
            match before {
                Some(b) => if encode_utf8(zones[b].name@).len() > encode_utf8(
                    zones[k - 1].name@,
                ).len() {
                    before
                } else {
                    Some(k - 1)
                },
                None => Some(k - 1),
            }
        }
    }
}

/// The place of the zone of a domain.
pub open spec fn zone_of(zones: Seq<CFZone>, domain: Seq<char>) -> Option<int> {
    zone_upto(zones, lowercase_text(domain), zones.len() as int)
}

pub open spec fn no_zone_text(domain: Seq<char>) -> Seq<char> {
    "Domain '"@ + domain
        + "' is not within any Cloudflare zone. Have you added it to Cloudflare properly?"@
}

fn lies_in_zone(domain: &str, zone: &str) -> (r: bool)
    ensures
        r == in_zone(domain@, zone@),
{
    let z = lowercase(zone);
    let mut suffix = ".".to_owned();
    suffix.append(z.as_str());
    str_eq(z.as_str(), domain) || str_ends_with(domain, suffix.as_str())
}

// ---------------------------------------------------------------- Cloudflare only

/// A port at which Cloudflare takes secure connections.
pub open spec fn is_cf_port(p: u16) -> bool {
    exists|i: int| 0 <= i < CLOUDFLARE_SPORTS@.len() && #[trigger] CLOUDFLARE_SPORTS@[i] == p
}

/// Connections of the inbound can go through Cloudflare.
pub open spec fn can_be_proxied(i: InboundView) -> bool {
    is_cf_port(i.port) && is_tls(i.kind)
}

/// Connections of all inbounds but the supervisor's can go through Cloudflare.
pub open spec fn all_proxied(inbounds: Seq<InboundView>) -> bool {
    forall|i: int|
        0 <= i < inbounds.len() && (#[trigger] inbounds[i]).name != super_text() ==> can_be_proxied(
            inbounds[i],
        )
}

/// Is it a port at which Cloudflare takes secure connections?
pub fn cloudflare_port(p: u16) -> (r: bool)
    ensures
        r == is_cf_port(p),
{
    let ports = CLOUDFLARE_SPORTS;
    let mut i: usize = 0;
    while i < 5
        invariant
            i <= 5,
            ports == CLOUDFLARE_SPORTS,
            ports@.len() == 5,
            forall|j: int| 0 <= j < i ==> #[trigger] CLOUDFLARE_SPORTS@[j] != p,
        decreases 5 - i,
    {
        if ports[i] == p {
            assert(CLOUDFLARE_SPORTS@[i as int] == p);
            return true;
        }
        i += 1;
    }
    false
}

/// Can the connections of all inbounds go through Cloudflare?
pub fn cloudflare_only(inbounds: &Vec<Inbound>) -> (r: bool)
    ensures
        r == all_proxied(inbound_views(inbounds@)),
{
    let ghost views = inbound_views(inbounds@);
    let super_name = SvcKind::super_name();
    let mut i: usize = 0;
    while i < inbounds.len()
        invariant
            i <= inbounds@.len(),
            views == inbound_views(inbounds@),
            super_name@ == super_text(),
            forall|j: int|
                0 <= j < i && (#[trigger] views[j]).name != super_text() ==> can_be_proxied(
                    views[j],
                ),
        decreases inbounds@.len() - i,
    {
        assert(views[i as int] == inbounds@[i as int]@);
        if inbounds[i].name != super_name {
            if !(cloudflare_port(inbounds[i].port) && inbounds[i].kind.cloudflare_compatible()) {
                return false;
            }
        }
        i += 1;
    }
    true
}

// ---------------------------------------------------------------- what the state is made of

/// The rule of a zone that blocks the addresses of the list.
pub struct CFRuleIds {
    pub ruleset_id: String,
    pub rule_id: String,
}

/// A server's domain is too deep in its zone: it lies below it.
pub open spec fn is_too_deep(domain: Seq<char>, zone: Seq<char>) -> bool {
    ends_with(lowercase_text(domain), "."@ + zone)
}

/// The Cloudflare state of a server in a zone, or why there is none.
pub open spec fn state_of(
    s: ServerView,
    zone: CFZone,
    ids: Option<CFRuleIds>,
    list: Option<Seq<char>>,
) -> Result<CFStateView, Seq<char>> {
    if s.cloudflare_proxied && list is None {
        Err("cf_list is None while it should contain Some value."@)
    } else {
        Ok(
            CFStateView {
                zone_name: zone.name@,
                zone_id: zone.id@,
                too_deep: is_too_deep(s.domain, zone.name@),
                cloudflare_only: all_proxied(s.inbounds),
                list_data: if s.cloudflare_proxied {
                    Some(
                        CFListDataView {
                            account_name: zone.account.name@,
                            account_id: zone.account.id@,
                            ruleset_id: ids->Some_0.ruleset_id@,
                            rule_id: ids->Some_0.rule_id@,
                            list_id: list->Some_0,
                        },
                    )
                } else {
                    None
                },
            },
        )
    }
}

impl KetServer {
    /// Chooses the zone of the server's domain.
    pub fn get_cf_zone(&self, zones: &Vec<CFZone>) -> (r: Result<usize, String>)
        ensures
            match r {
                Ok(i) => i < zones@.len() && zone_of(zones@, self@.domain) == Some(i as int),
                Err(e) => zone_of(zones@, self@.domain) is None && e@ == no_zone_text(
                    lowercase_text(self@.domain),
                ),
            },
    {
        let domain = lowercase(self.domain.as_str());
        let mut best: Option<usize> = None;
        let mut i: usize = 0;
        while i < zones.len()
            invariant
                i <= zones@.len(),
                domain@ == lowercase_text(self@.domain),
                match best {
                    Some(b) => b < i && zone_upto(zones@, domain@, i as int) == Some(b as int),
                    None => zone_upto(zones@, domain@, i as int) is None,
                },
            decreases zones@.len() - i,
        {
            if lies_in_zone(domain.as_str(), zones[i].name.as_str()) {
                best = match best {
                    Some(b) => if zones[b].name.as_str().as_bytes().len()
                        > zones[i].name.as_str().as_bytes().len() {
                        Some(b)
                    } else {
                        Some(i)
                    },
                    None => Some(i),
                };
            }
            i += 1;
        }
        match best {
            Some(b) => Ok(b),
            None => {
                let mut e = "Domain '".to_owned();
                e.append(domain.as_str());
                e.append(
                    "' is not within any Cloudflare zone. Have you added it to Cloudflare properly?",
                );
                Err(e)
            },
        }
    }

    /// Sets the Cloudflare state of the server. The identifiers of the rule are
    /// those of the zone; they are needed where the server asks for the proxy.
    pub fn set_cf_state(
        &mut self,
        zone: &CFZone,
        ids: Option<CFRuleIds>,
        cf_list: &Option<String>,
    ) -> (r: Result<(), String>)
        requires
            old(self).cloudflare_proxied ==> ids is Some,
        ensures
            match state_of(old(self)@, *zone, ids, crate::text::opt_text(*cf_list)) {
                Ok(st) => r is Ok && final(self)@ == (ServerView {
                    cfstate: Some(st),
                    ..old(self)@
                }),
                Err(e) => r matches Err(m) && m@ == e && *final(self) == *old(self),
            },
    {
        let domain = lowercase(self.domain.as_str());
        let mut suffix = ".".to_owned();
        suffix.append(zone.name.as_str());
        let too_deep = str_ends_with(domain.as_str(), suffix.as_str());
        let only = cloudflare_only(&self.inbounds);
        let list_data = if self.cloudflare_proxied {
            let list_id = match cf_list {
                Some(l) => l.clone(),
                None => return Err(
                    "cf_list is None while it should contain Some value.".to_owned(),
                ),
            };
            match ids {
                Some(i) => Some(
                    CFListData {
                        account_name: zone.account.name.clone(),
                        account_id: zone.account.id.clone(),
                        ruleset_id: i.ruleset_id,
                        rule_id: i.rule_id,
                        list_id,
                    },
                ),
                None => None,
            }
        } else {
            None
        };
        self.cfstate =
        Some(
            CFState {
                zone_name: zone.name.clone(),
                zone_id: zone.id.clone(),
                too_deep,
                cloudflare_only: only,
                list_data,
            },
        );
        Ok(())
    }

    /// Finds the managed rule in the ruleset in which it was just created.
    pub fn created_rule(&self, ruleset: &CFRuleSet) -> (r: Result<String, String>)
        ensures
            match managed_rule(ruleset.rules@, 0) {
                Some(i) => r matches Ok(id) && id@ == ruleset.rules@[i].id@,
                None => r matches Err(e) && e@
                    == "Couldn't create a fail2ban rule for Cloudflare-proxied server '"@
                    + self@.name + "'"@,
            },
    {
        match get_cf_rule(ruleset) {
            Some(id) => Ok(id),
            None => {
                let mut e = "Couldn't create a fail2ban rule for Cloudflare-proxied server '".to_owned();
                e.append(self.name.as_str());
                e.append("'");
                Err(e)
            },
        }
    }
}

// ---------------------------------------------------------------- what the API has

/// The ruleset in which the managed rule stands.
pub open spec fn is_managed_ruleset(r: CFRuleSet) -> bool {
    r.kind@ == "zone"@ && r.phase@ == RULESET_PHASE@
}

/// The first such ruleset from a place on.
pub open spec fn managed_ruleset(sets: Seq<CFRuleSet>, i: int) -> Option<int>
    decreases sets.len() - i,
{
    if i >= sets.len() {
        None
    } else if is_managed_ruleset(sets[i]) {
        Some(i)
    } else {
        managed_ruleset(sets, i + 1)
    }
}

/// The rule that blocks the addresses of the list.
pub open spec fn is_managed_rule(r: CFRule) -> bool {
    r.action@ == "block"@ && r.description@ == RULE_DESCRIPTION@ && r.enabled
}

/// The first such rule from a place on.
pub open spec fn managed_rule(rules: Seq<CFRule>, i: int) -> Option<int>
    decreases rules.len() - i,
{
    if i >= rules.len() {
        None
    } else if is_managed_rule(rules[i]) {
        Some(i)
    } else {
        managed_rule(rules, i + 1)
    }
}

/// The list of blocked addresses.
pub open spec fn is_managed_list(l: CFList) -> bool {
    l.description@ == LIST_DESCRIPTION@ && l.kind@ == "ip"@
}

/// The first such list from a place on.
pub open spec fn managed_list(lists: Seq<CFList>, i: int) -> Option<int>
    decreases lists.len() - i,
{
    if i >= lists.len() {
        None
    } else if is_managed_list(lists[i]) {
        Some(i)
    } else {
        managed_list(lists, i + 1)
    }
}

/// Finds the ruleset of a zone in which the managed rule stands; without one it
/// has to be created.
pub fn get_cf_ruleset(response: &CFGetResponse<CFRuleSet>) -> (r: Option<String>)
    ensures
        match managed_ruleset(response.result@, 0) {
            Some(i) => r matches Some(id) && id@ == response.result@[i].id@,
            None => r is None,
        },
{
    let mut i: usize = 0;
    while i < response.result.len()
        invariant
            i <= response.result@.len(),
            managed_ruleset(response.result@, 0) == managed_ruleset(response.result@, i as int),
        decreases response.result@.len() - i,
    {
        let set = &response.result[i];
        if str_eq(set.kind.as_str(), "zone") && str_eq(set.phase.as_str(), RULESET_PHASE) {
            return Some(set.id.clone());
        }
        i += 1;
    }
    None
}

/// Finds the managed rule of a ruleset; without one it has to be created.
pub fn get_cf_rule(ruleset: &CFRuleSet) -> (r: Option<String>)
    ensures
        match managed_rule(ruleset.rules@, 0) {
            Some(i) => r matches Some(id) && id@ == ruleset.rules@[i].id@,
            None => r is None,
        },
{
    let mut i: usize = 0;
    while i < ruleset.rules.len()
        invariant
            i <= ruleset.rules@.len(),
            managed_rule(ruleset.rules@, 0) == managed_rule(ruleset.rules@, i as int),
        decreases ruleset.rules@.len() - i,
    {
        let rule = &ruleset.rules[i];
        if str_eq(rule.action.as_str(), "block") && str_eq(
            rule.description.as_str(),
            RULE_DESCRIPTION,
        ) && rule.enabled {
            return Some(rule.id.clone());
        }
        i += 1;
    }
    None
}

/// Finds the list of blocked addresses of an account; without one, or where the
/// call was no success, it has to be created.
pub fn prepare_cf_list(response: &CFGetResponse<CFList>) -> (r: Option<String>)
    ensures
        match managed_list(response.result@, 0) {
            Some(i) => if response.success {
                r matches Some(id) && id@ == response.result@[i].id@
            } else {
                r is None
            },
            None => r is None,
        },
{
    if !response.success {
        return None;
    }
    let mut i: usize = 0;
    while i < response.result.len()
        invariant
            i <= response.result@.len(),
            response.success,
            managed_list(response.result@, 0) == managed_list(response.result@, i as int),
        decreases response.result@.len() - i,
    {
        let list = &response.result[i];
        if str_eq(list.description.as_str(), LIST_DESCRIPTION) && str_eq(list.kind.as_str(), "ip") {
            return Some(list.id.clone());
        }
        i += 1;
    }
    None
}

/// Some server asks for the Cloudflare proxy.
pub open spec fn wants_list(cloud: CloudView) -> bool {
    exists|i: int| 0 <= i < cloud.servers.len() && (#[trigger] cloud.servers[i]).cloudflare_proxied
}

/// Does any server ask for the Cloudflare proxy, so that the list is needed?
pub fn needs_cf_list(cloud: &Cloud) -> (r: bool)
    ensures
        r == wants_list(cloud@),
{
    let ghost cv = cloud@;
    let mut i: usize = 0;
    while i < cloud.servers.len()
        invariant
            i <= cloud.servers@.len(),
            cv == cloud@,
            forall|j: int| 0 <= j < i ==> !(#[trigger] cv.servers[j]).cloudflare_proxied,
        decreases cloud.servers@.len() - i,
    {
        assert(cv.servers[i as int] == cloud.servers@[i as int]@);
        if cloud.servers[i].cloudflare_proxied {
            return true;
        }
        i += 1;
    }
    false
}

/// Keeps the identifier of the list; where the list could not be had, the one
/// that was known before stays.
pub fn keep_cf_list(found: Result<String, String>, cf_list: &mut Option<String>)
    ensures
        *final(cf_list) == (match found {
            Ok(id) => Some(id),
            Err(_) => *old(cf_list),
        }),
{
    match found {
        Ok(id) => {
            *cf_list = Some(id);
        },
        Err(_) => {},
    }
}

/// Judges a token by the response to its verification.
pub fn test_cf_token(response: &CFPostResponse<CFToken>) -> (r: Result<(), String>)
    ensures
        r is Ok <==> response.success && response.result.status@ == "active"@,
        r matches Err(e) ==> e@ == "The Cloudflare token either is invalid or has expired."@,
{
    if response.success && str_eq(response.result.status.as_str(), "active") {
        Ok(())
    } else {
        Err("The Cloudflare token either is invalid or has expired.".to_owned())
    }
}

// ---------------------------------------------------------------- the laws

/// The zone that is chosen holds the domain, and no zone that holds it has a
/// longer name.
pub proof fn law_zone_is_most_specific(zones: Seq<CFZone>, domain: Seq<char>, j: int)
    requires
        0 <= j < zones.len(),
        in_zone(lowercase_text(domain), zones[j].name@),
    ensures
        zone_of(zones, domain) is Some,
        0 <= zone_of(zones, domain)->Some_0 < zones.len(),
        in_zone(lowercase_text(domain), zones[zone_of(zones, domain)->Some_0].name@),
        encode_utf8(zones[j].name@).len() <= encode_utf8(
            zones[zone_of(zones, domain)->Some_0].name@,
        ).len(),
{
    lemma_zone(zones, lowercase_text(domain), zones.len() as int);
}

proof fn lemma_zone(zones: Seq<CFZone>, domain: Seq<char>, k: int)
    requires
        0 <= k <= zones.len(),
    ensures
        zone_upto(zones, domain, k) is Some ==> 0 <= zone_upto(zones, domain, k)->Some_0 < k
            && in_zone(domain, zones[zone_upto(zones, domain, k)->Some_0].name@),
        forall|j: int|
            0 <= j < k && in_zone(domain, (#[trigger] zones[j]).name@) ==> zone_upto(
                zones,
                domain,
                k,
            ) is Some && encode_utf8(zones[j].name@).len() <= encode_utf8(
                zones[zone_upto(zones, domain, k)->Some_0].name@,
            ).len(),
    decreases k,
{
    if k > 0 {
        lemma_zone(zones, domain, k - 1);
    }
}

/// The data of the list is there just where the server asks for the proxy, however
/// deep its domain is.
pub proof fn law_list_data_follows_proxy(
    s: ServerView,
    zone: CFZone,
    ids: Option<CFRuleIds>,
    list: Option<Seq<char>>,
)
    requires
        state_of(s, zone, ids, list) is Ok,
    ensures
        state_of(s, zone, ids, list)->Ok_0.list_data is Some <==> s.cloudflare_proxied,
{
}

/// One inbound that Cloudflare cannot carry is enough for a server not to be
/// reached through Cloudflare alone.
pub proof fn law_one_inbound_decides(inbounds: Seq<InboundView>, i: int)
    requires
        0 <= i < inbounds.len(),
        inbounds[i].name != super_text(),
        !is_tls(inbounds[i].kind) || !is_cf_port(inbounds[i].port),
    ensures
        !all_proxied(inbounds),
{
}

/// A domain lies in a zone where it is the zone or ends in a dot and the zone.
pub proof fn law_domains_lie_in_zones(domain: Seq<char>, zone: Seq<char>)
    ensures
        in_zone(domain, zone) <==> domain == lowercase_text(zone) || ("."@ + lowercase_text(
            zone,
        )).is_suffix_of(domain),
{
    let e = "."@ + lowercase_text(zone);
    if ends_with(domain, e) {
        assert(domain.subrange(domain.len() - e.len(), domain.len() as int) =~= e);
    }
    if e.is_suffix_of(domain) {
        assert(domain.subrange(domain.len() - e.len(), domain.len() as int) =~= e);
    }
}

/// Without a zone that holds the domain none is chosen, and of those with the longest name
/// the last one is.
pub proof fn law_last_of_the_longest_zones(zones: Seq<CFZone>, domain: Seq<char>, j: int)
    ensures
        (forall|k: int|
            0 <= k < zones.len() ==> !in_zone(
                lowercase_text(domain),
                (#[trigger] zones[k]).name@,
            )) ==> zone_of(zones, domain) is None,
        zone_of(zones, domain) is Some && zone_of(zones, domain)->Some_0 < j < zones.len()
            && in_zone(lowercase_text(domain), zones[j].name@) ==> encode_utf8(
            zones[j].name@,
        ).len() < encode_utf8(zones[zone_of(zones, domain)->Some_0].name@).len(),
{
    lemma_zone(zones, lowercase_text(domain), zones.len() as int);
    lemma_last_zone(zones, lowercase_text(domain), zones.len() as int, j);
}

proof fn lemma_last_zone(zones: Seq<CFZone>, domain: Seq<char>, k: int, j: int)
    requires
        0 <= k <= zones.len(),
    ensures
        zone_upto(zones, domain, k) is Some && zone_upto(zones, domain, k)->Some_0 < j < k
            && in_zone(domain, zones[j].name@) ==> encode_utf8(zones[j].name@).len() < encode_utf8(
            zones[zone_upto(zones, domain, k)->Some_0].name@,
        ).len(),
    decreases k,
{
    if k > 0 {
        lemma_last_zone(zones, domain, k - 1, j);
    }
}

/// A server is reached through Cloudflare alone exactly where each of its inbounds but the
/// supervisor's is of a TLS kind and at one of the ports that Cloudflare carries.
pub proof fn law_what_cloudflare_carries(inbounds: Seq<InboundView>)
    ensures
        all_proxied(inbounds) <==> forall|i: int|
            0 <= i < inbounds.len() && (#[trigger] inbounds[i]).name != "super"@ ==> ({
                let p = inbounds[i].port;
                let k = inbounds[i].kind;
                &&& p == 2053 || p == 2083 || p == 2087 || p == 2096 || p == 8443
                &&& k != InboundKind::VlessTcpReality && k != InboundKind::VlessXhttpReality
            }),
{
    let ports = CLOUDFLARE_SPORTS@;
    assert(ports[0] == 2053 && ports[1] == 2083 && ports[2] == 2087 && ports[3] == 2096 && ports[4]
        == 8443);
    assert forall|p: u16| #[trigger] is_cf_port(p) <==> p == 2053 || p == 2083 || p == 2087 || p
        == 2096 || p == 8443 by {
        if is_cf_port(p) {
            let i = choose|i: int| 0 <= i < ports.len() && #[trigger] ports[i] == p;
            assert(0 <= i < 5);
        }
    }
    assert forall|i: int| 0 <= i < inbounds.len() implies (can_be_proxied(#[trigger] inbounds[i])
        <==> ({
        let p = inbounds[i].port;
        let k = inbounds[i].kind;
        &&& p == 2053 || p == 2083 || p == 2087 || p == 2096 || p == 8443
        &&& k != InboundKind::VlessTcpReality && k != InboundKind::VlessXhttpReality
    })) by {
        assert(is_cf_port(inbounds[i].port) || !is_cf_port(inbounds[i].port));
    }
}

/// The state of a server is that of its zone: with the account, the rule and the list where
/// it asks for the proxy, which needs the list, and too deep where its domain lies below the
/// zone.
pub proof fn law_state_is_that_of_the_zone(
    s: ServerView,
    zone: CFZone,
    ids: Option<CFRuleIds>,
    list: Option<Seq<char>>,
)
    ensures
        ({
            let r = state_of(s, zone, ids, list);
            let x = r->Ok_0;
            &&& r is Err <==> s.cloudflare_proxied && list is None
            &&& r is Ok ==> x.zone_name == zone.name@ && x.zone_id == zone.id@ && (x.too_deep
                <==> ("."@ + zone.name@).is_suffix_of(lowercase_text(s.domain))) && (
            x.cloudflare_only <==> all_proxied(s.inbounds))
            &&& r is Ok && s.cloudflare_proxied ==> x.list_data is Some
                && x.list_data->Some_0.account_name == zone.account.name@
                && x.list_data->Some_0.account_id == zone.account.id@
                && x.list_data->Some_0.ruleset_id == ids->Some_0.ruleset_id@
                && x.list_data->Some_0.rule_id == ids->Some_0.rule_id@
                && x.list_data->Some_0.list_id == list->Some_0
            &&& r is Ok && !s.cloudflare_proxied ==> x.list_data is None
        }),
{
    let d = lowercase_text(s.domain);
    let e = "."@ + zone.name@;
    if ends_with(d, e) {
        assert(d.subrange(d.len() - e.len(), d.len() as int) =~= e);
    }
    if e.is_suffix_of(d) {
        assert(d.subrange(d.len() - e.len(), d.len() as int) =~= e);
    }
}

/// The list is needed exactly where some server asks for the proxy.
pub proof fn law_list_is_needed_for_the_proxy(cloud: CloudView)
    ensures
        wants_list(cloud) <==> !(forall|i: int|
            0 <= i < cloud.servers.len() ==> !(#[trigger] cloud.servers[i]).cloudflare_proxied),
{
}

/// The first ruleset of the zone for custom firewall rules is the one that is used.
pub proof fn law_first_ruleset_is_used(sets: Seq<CFRuleSet>, i: int)
    ensures
        0 <= i < sets.len() && is_managed_ruleset(sets[i]) && (forall|j: int|
            0 <= j < i ==> !is_managed_ruleset(#[trigger] sets[j])) ==> managed_ruleset(sets, 0) == Some(i),
        (forall|j: int| 0 <= j < sets.len() ==> !is_managed_ruleset(#[trigger] sets[j])) ==> managed_ruleset(
            sets,
            0,
        ) is None,
        0 <= i < sets.len() ==> (is_managed_ruleset(sets[i]) <==> sets[i].kind@ == "zone"@
            && sets[i].phase@ == "http_request_firewall_custom"@),
{
    if 0 <= i < sets.len() && is_managed_ruleset(sets[i]) && (forall|j: int|
        0 <= j < i ==> !is_managed_ruleset(#[trigger] sets[j])) {
        lemma_managed_ruleset_found(sets, 0, i);
    }
    if forall|j: int| 0 <= j < sets.len() ==> !is_managed_ruleset(#[trigger] sets[j]) {
        lemma_managed_ruleset_absent(sets, 0);
    }
}

proof fn lemma_managed_ruleset_found(sets: Seq<CFRuleSet>, k: int, i: int)
    requires
        0 <= k <= i < sets.len(),
        is_managed_ruleset(sets[i]),
        forall|j: int| 0 <= j < i ==> !is_managed_ruleset(#[trigger] sets[j]),
    ensures
        managed_ruleset(sets, k) == Some(i),
    decreases i - k,
{
    if k < i {
        assert(!is_managed_ruleset(sets[k]));
        lemma_managed_ruleset_found(sets, k + 1, i);
    }
}

proof fn lemma_managed_ruleset_absent(sets: Seq<CFRuleSet>, k: int)
    requires
        0 <= k,
        forall|j: int| 0 <= j < sets.len() ==> !is_managed_ruleset(#[trigger] sets[j]),
    ensures
        managed_ruleset(sets, k) is None,
    decreases sets.len() - k,
{
    if k < sets.len() {
        assert(!is_managed_ruleset(sets[k]));
        lemma_managed_ruleset_absent(sets, k + 1);
    }
}

/// The first enabled rule that blocks and is described as managed is the one that is used.
pub proof fn law_first_rule_is_used(rules: Seq<CFRule>, i: int)
    ensures
        0 <= i < rules.len() && is_managed_rule(rules[i]) && (forall|j: int|
            0 <= j < i ==> !is_managed_rule(#[trigger] rules[j])) ==> managed_rule(rules, 0) == Some(i),
        (forall|j: int| 0 <= j < rules.len() ==> !is_managed_rule(#[trigger] rules[j])) ==> managed_rule(
            rules,
            0,
        ) is None,
        0 <= i < rules.len() ==> (is_managed_rule(rules[i]) <==> rules[i].action@ == "block"@
            && rules[i].description@ == "xcplane-managed fail2ban rule"@ && rules[i].enabled),
{
    if 0 <= i < rules.len() && is_managed_rule(rules[i]) && (forall|j: int|
        0 <= j < i ==> !is_managed_rule(#[trigger] rules[j])) {
        lemma_managed_rule_found(rules, 0, i);
    }
    if forall|j: int| 0 <= j < rules.len() ==> !is_managed_rule(#[trigger] rules[j]) {
        lemma_managed_rule_absent(rules, 0);
    }
}

proof fn lemma_managed_rule_found(rules: Seq<CFRule>, k: int, i: int)
    requires
        0 <= k <= i < rules.len(),
        is_managed_rule(rules[i]),
        forall|j: int| 0 <= j < i ==> !is_managed_rule(#[trigger] rules[j]),
    ensures
        managed_rule(rules, k) == Some(i),
    decreases i - k,
{
    if k < i {
        assert(!is_managed_rule(rules[k]));
        lemma_managed_rule_found(rules, k + 1, i);
    }
}

proof fn lemma_managed_rule_absent(rules: Seq<CFRule>, k: int)
    requires
        0 <= k,
        forall|j: int| 0 <= j < rules.len() ==> !is_managed_rule(#[trigger] rules[j]),
    ensures
        managed_rule(rules, k) is None,
    decreases rules.len() - k,
{
    if k < rules.len() {
        assert(!is_managed_rule(rules[k]));
        lemma_managed_rule_absent(rules, k + 1);
    }
}

/// The first list of addresses that is described as managed is the one that is used.
pub proof fn law_first_list_is_used(lists: Seq<CFList>, i: int)
    ensures
        0 <= i < lists.len() && is_managed_list(lists[i]) && (forall|j: int|
            0 <= j < i ==> !is_managed_list(#[trigger] lists[j])) ==> managed_list(lists, 0) == Some(i),
        (forall|j: int| 0 <= j < lists.len() ==> !is_managed_list(#[trigger] lists[j])) ==> managed_list(
            lists,
            0,
        ) is None,
        0 <= i < lists.len() ==> (is_managed_list(lists[i]) <==> lists[i].kind@ == "ip"@
            && lists[i].description@ == "xcplane-managed blocklist"@),
{
    if 0 <= i < lists.len() && is_managed_list(lists[i]) && (forall|j: int|
        0 <= j < i ==> !is_managed_list(#[trigger] lists[j])) {
        lemma_managed_list_found(lists, 0, i);
    }
    if forall|j: int| 0 <= j < lists.len() ==> !is_managed_list(#[trigger] lists[j]) {
        lemma_managed_list_absent(lists, 0);
    }
}

proof fn lemma_managed_list_found(lists: Seq<CFList>, k: int, i: int)
    requires
        0 <= k <= i < lists.len(),
        is_managed_list(lists[i]),
        forall|j: int| 0 <= j < i ==> !is_managed_list(#[trigger] lists[j]),
    ensures
        managed_list(lists, k) == Some(i),
    decreases i - k,
{
    if k < i {
        assert(!is_managed_list(lists[k]));
        lemma_managed_list_found(lists, k + 1, i);
    }
}

proof fn lemma_managed_list_absent(lists: Seq<CFList>, k: int)
    requires
        0 <= k,
        forall|j: int| 0 <= j < lists.len() ==> !is_managed_list(#[trigger] lists[j]),
    ensures
        managed_list(lists, k) is None,
    decreases lists.len() - k,
{
    if k < lists.len() {
        assert(!is_managed_list(lists[k]));
        lemma_managed_list_absent(lists, k + 1);
    }
}

/// The addresses of the calls to the API.
pub proof fn law_addresses_of_the_api(zone: Seq<char>, ruleset: Seq<char>, account: Seq<char>)
    ensures
        zones_text() == CF_API@ + "/zones"@,
        rulesets_text(zone) == CF_API@ + "/zones/"@ + zone + "/rulesets"@,
        ruleset_text(zone, ruleset) == CF_API@ + "/zones/"@ + zone + "/rulesets"@ + "/"@ + ruleset,
        rules_text(zone, ruleset) == CF_API@ + "/zones/"@ + zone + "/rulesets"@ + "/"@ + ruleset
            + "/rules"@,
        lists_text(account) == CF_API@ + "/accounts/"@ + account + "/rules/lists"@,
        verify_text() == CF_API@ + "/user/tokens/verify"@,
{
}

} // verus!
