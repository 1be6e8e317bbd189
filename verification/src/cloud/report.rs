//! What is reported of the check of a service.

use vstd::prelude::*;

use crate::cloud::rebase::{find_inbound, has_inbound, inbound_index};
use crate::cloud::server::{sub_host, ui_host};
use crate::outside::{format_utc, utc_text};
use crate::text::{decimal, number};
use crate::types::{
    super_text, svc_nice_text, SvcEntry, SvcEntryView, SvcInfo, SvcInfoView, SvcKind, SvcKindView,
};

verus! {

/// The form in which times are shown.
pub const TIME_PATTERN: &'static str = "%Y-%m-%d %H:%M:%S";

/// A failed check: the service, and what went wrong.
pub struct SvcError {
    pub service: SvcEntry,
    pub errmsg: String,
}

/// The place at which a service is reached: SSH at the server's address, Nginx
/// at the panel's host, and an inbound at the subscription host.
pub open spec fn endpoint_text(info: SvcInfoView) -> Option<Seq<char>> {
    match info.kind {
        SvcKindView::Ssh => Some(info.server.ip.text + ":"@ + decimal(info.port as nat)),
        SvcKindView::Nginx => Some(ui_host(info.server) + ":"@ + decimal(info.port as nat)),
        SvcKindView::Xray(inbound) => if has_inbound(info.server.inbounds, inbound) {
            Some(
                sub_host(info.server) + ":"@ + decimal(
                    info.server.inbounds[inbound_index(info.server.inbounds, inbound)].port as nat,
                ),
            )
        } else {
            None
        },
    }
}

/// The place at which a service is reached; `None` for an inbound that the
/// server does not have.
pub fn endpoint(info: &SvcInfo) -> (r: Option<String>)
    ensures
        crate::text::opt_text(r) == endpoint_text(info@),
{
    let (mut s, port): (String, u16) = match &info.kind {
        SvcKind::Ssh => (info.server.ip.text.clone(), info.port),
        SvcKind::Nginx => (info.server.uihostname(), info.port),
        SvcKind::Xray(inbound) => match find_inbound(&info.server.inbounds, inbound) {
            Some(i) => {
                assert(info@.server.inbounds[i as int] == info.server.inbounds@[i as int]@);
                (info.server.subhostname(), info.server.inbounds[i].port)
            },
            None => return None,
        },
    };
    s.append(":");
    s.append(number(port as u64).as_str());
    Some(s)
}

/// The report of a failed check.
pub open spec fn error_text(e: SvcEntryView, since: Option<Seq<char>>, errmsg: Seq<char>) -> Seq<char> {
    match since {
        None => "Couldn't convert failed_since to a human-readable format."@,
        Some(t) => match endpoint_text(e.info) {
            None => "The inbound can't be found in the server."@,
            Some(place) => "❌[ Monitoring ][ "@ + svc_nice_text(e.info.kind) + " ][ "@
                + e.info.server.name + " ] ("@ + place + ") has failed "@ + decimal(
                e.status.failed_count as nat,
            ) + " times since "@ + t + ". Error: "@ + errmsg,
        },
    }
}

/// What the log says of a failed check.
pub enum ErrorLine {
    /// The place, the time of the first failure, the number of failures, what
    /// went wrong, what is added, and how the service is called.
    Failure(String, String, u64, String, Option<String>, &'static str),
    /// The inbound is not one of the server.
    NoInbound(String),
    /// The time of the first failure is out of range.
    NoTime,
}

/// How a service that failed is called.
pub open spec fn failure_word(k: SvcKindView) -> Seq<char> {
    match k {
        SvcKindView::Ssh => "unconnectable"@,
        SvcKindView::Nginx => "unreachable"@,
        SvcKindView::Xray(_) => "unhealthy"@,
    }
}

/// How a service that passed its check is called.
pub open spec fn success_word(k: SvcKindView) -> Seq<char> {
    match k {
        SvcKindView::Ssh => "connectable"@,
        SvcKindView::Nginx => "reachable"@,
        SvcKindView::Xray(inbound) => if inbound == super_text() {
            "all inbounds are healthy"@
        } else {
            "healthy"@
        },
    }
}

/// How a service that passed its check is called.
pub fn success_message(info: &SvcInfo) -> (r: &'static str)
    ensures
        r@ == success_word(info@.kind),
{
    match &info.kind {
        SvcKind::Ssh => "connectable",
        SvcKind::Nginx => "reachable",
        SvcKind::Xray(inbound) => if *inbound == SvcKind::super_name() {
            "all inbounds are healthy"
        } else {
            "healthy"
        },
    }
}

impl SvcError {
    /// The report of the failed check, where `since` is the time of the first
    /// failure.
    pub fn report(&self, since: Option<&str>) -> (r: String)
        ensures
            r@ == error_text(
                self.service@,
                match since {
                    Some(t) => Some(t@),
                    None => None,
                },
                self.errmsg@,
            ),
    {
        let t = match since {
            Some(t) => t,
            None => return "Couldn't convert failed_since to a human-readable format.".to_owned(),
        };
        let place = match endpoint(&self.service.info) {
            Some(p) => p,
            None => return "The inbound can't be found in the server.".to_owned(),
        };
        let mut s = "❌[ Monitoring ][ ".to_owned();
        s.append(self.service.info.kind.nice_display().as_str());
        s.append(" ][ ");
        s.append(self.service.info.server.name.as_str());
        s.append(" ] (");
        s.append(place.as_str());
        s.append(") has failed ");
        s.append(number(self.service.status.failed_count).as_str());
        s.append(" times since ");
        s.append(t);
        s.append(". Error: ");
        s.append(self.errmsg.as_str());
        s
    }

    /// The report of the failed check.
    pub fn to_string(&self) -> (r: String)
        ensures
            r@ == error_text(
                self.service@,
                utc_text(self.service.status.failed_since as i64, TIME_PATTERN@),
                self.errmsg@,
            ),
    {
        match format_utc(self.service.status.failed_since as i64, TIME_PATTERN) {
            Some(t) => self.report(Some(t.as_str())),
            None => self.report(None),
        }
    }

    /// What the log says of the failed check, where `since` is the time of the
    /// first failure.
    pub fn log_line(&self, since: Option<String>, extra: &str) -> (r: ErrorLine)
        ensures
            match since {
                None => r is NoTime,
                Some(t) => match endpoint_text(self.service@.info) {
                    None => r matches ErrorLine::NoInbound(i) && self.service@.info.kind
                        == SvcKindView::Xray(i@),
                    Some(place) => r matches ErrorLine::Failure(p, w, n, e, x, m) && p@ == place
                        && w@ == t@ && n == self.service.status.failed_count && e@ == self.errmsg@
                        && crate::text::opt_text(x) == (if extra@.len() == 0 {
                        None
                    } else {
                        Some(extra@)
                    }) && m@ == failure_word(self.service@.info.kind),
                },
            },
    {
        let t = match since {
            Some(t) => t,
            None => return ErrorLine::NoTime,
        };
        match endpoint(&self.service.info) {
            Some(place) => {
                let word = match &self.service.info.kind {
                    SvcKind::Ssh => "unconnectable",
                    SvcKind::Nginx => "unreachable",
                    SvcKind::Xray(_) => "unhealthy",
                };
                let added = if extra.is_empty() {
                    None
                } else {
                    Some(extra.to_owned())
                };
                ErrorLine::Failure(
                    place,
                    t,
                    self.service.status.failed_count,
                    self.errmsg.clone(),
                    added,
                    word,
                )
            },
            None => match &self.service.info.kind {
                SvcKind::Xray(i) => ErrorLine::NoInbound(i.clone()),
                _ => ErrorLine::NoTime,
            },
        }
    }

    /// What the log says of the failed check.
    pub fn print_error(&self, extra: &str) -> (r: ErrorLine)
        ensures
            match utc_text(self.service.status.failed_since as i64, TIME_PATTERN@) {
                None => r is NoTime,
                Some(t) => match endpoint_text(self.service@.info) {
                    None => r matches ErrorLine::NoInbound(i) && self.service@.info.kind
                        == SvcKindView::Xray(i@),
                    Some(place) => r matches ErrorLine::Failure(p, w, n, e, x, m) && p@ == place
                        && w@ == t && n == self.service.status.failed_count && e@ == self.errmsg@
                        && crate::text::opt_text(x) == (if extra@.len() == 0 {
                        None
                    } else {
                        Some(extra@)
                    }) && m@ == failure_word(self.service@.info.kind),
                },
            },
    {
        self.log_line(format_utc(self.service.status.failed_since as i64, TIME_PATTERN), extra)
    }
}

/// A service is reached at the address or host that it is tested at: SSH at the address of
/// the server, Nginx at the host of the panel, and an inbound at the subscription host and
/// its own port, if the server has it.
pub proof fn law_endpoints_of_services(info: SvcInfoView, i: int)
    ensures
        info.kind is Ssh ==> endpoint_text(info) == Some(
            info.server.ip.text + ":"@ + decimal(info.port as nat),
        ),
        info.kind is Nginx ==> endpoint_text(info) == Some(
            info.server.ui_subdomain + "."@ + info.server.domain + ":"@ + decimal(info.port as nat),
        ),
        info.kind is Xray && 0 <= i < info.server.inbounds.len() && info.server.inbounds[i].name
            == info.kind->Xray_0 && (forall|j: int|
            0 <= j < i ==> #[trigger] info.server.inbounds[j].name != info.kind->Xray_0)
            ==> endpoint_text(info) == Some(
            info.server.sub_subdomain + "."@ + info.server.domain + ":"@ + decimal(
                info.server.inbounds[i].port as nat,
            ),
        ),
        info.kind is Xray && (forall|j: int|
            0 <= j < info.server.inbounds.len() ==> #[trigger] info.server.inbounds[j].name
                != info.kind->Xray_0) ==> endpoint_text(info) is None,
{
    if info.kind is Xray && 0 <= i < info.server.inbounds.len() && info.server.inbounds[i].name
        == info.kind->Xray_0 && (forall|j: int|
        0 <= j < i ==> #[trigger] info.server.inbounds[j].name != info.kind->Xray_0) {
        crate::cloud::rebase::lemma_inbound_index_is(info.server.inbounds, info.kind->Xray_0, i);
    }
}

/// A report names the service, its server, the place, the number of failures, the time of
/// the first one and what went wrong.
pub proof fn law_report_tells_everything(
    e: SvcEntryView,
    since: Seq<char>,
    place: Seq<char>,
    errmsg: Seq<char>,
)
    requires
        endpoint_text(e.info) == Some(place),
    ensures
        error_text(e, Some(since), errmsg) == "❌[ Monitoring ][ "@ + svc_nice_text(e.info.kind)
            + " ][ "@ + e.info.server.name + " ] ("@ + place + ") has failed "@ + decimal(
            e.status.failed_count as nat,
        ) + " times since "@ + since + ". Error: "@ + errmsg,
{
}

/// What is said of a service by its kind.
pub proof fn law_words_for_services(k: SvcKindView)
    ensures
        k is Ssh ==> failure_word(k) == "unconnectable"@ && success_word(k) == "connectable"@,
        k is Nginx ==> failure_word(k) == "unreachable"@ && success_word(k) == "reachable"@,
        k is Xray ==> failure_word(k) == "unhealthy"@,
        k is Xray && k->Xray_0 != "super"@ ==> success_word(k) == "healthy"@,
        k is Xray && k->Xray_0 == "super"@ ==> success_word(k) == "all inbounds are healthy"@,
{
}

} // verus!
