//! What the answers of a service tell: the SSH banner, the headers of Nginx, and
//! the addresses that are seen through an Xray inbound.

use vstd::prelude::*;

use crate::cloud::server::ui_host;
use crate::constants::{IPV4_ENDPOINTS, IPV6_ENDPOINTS, XCPLANE_AGENT};
use crate::outside::{from_utf8, from_utf8_lossy, lossy_text, lowercase, lowercase_text, shuffle, utf8_error_text};
use crate::text::{
    decimal, has_text, number, starts_with, str_contains, str_starts_with, trim, trimmed,
};
use crate::types::{super_text, Ip, KetServer, ServerView, SvcInfo, SvcKind, SvcKindView};

verus! {

// ---------------------------------------------------------------- SSH

/// What the first bytes of a connection tell of SSH.
pub open spec fn banner_fault(bytes: Seq<u8>) -> Option<Seq<char>> {
    if bytes.len() == 0 {
        Some("Connection closed before SSH banner."@)
    } else if !vstd::utf8::valid_utf8(bytes) {
        Some(utf8_error_text(bytes))
    } else if starts_with(vstd::utf8::decode_utf8(bytes), "SSH-"@) {
        None
    } else {
        Some("Not an SSH server."@)
    }
}

/// Checks the first bytes that an SSH server sends.
pub fn check_ssh_stream(bytes: &[u8]) -> (r: Result<(), String>)
    ensures
        match r {
            Ok(_) => banner_fault(bytes@) is None,
            Err(e) => banner_fault(bytes@) == Some(e@),
        },
{
    if bytes.len() == 0 {
        return Err("Connection closed before SSH banner.".to_owned());
    }
    match from_utf8(bytes) {
        Ok(banner) => {
            if str_starts_with(banner, "SSH-") {
                Ok(())
            } else {
                Err("Not an SSH server.".to_owned())
            }
        },
        Err(e) => Err(e),
    }
}

// ---------------------------------------------------------------- Nginx

/// The request for the headers at the health path.
pub open spec fn head_request_text(server: ServerView) -> Seq<char> {
    "HEAD /"@ + server.secrets.health_path + " HTTP/1.1\r\nHost: "@ + ui_host(server)
        + "\r\nUser-Agent: "@ + XCPLANE_AGENT@ + "\r\nAccept: */*\r\nConnection: close\r\n\r\n"@
}

pub fn head_request(server: &KetServer) -> (r: String)
    ensures
        r@ == head_request_text(server@),
{
    let mut s = "HEAD /".to_owned();
    s.append(server.secrets.health_path.as_str());
    s.append(" HTTP/1.1\r\nHost: ");
    s.append(server.uihostname().as_str());
    s.append("\r\nUser-Agent: ");
    s.append(XCPLANE_AGENT);
    s.append("\r\nAccept: */*\r\nConnection: close\r\n\r\n");
    s
}

/// A line end stands at this place.
pub open spec fn line_end_at(b: Seq<u8>, i: int) -> bool {
    0 <= i && i + 1 < b.len() && b[i] == 13 && b[i + 1] == 10
}

/// The end of the headers, an empty line, stands at this place.
pub open spec fn headers_end_at(b: Seq<u8>, i: int) -> bool {
    line_end_at(b, i) && line_end_at(b, i + 2)
}

/// The headers have been read to their end.
pub open spec fn headers_complete(b: Seq<u8>) -> bool {
    exists|i: int| headers_end_at(b, i)
}

/// What is done while the headers are being read.
#[derive(Clone, Copy, Debug, PartialEq, Eq, Structural)]
pub enum ReadStep {
    /// They are complete.
    Done,
    /// They are too long.
    TooLarge,
    /// More is to be read.
    More,
}

/// Decides whether more of the headers is to be read.
pub fn read_step(buf: &Vec<u8>) -> (r: ReadStep)
    ensures
        r == (if headers_complete(buf@) {
            ReadStep::Done
        } else if buf@.len() > 16384 {
            ReadStep::TooLarge
        } else {
            ReadStep::More
        }),
{
    let n = buf.len();
    let mut i: usize = 0;
    while i < n && n - i >= 4
        invariant
            n == buf@.len(),
            i <= n,
            forall|j: int| 0 <= j < i ==> !#[trigger] headers_end_at(buf@, j),
        decreases n - i,
    {
        if buf[i] == 13 && buf[i + 1] == 10 && buf[i + 2] == 13 && buf[i + 3] == 10 {
            assert(headers_end_at(buf@, i as int));
            return ReadStep::Done;
        }
        i += 1;
    }
    assert forall|j: int| !#[trigger] headers_end_at(buf@, j) by {}
    if n > 16384 {
        ReadStep::TooLarge
    } else {
        ReadStep::More
    }
}

/// The first line end from this place on.
pub open spec fn line_end_from(b: Seq<u8>, i: int) -> Option<int>
    decreases b.len() - i,
{
    if i + 1 >= b.len() {
        None
    } else if line_end_at(b, i) {
        Some(i)
    } else {
        line_end_from(b, i + 1)
    }
}

/// One of the status codes with which Cloudflare reports a sick origin.
pub open spec fn is_cloudflare_error(line: Seq<char>) -> bool {
    ||| has_text(line, "520"@)
    ||| has_text(line, "521"@)
    ||| has_text(line, "522"@)
    ||| has_text(line, "523"@)
    ||| has_text(line, "524"@)
    ||| has_text(line, "525"@)
    ||| has_text(line, "526"@)
    ||| has_text(line, "527"@)
}

/// What is wrong with an answer: `line` is its status line, if it has one, and
/// `lowered` are its headers in lower case.
pub open spec fn answer_fault(line: Option<Seq<char>>, lowered: Seq<char>) -> Option<Seq<char>> {
    match line {
        None => Some("No valid HTTP status line found in TLS response"@),
        Some(l) => if has_text(l, "200 OK"@) {
            if has_text(lowered, "x-health-verify: my-origin-server"@) {
                None
            } else {
                Some(
                    "Status 200 received, but the secret 'X-Health-Verify' header is missing (possible cache hit or wrong origin)"@,
                )
            }
        } else if is_cloudflare_error(l) {
            Some("Cloudflare edge is up, but Nginx is having issues: "@ + l)
        } else {
            Some("HTTP Error: "@ + l)
        },
    }
}

/// The status line of an answer.
pub open spec fn status_line(b: Seq<u8>) -> Option<Seq<char>> {
    match line_end_from(b, 0) {
        Some(i) => Some(lossy_text(b.take(i))),
        None => None,
    }
}

/// Judges an answer by its status line and its headers in lower case.
pub fn judge_answer(line: Option<&str>, lowered: &str) -> (r: Result<(), String>)
    ensures
        ({
            let fault = answer_fault(
                match line {
                    Some(l) => Some(l@),
                    None => None,
                },
                lowered@,
            );
            match r {
                Ok(_) => fault is None,
                Err(e) => fault == Some(e@),
            }
        }),
{
    let l = match line {
        Some(l) => l,
        None => return Err("No valid HTTP status line found in TLS response".to_owned()),
    };
    if str_contains(l, "200 OK") {
        if str_contains(lowered, "x-health-verify: my-origin-server") {
            return Ok(());
        }
        return Err(
            "Status 200 received, but the secret 'X-Health-Verify' header is missing (possible cache hit or wrong origin)".to_owned(),
        );
    }
    if str_contains(l, "520") || str_contains(l, "521") || str_contains(l, "522") || str_contains(
        l,
        "523",
    ) || str_contains(l, "524") || str_contains(l, "525") || str_contains(l, "526") || str_contains(
        l,
        "527",
    ) {
        let mut e = "Cloudflare edge is up, but Nginx is having issues: ".to_owned();
        e.append(l);
        return Err(e);
    }
    let mut e = "HTTP Error: ".to_owned();
    e.append(l);
    Err(e)
}

/// Judges the bytes that Nginx answered with.
pub fn check_tls_stream(buf: &Vec<u8>) -> (r: Result<(), String>)
    ensures
        ({
            let fault = answer_fault(status_line(buf@), lowercase_text(lossy_text(buf@)));
            match r {
                Ok(_) => fault is None,
                Err(e) => fault == Some(e@),
            }
        }),
{
    let n = buf.len();
    let mut i: usize = 0;
    let mut end: Option<usize> = None;
    while i < n && n - i >= 2
        invariant_except_break
            end is None,
            n == buf@.len(),
            i <= n,
            line_end_from(buf@, 0) == line_end_from(buf@, i as int),
        ensures
            match end {
                Some(e) => line_end_from(buf@, 0) == Some(e as int) && e <= buf@.len(),
                None => line_end_from(buf@, 0) is None,
            },
        decreases n - i,
    {
        if buf[i] == 13 && buf[i + 1] == 10 {
            end = Some(i);
            break ;
        }
        i += 1;
    }
    let full = from_utf8_lossy(buf.as_slice());
    let lowered = lowercase(full.as_str());
    match end {
        Some(e) => {
            let line = from_utf8_lossy(vstd::slice::slice_subrange(buf.as_slice(), 0, e));
            assert(buf@.subrange(0, e as int) =~= buf@.take(e as int));
            judge_answer(Some(line.as_str()), lowered.as_str())
        },
        None => judge_answer(None, lowered.as_str()),
    }
}

// ---------------------------------------------------------------- Xray

/// The endpoints that tell the address under which they are reached.
pub open spec fn endpoints_for(ip: Ip) -> Seq<&'static str> {
    if ip is V4 {
        IPV4_ENDPOINTS@
    } else {
        IPV6_ENDPOINTS@
    }
}

/// The endpoints of the server's address family, in random order.
pub fn ip_endpoints(ip: &Ip) -> (v: Vec<&'static str>)
    ensures
        v@.to_multiset() == endpoints_for(*ip).to_multiset(),
        ip is V4 ==> v@.to_multiset() == IPV4_ENDPOINTS@.to_multiset(),
        ip is V6 ==> v@.to_multiset() == IPV6_ENDPOINTS@.to_multiset(),
{
    let all: [&'static str; 4] = match ip {
        Ip::V4(_, _, _, _) => IPV4_ENDPOINTS,
        Ip::V6(_, _, _, _, _, _, _, _) => IPV6_ENDPOINTS,
    };
    let mut v: Vec<&'static str> = Vec::new();
    let mut i: usize = 0;
    while i < 4
        invariant
            i <= 4,
            v@ == all@.take(i as int),
        decreases 4 - i,
    {
        v.push(all[i]);
        assert(all@.take(i + 1) =~= all@.take(i as int).push(all@[i as int]));
        i += 1;
    }
    assert(all@.take(4) =~= all@);
    shuffle(&mut v);
    v
}

/// How the attempts to reach the local proxy go on.
#[derive(Clone, Copy, Debug, PartialEq, Eq, Structural)]
pub enum ReachStep {
    Reached,
    /// After a pause it is tried once more.
    Again,
    Unreachable,
}

/// How often the local proxy is tried.
pub const PROXY_TRIES: u64 = 10;

/// What is said of a proxy that cannot be reached.
pub const PROXY_FAULT: &'static str =
    "The proxy couldn't be created via Xray binary, or it was unreachable.";

/// Decides how the attempts go on after one more, which succeeded or not, where
/// `tries` were made before it.
pub fn reach_step(tries: u64, connected: bool) -> (r: ReachStep)
    ensures
        r == (if connected {
            ReachStep::Reached
        } else if tries + 1 >= PROXY_TRIES {
            ReachStep::Unreachable
        } else {
            ReachStep::Again
        }),
{
    if connected {
        ReachStep::Reached
    } else if tries >= PROXY_TRIES - 1 {
        ReachStep::Unreachable
    } else {
        ReachStep::Again
    }
}

/// Where the comparison of addresses stands.
#[derive(Clone, Copy, Debug, PartialEq, Eq, Structural)]
pub enum IpStep {
    /// This many answers matched so far.
    Matched(u8),
    /// Two answers matched.
    Confirmed,
    /// An endpoint failed or none is left, before two answers matched.
    Unconfirmed,
}

/// The comparison after one more answer.
pub open spec fn ip_step_after(s: IpStep, answer: Option<Seq<char>>, ip: Seq<char>) -> IpStep {
    match (s, answer) {
        (IpStep::Matched(n), Some(a)) => if trimmed(a) == ip {
            if n >= 1 {
                IpStep::Confirmed
            } else {
                IpStep::Matched(1)
            }
        } else {
            s
        },
        (IpStep::Matched(_), None) => IpStep::Unconfirmed,
        _ => s,
    }
}

/// Takes the next answer of an endpoint; a missing one ends the comparison.
pub fn ip_step(s: IpStep, answer: Option<&str>, ip: &str) -> (r: IpStep)
    ensures
        r == ip_step_after(
            s,
            match answer {
                Some(a) => Some(a@),
                None => None,
            },
            ip@,
        ),
{
    match s {
        IpStep::Matched(n) => match answer {
            Some(a) => {
                if crate::text::str_eq(trim(a).as_str(), ip) {
                    if n >= 1 {
                        IpStep::Confirmed
                    } else {
                        IpStep::Matched(1)
                    }
                } else {
                    s
                }
            },
            None => IpStep::Unconfirmed,
        },
        _ => s,
    }
}

/// The comparison after a list of answers.
pub open spec fn ip_run(answers: Seq<Option<Seq<char>>>, ip: Seq<char>) -> IpStep
    decreases answers.len(),
{
    if answers.len() == 0 {
        IpStep::Matched(0)
    } else {
        ip_step_after(ip_run(answers.drop_last(), ip), answers.last(), ip)
    }
}

/// The answers are all there and match the address at these two places.
pub open spec fn two_match(answers: Seq<Option<Seq<char>>>, ip: Seq<char>, i: int, j: int) -> bool {
    &&& 0 <= i < j < answers.len()
    &&& forall|k: int| 0 <= k <= j ==> (#[trigger] answers[k]) is Some
    &&& trimmed(answers[i]->Some_0) == ip
    &&& trimmed(answers[j]->Some_0) == ip
}

/// An inbound is confirmed where two answers match the server's address before
/// any endpoint fails.
pub proof fn law_two_answers_confirm(answers: Seq<Option<Seq<char>>>, ip: Seq<char>)
    ensures
        ip_run(answers, ip) == IpStep::Confirmed <==> exists|i: int, j: int|
            two_match(answers, ip, i, j),
        ip_run(answers, ip) == IpStep::Matched(1) ==> exists|i: int|
            0 <= i < answers.len() && trimmed((#[trigger] answers[i])->Some_0) == ip,
        (ip_run(answers, ip) is Matched) ==> forall|k: int|
            0 <= k < answers.len() ==> (#[trigger] answers[k]) is Some,
        ip_run(answers, ip) is Matched ==> ip_run(answers, ip)->Matched_0 <= 1,
        ip_run(answers, ip) == IpStep::Matched(0) ==> forall|k: int|
            0 <= k < answers.len() ==> trimmed((#[trigger] answers[k])->Some_0) != ip,
    decreases answers.len(),
{
    if answers.len() > 0 {
        let front = answers.drop_last();
        let n = answers.len() - 1;
        law_two_answers_confirm(front, ip);
        assert forall|i: int, j: int| two_match(front, ip, i, j) implies two_match(
            answers,
            ip,
            i,
            j,
        ) by {
            assert forall|k: int| 0 <= k <= j implies (#[trigger] answers[k]) is Some by {
                assert(front[k] == answers[k]);
            }
        }
        assert forall|i: int, j: int|
            two_match(answers, ip, i, j) && j < n implies two_match(front, ip, i, j) by {
            assert forall|k: int| 0 <= k <= j implies (#[trigger] front[k]) is Some by {
                assert(front[k] == answers[k]);
            }
        }
        match ip_run(front, ip) {
            IpStep::Confirmed => {
                let (i, j) = choose|i: int, j: int| two_match(front, ip, i, j);
                assert(two_match(answers, ip, i, j));
            },
            IpStep::Matched(m) => {
                assert forall|k: int| 0 <= k < n implies (#[trigger] answers[k]) is Some by {
                    assert(front[k] == answers[k]);
                }
                if m == 1 {
                    let i = choose|i: int|
                        0 <= i < front.len() && trimmed((#[trigger] front[i])->Some_0) == ip;
                    assert(answers[i] == front[i]);
                    if answers.last() is Some && trimmed(answers.last()->Some_0) == ip {
                        assert(two_match(answers, ip, i, n));
                    }
                } else {
                    assert forall|k: int| 0 <= k < n implies trimmed(
                        (#[trigger] answers[k])->Some_0,
                    ) != ip by {
                        assert(front[k] == answers[k]);
                    }
                    assert(answers[n] == answers.last());
                }
                if ip_run(answers, ip) != IpStep::Confirmed {
                    assert forall|i: int, j: int| !two_match(answers, ip, i, j) by {
                        if two_match(answers, ip, i, j) {
                            if j < n {
                                assert(two_match(front, ip, i, j));
                            } else {
                                assert(answers[i] == front[i]);
                            }
                        }
                    }
                }
            },
            IpStep::Unconfirmed => {
                lemma_unconfirmed(front, ip);
                let q = choose|q: int| 0 <= q < front.len() && (#[trigger] front[q]) is None;
                assert(answers[q] is None);
                assert forall|i: int, j: int| !two_match(answers, ip, i, j) by {
                    if two_match(answers, ip, i, j) && j < n {
                        assert(two_match(front, ip, i, j));
                    }
                }
            },
        }
    }
}

/// A comparison that failed saw a missing answer, and no two matches before it.
proof fn lemma_unconfirmed(answers: Seq<Option<Seq<char>>>, ip: Seq<char>)
    requires
        ip_run(answers, ip) == IpStep::Unconfirmed,
    ensures
        exists|k: int| 0 <= k < answers.len() && (#[trigger] answers[k]) is None,
        forall|i: int, j: int| !two_match(answers, ip, i, j),
    decreases answers.len(),
{
    let front = answers.drop_last();
    let n = answers.len() - 1;
    if ip_run(front, ip) == IpStep::Unconfirmed {
        lemma_unconfirmed(front, ip);
        let k = choose|k: int| 0 <= k < front.len() && (#[trigger] front[k]) is None;
        assert(answers[k] is None);
        assert forall|i: int, j: int| !two_match(answers, ip, i, j) by {
            if two_match(answers, ip, i, j) {
                if j < n {
                    assert forall|q: int| 0 <= q <= j implies (#[trigger] front[q]) is Some by {
                        assert(front[q] == answers[q]);
                    }
                    assert(two_match(front, ip, i, j));
                } else {
                    assert(answers[k] is Some);
                }
            }
        }
    } else {
        law_two_answers_confirm(front, ip);
        assert(answers[n] is None);
        assert forall|i: int, j: int| !two_match(answers, ip, i, j) by {
            if two_match(answers, ip, i, j) {
                assert(answers[j] is Some);
                assert(j < n);
                assert forall|q: int| 0 <= q <= j implies (#[trigger] front[q]) is Some by {
                    assert(front[q] == answers[q]);
                }
                assert(two_match(front, ip, i, j));
            }
        }
    }
}

/// The outcome of the comparison.
pub fn ip_verdict(s: IpStep) -> (r: Result<(), String>)
    ensures
        match s {
            IpStep::Confirmed => r is Ok,
            _ => r matches Err(e) && e@ == "The returned IP is not the same as the server IP"@,
        },
{
    match s {
        IpStep::Confirmed => Ok(()),
        _ => Err("The returned IP is not the same as the server IP".to_owned()),
    }
}

/// What is needed to test an Xray service.
pub enum XrayTest {
    /// The supervisor: all inbounds of the server are looked at.
    Super,
    /// An inbound: its sublink, and the name of the file for it.
    Inbound(String, String),
}

pub open spec fn sublink_file_text(server: Seq<char>, inbound: Seq<char>) -> Seq<char> {
    "jsub_"@ + server + "_"@ + inbound + ".json"@
}

/// How an Xray service is tested.
pub fn check_xray(info: &SvcInfo) -> (r: Result<XrayTest, String>)
    ensures
        match info@.kind {
            SvcKindView::Xray(inbound) => if inbound == super_text() {
                r matches Ok(XrayTest::Super)
            } else {
                match info@.link {
                    Some(l) => r matches Ok(XrayTest::Inbound(link, file)) && link@ == l && file@
                        == sublink_file_text(info@.server.name, inbound) && file@ == "jsub_"@
                        + info@.server.name + "_"@ + inbound + ".json"@,
                    None => r matches Err(e) && e@
                        == "The link in an Xray service shouldn't be empty"@,
                }
            },
            _ => r matches Err(e) && e@ == "The service given is not an Xray one"@,
        },
{
    match &info.kind {
        SvcKind::Xray(inbound) => {
            if *inbound == SvcKind::super_name() {
                return Ok(XrayTest::Super);
            }
            match &info.link {
                Some(l) => {
                    let mut file = "jsub_".to_owned();
                    file.append(info.server.name.as_str());
                    file.append("_");
                    file.append(inbound.as_str());
                    file.append(".json");
                    Ok(XrayTest::Inbound(l.clone(), file))
                },
                None => Err("The link in an Xray service shouldn't be empty".to_owned()),
            }
        },
        _ => Err("The service given is not an Xray one".to_owned()),
    }
}

/// How a service is tested.
pub enum ServiceTest {
    /// The banner is read at this address.
    Ssh(String),
    /// A request is made over TLS at this address.
    Nginx(String),
    Xray(XrayTest),
}

/// Decides how a service is tested: SSH at the server's address, Nginx at the host
/// of the panel, and an inbound through its sublink.
pub fn check_service(info: &SvcInfo) -> (r: Result<ServiceTest, String>)
    ensures
        match info@.kind {
            SvcKindView::Ssh => r matches Ok(ServiceTest::Ssh(a)) && a@ == info@.server.ip.text
                + ":"@ + decimal(info@.port as nat),
            SvcKindView::Nginx => r matches Ok(ServiceTest::Nginx(a)) && a@ == ui_host(info@.server)
                + ":"@ + decimal(info@.port as nat) && a@ == info@.server.ui_subdomain + "."@
                + info@.server.domain + ":"@ + decimal(info@.port as nat),
            SvcKindView::Xray(inbound) => if inbound == super_text() {
                r matches Ok(ServiceTest::Xray(XrayTest::Super))
            } else {
                match info@.link {
                    Some(l) => r matches Ok(ServiceTest::Xray(XrayTest::Inbound(link, file)))
                        && link@ == l && file@ == sublink_file_text(info@.server.name, inbound) && file@
                        == "jsub_"@ + info@.server.name + "_"@ + inbound + ".json"@,
                    None => r matches Err(e) && e@
                        == "The link in an Xray service shouldn't be empty"@,
                }
            },
        },
{
    match &info.kind {
        SvcKind::Ssh => {
            let mut a = info.server.ip.text.clone();
            a.append(":");
            a.append(number(info.port as u64).as_str());
            Ok(ServiceTest::Ssh(a))
        },
        SvcKind::Nginx => {
            let mut a = info.server.uihostname();
            a.append(":");
            a.append(number(info.port as u64).as_str());
            Ok(ServiceTest::Nginx(a))
        },
        SvcKind::Xray(_) => match check_xray(info) {
            Ok(t) => Ok(ServiceTest::Xray(t)),
            Err(e) => Err(e),
        },
    }
}

/// A connection shows an SSH server exactly where its first bytes are a text that begins
/// with `SSH-`; otherwise the fault says what they are.
pub proof fn law_ssh_shows_its_banner(bytes: Seq<u8>)
    ensures
        banner_fault(bytes) is None <==> bytes.len() > 0 && vstd::utf8::valid_utf8(bytes)
            && "SSH-"@.is_prefix_of(vstd::utf8::decode_utf8(bytes)),
        bytes.len() == 0 ==> banner_fault(bytes) == Some("Connection closed before SSH banner."@),
        bytes.len() > 0 && !vstd::utf8::valid_utf8(bytes) ==> banner_fault(bytes) == Some(
            utf8_error_text(bytes),
        ),
        bytes.len() > 0 && vstd::utf8::valid_utf8(bytes) && !"SSH-"@.is_prefix_of(
            vstd::utf8::decode_utf8(bytes),
        ) ==> banner_fault(bytes) == Some("Not an SSH server."@),
{
    let t = vstd::utf8::decode_utf8(bytes);
    let p = "SSH-"@;
    if starts_with(t, p) {
        assert(t.subrange(0, p.len() as int) =~= p);
    }
    if p.is_prefix_of(t) {
        assert(t.subrange(0, p.len() as int) =~= p);
    }
}

/// The request goes to the health path, under the host name of the panel.
pub proof fn law_request_is_for_the_health_path(s: ServerView)
    ensures
        head_request_text(s) == "HEAD /"@ + s.secrets.health_path + " HTTP/1.1\r\nHost: "@
            + s.ui_subdomain + "."@ + s.domain + "\r\nUser-Agent: "@ + XCPLANE_AGENT@
            + "\r\nAccept: */*\r\nConnection: close\r\n\r\n"@,
{
    assert(head_request_text(s) =~= "HEAD /"@ + s.secrets.health_path + " HTTP/1.1\r\nHost: "@
        + s.ui_subdomain + "."@ + s.domain + "\r\nUser-Agent: "@ + XCPLANE_AGENT@
        + "\r\nAccept: */*\r\nConnection: close\r\n\r\n"@);
}

/// The headers are complete exactly where an empty line follows a line in them.
pub proof fn law_headers_end_with_an_empty_line(b: Seq<u8>)
    ensures
        headers_complete(b) <==> exists|i: int|
            0 <= i && i + 3 < b.len() && #[trigger] b[i] == 13 && b[i + 1] == 10 && b[i + 2] == 13
                && b[i + 3] == 10,
{
    if exists|i: int|
        0 <= i && i + 3 < b.len() && #[trigger] b[i] == 13 && b[i + 1] == 10 && b[i + 2] == 13 && b[i
            + 3] == 10 {
        let i = choose|i: int|
            0 <= i && i + 3 < b.len() && #[trigger] b[i] == 13 && b[i + 1] == 10 && b[i + 2] == 13
                && b[i + 3] == 10;
        assert(headers_end_at(b, i));
    }
    if headers_complete(b) {
        let i = choose|i: int| headers_end_at(b, i);
        assert(b[i] == 13);
    }
}

/// The status line is what stands before the first line end, and there is none without a
/// line end.
pub proof fn law_status_line_is_the_first_line(b: Seq<u8>, i: int)
    ensures
        0 <= i && i + 1 < b.len() && b[i] == 13 && b[i + 1] == 10 && (forall|j: int|
            0 <= j < i ==> !(#[trigger] b[j] == 13 && b[j + 1] == 10)) ==> status_line(b) == Some(
            lossy_text(b.take(i)),
        ),
        (forall|j: int| 0 <= j && j + 1 < b.len() ==> !(#[trigger] b[j] == 13 && b[j + 1] == 10))
            ==> status_line(b) is None,
{
    if 0 <= i && i + 1 < b.len() && b[i] == 13 && b[i + 1] == 10 && (forall|j: int|
        0 <= j < i ==> !(#[trigger] b[j] == 13 && b[j + 1] == 10)) {
        lemma_first_line_end(b, 0, i);
    }
    if forall|j: int| 0 <= j && j + 1 < b.len() ==> !(#[trigger] b[j] == 13 && b[j + 1] == 10) {
        lemma_no_line_end(b, 0);
    }
}

proof fn lemma_first_line_end(b: Seq<u8>, k: int, i: int)
    requires
        0 <= k <= i,
        line_end_at(b, i),
        forall|j: int| 0 <= j < i ==> !(#[trigger] b[j] == 13 && b[j + 1] == 10),
    ensures
        line_end_from(b, k) == Some(i),
    decreases i - k,
{
    if k < i {
        assert(!(b[k] == 13 && b[k + 1] == 10));
        lemma_first_line_end(b, k + 1, i);
    }
}

proof fn lemma_no_line_end(b: Seq<u8>, k: int)
    requires
        0 <= k,
        forall|j: int| 0 <= j && j + 1 < b.len() ==> !(#[trigger] b[j] == 13 && b[j + 1] == 10),
    ensures
        line_end_from(b, k) is None,
    decreases b.len() - k,
{
    if k + 1 < b.len() {
        assert(!(b[k] == 13 && b[k + 1] == 10));
        lemma_no_line_end(b, k + 1);
    }
}

/// Nginx is healthy exactly where it answers `200 OK` with the header that only the
/// origin sends. The other answers are told apart: none, one without the header, one of
/// the codes with which Cloudflare reports a sick origin, and any other.
pub proof fn law_only_the_origin_is_healthy(l: Seq<char>, lowered: Seq<char>)
    ensures
        answer_fault(None, lowered) == Some("No valid HTTP status line found in TLS response"@),
        answer_fault(Some(l), lowered) is None <==> has_text(l, "200 OK"@) && has_text(
            lowered,
            "x-health-verify: my-origin-server"@,
        ),
        has_text(l, "200 OK"@) && !has_text(lowered, "x-health-verify: my-origin-server"@)
            ==> answer_fault(Some(l), lowered) == Some(
            "Status 200 received, but the secret 'X-Health-Verify' header is missing (possible cache hit or wrong origin)"@,
        ),
        !has_text(l, "200 OK"@) ==> answer_fault(Some(l), lowered) == Some(
            if has_text(l, "520"@) || has_text(l, "521"@) || has_text(l, "522"@) || has_text(
                l,
                "523"@,
            ) || has_text(l, "524"@) || has_text(l, "525"@) || has_text(l, "526"@) || has_text(
                l,
                "527"@,
            ) {
                "Cloudflare edge is up, but Nginx is having issues: "@ + l
            } else {
                "HTTP Error: "@ + l
            },
        ),
{
}

} // verus!
