//! Calls to the API of the panel: what they are addressed to, how they are
//! authorized, and what is made of the answers.

use vstd::prelude::*;

use crate::cloud::server::{sub_host, ui_host};
use crate::outside::{join_url, joined_url, parse_url, url_of};
use crate::text::{chars_of, starts_with, str_starts_with};
use crate::types::{KetServer, ServerView};
use crate::xui::types::{ApiResponse, ClientStat, XuiApiInbound};

verus! {

/// Where the status of a server is asked for.
pub const STATUS_PATH: &'static str = "panel/api/server/status";

/// Where the database is downloaded from.
pub const DB_PATH: &'static str = "panel/api/server/getDb";

/// Where the inbounds are listed.
pub const INBOUNDS_PATH: &'static str = "panel/api/inbounds/list";

/// Where a session is opened.
pub const LOGIN_PATH: &'static str = "login";

/// Where the token is handed out that a login needs.
pub const CSRF_PATH: &'static str = "csrf-token";

// ---------------------------------------------------------------- access

/// The address of the panel, before it is parsed.
pub open spec fn panel_text(s: ServerView) -> Seq<char> {
    "https://"@ + ui_host(s) + "/"@ + s.secrets.xui_webpath + "/"@
}

pub open spec fn no_token_text(server: Seq<char>) -> Seq<char> {
    "'xui_token' is absent from secrets container of production server '"@ + server + "'"@
}

/// What is needed to call the panel of a server.
pub struct Xui {
    pub xui_url_global: String,
    pub xui_username: String,
    pub xui_password: String,
    pub xui_token: String,
}

impl KetServer {
    /// The address of the panel, before it is parsed.
    pub fn panel_address(&self) -> (r: String)
        ensures
            r@ == panel_text(self@),
    {
        let mut s = "https://".to_owned();
        let host = self.uihostname();
        s.append(host.as_str());
        s.append("/");
        s.append(self.secrets.xui_webpath.as_str());
        s.append("/");
        s
    }

    /// Collects what is needed to call the panel. A production server has the
    /// token of its panel.
    pub fn new_xui_client(&self) -> (r: Result<Xui, String>)
        ensures
            match self@.secrets.xui_token {
                None => r matches Err(e) && e@ == no_token_text(self@.name),
                Some(token) => match url_of(panel_text(self@)) {
                    Err(e) => r matches Err(m) && m@ == e,
                    Ok(url) => {
                        &&& r matches Ok(x)
                        &&& x.xui_url_global@ == url
                        &&& x.xui_username@ == self@.secrets.xui_username
                        &&& x.xui_password@ == self@.secrets.xui_password
                        &&& x.xui_token@ == token
                    },
                },
            },
    {
        let kept = self.secrets.xui_token.clone();
        let token = match kept.0 {
            Some(t) => t,
            None => {
                let mut e = "'xui_token' is absent from secrets container of production server '".to_owned();
                e.append(self.name.as_str());
                e.append("'");
                return Err(e);
            },
        };
        let address = self.panel_address();
        match parse_url(address.as_str()) {
            Err(e) => Err(e),
            Ok(url) => Ok(
                Xui {
                    xui_url_global: url,
                    xui_username: self.secrets.xui_username.clone(),
                    xui_password: self.secrets.xui_password.clone(),
                    xui_token: token,
                },
            ),
        }
    }
}

impl Xui {
    /// The address of a call.
    pub fn endpoint(&self, suburl: &str) -> (r: Result<String, String>)
        ensures
            match r {
                Ok(u) => joined_url(self.xui_url_global@, suburl@) == Ok::<Seq<char>, Seq<char>>(
                    u@,
                ),
                Err(e) => joined_url(self.xui_url_global@, suburl@) == Err::<Seq<char>, Seq<char>>(
                    e@,
                ),
            },
    {
        join_url(self.xui_url_global.as_str(), suburl)
    }
}

/// The token with which a login is made.
pub fn csrf_token(response: ApiResponse<String>) -> (r: Result<String, String>)
    ensures
        if response.success {
            r == Ok::<String, String>(response.obj)
        } else {
            r matches Err(e) && e@ == "Couldn't mint a CSRF token."@
        },
{
    if response.success {
        Ok(response.obj)
    } else {
        Err("Couldn't mint a CSRF token.".to_owned())
    }
}

// ---------------------------------------------------------------- sessions

/// What happens in a call with a session cookie. How often the session was
/// renewed tells whether another task has done so meanwhile.
#[derive(Clone, Copy, Debug, PartialEq, Eq, Structural)]
pub enum CookieEvent {
    /// The call starts; there is a session, or not.
    Started(bool),
    /// The login lock was taken before the first request; there is a session now, or
    /// not.
    LockTaken(bool),
    /// A login was made before the first request; there is a session, or not.
    LoggedIn(bool),
    /// The first request was answered with this status.
    Answered(u16),
    /// The session was looked up again: how often it was renewed, if there is
    /// one.
    Looked(Option<u64>),
    /// The login lock was taken to renew the session, which was then renewed so often.
    LockTakenAgain(Option<u64>),
    /// The session was renewed, here or by another task; there is one, or not.
    Renewed(bool),
    /// The second request was answered.
    AnsweredAgain,
}

/// What is done next in a call with a session cookie.
#[derive(Clone, Copy, Debug, PartialEq, Eq, Structural)]
pub enum CookieAction {
    /// Wait for the login lock, which one task holds at a time.
    TakeLock,
    /// Open the first session.
    Login,
    /// Send the request, and keep how often the session was renewed.
    Send,
    /// Look the session up again.
    Look,
    /// Wait for the login lock to renew the session.
    TakeLockAgain,
    /// Renew the session.
    Renew,
    /// Look up the session that another task has renewed.
    UseRenewed,
    /// Send the request once more.
    SendAgain,
    /// The answer stands.
    Done,
    /// There is no session where there must be one.
    Fail(CookieFault),
}

/// Where a session was missing.
#[derive(Clone, Copy, Debug, PartialEq, Eq, Structural)]
pub enum CookieFault {
    AfterLogin,
    Meanwhile,
}

/// The panel refuses with these statuses; it answers 404 so as not to show
/// itself.
pub open spec fn is_refusal(status: u16) -> bool {
    status == 401 || status == 403 || status == 404
}

/// The step after an event, where `before` is how often the session was renewed
/// when the first request was sent.
pub open spec fn cookie_step(before: u64, e: CookieEvent) -> CookieAction {
    match e {
        CookieEvent::Started(has) => if has {
            CookieAction::Send
        } else {
            CookieAction::TakeLock
        },
        CookieEvent::LockTaken(has) => if has {
            CookieAction::Send
        } else {
            CookieAction::Login
        },
        CookieEvent::LoggedIn(has) => if has {
            CookieAction::Send
        } else {
            CookieAction::Fail(CookieFault::AfterLogin)
        },
        CookieEvent::Answered(status) => if is_refusal(status) {
            CookieAction::Look
        } else {
            CookieAction::Done
        },
        CookieEvent::Looked(count) => match count {
            None => CookieAction::Fail(CookieFault::Meanwhile),
            Some(now) => if now != before {
                CookieAction::SendAgain
            } else {
                CookieAction::TakeLockAgain
            },
        },
        CookieEvent::LockTakenAgain(count) => match count {
            None => CookieAction::Fail(CookieFault::Meanwhile),
            Some(now) => if now == before {
                CookieAction::Renew
            } else {
                CookieAction::UseRenewed
            },
        },
        CookieEvent::Renewed(has) => if has {
            CookieAction::SendAgain
        } else {
            CookieAction::Fail(CookieFault::Meanwhile)
        },
        CookieEvent::AnsweredAgain => CookieAction::Done,
    }
}

/// Decides what is done next in a call with a session cookie: a refused request
/// is sent once more, with a session that only one of the waiting tasks renews.
pub fn xui_get_call_cookie(before: u64, e: CookieEvent) -> (r: CookieAction)
    ensures
        r == cookie_step(before, e),
{
    match e {
        CookieEvent::Started(has) => if has {
            CookieAction::Send
        } else {
            CookieAction::TakeLock
        },
        CookieEvent::LockTaken(has) => if has {
            CookieAction::Send
        } else {
            CookieAction::Login
        },
        CookieEvent::LoggedIn(has) => if has {
            CookieAction::Send
        } else {
            CookieAction::Fail(CookieFault::AfterLogin)
        },
        CookieEvent::Answered(status) => if status == 401 || status == 403 || status == 404 {
            CookieAction::Look
        } else {
            CookieAction::Done
        },
        CookieEvent::Looked(count) => match count {
            None => CookieAction::Fail(CookieFault::Meanwhile),
            Some(now) => if now != before {
                CookieAction::SendAgain
            } else {
                CookieAction::TakeLockAgain
            },
        },
        CookieEvent::LockTakenAgain(count) => match count {
            None => CookieAction::Fail(CookieFault::Meanwhile),
            Some(now) => if now == before {
                CookieAction::Renew
            } else {
                CookieAction::UseRenewed
            },
        },
        CookieEvent::Renewed(has) => if has {
            CookieAction::SendAgain
        } else {
            CookieAction::Fail(CookieFault::Meanwhile)
        },
        CookieEvent::AnsweredAgain => CookieAction::Done,
    }
}

/// The event is what can come of the action. What ends the call is followed by
/// nothing.
pub open spec fn cookie_answers(a: CookieAction, e: CookieEvent) -> bool {
    match a {
        CookieAction::TakeLock => e is LockTaken,
        CookieAction::Login => e is LoggedIn,
        CookieAction::Send => e is Answered,
        CookieAction::Look => e is Looked,
        CookieAction::TakeLockAgain => e is LockTakenAgain,
        CookieAction::Renew => e is Renewed,
        CookieAction::UseRenewed => e is Renewed,
        CookieAction::SendAgain => e is AnsweredAgain,
        CookieAction::Done => false,
        CookieAction::Fail(_) => false,
    }
}

/// The event at this place comes of the step after the one before it.
pub open spec fn cookie_follows(before: u64, c: Seq<CookieEvent>, i: int) -> bool {
    cookie_answers(cookie_step(before, c[i - 1]), c[i])
}

/// A course of a call with a session cookie, from its start on.
pub open spec fn is_cookie_course(before: u64, c: Seq<CookieEvent>) -> bool {
    &&& c.len() > 0
    &&& c[0] is Started
    &&& forall|i: int| 0 < i < c.len() ==> #[trigger] cookie_follows(before, c, i)
}

/// A task opens or renews a session only while it holds the login lock, and it
/// renews the one that its request was refused with.
pub proof fn law_login_needs_the_lock(before: u64, e: CookieEvent)
    ensures
        cookie_step(before, e) == CookieAction::Login <==> e == CookieEvent::LockTaken(false),
        cookie_step(before, e) == CookieAction::Renew <==> e == CookieEvent::LockTakenAgain(
            Some(before),
        ),
{
}

/// How far a call has come at the least.
spec fn cookie_rank(e: CookieEvent) -> int {
    match e {
        CookieEvent::Started(_) => 0,
        CookieEvent::LockTaken(_) => 1,
        CookieEvent::LoggedIn(_) => 2,
        CookieEvent::Answered(_) => 3,
        CookieEvent::Looked(_) => 4,
        CookieEvent::LockTakenAgain(_) => 5,
        CookieEvent::Renewed(_) => 6,
        CookieEvent::AnsweredAgain => 7,
    }
}

proof fn lemma_cookie_rank(before: u64, c: Seq<CookieEvent>, i: int, j: int)
    requires
        is_cookie_course(before, c),
        0 <= i <= j < c.len(),
    ensures
        cookie_rank(c[i]) + (j - i) <= cookie_rank(c[j]),
    decreases j - i,
{
    if i < j {
        lemma_cookie_rank(before, c, i, j - 1);
        assert(cookie_follows(before, c, j));
    }
}

/// A request is sent at most twice: the course of a call sends it once, and once
/// more at the most, after which the call is over.
pub proof fn law_requests_are_sent_twice_at_most(before: u64, c: Seq<CookieEvent>, i: int, j: int)
    requires
        is_cookie_course(before, c),
        0 <= i < j < c.len(),
    ensures
        !(c[i] is Answered && c[j] is Answered),
        !(c[i] is AnsweredAgain),
        c.len() <= 8,
{
    lemma_cookie_rank(before, c, i, j);
    lemma_cookie_rank(before, c, 0, c.len() - 1);
}

/// The message on a missing session.
pub fn cookie_fault(f: CookieFault) -> (r: String)
    ensures
        r@ == (match f {
            CookieFault::AfterLogin =>
                "Couldn't get the xui value in xui_get_call_cookie after login."@,
            CookieFault::Meanwhile => "Couldn't get the xui value in xui_get_call_cookie."@,
        }),
{
    match f {
        CookieFault::AfterLogin =>
            "Couldn't get the xui value in xui_get_call_cookie after login.".to_owned(),
        CookieFault::Meanwhile =>
            "Couldn't get the xui value in xui_get_call_cookie.".to_owned(),
    }
}

// ---------------------------------------------------------------- clients

/// So many spaces.
pub open spec fn spaces(n: nat) -> Seq<char> {
    Seq::new(n, |i: int| ' ')
}

/// The text, filled up with spaces to a width of 20; a longer one stays as it is.
pub open spec fn padded(s: Seq<char>) -> Seq<char> {
    if s.len() >= 20 {
        s
    } else {
        s + spaces((20 - s.len()) as nat)
    }
}

fn pad(s: &str) -> (r: String)
    ensures
        r@ == padded(s@),
{
    let v = chars_of(s);
    let mut r = s.to_owned();
    let mut n: usize = v.len();
    assert(r@ =~= s@ + spaces(0));
    while n < 20
        invariant
            v@.len() <= n,
            v@ == s@,
            n <= 20 || n == v@.len(),
            r@ == s@ + spaces((n - v@.len()) as nat),
        decreases 20 - n,
    {
        r.push(' ');
        n += 1;
        assert(r@ =~= s@ + spaces((n - v@.len()) as nat));
    }
    if v.len() >= 20 {
        assert(r@ =~= s@);
    }
    r
}

/// The gap between the columns of links.
pub const TAB: &'static str = "      ";

/// The line below the header.
pub const RULE: &'static str = "------------------------------------------------------------------------------------------------------------------------";

/// The prefix of the emails of the clients with which inbounds are tested.
pub const MOTHER_PREFIX: &'static str = "mother_inbound";

/// The client is listed: it is not one that only serves to test an inbound, and it
/// has a subscription.
pub open spec fn is_listed(c: ClientStat) -> bool {
    !starts_with(c.email@, MOTHER_PREFIX@) && c.sub_id@.len() > 0
}

/// The line of a client.
pub open spec fn client_line(
    remark: Seq<char>,
    c: ClientStat,
    links: Seq<char>,
    json_links: Seq<char>,
) -> Seq<char> {
    padded(remark) + padded(c.email@) + TAB@ + (links + c.sub_id@) + TAB@ + (json_links + c.sub_id@)
        + "\n"@
}

/// The lines of the first `k` clients of an inbound.
pub open spec fn client_lines(
    remark: Seq<char>,
    clients: Seq<ClientStat>,
    links: Seq<char>,
    json_links: Seq<char>,
    k: int,
) -> Seq<char>
    decreases k,
{
    if k <= 0 {
        Seq::empty()
    } else if is_listed(clients[k - 1]) {
        client_lines(remark, clients, links, json_links, k - 1) + client_line(
            remark,
            clients[k - 1],
            links,
            json_links,
        )
    } else {
        client_lines(remark, clients, links, json_links, k - 1)
    }
}

pub open spec fn table_head() -> Seq<char> {
    padded("inbound"@) + padded("email"@) + TAB@ + "sublink & json sublink\n"@ + RULE@ + "\n"@
}

/// The table after the first `k` inbounds.
pub open spec fn table_upto(
    inbounds: Seq<XuiApiInbound>,
    links: Seq<char>,
    json_links: Seq<char>,
    k: int,
) -> Seq<char>
    decreases k,
{
    if k <= 0 {
        table_head()
    } else {
        table_upto(inbounds, links, json_links, k - 1) + (client_lines(
            inbounds[k - 1].remark@,
            inbounds[k - 1].client_stats@,
            links,
            json_links,
            inbounds[k - 1].client_stats@.len() as int,
        ) + "\n"@)
    }
}

/// The start of a server's sublinks.
pub open spec fn link_text(s: ServerView, path: Seq<char>) -> Seq<char> {
    "https://"@ + sub_host(s) + "/"@ + path + "/"@
}

/// The table of the clients of a server.
pub open spec fn clients_table(s: ServerView, inbounds: Seq<XuiApiInbound>) -> Seq<char> {
    table_upto(
        inbounds,
        link_text(s, s.secrets.xui_subpath),
        link_text(s, s.secrets.xui_jsubpath),
        inbounds.len() as int,
    )
}

fn write_clients(inbound: &XuiApiInbound, links: &str, json_links: &str) -> (r: String)
    ensures
        r@ == client_lines(
            inbound.remark@,
            inbound.client_stats@,
            links@,
            json_links@,
            inbound.client_stats@.len() as int,
        ),
{
    let mut s = String::new();
    assert(s@ =~= Seq::empty());
    let mut i: usize = 0;
    while i < inbound.client_stats.len()
        invariant
            i <= inbound.client_stats@.len(),
            s@ == client_lines(
                inbound.remark@,
                inbound.client_stats@,
                links@,
                json_links@,
                i as int,
            ),
        decreases inbound.client_stats@.len() - i,
    {
        let c = &inbound.client_stats[i];
        let empty = {
            let v = chars_of(c.sub_id.as_str());
            v.len() == 0
        };
        if !str_starts_with(c.email.as_str(), MOTHER_PREFIX) && !empty {
            let mut line = pad(inbound.remark.as_str());
            let email = pad(c.email.as_str());
            line.append(email.as_str());
            line.append(TAB);
            let mut link = links.to_owned();
            link.append(c.sub_id.as_str());
            line.append(link.as_str());
            line.append(TAB);
            let mut json = json_links.to_owned();
            json.append(c.sub_id.as_str());
            line.append(json.as_str());
            line.append("\n");
            s.append(line.as_str());
        }
        i += 1;
    }
    s
}

impl KetServer {
    fn link_prefix(&self, path: &str) -> (r: String)
        ensures
            r@ == link_text(self@, path@),
    {
        let mut s = "https://".to_owned();
        let host = self.subhostname();
        s.append(host.as_str());
        s.append("/");
        s.append(path);
        s.append("/");
        s
    }

    /// Writes the table of the server's clients, with their sublinks, from the
    /// inbounds that the panel lists.
    pub fn xui_call_clients(&self, inbounds: &Vec<XuiApiInbound>) -> (r: String)
        ensures
            r@ == clients_table(self@, inbounds@),
    {
        let links = self.link_prefix(self.secrets.xui_subpath.as_str());
        let json_links = self.link_prefix(self.secrets.xui_jsubpath.as_str());
        let mut table = pad("inbound");
        let email = pad("email");
        table.append(email.as_str());
        table.append(TAB);
        table.append("sublink & json sublink\n");
        table.append(RULE);
        table.append("\n");
        let mut i: usize = 0;
        while i < inbounds.len()
            invariant
                i <= inbounds@.len(),
                table@ == table_upto(inbounds@, links@, json_links@, i as int),
            decreases inbounds@.len() - i,
        {
            let mut lines = write_clients(&inbounds[i], links.as_str(), json_links.as_str());
            lines.append("\n");
            table.append(lines.as_str());
            i += 1;
        }
        table
    }
}

// ---------------------------------------------------------------- the laws

/// A padded text begins with the text, is at least 20 characters wide, and has nothing
/// but spaces behind it, and none where the text is wide enough.
pub proof fn law_padding_keeps_the_text(t: Seq<char>)
    ensures
        padded(t).len() == (if t.len() < 20 {
            20
        } else {
            t.len()
        }),
        padded(t).take(t.len() as int) == t,
        forall|i: int| t.len() <= i < padded(t).len() ==> #[trigger] padded(t)[i] == ' ',
{
    assert(padded(t).take(t.len() as int) =~= t);
}

/// The client takes part in the table: its email is not that of a client that serves
/// to test an inbound, and it has a subscription.
pub open spec fn takes_part(c: ClientStat) -> bool {
    !"mother_inbound"@.is_prefix_of(c.email@) && c.sub_id@.len() > 0
}

/// The line of a client in the table of a server: the inbound, the email, the sublink
/// and the JSON sublink.
pub open spec fn listing(s: ServerView, remark: Seq<char>, c: ClientStat) -> Seq<char> {
    let host = "https://"@ + s.sub_subdomain + "."@ + s.domain + "/"@;
    padded(remark) + padded(c.email@) + "      "@ + host + s.secrets.xui_subpath + "/"@ + c.sub_id@
        + "      "@ + host + s.secrets.xui_jsubpath + "/"@ + c.sub_id@ + "\n"@
}

proof fn lemma_listing(s: ServerView, remark: Seq<char>, c: ClientStat)
    ensures
        is_listed(c) == takes_part(c),
        client_line(
            remark,
            c,
            link_text(s, s.secrets.xui_subpath),
            link_text(s, s.secrets.xui_jsubpath),
        ) == listing(s, remark, c),
{
    let p = "mother_inbound"@;
    if starts_with(c.email@, MOTHER_PREFIX@) {
        assert(c.email@.subrange(0, p.len() as int) =~= p);
    }
    assert(client_line(
        remark,
        c,
        link_text(s, s.secrets.xui_subpath),
        link_text(s, s.secrets.xui_jsubpath),
    ) =~= listing(s, remark, c));
}

proof fn lemma_same_lines(
    remark: Seq<char>,
    a: Seq<ClientStat>,
    b: Seq<ClientStat>,
    links: Seq<char>,
    json_links: Seq<char>,
    k: int,
)
    requires
        k <= a.len(),
        k <= b.len(),
        forall|i: int| 0 <= i < k ==> #[trigger] a[i] == b[i],
    ensures
        client_lines(remark, a, links, json_links, k) == client_lines(
            remark,
            b,
            links,
            json_links,
            k,
        ),
    decreases k,
{
    if k > 0 {
        lemma_same_lines(remark, a, b, links, json_links, k - 1);
        assert(a[k - 1] == b[k - 1]);
    }
}

proof fn lemma_same_table(
    a: Seq<XuiApiInbound>,
    b: Seq<XuiApiInbound>,
    links: Seq<char>,
    json_links: Seq<char>,
    k: int,
)
    requires
        k <= a.len(),
        k <= b.len(),
        forall|i: int| 0 <= i < k ==> #[trigger] a[i] == b[i],
    ensures
        table_upto(a, links, json_links, k) == table_upto(b, links, json_links, k),
    decreases k,
{
    if k > 0 {
        lemma_same_table(a, b, links, json_links, k - 1);
        assert(a[k - 1] == b[k - 1]);
    }
}

/// A table without inbounds has the header alone.
pub proof fn law_table_has_a_header(s: ServerView)
    ensures
        clients_table(s, Seq::empty()) == padded("inbound"@) + padded("email"@)
            + "      sublink & json sublink\n"@
            + "------------------------------------------------------------------------------------------------------------------------\n"@,
{
    reveal_strlit("      ");
    reveal_strlit("\n");
    reveal_strlit("sublink & json sublink\n");
    reveal_strlit("      sublink & json sublink\n");
    reveal_strlit(
        "------------------------------------------------------------------------------------------------------------------------",
    );
    reveal_strlit(
        "------------------------------------------------------------------------------------------------------------------------\n",
    );
    assert(TAB@ + "sublink & json sublink\n"@ =~= "      sublink & json sublink\n"@);
    assert(RULE@ + "\n"@
        =~= "------------------------------------------------------------------------------------------------------------------------\n"@);
    assert(clients_table(s, Seq::empty()) =~= padded("inbound"@) + padded("email"@) + (TAB@
        + "sublink & json sublink\n"@) + (RULE@ + "\n"@));
}

/// An inbound without clients, wherever it is added, adds an empty line and nothing
/// else.
pub proof fn law_inbound_adds_a_line(s: ServerView, a: Seq<XuiApiInbound>, x: XuiApiInbound)
    requires
        x.client_stats@.len() == 0,
    ensures
        clients_table(s, a.push(x)) == clients_table(s, a) + "\n"@,
{
    let links = link_text(s, s.secrets.xui_subpath);
    let json_links = link_text(s, s.secrets.xui_jsubpath);
    lemma_same_table(a.push(x), a, links, json_links, a.len() as int);
    assert(client_lines(x.remark@, x.client_stats@, links, json_links, 0) =~= Seq::empty());
    assert(Seq::<char>::empty() + "\n"@ =~= "\n"@);
}

/// A client that is added to the last inbound adds its line behind those of the
/// inbound's other clients, where it takes part, and nothing otherwise.
pub proof fn law_client_adds_its_line(
    s: ServerView,
    a: Seq<XuiApiInbound>,
    x: XuiApiInbound,
    y: XuiApiInbound,
    c: ClientStat,
)
    requires
        y.remark@ == x.remark@,
        y.client_stats@ == x.client_stats@.push(c),
    ensures
        clients_table(s, a.push(x)).len() > 0,
        clients_table(s, a.push(x)).last() == '\n',
        clients_table(s, a.push(y)) == clients_table(s, a.push(x)).drop_last() + (if takes_part(c) {
            listing(s, x.remark@, c)
        } else {
            Seq::empty()
        }) + "\n"@,
{
    reveal_strlit("\n");
    let links = link_text(s, s.secrets.xui_subpath);
    let json_links = link_text(s, s.secrets.xui_jsubpath);
    let n = a.len() as int;
    let k = x.client_stats@.len() as int;
    lemma_same_table(a.push(x), a, links, json_links, n);
    lemma_same_table(a.push(y), a, links, json_links, n);
    lemma_same_lines(x.remark@, y.client_stats@, x.client_stats@, links, json_links, k);
    lemma_listing(s, x.remark@, c);
    let t = table_upto(a, links, json_links, n);
    let l = client_lines(x.remark@, x.client_stats@, links, json_links, k);
    assert(y.client_stats@[k] == c);
    assert(clients_table(s, a.push(x)) == t + (l + "\n"@));
    assert(clients_table(s, a.push(x)).drop_last() =~= t + l);
    if takes_part(c) {
        assert(clients_table(s, a.push(y)) == t + ((l + listing(s, x.remark@, c)) + "\n"@));
        assert(t + ((l + listing(s, x.remark@, c)) + "\n"@) =~= t + l + listing(s, x.remark@, c)
            + "\n"@);
    } else {
        assert(clients_table(s, a.push(y)) == t + (l + "\n"@));
        assert(t + (l + "\n"@) =~= t + l + Seq::<char>::empty() + "\n"@);
    }
}

/// The part of the text from this place on.
pub open spec fn stands_at(text: Seq<char>, part: Seq<char>, p: int) -> bool {
    0 <= p && p + part.len() <= text.len() && text.subrange(p, p + part.len()) == part
}

proof fn lemma_lines_grow(
    remark: Seq<char>,
    clients: Seq<ClientStat>,
    links: Seq<char>,
    json_links: Seq<char>,
    j: int,
    k: int,
)
    requires
        0 <= j <= k,
    ensures
        client_lines(remark, clients, links, json_links, j).is_prefix_of(
            client_lines(remark, clients, links, json_links, k),
        ),
    decreases k,
{
    if j < k {
        lemma_lines_grow(remark, clients, links, json_links, j, k - 1);
        let a = client_lines(remark, clients, links, json_links, j);
        let b = client_lines(remark, clients, links, json_links, k - 1);
        let c = client_lines(remark, clients, links, json_links, k);
        assert(b.subrange(0, a.len() as int) =~= a);
        assert(c.subrange(0, a.len() as int) =~= b.subrange(0, a.len() as int));
    } else {
        let a = client_lines(remark, clients, links, json_links, j);
        assert(a.subrange(0, a.len() as int) =~= a);
    }
}

proof fn lemma_table_grows(
    inbounds: Seq<XuiApiInbound>,
    links: Seq<char>,
    json_links: Seq<char>,
    i: int,
    k: int,
)
    requires
        0 <= i <= k,
    ensures
        table_upto(inbounds, links, json_links, i).is_prefix_of(
            table_upto(inbounds, links, json_links, k),
        ),
    decreases k,
{
    let a = table_upto(inbounds, links, json_links, i);
    if i < k {
        lemma_table_grows(inbounds, links, json_links, i, k - 1);
        let b = table_upto(inbounds, links, json_links, k - 1);
        let c = table_upto(inbounds, links, json_links, k);
        assert(b.subrange(0, a.len() as int) =~= a);
        assert(c.subrange(0, a.len() as int) =~= b.subrange(0, a.len() as int));
    } else {
        assert(a.subrange(0, a.len() as int) =~= a);
    }
}

/// Where the line of a client begins.
spec fn line_place(s: ServerView, inbounds: Seq<XuiApiInbound>, i: int, j: int) -> int {
    let links = link_text(s, s.secrets.xui_subpath);
    let json_links = link_text(s, s.secrets.xui_jsubpath);
    (table_upto(inbounds, links, json_links, i).len() + client_lines(
        inbounds[i].remark@,
        inbounds[i].client_stats@,
        links,
        json_links,
        j,
    ).len()) as int
}

proof fn lemma_line_place(s: ServerView, inbounds: Seq<XuiApiInbound>, i: int, j: int)
    requires
        0 <= i < inbounds.len(),
        0 <= j < inbounds[i].client_stats@.len(),
        takes_part(inbounds[i].client_stats@[j]),
    ensures
        ({
            let line = listing(s, inbounds[i].remark@, inbounds[i].client_stats@[j]);
            let links = link_text(s, s.secrets.xui_subpath);
            let json_links = link_text(s, s.secrets.xui_jsubpath);
            let p = line_place(s, inbounds, i, j);
            &&& stands_at(clients_table(s, inbounds), line, p)
            &&& p + line.len() == table_upto(inbounds, links, json_links, i).len() + client_lines(
                inbounds[i].remark@,
                inbounds[i].client_stats@,
                links,
                json_links,
                j + 1,
            ).len()
            &&& p + line.len() < table_upto(inbounds, links, json_links, i + 1).len()
        }),
{
    reveal_strlit("\n");
    let x = inbounds[i];
    let links = link_text(s, s.secrets.xui_subpath);
    let json_links = link_text(s, s.secrets.xui_jsubpath);
    let n = inbounds.len() as int;
    let k = x.client_stats@.len() as int;
    let line = listing(s, x.remark@, x.client_stats@[j]);
    let p = line_place(s, inbounds, i, j);
    lemma_listing(s, x.remark@, x.client_stats@[j]);
    lemma_lines_grow(x.remark@, x.client_stats@, links, json_links, j + 1, k);
    lemma_table_grows(inbounds, links, json_links, i + 1, n);
    let before = client_lines(x.remark@, x.client_stats@, links, json_links, j);
    let upto = client_lines(x.remark@, x.client_stats@, links, json_links, j + 1);
    let all = client_lines(x.remark@, x.client_stats@, links, json_links, k);
    let t = table_upto(inbounds, links, json_links, i);
    let u = table_upto(inbounds, links, json_links, i + 1);
    let w = clients_table(s, inbounds);
    assert(upto == before + line);
    assert(upto == all.subrange(0, upto.len() as int));
    assert(u == t + (all + "\n"@));
    assert(u == w.subrange(0, u.len() as int));
    assert forall|q: int| 0 <= q < line.len() implies w.subrange(p, p + line.len())[q] == line[q] by {
        assert(w[p + q] == u[p + q]);
        assert(u[p + q] == all[before.len() + q]);
        assert(all[before.len() + q] == upto[before.len() + q]);
    }
    assert(w.subrange(p, p + line.len()) =~= line);
}

/// The table has a line for every client of every inbound that takes part: the name of
/// the inbound, the email, and the two links that end in its subscription identifier.
pub proof fn law_every_client_is_listed(s: ServerView, inbounds: Seq<XuiApiInbound>, i: int, j: int)
    requires
        0 <= i < inbounds.len(),
        0 <= j < inbounds[i].client_stats@.len(),
        takes_part(inbounds[i].client_stats@[j]),
    ensures
        exists|p: int| #[trigger]
            stands_at(
                clients_table(s, inbounds),
                listing(s, inbounds[i].remark@, inbounds[i].client_stats@[j]),
                p,
            ),
{
    lemma_line_place(s, inbounds, i, j);
}

/// The lines come in the order of the inbounds, and those of an inbound in the order of
/// its clients.
pub proof fn law_clients_come_in_order(
    s: ServerView,
    inbounds: Seq<XuiApiInbound>,
    i: int,
    j: int,
    k: int,
    l: int,
)
    requires
        0 <= i < inbounds.len(),
        0 <= j < inbounds[i].client_stats@.len(),
        takes_part(inbounds[i].client_stats@[j]),
        0 <= k < inbounds.len(),
        0 <= l < inbounds[k].client_stats@.len(),
        takes_part(inbounds[k].client_stats@[l]),
        i < k || (i == k && j < l),
    ensures
        exists|p: int, q: int|
            #[trigger] stands_at(
                clients_table(s, inbounds),
                listing(s, inbounds[i].remark@, inbounds[i].client_stats@[j]),
                p,
            ) && #[trigger] stands_at(
                clients_table(s, inbounds),
                listing(s, inbounds[k].remark@, inbounds[k].client_stats@[l]),
                q,
            ) && p + listing(s, inbounds[i].remark@, inbounds[i].client_stats@[j]).len() <= q,
{
    let links = link_text(s, s.secrets.xui_subpath);
    let json_links = link_text(s, s.secrets.xui_jsubpath);
    lemma_line_place(s, inbounds, i, j);
    lemma_line_place(s, inbounds, k, l);
    if i < k {
        lemma_table_grows(inbounds, links, json_links, i + 1, k);
    } else {
        lemma_lines_grow(
            inbounds[i].remark@,
            inbounds[i].client_stats@,
            links,
            json_links,
            j + 1,
            l,
        );
    }
    let p = line_place(s, inbounds, i, j);
    let q = line_place(s, inbounds, k, l);
    assert(p + listing(s, inbounds[i].remark@, inbounds[i].client_stats@[j]).len() <= q);
}

/// The panel of a server is at its panel host, below the secret path.
pub proof fn law_panel_is_at_its_host(s: ServerView)
    ensures
        panel_text(s) == "https://"@ + s.ui_subdomain + "."@ + s.domain + "/"@
            + s.secrets.xui_webpath + "/"@,
{
    assert(panel_text(s) =~= "https://"@ + s.ui_subdomain + "."@ + s.domain + "/"@
        + s.secrets.xui_webpath + "/"@);
}

/// A call with a session goes on until its request is answered: it is sent as soon as
/// there is a session, an answer that is no refusal ends it, and a refused request is
/// sent once more with a session that was renewed since.
pub proof fn law_calls_make_progress(before: u64, e: CookieEvent)
    ensures
        cookie_step(before, e) == CookieAction::Send <==> e == CookieEvent::Started(true) || e
            == CookieEvent::LockTaken(true) || e == CookieEvent::LoggedIn(true),
        cookie_step(before, e) == CookieAction::TakeLock <==> e == CookieEvent::Started(false),
        cookie_step(before, e) == CookieAction::Look <==> e == CookieEvent::Answered(401) || e
            == CookieEvent::Answered(403) || e == CookieEvent::Answered(404),
        cookie_step(before, e) == CookieAction::Done <==> e is AnsweredAgain || (e is Answered
            && e->Answered_0 != 401 && e->Answered_0 != 403 && e->Answered_0 != 404),
        cookie_step(before, e) == CookieAction::SendAgain <==> e == CookieEvent::Renewed(true) || (
        e is Looked && e->Looked_0 is Some && e->Looked_0 != Some(before)),
        cookie_step(before, e) == CookieAction::TakeLockAgain <==> e == CookieEvent::Looked(
            Some(before),
        ),
        cookie_step(before, e) == CookieAction::UseRenewed <==> e is LockTakenAgain
            && e->LockTakenAgain_0 is Some && e->LockTakenAgain_0 != Some(before),
        cookie_step(before, e) == CookieAction::Fail(CookieFault::AfterLogin) <==> e
            == CookieEvent::LoggedIn(false),
        cookie_step(before, e) == CookieAction::Fail(CookieFault::Meanwhile) <==> e
            == CookieEvent::Looked(None) || e == CookieEvent::LockTakenAgain(None) || e
            == CookieEvent::Renewed(false),
{
}

} // verus!
