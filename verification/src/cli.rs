//! The command line: commands, their options, and the forms of the replies.

use vstd::prelude::*;

use crate::daemon::{DaemonComm, DaemonReply};
use crate::types::{SvcHealth, SvcKind, SvcKindView};

verus! {

/// The arguments of the program.
#[derive(Debug)]
pub struct CommArgs {
    pub mode: Option<CliComm>,
}

/// The commands of the program.
#[derive(Debug)]
pub enum CliComm {
    /// Starts in daemon mode.
    Daemon,
    /// Checks the cloud configuration file.
    Check,
    /// Restores the stored cloud configuration.
    Restore,
    /// Rebuilds the workspace, checks the prerequisites and does a Reload.
    Restart,
    /// Shuts the daemon down.
    Shutdown,
    /// Applies a new declaration to Offgrid servers alone, apart from enabling
    /// and disabling.
    Reload,
    /// Applies a new declaration without any remote action.
    Remap,
    /// Applies a new declaration with the remote actions that it needs.
    Rebase(RebaseOpts),
    /// Asks for the health of the cloud.
    Status(StatusOpts),
    /// Forgets the repairs that were tried.
    ResetFix,
    /// Provisions an enabled Offgrid server.
    Expand(ExpandOpts),
    /// Shows the credentials of the production servers.
    Creds(ShowSecrets),
    /// Shows the clients of the production servers.
    Clients,
}

/// Whether a Rebase may remove inbounds.
#[derive(Clone, Copy, Debug, PartialEq, Eq, Structural)]
pub struct RebaseOpts {
    pub forced: bool,
}

/// Whether user names, passwords and tokens are shown beside the links.
#[derive(Clone, Copy, Debug, PartialEq, Eq, Structural)]
pub struct ShowSecrets {
    pub show_all: bool,
}

/// The server with which the cloud is expanded, where one is named.
#[derive(Debug)]
pub struct ExpandOpts {
    pub server: Option<String>,
}

impl ExpandOpts {
    pub open spec fn name(self) -> Option<Seq<char>> {
        crate::text::opt_text(self.server)
    }
}

/// Whether the whole summary is shown.
#[derive(Clone, Copy, Debug, PartialEq, Eq, Structural)]
pub struct StatusOpts {
    pub full: bool,
}

// ---------------------------------------------------------------- summaries

/// The health of a service of a server.
pub struct SvcSummary {
    pub service: SvcKind,
    pub server: String,
    pub health: SvcHealth,
}

#[verifier::ext_equal]
pub struct SvcSummaryView {
    pub service: SvcKindView,
    pub server: Seq<char>,
    pub health: SvcHealth,
}

impl View for SvcSummary {
    type V = SvcSummaryView;

    open spec fn view(&self) -> SvcSummaryView {
        SvcSummaryView { service: self.service@, server: self.server@, health: self.health }
    }
}

/// The health of a service, by the name under which it is shown.
#[derive(Debug)]
pub struct SvcHealthSummary {
    pub service: String,
    pub health: SvcHealth,
}

#[verifier::ext_equal]
pub struct SvcHealthSummaryView {
    pub service: Seq<char>,
    pub health: SvcHealth,
}

impl View for SvcHealthSummary {
    type V = SvcHealthSummaryView;

    open spec fn view(&self) -> SvcHealthSummaryView {
        SvcHealthSummaryView { service: self.service@, health: self.health }
    }
}

pub open spec fn health_views(s: Seq<SvcHealthSummary>) -> Seq<SvcHealthSummaryView> {
    s.map_values(|h: SvcHealthSummary| h@)
}

/// The health of the services of a server.
#[derive(Debug)]
pub struct ServerSummary {
    pub server: String,
    pub services: Vec<SvcHealthSummary>,
}

#[verifier::ext_equal]
pub struct ServerSummaryView {
    pub server: Seq<char>,
    pub services: Seq<SvcHealthSummaryView>,
}

impl View for ServerSummary {
    type V = ServerSummaryView;

    open spec fn view(&self) -> ServerSummaryView {
        ServerSummaryView { server: self.server@, services: health_views(self.services@) }
    }
}

pub open spec fn server_summary_views(s: Seq<ServerSummary>) -> Seq<ServerSummaryView> {
    s.map_values(|x: ServerSummary| x@)
}

/// A task, and whether it is running.
#[derive(Debug)]
pub struct TaskSummary {
    pub task: String,
    pub running: bool,
}

#[verifier::ext_equal]
pub struct TaskSummaryView {
    pub task: Seq<char>,
    pub running: bool,
}

impl View for TaskSummary {
    type V = TaskSummaryView;

    open spec fn view(&self) -> TaskSummaryView {
        TaskSummaryView { task: self.task@, running: self.running }
    }
}

pub open spec fn task_summary_views(s: Seq<TaskSummary>) -> Seq<TaskSummaryView> {
    s.map_values(|x: TaskSummary| x@)
}

/// The health of the cloud.
#[derive(Debug)]
pub struct CloudSummary {
    pub tasks: Vec<TaskSummary>,
    pub cloud: Vec<ServerSummary>,
}

#[verifier::ext_equal]
pub struct CloudSummaryView {
    pub tasks: Seq<TaskSummaryView>,
    pub cloud: Seq<ServerSummaryView>,
}

impl View for CloudSummary {
    type V = CloudSummaryView;

    open spec fn view(&self) -> CloudSummaryView {
        CloudSummaryView {
            tasks: task_summary_views(self.tasks@),
            cloud: server_summary_views(self.cloud@),
        }
    }
}

/// The links of a server, and its secrets where they are asked for.
#[derive(Debug)]
pub struct ServerCreds {
    pub doh: String,
    pub ui: String,
    pub xui_username: Option<String>,
    pub xui_password: Option<String>,
    pub xui_token: Option<String>,
}

#[verifier::ext_equal]
pub struct ServerCredsView {
    pub doh: Seq<char>,
    pub ui: Seq<char>,
    pub xui_username: Option<Seq<char>>,
    pub xui_password: Option<Seq<char>>,
    pub xui_token: Option<Seq<char>>,
}

impl View for ServerCreds {
    type V = ServerCredsView;

    open spec fn view(&self) -> ServerCredsView {
        ServerCredsView {
            doh: self.doh@,
            ui: self.ui@,
            xui_username: crate::text::opt_text(self.xui_username),
            xui_password: crate::text::opt_text(self.xui_password),
            xui_token: crate::text::opt_text(self.xui_token),
        }
    }
}

// ---------------------------------------------------------------- replies

/// The format of a reply that is not plain text.
#[derive(Clone, Copy, Debug, PartialEq, Eq, Structural)]
pub enum ReplyFormat {
    Toml,
    Json,
}

/// What is sent back through the socket.
pub enum SocketMessage {
    Reply(DaemonReply),
    Failure(String),
}

/// How a message is written.
pub enum SocketForm {
    /// As this text.
    Plain(String),
    Toml,
    Json,
}

impl SocketMessage {
    /// The message for a response of the daemon.
    pub fn of(response: Result<DaemonReply, String>) -> (r: Self)
        ensures
            r == (match response {
                Ok(reply) => SocketMessage::Reply(reply),
                Err(e) => SocketMessage::Failure(e),
            }),
    {
        match response {
            Ok(reply) => SocketMessage::Reply(reply),
            Err(e) => SocketMessage::Failure(e),
        }
    }

    /// Decides how the message is written: a message as it is, credentials and
    /// clients in TOML, everything else in JSON.
    pub fn serialize_pretty(&self) -> (r: SocketForm)
        ensures
            match *self {
                SocketMessage::Reply(DaemonReply::Message(m)) => r matches SocketForm::Plain(t)
                    && t@ == m@,
                SocketMessage::Reply(DaemonReply::Credentials(_)) => r is Toml,
                SocketMessage::Reply(DaemonReply::Clients(_)) => r is Toml,
                _ => r is Json,
            },
    {
        match self {
            SocketMessage::Reply(DaemonReply::Message(m)) => SocketForm::Plain(m.clone()),
            SocketMessage::Reply(reply) => match reply.reply_format() {
                ReplyFormat::Toml => SocketForm::Toml,
                ReplyFormat::Json => SocketForm::Json,
            },
            SocketMessage::Failure(_) => SocketForm::Json,
        }
    }
}

/// The command of the daemon that a command of the program stands for.
pub open spec fn command_of(c: CliComm) -> DaemonComm {
    match c {
        CliComm::Restart => DaemonComm::Restart,
        CliComm::Shutdown => DaemonComm::Shutdown,
        CliComm::Status(o) => DaemonComm::Status(o),
        CliComm::Reload => DaemonComm::Reload,
        CliComm::Remap => DaemonComm::Remap,
        CliComm::Rebase(o) => DaemonComm::Rebase(o),
        CliComm::ResetFix => DaemonComm::ResetFix,
        CliComm::Expand(o) => DaemonComm::Expand(o),
        CliComm::Creds(o) => DaemonComm::Credentials(o),
        CliComm::Clients => DaemonComm::Clients,
        CliComm::Daemon => DaemonComm::Unknown,
        CliComm::Check => DaemonComm::Unknown,
        CliComm::Restore => DaemonComm::Unknown,
    }
}

/// Where a command is carried out.
#[derive(Clone, Copy, Debug, PartialEq, Eq, Structural)]
pub enum CommandPlace {
    /// In this process, which becomes the daemon.
    Daemon,
    /// In this process, which checks the configuration.
    Check,
    /// In this process, which restores the configuration.
    Restore,
    /// In the running daemon.
    Socket,
}

impl CommArgs {
    /// The command of the arguments: without one the program is the daemon.
    pub fn command(self) -> (r: CliComm)
        ensures
            r == (match self.mode {
                Some(c) => c,
                None => CliComm::Daemon,
            }),
    {
        match self.mode {
            Some(c) => c,
            None => CliComm::Daemon,
        }
    }
}

impl CliComm {
    /// The command that is sent to the daemon. Those that need no running daemon
    /// are unknown to it.
    pub fn daemon_command(self) -> (r: DaemonComm)
        ensures
            r == command_of(self),
    {
        match self {
            CliComm::Restart => DaemonComm::Restart,
            CliComm::Shutdown => DaemonComm::Shutdown,
            CliComm::Status(status_opts) => DaemonComm::Status(status_opts),
            CliComm::Reload => DaemonComm::Reload,
            CliComm::Remap => DaemonComm::Remap,
            CliComm::Rebase(rebase_opts) => DaemonComm::Rebase(rebase_opts),
            CliComm::ResetFix => DaemonComm::ResetFix,
            CliComm::Expand(expand_opts) => DaemonComm::Expand(expand_opts),
            CliComm::Creds(show_secrets) => DaemonComm::Credentials(show_secrets),
            CliComm::Clients => DaemonComm::Clients,
            CliComm::Daemon => DaemonComm::Unknown,
            CliComm::Check => DaemonComm::Unknown,
            CliComm::Restore => DaemonComm::Unknown,
        }
    }

    /// Where the command is carried out.
    pub fn place(&self) -> (r: CommandPlace)
        ensures
            r == (match *self {
                CliComm::Daemon => CommandPlace::Daemon,
                CliComm::Check => CommandPlace::Check,
                CliComm::Restore => CommandPlace::Restore,
                _ => CommandPlace::Socket,
            }),
            r is Socket <==> !(command_of(*self) is Unknown),
    {
        match self {
            CliComm::Daemon => CommandPlace::Daemon,
            CliComm::Check => CommandPlace::Check,
            CliComm::Restore => CommandPlace::Restore,
            _ => CommandPlace::Socket,
        }
    }
}

/// How a reply is shown to the user: on the terminal, or in a pager, so that no
/// secrets are left there.
#[derive(Clone, Copy, Debug, PartialEq, Eq, Structural)]
pub enum ReplyDisplay {
    Print,
    Pager,
}

/// Decides how the reply to a command is shown.
pub fn process_socket_reply(clicomm: &CliComm) -> (r: ReplyDisplay)
    ensures
        r == (match *clicomm {
            CliComm::Creds(_) => ReplyDisplay::Pager,
            CliComm::Clients => ReplyDisplay::Pager,
            _ => ReplyDisplay::Print,
        }),
{
    match clicomm {
        CliComm::Creds(_) => ReplyDisplay::Pager,
        CliComm::Clients => ReplyDisplay::Pager,
        _ => ReplyDisplay::Print,
    }
}

/// The report on a check of the cloud configuration.
pub fn check_config(fault: &Option<String>) -> (r: String)
    ensures
        r@ == (match *fault {
            None => "The cloud config is Ok."@,
            Some(e) => "Error in cloud config: "@ + e@,
        }),
{
    match fault {
        None => "The cloud config is Ok.".to_owned(),
        Some(e) => {
            let mut s = "Error in cloud config: ".to_owned();
            s.append(e.as_str());
            s
        },
    }
}

/// A command of the program that concerns the daemon is handed to it as it is, with its
/// options.
pub proof fn law_commands_reach_the_daemon(c: CliComm)
    ensures
        c is Restart ==> command_of(c) is Restart,
        c is Shutdown ==> command_of(c) is Shutdown,
        c is Status ==> command_of(c) == DaemonComm::Status(c->Status_0),
        c is Reload ==> command_of(c) is Reload,
        c is Remap ==> command_of(c) is Remap,
        c is Rebase ==> command_of(c) == DaemonComm::Rebase(c->Rebase_0),
        c is ResetFix ==> command_of(c) is ResetFix,
        c is Expand ==> command_of(c) == DaemonComm::Expand(c->Expand_0),
        c is Creds ==> command_of(c) == DaemonComm::Credentials(c->Creds_0),
        c is Clients ==> command_of(c) is Clients,
        c is Daemon || c is Check || c is Restore ==> command_of(c) is Unknown,
{
}

} // verus!
