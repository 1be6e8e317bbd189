//! The daemon: its commands, its replies, and what it decides between them.

use vstd::prelude::*;

use crate::cli::{
    CloudSummary, ExpandOpts, RebaseOpts, ReplyFormat, ServerCreds, ShowSecrets, StatusOpts,
};
use crate::strmap::StrMap;
use crate::types::TaskEntry;

pub mod cycle;
pub mod laws;
pub mod lock;
pub mod plan;
pub mod report;
pub mod startup;

verus! {

/// The commands of the daemon.
pub enum DaemonComm {
    Reload,
    Remap,
    Rebase(RebaseOpts),
    Status(StatusOpts),
    Shutdown,
    Restart,
    ResetFix,
    Expand(ExpandOpts),
    Credentials(ShowSecrets),
    Clients,
    /// Forget the entry, and tell whether another setup or destruction is under
    /// way.
    SetupInquiry(TaskEntry),
    Unknown,
}

/// The replies of the daemon.
pub enum DaemonReply {
    Message(String),
    Status(CloudSummary),
    Credentials(StrMap<ServerCreds>),
    Clients(StrMap<String>),
    SetupInquiry(bool),
}

/// How a command is called in messages and backups.
pub open spec fn comm_text(c: DaemonComm) -> Seq<char> {
    match c {
        DaemonComm::Unknown => "Unknown"@,
        DaemonComm::Expand(o) => match o.server {
            Some(name) => "Expand on "@ + name@,
            None => "Expand"@,
        },
        DaemonComm::Rebase(o) => if o.forced {
            "Forced Rebase"@
        } else {
            "Rebase"@
        },
        DaemonComm::Reload => "Reload"@,
        DaemonComm::Remap => "Remap"@,
        DaemonComm::ResetFix => "ResetFix"@,
        DaemonComm::Restart => "Restart"@,
        DaemonComm::Shutdown => "Shutdown"@,
        DaemonComm::Status(o) => if o.full {
            "Full Status"@
        } else {
            "Status"@
        },
        DaemonComm::Credentials(o) => if o.show_all {
            "Credentials-All"@
        } else {
            "Credentials"@
        },
        DaemonComm::Clients => "Clients"@,
        DaemonComm::SetupInquiry(_) => "SetupInquiry"@,
    }
}

impl DaemonComm {
    /// How the command is called.
    pub fn to_string(&self) -> (r: String)
        ensures
            r@ == comm_text(*self),
    {
        match self {
            DaemonComm::Unknown => "Unknown".to_owned(),
            DaemonComm::Expand(o) => match &o.server {
                Some(name) => {
                    let mut s = "Expand on ".to_owned();
                    s.append(name.as_str());
                    s
                },
                None => "Expand".to_owned(),
            },
            DaemonComm::Rebase(o) => if o.forced {
                "Forced Rebase".to_owned()
            } else {
                "Rebase".to_owned()
            },
            DaemonComm::Reload => "Reload".to_owned(),
            DaemonComm::Remap => "Remap".to_owned(),
            DaemonComm::ResetFix => "ResetFix".to_owned(),
            DaemonComm::Restart => "Restart".to_owned(),
            DaemonComm::Shutdown => "Shutdown".to_owned(),
            DaemonComm::Status(o) => if o.full {
                "Full Status".to_owned()
            } else {
                "Status".to_owned()
            },
            DaemonComm::Credentials(o) => if o.show_all {
                "Credentials-All".to_owned()
            } else {
                "Credentials".to_owned()
            },
            DaemonComm::Clients => "Clients".to_owned(),
            DaemonComm::SetupInquiry(_) => "SetupInquiry".to_owned(),
        }
    }
}

impl DaemonReply {
    /// The format in which the reply is sent through the socket.
    pub fn reply_format(&self) -> (r: ReplyFormat)
        ensures
            r == (match *self {
                DaemonReply::Credentials(_) => ReplyFormat::Toml,
                DaemonReply::Clients(_) => ReplyFormat::Toml,
                _ => ReplyFormat::Json,
            }),
    {
        match self {
            DaemonReply::Credentials(_) => ReplyFormat::Toml,
            DaemonReply::Clients(_) => ReplyFormat::Toml,
            _ => ReplyFormat::Json,
        }
    }
}

/// A signal of the operating system that the daemon listens to.
#[derive(Clone, Copy, Debug, PartialEq, Eq, Structural)]
pub enum Signal {
    Interrupt,
    Terminate,
    Hangup,
}

/// The command that a signal stands for.
pub fn signal_command(s: Signal) -> (r: DaemonComm)
    ensures
        r == (match s {
            Signal::Hangup => DaemonComm::Reload,
            _ => DaemonComm::Shutdown,
        }),
{
    match s {
        Signal::Hangup => DaemonComm::Reload,
        _ => DaemonComm::Shutdown,
    }
}

/// Commands are called by their names, with what their options change.
pub proof fn law_commands_are_named(c: DaemonComm)
    ensures
        c is Reload ==> comm_text(c) == "Reload"@,
        c is Remap ==> comm_text(c) == "Remap"@,
        c is Rebase && c->Rebase_0.forced ==> comm_text(c) == "Forced Rebase"@,
        c is Rebase && !c->Rebase_0.forced ==> comm_text(c) == "Rebase"@,
        c is Status && c->Status_0.full ==> comm_text(c) == "Full Status"@,
        c is Status && !c->Status_0.full ==> comm_text(c) == "Status"@,
        c is Shutdown ==> comm_text(c) == "Shutdown"@,
        c is Restart ==> comm_text(c) == "Restart"@,
        c is ResetFix ==> comm_text(c) == "ResetFix"@,
        c is Expand && c->Expand_0.server is Some ==> comm_text(c) == "Expand on "@
            + c->Expand_0.server->Some_0@,
        c is Expand && c->Expand_0.server is None ==> comm_text(c) == "Expand"@,
        c is Credentials && c->Credentials_0.show_all ==> comm_text(c) == "Credentials-All"@,
        c is Credentials && !c->Credentials_0.show_all ==> comm_text(c) == "Credentials"@,
        c is Clients ==> comm_text(c) == "Clients"@,
{
}

} // verus!
