//! The cycles of the daemon: how one comes to its end, and what the next one
//! starts from.

use vstd::prelude::*;

use crate::cli::{ExpandOpts, ShowSecrets, StatusOpts};
use crate::cloud::rebase::{create_rebase_data, data_map, rebase_data, RebaseData};
use crate::cloud::reconcile::ReconMode;
use crate::constants::{
    EXIT_ERROR, EXIT_OK, EXIT_REBASE, EXIT_RELOAD, EXIT_REMAP, EXIT_RESTART,
};
use crate::daemon::{comm_text, DaemonComm};
use crate::strmap::StrMap;
use crate::types::{Cloud, CloudView};
use crate::workspace::Daemon;

verus! {

/// What a cycle of the daemon leaves to the next one.
pub struct DaemonNext {
    pub code: i8,
    pub mode: ReconMode,
    pub old_cloud: Option<Cloud>,
    pub new_cloud: Option<Cloud>,
    pub rebase_data: Option<StrMap<RebaseData>>,
}

impl DaemonNext {
    /// It holds no cloud, and asks for a Reload.
    pub open spec fn is_bare(self) -> bool {
        &&& self.code == EXIT_OK
        &&& self.mode == ReconMode::Reload
        &&& self.old_cloud is None
        &&& self.new_cloud is None
        &&& self.rebase_data is None
    }
}

impl Daemon {
    /// What the first cycle starts from, and what a shutdown leaves.
    pub fn init_state() -> (r: DaemonNext)
        ensures
            r.is_bare(),
    {
        DaemonNext {
            code: EXIT_OK,
            mode: ReconMode::Reload,
            old_cloud: None,
            new_cloud: None,
            rebase_data: None,
        }
    }
}

/// What follows a cycle.
pub enum AfterCycle {
    /// The daemon stops.
    Stop,
    /// The daemon fails.
    Fail(String),
    /// The workspace is prepared and the prerequisites are checked anew; then
    /// comes the next cycle.
    Restart,
    /// The next cycle comes at once.
    Again,
}

/// Decides what follows a cycle that ended with this code.
pub fn after_cycle(code: i8) -> (r: AfterCycle)
    ensures
        code == EXIT_OK ==> r is Stop,
        code == EXIT_ERROR ==> (r matches AfterCycle::Fail(e) && e@ == "Daemon exited with error."@),
        code == EXIT_RESTART ==> r is Restart,
        code == EXIT_RELOAD || code == EXIT_REMAP || code == EXIT_REBASE ==> r is Again,
        code != EXIT_OK && code != EXIT_ERROR && code != EXIT_RESTART && code != EXIT_RELOAD && code
            != EXIT_REMAP && code != EXIT_REBASE ==> (r matches AfterCycle::Fail(e) && e@
            == "Unknown exit code"@),
{
    if code == EXIT_OK {
        AfterCycle::Stop
    } else if code == EXIT_ERROR {
        AfterCycle::Fail("Daemon exited with error.".to_owned())
    } else if code == EXIT_RESTART {
        AfterCycle::Restart
    } else if code == EXIT_RELOAD || code == EXIT_REMAP || code == EXIT_REBASE {
        AfterCycle::Again
    } else {
        AfterCycle::Fail("Unknown exit code".to_owned())
    }
}

/// The cloud that a cycle works with: the reconciled one, which is then stored,
/// or the old one where that failed.
pub fn settle_cloud(reconciled: Result<Cloud, String>, old: Cloud) -> (r: (Cloud, bool))
    ensures
        match reconciled {
            Ok(c) => r == (c, true),
            Err(_) => r == (old, false),
        },
{
    match reconciled {
        Ok(c) => (c, true),
        Err(_) => (old, false),
    }
}

// ---------------------------------------------------------------- commands

/// What the daemon does on a command.
pub enum CoreAction<'a> {
    /// Replies with this message, aborts all tasks and stops.
    Stop(&'static str),
    /// Asks all monitors for their health and reports it.
    Summarize(StatusOpts),
    /// Tells all monitors to forget their repairs, and replies with this message.
    ResetFix(&'static str),
    Expand(&'a ExpandOpts),
    Credentials(ShowSecrets),
    Clients,
    /// Answers a setup or destruction that is over.
    Inquire,
    /// Does nothing, and gives no reply.
    Ignore,
    /// Checks the configuration and applies it.
    CheckAndBackup,
}

/// Decides what is done on a command.
pub fn core_action(c: &DaemonComm) -> (r: CoreAction<'_>)
    ensures
        match *c {
            DaemonComm::Shutdown => r matches CoreAction::Stop(m) && m@ == "Shutting down"@,
            DaemonComm::Status(o) => r == CoreAction::Summarize(o),
            DaemonComm::ResetFix => r matches CoreAction::ResetFix(m) && m@ == "Reset done."@,
            DaemonComm::Expand(o) => r matches CoreAction::Expand(x) && *x == o,
            DaemonComm::Credentials(o) => r == CoreAction::Credentials(o),
            DaemonComm::Clients => r is Clients,
            DaemonComm::SetupInquiry(_) => r is Inquire,
            DaemonComm::Unknown => r is Ignore,
            DaemonComm::Restart => r is CheckAndBackup,
            DaemonComm::Reload => r is CheckAndBackup,
            DaemonComm::Remap => r is CheckAndBackup,
            DaemonComm::Rebase(_) => r is CheckAndBackup,
        },
{
    match c {
        DaemonComm::Shutdown => CoreAction::Stop("Shutting down"),
        DaemonComm::Status(o) => CoreAction::Summarize(*o),
        DaemonComm::ResetFix => CoreAction::ResetFix("Reset done."),
        DaemonComm::Expand(o) => CoreAction::Expand(o),
        DaemonComm::Credentials(o) => CoreAction::Credentials(*o),
        DaemonComm::Clients => CoreAction::Clients,
        DaemonComm::SetupInquiry(_) => CoreAction::Inquire,
        DaemonComm::Unknown => CoreAction::Ignore,
        DaemonComm::Restart => CoreAction::CheckAndBackup,
        DaemonComm::Reload => CoreAction::CheckAndBackup,
        DaemonComm::Remap => CoreAction::CheckAndBackup,
        DaemonComm::Rebase(_) => CoreAction::CheckAndBackup,
    }
}

// ---------------------------------------------------------------- applying a declaration

/// The code with which the cycle ends, and the mode in which the next one
/// reconciles, for a command that applies the configuration.
pub open spec fn application(c: DaemonComm) -> Option<(i8, ReconMode)> {
    match c {
        DaemonComm::Restart => Some((EXIT_RESTART, ReconMode::Reload)),
        DaemonComm::Reload => Some((EXIT_RELOAD, ReconMode::Reload)),
        DaemonComm::Remap => Some((EXIT_REMAP, ReconMode::Remap)),
        DaemonComm::Rebase(_) => Some((EXIT_REBASE, ReconMode::Rebase)),
        _ => None,
    }
}

pub open spec fn check_failed_text(action: Seq<char>, e: Seq<char>) -> Seq<char> {
    "Cloud config file has failed the check. We can't proceed with '"@ + action + "'. Error: "@ + e
}

pub open spec fn applied_text(action: Seq<char>) -> Seq<char> {
    action + " is being applied."@
}

/// What is done on a command that applies the configuration.
pub enum Checked {
    /// Nothing changes; the reply is this error.
    Refuse(String),
    /// A backup is made, the reply is this message, all tasks are aborted, and the
    /// cycle ends with this state.
    Apply(String, DaemonNext),
}

/// The next cycle is given the running cloud, the new one, and the mode and code
/// of the command.
pub open spec fn next_fits(c: DaemonComm, curr: CloudView, new: CloudView, n: DaemonNext) -> bool {
    &&& application(c) == Some((n.code, n.mode))
    &&& n.old_cloud matches Some(o) && o@ == curr
    &&& n.new_cloud matches Some(w) && w@ == new
}

/// Decides on a command that applies the configuration, which was read with this
/// result.
pub fn check_and_backup(
    command: &DaemonComm,
    curr_cloud: &Cloud,
    parsed: Result<Cloud, String>,
) -> (r: Result<Checked, String>)
    ensures
        match parsed {
            Err(e) => r matches Ok(Checked::Refuse(m)) && m@ == check_failed_text(
                comm_text(*command),
                e@,
            ),
            Ok(new_cloud) => match *command {
                DaemonComm::Rebase(opts) => match rebase_data(
                    curr_cloud@,
                    new_cloud@,
                    opts.forced,
                ) {
                    Err(e) => r matches Ok(Checked::Refuse(m)) && m@ == e,
                    Ok(data) => {
                        &&& r matches Ok(Checked::Apply(m, n))
                        &&& m@ == applied_text(comm_text(*command))
                        &&& next_fits(*command, curr_cloud@, new_cloud@, n)
                        &&& n.rebase_data matches Some(d) && data_map(d@) == data
                    },
                },
                _ => if application(*command) is Some {
                    &&& r matches Ok(Checked::Apply(m, n))
                    &&& m@ == applied_text(comm_text(*command))
                    &&& next_fits(*command, curr_cloud@, new_cloud@, n)
                    &&& n.rebase_data is None
                } else {
                    r matches Err(e) && e@ == "Unsuitable DaemonComm variant in check_and_config."@
                },
            },
        },
{
    let action = command.to_string();
    let new_cloud = match parsed {
        Ok(c) => c,
        Err(e) => {
            let mut m = "Cloud config file has failed the check. We can't proceed with '".to_owned();
            m.append(action.as_str());
            m.append("'. Error: ");
            m.append(e.as_str());
            return Ok(Checked::Refuse(m));
        },
    };
    let (code, mode) = match command {
        DaemonComm::Restart => (EXIT_RESTART, ReconMode::Reload),
        DaemonComm::Reload => (EXIT_RELOAD, ReconMode::Reload),
        DaemonComm::Remap => (EXIT_REMAP, ReconMode::Remap),
        DaemonComm::Rebase(_) => (EXIT_REBASE, ReconMode::Rebase),
        _ => return Err("Unsuitable DaemonComm variant in check_and_config.".to_owned()),
    };
    let data = match command {
        DaemonComm::Rebase(opts) => match create_rebase_data(curr_cloud, &new_cloud, opts) {
            Ok(d) => Some(d),
            Err(e) => return Ok(Checked::Refuse(e)),
        },
        _ => None,
    };
    let mut m = action;
    m.append(" is being applied.");
    let next = DaemonNext {
        code,
        mode,
        old_cloud: Some(curr_cloud.clone()),
        new_cloud: Some(new_cloud),
        rebase_data: data,
    };
    Ok(Checked::Apply(m, next))
}

/// Each command that applies the configuration has its own code and mode, and no other
/// command applies it.
pub proof fn law_commands_have_their_modes(c: DaemonComm)
    ensures
        c is Restart ==> application(c) == Some((EXIT_RESTART, ReconMode::Reload)),
        c is Reload ==> application(c) == Some((EXIT_RELOAD, ReconMode::Reload)),
        c is Remap ==> application(c) == Some((EXIT_REMAP, ReconMode::Remap)),
        c is Rebase ==> application(c) == Some((EXIT_REBASE, ReconMode::Rebase)),
        !(c is Restart) && !(c is Reload) && !(c is Remap) && !(c is Rebase) ==> application(
            c,
        ) is None,
{
}

/// The next cycle knows the running cloud and the new one, and reconciles them as the
/// command says.
pub proof fn law_next_cycle_knows_both_clouds(
    c: DaemonComm,
    curr: CloudView,
    new: CloudView,
    n: DaemonNext,
)
    requires
        next_fits(c, curr, new, n),
    ensures
        n.old_cloud is Some,
        n.old_cloud->Some_0@ == curr,
        n.new_cloud is Some,
        n.new_cloud->Some_0@ == new,
        c is Restart ==> n.code == EXIT_RESTART && n.mode == ReconMode::Reload,
        c is Reload ==> n.code == EXIT_RELOAD && n.mode == ReconMode::Reload,
        c is Remap ==> n.code == EXIT_REMAP && n.mode == ReconMode::Remap,
        c is Rebase ==> n.code == EXIT_REBASE && n.mode == ReconMode::Rebase,
{
}

/// What is replied to a command that applies the configuration names the command, and the
/// fault where there is one.
pub proof fn law_replies_name_the_command(action: Seq<char>, e: Seq<char>)
    ensures
        applied_text(action) == action + " is being applied."@,
        check_failed_text(action, e)
            == "Cloud config file has failed the check. We can't proceed with '"@ + action
            + "'. Error: "@ + e,
{
}

} // verus!
