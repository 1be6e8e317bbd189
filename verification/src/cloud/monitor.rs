//! The loop that monitors a service, and the one that collects statuses, as
//! steps from one event to the next.

use vstd::prelude::*;

use crate::cli::SvcSummary;
use crate::cloud::service::{DashAction, FixJob};
use crate::types::{SvcEntry, SvcStatus};

verus! {

/// A command of the daemon to the monitor of a service.
#[derive(Clone, Copy, Debug, PartialEq, Eq, Structural)]
pub enum SvcComm {
    /// Forget the repairs that were tried, so that they can be tried again.
    ResetFix,
    /// Report the health of the service.
    GetSummary,
}

/// How a check came to its end.
#[derive(Clone, Copy, Debug, PartialEq, Eq, Structural)]
pub enum CheckEnd {
    Done,
    Failed,
    Crashed,
}

/// What the monitor of a service is told.
#[derive(Clone, Copy, Debug, PartialEq, Eq, Structural)]
pub enum MonitorEvent {
    /// The interval is over.
    Tick,
    /// A check has updated the status.
    Checked(SvcStatus),
    Command(SvcComm),
    CheckEnded(CheckEnd),
}

/// What the monitor of a service does next.
pub enum MonitorAction {
    Nothing,
    /// Start a check with the current status.
    StartCheck,
    /// Write the status at once, and put this entry into the registry.
    Flush(DashAction),
    Reply(SvcSummary),
}

/// The monitor of a service.
pub struct Monitor {
    pub entry: SvcEntry,
    /// No check is under way.
    pub check_completed: bool,
}

pub open spec fn entry_of(s: SvcStatus) -> DashAction {
    DashAction { svc_health: s.health, fix_try: s.fix_try, fix_action: FixJob::Idle }
}

/// The entry of the registry with which the monitoring of a service begins: what
/// was stored of it.
pub fn initial_action(status: &SvcStatus) -> (r: DashAction)
    ensures
        r == entry_of(*status),
        r.svc_health == status.health,
        r.fix_try == status.fix_try,
        r.fix_action == FixJob::Idle,
{
    DashAction {
        svc_health: status.health,
        fix_try: status.fix_try,
        fix_action: FixJob::Idle,
    }
}

impl Monitor {
    /// The monitor at its start, with the stored status.
    pub fn new(entry: SvcEntry) -> (r: Self)
        ensures
            r.entry == entry,
            r.check_completed,
    {
        Monitor { entry, check_completed: true }
    }

    /// The status after an event.
    pub open spec fn status_after(self, event: MonitorEvent) -> SvcStatus {
        match event {
            MonitorEvent::Checked(s) => s,
            MonitorEvent::Command(SvcComm::ResetFix) => SvcStatus {
                fix_try: 0,
                ..self.entry.status
            },
            _ => self.entry.status,
        }
    }

    /// Whether no check is under way after an event. A check that crashed is
    /// never followed by another one.
    pub open spec fn completed_after(self, event: MonitorEvent) -> bool {
        match event {
            MonitorEvent::Tick => false,
            MonitorEvent::CheckEnded(CheckEnd::Done) => true,
            MonitorEvent::CheckEnded(CheckEnd::Failed) => true,
            _ => self.check_completed,
        }
    }

    /// Takes the next event.
    pub fn step(&mut self, event: MonitorEvent) -> (r: MonitorAction)
        ensures
            final(self).entry.info == old(self).entry.info,
            final(self).entry.status == old(self).status_after(event),
            final(self).check_completed == old(self).completed_after(event),
            match event {
                MonitorEvent::Tick => r is StartCheck <==> old(self).check_completed,
                MonitorEvent::Command(SvcComm::ResetFix) => r == MonitorAction::Flush(
                    entry_of(old(self).status_after(event)),
                ),
                MonitorEvent::Command(SvcComm::GetSummary) => r matches MonitorAction::Reply(s)
                    && s.service@ == old(self).entry@.info.kind && s.server@
                    == old(self).entry@.info.server.name && s.health
                    == old(self).entry.status.health,
                _ => r is Nothing,
            },
            event == MonitorEvent::Tick ==> r is StartCheck || r is Nothing,
    {
        match event {
            MonitorEvent::Tick => {
                if self.check_completed {
                    self.check_completed = false;
                    MonitorAction::StartCheck
                } else {
                    MonitorAction::Nothing
                }
            },
            MonitorEvent::Checked(status) => {
                self.entry.status = status;
                MonitorAction::Nothing
            },
            MonitorEvent::Command(SvcComm::ResetFix) => {
                self.entry.status.fix_try = 0;
                MonitorAction::Flush(initial_action(&self.entry.status))
            },
            MonitorEvent::Command(SvcComm::GetSummary) => {
                MonitorAction::Reply(
                    SvcSummary {
                        service: self.entry.info.kind.clone(),
                        server: self.entry.info.server.name.clone(),
                        health: self.entry.status.health,
                    },
                )
            },
            MonitorEvent::CheckEnded(end) => {
                match end {
                    CheckEnd::Done => {
                        self.check_completed = true;
                    },
                    CheckEnd::Failed => {
                        self.check_completed = true;
                    },
                    CheckEnd::Crashed => {},
                }
                MonitorAction::Nothing
            },
        }
    }
}

/// Whether no check is under way after the first `k` of some events.
pub open spec fn completed_upto(m: Monitor, events: Seq<MonitorEvent>, k: int) -> bool
    decreases k,
{
    if k <= 0 {
        m.check_completed
    } else {
        (Monitor { check_completed: completed_upto(m, events, k - 1), ..m }).completed_after(
            events[k - 1],
        )
    }
}

/// A check is started on the event at this place.
pub open spec fn starts_check(m: Monitor, events: Seq<MonitorEvent>, i: int) -> bool {
    events[i] == MonitorEvent::Tick && completed_upto(m, events, i)
}

/// A check has come to its end on the event at this place.
pub open spec fn ends_check(events: Seq<MonitorEvent>, i: int) -> bool {
    events[i] == MonitorEvent::CheckEnded(CheckEnd::Done) || events[i] == MonitorEvent::CheckEnded(
        CheckEnd::Failed,
    )
}

proof fn lemma_still_checking(m: Monitor, events: Seq<MonitorEvent>, i: int, j: int)
    requires
        0 <= i < j <= events.len(),
        !completed_upto(m, events, i + 1),
        forall|k: int| i < k < j ==> !#[trigger] ends_check(events, k),
    ensures
        !completed_upto(m, events, j),
    decreases j - i,
{
    if i + 1 < j {
        lemma_still_checking(m, events, i, j - 1);
        assert(!ends_check(events, j - 1));
    }
}

/// A service is checked once at a time: between the starts of two checks the
/// first one has come to its end.
pub proof fn law_one_check_at_a_time(m: Monitor, events: Seq<MonitorEvent>, i: int, j: int)
    requires
        0 <= i < j < events.len(),
        starts_check(m, events, i),
        starts_check(m, events, j),
    ensures
        exists|k: int| i < k < j && #[trigger] ends_check(events, k),
{
    if forall|k: int| i < k < j ==> !#[trigger] ends_check(events, k) {
        lemma_still_checking(m, events, i, j);
    }
}

/// The statuses that wait to be written.
pub struct Aggregator {
    pub stats: Vec<SvcEntry>,
}

impl Aggregator {
    pub fn new() -> (r: Self)
        ensures
            r.stats@.len() == 0,
    {
        Aggregator { stats: Vec::new() }
    }

    /// Takes one more status. As soon as there are `nstats` of them they are
    /// handed out to be written.
    pub fn push(&mut self, nstats: usize, stat: SvcEntry) -> (r: Option<Vec<SvcEntry>>)
        ensures
            ({
                let all = old(self).stats@.push(stat);
                if all.len() >= nstats {
                    r is Some && r->Some_0@ == all && final(self).stats@.len() == 0
                } else {
                    r is None && final(self).stats@ == all
                }
            }),
    {
        self.stats.push(stat);
        if self.stats.len() >= nstats {
            let mut batch: Vec<SvcEntry> = Vec::new();
            batch.append(&mut self.stats);
            assert(batch@ =~= old(self).stats@.push(stat));
            Some(batch)
        } else {
            None
        }
    }

    /// Hands out what there is when the interval is over.
    pub fn tick(&mut self) -> (r: Option<Vec<SvcEntry>>)
        ensures
            if old(self).stats@.len() > 0 {
                r is Some && r->Some_0@ == old(self).stats@ && final(self).stats@.len() == 0
            } else {
                r is None && final(self).stats@.len() == 0
            },
    {
        if self.stats.len() > 0 {
            let mut batch: Vec<SvcEntry> = Vec::new();
            batch.append(&mut self.stats);
            assert(batch@ =~= old(self).stats@);
            Some(batch)
        } else {
            None
        }
    }
}

/// The status of a service is what the last check has found; a reset clears its level
/// and keeps the rest, and nothing else changes it.
pub proof fn law_status_follows_checks(m: Monitor, s: SvcStatus, event: MonitorEvent)
    ensures
        m.status_after(MonitorEvent::Checked(s)) == s,
        ({
            let r = m.status_after(MonitorEvent::Command(SvcComm::ResetFix));
            &&& r.fix_try == 0
            &&& r.health == m.entry.status.health
            &&& r.failed_count == m.entry.status.failed_count
            &&& r.failed_since == m.entry.status.failed_since
        }),
        !(event is Checked) && event != MonitorEvent::Command(SvcComm::ResetFix)
            ==> m.status_after(event) == m.entry.status,
{
}

/// The next interval starts another check as soon as the last one has come to its end,
/// well or not; one that crashed is not followed by another.
pub proof fn law_checks_resume(m: Monitor, event: MonitorEvent)
    ensures
        !m.completed_after(MonitorEvent::Tick),
        m.completed_after(MonitorEvent::CheckEnded(CheckEnd::Done)),
        m.completed_after(MonitorEvent::CheckEnded(CheckEnd::Failed)),
        event != MonitorEvent::Tick && event != MonitorEvent::CheckEnded(CheckEnd::Done) && event
            != MonitorEvent::CheckEnded(CheckEnd::Failed) ==> m.completed_after(event)
            == m.check_completed,
{
}

} // verus!
