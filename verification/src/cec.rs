//! Controls the television: commands are retried, lost connections restored, and the
//! status reported whenever it may have changed.

use vstd::prelude::*;

use crate::daemoncomm::{CecCommand, CecEvent, CecStatus};
use crate::text::joined;

verus! {

pub const COMMAND_RETRY_COUNT: u8 = 10;

pub const COMMAND_RETRY_DELAY_MS: u64 = 500;

pub const STATUS_POLL_INTERVAL_MS: u64 = 1_000;

pub const POWER_ON_ACTIVE_SOURCE_DELAY_MS: u64 = 1_500;

pub const POWER_ON_VERIFY_ATTEMPTS: u8 = 10;

pub const POWER_ON_VERIFY_INTERVAL_MS: u64 = 1_000;

/// What was last seen of the television.
#[derive(Debug, Clone, Copy, PartialEq, Eq, Structural)]
pub struct CecSnapshot {
    pub powered_on: bool,
    pub active_source: bool,
}

impl CecSnapshot {
    pub open spec fn off() -> CecSnapshot {
        CecSnapshot { powered_on: false, active_source: false }
    }

    pub open spec fn as_status(self) -> CecStatus {
        CecStatus { powered_on: self.powered_on, active_source: self.active_source }
    }

    pub fn powered_off() -> (snapshot: Self)
        ensures
            snapshot == CecSnapshot::off(),
    {
        CecSnapshot { powered_on: false, active_source: false }
    }

    pub fn status(&self) -> (status: CecStatus)
        ensures
            status == self.as_status(),
    {
        CecStatus { powered_on: self.powered_on, active_source: self.active_source }
    }
}

/// What is being done.
#[derive(Debug, Clone, Copy, PartialEq, Eq, Structural)]
pub enum Job {
    PowerOn,
    PowerOff,
    ActiveSource,
    Status,
    Poll,
}

/// What a job waits for.
#[derive(Debug, Clone, Copy, PartialEq, Eq, Structural)]
pub enum Waiting {
    /// The connection.
    Connect,
    /// The time before the next attempt.
    Retry,
    /// The standby that a power-on begins with.
    Standby,
    StandbyDelay,
    /// The source being made active, which wakes the television.
    Source,
    SourceDelay,
    /// The time before looking whether the television is on.
    VerifyDelay,
    VerifyQuery,
    /// The power-on being sent once more.
    VerifyResend,
    VerifySource,
    /// The source being made active on a television that is on.
    FinalSource,
    FinalQuery,
    /// The one command of a simple job.
    Command,
    /// The state for a report.
    Query,
}

/// A job and how far it has come.
#[derive(Debug, Clone, Copy, PartialEq, Eq, Structural)]
pub struct Run {
    pub job: Job,
    pub attempt: u8,
    pub verify: u8,
    pub waiting: Waiting,
}

/// What is to be done next with the adapter.
#[derive(Debug, Clone, Copy, PartialEq, Eq, Structural)]
pub enum CecAction {
    Connect,
    Standby,
    PowerOn,
    SetActiveSource,
    Query,
    Sleep { ms: u64 },
}

/// How that went.
#[derive(Debug)]
pub enum CecReply {
    Connected(CecSnapshot),
    ConnectFailed(String),
    /// A command was sent, or could not be.
    Sent(bool),
    State(CecSnapshot),
    Slept,
}

/// The model of [`CecEvent`].
pub enum CecReport {
    Status(CecStatus),
    Error(Seq<char>),
}

impl View for CecEvent {
    type V = CecReport;

    open spec fn view(&self) -> CecReport {
        match self {
            CecEvent::Status(status) => CecReport::Status(*status),
            CecEvent::Error { message } => CecReport::Error(message@),
        }
    }
}

/// The reports of a step, in order.
pub open spec fn reports(events: Seq<CecEvent>) -> Seq<CecReport> {
    Seq::new(events.len(), |i: int| events[i]@)
}

/// What a step leads to.
#[derive(Debug)]
pub struct CecStep {
    /// What to report first.
    pub publish: Vec<CecEvent>,
    /// What to do then, or nothing if the job is over.
    pub action: Option<CecAction>,
}

/// The connection and the running job.
#[derive(Debug, Clone, Copy, PartialEq, Eq, Structural)]
pub struct CecManager {
    /// The last state seen over the connection, if there is one.
    pub runtime: Option<CecSnapshot>,
    pub run: Option<Run>,
}

/// The manager after a step, and what the step leads to.
#[verifier::ext_equal]
pub struct Progress {
    pub manager: CecManager,
    pub publish: Seq<CecReport>,
    pub action: Option<CecAction>,
}

impl Job {
    /// The job for a client's command.
    pub open spec fn of(command: CecCommand) -> Job {
        match command {
            CecCommand::PowerOn => Job::PowerOn,
            CecCommand::PowerOff => Job::PowerOff,
            CecCommand::RequestActiveSource => Job::ActiveSource,
            CecCommand::RequestStatus => Job::Status,
        }
    }

    /// Whether the job is tried again when it fails.
    pub open spec fn retries(self) -> bool {
        self != Job::Status && self != Job::Poll
    }

    pub open spec fn label(self) -> Seq<char> {
        match self {
            Job::PowerOn => "power_on"@,
            Job::PowerOff => "power_off"@,
            _ => "request_active_source"@,
        }
    }

    fn label_text(&self) -> (text: &'static str)
        ensures
            text@ == self.label(),
    {
        match self {
            Job::PowerOn => "power_on",
            Job::PowerOff => "power_off",
            _ => "request_active_source",
        }
    }
}

impl Run {
    pub open spec fn waits(job: Job, attempt: u8, waiting: Waiting) -> Run {
        Run { job, attempt, verify: 0, waiting }
    }

    pub open spec fn wf(self) -> bool {
        &&& 1 <= self.attempt <= COMMAND_RETRY_COUNT
        &&& self.verify < POWER_ON_VERIFY_ATTEMPTS
        &&& match self.waiting {
            Waiting::Connect => true,
            Waiting::Retry => self.job.retries(),
            Waiting::Command => self.job == Job::PowerOff || self.job == Job::ActiveSource,
            Waiting::Query => self.job == Job::Status || self.job == Job::Poll,
            _ => self.job == Job::PowerOn,
        }
    }

    /// Whether a connection is in use.
    pub open spec fn connected(self) -> bool {
        self.waiting != Waiting::Connect && self.waiting != Waiting::Retry
    }

    /// Whether this is the kind of reply that the job waits for.
    pub open spec fn expects(self, reply: CecReply) -> bool {
        match self.waiting {
            Waiting::Connect => reply is Connected || reply is ConnectFailed,
            Waiting::Retry | Waiting::StandbyDelay | Waiting::SourceDelay | Waiting::VerifyDelay => {
                reply is Slept
            },
            Waiting::VerifyQuery | Waiting::FinalQuery | Waiting::Query => reply is State,
            _ => reply is Sent,
        }
    }

    /// How many replies a job can still take, at most.
    pub open spec fn rank(self) -> int {
        let verifying = 10 + 6 * (10 - self.verify);
        200 * (10 - self.attempt) + match self.waiting {
            Waiting::Connect => 100,
            Waiting::Standby => 99,
            Waiting::Command => 99,
            Waiting::StandbyDelay => 98,
            Waiting::Source => 97,
            Waiting::SourceDelay => 96,
            Waiting::VerifyDelay => verifying + 5,
            Waiting::VerifyQuery => verifying + 4,
            Waiting::VerifyResend => verifying + 3,
            Waiting::VerifySource => verifying + 2,
            Waiting::FinalSource => 9,
            Waiting::FinalQuery => 8,
            Waiting::Query => 7,
            Waiting::Retry => 1,
        }
    }
}

impl CecManager {
    pub open spec fn wf(self) -> bool {
        self.run matches Some(run) ==> run.wf() && (run.connected() ==> self.runtime is Some) && (
        run.waiting == Waiting::Connect ==> self.runtime is None)
    }

    /// Waiting for the reply to `action`.
    pub open spec fn waits(self, run: Run, action: CecAction) -> Progress {
        Progress {
            manager: CecManager { run: Some(run), ..self },
            publish: Seq::empty(),
            action: Some(action),
        }
    }

    /// The job is over.
    pub open spec fn ends(self) -> Progress {
        Progress {
            manager: CecManager { run: None, ..self },
            publish: Seq::empty(),
            action: None,
        }
    }

    /// What a job does over a connection.
    pub open spec fn proceeds(self, job: Job, attempt: u8) -> Progress
        recommends
            self.runtime is Some,
    {
        let seen = self.runtime->Some_0;
        match job {
            Job::PowerOn => self.waits(
                Run::waits(job, attempt, Waiting::Standby),
                CecAction::Standby,
            ),
            Job::PowerOff => self.waits(
                Run::waits(job, attempt, Waiting::Command),
                CecAction::Standby,
            ),
            Job::ActiveSource => self.waits(
                Run::waits(job, attempt, Waiting::Command),
                CecAction::SetActiveSource,
            ),
            Job::Status => if seen.powered_on {
                self.waits(Run::waits(job, attempt, Waiting::Query), CecAction::Query)
            } else {
                self.ends().reporting(CecReport::Status(seen.as_status()))
            },
            Job::Poll => if seen.powered_on {
                self.waits(Run::waits(job, attempt, Waiting::Query), CecAction::Query)
            } else {
                self.ends()
            },
        }
    }

    /// An attempt at a job: over the connection, or a new one if there is none.
    pub open spec fn attempts(self, job: Job, attempt: u8) -> Progress {
        if self.runtime is Some {
            self.proceeds(job, attempt)
        } else {
            self.waits(Run::waits(job, attempt, Waiting::Connect), CecAction::Connect)
        }
    }

    /// The attempt failed: the next one comes after a while.
    pub open spec fn backs_off(self, run: Run) -> Progress {
        self.waits(
            Run::waits(run.job, run.attempt, Waiting::Retry),
            CecAction::Sleep { ms: COMMAND_RETRY_DELAY_MS },
        )
    }

    /// The attempt failed over the connection, which is given up.
    pub open spec fn drops(self, run: Run) -> Progress {
        CecManager { runtime: None, ..self }.backs_off(run)
    }

    pub open spec fn sees(self, snapshot: CecSnapshot) -> CecManager {
        CecManager { runtime: Some(snapshot), ..self }
    }

    /// The step that a reply leads to.
    pub open spec fn after(self, run: Run, reply: CecReply) -> Progress {
        let follow = |waiting: Waiting, action: CecAction|
            self.waits(Run { waiting, ..run }, action);
        match (run.waiting, reply) {
            (Waiting::Connect, CecReply::Connected(snapshot)) => self.sees(snapshot).proceeds(
                run.job,
                run.attempt,
            ).reporting_first(CecReport::Status(snapshot.as_status())),
            (Waiting::Connect, CecReply::ConnectFailed(err)) => (if run.job.retries() {
                self.backs_off(run)
            } else {
                self.ends()
            }).reporting_first(CecReport::Error("cec reconnection failed: "@ + err@)),
            (Waiting::Retry, _) => if run.attempt == COMMAND_RETRY_COUNT {
                self.ends().reporting(
                    CecReport::Error(
                        "cec command "@ + run.job.label() + " failed after 10 attempts"@,
                    ),
                )
            } else {
                self.attempts(run.job, (run.attempt + 1) as u8)
            },
            (Waiting::Standby, CecReply::Sent(true)) => follow(
                Waiting::StandbyDelay,
                CecAction::Sleep { ms: POWER_ON_ACTIVE_SOURCE_DELAY_MS },
            ),
            (Waiting::Standby, _) => self.drops(run),
            (Waiting::StandbyDelay, _) => follow(Waiting::Source, CecAction::SetActiveSource),
            (Waiting::Source, CecReply::Sent(true)) => follow(
                Waiting::SourceDelay,
                CecAction::Sleep { ms: POWER_ON_ACTIVE_SOURCE_DELAY_MS },
            ),
            (Waiting::Source, _) => self.drops(run),
            (Waiting::SourceDelay, _) => follow(
                Waiting::VerifyDelay,
                CecAction::Sleep { ms: POWER_ON_VERIFY_INTERVAL_MS },
            ),
            (Waiting::VerifyDelay, _) => follow(Waiting::VerifyQuery, CecAction::Query),
            (Waiting::VerifyQuery, CecReply::State(snapshot)) => if snapshot.powered_on {
                self.sees(snapshot).waits(
                    Run { waiting: Waiting::FinalSource, ..run },
                    CecAction::SetActiveSource,
                )
            } else {
                self.sees(snapshot).waits(
                    Run { waiting: Waiting::VerifyResend, ..run },
                    CecAction::PowerOn,
                )
            },
            (Waiting::VerifyResend, CecReply::Sent(true)) => follow(
                Waiting::VerifySource,
                CecAction::SetActiveSource,
            ),
            (Waiting::VerifyResend, _) => self.drops(run),
            (Waiting::VerifySource, _) => if run.verify + 1 == POWER_ON_VERIFY_ATTEMPTS {
                self.drops(run)
            } else {
                self.waits(
                    Run {
                        waiting: Waiting::VerifyDelay,
                        verify: (run.verify + 1) as u8,
                        ..run
                    },
                    CecAction::Sleep { ms: POWER_ON_VERIFY_INTERVAL_MS },
                )
            },
            (Waiting::FinalSource, _) => follow(Waiting::FinalQuery, CecAction::Query),
            (Waiting::FinalQuery, CecReply::State(snapshot)) => self.sees(
                snapshot,
            ).ends().reporting(CecReport::Status(snapshot.as_status())),
            (Waiting::Command, CecReply::Sent(true)) => if run.job == Job::PowerOff {
                self.sees(CecSnapshot::off()).ends().reporting(
                    CecReport::Status(CecSnapshot::off().as_status()),
                )
            } else {
                self.proceeds(Job::Status, run.attempt)
            },
            (Waiting::Command, _) => self.drops(run),
            (Waiting::Query, CecReply::State(snapshot)) => if run.job == Job::Poll
                && self.runtime == Some(snapshot) {
                self.ends()
            } else {
                self.sees(snapshot).ends().reporting(CecReport::Status(snapshot.as_status()))
            },
            _ => self.ends(),
        }
    }

    pub fn new(runtime: Option<CecSnapshot>) -> (manager: Self)
        ensures
            manager == (CecManager { runtime, run: None }),
    {
        CecManager { runtime, run: None }
    }

    /// Starts the job for a client's command.
    pub fn handle_command(&mut self, command: CecCommand) -> (step: CecStep)
        requires
            old(self).run is None,
        ensures
            step.makes(*final(self), old(self).attempts(Job::of(command), 1)),
    {
        let job = match command {
            CecCommand::PowerOn => Job::PowerOn,
            CecCommand::PowerOff => Job::PowerOff,
            CecCommand::RequestActiveSource => Job::ActiveSource,
            CecCommand::RequestStatus => Job::Status,
        };
        self.attempt(job, 1, Vec::new())
    }

    /// Starts the regular look at the television.
    pub fn poll_status(&mut self) -> (step: CecStep)
        requires
            old(self).run is None,
        ensures
            step.makes(*final(self), old(self).attempts(Job::Poll, 1)),
    {
        self.attempt(Job::Poll, 1, Vec::new())
    }

    fn wait(&mut self, run: Run, action: CecAction, publish: Vec<CecEvent>) -> (step: CecStep)
        ensures
            *final(self) == old(self).waits(run, action).manager,
            step.publish == publish,
            step.action == Some(action),
    {
        self.run = Some(run);
        CecStep { publish, action: Some(action) }
    }

    fn end(&mut self, publish: Vec<CecEvent>) -> (step: CecStep)
        ensures
            *final(self) == old(self).ends().manager,
            step.publish == publish,
            step.action is None,
    {
        self.run = None;
        CecStep { publish, action: None }
    }

    fn ensure_connection(&self) -> (connected: bool)
        ensures
            connected == (self.runtime is Some),
    {
        self.runtime.is_some()
    }

    fn attempt(&mut self, job: Job, attempt: u8, publish: Vec<CecEvent>) -> (step: CecStep)
        ensures
            step.makes(
                *final(self),
                old(self).attempts(job, attempt).reporting_all_first(reports(publish@)),
            ),
    {
        if self.ensure_connection() {
            self.proceed(job, attempt, publish)
        } else {
            let step = self.wait(
                Run { job, attempt, verify: 0, waiting: Waiting::Connect },
                CecAction::Connect,
                publish,
            );
            assert(reports(step.publish@) =~= reports(publish@) + Seq::empty());
            step
        }
    }

    fn proceed(&mut self, job: Job, attempt: u8, publish: Vec<CecEvent>) -> (step: CecStep)
        requires
            old(self).runtime is Some,
        ensures
            step.makes(
                *final(self),
                old(self).proceeds(job, attempt).reporting_all_first(reports(publish@)),
            ),
    {
        let seen = self.runtime.unwrap();
        let mut publish = publish;
        let ghost before = reports(publish@);
        assert(before =~= before + Seq::empty());
        match job {
            Job::PowerOn => self.wait(
                Run { job, attempt, verify: 0, waiting: Waiting::Standby },
                CecAction::Standby,
                publish,
            ),
            Job::PowerOff => self.wait(
                Run { job, attempt, verify: 0, waiting: Waiting::Command },
                CecAction::Standby,
                publish,
            ),
            Job::ActiveSource => self.wait(
                Run { job, attempt, verify: 0, waiting: Waiting::Command },
                CecAction::SetActiveSource,
                publish,
            ),
            Job::Status => {
                if seen.powered_on {
                    self.wait(
                        Run { job, attempt, verify: 0, waiting: Waiting::Query },
                        CecAction::Query,
                        publish,
                    )
                } else {
                    publish.push(CecEvent::Status(seen.status()));
                    assert(reports(publish@) =~= before + seq![
                        CecReport::Status(seen.as_status()),
                    ]);
                    self.end(publish)
                }
            },
            Job::Poll => {
                if seen.powered_on {
                    self.wait(
                        Run { job, attempt, verify: 0, waiting: Waiting::Query },
                        CecAction::Query,
                        publish,
                    )
                } else {
                    self.end(publish)
                }
            },
        }
    }

    fn back_off(&mut self, run: Run, publish: Vec<CecEvent>) -> (step: CecStep)
        ensures
            *final(self) == old(self).backs_off(run).manager,
            step.publish == publish,
            step.action == old(self).backs_off(run).action,
    {
        self.wait(
            Run { job: run.job, attempt: run.attempt, verify: 0, waiting: Waiting::Retry },
            CecAction::Sleep { ms: COMMAND_RETRY_DELAY_MS },
            publish,
        )
    }

    fn drop_connection(&mut self, run: Run) -> (step: CecStep)
        ensures
            step.makes(*final(self), old(self).drops(run)),
    {
        self.runtime = None;
        let step = self.back_off(run, Vec::new());
        assert(reports(step.publish@) =~= Seq::empty());
        step
    }

    fn go_on(&mut self, run: Run, waiting: Waiting, action: CecAction) -> (step: CecStep)
        ensures
            step.makes(*final(self), old(self).waits(Run { waiting, ..run }, action)),
    {
        let step = self.wait(
            Run { job: run.job, attempt: run.attempt, verify: run.verify, waiting },
            action,
            Vec::new(),
        );
        assert(reports(step.publish@) =~= Seq::empty());
        step
    }

    /// Reports the state and ends the job.
    fn report(&mut self, snapshot: CecSnapshot) -> (step: CecStep)
        ensures
            step.makes(
                *final(self),
                old(self).sees(snapshot).ends().reporting(CecReport::Status(snapshot.as_status())),
            ),
    {
        self.runtime = Some(snapshot);
        let mut publish: Vec<CecEvent> = Vec::new();
        publish.push(CecEvent::Status(snapshot.status()));
        assert(reports(publish@) =~= seq![CecReport::Status(snapshot.as_status())]);
        assert(reports(publish@) =~= Seq::empty() + reports(publish@));
        self.end(publish)
    }

    /// Reports an error and ends the job.
    fn give_up(&mut self, message: String) -> (step: CecStep)
        ensures
            step.makes(*final(self), old(self).ends().reporting(CecReport::Error(message@))),
    {
        let mut publish: Vec<CecEvent> = Vec::new();
        publish.push(CecEvent::Error { message });
        assert(reports(publish@) =~= seq![CecReport::Error(message@)]);
        assert(reports(publish@) =~= Seq::empty() + reports(publish@));
        self.end(publish)
    }

    /// Takes in the reply to the last action and decides what comes next.
    pub fn resume(&mut self, reply: CecReply) -> (step: CecStep)
        requires
            old(self).wf(),
            old(self).run matches Some(run) && run.expects(reply),
        ensures
            step.makes(*final(self), old(self).after(old(self).run->Some_0, reply)),
            final(self).wf(),
    {
        let run = self.run.unwrap();
        match run.waiting {
            Waiting::Connect => match reply {
                CecReply::Connected(snapshot) => {
                    self.runtime = Some(snapshot);
                    let mut publish: Vec<CecEvent> = Vec::new();
                    publish.push(CecEvent::Status(snapshot.status()));
                    assert(reports(publish@) =~= seq![CecReport::Status(snapshot.as_status())]);
                    self.proceed(run.job, run.attempt, publish)
                },
                CecReply::ConnectFailed(err) => {
                    let mut publish: Vec<CecEvent> = Vec::new();
                    publish.push(
                        CecEvent::Error {
                            message: joined("cec reconnection failed: ", err.as_str()),
                        },
                    );
                    assert(reports(publish@) =~= seq![
                        CecReport::Error("cec reconnection failed: "@ + err@),
                    ]);
                    assert(reports(publish@) =~= reports(publish@) + Seq::empty());
                    match run.job {
                        Job::Status | Job::Poll => self.end(publish),
                        _ => self.back_off(run, publish),
                    }
                },
                _ => self.end(Vec::new()),
            },
            Waiting::Retry => {
                if run.attempt == COMMAND_RETRY_COUNT {
                    let mut message = joined("cec command ", run.job.label_text());
                    message.append(" failed after 10 attempts");
                    self.give_up(message)
                } else {
                    let step = self.attempt(run.job, run.attempt + 1, Vec::new());
                    assert(reports(Seq::<CecEvent>::empty()) =~= Seq::empty());
                    step
                }
            },
            Waiting::Standby => {
                if accepted(&reply) {
                    self.go_on(
                        run,
                        Waiting::StandbyDelay,
                        CecAction::Sleep { ms: POWER_ON_ACTIVE_SOURCE_DELAY_MS },
                    )
                } else {
                    self.drop_connection(run)
                }
            },
            Waiting::StandbyDelay => self.go_on(run, Waiting::Source, CecAction::SetActiveSource),
            Waiting::Source => {
                if accepted(&reply) {
                    self.go_on(
                        run,
                        Waiting::SourceDelay,
                        CecAction::Sleep { ms: POWER_ON_ACTIVE_SOURCE_DELAY_MS },
                    )
                } else {
                    self.drop_connection(run)
                }
            },
            Waiting::SourceDelay => self.go_on(
                run,
                Waiting::VerifyDelay,
                CecAction::Sleep { ms: POWER_ON_VERIFY_INTERVAL_MS },
            ),
            Waiting::VerifyDelay => self.go_on(run, Waiting::VerifyQuery, CecAction::Query),
            Waiting::VerifyQuery => match reply {
                CecReply::State(snapshot) => {
                    self.runtime = Some(snapshot);
                    if snapshot.powered_on {
                        self.go_on(run, Waiting::FinalSource, CecAction::SetActiveSource)
                    } else {
                        self.go_on(run, Waiting::VerifyResend, CecAction::PowerOn)
                    }
                },
                _ => self.end(Vec::new()),
            },
            Waiting::VerifyResend => {
                if accepted(&reply) {
                    self.go_on(run, Waiting::VerifySource, CecAction::SetActiveSource)
                } else {
                    self.drop_connection(run)
                }
            },
            Waiting::VerifySource => {
                if run.verify + 1 == POWER_ON_VERIFY_ATTEMPTS {
                    self.drop_connection(run)
                } else {
                    let next = Run {
                        job: run.job,
                        attempt: run.attempt,
                        verify: run.verify + 1,
                        waiting: Waiting::VerifyDelay,
                    };
                    self.go_on(
                        next,
                        Waiting::VerifyDelay,
                        CecAction::Sleep { ms: POWER_ON_VERIFY_INTERVAL_MS },
                    )
                }
            },
            Waiting::FinalSource => self.go_on(run, Waiting::FinalQuery, CecAction::Query),
            Waiting::FinalQuery => match reply {
                CecReply::State(snapshot) => self.report(snapshot),
                _ => self.end(Vec::new()),
            },
            Waiting::Command => {
                if !accepted(&reply) {
                    self.drop_connection(run)
                } else if let Job::PowerOff = run.job {
                    self.report(CecSnapshot::powered_off())
                } else {
                    let step = self.proceed(Job::Status, run.attempt, Vec::new());
                    assert(reports(Seq::<CecEvent>::empty()) =~= Seq::empty());
                    step
                }
            },
            Waiting::Query => match reply {
                CecReply::State(snapshot) => {
                    let unchanged = match self.runtime {
                        Some(seen) => seen == snapshot,
                        None => false,
                    };
                    if run.job == Job::Poll && unchanged {
                        let step = self.end(Vec::new());
                        assert(reports(step.publish@) =~= Seq::empty());
                        step
                    } else {
                        self.report(snapshot)
                    }
                },
                _ => self.end(Vec::new()),
            },
        }
    }
}

/// Whether the reply says that a command was sent.
fn accepted(reply: &CecReply) -> (sent: bool)
    ensures
        sent == (*reply matches CecReply::Sent(true)),
{
    matches!(reply, CecReply::Sent(true))
}

impl Progress {
    pub open spec fn reporting(self, report: CecReport) -> Progress {
        Progress { publish: self.publish.push(report), ..self }
    }

    pub open spec fn reporting_first(self, report: CecReport) -> Progress {
        self.reporting_all_first(seq![report])
    }

    pub open spec fn reporting_all_first(self, reports: Seq<CecReport>) -> Progress {
        Progress { publish: reports + self.publish, ..self }
    }
}

impl CecStep {
    /// Whether the step, with the manager as it now is, is this progress.
    pub open spec fn makes(&self, manager: CecManager, progress: Progress) -> bool {
        &&& manager == progress.manager
        &&& reports(self.publish@) == progress.publish
        &&& self.action == progress.action
    }
}

/// A job always comes to an end: every reply brings it closer.
pub proof fn jobs_end(manager: CecManager, reply: CecReply)
    requires
        manager.wf(),
        manager.run matches Some(run) && run.expects(reply),
    ensures
        ({
            let run = manager.run->Some_0;
            let next = manager.after(run, reply).manager;
            &&& next.wf()
            &&& next.run matches Some(later) ==> 0 <= later.rank() < run.rank()
            &&& 0 < run.rank() <= 1900
        }),
{
}

/// A job waits for something exactly as long as it is not over.
pub proof fn action_means_running(manager: CecManager, job: Job, reply: CecReply)
    requires
        manager.wf(),
    ensures
        manager.attempts(job, 1).action is Some <==> manager.attempts(job, 1).manager.run is Some,
        (CecManager { run: None, ..manager }).attempts(job, 1).manager.wf(),
        manager.run is Some && manager.run->Some_0.expects(reply) ==> (manager.after(
            manager.run->Some_0,
            reply,
        ).action is Some <==> manager.after(manager.run->Some_0, reply).manager.run is Some),
{
}

/// A command is given up only after the last of its attempts, and giving it up is
/// reported.
pub proof fn command_is_given_up_late(manager: CecManager, reply: CecReply)
    requires
        manager.wf(),
        manager.run matches Some(run) && run.expects(reply) && run.job.retries(),
        manager.after(manager.run->Some_0, reply).manager.run is None,
        manager.after(manager.run->Some_0, reply).publish.last() is Error,
    ensures
        manager.run->Some_0.attempt == COMMAND_RETRY_COUNT,
        manager.run->Some_0.waiting == Waiting::Retry,
{
}

/// A status that is reported is what was last seen of the television.
pub proof fn reported_status_is_current(manager: CecManager, reply: CecReply)
    requires
        manager.wf(),
        manager.run matches Some(run) && run.expects(reply),
        manager.after(manager.run->Some_0, reply).publish.len() > 0,
        manager.after(manager.run->Some_0, reply).publish.last() is Status,
    ensures
        ({
            let progress = manager.after(manager.run->Some_0, reply);
            &&& progress.manager.runtime is Some
            &&& progress.publish.last() == CecReport::Status(
                progress.manager.runtime->Some_0.as_status(),
            )
        }),
{
}

/// Polling reports nothing as long as nothing changes.
pub proof fn polling_is_quiet(manager: CecManager, run: Run)
    requires
        manager.wf(),
        manager.run == Some(run),
        run.job == Job::Poll,
        run.waiting == Waiting::Query,
    ensures
        manager.after(run, CecReply::State(manager.runtime->Some_0)).publish.len() == 0,
        manager.after(run, CecReply::State(manager.runtime->Some_0)).manager.runtime
            == manager.runtime,
{
}

/// A job that a client started never ends silently: the step that ends it reports
/// something. Where the television answered last, the report is its status as it
/// answered.
pub proof fn clients_jobs_end_with_a_report(manager: CecManager, reply: CecReply)
    requires
        manager.wf(),
        manager.run matches Some(run) && run.expects(reply) && run.job != Job::Poll,
        manager.after(manager.run->Some_0, reply).manager.run is None,
    ensures
        ({
            let publish = manager.after(manager.run->Some_0, reply).publish;
            &&& publish.len() > 0
            &&& reply matches CecReply::State(snapshot) ==> publish.last() == CecReport::Status(
                CecStatus {
                    powered_on: snapshot.powered_on,
                    active_source: snapshot.active_source,
                },
            )
            &&& reply matches CecReply::Connected(snapshot) ==> publish.last()
                == CecReport::Status(
                CecStatus {
                    powered_on: snapshot.powered_on,
                    active_source: snapshot.active_source,
                },
            )
            &&& reply is ConnectFailed ==> publish.last() is Error
        }),
{
}

/// A client's command over a connection that ends at once is a question for the status of
/// a television that was off, and is answered so. Any other command, and any without a
/// connection, starts something.
pub proof fn clients_commands_are_taken_up(manager: CecManager, command: CecCommand)
    ensures
        ({
            let start = manager.attempts(Job::of(command), 1);
            &&& start.manager.run is None <==> command == CecCommand::RequestStatus
                && manager.runtime is Some && !manager.runtime->Some_0.powered_on
            &&& start.manager.run is None ==> start.publish == seq![
                CecReport::Status(
                    CecStatus {
                        powered_on: manager.runtime->Some_0.powered_on,
                        active_source: manager.runtime->Some_0.active_source,
                    },
                ),
            ]
            &&& start.manager.run is Some ==> start.publish.len() == 0
            &&& manager.runtime is None ==> start.action == Some(CecAction::Connect)
            &&& manager.runtime is Some ==> start.action == (match command {
                CecCommand::PowerOn => Some(CecAction::Standby),
                CecCommand::PowerOff => Some(CecAction::Standby),
                CecCommand::RequestActiveSource => Some(CecAction::SetActiveSource),
                CecCommand::RequestStatus => if manager.runtime->Some_0.powered_on {
                    Some(CecAction::Query)
                } else {
                    None
                },
            })
            &&& start.manager.runtime == manager.runtime
        }),
{
}

/// A new connection is reported with the status it brings, and the job goes on as if it had
/// been there before.
pub proof fn new_connection_is_reported(manager: CecManager, run: Run, snapshot: CecSnapshot)
    requires
        manager.wf(),
        manager.run == Some(run),
        run.waiting == Waiting::Connect,
    ensures
        ({
            let step = manager.after(run, CecReply::Connected(snapshot));
            let there = CecManager { runtime: Some(snapshot), run: None }.attempts(
                run.job,
                run.attempt,
            );
            &&& step.publish == seq![
                CecReport::Status(
                    CecStatus {
                        powered_on: snapshot.powered_on,
                        active_source: snapshot.active_source,
                    },
                ),
            ] + there.publish
            &&& step.action == there.action
            &&& step.manager == there.manager
            &&& step.manager.runtime == Some(snapshot)
        }),
{
}

/// A command that could not be sent gives the connection up, and the job is tried again
/// after half a second. Two commands are sent without looking at how that went: the ones
/// that only repeat that the source be shown.
pub proof fn failed_command_is_tried_again(manager: CecManager, run: Run)
    requires
        manager.wf(),
        manager.run == Some(run),
        run.expects(CecReply::Sent(false)),
        run.waiting != Waiting::FinalSource,
        run.waiting != Waiting::VerifySource,
    ensures
        ({
            let step = manager.after(run, CecReply::Sent(false));
            &&& step.manager.runtime is None
            &&& step.manager.run is Some
            &&& step.manager.run->Some_0.job == run.job
            &&& step.manager.run->Some_0.attempt == run.attempt
            &&& step.action == Some(CecAction::Sleep { ms: 500 })
            &&& step.publish.len() == 0
        }),
{
}

/// After the wait the next attempt starts from the beginning, over a new connection if the
/// old one was given up. The tenth attempt is the last one.
pub proof fn attempts_are_counted(manager: CecManager, run: Run)
    requires
        manager.wf(),
        manager.run == Some(run),
        run.waiting == Waiting::Retry,
    ensures
        ({
            let step = manager.after(run, CecReply::Slept);
            &&& step.manager.run is None <==> run.attempt == 10
            &&& run.attempt < 10 ==> {
                &&& step.manager.run->Some_0.attempt == run.attempt + 1
                &&& step.manager.run->Some_0.job == run.job
                &&& step.manager.run->Some_0.verify == 0
                &&& manager.runtime is None ==> step.action == Some(CecAction::Connect)
                &&& step.publish.len() == 0
            }
            &&& run.attempt == 10 ==> step.publish.len() == 1 && step.publish[0]
                == CecReport::Error(
                "cec command "@ + (match run.job {
                    Job::PowerOn => "power_on"@,
                    Job::PowerOff => "power_off"@,
                    _ => "request_active_source"@,
                }) + " failed after 10 attempts"@,
            )
            &&& step.manager.runtime == manager.runtime
        }),
{
}

/// Switching off is done when the standby was sent, and reported without asking the
/// television.
pub proof fn standby_switches_off(manager: CecManager, run: Run)
    requires
        manager.wf(),
        manager.run == Some(run),
        run.waiting == Waiting::Command,
        run.job == Job::PowerOff,
    ensures
        ({
            let off = CecSnapshot { powered_on: false, active_source: false };
            let step = manager.after(run, CecReply::Sent(true));
            &&& step.manager == (CecManager { runtime: Some(off), run: None })
            &&& step.publish == seq![
                CecReport::Status(CecStatus { powered_on: false, active_source: false }),
            ]
            &&& step.action is None
        }),
{
    let step = manager.after(run, CecReply::Sent(true));
    assert(step.publish =~= seq![
        CecReport::Status(CecStatus { powered_on: false, active_source: false }),
    ]);
}

/// Once a source was made active, the job ends as a question for the status does.
pub proof fn shown_source_is_followed_by_status(manager: CecManager, run: Run)
    requires
        manager.wf(),
        manager.run == Some(run),
        run.waiting == Waiting::Command,
        run.job == Job::ActiveSource,
    ensures
        ({
            let step = manager.after(run, CecReply::Sent(true));
            let asked = CecManager { run: None, ..manager }.attempts(Job::Status, run.attempt);
            &&& step.manager == asked.manager
            &&& step.publish == asked.publish
            &&& step.action == asked.action
            &&& step.manager.runtime == manager.runtime
        }),
{
}

/// Switching on a television that comes up at once: it is put on standby, shown the source
/// after a while, looked at after two more, shown the source once more and asked for what
/// is then reported.
pub proof fn switching_on_takes_its_course(
    manager: CecManager,
    attempt: u8,
    up: CecSnapshot,
    end: CecSnapshot,
    shown: bool,
)
    requires
        manager.runtime is Some,
        manager.run is None,
        up.powered_on,
    ensures
        ({
            let p0 = manager.attempts(Job::PowerOn, attempt);
            let p1 = p0.manager.after(p0.manager.run->Some_0, CecReply::Sent(true));
            let p2 = p1.manager.after(p1.manager.run->Some_0, CecReply::Slept);
            let p3 = p2.manager.after(p2.manager.run->Some_0, CecReply::Sent(true));
            let p4 = p3.manager.after(p3.manager.run->Some_0, CecReply::Slept);
            let p5 = p4.manager.after(p4.manager.run->Some_0, CecReply::Slept);
            let p6 = p5.manager.after(p5.manager.run->Some_0, CecReply::State(up));
            let p7 = p6.manager.after(p6.manager.run->Some_0, CecReply::Sent(shown));
            let p8 = p7.manager.after(p7.manager.run->Some_0, CecReply::State(end));
            &&& p0.action == Some(CecAction::Standby)
            &&& p1.action == Some(CecAction::Sleep { ms: 1_500 })
            &&& p2.action == Some(CecAction::SetActiveSource)
            &&& p3.action == Some(CecAction::Sleep { ms: 1_500 })
            &&& p4.action == Some(CecAction::Sleep { ms: 1_000 })
            &&& p5.action == Some(CecAction::Query)
            &&& p6.action == Some(CecAction::SetActiveSource)
            &&& p7.action == Some(CecAction::Query)
            &&& p5.manager.runtime == manager.runtime
            &&& p5.manager.run->Some_0.attempt == attempt
            &&& p5.manager.run->Some_0.verify == 0
            &&& p6.manager.runtime == Some(up)
            &&& p0.publish.len() + p1.publish.len() + p2.publish.len() + p3.publish.len()
                + p4.publish.len() + p5.publish.len() + p6.publish.len() + p7.publish.len() == 0
            &&& p8.action is None
            &&& p8.manager == (CecManager { runtime: Some(end), run: None })
            &&& p8.publish == seq![
                CecReport::Status(
                    CecStatus { powered_on: end.powered_on, active_source: end.active_source },
                ),
            ]
        }),
{
    let report = CecReport::Status(
        CecStatus { powered_on: end.powered_on, active_source: end.active_source },
    );
    assert(Seq::<CecReport>::empty().push(report) =~= seq![report]);
}

/// A television that is still off is told to switch on and to show the source, and looked at
/// again after a second; after ten looks the attempt has failed.
pub proof fn sleeping_television_is_woken_again(
    manager: CecManager,
    run: Run,
    seen: CecSnapshot,
    shown: bool,
)
    requires
        manager.wf(),
        manager.run == Some(run),
        run.waiting == Waiting::VerifyQuery,
        !seen.powered_on,
    ensures
        ({
            let p1 = manager.after(run, CecReply::State(seen));
            let p2 = p1.manager.after(p1.manager.run->Some_0, CecReply::Sent(true));
            let p3 = p2.manager.after(p2.manager.run->Some_0, CecReply::Sent(shown));
            &&& p1.action == Some(CecAction::PowerOn)
            &&& p1.manager.runtime == Some(seen)
            &&& p2.action == Some(CecAction::SetActiveSource)
            &&& run.verify < 9 ==> p3.action == Some(CecAction::Sleep { ms: 1_000 })
                && p3.manager.run->Some_0.verify == run.verify + 1 && p3.manager.runtime == Some(
                seen,
            ) && p3.manager.after(p3.manager.run->Some_0, CecReply::Slept).action == Some(
                CecAction::Query,
            )
            &&& run.verify == 9 ==> p3.action == Some(CecAction::Sleep { ms: 500 })
                && p3.manager.runtime is None && p3.manager.run->Some_0.attempt == run.attempt
        }),
{
}

/// The regular look commands nothing: it connects where there is no connection, asks a
/// television that was on, and leaves one that was off alone. A change is reported as it
/// was seen.
pub proof fn polling_only_looks(manager: CecManager, seen: CecSnapshot)
    requires
        manager.run is None,
    ensures
        ({
            let start = manager.attempts(Job::Poll, 1);
            &&& start.publish.len() == 0
            &&& start.action == (if manager.runtime is None {
                Some(CecAction::Connect)
            } else if manager.runtime->Some_0.powered_on {
                Some(CecAction::Query)
            } else {
                None
            })
            &&& start.manager.runtime == manager.runtime
            &&& manager.runtime is Some && manager.runtime->Some_0.powered_on
                && manager.runtime->Some_0 != seen ==> {
                let found = start.manager.after(
                    start.manager.run->Some_0,
                    CecReply::State(seen),
                );
                &&& found.publish == seq![
                    CecReport::Status(
                        CecStatus {
                            powered_on: seen.powered_on,
                            active_source: seen.active_source,
                        },
                    ),
                ]
                &&& found.manager == (CecManager { runtime: Some(seen), run: None })
            }
        }),
{
    let report = CecReport::Status(
        CecStatus { powered_on: seen.powered_on, active_source: seen.active_source },
    );
    assert(Seq::<CecReport>::empty().push(report) =~= seq![report]);
}

/// A connection that cannot be made is reported; a question ends with that, and any other
/// job is tried again after half a second.
pub proof fn failed_connection_is_reported(manager: CecManager, run: Run, err: String)
    requires
        manager.wf(),
        manager.run == Some(run),
        run.waiting == Waiting::Connect,
    ensures
        ({
            let step = manager.after(run, CecReply::ConnectFailed(err));
            &&& step.publish.len() == 1
            &&& step.publish[0] == CecReport::Error("cec reconnection failed: "@ + err@)
            &&& step.manager.runtime is None
            &&& run.job == Job::Status || run.job == Job::Poll <==> step.manager.run is None
            &&& step.manager.run is Some ==> step.action == Some(CecAction::Sleep { ms: 500 })
                && step.manager.run->Some_0.attempt == run.attempt && step.manager.run->Some_0.job
                == run.job
        }),
{
}

} // verus!
