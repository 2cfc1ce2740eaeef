//! The decisions of the daemon loop, of its local requests, and of waiting for it to come up.
//!
//! Sockets, timers and the process manager stand outside. Each function here takes what happened
//! and says what is done next.

use crate::errors::OxmgrError;
use crate::identity::optional_text;
use crate::process::{get_process, place_of, ManagedProcess};
use crate::text::{decimal, push_decimal, same_text};
use vstd::prelude::*;

verus! {

/// How long the restart timer sleeps, in seconds, when no restart is scheduled.
pub const DISABLED_RESTART_SLEEP_SECS: u64 = 86_400;

/// A second, in nanoseconds.
pub const NANOS_PER_SEC: u64 = 1_000_000_000;

/// Something the daemon loop waits for.
#[derive(Debug, Clone, Copy, PartialEq, Eq, Structural)]
pub enum DaemonEvent {
    /// A local client connected.
    Connected,
    /// Accepting a local client failed.
    AcceptFailed,
    /// A local request for the manager.
    IpcCommand,
    /// An HTTP request for the manager.
    ApiCommand,
    /// A managed process exited.
    ProcessExited,
    /// The restart timer fired.
    RestartDue,
    /// The maintenance timer fired.
    MaintenanceTick,
    /// A local request asked for a shutdown.
    ShutdownRequested,
    /// The process was told to stop by a signal.
    Signalled,
}

/// Something the daemon loop does.
#[derive(Debug, Clone, Copy, PartialEq, Eq, Structural)]
pub enum DaemonEffect {
    ServeClient,
    ReportAcceptFailure,
    ExecuteIpc,
    ExecuteApi,
    HandleExit,
    RunScheduledRestarts,
    RunPeriodicTasks,
    /// Publish the manager's state to the readers.
    Publish,
    /// Set the restart timer anew.
    ResetRestartTimer,
    CloseListener,
    StopApi,
    /// Tell the background tasks to stop.
    RaiseStopFlag,
    AnnounceShutdown,
    ShutDownAll,
    /// Leave the loop.
    Stop,
}

impl DaemonEffect {
    /// Whether the effect can change what the manager holds.
    pub open spec fn touches_manager(self) -> bool {
        match self {
            DaemonEffect::ExecuteIpc
            | DaemonEffect::ExecuteApi
            | DaemonEffect::HandleExit
            | DaemonEffect::RunScheduledRestarts
            | DaemonEffect::RunPeriodicTasks
            | DaemonEffect::ShutDownAll => true,
            _ => false,
        }
    }
}

/// Work for the manager, followed by what keeps the readers and the timer up to date.
pub open spec fn managed_work(work: DaemonEffect) -> Seq<DaemonEffect> {
    seq![work, DaemonEffect::Publish, DaemonEffect::ResetRestartTimer]
}

/// The way down: no new requests, then everything is told, then the processes are stopped, and what
/// is left is published.
pub open spec fn way_down() -> Seq<DaemonEffect> {
    seq![
        DaemonEffect::CloseListener,
        DaemonEffect::StopApi,
        DaemonEffect::RaiseStopFlag,
        DaemonEffect::AnnounceShutdown,
        DaemonEffect::ShutDownAll,
        DaemonEffect::Publish,
        DaemonEffect::Stop,
    ]
}

/// What the loop does about an event, in order.
pub open spec fn effects_of(event: DaemonEvent) -> Seq<DaemonEffect> {
    match event {
        DaemonEvent::Connected => seq![DaemonEffect::ServeClient],
        DaemonEvent::AcceptFailed => seq![DaemonEffect::ReportAcceptFailure],
        DaemonEvent::IpcCommand => managed_work(DaemonEffect::ExecuteIpc),
        DaemonEvent::ApiCommand => managed_work(DaemonEffect::ExecuteApi),
        DaemonEvent::ProcessExited => managed_work(DaemonEffect::HandleExit),
        DaemonEvent::RestartDue => managed_work(DaemonEffect::RunScheduledRestarts),
        DaemonEvent::MaintenanceTick => managed_work(DaemonEffect::RunPeriodicTasks),
        DaemonEvent::ShutdownRequested | DaemonEvent::Signalled => way_down(),
    }
}

fn plan_work(work: DaemonEffect) -> (effects: Vec<DaemonEffect>)
    ensures
        effects@ == managed_work(work),
{
    let effects: Vec<DaemonEffect> = vec![
        work,
        DaemonEffect::Publish,
        DaemonEffect::ResetRestartTimer,
    ];
    assert(effects@ =~= managed_work(work));
    effects
}

/// What the loop does about an event, in order.
pub fn run_foreground_step(event: DaemonEvent) -> (effects: Vec<DaemonEffect>)
    ensures
        effects@ == effects_of(event),
{
    match event {
        DaemonEvent::Connected => {
            let effects: Vec<DaemonEffect> = vec![DaemonEffect::ServeClient];
            assert(effects@ =~= effects_of(event));
            effects
        },
        DaemonEvent::AcceptFailed => {
            let effects: Vec<DaemonEffect> = vec![DaemonEffect::ReportAcceptFailure];
            assert(effects@ =~= effects_of(event));
            effects
        },
        DaemonEvent::IpcCommand => plan_work(DaemonEffect::ExecuteIpc),
        DaemonEvent::ApiCommand => plan_work(DaemonEffect::ExecuteApi),
        DaemonEvent::ProcessExited => plan_work(DaemonEffect::HandleExit),
        DaemonEvent::RestartDue => plan_work(DaemonEffect::RunScheduledRestarts),
        DaemonEvent::MaintenanceTick => plan_work(DaemonEffect::RunPeriodicTasks),
        DaemonEvent::ShutdownRequested | DaemonEvent::Signalled => {
            let effects: Vec<DaemonEffect> = vec![
                DaemonEffect::CloseListener,
                DaemonEffect::StopApi,
                DaemonEffect::RaiseStopFlag,
                DaemonEffect::AnnounceShutdown,
                DaemonEffect::ShutDownAll,
                DaemonEffect::Publish,
                DaemonEffect::Stop,
            ];
            assert(effects@ =~= way_down());
            effects
        },
    }
}

/// Readers never stay behind: whatever can change what the manager holds is followed at once by a
/// publication, and unless the loop ends, by setting the restart timer anew.
pub proof fn every_change_is_published(event: DaemonEvent, at: int)
    requires
        0 <= at < effects_of(event).len(),
        effects_of(event)[at].touches_manager(),
    ensures
        at + 2 < effects_of(event).len(),
        effects_of(event)[at + 1] == DaemonEffect::Publish,
        effects_of(event)[at + 2] == DaemonEffect::ResetRestartTimer || effects_of(event)[at + 2]
            == DaemonEffect::Stop,
{
}

/// The loop ends on a shutdown request and on a signal, and on nothing else. By then the managed
/// processes were shut down, after the listener was closed and the background tasks were told.
pub proof fn the_loop_ends_only_on_shutdown(event: DaemonEvent)
    ensures
        effects_of(event).contains(DaemonEffect::Stop) <==> (event == DaemonEvent::ShutdownRequested
            || event == DaemonEvent::Signalled),
        effects_of(event).contains(DaemonEffect::Stop) ==> effects_of(event) == way_down(),
{
    let effects = effects_of(event);
    if event == DaemonEvent::ShutdownRequested || event == DaemonEvent::Signalled {
        assert(effects[6] == DaemonEffect::Stop);
    } else {
        assert(forall|i: int| 0 <= i < effects.len() ==> effects[i] != DaemonEffect::Stop);
    }
}

/// What follows when an effect fails.
#[derive(Debug, PartialEq, Eq)]
pub enum FailureResponse {
    /// The failure is reported, and the loop goes on.
    Report(String),
    /// The loop ends with the failure.
    Abort,
    /// The effect has no failure, or the failure says that nobody is left to tell.
    Ignore,
}

/// What an effect's failure is reported as, where it is reported.
pub open spec fn failure_head(effect: DaemonEffect) -> Option<Seq<char>> {
    match effect {
        DaemonEffect::ServeClient => Some("failed to handle IPC client: "@),
        DaemonEffect::ReportAcceptFailure => Some("IPC accept failed: "@),
        DaemonEffect::HandleExit => Some("failed to process exit event: "@),
        DaemonEffect::RunScheduledRestarts => Some("scheduled restart task failed: "@),
        DaemonEffect::RunPeriodicTasks => Some("periodic manager task failed: "@),
        _ => None,
    }
}

/// What follows when an effect fails.
pub fn on_failure(effect: DaemonEffect, error: &str) -> (response: FailureResponse)
    ensures
        match failure_head(effect) {
            Some(head) => response matches FailureResponse::Report(text) && text@ == head + error@,
            None => response == (if effect == DaemonEffect::ShutDownAll {
                FailureResponse::Abort
            } else {
                FailureResponse::Ignore
            }),
        },
{
    let head: &'static str = match effect {
        DaemonEffect::ServeClient => "failed to handle IPC client: ",
        DaemonEffect::ReportAcceptFailure => "IPC accept failed: ",
        DaemonEffect::HandleExit => "failed to process exit event: ",
        DaemonEffect::RunScheduledRestarts => "scheduled restart task failed: ",
        DaemonEffect::RunPeriodicTasks => "periodic manager task failed: ",
        DaemonEffect::ShutDownAll => {
            return FailureResponse::Abort;
        },
        _ => {
            return FailureResponse::Ignore;
        },
    };
    let mut text = head.to_owned();
    text.append(error);
    FailureResponse::Report(text)
}

/// When the restart timer fires: when the next restart is due, or a day from now. Instants are in
/// nanoseconds from a common origin.
pub fn restart_sleep_deadline(next_due_at: Option<u64>, now: u64) -> (deadline: u64)
    requires
        next_due_at is None ==> now + DISABLED_RESTART_SLEEP_SECS * NANOS_PER_SEC <= u64::MAX,
    ensures
        deadline == (match next_due_at {
            Some(due) => due as int,
            None => now + DISABLED_RESTART_SLEEP_SECS * NANOS_PER_SEC,
        }),
{
    match next_due_at {
        Some(due) => due,
        None => now + DISABLED_RESTART_SLEEP_SECS * NANOS_PER_SEC,
    }
}

/// How often a spawned daemon is probed before it is given up.
pub const READINESS_PROBES: u32 = 300;

/// How long to wait between two probes, in milliseconds.
pub const READINESS_PAUSE_MS: u64 = 100;

/// How far the wait for a daemon has come.
#[derive(Debug, Clone, Copy, PartialEq, Eq, Structural)]
pub enum Readiness {
    /// Nothing was spawned yet.
    Unspawned,
    /// A daemon was spawned, and this many probes of it found nothing.
    Spawned { missed: u32 },
}

/// Something the wait for a daemon learns.
#[derive(Debug, Clone, Copy, PartialEq, Eq, Structural)]
pub enum ReadinessEvent {
    /// A probe was answered, or was not.
    Probed { available: bool },
    /// A daemon was spawned.
    Spawned,
    /// The pause is over.
    Paused,
}

/// What the wait for a daemon does next.
#[derive(Debug, Clone, Copy, PartialEq, Eq, Structural)]
pub enum ReadinessAction {
    Probe,
    Spawn,
    Pause { millis: u64 },
    /// The daemon is running.
    Ready,
    /// The daemon did not become ready in time.
    GiveUp,
}

/// What the wait does next, and how far it has then come. Every probe of a spawned daemon that finds
/// nothing is followed by a pause.
pub open spec fn readiness_next(state: Readiness, event: ReadinessEvent) -> (
    Readiness,
    ReadinessAction,
) {
    match event {
        ReadinessEvent::Probed { available } => if available {
            (state, ReadinessAction::Ready)
        } else {
            match state {
                Readiness::Unspawned => (state, ReadinessAction::Spawn),
                Readiness::Spawned { missed } => (
                    Readiness::Spawned {
                        missed: if missed < READINESS_PROBES {
                            (missed + 1) as u32
                        } else {
                            missed
                        },
                    },
                    ReadinessAction::Pause { millis: READINESS_PAUSE_MS },
                ),
            }
        },
        ReadinessEvent::Spawned => (Readiness::Spawned { missed: 0 }, ReadinessAction::Probe),
        ReadinessEvent::Paused => match state {
            Readiness::Spawned { missed } if missed >= READINESS_PROBES => (
                state,
                ReadinessAction::GiveUp,
            ),
            _ => (state, ReadinessAction::Probe),
        },
    }
}

/// What the wait for a daemon does next, and how far it has then come.
pub fn ensure_daemon_running_step(state: Readiness, event: ReadinessEvent) -> (next: (
    Readiness,
    ReadinessAction,
))
    ensures
        next == readiness_next(state, event),
{
    match event {
        ReadinessEvent::Probed { available } => if available {
            (state, ReadinessAction::Ready)
        } else {
            match state {
                Readiness::Unspawned => (state, ReadinessAction::Spawn),
                Readiness::Spawned { missed } => {
                    let more: u32 = if missed < READINESS_PROBES {
                        missed + 1
                    } else {
                        missed
                    };
                    (
                        Readiness::Spawned { missed: more },
                        ReadinessAction::Pause { millis: READINESS_PAUSE_MS },
                    )
                },
            }
        },
        ReadinessEvent::Spawned => (Readiness::Spawned { missed: 0 }, ReadinessAction::Probe),
        ReadinessEvent::Paused => match state {
            Readiness::Spawned { missed } => if missed >= READINESS_PROBES {
                (state, ReadinessAction::GiveUp)
            } else {
                (state, ReadinessAction::Probe)
            },
            Readiness::Unspawned => (state, ReadinessAction::Probe),
        },
    }
}

/// The state after a spawned daemon was probed in vain, and waited for, a number of times.
pub open spec fn after_misses(count: nat) -> Readiness
    decreases count,
{
    if count == 0 {
        readiness_next(Readiness::Unspawned, ReadinessEvent::Spawned).0
    } else {
        readiness_next(
            readiness_next(
                after_misses((count - 1) as nat),
                ReadinessEvent::Probed { available: false },
            ).0,
            ReadinessEvent::Paused,
        ).0
    }
}

/// The wait is bounded: a spawned daemon that never answers is probed exactly [`READINESS_PROBES`]
/// times and then given up.
pub proof fn an_absent_daemon_is_given_up(count: nat)
    requires
        0 < count <= READINESS_PROBES,
    ensures
        after_misses(count) == (Readiness::Spawned { missed: count as u32 }),
        ({
            let probed = readiness_next(
                after_misses((count - 1) as nat),
                ReadinessEvent::Probed { available: false },
            );
            &&& probed.1 == ReadinessAction::Pause { millis: READINESS_PAUSE_MS }
            &&& readiness_next(probed.0, ReadinessEvent::Paused).1 == (if count
                == READINESS_PROBES {
                ReadinessAction::GiveUp
            } else {
                ReadinessAction::Probe
            })
        }),
    decreases count,
{
    if count > 1 {
        an_absent_daemon_is_given_up((count - 1) as nat);
    } else {
        assert(after_misses(0) == Readiness::Spawned { missed: 0 });
    }
}

/// Why the daemon does not listen: another one answers at its address.
pub fn bind_refusal(available: bool) -> (refusal: Option<OxmgrError>)
    ensures
        refusal == (if available {
            Some(OxmgrError::DaemonAlreadyRunning)
        } else {
            None
        }),
{
    if available {
        Some(OxmgrError::DaemonAlreadyRunning)
    } else {
        None
    }
}

/// A request from a local client. `S` describes a process to start; it is handed on unread.
#[derive(Debug, PartialEq, Eq)]
pub enum IpcRequest<S> {
    Ping,
    Shutdown,
    Start { spec: S },
    Stop { target: String },
    Restart { target: String },
    Reload { target: String },
    Pull { target: Option<String> },
    Delete { target: String },
    List,
    Status { target: String },
    Logs { target: String },
    Findings { target: Option<String> },
}

/// A call for a local request, with what it is made with.
#[derive(Debug, PartialEq, Eq)]
pub enum IpcCall<S> {
    ScheduleShutdown,
    Start { spec: S },
    StopAll,
    Stop { target: String },
    RestartAll,
    Restart { target: String },
    Reload { target: String },
    Pull { target: Option<String> },
    DeleteAll,
    Delete { target: String },
    List,
    Status { target: String },
    Logs { target: String },
    /// Look up the process that the findings are asked of.
    Resolve { target: String },
    /// The findings of one process, or of all.
    Findings { target: Option<String> },
}

/// What a call came to.
#[derive(Debug, PartialEq, Eq)]
pub enum IpcOutcome {
    /// It was carried out on one process.
    Process { label: String },
    /// It was carried out on this many processes.
    Processes { count: usize },
    /// It was carried out, with a report.
    Report { message: String },
    /// It was carried out.
    Done,
    Failed { message: String },
}

/// What a reply carries besides its message.
#[derive(Debug, Clone, Copy, PartialEq, Eq, Structural)]
pub enum IpcPayload {
    Nothing,
    /// The process the call was about.
    Process,
    /// The processes the call was about.
    Processes,
    Logs,
    Findings,
}

/// A reply to a local request.
#[derive(Debug, PartialEq, Eq)]
pub struct IpcReply {
    pub ok: bool,
    pub message: String,
    pub payload: IpcPayload,
}

/// The next step of a local request.
#[derive(Debug, PartialEq, Eq)]
pub enum IpcStep<S> {
    Call(IpcCall<S>),
    Reply(IpcReply),
}

impl<S> IpcStep<S> {
    /// Whether the step is a reply that says the request succeeded.
    pub open spec fn accepts(self, message: Seq<char>, payload: IpcPayload) -> bool {
        self matches IpcStep::Reply(reply) && reply.ok && reply.message@ == message && reply.payload
            == payload
    }

    /// Whether the step is a reply that says the request failed.
    pub open spec fn rejects(self, message: Seq<char>) -> bool {
        self matches IpcStep::Reply(reply) && !reply.ok && reply.message@ == message && reply.payload
            == IpcPayload::Nothing
    }
}

fn accept<S>(message: &str, payload: IpcPayload) -> (step: IpcStep<S>)
    ensures
        step.accepts(message@, payload),
{
    IpcStep::Reply(IpcReply { ok: true, message: message.to_owned(), payload })
}

fn reject<S>(message: &str) -> (step: IpcStep<S>)
    ensures
        step.rejects(message@),
{
    IpcStep::Reply(
        IpcReply { ok: false, message: message.to_owned(), payload: IpcPayload::Nothing },
    )
}

/// The call that a local request begins with, if it needs one: it is made with what the request
/// carries.
pub open spec fn first_call<S>(request: IpcRequest<S>) -> Option<IpcCall<S>> {
    match request {
        IpcRequest::Ping => None,
        IpcRequest::Shutdown => Some(IpcCall::ScheduleShutdown),
        IpcRequest::Start { spec } => Some(IpcCall::Start { spec }),
        IpcRequest::Stop { target } => if target@ == "all"@ {
            Some(IpcCall::StopAll)
        } else {
            Some(IpcCall::Stop { target })
        },
        IpcRequest::Restart { target } => if target@ == "all"@ {
            Some(IpcCall::RestartAll)
        } else {
            Some(IpcCall::Restart { target })
        },
        IpcRequest::Reload { target } => Some(IpcCall::Reload { target }),
        IpcRequest::Pull { target } => Some(IpcCall::Pull { target }),
        IpcRequest::Delete { target } => if target@ == "all"@ {
            Some(IpcCall::DeleteAll)
        } else {
            Some(IpcCall::Delete { target })
        },
        IpcRequest::List => Some(IpcCall::List),
        IpcRequest::Status { target } => Some(IpcCall::Status { target }),
        IpcRequest::Logs { target } => Some(IpcCall::Logs { target }),
        IpcRequest::Findings { target } => match target {
            Some(target) => Some(IpcCall::Resolve { target }),
            None => Some(IpcCall::Findings { target: None }),
        },
    }
}

/// The first step of a local request.
pub fn begin_request<S>(request: IpcRequest<S>) -> (step: IpcStep<S>)
    ensures
        match first_call(request) {
            Some(call) => step == IpcStep::Call(call),
            None => step.accepts("pong"@, IpcPayload::Nothing),
        },
{
    match request {
        IpcRequest::Ping => accept("pong", IpcPayload::Nothing),
        IpcRequest::Shutdown => IpcStep::Call(IpcCall::ScheduleShutdown),
        IpcRequest::Start { spec } => IpcStep::Call(IpcCall::Start { spec }),
        IpcRequest::Stop { target } => if same_text(target.as_str(), "all") {
            IpcStep::Call(IpcCall::StopAll)
        } else {
            IpcStep::Call(IpcCall::Stop { target })
        },
        IpcRequest::Restart { target } => if same_text(target.as_str(), "all") {
            IpcStep::Call(IpcCall::RestartAll)
        } else {
            IpcStep::Call(IpcCall::Restart { target })
        },
        IpcRequest::Reload { target } => IpcStep::Call(IpcCall::Reload { target }),
        IpcRequest::Pull { target } => IpcStep::Call(IpcCall::Pull { target }),
        IpcRequest::Delete { target } => if same_text(target.as_str(), "all") {
            IpcStep::Call(IpcCall::DeleteAll)
        } else {
            IpcStep::Call(IpcCall::Delete { target })
        },
        IpcRequest::List => IpcStep::Call(IpcCall::List),
        IpcRequest::Status { target } => IpcStep::Call(IpcCall::Status { target }),
        IpcRequest::Logs { target } => IpcStep::Call(IpcCall::Logs { target }),
        IpcRequest::Findings { target } => match target {
            Some(target) => IpcStep::Call(IpcCall::Resolve { target }),
            None => IpcStep::Call(IpcCall::Findings { target: None }),
        },
    }
}

/// What was done, in the past tense, for the calls that change processes.
pub open spec fn past_tense<S>(call: IpcCall<S>) -> Seq<char> {
    match call {
        IpcCall::Start { .. } => "started "@,
        IpcCall::StopAll | IpcCall::Stop { .. } => "stopped "@,
        IpcCall::RestartAll | IpcCall::Restart { .. } => "restarted "@,
        IpcCall::Reload { .. } => "reloaded "@,
        IpcCall::DeleteAll | IpcCall::Delete { .. } => "deleted "@,
        _ => Seq::empty(),
    }
}

/// Whether a step is the one that follows a call and its outcome.
pub open spec fn follows<S>(call: IpcCall<S>, outcome: IpcOutcome, step: IpcStep<S>) -> bool {
    match call {
        IpcCall::ScheduleShutdown => step.accepts(
            "daemon shutdown scheduled"@,
            IpcPayload::Nothing,
        ),
        IpcCall::List => step.accepts("ok"@, IpcPayload::Processes),
        IpcCall::Findings { .. } => step.accepts("ok"@, IpcPayload::Findings),
        IpcCall::Resolve { target } => match outcome {
            IpcOutcome::Failed { message } => step.rejects(message@),
            _ => step == IpcStep::Call(IpcCall::<S>::Findings { target: Some(target) }),
        },
        _ => match outcome {
            IpcOutcome::Failed { message } => step.rejects(message@),
            IpcOutcome::Process { label } => match call {
                IpcCall::Status { .. } => step.accepts("ok"@, IpcPayload::Process),
                IpcCall::Logs { .. } => step.accepts("ok"@, IpcPayload::Logs),
                _ => step.accepts(past_tense(call) + label@, IpcPayload::Process),
            },
            IpcOutcome::Processes { count } => step.accepts(
                past_tense(call) + decimal(count as nat) + " process(es)"@,
                IpcPayload::Processes,
            ),
            IpcOutcome::Report { message } => step.accepts(message@, IpcPayload::Nothing),
            IpcOutcome::Done => match call {
                IpcCall::Status { .. } => step.accepts("ok"@, IpcPayload::Process),
                IpcCall::Logs { .. } => step.accepts("ok"@, IpcPayload::Logs),
                _ => step.accepts("ok"@, IpcPayload::Nothing),
            },
        },
    }
}

fn past_tense_of<S>(call: &IpcCall<S>) -> (text: &'static str)
    ensures
        text@ == past_tense(*call),
{
    match call {
        IpcCall::Start { .. } => "started ",
        IpcCall::StopAll | IpcCall::Stop { .. } => "stopped ",
        IpcCall::RestartAll | IpcCall::Restart { .. } => "restarted ",
        IpcCall::Reload { .. } => "reloaded ",
        IpcCall::DeleteAll | IpcCall::Delete { .. } => "deleted ",
        _ => {
            proof {
                reveal_strlit("");
            }
            assert(""@ =~= Seq::<char>::empty());
            ""
        },
    }
}

/// The step that follows a call and its outcome.
pub fn execute_request<S>(call: &IpcCall<S>, outcome: &IpcOutcome) -> (step: IpcStep<S>)
    ensures
        follows(*call, *outcome, step),
{
    match call {
        IpcCall::ScheduleShutdown => {
            return accept("daemon shutdown scheduled", IpcPayload::Nothing);
        },
        IpcCall::List => {
            return accept("ok", IpcPayload::Processes);
        },
        IpcCall::Findings { .. } => {
            return accept("ok", IpcPayload::Findings);
        },
        IpcCall::Resolve { target } => {
            return match outcome {
                IpcOutcome::Failed { message } => reject(message.as_str()),
                _ => IpcStep::Call(IpcCall::Findings { target: Some(target.clone()) }),
            };
        },
        _ => {},
    }
    match outcome {
        IpcOutcome::Failed { message } => reject(message.as_str()),
        IpcOutcome::Process { label } => match call {
            IpcCall::Status { .. } => accept("ok", IpcPayload::Process),
            IpcCall::Logs { .. } => accept("ok", IpcPayload::Logs),
            _ => {
                let mut text = past_tense_of(call).to_owned();
                text.append(label.as_str());
                accept(text.as_str(), IpcPayload::Process)
            },
        },
        IpcOutcome::Processes { count } => {
            let mut text = past_tense_of(call).to_owned();
            push_decimal(&mut text, *count as u64);
            text.append(" process(es)");
            accept(text.as_str(), IpcPayload::Processes)
        },
        IpcOutcome::Report { message } => accept(message.as_str(), IpcPayload::Nothing),
        IpcOutcome::Done => match call {
            IpcCall::Status { .. } => accept("ok", IpcPayload::Process),
            IpcCall::Logs { .. } => accept("ok", IpcPayload::Logs),
            _ => accept("ok", IpcPayload::Nothing),
        },
    }
}

/// Findings asked of a process that is not known are refused, never answered with an empty report;
/// of one that is known, the findings of that process are asked for.
pub proof fn findings_of_the_unknown_are_refused<S>(
    target: String,
    outcome: IpcOutcome,
    step: IpcStep<S>,
)
    requires
        follows(IpcCall::Resolve { target }, outcome, step),
    ensures
        first_call(IpcRequest::<S>::Findings { target: Some(target) }) == Some(
            IpcCall::<S>::Resolve { target },
        ),
        outcome matches IpcOutcome::Failed { message } ==> step.rejects(message@),
        !(outcome is Failed) ==> step == IpcStep::Call(
            IpcCall::<S>::Findings { target: Some(target) },
        ),
{
}

/// The process that a call is about, where it is about one.
pub open spec fn call_target<S>(call: IpcCall<S>) -> Option<Seq<char>> {
    match call {
        IpcCall::Stop { target } => Some(target@),
        IpcCall::Restart { target } => Some(target@),
        IpcCall::Reload { target } => Some(target@),
        IpcCall::Delete { target } => Some(target@),
        IpcCall::Status { target } => Some(target@),
        IpcCall::Logs { target } => Some(target@),
        IpcCall::Resolve { target } => Some(target@),
        IpcCall::Pull { target } => optional_text(target),
        IpcCall::Findings { target } => optional_text(target),
        _ => None,
    }
}

/// The process that a request names, where it names one and not all of them.
pub open spec fn request_target<S>(request: IpcRequest<S>) -> Option<Seq<char>> {
    match request {
        IpcRequest::Stop { target } | IpcRequest::Restart { target } | IpcRequest::Delete {
            target,
        } => if target@ == "all"@ {
            None
        } else {
            Some(target@)
        },
        IpcRequest::Reload { target } => Some(target@),
        IpcRequest::Status { target } => Some(target@),
        IpcRequest::Logs { target } => Some(target@),
        IpcRequest::Pull { target } => optional_text(target),
        IpcRequest::Findings { target } => optional_text(target),
        _ => None,
    }
}

/// Every call for a local request is about the process that the request names: the first one, and
/// one that follows it.
pub proof fn a_call_is_about_the_process_named<S>(
    request: IpcRequest<S>,
    outcome: IpcOutcome,
    next: IpcStep<S>,
)
    requires
        first_call(request) is Some,
        follows(first_call(request)->0, outcome, next),
    ensures
        call_target(first_call(request)->0) == request_target(request),
        next matches IpcStep::Call(call) ==> call_target(call) == request_target(request),
{
}

/// The log files of a process.
#[derive(Debug, PartialEq, Eq)]
pub struct ProcessLogs {
    pub stdout: String,
    pub stderr: String,
}

/// The log files of the process that a target names.
pub fn logs_for(processes: &[ManagedProcess], target: &str) -> (logs: Option<ProcessLogs>)
    ensures
        match place_of(processes@, target@) {
            Some(at) => logs matches Some(logs) && 0 <= at < processes@.len() && logs.stdout@
                == processes@[at].stdout_log@ && logs.stderr@ == processes@[at].stderr_log@,
            None => logs is None,
        },
{
    match get_process(processes, target) {
        Some(at) => Some(
            ProcessLogs {
                stdout: processes[at].stdout_log.clone(),
                stderr: processes[at].stderr_log.clone(),
            },
        ),
        None => None,
    }
}

/// An answer from the published listing.
#[derive(Debug, PartialEq, Eq)]
pub enum SnapshotAnswer {
    Pong,
    /// The whole listing.
    Listing,
    /// The process at a place of the listing.
    Process(usize),
    Logs(ProcessLogs),
}

impl SnapshotAnswer {
    /// The message of the answer, in characters.
    pub open spec fn message_text(self) -> Seq<char> {
        match self {
            SnapshotAnswer::Pong => "pong"@,
            _ => "ok"@,
        }
    }

    /// The message of the answer.
    pub fn message(&self) -> (text: &'static str)
        ensures
            text@ == self.message_text(),
    {
        match self {
            SnapshotAnswer::Pong => "pong",
            _ => "ok",
        }
    }
}

/// The answer that the published listing gives to a request, if it has one. Everything else goes to
/// the manager.
pub fn execute_snapshot_request<S>(
    request: &IpcRequest<S>,
    processes: &[ManagedProcess],
) -> (answer: Option<SnapshotAnswer>)
    ensures
        match *request {
            IpcRequest::Ping => answer == Some(SnapshotAnswer::Pong),
            IpcRequest::List => answer == Some(SnapshotAnswer::Listing),
            IpcRequest::Status { target } => match place_of(processes@, target@) {
                Some(at) => answer matches Some(SnapshotAnswer::Process(place)) && place == at && at
                    < processes@.len(),
                None => answer is None,
            },
            IpcRequest::Logs { target } => match place_of(processes@, target@) {
                Some(at) => answer matches Some(SnapshotAnswer::Logs(logs)) && 0 <= at
                    < processes@.len() && logs.stdout@ == processes@[at].stdout_log@
                    && logs.stderr@ == processes@[at].stderr_log@,
                None => answer is None,
            },
            _ => answer is None,
        },
{
    match request {
        IpcRequest::Ping => Some(SnapshotAnswer::Pong),
        IpcRequest::List => Some(SnapshotAnswer::Listing),
        IpcRequest::Status { target } => match get_process(processes, target.as_str()) {
            Some(place) => Some(SnapshotAnswer::Process(place)),
            None => None,
        },
        IpcRequest::Logs { target } => match logs_for(processes, target.as_str()) {
            Some(logs) => Some(SnapshotAnswer::Logs(logs)),
            None => None,
        },
        _ => None,
    }
}

/// How reading or writing a stream failed.
#[derive(Debug, Clone, Copy, PartialEq, Eq, Structural)]
pub enum StreamFailure {
    BrokenPipe,
    ConnectionReset,
    UnexpectedEof,
    Other,
}

/// Whether a failure only says that the client went away. A failure that is not one of a stream
/// never does.
pub fn is_client_disconnect(failure: Option<StreamFailure>) -> (gone: bool)
    ensures
        gone == (failure == Some(StreamFailure::BrokenPipe) || failure == Some(
            StreamFailure::ConnectionReset,
        ) || failure == Some(StreamFailure::UnexpectedEof)),
{
    match failure {
        Some(StreamFailure::BrokenPipe)
        | Some(StreamFailure::ConnectionReset)
        | Some(StreamFailure::UnexpectedEof) => true,
        _ => false,
    }
}

/// What the event bus handed to a subscriber.
#[derive(Debug, Clone, Copy, PartialEq, Eq, Structural)]
pub enum BusReception {
    /// An event, and whether the subscriber's filter lets it pass.
    Event { passes: bool },
    /// Events were dropped because the subscriber was slow.
    Lagged { dropped: u64 },
    Closed,
}

/// What is done for a subscriber.
#[derive(Debug, Clone, Copy, PartialEq, Eq, Structural)]
pub enum SubscriberStep {
    Send,
    Skip,
    WarnLagged { dropped: u64 },
    Finish,
}

/// What is done for a subscriber about what the bus handed to it. Only the closing of the bus ends a
/// subscription.
pub fn handle_event_client(reception: BusReception) -> (step: SubscriberStep)
    ensures
        step == (match reception {
            BusReception::Event { passes } => if passes {
                SubscriberStep::Send
            } else {
                SubscriberStep::Skip
            },
            BusReception::Lagged { dropped } => SubscriberStep::WarnLagged { dropped },
            BusReception::Closed => SubscriberStep::Finish,
        }),
{
    match reception {
        BusReception::Event { passes } => if passes {
            SubscriberStep::Send
        } else {
            SubscriberStep::Skip
        },
        BusReception::Lagged { dropped } => SubscriberStep::WarnLagged { dropped },
        BusReception::Closed => SubscriberStep::Finish,
    }
}

/// Each event is answered with its own work and no other's: requests are carried out, an exit is
/// handled, due restarts and periodic tasks are run, and a client is served.
pub proof fn each_event_has_its_own_work(event: DaemonEvent)
    ensures
        effects_of(event).contains(DaemonEffect::ServeClient) <==> event is Connected,
        effects_of(event).contains(DaemonEffect::ReportAcceptFailure) <==> event is AcceptFailed,
        effects_of(event).contains(DaemonEffect::ExecuteIpc) <==> event is IpcCommand,
        effects_of(event).contains(DaemonEffect::ExecuteApi) <==> event is ApiCommand,
        effects_of(event).contains(DaemonEffect::HandleExit) <==> event is ProcessExited,
        effects_of(event).contains(DaemonEffect::RunScheduledRestarts) <==> event is RestartDue,
        effects_of(event).contains(DaemonEffect::RunPeriodicTasks) <==> event is MaintenanceTick,
        effects_of(event).contains(DaemonEffect::ShutDownAll) <==> (event is ShutdownRequested
            || event is Signalled),
        effects_of(event).contains(DaemonEffect::CloseListener) <==> (event is ShutdownRequested
            || event is Signalled),
{
    let effects = effects_of(event);
    if effects.len() == 7 {
        assert(effects[0] == DaemonEffect::CloseListener);
        assert(effects[4] == DaemonEffect::ShutDownAll);
    } else {
        assert(effects[0] == effects[0]);
    }
    assert(effects.contains(effects[0]));
}

/// On the way down nothing new is let in before anything else is done, the background tasks are
/// told before the processes are stopped, and the loop is left last.
pub proof fn the_way_down_has_an_order()
    ensures
        way_down()[0] == DaemonEffect::CloseListener,
        way_down()[1] == DaemonEffect::StopApi,
        way_down()[2] == DaemonEffect::RaiseStopFlag,
        way_down()[3] == DaemonEffect::AnnounceShutdown,
        way_down()[4] == DaemonEffect::ShutDownAll,
        way_down()[5] == DaemonEffect::Publish,
        way_down().last() == DaemonEffect::Stop,
        way_down().len() == 7,
{
}

/// A failure of the loop's own work is reported under its own heading; one of the final shutdown
/// has none, and neither has one that a client is told about.
pub proof fn failures_are_reported_under_their_own_heading(effect: DaemonEffect)
    ensures
        failure_head(DaemonEffect::HandleExit) == Some("failed to process exit event: "@),
        failure_head(DaemonEffect::RunScheduledRestarts) == Some("scheduled restart task failed: "@),
        failure_head(DaemonEffect::RunPeriodicTasks) == Some("periodic manager task failed: "@),
        failure_head(DaemonEffect::ServeClient) == Some("failed to handle IPC client: "@),
        failure_head(DaemonEffect::ReportAcceptFailure) == Some("IPC accept failed: "@),
        effect is ShutDownAll || effect is ExecuteIpc || effect is ExecuteApi || effect is Publish
            || effect is ResetRestartTimer ==> failure_head(effect) is None,
{
}

/// A daemon that answers is ready whenever it does; one that does not is spawned once, probed at
/// once, and waited for a tenth of a second after each probe, for half a minute in all.
pub proof fn a_daemon_that_answers_is_ready(state: Readiness, missed: u32)
    ensures
        readiness_next(state, ReadinessEvent::Probed { available: true }) == (
            state,
            ReadinessAction::Ready,
        ),
        readiness_next(Readiness::Unspawned, ReadinessEvent::Probed { available: false }) == (
            Readiness::Unspawned,
            ReadinessAction::Spawn,
        ),
        readiness_next(state, ReadinessEvent::Spawned) == (
            Readiness::Spawned { missed: 0 },
            ReadinessAction::Probe,
        ),
        missed < 300 ==> readiness_next(
            Readiness::Spawned { missed },
            ReadinessEvent::Probed { available: false },
        ) == (
            Readiness::Spawned { missed: (missed + 1) as u32 },
            ReadinessAction::Pause { millis: 100 },
        ),
        missed < 300 ==> readiness_next(Readiness::Spawned { missed }, ReadinessEvent::Paused).1
            == ReadinessAction::Probe,
        missed >= 300 ==> readiness_next(Readiness::Spawned { missed }, ReadinessEvent::Paused).1
            == ReadinessAction::GiveUp,
        READINESS_PROBES * READINESS_PAUSE_MS == 30_000,
{
}

/// Each request is carried out by the call of its own kind; only stopping, restarting and deleting
/// reach all processes, and only under that name.
pub proof fn each_request_has_its_own_call<S>(request: IpcRequest<S>)
    ensures
        first_call(request) is None <==> request is Ping,
        first_call(request) == Some(IpcCall::<S>::ScheduleShutdown) <==> request is Shutdown,
        request matches IpcRequest::Start { spec } ==> first_call(request) == Some(
            IpcCall::Start { spec },
        ),
        request matches IpcRequest::Stop { target } ==> (if target@ == "all"@ {
            first_call(request) == Some(IpcCall::<S>::StopAll)
        } else {
            first_call(request) == Some(IpcCall::<S>::Stop { target })
        }),
        request matches IpcRequest::Restart { target } ==> (if target@ == "all"@ {
            first_call(request) == Some(IpcCall::<S>::RestartAll)
        } else {
            first_call(request) == Some(IpcCall::<S>::Restart { target })
        }),
        request matches IpcRequest::Delete { target } ==> (if target@ == "all"@ {
            first_call(request) == Some(IpcCall::<S>::DeleteAll)
        } else {
            first_call(request) == Some(IpcCall::<S>::Delete { target })
        }),
        request matches IpcRequest::Reload { target } ==> first_call(request) == Some(
            IpcCall::<S>::Reload { target },
        ),
        request matches IpcRequest::Pull { target } ==> first_call(request) == Some(
            IpcCall::<S>::Pull { target },
        ),
        request is List ==> first_call(request) == Some(IpcCall::<S>::List),
        request matches IpcRequest::Status { target } ==> first_call(request) == Some(
            IpcCall::<S>::Status { target },
        ),
        request matches IpcRequest::Logs { target } ==> first_call(request) == Some(
            IpcCall::<S>::Logs { target },
        ),
{
}

/// The reply to a request says what was done in its own words, and what it was done to: the label
/// of one process, or the number of several.
pub proof fn a_reply_says_what_was_done<S>(
    request: IpcRequest<S>,
    label: String,
    count: usize,
    one: IpcStep<S>,
    several: IpcStep<S>,
)
    requires
        first_call(request) is Some,
        follows(first_call(request)->0, (IpcOutcome::Process { label }), one),
        follows(first_call(request)->0, (IpcOutcome::Processes { count }), several),
    ensures
        request is Start ==> one.accepts("started "@ + label@, IpcPayload::Process),
        request is Stop ==> one.accepts("stopped "@ + label@, IpcPayload::Process),
        request is Restart ==> one.accepts("restarted "@ + label@, IpcPayload::Process),
        request is Reload ==> one.accepts("reloaded "@ + label@, IpcPayload::Process),
        request is Delete ==> one.accepts("deleted "@ + label@, IpcPayload::Process),
        request is Status ==> one.accepts("ok"@, IpcPayload::Process),
        request is Logs ==> one.accepts("ok"@, IpcPayload::Logs),
        request is Stop ==> several.accepts(
            "stopped "@ + decimal(count as nat) + " process(es)"@,
            IpcPayload::Processes,
        ),
        request is Restart ==> several.accepts(
            "restarted "@ + decimal(count as nat) + " process(es)"@,
            IpcPayload::Processes,
        ),
        request is Delete ==> several.accepts(
            "deleted "@ + decimal(count as nat) + " process(es)"@,
            IpcPayload::Processes,
        ),
        request is List ==> one.accepts("ok"@, IpcPayload::Processes),
        request is Shutdown ==> one.accepts("daemon shutdown scheduled"@, IpcPayload::Nothing),
{
}

/// A call that can fail is answered with its failure, word for word, and never as a success.
pub proof fn a_failure_is_passed_on<S>(call: IpcCall<S>, message: String, step: IpcStep<S>)
    requires
        follows(call, (IpcOutcome::Failed { message }), step),
    ensures
        !(call is ScheduleShutdown) && !(call is List) && !(call is Findings) ==> (
        step matches IpcStep::Reply(reply) && !reply.ok && reply.message@ == message@
            && reply.payload == IpcPayload::Nothing),
{
}

/// A report of a call is its reply, word for word.
pub proof fn a_report_is_passed_on<S>(target: Option<String>, message: String, step: IpcStep<S>)
    requires
        follows(IpcCall::Pull { target }, (IpcOutcome::Report { message }), step),
    ensures
        step matches IpcStep::Reply(reply) && reply.ok && reply.message@ == message@
            && reply.payload == IpcPayload::Nothing,
{
}

/// A failure is reported with its cause, ends the loop where the final shutdown failed, and is
/// otherwise nobody's to hear.
pub proof fn a_failure_is_reported_with_its_cause(
    effect: DaemonEffect,
    error: &str,
    response: FailureResponse,
)
    requires
        call_ensures(on_failure, (effect, error), response),
    ensures
        response is Abort <==> effect is ShutDownAll,
        response is Report <==> effect is ServeClient || effect is ReportAcceptFailure || effect
            is HandleExit || effect is RunScheduledRestarts || effect is RunPeriodicTasks,
        response matches FailureResponse::Report(text) ==> text@.len() >= error@.len() && text@.skip(
            text@.len() - error@.len(),
        ) == error@,
        effect is HandleExit ==> (response matches FailureResponse::Report(text) && text@
            == "failed to process exit event: "@ + error@),
{
    if let FailureResponse::Report(text) = response {
        let head = failure_head(effect)->0;
        assert(text@.skip(head.len() as int) =~= error@);
    }
}

/// The restart timer fires when a restart is due, however far that is, and otherwise a day from
/// now.
pub proof fn the_restart_timer_fires_when_due(next_due_at: Option<u64>, now: u64, deadline: u64)
    requires
        call_ensures(restart_sleep_deadline, (next_due_at, now), deadline),
    ensures
        next_due_at matches Some(due) ==> deadline == due,
        next_due_at is None ==> deadline == now + 24 * 60 * 60 * 1_000_000_000,
{
}

/// The log files handed out are those of the process that the target names, each as what it is.
pub proof fn log_files_are_of_the_process_named(
    processes: &[ManagedProcess],
    target: &str,
    logs: Option<ProcessLogs>,
    at: int,
)
    requires
        call_ensures(logs_for, (processes, target), logs),
        place_of(processes@, target@) == Some(at),
    ensures
        logs matches Some(logs) && logs.stdout@ == processes@[at].stdout_log@ && logs.stderr@
            == processes@[at].stderr_log@,
{
}

/// The published listing answers what only reads it: a ping, the listing, and the state and the
/// log files of a process that it holds. Everything else goes to the manager.
pub proof fn the_listing_answers_only_reading<S>(
    request: &IpcRequest<S>,
    processes: &[ManagedProcess],
    answer: Option<SnapshotAnswer>,
)
    requires
        call_ensures(execute_snapshot_request::<S>, (request, processes), answer),
    ensures
        request is Start || request is Stop || request is Restart || request is Reload || request
            is Pull || request is Delete || request is Shutdown || request is Findings ==> answer
            is None,
        request is Ping ==> answer == Some(SnapshotAnswer::Pong),
        request is List ==> answer == Some(SnapshotAnswer::Listing),
        answer matches Some(SnapshotAnswer::Process(place)) ==> request is Status && place
            < processes@.len(),
        answer matches Some(SnapshotAnswer::Logs(logs)) ==> request is Logs,
        *request matches IpcRequest::Status { target } ==> (answer is Some <==> place_of(
            processes@,
            target@,
        ) is Some),
        *request matches IpcRequest::Logs { target } ==> (answer is Some <==> place_of(
            processes@,
            target@,
        ) is Some),
{
    if let IpcRequest::Status { target } = *request {
        crate::process::the_first_of_a_name_is_found(processes@, target@);
        if let Some(id) = crate::text::unsigned_number(target@) {
            crate::process::the_first_of_an_id_is_found(processes@, id);
        }
    }
}

/// A client that went away is no failure; anything else is.
pub proof fn only_a_lost_client_is_a_disconnect(failure: Option<StreamFailure>, gone: bool)
    requires
        call_ensures(is_client_disconnect, (failure,), gone),
    ensures
        failure is None ==> !gone,
        failure == Some(StreamFailure::Other) ==> !gone,
        failure is Some && failure != Some(StreamFailure::Other) ==> gone,
{
    if let Some(kind) = failure {
        assert(kind is BrokenPipe || kind is ConnectionReset || kind is UnexpectedEof || kind
            is Other);
    }
}

/// A subscriber is sent what passes its filter and nothing else, is told how much it missed, and is
/// let go only when the bus closes.
pub proof fn a_subscriber_is_sent_what_passes(reception: BusReception, step: SubscriberStep)
    requires
        call_ensures(handle_event_client, (reception,), step),
    ensures
        step is Send <==> reception == (BusReception::Event { passes: true }),
        step is Skip <==> reception == (BusReception::Event { passes: false }),
        step is Finish <==> reception is Closed,
        reception matches BusReception::Lagged { dropped } ==> step == (SubscriberStep::WarnLagged {
            dropped,
        }),
{
}

/// A second daemon is refused at an address where one answers, and no other.
pub proof fn a_second_daemon_is_refused(available: bool, refusal: Option<OxmgrError>)
    requires
        call_ensures(bind_refusal, (available,), refusal),
    ensures
        available ==> refusal == Some(OxmgrError::DaemonAlreadyRunning),
        !available ==> refusal is None,
{
}

/// Carrying out requests, handling exits, running restarts and periodic tasks, and shutting down
/// are what can change the manager; serving, reporting, publishing and timing are not.
pub proof fn only_work_touches_the_manager(effect: DaemonEffect)
    ensures
        effect is ExecuteIpc || effect is ExecuteApi || effect is HandleExit || effect
            is RunScheduledRestarts || effect is RunPeriodicTasks || effect is ShutDownAll
            <==> effect.touches_manager(),
{
}

} // verus!
