//! The engine of a run, as a state machine.
//!
//! The engine touches no device. It hands out one [`Command`] at a time; the
//! caller carries the command out and reports what came of it with a
//! [`Reply`], together with the [`Signals`] it observed just before. The
//! transition function [`next`] says, for every state and every reply, which
//! state follows and which command is handed out; [`Engine::step`] computes
//! exactly that.

use crate::capability::{mirrored, plan_virtual, Capabilities, CapabilitiesView, VirtualPlan,
    VirtualPlanView};
use crate::config::{ConfigView, EngineConfig};
use crate::event::{effects, plan_batch, Effect, EventRecord};
use crate::intercept::Action;
use crate::outcome::{DispatchOutcome, DispatchOutcomeView, EngineError, Outcome, StopReason};
use crate::watchdog::{evaluate, stop_reason, ActivityClock, Signals};
use vstd::prelude::*;

verus! {

/// The stages of a run, in the order in which a run passes through them.
#[derive(Clone, Copy, Debug, PartialEq, Eq, Structural)]
pub enum RunState {
    /// The physical device is found; the synthetic device does not exist yet.
    Located,
    /// The synthetic device exists; exclusive access is not held yet.
    VirtualReady,
    /// Exclusive access is held; the first read is under way.
    Grabbed,
    /// The pump reads, forwards, dispatches or sleeps.
    Running,
    /// The pump has stopped; exclusive access is being given back.
    Draining,
    /// Exclusive access has been given back; the outcome is handed out.
    Released,
    /// The run is over.
    Terminated,
}

/// The exclusive access to the physical device.
#[derive(Clone, Copy, Debug, PartialEq, Eq, Structural)]
pub enum GrabState {
    /// Not requested, or refused.
    Free,
    /// Held by the engine.
    Grabbed,
    /// Given back.
    Released,
}

/// Where the engine stands: which command it has handed out last.
#[derive(Clone, Copy, Debug, PartialEq, Eq, Structural)]
pub enum Phase {
    /// The capabilities of the physical device were asked for.
    Querying,
    /// The creation of the synthetic device was asked for.
    Creating,
    /// Exclusive access was asked for.
    Acquiring,
    /// The first read was asked for.
    Priming,
    /// A later read was asked for.
    Reading,
    /// The step of the plan at the cursor was asked for.
    Acting,
    /// A sleep of one poll interval was asked for.
    Sleeping,
    /// The release of exclusive access was asked for.
    Releasing(Outcome),
    /// The release is done and the outcome handed out.
    Done(Outcome),
    /// The run is over.
    Finished(Outcome),
}

/// What the caller reports to the engine.
#[derive(Debug)]
pub enum Reply {
    /// What the physical device declares.
    Capabilities(Capabilities),
    /// The capabilities could not be read.
    CapabilityQueryFailed,
    /// The synthetic device exists.
    VirtualCreated,
    /// The synthetic device could not be created.
    VirtualFailed,
    /// Exclusive access was granted.
    Acquired,
    /// Exclusive access was refused.
    AcquireDenied,
    /// The read returned these records, in arrival order.
    Batch(Vec<EventRecord>),
    /// The read found nothing and would have blocked.
    WouldBlock,
    /// The read failed for another reason.
    ReadFailed,
    /// The record was written to the synthetic device.
    Forwarded,
    /// The record could not be written to the synthetic device.
    ForwardFailed,
    /// The action dispatcher returned.
    Dispatched(DispatchOutcome),
    /// The sleep is over.
    Slept,
    /// Exclusive access was given back.
    Released,
    /// Giving exclusive access back failed.
    ReleaseFailed,
}

/// The mathematical value of a [`Reply`].
pub enum ReplyView {
    Capabilities(CapabilitiesView),
    CapabilityQueryFailed,
    VirtualCreated,
    VirtualFailed,
    Acquired,
    AcquireDenied,
    Batch(Seq<EventRecord>),
    WouldBlock,
    ReadFailed,
    Forwarded,
    ForwardFailed,
    Dispatched(DispatchOutcomeView),
    Slept,
    Released,
    ReleaseFailed,
}

impl View for Reply {
    type V = ReplyView;

    open spec fn view(&self) -> ReplyView {
        match self {
            Reply::Capabilities(physical) => ReplyView::Capabilities(physical@),
            Reply::CapabilityQueryFailed => ReplyView::CapabilityQueryFailed,
            Reply::VirtualCreated => ReplyView::VirtualCreated,
            Reply::VirtualFailed => ReplyView::VirtualFailed,
            Reply::Acquired => ReplyView::Acquired,
            Reply::AcquireDenied => ReplyView::AcquireDenied,
            Reply::Batch(batch) => ReplyView::Batch(batch@),
            Reply::WouldBlock => ReplyView::WouldBlock,
            Reply::ReadFailed => ReplyView::ReadFailed,
            Reply::Forwarded => ReplyView::Forwarded,
            Reply::ForwardFailed => ReplyView::ForwardFailed,
            Reply::Dispatched(outcome) => ReplyView::Dispatched(outcome@),
            Reply::Slept => ReplyView::Slept,
            Reply::Released => ReplyView::Released,
            Reply::ReleaseFailed => ReplyView::ReleaseFailed,
        }
    }
}

/// What the engine asks the caller to do next.
#[derive(Debug)]
pub enum Command {
    /// Read what the physical device declares.
    QueryCapabilities,
    /// Create the synthetic device.
    CreateVirtual(VirtualPlan),
    /// Request exclusive access to the physical device.
    Acquire,
    /// Read the next batch from the physical device without blocking.
    Read,
    /// Write the record to the synthetic device.
    Forward(EventRecord),
    /// Have the action dispatcher perform the action.
    Dispatch(Action),
    /// Sleep for this many milliseconds.
    Sleep(u64),
    /// Give exclusive access back.
    Release,
    /// End the run with this outcome.
    Exit(Outcome),
}

/// The mathematical value of a [`Command`].
pub enum CommandView {
    QueryCapabilities,
    CreateVirtual(VirtualPlanView),
    Acquire,
    Read,
    Forward(EventRecord),
    Dispatch(Action),
    Sleep(u64),
    Release,
    Exit(Outcome),
}

impl View for Command {
    type V = CommandView;

    open spec fn view(&self) -> CommandView {
        match self {
            Command::QueryCapabilities => CommandView::QueryCapabilities,
            Command::CreateVirtual(plan) => CommandView::CreateVirtual(plan@),
            Command::Acquire => CommandView::Acquire,
            Command::Read => CommandView::Read,
            Command::Forward(record) => CommandView::Forward(*record),
            Command::Dispatch(action) => CommandView::Dispatch(*action),
            Command::Sleep(duration_ms) => CommandView::Sleep(*duration_ms),
            Command::Release => CommandView::Release,
            Command::Exit(outcome) => CommandView::Exit(*outcome),
        }
    }
}

/// The reply does not answer the command that the engine handed out last.
#[derive(Clone, Copy, Debug, PartialEq, Eq, Structural)]
pub struct UnexpectedReply;

/// The mathematical value of an [`Engine`].
#[verifier::ext_equal]
pub struct EngineView {
    pub config: ConfigView,
    pub phase: Phase,
    pub grab: GrabState,
    pub clock: ActivityClock,
    /// The steps of the batch in hand; empty unless the phase is `Acting`.
    pub plan: Seq<Effect>,
    /// The position in the plan of the step that was asked for.
    pub cursor: int,
}

/// The stage of the run that a phase belongs to.
pub open spec fn run_state_of(phase: Phase) -> RunState {
    match phase {
        Phase::Querying => RunState::Located,
        Phase::Creating => RunState::Located,
        Phase::Acquiring => RunState::VirtualReady,
        Phase::Priming => RunState::Grabbed,
        Phase::Reading => RunState::Running,
        Phase::Acting => RunState::Running,
        Phase::Sleeping => RunState::Running,
        Phase::Releasing(_) => RunState::Draining,
        Phase::Done(_) => RunState::Released,
        Phase::Finished(_) => RunState::Terminated,
    }
}

/// The outcome of the run, once it is decided.
pub open spec fn outcome_of(phase: Phase) -> Option<Outcome> {
    match phase {
        Phase::Releasing(outcome) => Some(outcome),
        Phase::Done(outcome) => Some(outcome),
        Phase::Finished(outcome) => Some(outcome),
        _ => None,
    }
}

/// The command that carries out a step of a plan.
pub open spec fn command_of(step: Effect) -> CommandView {
    match step {
        Effect::Forward(record) => CommandView::Forward(record),
        Effect::Dispatch(action) => CommandView::Dispatch(action),
    }
}

/// The engine at the start of a run: the physical device is found, nothing
/// else has happened.
pub open spec fn initial(config: ConfigView) -> EngineView {
    EngineView {
        config,
        phase: Phase::Querying,
        grab: GrabState::Free,
        clock: ActivityClock { last_activity_ms: 0 },
        plan: Seq::empty(),
        cursor: 0,
    }
}

/// The run ends without exclusive access having been given back by this step.
pub open spec fn finish(m: EngineView, outcome: Outcome) -> (EngineView, CommandView) {
    (EngineView { phase: Phase::Finished(outcome), ..m }, CommandView::Exit(outcome))
}

/// The pump stops: what is left of the batch in hand is dropped and exclusive
/// access is given back.
pub open spec fn drain(m: EngineView, outcome: Outcome) -> (EngineView, CommandView) {
    (
        EngineView { phase: Phase::Releasing(outcome), plan: Seq::empty(), cursor: 0, ..m },
        CommandView::Release,
    )
}

/// The top of the pump's loop: stop if a termination predicate holds, read
/// otherwise. `reading` is the phase in which the read is awaited.
pub open spec fn loop_top(m: EngineView, signals: Signals, reading: Phase) -> (
    EngineView,
    CommandView,
) {
    match stop_reason(signals, m.clock, m.config.inactivity_timeout_ms) {
        Some(reason) => drain(m, Outcome::Clean(reason)),
        None => (
            EngineView { phase: reading, plan: Seq::empty(), cursor: 0, ..m },
            CommandView::Read,
        ),
    }
}

/// Between two records: stop if cancellation is signalled, else take the next
/// step of the plan, else go back to the top of the loop.
pub open spec fn resume(m: EngineView, signals: Signals) -> (EngineView, CommandView) {
    if signals.cancelled {
        drain(m, Outcome::Clean(StopReason::Cancelled))
    } else if 0 <= m.cursor < m.plan.len() {
        (EngineView { phase: Phase::Acting, ..m }, command_of(m.plan[m.cursor]))
    } else {
        loop_top(m, signals, Phase::Reading)
    }
}

/// The pump sleeps for one poll interval.
pub open spec fn sleep(m: EngineView) -> (EngineView, CommandView) {
    (EngineView { phase: Phase::Sleeping, ..m }, CommandView::Sleep(m.config.poll_interval_ms))
}

/// What a reply to a read leads to.
pub open spec fn after_read(m: EngineView, signals: Signals, reply: ReplyView) -> Option<
    (EngineView, CommandView),
> {
    match reply {
        ReplyView::Batch(batch) => if batch.len() > 0 {
            Some(
                resume(
                    EngineView {
                        clock: ActivityClock { last_activity_ms: signals.now_ms },
                        plan: effects(m.config.intercepted, batch),
                        cursor: 0,
                        ..m
                    },
                    signals,
                ),
            )
        } else {
            Some(loop_top(m, signals, Phase::Reading))
        },
        ReplyView::WouldBlock => Some(sleep(m)),
        ReplyView::ReadFailed => Some(sleep(m)),
        _ => None,
    }
}

/// What a reply to a step of the plan leads to.
pub open spec fn after_step(m: EngineView, signals: Signals, reply: ReplyView) -> Option<
    (EngineView, CommandView),
> {
    if 0 <= m.cursor < m.plan.len() {
        match (m.plan[m.cursor], reply) {
            (Effect::Forward(_), ReplyView::Forwarded) => Some(
                resume(EngineView { cursor: m.cursor + 1, ..m }, signals),
            ),
            (Effect::Forward(_), ReplyView::ForwardFailed) => Some(
                drain(m, Outcome::Failed(EngineError::ForwardWriteError)),
            ),
            (Effect::Dispatch(_), ReplyView::Dispatched(_)) => Some(
                resume(EngineView { cursor: m.cursor + 1, ..m }, signals),
            ),
            _ => None,
        }
    } else {
        None
    }
}

/// The transition function. For the state `m`, the signals observed and the
/// reply given, it is the state that follows and the command handed out;
/// or nothing, where the reply does not answer the command handed out last.
pub open spec fn next(m: EngineView, signals: Signals, reply: ReplyView) -> Option<
    (EngineView, CommandView),
> {
    match m.phase {
        Phase::Querying => match reply {
            ReplyView::Capabilities(physical) => Some(
                (
                    EngineView { phase: Phase::Creating, ..m },
                    CommandView::CreateVirtual(
                        mirrored(m.config.virtual_name, physical, m.config.intercepted),
                    ),
                ),
            ),
            ReplyView::CapabilityQueryFailed => Some(
                finish(m, Outcome::Failed(EngineError::CapabilityQueryFailure)),
            ),
            _ => None,
        },
        Phase::Creating => match reply {
            ReplyView::VirtualCreated => Some(
                (EngineView { phase: Phase::Acquiring, ..m }, CommandView::Acquire),
            ),
            ReplyView::VirtualFailed => Some(
                finish(m, Outcome::Failed(EngineError::CreationFailure)),
            ),
            _ => None,
        },
        Phase::Acquiring => match reply {
            ReplyView::Acquired => Some(
                loop_top(
                    EngineView {
                        grab: GrabState::Grabbed,
                        clock: ActivityClock { last_activity_ms: signals.now_ms },
                        ..m
                    },
                    signals,
                    Phase::Priming,
                ),
            ),
            ReplyView::AcquireDenied => Some(finish(m, Outcome::Failed(EngineError::GrabDenied))),
            _ => None,
        },
        Phase::Priming => after_read(m, signals, reply),
        Phase::Reading => after_read(m, signals, reply),
        Phase::Acting => after_step(m, signals, reply),
        Phase::Sleeping => match reply {
            ReplyView::Slept => Some(loop_top(m, signals, Phase::Reading)),
            _ => None,
        },
        Phase::Releasing(outcome) => match reply {
            ReplyView::Released => Some(
                (
                    EngineView { phase: Phase::Done(outcome), grab: GrabState::Released, ..m },
                    CommandView::Exit(outcome),
                ),
            ),
            ReplyView::ReleaseFailed => Some(
                (
                    EngineView { phase: Phase::Done(outcome), grab: GrabState::Released, ..m },
                    CommandView::Exit(outcome),
                ),
            ),
            _ => None,
        },
        Phase::Done(outcome) => Some(finish(m, outcome)),
        Phase::Finished(outcome) => Some(finish(m, outcome)),
    }
}

/// The engine of one run.
#[derive(Debug)]
pub struct Engine {
    config: EngineConfig,
    phase: Phase,
    grab: GrabState,
    clock: ActivityClock,
    plan: Vec<Effect>,
    cursor: usize,
}

impl View for Engine {
    type V = EngineView;

    closed spec fn view(&self) -> EngineView {
        EngineView {
            config: self.config@,
            phase: self.phase,
            grab: self.grab,
            clock: self.clock,
            plan: self.plan@,
            cursor: self.cursor as int,
        }
    }
}

impl Engine {
    /// Starts a run for a physical device that has been found. The first
    /// command asks for what the device declares.
    pub fn start(config: EngineConfig) -> (started: (Engine, Command))
        ensures
            started.0@ == initial(config@),
            started.1@ == CommandView::QueryCapabilities,
    {
        let engine = Engine {
            config,
            phase: Phase::Querying,
            grab: GrabState::Free,
            clock: ActivityClock::started(0),
            plan: Vec::new(),
            cursor: 0,
        };
        (engine, Command::QueryCapabilities)
    }

    fn finish(&mut self, outcome: Outcome) -> (command: Command)
        ensures
            (final(self)@, command@) == finish(old(self)@, outcome),
    {
        self.phase = Phase::Finished(outcome);
        Command::Exit(outcome)
    }

    fn drain(&mut self, outcome: Outcome) -> (command: Command)
        ensures
            (final(self)@, command@) == drain(old(self)@, outcome),
    {
        self.phase = Phase::Releasing(outcome);
        self.plan = Vec::new();
        self.cursor = 0;
        Command::Release
    }

    fn loop_top(&mut self, signals: Signals, reading: Phase) -> (command: Command)
        ensures
            (final(self)@, command@) == loop_top(old(self)@, signals, reading),
    {
        match evaluate(signals, &self.clock, self.config.inactivity_timeout_ms) {
            Some(reason) => self.drain(Outcome::Clean(reason)),
            None => {
                self.phase = reading;
                self.plan = Vec::new();
                self.cursor = 0;
                Command::Read
            },
        }
    }

    fn resume(&mut self, signals: Signals) -> (command: Command)
        ensures
            (final(self)@, command@) == resume(old(self)@, signals),
    {
        if signals.cancelled {
            self.drain(Outcome::Clean(StopReason::Cancelled))
        } else if self.cursor < self.plan.len() {
            self.phase = Phase::Acting;
            match self.plan[self.cursor] {
                Effect::Forward(record) => Command::Forward(record),
                Effect::Dispatch(action) => Command::Dispatch(action),
            }
        } else {
            self.loop_top(signals, Phase::Reading)
        }
    }

    fn after_read(&mut self, signals: Signals, reply: Reply) -> (result: Result<
        Command,
        UnexpectedReply,
    >)
        ensures
            match after_read(old(self)@, signals, reply@) {
                Some((m, command)) => result is Ok && final(self)@ == m && result.unwrap()@
                    == command,
                None => result is Err && final(self)@ == old(self)@,
            },
    {
        match reply {
            Reply::Batch(batch) => {
                if batch.len() > 0 {
                    self.clock.touch(signals.now_ms);
                    self.plan = plan_batch(&self.config.intercepted, &batch);
                    self.cursor = 0;
                    Ok(self.resume(signals))
                } else {
                    Ok(self.loop_top(signals, Phase::Reading))
                }
            },
            Reply::WouldBlock => {
                self.phase = Phase::Sleeping;
                Ok(Command::Sleep(self.config.poll_interval_ms))
            },
            Reply::ReadFailed => {
                self.phase = Phase::Sleeping;
                Ok(Command::Sleep(self.config.poll_interval_ms))
            },
            _ => Err(UnexpectedReply),
        }
    }

    fn after_step(&mut self, signals: Signals, reply: Reply) -> (result: Result<
        Command,
        UnexpectedReply,
    >)
        ensures
            match after_step(old(self)@, signals, reply@) {
                Some((m, command)) => result is Ok && final(self)@ == m && result.unwrap()@
                    == command,
                None => result is Err && final(self)@ == old(self)@,
            },
    {
        if self.cursor >= self.plan.len() {
            return Err(UnexpectedReply);
        }
        match (self.plan[self.cursor], reply) {
            (Effect::Forward(_), Reply::Forwarded) => {
                self.cursor = self.cursor + 1;
                Ok(self.resume(signals))
            },
            (Effect::Forward(_), Reply::ForwardFailed) => Ok(
                self.drain(Outcome::Failed(EngineError::ForwardWriteError)),
            ),
            (Effect::Dispatch(_), Reply::Dispatched(_)) => {
                self.cursor = self.cursor + 1;
                Ok(self.resume(signals))
            },
            _ => Err(UnexpectedReply),
        }
    }

    /// Takes the reply to the command handed out last, with the signals
    /// observed just before, and hands out the next command. A reply that
    /// does not answer that command is refused and changes nothing.
    pub fn step(&mut self, signals: Signals, reply: Reply) -> (result: Result<
        Command,
        UnexpectedReply,
    >)
        ensures
            match next(old(self)@, signals, reply@) {
                Some((m, command)) => result is Ok && final(self)@ == m && result.unwrap()@
                    == command,
                None => result is Err && final(self)@ == old(self)@,
            },
    {
        match self.phase {
            Phase::Querying => match reply {
                Reply::Capabilities(physical) => {
                    let plan = plan_virtual(
                        self.config.virtual_name.as_str(),
                        &physical,
                        &self.config.intercepted,
                    );
                    self.phase = Phase::Creating;
                    Ok(Command::CreateVirtual(plan))
                },
                Reply::CapabilityQueryFailed => Ok(
                    self.finish(Outcome::Failed(EngineError::CapabilityQueryFailure)),
                ),
                _ => Err(UnexpectedReply),
            },
            Phase::Creating => match reply {
                Reply::VirtualCreated => {
                    self.phase = Phase::Acquiring;
                    Ok(Command::Acquire)
                },
                Reply::VirtualFailed => Ok(
                    self.finish(Outcome::Failed(EngineError::CreationFailure)),
                ),
                _ => Err(UnexpectedReply),
            },
            Phase::Acquiring => match reply {
                Reply::Acquired => {
                    self.grab = GrabState::Grabbed;
                    self.clock.touch(signals.now_ms);
                    Ok(self.loop_top(signals, Phase::Priming))
                },
                Reply::AcquireDenied => Ok(self.finish(Outcome::Failed(EngineError::GrabDenied))),
                _ => Err(UnexpectedReply),
            },
            Phase::Priming => self.after_read(signals, reply),
            Phase::Reading => self.after_read(signals, reply),
            Phase::Acting => self.after_step(signals, reply),
            Phase::Sleeping => match reply {
                Reply::Slept => Ok(self.loop_top(signals, Phase::Reading)),
                _ => Err(UnexpectedReply),
            },
            Phase::Releasing(outcome) => match reply {
                Reply::Released => {
                    self.phase = Phase::Done(outcome);
                    self.grab = GrabState::Released;
                    Ok(Command::Exit(outcome))
                },
                Reply::ReleaseFailed => {
                    self.phase = Phase::Done(outcome);
                    self.grab = GrabState::Released;
                    Ok(Command::Exit(outcome))
                },
                _ => Err(UnexpectedReply),
            },
            Phase::Done(outcome) => Ok(self.finish(outcome)),
            Phase::Finished(outcome) => Ok(self.finish(outcome)),
        }
    }

    /// The stage of the run.
    pub fn run_state(&self) -> (state: RunState)
        ensures
            state == run_state_of(self@.phase),
    {
        match self.phase {
            Phase::Querying => RunState::Located,
            Phase::Creating => RunState::Located,
            Phase::Acquiring => RunState::VirtualReady,
            Phase::Priming => RunState::Grabbed,
            Phase::Reading => RunState::Running,
            Phase::Acting => RunState::Running,
            Phase::Sleeping => RunState::Running,
            Phase::Releasing(_) => RunState::Draining,
            Phase::Done(_) => RunState::Released,
            Phase::Finished(_) => RunState::Terminated,
        }
    }

    /// The state of the exclusive access.
    pub fn grab_state(&self) -> (state: GrabState)
        ensures
            state == self@.grab,
    {
        self.grab
    }

    /// The outcome of the run, once it is decided.
    pub fn outcome(&self) -> (outcome: Option<Outcome>)
        ensures
            outcome == outcome_of(self@.phase),
    {
        match self.phase {
            Phase::Releasing(outcome) => Some(outcome),
            Phase::Done(outcome) => Some(outcome),
            Phase::Finished(outcome) => Some(outcome),
            _ => None,
        }
    }

    /// The time of the most recent batch that held a record.
    pub fn last_activity_ms(&self) -> (time: u64)
        ensures
            time == self@.clock.last_activity_ms,
    {
        self.clock.last_activity_ms
    }
}

} // verus!
