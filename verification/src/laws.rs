//! What holds of every run of the engine.
//!
//! A run is the engine at its start and the sequence of inputs that the
//! caller hands to it. The laws below are stated over the transition function
//! of the engine and proved for all configurations and all input sequences.

use crate::config::ConfigView;
use crate::engine::{command_of, initial, next, run_state_of, CommandView, EngineView, GrabState,
    Phase, ReplyView, RunState};
use crate::event::{dispatched, effects, forwarded, intercepted_presses, is_intercepted,
    law_dispatched_is_presses, law_forwarded_is_passed_on, lemma_effects_allowed, passed_on,
    Effect, EventRecord};
use crate::intercept::Action;
use crate::outcome::{exit_status, EngineError, Outcome, StopReason};
use crate::watchdog::{inactive_too_long, Signals};
use vstd::prelude::*;

verus! {

/// One input of a run: a reply, and the signals observed just before it.
pub struct Input {
    pub signals: Signals,
    pub reply: ReplyView,
}

/// The state after one input. A refused input changes nothing.
pub open spec fn advance(m: EngineView, input: Input) -> EngineView {
    match next(m, input.signals, input.reply) {
        Some((after, _)) => after,
        None => m,
    }
}

/// The command handed out for one input, if the input is not refused.
pub open spec fn answer(m: EngineView, input: Input) -> Option<CommandView> {
    match next(m, input.signals, input.reply) {
        Some((_, command)) => Some(command),
        None => None,
    }
}

/// The state after a sequence of inputs.
pub open spec fn state_after(m: EngineView, inputs: Seq<Input>) -> EngineView
    decreases inputs.len(),
{
    if inputs.len() == 0 {
        m
    } else {
        advance(state_after(m, inputs.drop_last()), inputs.last())
    }
}

/// The commands handed out for a sequence of inputs, in order.
pub open spec fn commands(m: EngineView, inputs: Seq<Input>) -> Seq<CommandView>
    decreases inputs.len(),
{
    if inputs.len() == 0 {
        Seq::empty()
    } else {
        let earlier = commands(m, inputs.drop_last());
        match answer(state_after(m, inputs.drop_last()), inputs.last()) {
            Some(command) => earlier.push(command),
            None => earlier,
        }
    }
}

/// The command handed out for the input at position `k`.
pub open spec fn command_at(m: EngineView, inputs: Seq<Input>, k: int) -> Option<CommandView> {
    answer(state_after(m, inputs.take(k)), inputs[k])
}

/// How often `Release` occurs among the commands.
pub open spec fn releases(issued: Seq<CommandView>) -> nat
    decreases issued.len(),
{
    if issued.len() == 0 {
        0
    } else {
        releases(issued.drop_last()) + if issued.last() == CommandView::Release {
            1nat
        } else {
            0nat
        }
    }
}

/// How often the creation of the synthetic device occurs among the commands.
pub open spec fn creations(issued: Seq<CommandView>) -> nat
    decreases issued.len(),
{
    if issued.len() == 0 {
        0
    } else {
        creations(issued.drop_last()) + if issued.last() is CreateVirtual {
            1nat
        } else {
            0nat
        }
    }
}

/// How often `Acquire` occurs among the commands.
pub open spec fn acquisitions(issued: Seq<CommandView>) -> nat
    decreases issued.len(),
{
    if issued.len() == 0 {
        0
    } else {
        acquisitions(issued.drop_last()) + if issued.last() == CommandView::Acquire {
            1nat
        } else {
            0nat
        }
    }
}

/// Whether exclusive access was held at some point of the run.
pub open spec fn ever_held(m: EngineView, inputs: Seq<Input>) -> bool
    decreases inputs.len(),
{
    if inputs.len() == 0 {
        m.grab == GrabState::Grabbed
    } else {
        ever_held(m, inputs.drop_last()) || state_after(m, inputs).grab == GrabState::Grabbed
    }
}

/// The pump is running: the engine awaits the reply to a read, to a step of
/// the plan or to a sleep.
pub open spec fn pumping(phase: Phase) -> bool {
    phase is Priming || phase is Reading || phase is Acting || phase is Sleeping
}

/// The run has ended.
pub open spec fn ended(phase: Phase) -> bool {
    phase is Done || phase is Finished
}

/// What holds of every state that a run can reach: exclusive access is held
/// exactly from its grant to its release, the cursor stands on a step of the
/// plan while one is awaited, and no step of the plan hands on an intercepted
/// record.
pub open spec fn consistent(m: EngineView) -> bool {
    &&& match m.phase {
        Phase::Querying => m.grab == GrabState::Free,
        Phase::Creating => m.grab == GrabState::Free,
        Phase::Acquiring => m.grab == GrabState::Free,
        Phase::Priming => m.grab == GrabState::Grabbed,
        Phase::Reading => m.grab == GrabState::Grabbed,
        Phase::Acting => m.grab == GrabState::Grabbed,
        Phase::Sleeping => m.grab == GrabState::Grabbed,
        Phase::Releasing(_) => m.grab == GrabState::Grabbed,
        Phase::Done(_) => m.grab == GrabState::Released,
        Phase::Finished(_) => m.grab != GrabState::Grabbed,
    }
    &&& m.phase is Acting ==> 0 <= m.cursor < m.plan.len()
    &&& !(m.phase is Acting) ==> m.plan.len() == 0 && m.cursor == 0
    &&& forall|i: int|
        0 <= i < m.plan.len() ==> (#[trigger] m.plan[i] matches Effect::Forward(record)
            ==> !is_intercepted(m.config.intercepted, record))
}

/// A step keeps the configuration and keeps a consistent state consistent.
pub proof fn lemma_step_consistent(m: EngineView, signals: Signals, reply: ReplyView)
    requires
        consistent(m),
    ensures
        consistent(advance(m, Input { signals, reply })),
        advance(m, Input { signals, reply }).config == m.config,
{
    match reply {
        ReplyView::Batch(batch) => {
            assert forall|i: int| 0 <= i < effects(m.config.intercepted, batch).len() implies (
            #[trigger] effects(m.config.intercepted, batch)[i] matches Effect::Forward(record)
                ==> !is_intercepted(m.config.intercepted, record)) by {
                lemma_effects_allowed(m.config.intercepted, batch, i);
            }
        },
        _ => {},
    }
}

/// Every state of a run is consistent and has the configuration of the start.
pub proof fn lemma_run_consistent(config: ConfigView, inputs: Seq<Input>)
    ensures
        consistent(state_after(initial(config), inputs)),
        state_after(initial(config), inputs).config == config,
    decreases inputs.len(),
{
    if inputs.len() > 0 {
        lemma_run_consistent(config, inputs.drop_last());
        lemma_step_consistent(
            state_after(initial(config), inputs.drop_last()),
            inputs.last().signals,
            inputs.last().reply,
        );
    }
}

/// The command handed out last in a run. A run starts with the command that
/// asks for the capabilities of the physical device.
pub open spec fn last_command(config: ConfigView, inputs: Seq<Input>) -> CommandView {
    let issued = commands(initial(config), inputs);
    if issued.len() == 0 {
        CommandView::QueryCapabilities
    } else {
        issued.last()
    }
}

/// The command that a state awaits the reply to is `last`.
pub open spec fn awaits(m: EngineView, last: CommandView) -> bool {
    match m.phase {
        Phase::Querying => last == CommandView::QueryCapabilities,
        Phase::Creating => last is CreateVirtual,
        Phase::Acquiring => last == CommandView::Acquire,
        Phase::Priming => last == CommandView::Read,
        Phase::Reading => last == CommandView::Read,
        Phase::Acting => 0 <= m.cursor < m.plan.len() && last == command_of(m.plan[m.cursor]),
        Phase::Sleeping => last == CommandView::Sleep(m.config.poll_interval_ms),
        Phase::Releasing(_) => last == CommandView::Release,
        Phase::Done(outcome) => last == CommandView::Exit(outcome),
        Phase::Finished(outcome) => last == CommandView::Exit(outcome),
    }
}

/// How often `Release` has been handed out by the time a state is reached.
pub open spec fn releases_due(m: EngineView) -> nat {
    match m.phase {
        Phase::Releasing(_) => 1,
        Phase::Done(_) => 1,
        Phase::Finished(_) => if m.grab == GrabState::Released {
            1
        } else {
            0
        },
        _ => 0,
    }
}

/// The books of a run: the state tells which command was handed out last, how
/// often `Release` was handed out, and whether exclusive access was ever held;
/// the synthetic device and exclusive access were asked for once at most.
pub proof fn lemma_run_books(config: ConfigView, inputs: Seq<Input>)
    ensures
        awaits(state_after(initial(config), inputs), last_command(config, inputs)),
        creations(commands(initial(config), inputs)) <= 1,
        state_after(initial(config), inputs).phase is Querying ==> creations(
            commands(initial(config), inputs),
        ) == 0,
        acquisitions(commands(initial(config), inputs)) <= 1,
        state_after(initial(config), inputs).phase is Querying || state_after(
            initial(config),
            inputs,
        ).phase is Creating ==> acquisitions(commands(initial(config), inputs)) == 0,
        releases(commands(initial(config), inputs)) == releases_due(
            state_after(initial(config), inputs),
        ),
        ever_held(initial(config), inputs) <==> state_after(initial(config), inputs).grab
            != GrabState::Free,
    decreases inputs.len(),
{
    let start = initial(config);
    if inputs.len() > 0 {
        let earlier = inputs.drop_last();
        let before = state_after(start, earlier);
        lemma_run_books(config, earlier);
        lemma_run_consistent(config, earlier);
        lemma_run_consistent(config, inputs);
        let issued = commands(start, earlier);
        match next(before, inputs.last().signals, inputs.last().reply) {
            Some((after, command)) => {
                assert(commands(start, inputs) == issued.push(command));
                assert(issued.push(command).drop_last() =~= issued);
                assert(issued.push(command).last() == command);
            },
            None => {},
        }
    }
}

/// Exclusive access is never requested before the creation of the synthetic
/// device has succeeded: whenever `Acquire` is handed out, it answers the
/// report that the device was created, and the command before it asked for
/// that creation.
pub proof fn law_acquire_follows_creation(config: ConfigView, inputs: Seq<Input>, k: int)
    requires
        0 <= k < inputs.len(),
        command_at(initial(config), inputs, k) == Some(CommandView::Acquire),
    ensures
        inputs[k].reply == ReplyView::VirtualCreated,
        last_command(config, inputs.take(k)) is CreateVirtual,
        state_after(initial(config), inputs.take(k)).grab == GrabState::Free,
{
    lemma_run_books(config, inputs.take(k));
    lemma_run_consistent(config, inputs.take(k));
}

/// Whatever ended the run, exclusive access that was held is given back
/// exactly once: the run has handed out `Release` one time.
pub proof fn law_release_exactly_once(config: ConfigView, inputs: Seq<Input>)
    requires
        ever_held(initial(config), inputs),
        ended(state_after(initial(config), inputs).phase),
    ensures
        releases(commands(initial(config), inputs)) == 1,
{
    lemma_run_books(config, inputs);
    lemma_run_consistent(config, inputs);
}

/// At no point of a run has `Release` been handed out twice, nor at all
/// unless exclusive access was held; and while the pump runs it has not been
/// handed out yet.
pub proof fn law_release_at_most_once(config: ConfigView, inputs: Seq<Input>)
    ensures
        releases(commands(initial(config), inputs)) <= 1,
        !ever_held(initial(config), inputs) ==> releases(commands(initial(config), inputs)) == 0,
        pumping(state_after(initial(config), inputs).phase) ==> releases(
            commands(initial(config), inputs),
        ) == 0,
{
    lemma_run_books(config, inputs);
    lemma_run_consistent(config, inputs);
}

/// The synthetic device is created once and never again, and exclusive
/// access is requested once at most.
pub proof fn law_created_and_acquired_once(config: ConfigView, inputs: Seq<Input>)
    ensures
        creations(commands(initial(config), inputs)) <= 1,
        acquisitions(commands(initial(config), inputs)) <= 1,
        acquisitions(commands(initial(config), inputs)) <= creations(
            commands(initial(config), inputs),
        ),
{
    lemma_run_books(config, inputs);
    lemma_acquired_after_created(config, inputs);
}

/// Exclusive access was not asked for unless the synthetic device was.
proof fn lemma_acquired_after_created(config: ConfigView, inputs: Seq<Input>)
    ensures
        acquisitions(commands(initial(config), inputs)) <= creations(
            commands(initial(config), inputs),
        ),
        !(state_after(initial(config), inputs).phase is Querying) && !(state_after(
            initial(config),
            inputs,
        ).phase is Finished) ==> creations(commands(initial(config), inputs)) == 1,
    decreases inputs.len(),
{
    let start = initial(config);
    if inputs.len() > 0 {
        let earlier = inputs.drop_last();
        let before = state_after(start, earlier);
        lemma_acquired_after_created(config, earlier);
        lemma_run_books(config, earlier);
        let issued = commands(start, earlier);
        match next(before, inputs.last().signals, inputs.last().reply) {
            Some((after, command)) => {
                assert(commands(start, inputs) == issued.push(command));
                assert(issued.push(command).drop_last() =~= issued);
                assert(issued.push(command).last() == command);
            },
            None => {},
        }
    }
}

/// A run never ends while exclusive access is held.
pub proof fn law_never_ends_grabbed(config: ConfigView, inputs: Seq<Input>)
    ensures
        ended(state_after(initial(config), inputs).phase) ==> state_after(
            initial(config),
            inputs,
        ).grab != GrabState::Grabbed,
{
    lemma_run_consistent(config, inputs);
}

/// No record of an intercepted key is ever handed on, in any run: whenever
/// `Forward` is handed out, its record is not intercepted.
pub proof fn law_never_forwards_intercepted(
    config: ConfigView,
    inputs: Seq<Input>,
    k: int,
    record: EventRecord,
)
    requires
        0 <= k < inputs.len(),
        command_at(initial(config), inputs, k) == Some(CommandView::Forward(record)),
    ensures
        !is_intercepted(config.intercepted, record),
{
    let before = state_after(initial(config), inputs.take(k));
    lemma_run_consistent(config, inputs.take(k));
    lemma_step_consistent(before, inputs[k].signals, inputs[k].reply);
    let after = advance(before, inputs[k]);
    assert(after.phase is Acting);
    assert(after.plan[after.cursor] == Effect::Forward(record));
}

/// The position of a stage in the order of a run.
pub open spec fn stage_rank(state: RunState) -> int {
    match state {
        RunState::Located => 0,
        RunState::VirtualReady => 1,
        RunState::Grabbed => 2,
        RunState::Running => 3,
        RunState::Draining => 4,
        RunState::Released => 5,
        RunState::Terminated => 6,
    }
}

/// A run never goes back to an earlier stage.
pub proof fn law_stage_never_goes_back(m: EngineView, signals: Signals, reply: ReplyView)
    ensures
        stage_rank(run_state_of(m.phase)) <= stage_rank(
            run_state_of(advance(m, Input { signals, reply }).phase),
        ),
{
}

/// What the action dispatcher reports has no effect on the run: a warning is
/// answered exactly as a success is.
pub proof fn law_dispatch_outcome_is_ignored(
    m: EngineView,
    signals: Signals,
    first: crate::outcome::DispatchOutcomeView,
    second: crate::outcome::DispatchOutcomeView,
)
    ensures
        next(m, signals, ReplyView::Dispatched(first)) == next(
            m,
            signals,
            ReplyView::Dispatched(second),
        ),
{
}

/// A failed release is not escalated: the run ends with the outcome that was
/// decided when the pump stopped, as it does after a release that succeeded.
pub proof fn law_release_failure_keeps_outcome(m: EngineView, signals: Signals, outcome: Outcome)
    requires
        m.phase == Phase::Releasing(outcome),
    ensures
        next(m, signals, ReplyView::ReleaseFailed) == next(m, signals, ReplyView::Released),
        next(m, signals, ReplyView::Released) == Some(
            (
                EngineView { phase: Phase::Done(outcome), grab: GrabState::Released, ..m },
                CommandView::Exit(outcome),
            ),
        ),
{
}

/// A read that fails is answered as a read that found nothing: by a sleep of
/// one poll interval, after which the pump goes on.
pub proof fn law_read_failure_is_recoverable(m: EngineView, signals: Signals)
    requires
        m.phase is Priming || m.phase is Reading,
    ensures
        next(m, signals, ReplyView::ReadFailed) == next(m, signals, ReplyView::WouldBlock),
        next(m, signals, ReplyView::ReadFailed) == Some(
            (
                EngineView { phase: Phase::Sleeping, ..m },
                CommandView::Sleep(m.config.poll_interval_ms),
            ),
        ),
{
}

/// The pump stands at the top of its loop after a sleep and after a batch
/// without records.
pub open spec fn top_reply(reply: ReplyView) -> bool {
    reply is Slept || (reply matches ReplyView::Batch(batch) && batch.len() == 0)
}

/// A reply that brings no record.
pub open spec fn idle_reply(reply: ReplyView) -> bool {
    reply is WouldBlock || reply is ReadFailed || top_reply(reply)
}

/// A stretch of a run in which no record arrives and cancellation is not
/// signalled, each reply answering the command handed out before it.
pub open spec fn quiet_run(m: EngineView, inputs: Seq<Input>) -> bool {
    forall|i: int|
        0 <= i < inputs.len() ==> {
            &&& !(#[trigger] inputs[i]).signals.cancelled
            &&& idle_reply(inputs[i].reply)
            &&& command_at(m, inputs, i) is Some
        }
}

/// The pump awaits the reply to a read or to a sleep.
pub open spec fn waiting(phase: Phase) -> bool {
    phase is Priming || phase is Reading || phase is Sleeping
}

/// Through a quiet stretch the activity clock stands still, and the pump
/// keeps waiting as long as inputs follow.
pub proof fn lemma_quiet_prefix(m: EngineView, inputs: Seq<Input>, j: int)
    requires
        waiting(m.phase),
        quiet_run(m, inputs),
        0 <= j <= inputs.len(),
    ensures
        state_after(m, inputs.take(j)).clock == m.clock,
        state_after(m, inputs.take(j)).config == m.config,
        j < inputs.len() ==> waiting(state_after(m, inputs.take(j)).phase),
    decreases j,
{
    if j > 0 {
        lemma_quiet_prefix(m, inputs, j - 1);
        assert(inputs.take(j).drop_last() =~= inputs.take(j - 1));
        assert(inputs.take(j).last() == inputs[j - 1]);
        let before = state_after(m, inputs.take(j - 1));
        assert(command_at(m, inputs, j - 1) is Some);
        assert(state_after(m, inputs.take(j)) == advance(before, inputs[j - 1]));
        if j < inputs.len() {
            assert(command_at(m, inputs, j) is Some);
        }
    } else {
        assert(inputs.take(0) =~= Seq::<Input>::empty());
    }
}

/// If no batch arrives until the inactivity bound is reached, the run stops
/// with the outcome `Timeout`, which is no failure: at the first look at the
/// clock that finds the bound reached, the engine hands out `Release`, and
/// the reply to it, a failure too, ends the run with exit status zero.
pub proof fn law_inactivity_times_out(m: EngineView, inputs: Seq<Input>, k: int)
    requires
        waiting(m.phase),
        quiet_run(m, inputs),
        0 <= k < inputs.len(),
        top_reply(inputs[k].reply),
        inactive_too_long(m.clock, inputs[k].signals.now_ms, m.config.inactivity_timeout_ms),
    ensures
        command_at(m, inputs, k) == Some(CommandView::Release),
        state_after(m, inputs.take(k + 1)).phase == Phase::Releasing(
            Outcome::Clean(StopReason::Timeout),
        ),
        forall|signals: Signals, reply: ReplyView|
            reply is Released || reply is ReleaseFailed ==> answer(
                state_after(m, inputs.take(k + 1)),
                Input { signals, reply },
            ) == Some(CommandView::Exit(Outcome::Clean(StopReason::Timeout))),
        exit_status(Outcome::Clean(StopReason::Timeout)) == 0,
{
    lemma_quiet_prefix(m, inputs, k);
    assert(inputs.take(k + 1).drop_last() =~= inputs.take(k));
    assert(inputs.take(k + 1).last() == inputs[k]);
    assert(command_at(m, inputs, k) is Some);
}

/// Setting the cancellation signal stops the pump within one poll interval,
/// whatever arrives. A step that sees the signal hands out `Release`; only
/// where it answers a read that brought nothing does it first hand out the
/// one sleep of a poll interval, and the step after that sleep hands out
/// `Release`. Unless a write to the synthetic device failed at that very
/// step, the outcome is `Cancelled`.
pub proof fn law_cancellation_stops_pump(m: EngineView, signals: Signals, reply: ReplyView)
    requires
        pumping(m.phase) || (m.phase is Acquiring && reply is Acquired),
        signals.cancelled,
        next(m, signals, reply) is Some,
    ensures
        ({
            let (after, command) = next(m, signals, reply).unwrap();
            if reply is WouldBlock || reply is ReadFailed {
                &&& command == CommandView::Sleep(m.config.poll_interval_ms)
                &&& forall|later: Signals|
                    later.cancelled ==> #[trigger] next(after, later, ReplyView::Slept) == Some(
                        (
                            EngineView {
                                phase: Phase::Releasing(Outcome::Clean(StopReason::Cancelled)),
                                plan: Seq::empty(),
                                cursor: 0,
                                ..after
                            },
                            CommandView::Release,
                        ),
                    )
            } else {
                &&& command == CommandView::Release
                &&& after.phase == Phase::Releasing(
                    if reply is ForwardFailed {
                        Outcome::Failed(EngineError::ForwardWriteError)
                    } else {
                        Outcome::Clean(StopReason::Cancelled)
                    },
                )
            }
        }),
        exit_status(Outcome::Clean(StopReason::Cancelled)) == 0,
{
}

/// The engine never asks for a wait other than one poll interval.
pub proof fn law_sleep_is_one_poll_interval(
    m: EngineView,
    signals: Signals,
    reply: ReplyView,
    duration_ms: u64,
)
    requires
        answer(m, Input { signals, reply }) == Some(CommandView::Sleep(duration_ms)),
    ensures
        duration_ms == m.config.poll_interval_ms,
        reply is WouldBlock || reply is ReadFailed,
{
}

/// The reply answers the step of a plan, and reports no failure.
pub open spec fn confirms(step: Effect, reply: ReplyView) -> bool {
    match step {
        Effect::Forward(_) => reply is Forwarded,
        Effect::Dispatch(_) => reply is Dispatched,
    }
}

/// The inputs hand a batch to the pump and confirm each step that the pump
/// takes for it, while cancellation is not signalled.
pub open spec fn pumps_batch(m: EngineView, batch: Seq<EventRecord>, inputs: Seq<Input>) -> bool {
    let plan = effects(m.config.intercepted, batch);
    &&& batch.len() > 0
    &&& inputs.len() == plan.len() + 1
    &&& inputs[0].reply == ReplyView::Batch(batch)
    &&& forall|i: int| 0 <= i < inputs.len() ==> !(#[trigger] inputs[i]).signals.cancelled
    &&& forall|i: int| 0 <= i < plan.len() ==> confirms(plan[i], #[trigger] inputs[i + 1].reply)
}

/// While a batch is pumped, the engine stands on the step that it has handed
/// out.
pub proof fn lemma_batch_progress(
    m: EngineView,
    batch: Seq<EventRecord>,
    inputs: Seq<Input>,
    i: int,
)
    requires
        m.phase is Priming || m.phase is Reading,
        pumps_batch(m, batch, inputs),
        0 <= i < effects(m.config.intercepted, batch).len(),
    ensures
        command_at(m, inputs, i) == Some(command_of(effects(m.config.intercepted, batch)[i])),
        state_after(m, inputs.take(i + 1)) == (EngineView {
            phase: Phase::Acting,
            clock: crate::watchdog::ActivityClock { last_activity_ms: inputs[0].signals.now_ms },
            plan: effects(m.config.intercepted, batch),
            cursor: i,
            ..m
        }),
    decreases i,
{
    assert(inputs.take(i + 1).drop_last() =~= inputs.take(i));
    assert(inputs.take(i + 1).last() == inputs[i]);
    if i == 0 {
        assert(inputs.take(0) =~= Seq::<Input>::empty());
        assert(state_after(m, inputs.take(0)) == m);
    } else {
        lemma_batch_progress(m, batch, inputs, i - 1);
        assert(confirms(effects(m.config.intercepted, batch)[i - 1], inputs[i - 1 + 1].reply));
    }
}

/// A batch is pumped in arrival order: the commands that the engine hands
/// out for it are the steps of [`effects`], one after the other, each record
/// that is not intercepted handed on unmodified and each intercepted press
/// dispatched; after the last of them the pump is back at the top of its
/// loop and reads, or stops.
pub proof fn law_batch_is_pumped_in_order(
    m: EngineView,
    batch: Seq<EventRecord>,
    inputs: Seq<Input>,
)
    requires
        m.phase is Priming || m.phase is Reading,
        pumps_batch(m, batch, inputs),
    ensures
        forall|i: int|
            0 <= i < effects(m.config.intercepted, batch).len() ==> #[trigger] command_at(
                m,
                inputs,
                i,
            ) == Some(command_of(effects(m.config.intercepted, batch)[i])),
        command_at(m, inputs, inputs.len() - 1) == Some(CommandView::Read) || command_at(
            m,
            inputs,
            inputs.len() - 1,
        ) == Some(CommandView::Release),
{
    let plan = effects(m.config.intercepted, batch);
    assert forall|i: int| 0 <= i < plan.len() implies #[trigger] command_at(m, inputs, i) == Some(
        command_of(plan[i]),
    ) by {
        lemma_batch_progress(m, batch, inputs, i);
    }
    let n = plan.len() as int;
    if n == 0 {
        assert(inputs.take(0) =~= Seq::<Input>::empty());
        assert(state_after(m, inputs.take(0)) == m);
    } else {
        lemma_batch_progress(m, batch, inputs, n - 1);
        assert(confirms(plan[n - 1], inputs[n - 1 + 1].reply));
    }
}

/// The records that a sequence of commands hands on, in order.
pub open spec fn forwards_among(issued: Seq<CommandView>) -> Seq<EventRecord>
    decreases issued.len(),
{
    if issued.len() == 0 {
        Seq::empty()
    } else {
        match issued.last() {
            CommandView::Forward(record) => forwards_among(issued.drop_last()).push(record),
            _ => forwards_among(issued.drop_last()),
        }
    }
}

/// The actions that a sequence of commands has dispatched, in order.
pub open spec fn dispatches_among(issued: Seq<CommandView>) -> Seq<Action>
    decreases issued.len(),
{
    if issued.len() == 0 {
        Seq::empty()
    } else {
        match issued.last() {
            CommandView::Dispatch(action) => dispatches_among(issued.drop_last()).push(action),
            _ => dispatches_among(issued.drop_last()),
        }
    }
}

/// The commands for the first steps of a batch that is pumped are the first
/// steps of its plan.
pub proof fn lemma_batch_commands(
    m: EngineView,
    batch: Seq<EventRecord>,
    inputs: Seq<Input>,
    j: int,
)
    requires
        m.phase is Priming || m.phase is Reading,
        pumps_batch(m, batch, inputs),
        0 <= j <= effects(m.config.intercepted, batch).len(),
    ensures
        commands(m, inputs.take(j)).len() == j,
        forwards_among(commands(m, inputs.take(j))) == forwarded(
            effects(m.config.intercepted, batch).take(j),
        ),
        dispatches_among(commands(m, inputs.take(j))) == dispatched(
            effects(m.config.intercepted, batch).take(j),
        ),
    decreases j,
{
    let plan = effects(m.config.intercepted, batch);
    if j == 0 {
        assert(inputs.take(0) =~= Seq::<Input>::empty());
        assert(plan.take(0) =~= Seq::<Effect>::empty());
    } else {
        lemma_batch_commands(m, batch, inputs, j - 1);
        lemma_batch_progress(m, batch, inputs, j - 1);
        assert(inputs.take(j).drop_last() =~= inputs.take(j - 1));
        assert(inputs.take(j).last() == inputs[j - 1]);
        assert(plan.take(j).drop_last() =~= plan.take(j - 1));
        assert(plan.take(j).last() == plan[j - 1]);
        let earlier = commands(m, inputs.take(j - 1));
        let command = command_of(plan[j - 1]);
        assert(commands(m, inputs.take(j)) == earlier.push(command));
        assert(earlier.push(command).drop_last() =~= earlier);
    }
}

/// The output of a batch that is pumped: the records handed on are the
/// records of the batch that are not intercepted, unmodified and in arrival
/// order, and the actions dispatched are those of its intercepted presses,
/// one for each and in arrival order.
pub proof fn law_batch_output(m: EngineView, batch: Seq<EventRecord>, inputs: Seq<Input>)
    requires
        m.phase is Priming || m.phase is Reading,
        pumps_batch(m, batch, inputs),
    ensures
        forwards_among(commands(m, inputs)) == passed_on(m.config.intercepted, batch),
        dispatches_among(commands(m, inputs)) == intercepted_presses(
            m.config.intercepted,
            batch,
        ).map_values(|record: EventRecord| m.config.intercepted[record.code]),
{
    let plan = effects(m.config.intercepted, batch);
    let n = plan.len() as int;
    lemma_batch_commands(m, batch, inputs, n);
    law_batch_is_pumped_in_order(m, batch, inputs);
    law_forwarded_is_passed_on(m.config.intercepted, batch);
    law_dispatched_is_presses(m.config.intercepted, batch);
    assert(plan.take(n) =~= plan);
    assert(inputs.drop_last() =~= inputs.take(n));
    assert(inputs.last() == inputs[n]);
    let earlier = commands(m, inputs.take(n));
    let closing = command_at(m, inputs, n).unwrap();
    assert(commands(m, inputs) == earlier.push(closing));
    assert(earlier.push(closing).drop_last() =~= earlier);
}

/// A batch arrives with the first input and is still in hand after each
/// input: the engine awaits the reply to one of its steps.
pub open spec fn in_hand(m: EngineView, batch: Seq<EventRecord>, inputs: Seq<Input>) -> bool {
    &&& inputs.len() > 0
    &&& inputs[0].reply == ReplyView::Batch(batch)
    &&& forall|j: int|
        1 <= j <= inputs.len() ==> (#[trigger] state_after(m, inputs.take(j))).phase is Acting
}

/// The records handed on by the first steps of a plan are the first of the
/// records handed on by the whole plan.
pub proof fn lemma_forwarded_prefix(plan: Seq<Effect>, n: int)
    requires
        0 <= n <= plan.len(),
    ensures
        forwarded(plan.take(n)).is_prefix_of(forwarded(plan)),
    decreases plan.len() - n,
{
    if n < plan.len() {
        lemma_forwarded_prefix(plan, n + 1);
        assert(plan.take(n + 1).drop_last() =~= plan.take(n));
        assert(plan.take(n + 1).last() == plan[n]);
        assert(forwarded(plan.take(n)).is_prefix_of(forwarded(plan.take(n + 1))));
    } else {
        assert(plan.take(n) =~= plan);
    }
}

/// While a batch is in hand, whatever the inputs are, the commands handed
/// out for it are the first steps of its plan, up to the step that the
/// engine stands on.
pub proof fn lemma_batch_in_hand(m: EngineView, batch: Seq<EventRecord>, inputs: Seq<Input>)
    requires
        m.phase is Priming || m.phase is Reading,
        in_hand(m, batch, inputs),
    ensures
        state_after(m, inputs).plan == effects(m.config.intercepted, batch),
        state_after(m, inputs).config == m.config,
        0 <= state_after(m, inputs).cursor < effects(m.config.intercepted, batch).len(),
        commands(m, inputs).len() == state_after(m, inputs).cursor + 1,
        forwards_among(commands(m, inputs)) == forwarded(
            effects(m.config.intercepted, batch).take(state_after(m, inputs).cursor + 1),
        ),
        dispatches_among(commands(m, inputs)) == dispatched(
            effects(m.config.intercepted, batch).take(state_after(m, inputs).cursor + 1),
        ),
    decreases inputs.len(),
{
    let plan = effects(m.config.intercepted, batch);
    let earlier = inputs.drop_last();
    assert(inputs.take(inputs.len() as int) =~= inputs);
    assert(state_after(m, inputs).phase is Acting);
    if inputs.len() == 1 {
        assert(earlier =~= Seq::<Input>::empty());
        assert(inputs.last() == inputs[0]);
        assert(state_after(m, earlier) == m);
        assert(commands(m, earlier) =~= Seq::<CommandView>::empty());
        assert(state_after(m, inputs) == advance(m, inputs[0]));
        assert(batch.len() > 0 && plan.len() > 0 && !inputs[0].signals.cancelled);
        let command = command_of(plan[0]);
        assert(answer(m, inputs[0]) == Some(command));
        assert(commands(m, inputs) == Seq::<CommandView>::empty().push(command));
        assert(Seq::<CommandView>::empty().push(command).drop_last() =~= Seq::<
            CommandView,
        >::empty());
        assert(plan.take(1).drop_last() =~= Seq::<Effect>::empty());
        assert(plan.take(1).last() == plan[0]);
        assert(forwards_among(Seq::<CommandView>::empty()) == Seq::<EventRecord>::empty());
        assert(dispatches_among(Seq::<CommandView>::empty()) == Seq::<Action>::empty());
        assert(forwarded(Seq::<Effect>::empty()) == Seq::<EventRecord>::empty());
        assert(dispatched(Seq::<Effect>::empty()) == Seq::<Action>::empty());
    } else {
        assert forall|j: int| 1 <= j <= earlier.len() implies (#[trigger] state_after(
            m,
            earlier.take(j),
        )).phase is Acting by {
            assert(earlier.take(j) =~= inputs.take(j));
        }
        assert(earlier[0] == inputs[0]);
        lemma_batch_in_hand(m, batch, earlier);
        let before = state_after(m, earlier);
        let issued = commands(m, earlier);
        match next(before, inputs.last().signals, inputs.last().reply) {
            Some((after, command)) => {
                assert(after.phase is Acting);
                assert(after.cursor == before.cursor + 1);
                assert(command == command_of(plan[after.cursor]));
                assert(commands(m, inputs) == issued.push(command));
                assert(issued.push(command).drop_last() =~= issued);
                assert(plan.take(after.cursor + 1).drop_last() =~= plan.take(after.cursor));
                assert(plan.take(after.cursor + 1).last() == plan[after.cursor]);
            },
            None => {},
        }
    }
}

/// Of a batch that is cut short, by cancellation or by a failed write, no
/// record is handed on out of turn: whatever the inputs are, the records
/// handed on while the batch is in hand are the first of its records that
/// are not intercepted, unmodified and in arrival order.
pub proof fn law_cut_batch_keeps_order(m: EngineView, batch: Seq<EventRecord>, inputs: Seq<Input>)
    requires
        m.phase is Priming || m.phase is Reading,
        in_hand(m, batch, inputs),
    ensures
        forwards_among(commands(m, inputs)).is_prefix_of(passed_on(m.config.intercepted, batch)),
{
    let plan = effects(m.config.intercepted, batch);
    lemma_batch_in_hand(m, batch, inputs);
    lemma_forwarded_prefix(plan, state_after(m, inputs).cursor + 1);
    law_forwarded_is_passed_on(m.config.intercepted, batch);
}

/// The step that ends a batch hands on nothing: the command that follows the
/// last step taken for a batch is a read or the release.
pub proof fn law_batch_ends_without_output(m: EngineView, signals: Signals, reply: ReplyView)
    requires
        m.phase is Acting,
        next(m, signals, reply) is Some,
        !(next(m, signals, reply).unwrap().0.phase is Acting),
    ensures
        next(m, signals, reply).unwrap().1 == CommandView::Read || next(
            m,
            signals,
            reply,
        ).unwrap().1 == CommandView::Release,
{
}

} // verus!
