//! The decisions of starting an actor: run `init`, then the event loop, then `teardown`, and
//! report the stage that the run ended with.
//!
//! A runtime drives a [`Lifecycle`]: it feeds the result of each stage to [`Lifecycle::step`]
//! and performs the action that comes back.
use vstd::prelude::*;

use super::{Need, NeedResult, ResultSource};

verus! {

/// Which way of starting an actor is in use.
#[derive(Clone, Copy, Debug, PartialEq, Eq, Structural)]
pub enum StartMode {
    /// The event loop runs to its end.
    Plain,
    /// The event loop can be aborted through an abort handle.
    Abortable,
    /// The event loop is cut off after a time to live.
    Timeout,
}

/// How an event loop ended.
#[derive(Clone, Copy, Debug)]
pub enum LoopOutcome {
    /// It returned this result.
    Returned(NeedResult),
    /// Its abort handle fired.
    Aborted,
    /// Its time to live ran out.
    TimedOut,
}

/// What the actor is told before its teardown, when its event loop was cut short.
#[derive(Clone, Copy, Debug, PartialEq, Eq, Structural)]
pub enum Interruption {
    /// The loop ended by itself.
    Completed,
    /// Call the actor's `aborted` hook.
    Aborted,
    /// Call the actor's `timed_out` hook.
    TimedOut,
}

/// Where a run of an actor stands.
#[derive(Clone, Copy, Debug)]
pub enum Phase {
    /// `init` is running.
    Initializing,
    /// The event loop is running.
    Running,
    /// `teardown` is running; the run ends with `source`, or with the teardown's own result
    /// when `keep_teardown_result` holds.
    TearingDown { source: ResultSource, keep_teardown_result: bool },
    /// The run ended with this result.
    Finished(ResultSource),
}

/// A stage's result, fed to the lifecycle.
#[derive(Clone, Copy, Debug)]
pub enum LifecycleEvent {
    /// `init` returned.
    InitDone(NeedResult),
    /// The event loop ended.
    LoopDone(LoopOutcome),
    /// `teardown` returned.
    TeardownDone(NeedResult),
}

/// What the runtime does next.
#[derive(Clone, Copy, Debug)]
pub enum LifecycleAction {
    /// Run the event loop.
    RunEventLoop,
    /// Report `interruption` to the actor, then run `teardown` with `status`.
    RunTeardown { status: ResultSource, interruption: Interruption },
    /// The run is over, with this result.
    Finish(ResultSource),
}

/// The state of one run of an actor.
#[derive(Clone, Copy, Debug)]
pub struct Lifecycle {
    /// The way the actor was started.
    pub mode: StartMode,
    /// Where the run stands.
    pub phase: Phase,
}

/// The result is a success.
pub open spec fn is_ok(r: NeedResult) -> bool {
    r is Ok
}

/// `event` is one that a run in `phase`, started in `mode`, waits for.
pub open spec fn expects(mode: StartMode, phase: Phase, event: LifecycleEvent) -> bool {
    match (phase, event) {
        (Phase::Initializing, LifecycleEvent::InitDone(_)) => true,
        (Phase::Running, LifecycleEvent::LoopDone(o)) => mode == StartMode::Plain ==> o is Returned,
        (Phase::TearingDown { .. }, LifecycleEvent::TeardownDone(_)) => true,
        _ => false,
    }
}

/// One step of a run: the next state and the action for the runtime.
pub open spec fn next(mode: StartMode, phase: Phase, event: LifecycleEvent) -> (Phase, LifecycleAction) {
    match (phase, event) {
        (Phase::Initializing, LifecycleEvent::InitDone(res)) => if is_ok(res) {
            (Phase::Running, LifecycleAction::RunEventLoop)
        } else {
            (
                Phase::TearingDown { source: ResultSource::Init(res), keep_teardown_result: false },
                LifecycleAction::RunTeardown {
                    status: ResultSource::Init(res),
                    interruption: Interruption::Completed,
                },
            )
        },
        (Phase::Running, LifecycleEvent::LoopDone(outcome)) => match outcome {
            LoopOutcome::Returned(res) => if is_ok(res) {
                (
                    Phase::TearingDown { source: ResultSource::Loop(res), keep_teardown_result: true },
                    LifecycleAction::RunTeardown {
                        status: ResultSource::Loop(res),
                        interruption: Interruption::Completed,
                    },
                )
            } else if mode == StartMode::Plain {
                (
                    Phase::TearingDown { source: ResultSource::Loop(res), keep_teardown_result: false },
                    LifecycleAction::RunTeardown {
                        status: ResultSource::Loop(res),
                        interruption: Interruption::Completed,
                    },
                )
            } else {
                // The abortable and timed starts keep the source of `init` here.
                (
                    Phase::TearingDown { source: ResultSource::Init(Ok(())), keep_teardown_result: false },
                    LifecycleAction::RunTeardown {
                        status: ResultSource::Init(Ok(())),
                        interruption: Interruption::Completed,
                    },
                )
            },
            LoopOutcome::Aborted => (
                Phase::TearingDown {
                    source: ResultSource::Loop(Err(Need::Abort)),
                    keep_teardown_result: false,
                },
                LifecycleAction::RunTeardown {
                    status: ResultSource::Loop(Err(Need::Abort)),
                    interruption: Interruption::Aborted,
                },
            ),
            LoopOutcome::TimedOut => (
                Phase::TearingDown {
                    source: ResultSource::Loop(Err(Need::Abort)),
                    keep_teardown_result: false,
                },
                LifecycleAction::RunTeardown {
                    status: ResultSource::Loop(Err(Need::Abort)),
                    interruption: Interruption::TimedOut,
                },
            ),
        },
        (Phase::TearingDown { source, keep_teardown_result }, LifecycleEvent::TeardownDone(res)) => {
            let result = if keep_teardown_result {
                ResultSource::Teardown(res)
            } else {
                source
            };
            (Phase::Finished(result), LifecycleAction::Finish(result))
        },
        _ => (phase, LifecycleAction::Finish(ResultSource::Init(Ok(())))),
    }
}

impl Lifecycle {
    /// A run that has not started `init` yet.
    pub fn new(mode: StartMode) -> (r: Self)
        ensures
            r.mode == mode,
            r.phase is Initializing,
    {
        Lifecycle { mode, phase: Phase::Initializing }
    }

    /// Feeds the result of the running stage to the run and returns what the runtime does next.
    pub fn step(&mut self, event: LifecycleEvent) -> (action: LifecycleAction)
        requires
            expects(old(self).mode, old(self).phase, event),
        ensures
            final(self).mode == old(self).mode,
            (final(self).phase, action) == next(old(self).mode, old(self).phase, event),
    {
        match event {
            LifecycleEvent::InitDone(res) => {
                if res.is_ok() {
                    self.phase = Phase::Running;
                    LifecycleAction::RunEventLoop
                } else {
                    let source = ResultSource::Init(res);
                    self.phase = Phase::TearingDown { source, keep_teardown_result: false };
                    LifecycleAction::RunTeardown { status: source, interruption: Interruption::Completed }
                }
            },
            LifecycleEvent::LoopDone(outcome) => match outcome {
                LoopOutcome::Returned(res) => {
                    if res.is_ok() {
                        let source = ResultSource::Loop(res);
                        self.phase = Phase::TearingDown { source, keep_teardown_result: true };
                        LifecycleAction::RunTeardown { status: source, interruption: Interruption::Completed }
                    } else {
                        let source = match self.mode {
                            StartMode::Plain => ResultSource::Loop(res),
                            _ => ResultSource::Init(Ok(())),
                        };
                        self.phase = Phase::TearingDown { source, keep_teardown_result: false };
                        LifecycleAction::RunTeardown { status: source, interruption: Interruption::Completed }
                    }
                },
                LoopOutcome::Aborted => {
                    let source = ResultSource::Loop(Err(Need::Abort));
                    self.phase = Phase::TearingDown { source, keep_teardown_result: false };
                    LifecycleAction::RunTeardown { status: source, interruption: Interruption::Aborted }
                },
                LoopOutcome::TimedOut => {
                    let source = ResultSource::Loop(Err(Need::Abort));
                    self.phase = Phase::TearingDown { source, keep_teardown_result: false };
                    LifecycleAction::RunTeardown { status: source, interruption: Interruption::TimedOut }
                },
            },
            LifecycleEvent::TeardownDone(res) => {
                let result = match self.phase {
                    Phase::TearingDown { source, keep_teardown_result } => {
                        if keep_teardown_result {
                            ResultSource::Teardown(res)
                        } else {
                            source
                        }
                    },
                    _ => ResultSource::Init(Ok(())),
                };
                self.phase = Phase::Finished(result);
                LifecycleAction::Finish(result)
            },
        }
    }
}

/// The results of the stages of one run, fed in the order in which a runtime receives them:
/// the event loop only runs when `init` succeeded.
pub open spec fn run_events(init: NeedResult, outcome: LoopOutcome, teardown: NeedResult) -> Seq<
    LifecycleEvent,
> {
    if is_ok(init) {
        seq![
            LifecycleEvent::InitDone(init),
            LifecycleEvent::LoopDone(outcome),
            LifecycleEvent::TeardownDone(teardown),
        ]
    } else {
        seq![LifecycleEvent::InitDone(init), LifecycleEvent::TeardownDone(teardown)]
    }
}

/// Feeds `events` to a run in `phase` while each is one that it waits for; the phase it ends in,
/// the actions it returned, and whether every event was one it waited for.
pub open spec fn drive(mode: StartMode, phase: Phase, events: Seq<LifecycleEvent>) -> (
    Phase,
    Seq<LifecycleAction>,
    bool,
)
    decreases events.len(),
{
    if events.len() == 0 {
        (phase, Seq::empty(), true)
    } else if !expects(mode, phase, events[0]) {
        (phase, Seq::empty(), false)
    } else {
        let (p, a) = next(mode, phase, events[0]);
        let (end, rest, ok) = drive(mode, p, events.drop_first());
        (end, seq![a] + rest, ok)
    }
}

/// The result that a run ends with: the failure of `init`; otherwise, for a plain start, the
/// failure of the event loop; for an abortable or timed start, `Init(Ok(()))` when the loop
/// returned a failure and `Loop(Err(Need::Abort))` when it was cut short; otherwise the result of
/// `teardown`.
pub open spec fn run_result(
    mode: StartMode,
    init: NeedResult,
    outcome: LoopOutcome,
    teardown: NeedResult,
) -> ResultSource {
    if !is_ok(init) {
        ResultSource::Init(init)
    } else {
        match outcome {
            LoopOutcome::Returned(r) => if is_ok(r) {
                ResultSource::Teardown(teardown)
            } else if mode == StartMode::Plain {
                ResultSource::Loop(r)
            } else {
                ResultSource::Init(Ok(()))
            },
            _ => ResultSource::Loop(Err(Need::Abort)),
        }
    }
}

/// The status that `teardown` is given: what the run would end with, were the teardown's own
/// result not kept; `Loop(Ok(()))` after a loop that succeeded.
pub open spec fn teardown_status(mode: StartMode, init: NeedResult, outcome: LoopOutcome) -> ResultSource {
    if !is_ok(init) {
        ResultSource::Init(init)
    } else {
        match outcome {
            LoopOutcome::Returned(r) => if is_ok(r) || mode == StartMode::Plain {
                ResultSource::Loop(r)
            } else {
                ResultSource::Init(Ok(()))
            },
            _ => ResultSource::Loop(Err(Need::Abort)),
        }
    }
}

/// The hook that the actor is told through before its teardown.
pub open spec fn interruption_of(init: NeedResult, outcome: LoopOutcome) -> Interruption {
    if !is_ok(init) {
        Interruption::Completed
    } else {
        match outcome {
            LoopOutcome::Returned(_) => Interruption::Completed,
            LoopOutcome::Aborted => Interruption::Aborted,
            LoopOutcome::TimedOut => Interruption::TimedOut,
        }
    }
}

/// The event loop returned a success.
pub open spec fn loop_succeeded(outcome: LoopOutcome) -> bool {
    match outcome {
        LoopOutcome::Returned(r) => is_ok(r),
        _ => false,
    }
}

/// A run that a plain start cannot see: one whose loop was cut short.
pub open spec fn possible(mode: StartMode, outcome: LoopOutcome) -> bool {
    mode == StartMode::Plain ==> outcome is Returned
}

/// A run of an actor, fed the results of its stages: every result is one that the run waits
/// for; the event loop runs exactly when `init` succeeded; `teardown` runs exactly once, as the
/// last thing before the run ends, with the status [`teardown_status`], after the actor is told
/// of an interruption of its loop; and the run ends with [`run_result`].
pub proof fn lemma_run(mode: StartMode, init: NeedResult, outcome: LoopOutcome, teardown: NeedResult)
    requires
        possible(mode, outcome),
    ensures
        ({
            let (end, actions, accepted) = drive(mode, Phase::Initializing, run_events(init, outcome, teardown));
            &&& accepted
            &&& end == Phase::Finished(run_result(mode, init, outcome, teardown))
            &&& actions.len() == run_events(init, outcome, teardown).len()
            &&& actions.last() == LifecycleAction::Finish(run_result(mode, init, outcome, teardown))
            &&& actions[actions.len() - 2] == (LifecycleAction::RunTeardown {
                status: teardown_status(mode, init, outcome),
                interruption: interruption_of(init, outcome),
            })
            &&& (is_ok(init) <==> actions[0] is RunEventLoop)
            &&& forall|i: int| 0 <= i < actions.len() && #[trigger] actions[i] is RunTeardown ==> i == actions.len() - 2
        }),
{
    let events = run_events(init, outcome, teardown);
    let (p1, a1) = next(mode, Phase::Initializing, events[0]);
    let (_e1, r1, _k1) = drive(mode, p1, events.drop_first());
    if is_ok(init) {
        let (p2, a2) = next(mode, p1, events[1]);
        assert(events.drop_first()[0] == events[1]);
        assert(events.drop_first().drop_first() =~= seq![events[2]]);
        let (p3, a3) = next(mode, p2, events[2]);
        assert(seq![events[2]].drop_first() =~= Seq::<LifecycleEvent>::empty());
        assert(drive(mode, p3, Seq::<LifecycleEvent>::empty()) == (p3, Seq::<LifecycleAction>::empty(), true));
        assert(drive(mode, p2, seq![events[2]]) == (p3, seq![a3], true));
        assert(drive(mode, p1, events.drop_first()) == (p3, seq![a2] + seq![a3], true));
        assert(seq![a1] + (seq![a2] + seq![a3]) =~= seq![a1, a2, a3]);
    } else {
        assert(events.drop_first() =~= seq![events[1]]);
        let (p2, a2) = next(mode, p1, events[1]);
        assert(seq![events[1]].drop_first() =~= Seq::<LifecycleEvent>::empty());
        assert(drive(mode, p2, Seq::<LifecycleEvent>::empty()) == (p2, Seq::<LifecycleAction>::empty(), true));
        assert(drive(mode, p1, events.drop_first()) == (p2, seq![a2], true));
        assert(seq![a1] + seq![a2] =~= seq![a1, a2]);
    }
}

/// The teardown's own result decides how a run ends exactly when `init` and the event loop
/// both succeeded; otherwise any two teardown results end it the same way.
pub proof fn lemma_teardown_result_kept_only_after_success(
    mode: StartMode,
    init: NeedResult,
    outcome: LoopOutcome,
    t1: NeedResult,
    t2: NeedResult,
)
    ensures
        (is_ok(init) && loop_succeeded(outcome)) ==> run_result(
            mode,
            init,
            outcome,
            t1,
        ) == ResultSource::Teardown(t1),
        !(is_ok(init) && loop_succeeded(outcome)) ==> run_result(
            mode,
            init,
            outcome,
            t1,
        ) == run_result(mode, init, outcome, t2),
{
}

/// A plain start ends with the first stage that failed and its failure, or with the result of
/// `teardown` when `init` and the event loop succeeded.
pub proof fn lemma_plain_start_reports_first_failure(
    init: NeedResult,
    outcome: LoopOutcome,
    teardown: NeedResult,
)
    requires
        possible(StartMode::Plain, outcome),
    ensures
        run_result(StartMode::Plain, init, outcome, teardown) matches ResultSource::Init(r) ==> !is_ok(r) && r == init,
        run_result(StartMode::Plain, init, outcome, teardown) matches ResultSource::Loop(r) ==> is_ok(init)
            && !is_ok(r) && outcome == LoopOutcome::Returned(r),
        run_result(StartMode::Plain, init, outcome, teardown) matches ResultSource::Teardown(r) ==> is_ok(init)
            && loop_succeeded(outcome) && r == teardown,
{
}

/// An event loop that is aborted or runs out of time ends the run with `Loop(Err(Need::Abort))`.
pub proof fn lemma_cut_short_loop_ends_with_abort(
    mode: StartMode,
    init: NeedResult,
    outcome: LoopOutcome,
    teardown: NeedResult,
)
    requires
        is_ok(init),
        outcome is Aborted || outcome is TimedOut,
    ensures
        run_result(mode, init, outcome, teardown) == ResultSource::Loop(Err::<(), Need>(Need::Abort)),
{
}

} // verus!
