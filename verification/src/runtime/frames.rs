use super::state_machine::{
    engine_after, lemma_terminal_state_kept, terminal, transition_log, StateMachine,
};
use crate::manifest::{EngineState, SimulationState, StateTransitionView};
use vstd::prelude::*;

verus! {

/// Why a run stopped.
#[derive(Debug, Clone, Copy, PartialEq, Eq, Structural)]
pub enum StopReason {
    /// The engine was in this terminal state at the start of a frame.
    Terminal(EngineState),
    /// The run reached its frame limit.
    FrameLimit,
}

/// What the runner does next.
#[derive(Debug, Clone, Copy, PartialEq, Eq, Structural)]
pub enum FrameAction {
    /// Call `pre_step` on every simulation.
    PreStep,
    /// Call `step` on every simulation.
    Step,
    /// Call `post_step` on every simulation.
    PostStep,
    /// Sleep until the next frame; the frame is over.
    Sleep,
    /// End the run.
    Stop(StopReason),
}

/// Where the driver stands in the frame loop.
#[derive(Debug, Clone, Copy, PartialEq, Eq, Structural)]
pub enum FramePhase {
    /// Before the run: the rules have not been applied yet.
    Init,
    /// At the start of a frame.
    Begin,
    /// `pre_step` has run on every simulation.
    AfterPreStep,
    /// `step` has run on every simulation.
    AfterStep,
    /// `post_step` has run on every simulation.
    AfterPostStep,
    /// The run is over.
    Stopped(StopReason),
}

/// The frame limit is reached.
pub open spec fn limit_reached(frame: int, max_frames: Option<u64>) -> bool {
    match max_frames {
        Some(m) => frame >= m,
        None => false,
    }
}

/// The outcome of one decision of the driver: the action, the phase and
/// frame count after it, the engine state after it, and the changes of
/// engine state made on the way.
pub struct FrameOutcome {
    pub action: FrameAction,
    pub phase: FramePhase,
    pub frame: int,
    pub engine: EngineState,
    pub log: Seq<(EngineState, EngineState)>,
}

/// The frame ends: the rules are applied once more and the runner sleeps.
pub open spec fn end_frame(
    engine: EngineState,
    frame: int,
    states: Map<Seq<char>, SimulationState>,
    rules: Seq<StateTransitionView>,
    log: Seq<(EngineState, EngineState)>,
) -> FrameOutcome {
    FrameOutcome {
        action: FrameAction::Sleep,
        phase: FramePhase::Begin,
        frame: frame + 1,
        engine: engine_after(engine, states, rules),
        log: log + transition_log(engine, states, rules),
    }
}

/// At the start of a frame: stop at the frame limit or in a terminal state;
/// start the lifecycle hooks while `RUNNING`; else end the frame.
pub open spec fn begin_frame(
    engine: EngineState,
    frame: int,
    max_frames: Option<u64>,
    states: Map<Seq<char>, SimulationState>,
    rules: Seq<StateTransitionView>,
    log: Seq<(EngineState, EngineState)>,
) -> FrameOutcome {
    if limit_reached(frame, max_frames) {
        FrameOutcome {
            action: FrameAction::Stop(StopReason::FrameLimit),
            phase: FramePhase::Stopped(StopReason::FrameLimit),
            frame,
            engine,
            log,
        }
    } else if terminal(engine) {
        FrameOutcome {
            action: FrameAction::Stop(StopReason::Terminal(engine)),
            phase: FramePhase::Stopped(StopReason::Terminal(engine)),
            frame,
            engine,
            log,
        }
    } else if engine == EngineState::RUNNING {
        FrameOutcome {
            action: FrameAction::PreStep,
            phase: FramePhase::AfterPreStep,
            frame,
            engine,
            log,
        }
    } else {
        end_frame(engine, frame, states, rules, log)
    }
}

/// After `step`: apply the rules; run `post_step` if still `RUNNING`, else
/// end the frame.
pub open spec fn after_step(
    engine: EngineState,
    frame: int,
    states: Map<Seq<char>, SimulationState>,
    rules: Seq<StateTransitionView>,
    log: Seq<(EngineState, EngineState)>,
) -> FrameOutcome {
    let applied = engine_after(engine, states, rules);
    let log = log + transition_log(engine, states, rules);
    if applied == EngineState::RUNNING {
        FrameOutcome {
            action: FrameAction::PostStep,
            phase: FramePhase::AfterPostStep,
            frame,
            engine: applied,
            log,
        }
    } else {
        end_frame(applied, frame, states, rules, log)
    }
}

/// After `pre_step`: apply the rules; run `step` if still `RUNNING`, else go
/// on as after `step`.
pub open spec fn after_pre_step(
    engine: EngineState,
    frame: int,
    states: Map<Seq<char>, SimulationState>,
    rules: Seq<StateTransitionView>,
    log: Seq<(EngineState, EngineState)>,
) -> FrameOutcome {
    let applied = engine_after(engine, states, rules);
    let log = log + transition_log(engine, states, rules);
    if applied == EngineState::RUNNING {
        FrameOutcome { action: FrameAction::Step, phase: FramePhase::AfterStep, frame, engine: applied, log }
    } else {
        after_step(applied, frame, states, rules, log)
    }
}

/// The next decision of the driver from `phase`.
pub open spec fn frame_decision(
    phase: FramePhase,
    engine: EngineState,
    frame: int,
    max_frames: Option<u64>,
    states: Map<Seq<char>, SimulationState>,
    rules: Seq<StateTransitionView>,
) -> FrameOutcome {
    let none = Seq::<(EngineState, EngineState)>::empty();
    match phase {
        FramePhase::Init => begin_frame(
            engine_after(engine, states, rules),
            frame,
            max_frames,
            states,
            rules,
            transition_log(engine, states, rules),
        ),
        FramePhase::Begin => begin_frame(engine, frame, max_frames, states, rules, none),
        FramePhase::AfterPreStep => after_pre_step(engine, frame, states, rules, none),
        FramePhase::AfterStep => after_step(engine, frame, states, rules, none),
        FramePhase::AfterPostStep => end_frame(engine, frame, states, rules, none),
        FramePhase::Stopped(reason) => FrameOutcome {
            action: FrameAction::Stop(reason),
            phase,
            frame,
            engine,
            log: none,
        },
    }
}

/// A frame in which the rules keep the engine `RUNNING` calls `pre_step`,
/// `step` and `post_step` in that order, then sleeps and counts the frame.
pub proof fn lemma_running_frame_calls_every_hook(
    frame: int,
    max_frames: Option<u64>,
    states: Map<Seq<char>, SimulationState>,
    rules: Seq<StateTransitionView>,
)
    requires
        !limit_reached(frame, max_frames),
        engine_after(EngineState::RUNNING, states, rules) == EngineState::RUNNING,
    ensures
        frame_decision(FramePhase::Begin, EngineState::RUNNING, frame, max_frames, states, rules).action
            == FrameAction::PreStep,
        frame_decision(FramePhase::Begin, EngineState::RUNNING, frame, max_frames, states, rules).phase
            == FramePhase::AfterPreStep,
        frame_decision(FramePhase::AfterPreStep, EngineState::RUNNING, frame, max_frames, states, rules).action
            == FrameAction::Step,
        frame_decision(FramePhase::AfterPreStep, EngineState::RUNNING, frame, max_frames, states, rules).phase
            == FramePhase::AfterStep,
        frame_decision(FramePhase::AfterStep, EngineState::RUNNING, frame, max_frames, states, rules).action
            == FrameAction::PostStep,
        frame_decision(FramePhase::AfterStep, EngineState::RUNNING, frame, max_frames, states, rules).phase
            == FramePhase::AfterPostStep,
        frame_decision(FramePhase::AfterPostStep, EngineState::RUNNING, frame, max_frames, states, rules).action
            == FrameAction::Sleep,
        frame_decision(FramePhase::AfterPostStep, EngineState::RUNNING, frame, max_frames, states, rules).frame
            == frame + 1,
        frame_decision(FramePhase::AfterPostStep, EngineState::RUNNING, frame, max_frames, states, rules).phase
            == FramePhase::Begin,
{
}

/// At the start of a frame below the limit, an engine in `START`, `READY`
/// or `RUNNING` does not stop the run: a `RUNNING` engine starts the hooks,
/// the others let the frame pass.
pub proof fn lemma_live_engine_keeps_running(
    engine: EngineState,
    frame: int,
    max_frames: Option<u64>,
    states: Map<Seq<char>, SimulationState>,
    rules: Seq<StateTransitionView>,
)
    requires
        engine == EngineState::START || engine == EngineState::READY || engine
            == EngineState::RUNNING,
        !limit_reached(frame, max_frames),
    ensures
        frame_decision(FramePhase::Begin, engine, frame, max_frames, states, rules).action == (
        if engine == EngineState::RUNNING {
            FrameAction::PreStep
        } else {
            FrameAction::Sleep
        }),
{
}

/// While the engine is in a terminal state, a decision keeps it there and
/// asks for no lifecycle hook.
pub proof fn lemma_terminal_engine_runs_no_hook(
    phase: FramePhase,
    engine: EngineState,
    frame: int,
    max_frames: Option<u64>,
    states: Map<Seq<char>, SimulationState>,
    rules: Seq<StateTransitionView>,
)
    requires
        terminal(engine),
    ensures
        ({
            let o = frame_decision(phase, engine, frame, max_frames, states, rules);
            &&& o.engine == engine
            &&& !(o.action is PreStep || o.action is Step || o.action is PostStep)
        }),
{
    lemma_terminal_state_kept(engine, states, rules);
}

/// The outcome of a run of decisions from `start`, where before each
/// decision the simulations have reported the states given for it.
pub open spec fn decisions_after(
    start: FrameOutcome,
    max_frames: Option<u64>,
    reports: Seq<Map<Seq<char>, SimulationState>>,
    rules: Seq<StateTransitionView>,
) -> FrameOutcome
    decreases reports.len(),
{
    if reports.len() == 0 {
        start
    } else {
        let prev = decisions_after(start, max_frames, reports.drop_last(), rules);
        frame_decision(prev.phase, prev.engine, prev.frame, max_frames, reports.last(), rules)
    }
}

/// Once the engine is in a terminal state, whatever the simulations report
/// afterwards, every later decision keeps it there and no lifecycle hook is
/// called again.
pub proof fn lemma_no_hook_after_terminal(
    start: FrameOutcome,
    max_frames: Option<u64>,
    reports: Seq<Map<Seq<char>, SimulationState>>,
    rules: Seq<StateTransitionView>,
)
    requires
        terminal(start.engine),
    ensures
        decisions_after(start, max_frames, reports, rules).engine == start.engine,
        reports.len() > 0 ==> !(decisions_after(start, max_frames, reports, rules).action is PreStep
            || decisions_after(start, max_frames, reports, rules).action is Step || decisions_after(
            start,
            max_frames,
            reports,
            rules,
        ).action is PostStep),
    decreases reports.len(),
{
    if reports.len() > 0 {
        lemma_no_hook_after_terminal(start, max_frames, reports.drop_last(), rules);
        let prev = decisions_after(start, max_frames, reports.drop_last(), rules);
        lemma_terminal_engine_runs_no_hook(
            prev.phase,
            prev.engine,
            prev.frame,
            max_frames,
            reports.last(),
            rules,
        );
    }
}

/// Drives the frame loop of a run: it applies the transition rules where the
/// loop does and tells the runner which lifecycle hook to call next.
pub struct FrameDriver {
    max_frames: Option<u64>,
    frame: u64,
    phase: FramePhase,
}

impl FrameDriver {
    /// The frame limit of the run; `None` runs until a terminal state.
    pub closed spec fn max_frames(&self) -> Option<u64> {
        self.max_frames
    }

    /// The number of frames completed.
    pub closed spec fn frame(&self) -> u64 {
        self.frame
    }

    /// Where the driver stands in the frame loop.
    pub closed spec fn phase(&self) -> FramePhase {
        self.phase
    }

    /// The frame count stays within the limit, and a frame in progress is
    /// below it.
    pub open spec fn wf(&self) -> bool {
        &&& (self.max_frames() matches Some(m) ==> self.frame() <= m)
        &&& (self.phase() is AfterPreStep || self.phase() is AfterStep || self.phase() is AfterPostStep)
            ==> !limit_reached(self.frame() as int, self.max_frames())
        &&& (self.phase() matches FramePhase::Stopped(StopReason::Terminal(e)) ==> terminal(e))
        &&& (self.phase() matches FramePhase::Stopped(StopReason::FrameLimit) ==> limit_reached(
            self.frame() as int,
            self.max_frames(),
        ))
    }

    /// A driver for a run of at most `max_frames` frames.
    pub fn new(max_frames: Option<u64>) -> (d: Self)
        ensures
            d.max_frames() == max_frames,
            d.frame() == 0,
            d.phase() == FramePhase::Init,
            d.wf(),
    {
        FrameDriver { max_frames, frame: 0, phase: FramePhase::Init }
    }

    /// The number of frames completed.
    pub fn frames(&self) -> (n: u64)
        ensures
            n == self.frame(),
    {
        self.frame
    }

    fn end_frame(&mut self, sm: &mut StateMachine, log: &mut Vec<(EngineState, EngineState)>)
        -> (action: FrameAction)
        requires
            old(self).max_frames() is None ==> old(self).frame() < u64::MAX,
            !limit_reached(old(self).frame() as int, old(self).max_frames()),
            old(self).max_frames() matches Some(m) ==> old(self).frame() <= m,
        ensures
            ({
                let o = end_frame(old(sm).engine(), old(self).frame() as int, old(sm).states(), old(sm).rules(), old(log)@);
                &&& action == o.action
                &&& final(self).phase() == o.phase
                &&& final(self).frame() == o.frame
                &&& final(sm).engine() == o.engine
                &&& final(log)@ == o.log
            }),
            final(sm).states() == old(sm).states(),
            final(sm).rules() == old(sm).rules(),
            final(self).max_frames() == old(self).max_frames(),
            final(self).wf(),
    {
        let mut changes = sm.apply_transitions();
        log.append(&mut changes);
        self.phase = FramePhase::Begin;
        self.frame = self.frame + 1;
        FrameAction::Sleep
    }

    fn begin_frame(&mut self, sm: &mut StateMachine, log: &mut Vec<(EngineState, EngineState)>)
        -> (action: FrameAction)
        requires
            old(self).wf(),
            old(self).max_frames() is None ==> old(self).frame() < u64::MAX,
        ensures
            ({
                let o = begin_frame(
                    old(sm).engine(),
                    old(self).frame() as int,
                    old(self).max_frames(),
                    old(sm).states(),
                    old(sm).rules(),
                    old(log)@,
                );
                &&& action == o.action
                &&& final(self).phase() == o.phase
                &&& final(self).frame() == o.frame
                &&& final(sm).engine() == o.engine
                &&& final(log)@ == o.log
            }),
            final(sm).states() == old(sm).states(),
            final(sm).rules() == old(sm).rules(),
            final(self).max_frames() == old(self).max_frames(),
            final(self).wf(),
    {
        let reached = match self.max_frames {
            Some(m) => self.frame >= m,
            None => false,
        };
        if reached {
            self.phase = FramePhase::Stopped(StopReason::FrameLimit);
            FrameAction::Stop(StopReason::FrameLimit)
        } else if sm.is_terminal() {
            let reason = StopReason::Terminal(sm.engine_state());
            self.phase = FramePhase::Stopped(reason);
            FrameAction::Stop(reason)
        } else if sm.should_step() {
            self.phase = FramePhase::AfterPreStep;
            FrameAction::PreStep
        } else {
            self.end_frame(sm, log)
        }
    }

    fn after_step(&mut self, sm: &mut StateMachine, log: &mut Vec<(EngineState, EngineState)>)
        -> (action: FrameAction)
        requires
            old(self).wf(),
            old(self).max_frames() is None ==> old(self).frame() < u64::MAX,
            !limit_reached(old(self).frame() as int, old(self).max_frames()),
        ensures
            ({
                let o = after_step(old(sm).engine(), old(self).frame() as int, old(sm).states(), old(sm).rules(), old(log)@);
                &&& action == o.action
                &&& final(self).phase() == o.phase
                &&& final(self).frame() == o.frame
                &&& final(sm).engine() == o.engine
                &&& final(log)@ == o.log
            }),
            final(sm).states() == old(sm).states(),
            final(sm).rules() == old(sm).rules(),
            final(self).max_frames() == old(self).max_frames(),
            final(self).wf(),
    {
        let mut changes = sm.apply_transitions();
        log.append(&mut changes);
        if sm.should_step() {
            self.phase = FramePhase::AfterPostStep;
            FrameAction::PostStep
        } else {
            self.end_frame(sm, log)
        }
    }

    fn after_pre_step(&mut self, sm: &mut StateMachine, log: &mut Vec<(EngineState, EngineState)>)
        -> (action: FrameAction)
        requires
            old(self).wf(),
            old(self).max_frames() is None ==> old(self).frame() < u64::MAX,
            !limit_reached(old(self).frame() as int, old(self).max_frames()),
        ensures
            ({
                let o = after_pre_step(old(sm).engine(), old(self).frame() as int, old(sm).states(), old(sm).rules(), old(log)@);
                &&& action == o.action
                &&& final(self).phase() == o.phase
                &&& final(self).frame() == o.frame
                &&& final(sm).engine() == o.engine
                &&& final(log)@ == o.log
            }),
            final(sm).states() == old(sm).states(),
            final(sm).rules() == old(sm).rules(),
            final(self).max_frames() == old(self).max_frames(),
            final(self).wf(),
    {
        let mut changes = sm.apply_transitions();
        log.append(&mut changes);
        if sm.should_step() {
            self.phase = FramePhase::AfterStep;
            FrameAction::Step
        } else {
            self.after_step(sm, log)
        }
    }

    /// Decides what the runner does next, applying the transition rules to
    /// the state machine wherever the frame loop applies them; returns the
    /// action and the changes of engine state made on the way.
    pub fn next_action(&mut self, sm: &mut StateMachine) -> (r: (
        FrameAction,
        Vec<(EngineState, EngineState)>,
    ))
        requires
            old(self).wf(),
            old(self).max_frames() is None ==> old(self).frame() < u64::MAX,
        ensures
            ({
                let o = frame_decision(
                    old(self).phase(),
                    old(sm).engine(),
                    old(self).frame() as int,
                    old(self).max_frames(),
                    old(sm).states(),
                    old(sm).rules(),
                );
                &&& r.0 == o.action
                &&& final(self).phase() == o.phase
                &&& final(self).frame() == o.frame
                &&& final(sm).engine() == o.engine
                &&& r.1@ == o.log
            }),
            (r.0 is PreStep || r.0 is Step || r.0 is PostStep) ==> final(sm).engine()
                == EngineState::RUNNING,
            r.0 matches FrameAction::Stop(StopReason::Terminal(e)) ==> terminal(e) && (!(old(
                self,
            ).phase() is Stopped) ==> final(sm).engine() == e),
            r.0 matches FrameAction::Stop(StopReason::FrameLimit) ==> final(self).max_frames()
                == Some(final(self).frame()),
            final(sm).states() == old(sm).states(),
            final(sm).rules() == old(sm).rules(),
            final(self).max_frames() == old(self).max_frames(),
            final(self).wf(),
    {
        let mut log: Vec<(EngineState, EngineState)> = Vec::new();
        let action = match self.phase {
            FramePhase::Init => {
                let mut changes = sm.apply_transitions();
                log.append(&mut changes);
                self.phase = FramePhase::Begin;
                self.begin_frame(sm, &mut log)
            },
            FramePhase::Begin => self.begin_frame(sm, &mut log),
            FramePhase::AfterPreStep => self.after_pre_step(sm, &mut log),
            FramePhase::AfterStep => self.after_step(sm, &mut log),
            FramePhase::AfterPostStep => self.end_frame(sm, &mut log),
            FramePhase::Stopped(reason) => FrameAction::Stop(reason),
        };
        (action, log)
    }
}

} // verus!
