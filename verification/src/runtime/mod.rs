mod state_machine;

pub use state_machine::{
    condition_holds, engine_after, fires_into_terminal, lemma_apply_transitions_idempotent,
    lemma_all_condition_holds_exactly, lemma_any_condition_holds_exactly,
    lemma_condition_without_requirements, lemma_first_terminal_rule_decides,
    lemma_single_rule_moves_live_engine, lemma_terminal_states_exactly,
    lemma_transition_log_chains, lemma_reports_keep_engine_state, lemma_terminal_state_kept,
    records_state,
    lemma_empty_condition_never_holds, lemma_last_firing_rule_wins, lemma_no_rule_fires,
    lemma_recorded_state_read_back, requirement_met, state_in, terminal, transition_log,
    StateMachine,
};
mod frames;

pub use frames::{
    after_pre_step, after_step, begin_frame, end_frame, frame_decision,
    decisions_after, lemma_live_engine_keeps_running, lemma_no_hook_after_terminal, lemma_running_frame_calls_every_hook,
    lemma_terminal_engine_runs_no_hook, limit_reached,
    FrameAction, FrameDriver, FrameOutcome, FramePhase, StopReason,
};
mod host;

pub use host::{
    bytes_read, carries_output, delivery_matches, is_local, lemma_delivery_kind, lemma_local_endpoints_exactly, lemma_local_flow_delivers,
    lemma_output_read_back, lemma_value_key_layout, local_targets,
    output_flows, value_key, values_after_output,
    value_key_view, Delivery, HostContext, HostShared,
};

use crate::manifest::{EngineState, Manifest};
use vstd::prelude::*;

verus! {

/// The endpoints that simulations of this manifest listen on, in order.
pub fn local_endpoints(manifest: &Manifest) -> (endpoints: Vec<String>)
    ensures
        endpoints@.len() == manifest.simulations@.len(),
        forall|i: int|
            0 <= i < endpoints@.len() ==> #[trigger] endpoints@[i]@
                == manifest.simulations@[i].endpoint@,
{
    let mut endpoints: Vec<String> = Vec::new();
    let mut i: usize = 0;
    while i < manifest.simulations.len()
        invariant
            i <= manifest.simulations@.len(),
            endpoints@.len() == i,
            forall|k: int|
                0 <= k < i ==> #[trigger] endpoints@[k]@ == manifest.simulations@[k].endpoint@,
        decreases manifest.simulations@.len() - i,
    {
        endpoints.push(manifest.simulations[i].endpoint.clone());
        i += 1;
    }
    endpoints
}

/// The frame rate of a run: the manifest's `fps`, and at least one.
pub fn frame_rate(fps: u32) -> (rate: u32)
    ensures
        rate == if fps == 0 { 1 } else { fps },
{
    if fps == 0 {
        1
    } else {
        fps
    }
}

/// The engine state as seen through a lock: `ERROR` when the lock could not
/// be taken.
pub fn current_engine_state(locked: Option<&StateMachine>) -> (state: EngineState)
    ensures
        state == match locked {
            Some(sm) => sm.engine(),
            None => EngineState::ERROR,
        },
{
    match locked {
        Some(sm) => sm.engine_state(),
        None => EngineState::ERROR,
    }
}

/// Whether lifecycle hooks run, as seen through a lock: not when the lock
/// could not be taken.
pub fn state_machine_should_step(locked: Option<&StateMachine>) -> (step: bool)
    ensures
        step == match locked {
            Some(sm) => sm.engine() == EngineState::RUNNING,
            None => false,
        },
{
    match locked {
        Some(sm) => sm.should_step(),
        None => false,
    }
}

/// Whether the run is over, as seen through a lock: it is when the lock
/// could not be taken.
pub fn state_machine_is_terminal(locked: Option<&StateMachine>) -> (done: bool)
    ensures
        done == match locked {
            Some(sm) => terminal(sm.engine()),
            None => true,
        },
{
    match locked {
        Some(sm) => sm.is_terminal(),
        None => true,
    }
}

} // verus!
