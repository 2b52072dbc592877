use super::{CoreError, SimulationConfig, ValidationIssue};
use crate::search::{
    first_index, lemma_first_index_characterized, lemma_first_index_found, lemma_first_index_none,
};
use vstd::prelude::*;

verus! {

/// The fixed states of the engine.
#[allow(non_camel_case_types)]
#[derive(Debug, Clone, Copy, PartialEq, Eq, Structural)]
pub enum EngineState {
    START,
    READY,
    RUNNING,
    FINISHED,
    ERROR,
}

/// The fixed internal states of a simulation.
#[allow(non_camel_case_types)]
#[derive(Debug, Clone, Copy, PartialEq, Eq, Structural)]
pub enum SimulationState {
    _START,
    _READY,
    _RUNNING,
    _FINISHED,
    _ERROR,
}

impl View for SimulationState {
    type V = SimulationState;

    open spec fn view(&self) -> SimulationState {
        *self
    }
}

/// The name under which a simulation state is written in manifests and
/// reported by plugins.
pub open spec fn simulation_state_name(state: SimulationState) -> Seq<char> {
    match state {
        SimulationState::_START => "_START"@,
        SimulationState::_READY => "_READY"@,
        SimulationState::_RUNNING => "_RUNNING"@,
        SimulationState::_FINISHED => "_FINISHED"@,
        SimulationState::_ERROR => "_ERROR"@,
    }
}

impl SimulationState {
    /// Reads a simulation state from its name, as a plugin reports it.
    pub fn from_name(name: &str) -> (state: Option<SimulationState>)
        ensures
            state matches Some(s) ==> simulation_state_name(s) == name@,
            state is None ==> forall|s: SimulationState| simulation_state_name(s) != name@,
    {
        let name = name.to_owned();
        if name == "_START".to_owned() {
            Some(SimulationState::_START)
        } else if name == "_READY".to_owned() {
            Some(SimulationState::_READY)
        } else if name == "_RUNNING".to_owned() {
            Some(SimulationState::_RUNNING)
        } else if name == "_FINISHED".to_owned() {
            Some(SimulationState::_FINISHED)
        } else if name == "_ERROR".to_owned() {
            Some(SimulationState::_ERROR)
        } else {
            assert forall|s: SimulationState| simulation_state_name(s) != name@ by {
                match s {
                    SimulationState::_START => {},
                    SimulationState::_READY => {},
                    SimulationState::_RUNNING => {},
                    SimulationState::_FINISHED => {},
                    SimulationState::_ERROR => {},
                }
            }
            None
        }
    }
}

/// One requirement of a transition: the simulation `sim` is in `state`.
#[derive(Debug)]
pub struct SimulationStateCondition {
    pub sim: String,
    pub state: SimulationState,
}

/// The condition of a transition: either every requirement of `all` holds,
/// or at least one of `any`.
#[derive(Debug)]
pub struct StateTransitionCondition {
    pub all: Vec<SimulationStateCondition>,
    pub any: Vec<SimulationStateCondition>,
}

/// A rule that moves the engine to `engine` when `when` holds.
#[derive(Debug)]
pub struct StateTransitionConfig {
    pub when: StateTransitionCondition,
    pub engine: EngineState,
}

/// The mathematical value of a [`SimulationStateCondition`].
pub struct SimulationStateConditionView {
    pub sim: Seq<char>,
    pub state: SimulationState,
}

/// The mathematical value of a [`StateTransitionCondition`].
pub struct StateTransitionConditionView {
    pub all: Seq<SimulationStateConditionView>,
    pub any: Seq<SimulationStateConditionView>,
}

/// The mathematical value of a [`StateTransitionConfig`].
pub struct StateTransitionView {
    pub when: StateTransitionConditionView,
    pub engine: EngineState,
}

impl View for SimulationStateCondition {
    type V = SimulationStateConditionView;

    open spec fn view(&self) -> SimulationStateConditionView {
        SimulationStateConditionView { sim: self.sim@, state: self.state }
    }
}

/// The views of a sequence of requirements.
pub open spec fn conditions_view(
    items: Seq<SimulationStateCondition>,
) -> Seq<SimulationStateConditionView> {
    items.map_values(|c: SimulationStateCondition| c@)
}

impl View for StateTransitionCondition {
    type V = StateTransitionConditionView;

    open spec fn view(&self) -> StateTransitionConditionView {
        StateTransitionConditionView {
            all: conditions_view(self.all@),
            any: conditions_view(self.any@),
        }
    }
}

impl View for StateTransitionConfig {
    type V = StateTransitionView;

    open spec fn view(&self) -> StateTransitionView {
        StateTransitionView { when: self.when@, engine: self.engine }
    }
}

/// The views of a sequence of transitions.
pub open spec fn transitions_view(ts: Seq<StateTransitionConfig>) -> Seq<StateTransitionView> {
    ts.map_values(|t: StateTransitionConfig| t@)
}

impl Clone for SimulationStateCondition {
    fn clone(&self) -> (copy: Self)
        ensures
            copy@ == self@,
    {
        SimulationStateCondition { sim: self.sim.clone(), state: self.state }
    }
}

fn clone_conditions(items: &Vec<SimulationStateCondition>) -> (copy: Vec<SimulationStateCondition>)
    ensures
        conditions_view(copy@) == conditions_view(items@),
{
    let mut copy: Vec<SimulationStateCondition> = Vec::new();
    let mut i: usize = 0;
    while i < items.len()
        invariant
            i <= items@.len(),
            copy@.len() == i,
            forall|k: int| 0 <= k < i ==> #[trigger] copy@[k]@ == items@[k]@,
        decreases items@.len() - i,
    {
        copy.push(items[i].clone());
        i += 1;
    }
    assert(conditions_view(copy@) =~= conditions_view(items@));
    copy
}

impl Clone for StateTransitionCondition {
    fn clone(&self) -> (copy: Self)
        ensures
            copy@ == self@,
    {
        StateTransitionCondition { all: clone_conditions(&self.all), any: clone_conditions(&self.any) }
    }
}

impl Clone for StateTransitionConfig {
    fn clone(&self) -> (copy: Self)
        ensures
            copy@ == self@,
    {
        StateTransitionConfig { when: self.when.clone(), engine: self.engine }
    }
}

/// A simulation of this name is declared.
pub open spec fn simulation_declared(sims: Seq<SimulationConfig>, name: Seq<char>) -> bool {
    exists|j: int| 0 <= j < sims.len() && #[trigger] sims[j].name@ == name
}

/// The requirements of a transition, those of `all` first.
pub open spec fn transition_requirements(t: StateTransitionView) -> Seq<
    SimulationStateConditionView,
> {
    t.when.all + t.when.any
}

/// The requirement at index `k` names no declared simulation.
pub open spec fn names_unknown_simulation(
    t: StateTransitionView,
    sims: Seq<SimulationConfig>,
) -> spec_fn(int) -> bool {
    |k: int| !simulation_declared(sims, transition_requirements(t)[k].sim)
}

/// What is wrong with a transition, if anything: an empty condition, a
/// condition that uses both `all` and `any`, or the first requirement that
/// names an unknown simulation.
pub open spec fn transition_issue(
    t: StateTransitionView,
    sims: Seq<SimulationConfig>,
) -> Option<ValidationIssue> {
    if t.when.all.len() == 0 && t.when.any.len() == 0 {
        Some(ValidationIssue::EmptyStateTransitionCondition)
    } else if t.when.all.len() > 0 && t.when.any.len() > 0 {
        Some(ValidationIssue::AmbiguousStateTransitionCondition)
    } else {
        match first_index(
            transition_requirements(t).len() as int,
            names_unknown_simulation(t, sims),
        ) {
            Some(k) => Some(
                ValidationIssue::UnknownTransitionSimulation(transition_requirements(t)[k].sim),
            ),
            None => None,
        }
    }
}

/// A transition is accepted exactly when its condition uses one of `all`
/// and `any` and every requirement, under `all` and under `any` and at every
/// index, names a declared simulation; a rejection for an unknown
/// simulation names a requirement's simulation that is not declared.
pub proof fn lemma_transition_accepted_exactly(t: StateTransitionView, sims: Seq<SimulationConfig>)
    ensures
        transition_issue(t, sims) is None <==> {
            &&& (t.when.all.len() > 0) != (t.when.any.len() > 0)
            &&& forall|i: int|
                0 <= i < t.when.all.len() ==> exists|j: int|
                    0 <= j < sims.len() && sims[j].name@ == #[trigger] t.when.all[i].sim
            &&& forall|i: int|
                0 <= i < t.when.any.len() ==> exists|j: int|
                    0 <= j < sims.len() && sims[j].name@ == #[trigger] t.when.any[i].sim
        },
        transition_issue(t, sims) matches Some(ValidationIssue::UnknownTransitionSimulation(n)) ==> {
            &&& (exists|i: int| 0 <= i < t.when.all.len() && #[trigger] t.when.all[i].sim == n)
                || (exists|i: int| 0 <= i < t.when.any.len() && #[trigger] t.when.any[i].sim == n)
            &&& forall|j: int| 0 <= j < sims.len() ==> #[trigger] sims[j].name@ != n
        },
{
    let all = t.when.all;
    let any = t.when.any;
    let reqs = transition_requirements(t);
    let p = names_unknown_simulation(t, sims);
    lemma_first_index_characterized(reqs.len() as int, p);
    assert forall|k: int| 0 <= k < reqs.len() implies #[trigger] reqs[k] == (if k < all.len() {
        all[k]
    } else {
        any[k - all.len()]
    }) by {}
    let every_declared = forall|k: int| 0 <= k < reqs.len() ==> !#[trigger] p(k);
    if every_declared {
        assert forall|i: int| 0 <= i < all.len() implies exists|j: int|
            0 <= j < sims.len() && sims[j].name@ == #[trigger] all[i].sim by {
            assert(!p(i));
            assert(reqs[i] == all[i]);
        }
        assert forall|i: int| 0 <= i < any.len() implies exists|j: int|
            0 <= j < sims.len() && sims[j].name@ == #[trigger] any[i].sim by {
            assert(!p(all.len() + i));
            assert(reqs[all.len() + i] == any[i]);
        }
    }
    if (forall|i: int|
        0 <= i < all.len() ==> exists|j: int|
            0 <= j < sims.len() && sims[j].name@ == #[trigger] all[i].sim) && (forall|i: int|
        0 <= i < any.len() ==> exists|j: int|
            0 <= j < sims.len() && sims[j].name@ == #[trigger] any[i].sim) {
        assert forall|k: int| 0 <= k < reqs.len() implies !#[trigger] p(k) by {
            if k < all.len() {
                assert(reqs[k] == all[k]);
                let j = choose|j: int| 0 <= j < sims.len() && sims[j].name@ == all[k].sim;
                assert(sims[j].name@ == reqs[k].sim);
            } else {
                assert(reqs[k] == any[k - all.len()]);
                let j = choose|j: int| 0 <= j < sims.len() && sims[j].name@ == any[k - all.len()].sim;
                assert(sims[j].name@ == reqs[k].sim);
            }
        }
    }
    if let Some(ValidationIssue::UnknownTransitionSimulation(n)) = transition_issue(t, sims) {
        let k = first_index(reqs.len() as int, p)->0;
        assert(p(k));
        assert(n == reqs[k].sim);
        if k < all.len() {
            assert(all[k].sim == n);
        } else {
            assert(any[k - all.len()].sim == n);
        }
        assert forall|j: int| 0 <= j < sims.len() implies #[trigger] sims[j].name@ != n by {
            assert(!simulation_declared(sims, reqs[k].sim));
        }
    }
}

/// The transition at index `i` has an issue.
pub open spec fn transition_rejected(
    ts: Seq<StateTransitionView>,
    sims: Seq<SimulationConfig>,
) -> spec_fn(int) -> bool {
    |i: int| transition_issue(ts[i], sims) is Some
}

/// The issue of the first transition that has one, if any.
pub open spec fn transitions_issue(
    ts: Seq<StateTransitionView>,
    sims: Seq<SimulationConfig>,
) -> Option<ValidationIssue> {
    match first_index(ts.len() as int, transition_rejected(ts, sims)) {
        Some(i) => transition_issue(ts[i], sims),
        None => None,
    }
}

/// A validation result reports exactly `issue`: `Ok` where there is none,
/// else an error that carries it.
pub open spec fn reports(r: Result<(), CoreError>, issue: Option<ValidationIssue>) -> bool {
    match issue {
        None => r is Ok,
        Some(i) => r matches Err(e) && e.issue() == Some(i),
    }
}

fn simulation_named(sims: &[SimulationConfig], name: &String) -> (found: bool)
    ensures
        found == simulation_declared(sims@, name@),
{
    let mut j: usize = 0;
    while j < sims.len()
        invariant
            j <= sims@.len(),
            forall|k: int| 0 <= k < j ==> sims@[k].name@ != name@,
        decreases sims@.len() - j,
    {
        if sims[j].name == *name {
            return true;
        }
        j += 1;
    }
    false
}

/// Checks every transition in order and reports the first issue found.
pub fn validate_state_transitions(
    transitions: &[StateTransitionConfig],
    simulations: &[SimulationConfig],
) -> (r: Result<(), CoreError>)
    ensures
        reports(r, transitions_issue(transitions_view(transitions@), simulations@)),
{
    let ghost ts = transitions_view(transitions@);
    let ghost p = transition_rejected(ts, simulations@);
    let mut i: usize = 0;
    while i < transitions.len()
        invariant
            i <= transitions@.len(),
            ts == transitions_view(transitions@),
            p == transition_rejected(ts, simulations@),
            forall|k: int| 0 <= k < i ==> !#[trigger] p(k),
        decreases transitions@.len() - i,
    {
        let r = validate_state_transition(&transitions[i], simulations);
        if r.is_err() {
            proof {
                lemma_first_index_found(ts.len() as int, p, i as int);
            }
            return r;
        }
        i += 1;
    }
    proof {
        lemma_first_index_none(ts.len() as int, p);
    }
    Ok(())
}

fn validate_state_transition(
    transition: &StateTransitionConfig,
    simulations: &[SimulationConfig],
) -> (r: Result<(), CoreError>)
    ensures
        reports(r, transition_issue(transition@, simulations@)),
{
    let has_all = transition.when.all.len() > 0;
    let has_any = transition.when.any.len() > 0;
    if !has_all && !has_any {
        return Err(CoreError::EmptyStateTransitionCondition);
    }
    if has_all && has_any {
        return Err(CoreError::AmbiguousStateTransitionCondition);
    }
    let ghost t = transition@;
    let ghost reqs = transition_requirements(t);
    let ghost p = names_unknown_simulation(t, simulations@);
    let conditions = if has_all {
        &transition.when.all
    } else {
        &transition.when.any
    };
    assert(conditions_view(conditions@) =~= reqs);
    let mut k: usize = 0;
    while k < conditions.len()
        invariant
            k <= conditions@.len(),
            conditions_view(conditions@) == reqs,
            t == transition@,
            t.when.all.len() > 0 || t.when.any.len() > 0,
            !(t.when.all.len() > 0 && t.when.any.len() > 0),
            reqs == transition_requirements(t),
            p == names_unknown_simulation(t, simulations@),
            forall|j: int| 0 <= j < k ==> !#[trigger] p(j),
        decreases conditions@.len() - k,
    {
        let condition = &conditions[k];
        assert(reqs[k as int] == condition@);
        if !simulation_named(simulations, &condition.sim) {
            proof {
                lemma_first_index_found(reqs.len() as int, p, k as int);
            }
            return Err(CoreError::UnknownTransitionSimulation { simulation: condition.sim.clone() });
        }
        k += 1;
    }
    proof {
        lemma_first_index_none(reqs.len() as int, p);
    }
    Ok(())
}

} // verus!
