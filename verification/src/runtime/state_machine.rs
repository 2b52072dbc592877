use crate::manifest::{
    transitions_view, EngineState, Manifest, SimulationState, SimulationStateConditionView,
    StateTransitionCondition, StateTransitionConditionView, StateTransitionConfig,
    StateTransitionView,
};
use crate::search::{first_index, lemma_first_index_characterized};
use crate::store::StringMap;
use vstd::prelude::*;

verus! {

/// The state of the simulation `name`; a simulation that has reported
/// nothing is in `_START`.
pub open spec fn state_in(states: Map<Seq<char>, SimulationState>, name: Seq<char>) -> SimulationState {
    if states.dom().contains(name) {
        states[name]
    } else {
        SimulationState::_START
    }
}

/// The requirement holds in these simulation states.
pub open spec fn requirement_met(
    states: Map<Seq<char>, SimulationState>,
    c: SimulationStateConditionView,
) -> bool {
    state_in(states, c.sim) == c.state
}

/// A condition with requirements under `all` holds when all of them do;
/// one with requirements under `any` only, when one of them does; an empty
/// condition never holds.
pub open spec fn condition_holds(
    states: Map<Seq<char>, SimulationState>,
    c: StateTransitionConditionView,
) -> bool {
    if c.all.len() > 0 {
        forall|i: int| 0 <= i < c.all.len() ==> #[trigger] requirement_met(states, c.all[i])
    } else if c.any.len() > 0 {
        exists|i: int| 0 <= i < c.any.len() && #[trigger] requirement_met(states, c.any[i])
    } else {
        false
    }
}

/// `ERROR` and `FINISHED` end a run: once the engine is in one of them, no
/// rule moves it out.
pub open spec fn terminal(engine: EngineState) -> bool {
    engine == EngineState::ERROR || engine == EngineState::FINISHED
}

/// The engine state after the rules are applied in order from `engine`:
/// while the engine is not in a terminal state, each rule whose condition
/// holds moves it to the rule's target; a terminal state is kept.
pub open spec fn engine_after(
    engine: EngineState,
    states: Map<Seq<char>, SimulationState>,
    rules: Seq<StateTransitionView>,
) -> EngineState
    decreases rules.len(),
{
    if rules.len() == 0 {
        engine
    } else {
        let before = engine_after(engine, states, rules.drop_last());
        if !terminal(before) && condition_holds(states, rules.last().when) {
            rules.last().engine
        } else {
            before
        }
    }
}

/// The changes of engine state, as (from, to) pairs, that applying the rules
/// in order from `engine` makes.
pub open spec fn transition_log(
    engine: EngineState,
    states: Map<Seq<char>, SimulationState>,
    rules: Seq<StateTransitionView>,
) -> Seq<(EngineState, EngineState)>
    decreases rules.len(),
{
    if rules.len() == 0 {
        Seq::empty()
    } else {
        let log = transition_log(engine, states, rules.drop_last());
        let before = engine_after(engine, states, rules.drop_last());
        if !terminal(before) && condition_holds(states, rules.last().when) && before
            != rules.last().engine {
            log.push((before, rules.last().engine))
        } else {
            log
        }
    }
}

/// A condition whose requirements are all under `any` holds exactly when
/// some requirement, at any index, is met: the named simulation is in the
/// named state, a simulation that reported nothing being in `_START`.
pub proof fn lemma_any_condition_holds_exactly(
    states: Map<Seq<char>, SimulationState>,
    c: StateTransitionConditionView,
)
    requires
        c.all.len() == 0,
    ensures
        condition_holds(states, c) <==> exists|i: int|
            0 <= i < c.any.len() && (if states.dom().contains(#[trigger] c.any[i].sim) {
                states[c.any[i].sim]
            } else {
                SimulationState::_START
            }) == c.any[i].state,
{
    if condition_holds(states, c) {
        let i = choose|i: int| 0 <= i < c.any.len() && #[trigger] requirement_met(states, c.any[i]);
        assert(0 <= i < c.any.len() && (if states.dom().contains(c.any[i].sim) {
            states[c.any[i].sim]
        } else {
            SimulationState::_START
        }) == c.any[i].state);
    }
    if exists|i: int|
        0 <= i < c.any.len() && (if states.dom().contains(#[trigger] c.any[i].sim) {
            states[c.any[i].sim]
        } else {
            SimulationState::_START
        }) == c.any[i].state {
        let i = choose|i: int|
            0 <= i < c.any.len() && (if states.dom().contains(#[trigger] c.any[i].sim) {
                states[c.any[i].sim]
            } else {
                SimulationState::_START
            }) == c.any[i].state;
        assert(requirement_met(states, c.any[i]));
    }
}

/// A condition with requirements under `all` holds exactly when every
/// requirement, at every index, is met; requirements under `any` are then
/// not looked at.
pub proof fn lemma_all_condition_holds_exactly(
    states: Map<Seq<char>, SimulationState>,
    c: StateTransitionConditionView,
)
    requires
        c.all.len() > 0,
    ensures
        condition_holds(states, c) <==> forall|i: int|
            0 <= i < c.all.len() ==> (if states.dom().contains(#[trigger] c.all[i].sim) {
                states[c.all[i].sim]
            } else {
                SimulationState::_START
            }) == c.all[i].state,
{
    if condition_holds(states, c) {
        assert forall|i: int| 0 <= i < c.all.len() implies (if states.dom().contains(
            #[trigger] c.all[i].sim,
        ) {
            states[c.all[i].sim]
        } else {
            SimulationState::_START
        }) == c.all[i].state by {
            assert(requirement_met(states, c.all[i]));
        }
    }
    if forall|i: int|
        0 <= i < c.all.len() ==> (if states.dom().contains(#[trigger] c.all[i].sim) {
            states[c.all[i].sim]
        } else {
            SimulationState::_START
        }) == c.all[i].state {
        assert forall|i: int| 0 <= i < c.all.len() implies #[trigger] requirement_met(states, c.all[i]) by {
            assert(c.all[i].sim == c.all[i].sim);
        }
    }
}

/// A condition with no requirements never holds, whatever the states.
pub proof fn lemma_condition_without_requirements(
    states: Map<Seq<char>, SimulationState>,
    c: StateTransitionConditionView,
)
    requires
        c.all.len() == 0 && c.any.len() == 0,
    ensures
        !condition_holds(states, c),
{
}

/// Exactly `ERROR` and `FINISHED` are terminal; `START`, `READY` and
/// `RUNNING` are not.
pub proof fn lemma_terminal_states_exactly(engine: EngineState)
    ensures
        terminal(engine) <==> (engine == EngineState::ERROR || engine == EngineState::FINISHED),
        engine == EngineState::START || engine == EngineState::READY || engine
            == EngineState::RUNNING ==> !terminal(engine),
{
}

/// From `START`, `READY` or `RUNNING`, a single rule moves the engine to its
/// target exactly when its condition holds, and logs that change when the
/// target differs.
pub proof fn lemma_single_rule_moves_live_engine(
    engine: EngineState,
    states: Map<Seq<char>, SimulationState>,
    rule: StateTransitionView,
)
    requires
        engine == EngineState::START || engine == EngineState::READY || engine
            == EngineState::RUNNING,
    ensures
        engine_after(engine, states, seq![rule]) == (if condition_holds(states, rule.when) {
            rule.engine
        } else {
            engine
        }),
        transition_log(engine, states, seq![rule]) == (if condition_holds(states, rule.when)
            && rule.engine != engine {
            seq![(engine, rule.engine)]
        } else {
            Seq::<(EngineState, EngineState)>::empty()
        }),
{
    let none = Seq::<StateTransitionView>::empty();
    assert(seq![rule].drop_last() =~= none);
    assert(seq![rule].last() == rule);
    assert(engine_after(engine, states, none) == engine);
    assert(transition_log(engine, states, none) == Seq::<(EngineState, EngineState)>::empty());
    assert(seq![rule].len() == 1);
    assert(Seq::<(EngineState, EngineState)>::empty().push((engine, rule.engine)) =~= seq![
        (engine, rule.engine),
    ]);
}

/// The logged changes chain up: the first leaves the engine state applying
/// started from, each one starts where the previous one ended, none stays
/// in place, and the last ends in the resulting engine state; with nothing
/// logged the engine state is unchanged.
pub proof fn lemma_transition_log_chains(
    engine: EngineState,
    states: Map<Seq<char>, SimulationState>,
    rules: Seq<StateTransitionView>,
)
    ensures
        ({
            let log = transition_log(engine, states, rules);
            let after = engine_after(engine, states, rules);
            &&& log.len() == 0 ==> after == engine
            &&& log.len() > 0 ==> log[0].0 == engine && log.last().1 == after
            &&& forall|i: int| 0 <= i < log.len() ==> (#[trigger] log[i]).0 != log[i].1
            &&& forall|i: int| 0 < i < log.len() ==> (#[trigger] log[i]).0 == log[i - 1].1
        }),
    decreases rules.len(),
{
    if rules.len() > 0 {
        let init = rules.drop_last();
        lemma_transition_log_chains(engine, states, init);
        let prev = transition_log(engine, states, init);
        let log = transition_log(engine, states, rules);
        if log.len() > prev.len() {
            assert forall|i: int| 0 <= i < prev.len() implies log[i] == prev[i] by {}
        }
    }
}

/// The rule at index `j` fires and targets a terminal state.
pub open spec fn fires_into_terminal(
    states: Map<Seq<char>, SimulationState>,
    rules: Seq<StateTransitionView>,
) -> spec_fn(int) -> bool {
    |j: int| condition_holds(states, rules[j].when) && terminal(rules[j].engine)
}

/// When no rule's condition holds, applying the rules leaves the engine
/// state as it was.
pub proof fn lemma_no_rule_fires(
    engine: EngineState,
    states: Map<Seq<char>, SimulationState>,
    rules: Seq<StateTransitionView>,
)
    requires
        forall|i: int| 0 <= i < rules.len() ==> !#[trigger] condition_holds(states, rules[i].when),
    ensures
        engine_after(engine, states, rules) == engine,
        transition_log(engine, states, rules) == Seq::<(EngineState, EngineState)>::empty(),
    decreases rules.len(),
{
    if rules.len() > 0 {
        let init = rules.drop_last();
        assert forall|i: int| 0 <= i < init.len() implies !#[trigger] condition_holds(states, init[i].when) by {
            assert(init[i] == rules[i]);
        }
        lemma_no_rule_fires(engine, states, init);
        assert(!condition_holds(states, rules[rules.len() - 1].when));
    }
}

/// A terminal engine state is never left: applying the rules keeps it and
/// logs no change.
pub proof fn lemma_terminal_state_kept(
    engine: EngineState,
    states: Map<Seq<char>, SimulationState>,
    rules: Seq<StateTransitionView>,
)
    requires
        terminal(engine),
    ensures
        engine_after(engine, states, rules) == engine,
        transition_log(engine, states, rules) == Seq::<(EngineState, EngineState)>::empty(),
    decreases rules.len(),
{
    if rules.len() > 0 {
        lemma_terminal_state_kept(engine, states, rules.drop_last());
    }
}

/// From a live engine state, rules that fire only into live states keep the
/// engine live.
proof fn lemma_stays_live(
    engine: EngineState,
    states: Map<Seq<char>, SimulationState>,
    rules: Seq<StateTransitionView>,
)
    requires
        !terminal(engine),
        forall|j: int| 0 <= j < rules.len() ==> !#[trigger] fires_into_terminal(states, rules)(j),
    ensures
        !terminal(engine_after(engine, states, rules)),
    decreases rules.len(),
{
    if rules.len() > 0 {
        let init = rules.drop_last();
        assert forall|j: int| 0 <= j < init.len() implies !#[trigger] fires_into_terminal(states, init)(j) by {
            assert(init[j] == rules[j]);
            assert(!fires_into_terminal(states, rules)(j));
        }
        lemma_stays_live(engine, states, init);
        assert(!fires_into_terminal(states, rules)(rules.len() - 1));
    }
}

/// From a live engine state, the first firing rule that targets a terminal
/// state fixes the result: the engine ends in its target.
pub proof fn lemma_first_terminal_rule_decides(
    engine: EngineState,
    states: Map<Seq<char>, SimulationState>,
    rules: Seq<StateTransitionView>,
    i: int,
)
    requires
        !terminal(engine),
        0 <= i < rules.len(),
        fires_into_terminal(states, rules)(i),
        forall|j: int| 0 <= j < i ==> !#[trigger] fires_into_terminal(states, rules)(j),
    ensures
        engine_after(engine, states, rules) == rules[i].engine,
    decreases rules.len(),
{
    let init = rules.drop_last();
    if i < rules.len() - 1 {
        assert forall|j: int| 0 <= j < i implies !#[trigger] fires_into_terminal(states, init)(j) by {
            assert(init[j] == rules[j]);
            assert(!fires_into_terminal(states, rules)(j));
        }
        assert(fires_into_terminal(states, init)(i)) by {
            assert(init[i] == rules[i]);
        }
        lemma_first_terminal_rule_decides(engine, states, init, i);
    } else {
        assert forall|j: int| 0 <= j < init.len() implies !#[trigger] fires_into_terminal(states, init)(j) by {
            assert(init[j] == rules[j]);
            assert(!fires_into_terminal(states, rules)(j));
        }
        lemma_stays_live(engine, states, init);
    }
}

/// From a live engine state, when no firing rule targets a terminal state,
/// the engine ends in the target of the last rule whose condition holds.
pub proof fn lemma_last_firing_rule_wins(
    engine: EngineState,
    states: Map<Seq<char>, SimulationState>,
    rules: Seq<StateTransitionView>,
    i: int,
)
    requires
        !terminal(engine),
        forall|j: int| 0 <= j < rules.len() ==> !#[trigger] fires_into_terminal(states, rules)(j),
        0 <= i < rules.len(),
        condition_holds(states, rules[i].when),
        forall|j: int| i < j < rules.len() ==> !#[trigger] condition_holds(states, rules[j].when),
    ensures
        engine_after(engine, states, rules) == rules[i].engine,
    decreases rules.len(),
{
    let init = rules.drop_last();
    assert forall|j: int| 0 <= j < init.len() implies !#[trigger] fires_into_terminal(states, init)(j) by {
        assert(init[j] == rules[j]);
        assert(!fires_into_terminal(states, rules)(j));
    }
    if i < rules.len() - 1 {
        assert forall|j: int| i < j < init.len() implies !#[trigger] condition_holds(states, init[j].when) by {
            assert(init[j] == rules[j]);
        }
        assert(!condition_holds(states, rules[rules.len() - 1].when));
        lemma_last_firing_rule_wins(engine, states, init, i);
    } else {
        lemma_stays_live(engine, states, init);
    }
}

/// Applying the rules a second time to the same simulation states leaves the
/// engine state where the first application put it.
pub proof fn lemma_apply_transitions_idempotent(
    engine: EngineState,
    states: Map<Seq<char>, SimulationState>,
    rules: Seq<StateTransitionView>,
)
    ensures
        engine_after(engine_after(engine, states, rules), states, rules) == engine_after(
            engine,
            states,
            rules,
        ),
{
    let once = engine_after(engine, states, rules);
    let p = fires_into_terminal(states, rules);
    lemma_first_index_characterized(rules.len() as int, p);
    if terminal(engine) {
        lemma_terminal_state_kept(engine, states, rules);
    } else if let Some(i) = first_index(rules.len() as int, p) {
        lemma_first_terminal_rule_decides(engine, states, rules, i);
        lemma_terminal_state_kept(once, states, rules);
    } else {
        let fires = |j: int| 0 <= j < rules.len() && condition_holds(states, rules[j].when);
        if exists|j: int| #[trigger] fires(j) {
            let k = choose|j: int| #[trigger] fires(j);
            let last = last_firing(states, rules, k, rules.len() - 1);
            lemma_last_firing_rule_wins(engine, states, rules, last);
            assert(!p(last));
            lemma_last_firing_rule_wins(once, states, rules, last);
        } else {
            assert forall|i: int| 0 <= i < rules.len() implies !#[trigger] condition_holds(states, rules[i].when) by {
                assert(!fires(i));
            }
            lemma_no_rule_fires(engine, states, rules);
        }
    }
}

/// The last firing rule at or below `hi`, given one at `k`.
proof fn last_firing(
    states: Map<Seq<char>, SimulationState>,
    rules: Seq<StateTransitionView>,
    k: int,
    hi: int,
) -> (last: int)
    requires
        0 <= k <= hi < rules.len(),
        condition_holds(states, rules[k].when),
        forall|j: int| hi < j < rules.len() ==> !#[trigger] condition_holds(states, rules[j].when),
    ensures
        k <= last <= hi,
        condition_holds(states, rules[last].when),
        forall|j: int| last < j < rules.len() ==> !#[trigger] condition_holds(states, rules[j].when),
    decreases hi - k,
{
    if condition_holds(states, rules[hi].when) {
        hi
    } else {
        last_firing(states, rules, k, hi - 1)
    }
}

/// A simulation state that was recorded is the one read back, and recording
/// it leaves the states of other simulations unchanged.
pub proof fn lemma_recorded_state_read_back(
    states: Map<Seq<char>, SimulationState>,
    name: Seq<char>,
    state: SimulationState,
    other: Seq<char>,
)
    ensures
        state_in(states.insert(name, state), name) == state,
        other != name ==> state_in(states.insert(name, state), other) == state_in(states, other),
{
}

/// A rule whose condition is empty never fires.
pub proof fn lemma_empty_condition_never_holds(
    states: Map<Seq<char>, SimulationState>,
    c: StateTransitionConditionView,
)
    requires
        c.all.len() == 0,
        c.any.len() == 0,
    ensures
        !condition_holds(states, c),
{
}

/// `after` is `before` with one more simulation state recorded; the
/// engine state and the rules are untouched.
pub open spec fn records_state(before: StateMachine, after: StateMachine) -> bool {
    &&& exists|name: Seq<char>, state: SimulationState|
        after.states() == before.states().insert(name, state)
    &&& after.engine() == before.engine()
    &&& after.rules() == before.rules()
}

/// Only applying the rules changes the engine state: along any sequence of
/// recorded simulation states, the engine state and the rules stay as they
/// were at the start.
pub proof fn lemma_reports_keep_engine_state(machines: Seq<StateMachine>)
    requires
        machines.len() > 0,
        forall|i: int| 0 < i < machines.len() ==> records_state(machines[i - 1], #[trigger] machines[i]),
    ensures
        forall|i: int|
            0 <= i < machines.len() ==> #[trigger] machines[i].engine() == machines[0].engine()
                && machines[i].rules() == machines[0].rules(),
    decreases machines.len(),
{
    if machines.len() > 1 {
        let init = machines.drop_last();
        assert forall|i: int| 0 < i < init.len() implies records_state(init[i - 1], #[trigger] init[i]) by {
            assert(init[i] == machines[i] && init[i - 1] == machines[i - 1]);
        }
        lemma_reports_keep_engine_state(init);
        let n = machines.len() - 1;
        assert(records_state(machines[n - 1], machines[n]));
        assert(init[n - 1] == machines[n - 1]);
        assert forall|i: int| 0 <= i < machines.len() implies #[trigger] machines[i].engine() == machines[0].engine()
            && machines[i].rules() == machines[0].rules() by {
            if i < n {
                assert(init[i] == machines[i]);
            }
        }
    }
}

/// The engine state and the simulation states of a run, with the rules that
/// move the engine state.
pub struct StateMachine {
    engine_state: EngineState,
    simulation_states: StringMap<SimulationState>,
    transitions: Vec<StateTransitionConfig>,
}

impl StateMachine {
    /// The current engine state.
    pub closed spec fn engine(&self) -> EngineState {
        self.engine_state
    }

    /// The states that simulations have reported, by simulation name.
    pub closed spec fn states(&self) -> Map<Seq<char>, SimulationState> {
        self.simulation_states@
    }

    /// The transition rules, in the order of the manifest.
    pub closed spec fn rules(&self) -> Seq<StateTransitionView> {
        transitions_view(self.transitions@)
    }

    /// A state machine in `START`, with every simulation of the manifest in
    /// `_START` and the manifest's transition rules.
    pub fn new(manifest: &Manifest) -> (sm: Self)
        ensures
            sm.engine() == EngineState::START,
            sm.states() == Map::new(
                |k: Seq<char>|
                    exists|i: int|
                        0 <= i < manifest.simulations@.len() && #[trigger] manifest.simulations@[i].name@
                            == k,
                |k: Seq<char>| SimulationState::_START,
            ),
            sm.rules() == transitions_view(manifest.state_transitions@),
    {
        let sims = &manifest.simulations;
        let mut states: StringMap<SimulationState> = StringMap::new();
        let mut i: usize = 0;
        while i < sims.len()
            invariant
                i <= sims@.len(),
                states@ == Map::new(
                    |k: Seq<char>| exists|j: int| 0 <= j < i && #[trigger] sims@[j].name@ == k,
                    |k: Seq<char>| SimulationState::_START,
                ),
            decreases sims@.len() - i,
        {
            let ghost before = states@;
            states.insert(sims[i].name.clone(), SimulationState::_START);
            proof {
                let target = Map::new(
                    |k: Seq<char>| exists|j: int| 0 <= j < i + 1 && #[trigger] sims@[j].name@ == k,
                    |k: Seq<char>| SimulationState::_START,
                );
                assert forall|k: Seq<char>| #[trigger] target.dom().contains(k) implies states@.dom().contains(k) by {
                    let j = choose|j: int| 0 <= j < i + 1 && #[trigger] sims@[j].name@ == k;
                    if j < i {
                        assert(before.dom().contains(k));
                    }
                }
                assert(states@ =~= target);
            }
            i += 1;
        }
        let transitions = manifest.state_transitions.clone();
        assert(transitions_view(transitions@) =~= transitions_view(manifest.state_transitions@));
        StateMachine { engine_state: EngineState::START, simulation_states: states, transitions }
    }

    /// The current engine state.
    pub fn engine_state(&self) -> (state: EngineState)
        ensures
            state == self.engine(),
    {
        self.engine_state
    }

    /// Lifecycle hooks run only while the engine is `RUNNING`.
    pub fn should_step(&self) -> (step: bool)
        ensures
            step == (self.engine() == EngineState::RUNNING),
    {
        self.engine_state == EngineState::RUNNING
    }

    /// The engine is in `ERROR` or `FINISHED`.
    pub fn is_terminal(&self) -> (done: bool)
        ensures
            done == terminal(self.engine()),
    {
        match self.engine_state {
            EngineState::ERROR | EngineState::FINISHED => true,
            _ => false,
        }
    }

    /// Records the state that a simulation reports.
    pub fn set_simulation_state(&mut self, sim_name: String, state: SimulationState)
        ensures
            final(self).states() == old(self).states().insert(sim_name@, state),
            final(self).engine() == old(self).engine(),
            final(self).rules() == old(self).rules(),
            records_state(*old(self), *final(self)),
    {
        let ghost name = sim_name@;
        self.simulation_states.insert(sim_name, state);
        assert(self.states() == old(self).states().insert(name, state));
    }

    /// The state of a simulation; `_START` for one that reported nothing.
    pub fn simulation_state(&self, sim_name: &str) -> (state: SimulationState)
        ensures
            state == state_in(self.states(), sim_name@),
    {
        let name = sim_name.to_owned();
        match self.simulation_states.get(&name) {
            Some(state) => *state,
            None => SimulationState::_START,
        }
    }

    fn requirements_all_met(&self, items: &Vec<crate::manifest::SimulationStateCondition>) -> (met: bool)
        ensures
            met == forall|i: int|
                0 <= i < items@.len() ==> #[trigger] requirement_met(self.states(), items@[i]@),
    {
        let mut i: usize = 0;
        while i < items.len()
            invariant
                i <= items@.len(),
                forall|k: int| 0 <= k < i ==> #[trigger] requirement_met(self.states(), items@[k]@),
            decreases items@.len() - i,
        {
            let item = &items[i];
            if self.simulation_state(item.sim.as_str()) != item.state {
                assert(!requirement_met(self.states(), items@[i as int]@));
                return false;
            }
            i += 1;
        }
        true
    }

    fn requirements_any_met(&self, items: &Vec<crate::manifest::SimulationStateCondition>) -> (met: bool)
        ensures
            met == exists|i: int|
                0 <= i < items@.len() && #[trigger] requirement_met(self.states(), items@[i]@),
    {
        let mut i: usize = 0;
        while i < items.len()
            invariant
                i <= items@.len(),
                forall|k: int| 0 <= k < i ==> !#[trigger] requirement_met(self.states(), items@[k]@),
            decreases items@.len() - i,
        {
            let item = &items[i];
            if self.simulation_state(item.sim.as_str()) == item.state {
                assert(requirement_met(self.states(), items@[i as int]@));
                return true;
            }
            i += 1;
        }
        false
    }

    fn condition_matches(&self, condition: &StateTransitionCondition) -> (holds: bool)
        ensures
            holds == condition_holds(self.states(), condition@),
    {
        let ghost c = condition@;
        if condition.all.len() > 0 {
            let met = self.requirements_all_met(&condition.all);
            assert(forall|i: int| 0 <= i < c.all.len() ==> c.all[i] == #[trigger] condition.all@[i]@);
            assert(met == forall|i: int| 0 <= i < c.all.len() ==> #[trigger] requirement_met(self.states(), c.all[i]));
            met
        } else if condition.any.len() > 0 {
            let met = self.requirements_any_met(&condition.any);
            assert(forall|i: int| 0 <= i < c.any.len() ==> c.any[i] == #[trigger] condition.any@[i]@);
            assert(met == exists|i: int| 0 <= i < c.any.len() && #[trigger] requirement_met(self.states(), c.any[i]));
            met
        } else {
            false
        }
    }

    fn transition_matches(&self, transition: &StateTransitionConfig) -> (holds: bool)
        ensures
            holds == condition_holds(self.states(), transition@.when),
    {
        self.condition_matches(&transition.when)
    }

    /// Applies the transition rules in order, once each, to the current
    /// simulation states; once the engine is in a terminal state, no later
    /// rule moves it. Returns the changes of engine state it made, as
    /// (from, to) pairs.
    pub fn apply_transitions(&mut self) -> (changes: Vec<(EngineState, EngineState)>)
        ensures
            final(self).engine() == engine_after(old(self).engine(), old(self).states(), old(self).rules()),
            terminal(old(self).engine()) ==> final(self).engine() == old(self).engine()
                && changes@.len() == 0,
            changes@ == transition_log(old(self).engine(), old(self).states(), old(self).rules()),
            final(self).states() == old(self).states(),
            final(self).rules() == old(self).rules(),
    {
        let ghost e0 = self.engine();
        let ghost rules = self.rules();
        let mut changes: Vec<(EngineState, EngineState)> = Vec::new();
        let mut i: usize = 0;
        while i < self.transitions.len()
            invariant
                i <= self.transitions@.len(),
                rules == self.rules(),
                self.rules() == old(self).rules(),
                self.states() == old(self).states(),
                e0 == old(self).engine(),
                self.engine() == engine_after(e0, self.states(), rules.take(i as int)),
                changes@ == transition_log(e0, self.states(), rules.take(i as int)),
            decreases self.transitions@.len() - i,
        {
            assert(rules.take(i + 1).drop_last() =~= rules.take(i as int));
            assert(rules.take(i + 1).last() == self.transitions@[i as int]@);
            if !self.is_terminal() && self.transition_matches(&self.transitions[i])
                && self.engine_state != self.transitions[i].engine {
                changes.push((self.engine_state, self.transitions[i].engine));
                self.engine_state = self.transitions[i].engine;
            }
            i += 1;
        }
        assert(rules.take(i as int) =~= rules);
        proof {
            if terminal(e0) {
                lemma_terminal_state_kept(e0, self.states(), rules);
            }
        }
        changes
    }
}

} // verus!
