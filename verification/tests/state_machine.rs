use simengine::manifest::{
    EngineState, FrameworkConfig, Manifest, SimulationConfig, SimulationState,
    SimulationStateCondition, StateTransitionCondition, StateTransitionConfig,
};
use simengine::runtime::{
    current_engine_state, state_machine_is_terminal, state_machine_should_step, StateMachine,
};

fn simulation(name: &str, endpoint: &str) -> SimulationConfig {
    SimulationConfig {
        name: name.to_string(),
        endpoint: endpoint.to_string(),
        plugin: "sim.dll".to_string(),
        params: "null".to_string(),
    }
}

fn requirement(sim: &str, state: SimulationState) -> SimulationStateCondition {
    SimulationStateCondition {
        sim: sim.to_string(),
        state,
    }
}

fn rule(
    all: Vec<SimulationStateCondition>,
    any: Vec<SimulationStateCondition>,
    engine: EngineState,
) -> StateTransitionConfig {
    StateTransitionConfig {
        when: StateTransitionCondition { all, any },
        engine,
    }
}

fn readme_manifest() -> Manifest {
    Manifest {
        framework: FrameworkConfig {
            fps: 60,
            log_level: "info".to_string(),
            max_frames: None,
        },
        simulations: vec![
            simulation("producer", "127.0.0.1:7001"),
            simulation("consumer", "127.0.0.1:7002"),
        ],
        state_transitions: vec![
            rule(
                vec![
                    requirement("producer", SimulationState::_READY),
                    requirement("consumer", SimulationState::_READY),
                ],
                Vec::new(),
                EngineState::RUNNING,
            ),
            rule(
                Vec::new(),
                vec![
                    requirement("producer", SimulationState::_ERROR),
                    requirement("consumer", SimulationState::_ERROR),
                ],
                EngineState::ERROR,
            ),
        ],
    }
}

#[test]
fn starts_in_start_with_simulations_in_start() {
    let sm = StateMachine::new(&readme_manifest());
    assert_eq!(sm.engine_state(), EngineState::START);
    assert_eq!(sm.simulation_state("producer"), SimulationState::_START);
    assert_eq!(sm.simulation_state("nobody"), SimulationState::_START);
    assert!(!sm.should_step());
    assert!(!sm.is_terminal());
}

#[test]
fn all_condition_needs_every_simulation() {
    let mut sm = StateMachine::new(&readme_manifest());
    sm.set_simulation_state("producer".to_string(), SimulationState::_READY);
    let changes = sm.apply_transitions();
    assert!(changes.is_empty());
    assert_eq!(sm.engine_state(), EngineState::START);

    sm.set_simulation_state("consumer".to_string(), SimulationState::_READY);
    let changes = sm.apply_transitions();
    assert_eq!(changes, vec![(EngineState::START, EngineState::RUNNING)]);
    assert_eq!(sm.engine_state(), EngineState::RUNNING);
    assert!(sm.should_step());
}

#[test]
fn any_condition_needs_one_simulation() {
    let mut sm = StateMachine::new(&readme_manifest());
    sm.set_simulation_state("consumer".to_string(), SimulationState::_ERROR);
    let changes = sm.apply_transitions();
    assert_eq!(changes, vec![(EngineState::START, EngineState::ERROR)]);
    assert!(sm.is_terminal());
    assert!(!sm.should_step());
}

fn single_sim_manifest(rules: Vec<StateTransitionConfig>) -> Manifest {
    Manifest {
        framework: FrameworkConfig {
            fps: 1,
            log_level: "info".to_string(),
            max_frames: None,
        },
        simulations: vec![simulation("s", "127.0.0.1:1")],
        state_transitions: rules,
    }
}

#[test]
fn terminal_state_is_kept_once_reached() {
    let manifest = single_sim_manifest(vec![
        rule(
            vec![requirement("s", SimulationState::_READY)],
            Vec::new(),
            EngineState::RUNNING,
        ),
        rule(
            Vec::new(),
            vec![requirement("s", SimulationState::_READY)],
            EngineState::FINISHED,
        ),
        rule(
            vec![requirement("s", SimulationState::_READY)],
            Vec::new(),
            EngineState::RUNNING,
        ),
    ]);
    let mut sm = StateMachine::new(&manifest);
    sm.set_simulation_state("s".to_string(), SimulationState::_READY);
    let changes = sm.apply_transitions();
    assert_eq!(
        changes,
        vec![
            (EngineState::START, EngineState::RUNNING),
            (EngineState::RUNNING, EngineState::FINISHED)
        ]
    );
    assert_eq!(sm.engine_state(), EngineState::FINISHED);
    // Applying the rules again leaves the terminal state alone.
    let again = sm.apply_transitions();
    assert!(again.is_empty());
    assert_eq!(sm.engine_state(), EngineState::FINISHED);
    assert!(sm.is_terminal());
}

#[test]
fn error_rule_before_running_rule_ends_in_error() {
    let manifest = single_sim_manifest(vec![
        rule(
            vec![requirement("s", SimulationState::_READY)],
            Vec::new(),
            EngineState::ERROR,
        ),
        rule(
            vec![requirement("s", SimulationState::_READY)],
            Vec::new(),
            EngineState::RUNNING,
        ),
    ]);
    let mut sm = StateMachine::new(&manifest);
    sm.set_simulation_state("s".to_string(), SimulationState::_READY);
    let changes = sm.apply_transitions();
    assert_eq!(changes, vec![(EngineState::START, EngineState::ERROR)]);
    assert_eq!(sm.engine_state(), EngineState::ERROR);
}

#[test]
fn last_firing_live_rule_wins() {
    let manifest = single_sim_manifest(vec![
        rule(
            vec![requirement("s", SimulationState::_READY)],
            Vec::new(),
            EngineState::RUNNING,
        ),
        rule(
            vec![requirement("s", SimulationState::_READY)],
            Vec::new(),
            EngineState::READY,
        ),
    ]);
    let mut sm = StateMachine::new(&manifest);
    sm.set_simulation_state("s".to_string(), SimulationState::_READY);
    let changes = sm.apply_transitions();
    assert_eq!(
        changes,
        vec![
            (EngineState::START, EngineState::RUNNING),
            (EngineState::RUNNING, EngineState::READY)
        ]
    );
    assert_eq!(sm.engine_state(), EngineState::READY);
}

#[test]
fn recorded_state_is_read_back() {
    let mut sm = StateMachine::new(&readme_manifest());
    sm.set_simulation_state("producer".to_string(), SimulationState::_RUNNING);
    assert_eq!(sm.simulation_state("producer"), SimulationState::_RUNNING);
    assert_eq!(sm.simulation_state("consumer"), SimulationState::_START);
    sm.set_simulation_state("late".to_string(), SimulationState::_FINISHED);
    assert_eq!(sm.simulation_state("late"), SimulationState::_FINISHED);
    assert_eq!(sm.engine_state(), EngineState::START);
}

#[test]
fn empty_condition_never_fires() {
    let manifest = Manifest {
        framework: FrameworkConfig {
            fps: 1,
            log_level: "info".to_string(),
            max_frames: None,
        },
        simulations: Vec::new(),
        state_transitions: vec![rule(Vec::new(), Vec::new(), EngineState::RUNNING)],
    };
    let mut sm = StateMachine::new(&manifest);
    assert!(sm.apply_transitions().is_empty());
    assert_eq!(sm.engine_state(), EngineState::START);
}

#[test]
fn lock_fallbacks() {
    let sm = StateMachine::new(&readme_manifest());
    assert_eq!(current_engine_state(Some(&sm)), EngineState::START);
    assert_eq!(current_engine_state(None), EngineState::ERROR);
    assert!(!state_machine_should_step(None));
    assert!(!state_machine_should_step(Some(&sm)));
    assert!(state_machine_is_terminal(None));
    assert!(!state_machine_is_terminal(Some(&sm)));
}

#[test]
fn simulation_state_names() {
    assert_eq!(
        SimulationState::from_name("_READY"),
        Some(SimulationState::_READY)
    );
    assert_eq!(
        SimulationState::from_name("_ERROR"),
        Some(SimulationState::_ERROR)
    );
    assert_eq!(
        SimulationState::from_name("_START"),
        Some(SimulationState::_START)
    );
    assert_eq!(
        SimulationState::from_name("_RUNNING"),
        Some(SimulationState::_RUNNING)
    );
    assert_eq!(
        SimulationState::from_name("_FINISHED"),
        Some(SimulationState::_FINISHED)
    );
    assert_eq!(SimulationState::from_name("READY"), None);
    assert_eq!(SimulationState::from_name(""), None);
}
