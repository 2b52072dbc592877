use simengine::manifest::{
    default_log_level, validate_manifest, validate_state_transitions, CoreError, EngineState,
    FrameworkConfig, InstrumentConfig, InstrumentFlow, Manifest, PrimitiveType, SimulationConfig,
    SimulationState, SimulationStateCondition, StateTransitionCondition, StateTransitionConfig,
};

fn manifest_with_sims(simulations: Vec<SimulationConfig>) -> Manifest {
    Manifest {
        framework: FrameworkConfig {
            fps: 1,
            log_level: "info".to_string(),
            max_frames: Some(1),
        },
        simulations,
        state_transitions: Vec::new(),
    }
}

fn simulation(name: &str, endpoint: &str) -> SimulationConfig {
    SimulationConfig {
        name: name.to_string(),
        endpoint: endpoint.to_string(),
        plugin: "sim.dll".to_string(),
        params: "null".to_string(),
    }
}

fn instrument(value: &str, ty: PrimitiveType) -> InstrumentConfig {
    InstrumentConfig {
        value: value.to_string(),
        ty,
    }
}

fn flow(instrument: &str, from: &str, to: &str) -> InstrumentFlow {
    InstrumentFlow {
        instrument: instrument.to_string(),
        from: from.to_string(),
        to: to.to_string(),
    }
}

fn requirement(sim: &str, state: SimulationState) -> SimulationStateCondition {
    SimulationStateCondition {
        sim: sim.to_string(),
        state,
    }
}

fn transition(
    all: Vec<SimulationStateCondition>,
    any: Vec<SimulationStateCondition>,
    engine: EngineState,
) -> StateTransitionConfig {
    StateTransitionConfig {
        when: StateTransitionCondition { all, any },
        engine,
    }
}

#[test]
fn rejects_duplicate_instruments() {
    let manifest = manifest_with_sims(vec![simulation("sensor", "127.0.0.1:7001")]);
    let instruments = vec![
        instrument("temperature", PrimitiveType::Float32),
        instrument("temperature", PrimitiveType::Float32),
    ];
    let flows = Vec::new();

    let err =
        validate_manifest(&manifest, &instruments, &flows).expect_err("duplicate should fail");

    assert!(matches!(
        err,
        CoreError::DuplicateInstrument { instrument } if instrument == "temperature"
    ));
}

#[test]
fn accepts_flow_when_source_and_instrument_exist() {
    let manifest = manifest_with_sims(vec![
        simulation("sensor", "127.0.0.1:7001"),
        simulation("controller", "127.0.0.1:7002"),
    ]);
    let instruments = vec![instrument("temperature", PrimitiveType::Float32)];
    let flows = vec![InstrumentFlow {
        instrument: "temperature".to_string(),
        from: "127.0.0.1:7001".to_string(),
        to: "127.0.0.1:7002".to_string(),
    }];

    validate_manifest(&manifest, &instruments, &flows).expect("flow should be valid");
}

#[test]
fn rejects_flow_with_unknown_instrument() {
    let manifest = manifest_with_sims(vec![simulation("sensor", "127.0.0.1:7001")]);
    let instruments = Vec::new();
    let flows = vec![InstrumentFlow {
        instrument: "temperature".to_string(),
        from: "127.0.0.1:7001".to_string(),
        to: "127.0.0.1:7002".to_string(),
    }];

    let err =
        validate_manifest(&manifest, &instruments, &flows).expect_err("unknown instrument");

    assert!(matches!(
        err,
        CoreError::UnknownFlowInstrument { instrument } if instrument == "temperature"
    ));
}

#[test]
fn rejects_flows_from_remote_sources() {
    let manifest = manifest_with_sims(vec![simulation("sensor", "127.0.0.1:7001")]);
    let instruments = vec![instrument("value", PrimitiveType::Float32)];
    let flows = vec![InstrumentFlow {
        instrument: "value".to_string(),
        from: "127.0.0.2:7001".to_string(),
        to: "127.0.0.1:7001".to_string(),
    }];

    let err = validate_manifest(&manifest, &instruments, &flows)
        .expect_err("remote source should fail");

    assert!(matches!(
        err,
        CoreError::FlowSourceNotLocal { endpoint }
            if endpoint == "127.0.0.2:7001"
    ));
}

#[test]
fn rejects_state_transition_for_unknown_simulation() {
    let mut manifest = manifest_with_sims(vec![simulation("sim", "127.0.0.1:7001")]);
    manifest.state_transitions.push(StateTransitionConfig {
        when: StateTransitionCondition {
            all: vec![SimulationStateCondition {
                sim: "missing".to_string(),
                state: SimulationState::_READY,
            }],
            any: Vec::new(),
        },
        engine: EngineState::RUNNING,
    });
    let instruments = Vec::new();
    let flows = Vec::new();

    let err = validate_manifest(&manifest, &instruments, &flows)
        .expect_err("unknown simulation should fail");

    assert!(matches!(
        err,
        CoreError::UnknownTransitionSimulation { simulation }
            if simulation == "missing"
    ));
}

#[test]
fn rejects_empty_state_transition_condition() {
    let mut manifest = manifest_with_sims(vec![simulation("sim", "127.0.0.1:7001")]);
    manifest.state_transitions.push(StateTransitionConfig {
        when: StateTransitionCondition {
            all: Vec::new(),
            any: Vec::new(),
        },
        engine: EngineState::RUNNING,
    });
    let instruments = Vec::new();
    let flows = Vec::new();

    let err = validate_manifest(&manifest, &instruments, &flows)
        .expect_err("empty condition should fail");

    assert!(matches!(err, CoreError::EmptyStateTransitionCondition));
}

#[test]
fn rejects_duplicate_endpoints() {
    let manifest = manifest_with_sims(vec![
        simulation("a", "127.0.0.1:7001"),
        simulation("b", "127.0.0.1:7002"),
        simulation("c", "127.0.0.1:7001"),
    ]);
    let err = validate_manifest(&manifest, &[], &[]).expect_err("duplicate endpoint");
    assert!(matches!(
        err,
        CoreError::DuplicateEndpoint { endpoint } if endpoint == "127.0.0.1:7001"
    ));
}

#[test]
fn duplicate_endpoint_is_reported_before_duplicate_instrument() {
    let manifest = manifest_with_sims(vec![
        simulation("a", "127.0.0.1:7001"),
        simulation("b", "127.0.0.1:7001"),
    ]);
    let instruments = vec![
        instrument("x", PrimitiveType::Float32),
        instrument("x", PrimitiveType::Float32),
    ];
    let err = validate_manifest(&manifest, &instruments, &[]).expect_err("duplicates");
    assert!(matches!(err, CoreError::DuplicateEndpoint { .. }));
}

#[test]
fn first_failing_flow_is_reported() {
    let manifest = manifest_with_sims(vec![simulation("a", "127.0.0.1:7001")]);
    let instruments = vec![instrument("x", PrimitiveType::Float32)];
    let flows = vec![
        flow("x", "127.0.0.1:7001", "127.0.0.9:1"),
        flow("y", "127.0.0.1:7001", "127.0.0.9:1"),
        flow("x", "10.0.0.1:1", "127.0.0.9:1"),
    ];
    let err = validate_manifest(&manifest, &instruments, &flows).expect_err("flows");
    assert!(matches!(
        err,
        CoreError::UnknownFlowInstrument { instrument } if instrument == "y"
    ));
}

#[test]
fn source_is_checked_before_instrument() {
    let manifest = manifest_with_sims(vec![simulation("a", "127.0.0.1:7001")]);
    let flows = vec![flow("nope", "10.0.0.1:1", "127.0.0.1:7001")];
    let err = validate_manifest(&manifest, &[], &flows).expect_err("flow");
    assert!(matches!(
        err,
        CoreError::FlowSourceNotLocal { endpoint } if endpoint == "10.0.0.1:1"
    ));
}

#[test]
fn flow_errors_come_before_transition_errors() {
    let mut manifest = manifest_with_sims(vec![simulation("a", "127.0.0.1:7001")]);
    manifest
        .state_transitions
        .push(transition(Vec::new(), Vec::new(), EngineState::RUNNING));
    let flows = vec![flow("x", "127.0.0.1:7001", "127.0.0.1:7001")];
    let err = validate_manifest(&manifest, &[], &flows).expect_err("flow");
    assert!(matches!(err, CoreError::UnknownFlowInstrument { .. }));
}

#[test]
fn rejects_condition_with_both_all_and_any() {
    let sims = vec![simulation("a", "127.0.0.1:7001")];
    let transitions = vec![transition(
        vec![requirement("a", SimulationState::_READY)],
        vec![requirement("a", SimulationState::_ERROR)],
        EngineState::RUNNING,
    )];
    let err = validate_state_transitions(&transitions, &sims).expect_err("ambiguous");
    assert!(matches!(err, CoreError::AmbiguousStateTransitionCondition));
}

#[test]
fn unknown_simulation_in_any_is_rejected() {
    let sims = vec![simulation("a", "127.0.0.1:7001")];
    let transitions = vec![
        transition(
            vec![requirement("a", SimulationState::_READY)],
            Vec::new(),
            EngineState::RUNNING,
        ),
        transition(
            Vec::new(),
            vec![
                requirement("a", SimulationState::_ERROR),
                requirement("ghost", SimulationState::_ERROR),
                requirement("other", SimulationState::_ERROR),
            ],
            EngineState::ERROR,
        ),
    ];
    let err = validate_state_transitions(&transitions, &sims).expect_err("unknown");
    assert!(matches!(
        err,
        CoreError::UnknownTransitionSimulation { simulation } if simulation == "ghost"
    ));
}

#[test]
fn accepts_readme_manifest() {
    let mut manifest = manifest_with_sims(vec![
        simulation("temperature-reader", "127.0.0.1:7001"),
        simulation("fan-controller", "127.0.0.1:7002"),
    ]);
    manifest.state_transitions.push(transition(
        vec![
            requirement("temperature-reader", SimulationState::_READY),
            requirement("fan-controller", SimulationState::_READY),
        ],
        Vec::new(),
        EngineState::RUNNING,
    ));
    manifest.state_transitions.push(transition(
        Vec::new(),
        vec![
            requirement("temperature-reader", SimulationState::_ERROR),
            requirement("fan-controller", SimulationState::_ERROR),
        ],
        EngineState::ERROR,
    ));
    let instruments = vec![instrument("temperature_c", PrimitiveType::Float32)];
    let flows = vec![flow("temperature_c", "127.0.0.1:7001", "127.0.0.1:7002")];
    assert!(validate_manifest(&manifest, &instruments, &flows).is_ok());
}

#[test]
fn default_log_level_is_info() {
    assert_eq!(default_log_level(), "info");
}
