use simengine::manifest::{
    EngineState, FrameworkConfig, Manifest, SimulationConfig, SimulationState,
    SimulationStateCondition, StateTransitionCondition, StateTransitionConfig,
};
use simengine::runtime::{frame_rate, FrameAction, FrameDriver, StateMachine, StopReason};

fn manifest(max_frames: Option<u64>) -> Manifest {
    Manifest {
        framework: FrameworkConfig {
            fps: 60,
            log_level: "info".to_string(),
            max_frames,
        },
        simulations: vec![SimulationConfig {
            name: "s".to_string(),
            endpoint: "127.0.0.1:7001".to_string(),
            plugin: "s.dll".to_string(),
            params: "null".to_string(),
        }],
        state_transitions: vec![
            StateTransitionConfig {
                when: StateTransitionCondition {
                    all: vec![SimulationStateCondition {
                        sim: "s".to_string(),
                        state: SimulationState::_READY,
                    }],
                    any: Vec::new(),
                },
                engine: EngineState::RUNNING,
            },
            StateTransitionConfig {
                when: StateTransitionCondition {
                    all: Vec::new(),
                    any: vec![SimulationStateCondition {
                        sim: "s".to_string(),
                        state: SimulationState::_ERROR,
                    }],
                },
                engine: EngineState::ERROR,
            },
        ],
    }
}

#[test]
fn idle_engine_sleeps_until_frame_limit() {
    let mut sm = StateMachine::new(&manifest(Some(2)));
    let mut driver = FrameDriver::new(Some(2));
    assert_eq!(driver.next_action(&mut sm).0, FrameAction::Sleep);
    assert_eq!(driver.next_action(&mut sm).0, FrameAction::Sleep);
    assert_eq!(
        driver.next_action(&mut sm).0,
        FrameAction::Stop(StopReason::FrameLimit)
    );
    assert_eq!(driver.frames(), 2);
}

#[test]
fn running_engine_calls_every_hook_in_order() {
    let mut sm = StateMachine::new(&manifest(Some(1)));
    sm.set_simulation_state("s".to_string(), SimulationState::_READY);
    let mut driver = FrameDriver::new(Some(1));
    let (first, changes) = driver.next_action(&mut sm);
    assert_eq!(first, FrameAction::PreStep);
    assert_eq!(changes, vec![(EngineState::START, EngineState::RUNNING)]);
    assert_eq!(driver.next_action(&mut sm).0, FrameAction::Step);
    assert_eq!(driver.next_action(&mut sm).0, FrameAction::PostStep);
    assert_eq!(driver.next_action(&mut sm).0, FrameAction::Sleep);
    assert_eq!(
        driver.next_action(&mut sm).0,
        FrameAction::Stop(StopReason::FrameLimit)
    );
}

#[test]
fn error_during_pre_step_skips_remaining_hooks_and_stops() {
    let mut sm = StateMachine::new(&manifest(None));
    sm.set_simulation_state("s".to_string(), SimulationState::_READY);
    let mut driver = FrameDriver::new(None);
    assert_eq!(driver.next_action(&mut sm).0, FrameAction::PreStep);
    // A plugin reports an error during pre_step.
    sm.set_simulation_state("s".to_string(), SimulationState::_ERROR);
    let (action, changes) = driver.next_action(&mut sm);
    assert_eq!(action, FrameAction::Sleep);
    assert_eq!(changes, vec![(EngineState::RUNNING, EngineState::ERROR)]);
    assert_eq!(driver.frames(), 1);
    assert_eq!(
        driver.next_action(&mut sm).0,
        FrameAction::Stop(StopReason::Terminal(EngineState::ERROR))
    );
    // Once stopped, the driver stays stopped.
    assert_eq!(
        driver.next_action(&mut sm).0,
        FrameAction::Stop(StopReason::Terminal(EngineState::ERROR))
    );
}

#[test]
fn error_during_step_skips_post_step() {
    let mut sm = StateMachine::new(&manifest(None));
    sm.set_simulation_state("s".to_string(), SimulationState::_READY);
    let mut driver = FrameDriver::new(None);
    assert_eq!(driver.next_action(&mut sm).0, FrameAction::PreStep);
    assert_eq!(driver.next_action(&mut sm).0, FrameAction::Step);
    sm.set_simulation_state("s".to_string(), SimulationState::_ERROR);
    assert_eq!(driver.next_action(&mut sm).0, FrameAction::Sleep);
    assert_eq!(sm.engine_state(), EngineState::ERROR);
}

#[test]
fn terminal_engine_stops_before_any_frame() {
    let mut sm = StateMachine::new(&manifest(None));
    sm.set_simulation_state("s".to_string(), SimulationState::_ERROR);
    let mut driver = FrameDriver::new(None);
    let (action, changes) = driver.next_action(&mut sm);
    assert_eq!(
        action,
        FrameAction::Stop(StopReason::Terminal(EngineState::ERROR))
    );
    assert_eq!(changes, vec![(EngineState::START, EngineState::ERROR)]);
    assert_eq!(driver.frames(), 0);
}

#[test]
fn zero_frame_limit_stops_at_once() {
    let mut sm = StateMachine::new(&manifest(Some(0)));
    let mut driver = FrameDriver::new(Some(0));
    assert_eq!(
        driver.next_action(&mut sm).0,
        FrameAction::Stop(StopReason::FrameLimit)
    );
}

#[test]
fn frame_rate_is_at_least_one() {
    assert_eq!(frame_rate(0), 1);
    assert_eq!(frame_rate(1), 1);
    assert_eq!(frame_rate(60), 60);
}

#[test]
fn no_hook_after_terminal_state_even_if_rules_match_again() {
    let mut sm = StateMachine::new(&manifest(None));
    sm.set_simulation_state("s".to_string(), SimulationState::_READY);
    let mut driver = FrameDriver::new(None);
    assert_eq!(driver.next_action(&mut sm).0, FrameAction::PreStep);
    sm.set_simulation_state("s".to_string(), SimulationState::_ERROR);
    assert_eq!(driver.next_action(&mut sm).0, FrameAction::Sleep);
    // The simulation reports ready again; the engine stays in ERROR.
    sm.set_simulation_state("s".to_string(), SimulationState::_READY);
    assert_eq!(
        driver.next_action(&mut sm).0,
        FrameAction::Stop(StopReason::Terminal(EngineState::ERROR))
    );
    assert_eq!(sm.engine_state(), EngineState::ERROR);
}
