use simengine::manifest::SimulationConfig;
use simengine::plugin_api::{
    complete_input, ensure_api_version, log_line, read_result, SimLogLevel,
    SIMENGINE_API_VERSION,
};

fn sim(name: &str) -> SimulationConfig {
    SimulationConfig {
        name: name.to_string(),
        endpoint: "127.0.0.1:7001".to_string(),
        plugin: "p.dll".to_string(),
        params: "null".to_string(),
    }
}

#[test]
fn api_version_is_two() {
    assert_eq!(SIMENGINE_API_VERSION, 2);
}

#[test]
fn matching_api_version_is_accepted() {
    assert!(ensure_api_version(&sim("a"), 2).is_ok());
    let err = ensure_api_version(&sim("plugin-a"), 1).err().expect("mismatch");
    assert_eq!(err.plugin, "plugin-a");
    assert_eq!(err.found, 1);
    assert_eq!(err.expected, 2);
}

#[test]
fn log_lines() {
    assert_eq!(
        log_line(SimLogLevel::Info, Some("sensor"), Some("hello")),
        "[Info] [sensor] hello"
    );
    assert_eq!(
        log_line(SimLogLevel::Error, None, None),
        "[Error] [unknown] <null message>"
    );
    assert_eq!(log_line(SimLogLevel::Trace, Some("s"), Some("")), "[Trace] [s] ");
    assert_eq!(log_line(SimLogLevel::Warn, Some("s"), Some("w")), "[Warn] [s] w");
    assert_eq!(log_line(SimLogLevel::Debug, Some("s"), Some("d")), "[Debug] [s] d");
}

#[test]
fn inputs_are_read_only_when_complete() {
    assert_eq!(read_result(0), None);
    assert_eq!(read_result(3), Some(3));
    assert_eq!(complete_input([1u8, 2, 3, 4], Some(4)), Some([1, 2, 3, 4]));
    assert_eq!(complete_input([1u8, 2, 3, 4], Some(2)), None);
    assert_eq!(complete_input([1u8, 2, 3, 4], None), None);
}
