use simengine::manifest::{InstrumentFlow, SimulationConfig};
use simengine::network::NetworkMessage;
use simengine::runtime::{value_key, Delivery, HostContext, HostShared};

fn sim(name: &str, endpoint: &str) -> SimulationConfig {
    SimulationConfig {
        name: name.to_string(),
        endpoint: endpoint.to_string(),
        plugin: "p.dll".to_string(),
        params: "null".to_string(),
    }
}

fn flow(instrument: &str, from: &str, to: &str) -> InstrumentFlow {
    InstrumentFlow {
        instrument: instrument.to_string(),
        from: from.to_string(),
        to: to.to_string(),
    }
}

fn locals() -> Vec<String> {
    vec!["127.0.0.1:7001".to_string(), "127.0.0.1:7002".to_string()]
}

#[test]
fn value_key_joins_with_slash() {
    assert_eq!(value_key("127.0.0.1:7002", "cpu_usage"), "127.0.0.1:7002/cpu_usage");
    assert_eq!(value_key("", ""), "/");
}

#[test]
fn output_reaches_local_input_under_the_same_name() {
    let flows = vec![flow("temperature_c", "127.0.0.1:7001", "127.0.0.1:7002")];
    let reader = HostContext::new(&sim("reader", "127.0.0.1:7001"), &flows, locals());
    let fan = HostContext::new(&sim("fan", "127.0.0.1:7002"), &flows, locals());
    let mut shared = HostShared::new();

    let (_, none) = fan.read_input(&shared, "temperature_c", 4);
    assert!(none.is_none());

    let (key, deliveries) = reader.store_output(&mut shared, "temperature_c", vec![1, 2, 3, 4]);
    assert_eq!(key, "127.0.0.1:7001/temperature_c");
    assert_eq!(deliveries.len(), 1);
    assert!(matches!(
        &deliveries[0],
        Delivery::Local { target_key } if target_key == "127.0.0.1:7002/temperature_c"
    ));

    let (input_key, bytes) = fan.read_input(&shared, "temperature_c", 4);
    assert_eq!(input_key, "127.0.0.1:7002/temperature_c");
    assert_eq!(bytes, Some(vec![1, 2, 3, 4]));

    // The producer's own output is stored too.
    let (_, own) = reader.read_input(&shared, "temperature_c", 16);
    assert_eq!(own, Some(vec![1, 2, 3, 4]));
}

#[test]
fn remote_targets_become_messages() {
    let flows = vec![
        flow("temperature_c", "127.0.0.1:7001", "127.0.0.2:7001"),
        flow("other", "127.0.0.1:7001", "127.0.0.1:7002"),
        flow("temperature_c", "127.0.0.1:7002", "127.0.0.1:7001"),
    ];
    let reader = HostContext::new(&sim("reader", "127.0.0.1:7001"), &flows, locals());
    let mut shared = HostShared::new();
    let (_, deliveries) = reader.store_output(&mut shared, "temperature_c", vec![9]);
    assert_eq!(deliveries.len(), 1);
    match &deliveries[0] {
        Delivery::Remote {
            endpoint,
            target_key,
            message,
        } => {
            assert_eq!(endpoint, "127.0.0.2:7001");
            assert_eq!(target_key, "127.0.0.2:7001/temperature_c");
            assert_eq!(message.input, "temperature_c");
            assert_eq!(message.payload, vec![9]);
        }
        Delivery::Local { .. } => panic!("expected a remote delivery"),
    }
    let key = "127.0.0.2:7001/temperature_c".to_string();
    assert!(shared.value(&key).is_none());
}

#[test]
fn read_keeps_at_most_capacity_bytes() {
    let ctx = HostContext::new(&sim("a", "127.0.0.1:7001"), &[], locals());
    let mut shared = HostShared::new();
    ctx.store_output(&mut shared, "x", vec![1, 2, 3, 4, 5]);
    assert_eq!(ctx.read_input(&shared, "x", 2).1, Some(vec![1, 2]));
    assert_eq!(ctx.read_input(&shared, "x", 0).1, Some(vec![]));
    assert_eq!(ctx.read_input(&shared, "y", 8).1, None);
}

#[test]
fn later_value_replaces_earlier() {
    let ctx = HostContext::new(&sim("a", "127.0.0.1:7001"), &[], locals());
    let mut shared = HostShared::new();
    ctx.store_output(&mut shared, "x", vec![1]);
    ctx.store_output(&mut shared, "x", vec![2, 2]);
    assert_eq!(ctx.read_input(&shared, "x", 8).1, Some(vec![2, 2]));
}

#[test]
fn received_message_is_stored_for_the_listening_endpoint() {
    let mut shared = HostShared::new();
    let key = shared.receive(
        "127.0.0.1:7002",
        NetworkMessage {
            input: "temperature_c".to_string(),
            payload: vec![7, 7],
        },
    );
    assert_eq!(key, "127.0.0.1:7002/temperature_c");
    let ctx = HostContext::new(&sim("fan", "127.0.0.1:7002"), &[], locals());
    assert_eq!(ctx.read_input(&shared, "temperature_c", 8).1, Some(vec![7, 7]));
}

#[test]
fn context_keeps_simulation_details() {
    let flows = vec![flow("a", "b", "c")];
    let ctx = HostContext::new(&sim("name", "1.2.3.4:5"), &flows, vec!["x".to_string()]);
    assert_eq!(ctx.sim_name, "name");
    assert_eq!(ctx.endpoint, "1.2.3.4:5");
    assert_eq!(ctx.flows.len(), 1);
    assert_eq!(ctx.flows[0].instrument, "a");
    assert_eq!(ctx.local_endpoints, vec!["x".to_string()]);
}

#[test]
fn default_store_is_empty() {
    let shared = HostShared::default();
    assert!(shared.value(&"127.0.0.1:7001/x".to_string()).is_none());
}

#[test]
fn four_byte_output_is_read_back_whole() {
    let value: f32 = 21.5;
    let flows = vec![flow("temperature_c", "127.0.0.1:7001", "127.0.0.1:7002")];
    let reader = HostContext::new(&sim("reader", "127.0.0.1:7001"), &flows, locals());
    let fan = HostContext::new(&sim("fan", "127.0.0.1:7002"), &flows, locals());
    let mut shared = HostShared::new();
    reader.store_output(&mut shared, "temperature_c", value.to_le_bytes().to_vec());
    let bytes = fan.read_input(&shared, "temperature_c", 4).1.expect("delivered");
    let read = simengine::plugin_api::complete_input(
        [bytes[0], bytes[1], bytes[2], bytes[3]],
        simengine::plugin_api::read_result(bytes.len()),
    )
    .expect("complete");
    assert_eq!(f32::from_le_bytes(read).to_bits(), value.to_bits());
}
