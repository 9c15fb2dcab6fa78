use ex_jack::{auto_connect_plan, open_session, port_full_name, Config, Pcm, PortAction};

fn config(name: &str, auto_connect: bool) -> Config {
    Config { name: name.to_string(), auto_connect, use_callback: false }
}

#[test]
fn full_name_joins_client_and_port() {
    assert_eq!(port_full_name("synth", "out"), "synth:out");
    assert_eq!(port_full_name("", "in"), ":in");
}

#[test]
fn auto_connect_wires_output_to_two_playback_ports() {
    let plan = auto_connect_plan(&config("ex", true));
    assert_eq!(plan.len(), 2);
    assert!(plan[0].connect && plan[1].connect);
    assert_eq!(plan[0].port_from_name, "ex:out");
    assert_eq!(plan[0].port_to_name, "system:playback_1");
    assert_eq!(plan[1].port_from_name, "ex:out");
    assert_eq!(plan[1].port_to_name, "system:playback_2");
}

#[test]
fn no_auto_connect_plans_nothing() {
    assert!(auto_connect_plan(&config("ex", false)).is_empty());
}

#[test]
fn session_reports_server_parameters() {
    let ports = vec!["system:capture_1".to_string(), "system:playback_1".to_string()];
    let s = open_session(&config("ex", true), 256, 48000, ports.clone());
    assert_eq!(s.name, "ex");
    assert!(s.pcm == Pcm { buffer_size: 256, sample_rate: 48000 });
    assert_eq!(s.pcm.buffer_size, 256);
    assert_eq!(s.pcm.sample_rate, 48000);
    assert_eq!(s.existing_ports, ports);
}

#[test]
fn port_action_constructors() {
    let c = PortAction::connect("a:out".to_string(), "b:in".to_string());
    assert!(c.connect);
    assert_eq!(c.port_from_name, "a:out");
    assert_eq!(c.port_to_name, "b:in");
    let d = PortAction::disconnect("a:out".to_string(), "b:in".to_string());
    assert!(!d.connect);
    assert_eq!(d.port_from_name, "a:out");
    assert_eq!(d.port_to_name, "b:in");
}
