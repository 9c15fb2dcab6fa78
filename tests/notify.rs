use ex_jack::{dispatch, port_label, registration_port_label, Notification, PortLookup, ServerEvent};

#[test]
fn port_labels_and_placeholders() {
    assert_eq!(port_label(PortLookup::Named("system:capture_1".to_string())), "system:capture_1");
    assert_eq!(port_label(PortLookup::Unnamed), "<unknown>");
    assert_eq!(port_label(PortLookup::Missing), "error");
}

#[test]
fn lifecycle_events() {
    assert!(matches!(dispatch(ServerEvent::Shutdown), Notification::Shutdown));
    assert!(matches!(dispatch(ServerEvent::SampleRate(44100)), Notification::SampleRate(44100)));
    assert!(matches!(dispatch(ServerEvent::Xrun), Notification::Xrun));
}

#[test]
fn client_registration_events() {
    match dispatch(ServerEvent::ClientRegistration { name: "synth".to_string(), registered: true }) {
        Notification::ClientRegister(n) => assert_eq!(n, "synth"),
        _ => panic!("expected client_register"),
    }
    match dispatch(ServerEvent::ClientRegistration { name: "synth".to_string(), registered: false }) {
        Notification::ClientUnregister(n) => assert_eq!(n, "synth"),
        _ => panic!("expected client_unregister"),
    }
}

#[test]
fn port_registration_events() {
    match dispatch(ServerEvent::PortRegistration { id: 7, port: PortLookup::Named("ex:out".to_string()), registered: true }) {
        Notification::PortRegister(id, n) => {
            assert_eq!(id, 7);
            assert_eq!(n, "ex:out");
        }
        _ => panic!("expected port_register"),
    }
    match dispatch(ServerEvent::PortRegistration { id: 8, port: PortLookup::Unnamed, registered: true }) {
        Notification::PortRegister(id, n) => {
            assert_eq!(id, 8);
            assert_eq!(n, "<unknown>");
        }
        _ => panic!("expected port_register"),
    }
    match dispatch(ServerEvent::PortRegistration { id: 10, port: PortLookup::Missing, registered: true }) {
        Notification::PortRegister(id, n) => {
            assert_eq!(id, 10);
            assert_eq!(n, "<unknown>");
        }
        _ => panic!("expected port_register"),
    }
    assert!(matches!(
        dispatch(ServerEvent::PortRegistration { id: 9, port: PortLookup::Missing, registered: false }),
        Notification::PortUnregister(9)
    ));
}

#[test]
fn port_connection_events() {
    let e = ServerEvent::PortConnection {
        a: PortLookup::Named("ex:out".to_string()),
        b: PortLookup::Missing,
        connected: true,
    };
    match dispatch(e) {
        Notification::PortsConnected(a, b) => {
            assert_eq!(a, "ex:out");
            assert_eq!(b, "error");
        }
        _ => panic!("expected ports_connected"),
    }
    let e = ServerEvent::PortConnection {
        a: PortLookup::Unnamed,
        b: PortLookup::Named("system:playback_1".to_string()),
        connected: false,
    };
    match dispatch(e) {
        Notification::PortsDisconnected(a, b) => {
            assert_eq!(a, "<unknown>");
            assert_eq!(b, "system:playback_1");
        }
        _ => panic!("expected ports_disconnected"),
    }
}

#[test]
fn registration_labels_use_one_placeholder() {
    assert_eq!(registration_port_label(PortLookup::Named("ex:in".to_string())), "ex:in");
    assert_eq!(registration_port_label(PortLookup::Unnamed), "<unknown>");
    assert_eq!(registration_port_label(PortLookup::Missing), "<unknown>");
}
