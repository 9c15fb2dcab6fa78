use ex_jack::{step, tick_event, Command, Event, Phase, PortAction};

fn tick(shutdown: bool, action: Option<PortAction>) -> Event {
    Event::Tick { shutdown, action }
}

#[test]
fn activation_starts_running() {
    let (p, c) = step(Phase::Starting, Event::Activated);
    assert!(p == Phase::Running);
    assert!(matches!(c, Command::Wait));
}

#[test]
fn pending_action_is_applied_while_running() {
    let a = PortAction::connect("ex:out".to_string(), "system:playback_1".to_string());
    let (p, c) = step(Phase::Running, tick(false, Some(a)));
    assert!(p == Phase::Running);
    match c {
        Command::Apply(a) => {
            assert!(a.connect);
            assert_eq!(a.port_from_name, "ex:out");
            assert_eq!(a.port_to_name, "system:playback_1");
        }
        _ => panic!("expected the action to be applied"),
    }
}

#[test]
fn idle_tick_waits() {
    let (p, c) = step(Phase::Running, tick(false, None));
    assert!(p == Phase::Running);
    assert!(matches!(c, Command::Wait));
}

#[test]
fn stop_twice_deactivates_once() {
    let mut phase = Phase::Running;
    let mut deactivations = 0;
    for e in [tick(true, None), tick(true, None), Event::Deactivated, tick(true, None)] {
        let (p, c) = step(phase, e);
        if matches!(c, Command::Deactivate) {
            deactivations += 1;
        }
        phase = p;
    }
    assert_eq!(deactivations, 1);
    assert!(phase == Phase::Stopped);
}

#[test]
fn connect_then_stop_drops_or_applies_whole_action() {
    let a = PortAction::connect("x:out".to_string(), "y:in".to_string());
    // The stop request and the action reach the same tick: the stop wins.
    let (p, c) = step(Phase::Running, tick(true, Some(a)));
    assert!(p == Phase::ShuttingDown);
    assert!(matches!(c, Command::Deactivate));
    // The action reaches an earlier tick: it is applied whole, then the stop.
    let a = PortAction::connect("x:out".to_string(), "y:in".to_string());
    let (p, c) = step(Phase::Running, tick(false, Some(a)));
    assert!(matches!(c, Command::Apply(_)));
    let (p, c) = step(p, tick(true, None));
    assert!(p == Phase::ShuttingDown);
    assert!(matches!(c, Command::Deactivate));
}

#[test]
fn nothing_applied_after_stop() {
    let a = PortAction::disconnect("x:out".to_string(), "y:in".to_string());
    let (p, c) = step(Phase::ShuttingDown, tick(false, Some(a)));
    assert!(p == Phase::ShuttingDown);
    assert!(matches!(c, Command::Wait));
    let (p, c) = step(p, Event::Deactivated);
    assert!(p == Phase::Stopped);
    assert!(matches!(c, Command::Exit));
    let a = PortAction::connect("x:out".to_string(), "y:in".to_string());
    let (p, c) = step(p, tick(false, Some(a)));
    assert!(p == Phase::Stopped);
    assert!(matches!(c, Command::Exit));
}

#[test]
fn server_shutdown_ends_without_deactivation() {
    let (p, c) = step(Phase::Running, Event::ServerShutdown);
    assert!(p == Phase::Stopped);
    assert!(matches!(c, Command::Exit));
    let (p, c) = step(Phase::Starting, Event::ServerShutdown);
    assert!(p == Phase::Stopped);
    assert!(matches!(c, Command::Exit));
}

#[test]
fn ticks_before_activation_wait() {
    let (p, c) = step(Phase::Starting, tick(true, None));
    assert!(p == Phase::Starting);
    assert!(matches!(c, Command::Wait));
}

#[test]
fn server_shutdown_comes_before_a_stop_request() {
    let a = PortAction::connect("x:out".to_string(), "y:in".to_string());
    assert!(matches!(tick_event(true, true, Some(a)), Event::ServerShutdown));
    match tick_event(false, true, None) {
        Event::Tick { shutdown, action } => {
            assert!(shutdown);
            assert!(action.is_none());
        }
        _ => panic!("expected a tick"),
    }
    let a = PortAction::disconnect("x:out".to_string(), "y:in".to_string());
    match tick_event(false, false, Some(a)) {
        Event::Tick { shutdown, action: Some(a) } => {
            assert!(!shutdown);
            assert!(!a.connect);
            assert_eq!(a.port_from_name, "x:out");
        }
        _ => panic!("expected a tick with the action"),
    }
}
