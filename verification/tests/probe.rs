use bytehub::endpoint::SocketAddr;
use bytehub::probe::{
    probe_addr, spawn_probe_loop, HealthReport, ProbeAction, ProbeConfig, ProbeEvent, ProbeState,
};

#[test]
fn default_probe_configuration() {
    let config = ProbeConfig::default();
    assert_eq!(config.probe_interval_secs, 10);
    assert_eq!(config.probe_unhealthy_interval_secs, 5);
    assert_eq!(config.probe_timeout_ms, 3000);
    assert_eq!(config.probe_max_fails, 2);
}

#[test]
fn peer_goes_down_and_recovers() {
    let (mut probing, action) = spawn_probe_loop(ProbeConfig::default());
    assert_eq!(action, ProbeAction::Sleep(10));
    assert_eq!(probing.next(ProbeEvent::Woke), (None, ProbeAction::Connect(3)));
    assert_eq!(probing.next(ProbeEvent::Probed(false)), (None, ProbeAction::Sleep(10)));
    probing.next(ProbeEvent::Woke);
    assert_eq!(
        probing.next(ProbeEvent::Probed(false)),
        (Some(HealthReport::Failure), ProbeAction::Sleep(5))
    );
    // Further failures are not reported again.
    assert_eq!(probing.next(ProbeEvent::Probed(false)), (None, ProbeAction::Sleep(5)));
    assert_eq!(
        probing.next(ProbeEvent::Probed(true)),
        (Some(HealthReport::Success), ProbeAction::Sleep(10))
    );
    assert_eq!(probing.next(ProbeEvent::Probed(true)), (None, ProbeAction::Sleep(10)));
    assert_eq!(probing.next(ProbeEvent::Cancelled), (None, ProbeAction::Exit));
}

#[test]
fn success_in_between_starts_the_count_anew() {
    let mut state = ProbeState::new();
    for _ in 0..5 {
        assert_eq!(state.probed(2, false), None);
        assert_eq!(state.probed(2, true), None);
    }
    assert_eq!(state, ProbeState { consecutive_fails: 0, marked_unhealthy: false });
}

#[test]
fn one_failure_is_enough_where_none_is_asked_for() {
    for max_fails in [0u32, 1] {
        let mut state = ProbeState::new();
        assert_eq!(state.probed(max_fails, true), None);
        assert_eq!(state.probed(max_fails, false), Some(HealthReport::Failure));
    }
}

#[test]
fn reports_alternate() {
    let probes = [false, false, false, true, true, false, true, false, false, false];
    let mut state = ProbeState::new();
    let reports: Vec<HealthReport> =
        probes.iter().filter_map(|ok| state.probed(2, *ok)).collect();
    assert_eq!(reports, [HealthReport::Failure, HealthReport::Success, HealthReport::Failure]);
    assert_eq!(state, ProbeState { consecutive_fails: 3, marked_unhealthy: true });
}

#[test]
fn first_address_is_probed() {
    let addr = |text: &str| SocketAddr { text: text.to_string() };
    assert_eq!(probe_addr(&Vec::new()), None);
    let list = vec![addr("[::1]:1"), addr("10.0.0.1:1")];
    assert_eq!(probe_addr(&list), Some(addr("[::1]:1")));
}

#[test]
fn probe_timeout_is_rounded_up() {
    let config = ProbeConfig { probe_timeout_ms: 1, ..ProbeConfig::default() };
    assert_eq!(spawn_probe_loop(config).0.next(ProbeEvent::Woke).1, ProbeAction::Connect(1));
    let config = ProbeConfig { probe_timeout_ms: 2500, ..ProbeConfig::default() };
    assert_eq!(spawn_probe_loop(config).0.next(ProbeEvent::Woke).1, ProbeAction::Connect(3));
}
