use console::{drain_all, observe_shutdown, tick_admitted, ServiceState};

#[test]
fn raised_flag_stops_a_service_within_one_tick() {
    let state = observe_shutdown(ServiceState::Active, true);
    assert_eq!(state, ServiceState::Stopped);
    assert!(!tick_admitted(state));
}

#[test]
fn unraised_flag_admits_another_tick() {
    let state = observe_shutdown(ServiceState::Active, false);
    assert_eq!(state, ServiceState::Active);
    assert!(tick_admitted(state));
}

#[test]
fn stopped_service_never_resumes() {
    let state = observe_shutdown(ServiceState::Stopped, false);
    assert_eq!(state, ServiceState::Stopped);
    let state = observe_shutdown(state, true);
    assert_eq!(state, ServiceState::Stopped);
    assert!(!tick_admitted(state));
}

#[test]
fn immediate_shutdown_runs_no_ticks_and_renders_nothing() {
    // The flag is raised before the loops take their first tick: both
    // service loops exit at once, and with no frames ever sent nothing
    // is rendered.
    let mut renderer = ServiceState::Active;
    let mut listener = ServiceState::Active;
    let terminated = true;

    let mut renders = 0usize;
    let mut polls = 0usize;
    loop {
        renderer = observe_shutdown(renderer, terminated);
        if !tick_admitted(renderer) {
            break;
        }
        renders += 1;
    }
    loop {
        listener = observe_shutdown(listener, terminated);
        if !tick_admitted(listener) {
            break;
        }
        polls += 1;
    }

    assert_eq!(renders, 0);
    assert_eq!(polls, 0);
    assert!(drain_all(Vec::new()).is_empty());
}
