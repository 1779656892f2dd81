use letsnote_wheelpad::startup::{Startup, StartupStep};

fn steps(device_known: bool, failing: Option<StartupStep>) -> Vec<StartupStep> {
    let mut startup = Startup::new(device_known);
    let mut taken = vec![startup.step];
    while !matches!(startup.step, StartupStep::Run | StartupStep::GiveUp) {
        startup.advance(Some(startup.step) != failing);
        taken.push(startup.step);
    }
    taken
}

#[test]
fn the_device_is_grabbed_last() {
    assert_eq!(
        steps(true, None),
        vec![
            StartupStep::BlockSignals,
            StartupStep::AcquireLock,
            StartupStep::OpenDevice,
            StartupStep::CreateTouchpad,
            StartupStep::CreateWheel,
            StartupStep::Grab,
            StartupStep::NotifyReady,
            StartupStep::Run,
        ]
    );
}

#[test]
fn an_unknown_device_is_searched_for_before_it_is_locked() {
    assert_eq!(
        steps(false, None)[..3],
        [
            StartupStep::BlockSignals,
            StartupStep::FindDevice,
            StartupStep::AcquireLock,
        ]
    );
}

#[test]
fn a_failure_before_the_grab_leaves_the_device_alone() {
    for failing in [
        StartupStep::BlockSignals,
        StartupStep::FindDevice,
        StartupStep::AcquireLock,
        StartupStep::OpenDevice,
        StartupStep::CreateTouchpad,
        StartupStep::CreateWheel,
    ] {
        let taken = steps(false, Some(failing));
        assert_eq!(taken.last(), Some(&StartupStep::GiveUp));
        assert!(!taken.contains(&StartupStep::Grab));
    }
    assert_eq!(
        steps(true, Some(StartupStep::Grab)).last(),
        Some(&StartupStep::GiveUp)
    );
}

#[test]
fn an_unreachable_service_manager_does_not_stop_the_daemon() {
    let taken = steps(true, Some(StartupStep::NotifyReady));
    assert_eq!(taken.last(), Some(&StartupStep::Run));
}
