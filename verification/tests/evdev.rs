use std::path::PathBuf;

use letsnote_wheelpad::error::{Error, IoFailure};
use letsnote_wheelpad::evdev::{
    AxisRange, Capabilities, ContactSnapshot, FrameState, InputDevice, LiveContacts, NamedDevice,
    SlotState, ABS_AXIS_COUNT,
};
use letsnote_wheelpad::event::{
    InputEvent, ABS_MT_POSITION_X, ABS_MT_POSITION_Y, ABS_MT_SLOT, ABS_MT_TRACKING_ID, BTN_TOUCH,
    EV_ABS, EV_KEY, EV_SYN, SYN_REPORT,
};
use letsnote_wheelpad::fsm::{ContactId, TouchSample};
use letsnote_wheelpad::MAX_MT_SLOTS;

fn state() -> FrameState {
    FrameState {
        slots: [SlotState {
            tracking_id: -1,
            x: 0,
            y: 0,
        }; MAX_MT_SLOTS],
        current_slot: 0,
        contact: true,
    }
}

fn set_contact(state: &mut FrameState, slot: usize, tracking_id: i32, x: i32, y: i32) {
    state.apply_abs(ABS_MT_SLOT, slot as i32);
    state.apply_abs(ABS_MT_TRACKING_ID, tracking_id);
    state.apply_abs(ABS_MT_POSITION_X, x);
    state.apply_abs(ABS_MT_POSITION_Y, y);
}

#[test]
fn tracked_contact_does_not_switch_to_a_lower_slot() {
    let mut state = state();
    set_contact(&mut state, 3, 30, 800, 500);
    let followed = state.snapshot().primary().contact_id.unwrap();

    set_contact(&mut state, 1, 10, 200, 300);
    let frame = state.snapshot().for_contact(followed);

    assert_eq!(frame.contact_id, Some(followed));
    assert_eq!(frame.pos, Some(TouchSample { x: 800, y: 500 }));
}

#[test]
fn only_the_tracked_tracking_id_ending_lifts_the_session_contact() {
    let mut state = state();
    set_contact(&mut state, 3, 30, 800, 500);
    set_contact(&mut state, 1, 10, 200, 300);
    let followed = ContactId {
        slot: 3,
        tracking_id: 30,
    };

    state.apply_abs(ABS_MT_SLOT, 1);
    state.apply_abs(ABS_MT_TRACKING_ID, -1);
    assert!(state.snapshot().for_contact(followed).contact);

    state.apply_abs(ABS_MT_SLOT, 3);
    state.apply_abs(ABS_MT_TRACKING_ID, -1);
    assert!(!state.snapshot().for_contact(followed).contact);
}

#[test]
fn a_reused_slot_does_not_inherit_the_old_contact() {
    let mut state = state();
    set_contact(&mut state, 3, 30, 800, 500);
    let followed = ContactId {
        slot: 3,
        tracking_id: 30,
    };
    set_contact(&mut state, 3, -1, 800, 500);
    set_contact(&mut state, 3, 31, 700, 400);

    assert!(!state.snapshot().for_contact(followed).contact);
}

#[test]
fn primary_is_the_lowest_active_slot() {
    let mut state = state();
    assert_eq!(state.snapshot().primary().contact_id, None);
    set_contact(&mut state, 3, 30, 800, 500);
    set_contact(&mut state, 1, 10, 200, 300);
    let primary = state.snapshot().primary();
    assert_eq!(
        primary.contact_id,
        Some(ContactId {
            slot: 1,
            tracking_id: 10
        })
    );
    assert_eq!(
        state.snapshot().for_contact(primary.contact_id.unwrap()),
        primary
    );
    state.contact = false;
    assert!(!state.snapshot().primary().contact);
}

#[test]
fn slots_that_are_not_tracked_cannot_be_selected() {
    let mut state = state();
    state.apply_abs(ABS_MT_SLOT, 15);
    assert_eq!(state.current_slot, 15);
    state.apply_abs(ABS_MT_SLOT, 16);
    state.apply_abs(ABS_MT_SLOT, -1);
    assert_eq!(state.current_slot, 15);
    let outside = ContactId {
        slot: 16,
        tracking_id: -1,
    };
    assert!(!state.snapshot().for_contact(outside).contact);
}

#[test]
fn snapshots_are_made_of_slot_values() {
    let snapshot = ContactSnapshot::from_slot_values(&[(-1, 0, 0), (7, 3, 4)], Some(1), true);
    let primary = snapshot.unwrap().primary();
    assert_eq!(primary.pos, Some(TouchSample { x: 3, y: 4 }));
    assert_eq!(snapshot.unwrap().selected_slot(), Some(1));
    assert_eq!(snapshot.unwrap().slot_count(), 2);
    assert_eq!(state().snapshot().slot_count(), MAX_MT_SLOTS);
    assert!(ContactSnapshot::from_slot_values(&[(-1, 0, 0); 17], None, true).is_none());
    assert!(ContactSnapshot::from_slot_values(&[(-1, 0, 0); 2], Some(2), true).is_none());
}

fn event(event_type: u16, code: u16, value: i32) -> InputEvent {
    InputEvent::new(event_type, code, value)
}

fn capabilities() -> Capabilities {
    Capabilities {
        absolute_axes: Some(vec![0, 1, ABS_MT_POSITION_X, ABS_MT_POSITION_Y]),
        keys: Some(vec![BTN_TOUCH]),
    }
}

fn ranges() -> [AxisRange; ABS_AXIS_COUNT] {
    let mut ranges = [AxisRange {
        minimum: 0,
        maximum: 0,
    }; ABS_AXIS_COUNT];
    ranges[ABS_MT_POSITION_X as usize] = AxisRange {
        minimum: 1266,
        maximum: 5675,
    };
    ranges[ABS_MT_POSITION_Y as usize] = AxisRange {
        minimum: -10,
        maximum: 3,
    };
    ranges
}

fn open_device() -> InputDevice {
    InputDevice::open(PathBuf::from("/dev/input/event4"), Ok(capabilities()), Ok(ranges())).unwrap()
}

#[test]
fn opened_devices_know_their_center() {
    let device = open_device();
    assert_eq!((device.abs_x_min, device.abs_x_max), (1266, 5675));
    assert_eq!((device.abs_y_min, device.abs_y_max), (-10, 3));
    assert_eq!((device.center_x, device.center_y), (3470, -3));
    assert!(!device.snapshot().primary().contact);
    assert_eq!(device.snapshot().selected_slot(), Some(0));
}

#[test]
fn devices_without_a_capability_are_refused() {
    let path = PathBuf::from("/dev/input/event4");
    let check = |capabilities: Capabilities, expected: &str| {
        let failure = IoFailure::other("not asked");
        match InputDevice::open(path.clone(), Ok(capabilities), Err(failure)) {
            Err(Error::EvdevMissingCap { path: at, capability }) => {
                assert_eq!(at, path);
                assert_eq!(capability, expected);
            }
            other => panic!("unexpected result: {other:?}"),
        }
    };
    let mut without_axes = capabilities();
    without_axes.absolute_axes = None;
    check(without_axes, "ABS_MT_POSITION_X");
    let mut without_y = capabilities();
    without_y.absolute_axes = Some(vec![ABS_MT_POSITION_X]);
    check(without_y, "ABS_MT_POSITION_Y");
    let mut without_touch = capabilities();
    without_touch.keys = Some(vec![0x110]);
    check(without_touch, "BTN_TOUCH");
}

#[test]
fn devices_that_cannot_be_opened_or_asked_are_refused() {
    let path = PathBuf::from("/dev/input/event4");
    let failed = InputDevice::open(path.clone(), Err(IoFailure::other("gone")), Ok(ranges()));
    assert!(matches!(failed, Err(Error::EvdevOpen { source, .. }) if source.text == "gone"));
    let failed = InputDevice::open(path, Ok(capabilities()), Err(IoFailure::other("mute")));
    assert!(matches!(failed, Err(Error::EvdevRead { source }) if source.text == "mute"));
}

#[test]
fn frames_are_split_at_reports_with_their_own_contacts() {
    let mut device = open_device();
    let events = vec![
        event(EV_KEY, BTN_TOUCH, 1),
        event(EV_ABS, ABS_MT_TRACKING_ID, 9),
        event(EV_ABS, ABS_MT_POSITION_X, 100),
        event(EV_SYN, 0, 0),
        event(EV_ABS, ABS_MT_POSITION_X, 200),
        event(EV_SYN, 3, 0),
        event(EV_SYN, 0, 0),
        event(EV_ABS, ABS_MT_POSITION_X, 300),
    ];
    let frames = device.poll_frames(Ok(events.clone())).unwrap();
    assert_eq!(frames.len(), 2);
    assert_eq!(frames[0].events, events[..4].to_vec());
    assert_eq!(frames[1].events, events[4..7].to_vec());
    assert!(!frames[0].reconciled);
    assert_eq!(frames[0].contacts.primary().pos, Some(TouchSample { x: 100, y: 0 }));
    assert_eq!(frames[1].contacts.primary().pos, Some(TouchSample { x: 200, y: 0 }));
    assert_eq!(device.snapshot().primary().pos, Some(TouchSample { x: 300, y: 0 }));
    assert!(device.poll_frames(Ok(Vec::new())).unwrap().is_empty());
    assert!(matches!(
        device.poll_frames(Err(IoFailure::other("unplugged"))),
        Err(Error::EvdevRead { source }) if source.text == "unplugged"
    ));
}

fn device(path: &str, name: Option<&str>) -> NamedDevice {
    NamedDevice {
        path: PathBuf::from(path),
        name: name.map(str::to_string),
    }
}

fn devices() -> Vec<NamedDevice> {
    vec![
        device("/dev/input/event0", None),
        device("/dev/input/event1", Some("Power Button")),
        device("/dev/input/event2", Some("Synaptics TM3562-003")),
        device("/dev/input/event3", Some("Synaptics TM3562-004")),
    ]
}

#[test]
fn the_first_device_with_a_matching_name_is_found() {
    let found = InputDevice::find_by_name("Synaptics.*TM3562", devices()).unwrap();
    assert_eq!(found, PathBuf::from("/dev/input/event2"));
    let found = InputDevice::find_by_name("-004$", devices()).unwrap();
    assert_eq!(found, PathBuf::from("/dev/input/event3"));
}

#[test]
fn a_pattern_without_a_match_finds_nothing() {
    assert!(matches!(
        InputDevice::find_by_name("^TM3562", devices()),
        Err(Error::DeviceNotFound { regex }) if regex == "^TM3562"
    ));
    assert!(matches!(
        InputDevice::find_by_name("", vec![device("/dev/input/event0", None)]),
        Err(Error::DeviceNotFound { .. })
    ));
}

#[test]
fn an_invalid_pattern_is_refused() {
    match InputDevice::find_by_name("(", Vec::new()) {
        Err(Error::RegexInvalid { pattern, source }) => {
            assert_eq!(pattern, "(");
            assert!(matches!(source, regex::Error::Syntax(_)));
        }
        other => panic!("unexpected result: {other:?}"),
    }
}

#[test]
fn the_first_flag_selects_the_device() {
    let flags = vec![false, false, true, true];
    let found = InputDevice::select("x", devices(), &flags).unwrap();
    assert_eq!(found, PathBuf::from("/dev/input/event2"));
    assert!(InputDevice::select("x", devices(), &vec![false; 4]).is_err());
}

fn live(slots: &[(usize, SlotState)], selected_slot: i32, contact: bool) -> LiveContacts {
    let mut live = LiveContacts {
        slots: [SlotState {
            tracking_id: -1,
            x: 0,
            y: 0,
        }; MAX_MT_SLOTS],
        selected_slot,
        contact,
    };
    for (slot, value) in slots {
        live.slots[*slot] = *value;
    }
    live
}

fn contact(tracking_id: i32, x: i32, y: i32) -> SlotState {
    SlotState { tracking_id, x, y }
}

fn semantics(events: &[InputEvent]) -> Vec<(u16, u16, i32)> {
    events
        .iter()
        .map(|event| (event.event_type, event.code, event.value))
        .collect()
}

fn device_with_two_contacts() -> InputDevice {
    let mut device = open_device();
    let frame = device
        .reconcile_liveness_frame(Ok(live(
            &[(1, contact(10, 200, 300)), (3, contact(30, 800, 500))],
            3,
            true,
        )))
        .unwrap();
    assert!(frame.reconciled);
    assert_eq!(
        semantics(&frame.events),
        vec![
            (EV_ABS, ABS_MT_SLOT, 1),
            (EV_ABS, ABS_MT_TRACKING_ID, 10),
            (EV_ABS, ABS_MT_POSITION_X, 200),
            (EV_ABS, ABS_MT_POSITION_Y, 300),
            (EV_ABS, ABS_MT_SLOT, 3),
            (EV_ABS, ABS_MT_TRACKING_ID, 30),
            (EV_ABS, ABS_MT_POSITION_X, 800),
            (EV_ABS, ABS_MT_POSITION_Y, 500),
            (EV_ABS, ABS_MT_SLOT, 3),
            (EV_KEY, BTN_TOUCH, 1),
            (EV_SYN, SYN_REPORT, 0),
        ]
    );
    device
}

#[test]
fn a_vanished_contact_is_lifted_while_another_finger_stays() {
    let mut device = device_with_two_contacts();
    let frame = device
        .reconcile_liveness_frame(Ok(live(&[(1, contact(10, 200, 300))], 1, true)))
        .unwrap();

    let gone = ContactId {
        slot: 3,
        tracking_id: 30,
    };
    let kept = ContactId {
        slot: 1,
        tracking_id: 10,
    };
    assert!(!frame.contacts.for_contact(gone).contact);
    assert!(frame.contacts.for_contact(kept).contact);
    assert_eq!(frame.contacts.selected_slot(), Some(1));
    assert_eq!(
        semantics(&frame.events),
        vec![
            (EV_ABS, ABS_MT_SLOT, 3),
            (EV_ABS, ABS_MT_TRACKING_ID, -1),
            (EV_ABS, ABS_MT_SLOT, 1),
            (EV_KEY, BTN_TOUCH, 1),
            (EV_SYN, SYN_REPORT, 0),
        ]
    );
}

#[test]
fn unchanged_contacts_are_not_told_again() {
    let mut device = device_with_two_contacts();
    let frame = device
        .reconcile_liveness_frame(Ok(live(
            &[(1, contact(10, 200, 300)), (3, contact(30, 800, 500))],
            3,
            true,
        )))
        .unwrap();
    assert_eq!(
        semantics(&frame.events),
        vec![
            (EV_ABS, ABS_MT_SLOT, 3),
            (EV_KEY, BTN_TOUCH, 1),
            (EV_SYN, SYN_REPORT, 0),
        ]
    );
}

#[test]
fn contacts_that_cannot_be_read_leave_the_pad_as_it_is() {
    let mut device = device_with_two_contacts();
    let failure = device.reconcile_liveness_frame(Err(IoFailure::other("gone")));
    assert!(matches!(failure, Err(IoFailure { text, .. }) if text == "gone"));
    assert!(device.snapshot().primary().contact);
}

#[test]
fn frames_continue_one_another() {
    let mut device = open_device();
    let frames = device
        .poll_frames(Ok(vec![
            event(EV_KEY, BTN_TOUCH, 1),
            event(EV_ABS, ABS_MT_TRACKING_ID, 7),
            event(EV_ABS, ABS_MT_POSITION_X, 100),
            event(EV_SYN, SYN_REPORT, 0),
            event(EV_ABS, ABS_MT_POSITION_Y, 200),
            event(EV_SYN, SYN_REPORT, 0),
        ]))
        .unwrap();
    assert_eq!(
        frames[0].contacts.primary().pos,
        Some(TouchSample { x: 100, y: 0 })
    );
    assert_eq!(
        frames[1].contacts.primary().pos,
        Some(TouchSample { x: 100, y: 200 })
    );
}
