use letsnote_wheelpad::evdev::{FrameState, SlotState};
use letsnote_wheelpad::event::{
    InputEvent, ABS_MT_POSITION_X, ABS_MT_POSITION_Y, ABS_MT_SLOT, ABS_MT_TRACKING_ID, ABS_X,
    ABS_Y, BTN_TOUCH, EV_ABS, EV_KEY, EV_SYN,
};
use letsnote_wheelpad::fsm::ContactId;
use letsnote_wheelpad::router::{Router, RoutingMode};
use letsnote_wheelpad::MAX_MT_SLOTS;

const EV_MSC: u16 = 0x04;
const MSC_TIMESTAMP: u16 = 0x05;
const BTN_LEFT: u16 = 0x110;
const BTN_RIGHT: u16 = 0x111;
const BTN_TOOL_FINGER: u16 = 0x145;
const ABS_MT_TOUCH_MAJOR: u16 = 0x30;
const ABS_MT_ORIENTATION: u16 = 0x34;
const ABS_MT_PRESSURE: u16 = 0x3a;

const CAPTURED: ContactId = ContactId {
    slot: 2,
    tracking_id: 20,
};

fn abs(axis: u16, value: i32) -> InputEvent {
    InputEvent::new(EV_ABS, axis, value)
}

fn key(key: u16, value: i32) -> InputEvent {
    InputEvent::new(EV_KEY, key, value)
}

fn syn() -> InputEvent {
    InputEvent::new(EV_SYN, 0, 0)
}

fn with_report(mut events: Vec<InputEvent>) -> Vec<InputEvent> {
    events.push(syn());
    events
}

fn restore_report(events: &[InputEvent]) -> Vec<InputEvent> {
    with_report(events.to_vec())
}

fn semantics(events: &[InputEvent]) -> Vec<(u16, u16, i32)> {
    events
        .iter()
        .map(|event| (event.event_type, event.code, event.value))
        .collect()
}

#[test]
fn passthrough_preserves_semantics_order_and_report_boundary() {
    let input = vec![
        key(BTN_LEFT, 1),
        abs(ABS_MT_SLOT, 2),
        abs(ABS_MT_TRACKING_ID, 20),
        abs(ABS_MT_POSITION_X, 700),
        abs(ABS_MT_POSITION_Y, 500),
        abs(ABS_MT_PRESSURE, 50),
        InputEvent::new(EV_MSC, MSC_TIMESTAMP, 123),
        key(BTN_LEFT, 0),
        syn(),
    ];
    let mut router = Router::new();
    let mut output = Vec::new();

    router.route_frame(&input, RoutingMode::Passthrough, &mut output);

    assert_eq!(semantics(&restore_report(&output)), semantics(&input));
}

#[test]
fn capture_suppresses_only_captured_mt_position_and_primary_mirror() {
    let input = vec![
        abs(ABS_X, 777),
        abs(ABS_Y, 555),
        abs(ABS_MT_SLOT, 2),
        abs(ABS_MT_TRACKING_ID, 20),
        abs(ABS_MT_POSITION_X, 700),
        abs(ABS_MT_POSITION_Y, 500),
        abs(ABS_MT_PRESSURE, 60),
        abs(ABS_MT_TOUCH_MAJOR, 30),
        abs(ABS_MT_ORIENTATION, 1),
        abs(ABS_MT_SLOT, 4),
        abs(ABS_MT_POSITION_X, 300),
        abs(ABS_MT_POSITION_Y, 400),
        syn(),
    ];
    let expected = vec![
        abs(ABS_MT_SLOT, 2),
        abs(ABS_MT_TRACKING_ID, 20),
        abs(ABS_MT_PRESSURE, 60),
        abs(ABS_MT_TOUCH_MAJOR, 30),
        abs(ABS_MT_ORIENTATION, 1),
        abs(ABS_MT_SLOT, 4),
        abs(ABS_MT_POSITION_X, 300),
        abs(ABS_MT_POSITION_Y, 400),
    ];
    let mut router = Router::new();
    let mut output = Vec::new();

    router.route_frame(&input, RoutingMode::Capture(CAPTURED), &mut output);

    assert_eq!(semantics(&output), semantics(&expected));
}

#[test]
fn selected_slot_context_survives_report_boundaries() {
    let mut router = Router::new();
    let mut output = Vec::new();
    router.route_frame(
        &with_report(vec![abs(ABS_MT_SLOT, 2), abs(ABS_MT_TRACKING_ID, 20)]),
        RoutingMode::Passthrough,
        &mut output,
    );

    router.route_frame(
        &with_report(vec![
            abs(ABS_MT_POSITION_X, 701),
            abs(ABS_MT_POSITION_Y, 501),
        ]),
        RoutingMode::Capture(CAPTURED),
        &mut output,
    );

    assert!(output.is_empty());
}

#[test]
fn capture_never_suppresses_buttons_or_tracking_lifecycle() {
    let input = with_report(vec![
        key(BTN_LEFT, 1),
        key(BTN_RIGHT, 1),
        key(BTN_TOUCH, 0),
        key(BTN_TOOL_FINGER, 0),
        abs(ABS_MT_SLOT, 2),
        abs(ABS_MT_TRACKING_ID, -1),
        key(BTN_LEFT, 0),
        key(BTN_RIGHT, 0),
    ]);
    let expected = input[..input.len() - 1].to_vec();
    let mut router = Router::new();
    let mut output = Vec::new();

    router.route_frame(&input, RoutingMode::Capture(CAPTURED), &mut output);

    assert_eq!(semantics(&output), semantics(&expected));
}

#[test]
fn reused_captured_slot_forwards_the_new_contacts_initial_position() {
    let input = with_report(vec![
        abs(ABS_MT_SLOT, CAPTURED.slot as i32),
        abs(ABS_MT_TRACKING_ID, -1),
        abs(ABS_MT_TRACKING_ID, 31),
        abs(ABS_MT_POSITION_X, 640),
        abs(ABS_MT_POSITION_Y, 480),
    ]);
    let expected = input[..input.len() - 1].to_vec();
    let mut router = Router::new();
    let mut output = Vec::new();
    router.route_frame(
        &with_report(vec![
            abs(ABS_MT_SLOT, CAPTURED.slot as i32),
            abs(ABS_MT_TRACKING_ID, CAPTURED.tracking_id),
        ]),
        RoutingMode::Passthrough,
        &mut output,
    );

    router.route_frame(&input, RoutingMode::Capture(CAPTURED), &mut output);

    assert_eq!(semantics(&output), semantics(&expected));
}

#[test]
fn cursor_mirror_resumes_after_capture() {
    let mut router = Router::new();
    let mut output = Vec::new();
    let mirror = with_report(vec![abs(ABS_X, 710), abs(ABS_Y, 510)]);

    router.route_frame(&mirror, RoutingMode::Capture(CAPTURED), &mut output);
    assert!(output.is_empty());

    router.route_frame(&mirror, RoutingMode::Passthrough, &mut output);
    assert_eq!(semantics(&output), semantics(&mirror[..mirror.len() - 1]));
}

#[test]
fn untracked_and_negative_slots_do_not_disturb_the_context() {
    let mut router = Router::new();
    let mut output = Vec::new();
    let select = [
        abs(ABS_MT_SLOT, 2),
        abs(ABS_MT_TRACKING_ID, 20),
        abs(ABS_MT_SLOT, -1),
    ];
    router.route_frame(&select, RoutingMode::Passthrough, &mut output);
    assert_eq!(router.selected_slot(), Some(2));
    let move_away = [abs(ABS_MT_SLOT, 99), abs(ABS_MT_TRACKING_ID, 7)];
    router.route_frame(&move_away, RoutingMode::Passthrough, &mut output);
    assert_eq!(router.selected_slot(), Some(99));
    let back = [abs(ABS_MT_SLOT, 2), abs(ABS_MT_POSITION_X, 5)];
    router.route_frame(&back, RoutingMode::Capture(CAPTURED), &mut output);
    assert_eq!(output, vec![abs(ABS_MT_SLOT, 2)]);
}

#[test]
fn routing_frame_by_frame_equals_routing_at_once() {
    let first = with_report(vec![
        abs(ABS_MT_SLOT, 2),
        abs(ABS_MT_TRACKING_ID, 20),
        abs(ABS_MT_POSITION_X, 1),
    ]);
    let second = with_report(vec![abs(ABS_MT_POSITION_Y, 2), key(BTN_LEFT, 1)]);
    let whole = [first.clone(), second.clone()].concat();
    let mode = RoutingMode::Capture(CAPTURED);

    let mut at_once = Vec::new();
    Router::new().route_frame(&whole, mode, &mut at_once);

    let mut router = Router::new();
    let mut parts = Vec::new();
    let mut output = Vec::new();
    router.route_frame(&first, mode, &mut output);
    parts.extend(output.iter().copied());
    router.route_frame(&second, mode, &mut output);
    parts.extend(output.iter().copied());

    assert_eq!(parts, at_once);
    assert_eq!(at_once.len(), 3);
}

#[test]
fn times_are_forwarded() {
    let event = InputEvent {
        seconds: 12,
        microseconds: 34,
        event_type: EV_KEY,
        code: BTN_LEFT,
        value: 1,
    };
    let mut output = Vec::new();
    Router::new().route_frame(&[event], RoutingMode::default(), &mut output);
    assert_eq!(output, vec![event]);
}

fn read(pad: &mut FrameState, events: &[InputEvent]) {
    for event in events {
        if event.event_type == EV_ABS {
            pad.apply_abs(event.code, event.value);
        }
    }
}

#[test]
fn virtual_pad_shows_all_but_the_captured_contact() {
    let events = with_report(vec![
        abs(ABS_MT_POSITION_X, 701),
        abs(ABS_MT_POSITION_Y, 501),
        abs(ABS_MT_SLOT, 4),
        abs(ABS_MT_TRACKING_ID, 40),
        abs(ABS_MT_POSITION_X, 300),
        abs(ABS_MT_POSITION_Y, 400),
        abs(ABS_MT_SLOT, 2),
        abs(ABS_MT_POSITION_X, 702),
    ]);
    let mut slots = [SlotState {
        tracking_id: -1,
        x: 0,
        y: 0,
    }; MAX_MT_SLOTS];
    slots[CAPTURED.slot] = SlotState {
        tracking_id: CAPTURED.tracking_id,
        x: 700,
        y: 500,
    };
    let mut pad = FrameState {
        slots,
        current_slot: CAPTURED.slot,
        contact: true,
    };
    let mut shown = pad;
    let mut router = Router::from_snapshot(&pad.snapshot());
    let mut output = Vec::new();

    router.route_frame(&events, RoutingMode::Capture(CAPTURED), &mut output);
    read(&mut pad, &events);
    read(&mut shown, &output);

    assert_eq!(pad.slots[CAPTURED.slot].x, 702);
    assert_eq!(shown.slots[CAPTURED.slot], slots[CAPTURED.slot]);
    assert_eq!(
        shown.slots[4],
        SlotState {
            tracking_id: 40,
            x: 300,
            y: 400
        }
    );
    assert_eq!(shown.current_slot, pad.current_slot);
    for slot in 0..MAX_MT_SLOTS {
        assert_eq!(shown.slots[slot].tracking_id, pad.slots[slot].tracking_id);
        if slot != CAPTURED.slot {
            assert_eq!(shown.slots[slot], pad.slots[slot]);
        }
    }
}
