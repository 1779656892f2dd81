use std::f64::consts::PI;

use letsnote_wheelpad::config::Scroll;
use letsnote_wheelpad::evdev::{ContactSnapshot, PhysicalFrame};
use letsnote_wheelpad::event::{
    InputEvent, ABS_MT_POSITION_X, ABS_MT_POSITION_Y, ABS_MT_SLOT, ABS_MT_TRACKING_ID, BTN_TOUCH,
    EV_ABS, EV_KEY, EV_SYN,
};
use letsnote_wheelpad::fsm::{Action, ContactId, FsmState, Gesture, TouchSample};
use letsnote_wheelpad::proxy::FrameProcessor;

const BTN_LEFT: u16 = 0x110;

const CONTACT_A: ContactId = ContactId {
    slot: 2,
    tracking_id: 20,
};
const SLOT_COUNT: usize = 5;

fn angle(sample: TouchSample) -> f64 {
    ((sample.y - 500) as f64).atan2((sample.x - 500) as f64)
}

fn gesture(processor: &FrameProcessor, contacts: &ContactSnapshot, scroll: &Scroll) -> Gesture {
    let Some(pos) = processor.touch(contacts).pos else {
        return Gesture {
            inside_dead_zone: true,
            past_trigger: false,
            wheel: Action::Nothing,
        };
    };
    let radius = ((pos.x - 500) as f64).hypot((pos.y - 500) as f64);
    let past_trigger = match processor.state() {
        FsmState::Moving { engage_start } => (angle(pos) - angle(engage_start)).abs() > PI / 12.0,
        _ => false,
    };
    Gesture {
        inside_dead_zone: radius <= f64::from_bits(scroll.detect_area_radius.bits),
        past_trigger,
        wheel: Action::EmitWheelV(1),
    }
}

struct Harness {
    processor: FrameProcessor,
    routed: Vec<InputEvent>,
    all_routed: Vec<InputEvent>,
}

impl Harness {
    fn new(initial: ContactSnapshot) -> Self {
        Self {
            processor: FrameProcessor::new(&initial),
            routed: Vec::new(),
            all_routed: Vec::new(),
        }
    }

    fn process(
        &mut self,
        contacts: ContactSnapshot,
        events: Vec<InputEvent>,
        reconciled: bool,
    ) -> Action {
        let scroll = Scroll::default();
        let gesture = gesture(&self.processor, &contacts, &scroll);
        let frame = PhysicalFrame::from_parts(contacts, events, reconciled);
        let action = self
            .processor
            .process_frame(&frame, gesture, &scroll, &mut self.routed)
            .unwrap();
        self.all_routed.extend(self.routed.iter().copied());
        action
    }
}

fn empty_snapshot() -> ContactSnapshot {
    ContactSnapshot::from_slot_values(&[(-1, 0, 0); SLOT_COUNT], Some(0), false).unwrap()
}

fn snapshot_a(angle: f64) -> ContactSnapshot {
    let mut slots = [(-1, 0, 0); SLOT_COUNT];
    slots[CONTACT_A.slot] = (
        CONTACT_A.tracking_id,
        500 + (300.0 * angle.cos()).round() as i32,
        500 + (300.0 * angle.sin()).round() as i32,
    );
    ContactSnapshot::from_slot_values(&slots, Some(CONTACT_A.slot), true).unwrap()
}

fn abs(axis: u16, value: i32) -> InputEvent {
    InputEvent::new(EV_ABS, axis, value)
}

fn key(key: u16, value: i32) -> InputEvent {
    InputEvent::new(EV_KEY, key, value)
}

fn frame(mut events: Vec<InputEvent>) -> Vec<InputEvent> {
    events.push(InputEvent::new(EV_SYN, 0, 0));
    events
}

fn start_and_engage(harness: &mut Harness) {
    harness.process(
        snapshot_a(0.0),
        frame(vec![
            key(BTN_TOUCH, 1),
            abs(ABS_MT_SLOT, CONTACT_A.slot as i32),
            abs(ABS_MT_TRACKING_ID, CONTACT_A.tracking_id),
            abs(ABS_MT_POSITION_X, 800),
            abs(ABS_MT_POSITION_Y, 500),
        ]),
        false,
    );
    harness.process(
        snapshot_a(PI / 8.0),
        frame(vec![
            abs(ABS_MT_POSITION_X, 777),
            abs(ABS_MT_POSITION_Y, 615),
        ]),
        false,
    );
    assert!(harness.processor.is_scrolling());
}

#[test]
fn production_processor_suppresses_engagement_position() {
    let mut harness = Harness::new(empty_snapshot());
    start_and_engage(&mut harness);

    assert!(!harness.routed.iter().any(|event| {
        event.event_type == EV_ABS
            && matches!(event.code, ABS_MT_POSITION_X | ABS_MT_POSITION_Y)
    }));
}

#[test]
fn button_pair_and_captured_lift_lifecycle_are_forwarded() {
    let mut harness = Harness::new(empty_snapshot());
    harness.process(
        snapshot_a(0.0),
        frame(vec![
            key(BTN_LEFT, 1),
            key(BTN_TOUCH, 1),
            abs(ABS_MT_SLOT, CONTACT_A.slot as i32),
            abs(ABS_MT_TRACKING_ID, CONTACT_A.tracking_id),
            abs(ABS_MT_POSITION_X, 800),
            abs(ABS_MT_POSITION_Y, 500),
        ]),
        false,
    );
    harness.process(
        snapshot_a(PI / 8.0),
        frame(vec![
            abs(ABS_MT_POSITION_X, 777),
            abs(ABS_MT_POSITION_Y, 615),
        ]),
        false,
    );
    harness.process(
        snapshot_a(PI / 8.0),
        frame(vec![key(BTN_LEFT, 0)]),
        false,
    );
    assert!(harness.processor.is_scrolling());

    harness.process(
        empty_snapshot(),
        frame(vec![
            key(BTN_TOUCH, 0),
            abs(ABS_MT_SLOT, CONTACT_A.slot as i32),
            abs(ABS_MT_TRACKING_ID, -1),
        ]),
        false,
    );

    assert!(matches!(harness.processor.state(), FsmState::Debounce));
    let values = harness
        .all_routed
        .iter()
        .filter(|event| event.event_type == EV_KEY && event.code == BTN_LEFT)
        .map(|event| event.value)
        .collect::<Vec<_>>();
    assert_eq!(values, vec![1, 0]);
    assert!(harness
        .all_routed
        .iter()
        .any(|event| event.code == ABS_MT_TRACKING_ID && event.value == -1));
}

#[test]
fn second_contact_add_move_and_lift_remain_routed() {
    let contact_b = ContactId {
        slot: 0,
        tracking_id: 10,
    };
    let mut harness = Harness::new(empty_snapshot());
    start_and_engage(&mut harness);
    let mut slots = [(-1, 0, 0); SLOT_COUNT];
    slots[CONTACT_A.slot] = (CONTACT_A.tracking_id, 777, 615);
    slots[contact_b.slot] = (contact_b.tracking_id, 200, 300);
    harness.process(
        ContactSnapshot::from_slot_values(&slots, Some(contact_b.slot), true).unwrap(),
        frame(vec![
            abs(ABS_MT_SLOT, contact_b.slot as i32),
            abs(ABS_MT_TRACKING_ID, contact_b.tracking_id),
            abs(ABS_MT_POSITION_X, 200),
            abs(ABS_MT_POSITION_Y, 300),
        ]),
        false,
    );
    slots[contact_b.slot] = (-1, 220, 320);
    harness.process(
        ContactSnapshot::from_slot_values(&slots, Some(contact_b.slot), true).unwrap(),
        frame(vec![
            abs(ABS_MT_POSITION_X, 220),
            abs(ABS_MT_POSITION_Y, 320),
            abs(ABS_MT_TRACKING_ID, -1),
        ]),
        false,
    );

    assert_eq!(harness.processor.tracked_contact(), Some(CONTACT_A));
    assert!(harness.processor.is_scrolling());
    assert!(harness
        .all_routed
        .iter()
        .any(|event| event.code == ABS_MT_POSITION_X && event.value == 220));
}

#[test]
fn lost_sync_forwards_reconstructed_non_captured_positions_while_scrolling() {
    let contact_b = ContactId {
        slot: 0,
        tracking_id: 10,
    };
    let mut harness = Harness::new(empty_snapshot());
    start_and_engage(&mut harness);
    let mut slots = [(-1, 0, 0); SLOT_COUNT];
    slots[CONTACT_A.slot] = (CONTACT_A.tracking_id, 777, 615);
    slots[contact_b.slot] = (contact_b.tracking_id, 200, 300);
    harness.process(
        ContactSnapshot::from_slot_values(&slots, Some(CONTACT_A.slot), true).unwrap(),
        frame(vec![
            abs(ABS_MT_SLOT, contact_b.slot as i32),
            abs(ABS_MT_TRACKING_ID, contact_b.tracking_id),
            abs(ABS_MT_POSITION_X, 200),
            abs(ABS_MT_POSITION_Y, 300),
            abs(ABS_MT_SLOT, CONTACT_A.slot as i32),
        ]),
        false,
    );

    slots[CONTACT_A.slot] = (CONTACT_A.tracking_id, 760, 620);
    slots[contact_b.slot] = (contact_b.tracking_id, 240, 340);
    harness.process(
        ContactSnapshot::from_slot_values(&slots, Some(CONTACT_A.slot), true).unwrap(),
        frame(vec![
            abs(ABS_MT_SLOT, CONTACT_A.slot as i32),
            abs(ABS_MT_POSITION_X, 760),
            abs(ABS_MT_POSITION_Y, 620),
            abs(ABS_MT_SLOT, contact_b.slot as i32),
            abs(ABS_MT_POSITION_X, 240),
            abs(ABS_MT_POSITION_Y, 340),
            abs(ABS_MT_SLOT, CONTACT_A.slot as i32),
        ]),
        true,
    );

    assert!(harness.processor.is_scrolling());
    assert!(harness
        .routed
        .iter()
        .any(|event| event.code == ABS_MT_POSITION_X && event.value == 240));
    assert!(harness
        .routed
        .iter()
        .any(|event| event.code == ABS_MT_POSITION_Y && event.value == 340));
    assert!(!harness.routed.iter().any(|event| {
        matches!(event.value, 760 | 620)
            && matches!(event.code, ABS_MT_POSITION_X | ABS_MT_POSITION_Y)
    }));
}

#[test]
fn same_slot_reuse_is_not_captured() {
    let mut harness = Harness::new(empty_snapshot());
    start_and_engage(&mut harness);
    let mut slots = [(-1, 0, 0); SLOT_COUNT];
    slots[CONTACT_A.slot] = (31, 640, 480);
    harness.process(
        ContactSnapshot::from_slot_values(&slots, Some(CONTACT_A.slot), true).unwrap(),
        frame(vec![
            abs(ABS_MT_SLOT, CONTACT_A.slot as i32),
            abs(ABS_MT_TRACKING_ID, -1),
            abs(ABS_MT_TRACKING_ID, 31),
            abs(ABS_MT_POSITION_X, 640),
            abs(ABS_MT_POSITION_Y, 480),
        ]),
        false,
    );

    assert!(!harness.processor.is_scrolling());
    assert!(harness
        .routed
        .iter()
        .any(|event| event.code == ABS_MT_POSITION_X && event.value == 640));
}

#[test]
fn stationary_captured_contact_survives_liveness_reconciliation() {
    let mut harness = Harness::new(empty_snapshot());
    start_and_engage(&mut harness);
    harness.process(snapshot_a(PI / 8.0), frame(Vec::new()), true);

    assert!(harness.processor.is_scrolling());
    assert_eq!(harness.processor.tracked_contact(), Some(CONTACT_A));
}

#[test]
fn missing_captured_contact_ends_session_during_liveness_reconciliation() {
    let mut harness = Harness::new(empty_snapshot());
    start_and_engage(&mut harness);
    harness.process(
        empty_snapshot(),
        frame(vec![
            abs(ABS_MT_SLOT, CONTACT_A.slot as i32),
            abs(ABS_MT_TRACKING_ID, -1),
            key(BTN_TOUCH, 0),
        ]),
        true,
    );

    assert!(!harness.processor.is_scrolling());
    assert!(harness
        .routed
        .iter()
        .any(|event| event.code == ABS_MT_TRACKING_ID && event.value == -1));
}

#[test]
fn startup_with_active_contact_uses_synchronized_identity() {
    let initial = snapshot_a(0.0);
    let mut harness = Harness::new(initial);
    harness.process(
        snapshot_a(0.0),
        frame(vec![
            abs(ABS_MT_POSITION_X, 800),
            abs(ABS_MT_POSITION_Y, 500),
        ]),
        false,
    );
    harness.process(
        snapshot_a(PI / 8.0),
        frame(vec![
            abs(ABS_MT_POSITION_X, 777),
            abs(ABS_MT_POSITION_Y, 615),
        ]),
        false,
    );

    assert!(harness.processor.is_scrolling());
    assert_eq!(harness.processor.tracked_contact(), Some(CONTACT_A));
}

struct VirtualTypeB {
    current_slot: usize,
    positions: Vec<(i32, i32)>,
}

impl VirtualTypeB {
    fn new(slot_count: usize) -> Self {
        Self {
            current_slot: 0,
            positions: vec![(0, 0); slot_count],
        }
    }

    fn apply(&mut self, events: &[InputEvent]) {
        for event in events {
            if event.event_type != EV_ABS {
                continue;
            }
            match event.code {
                ABS_MT_SLOT => {
                    self.current_slot = usize::try_from(event.value).unwrap();
                }
                ABS_MT_POSITION_X => {
                    self.positions[self.current_slot].0 = event.value;
                }
                ABS_MT_POSITION_Y => {
                    self.positions[self.current_slot].1 = event.value;
                }
                _ => {}
            }
        }
    }
}

#[test]
fn startup_aligns_router_and_virtual_selected_slot_before_position_only_frame() {
    let confirmed = ContactSnapshot::from_slot_values(&[(-1, 0, 0); 4], Some(2), false).unwrap();
    let mut virtual_device = VirtualTypeB::new(confirmed.slot_count());
    let selected = confirmed.selected_slot().unwrap();
    virtual_device.apply(&[abs(ABS_MT_SLOT, selected as i32)]);
    let mut processor = FrameProcessor::new(&confirmed);
    let physical = PhysicalFrame::from_parts(
        confirmed,
        frame(vec![
            abs(ABS_MT_POSITION_X, 700),
            abs(ABS_MT_POSITION_Y, 400),
        ]),
        false,
    );
    let mut routed = Vec::new();

    let scroll = Scroll::default();
    let gesture = gesture(&processor, &physical.contacts, &scroll);
    processor
        .process_frame(&physical, gesture, &scroll, &mut routed)
        .unwrap();
    virtual_device.apply(&routed);

    assert_eq!(processor.router_selected_slot(), Some(2));
    assert_eq!(virtual_device.current_slot, 2);
    assert_eq!(virtual_device.positions[2], (700, 400));
    assert_eq!(virtual_device.positions[0], (0, 0));
}

#[test]
fn frames_outside_a_scroll_pass_unchanged() {
    let mut harness = Harness::new(empty_snapshot());
    let events = vec![
        key(BTN_TOUCH, 1),
        abs(0, 510),
        abs(1, 510),
        abs(ABS_MT_POSITION_X, 510),
    ];
    let mut slots = [(-1, 0, 0); SLOT_COUNT];
    slots[0] = (4, 510, 510);
    let contacts = ContactSnapshot::from_slot_values(&slots, Some(0), true).unwrap();
    let action = harness.process(contacts, frame(events.clone()), false);
    assert_eq!(action, Action::Nothing);
    assert_eq!(harness.routed, events);
    assert_eq!(harness.processor.state(), FsmState::Contact);
}

#[test]
fn cursor_rests_and_wheel_moves_while_scrolling() {
    let mut harness = Harness::new(empty_snapshot());
    start_and_engage(&mut harness);
    let action = harness.process(
        snapshot_a(PI / 4.0),
        frame(vec![abs(0, 712), abs(1, 712), abs(ABS_MT_POSITION_X, 712)]),
        false,
    );
    assert_eq!(action, Action::EmitWheelV(1));
    assert!(harness.routed.is_empty());
}

#[test]
fn reconciled_contacts_replace_what_events_say() {
    let mut harness = Harness::new(empty_snapshot());
    let mut slots = [(-1, 0, 0); SLOT_COUNT];
    slots[3] = (8, 1, 1);
    let contacts = ContactSnapshot::from_slot_values(&slots, Some(3), true).unwrap();
    harness.process(contacts, frame(vec![abs(ABS_MT_SLOT, 1)]), false);
    assert_eq!(harness.processor.router_selected_slot(), Some(1));
    harness.process(contacts, frame(vec![abs(ABS_MT_SLOT, 1)]), true);
    assert_eq!(harness.processor.router_selected_slot(), Some(3));
}
