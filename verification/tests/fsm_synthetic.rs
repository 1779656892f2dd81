use std::f64::consts::PI;

use letsnote_wheelpad::config::Scroll;
use letsnote_wheelpad::fsm::{Action, Fsm, FsmState, Gesture, TouchFrame, TouchSample};

const CENTER: i32 = 500;

fn default_scroll() -> Scroll {
    Scroll::default()
}

fn lift() -> TouchFrame {
    TouchFrame {
        contact: false,
        pos: None,
        contact_id: None,
    }
}

fn touch(x: i32, y: i32) -> TouchFrame {
    TouchFrame {
        contact: true,
        pos: Some(TouchSample { x, y }),
        contact_id: None,
    }
}

fn angle(sample: TouchSample) -> f64 {
    ((sample.y - CENTER) as f64).atan2((sample.x - CENTER) as f64)
}

fn gesture(state: FsmState, frame: &TouchFrame, scroll: &Scroll) -> Gesture {
    let Some(pos) = frame.pos else {
        return Gesture {
            inside_dead_zone: true,
            past_trigger: false,
            wheel: Action::Nothing,
        };
    };
    let radius = ((pos.x - CENTER) as f64).hypot((pos.y - CENTER) as f64);
    let past_trigger = match state {
        FsmState::Moving { engage_start } => (angle(pos) - angle(engage_start)).abs() > PI / 12.0,
        _ => false,
    };
    Gesture {
        inside_dead_zone: radius <= f64::from_bits(scroll.detect_area_radius.bits),
        past_trigger,
        wheel: Action::EmitWheelV(1),
    }
}

fn drive(fsm: &mut Fsm, scroll: &Scroll, frames: &[TouchFrame]) -> Vec<Action> {
    let mut acc = Vec::new();
    for f in frames {
        let gesture = gesture(fsm.state(), f, scroll);
        let action = fsm.step(*f, gesture, scroll.enable);
        if !matches!(action, Action::Nothing) {
            acc.push(action);
        }
    }
    acc
}

fn swept(theta: f64) -> TouchFrame {
    touch(
        500 + (220.0 * theta.cos()).round() as i32,
        500 + (220.0 * theta.sin()).round() as i32,
    )
}

#[test]
fn idle_to_contact_on_touchdown_inside_dead_zone() {
    let mut fsm = Fsm::new();
    let scroll = default_scroll();
    let _ = drive(&mut fsm, &scroll, &[touch(510, 510)]);
    assert!(matches!(fsm.state(), FsmState::Contact { .. }));
}

#[test]
fn idle_to_moving_on_touchdown_outside_dead_zone() {
    let mut fsm = Fsm::new();
    let scroll = default_scroll();
    let _ = drive(&mut fsm, &scroll, &[touch(720, 500)]);
    assert!(matches!(fsm.state(), FsmState::Moving { .. }));
}

#[test]
fn contact_to_idle_on_lift() {
    let mut fsm = Fsm::new();
    let scroll = default_scroll();
    drive(&mut fsm, &scroll, &[touch(510, 510), lift()]);
    assert!(matches!(fsm.state(), FsmState::Idle));
}

#[test]
fn contact_does_not_engage_on_cross_gate_movement_d020() {
    let mut fsm = Fsm::new();
    let scroll = default_scroll();
    drive(
        &mut fsm,
        &scroll,
        &[touch(510, 510), touch(550, 500), touch(720, 500)],
    );
    assert!(
        matches!(fsm.state(), FsmState::Contact { .. }),
        "expected to stay in Contact, got {:?}",
        fsm.state()
    );
}

#[test]
fn moving_to_idle_on_lift_before_engagement() {
    let mut fsm = Fsm::new();
    let scroll = default_scroll();
    drive(&mut fsm, &scroll, &[touch(720, 500), lift()]);
    assert!(matches!(fsm.state(), FsmState::Idle));
}

#[test]
fn moving_to_contact_on_slip_back_into_dead_zone() {
    let mut fsm = Fsm::new();
    let scroll = default_scroll();
    drive(&mut fsm, &scroll, &[touch(720, 500), touch(550, 500)]);
    assert!(matches!(fsm.state(), FsmState::Contact { .. }));
}

#[test]
fn moving_to_scrolling_on_swept_angle_past_trigger() {
    let mut fsm = Fsm::new();
    let scroll = default_scroll();
    drive(&mut fsm, &scroll, &[touch(720, 500), swept(PI / 8.0)]);
    assert!(matches!(fsm.state(), FsmState::Scrolling));
}

#[test]
fn moving_stays_below_the_trigger() {
    let mut fsm = Fsm::new();
    let scroll = default_scroll();
    drive(&mut fsm, &scroll, &[touch(720, 500), swept(PI / 16.0)]);
    assert_eq!(
        fsm.state(),
        FsmState::Moving {
            engage_start: TouchSample { x: 720, y: 500 }
        }
    );
}

#[test]
fn scrolling_to_debounce_on_lift() {
    let mut fsm = Fsm::new();
    let scroll = default_scroll();
    drive(&mut fsm, &scroll, &[touch(720, 500), swept(PI / 8.0)]);
    assert!(matches!(fsm.state(), FsmState::Scrolling));

    drive(&mut fsm, &scroll, &[lift()]);
    assert!(matches!(fsm.state(), FsmState::Debounce));
}

#[test]
fn force_idle_resets_state() {
    let mut fsm = Fsm::new();
    let scroll = default_scroll();
    drive(&mut fsm, &scroll, &[touch(720, 500), swept(PI / 8.0)]);
    assert!(matches!(fsm.state(), FsmState::Scrolling));

    fsm.force_idle();
    assert!(matches!(fsm.state(), FsmState::Idle));
}

#[test]
fn debounce_to_idle_on_next_frame_no_timer() {
    let mut fsm = Fsm::new();
    let scroll = default_scroll();
    drive(&mut fsm, &scroll, &[touch(720, 500), swept(PI / 8.0), lift()]);
    assert!(matches!(fsm.state(), FsmState::Debounce));

    drive(&mut fsm, &scroll, &[lift()]);
    assert!(matches!(fsm.state(), FsmState::Idle));
}

#[test]
fn debounce_to_idle_even_if_finger_back_down() {
    let mut fsm = Fsm::new();
    let scroll = default_scroll();
    drive(&mut fsm, &scroll, &[touch(720, 500), swept(PI / 8.0), lift()]);
    assert!(matches!(fsm.state(), FsmState::Debounce));

    drive(&mut fsm, &scroll, &[touch(720, 500)]);
    assert!(matches!(fsm.state(), FsmState::Idle));
}

#[test]
fn disabled_scroll_holds_idle() {
    let mut fsm = Fsm::new();
    let mut scroll = default_scroll();
    scroll.enable = false;
    drive(
        &mut fsm,
        &scroll,
        &[touch(720, 500), touch(700, 520), lift()],
    );
    assert!(matches!(fsm.state(), FsmState::Idle));
}

#[test]
fn wheel_moves_only_while_scrolling() {
    let mut fsm = Fsm::new();
    let scroll = default_scroll();
    let engaging = drive(&mut fsm, &scroll, &[touch(720, 500), swept(PI / 8.0)]);
    assert!(engaging.is_empty());
    let turning = drive(&mut fsm, &scroll, &[swept(PI / 4.0), swept(PI / 2.0)]);
    assert_eq!(turning, vec![Action::EmitWheelV(1), Action::EmitWheelV(1)]);
    let ending = drive(&mut fsm, &scroll, &[lift(), touch(720, 500)]);
    assert!(ending.is_empty());
    assert_eq!(fsm.contact_id(), None);
}
