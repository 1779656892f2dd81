use letsnote_wheelpad::config::Scroll;
use letsnote_wheelpad::fsm::Action;
use letsnote_wheelpad::wheel::{action, is_horizontal, multiplier};

#[test]
fn sensitivity_selects_the_multiplier() {
    let multipliers: Vec<i32> = (-2..=2).map(multiplier).collect();
    assert_eq!(multipliers, vec![10, 14, 20, 28, 40]);
}

#[test]
fn reversing_a_wheel_turns_it_around() {
    let scroll = Scroll::default();
    assert_eq!(action(0, false, &scroll), Action::Nothing);
    assert_eq!(action(0, true, &scroll), Action::Nothing);
    assert_eq!(action(3, false, &scroll), Action::EmitWheelV(-3));
    assert_eq!(action(-3, false, &scroll), Action::EmitWheelV(3));
    assert_eq!(action(3, true, &scroll), Action::EmitWheelH(3));

    let reversed = Scroll {
        reverse_vertical: true,
        reverse_horizontal: true,
        ..scroll
    };
    assert_eq!(action(3, false, &reversed), Action::EmitWheelV(3));
    assert_eq!(action(3, true, &reversed), Action::EmitWheelH(-3));
    assert_eq!(action(-i32::MAX, true, &reversed), Action::EmitWheelH(i32::MAX));
}

#[test]
fn horizontal_scrolling_begins_in_its_directions() {
    let scroll = Scroll::default();
    assert!(!is_horizontal(4, &scroll));
    let enabled = Scroll {
        horizontal_enable: true,
        ..scroll
    };
    let directions: Vec<i32> = (0..16).filter(|at| is_horizontal(*at, &enabled)).collect();
    assert_eq!(directions, vec![2, 3, 4, 5, 6]);
}
