//! From turns of the finger to movements of the wheel.

use vstd::prelude::*;

use crate::config::Scroll;
use crate::fsm::Action;

verus! {

/// How many ticks the wheel moves in a full turn.
pub open spec fn ticks_per_turn(sensitivity: int) -> i32 {
    seq![10i32, 14, 20, 28, 40][sensitivity + 2]
}

/// How many ticks the wheel moves in a full turn.
pub fn multiplier(sensitivity: i32) -> (ticks: i32)
    requires
        -2 <= sensitivity <= 2,
    ensures
        ticks == ticks_per_turn(sensitivity as int),
{
    if sensitivity == -2 {
        10
    } else if sensitivity == -1 {
        14
    } else if sensitivity == 0 {
        20
    } else if sensitivity == 1 {
        28
    } else {
        40
    }
}

/// Whether a gesture that began in `direction` moves the horizontal wheel.
pub open spec fn begins_horizontally(direction: int, scroll: Scroll) -> bool {
    scroll.horizontal_enable && scroll.horizontal_start <= direction <= scroll.horizontal_end
}

/// Whether a gesture that began in `direction` moves the horizontal wheel.
pub fn is_horizontal(direction: i32, scroll: &Scroll) -> (horizontal: bool)
    ensures
        horizontal == begins_horizontally(direction as int, *scroll),
{
    scroll.horizontal_enable && scroll.horizontal_start <= direction && direction
        <= scroll.horizontal_end
}

/// The movement of the wheel for a turn by `ticks`, where positive is clockwise.
/// Clockwise is down and to the right, unless that wheel is reversed.
pub open spec fn movement(ticks: int, horizontal: bool, scroll: Scroll) -> Action {
    if ticks == 0 {
        Action::Nothing
    } else if horizontal {
        Action::EmitWheelH((if scroll.reverse_horizontal { -ticks } else { ticks }) as i32)
    } else {
        Action::EmitWheelV((if scroll.reverse_vertical { ticks } else { -ticks }) as i32)
    }
}

/// The movement of the wheel for a turn by `ticks`, where positive is clockwise.
pub fn action(ticks: i32, horizontal: bool, scroll: &Scroll) -> (action: Action)
    requires
        i32::MIN < ticks,
    ensures
        action == movement(ticks as int, horizontal, *scroll),
{
    if ticks == 0 {
        Action::Nothing
    } else if horizontal {
        Action::EmitWheelH(if scroll.reverse_horizontal { -ticks } else { ticks })
    } else {
        Action::EmitWheelV(if scroll.reverse_vertical { ticks } else { -ticks })
    }
}

/// A turn moves the wheel by as many ticks as it has, and only the wheel that the
/// gesture is for; no turn, no movement. A clockwise turn moves the vertical
/// wheel down and the horizontal wheel to the right.
pub proof fn law_turn_moves_its_wheel(ticks: i32, horizontal: bool, scroll: Scroll)
    requires
        i32::MIN < ticks,
    ensures
        match movement(ticks as int, horizontal, scroll) {
            Action::Nothing => ticks == 0,
            Action::EmitWheelV(moved) => {
                &&& ticks != 0
                &&& !horizontal
                &&& !scroll.reverse_vertical ==> moved == -ticks
                &&& scroll.reverse_vertical ==> moved == ticks
            },
            Action::EmitWheelH(moved) => {
                &&& ticks != 0
                &&& horizontal
                &&& !scroll.reverse_horizontal ==> moved == ticks
                &&& scroll.reverse_horizontal ==> moved == -ticks
            },
        },
{
}

/// Turning back undoes a turn, and reversing a wheel is turning the other way;
/// the other settings do not matter.
pub proof fn law_turning_back_undoes_a_turn(
    ticks: i32,
    horizontal: bool,
    scroll: Scroll,
    other: Scroll,
)
    requires
        i32::MIN < ticks,
    ensures
        match (movement(ticks as int, horizontal, scroll), movement(-ticks, horizontal, scroll)) {
            (Action::Nothing, Action::Nothing) => ticks == 0,
            (Action::EmitWheelV(forth), Action::EmitWheelV(back)) => forth + back == 0,
            (Action::EmitWheelH(forth), Action::EmitWheelH(back)) => forth + back == 0,
            _ => false,
        },
        !horizontal && other.reverse_vertical != scroll.reverse_vertical ==> movement(
            ticks as int,
            horizontal,
            other,
        ) == movement(-ticks, horizontal, scroll),
        horizontal && other.reverse_horizontal != scroll.reverse_horizontal ==> movement(
            ticks as int,
            horizontal,
            other,
        ) == movement(-ticks, horizontal, scroll),
        !horizontal && other.reverse_vertical == scroll.reverse_vertical ==> movement(
            ticks as int,
            horizontal,
            other,
        ) == movement(ticks as int, horizontal, scroll),
        horizontal && other.reverse_horizontal == scroll.reverse_horizontal ==> movement(
            ticks as int,
            horizontal,
            other,
        ) == movement(ticks as int, horizontal, scroll),
{
}

/// A higher sensitivity turns the wheel further, from ten ticks in a turn to four
/// times as many, by twice as many for every two steps.
pub proof fn law_sensitivity_turns_the_wheel_further(lower: int, higher: int)
    requires
        -2 <= lower < higher <= 2,
    ensures
        ticks_per_turn(lower) < ticks_per_turn(higher),
        higher == lower + 2 ==> ticks_per_turn(higher) == 2 * ticks_per_turn(lower),
        ticks_per_turn(-2) == 10 && ticks_per_turn(-1) == 14,
{
}

/// The horizontal wheel is for the directions from the first to the last that are
/// set, both included, and for none while it is disabled.
pub proof fn law_horizontal_directions_are_those_that_are_set(direction: int, scroll: Scroll)
    ensures
        !scroll.horizontal_enable ==> !begins_horizontally(direction, scroll),
        scroll.horizontal_enable ==> (begins_horizontally(direction, scroll) <==> !(direction
            < scroll.horizontal_start) && !(direction > scroll.horizontal_end)),
{
}

} // verus!
