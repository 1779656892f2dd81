//! Input events and the event codes that the library reads.

use vstd::prelude::*;

verus! {

/// Event type of synchronization events.
pub const EV_SYN: u16 = 0x00;

/// Event type of keys and buttons.
pub const EV_KEY: u16 = 0x01;

/// Event type of absolute axes.
pub const EV_ABS: u16 = 0x03;

/// Synchronization code that ends a frame.
pub const SYN_REPORT: u16 = 0;

/// Key code that is down while any finger touches the pad.
pub const BTN_TOUCH: u16 = 0x14a;

/// Horizontal position of the primary contact.
pub const ABS_X: u16 = 0x00;

/// Vertical position of the primary contact.
pub const ABS_Y: u16 = 0x01;

/// Selects the slot that the following multi-touch events describe.
pub const ABS_MT_SLOT: u16 = 0x2f;

/// Horizontal position of the selected contact.
pub const ABS_MT_POSITION_X: u16 = 0x35;

/// Vertical position of the selected contact.
pub const ABS_MT_POSITION_Y: u16 = 0x36;

/// Identity of the contact in the selected slot.
pub const ABS_MT_TRACKING_ID: u16 = 0x39;

/// The tracking id of a slot without a contact.
pub const INACTIVE_TRACKING_ID: i32 = -1;

/// One event of an input device.
#[derive(Clone, Copy, Debug, PartialEq, Eq, Structural)]
pub struct InputEvent {
    /// Seconds of the time at which the event was reported.
    pub seconds: i64,
    /// Microseconds of that time.
    pub microseconds: i64,
    pub event_type: u16,
    pub code: u16,
    pub value: i32,
}

impl InputEvent {
    /// An event without a time.
    pub fn new(event_type: u16, code: u16, value: i32) -> (event: InputEvent)
        ensures
            event == (InputEvent { seconds: 0, microseconds: 0, event_type, code, value }),
    {
        InputEvent { seconds: 0, microseconds: 0, event_type, code, value }
    }

    /// Whether the event ends a frame.
    pub open spec fn ends_frame(self) -> bool {
        self.event_type == EV_SYN && self.code == SYN_REPORT
    }

    /// Whether the event reports the absolute axis `axis`.
    pub open spec fn is_axis(self, axis: u16) -> bool {
        self.event_type == EV_ABS && self.code == axis
    }

    /// Whether the event reports the position of the primary contact.
    pub open spec fn is_primary_position(self) -> bool {
        self.is_axis(ABS_X) || self.is_axis(ABS_Y)
    }

    /// Whether the event reports the position of the contact in the selected slot.
    pub open spec fn is_slot_position(self) -> bool {
        self.is_axis(ABS_MT_POSITION_X) || self.is_axis(ABS_MT_POSITION_Y)
    }

    /// Whether the event reports a position at all.
    pub open spec fn is_position(self) -> bool {
        self.is_primary_position() || self.is_slot_position()
    }

    /// Whether the event ends a frame.
    pub fn is_report(&self) -> (result: bool)
        ensures
            result == self.ends_frame(),
    {
        self.event_type == EV_SYN && self.code == SYN_REPORT
    }
}

/// The codes are those of the input event interface of Linux.
pub proof fn law_codes_are_those_of_the_interface()
    ensures
        EV_SYN == 0x00 && EV_KEY == 0x01 && EV_ABS == 0x03,
        SYN_REPORT == 0 && BTN_TOUCH == 0x14a,
        ABS_X == 0x00 && ABS_Y == 0x01,
        ABS_MT_SLOT == 0x2f && ABS_MT_POSITION_X == 0x35 && ABS_MT_POSITION_Y == 0x36,
        ABS_MT_TRACKING_ID == 0x39,
        INACTIVE_TRACKING_ID == -1,
{
}

/// An event is of exactly the kind that its type and its code say, whatever its
/// value and its time are: a report, a position of the primary contact, a
/// position in a slot, or something else.
pub proof fn law_kinds_go_by_type_and_code(event: InputEvent)
    ensures
        event.ends_frame() <==> event.event_type == 0 && event.code == 0,
        event.is_primary_position() <==> event.event_type == 3 && (event.code == 0 || event.code
            == 1),
        event.is_slot_position() <==> event.event_type == 3 && (event.code == 0x35 || event.code
            == 0x36),
        event.is_position() <==> event.is_primary_position() || event.is_slot_position(),
        forall|axis: u16| #[trigger]
            event.is_axis(axis) <==> event.event_type == 3 && event.code == axis,
{
}

} // verus!
