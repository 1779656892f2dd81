//! The physical touchpad: what it can do, and what its events say of the
//! contacts on it.

use std::path::PathBuf;

use vstd::prelude::*;

use crate::error::{Error, IoFailure, Result};
use crate::event::{
    InputEvent, ABS_MT_POSITION_X, ABS_MT_POSITION_Y, ABS_MT_SLOT, ABS_MT_TRACKING_ID, BTN_TOUCH,
    EV_ABS, EV_KEY, EV_SYN, INACTIVE_TRACKING_ID, SYN_REPORT,
};
use crate::fsm::{ContactId, TouchFrame, TouchSample};
use crate::pattern::{compile, is_match, regex_is_match, regex_new};
use crate::search::{
    first_where, law_first_where, lemma_first_where_agrees, lemma_first_where_of_prefix,
};
use crate::MAX_MT_SLOTS;

verus! {

/// What was last reported for one slot.
#[derive(Clone, Copy, Debug, PartialEq, Eq, Structural)]
pub struct SlotState {
    /// The contact in the slot; [`INACTIVE_TRACKING_ID`] if there is none.
    pub tracking_id: i32,
    pub x: i32,
    pub y: i32,
}

impl SlotState {
    /// Whether the slot holds a contact.
    pub open spec fn active(self) -> bool {
        self.tracking_id != INACTIVE_TRACKING_ID
    }

    /// The position in the slot.
    pub open spec fn sample(self) -> TouchSample {
        TouchSample { x: self.x, y: self.y }
    }
}

/// The contacts on the pad at the end of a frame.
#[verifier::ext_equal]
pub struct Contacts {
    pub slots: Seq<SlotState>,
    /// How many of the slots the pad has.
    pub slot_count: usize,
    /// The slot that was selected last.
    pub selected_slot: Option<usize>,
    /// Whether any finger is down.
    pub contact: bool,
}

/// Whether a slot holds a contact.
pub open spec fn is_active() -> spec_fn(SlotState) -> bool {
    |slot: SlotState| slot.active()
}

impl Contacts {
    /// The tracking id in each slot.
    pub open spec fn tracking_ids(self) -> Seq<i32> {
        Seq::new(self.slots.len(), |i: int| self.slots[i].tracking_id)
    }

    /// The frame of the contact in the lowest slot that holds one, while a
    /// finger is down.
    pub open spec fn primary(self) -> TouchFrame {
        match first_where(self.slots, is_active()) {
            Some(index) if self.contact => TouchFrame {
                contact: true,
                pos: Some(self.slots[index].sample()),
                contact_id: Some(
                    ContactId {
                        slot: index as usize,
                        tracking_id: self.slots[index].tracking_id,
                    },
                ),
            },
            _ => TouchFrame { contact: false, pos: None, contact_id: None },
        }
    }

    /// Whether the contact `id` is on the pad.
    pub open spec fn holds(self, id: ContactId) -> bool {
        &&& self.contact
        &&& id.slot < self.slots.len()
        &&& self.slots[id.slot as int].tracking_id == id.tracking_id
    }

    /// The frame of the contact `id`, which is lifted if the contact is gone.
    pub open spec fn for_contact(self, id: ContactId) -> TouchFrame {
        if self.holds(id) {
            TouchFrame {
                contact: true,
                pos: Some(self.slots[id.slot as int].sample()),
                contact_id: Some(id),
            }
        } else {
            TouchFrame { contact: false, pos: None, contact_id: Some(id) }
        }
    }
}

/// The state that the events of the pad describe.
#[verifier::ext_equal]
pub struct PadState {
    pub slots: Seq<SlotState>,
    /// The slot that is selected.
    pub current_slot: usize,
    /// Whether any finger is down.
    pub contact: bool,
}

impl PadState {
    /// The state before any event: no slot holds a contact, the first slot is
    /// selected, and no finger is down.
    pub open spec fn unknown() -> PadState {
        PadState {
            slots: Seq::new(
                MAX_MT_SLOTS as nat,
                |i: int| SlotState { tracking_id: INACTIVE_TRACKING_ID, x: 0, y: 0 },
            ),
            current_slot: 0,
            contact: false,
        }
    }

    /// The state with the selected slot replaced, if that slot is tracked.
    pub open spec fn with_slot(self, slot: SlotState) -> PadState {
        if self.current_slot < self.slots.len() {
            PadState { slots: self.slots.update(self.current_slot as int, slot), ..self }
        } else {
            self
        }
    }

    /// The state after the axis `code` has reported `value`. A slot that is not
    /// tracked cannot be selected, and other axes than those of multi-touch
    /// contacts are ignored.
    pub open spec fn after_axis(self, code: u16, value: i32) -> PadState {
        let slot = self.slots[self.current_slot as int];
        if code == ABS_MT_SLOT {
            if 0 <= value < MAX_MT_SLOTS {
                PadState { current_slot: value as usize, ..self }
            } else {
                self
            }
        } else if code == ABS_MT_TRACKING_ID {
            self.with_slot(SlotState { tracking_id: value, ..slot })
        } else if code == ABS_MT_POSITION_X {
            self.with_slot(SlotState { x: value, ..slot })
        } else if code == ABS_MT_POSITION_Y {
            self.with_slot(SlotState { y: value, ..slot })
        } else {
            self
        }
    }

    /// The state after `event`.
    pub open spec fn after(self, event: InputEvent) -> PadState {
        if event.event_type == EV_ABS {
            self.after_axis(event.code, event.value)
        } else if event.event_type == EV_KEY && event.code == BTN_TOUCH {
            PadState { contact: event.value != 0, ..self }
        } else {
            self
        }
    }

    /// The state after all of `events`.
    pub open spec fn after_all(self, events: Seq<InputEvent>) -> PadState
        decreases events.len(),
    {
        if events.len() == 0 {
            self
        } else {
            self.after_all(events.drop_last()).after(events.last())
        }
    }

    /// The contacts in this state.
    pub open spec fn contacts(self) -> Contacts {
        Contacts {
            slots: self.slots,
            slot_count: MAX_MT_SLOTS,
            selected_slot: Some(self.current_slot),
            contact: self.contact,
        }
    }
}

/// The state of the pad as its events describe it.
#[derive(Clone, Copy, Debug)]
pub struct FrameState {
    pub slots: [SlotState; MAX_MT_SLOTS],
    pub current_slot: usize,
    pub contact: bool,
}

impl View for FrameState {
    type V = PadState;

    open spec fn view(&self) -> PadState {
        PadState {
            slots: self.slots@,
            current_slot: self.current_slot,
            contact: self.contact,
        }
    }
}

impl FrameState {
    /// Takes the value that the axis `code` has reported.
    pub fn apply_abs(&mut self, code: u16, value: i32)
        ensures
            final(self)@ == old(self)@.after_axis(code, value),
    {
        let slot = self.current_slot;
        if code == ABS_MT_SLOT {
            if value >= 0 && (value as usize) < MAX_MT_SLOTS {
                self.current_slot = value as usize;
            }
        } else if slot < MAX_MT_SLOTS {
            let state = self.slots[slot];
            if code == ABS_MT_TRACKING_ID {
                self.slots[slot] = SlotState { tracking_id: value, ..state };
            } else if code == ABS_MT_POSITION_X {
                self.slots[slot] = SlotState { x: value, ..state };
            } else if code == ABS_MT_POSITION_Y {
                self.slots[slot] = SlotState { y: value, ..state };
            }
        }
        assert(self@ =~= old(self)@.after_axis(code, value));
    }

    /// Takes an event of the pad.
    fn apply(&mut self, event: &InputEvent)
        ensures
            final(self)@ == old(self)@.after(*event),
    {
        if event.event_type == EV_ABS {
            self.apply_abs(event.code, event.value);
        } else if event.event_type == EV_KEY && event.code == BTN_TOUCH {
            self.contact = event.value != 0;
        }
    }

    /// The contacts on the pad.
    pub fn snapshot(&self) -> (contacts: ContactSnapshot)
        ensures
            contacts@ == self@.contacts(),
    {
        ContactSnapshot {
            slots: self.slots,
            slot_count: MAX_MT_SLOTS,
            selected_slot: Some(self.current_slot),
            contact: self.contact,
        }
    }
}

/// The contacts on the pad at the end of a frame.
#[derive(Clone, Copy, Debug)]
pub struct ContactSnapshot {
    slots: [SlotState; MAX_MT_SLOTS],
    slot_count: usize,
    selected_slot: Option<usize>,
    contact: bool,
}

impl View for ContactSnapshot {
    type V = Contacts;

    closed spec fn view(&self) -> Contacts {
        Contacts {
            slots: self.slots@,
            slot_count: self.slot_count,
            selected_slot: self.selected_slot,
            contact: self.contact,
        }
    }
}

/// Whether there are slots for all of `values`, and a value for the selected slot.
pub open spec fn fits(values: Seq<(i32, i32, i32)>, selected_slot: Option<usize>) -> bool {
    values.len() <= MAX_MT_SLOTS && (selected_slot matches Some(slot) ==> slot < values.len())
}

/// The contacts with the given tracking ids and positions in the first slots.
pub open spec fn contacts_of(
    values: Seq<(i32, i32, i32)>,
    selected_slot: Option<usize>,
    contact: bool,
) -> Contacts {
    Contacts {
        slots: Seq::new(
            MAX_MT_SLOTS as nat,
            |i: int|
                if i < values.len() {
                    SlotState { tracking_id: values[i].0, x: values[i].1, y: values[i].2 }
                } else {
                    SlotState { tracking_id: INACTIVE_TRACKING_ID, x: 0, y: 0 }
                },
        ),
        slot_count: values.len() as usize,
        selected_slot,
        contact,
    }
}

impl ContactSnapshot {
    /// The contacts with the given tracking ids and positions in the first
    /// slots; the other slots hold none. There is no such snapshot if there are
    /// more values than slots, or if the selected slot has no value.
    pub fn from_slot_values(
        values: &[(i32, i32, i32)],
        selected_slot: Option<usize>,
        contact: bool,
    ) -> (snapshot: Option<ContactSnapshot>)
        ensures
            snapshot is None <==> !fits(values@, selected_slot),
            snapshot matches Some(contacts) ==> contacts@ == contacts_of(
                values@,
                selected_slot,
                contact,
            ),
    {
        if values.len() > MAX_MT_SLOTS {
            return None;
        }
        if let Some(slot) = selected_slot {
            if slot >= values.len() {
                return None;
            }
        }
        let mut slots = [SlotState { tracking_id: INACTIVE_TRACKING_ID, x: 0, y: 0 };
            MAX_MT_SLOTS];
        let mut index: usize = 0;
        while index < values.len()
            invariant
                index <= values@.len() <= MAX_MT_SLOTS,
                forall|i: int|
                    0 <= i < MAX_MT_SLOTS ==> #[trigger] slots@[i] == (if i < index {
                        SlotState {
                            tracking_id: values@[i].0,
                            x: values@[i].1,
                            y: values@[i].2,
                        }
                    } else {
                        SlotState { tracking_id: INACTIVE_TRACKING_ID, x: 0, y: 0 }
                    }),
            decreases values@.len() - index,
        {
            let (tracking_id, x, y) = values[index];
            slots[index] = SlotState { tracking_id, x, y };
            index = index + 1;
        }
        Some(ContactSnapshot { slots, slot_count: values.len(), selected_slot, contact })
    }

    /// How many slots the pad has.
    pub fn slot_count(&self) -> (count: usize)
        ensures
            count == self@.slot_count,
    {
        self.slot_count
    }

    /// The slot that was selected last.
    pub fn selected_slot(&self) -> (slot: Option<usize>)
        ensures
            slot == self@.selected_slot,
    {
        self.selected_slot
    }

    /// The tracking id in each slot.
    pub(crate) fn tracking_ids(&self) -> (ids: [i32; MAX_MT_SLOTS])
        ensures
            ids@ == self@.tracking_ids(),
    {
        let mut ids = [INACTIVE_TRACKING_ID; MAX_MT_SLOTS];
        let mut index: usize = 0;
        while index < MAX_MT_SLOTS
            invariant
                index <= MAX_MT_SLOTS,
                forall|i: int| 0 <= i < index ==> #[trigger] ids@[i] == self.slots@[i].tracking_id,
            decreases MAX_MT_SLOTS - index,
        {
            ids[index] = self.slots[index].tracking_id;
            index = index + 1;
        }
        assert(ids@ =~= self@.tracking_ids());
        ids
    }

    /// The frame of the contact in the lowest slot that holds one.
    pub fn primary(&self) -> (frame: TouchFrame)
        ensures
            frame == self@.primary(),
            self@.slots.len() == MAX_MT_SLOTS,
    {
        assert(self.slots@.take(MAX_MT_SLOTS as int) =~= self.slots@);
        if self.contact {
            let mut index: usize = 0;
            while index < MAX_MT_SLOTS
                invariant
                    index <= MAX_MT_SLOTS,
                    self.contact,
                    first_where(self.slots@.take(index as int), is_active()) is None,
                decreases MAX_MT_SLOTS - index,
            {
                let slot = self.slots[index];
                proof {
                    let seen = self.slots@.take(index + 1);
                    assert(seen.drop_last() =~= self.slots@.take(index as int));
                    if slot.active() {
                        lemma_first_where_of_prefix(self.slots@, is_active(), index + 1);
                    }
                }
                if slot.tracking_id != INACTIVE_TRACKING_ID {
                    return TouchFrame {
                        contact: true,
                        pos: Some(TouchSample { x: slot.x, y: slot.y }),
                        contact_id: Some(
                            ContactId { slot: index, tracking_id: slot.tracking_id },
                        ),
                    };
                }
                index = index + 1;
            }
        }
        TouchFrame { contact: false, pos: None, contact_id: None }
    }

    /// The frame of the contact `id`, which is lifted if the contact is gone.
    pub fn for_contact(&self, id: ContactId) -> (frame: TouchFrame)
        ensures
            frame == self@.for_contact(id),
            self@.slots.len() == MAX_MT_SLOTS,
    {
        if self.contact && id.slot < MAX_MT_SLOTS {
            let slot = self.slots[id.slot];
            if slot.tracking_id == id.tracking_id {
                return TouchFrame {
                    contact: true,
                    pos: Some(TouchSample { x: slot.x, y: slot.y }),
                    contact_id: Some(id),
                };
            }
        }
        TouchFrame { contact: false, pos: None, contact_id: Some(id) }
    }
}

/// A frame: its events, and the contacts on the pad at its end.
#[verifier::ext_equal]
pub struct Frame {
    pub contacts: Contacts,
    pub events: Seq<InputEvent>,
    /// Whether the contacts were read anew from the device.
    pub reconciled: bool,
}

/// The events behind the last one that ends a frame.
pub open spec fn unfinished(events: Seq<InputEvent>) -> Seq<InputEvent>
    decreases events.len(),
{
    if events.len() == 0 || events.last().ends_frame() {
        Seq::empty()
    } else {
        unfinished(events.drop_last()).push(events.last())
    }
}

/// The frames that `events` complete on a pad in the state `pad`.
pub open spec fn frames(pad: PadState, events: Seq<InputEvent>) -> Seq<Frame>
    decreases events.len(),
{
    if events.len() == 0 {
        Seq::empty()
    } else if events.last().ends_frame() {
        frames(pad, events.drop_last()).push(
            Frame {
                contacts: pad.after_all(events).contacts(),
                events: unfinished(events.drop_last()).push(events.last()),
                reconciled: false,
            },
        )
    } else {
        frames(pad, events.drop_last())
    }
}

/// A frame of the physical pad.
#[derive(Debug)]
pub struct PhysicalFrame {
    /// The contacts on the pad at the end of the frame.
    pub contacts: ContactSnapshot,
    /// The events of the frame in their order, with the one that ends it.
    pub events: Vec<InputEvent>,
    /// Whether the contacts were read anew from the device.
    pub reconciled: bool,
}

impl View for PhysicalFrame {
    type V = Frame;

    open spec fn view(&self) -> Frame {
        Frame {
            contacts: self.contacts@,
            events: self.events@,
            reconciled: self.reconciled,
        }
    }
}

impl PhysicalFrame {
    /// The frame of the given parts.
    pub fn from_parts(
        contacts: ContactSnapshot,
        events: Vec<InputEvent>,
        reconciled: bool,
    ) -> (frame: PhysicalFrame)
        ensures
            frame@ == (Frame { contacts: contacts@, events: events@, reconciled }),
    {
        PhysicalFrame { contacts, events, reconciled }
    }
}

/// The contacts as the device itself tells them when it is asked.
#[derive(Clone, Copy, Debug)]
pub struct LiveContacts {
    pub slots: [SlotState; MAX_MT_SLOTS],
    /// The slot that the next events describe.
    pub selected_slot: i32,
    /// Whether any finger is down.
    pub contact: bool,
}

/// The event of an axis, without a time.
pub open spec fn axis_event(code: u16, value: i32) -> InputEvent {
    InputEvent { seconds: 0, microseconds: 0, event_type: EV_ABS, code, value }
}

/// Whether what is known of a slot is what was found there. Where there is no
/// contact, the position does not matter.
pub open spec fn agrees(known: SlotState, found: SlotState) -> bool {
    known.tracking_id == found.tracking_id && (found.active() ==> known == found)
}

/// The events that tell what was found in a slot, if it is not known.
pub open spec fn slot_difference(slot: int, known: SlotState, found: SlotState) -> Seq<InputEvent> {
    if agrees(known, found) {
        Seq::empty()
    } else if found.active() {
        seq![
            axis_event(ABS_MT_SLOT, slot as i32),
            axis_event(ABS_MT_TRACKING_ID, found.tracking_id),
            axis_event(ABS_MT_POSITION_X, found.x),
            axis_event(ABS_MT_POSITION_Y, found.y),
        ]
    } else {
        seq![
            axis_event(ABS_MT_SLOT, slot as i32),
            axis_event(ABS_MT_TRACKING_ID, found.tracking_id),
        ]
    }
}

/// The events that tell what was found in the first `count` slots.
pub open spec fn slot_differences(
    known: Seq<SlotState>,
    found: Seq<SlotState>,
    count: nat,
) -> Seq<InputEvent>
    decreases count,
{
    if count == 0 {
        Seq::empty()
    } else {
        slot_differences(known, found, (count - 1) as nat) + slot_difference(
            count - 1,
            known[count - 1],
            found[count - 1],
        )
    }
}

/// The events of a frame that leads from what is known of the pad to what was
/// found.
pub open spec fn difference(pad: PadState, live: LiveContacts) -> Seq<InputEvent> {
    slot_differences(pad.slots, live.slots@, MAX_MT_SLOTS as nat) + seq![
        axis_event(ABS_MT_SLOT, live.selected_slot),
        InputEvent {
            seconds: 0,
            microseconds: 0,
            event_type: EV_KEY,
            code: BTN_TOUCH,
            value: if live.contact { 1 } else { 0 },
        },
        InputEvent {
            seconds: 0,
            microseconds: 0,
            event_type: EV_SYN,
            code: SYN_REPORT,
            value: 0,
        },
    ]
}

/// The number of absolute axes that a device may have.
pub const ABS_AXIS_COUNT: usize = 64;

/// The range of an absolute axis.
#[derive(Clone, Copy, Debug, PartialEq, Eq, Structural)]
pub struct AxisRange {
    pub minimum: i32,
    pub maximum: i32,
}

/// The axes and keys that a device has, if it has any.
#[derive(Debug)]
pub struct Capabilities {
    pub absolute_axes: Option<Vec<u16>>,
    pub keys: Option<Vec<u16>>,
}

/// Whether `codes` lists `code`.
pub open spec fn lists(codes: Option<Vec<u16>>, code: u16) -> bool {
    codes matches Some(listed) && listed@.contains(code)
}

impl Capabilities {
    /// The first of the required capabilities that is missing.
    pub open spec fn missing(self) -> Option<&'static str> {
        if !lists(self.absolute_axes, ABS_MT_POSITION_X) {
            Some("ABS_MT_POSITION_X")
        } else if !lists(self.absolute_axes, ABS_MT_POSITION_Y) {
            Some("ABS_MT_POSITION_Y")
        } else if !lists(self.keys, BTN_TOUCH) {
            Some("BTN_TOUCH")
        } else {
            None
        }
    }

    /// The first of the required capabilities that is missing.
    pub fn first_missing(&self) -> (capability: Option<&'static str>)
        ensures
            capability == self.missing(),
    {
        if !lists_code(&self.absolute_axes, ABS_MT_POSITION_X) {
            Some("ABS_MT_POSITION_X")
        } else if !lists_code(&self.absolute_axes, ABS_MT_POSITION_Y) {
            Some("ABS_MT_POSITION_Y")
        } else if !lists_code(&self.keys, BTN_TOUCH) {
            Some("BTN_TOUCH")
        } else {
            None
        }
    }
}

/// Whether `codes` lists `code`.
fn lists_code(codes: &Option<Vec<u16>>, code: u16) -> (listed: bool)
    ensures
        listed == lists(*codes, code),
{
    match codes {
        Some(listed) => {
            let mut index: usize = 0;
            while index < listed.len()
                invariant
                    *codes == Some(*listed),
                    index <= listed@.len(),
                    forall|i: int| 0 <= i < index ==> listed@[i] != code,
                decreases listed@.len() - index,
            {
                if listed[index] == code {
                    return true;
                }
                index = index + 1;
            }
            false
        },
        None => false,
    }
}

/// A device that was found, with its name if it has one.
#[derive(Debug)]
pub struct NamedDevice {
    pub path: PathBuf,
    pub name: Option<String>,
}

/// Whether a device has a name that matches `pattern`.
pub open spec fn has_matching_name(pattern: regex::Regex) -> spec_fn(NamedDevice) -> bool {
    |device: NamedDevice| device.name matches Some(name) && regex_is_match(pattern, name@)
}

/// Whether a flag is set.
pub open spec fn is_set() -> spec_fn(bool) -> bool {
    |flag: bool| flag
}

/// Whether `found` is the path of the device at `index`, or tells that no
/// device matches.
pub open spec fn selected(
    regex_str: Seq<char>,
    devices: Seq<NamedDevice>,
    index: Option<int>,
    found: Result<PathBuf>,
) -> bool {
    match index {
        Some(index) => found == Result::<PathBuf>::Ok(devices[index].path),
        None => found matches Err(Error::DeviceNotFound { regex }) && regex@ == regex_str,
    }
}

/// Whether `found` is what a search for a device with a matching name brings.
pub open spec fn finds(
    regex_str: Seq<char>,
    devices: Seq<NamedDevice>,
    found: Result<PathBuf>,
) -> bool {
    match regex_new(regex_str) {
        Err(failure) => {
            &&& found matches Err(Error::RegexInvalid { pattern, source })
            &&& pattern@ == regex_str
            &&& source == failure
        },
        Ok(pattern) => selected(
            regex_str,
            devices,
            first_where(devices, has_matching_name(pattern)),
            found,
        ),
    }
}

/// Whether `device` is what comes of opening the device at `path`, given what
/// opening it and asking for its axes brought.
pub open spec fn opens(
    path: PathBuf,
    opened: std::result::Result<Capabilities, IoFailure>,
    abs_state: std::result::Result<[AxisRange; ABS_AXIS_COUNT], IoFailure>,
    device: Result<InputDevice>,
) -> bool {
    match (opened, abs_state) {
        (Err(failure), _) => device == Result::<InputDevice>::Err(
            Error::EvdevOpen { path, source: failure },
        ),
        (Ok(capabilities), _) if capabilities.missing() is Some => device == Result::<
            InputDevice,
        >::Err(Error::EvdevMissingCap { path, capability: capabilities.missing()->Some_0 }),
        (Ok(_), Err(failure)) => device == Result::<InputDevice>::Err(
            Error::EvdevRead { source: failure },
        ),
        (Ok(_), Ok(ranges)) => device matches Ok(opened) && opened.measures(
            ranges@[ABS_MT_POSITION_X as int],
            ranges@[ABS_MT_POSITION_Y as int],
        ) && opened.pad() == PadState::unknown(),
    }
}

/// The midpoint of a range, rounded towards zero.
pub open spec fn midpoint(range: AxisRange) -> int {
    let sum = range.minimum + range.maximum;
    if sum >= 0 {
        sum / 2
    } else {
        -(-sum / 2)
    }
}

/// Whether the midpoint of the range can be computed.
pub open spec fn has_midpoint(range: AxisRange) -> bool {
    i32::MIN <= range.minimum + range.maximum <= i32::MAX
}

/// The midpoint of a range, rounded towards zero.
fn center(range: AxisRange) -> (center: i32)
    requires
        has_midpoint(range),
    ensures
        center == midpoint(range),
{
    (range.minimum + range.maximum) / 2
}

/// The physical touchpad.
#[derive(Debug)]
pub struct InputDevice {
    pub abs_x_min: i32,
    pub abs_x_max: i32,
    pub abs_y_min: i32,
    pub abs_y_max: i32,
    pub center_x: i32,
    pub center_y: i32,
    pub state: FrameState,
}

impl InputDevice {
    /// What the events so far say of the pad.
    pub open spec fn pad(self) -> PadState {
        self.state@
    }

    /// The ranges and the center that are known of the pad.
    pub open spec fn measures(self, x: AxisRange, y: AxisRange) -> bool {
        &&& self.abs_x_min == x.minimum
        &&& self.abs_x_max == x.maximum
        &&& self.abs_y_min == y.minimum
        &&& self.abs_y_max == y.maximum
        &&& self.center_x == midpoint(x)
        &&& self.center_y == midpoint(y)
    }

    /// Takes up the device at `path`, given what opening it and asking for its
    /// axes brought. The device must have the axes of multi-touch positions and
    /// the key that tells of touches. Its contacts are unknown at first.
    pub fn open(
        path: PathBuf,
        opened: std::result::Result<Capabilities, IoFailure>,
        abs_state: std::result::Result<[AxisRange; ABS_AXIS_COUNT], IoFailure>,
    ) -> (device: Result<InputDevice>)
        requires
            opened matches Ok(capabilities) && capabilities.missing() is None ==> (
            abs_state matches Ok(ranges) ==> has_midpoint(ranges@[ABS_MT_POSITION_X as int])
                && has_midpoint(ranges@[ABS_MT_POSITION_Y as int])),
        ensures
            opens(path, opened, abs_state, device),
    {
        let capabilities = match opened {
            Ok(capabilities) => capabilities,
            Err(source) => return Err(Error::EvdevOpen { path, source }),
        };
        if let Some(capability) = capabilities.first_missing() {
            return Err(Error::EvdevMissingCap { path, capability });
        }
        let ranges = match abs_state {
            Ok(ranges) => ranges,
            Err(source) => return Err(Error::EvdevRead { source }),
        };
        let x = ranges[ABS_MT_POSITION_X as usize];
        let y = ranges[ABS_MT_POSITION_Y as usize];
        let slots = [SlotState { tracking_id: INACTIVE_TRACKING_ID, x: 0, y: 0 }; MAX_MT_SLOTS];
        proof {
            assert(slots@ =~= Seq::new(
                MAX_MT_SLOTS as nat,
                |i: int| SlotState { tracking_id: INACTIVE_TRACKING_ID, x: 0, y: 0 },
            ));
        }
        Ok(
            InputDevice {
                abs_x_min: x.minimum,
                abs_x_max: x.maximum,
                abs_y_min: y.minimum,
                abs_y_max: y.maximum,
                center_x: center(x),
                center_y: center(y),
                state: FrameState { slots, current_slot: 0, contact: false },
            },
        )
    }

    /// The path of the first of `devices` whose name matches `regex_str`.
    pub fn find_by_name(regex_str: &str, devices: Vec<NamedDevice>) -> (found: Result<PathBuf>)
        ensures
            finds(regex_str@, devices@, found),
    {
        let pattern = match compile(regex_str) {
            Ok(pattern) => pattern,
            Err(source) => {
                return Err(Error::RegexInvalid { pattern: regex_str.to_owned(), source });
            },
        };
        let mut matched: Vec<bool> = Vec::new();
        let mut index: usize = 0;
        while index < devices.len()
            invariant
                index <= devices@.len(),
                matched@.len() == index,
                forall|i: int|
                    0 <= i < index ==> #[trigger] matched@[i] == has_matching_name(pattern)(
                        devices@[i],
                    ),
            decreases devices@.len() - index,
        {
            let named = match &devices[index].name {
                Some(name) => is_match(&pattern, name.as_str()),
                None => false,
            };
            matched.push(named);
            index = index + 1;
        }
        proof {
            lemma_first_where_agrees(matched@, is_set(), devices@, has_matching_name(pattern));
        }
        InputDevice::select(regex_str, devices, &matched)
    }

    /// The path of the first of `devices` whose flag is set.
    pub fn select(regex_str: &str, devices: Vec<NamedDevice>, matched: &Vec<bool>) -> (found: Result<
        PathBuf,
    >)
        requires
            matched@.len() == devices@.len(),
        ensures
            selected(regex_str@, devices@, first_where(matched@, is_set()), found),
    {
        let mut devices = devices;
        match first_set(matched) {
            Some(index) => Ok(devices.remove(index).path),
            None => Err(Error::DeviceNotFound { regex: regex_str.to_owned() }),
        }
    }

    /// Takes the events that were fetched and returns the frames they complete,
    /// each with the contacts at its own end.
    pub fn poll_frames(
        &mut self,
        fetched: std::result::Result<Vec<InputEvent>, IoFailure>,
    ) -> (polled: Result<Vec<PhysicalFrame>>)
        ensures
            match fetched {
                Err(failure) => polled == Result::<Vec<PhysicalFrame>>::Err(
                    Error::EvdevRead { source: failure },
                ) && *final(self) == *old(self),
                Ok(events) => {
                    &&& polled matches Ok(completed)
                    &&& completed@.map_values(|frame: PhysicalFrame| frame@) == frames(
                        old(self).pad(),
                        events@,
                    )
                    &&& final(self).pad() == old(self).pad().after_all(events@)
                    &&& final(self).same_measures(*old(self))
                },
            },
    {
        let events = match fetched {
            Ok(events) => events,
            Err(source) => return Err(Error::EvdevRead { source }),
        };
        let mut completed: Vec<PhysicalFrame> = Vec::new();
        let mut batch: Vec<InputEvent> = Vec::new();
        let ghost views = |frame: PhysicalFrame| frame@;
        let mut index: usize = 0;
        assert(completed@.map_values(views) =~= Seq::empty());
        while index < events.len()
            invariant
                index <= events@.len(),
                self.same_measures(*old(self)),
                self.pad() == old(self).pad().after_all(events@.take(index as int)),
                batch@ == unfinished(events@.take(index as int)),
                views == (|frame: PhysicalFrame| frame@),
                completed@.map_values(views) == frames(
                    old(self).pad(),
                    events@.take(index as int),
                ),
            decreases events@.len() - index,
        {
            let event = events[index];
            let ghost before = completed@;
            assert(events@.take(index + 1).drop_last() =~= events@.take(index as int));
            index = index + 1;
            batch.push(event);
            self.state.apply(&event);
            if event.is_report() {
                let mut finished: Vec<InputEvent> = Vec::new();
                std::mem::swap(&mut finished, &mut batch);
                completed.push(
                    PhysicalFrame {
                        contacts: self.state.snapshot(),
                        events: finished,
                        reconciled: false,
                    },
                );
                assert(completed@.map_values(views) =~= before.map_values(views).push(
                    completed@.last()@,
                ));
            }
            assert(self.pad() =~= old(self).pad().after_all(events@.take(index as int)));
        }
        assert(events@.take(index as int) =~= events@);
        Ok(completed)
    }

    /// Takes over what was read anew from the device, and returns the frame that
    /// tells of the difference.
    pub fn reconcile_liveness_frame(
        &mut self,
        read: std::result::Result<LiveContacts, IoFailure>,
    ) -> (reconciled: std::result::Result<PhysicalFrame, IoFailure>)
        ensures
            match read {
                Err(failure) => reconciled == std::result::Result::<PhysicalFrame, IoFailure>::Err(
                    failure,
                ) && *final(self) == *old(self),
                Ok(live) => {
                    let events = difference(old(self).pad(), live);
                    &&& reconciled matches Ok(frame)
                    &&& frame@ == (Frame {
                        contacts: old(self).pad().after_all(events).contacts(),
                        events,
                        reconciled: true,
                    })
                    &&& final(self).pad() == old(self).pad().after_all(events)
                    &&& final(self).same_measures(*old(self))
                },
            },
    {
        let live = match read {
            Ok(live) => live,
            Err(failure) => return Err(failure),
        };
        let mut events: Vec<InputEvent> = Vec::new();
        let mut slot: usize = 0;
        while slot < MAX_MT_SLOTS
            invariant
                slot <= MAX_MT_SLOTS,
                events@ == slot_differences(self.pad().slots, live.slots@, slot as nat),
                *self == *old(self),
            decreases MAX_MT_SLOTS - slot,
        {
            let known = self.state.slots[slot];
            let found = live.slots[slot];
            let ghost before = events@;
            if known.tracking_id != found.tracking_id || (found.tracking_id != INACTIVE_TRACKING_ID
                && (known.x != found.x || known.y != found.y)) {
                events.push(InputEvent::new(EV_ABS, ABS_MT_SLOT, slot as i32));
                events.push(InputEvent::new(EV_ABS, ABS_MT_TRACKING_ID, found.tracking_id));
                if found.tracking_id != INACTIVE_TRACKING_ID {
                    events.push(InputEvent::new(EV_ABS, ABS_MT_POSITION_X, found.x));
                    events.push(InputEvent::new(EV_ABS, ABS_MT_POSITION_Y, found.y));
                }
            }
            assert(events@ =~= before + slot_difference(slot as int, known, found));
            slot = slot + 1;
        }
        events.push(InputEvent::new(EV_ABS, ABS_MT_SLOT, live.selected_slot));
        events.push(InputEvent::new(EV_KEY, BTN_TOUCH, if live.contact { 1 } else { 0 }));
        events.push(InputEvent::new(EV_SYN, SYN_REPORT, 0));
        assert(events@ =~= difference(old(self).pad(), live));
        let mut index: usize = 0;
        while index < events.len()
            invariant
                index <= events@.len(),
                self.same_measures(*old(self)),
                self.pad() == old(self).pad().after_all(events@.take(index as int)),
            decreases events@.len() - index,
        {
            assert(events@.take(index + 1).drop_last() =~= events@.take(index as int));
            self.state.apply(&events[index]);
            index = index + 1;
        }
        assert(events@.take(index as int) =~= events@);
        Ok(PhysicalFrame::from_parts(self.state.snapshot(), events, true))
    }

    /// Whether two devices have the same ranges and the same center.
    pub open spec fn same_measures(self, other: InputDevice) -> bool {
        &&& self.abs_x_min == other.abs_x_min
        &&& self.abs_x_max == other.abs_x_max
        &&& self.abs_y_min == other.abs_y_min
        &&& self.abs_y_max == other.abs_y_max
        &&& self.center_x == other.center_x
        &&& self.center_y == other.center_y
    }

    /// The contacts on the pad.
    pub fn snapshot(&self) -> (contacts: ContactSnapshot)
        ensures
            contacts@ == self.pad().contacts(),
    {
        self.state.snapshot()
    }
}

/// The index of the first flag that is set.
fn first_set(flags: &Vec<bool>) -> (found: Option<usize>)
    ensures
        match found {
            Some(index) => first_where(flags@, is_set()) == Some(index as int) && index < flags@.len(),
            None => first_where(flags@, is_set()) is None,
        },
{
    let mut index: usize = 0;
    while index < flags.len()
        invariant
            index <= flags@.len(),
            first_where(flags@.take(index as int), is_set()) is None,
        decreases flags@.len() - index,
    {
        assert(flags@.take(index + 1).drop_last() =~= flags@.take(index as int));
        if flags[index] {
            proof {
                lemma_first_where_of_prefix(flags@, is_set(), index + 1);
            }
            return Some(index);
        }
        index = index + 1;
    }
    assert(flags@.take(index as int) =~= flags@);
    None
}

/// The primary contact is the one in the lowest slot that holds a contact, and
/// there is one exactly if a finger is down and some slot holds a contact.
pub proof fn law_primary_is_the_lowest_contact(contacts: Contacts)
    requires
        contacts.slots.len() <= MAX_MT_SLOTS,
    ensures
        contacts.primary().contact <==> contacts.contact && exists|i: int|
            0 <= i < contacts.slots.len() && (#[trigger] contacts.slots[i]).active(),
        contacts.primary().contact_id matches Some(id) ==> {
            &&& contacts.holds(id)
            &&& contacts.slots[id.slot as int].active()
            &&& forall|i: int|
                0 <= i < id.slot ==> !(#[trigger] contacts.slots[i]).active()
        },
{
    law_first_where(contacts.slots, is_active());
}

/// Following the primary contact gives the frame that the primary contact has.
pub proof fn law_primary_can_be_followed(contacts: Contacts)
    requires
        contacts.slots.len() <= MAX_MT_SLOTS,
    ensures
        contacts.primary().contact_id matches Some(id) ==> contacts.for_contact(id)
            == contacts.primary(),
{
    law_first_where(contacts.slots, is_active());
}

/// A contact that is followed depends on its own slot alone: it neither
/// switches to another contact nor lifts because of one.
pub proof fn law_followed_contact_ignores_others(
    contacts: Contacts,
    changed: Contacts,
    id: ContactId,
)
    requires
        contacts.contact == changed.contact,
        contacts.slots.len() == changed.slots.len(),
        id.slot < contacts.slots.len() ==> contacts.slots[id.slot as int]
            == changed.slots[id.slot as int],
    ensures
        contacts.for_contact(id) == changed.for_contact(id),
{
}

/// A contact lifts when its tracking id ends, and a new contact in its slot
/// does not bring it back.
pub proof fn law_contact_lifts_with_its_tracking_id(pad: PadState, id: ContactId, value: i32)
    requires
        pad.contacts().holds(id),
        pad.current_slot == id.slot,
        value != id.tracking_id,
    ensures
        !pad.after_axis(ABS_MT_TRACKING_ID, value).contacts().for_contact(id).contact,
{
}

/// What a contact reports is what is found of it: once a slot has been selected
/// and a tracking id and a position have been reported, the pad holds that
/// contact there, and the other slots are as they were.
pub proof fn law_reported_contact_is_found(
    pad: PadState,
    id: ContactId,
    sample: TouchSample,
)
    requires
        pad.slots.len() == MAX_MT_SLOTS,
        pad.contact,
        id.slot < MAX_MT_SLOTS,
    ensures
        ({
            let reported = pad.after_axis(ABS_MT_SLOT, id.slot as i32).after_axis(
                ABS_MT_TRACKING_ID,
                id.tracking_id,
            ).after_axis(ABS_MT_POSITION_X, sample.x).after_axis(ABS_MT_POSITION_Y, sample.y);
            &&& reported.contacts().for_contact(id) == (TouchFrame {
                contact: true,
                pos: Some(sample),
                contact_id: Some(id),
            })
            &&& reported.slots.len() == MAX_MT_SLOTS
            &&& forall|i: int|
                0 <= i < MAX_MT_SLOTS && i != id.slot ==> #[trigger] reported.slots[i]
                    == pad.slots[i]
        }),
{
}

/// The events of all the frames, one frame after the other.
pub open spec fn events_of(frames: Seq<Frame>) -> Seq<InputEvent> {
    Seq::new(frames.len(), |i: int| frames[i].events).flatten()
}

/// No event is lost or moved: the events of the frames, followed by those of
/// the unfinished frame, are the events that came.
pub proof fn law_frames_keep_all_events(pad: PadState, events: Seq<InputEvent>)
    ensures
        events_of(frames(pad, events)) + unfinished(events) == events,
    decreases events.len(),
{
    let completed = frames(pad, events);
    let parts = Seq::new(completed.len(), |i: int| completed[i].events);
    if events.len() > 0 {
        let init = events.drop_last();
        law_frames_keep_all_events(pad, init);
        assert(events =~= init.push(events.last()));
        if events.last().ends_frame() {
            let before = frames(pad, init);
            let earlier = Seq::new(before.len(), |i: int| before[i].events);
            let frame = unfinished(init).push(events.last());
            assert(parts =~= earlier.push(frame));
            earlier.lemma_flatten_push(frame);
            assert(earlier.flatten() + frame =~= events);
        } else {
            assert(unfinished(events) =~= unfinished(init).push(events.last()));
        }
    } else {
        assert(parts =~= Seq::empty());
    }
}

/// The events of an unfinished frame do not end a frame.
proof fn lemma_unfinished_has_no_report(events: Seq<InputEvent>)
    ensures
        forall|i: int|
            0 <= i < unfinished(events).len() ==> !(#[trigger] unfinished(events)[i]).ends_frame(),
    decreases events.len(),
{
    if events.len() > 0 && !events.last().ends_frame() {
        lemma_unfinished_has_no_report(events.drop_last());
        let before = unfinished(events.drop_last());
        assert forall|i: int| 0 <= i < unfinished(events).len() implies !(
        #[trigger] unfinished(events)[i]).ends_frame() by {
            if i < before.len() {
                assert(unfinished(events)[i] == before[i]);
            }
        }
    }
}

/// Every frame ends with an event that ends it, and has no other such event.
pub proof fn law_frames_are_bounded(pad: PadState, events: Seq<InputEvent>)
    ensures
        forall|i: int, j: int|
            0 <= i < frames(pad, events).len() && 0 <= j < frames(pad, events)[i].events.len() ==> (
            #[trigger] frames(pad, events)[i].events[j]).ends_frame() == (j == frames(
                pad,
                events,
            )[i].events.len() - 1),
        forall|i: int|
            0 <= i < frames(pad, events).len() ==> (#[trigger] frames(
                pad,
                events,
            )[i]).events.len() > 0,
    decreases events.len(),
{
    if events.len() > 0 {
        let init = events.drop_last();
        law_frames_are_bounded(pad, init);
        if events.last().ends_frame() {
            lemma_unfinished_has_no_report(init);
            let open = unfinished(init);
            assert forall|i: int, j: int|
                0 <= i < frames(pad, events).len() && 0 <= j < frames(
                    pad,
                    events,
                )[i].events.len() implies (#[trigger] frames(
                pad,
                events,
            )[i].events[j]).ends_frame() == (j == frames(pad, events)[i].events.len() - 1) by {
                if i < frames(pad, init).len() {
                    assert(frames(pad, events)[i] == frames(pad, init)[i]);
                    assert(frames(pad, init)[i].events[j].ends_frame() == (j == frames(
                        pad,
                        init,
                    )[i].events.len() - 1));
                } else if j < open.len() {
                    assert(frames(pad, events)[i].events[j] == open[j]);
                }
            }
            assert forall|i: int| 0 <= i < frames(pad, events).len() implies (
            #[trigger] frames(pad, events)[i]).events.len() > 0 by {
                if i < frames(pad, init).len() {
                    assert(frames(pad, events)[i] == frames(pad, init)[i]);
                }
            }
        }
    }
}

/// Every frame has the contacts that the pad has at the end of that frame, and
/// not those of a later one: the frame that the first `count` events complete
/// last.
pub proof fn law_frames_have_their_own_contacts(
    pad: PadState,
    events: Seq<InputEvent>,
    count: int,
)
    requires
        0 < count <= events.len(),
        events[count - 1].ends_frame(),
    ensures
        ({
            let index = frames(pad, events.take(count)).len() - 1;
            &&& 0 <= index < frames(pad, events).len()
            &&& frames(pad, events)[index].contacts == pad.after_all(events.take(count)).contacts()
        }),
    decreases events.len(),
{
    if count == events.len() {
        assert(events.take(count) =~= events);
    } else {
        assert(events.drop_last().take(count) =~= events.take(count));
        law_frames_have_their_own_contacts(pad, events.drop_last(), count);
    }
}

/// Reading a stream in two parts is reading it at once.
proof fn lemma_reading_composes(pad: PadState, first: Seq<InputEvent>, second: Seq<InputEvent>)
    ensures
        pad.after_all(first + second) == pad.after_all(first).after_all(second),
    decreases second.len(),
{
    if second.len() == 0 {
        assert(first + second =~= first);
    } else {
        lemma_reading_composes(pad, first, second.drop_last());
        assert((first + second).drop_last() =~= first + second.drop_last());
    }
}

/// Every frame goes on where the one before it ended: its events lead from the
/// state that the events of the earlier frames led to, to the contacts that it
/// has.
pub proof fn law_frames_continue_one_another(pad: PadState, events: Seq<InputEvent>, index: int)
    requires
        0 <= index < frames(pad, events).len(),
    ensures
        ({
            let completed = frames(pad, events);
            completed[index].contacts == pad.after_all(events_of(completed.take(index))).after_all(
                completed[index].events,
            ).contacts()
        }),
    decreases events.len(),
{
    let completed = frames(pad, events);
    let init = events.drop_last();
    if events.last().ends_frame() && index == completed.len() - 1 {
        law_frames_keep_all_events(pad, events);
        assert(events_of(completed) + unfinished(events) =~= events_of(completed));
        let earlier = completed.take(index);
        let parts = Seq::new(earlier.len(), |i: int| earlier[i].events);
        assert(Seq::new(completed.len(), |i: int| completed[i].events) =~= parts.push(
            completed[index].events,
        ));
        parts.lemma_flatten_push(completed[index].events);
        lemma_reading_composes(pad, events_of(earlier), completed[index].events);
    } else {
        assert(completed.take(index) =~= frames(pad, init).take(index));
        law_frames_continue_one_another(pad, init, index);
    }
}

/// It does not matter how complete frames are split over fetches.
pub proof fn law_fetches_compose(pad: PadState, first: Seq<InputEvent>, second: Seq<InputEvent>)
    requires
        unfinished(first).len() == 0,
    ensures
        pad.after_all(first + second) == pad.after_all(first).after_all(second),
        frames(pad, first + second) == frames(pad, first) + frames(pad.after_all(first), second),
        unfinished(first + second) == unfinished(second),
    decreases second.len(),
{
    if second.len() == 0 {
        assert(first + second =~= first);
        assert(frames(pad, first) + Seq::<Frame>::empty() =~= frames(pad, first));
    } else {
        law_fetches_compose(pad, first, second.drop_last());
        assert((first + second).drop_last() =~= first + second.drop_last());
        assert(frames(pad, first + second) =~= frames(pad, first) + frames(
            pad.after_all(first),
            second,
        ));
    }
}

/// Reading one more event.
proof fn lemma_reading_one_more(pad: PadState, events: Seq<InputEvent>, event: InputEvent)
    ensures
        pad.after_all(events.push(event)) == pad.after_all(events).after(event),
{
    assert(events.push(event).drop_last() =~= events);
}

/// The events of a slot lead to what was found in it, and leave the other slots
/// and the fingers as they are.
proof fn lemma_slot_difference_is_told(pad: PadState, slot: int, found: SlotState)
    requires
        pad.slots.len() == MAX_MT_SLOTS,
        0 <= slot < MAX_MT_SLOTS,
    ensures
        ({
            let told = pad.after_all(slot_difference(slot, pad.slots[slot], found));
            &&& told.slots.len() == MAX_MT_SLOTS
            &&& agrees(told.slots[slot], found)
            &&& forall|i: int|
                0 <= i < MAX_MT_SLOTS && i != slot ==> #[trigger] told.slots[i] == pad.slots[i]
        }),
{
    let known = pad.slots[slot];
    if !agrees(known, found) {
        let none = Seq::<InputEvent>::empty();
        let selected = none.push(axis_event(ABS_MT_SLOT, slot as i32));
        let named = selected.push(axis_event(ABS_MT_TRACKING_ID, found.tracking_id));
        let first = named.push(axis_event(ABS_MT_POSITION_X, found.x));
        let second = first.push(axis_event(ABS_MT_POSITION_Y, found.y));
        lemma_reading_one_more(pad, none, selected.last());
        lemma_reading_one_more(pad, selected, named.last());
        lemma_reading_one_more(pad, named, first.last());
        lemma_reading_one_more(pad, first, second.last());
        if found.active() {
            assert(slot_difference(slot, known, found) =~= second);
        } else {
            assert(slot_difference(slot, known, found) =~= named);
        }
    }
}

/// The events of the first slots lead to what was found in them, and leave the
/// other slots as they are.
proof fn lemma_slot_differences_are_told(pad: PadState, found: Seq<SlotState>, count: nat)
    requires
        pad.slots.len() == MAX_MT_SLOTS,
        count <= MAX_MT_SLOTS,
    ensures
        ({
            let told = pad.after_all(slot_differences(pad.slots, found, count));
            &&& told.slots.len() == MAX_MT_SLOTS
            &&& forall|i: int| 0 <= i < count ==> agrees(#[trigger] told.slots[i], found[i])
            &&& forall|i: int|
                count <= i < MAX_MT_SLOTS ==> #[trigger] told.slots[i] == pad.slots[i]
        }),
    decreases count,
{
    if count > 0 {
        let slot = count - 1;
        let before = slot_differences(pad.slots, found, slot as nat);
        lemma_slot_differences_are_told(pad, found, slot as nat);
        let told = pad.after_all(before);
        assert(told.slots[slot] == pad.slots[slot]);
        lemma_slot_difference_is_told(told, slot, found[slot]);
        lemma_reading_composes(
            pad,
            before,
            slot_difference(slot, pad.slots[slot], found[slot]),
        );
    }
}

/// A frame that was read anew tells the truth: afterwards the contacts are those
/// that the device told, and so are the selected slot, if it is tracked, and
/// whether a finger is down.
pub proof fn law_reconciled_frame_tells_the_contacts(pad: PadState, live: LiveContacts)
    requires
        pad.slots.len() == MAX_MT_SLOTS,
    ensures
        ({
            let contacts = pad.after_all(difference(pad, live)).contacts();
            &&& contacts.slots.len() == MAX_MT_SLOTS
            &&& forall|i: int|
                0 <= i < MAX_MT_SLOTS ==> agrees(#[trigger] contacts.slots[i], live.slots@[i])
            &&& 0 <= live.selected_slot < MAX_MT_SLOTS ==> contacts.selected_slot == Some(
                live.selected_slot as usize,
            )
            &&& contacts.contact == live.contact
        }),
{
    let slots = slot_differences(pad.slots, live.slots@, MAX_MT_SLOTS as nat);
    let whole = difference(pad, live);
    let count = slots.len() as int;
    lemma_slot_differences_are_told(pad, live.slots@, MAX_MT_SLOTS as nat);
    lemma_reading_one_more(pad, slots, whole[count]);
    lemma_reading_one_more(pad, slots.push(whole[count]), whole[count + 1]);
    lemma_reading_one_more(
        pad,
        slots.push(whole[count]).push(whole[count + 1]),
        whole[count + 2],
    );
    assert(whole =~= slots.push(whole[count]).push(whole[count + 1]).push(whole[count + 2]));
}

/// A contact that the device does not tell of any more is lifted, even while
/// another finger stays down, and one that it tells of stays.
pub proof fn law_vanished_contact_is_lifted(pad: PadState, live: LiveContacts, id: ContactId)
    requires
        pad.slots.len() == MAX_MT_SLOTS,
        id.slot < MAX_MT_SLOTS,
    ensures
        pad.after_all(difference(pad, live)).contacts().for_contact(id).contact <==> live.contact
            && live.slots@[id.slot as int].tracking_id == id.tracking_id,
{
    law_reconciled_frame_tells_the_contacts(pad, live);
    let contacts = pad.after_all(difference(pad, live)).contacts();
    assert(agrees(contacts.slots[id.slot as int], live.slots@[id.slot as int]));
}

/// A position or a tracking id that an axis reports is that of the selected slot,
/// and it is all that changes: the slot keeps its other values, and the other
/// slots, the selection and the fingers stay as they are.
pub proof fn law_axis_changes_one_value_of_one_slot(pad: PadState, code: u16, value: i32)
    requires
        pad.current_slot < pad.slots.len(),
        code == 0x35 || code == 0x36 || code == 0x39,
    ensures
        ({
            let next = pad.after_axis(code, value);
            let before = pad.slots[pad.current_slot as int];
            let slot = next.slots[pad.current_slot as int];
            &&& slot.x == if code == 0x35 { value } else { before.x }
            &&& slot.y == if code == 0x36 { value } else { before.y }
            &&& slot.tracking_id == if code == 0x39 { value } else { before.tracking_id }
            &&& next.slots.len() == pad.slots.len()
            &&& forall|i: int|
                0 <= i < pad.slots.len() && i != pad.current_slot ==> #[trigger] next.slots[i]
                    == pad.slots[i]
            &&& next.current_slot == pad.current_slot
            &&& next.contact == pad.contact
        }),
{
}

/// Selecting a slot changes the selection alone, and a slot that is not tracked
/// cannot be selected.
pub proof fn law_selecting_a_slot_changes_nothing_else(pad: PadState, value: i32)
    ensures
        ({
            let next = pad.after_axis(0x2f, value);
            &&& 0 <= value < 16 ==> next.current_slot == value
            &&& value < 0 || 16 <= value ==> next.current_slot == pad.current_slot
            &&& next.slots == pad.slots
            &&& next.contact == pad.contact
        }),
{
}

/// Other axes, the mirror of the primary contact among them, tell nothing of the
/// contacts, and neither does any axis while a slot is selected that is not
/// tracked, but for the selection itself.
pub proof fn law_other_axes_tell_nothing(pad: PadState, code: u16, value: i32)
    requires
        code != 0x2f,
        code != 0x35 && code != 0x36 && code != 0x39 || pad.current_slot >= pad.slots.len(),
    ensures
        pad.after_axis(code, value).slots == pad.slots,
        pad.after_axis(code, value).current_slot == pad.current_slot,
        pad.after_axis(code, value).contact == pad.contact,
{
}

/// An event of an axis is read as that axis; the touch key tells whether a finger
/// is down, and nothing else; no other event tells anything.
pub proof fn law_events_tell_what_their_type_says(pad: PadState, event: InputEvent)
    ensures
        event.event_type == 3 ==> pad.after(event) == pad.after_axis(event.code, event.value),
        event.event_type != 3 ==> pad.after(event).slots == pad.slots && pad.after(
            event,
        ).current_slot == pad.current_slot,
        event.event_type == 1 && event.code == 0x14a ==> pad.after(event).contact == (event.value
            != 0),
        event.event_type != 3 && !(event.event_type == 1 && event.code == 0x14a) ==> pad.after(
            event,
        ).contact == pad.contact,
{
}

/// Events are read one after the other, each exactly once.
pub proof fn law_events_are_read_in_order(
    pad: PadState,
    first: Seq<InputEvent>,
    event: InputEvent,
    second: Seq<InputEvent>,
)
    ensures
        pad.after_all(Seq::empty()) == pad,
        pad.after_all(first.push(event)) == pad.after_all(first).after(event),
        pad.after_all(first + second) == pad.after_all(first).after_all(second),
{
    lemma_reading_one_more(pad, first, event);
    lemma_reading_composes(pad, first, second);
}

/// The contacts of a pad are what its slots hold, with its selection and its
/// fingers.
pub proof fn law_contacts_are_those_of_the_pad(pad: PadState)
    ensures
        pad.contacts().slots == pad.slots,
        pad.contacts().contact == pad.contact,
        pad.contacts().selected_slot == Some(pad.current_slot),
        pad.contacts().slot_count == MAX_MT_SLOTS,
        pad.contacts().tracking_ids().len() == pad.slots.len(),
        forall|i: int|
            0 <= i < pad.slots.len() ==> #[trigger] pad.contacts().tracking_ids()[i]
                == pad.slots[i].tracking_id,
{
}

/// The state, the device and the frame stand for all that their fields hold.
pub proof fn law_fields_are_all_that_counts(
    state: FrameState,
    device: InputDevice,
    frame: PhysicalFrame,
)
    ensures
        state@.slots == state.slots@,
        state@.current_slot == state.current_slot,
        state@.contact == state.contact,
        device.pad() == device.state@,
        frame@.contacts == frame.contacts@,
        frame@.events == frame.events@,
        frame@.reconciled == frame.reconciled,
{
}

/// A contact that is followed is down exactly while a finger is down and its slot
/// still has its tracking id, and then it is where its slot is. Its frame names it
/// either way.
pub proof fn law_followed_contact_is_where_its_slot_is(contacts: Contacts, id: ContactId)
    ensures
        ({
            let frame = contacts.for_contact(id);
            let down = contacts.contact && id.slot < contacts.slots.len()
                && contacts.slots[id.slot as int].tracking_id == id.tracking_id;
            &&& frame.contact == down
            &&& frame.contact_id == Some(id)
            &&& down ==> frame.pos == Some(
                TouchSample {
                    x: contacts.slots[id.slot as int].x,
                    y: contacts.slots[id.slot as int].y,
                },
            )
            &&& !down ==> frame.pos is None
        }),
{
}

/// Any contact below which there is none is the primary one, where its slot is.
/// Without a finger or without a contact there is no primary contact.
pub proof fn law_lowest_contact_is_the_primary_one(contacts: Contacts, slot: int)
    requires
        contacts.slots.len() <= MAX_MT_SLOTS,
    ensures
        contacts.contact && 0 <= slot < contacts.slots.len() && contacts.slots[slot].tracking_id
            != -1 && (forall|i: int| 0 <= i < slot ==> (#[trigger] contacts.slots[i]).tracking_id
            == -1) ==> contacts.primary() == (TouchFrame {
            contact: true,
            pos: Some(TouchSample { x: contacts.slots[slot].x, y: contacts.slots[slot].y }),
            contact_id: Some(
                ContactId { slot: slot as usize, tracking_id: contacts.slots[slot].tracking_id },
            ),
        }),
        !contacts.contact || (forall|i: int|
            0 <= i < contacts.slots.len() ==> (#[trigger] contacts.slots[i]).tracking_id == -1)
            ==> contacts.primary() == (TouchFrame { contact: false, pos: None, contact_id: None }),
{
    law_first_where(contacts.slots, is_active());
    if contacts.contact && 0 <= slot < contacts.slots.len() && contacts.slots[slot].tracking_id
        != -1 && (forall|i: int|
        0 <= i < slot ==> (#[trigger] contacts.slots[i]).tracking_id == -1) {
        let found = first_where(contacts.slots, is_active());
        assert(is_active()(contacts.slots[slot]));
        assert(found is Some);
        if found->Some_0 < slot {
            assert(contacts.slots[found->Some_0].tracking_id == -1);
        }
    }
}

/// What is left over holds no complete frame, and frames of the event stream are
/// not marked as read anew.
pub proof fn law_left_over_events_end_no_frame(pad: PadState, events: Seq<InputEvent>)
    ensures
        forall|i: int|
            0 <= i < unfinished(events).len() ==> !((#[trigger] unfinished(events)[i]).event_type
                == 0 && unfinished(events)[i].code == 0),
        forall|i: int|
            0 <= i < frames(pad, events).len() ==> !(#[trigger] frames(pad, events)[i]).reconciled,
    decreases events.len(),
{
    lemma_unfinished_has_no_report(events);
    assert forall|i: int| 0 <= i < unfinished(events).len() implies !((
    #[trigger] unfinished(events)[i]).event_type == 0 && unfinished(events)[i].code == 0) by {
        assert(!unfinished(events)[i].ends_frame());
    }
    if events.len() > 0 {
        law_left_over_events_end_no_frame(pad, events.drop_last());
    }
}

/// The device that is found is the first one with a matching name, wherever it
/// stands: if a device has such a name and none before it has, its path is found,
/// and if no device has such a name, the answer is that none was found, with the
/// pattern that was looked for.
pub proof fn law_first_matching_device_is_found(
    regex_str: Seq<char>,
    pattern: regex::Regex,
    devices: Seq<NamedDevice>,
    found: Result<PathBuf>,
)
    requires
        selected(regex_str, devices, first_where(devices, has_matching_name(pattern)), found),
    ensures
        forall|i: int|
            0 <= i < devices.len() && ((#[trigger] devices[i]).name matches Some(name)
                && regex_is_match(pattern, name@)) && (forall|j: int|
                0 <= j < i ==> !((#[trigger] devices[j]).name matches Some(name) && regex_is_match(
                    pattern,
                    name@,
                ))) ==> found == Result::<PathBuf>::Ok(devices[i].path),
        (forall|i: int|
            0 <= i < devices.len() ==> !((#[trigger] devices[i]).name matches Some(name)
                && regex_is_match(pattern, name@))) ==> (found matches Err(
            Error::DeviceNotFound { regex },
        ) && regex@ == regex_str),
        found is Ok <==> exists|i: int|
            0 <= i < devices.len() && ((#[trigger] devices[i]).name matches Some(name)
                && regex_is_match(pattern, name@)),
{
    let wanted = has_matching_name(pattern);
    law_first_where(devices, wanted);
    let index = first_where(devices, wanted);
    assert forall|i: int|
        0 <= i < devices.len() && ((#[trigger] devices[i]).name matches Some(name)
            && regex_is_match(pattern, name@)) && (forall|j: int|
            0 <= j < i ==> !((#[trigger] devices[j]).name matches Some(name) && regex_is_match(
                pattern,
                name@,
            ))) implies found == Result::<PathBuf>::Ok(devices[i].path) by {
        assert(wanted(devices[i]));
        let at = index->Some_0;
        assert(wanted(devices[at]));
        assert(at == i);
    }
    if index is Some {
        let at = index->Some_0;
        assert(wanted(devices[at]));
        assert(devices[at].name matches Some(name) && regex_is_match(pattern, name@));
    } else {
        assert forall|i: int| 0 <= i < devices.len() implies !((
        #[trigger] devices[i]).name matches Some(name) && regex_is_match(pattern, name@)) by {
            assert(!wanted(devices[i]));
        }
    }
}

/// The device that is selected is the first one whose flag is set, wherever it
/// stands; without such a flag none is found.
pub proof fn law_first_flag_selects(
    regex_str: Seq<char>,
    devices: Seq<NamedDevice>,
    flags: Seq<bool>,
    found: Result<PathBuf>,
)
    requires
        flags.len() == devices.len(),
        selected(regex_str, devices, first_where(flags, is_set()), found),
    ensures
        forall|i: int|
            0 <= i < devices.len() && #[trigger] flags[i] && (forall|j: int|
                0 <= j < i ==> !#[trigger] flags[j]) ==> found == Result::<PathBuf>::Ok(
                devices[i].path,
            ),
        (forall|i: int| 0 <= i < flags.len() ==> !#[trigger] flags[i]) ==> (found matches Err(
            Error::DeviceNotFound { regex },
        ) && regex@ == regex_str),
{
    law_first_where(flags, is_set());
    let index = first_where(flags, is_set());
    assert forall|i: int|
        0 <= i < devices.len() && #[trigger] flags[i] && (forall|j: int|
            0 <= j < i ==> !#[trigger] flags[j]) implies found == Result::<PathBuf>::Ok(
        devices[i].path,
    ) by {
        assert(is_set()(flags[i]));
        assert(is_set()(flags[index->Some_0]));
        assert(index->Some_0 == i);
    }
    if index is Some {
        assert(is_set()(flags[index->Some_0]));
    }
}

/// A device is refused for the first thing that it lacks, and taken exactly if it
/// lists both axes of multi-touch positions and the touch key.
pub proof fn law_device_is_refused_for_what_it_lacks(capabilities: Capabilities)
    ensures
        ({
            let has_x = capabilities.absolute_axes matches Some(axes) && axes@.contains(0x35u16);
            let has_y = capabilities.absolute_axes matches Some(axes) && axes@.contains(0x36u16);
            let has_touch = capabilities.keys matches Some(keys) && keys@.contains(0x14au16);
            &&& capabilities.missing() is None <==> has_x && has_y && has_touch
            &&& !has_x ==> capabilities.missing() == Some("ABS_MT_POSITION_X")
            &&& has_x && !has_y ==> capabilities.missing() == Some("ABS_MT_POSITION_Y")
            &&& has_x && has_y && !has_touch ==> capabilities.missing() == Some("BTN_TOUCH")
        }),
{
}

/// The center of the pad is halfway between the ends of each axis, rounded towards
/// zero, and each axis has its own.
pub proof fn law_center_is_halfway(device: InputDevice, x: AxisRange, y: AxisRange)
    requires
        device.measures(x, y),
    ensures
        device.abs_x_min == x.minimum && device.abs_x_max == x.maximum,
        device.abs_y_min == y.minimum && device.abs_y_max == y.maximum,
        ({
            let rest = x.minimum + x.maximum - 2 * device.center_x;
            &&& x.minimum + x.maximum >= 0 ==> 0 <= rest <= 1
            &&& x.minimum + x.maximum <= 0 ==> -1 <= rest <= 0
        }),
        ({
            let rest = y.minimum + y.maximum - 2 * device.center_y;
            &&& y.minimum + y.maximum >= 0 ==> 0 <= rest <= 1
            &&& y.minimum + y.maximum <= 0 ==> -1 <= rest <= 0
        }),
{
}

/// The center of an axis can be computed for every range whose ends add up to a
/// number of 32 bits.
pub proof fn law_ranges_have_a_center(range: AxisRange)
    ensures
        has_midpoint(range) <==> -0x8000_0000 <= range.minimum + range.maximum <= 0x7fff_ffff,
{
}

/// Reading events changes nothing of what is known of the axes.
pub proof fn law_axes_stay_as_they_are(before: InputDevice, after: InputDevice)
    requires
        after.same_measures(before),
    ensures
        after.abs_x_min == before.abs_x_min && after.abs_x_max == before.abs_x_max,
        after.abs_y_min == before.abs_y_min && after.abs_y_max == before.abs_y_max,
        after.center_x == before.center_x && after.center_y == before.center_y,
{
}

/// A frame that was read anew leads to what the device told, and to nothing else:
/// each slot has the tracking id that was found, a contact is where it was found,
/// and a slot without one keeps its position.
pub proof fn law_reconciliation_leads_to_what_was_found(
    pad: PadState,
    live: LiveContacts,
    slot: int,
)
    requires
        pad.slots.len() == MAX_MT_SLOTS,
        0 <= slot < MAX_MT_SLOTS,
    ensures
        ({
            let after = pad.after_all(difference(pad, live));
            let found = live.slots@[slot];
            &&& after.slots.len() == MAX_MT_SLOTS
            &&& after.slots[slot].tracking_id == found.tracking_id
            &&& found.tracking_id != -1 ==> after.slots[slot].x == found.x && after.slots[slot].y
                == found.y
            &&& found.tracking_id == -1 ==> after.slots[slot].x == pad.slots[slot].x
                && after.slots[slot].y == pad.slots[slot].y
            &&& after.contact == live.contact
            &&& 0 <= live.selected_slot < 16 ==> after.current_slot == live.selected_slot
        }),
{
    law_reconciled_frame_tells_the_contacts(pad, live);
    if live.slots@[slot].tracking_id == -1 {
        lemma_lifted_slots_keep_their_position(pad, live.slots@, MAX_MT_SLOTS as nat, slot);
    }
    let contacts = pad.after_all(difference(pad, live)).contacts();
    assert(agrees(contacts.slots[slot], live.slots@[slot]));
    let slots = slot_differences(pad.slots, live.slots@, MAX_MT_SLOTS as nat);
    let whole = difference(pad, live);
    let count = slots.len() as int;
    lemma_reading_one_more(pad, slots, whole[count]);
    lemma_reading_one_more(pad, slots.push(whole[count]), whole[count + 1]);
    lemma_reading_one_more(
        pad,
        slots.push(whole[count]).push(whole[count + 1]),
        whole[count + 2],
    );
    assert(whole =~= slots.push(whole[count]).push(whole[count + 1]).push(whole[count + 2]));
}

/// A slot in which no contact was found keeps its position.
proof fn lemma_lifted_slots_keep_their_position(
    pad: PadState,
    found: Seq<SlotState>,
    count: nat,
    slot: int,
)
    requires
        pad.slots.len() == MAX_MT_SLOTS,
        count <= MAX_MT_SLOTS,
        0 <= slot < MAX_MT_SLOTS,
        found[slot].tracking_id == -1,
    ensures
        ({
            let told = pad.after_all(slot_differences(pad.slots, found, count));
            told.slots[slot].x == pad.slots[slot].x && told.slots[slot].y == pad.slots[slot].y
        }),
    decreases count,
{
    if count > 0 {
        let last = count - 1;
        let before = slot_differences(pad.slots, found, last as nat);
        lemma_lifted_slots_keep_their_position(pad, found, last as nat, slot);
        lemma_slot_differences_are_told(pad, found, last as nat);
        let told = pad.after_all(before);
        assert(told.slots[last] == pad.slots[last]);
        lemma_slot_difference_is_told(told, last, found[last]);
        let difference = slot_difference(last, pad.slots[last], found[last]);
        lemma_reading_composes(pad, before, difference);
        if slot == last && !agrees(pad.slots[last], found[last]) {
            let none = Seq::<InputEvent>::empty();
            let selected = none.push(axis_event(ABS_MT_SLOT, last as i32));
            let named = selected.push(axis_event(ABS_MT_TRACKING_ID, found[last].tracking_id));
            lemma_reading_one_more(told, none, selected.last());
            lemma_reading_one_more(told, selected, named.last());
            assert(difference =~= named);
        }
    }
}

/// Contacts that are where they are known to be are not told again: the frame then
/// has the selection, the fingers and the report alone. It always ends with these.
pub proof fn law_reconciliation_tells_differences_alone(pad: PadState, live: LiveContacts)
    requires
        pad.slots.len() == MAX_MT_SLOTS,
    ensures
        ({
            let events = difference(pad, live);
            let count = events.len();
            &&& count >= 3
            &&& events[count - 3].event_type == 3 && events[count - 3].code == 0x2f && events[count
                - 3].value == live.selected_slot
            &&& events[count - 2].event_type == 1 && events[count - 2].code == 0x14a && (events[
            count - 2].value != 0 <==> live.contact)
            &&& events[count - 1].event_type == 0 && events[count - 1].code == 0
            &&& (forall|i: int|
                0 <= i < MAX_MT_SLOTS ==> (#[trigger] pad.slots[i]).tracking_id
                    == live.slots@[i].tracking_id && (live.slots@[i].tracking_id != -1 ==> (
                pad.slots[i].x == live.slots@[i].x && pad.slots[i].y == live.slots@[i].y)))
                ==> count == 3
            &&& forall|i: int|
                0 <= i < count - 1 ==> !((#[trigger] events[i]).event_type == 0 && events[i].code
                    == 0)
        }),
{
    lemma_differences_are_of_axes(pad.slots, live.slots@, MAX_MT_SLOTS as nat);
    if forall|i: int|
        0 <= i < MAX_MT_SLOTS ==> (#[trigger] pad.slots[i]).tracking_id
            == live.slots@[i].tracking_id && (live.slots@[i].tracking_id != -1 ==> (pad.slots[i].x
            == live.slots@[i].x && pad.slots[i].y == live.slots@[i].y)) {
        assert forall|i: int| 0 <= i < MAX_MT_SLOTS implies agrees(
            #[trigger] pad.slots[i],
            live.slots@[i],
        ) by {}
        lemma_nothing_differs(pad.slots, live.slots@, MAX_MT_SLOTS as nat);
    }
    let slots = slot_differences(pad.slots, live.slots@, MAX_MT_SLOTS as nat);
    let events = difference(pad, live);
    assert forall|i: int| 0 <= i < events.len() - 1 implies !((#[trigger] events[i]).event_type == 0
        && events[i].code == 0) by {
        if i < slots.len() {
            assert(events[i] == slots[i]);
        }
    }
}

/// The events that tell differences of slots are those of axes.
proof fn lemma_differences_are_of_axes(known: Seq<SlotState>, found: Seq<SlotState>, count: nat)
    ensures
        forall|i: int|
            0 <= i < slot_differences(known, found, count).len() ==> (#[trigger] slot_differences(
                known,
                found,
                count,
            )[i]).event_type == EV_ABS,
    decreases count,
{
    if count > 0 {
        lemma_differences_are_of_axes(known, found, (count - 1) as nat);
        let before = slot_differences(known, found, (count - 1) as nat);
        let whole = slot_differences(known, found, count);
        assert forall|i: int| 0 <= i < whole.len() implies (#[trigger] whole[i]).event_type
            == EV_ABS by {
            if i < before.len() {
                assert(whole[i] == before[i]);
            }
        }
    }
}

/// Slots that agree differ in nothing.
proof fn lemma_nothing_differs(known: Seq<SlotState>, found: Seq<SlotState>, count: nat)
    requires
        forall|i: int| 0 <= i < count ==> agrees(#[trigger] known[i], found[i]),
    ensures
        slot_differences(known, found, count).len() == 0,
    decreases count,
{
    if count > 0 {
        lemma_nothing_differs(known, found, (count - 1) as nat);
        assert(agrees(known[count - 1], found[count - 1]));
    }
}

/// A search by name succeeds exactly if its pattern is valid and some device has a
/// name that matches it, and finds the first such device, wherever it stands. An
/// invalid pattern is refused with its cause, whatever devices there are.
pub proof fn law_search_finds_the_first_match(
    regex_str: Seq<char>,
    devices: Seq<NamedDevice>,
    found: Result<PathBuf>,
)
    requires
        finds(regex_str, devices, found),
    ensures
        regex_new(regex_str) matches Err(failure) ==> (found matches Err(
            Error::RegexInvalid { pattern, source },
        ) && pattern@ == regex_str && source == failure),
        regex_new(regex_str) matches Ok(pattern) ==> {
            &&& found is Ok <==> exists|i: int|
                0 <= i < devices.len() && ((#[trigger] devices[i]).name matches Some(name)
                    && regex_is_match(pattern, name@))
            &&& forall|i: int|
                0 <= i < devices.len() && ((#[trigger] devices[i]).name matches Some(name)
                    && regex_is_match(pattern, name@)) && (forall|j: int|
                    0 <= j < i ==> !((#[trigger] devices[j]).name matches Some(name)
                        && regex_is_match(pattern, name@))) ==> found == Result::<PathBuf>::Ok(
                    devices[i].path,
                )
            &&& found is Err ==> (found matches Err(Error::DeviceNotFound { regex }) && regex@
                == regex_str)
        },
{
    if let Ok(pattern) = regex_new(regex_str) {
        law_first_matching_device_is_found(regex_str, pattern, devices, found);
    }
}

/// Opening fails for the first thing that is wrong, with the device and the cause:
/// it cannot be opened, it lacks a capability, or its axes cannot be read. A device
/// with nothing wrong is taken up with the ranges of its own axes, and nothing is
/// known of its contacts.
pub proof fn law_opening_fails_for_what_is_wrong(
    path: PathBuf,
    opened: std::result::Result<Capabilities, IoFailure>,
    abs_state: std::result::Result<[AxisRange; ABS_AXIS_COUNT], IoFailure>,
    device: Result<InputDevice>,
)
    requires
        opens(path, opened, abs_state, device),
    ensures
        device is Ok <==> (opened matches Ok(capabilities) && capabilities.missing() is None)
            && abs_state is Ok,
        opened matches Err(failure) ==> (device matches Err(Error::EvdevOpen { path: at, source })
            && at == path && source == failure),
        opened matches Ok(capabilities) ==> (capabilities.missing() matches Some(lacking) ==> (
        device matches Err(Error::EvdevMissingCap { path: at, capability }) && at == path
            && capability == lacking)),
        (opened matches Ok(capabilities) && capabilities.missing() is None) ==> (
        abs_state matches Err(failure) ==> (device matches Err(Error::EvdevRead { source })
            && source == failure)),
        device matches Ok(input) ==> {
            &&& input.measures(abs_state->Ok_0@[0x35], abs_state->Ok_0@[0x36])
            &&& input.pad().slots.len() == 16
            &&& forall|i: int|
                0 <= i < 16 ==> (#[trigger] input.pad().slots[i]).tracking_id == -1
                    && input.pad().slots[i].x == 0 && input.pad().slots[i].y == 0
            &&& input.pad().current_slot == 0
            &&& !input.pad().contact
        },
{
}

/// A snapshot holds the values that it was made of, in their slots, and no contact
/// in the other slots; there is one exactly if the values have slots and the
/// selected slot has a value.
pub proof fn law_snapshots_hold_their_values(
    values: Seq<(i32, i32, i32)>,
    selected_slot: Option<usize>,
    contact: bool,
)
    ensures
        fits(values, selected_slot) <==> values.len() <= 16 && (selected_slot is None
            || selected_slot->Some_0 < values.len()),
        fits(values, selected_slot) ==> {
            let contacts = contacts_of(values, selected_slot, contact);
            &&& contacts.slots.len() == 16
            &&& forall|i: int|
                0 <= i < values.len() ==> (#[trigger] contacts.slots[i]).tracking_id == values[i].0
                    && contacts.slots[i].x == values[i].1 && contacts.slots[i].y == values[i].2
            &&& forall|i: int|
                values.len() <= i < 16 ==> (#[trigger] contacts.slots[i]).tracking_id == -1
            &&& contacts.slot_count == values.len()
            &&& contacts.selected_slot == selected_slot
            &&& contacts.contact == contact
        },
{
}

/// In a frame that was read anew, a slot is selected before anything is told of it,
/// and its tracking id is told before its position, so that the position is read as
/// that of the contact that was found.
pub proof fn law_reconciliation_names_a_contact_before_its_position(
    pad: PadState,
    live: LiveContacts,
    at: int,
)
    requires
        0 <= at < difference(pad, live).len(),
        difference(pad, live)[at].event_type == 3,
    ensures
        ({
            let events = difference(pad, live);
            &&& events[at].code == 0x2f || events[at].code == 0x39 || events[at].code == 0x35
                || events[at].code == 0x36
            &&& events[at].code == 0x39 ==> at >= 1 && events[at - 1].event_type == 3 && events[at
                - 1].code == 0x2f && 0 <= events[at - 1].value < 16 && events[at].value
                == live.slots@[events[at - 1].value as int].tracking_id
            &&& events[at].code == 0x35 ==> at >= 2 && events[at - 1].event_type == 3 && events[at
                - 1].code == 0x39 && events[at - 2].event_type == 3 && events[at - 2].code == 0x2f
                && 0 <= events[at - 2].value < 16 && events[at].value == live.slots@[events[at
                - 2].value as int].x
            &&& events[at].code == 0x36 ==> at >= 3 && events[at - 1].event_type == 3 && events[at
                - 1].code == 0x35 && events[at - 3].event_type == 3 && events[at - 3].code == 0x2f
                && 0 <= events[at - 3].value < 16 && events[at].value == live.slots@[events[at
                - 3].value as int].y
        }),
{
    let slots = slot_differences(pad.slots, live.slots@, MAX_MT_SLOTS as nat);
    let events = difference(pad, live);
    if at < slots.len() {
        lemma_differences_are_named(pad.slots, live.slots@, MAX_MT_SLOTS as nat, at);
        assert(events[at] == slots[at]);
        assert(at >= 1 ==> events[at - 1] == slots[at - 1]);
        assert(at >= 2 ==> events[at - 2] == slots[at - 2]);
        assert(at >= 3 ==> events[at - 3] == slots[at - 3]);
    } else {
        assert(at == slots.len());
    }
}

/// The events that tell differences name each contact before its position.
proof fn lemma_differences_are_named(
    known: Seq<SlotState>,
    found: Seq<SlotState>,
    count: nat,
    at: int,
)
    requires
        count <= MAX_MT_SLOTS,
        0 <= at < slot_differences(known, found, count).len(),
    ensures
        ({
            let events = slot_differences(known, found, count);
            &&& events[at].code == 0x2f || events[at].code == 0x39 || events[at].code == 0x35
                || events[at].code == 0x36
            &&& events[at].code == 0x39 ==> at >= 1 && events[at - 1].event_type == 3 && events[at
                - 1].code == 0x2f && 0 <= events[at - 1].value < count && events[at].value
                == found[events[at - 1].value as int].tracking_id
            &&& events[at].code == 0x35 ==> at >= 2 && events[at - 1].event_type == 3 && events[at
                - 1].code == 0x39 && events[at - 2].event_type == 3 && events[at - 2].code == 0x2f
                && 0 <= events[at - 2].value < count && events[at].value == found[events[at
                - 2].value as int].x
            &&& events[at].code == 0x36 ==> at >= 3 && events[at - 1].event_type == 3 && events[at
                - 1].code == 0x35 && events[at - 3].event_type == 3 && events[at - 3].code == 0x2f
                && 0 <= events[at - 3].value < count && events[at].value == found[events[at
                - 3].value as int].y
        }),
    decreases count,
{
    let last = count - 1;
    let before = slot_differences(known, found, last as nat);
    let own = slot_difference(last, known[last], found[last]);
    let events = slot_differences(known, found, count);
    if at < before.len() {
        lemma_differences_are_named(known, found, last as nat, at);
        assert(events[at] == before[at]);
        assert(at >= 1 ==> events[at - 1] == before[at - 1]);
        assert(at >= 2 ==> events[at - 2] == before[at - 2]);
        assert(at >= 3 ==> events[at - 3] == before[at - 3]);
    } else {
        let i = at - before.len();
        assert(events[at] == own[i]);
        assert(i >= 1 ==> events[at - 1] == own[i - 1]);
        assert(i >= 2 ==> events[at - 2] == own[i - 2]);
        assert(i >= 3 ==> events[at - 3] == own[i - 3]);
    }
}

} // verus!
