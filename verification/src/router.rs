//! Routing of physical frames to the virtual touchpad.
//!
//! While a contact is captured by a scroll gesture its position is withheld,
//! so that the cursor rests; everything else is forwarded as it came.

use vstd::prelude::*;

use crate::evdev::{ContactSnapshot, Contacts, PadState};
use crate::event::{
    InputEvent, ABS_MT_POSITION_X, ABS_MT_POSITION_Y, ABS_MT_SLOT, ABS_MT_TRACKING_ID, ABS_X, ABS_Y,
    EV_ABS, INACTIVE_TRACKING_ID,
};
use crate::fsm::ContactId;
use crate::MAX_MT_SLOTS;

verus! {

/// What becomes of positions in a frame.
#[derive(Clone, Copy, Debug, PartialEq, Eq, Structural)]
pub enum RoutingMode {
    /// Every event is forwarded.
    Passthrough,
    /// The position of this contact is withheld.
    Capture(ContactId),
}

impl Default for RoutingMode {
    fn default() -> (mode: RoutingMode)
        ensures
            mode == RoutingMode::Passthrough,
    {
        RoutingMode::Passthrough
    }
}

/// The multi-touch context that events are read in: the selected slot, and the
/// tracking id that was last reported for each slot.
#[verifier::ext_equal]
pub struct SlotContext {
    pub current_slot: int,
    pub tracking_ids: Seq<i32>,
}

impl SlotContext {
    /// The context before any event: slot 0 is selected, and no slot holds a
    /// contact.
    pub open spec fn initial() -> SlotContext {
        SlotContext {
            current_slot: 0,
            tracking_ids: Seq::new(MAX_MT_SLOTS as nat, |i: int| INACTIVE_TRACKING_ID),
        }
    }

    /// The context that `contacts` describe. If they leave the selected slot
    /// open, it stays.
    pub open spec fn aligned(self, contacts: Contacts) -> SlotContext {
        SlotContext {
            current_slot: match contacts.selected_slot {
                Some(slot) => slot as int,
                None => self.current_slot,
            },
            tracking_ids: contacts.tracking_ids(),
        }
    }

    /// The context after `event`. A negative slot number is ignored, and so is
    /// a tracking id for a slot that is not tracked.
    pub open spec fn after(self, event: InputEvent) -> SlotContext {
        if event.is_axis(ABS_MT_SLOT) && event.value >= 0 {
            SlotContext { current_slot: event.value as int, ..self }
        } else if event.is_axis(ABS_MT_TRACKING_ID) && 0 <= self.current_slot
            < self.tracking_ids.len() {
            SlotContext {
                tracking_ids: self.tracking_ids.update(self.current_slot, event.value),
                ..self
            }
        } else {
            self
        }
    }

    /// The context after all of `events`.
    pub open spec fn after_all(self, events: Seq<InputEvent>) -> SlotContext
        decreases events.len(),
    {
        if events.len() == 0 {
            self
        } else {
            self.after_all(events.drop_last()).after(events.last())
        }
    }

    /// Whether the selected slot holds `contact`.
    pub open spec fn selects(self, contact: ContactId) -> bool {
        &&& self.current_slot == contact.slot
        &&& 0 <= self.current_slot < self.tracking_ids.len()
        &&& self.tracking_ids[self.current_slot] == contact.tracking_id
    }

    /// Whether `event`, read in this context, is withheld in `mode`.
    pub open spec fn withholds(self, event: InputEvent, mode: RoutingMode) -> bool {
        match mode {
            RoutingMode::Passthrough => false,
            RoutingMode::Capture(contact) => {
                ||| event.is_primary_position()
                ||| event.is_slot_position() && self.selects(contact)
            },
        }
    }

    /// Whether `event` is forwarded when it arrives in this context.
    pub open spec fn forwards(self, event: InputEvent, mode: RoutingMode) -> bool {
        !self.after(event).withholds(event, mode) && !event.ends_frame()
    }

    /// The events among `events` that are forwarded, in order.
    pub open spec fn routed(self, events: Seq<InputEvent>, mode: RoutingMode) -> Seq<InputEvent>
        decreases events.len(),
    {
        if events.len() == 0 {
            Seq::empty()
        } else {
            let before = self.routed(events.drop_last(), mode);
            if self.after_all(events.drop_last()).forwards(events.last(), mode) {
                before.push(events.last())
            } else {
                before
            }
        }
    }
}

/// Follows the slot context of the event stream and routes its frames.
#[derive(Debug)]
pub struct Router {
    current_slot: usize,
    tracking_ids: [i32; MAX_MT_SLOTS],
}

impl View for Router {
    type V = SlotContext;

    closed spec fn view(&self) -> SlotContext {
        SlotContext { current_slot: self.current_slot as int, tracking_ids: self.tracking_ids@ }
    }
}

impl Default for Router {
    fn default() -> (router: Router)
        ensures
            router@ == SlotContext::initial(),
    {
        let router = Router { current_slot: 0, tracking_ids: [INACTIVE_TRACKING_ID; MAX_MT_SLOTS] };
        proof {
            assert(router.tracking_ids@ =~= SlotContext::initial().tracking_ids);
        }
        router
    }
}

impl Router {
    /// A router that knows of no contact and reads slot 0.
    pub fn new() -> (router: Router)
        ensures
            router@ == SlotContext::initial(),
    {
        Router::default()
    }

    /// A router that starts from the contacts on the pad.
    pub fn from_snapshot(contacts: &ContactSnapshot) -> (router: Router)
        ensures
            router@ == SlotContext::initial().aligned(contacts@),
    {
        let mut router = Router::new();
        router.reconcile(contacts);
        router
    }

    /// Takes over the contacts on the pad.
    pub fn reconcile(&mut self, contacts: &ContactSnapshot)
        ensures
            final(self)@ == old(self)@.aligned(contacts@),
    {
        if let Some(slot) = contacts.selected_slot() {
            self.current_slot = slot;
        }
        self.tracking_ids = contacts.tracking_ids();
    }

    /// The slot that is selected.
    pub fn selected_slot(&self) -> (slot: Option<usize>)
        ensures
            slot matches Some(selected) && selected == self@.current_slot,
    {
        Some(self.current_slot)
    }

    /// Routes one frame: `output` is replaced by the events to forward.
    ///
    /// The event that ends the frame is left out, because the virtual device
    /// ends every batch itself. Call this once for each physical frame, so that
    /// frames keep their boundaries.
    pub fn route_frame(
        &mut self,
        events: &[InputEvent],
        mode: RoutingMode,
        output: &mut Vec<InputEvent>,
    )
        ensures
            final(self)@ == old(self)@.after_all(events@),
            final(output)@ == old(self)@.routed(events@, mode),
            old(self)@.tracking_ids.len() == MAX_MT_SLOTS,
    {
        output.clear();
        output.reserve(events.len());

        let mut index: usize = 0;
        while index < events.len()
            invariant
                index <= events@.len(),
                self@ == old(self)@.after_all(events@.take(index as int)),
                output@ == old(self)@.routed(events@.take(index as int), mode),
            decreases events@.len() - index,
        {
            let event = events[index];
            let ghost seen = events@.take(index as int);
            let ghost context = self@;
            assert(events@.take(index + 1).drop_last() =~= seen);
            index = index + 1;

            let mut withheld = false;
            if event.event_type == EV_ABS {
                if event.code == ABS_MT_SLOT && event.value >= 0 {
                    self.current_slot = event.value as usize;
                }
                if event.code == ABS_MT_TRACKING_ID && self.current_slot < MAX_MT_SLOTS {
                    self.tracking_ids[self.current_slot] = event.value;
                }
                withheld = self.suppress_position(event.code, mode);
            }
            assert(self@ =~= context.after(event));
            if !withheld && !event.is_report() {
                output.push(event);
            }
        }
        assert(events@.take(index as int) =~= events@);
    }

    /// Whether the position that the axis `axis` reports is withheld.
    fn suppress_position(&self, axis: u16, mode: RoutingMode) -> (result: bool)
        ensures
            forall|event: InputEvent|
                event.event_type == EV_ABS && event.code == axis ==> result == (
                #[trigger] self@.withholds(event, mode)),
    {
        match mode {
            RoutingMode::Passthrough => false,
            RoutingMode::Capture(contact) => {
                if axis == ABS_X || axis == ABS_Y {
                    true
                } else if axis == ABS_MT_POSITION_X || axis == ABS_MT_POSITION_Y {
                    self.current_slot == contact.slot && self.current_slot < MAX_MT_SLOTS
                        && self.tracking_ids[self.current_slot] == contact.tracking_id
                } else {
                    false
                }
            },
        }
    }
}

/// Splitting the stream does not change what is routed: the context that a
/// frame leaves behind is all that the next frame needs.
pub proof fn law_routing_composes(
    context: SlotContext,
    first: Seq<InputEvent>,
    second: Seq<InputEvent>,
    mode: RoutingMode,
)
    ensures
        context.after_all(first + second) == context.after_all(first).after_all(second),
        context.routed(first + second, mode) == context.routed(first, mode) + context.after_all(
            first,
        ).routed(second, mode),
    decreases second.len(),
{
    if second.len() == 0 {
        assert(first + second =~= first);
        assert(context.routed(first, mode) + Seq::<InputEvent>::empty() =~= context.routed(
            first,
            mode,
        ));
    } else {
        law_routing_composes(context, first, second.drop_last(), mode);
        assert((first + second).drop_last() =~= first + second.drop_last());
        assert(context.routed(first + second, mode) =~= context.routed(first, mode)
            + context.after_all(first).routed(second, mode));
    }
}

/// Without a captured contact every event is forwarded in order, but for the
/// ones that end a frame.
pub proof fn law_passthrough_forwards_everything(context: SlotContext, events: Seq<InputEvent>)
    ensures
        context.routed(events, RoutingMode::Passthrough) == events.filter(
            |event: InputEvent| !event.ends_frame(),
        ),
    decreases events.len(),
{
    reveal(Seq::filter);
    if events.len() > 0 {
        law_passthrough_forwards_everything(context, events.drop_last());
    }
}

/// Capturing a contact withholds nothing but positions: buttons, slot changes,
/// tracking ids and all other events are forwarded in order in every mode.
pub proof fn law_only_positions_are_withheld(
    context: SlotContext,
    events: Seq<InputEvent>,
    mode: RoutingMode,
)
    ensures
        context.routed(events, mode).filter(|event: InputEvent| !event.is_position())
            == events.filter(|event: InputEvent| !event.is_position() && !event.ends_frame()),
    decreases events.len(),
{
    reveal(Seq::filter);
    let rest = |event: InputEvent| !event.is_position();
    if events.len() > 0 {
        law_only_positions_are_withheld(context, events.drop_last(), mode);
        let before = context.routed(events.drop_last(), mode);
        let routed = context.routed(events, mode);
        if routed != before {
            assert(routed.drop_last() =~= before);
        }
    }
}

/// While a contact is captured the cursor rests: the position of the primary
/// contact is never forwarded.
pub proof fn law_capture_rests_the_cursor(
    context: SlotContext,
    events: Seq<InputEvent>,
    contact: ContactId,
)
    ensures
        forall|i: int|
            0 <= i < context.routed(events, RoutingMode::Capture(contact)).len()
                ==> !(#[trigger] context.routed(
                events,
                RoutingMode::Capture(contact),
            )[i]).is_primary_position(),
    decreases events.len(),
{
    if events.len() > 0 {
        law_capture_rests_the_cursor(context, events.drop_last(), contact);
        let mode = RoutingMode::Capture(contact);
        let before = context.routed(events.drop_last(), mode);
        let routed = context.routed(events, mode);
        assert forall|i: int| 0 <= i < routed.len() implies !(
        #[trigger] routed[i]).is_primary_position() by {
            if i < before.len() {
                assert(routed[i] == before[i]);
            }
        }
    }
}

/// A position event is withheld exactly when it is the primary position or the
/// selected slot holds the captured contact.
pub proof fn law_capture_withholds_the_captured_position(
    context: SlotContext,
    event: InputEvent,
    contact: ContactId,
)
    requires
        event.is_position(),
    ensures
        context.forwards(event, RoutingMode::Capture(contact)) <==> !event.is_primary_position()
            && !context.selects(contact),
{
}

/// A contact that takes over the slot of the captured contact is not captured:
/// once the slot has a new tracking id, its positions are forwarded.
pub proof fn law_reused_slot_is_forwarded(
    context: SlotContext,
    tracking: InputEvent,
    position: InputEvent,
    contact: ContactId,
)
    requires
        tracking.is_axis(ABS_MT_TRACKING_ID),
        tracking.value != contact.tracking_id,
        context.selects(contact),
        position.is_slot_position(),
    ensures
        context.after(tracking).forwards(position, RoutingMode::Capture(contact)),
{
}

/// In a frame that neither selects a slot nor reports a tracking id, capturing
/// the contact in the selected slot withholds all positions, and capturing
/// another contact withholds those of the primary contact alone.
pub proof fn law_capture_is_of_one_contact(
    context: SlotContext,
    events: Seq<InputEvent>,
    contact: ContactId,
)
    requires
        forall|i: int|
            0 <= i < events.len() ==> !(#[trigger] events[i]).is_axis(ABS_MT_SLOT)
                && !events[i].is_axis(ABS_MT_TRACKING_ID),
    ensures
        context.selects(contact) ==> context.routed(events, RoutingMode::Capture(contact))
            == events.filter(|event: InputEvent| !event.is_position() && !event.ends_frame()),
        !context.selects(contact) ==> context.routed(events, RoutingMode::Capture(contact))
            == events.filter(
            |event: InputEvent| !event.is_primary_position() && !event.ends_frame(),
        ),
    decreases events.len(),
{
    reveal(Seq::filter);
    if events.len() > 0 {
        law_capture_is_of_one_contact(context, events.drop_last(), contact);
        law_context_survives(context, events.drop_last());
        let last = events[events.len() - 1];
        assert(!last.is_axis(ABS_MT_SLOT));
    }
}

/// The context survives frame boundaries and all events that neither select a
/// slot nor report a tracking id.
pub proof fn law_context_survives(context: SlotContext, events: Seq<InputEvent>)
    requires
        forall|i: int|
            0 <= i < events.len() ==> !(#[trigger] events[i]).is_axis(ABS_MT_SLOT)
                && !events[i].is_axis(ABS_MT_TRACKING_ID),
    ensures
        context.after_all(events) == context,
    decreases events.len(),
{
    if events.len() > 0 {
        law_context_survives(context, events.drop_last());
        let last = events[events.len() - 1];
        assert(!last.is_axis(ABS_MT_SLOT));
    }
}

/// The router and the pad read the event stream alike: a router that is aligned
/// with the pad stays aligned with it, as long as no slot is selected that is
/// not tracked.
pub proof fn law_router_follows_the_pad(
    context: SlotContext,
    pad: PadState,
    events: Seq<InputEvent>,
)
    requires
        context == context.aligned(pad.contacts()),
        forall|i: int|
            0 <= i < events.len() && (#[trigger] events[i]).is_axis(ABS_MT_SLOT)
                ==> events[i].value < MAX_MT_SLOTS,
    ensures
        context.after_all(events) == context.after_all(events).aligned(
            pad.after_all(events).contacts(),
        ),
    decreases events.len(),
{
    if events.len() > 0 {
        law_router_follows_the_pad(context, pad, events.drop_last());
        let last = events.last();
        assert(last == events[events.len() - 1]);
        let before = pad.after_all(events.drop_last());
        assert(context.after_all(events) =~= context.after_all(events).aligned(
            before.after(last).contacts(),
        ));
    }
}

/// Whether two pads agree on the selected slot, on whether a finger is down, and
/// on the contact in each slot.
pub open spec fn same_contacts(shown: PadState, pad: PadState) -> bool {
    &&& shown.current_slot == pad.current_slot
    &&& shown.contact == pad.contact
    &&& shown.slots.len() == pad.slots.len()
    &&& forall|i: int|
        0 <= i < pad.slots.len() ==> (#[trigger] shown.slots[i]).tracking_id
            == pad.slots[i].tracking_id
}

/// Whether `contact` keeps its slot while `events` come from a pad in the state
/// `pad`.
pub open spec fn stays(contact: ContactId, pad: PadState, events: Seq<InputEvent>) -> bool {
    forall|count: int|
        0 <= count <= events.len() ==> (#[trigger] pad.after_all(
            events.take(count),
        )).slots[contact.slot as int].tracking_id == contact.tracking_id
}

/// Events do not change how many slots there are.
proof fn lemma_slots_are_kept(pad: PadState, events: Seq<InputEvent>)
    ensures
        pad.after_all(events).slots.len() == pad.slots.len(),
    decreases events.len(),
{
    if events.len() > 0 {
        lemma_slots_are_kept(pad, events.drop_last());
    }
}

/// Two pads that agree on all contacts still do after an event that both read,
/// and a slot that they agree on stays so.
proof fn lemma_step_shows_the_pad(shown: PadState, pad: PadState, event: InputEvent)
    requires
        same_contacts(shown, pad),
    ensures
        same_contacts(shown.after(event), pad.after(event)),
        forall|i: int|
            0 <= i < pad.slots.len() && shown.slots[i] == pad.slots[i] ==> #[trigger] shown.after(
                event,
            ).slots[i] == pad.after(event).slots[i],
{
}

/// What the forwarded events show is what the pad reports, but for the captured
/// contact. A pad that reads them agrees with the physical pad on all contacts.
/// A slot that was shown as it is stays so, unless it is that of the captured
/// contact. As long as the captured contact keeps its slot, it is shown where it
/// was.
pub proof fn law_routed_events_show_the_pad(
    context: SlotContext,
    shown: PadState,
    pad: PadState,
    events: Seq<InputEvent>,
    mode: RoutingMode,
)
    requires
        pad.slots.len() == MAX_MT_SLOTS,
        same_contacts(shown, pad),
        context == context.aligned(pad.contacts()),
        forall|i: int|
            0 <= i < events.len() && (#[trigger] events[i]).is_axis(ABS_MT_SLOT)
                ==> events[i].value < MAX_MT_SLOTS,
    ensures
        ({
            let shown_after = shown.after_all(context.routed(events, mode));
            let pad_after = pad.after_all(events);
            &&& same_contacts(shown_after, pad_after)
            &&& forall|i: int|
                0 <= i < MAX_MT_SLOTS && shown.slots[i] == pad.slots[i] && (
                mode matches RoutingMode::Capture(contact) ==> i != contact.slot)
                    ==> #[trigger] shown_after.slots[i] == pad_after.slots[i]
            &&& mode matches RoutingMode::Capture(contact) ==> contact.slot < MAX_MT_SLOTS && stays(
                contact,
                pad,
                events,
            ) ==> shown_after.slots[contact.slot as int] == shown.slots[contact.slot as int]
        }),
    decreases events.len(),
{
    if events.len() > 0 {
        let init = events.drop_last();
        let last = events.last();
        assert(last == events[events.len() - 1]);
        law_routed_events_show_the_pad(context, shown, pad, init, mode);
        law_router_follows_the_pad(context, pad, init);
        lemma_slots_are_kept(pad, init);
        let shown_before = shown.after_all(context.routed(init, mode));
        let pad_before = pad.after_all(init);
        let routed = context.routed(events, mode);
        let reader = context.after_all(init);
        assert(reader.current_slot == pad_before.current_slot);
        assert forall|i: int| 0 <= i < MAX_MT_SLOTS implies #[trigger] reader.tracking_ids[i]
            == pad_before.slots[i].tracking_id by {
            assert(pad_before.contacts().tracking_ids()[i] == pad_before.slots[i].tracking_id);
        }
        if reader.forwards(last, mode) {
            assert(routed.drop_last() =~= context.routed(init, mode));
            assert(shown.after_all(routed) == shown_before.after(last));
            lemma_step_shows_the_pad(shown_before, pad_before, last);
        } else {
            assert(routed == context.routed(init, mode));
        }
        if let RoutingMode::Capture(contact) = mode {
            if contact.slot < MAX_MT_SLOTS && stays(contact, pad, events) {
                assert forall|count: int| 0 <= count <= init.len() implies (
                #[trigger] pad.after_all(init.take(count))).slots[contact.slot as int].tracking_id
                    == contact.tracking_id by {
                    assert(init.take(count) =~= events.take(count));
                }
                assert(stays(contact, pad, init));
                let last_count = events.len() as int;
                assert(events.take(last_count) =~= events);
                assert(pad.after_all(events.take(last_count)).slots[contact.slot as int].tracking_id
                    == contact.tracking_id);
                assert(init.take(last_count - 1) =~= init);
                assert(shown_before.slots[contact.slot as int].tracking_id == contact.tracking_id);
                assert(shown.after_all(routed).slots[contact.slot as int]
                    == shown.slots[contact.slot as int]);
            }
        }
        assert forall|i: int|
            0 <= i < MAX_MT_SLOTS && shown.slots[i] == pad.slots[i] && (
            mode matches RoutingMode::Capture(contact) ==> i != contact.slot) implies (
        #[trigger] shown.after_all(routed).slots[i]) == pad.after_all(events).slots[i] by {
            assert(shown_before.slots[i] == pad_before.slots[i]);
        }
    } else {
        assert(context.routed(events, mode) =~= Seq::empty());
    }
}

/// A slot that is selected is remembered, whether it is tracked or not, and so is
/// the tracking id that is reported for a tracked slot; nothing else changes the
/// context.
pub proof fn law_context_remembers_selection_and_identity(context: SlotContext, event: InputEvent)
    ensures
        ({
            let next = context.after(event);
            let selects = event.event_type == 3 && event.code == 0x2f && event.value >= 0;
            let names = event.event_type == 3 && event.code == 0x39 && 0 <= context.current_slot
                < context.tracking_ids.len();
            &&& next.current_slot == if selects { event.value as int } else { context.current_slot }
            &&& next.tracking_ids.len() == context.tracking_ids.len()
            &&& forall|i: int|
                0 <= i < context.tracking_ids.len() ==> #[trigger] next.tracking_ids[i] == (
                if names && i == context.current_slot {
                    event.value
                } else {
                    context.tracking_ids[i]
                })
        }),
{
}

/// Before any event, slot 0 is selected and no slot holds a contact; contacts that
/// are taken over replace all tracking ids, and the selection if they have one.
pub proof fn law_context_takes_over_contacts(context: SlotContext, contacts: Contacts)
    ensures
        SlotContext::initial().current_slot == 0,
        SlotContext::initial().tracking_ids.len() == 16,
        forall|i: int|
            0 <= i < 16 ==> #[trigger] SlotContext::initial().tracking_ids[i] == -1,
        contacts.selected_slot matches Some(slot) ==> context.aligned(contacts).current_slot
            == slot,
        contacts.selected_slot is None ==> context.aligned(contacts).current_slot
            == context.current_slot,
        context.aligned(contacts).tracking_ids.len() == contacts.slots.len(),
        forall|i: int|
            0 <= i < contacts.slots.len() ==> #[trigger] context.aligned(contacts).tracking_ids[i]
                == contacts.slots[i].tracking_id,
{
}

/// The context is read from the events one after the other.
pub proof fn law_context_is_read_in_order(
    context: SlotContext,
    events: Seq<InputEvent>,
    event: InputEvent,
)
    ensures
        context.after_all(Seq::empty()) == context,
        context.after_all(events.push(event)) == context.after_all(events).after(event),
{
    assert(events.push(event).drop_last() =~= events);
}

/// What is forwarded of one more event is decided by that event and by the slot
/// that is selected when it arrives: reports are left out, a captured contact has
/// its positions and those of the primary contact left out, and everything else is
/// forwarded behind what was forwarded before.
pub proof fn law_each_event_is_forwarded_or_withheld(
    context: SlotContext,
    events: Seq<InputEvent>,
    event: InputEvent,
    mode: RoutingMode,
)
    ensures
        ({
            let seen = context.after_all(events);
            let report = event.event_type == 0 && event.code == 0;
            let mirror = event.event_type == 3 && (event.code == 0 || event.code == 1);
            let position = event.event_type == 3 && (event.code == 0x35 || event.code == 0x36);
            let withheld = match mode {
                RoutingMode::Passthrough => false,
                RoutingMode::Capture(contact) => mirror || position && seen.current_slot
                    == contact.slot && contact.slot < seen.tracking_ids.len()
                    && seen.tracking_ids[contact.slot as int] == contact.tracking_id,
            };
            &&& context.routed(Seq::empty(), mode) == Seq::<InputEvent>::empty()
            &&& context.routed(events.push(event), mode) == if report || withheld {
                context.routed(events, mode)
            } else {
                context.routed(events, mode).push(event)
            }
        }),
{
    assert(events.push(event).drop_last() =~= events);
    assert(events.push(event).last() == event);
}

/// Forwarding keeps the order and adds nothing: every event that is forwarded came.
pub proof fn law_forwarded_events_came(
    context: SlotContext,
    events: Seq<InputEvent>,
    mode: RoutingMode,
)
    ensures
        context.routed(events, mode).len() <= events.len(),
        forall|i: int|
            0 <= i < context.routed(events, mode).len() ==> events.contains(
                #[trigger] context.routed(events, mode)[i],
            ),
    decreases events.len(),
{
    if events.len() > 0 {
        let init = events.drop_last();
        law_forwarded_events_came(context, init, mode);
        let before = context.routed(init, mode);
        let routed = context.routed(events, mode);
        assert forall|i: int| 0 <= i < routed.len() implies events.contains(
            #[trigger] routed[i],
        ) by {
            if i < before.len() {
                assert(routed[i] == before[i]);
                let at = choose|at: int| 0 <= at < init.len() && init[at] == before[i];
                assert(events[at] == routed[i]);
            } else {
                assert(events[events.len() - 1] == routed[i]);
            }
        }
    }
}

} // verus!
