//! The input proxy: for every physical frame it decides what the wheel does and
//! what the virtual touchpad sees.

use vstd::prelude::*;

use crate::config::Scroll;
use crate::error::IoFailure;
use crate::evdev::{
    law_lowest_contact_is_the_primary_one, ContactSnapshot, Contacts, Frame, PadState,
    PhysicalFrame,
};
use crate::event::{InputEvent, ABS_MT_SLOT, ABS_MT_TRACKING_ID};
use crate::fsm::{
    Action, ContactId, Fsm, FsmState, Gesture, Session, TouchFrame, TouchSample,
};
use crate::router::{
    law_capture_is_of_one_contact, law_capture_rests_the_cursor, law_only_positions_are_withheld,
    law_passthrough_forwards_everything, law_routed_events_show_the_pad,
    law_router_follows_the_pad, same_contacts, stays, Router, RoutingMode, SlotContext,
};
use crate::MAX_MT_SLOTS;

verus! {

/// The state of the proxy between frames.
#[verifier::ext_equal]
pub struct Proxy {
    pub session: Session,
    pub context: SlotContext,
}

impl Proxy {
    /// Whether the session follows a contact exactly while a touch lasts.
    pub open spec fn valid(self) -> bool {
        self.session.contact is Some <==> (self.session.state is Contact
            || self.session.state is Moving || self.session.state is Scrolling)
    }

    /// The touch that the gesture goes on with: that of the contact it follows,
    /// or that of the primary contact.
    pub open spec fn touch(self, contacts: Contacts) -> TouchFrame {
        match self.session.contact {
            Some(contact) => contacts.for_contact(contact),
            None => contacts.primary(),
        }
    }

    /// The session after a frame.
    pub open spec fn next_session(self, frame: Frame, gesture: Gesture, enabled: bool) -> Session {
        self.session.after(self.touch(frame.contacts), gesture, enabled)
    }

    /// The contact whose position a frame may not report: that of the scroll
    /// that the frame continues, ends or begins.
    pub open spec fn captured(self, frame: Frame, gesture: Gesture, enabled: bool) -> Option<
        ContactId,
    > {
        let next = self.next_session(frame, gesture, enabled);
        if self.session.state is Scrolling {
            self.session.contact
        } else if next.state is Scrolling {
            next.contact
        } else {
            None
        }
    }

    /// How a frame is routed.
    pub open spec fn mode(self, frame: Frame, gesture: Gesture, enabled: bool) -> RoutingMode {
        match self.captured(frame, gesture, enabled) {
            Some(contact) => RoutingMode::Capture(contact),
            None => RoutingMode::Passthrough,
        }
    }

    /// The events of a frame that are forwarded.
    pub open spec fn routed(self, frame: Frame, gesture: Gesture, enabled: bool) -> Seq<
        InputEvent,
    > {
        self.context.routed(frame.events, self.mode(frame, gesture, enabled))
    }

    /// The context after a frame. If the contacts of the frame were read anew
    /// from the device, they replace what its events say.
    pub open spec fn next_context(self, frame: Frame) -> SlotContext {
        let context = self.context.after_all(frame.events);
        if frame.reconciled {
            context.aligned(frame.contacts)
        } else {
            context
        }
    }

    /// The proxy after a frame.
    pub open spec fn after(self, frame: Frame, gesture: Gesture, enabled: bool) -> Proxy {
        Proxy {
            session: self.next_session(frame, gesture, enabled),
            context: self.next_context(frame),
        }
    }
}

/// Processes the frames of the physical pad.
#[derive(Debug)]
pub struct FrameProcessor {
    fsm: Fsm,
    router: Router,
}

impl View for FrameProcessor {
    type V = Proxy;

    closed spec fn view(&self) -> Proxy {
        Proxy { session: self.fsm@, context: self.router@ }
    }
}

impl FrameProcessor {
    /// A processor without a gesture that starts from the contacts on the pad.
    pub fn new(initial: &ContactSnapshot) -> (processor: FrameProcessor)
        ensures
            processor@ == (Proxy {
                session: Session::idle(),
                context: SlotContext::initial().aligned(initial@),
            }),
            processor@.valid(),
    {
        FrameProcessor { fsm: Fsm::new(), router: Router::from_snapshot(initial) }
    }

    /// The touch that the gesture goes on with. The geometry that
    /// [`FrameProcessor::process_frame`] is given has to be that of this touch.
    pub fn touch(&self, contacts: &ContactSnapshot) -> (touch: TouchFrame)
        ensures
            touch == self@.touch(contacts@),
    {
        match self.fsm.contact_id() {
            Some(contact) => contacts.for_contact(contact),
            None => contacts.primary(),
        }
    }

    /// Takes one frame, replaces `routed_events` by the events to forward and
    /// returns the wheel movement to emit. It never fails.
    pub fn process_frame(
        &mut self,
        frame: &PhysicalFrame,
        gesture: Gesture,
        scroll: &Scroll,
        routed_events: &mut Vec<InputEvent>,
    ) -> (action: std::result::Result<Action, IoFailure>)
        ensures
            action == std::result::Result::<Action, IoFailure>::Ok(
                old(self)@.session.action(
                    old(self)@.touch(frame@.contacts),
                    gesture,
                    scroll.enable,
                ),
            ),
            final(routed_events)@ == old(self)@.routed(frame@, gesture, scroll.enable),
            final(self)@ == old(self)@.after(frame@, gesture, scroll.enable),
            old(self)@.valid() ==> final(self)@.valid(),
            old(self)@.context.tracking_ids.len() == MAX_MT_SLOTS,
    {
        let previous = self.fsm.state();
        let tracked_before = self.fsm.contact_id();
        let touch = self.touch(&frame.contacts);
        let action = self.fsm.step(touch, gesture, scroll.enable);
        let current = self.fsm.state();
        let capture = if matches!(previous, FsmState::Scrolling) {
            tracked_before
        } else if matches!(current, FsmState::Scrolling) {
            self.fsm.contact_id()
        } else {
            None
        };
        let mode = match capture {
            Some(contact) => RoutingMode::Capture(contact),
            None => RoutingMode::Passthrough,
        };
        self.router.route_frame(frame.events.as_slice(), mode, routed_events);
        if frame.reconciled {
            self.router.reconcile(&frame.contacts);
        }
        proof {
            if old(self)@.valid() {
                lemma_touch_has_a_contact(old(self)@, frame.contacts@);
            }
        }
        Ok(action)
    }

    /// The state of the gesture.
    pub fn state(&self) -> (state: FsmState)
        ensures
            state == self@.session.state,
    {
        self.fsm.state()
    }

    /// The contact that the gesture follows.
    pub fn tracked_contact(&self) -> (contact: Option<ContactId>)
        ensures
            contact == self@.session.contact,
    {
        self.fsm.contact_id()
    }

    /// Whether the gesture is a scroll.
    pub fn is_scrolling(&self) -> (scrolling: bool)
        ensures
            scrolling == (self@.session.state is Scrolling),
    {
        matches!(self.fsm.state(), FsmState::Scrolling)
    }

    /// The slot that the events are read for.
    pub fn router_selected_slot(&self) -> (slot: Option<usize>)
        ensures
            slot matches Some(selected) && selected == self@.context.current_slot,
    {
        self.router.selected_slot()
    }
}

/// A touch that the proxy goes on with belongs to a contact.
proof fn lemma_touch_has_a_contact(proxy: Proxy, contacts: Contacts)
    ensures
        proxy.touch(contacts).touches() ==> proxy.touch(contacts).contact_id is Some,
{
}

/// Every frame keeps the proxy valid.
pub proof fn law_frames_keep_the_proxy_valid(
    proxy: Proxy,
    frame: Frame,
    gesture: Gesture,
    enabled: bool,
)
    requires
        proxy.valid(),
    ensures
        proxy.after(frame, gesture, enabled).valid(),
{
}

/// A frame is captured exactly if it continues, ends or begins a scroll, and
/// then for the contact that the scroll follows.
pub proof fn law_scroll_frames_are_captured(
    proxy: Proxy,
    frame: Frame,
    gesture: Gesture,
    enabled: bool,
)
    requires
        proxy.valid(),
    ensures
        proxy.captured(frame, gesture, enabled) is Some <==> proxy.session.state is Scrolling
            || proxy.after(frame, gesture, enabled).session.state is Scrolling,
        proxy.captured(frame, gesture, enabled) is Some ==> proxy.captured(frame, gesture, enabled)
            == proxy.session.contact,
{
}

/// While the pad scrolls the cursor rests: a frame that continues, ends or
/// begins a scroll forwards no position of the primary contact.
pub proof fn law_cursor_rests_while_scrolling(
    proxy: Proxy,
    frame: Frame,
    gesture: Gesture,
    enabled: bool,
)
    requires
        proxy.valid(),
        proxy.session.state is Scrolling || proxy.after(
            frame,
            gesture,
            enabled,
        ).session.state is Scrolling,
    ensures
        forall|i: int|
            0 <= i < proxy.routed(frame, gesture, enabled).len() ==> !(#[trigger] proxy.routed(
                frame,
                gesture,
                enabled,
            )[i]).is_primary_position(),
{
    law_scroll_frames_are_captured(proxy, frame, gesture, enabled);
    let contact = proxy.captured(frame, gesture, enabled)->Some_0;
    law_capture_rests_the_cursor(proxy.context, frame.events, contact);
}

/// The contact that scrolls does not move the cursor: while it is the selected
/// one on the pad, a frame of its scroll that neither selects a slot nor reports
/// a tracking id forwards everything but positions.
pub proof fn law_scrolling_contact_is_withheld(
    proxy: Proxy,
    pad: PadState,
    frame: Frame,
    gesture: Gesture,
    enabled: bool,
    contact: ContactId,
)
    requires
        proxy.valid(),
        proxy.context == proxy.context.aligned(pad.contacts()),
        proxy.session.contact == Some(contact),
        proxy.session.state is Scrolling || proxy.after(
            frame,
            gesture,
            enabled,
        ).session.state is Scrolling,
        pad.current_slot == contact.slot,
        pad.contacts().holds(contact),
        forall|i: int|
            0 <= i < frame.events.len() ==> !(#[trigger] frame.events[i]).is_axis(ABS_MT_SLOT)
                && !frame.events[i].is_axis(ABS_MT_TRACKING_ID),
    ensures
        proxy.routed(frame, gesture, enabled) == frame.events.filter(
            |event: InputEvent| !event.is_position() && !event.ends_frame(),
        ),
{
    law_scroll_frames_are_captured(proxy, frame, gesture, enabled);
    assert(proxy.context.tracking_ids[contact.slot as int] == pad.slots[contact.slot as int].tracking_id);
    law_capture_is_of_one_contact(proxy.context, frame.events, contact);
}

/// What the virtual touchpad shows is what the pad reports, but for a contact
/// that scrolls. If both agree on all contacts before a frame of the pad, they
/// do so afterwards. A slot that is shown as it is stays so, unless its contact
/// scrolls. A contact that scrolls is shown where it was, as long as it keeps its
/// slot.
pub proof fn law_virtual_pad_shows_the_pad(
    proxy: Proxy,
    shown: PadState,
    pad: PadState,
    frame: Frame,
    gesture: Gesture,
    enabled: bool,
)
    requires
        proxy.valid(),
        pad.slots.len() == MAX_MT_SLOTS,
        same_contacts(shown, pad),
        proxy.context == proxy.context.aligned(pad.contacts()),
        forall|i: int|
            0 <= i < frame.events.len() && (#[trigger] frame.events[i]).is_axis(ABS_MT_SLOT)
                ==> frame.events[i].value < MAX_MT_SLOTS,
    ensures
        ({
            let scrolls = proxy.session.state is Scrolling || proxy.after(
                frame,
                gesture,
                enabled,
            ).session.state is Scrolling;
            let shown_after = shown.after_all(proxy.routed(frame, gesture, enabled));
            let pad_after = pad.after_all(frame.events);
            &&& same_contacts(shown_after, pad_after)
            &&& forall|i: int|
                0 <= i < MAX_MT_SLOTS && shown.slots[i] == pad.slots[i] && (scrolls ==> i
                    != proxy.session.contact->Some_0.slot) ==> #[trigger] shown_after.slots[i]
                    == pad_after.slots[i]
            &&& scrolls ==> {
                let contact = proxy.session.contact->Some_0;
                &&& proxy.session.contact is Some
                &&& contact.slot < MAX_MT_SLOTS && stays(contact, pad, frame.events)
                    ==> shown_after.slots[contact.slot as int] == shown.slots[contact.slot as int]
            }
        }),
{
    law_scroll_frames_are_captured(proxy, frame, gesture, enabled);
    law_routed_events_show_the_pad(
        proxy.context,
        shown,
        pad,
        frame.events,
        proxy.mode(frame, gesture, enabled),
    );
}

/// Outside a scroll the proxy is transparent: a frame is forwarded as it came,
/// but for the events that end a frame, and the wheel does not move.
pub proof fn law_frames_pass_outside_a_scroll(
    proxy: Proxy,
    frame: Frame,
    gesture: Gesture,
    enabled: bool,
)
    requires
        !(proxy.session.state is Scrolling),
        !(proxy.after(frame, gesture, enabled).session.state is Scrolling),
    ensures
        proxy.routed(frame, gesture, enabled) == frame.events.filter(
            |event: InputEvent| !event.ends_frame(),
        ),
        proxy.session.action(proxy.touch(frame.contacts), gesture, enabled) == Action::Nothing,
{
    law_passthrough_forwards_everything(proxy.context, frame.events);
}

/// Buttons, slot changes, tracking ids and all other events that are no
/// positions pass in every frame.
pub proof fn law_only_positions_are_kept_back(
    proxy: Proxy,
    frame: Frame,
    gesture: Gesture,
    enabled: bool,
)
    ensures
        proxy.routed(frame, gesture, enabled).filter(|event: InputEvent| !event.is_position())
            == frame.events.filter(
            |event: InputEvent| !event.is_position() && !event.ends_frame(),
        ),
{
    law_only_positions_are_withheld(
        proxy.context,
        frame.events,
        proxy.mode(frame, gesture, enabled),
    );
}

/// The proxy follows the pad: if it is aligned with the pad before a frame of
/// the pad, it is aligned with it afterwards, as long as no slot is selected
/// that is not tracked.
pub proof fn law_proxy_follows_the_pad(
    proxy: Proxy,
    pad: PadState,
    frame: Frame,
    gesture: Gesture,
    enabled: bool,
)
    requires
        proxy.context == proxy.context.aligned(pad.contacts()),
        frame.contacts == pad.after_all(frame.events).contacts(),
        forall|i: int|
            0 <= i < frame.events.len() && (#[trigger] frame.events[i]).is_axis(ABS_MT_SLOT)
                ==> frame.events[i].value < MAX_MT_SLOTS,
    ensures
        proxy.after(frame, gesture, enabled).context == proxy.after(
            frame,
            gesture,
            enabled,
        ).context.aligned(frame.contacts),
{
    law_router_follows_the_pad(proxy.context, pad, frame.events);
}

/// A session follows its contact alone: two frames that agree on whether a finger
/// is down and on the slot of that contact have the same effect on the session and
/// on the wheel, whatever the other slots hold.
pub proof fn law_session_follows_its_contact_alone(
    proxy: Proxy,
    contact: ContactId,
    first: Frame,
    second: Frame,
    gesture: Gesture,
    enabled: bool,
)
    requires
        proxy.session.contact == Some(contact),
        first.contacts.contact == second.contacts.contact,
        first.contacts.slots.len() == second.contacts.slots.len(),
        contact.slot < first.contacts.slots.len() ==> first.contacts.slots[contact.slot as int]
            == second.contacts.slots[contact.slot as int],
    ensures
        proxy.touch(first.contacts) == proxy.touch(second.contacts),
        proxy.after(first, gesture, enabled).session == proxy.after(
            second,
            gesture,
            enabled,
        ).session,
        proxy.session.action(proxy.touch(first.contacts), gesture, enabled)
            == proxy.session.action(proxy.touch(second.contacts), gesture, enabled),
{
}

/// A scroll ends with the contact that it follows, and not before: once no finger
/// is down or the slot of that contact has another tracking id, the next state is
/// the one after a scroll and the wheel does not move, whatever other fingers do;
/// as long as the contact is there, the scroll goes on and the wheel moves as the
/// finger turns.
pub proof fn law_scroll_lasts_as_long_as_its_contact(
    proxy: Proxy,
    contact: ContactId,
    frame: Frame,
    gesture: Gesture,
)
    requires
        proxy.session.state is Scrolling,
        proxy.session.contact == Some(contact),
    ensures
        ({
            let there = frame.contacts.contact && contact.slot < frame.contacts.slots.len()
                && frame.contacts.slots[contact.slot as int].tracking_id == contact.tracking_id;
            let next = proxy.after(frame, gesture, true).session;
            let action = proxy.session.action(proxy.touch(frame.contacts), gesture, true);
            &&& !there ==> next.state is Debounce && next.contact is None && action is Nothing
            &&& there ==> next == proxy.session && action == gesture.wheel
        }),
{
}

/// A touch that does not scroll ends with the contact that it follows, too, and it
/// follows no other contact.
pub proof fn law_touch_lasts_as_long_as_its_contact(
    proxy: Proxy,
    contact: ContactId,
    frame: Frame,
    gesture: Gesture,
)
    requires
        proxy.session.state is Contact || proxy.session.state is Moving,
        proxy.session.contact == Some(contact),
    ensures
        ({
            let there = frame.contacts.contact && contact.slot < frame.contacts.slots.len()
                && frame.contacts.slots[contact.slot as int].tracking_id == contact.tracking_id;
            let next = proxy.after(frame, gesture, true).session;
            &&& !there ==> next.state is Idle && next.contact is None
            &&& there ==> next.contact == Some(contact) && !(next.state is Idle)
        }),
{
}

/// The touch of a contact that is followed is where its slot is.
pub proof fn law_followed_touch_is_where_its_slot_is(
    proxy: Proxy,
    contact: ContactId,
    contacts: Contacts,
)
    requires
        proxy.session.contact == Some(contact),
    ensures
        ({
            let there = contacts.contact && contact.slot < contacts.slots.len()
                && contacts.slots[contact.slot as int].tracking_id == contact.tracking_id;
            let touch = proxy.touch(contacts);
            &&& touch.contact == there
            &&& touch.contact_id == Some(contact)
            &&& there ==> (touch.pos matches Some(pos) && pos.x
                == contacts.slots[contact.slot as int].x && pos.y
                == contacts.slots[contact.slot as int].y)
            &&& !there ==> touch.pos is None
        }),
{
}

/// A new session follows the contact in the lowest slot that holds one, from where
/// it came down; without a contact there is no session.
pub proof fn law_session_begins_with_the_lowest_contact(
    proxy: Proxy,
    frame: Frame,
    gesture: Gesture,
    slot: int,
)
    requires
        proxy.session.state is Idle,
        proxy.session.contact is None,
        frame.contacts.slots.len() <= MAX_MT_SLOTS,
    ensures
        ({
            let slots = frame.contacts.slots;
            let next = proxy.after(frame, gesture, true).session;
            &&& frame.contacts.contact && 0 <= slot < slots.len() && slots[slot].tracking_id != -1
                && (forall|i: int| 0 <= i < slot ==> (#[trigger] slots[i]).tracking_id == -1) ==> {
                &&& next.contact == Some(
                    ContactId { slot: slot as usize, tracking_id: slots[slot].tracking_id },
                )
                &&& gesture.inside_dead_zone ==> next.state is Contact
                &&& !gesture.inside_dead_zone ==> next.state == (FsmState::Moving {
                    engage_start: TouchSample { x: slots[slot].x, y: slots[slot].y },
                })
            }
            &&& !frame.contacts.contact || (forall|i: int|
                0 <= i < slots.len() ==> (#[trigger] slots[i]).tracking_id == -1)
                ==> next.state is Idle && next.contact is None
        }),
{
    law_lowest_contact_is_the_primary_one(frame.contacts, slot);
}

/// The frame of a scroll is routed for the contact that scrolls, and every other
/// frame is not captured: also the frame in which a scroll begins, and the one in
/// which it ends, belong to it.
pub proof fn law_frames_of_a_scroll_are_routed_for_its_contact(
    proxy: Proxy,
    frame: Frame,
    gesture: Gesture,
    enabled: bool,
)
    requires
        proxy.valid(),
    ensures
        ({
            let scrolls = proxy.session.state is Scrolling || proxy.after(
                frame,
                gesture,
                enabled,
            ).session.state is Scrolling;
            &&& scrolls ==> (proxy.session.contact matches Some(contact) && proxy.routed(
                frame,
                gesture,
                enabled,
            ) == proxy.context.routed(frame.events, RoutingMode::Capture(contact)))
            &&& !scrolls ==> proxy.routed(frame, gesture, enabled) == proxy.context.routed(
                frame.events,
                RoutingMode::Passthrough,
            )
        }),
{
}

/// The events of a frame are read whatever is forwarded of them, and contacts that
/// were read anew are taken over.
pub proof fn law_context_goes_on_with_every_frame(
    proxy: Proxy,
    frame: Frame,
    gesture: Gesture,
    enabled: bool,
)
    ensures
        ({
            let context = proxy.after(frame, gesture, enabled).context;
            let read = proxy.context.after_all(frame.events);
            &&& !frame.reconciled ==> context == read
            &&& frame.reconciled ==> context.tracking_ids.len() == frame.contacts.slots.len()
                && forall|i: int|
                0 <= i < frame.contacts.slots.len() ==> #[trigger] context.tracking_ids[i]
                    == frame.contacts.slots[i].tracking_id
            &&& frame.reconciled ==> (frame.contacts.selected_slot matches Some(slot)
                ==> context.current_slot == slot)
            &&& frame.reconciled && frame.contacts.selected_slot is None ==> context.current_slot
                == read.current_slot
        }),
{
}

/// With scrolling disabled the proxy is transparent but for a scroll that was under
/// way, which ends at once without moving the wheel.
pub proof fn law_disabled_proxy_has_no_session(proxy: Proxy, frame: Frame, gesture: Gesture)
    ensures
        proxy.after(frame, gesture, false).session.state is Idle,
        proxy.after(frame, gesture, false).session.contact is None,
        proxy.session.action(proxy.touch(frame.contacts), gesture, false) is Nothing,
{
}

} // verus!
