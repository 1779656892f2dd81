//! The gesture state machine.
//!
//! A touch that begins outside the dead zone around the center of the pad may
//! become a scroll: once it has swept past the trigger angle it scrolls until
//! the finger lifts. A touch that begins inside the dead zone, or slips back
//! into it, moves the cursor until the finger lifts.

use vstd::prelude::*;

verus! {

/// A position on the pad, in device coordinates.
#[derive(Clone, Copy, Debug, PartialEq, Eq, Structural)]
pub struct TouchSample {
    pub x: i32,
    pub y: i32,
}

/// A contact: the slot it occupies and the tracking id it was given there.
#[derive(Clone, Copy, Debug, PartialEq, Eq, Structural)]
pub struct ContactId {
    pub slot: usize,
    pub tracking_id: i32,
}

/// What one frame says of the contact that is followed.
#[derive(Clone, Copy, Debug, PartialEq, Eq, Structural)]
pub struct TouchFrame {
    /// Whether the finger is down.
    pub contact: bool,
    /// Where it is.
    pub pos: Option<TouchSample>,
    /// Which contact it is.
    pub contact_id: Option<ContactId>,
}

impl TouchFrame {
    /// Whether the frame places a finger on the pad.
    pub open spec fn touches(self) -> bool {
        self.contact && self.pos is Some
    }
}

/// A wheel movement to emit, in ticks.
#[derive(Clone, Copy, Debug, PartialEq, Eq, Structural)]
pub enum Action {
    Nothing,
    EmitWheelV(i32),
    EmitWheelH(i32),
}

/// What the geometry of the gesture says of a touch.
#[derive(Clone, Copy, Debug, PartialEq, Eq, Structural)]
pub struct Gesture {
    /// The touch is inside the dead zone.
    pub inside_dead_zone: bool,
    /// The touch has swept past the trigger angle since the gesture began.
    pub past_trigger: bool,
    /// The wheel movement that the rotation amounts to.
    pub wheel: Action,
}

/// Where the gesture stands.
#[derive(Clone, Copy, Debug, PartialEq, Eq, Structural)]
pub enum FsmState {
    /// No gesture.
    Idle,
    /// A touch that moves the cursor.
    Contact,
    /// A touch that began outside the dead zone and may become a scroll.
    Moving { engage_start: TouchSample },
    /// A scroll.
    Scrolling,
    /// The frame after a scroll.
    Debounce,
}

/// The state of the gesture and the contact it follows.
#[derive(Clone, Copy, Debug, PartialEq, Eq, Structural)]
pub struct Session {
    pub state: FsmState,
    pub contact: Option<ContactId>,
}

impl Session {
    /// The session without a gesture.
    pub open spec fn idle() -> Session {
        Session { state: FsmState::Idle, contact: None }
    }

    /// Whether the session follows a contact only while a touch lasts.
    pub open spec fn valid(self) -> bool {
        self.state is Idle || self.state is Debounce ==> self.contact is None
    }

    /// The session after a frame. With scrolling disabled it stays idle.
    pub open spec fn after(self, touch: TouchFrame, gesture: Gesture, enabled: bool) -> Session {
        if !enabled {
            Session::idle()
        } else {
            match self.state {
                FsmState::Idle => if !touch.touches() {
                    Session::idle()
                } else if gesture.inside_dead_zone {
                    Session { state: FsmState::Contact, contact: touch.contact_id }
                } else {
                    Session {
                        state: FsmState::Moving { engage_start: touch.pos->Some_0 },
                        contact: touch.contact_id,
                    }
                },
                FsmState::Contact => if touch.touches() {
                    self
                } else {
                    Session::idle()
                },
                FsmState::Moving { .. } => if !touch.touches() {
                    Session::idle()
                } else if gesture.inside_dead_zone {
                    Session { state: FsmState::Contact, contact: self.contact }
                } else if gesture.past_trigger {
                    Session { state: FsmState::Scrolling, contact: self.contact }
                } else {
                    self
                },
                FsmState::Scrolling => if touch.touches() {
                    self
                } else {
                    Session { state: FsmState::Debounce, contact: None }
                },
                FsmState::Debounce => Session::idle(),
            }
        }
    }

    /// The wheel movement that a frame causes: that of the gesture while the
    /// session scrolls, and none otherwise.
    pub open spec fn action(self, touch: TouchFrame, gesture: Gesture, enabled: bool) -> Action {
        if enabled && self.state is Scrolling && touch.touches() {
            gesture.wheel
        } else {
            Action::Nothing
        }
    }
}

/// The gesture state machine.
#[derive(Debug)]
pub struct Fsm {
    session: Session,
}

impl View for Fsm {
    type V = Session;

    closed spec fn view(&self) -> Session {
        self.session
    }
}

impl Fsm {
    #[verifier::type_invariant]
    closed spec fn well_formed(self) -> bool {
        self.session.valid()
    }

    /// A machine without a gesture.
    pub fn new() -> (fsm: Fsm)
        ensures
            fsm@ == Session::idle(),
    {
        Fsm { session: Session { state: FsmState::Idle, contact: None } }
    }

    /// The state of the gesture.
    pub fn state(&self) -> (state: FsmState)
        ensures
            state == self@.state,
    {
        self.session.state
    }

    /// The contact that the gesture follows. There is none outside a touch.
    pub fn contact_id(&self) -> (contact: Option<ContactId>)
        ensures
            contact == self@.contact,
            self@.valid(),
    {
        proof {
            use_type_invariant(self);
        }
        self.session.contact
    }

    /// Takes one frame and returns the wheel movement to emit.
    pub fn step(&mut self, touch: TouchFrame, gesture: Gesture, enabled: bool) -> (action: Action)
        ensures
            final(self)@ == old(self)@.after(touch, gesture, enabled),
            action == old(self)@.action(touch, gesture, enabled),
            final(self)@.valid(),
    {
        proof {
            use_type_invariant(&*self);
        }
        let session = self.session;
        if !enabled {
            self.session = Session { state: FsmState::Idle, contact: None };
            return Action::Nothing;
        }
        let touched = match touch.pos {
            Some(pos) if touch.contact => Some(pos),
            _ => None,
        };
        let mut action = Action::Nothing;
        let next = match (session.state, touched) {
            (FsmState::Idle, Some(pos)) => Session {
                state: if gesture.inside_dead_zone {
                    FsmState::Contact
                } else {
                    FsmState::Moving { engage_start: pos }
                },
                contact: touch.contact_id,
            },
            (FsmState::Contact, Some(_)) => session,
            (FsmState::Moving { engage_start }, Some(_)) => Session {
                state: if gesture.inside_dead_zone {
                    FsmState::Contact
                } else if gesture.past_trigger {
                    FsmState::Scrolling
                } else {
                    FsmState::Moving { engage_start }
                },
                contact: session.contact,
            },
            (FsmState::Scrolling, Some(_)) => {
                action = gesture.wheel;
                session
            },
            (FsmState::Scrolling, None) => Session { state: FsmState::Debounce, contact: None },
            _ => Session { state: FsmState::Idle, contact: None },
        };
        self.session = next;
        action
    }

    /// Abandons the gesture.
    pub fn force_idle(&mut self)
        ensures
            final(self)@ == Session::idle(),
    {
        self.session = Session { state: FsmState::Idle, contact: None };
    }
}

/// A touch that began in the dead zone never scrolls: from `Contact` a frame
/// leads to `Contact` while the finger stays down, and to `Idle` when it lifts.
pub proof fn law_contact_never_engages(
    session: Session,
    touch: TouchFrame,
    gesture: Gesture,
    enabled: bool,
)
    requires
        session.state is Contact,
    ensures
        session.after(touch, gesture, enabled).state is Contact || session.after(
            touch,
            gesture,
            enabled,
        ).state is Idle,
        session.after(touch, gesture, enabled).state is Contact <==> enabled && touch.touches(),
{
}

/// A scroll is entered from `Moving` alone, by a touch that is outside the dead
/// zone and past the trigger angle, and it keeps the contact that it began with.
pub proof fn law_scroll_is_entered_past_the_trigger(
    session: Session,
    touch: TouchFrame,
    gesture: Gesture,
    enabled: bool,
)
    requires
        !(session.state is Scrolling),
    ensures
        session.after(touch, gesture, enabled).state is Scrolling <==> {
            &&& enabled
            &&& session.state is Moving
            &&& touch.touches()
            &&& !gesture.inside_dead_zone
            &&& gesture.past_trigger
        },
        session.after(touch, gesture, enabled).state is Scrolling ==> session.after(
            touch,
            gesture,
            enabled,
        ).contact == session.contact,
{
}

/// A scroll lasts exactly as long as its contact stays down, whatever the
/// geometry says, and the frame in which it ends leads to `Debounce`.
pub proof fn law_scroll_ends_on_lift(session: Session, touch: TouchFrame, gesture: Gesture)
    requires
        session.state is Scrolling,
    ensures
        touch.touches() ==> session.after(touch, gesture, true) == session,
        !touch.touches() ==> session.after(touch, gesture, true).state is Debounce,
{
}

/// `Debounce` lasts one frame, whether or not a finger is down again, so that
/// every scroll is followed by a frame without a gesture.
pub proof fn law_debounce_lasts_one_frame(
    session: Session,
    touch: TouchFrame,
    gesture: Gesture,
    enabled: bool,
)
    requires
        session.state is Debounce,
    ensures
        session.after(touch, gesture, enabled) == Session::idle(),
        session.action(touch, gesture, enabled) == Action::Nothing,
{
}

/// With scrolling disabled every frame leaves the machine idle and silent.
pub proof fn law_disabled_holds_idle(session: Session, touch: TouchFrame, gesture: Gesture)
    ensures
        session.after(touch, gesture, false) == Session::idle(),
        session.action(touch, gesture, false) == Action::Nothing,
{
}

/// The wheel moves only in frames before and after which the machine scrolls.
pub proof fn law_wheel_moves_only_while_scrolling(
    session: Session,
    touch: TouchFrame,
    gesture: Gesture,
    enabled: bool,
)
    requires
        session.action(touch, gesture, enabled) != Action::Nothing,
    ensures
        session.state is Scrolling,
        session.after(touch, gesture, enabled) == session,
{
}

/// While a touch lasts, the machine follows the contact that it began with;
/// validity is kept by every frame.
pub proof fn law_contact_is_kept_while_touching(
    session: Session,
    touch: TouchFrame,
    gesture: Gesture,
    enabled: bool,
)
    requires
        session.valid(),
    ensures
        session.after(touch, gesture, enabled).valid(),
        session.state is Contact || session.state is Moving || session.state is Scrolling ==> {
            let next = session.after(touch, gesture, enabled);
            next.contact == session.contact || next.contact is None && (next.state is Idle
                || next.state is Debounce)
        },
{
}

/// A touch begins a session: without a session, a finger that is on the pad makes
/// the one that follows it, which moves the cursor if the finger came down inside
/// the dead zone and remembers where it came down otherwise. Without a finger
/// there is no session.
pub proof fn law_touch_begins_a_session(session: Session, touch: TouchFrame, gesture: Gesture)
    requires
        session.state is Idle,
    ensures
        ({
            let next = session.after(touch, gesture, true);
            &&& touch.contact && touch.pos is Some ==> next.contact == touch.contact_id
            &&& touch.contact && touch.pos is Some && gesture.inside_dead_zone
                ==> next.state is Contact
            &&& touch.contact && touch.pos is Some && !gesture.inside_dead_zone ==> next.state
                == (FsmState::Moving { engage_start: touch.pos->Some_0 })
            &&& !touch.contact || touch.pos is None ==> next.state is Idle && next.contact is None
            &&& session.action(touch, gesture, true) is Nothing
        }),
{
}

/// A touch that may become a scroll keeps its contact and the place where it
/// began as long as it neither slips into the dead zone, nor passes the trigger
/// angle, nor ends.
pub proof fn law_moving_touch_is_decided_once(
    session: Session,
    start: TouchSample,
    touch: TouchFrame,
    gesture: Gesture,
)
    requires
        session.state == (FsmState::Moving { engage_start: start }),
    ensures
        ({
            let next = session.after(touch, gesture, true);
            let down = touch.contact && touch.pos is Some;
            &&& down ==> next.contact == session.contact
            &&& down && gesture.inside_dead_zone ==> next.state is Contact
            &&& down && !gesture.inside_dead_zone && gesture.past_trigger ==> next.state is Scrolling
            &&& down && !gesture.inside_dead_zone && !gesture.past_trigger ==> next.state == (
            FsmState::Moving { engage_start: start })
            &&& !down ==> next.state is Idle && next.contact is None
        }),
{
}

/// A touch that moves the cursor stays as it is until the finger lifts, and the
/// lift ends it.
pub proof fn law_cursor_touch_lasts_until_the_lift(
    session: Session,
    touch: TouchFrame,
    gesture: Gesture,
)
    requires
        session.state is Contact,
    ensures
        touch.contact && touch.pos is Some ==> session.after(touch, gesture, true) == session,
        !touch.contact || touch.pos is None ==> session.after(touch, gesture, true).state is Idle
            && session.after(touch, gesture, true).contact is None,
{
}

/// While a scroll lasts, the wheel moves exactly as the finger turns, and a lift
/// moves it no more: there is no coasting, and the contact is let go.
pub proof fn law_scroll_turns_the_wheel(session: Session, touch: TouchFrame, gesture: Gesture)
    requires
        session.state is Scrolling,
    ensures
        touch.contact && touch.pos is Some ==> session.action(touch, gesture, true) == gesture.wheel
            && session.after(touch, gesture, true) == session,
        !touch.contact || touch.pos is None ==> session.action(touch, gesture, true) is Nothing
            && session.after(touch, gesture, true) == (Session {
            state: FsmState::Debounce,
            contact: None,
        }),
{
}

/// Outside a scroll the wheel does not move, whatever the geometry says, also in
/// the frame in which a scroll begins; with scrolling disabled it never does.
pub proof fn law_wheel_rests_outside_a_scroll(
    session: Session,
    touch: TouchFrame,
    gesture: Gesture,
    enabled: bool,
)
    requires
        !enabled || !(session.state is Scrolling),
    ensures
        session.action(touch, gesture, enabled) is Nothing,
        !enabled ==> session.after(touch, gesture, enabled).state is Idle && session.after(
            touch,
            gesture,
            enabled,
        ).contact is None,
{
}

/// Every scroll is followed by a frame in which nothing begins, even with a finger
/// down.
pub proof fn law_nothing_begins_in_the_frame_after_a_scroll(
    session: Session,
    touch: TouchFrame,
    gesture: Gesture,
    enabled: bool,
)
    requires
        session.state is Debounce,
    ensures
        session.after(touch, gesture, enabled).state is Idle,
        session.after(touch, gesture, enabled).contact is None,
        session.action(touch, gesture, enabled) is Nothing,
{
}

/// The machine without a gesture follows nothing.
pub proof fn law_idle_follows_nothing()
    ensures
        Session::idle().state is Idle,
        Session::idle().contact is None,
{
}

} // verus!
