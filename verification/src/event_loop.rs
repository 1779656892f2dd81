//! The event loop: what to do next, given what came of the last step.
//!
//! The loop waits for the touchpad and for the shutdown signal. It answers the
//! signal first, then reads the frames of the touchpad, and for each frame
//! moves the wheel and forwards the events. While a scroll lasts it does not
//! wait without limit, so that a contact that has vanished is noticed.

use vstd::prelude::*;
use vstd::string::*;

use crate::error::{Errno, Error, IoFailure, IoKind, Result};
use crate::fsm::Action;
use crate::runtime::{shutdown_requested, LoopExit, SIGINT, SIGTERM};

verus! {

/// Flag of a descriptor that can be read.
pub const POLLIN: u16 = 0x0001;

/// Flag of a descriptor with an error.
pub const POLLERR: u16 = 0x0008;

/// Flag of a descriptor whose other end is gone.
pub const POLLHUP: u16 = 0x0010;

/// Flag of a descriptor that is not open.
pub const POLLNVAL: u16 = 0x0020;

/// The flags of a descriptor that cannot be used any more.
pub const POLL_BROKEN: u16 = 0x0038;

/// Number of the error of a failed I/O operation.
pub const EIO: i32 = 5;

/// Number of the error of a device that does not exist.
pub const ENODEV: i32 = 19;

/// How long to wait for events during a scroll, in milliseconds.
pub const SCROLL_TIMEOUT_MS: i32 = 1000;

/// Waits without limit.
pub const NO_TIMEOUT: i32 = -1;

/// The flags that waiting for events reports of a descriptor.
#[derive(Clone, Copy, Debug, PartialEq, Eq, Structural)]
pub struct Readiness {
    pub bits: u16,
}

impl Readiness {
    /// Whether the descriptor can be read.
    pub open spec fn readable(self) -> bool {
        self.bits & POLLIN != 0
    }

    /// Whether the descriptor cannot be used any more.
    pub open spec fn broken(self) -> bool {
        self.bits & POLLERR != 0 || self.bits & POLLHUP != 0 || self.bits & POLLNVAL != 0
    }

    /// Whether the descriptor can be read.
    pub fn is_readable(&self) -> (readable: bool)
        ensures
            readable == self.readable(),
    {
        self.bits & POLLIN != 0
    }

    /// Whether the descriptor cannot be used any more.
    pub fn is_broken(&self) -> (broken: bool)
        ensures
            broken == self.broken(),
    {
        let bits = self.bits;
        assert(bits & 0x0038 != 0 <==> bits & 0x0008 != 0 || bits & 0x0010 != 0 || bits & 0x0020
            != 0) by (bit_vector);
        bits & POLL_BROKEN != 0
    }
}

/// What came of the last step.
#[derive(Debug)]
pub enum LoopEvent {
    /// Nothing happened within the time limit.
    PollTimedOut,
    /// Waiting was interrupted.
    PollInterrupted,
    /// Waiting failed.
    PollFailed(Errno),
    /// Something happened; `report` is how the flags of the touchpad are shown.
    PollReady { input: Readiness, signal: Readiness, report: String },
    /// The number of the signal that was read, if there was one.
    SignalRead(std::result::Result<Option<u32>, Errno>),
    /// The contacts were read anew, which makes one frame.
    Reconciled(std::result::Result<(), IoFailure>),
    /// The number of frames that were read.
    FramesRead(std::result::Result<usize, IoFailure>),
    /// The wheel movement that a frame causes.
    FrameProcessed(std::result::Result<Action, IoFailure>),
    /// The wheel was moved.
    WheelMoved(std::result::Result<(), IoFailure>),
    /// The events of a frame were forwarded.
    FrameForwarded(std::result::Result<(), IoFailure>),
}

/// What to do next.
#[derive(Debug)]
pub enum LoopCommand {
    /// Wait for the touchpad and the signal.
    Poll { timeout_ms: i32 },
    /// Read the signal.
    ReadSignal,
    /// Read the contacts anew.
    Reconcile,
    /// Read the frames of the touchpad.
    ReadFrames,
    /// Process the frame at this index.
    ProcessFrame(usize),
    /// Move the vertical wheel.
    EmitVertical(i32),
    /// Move the horizontal wheel.
    EmitHorizontal(i32),
    /// Forward the routed events of the frame.
    Forward,
    /// Stop.
    Stop(LoopExit),
}

/// What the loop waits for.
#[derive(Debug)]
pub enum LoopState {
    Polling,
    /// The signal is read before the touchpad is looked at.
    ReadingSignal { input: Readiness, signal: Readiness, report: String },
    Reconciling,
    ReadingFrames,
    /// The frame at `next`, of `count` frames, is processed.
    Processing { next: usize, count: usize },
    /// The wheel moves for that frame.
    MovingWheel { next: usize, count: usize },
    /// The events of that frame are forwarded.
    Forwarding { next: usize, count: usize },
    Stopped,
}

impl LoopState {
    /// Whether the loop is at one of the frames that it has.
    pub open spec fn valid(self) -> bool {
        match self {
            LoopState::Processing { next, count } => next < count,
            LoopState::MovingWheel { next, count } => next < count,
            LoopState::Forwarding { next, count } => next < count,
            _ => true,
        }
    }

    /// Whether `event` is what the loop waits for.
    pub open spec fn accepts(self, event: LoopEvent) -> bool {
        match self {
            LoopState::Polling => event is PollTimedOut || event is PollInterrupted
                || event is PollFailed || event is PollReady,
            LoopState::ReadingSignal { .. } => event is SignalRead,
            LoopState::Reconciling => event is Reconciled,
            LoopState::ReadingFrames => event is FramesRead,
            LoopState::Processing { .. } => event is FrameProcessed,
            LoopState::MovingWheel { .. } => event is WheelMoved,
            LoopState::Forwarding { .. } => event is FrameForwarded,
            LoopState::Stopped => false,
        }
    }
}

/// How long to wait for events: with a limit during a scroll alone.
pub open spec fn timeout(scrolling: bool) -> i32 {
    if scrolling {
        SCROLL_TIMEOUT_MS
    } else {
        NO_TIMEOUT
    }
}

/// Whether the loop waits for events next.
pub open spec fn polls(scrolling: bool, next: LoopState, command: LoopCommand) -> bool {
    next is Polling && command == (LoopCommand::Poll { timeout_ms: timeout(scrolling) })
}

/// Whether the loop stops for the reason `exit`.
pub open spec fn stops(exit: LoopExit, next: LoopState, command: LoopCommand) -> bool {
    next is Stopped && command == LoopCommand::Stop(exit)
}

/// Whether the loop does the right thing once the signal does not ask it to
/// stop: it stops if a descriptor is broken, and reads the touchpad if it can.
pub open spec fn looks_at_input(
    input: Readiness,
    signal: Readiness,
    report: Seq<char>,
    scrolling: bool,
    next: LoopState,
    command: LoopCommand,
) -> bool {
    if signal.broken() {
        stops(LoopExit::SignalReadFailed { source: Errno { code: EIO } }, next, command)
    } else if input.broken() {
        &&& next is Stopped
        &&& command matches LoopCommand::Stop(LoopExit::InputDisconnected { source })
        &&& source.kind == IoKind::BrokenPipe
        &&& source.os_error is None
        &&& source.text@ == "poll reported "@ + report
    } else if input.readable() {
        next is ReadingFrames && command is ReadFrames
    } else {
        polls(scrolling, next, command)
    }
}

/// Whether the loop turns to the frame at `index` next, or waits if there is no
/// such frame.
pub open spec fn goes_on_with(
    index: int,
    count: usize,
    scrolling: bool,
    next: LoopState,
    command: LoopCommand,
) -> bool {
    if index < count {
        &&& next == (LoopState::Processing { next: index as usize, count })
        &&& command == LoopCommand::ProcessFrame(index as usize)
    } else {
        polls(scrolling, next, command)
    }
}

/// Whether `command` is what the loop does on `event`, and `next` what it waits
/// for afterwards.
pub open spec fn reacts(
    state: LoopState,
    event: LoopEvent,
    scrolling: bool,
    next: LoopState,
    command: LoopCommand,
) -> bool {
    match (state, event) {
        (LoopState::Polling, LoopEvent::PollTimedOut) => next is Reconciling
            && command is Reconcile,
        (LoopState::Polling, LoopEvent::PollInterrupted) => polls(scrolling, next, command),
        (LoopState::Polling, LoopEvent::PollFailed(errno)) => stops(
            LoopExit::PollFailed { source: errno },
            next,
            command,
        ),
        (LoopState::Polling, LoopEvent::PollReady { input, signal, report }) => {
            if signal.readable() {
                next == (LoopState::ReadingSignal { input, signal, report })
                    && command is ReadSignal
            } else {
                looks_at_input(input, signal, report@, scrolling, next, command)
            }
        },
        (
            LoopState::ReadingSignal { input, signal, report },
            LoopEvent::SignalRead(read),
        ) => match read {
            Err(errno) => stops(LoopExit::SignalReadFailed { source: errno }, next, command),
            Ok(number) => if number == Some(SIGTERM) || number == Some(SIGINT) {
                stops(LoopExit::RequestedShutdown, next, command)
            } else {
                looks_at_input(input, signal, report@, scrolling, next, command)
            },
        },
        (LoopState::Reconciling, LoopEvent::Reconciled(read)) => match read {
            Err(failure) => stops(LoopExit::InputReadFailed { source: failure }, next, command),
            Ok(()) => goes_on_with(0, 1, scrolling, next, command),
        },
        (LoopState::ReadingFrames, LoopEvent::FramesRead(read)) => match read {
            Err(failure) => if failure.os_error == Some(ENODEV) {
                stops(LoopExit::InputDisconnected { source: failure }, next, command)
            } else {
                stops(LoopExit::InputReadFailed { source: failure }, next, command)
            },
            Ok(count) => goes_on_with(0, count, scrolling, next, command),
        },
        (
            LoopState::Processing { next: index, count },
            LoopEvent::FrameProcessed(processed),
        ) => match processed {
            Err(failure) => stops(LoopExit::InputReadFailed { source: failure }, next, command),
            Ok(Action::Nothing) => next == (LoopState::Forwarding { next: index, count })
                && command is Forward,
            Ok(Action::EmitWheelV(ticks)) => next == (LoopState::MovingWheel { next: index, count })
                && command == LoopCommand::EmitVertical(ticks),
            Ok(Action::EmitWheelH(ticks)) => next == (LoopState::MovingWheel { next: index, count })
                && command == LoopCommand::EmitHorizontal(ticks),
        },
        (LoopState::MovingWheel { next: index, count }, LoopEvent::WheelMoved(moved)) => {
            match moved {
                Err(failure) => stops(
                    LoopExit::VirtualWheelFailed { source: failure },
                    next,
                    command,
                ),
                Ok(()) => next == (LoopState::Forwarding { next: index, count })
                    && command is Forward,
            }
        },
        (LoopState::Forwarding { next: index, count }, LoopEvent::FrameForwarded(forwarded)) => {
            match forwarded {
                Err(failure) => stops(
                    LoopExit::VirtualTouchpadFailed { source: failure },
                    next,
                    command,
                ),
                Ok(()) => goes_on_with(index + 1, count, scrolling, next, command),
            }
        },
        _ => false,
    }
}

/// The event loop of the daemon.
#[derive(Debug)]
pub struct EventLoop {
    state: LoopState,
}

impl View for EventLoop {
    type V = LoopState;

    closed spec fn view(&self) -> LoopState {
        self.state
    }
}

impl EventLoop {
    #[verifier::type_invariant]
    closed spec fn well_formed(self) -> bool {
        self.state.valid()
    }

    /// A loop that waits for events, and how long it does.
    pub fn start(scrolling: bool) -> (started: (EventLoop, LoopCommand))
        ensures
            polls(scrolling, started.0@, started.1),
    {
        (EventLoop { state: LoopState::Polling }, poll(scrolling))
    }

    /// What the loop waits for.
    pub fn state(&self) -> (state: &LoopState)
        ensures
            *state == self@,
            self@.valid(),
    {
        proof {
            use_type_invariant(self);
        }
        &self.state
    }

    /// Whether `event` is what the loop waits for.
    pub fn accepts(&self, event: &LoopEvent) -> (accepted: bool)
        ensures
            accepted == self@.accepts(*event),
    {
        match (&self.state, event) {
            (LoopState::Polling, LoopEvent::PollTimedOut) => true,
            (LoopState::Polling, LoopEvent::PollInterrupted) => true,
            (LoopState::Polling, LoopEvent::PollFailed(_)) => true,
            (LoopState::Polling, LoopEvent::PollReady { .. }) => true,
            (LoopState::ReadingSignal { .. }, LoopEvent::SignalRead(_)) => true,
            (LoopState::Reconciling, LoopEvent::Reconciled(_)) => true,
            (LoopState::ReadingFrames, LoopEvent::FramesRead(_)) => true,
            (LoopState::Processing { .. }, LoopEvent::FrameProcessed(_)) => true,
            (LoopState::MovingWheel { .. }, LoopEvent::WheelMoved(_)) => true,
            (LoopState::Forwarding { .. }, LoopEvent::FrameForwarded(_)) => true,
            _ => false,
        }
    }

    /// Takes what came of the last step and returns what to do next.
    pub fn step(&mut self, event: LoopEvent, scrolling: bool) -> (command: LoopCommand)
        requires
            old(self)@.accepts(event),
        ensures
            reacts(old(self)@, event, scrolling, final(self)@, command),
            final(self)@.valid(),
    {
        proof {
            use_type_invariant(&*self);
        }
        let mut state = LoopState::Stopped;
        std::mem::swap(&mut state, &mut self.state);
        let (next, command) = react(state, event, scrolling);
        self.state = next;
        command
    }
}

/// The command to wait for events.
fn poll(scrolling: bool) -> (command: LoopCommand)
    ensures
        command == (LoopCommand::Poll { timeout_ms: timeout(scrolling) }),
{
    LoopCommand::Poll { timeout_ms: if scrolling { SCROLL_TIMEOUT_MS } else { NO_TIMEOUT } }
}

/// Looks at the touchpad once the signal does not ask the loop to stop.
fn look_at_input(
    input: Readiness,
    signal: Readiness,
    report: String,
    scrolling: bool,
) -> (reaction: (LoopState, LoopCommand))
    ensures
        looks_at_input(input, signal, report@, scrolling, reaction.0, reaction.1),
        reaction.0.valid(),
{
    if signal.is_broken() {
        let exit = LoopExit::SignalReadFailed { source: Errno { code: EIO } };
        (LoopState::Stopped, LoopCommand::Stop(exit))
    } else if input.is_broken() {
        let source = IoFailure {
            kind: IoKind::BrokenPipe,
            os_error: None,
            text: "poll reported ".to_owned().concat(report.as_str()),
        };
        (LoopState::Stopped, LoopCommand::Stop(LoopExit::InputDisconnected { source }))
    } else if input.is_readable() {
        (LoopState::ReadingFrames, LoopCommand::ReadFrames)
    } else {
        (LoopState::Polling, poll(scrolling))
    }
}

/// Turns to the frame at `index`, or waits if there is no such frame.
fn go_on_with(index: usize, count: usize, scrolling: bool) -> (reaction: (LoopState, LoopCommand))
    ensures
        goes_on_with(index as int, count, scrolling, reaction.0, reaction.1),
        reaction.0.valid(),
{
    if index < count {
        (LoopState::Processing { next: index, count }, LoopCommand::ProcessFrame(index))
    } else {
        (LoopState::Polling, poll(scrolling))
    }
}

/// What the loop does on `event`, and what it waits for afterwards.
fn react(state: LoopState, event: LoopEvent, scrolling: bool) -> (reaction: (
    LoopState,
    LoopCommand,
))
    requires
        state.valid(),
        state.accepts(event),
    ensures
        reacts(state, event, scrolling, reaction.0, reaction.1),
        reaction.0.valid(),
{
    let exit = match (state, event) {
        (LoopState::Polling, LoopEvent::PollTimedOut) => {
            return (LoopState::Reconciling, LoopCommand::Reconcile);
        },
        (LoopState::Polling, LoopEvent::PollInterrupted) => {
            return (LoopState::Polling, poll(scrolling));
        },
        (LoopState::Polling, LoopEvent::PollFailed(source)) => LoopExit::PollFailed { source },
        (LoopState::Polling, LoopEvent::PollReady { input, signal, report }) => {
            if signal.is_readable() {
                return (
                    LoopState::ReadingSignal { input, signal, report },
                    LoopCommand::ReadSignal,
                );
            }
            return look_at_input(input, signal, report, scrolling);
        },
        (LoopState::ReadingSignal { input, signal, report }, LoopEvent::SignalRead(read)) => {
            match read {
                Err(source) => LoopExit::SignalReadFailed { source },
                Ok(number) => {
                    if !shutdown_requested(number) {
                        return look_at_input(input, signal, report, scrolling);
                    }
                    LoopExit::RequestedShutdown
                },
            }
        },
        (LoopState::Reconciling, LoopEvent::Reconciled(read)) => match read {
            Err(source) => LoopExit::InputReadFailed { source },
            Ok(()) => return go_on_with(0, 1, scrolling),
        },
        (LoopState::ReadingFrames, LoopEvent::FramesRead(read)) => match read {
            Err(source) => match source.os_error {
                Some(number) if number == ENODEV => LoopExit::InputDisconnected { source },
                _ => LoopExit::InputReadFailed { source },
            },
            Ok(count) => return go_on_with(0, count, scrolling),
        },
        (LoopState::Processing { next, count }, LoopEvent::FrameProcessed(processed)) => {
            match processed {
                Err(source) => LoopExit::InputReadFailed { source },
                Ok(Action::Nothing) => {
                    return (LoopState::Forwarding { next, count }, LoopCommand::Forward);
                },
                Ok(Action::EmitWheelV(ticks)) => {
                    return (
                        LoopState::MovingWheel { next, count },
                        LoopCommand::EmitVertical(ticks),
                    );
                },
                Ok(Action::EmitWheelH(ticks)) => {
                    return (
                        LoopState::MovingWheel { next, count },
                        LoopCommand::EmitHorizontal(ticks),
                    );
                },
            }
        },
        (LoopState::MovingWheel { next, count }, LoopEvent::WheelMoved(moved)) => match moved {
            Err(source) => LoopExit::VirtualWheelFailed { source },
            Ok(()) => return (LoopState::Forwarding { next, count }, LoopCommand::Forward),
        },
        (LoopState::Forwarding { next, count }, LoopEvent::FrameForwarded(forwarded)) => {
            match forwarded {
                Err(source) => LoopExit::VirtualTouchpadFailed { source },
                Ok(()) => return go_on_with(next + 1, count, scrolling),
            }
        },
        _ => LoopExit::InputReadFailed { source: IoFailure::other("the event loop is out of step") },
    };
    (LoopState::Stopped, LoopCommand::Stop(exit))
}

/// How the daemon ends: only a requested shutdown is a success.
pub open spec fn outcome(exit: LoopExit) -> Result<()> {
    if exit is RequestedShutdown {
        Ok(())
    } else {
        Err(Error::Runtime { source: exit })
    }
}

/// How the daemon ends: only a requested shutdown is a success.
pub fn exit_result(exit: LoopExit) -> (result: Result<()>)
    ensures
        result == outcome(exit),
{
    if exit.is_success() {
        Ok(())
    } else {
        Err(Error::Runtime { source: exit })
    }
}

/// The loop ends in success only when a signal asks it to stop.
pub proof fn law_only_a_request_is_a_success(
    state: LoopState,
    event: LoopEvent,
    scrolling: bool,
    next: LoopState,
    command: LoopCommand,
)
    requires
        reacts(state, event, scrolling, next, command),
        command == LoopCommand::Stop(LoopExit::RequestedShutdown),
    ensures
        event == LoopEvent::SignalRead(Ok(Some(SIGTERM))) || event == LoopEvent::SignalRead(
            Ok(Some(SIGINT)),
        ),
{
}

/// The loop stops exactly when it says so, and then waits for nothing more.
pub proof fn law_stopping_is_final(
    state: LoopState,
    event: LoopEvent,
    scrolling: bool,
    next: LoopState,
    command: LoopCommand,
    later: LoopEvent,
)
    requires
        reacts(state, event, scrolling, next, command),
    ensures
        command is Stop <==> next is Stopped,
        command is Stop ==> !next.accepts(later),
{
}

/// A request to stop outranks the touchpad: whatever the touchpad reports, a
/// signal that can be read is read first, and if it asks the loop to stop, the
/// loop stops.
pub proof fn law_signals_come_first(
    input: Readiness,
    signal: Readiness,
    report: String,
    number: u32,
    scrolling: bool,
    next: LoopState,
    command: LoopCommand,
    scrolling_later: bool,
    last: LoopState,
    answer: LoopCommand,
)
    requires
        signal.readable(),
        reacts(
            LoopState::Polling,
            LoopEvent::PollReady { input, signal, report },
            scrolling,
            next,
            command,
        ),
        number == SIGTERM || number == SIGINT,
        reacts(next, LoopEvent::SignalRead(Ok(Some(number))), scrolling_later, last, answer),
    ensures
        command is ReadSignal,
        stops(LoopExit::RequestedShutdown, last, answer),
{
}

/// The loop waits with a limit during a scroll, and without one otherwise.
pub proof fn law_waiting_is_limited_during_a_scroll(
    state: LoopState,
    event: LoopEvent,
    scrolling: bool,
    next: LoopState,
    command: LoopCommand,
)
    requires
        reacts(state, event, scrolling, next, command),
    ensures
        command matches LoopCommand::Poll { timeout_ms } ==> (timeout_ms > 0 <==> scrolling),
{
}

/// Every step keeps the loop at one of the frames that it has.
pub proof fn law_steps_keep_the_loop_valid(
    state: LoopState,
    event: LoopEvent,
    scrolling: bool,
    next: LoopState,
    command: LoopCommand,
)
    requires
        state.valid(),
        reacts(state, event, scrolling, next, command),
    ensures
        next.valid(),
{
}

/// A part of a run of the loop: its states, and what it reacted to and did
/// between them.
pub struct Run {
    pub states: Seq<LoopState>,
    pub events: Seq<LoopEvent>,
    pub scrolling: Seq<bool>,
    pub commands: Seq<LoopCommand>,
}

impl Run {
    /// Whether the loop behaves like this.
    pub open spec fn possible(self) -> bool {
        &&& self.states.len() == self.commands.len() + 1
        &&& self.events.len() == self.commands.len()
        &&& self.scrolling.len() == self.commands.len()
        &&& forall|i: int|
            0 <= i < self.commands.len() ==> reacts(
                self.states[i],
                self.events[i],
                self.scrolling[i],
                self.states[i + 1],
                #[trigger] self.commands[i],
            )
    }

    /// The run without its last step.
    pub open spec fn shorter(self) -> Run {
        Run {
            states: self.states.drop_last(),
            events: self.events.drop_last(),
            scrolling: self.scrolling.drop_last(),
            commands: self.commands.drop_last(),
        }
    }

    /// Whether the run starts at the first of `count` frames and has not left
    /// them before its last state.
    pub open spec fn handles_frames(self, count: usize) -> bool {
        &&& self.states[0] == (LoopState::Processing { next: 0, count })
        &&& forall|i: int|
            0 <= i < self.states.len() - 1 ==> !((#[trigger] self.states[i]) is Polling)
    }
}

/// Whether a command forwards a frame.
pub open spec fn is_forward() -> spec_fn(LoopCommand) -> bool {
    |command: LoopCommand| command is Forward
}

/// Whether a command processes a frame.
pub open spec fn is_process() -> spec_fn(LoopCommand) -> bool {
    |command: LoopCommand| command is ProcessFrame
}

/// The commands that process the frames behind the first, up to that at `last`.
pub open spec fn process_up_to(last: int) -> Seq<LoopCommand> {
    Seq::new(last as nat, |i: int| LoopCommand::ProcessFrame((i + 1) as usize))
}

/// The index of the frame that the loop is at, or of the last of `count` frames.
spec fn frame_index(state: LoopState, count: usize) -> int {
    match state {
        LoopState::Processing { next, .. } => next as int,
        LoopState::MovingWheel { next, .. } => next as int,
        LoopState::Forwarding { next, .. } => next as int,
        _ => count - 1,
    }
}

/// How many frames have been forwarded when the loop is at one of `count`
/// frames, or past all of them.
spec fn forwarded_before(state: LoopState, count: usize) -> int {
    match state {
        LoopState::Processing { next, .. } => next as int,
        LoopState::MovingWheel { next, .. } => next as int,
        LoopState::Forwarding { next, .. } => next + 1,
        _ => count as int,
    }
}

/// Whether the loop is at one of `count` frames, or past all of them.
spec fn at_frames(state: LoopState, count: usize) -> bool {
    match state {
        LoopState::Processing { next, count: all } => next < all == count,
        LoopState::MovingWheel { next, count: all } => next < all == count,
        LoopState::Forwarding { next, count: all } => next < all == count,
        LoopState::Polling => true,
        _ => false,
    }
}

/// As long as the loop handles frames, it has forwarded all frames before the
/// one that it is at.
proof fn lemma_frames_are_forwarded(run: Run, count: usize)
    requires
        run.possible(),
        run.handles_frames(count),
        count > 0,
        !(run.states.last() is Stopped),
    ensures
        at_frames(run.states.last(), count),
        run.commands.filter(is_forward()).len() == forwarded_before(run.states.last(), count),
        run.commands.filter(is_process()) == process_up_to(frame_index(run.states.last(), count)),
    decreases run.commands.len(),
{
    reveal(Seq::filter);
    if run.commands.len() > 0 {
        let shorter = run.shorter();
        let step = run.commands.len() - 1;
        let command = run.commands[step];
        assert(reacts(
            run.states[step],
            run.events[step],
            run.scrolling[step],
            run.states[step + 1],
            command,
        ));
        assert(shorter.states.last() == run.states[step]);
        assert forall|i: int| 0 <= i < shorter.commands.len() implies reacts(
            shorter.states[i],
            shorter.events[i],
            shorter.scrolling[i],
            shorter.states[i + 1],
            #[trigger] shorter.commands[i],
        ) by {
            assert(shorter.commands[i] == run.commands[i]);
        }
        assert forall|i: int| 0 <= i < shorter.states.len() - 1 implies !((
        #[trigger] shorter.states[i]) is Polling) by {
            assert(shorter.states[i] == run.states[i]);
        }
        lemma_frames_are_forwarded(shorter, count);
        assert(!(run.states[step] is Polling));
        if command is ProcessFrame {
            let index = frame_index(run.states.last(), count);
            assert(process_up_to(index) =~= process_up_to(index - 1).push(command));
        }
    } else {
        assert(run.commands.filter(is_process()) =~= process_up_to(0));
    }
}

/// A frame is forwarded before the next one is processed: whenever the loop turns
/// to a frame, it has forwarded all frames before that one.
pub proof fn law_frames_are_forwarded_in_turn(run: Run, count: usize, step: int, index: usize)
    requires
        run.possible(),
        run.handles_frames(count),
        count > 0,
        0 <= step < run.commands.len(),
        run.commands[step] == LoopCommand::ProcessFrame(index),
    ensures
        run.commands.take(step).filter(is_forward()).len() == index,
{
    reveal(Seq::filter);
    let part = Run {
        states: run.states.take(step + 2),
        events: run.events.take(step + 1),
        scrolling: run.scrolling.take(step + 1),
        commands: run.commands.take(step + 1),
    };
    assert forall|i: int| 0 <= i < part.commands.len() implies reacts(
        part.states[i],
        part.events[i],
        part.scrolling[i],
        part.states[i + 1],
        #[trigger] part.commands[i],
    ) by {
        assert(part.commands[i] == run.commands[i]);
    }
    assert forall|i: int| 0 <= i < part.states.len() - 1 implies !((
    #[trigger] part.states[i]) is Polling) by {
        assert(part.states[i] == run.states[i]);
    }
    assert(part.commands[step] == run.commands[step]);
    lemma_frames_are_forwarded(part, count);
    assert(part.commands.drop_last() =~= run.commands.take(step));
}

/// Every frame that was read is processed in its turn and forwarded: once the
/// loop waits for events again, it has processed the frames behind the first one
/// by one, and has forwarded as many frames as it had.
pub proof fn law_every_frame_is_forwarded(run: Run, count: usize)
    requires
        run.possible(),
        run.handles_frames(count),
        count > 0,
        run.states.last() is Polling,
    ensures
        run.commands.filter(is_forward()).len() == count,
        run.commands.filter(is_process()) == process_up_to(count - 1),
{
    lemma_frames_are_forwarded(run, count);
}

/// A descriptor can be read if the lowest of its flags is set, and is broken if it
/// has an error, if its other end is gone or if it is not open.
pub proof fn law_flags_are_those_of_the_system(ready: Readiness)
    ensures
        ready.readable() <==> ready.bits & 0x01 != 0,
        ready.broken() <==> ready.bits & 0x08 != 0 || ready.bits & 0x10 != 0 || ready.bits & 0x20
            != 0,
{
}

/// A wheel movement that processing brought is carried out next, by exactly as many
/// ticks as it has, up or down and left or right; without one the frame is
/// forwarded at once. The loop stays at that frame.
pub proof fn law_wheel_moves_as_processed(
    index: usize,
    count: usize,
    ticks: i32,
    scrolling: bool,
    next: LoopState,
    command: LoopCommand,
)
    ensures
        reacts(
            LoopState::Processing { next: index, count },
            LoopEvent::FrameProcessed(Ok(Action::EmitWheelV(ticks))),
            scrolling,
            next,
            command,
        ) ==> command == LoopCommand::EmitVertical(ticks) && next == (LoopState::MovingWheel {
            next: index,
            count,
        }),
        reacts(
            LoopState::Processing { next: index, count },
            LoopEvent::FrameProcessed(Ok(Action::EmitWheelH(ticks))),
            scrolling,
            next,
            command,
        ) ==> command == LoopCommand::EmitHorizontal(ticks) && next == (LoopState::MovingWheel {
            next: index,
            count,
        }),
        reacts(
            LoopState::Processing { next: index, count },
            LoopEvent::FrameProcessed(Ok(Action::Nothing)),
            scrolling,
            next,
            command,
        ) ==> command is Forward && next == (LoopState::Forwarding { next: index, count }),
{
}

/// Once the wheel has moved, the frame that moved it is forwarded.
pub proof fn law_moved_wheel_is_followed_by_forwarding(
    index: usize,
    count: usize,
    scrolling: bool,
    next: LoopState,
    command: LoopCommand,
)
    requires
        reacts(
            LoopState::MovingWheel { next: index, count },
            LoopEvent::WheelMoved(Ok(())),
            scrolling,
            next,
            command,
        ),
    ensures
        command is Forward,
        next == (LoopState::Forwarding { next: index, count }),
{
}

/// Once a frame was forwarded, the next one is processed, and behind the last one
/// the loop waits.
pub proof fn law_forwarded_frame_is_followed_by_the_next(
    index: usize,
    count: usize,
    scrolling: bool,
    next: LoopState,
    command: LoopCommand,
)
    requires
        index < count,
        reacts(
            LoopState::Forwarding { next: index, count },
            LoopEvent::FrameForwarded(Ok(())),
            scrolling,
            next,
            command,
        ),
    ensures
        index + 1 < count ==> command == LoopCommand::ProcessFrame((index + 1) as usize) && next
            == (LoopState::Processing { next: (index + 1) as usize, count }),
        index + 1 == count ==> next is Polling && command == (LoopCommand::Poll {
            timeout_ms: if scrolling { 1000i32 } else { -1i32 },
        }),
{
}

/// Frames that were read are processed from the first one on, all of them; without
/// a frame the loop waits. Contacts that were read anew make one frame.
pub proof fn law_read_frames_are_processed(
    count: usize,
    scrolling: bool,
    next: LoopState,
    command: LoopCommand,
)
    ensures
        reacts(
            LoopState::ReadingFrames,
            LoopEvent::FramesRead(Ok(count)),
            scrolling,
            next,
            command,
        ) ==> if count > 0 {
            command == LoopCommand::ProcessFrame(0) && next == (LoopState::Processing {
                next: 0,
                count,
            })
        } else {
            next is Polling && command == (LoopCommand::Poll {
                timeout_ms: if scrolling { 1000i32 } else { -1i32 },
            })
        },
        reacts(
            LoopState::Reconciling,
            LoopEvent::Reconciled(Ok(())),
            scrolling,
            next,
            command,
        ) ==> command == LoopCommand::ProcessFrame(0) && next == (LoopState::Processing {
            next: 0,
            count: 1,
        }),
{
}

/// A wait that ran out of time leads to reading the contacts anew, and one that was
/// interrupted is taken up again.
pub proof fn law_waiting_goes_on(scrolling: bool, next: LoopState, command: LoopCommand)
    ensures
        reacts(LoopState::Polling, LoopEvent::PollTimedOut, scrolling, next, command)
            ==> next is Reconciling && command is Reconcile,
        reacts(LoopState::Polling, LoopEvent::PollInterrupted, scrolling, next, command)
            ==> next is Polling && command == (LoopCommand::Poll {
            timeout_ms: if scrolling { 1000i32 } else { -1i32 },
        }),
{
}

/// Whatever reports on the touchpad and on the signal come, the loop stops where
/// one of them is broken, reads the touchpad where it can be read, and waits
/// otherwise; the signal is read first where it can be. A signal that does not ask
/// the loop to stop changes nothing of that.
pub proof fn law_reports_are_answered(
    input: Readiness,
    signal: Readiness,
    report: String,
    number: Option<u32>,
    scrolling: bool,
    next: LoopState,
    command: LoopCommand,
)
    requires
        number != Some(15u32) && number != Some(2u32),
        (signal.bits & 0x01 == 0 && reacts(
            LoopState::Polling,
            LoopEvent::PollReady { input, signal, report },
            scrolling,
            next,
            command,
        )) || reacts(
            LoopState::ReadingSignal { input, signal, report },
            LoopEvent::SignalRead(Ok(number)),
            scrolling,
            next,
            command,
        ),
    ensures
        ({
            let broken = |ready: Readiness|
                ready.bits & 0x08 != 0 || ready.bits & 0x10 != 0 || ready.bits & 0x20 != 0;
            &&& broken(signal) ==> next is Stopped && command == LoopCommand::Stop(
                LoopExit::SignalReadFailed { source: Errno { code: 5 } },
            )
            &&& !broken(signal) && broken(input) ==> {
                &&& next is Stopped
                &&& command matches LoopCommand::Stop(LoopExit::InputDisconnected { source })
                &&& source.kind is BrokenPipe
                &&& source.os_error is None
                &&& source.text@ == "poll reported "@ + report@
            }
            &&& !broken(signal) && !broken(input) && input.bits & 0x01 != 0 ==> next is ReadingFrames
                && command is ReadFrames
            &&& !broken(signal) && !broken(input) && input.bits & 0x01 == 0 ==> next is Polling
                && command == (LoopCommand::Poll {
                timeout_ms: if scrolling { 1000i32 } else { -1i32 },
            })
        }),
{
}

/// A signal that can be read is read, with the reports kept for later, and the two
/// signals that ask the loop to stop do stop it.
pub proof fn law_readable_signal_is_read(
    input: Readiness,
    signal: Readiness,
    report: String,
    number: u32,
    scrolling: bool,
    next: LoopState,
    command: LoopCommand,
)
    ensures
        signal.bits & 0x01 != 0 && reacts(
            LoopState::Polling,
            LoopEvent::PollReady { input, signal, report },
            scrolling,
            next,
            command,
        ) ==> command is ReadSignal && next == (LoopState::ReadingSignal { input, signal, report }),
        (number == 15 || number == 2) && reacts(
            LoopState::ReadingSignal { input, signal, report },
            LoopEvent::SignalRead(Ok(Some(number))),
            scrolling,
            next,
            command,
        ) ==> next is Stopped && command == LoopCommand::Stop(LoopExit::RequestedShutdown),
{
}

/// A step that failed stops the loop for the reason of that step, with the failure
/// that it had. A touchpad that no longer exists counts as disconnected.
pub proof fn law_failures_keep_their_cause(
    state: LoopState,
    event: LoopEvent,
    scrolling: bool,
    next: LoopState,
    command: LoopCommand,
)
    requires
        reacts(state, event, scrolling, next, command),
    ensures
        event matches LoopEvent::PollFailed(errno) ==> command == LoopCommand::Stop(
            LoopExit::PollFailed { source: errno },
        ),
        event matches LoopEvent::SignalRead(Err(errno)) ==> command == LoopCommand::Stop(
            LoopExit::SignalReadFailed { source: errno },
        ),
        event matches LoopEvent::Reconciled(Err(failure)) ==> command == LoopCommand::Stop(
            LoopExit::InputReadFailed { source: failure },
        ),
        event matches LoopEvent::FramesRead(Err(failure)) ==> command == LoopCommand::Stop(
            if failure.os_error == Some(19i32) {
                LoopExit::InputDisconnected { source: failure }
            } else {
                LoopExit::InputReadFailed { source: failure }
            },
        ),
        event matches LoopEvent::FrameProcessed(Err(failure)) ==> command == LoopCommand::Stop(
            LoopExit::InputReadFailed { source: failure },
        ),
        event matches LoopEvent::WheelMoved(Err(failure)) ==> command == LoopCommand::Stop(
            LoopExit::VirtualWheelFailed { source: failure },
        ),
        event matches LoopEvent::FrameForwarded(Err(failure)) ==> command == LoopCommand::Stop(
            LoopExit::VirtualTouchpadFailed { source: failure },
        ),
        command is Stop <==> next is Stopped,
{
}

/// Without a failure, a broken descriptor or a request, the loop goes on.
pub proof fn law_loop_goes_on_without_a_reason_to_stop(
    state: LoopState,
    event: LoopEvent,
    scrolling: bool,
    next: LoopState,
    command: LoopCommand,
)
    requires
        reacts(state, event, scrolling, next, command),
        event is PollTimedOut || event is PollInterrupted || event == LoopEvent::Reconciled(Ok(()))
            || event == LoopEvent::WheelMoved(Ok(())) || event == LoopEvent::FrameForwarded(Ok(()))
            || (event matches LoopEvent::FramesRead(Ok(_))) || (
        event matches LoopEvent::FrameProcessed(Ok(_))),
    ensures
        !(command is Stop),
        !(next is Stopped),
{
}

/// The loop accepts what its last command can bring, and nothing else.
pub proof fn law_commands_bring_what_the_loop_waits_for(
    state: LoopState,
    event: LoopEvent,
    scrolling: bool,
    next: LoopState,
    command: LoopCommand,
    answer: LoopEvent,
)
    requires
        reacts(state, event, scrolling, next, command),
    ensures
        next.accepts(answer) <==> match command {
            LoopCommand::Poll { .. } => answer is PollTimedOut || answer is PollInterrupted
                || answer is PollFailed || answer is PollReady,
            LoopCommand::ReadSignal => answer is SignalRead,
            LoopCommand::Reconcile => answer is Reconciled,
            LoopCommand::ReadFrames => answer is FramesRead,
            LoopCommand::ProcessFrame(_) => answer is FrameProcessed,
            LoopCommand::EmitVertical(_) => answer is WheelMoved,
            LoopCommand::EmitHorizontal(_) => answer is WheelMoved,
            LoopCommand::Forward => answer is FrameForwarded,
            LoopCommand::Stop(_) => false,
        },
{
}

/// The loop reacts to nothing but what it accepts.
pub proof fn law_only_accepted_events_are_reacted_to(state: LoopState, event: LoopEvent)
    requires
        exists|scrolling: bool, next: LoopState, command: LoopCommand|
            reacts(state, event, scrolling, next, command),
    ensures
        state.accepts(event),
{
}

/// The ticks of the vertical wheel that a command moves, and those of the
/// horizontal wheel.
pub open spec fn moved(command: LoopCommand) -> Option<(int, int)> {
    match command {
        LoopCommand::EmitVertical(ticks) => Some((ticks as int, 0)),
        LoopCommand::EmitHorizontal(ticks) => Some((0, ticks as int)),
        _ => None,
    }
}

/// The ticks of the vertical wheel that processing a frame brought, and those of the
/// horizontal wheel.
pub open spec fn brought(event: LoopEvent) -> Option<(int, int)> {
    match event {
        LoopEvent::FrameProcessed(Ok(Action::EmitWheelV(ticks))) => Some((ticks as int, 0)),
        LoopEvent::FrameProcessed(Ok(Action::EmitWheelH(ticks))) => Some((0, ticks as int)),
        _ => None,
    }
}

/// Over a whole run the wheel moves exactly as processing says: step by step, a
/// movement is commanded where one was brought, of the same wheel and by the same
/// ticks, and nowhere else. So the wheel commands are, in their order, the wheel
/// movements that processing brought.
pub proof fn law_wheel_moves_as_processed_in_every_run(run: Run)
    requires
        run.possible(),
    ensures
        forall|i: int|
            #![trigger run.commands[i]]
            #![trigger run.events[i]]
            0 <= i < run.commands.len() ==> match run.events[i] {
                LoopEvent::FrameProcessed(Ok(Action::EmitWheelV(ticks))) => run.commands[i]
                    == LoopCommand::EmitVertical(ticks),
                LoopEvent::FrameProcessed(Ok(Action::EmitWheelH(ticks))) => run.commands[i]
                    == LoopCommand::EmitHorizontal(ticks),
                _ => !(run.commands[i] is EmitVertical) && !(run.commands[i] is EmitHorizontal),
            },
        run.commands.map_values(|command: LoopCommand| moved(command)).filter(
            |ticks: Option<(int, int)>| ticks is Some,
        ) == run.events.map_values(|event: LoopEvent| brought(event)).filter(
            |ticks: Option<(int, int)>| ticks is Some,
        ),
{
    assert forall|i: int| 0 <= i < run.commands.len() implies match run.events[i] {
        LoopEvent::FrameProcessed(Ok(Action::EmitWheelV(ticks))) => #[trigger] run.commands[i]
            == LoopCommand::EmitVertical(ticks),
        LoopEvent::FrameProcessed(Ok(Action::EmitWheelH(ticks))) => run.commands[i]
            == LoopCommand::EmitHorizontal(ticks),
        _ => !(run.commands[i] is EmitVertical) && !(run.commands[i] is EmitHorizontal),
    } by {
        assert(reacts(
            run.states[i],
            run.events[i],
            run.scrolling[i],
            run.states[i + 1],
            run.commands[i],
        ));
    }
    assert(run.commands.map_values(|command: LoopCommand| moved(command))
        =~= run.events.map_values(|event: LoopEvent| brought(event))) by {
        assert forall|i: int| 0 <= i < run.commands.len() implies moved(
            #[trigger] run.commands[i],
        ) == brought(run.events[i]) by {}
    }
}

/// A loop that handles frames is at one of those that it has.
pub proof fn law_loop_is_at_a_frame_that_it_has(state: LoopState, next: usize, count: usize)
    requires
        state == (LoopState::Processing { next, count }) || state == (LoopState::MovingWheel {
            next,
            count,
        }) || state == (LoopState::Forwarding { next, count }),
    ensures
        state.valid() <==> next < count,
{
}

/// The daemon ends in success exactly if it was asked to stop, and with the reason
/// for which its loop stopped otherwise.
pub proof fn law_daemon_fails_with_the_reason_of_its_loop(exit: LoopExit)
    ensures
        outcome(exit) is Ok <==> exit is RequestedShutdown,
        outcome(exit) matches Err(error) ==> (error matches Error::Runtime { source } && source
            == exit),
{
}

/// A loop that waits does so for a second while a scroll lasts and without limit
/// otherwise, and whatever waiting can bring is what it accepts.
pub proof fn law_waiting_loop_accepts_what_waiting_brings(
    scrolling: bool,
    next: LoopState,
    command: LoopCommand,
    answer: LoopEvent,
)
    requires
        polls(scrolling, next, command),
    ensures
        next is Polling,
        command == (LoopCommand::Poll { timeout_ms: if scrolling { 1000i32 } else { -1i32 } }),
        next.accepts(answer) <==> answer is PollTimedOut || answer is PollInterrupted
            || answer is PollFailed || answer is PollReady,
{
}

} // verus!
