//! What the command line and the configuration decide at startup.

use std::path::PathBuf;

use vstd::prelude::*;
use vstd::string::*;

use crate::config::ConfigRequest;

verus! {

/// The configuration file to read: the one on the command line, or else the
/// default one.
pub open spec fn requested(argument: Option<PathBuf>, default_path: PathBuf) -> ConfigRequest {
    match argument {
        Some(path) => ConfigRequest::Explicit(path),
        None => ConfigRequest::ImplicitDefault(default_path),
    }
}

/// The configuration file to read: the one on the command line, or else the
/// default one.
pub fn config_request(argument: Option<PathBuf>, default_path: PathBuf) -> (request: ConfigRequest)
    ensures
        request == requested(argument, default_path),
{
    match argument {
        Some(path) => ConfigRequest::Explicit(path),
        None => ConfigRequest::ImplicitDefault(default_path),
    }
}

/// The device to open: the one on the command line, or else the configured one.
pub open spec fn chosen_device(argument: Option<PathBuf>, configured: Option<PathBuf>) -> Option<
    PathBuf,
> {
    if argument is Some {
        argument
    } else {
        configured
    }
}

/// The device to open: the one on the command line, or else the configured one.
/// If there is neither, a device has to be found by its name.
pub fn device_path(argument: Option<PathBuf>, configured: Option<PathBuf>) -> (path: Option<
    PathBuf,
>)
    ensures
        path == chosen_device(argument, configured),
{
    match argument {
        Some(path) => Some(path),
        None => configured,
    }
}

/// The filter for log messages of the daemon.
pub open spec fn filter_text(level: Seq<char>, debug: bool) -> Seq<char> {
    "letsnote_wheelpad="@ + (if debug {
        "debug"@
    } else {
        level
    })
}

/// The filter for log messages: those of the daemon from the configured level
/// on, or from the debug level on if that was asked for.
pub fn log_filter(level: &str, debug: bool) -> (filter: String)
    ensures
        filter@ == filter_text(level@, debug),
{
    "letsnote_wheelpad=".to_owned().concat(if debug { "debug" } else { level })
}

/// A step of starting the daemon.
#[derive(Clone, Copy, Debug, PartialEq, Eq, Structural)]
pub enum StartupStep {
    /// Block the signals that ask the daemon to stop, to wait for them later.
    BlockSignals,
    /// Find the device by its name.
    FindDevice,
    /// Take the instance lock of the device.
    AcquireLock,
    /// Open the device.
    OpenDevice,
    /// Create the virtual touchpad.
    CreateTouchpad,
    /// Create the virtual wheel.
    CreateWheel,
    /// Take the events of the device away from everyone else.
    Grab,
    /// Tell the service manager that the daemon is ready.
    NotifyReady,
    /// Run the event loop.
    Run,
    /// Give up.
    GiveUp,
}

/// How far the daemon has been started.
#[derive(Clone, Copy, Debug, PartialEq, Eq, Structural)]
pub struct Startup {
    /// The step to take.
    pub step: StartupStep,
    /// Whether the path of the device is known from the start.
    pub device_known: bool,
}

impl Startup {
    /// The first step.
    pub open spec fn first(device_known: bool) -> Startup {
        Startup { step: StartupStep::BlockSignals, device_known }
    }

    /// The step behind a step that succeeded.
    pub open spec fn following(self) -> StartupStep {
        match self.step {
            StartupStep::BlockSignals => if self.device_known {
                StartupStep::AcquireLock
            } else {
                StartupStep::FindDevice
            },
            StartupStep::FindDevice => StartupStep::AcquireLock,
            StartupStep::AcquireLock => StartupStep::OpenDevice,
            StartupStep::OpenDevice => StartupStep::CreateTouchpad,
            StartupStep::CreateTouchpad => StartupStep::CreateWheel,
            StartupStep::CreateWheel => StartupStep::Grab,
            StartupStep::Grab => StartupStep::NotifyReady,
            StartupStep::NotifyReady => StartupStep::Run,
            StartupStep::Run => StartupStep::Run,
            StartupStep::GiveUp => StartupStep::GiveUp,
        }
    }

    /// How far the daemon has been started once a step was taken. It gives up
    /// where a step fails, unless only the service manager was not reached.
    pub open spec fn after(self, succeeded: bool) -> Startup {
        let goes_on = succeeded || self.step is NotifyReady || self.step is Run;
        Startup {
            step: if goes_on { self.following() } else { StartupStep::GiveUp },
            ..self
        }
    }

    /// A daemon of which nothing has been started.
    pub fn new(device_known: bool) -> (startup: Startup)
        ensures
            startup == Startup::first(device_known),
    {
        Startup { step: StartupStep::BlockSignals, device_known }
    }

    /// Goes on after a step was taken.
    pub fn advance(&mut self, succeeded: bool)
        ensures
            *final(self) == old(self).after(succeeded),
    {
        let next = match self.step {
            StartupStep::NotifyReady => StartupStep::Run,
            StartupStep::Run => StartupStep::Run,
            _ if !succeeded => StartupStep::GiveUp,
            StartupStep::BlockSignals if !self.device_known => StartupStep::FindDevice,
            StartupStep::BlockSignals => StartupStep::AcquireLock,
            StartupStep::FindDevice => StartupStep::AcquireLock,
            StartupStep::AcquireLock => StartupStep::OpenDevice,
            StartupStep::OpenDevice => StartupStep::CreateTouchpad,
            StartupStep::CreateTouchpad => StartupStep::CreateWheel,
            StartupStep::CreateWheel => StartupStep::Grab,
            StartupStep::Grab => StartupStep::NotifyReady,
            StartupStep::GiveUp => StartupStep::GiveUp,
        };
        self.step = next;
    }
}

/// Whether the daemon may be started through these states, where the step of each
/// state but the last succeeded or not.
pub open spec fn starts_through(states: Seq<Startup>, succeeded: Seq<bool>) -> bool {
    &&& states.len() == succeeded.len() + 1
    &&& states[0] == Startup::first(states[0].device_known)
    &&& forall|i: int|
        0 <= i < succeeded.len() ==> states[i + 1] == states[i].after(#[trigger] succeeded[i])
}

/// Whether `step` was taken and succeeded among the first `count` steps.
pub open spec fn done_before(
    states: Seq<Startup>,
    succeeded: Seq<bool>,
    step: StartupStep,
    count: int,
) -> bool {
    exists|i: int|
        0 <= i < count && i < succeeded.len() && succeeded[i] && (#[trigger] states[i]).step == step
}

/// A step that can fail is taken only after the one before it has succeeded.
proof fn lemma_preceding_step_succeeded(states: Seq<Startup>, succeeded: Seq<bool>, at: int)
    requires
        starts_through(states, succeeded),
        0 <= at < states.len(),
        !(states[at].step is BlockSignals),
        !(states[at].step is Run),
        !(states[at].step is GiveUp),
    ensures
        at > 0,
        succeeded[at - 1],
        states[at].step == states[at - 1].following(),
{
    assert(at > 0);
    assert(states[at - 1 + 1] == states[at - 1].after(succeeded[at - 1]));
}

/// The device is grabbed only once a failure can no longer leave the pad unusable:
/// the signals are blocked, the instance lock is held, the device is open, and
/// both virtual devices exist.
pub proof fn law_grab_comes_last(states: Seq<Startup>, succeeded: Seq<bool>, at: int)
    requires
        starts_through(states, succeeded),
        0 <= at < states.len(),
        states[at].step is Grab,
    ensures
        done_before(states, succeeded, StartupStep::BlockSignals, at),
        done_before(states, succeeded, StartupStep::AcquireLock, at),
        done_before(states, succeeded, StartupStep::OpenDevice, at),
        done_before(states, succeeded, StartupStep::CreateTouchpad, at),
        done_before(states, succeeded, StartupStep::CreateWheel, at),
{
    lemma_preceding_step_succeeded(states, succeeded, at);
    lemma_preceding_step_succeeded(states, succeeded, at - 1);
    lemma_preceding_step_succeeded(states, succeeded, at - 2);
    lemma_preceding_step_succeeded(states, succeeded, at - 3);
    lemma_preceding_step_succeeded(states, succeeded, at - 4);
    if states[at - 5].step is FindDevice {
        lemma_preceding_step_succeeded(states, succeeded, at - 5);
    }
}

/// The event loop runs, and the service manager is told so, only once the device
/// is grabbed.
pub proof fn law_loop_runs_with_the_grab(states: Seq<Startup>, succeeded: Seq<bool>, at: int)
    requires
        starts_through(states, succeeded),
        0 <= at < states.len(),
        states[at].step is NotifyReady || states[at].step is Run,
    ensures
        done_before(states, succeeded, StartupStep::Grab, at),
    decreases at,
{
    if states[at].step is NotifyReady {
        lemma_preceding_step_succeeded(states, succeeded, at);
    } else {
        assert(at > 0);
        assert(states[at - 1 + 1] == states[at - 1].after(succeeded[at - 1]));
        law_loop_runs_with_the_grab(states, succeeded, at - 1);
    }
}

/// A step that fails is the last one, but for telling the service manager: the
/// daemon gives up, and having given up it takes no other step.
pub proof fn law_failure_gives_up(startup: Startup)
    requires
        !(startup.step is NotifyReady),
        !(startup.step is Run),
    ensures
        startup.after(false).step is GiveUp,
        startup.after(false).after(true).step is GiveUp,
        startup.after(false).after(false).step is GiveUp,
{
}

/// What is known of the device does not change while the daemon is started.
proof fn lemma_known_stays_known(states: Seq<Startup>, succeeded: Seq<bool>, at: int)
    requires
        starts_through(states, succeeded),
        0 <= at < states.len(),
    ensures
        states[at].device_known == states[0].device_known,
    decreases at,
{
    if at > 0 {
        assert(states[at - 1 + 1] == states[at - 1].after(succeeded[at - 1]));
        lemma_known_stays_known(states, succeeded, at - 1);
    }
}

/// Every step waits for what it needs: the step right before it is the one that
/// brings it, and that one succeeded. The device is searched for exactly if it is
/// not known from the start, with the signals blocked already; it is locked
/// before it is opened, opened before it is copied, and grabbed when both virtual
/// devices exist.
pub proof fn law_steps_wait_for_what_they_need(
    states: Seq<Startup>,
    succeeded: Seq<bool>,
    at: int,
)
    requires
        starts_through(states, succeeded),
        0 < at < states.len(),
    ensures
        !(states[at].step is BlockSignals),
        states[at].step is FindDevice ==> succeeded[at - 1] && states[at - 1].step is BlockSignals
            && !states[0].device_known,
        states[at].step is AcquireLock ==> succeeded[at - 1] && if states[0].device_known {
            states[at - 1].step is BlockSignals
        } else {
            states[at - 1].step is FindDevice
        },
        states[at].step is OpenDevice ==> succeeded[at - 1] && states[at - 1].step is AcquireLock,
        states[at].step is CreateTouchpad ==> succeeded[at - 1] && states[at - 1].step is OpenDevice,
        states[at].step is CreateWheel ==> succeeded[at - 1]
            && states[at - 1].step is CreateTouchpad,
        states[at].step is Grab ==> succeeded[at - 1] && states[at - 1].step is CreateWheel,
        states[at].step is NotifyReady ==> succeeded[at - 1] && states[at - 1].step is Grab,
        states[at].step is Run ==> states[at - 1].step is NotifyReady || states[at - 1].step is Run,
        states[at].step is GiveUp ==> states[at - 1].step is GiveUp || !succeeded[at - 1],
{
    lemma_known_stays_known(states, succeeded, at - 1);
    assert(states[at - 1 + 1] == states[at - 1].after(succeeded[at - 1]));
    if states[at - 1].step is FindDevice {
        lemma_preceding_step_succeeded(states, succeeded, at - 1);
        assert(states[at - 2 + 1] == states[at - 2].after(succeeded[at - 2]));
        lemma_known_stays_known(states, succeeded, at - 2);
    }
}

/// However the device was found, the event loop is reached only after the service
/// manager was to be told that the daemon is ready, and that only after the grab.
pub proof fn law_readiness_is_told_before_the_loop(
    states: Seq<Startup>,
    succeeded: Seq<bool>,
    at: int,
)
    requires
        starts_through(states, succeeded),
        0 <= at < states.len(),
        states[at].step is Run,
    ensures
        exists|i: int|
            0 < i < at && (#[trigger] states[i]).step is NotifyReady && states[i - 1].step is Grab
                && succeeded[i - 1],
    decreases at,
{
    law_steps_wait_for_what_they_need(states, succeeded, at);
    if states[at - 1].step is Run {
        law_readiness_is_told_before_the_loop(states, succeeded, at - 1);
    } else {
        law_steps_wait_for_what_they_need(states, succeeded, at - 1);
    }
}

/// If every step succeeds, the daemon gets to its event loop, after seven steps for
/// a device that is known and after eight for one that is searched for.
pub proof fn law_success_leads_to_the_loop(states: Seq<Startup>, succeeded: Seq<bool>, at: int)
    requires
        starts_through(states, succeeded),
        forall|i: int| 0 <= i < succeeded.len() ==> #[trigger] succeeded[i],
        0 <= at < states.len(),
    ensures
        states[at].step is Run <==> at >= (if states[0].device_known { 7int } else { 8int }),
        !(states[at].step is GiveUp),
{
    lemma_steps_of_success(states, succeeded, at);
}

/// The step that is reached after `at` steps that succeeded.
spec fn step_of_success(device_known: bool, at: int) -> StartupStep {
    let behind = if device_known { at } else { at - 1 };
    if at <= 0 {
        StartupStep::BlockSignals
    } else if behind == 0 {
        StartupStep::FindDevice
    } else if behind == 1 {
        StartupStep::AcquireLock
    } else if behind == 2 {
        StartupStep::OpenDevice
    } else if behind == 3 {
        StartupStep::CreateTouchpad
    } else if behind == 4 {
        StartupStep::CreateWheel
    } else if behind == 5 {
        StartupStep::Grab
    } else if behind == 6 {
        StartupStep::NotifyReady
    } else {
        StartupStep::Run
    }
}

/// Where steps that succeed lead.
proof fn lemma_steps_of_success(states: Seq<Startup>, succeeded: Seq<bool>, at: int)
    requires
        starts_through(states, succeeded),
        forall|i: int| 0 <= i < succeeded.len() ==> #[trigger] succeeded[i],
        0 <= at < states.len(),
    ensures
        states[at].step == step_of_success(states[0].device_known, at),
    decreases at,
{
    if at > 0 {
        lemma_steps_of_success(states, succeeded, at - 1);
        lemma_known_stays_known(states, succeeded, at - 1);
        assert(succeeded[at - 1]);
        assert(states[at - 1 + 1] == states[at - 1].after(succeeded[at - 1]));
    }
}

/// If every step succeeds, the steps from the lock on are the same for a device
/// that is known and for one that is searched for, which takes one step more.
pub proof fn law_search_changes_nothing_else(
    known: Seq<Startup>,
    known_succeeded: Seq<bool>,
    searched: Seq<Startup>,
    searched_succeeded: Seq<bool>,
    at: int,
)
    requires
        starts_through(known, known_succeeded),
        starts_through(searched, searched_succeeded),
        known[0].device_known,
        !searched[0].device_known,
        forall|i: int| 0 <= i < known_succeeded.len() ==> #[trigger] known_succeeded[i],
        forall|i: int| 0 <= i < searched_succeeded.len() ==> #[trigger] searched_succeeded[i],
        1 <= at < known.len(),
        at + 1 < searched.len(),
    ensures
        known[1].step is AcquireLock,
        searched[1].step is FindDevice,
        searched[at + 1].step == known[at].step,
{
    lemma_steps_of_success(known, known_succeeded, at);
    lemma_steps_of_success(known, known_succeeded, 1);
    lemma_steps_of_success(searched, searched_succeeded, 1);
    lemma_steps_of_success(searched, searched_succeeded, at + 1);
}

/// What is known of the device matters to the first step alone: behind it, the
/// next step depends on the step that was taken and on its outcome.
pub proof fn law_only_the_first_step_asks_for_the_device(
    first: Startup,
    second: Startup,
    succeeded: bool,
)
    requires
        first.step == second.step,
        !(first.step is BlockSignals),
    ensures
        first.after(succeeded).step == second.after(succeeded).step,
        first.after(succeeded).device_known == first.device_known,
{
}

/// A failed step gives the daemon up, but an unreachable service manager does not.
pub proof fn law_only_the_service_manager_may_fail(startup: Startup)
    ensures
        startup.after(false).step is GiveUp <==> !(startup.step is NotifyReady
            || startup.step is Run),
        startup.step is NotifyReady ==> startup.after(false).step is Run && startup.after(
            true,
        ).step is Run,
        startup.step is Run ==> startup.after(false).step is Run && startup.after(true).step is Run,
        startup.step is GiveUp ==> startup.after(true).step is GiveUp,
{
}

/// The daemon begins with blocking the signals.
pub proof fn law_signals_are_blocked_first(device_known: bool)
    ensures
        Startup::first(device_known).step is BlockSignals,
        Startup::first(device_known).device_known == device_known,
{
}

/// The command line outranks everything: what it names is taken, and has to be there
/// if it is a configuration file; otherwise the configured device and the default
/// file are taken, and a device that nobody named is searched for.
pub proof fn law_command_line_comes_first(
    path: PathBuf,
    other: PathBuf,
    configured: Option<PathBuf>,
)
    ensures
        requested(Some(path), other) == ConfigRequest::Explicit(path),
        requested(None, other) == ConfigRequest::ImplicitDefault(other),
        chosen_device(Some(path), configured) == Some(path),
        chosen_device(None, configured) == configured,
{
}

/// Messages of the daemon are filtered by the level that is set, and asking for
/// debug messages is setting that level.
pub proof fn law_debugging_is_a_level(level: Seq<char>)
    ensures
        filter_text(level, false) == "letsnote_wheelpad="@ + level,
        filter_text(level, true) == filter_text("debug"@, false),
{
}

} // verus!
