//! The ways in which the daemon fails.

use std::path::PathBuf;

use vstd::prelude::*;

use crate::float64::Float64;
use crate::runtime::LoopExit;

verus! {

/// `std::path::PathBuf`: a path is carried from the caller into results and
/// errors as it is; nothing is claimed of its contents.
#[verifier::external_type_specification]
#[verifier::external_body]
pub struct ExPathBuf(std::path::PathBuf);

/// `PathBuf::clone`: paths can be cloned; nothing is claimed of the clone.
pub assume_specification[ <std::path::PathBuf as Clone>::clone ](path: &PathBuf) -> PathBuf;

/// The kinds of I/O failure that decisions depend on.
#[derive(Clone, Copy, Debug, PartialEq, Eq, Structural)]
pub enum IoKind {
    /// A file or directory does not exist.
    NotFound,
    /// The other end is gone.
    BrokenPipe,
    /// Anything else.
    Other,
}

/// A failed I/O operation.
#[derive(Clone, Debug)]
pub struct IoFailure {
    pub kind: IoKind,
    /// The number of the error, where the operating system gave one.
    pub os_error: Option<i32>,
    /// What the failure says of itself.
    pub text: String,
}

impl IoFailure {
    /// A failure that the operating system did not report.
    pub fn other(text: &str) -> (failure: IoFailure)
        ensures
            failure.kind == IoKind::Other,
            failure.os_error is None,
            failure.text@ == text@,
    {
        IoFailure { kind: IoKind::Other, os_error: None, text: text.to_owned() }
    }
}

/// The number of a failed system call.
#[derive(Clone, Copy, Debug, PartialEq, Eq, Structural)]
pub struct Errno {
    pub code: i32,
}

/// Why the daemon fails.
#[derive(Debug)]
pub enum Error {
    /// The configuration file cannot be read.
    ConfigIo { path: PathBuf, source: IoFailure },
    /// The configuration file cannot be parsed; `source` is the parser's message.
    ConfigParse { path: PathBuf, source: String },
    /// An integer in the configuration is out of range.
    ConfigRange { key: &'static str, value: i64, expected: &'static str },
    /// A floating-point number in the configuration is out of range.
    ConfigFloatRange { key: &'static str, value: Float64, expected: &'static str },
    /// No device has a matching name.
    DeviceNotFound { regex: String },
    /// More than one device has a matching name.
    DeviceAmbiguous { regex: String, candidates: String },
    /// The device is itself a virtual one.
    VirtualInputSource { path: PathBuf, name: String },
    /// The device cannot be opened.
    EvdevOpen { path: PathBuf, source: IoFailure },
    /// The device lacks a capability.
    EvdevMissingCap { path: PathBuf, capability: &'static str },
    /// The device has a range of slots that cannot be tracked.
    EvdevSlotRange { path: PathBuf, minimum: i32, maximum: i32, expected: &'static str },
    /// The device reports an impossible state.
    EvdevState { path: PathBuf, reason: String },
    /// The device cannot be read.
    EvdevRead { source: IoFailure },
    /// Virtual devices are not available.
    UinputMissing,
    /// A virtual device cannot be created.
    UinputCreate { source: IoFailure },
    /// A virtual device cannot be written.
    UinputWrite { source: IoFailure },
    /// The device cannot be grabbed.
    Grab { source: IoFailure },
    /// The device cannot be released.
    Ungrab { source: IoFailure },
    /// The event loop stopped.
    Runtime { source: LoopExit },
    /// The pattern for device names is invalid.
    RegexInvalid { pattern: String, source: regex::Error },
    /// Signals cannot be handled.
    Signal { source: Errno },
    /// There is no directory for the instance lock.
    RuntimeDirUnavailable { reason: String },
    /// The device cannot be identified for locking.
    DeviceIdentity { path: PathBuf, source: IoFailure },
    /// The instance lock, at the path with these bytes, cannot be opened.
    InstanceLockOpen { path: Vec<u8>, source: IoFailure },
    /// Another instance owns the device, and the lock at the path with these
    /// bytes.
    InstanceAlreadyRunning { device: PathBuf, lock_path: Vec<u8> },
    /// The instance lock, at the path with these bytes, cannot be taken.
    InstanceLock { path: Vec<u8>, source: Errno },
}

/// The result of an operation that fails with an [`Error`].
pub type Result<T> = std::result::Result<T, Error>;

} // verus!
