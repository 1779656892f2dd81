//! The surroundings of the daemon: the directory and the file of its instance
//! lock, the signals that stop it, and how it ends.

use std::path::PathBuf;

use vstd::prelude::*;
use vstd::string::*;
use vstd::utf8::{encode_utf8, encode_utf8_decode_utf8};

use crate::error::{Errno, Error, IoFailure, Result};
use crate::text::{
    digits, join_bytes, joined_bytes, law_digits_tell_numbers_apart, law_digits_write_the_number,
    law_joined_bytes_keep_their_parts, law_joined_components_can_be_told_apart, number,
    number_written,
};

verus! {

/// The number of the signal that asks a program to terminate.
pub const SIGTERM: u32 = 15;

/// The number of the signal that an interrupt from the keyboard sends.
pub const SIGINT: u32 = 2;

/// Whether a signal that was read, if any, asks the daemon to stop.
pub open spec fn requests_shutdown(signal: Option<u32>) -> bool {
    signal == Some(SIGTERM) || signal == Some(SIGINT)
}

/// Whether a signal that was read, if any, asks the daemon to stop.
pub fn shutdown_requested(signal: Option<u32>) -> (requested: bool)
    ensures
        requested == requests_shutdown(signal),
{
    match signal {
        Some(number) => number == SIGTERM || number == SIGINT,
        None => false,
    }
}

/// The outcome of trying to open and lock a file.
#[derive(Clone, Debug)]
pub enum LockAttempt {
    /// The file cannot be opened.
    Unopened(IoFailure),
    Acquired,
    /// Another process holds the lock.
    WouldBlock,
    Failed(Errno),
}

/// The key under which the device with the number `rdev` is locked.
pub open spec fn device_name(rdev: u64) -> Seq<char> {
    "device-"@ + digits(rdev as nat, 16)
}

/// The key under which the device with the number `rdev` is locked.
pub fn device_key(rdev: u64) -> (key: String)
    ensures
        key@ == device_name(rdev),
{
    "device-".to_owned().concat(number(rdev, 16).as_str())
}

/// The name of the lock file for `key`.
pub open spec fn lock_name(key: Seq<char>) -> Seq<char> {
    "letsnote-wheelpad-"@ + key + ".lock"@
}

/// The name of the lock file for `key`.
pub fn lock_file_name(key: &str) -> (name: String)
    ensures
        name@ == lock_name(key@),
{
    "letsnote-wheelpad-".to_owned().concat(key).concat(".lock")
}

/// The path of the lock file for `key` in `directory`, as bytes.
pub open spec fn lock_path_of(directory: Seq<u8>, key: Seq<char>) -> Seq<u8> {
    joined_bytes(directory, encode_utf8(lock_name(key)))
}

/// The path of the lock file for `key` in `directory`, as bytes.
pub fn lock_path(directory: &[u8], key: &str) -> (path: Vec<u8>)
    ensures
        path@ == lock_path_of(directory@, key@),
{
    let name = lock_file_name(key);
    join_bytes(directory, name.as_str().as_bytes())
}

/// The lock of an instance on its device.
#[derive(Debug)]
pub struct InstanceLock {
    path: Vec<u8>,
}

impl View for InstanceLock {
    type V = Seq<u8>;

    closed spec fn view(&self) -> Seq<u8> {
        self.path@
    }
}

/// Whether `held` is what comes of trying to lock the file for `key` in
/// `directory`.
pub open spec fn acquires(
    directory: Seq<u8>,
    device: PathBuf,
    key: Seq<char>,
    attempt: LockAttempt,
    held: Result<InstanceLock>,
) -> bool {
    let expected = lock_path_of(directory, key);
    match attempt {
        LockAttempt::Acquired => held matches Ok(lock) && lock@ == expected,
        LockAttempt::WouldBlock => {
            &&& held matches Err(Error::InstanceAlreadyRunning { device: owned, lock_path })
            &&& owned == device
            &&& lock_path@ == expected
        },
        LockAttempt::Unopened(failure) => {
            &&& held matches Err(Error::InstanceLockOpen { path, source })
            &&& path@ == expected
            &&& source == failure
        },
        LockAttempt::Failed(errno) => {
            &&& held matches Err(Error::InstanceLock { path, source })
            &&& path@ == expected
            &&& source == errno
        },
    }
}

impl InstanceLock {
    /// The lock on `device` after trying to lock the file for `key` in
    /// `directory`, which is the file at [`lock_path`].
    pub fn acquire_at(
        directory: &[u8],
        device: PathBuf,
        key: &str,
        attempt: LockAttempt,
    ) -> (held: Result<InstanceLock>)
        ensures
            acquires(directory@, device, key@, attempt, held),
    {
        let path = lock_path(directory, key);
        match attempt {
            LockAttempt::Acquired => Ok(InstanceLock { path }),
            LockAttempt::WouldBlock => Err(
                Error::InstanceAlreadyRunning { device, lock_path: path },
            ),
            LockAttempt::Unopened(source) => Err(Error::InstanceLockOpen { path, source }),
            LockAttempt::Failed(source) => Err(Error::InstanceLock { path, source }),
        }
    }

    /// The path of the lock file, as bytes.
    pub fn path(&self) -> (path: &[u8])
        ensures
            path@ == self@,
    {
        self.path.as_slice()
    }
}

/// An environment variable that names the runtime directory.
#[derive(Clone, Copy, Debug, PartialEq, Eq, Structural)]
pub enum RuntimeVariable {
    /// Set for a system service.
    RuntimeDirectory,
    /// Set for the session of a user.
    XdgRuntimeDir,
}

impl RuntimeVariable {
    /// The name of the variable.
    pub open spec fn spec_name(self) -> Seq<char> {
        match self {
            RuntimeVariable::RuntimeDirectory => "RUNTIME_DIRECTORY"@,
            RuntimeVariable::XdgRuntimeDir => "XDG_RUNTIME_DIR"@,
        }
    }

    /// The name of the variable.
    pub fn name(&self) -> (name: &'static str)
        ensures
            name@ == self.spec_name(),
    {
        match self {
            RuntimeVariable::RuntimeDirectory => "RUNTIME_DIRECTORY",
            RuntimeVariable::XdgRuntimeDir => "XDG_RUNTIME_DIR",
        }
    }
}

/// A path in an environment variable: its bytes, and how they are shown.
#[derive(Debug)]
pub struct PathValue {
    pub bytes: Vec<u8>,
    pub shown: String,
}

/// A runtime directory that the environment names.
#[derive(Debug)]
pub struct RuntimeCandidate {
    pub variable: RuntimeVariable,
    pub value: PathValue,
}

/// What looking at a runtime directory brought.
#[derive(Debug)]
pub enum DirectoryProbe {
    /// The path cannot be resolved; the text is the reason.
    Unresolved(String),
    /// The path was resolved, but nothing can be learned of what it leads to.
    Uninspected { shown: String, reason: String },
    /// What the path leads to.
    Inspected { path: PathBuf, shown: String, is_directory: bool, owner_uid: u32, mode: u32 },
}

/// Whether `error` says that the runtime directory in `variable` is unusable
/// for `reason`.
pub open spec fn unusable(error: Error, variable: RuntimeVariable, reason: Seq<char>) -> bool {
    error matches Error::RuntimeDirUnavailable { reason: text } && text@ == variable.spec_name()
        + ": "@ + reason
}

/// Says that the runtime directory in `variable` is unusable for `reason`.
fn runtime_directory_error(variable: RuntimeVariable, reason: String) -> (error: Error)
    ensures
        unusable(error, variable, reason@),
{
    Error::RuntimeDirUnavailable {
        reason: variable.name().to_owned().concat(": ").concat(reason.as_str()),
    }
}

impl RuntimeCandidate {
    /// What is wrong with the value itself.
    pub open spec fn defect(self) -> Option<Seq<char>> {
        if self.value.bytes@.len() == 0 {
            Some("value is empty"@)
        } else if self.variable == RuntimeVariable::RuntimeDirectory
            && self.value.bytes@.contains(0x3au8) {
            Some("multiple colon-separated paths are not supported"@)
        } else if self.value.bytes@[0] != 0x2fu8 {
            Some(self.value.shown@ + " is not an absolute path"@)
        } else {
            None
        }
    }

    /// Fails if the value is empty, names several directories where only one is
    /// supported, or is not an absolute path.
    pub fn check(&self) -> (checked: Result<()>)
        ensures
            match self.defect() {
                None => checked is Ok,
                Some(reason) => checked matches Err(error) && unusable(
                    error,
                    self.variable,
                    reason,
                ),
            },
    {
        if self.value.bytes.is_empty() {
            return Err(runtime_directory_error(self.variable, "value is empty".to_owned()));
        }
        if matches!(self.variable, RuntimeVariable::RuntimeDirectory) && has_colon(
            &self.value.bytes,
        ) {
            return Err(
                runtime_directory_error(
                    self.variable,
                    "multiple colon-separated paths are not supported".to_owned(),
                ),
            );
        }
        if self.value.bytes[0] != 0x2f {
            return Err(
                runtime_directory_error(
                    self.variable,
                    self.value.shown.as_str().to_owned().concat(" is not an absolute path"),
                ),
            );
        }
        Ok(())
    }
}

/// Whether a colon is among `bytes`.
fn has_colon(bytes: &Vec<u8>) -> (found: bool)
    ensures
        found == bytes@.contains(0x3au8),
{
    let mut index: usize = 0;
    while index < bytes.len()
        invariant
            index <= bytes@.len(),
            forall|i: int| 0 <= i < index ==> bytes@[i] != 0x3au8,
        decreases bytes@.len() - index,
    {
        if bytes[index] == 0x3a {
            return true;
        }
        index = index + 1;
    }
    false
}

/// The runtime directory that the environment names, if any.
pub open spec fn candidate(
    runtime_directory: Option<PathValue>,
    xdg_runtime_dir: Option<PathValue>,
) -> Option<RuntimeCandidate> {
    match (runtime_directory, xdg_runtime_dir) {
        (Some(value), _) => Some(
            RuntimeCandidate { variable: RuntimeVariable::RuntimeDirectory, value },
        ),
        (None, Some(value)) => Some(
            RuntimeCandidate { variable: RuntimeVariable::XdgRuntimeDir, value },
        ),
        (None, None) => None,
    }
}

/// Whether `resolved` is the runtime directory to use, or what is wrong with it.
pub open spec fn resolves(
    runtime_directory: Option<PathValue>,
    xdg_runtime_dir: Option<PathValue>,
    resolved: Result<RuntimeCandidate>,
) -> bool {
    match candidate(runtime_directory, xdg_runtime_dir) {
        None => resolved matches Err(Error::RuntimeDirUnavailable { reason }) && reason@
            == "RUNTIME_DIRECTORY and XDG_RUNTIME_DIR are not set"@,
        Some(chosen) => match chosen.defect() {
            None => resolved == Result::<RuntimeCandidate>::Ok(chosen),
            Some(reason) => resolved matches Err(error) && unusable(error, chosen.variable, reason),
        },
    }
}

/// The runtime directory to use, from the values of `RUNTIME_DIRECTORY` and
/// `XDG_RUNTIME_DIR`. The second counts only if the first is not set.
pub fn resolve_runtime_directory(
    runtime_directory: Option<PathValue>,
    xdg_runtime_dir: Option<PathValue>,
) -> (resolved: Result<RuntimeCandidate>)
    ensures
        resolves(runtime_directory, xdg_runtime_dir, resolved),
{
    let chosen = match runtime_directory {
        Some(value) => RuntimeCandidate { variable: RuntimeVariable::RuntimeDirectory, value },
        None => match xdg_runtime_dir {
            Some(value) => RuntimeCandidate { variable: RuntimeVariable::XdgRuntimeDir, value },
            None => {
                return Err(
                    Error::RuntimeDirUnavailable {
                        reason: "RUNTIME_DIRECTORY and XDG_RUNTIME_DIR are not set".to_owned(),
                    },
                );
            },
        },
    };
    match chosen.check() {
        Ok(()) => Ok(chosen),
        Err(error) => Err(error),
    }
}

/// What is wrong with the directory that a path leads to.
pub open spec fn directory_defect(
    shown: Seq<char>,
    is_directory: bool,
    owner_uid: u32,
    mode: u32,
    effective_uid: u32,
) -> Option<Seq<char>> {
    if !is_directory {
        Some(shown + " is not a directory"@)
    } else if owner_uid != effective_uid {
        Some(
            shown + " is owned by UID "@ + digits(owner_uid as nat, 10) + ", not effective UID "@
                + digits(effective_uid as nat, 10),
        )
    } else if mode & 0o020 != 0 || mode & 0o002 != 0 {
        Some(shown + " is group- or world-writable"@)
    } else {
        None
    }
}

/// Fails unless the path leads to a directory that belongs to the daemon and
/// that nobody else can write to.
pub fn validate_runtime_directory_metadata(
    variable: RuntimeVariable,
    shown: &str,
    is_directory: bool,
    owner_uid: u32,
    mode: u32,
    effective_uid: u32,
) -> (valid: Result<()>)
    ensures
        match directory_defect(shown@, is_directory, owner_uid, mode, effective_uid) {
            None => valid is Ok,
            Some(reason) => valid matches Err(error) && unusable(error, variable, reason),
        },
{
    if !is_directory {
        return Err(
            runtime_directory_error(variable, shown.to_owned().concat(" is not a directory")),
        );
    }
    if owner_uid != effective_uid {
        let reason = shown.to_owned().concat(" is owned by UID ").concat(
            number(owner_uid as u64, 10).as_str(),
        ).concat(", not effective UID ").concat(number(effective_uid as u64, 10).as_str());
        return Err(runtime_directory_error(variable, reason));
    }
    assert(mode & 0o022 != 0 <==> mode & 0o020 != 0 || mode & 0o002 != 0) by (bit_vector);
    if mode & 0o022 != 0 {
        return Err(
            runtime_directory_error(
                variable,
                shown.to_owned().concat(" is group- or world-writable"),
            ),
        );
    }
    Ok(())
}

/// Whether `directory` is what a candidate leads to, given what looking at it
/// brought: the directory that was found, if neither the value nor that
/// directory has a defect.
pub open spec fn validated(
    chosen: RuntimeCandidate,
    probe: DirectoryProbe,
    effective_uid: u32,
    directory: Result<PathBuf>,
) -> bool {
    match chosen.defect() {
        Some(reason) => directory matches Err(error) && unusable(error, chosen.variable, reason),
        None => match probe {
            DirectoryProbe::Unresolved(reason) => directory matches Err(error) && unusable(
                error,
                chosen.variable,
                "cannot canonicalize "@ + chosen.value.shown@ + ": "@ + reason@,
            ),
            DirectoryProbe::Uninspected { shown, reason } => directory matches Err(error)
                && unusable(
                error,
                chosen.variable,
                "cannot inspect "@ + shown@ + ": "@ + reason@,
            ),
            DirectoryProbe::Inspected { path, shown, is_directory, owner_uid, mode } => {
                match directory_defect(shown@, is_directory, owner_uid, mode, effective_uid) {
                    None => directory == Result::<PathBuf>::Ok(path),
                    Some(reason) => directory matches Err(error) && unusable(
                        error,
                        chosen.variable,
                        reason,
                    ),
                }
            },
        },
    }
}

/// The runtime directory that a candidate leads to, given what looking at it
/// brought. The value is checked first.
pub fn validate_runtime_directory(
    chosen: &RuntimeCandidate,
    probe: DirectoryProbe,
    effective_uid: u32,
) -> (directory: Result<PathBuf>)
    ensures
        validated(*chosen, probe, effective_uid, directory),
{
    match chosen.check() {
        Ok(()) => {},
        Err(error) => return Err(error),
    }
    match probe {
        DirectoryProbe::Unresolved(reason) => {
            let text = "cannot canonicalize ".to_owned().concat(
                chosen.value.shown.as_str(),
            ).concat(": ").concat(reason.as_str());
            Err(runtime_directory_error(chosen.variable, text))
        },
        DirectoryProbe::Uninspected { shown, reason } => {
            let text = "cannot inspect ".to_owned().concat(shown.as_str()).concat(": ").concat(
                reason.as_str(),
            );
            Err(runtime_directory_error(chosen.variable, text))
        },
        DirectoryProbe::Inspected { path, shown, is_directory, owner_uid, mode } => {
            match validate_runtime_directory_metadata(
                chosen.variable,
                shown.as_str(),
                is_directory,
                owner_uid,
                mode,
                effective_uid,
            ) {
                Ok(()) => Ok(path),
                Err(error) => Err(error),
            }
        },
    }
}

/// Why the event loop stopped.
#[derive(Debug)]
pub enum LoopExit {
    /// The daemon was asked to stop.
    RequestedShutdown,
    /// The touchpad is gone.
    InputDisconnected { source: IoFailure },
    /// The touchpad cannot be read.
    InputReadFailed { source: IoFailure },
    /// Waiting for events failed.
    PollFailed { source: Errno },
    /// The virtual touchpad cannot be written.
    VirtualTouchpadFailed { source: IoFailure },
    /// The virtual wheel cannot be written.
    VirtualWheelFailed { source: IoFailure },
    /// The shutdown signal cannot be read.
    SignalReadFailed { source: Errno },
}

impl LoopExit {
    /// Whether the daemon stopped because it was asked to.
    pub fn is_success(&self) -> (success: bool)
        ensures
            success == (self is RequestedShutdown),
    {
        matches!(self, LoopExit::RequestedShutdown)
    }
}

/// A set `RUNTIME_DIRECTORY` decides alone: whatever is wrong with it, the
/// directory of the user's session is not used in its place.
pub proof fn law_runtime_directory_does_not_fall_back(
    value: PathValue,
    xdg_runtime_dir: Option<PathValue>,
)
    ensures
        candidate(Some(value), xdg_runtime_dir) == candidate(Some(value), None),
        candidate(Some(value), xdg_runtime_dir) matches Some(chosen) && chosen.variable
            == RuntimeVariable::RuntimeDirectory,
{
}

/// A directory is accepted exactly if it is a directory, belongs to the daemon
/// and is writable neither to its group nor to the world.
pub proof fn law_accepted_directories_are_private(
    shown: Seq<char>,
    is_directory: bool,
    owner_uid: u32,
    mode: u32,
    effective_uid: u32,
)
    ensures
        directory_defect(shown, is_directory, owner_uid, mode, effective_uid) is None <==> {
            &&& is_directory
            &&& owner_uid == effective_uid
            &&& mode & 0o020 == 0
            &&& mode & 0o002 == 0
        },
{
}

/// A runtime directory is accepted exactly if its variable holds one absolute
/// path that resolves to a directory which belongs to the daemon and which
/// nobody else can write to. The accepted path is the one that was resolved.
pub proof fn law_accepted_runtime_directories(
    chosen: RuntimeCandidate,
    probe: DirectoryProbe,
    effective_uid: u32,
    directory: Result<PathBuf>,
    accepted: PathBuf,
)
    requires
        validated(chosen, probe, effective_uid, directory),
    ensures
        directory == Result::<PathBuf>::Ok(accepted) <==> {
            &&& chosen.defect() is None
            &&& probe matches DirectoryProbe::Inspected {
                path,
                shown,
                is_directory,
                owner_uid,
                mode,
            }
            &&& path == accepted
            &&& directory_defect(shown@, is_directory, owner_uid, mode, effective_uid) is None
        },
        directory is Ok ==> {
            &&& chosen.value.bytes@.len() > 0
            &&& chosen.value.bytes@[0] == 0x2fu8
            &&& chosen.variable == RuntimeVariable::RuntimeDirectory
                ==> !chosen.value.bytes@.contains(0x3au8)
            &&& probe matches DirectoryProbe::Inspected { is_directory, owner_uid, mode, .. }
            &&& is_directory
            &&& owner_uid == effective_uid
            &&& mode & 0o020 == 0
            &&& mode & 0o002 == 0
        },
{
}

/// The paths of the lock files that live instances have locked. A lock ends with
/// its owner; the file stays.
pub struct LockedFiles {
    pub paths: Set<Seq<u8>>,
}

impl LockedFiles {
    /// What trying to lock the file at `path` brings, where the file can be
    /// opened and locking fails only because of a live owner.
    pub open spec fn attempt(self, path: Seq<u8>) -> LockAttempt {
        if self.paths.contains(path) {
            LockAttempt::WouldBlock
        } else {
            LockAttempt::Acquired
        }
    }

    /// The locked files once the file at `path` has an owner.
    pub open spec fn locked(self, path: Seq<u8>) -> LockedFiles {
        LockedFiles { paths: self.paths.insert(path) }
    }

    /// The locked files once the owner of the file at `path` is gone.
    pub open spec fn released(self, path: Seq<u8>) -> LockedFiles {
        LockedFiles { paths: self.paths.remove(path) }
    }
}

/// A live owner keeps other instances away from its device, and a stale lock file
/// does not: the first instance gets the lock at the path that the directory and
/// the key make, a second one is told as long as the first one lives that the
/// device has an owner, with that path, and afterwards the lock can be had again.
pub proof fn law_live_owner_excludes_others(
    files: LockedFiles,
    directory: Seq<u8>,
    device: PathBuf,
    key: Seq<char>,
    first: Result<InstanceLock>,
    second: Result<InstanceLock>,
    third: Result<InstanceLock>,
)
    requires
        !files.paths.contains(lock_path_of(directory, key)),
        ({
            let path = lock_path_of(directory, key);
            &&& acquires(directory, device, key, files.attempt(path), first)
            &&& acquires(directory, device, key, files.locked(path).attempt(path), second)
            &&& acquires(
                directory,
                device,
                key,
                files.locked(path).released(path).attempt(path),
                third,
            )
        }),
    ensures
        first matches Ok(lock) && lock@ == lock_path_of(directory, key),
        second matches Err(Error::InstanceAlreadyRunning { device: owned, lock_path }) && owned
            == device && lock_path@ == first->Ok_0@,
        third matches Ok(lock) && lock@ == first->Ok_0@,
{
}

/// An instance for one device does not keep an instance for another device away.
pub proof fn law_owners_of_other_devices_do_not_matter(
    files: LockedFiles,
    directory: Seq<u8>,
    first: u64,
    second: u64,
)
    requires
        first != second,
    ensures
        ({
            let taken = lock_path_of(directory, device_name(first));
            let wanted = lock_path_of(directory, device_name(second));
            &&& files.locked(taken).attempt(wanted) == files.attempt(wanted)
            &&& files.released(taken).attempt(wanted) == files.attempt(wanted)
        }),
{
    if lock_path_of(directory, device_name(first)) == lock_path_of(
        directory,
        device_name(second),
    ) {
        law_lock_files_tell_devices_apart(directory, first, second);
    }
}

/// Every device has a lock file of its own.
pub proof fn law_lock_files_tell_devices_apart(directory: Seq<u8>, first: u64, second: u64)
    requires
        lock_path_of(directory, device_name(first)) == lock_path_of(
            directory,
            device_name(second),
        ),
    ensures
        first == second,
{
    let prefix = "letsnote-wheelpad-"@;
    let key = "device-"@;
    let name = lock_name(device_name(first));
    let other = lock_name(device_name(second));
    law_joined_components_can_be_told_apart(directory, encode_utf8(name), encode_utf8(other));
    encode_utf8_decode_utf8(name);
    encode_utf8_decode_utf8(other);
    let end = name.len() - ".lock"@.len();
    assert(name.subrange((prefix.len() + key.len()) as int, end) =~= digits(first as nat, 16));
    assert(name.subrange((prefix.len() + key.len()) as int, end) =~= digits(second as nat, 16));
    law_digits_tell_numbers_apart(first as nat, second as nat, 16);
}

/// The variable of a system service decides if it is set, and that of the session
/// otherwise; each value is taken as it is.
pub proof fn law_service_variable_comes_first(
    service: Option<PathValue>,
    session: Option<PathValue>,
)
    ensures
        service matches Some(value) ==> (candidate(service, session) matches Some(chosen)
            && chosen.variable is RuntimeDirectory && chosen.value == value),
        service is None && session is Some ==> (candidate(service, session) matches Some(chosen)
            && chosen.variable is XdgRuntimeDir && Some(chosen.value) == session),
        service is None && session is None ==> candidate(service, session) is None,
{
}

/// A value is refused if it is empty, if it holds a colon in the variable of a
/// system service, or if it does not begin with a separator, in this order and for
/// that reason. A colon in the variable of the session is no defect.
pub proof fn law_values_are_refused_for_their_defect(chosen: RuntimeCandidate)
    ensures
        ({
            let bytes = chosen.value.bytes@;
            let several = chosen.variable is RuntimeDirectory && exists|i: int|
                0 <= i < bytes.len() && #[trigger] bytes[i] == 0x3a;
            &&& chosen.defect() is None <==> bytes.len() > 0 && bytes[0] == 0x2f && !several
            &&& bytes.len() == 0 ==> chosen.defect() == Some("value is empty"@)
            &&& bytes.len() > 0 && several ==> chosen.defect() == Some(
                "multiple colon-separated paths are not supported"@,
            )
            &&& bytes.len() > 0 && !several && bytes[0] != 0x2f ==> chosen.defect() == Some(
                chosen.value.shown@ + " is not an absolute path"@,
            )
        }),
{
    let bytes = chosen.value.bytes@;
    if bytes.contains(0x3au8) {
        let at = choose|at: int| 0 <= at < bytes.len() && bytes[at] == 0x3au8;
        assert(bytes[at] == 0x3a);
    }
}

/// A directory is refused because it is none, because of its owner, or because
/// others can write to it, in this order and for that reason.
pub proof fn law_directories_are_refused_for_their_defect(
    shown: Seq<char>,
    is_directory: bool,
    owner_uid: u32,
    mode: u32,
    effective_uid: u32,
)
    ensures
        ({
            let refused = directory_defect(shown, is_directory, owner_uid, mode, effective_uid);
            let writable = mode & 0o022 != 0;
            &&& refused is None <==> is_directory && owner_uid == effective_uid && !writable
            &&& !is_directory ==> refused == Some(shown + " is not a directory"@)
            &&& is_directory && owner_uid != effective_uid ==> refused == Some(
                shown + " is owned by UID "@ + digits(owner_uid as nat, 10)
                    + ", not effective UID "@ + digits(effective_uid as nat, 10),
            )
            &&& is_directory && owner_uid == effective_uid && writable ==> refused == Some(
                shown + " is group- or world-writable"@,
            )
        }),
{
    assert(mode & 0o022 != 0 <==> mode & 0o020 != 0 || mode & 0o002 != 0) by (bit_vector);
}

/// An unusable directory is reported with the name of its variable and the reason.
pub proof fn law_unusable_directories_name_their_variable(
    error: Error,
    variable: RuntimeVariable,
    reason: Seq<char>,
)
    requires
        unusable(error, variable, reason),
    ensures
        error matches Error::RuntimeDirUnavailable { reason: text } && text@ == (match variable {
            RuntimeVariable::RuntimeDirectory => "RUNTIME_DIRECTORY"@,
            RuntimeVariable::XdgRuntimeDir => "XDG_RUNTIME_DIR"@,
        }) + ": "@ + reason,
{
}

/// A candidate without a defect that cannot be looked at is refused with the reason,
/// and so is one that leads to a directory with a defect.
pub proof fn law_refused_candidates_have_a_reason(
    chosen: RuntimeCandidate,
    probe: DirectoryProbe,
    effective_uid: u32,
    directory: Result<PathBuf>,
)
    requires
        validated(chosen, probe, effective_uid, directory),
    ensures
        chosen.defect() matches Some(reason) ==> (directory matches Err(error) && unusable(
            error,
            chosen.variable,
            reason,
        )),
        chosen.defect() is None ==> (probe matches DirectoryProbe::Unresolved(reason) ==> (
        directory matches Err(error) && unusable(
            error,
            chosen.variable,
            "cannot canonicalize "@ + chosen.value.shown@ + ": "@ + reason@,
        ))),
        chosen.defect() is None ==> (probe matches DirectoryProbe::Uninspected { shown, reason }
            ==> (directory matches Err(error) && unusable(
            error,
            chosen.variable,
            "cannot inspect "@ + shown@ + ": "@ + reason@,
        ))),
        chosen.defect() is None ==> (probe matches DirectoryProbe::Inspected {
            shown,
            is_directory,
            owner_uid,
            mode,
            ..
        } ==> (directory_defect(shown@, is_directory, owner_uid, mode, effective_uid) matches Some(
            reason,
        ) ==> (directory matches Err(error) && unusable(error, chosen.variable, reason)))),
{
}

/// The lock file of a device stands in the directory, and its name is made of the
/// hexadecimal number of the device.
pub proof fn law_lock_file_is_named_after_its_device(directory: Seq<u8>, key: Seq<char>, rdev: u64)
    ensures
        ({
            let path = lock_path_of(directory, key);
            let name = encode_utf8("letsnote-wheelpad-"@ + key + ".lock"@);
            &&& path.take(directory.len() as int) == directory
            &&& path.skip(path.len() - name.len()) == name
            &&& directory.len() > 0 && directory.last() != 0x2f ==> path.len() == directory.len() + 1
                + name.len()
            &&& directory.len() > 0 && directory.last() == 0x2f ==> path.len() == directory.len()
                + name.len()
            &&& directory.len() > 0 ==> path[path.len() - name.len() - 1] == 0x2f
            &&& directory.len() == 0 ==> path.len() == name.len()
        }),
        device_name(rdev).take("device-"@.len() as int) == "device-"@,
        number_written(device_name(rdev).skip("device-"@.len() as int), 16) == rdev,
{
    law_joined_bytes_keep_their_parts(directory, encode_utf8(lock_name(key)));
    law_digits_write_the_number(rdev as nat, 16);
    assert(device_name(rdev).take("device-"@.len() as int) =~= "device-"@);
    assert(device_name(rdev).skip("device-"@.len() as int) =~= digits(rdev as nat, 16));
}

/// Whatever comes of trying to lock the file, the path that is named is that of the
/// directory and the key, and a failure keeps its cause; the lock is held exactly
/// if it was taken.
pub proof fn law_lock_attempts_keep_their_outcome(
    directory: Seq<u8>,
    device: PathBuf,
    key: Seq<char>,
    attempt: LockAttempt,
    held: Result<InstanceLock>,
)
    requires
        acquires(directory, device, key, attempt, held),
    ensures
        held is Ok <==> attempt is Acquired,
        held matches Ok(lock) ==> lock@ == lock_path_of(directory, key),
        attempt is WouldBlock ==> (held matches Err(
            Error::InstanceAlreadyRunning { device: owned, lock_path },
        ) && owned == device && lock_path@ == lock_path_of(directory, key)),
        attempt matches LockAttempt::Unopened(failure) ==> (held matches Err(
            Error::InstanceLockOpen { path, source },
        ) && source == failure && path@ == lock_path_of(directory, key)),
        attempt matches LockAttempt::Failed(errno) ==> (held matches Err(
            Error::InstanceLock { path, source },
        ) && source == errno && path@ == lock_path_of(directory, key)),
{
}

/// Termination and interrupt ask the daemon to stop, and no other signal does.
pub proof fn law_two_signals_request_a_shutdown(number: u32)
    ensures
        requests_shutdown(Some(number)) <==> number == 15 || number == 2,
        !requests_shutdown(None),
{
}

/// A runtime directory is resolved exactly if a variable names one without a defect.
/// A defect of the one that decides is reported, and is never mended by the other;
/// without any variable that is what is reported.
pub proof fn law_resolved_directories_have_no_defect(
    service: Option<PathValue>,
    session: Option<PathValue>,
    resolved: Result<RuntimeCandidate>,
)
    requires
        resolves(service, session, resolved),
    ensures
        resolved matches Ok(chosen) ==> chosen.defect() is None && (service matches Some(value) ==> (
        chosen.variable is RuntimeDirectory && chosen.value == value)) && (service is None ==> (
        chosen.variable is XdgRuntimeDir && session == Some(chosen.value))),
        service matches Some(value) ==> {
            let named = RuntimeCandidate { variable: RuntimeVariable::RuntimeDirectory, value };
            &&& named.defect() is None ==> resolved == Result::<RuntimeCandidate>::Ok(named)
            &&& named.defect() matches Some(reason) ==> (resolved matches Err(error) && unusable(
                error,
                RuntimeVariable::RuntimeDirectory,
                reason,
            ))
        },
        service is None ==> (session matches Some(value) ==> {
            let named = RuntimeCandidate { variable: RuntimeVariable::XdgRuntimeDir, value };
            &&& named.defect() is None ==> resolved == Result::<RuntimeCandidate>::Ok(named)
            &&& named.defect() matches Some(reason) ==> (resolved matches Err(error) && unusable(
                error,
                RuntimeVariable::XdgRuntimeDir,
                reason,
            ))
        }),
        service is None && session is None ==> (resolved matches Err(
            Error::RuntimeDirUnavailable { reason },
        ) && reason@ == "RUNTIME_DIRECTORY and XDG_RUNTIME_DIR are not set"@),
{
}

} // verus!
