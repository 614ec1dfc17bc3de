//! The shared data model: VM, snapshot, NIC and shared-folder records, the
//! power-state lattice, the error taxonomy every backend adapter maps into,
//! and the capability interfaces a backend may implement.
use vstd::prelude::*;

verus! {

/// A VM power state as reported by a backend.
///
/// `NotRunning` is a coarse observation covering `Stopped`, `Suspended` and
/// `Paused`; `Unknown` is a legitimate terminal observation for backends
/// that cannot disambiguate.
#[derive(Debug, Clone, Copy, Eq, PartialEq, Hash, Structural)]
pub enum VmPowerState {
    Running,
    NotRunning,
    Stopped,
    Suspended,
    Paused,
    Unknown,
}

impl VmPowerState {
    /// True exactly on `Running`.
    pub fn is_running(&self) -> (r: bool)
        ensures
            r == (*self == VmPowerState::Running),
    {
        match self {
            VmPowerState::Running => true,
            _ => false,
        }
    }
}

/// The closed set of semantic failures a backend operation can surface.
#[derive(Debug)]
pub enum ErrorKind {
    AuthenticationFailed,
    CredentialIsNotSpecified,
    ExecutionFailed(String),
    FileError(String),
    FromUtf8Error(String),
    GuestAuthenticationFailed,
    GuestFileExists,
    GuestFileNotFound,
    HostFileExists,
    HostFileNotFound,
    InvalidParameter(String),
    /// Carries the power state the backend observed, so callers can branch
    /// on it without re-querying.
    InvalidPowerState(VmPowerState),
    NetworkAdaptorNotFound,
    NetworkNotFound,
    PermissionDenied,
    PrivilegesRequired,
    ServiceIsNotRunning,
    SnapshotExists,
    SnapshotNotFound,
    Timeout,
    UnexpectedResponse(String),
    UnsupportedCommand,
    VmIsNotSpecified,
    VmNotFound,
}

/// Structural equality of two error kinds, comparing string payloads by
/// their character sequences.
pub open spec fn error_kind_eq(a: ErrorKind, b: ErrorKind) -> bool {
    match (a, b) {
        (ErrorKind::AuthenticationFailed, ErrorKind::AuthenticationFailed) => true,
        (ErrorKind::CredentialIsNotSpecified, ErrorKind::CredentialIsNotSpecified) => true,
        (ErrorKind::ExecutionFailed(x), ErrorKind::ExecutionFailed(y)) => x@ == y@,
        (ErrorKind::FileError(x), ErrorKind::FileError(y)) => x@ == y@,
        (ErrorKind::FromUtf8Error(x), ErrorKind::FromUtf8Error(y)) => x@ == y@,
        (ErrorKind::GuestAuthenticationFailed, ErrorKind::GuestAuthenticationFailed) => true,
        (ErrorKind::GuestFileExists, ErrorKind::GuestFileExists) => true,
        (ErrorKind::GuestFileNotFound, ErrorKind::GuestFileNotFound) => true,
        (ErrorKind::HostFileExists, ErrorKind::HostFileExists) => true,
        (ErrorKind::HostFileNotFound, ErrorKind::HostFileNotFound) => true,
        (ErrorKind::InvalidParameter(x), ErrorKind::InvalidParameter(y)) => x@ == y@,
        (ErrorKind::InvalidPowerState(x), ErrorKind::InvalidPowerState(y)) => x == y,
        (ErrorKind::NetworkAdaptorNotFound, ErrorKind::NetworkAdaptorNotFound) => true,
        (ErrorKind::NetworkNotFound, ErrorKind::NetworkNotFound) => true,
        (ErrorKind::PermissionDenied, ErrorKind::PermissionDenied) => true,
        (ErrorKind::PrivilegesRequired, ErrorKind::PrivilegesRequired) => true,
        (ErrorKind::ServiceIsNotRunning, ErrorKind::ServiceIsNotRunning) => true,
        (ErrorKind::SnapshotExists, ErrorKind::SnapshotExists) => true,
        (ErrorKind::SnapshotNotFound, ErrorKind::SnapshotNotFound) => true,
        (ErrorKind::Timeout, ErrorKind::Timeout) => true,
        (ErrorKind::UnexpectedResponse(x), ErrorKind::UnexpectedResponse(y)) => x@ == y@,
        (ErrorKind::UnsupportedCommand, ErrorKind::UnsupportedCommand) => true,
        (ErrorKind::VmIsNotSpecified, ErrorKind::VmIsNotSpecified) => true,
        (ErrorKind::VmNotFound, ErrorKind::VmNotFound) => true,
        _ => false,
    }
}

impl PartialEq for ErrorKind {
    fn eq(&self, other: &Self) -> (r: bool) {
        match (self, other) {
            (ErrorKind::AuthenticationFailed, ErrorKind::AuthenticationFailed) => true,
            (ErrorKind::CredentialIsNotSpecified, ErrorKind::CredentialIsNotSpecified) => true,
            (ErrorKind::ExecutionFailed(x), ErrorKind::ExecutionFailed(y)) => *x == *y,
            (ErrorKind::FileError(x), ErrorKind::FileError(y)) => *x == *y,
            (ErrorKind::FromUtf8Error(x), ErrorKind::FromUtf8Error(y)) => *x == *y,
            (ErrorKind::GuestAuthenticationFailed, ErrorKind::GuestAuthenticationFailed) => true,
            (ErrorKind::GuestFileExists, ErrorKind::GuestFileExists) => true,
            (ErrorKind::GuestFileNotFound, ErrorKind::GuestFileNotFound) => true,
            (ErrorKind::HostFileExists, ErrorKind::HostFileExists) => true,
            (ErrorKind::HostFileNotFound, ErrorKind::HostFileNotFound) => true,
            (ErrorKind::InvalidParameter(x), ErrorKind::InvalidParameter(y)) => *x == *y,
            (ErrorKind::InvalidPowerState(x), ErrorKind::InvalidPowerState(y)) => *x == *y,
            (ErrorKind::NetworkAdaptorNotFound, ErrorKind::NetworkAdaptorNotFound) => true,
            (ErrorKind::NetworkNotFound, ErrorKind::NetworkNotFound) => true,
            (ErrorKind::PermissionDenied, ErrorKind::PermissionDenied) => true,
            (ErrorKind::PrivilegesRequired, ErrorKind::PrivilegesRequired) => true,
            (ErrorKind::ServiceIsNotRunning, ErrorKind::ServiceIsNotRunning) => true,
            (ErrorKind::SnapshotExists, ErrorKind::SnapshotExists) => true,
            (ErrorKind::SnapshotNotFound, ErrorKind::SnapshotNotFound) => true,
            (ErrorKind::Timeout, ErrorKind::Timeout) => true,
            (ErrorKind::UnexpectedResponse(x), ErrorKind::UnexpectedResponse(y)) => *x == *y,
            (ErrorKind::UnsupportedCommand, ErrorKind::UnsupportedCommand) => true,
            (ErrorKind::VmIsNotSpecified, ErrorKind::VmIsNotSpecified) => true,
            (ErrorKind::VmNotFound, ErrorKind::VmNotFound) => true,
            _ => false,
        }
    }
}

impl vstd::std_specs::cmp::PartialEqSpecImpl for ErrorKind {
    open spec fn obeys_eq_spec() -> bool {
        true
    }

    open spec fn eq_spec(&self, other: &Self) -> bool {
        error_kind_eq(*self, *other)
    }
}

/// How a failure was produced: a classified backend error, an unrecognized
/// backend message kept verbatim, or a transport/serialization fault.
#[derive(Debug)]
pub enum Repr {
    Simple(ErrorKind),
    Unknown(String),
    SerializeError,
    IoError,
}

/// Structural equality of two error representations.
pub open spec fn repr_eq(a: Repr, b: Repr) -> bool {
    match (a, b) {
        (Repr::Simple(x), Repr::Simple(y)) => error_kind_eq(x, y),
        (Repr::Unknown(x), Repr::Unknown(y)) => x@ == y@,
        (Repr::SerializeError, Repr::SerializeError) => true,
        (Repr::IoError, Repr::IoError) => true,
        _ => false,
    }
}

impl PartialEq for Repr {
    fn eq(&self, other: &Self) -> (r: bool) {
        match (self, other) {
            (Repr::Simple(x), Repr::Simple(y)) => *x == *y,
            (Repr::Unknown(x), Repr::Unknown(y)) => *x == *y,
            (Repr::SerializeError, Repr::SerializeError) => true,
            (Repr::IoError, Repr::IoError) => true,
            _ => false,
        }
    }
}

impl vstd::std_specs::cmp::PartialEqSpecImpl for Repr {
    open spec fn obeys_eq_spec() -> bool {
        true
    }

    open spec fn eq_spec(&self, other: &Self) -> bool {
        repr_eq(*self, *other)
    }
}

/// The error type every operation returns.
#[derive(Debug)]
pub struct VmError {
    pub repr: Repr,
}

/// Structural equality of two errors.
pub open spec fn vm_error_eq(a: VmError, b: VmError) -> bool {
    repr_eq(a.repr, b.repr)
}

/// The error value that carries `kind` as a classified failure.
pub open spec fn spec_error(kind: ErrorKind) -> VmError {
    VmError { repr: Repr::Simple(kind) }
}

/// Holds when `e` is the classified failure `kind`, comparing any string
/// payload by its characters.
pub open spec fn err_is(e: VmError, kind: ErrorKind) -> bool {
    e.repr matches Repr::Simple(k) && error_kind_eq(k, kind)
}

/// Holds when `e` is `InvalidPowerState` carrying exactly `st`.
pub open spec fn err_is_invalid_state(e: VmError, st: VmPowerState) -> bool {
    e.repr matches Repr::Simple(ErrorKind::InvalidPowerState(x)) && x == st
}

/// Holds when `e` is `UnexpectedResponse` keeping the text `s` verbatim.
pub open spec fn err_is_unexpected(e: VmError, s: Seq<char>) -> bool {
    e.repr matches Repr::Simple(ErrorKind::UnexpectedResponse(x)) && x@ == s
}

/// Holds when `e` is `FileError` carrying the detail `s`.
pub open spec fn err_is_file_error(e: VmError, s: Seq<char>) -> bool {
    e.repr matches Repr::Simple(ErrorKind::FileError(x)) && x@ == s
}

/// Holds when `e` is `InvalidParameter` carrying the detail `s`.
pub open spec fn err_is_invalid_parameter(e: VmError, s: Seq<char>) -> bool {
    e.repr matches Repr::Simple(ErrorKind::InvalidParameter(x)) && x@ == s
}

/// Holds when `e` is the unrecognized-message catch-all keeping `s`
/// verbatim.
pub open spec fn err_is_unknown(e: VmError, s: Seq<char>) -> bool {
    e.repr matches Repr::Unknown(x) && x@ == s
}

impl PartialEq for VmError {
    fn eq(&self, other: &Self) -> (r: bool) {
        self.repr == other.repr
    }
}

impl vstd::std_specs::cmp::PartialEqSpecImpl for VmError {
    open spec fn obeys_eq_spec() -> bool {
        true
    }

    open spec fn eq_spec(&self, other: &Self) -> bool {
        vm_error_eq(*self, *other)
    }
}

impl VmError {
    /// The power state carried by an `InvalidPowerState` error, if that is
    /// what this error is.
    pub fn get_invalid_state(&self) -> (r: Option<VmPowerState>)
        ensures
            r == (match self.repr {
                Repr::Simple(ErrorKind::InvalidPowerState(x)) => Some(x),
                _ => None::<VmPowerState>,
            }),
    {
        match &self.repr {
            Repr::Simple(ErrorKind::InvalidPowerState(x)) => Some(*x),
            _ => None,
        }
    }

    /// The representation of this error.
    pub fn get_repr(&self) -> (r: &Repr)
        ensures
            *r == self.repr,
    {
        &self.repr
    }

    /// `Some(true)` for `InvalidPowerState(Running)`, `Some(false)` for
    /// `InvalidPowerState` carrying any other state, `None` otherwise.
    pub fn is_invalid_state_running(&self) -> (r: Option<bool>)
        ensures
            r == (match self.repr {
                Repr::Simple(ErrorKind::InvalidPowerState(x)) => Some(
                    x == VmPowerState::Running,
                ),
                _ => None::<bool>,
            }),
    {
        match self.get_invalid_state() {
            Some(x) => Some(x.is_running()),
            None => None,
        }
    }
}

impl From<Repr> for VmError {
    fn from(repr: Repr) -> (r: Self) {
        VmError { repr }
    }
}

impl vstd::std_specs::convert::FromSpecImpl<Repr> for VmError {
    open spec fn obeys_from_spec() -> bool {
        true
    }

    open spec fn from_spec(repr: Repr) -> Self {
        VmError { repr }
    }
}

impl From<ErrorKind> for VmError {
    fn from(e: ErrorKind) -> (r: Self) {
        VmError { repr: Repr::Simple(e) }
    }
}

impl vstd::std_specs::convert::FromSpecImpl<ErrorKind> for VmError {
    open spec fn obeys_from_spec() -> bool {
        true
    }

    open spec fn from_spec(e: ErrorKind) -> Self {
        VmError { repr: Repr::Simple(e) }
    }
}

pub type VmResult<T> = Result<T, VmError>;

/// Represents a VM. All backends populate a different subset of the
/// fields, so equality holds when any one of id, path or name matches,
/// checked in that priority order.
#[derive(Debug)]
pub struct Vm {
    /// Unique ID for the VM.
    pub id: Option<String>,
    /// The name of the VM.
    pub name: Option<String>,
    /// The path to the VM file.
    pub path: Option<String>,
}

/// The equality rule for VMs: the id decides when both sides carry one,
/// else the path decides when both sides carry one, else the name decides
/// when both sides carry one; two VMs with no field in common are unequal.
pub open spec fn vm_eq(a: Vm, b: Vm) -> bool {
    if a.id is Some && b.id is Some {
        a.id->0@ == b.id->0@
    } else if a.path is Some && b.path is Some {
        a.path->0@ == b.path->0@
    } else if a.name is Some && b.name is Some {
        a.name->0@ == b.name->0@
    } else {
        false
    }
}

impl PartialEq for Vm {
    fn eq(&self, other: &Self) -> (r: bool) {
        if let (Some(x), Some(x2)) = (&self.id, &other.id) {
            return *x == *x2;
        }
        if let (Some(x), Some(x2)) = (&self.path, &other.path) {
            return *x == *x2;
        }
        if let (Some(x), Some(x2)) = (&self.name, &other.name) {
            return *x == *x2;
        }
        false
    }
}

impl vstd::std_specs::cmp::PartialEqSpecImpl for Vm {
    open spec fn obeys_eq_spec() -> bool {
        true
    }

    open spec fn eq_spec(&self, other: &Self) -> bool {
        vm_eq(*self, *other)
    }
}

impl Default for Vm {
    /// A VM record with no field populated.
    fn default() -> (r: Self)
        ensures
            r.id is None,
            r.name is None,
            r.path is None,
    {
        Vm { id: None, name: None, path: None }
    }
}

/// Represents a snapshot of a VM. Equality follows the same rule as `Vm`,
/// with the id deciding before the name and the detail never compared.
#[derive(Debug)]
pub struct Snapshot {
    pub id: Option<String>,
    pub name: Option<String>,
    /// Free-text description; may span several lines.
    pub detail: Option<String>,
}

/// The equality rule for snapshots: id decides when both sides carry one,
/// else the name decides when both sides carry one.
pub open spec fn snapshot_eq(a: Snapshot, b: Snapshot) -> bool {
    if a.id is Some && b.id is Some {
        a.id->0@ == b.id->0@
    } else if a.name is Some && b.name is Some {
        a.name->0@ == b.name->0@
    } else {
        false
    }
}

impl PartialEq for Snapshot {
    fn eq(&self, other: &Self) -> (r: bool) {
        if let (Some(x), Some(x2)) = (&self.id, &other.id) {
            return *x == *x2;
        }
        if let (Some(x), Some(x2)) = (&self.name, &other.name) {
            return *x == *x2;
        }
        false
    }
}

impl vstd::std_specs::cmp::PartialEqSpecImpl for Snapshot {
    open spec fn obeys_eq_spec() -> bool {
        true
    }

    open spec fn eq_spec(&self, other: &Self) -> bool {
        snapshot_eq(*self, *other)
    }
}

impl Default for Snapshot {
    /// A snapshot record with no field populated.
    fn default() -> (r: Self)
        ensures
            r.id is None,
            r.name is None,
            r.detail is None,
    {
        Snapshot { id: None, name: None, detail: None }
    }
}

/// Represents a NIC type.
#[derive(Debug, Hash)]
pub enum NicType {
    Bridge,
    NAT,
    HostOnly,
    Custom(String),
}

/// Structural equality of two NIC types.
pub open spec fn nic_type_eq(a: NicType, b: NicType) -> bool {
    match (a, b) {
        (NicType::Bridge, NicType::Bridge) => true,
        (NicType::NAT, NicType::NAT) => true,
        (NicType::HostOnly, NicType::HostOnly) => true,
        (NicType::Custom(x), NicType::Custom(y)) => x@ == y@,
        _ => false,
    }
}

impl PartialEq for NicType {
    fn eq(&self, other: &Self) -> (r: bool) {
        match (self, other) {
            (NicType::Bridge, NicType::Bridge) => true,
            (NicType::NAT, NicType::NAT) => true,
            (NicType::HostOnly, NicType::HostOnly) => true,
            (NicType::Custom(x), NicType::Custom(y)) => *x == *y,
            _ => false,
        }
    }
}

impl vstd::std_specs::cmp::PartialEqSpecImpl for NicType {
    open spec fn obeys_eq_spec() -> bool {
        true
    }

    open spec fn eq_spec(&self, other: &Self) -> bool {
        nic_type_eq(*self, *other)
    }
}

/// Represents a NIC.
#[derive(Debug, Hash)]
pub struct Nic {
    /// The adapter index, as a string.
    pub id: Option<String>,
    /// The virtual network name.
    pub name: Option<String>,
    pub ty: Option<NicType>,
    pub mac_address: Option<String>,
}

impl Default for Nic {
    /// A NIC record with no field populated.
    fn default() -> (r: Self)
        ensures
            r.id is None,
            r.name is None,
            r.ty is None,
            r.mac_address is None,
    {
        Nic { id: None, name: None, ty: None, mac_address: None }
    }
}

/// Represents a shared folder.
#[derive(Debug, Hash)]
pub struct SharedFolder {
    pub id: Option<String>,
    pub name: Option<String>,
    pub guest_path: Option<String>,
    pub host_path: Option<String>,
    pub is_readonly: bool,
}

impl Default for SharedFolder {
    /// A shared-folder record with no field populated, writable.
    fn default() -> (r: Self)
        ensures
            r.id is None,
            r.name is None,
            r.guest_path is None,
            r.host_path is None,
            r.is_readonly == false,
    {
        SharedFolder {
            id: None,
            name: None,
            guest_path: None,
            host_path: None,
            is_readonly: false,
        }
    }
}

/// A capability interface for enumerating and selecting VMs. A backend
/// that cannot address VMs by a given key type returns
/// `UnsupportedCommand` from the corresponding setter.
pub trait VmCmd {
    /// Gets a list of VMs.
    fn list_vms(&self) -> VmResult<Vec<Vm>>;

    /// Selects the VM with the given backend-specific id, failing with
    /// `VmNotFound` if no VM matches.
    fn set_vm_by_id(&mut self, id: &str) -> VmResult<()>;

    /// Selects the VM with the given name, failing with `VmNotFound` if no
    /// VM matches.
    fn set_vm_by_name(&mut self, name: &str) -> VmResult<()>;

    /// Selects the VM stored at the given file path, failing with
    /// `VmNotFound` if no VM matches.
    fn set_vm_by_path(&mut self, path: &str) -> VmResult<()>;
}

/// A capability interface for the power lifecycle of a VM. Timeouts are in
/// milliseconds; an absent timeout means "wait indefinitely". Every
/// transition is safe to call from the wrong state and then reports
/// `InvalidPowerState` instead of crashing.
pub trait PowerCmd {
    /// Starts the VM and waits for it to start.
    fn start(&self) -> VmResult<()>;

    /// Stops the VM softly (usually an ACPI shutdown signal) and waits for
    /// it to stop or for the timeout to elapse.
    fn stop(&self, timeout_ms: Option<u64>) -> VmResult<()>;

    /// Stops the VM hard and waits for it to stop.
    fn hard_stop(&self) -> VmResult<()>;

    /// Suspends the VM and waits for it to suspend.
    fn suspend(&self) -> VmResult<()>;

    /// Resumes the suspended VM.
    fn resume(&self) -> VmResult<()>;

    /// Returns `true` if the VM is running.
    fn is_running(&self) -> VmResult<bool>;

    /// Reboots the VM softly and waits for it to start.
    fn reboot(&self, timeout_ms: Option<u64>) -> VmResult<()>;

    /// Reboots the VM hard and waits for it to start.
    fn hard_reboot(&self) -> VmResult<()>;

    /// Pauses the VM and waits for it to pause.
    fn pause(&self) -> VmResult<()>;

    /// Unpauses the VM and waits for it to unpause.
    fn unpause(&self) -> VmResult<()>;
}

/// A capability interface for managing snapshots of a VM.
pub trait SnapshotCmd {
    /// Returns the snapshots of a VM.
    fn list_snapshots(&self) -> VmResult<Vec<Snapshot>>;

    /// Takes a snapshot of a VM.
    fn take_snapshot(&self, name: &str) -> VmResult<()>;

    /// Reverts the current VM state to a snapshot, failing with
    /// `SnapshotNotFound` if no snapshot has that name.
    fn revert_snapshot(&self, name: &str) -> VmResult<()>;

    /// Deletes a snapshot, failing with `SnapshotNotFound` if no snapshot
    /// has that name.
    fn delete_snapshot(&self, name: &str) -> VmResult<()>;
}

/// A capability interface for controlling a guest OS.
pub trait GuestCmd {
    /// Executes a command on the guest.
    fn exec_cmd(&self, guest_args: &[&str]) -> VmResult<()>;

    /// Copies a file from the guest to the host.
    fn copy_from_guest_to_host(
        &self,
        from_guest_path: &str,
        to_host_path: &str,
    ) -> VmResult<()>;

    /// Copies a file from the host to the guest.
    fn copy_from_host_to_guest(
        &self,
        from_host_path: &str,
        to_guest_path: &str,
    ) -> VmResult<()>;
}

/// A capability interface for managing the NICs of a VM.
pub trait NicCmd {
    /// Returns the NICs of a VM.
    fn list_nics(&self) -> VmResult<Vec<Nic>>;

    /// Adds a NIC to a VM.
    fn add_nic(&self, nic: &Nic) -> VmResult<()>;

    /// Updates a NIC.
    fn update_nic(&self, nic: &Nic) -> VmResult<()>;

    /// Removes a NIC from a VM.
    fn remove_nic(&self, nic: &Nic) -> VmResult<()>;
}

/// A capability interface for managing the shared folders of a VM.
pub trait SharedFolderCmd {
    /// Returns the shared folders of a VM.
    fn list_shared_folders(&self) -> VmResult<Vec<SharedFolder>>;

    /// Mounts a shared folder to a VM.
    fn mount_shared_folder(&self, shfs: &SharedFolder) -> VmResult<()>;

    /// Unmounts a shared folder from a VM.
    fn unmount_shared_folder(&self, shfs: &SharedFolder) -> VmResult<()>;

    /// Deletes a shared folder of a VM.
    fn delete_shared_folder(&self, shfs: &SharedFolder) -> VmResult<()>;
}

/// A copy of an optional string, equal to the original.
pub fn clone_opt_string(x: &Option<String>) -> (r: Option<String>)
    ensures
        r == *x,
{
    match x {
        Some(s) => Some(s.clone()),
        None => None,
    }
}

impl Clone for ErrorKind {
    fn clone(&self) -> (r: Self)
        ensures
            r == *self,
    {
        match self {
            ErrorKind::AuthenticationFailed => ErrorKind::AuthenticationFailed,
            ErrorKind::CredentialIsNotSpecified => ErrorKind::CredentialIsNotSpecified,
            ErrorKind::ExecutionFailed(x) => ErrorKind::ExecutionFailed(x.clone()),
            ErrorKind::FileError(x) => ErrorKind::FileError(x.clone()),
            ErrorKind::FromUtf8Error(x) => ErrorKind::FromUtf8Error(x.clone()),
            ErrorKind::GuestAuthenticationFailed => ErrorKind::GuestAuthenticationFailed,
            ErrorKind::GuestFileExists => ErrorKind::GuestFileExists,
            ErrorKind::GuestFileNotFound => ErrorKind::GuestFileNotFound,
            ErrorKind::HostFileExists => ErrorKind::HostFileExists,
            ErrorKind::HostFileNotFound => ErrorKind::HostFileNotFound,
            ErrorKind::InvalidParameter(x) => ErrorKind::InvalidParameter(x.clone()),
            ErrorKind::InvalidPowerState(x) => ErrorKind::InvalidPowerState(*x),
            ErrorKind::NetworkAdaptorNotFound => ErrorKind::NetworkAdaptorNotFound,
            ErrorKind::NetworkNotFound => ErrorKind::NetworkNotFound,
            ErrorKind::PermissionDenied => ErrorKind::PermissionDenied,
            ErrorKind::PrivilegesRequired => ErrorKind::PrivilegesRequired,
            ErrorKind::ServiceIsNotRunning => ErrorKind::ServiceIsNotRunning,
            ErrorKind::SnapshotExists => ErrorKind::SnapshotExists,
            ErrorKind::SnapshotNotFound => ErrorKind::SnapshotNotFound,
            ErrorKind::Timeout => ErrorKind::Timeout,
            ErrorKind::UnexpectedResponse(x) => ErrorKind::UnexpectedResponse(x.clone()),
            ErrorKind::UnsupportedCommand => ErrorKind::UnsupportedCommand,
            ErrorKind::VmIsNotSpecified => ErrorKind::VmIsNotSpecified,
            ErrorKind::VmNotFound => ErrorKind::VmNotFound,
        }
    }
}

impl Clone for Repr {
    fn clone(&self) -> (r: Self)
        ensures
            r == *self,
    {
        match self {
            Repr::Simple(x) => Repr::Simple(x.clone()),
            Repr::Unknown(x) => Repr::Unknown(x.clone()),
            Repr::SerializeError => Repr::SerializeError,
            Repr::IoError => Repr::IoError,
        }
    }
}

impl Clone for VmError {
    fn clone(&self) -> (r: Self)
        ensures
            r == *self,
    {
        VmError { repr: self.repr.clone() }
    }
}

impl Clone for Vm {
    fn clone(&self) -> (r: Self)
        ensures
            r == *self,
    {
        Vm {
            id: clone_opt_string(&self.id),
            name: clone_opt_string(&self.name),
            path: clone_opt_string(&self.path),
        }
    }
}

impl Clone for Snapshot {
    fn clone(&self) -> (r: Self)
        ensures
            r == *self,
    {
        Snapshot {
            id: clone_opt_string(&self.id),
            name: clone_opt_string(&self.name),
            detail: clone_opt_string(&self.detail),
        }
    }
}

impl Clone for NicType {
    fn clone(&self) -> (r: Self)
        ensures
            r == *self,
    {
        match self {
            NicType::Bridge => NicType::Bridge,
            NicType::NAT => NicType::NAT,
            NicType::HostOnly => NicType::HostOnly,
            NicType::Custom(x) => NicType::Custom(x.clone()),
        }
    }
}

impl Clone for Nic {
    fn clone(&self) -> (r: Self)
        ensures
            r == *self,
    {
        Nic {
            id: clone_opt_string(&self.id),
            name: clone_opt_string(&self.name),
            ty: match &self.ty {
                Some(t) => Some(t.clone()),
                None => None,
            },
            mac_address: clone_opt_string(&self.mac_address),
        }
    }
}

impl Clone for SharedFolder {
    fn clone(&self) -> (r: Self)
        ensures
            r == *self,
    {
        SharedFolder {
            id: clone_opt_string(&self.id),
            name: clone_opt_string(&self.name),
            guest_path: clone_opt_string(&self.guest_path),
            host_path: clone_opt_string(&self.host_path),
            is_readonly: self.is_readonly,
        }
    }
}

/// Law: the equality rule's priority. When both VMs carry an id, the ids
/// alone decide equality, whatever the other fields hold; with no ids on
/// both sides but both paths present, the paths decide; with neither,
/// both names present decide; and two VMs sharing no populated field are
/// never equal.
pub proof fn lemma_vm_eq_priority(a: Vm, b: Vm)
    ensures
        a.id is Some && b.id is Some ==> (vm_eq(a, b) <==> a.id->0@ == b.id->0@),
        !(a.id is Some && b.id is Some) && a.path is Some && b.path is Some ==> (vm_eq(a, b)
            <==> a.path->0@ == b.path->0@),
        !(a.id is Some && b.id is Some) && !(a.path is Some && b.path is Some) && a.name is Some
            && b.name is Some ==> (vm_eq(a, b) <==> a.name->0@ == b.name->0@),
        !(a.id is Some && b.id is Some) && !(a.path is Some && b.path is Some) && !(
        a.name is Some && b.name is Some) ==> !vm_eq(a, b),
{
}

} // verus!
