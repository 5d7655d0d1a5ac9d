use vstd::prelude::*;

verus! {

/// The OS error code for "no such file or directory".
pub const ENOENT: i32 = 2;

/// The OS error code for "no such process".
pub const ESRCH: i32 = 3;

/// The OS error code for "operation not permitted".
pub const EPERM: i32 = 1;

/// The OS error code for "permission denied".
pub const EACCES: i32 = 13;

/// Everything that can go wrong in the connector's core.
#[derive(Debug, Clone, Copy, PartialEq, Eq, Structural)]
pub enum KvmError {
    /// The control device node is absent: the mediator is not loaded.
    DeviceUnavailable,
    /// Access to the control device or to the target was refused.
    PermissionDenied,
    /// A specific VM was asked for and no such VM exists.
    TargetNotFound,
    /// The control request itself failed, with the OS error code.
    ProtocolError(i32),
    /// The mediator answered, but its slots cannot be presented as host mappings.
    MappingFailure,
    /// No single slot covers the requested guest-physical range.
    TranslationMiss,
    /// The connector's target argument is not a process identifier.
    ArgValidation,
}

/// What a failed open of the control device means.
pub open spec fn device_error_spec(code: i32) -> KvmError {
    if code == ENOENT {
        KvmError::DeviceUnavailable
    } else if code == EACCES || code == EPERM {
        KvmError::PermissionDenied
    } else {
        KvmError::ProtocolError(code)
    }
}

/// What a failed open-VM request for the VM selector `pid` means: a missing
/// VM is `TargetNotFound` only where a specific VM (a nonzero `pid`) was asked for.
pub open spec fn open_vm_error_spec(pid: i32, code: i32) -> KvmError {
    if pid != 0 && (code == ESRCH || code == ENOENT) {
        KvmError::TargetNotFound
    } else if code == EACCES || code == EPERM {
        KvmError::PermissionDenied
    } else {
        KvmError::ProtocolError(code)
    }
}

/// Classifies the OS error code of a failed open of the control device.
pub fn device_error(code: i32) -> (r: KvmError)
    ensures
        r == device_error_spec(code),
{
    if code == ENOENT {
        KvmError::DeviceUnavailable
    } else if code == EACCES || code == EPERM {
        KvmError::PermissionDenied
    } else {
        KvmError::ProtocolError(code)
    }
}

/// Classifies the OS error code of a failed open-VM request for the selector `pid`.
pub fn open_vm_error(pid: i32, code: i32) -> (r: KvmError)
    ensures
        r == open_vm_error_spec(pid, code),
{
    if pid != 0 && (code == ESRCH || code == ENOENT) {
        KvmError::TargetNotFound
    } else if code == EACCES || code == EPERM {
        KvmError::PermissionDenied
    } else {
        KvmError::ProtocolError(code)
    }
}

} // verus!
