//! The error taxonomy of the library.

use vstd::prelude::*;

verus! {

/// The sub-taxonomy of failures reported by the Windows service control
/// manager, classified from raw Win32 error codes.
#[derive(Clone, Copy, Debug, PartialEq, Eq, Structural)]
pub enum ServiceErrorKind {
    /// The calling process lacks the privilege to open the service control
    /// manager or the service.
    AccessDenied,
    /// The named service does not exist.
    NotFound,
    /// A service with the requested name already exists.
    AlreadyExists,
    /// The service is already running; treated as success when starting.
    AlreadyRunning,
    /// Any other service control failure.
    Other,
}

/// The error type of the library.
#[derive(Clone, Debug, PartialEq, Eq)]
pub enum Error {
    /// The physical-memory resource descriptor could not be read or parsed.
    EnumerationFailed,
    /// A service control operation failed.
    Service(ServiceErrorKind),
    /// The driver's device node could not be opened.
    OpenDevice { device_path: String },
    /// The driver rejected a request to map physical memory at `addr`.
    MapPhysicalMemory { addr: u64 },
    /// The driver rejected a request to unmap the mapping whose virtual
    /// address is `addr`.
    UnmapPhysicalMemory { addr: u64 },
    /// An underlying OS I/O operation failed.
    PlatformIo,
}

impl Error {
    /// A short human-readable description of the error.
    pub fn description(&self) -> (r: &'static str)
        ensures
            r@.len() > 0,
    {
        let r = match self {
            Error::EnumerationFailed => "failed to enumerate physical memory ranges",
            Error::Service(ServiceErrorKind::AccessDenied) => "access to the service control manager was denied",
            Error::Service(ServiceErrorKind::NotFound) => "service not found",
            Error::Service(ServiceErrorKind::AlreadyExists) => "service already exists",
            Error::Service(ServiceErrorKind::AlreadyRunning) => "service already running",
            Error::Service(ServiceErrorKind::Other) => "service control operation failed",
            Error::OpenDevice { .. } => "unable to open device",
            Error::MapPhysicalMemory { .. } => "unable to map physical memory",
            Error::UnmapPhysicalMemory { .. } => "unable to unmap physical memory",
            Error::PlatformIo => "platform i/o operation failed",
        };
        proof {
            reveal_strlit("failed to enumerate physical memory ranges");
            reveal_strlit("access to the service control manager was denied");
            reveal_strlit("service not found");
            reveal_strlit("service already exists");
            reveal_strlit("service already running");
            reveal_strlit("service control operation failed");
            reveal_strlit("unable to open device");
            reveal_strlit("unable to map physical memory");
            reveal_strlit("unable to unmap physical memory");
            reveal_strlit("platform i/o operation failed");
        }
        r
    }
}

} // verus!
