//! The service controller: service states, the classification of raw
//! service control errors, the control interface with its request history,
//! and the start decision that skips services already running.

use vstd::prelude::*;

use crate::error::Error;
use crate::error::ServiceErrorKind;

verus! {

/// The current state of a kernel-driver service, as reported by the service
/// control manager.
#[derive(Clone, Copy, Debug, PartialEq, Eq, Structural)]
pub enum ServiceState {
    Unknown,
    Stopped,
    StartPending,
    StopPending,
    Running,
    ContinuePending,
    PausePending,
    Paused,
}

/// The raw service-state value reported for a stopped service.
pub const RAW_SERVICE_STOPPED: u32 = 1;

/// The raw service-state value reported while a service is starting.
pub const RAW_SERVICE_START_PENDING: u32 = 2;

/// The raw service-state value reported while a service is stopping.
pub const RAW_SERVICE_STOP_PENDING: u32 = 3;

/// The raw service-state value reported for a running service.
pub const RAW_SERVICE_RUNNING: u32 = 4;

/// The raw service-state value reported while a service resumes.
pub const RAW_SERVICE_CONTINUE_PENDING: u32 = 5;

/// The raw service-state value reported while a service pauses.
pub const RAW_SERVICE_PAUSE_PENDING: u32 = 6;

/// The raw service-state value reported for a paused service.
pub const RAW_SERVICE_PAUSED: u32 = 7;

/// The service state denoted by a raw state value.
pub open spec fn state_of_raw(raw: u32) -> ServiceState {
    if raw == RAW_SERVICE_STOPPED {
        ServiceState::Stopped
    } else if raw == RAW_SERVICE_START_PENDING {
        ServiceState::StartPending
    } else if raw == RAW_SERVICE_STOP_PENDING {
        ServiceState::StopPending
    } else if raw == RAW_SERVICE_RUNNING {
        ServiceState::Running
    } else if raw == RAW_SERVICE_CONTINUE_PENDING {
        ServiceState::ContinuePending
    } else if raw == RAW_SERVICE_PAUSE_PENDING {
        ServiceState::PausePending
    } else if raw == RAW_SERVICE_PAUSED {
        ServiceState::Paused
    } else {
        ServiceState::Unknown
    }
}

impl ServiceState {
    /// Converts a raw service-status state value to a [`ServiceState`];
    /// values outside the documented range yield `Unknown`.
    pub fn from_raw(state: u32) -> (r: ServiceState)
        ensures
            r == state_of_raw(state),
    {
        if state == RAW_SERVICE_STOPPED {
            ServiceState::Stopped
        } else if state == RAW_SERVICE_START_PENDING {
            ServiceState::StartPending
        } else if state == RAW_SERVICE_STOP_PENDING {
            ServiceState::StopPending
        } else if state == RAW_SERVICE_RUNNING {
            ServiceState::Running
        } else if state == RAW_SERVICE_CONTINUE_PENDING {
            ServiceState::ContinuePending
        } else if state == RAW_SERVICE_PAUSE_PENDING {
            ServiceState::PausePending
        } else if state == RAW_SERVICE_PAUSED {
            ServiceState::Paused
        } else {
            ServiceState::Unknown
        }
    }
}

/// The Win32 error code for a denied access check.
pub const RAW_ERROR_ACCESS_DENIED: u32 = 5;

/// The Win32 error code reported when starting a service that already runs.
pub const RAW_ERROR_SERVICE_ALREADY_RUNNING: u32 = 1056;

/// The Win32 error code reported when opening a service that does not exist.
pub const RAW_ERROR_SERVICE_DOES_NOT_EXIST: u32 = 1060;

/// The Win32 error code reported when creating a service that already
/// exists.
pub const RAW_ERROR_SERVICE_EXISTS: u32 = 1073;

/// The service error denoted by a raw Win32 error code.
pub open spec fn service_error_of_raw(code: u32) -> ServiceErrorKind {
    if code == RAW_ERROR_ACCESS_DENIED {
        ServiceErrorKind::AccessDenied
    } else if code == RAW_ERROR_SERVICE_DOES_NOT_EXIST {
        ServiceErrorKind::NotFound
    } else if code == RAW_ERROR_SERVICE_EXISTS {
        ServiceErrorKind::AlreadyExists
    } else if code == RAW_ERROR_SERVICE_ALREADY_RUNNING {
        ServiceErrorKind::AlreadyRunning
    } else {
        ServiceErrorKind::Other
    }
}

/// Classifies a raw Win32 error code from a service control operation into
/// the library's service error taxonomy.
pub fn classify_service_error(code: u32) -> (r: ServiceErrorKind)
    ensures
        r == service_error_of_raw(code),
{
    if code == RAW_ERROR_ACCESS_DENIED {
        ServiceErrorKind::AccessDenied
    } else if code == RAW_ERROR_SERVICE_DOES_NOT_EXIST {
        ServiceErrorKind::NotFound
    } else if code == RAW_ERROR_SERVICE_EXISTS {
        ServiceErrorKind::AlreadyExists
    } else if code == RAW_ERROR_SERVICE_ALREADY_RUNNING {
        ServiceErrorKind::AlreadyRunning
    } else {
        ServiceErrorKind::Other
    }
}

/// One control request issued to a service, as recorded in the service's
/// event history.
#[derive(Clone, Copy, Debug, PartialEq, Eq, Structural)]
pub enum ServiceEvent {
    /// The service's state was queried and reported as `state`.
    Queried { state: ServiceState },
    /// A start request was issued.
    StartIssued,
    /// A stop control request was issued.
    StopIssued,
    /// The service was marked for deletion.
    DeleteIssued,
}

/// A handle to a registered kernel-driver service.
///
/// The three primitives — querying the state, issuing a start request and
/// issuing a stop control — map one to one onto service control manager
/// requests; each carries a ghost history of the requests issued so that
/// callers can state which control traffic a composite operation causes.
pub trait ServiceControl: Sized {
    /// The history of control requests issued to this service, oldest
    /// first.
    spec fn events(&self) -> Seq<ServiceEvent>;

    /// Queries the current state of the service.
    fn query_state(&mut self) -> (r: Result<ServiceState, Error>)
        ensures
            match r {
                Ok(st) => final (self).events() == old(self).events().push(
                    ServiceEvent::Queried { state: st },
                ),
                Err(_) => final (self).events() == old(self).events(),
            },
    ;

    /// Issues a start request for the service, without querying its state
    /// first.
    fn issue_start(&mut self) -> (r: Result<(), Error>)
        ensures
            final (self).events() == old(self).events().push(ServiceEvent::StartIssued),
    ;

    /// Issues the stop control request for the service.
    fn issue_stop(&mut self) -> (r: Result<(), Error>)
        ensures
            final (self).events() == old(self).events().push(ServiceEvent::StopIssued),
    ;

    /// Marks the service for deletion; actual removal happens when the last
    /// handle to it closes.
    fn issue_delete(&mut self) -> (r: Result<(), Error>)
        ensures
            final (self).events() == old(self).events().push(ServiceEvent::DeleteIssued),
    ;
}

/// The control traffic of a successful start: one state query, followed by
/// a start request only when the reported state was not already `Running`.
pub open spec fn start_history_ok(
    old_events: Seq<ServiceEvent>,
    new_events: Seq<ServiceEvent>,
) -> bool {
    exists|st: ServiceState|
        #![auto]
        new_events == old_events + seq![ServiceEvent::Queried { state: st }] + (if st
            == ServiceState::Running {
            Seq::<ServiceEvent>::empty()
        } else {
            seq![ServiceEvent::StartIssued]
        })
}

/// The control traffic of a failed start: either the state query itself
/// failed and no request was issued, or the service was not running and the
/// issued start request failed with something other than an
/// already-running report.
pub open spec fn start_history_failed(
    old_events: Seq<ServiceEvent>,
    new_events: Seq<ServiceEvent>,
    e: Error,
) -> bool {
    ||| new_events == old_events
    ||| (exists|st: ServiceState|
        #![auto]
        st != ServiceState::Running && new_events == old_events + seq![
            ServiceEvent::Queried { state: st },
            ServiceEvent::StartIssued,
        ] && e != (Error::Service(ServiceErrorKind::AlreadyRunning)))
}

/// Starts a service unless it is already running.
///
/// The service's state is queried first; when it reports `Running`, no
/// control request is issued at all and the call succeeds. Otherwise a start
/// request is issued; a failure meaning the service is already running is
/// treated as success.
pub fn start_service<S: ServiceControl>(service: &mut S) -> (r: Result<(), Error>)
    ensures
        match r {
            Ok(()) => start_history_ok(old(service).events(), final (service).events()),
            Err(e) => start_history_failed(old(service).events(), final (service).events(), e),
        },
{
    let ghost pre = service.events();
    let state = match service.query_state() {
        Ok(st) => st,
        Err(e) => {
            return Err(e);
        },
    };
    if state == ServiceState::Running {
        proof {
            assert(service.events() =~= pre + seq![
                ServiceEvent::Queried { state: ServiceState::Running },
            ] + Seq::<ServiceEvent>::empty());
        }
        return Ok(());
    }
    let issue_result = service.issue_start();
    proof {
        assert(service.events() =~= pre + seq![ServiceEvent::Queried { state: state }] + seq![
            ServiceEvent::StartIssued,
        ]);
        assert(service.events() =~= pre + seq![
            ServiceEvent::Queried { state: state },
            ServiceEvent::StartIssued,
        ]);
    }
    match issue_result {
        Ok(()) => Ok(()),
        Err(e) => {
            let already_running = match &e {
                Error::Service(ServiceErrorKind::AlreadyRunning) => true,
                _ => false,
            };
            if already_running {
                Ok(())
            } else {
                Err(e)
            }
        },
    }
}

/// A scripted service for exercising the framework without a service
/// control manager.
///
/// The mock holds a current state; queries report it, a start request moves
/// it to `Running`, a stop control moves it to `Stopped`. Every request is
/// recorded in `log`.
#[derive(Debug)]
pub struct MockService {
    /// The state the service currently reports.
    pub state: ServiceState,
    /// The history of control requests issued, oldest first.
    pub log: Vec<ServiceEvent>,
}

impl MockService {
    /// Creates a mock service reporting `state`.
    pub fn new(state: ServiceState) -> (r: MockService)
        ensures
            r.state == state,
            r.events() == Seq::<ServiceEvent>::empty(),
    {
        MockService { state, log: Vec::new() }
    }
}

impl ServiceControl for MockService {
    open spec fn events(&self) -> Seq<ServiceEvent> {
        self.log@
    }

    fn query_state(&mut self) -> (r: Result<ServiceState, Error>)
        ensures
            r == Ok::<ServiceState, Error>(old(self).state),
            final (self).state == old(self).state,
    {
        let state = self.state;
        self.log.push(ServiceEvent::Queried { state });
        Ok(state)
    }

    fn issue_start(&mut self) -> (r: Result<(), Error>)
        ensures
            r is Ok,
            final (self).state == ServiceState::Running,
    {
        self.state = ServiceState::Running;
        self.log.push(ServiceEvent::StartIssued);
        Ok(())
    }

    fn issue_stop(&mut self) -> (r: Result<(), Error>)
        ensures
            r is Ok,
            final (self).state == ServiceState::Stopped,
    {
        self.state = ServiceState::Stopped;
        self.log.push(ServiceEvent::StopIssued);
        Ok(())
    }

    fn issue_delete(&mut self) -> (r: Result<(), Error>)
        ensures
            r is Ok,
            final (self).state == old(self).state,
    {
        self.log.push(ServiceEvent::DeleteIssued);
        Ok(())
    }
}

} // verus!
