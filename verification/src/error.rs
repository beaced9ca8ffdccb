//! Errors of service units and service bunches, with their texts.

use vstd::prelude::*;
use crate::connect_addr::{ConnectAddr, ConnectAddrView, addr_text};
use crate::text::{decimal, push_numeral, push_str};

verus! {

/// Error type for a service unit (one process of a service).
#[derive(Debug)]
pub enum ServiceUnitError {
    /// The unit exited with non zero code
    ExitError { id: u32, err: String },
    /// The unit could not be started; the text of the system error
    ServiceNotStarted(String),
    HealthCheckFailed(ConnectAddr),
    /// Any error with a channel to the unit
    MpscError,
}

/// The mathematical value of a `ServiceUnitError`.
pub enum ServiceUnitErrorView {
    ExitError { id: u32, err: Seq<char> },
    ServiceNotStarted(Seq<char>),
    HealthCheckFailed(ConnectAddrView),
    MpscError,
}

impl View for ServiceUnitError {
    type V = ServiceUnitErrorView;

    open spec fn view(&self) -> ServiceUnitErrorView {
        match self {
            ServiceUnitError::ExitError { id, err } => ServiceUnitErrorView::ExitError {
                id: *id,
                err: err@,
            },
            ServiceUnitError::ServiceNotStarted(e) => ServiceUnitErrorView::ServiceNotStarted(e@),
            ServiceUnitError::HealthCheckFailed(a) => ServiceUnitErrorView::HealthCheckFailed(a@),
            ServiceUnitError::MpscError => ServiceUnitErrorView::MpscError,
        }
    }
}

/// The text of a service unit error, as its `Display` prints it.
pub open spec fn unit_error_text(e: ServiceUnitErrorView) -> Seq<char> {
    match e {
        ServiceUnitErrorView::ExitError { id, err } => err + " pid: "@ + decimal(id as nat) + " "@,
        ServiceUnitErrorView::ServiceNotStarted(e) => e,
        ServiceUnitErrorView::MpscError => "Mpsc error"@,
        ServiceUnitErrorView::HealthCheckFailed(a) => "Health check failed, addr: "@ + addr_text(a),
    }
}

impl ServiceUnitError {
    /// The text of the error.
    pub fn to_display_string(&self) -> (s: String)
        ensures
            s@ == unit_error_text(self@),
    {
        let mut s = String::new();
        match self {
            ServiceUnitError::ExitError { id, err } => {
                push_str(&mut s, err.as_str());
                push_str(&mut s, " pid: ");
                push_numeral(&mut s, *id as u64, 10);
                push_str(&mut s, " ");
            },
            ServiceUnitError::ServiceNotStarted(e) => {
                push_str(&mut s, e.as_str());
            },
            ServiceUnitError::MpscError => {
                push_str(&mut s, "Mpsc error");
            },
            ServiceUnitError::HealthCheckFailed(a) => {
                push_str(&mut s, "Health check failed, addr: ");
                let t = a.to_display_string();
                push_str(&mut s, t.as_str());
            },
        }
        proof {
            assert(s@ =~= unit_error_text(self@));
        }
        s
    }
}

/// Error type for a service bunch.
#[derive(Debug)]
pub enum ServiceBunchError {
    /// No addresses could be found; the text of the system error
    FailedCreateAddress(String),
    ControllerConnectionDropped,
    /// A unit's task could not be joined; the text of the join error
    JoinError(String),
    FailedToStart,
    UpdateIterrupted,
}

/// The mathematical value of a `ServiceBunchError`.
pub enum ServiceBunchErrorView {
    FailedCreateAddress(Seq<char>),
    ControllerConnectionDropped,
    JoinError(Seq<char>),
    FailedToStart,
    UpdateIterrupted,
}

impl View for ServiceBunchError {
    type V = ServiceBunchErrorView;

    open spec fn view(&self) -> ServiceBunchErrorView {
        match self {
            ServiceBunchError::FailedCreateAddress(e) => ServiceBunchErrorView::FailedCreateAddress(
                e@,
            ),
            ServiceBunchError::ControllerConnectionDropped => {
                ServiceBunchErrorView::ControllerConnectionDropped
            },
            ServiceBunchError::JoinError(e) => ServiceBunchErrorView::JoinError(e@),
            ServiceBunchError::FailedToStart => ServiceBunchErrorView::FailedToStart,
            ServiceBunchError::UpdateIterrupted => ServiceBunchErrorView::UpdateIterrupted,
        }
    }
}

/// The text of a service bunch error, as its `Display` prints it.
pub open spec fn bunch_error_text(e: ServiceBunchErrorView) -> Seq<char> {
    match e {
        ServiceBunchErrorView::FailedCreateAddress(e) => e,
        ServiceBunchErrorView::JoinError(e) => e,
        ServiceBunchErrorView::FailedToStart => "Failed to start"@,
        ServiceBunchErrorView::ControllerConnectionDropped => "Controller connection dropped"@,
        ServiceBunchErrorView::UpdateIterrupted => "Update interrupted"@,
    }
}

impl ServiceBunchError {
    /// The text of the error.
    pub fn to_display_string(&self) -> (s: String)
        ensures
            s@ == bunch_error_text(self@),
    {
        let mut s = String::new();
        match self {
            ServiceBunchError::FailedCreateAddress(e) => push_str(&mut s, e.as_str()),
            ServiceBunchError::JoinError(e) => push_str(&mut s, e.as_str()),
            ServiceBunchError::FailedToStart => push_str(&mut s, "Failed to start"),
            ServiceBunchError::ControllerConnectionDropped => push_str(
                &mut s,
                "Controller connection dropped",
            ),
            ServiceBunchError::UpdateIterrupted => push_str(&mut s, "Update interrupted"),
        }
        proof {
            assert(s@ =~= bunch_error_text(self@));
        }
        s
    }
}

} // verus!
