//! The decisions of a service bunch: a set of instances of one service that
//! are restarted on failure, counted against a failure limit, stopped
//! together, and replaced one by one during a rolling update.
//!
//! Processes, channels and timers are the caller's: it reports what
//! happened (a unit failed, a message arrived, a unit was spawned) and the
//! bunch answers with its new state and the work to do next.

use vstd::prelude::*;
use crate::configuration::{ServiceConfig, ServiceConfigView};
use crate::connect_addr::{ConnectAddr, ConnectAddrView, addrs_view};
use crate::error::{ServiceBunchError, ServiceBunchErrorView, ServiceUnitError, ServiceUnitErrorView};
use crate::message::{Message, MessageView};
use crate::state_machine::{Event, State, StateBox, next_state};

verus! {

/// Process identifier of a unit.
pub type ProcessID = u32;

/// What a bunch knows of one running unit: its process and its address.
#[derive(Debug)]
pub struct UnitConnection {
    pid: ProcessID,
    connect_addr: ConnectAddr,
}

/// The mathematical value of a `UnitConnection`.
pub struct UnitConnectionView {
    pub pid: ProcessID,
    pub addr: ConnectAddrView,
}

impl View for UnitConnection {
    type V = UnitConnectionView;

    closed spec fn view(&self) -> UnitConnectionView {
        UnitConnectionView { pid: self.pid, addr: self.connect_addr@ }
    }
}

impl UnitConnection {
    pub fn new(pid: ProcessID, connect_addr: ConnectAddr) -> (c: UnitConnection)
        ensures
            c@ == (UnitConnectionView { pid, addr: connect_addr@ }),
    {
        UnitConnection { pid, connect_addr }
    }

    pub fn get_pid(&self) -> (pid: ProcessID)
        ensures
            pid == self@.pid,
    {
        self.pid
    }

    pub fn addr(&self) -> (a: &ConnectAddr)
        ensures
            a@ == self@.addr,
    {
        &self.connect_addr
    }
}

impl Clone for UnitConnection {
    fn clone(&self) -> (c: Self)
        ensures
            c@ == self@,
    {
        UnitConnection { pid: self.pid, connect_addr: self.connect_addr.clone() }
    }
}

/// The views of a sequence of connections.
pub open spec fn units_view(s: Seq<UnitConnection>) -> Seq<UnitConnectionView> {
    s.map_values(|u: UnitConnection| u@)
}

/// The addresses of the units, in order.
pub open spec fn unit_addrs(s: Seq<UnitConnectionView>) -> Seq<ConnectAddrView> {
    s.map_values(|u: UnitConnectionView| u.addr)
}

/// Some unit has process `pid`.
pub open spec fn has_pid(s: Seq<UnitConnectionView>, pid: ProcessID) -> bool {
    exists|i: int| 0 <= i < s.len() && #[trigger] s[i].pid == pid
}

/// The position of the first unit with process `pid`.
#[verifier::opaque]
pub open spec fn first_with_pid(s: Seq<UnitConnectionView>, pid: ProcessID) -> Option<int> {
    if has_pid(s, pid) {
        Some(
            choose|i: int|
                0 <= i < s.len() && #[trigger] s[i].pid == pid && forall|j: int|
                    0 <= j < i ==> s[j].pid != pid,
        )
    } else {
        None
    }
}

/// Some unit listens on `addr`.
pub open spec fn has_addr(s: Seq<UnitConnectionView>, addr: ConnectAddrView) -> bool {
    exists|i: int| 0 <= i < s.len() && #[trigger] s[i].addr == addr
}

/// The position of the first unit listening on `addr`.
#[verifier::opaque]
pub open spec fn first_with_addr(s: Seq<UnitConnectionView>, addr: ConnectAddrView) -> Option<
    int,
> {
    if has_addr(s, addr) {
        Some(
            choose|i: int|
                0 <= i < s.len() && #[trigger] s[i].addr == addr && forall|j: int|
                    0 <= j < i ==> s[j].addr != addr,
        )
    } else {
        None
    }
}

/// `s` without its first unit with process `pid`, if any.
pub open spec fn remove_first_pid(s: Seq<UnitConnectionView>, pid: ProcessID) -> Seq<
    UnitConnectionView,
> {
    match first_with_pid(s, pid) {
        Some(i) => s.remove(i),
        None => s,
    }
}

proof fn lemma_first_with_pid(s: Seq<UnitConnectionView>, pid: ProcessID, i: int)
    requires
        0 <= i < s.len(),
        s[i].pid == pid,
        forall|j: int| 0 <= j < i ==> s[j].pid != pid,
    ensures
        first_with_pid(s, pid) == Some(i),
{
    reveal(first_with_pid);
    let k = choose|k: int|
        0 <= k < s.len() && #[trigger] s[k].pid == pid && forall|j: int|
            0 <= j < k ==> s[j].pid != pid;
    if k < i {
    } else if i < k {
    }
}

proof fn lemma_first_with_addr(s: Seq<UnitConnectionView>, addr: ConnectAddrView, i: int)
    requires
        0 <= i < s.len(),
        s[i].addr == addr,
        forall|j: int| 0 <= j < i ==> s[j].addr != addr,
    ensures
        first_with_addr(s, addr) == Some(i),
{
    reveal(first_with_addr);
    let k = choose|k: int|
        0 <= k < s.len() && #[trigger] s[k].addr == addr && forall|j: int|
            0 <= j < k ==> s[j].addr != addr;
    if k < i {
    } else if i < k {
    }
}

proof fn lemma_first_with_pid_none(s: Seq<UnitConnectionView>, pid: ProcessID)
    requires
        !has_pid(s, pid),
    ensures
        first_with_pid(s, pid) is None,
{
    reveal(first_with_pid);
}

proof fn lemma_first_with_addr_none(s: Seq<UnitConnectionView>, addr: ConnectAddrView)
    requires
        !has_addr(s, addr),
    ensures
        first_with_addr(s, addr) is None,
{
    reveal(first_with_addr);
}

/// The position of the first unit with process `pid`.
pub fn position_of_pid(v: &Vec<UnitConnection>, pid: ProcessID) -> (r: Option<usize>)
    ensures
        match r {
            Some(i) => i < v@.len() && v@[i as int]@.pid == pid && first_with_pid(units_view(v@), pid)
                == Some(i as int) && has_pid(units_view(v@), pid),
            None => first_with_pid(units_view(v@), pid).is_none() && !has_pid(units_view(v@), pid),
        },
{
    let ghost s = units_view(v@);
    let mut i: usize = 0;
    while i < v.len()
        invariant
            i <= v@.len(),
            s == units_view(v@),
            forall|j: int| 0 <= j < i ==> s[j].pid != pid,
        decreases v@.len() - i,
    {
        if v[i].get_pid() == pid {
            proof {
                lemma_first_with_pid(s, pid, i as int);
                assert(s[i as int].pid == pid);
            }
            return Some(i);
        }
        i += 1;
    }
    proof {
        if has_pid(s, pid) {
            let k = choose|k: int| 0 <= k < s.len() && #[trigger] s[k].pid == pid;
            assert(s[k].pid != pid);
        }
        lemma_first_with_pid_none(s, pid);
    }
    None
}

/// The position of the first unit listening on `addr`.
pub fn position_of_addr(v: &Vec<UnitConnection>, addr: &ConnectAddr) -> (r: Option<usize>)
    ensures
        match r {
            Some(i) => i < v@.len() && v@[i as int]@.addr == addr@ && first_with_addr(
                units_view(v@),
                addr@,
            ) == Some(i as int) && has_addr(units_view(v@), addr@),
            None => first_with_addr(units_view(v@), addr@).is_none() && !has_addr(units_view(v@), addr@),
        },
{
    let ghost s = units_view(v@);
    let mut i: usize = 0;
    while i < v.len()
        invariant
            i <= v@.len(),
            s == units_view(v@),
            forall|j: int| 0 <= j < i ==> s[j].addr != addr@,
        decreases v@.len() - i,
    {
        if v[i].addr().same_as(addr) {
            proof {
                lemma_first_with_addr(s, addr@, i as int);
                assert(s[i as int].addr == addr@);
            }
            return Some(i);
        }
        i += 1;
    }
    proof {
        if has_addr(s, addr@) {
            let k = choose|k: int| 0 <= k < s.len() && #[trigger] s[k].addr == addr@;
            assert(s[k].addr != addr@);
        }
        lemma_first_with_addr_none(s, addr@);
    }
    None
}

/// Removes and returns the first connection with process `pid`.
pub fn take_from_vec_with_pid(vector: &mut Vec<UnitConnection>, pid: ProcessID) -> (r: Option<
    UnitConnection,
>)
    ensures
        units_view(final(vector)@) == remove_first_pid(units_view(old(vector)@), pid),
        match r {
            Some(c) => first_with_pid(units_view(old(vector)@), pid) is Some && c@ == units_view(
                old(vector)@,
            )[first_with_pid(units_view(old(vector)@), pid)->0],
            None => first_with_pid(units_view(old(vector)@), pid).is_none(),
        },
{
    match position_of_pid(vector, pid) {
        Some(pos) => {
            let ghost before = vector@;
            let c = vector.remove(pos);
            proof {
                assert(units_view(vector@) =~= units_view(before).remove(pos as int));
            }
            Some(c)
        },
        None => None,
    }
}

/// The addresses of the connections.
pub fn addrs_of(v: &Vec<UnitConnection>) -> (r: Vec<ConnectAddr>)
    ensures
        addrs_view(r@) == unit_addrs(units_view(v@)),
{
    let mut r: Vec<ConnectAddr> = Vec::new();
    let mut i: usize = 0;
    while i < v.len()
        invariant
            i <= v@.len(),
            r@.len() == i,
            forall|j: int| 0 <= j < i ==> #[trigger] r@[j]@ == v@[j]@.addr,
        decreases v@.len() - i,
    {
        r.push(v[i].addr().clone());
        i += 1;
    }
    proof {
        assert(addrs_view(r@) =~= unit_addrs(units_view(v@)));
    }
    r
}

} // verus!

verus! {

/// Failures are counted within windows of this length (one minute), in
/// nanoseconds.
pub const FAILURE_WINDOW_NANOS: u64 = 60_000_000_000;

/// Time passed from `since` to `now` on a monotonic clock in nanoseconds;
/// zero if `now` is earlier, as `Instant::elapsed` saturates.
pub open spec fn elapsed(now: u64, since: u64) -> int {
    if now >= since {
        now - since
    } else {
        0
    }
}

/// The mathematical value of a `ServiceBunch`.
pub struct ServiceBunchView {
    pub config: ServiceConfigView,
    pub stable: Seq<UnitConnectionView>,
    pub fresh: Seq<UnitConnectionView>,
    pub state: State,
    pub failure_count: u16,
    pub last_check_time: u64,
    /// During a step of a rolling update, the address of its new unit.
    pub pending: Option<ConnectAddrView>,
}

/// Type for managing some instances of the same service.
///
/// A bunch can run one or more instances of a service, restart these
/// instances on failure, count failures and when certain threshold of
/// failures count is exceeded, it terminates itself. It also performs
/// rolling updates: new instances replace the stable ones one by one.
pub struct ServiceBunch {
    /// Service's configuration
    config: ServiceConfig,
    /// The instances of the stable version.
    stable_connections: Vec<UnitConnection>,
    /// The instances started during a rolling update.
    new_connections: Vec<UnitConnection>,
    /// Internal simple finite state machine.
    state: StateBox,
    failure_count: u16,
    /// When the current failure window started (monotonic clock, ns).
    last_check_time: u64,
    /// During a step of a rolling update, the address of its new unit.
    update_address: Option<ConnectAddr>,
}

/// The view of an optional address.
pub open spec fn opt_addr_view(a: Option<ConnectAddr>) -> Option<ConnectAddrView> {
    match a {
        Some(x) => Some(x@),
        None => None,
    }
}

impl View for ServiceBunch {
    type V = ServiceBunchView;

    closed spec fn view(&self) -> ServiceBunchView {
        ServiceBunchView {
            config: self.config@,
            stable: units_view(self.stable_connections@),
            fresh: units_view(self.new_connections@),
            state: self.state@,
            failure_count: self.failure_count,
            last_check_time: self.last_check_time,
            pending: opt_addr_view(self.update_address),
        }
    }
}

/// A bunch that stopped: its units, to be terminated, and the message that
/// tells the controller their addresses are gone.
pub struct Termination {
    pub units: Vec<UnitConnection>,
    pub message: Message,
}

pub struct TerminationView {
    pub units: Seq<UnitConnectionView>,
    pub message: MessageView,
}

impl View for Termination {
    type V = TerminationView;

    open spec fn view(&self) -> TerminationView {
        TerminationView { units: units_view(self.units@), message: self.message@ }
    }
}

/// The bunch after a stop: stop requested, no stable units left.
pub open spec fn terminated(b: ServiceBunchView) -> ServiceBunchView {
    ServiceBunchView { state: next_state(b.state, Event::StopRequest), stable: Seq::empty(), ..b }
}

/// What a stop hands out: all stable units and the message naming their
/// addresses.
pub open spec fn termination_of(b: ServiceBunchView) -> TerminationView {
    TerminationView {
        units: b.stable,
        message: MessageView::UnitsDespawned(b.config.name, unit_addrs(b.stable)),
    }
}

/// The bunch after `event`.
pub open spec fn with_event(b: ServiceBunchView, event: Event) -> ServiceBunchView {
    ServiceBunchView { state: next_state(b.state, event), ..b }
}

/// A failure of unit `pid` is counted: it is a stable unit and not one of
/// the new version.
pub open spec fn counts_failure(b: ServiceBunchView, pid: ProcessID) -> bool {
    has_pid(b.stable, pid) && !has_pid(b.fresh, pid)
}

/// Registers a failure of unit `pid` at time `now`; the second component
/// tells whether the failure limit is exceeded. A unit of the new version
/// has a limit of one failure; a unit that is neither new nor stable is not
/// counted; for stable units the failures are counted within a window of
/// one minute, and a failure that comes after the window has passed opens
/// a new window and is not counted.
pub open spec fn failure_registration(b: ServiceBunchView, pid: ProcessID, now: u64) -> (
    ServiceBunchView,
    bool,
) {
    if has_pid(b.fresh, pid) {
        (b, true)
    } else if !has_pid(b.stable, pid) {
        (b, false)
    } else if elapsed(now, b.last_check_time) > FAILURE_WINDOW_NANOS {
        (ServiceBunchView { failure_count: 0, last_check_time: now, ..b }, false)
    } else {
        (
            ServiceBunchView { failure_count: (b.failure_count + 1) as u16, ..b },
            b.failure_count + 1 > b.config.fails_limit,
        )
    }
}

impl ServiceBunch {
    /// A bunch for `config`, starting, with no units and its failure window
    /// opened at `now`.
    pub fn new(config: ServiceConfig, now: u64) -> (b: ServiceBunch)
        ensures
            b@ == (ServiceBunchView {
                config: config@,
                stable: Seq::empty(),
                fresh: Seq::empty(),
                state: State::Starting,
                failure_count: 0,
                last_check_time: now,
                pending: None,
            }),
    {
        let b = ServiceBunch {
            config,
            stable_connections: Vec::new(),
            new_connections: Vec::new(),
            state: StateBox::new(),
            failure_count: 0,
            last_check_time: now,
            update_address: None,
        };
        proof {
            assert(units_view(b.stable_connections@) =~= Seq::<UnitConnectionView>::empty());
            assert(units_view(b.new_connections@) =~= Seq::<UnitConnectionView>::empty());
        }
        b
    }

    pub fn get_config(&self) -> (c: &ServiceConfig)
        ensures
            c@ == self@.config,
    {
        &self.config
    }

    /// The current state of the bunch.
    pub fn current_state(&self) -> (s: State)
        ensures
            s == self@.state,
    {
        *self.state.current()
    }

    /// The stable units.
    pub fn stable_units(&self) -> (u: &Vec<UnitConnection>)
        ensures
            units_view(u@) == self@.stable,
    {
        &self.stable_connections
    }

    /// The units of the new version.
    pub fn new_units(&self) -> (u: &Vec<UnitConnection>)
        ensures
            units_view(u@) == self@.fresh,
    {
        &self.new_connections
    }

    /// Returns `false`, if found process with given `pid` among the new
    /// units. Otherwise, `true`.
    pub fn is_stable_pid(&self, pid: ProcessID) -> (b: bool)
        ensures
            b == !has_pid(self@.fresh, pid),
    {
        match position_of_pid(&self.new_connections, pid) {
            Some(_) => false,
            None => true,
        }
    }

    fn failure_add(&mut self) -> (n: u16)
        requires
            old(self)@.failure_count < u16::MAX,
        ensures
            n == old(self)@.failure_count + 1,
            final(self)@ == (ServiceBunchView { failure_count: n, ..old(self)@ }),
    {
        self.failure_count += 1;
        self.failure_count
    }

    fn failures_reset(&mut self, now: u64)
        ensures
            final(self)@ == (ServiceBunchView { failure_count: 0, last_check_time: now, ..old(self)@ }),
    {
        self.last_check_time = now;
        self.failure_count = 0;
    }

    /// If failure happens with a stable service version, we take the limit
    /// value from the service config, but if failure happens with the `new
    /// version` service (during rolling update), limit is set to `1`.
    pub fn reg_new_failure_and_is_limit_exceeded(&mut self, pid: ProcessID, now: u64) -> (exceeded:
        bool)
        requires
            counts_failure(old(self)@, pid) ==> old(self)@.failure_count < u16::MAX,
        ensures
            (final(self)@, exceeded) == failure_registration(old(self)@, pid, now),
    {
        // Limit to 1 for the new version
        if !self.is_stable_pid(pid) {
            return true;
        }
        // Check connection is it stable or not
        if position_of_pid(&self.stable_connections, pid).is_none() {
            return false;
        }
        // Calculate the failures within the last minute
        let failures_count = self.failure_add();
        let elapsed_nanos = if now >= self.last_check_time {
            now - self.last_check_time
        } else {
            0
        };
        if elapsed_nanos > FAILURE_WINDOW_NANOS {
            self.failures_reset(now);
            return false;
        }
        let limit = self.config.fails_limit;
        failures_count > limit
    }
}

} // verus!

verus! {

/// What remains to do after a unit error was handled.
pub enum UnitErrorAction {
    /// Nothing more.
    Nothing,
    /// The failure limit was exceeded and the bunch stopped.
    TerminateAll(Termination),
    /// Start a stable unit on an available address, then
    /// `complete_replacement` with the exited unit's process.
    Restart { lost_pid: ProcessID },
    /// Start a stable unit on an available address, then
    /// `complete_replacement` with the unhealthy unit's process, and
    /// terminate the unhealthy unit.
    ReplaceUnhealthy { unhealthy: UnitConnection },
}

pub enum UnitErrorActionView {
    Nothing,
    TerminateAll(TerminationView),
    Restart { lost_pid: ProcessID },
    ReplaceUnhealthy { unhealthy: UnitConnectionView },
}

impl View for UnitErrorAction {
    type V = UnitErrorActionView;

    open spec fn view(&self) -> UnitErrorActionView {
        match self {
            UnitErrorAction::Nothing => UnitErrorActionView::Nothing,
            UnitErrorAction::TerminateAll(t) => UnitErrorActionView::TerminateAll(t@),
            UnitErrorAction::Restart { lost_pid } => UnitErrorActionView::Restart {
                lost_pid: *lost_pid,
            },
            UnitErrorAction::ReplaceUnhealthy { unhealthy } => UnitErrorActionView::ReplaceUnhealthy {
                unhealthy: unhealthy@,
            },
        }
    }
}

/// The process whose failure an error registers, if any.
pub open spec fn failing_pid(b: ServiceBunchView, e: ServiceUnitErrorView) -> Option<ProcessID> {
    match e {
        ServiceUnitErrorView::ExitError { id, .. } => Some(id),
        ServiceUnitErrorView::HealthCheckFailed(addr) => {
            if has_addr(b.fresh, addr) {
                None
            } else {
                match first_with_addr(b.stable, addr) {
                    Some(i) => Some(b.stable[i].pid),
                    None => None,
                }
            }
        },
        _ => None,
    }
}

/// The failure an error registers, if any, can still be counted: the
/// failure count is below its maximum or the failure is not counted.
pub open spec fn error_countable(b: ServiceBunchView, e: ServiceUnitErrorView) -> bool {
    match failing_pid(b, e) {
        Some(pid) => counts_failure(b, pid) ==> b.failure_count < u16::MAX,
        None => true,
    }
}

/// How a bunch handles a unit error:
/// 1. If failure limit is not exceeded, the unit is replaced by a new stable
///    one.
/// 2. If a unit of the new version fails during a rolling update (it exits,
///    or its health check fails), the update stops.
/// 3. If failure limit is exceeded, all units are stopped.
pub open spec fn unit_error_effect(b: ServiceBunchView, e: ServiceUnitErrorView, now: u64) -> (
    ServiceBunchView,
    UnitErrorActionView,
) {
    match e {
        ServiceUnitErrorView::ExitError { id, .. } => {
            let (b1, exceeded) = failure_registration(b, id, now);
            if exceeded {
                if !has_pid(b1.fresh, id) {
                    (terminated(b1), UnitErrorActionView::TerminateAll(termination_of(b1)))
                } else {
                    (with_event(b1, Event::UpdatingFailed), UnitErrorActionView::Nothing)
                }
            } else {
                (b1, UnitErrorActionView::Restart { lost_pid: id })
            }
        },
        ServiceUnitErrorView::HealthCheckFailed(addr) => {
            if has_addr(b.fresh, addr) {
                (with_event(b, Event::UpdatingFailed), UnitErrorActionView::Nothing)
            } else {
                match first_with_addr(b.stable, addr) {
                    Some(i) => {
                        let conn = b.stable[i];
                        let (b1, exceeded) = failure_registration(b, conn.pid, now);
                        if exceeded {
                            (terminated(b1), UnitErrorActionView::TerminateAll(termination_of(b1)))
                        } else {
                            (b1, UnitErrorActionView::ReplaceUnhealthy { unhealthy: conn })
                        }
                    },
                    None => (b, UnitErrorActionView::Nothing),
                }
            }
        },
        _ => (b, UnitErrorActionView::Nothing),
    }
}

/// The bunch after a replacement unit `new` took the place of unit
/// `lost_pid`: `new` is added last to the stable units and the first unit
/// with process `lost_pid` is removed.
pub open spec fn replaced(b: ServiceBunchView, new: UnitConnectionView, lost_pid: ProcessID) -> ServiceBunchView {
    ServiceBunchView { stable: remove_first_pid(b.stable.push(new), lost_pid), ..b }
}

impl ServiceBunch {
    /// Stop all underlying units: the stable units are handed out to be
    /// terminated, with the message for the controller.
    pub fn terminate(&mut self) -> (t: Termination)
        ensures
            final(self)@ == terminated(old(self)@),
            t@ == termination_of(old(self)@),
    {
        self.state.update(Event::StopRequest);
        // Clear `self.stable_connections`
        let mut connections: Vec<UnitConnection> = Vec::new();
        std::mem::swap(&mut connections, &mut self.stable_connections);
        // Addresses for sending to controller
        let addrs = addrs_of(&connections);
        let name = self.config.name.clone();
        proof {
            assert(units_view(self.stable_connections@) =~= Seq::<UnitConnectionView>::empty());
        }
        Termination { units: connections, message: Message::UnitsDespawned(name, addrs) }
    }

    /// In the bunch's wait loop a unit error can happen; it is handled
    /// here.
    pub fn handle_service_unit_error(&mut self, serv_err: ServiceUnitError, now: u64) -> (a:
        UnitErrorAction)
        requires
            error_countable(old(self)@, serv_err@),
        ensures
            (final(self)@, a@) == unit_error_effect(old(self)@, serv_err@, now),
    {
        match serv_err {
            ServiceUnitError::ExitError { id, err: _ } => {
                if self.reg_new_failure_and_is_limit_exceeded(id, now) {
                    if self.is_stable_pid(id) {
                        UnitErrorAction::TerminateAll(self.terminate())
                    } else {
                        self.state.update(Event::UpdatingFailed);
                        UnitErrorAction::Nothing
                    }
                } else {
                    // Restart service
                    UnitErrorAction::Restart { lost_pid: id }
                }
            },
            ServiceUnitError::HealthCheckFailed(addr) => {
                // If updating state, stop updating
                match position_of_addr(&self.new_connections, &addr) {
                    Some(_) => {
                        proof {
                            assert(has_addr(self@.fresh, addr@));
                        }
                        self.state.update(Event::UpdatingFailed);
                        return UnitErrorAction::Nothing;
                    },
                    None => {
                        proof {
                            if has_addr(self@.fresh, addr@) {
                                let k = choose|k: int| 0 <= k < self@.fresh.len() && #[trigger] self@.fresh[k].addr == addr@;
                                assert(self@.fresh[k].addr == addr@);
                            }
                        }
                    },
                }
                match position_of_addr(&self.stable_connections, &addr) {
                    Some(i) => {
                        let conn = self.stable_connections[i].clone();
                        // Count failures
                        if self.reg_new_failure_and_is_limit_exceeded(conn.get_pid(), now) {
                            // Terminate entire bunch
                            UnitErrorAction::TerminateAll(self.terminate())
                        } else {
                            // Terminate one instance, and start new one
                            UnitErrorAction::ReplaceUnhealthy { unhealthy: conn }
                        }
                    },
                    None => UnitErrorAction::Nothing,
                }
            },
            _ => UnitErrorAction::Nothing,
        }
    }

    /// Records that a stable unit `new_pid` was started on `address` to
    /// replace unit `lost_pid`; the replaced unit is dropped from the stable
    /// units and, when it was there, the controller is told which address
    /// replaced which.
    pub fn complete_replacement(&mut self, new_pid: ProcessID, address: ConnectAddr, lost_pid: ProcessID) -> (m: Option<Message>)
        ensures
            final(self)@ == replaced(
                old(self)@,
                UnitConnectionView { pid: new_pid, addr: address@ },
                lost_pid,
            ),
            match first_with_pid(
                old(self)@.stable.push(UnitConnectionView { pid: new_pid, addr: address@ }),
                lost_pid,
            ) {
                Some(i) => m.is_some() && m.unwrap()@ == (MessageView::UnitReplaced {
                    name: old(self)@.config.name,
                    old: old(self)@.stable.push(
                        UnitConnectionView { pid: new_pid, addr: address@ },
                    )[i].addr,
                    new: address@,
                }),
                None => m.is_none(),
            },
    {
        let ghost pushed = old(self)@.stable.push(UnitConnectionView { pid: new_pid, addr: address@ });
        self.stable_connections.push(UnitConnection::new(new_pid, address.clone()));
        proof {
            assert(units_view(self.stable_connections@) =~= pushed);
        }
        // Send message to controller
        match take_from_vec_with_pid(&mut self.stable_connections, lost_pid) {
            Some(lost_connection) => {
                let name = self.config.name.clone();
                Some(
                    Message::UnitReplaced {
                        name,
                        old: lost_connection.addr().clone(),
                        new: address,
                    },
                )
            },
            None => None,
        }
    }
}

} // verus!

verus! {

/// The outcome of a unit that could not be started: the bunch stopped.
pub struct SpawnFailure {
    /// The units handed out to be terminated, and the message for the
    /// controller.
    pub termination: Termination,
    pub error: ServiceBunchError,
}

/// The bunch after a unit of the new version was started.
pub open spec fn with_new_unit(b: ServiceBunchView, u: UnitConnectionView) -> ServiceBunchView {
    ServiceBunchView { fresh: b.fresh.push(u), ..b }
}

/// The bunch after its last stable unit was retired.
pub open spec fn without_last_stable(b: ServiceBunchView) -> ServiceBunchView {
    ServiceBunchView { stable: b.stable.drop_last(), ..b }
}

/// The bunch after the addresses of its units were established.
pub open spec fn after_run(b: ServiceBunchView) -> ServiceBunchView {
    with_event(b, Event::ServicesEstablished)
}

/// The bunch at the end of a rolling update: the new units become the
/// stable ones, the former stable ones (normally none are left) are kept as
/// new ones, and the bunch is running again after an update.
pub open spec fn after_update(b: ServiceBunchView) -> ServiceBunchView {
    ServiceBunchView {
        stable: b.fresh,
        fresh: b.stable,
        state: next_state(
            next_state(b.state, Event::ServicesEstablished),
            Event::UpdatingFinished,
        ),
        ..b
    }
}

impl ServiceBunch {
    /// A unit could not be started: the bunch stops itself (see
    /// `terminate`; a starting bunch stays in `State::Starting`, which a
    /// stop request does not leave) and the error is `FailedToStart`.
    pub fn spawn_failed(&mut self) -> (f: SpawnFailure)
        requires
            old(self)@.state == State::Starting || old(self)@.state == State::Updating,
        ensures
            final(self)@ == terminated(old(self)@),
            f.error@ == ServiceBunchErrorView::FailedToStart,
            f.termination@ == termination_of(old(self)@),
    {
        let t = self.terminate();
        SpawnFailure { termination: t, error: ServiceBunchError::FailedToStart }
    }

    /// Records a stable unit started on `address`.
    pub fn add_stable_unit(&mut self, pid: ProcessID, address: ConnectAddr)
        ensures
            final(self)@ == (ServiceBunchView {
                stable: old(self)@.stable.push(UnitConnectionView { pid, addr: address@ }),
                ..old(self)@
            }),
    {
        self.stable_connections.push(UnitConnection::new(pid, address));
        proof {
            assert(units_view(self.stable_connections@) =~= old(self)@.stable.push(
                UnitConnectionView { pid, addr: address@ },
            ));
        }
    }

    /// All units are started: the bunch is established, and the controller
    /// is told the addresses of its units, which are also returned.
    pub fn finish_run(&mut self) -> (r: (Message, Vec<ConnectAddr>))
        ensures
            final(self)@ == after_run(old(self)@),
            r.0@ == MessageView::UnitsSpawned(
                old(self)@.config.name,
                unit_addrs(old(self)@.stable),
            ),
            addrs_view(r.1@) == unit_addrs(old(self)@.stable),
    {
        // Send message to controller
        let name = self.config.name.clone();
        let addrs = addrs_of(&self.stable_connections);
        self.state.update(Event::ServicesEstablished);
        let result = addrs_of(&self.stable_connections);
        (Message::UnitsSpawned(name, addrs), result)
    }

    /// A rolling update is requested.
    pub fn begin_update(&mut self)
        ensures
            final(self)@ == with_event(old(self)@, Event::UpdateRequest),
    {
        self.state.update(Event::UpdateRequest);
    }

    /// The rolling update goes on while stable units remain and the bunch is
    /// updating.
    pub fn update_in_progress(&self) -> (b: bool)
        ensures
            b == (self@.stable.len() > 0 && self@.state == State::Updating),
    {
        self.stable_connections.len() > 0 && self.state.is(State::Updating)
    }

    /// Records a unit of the new version started on `address`; returns the
    /// message for the controller.
    pub fn add_new_unit(&mut self, pid: ProcessID, address: ConnectAddr) -> (m: Message)
        ensures
            final(self)@ == with_new_unit(old(self)@, UnitConnectionView { pid, addr: address@ }),
            m@ == MessageView::UnitSpawned(old(self)@.config.name, address@),
    {
        self.new_connections.push(UnitConnection::new(pid, address.clone()));
        proof {
            assert(units_view(self.new_connections@) =~= old(self)@.fresh.push(
                UnitConnectionView { pid, addr: address@ },
            ));
        }
        Message::UnitSpawned(self.config.name.clone(), address)
    }

    /// Pops the last stable unit, to be terminated; returns it with the
    /// message that tells the controller its address is gone.
    pub fn retire_one_stable(&mut self) -> (r: (UnitConnection, Message))
        requires
            old(self)@.stable.len() > 0,
        ensures
            final(self)@ == without_last_stable(old(self)@),
            r.0@ == old(self)@.stable.last(),
            r.1@ == MessageView::UnitDespawned(old(self)@.config.name, old(self)@.stable.last().addr),
    {
        let connection = self.stable_connections.pop().unwrap();
        proof {
            assert(units_view(self.stable_connections@) =~= old(self)@.stable.drop_last());
        }
        let address = connection.addr().clone();
        (connection, Message::UnitDespawned(self.config.name.clone(), address))
    }

    /// When the bunch left the updating state, the update is interrupted:
    /// all new units are handed out to be terminated.
    pub fn interrupt_if_not_updating(&mut self) -> (r: Option<Vec<UnitConnection>>)
        ensures
            old(self)@.state == State::Updating ==> r.is_none() && final(self)@ == old(self)@,
            old(self)@.state != State::Updating ==> r.is_some() && units_view(r.unwrap()@)
                == old(self)@.fresh && final(self)@ == (ServiceBunchView {
                fresh: Seq::empty(),
                ..old(self)@
            }),
    {
        if !self.state.is(State::Updating) {
            let mut taken: Vec<UnitConnection> = Vec::new();
            std::mem::swap(&mut taken, &mut self.new_connections);
            proof {
                assert(units_view(self.new_connections@) =~= Seq::<UnitConnectionView>::empty());
            }
            Some(taken)
        } else {
            None
        }
    }

    /// The rolling update is over: the new units become the stable ones and
    /// the controller is told the update finished.
    pub fn finish_update(&mut self) -> (m: Message)
        ensures
            final(self)@ == after_update(old(self)@),
            m@ == MessageView::UpdateFinished(old(self)@.config.name),
    {
        // At this point stable_connections should be empty
        std::mem::swap(&mut self.stable_connections, &mut self.new_connections);
        self.state.update(Event::ServicesEstablished);
        let m = Message::UpdateFinished(self.config.name.clone());
        self.state.update(Event::UpdatingFinished);
        m
    }
}

} // verus!

verus! {

/// What a bunch waits for: its units, and its controller.
pub enum BunchEvent {
    /// A unit finished with an error.
    UnitFailed(ServiceUnitError),
    /// A unit exited with code 0.
    UnitExited,
    /// A unit's task could not be joined; the text of the join error.
    JoinFailed(String),
    /// No unit is left to wait on.
    AllUnitsFinished,
    /// A message from the controller.
    ControllerMessage(Message),
    /// The controller's channel is closed.
    ControllerClosed,
}

pub enum BunchEventView {
    UnitFailed(ServiceUnitErrorView),
    UnitExited,
    JoinFailed(Seq<char>),
    AllUnitsFinished,
    ControllerMessage(MessageView),
    ControllerClosed,
}

impl View for BunchEvent {
    type V = BunchEventView;

    open spec fn view(&self) -> BunchEventView {
        match self {
            BunchEvent::UnitFailed(e) => BunchEventView::UnitFailed(e@),
            BunchEvent::UnitExited => BunchEventView::UnitExited,
            BunchEvent::JoinFailed(e) => BunchEventView::JoinFailed(e@),
            BunchEvent::AllUnitsFinished => BunchEventView::AllUnitsFinished,
            BunchEvent::ControllerMessage(m) => BunchEventView::ControllerMessage(m@),
            BunchEvent::ControllerClosed => BunchEventView::ControllerClosed,
        }
    }
}

/// What the bunch does after an event.
pub enum BunchStep {
    /// Keep waiting, after doing what the unit error handling asks.
    Continue(UnitErrorAction),
    /// Run a rolling update, then keep waiting.
    StartUpdate,
    /// Stop waiting: terminate the given units (if any) and return `result`.
    Exit { termination: Option<Termination>, result: Result<(), ServiceBunchError> },
}

pub enum BunchStepView {
    Continue(UnitErrorActionView),
    StartUpdate,
    Exit { termination: Option<TerminationView>, result: Result<(), ServiceBunchErrorView> },
}

impl View for BunchStep {
    type V = BunchStepView;

    open spec fn view(&self) -> BunchStepView {
        match self {
            BunchStep::Continue(a) => BunchStepView::Continue(a@),
            BunchStep::StartUpdate => BunchStepView::StartUpdate,
            BunchStep::Exit { termination, result } => BunchStepView::Exit {
                termination: match termination {
                    Some(t) => Some(t@),
                    None => None,
                },
                result: match result {
                    Ok(()) => Ok(()),
                    Err(e) => Err(e@),
                },
            },
        }
    }
}

/// The controller sends a bunch only update requests, health check failures
/// and shutdowns.
pub open spec fn is_controller_request(m: MessageView) -> bool {
    match m {
        MessageView::StartUpdate | MessageView::Shutdown | MessageView::HealthCheckFailed(_) => true,
        _ => false,
    }
}

/// The unit error an event carries, if any.
pub open spec fn event_unit_error(ev: BunchEventView) -> Option<ServiceUnitErrorView> {
    match ev {
        BunchEventView::UnitFailed(e) => Some(e),
        BunchEventView::ControllerMessage(MessageView::HealthCheckFailed(a)) => Some(
            ServiceUnitErrorView::HealthCheckFailed(a),
        ),
        _ => None,
    }
}

/// The failure an event registers, if any, can still be counted.
pub open spec fn failure_countable(b: ServiceBunchView, ev: BunchEventView) -> bool {
    match event_unit_error(ev) {
        Some(e) => error_countable(b, e),
        None => true,
    }
}

/// The bunch's reaction to one event of its wait loop:
/// - a failed unit, or a failed health check reported by the controller, is
///   handled as a unit error, and the bunch goes on;
/// - a unit that exits with code 0 changes nothing;
/// - a join error stops the bunch with that error;
/// - when no unit is left, the bunch returns successfully;
/// - an update request starts a rolling update;
/// - a shutdown stops the bunch successfully;
/// - a closed controller channel stops the bunch with
///   `ControllerConnectionDropped`.
pub open spec fn wait_step_effect(b: ServiceBunchView, ev: BunchEventView, now: u64) -> (
    ServiceBunchView,
    BunchStepView,
) {
    match ev {
        BunchEventView::UnitFailed(e) => {
            let (b1, a) = unit_error_effect(b, e, now);
            (b1, BunchStepView::Continue(a))
        },
        BunchEventView::UnitExited => (b, BunchStepView::Continue(UnitErrorActionView::Nothing)),
        BunchEventView::JoinFailed(e) => (
            terminated(b),
            BunchStepView::Exit {
                termination: Some(termination_of(b)),
                result: Err(ServiceBunchErrorView::JoinError(e)),
            },
        ),
        BunchEventView::AllUnitsFinished => (
            b,
            BunchStepView::Exit { termination: None, result: Ok(()) },
        ),
        BunchEventView::ControllerMessage(MessageView::StartUpdate) => (b, BunchStepView::StartUpdate),
        BunchEventView::ControllerMessage(MessageView::HealthCheckFailed(a)) => {
            let (b1, act) = unit_error_effect(b, ServiceUnitErrorView::HealthCheckFailed(a), now);
            (b1, BunchStepView::Continue(act))
        },
        BunchEventView::ControllerMessage(_) => (
            terminated(b),
            BunchStepView::Exit { termination: Some(termination_of(b)), result: Ok(()) },
        ),
        BunchEventView::ControllerClosed => (
            terminated(b),
            BunchStepView::Exit {
                termination: Some(termination_of(b)),
                result: Err(ServiceBunchErrorView::ControllerConnectionDropped),
            },
        ),
    }
}

impl ServiceBunch {
    fn failing_pid_of(&self, e: &ServiceUnitError) -> (r: Option<ProcessID>)
        ensures
            r == failing_pid(self@, e@),
    {
        match e {
            ServiceUnitError::ExitError { id, .. } => Some(*id),
            ServiceUnitError::HealthCheckFailed(addr) => match position_of_addr(&self.new_connections, addr) {
                Some(_) => None,
                None => match position_of_addr(&self.stable_connections, addr) {
                    Some(i) => {
                        proof {
                            assert(self.stable_connections@[i as int]@ == self@.stable[i as int]);
                        }
                        Some(self.stable_connections[i].get_pid())
                    },
                    None => None,
                },
            },
            _ => None,
        }
    }

    /// Whether the failure that `event` registers, if any, can still be
    /// counted (see `failure_countable`); when it cannot, counting it would
    /// overflow the failure count.
    pub fn can_count_failure(&self, event: &BunchEvent) -> (b: bool)
        ensures
            b == failure_countable(self@, event@),
    {
        let pid = match event {
            BunchEvent::UnitFailed(e) => self.failing_pid_of(e),
            BunchEvent::ControllerMessage(Message::HealthCheckFailed(addr)) => {
                let e = ServiceUnitError::HealthCheckFailed(addr.clone());
                self.failing_pid_of(&e)
            },
            _ => None,
        };
        match pid {
            Some(p) => self.failure_count < u16::MAX || !(position_of_pid(
                &self.stable_connections,
                p,
            ).is_some() && position_of_pid(&self.new_connections, p).is_none()),
            None => true,
        }
    }

    /// Decides what to do about one event of the wait loop (see
    /// `wait_step_effect`).
    pub fn wait_on_step(&mut self, event: BunchEvent, now: u64) -> (step: BunchStep)
        requires
            match event@ {
                BunchEventView::ControllerMessage(m) => is_controller_request(m),
                _ => true,
            },
            failure_countable(old(self)@, event@),
        ensures
            (final(self)@, step@) == wait_step_effect(old(self)@, event@, now),
    {
        match event {
            BunchEvent::UnitFailed(e) => BunchStep::Continue(self.handle_service_unit_error(e, now)),
            BunchEvent::UnitExited => BunchStep::Continue(UnitErrorAction::Nothing),
            BunchEvent::JoinFailed(e) => {
                let t = self.terminate();
                BunchStep::Exit { termination: Some(t), result: Err(ServiceBunchError::JoinError(e)) }
            },
            BunchEvent::AllUnitsFinished => BunchStep::Exit { termination: None, result: Ok(()) },
            BunchEvent::ControllerMessage(message) => match message {
                Message::StartUpdate => BunchStep::StartUpdate,
                Message::HealthCheckFailed(addr) => BunchStep::Continue(
                    self.handle_service_unit_error(ServiceUnitError::HealthCheckFailed(addr), now),
                ),
                _ => {
                    let t = self.terminate();
                    BunchStep::Exit { termination: Some(t), result: Ok(()) }
                },
            },
            BunchEvent::ControllerClosed => {
                let t = self.terminate();
                BunchStep::Exit {
                    termination: Some(t),
                    result: Err(ServiceBunchError::ControllerConnectionDropped),
                }
            },
        }
    }
}

} // verus!

verus! {

/// What happened in a rolling update, as the caller reports it.
pub enum UpdateEvent {
    /// An address for the next unit of the new version was found.
    AddressFound(ConnectAddr),
    /// No address could be found; the text of the error.
    AddressFailed(String),
    /// The unit of the new version started, with this process.
    UnitStarted(ProcessID),
    /// The unit of the new version could not be started.
    UnitFailedToStart,
    /// The pause after starting a unit is over.
    PauseOver,
    /// The retired stable unit was told to terminate.
    Retired,
}

pub enum UpdateEventView {
    AddressFound(ConnectAddrView),
    AddressFailed(Seq<char>),
    UnitStarted(ProcessID),
    UnitFailedToStart,
    PauseOver,
    Retired,
}

impl View for UpdateEvent {
    type V = UpdateEventView;

    open spec fn view(&self) -> UpdateEventView {
        match self {
            UpdateEvent::AddressFound(a) => UpdateEventView::AddressFound(a@),
            UpdateEvent::AddressFailed(e) => UpdateEventView::AddressFailed(e@),
            UpdateEvent::UnitStarted(pid) => UpdateEventView::UnitStarted(*pid),
            UpdateEvent::UnitFailedToStart => UpdateEventView::UnitFailedToStart,
            UpdateEvent::PauseOver => UpdateEventView::PauseOver,
            UpdateEvent::Retired => UpdateEventView::Retired,
        }
    }
}

/// What the caller does next in a rolling update.
pub enum UpdateAction {
    /// Find an address for a unit of the new version.
    FindAddress,
    /// Start a unit of the new version on this address.
    StartUnit(ConnectAddr),
    /// Send the controller this message, then pause.
    Pause(Message),
    /// Terminate this stable unit and send the controller this message.
    Retire(UnitConnection, Message),
    /// The update is over: terminate the units, send the message (if any),
    /// and end with `result`.
    Finish { termination: Vec<UnitConnection>, message: Option<Message>, result: Result<(), ServiceBunchError> },
}

pub enum UpdateActionView {
    FindAddress,
    StartUnit(ConnectAddrView),
    Pause(MessageView),
    Retire(UnitConnectionView, MessageView),
    Finish {
        termination: Seq<UnitConnectionView>,
        message: Option<MessageView>,
        result: Result<(), ServiceBunchErrorView>,
    },
}

impl View for UpdateAction {
    type V = UpdateActionView;

    open spec fn view(&self) -> UpdateActionView {
        match self {
            UpdateAction::FindAddress => UpdateActionView::FindAddress,
            UpdateAction::StartUnit(a) => UpdateActionView::StartUnit(a@),
            UpdateAction::Pause(m) => UpdateActionView::Pause(m@),
            UpdateAction::Retire(u, m) => UpdateActionView::Retire(u@, m@),
            UpdateAction::Finish { termination, message, result } => UpdateActionView::Finish {
                termination: units_view(termination@),
                message: match message {
                    Some(m) => Some(m@),
                    None => None,
                },
                result: match result {
                    Ok(()) => Ok(()),
                    Err(e) => Err(e@),
                },
            },
        }
    }
}

/// The next step of an update: another unit is replaced while stable units
/// remain and the bunch is updating; otherwise the update finishes (the new
/// units become the stable ones) and the controller is told.
pub open spec fn update_next(b: ServiceBunchView) -> (ServiceBunchView, UpdateActionView) {
    if b.stable.len() > 0 && b.state == State::Updating {
        (b, UpdateActionView::FindAddress)
    } else {
        (
            after_update(b),
            UpdateActionView::Finish {
                termination: Seq::empty(),
                message: Some(MessageView::UpdateFinished(b.config.name)),
                result: Ok(()),
            },
        )
    }
}

/// The bunch without an address for the step.
pub open spec fn without_pending(b: ServiceBunchView) -> ServiceBunchView {
    ServiceBunchView { pending: None, ..b }
}

/// A rolling update, step by step: a unit of the new version is started
/// on an address found for it, the controller is told, and after a pause
/// the last stable unit is retired (the controller is told that its
/// address is gone); this goes on until no stable unit is left. No address ends the update with that error; a unit that cannot
/// start stops the whole bunch; a bunch that left the updating state
/// terminates its new units and ends the update as interrupted. An event
/// that does not fit the step the update is in is passed over, and the
/// update goes on with its next step.
pub open spec fn update_effect(b: ServiceBunchView, ev: UpdateEventView) -> (ServiceBunchView, UpdateActionView) {
    match ev {
        UpdateEventView::AddressFound(a) => (
            ServiceBunchView { pending: Some(a), ..b },
            UpdateActionView::StartUnit(a),
        ),
        UpdateEventView::AddressFailed(e) => (
            without_pending(b),
            UpdateActionView::Finish {
                termination: Seq::empty(),
                message: None,
                result: Err(ServiceBunchErrorView::FailedCreateAddress(e)),
            },
        ),
        UpdateEventView::UnitStarted(pid) => match b.pending {
            Some(a) => (
                with_new_unit(b, UnitConnectionView { pid, addr: a }),
                UpdateActionView::Pause(MessageView::UnitSpawned(b.config.name, a)),
            ),
            None => update_next(b),
        },
        UpdateEventView::UnitFailedToStart => (
            without_pending(terminated(b)),
            UpdateActionView::Finish {
                termination: termination_of(b).units,
                message: Some(termination_of(b).message),
                result: Err(ServiceBunchErrorView::FailedToStart),
            },
        ),
        UpdateEventView::PauseOver => match b.pending {
            Some(_) => if b.stable.len() > 0 {
                (
                    without_pending(without_last_stable(b)),
                    UpdateActionView::Retire(
                        b.stable.last(),
                        MessageView::UnitDespawned(b.config.name, b.stable.last().addr),
                    ),
                )
            } else {
                update_next(without_pending(b))
            },
            None => update_next(b),
        },
        UpdateEventView::Retired => if b.state != State::Updating {
            (
                ServiceBunchView { fresh: Seq::empty(), ..b },
                UpdateActionView::Finish {
                    termination: b.fresh,
                    message: None,
                    result: Err(ServiceBunchErrorView::UpdateIterrupted),
                },
            )
        } else {
            update_next(b)
        },
    }
}

impl ServiceBunch {
    fn update_next_step(&mut self) -> (a: UpdateAction)
        ensures
            (final(self)@, a@) == update_next(old(self)@),
    {
        if self.update_in_progress() {
            UpdateAction::FindAddress
        } else {
            let m = self.finish_update();
            let none: Vec<UnitConnection> = Vec::new();
            proof {
                assert(units_view(none@) =~= Seq::<UnitConnectionView>::empty());
            }
            UpdateAction::Finish { termination: none, message: Some(m), result: Ok(()) }
        }
    }

    /// A rolling update is requested: the bunch is updating and the first
    /// step follows (see `update_next`).
    pub fn begin_rolling_update(&mut self) -> (a: UpdateAction)
        ensures
            (final(self)@, a@) == update_next(with_event(old(self)@, Event::UpdateRequest)),
    {
        self.begin_update();
        self.update_next_step()
    }

    /// Decides the next step of a rolling update after `event` (see
    /// `update_effect`).
    pub fn rolling_update_step(&mut self, event: UpdateEvent) -> (a: UpdateAction)
        ensures
            (final(self)@, a@) == update_effect(old(self)@, event@),
    {
        match event {
            UpdateEvent::AddressFound(a) => {
                self.update_address = Some(a.clone());
                UpdateAction::StartUnit(a)
            },
            UpdateEvent::AddressFailed(e) => {
                self.update_address = None;
                let none: Vec<UnitConnection> = Vec::new();
                proof {
                    assert(units_view(none@) =~= Seq::<UnitConnectionView>::empty());
                }
                UpdateAction::Finish {
                    termination: none,
                    message: None,
                    result: Err(ServiceBunchError::FailedCreateAddress(e)),
                }
            },
            UpdateEvent::UnitStarted(pid) => {
                let pending = match &self.update_address {
                    Some(a) => Some(a.clone()),
                    None => None,
                };
                match pending {
                    Some(a) => UpdateAction::Pause(self.add_new_unit(pid, a)),
                    None => self.update_next_step(),
                }
            },
            UpdateEvent::UnitFailedToStart => {
                self.update_address = None;
                let t = self.terminate();
                UpdateAction::Finish {
                    termination: t.units,
                    message: Some(t.message),
                    result: Err(ServiceBunchError::FailedToStart),
                }
            },
            UpdateEvent::PauseOver => {
                let pending = match &self.update_address {
                    Some(a) => Some(a.clone()),
                    None => None,
                };
                self.update_address = None;
                match pending {
                    Some(a) => {
                        if self.stable_connections.len() > 0 {
                            let (unit, m) = self.retire_one_stable();
                            UpdateAction::Retire(unit, m)
                        } else {
                            self.update_next_step()
                        }
                    },
                    None => self.update_next_step(),
                }
            },
            UpdateEvent::Retired => {
                if !self.state.is(State::Updating) {
                    let units = self.interrupt_if_not_updating().unwrap();
                    UpdateAction::Finish {
                        termination: units,
                        message: None,
                        result: Err(ServiceBunchError::UpdateIterrupted),
                    }
                } else {
                    self.update_next_step()
                }
            },
        }
    }
}

} // verus!

verus! {

proof fn lemma_least_pid_index(s: Seq<UnitConnectionView>, pid: ProcessID) -> (i: int)
    requires
        has_pid(s, pid),
    ensures
        0 <= i < s.len(),
        s[i].pid == pid,
        forall|j: int| 0 <= j < i ==> s[j].pid != pid,
    decreases s.len(),
{
    let t = s.drop_last();
    if exists|k: int| 0 <= k < t.len() && #[trigger] t[k].pid == pid {
        let i = lemma_least_pid_index(t, pid);
        assert forall|j: int| 0 <= j < i implies s[j].pid != pid by {
            assert(t[j].pid != pid);
        }
        i
    } else {
        let k = choose|k: int| 0 <= k < s.len() && #[trigger] s[k].pid == pid;
        assert forall|j: int| 0 <= j < s.len() - 1 implies s[j].pid != pid by {
            if s[j].pid == pid {
                assert(t[j].pid == pid);
            }
        }
        if k < s.len() - 1 {
            assert(t[k].pid == pid);
        }
        s.len() - 1
    }
}

proof fn lemma_first_with_pid_found(s: Seq<UnitConnectionView>, pid: ProcessID) -> (i: int)
    requires
        has_pid(s, pid),
    ensures
        first_with_pid(s, pid) == Some(i),
        0 <= i < s.len(),
        s[i].pid == pid,
        forall|j: int| 0 <= j < i ==> s[j].pid != pid,
{
    let i = lemma_least_pid_index(s, pid);
    lemma_first_with_pid(s, pid, i);
    i
}

/// Replacing a unit that is among the stable units keeps their number, and
/// the replacement is then the last stable unit: a restart is one for one.
proof fn lemma_remove_keeps_last<A>(p: Seq<A>, i: int)
    requires
        0 <= i < p.len() - 1,
    ensures
        p.remove(i).len() == p.len() - 1,
        p.remove(i).last() == p.last(),
{
    let r = p.remove(i);
    assert(r == p.subrange(0, i) + p.subrange(i + 1, p.len() as int));
    assert(r[r.len() - 1] == p.subrange(i + 1, p.len() as int)[p.len() - i - 2]);
}

/// Replacing a unit that is among the stable units keeps their number, and
/// the replacement is then the last stable unit: a restart is one for one.
pub proof fn lemma_replacement_keeps_unit_count(
    b: ServiceBunchView,
    new: UnitConnectionView,
    lost_pid: ProcessID,
)
    requires
        has_pid(b.stable, lost_pid),
    ensures
        replaced(b, new, lost_pid).stable.len() == b.stable.len(),
        replaced(b, new, lost_pid).stable.last() == new,
{
    let i = lemma_first_with_pid_found(b.stable, lost_pid);
    let p = b.stable.push(new);
    assert(p[i].pid == lost_pid);
    assert forall|j: int| 0 <= j < i implies p[j].pid != lost_pid by {
        assert(p[j] == b.stable[j]);
    }
    lemma_first_with_pid(p, lost_pid, i);
    lemma_remove_keeps_last(p, i);
}

/// A failure of a stable unit that comes within the failure window and
/// exceeds the limit stops the whole bunch: all stable units are handed out
/// to be terminated and none remains; a running or updating bunch is then
/// stopping.
pub proof fn lemma_exceeding_the_limit_stops_the_bunch(
    b: ServiceBunchView,
    id: ProcessID,
    err: Seq<char>,
    now: u64,
)
    requires
        counts_failure(b, id),
        b.failure_count < u16::MAX,
        elapsed(now, b.last_check_time) <= FAILURE_WINDOW_NANOS,
        b.failure_count + 1 > b.config.fails_limit,
    ensures
        ({
            let (b1, a) = unit_error_effect(b, ServiceUnitErrorView::ExitError { id, err }, now);
            &&& b1.stable.len() == 0
            &&& a == UnitErrorActionView::TerminateAll(termination_of(b))
            &&& (b.state == State::Running || b.state == State::Updating) ==> b1.state
                == State::Stopping
        }),
{
    let b1 = ServiceBunchView { failure_count: (b.failure_count + 1) as u16, ..b };
    assert(unit_error_effect(b, ServiceUnitErrorView::ExitError { id, err }, now).1 == UnitErrorActionView::TerminateAll(termination_of(b1)));
    assert(termination_of(b1) == termination_of(b));
}

/// A failure of a stable unit within the limit restarts it: the failure is
/// counted and the unit is to be replaced, the others stay.
pub proof fn lemma_failure_within_limit_restarts_the_unit(
    b: ServiceBunchView,
    id: ProcessID,
    err: Seq<char>,
    now: u64,
)
    requires
        counts_failure(b, id),
        b.failure_count < u16::MAX,
        elapsed(now, b.last_check_time) <= FAILURE_WINDOW_NANOS,
        b.failure_count + 1 <= b.config.fails_limit,
    ensures
        ({
            let (b1, a) = unit_error_effect(b, ServiceUnitErrorView::ExitError { id, err }, now);
            &&& a == UnitErrorActionView::Restart { lost_pid: id }
            &&& b1.failure_count == b.failure_count + 1
            &&& b1.stable == b.stable
            &&& b1.state == b.state
        }),
{
}

/// A failure that comes after the failure window has passed is not counted:
/// the window restarts and the unit is restarted, whatever the count was.
pub proof fn lemma_failure_after_the_window_resets_the_count(
    b: ServiceBunchView,
    id: ProcessID,
    err: Seq<char>,
    now: u64,
)
    requires
        counts_failure(b, id),
        b.failure_count < u16::MAX,
        elapsed(now, b.last_check_time) > FAILURE_WINDOW_NANOS,
    ensures
        ({
            let (b1, a) = unit_error_effect(b, ServiceUnitErrorView::ExitError { id, err }, now);
            &&& a == UnitErrorActionView::Restart { lost_pid: id }
            &&& b1.failure_count == 0
            &&& b1.last_check_time == now
            &&& b1.stable == b.stable
        }),
{
}

/// During a rolling update, a failed health check of a unit of the new
/// version ends the update: the bunch is running its stable units again.
pub proof fn lemma_new_unit_health_failure_ends_update(
    b: ServiceBunchView,
    addr: ConnectAddrView,
    now: u64,
)
    requires
        b.state == State::Updating,
        has_addr(b.fresh, addr),
    ensures
        ({
            let (b1, a) = unit_error_effect(b, ServiceUnitErrorView::HealthCheckFailed(addr), now);
            &&& b1.state == State::Running
            &&& b1.stable == b.stable
            &&& a == UnitErrorActionView::Nothing
        }),
{
}

/// A stopped bunch holds no stable units, and whatever stops it (a
/// shutdown, a join error, a lost controller) hands all of them out to be
/// terminated.
pub proof fn lemma_stop_hands_out_all_units(b: ServiceBunchView, ev: BunchEventView, now: u64)
    requires
        ev matches BunchEventView::ControllerMessage(MessageView::Shutdown) || ev is JoinFailed
            || ev is ControllerClosed,
    ensures
        ({
            let (b1, step) = wait_step_effect(b, ev, now);
            &&& b1.stable.len() == 0
            &&& step matches BunchStepView::Exit { termination: Some(t), .. } && t.units == b.stable
        }),
{
}

/// A step of a rolling update (a unit of the new version is started, then
/// the last stable unit is retired) keeps the number of units: one stable
/// unit less, one new unit more, the newest last.
pub proof fn lemma_update_step_keeps_unit_count(b: ServiceBunchView, u: UnitConnectionView)
    requires
        b.stable.len() > 0,
    ensures
        ({
            let b1 = without_last_stable(with_new_unit(b, u));
            &&& b1.stable.len() == b.stable.len() - 1
            &&& b1.fresh.len() == b.fresh.len() + 1
            &&& b1.fresh.last() == u
            &&& b1.stable == b.stable.drop_last()
            &&& b1.state == b.state
        }),
{
}

/// When a rolling update finishes, the bunch is running again and the units
/// of the new version are its stable units.
pub proof fn lemma_finished_update_runs_the_new_units(b: ServiceBunchView)
    requires
        b.state == State::Updating,
    ensures
        after_update(b).state == State::Running,
        after_update(b).stable == b.fresh,
        after_update(b).config == b.config,
{
}

/// The bunch after the steps of a rolling update that started the units
/// `news`, in order: for each, a unit of the new version is started and the
/// last stable unit is retired.
pub open spec fn after_update_steps(b: ServiceBunchView, news: Seq<UnitConnectionView>) -> ServiceBunchView
    decreases news.len(),
{
    if news.len() == 0 {
        b
    } else {
        without_last_stable(with_new_unit(after_update_steps(b, news.drop_last()), news.last()))
    }
}

proof fn lemma_update_steps_shape(b: ServiceBunchView, news: Seq<UnitConnectionView>)
    requires
        news.len() <= b.stable.len(),
    ensures
        after_update_steps(b, news).stable == b.stable.take(b.stable.len() - news.len()),
        after_update_steps(b, news).fresh == b.fresh + news,
        after_update_steps(b, news).state == b.state,
        after_update_steps(b, news).config == b.config,
        after_update_steps(b, news).pending == b.pending,
    decreases news.len(),
{
    if news.len() == 0 {
        assert(b.stable.take(b.stable.len() as int) =~= b.stable);
        assert(b.fresh + news =~= b.fresh);
    } else {
        let d = news.drop_last();
        lemma_update_steps_shape(b, d);
        let k = b.stable.len() - news.len();
        assert(b.stable.take(k + 1).drop_last() =~= b.stable.take(k));
        assert((b.fresh + d).push(news.last()) =~= b.fresh + news);
    }
}

/// A rolling update replaces every stable unit by a unit of the new version:
/// after one step per stable unit no stable unit is left, and when the update
/// finishes, the units started (after any earlier new units) are the stable
/// units of a running bunch.
pub proof fn lemma_rolling_update_replaces_every_unit(b: ServiceBunchView, news: Seq<UnitConnectionView>)
    requires
        b.state == State::Updating,
        news.len() == b.stable.len(),
    ensures
        after_update_steps(b, news).stable.len() == 0,
        after_update(after_update_steps(b, news)).stable == b.fresh + news,
        after_update(after_update_steps(b, news)).state == State::Running,
{
    lemma_update_steps_shape(b, news);
}

/// A failure of a unit of the new version has a limit of one: it exceeds
/// the limit at once, and nothing else changes.
pub proof fn lemma_new_version_failure_limit_is_one(b: ServiceBunchView, pid: ProcessID, now: u64)
    requires
        has_pid(b.fresh, pid),
    ensures
        failure_registration(b, pid, now) == (b, true),
{
}

/// During a rolling update, a unit of the new version that exits with an
/// error stops the update: the bunch is running its stable units again,
/// and no unit is restarted.
pub proof fn lemma_new_unit_exit_ends_update(b: ServiceBunchView, id: ProcessID, err: Seq<char>, now: u64)
    requires
        b.state == State::Updating,
        has_pid(b.fresh, id),
    ensures
        ({
            let (b1, a) = unit_error_effect(b, ServiceUnitErrorView::ExitError { id, err }, now);
            &&& b1.state == State::Running
            &&& b1.stable == b.stable
            &&& b1.fresh == b.fresh
            &&& a == UnitErrorActionView::Nothing
        }),
{
}

/// The bunch after one round of a rolling update that runs as planned: an
/// address `u.addr` is found, the unit `u.pid` starts on it, the pause ends
/// and the retired unit is told to terminate.
pub open spec fn update_round(b: ServiceBunchView, u: UnitConnectionView) -> ServiceBunchView {
    let b1 = update_effect(b, UpdateEventView::AddressFound(u.addr)).0;
    let b2 = update_effect(b1, UpdateEventView::UnitStarted(u.pid)).0;
    let b3 = update_effect(b2, UpdateEventView::PauseOver).0;
    update_effect(b3, UpdateEventView::Retired).0
}

/// The bunch after rounds for the units `news`, in order.
pub open spec fn update_rounds(b: ServiceBunchView, news: Seq<UnitConnectionView>) -> ServiceBunchView
    decreases news.len(),
{
    if news.len() == 0 {
        b
    } else {
        update_round(update_rounds(b, news.drop_last()), news.last())
    }
}

/// One round of a rolling update, run as planned, asks to start the new
/// unit on the address found, tells the controller it was spawned, retires
/// the last stable unit, and then asks for the next address, or, when that
/// was the last stable unit, finishes the update with the new units as the
/// stable ones.
pub proof fn lemma_update_round(b: ServiceBunchView, u: UnitConnectionView)
    requires
        b.state == State::Updating,
        b.stable.len() > 0,
        b.pending is None,
    ensures
        ({
            let (b1, a1) = update_effect(b, UpdateEventView::AddressFound(u.addr));
            let (b2, a2) = update_effect(b1, UpdateEventView::UnitStarted(u.pid));
            let (b3, a3) = update_effect(b2, UpdateEventView::PauseOver);
            let (b4, a4) = update_effect(b3, UpdateEventView::Retired);
            let w = without_last_stable(with_new_unit(b, u));
            &&& a1 == UpdateActionView::StartUnit(u.addr)
            &&& a2 == UpdateActionView::Pause(MessageView::UnitSpawned(b.config.name, u.addr))
            &&& a3 == UpdateActionView::Retire(
                b.stable.last(),
                MessageView::UnitDespawned(b.config.name, b.stable.last().addr),
            )
            &&& b.stable.len() > 1 ==> b4 == w && a4 == UpdateActionView::FindAddress
            &&& b.stable.len() == 1 ==> b4 == after_update(w) && a4 == (UpdateActionView::Finish {
                termination: Seq::empty(),
                message: Some(MessageView::UpdateFinished(b.config.name)),
                result: Ok(()),
            })
        }),
{
    let b1 = update_effect(b, UpdateEventView::AddressFound(u.addr)).0;
    let b2 = update_effect(b1, UpdateEventView::UnitStarted(u.pid)).0;
    let b3 = update_effect(b2, UpdateEventView::PauseOver).0;
    let w = without_last_stable(with_new_unit(b, u));
    assert(b1.pending == Some(u.addr));
    assert(b2 == ServiceBunchView { pending: Some(u.addr), ..with_new_unit(b, u) });
    assert(b3 == w);
}

proof fn lemma_update_rounds_prefix(b: ServiceBunchView, news: Seq<UnitConnectionView>)
    requires
        b.state == State::Updating,
        b.pending is None,
        news.len() < b.stable.len(),
    ensures
        update_rounds(b, news) == after_update_steps(b, news),
    decreases news.len(),
{
    if news.len() > 0 {
        let d = news.drop_last();
        lemma_update_rounds_prefix(b, d);
        lemma_update_steps_shape(b, d);
        let c = after_update_steps(b, d);
        lemma_update_round(c, news.last());
    }
}

/// A rolling update that runs as planned replaces every stable unit: after
/// one round per stable unit, the units started (after any earlier new
/// units) are the stable units of a running bunch.
pub proof fn lemma_planned_update_replaces_every_unit(b: ServiceBunchView, news: Seq<UnitConnectionView>)
    requires
        b.state == State::Updating,
        b.pending is None,
        news.len() == b.stable.len(),
        news.len() > 0,
    ensures
        update_rounds(b, news).stable == b.fresh + news,
        update_rounds(b, news).state == State::Running,
{
    let d = news.drop_last();
    lemma_update_rounds_prefix(b, d);
    lemma_update_steps_shape(b, d);
    let c = after_update_steps(b, d);
    lemma_update_round(c, news.last());
    lemma_update_steps_shape(b, news);
    lemma_rolling_update_replaces_every_unit(b, news);
}

/// A failed health check of a stable unit (the first one on that address,
/// not a unit of the new version) that comes within the failure window and
/// exceeds the limit stops the whole bunch: all stable units are handed out
/// to be terminated and none remains; a running or updating bunch is then
/// stopping.
pub proof fn lemma_unhealthy_unit_past_the_limit_stops_the_bunch(
    b: ServiceBunchView,
    addr: ConnectAddrView,
    i: int,
    now: u64,
)
    requires
        0 <= i < b.stable.len(),
        b.stable[i].addr == addr,
        forall|j: int| 0 <= j < i ==> b.stable[j].addr != addr,
        !has_addr(b.fresh, addr),
        !has_pid(b.fresh, b.stable[i].pid),
        b.failure_count < u16::MAX,
        elapsed(now, b.last_check_time) <= FAILURE_WINDOW_NANOS,
        b.failure_count + 1 > b.config.fails_limit,
    ensures
        ({
            let (b1, a) = unit_error_effect(b, ServiceUnitErrorView::HealthCheckFailed(addr), now);
            &&& b1.stable.len() == 0
            &&& a == UnitErrorActionView::TerminateAll(termination_of(b))
            &&& (b.state == State::Running || b.state == State::Updating) ==> b1.state
                == State::Stopping
        }),
{
    lemma_first_with_addr(b.stable, addr, i);
    let pid = b.stable[i].pid;
    assert(has_pid(b.stable, pid));
    let b1 = ServiceBunchView { failure_count: (b.failure_count + 1) as u16, ..b };
    assert(failure_registration(b, pid, now) == (b1, true));
    assert(termination_of(b1) == termination_of(b));
}

/// A retired report that finds the bunch no longer updating ends the update
/// as interrupted and hands out every unit of the new version, all of them
/// and in order, to be terminated; no new unit is left in the bunch, and its
/// stable units stay.
pub proof fn lemma_interrupted_update_terminates_every_new_unit(b: ServiceBunchView)
    requires
        b.state != State::Updating,
    ensures
        ({
            let (b1, a) = update_effect(b, UpdateEventView::Retired);
            &&& a matches UpdateActionView::Finish { termination, message, result }
                && termination == b.fresh && message is None
                && result == Err::<(), ServiceBunchErrorView>(ServiceBunchErrorView::UpdateIterrupted)
            &&& b1.fresh.len() == 0
            &&& b1.stable == b.stable
            &&& b1.state == b.state
        }),
{
}

} // verus!
