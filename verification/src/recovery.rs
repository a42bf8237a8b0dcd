//! The route-recovery engine.
//!
//! When the external liveness monitor reports that a bridge's secure
//! channel stopped answering, the bridge's route is rebuilt: the stale
//! channels are deleted (best effort), the original target is dialed again
//! under the original authorization constraint, the new suffix becomes a
//! route, the old bridge worker is stopped (best effort) and a new one is
//! started at the same bind address with the same access-control capability
//! as originally attached. The whole attempt runs under one outer deadline:
//! once it has passed, the attempt fails with a timeout.
//!
//! All outside work — deleting channels, dialing, stopping and starting
//! workers — is performed by a driver: the engine is a state machine that
//! emits one action per step and consumes the action's outcome as the next
//! event.

use crate::access::{spec_cap_eq, Capability};
use crate::addr::{
    local_multiaddr_to_route, spec_all_local, spec_is_local_code, spec_route_of,
    spec_without_outlet_address, without_outlet_address, Addr, Route,
};
use crate::connection::{
    connect_on_dial, connect_start, spec_needs_second_hop, ConnectPhase, ConnectionResult,
    DialRequest,
};
use crate::session::{Data, ScratchValue, KEY_INLET_WORKER, KEY_OUTER_CHAN};
use vstd::prelude::*;

verus! {

/// The recovery strategy of one bridge: the state a recovery attempt works
/// from. It never changes across attempts.
#[derive(Debug)]
pub struct RecoveryStrategy {
    /// The bridge's local bind address; every rebuilt worker listens here.
    pub bind: String,
    /// The original target address; every attempt dials it anew.
    pub target: Addr,
    /// The original authorization constraint.
    pub auth: Option<String>,
    /// The access-control capability attached at creation; it is reused
    /// unchanged, never recomputed.
    pub access: Capability,
}

/// Why a recovery attempt failed.
#[derive(Debug)]
pub enum RecoveryError {
    /// The previous ping address could not be translated to a local one.
    BadPreviousAddress,
    /// A dial failed; the message is the driver's.
    DialFailed(String),
    /// The new suffix is not representable as a route.
    InvalidRoute,
    /// The new bridge worker could not be started; the message is the
    /// driver's.
    WorkerStartFailed(String),
    /// The outer deadline passed.
    Timeout,
}

/// What the engine asks the driver to do next.
#[derive(Debug)]
pub enum RecoveryAction {
    /// Delete the secure channel at this local address; best effort.
    DeleteChannel(String),
    /// Establish a secure channel as requested.
    Dial(DialRequest),
    /// Stop the bridge worker at this address; best effort.
    StopBridge(String),
    /// Start a new bridge worker.
    StartBridge {
        /// The local socket to listen on: always the bridge's original one.
        bind: String,
        /// The route the worker forwards into.
        route: Route,
        /// The capability gating the worker: always the one attached at
        /// creation.
        access: Capability,
    },
    /// The attempt succeeded; `new_ping` is the address the liveness
    /// monitor should ping from now on.
    Succeed {
        /// The rebuilt remaining address, its trailing outlet marker
        /// stripped.
        new_ping: Addr,
    },
    /// The attempt failed.
    Fail(RecoveryError),
}

/// What the driver reports back after performing an action.
#[derive(Debug)]
pub enum RecoveryEvent {
    /// The channel deletion finished (best effort: also when it failed).
    ChannelDeleted,
    /// The dial produced this outcome.
    DialOk(ConnectionResult),
    /// The dial failed; the message is the driver's.
    DialFailed(String),
    /// The worker stop finished (best effort: also when it failed).
    BridgeStopped,
    /// The new worker is running at this address.
    BridgeStarted(String),
    /// The new worker could not be started; the message is the driver's.
    BridgeStartFailed(String),
}

/// Where a recovery attempt stands between actions.
#[derive(Debug)]
pub enum RecoveryPhase {
    /// Deleting the previous secure channel.
    DeletePrev,
    /// Deleting the recorded outer secure channel.
    DeleteOuter,
    /// Rebuilding the connection.
    Dialing(ConnectPhase),
    /// Stopping the previous bridge worker; the rebuilt remaining address
    /// and its route are kept for the restart.
    StoppingBridge {
        /// The rebuilt remaining address.
        rest: Addr,
        /// Its route.
        route: Route,
    },
    /// Starting the new bridge worker.
    StartingBridge {
        /// The rebuilt remaining address.
        rest: Addr,
    },
    /// The attempt succeeded.
    Done,
    /// The attempt failed; the scratch store keeps whatever the partial
    /// attempt wrote, so a later attempt can resume cleanup.
    Failed,
}

impl RecoveryPhase {
    /// Shape invariant: a dialing phase holds an unfinished, well-formed
    /// connection phase, and a stopping phase carries exactly the route of
    /// its rebuilt remaining address.
    pub open spec fn wf(&self) -> bool {
        match self {
            RecoveryPhase::Dialing(cp) => cp.wf() && !(cp is Done),
            RecoveryPhase::StoppingBridge { rest, route } => route@.map_values(|p: String| p@)
                == spec_route_of(rest.view()) && spec_all_local(rest.view()),
            _ => true,
        }
    }
}

/// Which events can answer which phase: the driver performs the emitted
/// action and reports its outcome.
pub open spec fn spec_compatible(phase: RecoveryPhase, event: RecoveryEvent) -> bool {
    match phase {
        RecoveryPhase::DeletePrev => event is ChannelDeleted,
        RecoveryPhase::DeleteOuter => event is ChannelDeleted,
        RecoveryPhase::Dialing(_) => event is DialOk || event is DialFailed,
        RecoveryPhase::StoppingBridge { .. } => event is BridgeStopped,
        RecoveryPhase::StartingBridge { .. } => event is BridgeStarted
            || event is BridgeStartFailed,
        RecoveryPhase::Done => false,
        RecoveryPhase::Failed => false,
    }
}

/// What holds of a step that asks the driver to start the new worker: the
/// worker is bound to the strategy's original bind address, forwards into
/// the route of `restv`, and is gated by the capability attached at
/// creation — the same object, field for field.
pub open spec fn spec_start_post(
    s: RecoveryStrategy,
    r: (RecoveryPhase, RecoveryAction),
    restv: Seq<(u64, Seq<char>)>,
) -> bool {
    &&& r.0 matches RecoveryPhase::StartingBridge { rest } && rest.view() == restv
    &&& r.1 matches RecoveryAction::StartBridge { bind, route, access } && bind@ == s.bind@
        && route@.map_values(|p: String| p@) == spec_route_of(restv) && spec_cap_eq(
        access,
        s.access,
    )
}

/// What holds of a step that just rebuilt the remaining address `restv`:
/// when it is not representable as a route the attempt fails; otherwise the
/// previous worker is stopped first when the scratch store knows one, and
/// the new worker is started right away when it does not.
pub open spec fn spec_proceed_post(
    s: RecoveryStrategy,
    data: Data,
    r: (RecoveryPhase, RecoveryAction),
    restv: Seq<(u64, Seq<char>)>,
) -> bool {
    if !spec_all_local(restv) {
        &&& r.0 is Failed
        &&& r.1 matches RecoveryAction::Fail(e) && e is InvalidRoute
    } else {
        match data.spec_index(KEY_INLET_WORKER@) {
            Some(ScratchValue::Worker(w)) => {
                &&& r.0 matches RecoveryPhase::StoppingBridge { rest, route } && rest.view()
                    == restv && route@.map_values(|p: String| p@) == spec_route_of(restv)
                &&& r.1 matches RecoveryAction::StopBridge(wa) && wa@ == w@
            },
            _ => spec_start_post(s, r, restv),
        }
    }
}

/// What holds of a step that begins dialing: the request goes to the
/// original target under the original authorization constraint.
pub open spec fn spec_dial_start_post(s: RecoveryStrategy, r: (
    RecoveryPhase,
    RecoveryAction,
)) -> bool {
    &&& r.0 matches RecoveryPhase::Dialing(cp) && cp is FirstDial
    &&& r.1 matches RecoveryAction::Dial(d) && d.target.view() == s.target.view() && (match (
        d.auth,
        s.auth,
    ) {
        (Some(a), Some(b)) => a@ == b@,
        (None, None) => true,
        _ => false,
    })
}

impl RecoveryStrategy {
    /// Begins a recovery attempt, given the address whose liveness check
    /// failed. The address must translate to a local one; then the stale
    /// channel there is deleted first. Once `now` has reached the deadline
    /// the attempt fails with a timeout.
    pub fn begin(&self, prev: &Addr, now: u64, deadline: u64) -> (r: (
        RecoveryPhase,
        RecoveryAction,
    ))
        ensures
            r.0.wf(),
            now >= deadline ==> (r.0 is Failed && (r.1 matches RecoveryAction::Fail(e)
                && e is Timeout)),
            r.1 matches RecoveryAction::Fail(e) ==> (e is Timeout ==> now >= deadline),
            now < deadline ==> {
                if prev.view().len() == 1 && spec_is_local_code(prev.view()[0].0) {
                    r.0 is DeletePrev && (r.1 matches RecoveryAction::DeleteChannel(w) && w@
                        == prev.view()[0].1)
                } else {
                    r.0 is Failed && (r.1 matches RecoveryAction::Fail(e)
                        && e is BadPreviousAddress)
                }
            },
    {
        if now >= deadline {
            return (RecoveryPhase::Failed, RecoveryAction::Fail(RecoveryError::Timeout));
        }
        match crate::addr::try_multiaddr_to_addr(prev) {
            Some(w) => (RecoveryPhase::DeletePrev, RecoveryAction::DeleteChannel(w)),
            None => (
                RecoveryPhase::Failed,
                RecoveryAction::Fail(RecoveryError::BadPreviousAddress),
            ),
        }
    }

    /// Consumes one event and steps the attempt.
    ///
    /// The scratch store is written at exactly two points: the outer
    /// channel's address is recorded as soon as a second hop is known to be
    /// needed — before the second dial, so that an attempt cut short
    /// mid-flight still leaves enough behind for the next one to clean up —
    /// and the new worker's address is recorded when the driver reports it
    /// started. Once `now` has reached the deadline the attempt fails with
    /// a timeout and the store keeps whatever was already written.
    pub fn step(&self, data: &mut Data, phase: RecoveryPhase, event: RecoveryEvent, now: u64, deadline: u64)
        -> (r: (RecoveryPhase, RecoveryAction))
        requires
            old(data).wf(),
            phase.wf(),
            spec_compatible(phase, event),
        ensures
            r.0.wf(),
            final(data).wf(),
            now >= deadline ==> (r.0 is Failed && (r.1 matches RecoveryAction::Fail(e)
                && e is Timeout) && *final(data) == *old(data)),
            r.1 matches RecoveryAction::Fail(e) ==> (e is Timeout ==> now >= deadline),
            (now < deadline && phase is DeletePrev) ==> {
                match old(data).spec_index(KEY_OUTER_CHAN@) {
                    Some(ScratchValue::Chan(a)) => {
                        if a.view().len() == 1 && spec_is_local_code(a.view()[0].0) {
                            r.0 is DeleteOuter && (r.1 matches RecoveryAction::DeleteChannel(w)
                                && w@ == a.view()[0].1) && *final(data) == *old(data)
                        } else {
                            r.0 is Failed && (r.1 matches RecoveryAction::Fail(e)
                                && e is BadPreviousAddress) && *final(data) == *old(data)
                        }
                    },
                    _ => spec_dial_start_post(*self, r) && *final(data) == *old(data),
                }
            },
            (now < deadline && phase is DeleteOuter) ==> spec_dial_start_post(*self, r) && *final(data) == *old(data),
            (now < deadline && phase is Dialing && event is DialOk) ==> {
                let cp = phase->Dialing_0;
                let outcome = event->DialOk_0;
                &&& (cp is FirstDial && spec_needs_second_hop(
                    outcome.secure_channel.view(),
                    outcome.suffix.view(),
                )) ==> {
                    &&& (r.0 matches RecoveryPhase::Dialing(cp2) && (cp2 matches
                        ConnectPhase::SecondDial { outer, suffix } && outer.view()
                        == outcome.secure_channel.view() && suffix.view()
                        == outcome.suffix.view()))
                    &&& (r.1 matches RecoveryAction::Dial(d) && d.target.view()
                        == outcome.secure_channel.view() + outcome.suffix.view().take(2)
                        && d.auth is None)
                    &&& (final(data).spec_index(KEY_OUTER_CHAN@) matches Some(
                        ScratchValue::Chan(c),
                    ) && c.view() == outcome.secure_channel.view())
                    &&& forall|k2: Seq<char>|
                        k2 != KEY_OUTER_CHAN@ ==> #[trigger] final(data).spec_index(k2) == old(
                            data,
                        ).spec_index(k2)
                }
                &&& (cp is FirstDial && !spec_needs_second_hop(
                    outcome.secure_channel.view(),
                    outcome.suffix.view(),
                )) ==> spec_proceed_post(
                    *self,
                    *old(data),
                    r,
                    outcome.secure_channel.view() + outcome.suffix.view(),
                ) && *final(data) == *old(data)
                &&& cp is SecondDial ==> spec_proceed_post(
                    *self,
                    *old(data),
                    r,
                    outcome.secure_channel.view() + cp->SecondDial_suffix.view().skip(2),
                ) && *final(data) == *old(data)
            },
            (now < deadline && phase is Dialing && event is DialFailed) ==> (r.0 is Failed && (
            r.1 matches RecoveryAction::Fail(e) && (e matches RecoveryError::DialFailed(em) && em@
                == event->DialFailed_0@)) && *final(data) == *old(data)),
            (now < deadline && phase is StoppingBridge && event is BridgeStopped)
                ==> spec_start_post(*self, r, phase->StoppingBridge_rest.view()) && *final(data) == *old(data),
            (now < deadline && phase is StartingBridge && event is BridgeStarted) ==> {
                &&& r.0 is Done
                &&& (r.1 matches RecoveryAction::Succeed { new_ping } && new_ping.view()
                    == spec_without_outlet_address(phase->StartingBridge_rest.view()))
                &&& (final(data).spec_index(KEY_INLET_WORKER@) matches Some(
                    ScratchValue::Worker(w),
                ) && w@ == event->BridgeStarted_0@)
                &&& forall|k2: Seq<char>|
                    k2 != KEY_INLET_WORKER@ ==> #[trigger] final(data).spec_index(k2) == old(
                        data,
                    ).spec_index(k2)
            },
            (now < deadline && phase is StartingBridge && event is BridgeStartFailed) ==> (
            r.0 is Failed && (r.1 matches RecoveryAction::Fail(e) && (e matches
            RecoveryError::WorkerStartFailed(em) && em@ == event->BridgeStartFailed_0@)) && *final(data) == *old(data)),
    {
        if now >= deadline {
            return (RecoveryPhase::Failed, RecoveryAction::Fail(RecoveryError::Timeout));
        }
        match (phase, event) {
            (RecoveryPhase::DeletePrev, RecoveryEvent::ChannelDeleted) => {
                match data.get_chan(KEY_OUTER_CHAN) {
                    Some(a) => {
                        match crate::addr::try_multiaddr_to_addr(&a) {
                            Some(w) => (
                                RecoveryPhase::DeleteOuter,
                                RecoveryAction::DeleteChannel(w),
                            ),
                            None => (
                                RecoveryPhase::Failed,
                                RecoveryAction::Fail(RecoveryError::BadPreviousAddress),
                            ),
                        }
                    },
                    None => self.start_dialing(),
                }
            },
            (RecoveryPhase::DeleteOuter, RecoveryEvent::ChannelDeleted) => self.start_dialing(),
            (RecoveryPhase::Dialing(cp), RecoveryEvent::DialOk(outcome)) => {
                if needs_second(&cp, &outcome) {
                    data.put(
                        KEY_OUTER_CHAN,
                        ScratchValue::Chan(outcome.secure_channel.duplicate()),
                    );
                }
                let (cp2, req) = connect_on_dial(cp, outcome);
                match cp2 {
                    ConnectPhase::Done { outer: _, rest } => self.proceed(data, rest),
                    other => {
                        match req {
                            Some(d) => (RecoveryPhase::Dialing(other), RecoveryAction::Dial(d)),
                            None => (
                                RecoveryPhase::Failed,
                                RecoveryAction::Fail(RecoveryError::InvalidRoute),
                            ),
                        }
                    },
                }
            },
            (RecoveryPhase::Dialing(_), RecoveryEvent::DialFailed(m)) => (
                RecoveryPhase::Failed,
                RecoveryAction::Fail(RecoveryError::DialFailed(m)),
            ),
            (RecoveryPhase::StoppingBridge { rest, route }, RecoveryEvent::BridgeStopped) => {
                let access = self.access.duplicate();
                (
                    RecoveryPhase::StartingBridge { rest },
                    RecoveryAction::StartBridge { bind: self.bind.clone(), route, access },
                )
            },
            (RecoveryPhase::StartingBridge { rest }, RecoveryEvent::BridgeStarted(wa)) => {
                data.put(KEY_INLET_WORKER, ScratchValue::Worker(wa));
                (
                    RecoveryPhase::Done,
                    RecoveryAction::Succeed { new_ping: without_outlet_address(rest) },
                )
            },
            (RecoveryPhase::StartingBridge { .. }, RecoveryEvent::BridgeStartFailed(m)) => (
                RecoveryPhase::Failed,
                RecoveryAction::Fail(RecoveryError::WorkerStartFailed(m)),
            ),
            _ => {
                // Unreachable: the compatibility precondition excludes
                // every other pairing.
                (RecoveryPhase::Failed, RecoveryAction::Fail(RecoveryError::Timeout))
            },
        }
    }

    /// Emits the first dial of the rebuild: the original target, the
    /// original constraint.
    fn start_dialing(&self) -> (r: (RecoveryPhase, RecoveryAction))
        ensures
            r.0.wf(),
            spec_dial_start_post(*self, r),
    {
        let (cp, req) = connect_start(&self.target, &self.auth);
        (RecoveryPhase::Dialing(cp), RecoveryAction::Dial(req))
    }

    /// Resolves the rebuilt remaining address into a route and decides
    /// whether the previous worker must be stopped first.
    fn proceed(&self, data: &Data, rest: Addr) -> (r: (RecoveryPhase, RecoveryAction))
        ensures
            r.0.wf(),
            spec_proceed_post(*self, *data, r, rest.view()),
    {
        match local_multiaddr_to_route(&rest) {
            Some(route) => {
                match data.get_worker(KEY_INLET_WORKER) {
                    Some(w) => (
                        RecoveryPhase::StoppingBridge { rest, route },
                        RecoveryAction::StopBridge(w),
                    ),
                    None => {
                        let access = self.access.duplicate();
                        (
                            RecoveryPhase::StartingBridge { rest },
                            RecoveryAction::StartBridge {
                                bind: self.bind.clone(),
                                route,
                                access,
                            },
                        )
                    },
                }
            },
            None => (RecoveryPhase::Failed, RecoveryAction::Fail(RecoveryError::InvalidRoute)),
        }
    }
}

/// Whether this dial outcome, in this connection phase, requires a second
/// hop.
fn needs_second(cp: &ConnectPhase, outcome: &ConnectionResult) -> (r: bool)
    ensures
        r == (cp is FirstDial && spec_needs_second_hop(
            outcome.secure_channel.view(),
            outcome.suffix.view(),
        )),
{
    match cp {
        ConnectPhase::FirstDial => crate::connection::needs_second_hop(outcome),
        _ => false,
    }
}

} // verus!
