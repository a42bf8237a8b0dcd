//! The portal lifecycle controller: creating, deleting, showing and listing
//! TCP inlets and outlets.
//!
//! Dialing secure channels and starting or stopping bridge workers are
//! outside work; creation is therefore a small state machine per request,
//! and deletion is split around the worker stop. Everything that decides —
//! alias resolution, route derivation, trust-scope resolution, registry and
//! session bookkeeping, and the statuses reported back — is here.

use crate::access::{
    access_control, derive_scope, spec_cap_eq, spec_scope_of, Capability, ACTION_HANDLE_MESSAGE,
    RESOURCE_INLET, RESOURCE_OUTLET,
};
use crate::addr::{
    local_multiaddr_to_route, spec_all_local, spec_route_of, spec_without_outlet_address,
    without_outlet_address, Addr, Route,
};
use crate::api::Status;
use crate::connection::{
    connect_on_dial, connect_start, spec_needs_second_hop, ConnectPhase, ConnectionResult,
    DialRequest,
};
use crate::recovery::RecoveryStrategy;
use crate::registry::{sorted_aliases, spec_sorted_names, AliasMap, InletInfo, OutletInfo, Registry};
use crate::session::{ScratchValue, Session, KEY_INLET_WORKER, KEY_OUTER_CHAN};
use crate::text::{concat2, concat3, hex8, spec_join};
use vstd::prelude::*;

verus! {

/// The shared state of one node, mutated under exclusive access.
#[derive(Debug)]
pub struct NodeState {
    /// The alias registries.
    pub registry: Registry,
    /// The sessions of bridges whose route crosses a secure channel, keyed
    /// by the bridge's alias.
    pub sessions: AliasMap<Session>,
    /// Whether credential checking is enabled on this node.
    pub enable_credential_checks: bool,
    /// The projects the node knows, name to identifier.
    pub projects: AliasMap<String>,
    /// The node's configured trust-context identifier, if any.
    pub trust_context_id: Option<String>,
    /// Whether the node runs its default secure-channel listener, whose
    /// senders outlets additionally accept.
    pub has_secure_listener: bool,
}

impl NodeState {
    /// Well-formedness: the registries and session store bind no alias
    /// twice, and every session is itself well-formed.
    pub open spec fn wf(&self) -> bool {
        &&& self.registry.wf()
        &&& self.sessions.wf()
        &&& self.projects.wf()
        &&& forall|k: Seq<char>|
            #[trigger] self.sessions.spec_index(k) matches Some(s) ==> s.wf()
    }

    /// A fresh node state with empty registries.
    pub fn new(enable_credential_checks: bool, trust_context_id: Option<String>, has_secure_listener: bool)
        -> (r: NodeState)
        ensures
            r.wf(),
            r.enable_credential_checks == enable_credential_checks,
            r.trust_context_id == trust_context_id,
            r.has_secure_listener == has_secure_listener,
            forall|k: Seq<char>| r.registry.inlets.spec_index(k) is None,
            forall|k: Seq<char>| r.registry.outlets.spec_index(k) is None,
            forall|k: Seq<char>| r.sessions.spec_index(k) is None,
    {
        NodeState {
            registry: Registry::new(),
            sessions: AliasMap::new(),
            enable_credential_checks,
            projects: AliasMap::new(),
            trust_context_id,
            has_secure_listener,
        }
    }
}

/// A request to create an inlet.
#[derive(Debug)]
pub struct CreateInlet {
    /// The local socket the inlet will listen on.
    pub listen_addr: String,
    /// The target address to resolve into the outlet route.
    pub outlet_addr: Addr,
    /// The alias to register the inlet under; one is generated when absent.
    pub alias: Option<String>,
    /// The identity the first secure-channel hop must authenticate.
    pub authorized: Option<String>,
}

/// A request to create an outlet.
#[derive(Debug)]
pub struct CreateOutlet {
    /// The TCP target the outlet forwards to.
    pub tcp_addr: String,
    /// The worker address the outlet listens at in the overlay.
    pub worker_addr: String,
    /// The alias to register the outlet under; one is generated when
    /// absent.
    pub alias: Option<String>,
}

/// The reported state of one inlet.
#[derive(Debug)]
pub struct InletStatus {
    /// The local socket the inlet listens on.
    pub bind_addr: String,
    /// The worker serving the bridge; absent when creation failed.
    pub worker_addr: Option<String>,
    /// The alias the inlet is registered under.
    pub alias: String,
    /// The failure, when the reported operation did not succeed.
    pub error: Option<String>,
    /// The route the inlet forwards into, rendered textually.
    pub outlet_route: String,
}

/// The reported state of one outlet.
#[derive(Debug)]
pub struct OutletStatus {
    /// The TCP target the outlet forwards to.
    pub tcp_addr: String,
    /// The worker serving the bridge; absent when creation failed.
    pub worker_addr: Option<String>,
    /// The alias the outlet is registered under.
    pub alias: String,
    /// The failure, when the reported operation did not succeed.
    pub error: Option<String>,
}

/// The textual rendering of a route: its hops joined by arrows.
pub open spec fn spec_route_text(hops: Seq<Seq<char>>) -> Seq<char> {
    spec_join(hops, " => "@)
}

/// Renders a route textually, as [`spec_route_text`] describes.
pub fn route_text(route: &Route) -> (r: String)
    ensures
        r@ == spec_route_text(route@.map_values(|p: String| p@)),
{
    crate::text::join(route, " => ")
}

/// A fresh, human-friendly alias: eight random hexadecimal digits.
pub fn random_alias() -> (r: String)
    ensures
        r@.len() == 8,
{
    let v: u32 = rand::random();
    hex8(v)
}

/// The alias a request resolves to: the given one, else a fresh one.
fn resolve_alias(given: &Option<String>) -> (r: String)
    ensures
        match given {
            Some(a) => r@ == a@,
            None => r@.len() == 8,
        },
{
    match given {
        Some(a) => a.clone(),
        None => random_alias(),
    }
}

/// What the inlet-creation machine asks the driver to do next.
#[derive(Debug)]
pub enum InletAction {
    /// Establish a secure channel as requested.
    Dial(DialRequest),
    /// Start the TCP-listening bridge worker.
    StartInlet {
        /// The local socket to listen on.
        bind: String,
        /// The route the worker forwards into.
        route: Route,
        /// The capability gating the worker.
        access: Capability,
    },
    /// Creation ended before any worker was attempted; respond as given.
    Respond {
        /// The response status.
        status: Status,
        /// The response body.
        body: InletStatus,
    },
    /// The request itself failed; the message is surfaced as a
    /// request-level error.
    Fail(String),
}

/// Where an inlet creation stands.
#[derive(Debug)]
pub enum InletPhase {
    /// Resolving the target address.
    Connecting(ConnectPhase),
    /// The worker start is out.
    AwaitWorker {
        /// The outer secure channel when two hops were needed, else empty.
        outer: Addr,
        /// The resolved remaining address.
        rest: Addr,
        /// Its route.
        route: Route,
        /// The capability attached to the worker.
        access: Capability,
        /// Whether the resolution established any secure channel: such a
        /// bridge needs a session.
        secured: bool,
    },
    /// Creation ended.
    Finished,
}

impl InletPhase {
    /// Shape invariant, as for the recovery engine's phases.
    pub open spec fn wf(&self) -> bool {
        match self {
            InletPhase::Connecting(cp) => cp.wf() && !(cp is Done),
            InletPhase::AwaitWorker { rest, route, .. } => route@.map_values(|p: String| p@)
                == spec_route_of(rest.view()) && spec_all_local(rest.view()),
            InletPhase::Finished => true,
        }
    }
}

/// One inlet creation in progress.
#[derive(Debug)]
pub struct InletCreator {
    /// The local socket the inlet will listen on.
    pub bind: String,
    /// The original target address.
    pub target: Addr,
    /// The alias the inlet registers under.
    pub alias: String,
    /// The authorization constraint on the first hop.
    pub auth: Option<String>,
    /// The resource the access-control capability is computed for: the
    /// given alias, or the inlet default.
    pub resource: String,
    /// Where the creation stands.
    pub phase: InletPhase,
}

impl InletCreator {
    /// Begins creating an inlet: the target address is dialed first, under
    /// the request's authorization constraint.
    pub fn start(req: CreateInlet) -> (r: (InletCreator, InletAction))
        ensures
            r.0.phase.wf(),
            r.0.phase matches InletPhase::Connecting(cp) && cp is FirstDial,
            r.0.bind@ == req.listen_addr@,
            r.0.target.view() == req.outlet_addr.view(),
            match (req.alias, r.0.alias) {
                (Some(a), al) => al@ == a@,
                (None, al) => al@.len() == 8,
            },
            match (req.authorized, r.0.auth) {
                (Some(a), Some(b)) => a@ == b@,
                (None, None) => true,
                _ => false,
            },
            r.0.resource@ == match req.alias {
                Some(a) => a@,
                None => RESOURCE_INLET@,
            },
            r.1 matches InletAction::Dial(d) && d.target.view() == req.outlet_addr.view() && (
            match (d.auth, req.authorized) {
                (Some(a), Some(b)) => a@ == b@,
                (None, None) => true,
                _ => false,
            }),
    {
        let alias = resolve_alias(&req.alias);
        let resource = match &req.alias {
            Some(a) => a.clone(),
            None => RESOURCE_INLET.to_owned(),
        };
        let (cp, dial) = connect_start(&req.outlet_addr, &req.authorized);
        let creator = InletCreator {
            bind: req.listen_addr,
            target: req.outlet_addr,
            alias,
            auth: req.authorized,
            resource,
            phase: InletPhase::Connecting(cp),
        };
        (creator, InletAction::Dial(dial))
    }

    /// Consumes a dial outcome and steps the creation.
    ///
    /// When the first dial established a channel and left a
    /// forwarder-to-secure-channel suffix, a second dial follows, toward
    /// the channel extended by the two matched segments. Otherwise the
    /// resolution is complete: an address not representable as a route is
    /// answered `400 BadRequest "invalid outlet route"`; an enabled
    /// credential check without a resolvable trust scope fails the request;
    /// and in every other case the capability is computed and the worker
    /// start is emitted.
    pub fn on_dial_ok(self, state: &NodeState, outcome: ConnectionResult) -> (r: (
        InletCreator,
        InletAction,
    ))
        requires
            self.phase matches InletPhase::Connecting(cp) && cp.wf() && !(cp is Done),
        ensures
            r.0.phase.wf(),
            r.0.bind == self.bind && r.0.target == self.target && r.0.alias == self.alias
                && r.0.auth == self.auth && r.0.resource == self.resource,
            ({
                let cp = self.phase->Connecting_0;
                let two_hop = cp is FirstDial && spec_needs_second_hop(
                    outcome.secure_channel.view(),
                    outcome.suffix.view(),
                );
                let restv = if cp is FirstDial {
                    outcome.secure_channel.view() + outcome.suffix.view()
                } else {
                    outcome.secure_channel.view() + cp->SecondDial_suffix.view().skip(2)
                };
                let outerv = if cp is FirstDial {
                    Seq::<(u64, Seq<char>)>::empty()
                } else {
                    cp->SecondDial_outer.view()
                };
                let sec = if cp is FirstDial {
                    outcome.secure_channel.view().len() > 0
                } else {
                    true
                };
                let scope = spec_scope_of(
                    self.target.view(),
                    state.projects.entries@,
                    match state.trust_context_id {
                        Some(t) => Some(t@),
                        None => None,
                    },
                );
                &&& two_hop ==> {
                    &&& (r.0.phase matches InletPhase::Connecting(cp2) && (cp2 matches
                        ConnectPhase::SecondDial { outer, suffix } && outer.view()
                        == outcome.secure_channel.view() && suffix.view()
                        == outcome.suffix.view()))
                    &&& (r.1 matches InletAction::Dial(d) && d.target.view()
                        == outcome.secure_channel.view() + outcome.suffix.view().take(2)
                        && d.auth is None)
                }
                &&& (!two_hop && !spec_all_local(restv)) ==> (r.0.phase is Finished && (
                r.1 matches InletAction::Respond { status, body } && status == Status::BadRequest
                    && body.worker_addr is None && (body.error matches Some(m) && m@
                    == "invalid outlet route"@)))
                &&& (!two_hop && spec_all_local(restv) && state.enable_credential_checks
                    && scope is None) ==> (r.0.phase is Finished && (
                r.1 matches InletAction::Fail(m) && m@ == "credential check requires project"@))
                &&& (!two_hop && spec_all_local(restv) && !(state.enable_credential_checks
                    && scope is None)) ==> {
                    &&& (r.0.phase matches InletPhase::AwaitWorker {
                        outer,
                        rest,
                        route,
                        access: _,
                        secured,
                    } && outer.view() == outerv && rest.view() == restv && route@.map_values(
                        |p: String| p@,
                    ) == spec_route_of(restv) && secured == sec)
                    &&& (r.1 matches InletAction::StartInlet { bind, route, access } && bind@
                        == self.bind@ && route@.map_values(|p: String| p@) == spec_route_of(restv)
                        && spec_cap_eq(r.0.phase->AwaitWorker_access, access) && (
                    !state.enable_credential_checks ==> access is Transport) && (
                    state.enable_credential_checks ==> (access matches Capability::Scoped {
                        resource,
                        action,
                        scope: cscope,
                    } && resource@ == self.resource@ && action@ == ACTION_HANDLE_MESSAGE@ && Some(
                        cscope@,
                    ) == scope)))
                }
            }),
    {
        let InletCreator { bind, target, alias, auth, resource, phase } = self;
        let cp = match phase {
            InletPhase::Connecting(cp) => cp,
            _ => vstd::pervasive::unreached(),
        };
        let secured = match &cp {
            ConnectPhase::FirstDial => !outcome.secure_channel.is_empty(),
            _ => true,
        };
        let (cp2, req) = connect_on_dial(cp, outcome);
        match cp2 {
            ConnectPhase::Done { outer, rest } => {
                proof {
                    if outer.view().len() == 0 {
                        assert(outer.view() =~= Seq::<(u64, Seq<char>)>::empty());
                    }
                }
                match local_multiaddr_to_route(&rest) {
                    Some(route) => {
                        let scope = derive_scope(&target, &state.projects, &state.trust_context_id);
                        if state.enable_credential_checks && scope.is_none() {
                            return (
                                InletCreator {
                                    bind,
                                    target,
                                    alias,
                                    auth,
                                    resource,
                                    phase: InletPhase::Finished,
                                },
                                InletAction::Fail("credential check requires project".to_owned()),
                            );
                        }
                        let access = match access_control(
                            state.enable_credential_checks,
                            resource.as_str(),
                            ACTION_HANDLE_MESSAGE,
                            scope,
                        ) {
                            Ok(c) => c,
                            // Unreachable: a missing scope was already
                            // answered above.
                            Err(_) => vstd::pervasive::unreached(),
                        };
                        let route2 = dup_route(&route);
                        let access2 = access.duplicate();
                        let bind2 = bind.clone();
                        (
                            InletCreator {
                                bind,
                                target,
                                alias,
                                auth,
                                resource,
                                phase: InletPhase::AwaitWorker {
                                    outer,
                                    rest,
                                    route,
                                    access,
                                    secured,
                                },
                            },
                            InletAction::StartInlet {
                                bind: bind2,
                                route: route2,
                                access: access2,
                            },
                        )
                    },
                    None => (
                        InletCreator {
                            bind,
                            target,
                            alias,
                            auth,
                            resource,
                            phase: InletPhase::Finished,
                        },
                        InletAction::Respond {
                            status: Status::BadRequest,
                            body: InletStatus {
                                bind_addr: String::new(),
                                worker_addr: None,
                                alias: String::new(),
                                error: Some("invalid outlet route".to_owned()),
                                outlet_route: String::new(),
                            },
                        },
                    ),
                }
            },
            other => {
                match req {
                    Some(d) => (
                        InletCreator {
                            bind,
                            target,
                            alias,
                            auth,
                            resource,
                            phase: InletPhase::Connecting(other),
                        },
                        InletAction::Dial(d),
                    ),
                    // Unreachable: an unfinished connect phase always
                    // carries the next dial.
                    None => vstd::pervasive::unreached(),
                }
            },
        }
    }

    /// A dial failed: creation fails as a request-level error, before any
    /// registry entry is made.
    pub fn on_dial_err(self, message: String) -> (r: (InletCreator, InletAction))
        ensures
            r.0.phase is Finished,
            r.1 matches InletAction::Fail(m) && m@ == message@,
    {
        let InletCreator { bind, target, alias, auth, resource, phase: _ } = self;
        (
            InletCreator { bind, target, alias, auth, resource, phase: InletPhase::Finished },
            InletAction::Fail(message),
        )
    }

    /// Consumes the worker-start outcome and records the bridge.
    ///
    /// The registry entry is made whether or not the worker started: a
    /// failed creation reserves the alias, with no worker address and the
    /// error kept visible. On success, when the resolved route traversed at
    /// least one secure channel, a session is registered under the same
    /// alias, seeded with the worker's address and — when a second, outer
    /// channel was needed — that outer channel, and carrying the recovery
    /// strategy with the original target, constraint and the very
    /// capability attached to the worker.
    pub fn on_worker(self, state: &mut NodeState, outcome: Result<String, String>) -> (r: (
        Status,
        InletStatus,
    ))
        requires
            old(state).wf(),
            self.phase is AwaitWorker,
        ensures
            final(state).wf(),
            ({
                let route = self.phase->AwaitWorker_route;
                let outer = self.phase->AwaitWorker_outer;
                let rest = self.phase->AwaitWorker_rest;
                let access = self.phase->AwaitWorker_access;
                let secured = self.phase->AwaitWorker_secured;
                &&& (final(state).registry.inlets.spec_index(self.alias@) matches Some(info)
                    && info.bind_addr@ == self.bind@ && info.outlet_route@.map_values(
                    |p: String| p@,
                ) == route@.map_values(|p: String| p@) && (match (outcome, info.worker_addr) {
                    (Ok(wa), Some(w)) => w@ == wa@,
                    (Err(_), None) => true,
                    _ => false,
                }))
                &&& forall|k2: Seq<char>|
                    k2 != self.alias@ ==> #[trigger] final(state).registry.inlets.spec_index(k2)
                        == old(state).registry.inlets.spec_index(k2)
                &&& final(state).registry.outlets == old(state).registry.outlets
                &&& r.0 == (match outcome {
                    Ok(_) => Status::Okay,
                    Err(_) => Status::BadRequest,
                })
                &&& r.1.alias@ == self.alias@
                &&& r.1.bind_addr@ == self.bind@
                &&& r.1.outlet_route@ == spec_route_text(route@.map_values(|p: String| p@))
                &&& (match (outcome, r.1.worker_addr) {
                    (Ok(wa), Some(w)) => w@ == wa@ && r.1.error is None,
                    (Err(e), None) => r.1.error matches Some(m) && m@ == e@,
                    _ => false,
                })
                &&& (outcome is Ok && secured) ==> (final(state).sessions.spec_index(self.alias@)
                    matches Some(sess) && sess.strategy.bind@ == self.bind@
                    && sess.strategy.target.view() == self.target.view() && spec_cap_eq(
                    sess.strategy.access,
                    access,
                ) && (match (sess.strategy.auth, self.auth) {
                    (Some(a), Some(b)) => a@ == b@,
                    (None, None) => true,
                    _ => false,
                }) && sess.ping_addr.view() == spec_without_outlet_address(rest.view())
                    && sess.status is Active && (sess.data.spec_index(KEY_INLET_WORKER@)
                    matches Some(ScratchValue::Worker(w)) && w@ == outcome->Ok_0@) && (
                outer.view().len() > 0 ==> (sess.data.spec_index(KEY_OUTER_CHAN@) matches Some(
                    ScratchValue::Chan(c),
                ) && c.view() == outer.view())) && (outer.view().len() == 0
                    ==> sess.data.spec_index(KEY_OUTER_CHAN@) is None))
                &&& (outcome is Ok && secured) ==> forall|k2: Seq<char>|
                    k2 != self.alias@ ==> #[trigger] final(state).sessions.spec_index(k2) == old(state).sessions.spec_index(k2)
                &&& !(outcome is Ok && secured) ==> final(state).sessions == old(state).sessions
            }),
    {
        let InletCreator { bind, target, alias, auth, resource: _, phase } = self;
        let (outer, rest, route, access, secured) = match phase {
            InletPhase::AwaitWorker { outer, rest, route, access, secured } => (
                outer,
                rest,
                route,
                access,
                secured,
            ),
            _ => vstd::pervasive::unreached(),
        };
        match outcome {
            Ok(wa) => {
                let info = InletInfo {
                    bind_addr: bind.clone(),
                    worker_addr: Some(wa.clone()),
                    outlet_route: dup_route(&route),
                };
                state.registry.inlets.insert(alias.clone(), info);
                if secured {
                    proof {
                        crate::session::lemma_scratch_keys_distinct();
                    }
                    let strategy = RecoveryStrategy {
                        bind: bind.clone(),
                        target,
                        auth,
                        access: access.duplicate(),
                    };
                    let mut session = Session::new(without_outlet_address(rest), strategy);
                    session.data.put(KEY_INLET_WORKER, ScratchValue::Worker(wa.clone()));
                    if outer.len() > 0 {
                        session.data.put(KEY_OUTER_CHAN, ScratchValue::Chan(outer));
                    }
                    state.sessions.insert(alias.clone(), session);
                    proof {
                        assert forall|k: Seq<char>|
                            (#[trigger] state.sessions.spec_index(k)) is Some implies (
                        state.sessions.spec_index(k)->Some_0).wf() by {
                            if k != alias@ {
                                assert(state.sessions.spec_index(k) == old(
                                    state,
                                ).sessions.spec_index(k));
                            }
                        }
                    }
                }
                let body = InletStatus {
                    bind_addr: bind,
                    worker_addr: Some(wa),
                    alias,
                    error: None,
                    outlet_route: route_text(&route),
                };
                (Status::Okay, body)
            },
            Err(e) => {
                let info = InletInfo {
                    bind_addr: bind.clone(),
                    worker_addr: None,
                    outlet_route: dup_route(&route),
                };
                state.registry.inlets.insert(alias.clone(), info);
                let body = InletStatus {
                    bind_addr: bind,
                    worker_addr: None,
                    alias,
                    error: Some(e),
                    outlet_route: route_text(&route),
                };
                (Status::BadRequest, body)
            },
        }
    }
}

/// The worker address the node would report for an inlet alias: the
/// recorded one when the alias is bound and its bridge runs, nothing
/// otherwise.
pub open spec fn spec_shown_inlet_worker(st: NodeState, alias: Seq<char>) -> Option<Seq<char>> {
    match st.registry.inlets.spec_index(alias) {
        Some(info) => match info.worker_addr {
            Some(w) => Some(w@),
            None => None,
        },
        None => None,
    }
}

/// A created bridge is reported with a worker address exactly when its
/// creation succeeded: once creation has recorded the alias — with a worker
/// on success, without one on failure — showing that alias reflects the
/// outcome.
pub proof fn lemma_show_reflects_creation(st: NodeState, alias: Seq<char>, info: InletInfo)
    requires
        st.registry.inlets.spec_index(alias) == Some(info),
    ensures
        spec_shown_inlet_worker(st, alias) is Some <==> info.worker_addr is Some,
{
}

/// Shows one inlet: its status when the alias is bound, `404 NotFound`
/// otherwise.
pub fn show_inlet(state: &NodeState, alias: &str) -> (r: (Status, InletStatus))
    ensures
        r.1.alias@ == alias@,
        match state.registry.inlets.spec_index(alias@) {
            Some(info) => r.0 == Status::Okay && r.1.bind_addr@ == info.bind_addr@
                && r.1.error is None && r.1.outlet_route@ == spec_route_text(
                info.outlet_route@.map_values(|p: String| p@),
            ),
            None => r.0 == Status::NotFound && r.1.worker_addr is None && r.1.bind_addr@.len()
                == 0 && (r.1.error matches Some(m) && m@ == "Inlet with alias "@ + alias@
                + " not found"@),
        },
        (match r.1.worker_addr {
            Some(w) => Some(w@),
            None => None::<Seq<char>>,
        }) == spec_shown_inlet_worker(*state, alias@),
{
    match state.registry.inlets.get(alias) {
        Some(info) => {
            let worker = match &info.worker_addr {
                Some(w) => Some(w.clone()),
                None => None,
            };
            (
                Status::Okay,
                InletStatus {
                    bind_addr: info.bind_addr.clone(),
                    worker_addr: worker,
                    alias: alias.to_owned(),
                    error: None,
                    outlet_route: route_text(&info.outlet_route),
                },
            )
        },
        None => (
            Status::NotFound,
            InletStatus {
                bind_addr: String::new(),
                worker_addr: None,
                alias: alias.to_owned(),
                error: Some(concat3("Inlet with alias ", alias, " not found")),
                outlet_route: String::new(),
            },
        ),
    }
}

/// Removes one inlet from the registry, dropping its session with it; the
/// driver then stops the worker and reports the outcome to
/// [`delete_inlet_finish`]. Deleting an absent alias reports `404 NotFound`
/// and changes nothing; a second deletion of the same alias therefore
/// reports `404 NotFound` as well.
pub fn delete_inlet_begin(state: &mut NodeState, alias: &str) -> (r: Result<
    InletInfo,
    (Status, InletStatus),
>)
    requires
        old(state).wf(),
    ensures
        final(state).wf(),
        final(state).registry.inlets.spec_index(alias@) is None,
        final(state).sessions.spec_index(alias@) is None,
        forall|k2: Seq<char>|
            k2 != alias@ ==> #[trigger] final(state).registry.inlets.spec_index(k2) == old(
                state,
            ).registry.inlets.spec_index(k2),
        forall|k2: Seq<char>|
            k2 != alias@ ==> #[trigger] final(state).sessions.spec_index(k2) == old(
                state,
            ).sessions.spec_index(k2),
        final(state).registry.outlets == old(state).registry.outlets,
        match r {
            Ok(info) => old(state).registry.inlets.spec_index(alias@) == Some(info),
            Err((st, body)) => old(state).registry.inlets.spec_index(alias@) is None && st
                == Status::NotFound && body.alias@ == alias@ && body.worker_addr is None && (
            body.error matches Some(m) && m@ == "Inlet with alias "@ + alias@ + " not found"@),
        },
{
    let removed = state.registry.inlets.remove(alias);
    let _ = state.sessions.remove(alias);
    proof {
        assert forall|k: Seq<char>| (#[trigger] state.sessions.spec_index(k)) is Some implies (
        state.sessions.spec_index(k)->Some_0).wf() by {
            if k != alias@ {
                assert(state.sessions.spec_index(k) == old(state).sessions.spec_index(k));
            }
        }
    }
    match removed {
        Some(info) => Ok(info),
        None => Err(
            (
                Status::NotFound,
                InletStatus {
                    bind_addr: String::new(),
                    worker_addr: None,
                    alias: alias.to_owned(),
                    error: Some(concat3("Inlet with alias ", alias, " not found")),
                    outlet_route: String::new(),
                },
            ),
        ),
    }
}

/// Reports the outcome of an inlet deletion, given whether the worker
/// stopped. The registry entry is already gone either way: a failed stop is
/// reported as `500 InternalServerError`, not rolled back.
pub fn delete_inlet_finish(alias: &str, info: InletInfo, stopped: bool) -> (r: (
    Status,
    InletStatus,
))
    ensures
        r.1.alias@ == alias@,
        r.1.bind_addr@ == info.bind_addr@,
        (match (r.1.worker_addr, info.worker_addr) {
            (Some(a), Some(b)) => a@ == b@,
            (None, None) => true,
            _ => false,
        }),
        r.1.outlet_route@ == spec_route_text(info.outlet_route@.map_values(|p: String| p@)),
        stopped ==> r.0 == Status::Okay && r.1.error is None,
        !stopped ==> r.0 == Status::InternalServerError && (r.1.error matches Some(m) && m@
            == "Failed to remove inlet with alias "@ + alias@),
{
    let InletInfo { bind_addr, worker_addr, outlet_route } = info;
    let text = route_text(&outlet_route);
    if stopped {
        (
            Status::Okay,
            InletStatus {
                bind_addr,
                worker_addr,
                alias: alias.to_owned(),
                error: None,
                outlet_route: text,
            },
        )
    } else {
        (
            Status::InternalServerError,
            InletStatus {
                bind_addr,
                worker_addr,
                alias: alias.to_owned(),
                error: Some(concat2("Failed to remove inlet with alias ", alias)),
                outlet_route: text,
            },
        )
    }
}

/// A snapshot of all registered inlets, in ascending alias order,
/// independent of liveness.
pub fn get_inlets(state: &NodeState) -> (r: Vec<InletStatus>)
    requires
        state.wf(),
    ensures
        r@.len() == state.registry.inlets.entries@.len(),
        spec_sorted_names(r@.map_values(|st: InletStatus| st.alias)),
        forall|i: int|
            0 <= i < r@.len() ==> {
                &&& state.registry.inlets.spec_index((#[trigger] r@[i]).alias@) matches Some(info)
                    && r@[i].bind_addr@ == info.bind_addr@ && (match (
                    r@[i].worker_addr,
                    info.worker_addr,
                ) {
                    (Some(a), Some(b)) => a@ == b@,
                    (None, None) => true,
                    _ => false,
                }) && r@[i].outlet_route@ == spec_route_text(
                    info.outlet_route@.map_values(|p: String| p@),
                )
                &&& r@[i].error is None
            },
        forall|k: Seq<char>|
            (#[trigger] state.registry.inlets.spec_index(k)) is Some ==> exists|i: int|
                0 <= i < r@.len() && r@[i].alias@ == k,
{
    let keys = sorted_aliases(&state.registry.inlets);
    let mut out: Vec<InletStatus> = Vec::new();
    let mut i: usize = 0;
    while i < keys.len()
        invariant
            0 <= i <= keys@.len(),
            out@.len() == i,
            spec_sorted_names(keys@),
            forall|x: int|
                0 <= x < keys@.len() ==> (#[trigger] state.registry.inlets.spec_index(
                    keys@[x]@,
                )) is Some,
            forall|x: int| 0 <= x < i ==> (#[trigger] out@[x]).alias@ == keys@[x]@,
            forall|x: int|
                0 <= x < i ==> {
                    &&& state.registry.inlets.spec_index((#[trigger] out@[x]).alias@)
                        matches Some(info) && out@[x].bind_addr@ == info.bind_addr@ && (match (
                        out@[x].worker_addr,
                        info.worker_addr,
                    ) {
                        (Some(a), Some(b)) => a@ == b@,
                        (None, None) => true,
                        _ => false,
                    }) && out@[x].outlet_route@ == spec_route_text(
                        info.outlet_route@.map_values(|p: String| p@),
                    )
                    &&& out@[x].error is None
                },
        decreases keys@.len() - i,
    {
        let key = &keys[i];
        match state.registry.inlets.get(key.as_str()) {
            Some(info) => {
                let worker = match &info.worker_addr {
                    Some(w) => Some(w.clone()),
                    None => None,
                };
                out.push(
                    InletStatus {
                        bind_addr: info.bind_addr.clone(),
                        worker_addr: worker,
                        alias: key.clone(),
                        error: None,
                        outlet_route: route_text(&info.outlet_route),
                    },
                );
            },
            // Unreachable: every listed alias is bound.
            None => vstd::pervasive::unreached(),
        }
        i = i + 1;
    }
    proof {
        let aliases = out@.map_values(|st: InletStatus| st.alias);
        assert forall|x: int, y: int|
            0 <= x < y < aliases.len() implies crate::text::spec_lex_le(
            (#[trigger] aliases[x])@,
            (#[trigger] aliases[y])@,
        ) by {
            assert(aliases[x] == out@[x].alias && aliases[y] == out@[y].alias);
            assert(out@[x].alias@ == keys@[x]@ && out@[y].alias@ == keys@[y]@);
        }
        assert forall|k: Seq<char>|
            (#[trigger] state.registry.inlets.spec_index(k)) is Some implies exists|i2: int|
            0 <= i2 < out@.len() && out@[i2].alias@ == k by {
            let x = choose|x: int| 0 <= x < keys@.len() && keys@[x]@ == k;
            assert(out@[x].alias@ == k);
        }
    }
    out
}

/// What the outlet-creation machine asks the driver to do next.
#[derive(Debug)]
pub enum OutletAction {
    /// Start the TCP-connecting bridge worker.
    StartOutlet {
        /// The worker address the outlet listens at in the overlay.
        worker_addr: String,
        /// The TCP target it forwards to.
        tcp_addr: String,
        /// The capability gating the worker.
        access: Capability,
        /// Whether the worker additionally accepts senders of the node's
        /// default secure-channel listener.
        accept_default_listener: bool,
    },
    /// The request itself failed; the message is surfaced as a
    /// request-level error.
    Fail(String),
}

/// One outlet creation in progress.
#[derive(Debug)]
pub struct OutletCreator {
    /// The TCP target the outlet forwards to.
    pub tcp_addr: String,
    /// The worker address the outlet listens at.
    pub worker_addr: String,
    /// The alias the outlet registers under.
    pub alias: String,
}

impl OutletCreator {
    /// Begins creating an outlet: the capability is computed — from the
    /// node's trust context when credential checking is enabled, which must
    /// then be configured — and the worker start is emitted.
    pub fn start(req: CreateOutlet, state: &NodeState) -> (r: (OutletCreator, OutletAction))
        ensures
            r.0.tcp_addr@ == req.tcp_addr@,
            r.0.worker_addr@ == req.worker_addr@,
            match (req.alias, r.0.alias) {
                (Some(a), al) => al@ == a@,
                (None, al) => al@.len() == 8,
            },
            (state.enable_credential_checks && state.trust_context_id is None) ==> (
            r.1 matches OutletAction::Fail(m) && m@ == "credential check requires trust context"@),
            !(state.enable_credential_checks && state.trust_context_id is None) ==> (
            r.1 matches OutletAction::StartOutlet {
                worker_addr,
                tcp_addr,
                access,
                accept_default_listener,
            } && worker_addr@ == req.worker_addr@ && tcp_addr@ == req.tcp_addr@
                && accept_default_listener == state.has_secure_listener && (
            state.enable_credential_checks ==> (access matches Capability::Scoped {
                resource,
                action,
                scope,
            } && action@ == ACTION_HANDLE_MESSAGE@ && scope@
                == state.trust_context_id->Some_0@ && resource@ == (match req.alias {
                Some(a) => a@,
                None => RESOURCE_OUTLET@,
            }))) && (!state.enable_credential_checks ==> access is Transport)),
    {
        let alias = resolve_alias(&req.alias);
        let resource = match &req.alias {
            Some(a) => a.clone(),
            None => RESOURCE_OUTLET.to_owned(),
        };
        let creator = OutletCreator {
            tcp_addr: req.tcp_addr,
            worker_addr: req.worker_addr,
            alias,
        };
        if state.enable_credential_checks && state.trust_context_id.is_none() {
            return (
                creator,
                OutletAction::Fail("credential check requires trust context".to_owned()),
            );
        }
        let scope = match &state.trust_context_id {
            Some(t) => Some(t.clone()),
            None => None,
        };
        let access = match access_control(
            state.enable_credential_checks,
            resource.as_str(),
            ACTION_HANDLE_MESSAGE,
            scope,
        ) {
            Ok(c) => c,
            // Unreachable: an enabled check without a trust context was
            // already answered above.
            Err(_) => vstd::pervasive::unreached(),
        };
        let worker_addr = creator.worker_addr.clone();
        let tcp_addr = creator.tcp_addr.clone();
        (
            creator,
            OutletAction::StartOutlet {
                worker_addr,
                tcp_addr,
                access,
                accept_default_listener: state.has_secure_listener,
            },
        )
    }

    /// Consumes the worker-start outcome and records the bridge. The
    /// registry entry is made whether or not the worker started: a failed
    /// creation reserves the alias, with no worker address recorded and the
    /// error kept visible.
    pub fn on_worker(self, state: &mut NodeState, outcome: Result<(), String>) -> (r: (
        Status,
        OutletStatus,
    ))
        requires
            old(state).wf(),
        ensures
            final(state).wf(),
            (final(state).registry.outlets.spec_index(self.alias@) matches Some(info)
                && info.tcp_addr@ == self.tcp_addr@ && (match (outcome, info.worker_addr) {
                (Ok(_), Some(w)) => w@ == self.worker_addr@,
                (Err(_), None) => true,
                _ => false,
            })),
            forall|k2: Seq<char>|
                k2 != self.alias@ ==> #[trigger] final(state).registry.outlets.spec_index(k2)
                    == old(state).registry.outlets.spec_index(k2),
            final(state).registry.inlets == old(state).registry.inlets,
            final(state).sessions == old(state).sessions,
            r.0 == (match outcome {
                Ok(_) => Status::Okay,
                Err(_) => Status::BadRequest,
            }),
            r.1.alias@ == self.alias@,
            r.1.tcp_addr@ == self.tcp_addr@,
            (r.1.worker_addr matches Some(w) && w@ == self.worker_addr@),
            (match (outcome, r.1.error) {
                (Ok(_), None) => true,
                (Err(e), Some(m)) => m@ == e@,
                _ => false,
            }),
    {
        let OutletCreator { tcp_addr, worker_addr, alias } = self;
        match outcome {
            Ok(_) => {
                let info = OutletInfo {
                    tcp_addr: tcp_addr.clone(),
                    worker_addr: Some(worker_addr.clone()),
                };
                state.registry.outlets.insert(alias.clone(), info);
                (
                    Status::Okay,
                    OutletStatus {
                        tcp_addr,
                        worker_addr: Some(worker_addr),
                        alias,
                        error: None,
                    },
                )
            },
            Err(e) => {
                let info = OutletInfo { tcp_addr: tcp_addr.clone(), worker_addr: None };
                state.registry.outlets.insert(alias.clone(), info);
                (
                    Status::BadRequest,
                    OutletStatus {
                        tcp_addr,
                        worker_addr: Some(worker_addr),
                        alias,
                        error: Some(e),
                    },
                )
            },
        }
    }
}

/// Shows one outlet: its status when the alias is bound, `404 NotFound`
/// otherwise.
pub fn show_outlet(state: &NodeState, alias: &str) -> (r: (Status, OutletStatus))
    ensures
        r.1.alias@ == alias@,
        match state.registry.outlets.spec_index(alias@) {
            Some(info) => r.0 == Status::Okay && r.1.tcp_addr@ == info.tcp_addr@
                && r.1.error is None && (match (r.1.worker_addr, info.worker_addr) {
                (Some(a), Some(b)) => a@ == b@,
                (None, None) => true,
                _ => false,
            }),
            None => r.0 == Status::NotFound && r.1.worker_addr is None && r.1.tcp_addr@.len()
                == 0 && (r.1.error matches Some(m) && m@ == "Outlet with alias "@ + alias@
                + " not found"@),
        },
{
    match state.registry.outlets.get(alias) {
        Some(info) => {
            let worker = match &info.worker_addr {
                Some(w) => Some(w.clone()),
                None => None,
            };
            (
                Status::Okay,
                OutletStatus {
                    tcp_addr: info.tcp_addr.clone(),
                    worker_addr: worker,
                    alias: alias.to_owned(),
                    error: None,
                },
            )
        },
        None => (
            Status::NotFound,
            OutletStatus {
                tcp_addr: String::new(),
                worker_addr: None,
                alias: alias.to_owned(),
                error: Some(concat3("Outlet with alias ", alias, " not found")),
            },
        ),
    }
}

/// Removes one outlet from the registry; the driver then stops the worker
/// and reports the outcome to [`delete_outlet_finish`]. Deleting an absent
/// alias reports `404 NotFound` and changes nothing; a second deletion of
/// the same alias therefore reports `404 NotFound` as well.
pub fn delete_outlet_begin(state: &mut NodeState, alias: &str) -> (r: Result<
    OutletInfo,
    (Status, OutletStatus),
>)
    requires
        old(state).wf(),
    ensures
        final(state).wf(),
        final(state).registry.outlets.spec_index(alias@) is None,
        forall|k2: Seq<char>|
            k2 != alias@ ==> #[trigger] final(state).registry.outlets.spec_index(k2) == old(
                state,
            ).registry.outlets.spec_index(k2),
        final(state).registry.inlets == old(state).registry.inlets,
        final(state).sessions == old(state).sessions,
        match r {
            Ok(info) => old(state).registry.outlets.spec_index(alias@) == Some(info),
            Err((st, body)) => old(state).registry.outlets.spec_index(alias@) is None && st
                == Status::NotFound && body.alias@ == alias@ && body.worker_addr is None && (
            body.error matches Some(m) && m@ == "Outlet with alias "@ + alias@ + " not found"@),
        },
{
    match state.registry.outlets.remove(alias) {
        Some(info) => Ok(info),
        None => Err(
            (
                Status::NotFound,
                OutletStatus {
                    tcp_addr: String::new(),
                    worker_addr: None,
                    alias: alias.to_owned(),
                    error: Some(concat3("Outlet with alias ", alias, " not found")),
                },
            ),
        ),
    }
}

/// Reports the outcome of an outlet deletion, given whether the worker
/// stopped. The registry entry is already gone either way: a failed stop is
/// reported as `500 InternalServerError`, not rolled back.
pub fn delete_outlet_finish(alias: &str, info: OutletInfo, stopped: bool) -> (r: (
    Status,
    OutletStatus,
))
    ensures
        r.1.alias@ == alias@,
        r.1.tcp_addr@ == info.tcp_addr@,
        (match (r.1.worker_addr, info.worker_addr) {
            (Some(a), Some(b)) => a@ == b@,
            (None, None) => true,
            _ => false,
        }),
        stopped ==> r.0 == Status::Okay && r.1.error is None,
        !stopped ==> r.0 == Status::InternalServerError && (r.1.error matches Some(m) && m@
            == "Failed to remove outlet with alias "@ + alias@),
{
    let OutletInfo { tcp_addr, worker_addr } = info;
    if stopped {
        (
            Status::Okay,
            OutletStatus { tcp_addr, worker_addr, alias: alias.to_owned(), error: None },
        )
    } else {
        (
            Status::InternalServerError,
            OutletStatus {
                tcp_addr,
                worker_addr,
                alias: alias.to_owned(),
                error: Some(concat2("Failed to remove outlet with alias ", alias)),
            },
        )
    }
}

/// A snapshot of all registered outlets, in ascending alias order,
/// independent of liveness.
pub fn get_outlets(state: &NodeState) -> (r: Vec<OutletStatus>)
    requires
        state.wf(),
    ensures
        r@.len() == state.registry.outlets.entries@.len(),
        spec_sorted_names(r@.map_values(|st: OutletStatus| st.alias)),
        forall|i: int|
            0 <= i < r@.len() ==> {
                &&& state.registry.outlets.spec_index((#[trigger] r@[i]).alias@) matches Some(
                    info,
                ) && r@[i].tcp_addr@ == info.tcp_addr@ && (match (
                    r@[i].worker_addr,
                    info.worker_addr,
                ) {
                    (Some(a), Some(b)) => a@ == b@,
                    (None, None) => true,
                    _ => false,
                })
                &&& r@[i].error is None
            },
        forall|k: Seq<char>|
            (#[trigger] state.registry.outlets.spec_index(k)) is Some ==> exists|i: int|
                0 <= i < r@.len() && r@[i].alias@ == k,
{
    let keys = sorted_aliases(&state.registry.outlets);
    let mut out: Vec<OutletStatus> = Vec::new();
    let mut i: usize = 0;
    while i < keys.len()
        invariant
            0 <= i <= keys@.len(),
            out@.len() == i,
            spec_sorted_names(keys@),
            forall|x: int|
                0 <= x < keys@.len() ==> (#[trigger] state.registry.outlets.spec_index(
                    keys@[x]@,
                )) is Some,
            forall|x: int| 0 <= x < i ==> (#[trigger] out@[x]).alias@ == keys@[x]@,
            forall|x: int|
                0 <= x < i ==> {
                    &&& state.registry.outlets.spec_index((#[trigger] out@[x]).alias@)
                        matches Some(info) && out@[x].tcp_addr@ == info.tcp_addr@ && (match (
                        out@[x].worker_addr,
                        info.worker_addr,
                    ) {
                        (Some(a), Some(b)) => a@ == b@,
                        (None, None) => true,
                        _ => false,
                    })
                    &&& out@[x].error is None
                },
        decreases keys@.len() - i,
    {
        let key = &keys[i];
        match state.registry.outlets.get(key.as_str()) {
            Some(info) => {
                let worker = match &info.worker_addr {
                    Some(w) => Some(w.clone()),
                    None => None,
                };
                out.push(
                    OutletStatus {
                        tcp_addr: info.tcp_addr.clone(),
                        worker_addr: worker,
                        alias: key.clone(),
                        error: None,
                    },
                );
            },
            // Unreachable: every listed alias is bound.
            None => vstd::pervasive::unreached(),
        }
        i = i + 1;
    }
    proof {
        let aliases = out@.map_values(|st: OutletStatus| st.alias);
        assert forall|x: int, y: int|
            0 <= x < y < aliases.len() implies crate::text::spec_lex_le(
            (#[trigger] aliases[x])@,
            (#[trigger] aliases[y])@,
        ) by {
            assert(aliases[x] == out@[x].alias && aliases[y] == out@[y].alias);
            assert(out@[x].alias@ == keys@[x]@ && out@[y].alias@ == keys@[y]@);
        }
        assert forall|k: Seq<char>|
            (#[trigger] state.registry.outlets.spec_index(k)) is Some implies exists|i2: int|
            0 <= i2 < out@.len() && out@[i2].alias@ == k by {
            let x = choose|x: int| 0 <= x < keys@.len() && keys@[x]@ == k;
            assert(out@[x].alias@ == k);
        }
    }
    out
}

/// A copy of a route.
fn dup_route(r: &Route) -> (out: Route)
    ensures
        out@.map_values(|p: String| p@) =~= r@.map_values(|p: String| p@),
{
    let mut hops: Vec<String> = Vec::new();
    let mut i: usize = 0;
    while i < r.len()
        invariant
            0 <= i <= r@.len(),
            hops@.len() == i,
            forall|k: int| 0 <= k < i ==> (#[trigger] hops@[k])@ == r@[k]@,
        decreases r@.len() - i,
    {
        hops.push(r[i].clone());
        i = i + 1;
    }
    hops
}

} // verus!
