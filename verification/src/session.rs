//! Sessions: the recovery context attached to a bridge whose route crosses
//! a secure channel.
//!
//! A session holds a small typed key/value scratch store and the recovery
//! strategy for its bridge. It is created at successful bridge creation,
//! consulted and mutated on every recovery attempt, and dropped when the
//! bridge is deleted.

use crate::addr::Addr;
use crate::recovery::RecoveryStrategy;
use crate::registry::AliasMap;
use vstd::prelude::*;

verus! {

/// The scratch key under which a session records its bridge worker's
/// current address.
pub const KEY_INLET_WORKER: &'static str = "inlet-worker";

/// The scratch key under which a session records the outer secure channel,
/// when a second hop was needed.
pub const KEY_OUTER_CHAN: &'static str = "outer-chan";

/// The two scratch keys are distinct: a session's worker entry never
/// collides with its outer-channel entry.
pub proof fn lemma_scratch_keys_distinct()
    ensures
        KEY_INLET_WORKER@ != KEY_OUTER_CHAN@,
{
    reveal_strlit("inlet-worker");
    reveal_strlit("outer-chan");
    assert(KEY_INLET_WORKER@.len() == 12);
    assert(KEY_OUTER_CHAN@.len() == 10);
}

/// A value of the scratch store: the two kinds the engine records.
#[derive(Debug)]
pub enum ScratchValue {
    /// A portable address, used for the outer secure channel.
    Chan(Addr),
    /// A worker address, used for the bridge worker.
    Worker(String),
}

impl ScratchValue {
    /// A copy of this value.
    pub fn duplicate(&self) -> (r: ScratchValue)
        ensures
            match (self, r) {
                (ScratchValue::Chan(a), ScratchValue::Chan(b)) => a.view() == b.view(),
                (ScratchValue::Worker(a), ScratchValue::Worker(b)) => a@ == b@,
                _ => false,
            },
    {
        match self {
            ScratchValue::Chan(a) => ScratchValue::Chan(a.duplicate()),
            ScratchValue::Worker(w) => ScratchValue::Worker(w.clone()),
        }
    }
}

/// A session's scratch store: a typed key/value space.
#[derive(Debug)]
pub struct Data {
    /// The bindings.
    pub store: AliasMap<ScratchValue>,
}

impl Data {
    /// Well-formedness: no key is bound twice.
    pub open spec fn wf(&self) -> bool {
        self.store.wf()
    }

    /// The value bound to `k`.
    pub open spec fn spec_index(&self, k: Seq<char>) -> Option<ScratchValue> {
        self.store.spec_index(k)
    }

    /// An empty store.
    pub fn new() -> (r: Data)
        ensures
            r.wf(),
            forall|k: Seq<char>| r.spec_index(k) is None,
    {
        Data { store: AliasMap::new() }
    }

    /// Binds `k` to `v`, replacing any earlier binding.
    pub fn put(&mut self, k: &str, v: ScratchValue)
        requires
            old(self).wf(),
        ensures
            final(self).wf(),
            final(self).spec_index(k@) == Some(v),
            forall|k2: Seq<char>|
                k2 != k@ ==> #[trigger] final(self).spec_index(k2) == old(self).spec_index(k2),
    {
        self.store.insert(k.to_owned(), v);
    }

    /// The address bound to `k`, when `k` is bound to one.
    pub fn get_chan(&self, k: &str) -> (r: Option<Addr>)
        ensures
            match r {
                Some(a) => self.spec_index(k@) matches Some(ScratchValue::Chan(c)) && a.view()
                    == c.view(),
                None => !(self.spec_index(k@) matches Some(ScratchValue::Chan(_))),
            },
    {
        match self.store.get(k) {
            Some(ScratchValue::Chan(a)) => Some(a.duplicate()),
            _ => None,
        }
    }

    /// The worker address bound to `k`, when `k` is bound to one.
    pub fn get_worker(&self, k: &str) -> (r: Option<String>)
        ensures
            match r {
                Some(w) => self.spec_index(k@) matches Some(ScratchValue::Worker(x)) && w@ == x@,
                None => !(self.spec_index(k@) matches Some(ScratchValue::Worker(_))),
            },
    {
        match self.store.get(k) {
            Some(ScratchValue::Worker(w)) => Some(w.clone()),
            _ => None,
        }
    }
}

/// Where a session stands.
#[derive(Debug, Copy, Clone, PartialEq, Eq, Structural)]
pub enum SessionStatus {
    /// The route is installed and the worker running.
    Active,
    /// A recovery attempt is under way.
    Recovering,
    /// The last recovery attempt failed; the session keeps its last-known
    /// state and a later attempt may try again.
    Failed,
}

/// The recovery context of one bridge; the node keeps sessions keyed by
/// the bridge's alias.
#[derive(Debug)]
pub struct Session {
    /// The address whose liveness the external monitor pings.
    pub ping_addr: Addr,
    /// The scratch store.
    pub data: Data,
    /// The recovery strategy.
    pub strategy: RecoveryStrategy,
    /// Where the session stands.
    pub status: SessionStatus,
}

impl Session {
    /// Well-formedness: the scratch store binds no key twice.
    pub open spec fn wf(&self) -> bool {
        self.data.wf()
    }

    /// A new, active session with an empty scratch store.
    pub fn new(ping_addr: Addr, strategy: RecoveryStrategy) -> (r: Session)
        ensures
            r.wf(),
            r.ping_addr == ping_addr,
            r.strategy == strategy,
            r.status == SessionStatus::Active,
            forall|k: Seq<char>| r.data.spec_index(k) is None,
    {
        Session { ping_addr, data: Data::new(), strategy, status: SessionStatus::Active }
    }
}

} // verus!
