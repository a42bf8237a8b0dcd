//! The connection builder.
//!
//! Resolving a target address may require establishing one secure channel,
//! or two when the first dial leaves a forwarder-to-secure-channel suffix.
//! Dialing itself is outside work: the builder is a state machine that
//! emits dial requests and consumes their outcomes, and the driver performs
//! the dials between steps.

use crate::addr::{spec_matches, Addr, PROTO_SECURE, PROTO_SERVICE};
use vstd::prelude::*;

verus! {

/// What one dial produced: the address of the secure channel established
/// (empty when none was needed) and the remaining, not-yet-dialed portion
/// of the target.
#[derive(Debug)]
pub struct ConnectionResult {
    /// The established secure channel, possibly empty.
    pub secure_channel: Addr,
    /// The remaining portion of the target address.
    pub suffix: Addr,
}

/// A dial the driver is asked to perform.
#[derive(Debug)]
pub struct DialRequest {
    /// The address to establish a secure channel toward.
    pub target: Addr,
    /// The identity the channel must authenticate as its peer, if the
    /// caller constrained one.
    pub auth: Option<String>,
}

/// Where the builder stands between dials.
#[derive(Debug)]
pub enum ConnectPhase {
    /// The first dial is out.
    FirstDial,
    /// A second hop is required; the first dial's channel and suffix are
    /// kept for assembling the final route.
    SecondDial {
        /// The secure channel of the first dial.
        outer: Addr,
        /// The suffix the first dial left.
        suffix: Addr,
    },
    /// Resolution finished.
    Done {
        /// The outer secure channel when two hops were needed, else empty.
        outer: Addr,
        /// The assembled remaining address: what the bridge dials into.
        rest: Addr,
    },
}

impl ConnectPhase {
    /// A suffix kept for a second hop always carries the two matched
    /// pattern segments.
    pub open spec fn wf(&self) -> bool {
        match self {
            ConnectPhase::SecondDial { suffix, .. } => suffix.view().len() >= 2,
            _ => true,
        }
    }
}

/// The forwarder-to-secure-channel pattern: a second hop is required
/// exactly when the first dial established a channel and left a suffix
/// whose first two segments are a generic service and a secure-channel
/// marker. This shape test is the single place that policy lives.
pub open spec fn spec_needs_second_hop(sc: Seq<(u64, Seq<char>)>, suffix: Seq<(u64, Seq<char>)>)
    -> bool {
    sc.len() > 0 && spec_matches(suffix, 0, seq![PROTO_SERVICE, PROTO_SECURE])
}

/// Whether a first dial's outcome requires a second hop, as
/// [`spec_needs_second_hop`] describes.
pub fn needs_second_hop(c: &ConnectionResult) -> (r: bool)
    ensures
        r == spec_needs_second_hop(c.secure_channel.view(), c.suffix.view()),
{
    let codes: Vec<u64> = two_hop_pattern();
    !c.secure_channel.is_empty() && c.suffix.matches(0, codes.as_slice())
}

/// The two protocol codes of the forwarder-to-secure-channel pattern.
fn two_hop_pattern() -> (r: Vec<u64>)
    ensures
        r@ =~= seq![PROTO_SERVICE, PROTO_SECURE],
{
    let mut v: Vec<u64> = Vec::new();
    v.push(PROTO_SERVICE);
    v.push(PROTO_SECURE);
    v
}

/// Begins resolving `target`: the first dial goes to the target itself,
/// under the caller's authorization constraint.
pub fn connect_start(target: &Addr, auth: &Option<String>) -> (r: (ConnectPhase, DialRequest))
    ensures
        r.0 is FirstDial,
        r.0.wf(),
        r.1.target.view() == target.view(),
        match (r.1.auth, auth) {
            (Some(a), Some(b)) => a@ == b@,
            (None, None) => true,
            _ => false,
        },
{
    let a = match auth {
        Some(x) => Some(x.clone()),
        None => None,
    };
    (ConnectPhase::FirstDial, DialRequest { target: target.duplicate(), auth: a })
}

/// Consumes one dial's outcome and steps the builder.
///
/// After the first dial: when the outcome requires no second hop, the
/// builder finishes with an empty outer channel and the channel followed by
/// the suffix as the remaining address — a single-hop result. When it does,
/// the builder asks for one more dial, toward the channel extended by the
/// two matched segments, unconstrained. After the second dial the builder
/// finishes with the first channel as the outer one, and the second channel
/// followed by the suffix beyond the two matched segments as the remaining
/// address.
pub fn connect_on_dial(phase: ConnectPhase, outcome: ConnectionResult) -> (r: (
    ConnectPhase,
    Option<DialRequest>,
))
    requires
        !(phase is Done),
        phase.wf(),
    ensures
        r.0.wf(),
        (phase is FirstDial && !spec_needs_second_hop(
            outcome.secure_channel.view(),
            outcome.suffix.view(),
        )) ==> (r.0 matches ConnectPhase::Done { outer, rest } && outer.view().len() == 0
            && rest.view() == outcome.secure_channel.view() + outcome.suffix.view()
            && r.1 is None),
        (phase is FirstDial && spec_needs_second_hop(
            outcome.secure_channel.view(),
            outcome.suffix.view(),
        )) ==> (r.0 matches ConnectPhase::SecondDial { outer, suffix } && outer.view()
            == outcome.secure_channel.view() && suffix.view() == outcome.suffix.view() && (
        r.1 matches Some(d) && d.target.view() == outcome.secure_channel.view()
            + outcome.suffix.view().take(2) && d.auth is None)),
        phase matches ConnectPhase::SecondDial { outer: po, suffix: ps } ==> (
        r.0 matches ConnectPhase::Done { outer, rest } && outer.view() == po.view() && rest.view()
            == outcome.secure_channel.view() + ps.view().skip(2) && r.1 is None),
{
    match phase {
        ConnectPhase::FirstDial => {
            if needs_second_hop(&outcome) {
                let inner = outcome.secure_channel.concat(&outcome.suffix.first_n(2));
                (
                    ConnectPhase::SecondDial {
                        outer: outcome.secure_channel,
                        suffix: outcome.suffix,
                    },
                    Some(DialRequest { target: inner, auth: None }),
                )
            } else {
                let rest = outcome.secure_channel.concat(&outcome.suffix);
                (ConnectPhase::Done { outer: Addr::empty(), rest }, None)
            }
        },
        ConnectPhase::SecondDial { outer, suffix } => {
            let rest = outcome.secure_channel.concat(&suffix.skip_n(2));
            (ConnectPhase::Done { outer, rest }, None)
        },
        ConnectPhase::Done { outer, rest } => {
            (ConnectPhase::Done { outer, rest }, None)
        },
    }
}

} // verus!
