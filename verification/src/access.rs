//! The access-control resolver.
//!
//! A capability is an immutable predicate-like object bound to a resource,
//! an action and an optional trust scope. It is attached to a bridge worker
//! at creation and must be reused unchanged across recovery.

use crate::addr::{Addr, PROTO_PROJECT};
use crate::registry::{spec_get, AliasMap};
use vstd::prelude::*;

verus! {

/// The action every bridge worker is gated on.
pub const ACTION_HANDLE_MESSAGE: &'static str = "handle_message";

/// The default resource name of an inlet without an alias of its own.
pub const RESOURCE_INLET: &'static str = "tcp-inlet";

/// The default resource name of an outlet without an alias of its own.
pub const RESOURCE_OUTLET: &'static str = "tcp-outlet";

/// An authorization capability for one (resource, action) pair.
#[derive(Debug)]
pub enum Capability {
    /// The default capability when credential checking is disabled:
    /// permissive within the transport.
    Transport,
    /// A capability bound to a trust scope.
    Scoped {
        /// The resource gated.
        resource: String,
        /// The action gated.
        action: String,
        /// The trust scope whose credentials are acceptable.
        scope: String,
    },
}

/// Whether two capabilities are the same object, field for field.
pub open spec fn spec_cap_eq(a: Capability, b: Capability) -> bool {
    match (a, b) {
        (Capability::Transport, Capability::Transport) => true,
        (
            Capability::Scoped { resource: r1, action: a1, scope: s1 },
            Capability::Scoped { resource: r2, action: a2, scope: s2 },
        ) => r1@ == r2@ && a1@ == a2@ && s1@ == s2@,
        _ => false,
    }
}

impl Capability {
    /// A copy of this capability, the same object field for field.
    pub fn duplicate(&self) -> (r: Capability)
        ensures
            spec_cap_eq(r, *self),
    {
        match self {
            Capability::Transport => Capability::Transport,
            Capability::Scoped { resource, action, scope } => Capability::Scoped {
                resource: resource.clone(),
                action: action.clone(),
                scope: scope.clone(),
            },
        }
    }
}

/// Sameness of capabilities is transitive.
pub proof fn lemma_cap_eq_trans(a: Capability, b: Capability, c: Capability)
    requires
        spec_cap_eq(a, b),
        spec_cap_eq(b, c),
    ensures
        spec_cap_eq(a, c),
{
}

/// Computes the capability for a (resource, action) pair. When credential
/// checking is disabled the scope is ignored and the default transport
/// capability is produced; when enabled, a resolvable scope is required and
/// its absence is the one failure.
pub fn access_control(checks_enabled: bool, resource: &str, action: &str, scope: Option<String>)
    -> (r: Result<Capability, ()>)
    ensures
        !checks_enabled ==> (r matches Ok(c) && c is Transport),
        checks_enabled ==> match scope {
            Some(s) => r matches Ok(c) && (c matches Capability::Scoped {
                resource: rr,
                action: aa,
                scope: ss,
            } && rr@ == resource@ && aa@ == action@ && ss@ == s@),
            None => r is Err,
        },
{
    if !checks_enabled {
        Ok(Capability::Transport)
    } else {
        match scope {
            Some(s) => Ok(
                Capability::Scoped {
                    resource: resource.to_owned(),
                    action: action.to_owned(),
                    scope: s,
                },
            ),
            None => Err(()),
        }
    }
}

/// The trust scope a target address implies: the identifier of the project
/// its first segment names, when the node knows that project, else the
/// node's own trust-context identifier, when one is configured.
pub open spec fn spec_scope_of(
    target: Seq<(u64, Seq<char>)>,
    projects: Seq<(String, String)>,
    trust_context: Option<Seq<char>>,
) -> Option<Seq<char>> {
    if target.len() > 0 && target[0].0 == PROTO_PROJECT {
        match spec_get(projects, target[0].1) {
            Some(id) => Some(id@),
            None => trust_context,
        }
    } else {
        trust_context
    }
}

/// Resolves the trust scope for a target address, as [`spec_scope_of`]
/// describes.
pub fn derive_scope(target: &Addr, projects: &AliasMap<String>, trust_context: &Option<String>)
    -> (r: Option<String>)
    ensures
        match r {
            Some(s) => spec_scope_of(
                target.view(),
                projects.entries@,
                match trust_context {
                    Some(t) => Some(t@),
                    None => None,
                },
            ) == Some(s@),
            None => spec_scope_of(
                target.view(),
                projects.entries@,
                match trust_context {
                    Some(t) => Some(t@),
                    None => None,
                },
            ) is None,
        },
{
    let from_project: Option<String> = match target.first() {
        Some(seg) => {
            if seg.code == PROTO_PROJECT {
                match projects.get(&seg.data) {
                    Some(id) => Some(id.clone()),
                    None => None,
                }
            } else {
                None
            }
        },
        None => None,
    };
    match from_project {
        Some(id) => Some(id),
        None => {
            match trust_context {
                Some(t) => Some(t.clone()),
                None => None,
            }
        },
    }
}

} // verus!
