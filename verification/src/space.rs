//! Deleting a space: the decisions of the client-side flow.
//!
//! The flow first removes the space from the local configuration (best
//! effort, in case the cloud no longer knows it), looks the space up by
//! name, and — only when the lookup succeeds — sends the deletion request
//! and checks the reply, removing the configuration entry once more
//! afterwards. Configuration access, the lookup and the exchange itself are
//! outside work performed by a driver between steps.

use crate::api::{spec_decode_response, spec_encode_request, Method, Request, Status};
use vstd::prelude::*;
use vstd::string::StringExecFns;

verus! {

/// A request to delete a space by name.
#[derive(Debug)]
pub struct DeleteCommand {
    /// The name of the space.
    pub name: String,
}

/// Where the flow stands.
#[derive(Debug)]
pub enum SpacePhase {
    /// The first configuration removal is out.
    RemovingConfig,
    /// The lookup is out.
    LookingUp,
    /// The deletion request is out.
    AwaitReply,
    /// The second configuration removal is out.
    RemovingConfigAgain,
    /// The flow ended.
    Done,
}

/// What the flow asks the driver to do next.
#[derive(Debug)]
pub enum SpaceAction {
    /// Remove the named space from the local configuration; best effort.
    RemoveConfigEntry(String),
    /// Look the named space up and report its identifier.
    LookupSpace(String),
    /// Send these encoded bytes as the deletion request and report the
    /// reply.
    SendRequest {
        /// The request header the bytes encode.
        header: Request,
        /// The encoded request.
        bytes: Vec<u8>,
    },
    /// The flow ended with this outcome.
    Finish(Result<(), String>),
}

/// What the driver reports back.
#[derive(Debug)]
pub enum SpaceEvent {
    /// The configuration removal finished (best effort: also when there was
    /// nothing to remove).
    ConfigRemoved,
    /// The lookup found the space, with this identifier.
    LookupOk(String),
    /// The lookup failed: the space does not exist in the cloud.
    LookupFailed,
    /// The reply to the deletion request, as received.
    ReplyReceived(Vec<u8>),
}

/// Which events can answer which phase.
pub open spec fn spec_space_compatible(phase: SpacePhase, event: SpaceEvent) -> bool {
    match phase {
        SpacePhase::RemovingConfig => event is ConfigRemoved,
        SpacePhase::LookingUp => event is LookupOk || event is LookupFailed,
        SpacePhase::AwaitReply => event is ReplyReceived,
        SpacePhase::RemovingConfigAgain => event is ConfigRemoved,
        SpacePhase::Done => false,
    }
}

/// The resource path of the deletion request for a space identifier.
pub open spec fn spec_space_path(id: Seq<char>) -> Seq<char> {
    "/v0/spaces/"@ + id
}

impl DeleteCommand {
    /// Begins the flow: the space is first removed from the local
    /// configuration, in case the cloud no longer knows it.
    pub fn run(&self) -> (r: (SpacePhase, SpaceAction))
        ensures
            r.0 is RemovingConfig,
            r.1 matches SpaceAction::RemoveConfigEntry(n) && n@ == self.name@,
    {
        (SpacePhase::RemovingConfig, SpaceAction::RemoveConfigEntry(self.name.clone()))
    }

    /// Consumes one event and steps the flow.
    ///
    /// A failed lookup ends the flow successfully: the space does not exist,
    /// so there is nothing to delete. A successful lookup sends a DELETE
    /// request for the space's resource path; a reply that decodes with
    /// status `200 Ok` leads to the second configuration removal and then
    /// success, any other reply ends the flow with the reply's error
    /// message.
    pub fn step(&self, phase: SpacePhase, event: SpaceEvent) -> (r: (SpacePhase, SpaceAction))
        requires
            spec_space_compatible(phase, event),
        ensures
            phase is RemovingConfig ==> (r.0 is LookingUp && (
            r.1 matches SpaceAction::LookupSpace(n) && n@ == self.name@)),
            (phase is LookingUp && event is LookupFailed) ==> (r.0 is Done && (r.1 matches
                SpaceAction::Finish(o) && o is Ok)),
            (phase is LookingUp && event is LookupOk) ==> (r.0 is AwaitReply && (
            r.1 matches SpaceAction::SendRequest { header, bytes } && bytes@
                == spec_encode_request(header) && header.method == Some(Method::Delete)
                && header.path@ == spec_space_path(event->LookupOk_0@) && !header.has_body)),
            (phase is AwaitReply && event is ReplyReceived) ==> {
                match spec_decode_response(event->ReplyReceived_0@, 0) {
                    Some((_, _, st, hb, j)) => {
                        if st == Some(Status::Okay) {
                            r.0 is RemovingConfigAgain && (
                            r.1 matches SpaceAction::RemoveConfigEntry(n) && n@ == self.name@)
                        } else {
                            r.0 is Done && (r.1 matches SpaceAction::Finish(o) && o is Err)
                        }
                    },
                    None => r.0 is Done && (r.1 matches SpaceAction::Finish(o) && o is Err),
                }
            },
            phase is RemovingConfigAgain ==> (r.0 is Done && (
            r.1 matches SpaceAction::Finish(o) && o is Ok)),
    {
        match (phase, event) {
            (SpacePhase::RemovingConfig, _) => (
                SpacePhase::LookingUp,
                SpaceAction::LookupSpace(self.name.clone()),
            ),
            (SpacePhase::LookingUp, SpaceEvent::LookupFailed) => (
                SpacePhase::Done,
                SpaceAction::Finish(Ok(())),
            ),
            (SpacePhase::LookingUp, SpaceEvent::LookupOk(id)) => {
                let mut path = "/v0/spaces/".to_owned();
                path.append(id.as_str());
                let builder = Request::delete(path.as_str());
                let bytes = builder.to_vec();
                let (header, _) = builder.into_parts();
                (SpacePhase::AwaitReply, SpaceAction::SendRequest { header, bytes })
            },
            (SpacePhase::AwaitReply, SpaceEvent::ReplyReceived(bytes)) => {
                match crate::api::is_ok("delete space", bytes.as_slice()) {
                    Ok(_) => (
                        SpacePhase::RemovingConfigAgain,
                        SpaceAction::RemoveConfigEntry(self.name.clone()),
                    ),
                    Err(e) => (SpacePhase::Done, SpaceAction::Finish(Err(e.message))),
                }
            },
            (SpacePhase::RemovingConfigAgain, _) => (
                SpacePhase::Done,
                SpaceAction::Finish(Ok(())),
            ),
            // Unreachable: the compatibility precondition excludes every
            // other pairing.
            _ => (SpacePhase::Done, SpaceAction::Finish(Ok(()))),
        }
    }
}

} // verus!
