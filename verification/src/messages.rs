//! The plain request, response and event records of the service.

use vstd::prelude::*;

verus! {

/// A declared SHA-256 digest. Well-formed declarations hold 32 bytes; an
/// empty one counts as no declaration at all.
#[derive(Clone, Debug, Default, PartialEq, Eq)]
pub struct Sha256 {
    pub bytes32: Vec<u8>,
}

/// A byte-exact document with an optional declared digest and a schema tag.
#[derive(Clone, Debug, Default, PartialEq, Eq)]
pub struct CanonicalJsonDocument {
    pub canonical_json_utf8: Vec<u8>,
    pub sha256: Option<Sha256>,
    pub schema_id: String,
}

impl CanonicalJsonDocument {
    /// The bytes of the declared digest, if one is attached.
    pub open spec fn declared_digest(&self) -> Option<Seq<u8>> {
        match self.sha256 {
            Some(sha) => Some(sha.bytes32@),
            None => None,
        }
    }
}

/// Names one run.
#[derive(Clone, Debug, Default, PartialEq, Eq)]
pub struct RunHandle {
    pub run_id: String,
}

/// One record of a run's history.
#[derive(Clone, Debug, Default, PartialEq, Eq)]
pub struct RunEvent {
    pub event_seq: u64,
    pub payload: Vec<u8>,
}

/// What a `RunEvent` holds: its place in the run's history and its payload.
pub struct EventRecord {
    pub sequence: nat,
    pub payload: Seq<u8>,
}

impl View for RunEvent {
    type V = EventRecord;

    open spec fn view(&self) -> EventRecord {
        EventRecord { sequence: self.event_seq as nat, payload: self.payload@ }
    }
}

/// Asks for a run's events from a given sequence number on.
#[derive(Clone, Debug, Default, PartialEq, Eq)]
pub struct StreamRunEventsRequest {
    pub handle: Option<RunHandle>,
    pub since_event_seq: i64,
}

/// Asks to apply a patch document to a run's graph.
#[derive(Clone, Debug, Default, PartialEq, Eq)]
pub struct ApplyGraphPatchRequest {
    pub handle: Option<RunHandle>,
    pub patch: Option<CanonicalJsonDocument>,
    pub actor_id: String,
}

/// Whether a patch was accepted, and if not, why.
#[derive(Clone, Debug, Default, PartialEq, Eq)]
pub struct ApplyGraphPatchResponse {
    pub accepted: bool,
    pub rejection_reason: String,
}

/// What an `ApplyGraphPatchResponse` says.
pub struct PatchDecision {
    pub accepted: bool,
    pub rejection_reason: Seq<char>,
}

impl View for ApplyGraphPatchResponse {
    type V = PatchDecision;

    open spec fn view(&self) -> PatchDecision {
        PatchDecision { accepted: self.accepted, rejection_reason: self.rejection_reason@ }
    }
}

/// Asks to start a run under a contract manifest and a policy.
#[derive(Clone, Debug, Default, PartialEq, Eq)]
pub struct SubmitRunRequest {
    pub contract_manifest: Option<CanonicalJsonDocument>,
    pub policy: Option<CanonicalJsonDocument>,
}

/// The answer to an accepted submission.
#[derive(Clone, Debug, Default, PartialEq, Eq)]
pub struct SubmitRunResponse {}

/// The answer to a cancellation.
#[derive(Clone, Debug, Default, PartialEq, Eq)]
pub struct CancelRunResponse {}

/// The answer to a lookup of one run.
#[derive(Clone, Debug, Default, PartialEq, Eq)]
pub struct GetRunResponse {}

/// The answer to a listing of runs.
#[derive(Clone, Debug, Default, PartialEq, Eq)]
pub struct ListRunsResponse {}

/// The answer to a request for a run's composite graph.
#[derive(Clone, Debug, Default, PartialEq, Eq)]
pub struct GetCompositeGraphResponse {}

/// The answer to a request for a run's logs.
#[derive(Clone, Debug, Default, PartialEq, Eq)]
pub struct GetLogsResponse {}

} // verus!
