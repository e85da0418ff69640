//! The service: the registry of runs and the operations on them.

use crate::broker::{BrokerPhase, BrokerState, RunEventStream};
use crate::event_log::{backlog_from, gapless, InMemoryEventLog};
use crate::hex::{bytes_to_hex, hex_string};
use crate::integrity::{
    document_outcome, malformed_digest_status, outcome_of, verify_canonical_sha256,
    DigestOutcome, Sha256Verification,
};
use crate::messages::{
    ApplyGraphPatchRequest, ApplyGraphPatchResponse, CancelRunResponse, CanonicalJsonDocument,
    EventRecord, GetCompositeGraphResponse, GetLogsResponse, GetRunResponse, ListRunsResponse,
    PatchDecision, StreamRunEventsRequest, SubmitRunRequest, SubmitRunResponse,
};
use crate::status::{Code, Status, StatusView};
use vstd::prelude::*;
use vstd::string::*;

verus! {

/// One run and its log.
#[derive(Debug)]
pub struct RunEntry {
    run_id: String,
    log: InMemoryEventLog,
}

/// The runs that a sequence of entries registers: each run id with the
/// history of its log. Of two entries with one id the earlier one counts.
pub closed spec fn registry(runs: Seq<RunEntry>) -> Map<Seq<char>, Seq<EventRecord>>
    decreases runs.len(),
{
    if runs.len() == 0 {
        Map::empty()
    } else {
        let earlier = registry(runs.drop_last());
        let last = runs.last();
        if earlier.contains_key(last.run_id@) {
            earlier
        } else {
            earlier.insert(last.run_id@, last.log@)
        }
    }
}

proof fn lemma_registry_miss(runs: Seq<RunEntry>, id: Seq<char>)
    requires
        forall|j: int| 0 <= j < runs.len() ==> (#[trigger] runs[j]).run_id@ != id,
    ensures
        !registry(runs).contains_key(id),
    decreases runs.len(),
{
    if runs.len() > 0 {
        assert(runs.last() == runs[runs.len() - 1]);
        assert forall|j: int| 0 <= j < runs.drop_last().len() implies (#[trigger] runs.drop_last()[j]).run_id@
            != id by {
            assert(runs.drop_last()[j] == runs[j]);
        }
        lemma_registry_miss(runs.drop_last(), id);
    }
}

proof fn lemma_registry_hit(runs: Seq<RunEntry>, at: int, id: Seq<char>)
    requires
        0 <= at < runs.len(),
        runs[at].run_id@ == id,
        forall|j: int| 0 <= j < at ==> (#[trigger] runs[j]).run_id@ != id,
    ensures
        registry(runs).contains_key(id),
        registry(runs)[id] == runs[at].log@,
    decreases runs.len(),
{
    let earlier = runs.drop_last();
    if at == runs.len() - 1 {
        assert forall|j: int| 0 <= j < earlier.len() implies (#[trigger] earlier[j]).run_id@
            != id by {
            assert(earlier[j] == runs[j]);
        }
        lemma_registry_miss(earlier, id);
    } else {
        assert(earlier[at] == runs[at]);
        assert forall|j: int| 0 <= j < at implies (#[trigger] earlier[j]).run_id@ != id by {
            assert(earlier[j] == runs[j]);
        }
        lemma_registry_hit(earlier, at, id);
    }
}

proof fn lemma_registry_update(runs: Seq<RunEntry>, at: int, entry: RunEntry)
    requires
        0 <= at < runs.len(),
        entry.run_id@ == runs[at].run_id@,
        forall|j: int| 0 <= j < at ==> (#[trigger] runs[j]).run_id@ != entry.run_id@,
    ensures
        registry(runs.update(at, entry)) == registry(runs).insert(entry.run_id@, entry.log@),
    decreases runs.len(),
{
    let id = entry.run_id@;
    let updated = runs.update(at, entry);
    let earlier = runs.drop_last();
    if at == runs.len() - 1 {
        assert(updated.drop_last() =~= earlier);
        assert forall|j: int| 0 <= j < earlier.len() implies (#[trigger] earlier[j]).run_id@
            != id by {
            assert(earlier[j] == runs[j]);
        }
        lemma_registry_miss(earlier, id);
        assert(registry(updated) =~= registry(runs).insert(id, entry.log@));
    } else {
        assert(updated.drop_last() =~= earlier.update(at, entry));
        assert(updated.last() == runs.last());
        assert(earlier[at] == runs[at]);
        assert forall|j: int| 0 <= j < at implies (#[trigger] earlier[j]).run_id@ != id by {
            assert(earlier[j] == runs[j]);
        }
        lemma_registry_update(earlier, at, entry);
        lemma_registry_hit(earlier, at, id);
        assert(registry(updated) =~= registry(runs).insert(id, entry.log@));
    }
}

proof fn lemma_registry_gapless(runs: Seq<RunEntry>)
    ensures
        forall|id: Seq<char>|
            registry(runs).contains_key(id) ==> gapless(#[trigger] registry(runs)[id]),
    decreases runs.len(),
{
    if runs.len() > 0 {
        let earlier = registry(runs.drop_last());
        let last = runs.last();
        lemma_registry_gapless(runs.drop_last());
        last.log.lemma_history_gapless();
        assert forall|id: Seq<char>| registry(runs).contains_key(id) implies gapless(
            #[trigger] registry(runs)[id],
        ) by {
            if earlier.contains_key(id) {
                assert(registry(runs)[id] == earlier[id]);
            } else {
                assert(id == last.run_id@);
                assert(registry(runs)[id] == last.log@);
            }
        }
    }
}

/// The history of a run in a registry; a run that is not registered has
/// none yet.
pub open spec fn history_for(runs: Map<Seq<char>, Seq<EventRecord>>, run_id: Seq<char>) -> Seq<
    EventRecord,
> {
    if runs.contains_key(run_id) {
        runs[run_id]
    } else {
        Seq::empty()
    }
}

/// Looking a run up, and creating its log if there is none, is idempotent:
/// a second look finds what the first one left, and no other run is
/// touched by either.
pub proof fn lemma_get_or_create_is_idempotent(
    runs: Map<Seq<char>, Seq<EventRecord>>,
    run_id: Seq<char>,
)
    ensures
        ({
            let once = runs.insert(run_id, history_for(runs, run_id));
            &&& once.contains_key(run_id)
            &&& history_for(once, run_id) == history_for(runs, run_id)
            &&& once.insert(run_id, history_for(once, run_id)) == once
            &&& forall|other: Seq<char>|
                other != run_id ==> once.contains_key(other) == runs.contains_key(other)
                    && history_for(once, other) == history_for(runs, other)
        }),
{
    let once = runs.insert(run_id, history_for(runs, run_id));
    assert(once.insert(run_id, history_for(once, run_id)) =~= once);
}

/// A failure of class `InvalidArgument`.
pub open spec fn invalid_argument(message: Seq<char>) -> StatusView {
    StatusView { code: Code::InvalidArgument, message }
}

/// A failure of class `Unimplemented`.
pub open spec fn unimplemented(message: Seq<char>) -> StatusView {
    StatusView { code: Code::Unimplemented, message }
}

/// Why a streaming request is refused, if it is.
pub open spec fn stream_request_error(request: StreamRunEventsRequest) -> Option<StatusView> {
    match request.handle {
        None => Some(invalid_argument("missing run handle"@)),
        Some(handle) => if handle.run_id@.len() == 0 {
            Some(invalid_argument("missing run_id"@))
        } else if request.since_event_seq < 0 {
            Some(invalid_argument("since_event_seq must be non-negative"@))
        } else {
            None
        },
    }
}

/// The reason given for a patch whose declared digest is wrong.
pub open spec fn mismatch_reason(expected: Seq<u8>, provided: Seq<u8>) -> Seq<char> {
    "sha256 mismatch (expected "@ + hex_string(expected) + ", provided "@ + hex_string(provided)
        + ")"@
}

/// The answer to a patch whose integrity check ended in `outcome`.
pub open spec fn patch_decision(outcome: DigestOutcome) -> Result<PatchDecision, StatusView> {
    match outcome {
        DigestOutcome::Pass => Ok(PatchDecision { accepted: true, rejection_reason: Seq::empty() }),
        DigestOutcome::Fail { computed, declared } => Ok(
            PatchDecision { accepted: false, rejection_reason: mismatch_reason(computed, declared) },
        ),
        DigestOutcome::Malformed => Err(malformed_digest_status()),
    }
}

/// The answer to a patch request, given the outcome of the integrity check
/// of its document.
pub open spec fn patch_answer(request: ApplyGraphPatchRequest) -> Result<
    PatchDecision,
    StatusView,
> {
    match request.handle {
        None => Err(invalid_argument("missing run handle"@)),
        Some(handle) => if handle.run_id@.len() == 0 {
            Err(invalid_argument("missing run_id"@))
        } else {
            match request.patch {
                None => Err(invalid_argument("missing patch"@)),
                Some(patch) => patch_decision(document_outcome(&patch)),
            }
        },
    }
}

/// What the result of a patch request says.
pub open spec fn patch_result_view(result: Result<ApplyGraphPatchResponse, Status>) -> Result<
    PatchDecision,
    StatusView,
> {
    match result {
        Ok(response) => Ok(response@),
        Err(status) => Err(status@),
    }
}

/// Why a document attached to a submission stops it, if it does: a
/// malformed declaration with its own failure, a wrong digest with
/// `mismatch_message`.
pub open spec fn document_objection(outcome: DigestOutcome, mismatch_message: Seq<char>) -> Option<
    StatusView,
> {
    match outcome {
        DigestOutcome::Pass => None,
        DigestOutcome::Fail { .. } => Some(invalid_argument(mismatch_message)),
        DigestOutcome::Malformed => Some(malformed_digest_status()),
    }
}

/// Why an attached document, if there is one, stops a submission.
pub open spec fn attachment_objection(
    document: Option<CanonicalJsonDocument>,
    mismatch_message: Seq<char>,
) -> Option<StatusView> {
    match document {
        None => None,
        Some(doc) => document_objection(document_outcome(&doc), mismatch_message),
    }
}

/// The failure that a submission ends in: the objection to its contract
/// manifest, else the objection to its policy, else that running is not
/// implemented.
pub open spec fn submission_status(request: SubmitRunRequest) -> StatusView {
    match attachment_objection(request.contract_manifest, "contract_manifest sha256 mismatch"@) {
        Some(status) => status,
        None => match attachment_objection(request.policy, "policy sha256 mismatch"@) {
            Some(status) => status,
            None => unimplemented("SubmitRun not yet implemented"@),
        },
    }
}

/// Whether `part` occurs in `text` as a run of consecutive characters.
pub open spec fn occurs_in(part: Seq<char>, text: Seq<char>) -> bool {
    exists|at: int|
        0 <= at && at + part.len() <= text.len() && #[trigger] text.subrange(
            at,
            at + part.len() as int,
        ) == part
}

/// The reason given for a wrong digest names the failure and shows both
/// digests in hexadecimal, the computed one and the declared one.
pub proof fn lemma_mismatch_reason_shows_both_digests(expected: Seq<u8>, provided: Seq<u8>)
    ensures
        occurs_in("sha256 mismatch"@, mismatch_reason(expected, provided)),
        occurs_in(hex_string(expected), mismatch_reason(expected, provided)),
        occurs_in(hex_string(provided), mismatch_reason(expected, provided)),
        mismatch_reason(expected, provided).len() > 0,
{
    reveal_strlit("sha256 mismatch (expected ");
    reveal_strlit("sha256 mismatch");
    let reason = mismatch_reason(expected, provided);
    let head = "sha256 mismatch (expected "@;
    let middle = ", provided "@;
    let first = hex_string(expected);
    let second = hex_string(provided);
    let label = "sha256 mismatch"@;
    let at_label: int = 0;
    assert(reason.subrange(at_label, at_label + label.len()) =~= label);
    let at_first = head.len() as int;
    assert(reason.subrange(at_first, at_first + first.len()) =~= first);
    let at_second = (head.len() + first.len() + middle.len()) as int;
    assert(reason.subrange(at_second, at_second + second.len()) =~= second);
}

/// A patch whose digest is wrong is turned down, not refused, and the
/// reason shows both digests; one whose digest matches or is absent is
/// accepted with an empty reason. The reason is empty exactly when the
/// patch is accepted.
pub proof fn lemma_patch_decision(outcome: DigestOutcome)
    ensures
        outcome == DigestOutcome::Pass ==> patch_decision(outcome) == Ok::<
            PatchDecision,
            StatusView,
        >(PatchDecision { accepted: true, rejection_reason: Seq::empty() }),
        outcome matches DigestOutcome::Fail { computed, declared } ==> (patch_decision(
            outcome,
        ) matches Ok(decision) && !decision.accepted && occurs_in(
            hex_string(computed),
            decision.rejection_reason,
        ) && occurs_in(hex_string(declared), decision.rejection_reason)),
        patch_decision(outcome) matches Ok(decision) ==> (decision.accepted
            <==> decision.rejection_reason.len() == 0),
        patch_decision(outcome) is Err <==> outcome == DigestOutcome::Malformed,
{
    match outcome {
        DigestOutcome::Fail { computed, declared } => {
            lemma_mismatch_reason_shows_both_digests(computed, declared);
        },
        _ => {},
    }
}

/// Turns the result of an integrity check into the answer to a patch.
pub fn patch_response(verification: Sha256Verification) -> (response: ApplyGraphPatchResponse)
    ensures
        Ok::<PatchDecision, StatusView>(response@) == patch_decision(verification.outcome()),
{
    match verification {
        Sha256Verification::MatchOrMissing => ApplyGraphPatchResponse {
            accepted: true,
            rejection_reason: String::new(),
        },
        Sha256Verification::Mismatch { expected, provided } => {
            let mut reason = String::from_str("sha256 mismatch (expected ");
            let expected_hex = bytes_to_hex(expected.as_slice());
            reason.append(expected_hex.as_str());
            reason.append(", provided ");
            let provided_hex = bytes_to_hex(provided.as_slice());
            reason.append(provided_hex.as_str());
            reason.append(")");
            ApplyGraphPatchResponse { accepted: false, rejection_reason: reason }
        },
    }
}

/// Why the result of an integrity check stops a submission, if it does: a
/// refused check with its own failure, a wrong digest with
/// `mismatch_message`.
pub open spec fn objection_of(
    verification: Result<Sha256Verification, Status>,
    mismatch_message: Seq<char>,
) -> Option<StatusView> {
    match verification {
        Ok(Sha256Verification::MatchOrMissing) => None,
        Ok(Sha256Verification::Mismatch { .. }) => Some(invalid_argument(mismatch_message)),
        Err(status) => Some(status@),
    }
}

/// Decides whether the integrity check of a document attached to a
/// submission stops the submission, and with which failure.
pub fn document_rejection(
    verification: Result<Sha256Verification, Status>,
    mismatch_message: &str,
) -> (objection: Option<Status>)
    ensures
        match objection_of(verification, mismatch_message@) {
            Some(status) => objection matches Some(found) && found@ == status,
            None => objection is None,
        },
{
    match verification {
        Ok(Sha256Verification::MatchOrMissing) => None,
        Ok(Sha256Verification::Mismatch { .. }) => Some(Status::invalid_argument(mismatch_message)),
        Err(status) => Some(status),
    }
}

fn attachment_rejection(document: &Option<CanonicalJsonDocument>, mismatch_message: &str) -> (objection:
    Option<Status>)
    ensures
        match attachment_objection(*document, mismatch_message@) {
            Some(status) => objection matches Some(found) && found@ == status,
            None => objection is None,
        },
{
    match document {
        None => None,
        Some(doc) => document_rejection(verify_canonical_sha256(doc), mismatch_message),
    }
}

/// The service: every run that was ever referred to, each with its log.
#[derive(Debug)]
pub struct CorkCoreService {
    runs: Vec<RunEntry>,
}

impl Default for CorkCoreService {
    /// A service that knows no run yet.
    fn default() -> (service: CorkCoreService)
        ensures
            service@ == Map::<Seq<char>, Seq<EventRecord>>::empty(),
    {
        CorkCoreService::new()
    }
}

impl CorkCoreService {
    /// The registered runs: each run id with the history of its log.
    pub closed spec fn view(&self) -> Map<Seq<char>, Seq<EventRecord>> {
        registry(self.runs@)
    }

    /// The history of every registered run numbers its events 0, 1, 2, ...
    /// in the order in which they were appended, so a backlog taken from it
    /// starts at the cursor and goes on without a gap.
    pub proof fn lemma_histories_gapless(&self)
        ensures
            forall|id: Seq<char>| self@.contains_key(id) ==> gapless(#[trigger] self@[id]),
    {
        lemma_registry_gapless(self.runs@);
    }

    /// A service that knows no run yet.
    pub fn new() -> (service: CorkCoreService)
        ensures
            service@ == Map::<Seq<char>, Seq<EventRecord>>::empty(),
    {
        CorkCoreService { runs: Vec::new() }
    }

    fn log_at(&mut self, at: usize) -> (log: &mut InMemoryEventLog)
        requires
            at < old(self).runs@.len(),
        ensures
            *log == old(self).runs@[at as int].log,
            final(self).runs@ == old(self).runs@.update(
                at as int,
                RunEntry { run_id: old(self).runs@[at as int].run_id, log: *final(log) },
            ),
    {
        &mut self.runs[at].log
    }

    /// The log of a run, created empty if the run was not known. There is
    /// one log per run id: asking again finds the same log, with all that
    /// was appended to it, and no other run's log is touched.
    pub fn event_log_for_run(&mut self, run_id: &str) -> (log: &mut InMemoryEventLog)
        ensures
            (*log)@ == history_for(old(self)@, run_id@),
            final(self)@ == old(self)@.insert(run_id@, (*final(log))@),
    {
        let key = run_id.to_owned();
        let count = self.runs.len();
        let mut at: usize = 0;
        while at < count && self.runs[at].run_id != key
            invariant
                at <= count,
                count == self.runs@.len(),
                self.runs@ == old(self).runs@,
                key@ == run_id@,
                forall|j: int| 0 <= j < at ==> (#[trigger] self.runs@[j]).run_id@ != key@,
            decreases count - at,
        {
            at += 1;
        }
        if at == count {
            proof {
                lemma_registry_miss(self.runs@, key@);
            }
            let entry = RunEntry { run_id: key, log: InMemoryEventLog::new() };
            self.runs.push(entry);
            proof {
                assert(self.runs@.drop_last() =~= old(self).runs@);
            }
        }
        let ghost found = self.runs@;
        proof {
            lemma_registry_hit(found, at as int, run_id@);
            assert(registry(found) =~= old(self)@.insert(run_id@, found[at as int].log@));
        }
        let log = self.log_at(at);
        proof {
            let entry = RunEntry { run_id: found[at as int].run_id, log: *final(log) };
            lemma_registry_update(found, at as int, entry);
            assert(registry(found.update(at as int, entry)) =~= old(self)@.insert(
                run_id@,
                (*final(log))@,
            ));
        }
        log
    }

    /// Opens the event stream of a run from a given sequence number on.
    ///
    /// A request without a run handle, with an empty run id or with a
    /// negative sequence number is refused and changes nothing. Otherwise
    /// the run's log is found, or created empty, and the stream starts with
    /// the stored events from that sequence number on.
    pub fn stream_run_events(&mut self, request: StreamRunEventsRequest) -> (result: Result<
        RunEventStream,
        Status,
    >)
        ensures
            match stream_request_error(request) {
                Some(status) => result matches Err(found) && found@ == status && final(self)@
                    == old(self)@,
                None => {
                    let run_id = request.handle->0.run_id@;
                    let history = history_for(old(self)@, run_id);
                    &&& result matches Ok(stream) && stream.broker@ == (BrokerState {
                        phase: BrokerPhase::Replaying,
                        pending: backlog_from(history, request.since_event_seq as nat),
                    })
                    &&& final(self)@ == old(self)@.insert(run_id, history)
                },
            },
    {
        let handle = match request.handle {
            Some(handle) => handle,
            None => {
                return Err(Status::invalid_argument("missing run handle"));
            },
        };
        if handle.run_id.as_str().is_empty() {
            return Err(Status::invalid_argument("missing run_id"));
        }
        if request.since_event_seq < 0 {
            return Err(Status::invalid_argument("since_event_seq must be non-negative"));
        }
        let since = request.since_event_seq as u64;
        let log = self.event_log_for_run(handle.run_id.as_str());
        let subscription = log.subscribe(since);
        Ok(RunEventStream::new(subscription))
    }

    /// Applies a patch document to a run's graph, as far as the integrity
    /// gate: a document whose declared digest is wrong is turned down in the
    /// answer, with both digests in the reason; one that passes is accepted.
    /// A request without a run handle, run id or patch, or with a malformed
    /// declaration, is refused.
    pub fn apply_graph_patch(&self, request: ApplyGraphPatchRequest) -> (result: Result<
        ApplyGraphPatchResponse,
        Status,
    >)
        ensures
            patch_result_view(result) == patch_answer(request),
    {
        let handle = match request.handle {
            Some(handle) => handle,
            None => {
                return Err(Status::invalid_argument("missing run handle"));
            },
        };
        if handle.run_id.as_str().is_empty() {
            return Err(Status::invalid_argument("missing run_id"));
        }
        let patch = match request.patch {
            Some(patch) => patch,
            None => {
                return Err(Status::invalid_argument("missing patch"));
            },
        };
        match verify_canonical_sha256(&patch) {
            Ok(verification) => Ok(patch_response(verification)),
            Err(status) => Err(status),
        }
    }

    /// Checks the documents attached to a submission. A malformed
    /// declaration or a wrong digest stops the submission. A submission
    /// whose documents are in order ends in `Unimplemented`: starting the
    /// run is the work of the execution engine.
    pub fn submit_run(&self, request: SubmitRunRequest) -> (result: Result<
        SubmitRunResponse,
        Status,
    >)
        ensures
            result matches Err(status) && status@ == submission_status(request),
    {
        if let Some(status) = attachment_rejection(
            &request.contract_manifest,
            "contract_manifest sha256 mismatch",
        ) {
            return Err(status);
        }
        if let Some(status) = attachment_rejection(&request.policy, "policy sha256 mismatch") {
            return Err(status);
        }
        Err(Status::unimplemented("SubmitRun not yet implemented"))
    }

    /// Cancelling a run is not implemented.
    pub fn cancel_run(&self) -> (result: Result<CancelRunResponse, Status>)
        ensures
            result matches Err(status) && status@ == unimplemented("CancelRun not yet implemented"@),
    {
        Err(Status::unimplemented("CancelRun not yet implemented"))
    }

    /// Looking up a run is not implemented.
    pub fn get_run(&self) -> (result: Result<GetRunResponse, Status>)
        ensures
            result matches Err(status) && status@ == unimplemented("GetRun not yet implemented"@),
    {
        Err(Status::unimplemented("GetRun not yet implemented"))
    }

    /// Listing the runs is not implemented.
    pub fn list_runs(&self) -> (result: Result<ListRunsResponse, Status>)
        ensures
            result matches Err(status) && status@ == unimplemented("ListRuns not yet implemented"@),
    {
        Err(Status::unimplemented("ListRuns not yet implemented"))
    }

    /// Retrieving a composite graph is not implemented.
    pub fn get_composite_graph(&self) -> (result: Result<GetCompositeGraphResponse, Status>)
        ensures
            result matches Err(status) && status@ == unimplemented(
                "GetCompositeGraph not yet implemented"@,
            ),
    {
        Err(Status::unimplemented("GetCompositeGraph not yet implemented"))
    }

    /// Retrieving logs is not implemented.
    pub fn get_logs(&self) -> (result: Result<GetLogsResponse, Status>)
        ensures
            result matches Err(status) && status@ == unimplemented("GetLogs not yet implemented"@),
    {
        Err(Status::unimplemented("GetLogs not yet implemented"))
    }
}

} // verus!
