//! The request pipeline, as a sequence of decision steps.  The shell
//! around the library performs the outside work — the cache round trips,
//! the execution slot's atomicity, the clock, and the toolchain subprocess — and
//! hands each answer back; every decision about what those answers mean is
//! taken here, under contract.
//!
//! Order of steps: fingerprint, cache lookup (a hit short-circuits before
//! the slot and before validation), slot acquisition (a failure is answered
//! at once and never cached), validation, rendering, execution, assembly,
//! cache write, gate release.

use vstd::prelude::*;
use crate::bounds::CACHE_TTL_SECS;
use crate::fingerprint::{generate_cache_key, spec_cache_key};
use crate::outcome::{
    busy_result, execution_failure, result_json, serialize_result, spawn_failure,
    spec_busy_result, spec_execution_failure, spec_spawn_failure, spec_success_result,
    spec_validation_failure, success_result, validation_failure, Timestamp,
};
use crate::payload::Payload;
use crate::render::{program_text, render_cargo_manifest, render_program, MANIFEST_TEXT};
use crate::validate::{payload_valid, spec_payload_error, spec_validated, validate_input, ValidationError};

verus! {

/// A request with its fingerprint derived, before the cache lookup.
pub struct PendingRequest {
    pub payload: Payload,
    pub key: String,
}

impl PendingRequest {
    /// The key is the fingerprint of the payload.
    pub open spec fn wf(&self) -> bool {
        self.key@ == spec_cache_key(self.payload@)
    }
}

/// What the cache lookup decided.
pub enum CacheDecision {
    /// The stored body is returned verbatim; nothing else runs.
    Hit { body: String },
    /// The request proceeds to the execution slot.
    Miss { pending: PendingRequest },
}

/// How a request that got past the cache ends: the response body, and what
/// the shell still owes on the way out.
pub struct Outcome {
    pub key: String,
    pub body: String,
    pub store_in_cache: bool,
    pub release_gate: bool,
    pub ttl_secs: u64,
}

/// A rendered program ready for the executor.
pub struct ExecJob {
    pub key: String,
    pub manifest: String,
    pub program: String,
    pub validated: crate::payload::ValidatedPayload,
}

/// What follows a successful gate acquisition: either the toolchain must
/// run, or validation already decided the answer.
pub enum WorkPlan {
    Execute { job: ExecJob },
    Finish { outcome: Outcome },
}

/// Derives the fingerprint; the first step of every request.
pub fn begin(payload: Payload) -> (p: PendingRequest)
    ensures
        p.wf(),
        p.payload == payload,
{
    let key = generate_cache_key(&payload);
    PendingRequest { payload, key }
}

/// Decides the cache lookup.  A hit is answered with the stored body,
/// byte for byte, before the slot is taken and before validation — even a payload
/// that would fail validation is served its previously cached record.
pub fn resolve_cache(pending: PendingRequest, cached: Option<String>) -> (d: CacheDecision)
    ensures
        match cached {
            Some(stored) => d matches CacheDecision::Hit { body } && body == stored,
            None => d matches CacheDecision::Miss { pending: p } && p == pending,
        },
{
    match cached {
        Some(stored) => CacheDecision::Hit { body: stored },
        None => CacheDecision::Miss { pending },
    }
}

/// Answers a request that found the execution slot taken: the capacity-rejection
/// body, not stored in the cache, with nothing to free — the caller
/// never owned the slot, and no other state was touched.
pub fn reject_busy(key: String, now: Timestamp) -> (o: Outcome)
    ensures
        o.body@ == result_json(spec_busy_result(now)),
        !o.store_in_cache,
        !o.release_gate,
        o.key == key,
{
    let body = serialize_result(&busy_result(now));
    Outcome { key, body, store_in_cache: false, release_gate: false, ttl_secs: CACHE_TTL_SECS }
}

/// Decides what to do once the execution slot is owned: a payload that validates is
/// rendered into an execution job; one that does not is answered with the
/// field-scoped validation error, which is cached like any other result,
/// and the slot is freed on the way out.
pub fn plan_work(pending: PendingRequest, now: Timestamp) -> (w: WorkPlan)
    ensures
        payload_valid(pending.payload@) <==> w matches WorkPlan::Execute { .. },
        w matches WorkPlan::Execute { job } ==> {
            &&& job.key == pending.key
            &&& job.manifest@ == MANIFEST_TEXT@
            &&& job.program@ == program_text(spec_validated(pending.payload@))
            &&& job.validated@ == spec_validated(pending.payload@)
        },
        w matches WorkPlan::Finish { outcome } ==> {
            &&& outcome.key == pending.key
            &&& exists|e: ValidationError|
                spec_payload_error(&e, pending.payload@) && outcome.body@ == result_json(
                    spec_validation_failure(e.spec_message(), now),
                )
            &&& outcome.store_in_cache
            &&& outcome.release_gate
            &&& outcome.ttl_secs == CACHE_TTL_SECS
        },
{
    match validate_input(&pending.payload) {
        Ok(validated) => {
            let manifest = render_cargo_manifest();
            let program = render_program(&validated);
            WorkPlan::Execute { job: ExecJob { key: pending.key, manifest, program, validated } }
        },
        Err(e) => {
            let body = serialize_result(&validation_failure(&e, now));
            WorkPlan::Finish {
                outcome: Outcome {
                    key: pending.key,
                    body,
                    store_in_cache: true,
                    release_gate: true,
                    ttl_secs: CACHE_TTL_SECS,
                },
            }
        },
    }
}

/// Assembles the outcome of a toolchain run.  A zero exit yields a success
/// record carrying the captured stdout and the parameters used; a non-zero
/// exit yields a failure record whose error carries the captured stderr.
/// Either record is stored in the cache and the slot is freed.
pub fn finish_execution(job: ExecJob, exit_ok: bool, stdout: &str, stderr: &str, now: Timestamp) -> (
    o: Outcome)
    ensures
        exit_ok ==> o.body@ == result_json(spec_success_result(stdout@, job.validated@, now)),
        !exit_ok ==> o.body@ == result_json(spec_execution_failure(stderr@, now)),
        o.store_in_cache,
        o.release_gate,
        o.ttl_secs == CACHE_TTL_SECS,
        o.key == job.key,
{
    let record = if exit_ok {
        let mut owned = String::new();
        crate::text::push_str(&mut owned, stdout);
        proof {
            assert(owned@ =~= stdout@);
        }
        success_result(owned, job.validated, now)
    } else {
        execution_failure(stderr, now)
    };
    let body = serialize_result(&record);
    Outcome {
        key: job.key,
        body,
        store_in_cache: true,
        release_gate: true,
        ttl_secs: CACHE_TTL_SECS,
    }
}

/// Assembles the outcome when the toolchain could not be invoked at all
/// (the executor reports what failed).  The failure record is cached like
/// any other, and the slot is freed.
pub fn finish_spawn_failure(job: ExecJob, detail: &str, now: Timestamp) -> (o: Outcome)
    ensures
        o.body@ == result_json(spec_spawn_failure(detail@, now)),
        o.store_in_cache,
        o.release_gate,
        o.ttl_secs == CACHE_TTL_SECS,
        o.key == job.key,
{
    let body = serialize_result(&spawn_failure(detail, now));
    Outcome {
        key: job.key,
        body,
        store_in_cache: true,
        release_gate: true,
        ttl_secs: CACHE_TTL_SECS,
    }
}

/// One entry of the external TTL key/value service, as the pipeline relies
/// on it: the stored body and the second it was written.
pub struct StoredEntry {
    pub body: Seq<char>,
    pub stored_at: u64,
}

/// What the service serves at `now` for a key holding `entry`: the stored
/// body while the entry is live, a miss once the TTL has elapsed.
pub open spec fn served(entry: StoredEntry, now: u64) -> Option<Seq<char>> {
    if now < entry.stored_at + CACHE_TTL_SECS {
        Some(entry.body)
    } else {
        None
    }
}

/// Across two requests with byte-identical payloads inside the TTL window,
/// the second response is byte-identical to the first and the toolchain
/// runs at most once.  The two fingerprints coincide, so the second lookup
/// addresses the entry the first request stored; the entry is still live,
/// so the lookup serves that body verbatim; and a served lookup is decided
/// as a `Hit` (see `resolve_cache`), a terminal answer that carries no
/// `ExecJob` — only a `Miss` hands `plan_work`, the sole source of
/// execution jobs, a request to act on.
pub proof fn law_identical_repeat_is_verbatim_and_runs_nothing(
    p1: crate::payload::PayloadV,
    p2: crate::payload::PayloadV,
    entry: StoredEntry,
    now: u64,
)
    requires
        p1 == p2,
        now < entry.stored_at + CACHE_TTL_SECS,
    ensures
        spec_cache_key(p1) == spec_cache_key(p2),
        served(entry, now) == Some(entry.body),
{
    crate::fingerprint::lemma_fingerprint_deterministic(p1, p2);
}

/// Once the TTL has elapsed, the fingerprint is a miss again: the lookup
/// serves nothing, and a miss proceeds to the slot and to re-execution.
pub proof fn law_expired_entry_is_miss(entry: StoredEntry, now: u64)
    requires
        now >= entry.stored_at + CACHE_TTL_SECS,
    ensures
        served(entry, now) is None,
{
}

} // verus!
