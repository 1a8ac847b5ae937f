//! The result assembler: the outward-facing result record, its
//! constructors for each way a request can end, and its canonical JSON
//! serialization — the same text serves as the response body and as the
//! cached value, so a cache hit reproduces the first response byte for
//! byte.

use vstd::prelude::*;
use crate::fingerprint::payload_json;
use crate::json::json_string;
use crate::payload::{PayloadV, ValidatedPayload};
use crate::text::{push_str, spec_digits, u32_to_string, u64_to_string};
use crate::validate::ValidationError;

verus! {

/// What the executor's stderr is prefixed with in a failure result.
pub const EXEC_ERROR_PREFIX: &'static str = "Cargo execution error:\n";

/// The capacity-rejection message.  Note the accompanying record still says
/// `success: true` — a known inconsistency of the external contract, kept
/// deliberately: callers must test for the presence of `error`, not for
/// `success` alone.
pub const BUSY_MESSAGE: &'static str =
    "Too many requests. The system is at peak capacity. Try again later.";

/// A wall-clock instant, as seconds and subsecond nanoseconds since the
/// epoch.  The shell reads the clock; the library only records the value.
#[derive(Clone, Copy, PartialEq, Eq, Structural, Debug)]
pub struct Timestamp {
    pub secs: u64,
    pub nanos: u32,
}

/// The outward-facing result record: the unit stored in the cache and
/// returned to the caller.  Immutable once constructed.
pub struct BackendResult {
    pub success: bool,
    pub time: Timestamp,
    pub run_output: Option<String>,
    pub params_used: Option<ValidatedPayload>,
    pub error: Option<String>,
}

/// Mathematical model of a result record.
pub struct BackendResultV {
    pub success: bool,
    pub time: Timestamp,
    pub run_output: Option<Seq<char>>,
    pub params_used: Option<PayloadV>,
    pub error: Option<Seq<char>>,
}

impl View for BackendResult {
    type V = BackendResultV;

    open spec fn view(&self) -> BackendResultV {
        BackendResultV {
            success: self.success,
            time: self.time,
            run_output: match self.run_output {
                Some(ref s) => Some(s@),
                None => None,
            },
            params_used: match self.params_used {
                Some(ref p) => Some(p@),
                None => None,
            },
            error: match self.error {
                Some(ref s) => Some(s@),
                None => None,
            },
        }
    }
}

/// The record for a run whose toolchain exited zero: its stdout and the
/// parameters it ran with.
pub open spec fn spec_success_result(
    stdout: Seq<char>,
    params: PayloadV,
    time: Timestamp,
) -> BackendResultV {
    BackendResultV {
        success: true,
        time,
        run_output: Some(stdout),
        params_used: Some(params),
        error: None,
    }
}

/// The record for a run whose toolchain exited non-zero: no output, and an
/// error carrying the captured stderr behind a fixed prefix.
pub open spec fn spec_execution_failure(stderr: Seq<char>, time: Timestamp) -> BackendResultV {
    BackendResultV {
        success: false,
        time,
        run_output: None,
        params_used: None,
        error: Some(EXEC_ERROR_PREFIX@ + stderr),
    }
}

/// The record for a toolchain that could not be invoked at all: the
/// executor's own account of what failed (the working directory, a file
/// write, or the spawn itself) is carried verbatim as the error.
pub open spec fn spec_spawn_failure(detail: Seq<char>, time: Timestamp) -> BackendResultV {
    BackendResultV { success: false, time, run_output: None, params_used: None, error: Some(detail) }
}

/// The record for a payload rejected by validation.
pub open spec fn spec_validation_failure(message: Seq<char>, time: Timestamp) -> BackendResultV {
    BackendResultV { success: false, time, run_output: None, params_used: None, error: Some(message) }
}

/// The capacity-rejection record.  `success` stays true, as the external
/// contract has it; only the `error` text marks the rejection.
pub open spec fn spec_busy_result(time: Timestamp) -> BackendResultV {
    BackendResultV {
        success: true,
        time,
        run_output: None,
        params_used: None,
        error: Some(BUSY_MESSAGE@),
    }
}

/// Builds the record for a successful run.
pub fn success_result(stdout: String, params: ValidatedPayload, time: Timestamp) -> (r:
    BackendResult)
    ensures
        r@ == spec_success_result(stdout@, params@, time),
{
    BackendResult {
        success: true,
        time,
        run_output: Some(stdout),
        params_used: Some(params),
        error: None,
    }
}

/// Builds the record for a toolchain run that exited non-zero.
pub fn execution_failure(stderr: &str, time: Timestamp) -> (r: BackendResult)
    ensures
        r@ == spec_execution_failure(stderr@, time),
{
    let mut msg = String::new();
    push_str(&mut msg, EXEC_ERROR_PREFIX);
    push_str(&mut msg, stderr);
    BackendResult { success: false, time, run_output: None, params_used: None, error: Some(msg) }
}

/// Builds the record for a toolchain that could not be invoked.
pub fn spawn_failure(detail: &str, time: Timestamp) -> (r: BackendResult)
    ensures
        r@ == spec_spawn_failure(detail@, time),
{
    let mut msg = String::new();
    push_str(&mut msg, detail);
    proof {
        assert(msg@ =~= detail@);
    }
    BackendResult { success: false, time, run_output: None, params_used: None, error: Some(msg) }
}

/// Builds the record for a payload rejected by validation.
pub fn validation_failure(e: &ValidationError, time: Timestamp) -> (r: BackendResult)
    ensures
        r@ == spec_validation_failure(e.spec_message(), time),
{
    BackendResult {
        success: false,
        time,
        run_output: None,
        params_used: None,
        error: Some(e.message()),
    }
}

/// Builds the capacity-rejection record.
pub fn busy_result(time: Timestamp) -> (r: BackendResult)
    ensures
        r@ == spec_busy_result(time),
{
    let mut msg = String::new();
    push_str(&mut msg, BUSY_MESSAGE);
    proof {
        assert(msg@ =~= BUSY_MESSAGE@);
    }
    BackendResult { success: true, time, run_output: None, params_used: None, error: Some(msg) }
}

pub open spec fn bool_text(b: bool) -> Seq<char> {
    if b {
        "true"@
    } else {
        "false"@
    }
}

pub open spec fn opt_string_json(s: Option<Seq<char>>) -> Seq<char> {
    match s {
        Some(t) => json_string(t),
        None => "null"@,
    }
}

pub open spec fn opt_params_json(p: Option<PayloadV>) -> Seq<char> {
    match p {
        Some(v) => payload_json(v),
        None => "null"@,
    }
}

/// The canonical JSON text of a result record, field order fixed.
pub open spec fn result_json(r: BackendResultV) -> Seq<char> {
    "{\"success\":"@ + bool_text(r.success) + ",\"time\":{\"secs_since_epoch\":"@ + spec_digits(
        r.time.secs as nat,
    ) + ",\"nanos_since_epoch\":"@ + spec_digits(r.time.nanos as nat) + "},\"run_output\":"@
        + opt_string_json(r.run_output) + ",\"params_used\":"@ + opt_params_json(r.params_used)
        + ",\"error\":"@ + opt_string_json(r.error) + "}"@
}

/// Serializes a result record to its canonical JSON text.  Total: the
/// canonical form exists for every record, so serialization cannot fail.
#[verifier::rlimit(80)]
pub fn serialize_result(r: &BackendResult) -> (out: String)
    ensures
        out@ == result_json(r@),
{
    let ghost head = "{\"success\":"@ + bool_text(r@.success) + ",\"time\":{\"secs_since_epoch\":"@
        + spec_digits(r@.time.secs as nat) + ",\"nanos_since_epoch\":"@ + spec_digits(
        r@.time.nanos as nat,
    ) + "},\"run_output\":"@ + opt_string_json(r@.run_output);
    let mut out = String::new();
    push_str(&mut out, "{\"success\":");
    if r.success {
        push_str(&mut out, "true");
    } else {
        push_str(&mut out, "false");
    }
    push_str(&mut out, ",\"time\":{\"secs_since_epoch\":");
    let secs = u64_to_string(r.time.secs);
    push_str(&mut out, secs.as_str());
    push_str(&mut out, ",\"nanos_since_epoch\":");
    let nanos = u32_to_string(r.time.nanos);
    push_str(&mut out, nanos.as_str());
    push_str(&mut out, "},\"run_output\":");
    match &r.run_output {
        Some(s) => {
            crate::json::push_json_string(&mut out, s.as_str());
        },
        None => {
            push_str(&mut out, "null");
        },
    }
    proof {
        assert(out@ =~= head);
    }
    push_str(&mut out, ",\"params_used\":");
    match &r.params_used {
        Some(p) => {
            push_str(&mut out, "{\"nsweeps\":");
            crate::json::push_json_string(&mut out, p.nsweeps.as_str());
            push_str(&mut out, ",\"nf\":");
            crate::json::push_json_string(&mut out, p.nf.as_str());
            push_str(&mut out, ",\"smax\":");
            crate::json::push_json_string(&mut out, p.smax.as_str());
            push_str(&mut out, ",\"local\":");
            crate::json::push_json_string(&mut out, p.local.as_str());
            push_str(&mut out, ",\"fstop\":");
            crate::json::push_json_string(&mut out, p.fstop.as_str());
            push_str(&mut out, ",\"code\":");
            crate::json::push_json_string(&mut out, p.code.as_str());
            push_str(&mut out, "}");
            proof {
                assert(opt_params_json(r@.params_used) =~= payload_json(p@));
                assert(out@ =~= head + ",\"params_used\":"@ + opt_params_json(r@.params_used));
            }
        },
        None => {
            push_str(&mut out, "null");
            proof {
                assert(out@ =~= head + ",\"params_used\":"@ + opt_params_json(r@.params_used));
            }
        },
    }
    push_str(&mut out, ",\"error\":");
    match &r.error {
        Some(s) => {
            crate::json::push_json_string(&mut out, s.as_str());
        },
        None => {
            push_str(&mut out, "null");
        },
    }
    push_str(&mut out, "}");
    proof {
        assert(out@ =~= head + ",\"params_used\":"@ + opt_params_json(r@.params_used) + ",\"error\":"@
            + opt_string_json(r@.error) + "}"@);
        assert(out@ =~= result_json(r@));
    }
    out
}

/// A toolchain run that exits non-zero yields a failure record whose error
/// text carries the captured stderr verbatim behind the fixed prefix, and
/// the record is an ordinary result: it serializes like any other and is
/// eligible for caching.
pub proof fn law_failed_run_reports_stderr(stderr: Seq<char>, time: Timestamp)
    ensures
        spec_execution_failure(stderr, time).success == false,
        spec_execution_failure(stderr, time).error == Some(EXEC_ERROR_PREFIX@ + stderr),
        spec_execution_failure(stderr, time).error->Some_0.subrange(
            EXEC_ERROR_PREFIX@.len() as int,
            spec_execution_failure(stderr, time).error->Some_0.len() as int,
        ) == stderr,
{
    assert((EXEC_ERROR_PREFIX@ + stderr).subrange(
        EXEC_ERROR_PREFIX@.len() as int,
        (EXEC_ERROR_PREFIX@ + stderr).len() as int,
    ) =~= stderr);
}

} // verus!
