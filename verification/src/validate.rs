//! The validator: each numeric field is checked against the bound table
//! and re-serialized to canonical text.  The threshold field follows an
//! asymmetric rule: its configured minimum is a "no threshold" sentinel
//! that renders as a negative-infinity literal; any other value must lie
//! strictly above the minimum and at or below the maximum.  The code
//! fragment is passed through unexamined.

use vstd::prelude::*;
use crate::bounds::{
    LOCAL_MAX, LOCAL_MIN, NEG_INFINITY_LITERAL, NF_MAX, NF_MIN, NSWEEPS_MAX, NSWEEPS_MIN, SMAX_MAX,
    SMAX_MIN,
};
use crate::decimal::{
    dec_eq, dec_lt, dec_render, fstop_max, fstop_min, parse_dec, spec_fstop_max, spec_fstop_min,
    spec_parse_dec,
};
use crate::payload::{Payload, ValidatedPayload};
use crate::text::{
    lemma_digits_roundtrip, parse_u32, push_str, spec_digits, spec_parse_u32,
    spec_parse_u32_failure, u32_to_string, ParseFailure,
};

verus! {

/// The numeric fields of a request, as named in a field-scoped error.
#[derive(Clone, Copy, PartialEq, Eq, Structural, Debug)]
pub enum Field {
    Nsweeps,
    Nf,
    Smax,
    Local,
    Fstop,
}

/// A field-scoped validation failure: the raw text of an unsigned field
/// does not parse, the threshold text does not fit the decimal grammar, or
/// the parsed value lies outside its closed bound.
pub enum ValidationError {
    Parse { field: Field, raw: String, kind: ParseFailure },
    ParseDecimal { field: Field, raw: String },
    Range { field: Field, value: String, min: String, max: String },
}

/// The detail an unsigned parse failure carries, word for word the text of
/// the standard library's integer parse error.
pub open spec fn parse_failure_text(k: ParseFailure) -> Seq<char> {
    match k {
        ParseFailure::EmptyInput => "cannot parse integer from empty string"@,
        ParseFailure::InvalidDigit => "invalid digit found in string"@,
        ParseFailure::TooLarge => "number too large to fit in target type"@,
    }
}

impl ValidationError {
    /// The error text used in the outward-facing `error` field.
    pub open spec fn spec_message(&self) -> Seq<char> {
        match self {
            ValidationError::Parse { field: _, raw, kind } => {
                "'"@ + raw@ + "' is not a valid unsigned integer: "@ + parse_failure_text(*kind)
            },
            ValidationError::ParseDecimal { field: _, raw } => {
                "'"@ + raw@ + "' is not a valid number"@
            },
            ValidationError::Range { field: _, value, min, max } => {
                "Value "@ + value@ + " is out of acceptable range "@ + min@ + ":"@ + max@
            },
        }
    }

    /// Renders the error text.
    pub fn message(&self) -> (r: String)
        ensures
            r@ == self.spec_message(),
    {
        let mut out = String::new();
        match self {
            ValidationError::Parse { field: _, raw, kind } => {
                push_str(&mut out, "'");
                push_str(&mut out, raw.as_str());
                push_str(&mut out, "' is not a valid unsigned integer: ");
                match kind {
                    ParseFailure::EmptyInput => {
                        push_str(&mut out, "cannot parse integer from empty string");
                    },
                    ParseFailure::InvalidDigit => {
                        push_str(&mut out, "invalid digit found in string");
                    },
                    ParseFailure::TooLarge => {
                        push_str(&mut out, "number too large to fit in target type");
                    },
                }
            },
            ValidationError::ParseDecimal { field: _, raw } => {
                push_str(&mut out, "'");
                push_str(&mut out, raw.as_str());
                push_str(&mut out, "' is not a valid number");
            },
            ValidationError::Range { field: _, value, min, max } => {
                push_str(&mut out, "Value ");
                push_str(&mut out, value.as_str());
                push_str(&mut out, " is out of acceptable range ");
                push_str(&mut out, min.as_str());
                push_str(&mut out, ":");
                push_str(&mut out, max.as_str());
            },
        }
        proof {
            assert(out@ =~= self.spec_message());
        }
        out
    }
}

/// Whether an unsigned field's raw text parses and lies within `[min, max]`.
pub open spec fn unsigned_in_bounds(s: Seq<char>, min: u32, max: u32) -> bool {
    match spec_parse_u32(s) {
        Some(v) => min <= v <= max,
        None => false,
    }
}

/// The canonical re-serialization of an accepted unsigned field.
pub open spec fn canonical_unsigned(s: Seq<char>) -> Seq<char> {
    spec_digits(spec_parse_u32(s)->Some_0 as nat)
}

/// Exactly which error an unsigned field is rejected with.
pub open spec fn spec_unsigned_error(
    e: &ValidationError,
    field: Field,
    s: Seq<char>,
    min: u32,
    max: u32,
) -> bool {
    match spec_parse_u32(s) {
        None => e matches ValidationError::Parse { field: f, raw, kind } && f == &field && raw@
            == s && Some(*kind) == spec_parse_u32_failure(s),
        Some(v) => {
            &&& !(min <= v <= max)
            &&& e matches ValidationError::Range { field: f, value, min: mn, max: mx }
                && f == &field && value@ == spec_digits(v as nat) && mn@ == spec_digits(
                min as nat,
            ) && mx@ == spec_digits(max as nat)
        },
    }
}

/// Checks one unsigned field against its closed bound and re-serializes it
/// canonically; an accepted value comes back as its plain decimal digits.
pub fn validate_unsigned(field: Field, value: &str, min: u32, max: u32) -> (r: Result<
    String,
    ValidationError,
>)
    ensures
        r is Ok <==> unsigned_in_bounds(value@, min, max),
        r matches Ok(s) ==> s@ == canonical_unsigned(value@),
        r matches Err(e) ==> spec_unsigned_error(&e, field, value@, min, max),
{
    match parse_u32(value) {
        Err(kind) => Err(ValidationError::Parse { field, raw: value.to_owned(), kind }),
        Ok(v) => {
            if v < min || v > max {
                Err(
                    ValidationError::Range {
                        field,
                        value: u32_to_string(v),
                        min: u32_to_string(min),
                        max: u32_to_string(max),
                    },
                )
            } else {
                Ok(u32_to_string(v))
            }
        },
    }
}

/// Whether a threshold's raw text parses and is admissible: exactly the
/// configured minimum (the sentinel), or strictly above it and at or below
/// the maximum.
pub open spec fn fstop_admissible(s: Seq<char>) -> bool {
    match spec_parse_dec(s) {
        Some(d) => dec_eq(d, spec_fstop_min()) || (dec_lt(spec_fstop_min(), d) && !dec_lt(
            spec_fstop_max(),
            d,
        )),
        None => false,
    }
}

/// The canonical re-serialization of an accepted threshold: the sentinel
/// literal at the minimum, otherwise the canonical decimal text.
pub open spec fn canonical_fstop(s: Seq<char>) -> Seq<char> {
    let d = spec_parse_dec(s)->Some_0;
    if dec_eq(d, spec_fstop_min()) {
        NEG_INFINITY_LITERAL@
    } else {
        dec_render(d)
    }
}

/// Exactly which error a threshold is rejected with.
pub open spec fn spec_fstop_error(e: &ValidationError, s: Seq<char>) -> bool {
    match spec_parse_dec(s) {
        None => e matches ValidationError::ParseDecimal { field: f, raw } && f == &Field::Fstop
            && raw@ == s,
        Some(d) => {
            &&& !dec_eq(d, spec_fstop_min())
            &&& !(dec_lt(spec_fstop_min(), d) && !dec_lt(spec_fstop_max(), d))
            &&& e matches ValidationError::Range { field: f, value, min, max } && f == &Field::Fstop
                && value@ == dec_render(d) && min@ == dec_render(spec_fstop_min()) && max@
                == dec_render(spec_fstop_max())
        },
    }
}

/// Checks the threshold field.  Its minimum is not an ordinary lower
/// bound: sent exactly, it is accepted and substituted by the
/// negative-infinity literal; otherwise the value must be strictly greater
/// than the minimum and at most the maximum.
pub fn validate_fstop(value: &str) -> (r: Result<String, ValidationError>)
    ensures
        r is Ok <==> fstop_admissible(value@),
        r matches Ok(s) ==> s@ == canonical_fstop(value@),
        r matches Err(e) ==> spec_fstop_error(&e, value@),
{
    let min = fstop_min();
    let max = fstop_max();
    match parse_dec(value) {
        None => Err(ValidationError::ParseDecimal { field: Field::Fstop, raw: value.to_owned() }),
        Some(d) => {
            if d.eq_dec(&min) {
                let mut out = String::new();
                push_str(&mut out, NEG_INFINITY_LITERAL);
                proof {
                    assert(out@ =~= NEG_INFINITY_LITERAL@);
                }
                Ok(out)
            } else if min.lt_dec(&d) && !max.lt_dec(&d) {
                Ok(d.render())
            } else {
                Err(
                    ValidationError::Range {
                        field: Field::Fstop,
                        value: d.render(),
                        min: min.render(),
                        max: max.render(),
                    },
                )
            }
        },
    }
}

/// Whether a whole payload passes validation.
pub open spec fn payload_valid(p: crate::payload::PayloadV) -> bool {
    &&& unsigned_in_bounds(p.nsweeps, NSWEEPS_MIN, NSWEEPS_MAX)
    &&& unsigned_in_bounds(p.nf, NF_MIN, NF_MAX)
    &&& unsigned_in_bounds(p.smax, SMAX_MIN, SMAX_MAX)
    &&& unsigned_in_bounds(p.local, LOCAL_MIN, LOCAL_MAX)
    &&& fstop_admissible(p.fstop)
}

/// The first field, in validation order, that a failing payload is
/// rejected for.
pub open spec fn first_invalid_field(p: crate::payload::PayloadV) -> Field {
    if !unsigned_in_bounds(p.nsweeps, NSWEEPS_MIN, NSWEEPS_MAX) {
        Field::Nsweeps
    } else if !unsigned_in_bounds(p.nf, NF_MIN, NF_MAX) {
        Field::Nf
    } else if !unsigned_in_bounds(p.smax, SMAX_MIN, SMAX_MAX) {
        Field::Smax
    } else if !unsigned_in_bounds(p.local, LOCAL_MIN, LOCAL_MAX) {
        Field::Local
    } else {
        Field::Fstop
    }
}

/// The canonical validated form of a payload that passes validation.
pub open spec fn spec_validated(p: crate::payload::PayloadV) -> crate::payload::PayloadV {
    crate::payload::PayloadV {
        nsweeps: canonical_unsigned(p.nsweeps),
        nf: canonical_unsigned(p.nf),
        smax: canonical_unsigned(p.smax),
        local: canonical_unsigned(p.local),
        fstop: canonical_fstop(p.fstop),
        code: p.code,
    }
}

/// The exact field-scoped error a failing payload is rejected with: the
/// error of its first invalid field, in validation order.
pub open spec fn spec_payload_error(e: &ValidationError, p: crate::payload::PayloadV) -> bool {
    match first_invalid_field(p) {
        Field::Nsweeps => spec_unsigned_error(e, Field::Nsweeps, p.nsweeps, NSWEEPS_MIN, NSWEEPS_MAX),
        Field::Nf => spec_unsigned_error(e, Field::Nf, p.nf, NF_MIN, NF_MAX),
        Field::Smax => spec_unsigned_error(e, Field::Smax, p.smax, SMAX_MIN, SMAX_MAX),
        Field::Local => spec_unsigned_error(e, Field::Local, p.local, LOCAL_MIN, LOCAL_MAX),
        Field::Fstop => spec_fstop_error(e, p.fstop),
    }
}

/// Validates every numeric field of the payload in a fixed order and
/// re-serializes the accepted values; the code fragment is carried through
/// verbatim.
pub fn validate_input(payload: &Payload) -> (r: Result<ValidatedPayload, ValidationError>)
    ensures
        r is Ok <==> payload_valid(payload@),
        r matches Ok(vp) ==> vp@ == spec_validated(payload@),
        r matches Err(e) ==> spec_payload_error(&e, payload@),
{
    let nsweeps = match validate_unsigned(
        Field::Nsweeps,
        payload.nsweeps.as_str(),
        NSWEEPS_MIN,
        NSWEEPS_MAX,
    ) {
        Ok(s) => s,
        Err(e) => {
            return Err(e);
        },
    };
    let nf = match validate_unsigned(Field::Nf, payload.nf.as_str(), NF_MIN, NF_MAX) {
        Ok(s) => s,
        Err(e) => {
            return Err(e);
        },
    };
    let smax = match validate_unsigned(Field::Smax, payload.smax.as_str(), SMAX_MIN, SMAX_MAX) {
        Ok(s) => s,
        Err(e) => {
            return Err(e);
        },
    };
    let local = match validate_unsigned(Field::Local, payload.local.as_str(), LOCAL_MIN, LOCAL_MAX) {
        Ok(s) => s,
        Err(e) => {
            return Err(e);
        },
    };
    let fstop = match validate_fstop(payload.fstop.as_str()) {
        Ok(s) => s,
        Err(e) => {
            return Err(e);
        },
    };
    Ok(
        ValidatedPayload {
            nsweeps,
            nf,
            smax,
            local,
            fstop,
            code: payload.code.clone(),
        },
    )
}

/// The closed bounds are inclusive: the canonical text of any value inside
/// `[min, max]` — the two endpoints included — passes the bound check, and
/// the canonical text of any value outside it, one unit below the minimum
/// or one above the maximum included, fails it.
pub proof fn law_bounds_are_inclusive(v: u32, min: u32, max: u32)
    ensures
        min <= v <= max ==> unsigned_in_bounds(spec_digits(v as nat), min, max),
        v < min || v > max ==> !unsigned_in_bounds(spec_digits(v as nat), min, max),
{
    lemma_digits_roundtrip(v as nat);
}

} // verus!
