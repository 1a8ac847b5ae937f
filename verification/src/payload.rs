//! The request payload: transport-level string fields, not yet validated,
//! and the validated, canonically re-serialized form.

use vstd::prelude::*;

verus! {

/// A parsed inbound request: each numeric field still a raw string, plus
/// the user-authored code fragment, which is never validated.
pub struct Payload {
    pub nsweeps: String,
    pub nf: String,
    pub smax: String,
    pub local: String,
    pub fstop: String,
    pub code: String,
}

/// Mathematical model of a payload: the fields as character sequences.
pub struct PayloadV {
    pub nsweeps: Seq<char>,
    pub nf: Seq<char>,
    pub smax: Seq<char>,
    pub local: Seq<char>,
    pub fstop: Seq<char>,
    pub code: Seq<char>,
}

impl View for Payload {
    type V = PayloadV;

    open spec fn view(&self) -> PayloadV {
        PayloadV {
            nsweeps: self.nsweeps@,
            nf: self.nf@,
            smax: self.smax@,
            local: self.local@,
            fstop: self.fstop@,
            code: self.code@,
        }
    }
}

/// A payload whose numeric fields passed validation and were re-serialized
/// to canonical text; the threshold may hold the negative-infinity
/// sentinel.  The code fragment is carried through verbatim.
pub struct ValidatedPayload {
    pub nsweeps: String,
    pub nf: String,
    pub smax: String,
    pub local: String,
    pub fstop: String,
    pub code: String,
}

impl View for ValidatedPayload {
    type V = PayloadV;

    open spec fn view(&self) -> PayloadV {
        PayloadV {
            nsweeps: self.nsweeps@,
            nf: self.nf@,
            smax: self.smax@,
            local: self.local@,
            fstop: self.fstop@,
            code: self.code@,
        }
    }
}

} // verus!
