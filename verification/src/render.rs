//! The template renderer: merges the validated parameters and the raw code
//! fragment into the fixed program skeleton.  The skeleton declares what
//! the fragment must supply (an objective function, bound vectors, a
//! dimensionality constant); nothing here examines or restricts the
//! fragment — isolation is the executor's concern, not the renderer's.

use vstd::prelude::*;
use crate::bounds::NEG_INFINITY_LITERAL;
use crate::decimal::{dec_eq, spec_fstop_min, spec_parse_dec};
use crate::payload::{PayloadV, ValidatedPayload};
use crate::text::push_str;
use crate::validate::{fstop_admissible, spec_validated};

verus! {

/// The build manifest of the disposable project the rendered program is
/// compiled in.
pub const MANIFEST_TEXT: &'static str = "\n[package]\nname = \"temp_project\"\nversion = \"0.1.0\"\nedition = \"2024\"\n\n[dependencies]\nnalgebra = \"0.33.2\"\nRust_MCS = { git = \"https://github.com/SergeiGL/Rust_MCS\" }\n";

pub const PROGRAM_HEAD: &'static str = "\nuse nalgebra::{SVector, SMatrix};\nuse Rust_MCS::*;\n\nfn main() {\n    let nsweeps = ";

pub const SEG_NF: &'static str = ";    // maximum number of sweeps\n    let nf = ";

pub const SEG_SMAX: &'static str = ";              // maximum number of function evaluations\n\n    const SMAX: usize = ";

pub const SEG_LOCAL: &'static str = ";                      // number of levels used\n    let local = ";

pub const SEG_FSTOP: &'static str = ";                             // local search level\n    let fstop = ";

pub const SEG_CODE: &'static str = ";                             // target objective value, stop when reached\n    let gamma = 2e-14;                               // acceptable relative accuracy for local search\n\n    ";

pub const PROGRAM_TAIL: &'static str = "\n\n    let hess = SMatrix::<f64, N, N>::repeat(1.);     // sparsity pattern of Hessian\n\n\n    let (xbest, fbest, _, _, _, _, exitflag) = mcs::<SMAX, N>(func, &u, &v, nsweeps, nf, local, gamma, &hess).unwrap();\n    let _ = fstop;\n    println!(\"xbest: {xbest}\");\n    println!(\"fbest: {fbest:?}\");\n    println!(\"flag: {exitflag:?}\");\n}";

/// The full text of the rendered program: the fixed skeleton with the
/// validated numeric fields and the verbatim code fragment spliced in.
pub open spec fn program_text(vp: PayloadV) -> Seq<char> {
    PROGRAM_HEAD@ + vp.nsweeps + SEG_NF@ + vp.nf + SEG_SMAX@ + vp.smax + SEG_LOCAL@ + vp.local
        + SEG_FSTOP@ + vp.fstop + SEG_CODE@ + vp.code + PROGRAM_TAIL@
}

/// Renders the build manifest of the disposable project.
pub fn render_cargo_manifest() -> (r: String)
    ensures
        r@ == MANIFEST_TEXT@,
{
    let mut out = String::new();
    push_str(&mut out, MANIFEST_TEXT);
    proof {
        assert(out@ =~= MANIFEST_TEXT@);
    }
    out
}

/// Renders the program: the skeleton parameterized by the validated fields,
/// with the user's code fragment spliced in verbatim.
pub fn render_program(vp: &ValidatedPayload) -> (r: String)
    ensures
        r@ == program_text(vp@),
{
    let mut out = String::new();
    push_str(&mut out, PROGRAM_HEAD);
    push_str(&mut out, vp.nsweeps.as_str());
    push_str(&mut out, SEG_NF);
    push_str(&mut out, vp.nf.as_str());
    push_str(&mut out, SEG_SMAX);
    push_str(&mut out, vp.smax.as_str());
    push_str(&mut out, SEG_LOCAL);
    push_str(&mut out, vp.local.as_str());
    push_str(&mut out, SEG_FSTOP);
    push_str(&mut out, vp.fstop.as_str());
    push_str(&mut out, SEG_CODE);
    push_str(&mut out, vp.code.as_str());
    push_str(&mut out, PROGRAM_TAIL);
    proof {
        assert(out@ =~= program_text(vp@));
    }
    out
}

/// A threshold sent exactly at its configured minimum is accepted, and in
/// the validated payload — and so in the rendered program, where the field
/// is spliced verbatim — it stands as the negative-infinity sentinel, not
/// as an ordinary bound-checked number.
pub proof fn law_min_threshold_renders_neg_infinity(p: PayloadV)
    requires
        spec_parse_dec(p.fstop) is Some,
        dec_eq(spec_parse_dec(p.fstop)->Some_0, spec_fstop_min()),
    ensures
        fstop_admissible(p.fstop),
        spec_validated(p).fstop == NEG_INFINITY_LITERAL@,
        ({
            let text = program_text(spec_validated(p));
            let at = PROGRAM_HEAD@.len() + spec_validated(p).nsweeps.len() + SEG_NF@.len()
                + spec_validated(p).nf.len() + SEG_SMAX@.len() + spec_validated(p).smax.len()
                + SEG_LOCAL@.len() + spec_validated(p).local.len() + SEG_FSTOP@.len();
            text.subrange(at as int, (at + NEG_INFINITY_LITERAL@.len()) as int) == NEG_INFINITY_LITERAL@
        }),
{
    let vp = spec_validated(p);
    let text = program_text(vp);
    let at = PROGRAM_HEAD@.len() + vp.nsweeps.len() + SEG_NF@.len() + vp.nf.len() + SEG_SMAX@.len()
        + vp.smax.len() + SEG_LOCAL@.len() + vp.local.len() + SEG_FSTOP@.len();
    assert(text.subrange(at as int, (at + NEG_INFINITY_LITERAL@.len()) as int) =~= vp.fstop);
}

} // verus!
