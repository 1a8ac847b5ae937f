use mcs_backend::payload::ValidatedPayload;
use mcs_backend::render::{render_cargo_manifest, render_program};

fn validated(fstop: &str) -> ValidatedPayload {
    ValidatedPayload {
        nsweeps: "20".to_string(),
        nf: "10000".to_string(),
        smax: "100".to_string(),
        local: "0".to_string(),
        fstop: fstop.to_string(),
        code: "const N: usize = 2;".to_string(),
    }
}

#[test]
fn manifest_declares_the_disposable_project() {
    let m = render_cargo_manifest();
    assert!(m.contains("name = \"temp_project\""));
    assert!(m.contains("nalgebra = \"0.33.2\""));
    assert!(m.contains("Rust_MCS"));
}

#[test]
fn program_splices_every_parameter() {
    let text = render_program(&validated("1.5"));
    assert!(text.contains("let nsweeps = 20;"));
    assert!(text.contains("let nf = 10000;"));
    assert!(text.contains("const SMAX: usize = 100;"));
    assert!(text.contains("let local = 0;"));
    assert!(text.contains("let fstop = 1.5;"));
    assert!(text.contains("const N: usize = 2;"));
    assert!(text.contains("mcs::<SMAX, N>"));
}

#[test]
fn program_splices_the_sentinel_verbatim() {
    let text = render_program(&validated("f64::NEG_INFINITY"));
    assert!(text.contains("let fstop = f64::NEG_INFINITY;"));
}

#[test]
fn program_splices_the_code_fragment_unchanged() {
    let mut vp = validated("1.5");
    vp.code = "let u = \"weird \\\" text\";\n// comment".to_string();
    let text = render_program(&vp);
    assert!(text.contains("let u = \"weird \\\" text\";\n// comment"));
}
