use mcs_backend::fingerprint::generate_cache_key;
use mcs_backend::gate::Gate;
use mcs_backend::outcome::Timestamp;
use mcs_backend::payload::Payload;
use mcs_backend::pipeline::{begin, finish_execution, finish_spawn_failure, plan_work, reject_busy, resolve_cache, CacheDecision, WorkPlan};

fn payload() -> Payload {
    Payload {
        nsweeps: "25".to_string(),
        nf: "10000".to_string(),
        smax: "100".to_string(),
        local: "3".to_string(),
        fstop: "-1000000".to_string(),
        code: "const N: usize = 2; let u = SVector::from_row_slice(&[0., 0.]); let v = SVector::from_row_slice(&[1., 1.]); fn func(x: &SVector<f64, 2>) -> f64 { x.norm() }".to_string(),
    }
}

fn ts() -> Timestamp {
    Timestamp { secs: 100, nanos: 0 }
}

#[test]
fn begin_derives_the_fingerprint() {
    let p = payload();
    let expected = generate_cache_key(&p);
    let pending = begin(p);
    assert_eq!(pending.key, expected);
}

#[test]
fn cache_hit_is_served_verbatim() {
    let pending = begin(payload());
    let stored = "{\"success\":true}".to_string();
    match resolve_cache(pending, Some(stored.clone())) {
        CacheDecision::Hit { body } => assert_eq!(body, stored),
        CacheDecision::Miss { .. } => panic!("expected a hit"),
    }
}

#[test]
fn cache_miss_proceeds_with_the_same_request() {
    let pending = begin(payload());
    let key = pending.key.clone();
    match resolve_cache(pending, None) {
        CacheDecision::Miss { pending } => assert_eq!(pending.key, key),
        CacheDecision::Hit { .. } => panic!("expected a miss"),
    }
}

#[test]
fn busy_rejection_is_immediate_and_uncached() {
    let o = reject_busy("abc".to_string(), ts());
    assert!(!o.store_in_cache);
    assert!(!o.release_gate);
    assert!(o.body.contains("\"success\":true"));
    assert!(o.body.contains("Too many requests. The system is at peak capacity. Try again later."));
}

#[test]
fn gate_admits_exactly_one_holder() {
    let mut g = Gate::new();
    assert!(g.try_acquire());
    assert!(!g.try_acquire());
    assert!(!g.try_acquire());
    g.release();
    assert!(g.try_acquire());
    g.release();
    g.release();
    assert!(g.try_acquire());
}

#[test]
fn valid_payload_is_planned_for_execution() {
    let pending = begin(payload());
    let key = pending.key.clone();
    match plan_work(pending, ts()) {
        WorkPlan::Execute { job } => {
            assert_eq!(job.key, key);
            assert!(job.manifest.contains("temp_project"));
            assert!(job.program.contains("let nsweeps = 25;"));
            assert!(job.program.contains("let fstop = f64::NEG_INFINITY;"));
            assert!(job.program.contains("fn func(x: &SVector<f64, 2>) -> f64 { x.norm() }"));
        },
        WorkPlan::Finish { .. } => panic!("expected an execution plan"),
    }
}

#[test]
fn invalid_payload_is_answered_and_cached_without_running() {
    let mut p = payload();
    p.nsweeps = "19".to_string();
    let pending = begin(p);
    match plan_work(pending, ts()) {
        WorkPlan::Finish { outcome } => {
            assert!(outcome.store_in_cache);
            assert!(outcome.release_gate);
            assert_eq!(outcome.ttl_secs, 86400);
            assert!(outcome.body.contains("\"success\":false"));
            assert!(outcome.body.contains("Value 19 is out of acceptable range 20:3000"));
        },
        WorkPlan::Execute { .. } => panic!("expected a finished outcome"),
    }
}

#[test]
fn failed_run_is_cacheable_and_reports_stderr() {
    let pending = begin(payload());
    match plan_work(pending, ts()) {
        WorkPlan::Execute { job } => {
            let o = finish_execution(job, false, "", "error: could not compile", ts());
            assert!(o.store_in_cache);
            assert!(o.release_gate);
            assert_eq!(o.ttl_secs, 86400);
            assert!(o.body.contains("\"success\":false"));
            assert!(o.body.contains("Cargo execution error:\\nerror: could not compile"));
        },
        WorkPlan::Finish { .. } => panic!("expected an execution plan"),
    }
}

#[test]
fn successful_run_is_cached_with_its_output_and_params() {
    let pending = begin(payload());
    match plan_work(pending, ts()) {
        WorkPlan::Execute { job } => {
            let o = finish_execution(job, true, "xbest: 0.5\n", "", ts());
            assert!(o.store_in_cache);
            assert!(o.release_gate);
            assert!(o.body.contains("\"success\":true"));
            assert!(o.body.contains("xbest: 0.5\\n"));
            assert!(o.body.contains("\"nsweeps\":\"25\""));
            assert!(o.body.contains("\"fstop\":\"f64::NEG_INFINITY\""));
        },
        WorkPlan::Finish { .. } => panic!("expected an execution plan"),
    }
}

#[test]
fn spawn_failure_is_cached_with_its_detail() {
    let pending = begin(payload());
    match plan_work(pending, ts()) {
        WorkPlan::Execute { job } => {
            let o = finish_spawn_failure(job, "Failed to execute cargo command: No such file or directory", ts());
            assert!(o.store_in_cache);
            assert!(o.release_gate);
            assert!(o.body.contains("\"success\":false"));
            assert!(o.body.contains("Failed to execute cargo command: No such file or directory"));
        },
        WorkPlan::Finish { .. } => panic!("expected an execution plan"),
    }
}
