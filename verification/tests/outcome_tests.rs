use mcs_backend::outcome::{
    busy_result, execution_failure, serialize_result, spawn_failure, success_result,
    validation_failure, Timestamp,
};
use mcs_backend::payload::ValidatedPayload;
use mcs_backend::validate::{validate_unsigned, Field};

fn ts() -> Timestamp {
    Timestamp { secs: 5, nanos: 7 }
}

fn validated() -> ValidatedPayload {
    ValidatedPayload {
        nsweeps: "20".to_string(),
        nf: "10000".to_string(),
        smax: "100".to_string(),
        local: "0".to_string(),
        fstop: "1.5".to_string(),
        code: "let x = 1;".to_string(),
    }
}

#[test]
fn busy_record_serializes_with_success_true_and_error_set() {
    let body = serialize_result(&busy_result(ts()));
    assert_eq!(
        body,
        "{\"success\":true,\"time\":{\"secs_since_epoch\":5,\"nanos_since_epoch\":7},\"run_output\":null,\"params_used\":null,\"error\":\"Too many requests. The system is at peak capacity. Try again later.\"}"
    );
}

#[test]
fn success_record_carries_stdout_and_params() {
    let r = success_result("xbest: 1\n".to_string(), validated(), ts());
    assert!(r.success);
    assert_eq!(r.run_output.as_deref(), Some("xbest: 1\n"));
    assert!(r.error.is_none());
    let body = serialize_result(&r);
    assert_eq!(
        body,
        "{\"success\":true,\"time\":{\"secs_since_epoch\":5,\"nanos_since_epoch\":7},\"run_output\":\"xbest: 1\\n\",\"params_used\":{\"nsweeps\":\"20\",\"nf\":\"10000\",\"smax\":\"100\",\"local\":\"0\",\"fstop\":\"1.5\",\"code\":\"let x = 1;\"},\"error\":null}"
    );
}

#[test]
fn nonzero_exit_yields_failure_with_stderr_in_error() {
    let r = execution_failure("error[E0425]: cannot find value `u`", ts());
    assert!(!r.success);
    assert!(r.run_output.is_none());
    let err = r.error.clone().unwrap();
    assert!(err.starts_with("Cargo execution error:\n"));
    assert!(err.contains("error[E0425]: cannot find value `u`"));
}

#[test]
fn spawn_failure_is_reported_with_its_detail() {
    let r = spawn_failure("Failed to execute cargo command: No such file or directory", ts());
    assert!(!r.success);
    assert!(r.run_output.is_none());
    assert_eq!(
        r.error.as_deref(),
        Some("Failed to execute cargo command: No such file or directory")
    );
}

#[test]
fn validation_failure_record_carries_the_message() {
    let e = validate_unsigned(Field::Nsweeps, "19", 20, 3000).err().unwrap();
    let r = validation_failure(&e, ts());
    assert!(!r.success);
    assert_eq!(r.error.as_deref(), Some("Value 19 is out of acceptable range 20:3000"));
}

#[test]
fn serialized_record_is_valid_json() {
    let r = success_result("out \"quoted\"\n".to_string(), validated(), ts());
    let body = serialize_result(&r);
    let parsed: serde_json::Value = serde_json::from_str(&body).unwrap();
    assert_eq!(parsed["success"], serde_json::Value::Bool(true));
    assert_eq!(parsed["run_output"].as_str(), Some("out \"quoted\"\n"));
    assert_eq!(parsed["params_used"]["nsweeps"].as_str(), Some("20"));
}
