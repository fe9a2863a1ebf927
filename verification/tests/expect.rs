use herdr::expect::{
    parse_outcome, step_request_id, sub_request_id, tail_request_rows, tail_rows_or_default, tail_text,
    ExpectProgress, StepOutcome,
};
use herdr::json::Json;

fn s(t: &str) -> Json {
    Json::Str(t.to_string())
}

fn obj(members: Vec<(&str, Json)>) -> Json {
    Json::Object(members.into_iter().map(|(k, v)| (k.to_string(), v)).collect())
}

fn failure(o: StepOutcome) -> Option<(String, String)> {
    match o {
        StepOutcome::Success => None,
        StepOutcome::Failure { code, message } => Some((code, message)),
    }
}

#[test]
fn outcomes_from_answers() {
    assert_eq!(failure(parse_outcome(Ok(obj(vec![("result", Json::Null)])))), None);
    assert_eq!(
        failure(parse_outcome(Err("expected value".to_string()))),
        Some(("invalid_response".to_string(), "expected value".to_string()))
    );
    assert_eq!(
        failure(parse_outcome(Ok(obj(vec![("error", obj(vec![("code", s("timeout")), ("message", s("late"))]))])))),
        Some(("timeout".to_string(), "late".to_string()))
    );
    assert_eq!(
        failure(parse_outcome(Ok(obj(vec![("error", Json::Null)])))),
        Some(("error".to_string(), String::new()))
    );
}

#[test]
fn request_ids() {
    assert_eq!(step_request_id("r1", 0), "r1:step0");
    assert_eq!(step_request_id("r1", 12), "r1:step12");
    assert_eq!(sub_request_id("r1", "tail"), "r1:tail");
}

#[test]
fn progress_counts_and_stops() {
    let mut p = ExpectProgress::new();
    assert!(p.record(0, StepOutcome::Success, true));
    assert!(!p.record(1, StepOutcome::Failure { code: "timeout".into(), message: "m".into() }, true));
    assert_eq!(p.completed, 1);
    assert_eq!(p.steps.len(), 2);
    assert!(p.steps[0].ok);
    assert_eq!(p.steps[1].code.as_deref(), Some("timeout"));
    let e = p.error.as_ref().unwrap();
    assert_eq!(e.index, Some(1));
    assert_eq!(e.code, "timeout");
    let mut q = ExpectProgress::new();
    assert!(q.record(0, StepOutcome::Failure { code: "a".into(), message: "x".into() }, false));
    assert!(q.record(1, StepOutcome::Success, false));
    assert_eq!(q.completed, 1);
    assert_eq!(q.error.as_ref().unwrap().index, Some(0));
}

#[test]
fn tail_of_screen() {
    assert_eq!(tail_rows_or_default(None), 5);
    assert_eq!(tail_rows_or_default(Some(0)), 0);
    assert_eq!(tail_text(None), "");
    assert_eq!(tail_text(Some(obj(vec![("result", obj(vec![("text", s("$ "))]))]))), "$ ");
}

#[test]
fn zero_tail_rows_ask_for_nothing() {
    assert_eq!(tail_request_rows(0), None);
    assert_eq!(tail_request_rows(5), Some(5));
    assert_eq!(tail_request_rows(tail_rows_or_default(None)), Some(5));
}
