use herdr::error::ApiError;
use herdr::json::{Json, JsonNumber};
use herdr::wait::{
    app_answer, compile_output_match, cursor_wait_check, cursor_wait_step, kind_targets,
    kind_wait_step, output_wait_step, probe_wait_timeout, result_text_of, screen_change_step,
    screen_change_timing, text_wait_step, IdleTracker, KindTarget, OutputMatch, OutputStep,
    WaitReply, WaitStep,
};

fn s(t: &str) -> Json {
    Json::Str(t.to_string())
}

fn num(n: u64) -> Json {
    Json::Number(JsonNumber { as_u64: Some(n), text: n.to_string() })
}

fn obj(members: Vec<(&str, Json)>) -> Json {
    Json::Object(members.into_iter().map(|(k, v)| (k.to_string(), v)).collect())
}

fn failed(step: &WaitStep) -> Option<ApiError> {
    match step {
        WaitStep::Reply(WaitReply::Failed(e)) => Some(e.clone()),
        _ => None,
    }
}

#[test]
fn answers_from_the_app() {
    match app_answer("r1", "garbage".to_string(), None) {
        Err(WaitReply::Forward(t)) => assert_eq!(t, "garbage"),
        _ => panic!("expected a forwarded answer"),
    }
    let error = obj(vec![("error", obj(vec![("code", s("pane_not_found"))])), ("id", s("r1:screen"))]);
    match app_answer("r1", String::new(), Some(error)) {
        Err(WaitReply::AppError(j)) => assert_eq!(
            j,
            obj(vec![("error", obj(vec![("code", s("pane_not_found"))])), ("id", s("r1"))])
        ),
        _ => panic!("expected the app's error"),
    }
    let error_without_id = obj(vec![("error", Json::Null)]);
    match app_answer("r2", String::new(), Some(error_without_id)) {
        Err(WaitReply::AppError(j)) => assert_eq!(j, obj(vec![("error", Json::Null), ("id", s("r2"))])),
        _ => panic!("expected the app's error"),
    }
    let fine = obj(vec![("result", obj(vec![("text", s("hello"))]))]);
    match app_answer("r1", String::new(), Some(fine)) {
        Ok(v) => assert_eq!(result_text_of(&v, "text"), "hello"),
        _ => panic!("expected a snapshot"),
    }
}

#[test]
fn result_text_defaults_to_empty() {
    assert_eq!(result_text_of(&obj(vec![("result", obj(vec![("text", num(3))]))]), "text"), "");
    assert_eq!(result_text_of(&Json::Null, "text"), "");
}

#[test]
fn text_wait_decisions() {
    match text_wait_step("p1", "abc".to_string(), Some("abc".to_string()), true) {
        WaitStep::Reply(WaitReply::TextMatched { pane_id, matched_line, text }) => {
            assert_eq!(pane_id, "p1");
            assert_eq!(matched_line, "abc");
            assert_eq!(text, "abc");
        }
        _ => panic!("expected a match"),
    }
    let timed_out = text_wait_step("p1", "abc".to_string(), None, true);
    assert_eq!(
        failed(&timed_out),
        Some(ApiError { code: "timeout".into(), message: "timed out waiting for screen text match".into() })
    );
    assert!(matches!(text_wait_step("p1", "abc".to_string(), None, false), WaitStep::Poll));
}

#[test]
fn idle_needs_two_equal_snapshots_settle_apart() {
    let mut t = IdleTracker::new();
    assert!(matches!(t.step("p", "a".to_string(), 0, 100, 1000), WaitStep::Poll));
    assert!(matches!(t.step("p", "a".to_string(), 50, 100, 1000), WaitStep::Poll));
    assert!(matches!(t.step("p", "b".to_string(), 120, 100, 1000), WaitStep::Poll));
    assert!(matches!(t.step("p", "b".to_string(), 200, 100, 1000), WaitStep::Poll));
    match t.step("p", "b".to_string(), 230, 100, 1000) {
        WaitStep::Reply(WaitReply::Idle { pane_id, idle_ms }) => {
            assert_eq!(pane_id, "p");
            assert_eq!(idle_ms, 110);
        }
        _ => panic!("expected idle"),
    }
    let mut u = IdleTracker::new();
    let step = u.step("p", "x".to_string(), 1000, 100, 1000);
    assert_eq!(
        failed(&step),
        Some(ApiError { code: "timeout".into(), message: "timed out waiting for pane to go idle".into() })
    );
}

#[test]
fn kind_waits() {
    assert_eq!(probe_wait_timeout(None), 5000);
    assert_eq!(probe_wait_timeout(Some(7)), 7);
    assert!(kind_targets(KindTarget::Many(vec![])).is_err());
    let targets = kind_targets(KindTarget::Single("vim_normal".to_string())).unwrap();
    let probe = obj(vec![(
        "result",
        obj(vec![("kind", s("vim_normal")), ("cursor_row", num(4)), ("cursor_col", num((1u64 << 32) + 2))]),
    )]);
    match kind_wait_step("p", &probe, &targets, false) {
        WaitStep::Reply(WaitReply::KindMatched { matched, cursor_row, cursor_col, .. }) => {
            assert_eq!(matched, "vim_normal");
            assert_eq!(cursor_row, Some(4));
            assert_eq!(cursor_col, Some(2));
        }
        _ => panic!("expected a match"),
    }
    let other = obj(vec![("result", obj(vec![("kind", s("shell_prompt"))]))]);
    assert_eq!(
        failed(&kind_wait_step("p", &other, &targets, true)),
        Some(ApiError { code: "timeout".into(), message: "timed out waiting for kind; last=shell_prompt".into() })
    );
    assert!(matches!(kind_wait_step("p", &other, &targets, false), WaitStep::Poll));
}

#[test]
fn cursor_waits() {
    assert!(cursor_wait_check(None, None, &None).is_err());
    assert!(cursor_wait_check(Some(0), None, &None).is_ok());
    let probe = obj(vec![("result", obj(vec![("kind", s("vim_normal")), ("cursor_row", num(0))]))]);
    assert!(matches!(
        cursor_wait_step("p", &probe, Some(0), None, &Some("vim_normal".to_string()), false),
        WaitStep::Reply(WaitReply::CursorMatched { cursor_row: Some(0), cursor_col: None, .. })
    ));
    assert!(matches!(cursor_wait_step("p", &probe, None, Some(3), &None, false), WaitStep::Poll));
    assert_eq!(
        failed(&cursor_wait_step("p", &probe, Some(1), None, &None, true)),
        Some(ApiError { code: "timeout".into(), message: "timed out waiting for cursor".into() })
    );
}

#[test]
fn screen_change_waits() {
    assert_eq!(screen_change_timing(None, None), (1500, 25));
    assert_eq!(screen_change_timing(Some(10), Some(5)), (10, 5));
    let digest = obj(vec![("result", obj(vec![("hash", s("abc"))]))]);
    assert!(matches!(
        screen_change_step("p", &digest, "old", 1500, false),
        WaitStep::Reply(WaitReply::ScreenChanged { .. })
    ));
    assert!(matches!(screen_change_step("p", &digest, "abc", 1500, false), WaitStep::Poll));
    assert_eq!(
        failed(&screen_change_step("p", &digest, "abc", 1500, true)),
        Some(ApiError {
            code: "timeout".into(),
            message: "screen did not change within 1500ms \u{2014} keystroke silently dropped (last_hash=abc)".into()
        })
    );
    let empty = obj(vec![("result", obj(vec![]))]);
    assert!(matches!(screen_change_step("p", &empty, "abc", 1500, false), WaitStep::Poll));
}

#[test]
fn output_waits() {
    assert!(matches!(compile_output_match(&OutputMatch::Substring { value: "x".into() }), Ok(None)));
    assert!(matches!(compile_output_match(&OutputMatch::Regex { value: "a+b".into() }), Ok(Some(_))));
    match compile_output_match(&OutputMatch::Regex { value: "(".into() }) {
        Err(e) => {
            assert_eq!(e.code, "invalid_regex");
            assert!(!e.message.is_empty());
        }
        _ => panic!("expected a regex error"),
    }
    assert!(matches!(output_wait_step(true, true, true), OutputStep::Matched));
    assert!(matches!(output_wait_step(true, false, false), OutputStep::Poll));
    assert!(matches!(output_wait_step(false, true, false), OutputStep::Failed(_)));
    assert!(matches!(output_wait_step(true, false, true), OutputStep::Failed(_)));
}

#[test]
fn compiled_regex_keeps_its_pattern() {
    match compile_output_match(&OutputMatch::Regex { value: "err(or)?: \\d+".into() }) {
        Ok(Some(re)) => {
            assert_eq!(re.as_str(), "err(or)?: \\d+");
            assert!(re.is_match("error: 42"));
            assert!(!re.is_match("all good"));
        }
        _ => panic!("expected a compiled regex"),
    }
}

#[test]
fn idle_answer_leaves_the_tracker_as_it_was() {
    let mut t = IdleTracker::new();
    assert!(matches!(t.step("p", "q".to_string(), 10, 100, 1000), WaitStep::Poll));
    assert!(matches!(t.step("p", "q".to_string(), 60, 100, 1000), WaitStep::Poll));
    assert!(matches!(t.step("p", "q".to_string(), 110, 100, 1000), WaitStep::Reply(WaitReply::Idle { .. })));
    assert_eq!(t.last_text, Some("q".to_string()));
    assert_eq!(t.stable_since, Some(10));
}
