use herdr::agent::{
    detect_state_from_api, encode_api_text, normalize_custom_status,
    normalize_reported_agent_label, pane_agent_status, tab_attention_priority, AgentState,
    AgentStatus, PaneAgentState,
};

#[test]
fn attention_order() {
    assert_eq!(tab_attention_priority(AgentState::Blocked, true), 4);
    assert_eq!(tab_attention_priority(AgentState::Blocked, false), 4);
    assert_eq!(tab_attention_priority(AgentState::Idle, false), 3);
    assert_eq!(tab_attention_priority(AgentState::Working, true), 2);
    assert_eq!(tab_attention_priority(AgentState::Idle, true), 1);
    assert_eq!(tab_attention_priority(AgentState::Unknown, false), 0);
}

#[test]
fn reported_status() {
    assert_eq!(pane_agent_status(AgentState::Idle, false), AgentStatus::Done);
    assert_eq!(pane_agent_status(AgentState::Idle, true), AgentStatus::Idle);
    assert_eq!(pane_agent_status(AgentState::Working, false), AgentStatus::Working);
    assert_eq!(pane_agent_status(AgentState::Blocked, true), AgentStatus::Blocked);
    assert_eq!(pane_agent_status(AgentState::Unknown, true), AgentStatus::Unknown);
}

#[test]
fn api_states_map_one_to_one() {
    assert_eq!(detect_state_from_api(PaneAgentState::Idle), AgentState::Idle);
    assert_eq!(detect_state_from_api(PaneAgentState::Working), AgentState::Working);
    assert_eq!(detect_state_from_api(PaneAgentState::Blocked), AgentState::Blocked);
    assert_eq!(detect_state_from_api(PaneAgentState::Unknown), AgentState::Unknown);
}

#[test]
fn custom_status_is_cleaned() {
    assert_eq!(normalize_custom_status(None), None);
    assert_eq!(normalize_custom_status(Some("   ".to_string())), None);
    assert_eq!(normalize_custom_status(Some("\u{1}\u{2}".to_string())), None);
    assert_eq!(
        normalize_custom_status(Some("  build\u{7} ok \n".to_string())),
        Some("build ok".to_string())
    );
    assert_eq!(
        normalize_custom_status(Some("\u{3000}wide\u{3000}".to_string())),
        Some("wide".to_string())
    );
}

#[test]
fn custom_status_is_cut_to_32_chars() {
    let long = "x".repeat(40);
    assert_eq!(normalize_custom_status(Some(long)), Some("x".repeat(32)));
    let spaced = format!("{} yz", "a".repeat(31));
    assert_eq!(normalize_custom_status(Some(spaced)), Some("a".repeat(31)));
    let with_controls = format!("\u{1b}{}", "é".repeat(33));
    assert_eq!(normalize_custom_status(Some(with_controls)), Some("é".repeat(32)));
}

#[test]
fn agent_labels() {
    let canonical = |s: &str| {
        if s.eq_ignore_ascii_case("codex") {
            Some("codex".to_string())
        } else {
            None
        }
    };
    assert_eq!(normalize_reported_agent_label("  Codex ", canonical), Some("codex".to_string()));
    assert_eq!(normalize_reported_agent_label(" my-bot ", canonical), Some("my-bot".to_string()));
    assert_eq!(normalize_reported_agent_label("  ", canonical), None);
}

#[test]
fn pasted_text_bytes() {
    assert_eq!(encode_api_text(Some(true), "hi"), b"\x1b[200~hi\x1b[201~".to_vec());
    assert_eq!(encode_api_text(Some(false), "hi"), b"hi".to_vec());
    assert_eq!(encode_api_text(None, "é"), vec![0xc3, 0xa9]);
}

#[test]
fn kept_custom_status_is_kept_again_unchanged() {
    let once = normalize_custom_status(Some("  \u{7}building   the   thing that takes a long while  ".to_string()));
    assert_eq!(once, Some("building   the   thing that take".to_string()));
    let twice = normalize_custom_status(once.clone());
    assert_eq!(twice, once);
    let padded = normalize_custom_status(Some("abcdefghijklmnopqrstuvwxyz01234 x".to_string()));
    assert_eq!(padded, Some("abcdefghijklmnopqrstuvwxyz01234".to_string()));
    assert_eq!(normalize_custom_status(padded.clone()), padded);
}
