use herdr::tui_probe::{classify, looks_like_vim_status_line};

#[test]
fn shell_prompt_dollar() {
    let out = classify(&[String::new(), "$ ".to_string()], Some(1), Some(2));
    assert_eq!(out.kind, "shell_prompt");
}

#[test]
fn vim_insert_marker() {
    let out = classify(
        &[
            "hello".to_string(),
            "~".to_string(),
            "-- INSERT --".to_string(),
        ],
        Some(0),
        Some(5),
    );
    assert_eq!(out.kind, "vim_insert");
}

#[test]
fn less_end_marker() {
    let out = classify(
        &[
            "line1".to_string(),
            "line2".to_string(),
            "(END)".to_string(),
        ],
        Some(2),
        Some(5),
    );
    assert_eq!(out.kind, "less_pager");
}

#[test]
fn empty_rows_unknown() {
    let out = classify(&[], None, None);
    assert_eq!(out.kind, "unknown");
}

#[test]
fn input_prompt_password() {
    let out = classify(&["Password: ".to_string()], Some(0), Some(10));
    assert_eq!(out.kind, "input_prompt");
}

#[test]
fn nvim_lualine_top_position() {
    let out = classify(
        &[
            String::new(),
            String::new(),
            " hello.txt  hello.txt                                       Top    1:1".to_string(),
        ],
        Some(0),
        Some(0),
    );
    assert_eq!(out.kind, "vim_normal");
}

#[test]
fn lualine_bot_with_percent() {
    let out = classify(
        &[
            "buffer".to_string(),
            "~".to_string(),
            " file.py                                              Bot 47%".to_string(),
        ],
        Some(0),
        Some(0),
    );
    assert_eq!(out.kind, "vim_normal");
}

#[test]
fn helper_recognizes_coordinate() {
    assert!(looks_like_vim_status_line(" file.txt  Top    1:1"));
    assert!(looks_like_vim_status_line(" file.py  Bot 25:80"));
    assert!(looks_like_vim_status_line(" 1,1     All"));
    assert!(!looks_like_vim_status_line("$ "));
    assert!(!looks_like_vim_status_line(""));
}

fn rows(texts: &[&str]) -> Vec<String> {
    texts.iter().map(|t| t.to_string()).collect()
}

#[test]
fn blank_rows_are_unknown_without_indicator() {
    let out = classify(&rows(&["", "", ""]), Some(2), None);
    assert_eq!(out.kind, "unknown");
    assert!(out.indicators.is_empty());
}

#[test]
fn visual_and_replace_markers() {
    let out = classify(&rows(&["x", "-- VISUAL --"]), None, None);
    assert_eq!(out.kind, "vim_visual");
    assert_eq!(out.indicators, vec!["-- VISUAL --".to_string()]);
    let out = classify(&rows(&["x", "-- REPLACE --"]), None, None);
    assert_eq!(out.kind, "vim_replace");
}

#[test]
fn command_line_needs_cursor_on_last_row() {
    let out = classify(&rows(&["text", ":wq"]), Some(1), None);
    assert_eq!(out.kind, "vim_command");
    let out = classify(&rows(&["text", ":wq"]), Some(0), None);
    assert_eq!(out.kind, "running_command");
    let out = classify(&rows(&["text", ":"]), Some(0), None);
    assert_eq!(out.kind, "less_pager");
}

#[test]
fn long_command_line_is_not_vim_command() {
    let long = format!(":{}", "x".repeat(200));
    let out = classify(&rows(&[&long]), Some(0), None);
    assert_eq!(out.kind, "unknown");
    assert_eq!(out.indicators, vec![long]);
}

#[test]
fn pager_markers() {
    assert_eq!(classify(&rows(&["a", "--More--(50%)"]), None, None).kind, "less_pager");
    assert_eq!(classify(&rows(&["Manual page ls(1)"]), None, None).kind, "less_pager");
}

#[test]
fn prompt_endings() {
    assert_eq!(classify(&rows(&["user@host:~#"]), Some(0), None).kind, "shell_prompt");
    assert_eq!(classify(&rows(&["In ["]), Some(0), None).kind, "repl_prompt");
    assert_eq!(classify(&rows(&[">>> "]), Some(0), None).kind, "shell_prompt");
    assert_eq!(classify(&rows(&["a", "$ "]), Some(0), None).kind, "running_command");
}

#[test]
fn input_prompts_are_case_insensitive() {
    assert_eq!(classify(&rows(&["PASSWORD: "]), None, None).kind, "input_prompt");
    assert_eq!(classify(&rows(&["Continue? [Y/n]"]), None, None).kind, "input_prompt");
    assert_eq!(classify(&rows(&["Proceed (YES/NO)"]), None, None).kind, "input_prompt");
    assert_eq!(classify(&rows(&["Really? "]), None, None).kind, "input_prompt");
}

#[test]
fn status_line_above_bottom_row() {
    let out = classify(&rows(&["text", "main.rs 3,4 All", ""]), None, None);
    assert_eq!(out.kind, "vim_normal");
    assert_eq!(out.indicators, vec!["main.rs 3,4 All".to_string()]);
}

#[test]
fn tilde_rows_mean_vim_buffer() {
    let out = classify(&rows(&["x", "~", "~", "~", "y"]), None, None);
    assert_eq!(out.kind, "vim_normal");
    assert_eq!(out.indicators, vec!["tilde_buffer".to_string()]);
}

#[test]
fn coordinate_must_stand_alone() {
    assert!(!looks_like_vim_status_line("about 12,000,000 lines"));
    assert!(looks_like_vim_status_line("x 12:30 y"));
    assert!(!looks_like_vim_status_line("ratio 1: 2"));
    assert!(looks_like_vim_status_line("[+] x"));
    assert!(looks_like_vim_status_line("50 %"));
    assert!(!looks_like_vim_status_line("no digits %"));
    assert!(!looks_like_vim_status_line("Top"));
}

#[test]
fn byte_length_counts_utf8() {
    // three characters, six bytes: long enough
    assert!(looks_like_vim_status_line("éTop"));
}

#[test]
fn thousands_count_is_no_coordinate() {
    assert!(!looks_like_vim_status_line("12,000 lines"));
    assert!(!looks_like_vim_status_line("wrote 1,024"));
    assert!(looks_like_vim_status_line("12,40 lines"));
    assert!(looks_like_vim_status_line("12:000"));
    assert!(looks_like_vim_status_line("12,3456"));
}
