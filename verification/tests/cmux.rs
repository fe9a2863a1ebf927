use herdr::cmux::{
    pane_focus_result, pane_focus_target, pane_not_found, pane_resize_check, pane_swap_plan,
    pane_swap_result, pane_zoom_target, reorder_tabs, reordered_active_tab, split_ratio_result,
    tab_in_workspace_check, tab_not_found, tab_public_id, tab_reorder_plan, workspace_not_found,
    zoom_applies, SwapLookup,
};
use herdr::error::ApiError;

fn err(code: &str, message: &str) -> ApiError {
    ApiError { code: code.to_string(), message: message.to_string() }
}

#[test]
fn not_found_errors() {
    assert_eq!(pane_not_found("w1-2"), err("pane_not_found", "pane w1-2 not found"));
    assert_eq!(tab_not_found("w1:3"), err("tab_not_found", "tab w1:3 not found"));
    assert_eq!(workspace_not_found("w9"), err("workspace_not_found", "workspace w9 not found"));
}

#[test]
fn resize_checks() {
    assert_eq!(pane_resize_check("p", false, false), Err(err("pane_not_found", "pane p not found")));
    assert_eq!(pane_resize_check("p", true, false), Err(err("pane_not_found", "pane p runtime missing")));
    assert_eq!(pane_resize_check("p", true, true), Ok(()));
}

#[test]
fn tab_workspace_checks() {
    assert_eq!(tab_in_workspace_check("w1:1", "w1", Some("w1")), Ok(()));
    assert_eq!(
        tab_in_workspace_check("w1:1", "w2", Some("w1")),
        Err(err("tab_not_found", "tab w1:1 does not belong to workspace w2"))
    );
    assert_eq!(tab_in_workspace_check("zz", "w2", None), Err(err("tab_not_found", "tab zz not found")));
}

#[test]
fn split_ratio_answers() {
    assert_eq!(
        split_ratio_result("w1:2", &[0, 1], true, false),
        Err(err("split_path_not_found", "no split at path [0, 1] in tab w1:2"))
    );
    assert_eq!(
        split_ratio_result("w1:2", &[], true, false),
        Err(err("split_path_not_found", "no split at path [] in tab w1:2"))
    );
    assert_eq!(split_ratio_result("w1:2", &[3], false, false), Err(err("tab_not_found", "tab w1:2 not found")));
    assert_eq!(split_ratio_result("w1:2", &[3], true, true), Ok(()));
}

fn lookup(a: Option<usize>, b: Option<usize>, exists: bool, ta: Option<usize>, tb: Option<usize>) -> SwapLookup {
    SwapLookup { a_workspace: a, b_workspace: b, workspace_exists: exists, a_tab: ta, b_tab: tb }
}

#[test]
fn swap_checks_in_order() {
    assert_eq!(pane_swap_plan("a", "b", &lookup(None, None, true, None, None)), Err(err("pane_not_found", "pane a not found")));
    assert_eq!(pane_swap_plan("a", "b", &lookup(Some(0), None, true, None, None)), Err(err("pane_not_found", "pane b not found")));
    assert_eq!(
        pane_swap_plan("a", "b", &lookup(Some(0), Some(1), true, Some(0), Some(0))),
        Err(err("swap_across_workspaces", "pane.swap requires both panes in the same workspace"))
    );
    assert_eq!(
        pane_swap_plan("a", "b", &lookup(Some(12), Some(12), false, None, None)),
        Err(err("workspace_not_found", "workspace 12 not found"))
    );
    assert_eq!(pane_swap_plan("a", "b", &lookup(Some(1), Some(1), true, Some(0), None)), Err(err("pane_not_found", "pane b not found")));
    assert_eq!(
        pane_swap_plan("a", "b", &lookup(Some(1), Some(1), true, Some(0), Some(2))),
        Err(err("swap_across_tabs", "pane.swap requires both panes in the same tab"))
    );
    assert_eq!(pane_swap_plan("a", "b", &lookup(Some(1), Some(1), true, Some(2), Some(2))), Ok((1, 2)));
    assert_eq!(pane_swap_result(true), Ok(()));
    assert_eq!(pane_swap_result(false), Err(err("pane_swap_failed", "swap rejected (panes identical or missing)")));
}

#[test]
fn focus_and_zoom() {
    assert_eq!(pane_focus_target("p", true, Some(3)), Ok(3));
    assert_eq!(pane_focus_target("p", true, None), Err(err("pane_not_found", "pane p not found")));
    assert_eq!(pane_focus_result("p", false), Err(err("pane_not_found", "pane p not found in tab")));
    assert_eq!(tab_public_id("w1", 0), "w1:1".to_string());
    assert_eq!(tab_public_id("w1", 9), "w1:10".to_string());
    assert_eq!(pane_zoom_target("p", "w1", true, Some(1)), Ok((1, "w1:2".to_string())));
    assert!(!zoom_applies(1));
    assert!(zoom_applies(2));
}

fn ids(v: &[&str]) -> Vec<String> {
    v.iter().map(|s| s.to_string()).collect()
}

#[test]
fn reorder_plans() {
    let tab_ids = ids(&["w1:3", "w1:1", "w1:2"]);
    let parsed = vec![Some((0, 2)), Some((0, 0)), Some((0, 1))];
    assert_eq!(tab_reorder_plan("w1", Some(0), Some(3), &tab_ids, &parsed), Ok(vec![2, 0, 1]));
    assert_eq!(
        tab_reorder_plan("w1", Some(0), Some(2), &tab_ids, &parsed),
        Err(err("tab_reorder_invalid", "expected 2 tab ids, got 3"))
    );
    assert_eq!(tab_reorder_plan("w1", None, Some(3), &tab_ids, &parsed), Err(err("workspace_not_found", "workspace w1 not found")));
    assert_eq!(tab_reorder_plan("w1", Some(0), None, &tab_ids, &parsed), Err(err("workspace_not_found", "workspace w1 not found")));
    let parsed_dup = vec![Some((0, 2)), Some((0, 2)), Some((0, 1))];
    assert_eq!(
        tab_reorder_plan("w1", Some(0), Some(3), &tab_ids, &parsed_dup),
        Err(err("tab_reorder_invalid", "tab w1:1 appears more than once"))
    );
    let parsed_foreign = vec![Some((0, 2)), Some((1, 0)), None];
    assert_eq!(
        tab_reorder_plan("w1", Some(0), Some(3), &tab_ids, &parsed_foreign),
        Err(err("tab_reorder_invalid", "tab w1:1 does not belong to workspace w1"))
    );
    let parsed_bad = vec![Some((0, 2)), None, Some((1, 0))];
    assert_eq!(tab_reorder_plan("w1", Some(0), Some(3), &tab_ids, &parsed_bad), Err(err("tab_not_found", "tab w1:1 not found")));
}

#[test]
fn reorder_moves_tabs_and_keeps_active() {
    let tabs = vec!["a", "b", "c"];
    assert_eq!(reorder_tabs(tabs, &[2, 0, 1]), vec!["c", "a", "b"]);
    let roots = vec![10u64, 20, 30];
    assert_eq!(reordered_active_tab(&roots, &[2, 0, 1], 0), 1);
    assert_eq!(reordered_active_tab(&roots, &[2, 0, 1], 2), 0);
    assert_eq!(reordered_active_tab(&roots, &[2, 0, 1], 7), 7);
}

#[test]
fn identity_reorder_changes_nothing() {
    let tab_ids = ids(&["w1:1", "w1:2", "w1:3"]);
    let parsed = vec![Some((0, 0)), Some((0, 1)), Some((0, 2))];
    let order = tab_reorder_plan("w1", Some(0), Some(3), &tab_ids, &parsed).unwrap();
    assert_eq!(order, vec![0, 1, 2]);
    assert_eq!(reorder_tabs(vec!["a", "b", "c"], &order), vec!["a", "b", "c"]);
    let roots = [10, 20, 30];
    for active in 0..3 {
        assert_eq!(reordered_active_tab(&roots, &order, active), active);
    }
}

#[test]
fn active_tab_found_without_distinct_order() {
    // the search for the active tab's root pane needs only indexes in range
    assert_eq!(reordered_active_tab(&[10, 20, 30], &[1, 1, 2], 2), 2);
    assert_eq!(reordered_active_tab(&[10, 20, 30], &[0, 0], 1), 1);
}
