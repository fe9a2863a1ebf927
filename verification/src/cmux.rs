//! Checks and plans for the layout requests of the cmux integration: pane
//! resize, layout snapshots, split ratios, pane swap, focus and zoom, and
//! the reordering of a workspace's tabs.

use vstd::prelude::*;
use vstd::string::StringExecFns;
use crate::error::{ApiError, api_error, error_of, fails_with};
use crate::text::{concat3, debug_list, debug_list_string, decimal, decimal_string, str_eq};

verus! {

broadcast use vstd::string::group_string_axioms;

/// The message for a pane that does not exist.
pub open spec fn pane_not_found_message(pane_id: Seq<char>) -> Seq<char> {
    "pane "@ + pane_id + " not found"@
}

/// The message for a tab that does not exist.
pub open spec fn tab_not_found_message(tab_id: Seq<char>) -> Seq<char> {
    "tab "@ + tab_id + " not found"@
}

/// The message for a workspace that does not exist.
pub open spec fn workspace_not_found_message(workspace_id: Seq<char>) -> Seq<char> {
    "workspace "@ + workspace_id + " not found"@
}

/// The error for a pane that does not exist.
pub fn pane_not_found(pane_id: &str) -> (e: ApiError)
    ensures
        api_error(e, "pane_not_found"@, pane_not_found_message(pane_id@)),
{
    error_of("pane_not_found", concat3("pane ", pane_id, " not found"))
}

/// The error for a tab that does not exist.
pub fn tab_not_found(tab_id: &str) -> (e: ApiError)
    ensures
        api_error(e, "tab_not_found"@, tab_not_found_message(tab_id@)),
{
    error_of("tab_not_found", concat3("tab ", tab_id, " not found"))
}

/// The error for a workspace that does not exist.
pub fn workspace_not_found(workspace_id: &str) -> (e: ApiError)
    ensures
        api_error(e, "workspace_not_found"@, workspace_not_found_message(workspace_id@)),
{
    error_of("workspace_not_found", concat3("workspace ", workspace_id, " not found"))
}

/// The answer to a pane resize: `pane_found` says whether the pane id names
/// a pane, `runtime_found` whether that pane's terminal runtime exists. On
/// `Ok` the runtime is to be resized.
pub fn pane_resize_check(pane_id: &str, pane_found: bool, runtime_found: bool) -> (r: Result<(), ApiError>)
    ensures
        !pane_found ==> fails_with(r, "pane_not_found"@, pane_not_found_message(pane_id@)),
        pane_found && !runtime_found ==> fails_with(r,
            "pane_not_found"@,
            "pane "@ + pane_id@ + " runtime missing"@,
        ),
        pane_found && runtime_found ==> r is Ok,
{
    if !pane_found {
        return Err(pane_not_found(pane_id));
    }
    if !runtime_found {
        return Err(error_of("pane_not_found", concat3("pane ", pane_id, " runtime missing")));
    }
    Ok(())
}

/// The message for a tab that lies in another workspace than the request names.
pub open spec fn foreign_tab_message(tab_id: Seq<char>, workspace_id: Seq<char>) -> Seq<char> {
    "tab "@ + tab_id + " does not belong to workspace "@ + workspace_id
}

/// The check that a tab named by a request lies in the workspace that the
/// request names. `owner` is the public id of the workspace that the tab id
/// points into, `None` when the tab id does not parse.
pub fn tab_in_workspace_check(tab_id: &str, workspace_id: &str, owner: Option<&str>) -> (r: Result<(), ApiError>)
    ensures
        owner is None ==> fails_with(r, "tab_not_found"@, tab_not_found_message(tab_id@)),
        owner matches Some(o) && o@ != workspace_id@ ==> fails_with(r,
            "tab_not_found"@,
            foreign_tab_message(tab_id@, workspace_id@),
        ),
        owner matches Some(o) && o@ == workspace_id@ ==> r is Ok,
{
    match owner {
        None => Err(tab_not_found(tab_id)),
        Some(o) => {
            if str_eq(o, workspace_id) {
                Ok(())
            } else {
                let mut m = concat3("tab ", tab_id, " does not belong to workspace ");
                m.append(workspace_id);
                Err(error_of("tab_not_found", m))
            }
        },
    }
}

/// The answer to a split-ratio change in a tab that lies in the named
/// workspace: `tab_found` says whether the tab exists, `ratio_set` whether
/// the tab's layout has a split at `path` (whose ratio was then set).
pub fn split_ratio_result(tab_id: &str, path: &[usize], tab_found: bool, ratio_set: bool) -> (r: Result<(), ApiError>)
    ensures
        !tab_found ==> fails_with(r, "tab_not_found"@, tab_not_found_message(tab_id@)),
        tab_found && !ratio_set ==> fails_with(r,
            "split_path_not_found"@,
            "no split at path "@ + debug_list(path@) + " in tab "@ + tab_id@,
        ),
        tab_found && ratio_set ==> r is Ok,
{
    if !tab_found {
        return Err(tab_not_found(tab_id));
    }
    if !ratio_set {
        let p = debug_list_string(path);
        let mut m = concat3("no split at path ", p.as_str(), " in tab ");
        m.append(tab_id);
        return Err(error_of("split_path_not_found", m));
    }
    Ok(())
}

/// Where the two panes of a swap request were found: the workspace index
/// that each pane id points into (`None` when it does not parse), whether
/// that workspace exists, and the index of the tab holding each pane in it.
pub struct SwapLookup {
    pub a_workspace: Option<usize>,
    pub b_workspace: Option<usize>,
    pub workspace_exists: bool,
    pub a_tab: Option<usize>,
    pub b_tab: Option<usize>,
}

/// The answer to a pane swap, checked in this order: both ids name panes,
/// the panes lie in one workspace, that workspace exists, each pane lies in
/// one of its tabs, the two tabs are the same. On `Ok`, the workspace and
/// tab in which to swap the panes.
pub open spec fn pane_swap_spec(a_id: Seq<char>, b_id: Seq<char>, l: SwapLookup) -> Result<(usize, usize), (Seq<char>, Seq<char>)> {
    match (l.a_workspace, l.b_workspace) {
        (None, _) => Err(("pane_not_found"@, pane_not_found_message(a_id))),
        (Some(_), None) => Err(("pane_not_found"@, pane_not_found_message(b_id))),
        (Some(wa), Some(wb)) => if wa != wb {
            Err(("swap_across_workspaces"@, "pane.swap requires both panes in the same workspace"@))
        } else if !l.workspace_exists {
            Err(("workspace_not_found"@, workspace_not_found_message(decimal(wa as nat))))
        } else {
            match (l.a_tab, l.b_tab) {
                (None, _) => Err(("pane_not_found"@, pane_not_found_message(a_id))),
                (Some(_), None) => Err(("pane_not_found"@, pane_not_found_message(b_id))),
                (Some(ta), Some(tb)) => if ta != tb {
                    Err(("swap_across_tabs"@, "pane.swap requires both panes in the same tab"@))
                } else {
                    Ok((wa, ta))
                },
            }
        },
    }
}

/// A swap is accepted exactly when both panes were found, in one existing
/// workspace and in one tab of it, and is then made there; panes found in
/// two workspaces are refused as `swap_across_workspaces`, and panes found
/// in two tabs of one existing workspace as `swap_across_tabs`.
pub proof fn law_pane_swap_checks(a_id: Seq<char>, b_id: Seq<char>, l: SwapLookup)
    ensures
        pane_swap_spec(a_id, b_id, l) is Ok <==> (l.a_workspace is Some && l.a_workspace == l.b_workspace
            && l.workspace_exists && l.a_tab is Some && l.a_tab == l.b_tab),
        pane_swap_spec(a_id, b_id, l) matches Ok((w, t)) ==> l.a_workspace == Some(w) && l.a_tab == Some(t),
        (l.a_workspace is Some && l.b_workspace is Some && l.a_workspace != l.b_workspace) ==> pane_swap_spec(
            a_id,
            b_id,
            l,
        ) == Err::<(usize, usize), (Seq<char>, Seq<char>)>(
            ("swap_across_workspaces"@, "pane.swap requires both panes in the same workspace"@),
        ),
        (l.a_workspace is Some && l.a_workspace == l.b_workspace && l.workspace_exists && l.a_tab is Some
            && l.b_tab is Some && l.a_tab != l.b_tab) ==> pane_swap_spec(a_id, b_id, l) == Err::<
            (usize, usize),
            (Seq<char>, Seq<char>),
        >(("swap_across_tabs"@, "pane.swap requires both panes in the same tab"@)),
{
}

/// An answer matches its specification.
pub open spec fn answers<T>(r: Result<T, ApiError>, s: Result<T, (Seq<char>, Seq<char>)>) -> bool {
    match s {
        Ok(v) => r == Ok::<T, ApiError>(v),
        Err((code, message)) => fails_with(r, code, message),
    }
}

/// Check a pane swap request against where its panes were found.
pub fn pane_swap_plan(a_id: &str, b_id: &str, l: &SwapLookup) -> (r: Result<(usize, usize), ApiError>)
    ensures
        answers(r, pane_swap_spec(a_id@, b_id@, *l)),
        r matches Ok((w, t)) ==> l.a_workspace == Some(w) && l.b_workspace == Some(w) && l.workspace_exists
            && l.a_tab == Some(t) && l.b_tab == Some(t),
{
    let (wa, wb) = match (l.a_workspace, l.b_workspace) {
        (None, _) => return Err(pane_not_found(a_id)),
        (Some(_), None) => return Err(pane_not_found(b_id)),
        (Some(wa), Some(wb)) => (wa, wb),
    };
    if wa != wb {
        return Err(
            error_of(
                "swap_across_workspaces",
                String::from_str("pane.swap requires both panes in the same workspace"),
            ),
        );
    }
    if !l.workspace_exists {
        let w = decimal_string(wa as u64);
        return Err(workspace_not_found(w.as_str()));
    }
    let (ta, tb) = match (l.a_tab, l.b_tab) {
        (None, _) => return Err(pane_not_found(a_id)),
        (Some(_), None) => return Err(pane_not_found(b_id)),
        (Some(ta), Some(tb)) => (ta, tb),
    };
    if ta != tb {
        return Err(
            error_of(
                "swap_across_tabs",
                String::from_str("pane.swap requires both panes in the same tab"),
            ),
        );
    }
    Ok((wa, ta))
}

/// The answer once the layout was asked to swap the panes: it refuses when
/// the panes are the same or missing from the layout.
pub fn pane_swap_result(swapped: bool) -> (r: Result<(), ApiError>)
    ensures
        swapped ==> r is Ok,
        !swapped ==> fails_with(r, "pane_swap_failed"@, "swap rejected (panes identical or missing)"@),
{
    if swapped {
        Ok(())
    } else {
        Err(error_of("pane_swap_failed", String::from_str("swap rejected (panes identical or missing)")))
    }
}

/// The tab in which to focus a pane: `pane_found` says whether the pane id
/// names a pane, `tab` is the index of the tab that holds it.
pub fn pane_focus_target(pane_id: &str, pane_found: bool, tab: Option<usize>) -> (r: Result<usize, ApiError>)
    ensures
        !pane_found || tab is None ==> fails_with(r, "pane_not_found"@, pane_not_found_message(pane_id@)),
        pane_found && tab is Some ==> r == Ok::<usize, ApiError>(tab->0),
{
    if !pane_found {
        return Err(pane_not_found(pane_id));
    }
    match tab {
        None => Err(pane_not_found(pane_id)),
        Some(t) => Ok(t),
    }
}

/// The answer once the tab's layout was asked to focus the pane.
pub fn pane_focus_result(pane_id: &str, focused: bool) -> (r: Result<(), ApiError>)
    ensures
        focused ==> r is Ok,
        !focused ==> fails_with(r, "pane_not_found"@, "pane "@ + pane_id@ + " not found in tab"@),
{
    if focused {
        Ok(())
    } else {
        Err(error_of("pane_not_found", concat3("pane ", pane_id, " not found in tab")))
    }
}

/// The public id of the tab at index `tab_idx` of a workspace: the
/// workspace's id, a colon, and the tab's position counted from one.
pub open spec fn public_tab_id(workspace_id: Seq<char>, tab_idx: nat) -> Seq<char> {
    workspace_id + ":"@ + decimal(tab_idx + 1)
}

/// The public id of the tab at index `tab_idx` of a workspace.
pub fn tab_public_id(workspace_id: &str, tab_idx: usize) -> (r: String)
    requires
        tab_idx < usize::MAX,
    ensures
        r@ == public_tab_id(workspace_id@, tab_idx as nat),
{
    let n = decimal_string((tab_idx + 1) as u64);
    concat3(workspace_id, ":", n.as_str())
}

/// What a zoom request does once the pane is found in a tab: the zoom flag
/// is set only in a tab with more than one pane.
pub fn zoom_applies(pane_count: usize) -> (r: bool)
    ensures
        r == (pane_count > 1),
{
    pane_count > 1
}

/// The tab in which to zoom a pane, and that tab's public id: `pane_found`
/// says whether the pane id names a pane, `tab` is the index of the tab that
/// holds it, `workspace_id` the public id of the pane's workspace.
pub fn pane_zoom_target(pane_id: &str, workspace_id: &str, pane_found: bool, tab: Option<usize>) -> (r: Result<(usize, String), ApiError>)
    requires
        tab matches Some(t) ==> t < usize::MAX,
    ensures
        !pane_found || tab is None ==> fails_with(r, "pane_not_found"@, pane_not_found_message(pane_id@)),
        pane_found && tab is Some ==> (r matches Ok((t, id)) && t == tab->0 && id@ == public_tab_id(workspace_id@, t as nat)),
{
    let t = pane_focus_target(pane_id, pane_found, tab)?;
    Ok((t, tab_public_id(workspace_id, t)))
}

/// The message for a tab id given twice in a reorder request.
pub open spec fn repeated_tab_message(tab_id: Seq<char>) -> Seq<char> {
    "tab "@ + tab_id + " appears more than once"@
}

/// The new order of tabs that the first `n` tab ids of a reorder request
/// give, or the error for the first of them that is not acceptable: one that
/// does not parse, one of another workspace than `ws`, or one already given.
/// `parsed[i]` is the workspace and tab index that `ids[i]` points to.
pub open spec fn reorder_entries(
    ws: usize,
    workspace_id: Seq<char>,
    ids: Seq<Seq<char>>,
    parsed: Seq<Option<(usize, usize)>>,
    n: int,
) -> Result<Seq<usize>, (Seq<char>, Seq<char>)>
    decreases n,
{
    if n <= 0 {
        Ok(seq![])
    } else {
        match reorder_entries(ws, workspace_id, ids, parsed, n - 1) {
            Err(e) => Err(e),
            Ok(order) => match parsed[n - 1] {
                None => Err(("tab_not_found"@, tab_not_found_message(ids[n - 1]))),
                Some((w, t)) => if w != ws {
                    Err(("tab_reorder_invalid"@, foreign_tab_message(ids[n - 1], workspace_id)))
                } else if order.contains(t) {
                    Err(("tab_reorder_invalid"@, repeated_tab_message(ids[n - 1])))
                } else {
                    Ok(order.push(t))
                },
            },
        }
    }
}

/// Once a tab id is refused, the refusal stands whatever follows it.
pub proof fn lemma_reorder_error_stands(
    ws: usize,
    workspace_id: Seq<char>,
    ids: Seq<Seq<char>>,
    parsed: Seq<Option<(usize, usize)>>,
    k: int,
    m: int,
)
    requires
        k <= m,
        reorder_entries(ws, workspace_id, ids, parsed, k) is Err,
    ensures
        reorder_entries(ws, workspace_id, ids, parsed, m) == reorder_entries(ws, workspace_id, ids, parsed, k),
    decreases m - k,
{
    if k < m {
        lemma_reorder_error_stands(ws, workspace_id, ids, parsed, k, m - 1);
    }
}

/// The answer to a tab reorder request for the workspace `workspace_id`:
/// `ws` is the index it points to (`None` when it does not parse), `count`
/// the number of tabs of that workspace (`None` when it does not exist).
/// On `Ok`, the new order: the old index of each tab, in its new place.
pub open spec fn tab_reorder_spec(
    workspace_id: Seq<char>,
    ws: Option<usize>,
    count: Option<usize>,
    ids: Seq<Seq<char>>,
    parsed: Seq<Option<(usize, usize)>>,
) -> Result<Seq<usize>, (Seq<char>, Seq<char>)> {
    match (ws, count) {
        (Some(w), Some(n)) => if ids.len() != n {
            Err(
                (
                    "tab_reorder_invalid"@,
                    "expected "@ + decimal(n as nat) + " tab ids, got "@ + decimal(ids.len()),
                ),
            )
        } else {
            reorder_entries(w, workspace_id, ids, parsed, ids.len() as int)
        },
        _ => Err(("workspace_not_found"@, workspace_not_found_message(workspace_id))),
    }
}

/// The tab index that the entry `i` of a reorder request points to.
pub open spec fn entry_tab(parsed: Seq<Option<(usize, usize)>>, i: int) -> usize {
    match parsed[i] {
        Some((_, t)) => t,
        None => 0,
    }
}

/// The first `k` entries of a reorder request each point to a tab of the
/// workspace `ws`, and no two of them to the same tab.
pub open spec fn entries_acceptable(ws: usize, parsed: Seq<Option<(usize, usize)>>, k: int) -> bool {
    &&& forall|i: int| 0 <= i < k ==> (#[trigger] parsed[i] matches Some((w, _)) && w == ws)
    &&& forall|i: int, j: int| 0 <= i < j < k ==> entry_tab(parsed, i) != entry_tab(parsed, j)
}

/// The first `k` entries are accepted exactly when they are acceptable, and
/// then the order lists, in request order, the tabs they point to.
proof fn lemma_reorder_entries_ok(
    ws: usize,
    workspace_id: Seq<char>,
    ids: Seq<Seq<char>>,
    parsed: Seq<Option<(usize, usize)>>,
    k: int,
)
    requires
        0 <= k <= parsed.len(),
    ensures
        reorder_entries(ws, workspace_id, ids, parsed, k) is Ok <==> entries_acceptable(ws, parsed, k),
        reorder_entries(ws, workspace_id, ids, parsed, k) matches Ok(order) ==> order.len() == k && forall|i: int|
            0 <= i < k ==> order[i] == entry_tab(parsed, i),
    decreases k,
{
    if k > 0 {
        lemma_reorder_entries_ok(ws, workspace_id, ids, parsed, k - 1);
        if let Ok(order) = reorder_entries(ws, workspace_id, ids, parsed, k - 1) {
            if let Some((w, t)) = parsed[k - 1] {
                if w == ws && order.contains(t) {
                    let i = choose|i: int| 0 <= i < order.len() && order[i] == t;
                    assert(entry_tab(parsed, i) == entry_tab(parsed, k - 1));
                }
                if w == ws && !order.contains(t) {
                    assert forall|i: int, j: int| 0 <= i < j < k implies entry_tab(parsed, i) != entry_tab(parsed, j) by {
                        if j == k - 1 {
                            assert(order[i] == entry_tab(parsed, i));
                        }
                    }
                }
            }
        } else {
            assert(!entries_acceptable(ws, parsed, k - 1));
        }
    }
}

/// A tab reorder request is accepted exactly when the workspace exists, it
/// lists as many tab ids as the workspace has tabs, and every tab id points
/// to a tab of that workspace with no tab given twice; the new order then
/// lists, place by place, the tab that each id points to.
pub proof fn law_reorder_accepted_exactly(
    workspace_id: Seq<char>,
    ws: Option<usize>,
    count: Option<usize>,
    ids: Seq<Seq<char>>,
    parsed: Seq<Option<(usize, usize)>>,
)
    requires
        parsed.len() == ids.len(),
    ensures
        tab_reorder_spec(workspace_id, ws, count, ids, parsed) is Ok <==> (ws matches Some(w) && count matches Some(
            n,
        ) && ids.len() == n && entries_acceptable(w, parsed, n as int)),
        tab_reorder_spec(workspace_id, ws, count, ids, parsed) matches Ok(order) ==> order.len() == ids.len()
            && forall|i: int| 0 <= i < ids.len() ==> order[i] == entry_tab(parsed, i),
{
    if let (Some(w), Some(n)) = (ws, count) {
        if ids.len() == n {
            lemma_reorder_entries_ok(w, workspace_id, ids, parsed, n as int);
        }
    }
}

/// The refusal of the entry `i` of a reorder request for the workspace `w`:
/// it points to no tab, to a tab of another workspace, or to a tab already given.
pub open spec fn entry_refusal(
    workspace_id: Seq<char>,
    w: usize,
    ids: Seq<Seq<char>>,
    parsed: Seq<Option<(usize, usize)>>,
    i: int,
) -> (Seq<char>, Seq<char>) {
    match parsed[i] {
        None => ("tab_not_found"@, tab_not_found_message(ids[i])),
        Some((pw, _)) => if pw != w {
            ("tab_reorder_invalid"@, foreign_tab_message(ids[i], workspace_id))
        } else {
            ("tab_reorder_invalid"@, repeated_tab_message(ids[i]))
        },
    }
}

/// A refused tab reorder request is refused for its first failing check: an
/// unknown workspace, then a wrong number of tab ids, then, at the first tab
/// id that is not acceptable, one that points to no tab, one of another
/// workspace, or one already given.
pub proof fn law_reorder_refusals(
    workspace_id: Seq<char>,
    ws: Option<usize>,
    count: Option<usize>,
    ids: Seq<Seq<char>>,
    parsed: Seq<Option<(usize, usize)>>,
    i: int,
)
    requires
        parsed.len() == ids.len(),
    ensures
        !(ws is Some && count is Some) ==> tab_reorder_spec(workspace_id, ws, count, ids, parsed) == Err::<
            Seq<usize>,
            (Seq<char>, Seq<char>),
        >(("workspace_not_found"@, workspace_not_found_message(workspace_id))),
        (ws is Some && count is Some && ids.len() != count->0) ==> (tab_reorder_spec(
            workspace_id,
            ws,
            count,
            ids,
            parsed,
        ) matches Err((code, _)) && code == "tab_reorder_invalid"@),
        (ws is Some && count is Some && ids.len() == count->0 && 0 <= i < ids.len() && entries_acceptable(
            ws->0,
            parsed,
            i,
        ) && !entries_acceptable(ws->0, parsed, i + 1)) ==> tab_reorder_spec(workspace_id, ws, count, ids, parsed)
            == Err::<Seq<usize>, (Seq<char>, Seq<char>)>(entry_refusal(workspace_id, ws->0, ids, parsed, i)),
{
    if let (Some(w), Some(n)) = (ws, count) {
        if ids.len() == n && 0 <= i < n && entries_acceptable(w, parsed, i) && !entries_acceptable(w, parsed, i + 1) {
            lemma_reorder_entries_ok(w, workspace_id, ids, parsed, i);
            lemma_reorder_entries_ok(w, workspace_id, ids, parsed, i + 1);
            let order = reorder_entries(w, workspace_id, ids, parsed, i)->Ok_0;
            if let Some((pw, t)) = parsed[i] {
                if pw == w {
                    let j = choose|j: int| 0 <= j < i && entry_tab(parsed, j) == entry_tab(parsed, i);
                    assert(order[j] == t);
                }
            }
            lemma_reorder_error_stands(w, workspace_id, ids, parsed, i + 1, n as int);
        }
    }
}

/// A request that lists every tab of the workspace in its present order is
/// accepted with the order that keeps every tab in its place: putting the
/// tabs in that order changes nothing, and, with distinct root panes, the
/// active tab stays where it is.
pub proof fn law_reorder_identity<T>(
    workspace_id: Seq<char>,
    w: usize,
    ids: Seq<Seq<char>>,
    parsed: Seq<Option<(usize, usize)>>,
    tabs: Seq<T>,
    roots: Seq<u64>,
    active: usize,
)
    requires
        parsed.len() == ids.len(),
        ids.len() <= usize::MAX,
        tabs.len() == ids.len(),
        roots.len() == ids.len(),
        forall|i: int| 0 <= i < ids.len() ==> #[trigger] parsed[i] == Some((w, i as usize)),
        forall|x: int, y: int| 0 <= x < y < roots.len() ==> roots[x] != roots[y],
        active < roots.len(),
    ensures
        tab_reorder_spec(workspace_id, Some(w), Some(ids.len() as usize), ids, parsed) matches Ok(order) && ({
            &&& forall|i: int| 0 <= i < order.len() ==> order[i] == i
            &&& order.map_values(|i: usize| tabs[i as int]) == tabs
            &&& active_after_reorder(roots, order, active) == active
        }),
{
    let n = ids.len();
    assert forall|i: int, j: int| 0 <= i < j < n implies entry_tab(parsed, i) != entry_tab(parsed, j) by {
        assert(parsed[i] == Some((w, i as usize)));
        assert(parsed[j] == Some((w, j as usize)));
    }
    law_reorder_accepted_exactly(workspace_id, Some(w), Some(n as usize), ids, parsed);
    let order = tab_reorder_spec(workspace_id, Some(w), Some(n as usize), ids, parsed)->Ok_0;
    assert forall|i: int| 0 <= i < order.len() implies order[i] == i by {
        assert(parsed[i] == Some((w, i as usize)));
    }
    assert(order.map_values(|i: usize| tabs[i as int]) =~= tabs);
    assert(roots[order[active as int] as int] == roots[active as int]);
    let r = active_after_reorder(roots, order, active);
    assert(distinct_below(order, roots.len() as int));
    lemma_first_match(roots, order, roots[active as int], active as int);
    assert(order[r] == r);
}

/// The texts of a list of ids.
pub open spec fn id_texts(ids: Seq<String>) -> Seq<Seq<char>> {
    ids.map_values(|s: String| s@)
}

/// Whether `v` holds `x`.
fn holds(v: &Vec<usize>, x: usize) -> (r: bool)
    ensures
        r == v@.contains(x),
{
    let mut i: usize = 0;
    while i < v.len()
        invariant
            i <= v@.len(),
            forall|k: int| 0 <= k < i ==> v@[k] != x,
        decreases v@.len() - i,
    {
        if v[i] == x {
            return true;
        }
        i = i + 1;
    }
    false
}

/// Check a tab reorder request and compute the new order of the tabs.
pub fn tab_reorder_plan(
    workspace_id: &str,
    ws: Option<usize>,
    count: Option<usize>,
    tab_ids: &[String],
    parsed: &[Option<(usize, usize)>],
) -> (r: Result<Vec<usize>, ApiError>)
    requires
        parsed@.len() == tab_ids@.len(),
    ensures
        answers(
            match r {
                Ok(v) => Ok(v@),
                Err(e) => Err(e),
            },
            tab_reorder_spec(workspace_id@, ws, count, id_texts(tab_ids@), parsed@),
        ),
{
    let (w, n) = match (ws, count) {
        (Some(w), Some(n)) => (w, n),
        _ => return Err(workspace_not_found(workspace_id)),
    };
    let ghost ids = id_texts(tab_ids@);
    if tab_ids.len() != n {
        let expected = decimal_string(n as u64);
        let got = decimal_string(tab_ids.len() as u64);
        let mut m = concat3("expected ", expected.as_str(), " tab ids, got ");
        m.append(got.as_str());
        return Err(error_of("tab_reorder_invalid", m));
    }
    let mut order: Vec<usize> = Vec::new();
    let mut i: usize = 0;
    while i < tab_ids.len()
        invariant
            ids == id_texts(tab_ids@),
            parsed@.len() == tab_ids@.len(),
            ws == Some(w),
            count == Some(n),
            n == tab_ids@.len(),
            i <= tab_ids@.len(),
            reorder_entries(w, workspace_id@, ids, parsed@, i as int) == Ok::<
                Seq<usize>,
                (Seq<char>, Seq<char>),
            >(order@),
        decreases tab_ids@.len() - i,
    {
        let tab_id: &str = tab_ids[i].as_str();
        assert(tab_id@ == ids[i as int]);
        match parsed[i] {
            None => {
                proof {
                    lemma_reorder_error_stands(w, workspace_id@, ids, parsed@, i + 1, ids.len() as int);
                }
                return Err(tab_not_found(tab_id));
            },
            Some((pw, t)) => {
                proof {
                    if pw != w || order@.contains(t) {
                        lemma_reorder_error_stands(w, workspace_id@, ids, parsed@, i + 1, ids.len() as int);
                    }
                }
                if pw != w {
                    let mut m = concat3("tab ", tab_id, " does not belong to workspace ");
                    m.append(workspace_id);
                    return Err(error_of("tab_reorder_invalid", m));
                }
                if holds(&order, t) {
                    return Err(error_of("tab_reorder_invalid", concat3("tab ", tab_id, " appears more than once")));
                }
                order.push(t);
            },
        }
        i = i + 1;
    }
    Ok(order)
}

/// `order` lists distinct indexes below `n`.
pub open spec fn distinct_below(order: Seq<usize>, n: int) -> bool {
    &&& forall|i: int| 0 <= i < order.len() ==> order[i] < n
    &&& forall|i: int, j: int| 0 <= i < j < order.len() ==> order[i] != order[j]
}

/// Put the tabs in the new order: the tab at place `i` of the result is the
/// tab at index `order[i]` of `tabs`. A tab whose index `order` does not
/// list is dropped.
pub fn reorder_tabs<T>(tabs: Vec<T>, order: &[usize]) -> (r: Vec<T>)
    requires
        distinct_below(order@, tabs@.len() as int),
    ensures
        r@.len() == order@.len(),
        forall|i: int| 0 <= i < order@.len() ==> r@[i] == tabs@[order@[i] as int],
{
    let ghost old_tabs = tabs@;
    let n = tabs.len();
    let mut taken: Vec<Option<T>> = Vec::new();
    let mut source = tabs;
    // drain the tabs into slots, keeping their order
    let mut rev: Vec<T> = Vec::new();
    while source.len() > 0
        invariant
            source@.len() + rev@.len() == n,
            n == old_tabs.len(),
            forall|i: int| 0 <= i < source@.len() ==> source@[i] == old_tabs[i],
            forall|i: int| 0 <= i < rev@.len() ==> rev@[i] == old_tabs[n - 1 - i],
        decreases source@.len(),
    {
        let t = source.pop().unwrap();
        rev.push(t);
    }
    while rev.len() > 0
        invariant
            taken@.len() + rev@.len() == n,
            n == old_tabs.len(),
            forall|i: int| 0 <= i < rev@.len() ==> rev@[i] == old_tabs[n - 1 - i],
            forall|i: int| 0 <= i < taken@.len() ==> taken@[i] == Some(old_tabs[i]),
        decreases rev@.len(),
    {
        let t = rev.pop().unwrap();
        taken.push(Some(t));
    }
    let mut out: Vec<T> = Vec::new();
    let mut i: usize = 0;
    while i < order.len()
        invariant
            distinct_below(order@, n as int),
            n == old_tabs.len(),
            taken@.len() == n,
            i <= order@.len(),
            out@.len() == i,
            forall|j: int| 0 <= j < i ==> out@[j] == old_tabs[order@[j] as int],
            forall|x: int|
                0 <= x < n ==> (taken@[x] == if (exists|j: int| 0 <= j < i && order@[j] == x) {
                    None::<T>
                } else {
                    Some(old_tabs[x])
                }),
        decreases order@.len() - i,
    {
        let idx = order[i];
        let mut slot: Option<T> = None;
        std::mem::swap(&mut slot, &mut taken[idx]);
        assert(!(exists|j: int| 0 <= j < i && order@[j] == idx)) by {
            if exists|j: int| 0 <= j < i && order@[j] == idx {
                let j = choose|j: int| 0 <= j < i && order@[j] == idx;
                assert(order@[j] != order@[i as int]);
            }
        }
        match slot {
            Some(t) => {
                out.push(t);
            },
            None => {
                assert(false);
            },
        }
        assert forall|x: int| 0 <= x < n implies (taken@[x] == if (exists|j: int| 0 <= j < i + 1 && order@[j] == x) {
            None::<T>
        } else {
            Some(old_tabs[x])
        }) by {
            if x == idx {
                assert(order@[i as int] == x);
            } else {
                if exists|j: int| 0 <= j < i + 1 && order@[j] == x {
                    let j = choose|j: int| 0 <= j < i + 1 && order@[j] == x;
                    assert(j < i);
                }
            }
        }
        i = i + 1;
    }
    out
}

/// The index of the active tab after a reorder: the first place in the new
/// order whose tab has the root pane of the tab active before. `roots` are
/// the root panes of the tabs in their old order. The index is unchanged
/// when it named no tab or no tab with that root pane is left.
pub open spec fn active_after_reorder(roots: Seq<u64>, order: Seq<usize>, active: usize) -> int {
    if active < roots.len() && exists|j: int| 0 <= j < order.len() && roots[order[j] as int] == roots[active as int] {
        (choose|j: int|
            0 <= j < order.len() && roots[order[j] as int] == roots[active as int] && forall|k: int|
                0 <= k < j ==> roots[order[k] as int] != roots[active as int])
    } else {
        active as int
    }
}

/// The index of the active tab after the tabs were put in the new order.
pub fn reordered_active_tab(roots: &[u64], order: &[usize], active: usize) -> (r: usize)
    requires
        forall|i: int| 0 <= i < order@.len() ==> order@[i] < roots@.len(),
    ensures
        r as int == active_after_reorder(roots@, order@, active),
{
    if active >= roots.len() {
        return active;
    }
    let root = roots[active];
    let mut j: usize = 0;
    while j < order.len()
        invariant
            forall|i: int| 0 <= i < order@.len() ==> order@[i] < roots@.len(),
            active < roots@.len(),
            root == roots@[active as int],
            j <= order@.len(),
            forall|k: int| 0 <= k < j ==> roots@[order@[k] as int] != root,
        decreases order@.len() - j,
    {
        if roots[order[j]] == root {
            let ghost jj = j as int;
            assert(0 <= jj < order@.len() && roots@[order@[jj] as int] == root && forall|k: int|
                0 <= k < jj ==> roots@[order@[k] as int] != root);
            proof {
                let c = choose|x: int|
                    0 <= x < order@.len() && roots@[order@[x] as int] == roots@[active as int] && forall|k: int|
                        0 <= k < x ==> roots@[order@[k] as int] != roots@[active as int];
                if c > jj {
                    assert(roots@[order@[jj] as int] != root);
                }
            }
            return j;
        }
        j = j + 1;
    }
    active
}

/// After a reorder the active tab keeps its root pane: when the order
/// still lists the tab that was active, the tab at the new active index has
/// the root pane of the old one, and with distinct root panes it is that tab.
pub proof fn law_reorder_keeps_active_tab(roots: Seq<u64>, order: Seq<usize>, active: usize)
    requires
        distinct_below(order, roots.len() as int),
        active < roots.len(),
        order.contains(active),
    ensures
        ({
            let r = active_after_reorder(roots, order, active);
            &&& 0 <= r < order.len()
            &&& roots[order[r] as int] == roots[active as int]
            &&& (forall|x: int, y: int| 0 <= x < y < roots.len() ==> roots[x] != roots[y]) ==> order[r]
                == active
        }),
{
    let j = choose|j: int| 0 <= j < order.len() && order[j] == active;
    assert(roots[order[j] as int] == roots[active as int]);
    let r = active_after_reorder(roots, order, active);
    assert(exists|j: int| 0 <= j < order.len() && roots[order[j] as int] == roots[active as int]);
    lemma_first_match(roots, order, roots[active as int], j);
}

/// An accepted reorder keeps the active tab's root pane: when every tab id
/// points below the workspace's tab count and the active index names a tab,
/// the tab at the new active index has the root pane of the tab active before.
pub proof fn law_accepted_reorder_keeps_active_root(
    workspace_id: Seq<char>,
    ws: Option<usize>,
    count: Option<usize>,
    ids: Seq<Seq<char>>,
    parsed: Seq<Option<(usize, usize)>>,
    roots: Seq<u64>,
    active: usize,
)
    requires
        parsed.len() == ids.len(),
        forall|i: int| 0 <= i < parsed.len() ==> (#[trigger] parsed[i] matches Some((w, t)) ==> (count matches Some(n) && t < n)),
        count is Some && roots.len() == count->0,
        active < roots.len(),
    ensures
        tab_reorder_spec(workspace_id, ws, count, ids, parsed) matches Ok(order) ==> {
            let r = active_after_reorder(roots, order, active);
            &&& 0 <= r < order.len()
            &&& roots[order[r] as int] == roots[active as int]
        },
{
    law_reorder_is_permutation(workspace_id, ws, count, ids, parsed);
    if let Ok(order) = tab_reorder_spec(workspace_id, ws, count, ids, parsed) {
        assert(order.contains(active));
        law_reorder_keeps_active_tab(roots, order, active);
    }
}

/// Where some place of the order holds a tab with root pane `root`, a first such place exists.
proof fn lemma_first_match(roots: Seq<u64>, order: Seq<usize>, root: u64, j: int)
    requires
        distinct_below(order, roots.len() as int),
        0 <= j < order.len(),
        roots[order[j] as int] == root,
    ensures
        exists|x: int|
            0 <= x < order.len() && roots[order[x] as int] == root && forall|k: int|
                0 <= k < x ==> roots[order[k] as int] != root,
    decreases j,
{
    if exists|k: int| 0 <= k < j && roots[order[k] as int] == root {
        let k = choose|k: int| 0 <= k < j && roots[order[k] as int] == root;
        lemma_first_match(roots, order, root, k);
    } else {
        assert(forall|k: int| 0 <= k < j ==> roots[order[k] as int] != root);
    }
}

/// `n` distinct indexes below `n` list every index below `n`.
pub proof fn lemma_distinct_indexes_cover(order: Seq<usize>, n: int)
    requires
        distinct_below(order, n),
        order.len() == n,
    ensures
        forall|x: usize| (x as int) < n ==> #[trigger] order.contains(x),
{
    let ints = order.map_values(|v: usize| v as int);
    assert(ints.no_duplicates()) by {
        assert forall|i: int, j: int| 0 <= i < ints.len() && 0 <= j < ints.len() && i != j implies ints[i]
            != ints[j] by {
            if i < j {
                assert(order[i] != order[j]);
            } else {
                assert(order[j] != order[i]);
            }
        }
    }
    ints.unique_seq_to_set();
    vstd::set_lib::lemma_int_range(0, n);
    let range = vstd::set_lib::set_int_range(0, n);
    assert(ints.to_set().subset_of(range)) by {
        assert forall|x: int| ints.to_set().contains(x) implies range.contains(x) by {
            let i = choose|i: int| 0 <= i < ints.len() && ints[i] == x;
            assert(order[i] < n);
        }
    }
    vstd::set_lib::lemma_len_subset(ints.to_set(), range);
    vstd::set_lib::lemma_subset_equality(ints.to_set(), range);
    assert forall|x: usize| (x as int) < n implies #[trigger] order.contains(x) by {
        assert(range.contains(x as int));
        assert(ints.to_set().contains(x as int));
        let i = choose|i: int| 0 <= i < ints.len() && ints[i] == x as int;
        assert(order[i] == x);
    }
}

/// An accepted tab reorder is a permutation: it lists each tab of the
/// workspace exactly once, provided every tab id points to an existing tab.
pub proof fn law_reorder_is_permutation(
    workspace_id: Seq<char>,
    ws: Option<usize>,
    count: Option<usize>,
    ids: Seq<Seq<char>>,
    parsed: Seq<Option<(usize, usize)>>,
)
    requires
        parsed.len() == ids.len(),
        forall|i: int| 0 <= i < parsed.len() ==> (#[trigger] parsed[i] matches Some((w, t)) ==> (count matches Some(n) && t < n)),
    ensures
        tab_reorder_spec(workspace_id, ws, count, ids, parsed) matches Ok(order) ==> {
            &&& count matches Some(n)
            &&& order.len() == n
            &&& distinct_below(order, n as int)
            &&& forall|x: usize| x < n ==> #[trigger] order.contains(x)
        },
{
    if let (Some(w), Some(n)) = (ws, count) {
        if ids.len() == n {
            lemma_reorder_entries_distinct(w, workspace_id, ids, parsed, n as int, n as int);
            if let Ok(order) = reorder_entries(w, workspace_id, ids, parsed, n as int) {
                lemma_distinct_indexes_cover(order, n as int);
            }
        }
    }
}

/// The order built from the first `k` accepted tab ids lists `k` distinct
/// tab indexes, each one that some tab id points to.
proof fn lemma_reorder_entries_distinct(
    ws: usize,
    workspace_id: Seq<char>,
    ids: Seq<Seq<char>>,
    parsed: Seq<Option<(usize, usize)>>,
    k: int,
    n: int,
)
    requires
        0 <= k <= parsed.len(),
        forall|i: int| 0 <= i < parsed.len() ==> (#[trigger] parsed[i] matches Some((w, t)) ==> t < n),
    ensures
        reorder_entries(ws, workspace_id, ids, parsed, k) matches Ok(order) ==> order.len() == k && distinct_below(
            order,
            n,
        ),
    decreases k,
{
    if k > 0 {
        lemma_reorder_entries_distinct(ws, workspace_id, ids, parsed, k - 1, n);
        if let Ok(order) = reorder_entries(ws, workspace_id, ids, parsed, k - 1) {
            if let Some((w, t)) = parsed[k - 1] {
                if w == ws && !order.contains(t) {
                    let o2 = order.push(t);
                    assert forall|i: int, j: int| 0 <= i < j < o2.len() implies o2[i] != o2[j] by {
                        if j == o2.len() - 1 {
                            assert(order[i] == o2[i]);
                        }
                    }
                }
            }
        }
    }
}

/// Putting tabs in an accepted order moves every tab to exactly one place:
/// the tabs in the new order (`moved`) are as many as before, each old tab
/// is among them, and no two places come from the same old tab.
pub proof fn law_reorder_moves_every_tab<T>(tabs: Seq<T>, order: Seq<usize>)
    requires
        distinct_below(order, tabs.len() as int),
        order.len() == tabs.len(),
        tabs.len() <= usize::MAX,
    ensures
        ({
            let moved = order.map_values(|i: usize| tabs[i as int]);
            &&& moved.len() == tabs.len()
            &&& forall|x: int| 0 <= x < tabs.len() ==> moved.contains(#[trigger] tabs[x])
            &&& forall|i: int, j: int| 0 <= i < j < order.len() ==> order[i] != order[j]
        }),
{
    let moved = order.map_values(|i: usize| tabs[i as int]);
    lemma_distinct_indexes_cover(order, tabs.len() as int);
    assert forall|x: int| 0 <= x < tabs.len() implies moved.contains(#[trigger] tabs[x]) by {
        assert(order.contains(x as usize));
        let i = choose|i: int| 0 <= i < order.len() && order[i] == x as usize;
        assert(moved[i] == tabs[x]);
    }
}

} // verus!
