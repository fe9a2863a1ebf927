//! The decisions of the API's waiting requests (`wait_for_text`,
//! `wait_for_output`, `wait_for_idle`, `wait_for_kind`, `wait_for_cursor`,
//! `wait_for_screen_change`). Each polls the application for a snapshot of
//! a pane; after each snapshot the functions here decide whether the wait
//! is answered, and with what, or whether to poll again.

use vstd::prelude::*;
use vstd::string::StringExecFns;
use crate::error::{ApiError, api_error, error_of, fails_with};
use crate::json::{
    Json, as_text, as_unsigned, deref, field, get_field, member_set, set_text_member, text_of,
    unsigned_of,
};
use crate::text::{concat3, decimal, decimal_string, str_eq};

verus! {

broadcast use vstd::string::group_string_axioms;

/// The answer to a waiting request.
pub enum WaitReply {
    /// The application's own answer, passed on as it is (it is not JSON).
    Forward(String),
    /// The application's error answer, passed on with this request's id.
    AppError(Json),
    /// An error answer of the wait itself.
    Failed(ApiError),
    /// The visible screen matched.
    TextMatched { pane_id: String, matched_line: String, text: String },
    /// The screen stayed the same for `idle_ms` milliseconds.
    Idle { pane_id: String, idle_ms: u64 },
    /// The pane's classification became one of the awaited kinds.
    KindMatched { pane_id: String, matched: String, cursor_row: Option<u32>, cursor_col: Option<u32> },
    /// The cursor reached the awaited place.
    CursorMatched { pane_id: String, cursor_row: Option<u32>, cursor_col: Option<u32>, kind: Option<String> },
    /// The screen's digest changed.
    ScreenChanged { pane_id: String, hash: String },
}

/// What to do after a snapshot.
pub enum WaitStep {
    /// Answer the request.
    Reply(WaitReply),
    /// Sleep for the poll interval and take another snapshot.
    Poll,
}

/// The answer is the error with the given code and message.
pub open spec fn replies_error(s: WaitStep, code: Seq<char>, message: Seq<char>) -> bool {
    s matches WaitStep::Reply(WaitReply::Failed(e)) && api_error(e, code, message)
}

/// How the application answered a snapshot request: `parsed` is the answer
/// read as JSON, `None` when it is not JSON. An answer that is not JSON is
/// passed on as it is; an error answer is passed on with this request's id
/// set; any other answer is the snapshot to look at.
pub fn app_answer(request_id: &str, response: String, parsed: Option<Json>) -> (r: Result<Json, WaitReply>)
    ensures
        parsed is None ==> (r matches Err(WaitReply::Forward(s)) && s == response),
        parsed matches Some(v) ==> if field(Some(v), "error"@) is Some {
            r matches Err(WaitReply::AppError(Json::Object(new))) && (v matches Json::Object(old)
                && member_set(old@, new@, "id"@, request_id@))
        } else {
            r == Ok::<Json, WaitReply>(v)
        },
{
    let v = match parsed {
        None => return Err(WaitReply::Forward(response)),
        Some(v) => v,
    };
    if get_field(Some(&v), "error").is_none() {
        return Ok(v);
    }
    match v {
        Json::Object(members) => {
            let mut members = members;
            set_text_member(&mut members, "id", request_id);
            Err(WaitReply::AppError(Json::Object(members)))
        },
        _ => {
            proof {
                assert(false);
            }
            Err(WaitReply::Forward(response))
        },
    }
}

/// The text of `v.result.<key>` when it is a string, else the empty text.
pub open spec fn result_text(v: Json, key: Seq<char>) -> Seq<char> {
    match as_text(field(field(Some(v), "result"@), key)) {
        Some(t) => t,
        None => seq![],
    }
}

/// The text of the member `key` of the result of an answer, or the empty
/// text when there is none (`value["result"][key].as_str().unwrap_or("")`).
pub fn result_text_of(v: &Json, key: &str) -> (r: String)
    ensures
        r@ == result_text(*v, key@),
{
    let result = get_field(Some(v), "result");
    match text_of(get_field(result, key)) {
        Some(t) => String::from_str(t),
        None => String::new(),
    }
}

/// The error of a wait that ran out of time.
fn timeout(message: String) -> (r: WaitStep)
    ensures
        replies_error(r, "timeout"@, message@),
{
    WaitStep::Reply(WaitReply::Failed(error_of("timeout", message)))
}

/// The decision of `wait_for_text` once the screen text was matched
/// against the request: `matched_line` is the line that matched, if any.
pub fn text_wait_step(pane_id: &str, text: String, matched_line: Option<String>, deadline_passed: bool) -> (r: WaitStep)
    ensures
        matched_line matches Some(l) ==> (r matches WaitStep::Reply(WaitReply::TextMatched { pane_id: p, matched_line: m, text: t })
            && p@ == pane_id@ && m == l && t == text),
        matched_line is None && deadline_passed ==> replies_error(r, "timeout"@, "timed out waiting for screen text match"@),
        matched_line is None && !deadline_passed ==> r is Poll,
{
    match matched_line {
        Some(l) => WaitStep::Reply(WaitReply::TextMatched { pane_id: String::from_str(pane_id), matched_line: l, text }),
        None => if deadline_passed {
            timeout(String::from_str("timed out waiting for screen text match"))
        } else {
            WaitStep::Poll
        },
    }
}

/// The state of `wait_for_idle` between snapshots: the text of the last
/// snapshot that differed from the one before, and when (in milliseconds
/// since the wait began) it was taken.
pub struct IdleTracker {
    pub last_text: Option<String>,
    pub stable_since: Option<u64>,
}

/// Milliseconds from `since` to `now`, zero when `since` is later.
pub open spec fn elapsed(since: u64, now: u64) -> u64 {
    if since <= now {
        (now - since) as u64
    } else {
        0
    }
}

/// The pane counts as idle: the snapshot equals the last one and has stayed
/// so for at least `settle_ms`.
pub open spec fn settled(t: IdleTracker, text: Seq<char>, now: u64, settle_ms: u64) -> bool {
    t.last_text matches Some(prev) && t.stable_since matches Some(since) && prev@ == text && elapsed(since, now) >= settle_ms
}

/// The first snapshot of a wait never counts as idle: idleness needs two
/// equal snapshots.
pub proof fn law_first_snapshot_not_idle(text: Seq<char>, now: u64, settle_ms: u64)
    ensures
        !settled(IdleTracker { last_text: None, stable_since: None }, text, now, settle_ms),
{
}

/// What a tracker holds, as plain values: the text of the snapshot that
/// began the current stable stretch and when it was taken.
pub open spec fn tracker_view(t: IdleTracker) -> Option<(Seq<char>, u64)> {
    match (t.last_text, t.stable_since) {
        (Some(prev), Some(since)) => Some((prev@, since)),
        _ => None,
    }
}

/// Whether a tracker view counts the snapshot `text` at `now` as idle.
pub open spec fn view_settled(v: Option<(Seq<char>, u64)>, text: Seq<char>, now: u64, settle_ms: u64) -> bool {
    v matches Some((prev, since)) && prev == text && elapsed(since, now) >= settle_ms
}

/// The tracker view after a snapshot that did not answer the wait: an equal
/// snapshot keeps the stretch going, any other one starts a new stretch.
pub open spec fn idle_next(v: Option<(Seq<char>, u64)>, text: Seq<char>, now: u64) -> Option<(Seq<char>, u64)> {
    if v matches Some((prev, _)) && prev == text {
        v
    } else {
        Some((text, now))
    }
}

/// The tracker view after a run of snapshots (text and time of each, in
/// the order they were taken), none of which answered the wait.
pub open spec fn idle_after(snaps: Seq<(Seq<char>, u64)>) -> Option<(Seq<char>, u64)>
    decreases snaps.len(),
{
    if snaps.len() == 0 {
        None
    } else {
        idle_next(idle_after(snaps.drop_last()), snaps.last().0, snaps.last().1)
    }
}

/// After a run of snapshots, the tracker's stretch began at one of them, and
/// that snapshot and every one after it show the stretch's text.
proof fn lemma_idle_after(snaps: Seq<(Seq<char>, u64)>)
    ensures
        snaps.len() == 0 <==> idle_after(snaps) is None,
        idle_after(snaps) matches Some((text, since)) ==> exists|j: int|
            0 <= j < snaps.len() && #[trigger] snaps[j].1 == since && forall|i: int|
                j <= i < snaps.len() ==> (#[trigger] snaps[i]).0 == text,
    decreases snaps.len(),
{
    if snaps.len() > 0 {
        let init = snaps.drop_last();
        lemma_idle_after(init);
        let n = snaps.len() - 1;
        let v = idle_after(init);
        assert(snaps[n] == snaps.last());
        if let Some((prev, since)) = v {
            if prev == snaps.last().0 {
                let j = choose|j: int|
                    0 <= j < init.len() && #[trigger] init[j].1 == since && forall|i: int|
                        j <= i < init.len() ==> (#[trigger] init[i]).0 == prev;
                assert(snaps[j] == init[j]);
                assert forall|i: int| j <= i < snaps.len() implies (#[trigger] snaps[i]).0 == prev by {
                    if i < n {
                        assert(snaps[i] == init[i]);
                    }
                }
            }
        }
    }
}

/// An idle answer comes only after at least two snapshots: the tracker has
/// followed a run of at least one snapshot, the stretch it answers for began
/// at one of them, every snapshot from that one on (and the one that
/// answers) shows the same text, and the stretch lasted at least
/// `settle_ms`.
pub proof fn law_idle_window(snaps: Seq<(Seq<char>, u64)>, text: Seq<char>, now: u64, settle_ms: u64)
    requires
        view_settled(idle_after(snaps), text, now, settle_ms),
    ensures
        snaps.len() >= 1,
        idle_after(snaps) matches Some((_, since)) && exists|j: int|
            0 <= j < snaps.len() && #[trigger] snaps[j].1 == since && elapsed(since, now) >= settle_ms
                && forall|i: int| j <= i < snaps.len() ==> (#[trigger] snaps[i]).0 == text,
{
    lemma_idle_after(snaps);
}

impl IdleTracker {
    /// A tracker that has seen no snapshot yet.
    pub fn new() -> (t: IdleTracker)
        ensures
            t.last_text is None,
            t.stable_since is None,
    {
        IdleTracker { last_text: None, stable_since: None }
    }

    /// The decision of `wait_for_idle` after a snapshot of text `text` taken
    /// at `now` (milliseconds since the wait began). The pane is idle once
    /// two snapshots taken at least `settle_ms` apart are the same and none
    /// between them differed; the wait fails once `now` reaches `deadline_ms`.
    pub fn step(&mut self, pane_id: &str, text: String, now: u64, settle_ms: u64, deadline_ms: u64) -> (r: WaitStep)
        ensures
            settled(*old(self), text@, now, settle_ms) ==> (r matches WaitStep::Reply(WaitReply::Idle { pane_id: p, idle_ms })
                && p@ == pane_id@ && idle_ms == elapsed(old(self).stable_since->0, now)),
            !settled(*old(self), text@, now, settle_ms) ==> {
                &&& now >= deadline_ms ==> replies_error(r, "timeout"@, "timed out waiting for pane to go idle"@)
                &&& now < deadline_ms ==> r is Poll
            },
            !settled(*old(self), text@, now, settle_ms) && !(old(self).last_text matches Some(prev) && old(self).stable_since is Some && prev@ == text@) ==> {
                &&& final(self).last_text matches Some(t) && t@ == text@
                &&& final(self).stable_since == Some(now)
            },
            !settled(*old(self), text@, now, settle_ms) && (old(self).last_text matches Some(prev) && old(self).stable_since is Some && prev@ == text@) ==> *final(self) == *old(self),
            settled(*old(self), text@, now, settle_ms) ==> *final(self) == *old(self),
            settled(*old(self), text@, now, settle_ms) == view_settled(tracker_view(*old(self)), text@, now, settle_ms),
            !settled(*old(self), text@, now, settle_ms) ==> tracker_view(*final(self)) == idle_next(tracker_view(*old(self)), text@, now),
    {
        let same = match (&self.last_text, self.stable_since) {
            (Some(prev), Some(_)) => str_eq(prev.as_str(), text.as_str()),
            _ => false,
        };
        if same {
            let since = match self.stable_since {
                Some(s) => s,
                None => 0,
            };
            let idle_ms = if since <= now {
                now - since
            } else {
                0
            };
            if idle_ms >= settle_ms {
                return WaitStep::Reply(WaitReply::Idle { pane_id: String::from_str(pane_id), idle_ms });
            }
        } else {
            self.stable_since = Some(now);
            self.last_text = Some(text);
        }
        if now >= deadline_ms {
            return timeout(String::from_str("timed out waiting for pane to go idle"));
        }
        WaitStep::Poll
    }
}

/// The kinds awaited by `wait_for_kind`: one kind, or a list of kinds.
pub enum KindTarget {
    Single(String),
    Many(Vec<String>),
}

/// The kinds to wait for; a request that names none is refused.
pub fn kind_targets(target: KindTarget) -> (r: Result<Vec<String>, ApiError>)
    ensures
        match target {
            KindTarget::Single(s) => r matches Ok(v) && v@ == seq![s],
            KindTarget::Many(v) => if v@.len() == 0 {
                fails_with(r, "invalid_params"@, "kind must contain at least one value"@)
            } else {
                r == Ok::<Vec<String>, ApiError>(v)
            },
        },
{
    match target {
        KindTarget::Single(s) => {
            let mut v = Vec::new();
            v.push(s);
            Ok(v)
        },
        KindTarget::Many(v) => if v.len() == 0 {
            Err(error_of("invalid_params", String::from_str("kind must contain at least one value")))
        } else {
            Ok(v)
        },
    }
}

/// How long `wait_for_kind` and `wait_for_cursor` wait: the requested
/// time, five seconds by default.
pub fn probe_wait_timeout(timeout_ms: Option<u64>) -> (r: u64)
    ensures
        r == match timeout_ms {
            Some(t) => t,
            None => 5000,
        },
{
    match timeout_ms {
        Some(t) => t,
        None => 5000,
    }
}

/// The cursor row or column that a probe answer reports under `key`, cut to
/// 32 bits as the answer is read.
pub open spec fn probe_coordinate(v: Json, key: Seq<char>) -> Option<u32> {
    match as_unsigned(field(field(Some(v), "result"@), key)) {
        Some(n) => Some(n as u32),
        None => None,
    }
}

/// The cursor row or column that a probe answer reports.
fn probe_coordinate_of(v: &Json, key: &str) -> (r: Option<u32>)
    ensures
        r == probe_coordinate(*v, key@),
{
    let result = get_field(Some(v), "result");
    match unsigned_of(get_field(result, key)) {
        Some(n) => Some(n as u32),
        None => None,
    }
}

/// Whether `kinds` holds a kind with the text `kind`.
fn holds_kind(kinds: &Vec<String>, kind: &str) -> (r: bool)
    ensures
        r == exists|i: int| 0 <= i < kinds@.len() && kinds@[i]@ == kind@,
{
    let mut i: usize = 0;
    while i < kinds.len()
        invariant
            i <= kinds@.len(),
            forall|j: int| 0 <= j < i ==> kinds@[j]@ != kind@,
        decreases kinds@.len() - i,
    {
        if str_eq(kinds[i].as_str(), kind) {
            return true;
        }
        i = i + 1;
    }
    false
}

/// The decision of `wait_for_kind` after a probe answer `v`: the wait is
/// answered when the reported kind is one of `targets`.
pub fn kind_wait_step(pane_id: &str, v: &Json, targets: &Vec<String>, deadline_passed: bool) -> (r: WaitStep)
    ensures
        ({
            let kind = result_text(*v, "kind"@);
            if exists|i: int| 0 <= i < targets@.len() && targets@[i]@ == kind {
                r matches WaitStep::Reply(WaitReply::KindMatched { pane_id: p, matched, cursor_row, cursor_col })
                    && p@ == pane_id@ && matched@ == kind && cursor_row == probe_coordinate(*v, "cursor_row"@)
                    && cursor_col == probe_coordinate(*v, "cursor_col"@)
            } else if deadline_passed {
                replies_error(r, "timeout"@, "timed out waiting for kind; last="@ + kind)
            } else {
                r is Poll
            }
        }),
{
    let kind = result_text_of(v, "kind");
    if holds_kind(targets, kind.as_str()) {
        let cursor_row = probe_coordinate_of(v, "cursor_row");
        let cursor_col = probe_coordinate_of(v, "cursor_col");
        return WaitStep::Reply(WaitReply::KindMatched { pane_id: String::from_str(pane_id), matched: kind, cursor_row, cursor_col });
    }
    if deadline_passed {
        let mut m = String::from_str("timed out waiting for kind; last=");
        m.append(kind.as_str());
        return timeout(m);
    }
    WaitStep::Poll
}

/// A `wait_for_cursor` request must await at least one of row, column, kind.
pub fn cursor_wait_check(row: Option<u32>, col: Option<u32>, kind: &Option<String>) -> (r: Result<(), ApiError>)
    ensures
        row is None && col is None && kind is None ==> fails_with(r, "invalid_params"@, "at least one of row/col/kind must be set"@),
        !(row is None && col is None && kind is None) ==> r is Ok,
{
    if row.is_none() && col.is_none() && kind.is_none() {
        return Err(error_of("invalid_params", String::from_str("at least one of row/col/kind must be set")));
    }
    Ok(())
}

/// The kind a probe answer reports, if it reports one as a string.
pub open spec fn probe_kind(v: Json) -> Option<Seq<char>> {
    as_text(field(field(Some(v), "result"@), "kind"@))
}

/// The cursor matches what a `wait_for_cursor` request awaits: each awaited
/// part (row, column, kind) equals what the probe reports.
pub open spec fn cursor_matches(v: Json, row: Option<u32>, col: Option<u32>, kind: Option<Seq<char>>) -> bool {
    &&& (row is None || probe_coordinate(v, "cursor_row"@) == row)
    &&& (col is None || probe_coordinate(v, "cursor_col"@) == col)
    &&& (kind is None || probe_kind(v) == kind)
}

/// The view of an optional string.
pub open spec fn opt_text(s: Option<String>) -> Option<Seq<char>> {
    match s {
        Some(t) => Some(t@),
        None => None,
    }
}

/// The decision of `wait_for_cursor` after a probe answer `v`.
pub fn cursor_wait_step(
    pane_id: &str,
    v: &Json,
    row: Option<u32>,
    col: Option<u32>,
    kind: &Option<String>,
    deadline_passed: bool,
) -> (r: WaitStep)
    ensures
        cursor_matches(*v, row, col, opt_text(*kind)) ==> (r matches WaitStep::Reply(WaitReply::CursorMatched { pane_id: p, cursor_row, cursor_col, kind: k })
            && p@ == pane_id@ && cursor_row == probe_coordinate(*v, "cursor_row"@)
            && cursor_col == probe_coordinate(*v, "cursor_col"@) && opt_text(k) == probe_kind(*v)),
        !cursor_matches(*v, row, col, opt_text(*kind)) && deadline_passed ==> replies_error(r, "timeout"@, "timed out waiting for cursor"@),
        !cursor_matches(*v, row, col, opt_text(*kind)) && !deadline_passed ==> r is Poll,
        r matches WaitStep::Reply(WaitReply::CursorMatched { cursor_row, cursor_col, kind: k, .. }) ==> {
            &&& row is Some ==> cursor_row == row
            &&& col is Some ==> cursor_col == col
            &&& kind matches Some(want) ==> (k matches Some(got) && got@ == want@)
        },
        r is Poll ==> !deadline_passed,
        (row is None || probe_coordinate(*v, "cursor_row"@) == row) && (col is None || probe_coordinate(
            *v,
            "cursor_col"@,
        ) == col) && (kind matches Some(want) ==> probe_kind(*v) == Some(want@)) ==> r is Reply,
{
    let cur_row = probe_coordinate_of(v, "cursor_row");
    let cur_col = probe_coordinate_of(v, "cursor_col");
    let result = get_field(Some(v), "result");
    let cur_kind: Option<String> = match text_of(get_field(result, "kind")) {
        Some(k) => Some(String::from_str(k)),
        None => None,
    };
    let row_ok = row.is_none() || cur_row == row;
    let col_ok = col.is_none() || cur_col == col;
    let kind_ok = match kind {
        None => true,
        Some(want) => match &cur_kind {
            Some(k) => str_eq(k.as_str(), want.as_str()),
            None => false,
        },
    };
    if row_ok && col_ok && kind_ok {
        return WaitStep::Reply(WaitReply::CursorMatched { pane_id: String::from_str(pane_id), cursor_row: cur_row, cursor_col: cur_col, kind: cur_kind });
    }
    if deadline_passed {
        return timeout(String::from_str("timed out waiting for cursor"));
    }
    WaitStep::Poll
}

/// How long `wait_for_screen_change` waits and how often it polls: the
/// requested times, by default 1500 ms and every 25 ms.
pub fn screen_change_timing(timeout_ms: Option<u64>, poll_ms: Option<u64>) -> (r: (u64, u64))
    ensures
        r.0 == match timeout_ms {
            Some(t) => t,
            None => 1500,
        },
        r.1 == match poll_ms {
            Some(p) => p,
            None => 25,
        },
{
    let t = match timeout_ms {
        Some(t) => t,
        None => 1500,
    };
    let p = match poll_ms {
        Some(p) => p,
        None => 25,
    };
    (t, p)
}

/// The message of a `wait_for_screen_change` that ran out of time.
pub open spec fn unchanged_screen_message(timeout_ms: u64, hash: Seq<char>) -> Seq<char> {
    "screen did not change within "@ + decimal(timeout_ms as nat) + "ms \u{2014} keystroke silently dropped (last_hash="@
        + hash + ")"@
}

/// The decision of `wait_for_screen_change` after a digest answer `v`: the
/// screen changed when the reported digest is not empty and differs from
/// `prev_hash`.
pub fn screen_change_step(pane_id: &str, v: &Json, prev_hash: &str, timeout_ms: u64, deadline_passed: bool) -> (r: WaitStep)
    ensures
        ({
            let hash = result_text(*v, "hash"@);
            if hash.len() > 0 && hash != prev_hash@ {
                r matches WaitStep::Reply(WaitReply::ScreenChanged { pane_id: p, hash: h }) && p@ == pane_id@ && h@ == hash
            } else if deadline_passed {
                replies_error(r, "timeout"@, unchanged_screen_message(timeout_ms, hash))
            } else {
                r is Poll
            }
        }),
{
    let hash = result_text_of(v, "hash");
    if !hash.as_str().is_empty() && !str_eq(hash.as_str(), prev_hash) {
        return WaitStep::Reply(WaitReply::ScreenChanged { pane_id: String::from_str(pane_id), hash });
    }
    if deadline_passed {
        let t = decimal_string(timeout_ms);
        let mut m = concat3("screen did not change within ", t.as_str(), "ms \u{2014} keystroke silently dropped (last_hash=");
        m.append(hash.as_str());
        m.append(")");
        return timeout(m);
    }
    WaitStep::Poll
}

/// A compiled regular expression.
#[verifier::external_type_specification]
#[verifier::external_body]
pub struct ExRegex(regex::Regex);

/// Whether `regex::Regex::new` accepts a pattern.
pub uninterp spec fn regex_accepts(pattern: Seq<char>) -> bool;

/// The text of the error that `regex::Regex::new` gives for a pattern it refuses.
pub uninterp spec fn regex_error_text(pattern: Seq<char>) -> Seq<char>;

/// The pattern text that a compiled regular expression was built from (what
/// `regex::Regex::as_str` returns).
pub uninterp spec fn regex_source(re: regex::Regex) -> Seq<char>;

/// Calls `regex::Regex::new`. The contract claims that whether the pattern
/// compiles, and the text of the error when it does not, depend on the
/// pattern alone, and that a compiled expression keeps the pattern it was
/// built from as its source text (the crate documents `as_str` as returning
/// the original string). Which patterns compile, and what the compiled
/// expression matches, is left unsaid.
#[verifier::external_body]
fn regex_new(pattern: &str) -> (r: Result<regex::Regex, String>)
    ensures
        r is Ok <==> regex_accepts(pattern@),
        r matches Err(m) ==> m@ == regex_error_text(pattern@),
        r matches Ok(re) ==> regex_source(re) == pattern@,
{
    match regex::Regex::new(pattern) {
        Ok(re) => Ok(re),
        Err(e) => Err(e.to_string()),
    }
}

/// How a waiting request matches text: by regular expression or by substring.
pub enum OutputMatch {
    Regex { value: String },
    Substring { value: String },
}

/// Compile the regular expression of a match, if it is one; a pattern that
/// does not compile is refused with the compiler's message. A pattern that
/// compiles gives the expression built from that very pattern.
pub fn compile_output_match(m: &OutputMatch) -> (r: Result<Option<regex::Regex>, ApiError>)
    ensures
        match m {
            OutputMatch::Substring { .. } => r matches Ok(None),
            OutputMatch::Regex { value } => if regex_accepts(value@) {
                r matches Ok(Some(re)) && regex_source(re) == value@
            } else {
                fails_with(r, "invalid_regex"@, regex_error_text(value@))
            },
        },
{
    match m {
        OutputMatch::Substring { .. } => Ok(None),
        OutputMatch::Regex { value } => match regex_new(value.as_str()) {
            Ok(re) => Ok(Some(re)),
            Err(message) => Err(error_of("invalid_regex", message)),
        },
    }
}

/// What `wait_for_output` does after reading the pane's output.
pub enum OutputStep {
    /// The output matched: answer with what was read.
    Matched,
    /// Answer with this error.
    Failed(ApiError),
    /// Sleep for the poll interval and read again.
    Poll,
}

/// The decision of `wait_for_output` after a read: `decoded` says whether
/// the read result could be decoded, `matched` whether the text matched.
pub fn output_wait_step(decoded: bool, matched: bool, deadline_passed: bool) -> (r: OutputStep)
    ensures
        !decoded ==> (r matches OutputStep::Failed(e) && api_error(e, "internal_error"@, "failed to decode pane read result"@)),
        decoded && matched ==> r is Matched,
        decoded && !matched && deadline_passed ==> (r matches OutputStep::Failed(e) && api_error(e, "timeout"@, "timed out waiting for output match"@)),
        decoded && !matched && !deadline_passed ==> r is Poll,
{
    if !decoded {
        return OutputStep::Failed(error_of("internal_error", String::from_str("failed to decode pane read result")));
    }
    if matched {
        return OutputStep::Matched;
    }
    if deadline_passed {
        return OutputStep::Failed(error_of("timeout", String::from_str("timed out waiting for output match")));
    }
    OutputStep::Poll
}

} // verus!
