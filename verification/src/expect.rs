//! The bookkeeping of the API's `expect` request, which runs a list of
//! steps (send text, send a key, wait for text, wait for idle, sleep) in one
//! round trip and answers with the outcome of each step and the tail of the
//! screen.

use vstd::prelude::*;
use vstd::string::StringExecFns;
use crate::json::{Json, as_text, field, get_field, text_of};
use crate::text::{concat3, decimal, decimal_string};
use crate::wait::{OutputMatch, result_text, result_text_of};

verus! {

broadcast use vstd::string::group_string_axioms;

/// One step of an `expect` request.
pub enum ExpectStep {
    Send { text: String },
    SendKey { key: String },
    WaitText { pattern: OutputMatch, timeout_ms: Option<u64> },
    WaitIdle { settle_ms: u64, deadline_ms: u64 },
    Sleep { sleep_ms: u64 },
}

/// How a step went: it succeeded, or it failed with an error code and message.
pub enum StepOutcome {
    Success,
    Failure { code: String, message: String },
}

/// The outcome of a step from the application's answer to it. `answer` is
/// the answer read as JSON, or the reason it is not JSON. An answer that is
/// not JSON fails the step as `invalid_response`; an answer with an `error`
/// member fails it with that error's `code` (default `error`) and `message`
/// (default empty); any other answer is a success.
pub open spec fn outcome_of(answer: Result<Json, String>) -> Result<(), (Seq<char>, Seq<char>)> {
    match answer {
        Err(reason) => Err(("invalid_response"@, reason@)),
        Ok(v) => match field(Some(v), "error"@) {
            None => Ok(()),
            Some(e) => Err(
                (
                    match as_text(field(Some(e), "code"@)) {
                        Some(c) => c,
                        None => "error"@,
                    },
                    match as_text(field(Some(e), "message"@)) {
                        Some(m) => m,
                        None => seq![],
                    },
                ),
            ),
        },
    }
}

/// A step outcome matches its specification.
pub open spec fn outcome_is(o: StepOutcome, s: Result<(), (Seq<char>, Seq<char>)>) -> bool {
    match (o, s) {
        (StepOutcome::Success, Ok(())) => true,
        (StepOutcome::Failure { code, message }, Err((c, m))) => code@ == c && message@ == m,
        _ => false,
    }
}

/// The outcome of a step from the application's answer to it.
pub fn parse_outcome(answer: Result<Json, String>) -> (r: StepOutcome)
    ensures
        outcome_is(r, outcome_of(answer)),
{
    let v = match answer {
        Err(reason) => return StepOutcome::Failure { code: String::from_str("invalid_response"), message: reason },
        Ok(v) => v,
    };
    let err = get_field(Some(&v), "error");
    if err.is_none() {
        return StepOutcome::Success;
    }
    let code = match text_of(get_field(err, "code")) {
        Some(c) => String::from_str(c),
        None => String::from_str("error"),
    };
    let message = match text_of(get_field(err, "message")) {
        Some(m) => String::from_str(m),
        None => String::new(),
    };
    StepOutcome::Failure { code, message }
}

/// The id of the request that carries step `idx` of the `expect` request `request_id`.
pub fn step_request_id(request_id: &str, idx: usize) -> (r: String)
    ensures
        r@ == request_id@ + ":step"@ + decimal(idx as nat),
{
    let n = decimal_string(idx as u64);
    concat3(request_id, ":step", n.as_str())
}

/// The id of a request made on behalf of the request `request_id`: its id
/// followed by a colon and a purpose (`tail`, `screen`, `probe`, `hash`, `read`).
pub fn sub_request_id(request_id: &str, purpose: &str) -> (r: String)
    ensures
        r@ == request_id@ + ":"@ + purpose@,
{
    concat3(request_id, ":", purpose)
}

/// The result of one step, as the answer reports it.
pub struct StepResult {
    pub index: u32,
    pub ok: bool,
    pub code: Option<String>,
    pub message: Option<String>,
}

/// The step that failed last, as the answer reports it.
pub struct ErrorDetail {
    pub index: Option<u32>,
    pub code: String,
    pub message: String,
}

/// The progress of an `expect` request: how many steps succeeded, the
/// result of each step run so far, and the last failure.
pub struct ExpectProgress {
    pub completed: u32,
    pub steps: Vec<StepResult>,
    pub error: Option<ErrorDetail>,
}

/// The number of successful results.
pub open spec fn ok_count(results: Seq<StepResult>) -> nat
    decreases results.len(),
{
    if results.len() == 0 {
        0
    } else {
        ok_count(results.drop_last()) + if results.last().ok {
            1nat
        } else {
            0nat
        }
    }
}

/// The progress is consistent: each result carries the index of its place,
/// the count of completed steps is the number of successful results, and the
/// recorded failure is the last failed result.
pub open spec fn progress_consistent(p: ExpectProgress) -> bool {
    &&& forall|i: int| 0 <= i < p.steps@.len() ==> (#[trigger] p.steps@[i]).index == i as u32
    &&& p.completed == ok_count(p.steps@)
    &&& match p.error {
        None => forall|i: int| 0 <= i < p.steps@.len() ==> p.steps@[i].ok,
        Some(d) => exists|i: int|
            0 <= i < p.steps@.len() && !p.steps@[i].ok && d.index == Some(p.steps@[i].index) && (
            p.steps@[i].code matches Some(c) && c@ == d.code@) && (p.steps@[i].message matches Some(m)
                && m@ == d.message@) && forall|j: int| i < j < p.steps@.len() ==> p.steps@[j].ok,
    }
}

impl ExpectProgress {
    /// No step run yet.
    pub fn new() -> (p: ExpectProgress)
        ensures
            p.completed == 0,
            p.steps@.len() == 0,
            p.error is None,
            progress_consistent(p),
    {
        ExpectProgress { completed: 0, steps: Vec::new(), error: None }
    }

    /// Record the outcome of step `idx`, the step after those recorded so
    /// far. Answers whether to go on with the next step: not after a failure
    /// when the request stops on errors.
    pub fn record(&mut self, idx: usize, outcome: StepOutcome, stop_on_error: bool) -> (go_on: bool)
        requires
            idx == old(self).steps@.len(),
            old(self).completed < u32::MAX,
            progress_consistent(*old(self)),
        ensures
            progress_consistent(*final(self)),
            final(self).steps@.len() == old(self).steps@.len() + 1,
            final(self).steps@.drop_last() == old(self).steps@,
            final(self).steps@.last().index == idx as u32,
            match outcome {
                StepOutcome::Success => {
                    &&& final(self).steps@.last().ok
                    &&& final(self).steps@.last().code is None
                    &&& final(self).steps@.last().message is None
                    &&& final(self).completed == old(self).completed + 1
                    &&& final(self).error == old(self).error
                    &&& go_on
                },
                StepOutcome::Failure { code, message } => {
                    &&& !final(self).steps@.last().ok
                    &&& final(self).steps@.last().code matches Some(c) && c@ == code@
                    &&& final(self).steps@.last().message matches Some(m) && m@ == message@
                    &&& final(self).completed == old(self).completed
                    &&& final(self).error matches Some(d) && d.index == Some(idx as u32) && d.code@ == code@
                        && d.message@ == message@
                    &&& go_on == !stop_on_error
                },
            },
    {
        let ghost before = self.steps@;
        match outcome {
            StepOutcome::Success => {
                self.steps.push(StepResult { index: idx as u32, ok: true, code: None, message: None });
                self.completed = self.completed + 1;
                assert(self.steps@.drop_last() =~= before);
                true
            },
            StepOutcome::Failure { code, message } => {
                let c2 = code.clone();
                let m2 = message.clone();
                self.steps.push(StepResult { index: idx as u32, ok: false, code: Some(c2), message: Some(m2) });
                self.error = Some(ErrorDetail { index: Some(idx as u32), code, message });
                assert(self.steps@.drop_last() =~= before);
                proof {
                    let n = self.steps@.len() - 1;
                    assert(!self.steps@[n].ok);
                }
                !stop_on_error
            },
        }
    }
}

/// How many rows of the screen's tail an `expect` answer carries: the
/// requested number, five by default.
pub fn tail_rows_or_default(tail_rows: Option<u32>) -> (r: u32)
    ensures
        r == match tail_rows {
            Some(n) => n,
            None => 5,
        },
{
    match tail_rows {
        Some(n) => n,
        None => 5,
    }
}

/// The number of rows to ask the application for as the tail of the screen:
/// none (and no request) when zero rows were asked for.
pub fn tail_request_rows(tail_rows: u32) -> (r: Option<u32>)
    ensures
        r == if tail_rows == 0 {
            None::<u32>
        } else {
            Some(tail_rows)
        },
{
    if tail_rows == 0 {
        None
    } else {
        Some(tail_rows)
    }
}

/// The tail of the screen from the application's answer to the request for
/// it: the result's `text`, or the empty text when the answer is not JSON
/// or has none.
pub fn tail_text(answer: Option<Json>) -> (r: String)
    ensures
        r@ == match answer {
            Some(v) => result_text(v, "text"@),
            None => seq![],
        },
{
    match answer {
        Some(v) => result_text_of(&v, "text"),
        None => String::new(),
    }
}

/// The number of steps, as the answer reports it (cut to 32 bits).
pub fn step_total(steps: &Vec<ExpectStep>) -> (r: u32)
    ensures
        r == steps@.len() as u32,
{
    steps.len() as u32
}

} // verus!
