//! Agent status bookkeeping for panes: how an agent's state maps to the
//! status reported over the API and to the attention a tab asks for, and how
//! labels and custom status texts reported by agents are normalized.

use vstd::prelude::*;
use crate::text::{chars_of, is_ascii_char, lemma_trimmed_idempotent, lemma_trimmed_is_part, string_from_chars, trim, trimmed};

verus! {

broadcast use vstd::string::group_string_axioms;

/// What an agent running in a pane is doing, as detected from its output.
#[derive(Clone, Copy, Debug, PartialEq, Eq, Structural)]
pub enum AgentState {
    Idle,
    Working,
    Blocked,
    Unknown,
}

/// An agent state as a client reports it over the API.
#[derive(Clone, Copy, Debug, PartialEq, Eq, Structural)]
pub enum PaneAgentState {
    Idle,
    Working,
    Blocked,
    Unknown,
}

/// The status of a pane's agent as the API reports it. `Done` is an idle
/// agent whose result the user has not seen yet.
#[derive(Clone, Copy, Debug, PartialEq, Eq, Structural)]
pub enum AgentStatus {
    Done,
    Idle,
    Working,
    Blocked,
    Unknown,
}

/// How urgently a tab asks for attention, from the state of its agent and
/// whether the user has seen the pane since the agent went idle.
pub open spec fn attention_priority(state: AgentState, seen: bool) -> u8 {
    match state {
        AgentState::Blocked => 4,
        AgentState::Idle => if seen {
            1
        } else {
            3
        },
        AgentState::Working => 2,
        AgentState::Unknown => 0,
    }
}

/// The attention a tab asks for: a blocked agent first, then an agent that
/// finished unseen, then a working one, then an idle one seen already.
pub fn tab_attention_priority(state: AgentState, seen: bool) -> (r: u8)
    ensures
        r == attention_priority(state, seen),
{
    match (state, seen) {
        (AgentState::Blocked, _) => 4,
        (AgentState::Idle, false) => 3,
        (AgentState::Working, _) => 2,
        (AgentState::Idle, true) => 1,
        (AgentState::Unknown, _) => 0,
    }
}

/// The agent state that a state reported over the API stands for.
pub open spec fn state_of_report(state: PaneAgentState) -> AgentState {
    match state {
        PaneAgentState::Idle => AgentState::Idle,
        PaneAgentState::Working => AgentState::Working,
        PaneAgentState::Blocked => AgentState::Blocked,
        PaneAgentState::Unknown => AgentState::Unknown,
    }
}

/// The agent state for a state reported over the API.
pub fn detect_state_from_api(state: PaneAgentState) -> (r: AgentState)
    ensures
        r == state_of_report(state),
{
    match state {
        PaneAgentState::Idle => AgentState::Idle,
        PaneAgentState::Working => AgentState::Working,
        PaneAgentState::Blocked => AgentState::Blocked,
        PaneAgentState::Unknown => AgentState::Unknown,
    }
}

/// The status the API reports for an agent state.
pub open spec fn agent_status(state: AgentState, seen: bool) -> AgentStatus {
    match state {
        AgentState::Idle => if seen {
            AgentStatus::Idle
        } else {
            AgentStatus::Done
        },
        AgentState::Working => AgentStatus::Working,
        AgentState::Blocked => AgentStatus::Blocked,
        AgentState::Unknown => AgentStatus::Unknown,
    }
}

/// The status the API reports for a pane's agent: an idle agent is `Done`
/// until the user has seen the pane.
pub fn pane_agent_status(state: AgentState, seen: bool) -> (r: AgentStatus)
    ensures
        r == agent_status(state, seen),
{
    match (state, seen) {
        (AgentState::Idle, false) => AgentStatus::Done,
        (AgentState::Idle, true) => AgentStatus::Idle,
        (AgentState::Working, _) => AgentStatus::Working,
        (AgentState::Blocked, _) => AgentStatus::Blocked,
        (AgentState::Unknown, _) => AgentStatus::Unknown,
    }
}

/// The rank of a reported status in the order of attention.
pub open spec fn status_rank(status: AgentStatus) -> u8 {
    match status {
        AgentStatus::Blocked => 4,
        AgentStatus::Done => 3,
        AgentStatus::Working => 2,
        AgentStatus::Idle => 1,
        AgentStatus::Unknown => 0,
    }
}

/// A tab's attention priority is decided by the status reported for its
/// agent alone: two panes reported with the same status ask for the same
/// attention, and the order is blocked, done, working, idle, unknown.
pub proof fn law_priority_follows_status(state: AgentState, seen: bool)
    ensures
        attention_priority(state, seen) == status_rank(agent_status(state, seen)),
{
}

/// Every agent state can be reported over the API, and distinct reports
/// stand for distinct states.
pub proof fn law_reports_match_states(a: PaneAgentState, b: PaneAgentState, s: AgentState)
    ensures
        state_of_report(a) == state_of_report(b) ==> a == b,
        exists|r: PaneAgentState| state_of_report(r) == s,
{
    match s {
        AgentState::Idle => assert(state_of_report(PaneAgentState::Idle) == s),
        AgentState::Working => assert(state_of_report(PaneAgentState::Working) == s),
        AgentState::Blocked => assert(state_of_report(PaneAgentState::Blocked) == s),
        AgentState::Unknown => assert(state_of_report(PaneAgentState::Unknown) == s),
    }
}

/// Whether a character is in Unicode's general category `Cc` (control codes).
pub uninterp spec fn unicode_control(c: char) -> bool;

/// A control character as `char::is_control` answers it: on ASCII
/// characters the codes below 32 and 127, beyond ASCII the category `Cc`.
pub open spec fn control_char(c: char) -> bool {
    if is_ascii_char(c) {
        (c as u32) < 32 || (c as u32) == 127
    } else {
        unicode_control(c)
    }
}

/// Calls `char::is_control`, which answers whether the character's general
/// category is `Cc`. The contract names that answer and gives it on ASCII
/// characters, where `Cc` holds exactly the codes below 32 and 127; the
/// category's code points beyond ASCII are not listed.
#[verifier::external_body]
fn is_control(c: char) -> (r: bool)
    ensures
        r == unicode_control(c),
        is_ascii_char(c) ==> r == ((c as u32) < 32 || (c as u32) == 127),
{
    c.is_control()
}

/// `s` with its control characters removed.
pub open spec fn without_controls(s: Seq<char>) -> Seq<char>
    decreases s.len(),
{
    if s.len() == 0 {
        s
    } else if control_char(s.last()) {
        without_controls(s.drop_last())
    } else {
        without_controls(s.drop_last()).push(s.last())
    }
}

/// Removing control characters distributes over concatenation.
pub proof fn lemma_without_controls_concat(a: Seq<char>, b: Seq<char>)
    ensures
        without_controls(a + b) == without_controls(a) + without_controls(b),
    decreases b.len(),
{
    if b.len() == 0 {
        assert(a + b =~= a);
        assert(without_controls(b) =~= b);
    } else {
        lemma_without_controls_concat(a, b.drop_last());
        assert((a + b).drop_last() =~= a + b.drop_last());
        assert((a + b).last() == b.last());
        if !control_char(b.last()) {
            assert(without_controls(a) + without_controls(b.drop_last()).push(b.last()) =~= (
            without_controls(a) + without_controls(b.drop_last())).push(b.last()));
        }
    }
}

/// The length limit of a custom status text, in characters.
pub const CUSTOM_STATUS_MAX_CHARS: usize = 32;

/// A custom status as it is kept: trimmed, without control characters, cut
/// to its first 32 remaining characters and trimmed again; `None` when
/// nothing is left.
pub open spec fn custom_status(status: Option<Seq<char>>) -> Option<Seq<char>> {
    match status {
        None => None,
        Some(s) => {
            let kept = without_controls(trimmed(s));
            let cut = kept.take(if kept.len() < 32 { kept.len() as int } else { 32 });
            if trimmed(cut).len() == 0 {
                None
            } else {
                Some(trimmed(cut))
            }
        },
    }
}

/// `s` holds no control character.
pub open spec fn control_free(s: Seq<char>) -> bool {
    forall|i: int| 0 <= i < s.len() ==> !control_char(#[trigger] s[i])
}

/// Removing control characters leaves none.
proof fn lemma_without_controls_free(s: Seq<char>)
    ensures
        control_free(without_controls(s)),
        without_controls(s).len() <= s.len(),
    decreases s.len(),
{
    if s.len() > 0 {
        lemma_without_controls_free(s.drop_last());
    }
}

/// A kept custom status is never empty, holds at most 32 characters and no
/// control character.
pub proof fn law_custom_status_bounded(status: Option<Seq<char>>)
    ensures
        custom_status(status) matches Some(r) ==> 0 < r.len() <= 32 && control_free(r),
{
    if let Some(s) = status {
        let kept = without_controls(trimmed(s));
        lemma_without_controls_free(trimmed(s));
        let cut = kept.take(if kept.len() < 32 { kept.len() as int } else { 32 });
        lemma_trimmed_is_part(cut);
        let (a, b) = choose|a: int, b: int| 0 <= a <= b <= cut.len() && trimmed(cut) == cut.subrange(a, b);
        assert forall|i: int| 0 <= i < trimmed(cut).len() implies !control_char(#[trigger] trimmed(cut)[i]) by {
            assert(trimmed(cut)[i] == kept[a + i]);
        }
    }
}

/// Removing control characters from text that has none changes nothing.
proof fn lemma_without_controls_of_free(s: Seq<char>)
    requires
        control_free(s),
    ensures
        without_controls(s) == s,
    decreases s.len(),
{
    if s.len() > 0 {
        lemma_without_controls_of_free(s.drop_last());
        assert(!control_char(s[s.len() - 1]));
        assert(s.drop_last().push(s.last()) =~= s);
    }
}

/// A kept custom status is already in the form in which it is kept: it is
/// trimmed, and normalizing it again gives it back unchanged.
pub proof fn law_custom_status_idempotent(status: Option<Seq<char>>)
    ensures
        custom_status(status) matches Some(r) ==> trimmed(r) == r && custom_status(Some(r)) == Some(r),
{
    if let Some(s) = status {
        law_custom_status_bounded(status);
        let kept = without_controls(trimmed(s));
        let cut = kept.take(if kept.len() < 32 { kept.len() as int } else { 32 });
        lemma_trimmed_idempotent(cut);
        if let Some(r) = custom_status(status) {
            assert(r == trimmed(cut));
            lemma_without_controls_of_free(r);
            assert(without_controls(trimmed(r)) == r);
            assert(r.take(r.len() as int) =~= r);
        }
    }
}

/// Normalize a custom status reported for a pane.
pub fn normalize_custom_status(status: Option<String>) -> (r: Option<String>)
    ensures
        match r {
            None => custom_status(match status { Some(s) => Some(s@), None => None }) is None,
            Some(x) => custom_status(match status { Some(s) => Some(s@), None => None }) == Some(x@),
        },
{
    let status = match status {
        None => return None,
        Some(s) => s,
    };
    let t = chars_of(trim(status.as_str()));
    let ghost whole = without_controls(t@);
    let mut kept: Vec<char> = Vec::new();
    let mut i: usize = 0;
    while i < t.len() && kept.len() < CUSTOM_STATUS_MAX_CHARS
        invariant
            i <= t@.len(),
            kept@.len() <= 32,
            kept@ == without_controls(t@.take(i as int)),
            whole == without_controls(t@),
        decreases t@.len() - i,
    {
        let c = t[i];
        assert(t@.take(i + 1).drop_last() =~= t@.take(i as int));
        if !is_control(c) {
            kept.push(c);
        }
        i = i + 1;
    }
    proof {
        assert(t@ =~= t@.take(i as int) + t@.skip(i as int));
        lemma_without_controls_concat(t@.take(i as int), t@.skip(i as int));
        let cut = whole.take(if whole.len() < 32 { whole.len() as int } else { 32 });
        if i == t@.len() {
            assert(t@.take(i as int) =~= t@);
            assert(kept@ =~= cut);
        } else {
            assert(kept@ =~= cut);
        }
    }
    let normalized = string_from_chars(&kept);
    let r = trim(normalized.as_str());
    if r.is_empty() {
        None
    } else {
        Some(r.to_string())
    }
}

/// Normalize the agent label that a client reports for a pane: surrounding
/// whitespace is dropped, an empty label means no label, and a label that
/// names a known agent is replaced by that agent's canonical label, which
/// `canonical_label` gives (`None` for a label that names no known agent).
pub fn normalize_reported_agent_label<F: Fn(&str) -> Option<String>>(
    agent: &str,
    canonical_label: F,
) -> (r: Option<String>)
    requires
        forall|t: &str| canonical_label.requires((t,)),
    ensures
        trimmed(agent@).len() == 0 ==> r is None,
        trimmed(agent@).len() > 0 ==> exists|t: &str, known: Option<String>|
            {
                &&& t@ == trimmed(agent@)
                &&& canonical_label.ensures((t,), known)
                &&& r matches Some(x) && x@ == match known {
                    Some(label) => label@,
                    None => t@,
                }
            },
{
    let trimmed_agent = trim(agent);
    if trimmed_agent.is_empty() {
        return None;
    }
    let known = canonical_label(trimmed_agent);
    match known {
        Some(label) => Some(label),
        None => Some(trimmed_agent.to_string()),
    }
}

/// Append the bytes of `b` to `v`.
fn push_bytes(v: &mut Vec<u8>, b: &[u8])
    ensures
        final(v)@ == old(v)@ + b@,
{
    let mut i: usize = 0;
    while i < b.len()
        invariant
            i <= b@.len(),
            v@ == old(v)@ + b@.take(i as int),
        decreases b@.len() - i,
    {
        v.push(b[i]);
        assert(b@.take(i + 1) =~= b@.take(i as int).push(b@[i as int]));
        i = i + 1;
    }
    assert(b@.take(i as int) =~= b@);
}

/// The marker that opens a bracketed paste.
pub open spec fn paste_start() -> Seq<char> {
    "\x1b[200~"@
}

/// The marker that closes a bracketed paste.
pub open spec fn paste_end() -> Seq<char> {
    "\x1b[201~"@
}

/// The bytes written to a pane for text sent through the API: the text's
/// UTF-8 bytes, wrapped in the bracketed-paste markers when the program in
/// the pane has turned bracketed paste on. `bracketed_paste` is that flag,
/// `None` when the pane's input state is not known.
pub fn encode_api_text(bracketed_paste: Option<bool>, text: &str) -> (r: Vec<u8>)
    ensures
        r@ == if bracketed_paste == Some(true) {
            vstd::utf8::encode_utf8(paste_start()) + vstd::utf8::encode_utf8(text@)
                + vstd::utf8::encode_utf8(paste_end())
        } else {
            vstd::utf8::encode_utf8(text@)
        },
{
    let bracketed = match bracketed_paste {
        Some(b) => b,
        None => false,
    };
    let mut out: Vec<u8> = Vec::new();
    if bracketed {
        push_bytes(&mut out, "\x1b[200~".as_bytes());
        push_bytes(&mut out, text.as_bytes());
        push_bytes(&mut out, "\x1b[201~".as_bytes());
    } else {
        push_bytes(&mut out, text.as_bytes());
    }
    out
}

} // verus!
