//! Heuristic classifier for what a terminal pane is showing: a shell
//! prompt, a REPL, vim in one of its modes, a pager, an input prompt, or a
//! running command.

use vstd::prelude::*;
use crate::text::{
    byte_len, byte_length, chars_of, lemma_substring_within, has_prefix, has_substring, has_suffix, lowercase, str_contains,
    str_ends_with, str_eq, str_starts_with, lowered,
};

verus! {

broadcast use vstd::string::group_string_axioms;

/// An ASCII decimal digit.
pub open spec fn is_digit(c: char) -> bool {
    '0' <= c && c <= '9'
}

/// A character that may appear inside a cursor coordinate such as `12,5` or `3:40`.
pub open spec fn is_coord_char(c: char) -> bool {
    is_digit(c) || c == ',' || c == ':'
}

/// The separator between the two numbers of a coordinate.
pub open spec fn is_coord_sep(c: char) -> bool {
    c == ',' || c == ':'
}

/// Every character of `s[a..b)` is a digit.
pub open spec fn digits_between(s: Seq<char>, a: int, b: int) -> bool {
    forall|k: int| a <= k < b ==> is_digit(#[trigger] s[k])
}

/// The part after the separator at `p`, up to `b`, reads as a column rather
/// than as a thousands group: a comma followed by exactly three digits is how
/// a count such as `12,000` is written, so it is no cursor position.
pub open spec fn plausible_column(s: Seq<char>, p: int, b: int) -> bool {
    !(s[p] == ',' && b - (p + 1) == 3)
}

/// `s[a..b)` is a whole run of coordinate characters (bounded on both sides
/// by a non-coordinate character or the end of the line) that reads
/// `digits, separator at p, digits`, where the digits after the separator
/// are a plausible column.
pub open spec fn coordinate_at(s: Seq<char>, a: int, p: int, b: int) -> bool {
    &&& 0 <= a < p
    &&& p + 1 < b <= s.len()
    &&& digits_between(s, a, p)
    &&& is_coord_sep(s[p])
    &&& digits_between(s, p + 1, b)
    &&& plausible_column(s, p, b)
    &&& (a == 0 || !is_coord_char(s[a - 1]))
    &&& (b == s.len() || !is_coord_char(s[b]))
}

/// The line holds a cursor coordinate like vim's `1,1` or lualine's `25:80`,
/// standing alone rather than inside a longer run such as `12,000,000`, and
/// not a count written with a thousands separator such as `12,000`.
pub open spec fn has_coordinate(s: Seq<char>) -> bool {
    exists|a: int, p: int, b: int| coordinate_at(s, a, p, b)
}

/// The line holds at least one ASCII digit.
pub open spec fn has_digit(s: Seq<char>) -> bool {
    exists|k: int| 0 <= k < s.len() && is_digit(#[trigger] s[k])
}

/// What a vim or neovim status line looks like: at least four bytes long and
/// holding a position word (`All`, `Top`, `Bot`), the modified flag `[+]`,
/// a cursor coordinate, or a percentage.
pub open spec fn vim_status_line(s: Seq<char>) -> bool {
    &&& byte_len(s) >= 4
    &&& {
        ||| has_substring(s, "All"@)
        ||| has_substring(s, "Top"@)
        ||| has_substring(s, "Bot"@)
        ||| has_substring(s, "[+]"@)
        ||| has_coordinate(s)
        ||| (has_digit(s) && s.contains('%'))
    }
}

/// `s[a..i)` is a non-empty run of digits.
spec fn run_digits(s: Seq<char>, a: int, i: int) -> bool {
    a < i && digits_between(s, a, i)
}

/// `s[a..i)` is digits followed by one separator.
spec fn run_digits_sep(s: Seq<char>, a: int, i: int) -> bool {
    a + 1 < i && digits_between(s, a, i - 1) && is_coord_sep(s[i - 1])
}

/// `s[a..i)` is digits, one separator, digits.
spec fn run_coordinate(s: Seq<char>, a: int, i: int) -> bool {
    exists|p: int|
        a < p && p + 1 < i && digits_between(s, a, p) && #[trigger] is_coord_sep(s[p])
            && digits_between(s, p + 1, i)
}

/// Whether the line holds a stand-alone cursor coordinate.
fn line_has_coordinate(line: &Vec<char>) -> (r: bool)
    ensures
        r == has_coordinate(line@),
{
    let ghost s = line@;
    // 0: empty run, 1: digits, 2: digits and separator, 3: a coordinate, 4: anything else
    let mut state: u8 = 0;
    let ghost mut start: int = 0;
    // where the separator of the current run stands, in states 2 and 3
    let mut sep: usize = 0;
    let mut i: usize = 0;
    while i < line.len()
        invariant
            s == line@,
            0 <= start <= i <= s.len(),
            start == 0 || !is_coord_char(s[start - 1]),
            forall|k: int| start <= k < i ==> is_coord_char(#[trigger] s[k]),
            state <= 4,
            (state == 0) == (start == i),
            (state == 1) == run_digits(s, start, i as int),
            (state == 2) == run_digits_sep(s, start, i as int),
            (state == 3) == run_coordinate(s, start, i as int),
            state == 2 || state == 3 ==> {
                &&& start < sep < i
                &&& digits_between(s, start, sep as int)
                &&& is_coord_sep(s[sep as int])
                &&& digits_between(s, sep + 1, i as int)
            },
            forall|a: int, p: int, b: int| coordinate_at(s, a, p, b) ==> start <= a,
        decreases s.len() - i,
    {
        let c = line[i];
        if !(('0' <= c && c <= '9') || c == ',' || c == ':') {
            if state == 3 && (line[sep] != ',' || i - sep != 4) {
                assert(coordinate_at(s, start, sep as int, i as int));
                return true;
            }
            assert forall|a: int, p: int, b: int| coordinate_at(s, a, p, b) implies i + 1 <= a by {
                if a < i + 1 {
                    if a == start {
                        if b > i {
                            assert(is_digit(s[i as int]) || is_coord_sep(s[i as int]));
                        }
                        if b < i {
                            assert(is_coord_char(s[b]));
                        }
                        if state == 3 {
                            if p < sep {
                                assert(is_digit(s[sep as int]));
                            } else if p > sep {
                                assert(is_digit(s[sep as int]));
                            }
                        } else {
                            assert(run_coordinate(s, start, i as int));
                        }
                    } else if a > start {
                        assert(is_coord_char(s[a - 1]));
                    }
                }
            }
            state = 0;
            proof {
                start = i + 1;
            }
        } else if '0' <= c && c <= '9' {
            proof {
                if state == 2 {
                    assert(is_coord_sep(s[i - 1]));
                    assert(run_coordinate(s, start, i + 1));
                }
                if state == 3 {
                    let p = choose|p: int|
                        start < p && p + 1 < i && digits_between(s, start, p) && #[trigger] is_coord_sep(s[p])
                            && digits_between(s, p + 1, i as int);
                    assert(is_coord_sep(s[p]));
                    assert(run_coordinate(s, start, i + 1));
                }
                if state == 4 {
                    if run_coordinate(s, start, i + 1) {
                        let p = choose|p: int|
                            start < p && p + 1 < i + 1 && digits_between(s, start, p) && #[trigger] is_coord_sep(s[p])
                                && digits_between(s, p + 1, i + 1);
                        if p + 1 < i {
                            assert(run_coordinate(s, start, i as int));
                        } else {
                            assert(run_digits_sep(s, start, i as int));
                        }
                    }
                    if run_digits(s, start, i + 1) {
                        assert(run_digits(s, start, i as int));
                    }
                }
                if run_digits_sep(s, start, i + 1) {
                    assert(is_coord_sep(s[i as int]));
                }
            }
            state = if state == 0 || state == 1 {
                1
            } else if state == 2 || state == 3 {
                3
            } else {
                4
            };
        } else {
            proof {
                if run_coordinate(s, start, i + 1) {
                    let p = choose|p: int|
                        start < p && p + 1 < i + 1 && digits_between(s, start, p) && #[trigger] is_coord_sep(s[p])
                            && digits_between(s, p + 1, i + 1);
                    assert(is_digit(s[i as int]));
                }
                if run_digits(s, start, i + 1) {
                    assert(is_digit(s[i as int]));
                }
                if run_digits_sep(s, start, i + 1) {
                    if state == 0 {
                        assert(false);
                    }
                    if state == 2 {
                        assert(is_digit(s[i - 1]));
                    }
                    if state == 3 {
                        let p = choose|p: int|
                            start < p && p + 1 < i && digits_between(s, start, p) && #[trigger] is_coord_sep(s[p])
                                && digits_between(s, p + 1, i as int);
                        assert(is_digit(s[p]));
                    }
                    if state == 4 {
                        assert(run_digits(s, start, i as int));
                    }
                }
            }
            if state == 1 {
                sep = i;
            }
            state = if state == 1 {
                2
            } else {
                4
            };
        }
        i = i + 1;
    }
    if state == 3 && (line[sep] != ',' || i - sep != 4) {
        assert(coordinate_at(s, start, sep as int, i as int));
        return true;
    }
    assert forall|a: int, p: int, b: int| coordinate_at(s, a, p, b) implies false by {
        if a == start {
            if state == 3 {
                if p < sep {
                    assert(is_digit(s[sep as int]));
                } else if p > sep {
                    assert(is_digit(s[sep as int]));
                }
            } else {
                assert(run_coordinate(s, start, i as int));
            }
        } else if a > start {
            assert(is_coord_char(s[a - 1]));
        }
    }
    false
}

/// Whether the line holds an ASCII digit and a percent sign.
fn line_has_percentage(line: &Vec<char>) -> (r: bool)
    ensures
        r == (has_digit(line@) && line@.contains('%')),
{
    let mut digit = false;
    let mut percent = false;
    let mut i: usize = 0;
    while i < line.len()
        invariant
            i <= line@.len(),
            digit == exists|k: int| 0 <= k < i && is_digit(#[trigger] line@[k]),
            percent == exists|k: int| 0 <= k < i && line@[k] == '%',
        decreases line@.len() - i,
    {
        let c = line[i];
        if '0' <= c && c <= '9' {
            digit = true;
        }
        if c == '%' {
            percent = true;
        }
        i = i + 1;
    }
    digit && percent
}

/// Match vanilla vim ("All"/"Top"/"Bot" + "1,1" position) and neovim with
/// lualine/airline ("Top    1:1", "Bot 25:80", "12%") status lines. The
/// cursor does not have to be on this line: with neovim and lualine the
/// cursor sits in the buffer area while the status line renders below.
pub fn looks_like_vim_status_line(line: &str) -> (r: bool)
    ensures
        r == vim_status_line(line@),
{
    if byte_length(line) < 4 {
        return false;
    }
    let has_position_word = str_contains(line, "All") || str_contains(line, "Top") || str_contains(line, "Bot");
    let has_modified_flag = str_contains(line, "[+]");
    let chars = chars_of(line);
    let has_coordinate = line_has_coordinate(&chars);
    let has_percent = line_has_percentage(&chars);
    has_position_word || has_modified_flag || has_coordinate || has_percent
}

/// The outcome of classifying a pane's visible rows: what the pane shows
/// (`kind`), and the row or marker that decided it (`indicators`).
#[derive(Debug, Clone, PartialEq, Eq)]
pub struct ProbeOutcome {
    pub kind: &'static str,
    pub indicators: Vec<String>,
}

/// The texts of a list of rows.
pub open spec fn row_texts(rows: Seq<String>) -> Seq<Seq<char>> {
    rows.map_values(|r: String| r@)
}

/// The index of the last non-empty row, if any row is non-empty.
pub open spec fn last_nonempty(rows: Seq<Seq<char>>) -> Option<int>
    decreases rows.len(),
{
    if rows.len() == 0 {
        None
    } else if rows.last().len() > 0 {
        Some(rows.len() - 1)
    } else {
        last_nonempty(rows.drop_last())
    }
}

/// What `last_nonempty` finds is a non-empty row after which every row is empty.
pub proof fn lemma_last_nonempty(rows: Seq<Seq<char>>)
    ensures
        match last_nonempty(rows) {
            None => forall|k: int| 0 <= k < rows.len() ==> rows[k].len() == 0,
            Some(i) => 0 <= i < rows.len() && rows[i].len() > 0 && forall|k: int|
                i < k < rows.len() ==> rows[k].len() == 0,
        },
    decreases rows.len(),
{
    if rows.len() > 0 && rows.last().len() == 0 {
        lemma_last_nonempty(rows.drop_last());
        assert(forall|k: int| 0 <= k < rows.len() - 1 ==> rows.drop_last()[k] == rows[k]);
    }
}

/// At least two rows are non-empty.
pub open spec fn two_nonempty_rows(rows: Seq<Seq<char>>) -> bool {
    exists|i: int, j: int| 0 <= i < j < rows.len() && rows[i].len() > 0 && rows[j].len() > 0
}

/// At least three rows consist of a single `~` (vim's marker for lines past
/// the end of the buffer).
pub open spec fn three_tilde_rows(rows: Seq<Seq<char>>) -> bool {
    exists|i: int, j: int, k: int|
        0 <= i < j < k < rows.len() && rows[i] == "~"@ && rows[j] == "~"@ && rows[k] == "~"@
}

/// The cursor sits on the bottom row of the `n` rows.
pub open spec fn cursor_on_last_row(n: int, cursor_row: Option<u32>) -> bool {
    match cursor_row {
        Some(r) => r + 1 == n,
        None => false,
    }
}

/// A vim mode marker in the bottom line.
pub open spec fn has_mode_marker(last: Seq<char>) -> bool {
    has_substring(last, "-- INSERT --"@) || has_substring(last, "-- VISUAL --"@)
        || has_substring(last, "-- REPLACE --"@)
}

/// The line starts like vim's command line or a search.
pub open spec fn command_line_start(last: Seq<char>) -> bool {
    has_prefix(last, ":"@) || has_prefix(last, "/"@) || has_prefix(last, "?"@)
}

/// The line ends like a shell prompt.
pub open spec fn shell_prompt_end(last: Seq<char>) -> bool {
    ||| has_suffix(last, "$ "@)
    ||| has_suffix(last, "$"@)
    ||| has_suffix(last, "% "@)
    ||| has_suffix(last, "%"@)
    ||| has_suffix(last, "# "@)
    ||| has_suffix(last, "#"@)
    ||| has_suffix(last, "> "@)
}

/// The line ends like a Python or IPython prompt.
pub open spec fn repl_prompt_end(last: Seq<char>) -> bool {
    has_suffix(last, ">>> "@) || has_suffix(last, "In ["@)
}

/// The lowercased line asks for a password, a passphrase, a yes/no answer or
/// ends with a question.
pub open spec fn input_prompt_text(lc: Seq<char>) -> bool {
    ||| has_substring(lc, "password:"@)
    ||| has_substring(lc, "passphrase:"@)
    ||| has_suffix(lc, "? "@)
    ||| has_substring(lc, "(y/n)"@)
    ||| has_substring(lc, "[y/n]"@)
    ||| has_substring(lc, "(yes/no)"@)
}

/// A line that counts as a vim status line when deciding on `vim_normal`.
pub open spec fn status_row(s: Seq<char>) -> bool {
    vim_status_line(s) && byte_len(s) > 4
}

/// The classification of the rows `rows` with the cursor on row
/// `cursor_row`: the kind, and the indicators that support it. The rules are
/// tried in order; the first that applies decides.
pub open spec fn probe(rows: Seq<Seq<char>>, cursor_row: Option<u32>) -> (Seq<char>, Seq<Seq<char>>) {
    match last_nonempty(rows) {
        None => ("unknown"@, seq![]),
        Some(li) => {
            let last = rows[li];
            let on_last = cursor_on_last_row(rows.len() as int, cursor_row);
            if has_mode_marker(last) {
                let kind = if has_substring(last, "INSERT"@) {
                    "vim_insert"@
                } else if has_substring(last, "VISUAL"@) {
                    "vim_visual"@
                } else {
                    "vim_replace"@
                };
                (kind, seq![last])
            } else if on_last && command_line_start(last) && byte_len(last) <= 200 {
                ("vim_command"@, seq![last])
            } else if has_suffix(last, "(END)"@) || last == ":"@ {
                ("less_pager"@, seq![last])
            } else if has_substring(last, "--More--"@) || has_prefix(last, "Manual page"@) {
                ("less_pager"@, seq![last])
            } else if on_last && shell_prompt_end(last) {
                ("shell_prompt"@, seq![last])
            } else if on_last && repl_prompt_end(last) {
                ("repl_prompt"@, seq![last])
            } else if input_prompt_text(lowered(last)) {
                ("input_prompt"@, seq![last])
            } else if status_row(last) {
                ("vim_normal"@, seq![last])
            } else if rows.len() >= 2 && status_row(rows[rows.len() - 2]) {
                ("vim_normal"@, seq![rows[rows.len() - 2]])
            } else if rows.len() >= 2 && three_tilde_rows(rows) {
                ("vim_normal"@, seq!["tilde_buffer"@])
            } else if !on_last && two_nonempty_rows(rows) {
                ("running_command"@, seq![])
            } else {
                ("unknown"@, seq![last])
            }
        },
    }
}

/// The texts of the indicators of an outcome.
pub open spec fn indicator_texts(out: ProbeOutcome) -> Seq<Seq<char>> {
    out.indicators@.map_values(|r: String| r@)
}

/// The index of the last non-empty row.
fn last_nonempty_row(rows: &[String]) -> (r: Option<usize>)
    ensures
        match last_nonempty(row_texts(rows@)) {
            None => r is None,
            Some(i) => r == Some(i as usize),
        },
{
    let ghost t = row_texts(rows@);
    let mut i: usize = rows.len();
    assert(t.take(i as int) =~= t);
    while i > 0
        invariant
            t == row_texts(rows@),
            i <= rows@.len(),
            last_nonempty(t) == last_nonempty(t.take(i as int)),
        decreases i,
    {
        assert(t.take(i as int).drop_last() =~= t.take(i - 1));
        if !rows[i - 1].as_str().is_empty() {
            return Some(i - 1);
        }
        i = i - 1;
    }
    None
}

/// Whether at least two rows are non-empty.
fn has_two_nonempty_rows(rows: &[String]) -> (r: bool)
    ensures
        r == two_nonempty_rows(row_texts(rows@)),
{
    let ghost t = row_texts(rows@);
    let mut first: Option<usize> = None;
    let mut i: usize = 0;
    while i < rows.len()
        invariant
            t == row_texts(rows@),
            i <= rows@.len(),
            match first {
                None => forall|k: int| 0 <= k < i ==> t[k].len() == 0,
                Some(f) => f < i && t[f as int].len() > 0 && forall|k: int|
                    0 <= k < i && k != f ==> t[k].len() == 0,
            },
        decreases rows@.len() - i,
    {
        if !rows[i].as_str().is_empty() {
            match first {
                None => {
                    first = Some(i);
                },
                Some(f) => {
                    assert(t[f as int].len() > 0 && t[i as int].len() > 0);
                    return true;
                },
            }
        }
        i = i + 1;
    }
    false
}

/// Whether at least three rows are exactly `~`.
fn has_three_tilde_rows(rows: &[String]) -> (r: bool)
    ensures
        r == three_tilde_rows(row_texts(rows@)),
{
    let ghost t = row_texts(rows@);
    let mut first: Option<usize> = None;
    let mut second: Option<usize> = None;
    let mut i: usize = 0;
    while i < rows.len()
        invariant
            t == row_texts(rows@),
            i <= rows@.len(),
            second is Some ==> first is Some,
            match first {
                None => forall|k: int| 0 <= k < i ==> t[k] != "~"@,
                Some(f) => f < i && t[f as int] == "~"@ && match second {
                    None => forall|k: int| 0 <= k < i && k != f ==> t[k] != "~"@,
                    Some(g) => f < g < i && t[g as int] == "~"@ && forall|k: int|
                        0 <= k < i && k != f && k != g ==> t[k] != "~"@,
                },
            },
        decreases rows@.len() - i,
    {
        if str_eq(rows[i].as_str(), "~") {
            if first.is_none() {
                first = Some(i);
            } else if second.is_none() {
                second = Some(i);
            } else {
                let f = first.unwrap();
                let g = second.unwrap();
                assert(t[f as int] == "~"@ && t[g as int] == "~"@ && t[i as int] == "~"@);
                return true;
            }
        }
        i = i + 1;
    }
    false
}

/// An outcome that carries one indicator row.
fn outcome_with(kind: &'static str, indicator: String) -> (out: ProbeOutcome)
    ensures
        out.kind == kind,
        indicator_texts(out) == seq![indicator@],
{
    let out = ProbeOutcome { kind, indicators: vec![indicator] };
    assert(indicator_texts(out) =~= seq![indicator@]);
    out
}

/// Classify what a pane shows from its visible rows (top to bottom) and the
/// cursor position. The cursor column does not take part in the decision.
pub fn classify(rows: &[String], cursor_row: Option<u32>, cursor_col: Option<u32>) -> (out: ProbeOutcome)
    ensures
        out.kind@ == probe(row_texts(rows@), cursor_row).0,
        indicator_texts(out) == probe(row_texts(rows@), cursor_row).1,
{
    let _ = cursor_col;
    let ghost t = row_texts(rows@);
    let li = match last_nonempty_row(rows) {
        None => {
            let out = ProbeOutcome { kind: "unknown", indicators: Vec::new() };
            assert(indicator_texts(out) =~= Seq::<Seq<char>>::empty());
            return out;
        },
        Some(li) => li,
    };
    proof {
        lemma_last_nonempty(t);
    }
    let last: &str = rows[li].as_str();
    assert(last@ == t[li as int]);
    assert(probe(t, cursor_row) == probe(row_texts(rows@), cursor_row));
    let cursor_on_last = match cursor_row {
        Some(r) => r as usize == rows.len() - 1,
        None => false,
    };
    assert(cursor_on_last == cursor_on_last_row(rows@.len() as int, cursor_row));

    if str_contains(last, "-- INSERT --") || str_contains(last, "-- VISUAL --") || str_contains(
        last,
        "-- REPLACE --",
    ) {
        let mode = if str_contains(last, "INSERT") {
            "vim_insert"
        } else if str_contains(last, "VISUAL") {
            "vim_visual"
        } else {
            "vim_replace"
        };
        return outcome_with(mode, rows[li].clone());
    }
    if cursor_on_last && (str_starts_with(last, ":") || str_starts_with(last, "/") || str_starts_with(
        last,
        "?",
    )) && byte_length(last) <= 200 {
        return outcome_with("vim_command", rows[li].clone());
    }
    if str_ends_with(last, "(END)") || str_eq(last, ":") {
        return outcome_with("less_pager", rows[li].clone());
    }
    if str_contains(last, "--More--") || str_starts_with(last, "Manual page") {
        return outcome_with("less_pager", rows[li].clone());
    }
    if cursor_on_last {
        if str_ends_with(last, "$ ") || str_ends_with(last, "$") || str_ends_with(last, "% ")
            || str_ends_with(last, "%") || str_ends_with(last, "# ") || str_ends_with(last, "#")
            || str_ends_with(last, "> ") {
            return outcome_with("shell_prompt", rows[li].clone());
        }
        if str_ends_with(last, ">>> ") || str_ends_with(last, "In [") {
            return outcome_with("repl_prompt", rows[li].clone());
        }
    }
    let lc_last = lowercase(last);
    let lc: &str = lc_last.as_str();
    if str_contains(lc, "password:") || str_contains(lc, "passphrase:") || str_ends_with(lc, "? ")
        || str_contains(lc, "(y/n)") || str_contains(lc, "[y/n]") || str_contains(lc, "(yes/no)") {
        return outcome_with("input_prompt", rows[li].clone());
    }
    if looks_like_vim_status_line(last) && byte_length(last) > 4 {
        return outcome_with("vim_normal", rows[li].clone());
    }
    if rows.len() >= 2 {
        let second_last: &str = rows[rows.len() - 2].as_str();
        if looks_like_vim_status_line(second_last) && byte_length(second_last) > 4 {
            return outcome_with("vim_normal", rows[rows.len() - 2].clone());
        }
        if has_three_tilde_rows(rows) {
            return outcome_with("vim_normal", "tilde_buffer".to_string());
        }
    }
    if !cursor_on_last && has_two_nonempty_rows(rows) {
        let out = ProbeOutcome { kind: "running_command", indicators: Vec::new() };
        assert(indicator_texts(out) =~= Seq::<Seq<char>>::empty());
        return out;
    }
    outcome_with("unknown", rows[li].clone())
}

/// The kinds that the classifier can report.
pub open spec fn documented_kind(k: Seq<char>) -> bool {
    ||| k == "shell_prompt"@
    ||| k == "repl_prompt"@
    ||| k == "vim_normal"@
    ||| k == "vim_insert"@
    ||| k == "vim_visual"@
    ||| k == "vim_replace"@
    ||| k == "vim_command"@
    ||| k == "less_pager"@
    ||| k == "input_prompt"@
    ||| k == "running_command"@
    ||| k == "unknown"@
}

/// Every classification is one of the eleven documented kinds.
pub proof fn law_kind_is_documented(rows: Seq<Seq<char>>, cursor_row: Option<u32>)
    ensures
        documented_kind(probe(rows, cursor_row).0),
{
}

/// A classification carries at most one indicator, and it is the last
/// non-empty row, the row above the bottom row, or the `tilde_buffer` marker.
pub proof fn law_indicator_comes_from_screen(rows: Seq<Seq<char>>, cursor_row: Option<u32>)
    ensures
        probe(rows, cursor_row).1.len() <= 1,
        probe(rows, cursor_row).1.len() == 1 ==> {
            let ind = probe(rows, cursor_row).1[0];
            ||| (last_nonempty(rows) matches Some(i) && ind == rows[i])
            ||| (rows.len() >= 2 && ind == rows[rows.len() - 2])
            ||| ind == "tilde_buffer"@
        },
{
}

/// A screen with no text at all is `unknown` with no indicator; a screen
/// with text never is both `unknown` and without indicator.
pub proof fn law_blank_screen_is_unknown(rows: Seq<Seq<char>>, cursor_row: Option<u32>)
    ensures
        (probe(rows, cursor_row).0 == "unknown"@ && probe(rows, cursor_row).1.len() == 0) <==> forall|k: int|
            0 <= k < rows.len() ==> rows[k].len() == 0,
{
    lemma_last_nonempty(rows);
    reveal_strlit("unknown");
    reveal_strlit("running_command");
    assert("unknown"@ != "running_command"@) by {
        assert("unknown"@.len() != "running_command"@.len());
    }
    if let Some(i) = last_nonempty(rows) {
        assert(rows[i].len() > 0);
        assert(!(forall|k: int| 0 <= k < rows.len() ==> rows[k].len() == 0));
    }
}

/// A vim mode marker in the last line with text decides the kind, whatever
/// the cursor and the other rows show: insert wins over visual, visual over
/// replace.
pub proof fn law_mode_marker_decides(rows: Seq<Seq<char>>, cursor_row: Option<u32>, i: int)
    requires
        last_nonempty(rows) == Some(i),
        has_mode_marker(rows[i]),
    ensures
        probe(rows, cursor_row).0 == (if has_substring(rows[i], "INSERT"@) {
            "vim_insert"@
        } else if has_substring(rows[i], "VISUAL"@) {
            "vim_visual"@
        } else {
            "vim_replace"@
        }),
        probe(rows, cursor_row).1 == seq![rows[i]],
{
}

/// A line shorter than four bytes is never taken for a vim status line, and
/// a line of four bytes or more that shows a position word is.
pub proof fn law_status_line_length(s: Seq<char>)
    ensures
        byte_len(s) < 4 ==> !vim_status_line(s),
        byte_len(s) >= 4 && (has_substring(s, "All"@) || has_substring(s, "Top"@) || has_substring(
            s,
            "Bot"@,
        )) ==> vim_status_line(s),
{
}

/// Row `li` is the bottom non-empty row: it is non-empty and every row
/// below it is empty.
pub open spec fn bottom_row(rows: Seq<Seq<char>>, li: int) -> bool {
    &&& 0 <= li < rows.len()
    &&& rows[li].len() > 0
    &&& forall|k: int| li < k < rows.len() ==> rows[k].len() == 0
}

/// The bottom non-empty row is the one the classification looks at.
proof fn lemma_bottom_row(rows: Seq<Seq<char>>, li: int)
    requires
        bottom_row(rows, li),
    ensures
        last_nonempty(rows) == Some(li),
{
    lemma_last_nonempty(rows);
}

/// Rows that are all empty show nothing that can be told apart.
pub proof fn law_probe_blank(rows: Seq<Seq<char>>, cursor_row: Option<u32>)
    requires
        forall|k: int| 0 <= k < rows.len() ==> rows[k].len() == 0,
    ensures
        probe(rows, cursor_row) == ("unknown"@, Seq::<Seq<char>>::empty()),
{
    lemma_last_nonempty(rows);
}

/// A vim mode marker in the bottom non-empty row decides the mode, wherever
/// the cursor is: insert if the row says `INSERT`, else visual if it says
/// `VISUAL`, else replace; the row is the indicator.
pub proof fn law_probe_vim_mode(rows: Seq<Seq<char>>, cursor_row: Option<u32>, li: int)
    requires
        bottom_row(rows, li),
    ensures
        has_substring(rows[li], "-- INSERT --"@) ==> probe(rows, cursor_row) == ("vim_insert"@, seq![rows[li]]),
        has_substring(rows[li], "-- VISUAL --"@) && !has_substring(rows[li], "INSERT"@) ==> probe(rows, cursor_row)
            == ("vim_visual"@, seq![rows[li]]),
        has_substring(rows[li], "-- REPLACE --"@) && !has_substring(rows[li], "INSERT"@) && !has_substring(
            rows[li],
            "VISUAL"@,
        ) ==> probe(rows, cursor_row) == ("vim_replace"@, seq![rows[li]]),
{
    lemma_bottom_row(rows, li);
    let last = rows[li];
    reveal_strlit("-- INSERT --");
    reveal_strlit("INSERT");
    reveal_strlit("-- VISUAL --");
    reveal_strlit("VISUAL");
    if has_substring(last, "-- INSERT --"@) {
        assert("-- INSERT --"@.subrange(3, 9) =~= "INSERT"@);
        lemma_substring_within(last, "-- INSERT --"@, "INSERT"@, 3);
    }
    if has_substring(last, "-- VISUAL --"@) {
        assert("-- VISUAL --"@.subrange(3, 9) =~= "VISUAL"@);
        lemma_substring_within(last, "-- VISUAL --"@, "VISUAL"@, 3);
    }
}

/// With the cursor on the bottom row, a bottom row that starts like vim's
/// command line (`:`, `/` or `?`) and is at most 200 bytes long, with no
/// mode marker, is vim's command line.
pub proof fn law_probe_vim_command(rows: Seq<Seq<char>>, cursor_row: Option<u32>, li: int)
    requires
        bottom_row(rows, li),
        (cursor_row matches Some(r) && r + 1 == rows.len()),
        !has_substring(rows[li], "-- INSERT --"@),
        !has_substring(rows[li], "-- VISUAL --"@),
        !has_substring(rows[li], "-- REPLACE --"@),
        has_prefix(rows[li], ":"@) || has_prefix(rows[li], "/"@) || has_prefix(rows[li], "?"@),
        byte_len(rows[li]) <= 200,
    ensures
        probe(rows, cursor_row) == ("vim_command"@, seq![rows[li]]),
{
    lemma_bottom_row(rows, li);
}

/// A bottom row that ends with `(END)`, is a lone `:`, shows `--More--` or
/// starts with `Manual page` is a pager, unless a mode marker or vim's
/// command line (cursor on the row, `:`, `/` or `?` first, at most 200
/// bytes) claims it first.
pub proof fn law_probe_pager(rows: Seq<Seq<char>>, cursor_row: Option<u32>, li: int)
    requires
        bottom_row(rows, li),
        !has_substring(rows[li], "-- INSERT --"@),
        !has_substring(rows[li], "-- VISUAL --"@),
        !has_substring(rows[li], "-- REPLACE --"@),
        !((cursor_row matches Some(r) && r + 1 == rows.len()) && (has_prefix(rows[li], ":"@) || has_prefix(rows[li], "/"@) || has_prefix(rows[li], "?"@))
            && byte_len(rows[li]) <= 200),
        has_suffix(rows[li], "(END)"@) || rows[li] == ":"@ || has_substring(rows[li], "--More--"@) || has_prefix(
            rows[li],
            "Manual page"@,
        ),
    ensures
        probe(rows, cursor_row) == ("less_pager"@, seq![rows[li]]),
{
    lemma_bottom_row(rows, li);
}

/// With the cursor on the bottom row, a bottom row that ends like a shell
/// prompt (`$`, `%`, `#` with or without a space after it, or `> `) is a
/// shell prompt, when no mode marker, command-line start or pager marker is
/// in it.
pub proof fn law_probe_shell_prompt(rows: Seq<Seq<char>>, cursor_row: Option<u32>, li: int)
    requires
        bottom_row(rows, li),
        (cursor_row matches Some(r) && r + 1 == rows.len()),
        !has_substring(rows[li], "-- INSERT --"@),
        !has_substring(rows[li], "-- VISUAL --"@),
        !has_substring(rows[li], "-- REPLACE --"@),
        !has_prefix(rows[li], ":"@),
        !has_prefix(rows[li], "/"@),
        !has_prefix(rows[li], "?"@),
        !has_suffix(rows[li], "(END)"@),
        !has_substring(rows[li], "--More--"@),
        !has_prefix(rows[li], "Manual page"@),
        (has_suffix(rows[li], "$ "@) || has_suffix(rows[li], "$"@) || has_suffix(rows[li], "% "@)
            || has_suffix(rows[li], "%"@) || has_suffix(rows[li], "# "@) || has_suffix(rows[li], "#"@)
            || has_suffix(rows[li], "> "@)),
    ensures
        probe(rows, cursor_row) == ("shell_prompt"@, seq![rows[li]]),
{
    lemma_bottom_row(rows, li);
    reveal_strlit(":");
    if rows[li] == ":"@ {
        assert(rows[li].subrange(0, 1) =~= ":"@);
    }
}

/// With the cursor on the bottom row, a bottom row that ends like a Python
/// (`>>> `) or IPython (`In [`) prompt is a REPL prompt, when nothing before
/// it in the order of rules claims it (no mode marker, command-line start,
/// pager marker or shell prompt ending).
pub proof fn law_probe_repl_prompt(rows: Seq<Seq<char>>, cursor_row: Option<u32>, li: int)
    requires
        bottom_row(rows, li),
        (cursor_row matches Some(r) && r + 1 == rows.len()),
        !has_substring(rows[li], "-- INSERT --"@),
        !has_substring(rows[li], "-- VISUAL --"@),
        !has_substring(rows[li], "-- REPLACE --"@),
        !has_prefix(rows[li], ":"@),
        !has_prefix(rows[li], "/"@),
        !has_prefix(rows[li], "?"@),
        !has_suffix(rows[li], "(END)"@),
        !has_substring(rows[li], "--More--"@),
        !has_prefix(rows[li], "Manual page"@),
        !(has_suffix(rows[li], "$ "@) || has_suffix(rows[li], "$"@) || has_suffix(rows[li], "% "@)
            || has_suffix(rows[li], "%"@) || has_suffix(rows[li], "# "@) || has_suffix(rows[li], "#"@)
            || has_suffix(rows[li], "> "@)),
        has_suffix(rows[li], ">>> "@) || has_suffix(rows[li], "In ["@),
    ensures
        probe(rows, cursor_row) == ("repl_prompt"@, seq![rows[li]]),
{
    lemma_bottom_row(rows, li);
    reveal_strlit(":");
    if rows[li] == ":"@ {
        assert(rows[li].subrange(0, 1) =~= ":"@);
    }
}

/// A bottom row that, lowercased, asks for a password or passphrase
/// (`password:`, `passphrase:`), a yes/no answer (`(y/n)`, `[y/n]`,
/// `(yes/no)`) or ends with a question (`? `) is an input prompt, when
/// nothing before it in the order of rules claims it: no mode marker,
/// command-line start or pager marker, and, with the cursor on the row, no
/// shell or REPL prompt ending.
pub proof fn law_probe_input_prompt(rows: Seq<Seq<char>>, cursor_row: Option<u32>, li: int)
    requires
        bottom_row(rows, li),
        !has_substring(rows[li], "-- INSERT --"@),
        !has_substring(rows[li], "-- VISUAL --"@),
        !has_substring(rows[li], "-- REPLACE --"@),
        !has_prefix(rows[li], ":"@),
        !has_prefix(rows[li], "/"@),
        !has_prefix(rows[li], "?"@),
        !has_suffix(rows[li], "(END)"@),
        !has_substring(rows[li], "--More--"@),
        !has_prefix(rows[li], "Manual page"@),
        (cursor_row matches Some(r) && r + 1 == rows.len()) ==> !(has_suffix(rows[li], "$ "@) || has_suffix(rows[li], "$"@) || has_suffix(rows[li], "% "@)
            || has_suffix(rows[li], "%"@) || has_suffix(rows[li], "# "@) || has_suffix(rows[li], "#"@)
            || has_suffix(rows[li], "> "@)) && !has_suffix(rows[li], ">>> "@) && !has_suffix(rows[li], "In ["@),
        has_substring(lowered(rows[li]), "password:"@) || has_substring(lowered(rows[li]), "passphrase:"@)
            || has_suffix(lowered(rows[li]), "? "@) || has_substring(lowered(rows[li]), "(y/n)"@)
            || has_substring(lowered(rows[li]), "[y/n]"@) || has_substring(lowered(rows[li]), "(yes/no)"@),
    ensures
        probe(rows, cursor_row) == ("input_prompt"@, seq![rows[li]]),
{
    lemma_bottom_row(rows, li);
    reveal_strlit(":");
    if rows[li] == ":"@ {
        assert(rows[li].subrange(0, 1) =~= ":"@);
    }
}

/// When no prompt rule claims the bottom row, the rest is decided in this
/// order: the bottom row as a vim status line (more than 4 bytes), the row
/// above the last as one, three rows holding a lone `~` (a vim buffer past
/// its end), a command still printing (cursor off the bottom row, at least
/// two non-empty rows), and otherwise nothing known, with the bottom row as
/// the indicator.
pub proof fn law_probe_screen_rules(rows: Seq<Seq<char>>, cursor_row: Option<u32>, li: int)
    requires
        bottom_row(rows, li),
        !has_substring(rows[li], "-- INSERT --"@),
        !has_substring(rows[li], "-- VISUAL --"@),
        !has_substring(rows[li], "-- REPLACE --"@),
        !has_prefix(rows[li], ":"@),
        !has_prefix(rows[li], "/"@),
        !has_prefix(rows[li], "?"@),
        !has_suffix(rows[li], "(END)"@),
        !has_substring(rows[li], "--More--"@),
        !has_prefix(rows[li], "Manual page"@),
        (cursor_row matches Some(r) && r + 1 == rows.len()) ==> !(has_suffix(rows[li], "$ "@) || has_suffix(rows[li], "$"@) || has_suffix(rows[li], "% "@)
            || has_suffix(rows[li], "%"@) || has_suffix(rows[li], "# "@) || has_suffix(rows[li], "#"@)
            || has_suffix(rows[li], "> "@)) && !has_suffix(rows[li], ">>> "@) && !has_suffix(rows[li], "In ["@),
        !(has_substring(lowered(rows[li]), "password:"@) || has_substring(lowered(rows[li]), "passphrase:"@)
            || has_suffix(lowered(rows[li]), "? "@) || has_substring(lowered(rows[li]), "(y/n)"@)
            || has_substring(lowered(rows[li]), "[y/n]"@) || has_substring(lowered(rows[li]), "(yes/no)"@)),
    ensures
        probe(rows, cursor_row) == if vim_status_line(rows[li]) && byte_len(rows[li]) > 4 {
            ("vim_normal"@, seq![rows[li]])
        } else if rows.len() >= 2 && vim_status_line(rows[rows.len() - 2]) && byte_len(rows[rows.len() - 2]) > 4 {
            ("vim_normal"@, seq![rows[rows.len() - 2]])
        } else if exists|i: int, j: int, k: int|
            0 <= i < j < k < rows.len() && rows[i] == "~"@ && rows[j] == "~"@ && rows[k] == "~"@ {
            ("vim_normal"@, seq!["tilde_buffer"@])
        } else if !(cursor_row matches Some(r) && r + 1 == rows.len()) && exists|i: int, j: int|
            0 <= i < j < rows.len() && rows[i].len() > 0 && rows[j].len() > 0 {
            ("running_command"@, Seq::<Seq<char>>::empty())
        } else {
            ("unknown"@, seq![rows[li]])
        },
{
    lemma_bottom_row(rows, li);
    reveal_strlit(":");
    if rows[li] == ":"@ {
        assert(rows[li].subrange(0, 1) =~= ":"@);
    }
}

/// A line of fewer than four bytes is never a vim status line; one of at
/// least four bytes is one when it holds a position word (`All`, `Top`,
/// `Bot`), the modified flag `[+]`, or a digit and a percent sign.
pub proof fn law_status_line_markers(s: Seq<char>)
    ensures
        byte_len(s) < 4 ==> !vim_status_line(s),
        byte_len(s) >= 4 && (has_substring(s, "All"@) || has_substring(s, "Top"@) || has_substring(s, "Bot"@)
            || has_substring(s, "[+]"@) || ((exists|k: int| 0 <= k < s.len() && '0' <= #[trigger] s[k] <= '9')
            && s.contains('%'))) ==> vim_status_line(s),
{
}

/// A line of at least four bytes holding a cursor position `row,col` or
/// `row:col` (digits, a separator, digits) that stands alone, with neither a
/// digit, `,` nor `:` right before or after it, is a vim status line, unless
/// it is a comma followed by exactly three digits (a count like `12,000`).
pub proof fn law_status_line_coordinate(a: Seq<char>, row: Seq<char>, sep: char, col: Seq<char>, b: Seq<char>)
    requires
        row.len() > 0,
        col.len() > 0,
        forall|k: int| 0 <= k < row.len() ==> '0' <= #[trigger] row[k] <= '9',
        forall|k: int| 0 <= k < col.len() ==> '0' <= #[trigger] col[k] <= '9',
        sep == ',' || sep == ':',
        !(sep == ',' && col.len() == 3),
        a.len() > 0 ==> !('0' <= a.last() <= '9' || a.last() == ',' || a.last() == ':'),
        b.len() > 0 ==> !('0' <= b[0] <= '9' || b[0] == ',' || b[0] == ':'),
        byte_len(a + row + seq![sep] + col + b) >= 4,
    ensures
        vim_status_line(a + row + seq![sep] + col + b),
{
    let s = a + row + seq![sep] + col + b;
    let i = a.len() as int;
    let p = i + row.len();
    let e = p + 1 + col.len();
    assert forall|k: int| i <= k < p implies is_digit(#[trigger] s[k]) by {
        assert(s[k] == row[k - i]);
    }
    assert forall|k: int| p + 1 <= k < e implies is_digit(#[trigger] s[k]) by {
        assert(s[k] == col[k - p - 1]);
    }
    assert(s[p] == sep);
    if a.len() > 0 {
        assert(s[i - 1] == a.last());
    }
    if b.len() > 0 {
        assert(s[e] == b[0]);
    }
    assert(coordinate_at(s, i, p, e));
}

} // verus!
