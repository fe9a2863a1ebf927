//! Parsing of the key names accepted by the API's `send_keys` request
//! ("enter", "ctrl+c", "shift+tab", "f5", "page_down", a single character, ...)
//! into key presses.

use vstd::prelude::*;
use vstd::string::StrSliceExecFns;
use crate::text::{
    chars_of, has_prefix, skip_bytes, skip_bytes_index, str_eq, str_starts_with, trim, trimmed,
    lemma_skip_bytes_suffix, lowercase, lowered, ascii_lower_char, ascii_text, is_ascii_char, trim_end,
    trim_start, white_space, char_width,
};

verus! {

broadcast use vstd::string::group_string_axioms;

/// A key, without modifiers.
#[derive(Clone, Copy, Debug, PartialEq, Eq, Structural)]
pub enum KeyCode {
    Enter,
    Tab,
    Esc,
    Backspace,
    Delete,
    Insert,
    Up,
    Down,
    Left,
    Right,
    Home,
    End,
    PageUp,
    PageDown,
    Char(char),
    F(u8),
}

/// The modifier keys held with a key.
#[derive(Clone, Copy, Debug, PartialEq, Eq, Structural)]
pub struct KeyModifiers {
    pub control: bool,
    pub shift: bool,
    pub alt: bool,
    pub super_key: bool,
}

/// A key press: a key and the modifiers held with it.
#[derive(Clone, Copy, Debug, PartialEq, Eq, Structural)]
pub struct KeyPress {
    pub code: KeyCode,
    pub modifiers: KeyModifiers,
}

/// One modifier key.
#[derive(Clone, Copy, Debug, PartialEq, Eq, Structural)]
pub enum Modifier {
    Control,
    Shift,
    Alt,
    Super,
}

/// No modifier held.
pub open spec fn no_modifiers() -> KeyModifiers {
    KeyModifiers { control: false, shift: false, alt: false, super_key: false }
}

/// `mods` with the modifier `m` added.
pub open spec fn with_modifier(mods: KeyModifiers, m: Modifier) -> KeyModifiers {
    match m {
        Modifier::Control => KeyModifiers { control: true, ..mods },
        Modifier::Shift => KeyModifiers { shift: true, ..mods },
        Modifier::Alt => KeyModifiers { alt: true, ..mods },
        Modifier::Super => KeyModifiers { super_key: true, ..mods },
    }
}

/// The modifier prefix that a lowercased key name starts with, and the
/// prefix's length in bytes. Prefixes are tried in this order: `ctrl+`, `c-`,
/// `shift+`, `s-`, `alt+`, `a-`, `super+`, `meta+`, `cmd+`, `m-`.
pub open spec fn modifier_prefix(lower: Seq<char>) -> Option<(Modifier, int)> {
    if has_prefix(lower, "ctrl+"@) {
        Some((Modifier::Control, 5))
    } else if has_prefix(lower, "c-"@) {
        Some((Modifier::Control, 2))
    } else if has_prefix(lower, "shift+"@) {
        Some((Modifier::Shift, 6))
    } else if has_prefix(lower, "s-"@) {
        Some((Modifier::Shift, 2))
    } else if has_prefix(lower, "alt+"@) {
        Some((Modifier::Alt, 4))
    } else if has_prefix(lower, "a-"@) {
        Some((Modifier::Alt, 2))
    } else if has_prefix(lower, "super+"@) {
        Some((Modifier::Super, 6))
    } else if has_prefix(lower, "meta+"@) {
        Some((Modifier::Super, 5))
    } else if has_prefix(lower, "cmd+"@) {
        Some((Modifier::Super, 4))
    } else if has_prefix(lower, "m-"@) {
        Some((Modifier::Super, 2))
    } else {
        None
    }
}

/// Strip the modifier prefixes from the front of a key name, one after the
/// other, each recognized on the lowercased rest and removed from the rest
/// by its length in bytes. The result is the modifiers found and the key's
/// own name; `None` when a prefix's bytes end inside a character of the
/// rest, where slicing the rest by that byte length is not possible.
pub open spec fn strip_modifiers(rest: Seq<char>, mods: KeyModifiers) -> Option<(KeyModifiers, Seq<char>)>
    decreases rest.len(),
{
    match modifier_prefix(lowered(rest)) {
        None => Some((mods, rest)),
        Some((m, n)) => match skip_bytes(rest, n) {
            None => None,
            Some(tail) => {
                proof {
                    lemma_skip_bytes_suffix(rest, n);
                    assert(n > 0);
                }
                strip_modifiers(tail, with_modifier(mods, m))
            },
        },
    }
}

/// An ASCII decimal digit.
pub open spec fn is_decimal_digit(c: char) -> bool {
    '0' <= c && c <= '9'
}

/// The value of a string of decimal digits.
pub open spec fn decimal_value(d: Seq<char>) -> nat
    decreases d.len(),
{
    if d.len() == 0 {
        0
    } else {
        decimal_value(d.drop_last()) * 10 + ((d.last() as u32 - '0' as u32) as nat)
    }
}

/// The digits of an unsigned number: the text after an optional leading `+`.
pub open spec fn unsigned_digits(s: Seq<char>) -> Seq<char> {
    if s.len() > 0 && s[0] == '+' {
        s.drop_first()
    } else {
        s
    }
}

/// Every character is an ASCII digit.
pub open spec fn all_decimal_digits(d: Seq<char>) -> bool {
    forall|k: int| 0 <= k < d.len() ==> is_decimal_digit(#[trigger] d[k])
}

/// What `u8::from_str` accepts: an optional `+` and at least one ASCII
/// digit, with a value of at most 255.
pub open spec fn parse_u8(s: Seq<char>) -> Option<u8> {
    let digits = unsigned_digits(s);
    if digits.len() > 0 && all_decimal_digits(digits) && decimal_value(digits) <= 255 {
        Some(decimal_value(digits) as u8)
    } else {
        None
    }
}

/// The key that a lowercased key name without modifiers stands for.
pub open spec fn key_code_of(body: Seq<char>) -> Option<KeyCode> {
    if body == "enter"@ || body == "return"@ {
        Some(KeyCode::Enter)
    } else if body == "tab"@ {
        Some(KeyCode::Tab)
    } else if body == "esc"@ || body == "escape"@ {
        Some(KeyCode::Esc)
    } else if body == "backspace"@ || body == "bksp"@ {
        Some(KeyCode::Backspace)
    } else if body == "delete"@ || body == "del"@ {
        Some(KeyCode::Delete)
    } else if body == "insert"@ || body == "ins"@ {
        Some(KeyCode::Insert)
    } else if body == "up"@ || body == "arrow_up"@ {
        Some(KeyCode::Up)
    } else if body == "down"@ || body == "arrow_down"@ {
        Some(KeyCode::Down)
    } else if body == "left"@ || body == "arrow_left"@ {
        Some(KeyCode::Left)
    } else if body == "right"@ || body == "arrow_right"@ {
        Some(KeyCode::Right)
    } else if body == "home"@ {
        Some(KeyCode::Home)
    } else if body == "end"@ {
        Some(KeyCode::End)
    } else if body == "page_up"@ || body == "pageup"@ || body == "pgup"@ {
        Some(KeyCode::PageUp)
    } else if body == "page_down"@ || body == "pagedown"@ || body == "pgdn"@ {
        Some(KeyCode::PageDown)
    } else if body == "space"@ {
        Some(KeyCode::Char(' '))
    } else if body == "minus"@ || body == "dash"@ || body == "hyphen"@ {
        Some(KeyCode::Char('-'))
    } else if body == "equal"@ || body == "equals"@ {
        Some(KeyCode::Char('='))
    } else if body == "left_bracket"@ || body == "lbracket"@ || body == "leftbracket"@ {
        Some(KeyCode::Char('['))
    } else if body == "right_bracket"@ || body == "rbracket"@ || body == "rightbracket"@ {
        Some(KeyCode::Char(']'))
    } else if body == "semicolon"@ {
        Some(KeyCode::Char(';'))
    } else if body == "quote"@ || body == "apostrophe"@ {
        Some(KeyCode::Char('\''))
    } else if body == "comma"@ {
        Some(KeyCode::Char(','))
    } else if body == "period"@ || body == "dot"@ {
        Some(KeyCode::Char('.'))
    } else if body == "slash"@ {
        Some(KeyCode::Char('/'))
    } else if body == "grave"@ || body == "backtick"@ {
        Some(KeyCode::Char('`'))
    } else if body == "backslash"@ {
        Some(KeyCode::Char('\\'))
    } else {
        unnamed_key_code(body)
    }
}

/// The key for a lowercased name that is none of the named keys: a function
/// key `f1` to `f20`, or the character of a one-character name.
pub open spec fn unnamed_key_code(body: Seq<char>) -> Option<KeyCode> {
    if has_prefix(body, "f"@) && body.len() > 1 {
        match parse_u8(body.drop_first()) {
            Some(n) => if 1 <= n <= 20 {
                Some(KeyCode::F(n))
            } else {
                None
            },
            None => None,
        }
    } else if body.len() == 1 {
        Some(KeyCode::Char(body[0]))
    } else {
        None
    }
}

/// The key press that a key name stands for: surrounding whitespace is
/// dropped, modifier prefixes are stripped case-insensitively, and the rest
/// is looked up case-insensitively. `None` for an unrecognized name.
/// Defined where `strip_modifiers` is.
pub open spec fn api_key(key: Seq<char>) -> Option<KeyPress> {
    let normalized = trimmed(key);
    if normalized.len() == 0 {
        None
    } else {
        match strip_modifiers(normalized, no_modifiers()) {
            Some((mods, rest)) => match key_code_of(lowered(rest)) {
                Some(code) => Some(KeyPress { code, modifiers: mods }),
                None => None,
            },
            None => None,
        }
    }
}

/// Every prefix stripped from the key name ends on a character boundary,
/// so that the name can be cut there.
pub open spec fn api_key_cuts_cleanly(key: Seq<char>) -> bool {
    trimmed(key).len() == 0 || strip_modifiers(trimmed(key), no_modifiers()) is Some
}

/// The value of `u8::from_str` on the given characters, if it accepts them.
fn parse_u8_chars(s: &Vec<char>) -> (r: Option<u8>)
    ensures
        r == parse_u8(s@),
{
    let start: usize = if s.len() > 0 && s[0] == '+' {
        1
    } else {
        0
    };
    let ghost digits = s@.subrange(start as int, s@.len() as int);
    assert(digits =~= unsigned_digits(s@));
    if start == s.len() {
        return None;
    }
    // the value read so far, capped at 1000
    let mut acc: u32 = 0;
    let mut i: usize = start;
    while i < s.len()
        invariant
            start <= i <= s@.len(),
            digits == s@.subrange(start as int, s@.len() as int),
            digits == unsigned_digits(s@),
            forall|k: int| start <= k < i ==> is_decimal_digit(#[trigger] s@[k]),
            acc == if decimal_value(s@.subrange(start as int, i as int)) < 1000 {
                decimal_value(s@.subrange(start as int, i as int))
            } else {
                1000
            },
        decreases s@.len() - i,
    {
        let c = s[i];
        if !('0' <= c && c <= '9') {
            assert(digits[i - start] == c);
            assert(!is_decimal_digit(digits[i - start]));
            return None;
        }
        let d = (c as u32) - ('0' as u32);
        assert(s@.subrange(start as int, i + 1).drop_last() =~= s@.subrange(start as int, i as int));
        acc = if acc * 10 + d < 1000 {
            acc * 10 + d
        } else {
            1000
        };
        i = i + 1;
    }
    assert(s@.subrange(start as int, i as int) =~= digits);
    assert(forall|k: int| 0 <= k < digits.len() ==> digits[k] == s@[k + start]);
    if acc <= 255 {
        Some(acc as u8)
    } else {
        None
    }
}

/// The key that a lowercased key name without modifiers stands for.
fn key_code(body: &str) -> (r: Option<KeyCode>)
    ensures
        r == key_code_of(body@),
{
    if str_eq(body, "enter") || str_eq(body, "return") {
        Some(KeyCode::Enter)
    } else if str_eq(body, "tab") {
        Some(KeyCode::Tab)
    } else if str_eq(body, "esc") || str_eq(body, "escape") {
        Some(KeyCode::Esc)
    } else if str_eq(body, "backspace") || str_eq(body, "bksp") {
        Some(KeyCode::Backspace)
    } else if str_eq(body, "delete") || str_eq(body, "del") {
        Some(KeyCode::Delete)
    } else if str_eq(body, "insert") || str_eq(body, "ins") {
        Some(KeyCode::Insert)
    } else if str_eq(body, "up") || str_eq(body, "arrow_up") {
        Some(KeyCode::Up)
    } else if str_eq(body, "down") || str_eq(body, "arrow_down") {
        Some(KeyCode::Down)
    } else if str_eq(body, "left") || str_eq(body, "arrow_left") {
        Some(KeyCode::Left)
    } else if str_eq(body, "right") || str_eq(body, "arrow_right") {
        Some(KeyCode::Right)
    } else if str_eq(body, "home") {
        Some(KeyCode::Home)
    } else if str_eq(body, "end") {
        Some(KeyCode::End)
    } else if str_eq(body, "page_up") || str_eq(body, "pageup") || str_eq(body, "pgup") {
        Some(KeyCode::PageUp)
    } else if str_eq(body, "page_down") || str_eq(body, "pagedown") || str_eq(body, "pgdn") {
        Some(KeyCode::PageDown)
    } else if str_eq(body, "space") {
        Some(KeyCode::Char(' '))
    } else if str_eq(body, "minus") || str_eq(body, "dash") || str_eq(body, "hyphen") {
        Some(KeyCode::Char('-'))
    } else if str_eq(body, "equal") || str_eq(body, "equals") {
        Some(KeyCode::Char('='))
    } else if str_eq(body, "left_bracket") || str_eq(body, "lbracket") || str_eq(body, "leftbracket") {
        Some(KeyCode::Char('['))
    } else if str_eq(body, "right_bracket") || str_eq(body, "rbracket") || str_eq(
        body,
        "rightbracket",
    ) {
        Some(KeyCode::Char(']'))
    } else if str_eq(body, "semicolon") {
        Some(KeyCode::Char(';'))
    } else if str_eq(body, "quote") || str_eq(body, "apostrophe") {
        Some(KeyCode::Char('\''))
    } else if str_eq(body, "comma") {
        Some(KeyCode::Char(','))
    } else if str_eq(body, "period") || str_eq(body, "dot") {
        Some(KeyCode::Char('.'))
    } else if str_eq(body, "slash") {
        Some(KeyCode::Char('/'))
    } else if str_eq(body, "grave") || str_eq(body, "backtick") {
        Some(KeyCode::Char('`'))
    } else if str_eq(body, "backslash") {
        Some(KeyCode::Char('\\'))
    } else if str_starts_with(body, "f") {
        let chars = chars_of(body);
        proof {
            reveal_strlit("f");
            assert(chars@.len() >= 1);
        }
        if chars.len() == 1 {
            return Some(KeyCode::Char(chars[0]));
        }
        let mut number: Vec<char> = Vec::new();
        let mut i: usize = 1;
        while i < chars.len()
            invariant
                chars@ == body@,
                1 <= i <= chars@.len(),
                number@ == chars@.subrange(1, i as int),
            decreases chars@.len() - i,
        {
            number.push(chars[i]);
            assert(chars@.subrange(1, i + 1) =~= chars@.subrange(1, i as int).push(chars@[i as int]));
            i = i + 1;
        }
        assert(number@ =~= body@.drop_first());
        match parse_u8_chars(&number) {
            Some(n) => if 1 <= n && n <= 20 {
                Some(KeyCode::F(n))
            } else {
                None
            },
            None => None,
        }
    } else {
        let chars = chars_of(body);
        if chars.len() == 1 {
            Some(KeyCode::Char(chars[0]))
        } else {
            None
        }
    }
}

/// The modifier prefix that a lowercased key name starts with, and its length in bytes.
fn modifier_prefix_of(lower: &str) -> (r: Option<(Modifier, usize)>)
    ensures
        match modifier_prefix(lower@) {
            None => r is None,
            Some((m, n)) => r == Some((m, n as usize)),
        },
{
    if str_starts_with(lower, "ctrl+") {
        Some((Modifier::Control, 5))
    } else if str_starts_with(lower, "c-") {
        Some((Modifier::Control, 2))
    } else if str_starts_with(lower, "shift+") {
        Some((Modifier::Shift, 6))
    } else if str_starts_with(lower, "s-") {
        Some((Modifier::Shift, 2))
    } else if str_starts_with(lower, "alt+") {
        Some((Modifier::Alt, 4))
    } else if str_starts_with(lower, "a-") {
        Some((Modifier::Alt, 2))
    } else if str_starts_with(lower, "super+") {
        Some((Modifier::Super, 6))
    } else if str_starts_with(lower, "meta+") {
        Some((Modifier::Super, 5))
    } else if str_starts_with(lower, "cmd+") {
        Some((Modifier::Super, 4))
    } else if str_starts_with(lower, "m-") {
        Some((Modifier::Super, 2))
    } else {
        None
    }
}

/// `mods` with the modifier `m` added.
fn add_modifier(mods: KeyModifiers, m: Modifier) -> (r: KeyModifiers)
    ensures
        r == with_modifier(mods, m),
{
    match m {
        Modifier::Control => KeyModifiers { control: true, ..mods },
        Modifier::Shift => KeyModifiers { shift: true, ..mods },
        Modifier::Alt => KeyModifiers { alt: true, ..mods },
        Modifier::Super => KeyModifiers { super_key: true, ..mods },
    }
}

/// Parse a key name; `Err` where a modifier prefix would have to be cut
/// inside a character.
fn scan_api_key(key: &str) -> (r: Result<Option<KeyPress>, ()>)
    ensures
        match r {
            Ok(p) => api_key_cuts_cleanly(key@) && p == api_key(key@),
            Err(_) => !api_key_cuts_cleanly(key@),
        },
{
    let normalized = trim(key);
    if normalized.is_empty() {
        return Ok(None);
    }
    let mut mods = KeyModifiers { control: false, shift: false, alt: false, super_key: false };
    let mut rest: String = normalized.to_string();
    loop
        invariant
            trimmed(key@).len() > 0,
            strip_modifiers(trimmed(key@), no_modifiers()) == strip_modifiers(rest@, mods),
        ensures
            strip_modifiers(trimmed(key@), no_modifiers()) == Some((mods, rest@)),
        decreases rest@.len(),
    {
        let lower = lowercase(rest.as_str());
        match modifier_prefix_of(lower.as_str()) {
            None => {
                break;
            },
            Some((m, n)) => {
                let chars = chars_of(rest.as_str());
                match skip_bytes_index(&chars, n) {
                    None => {
                        return Err(());
                    },
                    Some(k) => {
                        proof {
                            lemma_skip_bytes_suffix(rest@, n as int);
                        }
                        let tail = rest.as_str().substring_char(k, chars.len()).to_string();
                        assert(tail@ =~= rest@.skip(k as int));
                        mods = add_modifier(mods, m);
                        rest = tail;
                    },
                }
            },
        }
    }
    let body = lowercase(rest.as_str());
    match key_code(body.as_str()) {
        Some(code) => Ok(Some(KeyPress { code, modifiers: mods })),
        None => Ok(None),
    }
}

/// Parse a key name sent through the API's `send_keys` request into a key
/// press; `None` for a name that is not recognized.
pub fn parse_api_key(key: &str) -> (r: Option<KeyPress>)
    requires
        api_key_cuts_cleanly(key@),
    ensures
        r == api_key(key@),
{
    match scan_api_key(key) {
        Ok(p) => p,
        Err(_) => None,
    }
}

/// Parse a key name, answering `None` (rather than a parse) when a modifier
/// prefix recognized on the lowercased name would have to be cut from the
/// name inside a character.
pub fn try_parse_api_key(key: &str) -> (r: Option<Option<KeyPress>>)
    ensures
        r == if api_key_cuts_cleanly(key@) {
            Some(api_key(key@))
        } else {
            None
        },
{
    match scan_api_key(key) {
        Ok(_) => Some(parse_api_key(key)),
        Err(_) => None,
    }
}

/// The key presses for a list of key names, in order, or the first name
/// that is not recognized.
pub open spec fn api_keys(keys: Seq<Seq<char>>) -> Result<Seq<KeyPress>, Seq<char>>
    decreases keys.len(),
{
    if keys.len() == 0 {
        Ok(seq![])
    } else {
        match api_key(keys[0]) {
            None => Err(keys[0]),
            Some(p) => match api_keys(keys.drop_first()) {
                Ok(ps) => Ok(seq![p] + ps),
                Err(name) => Err(name),
            },
        }
    }
}

/// Every key name up to the first unrecognized one can be cut where its
/// modifier prefixes end.
pub open spec fn api_keys_cut_cleanly(keys: Seq<Seq<char>>) -> bool
    decreases keys.len(),
{
    keys.len() == 0 || (api_key_cuts_cleanly(keys[0]) && (api_key(keys[0]) is None
        || api_keys_cut_cleanly(keys.drop_first())))
}

/// The texts of a list of key names.
pub open spec fn key_texts(keys: Seq<String>) -> Seq<Seq<char>> {
    keys.map_values(|k: String| k@)
}

/// Parse key names in order, stopping at the first unrecognized one;
/// `Err(())` where a modifier prefix would have to be cut inside a character.
fn scan_api_keys(keys: &[String]) -> (r: Result<Result<Vec<KeyPress>, String>, ()>)
    ensures
        match r {
            Ok(Ok(ps)) => api_keys_cut_cleanly(key_texts(keys@)) && api_keys(key_texts(keys@)) == Ok::<
                Seq<KeyPress>,
                Seq<char>,
            >(ps@),
            Ok(Err(name)) => api_keys_cut_cleanly(key_texts(keys@)) && api_keys(key_texts(keys@))
                == Err::<Seq<KeyPress>, Seq<char>>(name@),
            Err(_) => !api_keys_cut_cleanly(key_texts(keys@)),
        },
{
    let ghost t = key_texts(keys@);
    let mut parsed: Vec<KeyPress> = Vec::new();
    let mut i: usize = 0;
    assert(t.skip(0) =~= t);
    while i < keys.len()
        invariant
            t == key_texts(keys@),
            i <= keys@.len(),
            api_keys_cut_cleanly(t) == api_keys_cut_cleanly(t.skip(i as int)),
            api_keys(t) == match api_keys(t.skip(i as int)) {
                Ok(ps) => Ok(parsed@ + ps),
                Err(name) => Err::<Seq<KeyPress>, Seq<char>>(name),
            },
        decreases keys@.len() - i,
    {
        assert(t.skip(i as int)[0] == keys@[i as int]@);
        assert(t.skip(i as int).drop_first() =~= t.skip(i + 1));
        match scan_api_key(keys[i].as_str()) {
            Err(_) => {
                return Err(());
            },
            Ok(None) => {
                return Ok(Err(keys[i].clone()));
            },
            Ok(Some(p)) => {
                proof {
                    let rest = api_keys(t.skip(i + 1));
                    if let Ok(ps) = rest {
                        assert(parsed@.push(p) + ps =~= parsed@ + (seq![p] + ps));
                    }
                }
                parsed.push(p);
            },
        }
        i = i + 1;
    }
    assert(t.skip(i as int) =~= Seq::<Seq<char>>::empty());
    assert(parsed@ + Seq::<KeyPress>::empty() =~= parsed@);
    Ok(Ok(parsed))
}

/// Parse the key names of a `send_keys` request, in order. The first name
/// that is not recognized is returned as the error, and the names after it
/// are not looked at.
pub fn parse_api_keys(keys: &[String]) -> (r: Result<Vec<KeyPress>, String>)
    requires
        api_keys_cut_cleanly(key_texts(keys@)),
    ensures
        match r {
            Ok(ps) => api_keys(key_texts(keys@)) == Ok::<Seq<KeyPress>, Seq<char>>(ps@),
            Err(name) => api_keys(key_texts(keys@)) == Err::<Seq<KeyPress>, Seq<char>>(name@),
        },
{
    match scan_api_keys(keys) {
        Ok(r) => r,
        Err(_) => Ok(Vec::new()),
    }
}

/// Parse the key names of a `send_keys` request, answering `None` (rather
/// than a parse) when a modifier prefix recognized on a lowercased name
/// would have to be cut from that name inside a character.
pub fn try_parse_api_keys(keys: &[String]) -> (r: Option<Result<Vec<KeyPress>, String>>)
    ensures
        match r {
            None => !api_keys_cut_cleanly(key_texts(keys@)),
            Some(Ok(ps)) => api_keys_cut_cleanly(key_texts(keys@)) && api_keys(key_texts(keys@)) == Ok::<
                Seq<KeyPress>,
                Seq<char>,
            >(ps@),
            Some(Err(name)) => api_keys_cut_cleanly(key_texts(keys@)) && api_keys(key_texts(keys@))
                == Err::<Seq<KeyPress>, Seq<char>>(name@),
        },
{
    match scan_api_keys(keys) {
        Ok(_) => Some(parse_api_keys(keys)),
        Err(_) => None,
    }
}

/// Parsing a list of key names either parses every name, in order, or
/// reports the first name that is not recognized, after recognized ones only.
pub proof fn law_keys_parse_in_order(keys: Seq<Seq<char>>)
    ensures
        api_keys(keys) matches Ok(ps) ==> ps.len() == keys.len() && forall|i: int|
            0 <= i < keys.len() ==> api_key(#[trigger] keys[i]) == Some(ps[i]),
        api_keys(keys) matches Err(name) ==> exists|i: int|
            0 <= i < keys.len() && keys[i] == name && api_key(keys[i]) is None && forall|j: int|
                0 <= j < i ==> api_key(#[trigger] keys[j]) is Some,
    decreases keys.len(),
{
    if keys.len() > 0 {
        law_keys_parse_in_order(keys.drop_first());
        if let Some(p) = api_key(keys[0]) {
            if let Ok(ps) = api_keys(keys.drop_first()) {
                assert forall|i: int| 0 <= i < keys.len() implies api_key(#[trigger] keys[i]) == Some(
                    (seq![p] + ps)[i],
                ) by {
                    if i > 0 {
                        assert(keys[i] == keys.drop_first()[i - 1]);
                    }
                }
            }
            if let Err(name) = api_keys(keys.drop_first()) {
                let i = choose|i: int|
                    0 <= i < keys.drop_first().len() && keys.drop_first()[i] == name && api_key(
                        keys.drop_first()[i],
                    ) is None && forall|j: int|
                        0 <= j < i ==> api_key(#[trigger] keys.drop_first()[j]) is Some;
                assert(keys[i + 1] == name);
                assert forall|j: int| 0 <= j < i + 1 implies api_key(#[trigger] keys[j]) is Some by {
                    if j > 0 {
                        assert(keys[j] == keys.drop_first()[j - 1]);
                    }
                }
            }
        }
    }
}

/// The character of a decimal digit.
pub open spec fn digit_char(d: nat) -> char {
    (d + ('0' as nat)) as char
}

/// The decimal digits of `n`, without leading zeros (what `n.to_string()` gives).
pub open spec fn decimal_text(n: nat) -> Seq<char>
    decreases n,
{
    if n < 10 {
        seq![digit_char(n)]
    } else {
        decimal_text(n / 10).push(digit_char(n % 10))
    }
}

/// The character of a digit is a digit that reads as its value.
proof fn lemma_digit_char(d: nat)
    requires
        d < 10,
    ensures
        is_decimal_digit(digit_char(d)),
        (digit_char(d) as u32 - '0' as u32) as nat == d,
{
    assert(digit_char(d) as u32 == d + 48);
}

/// The decimal text of `n` is a non-empty run of digits that reads `n`.
proof fn lemma_decimal_text(n: nat)
    ensures
        decimal_text(n).len() > 0,
        all_decimal_digits(decimal_text(n)),
        decimal_value(decimal_text(n)) == n,
    decreases n,
{
    lemma_digit_char(n % 10);
    if n < 10 {
        let t = decimal_text(n);
        assert(t.drop_last() =~= Seq::<char>::empty());
        assert(decimal_value(t.drop_last()) == 0);
        assert(n % 10 == n);
        assert(decimal_value(t) == n);
    }
    if n >= 10 {
        lemma_decimal_text(n / 10);
        let t = decimal_text(n);
        assert(t.drop_last() =~= decimal_text(n / 10));
        assert(t.last() == digit_char(n % 10));
        assert(decimal_value(t) == (n / 10) * 10 + n % 10);
        assert((n / 10) * 10 + n % 10 == n) by (nonlinear_arith);
        assert(decimal_value(t) == n);
        assert forall|k: int| 0 <= k < t.len() implies is_decimal_digit(#[trigger] t[k]) by {
            if k < t.len() - 1 {
                assert(t[k] == decimal_text(n / 10)[k]);
            }
        }
    }
}

/// A name of one character, or one that begins with `f`, is none of the
/// named keys.
proof fn lemma_unnamed(body: Seq<char>)
    requires
        body.len() == 1 || (body.len() > 0 && body[0] == 'f'),
    ensures
        key_code_of(body) == unnamed_key_code(body),
{
    reveal_strlit("f");
    reveal_strlit("enter");
    reveal_strlit("return");
    reveal_strlit("tab");
    reveal_strlit("esc");
    reveal_strlit("escape");
    reveal_strlit("backspace");
    reveal_strlit("bksp");
    reveal_strlit("delete");
    reveal_strlit("del");
    reveal_strlit("insert");
    reveal_strlit("ins");
    reveal_strlit("up");
    reveal_strlit("arrow_up");
    reveal_strlit("down");
    reveal_strlit("arrow_down");
    reveal_strlit("left");
    reveal_strlit("arrow_left");
    reveal_strlit("right");
    reveal_strlit("arrow_right");
    reveal_strlit("home");
    reveal_strlit("end");
    reveal_strlit("page_up");
    reveal_strlit("pageup");
    reveal_strlit("pgup");
    reveal_strlit("page_down");
    reveal_strlit("pagedown");
    reveal_strlit("pgdn");
    reveal_strlit("space");
    reveal_strlit("minus");
    reveal_strlit("dash");
    reveal_strlit("hyphen");
    reveal_strlit("equal");
    reveal_strlit("equals");
    reveal_strlit("left_bracket");
    reveal_strlit("lbracket");
    reveal_strlit("leftbracket");
    reveal_strlit("right_bracket");
    reveal_strlit("rbracket");
    reveal_strlit("rightbracket");
    reveal_strlit("semicolon");
    reveal_strlit("quote");
    reveal_strlit("apostrophe");
    reveal_strlit("comma");
    reveal_strlit("period");
    reveal_strlit("dot");
    reveal_strlit("slash");
    reveal_strlit("grave");
    reveal_strlit("backtick");
    reveal_strlit("backslash");
}

/// A text that does not begin with the first character of `pat` does not begin with `pat`.
pub proof fn lemma_prefix_first(s: Seq<char>, pat: Seq<char>)
    requires
        s.len() > 0,
        pat.len() > 0,
        s[0] != pat[0],
    ensures
        !has_prefix(s, pat),
{
    if has_prefix(s, pat) {
        assert(s.subrange(0, pat.len() as int)[0] == s[0]);
    }
}

/// A lowercased name of one character, or one that begins with `f`, starts
/// with no modifier prefix.
proof fn lemma_no_modifier_prefix(lower: Seq<char>)
    requires
        lower.len() == 1 || (lower.len() > 0 && lower[0] == 'f'),
    ensures
        modifier_prefix(lower) is None,
{
    reveal_strlit("ctrl+");
    reveal_strlit("c-");
    reveal_strlit("shift+");
    reveal_strlit("s-");
    reveal_strlit("alt+");
    reveal_strlit("a-");
    reveal_strlit("super+");
    reveal_strlit("meta+");
    reveal_strlit("cmd+");
    reveal_strlit("m-");
    if lower[0] == 'f' {
        lemma_prefix_first(lower, "ctrl+"@);
        lemma_prefix_first(lower, "c-"@);
        lemma_prefix_first(lower, "shift+"@);
        lemma_prefix_first(lower, "s-"@);
        lemma_prefix_first(lower, "alt+"@);
        lemma_prefix_first(lower, "a-"@);
        lemma_prefix_first(lower, "super+"@);
        lemma_prefix_first(lower, "meta+"@);
        lemma_prefix_first(lower, "cmd+"@);
        lemma_prefix_first(lower, "m-"@);
    }
}

/// `f` followed by the decimal text of a number names a function key exactly
/// when the number is 1 to 20 (so `f0`, `f21` and `f300` name no key).
pub proof fn law_function_key_names(n: nat)
    ensures
        key_code_of(seq!['f'] + decimal_text(n)) == if 1 <= n <= 20 {
            Some(KeyCode::F(n as u8))
        } else {
            None::<KeyCode>
        },
{
    let body = seq!['f'] + decimal_text(n);
    lemma_decimal_text(n);
    assert(body.drop_first() =~= decimal_text(n));
    assert(unsigned_digits(decimal_text(n)) == decimal_text(n)) by {
        assert(is_decimal_digit(decimal_text(n)[0]));
    }
    lemma_unnamed(body);
    reveal_strlit("f");
    assert(body.subrange(0, 1) =~= "f"@);
}

/// `f` or `F` followed by the decimal text of a number names the function
/// key of that number, with no modifier, when the number is 1 to 20, and no
/// key otherwise (so `f0`, `F21` and `f300` name none).
pub proof fn law_function_key_text(n: nat, upper: bool)
    ensures
        api_key(seq![if upper { 'F' } else { 'f' }] + decimal_text(n)) == if 1 <= n <= 20 {
            Some(KeyPress { code: KeyCode::F(n as u8), modifiers: no_modifiers() })
        } else {
            None::<KeyPress>
        },
{
    let key = seq![if upper { 'F' } else { 'f' }] + decimal_text(n);
    let body = seq!['f'] + decimal_text(n);
    let d = decimal_text(n);
    lemma_decimal_text(n);
    assert forall|i: int| 1 <= i < key.len() implies #[trigger] key[i] == d[i - 1] && is_decimal_digit(key[i]) by {
        assert(is_decimal_digit(d[i - 1]));
    }
    assert(ascii_text(key)) by {
        assert forall|i: int| 0 <= i < key.len() implies is_ascii_char(#[trigger] key[i]) by {
            if i > 0 {
                assert(is_decimal_digit(key[i]));
            }
        }
    }
    assert(lowered(key) =~= body) by {
        assert(ascii_lower_char('F') == 'f');
        assert forall|i: int| 0 <= i < key.len() implies #[trigger] lowered(key)[i] == body[i] by {
            if i > 0 {
                assert(is_decimal_digit(key[i]));
                assert(body[i] == d[i - 1]);
            }
        }
    }
    assert(trim_start(key) == key);
    assert(is_decimal_digit(key[key.len() - 1]));
    assert(trim_end(key) == key);
    lemma_no_modifier_prefix(body);
    assert(strip_modifiers(key, no_modifiers()) == Some((no_modifiers(), key)));
    law_function_key_names(n);
}

/// A printable ASCII character on its own names that character, lowercased,
/// with no modifier: `f` is the key `f`, `Q` is `q`, `-` is `-`.
pub proof fn law_single_char_key(c: char)
    requires
        33 <= c as u32 <= 126,
    ensures
        api_key(seq![c]) == Some(KeyPress { code: KeyCode::Char(ascii_lower_char(c)), modifiers: no_modifiers() }),
{
    let key = seq![c];
    let body = seq![ascii_lower_char(c)];
    assert(ascii_text(key));
    assert(lowered(key) =~= body);
    assert(trim_start(key) == key);
    assert(trim_end(key) == key);
    lemma_no_modifier_prefix(body);
    assert(strip_modifiers(key, no_modifiers()) == Some((no_modifiers(), key)));
    lemma_unnamed(body);
    reveal_strlit("f");
}

/// A key name whose modifiers strip off to leave, once lowercased, `f` and
/// the decimal text of a number is the function key of that number, with
/// those modifiers, when the number is 1 to 20, and no key otherwise.
pub proof fn law_function_key_press(key: Seq<char>, mods: KeyModifiers, rest: Seq<char>, n: nat)
    requires
        trimmed(key).len() > 0,
        strip_modifiers(trimmed(key), no_modifiers()) == Some((mods, rest)),
        lowered(rest) == seq!['f'] + decimal_text(n),
    ensures
        api_key(key) == if 1 <= n <= 20 {
            Some(KeyPress { code: KeyCode::F(n as u8), modifiers: mods })
        } else {
            None::<KeyPress>
        },
{
    law_function_key_names(n);
}

/// A function key is one of F1 to F20, and a blank key name is never recognized.
pub proof fn law_function_keys_in_range(key: Seq<char>)
    ensures
        api_key(key) matches Some(p) ==> (p.code matches KeyCode::F(n) ==> 1 <= n <= 20),
        trimmed(key).len() == 0 ==> api_key(key) is None,
{
    if let Some((m, rest)) = strip_modifiers(trimmed(key), no_modifiers()) {
        lemma_function_key_code(lowered(rest));
    }
}

/// The key names that stand for function keys stand for F1 to F20.
proof fn lemma_function_key_code(body: Seq<char>)
    ensures
        key_code_of(body) matches Some(KeyCode::F(n)) ==> 1 <= n <= 20,
{
}

/// A lowercased name without `+` and without `-` as its second character
/// starts with no modifier prefix.
proof fn lemma_no_prefix_in_plain_name(lower: Seq<char>)
    requires
        forall|k: int| 0 <= k < lower.len() ==> lower[k] != '+',
        lower.len() < 2 || lower[1] != '-',
    ensures
        modifier_prefix(lower) is None,
{
    reveal_strlit("ctrl+");
    reveal_strlit("c-");
    reveal_strlit("shift+");
    reveal_strlit("s-");
    reveal_strlit("alt+");
    reveal_strlit("a-");
    reveal_strlit("super+");
    reveal_strlit("meta+");
    reveal_strlit("cmd+");
    reveal_strlit("m-");
    assert forall|pat: Seq<char>| pat.len() >= 2 && (pat.last() == '+' || (pat.len() == 2 && pat[1] == '-'))
        implies !has_prefix(lower, pat) by {
        if has_prefix(lower, pat) {
            assert(lower.subrange(0, pat.len() as int)[pat.len() - 1] == lower[pat.len() - 1]);
            assert(lower.subrange(0, pat.len() as int)[1] == lower[1]);
        }
    }
    assert(!has_prefix(lower, "ctrl+"@));
    assert(!has_prefix(lower, "c-"@));
    assert(!has_prefix(lower, "shift+"@));
    assert(!has_prefix(lower, "s-"@));
    assert(!has_prefix(lower, "alt+"@));
    assert(!has_prefix(lower, "a-"@));
    assert(!has_prefix(lower, "super+"@));
    assert(!has_prefix(lower, "meta+"@));
    assert(!has_prefix(lower, "cmd+"@));
    assert(!has_prefix(lower, "m-"@));
}

/// A name of lowercase ASCII letters and underscores stands, with no
/// modifier, for the key that the name itself names.
proof fn lemma_plain_name(name: Seq<char>)
    requires
        name.len() > 0,
        forall|k: int| 0 <= k < name.len() ==> ('a' <= #[trigger] name[k] <= 'z' || name[k] == '_'),
    ensures
        api_key(name) == match key_code_of(name) {
            Some(code) => Some(KeyPress { code, modifiers: no_modifiers() }),
            None => None::<KeyPress>,
        },
{
    assert(ascii_text(name));
    assert(lowered(name) =~= name);
    assert(trim_start(name) == name);
    assert(trim_end(name) == name);
    lemma_no_prefix_in_plain_name(name);
    assert(strip_modifiers(name, no_modifiers()) == Some((no_modifiers(), name)));
}

/// The lengths of the documented key names.
proof fn lemma_key_name_lengths()
    ensures
        "enter"@.len() == 5,
        "return"@.len() == 6,
        "tab"@.len() == 3,
        "esc"@.len() == 3,
        "escape"@.len() == 6,
        "backspace"@.len() == 9,
        "bksp"@.len() == 4,
        "delete"@.len() == 6,
        "del"@.len() == 3,
        "insert"@.len() == 6,
        "ins"@.len() == 3,
        "up"@.len() == 2,
        "arrow_up"@.len() == 8,
        "down"@.len() == 4,
        "arrow_down"@.len() == 10,
        "left"@.len() == 4,
        "arrow_left"@.len() == 10,
        "right"@.len() == 5,
        "arrow_right"@.len() == 11,
        "home"@.len() == 4,
        "end"@.len() == 3,
        "page_up"@.len() == 7,
        "pageup"@.len() == 6,
        "pgup"@.len() == 4,
        "page_down"@.len() == 9,
        "pagedown"@.len() == 8,
        "pgdn"@.len() == 4,
        "space"@.len() == 5,
        "minus"@.len() == 5,
        "dash"@.len() == 4,
        "hyphen"@.len() == 6,
        "equal"@.len() == 5,
        "equals"@.len() == 6,
        "left_bracket"@.len() == 12,
        "lbracket"@.len() == 8,
        "leftbracket"@.len() == 11,
        "right_bracket"@.len() == 13,
        "rbracket"@.len() == 8,
        "rightbracket"@.len() == 12,
        "semicolon"@.len() == 9,
        "quote"@.len() == 5,
        "apostrophe"@.len() == 10,
        "comma"@.len() == 5,
        "period"@.len() == 6,
        "dot"@.len() == 3,
        "slash"@.len() == 5,
        "grave"@.len() == 5,
        "backtick"@.len() == 8,
        "backslash"@.len() == 9,
{
    reveal_strlit("enter");
    reveal_strlit("return");
    reveal_strlit("tab");
    reveal_strlit("esc");
    reveal_strlit("escape");
    reveal_strlit("backspace");
    reveal_strlit("bksp");
    reveal_strlit("delete");
    reveal_strlit("del");
    reveal_strlit("insert");
    reveal_strlit("ins");
    reveal_strlit("up");
    reveal_strlit("arrow_up");
    reveal_strlit("down");
    reveal_strlit("arrow_down");
    reveal_strlit("left");
    reveal_strlit("arrow_left");
    reveal_strlit("right");
    reveal_strlit("arrow_right");
    reveal_strlit("home");
    reveal_strlit("end");
    reveal_strlit("page_up");
    reveal_strlit("pageup");
    reveal_strlit("pgup");
    reveal_strlit("page_down");
    reveal_strlit("pagedown");
    reveal_strlit("pgdn");
    reveal_strlit("space");
    reveal_strlit("minus");
    reveal_strlit("dash");
    reveal_strlit("hyphen");
    reveal_strlit("equal");
    reveal_strlit("equals");
    reveal_strlit("left_bracket");
    reveal_strlit("lbracket");
    reveal_strlit("leftbracket");
    reveal_strlit("right_bracket");
    reveal_strlit("rbracket");
    reveal_strlit("rightbracket");
    reveal_strlit("semicolon");
    reveal_strlit("quote");
    reveal_strlit("apostrophe");
    reveal_strlit("comma");
    reveal_strlit("period");
    reveal_strlit("dot");
    reveal_strlit("slash");
    reveal_strlit("grave");
    reveal_strlit("backtick");
    reveal_strlit("backslash");
}

/// Each named key, in every spelling the API documents, stands for its key
/// with no modifier: `enter` and `return` for Enter, `del` and `delete` for
/// Delete, `pgdn` for PageDown, `space` for ` `, `minus`, `dash` and
/// `hyphen` for `-`, `lbracket` for `[`, and so on through the list.
pub proof fn law_named_keys()
    ensures
        api_key("enter"@) == Some(KeyPress { code: KeyCode::Enter, modifiers: no_modifiers() }),
        api_key("return"@) == Some(KeyPress { code: KeyCode::Enter, modifiers: no_modifiers() }),
        api_key("tab"@) == Some(KeyPress { code: KeyCode::Tab, modifiers: no_modifiers() }),
        api_key("esc"@) == Some(KeyPress { code: KeyCode::Esc, modifiers: no_modifiers() }),
        api_key("escape"@) == Some(KeyPress { code: KeyCode::Esc, modifiers: no_modifiers() }),
        api_key("backspace"@) == Some(KeyPress { code: KeyCode::Backspace, modifiers: no_modifiers() }),
        api_key("bksp"@) == Some(KeyPress { code: KeyCode::Backspace, modifiers: no_modifiers() }),
        api_key("delete"@) == Some(KeyPress { code: KeyCode::Delete, modifiers: no_modifiers() }),
        api_key("del"@) == Some(KeyPress { code: KeyCode::Delete, modifiers: no_modifiers() }),
        api_key("insert"@) == Some(KeyPress { code: KeyCode::Insert, modifiers: no_modifiers() }),
        api_key("ins"@) == Some(KeyPress { code: KeyCode::Insert, modifiers: no_modifiers() }),
        api_key("up"@) == Some(KeyPress { code: KeyCode::Up, modifiers: no_modifiers() }),
        api_key("arrow_up"@) == Some(KeyPress { code: KeyCode::Up, modifiers: no_modifiers() }),
        api_key("down"@) == Some(KeyPress { code: KeyCode::Down, modifiers: no_modifiers() }),
        api_key("arrow_down"@) == Some(KeyPress { code: KeyCode::Down, modifiers: no_modifiers() }),
        api_key("left"@) == Some(KeyPress { code: KeyCode::Left, modifiers: no_modifiers() }),
        api_key("arrow_left"@) == Some(KeyPress { code: KeyCode::Left, modifiers: no_modifiers() }),
        api_key("right"@) == Some(KeyPress { code: KeyCode::Right, modifiers: no_modifiers() }),
        api_key("arrow_right"@) == Some(KeyPress { code: KeyCode::Right, modifiers: no_modifiers() }),
        api_key("home"@) == Some(KeyPress { code: KeyCode::Home, modifiers: no_modifiers() }),
        api_key("end"@) == Some(KeyPress { code: KeyCode::End, modifiers: no_modifiers() }),
        api_key("page_up"@) == Some(KeyPress { code: KeyCode::PageUp, modifiers: no_modifiers() }),
        api_key("pageup"@) == Some(KeyPress { code: KeyCode::PageUp, modifiers: no_modifiers() }),
        api_key("pgup"@) == Some(KeyPress { code: KeyCode::PageUp, modifiers: no_modifiers() }),
        api_key("page_down"@) == Some(KeyPress { code: KeyCode::PageDown, modifiers: no_modifiers() }),
        api_key("pagedown"@) == Some(KeyPress { code: KeyCode::PageDown, modifiers: no_modifiers() }),
        api_key("pgdn"@) == Some(KeyPress { code: KeyCode::PageDown, modifiers: no_modifiers() }),
        api_key("space"@) == Some(KeyPress { code: KeyCode::Char(' '), modifiers: no_modifiers() }),
        api_key("minus"@) == Some(KeyPress { code: KeyCode::Char('-'), modifiers: no_modifiers() }),
        api_key("dash"@) == Some(KeyPress { code: KeyCode::Char('-'), modifiers: no_modifiers() }),
        api_key("hyphen"@) == Some(KeyPress { code: KeyCode::Char('-'), modifiers: no_modifiers() }),
        api_key("equal"@) == Some(KeyPress { code: KeyCode::Char('='), modifiers: no_modifiers() }),
        api_key("equals"@) == Some(KeyPress { code: KeyCode::Char('='), modifiers: no_modifiers() }),
        api_key("left_bracket"@) == Some(KeyPress { code: KeyCode::Char('['), modifiers: no_modifiers() }),
        api_key("lbracket"@) == Some(KeyPress { code: KeyCode::Char('['), modifiers: no_modifiers() }),
        api_key("leftbracket"@) == Some(KeyPress { code: KeyCode::Char('['), modifiers: no_modifiers() }),
        api_key("right_bracket"@) == Some(KeyPress { code: KeyCode::Char(']'), modifiers: no_modifiers() }),
        api_key("rbracket"@) == Some(KeyPress { code: KeyCode::Char(']'), modifiers: no_modifiers() }),
        api_key("rightbracket"@) == Some(KeyPress { code: KeyCode::Char(']'), modifiers: no_modifiers() }),
        api_key("semicolon"@) == Some(KeyPress { code: KeyCode::Char(';'), modifiers: no_modifiers() }),
        api_key("quote"@) == Some(KeyPress { code: KeyCode::Char('\''), modifiers: no_modifiers() }),
        api_key("apostrophe"@) == Some(KeyPress { code: KeyCode::Char('\''), modifiers: no_modifiers() }),
        api_key("comma"@) == Some(KeyPress { code: KeyCode::Char(','), modifiers: no_modifiers() }),
        api_key("period"@) == Some(KeyPress { code: KeyCode::Char('.'), modifiers: no_modifiers() }),
        api_key("dot"@) == Some(KeyPress { code: KeyCode::Char('.'), modifiers: no_modifiers() }),
        api_key("slash"@) == Some(KeyPress { code: KeyCode::Char('/'), modifiers: no_modifiers() }),
        api_key("grave"@) == Some(KeyPress { code: KeyCode::Char('`'), modifiers: no_modifiers() }),
        api_key("backtick"@) == Some(KeyPress { code: KeyCode::Char('`'), modifiers: no_modifiers() }),
        api_key("backslash"@) == Some(KeyPress { code: KeyCode::Char('\\'), modifiers: no_modifiers() }),
{
    lemma_enter_names();
    lemma_tab_names();
    lemma_escape_names();
    lemma_backspace_names();
    lemma_delete_names();
    lemma_insert_names();
    lemma_up_names();
    lemma_down_names();
    lemma_left_names();
    lemma_right_names();
    lemma_home_names();
    lemma_end_names();
    lemma_page_up_names();
    lemma_page_down_names();
    lemma_space_names();
    lemma_minus_names();
    lemma_equal_names();
    lemma_left_bracket_names();
    lemma_right_bracket_names();
    lemma_semicolon_names();
    lemma_quote_names();
    lemma_comma_names();
    lemma_period_names();
    lemma_slash_names();
    lemma_grave_names();
    lemma_backslash_names();
}

/// The spellings of the `enter` key.
proof fn lemma_enter_names()
    ensures
        api_key("enter"@) == Some(KeyPress { code: KeyCode::Enter, modifiers: no_modifiers() }),
        api_key("return"@) == Some(KeyPress { code: KeyCode::Enter, modifiers: no_modifiers() }),
{
    lemma_key_name_lengths();
    reveal_strlit("enter");
    reveal_strlit("return");
    lemma_plain_name("enter"@);
    lemma_plain_name("return"@);
}

/// The spellings of the `tab` key.
proof fn lemma_tab_names()
    ensures
        api_key("tab"@) == Some(KeyPress { code: KeyCode::Tab, modifiers: no_modifiers() }),
{
    lemma_key_name_lengths();
    reveal_strlit("tab");
    lemma_plain_name("tab"@);
}

/// The spellings of the `escape` key.
proof fn lemma_escape_names()
    ensures
        api_key("esc"@) == Some(KeyPress { code: KeyCode::Esc, modifiers: no_modifiers() }),
        api_key("escape"@) == Some(KeyPress { code: KeyCode::Esc, modifiers: no_modifiers() }),
{
    lemma_key_name_lengths();
    reveal_strlit("return");
    reveal_strlit("tab");
    reveal_strlit("esc");
    reveal_strlit("escape");
    lemma_plain_name("esc"@);
    lemma_plain_name("escape"@);
}

/// The spellings of the `backspace` key.
proof fn lemma_backspace_names()
    ensures
        api_key("backspace"@) == Some(KeyPress { code: KeyCode::Backspace, modifiers: no_modifiers() }),
        api_key("bksp"@) == Some(KeyPress { code: KeyCode::Backspace, modifiers: no_modifiers() }),
{
    lemma_key_name_lengths();
    reveal_strlit("backspace");
    reveal_strlit("bksp");
    lemma_plain_name("backspace"@);
    lemma_plain_name("bksp"@);
}

/// The spellings of the `delete` key.
proof fn lemma_delete_names()
    ensures
        api_key("delete"@) == Some(KeyPress { code: KeyCode::Delete, modifiers: no_modifiers() }),
        api_key("del"@) == Some(KeyPress { code: KeyCode::Delete, modifiers: no_modifiers() }),
{
    lemma_key_name_lengths();
    reveal_strlit("return");
    reveal_strlit("tab");
    reveal_strlit("esc");
    reveal_strlit("escape");
    reveal_strlit("delete");
    reveal_strlit("del");
    lemma_plain_name("delete"@);
    lemma_plain_name("del"@);
}

/// The spellings of the `insert` key.
proof fn lemma_insert_names()
    ensures
        api_key("insert"@) == Some(KeyPress { code: KeyCode::Insert, modifiers: no_modifiers() }),
        api_key("ins"@) == Some(KeyPress { code: KeyCode::Insert, modifiers: no_modifiers() }),
{
    lemma_key_name_lengths();
    reveal_strlit("return");
    reveal_strlit("tab");
    reveal_strlit("esc");
    reveal_strlit("escape");
    reveal_strlit("delete");
    reveal_strlit("del");
    reveal_strlit("insert");
    reveal_strlit("ins");
    lemma_plain_name("insert"@);
    lemma_plain_name("ins"@);
}

/// The spellings of the `up` key.
proof fn lemma_up_names()
    ensures
        api_key("up"@) == Some(KeyPress { code: KeyCode::Up, modifiers: no_modifiers() }),
        api_key("arrow_up"@) == Some(KeyPress { code: KeyCode::Up, modifiers: no_modifiers() }),
{
    lemma_key_name_lengths();
    reveal_strlit("up");
    reveal_strlit("arrow_up");
    lemma_plain_name("up"@);
    lemma_plain_name("arrow_up"@);
}

/// The spellings of the `down` key.
proof fn lemma_down_names()
    ensures
        api_key("down"@) == Some(KeyPress { code: KeyCode::Down, modifiers: no_modifiers() }),
        api_key("arrow_down"@) == Some(KeyPress { code: KeyCode::Down, modifiers: no_modifiers() }),
{
    lemma_key_name_lengths();
    reveal_strlit("bksp");
    reveal_strlit("down");
    reveal_strlit("arrow_down");
    lemma_plain_name("down"@);
    lemma_plain_name("arrow_down"@);
}

/// The spellings of the `left` key.
proof fn lemma_left_names()
    ensures
        api_key("left"@) == Some(KeyPress { code: KeyCode::Left, modifiers: no_modifiers() }),
        api_key("arrow_left"@) == Some(KeyPress { code: KeyCode::Left, modifiers: no_modifiers() }),
{
    lemma_key_name_lengths();
    reveal_strlit("bksp");
    reveal_strlit("down");
    reveal_strlit("arrow_down");
    reveal_strlit("left");
    reveal_strlit("arrow_left");
    lemma_plain_name("left"@);
    lemma_plain_name("arrow_left"@);
}

/// The spellings of the `right` key.
proof fn lemma_right_names()
    ensures
        api_key("right"@) == Some(KeyPress { code: KeyCode::Right, modifiers: no_modifiers() }),
        api_key("arrow_right"@) == Some(KeyPress { code: KeyCode::Right, modifiers: no_modifiers() }),
{
    lemma_key_name_lengths();
    reveal_strlit("enter");
    reveal_strlit("right");
    reveal_strlit("arrow_right");
    lemma_plain_name("right"@);
    lemma_plain_name("arrow_right"@);
}

/// The spellings of the `home` key.
proof fn lemma_home_names()
    ensures
        api_key("home"@) == Some(KeyPress { code: KeyCode::Home, modifiers: no_modifiers() }),
{
    lemma_key_name_lengths();
    reveal_strlit("bksp");
    reveal_strlit("down");
    reveal_strlit("left");
    reveal_strlit("home");
    lemma_plain_name("home"@);
}

/// The spellings of the `end` key.
proof fn lemma_end_names()
    ensures
        api_key("end"@) == Some(KeyPress { code: KeyCode::End, modifiers: no_modifiers() }),
{
    lemma_key_name_lengths();
    reveal_strlit("tab");
    reveal_strlit("esc");
    reveal_strlit("del");
    reveal_strlit("ins");
    reveal_strlit("end");
    lemma_plain_name("end"@);
}

/// The spellings of the `page_up` key.
proof fn lemma_page_up_names()
    ensures
        api_key("page_up"@) == Some(KeyPress { code: KeyCode::PageUp, modifiers: no_modifiers() }),
        api_key("pageup"@) == Some(KeyPress { code: KeyCode::PageUp, modifiers: no_modifiers() }),
        api_key("pgup"@) == Some(KeyPress { code: KeyCode::PageUp, modifiers: no_modifiers() }),
{
    lemma_key_name_lengths();
    reveal_strlit("return");
    reveal_strlit("escape");
    reveal_strlit("bksp");
    reveal_strlit("delete");
    reveal_strlit("insert");
    reveal_strlit("down");
    reveal_strlit("left");
    reveal_strlit("home");
    reveal_strlit("page_up");
    reveal_strlit("pageup");
    reveal_strlit("pgup");
    lemma_plain_name("page_up"@);
    lemma_plain_name("pageup"@);
    lemma_plain_name("pgup"@);
}

/// The spellings of the `page_down` key.
proof fn lemma_page_down_names()
    ensures
        api_key("page_down"@) == Some(KeyPress { code: KeyCode::PageDown, modifiers: no_modifiers() }),
        api_key("pagedown"@) == Some(KeyPress { code: KeyCode::PageDown, modifiers: no_modifiers() }),
        api_key("pgdn"@) == Some(KeyPress { code: KeyCode::PageDown, modifiers: no_modifiers() }),
{
    lemma_key_name_lengths();
    reveal_strlit("backspace");
    reveal_strlit("bksp");
    reveal_strlit("arrow_up");
    reveal_strlit("down");
    reveal_strlit("left");
    reveal_strlit("home");
    reveal_strlit("pgup");
    reveal_strlit("page_down");
    reveal_strlit("pagedown");
    reveal_strlit("pgdn");
    lemma_plain_name("page_down"@);
    lemma_plain_name("pagedown"@);
    lemma_plain_name("pgdn"@);
}

/// The spellings of the `space` key.
proof fn lemma_space_names()
    ensures
        api_key("space"@) == Some(KeyPress { code: KeyCode::Char(' '), modifiers: no_modifiers() }),
{
    lemma_key_name_lengths();
    reveal_strlit("enter");
    reveal_strlit("right");
    reveal_strlit("space");
    lemma_plain_name("space"@);
}

/// The spellings of the `minus` key.
proof fn lemma_minus_names()
    ensures
        api_key("minus"@) == Some(KeyPress { code: KeyCode::Char('-'), modifiers: no_modifiers() }),
        api_key("dash"@) == Some(KeyPress { code: KeyCode::Char('-'), modifiers: no_modifiers() }),
        api_key("hyphen"@) == Some(KeyPress { code: KeyCode::Char('-'), modifiers: no_modifiers() }),
{
    lemma_key_name_lengths();
    reveal_strlit("enter");
    reveal_strlit("return");
    reveal_strlit("escape");
    reveal_strlit("bksp");
    reveal_strlit("delete");
    reveal_strlit("insert");
    reveal_strlit("down");
    reveal_strlit("left");
    reveal_strlit("right");
    reveal_strlit("home");
    reveal_strlit("pageup");
    reveal_strlit("pgup");
    reveal_strlit("pgdn");
    reveal_strlit("space");
    reveal_strlit("minus");
    reveal_strlit("dash");
    reveal_strlit("hyphen");
    lemma_plain_name("minus"@);
    lemma_plain_name("dash"@);
    lemma_plain_name("hyphen"@);
}

/// The spellings of the `equal` key.
proof fn lemma_equal_names()
    ensures
        api_key("equal"@) == Some(KeyPress { code: KeyCode::Char('='), modifiers: no_modifiers() }),
        api_key("equals"@) == Some(KeyPress { code: KeyCode::Char('='), modifiers: no_modifiers() }),
{
    lemma_key_name_lengths();
    reveal_strlit("enter");
    reveal_strlit("return");
    reveal_strlit("escape");
    reveal_strlit("delete");
    reveal_strlit("insert");
    reveal_strlit("right");
    reveal_strlit("pageup");
    reveal_strlit("space");
    reveal_strlit("minus");
    reveal_strlit("hyphen");
    reveal_strlit("equal");
    reveal_strlit("equals");
    lemma_plain_name("equal"@);
    lemma_plain_name("equals"@);
}

/// The spellings of the `left_bracket` key.
proof fn lemma_left_bracket_names()
    ensures
        api_key("left_bracket"@) == Some(KeyPress { code: KeyCode::Char('['), modifiers: no_modifiers() }),
        api_key("lbracket"@) == Some(KeyPress { code: KeyCode::Char('['), modifiers: no_modifiers() }),
        api_key("leftbracket"@) == Some(KeyPress { code: KeyCode::Char('['), modifiers: no_modifiers() }),
{
    lemma_key_name_lengths();
    reveal_strlit("arrow_up");
    reveal_strlit("arrow_right");
    reveal_strlit("pagedown");
    reveal_strlit("left_bracket");
    reveal_strlit("lbracket");
    reveal_strlit("leftbracket");
    lemma_plain_name("left_bracket"@);
    lemma_plain_name("lbracket"@);
    lemma_plain_name("leftbracket"@);
}

/// The spellings of the `right_bracket` key.
proof fn lemma_right_bracket_names()
    ensures
        api_key("right_bracket"@) == Some(KeyPress { code: KeyCode::Char(']'), modifiers: no_modifiers() }),
        api_key("rbracket"@) == Some(KeyPress { code: KeyCode::Char(']'), modifiers: no_modifiers() }),
        api_key("rightbracket"@) == Some(KeyPress { code: KeyCode::Char(']'), modifiers: no_modifiers() }),
{
    lemma_key_name_lengths();
    reveal_strlit("arrow_up");
    reveal_strlit("pagedown");
    reveal_strlit("left_bracket");
    reveal_strlit("lbracket");
    reveal_strlit("right_bracket");
    reveal_strlit("rbracket");
    reveal_strlit("rightbracket");
    lemma_plain_name("right_bracket"@);
    lemma_plain_name("rbracket"@);
    lemma_plain_name("rightbracket"@);
}

/// The spellings of the `semicolon` key.
proof fn lemma_semicolon_names()
    ensures
        api_key("semicolon"@) == Some(KeyPress { code: KeyCode::Char(';'), modifiers: no_modifiers() }),
{
    lemma_key_name_lengths();
    reveal_strlit("backspace");
    reveal_strlit("page_down");
    reveal_strlit("semicolon");
    lemma_plain_name("semicolon"@);
}

/// The spellings of the `quote` key.
proof fn lemma_quote_names()
    ensures
        api_key("quote"@) == Some(KeyPress { code: KeyCode::Char('\''), modifiers: no_modifiers() }),
        api_key("apostrophe"@) == Some(KeyPress { code: KeyCode::Char('\''), modifiers: no_modifiers() }),
{
    lemma_key_name_lengths();
    reveal_strlit("enter");
    reveal_strlit("arrow_down");
    reveal_strlit("arrow_left");
    reveal_strlit("right");
    reveal_strlit("space");
    reveal_strlit("minus");
    reveal_strlit("equal");
    reveal_strlit("quote");
    reveal_strlit("apostrophe");
    lemma_plain_name("quote"@);
    lemma_plain_name("apostrophe"@);
}

/// The spellings of the `comma` key.
proof fn lemma_comma_names()
    ensures
        api_key("comma"@) == Some(KeyPress { code: KeyCode::Char(','), modifiers: no_modifiers() }),
{
    lemma_key_name_lengths();
    reveal_strlit("enter");
    reveal_strlit("right");
    reveal_strlit("space");
    reveal_strlit("minus");
    reveal_strlit("equal");
    reveal_strlit("quote");
    reveal_strlit("comma");
    lemma_plain_name("comma"@);
}

/// The spellings of the `period` key.
proof fn lemma_period_names()
    ensures
        api_key("period"@) == Some(KeyPress { code: KeyCode::Char('.'), modifiers: no_modifiers() }),
        api_key("dot"@) == Some(KeyPress { code: KeyCode::Char('.'), modifiers: no_modifiers() }),
{
    lemma_key_name_lengths();
    reveal_strlit("return");
    reveal_strlit("tab");
    reveal_strlit("esc");
    reveal_strlit("escape");
    reveal_strlit("delete");
    reveal_strlit("del");
    reveal_strlit("insert");
    reveal_strlit("ins");
    reveal_strlit("end");
    reveal_strlit("pageup");
    reveal_strlit("hyphen");
    reveal_strlit("equals");
    reveal_strlit("period");
    reveal_strlit("dot");
    lemma_plain_name("period"@);
    lemma_plain_name("dot"@);
}

/// The spellings of the `slash` key.
proof fn lemma_slash_names()
    ensures
        api_key("slash"@) == Some(KeyPress { code: KeyCode::Char('/'), modifiers: no_modifiers() }),
{
    lemma_key_name_lengths();
    reveal_strlit("enter");
    reveal_strlit("right");
    reveal_strlit("space");
    reveal_strlit("minus");
    reveal_strlit("equal");
    reveal_strlit("quote");
    reveal_strlit("comma");
    reveal_strlit("slash");
    lemma_plain_name("slash"@);
}

/// The spellings of the `grave` key.
proof fn lemma_grave_names()
    ensures
        api_key("grave"@) == Some(KeyPress { code: KeyCode::Char('`'), modifiers: no_modifiers() }),
        api_key("backtick"@) == Some(KeyPress { code: KeyCode::Char('`'), modifiers: no_modifiers() }),
{
    lemma_key_name_lengths();
    reveal_strlit("enter");
    reveal_strlit("arrow_up");
    reveal_strlit("right");
    reveal_strlit("pagedown");
    reveal_strlit("space");
    reveal_strlit("minus");
    reveal_strlit("equal");
    reveal_strlit("lbracket");
    reveal_strlit("rbracket");
    reveal_strlit("quote");
    reveal_strlit("comma");
    reveal_strlit("slash");
    reveal_strlit("grave");
    reveal_strlit("backtick");
    lemma_plain_name("grave"@);
    lemma_plain_name("backtick"@);
}

/// The spellings of the `backslash` key.
proof fn lemma_backslash_names()
    ensures
        api_key("backslash"@) == Some(KeyPress { code: KeyCode::Char('\\'), modifiers: no_modifiers() }),
{
    lemma_key_name_lengths();
    reveal_strlit("backspace");
    reveal_strlit("page_down");
    reveal_strlit("semicolon");
    reveal_strlit("backslash");
    lemma_plain_name("backslash"@);
}

/// Text that differs from `pat` at a place within both does not begin with `pat`.
proof fn lemma_prefix_differs(s: Seq<char>, pat: Seq<char>, k: int)
    requires
        0 <= k < pat.len(),
        k < s.len(),
        s[k] != pat[k],
    ensures
        !has_prefix(s, pat),
{
    if has_prefix(s, pat) {
        assert(s.subrange(0, pat.len() as int)[k] == s[k]);
    }
}

/// Skipping the bytes of an ASCII prefix leaves what follows it.
proof fn lemma_skip_ascii_prefix(p: Seq<char>, t: Seq<char>)
    requires
        ascii_text(p),
    ensures
        skip_bytes(p + t, p.len() as int) == Some(t),
    decreases p.len(),
{
    if p.len() > 0 {
        let c = p[0];
        assert(is_ascii_char(c));
        assert(char_width(c) == 1) by {
            assert((c as u32) < 0x80);
        }
        assert((p + t).drop_first() =~= p.drop_first() + t);
        lemma_skip_ascii_prefix(p.drop_first(), t);
    } else {
        assert(p + t =~= t);
    }
}

/// A modifier prefix written before a plain key name adds its modifier to
/// the name's key.
proof fn lemma_prefixed_name(p: Seq<char>, m: Modifier, name: Seq<char>)
    requires
        p.len() >= 2,
        ascii_text(p),
        forall|k: int| 0 <= k < p.len() ==> !('A' <= #[trigger] p[k] <= 'Z'),
        'a' <= p[0] <= 'z',
        modifier_prefix(p + name) == Some((m, p.len() as int)),
        name.len() > 0,
        forall|k: int| 0 <= k < name.len() ==> ('a' <= #[trigger] name[k] <= 'z' || name[k] == '_'),
    ensures
        api_key(p + name) == match key_code_of(name) {
            Some(code) => Some(KeyPress { code, modifiers: with_modifier(no_modifiers(), m) }),
            None => None::<KeyPress>,
        },
{
    let key = p + name;
    assert(ascii_text(key)) by {
        assert forall|k: int| 0 <= k < key.len() implies is_ascii_char(#[trigger] key[k]) by {
            if k >= p.len() {
                assert(key[k] == name[k - p.len()]);
            }
        }
    }
    assert(lowered(key) =~= key) by {
        assert forall|k: int| 0 <= k < key.len() implies #[trigger] lowered(key)[k] == key[k] by {
            if k >= p.len() {
                assert(key[k] == name[k - p.len()]);
            }
        }
    }
    assert(lowered(name) =~= name);
    assert(trim_start(key) == key);
    assert(key.last() == name.last());
    assert(trim_end(key) == key);
    lemma_skip_ascii_prefix(p, name);
    lemma_no_prefix_in_plain_name(name);
    let mods = with_modifier(no_modifiers(), m);
    assert(strip_modifiers(name, mods) == Some((mods, name)));
    assert(strip_modifiers(key, no_modifiers()) == strip_modifiers(name, mods));
}

/// Each modifier prefix, written before a plain key name (lowercase letters
/// and underscores), adds its modifier to the key that the name stands for:
/// `ctrl+` and `c-` hold Control, `shift+` and `s-` Shift, `alt+` and `a-`
/// Alt, `super+`, `meta+`, `cmd+` and `m-` Super; a name that stands for no
/// key stays unrecognized.
#[verifier::rlimit(60)]
#[verifier::spinoff_prover]
pub proof fn law_modifier_prefixes(name: Seq<char>)
    requires
        name.len() > 0,
        forall|k: int| 0 <= k < name.len() ==> ('a' <= #[trigger] name[k] <= 'z' || name[k] == '_'),
    ensures
        api_key("ctrl+"@ + name) == match key_code_of(name) {
            Some(code) => Some(KeyPress { code, modifiers: with_modifier(no_modifiers(), Modifier::Control) }),
            None => None::<KeyPress>,
        },
        api_key("c-"@ + name) == match key_code_of(name) {
            Some(code) => Some(KeyPress { code, modifiers: with_modifier(no_modifiers(), Modifier::Control) }),
            None => None::<KeyPress>,
        },
        api_key("shift+"@ + name) == match key_code_of(name) {
            Some(code) => Some(KeyPress { code, modifiers: with_modifier(no_modifiers(), Modifier::Shift) }),
            None => None::<KeyPress>,
        },
        api_key("s-"@ + name) == match key_code_of(name) {
            Some(code) => Some(KeyPress { code, modifiers: with_modifier(no_modifiers(), Modifier::Shift) }),
            None => None::<KeyPress>,
        },
        api_key("alt+"@ + name) == match key_code_of(name) {
            Some(code) => Some(KeyPress { code, modifiers: with_modifier(no_modifiers(), Modifier::Alt) }),
            None => None::<KeyPress>,
        },
        api_key("a-"@ + name) == match key_code_of(name) {
            Some(code) => Some(KeyPress { code, modifiers: with_modifier(no_modifiers(), Modifier::Alt) }),
            None => None::<KeyPress>,
        },
        api_key("super+"@ + name) == match key_code_of(name) {
            Some(code) => Some(KeyPress { code, modifiers: with_modifier(no_modifiers(), Modifier::Super) }),
            None => None::<KeyPress>,
        },
        api_key("meta+"@ + name) == match key_code_of(name) {
            Some(code) => Some(KeyPress { code, modifiers: with_modifier(no_modifiers(), Modifier::Super) }),
            None => None::<KeyPress>,
        },
        api_key("cmd+"@ + name) == match key_code_of(name) {
            Some(code) => Some(KeyPress { code, modifiers: with_modifier(no_modifiers(), Modifier::Super) }),
            None => None::<KeyPress>,
        },
        api_key("m-"@ + name) == match key_code_of(name) {
            Some(code) => Some(KeyPress { code, modifiers: with_modifier(no_modifiers(), Modifier::Super) }),
            None => None::<KeyPress>,
        },
{
    reveal_strlit("ctrl+");
    reveal_strlit("c-");
    reveal_strlit("shift+");
    reveal_strlit("s-");
    reveal_strlit("alt+");
    reveal_strlit("a-");
    reveal_strlit("super+");
    reveal_strlit("meta+");
    reveal_strlit("cmd+");
    reveal_strlit("m-");
    assert(api_key("ctrl+"@ + name) == match key_code_of(name) {
            Some(code) => Some(KeyPress { code, modifiers: with_modifier(no_modifiers(), Modifier::Control) }),
            None => None::<KeyPress>,
        }) by {
        let key = "ctrl+"@ + name;
        assert(key.subrange(0, 5) =~= "ctrl+"@);
        lemma_prefixed_name("ctrl+"@, Modifier::Control, name);
    }
    assert(api_key("c-"@ + name) == match key_code_of(name) {
            Some(code) => Some(KeyPress { code, modifiers: with_modifier(no_modifiers(), Modifier::Control) }),
            None => None::<KeyPress>,
        }) by {
        let key = "c-"@ + name;
        assert(key.subrange(0, 2) =~= "c-"@);
        lemma_prefix_differs(key, "ctrl+"@, 1);
        lemma_prefixed_name("c-"@, Modifier::Control, name);
    }
    assert(api_key("shift+"@ + name) == match key_code_of(name) {
            Some(code) => Some(KeyPress { code, modifiers: with_modifier(no_modifiers(), Modifier::Shift) }),
            None => None::<KeyPress>,
        }) by {
        let key = "shift+"@ + name;
        assert(key.subrange(0, 6) =~= "shift+"@);
        lemma_prefix_differs(key, "ctrl+"@, 0);
        lemma_prefix_differs(key, "c-"@, 0);
        lemma_prefixed_name("shift+"@, Modifier::Shift, name);
    }
    assert(api_key("s-"@ + name) == match key_code_of(name) {
            Some(code) => Some(KeyPress { code, modifiers: with_modifier(no_modifiers(), Modifier::Shift) }),
            None => None::<KeyPress>,
        }) by {
        let key = "s-"@ + name;
        assert(key.subrange(0, 2) =~= "s-"@);
        lemma_prefix_differs(key, "ctrl+"@, 0);
        lemma_prefix_differs(key, "c-"@, 0);
        lemma_prefix_differs(key, "shift+"@, 1);
        lemma_prefixed_name("s-"@, Modifier::Shift, name);
    }
    assert(api_key("alt+"@ + name) == match key_code_of(name) {
            Some(code) => Some(KeyPress { code, modifiers: with_modifier(no_modifiers(), Modifier::Alt) }),
            None => None::<KeyPress>,
        }) by {
        let key = "alt+"@ + name;
        assert(key.subrange(0, 4) =~= "alt+"@);
        lemma_prefix_differs(key, "ctrl+"@, 0);
        lemma_prefix_differs(key, "c-"@, 0);
        lemma_prefix_differs(key, "shift+"@, 0);
        lemma_prefix_differs(key, "s-"@, 0);
        lemma_prefixed_name("alt+"@, Modifier::Alt, name);
    }
    assert(api_key("a-"@ + name) == match key_code_of(name) {
            Some(code) => Some(KeyPress { code, modifiers: with_modifier(no_modifiers(), Modifier::Alt) }),
            None => None::<KeyPress>,
        }) by {
        let key = "a-"@ + name;
        assert(key.subrange(0, 2) =~= "a-"@);
        lemma_prefix_differs(key, "ctrl+"@, 0);
        lemma_prefix_differs(key, "c-"@, 0);
        lemma_prefix_differs(key, "shift+"@, 0);
        lemma_prefix_differs(key, "s-"@, 0);
        lemma_prefix_differs(key, "alt+"@, 1);
        lemma_prefixed_name("a-"@, Modifier::Alt, name);
    }
    assert(api_key("super+"@ + name) == match key_code_of(name) {
            Some(code) => Some(KeyPress { code, modifiers: with_modifier(no_modifiers(), Modifier::Super) }),
            None => None::<KeyPress>,
        }) by {
        let key = "super+"@ + name;
        assert(key.subrange(0, 6) =~= "super+"@);
        lemma_prefix_differs(key, "ctrl+"@, 0);
        lemma_prefix_differs(key, "c-"@, 0);
        lemma_prefix_differs(key, "shift+"@, 1);
        lemma_prefix_differs(key, "s-"@, 1);
        lemma_prefix_differs(key, "alt+"@, 0);
        lemma_prefix_differs(key, "a-"@, 0);
        lemma_prefixed_name("super+"@, Modifier::Super, name);
    }
    assert(api_key("meta+"@ + name) == match key_code_of(name) {
            Some(code) => Some(KeyPress { code, modifiers: with_modifier(no_modifiers(), Modifier::Super) }),
            None => None::<KeyPress>,
        }) by {
        let key = "meta+"@ + name;
        assert(key.subrange(0, 5) =~= "meta+"@);
        lemma_prefix_differs(key, "ctrl+"@, 0);
        lemma_prefix_differs(key, "c-"@, 0);
        lemma_prefix_differs(key, "shift+"@, 0);
        lemma_prefix_differs(key, "s-"@, 0);
        lemma_prefix_differs(key, "alt+"@, 0);
        lemma_prefix_differs(key, "a-"@, 0);
        lemma_prefix_differs(key, "super+"@, 0);
        lemma_prefixed_name("meta+"@, Modifier::Super, name);
    }
    assert(api_key("cmd+"@ + name) == match key_code_of(name) {
            Some(code) => Some(KeyPress { code, modifiers: with_modifier(no_modifiers(), Modifier::Super) }),
            None => None::<KeyPress>,
        }) by {
        let key = "cmd+"@ + name;
        assert(key.subrange(0, 4) =~= "cmd+"@);
        lemma_prefix_differs(key, "ctrl+"@, 1);
        lemma_prefix_differs(key, "c-"@, 1);
        lemma_prefix_differs(key, "shift+"@, 0);
        lemma_prefix_differs(key, "s-"@, 0);
        lemma_prefix_differs(key, "alt+"@, 0);
        lemma_prefix_differs(key, "a-"@, 0);
        lemma_prefix_differs(key, "super+"@, 0);
        lemma_prefix_differs(key, "meta+"@, 0);
        lemma_prefixed_name("cmd+"@, Modifier::Super, name);
    }
    assert(api_key("m-"@ + name) == match key_code_of(name) {
            Some(code) => Some(KeyPress { code, modifiers: with_modifier(no_modifiers(), Modifier::Super) }),
            None => None::<KeyPress>,
        }) by {
        let key = "m-"@ + name;
        assert(key.subrange(0, 2) =~= "m-"@);
        lemma_prefix_differs(key, "ctrl+"@, 0);
        lemma_prefix_differs(key, "c-"@, 0);
        lemma_prefix_differs(key, "shift+"@, 0);
        lemma_prefix_differs(key, "s-"@, 0);
        lemma_prefix_differs(key, "alt+"@, 0);
        lemma_prefix_differs(key, "a-"@, 0);
        lemma_prefix_differs(key, "super+"@, 0);
        lemma_prefix_differs(key, "meta+"@, 1);
        lemma_prefix_differs(key, "cmd+"@, 0);
        lemma_prefixed_name("m-"@, Modifier::Super, name);
    }
}

} // verus!
