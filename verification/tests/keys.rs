use herdr::keys::{
    parse_api_key, parse_api_keys, try_parse_api_key, try_parse_api_keys, KeyCode, KeyModifiers,
    KeyPress,
};

fn mods(control: bool, shift: bool, alt: bool, super_key: bool) -> KeyModifiers {
    KeyModifiers { control, shift, alt, super_key }
}

fn press(code: KeyCode, m: KeyModifiers) -> Option<KeyPress> {
    Some(KeyPress { code, modifiers: m })
}

const NONE: KeyModifiers = KeyModifiers { control: false, shift: false, alt: false, super_key: false };

#[test]
fn named_keys() {
    assert_eq!(parse_api_key("enter"), press(KeyCode::Enter, NONE));
    assert_eq!(parse_api_key("Return"), press(KeyCode::Enter, NONE));
    assert_eq!(parse_api_key("  page_down  "), press(KeyCode::PageDown, NONE));
    assert_eq!(parse_api_key("PgUp"), press(KeyCode::PageUp, NONE));
    assert_eq!(parse_api_key("escape"), press(KeyCode::Esc, NONE));
    assert_eq!(parse_api_key("bksp"), press(KeyCode::Backspace, NONE));
    assert_eq!(parse_api_key("space"), press(KeyCode::Char(' '), NONE));
    assert_eq!(parse_api_key("left_bracket"), press(KeyCode::Char('['), NONE));
    assert_eq!(parse_api_key("backslash"), press(KeyCode::Char('\\'), NONE));
    assert_eq!(parse_api_key("quote"), press(KeyCode::Char('\''), NONE));
}

#[test]
fn modifier_prefixes_chain() {
    assert_eq!(parse_api_key("ctrl+c"), press(KeyCode::Char('c'), mods(true, false, false, false)));
    assert_eq!(parse_api_key("C-X"), press(KeyCode::Char('x'), mods(true, false, false, false)));
    assert_eq!(
        parse_api_key("ctrl+shift+a"),
        press(KeyCode::Char('a'), mods(true, true, false, false))
    );
    assert_eq!(parse_api_key("shift+tab"), press(KeyCode::Tab, mods(false, true, false, false)));
    assert_eq!(parse_api_key("s-tab"), press(KeyCode::Tab, mods(false, true, false, false)));
    assert_eq!(parse_api_key("alt+f4"), press(KeyCode::F(4), mods(false, false, true, false)));
    assert_eq!(parse_api_key("a-b"), press(KeyCode::Char('b'), mods(false, false, true, false)));
    assert_eq!(parse_api_key("CMD+S"), press(KeyCode::Char('s'), mods(false, false, false, true)));
    assert_eq!(parse_api_key("meta+up"), press(KeyCode::Up, mods(false, false, false, true)));
    assert_eq!(parse_api_key("super+end"), press(KeyCode::End, mods(false, false, false, true)));
    assert_eq!(parse_api_key("m-x"), press(KeyCode::Char('x'), mods(false, false, false, true)));
    assert_eq!(parse_api_key("M-c-x"), press(KeyCode::Char('x'), mods(true, false, false, true)));
    assert_eq!(parse_api_key("m-"), None);
}

#[test]
fn function_keys() {
    assert_eq!(parse_api_key("f5"), press(KeyCode::F(5), NONE));
    assert_eq!(parse_api_key("F20"), press(KeyCode::F(20), NONE));
    assert_eq!(parse_api_key("f05"), press(KeyCode::F(5), NONE));
    assert_eq!(parse_api_key("f+5"), press(KeyCode::F(5), NONE));
    assert_eq!(parse_api_key("f21"), None);
    assert_eq!(parse_api_key("f0"), None);
    assert_eq!(parse_api_key("f"), press(KeyCode::Char('f'), NONE));
    assert_eq!(parse_api_key("F"), press(KeyCode::Char('f'), NONE));
    assert_eq!(parse_api_key("ctrl+f"), press(KeyCode::Char('f'), mods(true, false, false, false)));
    assert_eq!(parse_api_key("f256"), None);
    assert_eq!(parse_api_key("fx"), None);
}

#[test]
fn single_characters_and_unknown_names() {
    assert_eq!(parse_api_key("-"), press(KeyCode::Char('-'), NONE));
    assert_eq!(parse_api_key("Q"), press(KeyCode::Char('q'), NONE));
    assert_eq!(parse_api_key("É"), press(KeyCode::Char('é'), NONE));
    assert_eq!(parse_api_key(""), None);
    assert_eq!(parse_api_key("   "), None);
    assert_eq!(parse_api_key("ctrl+"), None);
    assert_eq!(parse_api_key("c-"), None);
    assert_eq!(parse_api_key("bogus"), None);
}

#[test]
fn checked_parse_agrees() {
    assert_eq!(try_parse_api_key("ctrl+c"), Some(parse_api_key("ctrl+c")));
    assert_eq!(try_parse_api_key("nope"), Some(None));
}

#[test]
fn key_lists_stop_at_first_unknown() {
    let keys = vec!["down".to_string(), "enter".to_string()];
    assert_eq!(
        parse_api_keys(&keys),
        Ok(vec![
            KeyPress { code: KeyCode::Down, modifiers: NONE },
            KeyPress { code: KeyCode::Enter, modifiers: NONE },
        ])
    );
    let keys = vec!["a".to_string(), "bogus".to_string(), "also bogus".to_string()];
    assert_eq!(parse_api_keys(&keys), Err("bogus".to_string()));
    assert_eq!(try_parse_api_keys(&keys), Some(Err("bogus".to_string())));
    assert_eq!(parse_api_keys(&[]), Ok(vec![]));
}
