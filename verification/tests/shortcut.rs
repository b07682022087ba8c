use hearth::shortcut::{normalize_accelerator, read_combo, register_failed_message, registration_error_text, DEFAULT_COMBO};

#[test]
fn normalize_cmd_shift_letter() {
    assert_eq!(
        normalize_accelerator("Cmd+Shift+H").unwrap(),
        "CommandOrControl+Shift+H"
    );
    assert_eq!(
        normalize_accelerator("ctrl+shift+h").unwrap(),
        "CommandOrControl+Shift+H"
    );
    assert_eq!(
        normalize_accelerator("CommandOrControl+Shift+H").unwrap(),
        "CommandOrControl+Shift+H"
    );
}

#[test]
fn normalize_duplicates_collapse() {
    assert_eq!(
        normalize_accelerator("Cmd+Ctrl+H").unwrap(),
        "CommandOrControl+H"
    );
}

#[test]
fn normalize_function_key() {
    assert_eq!(normalize_accelerator("Alt+F5").unwrap(), "Alt+F5");
}

#[test]
fn normalize_rejects_no_base() {
    assert!(normalize_accelerator("Cmd+Shift").is_err());
}

#[test]
fn normalize_rejects_unknown_key() {
    assert!(normalize_accelerator("Cmd+Weird").is_err());
}

#[test]
fn normalize_rejects_empty_token() {
    assert!(normalize_accelerator("Cmd++H").is_err());
}

#[test]
fn normalize_error_messages_quote_the_input() {
    assert_eq!(
        normalize_accelerator("Cmd++H").unwrap_err(),
        "Invalid accelerator: empty token in \"Cmd++H\""
    );
    assert_eq!(
        normalize_accelerator("Cmd+Shift").unwrap_err(),
        "Invalid accelerator: no base key in \"Cmd+Shift\""
    );
    assert_eq!(
        normalize_accelerator("A+B").unwrap_err(),
        "Invalid accelerator: multiple base keys in \"A+B\""
    );
    assert_eq!(
        normalize_accelerator("Cmd+Weird").unwrap_err(),
        "Invalid accelerator: unsupported key \"Weird\""
    );
}

#[test]
fn normalize_keeps_first_seen_modifier_order_and_named_keys() {
    assert_eq!(
        normalize_accelerator(" shift + option + space ").unwrap(),
        "Shift+Alt+SPACE"
    );
    assert_eq!(normalize_accelerator("meta+7").unwrap(), "CommandOrControl+7");
    assert_eq!(normalize_accelerator("opt+f12").unwrap(), "Alt+F12");
}

#[test]
fn normalize_is_idempotent_on_its_output() {
    for input in ["Cmd+Shift+H", "opt+ctrl+shift+f3", "super+Enter", "alt+9"] {
        let once = normalize_accelerator(input).unwrap();
        assert_eq!(normalize_accelerator(&once).unwrap(), once);
    }
}

#[test]
fn read_combo_falls_back_to_default_when_blank() {
    assert_eq!(read_combo("   ").unwrap(), DEFAULT_COMBO);
    assert_eq!(read_combo("").unwrap(), "CommandOrControl+Shift+H");
    assert_eq!(read_combo("alt+k").unwrap(), "Alt+K");
    assert!(read_combo("alt+").is_err());
}

#[test]
fn registration_errors_are_recorded_verbatim() {
    assert_eq!(registration_error_text(Ok(())), "");
    assert_eq!(registration_error_text(Err("taken".to_string())), "taken");
    assert_eq!(register_failed_message("taken"), "register shortcut failed: taken");
}
