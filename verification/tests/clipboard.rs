use qr_paste::client::clipboard::{
    goes_on, parse_key_spec, press_after_paste, restore_clipboard, restore_result, restores, simulate_key,
    simulate_paste, snapshot_of_failure, take_snapshot, write_to_clipboard, ClipboardRead,
    ClipboardRestoreError, ClipboardSnapshot, ClipboardWrite, Direction, Key, KeyStroke,
};

#[test]
fn parse_key_spec_accepts_extended_allowlist() {
    assert_eq!(parse_key_spec("Delete"), Some((None, Key::Delete)));
    assert_eq!(parse_key_spec("Up"), Some((None, Key::UpArrow)));
    assert_eq!(parse_key_spec("PageDown"), Some((None, Key::PageDown)));
    assert_eq!(parse_key_spec("F12"), Some((None, Key::F12)));
    assert_eq!(parse_key_spec("ctrl+Home"), Some((Some(Key::Control), Key::Home)));
    assert_eq!(parse_key_spec("meta+Right"), Some((Some(Key::Meta), Key::RightArrow)));
}

#[test]
fn parse_key_spec_rejects_unknown_or_multi_modifier_keys() {
    assert_eq!(parse_key_spec("enter"), None);
    assert_eq!(parse_key_spec("ctrl+shift+Tab"), None);
    assert_eq!(parse_key_spec("super+Return"), None);
    assert_eq!(parse_key_spec("A"), None);
}

#[test]
fn restore_error_uses_fixed_codes() {
    assert_eq!(ClipboardRestoreError::OpenFailed.to_string(), "clipboard_open_failed");
    assert_eq!(ClipboardRestoreError::SetFailed.to_string(), "clipboard_restore_failed");
}

#[test]
fn snapshots_tell_text_from_the_rest() {
    assert!(matches!(take_snapshot(ClipboardRead::NotOpened), ClipboardSnapshot::Unreadable));
    assert!(matches!(
        take_snapshot(ClipboardRead::Text(String::new())),
        ClipboardSnapshot::EmptyText
    ));
    assert!(matches!(
        take_snapshot(ClipboardRead::Text("x".to_string())),
        ClipboardSnapshot::Text(s) if s == "x"
    ));
    assert!(matches!(
        take_snapshot(ClipboardRead::Failed("The contents were NOT Available as TEXT.".to_string())),
        ClipboardSnapshot::NonText
    ));
    assert!(matches!(
        take_snapshot(ClipboardRead::Failed("occupied".to_string())),
        ClipboardSnapshot::Unreadable
    ));
    assert!(matches!(
        snapshot_of_failure("it is not available as text"),
        ClipboardSnapshot::NonText
    ));
}

#[test]
fn only_what_was_put_in_is_replaced() {
    let kept = ClipboardSnapshot::Text("old".to_string());
    let ours = ClipboardRead::Text("new".to_string());
    assert_eq!(restore_clipboard(&kept, "new", &ours), Ok(Some("old".to_string())));
    assert_eq!(restore_clipboard(&kept, "other", &ours), Ok(None));
    assert_eq!(
        restore_clipboard(&ClipboardSnapshot::EmptyText, "new", &ours),
        Ok(Some(String::new()))
    );
    assert_eq!(restore_clipboard(&ClipboardSnapshot::NonText, "new", &ours), Ok(None));
    assert_eq!(
        restore_clipboard(&kept, "new", &ClipboardRead::NotOpened),
        Err(ClipboardRestoreError::OpenFailed)
    );
    assert_eq!(
        restore_clipboard(&kept, "new", &ClipboardRead::Failed("x".to_string())),
        Ok(None)
    );
    assert_eq!(restore_result(false), Err(ClipboardRestoreError::SetFailed));
    assert_eq!(restore_result(true), Ok(()));
    assert!(restores(&kept));
    assert!(!restores(&ClipboardSnapshot::Unreadable));
}

#[test]
fn writing_tells_what_failed() {
    let failed = ClipboardWrite::Failed("x".to_string());
    assert_eq!(write_to_clipboard("", &failed), Ok(()));
    assert_eq!(write_to_clipboard("a", &failed), Err("Clipboard write failed: x".to_string()));
    assert_eq!(
        write_to_clipboard("a", &ClipboardWrite::NotOpened("y".to_string())),
        Err("Clipboard init failed: y".to_string())
    );
    assert_eq!(write_to_clipboard("a", &ClipboardWrite::Written), Ok(()));
}

#[test]
fn return_is_pressed_where_it_is_asked_for() {
    let enter = (None, Key::Return);
    assert_eq!(press_after_paste(None, false), vec![]);
    assert_eq!(press_after_paste(None, true), vec![enter]);
    assert_eq!(press_after_paste(Some("Return"), true), vec![enter]);
    assert_eq!(press_after_paste(Some("no key"), true), vec![enter]);
    assert_eq!(press_after_paste(Some("Tab"), true), vec![(None, Key::Tab), enter]);
    assert_eq!(
        press_after_paste(Some("ctrl+Return"), true),
        vec![(Some(Key::Control), Key::Return), enter]
    );
}

#[test]
fn modifiers_are_released() {
    let keys = simulate_paste();
    assert_eq!(
        keys,
        vec![
            KeyStroke { key: Key::Control, direction: Direction::Press },
            KeyStroke { key: Key::Unicode('v'), direction: Direction::Click },
            KeyStroke { key: Key::Control, direction: Direction::Release },
        ]
    );
    assert!(!goes_on(keys[0], false));
    assert!(goes_on(keys[1], false));
    assert_eq!(
        simulate_key(None, Key::Return),
        vec![KeyStroke { key: Key::Return, direction: Direction::Click }]
    );
}
