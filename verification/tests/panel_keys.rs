use faster::panel::{PanelEffect, PanelKey, PanelState};

fn type_text(panel: &mut PanelState, text: &str) {
    for c in text.chars() {
        panel.handle_key(PanelKey::Char(c));
    }
}

#[test]
fn test_panel_enter_input_mode() {
    let mut panel = PanelState::new();
    let (handled, effect) = panel.handle_key(PanelKey::Char('i'));
    assert!(handled);
    assert!(matches!(effect, PanelEffect::Stay));
    assert!(panel.input_mode);
}

#[test]
fn test_panel_type_and_submit() {
    let mut panel = PanelState::new();
    panel.handle_key(PanelKey::Char('i'));
    type_text(&mut panel, "run tests");
    assert_eq!(panel.current_input.iter().collect::<String>(), "run tests");

    let (handled, effect) = panel.handle_key(PanelKey::Char('\n'));
    assert!(handled);
    match effect {
        PanelEffect::SubmitAndRefresh(cmd) => assert_eq!(cmd, "run tests"),
        _ => panic!("expected a submit effect"),
    }
    assert!(!panel.input_mode);
    assert!(panel.current_input.is_empty());
}

#[test]
fn test_panel_submit_empty_input_does_nothing() {
    let mut panel = PanelState::new();
    panel.handle_key(PanelKey::Char('i'));
    let (handled, effect) = panel.handle_key(PanelKey::Char('\n'));
    assert!(handled);
    assert!(matches!(effect, PanelEffect::Stay));
    assert!(!panel.input_mode);
}

#[test]
fn test_panel_escape_clears_input() {
    let mut panel = PanelState::new();
    panel.handle_key(PanelKey::Char('i'));
    type_text(&mut panel, "abc");
    let (handled, _) = panel.handle_key(PanelKey::Esc);
    assert!(handled);
    assert!(!panel.input_mode);
    assert!(panel.current_input.is_empty());
}

#[test]
fn test_panel_backspace_removes_last_char() {
    let mut panel = PanelState::new();
    panel.handle_key(PanelKey::Char('i'));
    type_text(&mut panel, "ab");
    panel.handle_key(PanelKey::Backspace);
    assert_eq!(panel.current_input.iter().collect::<String>(), "a");
    panel.handle_key(PanelKey::Backspace);
    panel.handle_key(PanelKey::Backspace);
    assert!(panel.current_input.is_empty());
}

#[test]
fn test_panel_selection_stays_in_bounds() {
    let mut panel = PanelState::new();
    panel.set_tasks(vec!["one".to_string(), "two".to_string(), "three".to_string()]);

    panel.handle_key(PanelKey::Char('j'));
    panel.handle_key(PanelKey::Down);
    panel.handle_key(PanelKey::Char('j'));
    assert_eq!(panel.selected_index, 2);

    panel.handle_key(PanelKey::Char('k'));
    assert_eq!(panel.selected_index, 1);
    panel.handle_key(PanelKey::Up);
    panel.handle_key(PanelKey::Up);
    assert_eq!(panel.selected_index, 0);
}

#[test]
fn test_panel_cancel_selected_task() {
    let mut panel = PanelState::new();
    panel.set_tasks(vec!["one".to_string(), "two".to_string()]);
    panel.handle_key(PanelKey::Char('j'));
    let (handled, effect) = panel.handle_key(PanelKey::Char('d'));
    assert!(handled);
    match effect {
        PanelEffect::CancelAndRefresh(i) => assert_eq!(i, 1),
        _ => panic!("expected a cancel effect"),
    }
}

#[test]
fn test_panel_cancel_with_no_tasks_does_nothing() {
    let mut panel = PanelState::new();
    let (handled, effect) = panel.handle_key(PanelKey::Char('d'));
    assert!(handled);
    assert!(matches!(effect, PanelEffect::Stay));
}

#[test]
fn test_panel_refresh_key() {
    let mut panel = PanelState::new();
    let (handled, effect) = panel.handle_key(PanelKey::Char('r'));
    assert!(handled);
    assert!(matches!(effect, PanelEffect::Refresh));
}

#[test]
fn test_panel_unhandled_key() {
    let mut panel = PanelState::new();
    let (handled, effect) = panel.handle_key(PanelKey::Char('x'));
    assert!(!handled);
    assert!(matches!(effect, PanelEffect::Stay));
}
