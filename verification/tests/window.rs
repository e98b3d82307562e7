use koid::window::{close_action, close_choice, CloseAction};

#[test]
fn close_mode_defaults_to_asking() {
    assert_eq!(close_action(None), CloseAction::Ask);
    assert_eq!(close_action(Some("ask")), CloseAction::Ask);
    assert_eq!(close_action(Some("weird")), CloseAction::Ask);
    assert_eq!(close_action(Some("hide")), CloseAction::Hide);
    assert_eq!(close_action(Some("quit")), CloseAction::Quit);
}

#[test]
fn close_answer_is_remembered() {
    assert_eq!(close_choice("hide"), ("hide", CloseAction::Hide));
    assert_eq!(close_choice("quit"), ("quit", CloseAction::Quit));
    assert_eq!(close_choice("later"), ("ask", CloseAction::Hide));
    for answer in ["hide", "quit", "later"] {
        let (mode, _) = close_choice(answer);
        let next = close_action(Some(mode));
        let expected = match answer {
            "hide" => CloseAction::Hide,
            "quit" => CloseAction::Quit,
            _ => CloseAction::Ask,
        };
        assert_eq!(next, expected);
    }
}
