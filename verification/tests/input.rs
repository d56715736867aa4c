use cargo_tap::input::{InputAction, InputHandler, Key, KeyInput};
use cargo_tap::session_state::{SessionEvent, SessionStatus};

fn press(key: Key, text: Option<&str>) -> KeyInput {
    KeyInput { key, pressed: true, text: text.map(|t| t.to_string()) }
}

#[test]
fn a_new_handler_has_seen_nothing() {
    let handler = InputHandler::new();
    assert_eq!(handler.current_input, "");
    assert_eq!(handler.get_last_action(), None);
}

#[test]
fn typed_text_is_collected() {
    let mut handler = InputHandler::new();
    handler.process_key_event(&press(Key::Other, Some("a")));
    assert_eq!(handler.get_last_action(), Some(&InputAction::TypeCharacter('a')));
    handler.process_key_event(&press(Key::Other, Some("bc")));
    assert_eq!(handler.get_last_action(), Some(&InputAction::TypeCharacter('b')));
    handler.process_key_event(&press(Key::Enter, None));
    assert_eq!(handler.get_last_action(), Some(&InputAction::Enter));
    assert_eq!(handler.current_input, "ab\n");
    handler.process_key_event(&press(Key::Backspace, None));
    assert_eq!(handler.get_last_action(), Some(&InputAction::Backspace));
    assert_eq!(handler.current_input, "ab");
}

#[test]
fn releases_and_keys_without_text_do_nothing() {
    let mut handler = InputHandler::new();
    handler.process_key_event(&press(Key::Other, Some("a")));
    handler.process_key_event(&KeyInput { key: Key::Backspace, pressed: false, text: None });
    assert_eq!(handler.get_last_action(), None);
    assert_eq!(handler.current_input, "a");
    handler.process_key_event(&press(Key::Other, None));
    assert_eq!(handler.get_last_action(), None);
    handler.process_key_event(&press(Key::Other, Some("")));
    assert_eq!(handler.get_last_action(), None);
    handler.process_key_event(&press(Key::Unidentified, Some("x")));
    assert_eq!(handler.get_last_action(), None);
    assert_eq!(handler.current_input, "a");
}

#[test]
fn backspace_on_nothing_is_still_an_action() {
    let mut handler = InputHandler::new();
    handler.process_key_event(&press(Key::Backspace, None));
    assert_eq!(handler.get_last_action(), Some(&InputAction::Backspace));
    assert_eq!(handler.current_input, "");
    handler.clear_last_action();
    assert_eq!(handler.get_last_action(), None);
}

#[test]
fn a_session_starts_once_and_ends_while_it_runs() {
    let fresh = SessionStatus::NotStarted;
    assert_eq!(fresh.step(SessionEvent::Tick { expired: true }), (SessionStatus::NotStarted, false));
    let (active, finished) = fresh.step(SessionEvent::Start);
    assert_eq!((active, finished), (SessionStatus::Active, false));
    assert!(active.is_active());
    assert_eq!(active.step(SessionEvent::Start), (SessionStatus::Active, false));
    assert_eq!(active.step(SessionEvent::Tick { expired: false }), (SessionStatus::Active, false));
    let (done, finished) = active.step(SessionEvent::Tick { expired: true });
    assert_eq!((done, finished), (SessionStatus::Finished, true));
    assert!(done.is_finished());
    assert_eq!(done.step(SessionEvent::Tick { expired: true }), (SessionStatus::Finished, false));
    assert_eq!(done.step(SessionEvent::Start), (SessionStatus::Finished, false));
    assert_eq!(done.step(SessionEvent::Renew), (SessionStatus::NotStarted, false));
}
