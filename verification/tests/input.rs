use tuber::input::{Action, Button, Input, InputState, Key, Keymap};

fn keymap() -> Keymap {
    Keymap::from_bindings(vec![
        (Key::A, Action::new("jump")),
        (Key::B, Action::new("fire")),
        (Key::C, Action::new("jump")),
    ])
}

#[test]
fn key_of_takes_the_last_binding() {
    let keymap = keymap();
    assert_eq!(keymap.key_of("jump"), Some(Key::C));
    assert_eq!(keymap.key_of("fire"), Some(Key::B));
    assert_eq!(keymap.key_of("crouch"), None);
    assert_eq!(Keymap::default().key_of("jump"), None);
}

#[test]
fn action_keeps_its_name() {
    assert_eq!(Action::new("jump").as_str(), "jump");
}

#[test]
fn key_and_button_indices() {
    assert_eq!(Key::A.index(), 0);
    assert_eq!(Key::F12.index(), 58);
    assert_eq!(Button::Left.index(), 0);
    assert_eq!(Button::Middle.index(), 2);
}

#[test]
fn nothing_is_held_at_first() {
    let state: InputState<(i32, i32)> = InputState::new(keymap(), (0, 0));
    assert!(!state.is(Input::KeyDown(Key::A)));
    assert!(state.is(Input::KeyUp(Key::A)));
    assert!(!state.is(Input::MouseButtonDown(Button::Left)));
    assert!(!state.is(Input::MouseMotion((0, 0))));
    assert!(!state.is(Input::ActionDown("jump".to_string())));
    assert_eq!(state.mouse_position(), (0, 0));
}

#[test]
fn key_press_is_held_and_was_reports_before() {
    let mut state: InputState<(i32, i32)> = InputState::new(keymap(), (0, 0));
    state.handle_input(Input::KeyDown(Key::A));
    assert!(state.is(Input::KeyDown(Key::A)));
    assert!(!state.was(Input::KeyDown(Key::A)));
    state.handle_input(Input::KeyDown(Key::B));
    assert!(state.was(Input::KeyDown(Key::A)));
    assert!(state.is(Input::KeyDown(Key::A)));
    state.handle_input(Input::KeyUp(Key::A));
    assert!(state.is(Input::KeyUp(Key::A)));
    assert!(state.was(Input::KeyDown(Key::A)));
}

#[test]
fn actions_follow_their_key() {
    let mut state: InputState<(i32, i32)> = InputState::new(keymap(), (0, 0));
    state.handle_input(Input::KeyDown(Key::A));
    assert!(!state.is(Input::ActionDown("jump".to_string())));
    state.handle_input(Input::KeyDown(Key::C));
    assert!(state.is(Input::ActionDown("jump".to_string())));
    assert!(!state.was(Input::ActionDown("jump".to_string())));
    assert!(state.is(Input::ActionUp("fire".to_string())));
    // An action input is not applied to the state.
    state.handle_input(Input::ActionDown("fire".to_string()));
    assert!(state.is(Input::ActionUp("fire".to_string())));
    assert!(state.was(Input::ActionDown("jump".to_string())));
}

#[test]
fn buttons_and_motion() {
    let mut state: InputState<(i32, i32)> = InputState::new(Keymap::default(), (0, 0));
    state.handle_input(Input::MouseButtonDown(Button::Right));
    assert!(state.is(Input::MouseButtonDown(Button::Right)));
    assert!(state.was(Input::MouseButtonUp(Button::Right)));
    state.handle_input(Input::MouseMotion((3, 4)));
    assert!(state.is(Input::MouseMotion((0, 0))));
    assert_eq!(state.mouse_position(), (3, 4));
    assert!(state.was(Input::MouseButtonDown(Button::Right)));
    state.handle_input(Input::MouseButtonUp(Button::Right));
    assert!(!state.is(Input::MouseMotion((0, 0))));
    assert_eq!(state.mouse_position(), (3, 4));
    assert!(state.is(Input::MouseButtonUp(Button::Right)));
}

#[test]
fn keys_are_found_by_name() {
    assert_eq!(Key::from_name("A"), Some(Key::A));
    assert_eq!(Key::from_name("Number7"), Some(Key::Number7));
    assert_eq!(Key::from_name("LShift"), Some(Key::LShift));
    assert_eq!(Key::from_name("F12"), Some(Key::F12));
    assert_eq!(Key::from_name("a"), None);
    assert_eq!(Key::from_name(""), None);
    assert_eq!(Key::from_name("F13"), None);
    let keys = [
        Key::A, Key::Z, Key::Number0, Key::Number9, Key::Spacebar, Key::Return, Key::RShift,
        Key::LControl, Key::RControl, Key::Escape, Key::UpArrow, Key::DownArrow, Key::LeftArrow,
        Key::RightArrow, Key::F1, Key::F10,
    ];
    for key in keys.iter() {
        assert_eq!(Key::from_name(&format!("{:?}", key)), Some(*key));
    }
}

#[test]
fn deserialize() {
    let json = "{\"A\": \"do_something\", \"B\": \"do_something_else\", \"C\": \"do_something\"}";

    let names = serde_json::from_str::<std::collections::HashMap<String, String>>(json).unwrap();
    let keymap: std::collections::HashMap<Key, Action> = names
        .iter()
        .map(|(key, action)| (Key::from_name(key).unwrap(), Action::new(action)))
        .collect();
    assert!(keymap.contains_key(&Key::A));
    assert!(keymap.contains_key(&Key::B));
    assert!(keymap.contains_key(&Key::C));
    assert_eq!(keymap[&Key::A].as_str(), "do_something");
    assert_eq!(keymap[&Key::B].as_str(), "do_something_else");
    assert_eq!(keymap[&Key::C].as_str(), "do_something");
}
