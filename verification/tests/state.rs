use tuber::state::{StateStack, StateStackRequest};

#[test]
fn empty_stack_exits() {
    let stack: StateStack<&str> = StateStack::new(None);
    assert!(stack.should_exit());
    assert!(stack.current_state().is_none());
}

#[test]
fn initial_state_is_pushed() {
    let mut stack = StateStack::new(Some("menu"));
    let initial = stack.take_initial_state();
    stack.push_state(initial);
    assert!(!stack.should_exit());
    assert_eq!(stack.current_state(), Some(&"menu"));
}

#[test]
fn pop_undoes_push() {
    let mut stack = StateStack::new(None);
    stack.push_state(1);
    stack.push_state(2);
    assert_eq!(stack.current_state(), Some(&2));
    stack.pop_state();
    assert_eq!(stack.current_state(), Some(&1));
    stack.pop_state();
    assert!(stack.should_exit());
    stack.pop_state();
    assert!(stack.should_exit());
}

#[test]
fn current_state_mut_changes_the_top() {
    let mut stack = StateStack::new(None);
    stack.push_state(1);
    stack.push_state(2);
    if let Some(top) = stack.current_state_mut() {
        *top = 20;
    }
    assert_eq!(stack.current_state(), Some(&20));
    stack.pop_state();
    assert_eq!(stack.current_state(), Some(&1));
}

#[test]
fn requests_are_handled_first_to_last() {
    let mut stack = StateStack::new(None);
    stack.push_state("game");
    stack.handle_requests(vec![
        StateStackRequest::Push("pause"),
        StateStackRequest::Push("options"),
        StateStackRequest::Pop,
    ]);
    assert_eq!(stack.current_state(), Some(&"pause"));
    stack.handle_request(StateStackRequest::Pop);
    assert_eq!(stack.current_state(), Some(&"game"));
    stack.handle_requests(vec![StateStackRequest::Pop, StateStackRequest::Pop]);
    assert!(stack.should_exit());
}
