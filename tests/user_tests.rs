use rkbuild::choices::{EnumInput, TextInput, TextInputType};
use rkbuild::user::{Choice, ChoiceResult, Key, PromptConflict, UserInput};

fn text_choice() -> Choice {
    Choice::Text(TextInput::new(TextInputType::String, "x"))
}

#[test]
fn second_prompt_is_rejected() {
    let mut input = UserInput::new();
    let _future = input.set(text_choice()).ok().unwrap();
    let second = Choice::Enum(EnumInput::new(vec!["a".to_string()], "y"));
    assert!(matches!(input.set(second), Err(PromptConflict)));
    // The first prompt is still the active one.
    match input.current() {
        Some(Choice::Text(t)) => assert_eq!(t.title(), "x"),
        _ => panic!("the first prompt should stay"),
    }
}

#[test]
fn answered_prompt_wakes_the_worker() {
    let mut input = UserInput::new();
    let future = input.set(text_choice()).ok().unwrap();
    input.tick(&vec![Key::Char('4'), Key::Char('2'), Key::Enter]);
    assert_eq!(input.draw(), Some(ChoiceResult::Remove));
    assert!(input.current().is_none());
    assert!(future.wait());
    match input.take_answer() {
        Some(Choice::Text(t)) => assert_eq!(t.output(), "42"),
        _ => panic!("expected the text prompt back"),
    }
    assert!(input.take_answer().is_none());
}

#[test]
fn prompt_sees_batches_in_order() {
    let mut input = UserInput::new();
    let _future = input.set(text_choice()).ok().unwrap();
    input.tick(&vec![Key::Char('a')]);
    assert_eq!(input.draw(), Some(ChoiceResult::Continue));
    input.tick(&vec![Key::Char('b'), Key::Enter, Key::Char('c')]);
    assert_eq!(input.draw(), Some(ChoiceResult::Remove));
    match input.take_answer() {
        Some(Choice::Text(t)) => assert_eq!(t.output(), "ab"),
        _ => panic!("expected the text prompt back"),
    }
}

#[test]
fn keys_are_delivered_once() {
    let mut input = UserInput::new();
    let _future = input.set(text_choice()).ok().unwrap();
    input.tick(&vec![Key::Char('a')]);
    input.draw();
    input.draw();
    match input.current() {
        Some(Choice::Text(t)) => assert_eq!(t.output(), "a"),
        _ => panic!("prompt should still be active"),
    }
}

#[test]
fn nothing_is_delivered_after_done() {
    let mut input = UserInput::new();
    let _future = input.set(text_choice()).ok().unwrap();
    input.tick(&vec![Key::Enter]);
    input.draw();
    input.tick(&vec![Key::Char('z')]);
    assert_eq!(input.draw(), None);
    match input.take_answer() {
        Some(Choice::Text(t)) => assert_eq!(t.output(), ""),
        _ => panic!("expected the text prompt back"),
    }
}

#[test]
fn new_prompt_allowed_after_answer() {
    let mut input = UserInput::new();
    let _future = input.set(text_choice()).ok().unwrap();
    input.tick(&vec![Key::Enter]);
    input.draw();
    assert!(input.set(text_choice()).is_ok());
}

#[test]
fn choice_prompt_returns_index() {
    let mut input = UserInput::new();
    let choices = vec!["a".to_string(), "b".to_string(), "c".to_string()];
    let future = input.set(Choice::Enum(EnumInput::new(choices, "pick"))).ok().unwrap();
    input.tick(&vec![Key::Down, Key::Down, Key::Enter]);
    input.draw();
    assert!(future.wait());
    match input.take_answer() {
        Some(Choice::Enum(e)) => assert_eq!(e.output(), 2),
        _ => panic!("expected the list prompt back"),
    }
}

#[test]
fn unset_retires_prompt() {
    let mut input = UserInput::new();
    let future = input.set(text_choice()).ok().unwrap();
    input.unset();
    assert!(input.current().is_none());
    assert!(future.wait());
    assert!(input.take_answer().is_some());
}

#[test]
fn wait_fails_when_render_side_is_gone() {
    let mut input = UserInput::new();
    let future = input.set(text_choice()).ok().unwrap();
    drop(input);
    assert!(!future.wait());
}

#[test]
fn choice_step_dispatches() {
    let mut c = text_choice();
    assert_eq!(c.step(&vec![Key::Char('q'), Key::Enter]), ChoiceResult::Remove);
    match c {
        Choice::Text(t) => assert_eq!(t.output(), "q"),
        _ => panic!("variant changed"),
    }
}

#[test]
fn prompt_takes_keys_of_many_ticks_in_order() {
    let mut input = UserInput::new();
    let _future = input.set(text_choice()).ok().unwrap();
    for c in ['v', '6', '.', '1'] {
        input.tick(&vec![Key::Char(c)]);
        assert_eq!(input.draw(), Some(ChoiceResult::Continue));
    }
    input.tick(&vec![Key::Backspace, Key::Char('2'), Key::Enter, Key::Char('x')]);
    assert_eq!(input.draw(), Some(ChoiceResult::Remove));
    match input.take_answer() {
        Some(Choice::Text(t)) => assert_eq!(t.output(), "v6.2"),
        _ => panic!("expected the text prompt back"),
    }
}
