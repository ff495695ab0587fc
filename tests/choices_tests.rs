use rkbuild::choices::{accepts, EnumInput, TextInput, TextInputType};
use rkbuild::user::{ChoiceResult, Key};

fn typed(text: &str) -> Vec<Key> {
    text.chars().map(Key::Char).collect()
}

#[test]
fn text_round_trip() {
    let mut input = TextInput::new(TextInputType::String, "x");
    let mut keys = typed("1.2.3");
    keys.push(Key::Enter);
    assert_eq!(input.step(&keys), ChoiceResult::Remove);
    assert_eq!(input.output(), "1.2.3");
}

#[test]
fn version_field_rejects_non_numeric() {
    let mut input = TextInput::new(TextInputType::Version, "x");
    let mut keys = typed("a1.2b");
    keys.push(Key::Enter);
    assert_eq!(input.step(&keys), ChoiceResult::Remove);
    assert_eq!(input.output(), "1.2");
}

#[test]
fn version_field_takes_unicode_digits() {
    let mut input = TextInput::new(TextInputType::Version, "x");
    assert_eq!(input.step(&typed("\u{663}7x")), ChoiceResult::Continue);
    assert_eq!(input.output(), "\u{663}7");
}

#[test]
fn backspace_removes_last_character() {
    let mut input = TextInput::new(TextInputType::String, "x");
    let mut keys = typed("abc");
    keys.push(Key::Backspace);
    assert_eq!(input.step(&keys), ChoiceResult::Continue);
    assert_eq!(input.output(), "ab");
    assert_eq!(input.cursor_offset(), 2);
}

#[test]
fn backspace_on_empty_field_is_harmless() {
    let mut input = TextInput::new(TextInputType::String, "x");
    assert_eq!(input.step(&vec![Key::Backspace, Key::Backspace]), ChoiceResult::Continue);
    assert_eq!(input.output(), "");
    assert_eq!(input.cursor_offset(), 0);
}

#[test]
fn keys_after_enter_are_not_taken() {
    let mut input = TextInput::new(TextInputType::String, "x");
    let keys = vec![Key::Char('a'), Key::Enter, Key::Char('b')];
    assert_eq!(input.step(&keys), ChoiceResult::Remove);
    assert_eq!(input.output(), "a");
}

#[test]
fn text_keys_over_two_ticks_keep_order() {
    let mut input = TextInput::new(TextInputType::String, "x");
    input.step(&typed("ab"));
    input.step(&typed("cd"));
    assert_eq!(input.output(), "abcd");
}

#[test]
fn title_is_kept() {
    let input = TextInput::new(TextInputType::String, "Postfix: ");
    assert_eq!(input.title(), "Postfix: ");
}

#[test]
fn accepts_follows_field_type() {
    assert!(accepts(TextInputType::String, 'a', false));
    assert!(!accepts(TextInputType::Version, 'a', false));
    assert!(accepts(TextInputType::Version, '.', false));
    assert!(accepts(TextInputType::Version, '7', true));
}

fn abc() -> EnumInput {
    EnumInput::new(vec!["a".to_string(), "b".to_string(), "c".to_string()], "pick")
}

#[test]
fn choice_down_twice_then_enter() {
    let mut input = abc();
    assert_eq!(input.step(&vec![Key::Down, Key::Down, Key::Enter]), ChoiceResult::Remove);
    assert_eq!(input.output(), 2);
}

#[test]
fn choice_up_at_top_stays() {
    let mut input = abc();
    assert_eq!(input.step(&vec![Key::Up]), ChoiceResult::Continue);
    assert_eq!(input.selected(), 0);
}

#[test]
fn choice_down_at_bottom_is_clamped() {
    let mut input = abc();
    input.step(&vec![Key::Down, Key::Down]);
    assert_eq!(input.selected(), 2);
    assert_eq!(input.step(&vec![Key::Down]), ChoiceResult::Continue);
    assert_eq!(input.selected(), 2);
    assert_eq!(input.step(&vec![Key::Enter]), ChoiceResult::Remove);
    assert_eq!(input.output(), 2);
}

#[test]
fn choice_enter_past_bottom_in_one_tick_is_clamped() {
    let mut input = abc();
    input.step(&vec![Key::Down, Key::Down, Key::Down, Key::Down, Key::Enter]);
    assert_eq!(input.output(), 2);
}

#[test]
fn choice_moves_within_a_tick_in_order() {
    let mut input = abc();
    input.step(&vec![Key::Down, Key::Down, Key::Up]);
    assert_eq!(input.selected(), 1);
}

#[test]
fn choice_on_empty_list_stays_at_zero() {
    let mut input = EnumInput::new(Vec::new(), "none");
    assert_eq!(input.step(&vec![Key::Down, Key::Enter]), ChoiceResult::Remove);
    assert_eq!(input.output(), 0);
}

#[test]
fn choice_keeps_choices_and_title() {
    let input = abc();
    assert_eq!(input.choices().len(), 3);
    assert_eq!(input.title(), "pick");
}
