use lecto::prompt::is_control;
use lecto::{Key, Prompt};

fn feed_all(prompt: &mut Prompt, keys: &[Key]) -> Vec<bool> {
    keys.iter().map(|key| prompt.feed(*key)).collect()
}

#[test]
fn a_new_prompt_has_no_text_and_no_answer() {
    let prompt = Prompt::new();
    assert_eq!(prompt.text(), "");
    assert_eq!(prompt.answer(), None);
}

#[test]
fn characters_are_added_until_enter() {
    let mut prompt = Prompt::new();
    let done = feed_all(&mut prompt, &[Key::Char('a'), Key::Char('é'), Key::Char('\n')]);
    assert_eq!(done, vec![false, false, true]);
    assert_eq!(prompt.text(), "aé");
    assert_eq!(prompt.answer(), Some("aé".to_string()));
}

#[test]
fn backspace_takes_the_last_character_off() {
    let mut prompt = Prompt::new();
    assert!(!prompt.feed(Key::Backspace));
    assert_eq!(prompt.text(), "");
    feed_all(&mut prompt, &[Key::Char('a'), Key::Char('b'), Key::Backspace]);
    assert_eq!(prompt.text(), "a");
    feed_all(&mut prompt, &[Key::Char('❤'), Key::Backspace, Key::Backspace, Key::Backspace]);
    assert_eq!(prompt.text(), "");
}

#[test]
fn escape_throws_the_answer_away() {
    let mut prompt = Prompt::new();
    feed_all(&mut prompt, &[Key::Char('a'), Key::Char('b')]);
    assert!(prompt.feed(Key::Esc));
    assert_eq!(prompt.text(), "");
    assert_eq!(prompt.answer(), None);
}

#[test]
fn control_characters_and_other_keys_are_passed_over() {
    let mut prompt = Prompt::new();
    let done = feed_all(
        &mut prompt,
        &[
            Key::Char('a'),
            Key::Char('\t'),
            Key::Char('\r'),
            Key::Char('\u{7f}'),
            Key::Char('\u{9f}'),
            Key::Up,
            Key::Ctrl('q'),
            Key::Delete,
            Key::Other,
            Key::Char(' '),
            Key::Char('\u{a0}'),
        ],
    );
    assert!(done.iter().all(|done| !done));
    assert_eq!(prompt.text(), "a \u{a0}");
}

#[test]
fn enter_alone_gives_no_answer() {
    let mut prompt = Prompt::new();
    assert!(prompt.feed(Key::Char('\n')));
    assert_eq!(prompt.answer(), None);
}

#[test]
fn is_control_agrees_with_the_standard_library() {
    for code in 0..=0x10ffffu32 {
        if let Some(c) = char::from_u32(code) {
            assert_eq!(is_control(c), c.is_control(), "for U+{:04X}", code);
        }
    }
}
