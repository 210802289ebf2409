use rstype::app::{cell_of_index, App, Color};
use rstype::keycheck::Input;
use rstype::replay::interrupts_replay;
use rstype::session::{Action, Mode};
use rstype::AppError;

const HEIGHT: i32 = 40;
const WIDTH: i32 = 80;

fn session_on(text: &str) -> App {
    let mut app = App::from_prepared_text((text.to_string(), "1".to_string()));
    app.initialize_windows(HEIGHT, WIDTH).unwrap();
    app
}

/// Types `keys`, one every 100 ms from time `from` on; returns the actions.
fn type_from(app: &mut App, keys: &str, from: u64) -> Vec<Action> {
    let mut actions = Vec::new();
    let mut now: u64 = from;
    for c in keys.chars() {
        actions.push(app.handle_key(Input::Character(c), now, HEIGHT, WIDTH).unwrap());
        now += 100_000;
    }
    actions
}

fn type_text(app: &mut App, keys: &str) -> Vec<Action> {
    type_from(app, keys, 1_000_000)
}

#[test]
fn text_is_split_into_words_and_joined_again() {
    let app = App::from_prepared_text(("  the   cat\nsat\t".to_string(), "7".to_string()));
    assert_eq!(app.text(), "the cat sat");
    assert_eq!(app.text_backup(), "the cat sat");
    assert_eq!(app.token_count(), 3);
    assert_eq!(app.token(0).unwrap(), "the");
    assert_eq!(app.token(1).unwrap(), "cat");
    assert_eq!(app.token(2).unwrap(), "sat");
    assert!(app.token(3).is_none());
    assert_eq!(app.text_id().as_str(), "7");
    assert_eq!(app.current_word_limit(), 8);
    assert_eq!(app.mode(), Mode::Typing);
    assert!(!app.first_key_pressed());
    assert_eq!(app.token_index(), 0);
}

#[test]
fn text_without_words_has_the_smallest_limit() {
    let app = App::from_prepared_text((" \n ".to_string(), "7".to_string()));
    assert_eq!(app.text(), "");
    assert_eq!(app.token_count(), 0);
    assert_eq!(app.current_word_limit(), 5);
}

#[test]
fn exact_typing_finishes_with_full_accuracy() {
    let mut app = session_on("the cat sat");
    let actions = type_text(&mut app, "the cat sat");
    assert_eq!(app.mode(), Mode::Finished);
    let speed = app.current_speed_wpm();
    assert!(speed.numerator > 0);
    let accuracy = app.accuracy();
    assert_eq!(accuracy.numerator, 100 * accuracy.denominator as u128);
    assert!(app.mistyped_keys().is_empty());
    assert_eq!(actions.iter().filter(|a| **a == Action::SaveHistory).count(), 1);
    assert_eq!(actions[actions.len() - 1], Action::SaveHistory);
    assert!(actions[..actions.len() - 1].iter().all(|a| *a == Action::Redraw));
    assert_eq!(app.current_string(), "the cat sat");
    // every word but the last is accepted on the space after it
    assert_eq!(app.token_index(), 2);
    assert_eq!(app.total_chars_typed(), 11);
    assert!(app.test_complete());
    // 3 words in 1 second
    assert_eq!(speed.numerator, 3 * 60_000_000);
    assert_eq!(speed.denominator, 1_000_000);
    let minutes = app.time_taken();
    assert_eq!(minutes.numerator, 1_000_000);
    assert_eq!(minutes.denominator, 60_000_000);
}

#[test]
fn recorded_times_become_times_between_keys() {
    let mut app = session_on("ab");
    app.handle_key(Input::Character('a'), 5_000_000, HEIGHT, WIDTH).unwrap();
    assert_eq!(app.key_strokes(), &vec![(5_000_000, Input::Character('a'))]);
    assert_eq!(app.start_time(), 5_000_000);
    app.handle_key(Input::KeyOther, 5_250_000, HEIGHT, WIDTH).unwrap();
    app.handle_key(Input::Character('b'), 5_900_000, HEIGHT, WIDTH).unwrap();
    assert_eq!(app.mode(), Mode::Finished);
    assert_eq!(
        app.key_strokes(),
        &vec![
            (0, Input::Character('a')),
            (250_000, Input::KeyOther),
            (650_000, Input::Character('b')),
        ]
    );
}

#[test]
fn typo_in_first_word_is_not_matched() {
    let mut app = session_on("the cat sat");
    type_text(&mut app, "teh ");
    assert_eq!(app.token_index(), 0);
    assert_eq!(app.current_word(), "teh ");
    assert_eq!(app.current_string(), "teh ");
    assert!(!app.mistyped_keys().is_empty());
    assert_eq!(app.mistyped_keys(), &vec![1, 2, 3]);
    assert_eq!(app.diff_index(), 1);
    assert_eq!(app.mode(), Mode::Typing);
    // a right word after the wrong one is held against the same word
    type_from(&mut app, "cat ", 2_000_000);
    assert_eq!(app.token_index(), 0);
    assert_eq!(app.current_word(), "teh cat ");
    // the limit: the longest word and 5 more
    type_from(&mut app, "sat", 3_000_000);
    assert_eq!(app.current_word(), "teh cat ");
    assert_eq!(app.total_chars_typed(), 8);
    // erase all of it and type the text as it is
    let mut now: u64 = 4_000_000;
    for _ in 0..8 {
        app.handle_key(Input::KeyBackspace, now, HEIGHT, WIDTH).unwrap();
        now += 1;
    }
    assert_eq!(app.current_string(), "");
    type_from(&mut app, "the cat sat", 5_000_000);
    assert_eq!(app.mode(), Mode::Finished);
    let accuracy = app.accuracy();
    assert!(accuracy.numerator < 100 * accuracy.denominator as u128);
    assert_eq!(app.total_chars_typed(), 19);
    assert_eq!(accuracy.numerator, 11 * 100);
    assert_eq!(accuracy.denominator, 19);
    assert!(!app.mistyped_keys().is_empty());
}

#[test]
fn padding_of_the_wrapped_text_is_typed_with_one_space() {
    let mut app = App::from_prepared_text(("hello world foo".to_string(), "1".to_string()));
    app.initialize_windows(HEIGHT, 8).unwrap();
    assert_eq!(app.text(), "hello   world   foo");
    assert_eq!(app.text_backup(), "hello world foo");
    assert_eq!(app.number_of_lines_to_print_text(), 3 + 3);
    let mut now = 0;
    for c in "hello ".chars() {
        app.handle_key(Input::Character(c), now, HEIGHT, 8).unwrap();
        now += 10;
    }
    assert_eq!(app.current_string(), "hello   ");
    assert_eq!(app.current_word(), "");
    assert_eq!(app.token_index(), 1);
    for c in "world foo".chars() {
        app.handle_key(Input::Character(c), now, HEIGHT, 8).unwrap();
        now += 10;
    }
    assert_eq!(app.mode(), Mode::Finished);
    assert_eq!(app.current_string(), "hello   world   foo");
    assert_eq!(app.total_chars_typed(), 15);
    let accuracy = app.accuracy();
    assert_eq!(accuracy.numerator, 100 * accuracy.denominator as u128);
}

#[test]
fn timer_starts_with_an_alphabetic_character() {
    let mut app = session_on("1 the");
    assert_eq!(type_text(&mut app, "1 "), vec![Action::Redraw, Action::Redraw]);
    assert!(!app.first_key_pressed());
    assert_eq!(app.current_string(), "");
    assert!(app.key_strokes().is_empty());
    assert_eq!(app.total_chars_typed(), 0);
    type_text(&mut app, "t1");
    assert!(app.first_key_pressed());
    assert_eq!(app.current_string(), "t1");
    assert_eq!(app.start_time(), 1_000_000);
}

#[test]
fn leading_spaces_are_ignored_but_counted() {
    let mut app = session_on("the cat");
    type_text(&mut app, "the ");
    assert_eq!(app.total_chars_typed(), 4);
    type_from(&mut app, "  ", 2_000_000);
    assert_eq!(app.current_string(), "the ");
    assert_eq!(app.current_word(), "");
    assert_eq!(app.total_chars_typed(), 6);
    assert_eq!(app.token_index(), 1);
}

#[test]
fn characters_beyond_the_limit_are_dropped() {
    let mut app = session_on("ab");
    assert_eq!(app.current_word_limit(), 7);
    type_text(&mut app, "xxxxxxxxx ");
    assert_eq!(app.current_word(), "xxxxxxx");
    assert_eq!(app.current_string(), "xxxxxxx");
    assert_eq!(app.total_chars_typed(), 7);
    assert_eq!(app.key_strokes().len(), 10);
}

#[test]
fn control_codes_are_not_typed() {
    let mut app = session_on("ab cd");
    type_text(&mut app, "a\u{1}\u{1b}\n");
    assert_eq!(app.current_string(), "a");
    assert_eq!(app.total_chars_typed(), 1);
    assert_eq!(app.key_strokes().len(), 4);
}

#[test]
fn backspace_erases_one_character() {
    let mut app = session_on("the cat");
    type_text(&mut app, "thx");
    app.handle_key(Input::KeyBackspace, 2_000_000, HEIGHT, WIDTH).unwrap();
    assert_eq!(app.current_word(), "th");
    assert_eq!(app.current_string(), "th");
    app.handle_key(Input::Character('\x7f'), 2_000_001, HEIGHT, WIDTH).unwrap();
    assert_eq!(app.current_word(), "t");
    type_from(&mut app, "he ", 3_000_000);
    assert_eq!(app.token_index(), 1);
    // nothing of an accepted word can be erased
    app.handle_key(Input::KeyBackspace, 4_000_000, HEIGHT, WIDTH).unwrap();
    assert_eq!(app.current_string(), "the ");
    assert_eq!(app.total_chars_typed(), 6);
}

#[test]
fn word_erase_cuts_back_to_the_last_space() {
    let mut app = session_on("the cat sat");
    type_text(&mut app, "teh ca");
    assert_eq!(app.current_word(), "teh ca");
    app.handle_key(Input::Character('\x17'), 2_000_000, HEIGHT, WIDTH).unwrap();
    assert_eq!(app.current_word(), "teh");
    assert_eq!(app.current_string(), "teh");
    app.handle_key(Input::Character('\x17'), 2_000_001, HEIGHT, WIDTH).unwrap();
    assert_eq!(app.current_word(), "");
    assert_eq!(app.current_string(), "");
    app.handle_key(Input::Character('\x17'), 2_000_002, HEIGHT, WIDTH).unwrap();
    assert_eq!(app.current_string(), "");
}

#[test]
fn word_erase_leaves_accepted_words() {
    let mut app = session_on("the cat sat");
    type_text(&mut app, "the ca");
    app.handle_key(Input::Character('\x17'), 2_000_000, HEIGHT, WIDTH).unwrap();
    assert_eq!(app.current_word(), "");
    assert_eq!(app.current_string(), "the ");
    assert_eq!(app.token_index(), 1);
}

#[test]
fn escape_starts_the_run_anew() {
    let mut app = session_on("the cat sat");
    type_text(&mut app, "the cx");
    let action = app.handle_key(Input::KeyExit, 3_000_000, HEIGHT, WIDTH).unwrap();
    assert_eq!(action, Action::Redraw);
    assert_eq!(app.mode(), Mode::Typing);
    assert!(!app.first_key_pressed());
    assert_eq!(app.current_string(), "");
    assert_eq!(app.current_word(), "");
    assert_eq!(app.token_index(), 0);
    assert_eq!(app.total_chars_typed(), 0);
    assert!(app.key_strokes().is_empty());
    assert!(app.mistyped_keys().is_empty());
    assert_eq!(app.text(), "the cat sat");
    let actions = type_from(&mut app, "the cat sat", 4_000_000);
    assert_eq!(actions[10], Action::SaveHistory);
    let accuracy = app.accuracy();
    assert_eq!(accuracy.numerator, 100 * accuracy.denominator as u128);
}

#[test]
fn interrupt_ends_the_program() {
    let mut app = session_on("the cat sat");
    assert_eq!(
        app.handle_key(Input::Character('\x03'), 1, HEIGHT, WIDTH).unwrap(),
        Action::Exit
    );
    type_text(&mut app, "th");
    assert_eq!(
        app.handle_key(Input::Character('\x03'), 2_000_000, HEIGHT, WIDTH).unwrap(),
        Action::Exit
    );
    assert_eq!(app.current_string(), "th");
    assert_eq!(app.key_strokes().len(), 2);
}

#[test]
fn keys_before_the_first_character() {
    let mut app = session_on("the cat sat");
    assert_eq!(
        app.handle_key(Input::Character('\u{1b}'), 1, HEIGHT, WIDTH).unwrap(),
        Action::Exit
    );
    assert_eq!(app.handle_key(Input::KeyLeft, 2, HEIGHT, WIDTH).unwrap(), Action::SwitchText(-1));
    assert_eq!(app.handle_key(Input::KeyRight, 3, HEIGHT, WIDTH).unwrap(), Action::SwitchText(1));
    assert_eq!(app.handle_key(Input::KeyEnter, 4, HEIGHT, WIDTH).unwrap(), Action::Redraw);
    assert!(!app.first_key_pressed());
    type_text(&mut app, "t");
    // while typing the arrows do nothing
    assert_eq!(
        app.handle_key(Input::KeyLeft, 2_000_000, HEIGHT, WIDTH).unwrap(),
        Action::Redraw
    );
    assert_eq!(app.current_string(), "t");
}

#[test]
fn clock_that_goes_backward_fails_and_changes_nothing() {
    let mut app = session_on("the cat sat");
    type_text(&mut app, "th");
    let result = app.handle_key(Input::Character('e'), 1_099_000, HEIGHT, WIDTH);
    assert!(matches!(result, Err(AppError::TimeError(1_000))));
    assert_eq!(app.current_string(), "th");
    assert_eq!(app.key_strokes().len(), 2);
    assert_eq!(app.total_chars_typed(), 2);
    // the same time as the key before is no error
    app.handle_key(Input::Character('e'), 1_100_000, HEIGHT, WIDTH).unwrap();
    assert_eq!(app.current_string(), "the");
}

#[test]
fn resize_wraps_the_text_as_typed() {
    let mut app = App::from_prepared_text(("hello world foo".to_string(), "1".to_string()));
    app.initialize_windows(HEIGHT, 8).unwrap();
    assert_eq!(app.text(), "hello   world   foo");
    type_text(&mut app, "hel");
    app.handle_key(Input::KeyResize, 2_000_000, HEIGHT, 12).unwrap();
    assert_eq!(app.text(), "hello world foo");
    assert_eq!(app.window_width(), 12);
    assert_eq!(app.window_height(), HEIGHT);
    assert_eq!(app.number_of_lines_to_print_text(), 2 + 3);
    assert_eq!(app.current_string(), "hel");
    assert_eq!(app.current_word(), "hel");
    app.handle_key(Input::KeyResize, 2_000_001, HEIGHT, 6).unwrap();
    assert_eq!(app.text(), "hello world foo   ".trim_end());
    assert_eq!(app.text(), "hello world foo");
}

#[test]
fn resize_before_typing_is_not_recorded() {
    let mut app = session_on("hello world foo");
    app.handle_key(Input::KeyResize, 5, HEIGHT, 8).unwrap();
    assert_eq!(app.text(), "hello   world   foo");
    assert!(app.key_strokes().is_empty());
    assert!(!app.first_key_pressed());
}

#[test]
fn resize_that_fails_changes_nothing() {
    let mut app = session_on("hello world foo");
    type_text(&mut app, "he");
    let narrow = app.handle_key(Input::KeyResize, 2_000_000, HEIGHT, 3);
    assert!(matches!(narrow, Err(AppError::NoCharFoundError(' '))));
    let low = app.handle_key(Input::KeyResize, 2_000_000, 11, WIDTH);
    assert!(matches!(low, Err(AppError::WindowTooSmallError)));
    let none = app.handle_key(Input::KeyResize, 2_000_000, HEIGHT, 0);
    assert!(matches!(none, Err(AppError::InvalidWidthError(0))));
    assert_eq!(app.text(), "hello world foo");
    assert_eq!(app.window_width(), WIDTH);
    assert_eq!(app.key_strokes().len(), 2);
    assert_eq!(app.current_string(), "he");
}

#[test]
fn window_needs_lines_for_the_text() {
    let mut app = App::from_prepared_text(("the cat sat".to_string(), "1".to_string()));
    // 1 line of text, 3 around it, 7 below it
    assert!(matches!(app.initialize_windows(11, 80), Err(AppError::WindowTooSmallError)));
    assert!(app.initialize_windows(12, 80).is_ok());
    assert_eq!(app.number_of_lines_to_print_text(), 4);
}

#[test]
fn finished_session_takes_commands() {
    let mut app = session_on("ab");
    type_text(&mut app, "ab");
    assert_eq!(app.mode(), Mode::Finished);
    assert_eq!(app.handle_key(Input::Character('x'), 9_000_000, HEIGHT, WIDTH).unwrap(), Action::Redraw);
    assert_eq!(app.current_string(), "ab");
    assert_eq!(app.handle_key(Input::KeyEnter, 9_000_000, HEIGHT, WIDTH).unwrap(), Action::Replay);
    assert_eq!(
        app.handle_key(Input::Character('\x14'), 9_000_000, HEIGHT, WIDTH).unwrap(),
        Action::Share
    );
    assert_eq!(app.handle_key(Input::KeyLeft, 9_000_000, HEIGHT, WIDTH).unwrap(), Action::SwitchText(-1));
    assert_eq!(
        app.handle_key(Input::Character('\u{1b}'), 9_000_000, HEIGHT, WIDTH).unwrap(),
        Action::Exit
    );
    assert_eq!(app.mode(), Mode::Finished);
    assert_eq!(
        app.handle_key(Input::Character('\t'), 9_000_000, HEIGHT, WIDTH).unwrap(),
        Action::Redraw
    );
    assert_eq!(app.mode(), Mode::Typing);
    assert_eq!(app.current_string(), "");
    assert!(!app.test_complete());
    assert_eq!(app.current_speed_wpm().numerator, 0);
    // the retry is a run of its own, which hands out its own result
    let actions = type_from(&mut app, "ab", 10_000_000);
    assert_eq!(actions, vec![Action::Redraw, Action::SaveHistory]);
}

#[test]
fn replay_reproduces_the_run() {
    let mut app = session_on("the cat sat");
    assert!(app.replay().is_none());
    type_text(&mut app, "teh");
    app.handle_key(Input::KeyBackspace, 1_350_000, HEIGHT, WIDTH).unwrap();
    app.handle_key(Input::KeyBackspace, 1_400_000, HEIGHT, WIDTH).unwrap();
    type_from(&mut app, "he cat sat", 1_500_000);
    assert_eq!(app.mode(), Mode::Finished);

    let mut replay = app.replay().unwrap();
    assert_eq!(replay.session().current_string(), "");
    assert_eq!(replay.session().mode(), Mode::Typing);
    let mut delays = Vec::new();
    let mut actions = Vec::new();
    while let Some(delay) = replay.next_delay() {
        delays.push(delay);
        actions.push(replay.step(HEIGHT, WIDTH).unwrap().unwrap());
    }
    assert_eq!(replay.step(HEIGHT, WIDTH).unwrap(), None);
    assert_eq!(delays.len(), 15);
    assert_eq!(&delays[..6], &[0, 100_000, 100_000, 150_000, 50_000, 100_000]);
    assert_eq!(actions[14], Action::SaveHistory);
    assert_eq!(actions.iter().filter(|a| **a == Action::SaveHistory).count(), 1);

    let replayed = replay.session();
    assert_eq!(replayed.mode(), Mode::Finished);
    assert_eq!(replayed.current_string(), app.current_string());
    assert_eq!(replayed.mistyped_keys(), app.mistyped_keys());
    assert_eq!(replayed.key_strokes(), app.key_strokes());
    assert_eq!(replayed.current_speed_wpm().numerator, app.current_speed_wpm().numerator);
    assert_eq!(replayed.current_speed_wpm().denominator, app.current_speed_wpm().denominator);
    assert_eq!(replayed.accuracy().numerator, app.accuracy().numerator);
    assert_eq!(replayed.accuracy().denominator, app.accuracy().denominator);
    assert_eq!(replayed.time_taken().numerator, app.time_taken().numerator);
    assert_eq!(replayed.total_chars_typed(), app.total_chars_typed());
    assert_eq!(replayed.start_time(), 0);
    // the session that was replayed is as it was
    assert_eq!(app.current_string(), "the cat sat");
}

#[test]
fn escape_and_interrupt_end_a_replay() {
    assert!(interrupts_replay(&Input::KeyExit));
    assert!(interrupts_replay(&Input::Character('\x03')));
    assert!(!interrupts_replay(&Input::Character('a')));
    assert!(!interrupts_replay(&Input::KeyEnter));
}

#[test]
fn mismatch_is_noted_once_for_each_position() {
    let mut app = session_on("abc def");
    type_text(&mut app, "ax");
    assert_eq!(app.mistyped_keys(), &vec![1]);
    app.handle_key(Input::KeyBackspace, 2_000_000, HEIGHT, WIDTH).unwrap();
    assert_eq!(app.mistyped_keys(), &vec![1]);
    type_from(&mut app, "y", 3_000_000);
    assert_eq!(app.mistyped_keys(), &vec![1]);
    type_from(&mut app, "z", 4_000_000);
    assert_eq!(app.mistyped_keys(), &vec![1, 2]);
    assert_eq!(app.diff_index(), 1);
    assert_eq!(app.typed_end(), 3);
}

#[test]
fn text_can_be_switched() {
    let mut app = session_on("the cat sat");
    type_text(&mut app, "the");
    app.switch_text(("one  two".to_string(), "2".to_string())).unwrap();
    assert_eq!(app.text(), "one two");
    assert_eq!(app.text_id().as_str(), "2");
    assert_eq!(app.token_count(), 2);
    assert_eq!(app.current_string(), "");
    assert_eq!(app.window_width(), WIDTH);
    assert!(!app.first_key_pressed());
    // a text that does not fit leaves the session as it is
    let mut narrow = App::from_prepared_text(("ab cd".to_string(), "1".to_string()));
    narrow.initialize_windows(HEIGHT, 3).unwrap();
    let failed = narrow.switch_text(("abcdef gh".to_string(), "2".to_string()));
    assert!(matches!(failed, Err(AppError::NoCharFoundError(' '))));
    assert_eq!(narrow.text_backup(), "ab cd");
    assert_eq!(narrow.text_id().as_str(), "1");
}

#[test]
fn speed_while_typing() {
    let mut app = session_on("the cat sat");
    let before = app.realtime_wpm(500).unwrap();
    assert_eq!((before.numerator, before.denominator), (0, 1));
    type_text(&mut app, "the ca");
    // 2 words begun after half a second
    let speed = app.realtime_wpm(1_500_000).unwrap();
    assert_eq!((speed.numerator, speed.denominator), (2 * 60_000_000, 500_000));
    let at_start = app.realtime_wpm(1_000_000).unwrap();
    assert_eq!((at_start.numerator, at_start.denominator), (0, 1));
    assert!(matches!(app.realtime_wpm(999_999), Err(AppError::TimeError(1))));
}

#[test]
fn result_is_shared_with_two_decimals() {
    let mut app = session_on("the cat sat");
    type_text(&mut app, "the cat sat");
    assert_eq!(
        app.share_url(),
        "https://twitter.com/intent/tweet?text=My typing speed is 180.00 WPM!\nKnow yours on rstype.\n\"https://github.com/CyberDogFK/rstype\" by @CyberDogFK\n#TypingTest #Rust"
    );
}

#[test]
fn cells_of_the_text() {
    assert_eq!(cell_of_index(0, 80), Some((2, 0)));
    assert_eq!(cell_of_index(79, 80), Some((2, 79)));
    assert_eq!(cell_of_index(80, 80), Some((3, 0)));
    assert_eq!(cell_of_index(165, 80), Some((4, 5)));
    assert_eq!(cell_of_index(5, 0), None);
    assert_eq!(cell_of_index(5, -1), None);
}

#[test]
fn colors_have_their_pairs() {
    assert_eq!(Color::Green.pair(), 1);
    assert_eq!(Color::Red.pair(), 2);
    assert_eq!(Color::Blue.pair(), 3);
    assert_eq!(Color::Yellow.pair(), 4);
    assert_eq!(Color::Cyan.pair(), 5);
    assert_eq!(Color::Magenta.pair(), 6);
    assert_eq!(Color::Black.pair(), 7);
}

#[test]
fn empty_text_is_finished_by_the_first_character() {
    let mut app = session_on("");
    let actions = type_text(&mut app, "a");
    assert_eq!(actions, vec![Action::SaveHistory]);
    assert_eq!(app.mode(), Mode::Finished);
    assert_eq!(app.current_speed_wpm().numerator, 0);
}

#[test]
fn finished_run_has_a_result() {
    let mut app = session_on("the cat sat");
    assert!(app.result().is_none());
    type_text(&mut app, "the cat sa");
    assert!(app.result().is_none());
    type_from(&mut app, "t", 2_000_000);
    let result = app.result().unwrap();
    assert_eq!(result.text_id, "1");
    assert_eq!((result.wpm.numerator, result.wpm.denominator), (3 * 60_000_000, 1_000_000));
    assert_eq!((result.accuracy.numerator, result.accuracy.denominator), (1100, 11));
    assert_eq!((result.elapsed.numerator, result.elapsed.denominator), (1_000_000, 60_000_000));
}
