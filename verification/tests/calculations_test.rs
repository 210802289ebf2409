use rstype::calculations::{
    accuracy, first_index_at_which_strings_differ, get_space_count_after_ith_word,
    number_of_lines_to_fit_text_in_window, speed_in_wpm, word_wrap, words_per_minute,
    wrongly_typed_chars,
};
use rstype::timer::get_elapsed_minutes_since_first_keypress;
use rstype::AppError;

#[test]
fn equal_strings_differ_at_their_length() {
    assert_eq!(first_index_at_which_strings_differ("hello", "hello"), 5);
    assert_eq!(first_index_at_which_strings_differ("", ""), 0);
}

#[test]
fn empty_string_differs_at_zero() {
    assert_eq!(first_index_at_which_strings_differ("", "hello"), 0);
    assert_eq!(first_index_at_which_strings_differ("hello", ""), 0);
}

#[test]
fn single_difference_is_found() {
    assert_eq!(first_index_at_which_strings_differ("hello", "hallo"), 1);
    assert_eq!(first_index_at_which_strings_differ("hello", "hellp"), 4);
    assert_eq!(first_index_at_which_strings_differ("xello", "hello"), 0);
}

#[test]
fn prefix_differs_at_the_shorter_length() {
    assert_eq!(first_index_at_which_strings_differ("hel", "hello"), 3);
    assert_eq!(first_index_at_which_strings_differ("hello", "hel"), 3);
}

#[test]
fn difference_is_counted_in_characters() {
    // two bytes each, one character each
    assert_eq!(first_index_at_which_strings_differ("ééa", "ééb"), 2);
}

#[test]
fn lines_are_rounded_up() {
    assert_eq!(number_of_lines_to_fit_text_in_window("", 10), 0);
    assert_eq!(number_of_lines_to_fit_text_in_window("a", 10), 1);
    assert_eq!(number_of_lines_to_fit_text_in_window("0123456789", 10), 1);
    assert_eq!(number_of_lines_to_fit_text_in_window("0123456789a", 10), 2);
    assert_eq!(number_of_lines_to_fit_text_in_window("0123456789", 3), 4);
}

#[test]
fn spaces_after_a_word_are_counted() {
    assert_eq!(get_space_count_after_ith_word(5, "hello   world"), 3);
    assert_eq!(get_space_count_after_ith_word(5, "hello world"), 1);
    assert_eq!(get_space_count_after_ith_word(0, "hello world"), 0);
    assert_eq!(get_space_count_after_ith_word(11, "hello world"), 0);
    assert_eq!(get_space_count_after_ith_word(40, "hello world"), 0);
    assert_eq!(get_space_count_after_ith_word(5, "hello   "), 3);
}

#[test]
fn short_text_is_not_wrapped() {
    assert_eq!(word_wrap("the cat sat", 80).unwrap(), "the cat sat");
    assert_eq!(word_wrap("", 80).unwrap(), "");
    assert_eq!(word_wrap("", 1).unwrap(), "");
}

#[test]
fn words_are_pushed_to_the_next_line() {
    assert_eq!(word_wrap("hello world foo", 8).unwrap(), "hello   world   foo");
}

#[test]
fn line_that_ends_in_a_space_is_left_alone() {
    assert_eq!(word_wrap("the quick brown fox", 10).unwrap(), "the quick brown fox");
}

#[test]
fn wrapping_again_with_the_same_width_changes_nothing() {
    let once = word_wrap("hello world foo bar baz qux", 8).unwrap();
    let twice = word_wrap(&once, 8).unwrap();
    assert_eq!(once, twice);
}

#[test]
fn every_line_of_wrapped_text_ends_in_a_space() {
    let width = 8;
    let wrapped = word_wrap("hello world foo bar baz qux", width).unwrap();
    let cells: Vec<char> = wrapped.chars().collect();
    let mut boundary = width as usize;
    while boundary < cells.len() {
        assert_eq!(cells[boundary - 1], ' ');
        boundary += width as usize;
    }
}

#[test]
fn word_wider_than_the_window_cannot_be_wrapped() {
    assert!(matches!(
        word_wrap("abcdefghij klm", 5),
        Err(AppError::NoCharFoundError(' '))
    ));
}

#[test]
fn width_must_be_positive() {
    assert!(matches!(word_wrap("hello", 0), Err(AppError::InvalidWidthError(0))));
    assert!(matches!(word_wrap("hello", -3), Err(AppError::InvalidWidthError(-3))));
}

#[test]
fn elapsed_minutes_are_micros_over_sixty_million() {
    let elapsed = get_elapsed_minutes_since_first_keypress(1_000_000, 31_000_000).unwrap();
    assert_eq!(elapsed.numerator, 30_000_000);
    assert_eq!(elapsed.denominator, 60_000_000);
}

#[test]
fn clock_that_went_backward_is_an_error() {
    assert!(matches!(
        get_elapsed_minutes_since_first_keypress(5_000, 2_000),
        Err(AppError::TimeError(3_000))
    ));
    assert!(matches!(speed_in_wpm(3, 5_000, 2_000), Err(AppError::TimeError(3_000))));
}

#[test]
fn speed_is_words_over_minutes() {
    // 30 words in half a minute: 60 words per minute
    let speed = speed_in_wpm(30, 0, 30_000_000).unwrap();
    assert_eq!(speed.numerator, 60 * speed.denominator as u128);
}

#[test]
fn speed_is_zero_while_no_time_has_passed() {
    let speed = speed_in_wpm(30, 7, 7).unwrap();
    assert_eq!(speed.numerator, 0);
    assert_eq!(speed.denominator, 1);
}

#[test]
fn speed_grows_in_proportion_to_words() {
    let one = words_per_minute(7, 123_456);
    let three = words_per_minute(21, 123_456);
    assert_eq!(three.numerator, 3 * one.numerator);
    assert_eq!(three.denominator, one.denominator);
}

#[test]
fn accuracy_is_the_share_of_right_characters() {
    let percent = accuracy(200, 50);
    // 75 percent
    assert_eq!(percent.numerator, 75 * percent.denominator as u128);
}

#[test]
fn accuracy_is_full_only_without_errors() {
    let full = accuracy(11, 0);
    assert_eq!(full.numerator, 100 * full.denominator as u128);
    let less = accuracy(11, 1);
    assert!(less.numerator < 100 * less.denominator as u128);
}

#[test]
fn accuracy_with_nothing_typed_is_full() {
    let percent = accuracy(0, 0);
    assert_eq!(percent.numerator, 100);
    assert_eq!(percent.denominator, 1);
}

#[test]
fn accuracy_with_more_wrong_than_typed_is_zero() {
    let percent = accuracy(3, 5);
    assert_eq!(percent.numerator, 0);
    assert_eq!(percent.denominator, 3);
}

#[test]
fn characters_beyond_the_text_are_wrong() {
    assert_eq!(wrongly_typed_chars(15, 11), 4);
    assert_eq!(wrongly_typed_chars(11, 11), 0);
    assert_eq!(wrongly_typed_chars(3, 11), 0);
}
