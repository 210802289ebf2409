use rstype::keycheck::{
    get_key_mapping, is_backspace, is_ctrl_backspace, is_ctrl_c, is_ctrl_t, is_enter, is_escape,
    is_printable, is_resize, is_tab, is_valid_initial_key, Input,
};

#[test]
fn escape_is_the_exit_key() {
    assert!(is_escape(&Input::KeyExit));
    assert!(!is_escape(&Input::Character('\u{1b}')));
    assert!(!is_escape(&Input::KeyEnter));
}

#[test]
fn control_characters_are_told_apart() {
    assert!(is_ctrl_c(&Input::Character('\x03')));
    assert!(!is_ctrl_c(&Input::Character('c')));
    assert!(is_ctrl_t(&Input::Character('\x14')));
    assert!(!is_ctrl_t(&Input::KeyOther));
    assert!(is_tab(&Input::Character('\t')));
    assert!(!is_tab(&Input::Character(' ')));
    assert!(is_ctrl_backspace(&Input::Character('\x17')));
    assert!(!is_ctrl_backspace(&Input::KeyBackspace));
}

#[test]
fn backspace_is_the_key_or_the_character() {
    assert!(is_backspace(&Input::KeyBackspace));
    assert!(is_backspace(&Input::Character('\x7f')));
    assert!(!is_backspace(&Input::Character('\x08')));
    assert!(!is_backspace(&Input::KeyLeft));
}

#[test]
fn enter_and_resize_are_keys() {
    assert!(is_enter(&Input::KeyEnter));
    assert!(!is_enter(&Input::Character('\n')));
    assert!(is_resize(&Input::KeyResize));
    assert!(!is_resize(&Input::KeyOther));
}

#[test]
fn alphabetic_characters_start_the_timer() {
    assert!(is_valid_initial_key(&Input::Character('a')));
    assert!(is_valid_initial_key(&Input::Character('Z')));
    assert!(is_valid_initial_key(&Input::Character('é')));
    assert!(!is_valid_initial_key(&Input::Character('1')));
    assert!(!is_valid_initial_key(&Input::Character(' ')));
    assert!(!is_valid_initial_key(&Input::Character('\x03')));
    assert!(!is_valid_initial_key(&Input::KeyEnter));
    assert!(!is_valid_initial_key(&Input::KeyResize));
}

#[test]
fn control_codes_are_not_printable() {
    assert!(is_printable('a'));
    assert!(is_printable(' '));
    assert!(is_printable('~'));
    assert!(is_printable('é'));
    assert!(is_printable('\u{a0}'));
    assert!(!is_printable('\x00'));
    assert!(!is_printable('\x1f'));
    assert!(!is_printable('\x7f'));
    assert!(!is_printable('\u{80}'));
    assert!(!is_printable('\u{9f}'));
    assert!(!is_printable('\t'));
}

#[test]
fn keys_are_mapped_to_text() {
    assert_eq!(get_key_mapping(&Input::Character('a')), "a");
    assert_eq!(get_key_mapping(&Input::Character('é')), "é");
    assert_eq!(get_key_mapping(&Input::KeyEnter), "KeyEnter");
    assert_eq!(get_key_mapping(&Input::KeyLeft), "KeyLeft");
    assert_eq!(get_key_mapping(&Input::KeyRight), "KeyRight");
    assert_eq!(get_key_mapping(&Input::KeyBackspace), "KeyBackspace");
    assert_eq!(get_key_mapping(&Input::KeyExit), "KeyExit");
    assert_eq!(get_key_mapping(&Input::KeyResize), "KeyResize");
    assert_eq!(get_key_mapping(&Input::KeyOther), "KeyOther");
}
