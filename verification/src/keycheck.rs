use vstd::prelude::*;
use vstd::string::StringExecFns;

verus! {

/// One event of the keyboard or the terminal, as the session sees it.
#[derive(Clone, Copy, Debug, PartialEq, Eq, Structural)]
pub enum Input {
    /// A key that stands for a character.
    Character(char),
    KeyLeft,
    KeyRight,
    KeyBackspace,
    KeyEnter,
    KeyExit,
    /// The terminal was resized.
    KeyResize,
    /// Any other key; the session ignores it.
    KeyOther,
}

/// The result of `char::is_alphabetic`: whether the character has the
/// Unicode property Alphabetic.
pub uninterp spec fn is_alphabetic(c: char) -> bool;

/// Calls `char::is_alphabetic`, which tells whether a character has the
/// Unicode property Alphabetic; the answer depends on the character alone.
#[verifier::external_body]
fn char_is_alphabetic(c: char) -> (alphabetic: bool)
    ensures
        alphabetic == is_alphabetic(c),
{
    c.is_alphabetic()
}

/// A control code: one of the characters from U+0000 to U+001F and from
/// U+007F to U+009F.
pub open spec fn is_control(c: char) -> bool {
    c as u32 <= 0x1f || 0x7f <= c as u32 <= 0x9f
}

/// Detect a character that can be typed into the text: any but a control code.
pub fn is_printable(c: char) -> (printable: bool)
    ensures
        printable == !is_control(c),
{
    let code: u32 = c as u32;
    !(code <= 0x1f || (0x7f <= code && code <= 0x9f))
}

/// Detect the ESC key.
pub fn is_escape(key: &Input) -> (escape: bool)
    ensures
        escape == (*key == Input::KeyExit),
{
    matches!(key, Input::KeyExit)
}

/// Detect the interrupt key, Ctrl-C.
pub fn is_ctrl_c(key: &Input) -> (interrupt: bool)
    ensures
        interrupt == (*key == Input::Character('\x03')),
{
    match key {
        Input::Character(c) => *c == '\x03',
        _ => false,
    }
}

/// A key that starts the timer: one of an alphabetic character.
pub open spec fn starts_timer(key: Input) -> bool {
    key matches Input::Character(c) && is_alphabetic(c)
}

/// Detect if the pressed key is a valid key to start the timer.
pub fn is_valid_initial_key(key: &Input) -> (valid: bool)
    ensures
        valid == starts_timer(*key),
{
    match key {
        Input::Character(c) => char_is_alphabetic(*c),
        _ => false,
    }
}

/// Detect Ctrl-T.
pub fn is_ctrl_t(key: &Input) -> (ctrl_t: bool)
    ensures
        ctrl_t == (*key == Input::Character('\x14')),
{
    match key {
        Input::Character(c) => *c == '\x14',
        _ => false,
    }
}

/// Detect the ENTER key.
pub fn is_enter(key: &Input) -> (enter: bool)
    ensures
        enter == (*key == Input::KeyEnter),
{
    matches!(key, Input::KeyEnter)
}

/// Detect the TAB key.
pub fn is_tab(key: &Input) -> (tab: bool)
    ensures
        tab == (*key == Input::Character('\t')),
{
    match key {
        Input::Character(c) => *c == '\t',
        _ => false,
    }
}

/// Detect if the terminal was resized.
pub fn is_resize(key: &Input) -> (resize: bool)
    ensures
        resize == (*key == Input::KeyResize),
{
    matches!(key, Input::KeyResize)
}

/// A key that erases one character: the backspace key or the character DEL.
pub open spec fn erases_key(key: Input) -> bool {
    key == Input::KeyBackspace || key == Input::Character('\x7f')
}

/// Detect the BACKSPACE key.
pub fn is_backspace(key: &Input) -> (backspace: bool)
    ensures
        backspace == erases_key(*key),
{
    match key {
        Input::KeyBackspace => true,
        Input::Character(c) => *c == '\x7f',
        _ => false,
    }
}

/// Detect Ctrl-Backspace, which erases a word.
pub fn is_ctrl_backspace(key: &Input) -> (erase_word: bool)
    ensures
        erase_word == (*key == Input::Character('\x17')),
{
    match key {
        Input::Character(c) => *c == '\x17',
        _ => false,
    }
}

/// The text that stands for a key: the character itself, or the name of the key.
pub open spec fn key_mapping(key: Input) -> Seq<char> {
    match key {
        Input::Character(c) => seq![c],
        Input::KeyLeft => "KeyLeft"@,
        Input::KeyRight => "KeyRight"@,
        Input::KeyBackspace => "KeyBackspace"@,
        Input::KeyEnter => "KeyEnter"@,
        Input::KeyExit => "KeyExit"@,
        Input::KeyResize => "KeyResize"@,
        Input::KeyOther => "KeyOther"@,
    }
}

/// The text that stands for a key.
pub fn get_key_mapping(key: &Input) -> (mapping: String)
    ensures
        mapping@ == key_mapping(*key),
{
    match key {
        Input::Character(c) => {
            let mut mapping = String::new();
            mapping.push(*c);
            assert(mapping@ =~= seq![*c]);
            mapping
        },
        Input::KeyLeft => String::from_str("KeyLeft"),
        Input::KeyRight => String::from_str("KeyRight"),
        Input::KeyBackspace => String::from_str("KeyBackspace"),
        Input::KeyEnter => String::from_str("KeyEnter"),
        Input::KeyExit => String::from_str("KeyExit"),
        Input::KeyResize => String::from_str("KeyResize"),
        Input::KeyOther => String::from_str("KeyOther"),
    }
}

} // verus!
