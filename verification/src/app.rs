use vstd::prelude::*;
use vstd::string::StringExecFns;

use crate::calculations::{
    accuracy, find_last_space, first_mismatch_of, lemma_last_space_in, lines_for_length,
    space_count_at, wpm, words_per_minute, wrap_chars, wrongly_typed_chars, Ratio,
};
use crate::keycheck::{
    is_backspace, is_ctrl_backspace, is_ctrl_c, is_ctrl_t, is_enter, is_escape, is_printable,
    is_resize, is_tab, is_valid_initial_key, Input,
};
use crate::session::{
    deltas, lemma_deltas_add_up, spaces, times_ordered, word_limit, Action, Mode, Session,
    LINES_AROUND_TEXT, LINES_BELOW_TEXT, WORD_LIMIT_SLACK,
};
use crate::text::{chars_of, same_chars, string_of, two_decimals, two_decimals_string};
use crate::timer::MICROS_PER_MINUTE;
use crate::tokens::{
    copy_chars, copy_words, join_tokens, join_words, longest_word, split_words, token_views,
    tokens_of,
};
use crate::{AppError, AppResult, PreparedText};

verus! {

/// The colors in which the session is drawn.
#[derive(Clone, Copy, Debug, PartialEq, Eq, Hash, Structural)]
pub enum Color {
    Green,
    Red,
    Blue,
    Yellow,
    Cyan,
    Magenta,
    Black,
}

impl Color {
    /// The number of the color pair that draws this color: 1 for green up
    /// to 7 for black, in the order of the variants.
    pub fn pair(self) -> (number: u8)
        ensures
            1 <= number <= 7,
            number == match self {
                Color::Green => 1u8,
                Color::Red => 2u8,
                Color::Blue => 3u8,
                Color::Yellow => 4u8,
                Color::Cyan => 5u8,
                Color::Magenta => 6u8,
                Color::Black => 7u8,
            },
    {
        match self {
            Color::Green => 1,
            Color::Red => 2,
            Color::Blue => 3,
            Color::Yellow => 4,
            Color::Cyan => 5,
            Color::Magenta => 6,
            Color::Black => 7,
        }
    }
}

/// A typing session on one sample text.
pub struct App {
    text: Vec<char>,
    text_id: String,
    tokens: Vec<Vec<char>>,
    text_backup: Vec<char>,
    current_word: Vec<char>,
    current_string: Vec<char>,
    first_key_pressed: bool,
    key_strokes: Vec<(u64, Input)>,
    mistyped_keys: Vec<usize>,
    start_time: u64,
    token_index: usize,
    mode: Mode,
    window_height: i32,
    window_width: i32,
    number_of_lines_to_print_text: i32,
    current_word_limit: usize,
    test_complete: bool,
    current_speed_wpm: Ratio,
    accuracy: Ratio,
    time_taken: Ratio,
    total_chars_typed: usize,
}

impl View for App {
    type V = Session;

    closed spec fn view(&self) -> Session {
        Session {
            text: self.text@,
            text_id: self.text_id@,
            tokens: token_views(self.tokens@),
            text_backup: self.text_backup@,
            current_word: self.current_word@,
            current_string: self.current_string@,
            first_key_pressed: self.first_key_pressed,
            key_strokes: self.key_strokes@,
            mistyped_keys: self.mistyped_keys@,
            start_time: self.start_time,
            token_index: self.token_index as int,
            mode: self.mode,
            window_height: self.window_height,
            window_width: self.window_width,
            number_of_lines_to_print_text: self.number_of_lines_to_print_text,
            current_word_limit: self.current_word_limit as int,
            test_complete: self.test_complete,
            current_speed_wpm: self.current_speed_wpm,
            accuracy: self.accuracy,
            time_taken: self.time_taken,
            total_chars_typed: self.total_chars_typed as int,
        }
    }
}

/// The session on a sample text before a window is known: the text is
/// split into its words and joined again by single spaces, which is the text
/// to type; nothing is typed yet.
pub open spec fn initial_session(text: Seq<char>, text_id: Seq<char>) -> Session {
    Session {
        text: join_tokens(tokens_of(text)),
        text_id: text_id,
        tokens: tokens_of(text),
        text_backup: join_tokens(tokens_of(text)),
        current_word: Seq::empty(),
        current_string: Seq::empty(),
        first_key_pressed: false,
        key_strokes: Seq::empty(),
        mistyped_keys: Seq::empty(),
        start_time: 0,
        token_index: 0,
        mode: Mode::Typing,
        window_height: 0,
        window_width: 0,
        number_of_lines_to_print_text: 0,
        current_word_limit: word_limit(tokens_of(text)),
        test_complete: false,
        current_speed_wpm: Ratio { numerator: 0, denominator: 1 },
        accuracy: Ratio { numerator: 0, denominator: 1 },
        time_taken: Ratio { numerator: 0, denominator: 1 },
        total_chars_typed: 0,
    }
}

/// The limit on the word in progress for these words.
fn limit_for(tokens: &Vec<Vec<char>>) -> (limit: usize)
    ensures
        limit == word_limit(token_views(tokens@)),
{
    let longest = longest_word(tokens);
    if longest <= usize::MAX - WORD_LIMIT_SLACK {
        longest + WORD_LIMIT_SLACK
    } else {
        usize::MAX
    }
}

impl App {
    /// What holds of every session.
    pub open spec fn wf(&self) -> bool {
        self@.wf()
    }

    /// Begin a session on a sample text.
    pub fn from_prepared_text(prepared_text: PreparedText) -> (app: App)
        ensures
            app@ == initial_session(prepared_text.0@, prepared_text.1@),
            app.wf(),
            app@.is_fresh(),
    {
        let (text, text_id) = prepared_text;
        let tokens = split_words(&chars_of(text.as_str()));
        let joined = join_words(&tokens);
        let text_backup = copy_chars(&joined);
        let current_word_limit = limit_for(&tokens);
        let app = App {
            text: joined,
            text_id,
            tokens,
            text_backup,
            current_word: Vec::new(),
            current_string: Vec::new(),
            first_key_pressed: false,
            key_strokes: Vec::new(),
            mistyped_keys: Vec::new(),
            start_time: 0,
            token_index: 0,
            mode: Mode::Typing,
            window_height: 0,
            window_width: 0,
            number_of_lines_to_print_text: 0,
            current_word_limit,
            test_complete: false,
            current_speed_wpm: Ratio { numerator: 0, denominator: 1 },
            accuracy: Ratio { numerator: 0, denominator: 1 },
            time_taken: Ratio { numerator: 0, denominator: 1 },
            total_chars_typed: 0,
        };
        assert(app@ =~= initial_session(prepared_text.0@, prepared_text.1@));
        app
    }

    /// Reset the data of the current typing session.
    pub fn reset_test(&mut self)
        requires
            old(self).wf(),
        ensures
            final(self)@ == old(self)@.reset(),
            final(self).wf(),
    {
        self.mode = Mode::Typing;
        self.current_word = Vec::new();
        self.current_string = Vec::new();
        self.first_key_pressed = false;
        self.key_strokes = Vec::new();
        self.mistyped_keys = Vec::new();
        self.start_time = 0;
        self.token_index = 0;
        self.current_speed_wpm = Ratio { numerator: 0, denominator: 1 };
        self.total_chars_typed = 0;
        self.accuracy = Ratio { numerator: 0, denominator: 1 };
        self.time_taken = Ratio { numerator: 0, denominator: 1 };
        self.test_complete = false;
        assert(self@ =~= old(self)@.reset());
    }
}

impl App {
    /// Erase the last typed character.
    fn erase_key(&mut self)
        requires
            old(self).wf(),
        ensures
            final(self)@ == old(self)@.erase_key(),
            final(self).wf(),
    {
        if self.current_word.len() > 0 {
            self.current_word.pop();
            self.current_string.pop();
            assert(self@ =~= old(self)@.erase_key());
        }
    }

    /// Erase the last typed word.
    fn erase_word(&mut self)
        requires
            old(self).wf(),
            old(self)@.first_key_pressed,
        ensures
            final(self)@ == old(self)@.erase_word(),
            final(self).wf(),
    {
        let length = self.current_word.len();
        proof {
            lemma_last_space_in(self.current_word@, 0, length as int);
        }
        let kept: usize = match find_last_space(&self.current_word, 0, length) {
            Some(index) => index,
            None => 0,
        };
        let remaining: usize = self.current_string.len() - (length - kept);
        self.current_word.truncate(kept);
        self.current_string.truncate(remaining);
        assert(self@ =~= old(self)@.erase_word());
    }

    /// Add a typed character to the word in progress, unless that is full.
    fn appendkey(&mut self, key: char)
        requires
            old(self).wf(),
            old(self)@.total_chars_typed < old(self)@.key_strokes.len(),
        ensures
            final(self)@ == old(self)@.append_key(key),
            final(self).wf(),
    {
        if self.current_word.len() < self.current_word_limit {
            self.current_word.push(key);
            self.current_string.push(key);
            assert(self.key_strokes.len() <= usize::MAX);
            self.total_chars_typed += 1;
            assert(self@ =~= old(self)@.append_key(key));
        }
    }

    /// Accept the finalized word.
    fn check_word(&mut self)
        requires
            old(self).wf(),
            old(self)@.first_key_pressed,
            old(self)@.current_word.len() < old(self)@.current_word_limit,
        ensures
            final(self)@ == old(self)@.check_word(),
            final(self).wf(),
    {
        let count = space_count_at(self.current_string.len(), &self.text);
        if self.token_index < self.tokens.len() && same_chars(
            &self.current_word,
            &self.tokens[self.token_index],
        ) {
            self.token_index += 1;
            self.current_word = Vec::new();
            let ghost typed = self.current_string@;
            let mut added: usize = 0;
            while added < count
                invariant
                    added <= count,
                    self.current_string@ == typed + spaces(added as int),
                    self.text == old(self).text,
                    self.text_id == old(self).text_id,
                    self.tokens == old(self).tokens,
                    self.text_backup == old(self).text_backup,
                    self.current_word@ == Seq::<char>::empty(),
                    self.first_key_pressed == old(self).first_key_pressed,
                    self.key_strokes == old(self).key_strokes,
                    self.mistyped_keys == old(self).mistyped_keys,
                    self.start_time == old(self).start_time,
                    self.token_index == old(self).token_index + 1,
                    self.mode == old(self).mode,
                    self.window_height == old(self).window_height,
                    self.window_width == old(self).window_width,
                    self.number_of_lines_to_print_text == old(self).number_of_lines_to_print_text,
                    self.current_word_limit == old(self).current_word_limit,
                    self.test_complete == old(self).test_complete,
                    self.current_speed_wpm == old(self).current_speed_wpm,
                    self.accuracy == old(self).accuracy,
                    self.time_taken == old(self).time_taken,
                    self.total_chars_typed == old(self).total_chars_typed,
                decreases count - added,
            {
                self.current_string.push(' ');
                assert(spaces(added + 1) =~= spaces(added as int).push(' '));
                assert(self.current_string@ =~= typed + spaces(added + 1));
                added += 1;
            }
            assert(self@ =~= old(self)@.check_word());
        } else {
            self.current_word.push(' ');
            self.current_string.push(' ');
            assert(self@ =~= old(self)@.check_word());
        }
    }
}

/// Replace the time of each recorded key by the time since the key before.
fn to_deltas(log: &Vec<(u64, Input)>) -> (out: Vec<(u64, Input)>)
    requires
        times_ordered(log@),
    ensures
        out@ == deltas(log@),
{
    let mut out: Vec<(u64, Input)> = Vec::new();
    let mut i: usize = 0;
    while i < log.len()
        invariant
            i <= log.len(),
            times_ordered(log@),
            out@ == deltas(log@).take(i as int),
        decreases log.len() - i,
    {
        let entry = if i == 0 {
            (0u64, log[i].1)
        } else {
            assert(log@[i - 1].0 <= log@[i as int].0);
            (log[i].0 - log[i - 1].0, log[i].1)
        };
        out.push(entry);
        assert(deltas(log@).take(i + 1) =~= deltas(log@).take(i as int).push(entry));
        i += 1;
    }
    assert(deltas(log@).take(log.len() as int) =~= deltas(log@));
    out
}

/// Whether `position` is among `positions`.
fn holds_position(positions: &Vec<usize>, position: usize) -> (found: bool)
    ensures
        found == positions@.contains(position),
{
    let mut i: usize = 0;
    while i < positions.len()
        invariant
            i <= positions.len(),
            forall|j: int| 0 <= j < i ==> positions@[j] != position,
        decreases positions.len() - i,
    {
        if positions[i] == position {
            return true;
        }
        i += 1;
    }
    false
}

impl App {
    /// Lay the sample text out for a window of the given size. The text as
    /// typed is laid out, never the text as shown, and what was typed stays.
    /// Fails, and changes nothing, where the text cannot be laid out or the
    /// window has too few lines for it.
    pub fn resize(&mut self, height: i32, width: i32) -> (done: AppResult<()>)
        requires
            old(self).wf(),
        ensures
            match old(self)@.resize(height, width) {
                Ok(resized) => done is Ok && final(self)@ == resized,
                Err(e) => done == Err::<(), AppError>(e) && final(self)@ == old(self)@,
            },
            final(self).wf(),
    {
        let text = match wrap_chars(copy_chars(&self.text_backup), width) {
            Ok(text) => text,
            Err(e) => {
                return Err(e);
            },
        };
        let lines = lines_for_length(text.len(), width);
        if lines as i64 + LINES_AROUND_TEXT as i64 + LINES_BELOW_TEXT as i64 >= height as i64 {
            return Err(AppError::WindowTooSmallError);
        }
        self.text = text;
        self.window_height = height;
        self.window_width = width;
        self.number_of_lines_to_print_text = lines + LINES_AROUND_TEXT;
        assert(self@ =~= old(self)@.resize(height, width)->Ok_0);
        Ok(())
    }

    /// Configure the session for the window it is shown in.
    pub fn initialize_windows(&mut self, height: i32, width: i32) -> (done: AppResult<()>)
        requires
            old(self).wf(),
        ensures
            match old(self)@.resize(height, width) {
                Ok(resized) => done is Ok && final(self)@ == resized,
                Err(e) => done == Err::<(), AppError>(e) && final(self)@ == old(self)@,
            },
            final(self).wf(),
    {
        self.resize(height, width)
    }

    /// Trigger at the end of the test.
    fn test_end(&mut self, now: u64)
        requires
            old(self).wf(),
            old(self)@.mode == Mode::Typing ==> old(self)@.first_key_pressed && now >= old(
                self,
            )@.start_time,
        ensures
            final(self)@ == old(self)@.test_end(now),
            final(self).wf(),
    {
        if self.mode == Mode::Typing {
            self.current_speed_wpm = words_per_minute(self.tokens.len(), now - self.start_time);
            let wrong = wrongly_typed_chars(self.total_chars_typed, self.text_backup.len());
            self.accuracy = accuracy(self.total_chars_typed, wrong);
            self.time_taken =
            Ratio {
                numerator: (now - self.start_time) as u128,
                denominator: MICROS_PER_MINUTE,
            };
            self.mode = Mode::Finished;
            proof {
                lemma_deltas_add_up(self.key_strokes@, self.key_strokes@.len() as int);
            }
            self.key_strokes = to_deltas(&self.key_strokes);
        }
        self.first_key_pressed = false;
        self.test_complete = true;
        assert(self@ =~= old(self)@.test_end(now));
    }

    /// Look at what was typed: note a new mismatch, and end a run that is
    /// complete.
    fn update_state(&mut self, now: u64) -> (action: Action)
        requires
            old(self).wf(),
            old(self)@.mode == Mode::Typing ==> old(self)@.first_key_pressed && now >= old(
                self,
            )@.start_time,
        ensures
            (final(self)@, action) == old(self)@.update_state(now),
            final(self).wf(),
    {
        let index = first_mismatch_of(&self.current_string, &self.text);
        if index < self.current_string.len() {
            let last = self.current_string.len() - 1;
            if !holds_position(&self.mistyped_keys, last) {
                self.mistyped_keys.push(last);
            }
        }
        let ghost noted = Session { mistyped_keys: old(self)@.mistyped_after_update(), ..old(self)@ };
        assert(self@ =~= noted);
        if index == self.text.len() {
            let emit = !self.test_complete;
            self.test_end(now);
            if emit {
                Action::SaveHistory
            } else {
                Action::Redraw
            }
        } else {
            Action::Redraw
        }
    }
}

impl App {
    /// Apply a key to a run that is typing.
    fn key_printer(&mut self, key: &Input, now: u64, height: i32, width: i32) -> (done: AppResult<
        Action,
    >)
        requires
            old(self).wf(),
            old(self)@.mode == Mode::Typing,
            old(self)@.first_key_pressed,
            old(self)@.key_strokes.last().0 == now,
            old(self)@.total_chars_typed < old(self)@.key_strokes.len(),
        ensures
            match old(self)@.key_printer(*key, now, height, width) {
                Ok((after, action)) => done == Ok::<Action, AppError>(action) && final(self)@
                    == after,
                Err(e) => done == Err::<Action, AppError>(e) && final(self)@ == old(self)@,
            },
            final(self).wf(),
    {
        assert(old(self)@.key_strokes[0].0 <= old(self)@.key_strokes.last().0);
        if is_escape(key) {
            self.reset_test();
            Ok(Action::Redraw)
        } else if is_ctrl_c(key) {
            Ok(Action::Exit)
        } else if is_resize(key) {
            match self.resize(height, width) {
                Err(e) => Err(e),
                Ok(()) => Ok(self.update_state(now)),
            }
        } else if is_backspace(key) {
            self.erase_key();
            Ok(self.update_state(now))
        } else if is_ctrl_backspace(key) {
            self.erase_word();
            Ok(self.update_state(now))
        } else {
            match key {
                Input::Character(c) => {
                    if *c == ' ' && self.current_word.len() < self.current_word_limit {
                        assert(self.key_strokes.len() <= usize::MAX);
                        self.total_chars_typed += 1;
                        if self.current_word.len() > 0 {
                            self.check_word();
                        }
                        assert(self@ =~= old(self)@.space_key());
                        Ok(self.update_state(now))
                    } else if is_printable(*c) {
                        self.appendkey(*c);
                        Ok(self.update_state(now))
                    } else {
                        Ok(Action::Redraw)
                    }
                },
                _ => Ok(Action::Redraw),
            }
        }
    }

    /// Take a key at time `now` as typing: the transition of a session that
    /// is typing, for keys that are typed and keys that are played back.
    pub fn typing_mode(&mut self, key: &Input, now: u64, height: i32, width: i32) -> (done: AppResult<
        Action,
    >)
        requires
            old(self).wf(),
            old(self)@.mode == Mode::Typing,
        ensures
            match old(self)@.typing_mode(*key, now, height, width) {
                Ok((after, action)) => done == Ok::<Action, AppError>(action) && final(self)@
                    == after,
                Err(e) => done == Err::<Action, AppError>(e) && final(self)@ == old(self)@,
            },
            final(self).wf(),
    {
        if is_ctrl_c(key) {
            return Ok(Action::Exit);
        }
        if !self.first_key_pressed && !is_valid_initial_key(key) {
            if is_resize(key) {
                return match self.resize(height, width) {
                    Err(e) => Err(e),
                    Ok(()) => Ok(Action::Redraw),
                };
            }
            return Ok(Action::Redraw);
        }
        let started = self.first_key_pressed;
        let start_time = self.start_time;
        if self.key_strokes.len() > 0 {
            let last = self.key_strokes[self.key_strokes.len() - 1].0;
            if now < last {
                return Err(AppError::TimeError(last - now));
            }
        }
        if !started {
            self.first_key_pressed = true;
            self.start_time = now;
        }
        self.key_strokes.push((now, *key));
        assert(self.key_strokes.len() <= usize::MAX);
        assert(self@.key_strokes.last() == (now, *key));
        assert(self@.key_strokes.drop_last() =~= old(self)@.key_strokes);
        match self.key_printer(key, now, height, width) {
            Ok(action) => Ok(action),
            Err(e) => {
                self.key_strokes.pop();
                self.first_key_pressed = started;
                self.start_time = start_time;
                assert(self@ =~= old(self)@);
                Err(e)
            },
        }
    }

    /// Handle one key at time `now`, in a window of the given size: the
    /// decision that the event loop makes for each key it reads.
    pub fn handle_key(&mut self, key: Input, now: u64, height: i32, width: i32) -> (done:
        AppResult<Action>)
        requires
            old(self).wf(),
        ensures
            match old(self)@.handle_key(key, now, height, width) {
                Ok((after, action)) => done == Ok::<Action, AppError>(action) && final(self)@
                    == after,
                Err(e) => done == Err::<Action, AppError>(e) && final(self)@ == old(self)@,
            },
            final(self).wf(),
    {
        if !self.first_key_pressed {
            match key {
                Input::Character(c) => {
                    if c == '\x1b' {
                        return Ok(Action::Exit);
                    }
                },
                Input::KeyLeft => {
                    return Ok(Action::SwitchText(-1));
                },
                Input::KeyRight => {
                    return Ok(Action::SwitchText(1));
                },
                _ => {},
            }
        }
        if self.mode == Mode::Typing {
            self.typing_mode(&key, now, height, width)
        } else if is_tab(&key) {
            self.reset_test();
            Ok(Action::Redraw)
        } else if is_enter(&key) {
            Ok(Action::Replay)
        } else if is_ctrl_t(&key) {
            Ok(Action::Share)
        } else {
            Ok(Action::Redraw)
        }
    }
}

impl App {
    /// Begin a session on another sample text, in the same window. Fails,
    /// and changes nothing, where that text cannot be shown in the window.
    pub fn switch_text(&mut self, prepared_text: PreparedText) -> (done: AppResult<()>)
        requires
            old(self).wf(),
        ensures
            match initial_session(prepared_text.0@, prepared_text.1@).resize(
                old(self)@.window_height,
                old(self)@.window_width,
            ) {
                Ok(switched) => done is Ok && final(self)@ == switched,
                Err(e) => done == Err::<(), AppError>(e) && final(self)@ == old(self)@,
            },
            final(self).wf(),
    {
        let mut next = App::from_prepared_text(prepared_text);
        match next.resize(self.window_height, self.window_width) {
            Err(e) => Err(e),
            Ok(()) => {
                *self = next;
                Ok(())
            },
        }
    }

    /// A session on the same text in the same window in which nothing is
    /// typed yet.
    pub fn fresh_copy(&self) -> (copy: App)
        requires
            self.wf(),
        ensures
            copy@ == self@.reset(),
            copy.wf(),
    {
        let copy = App {
            text: copy_chars(&self.text),
            text_id: self.text_id.clone(),
            tokens: copy_words(&self.tokens),
            text_backup: copy_chars(&self.text_backup),
            current_word: Vec::new(),
            current_string: Vec::new(),
            first_key_pressed: false,
            key_strokes: Vec::new(),
            mistyped_keys: Vec::new(),
            start_time: 0,
            token_index: 0,
            mode: Mode::Typing,
            window_height: self.window_height,
            window_width: self.window_width,
            number_of_lines_to_print_text: self.number_of_lines_to_print_text,
            current_word_limit: self.current_word_limit,
            test_complete: false,
            current_speed_wpm: Ratio { numerator: 0, denominator: 1 },
            accuracy: Ratio { numerator: 0, denominator: 1 },
            time_taken: Ratio { numerator: 0, denominator: 1 },
            total_chars_typed: 0,
        };
        assert(copy@ =~= self@.reset());
        copy
    }

    /// The sample text as shown.
    pub fn text(&self) -> (text: String)
        ensures
            text@ == self@.text,
    {
        string_of(&self.text)
    }

    /// The sample text as typed.
    pub fn text_backup(&self) -> (text: String)
        ensures
            text@ == self@.text_backup,
    {
        string_of(&self.text_backup)
    }

    /// Where the sample text comes from.
    pub fn text_id(&self) -> (id: &String)
        ensures
            id@ == self@.text_id,
    {
        &self.text_id
    }

    /// The number of words of the sample text.
    pub fn token_count(&self) -> (count: usize)
        ensures
            count == self@.tokens.len(),
    {
        self.tokens.len()
    }

    /// The word of the sample text at `index`.
    pub fn token(&self, index: usize) -> (word: Option<String>)
        ensures
            index < self@.tokens.len() ==> word is Some && word->0@ == self@.tokens[index as int],
            index >= self@.tokens.len() ==> word is None,
    {
        if index < self.tokens.len() {
            Some(string_of(&self.tokens[index]))
        } else {
            None
        }
    }

    /// What was typed of the word in progress.
    pub fn current_word(&self) -> (word: String)
        ensures
            word@ == self@.current_word,
    {
        string_of(&self.current_word)
    }

    /// All that was typed in this run.
    pub fn current_string(&self) -> (typed: String)
        ensures
            typed@ == self@.current_string,
    {
        string_of(&self.current_string)
    }

    pub fn first_key_pressed(&self) -> (pressed: bool)
        ensures
            pressed == self@.first_key_pressed,
    {
        self.first_key_pressed
    }

    /// The recorded keys.
    pub fn key_strokes(&self) -> (log: &Vec<(u64, Input)>)
        ensures
            log@ == self@.key_strokes,
    {
        &self.key_strokes
    }

    /// The positions at which a mismatch was seen.
    pub fn mistyped_keys(&self) -> (positions: &Vec<usize>)
        ensures
            positions@ == self@.mistyped_keys,
    {
        &self.mistyped_keys
    }

    pub fn start_time(&self) -> (time: u64)
        ensures
            time == self@.start_time,
    {
        self.start_time
    }

    pub fn token_index(&self) -> (index: usize)
        ensures
            index == self@.token_index,
    {
        self.token_index
    }

    pub fn mode(&self) -> (mode: Mode)
        ensures
            mode == self@.mode,
    {
        self.mode
    }

    pub fn window_height(&self) -> (height: i32)
        ensures
            height == self@.window_height,
    {
        self.window_height
    }

    pub fn window_width(&self) -> (width: i32)
        ensures
            width == self@.window_width,
    {
        self.window_width
    }

    pub fn number_of_lines_to_print_text(&self) -> (lines: i32)
        ensures
            lines == self@.number_of_lines_to_print_text,
    {
        self.number_of_lines_to_print_text
    }

    pub fn current_word_limit(&self) -> (limit: usize)
        ensures
            limit == self@.current_word_limit,
    {
        self.current_word_limit
    }

    pub fn test_complete(&self) -> (complete: bool)
        ensures
            complete == self@.test_complete,
    {
        self.test_complete
    }

    pub fn current_speed_wpm(&self) -> (speed: Ratio)
        ensures
            speed == self@.current_speed_wpm,
    {
        self.current_speed_wpm
    }

    pub fn accuracy(&self) -> (percent: Ratio)
        ensures
            percent == self@.accuracy,
    {
        self.accuracy
    }

    pub fn time_taken(&self) -> (minutes: Ratio)
        ensures
            minutes == self@.time_taken,
    {
        self.time_taken
    }

    pub fn total_chars_typed(&self) -> (total: usize)
        ensures
            total == self@.total_chars_typed,
    {
        self.total_chars_typed
    }

    /// The position of the first mismatch between what was typed and the
    /// text as shown: what lies before it is right.
    pub fn diff_index(&self) -> (index: usize)
        ensures
            index == self@.diff_index(),
    {
        first_mismatch_of(&self.current_string, &self.text)
    }
}

/// The line of the window on which the text begins.
pub const TEXT_TOP_LINE: i32 = 2;

/// The cell of the window that shows the character at `index` of the text:
/// its line, counted from the line on which the text begins, and its
/// column. `None` where the width is not positive or the line cannot be
/// counted.
pub open spec fn cell_of(index: int, window_width: int) -> Option<(i32, i32)> {
    if window_width <= 0 || TEXT_TOP_LINE + index / window_width > i32::MAX {
        None
    } else {
        Some(((TEXT_TOP_LINE + index / window_width) as i32, (index % window_width) as i32))
    }
}

/// Find the cell of the window that shows a character of the text.
pub fn cell_of_index(index: usize, window_width: i32) -> (cell: Option<(i32, i32)>)
    ensures
        cell == cell_of(index as int, window_width as int),
{
    if window_width <= 0 {
        return None;
    }
    let width: usize = window_width as usize;
    let line: usize = index / width;
    let column: usize = index % width;
    if line > (i32::MAX - TEXT_TOP_LINE) as usize {
        None
    } else {
        Some((TEXT_TOP_LINE + line as i32, column as i32))
    }
}

/// What is said when a result is shared.
pub open spec fn share_message(speed: Ratio) -> Seq<char> {
    "My typing speed is "@ + two_decimals(speed)
        + " WPM!\nKnow yours on rstype.\n\"https://github.com/CyberDogFK/rstype\" by @CyberDogFK\n#TypingTest #Rust"@
}

/// The speed while typing: the words typed so far over the time since the
/// timer started. Before it started there is no speed, which is 0; a clock
/// that went backward is an error.
pub open spec fn realtime_speed(s: Session, now: u64) -> Result<Ratio, AppError> {
    if !s.first_key_pressed {
        Ok(Ratio { numerator: 0, denominator: 1 })
    } else if now < s.start_time {
        Err(AppError::TimeError((s.start_time - now) as u64))
    } else {
        Ok(wpm(tokens_of(s.current_string).len() as int, now - s.start_time))
    }
}

impl App {
    /// The address that shares the speed of the last run.
    pub fn share_url(&self) -> (url: String)
        requires
            self.wf(),
        ensures
            url@ == "https://twitter.com/intent/tweet?text="@ + share_message(
                self@.current_speed_wpm,
            ),
    {
        let mut url = String::from_str("https://twitter.com/intent/tweet?text=");
        url.append("My typing speed is ");
        url.append(two_decimals_string(self.current_speed_wpm).as_str());
        url.append(
            " WPM!\nKnow yours on rstype.\n\"https://github.com/CyberDogFK/rstype\" by @CyberDogFK\n#TypingTest #Rust",
        );
        assert(url@ =~= "https://twitter.com/intent/tweet?text="@ + share_message(
            self@.current_speed_wpm,
        ));
        url
    }

    /// The speed to show while typing, at time `now`.
    pub fn realtime_wpm(&self, now: u64) -> (speed: AppResult<Ratio>)
        ensures
            speed == realtime_speed(self@, now),
    {
        if !self.first_key_pressed {
            Ok(Ratio { numerator: 0, denominator: 1 })
        } else if now < self.start_time {
            Err(AppError::TimeError(self.start_time - now))
        } else {
            let words = split_words(&self.current_string);
            Ok(words_per_minute(words.len(), now - self.start_time))
        }
    }

    /// How far the text as shown is typed over: up to the end of what was
    /// typed, and not beyond the end of the text.
    pub fn typed_end(&self) -> (end: usize)
        ensures
            end == (if self@.current_string.len() <= self@.text.len() {
                self@.current_string.len()
            } else {
                self@.text.len()
            }),
    {
        if self.current_string.len() <= self.text.len() {
            self.current_string.len()
        } else {
            self.text.len()
        }
    }
}

/// The result of a finished run, as it is handed to the history.
pub struct RunResult {
    /// Where the sample text comes from.
    pub text_id: String,
    /// The speed in words per minute.
    pub wpm: Ratio,
    /// The accuracy in percent.
    pub accuracy: Ratio,
    /// The time that the run took, in minutes.
    pub elapsed: Ratio,
}

impl App {
    /// The result of the run, once it is finished.
    pub fn result(&self) -> (result: Option<RunResult>)
        ensures
            self@.mode != Mode::Finished ==> result is None,
            self@.mode == Mode::Finished ==> result is Some && result->0.text_id@ == self@.text_id
                && result->0.wpm == self@.current_speed_wpm && result->0.accuracy
                == self@.accuracy && result->0.elapsed == self@.time_taken,
    {
        if self.mode == Mode::Finished {
            Some(
                RunResult {
                    text_id: self.text_id.clone(),
                    wpm: self.current_speed_wpm,
                    accuracy: self.accuracy,
                    elapsed: self.time_taken,
                },
            )
        } else {
            None
        }
    }
}

} // verus!
