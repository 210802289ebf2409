use vstd::prelude::*;

use crate::calculations::{
    accuracy_pct, first_mismatch, last_space_in, lines_to_fit, space_run, wpm, wrap, wrongly_typed,
    Ratio,
};
use crate::keycheck::{erases_key, is_control, starts_timer, Input};
use crate::timer::elapsed_minutes;
use crate::tokens::longest_token;
use crate::AppError;

verus! {

/// Whether keys are taken as typing, or the run is over.
#[derive(Clone, Copy, Debug, PartialEq, Eq, Structural)]
pub enum Mode {
    Typing,
    Finished,
}

/// What the caller has to do after a key was handled.
#[derive(Clone, Copy, Debug, PartialEq, Eq, Structural)]
pub enum Action {
    /// Draw the state anew; nothing else.
    Redraw,
    /// Terminate the program.
    Exit,
    /// The run is complete: hand its result to the history.
    SaveHistory,
    /// Load the text that lies this far from the current one in the corpus.
    SwitchText(i32),
    /// Play the recorded run.
    Replay,
    /// Share the result.
    Share,
}

/// Lines taken by the title above the text and the blank line below it.
pub const LINES_AROUND_TEXT: i32 = 3;

/// Lines below the text that the word in progress, the result and the help
/// need.
pub const LINES_BELOW_TEXT: i32 = 7;

/// Characters that a word in progress may have beyond the longest word.
pub const WORD_LIMIT_SLACK: usize = 5;

/// `count` spaces.
pub open spec fn spaces(count: int) -> Seq<char> {
    Seq::new(count as nat, |j: int| ' ')
}

/// The limit on the word in progress: the length of the longest word and 5
/// more, as far as it can be counted.
pub open spec fn word_limit(tokens: Seq<Seq<char>>) -> int {
    if longest_token(tokens) + WORD_LIMIT_SLACK <= usize::MAX {
        longest_token(tokens) + WORD_LIMIT_SLACK
    } else {
        usize::MAX as int
    }
}

/// The recorded keys with each time replaced by the time since the key
/// before; the first by 0.
pub open spec fn deltas(log: Seq<(u64, Input)>) -> Seq<(u64, Input)> {
    Seq::new(
        log.len(),
        |i: int|
            if i == 0 {
                (0u64, log[i].1)
            } else {
                ((log[i].0 - log[i - 1].0) as u64, log[i].1)
            },
    )
}

/// The sum of the first `count` times of `log`: with times between keys,
/// the time from the first key to the key at `count - 1`.
pub open spec fn elapsed_until(log: Seq<(u64, Input)>, count: int) -> int
    decreases count,
{
    if count <= 0 {
        0
    } else {
        elapsed_until(log, count - 1) + log[count - 1].0
    }
}

/// The times of the recorded keys never go backward.
pub open spec fn times_ordered(log: Seq<(u64, Input)>) -> bool {
    forall|i: int, j: int| 0 <= i <= j < log.len() ==> log[i].0 <= log[j].0
}

/// The lines that `len` characters fill in a window `width` cells wide, at
/// most `i32::MAX`.
pub open spec fn lines_shown(len: int, width: int) -> int {
    if lines_to_fit(len, width) > i32::MAX {
        i32::MAX as int
    } else {
        lines_to_fit(len, width)
    }
}

/// The state of a typing session, as the contracts see it.
pub struct Session {
    /// The sample text as shown: laid out for the window.
    pub text: Seq<char>,
    /// Where the sample text comes from.
    pub text_id: Seq<char>,
    /// The words of the sample text.
    pub tokens: Seq<Seq<char>>,
    /// The sample text as typed: its words joined by single spaces.
    pub text_backup: Seq<char>,
    /// What was typed of the word in progress.
    pub current_word: Seq<char>,
    /// All that was typed in this run, with the spaces of accepted words.
    pub current_string: Seq<char>,
    /// Whether the key that starts the timer was seen.
    pub first_key_pressed: bool,
    /// The keys of this run with their times in microseconds; after the run
    /// with the time since the key before.
    pub key_strokes: Seq<(u64, Input)>,
    /// The positions at which a mismatch was seen, each once, in the order
    /// in which they were seen.
    pub mistyped_keys: Seq<usize>,
    /// When the timer started, in microseconds.
    pub start_time: u64,
    /// The word that is expected next.
    pub token_index: int,
    pub mode: Mode,
    pub window_height: i32,
    pub window_width: i32,
    /// The line below the text on which the word in progress is shown.
    pub number_of_lines_to_print_text: i32,
    /// The most characters that the word in progress can have.
    pub current_word_limit: int,
    /// Whether the result of this run was handed out.
    pub test_complete: bool,
    pub current_speed_wpm: Ratio,
    pub accuracy: Ratio,
    /// The minutes that the run took.
    pub time_taken: Ratio,
    /// The keys that counted as typed, erased ones included.
    pub total_chars_typed: int,
}

impl Session {
    /// What holds of every session.
    pub open spec fn wf(self) -> bool {
        &&& 0 <= self.token_index <= self.tokens.len()
        &&& self.current_word_limit == word_limit(self.tokens)
        &&& self.current_word.len() <= self.current_word_limit
        &&& self.current_word.len() <= self.current_string.len()
        &&& 0 <= self.total_chars_typed <= self.key_strokes.len() <= usize::MAX
        &&& self.mistyped_keys.no_duplicates()
        &&& self.current_speed_wpm.wf()
        &&& self.accuracy.wf()
        &&& self.time_taken.wf()
        &&& (self.mode == Mode::Typing && self.first_key_pressed ==> {
            &&& self.key_strokes.len() > 0
            &&& self.key_strokes[0].0 == self.start_time
            &&& times_ordered(self.key_strokes)
        })
        &&& (self.mode == Mode::Typing && !self.first_key_pressed ==> self.is_fresh())
        &&& (self.mode == Mode::Finished ==> elapsed_until(
            self.key_strokes,
            self.key_strokes.len() as int,
        ) <= u64::MAX)
    }

    /// The session as it is before anything is typed, on the same text and
    /// in the same window.
    pub open spec fn reset(self) -> Session {
        Session {
            current_word: Seq::empty(),
            current_string: Seq::empty(),
            first_key_pressed: false,
            key_strokes: Seq::empty(),
            mistyped_keys: Seq::empty(),
            start_time: 0,
            token_index: 0,
            mode: Mode::Typing,
            test_complete: false,
            current_speed_wpm: Ratio { numerator: 0, denominator: 1 },
            accuracy: Ratio { numerator: 0, denominator: 1 },
            time_taken: Ratio { numerator: 0, denominator: 1 },
            total_chars_typed: 0,
            ..self
        }
    }

    /// Nothing was typed in this run yet.
    pub open spec fn is_fresh(self) -> bool {
        self == self.reset()
    }

    /// The sample text laid out anew for a window of the given size; the
    /// text as typed and what was typed so far stay. Fails where the text
    /// cannot be laid out, and where the window has too few lines for it.
    pub open spec fn resize(self, height: i32, width: i32) -> Result<Session, AppError> {
        match wrap(self.text_backup, width as int) {
            None => Err(
                if width <= 0 {
                    AppError::InvalidWidthError(width)
                } else {
                    AppError::NoCharFoundError(' ')
                },
            ),
            Some(text) => {
                let lines = lines_shown(text.len() as int, width as int);
                if lines + LINES_AROUND_TEXT + LINES_BELOW_TEXT >= height {
                    Err(AppError::WindowTooSmallError)
                } else {
                    Ok(
                        Session {
                            text: text,
                            window_height: height,
                            window_width: width,
                            number_of_lines_to_print_text: (lines + LINES_AROUND_TEXT) as i32,
                            ..self
                        },
                    )
                }
            },
        }
    }

    /// The last character typed is taken back, if the word in progress has one.
    pub open spec fn erase_key(self) -> Session {
        if self.current_word.len() == 0 {
            self
        } else {
            Session {
                current_word: self.current_word.drop_last(),
                current_string: self.current_string.drop_last(),
                ..self
            }
        }
    }

    /// The word in progress is cut back to its last space, which goes too;
    /// without a space all of it goes. The same characters leave the end of
    /// what was typed.
    pub open spec fn erase_word(self) -> Session {
        let found = last_space_in(self.current_word, 0, self.current_word.len() as int);
        let kept = if found < 0 {
            0
        } else {
            found
        };
        Session {
            current_word: self.current_word.take(kept),
            current_string: self.current_string.take(
                self.current_string.len() - (self.current_word.len() - kept),
            ),
            ..self
        }
    }

    /// The word in progress is the expected word.
    pub open spec fn word_matches(self) -> bool {
        self.token_index < self.tokens.len() && self.current_word
            == self.tokens[self.token_index]
    }

    /// The word in progress is resolved. If it is the expected word, the
    /// next word is expected, the word in progress is empty again, and what
    /// was typed gains the spaces that follow the word in the text as shown.
    /// If it is not, both gain one space and the same word stays expected.
    pub open spec fn check_word(self) -> Session {
        if self.word_matches() {
            Session {
                token_index: self.token_index + 1,
                current_word: Seq::empty(),
                current_string: self.current_string + spaces(
                    space_run(self.text, self.current_string.len() as int),
                ),
                ..self
            }
        } else {
            Session {
                current_word: self.current_word.push(' '),
                current_string: self.current_string.push(' '),
                ..self
            }
        }
    }

    /// A space was typed while the word in progress is below its limit: it
    /// counts as typed, and resolves the word unless that is empty.
    pub open spec fn space_key(self) -> Session {
        let counted = Session { total_chars_typed: self.total_chars_typed + 1, ..self };
        if self.current_word.len() == 0 {
            counted
        } else {
            counted.check_word()
        }
    }

    /// A character was typed. Below the limit it is added to the word in
    /// progress and to what was typed, and counts; at the limit it is dropped.
    pub open spec fn append_key(self, c: char) -> Session {
        if self.current_word.len() < self.current_word_limit {
            Session {
                current_word: self.current_word.push(c),
                current_string: self.current_string.push(c),
                total_chars_typed: self.total_chars_typed + 1,
                ..self
            }
        } else {
            self
        }
    }

    /// The position of the first mismatch between what was typed and the
    /// text as shown.
    pub open spec fn diff_index(self) -> int {
        first_mismatch(self.current_string, self.text)
    }

    /// What was typed holds all of the text as shown.
    pub open spec fn is_complete(self) -> bool {
        self.diff_index() == self.text.len()
    }

    /// The positions of mismatches after a look at what was typed: where a
    /// mismatch lies inside it, the position of the last character typed is
    /// among them.
    pub open spec fn mistyped_after_update(self) -> Seq<usize> {
        let last = (self.current_string.len() - 1) as usize;
        if self.diff_index() < self.current_string.len() && !self.mistyped_keys.contains(last) {
            self.mistyped_keys.push(last)
        } else {
            self.mistyped_keys
        }
    }

    /// The run ends at time `now`. A run that was typing gets its results:
    /// the speed over the time since the timer started, the accuracy with
    /// every character beyond those of the text counted as wrong, and the
    /// time taken; its recorded times become the times between keys.
    pub open spec fn test_end(self, now: u64) -> Session {
        let ended = if self.mode == Mode::Typing {
            Session {
                current_speed_wpm: wpm(self.tokens.len() as int, now - self.start_time),
                accuracy: accuracy_pct(
                    self.total_chars_typed,
                    wrongly_typed(self.total_chars_typed, self.text_backup.len() as int),
                ),
                time_taken: elapsed_minutes(self.start_time as int, now as int),
                mode: Mode::Finished,
                key_strokes: deltas(self.key_strokes),
                ..self
            }
        } else {
            self
        };
        Session { first_key_pressed: false, test_complete: true, ..ended }
    }

    /// The look at what was typed that follows every key: a new mismatch is
    /// noted, and a run that is complete ends. The result is handed out once.
    pub open spec fn update_state(self, now: u64) -> (Session, Action) {
        let noted = Session { mistyped_keys: self.mistyped_after_update(), ..self };
        if noted.is_complete() {
            (
                noted.test_end(now),
                if self.test_complete {
                    Action::Redraw
                } else {
                    Action::SaveHistory
                },
            )
        } else {
            (noted, Action::Redraw)
        }
    }

    /// What a key does to a run that is typing, in this order: escape
    /// starts the run anew; the interrupt ends the program; a resize lays
    /// the text out anew; backspace erases a character; word-erase erases a
    /// word; a space below the limit resolves the word; any other character
    /// but a control code is typed. Any other key is ignored.
    pub open spec fn key_printer(self, key: Input, now: u64, height: i32, width: i32) -> Result<
        (Session, Action),
        AppError,
    > {
        if key == Input::KeyExit {
            Ok((self.reset(), Action::Redraw))
        } else if key == Input::Character('\x03') {
            Ok((self, Action::Exit))
        } else if key == Input::KeyResize {
            match self.resize(height, width) {
                Err(e) => Err(e),
                Ok(resized) => Ok(resized.update_state(now)),
            }
        } else if erases_key(key) {
            Ok(self.erase_key().update_state(now))
        } else if key == Input::Character('\x17') {
            Ok(self.erase_word().update_state(now))
        } else if key == Input::Character(' ') && self.current_word.len()
            < self.current_word_limit {
            Ok(self.space_key().update_state(now))
        } else if key is Character && !is_control(key->Character_0) {
            Ok(self.append_key(key->Character_0).update_state(now))
        } else {
            Ok((self, Action::Redraw))
        }
    }

    /// The timer starts with this key: none was seen yet, and this is one
    /// that starts it.
    pub open spec fn starts_with(self, key: Input) -> bool {
        !self.first_key_pressed && starts_timer(key)
    }

    /// What a key at time `now` does while the session is typing. The
    /// interrupt ends the program. The first key that starts the timer sets
    /// the start time. Before that key only a resize has an effect. From
    /// that key on every key is recorded with its time and then handled;
    /// a time before that of the key before is an error.
    pub open spec fn typing_mode(self, key: Input, now: u64, height: i32, width: i32) -> Result<
        (Session, Action),
        AppError,
    > {
        if key == Input::Character('\x03') {
            Ok((self, Action::Exit))
        } else if !self.first_key_pressed && !starts_timer(key) {
            if key == Input::KeyResize {
                match self.resize(height, width) {
                    Err(e) => Err(e),
                    Ok(resized) => Ok((resized, Action::Redraw)),
                }
            } else {
                Ok((self, Action::Redraw))
            }
        } else if self.key_strokes.len() > 0 && now < self.key_strokes.last().0 {
            Err(AppError::TimeError((self.key_strokes.last().0 - now) as u64))
        } else {
            Session {
                first_key_pressed: true,
                start_time: if self.first_key_pressed {
                    self.start_time
                } else {
                    now
                },
                key_strokes: self.key_strokes.push((now, key)),
                ..self
            }.key_printer(key, now, height, width)
        }
    }

    /// What a key does to the session. While no key has started the timer,
    /// the character ESC ends the program and the arrow keys ask for the
    /// text before or after this one. Otherwise a session that is typing
    /// takes the key as typing; in one that is finished, tab starts the run
    /// anew, enter asks for the replay and Ctrl-T for sharing the result.
    pub open spec fn handle_key(self, key: Input, now: u64, height: i32, width: i32) -> Result<
        (Session, Action),
        AppError,
    > {
        if !self.first_key_pressed && key == Input::Character('\x1b') {
            Ok((self, Action::Exit))
        } else if !self.first_key_pressed && key == Input::KeyLeft {
            Ok((self, Action::SwitchText(-1i32)))
        } else if !self.first_key_pressed && key == Input::KeyRight {
            Ok((self, Action::SwitchText(1i32)))
        } else if self.mode == Mode::Typing {
            self.typing_mode(key, now, height, width)
        } else if key == Input::Character('\t') {
            Ok((self.reset(), Action::Redraw))
        } else if key == Input::KeyEnter {
            Ok((self, Action::Replay))
        } else if key == Input::Character('\x14') {
            Ok((self, Action::Share))
        } else {
            Ok((self, Action::Redraw))
        }
    }
}

/// The times between keys add up to the time since the first key.
pub proof fn lemma_deltas_add_up(log: Seq<(u64, Input)>, count: int)
    requires
        times_ordered(log),
        0 < count <= log.len(),
    ensures
        elapsed_until(deltas(log), count) == log[count - 1].0 - log[0].0,
    decreases count,
{
    if count > 1 {
        lemma_deltas_add_up(log, count - 1);
        assert(log[count - 2].0 <= log[count - 1].0);
    } else {
        assert(elapsed_until(deltas(log), 0) == 0);
    }
}

/// The sum of times grows with the number of keys.
pub proof fn lemma_elapsed_grows(log: Seq<(u64, Input)>, early: int, late: int)
    requires
        0 <= early <= late,
    ensures
        0 <= elapsed_until(log, early) <= elapsed_until(log, late),
    decreases late,
{
    if early < late {
        lemma_elapsed_grows(log, early, late - 1);
    } else if early > 0 {
        lemma_elapsed_grows(log, early - 1, early - 1);
    }
}

} // verus!
