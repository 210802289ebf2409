use vstd::prelude::*;

use crate::app::initial_session;
use crate::calculations::lemma_last_space_in;
use crate::keycheck::{erases_key, is_control, starts_timer, Input};
use crate::session::{elapsed_until, lemma_deltas_add_up, Mode, Session};
use crate::AppError;

verus! {

/// The session in which `key` at time `now` is recorded, and the timer is
/// started if it was not: what `typing_mode` hands to `key_printer`.
pub open spec fn recorded(s: Session, key: Input, now: u64) -> Session {
    Session {
        first_key_pressed: true,
        start_time: if s.first_key_pressed {
            s.start_time
        } else {
            now
        },
        key_strokes: s.key_strokes.push((now, key)),
        ..s
    }
}

/// A look at what was typed keeps a session well formed.
pub proof fn lemma_update_state_wf(s: Session, now: u64)
    requires
        s.wf(),
        s.mode == Mode::Typing,
        s.first_key_pressed,
        now >= s.start_time,
    ensures
        s.update_state(now).0.wf(),
{
    let noted = Session { mistyped_keys: s.mistyped_after_update(), ..s };
    assert(noted.mistyped_keys.no_duplicates());
    if noted.is_complete() {
        lemma_deltas_add_up(s.key_strokes, s.key_strokes.len() as int);
        let ended = noted.test_end(now);
        assert(s.key_strokes[0].0 <= s.key_strokes.last().0);
        assert(ended.current_speed_wpm.wf());
        assert(ended.accuracy.wf());
        assert(ended.time_taken.wf());
        assert(ended.key_strokes.len() == s.key_strokes.len());
    }
}

/// A key keeps a session that is typing well formed.
pub proof fn lemma_key_printer_wf(s: Session, key: Input, now: u64, height: i32, width: i32)
    requires
        s.wf(),
        s.mode == Mode::Typing,
        s.first_key_pressed,
        s.key_strokes.last().0 == now,
        s.total_chars_typed < s.key_strokes.len(),
    ensures
        s.key_printer(key, now, height, width) is Ok ==> s.key_printer(
            key,
            now,
            height,
            width,
        )->Ok_0.0.wf(),
{
    assert(s.key_strokes[0].0 <= s.key_strokes.last().0);
    if key == Input::KeyExit {
    } else if key == Input::Character('\x03') {
    } else if key == Input::KeyResize {
        if s.resize(height, width) is Ok {
            lemma_update_state_wf(s.resize(height, width)->Ok_0, now);
        }
    } else if erases_key(key) {
        lemma_update_state_wf(s.erase_key(), now);
    } else if key == Input::Character('\x17') {
        lemma_last_space_in(s.current_word, 0, s.current_word.len() as int);
        lemma_update_state_wf(s.erase_word(), now);
    } else if key == Input::Character(' ') && s.current_word.len() < s.current_word_limit {
        lemma_update_state_wf(s.space_key(), now);
    } else if key is Character && !is_control(key->Character_0) {
        lemma_update_state_wf(s.append_key(key->Character_0), now);
    }
}

/// Recording a key keeps a session well formed, with room for the key to
/// count as typed.
pub proof fn lemma_recorded_wf(s: Session, key: Input, now: u64)
    requires
        s.wf(),
        s.mode == Mode::Typing,
        s.key_strokes.len() < usize::MAX,
        s.key_strokes.len() > 0 ==> now >= s.key_strokes.last().0,
    ensures
        recorded(s, key, now).wf(),
        recorded(s, key, now).key_strokes.last().0 == now,
        recorded(s, key, now).total_chars_typed < recorded(s, key, now).key_strokes.len(),
{
    let r = recorded(s, key, now);
    assert forall|i: int, j: int| 0 <= i <= j < r.key_strokes.len() implies r.key_strokes[i].0
        <= r.key_strokes[j].0 by {
        if j < s.key_strokes.len() {
            assert(s.key_strokes[i].0 <= s.key_strokes[j].0);
        } else if i < s.key_strokes.len() {
            assert(s.key_strokes[i].0 <= s.key_strokes.last().0);
        }
    }
}

/// A key taken as typing keeps a session well formed.
pub proof fn lemma_typing_mode_wf(s: Session, key: Input, now: u64, height: i32, width: i32)
    requires
        s.wf(),
        s.mode == Mode::Typing,
        s.key_strokes.len() < usize::MAX,
    ensures
        s.typing_mode(key, now, height, width) is Ok ==> s.typing_mode(
            key,
            now,
            height,
            width,
        )->Ok_0.0.wf(),
{
    if key == Input::Character('\x03') {
    } else if !s.first_key_pressed && !starts_timer(key) {
    } else if s.key_strokes.len() > 0 && now < s.key_strokes.last().0 {
    } else {
        lemma_recorded_wf(s, key, now);
        lemma_key_printer_wf(recorded(s, key, now), key, now, height, width);
    }
}

/// The session that a sample text begins with is well formed, and nothing
/// is typed in it.
pub proof fn lemma_initial_session_wf(text: Seq<char>, text_id: Seq<char>)
    ensures
        initial_session(text, text_id).wf(),
        initial_session(text, text_id).is_fresh(),
        initial_session(text, text_id).mode == Mode::Typing,
{
    let s = initial_session(text, text_id);
    assert(s.reset() == s);
    assert(elapsed_until(s.key_strokes, 0) == 0);
}

/// The session after the keys of `events`, each with its time, were taken
/// as typing one after the other. Keys that come after the run is finished
/// are ignored, and the first failure ends it all.
pub open spec fn run(s: Session, events: Seq<(u64, Input)>, height: i32, width: i32) -> Result<
    Session,
    AppError,
>
    decreases events.len(),
{
    if events.len() == 0 {
        Ok(s)
    } else {
        match run(s, events.drop_last(), height, width) {
            Err(e) => Err(e),
            Ok(before) => if before.mode == Mode::Typing {
                match before.typing_mode(events.last().1, events.last().0, height, width) {
                    Err(e) => Err(e),
                    Ok((after, _)) => Ok(after),
                }
            } else {
                Ok(before)
            },
        }
    }
}

/// A session in which nothing was typed and which is laid out for the
/// window of the given size: where a run, and its replay, start.
pub open spec fn starts_run(start: Session, height: i32, width: i32) -> bool {
    &&& start.wf()
    &&& start.mode == Mode::Typing
    &&& start.is_fresh()
    &&& start.resize(height, width) == Ok::<Session, AppError>(start)
}

/// A session that was laid out for a window before anything was typed is
/// one where a run starts: one that begins with a sample text, for one.
pub proof fn lemma_laid_out_starts_run(s: Session, height: i32, width: i32)
    requires
        s.wf(),
        s.mode == Mode::Typing,
        s.is_fresh(),
        s.resize(height, width) is Ok,
    ensures
        starts_run(s.resize(height, width)->Ok_0, height, width),
{
    let laid_out = s.resize(height, width)->Ok_0;
    assert(laid_out.reset() == laid_out);
    assert(laid_out.resize(height, width) == Ok::<Session, AppError>(laid_out));
}

} // verus!
