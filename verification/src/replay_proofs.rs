use vstd::prelude::*;

use crate::calculations::lemma_last_space_in;
use crate::keycheck::{erases_key, is_control, starts_timer, Input};
use crate::replay::ReplayState;
use crate::session::{
    deltas, elapsed_until, lemma_deltas_add_up, lemma_elapsed_grows, times_ordered, Action, Mode,
    Session,
};
use crate::session_proofs::{
    lemma_recorded_wf, lemma_typing_mode_wf, recorded, run, starts_run,
};
use crate::AppError;

verus! {

/// The recorded keys with every time set back by `by`.
pub open spec fn shift_log(log: Seq<(u64, Input)>, by: int) -> Seq<(u64, Input)> {
    Seq::new(log.len(), |i: int| ((log[i].0 - by) as u64, log[i].1))
}

/// The session with its clock set back by `by`: the start time and the
/// times of the recorded keys are earlier by that much, and all else is the
/// same.
pub open spec fn set_back(s: Session, by: int) -> Session {
    if s.mode == Mode::Typing && s.first_key_pressed {
        Session {
            start_time: (s.start_time - by) as u64,
            key_strokes: shift_log(s.key_strokes, by),
            ..s
        }
    } else if s.mode == Mode::Finished {
        Session { start_time: (s.start_time - by) as u64, ..s }
    } else {
        s
    }
}

/// Setting the clock back makes no difference to the times between keys.
pub proof fn lemma_deltas_set_back(log: Seq<(u64, Input)>, by: int)
    requires
        times_ordered(log),
        log.len() > 0 ==> 0 <= by <= log[0].0,
    ensures
        deltas(shift_log(log, by)) == deltas(log),
{
    assert forall|i: int| 0 <= i < log.len() implies deltas(shift_log(log, by))[i] == deltas(
        log,
    )[i] by {
        assert(log[0].0 <= log[i].0);
        if i > 0 {
            assert(log[0].0 <= log[i - 1].0);
            assert(log[i - 1].0 <= log[i].0);
        }
    }
    assert(deltas(shift_log(log, by)) =~= deltas(log));
}

/// The look at what was typed does the same on a clock that is set back.
pub proof fn lemma_update_state_set_back(s: Session, now: u64, by: int)
    requires
        s.wf(),
        s.mode == Mode::Typing,
        s.first_key_pressed,
        0 <= by <= s.start_time <= now,
    ensures
        set_back(s, by).update_state((now - by) as u64) == (
            set_back(s.update_state(now).0, by),
            s.update_state(now).1,
        ),
{
    lemma_deltas_set_back(s.key_strokes, by);
    let noted = Session { mistyped_keys: s.mistyped_after_update(), ..s };
    let back = set_back(s, by);
    let noted_back = Session { mistyped_keys: back.mistyped_after_update(), ..back };
    assert(noted_back == set_back(noted, by));
    assert(set_back(noted, by).test_end((now - by) as u64) == set_back(noted.test_end(now), by));
}

/// A key does the same to a session whose clock is set back.
pub proof fn lemma_key_printer_set_back(
    s: Session,
    key: Input,
    now: u64,
    height: i32,
    width: i32,
    by: int,
)
    requires
        s.wf(),
        s.mode == Mode::Typing,
        s.first_key_pressed,
        s.key_strokes.last().0 == now,
        s.total_chars_typed < s.key_strokes.len(),
        0 <= by <= s.start_time,
    ensures
        match s.key_printer(key, now, height, width) {
            Ok((after, action)) => set_back(s, by).key_printer(
                key,
                (now - by) as u64,
                height,
                width,
            ) == Ok::<(Session, Action), AppError>((set_back(after, by), action)),
            Err(e) => set_back(s, by).key_printer(key, (now - by) as u64, height, width) == Err::<
                (Session, Action),
                AppError,
            >(e),
        },
{
    assert(s.key_strokes[0].0 <= s.key_strokes.last().0);
    let back = set_back(s, by);
    if key == Input::KeyExit {
        assert(back.reset() == s.reset());
    } else if key == Input::Character('\x03') {
    } else if key == Input::KeyResize {
        if s.resize(height, width) is Ok {
            let resized = s.resize(height, width)->Ok_0;
            assert(back.resize(height, width) == Ok::<Session, AppError>(set_back(resized, by)));
            lemma_update_state_set_back(resized, now, by);
        }
    } else if erases_key(key) {
        assert(back.erase_key() == set_back(s.erase_key(), by));
        lemma_update_state_set_back(s.erase_key(), now, by);
    } else if key == Input::Character('\x17') {
        lemma_last_space_in(s.current_word, 0, s.current_word.len() as int);
        assert(back.erase_word() == set_back(s.erase_word(), by));
        lemma_update_state_set_back(s.erase_word(), now, by);
    } else if key == Input::Character(' ') && s.current_word.len() < s.current_word_limit {
        assert(back.space_key() == set_back(s.space_key(), by));
        lemma_update_state_set_back(s.space_key(), now, by);
    } else if key is Character && !is_control(key->Character_0) {
        assert(back.append_key(key->Character_0) == set_back(s.append_key(key->Character_0), by));
        lemma_update_state_set_back(s.append_key(key->Character_0), now, by);
    }
}

/// A key taken as typing does the same to a session whose clock is set
/// back: the same action, the same failure, and the same session but for the
/// clock.
pub proof fn lemma_typing_mode_set_back(
    s: Session,
    key: Input,
    now: u64,
    height: i32,
    width: i32,
    by: int,
)
    requires
        s.wf(),
        s.mode == Mode::Typing,
        s.key_strokes.len() < usize::MAX,
        0 <= by <= now,
        s.first_key_pressed ==> by <= s.start_time,
    ensures
        match s.typing_mode(key, now, height, width) {
            Ok((after, action)) => set_back(s, by).typing_mode(
                key,
                (now - by) as u64,
                height,
                width,
            ) == Ok::<(Session, Action), AppError>((set_back(after, by), action)),
            Err(e) => set_back(s, by).typing_mode(key, (now - by) as u64, height, width) == Err::<
                (Session, Action),
                AppError,
            >(e),
        },
{
    let back = set_back(s, by);
    if key == Input::Character('\x03') {
    } else if !s.first_key_pressed && !starts_timer(key) {
    } else if s.key_strokes.len() > 0 && now < s.key_strokes.last().0 {
        assert(s.first_key_pressed);
        assert(s.key_strokes[0].0 <= s.key_strokes.last().0);
    } else {
        if s.first_key_pressed {
            assert(s.key_strokes[0].0 <= s.key_strokes.last().0);
        }
        lemma_recorded_wf(s, key, now);
        let logged = recorded(s, key, now);
        assert(recorded(back, key, (now - by) as u64).key_strokes =~= shift_log(
            logged.key_strokes,
            by,
        ));
        assert(recorded(back, key, (now - by) as u64) == set_back(logged, by));
        lemma_key_printer_set_back(logged, key, now, height, width, by);
    }
}

/// The replay after `count` more keys were played.
pub open spec fn replayed(start: ReplayState, count: int, height: i32, width: i32) -> Result<
    ReplayState,
    AppError,
>
    decreases count,
{
    if count <= 0 {
        Ok(start)
    } else {
        match replayed(start, count - 1, height, width) {
            Err(e) => Err(e),
            Ok(before) => match before.step(height, width) {
                Err(e) => Err(e),
                Ok((after, _)) => Ok(after),
            },
        }
    }
}

/// The keys of a log of times between keys, each with the time at which a
/// replay plays it: the sum of the times up to it.
pub open spec fn clock_times(log: Seq<(u64, Input)>) -> Seq<(u64, Input)> {
    Seq::new(log.len(), |i: int| (elapsed_until(log, i + 1) as u64, log[i].1))
}

/// A replay plays the keys of its log at the times of its own clock.
pub proof fn lemma_replayed_is_run(
    start: Session,
    log: Seq<(u64, Input)>,
    count: int,
    height: i32,
    width: i32,
)
    requires
        0 <= count <= log.len(),
        elapsed_until(log, log.len() as int) <= u64::MAX,
    ensures
        match run(start, clock_times(log).take(count), height, width) {
            Ok(session) => replayed(
                ReplayState { session: start, log: log, position: 0, clock: 0 },
                count,
                height,
                width,
            ) == Ok::<ReplayState, AppError>(
                ReplayState {
                    session: session,
                    log: log,
                    position: count,
                    clock: elapsed_until(log, count) as u64,
                },
            ),
            Err(e) => replayed(
                ReplayState { session: start, log: log, position: 0, clock: 0 },
                count,
                height,
                width,
            ) == Err::<ReplayState, AppError>(e),
        },
    decreases count,
{
    let events = clock_times(log).take(count);
    if count > 0 {
        lemma_replayed_is_run(start, log, count - 1, height, width);
        assert(events.drop_last() =~= clock_times(log).take(count - 1));
        assert(events.last() == (elapsed_until(log, count) as u64, log[count - 1].1));
        lemma_elapsed_grows(log, count - 1, count - 1);
        lemma_elapsed_grows(log, count, log.len() as int);
    } else {
        assert(events =~= Seq::<(u64, Input)>::empty());
    }
}

/// What holds of a session that a run of keys has led to from `start`, a
/// session laid out for the window in which nothing was typed: it is on the
/// same text, and the keys it has recorded lead to it again from `start`, on
/// a clock that starts with the first of them.
pub open spec fn led_to(
    start: Session,
    live: Session,
    height: i32,
    width: i32,
) -> bool {
    &&& live.wf()
    &&& live.reset() == start
    &&& (live.mode == Mode::Typing && live.first_key_pressed ==> run(
        start,
        shift_log(live.key_strokes, live.start_time as int),
        height,
        width,
    ) == Ok::<Session, AppError>(set_back(live, live.start_time as int)))
    &&& (live.mode == Mode::Finished ==> run(
        start,
        clock_times(live.key_strokes),
        height,
        width,
    ) == Ok::<Session, AppError>(set_back(live, live.start_time as int)))
}

/// The times at which a replay plays a log of times between keys are the
/// times of the keys themselves, on a clock that starts with the first key.
proof fn lemma_clock_times_of_deltas(log: Seq<(u64, Input)>)
    requires
        times_ordered(log),
        log.len() > 0,
    ensures
        clock_times(deltas(log)) == shift_log(log, log[0].0 as int),
{
    assert forall|i: int| 0 <= i < log.len() implies clock_times(deltas(log))[i] == shift_log(
        log,
        log[0].0 as int,
    )[i] by {
        lemma_deltas_add_up(log, i + 1);
        assert(log[0].0 <= log[i].0);
    }
    assert(clock_times(deltas(log)) =~= shift_log(log, log[0].0 as int));
}

/// One more key keeps what `led_to` says.
proof fn lemma_step_led_to(
    start: Session,
    live: Session,
    key: Input,
    now: u64,
    height: i32,
    width: i32,
)
    requires
        starts_run(start, height, width),
        led_to(start, live, height, width),
        live.mode == Mode::Typing,
        live.key_strokes.len() < usize::MAX,
        live.typing_mode(key, now, height, width) is Ok,
    ensures
        led_to(start, live.typing_mode(key, now, height, width)->Ok_0.0, height, width),
        live.typing_mode(key, now, height, width)->Ok_0.0.key_strokes.len()
            <= live.key_strokes.len() + 1,
{
    let after = live.typing_mode(key, now, height, width)->Ok_0.0;
    lemma_typing_mode_wf(live, key, now, height, width);
    assert(live.resize(height, width) is Ok ==> live.resize(height, width)->Ok_0.reset() == start);
    if key == Input::Character('\x03') {
    } else if !live.first_key_pressed && !starts_timer(key) {
    } else {
        let logged = recorded(live, key, now);
        lemma_recorded_wf(live, key, now);
        let first = logged.start_time as int;
        assert(logged.key_strokes[0].0 <= logged.key_strokes.last().0);
        lemma_typing_mode_set_back(live, key, now, height, width, first);
        let before = shift_log(live.key_strokes, first);
        let events = shift_log(logged.key_strokes, first);
        assert(events.drop_last() =~= before);
        assert(events.last() == ((now - first) as u64, key));
        assert(run(start, before, height, width) == Ok::<Session, AppError>(set_back(live, first)))
            by {
            if !live.first_key_pressed {
                assert(before =~= Seq::<(u64, Input)>::empty());
                assert(live == start);
            }
        }
        assert(run(start, events, height, width) == Ok::<Session, AppError>(
            set_back(after, first),
        ));
        assert(after.reset() == start) by {
            assert(logged.reset() == start);
            if key == Input::KeyResize {
                assert(logged.resize(height, width) is Ok ==> logged.resize(
                    height,
                    width,
                )->Ok_0.reset() == start);
            }
        }
        if after.mode == Mode::Finished {
            assert(after.key_strokes == deltas(logged.key_strokes));
            assert(after.start_time == logged.start_time);
            lemma_clock_times_of_deltas(logged.key_strokes);
        } else if after.first_key_pressed {
            assert(after.key_strokes == logged.key_strokes);
            assert(after.start_time == logged.start_time);
        }
    }
}

/// Every session that a run of keys leads to from `start` is one that its
/// own recorded keys lead to again.
pub proof fn lemma_run_led_to(
    start: Session,
    events: Seq<(u64, Input)>,
    height: i32,
    width: i32,
)
    requires
        starts_run(start, height, width),
        events.len() < usize::MAX,
        run(start, events, height, width) is Ok,
    ensures
        led_to(start, run(start, events, height, width)->Ok_0, height, width),
        run(start, events, height, width)->Ok_0.key_strokes.len() <= events.len(),
    decreases events.len(),
{
    if events.len() == 0 {
        assert(shift_log(start.key_strokes, start.start_time as int) =~= Seq::<
            (u64, Input),
        >::empty());
    } else {
        lemma_run_led_to(start, events.drop_last(), height, width);
        let before = run(start, events.drop_last(), height, width)->Ok_0;
        if before.mode == Mode::Typing {
            lemma_step_led_to(start, before, events.last().1, events.last().0, height, width);
        }
    }
}

/// Replay is deterministic: a run of keys that ends finished has recorded
/// what it takes to do it again. Played from a session on the same text in
/// the same window in which nothing is typed, the recorded keys lead to the
/// same finished session, with all that was typed, the positions of the
/// mismatches, the speed, the accuracy and the time taken; only the clock
/// differs, which for the replay starts at 0.
pub proof fn lemma_replay_reproduces_run(
    start: Session,
    events: Seq<(u64, Input)>,
    height: i32,
    width: i32,
)
    requires
        starts_run(start, height, width),
        events.len() < usize::MAX,
        run(start, events, height, width) is Ok,
        run(start, events, height, width)->Ok_0.mode == Mode::Finished,
    ensures
        ({
            let live = run(start, events, height, width)->Ok_0;
            let replay = replayed(
                ReplayState { session: start, log: live.key_strokes, position: 0, clock: 0 },
                live.key_strokes.len() as int,
                height,
                width,
            );
            &&& replay is Ok
            &&& replay->Ok_0.is_done()
            &&& replay->Ok_0.session == Session { start_time: 0, ..live }
            &&& replay->Ok_0.session.current_string == live.current_string
            &&& replay->Ok_0.session.mistyped_keys == live.mistyped_keys
            &&& replay->Ok_0.session.current_speed_wpm == live.current_speed_wpm
            &&& replay->Ok_0.session.accuracy == live.accuracy
            &&& replay->Ok_0.session.time_taken == live.time_taken
        }),
{
    let live = run(start, events, height, width)->Ok_0;
    lemma_run_led_to(start, events, height, width);
    lemma_replayed_is_run(start, live.key_strokes, live.key_strokes.len() as int, height, width);
    assert(clock_times(live.key_strokes).take(live.key_strokes.len() as int) =~= clock_times(
        live.key_strokes,
    ));
}

} // verus!
