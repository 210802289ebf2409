use vstd::prelude::*;

use crate::calculations::{
    last_space_in, lemma_accuracy_full, lemma_first_mismatch_unique, lemma_last_space_in,
    lemma_space_run_unique, pad_at, wrap, wrap_from,
};
use crate::keycheck::{is_control, starts_timer, Input};
use crate::layout_proofs::lemma_pad_at;
use crate::session_proofs::{lemma_recorded_wf, lemma_typing_mode_wf, recorded, run, starts_run};
use crate::session::{times_ordered, Action, Mode, Session};
use crate::tokens::{join_tokens, longest_token};
use crate::AppError;

verus! {

/// Where word `i` starts in the words joined by single spaces.
pub open spec fn token_start(tokens: Seq<Seq<char>>, i: int) -> int
    decreases i,
{
    if i <= 0 {
        0
    } else {
        token_start(tokens, i - 1) + tokens[i - 1].len() + 1
    }
}

/// The start of a word depends on the words before it alone.
proof fn lemma_token_start_prefix(tokens: Seq<Seq<char>>, count: int, i: int)
    requires
        0 <= i <= count <= tokens.len(),
    ensures
        token_start(tokens.take(count), i) == token_start(tokens, i),
        0 <= token_start(tokens, i),
    decreases i,
{
    if i > 0 {
        lemma_token_start_prefix(tokens, count, i - 1);
    }
}

/// The words joined by single spaces hold each word at its start, a space
/// after each word but the last, and nothing after the last word.
pub proof fn lemma_join_structure(tokens: Seq<Seq<char>>)
    requires
        tokens.len() >= 1,
    ensures
        join_tokens(tokens).len() == token_start(tokens, tokens.len() - 1) + tokens.last().len(),
        forall|i: int, j: int|
            0 <= i < tokens.len() && 0 <= j < tokens[i].len() ==> join_tokens(tokens)[#[trigger] token_start(
                tokens,
                i,
            ) + j] == #[trigger] tokens[i][j],
        forall|i: int|
            0 <= i < tokens.len() - 1 ==> join_tokens(tokens)[#[trigger] token_start(tokens, i)
                + tokens[i].len()] == ' ',
    decreases tokens.len(),
{
    let n = tokens.len() as int;
    let joined = join_tokens(tokens);
    if n == 1 {
        assert(token_start(tokens, 0) == 0);
        assert forall|i: int, j: int|
            0 <= i < tokens.len() && 0 <= j < tokens[i].len() implies joined[#[trigger] token_start(
            tokens,
            i,
        ) + j] == #[trigger] tokens[i][j] by {
            assert(i == 0);
        }
    } else {
        let before = tokens.drop_last();
        let head = join_tokens(before);
        lemma_join_structure(before);
        assert(before =~= tokens.take(n - 1));
        assert(joined == head + seq![' '] + tokens.last());
        lemma_token_start_prefix(tokens, n - 1, n - 2);
        assert(before.last() == tokens[n - 2]);
        assert(token_start(tokens, n - 1) == head.len() + 1);
        assert forall|i: int, j: int|
            0 <= i < tokens.len() && 0 <= j < tokens[i].len() implies joined[#[trigger] token_start(
            tokens,
            i,
        ) + j] == #[trigger] tokens[i][j] by {
            if i < n - 1 {
                lemma_token_start_prefix(tokens, n - 1, i);
                lemma_token_start_prefix(tokens, n - 1, n - 2);
                lemma_token_start_grows(tokens, i, n - 2);
                assert(before[i] == tokens[i]);
                assert(head[token_start(before, i) + j] == before[i][j]);
            }
        }
        assert forall|i: int| 0 <= i < tokens.len() - 1 implies joined[#[trigger] token_start(
            tokens,
            i,
        ) + tokens[i].len()] == ' ' by {
            lemma_token_start_prefix(tokens, n - 1, i);
            if i < n - 2 {
                lemma_token_start_grows(tokens, i, n - 2);
                lemma_token_start_prefix(tokens, n - 1, n - 2);
                assert(before[i] == tokens[i]);
                assert(head[token_start(before, i) + before[i].len()] == ' ');
            }
        }
    }
}

/// A later word starts after an earlier word has ended.
proof fn lemma_token_start_grows(tokens: Seq<Seq<char>>, i: int, k: int)
    requires
        0 <= i <= k < tokens.len(),
    ensures
        i < k ==> token_start(tokens, i) + tokens[i].len() < token_start(tokens, k),
        i == k ==> token_start(tokens, i) == token_start(tokens, k),
    decreases k - i,
{
    if i < k {
        lemma_token_start_grows(tokens, i, k - 1);
        lemma_token_start_prefix(tokens, tokens.len() as int, k - 1);
    }
}

/// No word is longer than the longest.
pub proof fn lemma_longest_token(tokens: Seq<Seq<char>>, i: int)
    requires
        0 <= i < tokens.len(),
    ensures
        tokens[i].len() <= longest_token(tokens),
    decreases tokens.len(),
{
    if i < tokens.len() - 1 {
        lemma_longest_token(tokens.drop_last(), i);
    }
}

/// The cells of `text` from `places[k]` up to `places[k + 1]` show the
/// character `raw[k]`: one cell for a character that is no space, one or
/// more cells of spaces for a space.
pub open spec fn shows(raw: Seq<char>, text: Seq<char>, places: Seq<int>, k: int) -> bool {
    &&& places[k] < places[k + 1]
    &&& (raw[k] != ' ' ==> places[k + 1] == places[k] + 1)
    &&& forall|x: int| places[k] <= x < places[k + 1] ==> #[trigger] text[x] == raw[k]
}

/// `text` is `raw` with some of its spaces widened: `places` gives for each
/// character of `raw` the cell of `text` where it is shown, and at last the
/// length of `text`.
pub open spec fn stretches(raw: Seq<char>, text: Seq<char>, places: Seq<int>) -> bool {
    &&& places.len() == raw.len() + 1
    &&& places[0] == 0
    &&& places[raw.len() as int] == text.len()
    &&& forall|k: int| 0 <= k < raw.len() ==> #[trigger] shows(raw, text, places, k)
}

/// The places of a text in itself.
pub open spec fn same_places(raw: Seq<char>) -> Seq<int> {
    Seq::new(raw.len() + 1, |k: int| k)
}

/// A text is itself with no space widened.
pub proof fn lemma_stretches_itself(raw: Seq<char>)
    ensures
        stretches(raw, raw, same_places(raw)),
{
    assert forall|k: int| 0 <= k < raw.len() implies #[trigger] shows(
        raw,
        raw,
        same_places(raw),
        k,
    ) by {}
}

/// The places grow.
pub proof fn lemma_places_grow(
    raw: Seq<char>,
    text: Seq<char>,
    places: Seq<int>,
    early: int,
    late: int,
)
    requires
        stretches(raw, text, places),
        0 <= early <= late <= raw.len(),
    ensures
        places[early] <= places[late],
        early < late ==> places[early] < places[late],
        0 <= places[early],
        places[late] <= text.len(),
    decreases late - early,
{
    if early < late {
        lemma_places_grow(raw, text, places, early, late - 1);
        assert(shows(raw, text, places, late - 1));
    }
    if early > 0 {
        lemma_places_grow_from_start(raw, text, places, early);
    }
    lemma_places_grow_to_end(raw, text, places, late);
}

proof fn lemma_places_grow_from_start(raw: Seq<char>, text: Seq<char>, places: Seq<int>, k: int)
    requires
        stretches(raw, text, places),
        0 <= k <= raw.len(),
    ensures
        0 <= places[k],
    decreases k,
{
    if k > 0 {
        lemma_places_grow_from_start(raw, text, places, k - 1);
        assert(shows(raw, text, places, k - 1));
    }
}

proof fn lemma_places_grow_to_end(raw: Seq<char>, text: Seq<char>, places: Seq<int>, k: int)
    requires
        stretches(raw, text, places),
        0 <= k <= raw.len(),
    ensures
        places[k] <= text.len(),
    decreases raw.len() - k,
{
    if k < raw.len() {
        lemma_places_grow_to_end(raw, text, places, k + 1);
        assert(shows(raw, text, places, k));
    }
}

/// Every cell of `text` shows some character of `raw`.
proof fn lemma_locate(raw: Seq<char>, text: Seq<char>, places: Seq<int>, x: int, below: int) -> (k:
    int)
    requires
        stretches(raw, text, places),
        0 <= below <= raw.len(),
        0 <= x < places[below],
    ensures
        0 <= k < below,
        places[k] <= x < places[k + 1],
    decreases below,
{
    if below == 0 {
        0
    } else if places[below - 1] <= x {
        below - 1
    } else {
        lemma_locate(raw, text, places, x, below - 1)
    }
}

/// Widening a space of `text` leaves it a widened `raw`.
proof fn lemma_pad_stretches(
    raw: Seq<char>,
    text: Seq<char>,
    places: Seq<int>,
    index: int,
    boundary: int,
) -> (padded_places: Seq<int>)
    requires
        stretches(raw, text, places),
        0 <= index < text.len(),
        index < boundary,
        text[index] == ' ',
    ensures
        stretches(raw, pad_at(text, index, boundary), padded_places),
{
    let k = lemma_locate(raw, text, places, index, raw.len() as int);
    let shift = boundary - index - 1;
    let padded = pad_at(text, index, boundary);
    let padded_places = Seq::new(
        places.len(),
        |l: int|
            if l <= k {
                places[l]
            } else {
                places[l] + shift
            },
    );
    lemma_pad_at(text, index, boundary);
    assert(shows(raw, text, places, k));
    assert(raw[k] == ' ');
    assert forall|l: int| 0 <= l < raw.len() implies #[trigger] shows(
        raw,
        padded,
        padded_places,
        l,
    ) by {
        assert(shows(raw, text, places, l));
        lemma_places_grow(raw, text, places, l, l);
        lemma_places_grow(raw, text, places, l + 1, l + 1);
        if l < k {
            lemma_places_grow(raw, text, places, l + 1, k);
            assert forall|x: int| padded_places[l] <= x < padded_places[l + 1] implies #[trigger] padded[x]
                == raw[l] by {
                assert(text[x] == raw[l]);
            }
        } else if l == k {
            assert forall|x: int| padded_places[l] <= x < padded_places[l + 1] implies #[trigger] padded[x]
                == raw[l] by {
                if x < index {
                    assert(text[x] == raw[l]);
                } else if x >= boundary {
                    assert(text[x - shift] == raw[l]);
                }
            }
        } else {
            lemma_places_grow(raw, text, places, k + 1, l);
            assert forall|x: int| padded_places[l] <= x < padded_places[l + 1] implies #[trigger] padded[x]
                == raw[l] by {
                assert(text[x - shift] == raw[l]);
            }
        }
    }
    padded_places
}

/// Laying a text out widens some of its spaces and changes nothing else.
pub proof fn lemma_wrap_from_stretches(
    raw: Seq<char>,
    text: Seq<char>,
    places: Seq<int>,
    width: int,
    boundary: int,
) -> (laid_out_places: Seq<int>)
    requires
        stretches(raw, text, places),
        wrap_from(text, width, boundary) is Some,
    ensures
        stretches(raw, wrap_from(text, width, boundary)->0, laid_out_places),
    decreases
        (if boundary < text.len() {
            text.len() - boundary
        } else {
            0
        }),
{
    if boundary >= text.len() {
        places
    } else if text[boundary - 1] == ' ' {
        lemma_wrap_from_stretches(raw, text, places, width, boundary + width)
    } else {
        let index = last_space_in(text, boundary - width, boundary - 1);
        lemma_last_space_in(text, boundary - width, boundary - 1);
        lemma_pad_at(text, index, boundary);
        let padded_places = lemma_pad_stretches(raw, text, places, index, boundary);
        lemma_wrap_from_stretches(
            raw,
            pad_at(text, index, boundary),
            padded_places,
            width,
            boundary + width,
        )
    }
}

/// Every word can be typed: it is not empty, and holds no space and no
/// control code.
pub open spec fn typable(tokens: Seq<Seq<char>>) -> bool {
    &&& forall|i: int| 0 <= i < tokens.len() ==> (#[trigger] tokens[i]).len() > 0
    &&& forall|i: int, j: int|
        0 <= i < tokens.len() && 0 <= j < tokens[i].len() ==> (#[trigger] tokens[i][j]) != ' '
            && !is_control(tokens[i][j])
}

/// The keys of `events` are the characters of the text to type, one after
/// the other, at times that do not go backward.
pub open spec fn types_text(raw: Seq<char>, events: Seq<(u64, Input)>) -> bool {
    &&& events.len() == raw.len()
    &&& times_ordered(events)
    &&& forall|k: int| 0 <= k < raw.len() ==> (#[trigger] events[k]).1 == Input::Character(raw[k])
}

/// A session on words that can be typed, of which the first starts the
/// timer, ready for a run in the window of the given size.
pub open spec fn ready_to_type(start: Session, height: i32, width: i32) -> bool {
    &&& starts_run(start, height, width)
    &&& start.tokens.len() >= 1
    &&& typable(start.tokens)
    &&& start.text_backup == join_tokens(start.tokens)
    &&& starts_timer(Input::Character(start.tokens[0][0]))
}

/// The session after the first `k` characters of the text were typed as
/// they are: `j` characters of word `i` are typed, the words before it are
/// accepted, what was typed is the text as shown up to the place of the next
/// character, and no mismatch was seen.
pub open spec fn typing_at(
    start: Session,
    s: Session,
    events: Seq<(u64, Input)>,
    places: Seq<int>,
    k: int,
    i: int,
    j: int,
) -> bool {
    &&& s.wf()
    &&& s.reset() == start
    &&& s.mode == Mode::Typing
    &&& s.first_key_pressed == (k > 0)
    &&& s.key_strokes == events.take(k)
    &&& s.current_word == start.tokens[i].take(j)
    &&& s.token_index == i
    &&& s.current_string == start.text.take(places[k])
    &&& s.total_chars_typed == k
    &&& s.mistyped_keys == Seq::<usize>::empty()
    &&& !s.test_complete
}

/// The session after all of the text was typed as it is: the run is
/// finished, every word but the last, which no space follows, was accepted,
/// what was typed is the text as shown, no mismatch was seen, and the
/// accuracy is 100 percent.
pub open spec fn finished_exactly(start: Session, s: Session) -> bool {
    &&& s.wf()
    &&& s.mode == Mode::Finished
    &&& s.token_index == start.tokens.len() - 1
    &&& s.current_string == start.text
    &&& s.mistyped_keys == Seq::<usize>::empty()
    &&& s.total_chars_typed == start.text_backup.len()
    &&& s.accuracy.is_whole(100)
    &&& s.test_complete
}

/// The word and the place in it that follow place `j` of word `i`.
pub open spec fn next_in_word(tokens: Seq<Seq<char>>, i: int, j: int) -> (int, int) {
    if j < tokens[i].len() {
        (i, j + 1)
    } else {
        (i + 1, 0)
    }
}

/// One more character of the text, typed as it is, leads from one such
/// session to the next, and the last character finishes the run.
proof fn lemma_exact_key(
    start: Session,
    s: Session,
    events: Seq<(u64, Input)>,
    places: Seq<int>,
    k: int,
    i: int,
    j: int,
    height: i32,
    width: i32,
)
    requires
        ready_to_type(start, height, width),
        types_text(start.text_backup, events),
        events.len() < usize::MAX,
        stretches(start.text_backup, start.text, places),
        0 <= i < start.tokens.len(),
        0 <= j <= start.tokens[i].len(),
        k == token_start(start.tokens, i) + j,
        k < start.text_backup.len(),
        typing_at(start, s, events, places, k, i, j),
    ensures
        s.typing_mode(events[k].1, events[k].0, height, width) is Ok,
        ({
            let (after, action) = s.typing_mode(events[k].1, events[k].0, height, width)->Ok_0;
            let (i2, j2) = next_in_word(start.tokens, i, j);
            if k + 1 < start.text_backup.len() {
                &&& action == Action::Redraw
                &&& typing_at(start, after, events, places, k + 1, i2, j2)
                &&& 0 <= i2 < start.tokens.len()
                &&& 0 <= j2 <= start.tokens[i2].len()
                &&& k + 1 == token_start(start.tokens, i2) + j2
            } else {
                &&& action == Action::SaveHistory
                &&& finished_exactly(start, after)
            }
        }),
{
    let raw = start.text_backup;
    let text = start.text;
    let tokens = start.tokens;
    let n = tokens.len() as int;
    let key = events[k].1;
    let now = events[k].0;
    let c = raw[k];
    assert(key == Input::Character(c));
    lemma_join_structure(tokens);
    lemma_token_start_prefix(tokens, n, i);
    lemma_longest_token(tokens, i);
    assert(shows(raw, text, places, k));
    lemma_places_grow(raw, text, places, k, k);
    lemma_places_grow(raw, text, places, k + 1, raw.len() as int);
    assert(s.text == text && s.tokens == tokens && s.text_backup == raw);
    assert(s.current_word_limit == start.current_word_limit);
    // the key is recorded
    if k > 0 {
        assert(s.key_strokes.last() == events[k - 1]);
        assert(events[k - 1].0 <= events[k].0);
    } else {
        assert(i == 0 && j == 0) by {
            if i > 0 {
                lemma_token_start_grows(tokens, 0, i);
            }
        }
        assert(c == tokens[0][0]);
    }
    if j < tokens[i].len() {
        assert(c == tokens[i][j]);
    } else {
        assert(i < n - 1);
        assert(c == ' ');
    }
    assert(!is_control(c)) by {
        if j < tokens[i].len() {
            assert(!is_control(tokens[i][j]));
        }
    }
    lemma_recorded_wf(s, key, now);
    lemma_typing_mode_wf(s, key, now, height, width);
    let logged = recorded(s, key, now);
    assert(logged.key_strokes =~= events.take(k + 1));
    assert(s.typing_mode(key, now, height, width) == logged.key_printer(key, now, height, width));
    assert(s.current_word.len() < s.current_word_limit) by {
        assert(tokens[i].len() <= raw.len()) by {
            if i < n - 1 {
                lemma_token_start_grows(tokens, i, n - 1);
            }
        }
    }
    let typed = if j < tokens[i].len() {
        logged.append_key(c)
    } else {
        logged.space_key()
    };
    assert(logged.key_printer(key, now, height, width) == Ok::<(Session, Action), AppError>(
        typed.update_state(now),
    ));
    let reached = places[k + 1];
    if j < tokens[i].len() {
        assert(text[places[k]] == c);
        assert(typed.current_string =~= text.take(reached));
        assert(typed.current_word =~= tokens[i].take(j + 1));
    } else {
        assert(s.current_word =~= tokens[i]);
        assert(logged.word_matches());
        lemma_token_start_grows(tokens, i + 1, n - 1);
        assert(k + 1 == token_start(tokens, i + 1));
        assert(raw[token_start(tokens, i + 1) + 0] == tokens[i + 1][0]);
        assert(tokens[i + 1][0] != ' ');
        assert(shows(raw, text, places, k + 1));
        assert(text[places[k + 1]] == raw[k + 1]);
        lemma_space_run_unique(text, places[k], reached - places[k]);
        assert(typed.current_string =~= text.take(reached));
        assert(typed.current_word =~= tokens[i + 1].take(0));
    }
    lemma_first_mismatch_unique(typed.current_string, text, reached);
    assert(typed.diff_index() == reached);
    assert(typed.mistyped_after_update() == typed.mistyped_keys);
    let noted = Session { mistyped_keys: typed.mistyped_after_update(), ..typed };
    assert(noted == typed);
    if k + 1 < raw.len() {
        lemma_places_grow(raw, text, places, k + 1, raw.len() as int);
        assert(!typed.is_complete());
    } else {
        assert(typed.is_complete());
        assert(j < tokens[i].len());
        assert(i == n - 1) by {
            if i < n - 1 {
                lemma_token_start_grows(tokens, i, n - 1);
            }
        }
        assert(text.take(reached) =~= text);
        lemma_accuracy_full(raw.len() as int, 0);
    }
}

/// How often a run of keys hands out a result: the number of keys after
/// which the session asks for the result to be saved.
pub open spec fn emissions(s: Session, events: Seq<(u64, Input)>, height: i32, width: i32) -> int
    decreases events.len(),
{
    if events.len() == 0 {
        0
    } else {
        emissions(s, events.drop_last(), height, width) + (match run(
            s,
            events.drop_last(),
            height,
            width,
        ) {
            Ok(before) => if before.mode == Mode::Typing && before.typing_mode(
                events.last().1,
                events.last().0,
                height,
                width,
            ) matches Ok((_, Action::SaveHistory)) {
                1int
            } else {
                0int
            },
            Err(_) => 0int,
        })
    }
}

/// After the first `k` characters of the text, typed as they are, the
/// session is still typing, at some place in some word, and no result was
/// handed out.
proof fn lemma_exact_prefix(
    start: Session,
    events: Seq<(u64, Input)>,
    places: Seq<int>,
    k: int,
    height: i32,
    width: i32,
) -> (at: (int, int))
    requires
        ready_to_type(start, height, width),
        types_text(start.text_backup, events),
        events.len() < usize::MAX,
        stretches(start.text_backup, start.text, places),
        0 <= k < start.text_backup.len(),
    ensures
        0 <= at.0 < start.tokens.len(),
        0 <= at.1 <= start.tokens[at.0].len(),
        k == token_start(start.tokens, at.0) + at.1,
        run(start, events.take(k), height, width) is Ok,
        typing_at(
            start,
            run(start, events.take(k), height, width)->Ok_0,
            events,
            places,
            k,
            at.0,
            at.1,
        ),
        emissions(start, events.take(k), height, width) == 0,
    decreases k,
{
    if k == 0 {
        assert(events.take(0) =~= Seq::<(u64, Input)>::empty());
        assert(start.tokens[0].take(0) =~= Seq::<char>::empty());
        assert(start.text.take(0) =~= Seq::<char>::empty());
        (0, 0)
    } else {
        let before = lemma_exact_prefix(start, events, places, k - 1, height, width);
        let s = run(start, events.take(k - 1), height, width)->Ok_0;
        lemma_exact_key(start, s, events, places, k - 1, before.0, before.1, height, width);
        assert(events.take(k).drop_last() =~= events.take(k - 1));
        assert(events.take(k).last() == events[k - 1]);
        next_in_word(start.tokens, before.0, before.1)
    }
}

/// Word acceptance: typing the words of the text as they are, with single
/// spaces between them, finishes the run with the last character and hands
/// out one result. Every word but the last is accepted on the space that
/// follows it; no space follows the last word, so the word that is expected
/// at the end is the last one. It holds of words that can be typed, where
/// the first character is one that starts the timer.
pub proof fn lemma_exact_typing_finishes(
    start: Session,
    events: Seq<(u64, Input)>,
    height: i32,
    width: i32,
)
    requires
        ready_to_type(start, height, width),
        types_text(start.text_backup, events),
        events.len() < usize::MAX,
    ensures
        run(start, events, height, width) is Ok,
        finished_exactly(start, run(start, events, height, width)->Ok_0),
        emissions(start, events, height, width) == 1,
        forall|k: int|
            0 <= k < events.len() ==> (#[trigger] run(
                start,
                events.take(k),
                height,
                width,
            ))->Ok_0.mode == Mode::Typing,
{
    let raw = start.text_backup;
    let tokens = start.tokens;
    assert(wrap(raw, width as int) == Some(start.text));
    lemma_stretches_itself(raw);
    let places = lemma_wrap_from_stretches(raw, raw, same_places(raw), width as int, width as int);
    lemma_join_structure(tokens);
    lemma_token_start_prefix(tokens, tokens.len() as int, tokens.len() - 1);
    assert(raw.len() >= 1);
    let last = raw.len() - 1;
    let at = lemma_exact_prefix(start, events, places, last, height, width);
    let s = run(start, events.take(last), height, width)->Ok_0;
    lemma_exact_key(start, s, events, places, last, at.0, at.1, height, width);
    assert(events.take(last) =~= events.drop_last());
    assert(events.last() == events[last]);
    assert forall|k: int| 0 <= k < events.len() implies (#[trigger] run(
        start,
        events.take(k),
        height,
        width,
    ))->Ok_0.mode == Mode::Typing by {
        let _ = lemma_exact_prefix(start, events, places, k, height, width);
    }
}

} // verus!
