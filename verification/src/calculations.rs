use vstd::prelude::*;

use crate::text::{chars_of, string_of};
use crate::timer::{get_elapsed_minutes_since_first_keypress, MICROS_PER_MINUTE};
use crate::{AppError, AppResult};

verus! {

/// `typed` and `reference` hold the same character at every position below `k`.
pub open spec fn agree_below(typed: Seq<char>, reference: Seq<char>, k: int) -> bool {
    &&& 0 <= k <= typed.len()
    &&& k <= reference.len()
    &&& forall|i: int| 0 <= i < k ==> typed[i] == reference[i]
}

/// `k` is the first position at which `typed` and `reference` differ, or the
/// length of the shorter of the two when one is a prefix of the other.
pub open spec fn is_first_mismatch(typed: Seq<char>, reference: Seq<char>, k: int) -> bool {
    &&& agree_below(typed, reference, k)
    &&& (k < typed.len() && k < reference.len() ==> typed[k] != reference[k])
}

/// The position that `is_first_mismatch` describes.
pub open spec fn first_mismatch(typed: Seq<char>, reference: Seq<char>) -> int {
    choose|k: int| is_first_mismatch(typed, reference, k)
}

/// Some position is the first mismatch of any two sequences.
pub proof fn lemma_first_mismatch_exists(typed: Seq<char>, reference: Seq<char>, from: int)
    requires
        agree_below(typed, reference, from),
    ensures
        exists|k: int| from <= k && is_first_mismatch(typed, reference, k),
    decreases typed.len() - from,
{
    if from < typed.len() && from < reference.len() && typed[from] == reference[from] {
        lemma_first_mismatch_exists(typed, reference, from + 1);
    } else {
        assert(is_first_mismatch(typed, reference, from));
    }
}

/// Only one position is the first mismatch: whatever satisfies the
/// description is the value of `first_mismatch`.
pub proof fn lemma_first_mismatch_unique(typed: Seq<char>, reference: Seq<char>, k: int)
    requires
        is_first_mismatch(typed, reference, k),
    ensures
        first_mismatch(typed, reference) == k,
{
    let c = first_mismatch(typed, reference);
    assert(is_first_mismatch(typed, reference, c));
    if c < k {
        assert(typed[c] == reference[c]);
    } else if k < c {
        assert(typed[k] == reference[k]);
    }
}

/// `first_mismatch` meets its own description on every pair of sequences.
pub proof fn lemma_first_mismatch_is_first(typed: Seq<char>, reference: Seq<char>)
    ensures
        is_first_mismatch(typed, reference, first_mismatch(typed, reference)),
{
    lemma_first_mismatch_exists(typed, reference, 0);
}

/// A sequence compared with itself differs nowhere: the result is its length.
pub proof fn lemma_first_mismatch_same(s: Seq<char>)
    ensures
        first_mismatch(s, s) == s.len(),
{
    lemma_first_mismatch_unique(s, s, s.len() as int);
}

/// Nothing typed yet: the result is 0 against every reference, empty or not.
pub proof fn lemma_first_mismatch_empty(s: Seq<char>)
    ensures
        first_mismatch(Seq::<char>::empty(), s) == 0,
        first_mismatch(s, Seq::<char>::empty()) == 0,
{
    lemma_first_mismatch_unique(Seq::<char>::empty(), s, 0);
    lemma_first_mismatch_unique(s, Seq::<char>::empty(), 0);
}

/// Two sequences of equal length that differ at position `k` and nowhere
/// before it have `k` as their first mismatch.
pub proof fn lemma_first_mismatch_single_difference(s1: Seq<char>, s2: Seq<char>, k: int)
    requires
        s1.len() == s2.len(),
        0 <= k < s1.len(),
        s1[k] != s2[k],
        forall|i: int| 0 <= i < k ==> s1[i] == s2[i],
    ensures
        first_mismatch(s1, s2) == k,
{
    lemma_first_mismatch_unique(s1, s2, k);
}

/// The result equals the length of `reference` exactly when `reference` is a
/// prefix of `typed`: the condition under which a session is complete.
pub proof fn lemma_first_mismatch_complete(typed: Seq<char>, reference: Seq<char>)
    ensures
        first_mismatch(typed, reference) == reference.len() <==> reference.is_prefix_of(typed),
{
    lemma_first_mismatch_is_first(typed, reference);
    let k = first_mismatch(typed, reference);
    if reference.is_prefix_of(typed) {
        assert(reference.len() <= typed.len());
        assert(reference =~= typed.subrange(0, reference.len() as int));
        assert forall|i: int| 0 <= i < reference.len() implies typed[i] == reference[i] by {
            assert(typed.subrange(0, reference.len() as int)[i] == typed[i]);
        }
        lemma_first_mismatch_unique(typed, reference, reference.len() as int);
    }
    if k == reference.len() {
        assert(reference =~= typed.subrange(0, reference.len() as int));
    }
}

/// First position at which two character vectors differ.
pub fn first_mismatch_of(typed: &Vec<char>, reference: &Vec<char>) -> (index: usize)
    ensures
        is_first_mismatch(typed@, reference@, index as int),
        index == first_mismatch(typed@, reference@),
{
    let length: usize = if typed.len() < reference.len() {
        typed.len()
    } else {
        reference.len()
    };
    let mut index: usize = 0;
    while index < length
        invariant
            index <= length,
            length <= typed.len(),
            length <= reference.len(),
            length == typed.len() || length == reference.len(),
            agree_below(typed@, reference@, index as int),
        decreases length - index,
    {
        if typed[index] != reference[index] {
            proof {
                lemma_first_mismatch_unique(typed@, reference@, index as int);
            }
            return index;
        }
        index += 1;
    }
    proof {
        lemma_first_mismatch_unique(typed@, reference@, index as int);
    }
    index
}

/// Return the index at which two strings first differ, counted in
/// characters; the length of the shorter one if it is a prefix of the other.
///
/// The text before this index is shown dimmed, the text typed after it is
/// shown as mistyped.
pub fn first_index_at_which_strings_differ(string1: &str, string2: &str) -> (index: usize)
    ensures
        is_first_mismatch(string1@, string2@, index as int),
        index == first_mismatch(string1@, string2@),
{
    let typed = chars_of(string1);
    let reference = chars_of(string2);
    first_mismatch_of(&typed, &reference)
}

/// `text` holds a space at each of the `count` positions from `index` on, and
/// the run ends there: at the end of `text` or before another character.
pub open spec fn is_space_run(text: Seq<char>, index: int, count: int) -> bool {
    &&& 0 <= count
    &&& index + count <= text.len() || count == 0
    &&& forall|j: int| index <= j < index + count ==> text[j] == ' '
    &&& (0 <= index + count < text.len() ==> text[index + count] != ' ')
}

/// The number of spaces that `text` holds in a row from `index` on; 0 when
/// `index` is outside `text`.
pub open spec fn space_run(text: Seq<char>, index: int) -> int {
    choose|count: int| is_space_run(text, index, count)
}

/// Only one count is the run of spaces at `index` in `text`.
pub proof fn lemma_space_run_unique(text: Seq<char>, index: int, count: int)
    requires
        0 <= index,
        is_space_run(text, index, count),
    ensures
        space_run(text, index) == count,
{
    let c = space_run(text, index);
    assert(is_space_run(text, index, c));
    if c < count {
        assert(text[index + c] == ' ');
    } else if count < c {
        assert(text[index + count] == ' ');
    }
}

/// Count the spaces that follow one another in `text` from `index` on.
pub fn space_count_at(index: usize, text: &Vec<char>) -> (count: usize)
    ensures
        is_space_run(text@, index as int, count as int),
        count == space_run(text@, index as int),
{
    let mut count: usize = 0;
    if index < text.len() {
        while count < text.len() - index && text[index + count] == ' '
            invariant
                index < text.len(),
                count <= text.len() - index,
                forall|j: int| index <= j < index + count ==> text@[j] == ' ',
            decreases text.len() - index - count,
        {
            count += 1;
        }
    }
    proof {
        lemma_space_run_unique(text@, index as int, count as int);
    }
    count
}

/// Count the spaces that separate the word ending at `index` from the next
/// one in `text`: the spaces found from `index` on, in characters.
pub fn get_space_count_after_ith_word(index: usize, text: &str) -> (count: usize)
    ensures
        is_space_run(text@, index as int, count as int),
        count == space_run(text@, index as int),
{
    let chars = chars_of(text);
    space_count_at(index, &chars)
}

/// The number of lines of `width` cells that `len` characters fill: `len`
/// divided by `width`, rounded up.
pub open spec fn lines_to_fit(len: int, width: int) -> int
    recommends
        0 <= len,
        0 < width,
{
    if len % width == 0 {
        len / width
    } else {
        len / width + 1
    }
}

/// Lines of `window_width` cells needed for `len` characters.
pub fn lines_for_length(len: usize, window_width: i32) -> (lines: i32)
    requires
        window_width > 0,
    ensures
        lines_to_fit(len as int, window_width as int) <= i32::MAX ==> lines == lines_to_fit(
            len as int,
            window_width as int,
        ),
        lines_to_fit(len as int, window_width as int) > i32::MAX ==> lines == i32::MAX,
{
    let width: usize = window_width as usize;
    let whole: usize = len / width;
    let rest: usize = len % width;
    if rest == 0 {
        if whole > i32::MAX as usize {
            i32::MAX
        } else {
            whole as i32
        }
    } else if whole >= i32::MAX as usize {
        i32::MAX
    } else {
        (whole + 1) as i32
    }
}

/// Count the number of lines required for displaying `string` in a window
/// that is `window_width` cells wide. A count beyond `i32::MAX` is reported
/// as `i32::MAX`.
pub fn number_of_lines_to_fit_text_in_window(string: &str, window_width: i32) -> (lines: i32)
    requires
        window_width > 0,
    ensures
        lines_to_fit(string@.len() as int, window_width as int) <= i32::MAX ==> lines
            == lines_to_fit(string@.len() as int, window_width as int),
        lines_to_fit(string@.len() as int, window_width as int) > i32::MAX ==> lines == i32::MAX,
{
    lines_for_length(string.unicode_len(), window_width)
}

/// The position of the last space of `text` in `lo..hi`, or -1 if there is none.
pub open spec fn last_space_in(text: Seq<char>, lo: int, hi: int) -> int
    decreases hi - lo,
{
    if hi <= lo {
        -1
    } else if text[hi - 1] == ' ' {
        hi - 1
    } else {
        last_space_in(text, lo, hi - 1)
    }
}

/// `text` with the character at `index` replaced by the spaces that fill the
/// cells from `index` up to `boundary`, so that what followed it starts at
/// `boundary`.
pub open spec fn pad_at(text: Seq<char>, index: int, boundary: int) -> Seq<char> {
    text.subrange(0, index) + Seq::new((boundary - index) as nat, |j: int| ' ') + text.subrange(
        index + 1,
        text.len() as int,
    )
}

/// Lay out `text` from the line that ends at `boundary` on. A line that the
/// text ends in is left alone, and so is a line whose last cell holds a
/// space. In any other line the last space before the last cell is widened
/// up to `boundary`; a line without such a space cannot be broken.
pub open spec fn wrap_from(text: Seq<char>, width: int, boundary: int) -> Option<Seq<char>>
    decreases
        (if boundary < text.len() {
            text.len() - boundary
        } else {
            0
        }),
{
    if width <= 0 || boundary < width {
        None
    } else if boundary >= text.len() {
        Some(text)
    } else if text[boundary - 1] == ' ' {
        wrap_from(text, width, boundary + width)
    } else {
        let index = last_space_in(text, boundary - width, boundary - 1);
        if index < 0 {
            None
        } else {
            proof {
                lemma_last_space_in(text, boundary - width, boundary - 1);
            }
            wrap_from(pad_at(text, index, boundary), width, boundary + width)
        }
    }
}

/// `text` laid out for lines of `width` cells, or `None` where the width is
/// not positive or some line cannot be broken.
pub open spec fn wrap(text: Seq<char>, width: int) -> Option<Seq<char>> {
    wrap_from(text, width, width)
}

/// Where `last_space_in` finds a space, it lies in the range and nothing
/// after it in the range is a space; where it finds none, the range holds none.
pub proof fn lemma_last_space_in(text: Seq<char>, lo: int, hi: int)
    requires
        0 <= lo,
        hi <= text.len(),
    ensures
        last_space_in(text, lo, hi) == -1 || lo <= last_space_in(text, lo, hi) < hi,
        last_space_in(text, lo, hi) >= 0 ==> text[last_space_in(text, lo, hi)] == ' ',
        forall|j: int| last_space_in(text, lo, hi) < j < hi && lo <= j ==> text[j] != ' ',
    decreases hi - lo,
{
    if hi > lo && text[hi - 1] != ' ' {
        lemma_last_space_in(text, lo, hi - 1);
    }
}

/// Position of the last space of `text` in `lo..hi`, if there is one.
pub fn find_last_space(text: &Vec<char>, lo: usize, hi: usize) -> (found: Option<usize>)
    requires
        hi <= text.len(),
    ensures
        match found {
            Some(index) => index as int == last_space_in(text@, lo as int, hi as int),
            None => last_space_in(text@, lo as int, hi as int) == -1,
        },
{
    let mut end: usize = hi;
    while end > lo
        invariant
            end <= hi,
            hi <= text.len(),
            last_space_in(text@, lo as int, end as int) == last_space_in(
                text@,
                lo as int,
                hi as int,
            ),
        decreases end,
    {
        if text[end - 1] == ' ' {
            return Some(end - 1);
        }
        end -= 1;
    }
    None
}

/// Replace the character at `index` by spaces up to `boundary`.
fn pad_line(text: &Vec<char>, index: usize, boundary: usize) -> (out: Vec<char>)
    requires
        index < boundary,
        index < text.len(),
    ensures
        out@ == pad_at(text@, index as int, boundary as int),
{
    let mut out: Vec<char> = Vec::new();
    let mut i: usize = 0;
    while i < index
        invariant
            i <= index,
            index < text.len(),
            out@ == text@.subrange(0, i as int),
        decreases index - i,
    {
        out.push(text[i]);
        assert(text@.subrange(0, i + 1) =~= text@.subrange(0, i as int).push(text@[i as int]));
        i += 1;
    }
    let mut filled: usize = index;
    while filled < boundary
        invariant
            index <= filled <= boundary,
            out@ == text@.subrange(0, index as int) + Seq::new(
                (filled - index) as nat,
                |j: int| ' ',
            ),
        decreases boundary - filled,
    {
        out.push(' ');
        assert(Seq::new((filled + 1 - index) as nat, |j: int| ' ') =~= Seq::new(
            (filled - index) as nat,
            |j: int| ' ',
        ).push(' '));
        assert(out@ =~= text@.subrange(0, index as int) + Seq::new(
            (filled + 1 - index) as nat,
            |j: int| ' ',
        ));
        filled += 1;
    }
    let ghost head = out@;
    let mut k: usize = index + 1;
    while k < text.len()
        invariant
            index + 1 <= k <= text.len(),
            out@ == head + text@.subrange(index + 1, k as int),
        decreases text.len() - k,
    {
        out.push(text[k]);
        assert(text@.subrange(index + 1, k + 1) =~= text@.subrange(index + 1, k as int).push(
            text@[k as int],
        ));
        assert(out@ =~= head + text@.subrange(index + 1, k + 1));
        k += 1;
    }
    out
}

/// Lay out a vector of characters for lines of `width` cells.
pub fn wrap_chars(text: Vec<char>, width: i32) -> (wrapped: AppResult<Vec<char>>)
    ensures
        match wrap(text@, width as int) {
            Some(laid_out) => wrapped is Ok && wrapped->Ok_0@ == laid_out,
            None => wrapped is Err,
        },
        width <= 0 ==> wrapped == Err::<Vec<char>, AppError>(AppError::InvalidWidthError(width)),
        width > 0 && wrap(text@, width as int) is None ==> wrapped == Err::<Vec<char>, AppError>(
            AppError::NoCharFoundError(' '),
        ),
{
    if width <= 0 {
        return Err(AppError::InvalidWidthError(width));
    }
    let step: usize = width as usize;
    let ghost given = text@;
    let mut current = text;
    let mut boundary: usize = step;
    while boundary < current.len()
        invariant
            step == width,
            step > 0,
            boundary >= step,
            given == text@,
            wrap_from(current@, width as int, boundary as int) == wrap(given, width as int),
        decreases current.len() - boundary,
    {
        if current[boundary - 1] != ' ' {
            match find_last_space(&current, boundary - step, boundary - 1) {
                None => {
                    assert(wrap_from(current@, width as int, boundary as int) is None);
                    return Err(AppError::NoCharFoundError(' '));
                },
                Some(index) => {
                    proof {
                        lemma_last_space_in(current@, boundary - step, boundary - 1);
                    }
                    let ghost before = current@;
                    current = pad_line(&current, index, boundary);
                    assert(current@.len() == before.len() + boundary - index - 1);
                },
            }
        }
        if current.len() - boundary <= step {
            assert(wrap_from(current@, width as int, boundary + step) == Some(current@));
            return Ok(current);
        }
        boundary += step;
    }
    assert(wrap_from(current@, width as int, boundary as int) == Some(current@));
    Ok(current)
}

/// Wrap text on the screen according to the window width.
///
/// Returns the text with extra spaces, which make each word start on the
/// line that holds it whole. Fails where the width is not positive, and where
/// a line holds no space before its last cell.
pub fn word_wrap(text: &str, width: i32) -> (wrapped: AppResult<String>)
    ensures
        match wrap(text@, width as int) {
            Some(laid_out) => wrapped is Ok && wrapped->Ok_0@ == laid_out,
            None => wrapped is Err,
        },
        width <= 0 ==> wrapped == Err::<String, AppError>(AppError::InvalidWidthError(width)),
        width > 0 && wrap(text@, width as int) is None ==> wrapped == Err::<String, AppError>(
            AppError::NoCharFoundError(' '),
        ),
{
    match wrap_chars(chars_of(text), width) {
        Ok(laid_out) => Ok(string_of(&laid_out)),
        Err(e) => Err(e),
    }
}

/// A rational number that is not negative: `numerator / denominator`.
#[derive(Clone, Copy, Debug)]
pub struct Ratio {
    pub numerator: u128,
    pub denominator: u64,
}

impl Ratio {
    /// The denominator is not 0.
    pub open spec fn wf(self) -> bool {
        self.denominator > 0
    }

    /// The ratio is the whole number `n`.
    pub open spec fn is_whole(self, n: int) -> bool {
        self.numerator == n * self.denominator
    }

    /// The ratio is less than the whole number `n`.
    pub open spec fn below_whole(self, n: int) -> bool {
        self.numerator < n * self.denominator
    }
}

/// Words per minute: `token_count` words in `elapsed_micros` microseconds.
/// While no time has passed there is no rate yet, which is reported as 0.
pub open spec fn wpm(token_count: int, elapsed_micros: int) -> Ratio {
    if elapsed_micros == 0 {
        Ratio { numerator: 0, denominator: 1 }
    } else {
        Ratio {
            numerator: (token_count * MICROS_PER_MINUTE) as u128,
            denominator: elapsed_micros as u64,
        }
    }
}

/// The speed at which `token_count` words were typed in `elapsed_micros`
/// microseconds, in words per minute.
pub fn words_per_minute(token_count: usize, elapsed_micros: u64) -> (speed: Ratio)
    ensures
        speed == wpm(token_count as int, elapsed_micros as int),
        speed.wf(),
{
    if elapsed_micros == 0 {
        Ratio { numerator: 0, denominator: 1 }
    } else {
        assert(token_count * MICROS_PER_MINUTE <= u128::MAX) by (nonlinear_arith)
            requires
                token_count <= u64::MAX,
                MICROS_PER_MINUTE == 60_000_000,
        ;
        Ratio {
            numerator: token_count as u128 * MICROS_PER_MINUTE as u128,
            denominator: elapsed_micros as u64,
        }
    }
}

/// Calculate the speed in words per minute.
///
/// `token_count` is the number of words of the sample text, `start_time` the
/// reading of the clock when typing started and `now` the current reading,
/// both in microseconds. Fails where the clock went backward.
pub fn speed_in_wpm(token_count: usize, start_time: u64, now: u64) -> (speed: AppResult<Ratio>)
    ensures
        now >= start_time ==> speed == Ok::<Ratio, AppError>(
            wpm(token_count as int, now - start_time),
        ),
        now < start_time ==> speed == Err::<Ratio, AppError>(
            AppError::TimeError((start_time - now) as u64),
        ),
{
    match get_elapsed_minutes_since_first_keypress(start_time, now) {
        Err(e) => Err(e),
        Ok(elapsed) => Ok(words_per_minute(token_count, now - start_time)),
    }
}

/// The characters typed beyond those of the sample text, all counted as
/// wrong: `total_chars_typed - text_length`, and 0 while fewer were typed.
pub open spec fn wrongly_typed(total_chars_typed: int, text_length: int) -> int {
    if total_chars_typed >= text_length {
        total_chars_typed - text_length
    } else {
        0
    }
}

/// Count the characters typed beyond those of the sample text.
pub fn wrongly_typed_chars(total_chars_typed: usize, text_length: usize) -> (wrong: usize)
    ensures
        wrong == wrongly_typed(total_chars_typed as int, text_length as int),
{
    if total_chars_typed >= text_length {
        total_chars_typed - text_length
    } else {
        0
    }
}

/// The share of rightly typed characters in percent:
/// `(total - wrong) / total * 100`. With nothing typed it is 100, and with
/// more wrong than typed it is 0.
pub open spec fn accuracy_pct(total_chars_typed: int, wrongly_typed: int) -> Ratio {
    if total_chars_typed == 0 {
        Ratio { numerator: 100, denominator: 1 }
    } else if wrongly_typed >= total_chars_typed {
        Ratio { numerator: 0, denominator: total_chars_typed as u64 }
    } else {
        Ratio {
            numerator: ((total_chars_typed - wrongly_typed) * 100) as u128,
            denominator: total_chars_typed as u64,
        }
    }
}

/// Calculate the accuracy of a session in percent.
pub fn accuracy(total_chars_typed: usize, wrongly_typed: usize) -> (percent: Ratio)
    ensures
        percent == accuracy_pct(total_chars_typed as int, wrongly_typed as int),
        percent.wf(),
{
    if total_chars_typed == 0 {
        Ratio { numerator: 100, denominator: 1 }
    } else if wrongly_typed >= total_chars_typed {
        Ratio { numerator: 0, denominator: total_chars_typed as u64 }
    } else {
        Ratio {
            numerator: (total_chars_typed - wrongly_typed) as u128 * 100,
            denominator: total_chars_typed as u64,
        }
    }
}

/// With the time fixed, the speed grows in proportion to the number of
/// words: `k` times the words give `k` times the speed.
pub proof fn lemma_wpm_linear(token_count: int, k: int, elapsed_micros: int)
    requires
        0 <= token_count,
        0 <= k,
        0 <= elapsed_micros <= u64::MAX,
        k * token_count <= usize::MAX,
        token_count <= usize::MAX,
    ensures
        wpm(k * token_count, elapsed_micros).numerator == k * wpm(
            token_count,
            elapsed_micros,
        ).numerator,
        wpm(k * token_count, elapsed_micros).denominator == wpm(
            token_count,
            elapsed_micros,
        ).denominator,
{
    if elapsed_micros != 0 {
        assert(k * token_count * MICROS_PER_MINUTE == k * (token_count * MICROS_PER_MINUTE))
            by (nonlinear_arith);
        assert(0 <= token_count * MICROS_PER_MINUTE <= u128::MAX) by (nonlinear_arith)
            requires
                0 <= token_count <= usize::MAX,
                usize::MAX <= u64::MAX,
                MICROS_PER_MINUTE == 60_000_000,
        ;
        assert(0 <= (k * token_count) * MICROS_PER_MINUTE <= u128::MAX) by (nonlinear_arith)
            requires
                0 <= k * token_count <= usize::MAX,
                usize::MAX <= u64::MAX,
                MICROS_PER_MINUTE == 60_000_000,
        ;
    }
}

/// The accuracy is 100 percent exactly when nothing was typed wrongly.
pub proof fn lemma_accuracy_full(total_chars_typed: int, wrongly_typed: int)
    requires
        0 < total_chars_typed <= usize::MAX,
        0 <= wrongly_typed <= usize::MAX,
    ensures
        accuracy_pct(total_chars_typed, wrongly_typed).is_whole(100) <==> wrongly_typed == 0,
        wrongly_typed > 0 ==> accuracy_pct(total_chars_typed, wrongly_typed).below_whole(100),
{
    if wrongly_typed < total_chars_typed {
        assert(0 <= (total_chars_typed - wrongly_typed) * 100 <= u128::MAX) by (nonlinear_arith)
            requires
                0 <= total_chars_typed - wrongly_typed <= usize::MAX,
                usize::MAX <= u64::MAX,
        ;
    }
}

} // verus!
