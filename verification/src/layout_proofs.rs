use vstd::prelude::*;

use crate::calculations::{last_space_in, lemma_last_space_in, pad_at, wrap, wrap_from};

verus! {

/// Line `k` of `text`, counted from 1 in lines of `width` cells, holds a
/// space in its last cell.
pub open spec fn ends_in_space(text: Seq<char>, width: int, k: int) -> bool {
    text[k * width - 1] == ' '
}

/// Every line of `text` that the text goes beyond ends in a space, from line
/// `first` on: no word runs across the end of such a line.
pub open spec fn breaks_at_spaces_from(text: Seq<char>, width: int, first: int) -> bool {
    forall|k: int| first <= k && k * width < text.len() ==> #[trigger] ends_in_space(text, width, k)
}

/// Every line of `text` that the text goes beyond ends in a space.
pub open spec fn breaks_at_spaces(text: Seq<char>, width: int) -> bool {
    breaks_at_spaces_from(text, width, 1)
}

/// What `pad_at` leaves and what it writes.
pub proof fn lemma_pad_at(text: Seq<char>, index: int, boundary: int)
    requires
        0 <= index < text.len(),
        index < boundary,
    ensures
        pad_at(text, index, boundary).len() == text.len() + boundary - index - 1,
        forall|j: int| 0 <= j < index ==> pad_at(text, index, boundary)[j] == text[j],
        forall|j: int| index <= j < boundary ==> pad_at(text, index, boundary)[j] == ' ',
        forall|j: int|
            boundary <= j < pad_at(text, index, boundary).len() ==> pad_at(
                text,
                index,
                boundary,
            )[j] == text[j - boundary + index + 1],
{
}

proof fn lemma_wrap_from_breaks(text: Seq<char>, width: int, n: int, laid_out: Seq<char>)
    requires
        width > 0,
        n >= 1,
        wrap_from(text, width, n * width) == Some(laid_out),
        forall|k: int| 1 <= k < n && k * width < text.len() ==> #[trigger] ends_in_space(text, width, k),
    ensures
        breaks_at_spaces(laid_out, width),
        laid_out.len() >= text.len(),
    decreases
        (if n * width < text.len() {
            text.len() - n * width
        } else {
            0
        }),
{
    let boundary = n * width;
    assert(boundary >= width) by (nonlinear_arith)
        requires
            boundary == n * width,
            n >= 1,
            width > 0,
    ;
    assert((n + 1) * width == boundary + width) by (nonlinear_arith)
        requires
            boundary == n * width,
    ;
    if boundary >= text.len() {
        assert forall|k: int| 1 <= k && k * width < laid_out.len() implies #[trigger] ends_in_space(
            laid_out,
            width,
            k,
        ) by {
            if k >= n {
                assert(k * width >= n * width) by (nonlinear_arith)
                    requires
                        k >= n,
                        width > 0,
                ;
            }
        }
    } else if text[boundary - 1] == ' ' {
        assert forall|k: int| 1 <= k < n + 1 && k * width < text.len() implies #[trigger] ends_in_space(
            text,
            width,
            k,
        ) by {
            if k == n {
            }
        }
        lemma_wrap_from_breaks(text, width, n + 1, laid_out);
    } else {
        let index = last_space_in(text, boundary - width, boundary - 1);
        lemma_last_space_in(text, boundary - width, boundary - 1);
        let padded = pad_at(text, index, boundary);
        lemma_pad_at(text, index, boundary);
        assert forall|k: int| 1 <= k < n + 1 && k * width < padded.len() implies #[trigger] ends_in_space(
            padded,
            width,
            k,
        ) by {
            if k == n {
                assert(padded[boundary - 1] == ' ');
            } else {
                assert(k * width <= (n - 1) * width) by (nonlinear_arith)
                    requires
                        k <= n - 1,
                        width > 0,
                ;
                assert((n - 1) * width == boundary - width) by (nonlinear_arith)
                    requires
                        boundary == n * width,
                ;
                assert(k * width >= 1) by (nonlinear_arith)
                    requires
                        k >= 1,
                        width > 0,
                ;
                assert(ends_in_space(text, width, k));
                assert(padded[k * width - 1] == text[k * width - 1]);
            }
        }
        lemma_wrap_from_breaks(padded, width, n + 1, laid_out);
    }
}

/// In a text that `wrap` has laid out, every line that the text goes beyond
/// ends in a space, and the text has lost no character.
pub proof fn lemma_wrap_breaks_at_spaces(text: Seq<char>, width: int)
    requires
        wrap(text, width) is Some,
    ensures
        breaks_at_spaces(wrap(text, width)->0, width),
        wrap(text, width)->0.len() >= text.len(),
{
    assert(1 * width == width);
    lemma_wrap_from_breaks(text, width, 1, wrap(text, width)->0);
}

proof fn lemma_wrap_from_fixed(text: Seq<char>, width: int, n: int)
    requires
        width > 0,
        n >= 1,
        breaks_at_spaces_from(text, width, n),
    ensures
        wrap_from(text, width, n * width) == Some(text),
    decreases
        (if n * width < text.len() {
            text.len() - n * width
        } else {
            0
        }),
{
    let boundary = n * width;
    assert(boundary >= width) by (nonlinear_arith)
        requires
            boundary == n * width,
            n >= 1,
            width > 0,
    ;
    assert((n + 1) * width == boundary + width) by (nonlinear_arith)
        requires
            boundary == n * width,
    ;
    if boundary < text.len() {
        assert(ends_in_space(text, width, n));
        lemma_wrap_from_fixed(text, width, n + 1);
    }
}

/// A text in which every line already ends in a space is laid out as it is.
pub proof fn lemma_wrap_fixed(text: Seq<char>, width: int)
    requires
        width > 0,
        breaks_at_spaces(text, width),
    ensures
        wrap(text, width) == Some(text),
{
    assert(1 * width == width);
    lemma_wrap_from_fixed(text, width, 1);
}

/// Laying out a text that was laid out for the same width changes nothing.
pub proof fn lemma_wrap_idempotent(text: Seq<char>, width: int)
    requires
        wrap(text, width) is Some,
    ensures
        wrap(wrap(text, width)->0, width) == wrap(text, width),
{
    lemma_wrap_breaks_at_spaces(text, width);
    lemma_wrap_fixed(wrap(text, width)->0, width);
}

/// A text that fits in one line is laid out as it is; so is the empty text.
pub proof fn lemma_wrap_short(text: Seq<char>, width: int)
    requires
        width > 0,
        text.len() <= width,
    ensures
        wrap(text, width) == Some(text),
{
}

/// Any `width` cells in a row of `text` hold a space: no word is as wide as
/// a line.
pub open spec fn spaced_within(text: Seq<char>, width: int) -> bool {
    forall|i: int|
        0 <= i && i + width <= text.len() ==> #[trigger] last_space_in(text, i, i + width) >= 0
}

/// A range that holds a space has a last space.
proof fn lemma_space_found(text: Seq<char>, lo: int, hi: int, j: int)
    requires
        0 <= lo <= j < hi <= text.len(),
        text[j] == ' ',
    ensures
        last_space_in(text, lo, hi) >= 0,
{
    lemma_last_space_in(text, lo, hi);
}

proof fn lemma_pad_keeps_spaced(text: Seq<char>, width: int, index: int, boundary: int)
    requires
        width > 0,
        0 <= index < text.len(),
        index < boundary,
        text[index] == ' ',
        spaced_within(text, width),
    ensures
        spaced_within(pad_at(text, index, boundary), width),
{
    let padded = pad_at(text, index, boundary);
    lemma_pad_at(text, index, boundary);
    assert forall|i: int| 0 <= i && i + width <= padded.len() implies #[trigger] last_space_in(
        padded,
        i,
        i + width,
    ) >= 0 by {
        if i + width <= index {
            let j = last_space_in(text, i, i + width);
            lemma_last_space_in(text, i, i + width);
            lemma_space_found(padded, i, i + width, j);
        } else if i >= boundary {
            let shift = boundary - index - 1;
            let j = last_space_in(text, i - shift, i - shift + width);
            lemma_last_space_in(text, i - shift, i - shift + width);
            assert(padded[j + shift] == text[j]);
            lemma_space_found(padded, i, i + width, j + shift);
        } else if i <= index {
            lemma_space_found(padded, i, i + width, index);
        } else {
            lemma_space_found(padded, i, i + width, i);
        }
    }
}

proof fn lemma_wrap_from_succeeds(text: Seq<char>, width: int, boundary: int)
    requires
        width > 0,
        boundary >= width,
        spaced_within(text, width),
    ensures
        wrap_from(text, width, boundary) is Some,
    decreases
        (if boundary < text.len() {
            text.len() - boundary
        } else {
            0
        }),
{
    if boundary < text.len() {
        if text[boundary - 1] == ' ' {
            lemma_wrap_from_succeeds(text, width, boundary + width);
        } else {
            assert(last_space_in(text, boundary - width, boundary - width + width) >= 0);
            let index = last_space_in(text, boundary - width, boundary - 1);
            lemma_last_space_in(text, boundary - width, boundary - 1);
            lemma_pad_keeps_spaced(text, width, index, boundary);
            lemma_pad_at(text, index, boundary);
            lemma_wrap_from_succeeds(pad_at(text, index, boundary), width, boundary + width);
        }
    }
}

/// `wrap` succeeds on every text in which any `width` cells in a row hold a
/// space.
pub proof fn lemma_wrap_succeeds(text: Seq<char>, width: int)
    requires
        width > 0,
        spaced_within(text, width),
    ensures
        wrap(text, width) is Some,
{
    lemma_wrap_from_succeeds(text, width, width);
}

} // verus!
