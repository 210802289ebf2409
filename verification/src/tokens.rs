use vstd::prelude::*;

verus! {

/// The characters that separate words: space, tab, line feed, form feed and
/// carriage return.
pub open spec fn is_word_separator(c: char) -> bool {
    c == ' ' || c == '\t' || c == '\n' || c == '\x0c' || c == '\r'
}

/// The words of `text`: its longest runs of characters that are no
/// separators, in order. Defined along the text: a separator adds nothing, a
/// character after another character extends the last word, and a character
/// at the start or after a separator begins a new word.
pub open spec fn tokens_of(text: Seq<char>) -> Seq<Seq<char>>
    decreases text.len(),
{
    if text.len() == 0 {
        Seq::empty()
    } else {
        let before = tokens_of(text.drop_last());
        if is_word_separator(text.last()) {
            before
        } else if text.len() >= 2 && !is_word_separator(text[text.len() - 2]) {
            before.drop_last().push(before.last().push(text.last()))
        } else {
            before.push(seq![text.last()])
        }
    }
}

/// The words joined by single spaces.
pub open spec fn join_tokens(tokens: Seq<Seq<char>>) -> Seq<char>
    decreases tokens.len(),
{
    if tokens.len() == 0 {
        Seq::empty()
    } else if tokens.len() == 1 {
        tokens[0]
    } else {
        join_tokens(tokens.drop_last()) + seq![' '] + tokens.last()
    }
}

/// The length of the longest word, 0 where there is none.
pub open spec fn longest_token(tokens: Seq<Seq<char>>) -> nat
    decreases tokens.len(),
{
    if tokens.len() == 0 {
        0
    } else {
        let rest = longest_token(tokens.drop_last());
        if tokens.last().len() > rest {
            tokens.last().len()
        } else {
            rest
        }
    }
}

/// The words held by a vector of vectors, each as a sequence.
pub open spec fn token_views(tokens: Seq<Vec<char>>) -> Seq<Seq<char>> {
    tokens.map_values(|token: Vec<char>| token@)
}

/// Detect a character that separates words.
pub fn separates_words(c: char) -> (separator: bool)
    ensures
        separator == is_word_separator(c),
{
    c == ' ' || c == '\t' || c == '\n' || c == '\x0c' || c == '\r'
}

/// A copy of a vector of characters.
pub fn copy_chars(chars: &Vec<char>) -> (copy: Vec<char>)
    ensures
        copy@ == chars@,
{
    let mut copy: Vec<char> = Vec::new();
    let mut i: usize = 0;
    while i < chars.len()
        invariant
            i <= chars.len(),
            copy@ == chars@.take(i as int),
        decreases chars.len() - i,
    {
        copy.push(chars[i]);
        assert(chars@.take(i + 1) =~= chars@.take(i as int).push(chars@[i as int]));
        i += 1;
    }
    assert(chars@.take(chars.len() as int) =~= chars@);
    copy
}

/// What has been read of a text: the words that are complete, and the word
/// that the last character read belongs to, which is empty after a separator.
pub open spec fn words_read(done: Seq<Seq<char>>, word: Seq<char>) -> Seq<Seq<char>> {
    if word.len() == 0 {
        done
    } else {
        done.push(word)
    }
}

/// Split a text into its words.
pub fn split_words(text: &Vec<char>) -> (tokens: Vec<Vec<char>>)
    ensures
        token_views(tokens@) == tokens_of(text@),
{
    let mut tokens: Vec<Vec<char>> = Vec::new();
    let mut word: Vec<char> = Vec::new();
    let mut i: usize = 0;
    assert(token_views(tokens@) =~= Seq::<Seq<char>>::empty());
    while i < text.len()
        invariant
            i <= text.len(),
            words_read(token_views(tokens@), word@) == tokens_of(text@.take(i as int)),
            word@.len() > 0 <==> (i > 0 && !is_word_separator(text@[i - 1])),
        decreases text.len() - i,
    {
        let c = text[i];
        let ghost before = text@.take(i as int);
        let ghost now = text@.take(i + 1);
        let ghost done = token_views(tokens@);
        assert(now.drop_last() =~= before);
        assert(now.last() == c);
        assert(i > 0 ==> now[now.len() - 2] == text@[i - 1]);
        if separates_words(c) {
            if word.len() > 0 {
                let ghost finished = word@;
                tokens.push(word);
                word = Vec::new();
                assert(token_views(tokens@) =~= done.push(finished));
            }
        } else {
            let ghost old_word = word@;
            word.push(c);
            proof {
                if old_word.len() > 0 {
                    assert(done.push(old_word).drop_last() =~= done);
                } else {
                    assert(word@ =~= seq![c]);
                }
            }
        }
        i += 1;
    }
    assert(text@.take(text.len() as int) =~= text@);
    if word.len() > 0 {
        let ghost done = token_views(tokens@);
        let ghost finished = word@;
        tokens.push(word);
        assert(token_views(tokens@) =~= done.push(finished));
    }
    tokens
}

/// Join words by single spaces.
pub fn join_words(tokens: &Vec<Vec<char>>) -> (text: Vec<char>)
    ensures
        text@ == join_tokens(token_views(tokens@)),
{
    let mut text: Vec<char> = Vec::new();
    let mut i: usize = 0;
    let ghost all = token_views(tokens@);
    while i < tokens.len()
        invariant
            i <= tokens.len(),
            all == token_views(tokens@),
            text@ == join_tokens(all.take(i as int)),
        decreases tokens.len() - i,
    {
        let ghost joined = text@;
        if i > 0 {
            text.push(' ');
        }
        let ghost spaced = text@;
        let token = &tokens[i];
        let mut k: usize = 0;
        while k < token.len()
            invariant
                k <= token.len(),
                text@ == spaced + token@.take(k as int),
            decreases token.len() - k,
        {
            text.push(token[k]);
            assert(token@.take(k + 1) =~= token@.take(k as int).push(token@[k as int]));
            assert(text@ =~= spaced + token@.take(k + 1));
            k += 1;
        }
        assert(token@.take(token.len() as int) =~= token@);
        assert(all.take(i + 1).drop_last() =~= all.take(i as int));
        assert(all.take(i + 1).last() == token@);
        assert(text@ =~= join_tokens(all.take(i + 1))) by {
            if i == 0 {
                assert(all.take(1)[0] == token@);
                assert(joined =~= Seq::<char>::empty());
            } else {
                assert(spaced =~= joined + seq![' ']);
            }
        }
        i += 1;
    }
    assert(all.take(tokens.len() as int) =~= all);
    text
}

/// The length of the longest word.
pub fn longest_word(tokens: &Vec<Vec<char>>) -> (longest: usize)
    ensures
        longest == longest_token(token_views(tokens@)),
{
    let mut longest: usize = 0;
    let mut i: usize = 0;
    let ghost all = token_views(tokens@);
    while i < tokens.len()
        invariant
            i <= tokens.len(),
            all == token_views(tokens@),
            longest == longest_token(all.take(i as int)),
        decreases tokens.len() - i,
    {
        assert(all.take(i + 1).drop_last() =~= all.take(i as int));
        assert(all.take(i + 1).last() == tokens@[i as int]@);
        if tokens[i].len() > longest {
            longest = tokens[i].len();
        }
        i += 1;
    }
    assert(all.take(tokens.len() as int) =~= all);
    longest
}

/// A copy of a vector of words.
pub fn copy_words(tokens: &Vec<Vec<char>>) -> (copy: Vec<Vec<char>>)
    ensures
        token_views(copy@) == token_views(tokens@),
{
    let mut copy: Vec<Vec<char>> = Vec::new();
    let mut i: usize = 0;
    while i < tokens.len()
        invariant
            i <= tokens.len(),
            token_views(copy@) == token_views(tokens@).take(i as int),
        decreases tokens.len() - i,
    {
        let word = copy_chars(&tokens[i]);
        let ghost before = token_views(copy@);
        copy.push(word);
        assert(token_views(copy@) =~= before.push(word@));
        assert(token_views(tokens@).take(i + 1) =~= token_views(tokens@).take(i as int).push(
            tokens@[i as int]@,
        ));
        i += 1;
    }
    assert(token_views(tokens@).take(tokens.len() as int) =~= token_views(tokens@));
    copy
}

/// Every word of a text holds at least one character, and no separator.
pub proof fn lemma_tokens_are_words(text: Seq<char>)
    ensures
        forall|i: int| 0 <= i < tokens_of(text).len() ==> (#[trigger] tokens_of(text)[i]).len() > 0,
        forall|i: int, j: int|
            0 <= i < tokens_of(text).len() && 0 <= j < tokens_of(text)[i].len()
                ==> !is_word_separator(#[trigger] tokens_of(text)[i][j]),
        text.len() > 0 && !is_word_separator(text.last()) ==> tokens_of(text).len() > 0,
    decreases text.len(),
{
    if text.len() > 0 {
        lemma_tokens_are_words(text.drop_last());
        let before = tokens_of(text.drop_last());
        if !is_word_separator(text.last()) && text.len() >= 2 && !is_word_separator(
            text[text.len() - 2],
        ) {
            assert(text.drop_last().last() == text[text.len() - 2]);
            let extended = before.drop_last().push(before.last().push(text.last()));
            assert forall|i: int, j: int|
                0 <= i < extended.len() && 0 <= j < extended[i].len() implies !is_word_separator(
                #[trigger] extended[i][j],
            ) by {
                if i < extended.len() - 1 {
                    assert(extended[i] == before[i]);
                } else if j < before.last().len() {
                    assert(extended[i][j] == before.last()[j]);
                }
            }
            assert forall|i: int| 0 <= i < extended.len() implies (#[trigger] extended[i]).len()
                > 0 by {
                if i < extended.len() - 1 {
                    assert(extended[i] == before[i]);
                }
            }
        }
    }
}

} // verus!
