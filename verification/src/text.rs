//! Expression text as a sequence of characters, and the parts of it that the
//! engine looks at: spans, white space, words, suffixes and names.

use vstd::prelude::*;

verus! {

/// `String::push` appends one character to the end of a string. This is
/// believed of std, not proved.
pub assume_specification[ String::push ](text: &mut String, c: char)
    ensures
        final(text)@ == old(text)@.push(c),
;

/// What `str::to_lowercase` makes of a text: its Unicode lower case.
pub uninterp spec fn lowercase_of(text: Seq<char>) -> Seq<char>;

/// Calls `str::to_lowercase`, which returns the text's lower case as a new
/// `String`. The result is a function of the text alone; it is known here
/// only by its name, [`lowercase_of`].
#[verifier::external_body]
fn to_lowercase(text: &str) -> (lowered: String)
    ensures
        lowered@ == lowercase_of(text@),
{
    text.to_lowercase()
}

/// A stretch of text: the characters from `start` up to, not including,
/// `end`.
#[derive(Clone, Copy, Debug, PartialEq, Eq, Structural)]
pub struct Span {
    pub start: usize,
    pub end: usize,
}

impl Span {
    /// The span lies within a text of `len` characters.
    pub open spec fn within(self, len: nat) -> bool {
        self.start <= self.end <= len
    }

    /// The characters of `text` that the span covers.
    pub open spec fn of(self, text: Seq<char>) -> Seq<char> {
        text.subrange(self.start as int, self.end as int)
    }

    /// The number of characters that the span covers.
    pub open spec fn len(self) -> nat {
        if self.start <= self.end {
            (self.end - self.start) as nat
        } else {
            0
        }
    }
}

/// A character with the Unicode property White_Space.
pub open spec fn spec_is_whitespace(c: char) -> bool {
    ||| '\u{9}' <= c <= '\u{d}'
    ||| c == ' '
    ||| c == '\u{85}'
    ||| c == '\u{a0}'
    ||| c == '\u{1680}'
    ||| '\u{2000}' <= c <= '\u{200a}'
    ||| c == '\u{2028}'
    ||| c == '\u{2029}'
    ||| c == '\u{202f}'
    ||| c == '\u{205f}'
    ||| c == '\u{3000}'
}

#[verifier::when_used_as_spec(spec_is_whitespace)]
pub fn is_whitespace(c: char) -> (r: bool)
    ensures
        r == spec_is_whitespace(c),
{
    ('\u{9}' <= c && c <= '\u{d}') || c == ' ' || c == '\u{85}' || c == '\u{a0}' || c
        == '\u{1680}' || ('\u{2000}' <= c && c <= '\u{200a}') || c == '\u{2028}' || c
        == '\u{2029}' || c == '\u{202f}' || c == '\u{205f}' || c == '\u{3000}'
}

/// One of the ten decimal digits.
pub open spec fn spec_is_digit(c: char) -> bool {
    '0' <= c <= '9'
}

#[verifier::when_used_as_spec(spec_is_digit)]
pub fn is_digit(c: char) -> (r: bool)
    ensures
        r == spec_is_digit(c),
{
    '0' <= c && c <= '9'
}

/// The characters of a string.
pub fn characters(text: &str) -> (chars: Vec<char>)
    ensures
        chars@ == text@,
{
    broadcast use vstd::string::group_string_axioms;

    let mut chars: Vec<char> = Vec::new();
    for c in iter: text.chars()
        invariant
            iter.seq() == text@,
            chars@ == iter.seq().take(iter.index()),
    {
        chars.push(c);
    }
    chars
}

/// The characters of a span, as a string.
pub fn string_of(chars: &Vec<char>, span: Span) -> (text: String)
    requires
        span.within(chars@.len()),
    ensures
        text@ == span.of(chars@),
{
    let mut text = String::new();
    let mut i: usize = span.start;
    while i < span.end
        invariant
            span.within(chars@.len()),
            span.start <= i <= span.end,
            text@ == chars@.subrange(span.start as int, i as int),
        decreases span.end - i,
    {
        text.push(chars[i]);
        i += 1;
    }
    text
}

/// The lower case of a span of text, as `str::to_lowercase` gives it.
pub fn lowercase(chars: &Vec<char>, span: Span) -> (lowered: Vec<char>)
    requires
        span.within(chars@.len()),
    ensures
        lowered@ == lowercase_of(span.of(chars@)),
{
    let text = string_of(chars, span);
    let lowered = to_lowercase(text.as_str());
    characters(lowered.as_str())
}

/// Whether two sequences of characters are the same.
pub fn same_characters(a: &Vec<char>, b: &Vec<char>) -> (r: bool)
    ensures
        r == (a@ == b@),
{
    if a.len() != b.len() {
        return false;
    }
    let mut i: usize = 0;
    while i < a.len()
        invariant
            a@.len() == b@.len(),
            i <= a@.len(),
            a@.take(i as int) == b@.take(i as int),
        decreases a@.len() - i,
    {
        if a[i] != b[i] {
            return false;
        }
        assert(a@.take(i + 1) == a@.take(i as int).push(a@[i as int]));
        assert(b@.take(i + 1) == b@.take(i as int).push(b@[i as int]));
        i += 1;
    }
    assert(a@.take(a@.len() as int) == a@);
    assert(b@.take(b@.len() as int) == b@);
    true
}

/// Whether the span of text reads exactly as `word`.
pub fn reads(chars: &Vec<char>, span: Span, word: &str) -> (r: bool)
    requires
        span.within(chars@.len()),
    ensures
        r == (span.of(chars@) == word@),
{
    let n = word.unicode_len();
    if span.end - span.start != n {
        return false;
    }
    let mut i: usize = 0;
    while i < n
        invariant
            span.within(chars@.len()),
            n == word@.len(),
            n == span.end - span.start,
            i <= n,
            span.of(chars@).take(i as int) == word@.take(i as int),
        decreases n - i,
    {
        if chars[span.start + i] != word.get_char(i) {
            assert(span.of(chars@)[i as int] != word@[i as int]);
            return false;
        }
        assert(span.of(chars@).take(i + 1) == span.of(chars@).take(i as int).push(
            span.of(chars@)[i as int],
        ));
        assert(word@.take(i + 1) == word@.take(i as int).push(word@[i as int]));
        i += 1;
    }
    assert(span.of(chars@).take(n as int) == span.of(chars@));
    assert(word@.take(n as int) == word@);
    true
}

/// `text` ends with `suffix`.
pub open spec fn ends_with(text: Seq<char>, suffix: Seq<char>) -> bool {
    text.len() >= suffix.len() && text.subrange(text.len() - suffix.len(), text.len() as int)
        == suffix
}

/// What is left of a span when `count` characters are taken from its end.
pub open spec fn without_suffix(span: Span, count: nat) -> Span {
    Span { start: span.start, end: (span.end - count) as usize }
}

/// The span without the suffix `word`, where the span ends with it.
pub fn strip_suffix(chars: &Vec<char>, span: Span, word: &str) -> (rest: Option<Span>)
    requires
        span.within(chars@.len()),
    ensures
        rest == if ends_with(span.of(chars@), word@) {
            Some(without_suffix(span, word@.len()))
        } else {
            None::<Span>
        },
{
    let n = word.unicode_len();
    if span.end - span.start < n {
        return None;
    }
    let tail = Span { start: span.end - n, end: span.end };
    assert(tail.of(chars@) == span.of(chars@).subrange(
        span.of(chars@).len() - word@.len(),
        span.of(chars@).len() as int,
    ));
    if reads(chars, tail, word) {
        Some(Span { start: span.start, end: span.end - n })
    } else {
        None
    }
}

/// The first position from `from` on, below `to`, that holds no white space;
/// `to` where there is none.
pub open spec fn skip_whitespace(text: Seq<char>, from: int, to: int) -> int
    decreases to - from,
{
    if from < to && spec_is_whitespace(text[from]) {
        skip_whitespace(text, from + 1, to)
    } else {
        from
    }
}

/// The end of the text between `from` and `to` once the white space at its
/// end is dropped.
pub open spec fn drop_whitespace(text: Seq<char>, from: int, to: int) -> int
    decreases to - from,
{
    if from < to && spec_is_whitespace(text[to - 1]) {
        drop_whitespace(text, from, to - 1)
    } else {
        to
    }
}

/// The span without the white space at its two ends.
pub open spec fn spec_trim(text: Seq<char>, span: Span) -> Span {
    let start = skip_whitespace(text, span.start as int, span.end as int);
    Span { start: start as usize, end: drop_whitespace(text, start, span.end as int) as usize }
}

/// Only white space is skipped, and what follows it is none.
pub proof fn lemma_skip_whitespace(text: Seq<char>, from: int, to: int)
    requires
        0 <= from <= to <= text.len(),
    ensures
        from <= skip_whitespace(text, from, to) <= to,
        forall|k: int| from <= k < skip_whitespace(text, from, to) ==> spec_is_whitespace(text[k]),
        skip_whitespace(text, from, to) < to ==> !spec_is_whitespace(
            text[skip_whitespace(text, from, to)],
        ),
    decreases to - from,
{
    if from < to && spec_is_whitespace(text[from]) {
        lemma_skip_whitespace(text, from + 1, to);
    }
}

/// Only white space is dropped, and what stands before it is none.
pub proof fn lemma_drop_whitespace(text: Seq<char>, from: int, to: int)
    requires
        0 <= from <= to <= text.len(),
    ensures
        from <= drop_whitespace(text, from, to) <= to,
        forall|k: int| drop_whitespace(text, from, to) <= k < to ==> spec_is_whitespace(text[k]),
        from < drop_whitespace(text, from, to) ==> !spec_is_whitespace(
            text[drop_whitespace(text, from, to) - 1],
        ),
    decreases to - from,
{
    if from < to && spec_is_whitespace(text[to - 1]) {
        lemma_drop_whitespace(text, from, to - 1);
    }
}

/// Trimming keeps the span within the text, removes only white space, and
/// leaves none at either end.
pub proof fn lemma_trim(text: Seq<char>, span: Span)
    requires
        span.within(text.len()),
    ensures
        spec_trim(text, span).within(text.len()),
        span.start <= spec_trim(text, span).start,
        spec_trim(text, span).end <= span.end,
        forall|k: int|
            span.start <= k < spec_trim(text, span).start ==> spec_is_whitespace(text[k]),
        forall|k: int| spec_trim(text, span).end <= k < span.end ==> spec_is_whitespace(text[k]),
        spec_trim(text, span).start < spec_trim(text, span).end ==> {
            &&& !spec_is_whitespace(text[spec_trim(text, span).start as int])
            &&& !spec_is_whitespace(text[spec_trim(text, span).end - 1])
        },
{
    let start = skip_whitespace(text, span.start as int, span.end as int);
    lemma_skip_whitespace(text, span.start as int, span.end as int);
    lemma_drop_whitespace(text, start, span.end as int);
}

/// Removes the white space at both ends of a span.
pub fn trim(chars: &Vec<char>, span: Span) -> (trimmed: Span)
    requires
        span.within(chars@.len()),
    ensures
        trimmed == spec_trim(chars@, span),
        trimmed.within(chars@.len()),
{
    proof {
        lemma_trim(chars@, span);
    }
    let mut start: usize = span.start;
    while start < span.end && is_whitespace(chars[start])
        invariant
            span.within(chars@.len()),
            span.start <= start <= span.end,
            skip_whitespace(chars@, span.start as int, span.end as int) == skip_whitespace(
                chars@,
                start as int,
                span.end as int,
            ),
        decreases span.end - start,
    {
        start += 1;
    }
    let mut end: usize = span.end;
    while start < end && is_whitespace(chars[end - 1])
        invariant
            span.within(chars@.len()),
            start <= end <= span.end,
            drop_whitespace(chars@, start as int, span.end as int) == drop_whitespace(
                chars@,
                start as int,
                end as int,
            ),
        decreases end - start,
    {
        end -= 1;
    }
    Span { start, end }
}

/// The first position from `from` on, below `to`, that holds white space;
/// `to` where there is none.
pub open spec fn word_end(text: Seq<char>, from: int, to: int) -> int
    decreases to - from,
{
    if from < to && !spec_is_whitespace(text[from]) {
        word_end(text, from + 1, to)
    } else {
        from
    }
}

/// A word ends within its bounds, and is not empty where it begins with a
/// character that is no white space.
pub proof fn lemma_word_end(text: Seq<char>, from: int, to: int)
    requires
        0 <= from <= to <= text.len(),
    ensures
        from <= word_end(text, from, to) <= to,
        from < to && !spec_is_whitespace(text[from]) ==> from < word_end(text, from, to),
    decreases to - from,
{
    if from < to && !spec_is_whitespace(text[from]) {
        lemma_word_end(text, from + 1, to);
    }
}

/// The words between `from` and `to`: the longest stretches without white
/// space, in order.
pub open spec fn words(text: Seq<char>, from: int, to: int) -> Seq<Span>
    decreases to - from,
{
    let start = skip_whitespace(text, from, to);
    let end = word_end(text, start, to);
    if from <= start < end <= to {
        seq![Span { start: start as usize, end: end as usize }] + words(text, end, to)
    } else {
        Seq::<Span>::empty()
    }
}

/// Every word lies between the bounds within which it was found.
pub proof fn lemma_words_within(text: Seq<char>, from: int, to: int)
    requires
        0 <= from <= to <= text.len() <= usize::MAX,
    ensures
        forall|i: int|
            0 <= i < words(text, from, to).len() ==> from <= (#[trigger] words(
                text,
                from,
                to,
            )[i]).start <= words(text, from, to)[i].end <= to,
    decreases to - from,
{
    let start = skip_whitespace(text, from, to);
    let end = word_end(text, start, to);
    if from <= start < end <= to {
        lemma_words_within(text, end, to);
        let first = seq![Span { start: start as usize, end: end as usize }];
        let rest = words(text, end, to);
        assert forall|i: int| 0 <= i < words(text, from, to).len() implies from <= (#[trigger] words(
            text,
            from,
            to,
        )[i]).start <= words(text, from, to)[i].end <= to by {
            if i > 0 {
                assert((first + rest)[i] == rest[i - 1]);
            }
        }
    }
}

/// The next word at or after `from`, if there is one before `to`.
fn next_word(chars: &Vec<char>, from: usize, to: usize) -> (word: Option<Span>)
    requires
        from <= to <= chars@.len(),
    ensures
        match word {
            Some(span) => {
                &&& from <= span.start < span.end <= to
                &&& span.start == skip_whitespace(chars@, from as int, to as int)
                &&& span.end == word_end(chars@, span.start as int, to as int)
                &&& words(chars@, from as int, to as int) == seq![span] + words(
                    chars@,
                    span.end as int,
                    to as int,
                )
            },
            None => words(chars@, from as int, to as int) == Seq::<Span>::empty(),
        },
{
    proof {
        lemma_skip_whitespace(chars@, from as int, to as int);
    }
    let mut start: usize = from;
    while start < to && is_whitespace(chars[start])
        invariant
            from <= start <= to <= chars@.len(),
            skip_whitespace(chars@, from as int, to as int) == skip_whitespace(
                chars@,
                start as int,
                to as int,
            ),
        decreases to - start,
    {
        start += 1;
    }
    if start >= to {
        return None;
    }
    proof {
        lemma_word_end(chars@, start as int, to as int);
    }
    let mut end: usize = start;
    while end < to && !is_whitespace(chars[end])
        invariant
            start <= end <= to <= chars@.len(),
            word_end(chars@, start as int, to as int) == word_end(chars@, end as int, to as int),
        decreases to - end,
    {
        end += 1;
    }
    Some(Span { start, end })
}

/// The two words of a span that holds exactly two.
pub fn two_words(chars: &Vec<char>, span: Span) -> (pair: Option<(Span, Span)>)
    requires
        span.within(chars@.len()),
    ensures
        pair == if words(chars@, span.start as int, span.end as int).len() == 2 {
            Some(
                (
                    words(chars@, span.start as int, span.end as int)[0],
                    words(chars@, span.start as int, span.end as int)[1],
                ),
            )
        } else {
            None::<(Span, Span)>
        },
        pair matches Some((first, second)) ==> first.within(chars@.len()) && second.within(
            chars@.len(),
        ),
{
    let first = match next_word(chars, span.start, span.end) {
        Some(word) => word,
        None => {
            return None;
        },
    };
    let second = match next_word(chars, first.end, span.end) {
        Some(word) => word,
        None => {
            return None;
        },
    };
    match next_word(chars, second.end, span.end) {
        Some(_) => None,
        None => Some((first, second)),
    }
}

} // verus!
