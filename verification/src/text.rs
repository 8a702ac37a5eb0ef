//! Text: the characters of a string, and the pieces that the parsers of
//! command output are made of.

use vstd::prelude::*;
use vstd::slice::{slice_subrange, slice_to_vec};

verus! {

/// `String::push` appends one character to the string.
pub assume_specification[ String::push ](text: &mut String, c: char)
    ensures
        final(text)@ == old(text)@.push(c),
;

/// White space: the characters with the Unicode property `White_Space`.
pub open spec fn is_whitespace(c: char) -> bool {
    let code = c as u32;
    ||| 0x09 <= code <= 0x0d
    ||| code == 0x20
    ||| code == 0x85
    ||| code == 0xa0
    ||| code == 0x1680
    ||| 0x2000 <= code <= 0x200a
    ||| code == 0x2028
    ||| code == 0x2029
    ||| code == 0x202f
    ||| code == 0x205f
    ||| code == 0x3000
}

/// The text without the white space at its start.
pub open spec fn trim_start(text: Seq<char>) -> Seq<char>
    decreases text.len(),
{
    if text.len() > 0 && is_whitespace(text[0]) {
        trim_start(text.drop_first())
    } else {
        text
    }
}

/// The text without the white space at its end.
pub open spec fn trim_end(text: Seq<char>) -> Seq<char>
    decreases text.len(),
{
    if text.len() > 0 && is_whitespace(text.last()) {
        trim_end(text.drop_last())
    } else {
        text
    }
}

/// The text without the white space at its start and at its end.
pub open spec fn trim(text: Seq<char>) -> Seq<char> {
    trim_end(trim_start(text))
}

/// `pattern` stands at the start of `text`.
pub open spec fn starts_with(text: Seq<char>, pattern: Seq<char>) -> bool {
    pattern.len() <= text.len() && text.subrange(0, pattern.len() as int) == pattern
}

/// `pattern` stands in `text` at index `at`.
pub open spec fn occurs_at(text: Seq<char>, pattern: Seq<char>, at: int) -> bool {
    0 <= at && at + pattern.len() <= text.len() && text.subrange(at, at + pattern.len())
        == pattern
}

/// `pattern` stands somewhere in `text`.
pub open spec fn contains(text: Seq<char>, pattern: Seq<char>) -> bool {
    exists|at: int| occurs_at(text, pattern, at)
}

/// The characters of a string.
pub fn chars_of(text: &str) -> (chars: Vec<char>)
    ensures
        chars@ == text@,
{
    let mut chars: Vec<char> = Vec::new();
    for c in it: text.chars()
        invariant
            chars@ == it.seq().take(it.index() as int),
            it.seq() == text@,
    {
        chars.push(c);
    }
    chars
}

/// The string made of the given characters.
pub fn string_of(chars: &[char]) -> (text: String)
    ensures
        text@ == chars@,
{
    let mut text = String::new();
    let mut i: usize = 0;
    while i < chars.len()
        invariant
            i <= chars@.len(),
            text@ == chars@.take(i as int),
        decreases chars@.len() - i,
    {
        text.push(chars[i]);
        proof {
            assert(text@ =~= chars@.take(i + 1));
        }
        i = i + 1;
    }
    proof {
        assert(chars@.take(chars@.len() as int) =~= chars@);
    }
    text
}

/// Whether a character is white space.
pub fn is_space(c: char) -> (space: bool)
    ensures
        space == is_whitespace(c),
{
    let code: u32 = c as u32;
    (0x09 <= code && code <= 0x0d) || code == 0x20 || code == 0x85 || code == 0xa0 || code
        == 0x1680 || (0x2000 <= code && code <= 0x200a) || code == 0x2028 || code == 0x2029
        || code == 0x202f || code == 0x205f || code == 0x3000
}

/// Without its first `n` characters, all of them white space, a text is
/// trimmed at its start to the same.
proof fn lemma_trim_start_skips(text: Seq<char>, n: int)
    requires
        0 <= n <= text.len(),
        forall|i: int| 0 <= i < n ==> is_whitespace(text[i]),
    ensures
        trim_start(text) == trim_start(text.skip(n)),
    decreases n,
{
    if n > 0 {
        lemma_trim_start_skips(text.drop_first(), n - 1);
        assert(text.drop_first().skip(n - 1) =~= text.skip(n));
    } else {
        assert(text.skip(0) =~= text);
    }
}

/// Without its last characters, all of them white space, a text is trimmed
/// at its end to the same.
proof fn lemma_trim_end_takes(text: Seq<char>, n: int)
    requires
        0 <= n <= text.len(),
        forall|i: int| n <= i < text.len() ==> is_whitespace(text[i]),
    ensures
        trim_end(text) == trim_end(text.take(n)),
    decreases text.len() - n,
{
    if n < text.len() {
        lemma_trim_end_takes(text.drop_last(), n);
        assert(text.drop_last().take(n) =~= text.take(n));
    } else {
        assert(text.take(n) =~= text);
    }
}

/// The number of white-space characters at the start of a text.
pub fn leading_space(text: &[char]) -> (n: usize)
    ensures
        n <= text@.len(),
        text@.skip(n as int) == trim_start(text@),
{
    let mut n: usize = 0;
    while n < text.len() && is_space(text[n])
        invariant
            n <= text@.len(),
            forall|i: int| 0 <= i < n ==> is_whitespace(text@[i]),
        decreases text@.len() - n,
    {
        n = n + 1;
    }
    proof {
        lemma_trim_start_skips(text@, n as int);
        if n < text@.len() {
            assert(text@.skip(n as int)[0] == text@[n as int]);
        }
    }
    n
}

/// The length of a text without the white space at its end.
pub fn length_without_trailing_space(text: &[char]) -> (n: usize)
    ensures
        n <= text@.len(),
        text@.take(n as int) == trim_end(text@),
{
    let mut n: usize = text.len();
    while n > 0 && is_space(text[n - 1])
        invariant
            n <= text@.len(),
            forall|i: int| n <= i < text@.len() ==> is_whitespace(text@[i]),
        decreases n,
    {
        n = n - 1;
    }
    proof {
        lemma_trim_end_takes(text@, n as int);
        if n > 0 {
            assert(text@.take(n as int).last() == text@[n - 1]);
        }
    }
    n
}

/// The text without the white space at its start and at its end.
pub fn trimmed<'a>(text: &'a [char]) -> (piece: &'a [char])
    ensures
        piece@ == trim(text@),
{
    let from = leading_space(text);
    let rest = slice_subrange(text, from, text.len());
    let to = length_without_trailing_space(rest);
    proof {
        assert(rest@ =~= text@.skip(from as int));
        assert(rest@.subrange(0, to as int) =~= rest@.take(to as int));
    }
    slice_subrange(rest, 0, to)
}

/// Whether `pattern` stands in `text` at index `at`.
pub fn matches_at(text: &[char], pattern: &[char], at: usize) -> (found: bool)
    ensures
        found == occurs_at(text@, pattern@, at as int),
{
    if at > text.len() || pattern.len() > text.len() - at {
        return false;
    }
    let mut i: usize = 0;
    while i < pattern.len()
        invariant
            i <= pattern@.len(),
            at + pattern@.len() <= text@.len() <= usize::MAX,
            forall|k: int| 0 <= k < i ==> text@[at + k] == pattern@[k],
        decreases pattern@.len() - i,
    {
        if text[at + i] != pattern[i] {
            proof {
                assert(text@.subrange(at as int, at + pattern@.len())[i as int] == text@[at + i]);
            }
            return false;
        }
        i = i + 1;
    }
    proof {
        assert(text@.subrange(at as int, at + pattern@.len()) =~= pattern@);
    }
    true
}

/// Whether `pattern` stands at the start of `text`.
pub fn has_prefix(text: &[char], pattern: &[char]) -> (found: bool)
    ensures
        found == starts_with(text@, pattern@),
{
    matches_at(text, pattern, 0)
}

/// The first index at which `pattern` stands in `text`.
pub fn find(text: &[char], pattern: &[char]) -> (place: Option<usize>)
    ensures
        place is Some == contains(text@, pattern@),
        place is Some ==> occurs_at(text@, pattern@, place->0 as int) && forall|at: int|
            0 <= at < place->0 ==> !occurs_at(text@, pattern@, at),
{
    if pattern.len() > text.len() {
        return None;
    }
    let last: usize = text.len() - pattern.len();
    let mut at: usize = 0;
    while at < last
        invariant
            last == text@.len() - pattern@.len(),
            at <= last,
            forall|k: int| 0 <= k < at ==> !occurs_at(text@, pattern@, k),
        decreases last - at,
    {
        if matches_at(text, pattern, at) {
            return Some(at);
        }
        at = at + 1;
    }
    if matches_at(text, pattern, last) {
        Some(last)
    } else {
        None
    }
}

/// Whether `pattern` stands somewhere in `text`.
pub fn has_part(text: &[char], pattern: &[char]) -> (found: bool)
    ensures
        found == contains(text@, pattern@),
{
    find(text, pattern).is_some()
}

/// The index of the first `c` in a text; the length of the text when there
/// is none.
pub open spec fn index_of(text: Seq<char>, c: char) -> nat
    decreases text.len(),
{
    if text.len() == 0 || text[0] == c {
        0
    } else {
        1 + index_of(text.drop_first(), c)
    }
}

/// A line without the carriage return that ends it, if one does.
pub open spec fn without_cr(line: Seq<char>) -> Seq<char> {
    if line.len() > 0 && line.last() == '\r' {
        line.drop_last()
    } else {
        line
    }
}

/// The lines of a text. A line ends with a line feed, or with a carriage
/// return and a line feed, and holds neither; the last line needs no line
/// ending, and keeps a carriage return that no line feed follows.
pub open spec fn lines(text: Seq<char>) -> Seq<Seq<char>>
    decreases text.len(),
{
    if text.len() == 0 {
        Seq::empty()
    } else {
        let end = index_of(text, '\n') as int;
        if end >= text.len() {
            seq![text]
        } else {
            seq![without_cr(text.take(end))] + lines(text.skip(end + 1))
        }
    }
}

/// The pieces between the separators of a text: one more than there are
/// separators.
pub open spec fn split(text: Seq<char>, separator: char) -> Seq<Seq<char>>
    decreases text.len(),
{
    let end = index_of(text, separator) as int;
    if end >= text.len() {
        seq![text]
    } else {
        seq![text.take(end)] + split(text.skip(end + 1), separator)
    }
}

/// What a list of pieces holds.
pub open spec fn pieces_of(list: Seq<Vec<char>>) -> Seq<Seq<char>> {
    list.map_values(|piece: Vec<char>| piece@)
}

/// The index of the first `c` in a text is the first index that holds `c`.
proof fn lemma_index_of(text: Seq<char>, c: char, n: int)
    requires
        0 <= n <= text.len(),
        forall|i: int| 0 <= i < n ==> text[i] != c,
        n < text.len() ==> text[n] == c,
    ensures
        index_of(text, c) == n,
    decreases n,
{
    if n > 0 {
        lemma_index_of(text.drop_first(), c, n - 1);
    }
}

/// The index of the first `c` at or after `from`; the length of the text
/// when there is none.
pub fn position_of(text: &[char], c: char, from: usize) -> (at: usize)
    requires
        from <= text@.len(),
    ensures
        from <= at <= text@.len(),
        at - from == index_of(text@.skip(from as int), c),
{
    let mut at: usize = from;
    while at < text.len() && text[at] != c
        invariant
            from <= at <= text@.len(),
            forall|i: int| from <= i < at ==> text@[i] != c,
        decreases text@.len() - at,
    {
        at = at + 1;
    }
    proof {
        lemma_index_of(text@.skip(from as int), c, at - from);
    }
    at
}

/// The lines of a text.
pub fn split_lines(text: &[char]) -> (list: Vec<Vec<char>>)
    ensures
        pieces_of(list@) == lines(text@),
{
    let mut list: Vec<Vec<char>> = Vec::new();
    let mut from: usize = 0;
    proof {
        assert(pieces_of(list@) =~= Seq::empty());
        assert(text@.skip(0) =~= text@);
    }
    while from < text.len()
        invariant
            from <= text@.len(),
            pieces_of(list@) + lines(text@.skip(from as int)) == lines(text@),
        decreases text@.len() - from,
    {
        let ghost rest = text@.skip(from as int);
        let ghost done = pieces_of(list@);
        let end = position_of(text, '\n', from);
        if end == text.len() {
            let line = slice_to_vec(slice_subrange(text, from, end));
            list.push(line);
            proof {
                assert(line@ =~= rest);
                assert(pieces_of(list@) =~= done.push(line@));
                assert(text@.skip(end as int).len() == 0);
                assert(done + seq![rest] =~= done.push(rest) + lines(text@.skip(end as int)));
            }
            from = end;
        } else {
            let stop: usize = if end > from && text[end - 1] == '\r' {
                (end - 1) as usize
            } else {
                end
            };
            let line = slice_to_vec(slice_subrange(text, from, stop));
            list.push(line);
            proof {
                let full = rest.take(end - from);
                assert(full =~= text@.subrange(from as int, end as int));
                assert(line@ =~= without_cr(full));
                assert(pieces_of(list@) =~= done.push(line@));
                assert(rest.skip(end - from + 1) =~= text@.skip(end + 1));
                assert(done + (seq![line@] + lines(text@.skip(end + 1))) =~= done.push(line@)
                    + lines(text@.skip(end + 1)));
            }
            from = end + 1;
        }
    }
    proof {
        assert(pieces_of(list@) + Seq::<Seq<char>>::empty() =~= pieces_of(list@));
    }
    list
}

/// The pieces between the separators of a text.
pub fn split_on(text: &[char], separator: char) -> (list: Vec<Vec<char>>)
    ensures
        pieces_of(list@) == split(text@, separator),
{
    let mut list: Vec<Vec<char>> = Vec::new();
    let mut from: usize = 0;
    proof {
        assert(pieces_of(list@) =~= Seq::empty());
        assert(text@.skip(0) =~= text@);
    }
    loop
        invariant_except_break
            from <= text@.len(),
            pieces_of(list@) + split(text@.skip(from as int), separator) == split(
                text@,
                separator,
            ),
        ensures
            pieces_of(list@) == split(text@, separator),
        decreases text@.len() - from,
    {
        let ghost rest = text@.skip(from as int);
        let ghost done = pieces_of(list@);
        let end = position_of(text, separator, from);
        let piece = slice_to_vec(slice_subrange(text, from, end));
        list.push(piece);
        proof {
            assert(piece@ =~= rest.take(end - from));
            assert(pieces_of(list@) =~= done.push(piece@));
        }
        if end == text.len() {
            proof {
                assert(rest.take(end - from) =~= rest);
                assert(done + seq![rest] =~= done.push(rest));
            }
            break ;
        }
        proof {
            assert(rest.skip(end - from + 1) =~= text@.skip(end + 1));
            assert(done + (seq![piece@] + split(text@.skip(end + 1), separator)) =~= done.push(
                piece@,
            ) + split(text@.skip(end + 1), separator));
        }
        from = end + 1;
    }
    list
}

/// The length of the word at the start of a text: the index of its first
/// white space, or the length of the text when it holds none.
pub open spec fn word_length(text: Seq<char>) -> nat
    decreases text.len(),
{
    if text.len() == 0 || is_whitespace(text[0]) {
        0
    } else {
        1 + word_length(text.drop_first())
    }
}

/// The words of a text: its longest pieces without white space.
pub open spec fn words(text: Seq<char>) -> Seq<Seq<char>>
    decreases text.len(),
{
    if text.len() == 0 {
        Seq::empty()
    } else if is_whitespace(text[0]) {
        words(text.drop_first())
    } else {
        let end = if word_length(text) <= text.len() {
            word_length(text) as int
        } else {
            text.len() as int
        };
        seq![text.take(end)] + words(text.skip(end))
    }
}

/// The text without every `pattern` at its start, one after the other. An
/// empty pattern removes nothing.
pub open spec fn trim_start_matches(text: Seq<char>, pattern: Seq<char>) -> Seq<char>
    decreases text.len(),
{
    if pattern.len() > 0 && starts_with(text, pattern) {
        trim_start_matches(text.skip(pattern.len() as int), pattern)
    } else {
        text
    }
}

/// The text without every `pattern` in it, found from left to right. An
/// empty pattern removes nothing.
pub open spec fn without(text: Seq<char>, pattern: Seq<char>) -> Seq<char>
    decreases text.len(),
{
    if pattern.len() == 0 || text.len() == 0 {
        text
    } else if starts_with(text, pattern) {
        without(text.skip(pattern.len() as int), pattern)
    } else {
        seq![text[0]] + without(text.drop_first(), pattern)
    }
}

/// The length of the first word is the first index that holds white space.
proof fn lemma_word_length(text: Seq<char>, n: int)
    requires
        0 <= n <= text.len(),
        forall|i: int| 0 <= i < n ==> !is_whitespace(text[i]),
        n < text.len() ==> is_whitespace(text[n]),
    ensures
        word_length(text) == n,
    decreases n,
{
    if n > 0 {
        lemma_word_length(text.drop_first(), n - 1);
    }
}

/// White space at the start of a text holds no word.
proof fn lemma_words_skip_space(text: Seq<char>, n: int)
    requires
        0 <= n <= text.len(),
        forall|i: int| 0 <= i < n ==> is_whitespace(text[i]),
    ensures
        words(text) == words(text.skip(n)),
    decreases n,
{
    if n > 0 {
        lemma_words_skip_space(text.drop_first(), n - 1);
        assert(text.drop_first().skip(n - 1) =~= text.skip(n));
    } else {
        assert(text.skip(0) =~= text);
    }
}

/// The words of a text.
pub fn split_words(text: &[char]) -> (list: Vec<Vec<char>>)
    ensures
        pieces_of(list@) == words(text@),
{
    let mut list: Vec<Vec<char>> = Vec::new();
    let mut from: usize = 0;
    proof {
        assert(pieces_of(list@) =~= Seq::empty());
        assert(text@.skip(0) =~= text@);
    }
    while from < text.len()
        invariant
            from <= text@.len(),
            pieces_of(list@) + words(text@.skip(from as int)) == words(text@),
        decreases text@.len() - from,
    {
        let ghost rest = text@.skip(from as int);
        let ghost done = pieces_of(list@);
        let mut start: usize = from;
        while start < text.len() && is_space(text[start])
            invariant
                from <= start <= text@.len(),
                forall|i: int| from <= i < start ==> is_whitespace(text@[i]),
            decreases text@.len() - start,
        {
            start = start + 1;
        }
        let ghost tail = text@.skip(start as int);
        proof {
            lemma_words_skip_space(rest, start - from);
            assert(rest.skip(start - from) =~= tail);
        }
        if start == text.len() {
            from = start;
        } else {
            let mut end: usize = start;
            while end < text.len() && !is_space(text[end])
                invariant
                    start <= end <= text@.len(),
                    forall|i: int| start <= i < end ==> !is_whitespace(text@[i]),
                decreases text@.len() - end,
            {
                end = end + 1;
            }
            let word = slice_to_vec(slice_subrange(text, start, end));
            list.push(word);
            proof {
                lemma_word_length(tail, end - start);
                assert(word@ =~= tail.take(end - start));
                assert(tail.skip(end - start) =~= text@.skip(end as int));
                assert(pieces_of(list@) =~= done.push(word@));
                assert(done + (seq![word@] + words(text@.skip(end as int))) =~= done.push(word@)
                    + words(text@.skip(end as int)));
            }
            from = end;
        }
    }
    proof {
        assert(pieces_of(list@) + Seq::<Seq<char>>::empty() =~= pieces_of(list@));
    }
    list
}

/// The text without every `pattern` at its start, one after the other.
pub fn strip_leading<'a>(text: &'a [char], pattern: &[char]) -> (rest: &'a [char])
    ensures
        rest@ == trim_start_matches(text@, pattern@),
{
    if pattern.len() == 0 {
        return text;
    }
    let length: usize = text.len();
    let mut from: usize = 0;
    proof {
        assert(text@.skip(0) =~= text@);
    }
    while matches_at(text, pattern, from)
        invariant
            from <= text@.len() == length,
            pattern@.len() > 0,
            trim_start_matches(text@.skip(from as int), pattern@) == trim_start_matches(
                text@,
                pattern@,
            ),
        decreases text@.len() - from,
    {
        proof {
            let rest = text@.skip(from as int);
            assert(rest.subrange(0, pattern@.len() as int) =~= text@.subrange(
                from as int,
                from + pattern@.len(),
            ));
            assert(rest.skip(pattern@.len() as int) =~= text@.skip(from + pattern@.len()));
        }
        from = from + pattern.len();
    }
    proof {
        let rest = text@.skip(from as int);
        if pattern@.len() <= rest.len() {
            assert(rest.subrange(0, pattern@.len() as int) =~= text@.subrange(
                from as int,
                from + pattern@.len(),
            ));
        }
        assert(text@.subrange(from as int, text@.len() as int) =~= rest);
    }
    slice_subrange(text, from, length)
}

/// The text without every `pattern` in it, found from left to right.
pub fn remove_all(text: &[char], pattern: &[char]) -> (rest: Vec<char>)
    ensures
        rest@ == without(text@, pattern@),
{
    if pattern.len() == 0 {
        return slice_to_vec(text);
    }
    let mut rest: Vec<char> = Vec::new();
    let mut from: usize = 0;
    proof {
        assert(text@.skip(0) =~= text@);
        assert(rest@ + without(text@, pattern@) =~= without(text@, pattern@));
    }
    while from < text.len()
        invariant
            from <= text@.len(),
            pattern@.len() > 0,
            rest@ + without(text@.skip(from as int), pattern@) == without(text@, pattern@),
        decreases text@.len() - from,
    {
        let ghost tail = text@.skip(from as int);
        let ghost done = rest@;
        proof {
            if pattern@.len() <= tail.len() {
                assert(tail.subrange(0, pattern@.len() as int) =~= text@.subrange(
                    from as int,
                    from + pattern@.len(),
                ));
            }
        }
        if matches_at(text, pattern, from) {
            proof {
                assert(tail.skip(pattern@.len() as int) =~= text@.skip(from + pattern@.len()));
            }
            from = from + pattern.len();
        } else {
            rest.push(text[from]);
            proof {
                assert(tail.drop_first() =~= text@.skip(from + 1));
                assert(done + (seq![tail[0]] + without(text@.skip(from + 1), pattern@))
                    =~= done.push(tail[0]) + without(text@.skip(from + 1), pattern@));
            }
            from = from + 1;
        }
    }
    proof {
        assert(rest@ + Seq::<char>::empty() =~= rest@);
    }
    rest
}

/// Whether a character is one of the ten decimal digits.
pub open spec fn is_digit(c: char) -> bool {
    '0' <= c <= '9'
}

/// The number that a decimal digit stands for.
pub open spec fn digit_value(c: char) -> nat {
    (c as u32 - '0' as u32) as nat
}

/// Whether a text holds decimal digits only.
pub open spec fn all_digits(text: Seq<char>) -> bool {
    forall|i: int| 0 <= i < text.len() ==> is_digit(#[trigger] text[i])
}

/// The number that a text of decimal digits stands for.
pub open spec fn decimal(digits: Seq<char>) -> nat
    decreases digits.len(),
{
    if digits.len() == 0 {
        0
    } else {
        decimal(digits.drop_last()) * 10 + digit_value(digits.last())
    }
}

/// The digits of an unsigned number: the text without a plus sign at its
/// start.
pub open spec fn unsigned_digits(text: Seq<char>) -> Seq<char> {
    if text.len() > 0 && text[0] == '+' {
        text.drop_first()
    } else {
        text
    }
}

/// The number that a text stands for: one or more decimal digits, after a
/// plus sign or none, that make a number of 32 bits. Any other text stands
/// for no number.
pub open spec fn parse_u32(text: Seq<char>) -> Option<u32> {
    let digits = unsigned_digits(text);
    if digits.len() > 0 && all_digits(digits) && decimal(digits) <= u32::MAX {
        Some(decimal(digits) as u32)
    } else {
        None
    }
}

/// More digits make no smaller number.
proof fn lemma_decimal_grows(digits: Seq<char>, n: int)
    requires
        0 <= n <= digits.len(),
    ensures
        decimal(digits.take(n)) <= decimal(digits),
    decreases digits.len() - n,
{
    if n < digits.len() {
        lemma_decimal_grows(digits.drop_last(), n);
        assert(digits.drop_last().take(n) =~= digits.take(n));
    } else {
        assert(digits.take(n) =~= digits);
    }
}

/// The number that a text stands for, if it stands for one.
pub fn to_u32(text: &[char]) -> (number: Option<u32>)
    ensures
        number == parse_u32(text@),
{
    let from: usize = if text.len() > 0 && text[0] == '+' {
        1
    } else {
        0
    };
    let ghost digits = unsigned_digits(text@);
    proof {
        assert(digits =~= text@.skip(from as int));
    }
    if from == text.len() {
        return None;
    }
    let mut value: u64 = 0;
    let mut i: usize = from;
    proof {
        assert(digits.take(0) =~= Seq::<char>::empty());
    }
    while i < text.len()
        invariant
            from <= i <= text@.len(),
            digits == text@.skip(from as int),
            digits == unsigned_digits(text@),
            all_digits(digits.take(i - from)),
            value == decimal(digits.take(i - from)),
            value <= u32::MAX,
        decreases text@.len() - i,
    {
        let c = text[i];
        if !('0' <= c && c <= '9') {
            proof {
                assert(digits[i - from] == c);
            }
            return None;
        }
        let digit: u64 = (c as u32 - '0' as u32) as u64;
        let next: u64 = value * 10 + digit;
        proof {
            let longer = digits.take(i - from + 1);
            assert(longer.drop_last() =~= digits.take(i - from));
            assert(longer.last() == c);
            assert(next == decimal(longer));
            assert forall|k: int| 0 <= k < longer.len() implies is_digit(
                #[trigger] longer[k],
            ) by {
                if k < i - from {
                    assert(digits.take(i - from)[k] == longer[k]);
                }
            }
        }
        if next > 0xffff_ffff {
            proof {
                lemma_decimal_grows(digits, i - from + 1);
            }
            return None;
        }
        value = next;
        i = i + 1;
    }
    proof {
        assert(digits.take(i - from) =~= digits);
    }
    Some(value as u32)
}

} // verus!
