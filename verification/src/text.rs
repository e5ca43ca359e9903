//! Text primitives over sequences of characters.
//!
//! Every function here states its result over the `Seq<char>` view of its
//! arguments, so that the URL and path rules built on top of them can be
//! stated the same way.

use vstd::prelude::*;
use vstd::string::*;

verus! {

// Occurrences of one text in another

/// `pattern` occurs in `text` at position `at`.
pub open spec fn occurs_at(text: Seq<char>, pattern: Seq<char>, at: int) -> bool {
    &&& 0 <= at
    &&& at + pattern.len() <= text.len()
    &&& text.subrange(at, at + pattern.len()) == pattern
}

/// `text` begins with `pattern`.
pub open spec fn is_prefix(text: Seq<char>, pattern: Seq<char>) -> bool {
    occurs_at(text, pattern, 0)
}

/// `text` ends with `pattern`.
pub open spec fn is_suffix(text: Seq<char>, pattern: Seq<char>) -> bool {
    occurs_at(text, pattern, text.len() - pattern.len())
}

/// `pattern` occurs somewhere in `text`.
pub open spec fn is_infix(text: Seq<char>, pattern: Seq<char>) -> bool {
    exists|at: int| occurs_at(text, pattern, at)
}

/// `at` is the leftmost position at which `pattern` occurs in `text`.
pub open spec fn is_first_occurrence(text: Seq<char>, pattern: Seq<char>, at: int) -> bool {
    &&& occurs_at(text, pattern, at)
    &&& forall|earlier: int| 0 <= earlier < at ==> !occurs_at(text, pattern, earlier)
}

/// The leftmost position at which `pattern` occurs in `text`, where it
/// occurs at all.
pub open spec fn first_occurrence(text: Seq<char>, pattern: Seq<char>) -> int {
    choose|at: int| is_first_occurrence(text, pattern, at)
}

/// The leftmost occurrence is the only position that `is_first_occurrence`
/// admits.
pub proof fn lemma_first_occurrence_is(text: Seq<char>, pattern: Seq<char>, at: int)
    requires
        is_first_occurrence(text, pattern, at),
    ensures
        is_infix(text, pattern),
        first_occurrence(text, pattern) == at,
{
    let chosen = first_occurrence(text, pattern);
    assert(is_first_occurrence(text, pattern, chosen));
    if chosen < at {
        assert(!occurs_at(text, pattern, chosen));
    }
    if at < chosen {
        assert(!occurs_at(text, pattern, at));
    }
}

/// An occurrence inside a range of `text` is an occurrence in `text` that
/// lies inside the range.
pub proof fn lemma_occurs_in_range(text: Seq<char>, from: int, to: int, pattern: Seq<char>, at: int)
    requires
        0 <= from <= to <= text.len(),
        0 <= at,
    ensures
        occurs_at(text.subrange(from, to), pattern, at) == (from + at + pattern.len() <= to
            && occurs_at(text, pattern, from + at)),
{
    if from + at + pattern.len() <= to {
        assert(text.subrange(from, to).subrange(at, at + pattern.len()) =~= text.subrange(
            from + at,
            from + at + pattern.len(),
        ));
    }
}

/// The characters of `s`, in order.
pub fn to_chars(s: &str) -> (chars: Vec<char>)
    ensures
        chars@ == s@,
{
    let mut chars: Vec<char> = Vec::new();
    for c in it: s.chars()
        invariant
            it.seq() == s@,
            chars@ == s@.take(it.index()),
    {
        chars.push(c);
    }
    chars
}

/// Whether two strings hold the same characters.
pub fn str_eq(a: &str, b: &str) -> (same: bool)
    ensures
        same == (a@ == b@),
{
    let left = a.to_string();
    let right = b.to_string();
    left == right
}

/// Whether `pattern` occurs in `text` at position `at`.
pub fn matches_at(text: &Vec<char>, pattern: &Vec<char>, at: usize) -> (found: bool)
    ensures
        found == occurs_at(text@, pattern@, at as int),
{
    if pattern.len() > text.len() || at > text.len() - pattern.len() {
        return false;
    }
    let mut k: usize = 0;
    while k < pattern.len()
        invariant
            k <= pattern.len(),
            at + pattern.len() <= text.len(),
            forall|j: int| 0 <= j < k ==> text@[at + j] == pattern@[j],
        decreases pattern.len() - k,
    {
        if text[at + k] != pattern[k] {
            assert(text@.subrange(at as int, at + pattern.len())[k as int] == text@[at + k]);
            return false;
        }
        k += 1;
    }
    assert(text@.subrange(at as int, at + pattern.len()) =~= pattern@);
    true
}

/// The leftmost position at which `pattern` occurs in `text`, if any.
pub fn find_in(text: &Vec<char>, pattern: &Vec<char>) -> (position: Option<usize>)
    ensures
        match position {
            Some(at) => is_first_occurrence(text@, pattern@, at as int),
            None => !is_infix(text@, pattern@),
        },
{
    if pattern.len() > text.len() {
        return None;
    }
    let last: usize = text.len() - pattern.len();
    let mut at: usize = 0;
    loop
        invariant
            last == text.len() - pattern.len(),
            at <= last,
            forall|earlier: int| 0 <= earlier < at ==> !occurs_at(text@, pattern@, earlier),
        decreases last - at,
    {
        if matches_at(text, pattern, at) {
            return Some(at);
        }
        if at == last {
            return None;
        }
        at += 1;
    }
}

/// Whether `text` begins with `pattern`.
pub fn starts_with(text: &str, pattern: &str) -> (found: bool)
    ensures
        found == is_prefix(text@, pattern@),
{
    let t = to_chars(text);
    let p = to_chars(pattern);
    matches_at(&t, &p, 0)
}

/// Whether `text` ends with `pattern`.
pub fn ends_with(text: &str, pattern: &str) -> (found: bool)
    ensures
        found == is_suffix(text@, pattern@),
{
    let t = to_chars(text);
    let p = to_chars(pattern);
    if p.len() > t.len() {
        return false;
    }
    matches_at(&t, &p, t.len() - p.len())
}

/// Whether `pattern` occurs somewhere in `text`.
pub fn contains(text: &str, pattern: &str) -> (found: bool)
    ensures
        found == is_infix(text@, pattern@),
{
    let t = to_chars(text);
    let p = to_chars(pattern);
    find_in(&t, &p).is_some()
}

/// The leftmost position, counted in characters, at which `pattern` occurs in
/// `text`.
pub fn find(text: &str, pattern: &str) -> (position: Option<usize>)
    ensures
        match position {
            Some(at) => is_first_occurrence(text@, pattern@, at as int),
            None => !is_infix(text@, pattern@),
        },
{
    let t = to_chars(text);
    let p = to_chars(pattern);
    find_in(&t, &p)
}

/// Whether the range `from..to` of `text` begins with `pattern`.
pub fn range_starts_with(text: &Vec<char>, from: usize, to: usize, pattern: &Vec<char>) -> (found:
    bool)
    requires
        from <= to <= text@.len(),
    ensures
        found == is_prefix(text@.subrange(from as int, to as int), pattern@),
{
    proof {
        lemma_occurs_in_range(text@, from as int, to as int, pattern@, 0);
    }
    pattern.len() <= to - from && matches_at(text, pattern, from)
}

/// Whether `pattern` occurs inside the range `from..to` of `text`.
pub fn range_contains(text: &Vec<char>, from: usize, to: usize, pattern: &Vec<char>) -> (found:
    bool)
    requires
        from <= to <= text@.len(),
    ensures
        found == is_infix(text@.subrange(from as int, to as int), pattern@),
{
    if pattern.len() > to - from {
        return false;
    }
    let last: usize = to - pattern.len();
    let mut at: usize = from;
    loop
        invariant
            from <= at <= last,
            last == to - pattern.len(),
            from <= to <= text@.len(),
            forall|earlier: int|
                0 <= earlier < at - from ==> !occurs_at(
                    text@.subrange(from as int, to as int),
                    pattern@,
                    earlier,
                ),
        decreases last - at,
    {
        proof {
            lemma_occurs_in_range(text@, from as int, to as int, pattern@, at - from);
        }
        if matches_at(text, pattern, at) {
            return true;
        }
        if at == last {
            return false;
        }
        at += 1;
    }
}

// Pieces of a text

/// The texts that `strings` hold, in order.
pub open spec fn texts(strings: Seq<String>) -> Seq<Seq<char>> {
    Seq::new(strings.len(), |i: int| strings[i]@)
}

/// The pieces of `text` between occurrences of `separator`. There is always at
/// least one piece; a separator at either end yields an empty piece there.
pub open spec fn split_on(text: Seq<char>, separator: char) -> Seq<Seq<char>>
    decreases text.len(),
{
    if text.len() == 0 {
        seq![Seq::<char>::empty()]
    } else {
        let before = split_on(text.drop_last(), separator);
        if text.last() == separator {
            before.push(Seq::<char>::empty())
        } else {
            before.drop_last().push(before.last().push(text.last()))
        }
    }
}

/// `text` cut at the leftmost occurrence of `pattern`: what stands before
/// the occurrence and what stands after it, or nothing where `pattern` does
/// not occur.
pub open spec fn cut_at(text: Seq<char>, pattern: Seq<char>) -> Option<(Seq<char>, Seq<char>)> {
    if is_infix(text, pattern) {
        Some(
            (
                text.take(first_occurrence(text, pattern)),
                text.skip(first_occurrence(text, pattern) + pattern.len()),
            ),
        )
    } else {
        None
    }
}

/// The characters of `text` from position `from` up to `to`, as a string.
pub fn slice(text: &str, from: usize, to: usize) -> (piece: String)
    requires
        from <= to <= text@.len(),
    ensures
        piece@ == text@.subrange(from as int, to as int),
{
    text.substring_char(from, to).to_string()
}

/// The first `count` characters of `text`, or all of it where it has fewer.
pub fn prefix(text: &str, count: usize) -> (front: String)
    ensures
        front@ == text@.take(if count <= text@.len() {
            count as int
        } else {
            text@.len() as int
        }),
{
    let length = text.unicode_len();
    let end = if count <= length {
        count
    } else {
        length
    };
    slice(text, 0, end)
}

/// The characters of `text` from position `from` on.
pub fn suffix_from(text: &str, from: usize) -> (back: String)
    requires
        from <= text@.len(),
    ensures
        back@ == text@.skip(from as int),
{
    let length = text.unicode_len();
    slice(text, from, length)
}

/// The pieces of `text` between occurrences of `separator`.
pub fn split(text: &str, separator: char) -> (pieces: Vec<String>)
    ensures
        texts(pieces@) == split_on(text@, separator),
        pieces@.len() >= 1,
{
    let chars = to_chars(text);
    let mut pieces: Vec<String> = Vec::new();
    let mut start: usize = 0;
    let mut i: usize = 0;
    while i < chars.len()
        invariant
            chars@ == text@,
            start <= i <= chars.len(),
            split_on(text@.take(i as int), separator).len() == pieces@.len() + 1,
            forall|j: int| 0 <= j < pieces@.len() ==> #[trigger] pieces@[j]@ == split_on(text@.take(i as int), separator)[j],
            split_on(text@.take(i as int), separator).last() == text@.subrange(start as int, i as int),
        decreases chars.len() - i,
    {
        let ghost before = split_on(text@.take(i as int), separator);
        proof {
            assert(text@.take(i + 1).drop_last() =~= text@.take(i as int));
            assert(text@.take(i + 1).last() == text@[i as int]);
        }
        if chars[i] == separator {
            let piece = slice(text, start, i);
            pieces.push(piece);
            start = i + 1;
            proof {
                assert(text@.subrange(start as int, i + 1) =~= Seq::<char>::empty());
            }
        } else {
            proof {
                assert(text@.subrange(start as int, i + 1) =~= text@.subrange(start as int, i as int).push(text@[i as int]));
            }
        }
        i += 1;
    }
    proof {
        assert(text@.take(i as int) =~= text@);
    }
    let piece = slice(text, start, i);
    pieces.push(piece);
    proof {
        assert(texts(pieces@) =~= split_on(text@, separator));
    }
    pieces
}

/// `text` cut at the leftmost occurrence of `pattern`.
pub fn split_once(text: &str, pattern: &str) -> (cut: Option<(String, String)>)
    ensures
        match cut {
            Some((before, after)) => cut_at(text@, pattern@) == Some((before@, after@)),
            None => cut_at(text@, pattern@) is None,
        },
{
    match find(text, pattern) {
        Some(at) => {
            proof {
                lemma_first_occurrence_is(text@, pattern@, at as int);
            }
            let length = text.unicode_len();
            let width = pattern.unicode_len();
            let before = slice(text, 0, at);
            let after = slice(text, at + width, length);
            Some((before, after))
        },
        None => None,
    }
}

/// The place of the first of `parts` that satisfies `chosen`, looking from
/// place `from` on.
pub open spec fn first_index_from(
    parts: Seq<Seq<char>>,
    chosen: spec_fn(Seq<char>) -> bool,
    from: int,
) -> Option<int>
    decreases parts.len() - from,
{
    if from < 0 || from >= parts.len() {
        None
    } else if chosen(parts[from]) {
        Some(from)
    } else {
        first_index_from(parts, chosen, from + 1)
    }
}

/// The place of the first of `parts` that satisfies `chosen`.
pub open spec fn first_index(parts: Seq<Seq<char>>, chosen: spec_fn(Seq<char>) -> bool) -> Option<
    int,
> {
    first_index_from(parts, chosen, 0)
}

/// The place of the first of `parts` that is `word`.
pub open spec fn index_of(parts: Seq<Seq<char>>, word: Seq<char>) -> Option<int> {
    first_index(parts, |part: Seq<char>| part == word)
}

/// The place of the first of `parts` in which `word` occurs.
pub open spec fn index_holding(parts: Seq<Seq<char>>, word: Seq<char>) -> Option<int> {
    first_index(parts, |part: Seq<char>| is_infix(part, word))
}

/// A part that satisfies `chosen` after none that does is the first that
/// does; and where none does, there is no first.
pub proof fn lemma_first_index(
    parts: Seq<Seq<char>>,
    chosen: spec_fn(Seq<char>) -> bool,
    from: int,
    at: int,
)
    requires
        0 <= from <= at <= parts.len(),
        forall|earlier: int| from <= earlier < at ==> !chosen(#[trigger] parts[earlier]),
        at < parts.len() ==> chosen(parts[at]),
    ensures
        first_index_from(parts, chosen, from) == if at < parts.len() {
            Some(at)
        } else {
            None
        },
    decreases at - from,
{
    if from < at {
        assert(!chosen(parts[from]));
        lemma_first_index(parts, chosen, from + 1, at);
    }
}

/// The place of the first of `parts` that is `word`.
pub fn position(parts: &Vec<String>, word: &str) -> (place: Option<usize>)
    ensures
        match place {
            Some(at) => index_of(texts(parts@), word@) == Some(at as int) && at < parts@.len(),
            None => index_of(texts(parts@), word@) is None,
        },
{
    let ghost chosen = |part: Seq<char>| part == word@;
    let mut at: usize = 0;
    while at < parts.len()
        invariant
            at <= parts@.len(),
            chosen == |part: Seq<char>| part == word@,
            forall|earlier: int| 0 <= earlier < at ==> !chosen(#[trigger] texts(parts@)[earlier]),
        decreases parts@.len() - at,
    {
        if str_eq(parts[at].as_str(), word) {
            proof {
                lemma_first_index(texts(parts@), chosen, 0, at as int);
            }
            return Some(at);
        }
        at += 1;
    }
    proof {
        lemma_first_index(texts(parts@), chosen, 0, at as int);
    }
    None
}

/// The place of the first of `parts` in which `word` occurs.
pub fn position_holding(parts: &Vec<String>, word: &str) -> (place: Option<usize>)
    ensures
        match place {
            Some(at) => index_holding(texts(parts@), word@) == Some(at as int) && at
                < parts@.len(),
            None => index_holding(texts(parts@), word@) is None,
        },
{
    let ghost chosen = |part: Seq<char>| is_infix(part, word@);
    let mut at: usize = 0;
    while at < parts.len()
        invariant
            at <= parts@.len(),
            chosen == |part: Seq<char>| is_infix(part, word@),
            forall|earlier: int| 0 <= earlier < at ==> !chosen(#[trigger] texts(parts@)[earlier]),
        decreases parts@.len() - at,
    {
        if contains(parts[at].as_str(), word) {
            proof {
                lemma_first_index(texts(parts@), chosen, 0, at as int);
            }
            return Some(at);
        }
        at += 1;
    }
    proof {
        lemma_first_index(texts(parts@), chosen, 0, at as int);
    }
    None
}

// Trimming

/// The number of trailing characters of `text` equal to `c`.
pub open spec fn trailing_run(text: Seq<char>, c: char) -> nat
    decreases text.len(),
{
    if text.len() > 0 && text.last() == c {
        1 + trailing_run(text.drop_last(), c)
    } else {
        0
    }
}

/// `text` without its trailing run of `c`.
pub open spec fn without_trailing(text: Seq<char>, c: char) -> Seq<char> {
    text.take(text.len() - trailing_run(text, c))
}

/// `text` with `suffix` removed from its end as often as it occurs there.
/// An empty `suffix` removes nothing.
pub open spec fn without_suffixes(text: Seq<char>, suffix: Seq<char>) -> Seq<char>
    decreases text.len(),
{
    if suffix.len() > 0 && is_suffix(text, suffix) {
        without_suffixes(text.take(text.len() - suffix.len()), suffix)
    } else {
        text
    }
}

/// The characters that count as white space when a line is trimmed.
pub open spec fn is_whitespace(c: char) -> bool {
    let code = c as u32;
    ||| 0x09 <= code <= 0x0D
    ||| code == 0x20
    ||| code == 0x85
    ||| code == 0xA0
    ||| code == 0x1680
    ||| 0x2000 <= code <= 0x200A
    ||| code == 0x2028
    ||| code == 0x2029
    ||| code == 0x202F
    ||| code == 0x205F
    ||| code == 0x3000
}

/// `text` without its leading white space.
pub open spec fn trim_start(text: Seq<char>) -> Seq<char>
    decreases text.len(),
{
    if text.len() > 0 && is_whitespace(text[0]) {
        trim_start(text.drop_first())
    } else {
        text
    }
}

/// `text` without its trailing white space.
pub open spec fn trim_end(text: Seq<char>) -> Seq<char>
    decreases text.len(),
{
    if text.len() > 0 && is_whitespace(text.last()) {
        trim_end(text.drop_last())
    } else {
        text
    }
}

/// `text` without white space at either end.
pub open spec fn trimmed(text: Seq<char>) -> Seq<char> {
    trim_end(trim_start(text))
}

/// Whether `c` is white space.
pub fn char_is_whitespace(c: char) -> (white: bool)
    ensures
        white == is_whitespace(c),
{
    let code = c as u32;
    (0x09 <= code && code <= 0x0D) || code == 0x20 || code == 0x85 || code == 0xA0 || code
        == 0x1680 || (0x2000 <= code && code <= 0x200A) || code == 0x2028 || code == 0x2029
        || code == 0x202F || code == 0x205F || code == 0x3000
}

/// `text` without the characters `c` at its end.
pub fn trim_end_char(text: &str, c: char) -> (trimmed: String)
    ensures
        trimmed@ == without_trailing(text@, c),
{
    let chars = to_chars(text);
    let mut end: usize = chars.len();
    proof {
        assert(text@.take(end as int) =~= text@);
    }
    while end > 0 && chars[end - 1] == c
        invariant
            chars@ == text@,
            end <= chars@.len(),
            trailing_run(text@, c) == trailing_run(text@.take(end as int), c) + (chars@.len()
                - end),
        decreases end,
    {
        proof {
            assert(text@.take(end as int).drop_last() =~= text@.take(end - 1));
        }
        end -= 1;
    }
    slice(text, 0, end)
}

/// `text` with `suffix` removed from its end as often as it occurs there.
pub fn trim_end_str(text: &str, suffix: &str) -> (trimmed: String)
    ensures
        trimmed@ == without_suffixes(text@, suffix@),
{
    let chars = to_chars(text);
    let pattern = to_chars(suffix);
    let mut end: usize = chars.len();
    if pattern.len() == 0 {
        return text.to_string();
    }
    proof {
        assert(text@.take(end as int) =~= text@);
    }
    while end >= pattern.len() && matches_at(&chars, &pattern, end - pattern.len())
        invariant
            chars@ == text@,
            pattern@ == suffix@,
            pattern@.len() > 0,
            end <= chars@.len(),
            without_suffixes(text@, suffix@) == without_suffixes(text@.take(end as int), suffix@),
        decreases end,
    {
        proof {
            let shorter = text@.take(end as int);
            assert(shorter.subrange(shorter.len() - pattern@.len(), shorter.len() as int)
                =~= text@.subrange(end - pattern@.len(), end as int));
            assert(is_suffix(shorter, suffix@));
            assert(shorter.take(shorter.len() - suffix@.len()) =~= text@.take(
                end - pattern@.len(),
            ));
        }
        end -= pattern.len();
    }
    proof {
        let shorter = text@.take(end as int);
        if end >= pattern@.len() {
            assert(shorter.subrange(shorter.len() - pattern@.len(), shorter.len() as int)
                =~= text@.subrange(end - pattern@.len(), end as int));
        }
        assert(!is_suffix(shorter, suffix@));
    }
    slice(text, 0, end)
}

/// The bounds of what is left of the range `from..to` of `text` when white
/// space is trimmed from both of its ends.
pub fn trim_range(text: &Vec<char>, from: usize, to: usize) -> (bounds: (usize, usize))
    requires
        from <= to <= text@.len(),
    ensures
        from <= bounds.0 <= bounds.1 <= to,
        text@.subrange(bounds.0 as int, bounds.1 as int) == trimmed(
            text@.subrange(from as int, to as int),
        ),
{
    let mut start = from;
    while start < to && char_is_whitespace(text[start])
        invariant
            from <= start <= to <= text@.len(),
            trim_start(text@.subrange(from as int, to as int)) == trim_start(
                text@.subrange(start as int, to as int),
            ),
        decreases to - start,
    {
        proof {
            assert(text@.subrange(start as int, to as int).drop_first() =~= text@.subrange(
                start + 1,
                to as int,
            ));
        }
        start += 1;
    }
    let mut end = to;
    while start < end && char_is_whitespace(text[end - 1])
        invariant
            from <= start <= end <= to <= text@.len(),
            trim_start(text@.subrange(from as int, to as int)) == text@.subrange(
                start as int,
                to as int,
            ),
            trim_end(text@.subrange(start as int, to as int)) == trim_end(
                text@.subrange(start as int, end as int),
            ),
        decreases end - start,
    {
        proof {
            assert(text@.subrange(start as int, end as int).drop_last() =~= text@.subrange(
                start as int,
                end - 1,
            ));
        }
        end -= 1;
    }
    (start, end)
}

// Hexadecimal digits

/// One of `0-9`, `a-f`, `A-F`.
pub open spec fn is_hex_digit(c: char) -> bool {
    ||| '0' <= c <= '9'
    ||| 'a' <= c <= 'f'
    ||| 'A' <= c <= 'F'
}

/// Every character of `text` is a hexadecimal digit.
pub open spec fn all_hex_digits(text: Seq<char>) -> bool {
    forall|i: int| 0 <= i < text.len() ==> is_hex_digit(#[trigger] text[i])
}

/// Whether `c` is a hexadecimal digit.
pub fn char_is_hex_digit(c: char) -> (hex: bool)
    ensures
        hex == is_hex_digit(c),
{
    ('0' <= c && c <= '9') || ('a' <= c && c <= 'f') || ('A' <= c && c <= 'F')
}

/// Whether every character of `text` is a hexadecimal digit.
pub fn is_hex(text: &str) -> (hex: bool)
    ensures
        hex == all_hex_digits(text@),
{
    let chars = to_chars(text);
    let mut i: usize = 0;
    while i < chars.len()
        invariant
            chars@ == text@,
            i <= chars@.len(),
            forall|j: int| 0 <= j < i ==> is_hex_digit(#[trigger] text@[j]),
        decreases chars@.len() - i,
    {
        if !char_is_hex_digit(chars[i]) {
            return false;
        }
        i += 1;
    }
    true
}

// The order of the dictionary

/// `a` stands before `b`, or is `b`, in the order of a dictionary whose
/// alphabet is ordered by code point.
pub open spec fn lex_le(a: Seq<char>, b: Seq<char>) -> bool
    decreases a.len(),
{
    if a.len() == 0 {
        true
    } else if b.len() == 0 {
        false
    } else if a[0] != b[0] {
        (a[0] as u32) < (b[0] as u32)
    } else {
        lex_le(a.drop_first(), b.drop_first())
    }
}

/// Different characters have different code points.
pub proof fn lemma_code_points_differ(a: char, b: char)
    requires
        a != b,
    ensures
        a as u32 != b as u32,
{
    assert((a as u32) as char == a);
    assert((b as u32) as char == b);
}

/// Every text stands where it stands.
pub proof fn lemma_lex_le_reflexive(a: Seq<char>)
    ensures
        lex_le(a, a),
    decreases a.len(),
{
    if a.len() > 0 {
        lemma_lex_le_reflexive(a.drop_first());
    }
}

/// Of two texts, one stands before the other or is the other.
pub proof fn lemma_lex_le_total(a: Seq<char>, b: Seq<char>)
    ensures
        lex_le(a, b) || lex_le(b, a),
    decreases a.len(),
{
    if a.len() > 0 && b.len() > 0 {
        if a[0] == b[0] {
            lemma_lex_le_total(a.drop_first(), b.drop_first());
        } else {
            lemma_code_points_differ(a[0], b[0]);
        }
    }
}

/// The order of the dictionary is transitive.
pub proof fn lemma_lex_le_transitive(a: Seq<char>, b: Seq<char>, c: Seq<char>)
    requires
        lex_le(a, b),
        lex_le(b, c),
    ensures
        lex_le(a, c),
    decreases a.len(),
{
    if a.len() > 0 && b.len() > 0 && c.len() > 0 && a[0] == b[0] && b[0] == c[0] {
        lemma_lex_le_transitive(a.drop_first(), b.drop_first(), c.drop_first());
    }
}

/// Two texts of which neither stands after the other are the same text.
pub proof fn lemma_lex_le_antisymmetric(a: Seq<char>, b: Seq<char>)
    requires
        lex_le(a, b),
        lex_le(b, a),
    ensures
        a == b,
    decreases a.len(),
{
    if a.len() > 0 && b.len() > 0 {
        lemma_lex_le_antisymmetric(a.drop_first(), b.drop_first());
        assert(a =~= seq![a[0]] + a.drop_first());
        assert(b =~= seq![b[0]] + b.drop_first());
    } else {
        assert(a =~= b);
    }
}

/// Skipping a common front does not change the order of two sequences.
proof fn lemma_lex_le_skip(a: Seq<char>, b: Seq<char>, n: int)
    requires
        0 <= n <= a.len(),
        n <= b.len(),
        a.take(n) == b.take(n),
    ensures
        lex_le(a, b) == lex_le(a.skip(n), b.skip(n)),
    decreases n,
{
    if n == 0 {
        assert(a.skip(0) =~= a);
        assert(b.skip(0) =~= b);
    } else {
        assert(a[0] == a.take(n)[0]);
        assert(b[0] == b.take(n)[0]);
        let a1 = a.drop_first();
        let b1 = b.drop_first();
        assert(a1.take(n - 1) =~= a.take(n).drop_first());
        assert(b1.take(n - 1) =~= b.take(n).drop_first());
        lemma_lex_le_skip(a1, b1, n - 1);
        assert(a1.skip(n - 1) =~= a.skip(n));
        assert(b1.skip(n - 1) =~= b.skip(n));
    }
}

/// Whether `a` stands before `b`, or is `b`, in dictionary order.
pub fn str_le(a: &str, b: &str) -> (ordered: bool)
    ensures
        ordered == lex_le(a@, b@),
{
    let x = to_chars(a);
    let y = to_chars(b);
    let mut i: usize = 0;
    while i < x.len() && i < y.len()
        invariant
            x@ == a@,
            y@ == b@,
            i <= x.len(),
            i <= y.len(),
            x@.take(i as int) == y@.take(i as int),
        decreases x.len() - i,
    {
        if x[i] != y[i] {
            proof {
                lemma_lex_le_skip(x@, y@, i as int);
            }
            return (x[i] as u32) < (y[i] as u32);
        }
        proof {
            assert(x@.take(i + 1) =~= x@.take(i as int).push(x@[i as int]));
            assert(y@.take(i + 1) =~= y@.take(i as int).push(y@[i as int]));
        }
        i += 1;
    }
    proof {
        lemma_lex_le_skip(x@, y@, i as int);
    }
    i == x.len()
}

// Decimal numerals

/// The character that writes the digit `d` (below ten).
pub open spec fn digit_char(d: nat) -> char {
    if d == 0 {
        '0'
    } else if d == 1 {
        '1'
    } else if d == 2 {
        '2'
    } else if d == 3 {
        '3'
    } else if d == 4 {
        '4'
    } else if d == 5 {
        '5'
    } else if d == 6 {
        '6'
    } else if d == 7 {
        '7'
    } else if d == 8 {
        '8'
    } else {
        '9'
    }
}

/// The decimal numeral of `n`, without leading zeros.
pub open spec fn decimal(n: nat) -> Seq<char>
    decreases n,
{
    if n < 10 {
        seq![digit_char(n)]
    } else {
        decimal(n / 10).push(digit_char(n % 10))
    }
}

fn digit_str(d: u8) -> (s: &'static str)
    requires
        d < 10,
    ensures
        s@ == seq![digit_char(d as nat)],
{
    proof {
        reveal_strlit("0");
        reveal_strlit("1");
        reveal_strlit("2");
        reveal_strlit("3");
        reveal_strlit("4");
        reveal_strlit("5");
        reveal_strlit("6");
        reveal_strlit("7");
        reveal_strlit("8");
        reveal_strlit("9");
    }
    let s = if d == 0 {
        "0"
    } else if d == 1 {
        "1"
    } else if d == 2 {
        "2"
    } else if d == 3 {
        "3"
    } else if d == 4 {
        "4"
    } else if d == 5 {
        "5"
    } else if d == 6 {
        "6"
    } else if d == 7 {
        "7"
    } else if d == 8 {
        "8"
    } else {
        "9"
    };
    assert(s@ =~= seq![digit_char(d as nat)]);
    s
}

/// The decimal numeral of `n`, as a string.
pub fn decimal_string(n: u128) -> (s: String)
    ensures
        s@ == decimal(n as nat),
    decreases n,
{
    if n < 10 {
        digit_str(n as u8).to_string()
    } else {
        let mut s = decimal_string(n / 10);
        s.append(digit_str((n % 10) as u8));
        assert(s@ =~= decimal((n / 10) as nat).push(digit_char((n % 10) as nat)));
        s
    }
}

} // verus!

