//! Text by characters: searching, splitting and trimming.

use vstd::prelude::*;

verus! {

/// Whether a character is white space in Unicode's sense: one of the
/// twenty-five characters that have the property `White_Space`.
pub open spec fn white_space(c: char) -> bool {
    let code = c as u32;
    ||| 0x09 <= code <= 0x0d
    ||| code == 0x20
    ||| code == 0x85
    ||| code == 0xa0
    ||| code == 0x1680
    ||| 0x2000 <= code <= 0x200a
    ||| code == 0x2028
    ||| code == 0x2029
    ||| code == 0x202f
    ||| code == 0x205f
    ||| code == 0x3000
}

/// `char::is_whitespace`: whether the character has Unicode's property
/// `White_Space`.
pub assume_specification[ char::is_whitespace ](c: char) -> (r: bool)
    ensures
        r == white_space(c),
;

/// `String::push`: appends one character to the end.
pub assume_specification[ String::push ](text: &mut String, c: char)
    ensures
        final(text)@ == old(text)@.push(c),
;

/// The characters of a text.
pub fn chars_of(text: &str) -> (chars: Vec<char>)
    ensures
        chars@ == text@,
{
    broadcast use vstd::string::axiom_spec_iter;

    let mut chars: Vec<char> = Vec::new();
    for c in it: text.chars()
        invariant
            it.seq() == text@,
            chars@ == text@.subrange(0, it.index() as int),
    {
        chars.push(c);
        assert(chars@ =~= text@.subrange(0, it.index() + 1));
    }
    assert(chars@ =~= text@);
    chars
}

/// The text that `chars[from..to]` spell.
pub fn text_of(chars: &[char], from: usize, to: usize) -> (text: String)
    requires
        from <= to <= chars@.len(),
    ensures
        text@ == chars@.subrange(from as int, to as int),
{
    let mut text = String::new();
    let mut index: usize = from;
    while index < to
        invariant
            from <= index <= to <= chars@.len(),
            text@ == chars@.subrange(from as int, index as int),
        decreases to - index,
    {
        text.push(chars[index]);
        index += 1;
        assert(text@ =~= chars@.subrange(from as int, index as int));
    }
    text
}

/// Tells whether two texts are the same.
pub fn text_equal(one: &str, other: &str) -> (same: bool)
    ensures
        same == (one@ == other@),
{
    let a = chars_of(one);
    let b = chars_of(other);
    if a.len() != b.len() {
        return false;
    }
    let mut index: usize = 0;
    while index < a.len()
        invariant
            a@ == one@,
            b@ == other@,
            a@.len() == b@.len(),
            index <= a@.len(),
            forall|k: int| 0 <= k < index ==> a@[k] == b@[k],
        decreases a.len() - index,
    {
        if a[index] != b[index] {
            assert(a@[index as int] != b@[index as int]);
            return false;
        }
        index += 1;
    }
    assert(a@ =~= b@);
    true
}

/// Whether `pattern` stands in `text` at `place`.
pub open spec fn occurs_at(text: Seq<char>, pattern: Seq<char>, place: int) -> bool {
    &&& 0 <= place
    &&& place + pattern.len() <= text.len()
    &&& text.subrange(place, place + pattern.len()) == pattern
}

/// Whether `pattern` stands somewhere in `text`.
pub open spec fn occurs_in(text: Seq<char>, pattern: Seq<char>) -> bool {
    exists|place: int| occurs_at(text, pattern, place)
}

/// Whether `place` is the first place of `text` where `pattern` stands.
pub open spec fn is_first_occurrence(text: Seq<char>, pattern: Seq<char>, place: int) -> bool {
    &&& occurs_at(text, pattern, place)
    &&& forall|earlier: int| 0 <= earlier < place ==> !occurs_at(text, pattern, earlier)
}

/// Tells whether `pattern` stands in `text` at `place`.
pub fn matches_at(text: &[char], pattern: &[char], place: usize) -> (found: bool)
    ensures
        found == occurs_at(text@, pattern@, place as int),
{
    if place > text.len() || pattern.len() > text.len() - place {
        return false;
    }
    let mut index: usize = 0;
    while index < pattern.len()
        invariant
            place + pattern@.len() <= text@.len() <= usize::MAX,
            index <= pattern@.len(),
            forall|k: int| 0 <= k < index ==> text@[place + k] == pattern@[k],
        decreases pattern.len() - index,
    {
        if text[place + index] != pattern[index] {
            proof {
                let part = text@.subrange(place as int, place + pattern@.len());
                assert(part[index as int] == text@[place + index]);
            }
            return false;
        }
        index += 1;
    }
    proof {
        assert(text@.subrange(place as int, place + pattern@.len()) =~= pattern@);
    }
    true
}

/// Finds the first place of `text` where `pattern` stands.
pub fn find(text: &[char], pattern: &[char]) -> (place: Option<usize>)
    ensures
        match place {
            Some(at) => is_first_occurrence(text@, pattern@, at as int),
            None => !occurs_in(text@, pattern@),
        },
{
    if pattern.len() > text.len() {
        return None;
    }
    if pattern.len() == 0 {
        proof {
            assert(text@.subrange(0, 0) =~= pattern@);
        }
        return Some(0);
    }
    let last: usize = text.len() - pattern.len();
    let mut place: usize = 0;
    while place <= last
        invariant
            last == text@.len() - pattern@.len(),
            last < usize::MAX,
            place <= last + 1,
            forall|earlier: int| 0 <= earlier < place ==> !occurs_at(text@, pattern@, earlier),
        decreases last + 1 - place,
    {
        if matches_at(text, pattern, place) {
            return Some(place);
        }
        place += 1;
    }
    None
}

/// Tells whether `pattern` stands somewhere in `text`.
pub fn contains(text: &str, pattern: &str) -> (found: bool)
    ensures
        found == occurs_in(text@, pattern@),
{
    let text_chars = chars_of(text);
    let pattern_chars = chars_of(pattern);
    find(text_chars.as_slice(), pattern_chars.as_slice()).is_some()
}

/// Tells whether `text` begins with `pattern`.
pub fn starts_with(text: &str, pattern: &str) -> (found: bool)
    ensures
        found == occurs_at(text@, pattern@, 0),
{
    let text_chars = chars_of(text);
    let pattern_chars = chars_of(pattern);
    matches_at(text_chars.as_slice(), pattern_chars.as_slice(), 0)
}

/// Where the text begins once the white space at its front is left out.
pub open spec fn trim_start_of(text: Seq<char>) -> int
    decreases text.len(),
{
    if text.len() > 0 && white_space(text.first()) {
        1 + trim_start_of(text.drop_first())
    } else {
        0
    }
}

/// Where the text ends once the white space at its back is left out.
pub open spec fn trim_end_of(text: Seq<char>) -> int
    decreases text.len(),
{
    if text.len() > 0 && white_space(text.last()) {
        trim_end_of(text.drop_last())
    } else {
        text.len() as int
    }
}

/// The text without the white space at its front and at its back.
pub open spec fn trimmed(text: Seq<char>) -> Seq<char> {
    let start = trim_start_of(text);
    let end = trim_end_of(text);
    if start <= end {
        text.subrange(start, end)
    } else {
        Seq::empty()
    }
}

proof fn lemma_trim_start(text: Seq<char>)
    ensures
        0 <= trim_start_of(text) <= text.len(),
        forall|k: int| 0 <= k < trim_start_of(text) ==> white_space(#[trigger] text[k]),
        trim_start_of(text) < text.len() ==> !white_space(text[trim_start_of(text)]),
    decreases text.len(),
{
    if text.len() > 0 && white_space(text.first()) {
        let rest = text.drop_first();
        lemma_trim_start(rest);
        assert forall|k: int| 0 <= k < trim_start_of(text) implies white_space(
            #[trigger] text[k],
        ) by {
            if k > 0 {
                assert(text[k] == rest[k - 1]);
            }
        }
        if trim_start_of(text) < text.len() {
            assert(text[trim_start_of(text)] == rest[trim_start_of(rest)]);
        }
    }
}

proof fn lemma_trim_end(text: Seq<char>)
    ensures
        0 <= trim_end_of(text) <= text.len(),
        forall|k: int| trim_end_of(text) <= k < text.len() ==> white_space(#[trigger] text[k]),
        trim_end_of(text) > 0 ==> !white_space(text[trim_end_of(text) - 1]),
    decreases text.len(),
{
    if text.len() > 0 && white_space(text.last()) {
        let rest = text.drop_last();
        lemma_trim_end(rest);
        assert forall|k: int| trim_end_of(text) <= k < text.len() implies white_space(
            #[trigger] text[k],
        ) by {
            if k < text.len() - 1 {
                assert(text[k] == rest[k]);
            }
        }
        if trim_end_of(text) > 0 {
            assert(text[trim_end_of(text) - 1] == rest[trim_end_of(rest) - 1]);
        }
    }
}

proof fn lemma_trim_start_is(text: Seq<char>, start: int)
    requires
        0 <= start <= text.len(),
        forall|k: int| 0 <= k < start ==> white_space(#[trigger] text[k]),
        start < text.len() ==> !white_space(text[start]),
    ensures
        trim_start_of(text) == start,
    decreases text.len(),
{
    if start > 0 {
        assert(white_space(text[0]));
        let rest = text.drop_first();
        assert forall|k: int| 0 <= k < start - 1 implies white_space(#[trigger] rest[k]) by {
            assert(rest[k] == text[k + 1]);
        }
        lemma_trim_start_is(rest, start - 1);
    }
}

proof fn lemma_trim_end_is(text: Seq<char>, end: int)
    requires
        0 <= end <= text.len(),
        forall|k: int| end <= k < text.len() ==> white_space(#[trigger] text[k]),
        end > 0 ==> !white_space(text[end - 1]),
    ensures
        trim_end_of(text) == end,
    decreases text.len(),
{
    if end < text.len() {
        assert(white_space(text[text.len() - 1]));
        let rest = text.drop_last();
        assert forall|k: int| end <= k < rest.len() implies white_space(#[trigger] rest[k]) by {
            assert(rest[k] == text[k]);
        }
        lemma_trim_end_is(rest, end);
    }
}

/// Leaves out the white space at the front and at the back of
/// `chars[from..to]` and spells what remains.
pub fn trim_range(chars: &[char], from: usize, to: usize) -> (text: String)
    requires
        from <= to <= chars@.len(),
    ensures
        text@ == trimmed(chars@.subrange(from as int, to as int)),
{
    let ghost part = chars@.subrange(from as int, to as int);
    let mut start: usize = from;
    while start < to && chars[start].is_whitespace()
        invariant
            from <= start <= to <= chars@.len(),
            part == chars@.subrange(from as int, to as int),
            forall|k: int| 0 <= k < start - from ==> white_space(#[trigger] part[k]),
        decreases to - start,
    {
        start += 1;
    }
    let mut end: usize = to;
    while end > from && chars[end - 1].is_whitespace()
        invariant
            from <= end <= to <= chars@.len(),
            part == chars@.subrange(from as int, to as int),
            forall|k: int| end - from <= k < part.len() ==> white_space(#[trigger] part[k]),
        decreases end,
    {
        end -= 1;
    }
    proof {
        if start < to {
            assert(part[start - from] == chars@[start as int]);
        }
        if end > from {
            assert(part[end - from - 1] == chars@[end - 1]);
        }
        lemma_trim_start_is(part, start - from);
        lemma_trim_end_is(part, end - from);
    }
    if start <= end {
        let text = text_of(chars, start, end);
        proof {
            assert(text@ =~= part.subrange(start - from, end - from));
        }
        text
    } else {
        String::new()
    }
}

/// Leaves out the white space at the front and at the back of a text.
pub fn trim(text: &str) -> (trimmed_text: String)
    ensures
        trimmed_text@ == trimmed(text@),
{
    let chars = chars_of(text);
    proof {
        assert(chars@.subrange(0, chars@.len() as int) =~= chars@);
    }
    trim_range(chars.as_slice(), 0, chars.len())
}

/// A trimmed text neither begins nor ends with white space, and what was
/// left out of the text was white space.
pub proof fn trimmed_has_no_white_margin(text: Seq<char>)
    ensures
        trimmed(text).len() > 0 ==> !white_space(trimmed(text).first()) && !white_space(
            trimmed(text).last(),
        ),
        forall|k: int| 0 <= k < trim_start_of(text) ==> white_space(#[trigger] text[k]),
        forall|k: int| trim_end_of(text) <= k < text.len() ==> white_space(#[trigger] text[k]),
{
    lemma_trim_start(text);
    lemma_trim_end(text);
}

} // verus!
