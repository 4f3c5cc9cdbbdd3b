//! White space and the trimming of it.

use crate::strings::{chars_of, string_of};
use vstd::prelude::*;

verus! {

/// Whether a character is white space.
pub open spec fn is_space(c: char) -> bool {
    let code: u32 = c as u32;
    ||| 0x09 <= code <= 0x0d
    ||| code == 0x20
    ||| code == 0x85
    ||| code == 0xa0
    ||| code == 0x1680
    ||| 0x2000 <= code <= 0x200a
    ||| code == 0x2028
    ||| code == 0x2029
    ||| code == 0x202f
    ||| code == 0x205f
    ||| code == 0x3000
}

/// Whether a character is white space.
pub fn is_whitespace(c: char) -> (r: bool)
    ensures
        r == is_space(c),
{
    let code: u32 = c as u32;
    (code >= 0x09 && code <= 0x0d) || code == 0x20 || code == 0x85 || code == 0xa0 || code == 0x1680
        || (code >= 0x2000 && code <= 0x200a) || code == 0x2028 || code == 0x2029 || code == 0x202f
        || code == 0x205f || code == 0x3000
}

/// How many characters of white space a text starts with.
pub open spec fn leading_spaces(text: Seq<char>) -> int
    decreases text.len(),
{
    if text.len() == 0 || !is_space(text[0]) {
        0
    } else {
        1 + leading_spaces(text.skip(1))
    }
}

/// A text without the white space that it ends with.
pub open spec fn trimmed_end(text: Seq<char>) -> Seq<char>
    decreases text.len(),
{
    if text.len() == 0 || !is_space(text.last()) {
        text
    } else {
        trimmed_end(text.drop_last())
    }
}

/// A text without the white space that it starts with.
pub open spec fn trimmed_start(text: Seq<char>) -> Seq<char> {
    text.skip(leading_spaces(text))
}

/// A text without the white space around it.
pub open spec fn trimmed(text: Seq<char>) -> Seq<char> {
    trimmed_end(trimmed_start(text))
}

/// The white space that a text starts with is a part of it.
pub proof fn lemma_leading_spaces(text: Seq<char>)
    ensures
        0 <= leading_spaces(text) <= text.len(),
        forall|i: int| 0 <= i < leading_spaces(text) ==> is_space(#[trigger] text[i]),
        leading_spaces(text) < text.len() ==> !is_space(text[leading_spaces(text)]),
    decreases text.len(),
{
    if text.len() > 0 && is_space(text[0]) {
        let rest = text.skip(1);
        lemma_leading_spaces(rest);
        assert forall|i: int| 0 <= i < leading_spaces(text) implies is_space(#[trigger] text[i]) by {
            if i > 0 {
                assert(text[i] == rest[i - 1]);
            }
        }
        if leading_spaces(text) < text.len() {
            assert(text[leading_spaces(text)] == rest[leading_spaces(rest)]);
        }
    }
}

proof fn lemma_leading_spaces_found(text: Seq<char>, count: int)
    requires
        0 <= count <= text.len(),
        forall|i: int| 0 <= i < count ==> is_space(#[trigger] text[i]),
        count < text.len() ==> !is_space(text[count]),
    ensures
        leading_spaces(text) == count,
{
    lemma_leading_spaces(text);
    let found: int = leading_spaces(text);
    if found < count {
        assert(is_space(text[found]));
    }
    if count < found {
        assert(is_space(text[count]));
    }
}

/// Counts the characters of white space that a text starts with.
pub fn count_leading_spaces(chars: &Vec<char>) -> (count: usize)
    ensures
        count == leading_spaces(chars@),
        count <= chars@.len(),
{
    let mut count: usize = 0;
    while count < chars.len() && is_whitespace(chars[count])
        invariant
            count <= chars@.len(),
            forall|i: int| 0 <= i < count ==> is_space(#[trigger] chars@[i]),
        decreases chars@.len() - count,
    {
        count = count + 1;
    }
    proof {
        lemma_leading_spaces_found(chars@, count as int);
    }
    count
}

/// A text of white space alone starts with all of it.
pub proof fn lemma_blank_text(text: Seq<char>)
    requires
        forall|i: int| 0 <= i < text.len() ==> is_space(#[trigger] text[i]),
    ensures
        leading_spaces(text) == text.len(),
{
    lemma_leading_spaces_found(text, text.len() as int);
}

/// Whether the first `count` characters of a text take `bytes` bytes.
pub open spec fn splits_at(text: Seq<char>, bytes: int, count: int) -> bool {
    0 <= count <= text.len() && crate::strings::byte_len(text.take(count)) == bytes
}

/// Whether a text can be split behind as many bytes as it starts with characters of white
/// space, or holds nothing else.
pub open spec fn start_splits(text: Seq<char>) -> bool {
    leading_spaces(text) == text.len() || exists|count: int|
        splits_at(text, leading_spaces(text), count)
}

/// How many characters are passed over at the start of a text: those in as many bytes as the
/// text starts with characters of white space; all of them, where it holds nothing else.
pub open spec fn passed_over(text: Seq<char>) -> int {
    if leading_spaces(text) == text.len() {
        text.len() as int
    } else {
        choose|count: int| splits_at(text, leading_spaces(text), count)
    }
}

/// More characters take more bytes.
proof fn lemma_more_bytes(text: Seq<char>, fewer: int, more: int)
    requires
        0 <= fewer < more <= text.len(),
    ensures
        crate::strings::byte_len(text.take(fewer)) < crate::strings::byte_len(text.take(more)),
{
    let between = text.subrange(fewer, more);
    assert(text.take(more) =~= text.take(fewer) + between);
    crate::strings::lemma_byte_len(text.take(fewer), between);
    crate::strings::lemma_byte_len(between, Seq::empty());
}

/// The bytes of a character.
fn utf8_len(c: char) -> (bytes: usize)
    ensures
        bytes == crate::strings::byte_len(seq![c]),
        1 <= bytes <= 4,
{
    let code: u32 = c as u32;
    assert(seq![c].drop_first() =~= Seq::<char>::empty());
    assert(vstd::utf8::encode_utf8(seq![c].drop_first()).len() == 0);
    if code <= 0x7f {
        1
    } else if code <= 0x7ff {
        2
    } else if code <= 0xffff {
        3
    } else {
        4
    }
}

/// Counts the characters that are passed over at the start of a text; none, where it cannot
/// be split there.
pub fn count_passed_over(chars: &Vec<char>) -> (count: Option<usize>)
    ensures
        count is Some == start_splits(chars@),
        count matches Some(count) ==> count == passed_over(chars@) && count <= chars@.len(),
{
    let spaces: usize = count_leading_spaces(chars);
    if spaces == chars.len() {
        return Some(spaces);
    }
    let mut count: usize = 0;
    let mut left: usize = spaces;
    assert(chars@.take(0) =~= Seq::empty());
    while left > 0
        invariant
            spaces < chars@.len(),
            spaces == leading_spaces(chars@),
            left <= spaces,
            count <= spaces - left,
            spaces - left == crate::strings::byte_len(chars@.take(count as int)),
        decreases left,
    {
        let bytes: usize = utf8_len(chars[count]);
        proof {
            crate::strings::lemma_byte_len(
                chars@.take(count as int),
                seq![chars@[count as int]],
            );
            assert(chars@.take(count + 1) =~= chars@.take(count as int)
                + seq![chars@[count as int]]);
        }
        if bytes > left {
            assert forall|other: int| !splits_at(chars@, spaces as int, other) by {
                if splits_at(chars@, spaces as int, other) {
                    if other < count {
                        lemma_more_bytes(chars@, other, count as int);
                    } else if other > count + 1 {
                        lemma_more_bytes(chars@, count + 1, other);
                    }
                }
            }
            return None;
        }
        left = left - bytes;
        count = count + 1;
    }
    proof {
        assert(splits_at(chars@, spaces as int, count as int));
        assert forall|other: int| splits_at(chars@, spaces as int, other) implies other == count by {
            if other < count {
                lemma_more_bytes(chars@, other, count as int);
            } else if other > count {
                lemma_more_bytes(chars@, count as int, other);
            }
        }
    }
    Some(count)
}

/// Finds where a text ends without the white space at its end.
pub fn trimmed_len(chars: &Vec<char>, from: usize) -> (end: usize)
    requires
        from <= chars@.len(),
    ensures
        from <= end <= chars@.len(),
        chars@.subrange(from as int, end as int) == trimmed_end(chars@.skip(from as int)),
{
    let mut end: usize = chars.len();
    assert(chars@.subrange(from as int, end as int) =~= chars@.skip(from as int));
    while end > from && is_whitespace(chars[end - 1])
        invariant
            from <= end <= chars@.len(),
            trimmed_end(chars@.subrange(from as int, end as int)) == trimmed_end(
                chars@.skip(from as int),
            ),
        decreases end,
    {
        assert(chars@.subrange(from as int, end as int).drop_last() =~= chars@.subrange(
            from as int,
            end - 1,
        ));
        end = end - 1;
    }
    end
}

/// Trims the white space at the end of a text.
pub fn trim_end(text: &str) -> (r: String)
    ensures
        r@ == trimmed_end(text@),
{
    let chars = chars_of(text);
    let end: usize = trimmed_len(&chars, 0);
    assert(chars@.skip(0) =~= chars@);
    string_of(&chars, 0, end)
}

/// Trims the white space at the start of a text.
pub fn trim_start(text: &str) -> (r: String)
    ensures
        r@ == trimmed_start(text@),
{
    let chars = chars_of(text);
    let start: usize = count_leading_spaces(&chars);
    assert(chars@.subrange(start as int, chars@.len() as int) =~= chars@.skip(start as int));
    string_of(&chars, start, chars.len())
}

/// Trims the white space around a text.
pub fn trim(text: &str) -> (r: String)
    ensures
        r@ == trimmed(text@),
{
    let chars = chars_of(text);
    let start: usize = count_leading_spaces(&chars);
    let end: usize = trimmed_len(&chars, start);
    string_of(&chars, start, end)
}

/// Trimming at the end only shortens a text.
pub proof fn lemma_trimmed_end_len(text: Seq<char>)
    ensures
        trimmed_end(text).len() <= text.len(),
    decreases text.len(),
{
    if text.len() > 0 && is_space(text.last()) {
        lemma_trimmed_end_len(text.drop_last());
    }
}

/// Trimming only shortens a text.
pub proof fn lemma_trimmed_len(text: Seq<char>)
    ensures
        trimmed(text).len() <= text.len(),
        trimmed_start(text).len() <= text.len(),
{
    lemma_leading_spaces(text);
    lemma_trimmed_end_len(trimmed_start(text));
}

/// White space is what Unicode counts as it: twenty-five characters.
pub proof fn lemma_white_space_characters(c: char)
    ensures
        is_space(c) == seq![
            '\t', '\n', '\u{b}', '\u{c}', '\r', ' ', '\u{85}', '\u{a0}', '\u{1680}',
            '\u{2000}', '\u{2001}', '\u{2002}', '\u{2003}', '\u{2004}', '\u{2005}',
            '\u{2006}', '\u{2007}', '\u{2008}', '\u{2009}', '\u{200a}', '\u{2028}',
            '\u{2029}', '\u{202f}', '\u{205f}', '\u{3000}',
        ].contains(c),
{
    let all = seq![
        '\t', '\n', '\u{b}', '\u{c}', '\r', ' ', '\u{85}', '\u{a0}', '\u{1680}',
        '\u{2000}', '\u{2001}', '\u{2002}', '\u{2003}', '\u{2004}', '\u{2005}',
        '\u{2006}', '\u{2007}', '\u{2008}', '\u{2009}', '\u{200a}', '\u{2028}',
        '\u{2029}', '\u{202f}', '\u{205f}', '\u{3000}',
    ];
    assert(all[0] == '\t' && all[1] == '\n' && all[2] == '\u{b}' && all[3] == '\u{c}');
    assert(all[4] == '\r' && all[5] == ' ' && all[6] == '\u{85}' && all[7] == '\u{a0}');
    assert(all[8] == '\u{1680}' && all[9] == '\u{2000}' && all[10] == '\u{2001}');
    assert(all[11] == '\u{2002}' && all[12] == '\u{2003}' && all[13] == '\u{2004}');
    assert(all[14] == '\u{2005}' && all[15] == '\u{2006}' && all[16] == '\u{2007}');
    assert(all[17] == '\u{2008}' && all[18] == '\u{2009}' && all[19] == '\u{200a}');
    assert(all[20] == '\u{2028}' && all[21] == '\u{2029}' && all[22] == '\u{202f}');
    assert(all[23] == '\u{205f}' && all[24] == '\u{3000}');
    if all.contains(c) {
        let k = choose|k: int| 0 <= k < all.len() && all[k] == c;
        assert(all.len() == 25);
        assert(is_space(all[k]));
    }
}

/// A text that is trimmed at its end is a prefix of the text that ends with no white space, and
/// white space is all that is missing.
pub proof fn lemma_trimmed_end_is_prefix(text: Seq<char>)
    ensures
        ({
            let left = trimmed_end(text);
            &&& left.len() <= text.len()
            &&& left == text.take(left.len() as int)
            &&& left.len() > 0 ==> !is_space(left[left.len() - 1])
            &&& forall|i: int| left.len() <= i < text.len() ==> is_space(#[trigger] text[i])
        }),
    decreases text.len(),
{
    if text.len() > 0 && is_space(text.last()) {
        let rest = text.drop_last();
        lemma_trimmed_end_is_prefix(rest);
        let left = trimmed_end(rest);
        assert(rest.take(left.len() as int) =~= text.take(left.len() as int));
        assert forall|i: int| left.len() <= i < text.len() implies is_space(#[trigger] text[i]) by {
            if i < rest.len() {
                assert(rest[i] == text[i]);
            }
        }
    } else {
        assert(text.take(text.len() as int) =~= text);
    }
}

/// A text that is trimmed is a part of the text that neither starts nor ends with white space,
/// and white space is all that is missing.
pub proof fn lemma_trimmed_is_part(text: Seq<char>) -> (start: int)
    ensures
        0 <= start,
        start + trimmed(text).len() <= text.len(),
        trimmed(text) == text.subrange(start, start + trimmed(text).len()),
        trimmed(text).len() > 0 ==> !is_space(trimmed(text)[0]) && !is_space(
            trimmed(text)[trimmed(text).len() - 1],
        ),
        forall|i: int|
            0 <= i < start || start + trimmed(text).len() <= i < text.len() ==> is_space(
                #[trigger] text[i],
            ),
{
    let start = leading_spaces(text);
    let rest = trimmed_start(text);
    lemma_leading_spaces(text);
    lemma_trimmed_end_is_prefix(rest);
    let left = trimmed(text);
    assert(text.subrange(start, start + left.len()) =~= rest.take(left.len() as int));
    assert forall|i: int|
        0 <= i < start || start + left.len() <= i < text.len() implies is_space(
        #[trigger] text[i],
    ) by {
        if i >= start {
            assert(rest[i - start] == text[i]);
        }
    }
    if left.len() > 0 {
        assert(rest[0] == text[start]);
        assert(left[0] == rest[0]);
    }
    start
}

/// What is passed over takes as many bytes as there are characters of white space at the start of
/// the text; of a text of white space alone it is all of it.
pub proof fn lemma_passed_over_bytes(text: Seq<char>, spaces: int)
    requires
        0 <= spaces <= text.len(),
        forall|i: int| 0 <= i < spaces ==> is_space(#[trigger] text[i]),
        spaces < text.len() ==> !is_space(text[spaces]),
        start_splits(text),
    ensures
        0 <= passed_over(text) <= text.len(),
        spaces == text.len() ==> passed_over(text) == text.len(),
        spaces < text.len() ==> crate::strings::byte_len(text.take(passed_over(text))) == spaces,
{
    lemma_leading_spaces_found(text, spaces);
}

} // verus!
