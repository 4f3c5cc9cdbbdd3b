//! Strings as sequences of characters.

use vstd::prelude::*;

verus! {

/// `String::push`: appends one character.
pub assume_specification[ String::push ](s: &mut String, c: char)
    ensures
        final(s)@ == old(s)@.push(c),
;

/// The pieces of a text between its separators: one more than there are
/// separators.
pub open spec fn split(text: Seq<char>, separator: char) -> Seq<Seq<char>>
    decreases text.len(),
{
    if text.len() == 0 {
        seq![Seq::empty()]
    } else {
        let before: Seq<Seq<char>> = split(text.drop_last(), separator);
        if text.last() == separator {
            before.push(Seq::empty())
        } else {
            before.update(before.len() - 1, before.last().push(text.last()))
        }
    }
}

/// The pieces joined with nothing between them.
pub open spec fn concat(pieces: Seq<Seq<char>>) -> Seq<char>
    decreases pieces.len(),
{
    if pieces.len() == 0 {
        Seq::empty()
    } else {
        concat(pieces.drop_last()) + pieces.last()
    }
}

/// The pieces joined with a separator between them.
pub open spec fn join(pieces: Seq<Seq<char>>, separator: char) -> Seq<char>
    decreases pieces.len(),
{
    if pieces.len() == 0 {
        Seq::empty()
    } else if pieces.len() == 1 {
        pieces[0]
    } else {
        join(pieces.drop_last(), separator).push(separator) + pieces.last()
    }
}

/// The texts that a vector of strings holds.
pub open spec fn texts(strings: Seq<String>) -> Seq<Seq<char>> {
    strings.map_values(|s: String| s@)
}

/// The bytes of a text.
pub open spec fn byte_len(text: Seq<char>) -> int {
    vstd::utf8::encode_utf8(text).len() as int
}

/// A text has the bytes of its parts, and each of its characters has one at least.
pub proof fn lemma_byte_len(a: Seq<char>, b: Seq<char>)
    ensures
        byte_len(a + b) == byte_len(a) + byte_len(b),
        byte_len(a) >= a.len(),
    decreases a.len(),
{
    if a.len() == 0 {
        assert(a + b =~= b);
    } else {
        lemma_byte_len(a.drop_first(), b);
        assert((a + b).drop_first() =~= a.drop_first() + b);
        assert((a + b)[0] == a[0]);
    }
}

/// `count` times the character `c`.
pub open spec fn repeated(c: char, count: int) -> Seq<char> {
    Seq::new(count as nat, |i: int| c)
}

/// A split text has at least one piece.
pub proof fn lemma_split_nonempty(text: Seq<char>, separator: char)
    ensures
        split(text, separator).len() >= 1,
    decreases text.len(),
{
    if text.len() > 0 {
        lemma_split_nonempty(text.drop_last(), separator);
    }
}

/// The pieces of a split text hold no separator, and no character that the text does not hold.
pub proof fn lemma_split_pieces(text: Seq<char>, separator: char)
    ensures
        forall|i: int, k: int|
            0 <= i < split(text, separator).len() && 0 <= k < split(text, separator)[i].len()
                ==> (#[trigger] split(text, separator)[i][k]) != separator && text.contains(
                split(text, separator)[i][k],
            ),
    decreases text.len(),
{
    lemma_split_nonempty(text, separator);
    if text.len() > 0 {
        let before = split(text.drop_last(), separator);
        let after = split(text, separator);
        lemma_split_pieces(text.drop_last(), separator);
        lemma_split_nonempty(text.drop_last(), separator);
        assert forall|i: int, k: int| 0 <= i < after.len() && 0 <= k < after[i].len() implies (
        #[trigger] after[i][k]) != separator && text.contains(after[i][k]) by {
            if i < before.len() && k < before[i].len() {
                assert(after[i][k] == before[i][k]);
                let place = choose|place: int|
                    0 <= place < text.len() - 1 && text.drop_last()[place] == before[i][k];
                assert(text.drop_last().contains(before[i][k]));
                assert(text[place] == after[i][k]);
            } else {
                assert(after[i][k] == text.last());
                assert(text[text.len() - 1] == text.last());
            }
        }
    }
}

/// A text that ends in a separator and a piece splits into the pieces before it and that one.
proof fn lemma_split_last(text: Seq<char>, piece: Seq<char>, separator: char)
    requires
        forall|k: int| 0 <= k < piece.len() ==> #[trigger] piece[k] != separator,
    ensures
        split(text.push(separator) + piece, separator) == split(text, separator).push(piece),
    decreases piece.len(),
{
    let whole = text.push(separator) + piece;
    if piece.len() == 0 {
        assert(whole =~= text.push(separator));
        assert(whole.drop_last() =~= text);
        assert(piece =~= Seq::<char>::empty());
    } else {
        lemma_split_last(text, piece.drop_last(), separator);
        assert(whole.drop_last() =~= text.push(separator) + piece.drop_last());
        assert(whole.last() == piece.last());
        assert(piece[piece.len() - 1] != separator);
        assert(piece.drop_last().push(piece.last()) =~= piece);
        assert(split(whole, separator) =~= split(text, separator).push(piece));
    }
}

/// Splitting undoes joining, where no piece holds the separator.
pub proof fn lemma_split_undoes_join(pieces: Seq<Seq<char>>, separator: char)
    requires
        pieces.len() > 0,
        forall|i: int, k: int|
            0 <= i < pieces.len() && 0 <= k < pieces[i].len() ==> #[trigger] pieces[i][k]
                != separator,
    ensures
        split(join(pieces, separator), separator) == pieces,
    decreases pieces.len(),
{
    if pieces.len() == 1 {
        lemma_split_whole(pieces[0], separator);
        assert(pieces =~= seq![pieces[0]]);
    } else {
        let before = pieces.drop_last();
        assert forall|i: int, k: int|
            0 <= i < before.len() && 0 <= k < before[i].len() implies #[trigger] before[i][k]
            != separator by {
            assert(before[i][k] == pieces[i][k]);
        }
        lemma_split_undoes_join(before, separator);
        assert forall|k: int| 0 <= k < pieces.last().len() implies #[trigger] pieces.last()[k]
            != separator by {
            assert(pieces.last()[k] == pieces[pieces.len() - 1][k]);
        }
        lemma_split_last(join(before, separator), pieces.last(), separator);
        assert(before.push(pieces.last()) =~= pieces);
    }
}

/// A text without the separator is one piece.
pub proof fn lemma_split_whole(text: Seq<char>, separator: char)
    requires
        forall|k: int| 0 <= k < text.len() ==> #[trigger] text[k] != separator,
    ensures
        split(text, separator) == seq![text],
    decreases text.len(),
{
    if text.len() > 0 {
        lemma_split_whole(text.drop_last(), separator);
        assert(text[text.len() - 1] != separator);
        assert(text.drop_last().push(text.last()) =~= text);
        assert(split(text, separator) =~= seq![text]);
    } else {
        assert(text =~= Seq::<char>::empty());
    }
}

/// The pieces and the separators make up the text.
pub proof fn lemma_split_len(text: Seq<char>, separator: char)
    ensures
        crate::canvas::total_len(split(text, separator)) + split(text, separator).len() - 1
            == text.len(),
        join(split(text, separator), separator) == text,
        forall|i: int|
            0 <= i < split(text, separator).len() ==> (#[trigger] split(text, separator)[i]).len()
                <= text.len(),
    decreases text.len(),
{
    let pieces = split(text, separator);
    if text.len() == 0 {
        assert(pieces.drop_last() =~= Seq::empty());
        assert(crate::canvas::total_len(pieces.drop_last()) == 0);
        assert(join(pieces, separator) =~= text);
    } else {
        lemma_split_nonempty(text.drop_last(), separator);
        lemma_split_len(text.drop_last(), separator);
        let before = split(text.drop_last(), separator);
        assert forall|i: int| 0 <= i < pieces.len() implies (#[trigger] pieces[i]).len()
            <= text.len() by {
            if i < before.len() {
                assert(before[i].len() <= text.len() - 1);
            }
        }
        if text.last() == separator {
            assert(pieces.drop_last() =~= before);
            assert(join(pieces, separator) =~= text);
        } else {
            assert(pieces.drop_last() =~= before.drop_last());
            assert(pieces.last() == before.last().push(text.last()));
            assert(join(pieces, separator) =~= join(before, separator).push(text.last()));
            assert(text =~= text.drop_last().push(text.last()));
        }
    }
}

/// Joining two lists of pieces one after the other.
pub proof fn lemma_concat_add(a: Seq<Seq<char>>, b: Seq<Seq<char>>)
    ensures
        concat(a + b) == concat(a) + concat(b),
    decreases b.len(),
{
    if b.len() == 0 {
        assert(a + b =~= a);
        assert(concat(a) + concat(b) =~= concat(a));
    } else {
        lemma_concat_add(a, b.drop_last());
        assert((a + b).drop_last() =~= a + b.drop_last());
        assert(concat(a + b) =~= concat(a) + concat(b));
    }
}

/// Joining one piece more.
pub proof fn lemma_concat_push(pieces: Seq<Seq<char>>, piece: Seq<char>)
    ensures
        concat(pieces.push(piece)) == concat(pieces) + piece,
{
    assert(pieces.push(piece).drop_last() =~= pieces);
}

/// The characters of a text.
pub fn chars_of(text: &str) -> (chars: Vec<char>)
    ensures
        chars@ == text@,
{
    let mut chars: Vec<char> = Vec::new();
    for c in it: text.chars()
        invariant
            it.seq() == text@,
            chars@ == text@.take(it.index() as int),
    {
        chars.push(c);
        assert(chars@ =~= text@.take(it.index() + 1));
    }
    assert(chars@ =~= text@);
    chars
}

/// The text made of the characters `from..to`.
pub fn string_of(chars: &Vec<char>, from: usize, to: usize) -> (text: String)
    requires
        from <= to <= chars@.len(),
    ensures
        text@ == chars@.subrange(from as int, to as int),
{
    let mut text = String::new();
    let mut i: usize = from;
    while i < to
        invariant
            from <= i <= to <= chars@.len(),
            text@ == chars@.subrange(from as int, i as int),
        decreases to - i,
    {
        text.push(chars[i]);
        i = i + 1;
        assert(text@ =~= chars@.subrange(from as int, i as int));
    }
    text
}

/// A text of `count` times the character `c`.
pub fn repeat_char(c: char, count: usize) -> (text: String)
    ensures
        text@ == repeated(c, count as int),
{
    let mut text = String::new();
    let mut i: usize = 0;
    while i < count
        invariant
            i <= count,
            text@ == repeated(c, i as int),
        decreases count - i,
    {
        text.push(c);
        i = i + 1;
        assert(text@ =~= repeated(c, i as int));
    }
    text
}

/// Splits a text at its separators.
pub fn split_on(text: &str, separator: char) -> (pieces: Vec<String>)
    ensures
        texts(pieces@) == split(text@, separator),
{
    let chars = chars_of(text);
    let mut pieces: Vec<String> = Vec::new();
    let mut current = String::new();
    let mut i: usize = 0;
    while i < chars.len()
        invariant
            i <= chars@.len(),
            split(chars@.take(i as int), separator) == texts(pieces@).push(current@),
        decreases chars@.len() - i,
    {
        assert(chars@.take(i + 1).drop_last() =~= chars@.take(i as int));
        let c = chars[i];
        if c == separator {
            let mut piece = String::new();
            std::mem::swap(&mut piece, &mut current);
            let ghost before = texts(pieces@);
            pieces.push(piece);
            assert(texts(pieces@) =~= before.push(piece@));
            assert(current@ =~= Seq::<char>::empty());
        } else {
            let ghost before = current@;
            current.push(c);
            assert(texts(pieces@).push(before).update(
                texts(pieces@).len() as int,
                before.push(c),
            ) =~= texts(pieces@).push(current@));
        }
        i = i + 1;
    }
    assert(chars@.take(i as int) =~= text@);
    let ghost before = texts(pieces@);
    pieces.push(current);
    assert(texts(pieces@) =~= before.push(current@));
    pieces
}

/// Joined pieces are as long as they are together, and the separators.
pub proof fn lemma_join_len(pieces: Seq<Seq<char>>, separator: char)
    ensures
        pieces.len() > 0 ==> join(pieces, separator).len() == crate::canvas::total_len(pieces)
            + pieces.len() - 1,
        pieces.len() == 0 ==> join(pieces, separator).len() == 0,
    decreases pieces.len(),
{
    if pieces.len() == 1 {
        assert(pieces.drop_last() =~= Seq::empty());
        assert(crate::canvas::total_len(pieces.drop_last()) == 0);
    } else if pieces.len() > 1 {
        lemma_join_len(pieces.drop_last(), separator);
    }
}

/// Joins strings with a separator between them.
pub fn join_with(pieces: &Vec<String>, separator: char) -> (text: String)
    ensures
        text@ == join(texts(pieces@), separator),
{
    let ghost all = texts(pieces@);
    let mut text = String::new();
    let mut i: usize = 0;
    assert(text@ =~= join(all.take(0), separator));
    while i < pieces.len()
        invariant
            i <= pieces@.len(),
            all == texts(pieces@),
            text@ == join(all.take(i as int), separator),
        decreases pieces@.len() - i,
    {
        proof {
            assert(all.take(i + 1).drop_last() =~= all.take(i as int));
            assert(all.take(i + 1).last() == pieces@[i as int]@);
            assert(i == 0 ==> text@ =~= Seq::<char>::empty());
        }
        if i > 0 {
            text.push(separator);
        }
        text.append(pieces[i].as_str());
        assert(i == 0 ==> text@ =~= pieces@[0]@);
        i = i + 1;
    }
    assert(all.take(i as int) =~= all);
    text
}

/// A copy of a text that may be missing.
pub fn clone_text(text: &Option<String>) -> (copy: Option<String>)
    ensures
        copy is Some == text is Some,
        text is Some ==> copy->0@ == text->0@,
{
    match text {
        Some(text) => Some(text.clone()),
        None => None,
    }
}

/// Copies of the strings.
pub fn clone_strings(strings: &Vec<String>) -> (copies: Vec<String>)
    ensures
        texts(copies@) == texts(strings@),
        copies@.len() == strings@.len(),
{
    let mut copies: Vec<String> = Vec::new();
    let mut i: usize = 0;
    while i < strings.len()
        invariant
            i <= strings@.len(),
            copies@.len() == i,
            forall|k: int| 0 <= k < i ==> (#[trigger] copies@[k])@ == strings@[k]@,
        decreases strings@.len() - i,
    {
        let copy = strings[i].clone();
        copies.push(copy);
        i = i + 1;
    }
    assert(texts(copies@) =~= texts(strings@));
    copies
}

/// The text that may be missing, as a sequence of characters.
pub open spec fn opt_text(text: Option<String>) -> Option<Seq<char>> {
    match text {
        Some(text) => Some(text@),
        None => None,
    }
}

/// Whether two texts that may be missing are the same.
pub fn same_text(a: &Option<String>, b: &Option<String>) -> (same: bool)
    ensures
        same == (opt_text(*a) == opt_text(*b)),
{
    match (a, b) {
        (Some(a), Some(b)) => *a == *b,
        (None, None) => true,
        _ => false,
    }
}

/// The character of a decimal digit.
pub open spec fn digit(d: int) -> char {
    if d <= 0 {
        '0'
    } else if d == 1 {
        '1'
    } else if d == 2 {
        '2'
    } else if d == 3 {
        '3'
    } else if d == 4 {
        '4'
    } else if d == 5 {
        '5'
    } else if d == 6 {
        '6'
    } else if d == 7 {
        '7'
    } else if d == 8 {
        '8'
    } else {
        '9'
    }
}

/// A number in decimal.
pub open spec fn decimal(n: int) -> Seq<char>
    decreases n,
{
    if n < 10 {
        seq![digit(n)]
    } else {
        decimal(n / 10).push(digit(n % 10))
    }
}

/// The character of a decimal digit.
fn digit_char(d: usize) -> (c: char)
    ensures
        c == digit(d as int),
{
    match d {
        0 => '0',
        1 => '1',
        2 => '2',
        3 => '3',
        4 => '4',
        5 => '5',
        6 => '6',
        7 => '7',
        8 => '8',
        _ => '9',
    }
}

/// Writes a number in decimal.
pub fn decimal_text(n: usize) -> (text: String)
    ensures
        text@ == decimal(n as int),
        1 <= text@.len() <= 1 + n,
    decreases n,
{
    if n < 10 {
        let mut text = String::new();
        text.push(digit_char(n));
        assert(text@ =~= seq![digit(n as int)]);
        text
    } else {
        let mut text = decimal_text(n / 10);
        text.push(digit_char(n % 10));
        text
    }
}

/// Ten to the power of the number of digits.
pub open spec fn power_of_ten(digits: int) -> int
    decreases digits,
{
    if digits <= 0 {
        1
    } else {
        10 * power_of_ten(digits - 1)
    }
}

/// A number below a power of ten has no more digits than that.
pub proof fn lemma_decimal_len(n: int, digits: int)
    requires
        digits >= 1,
        n < power_of_ten(digits),
    ensures
        decimal(n).len() <= digits,
    decreases digits,
{
    if n >= 10 {
        if digits > 1 {
            lemma_decimal_len(n / 10, digits - 1);
        } else {
            assert(power_of_ten(1) == 10 * power_of_ten(0));
        }
    }
}

/// The digits are the characters from zero to nine, in order.
pub proof fn lemma_digit_characters(d: int)
    requires
        0 <= d <= 9,
    ensures
        digit(d) as u32 == '0' as u32 + d,
{
}

/// A number in decimal is that number when it is read again, and starts with no zero that it
/// could do without.
pub proof fn lemma_decimal_is_read_back(n: int)
    requires
        0 <= n,
    ensures
        crate::sgr::digits_value(decimal(n)) == n,
        crate::sgr::has_digit(decimal(n)),
        decimal(n).len() >= 1,
        n > 0 ==> decimal(n)[0] != '0',
        forall|i: int| 0 <= i < decimal(n).len() ==> '0' <= #[trigger] decimal(n)[i] <= '9',
    decreases n,
{
    let text = decimal(n);
    if n < 10 {
        lemma_digit_characters(n);
        assert(text.drop_last() =~= Seq::empty());
        assert(crate::sgr::digits_value(text.drop_last()) == 0);
        assert(crate::sgr::is_digit(text[0]));
    } else {
        lemma_decimal_is_read_back(n / 10);
        lemma_digit_characters(n % 10);
        assert(text.drop_last() =~= decimal(n / 10));
        assert(crate::sgr::is_digit(text[text.len() - 1]));
        assert(text[0] == decimal(n / 10)[0]);
        assert forall|i: int| 0 <= i < text.len() implies '0' <= #[trigger] text[i] <= '9' by {
            if i < text.len() - 1 {
                assert(text[i] == decimal(n / 10)[i]);
            }
        }
    }
}

/// A text that is repeated is that character everywhere.
pub proof fn lemma_repeated(c: char, count: int, i: int)
    requires
        0 <= count,
    ensures
        repeated(c, count).len() == count,
        0 <= i < count ==> repeated(c, count)[i] == c,
{
}

} // verus!
