//! The small pieces of text this crate builds and reads.

use vstd::prelude::*;
use vstd::string::StringExecFns;

verus! {

/// The lower-case hexadecimal digit of a number below sixteen.
pub open spec fn hex_digit(n: int) -> char {
    if n < 10 {
        ('0' as int + n) as char
    } else {
        ('a' as int + n - 10) as char
    }
}

/// Two hexadecimal digits for every byte, in order.
pub open spec fn hex_of(bytes: Seq<u8>) -> Seq<char>
    decreases bytes.len(),
{
    if bytes.len() == 0 {
        Seq::empty()
    } else {
        hex_of(bytes.drop_last()).push(hex_digit(bytes.last() as int / 16)).push(
            hex_digit(bytes.last() as int % 16),
        )
    }
}

/// The texts of a list, in order.
pub open spec fn texts(list: Seq<String>) -> Seq<Seq<char>> {
    list.map_values(|text: String| text@)
}

/// The texts of a list, with a comma and a space between each two.
pub open spec fn comma_separated(list: Seq<Seq<char>>) -> Seq<char>
    decreases list.len(),
{
    if list.len() == 0 {
        Seq::empty()
    } else if list.len() == 1 {
        list[0]
    } else {
        comma_separated(list.drop_last()) + ", "@ + list.last()
    }
}

/// Whether a character is white space: the twenty-five that Unicode gives the
/// property `White_Space`.
pub open spec fn is_white_space(c: char) -> bool {
    let code = c as u32;
    ||| 0x09 <= code <= 0x0d
    ||| code == 0x20
    ||| code == 0x85
    ||| code == 0xa0
    ||| code == 0x1680
    ||| 0x2000 <= code <= 0x200a
    ||| code == 0x2028
    ||| code == 0x2029
    ||| code == 0x202f
    ||| code == 0x205f
    ||| code == 0x3000
}

/// A text without the white space it starts with.
pub open spec fn without_leading(text: Seq<char>) -> Seq<char>
    decreases text.len(),
{
    if text.len() > 0 && is_white_space(text[0]) {
        without_leading(text.drop_first())
    } else {
        text
    }
}

/// A text without the white space it ends with.
pub open spec fn without_trailing(text: Seq<char>) -> Seq<char>
    decreases text.len(),
{
    if text.len() > 0 && is_white_space(text.last()) {
        without_trailing(text.drop_last())
    } else {
        text
    }
}

/// A text without the white space at either end.
pub open spec fn trimmed(text: Seq<char>) -> Seq<char> {
    without_trailing(without_leading(text))
}

fn digit_text(n: u8) -> (text: &'static str)
    requires
        n < 16,
    ensures
        text@ == seq![hex_digit(n as int)],
{
    proof {
        reveal_strlit("0");
        reveal_strlit("1");
        reveal_strlit("2");
        reveal_strlit("3");
        reveal_strlit("4");
        reveal_strlit("5");
        reveal_strlit("6");
        reveal_strlit("7");
        reveal_strlit("8");
        reveal_strlit("9");
        reveal_strlit("a");
        reveal_strlit("b");
        reveal_strlit("c");
        reveal_strlit("d");
        reveal_strlit("e");
        reveal_strlit("f");
    }
    match n {
        0 => "0",
        1 => "1",
        2 => "2",
        3 => "3",
        4 => "4",
        5 => "5",
        6 => "6",
        7 => "7",
        8 => "8",
        9 => "9",
        10 => "a",
        11 => "b",
        12 => "c",
        13 => "d",
        14 => "e",
        _ => "f",
    }
}

/// Every byte as two lower-case hexadecimal digits.
pub fn hex(bytes: &[u8]) -> (text: String)
    ensures
        text@ == hex_of(bytes@),
{
    let mut text: String = String::new();
    let mut i: usize = 0;
    while i < bytes.len()
        invariant
            i <= bytes@.len(),
            text@ == hex_of(bytes@.take(i as int)),
        decreases bytes@.len() - i,
    {
        let byte: u8 = bytes[i];
        let ghost before = text@;
        text.append(digit_text(byte / 16));
        text.append(digit_text(byte % 16));
        proof {
            assert(bytes@.take(i as int + 1).drop_last() =~= bytes@.take(i as int));
            assert(text@ =~= before.push(hex_digit(byte as int / 16)).push(
                hex_digit(byte as int % 16),
            ));
        }
        i += 1;
    }
    assert(bytes@.take(i as int) =~= bytes@);
    text
}

/// The texts of a list, with a comma and a space between each two.
pub fn join(list: &Vec<String>) -> (text: String)
    ensures
        text@ == comma_separated(texts(list@)),
{
    let mut text: String = String::new();
    let ghost all = texts(list@);
    let mut i: usize = 0;
    assert(all.take(0) =~= Seq::<Seq<char>>::empty());
    while i < list.len()
        invariant
            i <= list@.len(),
            all == texts(list@),
            text@ == comma_separated(all.take(i as int)),
        decreases list@.len() - i,
    {
        assert(all.take(i as int + 1).drop_last() =~= all.take(i as int));
        if i > 0 {
            text.append(", ");
        }
        text.append(list[i].as_str());
        assert(text@ =~= comma_separated(all.take(i as int + 1)));
        i += 1;
    }
    assert(all.take(i as int) =~= all);
    text
}

/// Whether two lists hold the same texts in the same order.
pub fn same_texts(one: &Vec<String>, other: &Vec<String>) -> (same: bool)
    ensures
        same == (texts(one@) == texts(other@)),
{
    let ghost left = texts(one@);
    let ghost right = texts(other@);
    if one.len() != other.len() {
        assert(left.len() == one@.len() && right.len() == other@.len());
        return false;
    }
    let mut i: usize = 0;
    while i < one.len()
        invariant
            one@.len() == other@.len(),
            left == texts(one@),
            right == texts(other@),
            i <= one@.len(),
            left.take(i as int) == right.take(i as int),
        decreases one@.len() - i,
    {
        if one[i] != other[i] {
            assert(left[i as int] != right[i as int]);
            return false;
        }
        assert(left.take(i as int + 1) =~= left.take(i as int).push(left[i as int]));
        assert(right.take(i as int + 1) =~= right.take(i as int).push(right[i as int]));
        i += 1;
    }
    assert(left =~= left.take(i as int));
    assert(right =~= right.take(i as int));
    true
}

fn white_space(c: char) -> (white: bool)
    ensures
        white == is_white_space(c),
{
    let code: u32 = c as u32;
    (0x09 <= code && code <= 0x0d) || code == 0x20 || code == 0x85 || code == 0xa0 || code == 0x1680
        || (0x2000 <= code && code <= 0x200a) || code == 0x2028 || code == 0x2029 || code == 0x202f
        || code == 0x205f || code == 0x3000
}

fn characters(text: &str) -> (list: Vec<char>)
    ensures
        list@ == text@,
{
    let mut list: Vec<char> = Vec::new();
    for c in iter: text.chars()
        invariant
            list@ == iter.seq().take(iter.index()),
    {
        list.push(c);
    }
    list
}

proof fn lemma_without_leading(text: Seq<char>, from: int)
    requires
        0 <= from <= text.len(),
        forall|i: int| 0 <= i < from ==> is_white_space(#[trigger] text[i]),
        from == text.len() || !is_white_space(text[from]),
    ensures
        without_leading(text) == text.skip(from),
    decreases from,
{
    if from > 0 {
        assert(text.drop_first().skip(from - 1) =~= text.skip(from));
        assert forall|i: int| 0 <= i < from - 1 implies is_white_space(
            #[trigger] text.drop_first()[i],
        ) by {
            assert(text.drop_first()[i] == text[i + 1]);
        }
        lemma_without_leading(text.drop_first(), from - 1);
    } else {
        assert(text.skip(0) =~= text);
    }
}

proof fn lemma_without_trailing(text: Seq<char>, to: int)
    requires
        0 <= to <= text.len(),
        forall|i: int| to <= i < text.len() ==> is_white_space(#[trigger] text[i]),
        to == 0 || !is_white_space(text[to - 1]),
    ensures
        without_trailing(text) == text.take(to),
    decreases text.len() - to,
{
    if to < text.len() {
        assert(text.drop_last().take(to) =~= text.take(to));
        lemma_without_trailing(text.drop_last(), to);
    } else {
        assert(text.take(to) =~= text);
    }
}

/// A text without the white space at either end.
pub fn trim(text: &str) -> (rest: &str)
    ensures
        rest@ == trimmed(text@),
{
    let list: Vec<char> = characters(text);
    let mut from: usize = 0;
    while from < list.len() && white_space(list[from])
        invariant
            list@ == text@,
            from <= list@.len(),
            forall|i: int| 0 <= i < from ==> is_white_space(#[trigger] list@[i]),
        decreases list@.len() - from,
    {
        from += 1;
    }
    let mut to: usize = list.len();
    while from < to && white_space(list[to - 1])
        invariant
            from <= to <= list@.len(),
            forall|i: int| to <= i < list@.len() ==> is_white_space(#[trigger] list@[i]),
        decreases to,
    {
        to -= 1;
    }
    proof {
        let rest = text@.skip(from as int);
        lemma_without_leading(text@, from as int);
        assert forall|i: int| to - from <= i < rest.len() implies is_white_space(
            #[trigger] rest[i],
        ) by {
            assert(rest[i] == list@[i + from]);
        }
        lemma_without_trailing(rest, to - from);
        assert(rest.take(to - from) =~= text@.subrange(from as int, to as int));
    }
    vstd::string::StrSliceExecFns::substring_char(text, from, to)
}

/// Whether a text is no text at all.
pub fn is_empty(text: &str) -> (empty: bool)
    ensures
        empty == (text@.len() == 0),
{
    vstd::string::StrSliceExecFns::unicode_len(text) == 0
}

/// Hexadecimal text is twice as long as the bytes it writes out.
pub proof fn hex_writes_two_digits_for_each_byte(bytes: Seq<u8>)
    ensures
        hex_of(bytes).len() == 2 * bytes.len(),
    decreases bytes.len(),
{
    if bytes.len() > 0 {
        hex_writes_two_digits_for_each_byte(bytes.drop_last());
    }
}

/// Two runs of bytes with the same hexadecimal text are the same bytes.
pub proof fn hex_tells_bytes_apart(one: Seq<u8>, other: Seq<u8>)
    requires
        hex_of(one) == hex_of(other),
    ensures
        one == other,
    decreases one.len(),
{
    hex_writes_two_digits_for_each_byte(one);
    hex_writes_two_digits_for_each_byte(other);
    if one.len() > 0 {
        let left = hex_of(one);
        let right = hex_of(other);
        assert(left.last() == hex_digit(one.last() as int % 16));
        assert(right.last() == hex_digit(other.last() as int % 16));
        assert(left.drop_last().last() == hex_digit(one.last() as int / 16));
        assert(right.drop_last().last() == hex_digit(other.last() as int / 16));
        assert(left.drop_last().drop_last() =~= hex_of(one.drop_last()));
        assert(right.drop_last().drop_last() =~= hex_of(other.drop_last()));
        hex_tells_bytes_apart(one.drop_last(), other.drop_last());
        assert(one =~= one.drop_last().push(one.last()));
        assert(other =~= other.drop_last().push(other.last()));
    } else {
        assert(one =~= other);
    }
}

} // verus!
