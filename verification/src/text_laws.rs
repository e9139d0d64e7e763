//! What holds of every text this crate builds or reads.

use crate::boundary;
use crate::text;
use vstd::prelude::*;

verus! {

/// Whether a character is one of the sixteen lower-case hexadecimal digits.
pub open spec fn is_hex(c: char) -> bool {
    '0' <= c <= '9' || 'a' <= c <= 'f'
}

/// The number a hexadecimal digit stands for.
pub open spec fn hex_value(c: char) -> int {
    if '0' <= c <= '9' {
        c as int - '0' as int
    } else {
        c as int - 'a' as int + 10
    }
}

/// Whether two hexadecimal digits, the greater first, write out a byte.
pub open spec fn writes(greater: char, lesser: char, byte: u8) -> bool {
    is_hex(greater) && is_hex(lesser) && byte == 16 * hex_value(greater) + hex_value(lesser)
}

/// **Hexadecimal text can be read back**: every byte is two digits, the greater
/// first, in its place, and there is nothing else.
pub proof fn hex_can_be_read_back(bytes: Seq<u8>)
    ensures
        text::hex_of(bytes).len() == 2 * bytes.len(),
        forall|i: int|
            0 <= i < bytes.len() ==> #[trigger] writes(
                text::hex_of(bytes)[2 * i],
                text::hex_of(bytes)[2 * i + 1],
                bytes[i],
            ),
    decreases bytes.len(),
{
    if bytes.len() > 0 {
        let before = bytes.drop_last();
        hex_can_be_read_back(before);
        assert forall|i: int| 0 <= i < bytes.len() implies #[trigger] writes(
            text::hex_of(bytes)[2 * i],
            text::hex_of(bytes)[2 * i + 1],
            bytes[i],
        ) by {
            if i < before.len() {
                assert(writes(
                    text::hex_of(before)[2 * i],
                    text::hex_of(before)[2 * i + 1],
                    before[i],
                ));
                assert(text::hex_of(bytes)[2 * i] == text::hex_of(before)[2 * i]);
                assert(text::hex_of(bytes)[2 * i + 1] == text::hex_of(before)[2 * i + 1]);
            }
        }
    }
}

/// A list of no texts is no text, and a list of one is that text.
pub proof fn one_text_stands_alone(one: Seq<char>)
    ensures
        text::comma_separated(Seq::empty()) == Seq::<char>::empty(),
        text::comma_separated(seq![one]) == one,
{
}

/// Two lists, each of some texts, one behind the other: their texts stand with a
/// comma and a space between them and are otherwise untouched.
pub proof fn a_comma_and_a_space_stand_between(one: Seq<Seq<char>>, other: Seq<Seq<char>>)
    requires
        one.len() > 0,
        other.len() > 0,
    ensures
        text::comma_separated(one + other) == text::comma_separated(one) + seq![',', ' ']
            + text::comma_separated(other),
    decreases other.len(),
{
    reveal_strlit(", ");
    assert(", "@ =~= seq![',', ' ']);
    let both = one + other;
    assert(both.drop_last() =~= one + other.drop_last());
    if other.len() == 1 {
        assert(both.drop_last() =~= one);
        assert(text::comma_separated(both) =~= text::comma_separated(one) + seq![',', ' ']
            + other[0]);
    } else {
        a_comma_and_a_space_stand_between(one, other.drop_last());
        assert(text::comma_separated(both) =~= text::comma_separated(one) + seq![',', ' ']
            + text::comma_separated(other));
    }
}

/// Every text of a list is somewhere in what it is joined to.
pub proof fn every_text_of_a_list_is_in_the_joined_one(list: Seq<Seq<char>>, i: int) -> (found: (
    Seq<char>,
    Seq<char>,
))
    requires
        0 <= i < list.len(),
    ensures
        text::comma_separated(list) == found.0 + list[i] + found.1,
{
    let before = list.take(i);
    let after = list.skip(i + 1);
    let here = seq![list[i]];
    let nothing = Seq::<char>::empty();
    one_text_stands_alone(list[i]);
    let head = if before.len() == 0 {
        nothing
    } else {
        text::comma_separated(before) + seq![',', ' ']
    };
    let tail = if after.len() == 0 {
        nothing
    } else {
        seq![',', ' '] + text::comma_separated(after)
    };
    if before.len() > 0 {
        a_comma_and_a_space_stand_between(before, here);
    } else {
        assert(before + here =~= here);
    }
    if after.len() > 0 {
        a_comma_and_a_space_stand_between(before + here, after);
    }
    assert(list =~= before + here + after);
    assert(after.len() == 0 ==> list =~= before + here);
    assert(text::comma_separated(list) =~= head + list[i] + tail);
    (head, tail)
}

/// The characters that are white space are these, and no others.
pub proof fn white_space_is_what_unicode_says(c: char)
    ensures
        text::is_white_space(c) <==> {
            ||| c == '\t'
            ||| c == '\n'
            ||| c == '\u{b}'
            ||| c == '\u{c}'
            ||| c == '\r'
            ||| c == ' '
            ||| c == '\u{85}'
            ||| c == '\u{a0}'
            ||| c == '\u{1680}'
            ||| c == '\u{2000}'
            ||| c == '\u{2001}'
            ||| c == '\u{2002}'
            ||| c == '\u{2003}'
            ||| c == '\u{2004}'
            ||| c == '\u{2005}'
            ||| c == '\u{2006}'
            ||| c == '\u{2007}'
            ||| c == '\u{2008}'
            ||| c == '\u{2009}'
            ||| c == '\u{200a}'
            ||| c == '\u{2028}'
            ||| c == '\u{2029}'
            ||| c == '\u{202f}'
            ||| c == '\u{205f}'
            ||| c == '\u{3000}'
        },
{
}

/// Whether every character of a text is white space.
pub open spec fn is_blank(text: Seq<char>) -> bool {
    forall|i: int| 0 <= i < text.len() ==> text::is_white_space(#[trigger] text[i])
}

proof fn lemma_leading(text: Seq<char>) -> (before: Seq<char>)
    ensures
        text == before + text::without_leading(text),
        is_blank(before),
        text::without_leading(text).len() > 0 ==> !text::is_white_space(
            text::without_leading(text)[0],
        ),
    decreases text.len(),
{
    if text.len() > 0 && text::is_white_space(text[0]) {
        let rest = lemma_leading(text.drop_first());
        let before = seq![text[0]] + rest;
        assert(text =~= seq![text[0]] + text.drop_first());
        assert(text =~= seq![text[0]] + (rest + text::without_leading(text)));
        assert(text =~= before + text::without_leading(text));
        before
    } else {
        let before = Seq::<char>::empty();
        assert(text =~= before + text);
        before
    }
}

proof fn lemma_trailing(text: Seq<char>) -> (after: Seq<char>)
    ensures
        text == text::without_trailing(text) + after,
        is_blank(after),
        text::without_trailing(text).len() > 0 ==> !text::is_white_space(
            text::without_trailing(text).last(),
        ),
    decreases text.len(),
{
    if text.len() > 0 && text::is_white_space(text.last()) {
        let rest = lemma_trailing(text.drop_last());
        let after = rest.push(text.last());
        assert(text =~= text.drop_last().push(text.last()));
        assert(text =~= (text::without_trailing(text) + rest).push(text.last()));
        assert(text =~= text::without_trailing(text) + after);
        after
    } else {
        let after = Seq::<char>::empty();
        assert(text =~= text + after);
        after
    }
}

/// **Trimming takes white space from both ends and nothing else**: what is left
/// stands in the text between two stretches of white space, and neither starts
/// nor ends with any.
pub proof fn trimming_takes_white_space_and_nothing_else(text: Seq<char>) -> (ends: (
    Seq<char>,
    Seq<char>,
))
    ensures
        text == ends.0 + text::trimmed(text) + ends.1,
        is_blank(ends.0),
        is_blank(ends.1),
        text::trimmed(text).len() > 0 ==> !text::is_white_space(text::trimmed(text)[0])
            && !text::is_white_space(text::trimmed(text).last()),
{
    let before = lemma_leading(text);
    let rest = text::without_leading(text);
    let after = lemma_trailing(rest);
    assert(text =~= before + text::trimmed(text) + after);
    if text::trimmed(text).len() > 0 {
        assert(text::trimmed(text)[0] == rest[0]);
    }
    (before, after)
}

/// White space round a text that neither starts nor ends with any is all that
/// trimming takes, and of a blank text nothing is left.
pub proof fn trimming_undoes_padding(before: Seq<char>, core: Seq<char>, after: Seq<char>)
    requires
        is_blank(before),
        is_blank(after),
        core.len() > 0 ==> !text::is_white_space(core[0]) && !text::is_white_space(core.last()),
    ensures
        text::trimmed(before + core + after) == core,
{
    let whole = before + core + after;
    let (head, tail) = trimming_takes_white_space_and_nothing_else(whole);
    let left = text::trimmed(whole);
    assert(whole =~= head + left + tail);
    if core.len() == 0 {
        if left.len() > 0 {
            let at = head.len() as int;
            assert(whole[at] == left[0]);
            assert(at < before.len() ==> whole[at] == before[at]);
            assert(at >= before.len() ==> whole[at] == after[at - before.len()]);
        }
        assert(left =~= core);
    } else {
        let first = before.len() as int;
        let last = before.len() + core.len() - 1;
        assert(whole[first] == core[0]);
        assert(whole[last] == core.last());
        if head.len() > first {
            assert(whole[first] == head[first]);
        }
        if left.len() == 0 {
            assert(first >= head.len() ==> whole[first] == tail[first - head.len()]);
        }
        assert(left.len() > 0);
        let from = head.len() as int;
        assert(whole[from] == left[0]);
        if from < first {
            assert(whole[from] == before[from]);
        }
        assert(from == first);
        let to = head.len() + left.len() - 1;
        assert(whole[to] == left.last());
        if to > last {
            assert(whole[to] == after[to - last - 1]);
        }
        if to < last {
            assert(whole[last] == tail[last - to - 1]);
        }
        assert forall|i: int| 0 <= i < left.len() implies left[i] == core[i] by {
            assert(left[i] == whole[from + i]);
            assert(core[i] == whole[first + i]);
        }
        assert(left =~= core);
    }
}

/// The decimal digits of a number, without any it does not need.
pub open spec fn decimal_digits(n: nat) -> Seq<char>
    decreases n,
{
    let last = ('0' as nat + n % 10) as char;
    if n < 10 {
        seq![last]
    } else {
        decimal_digits(n / 10).push(last)
    }
}

proof fn lemma_digits_state_their_number(n: nat)
    ensures
        decimal_digits(n).len() > 0,
        forall|i: int|
            0 <= i < decimal_digits(n).len() ==> '0' <= #[trigger] decimal_digits(n)[i] <= '9',
        boundary::value_of(decimal_digits(n)) == n,
    decreases n,
{
    let digits = decimal_digits(n);
    if n < 10 {
        assert(digits.drop_last() =~= Seq::empty());
        assert(boundary::value_of(digits.drop_last()) == 0);
        assert(boundary::value_of(digits) == n);
    } else {
        lemma_digits_state_their_number(n / 10);
        assert(digits.drop_last() =~= decimal_digits(n / 10));
        assert(boundary::value_of(digits) == 10 * (n / 10) + n % 10);
    }
}

/// The digits of a number that fits in a `u64` state that number, with a plus
/// sign before them or without.
pub proof fn the_digits_of_a_number_state_it(n: u64)
    ensures
        boundary::decimal(decimal_digits(n as nat)) == Some(n),
        boundary::decimal(seq!['+'] + decimal_digits(n as nat)) == Some(n),
{
    let digits = decimal_digits(n as nat);
    lemma_digits_state_their_number(n as nat);
    assert(digits[0] != '+');
    assert((seq!['+'] + digits).skip(1) =~= digits);
}

/// A text that holds a character which is neither a digit nor a leading plus
/// sign states no number, and neither does no text at all.
pub proof fn what_is_not_a_digit_states_no_number(text: Seq<char>, i: int)
    requires
        text.len() == 0 || (0 <= i < text.len() && !('0' <= text[i] <= '9') && (i > 0 || text[i]
            != '+')),
    ensures
        boundary::decimal(text) is None,
{
    let digits = boundary::digits_of(text);
    if text.len() > 0 {
        if text[0] == '+' {
            assert(digits[i - 1] == text[i]);
        } else {
            assert(digits[i] == text[i]);
        }
    }
}

} // verus!
