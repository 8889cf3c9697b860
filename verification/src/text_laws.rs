//! What holds of texts: joining undone by splitting, numbers read back, and the rest.

use vstd::prelude::*;
use vstd::utf8::*;

use crate::digest;
use crate::text;
use crate::urls;

verus! {

/// The parts between the separators of a text.
pub open spec fn split(text: Seq<char>, separator: char) -> Seq<Seq<char>>
    decreases text.len(),
{
    if text.len() == 0 {
        seq![Seq::empty()]
    } else {
        let earlier = split(text.drop_last(), separator);
        if text.last() == separator {
            earlier.push(Seq::empty())
        } else {
            earlier.drop_last().push(earlier.last().push(text.last()))
        }
    }
}

proof fn lemma_split_is_not_empty(text: Seq<char>, separator: char)
    ensures
        split(text, separator).len() > 0,
    decreases text.len(),
{
    if text.len() > 0 {
        lemma_split_is_not_empty(text.drop_last(), separator);
    }
}

proof fn lemma_split_with_tail(text: Seq<char>, tail: Seq<char>, separator: char)
    requires
        !tail.contains(separator),
    ensures
        split(text + tail, separator) == split(text, separator).drop_last().push(
            split(text, separator).last() + tail,
        ),
    decreases tail.len(),
{
    lemma_split_is_not_empty(text, separator);
    let base = split(text, separator);
    if tail.len() == 0 {
        assert(text + tail =~= text);
        assert(base.last() + tail =~= base.last());
        assert(base =~= base.drop_last().push(base.last()));
    } else {
        let shorter = tail.drop_last();
        assert forall|c: char| shorter.contains(c) implies tail.contains(c) by {
            let k = choose|k: int| 0 <= k < shorter.len() && shorter[k] == c;
            assert(tail[k] == c);
        }
        lemma_split_with_tail(text, shorter, separator);
        assert((text + tail).drop_last() =~= text + shorter);
        assert(tail.contains(tail[tail.len() - 1]));
        assert((text + tail).last() == tail.last());
        assert((base.last() + shorter).push(tail.last()) =~= base.last() + tail);
        assert(base.drop_last().push(base.last() + shorter).drop_last() =~= base.drop_last());
    }
}

/// Splitting at the separator undoes joining, where no part holds the separator: every part comes
/// back, and nothing else.
pub proof fn law_splitting_undoes_joining(parts: Seq<Seq<char>>, separator: char)
    requires
        parts.len() > 0,
        forall|i: int| 0 <= i < parts.len() ==> !(#[trigger] parts[i]).contains(separator),
    ensures
        split(text::joined(parts, seq![separator]), separator) == parts,
    decreases parts.len(),
{
    let last = parts.last();
    assert(last == parts[parts.len() - 1]);
    if parts.len() == 1 {
        assert(Seq::<char>::empty() + last =~= last);
        lemma_split_with_tail(Seq::empty(), last, separator);
        assert(split(Seq::empty(), separator) =~= seq![Seq::<char>::empty()]);
        assert(seq![Seq::<char>::empty()].drop_last().push(last) =~= parts);
    } else {
        let shorter = parts.drop_last();
        assert forall|i: int| 0 <= i < shorter.len() implies !(
        #[trigger] shorter[i]).contains(separator) by {
            assert(shorter[i] == parts[i]);
        }
        law_splitting_undoes_joining(shorter, separator);
        let front = text::joined(shorter, seq![separator]);
        let with_separator = front.push(separator);
        assert(front + seq![separator] =~= with_separator);
        assert(with_separator.drop_last() =~= front);
        assert(split(with_separator, separator) == shorter.push(Seq::empty()));
        lemma_split_with_tail(with_separator, last, separator);
        assert(Seq::<char>::empty() + last =~= last);
        assert(shorter.push(Seq::<char>::empty()).drop_last() =~= shorter);
        assert(shorter.push(last) =~= parts);
    }
}

proof fn lemma_longer_last_part(parts: Seq<Seq<char>>, c: char, separator: Seq<char>)
    requires
        parts.len() > 0,
    ensures
        text::joined(parts.drop_last().push(parts.last().push(c)), separator) == text::joined(
            parts,
            separator,
        ).push(c),
{
    let longer = parts.drop_last().push(parts.last().push(c));
    assert(longer.drop_last() =~= parts.drop_last());
    assert(longer.last() == parts.last().push(c));
    assert(text::joined(longer, separator) =~= text::joined(parts, separator).push(c));
}

/// Joining undoes splitting at the separator.
pub proof fn law_joining_undoes_splitting(text: Seq<char>, separator: char)
    ensures
        text::joined(split(text, separator), seq![separator]) == text,
    decreases text.len(),
{
    if text.len() == 0 {
        assert(split(text, separator) =~= seq![Seq::<char>::empty()]);
        assert(text::joined(split(text, separator), seq![separator]) =~= text);
    } else {
        let shorter = text.drop_last();
        let earlier = split(shorter, separator);
        law_joining_undoes_splitting(shorter, separator);
        lemma_split_is_not_empty(shorter, separator);
        assert(text =~= shorter.push(text.last()));
        if text.last() == separator {
            let all = earlier.push(Seq::empty());
            assert(all.drop_last() =~= earlier);
            assert(text::joined(all, seq![separator]) =~= text);
        } else {
            lemma_longer_last_part(earlier, text.last(), seq![separator]);
        }
    }
}

/// Joining two lists of parts is joining each and putting the separator between.
pub proof fn law_joining_is_piecewise(
    front: Seq<Seq<char>>,
    back: Seq<Seq<char>>,
    separator: Seq<char>,
)
    requires
        front.len() > 0,
        back.len() > 0,
    ensures
        text::joined(front + back, separator) == text::joined(front, separator) + separator
            + text::joined(back, separator),
    decreases back.len(),
{
    let all = front + back;
    assert(all.last() == back.last());
    if back.len() == 1 {
        assert(all.drop_last() =~= front);
    } else {
        law_joining_is_piecewise(front, back.drop_last(), separator);
        assert(all.drop_last() =~= front + back.drop_last());
        assert(text::joined(all, separator) =~= text::joined(front, separator) + separator
            + text::joined(back, separator));
    }
}

/// A single part is joined to itself, and no part to nothing.
pub proof fn law_joining_one_part_adds_nothing(part: Seq<char>, separator: Seq<char>)
    ensures
        text::joined(seq![part], separator) == part,
        text::joined(Seq::empty(), separator) == Seq::<char>::empty(),
{
}

/// Replacing a character keeps the length and every other character, and leaves none of those that
/// were to be replaced.
pub proof fn law_replacing_touches_one_character(text: Seq<char>, from: char, to: char)
    ensures
        text::replaced(text, from, to).len() == text.len(),
        forall|i: int|
            0 <= i < text.len() && text[i] != from ==> (#[trigger] text::replaced(
                text,
                from,
                to,
            )[i]) == text[i],
        forall|i: int|
            0 <= i < text.len() && text[i] == from ==> (#[trigger] text::replaced(
                text,
                from,
                to,
            )[i]) == to,
        from != to ==> !text::replaced(text, from, to).contains(from),
        !text.contains(from) ==> text::replaced(text, from, to) == text,
{
    if !text.contains(from) {
        assert(text::replaced(text, from, to) =~= text);
    }
}

/// A text ends with another exactly where it is something followed by the other.
pub proof fn law_suffixes_are_what_remains(text: Seq<char>, suffix: Seq<char>)
    ensures
        text::has_suffix(text, suffix) <==> exists|front: Seq<char>| text == #[trigger] (front
            + suffix),
{
    if text::has_suffix(text, suffix) {
        let front = text.take(text.len() - suffix.len());
        assert(text =~= front + suffix);
    }
    if exists|front: Seq<char>| text == #[trigger] (front + suffix) {
        let front = choose|front: Seq<char>| text == #[trigger] (front + suffix);
        assert(text.skip(text.len() - suffix.len()) =~= suffix);
    }
}

/// The number that decimal digits stand for.
pub open spec fn number_of(digits: Seq<char>) -> int
    decreases digits.len(),
{
    if digits.len() == 0 {
        0
    } else {
        10 * number_of(digits.drop_last()) + (digits.last() as int - '0' as int)
    }
}

/// A number that is written in decimal reads as itself, is made of digits only, and has no leading
/// zero.
pub proof fn law_decimal_reads_back(n: nat)
    ensures
        number_of(text::decimal(n)) == n,
        text::decimal(n).len() > 0,
        forall|i: int|
            0 <= i < text::decimal(n).len() ==> '0' <= #[trigger] text::decimal(n)[i] <= '9',
        n > 0 ==> text::decimal(n)[0] != '0',
    decreases n,
{
    reveal_with_fuel(number_of, 2);
    let digit = text::digit_char(n % 10);
    assert(digit as int == 48 + n % 10);
    if n < 10 {
        assert(text::decimal(n).drop_last() =~= Seq::empty());
    } else {
        law_decimal_reads_back(n / 10);
        assert(text::decimal(n).drop_last() =~= text::decimal(n / 10));
    }
}

/// Two hexadecimal digits stand for each byte: read as a number, they give the byte.
pub proof fn law_hex_digits_give_the_bytes(bytes: Seq<u8>, i: int)
    requires
        0 <= i < bytes.len(),
    ensures
        digest::hex(bytes).len() == 2 * bytes.len(),
        urls::hex_value((digest::hex(bytes)[2 * i] as u32) as u8) matches Some(high)
            && urls::hex_value((digest::hex(bytes)[2 * i + 1] as u32) as u8) matches Some(low)
            && 16 * high + low == bytes[i],
        !('A' <= digest::hex(bytes)[2 * i] <= 'F'),
        !('A' <= digest::hex(bytes)[2 * i + 1] <= 'F'),
{
    let high = bytes[i] / 16;
    let low = bytes[i] % 16;
    assert((2 * i) / 2 == i && (2 * i + 1) / 2 == i);
    assert((2 * i) % 2 == 0 && (2 * i + 1) % 2 == 1);
    assert(digest::hex_char(high) as u32 == if high < 10 { 48 + high } else { 87 + high });
    assert(digest::hex_char(low) as u32 == if low < 10 { 48 + low } else { 87 + low });
}

proof fn lemma_scalar_holds_no_percent(scalar: u32, i: int)
    requires
        scalar != 37,
        0 <= i < encode_scalar(scalar).len(),
    ensures
        encode_scalar(scalar)[i] != 37,
{
    assert(scalar <= 0x7F && scalar != 37 ==> (scalar & 0x7F) as u8 != 37u8) by (bit_vector);
    assert(0xC0u8 | ((scalar >> 6) & 0x1F) as u8 != 37u8) by (bit_vector);
    assert(0xE0u8 | ((scalar >> 12) & 0x0F) as u8 != 37u8) by (bit_vector);
    assert(0xF0u8 | ((scalar >> 18) & 0x7) as u8 != 37u8) by (bit_vector);
    assert(0x80u8 | (scalar & 0x3F) as u8 != 37u8) by (bit_vector);
    assert(0x80u8 | ((scalar >> 6) & 0x3F) as u8 != 37u8) by (bit_vector);
    assert(0x80u8 | ((scalar >> 12) & 0x3F) as u8 != 37u8) by (bit_vector);
}

proof fn lemma_text_holds_no_percent(chars: Seq<char>)
    requires
        !chars.contains('%'),
    ensures
        forall|i: int| 0 <= i < encode_utf8(chars).len() ==> #[trigger] encode_utf8(chars)[i] != 37,
    decreases chars.len(),
{
    if chars.len() > 0 {
        let first = encode_scalar(chars[0] as u32);
        let rest = chars.drop_first();
        assert forall|c: char| rest.contains(c) implies chars.contains(c) by {
            let k = choose|k: int| 0 <= k < rest.len() && rest[k] == c;
            assert(chars[k + 1] == c);
        }
        lemma_text_holds_no_percent(rest);
        assert(chars.contains(chars[0]));
        assert forall|i: int| 0 <= i < encode_utf8(chars).len() implies #[trigger] encode_utf8(
            chars,
        )[i] != 37 by {
            if i < first.len() {
                let first_char = chars[0];
                assert(first_char as u32 != 37) by {
                    if first_char as u32 == 37u32 {
                        char_u32_cast(first_char, 37u32);
                        char_u32_cast('%', 37u32);
                    }
                }
                lemma_scalar_holds_no_percent(chars[0] as u32, i);
            } else {
                assert(encode_utf8(chars)[i] == encode_utf8(rest)[i - first.len()]);
            }
        }
    }
}

proof fn lemma_no_percent_no_change(bytes: Seq<u8>)
    requires
        forall|i: int| 0 <= i < bytes.len() ==> #[trigger] bytes[i] != 37,
    ensures
        urls::percent_decoded(bytes) == bytes,
    decreases bytes.len(),
{
    if bytes.len() > 0 {
        lemma_no_percent_no_change(bytes.skip(1));
        assert(bytes =~= seq![bytes[0]] + bytes.skip(1));
    }
}

/// A URL without a percent sign stands for itself.
pub proof fn law_plain_urls_stand_for_themselves(url: Seq<char>)
    requires
        !url.contains('%'),
    ensures
        urls::url_decoded(url) == Some(url),
{
    lemma_text_holds_no_percent(url);
    lemma_no_percent_no_change(encode_utf8(url));
    encode_utf8_valid_utf8(url);
    encode_utf8_decode_utf8(url);
}

} // verus!
