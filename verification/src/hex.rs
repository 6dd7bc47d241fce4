use vstd::prelude::*;
use vstd::string::StringExecFns;
use vstd::string::StrSliceExecFns;
use crate::keys::{lemma_position_absent, lemma_position_found, position};

verus! {

/// The sixteen digits of upper-case hexadecimal, least first.
pub open spec fn hex_digits() -> Seq<char> {
    "0123456789ABCDEF"@
}

/// A byte written as two hexadecimal digits, the high one first.
pub open spec fn byte_pair(b: u8) -> Seq<char> {
    seq![hex_digits()[b as int / 16], hex_digits()[b as int % 16]]
}

/// Bytes written as text: two hexadecimal digits for each.
pub open spec fn hex_text(bytes: Seq<u8>) -> Seq<char>
    decreases bytes.len(),
{
    if bytes.len() == 0 {
        Seq::empty()
    } else {
        hex_text(bytes.drop_last()) + byte_pair(bytes.last())
    }
}

/// The byte that two characters spell, if both are hexadecimal digits.
pub open spec fn pair_byte(high: char, low: char) -> Option<u8> {
    match (position(hex_digits(), high), position(hex_digits(), low)) {
        (Some(h), Some(l)) => Some((h * 16 + l) as u8),
        _ => None,
    }
}

/// The bytes that a text spells, if it is made of pairs of hexadecimal digits.
pub open spec fn hex_bytes(text: Seq<char>) -> Option<Seq<u8>>
    decreases text.len(),
{
    if text.len() == 0 {
        Some(Seq::empty())
    } else if text.len() == 1 {
        None
    } else {
        match (
            hex_bytes(text.take(text.len() - 2)),
            pair_byte(text[text.len() - 2], text[text.len() - 1]),
        ) {
            (Some(front), Some(b)) => Some(front.push(b)),
            _ => None,
        }
    }
}

/// The digits are the sixteen characters `0` to `9` and `A` to `F`.
pub proof fn lemma_hex_digits()
    ensures
        hex_digits() =~= seq![
            '0',
            '1',
            '2',
            '3',
            '4',
            '5',
            '6',
            '7',
            '8',
            '9',
            'A',
            'B',
            'C',
            'D',
            'E',
            'F',
        ],
{
    reveal_strlit("0123456789ABCDEF");
}

/// The digit of a number below sixteen stands at that number's position.
pub proof fn lemma_digit_position(n: int)
    requires
        0 <= n < 16,
    ensures
        position(hex_digits(), hex_digits()[n]) == Some(n),
{
    lemma_hex_digits();
    lemma_position_found(hex_digits(), hex_digits()[n], n);
}

/// Two digits spell the byte they were written for.
pub proof fn lemma_pair_byte(b: u8)
    ensures
        pair_byte(byte_pair(b)[0], byte_pair(b)[1]) == Some(b),
{
    lemma_digit_position(b as int / 16);
    lemma_digit_position(b as int % 16);
}

/// Writing bytes as text and reading the text gives the bytes back.
pub proof fn lemma_hex_round_trip(bytes: Seq<u8>)
    ensures
        hex_bytes(hex_text(bytes)) == Some(bytes),
    decreases bytes.len(),
{
    if bytes.len() > 0 {
        let front = bytes.drop_last();
        let text = hex_text(bytes);
        lemma_hex_round_trip(front);
        lemma_pair_byte(bytes.last());
        assert(text.take(text.len() - 2) =~= hex_text(front));
        assert(front.push(bytes.last()) =~= bytes);
    }
}

/// Appends the hexadecimal digit of `n` to `text`.
pub(crate) fn push_hex_digit(text: &mut String, n: u8)
    requires
        n < 16,
    ensures
        final(text)@ == old(text)@.push(hex_digits()[n as int]),
{
    let digits = "0123456789ABCDEF";
    proof {
        reveal_strlit("0123456789ABCDEF");
        assert(digits.is_ascii());
    }
    let digit = digits.substring_ascii(n as usize, n as usize + 1);
    text.append(digit);
    proof {
        assert(digit@ =~= seq![hex_digits()[n as int]]);
        assert(old(text)@ + digit@ =~= old(text)@.push(hex_digits()[n as int]));
    }
}

/// Writes bytes as text, two hexadecimal digits for each.
pub fn to_hex(bytes: &Vec<u8>) -> (r: String)
    ensures
        r@ == hex_text(bytes@),
{
    let mut text = String::new();
    let mut i: usize = 0;
    while i < bytes.len()
        invariant
            i <= bytes.len(),
            text@ == hex_text(bytes@.take(i as int)),
        decreases bytes.len() - i,
    {
        let b = bytes[i];
        let ghost before = text@;
        push_hex_digit(&mut text, b / 16);
        push_hex_digit(&mut text, b % 16);
        proof {
            assert(bytes@.take(i as int + 1).drop_last() =~= bytes@.take(i as int));
            assert(text@ =~= before + byte_pair(b));
        }
        i += 1;
    }
    proof {
        assert(bytes@.take(i as int) =~= bytes@);
    }
    text
}

/// The value of a hexadecimal digit given by its character code.
fn digit_value(code: u8, Ghost(c): Ghost<char>) -> (r: Option<u8>)
    requires
        c as u8 == code,
        (c as u32) < 128,
    ensures
        match r {
            Some(v) => v < 16 && position(hex_digits(), c) == Some(v as int),
            None => position(hex_digits(), c).is_none(),
        },
{
    proof {
        lemma_hex_digits();
    }
    if 48 <= code && code <= 57 {
        proof {
            lemma_position_found(hex_digits(), c, code as int - 48);
        }
        Some(code - 48)
    } else if 65 <= code && code <= 70 {
        proof {
            lemma_position_found(hex_digits(), c, code as int - 55);
        }
        Some(code - 55)
    } else {
        proof {
            lemma_position_absent(hex_digits(), c);
        }
        None
    }
}

/// Reads text as bytes; `None` where it is not made of pairs of hexadecimal
/// digits.
pub fn from_hex(text: &str) -> (r: Option<Vec<u8>>)
    ensures
        match r {
            Some(bytes) => hex_bytes(text@) == Some(bytes@),
            None => hex_bytes(text@).is_none(),
        },
{
    broadcast use vstd::string::is_ascii_spec_bytes;

    if !text.is_ascii() {
        proof {
            lemma_not_ascii_is_not_hex(text@);
        }
        return None;
    }
    let codes = text.as_bytes();
    let n = codes.len();
    assert(n == text@.len());
    if n % 2 != 0 {
        proof {
            lemma_odd_is_not_hex(text@);
        }
        return None;
    }
    let mut bytes: Vec<u8> = Vec::new();
    let mut i: usize = 0;
    proof {
        assert(text@.take(0) =~= Seq::empty());
    }
    while i < n
        invariant
            i <= n,
            i % 2 == 0,
            n % 2 == 0,
            n == text@.len(),
            n == codes@.len(),
            vstd::string::is_ascii(text),
            codes@ =~= Seq::new(text@.len(), |k: int| text@.index(k) as u8),
            hex_bytes(text@.take(i as int)) == Some(bytes@),
        decreases n - i,
    {
        let ghost high = text@[i as int];
        let ghost low = text@[i as int + 1];
        proof {
            let next = text@.take(i as int + 2);
            assert(next.take(next.len() - 2) =~= text@.take(i as int));
            assert(next[next.len() - 2] == high);
            assert(next[next.len() - 1] == low);
            assert((high as u32) < 128 && (low as u32) < 128) by {
                assert(vstd::utf8::is_ascii_chars(text@));
            }
        }
        let h = digit_value(codes[i], Ghost(high));
        let l = digit_value(codes[i + 1], Ghost(low));
        match (h, l) {
            (Some(h), Some(l)) => {
                bytes.push(h * 16 + l);
            },
            _ => {
                proof {
                    lemma_bad_pair_is_not_hex(text@, i as int);
                }
                return None;
            },
        }
        i += 2;
    }
    proof {
        assert(text@.take(i as int) =~= text@);
    }
    Some(bytes)
}

/// A text of odd length spells no bytes.
pub proof fn lemma_odd_is_not_hex(text: Seq<char>)
    requires
        text.len() % 2 == 1,
    ensures
        hex_bytes(text).is_none(),
    decreases text.len(),
{
    if text.len() > 1 {
        lemma_odd_is_not_hex(text.take(text.len() - 2));
    }
}

/// A text spells bytes only if each pair of it does.
pub proof fn lemma_bad_pair_is_not_hex(text: Seq<char>, i: int)
    requires
        0 <= i,
        i + 1 < text.len(),
        i % 2 == 0,
        text.len() % 2 == 0,
        pair_byte(text[i], text[i + 1]).is_none(),
    ensures
        hex_bytes(text).is_none(),
    decreases text.len(),
{
    if i + 2 < text.len() {
        let front = text.take(text.len() - 2);
        assert(front[i] == text[i] && front[i + 1] == text[i + 1]);
        lemma_bad_pair_is_not_hex(front, i);
    }
}

/// A text with a character outside ASCII spells no bytes.
pub proof fn lemma_not_ascii_is_not_hex(text: Seq<char>)
    requires
        !vstd::utf8::is_ascii_chars(text),
    ensures
        hex_bytes(text).is_none(),
    decreases text.len(),
{
    lemma_hex_digits();
    if text.len() >= 2 {
        let front = text.take(text.len() - 2);
        let high = text[text.len() - 2];
        let low = text[text.len() - 1];
        crate::keys::lemma_position(hex_digits(), high);
        crate::keys::lemma_position(hex_digits(), low);
        if vstd::utf8::is_ascii_chars(front) {
            if pair_byte(high, low).is_some() {
                assert forall|k: int| 0 <= k < text.len() implies '\0' <= #[trigger] text[k]
                    <= '\u{7f}' by {
                    if k < text.len() - 2 {
                        assert(front[k] == text[k]);
                    }
                }
            }
        } else {
            lemma_not_ascii_is_not_hex(front);
        }
    }
}

} // verus!
