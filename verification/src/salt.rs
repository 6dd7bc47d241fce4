use vstd::prelude::*;
use crate::hex::{hex_digits, push_hex_digit};

verus! {

/// One byte in upper-case hexadecimal without a leading zero: one digit below
/// sixteen, two from there on.
pub open spec fn byte_text(b: u8) -> Seq<char> {
    if b < 16 {
        seq![hex_digits()[b as int]]
    } else {
        seq![hex_digits()[b as int / 16], hex_digits()[b as int % 16]]
    }
}

/// The text of a salt: its bytes in upper-case hexadecimal, each without a
/// leading zero, one after the other.
pub open spec fn salt_text(bytes: Seq<u8>) -> Seq<char>
    decreases bytes.len(),
{
    if bytes.len() == 0 {
        Seq::empty()
    } else {
        salt_text(bytes.drop_last()) + byte_text(bytes.last())
    }
}

/// Writes a salt as text.
pub fn encode_salt(bytes: &Vec<u8>) -> (r: String)
    ensures
        r@ == salt_text(bytes@),
{
    let mut text = String::new();
    let mut i: usize = 0;
    while i < bytes.len()
        invariant
            i <= bytes.len(),
            text@ == salt_text(bytes@.take(i as int)),
        decreases bytes.len() - i,
    {
        let b = bytes[i];
        let ghost before = text@;
        if b >= 16 {
            push_hex_digit(&mut text, b / 16);
        }
        push_hex_digit(&mut text, b % 16);
        proof {
            assert(bytes@.take(i as int + 1).drop_last() =~= bytes@.take(i as int));
            assert(text@ =~= before + byte_text(b));
        }
        i += 1;
    }
    proof {
        assert(bytes@.take(i as int) =~= bytes@);
    }
    text
}

} // verus!
