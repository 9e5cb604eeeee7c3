//! What the bytes and the digits of an encoding spell.

use crate::encoding::{be_bytes, be_fits, enc_bool, enc_bytes, enc_opt_text, enc_text, hex_text};
use crate::fingerprint::decimal_text;
use vstd::prelude::*;
use vstd::utf8::encode_utf8;

verus! {

/// Number that some bytes spell, most significant first.
pub open spec fn number_of(bytes: Seq<u8>) -> int
    decreases bytes.len(),
{
    if bytes.len() == 0 {
        0
    } else {
        256 * number_of(bytes.drop_last()) + bytes.last()
    }
}

/// A number that fits is spelled by exactly as many bytes as asked for.
pub proof fn bytes_spell_their_number(value: int, width: nat)
    requires
        be_fits(value, width),
    ensures
        be_bytes(value, width).len() == width,
        number_of(be_bytes(value, width)) == value,
    decreases width,
{
    if width > 0 {
        bytes_spell_their_number(value / 256, (width - 1) as nat);
        let front = be_bytes(value / 256, (width - 1) as nat);
        let whole = be_bytes(value, width);
        assert(whole.drop_last() =~= front);
        assert(whole.last() == value % 256);
        assert(value == 256 * (value / 256) + value % 256);
    }
}

/// A text is encoded as the number of its bytes, in eight, and then those bytes. An
/// optional text is told by one byte before it.
pub proof fn texts_are_encoded_behind_their_length(text: Seq<char>, bytes: Seq<u8>)
    ensures
        enc_text(text) == enc_bytes(encode_utf8(text)),
        be_fits(bytes.len() as int, 8) ==> enc_bytes(bytes).len() == 8 + bytes.len() && number_of(
            enc_bytes(bytes).take(8),
        ) == bytes.len() && enc_bytes(bytes).skip(8) == bytes,
        enc_opt_text(Some(text)) == seq![1u8] + enc_text(text),
        enc_opt_text(None) == seq![0u8],
        enc_bool(true) == seq![1u8],
        enc_bool(false) == seq![0u8],
{
    if be_fits(bytes.len() as int, 8) {
        bytes_spell_their_number(bytes.len() as int, 8);
        let length = be_bytes(bytes.len() as int, 8);
        assert(enc_bytes(bytes).take(8) =~= length);
        assert(enc_bytes(bytes).skip(8) =~= bytes);
    }
    assert(enc_bool(true) =~= seq![1u8]);
    assert(enc_bool(false) =~= seq![0u8]);
}

/// Value of a hexadecimal digit.
pub open spec fn hex_value(c: char) -> int {
    if c as u32 <= '9' as u32 {
        c as int - '0' as int
    } else {
        c as int - 'a' as int + 10
    }
}

/// Bytes are written with two hexadecimal digits each, the higher one first, in
/// digits and small letters.
pub proof fn bytes_are_written_in_hexadecimal(bytes: Seq<u8>, i: int)
    requires
        0 <= i < bytes.len(),
    ensures
        hex_text(bytes).len() == 2 * bytes.len(),
        ({
            let high = hex_text(bytes)[2 * i];
            let low = hex_text(bytes)[2 * i + 1];
            &&& 16 * hex_value(high) + hex_value(low) == bytes[i]
            &&& '0' <= high <= '9' || 'a' <= high <= 'f'
            &&& '0' <= low <= '9' || 'a' <= low <= 'f'
        }),
{
    assert((2 * i) / 2 == i && (2 * i + 1) / 2 == i);
    assert((2 * i) % 2 == 0 && (2 * i + 1) % 2 == 1);
}

/// Number that some decimal digits spell.
pub open spec fn decimal_value(digits: Seq<char>) -> int
    decreases digits.len(),
{
    if digits.len() == 0 {
        0
    } else {
        10 * decimal_value(digits.drop_last()) + (digits.last() as int - '0' as int)
    }
}

/// A number is written in decimal digits that spell it, without a leading zero.
pub proof fn numbers_are_written_in_decimal(value: nat)
    ensures
        decimal_value(decimal_text(value)) == value,
        decimal_text(value).len() > 0,
        forall|i: int|
            0 <= i < decimal_text(value).len() ==> '0' <= #[trigger] decimal_text(value)[i] <= '9',
        decimal_text(value)[0] == '0' ==> value == 0,
    decreases value,
{
    let whole = decimal_text(value);
    let last = whole.last();
    if value >= 10 {
        numbers_are_written_in_decimal(value / 10);
        let front = decimal_text(value / 10);
        assert(whole.drop_last() =~= front);
        assert(last as int - '0' as int == value % 10);
        assert(whole[0] == front[0]);
        assert forall|i: int| 0 <= i < whole.len() implies '0' <= #[trigger] whole[i] <= '9' by {
            if i < front.len() {
                assert(whole[i] == front[i]);
            }
        }
    } else {
        assert(whole.drop_last() =~= Seq::<char>::empty());
        assert(decimal_value(whole.drop_last()) == 0);
        assert(last as int - '0' as int == value);
    }
}

} // verus!
