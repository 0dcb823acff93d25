//! The byte encoder: a pure, total mapping from arbitrary payload bytes to a
//! text-safe string that can be embedded in a JSON string value (one further
//! JSON-string-escaping pass is still expected from the serializer).
//!
//! Per byte, in order of precedence:
//! 1. bytes with a one-character JSON shorthand (`"`, `\`, LF, CR, TAB,
//!    backspace, form feed) pass through as that very character;
//! 2. `%`, the encoder's own meta-character, becomes the literal `%25`;
//! 3. any other control byte (0x00..=0x1F, 0x7F) or non-ASCII byte
//!    (0x80..=0xFF) becomes `%XX` with two uppercase hex digits;
//! 4. remaining printable ASCII passes through literally.
//!
//! Because `%` is always escaped, the original bytes can be reconstructed
//! from the encoded text: `decoded` below specifies such a reader (the log
//! is write-only, so none is built), and `lemma_decode_encode` proves the
//! round trip.

use vstd::prelude::*;

use crate::text::push_char;

verus! {

/// The uppercase hexadecimal digit for a value below 16.
pub open spec fn upper_hex_digit(d: u8) -> char
    recommends
        d < 16,
{
    if d < 10 {
        ((d + 0x30) as u8) as char
    } else {
        ((d + 0x37) as u8) as char
    }
}

/// True for the seven bytes that have a one-character JSON escape shorthand:
/// `"`, `\`, backspace, TAB, LF, form feed, CR.
pub open spec fn is_json_shorthand_byte(b: u8) -> bool {
    b == 0x22 || b == 0x5C || b == 0x08 || b == 0x09 || b == 0x0A || b == 0x0C || b == 0x0D
}

/// The characters the encoder emits for one payload byte.
pub open spec fn encoded_byte(b: u8) -> Seq<char> {
    if b == 0x25 {
        seq!['%', '2', '5']
    } else if is_json_shorthand_byte(b) || (0x20 <= b && b <= 0x7E) {
        seq![b as char]
    } else {
        seq!['%', upper_hex_digit(b / 16), upper_hex_digit(b % 16)]
    }
}

/// The encoder's output on a whole payload: each byte's pieces, concatenated
/// in order.
pub open spec fn encoded(data: Seq<u8>) -> Seq<char>
    decreases data.len(),
{
    if data.len() == 0 {
        Seq::empty()
    } else {
        encoded(data.drop_last()) + encoded_byte(data.last())
    }
}

/// The uppercase hexadecimal digit for a value below 16, executable form.
fn upper_hex_char(d: u8) -> (c: char)
    requires
        d < 16,
    ensures
        c == upper_hex_digit(d),
{
    if d < 10 {
        (d + 0x30) as char
    } else {
        (d + 0x37) as char
    }
}

/// The value of an uppercase hexadecimal digit character; meaningless for
/// other characters.
pub open spec fn upper_hex_value(c: char) -> u8 {
    if 0x30 <= c as int && c as int <= 0x39 {
        (c as int - 0x30) as u8
    } else {
        (c as int - 0x37) as u8
    }
}

/// The decoder that a log reader would need: `%` starts a three-character
/// group whose two hex digits give the byte; every other character stands
/// for its own code. It is specified, not implemented: the log is
/// write-only.
pub open spec fn decoded(text: Seq<char>) -> Seq<u8>
    decreases text.len(),
{
    if text.len() == 0 {
        Seq::empty()
    } else if text[0] == '%' {
        if text.len() >= 3 {
            seq![(upper_hex_value(text[1]) * 16 + upper_hex_value(text[2])) as u8] + decoded(
                text.skip(3),
            )
        } else {
            Seq::empty()
        }
    } else {
        seq![(text[0] as int % 256) as u8] + decoded(text.skip(1))
    }
}

/// A hex digit emitted by the encoder reads back as its own value.
proof fn lemma_upper_hex_roundtrip(d: u8)
    requires
        d < 16,
    ensures
        upper_hex_value(upper_hex_digit(d)) == d,
        upper_hex_digit(d) != '%',
{
}

/// The encoder's output can also be peeled from the front: the first byte's
/// piece, then the rest.
proof fn lemma_encoded_front(data: Seq<u8>)
    requires
        data.len() > 0,
    ensures
        encoded(data) == encoded_byte(data[0]) + encoded(data.skip(1)),
    decreases data.len(),
{
    if data.len() == 1 {
        assert(data.drop_last() =~= Seq::<u8>::empty());
        assert(data.skip(1) =~= Seq::<u8>::empty());
        assert(encoded(data) =~= encoded_byte(data[0]) + encoded(data.skip(1)));
    } else {
        lemma_encoded_front(data.drop_last());
        assert(data.skip(1).drop_last() =~= data.drop_last().skip(1));
        assert(data.skip(1).last() == data.last());
        assert(encoded(data.skip(1)) == encoded(data.drop_last().skip(1)) + encoded_byte(
            data.last(),
        ));
        assert(encoded(data) =~= encoded_byte(data[0]) + encoded(data.skip(1)));
    }
}

/// One byte's piece is self-delimiting: whatever follows it, the decoder
/// reads back exactly that byte and then continues with the remainder.
proof fn lemma_decode_piece_prefix(b: u8, rest: Seq<char>)
    ensures
        decoded(encoded_byte(b) + rest) == seq![b] + decoded(rest),
{
    let piece = encoded_byte(b);
    let whole = piece + rest;
    if b == 0x25 {
        assert(whole[0] == '%' && whole.len() >= 3);
        assert(upper_hex_value('2') == 2 && upper_hex_value('5') == 5);
        assert(whole.skip(3) =~= rest);
        assert(decoded(whole) =~= seq![b] + decoded(rest));
    } else if is_json_shorthand_byte(b) || (0x20 <= b && b <= 0x7E) {
        assert(whole[0] == (b as char) && whole[0] != '%');
        assert(whole.skip(1) =~= rest);
        assert((whole[0] as int % 256) as u8 == b);
        assert(decoded(whole) =~= seq![b] + decoded(rest));
    } else {
        lemma_upper_hex_roundtrip(b / 16);
        lemma_upper_hex_roundtrip(b % 16);
        assert(whole[0] == '%' && whole.len() >= 3);
        assert(whole[1] == upper_hex_digit(b / 16) && whole[2] == upper_hex_digit(b % 16));
        assert(b / 16 * 16 + b % 16 == b);
        assert(whole.skip(3) =~= rest);
        assert(decoded(whole) =~= seq![b] + decoded(rest));
    }
}

/// Law: the encoding is unambiguous. Decoding the encoder's output returns
/// the original payload, for every byte sequence; this is what makes the
/// escaping of `%` sound.
pub proof fn lemma_decode_encode(data: Seq<u8>)
    ensures
        decoded(encoded(data)) == data,
    decreases data.len(),
{
    if data.len() == 0 {
        assert(decoded(encoded(data)) =~= data);
    } else {
        lemma_encoded_front(data);
        lemma_decode_encode(data.skip(1));
        lemma_decode_piece_prefix(data[0], encoded(data.skip(1)));
        assert(decoded(encoded(data)) =~= data);
    }
}

/// Encode a payload so it can sit inside a JSON string value. Total over all
/// byte values; deterministic; the output consists of printable ASCII plus
/// the seven JSON-shorthand characters.
pub fn encode_data(data: &[u8]) -> (r: String)
    ensures
        r@ == encoded(data@),
{
    let mut result = String::new();
    let mut i: usize = 0;
    while i < data.len()
        invariant
            i <= data@.len(),
            result@ == encoded(data@.take(i as int)),
        decreases data@.len() - i,
    {
        let b = data[i];
        if b == 0x25 {
            push_char(&mut result, '%');
            push_char(&mut result, '2');
            push_char(&mut result, '5');
        } else if b == 0x22 || b == 0x5C || b == 0x08 || b == 0x09 || b == 0x0A || b == 0x0C
            || b == 0x0D || (0x20 <= b && b <= 0x7E) {
            push_char(&mut result, b as char);
        } else {
            push_char(&mut result, '%');
            push_char(&mut result, upper_hex_char(b / 16));
            push_char(&mut result, upper_hex_char(b % 16));
        }
        proof {
            let pre = data@.take(i as int);
            let post = data@.take(i + 1 as int);
            assert(post.drop_last() =~= pre);
            assert(post.last() == data@[i as int]);
            assert(result@ =~= encoded(pre) + encoded_byte(data@[i as int]));
        }
        i += 1;
    }
    proof {
        assert(data@.take(data@.len() as int) =~= data@);
    }
    result
}

} // verus!
