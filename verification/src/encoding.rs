//! Base64, with the standard alphabet and padding.

use vstd::prelude::*;

use crate::outside::{base64_error, decode_base64};

verus! {

/// The symbol that stands for six bits, given as a number less than 64.
pub open spec fn base64_symbol(bits: int) -> char {
    if bits < 26 {
        ('A' as int + bits) as char
    } else if bits < 52 {
        ('a' as int + bits - 26) as char
    } else if bits < 62 {
        ('0' as int + bits - 52) as char
    } else if bits == 62 {
        '+'
    } else {
        '/'
    }
}

/// The base64 form of a byte sequence: four symbols for three bytes, and where one or two bytes
/// are left over, two or three symbols that are padded to four.
pub open spec fn base64_text(bytes: Seq<u8>) -> Seq<char>
    decreases bytes.len(),
{
    let a = bytes[0] as int;
    let b = bytes[1] as int;
    let c = bytes[2] as int;
    if bytes.len() == 0 {
        Seq::empty()
    } else if bytes.len() == 1 {
        seq![base64_symbol(a / 4), base64_symbol(a % 4 * 16), '=', '=']
    } else if bytes.len() == 2 {
        seq![
            base64_symbol(a / 4),
            base64_symbol(a % 4 * 16 + b / 16),
            base64_symbol(b % 16 * 4),
            '=',
        ]
    } else {
        seq![
            base64_symbol(a / 4),
            base64_symbol(a % 4 * 16 + b / 16),
            base64_symbol(b % 16 * 4 + c / 64),
            base64_symbol(c % 64),
        ] + base64_text(bytes.skip(3))
    }
}

/// The text is the base64 form of some byte sequence.
pub open spec fn is_base64(text: Seq<char>) -> bool {
    exists|bytes: Seq<u8>| #[trigger] base64_text(bytes) == text
}

/// The bytes whose base64 form the text is, or what is said of a text that is none.
pub open spec fn base64_decoded(text: Seq<char>) -> Result<Seq<u8>, Seq<char>> {
    if is_base64(text) {
        Ok(choose|bytes: Seq<u8>| #[trigger] base64_text(bytes) == text)
    } else {
        Err(base64_error(text))
    }
}

/// Decode base64.
pub fn base64_to_bytes(text: &str) -> (decoded: Result<Vec<u8>, String>)
    ensures
        match decoded {
            Ok(bytes) => base64_decoded(text@) == Ok::<Seq<u8>, Seq<char>>(bytes@),
            Err(reason) => base64_decoded(text@) == Err::<Seq<u8>, Seq<char>>(reason@),
        },
{
    let decoded = decode_base64(text);
    proof {
        if decoded is Ok {
            lemma_base64_decodes(decoded->Ok_0@);
        }
    }
    decoded
}

/// Decoding the base64 form of a byte sequence gives the bytes back.
pub proof fn lemma_base64_decodes(bytes: Seq<u8>)
    ensures
        base64_decoded(base64_text(bytes)) == Ok::<Seq<u8>, Seq<char>>(bytes),
{
    let text = base64_text(bytes);
    let found = choose|found: Seq<u8>| #[trigger] base64_text(found) == text;
    lemma_base64_text_is_unique(bytes, found);
}

/// No two byte sequences have the same base64 form.
pub proof fn lemma_base64_text_is_unique(first: Seq<u8>, second: Seq<u8>)
    requires
        base64_text(first) == base64_text(second),
    ensures
        first == second,
    decreases first.len(),
{
    let text = base64_text(first);
    if first.len() == 0 || second.len() == 0 {
        assert(first =~= second);
    } else {
        lemma_first_symbols(first);
        lemma_first_symbols(second);
        if first.len() >= 3 {
            assert(base64_text(first.skip(3)) =~= text.skip(4));
            assert(base64_text(second.skip(3)) =~= text.skip(4));
            lemma_base64_text_is_unique(first.skip(3), second.skip(3));
            assert(first =~= first.take(3) + first.skip(3));
            assert(second =~= second.take(3) + second.skip(3));
            assert(first.take(3) =~= second.take(3));
        } else {
            assert(first =~= second);
        }
    }
}

/// The number that a symbol stands for.
spec fn base64_bits(symbol: char) -> int {
    if 'A' <= symbol <= 'Z' {
        symbol as int - 'A' as int
    } else if 'a' <= symbol <= 'z' {
        symbol as int - 'a' as int + 26
    } else if '0' <= symbol <= '9' {
        symbol as int - '0' as int + 52
    } else if symbol == '+' {
        62
    } else {
        63
    }
}

/// The first four symbols tell the first three bytes, or how many there are and which.
proof fn lemma_first_symbols(bytes: Seq<u8>)
    requires
        bytes.len() > 0,
    ensures
        ({
            let text = base64_text(bytes);
            &&& text.len() >= 4
            &&& bytes.len() == 1 <==> text[2] == '='
            &&& bytes.len() <= 2 <==> text[3] == '='
            &&& bytes[0] == base64_bits(text[0]) * 4 + base64_bits(text[1]) / 16
            &&& bytes.len() >= 2 ==> bytes[1] == base64_bits(text[1]) % 16 * 16 + base64_bits(
                text[2],
            ) / 4
            &&& bytes.len() >= 3 ==> bytes[2] == base64_bits(text[2]) % 4 * 64 + base64_bits(
                text[3],
            )
        }),
{
    assert forall|bits: int| 0 <= bits < 64 implies base64_bits(#[trigger] base64_symbol(bits))
        == bits && base64_symbol(bits) != '=' by {}
}

} // verus!
