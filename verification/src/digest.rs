//! The content digest that identifies a prompt: SHA-256 of the text's UTF-8
//! bytes, written as lowercase hexadecimal.

use sha2::Digest;
use sha2::Sha256;
use vstd::prelude::*;
use vstd::string::*;
use vstd::utf8::*;

verus! {

/// The SHA-256 digest of a byte sequence.
pub uninterp spec fn sha256(data: Seq<u8>) -> Seq<u8>;

/// The lowercase hexadecimal digit for a value below 16.
pub open spec fn hex_digit(n: int) -> char {
    if n == 0 {
        '0'
    } else if n == 1 {
        '1'
    } else if n == 2 {
        '2'
    } else if n == 3 {
        '3'
    } else if n == 4 {
        '4'
    } else if n == 5 {
        '5'
    } else if n == 6 {
        '6'
    } else if n == 7 {
        '7'
    } else if n == 8 {
        '8'
    } else if n == 9 {
        '9'
    } else if n == 10 {
        'a'
    } else if n == 11 {
        'b'
    } else if n == 12 {
        'c'
    } else if n == 13 {
        'd'
    } else if n == 14 {
        'e'
    } else {
        'f'
    }
}

/// Two hexadecimal digits for each byte, the high half first.
pub open spec fn hex_text(bytes: Seq<u8>) -> Seq<char> {
    Seq::new(
        2 * bytes.len(),
        |i: int|
            if i % 2 == 0 {
                hex_digit(bytes[i / 2] as int / 16)
            } else {
                hex_digit(bytes[i / 2] as int % 16)
            },
    )
}

/// The identifier of a prompt with the text `content`.
pub open spec fn content_digest(content: Seq<char>) -> Seq<char> {
    hex_text(sha256(encode_utf8(content)))
}

/// Hexadecimal text consists of ASCII characters, so each of them takes one
/// byte and every position in the text is the end of a character.
pub proof fn lemma_hex_text_boundaries(bytes: Seq<u8>, at: int)
    requires
        0 <= at <= 2 * bytes.len(),
    ensures
        is_ascii_chars(hex_text(bytes)),
        encode_utf8(hex_text(bytes)).len() == 2 * bytes.len(),
        is_char_boundary(encode_utf8(hex_text(bytes)), at),
{
    let text = hex_text(bytes);
    let encoded = encode_utf8(text);
    assert(is_ascii_chars(text));
    is_ascii_chars_encode_utf8(text);
    encode_utf8_valid_utf8(text);
    if at < encoded.len() {
        let b = encoded[at];
        assert(b == text[at] as u8);
        assert(b < 128);
        assert(!is_continuation_byte(b)) by (bit_vector)
            requires
                b < 128,
        ;
        is_char_boundary_iff_not_is_continuation_byte(encoded, at);
    } else {
        is_char_boundary_start_end_of_seq(encoded);
    }
}

/// Calls `sha2::Sha256::digest` on `data` and copies the output into a
/// vector. Claimed: the output is the SHA-256 digest of the input, which is
/// 32 bytes long.
#[verifier::external_body]
fn sha256_of(data: &[u8]) -> (out: Vec<u8>)
    ensures
        out@ == sha256(data@),
        out@.len() == 32,
{
    Sha256::digest(data).to_vec()
}

/// The digit for `n` as a string of one character.
fn hex_digit_str(n: u8) -> (s: &'static str)
    requires
        n < 16,
    ensures
        s@ == seq![hex_digit(n as int)],
{
    let s = match n {
        0 => "0",
        1 => "1",
        2 => "2",
        3 => "3",
        4 => "4",
        5 => "5",
        6 => "6",
        7 => "7",
        8 => "8",
        9 => "9",
        10 => "a",
        11 => "b",
        12 => "c",
        13 => "d",
        14 => "e",
        _ => "f",
    };
    proof {
        reveal_strlit("0");
        reveal_strlit("1");
        reveal_strlit("2");
        reveal_strlit("3");
        reveal_strlit("4");
        reveal_strlit("5");
        reveal_strlit("6");
        reveal_strlit("7");
        reveal_strlit("8");
        reveal_strlit("9");
        reveal_strlit("a");
        reveal_strlit("b");
        reveal_strlit("c");
        reveal_strlit("d");
        reveal_strlit("e");
        reveal_strlit("f");
        assert(s@ =~= seq![hex_digit(n as int)]);
    }
    s
}

/// Writes bytes as lowercase hexadecimal.
pub fn to_hex(bytes: &[u8]) -> (text: String)
    ensures
        text@ == hex_text(bytes@),
{
    let mut text = String::new();
    let mut i: usize = 0;
    while i < bytes.len()
        invariant
            i <= bytes.len(),
            text@ == hex_text(bytes@.subrange(0, i as int)),
        decreases bytes.len() - i,
    {
        let b = bytes[i];
        let ghost before = text@;
        text.append(hex_digit_str(b / 16));
        text.append(hex_digit_str(b % 16));
        proof {
            let prefix = bytes@.subrange(0, i as int);
            let longer = bytes@.subrange(0, i as int + 1);
            assert(text@ == before + seq![hex_digit(b as int / 16)] + seq![
                hex_digit(b as int % 16),
            ]);
            assert forall|k: int| 0 <= k < 2 * longer.len() implies text@[k] == hex_text(
                longer,
            )[k] by {
                if k < 2 * prefix.len() {
                    assert(text@[k] == hex_text(prefix)[k]);
                    assert(prefix[k / 2] == longer[k / 2]);
                } else {
                    assert(k / 2 == i as int);
                    assert(longer[k / 2] == b);
                }
            }
            assert(text@ =~= hex_text(longer));
        }
        i += 1;
    }
    assert(bytes@.subrange(0, i as int) =~= bytes@);
    text
}

/// Computes the identifier of a prompt from its text.
pub fn digest_of(content: &str) -> (hash: String)
    ensures
        hash@ == content_digest(content@),
        hash@.len() == 64,
        is_char_boundary(encode_utf8(hash@), 12),
{
    let raw = sha256_of(content.as_bytes());
    proof {
        lemma_hex_text_boundaries(raw@, 12);
    }
    to_hex(raw.as_slice())
}

} // verus!
