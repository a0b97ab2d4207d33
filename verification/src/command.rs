//! What the commands decide apart from the repository: how an assignment of
//! a variable is read, when a search names one prompt, and how an
//! identifier is shown.

use crate::prompt::Prompt;
use vstd::prelude::*;
use vstd::string::*;
use vstd::utf8::*;

verus! {

/// `at` is the position of the first `=` in the text.
pub open spec fn is_first_equals(text: Seq<char>, at: int) -> bool {
    &&& 0 <= at < text.len()
    &&& text[at] == '='
    &&& forall|j: int| 0 <= j < at ==> text[j] != '='
}

/// The message for a text without `=`.
pub open spec fn no_equals_message(text: Seq<char>) -> Seq<char> {
    "invalid KEY=VALUE: no '=' found in `"@ + text + "`"@
}

/// Reads `KEY=VALUE`: the key is what stands before the first `=`, the
/// value what stands after it. A text without `=` is an error.
pub fn parse_key_val(s: &str) -> (outcome: Result<(String, String), String>)
    ensures
        match outcome {
            Ok((key, value)) => exists|at: int|
                is_first_equals(s@, at) && key@ == s@.subrange(0, at) && value@ == s@.subrange(
                    at + 1,
                    s@.len() as int,
                ),
            Err(message) => (forall|j: int| 0 <= j < s@.len() ==> s@[j] != '=') && message@
                == no_equals_message(s@),
        },
{
    let len = s.unicode_len();
    let mut i: usize = 0;
    while i < len
        invariant
            len == s@.len(),
            i <= len,
            forall|j: int| 0 <= j < i ==> s@[j] != '=',
        decreases len - i,
    {
        if s.get_char(i) == '=' {
            let key = String::from_str(s.substring_char(0, i));
            let value = String::from_str(s.substring_char(i + 1, len));
            assert(is_first_equals(s@, i as int));
            return Ok((key, value));
        }
        i += 1;
    }
    Err(String::from_str("invalid KEY=VALUE: no '=' found in `").concat(s).concat("`"))
}

/// The one prompt that a search has found, if it has found exactly one.
pub fn only_match(found: &[Prompt]) -> (only: Option<&Prompt>)
    ensures
        found.len() == 1 ==> only == Some(&found[0]),
        found.len() != 1 ==> only is None,
{
    if found.len() == 1 {
        Some(&found[0])
    } else {
        None
    }
}

/// The short form of an identifier: the characters that its first twelve
/// bytes hold.
pub open spec fn short_of(hash: Seq<char>) -> Seq<char> {
    decode_utf8(encode_utf8(hash).subrange(0, 12))
}

/// Gives the short form of an identifier. Its twelfth byte must be the last
/// of a character.
pub fn short_hash(hash: &str) -> (short: &str)
    requires
        is_char_boundary(encode_utf8(hash@), 12),
    ensures
        short@ == short_of(hash@),
        short@.is_prefix_of(hash@),
{
    let (short, rest) = hash.split_at(12);
    proof {
        let bytes = hash.spec_bytes();
        encode_utf8_valid_utf8(hash@);
        decode_utf8_split(bytes, 12);
        encode_utf8_decode_utf8(hash@);
        encode_utf8_decode_utf8(short@);
        encode_utf8_decode_utf8(rest@);
        assert(hash@ =~= short@ + rest@);
        assert(short@ =~= hash@.subrange(0, short@.len() as int));
    }
    short
}

/// The line that stands for a prompt in a list: the short form of its
/// identifier, a dash, and its content.
pub fn list_line(prompt: &Prompt) -> (line: String)
    requires
        is_char_boundary(encode_utf8(prompt@.hash), 12),
    ensures
        line@ == short_of(prompt@.hash) + " - "@ + prompt@.content,
{
    let short = short_hash(prompt.hash.as_str());
    String::from_str(short).concat(" - ").concat(prompt.content.as_str())
}

} // verus!
