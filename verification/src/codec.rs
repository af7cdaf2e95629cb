//! Text codecs: reversible mappings between byte sequences and text that a
//! chat field accepts.

use crate::base64::base64_bytes;
use crate::base64::base64_symbols;
use crate::base64::decode_symbols;
use crate::base64::encode_symbols;
use crate::base64::well_formed;
use crate::radix116::decode_text;
use crate::radix116::encode_radix116;
use crate::radix116::radix116_decoded;
use crate::radix116::radix116_utf8;
use crate::radix85::check_groups;
use crate::radix85::decode_radix85;
use crate::radix85::encode_radix85;
use crate::radix85::radix85_accepted;
use crate::radix85::radix85_decoded;
use crate::radix85::radix85_text;
use crate::text::ascii_chars;
use crate::text::ascii_text;
use crate::text::text_of_utf8;
use vstd::prelude::*;
use vstd::string::StringSliceAdditionalSpecFns;
use vstd::utf8::decode_utf8;
use vstd::utf8::encode_utf8;

verus! {

/// The text scheme that an adapter writes and reads.
#[derive(Clone, Copy, Debug, PartialEq, Eq, Structural)]
pub enum TextCodec {
    /// Seven digits of base 116 for six bytes, written as characters of up
    /// to three UTF-8 bytes between a start and an end mark.
    Radix116,
    /// Five printable ASCII symbols for four bytes.
    Radix85,
    /// Four symbols of `A-Z a-z 0-9 + /` for three bytes, padded with `=`.
    Base64,
}

/// Text that is not an encoding in the scheme it was read with.
#[derive(Clone, Copy, Debug, PartialEq, Eq, Structural)]
pub struct CodecError {
    /// The scheme that rejected the text.
    pub codec: TextCodec,
}

/// The text that `codec` gives for `bytes`.
pub open spec fn encoded(codec: TextCodec, bytes: Seq<u8>) -> Seq<char> {
    match codec {
        TextCodec::Radix116 => decode_utf8(radix116_utf8(bytes)),
        TextCodec::Radix85 => radix85_text(bytes),
        TextCodec::Base64 => ascii_chars(base64_symbols(bytes)),
    }
}

/// The bytes that `text` stands for in `codec`, or `None` where it is not
/// an encoding.
pub open spec fn decoded(codec: TextCodec, text: Seq<char>) -> Option<Seq<u8>> {
    match codec {
        TextCodec::Radix116 => radix116_decoded(text),
        TextCodec::Radix85 => radix85_decoded(text),
        TextCodec::Base64 => base64_bytes(encode_utf8(text)),
    }
}

/// Encodes `bytes` as text. Every byte sequence has an encoding; its length
/// is not limited here.
pub fn encode(codec: TextCodec, bytes: &[u8]) -> (text: String)
    ensures
        text@ == encoded(codec, bytes@),
{
    match codec {
        TextCodec::Radix116 => {
            let utf8 = encode_radix116(bytes);
            text_of_utf8(utf8).unwrap()
        },
        TextCodec::Radix85 => encode_radix85(bytes),
        TextCodec::Base64 => {
            proof {
                crate::base64::lemma_symbols_are_ascii(bytes@);
            }
            ascii_text(encode_symbols(bytes))
        },
    }
}

/// Whether `text` is an encoding that `codec` accepts. For radix-85 and
/// base-64 text this is a matter of its symbols, its length and the range
/// of its groups; for radix-116 text it is whether the decoder reports no
/// error.
pub open spec fn accepted(codec: TextCodec, text: Seq<char>) -> bool {
    match codec {
        TextCodec::Radix116 => radix116_decoded(text) is Some,
        TextCodec::Radix85 => radix85_accepted(text),
        TextCodec::Base64 => well_formed(encode_utf8(text)),
    }
}

/// Decodes `text`, or fails where it holds a character outside the scheme's
/// alphabet, has a length or a padding that no encoding has, or stands for
/// a value that no encoding gives.
pub fn decode(codec: TextCodec, text: &str) -> (result: Result<Vec<u8>, CodecError>)
    ensures
        result is Ok <==> accepted(codec, text@),
        match result {
            Ok(bytes) => decoded(codec, text@) == Some(bytes@),
            Err(error) => decoded(codec, text@) is None && error.codec == codec,
        },
{
    match codec {
        TextCodec::Radix116 => match decode_text(text) {
            Some(bytes) => Ok(bytes),
            None => Err(CodecError { codec }),
        },
        TextCodec::Radix85 => {
            if !check_groups(text.as_bytes()) {
                return Err(CodecError { codec });
            }
            match decode_radix85(text) {
                Ok(bytes) => Ok(bytes),
                Err(_) => Err(CodecError { codec }),
            }
        },
        TextCodec::Base64 => match decode_symbols(text.as_bytes()) {
            Some(bytes) => Ok(bytes),
            None => Err(CodecError { codec }),
        },
    }
}

/// Base-64 text decodes to the bytes that it was encoded from.
pub proof fn lemma_base64_round_trip(bytes: Seq<u8>)
    ensures
        decoded(TextCodec::Base64, encoded(TextCodec::Base64, bytes)) == Some(bytes),
{
    let symbols = base64_symbols(bytes);
    crate::base64::lemma_symbols_are_ascii(bytes);
    crate::text::lemma_ascii_is_utf8(symbols);
    vstd::utf8::decode_utf8_encode_utf8(symbols);
    crate::base64::lemma_symbols_decode(bytes);
}

} // verus!
