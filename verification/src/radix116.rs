//! The radix-116 text scheme: six bytes become seven digits, which are
//! written as printable characters of one to three UTF-8 bytes, between a
//! start and an end mark.
//!
//! Encoding and decoding are done by the `base116` crate, whose encoder and
//! decoder hand their output out item by item.

use crate::buffer::collect_slice_try;
use crate::buffer::gather;
use vstd::prelude::*;
use vstd::std_specs::iter::IteratorSpec;

verus! {

/// The error type of the items that `base116::decode_str` yields. Nothing
/// is said of its values: a decoding that fails is reported as a
/// `CodecError`, whatever it holds.
#[verifier::external_type_specification]
#[verifier::external_body]
pub struct ExRadix116Error(base116::decode::DecodeError);

/// The UTF-8 bytes that `base116::encode_to_bytes` yields for `bytes`.
pub uninterp spec fn radix116_utf8(bytes: Seq<u8>) -> Seq<u8>;

/// The items that `base116::decode_str` yields for `text`, in order: a
/// decoded byte, or `None` where the decoder reports an error.
pub uninterp spec fn radix116_items(text: Seq<char>) -> Seq<Option<u8>>;

/// What fallible items stand for in contracts: the byte of a success, and
/// `None` for a failure, whatever the error says.
pub open spec fn outcomes<E>(items: Seq<Result<u8, E>>) -> Seq<Option<u8>> {
    Seq::new(
        items.len(),
        |i: int|
            match items[i] {
                Ok(byte) => Some(byte),
                Err(_) => None,
            },
    )
}

/// The bytes of `items` where every one of them is a byte, and `None`
/// where any is a failure.
pub open spec fn all_bytes(items: Seq<Option<u8>>) -> Option<Seq<u8>> {
    if forall|i: int| 0 <= i < items.len() ==> (#[trigger] items[i]) is Some {
        Some(Seq::new(items.len(), |i: int| items[i]->0))
    } else {
        None
    }
}

/// What decoding `text` gives: the bytes, or `None` where the decoder
/// reports an error anywhere in the text.
pub open spec fn radix116_decoded(text: Seq<char>) -> Option<Seq<u8>> {
    all_bytes(radix116_items(text))
}

/// Calls `base116::encode_to_bytes` and gathers what its iterator yields.
/// The encoder writes each character out in UTF-8, so the bytes are valid
/// UTF-8; beyond that the contract only names them.
#[verifier::external_body]
pub(crate) fn encode_radix116(bytes: &[u8]) -> (utf8: Vec<u8>)
    ensures
        utf8@ == radix116_utf8(bytes@),
        vstd::utf8::valid_utf8(utf8@),
{
    base116::encode_to_bytes(bytes.iter().copied()).collect()
}

/// Calls `base116::decode_str` and gathers what its iterator yields, errors
/// included, through the iterator's `fold`: its size hint, which `collect`
/// would ask for, underflows on short texts. The items depend on the text
/// alone; the contract names them.
#[verifier::external_body]
pub(crate) fn decode_radix116(text: &str) -> (items: Vec<Result<u8, base116::decode::DecodeError>>)
    ensures
        outcomes(items@) == radix116_items(text@),
{
    base116::decode_str(text).fold(Vec::new(), gather)
}

/// Collects the bytes of `items`, or gives `None` where any of them is a
/// failure.
pub fn bytes_of_items<E>(items: Vec<Result<u8, E>>) -> (result: Option<Vec<u8>>)
    ensures
        match result {
            Some(bytes) => all_bytes(outcomes(items@)) == Some(bytes@),
            None => all_bytes(outcomes(items@)) is None,
        },
{
    let ghost expected = outcomes(items@);
    let mut bytes: Vec<u8> = vec![0u8; items.len()];
    match collect_slice_try(bytes.as_mut_slice(), items.into_iter()) {
        Ok(count) => {
            assert forall|i: int| 0 <= i < expected.len() implies (#[trigger] expected[i]) is Some by {
                assert(items@[i] is Ok);
            }
            assert(bytes@ =~= all_bytes(expected)->0);
            Some(bytes)
        },
        Err(_) => {
            let ghost k = choose|k: int| 0 <= k < items@.len() && (#[trigger] items@[k]) is Err;
            assert(expected[k] is None);
            None
        },
    }
}

/// Decodes radix-116 text. The first error that the decoder reports makes
/// the whole text undecodable.
pub fn decode_text(text: &str) -> (result: Option<Vec<u8>>)
    ensures
        match result {
            Some(bytes) => radix116_decoded(text@) == Some(bytes@),
            None => radix116_decoded(text@) is None,
        },
{
    bytes_of_items(decode_radix116(text))
}

} // verus!
