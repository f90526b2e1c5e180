//! SHA-1 message digests, computed and rendered as lowercase hexadecimal.
//!
//! The digest of a byte sequence is defined by the spec functions in
//! [`model`]; the executable functions are proved to return exactly the
//! modelled value.

pub mod compute;
pub mod encode;
pub mod model;

pub use compute::digest;
pub use encode::bytes_to_hex;

use vstd::prelude::*;

verus! {

use crate::compute::fits_bit_length;
use crate::encode::{hex_of, is_hex_char, lemma_hex_of_well_formed};
use crate::model::digest_bytes;

/// The digest of a message rendered as lowercase hexadecimal: forty
/// characters, two per digest byte.
pub open spec fn sha1_hex(msg: Seq<u8>) -> Seq<char> {
    hex_of(digest_bytes(msg))
}

/// Computes the SHA-1 digest of a message and renders it as a
/// 40-character lowercase hexadecimal string.
pub fn hex_digest(message: &[u8]) -> (r: String)
    requires
        fits_bit_length(message@.len()),
    ensures
        r@ == sha1_hex(message@),
{
    let d = digest(message);
    bytes_to_hex(d.as_slice())
}

/// The output is always exactly forty characters, each a lowercase
/// hexadecimal digit, whatever the message.
pub proof fn lemma_output_well_formed(msg: Seq<u8>)
    ensures
        sha1_hex(msg).len() == 40,
        forall|i: int| 0 <= i < 40 ==> is_hex_char(#[trigger] sha1_hex(msg)[i]),
{
    lemma_hex_of_well_formed(digest_bytes(msg));
}

/// Hashing is deterministic: equal byte sequences have equal digests, so
/// two calls on the same input render the same string.
pub proof fn lemma_deterministic(m1: Seq<u8>, m2: Seq<u8>)
    requires
        m1 == m2,
    ensures
        sha1_hex(m1) == sha1_hex(m2),
{
}

} // verus!
