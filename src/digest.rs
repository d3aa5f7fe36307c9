//! The key under which the client holds an import: the hex text of the
//! SHA3-256 digest of the import's name.
use crate::text::digit_char;
use sha3::Digest;
use vstd::prelude::*;

verus! {

/// The SHA3-256 digest of the UTF-8 bytes of a text.
pub uninterp spec fn sha3_256_of(s: Seq<char>) -> Seq<u8>;

/// Relies on `sha3::Sha3_256::digest`: the digest of the name's bytes, which
/// depends on the name alone.
#[verifier::external_body]
fn name_digest(name: &str) -> (r: Vec<u8>)
    ensures
        r@ == sha3_256_of(name@),
{
    sha3::Sha3_256::digest(name.as_bytes()).to_vec()
}

pub open spec fn hex_digit(d: nat) -> char {
    if d < 10 {
        digit_char(d)
    } else {
        ((d + 87) as u8) as char
    }
}

/// Two lower-case hex digits per byte, the high one first.
pub open spec fn hex_text(b: Seq<u8>) -> Seq<char>
    decreases b.len(),
{
    if b.len() == 0 {
        Seq::empty()
    } else {
        hex_text(b.drop_last()) + seq![hex_digit(b.last() as nat / 16), hex_digit(b.last() as nat % 16)]
    }
}

/// Relies on `hex::encode`: two lower-case hex digits per byte, the high one
/// first.
#[verifier::external_body]
fn hex_encode(b: &Vec<u8>) -> (r: String)
    ensures
        r@ == hex_text(b@),
{
    hex::encode(b)
}

/// The import key of `name`.
pub open spec fn import_key(name: Seq<char>) -> Seq<char> {
    hex_text(sha3_256_of(name))
}

pub fn import_key_of(name: &str) -> (r: String)
    ensures
        r@ == import_key(name@),
{
    let d = name_digest(name);
    hex_encode(&d)
}

} // verus!
