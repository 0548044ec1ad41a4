//! Digests and randomness: the two outside calls the account and file logic
//! leans on, and the verified code around them.

use vstd::prelude::*;

use sha2::Digest;
use vstd::string::StrSliceExecFns;

use crate::hex::{hex_of, is_hex_digit, lemma_hex_of_reads_back, to_hex};
use crate::objects::{AssociatedImage, ImageView};

verus! {

/// What the SHA-256 digest of a byte string is; a function of the bytes
/// alone.
pub uninterp spec fn sha256_of(bytes: Seq<u8>) -> Seq<u8>;

/// Relies on sha2::Sha256 (the Digest::digest shorthand): the digest depends
/// on the bytes alone and is 32 bytes long.
#[verifier::external_body]
pub fn sha256(bytes: &Vec<u8>) -> (r: Vec<u8>)
    ensures
        r@ == sha256_of(bytes@),
        r@.len() == 32,
{
    let digest = sha2::Sha256::digest(bytes.as_slice());
    digest.as_slice().to_vec()
}

/// Relies on rand::random: 32 bytes drawn from the thread generator. Nothing
/// is promised of their values.
#[verifier::external_body]
pub fn random_bytes32() -> (r: Vec<u8>)
    ensures
        r@.len() == 32,
{
    let array: [u8; 32] = rand::random();
    array.to_vec()
}

/// Relies on rand::random: three bytes drawn from the thread generator.
#[verifier::external_body]
pub fn random_rgb() -> (r: (u8, u8, u8)) {
    let [a, b, c]: [u8; 3] = rand::random();
    (a, b, c)
}

/// The digest a password is stored as: the hexadecimal spelling of the
/// SHA-256 digest of its encoded characters.
pub open spec fn password_digest(password: Seq<char>) -> Seq<char> {
    hex_of(sha256_of(vstd::utf8::encode_utf8(password)))
}

/// Hashes a password for storage.
pub fn crypto_hash(password: String) -> (r: String)
    ensures
        r@ == password_digest(password@),
{
    let bytes = password.as_str().as_bytes_vec();
    let digest = sha256(&bytes);
    to_hex(&digest)
}

/// A fresh token: the hexadecimal spelling of 32 random bytes — 64 lowercase
/// hexadecimal digit characters.
pub fn random_token() -> (r: String)
    ensures
        r@.len() == 64,
        forall|i: int| 0 <= i < 64 ==> is_hex_digit(#[trigger] r@[i]),
{
    let bytes = random_bytes32();
    let r = to_hex(&bytes);
    proof {
        lemma_hex_of_reads_back(bytes@);
    }
    r
}

/// One "#rrggbb" colour from three channel bytes.
pub fn color_hex(r: u8, g: u8, b: u8) -> (s: String)
    ensures
        s@ == seq!['#'] + hex_of(seq![r, g, b]),
{
    let mut s = String::new();
    proof {
        reveal_strlit("#");
        assert("#"@ =~= seq!['#']);
    }
    s.append("#");
    crate::hex::push_byte_hex(&mut s, r);
    crate::hex::push_byte_hex(&mut s, g);
    crate::hex::push_byte_hex(&mut s, b);
    proof {
        assert(hex_of(seq![r]) + hex_of(seq![g]) + hex_of(seq![b]) =~= hex_of(seq![r, g, b]));
        assert(s@ =~= seq!['#'] + hex_of(seq![r, g, b]));
    }
    s
}

/// The shape of a generated colour: a hash sign and six hexadecimal digits.
pub open spec fn is_color_code(s: Seq<char>) -> bool {
    &&& s.len() == 7
    &&& s[0] == '#'
    &&& forall|i: int| 1 <= i < 7 ==> is_hex_digit(#[trigger] s[i])
}

impl AssociatedImage {
    /// A generated image: a gradient between two random colours, each a hash
    /// sign followed by six hexadecimal digits.
    pub fn random_gradient() -> (r: Self)
        ensures
            r is Gradient,
            r@ matches ImageView::Gradient(c1, c2) ==> is_color_code(c1) && is_color_code(c2),
    {
        let (a, b, c) = random_rgb();
        let (d, e, f) = random_rgb();
        let c1 = color_hex(a, b, c);
        let c2 = color_hex(d, e, f);
        proof {
            lemma_color_code(c1@, seq![a, b, c]);
            lemma_color_code(c2@, seq![d, e, f]);
        }
        AssociatedImage::Gradient(c1, c2)
    }
}

/// A hash sign followed by the hexadecimal spelling of three bytes is a
/// colour code.
pub proof fn lemma_color_code(s: Seq<char>, bytes: Seq<u8>)
    requires
        bytes.len() == 3,
        s == seq!['#'] + hex_of(bytes),
    ensures
        is_color_code(s),
{
    lemma_hex_of_reads_back(bytes);
    assert forall|i: int| 1 <= i < 7 implies is_hex_digit(#[trigger] s[i]) by {
        assert(s[i] == hex_of(bytes)[i - 1]);
    }
}

} // verus!
