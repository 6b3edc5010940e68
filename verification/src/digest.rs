//! Digests of texts.
use sha2::Digest;
use vstd::prelude::*;

verus! {

/// The SHA-256 digest of `bytes`, as `sha2` computes it.
pub uninterp spec fn sha256_digest(bytes: Seq<u8>) -> Seq<u8>;

/// The digit that stands for `n`, which is below 16.
pub open spec fn hex_digit(n: int) -> char {
    if n < 10 {
        ('0' as u8 + n) as u8 as char
    } else {
        ('a' as u8 + n - 10) as u8 as char
    }
}

/// Two hexadecimal digits for each byte, the higher half first.
pub open spec fn hex_encoded(bytes: Seq<u8>) -> Seq<char> {
    Seq::new(
        2 * bytes.len(),
        |i: int|
            hex_digit(
                if i % 2 == 0 {
                    bytes[i / 2] as int / 16
                } else {
                    bytes[i / 2] as int % 16
                },
            ),
    )
}

/// `sha2::Sha256::digest`: the 32 bytes of the digest, which depends on the input alone.
#[verifier::external_body]
fn sha256(bytes: &[u8]) -> (digest: Vec<u8>)
    ensures
        digest@ == sha256_digest(bytes@),
        digest@.len() == 32,
{
    sha2::Sha256::digest(bytes).to_vec()
}

/// `hex::encode`: two lower case hexadecimal digits for each byte, the higher half first.
#[verifier::external_body]
fn hex_encode(bytes: &Vec<u8>) -> (text: String)
    ensures
        text@ == hex_encoded(bytes@),
{
    hex::encode(bytes)
}

/// The SHA-256 digest of a text in hexadecimal.
pub open spec fn text_digest(text: Seq<char>) -> Seq<char> {
    hex_encoded(sha256_digest(vstd::utf8::encode_utf8(text)))
}

/// The SHA-256 digest of a text in hexadecimal.
pub fn digest_text(text: &str) -> (result: String)
    ensures
        result@ == text_digest(text@),
        result@.len() == 64,
{
    let digest = sha256(text.as_bytes());
    hex_encode(&digest)
}

proof fn lemma_digits_differ(one: int, other: int)
    requires
        0 <= one < 16,
        0 <= other < 16,
        hex_digit(one) == hex_digit(other),
    ensures
        one == other,
{
}

/// Bytes that are written alike in hexadecimal are the same bytes.
pub proof fn law_hexadecimal_tells_bytes_apart(one: Seq<u8>, other: Seq<u8>)
    requires
        hex_encoded(one) == hex_encoded(other),
    ensures
        one == other,
{
    assert(hex_encoded(one).len() == 2 * one.len());
    assert(hex_encoded(other).len() == 2 * other.len());
    assert forall|k: int| 0 <= k < one.len() implies one[k] == other[k] by {
        let high = 2 * k;
        let low = 2 * k + 1;
        assert(high / 2 == k && low / 2 == k && high % 2 == 0 && low % 2 == 1);
        assert(hex_encoded(one)[high] == hex_digit(one[k] as int / 16));
        assert(hex_encoded(other)[high] == hex_digit(other[k] as int / 16));
        assert(hex_encoded(one)[low] == hex_digit(one[k] as int % 16));
        assert(hex_encoded(other)[low] == hex_digit(other[k] as int % 16));
        lemma_digits_differ(one[k] as int / 16, other[k] as int / 16);
        lemma_digits_differ(one[k] as int % 16, other[k] as int % 16);
    }
    assert(one =~= other);
}

} // verus!
