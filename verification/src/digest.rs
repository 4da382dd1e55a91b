//! SHA-256 digests, written out as lowercase hexadecimal, used to recognise
//! a thought or a tile that was seen before.
use sha2::Digest;
use vstd::prelude::*;

verus! {

/// The SHA-256 digest of a byte sequence.
pub uninterp spec fn sha256(data: Seq<u8>) -> Seq<u8>;

/// Calls `sha2::Sha256::digest`. The contract claims that the result is the
/// named digest of the bytes given, and that it is 32 bytes long (the output
/// size of SHA-256); the digest's value is left unsaid.
#[verifier::external_body]
pub(crate) fn sha256_digest(data: &[u8]) -> (r: Vec<u8>)
    ensures
        r@ == sha256(data@),
        r@.len() == 32,
{
    sha2::Sha256::digest(data).to_vec()
}

/// The lowercase hexadecimal digit for `n < 16`.
pub open spec fn hex_digit(n: int) -> char {
    seq!['0', '1', '2', '3', '4', '5', '6', '7', '8', '9', 'a', 'b', 'c', 'd', 'e', 'f'][n]
}

/// Each byte written as two lowercase hexadecimal digits, high nibble first.
pub open spec fn hex_lower(data: Seq<u8>) -> Seq<char>
    decreases data.len(),
{
    if data.len() == 0 {
        seq![]
    } else {
        seq![hex_digit((data[0] / 16) as int), hex_digit((data[0] % 16) as int)] + hex_lower(data.drop_first())
    }
}

/// Hexadecimal doubles the length.
pub proof fn lemma_hex_lower_len(data: Seq<u8>)
    ensures
        hex_lower(data).len() == 2 * data.len(),
    decreases data.len(),
{
    if data.len() > 0 {
        lemma_hex_lower_len(data.drop_first());
    }
}

/// Calls `hex::encode`, which writes each byte as two lowercase hexadecimal
/// digits from the table `0123456789abcdef`, high nibble first; the contract
/// states exactly that.
#[verifier::external_body]
pub(crate) fn hex_encode(data: &[u8]) -> (r: String)
    ensures
        r@ == hex_lower(data@),
{
    hex::encode(data)
}

/// The bytes of `a` followed by those of `b`.
pub fn concat_bytes(a: &[u8], b: &[u8]) -> (r: Vec<u8>)
    ensures
        r@ == a@ + b@,
{
    let mut r: Vec<u8> = Vec::new();
    for i in 0..a.len()
        invariant
            r@ == a@.take(i as int),
    {
        r.push(a[i]);
        assert(a@.take(i + 1) =~= a@.take(i as int).push(a@[i as int]));
    }
    assert(a@.take(a.len() as int) =~= a@);
    for j in 0..b.len()
        invariant
            r@ == a@ + b@.take(j as int),
    {
        r.push(b[j]);
        assert(a@ + b@.take(j + 1) =~= (a@ + b@.take(j as int)).push(b@[j as int]));
    }
    assert(b@.take(b.len() as int) =~= b@);
    r
}

/// The lowercase hexadecimal SHA-256 digest of the UTF-8 bytes of `a`
/// followed by those of `b`.
pub open spec fn text_pair_hash(a: Seq<char>, b: Seq<char>) -> Seq<char> {
    hex_lower(sha256(vstd::utf8::encode_utf8(a) + vstd::utf8::encode_utf8(b)))
}

/// The hexadecimal SHA-256 digest of the bytes of `a` followed by those of `b`.
pub fn hex_digest_of_pair(a: &[u8], b: &[u8]) -> (r: String)
    ensures
        r@ == hex_lower(sha256(a@ + b@)),
        r@.len() == 64,
{
    let bytes = concat_bytes(a, b);
    let d = sha256_digest(bytes.as_slice());
    let r = hex_encode(d.as_slice());
    proof {
        lemma_hex_lower_len(d@);
    }
    r
}

/// The hash of two texts, 64 hexadecimal digits.
pub fn hash_text_pair(a: &str, b: &str) -> (r: String)
    ensures
        r@ == text_pair_hash(a@, b@),
        r@.len() == 64,
{
    hex_digest_of_pair(a.as_bytes(), b.as_bytes())
}

} // verus!
