//! SHA-256 of a text, the bucket number that the first eight bytes of the
//! digest make, and the hashed names of the bootstrap document.

use sha2::Digest;
use vstd::prelude::*;
use vstd::utf8::encode_utf8;

verus! {

/// The SHA-256 digest of a sequence of bytes.
pub uninterp spec fn sha256(data: Seq<u8>) -> Seq<u8>;

/// The text of a sequence of bytes in base64, with the standard alphabet
/// and padding.
pub uninterp spec fn base64_standard(data: Seq<u8>) -> Seq<char>;

/// `sha2::Sha256::digest`: the SHA-256 digest of the bytes, which is 32
/// bytes long.
#[verifier::external_body]
fn sha256_digest(data: &[u8]) -> (r: Vec<u8>)
    ensures
        r@ == sha256(data@),
        r@.len() == 32,
{
    sha2::Sha256::digest(data).to_vec()
}

/// `Engine::encode` of `base64::prelude::BASE64_STANDARD`: the bytes in
/// base64. The input is kept far below the length at which the size of the
/// output would overflow.
#[verifier::external_body]
fn base64_encode(data: &[u8]) -> (r: String)
    requires
        data@.len() <= 0x4000_0000,
    ensures
        r@ == base64_standard(data@),
{
    base64::Engine::encode(&base64::prelude::BASE64_STANDARD, data)
}

/// The number that bytes spell with the most significant byte first.
pub open spec fn big_endian(bytes: Seq<u8>) -> nat
    decreases bytes.len(),
{
    if bytes.len() == 0 {
        0
    } else {
        big_endian(bytes.drop_last()) * 256 + bytes.last() as nat
    }
}

/// The hash of a text: the first eight bytes of the SHA-256 digest of its
/// UTF-8 form, read with the most significant byte first.
pub open spec fn user_hash(s: Seq<char>) -> nat {
    big_endian(sha256(encode_utf8(s)).take(8))
}

proof fn lemma_big_endian_step(bytes: Seq<u8>, k: int)
    requires
        0 <= k < bytes.len(),
    ensures
        big_endian(bytes.take(k + 1)) == big_endian(bytes.take(k)) * 256 + bytes[k] as nat,
{
    assert(bytes.take(k + 1).drop_last() =~= bytes.take(k));
}

/// The number that the first eight bytes of a digest spell, the most
/// significant byte first.
pub fn hash_of_digest(digest: &Vec<u8>) -> (r: u64)
    requires
        digest@.len() >= 8,
    ensures
        r == big_endian(digest@.take(8)),
{
    let ghost head = digest@.take(8);
    let mut acc: u64 = 0;
    let mut i: usize = 0;
    assert(head.take(0).len() == 0);
    while i < 8
        invariant
            i <= 8,
            digest@.len() >= 8,
            head == digest@.take(8),
            acc == big_endian(head.take(i as int)),
            i == 0 ==> acc == 0,
            i == 1 ==> acc < 0x100,
            i == 2 ==> acc < 0x1_0000,
            i == 3 ==> acc < 0x100_0000,
            i == 4 ==> acc < 0x1_0000_0000,
            i == 5 ==> acc < 0x100_0000_0000,
            i == 6 ==> acc < 0x1_0000_0000_0000,
            i == 7 ==> acc < 0x100_0000_0000_0000,
        decreases 8 - i,
    {
        proof {
            lemma_big_endian_step(head, i as int);
        }
        acc = acc * 256 + digest[i] as u64;
        i += 1;
    }
    assert(head.take(8) =~= head);
    acc
}

/// The hash of a text. Every text has one.
pub fn compute_user_hash(value: &str) -> (r: Option<u64>)
    ensures
        r == Some(user_hash(value@) as u64),
        user_hash(value@) <= u64::MAX,
{
    let digest = sha256_digest(value.as_bytes());
    Some(hash_of_digest(&digest))
}

/// The name under which a gate, config or layer stands in the bootstrap
/// document: the SHA-256 digest of its name's UTF-8 form, in base64.
pub open spec fn hashed_name(name: Seq<char>) -> Seq<char> {
    base64_standard(sha256(encode_utf8(name)))
}

/// The hashed form of a name.
pub fn hash_name(name: &str) -> (r: String)
    ensures
        r@ == hashed_name(name@),
{
    let digest = sha256_digest(name.as_bytes());
    base64_encode(digest.as_slice())
}

} // verus!
