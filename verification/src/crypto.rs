//! The RSA primitives the library builds on, as provided by the `rsa` crate.
//!
//! Nothing in this module is proved: each function states what the `rsa`
//! crate (with `pkcs8` and `spki` behind it) is trusted to do.

use rsa::pkcs8::{DecodePrivateKey, DecodePublicKey, EncodePrivateKey, EncodePublicKey, LineEnding};
use rsa::sha2::Sha256;
use rsa::traits::{PrivateKeyParts, PublicKeyParts};
use rsa::{Pkcs1v15Sign, RsaPrivateKey, RsaPublicKey};
use vstd::prelude::*;

verus! {

#[verifier::external_type_specification]
#[verifier::external_body]
pub struct ExRsaPrivateKey(rsa::RsaPrivateKey);

#[verifier::external_type_specification]
#[verifier::external_body]
pub struct ExRsaPublicKey(rsa::RsaPublicKey);

#[verifier::external_type_specification]
#[verifier::external_body]
pub struct ExRsaError(rsa::Error);

#[verifier::external_type_specification]
#[verifier::external_body]
pub struct ExPkcs8Error(rsa::pkcs8::Error);

#[verifier::external_type_specification]
#[verifier::external_body]
pub struct ExSpkiError(rsa::pkcs8::spki::Error);

/// The private key that a PEM-encoded PKCS#8 document holds, if it holds one.
pub uninterp spec fn pkcs8_private_key(pem: Seq<char>) -> Option<RsaPrivateKey>;

/// The public key that a PEM-encoded SubjectPublicKeyInfo document holds, if
/// it holds one.
pub uninterp spec fn spki_public_key(pem: Seq<char>) -> Option<RsaPublicKey>;

/// The public half (modulus and public exponent) of a private key.
pub uninterp spec fn public_half(key: RsaPrivateKey) -> RsaPublicKey;

/// The PEM-encoded PKCS#8 document of a private key, with LF line endings,
/// where the key can be encoded.
pub uninterp spec fn pkcs8_pem(key: RsaPrivateKey) -> Option<Seq<char>>;

/// The PEM-encoded SubjectPublicKeyInfo document of a public key, with LF
/// line endings, where the key can be encoded.
pub uninterp spec fn spki_pem(key: RsaPublicKey) -> Option<Seq<char>>;

/// The size of the modulus of a private key, in bits.
pub uninterp spec fn modulus_bits(key: RsaPrivateKey) -> usize;

/// The size in bits of the first prime factor that a private key holds.
pub uninterp spec fn first_prime_bits(key: RsaPrivateKey) -> usize;

/// The size in bits of the second prime factor that a private key holds.
pub uninterp spec fn second_prime_bits(key: RsaPrivateKey) -> usize;

/// The most bits by which the second prime factor of a key may be longer
/// than the first for the key to be used for signing.
pub const MAX_PRIME_SKEW: usize = 8;

/// Whether the second prime factor of a key is at most `MAX_PRIME_SKEW` bits
/// longer than the first.
///
/// Signing takes a number below the second prime from one below the first and
/// then adds the first prime until the difference is no longer negative.
/// With primes of one size that is one addition or two; with a second prime
/// that is `k` bits longer it can be as many as two to the power `k + 1`.
pub open spec fn is_balanced(key: RsaPrivateKey) -> bool {
    second_prime_bits(key) - first_prime_bits(key) <= MAX_PRIME_SKEW
}

/// The line that opens a PEM document of the kind `label`, with its LF.
pub open spec fn pem_opening(label: Seq<char>) -> Seq<char> {
    "-----BEGIN "@ + label + "-----\n"@
}

/// The PKCS#1 v1.5 signature of a SHA-256 digest under a private key, where
/// one is produced.
pub uninterp spec fn pkcs1v15_signature(key: RsaPrivateKey, digest: Seq<u8>) -> Option<Seq<u8>>;

/// Whether a public key accepts `signature` as a PKCS#1 v1.5 signature of a
/// SHA-256 digest.
pub uninterp spec fn pkcs1v15_accepts(key: RsaPublicKey, digest: Seq<u8>, signature: Seq<u8>) -> bool;

/// Calls `RsaPrivateKey::new` with the thread-local generator of `rand`.
///
/// The key depends on chance, so nothing is claimed of it.  The bounds keep
/// the modulus within the sizes the `rsa` crate generates and validates.
#[verifier::external_body]
pub(crate) fn generate_private_key(bits: usize) -> (res: Result<RsaPrivateKey, rsa::Error>)
    requires
        64 <= bits <= 4096,
{
    let mut rng = rand::thread_rng();
    RsaPrivateKey::new(&mut rng, bits)
}

/// Calls `bits` on the modulus of the key, which `n` hands out: the fewest
/// bits that can hold the modulus.
#[verifier::external_body]
pub(crate) fn modulus_size(key: &RsaPrivateKey) -> (res: usize)
    ensures
        res == modulus_bits(*key),
{
    key.n().bits()
}

/// Calls `primes` on the key and `bits` on the first two prime factors it
/// hands out.  Every private key holds at least two: the constructors of the
/// `rsa` crate make no key of fewer.
#[verifier::external_body]
pub(crate) fn prime_sizes(key: &RsaPrivateKey) -> (res: (usize, usize))
    ensures
        res.0 == first_prime_bits(*key),
        res.1 == second_prime_bits(*key),
{
    let primes = key.primes();
    (primes[0].bits(), primes[1].bits())
}

/// Calls `RsaPrivateKey::from_pkcs8_pem`.
///
/// Decoding reads nothing but the text, so its outcome is a function of the
/// text: the key it holds, or a failure.
#[verifier::external_body]
pub(crate) fn decode_private_key(pem: &str) -> (res: Result<RsaPrivateKey, rsa::pkcs8::Error>)
    ensures
        match res {
            Ok(key) => pkcs8_private_key(pem@) == Some(key),
            Err(_) => pkcs8_private_key(pem@) is None,
        },
{
    RsaPrivateKey::from_pkcs8_pem(pem)
}

/// Calls `RsaPublicKey::from_public_key_pem`.
///
/// Decoding reads nothing but the text, so its outcome is a function of the
/// text: the key it holds, or a failure.
#[verifier::external_body]
pub(crate) fn decode_public_key(pem: &str) -> (res: Result<RsaPublicKey, rsa::pkcs8::spki::Error>)
    ensures
        match res {
            Ok(key) => spki_public_key(pem@) == Some(key),
            Err(_) => spki_public_key(pem@) is None,
        },
{
    RsaPublicKey::from_public_key_pem(pem)
}

/// Calls `RsaPublicKey::from` on a borrowed private key, which copies the
/// modulus and the public exponent out of it.
#[verifier::external_body]
pub(crate) fn derive_public_key(key: &RsaPrivateKey) -> (res: RsaPublicKey)
    ensures
        res == public_half(*key),
{
    RsaPublicKey::from(key)
}

/// Compares two public keys with `==`, which `RsaPublicKey` derives: two
/// keys are equal when their moduli and their public exponents are.
#[verifier::external_body]
pub(crate) fn same_public_key(a: &RsaPublicKey, b: &RsaPublicKey) -> (res: bool)
    ensures
        res == (*a == *b),
{
    a == b
}

/// Calls `to_pkcs8_pem` with LF line endings.
///
/// The text is a function of the key alone; the crate refuses keys of more
/// than two primes.  The encoder opens the text with the boundary line of
/// the label `PRIVATE KEY`.
#[verifier::external_body]
pub(crate) fn encode_private_key(key: &RsaPrivateKey) -> (res: Result<String, rsa::pkcs8::Error>)
    ensures
        match res {
            Ok(pem) => pkcs8_pem(*key) == Some(pem@),
            Err(_) => pkcs8_pem(*key) is None,
        },
        res matches Ok(pem) ==> pem_opening("PRIVATE KEY"@).is_prefix_of(pem@),
{
    key.to_pkcs8_pem(LineEnding::LF).map(|pem| pem.to_string())
}

/// Calls `to_public_key_pem` with LF line endings.
///
/// The text is a function of the key alone.  The encoder opens it with the
/// boundary line of the label `PUBLIC KEY`.
#[verifier::external_body]
pub(crate) fn encode_public_key(key: &RsaPublicKey) -> (res: Result<String, rsa::pkcs8::spki::Error>)
    ensures
        match res {
            Ok(pem) => spki_pem(*key) == Some(pem@),
            Err(_) => spki_pem(*key) is None,
        },
        res matches Ok(pem) ==> pem_opening("PUBLIC KEY"@).is_prefix_of(pem@),
{
    key.to_public_key_pem(LineEnding::LF)
}

/// Calls `RsaPrivateKey::sign` with the PKCS#1 v1.5 scheme for SHA-256.
///
/// Signing without a random generator is deterministic, so the outcome is a
/// function of key and digest.  Before it returns a signature the crate
/// raises it to the public exponent and fails unless the padded digest comes
/// back; that is the comparison `RsaPublicKey::verify` makes, so the public
/// half of the key accepts every signature returned here.  A signature is
/// padded to the length of the modulus in bytes.
///
/// Keys that are not balanced are left out: on them the call may not return
/// within any useful time.
#[verifier::external_body]
pub(crate) fn sign_digest(key: &RsaPrivateKey, digest: &[u8]) -> (res: Result<Vec<u8>, rsa::Error>)
    requires
        is_balanced(*key),
    ensures
        match res {
            Ok(signature) => pkcs1v15_signature(*key, digest@) == Some(signature@),
            Err(_) => pkcs1v15_signature(*key, digest@) is None,
        },
        res matches Ok(signature) ==> pkcs1v15_accepts(public_half(*key), digest@, signature@),
        res matches Ok(signature) ==> signature@.len() == (modulus_bits(*key) + 7) / 8,
{
    key.sign(Pkcs1v15Sign::new::<Sha256>(), digest)
}

/// Calls `RsaPublicKey::verify` with the PKCS#1 v1.5 scheme for SHA-256.
///
/// The verdict is a function of key, digest and signature; the error carries
/// nothing the library reads.
#[verifier::external_body]
pub(crate) fn verify_digest(key: &RsaPublicKey, digest: &[u8], signature: &[u8]) -> (res: Result<(), rsa::Error>)
    ensures
        res is Ok <==> pkcs1v15_accepts(*key, digest@, signature@),
{
    key.verify(Pkcs1v15Sign::new::<Sha256>(), digest, signature)
}

} // verus!
