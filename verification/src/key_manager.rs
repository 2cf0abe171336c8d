//! An RSA key pair held in its portable PEM encoding, with signing,
//! verification and fingerprints.

use crate::crypto::{
    decode_private_key, decode_public_key, derive_public_key, encode_private_key,
    encode_public_key, generate_private_key, is_balanced, modulus_bits, modulus_size,
    pem_opening, pkcs1v15_accepts, pkcs1v15_signature, pkcs8_pem, pkcs8_private_key,
    prime_sizes, public_half, same_public_key, sign_digest, spki_pem, spki_public_key,
    verify_digest, MAX_PRIME_SKEW,
};
use crate::digest::{sha256, sha256_bytes, sha256_hex, sha256_text};
use rsa::{RsaPrivateKey, RsaPublicKey};
use vstd::prelude::*;
use vstd::slice::slice_to_vec;
use vstd::utf8::{
    decode_utf8, encode_utf8, encode_utf8_decode_utf8, encode_utf8_valid_utf8, valid_utf8,
};

verus! {

/// The size of the modulus of a generated key, in bits.
pub const KEY_BITS: usize = 2048;

/// Why an operation on a key failed.
#[derive(Debug, Clone, Copy, PartialEq, Eq, Structural)]
pub enum KeyError {
    /// The stored bytes are not the PEM encoding of a key.
    Decode,
    /// A key could not be written in its PEM encoding, or the encoding does
    /// not read back as the key.
    Encode,
    /// No key of the size asked for could be generated.
    Generate,
    /// The private key decoded, but no signature could be made with it.
    Sign,
    /// The private key decoded, but its second prime factor is so much longer
    /// than its first that signing with it would not end in useful time.
    Unbalanced,
    /// The public key decoded, but it does not accept the signature.
    Verify,
}

/// The two encoded halves of a key pair.
pub struct KeyPair {
    pub private_key: Seq<u8>,
    pub public_key: Seq<u8>,
}

impl KeyPair {
    /// The private key that the private half encodes, if it encodes one.
    pub open spec fn signing_key(self) -> Option<RsaPrivateKey> {
        if valid_utf8(self.private_key) {
            pkcs8_private_key(decode_utf8(self.private_key))
        } else {
            None
        }
    }

    /// The public key that the public half encodes, if it encodes one.
    pub open spec fn verifying_key(self) -> Option<RsaPublicKey> {
        if valid_utf8(self.public_key) {
            spki_public_key(decode_utf8(self.public_key))
        } else {
            None
        }
    }

    /// Both halves decode, and the public half holds the public counterpart
    /// of the private one.
    pub open spec fn is_matched(self) -> bool {
        self.signing_key() matches Some(key) && self.verifying_key() == Some(public_half(key))
    }

    /// Both halves are text, the private half opens as a PEM document of the
    /// kind `PRIVATE KEY` (PKCS#8), and the public half as one of the kind
    /// `PUBLIC KEY` (SubjectPublicKeyInfo).
    pub open spec fn is_labelled(self) -> bool {
        &&& valid_utf8(self.private_key)
        &&& pem_opening("PRIVATE KEY"@).is_prefix_of(decode_utf8(self.private_key))
        &&& valid_utf8(self.public_key)
        &&& pem_opening("PUBLIC KEY"@).is_prefix_of(decode_utf8(self.public_key))
    }

    /// The signature of `data` under the private half: PKCS#1 v1.5 over the
    /// SHA-256 digest of `data`.  A key that is not balanced gives none.
    pub open spec fn signature_of(self, data: Seq<u8>) -> Result<Seq<u8>, KeyError> {
        match self.signing_key() {
            None => Err(KeyError::Decode),
            Some(key) => if !is_balanced(key) {
                Err(KeyError::Unbalanced)
            } else {
                match pkcs1v15_signature(key, sha256(data)) {
                    None => Err(KeyError::Sign),
                    Some(signature) => Ok(signature),
                }
            },
        }
    }

    /// The length of a signature made with the private half: that of its
    /// modulus, in whole bytes.
    pub open spec fn signature_len(self) -> int {
        match self.signing_key() {
            None => 0,
            Some(key) => (modulus_bits(key) + 7) / 8,
        }
    }

    /// The verdict of the public half on `signature` as a signature of
    /// `data`.
    pub open spec fn verdict_on(self, data: Seq<u8>, signature: Seq<u8>) -> Result<(), KeyError> {
        match self.verifying_key() {
            None => Err(KeyError::Decode),
            Some(key) => if pkcs1v15_accepts(key, sha256(data), signature) {
                Ok(())
            } else {
                Err(KeyError::Verify)
            },
        }
    }

    /// Whether the public half accepts `signature` as a signature of `data`.
    pub open spec fn accepts(self, data: Seq<u8>, signature: Seq<u8>) -> bool {
        self.verdict_on(data, signature) is Ok
    }

    /// The pair that holds the encodings of `key` and of its public half.
    ///
    /// There is none where a half cannot be encoded, or where the two
    /// encodings do not read back as a matched pair.
    pub open spec fn encoding_of(key: RsaPrivateKey) -> Result<KeyPair, KeyError> {
        match (pkcs8_pem(key), spki_pem(public_half(key))) {
            (Some(private_pem), Some(public_pem)) => {
                let pair = KeyPair {
                    private_key: encode_utf8(private_pem),
                    public_key: encode_utf8(public_pem),
                };
                if pair.is_matched() {
                    Ok(pair)
                } else {
                    Err(KeyError::Encode)
                }
            },
            _ => Err(KeyError::Encode),
        }
    }

    /// The pair for a key that the generator drew: the encoding of the key
    /// where its modulus has `KEY_BITS` bits, and none otherwise.
    pub open spec fn generated_from(key: RsaPrivateKey) -> Result<KeyPair, KeyError> {
        if modulus_bits(key) != KEY_BITS {
            Err(KeyError::Generate)
        } else {
            KeyPair::encoding_of(key)
        }
    }

    /// The pair rebuilt from an encoded private key: the key is decoded, its
    /// public half derived, and both are encoded afresh.
    pub open spec fn rebuilt_from(private_key: Seq<u8>) -> Result<KeyPair, KeyError> {
        if !valid_utf8(private_key) {
            Err(KeyError::Decode)
        } else {
            match pkcs8_private_key(decode_utf8(private_key)) {
                None => Err(KeyError::Decode),
                Some(key) => KeyPair::encoding_of(key),
            }
        }
    }
}

/// An RSA key pair in PEM encoding: PKCS#8 for the private half,
/// SubjectPublicKeyInfo for the public half.
///
/// The value is immutable and cheap to copy; the keys are decoded anew for
/// each signature and each verification.
pub struct KeyManager {
    private_key: Vec<u8>,
    public_key: Vec<u8>,
}

impl View for KeyManager {
    type V = KeyPair;

    closed spec fn view(&self) -> KeyPair {
        KeyPair { private_key: self.private_key@, public_key: self.public_key@ }
    }
}

impl Clone for KeyManager {
    fn clone(&self) -> (res: Self)
        ensures
            res@ == self@,
    {
        KeyManager {
            private_key: self.private_key.clone(),
            public_key: self.public_key.clone(),
        }
    }
}

impl KeyManager {
    /// Generates a fresh pair with a modulus of `KEY_BITS` bits.
    ///
    /// Which pair comes back depends on chance; whichever it is, its halves
    /// are the encodings of one private key, whose modulus has `KEY_BITS`
    /// bits, and of that key's public half; they are matched, and each opens
    /// with the boundary line of its kind.  A key of another size is not
    /// handed out: `Generate` is returned in its place.
    pub fn generate() -> (res: Result<KeyManager, KeyError>)
        ensures
            res matches Ok(pair) ==> pair@.is_matched() && pair@.is_labelled(),
            res matches Ok(pair) ==> exists|key: RsaPrivateKey|
                #[trigger] KeyPair::encoding_of(key) == Ok::<KeyPair, KeyError>(pair@)
                    && modulus_bits(key) == KEY_BITS,
            res matches Err(e) ==> e == KeyError::Generate || e == KeyError::Encode,
    {
        match generate_private_key(KEY_BITS) {
            Ok(key) => KeyManager::from_generated(&key),
            Err(_) => Err(KeyError::Generate),
        }
    }

    /// The pair for a key that the generator drew.
    ///
    /// Fails with `Generate` exactly when the modulus of the key has not
    /// `KEY_BITS` bits, and otherwise exactly when `from_rsa_key` fails on the
    /// key, with its error.
    pub fn from_generated(key: &RsaPrivateKey) -> (res: Result<KeyManager, KeyError>)
        ensures
            match res {
                Ok(pair) => KeyPair::generated_from(*key) == Ok::<KeyPair, KeyError>(pair@),
                Err(e) => KeyPair::generated_from(*key) == Err::<KeyPair, KeyError>(e),
            },
            res matches Ok(pair) ==> pair@.is_matched() && pair@.is_labelled(),
    {
        if modulus_size(key) == KEY_BITS {
            KeyManager::from_rsa_key(key)
        } else {
            Err(KeyError::Generate)
        }
    }

    /// The pair that holds the encodings of `key` and of its public half.
    ///
    /// Both halves are read back before the pair is handed out: a pair made
    /// here is matched.  Fails with `Encode` exactly when a half cannot be
    /// encoded or the encodings do not read back as a matched pair.
    pub fn from_rsa_key(key: &RsaPrivateKey) -> (res: Result<KeyManager, KeyError>)
        ensures
            match res {
                Ok(pair) => KeyPair::encoding_of(*key) == Ok::<KeyPair, KeyError>(pair@),
                Err(e) => KeyPair::encoding_of(*key) == Err::<KeyPair, KeyError>(e),
            },
            res matches Ok(pair) ==> pair@.is_matched() && pair@.is_labelled(),
    {
        let public_key = derive_public_key(key);
        match encode_private_key(key) {
            Err(_) => Err(KeyError::Encode),
            Ok(private_pem) => match encode_public_key(&public_key) {
                Err(_) => Err(KeyError::Encode),
                Ok(public_pem) => {
                    let pair = KeyManager {
                        private_key: slice_to_vec(private_pem.as_str().as_bytes()),
                        public_key: slice_to_vec(public_pem.as_str().as_bytes()),
                    };
                    proof {
                        encode_utf8_valid_utf8(private_pem@);
                        encode_utf8_decode_utf8(private_pem@);
                        encode_utf8_valid_utf8(public_pem@);
                        encode_utf8_decode_utf8(public_pem@);
                    }
                    if pair.is_matched() {
                        Ok(pair)
                    } else {
                        Err(KeyError::Encode)
                    }
                },
            },
        }
    }

    /// Rebuilds a pair from an encoded private key: the key is decoded, its
    /// public half derived, and both are encoded afresh.
    ///
    /// Fails with `Decode` exactly when the bytes are not the PEM encoding of
    /// a PKCS#8 private key, and otherwise as `from_rsa_key` does on the key
    /// they encode.
    pub fn from_private_key(private_key: &[u8]) -> (res: Result<KeyManager, KeyError>)
        ensures
            match res {
                Ok(pair) => KeyPair::rebuilt_from(private_key@) == Ok::<KeyPair, KeyError>(pair@),
                Err(e) => KeyPair::rebuilt_from(private_key@) == Err::<KeyPair, KeyError>(e),
            },
            res matches Ok(pair) ==> pair@.is_matched() && pair@.is_labelled(),
    {
        match core::str::from_utf8(private_key) {
            Err(_) => Err(KeyError::Decode),
            Ok(pem) => match decode_private_key(pem) {
                Err(_) => Err(KeyError::Decode),
                Ok(key) => KeyManager::from_rsa_key(&key),
            },
        }
    }

    /// A pair made of the two buffers as they are; nothing checks that they
    /// belong together, or that they encode keys at all.
    pub fn from(private_key: &[u8], public_key: &[u8]) -> (res: KeyManager)
        ensures
            res@ == (KeyPair { private_key: private_key@, public_key: public_key@ }),
    {
        KeyManager { private_key: slice_to_vec(private_key), public_key: slice_to_vec(public_key) }
    }

    /// A copy of the encoded private key.
    pub fn private_key(&self) -> (res: Vec<u8>)
        ensures
            res@ == self@.private_key,
    {
        self.private_key.clone()
    }

    /// A copy of the encoded public key.
    pub fn public_key(&self) -> (res: Vec<u8>)
        ensures
            res@ == self@.public_key,
    {
        self.public_key.clone()
    }

    /// Whether the two halves belong together: both decode, and the public
    /// half holds the public counterpart of the private one.
    pub fn is_matched(&self) -> (res: bool)
        ensures
            res == self@.is_matched(),
    {
        match core::str::from_utf8(self.private_key.as_slice()) {
            Err(_) => false,
            Ok(private_pem) => match decode_private_key(private_pem) {
                Err(_) => false,
                Ok(private_key) => match core::str::from_utf8(self.public_key.as_slice()) {
                    Err(_) => false,
                    Ok(public_pem) => match decode_public_key(public_pem) {
                        Err(_) => false,
                        Ok(public_key) => same_public_key(
                            &public_key,
                            &derive_public_key(&private_key),
                        ),
                    },
                },
            },
        }
    }

    /// Signs `data`: PKCS#1 v1.5 over its SHA-256 digest.
    ///
    /// Fails with `Decode` exactly when the private half does not decode, with
    /// `Unbalanced` exactly when it decodes to a key whose second prime factor
    /// is more than `MAX_PRIME_SKEW` bits longer than its first, and with
    /// `Sign` exactly when the key is balanced but yields no signature.  A
    /// signature made by a matched pair is accepted by the same pair.
    pub fn sign(&self, data: &[u8]) -> (res: Result<Vec<u8>, KeyError>)
        ensures
            match res {
                Ok(signature) => self@.signature_of(data@) == Ok::<Seq<u8>, KeyError>(signature@),
                Err(e) => self@.signature_of(data@) == Err::<Seq<u8>, KeyError>(e),
            },
            self@.is_matched() ==> (res matches Ok(signature) ==> self@.accepts(data@, signature@)),
            res matches Ok(signature) ==> signature@.len() == self@.signature_len(),
    {
        match core::str::from_utf8(self.private_key.as_slice()) {
            Err(_) => Err(KeyError::Decode),
            Ok(pem) => match decode_private_key(pem) {
                Err(_) => Err(KeyError::Decode),
                Ok(key) => {
                    let (first, second) = prime_sizes(&key);
                    if second > first && second - first > MAX_PRIME_SKEW {
                        return Err(KeyError::Unbalanced);
                    }
                    let digest = sha256_bytes(data);
                    match sign_digest(&key, digest.as_slice()) {
                        Err(_) => Err(KeyError::Sign),
                        Ok(signature) => Ok(signature),
                    }
                },
            },
        }
    }

    /// Checks `signature` against `data` with the public half.
    ///
    /// Fails with `Decode` exactly when the public half does not decode, and
    /// with `Verify` exactly when it decodes and rejects the signature.
    pub fn verify(&self, data: &[u8], signature: &[u8]) -> (res: Result<(), KeyError>)
        ensures
            res == self@.verdict_on(data@, signature@),
    {
        match core::str::from_utf8(self.public_key.as_slice()) {
            Err(_) => Err(KeyError::Decode),
            Ok(pem) => match decode_public_key(pem) {
                Err(_) => Err(KeyError::Decode),
                Ok(key) => {
                    let digest = sha256_bytes(data);
                    KeyManager::verdict(verify_digest(&key, digest.as_slice(), signature))
                },
            },
        }
    }

    /// Turns the outcome of the RSA check into the library's verdict.
    pub fn verdict(outcome: Result<(), rsa::Error>) -> (res: Result<(), KeyError>)
        ensures
            res == (if outcome is Ok {
                Ok::<(), KeyError>(())
            } else {
                Err::<(), KeyError>(KeyError::Verify)
            }),
    {
        match outcome {
            Ok(()) => Ok(()),
            Err(_) => Err(KeyError::Verify),
        }
    }

    /// The fingerprint of the private half: the SHA-256 digest of its encoded
    /// bytes in hexadecimal.
    pub fn private_key_hash(&self) -> (res: String)
        ensures
            res@ == sha256_hex(self@.private_key),
    {
        sha256_text(self.private_key.as_slice())
    }

    /// The fingerprint of the public half: the SHA-256 digest of its encoded
    /// bytes in hexadecimal.
    pub fn public_key_hash(&self) -> (res: String)
        ensures
            res@ == sha256_hex(self@.public_key),
    {
        sha256_text(self.public_key.as_slice())
    }
}

} // verus!
