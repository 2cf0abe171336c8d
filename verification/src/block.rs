//! A block: metadata, payload, and a signature over the metadata.

use crate::block_metadata::{
    bound_hash, lemma_canonical_json_injective, BlockMetadata, MetadataView,
};
use crate::clock::unix_seconds;
use crate::digest::sha256_hex;
use crate::key_manager::{KeyError, KeyManager, KeyPair};
use vstd::prelude::*;
use vstd::utf8::{encode_utf8, encode_utf8_decode_utf8};

verus! {

/// Why a block could not be made.
#[derive(Debug, Clone, Copy, PartialEq, Eq, Structural)]
pub enum BlockError {
    /// The clock shows a time before the Unix epoch.
    Clock,
    /// The key could not sign the metadata.
    Key(KeyError),
}

/// What a `Block` holds.
pub struct BlockView {
    pub metadata: MetadataView,
    pub data: Seq<char>,
    pub signature: Seq<u8>,
}

impl BlockView {
    /// The bytes that the signature of the block is made over: the canonical
    /// form of its metadata.  Neither the payload nor the stored hash is
    /// among them.
    pub open spec fn signed_bytes(self) -> Seq<u8> {
        encode_utf8(self.metadata.json())
    }

    /// Whether the public half of `key` accepts the signature of the block.
    pub open spec fn accepted_by(self, key: KeyPair) -> bool {
        key.accepts(self.signed_bytes(), self.signature)
    }

    /// Whether the stored hash is the digest of the metadata and the stored
    /// payload.
    pub open spec fn hash_holds(self) -> bool {
        self.metadata.hash == self.metadata.hash_of(self.data)
    }

    /// The report of a signature that a key did not accept.
    pub open spec fn signature_report(self) -> Seq<char> {
        "Can't validate signature of block "@ + self.metadata.json()
    }

    /// The report of a stored hash that the payload does not give.
    pub open spec fn hash_report(self) -> Seq<char> {
        "Can't validate hash of block "@ + self.metadata.json()
    }

    /// The block made at `date` for `data` by `key`, or the reason why `key`
    /// could not sign it.
    pub open spec fn sealed(
        id: int,
        date: int,
        previous_hash: Seq<char>,
        key: KeyPair,
        data: Seq<char>,
    ) -> Result<BlockView, KeyError> {
        let hash_key = sha256_hex(key.public_key);
        let metadata = MetadataView {
            id,
            date,
            previous_hash,
            hash_key,
            hash: bound_hash(id, date, previous_hash, hash_key, data),
        };
        match key.signature_of(encode_utf8(metadata.json())) {
            Ok(signature) => Ok(BlockView { metadata, data, signature }),
            Err(e) => Err(e),
        }
    }
}

/// A block whose stored hash held is found out by the hash check once its
/// payload is replaced by one that the metadata binds to another digest.
pub proof fn lemma_tampering_detected(block: BlockView, data: Seq<char>)
    requires
        block.hash_holds(),
        block.metadata.hash_of(data) != block.metadata.hash_of(block.data),
    ensures
        !(BlockView { data, ..block }).hash_holds(),
{
}

/// Replacing the payload of a block changes nothing that its signature
/// covers: a key accepts the block afterwards exactly when it did before.
pub proof fn lemma_signature_ignores_payload(block: BlockView, data: Seq<char>, key: KeyPair)
    ensures
        (BlockView { data, ..block }).accepted_by(key) == block.accepted_by(key),
{
}

/// What is signed tells the signed fields apart: two blocks whose signatures
/// are made over the same bytes have the same `id`, `date`, `previous_hash`
/// and `hash_key`.
pub proof fn lemma_signed_bytes_fix_the_fields(block: BlockView, other: BlockView)
    requires
        block.signed_bytes() == other.signed_bytes(),
    ensures
        block.metadata.id == other.metadata.id,
        block.metadata.date == other.metadata.date,
        block.metadata.previous_hash == other.metadata.previous_hash,
        block.metadata.hash_key == other.metadata.hash_key,
{
    encode_utf8_decode_utf8(block.metadata.json());
    encode_utf8_decode_utf8(other.metadata.json());
    lemma_canonical_json_injective(
        block.metadata.id,
        block.metadata.date,
        block.metadata.previous_hash,
        block.metadata.hash_key,
        other.metadata.id,
        other.metadata.date,
        other.metadata.previous_hash,
        other.metadata.hash_key,
    );
}

/// One record of a chain.  It is made once and not changed afterwards.
pub struct Block {
    pub metadata: BlockMetadata,
    pub data: String,
    pub signature: Vec<u8>,
}

impl View for Block {
    type V = BlockView;

    open spec fn view(&self) -> BlockView {
        BlockView { metadata: self.metadata@, data: self.data@, signature: self.signature@ }
    }
}

impl Block {
    /// Makes a block for `data`, stamped with the current time and signed by
    /// `key_manager`.
    ///
    /// The time is whatever the clock shows: the block is the one that
    /// `with_date` makes for that time.
    pub fn new(id: i32, previous_hash: &str, key_manager: KeyManager, data: &str) -> (res: Result<
        Block,
        BlockError,
    >)
        ensures
            match res {
                Ok(block) => BlockView::sealed(
                    id as int,
                    block@.metadata.date,
                    previous_hash@,
                    key_manager@,
                    data@,
                ) == Ok::<BlockView, KeyError>(block@),
                Err(BlockError::Key(e)) => exists|date: u64|
                    #[trigger] BlockView::sealed(
                        id as int,
                        date as int,
                        previous_hash@,
                        key_manager@,
                        data@,
                    ) == Err::<BlockView, KeyError>(e),
                Err(BlockError::Clock) => true,
            },
            res matches Ok(block) ==> block@.hash_holds(),
            key_manager@.is_matched() ==> (res matches Ok(block) ==> block@.accepted_by(
                key_manager@,
            )),
    {
        match unix_seconds() {
            None => Err(BlockError::Clock),
            Some(date) => match Block::with_date(id, date, previous_hash, &key_manager, data) {
                Ok(block) => Ok(block),
                Err(e) => Err(BlockError::Key(e)),
            },
        }
    }

    /// Makes a block for `data`, stamped with `date` and signed by
    /// `key_manager`.
    ///
    /// The metadata carries the fingerprint of the public half of the key and
    /// the digest that binds it to `data`; the signature is made over the
    /// canonical form of the metadata.  Fails exactly when the key cannot
    /// sign, with the key's error.
    pub fn with_date(
        id: i32,
        date: u64,
        previous_hash: &str,
        key_manager: &KeyManager,
        data: &str,
    ) -> (res: Result<Block, KeyError>)
        ensures
            match res {
                Ok(block) => BlockView::sealed(
                    id as int,
                    date as int,
                    previous_hash@,
                    key_manager@,
                    data@,
                ) == Ok::<BlockView, KeyError>(block@),
                Err(e) => BlockView::sealed(
                    id as int,
                    date as int,
                    previous_hash@,
                    key_manager@,
                    data@,
                ) == Err::<BlockView, KeyError>(e),
            },
            res matches Ok(block) ==> block@.hash_holds(),
            key_manager@.is_matched() ==> (res matches Ok(block) ==> block@.accepted_by(
                key_manager@,
            )),
    {
        let hash_key = key_manager.public_key_hash();
        let metadata = BlockMetadata::new(id, date, previous_hash, hash_key.as_str(), data);
        let metadata_json = metadata.to_json();
        match key_manager.sign(metadata_json.as_str().as_bytes()) {
            Ok(signature) => Ok(Block { metadata, data: String::from_str(data), signature }),
            Err(e) => Err(e),
        }
    }

    /// Checks the signature of the block against the public half of
    /// `key_manager`.
    ///
    /// Succeeds exactly when the key accepts the signature over the canonical
    /// form of the metadata; otherwise the report names the block by that
    /// form.  The payload and the stored hash play no part.
    pub fn verify_signature(&self, key_manager: KeyManager) -> (res: Result<(), String>)
        ensures
            res is Ok <==> self@.accepted_by(key_manager@),
            res matches Err(report) ==> report@ == self@.signature_report(),
    {
        self.check_signature(&key_manager)
    }

    /// As `verify_signature`, with a borrowed key.
    pub fn check_signature(&self, key_manager: &KeyManager) -> (res: Result<(), String>)
        ensures
            res is Ok <==> self@.accepted_by(key_manager@),
            res matches Err(report) ==> report@ == self@.signature_report(),
    {
        let metadata_json = self.metadata.to_json();
        let verdict = key_manager.verify(
            metadata_json.as_str().as_bytes(),
            self.signature.as_slice(),
        );
        Block::signature_outcome(verdict, metadata_json.as_str())
    }

    /// The result of a signature check, given the key's verdict and the
    /// canonical form of the metadata: success where the key accepted, and
    /// otherwise a report that names the block.
    pub fn signature_outcome(verdict: Result<(), KeyError>, metadata_json: &str) -> (res: Result<
        (),
        String,
    >)
        ensures
            res is Ok <==> verdict is Ok,
            res matches Err(report) ==> report@ == "Can't validate signature of block "@
                + metadata_json@,
    {
        match verdict {
            Ok(()) => Ok(()),
            Err(_) => {
                let mut report = String::from_str("Can't validate signature of block ");
                report.append(metadata_json);
                Err(report)
            },
        }
    }

    /// Checks the stored hash against the stored payload.
    ///
    /// Succeeds exactly when the digest of metadata and payload, computed
    /// afresh, is the stored hash; otherwise the report names the block by
    /// the canonical form of its metadata.
    pub fn verify_hash(&self) -> (res: Result<(), String>)
        ensures
            res is Ok <==> self@.hash_holds(),
            res matches Err(report) ==> report@ == self@.hash_report(),
    {
        let metadata_json = self.metadata.to_json();
        let fresh = self.metadata.generate_hash(self.data.as_str());
        if self.metadata.hash == fresh {
            Ok(())
        } else {
            let mut report = String::from_str("Can't validate hash of block ");
            report.append(metadata_json.as_str());
            Err(report)
        }
    }
}

} // verus!
