//! An append-only chain of blocks, and its two verification passes.

use crate::block::{Block, BlockError, BlockView};
use crate::clock::unix_seconds;
use crate::key_manager::{KeyManager, KeyPair};
use vstd::prelude::*;

verus! {

/// Why a block could not be appended.
#[derive(Debug, Clone, Copy, PartialEq, Eq, Structural)]
pub enum ChainError {
    /// The chain holds as many blocks as there are block numbers.
    Full,
    /// The block could not be made.
    Block(BlockError),
}

/// The most blocks a chain can hold: one for each number from 0 to the
/// largest `i32`.
pub const MAX_BLOCKS: usize = 0x8000_0000;

/// Every block carries its position as its number, the first block has no
/// predecessor, and every other block carries the hash of the one before it.
pub open spec fn is_linked(blocks: Seq<BlockView>) -> bool {
    forall|i: int|
        0 <= i < blocks.len() ==> {
            &&& (#[trigger] blocks[i]).metadata.id == i
            &&& blocks[i].metadata.previous_hash == (if i == 0 {
                Seq::empty()
            } else {
                blocks[i - 1].metadata.hash
            })
        }
}

/// The hash that the next block after `blocks` has to carry: that of the
/// last block, or the empty text where there is none.
pub open spec fn predecessor_hash(blocks: Seq<BlockView>) -> Seq<char> {
    if blocks.len() == 0 {
        Seq::empty()
    } else {
        blocks.last().metadata.hash
    }
}

/// Whether some key of `keys` accepts the signature of `block`.
pub open spec fn is_trusted(block: BlockView, keys: Seq<KeyManager>) -> bool {
    exists|k: int| 0 <= k < keys.len() && block.accepted_by((#[trigger] keys[k])@)
}

/// Whether `key` accepts the signature of every block.
pub open spec fn all_accepted_by(blocks: Seq<BlockView>, key: KeyPair) -> bool {
    forall|i: int| 0 <= i < blocks.len() ==> (#[trigger] blocks[i]).accepted_by(key)
}

/// Whether every block is trusted by `keys`.
pub open spec fn all_trusted(blocks: Seq<BlockView>, keys: Seq<KeyManager>) -> bool {
    forall|i: int| 0 <= i < blocks.len() ==> is_trusted(#[trigger] blocks[i], keys)
}

/// Whether the stored hash of every block holds.
pub open spec fn all_hashes_hold(blocks: Seq<BlockView>) -> bool {
    forall|i: int| 0 <= i < blocks.len() ==> (#[trigger] blocks[i]).hash_holds()
}

/// Whether block `i` is the first that `keys` do not trust.
pub open spec fn is_first_untrusted(blocks: Seq<BlockView>, keys: Seq<KeyManager>, i: int) -> bool {
    &&& 0 <= i < blocks.len()
    &&& !is_trusted(blocks[i], keys)
    &&& all_trusted(blocks.take(i), keys)
}

/// Whether block `i` is the first whose stored hash does not hold.
pub open spec fn is_first_broken(blocks: Seq<BlockView>, i: int) -> bool {
    &&& 0 <= i < blocks.len()
    &&& !blocks[i].hash_holds()
    &&& all_hashes_hold(blocks.take(i))
}

/// The report of a block that no key accepted.
pub open spec fn untrusted_report(block: BlockView) -> Seq<char> {
    "Can't verify signature of block "@ + block.metadata.json()
}

/// The chain after a block for `data`, made at `date` and signed by `key`,
/// has been appended to `blocks`; or the reason why none can be.
pub open spec fn extended(blocks: Seq<BlockView>, data: Seq<char>, key: KeyPair, date: int) -> Result<
    Seq<BlockView>,
    ChainError,
> {
    if blocks.len() >= MAX_BLOCKS {
        Err(ChainError::Full)
    } else {
        match BlockView::sealed(blocks.len() as int, date, predecessor_hash(blocks), key, data) {
            Ok(block) => Ok(blocks.push(block)),
            Err(e) => Err(ChainError::Block(BlockError::Key(e))),
        }
    }
}

/// What holds of every block of a chain still holds when a block of which it
/// holds is appended.
proof fn lemma_push_keeps(blocks: Seq<BlockView>, block: BlockView, key: KeyPair)
    ensures
        is_linked(blocks) && block.metadata.id == blocks.len() && block.metadata.previous_hash
            == predecessor_hash(blocks) ==> is_linked(blocks.push(block)),
        all_hashes_hold(blocks) && block.hash_holds() ==> all_hashes_hold(blocks.push(block)),
        all_accepted_by(blocks, key) && block.accepted_by(key) ==> all_accepted_by(
            blocks.push(block),
            key,
        ),
{
    let longer = blocks.push(block);
    assert forall|i: int| 0 <= i < blocks.len() implies #[trigger] longer[i] == blocks[i] by {}
    assert(longer[blocks.len() as int] == block);
    if is_linked(blocks) && block.metadata.id == blocks.len() && block.metadata.previous_hash
        == predecessor_hash(blocks) {
        assert forall|i: int| 0 <= i < longer.len() implies {
            &&& (#[trigger] longer[i]).metadata.id == i
            &&& longer[i].metadata.previous_hash == (if i == 0 {
                Seq::empty()
            } else {
                longer[i - 1].metadata.hash
            })
        } by {
            if i < blocks.len() {
                assert(longer[i] == blocks[i]);
                if i > 0 {
                    assert(longer[i - 1] == blocks[i - 1]);
                }
            }
        }
    }
}

/// A chain whose every block one key accepts is trusted by every set of keys
/// that holds this key.
pub proof fn lemma_signer_is_trusted(blocks: Seq<BlockView>, keys: Seq<KeyManager>, k: int)
    requires
        0 <= k < keys.len(),
        all_accepted_by(blocks, keys[k]@),
    ensures
        all_trusted(blocks, keys),
{
    assert forall|i: int| 0 <= i < blocks.len() implies is_trusted(#[trigger] blocks[i], keys) by {
        assert(blocks[i].accepted_by(keys[k]@));
    }
}

/// A chain that a set of keys trusts is still trusted by it when a block
/// that one of the keys accepts is appended: the blocks of a chain need not
/// share one signer.
pub proof fn lemma_trust_grows_block_by_block(
    blocks: Seq<BlockView>,
    block: BlockView,
    keys: Seq<KeyManager>,
    k: int,
)
    requires
        all_trusted(blocks, keys),
        0 <= k < keys.len(),
        block.accepted_by(keys[k]@),
    ensures
        all_trusted(blocks.push(block), keys),
{
    let longer = blocks.push(block);
    assert(is_trusted(block, keys));
    assert forall|i: int| 0 <= i < longer.len() implies is_trusted(#[trigger] longer[i], keys) by {
        if i < blocks.len() {
            assert(longer[i] == blocks[i]);
        }
    }
}

/// A chain whose first block no key of the set accepts fails the check of
/// its signatures at the first block, and at no other.
pub proof fn lemma_stranger_fails_at_first_block(
    blocks: Seq<BlockView>,
    keys: Seq<KeyManager>,
    i: int,
)
    requires
        blocks.len() > 0,
        !is_trusted(blocks[0], keys),
    ensures
        !all_trusted(blocks, keys),
        is_first_untrusted(blocks, keys, 0),
        is_first_untrusted(blocks, keys, i) ==> i == 0,
{
    if is_first_untrusted(blocks, keys, i) && i != 0 {
        assert(blocks.take(i)[0] == blocks[0]);
    }
}

/// At most one block is the first that the keys do not trust, so the report
/// of a failed check names one block and no other.
pub proof fn lemma_first_untrusted_is_unique(
    blocks: Seq<BlockView>,
    keys: Seq<KeyManager>,
    i: int,
    j: int,
)
    requires
        is_first_untrusted(blocks, keys, i),
        is_first_untrusted(blocks, keys, j),
    ensures
        i == j,
{
    if i < j {
        assert(blocks.take(j)[i] == blocks[i]);
    }
    if j < i {
        assert(blocks.take(i)[j] == blocks[j]);
    }
}

/// At most one block is the first whose stored hash does not hold.
pub proof fn lemma_first_broken_is_unique(blocks: Seq<BlockView>, i: int, j: int)
    requires
        is_first_broken(blocks, i),
        is_first_broken(blocks, j),
    ensures
        i == j,
{
    if i < j {
        assert(blocks.take(j)[i] == blocks[i]);
    }
    if j < i {
        assert(blocks.take(i)[j] == blocks[j]);
    }
}

/// A chain of blocks.  It starts empty and grows by one block at a time; no
/// block in it is ever changed or removed.
pub struct Chain {
    blocks: Vec<Block>,
}

impl View for Chain {
    type V = Seq<BlockView>;

    closed spec fn view(&self) -> Seq<BlockView> {
        self.blocks@.map_values(|block: Block| block@)
    }
}

impl Chain {
    #[verifier::type_invariant]
    spec fn linked(self) -> bool {
        is_linked(self@)
    }

    /// An empty chain.
    pub fn new() -> (res: Chain)
        ensures
            res@ == Seq::<BlockView>::empty(),
            is_linked(res@),
    {
        Chain { blocks: Vec::new() }
    }

    /// The number of blocks.
    pub fn len(&self) -> (res: usize)
        ensures
            res == self@.len(),
            is_linked(self@),
    {
        proof {
            use_type_invariant(self);
        }
        self.blocks.len()
    }

    /// The block at position `index`, if there is one.
    pub fn get(&self, index: usize) -> (res: Option<&Block>)
        ensures
            res is Some <==> index < self@.len(),
            res matches Some(block) ==> block@ == self@[index as int],
    {
        if index < self.blocks.len() {
            Some(&self.blocks[index])
        } else {
            None
        }
    }

    /// Appends a block for `data`, stamped with the current time and signed
    /// by `key_manager`.
    ///
    /// The time is whatever the clock shows: on success the chain is the one
    /// that `add_block_at` gives for that time, and on failure it is
    /// unchanged.
    pub fn add_block(&mut self, data: &str, key_manager: KeyManager) -> (res: Result<(), ChainError>)
        ensures
            is_linked(final(self)@),
            match res {
                Ok(()) => extended(
                    old(self)@,
                    data@,
                    key_manager@,
                    final(self)@.last().metadata.date,
                ) == Ok::<Seq<BlockView>, ChainError>(final(self)@),
                Err(_) => final(self)@ == old(self)@,
            },
            res == Err::<(), ChainError>(ChainError::Full) <==> old(self)@.len() >= MAX_BLOCKS,
            res matches Err(ChainError::Block(BlockError::Key(e))) ==> exists|date: u64|
                #[trigger] extended(old(self)@, data@, key_manager@, date as int) == Err::<
                    Seq<BlockView>,
                    ChainError,
                >(ChainError::Block(BlockError::Key(e))),
            res is Ok ==> final(self)@.last().hash_holds(),
            res is Ok && key_manager@.is_matched() ==> final(self)@.last().accepted_by(
                key_manager@,
            ),
            res is Ok && all_hashes_hold(old(self)@) ==> all_hashes_hold(final(self)@),
            res is Ok && key_manager@.is_matched() && all_accepted_by(old(self)@, key_manager@)
                ==> all_accepted_by(final(self)@, key_manager@),
    {
        proof {
            use_type_invariant(&*self);
        }
        if self.blocks.len() >= MAX_BLOCKS {
            return Err(ChainError::Full);
        }
        match unix_seconds() {
            None => Err(ChainError::Block(BlockError::Clock)),
            Some(date) => self.add_block_at(data, &key_manager, date),
        }
    }

    /// Appends a block for `data`, stamped with `date` and signed by
    /// `key_manager`.
    ///
    /// The block takes the length of the chain as its number and the hash of
    /// the last block, or the empty text, as its predecessor's hash.  Fails
    /// with `Full` exactly when no block number is left, and otherwise
    /// exactly when the key cannot sign, with the key's error; a chain that
    /// could not be extended is unchanged.
    pub fn add_block_at(&mut self, data: &str, key_manager: &KeyManager, date: u64) -> (res: Result<
        (),
        ChainError,
    >)
        ensures
            is_linked(final(self)@),
            match res {
                Ok(()) => extended(old(self)@, data@, key_manager@, date as int) == Ok::<
                    Seq<BlockView>,
                    ChainError,
                >(final(self)@),
                Err(e) => extended(old(self)@, data@, key_manager@, date as int) == Err::<
                    Seq<BlockView>,
                    ChainError,
                >(e) && final(self)@ == old(self)@,
            },
            res is Ok ==> final(self)@.last().hash_holds(),
            res is Ok && key_manager@.is_matched() ==> final(self)@.last().accepted_by(
                key_manager@,
            ),
            res is Ok && all_hashes_hold(old(self)@) ==> all_hashes_hold(final(self)@),
            res is Ok && key_manager@.is_matched() && all_accepted_by(old(self)@, key_manager@)
                ==> all_accepted_by(final(self)@, key_manager@),
    {
        proof {
            use_type_invariant(&*self);
        }
        let length = self.blocks.len();
        if length >= MAX_BLOCKS {
            return Err(ChainError::Full);
        }
        let previous_hash = if length == 0 {
            proof {
                reveal_strlit("");
            }
            ""
        } else {
            self.blocks[length - 1].metadata.hash.as_str()
        };
        assert(previous_hash@ =~= predecessor_hash(self@));
        match Block::with_date(length as i32, date, previous_hash, key_manager, data) {
            Err(e) => Err(ChainError::Block(BlockError::Key(e))),
            Ok(block) => {
                proof {
                    lemma_push_keeps(self@, block@, key_manager@);
                }
                let mut blocks = Vec::new();
                core::mem::swap(&mut blocks, &mut self.blocks);
                blocks.push(block);
                assert(blocks@.map_values(|block: Block| block@) =~= old(self)@.push(block@));
                self.blocks = blocks;
                Ok(())
            },
        }
    }

    /// Checks every block against a set of trusted keys.
    ///
    /// A block is trusted when any one of the keys accepts its signature.
    /// Succeeds exactly when every block is trusted; otherwise the report
    /// names the first block that is not, by the canonical form of its
    /// metadata.
    pub fn verify_with_keys(&self, keys: Vec<KeyManager>) -> (res: Result<(), String>)
        ensures
            res is Ok <==> all_trusted(self@, keys@),
            res matches Err(report) ==> exists|i: int|
                #![trigger self@[i]]
                is_first_untrusted(self@, keys@, i) && report@ == untrusted_report(self@[i]),
    {
        let mut i: usize = 0;
        while i < self.blocks.len()
            invariant
                i <= self.blocks.len(),
                all_trusted(self@.take(i as int), keys@),
            decreases self.blocks.len() - i,
        {
            let block = &self.blocks[i];
            if !Chain::trusts(block, &keys) {
                let mut report = String::from_str("Can't verify signature of block ");
                report.append(block.metadata.to_json().as_str());
                assert(is_first_untrusted(self@, keys@, i as int));
                return Err(report);
            }
            assert(self@.take(i + 1) =~= self@.take(i as int).push(self@[i as int]));
            i += 1;
        }
        assert(self@.take(i as int) =~= self@);
        Ok(())
    }

    /// Whether some key of `keys` accepts the signature of `block`.  The keys
    /// are tried in order, up to the first that accepts.
    pub fn trusts(block: &Block, keys: &Vec<KeyManager>) -> (res: bool)
        ensures
            res == is_trusted(block@, keys@),
    {
        let mut k: usize = 0;
        while k < keys.len()
            invariant
                k <= keys.len(),
                forall|j: int| 0 <= j < k ==> !block@.accepted_by((#[trigger] keys@[j])@),
            decreases keys.len() - k,
        {
            match block.check_signature(&keys[k]) {
                Ok(()) => {
                    return true;
                },
                Err(_) => {},
            }
            k += 1;
        }
        false
    }

    /// Checks the stored hash of every block against its stored payload.
    ///
    /// Succeeds exactly when every stored hash holds; otherwise the report is
    /// that of the first block whose hash does not.
    pub fn verify_with_hashes(&self) -> (res: Result<(), String>)
        ensures
            res is Ok <==> all_hashes_hold(self@),
            res matches Err(report) ==> exists|i: int|
                #![trigger self@[i]]
                is_first_broken(self@, i) && report@ == self@[i].hash_report(),
    {
        let mut i: usize = 0;
        while i < self.blocks.len()
            invariant
                i <= self.blocks.len(),
                all_hashes_hold(self@.take(i as int)),
            decreases self.blocks.len() - i,
        {
            match self.blocks[i].verify_hash() {
                Ok(()) => {},
                Err(report) => {
                    assert(is_first_broken(self@, i as int));
                    return Err(report);
                },
            }
            assert(self@.take(i + 1) =~= self@.take(i as int).push(self@[i as int]));
            i += 1;
        }
        assert(self@.take(i as int) =~= self@);
        Ok(())
    }
}

} // verus!
