//! The positional, linkage and identity fields of a block, and the digest
//! that binds them to a payload.

use crate::digest::{sha256_hex, sha256_text};
use crate::json::{
    decimal, is_number_char, lemma_decimal_delimited, lemma_quoted_delimited, push_digits,
    push_i32, push_quoted, quoted,
};
use vstd::prelude::*;
use vstd::utf8::encode_utf8;

verus! {

/// The canonical form of the four fields that identify a block: a JSON object
/// without whitespace whose keys are `id`, `date`, `previous_hash` and
/// `hash_key`, in this order.
pub open spec fn canonical_json(
    id: int,
    date: int,
    previous_hash: Seq<char>,
    hash_key: Seq<char>,
) -> Seq<char> {
    "{\"id\":"@ + decimal(id) + ",\"date\":"@ + decimal(date) + ",\"previous_hash\":"@ + quoted(
        previous_hash,
    ) + ",\"hash_key\":"@ + quoted(hash_key) + "}"@
}

/// Two texts that begin alike and are the same text go on alike.
proof fn lemma_same_beginning(beginning: Seq<char>, rest: Seq<char>, other_rest: Seq<char>)
    requires
        beginning + rest == beginning + other_rest,
    ensures
        rest == other_rest,
{
    assert(rest =~= (beginning + rest).skip(beginning.len() as int));
    assert(other_rest =~= (beginning + other_rest).skip(beginning.len() as int));
}

/// The canonical form, put together from its end: each key with what comes
/// after it.
proof fn lemma_canonical_json_parts(
    id: int,
    date: int,
    previous_hash: Seq<char>,
    hash_key: Seq<char>,
) -> (parts: (Seq<char>, Seq<char>, Seq<char>))
    ensures
        canonical_json(id, date, previous_hash, hash_key) == "{\"id\":"@ + (decimal(id) + parts.0),
        parts.0 == ",\"date\":"@ + (decimal(date) + parts.1),
        parts.1 == ",\"previous_hash\":"@ + (quoted(previous_hash) + parts.2),
        parts.2 == ",\"hash_key\":"@ + (quoted(hash_key) + "}"@),
        parts.0.len() > 0 && !is_number_char(parts.0[0]),
        parts.1.len() > 0 && !is_number_char(parts.1[0]),
{
    let after_key = ",\"hash_key\":"@ + (quoted(hash_key) + "}"@);
    let after_previous = ",\"previous_hash\":"@ + (quoted(previous_hash) + after_key);
    let after_date = ",\"date\":"@ + (decimal(date) + after_previous);
    assert(",\"date\":"@.len() > 0 && ",\"date\":"@[0] == ',') by {
        reveal_strlit(",\"date\":");
    }
    assert(",\"previous_hash\":"@.len() > 0 && ",\"previous_hash\":"@[0] == ',') by {
        reveal_strlit(",\"previous_hash\":");
    }
    assert(after_date[0] == ',');
    assert(after_previous[0] == ',');
    assert(canonical_json(id, date, previous_hash, hash_key) =~= "{\"id\":"@ + (decimal(id)
        + after_date));
    (after_date, after_previous, after_key)
}

/// The canonical form tells the four fields apart: two records with the same
/// canonical form have the same `id`, `date`, `previous_hash` and `hash_key`.
pub proof fn lemma_canonical_json_injective(
    id: int,
    date: int,
    previous_hash: Seq<char>,
    hash_key: Seq<char>,
    other_id: int,
    other_date: int,
    other_previous_hash: Seq<char>,
    other_hash_key: Seq<char>,
)
    requires
        canonical_json(id, date, previous_hash, hash_key) == canonical_json(
            other_id,
            other_date,
            other_previous_hash,
            other_hash_key,
        ),
    ensures
        id == other_id,
        date == other_date,
        previous_hash == other_previous_hash,
        hash_key == other_hash_key,
{
    let parts = lemma_canonical_json_parts(id, date, previous_hash, hash_key);
    let other = lemma_canonical_json_parts(
        other_id,
        other_date,
        other_previous_hash,
        other_hash_key,
    );
    lemma_same_beginning("{\"id\":"@, decimal(id) + parts.0, decimal(other_id) + other.0);
    lemma_decimal_delimited(id, parts.0, other_id, other.0);
    lemma_same_beginning(",\"date\":"@, decimal(date) + parts.1, decimal(other_date) + other.1);
    lemma_decimal_delimited(date, parts.1, other_date, other.1);
    lemma_same_beginning(
        ",\"previous_hash\":"@,
        quoted(previous_hash) + parts.2,
        quoted(other_previous_hash) + other.2,
    );
    lemma_quoted_delimited(previous_hash, parts.2, other_previous_hash, other.2);
    lemma_same_beginning(
        ",\"hash_key\":"@,
        quoted(hash_key) + "}"@,
        quoted(other_hash_key) + "}"@,
    );
    lemma_quoted_delimited(hash_key, "}"@, other_hash_key, "}"@);
}

/// The digest that binds the four fields to a payload: SHA-256, in
/// hexadecimal, of the canonical form followed by the payload as it is.
pub open spec fn bound_hash(
    id: int,
    date: int,
    previous_hash: Seq<char>,
    hash_key: Seq<char>,
    data: Seq<char>,
) -> Seq<char> {
    sha256_hex(encode_utf8(canonical_json(id, date, previous_hash, hash_key) + data))
}

/// What a `BlockMetadata` holds.
pub struct MetadataView {
    pub id: int,
    pub date: int,
    pub previous_hash: Seq<char>,
    pub hash_key: Seq<char>,
    pub hash: Seq<char>,
}

impl MetadataView {
    /// The canonical form of the metadata.  The stored hash is no part of it.
    pub open spec fn json(self) -> Seq<char> {
        canonical_json(self.id, self.date, self.previous_hash, self.hash_key)
    }

    /// The digest that binds the metadata to `data`.
    pub open spec fn hash_of(self, data: Seq<char>) -> Seq<char> {
        bound_hash(self.id, self.date, self.previous_hash, self.hash_key, data)
    }
}

/// The metadata of a block: its position in the chain, the time it was made,
/// the hash of its predecessor, the fingerprint of its signer, and the digest
/// that bound these to the payload when the block was made.
pub struct BlockMetadata {
    pub id: i32,
    pub date: u64,
    pub previous_hash: String,
    pub hash_key: String,
    pub hash: String,
}

impl View for BlockMetadata {
    type V = MetadataView;

    open spec fn view(&self) -> MetadataView {
        MetadataView {
            id: self.id as int,
            date: self.date as int,
            previous_hash: self.previous_hash@,
            hash_key: self.hash_key@,
            hash: self.hash@,
        }
    }
}

impl BlockMetadata {
    /// Metadata for a payload; the hash is computed here, once.
    pub fn new(id: i32, date: u64, previous_hash: &str, hash_key: &str, data: &str) -> (res:
        BlockMetadata)
        ensures
            res@.id == id,
            res@.date == date,
            res@.previous_hash == previous_hash@,
            res@.hash_key == hash_key@,
            res@.hash == bound_hash(id as int, date as int, previous_hash@, hash_key@, data@),
            res@.hash == res@.hash_of(data@),
    {
        BlockMetadata {
            id,
            date,
            previous_hash: String::from_str(previous_hash),
            hash_key: String::from_str(hash_key),
            hash: BlockMetadata::_generate_hash(id, date, previous_hash, hash_key, data),
        }
    }

    /// The digest that binds this metadata to `data`, computed afresh.
    pub fn generate_hash(&self, data: &str) -> (res: String)
        ensures
            res@ == self@.hash_of(data@),
    {
        BlockMetadata::_generate_hash(
            self.id,
            self.date,
            self.previous_hash.as_str(),
            self.hash_key.as_str(),
            data,
        )
    }

    fn _generate_hash(id: i32, date: u64, previous_hash: &str, hash_key: &str, data: &str) -> (res:
        String)
        ensures
            res@ == bound_hash(id as int, date as int, previous_hash@, hash_key@, data@),
    {
        let mut text = BlockMetadata::canonical(id, date, previous_hash, hash_key);
        text.append(data);
        sha256_text(text.as_str().as_bytes())
    }

    fn canonical(id: i32, date: u64, previous_hash: &str, hash_key: &str) -> (res: String)
        ensures
            res@ == canonical_json(id as int, date as int, previous_hash@, hash_key@),
    {
        let mut text = String::from_str("{\"id\":");
        push_i32(&mut text, id);
        text.append(",\"date\":");
        push_digits(&mut text, date);
        text.append(",\"previous_hash\":");
        push_quoted(&mut text, previous_hash);
        text.append(",\"hash_key\":");
        push_quoted(&mut text, hash_key);
        text.append("}");
        text
    }

    /// The canonical form of the metadata: what a signature is made over.
    /// It holds `id`, `date`, `previous_hash` and `hash_key`, and not `hash`.
    pub fn to_json(&self) -> (res: String)
        ensures
            res@ == self@.json(),
    {
        BlockMetadata::canonical(
            self.id,
            self.date,
            self.previous_hash.as_str(),
            self.hash_key.as_str(),
        )
    }
}

} // verus!
