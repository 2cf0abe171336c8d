use rsa::RsaPrivateKey;
use sigchain::block::{Block, BlockError};
use sigchain::key_manager::{KeyError, KeyManager};
use std::time::{SystemTime, UNIX_EPOCH};

fn small_key() -> KeyManager {
    let mut rng = rand::thread_rng();
    KeyManager::from_rsa_key(&RsaPrivateKey::new(&mut rng, 1024).unwrap()).unwrap()
}

fn now() -> u64 {
    SystemTime::now().duration_since(UNIX_EPOCH).unwrap().as_secs()
}

#[test]
fn with_date_fills_the_block() {
    let key = small_key();
    let block = Block::with_date(4, 1700000000, "previous", &key, "payload").unwrap();
    assert_eq!(block.metadata.id, 4);
    assert_eq!(block.metadata.date, 1700000000);
    assert_eq!(block.metadata.previous_hash, "previous");
    assert_eq!(block.metadata.hash_key, key.public_key_hash());
    assert_eq!(block.data, "payload");
    let json = format!(
        "{{\"id\":4,\"date\":1700000000,\"previous_hash\":\"previous\",\"hash_key\":\"{}\"}}",
        key.public_key_hash()
    );
    assert_eq!(block.metadata.to_json(), json);
    assert_eq!(block.metadata.hash, sha256::digest(json.clone() + "payload"));
    assert_eq!(block.signature, key.sign(json.as_bytes()).unwrap());
}

#[test]
fn with_date_is_the_same_for_the_same_input() {
    let key = small_key();
    let one = Block::with_date(0, 5, "", &key, "p").unwrap();
    let other = Block::with_date(0, 5, "", &key, "p").unwrap();
    assert_eq!(one.metadata.hash, other.metadata.hash);
    assert_eq!(one.signature, other.signature);
    let later = Block::with_date(0, 6, "", &key, "p").unwrap();
    assert_ne!(one.metadata.hash, later.metadata.hash);
    assert_ne!(one.signature, later.signature);
}

#[test]
fn with_date_fails_with_the_error_of_the_key() {
    let good = small_key();
    let bad = KeyManager::from(b"not a key", &good.public_key());
    assert_eq!(Block::with_date(0, 5, "", &bad, "p").err(), Some(KeyError::Decode));
}

#[test]
fn new_stamps_the_current_time() {
    let key = small_key();
    let before = now();
    let block = Block::new(0, "", key.clone(), "{'h': 12}").unwrap();
    let after = now();
    assert!(before <= block.metadata.date && block.metadata.date <= after);
    assert!(block.metadata.date > 1_600_000_000);
    let same = Block::with_date(0, block.metadata.date, "", &key, "{'h': 12}").unwrap();
    assert_eq!(block.metadata.to_json(), same.metadata.to_json());
    assert_eq!(block.metadata.hash, same.metadata.hash);
    assert_eq!(block.data, same.data);
    assert_eq!(block.signature, same.signature);
}

#[test]
fn new_fails_with_the_error_of_the_key() {
    let good = small_key();
    let bad = KeyManager::from(&[0xff], &good.public_key());
    assert_eq!(Block::new(0, "", bad, "p").err(), Some(BlockError::Key(KeyError::Decode)));
}

#[test]
fn a_new_block_passes_both_checks() {
    let key = small_key();
    let block = Block::new(0, "", key.clone(), "payload").unwrap();
    assert_eq!(block.verify_hash(), Ok(()));
    assert_eq!(block.verify_signature(key.clone()), Ok(()));
    assert_eq!(block.check_signature(&key), Ok(()));
    assert_eq!(block.metadata.generate_hash(&block.data), block.metadata.hash);
}

#[test]
fn verify_signature_reports_the_block_to_another_key() {
    let a = small_key();
    let b = small_key();
    let block = Block::with_date(3, 42, "abc", &a, "payload").unwrap();
    let expected = format!(
        "Can't validate signature of block {{\"id\":3,\"date\":42,\"previous_hash\":\"abc\",\"hash_key\":\"{}\"}}",
        a.public_key_hash()
    );
    assert_eq!(block.verify_signature(b.clone()), Err(expected.clone()));
    assert_eq!(block.check_signature(&b), Err(expected.clone()));
    let undecodable = KeyManager::from(&a.private_key(), b"junk");
    assert_eq!(block.verify_signature(undecodable), Err(expected));
    assert_eq!(block.verify_signature(a), Ok(()));
}

#[test]
fn verify_signature_covers_the_metadata() {
    let key = small_key();
    let mut block = Block::with_date(3, 42, "abc", &key, "payload").unwrap();
    block.metadata.date = 43;
    assert!(block.verify_signature(key.clone()).is_err());
    block.metadata.date = 42;
    assert_eq!(block.verify_signature(key.clone()), Ok(()));
    block.metadata.previous_hash = String::from("abd");
    assert!(block.verify_signature(key.clone()).is_err());
    block.metadata.previous_hash = String::from("abc");
    block.signature[0] ^= 0x80;
    assert!(block.verify_signature(key).is_err());
}

#[test]
fn signature_outcome_follows_the_verdict() {
    assert_eq!(Block::signature_outcome(Ok(()), "{}"), Ok(()));
    assert_eq!(
        Block::signature_outcome(Err(KeyError::Verify), "{\"id\":1}"),
        Err(String::from("Can't validate signature of block {\"id\":1}"))
    );
    assert_eq!(
        Block::signature_outcome(Err(KeyError::Decode), ""),
        Err(String::from("Can't validate signature of block "))
    );
}

#[test]
fn verify_hash_reports_a_changed_payload() {
    let key = small_key();
    let mut block = Block::with_date(1, 42, "abc", &key, "second").unwrap();
    assert_eq!(block.verify_hash(), Ok(()));
    block.data = String::from("second, tampered");
    let expected = format!(
        "Can't validate hash of block {{\"id\":1,\"date\":42,\"previous_hash\":\"abc\",\"hash_key\":\"{}\"}}",
        key.public_key_hash()
    );
    assert_eq!(block.verify_hash(), Err(expected));
    block.data = String::from("second");
    assert_eq!(block.verify_hash(), Ok(()));
}

#[test]
fn verify_hash_reports_a_changed_hash_or_field() {
    let key = small_key();
    let mut block = Block::with_date(1, 42, "abc", &key, "second").unwrap();
    let hash = block.metadata.hash.clone();
    block.metadata.hash = String::from("00");
    assert!(block.verify_hash().is_err());
    block.metadata.hash = hash;
    assert_eq!(block.verify_hash(), Ok(()));
    block.metadata.id = 2;
    assert!(block.verify_hash().is_err());
}

#[test]
fn a_changed_payload_leaves_the_signature_valid() {
    let key = small_key();
    let mut block = Block::with_date(1, 42, "abc", &key, "second").unwrap();
    block.data = String::from("second, tampered");
    assert!(block.verify_hash().is_err());
    assert_eq!(block.verify_signature(key.clone()), Ok(()));
    block.metadata.hash = block.metadata.generate_hash("second, tampered");
    assert_eq!(block.verify_hash(), Ok(()));
    assert_eq!(block.verify_signature(key), Ok(()));
}

#[test]
fn the_two_checks_are_independent() {
    let a = small_key();
    let b = small_key();
    let block = Block::with_date(0, 1, "", &a, "data").unwrap();
    assert_eq!(block.verify_hash(), Ok(()));
    assert!(block.verify_signature(b).is_err());
}
