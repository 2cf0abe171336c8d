use rsa::RsaPrivateKey;
use sigchain::block::BlockError;
use sigchain::chain::{Chain, ChainError, MAX_BLOCKS};
use sigchain::key_manager::{KeyError, KeyManager};

fn small_key() -> KeyManager {
    let mut rng = rand::thread_rng();
    KeyManager::from_rsa_key(&RsaPrivateKey::new(&mut rng, 1024).unwrap()).unwrap()
}

fn json_of(chain: &Chain, index: usize) -> String {
    chain.get(index).unwrap().metadata.to_json()
}

#[test]
fn a_new_chain_is_empty() {
    let chain = Chain::new();
    assert_eq!(chain.len(), 0);
    assert!(chain.get(0).is_none());
    assert_eq!(MAX_BLOCKS, 2147483648);
}

#[test]
fn an_empty_chain_passes_both_checks() {
    let chain = Chain::new();
    assert_eq!(chain.verify_with_keys(vec![]), Ok(()));
    assert_eq!(chain.verify_with_keys(vec![small_key()]), Ok(()));
    assert_eq!(chain.verify_with_hashes(), Ok(()));
}

#[test]
fn add_block_links_each_block_to_the_one_before() {
    let key = small_key();
    let mut chain = Chain::new();
    for payload in ["first", "second", "third", "fourth"] {
        assert_eq!(chain.add_block(payload, key.clone()), Ok(()));
    }
    assert_eq!(chain.len(), 4);
    assert_eq!(chain.get(0).unwrap().metadata.previous_hash, "");
    for i in 1..4 {
        assert_eq!(
            chain.get(i).unwrap().metadata.previous_hash,
            chain.get(i - 1).unwrap().metadata.hash
        );
    }
    for i in 0..4 {
        assert_eq!(chain.get(i).unwrap().metadata.id, i as i32);
    }
    assert!(chain.get(4).is_none());
}

#[test]
fn add_block_keeps_payload_order_and_signer() {
    let a = small_key();
    let b = small_key();
    let mut chain = Chain::new();
    chain.add_block("random data", a.clone()).unwrap();
    chain.add_block("random data 2", b.clone()).unwrap();
    assert_eq!(chain.get(0).unwrap().data, "random data");
    assert_eq!(chain.get(1).unwrap().data, "random data 2");
    assert_eq!(chain.get(0).unwrap().metadata.hash_key, a.public_key_hash());
    assert_eq!(chain.get(1).unwrap().metadata.hash_key, b.public_key_hash());
    assert_eq!(chain.get(0).unwrap().verify_signature(a), Ok(()));
    assert_eq!(chain.get(1).unwrap().verify_signature(b), Ok(()));
}

#[test]
fn add_block_at_stamps_the_given_date() {
    let key = small_key();
    let mut chain = Chain::new();
    assert_eq!(chain.add_block_at("first", &key, 1700000000), Ok(()));
    assert_eq!(chain.add_block_at("second", &key, 1700000001), Ok(()));
    let first = chain.get(0).unwrap();
    let second = chain.get(1).unwrap();
    assert_eq!(
        first.metadata.to_json(),
        format!(
            "{{\"id\":0,\"date\":1700000000,\"previous_hash\":\"\",\"hash_key\":\"{}\"}}",
            key.public_key_hash()
        )
    );
    assert_eq!(
        second.metadata.to_json(),
        format!(
            "{{\"id\":1,\"date\":1700000001,\"previous_hash\":\"{}\",\"hash_key\":\"{}\"}}",
            first.metadata.hash,
            key.public_key_hash()
        )
    );
    assert_eq!(first.metadata.hash, sha256::digest(first.metadata.to_json() + "first"));
    assert_eq!(second.metadata.hash, sha256::digest(second.metadata.to_json() + "second"));
    assert_eq!(second.signature, key.sign(second.metadata.to_json().as_bytes()).unwrap());
}

#[test]
fn a_block_that_cannot_be_signed_is_not_added() {
    let good = small_key();
    let bad = KeyManager::from(b"not a key", &good.public_key());
    let mut chain = Chain::new();
    assert_eq!(
        chain.add_block("first", bad.clone()),
        Err(ChainError::Block(BlockError::Key(KeyError::Decode)))
    );
    assert_eq!(chain.len(), 0);
    chain.add_block("first", good.clone()).unwrap();
    let hash = chain.get(0).unwrap().metadata.hash.clone();
    assert_eq!(
        chain.add_block_at("second", &bad, 5),
        Err(ChainError::Block(BlockError::Key(KeyError::Decode)))
    );
    assert_eq!(chain.len(), 1);
    assert_eq!(chain.get(0).unwrap().metadata.hash, hash);
    chain.add_block("second", good).unwrap();
    assert_eq!(chain.get(1).unwrap().metadata.id, 1);
    assert_eq!(chain.get(1).unwrap().metadata.previous_hash, hash);
}

#[test]
fn a_chain_signed_by_one_key_is_trusted_by_that_key() {
    let a = small_key();
    let mut chain = Chain::new();
    for payload in ["first", "second", "third"] {
        chain.add_block(payload, a.clone()).unwrap();
    }
    assert_eq!(chain.verify_with_keys(vec![a.clone()]), Ok(()));
    for i in 0..3 {
        assert_eq!(chain.get(i).unwrap().verify_signature(a.clone()), Ok(()));
    }
}

#[test]
fn a_chain_signed_by_one_key_fails_at_the_first_block_for_another() {
    let a = small_key();
    let b = small_key();
    let mut chain = Chain::new();
    for payload in ["first", "second", "third"] {
        chain.add_block(payload, a.clone()).unwrap();
    }
    let expected = format!("Can't verify signature of block {}", json_of(&chain, 0));
    assert_eq!(chain.verify_with_keys(vec![b.clone()]), Err(expected.clone()));
    assert_eq!(chain.verify_with_keys(vec![]), Err(expected));
    assert!(json_of(&chain, 0).starts_with("{\"id\":0,"));
}

#[test]
fn any_one_key_of_the_set_makes_a_block_trusted() {
    let a = small_key();
    let b = small_key();
    let c = small_key();
    let mut chain = Chain::new();
    chain.add_block("by a", a.clone()).unwrap();
    chain.add_block("by b", b.clone()).unwrap();
    chain.add_block("by a again", a.clone()).unwrap();
    assert_eq!(chain.verify_with_keys(vec![a.clone(), b.clone()]), Ok(()));
    assert_eq!(chain.verify_with_keys(vec![b.clone(), a.clone()]), Ok(()));
    assert_eq!(chain.verify_with_keys(vec![c.clone(), b.clone(), c.clone(), a.clone()]), Ok(()));
    let at_second = format!("Can't verify signature of block {}", json_of(&chain, 1));
    assert_eq!(chain.verify_with_keys(vec![a.clone()]), Err(at_second.clone()));
    assert_eq!(chain.verify_with_keys(vec![a.clone(), c.clone()]), Err(at_second));
    let at_first = format!("Can't verify signature of block {}", json_of(&chain, 0));
    assert_eq!(chain.verify_with_keys(vec![b.clone()]), Err(at_first.clone()));
    assert_eq!(chain.verify_with_keys(vec![c]), Err(at_first));
}

#[test]
fn a_key_that_does_not_decode_is_passed_over() {
    let a = small_key();
    let junk = KeyManager::from(b"junk", b"junk");
    let mut chain = Chain::new();
    chain.add_block("first", a.clone()).unwrap();
    assert_eq!(chain.verify_with_keys(vec![junk.clone(), a.clone()]), Ok(()));
    assert!(chain.verify_with_keys(vec![junk]).is_err());
}

#[test]
fn a_key_with_the_same_public_half_is_trusted_too() {
    let a = small_key();
    let b = small_key();
    let twin = KeyManager::from(&b.private_key(), &a.public_key());
    let mut chain = Chain::new();
    chain.add_block("first", a.clone()).unwrap();
    assert_ne!(twin.private_key(), a.private_key());
    assert_eq!(chain.verify_with_keys(vec![twin]), Ok(()));
}

#[test]
fn trusts_tries_every_key() {
    let a = small_key();
    let b = small_key();
    let mut chain = Chain::new();
    chain.add_block("first", a.clone()).unwrap();
    let block = chain.get(0).unwrap();
    assert!(Chain::trusts(block, &vec![a.clone()]));
    assert!(Chain::trusts(block, &vec![b.clone(), a.clone()]));
    assert!(Chain::trusts(block, &vec![a.clone(), b.clone()]));
    assert!(!Chain::trusts(block, &vec![b]));
    assert!(!Chain::trusts(block, &vec![]));
}

#[test]
fn a_chain_built_by_add_block_passes_the_hash_check() {
    let a = small_key();
    let b = small_key();
    let mut chain = Chain::new();
    chain.add_block("first", a).unwrap();
    chain.add_block("second", b).unwrap();
    assert_eq!(chain.verify_with_hashes(), Ok(()));
    for i in 0..2 {
        let block = chain.get(i).unwrap();
        assert_eq!(block.verify_hash(), Ok(()));
        assert_eq!(block.metadata.generate_hash(&block.data), block.metadata.hash);
    }
}

#[test]
fn two_blocks_by_a_generated_key() {
    let a = KeyManager::generate().unwrap();
    let mut chain = Chain::new();
    chain.add_block("p1", a.clone()).unwrap();
    chain.add_block("p2", a.clone()).unwrap();
    assert_eq!(chain.verify_with_keys(vec![a.clone()]), Ok(()));
    assert_eq!(chain.verify_with_hashes(), Ok(()));
    assert_eq!(chain.get(0).unwrap().metadata.previous_hash, "");
    assert_eq!(
        chain.get(1).unwrap().metadata.previous_hash,
        chain.get(0).unwrap().metadata.hash
    );

    let second = chain.get(1).unwrap();
    let mut tampered = sigchain::block::Block::with_date(
        second.metadata.id,
        second.metadata.date,
        &second.metadata.previous_hash,
        &a,
        "p2",
    )
    .unwrap();
    assert_eq!(tampered.metadata.hash, second.metadata.hash);
    assert_eq!(tampered.signature, second.signature);
    tampered.data = String::from("p2-tampered");
    assert_eq!(
        tampered.verify_hash(),
        Err(format!("Can't validate hash of block {}", second.metadata.to_json()))
    );
    assert_eq!(tampered.verify_signature(a), Ok(()));
    assert_eq!(second.verify_hash(), Ok(()));
}

#[test]
fn a_key_that_cannot_be_used_for_signing_adds_no_block() {
    let mut rng = rand::thread_rng();
    let long = rsa::traits::PrivateKeyParts::primes(&RsaPrivateKey::new(&mut rng, 1024).unwrap())
        [0]
        .clone();
    let lopsided = RsaPrivateKey::from_p_q(
        rsa::BigUint::from(251u32),
        long,
        rsa::BigUint::from(65537u32),
    )
    .unwrap();
    let key = KeyManager::from_rsa_key(&lopsided).unwrap();
    let mut chain = Chain::new();
    assert_eq!(
        chain.add_block("first", key.clone()),
        Err(ChainError::Block(BlockError::Key(KeyError::Unbalanced)))
    );
    assert_eq!(
        chain.add_block_at("first", &key, 5),
        Err(ChainError::Block(BlockError::Key(KeyError::Unbalanced)))
    );
    assert_eq!(chain.len(), 0);
    assert_eq!(
        sigchain::block::Block::with_date(0, 5, "", &key, "first").err(),
        Some(KeyError::Unbalanced)
    );
}

#[test]
fn two_signers_are_trusted_by_the_set_of_both() {
    let a = small_key();
    let b = small_key();
    let mut chain = Chain::new();
    chain.add_block("random data", a.clone()).unwrap();
    chain.add_block("random data 2", b.clone()).unwrap();
    assert_eq!(chain.verify_with_keys(vec![a, b]), Ok(()));
}
