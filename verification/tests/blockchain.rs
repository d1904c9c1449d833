use mini_blockchain::chain::blockchain::{default_difficulty, Blockchain};
use mini_blockchain::crypto::transaction::Transaction;
use mini_blockchain::crypto::wallet::Wallet;
use mini_blockchain::error::ChainError;
use mini_blockchain::types::PublicKey;

#[test]
fn blockchain_blockchain_almacena_dificultad_configurada() {
    let bc = Blockchain::with_difficulty(4);
    assert_eq!(bc.difficulty(), 4);
}

#[test]
fn blockchain_add_transaction_rechaza_si_saldo_insuficiente() {
    let mut blockchain = Blockchain::new();
    let tx = Transaction::new(PublicKey([1u8; 32]), PublicKey([2u8; 32]), 100);
    assert!(blockchain.add_transaction(tx).is_err());
}

#[test]
fn blockchain_add_coinbase_agrega_a_mempool_sin_validar_saldo() {
    let mut blockchain = Blockchain::new();
    blockchain.add_coinbase(PublicKey([3u8; 32]), 50);
    assert_eq!(blockchain.mempool.len(), 1);
}

#[test]
fn blockchain_balance_aumenta_tras_minar_coinbase() {
    let mut blockchain = Blockchain::new();
    let miner = PublicKey([3u8; 32]);
    blockchain.add_coinbase(miner, 50);
    blockchain.mine();
    assert_eq!(blockchain.balance_of(&miner), 50);
}

#[test]
fn blockchain_cadena_corrompida_no_es_valida() {
    let mut blockchain = Blockchain::new();
    blockchain.add_block(vec![]);
    blockchain.add_block(vec![]);
    assert!(blockchain.validate());
    blockchain.corrupt_block(1);
    assert!(!blockchain.validate());
}

#[test]
fn blockchain_validar_no_panic_con_firma_de_longitud_incorrecta() {
    let mut blockchain = Blockchain::new();
    blockchain.add_block(vec![]);
    if let Some(block) = blockchain.chain.iter_mut().find(|b| b.index() == 1) {
        block.set_signature_test(vec![0u8; 10]);
        block.set_author_test(PublicKey([1u8; 32]));
    }
    assert!(!blockchain.validate());
}

#[test]
fn default_difficulty_is_two() {
    assert_eq!(default_difficulty(), 2);
    assert_eq!(Blockchain::default().difficulty(), 2);
}

#[test]
fn insufficient_balance_reports_available_and_required() {
    let mut blockchain = Blockchain::new();
    let miner = PublicKey([3u8; 32]);
    blockchain.add_coinbase(miner, 50);
    blockchain.mine();
    let tx = Transaction::new(miner, PublicKey([4u8; 32]), 80);
    match blockchain.add_transaction(tx) {
        Err(ChainError::InsufficientBalance { available, required }) => {
            assert_eq!(available, 50);
            assert_eq!(required, 80);
        }
        other => panic!("unexpected {:?}", other),
    }
    assert_eq!(blockchain.mempool.len(), 0);
}

#[test]
fn accepted_spend_reserves_the_amount() {
    let mut blockchain = Blockchain::new();
    let miner = PublicKey([3u8; 32]);
    let other = PublicKey([4u8; 32]);
    blockchain.add_coinbase(miner, 50);
    blockchain.mine();
    assert!(blockchain.add_transaction(Transaction::new(miner, other, 30)).is_ok());
    assert_eq!(blockchain.balance_of(&miner), 20);
    // pending receipts do not count yet
    assert_eq!(blockchain.balance_of(&other), 0);
    // a second spend beyond what is left is refused
    assert!(blockchain.add_transaction(Transaction::new(miner, other, 21)).is_err());
    blockchain.mine();
    assert_eq!(blockchain.balance_of(&miner), 20);
    assert_eq!(blockchain.balance_of(&other), 30);
}

#[test]
fn coinbase_transactions_need_no_balance() {
    let mut blockchain = Blockchain::new();
    let tx = Transaction::new(PublicKey::coinbase(), PublicKey([9u8; 32]), 1000);
    assert!(blockchain.add_transaction(tx).is_ok());
    assert_eq!(blockchain.mempool.len(), 1);
}

#[test]
fn mining_drains_the_mempool_into_a_linked_block() {
    let mut blockchain = Blockchain::with_difficulty(1);
    blockchain.add_coinbase(PublicKey([3u8; 32]), 50);
    blockchain.mine();
    assert_eq!(blockchain.chain().len(), 2);
    assert_eq!(blockchain.mempool.len(), 0);
    let tip = &blockchain.chain()[1];
    assert_eq!(tip.index(), 1);
    assert_eq!(tip.transactions().len(), 1);
    assert_eq!(tip.prev_hash(), blockchain.chain()[0].hash());
    assert!(tip.hash().as_str().starts_with("0"));
    assert!(blockchain.validate());
    let (index, hash) = blockchain.tip().unwrap();
    assert_eq!(index, 1);
    assert_eq!(&hash, tip.hash());
}

#[test]
fn signed_transactions_validate_and_tampering_is_detected() {
    let alice = Wallet::from_secret([11u8; 32]);
    let bob = PublicKey([12u8; 32]);
    let mut blockchain = Blockchain::new();
    blockchain.add_coinbase(alice.pubkey(), 50);
    blockchain.mine();
    let mut tx = Transaction::new(alice.pubkey(), bob, 20);
    tx.sign(alice.secret());
    assert!(blockchain.add_transaction(tx).is_ok());
    blockchain.mine();
    assert!(blockchain.validate());

    let mut tampered = blockchain.clone();
    tampered.chain[2].transactions[0].amount = 21;
    tampered.chain[2].hash = tampered.chain[2].compute_hash();
    assert!(!tampered.validate());
}

#[test]
fn unsigned_non_coinbase_transactions_fail_validation() {
    let mut blockchain = Blockchain::new();
    blockchain.add_block(vec![Transaction::new(PublicKey([5u8; 32]), PublicKey([6u8; 32]), 1)]);
    assert!(!blockchain.validate());
}

#[test]
fn signed_blocks_validate_and_a_wrong_author_is_detected() {
    let node = Wallet::from_secret([21u8; 32]);
    let mut blockchain = Blockchain::new();
    blockchain.add_block(vec![]);
    blockchain.sign_block(1, node.secret());
    assert_eq!(blockchain.chain()[1].author(), Some(node.pubkey()));
    assert_eq!(blockchain.chain()[1].signature().unwrap().len(), 64);
    assert!(blockchain.validate());
    let other = Wallet::from_secret([22u8; 32]);
    blockchain.chain[1].set_author_test(other.pubkey());
    assert!(!blockchain.validate());
}

#[test]
fn find_block_and_sign_block_ignore_missing_indices() {
    let mut blockchain = Blockchain::new();
    assert_eq!(blockchain.find_block(0), Some(0));
    assert_eq!(blockchain.find_block(7), None);
    blockchain.sign_block(7, &[1u8; 32]);
    assert!(blockchain.chain()[0].signature().is_none());
}

#[test]
fn take_mempool_returns_pending_and_empties() {
    let mut blockchain = Blockchain::new();
    blockchain.add_coinbase(PublicKey([3u8; 32]), 5);
    blockchain.add_coinbase(PublicKey([4u8; 32]), 6);
    let taken = blockchain.take_mempool();
    assert_eq!(taken.len(), 2);
    assert_eq!(taken[0].amount(), 6);
    assert_eq!(taken[1].amount(), 5);
    assert!(blockchain.mempool.is_empty());
}

#[test]
fn an_empty_chain_has_no_tip_and_mines_nothing() {
    let mut blockchain = Blockchain { chain: vec![], mempool: vec![], difficulty: 2 };
    assert!(blockchain.tip().is_none());
    blockchain.add_coinbase(PublicKey([3u8; 32]), 50);
    blockchain.mine();
    blockchain.add_block(vec![]);
    assert!(blockchain.chain().is_empty());
    assert_eq!(blockchain.mempool.len(), 1);
    assert!(blockchain.validate());
}

#[test]
fn hashes_convert_from_strings() {
    let h: mini_blockchain::types::Hash = String::from("00ab").into();
    assert_eq!(h.as_str(), "00ab");
    assert!(h.same_as(&mini_blockchain::types::Hash::from_string("00ab".to_string())));
    assert!(mini_blockchain::types::Hash::empty().as_str().is_empty());
}

#[test]
fn a_sender_key_that_is_not_a_curve_point_fails_validation() {
    let bad = (0u8..=255)
        .map(|b| {
            let mut k = [b; 32];
            k[31] &= 0x7f;
            k
        })
        .find(|k| ed25519_dalek::VerifyingKey::from_bytes(k).is_err())
        .expect("some pattern does not decompress");
    let mut tx = Transaction::with_nonce(PublicKey(bad), PublicKey([6u8; 32]), 1, 1);
    tx.signature = Some(vec![0u8; 64]);
    let mut blockchain = Blockchain::new();
    blockchain.add_block(vec![tx]);
    assert!(!blockchain.validate());
}

fn assert_well_formed(blockchain: &Blockchain) {
    let chain = blockchain.chain();
    assert!(!chain.is_empty());
    assert_eq!(chain[0].prev_hash().as_str(), "");
    for (i, block) in chain.iter().enumerate() {
        assert_eq!(block.index() as usize, i);
        assert_eq!(block.hash(), &block.compute_hash());
        if i > 0 {
            assert_eq!(block.prev_hash(), chain[i - 1].hash());
        }
    }
}

#[test]
fn every_operation_keeps_the_chain_well_formed() {
    let node = Wallet::from_secret([31u8; 32]);
    let mut blockchain = Blockchain::with_difficulty(1);
    assert_well_formed(&blockchain);
    blockchain.add_block(vec![]);
    assert_well_formed(&blockchain);
    blockchain.add_coinbase(PublicKey([3u8; 32]), 50);
    assert_well_formed(&blockchain);
    blockchain.mine();
    assert_well_formed(&blockchain);
    let tx = Transaction::new(PublicKey([3u8; 32]), PublicKey([4u8; 32]), 10);
    assert!(blockchain.add_transaction(tx).is_ok());
    assert_well_formed(&blockchain);
    blockchain.sign_block(1, node.secret());
    assert_well_formed(&blockchain);
    let _ = blockchain.take_mempool();
    assert_well_formed(&blockchain);
    assert_eq!(blockchain.chain().len(), 3);
}

#[test]
fn prepare_block_drains_the_mempool_and_names_the_next_index() {
    let mut blockchain = Blockchain::new();
    blockchain.add_coinbase(PublicKey([3u8; 32]), 50);
    let genesis_hash = blockchain.chain()[0].hash().clone();
    let (index, prev_hash, txs) = blockchain.prepare_block().unwrap();
    assert_eq!(index, 1);
    assert_eq!(prev_hash, genesis_hash);
    assert_eq!(txs.len(), 1);
    assert_eq!(txs[0].amount(), 50);
    assert!(blockchain.mempool.is_empty());
    assert_eq!(blockchain.chain().len(), 1);
}

#[test]
fn prepare_block_refuses_an_empty_chain_and_an_exhausted_index() {
    let mut empty = Blockchain { chain: vec![], mempool: vec![], difficulty: 2 };
    empty.add_coinbase(PublicKey([3u8; 32]), 50);
    assert!(empty.prepare_block().is_none());
    assert_eq!(empty.mempool.len(), 1);

    let mut full = Blockchain::new();
    full.chain[0].index = u32::MAX;
    full.add_coinbase(PublicKey([3u8; 32]), 50);
    assert!(full.prepare_block().is_none());
    assert_eq!(full.mempool.len(), 1);
}
