use mini_blockchain::chain::block::Block;
use mini_blockchain::chain::blockchain::Blockchain;
use mini_blockchain::node::command::{parse_stdin_command, StdinCommand};
use mini_blockchain::node::sync::{accept_peer_block, adopt_longer_chain, SyncedPeers};
use mini_blockchain::types::PublicKey;

#[test]
fn tx_lines_become_transfers() {
    let from = PublicKey([0x11; 32]);
    let to = PublicKey([0x22; 32]);
    let line = format!("tx {} {} 100", from.to_hex(), to.to_hex());
    assert_eq!(parse_stdin_command(&line), StdinCommand::Transfer { from, to, amount: 100 });
    let line = format!("tx {} {}  +7 \t", from.to_hex(), to.to_hex());
    assert_eq!(parse_stdin_command(&line), StdinCommand::Transfer { from, to, amount: 7 });
}

#[test]
fn malformed_tx_lines_are_ignored() {
    let k = PublicKey([0x11; 32]).to_hex();
    assert_eq!(parse_stdin_command("tx a b c"), StdinCommand::Ignored);
    assert_eq!(parse_stdin_command(&format!("tx {} {}", k, k)), StdinCommand::Ignored);
    assert_eq!(parse_stdin_command(&format!("tx {} {} -5", k, k)), StdinCommand::Ignored);
    assert_eq!(parse_stdin_command(&format!("tx {} {} 18446744073709551616", k, k)), StdinCommand::Ignored);
    assert_eq!(parse_stdin_command(&format!("tx {} {} 18446744073709551615", k, k)),
        StdinCommand::Transfer { from: PublicKey([0x11; 32]), to: PublicKey([0x11; 32]), amount: u64::MAX });
    assert_eq!(parse_stdin_command(&format!("tx {} abcd 5", k)), StdinCommand::Ignored);
    assert_eq!(parse_stdin_command(&format!("tx {} {} 5 6", k, k)), StdinCommand::Ignored);
}

#[test]
fn mine_lines_are_trimmed() {
    assert_eq!(parse_stdin_command("mine"), StdinCommand::Mine);
    assert_eq!(parse_stdin_command("  mine \n"), StdinCommand::Mine);
    assert_eq!(parse_stdin_command("\u{3000}mine"), StdinCommand::Mine);
    assert_eq!(parse_stdin_command("mine now"), StdinCommand::Ignored);
    assert_eq!(parse_stdin_command(""), StdinCommand::Ignored);
}

#[test]
fn peer_blocks_are_appended_only_when_intact_and_linked() {
    let mut local = Blockchain::new();
    let tip = local.chain()[0].hash().clone();
    let good = Block::new(1, vec![], &tip);
    assert!(accept_peer_block(&mut local, good.clone()));
    assert_eq!(local.chain().len(), 2);
    let unlinked = Block::new(2, vec![], &tip);
    assert!(!accept_peer_block(&mut local, unlinked));
    let mut forged = Block::new(2, vec![], good.hash());
    forged.corrupt();
    assert!(!accept_peer_block(&mut local, forged));
    assert_eq!(local.chain().len(), 2);
}

#[test]
fn only_longer_valid_chains_are_adopted() {
    let mut local = Blockchain::new();
    let mut longer = Blockchain::new();
    longer.add_block(vec![]);
    let mut broken = longer.clone();
    broken.add_block(vec![]);
    broken.corrupt_block(1);
    assert!(!adopt_longer_chain(&mut local, broken));
    assert_eq!(local.chain().len(), 1);
    assert!(adopt_longer_chain(&mut local, longer.clone()));
    assert_eq!(local.chain().len(), 2);
    assert!(!adopt_longer_chain(&mut local, longer));
}

#[test]
fn a_peer_is_asked_for_its_chain_once_per_connection() {
    let mut peers = SyncedPeers::new();
    assert!(peers.connection_established(vec![1, 2, 3]));
    assert!(!peers.connection_established(vec![1, 2, 3]));
    assert!(peers.connection_established(vec![4]));
    assert!(peers.connection_closed(&[1, 2, 3]));
    assert!(!peers.connection_closed(&[1, 2, 3]));
    assert!(peers.connection_established(vec![1, 2, 3]));
}
