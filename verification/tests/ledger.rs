use blockchain::ledger::Blockchain;
use blockchain::mining::{check_seal, LedgerError, SealStatus};
use blockchain::records::{Block, Transaction};

const GENESIS_HASH: &str = "04883f324f1b4646c6e893ef42dbf4e1371f266cb623586279fffc1ffe1f88";

fn tx(sender: &str, receiver: &str, amount: &str) -> Transaction {
    Transaction {
        sender: sender.to_string(),
        receiver: receiver.to_string(),
        amount: amount.to_string(),
    }
}

fn genesis() -> Blockchain {
    Blockchain::new_at("minerA".to_string(), 1, 1000).unwrap()
}

fn assert_linked(blocks: &[Block]) {
    assert_eq!(blocks[0].header.prev_hash, "0@");
    for i in 1..blocks.len() {
        assert_eq!(blocks[i].header.prev_hash, blocks[i - 1].header.digest());
    }
    for block in blocks {
        assert_eq!(block.count as usize, block.transactions.len());
        assert_eq!(block.transactions[0].sender, "Root");
        assert_eq!(
            check_seal(&block.header.digest(), block.header.difficulty),
            SealStatus::Sealed
        );
    }
}

#[test]
fn new_ledger_has_a_genesis_block() {
    let ledger = genesis();
    let blocks = ledger.blocks();
    assert_eq!(blocks.len(), 1);
    assert_eq!(blocks[0].count, 1);
    assert_eq!(blocks[0].transactions, vec![tx("Root", "minerA", "100.0")]);
    assert_eq!(blocks[0].header.prev_hash, "0@");
    assert_eq!(blocks[0].header.timestamp, 1000);
    assert_eq!(blocks[0].header.difficulty, 1);
    assert_eq!(blocks[0].header.nonce, 337);
    assert_eq!(
        blocks[0].header.merkle,
        "17b6d6cf8a2de3329e5e365cdd8f56d58506156f6302a2610ee5b29f58d3"
    );
    assert_eq!(ledger.last_hash(), GENESIS_HASH);
    assert!(ledger.pending().is_empty());
    assert_eq!(ledger.difficulty(), 1);
    assert_eq!(ledger.reward(), "100.0");
    assert_eq!(ledger.miner_addr(), "minerA");
}

#[test]
fn new_ledger_at_the_clock_has_a_genesis_block() {
    let ledger = Blockchain::new("minerA".to_string(), 1).unwrap();
    let blocks = ledger.blocks();
    assert_eq!(blocks.len(), 1);
    assert_eq!(blocks[0].count, 1);
    assert_eq!(blocks[0].transactions, vec![tx("Root", "minerA", "100.0")]);
    assert_eq!(blocks[0].header.prev_hash, "0@");
    assert_linked(blocks);
}

#[test]
fn second_block_holds_the_reward_and_the_pool() {
    let mut ledger = genesis();
    assert!(ledger.new_transaction("Alice".to_string(), "Bob".to_string(), "10.0".to_string()));
    assert_eq!(ledger.pending(), &vec![tx("Alice", "Bob", "10.0")]);
    assert_eq!(ledger.generate_block_at(2000), Ok(()));
    let blocks = ledger.blocks();
    assert_eq!(blocks.len(), 2);
    assert_eq!(blocks[1].count, 2);
    assert_eq!(
        blocks[1].transactions,
        vec![tx("Root", "minerA", "100.0"), tx("Alice", "Bob", "10.0")]
    );
    assert_eq!(blocks[1].header.prev_hash, GENESIS_HASH);
    assert_eq!(blocks[1].header.prev_hash, blocks[0].header.digest());
    assert_eq!(blocks[1].header.timestamp, 2000);
    assert_eq!(blocks[1].header.nonce, 40);
    assert_eq!(
        blocks[1].header.merkle,
        "3c2eeacf54beca14e9c75fe319cc61e49d4e7575e390eb2691252655cedffd3"
    );
    assert_eq!(
        ledger.last_hash(),
        "0a613725554c6ff2e3415c9032d96f99fcd6a78a7cc69df6bb4f5868540"
    );
    assert!(ledger.pending().is_empty());
}

#[test]
fn reward_update_shows_in_the_next_block_only() {
    let mut ledger = genesis();
    let sealed = ledger.blocks().clone();
    assert!(ledger.update_reward("50.0".to_string()));
    assert_eq!(ledger.blocks(), &sealed);
    assert_eq!(ledger.reward(), "50.0");
    assert!(ledger.new_transaction("Alice".to_string(), "Bob".to_string(), "10.0".to_string()));
    assert_eq!(ledger.generate_block_at(2000), Ok(()));
    let blocks = ledger.blocks();
    assert_eq!(blocks[0], sealed[0]);
    assert_eq!(blocks[0].transactions[0].amount, "100.0");
    assert_eq!(
        blocks[1].transactions,
        vec![tx("Root", "minerA", "50.0"), tx("Alice", "Bob", "10.0")]
    );
    assert_eq!(blocks[1].header.nonce, 165);
    assert_eq!(
        blocks[1].header.merkle,
        "2663ac2aa98c20d122fbfbac315c8f17a3f87de16ec6a1b3d8c5a53fb6a6f10"
    );
}

#[test]
fn difficulty_update_shows_in_the_next_block_only() {
    let mut ledger = genesis();
    let sealed = ledger.blocks().clone();
    assert!(ledger.update_difficulty(2));
    assert_eq!(ledger.blocks(), &sealed);
    assert_eq!(ledger.difficulty(), 2);
    assert_eq!(ledger.generate_block_at(2000), Ok(()));
    let blocks = ledger.blocks();
    assert_eq!(blocks[0], sealed[0]);
    assert_eq!(blocks[0].header.difficulty, 1);
    assert_eq!(blocks[1].header.difficulty, 2);
    assert!(blocks[1].header.digest().starts_with("00"));
    assert_linked(blocks);
}

#[test]
fn genesis_under_difficulty_two() {
    let ledger = Blockchain::new_at("minerA".to_string(), 2, 1000).unwrap();
    assert_eq!(ledger.blocks()[0].header.nonce, 105774);
    assert_eq!(
        ledger.last_hash(),
        "00d15a8720da602150cd6ff968d9cd3e94f24804f19fe9af156e989c80cf"
    );
}

#[test]
fn ledger_without_a_workable_difficulty_is_refused() {
    assert_eq!(
        Blockchain::new_at("minerA".to_string(), 0, 1000).err(),
        Some(LedgerError::InvalidDifficulty)
    );
    assert_eq!(
        Blockchain::new("minerA".to_string(), 65).err(),
        Some(LedgerError::InvalidDifficulty)
    );
}

#[test]
fn failed_assembly_leaves_the_ledger_as_it_was() {
    let mut ledger = genesis();
    let sealed = ledger.blocks().clone();
    assert!(ledger.new_transaction("Alice".to_string(), "Bob".to_string(), "10.0".to_string()));
    assert!(ledger.new_transaction("Carol".to_string(), "Dave".to_string(), "2.5".to_string()));
    assert!(ledger.update_difficulty(0));
    assert_eq!(ledger.generate_block_at(2000), Err(LedgerError::InvalidDifficulty));
    assert_eq!(ledger.generate_block(), Err(LedgerError::InvalidDifficulty));
    assert_eq!(ledger.blocks(), &sealed);
    assert_eq!(
        ledger.pending(),
        &vec![tx("Alice", "Bob", "10.0"), tx("Carol", "Dave", "2.5")]
    );
    assert_eq!(ledger.last_hash(), GENESIS_HASH);
    assert!(ledger.update_difficulty(1));
    assert_eq!(ledger.generate_block_at(2000), Ok(()));
    assert_eq!(ledger.blocks().len(), 2);
    assert_eq!(ledger.blocks()[1].count, 3);
    assert!(ledger.pending().is_empty());
}

#[test]
fn pool_keeps_the_order_of_arrival() {
    let mut ledger = genesis();
    assert!(ledger.new_transaction("b".to_string(), "a".to_string(), "-1.0".to_string()));
    assert!(ledger.new_transaction("a".to_string(), "b".to_string(), "0.0".to_string()));
    assert!(ledger.new_transaction("a".to_string(), "b".to_string(), "0.0".to_string()));
    assert_eq!(
        ledger.pending(),
        &vec![tx("b", "a", "-1.0"), tx("a", "b", "0.0"), tx("a", "b", "0.0")]
    );
    assert_eq!(ledger.blocks().len(), 1);
}

#[test]
fn every_block_names_the_digest_of_the_header_before_it() {
    let mut ledger = genesis();
    for round in 0..4 {
        for k in 0..round {
            assert!(ledger.new_transaction(
                format!("s{}", k),
                format!("r{}", round),
                "1.0".to_string()
            ));
        }
        assert_eq!(ledger.generate_block(), Ok(()));
        assert!(ledger.pending().is_empty());
        let blocks = ledger.blocks();
        assert_eq!(blocks.len(), round + 2);
        assert_eq!(blocks[round + 1].count as usize, round + 1);
        assert_eq!(blocks[round + 1].transactions[0], tx("Root", "minerA", "100.0"));
        assert_eq!(ledger.last_hash(), blocks[round + 1].header.digest());
        assert_linked(blocks);
    }
}
