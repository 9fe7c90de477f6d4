//! The ledger: the sealed blocks, the pool of pending transactions, and the
//! parameters under which the next block is assembled.

use crate::codec::unix_seconds;
use crate::merkle::merkle_root;
use crate::mining::{
    lemma_search_stops, seal_status, search_end, search_result, status_at, with_nonce,
    LedgerError, SealStatus,
};
use crate::records::{
    block_views, header_digest, transaction_views, Block, BlockView, Blockheader, HeaderView,
    Transaction, TransactionView,
};
use vstd::prelude::*;
use vstd::string::*;

verus! {

pub struct Blockchain {
    blocks: Vec<Block>,
    curr_trans: Vec<Transaction>,
    difficulty: u32,
    miner_addr: String,
    reward: String,
}

pub ghost struct LedgerView {
    pub blocks: Seq<BlockView>,
    pub pending: Seq<TransactionView>,
    pub difficulty: nat,
    pub miner_addr: Seq<char>,
    pub reward: Seq<char>,
}

/// What the first block names as its predecessor's digest.
pub open spec fn sentinel() -> Seq<char> {
    seq!['0', '@']
}

/// The sender of every reward transaction.
pub open spec fn reward_sender() -> Seq<char> {
    seq!['R', 'o', 'o', 't']
}

/// The reward of a ledger whose reward was never updated.
pub open spec fn initial_reward() -> Seq<char> {
    seq!['1', '0', '0', '.', '0']
}

/// The digest of the last block's header, or the sentinel where there is no
/// block.
pub open spec fn last_hash_of(blocks: Seq<BlockView>) -> Seq<char> {
    if blocks.len() == 0 {
        sentinel()
    } else {
        header_digest(blocks.last().header)
    }
}

/// The transaction that pays the miner under the ledger's current reward.
pub open spec fn reward_transaction(l: LedgerView) -> TransactionView {
    TransactionView { sender: reward_sender(), receiver: l.miner_addr, amount: l.reward }
}

/// The transactions of the next block: the reward, then the pool in order.
pub open spec fn next_transactions(l: LedgerView) -> Seq<TransactionView> {
    seq![reward_transaction(l)] + l.pending
}

/// The header of the next block before the search.
pub open spec fn next_header(l: LedgerView, timestamp: int) -> HeaderView {
    HeaderView {
        timestamp,
        nonce: 0,
        difficulty: l.difficulty,
        prev_hash: last_hash_of(l.blocks),
        merkle: merkle_root(next_transactions(l)),
    }
}

/// The ledger after the next block is assembled at `timestamp`, or why the
/// search for its nonce failed.
pub open spec fn assembled(l: LedgerView, timestamp: int) -> Result<LedgerView, LedgerError> {
    let header = next_header(l, timestamp);
    match search_result(header) {
        Ok(_) => Ok(
            LedgerView {
                blocks: l.blocks.push(
                    BlockView {
                        header: with_nonce(header, search_end(header)),
                        count: next_transactions(l).len(),
                        transactions: next_transactions(l),
                    },
                ),
                pending: Seq::empty(),
                ..l
            },
        ),
        Err(e) => Err(e),
    }
}

/// A ledger with no block yet.
pub open spec fn empty_ledger(miner_addr: Seq<char>, difficulty: nat) -> LedgerView {
    LedgerView {
        blocks: Seq::empty(),
        pending: Seq::empty(),
        difficulty,
        miner_addr,
        reward: initial_reward(),
    }
}

/// A block counts its transactions, starts with a reward paid to the miner,
/// and has a sealed header.
pub open spec fn block_ok(b: BlockView, miner_addr: Seq<char>) -> bool {
    &&& b.count == b.transactions.len()
    &&& b.transactions.len() > 0
    &&& b.transactions[0].sender == reward_sender()
    &&& b.transactions[0].receiver == miner_addr
    &&& seal_status(header_digest(b.header), b.header.difficulty) == SealStatus::Sealed
}

/// Every block but the first names the digest of the header before it.
pub open spec fn chain_linked(blocks: Seq<BlockView>) -> bool {
    forall|i: int|
        0 < i < blocks.len() ==> (#[trigger] blocks[i]).header.prev_hash == header_digest(
            blocks[i - 1].header,
        )
}

/// What holds of a ledger at every moment, before the first block too.
pub open spec fn ledger_inv(l: LedgerView) -> bool {
    &&& l.blocks.len() > 0 ==> l.blocks[0].header.prev_hash == sentinel()
    &&& chain_linked(l.blocks)
    &&& forall|i: int| 0 <= i < l.blocks.len() ==> block_ok(#[trigger] l.blocks[i], l.miner_addr)
    &&& l.pending.len() < u32::MAX
}

/// What holds of a ledger once it is constructed: the invariant, and there
/// is a first block.
pub open spec fn ledger_wf(l: LedgerView) -> bool {
    ledger_inv(l) && l.blocks.len() > 0
}

/// Assembling a block keeps the invariant and leaves a block.
pub proof fn lemma_assembled_wf(l: LedgerView, timestamp: int)
    requires
        ledger_inv(l),
        assembled(l, timestamp) is Ok,
    ensures
        ledger_wf(assembled(l, timestamp)->Ok_0),
{
    let next = assembled(l, timestamp)->Ok_0;
    let header = next_header(l, timestamp);
    let end = search_end(header);
    assert(with_nonce(header, end).difficulty == header.difficulty);
    assert(next.blocks.len() == l.blocks.len() + 1);
    assert forall|i: int| 0 <= i < next.blocks.len() implies block_ok(
        #[trigger] next.blocks[i],
        next.miner_addr,
    ) by {
        if i < l.blocks.len() {
            assert(next.blocks[i] == l.blocks[i]);
        }
    }
    assert forall|i: int| 0 < i < next.blocks.len() implies (#[trigger] next.blocks[i]).header.prev_hash
        == header_digest(next.blocks[i - 1].header) by {
        if i < l.blocks.len() {
            assert(next.blocks[i] == l.blocks[i]);
            assert(next.blocks[i - 1] == l.blocks[i - 1]);
        } else {
            assert(next.blocks[i - 1] == l.blocks.last());
        }
    }
}

/// In a constructed ledger the first block names the sentinel, and every
/// later block names the digest of the header of the block before it.
pub proof fn lemma_chain_linked(l: LedgerView, i: int)
    requires
        ledger_wf(l),
        0 <= i < l.blocks.len(),
    ensures
        i == 0 ==> l.blocks[i].header.prev_hash == sentinel(),
        i > 0 ==> l.blocks[i].header.prev_hash == header_digest(l.blocks[i - 1].header),
{
}

/// In a constructed ledger every block counts its transactions, and its
/// first transaction is sent by `Root` to the ledger's miner.
pub proof fn lemma_blocks_counted(l: LedgerView, i: int)
    requires
        ledger_wf(l),
        0 <= i < l.blocks.len(),
    ensures
        l.blocks[i].count == l.blocks[i].transactions.len(),
        l.blocks[i].transactions.len() > 0,
        l.blocks[i].transactions[0].sender == reward_sender(),
        l.blocks[i].transactions[0].receiver == l.miner_addr,
{
}

/// Assembling a block changes no block that is there. The one block that it
/// adds is sealed by the least nonce that seals it, names the last block
/// before it, carries the difficulty and the timestamp of its assembly, and
/// holds a reward transaction of the reward in effect at its assembly,
/// followed by the pool. The pool is empty afterwards.
pub proof fn lemma_assembled_block(l: LedgerView, timestamp: int)
    requires
        assembled(l, timestamp) is Ok,
    ensures
        ({
            let next = assembled(l, timestamp)->Ok_0;
            let block = next.blocks.last();
            &&& next.blocks.len() == l.blocks.len() + 1
            &&& next.blocks.take(l.blocks.len() as int) == l.blocks
            &&& next.pending.len() == 0
            &&& next.difficulty == l.difficulty
            &&& next.reward == l.reward
            &&& next.miner_addr == l.miner_addr
            &&& block.count == block.transactions.len() == l.pending.len() + 1
            &&& block.transactions[0] == (TransactionView {
                sender: reward_sender(),
                receiver: l.miner_addr,
                amount: l.reward,
            })
            &&& block.transactions.skip(1) == l.pending
            &&& block.header.timestamp == timestamp
            &&& block.header.difficulty == l.difficulty
            &&& block.header.prev_hash == last_hash_of(l.blocks)
            &&& block.header.merkle == merkle_root(block.transactions)
            &&& seal_status(header_digest(block.header), block.header.difficulty)
                == SealStatus::Sealed
            &&& forall|k: nat|
                k < block.header.nonce ==> #[trigger] status_at(next_header(l, timestamp), k)
                    == SealStatus::Retry
        }),
{
    let next = assembled(l, timestamp)->Ok_0;
    let block = next.blocks.last();
    lemma_search_stops(next_header(l, timestamp));
    assert(next.blocks.take(l.blocks.len() as int) =~= l.blocks);
    assert(block.transactions.skip(1) =~= l.pending);
}

/// A change of the reward or of the difficulty shows in the block that is
/// assembled after it, and in no block that was there before.
pub proof fn lemma_update_then_assemble(
    l: LedgerView,
    reward: Seq<char>,
    difficulty: nat,
    timestamp: int,
)
    requires
        assembled(LedgerView { reward, difficulty, ..l }, timestamp) is Ok,
    ensures
        ({
            let next = assembled(LedgerView { reward, difficulty, ..l }, timestamp)->Ok_0;
            &&& next.blocks.take(l.blocks.len() as int) == l.blocks
            &&& next.blocks.last().transactions[0].amount == reward
            &&& next.blocks.last().header.difficulty == difficulty
        }),
{
    lemma_assembled_block(LedgerView { reward, difficulty, ..l }, timestamp);
}

impl View for Blockchain {
    type V = LedgerView;

    closed spec fn view(&self) -> LedgerView {
        LedgerView {
            blocks: block_views(self.blocks@),
            pending: transaction_views(self.curr_trans@),
            difficulty: self.difficulty as nat,
            miner_addr: self.miner_addr@,
            reward: self.reward@,
        }
    }
}

impl Blockchain {
    /// The invariant of a constructed ledger.
    pub open spec fn wf(&self) -> bool {
        ledger_wf(self@)
    }

    /// Assembles the next block at `timestamp` on a ledger that may have no
    /// block yet. Where the search fails the ledger is as it was.
    fn assemble(&mut self, timestamp: i64) -> (res: Result<(), LedgerError>)
        requires
            ledger_inv(old(self)@),
        ensures
            match res {
                Ok(_) => assembled(old(self)@, timestamp as int) == Ok::<LedgerView, LedgerError>(
                    final(self)@,
                ),
                Err(e) => assembled(old(self)@, timestamp as int) == Err::<
                    LedgerView,
                    LedgerError,
                >(e) && final(self)@ == old(self)@,
            },
            ledger_inv(final(self)@),
            1 <= old(self)@.difficulty <= 32 ==> res != Err::<(), LedgerError>(
                LedgerError::InvalidDifficulty,
            ),
    {
        let ghost before = self@;
        let mut header = Blockheader {
            timestamp,
            nonce: 0,
            difficulty: self.difficulty,
            prev_hash: self.last_hash(),
            merkle: String::new(),
        };
        let sender = String::from_str("Root");
        proof {
            reveal_strlit("Root");
            assert(sender@ =~= reward_sender());
        }
        let reward_trans = Transaction {
            sender,
            receiver: self.miner_addr.clone(),
            amount: self.reward.clone(),
        };
        let mut transactions: Vec<Transaction> = Vec::new();
        transactions.push(reward_trans);
        transactions.append(&mut self.curr_trans);
        proof {
            assert(transaction_views(transactions@) =~= next_transactions(before));
            assert(transaction_views(self.curr_trans@) =~= Seq::<TransactionView>::empty());
        }
        let count = transactions.len() as u32;
        header.merkle = Blockchain::merkle_of(&transactions);
        proof {
            assert(header@ == next_header(before, timestamp as int));
        }
        match Blockchain::proof_of_work(&mut header) {
            Ok(_) => {
                let ghost old_blocks = self.blocks@;
                let block = Block { header, count, transactions };
                self.blocks.push(block);
                proof {
                    assert(block_views(self.blocks@) =~= block_views(old_blocks).push(block@));
                    lemma_assembled_wf(before, timestamp as int);
                }
                Ok(())
            },
            Err(e) => {
                let _ = transactions.remove(0);
                self.curr_trans = transactions;
                proof {
                    assert(transaction_views(self.curr_trans@) =~= before.pending);
                    assert(self@.blocks == before.blocks);
                    assert(self@ == before);
                }
                Err(e)
            },
        }
    }

    /// A ledger of the miner with its first block, assembled at `timestamp`
    /// under the initial reward, or the reason why the search for the first
    /// block's nonce failed.
    pub fn new_at(miner_addr: String, difficulty: u32, timestamp: i64) -> (res: Result<
        Blockchain,
        LedgerError,
    >)
        ensures
            match res {
                Ok(ledger) => ledger.wf() && assembled(
                    empty_ledger(miner_addr@, difficulty as nat),
                    timestamp as int,
                ) == Ok::<LedgerView, LedgerError>(ledger@),
                Err(e) => assembled(empty_ledger(miner_addr@, difficulty as nat), timestamp as int)
                    == Err::<LedgerView, LedgerError>(e),
            },
            1 <= difficulty <= 32 ==> res != Err::<Blockchain, LedgerError>(
                LedgerError::InvalidDifficulty,
            ),
    {
        let reward = String::from_str("100.0");
        proof {
            reveal_strlit("100.0");
            assert(reward@ =~= initial_reward());
        }
        let mut blockchain = Blockchain {
            blocks: Vec::new(),
            curr_trans: Vec::new(),
            difficulty,
            miner_addr,
            reward,
        };
        proof {
            assert(blockchain@.blocks =~= Seq::<BlockView>::empty());
            assert(blockchain@.pending =~= Seq::<TransactionView>::empty());
            assert(blockchain@ == empty_ledger(miner_addr@, difficulty as nat));
        }
        match blockchain.assemble(timestamp) {
            Ok(_) => {
                proof {
                    lemma_assembled_wf(
                        empty_ledger(miner_addr@, difficulty as nat),
                        timestamp as int,
                    );
                }
                Ok(blockchain)
            },
            Err(e) => Err(e),
        }
    }

    /// A ledger of the miner with its first block, assembled at the time the
    /// clock gives.
    pub fn new(miner_addr: String, difficulty: u32) -> (res: Result<Blockchain, LedgerError>)
        ensures
            match res {
                Ok(ledger) => ledger.wf() && exists|timestamp: int|
                    #[trigger] assembled(empty_ledger(miner_addr@, difficulty as nat), timestamp)
                        == Ok::<LedgerView, LedgerError>(ledger@),
                Err(e) => exists|timestamp: int|
                    #[trigger] assembled(empty_ledger(miner_addr@, difficulty as nat), timestamp)
                        == Err::<LedgerView, LedgerError>(e),
            },
            1 <= difficulty <= 32 ==> res != Err::<Blockchain, LedgerError>(
                LedgerError::InvalidDifficulty,
            ),
    {
        let timestamp = unix_seconds();
        let res = Blockchain::new_at(miner_addr, difficulty, timestamp);
        proof {
            let l = empty_ledger(miner_addr@, difficulty as nat);
            if res is Ok {
                assert(assembled(l, timestamp as int) == Ok::<LedgerView, LedgerError>(
                    res->Ok_0@,
                ));
            } else {
                assert(assembled(l, timestamp as int) == Err::<LedgerView, LedgerError>(
                    res->Err_0,
                ));
            }
        }
        res
    }

    /// Puts a transaction at the end of the pool. The pool holds fewer
    /// transactions than a block can count: where one more would not fit,
    /// the answer is `false` and the pool is as it was.
    pub fn new_transaction(&mut self, sender: String, receiver: String, amount: String) -> (ok:
        bool)
        requires
            old(self).wf(),
        ensures
            final(self).wf(),
            ok == (old(self)@.pending.len() + 1 < u32::MAX),
            ok ==> final(self)@ == (LedgerView {
                pending: old(self)@.pending.push(
                    TransactionView { sender: sender@, receiver: receiver@, amount: amount@ },
                ),
                ..old(self)@
            }),
            !ok ==> final(self)@ == old(self)@,
    {
        if self.curr_trans.len() >= 0xffff_fffe {
            return false;
        }
        let ghost before = self.curr_trans@;
        let transaction = Transaction { sender, receiver, amount };
        self.curr_trans.push(transaction);
        proof {
            assert(transaction_views(self.curr_trans@) =~= transaction_views(before).push(
                transaction@,
            ));
        }
        true
    }

    /// The digest of the last block's header.
    pub fn last_hash(&self) -> (hash: String)
        ensures
            hash@ == last_hash_of(self@.blocks),
    {
        if self.blocks.len() == 0 {
            let hash = String::from_str("0@");
            proof {
                reveal_strlit("0@");
                assert(hash@ =~= sentinel());
            }
            return hash;
        }
        let block = &self.blocks[self.blocks.len() - 1];
        block.header.digest()
    }

    /// Sets the difficulty of the blocks assembled from now on. Any value is
    /// taken: one that no search can work with fails the search.
    pub fn update_difficulty(&mut self, difficulty: u32) -> (ok: bool)
        requires
            old(self).wf(),
        ensures
            ok,
            final(self).wf(),
            final(self)@ == (LedgerView { difficulty: difficulty as nat, ..old(self)@ }),
    {
        self.difficulty = difficulty;
        true
    }

    /// Sets the reward of the blocks assembled from now on.
    pub fn update_reward(&mut self, reward: String) -> (ok: bool)
        requires
            old(self).wf(),
        ensures
            ok,
            final(self).wf(),
            final(self)@ == (LedgerView { reward: reward@, ..old(self)@ }),
    {
        self.reward = reward;
        true
    }

    /// Assembles the next block at `timestamp`: the reward transaction and
    /// the pool, in this order, under a header that names the last block and
    /// is sealed by the search. Where the search fails the ledger is as it
    /// was.
    pub fn generate_block_at(&mut self, timestamp: i64) -> (res: Result<(), LedgerError>)
        requires
            old(self).wf(),
        ensures
            final(self).wf(),
            match res {
                Ok(_) => assembled(old(self)@, timestamp as int) == Ok::<LedgerView, LedgerError>(
                    final(self)@,
                ),
                Err(e) => assembled(old(self)@, timestamp as int) == Err::<
                    LedgerView,
                    LedgerError,
                >(e) && final(self)@ == old(self)@,
            },
            1 <= old(self)@.difficulty <= 32 ==> res != Err::<(), LedgerError>(
                LedgerError::InvalidDifficulty,
            ),
    {
        self.assemble(timestamp)
    }

    /// Assembles the next block at the time the clock gives.
    pub fn generate_block(&mut self) -> (res: Result<(), LedgerError>)
        requires
            old(self).wf(),
        ensures
            final(self).wf(),
            match res {
                Ok(_) => exists|timestamp: int|
                    #[trigger] assembled(old(self)@, timestamp) == Ok::<LedgerView, LedgerError>(
                        final(self)@,
                    ),
                Err(e) => final(self)@ == old(self)@ && exists|timestamp: int|
                    #[trigger] assembled(old(self)@, timestamp) == Err::<LedgerView, LedgerError>(
                        e,
                    ),
            },
            1 <= old(self)@.difficulty <= 32 ==> res != Err::<(), LedgerError>(
                LedgerError::InvalidDifficulty,
            ),
    {
        let timestamp = unix_seconds();
        let res = self.assemble(timestamp);
        proof {
            match res {
                Ok(_) => {
                    assert(assembled(old(self)@, timestamp as int) == Ok::<
                        LedgerView,
                        LedgerError,
                    >(self@));
                },
                Err(e) => {
                    assert(assembled(old(self)@, timestamp as int) == Err::<
                        LedgerView,
                        LedgerError,
                    >(e));
                },
            }
        }
        res
    }

    /// The sealed blocks, the first one first.
    pub fn blocks(&self) -> (blocks: &Vec<Block>)
        ensures
            block_views(blocks@) == self@.blocks,
    {
        &self.blocks
    }

    /// The pool, in the order of arrival.
    pub fn pending(&self) -> (pending: &Vec<Transaction>)
        ensures
            transaction_views(pending@) == self@.pending,
    {
        &self.curr_trans
    }

    /// The difficulty of the next block.
    pub fn difficulty(&self) -> (difficulty: u32)
        ensures
            difficulty as nat == self@.difficulty,
    {
        self.difficulty
    }

    /// The reward of the next block.
    pub fn reward(&self) -> (reward: &String)
        ensures
            reward@ == self@.reward,
    {
        &self.reward
    }

    /// The address that the rewards are paid to.
    pub fn miner_addr(&self) -> (miner_addr: &String)
        ensures
            miner_addr@ == self@.miner_addr,
    {
        &self.miner_addr
    }
}

} // verus!
