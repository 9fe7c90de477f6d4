//! The records of the ledger, their mathematical views, and their canonical
//! texts: JSON objects with a fixed field order.

use crate::codec::{decimal_text, json_of_int, json_of_str, json_string_text};
use crate::hasher::digest_text;
use crate::ledger::Blockchain;
use vstd::prelude::*;
use vstd::string::*;

verus! {

/// A transfer between two addresses. The amount is held as the decimal text
/// under which it enters the canonical text, such as `100.0`.
#[derive(Debug, Clone, PartialEq, Eq)]
pub struct Transaction {
    pub sender: String,
    pub receiver: String,
    pub amount: String,
}

#[derive(Debug, Clone, PartialEq, Eq)]
pub struct Blockheader {
    pub timestamp: i64,
    pub nonce: u32,
    pub difficulty: u32,
    pub prev_hash: String,
    pub merkle: String,
}

#[derive(Debug, Clone, PartialEq, Eq)]
pub struct Block {
    pub header: Blockheader,
    pub count: u32,
    pub transactions: Vec<Transaction>,
}

pub ghost struct TransactionView {
    pub sender: Seq<char>,
    pub receiver: Seq<char>,
    pub amount: Seq<char>,
}

pub ghost struct HeaderView {
    pub timestamp: int,
    pub nonce: nat,
    pub difficulty: nat,
    pub prev_hash: Seq<char>,
    pub merkle: Seq<char>,
}

pub ghost struct BlockView {
    pub header: HeaderView,
    pub count: nat,
    pub transactions: Seq<TransactionView>,
}

impl View for Transaction {
    type V = TransactionView;

    open spec fn view(&self) -> TransactionView {
        TransactionView { sender: self.sender@, receiver: self.receiver@, amount: self.amount@ }
    }
}

impl View for Blockheader {
    type V = HeaderView;

    open spec fn view(&self) -> HeaderView {
        HeaderView {
            timestamp: self.timestamp as int,
            nonce: self.nonce as nat,
            difficulty: self.difficulty as nat,
            prev_hash: self.prev_hash@,
            merkle: self.merkle@,
        }
    }
}

impl View for Block {
    type V = BlockView;

    open spec fn view(&self) -> BlockView {
        BlockView {
            header: self.header@,
            count: self.count as nat,
            transactions: transaction_views(self.transactions@),
        }
    }
}

/// The views of a sequence of transactions, in order.
pub open spec fn transaction_views(txs: Seq<Transaction>) -> Seq<TransactionView> {
    txs.map_values(|t: Transaction| t@)
}

/// The views of a sequence of blocks, in order.
pub open spec fn block_views(blocks: Seq<Block>) -> Seq<BlockView> {
    blocks.map_values(|b: Block| b@)
}

/// The canonical text of a transaction.
pub open spec fn transaction_encoding(t: TransactionView) -> Seq<char> {
    "{\"sender\":"@ + json_string_text(t.sender) + ",\"receiver\":"@ + json_string_text(
        t.receiver,
    ) + ",\"amount\":"@ + t.amount + "}"@
}

/// The canonical text of a header.
pub open spec fn header_encoding(h: HeaderView) -> Seq<char> {
    "{\"timestamp\":"@ + decimal_text(h.timestamp) + ",\"nonce\":"@ + decimal_text(h.nonce as int)
        + ",\"difficulty\":"@ + decimal_text(h.difficulty as int) + ",\"prev_hash\":"@
        + json_string_text(h.prev_hash) + ",\"merkle\":"@ + json_string_text(h.merkle) + "}"@
}

/// The digest string of a transaction.
pub open spec fn transaction_digest(t: TransactionView) -> Seq<char> {
    digest_text(transaction_encoding(t))
}

/// The digest string of a header.
pub open spec fn header_digest(h: HeaderView) -> Seq<char> {
    digest_text(header_encoding(h))
}

impl Transaction {
    /// The canonical text: `sender`, `receiver`, `amount`, in this order.
    pub fn canonical(&self) -> (out: String)
        ensures
            out@ == transaction_encoding(self@),
    {
        let mut out = String::from_str("{\"sender\":");
        let sender = json_of_str(self.sender.as_str());
        out.append(sender.as_str());
        out.append(",\"receiver\":");
        let receiver = json_of_str(self.receiver.as_str());
        out.append(receiver.as_str());
        out.append(",\"amount\":");
        out.append(self.amount.as_str());
        out.append("}");
        out
    }

    /// The digest string of the canonical text.
    pub fn digest(&self) -> (out: String)
        ensures
            out@ == transaction_digest(self@),
            32 <= out@.len() <= 64,
    {
        let text = self.canonical();
        Blockchain::hash(text.as_str())
    }
}

impl Blockheader {
    /// The canonical text: `timestamp`, `nonce`, `difficulty`, `prev_hash`,
    /// `merkle`, in this order.
    pub fn canonical(&self) -> (out: String)
        ensures
            out@ == header_encoding(self@),
    {
        let mut out = String::from_str("{\"timestamp\":");
        let timestamp = json_of_int(self.timestamp);
        out.append(timestamp.as_str());
        out.append(",\"nonce\":");
        let nonce = json_of_int(self.nonce as i64);
        out.append(nonce.as_str());
        out.append(",\"difficulty\":");
        let difficulty = json_of_int(self.difficulty as i64);
        out.append(difficulty.as_str());
        out.append(",\"prev_hash\":");
        let prev_hash = json_of_str(self.prev_hash.as_str());
        out.append(prev_hash.as_str());
        out.append(",\"merkle\":");
        let merkle = json_of_str(self.merkle.as_str());
        out.append(merkle.as_str());
        out.append("}");
        out
    }

    /// The digest string of the canonical text.
    pub fn digest(&self) -> (out: String)
        ensures
            out@ == header_digest(self@),
            32 <= out@.len() <= 64,
    {
        let text = self.canonical();
        Blockchain::hash(text.as_str())
    }
}

} // verus!
