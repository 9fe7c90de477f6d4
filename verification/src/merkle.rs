//! The Merkle builder: an ordered list of transactions is reduced to one
//! digest string.
//!
//! The leaves are the transactions' digests. An odd number of leaves is made
//! even by repeating the last one. The leaves then form a queue: the two at
//! the front are joined, the digest of the joined text goes to the back, and
//! so on until one digest is left.

use crate::codec::{json_escape, json_escaped, json_of_str, json_string_text};
use crate::hasher::{digest_text, hex_text, lemma_hex_text_digits};
use crate::ledger::Blockchain;
use crate::mining::LedgerError;
use crate::records::{transaction_digest, transaction_views, Transaction, TransactionView};
use vstd::prelude::*;
use vstd::string::*;

verus! {

/// The digests of the transactions, in order.
pub open spec fn leaf_digests(txs: Seq<TransactionView>) -> Seq<Seq<char>> {
    txs.map_values(|t: TransactionView| transaction_digest(t))
}

/// An odd number of leaves gets its last leaf once more; an even number is
/// left as it is.
pub open spec fn pad_even(leaves: Seq<Seq<char>>) -> Seq<Seq<char>> {
    if leaves.len() % 2 == 1 {
        leaves.push(leaves.last())
    } else {
        leaves
    }
}

/// The digest of an inner node: the two digest strings are joined as text,
/// and the joined string is hashed as a string record.
pub open spec fn node_digest(left: Seq<char>, right: Seq<char>) -> Seq<char> {
    digest_text(json_string_text(left + right))
}

/// What is left of a queue of digests when the two at the front are replaced
/// by their node at the back, until one is left.
pub open spec fn reduce(queue: Seq<Seq<char>>) -> Seq<char>
    decreases queue.len(),
{
    if queue.len() == 0 {
        Seq::empty()
    } else if queue.len() == 1 {
        queue[0]
    } else {
        reduce(queue.skip(2).push(node_digest(queue[0], queue[1])))
    }
}

/// The Merkle root of a list of transactions.
pub open spec fn merkle_root(txs: Seq<TransactionView>) -> Seq<char> {
    reduce(pad_even(leaf_digests(txs)))
}

/// The texts of a sequence of strings, in order.
pub open spec fn texts(strings: Seq<String>) -> Seq<Seq<char>> {
    strings.map_values(|s: String| s@)
}

/// A text in which no character needs an escape is its own escaped form.
pub proof fn lemma_escaped_plain(s: Seq<char>)
    requires
        forall|i: int| 0 <= i < s.len() ==> json_escape(#[trigger] s[i]) == seq![s[i]],
    ensures
        json_escaped(s) == s,
    decreases s.len(),
{
    if s.len() > 0 {
        lemma_escaped_plain(s.drop_last());
        assert(s.drop_last() + seq![s.last()] =~= s);
    }
}

/// The node of two renderings is the digest of the two, joined, between
/// double quotes: a rendering holds nothing that a JSON string escapes.
pub proof fn lemma_node_of_renderings(left: Seq<u8>, right: Seq<u8>)
    ensures
        node_digest(hex_text(left), hex_text(right)) == digest_text(
            seq!['"'] + hex_text(left) + hex_text(right) + seq!['"'],
        ),
{
    let joined = hex_text(left) + hex_text(right);
    assert forall|i: int| 0 <= i < joined.len() implies json_escape(#[trigger] joined[i])
        == seq![joined[i]] by {
        if i < hex_text(left).len() {
            lemma_hex_text_digits(left, i);
        } else {
            lemma_hex_text_digits(right, i - hex_text(left).len());
        }
    }
    lemma_escaped_plain(joined);
    assert(seq!['"'] + joined + seq!['"'] =~= seq!['"'] + hex_text(left) + hex_text(right)
        + seq!['"']);
}

/// The root is a function of the transactions and their order: two lists
/// with the same views in the same order have the same root.
pub proof fn lemma_merkle_root_deterministic(a: Seq<Transaction>, b: Seq<Transaction>)
    requires
        transaction_views(a) == transaction_views(b),
    ensures
        merkle_root(transaction_views(a)) == merkle_root(transaction_views(b)),
{
}

/// A list of odd length is reduced with its last leaf repeated once; a list
/// of even length is reduced as it is.
pub proof fn lemma_odd_repeats_last(txs: Seq<TransactionView>)
    ensures
        txs.len() % 2 == 1 ==> merkle_root(txs) == reduce(
            leaf_digests(txs).push(transaction_digest(txs.last())),
        ),
        txs.len() % 2 == 0 ==> merkle_root(txs) == reduce(leaf_digests(txs)),
{
}

/// The root of one transaction is the node of its leaf with itself.
pub proof fn lemma_single_root(t: TransactionView)
    ensures
        merkle_root(seq![t]) == node_digest(transaction_digest(t), transaction_digest(t)),
{
    let leaf = transaction_digest(t);
    let padded = pad_even(leaf_digests(seq![t]));
    assert(padded =~= seq![leaf, leaf]);
    let rest = padded.skip(2).push(node_digest(padded[0], padded[1]));
    assert(rest =~= seq![node_digest(leaf, leaf)]);
    reveal_with_fuel(reduce, 3);
}

/// The root of two transactions is the node of their leaves, in order.
pub proof fn lemma_pair_root(s: TransactionView, t: TransactionView)
    ensures
        merkle_root(seq![s, t]) == node_digest(transaction_digest(s), transaction_digest(t)),
{
    let padded = pad_even(leaf_digests(seq![s, t]));
    assert(padded =~= seq![transaction_digest(s), transaction_digest(t)]);
    let rest = padded.skip(2).push(node_digest(padded[0], padded[1]));
    assert(rest =~= seq![node_digest(transaction_digest(s), transaction_digest(t))]);
    reveal_with_fuel(reduce, 3);
}

impl Blockchain {
    /// Computes the Merkle root of the transactions, which is an error only
    /// for an empty list.
    pub fn get_merkle(curr_trans: &Vec<Transaction>) -> (res: Result<String, LedgerError>)
        ensures
            curr_trans@.len() == 0 <==> res == Err::<String, LedgerError>(
                LedgerError::EmptyTransactionSet,
            ),
            curr_trans@.len() > 0 <==> res is Ok,
            res is Ok ==> res->Ok_0@ == merkle_root(transaction_views(curr_trans@)),
    {
        if curr_trans.len() == 0 {
            return Err(LedgerError::EmptyTransactionSet);
        }
        Ok(Blockchain::merkle_of(curr_trans))
    }

    /// Computes the Merkle root of one transaction or more.
    pub(crate) fn merkle_of(curr_trans: &Vec<Transaction>) -> (root: String)
        requires
            curr_trans@.len() > 0,
        ensures
            root@ == merkle_root(transaction_views(curr_trans@)),
    {
        let ghost leaves = leaf_digests(transaction_views(curr_trans@));
        let mut merkle: Vec<String> = Vec::new();
        let mut i: usize = 0;
        while i < curr_trans.len()
            invariant
                i <= curr_trans@.len(),
                leaves == leaf_digests(transaction_views(curr_trans@)),
                texts(merkle@) =~= leaves.take(i as int),
            decreases curr_trans@.len() - i,
        {
            let ghost before = texts(merkle@);
            let hash = curr_trans[i].digest();
            merkle.push(hash);
            proof {
                assert(leaves[i as int] == transaction_digest(curr_trans@[i as int]@));
                assert(texts(merkle@) =~= before.push(hash@));
                assert(leaves.take(i as int + 1) =~= leaves.take(i as int).push(leaves[i as int]));
            }
            i = i + 1;
        }
        proof {
            assert(leaves.take(i as int) =~= leaves);
        }
        if merkle.len() % 2 == 1 {
            let last = merkle[merkle.len() - 1].clone();
            merkle.push(last);
            proof {
                assert(texts(merkle@) =~= pad_even(leaves));
            }
        }
        while merkle.len() > 1
            invariant
                merkle@.len() >= 1,
                reduce(texts(merkle@)) == reduce(pad_even(leaves)),
            decreases merkle@.len(),
        {
            let ghost before = texts(merkle@);
            let mut h1 = merkle.remove(0);
            let h2 = merkle.remove(0);
            h1.append(h2.as_str());
            let joined = json_of_str(h1.as_str());
            let nh = Blockchain::hash(joined.as_str());
            merkle.push(nh);
            proof {
                assert(texts(merkle@) =~= before.skip(2).push(node_digest(before[0], before[1])));
            }
        }
        let root = merkle.remove(0);
        proof {
            assert(texts(seq![root]) =~= seq![root@]);
        }
        root
    }
}

} // verus!
