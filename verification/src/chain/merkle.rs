//! Merkle tree root computation for transaction sets.

use vstd::prelude::*;
use vstd::utf8::encode_utf8;
use crate::encoding::{hex_lower, decimal, to_hex, push_hex, push_decimal};
use crate::crypto::primitives::{sha256, sha256_digest};
use crate::crypto::transaction::{Transaction, tx_content};

verus! {

/// SHA-256 of the UTF-8 bytes of `text`, as lowercase hex.
pub open spec fn sha256_hex(text: Seq<char>) -> Seq<char> {
    hex_lower(sha256(encode_utf8(text))@)
}

/// The texts of a sequence of hashes.
pub open spec fn hash_texts(hs: Seq<crate::types::Hash>) -> Seq<Seq<char>> {
    hs.map_values(|h: crate::types::Hash| h@)
}

/// One layer up the tree: each pair is hashed as `left || right`; an odd last
/// node is paired with itself.
pub open spec fn merkle_level(hs: Seq<Seq<char>>) -> Seq<Seq<char>> {
    Seq::new(
        ((hs.len() + 1) / 2) as nat,
        |i: int|
            sha256_hex(
                hs[2 * i] + if 2 * i + 1 < hs.len() {
                    hs[2 * i + 1]
                } else {
                    hs[2 * i]
                },
            ),
    )
}

/// Reduces layers until one node is left; that node is the root.
pub open spec fn merkle_fold(hs: Seq<Seq<char>>) -> Seq<char>
    decreases hs.len(),
{
    if hs.len() == 0 {
        Seq::empty()
    } else if hs.len() == 1 {
        hs[0]
    } else {
        merkle_fold(merkle_level(hs))
    }
}

/// The leaf of a transaction: SHA-256 of `hex(sender) || hex(receiver) || amount || nonce`.
pub open spec fn tx_leaf(tx: Transaction) -> Seq<char> {
    sha256_hex(tx_content(tx))
}

/// The Merkle root of `txs`; empty for no transactions.
pub open spec fn merkle_root_of(txs: Seq<Transaction>) -> Seq<char> {
    merkle_fold(Seq::new(txs.len(), |i: int| tx_leaf(txs[i])))
}

/// The leaf of the nonce-free variant: SHA-256 of `hex(sender) || hex(receiver) || amount`.
pub open spec fn tx_leaf_without_nonce(tx: Transaction) -> Seq<char> {
    sha256_hex(hex_lower(tx.sender@) + hex_lower(tx.receiver@) + decimal(tx.amount as nat))
}

/// The root of the nonce-free variant.
pub open spec fn merklee_root_of(txs: Seq<Transaction>) -> Seq<char> {
    merkle_fold(Seq::new(txs.len(), |i: int| tx_leaf_without_nonce(txs[i])))
}

/// Each level up the tree hashes adjacent nodes, left then right, and an odd
/// last node with itself; the level has half as many nodes, rounded up.
pub proof fn merkle_level_pairs_adjacent_nodes(hs: Seq<Seq<char>>)
    ensures
        merkle_level(hs).len() == (hs.len() + 1) / 2,
        forall|i: int|
            0 <= i && 2 * i + 1 < hs.len() ==> #[trigger] merkle_level(hs)[i] == sha256_hex(
                hs[2 * i] + hs[2 * i + 1],
            ),
        hs.len() % 2 == 1 ==> merkle_level(hs)[(hs.len() / 2) as int] == sha256_hex(
            hs[hs.len() - 1] + hs[hs.len() - 1],
        ),
{
}

/// The root of a single node is that node, and the root of more nodes is the
/// root of the level above them.
pub proof fn merkle_root_climbs_level_by_level(hs: Seq<Seq<char>>)
    ensures
        hs.len() == 1 ==> merkle_fold(hs) == hs[0],
        hs.len() > 1 ==> merkle_fold(hs) == merkle_fold(merkle_level(hs)),
{
}

/// The root of up to four transactions, written out over their leaves
/// `sha256_hex(tx_content(tx))`: none give the empty root, one gives its leaf,
/// and more are hashed in adjacent pairs, in order, up to a single node.
pub proof fn merkle_root_of_small_trees(txs: Seq<Transaction>)
    ensures
        txs.len() == 0 ==> merkle_root_of(txs) == Seq::<char>::empty(),
        txs.len() == 1 ==> merkle_root_of(txs) == sha256_hex(tx_content(txs[0])),
        txs.len() == 2 ==> merkle_root_of(txs) == sha256_hex(
            sha256_hex(tx_content(txs[0])) + sha256_hex(tx_content(txs[1])),
        ),
        txs.len() == 3 ==> merkle_root_of(txs) == sha256_hex(
            sha256_hex(sha256_hex(tx_content(txs[0])) + sha256_hex(tx_content(txs[1])))
                + sha256_hex(sha256_hex(tx_content(txs[2])) + sha256_hex(tx_content(txs[2]))),
        ),
        txs.len() == 4 ==> merkle_root_of(txs) == sha256_hex(
            sha256_hex(sha256_hex(tx_content(txs[0])) + sha256_hex(tx_content(txs[1])))
                + sha256_hex(sha256_hex(tx_content(txs[2])) + sha256_hex(tx_content(txs[3]))),
        ),
{
    let leaves = Seq::new(txs.len(), |i: int| tx_leaf(txs[i]));
    if 2 <= txs.len() <= 4 {
        let l1 = merkle_level(leaves);
        if txs.len() >= 3 {
            let l2 = merkle_level(l1);
            assert(l2.len() == 1);
            assert(merkle_fold(l2) == l2[0]);
            assert(merkle_fold(l1) == merkle_fold(l2));
        } else {
            assert(merkle_fold(l1) == l1[0]);
        }
    }
}

/// SHA-256 of `content`, as a lowercase hex hash.
pub fn sha256_hex_of(content: &str) -> (r: crate::types::Hash)
    ensures
        r@ == sha256_hex(content@),
{
    let digest = sha256_digest(content.as_bytes());
    crate::types::Hash(to_hex(digest.as_slice()))
}

fn combine(left: &crate::types::Hash, right: &crate::types::Hash) -> (r: crate::types::Hash)
    ensures
        r@ == sha256_hex(left@ + right@),
{
    let mut s = String::new();
    s.append(left.as_str());
    s.append(right.as_str());
    sha256_hex_of(s.as_str())
}

/// Reduces a non-empty layer of hashes to the root.
fn fold_layers(leaves: Vec<crate::types::Hash>) -> (r: crate::types::Hash)
    requires
        leaves@.len() >= 1,
    ensures
        r@ == merkle_fold(hash_texts(leaves@)),
{
    let mut hashes = leaves;
    let ghost target = merkle_fold(hash_texts(hashes@));
    while hashes.len() > 1
        invariant
            hashes@.len() >= 1,
            merkle_fold(hash_texts(hashes@)) == target,
        decreases hashes@.len(),
    {
        let n = hashes.len();
        let ghost level = merkle_level(hash_texts(hashes@));
        let mut next: Vec<crate::types::Hash> = Vec::new();
        let half = n / 2 + n % 2;
        assert(half == (n + 1) / 2);
        let mut k: usize = 0;
        while k < half
            invariant
                n == hashes@.len(),
                n > 1,
                level == merkle_level(hash_texts(hashes@)),
                half == (n + 1) / 2,
                k <= half,
                next@.len() == k,
                forall|j: int| 0 <= j < k ==> #[trigger] next@[j]@ == level[j],
            decreases half - k,
        {
            let left = &hashes[2 * k];
            let right = if 2 * k + 1 < n {
                &hashes[2 * k + 1]
            } else {
                left
            };
            let h = combine(left, right);
            next.push(h);
            k = k + 1;
        }
        assert(hash_texts(next@) =~= level);
        hashes = next;
    }
    hashes[0].duplicate()
}

/// Computes the SHA-256 Merkle root of `transactions`.
///
/// Returns an empty hash when `transactions` is empty.
/// Odd-length layers duplicate the last hash before combining pairs.
pub fn merkle_root(transactions: &[Transaction]) -> (r: crate::types::Hash)
    ensures
        r@ == merkle_root_of(transactions@),
{
    let n = transactions.len();
    if n == 0 {
        return crate::types::Hash::empty();
    }
    let mut leaves: Vec<crate::types::Hash> = Vec::new();
    for i in 0..n
        invariant
            n == transactions@.len(),
            leaves@.len() == i,
            forall|j: int| 0 <= j < i ==> #[trigger] leaves@[j]@ == tx_leaf(transactions@[j]),
    {
        let tx = &transactions[i];
        let content = tx.content();
        leaves.push(sha256_hex_of(content.as_str()));
    }
    assert(hash_texts(leaves@) =~= Seq::new(n as nat, |i: int| tx_leaf(transactions@[i])));
    fold_layers(leaves)
}

/// The Merkle root of `transactions` over leaves that leave out the nonce:
/// SHA-256 of `hex(sender) || hex(receiver) || amount`. Empty for no transactions.
pub fn merklee_root(transactions: &[Transaction]) -> (r: String)
    ensures
        r@ == merklee_root_of(transactions@),
{
    let n = transactions.len();
    if n == 0 {
        return String::new();
    }
    let mut leaves: Vec<crate::types::Hash> = Vec::new();
    for i in 0..n
        invariant
            n == transactions@.len(),
            leaves@.len() == i,
            forall|j: int|
                0 <= j < i ==> #[trigger] leaves@[j]@ == tx_leaf_without_nonce(transactions@[j]),
    {
        let tx = &transactions[i];
        let mut content = String::new();
        push_hex(&mut content, tx.sender.0.as_slice());
        push_hex(&mut content, tx.receiver.0.as_slice());
        push_decimal(&mut content, tx.amount);
        leaves.push(sha256_hex_of(content.as_str()));
    }
    assert(hash_texts(leaves@) =~= Seq::new(n as nat, |i: int| tx_leaf_without_nonce(transactions@[i])));
    let root = fold_layers(leaves);
    root.0
}

} // verus!
