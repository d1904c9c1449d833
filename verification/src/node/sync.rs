//! Chain synchronisation decisions of the node.

use vstd::prelude::*;
use crate::chain::block::{Block, block_hash_of};
use crate::chain::blockchain::{Blockchain, chain_valid};

verus! {

/// Decides whether a block gossiped by a peer extends the local chain, and
/// appends it if so: its stored hash must be the hash of its fields, and it
/// must link to the current tip.
pub fn accept_peer_block(local: &mut Blockchain, block: Block) -> (r: bool)
    ensures
        r == (block.hash@ == block_hash_of(block) && old(local).chain@.len() > 0
            && block.prev_hash@ == old(local).chain@.last().hash@),
        r ==> final(local).chain@ == old(local).chain@.push(block),
        r ==> final(local).mempool == old(local).mempool,
        r ==> final(local).difficulty == old(local).difficulty,
        !r ==> *final(local) == *old(local),
{
    let hash_ok = block.hash().same_as(&block.compute_hash());
    let n = local.chain.len();
    let linked = n > 0 && local.chain[n - 1].hash().same_as(block.prev_hash());
    if hash_ok && linked {
        local.push_block(block);
        true
    } else {
        false
    }
}

/// The longest-chain rule: adopts a peer's chain when it is longer than the
/// local one and valid.
pub fn adopt_longer_chain(local: &mut Blockchain, received: Blockchain) -> (r: bool)
    ensures
        r == (received.chain@.len() > old(local).chain@.len() && chain_valid(received.chain@)),
        r ==> *final(local) == received,
        !r ==> *final(local) == *old(local),
{
    if received.chain.len() > local.chain.len() && received.validate() {
        *local = received;
        true
    } else {
        false
    }
}

/// Whether two byte strings are equal.
fn same_bytes(a: &[u8], b: &[u8]) -> (r: bool)
    ensures
        r == (a@ == b@),
{
    if a.len() != b.len() {
        return false;
    }
    let n = a.len();
    for i in 0..n
        invariant
            n == a@.len(),
            n == b@.len(),
            forall|j: int| 0 <= j < i ==> a@[j] == b@[j],
    {
        if a[i] != b[i] {
            return false;
        }
    }
    assert(a@ =~= b@);
    true
}

/// The peers (by their identity bytes) whose chain was already requested on
/// the current connection.
pub struct SyncedPeers {
    pub peers: Vec<Vec<u8>>,
}

/// The set of peer identities a list holds.
pub open spec fn peer_set(peers: Seq<Vec<u8>>) -> Set<Seq<u8>> {
    Set::new(|p: Seq<u8>| exists|i: int| 0 <= i < peers.len() && #[trigger] peers[i]@ == p)
}

impl SyncedPeers {
    /// The set of synced peers.
    pub open spec fn set(&self) -> Set<Seq<u8>> {
        peer_set(self.peers@)
    }

    /// No peer synced yet.
    pub fn new() -> (r: SyncedPeers)
        ensures
            r.set() == Set::<Seq<u8>>::empty(),
    {
        let r = SyncedPeers { peers: Vec::new() };
        assert(r.set() =~= Set::<Seq<u8>>::empty());
        r
    }

    fn position(&self, peer: &[u8]) -> (r: Option<usize>)
        ensures
            match r {
                Some(i) => i < self.peers@.len() && self.peers@[i as int]@ == peer@,
                None => !self.set().contains(peer@),
            },
    {
        let n = self.peers.len();
        for i in 0..n
            invariant
                n == self.peers@.len(),
                forall|j: int| 0 <= j < i ==> self.peers@[j]@ != peer@,
        {
            if same_bytes(self.peers[i].as_slice(), peer) {
                return Some(i);
            }
        }
        None
    }

    /// A connection with `peer` was established. Returns whether the peer was
    /// not synced yet, that is, whether its chain is to be requested now; the
    /// peer is synced afterwards either way.
    pub fn connection_established(&mut self, peer: Vec<u8>) -> (r: bool)
        ensures
            r == !old(self).set().contains(peer@),
            final(self).set() == old(self).set().insert(peer@),
    {
        match self.position(peer.as_slice()) {
            Some(_) => {
                assert(self.set() =~= old(self).set().insert(peer@));
                false
            },
            None => {
                let ghost p = peer@;
                self.peers.push(peer);
                assert forall|q: Seq<u8>| self.set().contains(q) <==> old(self).set().insert(p).contains(q) by {
                    if self.set().contains(q) {
                        let i = choose|i: int| 0 <= i < self.peers@.len() && #[trigger] self.peers@[i]@ == q;
                        if i < old(self).peers@.len() {
                            assert(old(self).peers@[i] == self.peers@[i]);
                        }
                    }
                    if old(self).set().contains(q) {
                        let i = choose|i: int| 0 <= i < old(self).peers@.len() && #[trigger] old(self).peers@[i]@ == q;
                        assert(self.peers@[i] == old(self).peers@[i]);
                    }
                    if q == p {
                        assert(self.peers@[self.peers@.len() - 1]@ == p);
                    }
                }
                assert(self.set() =~= old(self).set().insert(p));
                true
            },
        }
    }

    /// A connection with `peer` was closed; a later connection syncs again.
    /// Returns whether the peer was synced.
    pub fn connection_closed(&mut self, peer: &[u8]) -> (r: bool)
        ensures
            r == old(self).set().contains(peer@),
            final(self).set() == old(self).set().remove(peer@),
    {
        let mut removed = false;
        let mut i: usize = 0;
        let ghost p = peer@;
        while i < self.peers.len()
            invariant
                i <= self.peers@.len(),
                forall|j: int| 0 <= j < i ==> self.peers@[j]@ != p,
                peer@ == p,
                removed ==> old(self).set().contains(p),
                !removed ==> self.peers@ == old(self).peers@,
                self.set().remove(p) == old(self).set().remove(p),
            decreases self.peers@.len() - i,
        {
            if same_bytes(self.peers[i].as_slice(), peer) {
                let ghost before = self.peers@;
                self.peers.remove(i);
                proof {
                    assert forall|q: Seq<u8>| q != p implies (self.set().contains(q) <==> peer_set(before).contains(q)) by {
                        if self.set().contains(q) {
                            let k = choose|k: int| 0 <= k < self.peers@.len() && #[trigger] self.peers@[k]@ == q;
                            if k < i {
                                assert(before[k] == self.peers@[k]);
                            } else {
                                assert(before[k + 1] == self.peers@[k]);
                            }
                        }
                        if peer_set(before).contains(q) {
                            let k = choose|k: int| 0 <= k < before.len() && #[trigger] before[k]@ == q;
                            if k < i {
                                assert(self.peers@[k] == before[k]);
                            } else {
                                assert(k != i);
                                assert(self.peers@[k - 1] == before[k]);
                            }
                        }
                    }
                    assert(self.set().remove(p) =~= peer_set(before).remove(p));
                    if !removed {
                        assert(before[i as int]@ == p);
                        assert(old(self).set().contains(p));
                    }
                }
                removed = true;
            } else {
                i = i + 1;
            }
        }
        proof {
            assert(!self.set().contains(p)) by {
                if self.set().contains(p) {
                    let k = choose|k: int| 0 <= k < self.peers@.len() && #[trigger] self.peers@[k]@ == p;
                }
            }
            assert(self.set() =~= self.set().remove(p));
            if !removed {
                assert(old(self).set() =~= self.set());
            }
        }
        removed
    }
}

} // verus!
