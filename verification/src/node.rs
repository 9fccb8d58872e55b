//! The coordinator state: one ledger plus the list of registered peer
//! addresses. Peers are kept as given — no deduplication, no liveness checks —
//! and the broadcast hook is a deliberate no-op extension point.

use vstd::prelude::*;

use crate::blockchain::{
    chain_valid, opt_str_view, spec_block_hash, spec_chain_check, Block, Blockchain,
    IntegrityViolation,
};

verus! {

/// One ledger and the peer addresses registered with it.
pub struct Node {
    /// Peer addresses, in registration order.
    pub peers: Vec<String>,
    /// The ledger this node maintains.
    pub blockchain: Blockchain,
}

impl Node {
    /// A fresh node: no peers, a ledger holding only the genesis block.
    pub fn init() -> (r: Self)
        ensures
            r.peers@.len() == 0,
            r.blockchain.valid(),
            r.blockchain.blocks@.len() == 1,
    {
        Node { peers: Vec::new(), blockchain: Blockchain::new() }
    }

    /// Mints the next block over the given payload and returns a reference to
    /// it; the peer list is untouched.
    pub fn mint(&mut self, data: String) -> (r: &Block)
        requires
            old(self).blockchain.blocks@.len() >= 1,
            old(self).blockchain.blocks@.last().index < usize::MAX,
        ensures
            final(self).peers == old(self).peers,
            final(self).blockchain.blocks@.len() == old(self).blockchain.blocks@.len() + 1,
            final(self).blockchain.blocks@ == old(self).blockchain.blocks@.push(
                final(self).blockchain.blocks@.last(),
            ),
            *r == final(self).blockchain.blocks@.last(),
            ({
                let nb = final(self).blockchain.blocks@.last();
                &&& nb.index == old(self).blockchain.blocks@.last().index + 1
                &&& nb.previous_hash == old(self).blockchain.blocks@.last().hash
                &&& nb.data == data
                &&& opt_str_view(nb.hash) == Option::Some(spec_block_hash(nb))
            }),
            old(self).blockchain.valid() ==> final(self).blockchain.valid(),
    {
        self.blockchain.mint_next_block(data)
    }

    /// Adopts the candidate sequence exactly when the ledger does, and then
    /// triggers the broadcast hook; the peer list is untouched either way.
    pub fn replace_chain(&mut self, new_blocks: &Vec<Block>) -> (r: Result<(), ()>)
        ensures
            final(self).peers == old(self).peers,
            r is Ok <==> (spec_chain_check(new_blocks@) == Result::<
                (),
                (int, IntegrityViolation),
            >::Ok(()) && new_blocks@.len() > old(self).blockchain.blocks@.len()),
            r is Ok ==> final(self).blockchain.blocks@ == new_blocks@,
            r is Err ==> *final(self) == *old(self),
            old(self).blockchain.valid() ==> final(self).blockchain.valid(),
    {
        match self.blockchain.replace_chain(new_blocks) {
            Result::Ok(u) => {
                self.broadcast_latest();
                Result::Ok(())
            },
            Result::Err(u) => Result::Err(()),
        }
    }

    /// Registers one peer address at the end of the list; the ledger is
    /// untouched.
    pub fn connect_to_peer(&mut self, peer: String)
        ensures
            final(self).peers@ == old(self).peers@.push(peer),
            final(self).blockchain == old(self).blockchain,
    {
        self.peers.push(peer);
    }

    /// Extension point for announcing the latest block to peers; deliberately
    /// performs no action.
    fn broadcast_latest(&self) {
    }
}

} // verus!
