//! The mio server's table of connected peers, keyed by the poll token that each
//! peer was registered with. Token `0` is the listening socket's; peers get
//! tokens `1, 2, 3, ...`, never one twice.

use std::collections::HashMap;
use vstd::prelude::*;

verus! {

broadcast use vstd::std_specs::hash::group_hash_axioms;

/// The token of the listening socket.
pub const SERVER_TOKEN: usize = 0;

/// Connected peers by token, and the token that the next peer will get.
pub struct PeerTable<T> {
    next_token: usize,
    peers: HashMap<usize, T>,
}

impl<T> PeerTable<T> {
    /// Every peer's token was handed out already: it lies in `1 .. next`.
    #[verifier::type_invariant]
    spec fn tokens_handed_out(self) -> bool {
        &&& self.next_token >= 1
        &&& forall|t: usize| #[trigger] self.peers@.contains_key(t) ==> 1 <= t < self.next_token
    }

    /// The token that the next registered peer gets.
    pub closed spec fn next(self) -> nat {
        self.next_token as nat
    }

    /// The connected peers by token.
    pub closed spec fn peers(self) -> Map<usize, T> {
        self.peers@
    }

    /// Every peer's token lies in `1 .. next`: none is the server's token and
    /// none is the token that the next peer gets.
    pub open spec fn tokens_issued(self) -> bool {
        &&& self.next() >= 1
        &&& forall|t: usize| #[trigger] self.peers().contains_key(t) ==> 1 <= t < self.next()
    }

    /// An empty table; the first peer gets token `1`.
    pub fn new() -> (r: Self)
        ensures
            r.next() == 1,
            r.peers() == Map::<usize, T>::empty(),
            r.tokens_issued(),
    {
        PeerTable { next_token: 1, peers: HashMap::new() }
    }

    /// The token that the next registered peer gets.
    pub fn next_token(&self) -> (r: usize)
        ensures
            r == self.next(),
    {
        self.next_token
    }

    /// Whether `token` was handed out to a peer already (it lies in `1 .. next`).
    pub fn was_issued(&self, token: usize) -> (r: bool)
        ensures
            r == (1 <= token < self.next()),
    {
        1 <= token && token < self.next_token
    }

    /// Adds a peer under the next token, which it returns; the token after it
    /// is one higher. The token is neither the server's nor any connected peer's.
    pub fn register(&mut self, peer: T) -> (token: usize)
        requires
            old(self).next() < usize::MAX,
        ensures
            token == old(self).next(),
            token != SERVER_TOKEN,
            !old(self).peers().contains_key(token),
            final(self).next() == old(self).next() + 1,
            final(self).peers() == old(self).peers().insert(token, peer),
            final(self).tokens_issued(),
    {
        proof {
            use_type_invariant(&*self);
        }
        let token = self.next_token;
        self.next_token = token + 1;
        let mut peers = HashMap::new();
        std::mem::swap(&mut peers, &mut self.peers);
        peers.insert(token, peer);
        self.peers = peers;
        proof {
            use_type_invariant(&*self);
        }
        token
    }

    /// Removes and returns the peer under `token`, if there is one.
    pub fn take(&mut self, token: usize) -> (r: Option<T>)
        ensures
            final(self).next() == old(self).next(),
            final(self).peers() == old(self).peers().remove(token),
            r == (if old(self).peers().contains_key(token) {
                Some(old(self).peers()[token])
            } else {
                None
            }),
            final(self).tokens_issued(),
    {
        proof {
            use_type_invariant(&*self);
        }
        let mut peers = HashMap::new();
        std::mem::swap(&mut peers, &mut self.peers);
        let r = peers.remove(&token);
        self.peers = peers;
        proof {
            use_type_invariant(&*self);
        }
        r
    }

    /// Puts a peer back under a token that was handed out before.
    pub fn restore(&mut self, token: usize, peer: T)
        requires
            1 <= token < old(self).next(),
        ensures
            final(self).next() == old(self).next(),
            final(self).peers() == old(self).peers().insert(token, peer),
            final(self).tokens_issued(),
    {
        proof {
            use_type_invariant(&*self);
        }
        let mut peers = HashMap::new();
        std::mem::swap(&mut peers, &mut self.peers);
        peers.insert(token, peer);
        self.peers = peers;
        proof {
            use_type_invariant(&*self);
        }
    }

    /// The number of connected peers.
    pub fn len(&self) -> (r: usize)
        ensures
            r == self.peers().len(),
    {
        self.peers.len()
    }
}

/// Law: taking a peer out and putting it back under the same token leaves the
/// table's peers as they were.
pub proof fn lemma_take_then_restore<T>(peers: Map<usize, T>, token: usize)
    requires
        peers.contains_key(token),
    ensures
        peers.remove(token).insert(token, peers[token]) == peers,
{
    assert(peers.remove(token).insert(token, peers[token]) =~= peers);
}

} // verus!
