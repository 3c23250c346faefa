//! The live connections of a listener, found by remote address.

use crate::address::{lemma_key_injective, SocketAddress};
use crate::tcp_client::TcpClient;
use std::collections::HashMap;
use vstd::prelude::*;

verus! {

/// The accepted peers of a listener, one per remote address. Registering a
/// peer under an address that is taken replaces the earlier peer.
#[derive(Debug)]
pub struct Registry {
    peers: HashMap<u64, TcpClient>,
}

/// Every peer is filed under its own address.
pub open spec fn filed_by_address(peers: Map<SocketAddress, TcpClient>) -> bool {
    forall|addr: SocketAddress| #[trigger]
        peers.contains_key(addr) ==> peers[addr].socket_addr == addr
}

impl View for Registry {
    type V = Map<SocketAddress, TcpClient>;

    closed spec fn view(&self) -> Map<SocketAddress, TcpClient> {
        Map::new(
            |addr: SocketAddress| self.peers@.contains_key(addr.spec_key()),
            |addr: SocketAddress| self.peers@[addr.spec_key()],
        )
    }
}

impl Registry {
    /// The registry is well formed: in its table every peer stands at the
    /// key of its own address.
    pub closed spec fn wf(&self) -> bool {
        forall|k: u64| #[trigger]
            self.peers@.contains_key(k) ==> self.peers@[k].socket_addr.spec_key() == k
    }

    /// A registry without peers.
    pub fn new() -> (registry: Self)
        ensures
            registry.wf(),
            registry@ == Map::<SocketAddress, TcpClient>::empty(),
    {
        let registry = Registry { peers: HashMap::new() };
        proof {
            assert(registry@ =~= Map::<SocketAddress, TcpClient>::empty());
        }
        registry
    }

    /// Files `client` under its address, in place of whoever was there.
    pub fn insert(&mut self, client: TcpClient)
        requires
            old(self).wf(),
        ensures
            final(self).wf(),
            final(self)@ == old(self)@.insert(client.socket_addr, client),
    {
        let ghost before = self.peers@;
        self.peers.insert(client.socket_addr.key(), client);
        proof {
            assert forall|addr: SocketAddress| #[trigger]
                addr.spec_key() == client.socket_addr.spec_key() implies addr
                == client.socket_addr by {
                lemma_key_injective(addr, client.socket_addr);
            }
            assert(self@ =~= Map::new(
                |addr: SocketAddress| before.contains_key(addr.spec_key()),
                |addr: SocketAddress| before[addr.spec_key()],
            ).insert(client.socket_addr, client));
        }
    }

    /// The peer at `addr`, if there is one.
    pub fn get(&self, addr: SocketAddress) -> (found: Option<TcpClient>)
        requires
            self.wf(),
        ensures
            found == if self@.contains_key(addr) {
                Some(self@[addr])
            } else {
                None
            },
            found matches Some(client) ==> client.socket_addr == addr,
    {
        let key = addr.key();
        match self.peers.get(&key) {
            Some(client) => {
                proof {
                    lemma_key_injective(client.socket_addr, addr);
                }
                Some(*client)
            },
            None => None,
        }
    }

    /// Whether a peer is filed under `addr`.
    pub fn contains(&self, addr: SocketAddress) -> (present: bool)
        ensures
            present == self@.contains_key(addr),
    {
        let key = addr.key();
        self.peers.contains_key(&key)
    }

    /// Takes the peer at `addr` out, if there is one, and leaves the others.
    pub fn remove(&mut self, addr: SocketAddress) -> (taken: Option<TcpClient>)
        requires
            old(self).wf(),
        ensures
            final(self).wf(),
            final(self)@ == old(self)@.remove(addr),
            taken == if old(self)@.contains_key(addr) {
                Some(old(self)@[addr])
            } else {
                None
            },
    {
        let ghost before = self.peers@;
        let key = addr.key();
        let taken = self.peers.remove(&key);
        proof {
            assert forall|other: SocketAddress| #[trigger]
                other.spec_key() == addr.spec_key() implies other == addr by {
                lemma_key_injective(other, addr);
            }
            assert(self@ =~= Map::new(
                |a: SocketAddress| before.contains_key(a.spec_key()),
                |a: SocketAddress| before[a.spec_key()],
            ).remove(addr));
        }
        taken
    }

    /// In a well-formed registry every peer is filed under its own address.
    pub proof fn lemma_filed_by_address(&self)
        requires
            self.wf(),
        ensures
            filed_by_address(self@),
    {
        assert forall|addr: SocketAddress| #[trigger]
            self@.contains_key(addr) implies self@[addr].socket_addr == addr by {
            lemma_key_injective(self@[addr].socket_addr, addr);
        }
    }
}

} // verus!
