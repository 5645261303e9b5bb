//! The peer manager: the process-wide registry of connections, candidates
//! and restricted peers, admission control, the heartbeat, and gossip
//! fan-out with per-peer deduplication.
//!
//! All mutation goes through [`Peers::update`], which takes one request and
//! the current time and returns the actions the surrounding event loop must
//! perform (dial, accept, deliver); the loop reports outcomes back as further
//! requests. The registry's invariants — unique keys everywhere, and the
//! candidate and connected sets disjoint — hold after every update.

use vstd::prelude::*;
use crate::address::{Addr, spec_is_self_address, is_self_address};
use crate::assoc::{
    spec_pairs_unique, spec_pair_has, spec_pair_get, spec_elems_unique, spec_upserted,
    spec_removed, lemma_pair_get, addr_pair_find, id_pair_find, addr_map_upsert, addr_map_remove,
    addr_set_contains, addr_set_insert, addr_set_remove, id_map_upsert,
};
use crate::config::{
    NodeType, MAXIMUM_NUMBER_OF_PEERS, MINIMUM_NUMBER_OF_PEERS, MAXIMUM_CANDIDATE_PEERS,
    MAXIMUM_CONNECTION_FAILURES, RADIO_SILENCE_IN_SECS, spec_elapsed, elapsed_secs,
};
use crate::message::Message;
use crate::block::spec_block_hash;
use crate::random::{random_nonce, choose_candidates};

verus! {

/// A request processed by [`Peers::update`]; all registry mutation is
/// serialized through these.
#[derive(Debug)]
pub enum PeersRequest {
    /// Ask to dial this address.
    Connect(Addr),
    /// The periodic rebalance.
    Heartbeat,
    /// Send a message to every connected peer but the sender.
    MessagePropagate(Addr, Message),
    /// Send a message to one peer.
    MessageSend(Addr, Message),
    /// An inbound connection from this address awaits admission.
    PeerConnecting(Addr),
    /// A handshake completed: the peer's listener address and nonce.
    PeerConnected(Addr, u64),
    /// The connection to this peer ended.
    PeerDisconnected(Addr),
    /// This peer misbehaved; bar it for the radio-silence window.
    PeerRestricted(Addr),
    /// Send this peer the list of connected peers.
    SendPeerResponse(Addr),
    /// A peer shared its own peer list.
    ReceivePeerResponse(Vec<Addr>),
}

/// An action the surrounding event loop must perform for the registry.
#[derive(Debug)]
pub enum PeerAction {
    /// Open a TCP connection to this address (with the connection timeout)
    /// and run the handshake on it; report failure as a failed dial.
    Dial(Addr),
    /// Proceed with the handshake on the admitted inbound connection.
    AcceptConnection(Addr),
    /// Put this message on the outbound channel of each listed peer;
    /// report a closed channel as a channel failure.
    Deliver(Vec<Addr>, Message),
    /// Enqueue a `Connect` request for this address.
    RequestConnect(Addr),
}

/// The inbound-connection tracker for one lookup key: the first-seen source
/// port, the number of attempts, and when the window began.
#[derive(Clone, Copy, PartialEq, Eq, Structural, Debug)]
pub struct InboundAttempts {
    /// The source port first seen in the current window.
    pub initial_port: u16,
    /// Connection attempts inside the current window.
    pub num_attempts: u32,
    /// When the current window began.
    pub last_seen: u64,
}

/// A per-peer gossip table: item identifier to the time it was last sent.
pub type GossipTable = Vec<(Addr, Vec<(u64, u64)>)>;

/// A gossip table is well formed when its peer keys and each peer's item
/// keys are distinct.
pub open spec fn spec_gossip_table_wf(tbl: Seq<(Addr, Vec<(u64, u64)>)>) -> bool {
    &&& spec_pairs_unique(tbl)
    &&& forall|k: int| 0 <= k < tbl.len() ==> spec_pairs_unique((#[trigger] tbl[k]).1@)
}

/// When an item was last sent to a peer; zero (the epoch) if never.
pub open spec fn spec_outbound_last_seen(
    tbl: Seq<(Addr, Vec<(u64, u64)>)>,
    peer: Addr,
    item: u64,
) -> u64 {
    if spec_pair_has(tbl, peer) {
        let inner = spec_pair_get(tbl, peer);
        if spec_pair_has(inner@, item) {
            spec_pair_get(inner@, item)
        } else {
            0
        }
    } else {
        0
    }
}

/// Gossip of an item to a peer is due again once at least a full
/// radio-silence window has passed since it was last sent there; strictly
/// within the window it is skipped.
pub open spec fn spec_gossip_ready(last_seen: u64, now: u64) -> bool {
    spec_elapsed(now, last_seen) >= RADIO_SILENCE_IN_SECS
}

/// The identifier under which a message is deduplicated per peer: the block
/// hash of an unconfirmed block, the transaction identifier of an
/// unconfirmed transaction; other messages are never deduplicated.
pub open spec fn spec_gossip_id(m: Message) -> Option<(bool, u64)> {
    match m {
        Message::UnconfirmedBlock(b) => Some((true, spec_block_hash(b@))),
        Message::UnconfirmedTransaction(t) => Some((false, t.transaction_id)),
        _ => None,
    }
}

/// The listener addresses of a connected-peer table, in table order.
pub open spec fn spec_connected_addrs(c: Seq<(Addr, u64)>) -> Seq<Addr> {
    c.map_values(|p: (Addr, u64)| p.0)
}

/// The nonces of a connected-peer table, in table order.
pub open spec fn spec_connected_nonces(c: Seq<(Addr, u64)>) -> Seq<u64> {
    c.map_values(|p: (Addr, u64)| p.1)
}

/// The registry of peers.
pub struct Peers {
    /// The local listener address.
    pub local_ip: Addr,
    /// The random nonce of this process lifetime.
    pub local_nonce: u64,
    /// The role this node plays.
    pub node_type: NodeType,
    /// Well-known synchronization nodes, exempt from heartbeat disconnects.
    pub sync_nodes: Vec<Addr>,
    /// Configured peer nodes, exempt from heartbeat disconnects.
    pub peer_nodes: Vec<Addr>,
    /// Connected peers: listener address to handshake nonce.
    pub connected_peers: Vec<(Addr, u64)>,
    /// Known but unconnected peers.
    pub candidate_peers: Vec<Addr>,
    /// Restricted peers: address to when the restriction began.
    pub restricted_peers: Vec<(Addr, u64)>,
    /// Inbound-connection rate tracking, keyed by the sanitized address.
    pub seen_inbound_connections: Vec<(Addr, InboundAttempts)>,
    /// When each address was last dialed.
    pub seen_outbound_connections: Vec<(Addr, u64)>,
    /// Per-peer gossip dedup for unconfirmed blocks.
    pub seen_outbound_blocks: GossipTable,
    /// Per-peer gossip dedup for unconfirmed transactions.
    pub seen_outbound_transactions: GossipTable,
}

impl Peers {
    /// Every table keeps distinct keys, and no candidate is connected.
    pub open spec fn wf(&self) -> bool {
        &&& spec_pairs_unique(self.connected_peers@)
        &&& spec_elems_unique(self.candidate_peers@)
        &&& spec_pairs_unique(self.restricted_peers@)
        &&& spec_pairs_unique(self.seen_inbound_connections@)
        &&& spec_pairs_unique(self.seen_outbound_connections@)
        &&& spec_gossip_table_wf(self.seen_outbound_blocks@)
        &&& spec_gossip_table_wf(self.seen_outbound_transactions@)
        &&& forall|a: Addr| #[trigger] spec_pair_has(self.connected_peers@, a)
            ==> !self.candidate_peers@.contains(a)
    }

    /// The configuration fields never change.
    pub open spec fn spec_same_config(&self, other: &Peers) -> bool {
        &&& self.local_ip == other.local_ip
        &&& self.local_nonce == other.local_nonce
        &&& self.node_type == other.node_type
        &&& self.sync_nodes@ == other.sync_nodes@
        &&& self.peer_nodes@ == other.peer_nodes@
    }

    /// Creates the registry: empty tables, and a fresh random session nonce
    /// unless one is supplied.
    pub fn new(
        local_ip: Addr,
        local_nonce: Option<u64>,
        node_type: NodeType,
        sync_nodes: Vec<Addr>,
        peer_nodes: Vec<Addr>,
    ) -> (r: Peers)
        ensures
            r.wf(),
            r.local_ip == local_ip,
            (match local_nonce {
                Some(n) => r.local_nonce == n,
                None => true,
            }),
            r.node_type == node_type,
            r.sync_nodes@ == sync_nodes@,
            r.peer_nodes@ == peer_nodes@,
            r.connected_peers@.len() == 0,
            r.candidate_peers@.len() == 0,
            r.restricted_peers@.len() == 0,
            r.seen_inbound_connections@.len() == 0,
            r.seen_outbound_connections@.len() == 0,
            r.seen_outbound_blocks@.len() == 0,
            r.seen_outbound_transactions@.len() == 0,
    {
        let nonce = match local_nonce {
            Some(n) => n,
            None => random_nonce(),
        };
        Peers {
            local_ip,
            local_nonce: nonce,
            node_type,
            sync_nodes,
            peer_nodes,
            connected_peers: Vec::new(),
            candidate_peers: Vec::new(),
            restricted_peers: Vec::new(),
            seen_inbound_connections: Vec::new(),
            seen_outbound_connections: Vec::new(),
            seen_outbound_blocks: Vec::new(),
            seen_outbound_transactions: Vec::new(),
        }
    }

    /// Whether the node is connected to this address.
    pub fn is_connected_to(&self, ip: Addr) -> (r: bool)
        ensures
            r == spec_pair_has(self.connected_peers@, ip),
    {
        match addr_pair_find(&self.connected_peers, ip) {
            Some(i) => {
                proof {
                    assert(spec_pair_has(self.connected_peers@, ip));
                }
                true
            },
            None => false,
        }
    }

    /// Whether this address is currently restricted.
    pub open spec fn spec_is_restricted(&self, ip: Addr, now: u64) -> bool {
        spec_pair_has(self.restricted_peers@, ip) && spec_elapsed(
            now,
            spec_pair_get(self.restricted_peers@, ip),
        ) < RADIO_SILENCE_IN_SECS
    }

    /// Whether this address is currently restricted: it was marked within
    /// the last radio-silence window.
    pub fn is_restricted(&self, ip: Addr, now: u64) -> (r: bool)
        requires
            self.wf(),
        ensures
            r == self.spec_is_restricted(ip, now),
    {
        match addr_pair_find(&self.restricted_peers, ip) {
            Some(i) => {
                proof {
                    lemma_pair_get(self.restricted_peers@, i as int);
                }
                elapsed_secs(now, self.restricted_peers[i].1) < RADIO_SILENCE_IN_SECS
            },
            None => false,
        }
    }

    /// The listener addresses of the connected peers.
    pub fn connected_peers(&self) -> (r: Vec<Addr>)
        ensures
            r@ == spec_connected_addrs(self.connected_peers@),
    {
        let mut r: Vec<Addr> = Vec::new();
        let mut i: usize = 0;
        while i < self.connected_peers.len()
            invariant
                i <= self.connected_peers@.len(),
                r@.len() == i,
                forall|j: int| 0 <= j < i ==> r@[j] == self.connected_peers@[j].0,
            decreases self.connected_peers@.len() - i,
        {
            r.push(self.connected_peers[i].0);
            i = i + 1;
        }
        proof {
            assert(r@ =~= spec_connected_addrs(self.connected_peers@));
        }
        r
    }

    /// The nonces of the connected peers.
    pub fn connected_nonces(&self) -> (r: Vec<u64>)
        ensures
            r@ == spec_connected_nonces(self.connected_peers@),
    {
        let mut r: Vec<u64> = Vec::new();
        let mut i: usize = 0;
        while i < self.connected_peers.len()
            invariant
                i <= self.connected_peers@.len(),
                r@.len() == i,
                forall|j: int| 0 <= j < i ==> r@[j] == self.connected_peers@[j].1,
            decreases self.connected_peers@.len() - i,
        {
            r.push(self.connected_peers[i].1);
            i = i + 1;
        }
        proof {
            assert(r@ =~= spec_connected_nonces(self.connected_peers@));
        }
        r
    }

    /// The candidate peers.
    pub fn candidate_peers(&self) -> (r: Vec<Addr>)
        ensures
            r@ == self.candidate_peers@,
    {
        let mut r: Vec<Addr> = Vec::new();
        let mut i: usize = 0;
        while i < self.candidate_peers.len()
            invariant
                i <= self.candidate_peers@.len(),
                r@ =~= self.candidate_peers@.take(i as int),
            decreases self.candidate_peers@.len() - i,
        {
            r.push(self.candidate_peers[i]);
            i = i + 1;
        }
        proof {
            assert(r@ =~= self.candidate_peers@);
        }
        r
    }

    /// The number of connected peers.
    pub fn num_connected_peers(&self) -> (n: usize)
        ensures
            n == self.connected_peers@.len(),
    {
        self.connected_peers.len()
    }

    /// The number of candidate peers.
    pub fn num_candidate_peers(&self) -> (n: usize)
        ensures
            n == self.candidate_peers@.len(),
    {
        self.candidate_peers.len()
    }
}

/// One step of candidate admission: the address joins unless it is the local
/// node, already connected, or already a candidate.
pub open spec fn spec_candidate_step(
    cands: Seq<Addr>,
    connected: Seq<(Addr, u64)>,
    local: Addr,
    a: Addr,
) -> Seq<Addr> {
    if !spec_is_self_address(local, a) && !spec_pair_has(connected, a) && !cands.contains(a) {
        cands.push(a)
    } else {
        cands
    }
}

/// Folds candidate admission over a list of addresses, in order.
pub open spec fn spec_candidates_fold(
    cands: Seq<Addr>,
    connected: Seq<(Addr, u64)>,
    local: Addr,
    peers: Seq<Addr>,
) -> Seq<Addr>
    decreases peers.len(),
{
    if peers.len() == 0 {
        cands
    } else {
        spec_candidate_step(
            spec_candidates_fold(cands, connected, local, peers.drop_last()),
            connected,
            local,
            peers.last(),
        )
    }
}

/// The candidate set after offering a list of addresses: unchanged if the
/// combined size would reach the cap (the offering peer may be subverting
/// the protocol), otherwise each eligible address joins.
pub open spec fn spec_candidates_after(
    cands: Seq<Addr>,
    connected: Seq<(Addr, u64)>,
    local: Addr,
    peers: Seq<Addr>,
) -> Seq<Addr> {
    if cands.len() + peers.len() >= MAXIMUM_CANDIDATE_PEERS {
        cands
    } else {
        spec_candidates_fold(cands, connected, local, peers)
    }
}

/// Candidate admission keeps the set unique and disjoint from the connected
/// peers, only grows it, and admits nothing beyond the offered addresses.
pub proof fn lemma_candidates_fold_wf(
    cands: Seq<Addr>,
    connected: Seq<(Addr, u64)>,
    local: Addr,
    peers: Seq<Addr>,
)
    requires
        spec_elems_unique(cands),
        forall|a: Addr| #[trigger] spec_pair_has(connected, a) ==> !cands.contains(a),
    ensures
        ({
            let r = spec_candidates_fold(cands, connected, local, peers);
            &&& spec_elems_unique(r)
            &&& (forall|a: Addr| #[trigger] spec_pair_has(connected, a) ==> !r.contains(a))
            &&& (forall|x: Addr| #[trigger] r.contains(x) ==> cands.contains(x) || peers.contains(
                x,
            ))
            &&& (forall|x: Addr| #[trigger] cands.contains(x) ==> r.contains(x))
            &&& r.len() <= cands.len() + peers.len()
        }),
    decreases peers.len(),
{
    if peers.len() > 0 {
        lemma_candidates_fold_wf(cands, connected, local, peers.drop_last());
        let base = spec_candidates_fold(cands, connected, local, peers.drop_last());
        let r = spec_candidate_step(base, connected, local, peers.last());
        assert(peers.contains(peers.last()));
        assert forall|x: Addr| #[trigger] peers.drop_last().contains(x) implies peers.contains(
            x,
        ) by {
            let j = choose|j: int|
                0 <= j < peers.drop_last().len() && peers.drop_last()[j] == x;
            assert(peers[j] == x);
        }
        if !spec_is_self_address(local, peers.last()) && !spec_pair_has(connected, peers.last())
            && !base.contains(peers.last()) {
            assert forall|i: int, j: int| 0 <= i < j < r.len() implies r[i] != r[j] by {
                if j < base.len() {
                    assert(base[i] != base[j]);
                } else {
                    assert(r[j] == peers.last());
                    assert(base.contains(base[i]));
                }
            }
            assert forall|x: Addr| #[trigger] r.contains(x) implies base.contains(x) || x
                == peers.last() by {
                let j = choose|j: int| 0 <= j < r.len() && r[j] == x;
                if j < base.len() {
                    assert(base[j] == x);
                }
            }
            assert forall|x: Addr| #[trigger] base.contains(x) implies r.contains(x) by {
                let j = choose|j: int| 0 <= j < base.len() && base[j] == x;
                assert(r[j] == x);
            }
        }
    }
}

impl Peers {
    /// Adds the offered addresses to the candidate set, unless the combined
    /// size would reach the cap; self, connected and known candidates are
    /// skipped. Only the candidate set changes.
    pub fn add_candidate_peers(&mut self, peers: &Vec<Addr>)
        requires
            old(self).wf(),
        ensures
            final(self).wf(),
            final(self).spec_same_config(old(self)),
            final(self).candidate_peers@ == spec_candidates_after(
                old(self).candidate_peers@,
                old(self).connected_peers@,
                old(self).local_ip,
                peers@,
            ),
            final(self).connected_peers@ == old(self).connected_peers@,
            final(self).restricted_peers@ == old(self).restricted_peers@,
            final(self).seen_inbound_connections@ == old(self).seen_inbound_connections@,
            final(self).seen_outbound_connections@ == old(self).seen_outbound_connections@,
            final(self).seen_outbound_blocks@ == old(self).seen_outbound_blocks@,
            final(self).seen_outbound_transactions@ == old(self).seen_outbound_transactions@,
    {
        let cands_len = self.candidate_peers.len() as u64;
        let peers_len = peers.len() as u64;
        if cands_len >= MAXIMUM_CANDIDATE_PEERS as u64 || peers_len >= MAXIMUM_CANDIDATE_PEERS
            as u64 {
            return ;
        }
        if cands_len + peers_len >= MAXIMUM_CANDIDATE_PEERS as u64 {
            return ;
        }
        let ghost cands0 = self.candidate_peers@;
        let ghost connected0 = self.connected_peers@;
        let ghost local = self.local_ip;
        let mut i: usize = 0;
        proof {
            assert(peers@.take(0) =~= Seq::<Addr>::empty());
        }
        while i < peers.len()
            invariant
                i <= peers@.len(),
                old(self).wf(),
                self.spec_same_config(old(self)),
                cands0 == old(self).candidate_peers@,
                connected0 == self.connected_peers@,
                local == self.local_ip,
                self.connected_peers@ == old(self).connected_peers@,
                self.restricted_peers@ == old(self).restricted_peers@,
                self.seen_inbound_connections@ == old(self).seen_inbound_connections@,
                self.seen_outbound_connections@ == old(self).seen_outbound_connections@,
                self.seen_outbound_blocks@ == old(self).seen_outbound_blocks@,
                self.seen_outbound_transactions@ == old(self).seen_outbound_transactions@,
                self.candidate_peers@ == spec_candidates_fold(
                    cands0,
                    connected0,
                    local,
                    peers@.take(i as int),
                ),
                spec_elems_unique(self.candidate_peers@),
                forall|a: Addr| #[trigger] spec_pair_has(connected0, a)
                    ==> !self.candidate_peers@.contains(a),
            decreases peers@.len() - i,
        {
            let a = peers[i];
            proof {
                assert(peers@.take(i + 1).drop_last() =~= peers@.take(i as int));
                assert(peers@.take(i + 1).last() == peers@[i as int]);
            }
            let is_self = is_self_address(self.local_ip, a);
            let is_conn = self.is_connected_to(a);
            let is_cand = addr_set_contains(&self.candidate_peers, a);
            if !is_self && !is_conn && !is_cand {
                self.candidate_peers.push(a);
                proof {
                    let prev = spec_candidates_fold(cands0, connected0, local, peers@.take(i as int));
                    assert(self.candidate_peers@ == prev.push(a));
                    assert forall|x: int, y: int|
                        0 <= x < y < self.candidate_peers@.len() implies self.candidate_peers@[x]
                        != self.candidate_peers@[y] by {
                        if y < prev.len() {
                            assert(prev[x] != prev[y]);
                        } else {
                            assert(self.candidate_peers@[y] == a);
                            assert(prev.contains(prev[x]));
                        }
                    }
                    assert forall|b: Addr| #[trigger] spec_pair_has(connected0, b)
                        implies !self.candidate_peers@.contains(b) by {
                        if self.candidate_peers@.contains(b) {
                            let j = choose|j: int|
                                0 <= j < self.candidate_peers@.len() && self.candidate_peers@[j]
                                    == b;
                            if j < prev.len() {
                                assert(prev[j] == b);
                            } else {
                                assert(b == a);
                            }
                        }
                    }
                }
            }
            i = i + 1;
        }
        proof {
            assert(peers@.take(peers@.len() as int) =~= peers@);
        }
    }
}

/// Copies a per-peer gossip table and stamps one item with the current time.
fn id_map_copy_upsert(src: &Vec<(u64, u64)>, key: u64, value: u64) -> (r: Vec<(u64, u64)>)
    requires
        spec_pairs_unique(src@),
    ensures
        spec_upserted(src@, r@, key, value),
{
    let mut r: Vec<(u64, u64)> = Vec::new();
    let mut i: usize = 0;
    while i < src.len()
        invariant
            i <= src@.len(),
            r@ =~= src@.take(i as int),
        decreases src@.len() - i,
    {
        r.push(src[i]);
        i = i + 1;
    }
    proof {
        assert(r@ =~= src@);
    }
    id_map_upsert(&mut r, key, value);
    r
}

/// Records that an item is being sent to a peer now, and reports whether at
/// least a full radio-silence window had passed since it was last sent to
/// that peer.
fn mark_gossip(tbl: &mut GossipTable, peer: Addr, item: u64, now: u64) -> (ready: bool)
    requires
        spec_gossip_table_wf(old(tbl)@),
    ensures
        spec_gossip_table_wf(final(tbl)@),
        ready == spec_gossip_ready(spec_outbound_last_seen(old(tbl)@, peer, item), now),
        spec_outbound_last_seen(final(tbl)@, peer, item) == now,
        forall|a: Addr, i: u64| a != peer || i != item ==> #[trigger] spec_outbound_last_seen(
            final(tbl)@,
            a,
            i,
        ) == spec_outbound_last_seen(old(tbl)@, a, i),
{
    let found = addr_pair_find(tbl, peer);
    let last: u64;
    let inner_new: Vec<(u64, u64)>;
    match found {
        Some(idx) => {
            proof {
                lemma_pair_get(old(tbl)@, idx as int);
            }
            let inner = &tbl[idx].1;
            last = match id_pair_find(inner, item) {
                Some(j) => {
                    proof {
                        lemma_pair_get(inner@, j as int);
                    }
                    inner[j].1
                },
                None => 0,
            };
            inner_new = id_map_copy_upsert(inner, item, now);
        },
        None => {
            last = 0;
            let mut fresh: Vec<(u64, u64)> = Vec::new();
            fresh.push((item, now));
            proof {
                lemma_pair_get(fresh@, 0);
                assert(spec_upserted(Seq::<(u64, u64)>::empty(), fresh@, item, now));
            }
            inner_new = fresh;
        },
    }
    addr_map_upsert(tbl, peer, inner_new);
    proof {
        lemma_gossip_mark(old(tbl)@, tbl@, peer, item, now, inner_new);
    }
    elapsed_secs(now, last) >= RADIO_SILENCE_IN_SECS
}

/// After upserting a peer's stamped table, lookups read as expected.
proof fn lemma_gossip_mark(
    old_tbl: Seq<(Addr, Vec<(u64, u64)>)>,
    new_tbl: Seq<(Addr, Vec<(u64, u64)>)>,
    peer: Addr,
    item: u64,
    now: u64,
    inner_new: Vec<(u64, u64)>,
)
    requires
        spec_gossip_table_wf(old_tbl),
        spec_upserted(old_tbl, new_tbl, peer, inner_new),
        spec_upserted(
            (if spec_pair_has(old_tbl, peer) {
                spec_pair_get(old_tbl, peer)@
            } else {
                Seq::<(u64, u64)>::empty()
            }),
            inner_new@,
            item,
            now,
        ),
    ensures
        spec_gossip_table_wf(new_tbl),
        spec_outbound_last_seen(new_tbl, peer, item) == now,
        forall|a: Addr, i: u64| a != peer || i != item ==> #[trigger] spec_outbound_last_seen(
            new_tbl,
            a,
            i,
        ) == spec_outbound_last_seen(old_tbl, a, i),
{
    assert forall|k: int| 0 <= k < new_tbl.len() implies spec_pairs_unique(
        (#[trigger] new_tbl[k]).1@,
    ) by {
        lemma_pair_get(new_tbl, k);
        let key = new_tbl[k].0;
        if key == peer {
            assert(new_tbl[k].1 == inner_new);
        } else {
            assert(spec_pair_has(new_tbl, key));
            assert(spec_pair_has(old_tbl, key));
            let j = choose|j: int| 0 <= j < old_tbl.len() && (#[trigger] old_tbl[j]).0 == key;
            lemma_pair_get(old_tbl, j);
            assert(new_tbl[k].1 == old_tbl[j].1);
        }
    }
    assert forall|a: Addr, i: u64| a != peer || i != item implies #[trigger] spec_outbound_last_seen(
        new_tbl,
        a,
        i,
    ) == spec_outbound_last_seen(old_tbl, a, i) by {
        if a != peer {
        } else {
            assert(i != item);
            assert(spec_pair_get(new_tbl, peer) == inner_new);
        }
    }
}

/// Some pair among the first `n` carries this address.
pub open spec fn spec_prefix_has(c: Seq<(Addr, u64)>, n: int, a: Addr) -> bool {
    exists|j: int| 0 <= j < n && (#[trigger] c[j]).0 == a
}

/// One dedup entry stamped: the `(peer, id)` entry now reads `now`, and
/// every other entry is untouched.
pub open spec fn spec_gossip_stamped(
    pre_tbl: Seq<(Addr, Vec<(u64, u64)>)>,
    post_tbl: Seq<(Addr, Vec<(u64, u64)>)>,
    peer: Addr,
    id: u64,
    now: u64,
) -> bool {
    &&& spec_outbound_last_seen(post_tbl, peer, id) == now
    &&& (forall|a: Addr, i: u64| a != peer || i != id ==> #[trigger] spec_outbound_last_seen(
        post_tbl,
        a,
        i,
    ) == spec_outbound_last_seen(pre_tbl, a, i))
}

/// The dedup entries of the first `n` connected peers other than the sender
/// stamped with `now`; every other entry untouched.
pub open spec fn spec_gossip_stamped_upto(
    pre_tbl: Seq<(Addr, Vec<(u64, u64)>)>,
    post_tbl: Seq<(Addr, Vec<(u64, u64)>)>,
    conn: Seq<(Addr, u64)>,
    n: int,
    sender: Addr,
    id: u64,
    now: u64,
) -> bool {
    forall|a: Addr, it: u64| #[trigger] spec_outbound_last_seen(post_tbl, a, it) == (if it == id
        && spec_prefix_has(conn, n, a) && a != sender {
        now
    } else {
        spec_outbound_last_seen(pre_tbl, a, it)
    })
}

/// Whether a message may be delivered to this peer now, by the dedup tables.
pub open spec fn spec_send_ready(
    blocks: Seq<(Addr, Vec<(u64, u64)>)>,
    txs: Seq<(Addr, Vec<(u64, u64)>)>,
    target: Addr,
    m: Message,
    now: u64,
) -> bool {
    match spec_gossip_id(m) {
        Some((is_block, id)) => spec_gossip_ready(
            spec_outbound_last_seen(
                if is_block {
                    blocks
                } else {
                    txs
                },
                target,
                id,
            ),
            now,
        ),
        None => true,
    }
}

/// What `MessageSend` does: nothing for a stranger; for a connected peer the
/// dedup entry is stamped and the message is delivered exactly when a full
/// radio-silence window had passed since the same item was last sent.
pub open spec fn spec_send_post(
    pre: Peers,
    post: Peers,
    actions: Seq<PeerAction>,
    peer: Addr,
    message: Message,
    now: u64,
) -> bool {
    &&& post.connected_peers@ == pre.connected_peers@
    &&& post.candidate_peers@ == pre.candidate_peers@
    &&& post.restricted_peers@ == pre.restricted_peers@
    &&& post.seen_inbound_connections@ == pre.seen_inbound_connections@
    &&& post.seen_outbound_connections@ == pre.seen_outbound_connections@
    &&& if !spec_pair_has(pre.connected_peers@, peer) {
        &&& post.seen_outbound_blocks@ == pre.seen_outbound_blocks@
        &&& post.seen_outbound_transactions@ == pre.seen_outbound_transactions@
        &&& actions.len() == 0
    } else {
        &&& (match spec_gossip_id(message) {
            Some((true, id)) => spec_gossip_stamped(
                pre.seen_outbound_blocks@,
                post.seen_outbound_blocks@,
                peer,
                id,
                now,
            ) && post.seen_outbound_transactions@ == pre.seen_outbound_transactions@,
            Some((false, id)) => spec_gossip_stamped(
                pre.seen_outbound_transactions@,
                post.seen_outbound_transactions@,
                peer,
                id,
                now,
            ) && post.seen_outbound_blocks@ == pre.seen_outbound_blocks@,
            None => post.seen_outbound_blocks@ == pre.seen_outbound_blocks@
                && post.seen_outbound_transactions@ == pre.seen_outbound_transactions@,
        })
        &&& if spec_send_ready(
            pre.seen_outbound_blocks@,
            pre.seen_outbound_transactions@,
            peer,
            message,
            now,
        ) {
            &&& actions.len() == 1
            &&& actions[0] matches PeerAction::Deliver(ts, m) && ts@ == seq![peer] && m == message
        } else {
            actions.len() == 0
        }
    }
}

/// What `MessagePropagate` does: one delivery action whose targets are
/// exactly the connected peers other than the sender for which the item is
/// due, and every such peer's dedup entry stamped.
pub open spec fn spec_propagate_post(
    pre: Peers,
    post: Peers,
    actions: Seq<PeerAction>,
    sender: Addr,
    message: Message,
    now: u64,
) -> bool {
    &&& post.connected_peers@ == pre.connected_peers@
    &&& post.candidate_peers@ == pre.candidate_peers@
    &&& post.restricted_peers@ == pre.restricted_peers@
    &&& post.seen_inbound_connections@ == pre.seen_inbound_connections@
    &&& post.seen_outbound_connections@ == pre.seen_outbound_connections@
    &&& actions.len() == 1
    &&& actions[0] matches PeerAction::Deliver(ts, m) && m == message && spec_elems_unique(ts@)
        && (forall|a: Addr| #[trigger] ts@.contains(a) ==> spec_pair_has(pre.connected_peers@, a)
        && a != sender && spec_send_ready(
        pre.seen_outbound_blocks@,
        pre.seen_outbound_transactions@,
        a,
        message,
        now,
    )) && (forall|j: int|
        0 <= j < pre.connected_peers@.len() && (#[trigger] pre.connected_peers@[j]).0 != sender
            && spec_send_ready(
            pre.seen_outbound_blocks@,
            pre.seen_outbound_transactions@,
            pre.connected_peers@[j].0,
            message,
            now,
        ) ==> ts@.contains(pre.connected_peers@[j].0))
    &&& (match spec_gossip_id(message) {
        Some((true, id)) => spec_gossip_stamped_upto(
            pre.seen_outbound_blocks@,
            post.seen_outbound_blocks@,
            pre.connected_peers@,
            pre.connected_peers@.len() as int,
            sender,
            id,
            now,
        ) && post.seen_outbound_transactions@ == pre.seen_outbound_transactions@,
        Some((false, id)) => spec_gossip_stamped_upto(
            pre.seen_outbound_transactions@,
            post.seen_outbound_transactions@,
            pre.connected_peers@,
            pre.connected_peers@.len() as int,
            sender,
            id,
            now,
        ) && post.seen_outbound_blocks@ == pre.seen_outbound_blocks@,
        None => post.seen_outbound_blocks@ == pre.seen_outbound_blocks@
            && post.seen_outbound_transactions@ == pre.seen_outbound_transactions@,
    })
}

impl Peers {
    /// Sends the given message to the specified peer, applying per-peer
    /// gossip deduplication.
    fn send(&mut self, peer: Addr, message: Message, now: u64) -> (actions: Vec<PeerAction>)
        requires
            old(self).wf(),
        ensures
            final(self).wf(),
            final(self).spec_same_config(old(self)),
            spec_send_post(*old(self), *final(self), actions@, peer, message, now),
    {
        if !self.is_connected_to(peer) {
            return Vec::new();
        }
        let ready: bool = match &message {
            Message::UnconfirmedBlock(b) => {
                let h = b.hash();
                mark_gossip(&mut self.seen_outbound_blocks, peer, h, now)
            },
            Message::UnconfirmedTransaction(t) => {
                mark_gossip(&mut self.seen_outbound_transactions, peer, t.transaction_id, now)
            },
            _ => true,
        };
        if ready {
            let mut ts: Vec<Addr> = Vec::new();
            ts.push(peer);
            proof {
                assert(ts@ =~= seq![peer]);
            }
            let mut actions: Vec<PeerAction> = Vec::new();
            actions.push(PeerAction::Deliver(ts, message));
            actions
        } else {
            Vec::new()
        }
    }

    /// Sends the given message to every connected peer except the sender,
    /// with the same per-peer deduplication as a single send.
    fn propagate(&mut self, sender: Addr, message: Message, now: u64) -> (actions: Vec<
        PeerAction,
    >)
        requires
            old(self).wf(),
        ensures
            final(self).wf(),
            final(self).spec_same_config(old(self)),
            spec_propagate_post(*old(self), *final(self), actions@, sender, message, now),
    {
        let ghost conn = self.connected_peers@;
        let ghost blocks0 = self.seen_outbound_blocks@;
        let ghost txs0 = self.seen_outbound_transactions@;
        let mut ts: Vec<Addr> = Vec::new();
        let mut i: usize = 0;
        while i < self.connected_peers.len()
            invariant
                old(self).wf(),
                self.wf(),
                self.spec_same_config(old(self)),
                conn == self.connected_peers@,
                blocks0 == old(self).seen_outbound_blocks@,
                txs0 == old(self).seen_outbound_transactions@,
                self.connected_peers@ == old(self).connected_peers@,
                self.candidate_peers@ == old(self).candidate_peers@,
                self.restricted_peers@ == old(self).restricted_peers@,
                self.seen_inbound_connections@ == old(self).seen_inbound_connections@,
                self.seen_outbound_connections@ == old(self).seen_outbound_connections@,
                i <= conn.len(),
                spec_elems_unique(ts@),
                forall|a: Addr| #[trigger] ts@.contains(a) ==> spec_prefix_has(conn, i as int, a)
                    && a != sender && spec_send_ready(blocks0, txs0, a, message, now),
                forall|j: int|
                    0 <= j < i && (#[trigger] conn[j]).0 != sender && spec_send_ready(
                        blocks0,
                        txs0,
                        conn[j].0,
                        message,
                        now,
                    ) ==> ts@.contains(conn[j].0),
                (match spec_gossip_id(message) {
                    Some((true, id)) => spec_gossip_stamped_upto(
                        blocks0,
                        self.seen_outbound_blocks@,
                        conn,
                        i as int,
                        sender,
                        id,
                        now,
                    ) && self.seen_outbound_transactions@ == txs0,
                    Some((false, id)) => spec_gossip_stamped_upto(
                        txs0,
                        self.seen_outbound_transactions@,
                        conn,
                        i as int,
                        sender,
                        id,
                        now,
                    ) && self.seen_outbound_blocks@ == blocks0,
                    None => self.seen_outbound_blocks@ == blocks0
                        && self.seen_outbound_transactions@ == txs0,
                }),
            decreases conn.len() - i,
        {
            let ghost entry_blocks = self.seen_outbound_blocks@;
            let ghost entry_txs = self.seen_outbound_transactions@;
            let a = self.connected_peers[i].0;
            let not_sender = !(a.ip == sender.ip && a.port == sender.port);
            proof {
                assert(a == conn[i as int].0);
                if spec_prefix_has(conn, i as int, a) {
                    let j = choose|j: int| 0 <= j < i && (#[trigger] conn[j]).0 == a;
                    assert(conn[j].0 == conn[i as int].0);
                    assert(false);
                }
                assert(!ts@.contains(a));
            }
            if not_sender {
                let ready: bool = match &message {
                    Message::UnconfirmedBlock(b) => {
                        let h = b.hash();
                        proof {
                            assert(spec_gossip_id(message) == Some((true, spec_block_hash(b@))));
                            assert(!spec_prefix_has(conn, i as int, a));
                            assert(spec_outbound_last_seen(entry_blocks, a, h)
                                == spec_outbound_last_seen(blocks0, a, h));
                        }
                        mark_gossip(&mut self.seen_outbound_blocks, a, h, now)
                    },
                    Message::UnconfirmedTransaction(t) => {
                        proof {
                            assert(spec_gossip_id(message) == Some((false, t.transaction_id)));
                            assert(!spec_prefix_has(conn, i as int, a));
                            assert(spec_outbound_last_seen(entry_txs, a, t.transaction_id)
                                == spec_outbound_last_seen(txs0, a, t.transaction_id));
                        }
                        mark_gossip(
                            &mut self.seen_outbound_transactions,
                            a,
                            t.transaction_id,
                            now,
                        )
                    },
                    _ => true,
                };
                proof {
                    assert(ready == spec_send_ready(blocks0, txs0, a, message, now));
                }
                if ready {
                    let ghost ts_old = ts@;
                    ts.push(a);
                    proof {
                        assert(ts@[ts@.len() - 1] == a);
                        assert(ts@.contains(a));
                        assert forall|x: Addr| #[trigger] ts@.contains(x) implies ts_old.contains(
                            x,
                        ) || x == a by {
                            let j = choose|j: int| 0 <= j < ts@.len() && ts@[j] == x;
                            if j < ts_old.len() {
                                assert(ts_old[j] == x);
                            }
                        }
                        assert forall|x: Addr| ts_old.contains(x) implies ts@.contains(x) by {
                            let j = choose|j: int| 0 <= j < ts_old.len() && ts_old[j] == x;
                            assert(ts@[j] == x);
                        }
                        assert forall|x: int, y: int| 0 <= x < y < ts@.len() implies ts@[x]
                            != ts@[y] by {
                            if y < ts_old.len() {
                                assert(ts_old[x] != ts_old[y]);
                            } else {
                                assert(ts@[y] == a);
                                assert(ts_old.contains(ts_old[x]));
                            }
                        }
                    }
                }
            }
            proof {
                assert(conn[i as int].0 == a);
                match spec_gossip_id(message) {
                    Some((is_block, id)) => {
                        let pre_tbl = if is_block {
                            blocks0
                        } else {
                            txs0
                        };
                        let entry_tbl = if is_block {
                            entry_blocks
                        } else {
                            entry_txs
                        };
                        let cur_tbl = if is_block {
                            self.seen_outbound_blocks@
                        } else {
                            self.seen_outbound_transactions@
                        };
                        assert(spec_gossip_stamped_upto(
                            pre_tbl,
                            entry_tbl,
                            conn,
                            i as int,
                            sender,
                            id,
                            now,
                        ));
                        assert forall|a2: Addr, it: u64| #[trigger] spec_outbound_last_seen(
                            cur_tbl,
                            a2,
                            it,
                        ) == (if it == id && spec_prefix_has(conn, i + 1, a2) && a2 != sender {
                            now
                        } else {
                            spec_outbound_last_seen(pre_tbl, a2, it)
                        }) by {
                            if not_sender {
                                assert(spec_gossip_stamped(entry_tbl, cur_tbl, a, id, now));
                                if a2 == a && it == id {
                                    assert(spec_outbound_last_seen(cur_tbl, a2, it) == now);
                                    assert(conn[i as int].0 == a2);
                                    assert(spec_prefix_has(conn, i + 1, a2));
                                } else {
                                    assert(spec_outbound_last_seen(cur_tbl, a2, it)
                                        == spec_outbound_last_seen(entry_tbl, a2, it));
                                    if it == id && spec_prefix_has(conn, i + 1, a2) && a2
                                        != sender {
                                        let j = choose|j: int|
                                            0 <= j < i + 1 && (#[trigger] conn[j]).0 == a2;
                                        assert(j < i || a2 == a);
                                        assert(spec_prefix_has(conn, i as int, a2));
                                    } else {
                                        if it == id && spec_prefix_has(conn, i as int, a2) && a2
                                            != sender {
                                            let j = choose|j: int|
                                                0 <= j < i && (#[trigger] conn[j]).0 == a2;
                                            assert(spec_prefix_has(conn, i + 1, a2));
                                        }
                                    }
                                }
                            } else {
                                assert(cur_tbl == entry_tbl);
                                if it == id && spec_prefix_has(conn, i + 1, a2) && a2 != sender {
                                    let j = choose|j: int|
                                        0 <= j < i + 1 && (#[trigger] conn[j]).0 == a2;
                                    if a2 == a {
                                        assert(a == sender);
                                        assert(false);
                                    }
                                    assert(j < i);
                                    assert(spec_prefix_has(conn, i as int, a2));
                                } else {
                                    if it == id && spec_prefix_has(conn, i as int, a2) && a2
                                        != sender {
                                        let j = choose|j: int|
                                            0 <= j < i && (#[trigger] conn[j]).0 == a2;
                                        assert(spec_prefix_has(conn, i + 1, a2));
                                    }
                                }
                            }
                        }
                        assert(spec_gossip_stamped_upto(
                            pre_tbl,
                            cur_tbl,
                            conn,
                            i + 1,
                            sender,
                            id,
                            now,
                        ));
                    },
                    None => {},
                }
                assert forall|j: int|
                    0 <= j < i + 1 && (#[trigger] conn[j]).0 != sender && spec_send_ready(
                        blocks0,
                        txs0,
                        conn[j].0,
                        message,
                        now,
                    ) implies ts@.contains(conn[j].0) by {}
            }
            i = i + 1;
        }
        proof {
            assert forall|a: Addr| spec_prefix_has(conn, conn.len() as int, a) == spec_pair_has(
                conn,
                a,
            ) by {
                if spec_prefix_has(conn, conn.len() as int, a) {
                    let j = choose|j: int|
                        0 <= j < conn.len() && (#[trigger] conn[j]).0 == a;
                    assert(spec_pair_has(conn, a));
                }
                if spec_pair_has(conn, a) {
                    let j = choose|j: int|
                        0 <= j < conn.len() && (#[trigger] conn[j]).0 == a;
                    assert(spec_prefix_has(conn, conn.len() as int, a));
                }
            }
        }
        let mut actions: Vec<PeerAction> = Vec::new();
        actions.push(PeerAction::Deliver(ts, message));
        actions
    }
}

/// The candidate set and the connected set are disjoint at every external
/// observation of the registry: the invariant is part of well-formedness,
/// which every update establishes anew.
pub proof fn lemma_candidates_connected_disjoint(p: Peers)
    requires
        p.wf(),
    ensures
        forall|a: Addr| #[trigger] spec_pair_has(p.connected_peers@, a)
            ==> !p.candidate_peers@.contains(a),
{
}

/// The heartbeat's disconnect choice: scanning the connected peers in table
/// order, the first `excess` whose address is in neither allowlist.
pub open spec fn spec_disconnect_targets(
    c: Seq<(Addr, u64)>,
    sync_nodes: Seq<Addr>,
    peer_nodes: Seq<Addr>,
    excess: int,
) -> Seq<Addr>
    decreases c.len(),
{
    if c.len() == 0 || excess <= 0 {
        Seq::empty()
    } else if !sync_nodes.contains(c.first().0) && !peer_nodes.contains(c.first().0) {
        seq![c.first().0] + spec_disconnect_targets(c.drop_first(), sync_nodes, peer_nodes, excess - 1)
    } else {
        spec_disconnect_targets(c.drop_first(), sync_nodes, peer_nodes, excess)
    }
}

/// The disconnect choice takes at most `excess` peers, each of them
/// connected and outside both allowlists, without repetition; and if it
/// takes fewer than `excess`, every connected peer it left out is
/// allowlisted.
pub proof fn lemma_disconnect_targets_props(
    c: Seq<(Addr, u64)>,
    sync_nodes: Seq<Addr>,
    peer_nodes: Seq<Addr>,
    excess: int,
)
    requires
        spec_pairs_unique(c),
    ensures
        ({
            let t = spec_disconnect_targets(c, sync_nodes, peer_nodes, excess);
            &&& t.len() <= (if excess >= 0 {
                excess
            } else {
                0
            })
            &&& t.len() <= c.len()
            &&& spec_elems_unique(t)
            &&& (forall|x: Addr| #[trigger] t.contains(x) ==> spec_pair_has(c, x)
                && !sync_nodes.contains(x) && !peer_nodes.contains(x))
            &&& (t.len() < excess ==> forall|j: int|
                0 <= j < c.len() && !t.contains((#[trigger] c[j]).0) ==> sync_nodes.contains(
                    c[j].0,
                ) || peer_nodes.contains(c[j].0))
        }),
    decreases c.len(),
{
    let t = spec_disconnect_targets(c, sync_nodes, peer_nodes, excess);
    if c.len() == 0 || excess <= 0 {
    } else {
        let rest = c.drop_first();
        assert(spec_pairs_unique(rest)) by {
            assert forall|i: int, j: int| 0 <= i < j < rest.len() implies (#[trigger] rest[i]).0
                != (#[trigger] rest[j]).0 by {
                assert(c[i + 1].0 != c[j + 1].0);
            }
        }
        if !sync_nodes.contains(c.first().0) && !peer_nodes.contains(c.first().0) {
            lemma_disconnect_targets_props(rest, sync_nodes, peer_nodes, excess - 1);
            let t1 = spec_disconnect_targets(rest, sync_nodes, peer_nodes, excess - 1);
            assert(t =~= seq![c.first().0] + t1);
            assert(t[0] == c.first().0);
            assert forall|x: Addr| #[trigger] t.contains(x) implies spec_pair_has(c, x)
                && !sync_nodes.contains(x) && !peer_nodes.contains(x) by {
                let j = choose|j: int| 0 <= j < t.len() && t[j] == x;
                if j == 0 {
                    assert(c[0].0 == x);
                } else {
                    assert(t1[j - 1] == x);
                    assert(t1.contains(x));
                    let k = choose|k: int| 0 <= k < rest.len() && (#[trigger] rest[k]).0 == x;
                    assert(c[k + 1].0 == x);
                }
            }
            assert forall|i: int, j: int| 0 <= i < j < t.len() implies t[i] != t[j] by {
                if i == 0 {
                    assert(t[j] == t1[j - 1]);
                    assert(t1.contains(t1[j - 1]));
                    assert(spec_pair_has(rest, t[j]));
                    let k = choose|k: int| 0 <= k < rest.len() && (#[trigger] rest[k]).0 == t[j];
                    assert(c[k + 1].0 == t[j]);
                    assert(c[0].0 != c[k + 1].0);
                } else {
                    assert(t1[i - 1] != t1[j - 1]);
                }
            }
            if t.len() < excess {
                assert forall|j: int|
                    0 <= j < c.len() && !t.contains((#[trigger] c[j]).0) implies
                    sync_nodes.contains(c[j].0) || peer_nodes.contains(c[j].0) by {
                    if j == 0 {
                        assert(t[0] == c[0].0);
                        assert(t.contains(c[0].0));
                    } else {
                        assert(rest[j - 1].0 == c[j].0);
                        if t1.contains(c[j].0) {
                            let k = choose|k: int| 0 <= k < t1.len() && t1[k] == c[j].0;
                            assert(t[k + 1] == c[j].0);
                            assert(t.contains(c[j].0));
                        }
                    }
                }
            }
        } else {
            lemma_disconnect_targets_props(rest, sync_nodes, peer_nodes, excess);
            let t1 = spec_disconnect_targets(rest, sync_nodes, peer_nodes, excess);
            assert(t == t1);
            assert forall|x: Addr| #[trigger] t.contains(x) implies spec_pair_has(c, x)
                && !sync_nodes.contains(x) && !peer_nodes.contains(x) by {
                let k = choose|k: int| 0 <= k < rest.len() && (#[trigger] rest[k]).0 == x;
                assert(c[k + 1].0 == x);
            }
            if t.len() < excess {
                assert forall|j: int|
                    0 <= j < c.len() && !t.contains((#[trigger] c[j]).0) implies
                    sync_nodes.contains(c[j].0) || peer_nodes.contains(c[j].0) by {
                    if j > 0 {
                        assert(rest[j - 1].0 == c[j].0);
                    }
                }
            }
        }
    }
}

/// After a heartbeat over a registry holding more than the maximum number
/// of peers, disconnecting exactly the chosen targets brings the census to
/// the maximum — unless every connected peer the choice spared sits in the
/// sync-node or peer-node allowlist.
pub proof fn lemma_max_peers_convergence(
    c: Seq<(Addr, u64)>,
    sync_nodes: Seq<Addr>,
    peer_nodes: Seq<Addr>,
)
    requires
        spec_pairs_unique(c),
        c.len() > MAXIMUM_NUMBER_OF_PEERS,
    ensures
        ({
            let t = spec_disconnect_targets(
                c,
                sync_nodes,
                peer_nodes,
                c.len() - MAXIMUM_NUMBER_OF_PEERS,
            );
            ||| c.len() - t.len() <= MAXIMUM_NUMBER_OF_PEERS
            ||| (forall|j: int|
                0 <= j < c.len() && !t.contains((#[trigger] c[j]).0) ==> sync_nodes.contains(
                    c[j].0,
                ) || peer_nodes.contains(c[j].0))
        }),
{
    lemma_disconnect_targets_props(
        c,
        sync_nodes,
        peer_nodes,
        c.len() - MAXIMUM_NUMBER_OF_PEERS,
    );
}

/// Gossip deduplication: once an unconfirmed block or transaction has been
/// sent to a peer, sending the same item to the same peer again strictly
/// within one radio-silence window delivers nothing.
pub proof fn lemma_gossip_dedup(
    pre: Peers,
    mid: Peers,
    post: Peers,
    first_actions: Seq<PeerAction>,
    second_actions: Seq<PeerAction>,
    peer: Addr,
    message: Message,
    t1: u64,
    t2: u64,
)
    requires
        spec_gossip_id(message) is Some,
        spec_pair_has(pre.connected_peers@, peer),
        spec_send_post(pre, mid, first_actions, peer, message, t1),
        spec_send_post(mid, post, second_actions, peer, message, t2),
        spec_elapsed(t2, t1) < RADIO_SILENCE_IN_SECS,
    ensures
        second_actions.len() == 0,
{
    match spec_gossip_id(message) {
        Some((is_block, id)) => {
            if is_block {
                assert(spec_outbound_last_seen(mid.seen_outbound_blocks@, peer, id) == t1);
            } else {
                assert(spec_outbound_last_seen(mid.seen_outbound_transactions@, peer, id) == t1);
            }
            assert(!spec_gossip_ready(t1, t2));
        },
        None => {},
    }
}

/// Removing a peer's entry from a gossip table leaves a well-formed table
/// and every other peer's entries untouched.
proof fn lemma_gossip_table_remove(
    old_tbl: Seq<(Addr, Vec<(u64, u64)>)>,
    new_tbl: Seq<(Addr, Vec<(u64, u64)>)>,
    peer: Addr,
)
    requires
        spec_gossip_table_wf(old_tbl),
        spec_removed(old_tbl, new_tbl, peer),
    ensures
        spec_gossip_table_wf(new_tbl),
        forall|a: Addr, i: u64| a != peer ==> #[trigger] spec_outbound_last_seen(new_tbl, a, i)
            == spec_outbound_last_seen(old_tbl, a, i),
        forall|i: u64| spec_outbound_last_seen(new_tbl, peer, i) == 0,
{
    assert forall|k: int| 0 <= k < new_tbl.len() implies spec_pairs_unique(
        (#[trigger] new_tbl[k]).1@,
    ) by {
        lemma_pair_get(new_tbl, k);
        let key = new_tbl[k].0;
        assert(spec_pair_has(new_tbl, key));
        assert(key != peer);
        assert(spec_pair_has(old_tbl, key));
        let j = choose|j: int| 0 <= j < old_tbl.len() && (#[trigger] old_tbl[j]).0 == key;
        lemma_pair_get(old_tbl, j);
        assert(new_tbl[k].1 == old_tbl[j].1);
    }
}

/// What a `Connect` request does: rejected for the local address, a full
/// registry, a known or restricted peer, or a dial inside the silence
/// window; otherwise the dial time is stamped and a dial is ordered.
pub open spec fn spec_connect_post(
    pre: Peers,
    post: Peers,
    actions: Seq<PeerAction>,
    peer: Addr,
    now: u64,
) -> bool {
    let precheck = !spec_is_self_address(pre.local_ip, peer) && pre.connected_peers@.len()
        < MAXIMUM_NUMBER_OF_PEERS && !spec_pair_has(pre.connected_peers@, peer)
        && !pre.spec_is_restricted(peer, now);
    let last = if spec_pair_has(pre.seen_outbound_connections@, peer) {
        spec_pair_get(pre.seen_outbound_connections@, peer)
    } else {
        0
    };
    let dial = precheck && spec_elapsed(now, last) >= RADIO_SILENCE_IN_SECS;
    &&& post.connected_peers@ == pre.connected_peers@
    &&& post.candidate_peers@ == pre.candidate_peers@
    &&& post.restricted_peers@ == pre.restricted_peers@
    &&& post.seen_inbound_connections@ == pre.seen_inbound_connections@
    &&& post.seen_outbound_blocks@ == pre.seen_outbound_blocks@
    &&& post.seen_outbound_transactions@ == pre.seen_outbound_transactions@
    &&& (if precheck {
        spec_upserted(
            pre.seen_outbound_connections@,
            post.seen_outbound_connections@,
            peer,
            if dial {
                now
            } else {
                last
            },
        )
    } else {
        post.seen_outbound_connections@ == pre.seen_outbound_connections@
    })
    &&& (if dial {
        actions =~= seq![PeerAction::Dial(peer)]
    } else {
        actions.len() == 0
    })
}

/// The sanitized lookup key for inbound rate limiting: a loopback address
/// as-is; a remote host with its ephemeral port collapsed to a sentinel, so
/// repeated reconnects from one host are tracked together.
pub open spec fn spec_inbound_key(peer: Addr) -> Addr {
    if peer.spec_is_loopback() {
        peer
    } else {
        Addr { ip: peer.ip, port: 0xffff }
    }
}

/// The tracker entry stored for an admitted or blocked inbound attempt.
pub open spec fn spec_inbound_decision(pre: Peers, peer: Addr, now: u64) -> (InboundAttempts, bool) {
    let key = spec_inbound_key(peer);
    let e0 = if spec_pair_has(pre.seen_inbound_connections@, key) {
        spec_pair_get(pre.seen_inbound_connections@, key)
    } else {
        InboundAttempts { initial_port: peer.port, num_attempts: 0, last_seen: 0 }
    };
    let e1 = if spec_elapsed(now, e0.last_seen) > RADIO_SILENCE_IN_SECS {
        InboundAttempts { initial_port: peer.port, num_attempts: 0, last_seen: now }
    } else {
        e0
    };
    let blocked = e1.initial_port < peer.port && e1.num_attempts > MAXIMUM_CONNECTION_FAILURES;
    let stored = if blocked {
        e1
    } else {
        InboundAttempts {
            initial_port: e1.initial_port,
            num_attempts: if e1.num_attempts < 0xffff_ffffu32 {
                (e1.num_attempts + 1) as u32
            } else {
                e1.num_attempts
            },
            last_seen: e1.last_seen,
        }
    };
    (stored, blocked)
}

/// What a `PeerConnecting` request does: the same prechecks as a dial, then
/// the inbound attempt cap over the sanitized key; an admitted connection
/// proceeds to a handshake.
pub open spec fn spec_connecting_post(
    pre: Peers,
    post: Peers,
    actions: Seq<PeerAction>,
    peer: Addr,
    now: u64,
) -> bool {
    let precheck = !spec_is_self_address(pre.local_ip, peer) && pre.connected_peers@.len()
        < MAXIMUM_NUMBER_OF_PEERS && !spec_pair_has(pre.connected_peers@, peer)
        && !pre.spec_is_restricted(peer, now);
    &&& post.connected_peers@ == pre.connected_peers@
    &&& post.candidate_peers@ == pre.candidate_peers@
    &&& post.restricted_peers@ == pre.restricted_peers@
    &&& post.seen_outbound_connections@ == pre.seen_outbound_connections@
    &&& post.seen_outbound_blocks@ == pre.seen_outbound_blocks@
    &&& post.seen_outbound_transactions@ == pre.seen_outbound_transactions@
    &&& (if precheck {
        let decision = spec_inbound_decision(pre, peer, now);
        &&& spec_upserted(
            pre.seen_inbound_connections@,
            post.seen_inbound_connections@,
            spec_inbound_key(peer),
            decision.0,
        )
        &&& (if decision.1 {
            actions.len() == 0
        } else {
            actions =~= seq![PeerAction::AcceptConnection(peer)]
        })
    } else {
        &&& post.seen_inbound_connections@ == pre.seen_inbound_connections@
        &&& actions.len() == 0
    })
}

/// What `PeerConnected` does: the peer joins the connected table under its
/// nonce and leaves the candidates.
pub open spec fn spec_connected_post(
    pre: Peers,
    post: Peers,
    actions: Seq<PeerAction>,
    peer: Addr,
    nonce: u64,
) -> bool {
    &&& spec_upserted(pre.connected_peers@, post.connected_peers@, peer, nonce)
    &&& (forall|x: Addr| post.candidate_peers@.contains(x) <==> (pre.candidate_peers@.contains(x)
        && x != peer))
    &&& post.restricted_peers@ == pre.restricted_peers@
    &&& post.seen_inbound_connections@ == pre.seen_inbound_connections@
    &&& post.seen_outbound_connections@ == pre.seen_outbound_connections@
    &&& post.seen_outbound_blocks@ == pre.seen_outbound_blocks@
    &&& post.seen_outbound_transactions@ == pre.seen_outbound_transactions@
    &&& actions.len() == 0
}

/// What `PeerDisconnected` does: the peer leaves the connected table,
/// becomes a candidate again, and its gossip dedup entries are cleared.
pub open spec fn spec_disconnected_post(
    pre: Peers,
    post: Peers,
    actions: Seq<PeerAction>,
    peer: Addr,
) -> bool {
    &&& spec_removed(pre.connected_peers@, post.connected_peers@, peer)
    &&& (forall|x: Addr| post.candidate_peers@.contains(x) <==> (pre.candidate_peers@.contains(x)
        || x == peer))
    &&& spec_removed(pre.seen_outbound_blocks@, post.seen_outbound_blocks@, peer)
    &&& spec_removed(pre.seen_outbound_transactions@, post.seen_outbound_transactions@, peer)
    &&& post.restricted_peers@ == pre.restricted_peers@
    &&& post.seen_inbound_connections@ == pre.seen_inbound_connections@
    &&& post.seen_outbound_connections@ == pre.seen_outbound_connections@
    &&& actions.len() == 0
}

/// What `PeerRestricted` does: the restriction clock starts now.
pub open spec fn spec_restricted_post(
    pre: Peers,
    post: Peers,
    actions: Seq<PeerAction>,
    peer: Addr,
    now: u64,
) -> bool {
    &&& spec_upserted(pre.restricted_peers@, post.restricted_peers@, peer, now)
    &&& post.connected_peers@ == pre.connected_peers@
    &&& post.candidate_peers@ == pre.candidate_peers@
    &&& post.seen_inbound_connections@ == pre.seen_inbound_connections@
    &&& post.seen_outbound_connections@ == pre.seen_outbound_connections@
    &&& post.seen_outbound_blocks@ == pre.seen_outbound_blocks@
    &&& post.seen_outbound_transactions@ == pre.seen_outbound_transactions@
    &&& actions.len() == 0
}

/// What `SendPeerResponse` does: a connected recipient is sent the list of
/// connected peers; nothing else changes.
pub open spec fn spec_send_peer_response_post(
    pre: Peers,
    post: Peers,
    actions: Seq<PeerAction>,
    recipient: Addr,
) -> bool {
    &&& post.connected_peers@ == pre.connected_peers@
    &&& post.candidate_peers@ == pre.candidate_peers@
    &&& post.restricted_peers@ == pre.restricted_peers@
    &&& post.seen_inbound_connections@ == pre.seen_inbound_connections@
    &&& post.seen_outbound_connections@ == pre.seen_outbound_connections@
    &&& post.seen_outbound_blocks@ == pre.seen_outbound_blocks@
    &&& post.seen_outbound_transactions@ == pre.seen_outbound_transactions@
    &&& (if spec_pair_has(pre.connected_peers@, recipient) {
        &&& actions.len() == 1
        &&& actions[0] matches PeerAction::Deliver(ts, m) && ts@ == seq![recipient] && (
        m matches Message::PeerResponse(kv) && kv@ == spec_connected_addrs(pre.connected_peers@))
    } else {
        actions.len() == 0
    })
}

/// What `ReceivePeerResponse` does: candidate admission over the offered
/// list.
pub open spec fn spec_receive_peer_response_post(
    pre: Peers,
    post: Peers,
    actions: Seq<PeerAction>,
    addrs: Seq<Addr>,
) -> bool {
    &&& post.candidate_peers@ == spec_candidates_after(
        pre.candidate_peers@,
        pre.connected_peers@,
        pre.local_ip,
        addrs,
    )
    &&& post.connected_peers@ == pre.connected_peers@
    &&& post.restricted_peers@ == pre.restricted_peers@
    &&& post.seen_inbound_connections@ == pre.seen_inbound_connections@
    &&& post.seen_outbound_connections@ == pre.seen_outbound_connections@
    &&& post.seen_outbound_blocks@ == pre.seen_outbound_blocks@
    &&& post.seen_outbound_transactions@ == pre.seen_outbound_transactions@
    &&& actions.len() == 0
}

/// What a `Heartbeat` does. Over budget, it orders a `Disconnect` for the
/// chosen excess peers. Under the minimum, it seeds the candidates with the
/// allowlists, orders connection requests for a random sample of
/// candidates, and asks every connected peer for more peers.
pub open spec fn spec_heartbeat_post(
    pre: Peers,
    post: Peers,
    actions: Seq<PeerAction>,
    now: u64,
) -> bool {
    let count = pre.connected_peers@.len() as int;
    &&& post.connected_peers@ == pre.connected_peers@
    &&& post.restricted_peers@ == pre.restricted_peers@
    &&& post.seen_inbound_connections@ == pre.seen_inbound_connections@
    &&& post.seen_outbound_connections@ == pre.seen_outbound_connections@
    &&& post.seen_outbound_blocks@ == pre.seen_outbound_blocks@
    &&& post.seen_outbound_transactions@ == pre.seen_outbound_transactions@
    &&& (if count >= MINIMUM_NUMBER_OF_PEERS {
        &&& post.candidate_peers@ == pre.candidate_peers@
        &&& (if count > MAXIMUM_NUMBER_OF_PEERS {
            &&& actions.len() == 1
            &&& actions[0] matches PeerAction::Deliver(ts, m) && m == Message::Disconnect && ts@
                == spec_disconnect_targets(
                pre.connected_peers@,
                pre.sync_nodes@,
                pre.peer_nodes@,
                count - MAXIMUM_NUMBER_OF_PEERS,
            )
        } else {
            actions.len() == 0
        })
    } else {
        let cands1 = if pre.node_type != NodeType::Sync {
            spec_candidates_after(
                pre.candidate_peers@,
                pre.connected_peers@,
                pre.local_ip,
                pre.sync_nodes@,
            )
        } else {
            pre.candidate_peers@
        };
        let cands2 = spec_candidates_after(
            cands1,
            pre.connected_peers@,
            pre.local_ip,
            pre.peer_nodes@,
        );
        &&& post.candidate_peers@ == cands2
        &&& (exists|picks: Seq<Addr>|
            {
                &&& picks.len() == (if MINIMUM_NUMBER_OF_PEERS <= cands2.len() {
                    MINIMUM_NUMBER_OF_PEERS as int
                } else {
                    cands2.len() as int
                })
                &&& #[trigger] actions.len() == picks.len() + 1
                &&& (forall|k: int| 0 <= k < picks.len() ==> #[trigger] actions[k]
                    == PeerAction::RequestConnect(picks[k]) && cands2.contains(picks[k])
                    && !spec_pair_has(pre.connected_peers@, picks[k]))
                &&& actions[picks.len() as int] matches PeerAction::Deliver(kv, m) && m
                    == Message::PeerRequest && kv@ == spec_connected_addrs(pre.connected_peers@)
            })
    })
}

/// Copies a list of addresses.
fn copy_addrs(v: &Vec<Addr>) -> (r: Vec<Addr>)
    ensures
        r@ == v@,
{
    let mut r: Vec<Addr> = Vec::new();
    let mut i: usize = 0;
    while i < v.len()
        invariant
            i <= v@.len(),
            r@ =~= v@.take(i as int),
        decreases v@.len() - i,
    {
        r.push(v[i]);
        i = i + 1;
    }
    proof {
        assert(r@ =~= v@);
    }
    r
}

impl Peers {
    /// The heartbeat's disconnect choice, as [`spec_disconnect_targets`].
    fn compute_disconnect_targets(&self, excess: usize) -> (targets: Vec<Addr>)
        ensures
            targets@ == spec_disconnect_targets(
                self.connected_peers@,
                self.sync_nodes@,
                self.peer_nodes@,
                excess as int,
            ),
    {
        let ghost conn = self.connected_peers@;
        let ghost sn = self.sync_nodes@;
        let ghost pn = self.peer_nodes@;
        let mut targets: Vec<Addr> = Vec::new();
        let mut i: usize = 0;
        proof {
            assert(conn.skip(0) =~= conn);
        }
        while i < self.connected_peers.len() && targets.len() < excess
            invariant
                conn == self.connected_peers@,
                sn == self.sync_nodes@,
                pn == self.peer_nodes@,
                i <= conn.len(),
                targets@.len() <= excess,
                spec_disconnect_targets(conn, sn, pn, excess as int) == targets@
                    + spec_disconnect_targets(
                    conn.skip(i as int),
                    sn,
                    pn,
                    excess - targets@.len(),
                ),
            decreases conn.len() - i,
        {
            let a = self.connected_peers[i].0;
            proof {
                assert(conn.skip(i as int).first() == conn[i as int]);
                assert(conn.skip(i as int).drop_first() =~= conn.skip(i + 1));
            }
            let in_sync = addr_set_contains(&self.sync_nodes, a);
            let in_peer = addr_set_contains(&self.peer_nodes, a);
            if !in_sync && !in_peer {
                let ghost t_old = targets@;
                targets.push(a);
                proof {
                    let rem = excess - t_old.len();
                    assert(spec_disconnect_targets(conn.skip(i as int), sn, pn, rem) == seq![a]
                        + spec_disconnect_targets(conn.skip(i + 1), sn, pn, rem - 1));
                    assert(t_old + (seq![a] + spec_disconnect_targets(
                        conn.skip(i + 1),
                        sn,
                        pn,
                        rem - 1,
                    )) =~= targets@ + spec_disconnect_targets(conn.skip(i + 1), sn, pn, rem - 1));
                }
            }
            i = i + 1;
        }
        proof {
            if i == conn.len() {
                assert(conn.skip(conn.len() as int) =~= Seq::<(Addr, u64)>::empty());
            } else {
                assert(targets@.len() == excess);
            }
            assert(spec_disconnect_targets(conn, sn, pn, excess as int) =~= targets@);
        }
        targets
    }

    /// Performs the given request, returning the actions for the event loop.
    /// The registry invariants and the node configuration are preserved, and
    /// each request's effect is exactly its postcondition predicate.
    pub fn update(&mut self, request: PeersRequest, now: u64) -> (actions: Vec<PeerAction>)
        requires
            old(self).wf(),
        ensures
            final(self).wf(),
            final(self).spec_same_config(old(self)),
            (match request {
                PeersRequest::Connect(peer) => spec_connect_post(
                    *old(self),
                    *final(self),
                    actions@,
                    peer,
                    now,
                ),
                PeersRequest::Heartbeat => spec_heartbeat_post(
                    *old(self),
                    *final(self),
                    actions@,
                    now,
                ),
                PeersRequest::MessagePropagate(sender, message) => spec_propagate_post(
                    *old(self),
                    *final(self),
                    actions@,
                    sender,
                    message,
                    now,
                ),
                PeersRequest::MessageSend(peer, message) => spec_send_post(
                    *old(self),
                    *final(self),
                    actions@,
                    peer,
                    message,
                    now,
                ),
                PeersRequest::PeerConnecting(peer) => spec_connecting_post(
                    *old(self),
                    *final(self),
                    actions@,
                    peer,
                    now,
                ),
                PeersRequest::PeerConnected(peer, nonce) => spec_connected_post(
                    *old(self),
                    *final(self),
                    actions@,
                    peer,
                    nonce,
                ),
                PeersRequest::PeerDisconnected(peer) => spec_disconnected_post(
                    *old(self),
                    *final(self),
                    actions@,
                    peer,
                ),
                PeersRequest::PeerRestricted(peer) => spec_restricted_post(
                    *old(self),
                    *final(self),
                    actions@,
                    peer,
                    now,
                ),
                PeersRequest::SendPeerResponse(recipient) => spec_send_peer_response_post(
                    *old(self),
                    *final(self),
                    actions@,
                    recipient,
                ),
                PeersRequest::ReceivePeerResponse(addrs) => spec_receive_peer_response_post(
                    *old(self),
                    *final(self),
                    actions@,
                    addrs@,
                ),
            }),
    {
        match request {
            PeersRequest::Connect(peer) => {
                let precheck = !is_self_address(self.local_ip, peer) && self.num_connected_peers()
                    < MAXIMUM_NUMBER_OF_PEERS && !self.is_connected_to(peer) && !self.is_restricted(
                    peer,
                    now,
                );
                if !precheck {
                    return Vec::new();
                }
                let last: u64 = match addr_pair_find(&self.seen_outbound_connections, peer) {
                    Some(i) => {
                        proof {
                            lemma_pair_get(self.seen_outbound_connections@, i as int);
                        }
                        self.seen_outbound_connections[i].1
                    },
                    None => 0,
                };
                let dial = elapsed_secs(now, last) >= RADIO_SILENCE_IN_SECS;
                addr_map_upsert(
                    &mut self.seen_outbound_connections,
                    peer,
                    if dial {
                        now
                    } else {
                        last
                    },
                );
                if dial {
                    let mut actions: Vec<PeerAction> = Vec::new();
                    actions.push(PeerAction::Dial(peer));
                    proof {
                        assert(actions@ =~= seq![PeerAction::Dial(peer)]);
                    }
                    actions
                } else {
                    Vec::new()
                }
            },
            PeersRequest::Heartbeat => {
                let count = self.num_connected_peers();
                let mut actions: Vec<PeerAction> = Vec::new();
                if count > MAXIMUM_NUMBER_OF_PEERS {
                    let excess = count - MAXIMUM_NUMBER_OF_PEERS;
                    let targets = self.compute_disconnect_targets(excess);
                    actions.push(PeerAction::Deliver(targets, Message::Disconnect));
                }
                if count >= MINIMUM_NUMBER_OF_PEERS {
                    return actions;
                }
                let is_sync = match self.node_type {
                    NodeType::Sync => true,
                    _ => false,
                };
                if !is_sync {
                    let sync_list = copy_addrs(&self.sync_nodes);
                    self.add_candidate_peers(&sync_list);
                }
                let peer_list = copy_addrs(&self.peer_nodes);
                self.add_candidate_peers(&peer_list);
                let picked = choose_candidates(&self.candidate_peers, MINIMUM_NUMBER_OF_PEERS);
                let ghost cands2 = self.candidate_peers@;
                let mut chosen: Vec<Addr> = Vec::new();
                let mut i: usize = 0;
                while i < picked.len()
                    invariant
                        old(self).wf(),
                        self.wf(),
                        self.spec_same_config(old(self)),
                        i <= picked@.len(),
                        cands2 == self.candidate_peers@,
                        self.connected_peers@ == old(self).connected_peers@,
                        self.restricted_peers@ == old(self).restricted_peers@,
                        self.seen_inbound_connections@ == old(self).seen_inbound_connections@,
                        self.seen_outbound_connections@ == old(self).seen_outbound_connections@,
                        self.seen_outbound_blocks@ == old(self).seen_outbound_blocks@,
                        self.seen_outbound_transactions@ == old(
                            self,
                        ).seen_outbound_transactions@,
                        self.candidate_peers@ == cands2,
                        forall|k: int| 0 <= k < picked@.len() ==> cands2.contains(
                            #[trigger] picked@[k],
                        ),
                        chosen@.len() == i,
                        actions@.len() == chosen@.len(),
                        forall|k: int| 0 <= k < chosen@.len() ==> #[trigger] actions@[k]
                            == PeerAction::RequestConnect(chosen@[k]) && cands2.contains(
                            chosen@[k],
                        ) && !spec_pair_has(self.connected_peers@, chosen@[k]),
                    decreases picked@.len() - i,
                {
                    let p = picked[i];
                    let already_connected = self.is_connected_to(p);
                    proof {
                        assert(cands2.contains(p));
                        assert(!already_connected) by {
                            if spec_pair_has(self.connected_peers@, p) {
                                assert(!self.candidate_peers@.contains(p));
                            }
                        }
                    }
                    if !already_connected {
                        chosen.push(p);
                        actions.push(PeerAction::RequestConnect(p));
                    }
                    i = i + 1;
                }
                let conn_list = self.connected_peers();
                actions.push(PeerAction::Deliver(conn_list, Message::PeerRequest));
                proof {
                    let picks = chosen@;
                    assert(picks.len() == (if MINIMUM_NUMBER_OF_PEERS <= cands2.len() {
                        MINIMUM_NUMBER_OF_PEERS as int
                    } else {
                        cands2.len() as int
                    }));
                    assert(actions@.len() == picks.len() + 1);
                    assert(actions@[picks.len() as int] matches PeerAction::Deliver(kv, m) && m
                        == Message::PeerRequest && kv@ == spec_connected_addrs(
                        old(self).connected_peers@,
                    ));
                }
                actions
            },
            PeersRequest::MessagePropagate(sender, message) => {
                self.propagate(sender, message, now)
            },
            PeersRequest::MessageSend(peer, message) => self.send(peer, message, now),
            PeersRequest::PeerConnecting(peer) => {
                let precheck = !is_self_address(self.local_ip, peer) && self.num_connected_peers()
                    < MAXIMUM_NUMBER_OF_PEERS && !self.is_connected_to(peer) && !self.is_restricted(
                    peer,
                    now,
                );
                if !precheck {
                    return Vec::new();
                }
                let key = if peer.is_loopback() {
                    peer
                } else {
                    Addr { ip: peer.ip, port: 0xffff }
                };
                let e0: InboundAttempts = match addr_pair_find(
                    &self.seen_inbound_connections,
                    key,
                ) {
                    Some(i) => {
                        proof {
                            lemma_pair_get(self.seen_inbound_connections@, i as int);
                        }
                        self.seen_inbound_connections[i].1
                    },
                    None => InboundAttempts {
                        initial_port: peer.port,
                        num_attempts: 0,
                        last_seen: 0,
                    },
                };
                let e1 = if elapsed_secs(now, e0.last_seen) > RADIO_SILENCE_IN_SECS {
                    InboundAttempts { initial_port: peer.port, num_attempts: 0, last_seen: now }
                } else {
                    e0
                };
                let blocked = e1.initial_port < peer.port && e1.num_attempts
                    > MAXIMUM_CONNECTION_FAILURES;
                let stored = if blocked {
                    e1
                } else {
                    InboundAttempts {
                        initial_port: e1.initial_port,
                        num_attempts: if e1.num_attempts < 0xffff_ffffu32 {
                            e1.num_attempts + 1
                        } else {
                            e1.num_attempts
                        },
                        last_seen: e1.last_seen,
                    }
                };
                addr_map_upsert(&mut self.seen_inbound_connections, key, stored);
                if blocked {
                    Vec::new()
                } else {
                    let mut actions: Vec<PeerAction> = Vec::new();
                    actions.push(PeerAction::AcceptConnection(peer));
                    proof {
                        assert(actions@ =~= seq![PeerAction::AcceptConnection(peer)]);
                    }
                    actions
                }
            },
            PeersRequest::PeerConnected(peer, nonce) => {
                addr_map_upsert(&mut self.connected_peers, peer, nonce);
                addr_set_remove(&mut self.candidate_peers, peer);
                proof {
                    assert forall|a: Addr| #[trigger] spec_pair_has(self.connected_peers@, a)
                        implies !self.candidate_peers@.contains(a) by {
                        if a == peer {
                        } else {
                            assert(spec_pair_has(old(self).connected_peers@, a));
                        }
                    }
                }
                Vec::new()
            },
            PeersRequest::PeerDisconnected(peer) => {
                addr_map_remove(&mut self.connected_peers, peer);
                addr_set_insert(&mut self.candidate_peers, peer);
                let ghost blocks_mid = self.seen_outbound_blocks@;
                addr_map_remove(&mut self.seen_outbound_blocks, peer);
                proof {
                    lemma_gossip_table_remove(blocks_mid, self.seen_outbound_blocks@, peer);
                }
                let ghost txs_mid = self.seen_outbound_transactions@;
                addr_map_remove(&mut self.seen_outbound_transactions, peer);
                proof {
                    lemma_gossip_table_remove(txs_mid, self.seen_outbound_transactions@, peer);
                    assert forall|a: Addr| #[trigger] spec_pair_has(self.connected_peers@, a)
                        implies !self.candidate_peers@.contains(a) by {
                        assert(a != peer);
                        assert(spec_pair_has(old(self).connected_peers@, a));
                    }
                }
                Vec::new()
            },
            PeersRequest::PeerRestricted(peer) => {
                addr_map_upsert(&mut self.restricted_peers, peer, now);
                Vec::new()
            },
            PeersRequest::SendPeerResponse(recipient) => {
                let list = self.connected_peers();
                self.send(recipient, Message::PeerResponse(list), now)
            },
            PeersRequest::ReceivePeerResponse(addrs) => {
                self.add_candidate_peers(&addrs);
                Vec::new()
            },
        }
    }

    /// A dial ordered by a `Connect` failed or timed out: the address is no
    /// longer a candidate.
    pub fn dial_failed(&mut self, peer: Addr)
        requires
            old(self).wf(),
        ensures
            final(self).wf(),
            final(self).spec_same_config(old(self)),
            forall|x: Addr| final(self).candidate_peers@.contains(x) <==> (old(
                self,
            ).candidate_peers@.contains(x) && x != peer),
            final(self).connected_peers@ == old(self).connected_peers@,
            final(self).restricted_peers@ == old(self).restricted_peers@,
            final(self).seen_inbound_connections@ == old(self).seen_inbound_connections@,
            final(self).seen_outbound_connections@ == old(self).seen_outbound_connections@,
            final(self).seen_outbound_blocks@ == old(self).seen_outbound_blocks@,
            final(self).seen_outbound_transactions@ == old(self).seen_outbound_transactions@,
    {
        addr_set_remove(&mut self.candidate_peers, peer);
    }

    /// A peer's outbound channel is closed: the peer leaves the connected
    /// table (and, unlike an ordinary disconnect, does not become a
    /// candidate).
    pub fn channel_failed(&mut self, peer: Addr)
        requires
            old(self).wf(),
        ensures
            final(self).wf(),
            final(self).spec_same_config(old(self)),
            spec_removed(old(self).connected_peers@, final(self).connected_peers@, peer),
            final(self).candidate_peers@ == old(self).candidate_peers@,
            final(self).restricted_peers@ == old(self).restricted_peers@,
            final(self).seen_inbound_connections@ == old(self).seen_inbound_connections@,
            final(self).seen_outbound_connections@ == old(self).seen_outbound_connections@,
            final(self).seen_outbound_blocks@ == old(self).seen_outbound_blocks@,
            final(self).seen_outbound_transactions@ == old(self).seen_outbound_transactions@,
    {
        addr_map_remove(&mut self.connected_peers, peer);
        proof {
            assert forall|a: Addr| #[trigger] spec_pair_has(self.connected_peers@, a)
                implies !self.candidate_peers@.contains(a) by {
                assert(spec_pair_has(old(self).connected_peers@, a));
            }
        }
    }
}

} // verus!
