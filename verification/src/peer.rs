//! The per-connection protocol engine: the two-phase handshake and the
//! steady-state dispatch of inbound frames, with per-connection gossip
//! deduplication and abuse limits.
//!
//! The engine is a state machine over plain values; the surrounding task
//! owns the socket, feeds events in, and performs the actions handed back.

use vstd::prelude::*;
use crate::address::Addr;
use crate::assoc::{
    spec_pairs_unique, spec_pair_has, spec_pair_get, spec_upserted, lemma_pair_get, id_pair_find,
    id_map_upsert,
};
use crate::block::{spec_block_hash, spec_genesis_header, spec_header_is_valid, header_is_valid, BlockHeader};
use crate::config::{
    MESSAGE_VERSION, CHALLENGE_HEIGHT, RADIO_SILENCE_IN_SECS, BLOCK_SPAM_THRESHOLD,
    TRANSACTION_SPAM_THRESHOLD, SPAM_WINDOW_IN_SECS, spec_elapsed, elapsed_secs,
};
use crate::message::{LedgerRequest, Message};
use crate::peers::PeersRequest;

verus! {

/// Why a handshake was refused.
#[derive(Clone, Copy, PartialEq, Eq, Structural, Debug)]
pub enum HandshakeError {
    /// The peer announced a protocol version older than ours.
    OutdatedVersion(u32),
    /// The peer presented our own session nonce: a self-connection.
    AttemptedSelfConnect(u64),
    /// The peer presented the nonce of an already connected peer.
    DuplicateNonce(u64),
    /// The reachability probe of the claimed listener port failed.
    PeerUnreachable,
    /// The challenge response did not carry our genesis header.
    InvalidChallengeResponse,
    /// A message that the current phase does not expect.
    UnexpectedMessage,
}

/// Where a handshake stands.
#[derive(Clone, Copy, PartialEq, Eq, Structural, Debug)]
pub enum HandshakeState {
    /// Our challenge request is out; the peer's has not arrived.
    AwaitingRequest,
    /// The peer claimed a listener port that differs from its source port;
    /// its reachability is being probed.
    Probing {
        /// The peer's claimed listener address.
        peer_ip: Addr,
        /// The peer's session nonce.
        peer_nonce: u64,
    },
    /// The peer's request was accepted; its challenge response is awaited.
    AwaitingResponse {
        /// The peer's listener address.
        peer_ip: Addr,
        /// The peer's session nonce.
        peer_nonce: u64,
    },
    /// Both sides accepted.
    Connected {
        /// The peer's listener address.
        peer_ip: Addr,
        /// The peer's session nonce.
        peer_nonce: u64,
    },
}

/// An event fed into the handshake.
#[derive(Debug)]
pub enum HandshakeEvent {
    /// A frame arrived from the peer.
    Received(Message),
    /// The reachability probe connected.
    ProbeSucceeded,
    /// The reachability probe failed or timed out.
    ProbeFailed,
}

/// An action the handshake asks of the connection task.
#[derive(Debug)]
pub enum HandshakeAction {
    /// Write this message to the socket.
    SendMessage(Message),
    /// Open a test TCP connection to this address, with the connection
    /// timeout, and report the outcome as a probe event.
    ProbePort(Addr),
}

/// The nonce checks shared by both entry paths: a handshake never accepts
/// our own session nonce, nor the nonce of an already connected peer.
pub open spec fn spec_handshake_accept(
    peer_ip: Addr,
    peer_nonce: u64,
    local_nonce: u64,
    connected_nonces: Seq<u64>,
) -> Result<(HandshakeState, Seq<HandshakeAction>), HandshakeError> {
    if peer_nonce == local_nonce {
        Err(HandshakeError::AttemptedSelfConnect(peer_nonce))
    } else if connected_nonces.contains(peer_nonce) {
        Err(HandshakeError::DuplicateNonce(peer_nonce))
    } else {
        Ok(
            (
                HandshakeState::AwaitingResponse { peer_ip, peer_nonce },
                seq![
                    HandshakeAction::SendMessage(
                        Message::ChallengeResponse(spec_genesis_header()),
                    )
                ],
            ),
        )
    }
}

/// The handshake transition relation. `source_addr` is the remote end of
/// the socket; a claimed listener port that differs from the source port is
/// probed before the peer is trusted under it.
pub open spec fn spec_handshake_step(
    state: HandshakeState,
    event: HandshakeEvent,
    source_addr: Addr,
    local_nonce: u64,
    connected_nonces: Seq<u64>,
) -> Result<(HandshakeState, Seq<HandshakeAction>), HandshakeError> {
    match (state, event) {
        (
            HandshakeState::AwaitingRequest,
            HandshakeEvent::Received(Message::ChallengeRequest(version, listener_port, peer_nonce, _height)),
        ) => {
            if version < MESSAGE_VERSION {
                Err(HandshakeError::OutdatedVersion(version))
            } else if source_addr.port != listener_port {
                let peer_ip = Addr { ip: source_addr.ip, port: listener_port };
                Ok(
                    (
                        HandshakeState::Probing { peer_ip, peer_nonce },
                        seq![HandshakeAction::ProbePort(peer_ip)],
                    ),
                )
            } else {
                spec_handshake_accept(source_addr, peer_nonce, local_nonce, connected_nonces)
            }
        },
        (
            HandshakeState::Probing { peer_ip, peer_nonce },
            HandshakeEvent::ProbeSucceeded,
        ) => spec_handshake_accept(peer_ip, peer_nonce, local_nonce, connected_nonces),
        (HandshakeState::Probing { .. }, HandshakeEvent::ProbeFailed) => Err(
            HandshakeError::PeerUnreachable,
        ),
        (
            HandshakeState::AwaitingResponse { peer_ip, peer_nonce },
            HandshakeEvent::Received(Message::ChallengeResponse(header)),
        ) => {
            if header.height == CHALLENGE_HEIGHT && header == spec_genesis_header()
                && spec_header_is_valid(header) {
                Ok((HandshakeState::Connected { peer_ip, peer_nonce }, Seq::empty()))
            } else {
                Err(HandshakeError::InvalidChallengeResponse)
            }
        },
        _ => Err(HandshakeError::UnexpectedMessage),
    }
}

/// A handshake state never carries our own nonce or the nonce of an
/// already connected peer once it has left the probing phase.
pub open spec fn spec_handshake_state_ok(
    state: HandshakeState,
    local_nonce: u64,
    connected_nonces: Seq<u64>,
) -> bool {
    match state {
        HandshakeState::AwaitingResponse { peer_ip, peer_nonce } => peer_nonce != local_nonce
            && !connected_nonces.contains(peer_nonce),
        HandshakeState::Connected { peer_ip, peer_nonce } => peer_nonce != local_nonce
            && !connected_nonces.contains(peer_nonce),
        _ => true,
    }
}

/// Self-connection and duplicate-nonce rejection: no sequence of handshake
/// steps ever accepts a peer whose nonce is the local nonce or already
/// connected — every accepting transition preserves the guarantee.
pub proof fn lemma_handshake_rejects_self_and_duplicate(
    state: HandshakeState,
    event: HandshakeEvent,
    source_addr: Addr,
    local_nonce: u64,
    connected_nonces: Seq<u64>,
)
    requires
        spec_handshake_state_ok(state, local_nonce, connected_nonces),
    ensures
        (match spec_handshake_step(state, event, source_addr, local_nonce, connected_nonces) {
            Ok((next, _actions)) => spec_handshake_state_ok(next, local_nonce, connected_nonces),
            Err(_) => true,
        }),
{
}

/// The opening of the handshake: our challenge request, carrying our
/// protocol version, listener port, session nonce, and the challenge
/// height.
pub fn handshake_start(local_listener_port: u16, local_nonce: u64) -> (r: (
    HandshakeState,
    Message,
))
    ensures
        r.0 == HandshakeState::AwaitingRequest,
        r.1 == Message::ChallengeRequest(
            MESSAGE_VERSION,
            local_listener_port,
            local_nonce,
            CHALLENGE_HEIGHT,
        ),
{
    (
        HandshakeState::AwaitingRequest,
        Message::ChallengeRequest(MESSAGE_VERSION, local_listener_port, local_nonce, CHALLENGE_HEIGHT),
    )
}

/// Whether this nonce belongs to a connected peer.
fn nonces_contain(connected_nonces: &Vec<u64>, nonce: u64) -> (r: bool)
    ensures
        r == connected_nonces@.contains(nonce),
{
    let mut i: usize = 0;
    while i < connected_nonces.len()
        invariant
            i <= connected_nonces@.len(),
            forall|j: int| 0 <= j < i ==> connected_nonces@[j] != nonce,
        decreases connected_nonces@.len() - i,
    {
        if connected_nonces[i] == nonce {
            proof {
                assert(connected_nonces@[i as int] == nonce);
            }
            return true;
        }
        i = i + 1;
    }
    false
}

/// Builds our genesis header.
fn local_genesis_header() -> (h: BlockHeader)
    ensures
        h == spec_genesis_header(),
{
    crate::block::genesis_block().header
}

/// One step of the handshake, exactly as [`spec_handshake_step`] states it.
pub fn handshake_step(
    state: HandshakeState,
    event: HandshakeEvent,
    source_addr: Addr,
    local_nonce: u64,
    connected_nonces: &Vec<u64>,
) -> (r: Result<(HandshakeState, Vec<HandshakeAction>), HandshakeError>)
    ensures
        (match spec_handshake_step(state, event, source_addr, local_nonce, connected_nonces@) {
            Ok((next, actions)) => r matches Ok(got) && got.0 == next && got.1@ == actions,
            Err(e) => r matches Err(got) && got == e,
        }),
{
    match (state, event) {
        (
            HandshakeState::AwaitingRequest,
            HandshakeEvent::Received(Message::ChallengeRequest(version, listener_port, peer_nonce, _height)),
        ) => {
            if version < MESSAGE_VERSION {
                return Err(HandshakeError::OutdatedVersion(version));
            }
            if source_addr.port != listener_port {
                let peer_ip = Addr { ip: source_addr.ip, port: listener_port };
                let mut actions: Vec<HandshakeAction> = Vec::new();
                actions.push(HandshakeAction::ProbePort(peer_ip));
                proof {
                    assert(actions@ =~= seq![HandshakeAction::ProbePort(peer_ip)]);
                }
                return Ok((HandshakeState::Probing { peer_ip, peer_nonce }, actions));
            }
            handshake_accept(source_addr, peer_nonce, local_nonce, connected_nonces)
        },
        (HandshakeState::Probing { peer_ip, peer_nonce }, HandshakeEvent::ProbeSucceeded) => {
            handshake_accept(peer_ip, peer_nonce, local_nonce, connected_nonces)
        },
        (HandshakeState::Probing { peer_ip: _, peer_nonce: _ }, HandshakeEvent::ProbeFailed) => {
            Err(HandshakeError::PeerUnreachable)
        },
        (
            HandshakeState::AwaitingResponse { peer_ip, peer_nonce },
            HandshakeEvent::Received(Message::ChallengeResponse(header)),
        ) => {
            let genesis = local_genesis_header();
            if header.height == CHALLENGE_HEIGHT && header == genesis && header_is_valid(&header) {
                Ok((HandshakeState::Connected { peer_ip, peer_nonce }, Vec::new()))
            } else {
                Err(HandshakeError::InvalidChallengeResponse)
            }
        },
        _ => Err(HandshakeError::UnexpectedMessage),
    }
}

/// The shared acceptance tail of the handshake: the nonce checks, then our
/// challenge response.
fn handshake_accept(
    peer_ip: Addr,
    peer_nonce: u64,
    local_nonce: u64,
    connected_nonces: &Vec<u64>,
) -> (r: Result<(HandshakeState, Vec<HandshakeAction>), HandshakeError>)
    ensures
        (match spec_handshake_accept(peer_ip, peer_nonce, local_nonce, connected_nonces@) {
            Ok((next, actions)) => r matches Ok(got) && got.0 == next && got.1@ == actions,
            Err(e) => r matches Err(got) && got == e,
        }),
{
    if peer_nonce == local_nonce {
        return Err(HandshakeError::AttemptedSelfConnect(peer_nonce));
    }
    if nonces_contain(connected_nonces, peer_nonce) {
        return Err(HandshakeError::DuplicateNonce(peer_nonce));
    }
    let mut actions: Vec<HandshakeAction> = Vec::new();
    actions.push(HandshakeAction::SendMessage(Message::ChallengeResponse(local_genesis_header())));
    proof {
        assert(actions@ =~= seq![
            HandshakeAction::SendMessage(Message::ChallengeResponse(spec_genesis_header())),
        ]);
    }
    Ok((HandshakeState::AwaitingResponse { peer_ip, peer_nonce }, actions))
}

/// Where an inbound message is routed.
#[derive(Debug)]
pub enum Route {
    /// Forward to the ledger's event loop.
    ToLedger(LedgerRequest),
    /// Forward to the peer manager.
    ToPeers(PeersRequest),
}

/// What the connection task must do with one inbound message: forward these
/// requests, and tear the connection down if asked.
#[derive(Debug)]
pub struct Dispatch {
    /// The requests to forward, in order.
    pub routes: Vec<Route>,
    /// Whether the connection must now be closed.
    pub disconnect: bool,
}

/// How many entries of a seen-items table lie inside the spam window.
pub open spec fn spec_count_recent(s: Seq<(u64, u64)>, now: u64) -> int
    decreases s.len(),
{
    if s.len() == 0 {
        0
    } else {
        spec_count_recent(s.drop_last(), now) + (if spec_elapsed(now, s.last().1)
            <= SPAM_WINDOW_IN_SECS {
            1int
        } else {
            0int
        })
    }
}

/// Gossip-spam restriction in general: when every item of a peer's
/// seen-items table arrived inside the spam window, the recent count is the
/// table's full size. The table keys are distinct, so a peer that has shown
/// the threshold many distinct blocks (or transactions) inside the window
/// meets the spam condition of [`Peer::on_inbound_message`], whose contract
/// then forces the restriction route and the teardown, with the offending
/// item never forwarded.
pub proof fn lemma_spam_window_full(s: Seq<(u64, u64)>, now: u64)
    requires
        forall|j: int| 0 <= j < s.len() ==> spec_elapsed(now, (#[trigger] s[j]).1)
            <= SPAM_WINDOW_IN_SECS,
    ensures
        spec_count_recent(s, now) == s.len(),
    decreases s.len(),
{
    if s.len() > 0 {
        assert forall|j: int| 0 <= j < s.drop_last().len() implies spec_elapsed(
            now,
            (#[trigger] s.drop_last()[j]).1,
        ) <= SPAM_WINDOW_IN_SECS by {
            assert(s.drop_last()[j] == s[j]);
        }
        lemma_spam_window_full(s.drop_last(), now);
    }
}

/// Counts the entries of a seen-items table inside the spam window.
fn count_recent(s: &Vec<(u64, u64)>, now: u64) -> (n: usize)
    ensures
        n == spec_count_recent(s@, now),
{
    let mut n: usize = 0;
    let mut i: usize = 0;
    proof {
        assert(s@.take(0) =~= Seq::<(u64, u64)>::empty());
    }
    while i < s.len()
        invariant
            i <= s@.len(),
            n <= i,
            n == spec_count_recent(s@.take(i as int), now),
        decreases s@.len() - i,
    {
        proof {
            assert(s@.take(i + 1).drop_last() =~= s@.take(i as int));
            assert(s@.take(i + 1).last() == s@[i as int]);
        }
        if elapsed_secs(now, s[i].1) <= SPAM_WINDOW_IN_SECS {
            n = n + 1;
        }
        i = i + 1;
    }
    proof {
        assert(s@.take(s@.len() as int) =~= s@);
    }
    n
}

/// The state of one connected peer.
pub struct Peer {
    /// The peer's listener address (not the ephemeral source port).
    pub listener_ip: Addr,
    /// The peer's announced protocol version, zero until its first ping.
    pub version: u32,
    /// When a message was last received from this peer.
    pub last_seen: u64,
    /// Per-connection dedup: block hash to when it last arrived.
    pub seen_inbound_blocks: Vec<(u64, u64)>,
    /// Per-connection dedup: transaction identifier to when it last arrived.
    pub seen_inbound_transactions: Vec<(u64, u64)>,
}

impl Peer {
    /// The dedup tables keep distinct keys.
    pub open spec fn wf(&self) -> bool {
        &&& spec_pairs_unique(self.seen_inbound_blocks@)
        &&& spec_pairs_unique(self.seen_inbound_transactions@)
    }

    /// Creates the state for a freshly connected peer.
    pub fn new(listener_ip: Addr, now: u64) -> (p: Peer)
        ensures
            p.wf(),
            p.listener_ip == listener_ip,
            p.version == 0,
            p.last_seen == now,
            p.seen_inbound_blocks@.len() == 0,
            p.seen_inbound_transactions@.len() == 0,
    {
        Peer {
            listener_ip,
            version: 0,
            last_seen: now,
            seen_inbound_blocks: Vec::new(),
            seen_inbound_transactions: Vec::new(),
        }
    }

    /// The peer's listener address.
    pub fn peer_ip(&self) -> (r: Addr)
        ensures
            r == self.listener_ip,
    {
        self.listener_ip
    }

    /// Whether an outbound message may still be written: the peer must have
    /// spoken within the last radio-silence window, else the connection is
    /// torn down as silent.
    pub fn ready_for_outbound(&self, now: u64) -> (r: bool)
        ensures
            r == (spec_elapsed(now, self.last_seen) <= RADIO_SILENCE_IN_SECS),
    {
        elapsed_secs(now, self.last_seen) <= RADIO_SILENCE_IN_SECS
    }

    /// What the connection task does once the handshake has accepted:
    /// register the peer with the registry, and greet it with a first ping
    /// through the ledger.
    pub fn on_connected(peer_ip: Addr, peer_nonce: u64) -> (r: (PeersRequest, LedgerRequest))
        ensures
            r.0 == PeersRequest::PeerConnected(peer_ip, peer_nonce),
            r.1 == LedgerRequest::SendPing(peer_ip),
    {
        (PeersRequest::PeerConnected(peer_ip, peer_nonce), LedgerRequest::SendPing(peer_ip))
    }

    /// The request the task routes to the ledger when this connection ends.
    pub fn on_disconnect(&self) -> (r: LedgerRequest)
        ensures
            r == LedgerRequest::Disconnect(self.listener_ip),
    {
        LedgerRequest::Disconnect(self.listener_ip)
    }
}

/// Builds a dispatch with a single route.
fn dispatch_single(route: Route, disconnect: bool) -> (d: Dispatch)
    ensures
        d.routes@ == seq![route],
        d.disconnect == disconnect,
{
    let mut routes: Vec<Route> = Vec::new();
    routes.push(route);
    proof {
        assert(routes@ =~= seq![route]);
    }
    Dispatch { routes, disconnect }
}

/// Builds a dispatch with no routes.
fn dispatch_none(disconnect: bool) -> (d: Dispatch)
    ensures
        d.routes@.len() == 0,
        d.disconnect == disconnect,
{
    Dispatch { routes: Vec::new(), disconnect }
}

impl Peer {
    /// Dispatches one inbound frame.
    ///
    /// A peer that stayed silent for a full radio-silence window is dropped
    /// unheard. Otherwise the liveness clock is refreshed and the message is
    /// routed by variant: chain traffic to the ledger, peer-list traffic to
    /// the peer manager. Handshake messages after the handshake, outdated
    /// pings, and unknown variants tear the connection down. An unconfirmed
    /// block or transaction is routed at most once per radio-silence window,
    /// and a flood of them inside the spam window restricts the peer.
    pub fn on_inbound_message(&mut self, message: Message, now: u64) -> (d: Dispatch)
        requires
            old(self).wf(),
        ensures
            final(self).wf(),
            final(self).listener_ip == old(self).listener_ip,
            (if spec_elapsed(now, old(self).last_seen) > RADIO_SILENCE_IN_SECS {
                &&& *final(self) == *old(self)
                &&& d.routes@.len() == 0
                &&& d.disconnect
            } else {
                &&& final(self).last_seen == now
                &&& (match message {
                    Message::BlockRequest(start_height, end_height) => {
                        &&& final(self).version == old(self).version
                        &&& final(self).seen_inbound_blocks@ == old(self).seen_inbound_blocks@
                        &&& final(self).seen_inbound_transactions@ == old(
                            self,
                        ).seen_inbound_transactions@
                        &&& d.routes@ == seq![
                            Route::ToLedger(
                                LedgerRequest::BlockRequest(
                                    old(self).listener_ip,
                                    start_height,
                                    end_height,
                                ),
                            )
                        ]
                        &&& !d.disconnect
                    },
                    Message::BlockResponse(block) => {
                        &&& final(self).version == old(self).version
                        &&& final(self).seen_inbound_blocks@ == old(self).seen_inbound_blocks@
                        &&& final(self).seen_inbound_transactions@ == old(
                            self,
                        ).seen_inbound_transactions@
                        &&& d.routes@ == seq![
                            Route::ToLedger(
                                LedgerRequest::BlockResponse(old(self).listener_ip, block),
                            )
                        ]
                        &&& !d.disconnect
                    },
                    Message::ChallengeRequest(_v, _p, _n, _h) => {
                        &&& final(self).version == old(self).version
                        &&& final(self).seen_inbound_blocks@ == old(self).seen_inbound_blocks@
                        &&& final(self).seen_inbound_transactions@ == old(
                            self,
                        ).seen_inbound_transactions@
                        &&& d.routes@.len() == 0
                        &&& d.disconnect
                    },
                    Message::ChallengeResponse(_hd) => {
                        &&& final(self).version == old(self).version
                        &&& final(self).seen_inbound_blocks@ == old(self).seen_inbound_blocks@
                        &&& final(self).seen_inbound_transactions@ == old(
                            self,
                        ).seen_inbound_transactions@
                        &&& d.routes@.len() == 0
                        &&& d.disconnect
                    },
                    Message::Disconnect => {
                        &&& final(self).version == old(self).version
                        &&& final(self).seen_inbound_blocks@ == old(self).seen_inbound_blocks@
                        &&& final(self).seen_inbound_transactions@ == old(
                            self,
                        ).seen_inbound_transactions@
                        &&& d.routes@ == seq![
                            Route::ToLedger(LedgerRequest::Disconnect(old(self).listener_ip))
                        ]
                        &&& d.disconnect
                    },
                    Message::PeerRequest => {
                        &&& final(self).version == old(self).version
                        &&& final(self).seen_inbound_blocks@ == old(self).seen_inbound_blocks@
                        &&& final(self).seen_inbound_transactions@ == old(
                            self,
                        ).seen_inbound_transactions@
                        &&& d.routes@ == seq![
                            Route::ToPeers(PeersRequest::SendPeerResponse(old(self).listener_ip))
                        ]
                        &&& !d.disconnect
                    },
                    Message::PeerResponse(addrs) => {
                        &&& final(self).version == old(self).version
                        &&& final(self).seen_inbound_blocks@ == old(self).seen_inbound_blocks@
                        &&& final(self).seen_inbound_transactions@ == old(
                            self,
                        ).seen_inbound_transactions@
                        &&& d.routes@ == seq![
                            Route::ToPeers(PeersRequest::ReceivePeerResponse(addrs))
                        ]
                        &&& !d.disconnect
                    },
                    Message::Ping(version, block_height, block_hash) => {
                        &&& final(self).seen_inbound_blocks@ == old(self).seen_inbound_blocks@
                        &&& final(self).seen_inbound_transactions@ == old(
                            self,
                        ).seen_inbound_transactions@
                        &&& (if version < MESSAGE_VERSION {
                            &&& final(self).version == old(self).version
                            &&& d.routes@.len() == 0
                            &&& d.disconnect
                        } else {
                            &&& final(self).version == version
                            &&& d.routes@ == seq![
                                Route::ToLedger(
                                    LedgerRequest::Ping(
                                        old(self).listener_ip,
                                        block_height,
                                        block_hash,
                                    ),
                                )
                            ]
                            &&& !d.disconnect
                        })
                    },
                    Message::Pong(is_fork, locators) => {
                        &&& final(self).version == old(self).version
                        &&& final(self).seen_inbound_blocks@ == old(self).seen_inbound_blocks@
                        &&& final(self).seen_inbound_transactions@ == old(
                            self,
                        ).seen_inbound_transactions@
                        &&& d.routes@ == seq![
                            Route::ToLedger(
                                LedgerRequest::Pong(old(self).listener_ip, is_fork, locators),
                            )
                        ]
                        &&& !d.disconnect
                    },
                    Message::UnconfirmedBlock(block) => {
                        &&& final(self).version == old(self).version
                        &&& final(self).seen_inbound_transactions@ == old(
                            self,
                        ).seen_inbound_transactions@
                        &&& (if spec_count_recent(old(self).seen_inbound_blocks@, now)
                            >= BLOCK_SPAM_THRESHOLD {
                            &&& final(self).seen_inbound_blocks@ == old(
                                self,
                            ).seen_inbound_blocks@
                            &&& d.routes@ == seq![
                                Route::ToPeers(
                                    PeersRequest::PeerRestricted(old(self).listener_ip),
                                )
                            ]
                            &&& d.disconnect
                        } else {
                            let h = spec_block_hash(block@);
                            let last = if spec_pair_has(old(self).seen_inbound_blocks@, h) {
                                spec_pair_get(old(self).seen_inbound_blocks@, h)
                            } else {
                                0
                            };
                            &&& spec_upserted(
                                old(self).seen_inbound_blocks@,
                                final(self).seen_inbound_blocks@,
                                h,
                                now,
                            )
                            &&& !d.disconnect
                            &&& (if spec_elapsed(now, last) > RADIO_SILENCE_IN_SECS {
                                d.routes@ == seq![
                                    Route::ToLedger(
                                        LedgerRequest::UnconfirmedBlock(
                                            old(self).listener_ip,
                                            block,
                                        ),
                                    )
                                ]
                            } else {
                                d.routes@.len() == 0
                            })
                        })
                    },
                    Message::UnconfirmedTransaction(transaction) => {
                        &&& final(self).version == old(self).version
                        &&& final(self).seen_inbound_blocks@ == old(self).seen_inbound_blocks@
                        &&& (if spec_count_recent(old(self).seen_inbound_transactions@, now)
                            >= TRANSACTION_SPAM_THRESHOLD {
                            &&& final(self).seen_inbound_transactions@ == old(
                                self,
                            ).seen_inbound_transactions@
                            &&& d.routes@ == seq![
                                Route::ToPeers(
                                    PeersRequest::PeerRestricted(old(self).listener_ip),
                                )
                            ]
                            &&& d.disconnect
                        } else {
                            let last = if spec_pair_has(
                                old(self).seen_inbound_transactions@,
                                transaction.transaction_id,
                            ) {
                                spec_pair_get(
                                    old(self).seen_inbound_transactions@,
                                    transaction.transaction_id,
                                )
                            } else {
                                0
                            };
                            &&& spec_upserted(
                                old(self).seen_inbound_transactions@,
                                final(self).seen_inbound_transactions@,
                                transaction.transaction_id,
                                now,
                            )
                            &&& !d.disconnect
                            &&& (if spec_elapsed(now, last) > RADIO_SILENCE_IN_SECS {
                                d.routes@ == seq![
                                    Route::ToLedger(
                                        LedgerRequest::UnconfirmedTransaction(
                                            crate::message::Origin::Peer(old(self).listener_ip),
                                            transaction,
                                        ),
                                    )
                                ]
                            } else {
                                d.routes@.len() == 0
                            })
                        })
                    },
                    Message::Unused => {
                        &&& final(self).version == old(self).version
                        &&& final(self).seen_inbound_blocks@ == old(self).seen_inbound_blocks@
                        &&& final(self).seen_inbound_transactions@ == old(
                            self,
                        ).seen_inbound_transactions@
                        &&& d.routes@.len() == 0
                        &&& d.disconnect
                    },
                })
            }),
    {
        if elapsed_secs(now, self.last_seen) > RADIO_SILENCE_IN_SECS {
            return dispatch_none(true);
        }
        self.last_seen = now;
        match message {
            Message::BlockRequest(start_height, end_height) => {
                dispatch_single(
                    Route::ToLedger(
                        LedgerRequest::BlockRequest(self.listener_ip, start_height, end_height),
                    ),
                    false,
                )
            },
            Message::BlockResponse(block) => {
                dispatch_single(
                    Route::ToLedger(LedgerRequest::BlockResponse(self.listener_ip, block)),
                    false,
                )
            },
            Message::ChallengeRequest(_v, _p, _n, _h) => dispatch_none(true),
            Message::ChallengeResponse(_hd) => dispatch_none(true),
            Message::Disconnect => {
                dispatch_single(
                    Route::ToLedger(LedgerRequest::Disconnect(self.listener_ip)),
                    true,
                )
            },
            Message::PeerRequest => {
                dispatch_single(
                    Route::ToPeers(PeersRequest::SendPeerResponse(self.listener_ip)),
                    false,
                )
            },
            Message::PeerResponse(addrs) => {
                dispatch_single(Route::ToPeers(PeersRequest::ReceivePeerResponse(addrs)), false)
            },
            Message::Ping(version, block_height, block_hash) => {
                if version < MESSAGE_VERSION {
                    dispatch_none(true)
                } else {
                    self.version = version;
                    dispatch_single(
                        Route::ToLedger(
                            LedgerRequest::Ping(self.listener_ip, block_height, block_hash),
                        ),
                        false,
                    )
                }
            },
            Message::Pong(is_fork, locators) => {
                dispatch_single(
                    Route::ToLedger(LedgerRequest::Pong(self.listener_ip, is_fork, locators)),
                    false,
                )
            },
            Message::UnconfirmedBlock(block) => {
                let frequency = count_recent(&self.seen_inbound_blocks, now);
                if frequency >= BLOCK_SPAM_THRESHOLD {
                    dispatch_single(
                        Route::ToPeers(PeersRequest::PeerRestricted(self.listener_ip)),
                        true,
                    )
                } else {
                    let h = block.hash();
                    let last: u64 = match id_pair_find(&self.seen_inbound_blocks, h) {
                        Some(i) => {
                            proof {
                                lemma_pair_get(self.seen_inbound_blocks@, i as int);
                            }
                            self.seen_inbound_blocks[i].1
                        },
                        None => 0,
                    };
                    id_map_upsert(&mut self.seen_inbound_blocks, h, now);
                    if elapsed_secs(now, last) > RADIO_SILENCE_IN_SECS {
                        dispatch_single(
                            Route::ToLedger(
                                LedgerRequest::UnconfirmedBlock(self.listener_ip, block),
                            ),
                            false,
                        )
                    } else {
                        dispatch_none(false)
                    }
                }
            },
            Message::UnconfirmedTransaction(transaction) => {
                let frequency = count_recent(&self.seen_inbound_transactions, now);
                if frequency >= TRANSACTION_SPAM_THRESHOLD {
                    dispatch_single(
                        Route::ToPeers(PeersRequest::PeerRestricted(self.listener_ip)),
                        true,
                    )
                } else {
                    let id = transaction.transaction_id;
                    let last: u64 = match id_pair_find(&self.seen_inbound_transactions, id) {
                        Some(i) => {
                            proof {
                                lemma_pair_get(self.seen_inbound_transactions@, i as int);
                            }
                            self.seen_inbound_transactions[i].1
                        },
                        None => 0,
                    };
                    id_map_upsert(&mut self.seen_inbound_transactions, id, now);
                    if elapsed_secs(now, last) > RADIO_SILENCE_IN_SECS {
                        dispatch_single(
                            Route::ToLedger(
                                LedgerRequest::UnconfirmedTransaction(
                                    crate::message::Origin::Peer(self.listener_ip),
                                    transaction,
                                ),
                            ),
                            false,
                        )
                    } else {
                        dispatch_none(false)
                    }
                }
            },
            Message::Unused => dispatch_none(true),
        }
    }
}

/// Per-connection gossip deduplication: once an unconfirmed item has been
/// routed to the ledger, the same item arriving again from the same peer
/// within one radio-silence window is not routed again — after the first
/// arrival the item's entry reads its arrival time, and a second arrival
/// inside the window finds the elapsed time within the window.
pub proof fn lemma_inbound_gossip_dedup(
    first_seen: Seq<(u64, u64)>,
    second_seen: Seq<(u64, u64)>,
    item: u64,
    t1: u64,
    t2: u64,
)
    requires
        spec_upserted(first_seen, second_seen, item, t1),
        spec_elapsed(t2, t1) <= RADIO_SILENCE_IN_SECS,
    ensures
        !(spec_elapsed(
            t2,
            if spec_pair_has(second_seen, item) {
                spec_pair_get(second_seen, item)
            } else {
                0
            },
        ) > RADIO_SILENCE_IN_SECS),
{
}

} // verus!
