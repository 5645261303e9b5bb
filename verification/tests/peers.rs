use chain_node::address::Addr;
use chain_node::block::genesis_block;
use chain_node::block::Transaction;
use chain_node::config::{
    NodeType, MAXIMUM_NUMBER_OF_PEERS, MESSAGE_VERSION, RADIO_SILENCE_IN_SECS,
    TRANSACTION_SPAM_THRESHOLD,
};
use chain_node::ledger::LedgerState;
use chain_node::message::{LedgerRequest, Message};
use chain_node::peer::{
    handshake_start, handshake_step, Dispatch, HandshakeError, HandshakeEvent, HandshakeState,
    Peer, Route,
};
use chain_node::peers::{PeerAction, Peers, PeersRequest};

fn addr(n: u16) -> Addr {
    Addr::new(0x0a000001 + n as u32, 4130 + n)
}

fn new_peers() -> Peers {
    Peers::new(
        Addr::new(0x7f000001, 4130),
        Some(7777),
        NodeType::Client,
        Vec::new(),
        Vec::new(),
    )
}

fn mined_block(n: i64) -> chain_node::block::Block {
    let mut ledger = LedgerState::open();
    for t in 1..=n {
        let b = ledger.mine_next_block(9, &Vec::new(), t).expect("Failed to mine");
        ledger.add_next_block(&b).expect("Failed to add next block to ledger");
    }
    ledger.latest_block()
}

#[test]
fn test_handshake_accepts_a_fresh_nonce() {
    let (state, hello) = handshake_start(4130, 7777);
    assert_eq!(HandshakeState::AwaitingRequest, state);
    assert!(matches!(hello, Message::ChallengeRequest(MESSAGE_VERSION, 4130, 7777, 0)));

    let peer = addr(1);
    let event = HandshakeEvent::Received(Message::ChallengeRequest(
        MESSAGE_VERSION,
        peer.port,
        1234,
        0,
    ));
    let (state, _actions) =
        handshake_step(state, event, peer, 7777, &vec![1111]).expect("handshake refused");
    assert_eq!(HandshakeState::AwaitingResponse { peer_ip: peer, peer_nonce: 1234 }, state);

    let event = HandshakeEvent::Received(Message::ChallengeResponse(genesis_block().header()));
    let (state, actions) =
        handshake_step(state, event, peer, 7777, &vec![1111]).expect("handshake refused");
    assert_eq!(HandshakeState::Connected { peer_ip: peer, peer_nonce: 1234 }, state);
    assert!(actions.is_empty());
}

#[test]
fn test_handshake_rejects_self_nonce() {
    let peer = addr(1);
    let event = HandshakeEvent::Received(Message::ChallengeRequest(
        MESSAGE_VERSION,
        peer.port,
        7777,
        0,
    ));
    assert!(matches!(
        handshake_step(HandshakeState::AwaitingRequest, event, peer, 7777, &Vec::new()),
        Err(HandshakeError::AttemptedSelfConnect(7777))
    ));
}

#[test]
fn test_handshake_rejects_outdated_version() {
    let peer = addr(1);
    let event = HandshakeEvent::Received(Message::ChallengeRequest(
        MESSAGE_VERSION - 1,
        peer.port,
        1234,
        0,
    ));
    let refused = handshake_step(HandshakeState::AwaitingRequest, event, peer, 7777, &Vec::new());
    assert!(matches!(refused, Err(HandshakeError::OutdatedVersion(v)) if v == MESSAGE_VERSION - 1));
}

#[test]
fn test_handshake_probes_a_differing_listener_port() {
    let source = Addr::new(0x0a000009, 50000);
    let event = HandshakeEvent::Received(Message::ChallengeRequest(MESSAGE_VERSION, 4131, 1234, 0));
    let (state, actions) =
        handshake_step(HandshakeState::AwaitingRequest, event, source, 7777, &Vec::new())
            .expect("handshake refused");
    let listener = Addr::new(0x0a000009, 4131);
    assert_eq!(HandshakeState::Probing { peer_ip: listener, peer_nonce: 1234 }, state);
    assert_eq!(1, actions.len());

    // A failed probe rejects; a successful probe continues to the nonce
    // checks and the challenge response.
    assert!(matches!(
        handshake_step(state, HandshakeEvent::ProbeFailed, source, 7777, &Vec::new()),
        Err(HandshakeError::PeerUnreachable)
    ));
    let (state, _actions) =
        handshake_step(state, HandshakeEvent::ProbeSucceeded, source, 7777, &Vec::new())
            .expect("handshake refused");
    assert_eq!(HandshakeState::AwaitingResponse { peer_ip: listener, peer_nonce: 1234 }, state);
}

#[test]
fn test_duplicate_nonce_rejection() {
    // Peer A connects with nonce 1234.
    let mut peers = new_peers();
    let a = addr(1);
    let actions = peers.update(PeersRequest::PeerConnected(a, 1234), 10);
    assert!(actions.is_empty());
    assert_eq!(1, peers.num_connected_peers());

    // Peer B attempts a handshake advertising the same nonce.
    let b = addr(2);
    let event = HandshakeEvent::Received(Message::ChallengeRequest(
        MESSAGE_VERSION,
        b.port,
        1234,
        0,
    ));
    assert!(matches!(
        handshake_step(
            HandshakeState::AwaitingRequest,
            event,
            b,
            peers.local_nonce,
            &peers.connected_nonces(),
        ),
        Err(HandshakeError::DuplicateNonce(1234))
    ));
    assert_eq!(1, peers.num_connected_peers());
}

#[test]
fn test_block_spam_restriction() {
    let mut peers = new_peers();
    let a = addr(1);
    peers.update(PeersRequest::PeerConnected(a, 1234), 100);

    let mut peer = Peer::new(a, 100);
    let mut restricted = false;
    // Six distinct unconfirmed blocks inside the five-second spam window.
    for n in 1..=6 {
        let block = mined_block(n);
        let d: Dispatch = peer.on_inbound_message(Message::UnconfirmedBlock(block), 102);
        if n < 6 {
            assert!(!d.disconnect);
        } else {
            // The sixth tears the connection down and restricts the peer.
            assert!(d.disconnect);
            assert_eq!(1, d.routes.len());
            match &d.routes[0] {
                Route::ToPeers(PeersRequest::PeerRestricted(ip)) => {
                    assert_eq!(a, *ip);
                    restricted = true;
                    peers.update(PeersRequest::PeerRestricted(*ip), 102);
                }
                other => panic!("unexpected route: {:?}", other),
            }
        }
    }
    assert!(restricted);
    assert!(peers.is_restricted(a, 102));
    assert!(peers.is_restricted(a, 102 + RADIO_SILENCE_IN_SECS - 1));
    assert!(!peers.is_restricted(a, 102 + RADIO_SILENCE_IN_SECS));
}

#[test]
fn test_inbound_gossip_dedup() {
    let a = addr(1);
    let t0 = 1_000_000;
    let mut peer = Peer::new(a, t0);
    let block = mined_block(1);

    // The first arrival is routed to the ledger.
    let d = peer.on_inbound_message(Message::UnconfirmedBlock(block.clone()), t0 + 1);
    assert_eq!(1, d.routes.len());
    assert!(matches!(&d.routes[0], Route::ToLedger(LedgerRequest::UnconfirmedBlock(_, _))));

    // The same block inside the radio-silence window is absorbed silently.
    let d = peer.on_inbound_message(Message::UnconfirmedBlock(block.clone()), t0 + 2);
    assert!(d.routes.is_empty());
    assert!(!d.disconnect);

    // Keep the connection alive while the dedup window runs out.
    let d = peer.on_inbound_message(Message::PeerRequest, t0 + 2 + 180);
    assert!(!d.disconnect);

    // After a full window the same block is routed again.
    let d = peer.on_inbound_message(
        Message::UnconfirmedBlock(block),
        t0 + 2 + RADIO_SILENCE_IN_SECS + 1,
    );
    assert_eq!(1, d.routes.len());
}

#[test]
fn test_outbound_gossip_dedup() {
    let mut peers = new_peers();
    let a = addr(1);
    peers.update(PeersRequest::PeerConnected(a, 1234), 0);
    let block = mined_block(1);

    // The first send is delivered.
    let actions = peers.update(
        PeersRequest::MessageSend(a, Message::UnconfirmedBlock(block.clone())),
        1000,
    );
    assert_eq!(1, actions.len());
    match &actions[0] {
        PeerAction::Deliver(targets, Message::UnconfirmedBlock(_)) => {
            assert_eq!(vec![a], *targets)
        }
        other => panic!("unexpected action: {:?}", other),
    }

    // The same block strictly inside the radio-silence window is not
    // delivered again, though its timestamp is refreshed.
    let actions = peers.update(
        PeersRequest::MessageSend(a, Message::UnconfirmedBlock(block.clone())),
        1000 + RADIO_SILENCE_IN_SECS - 1,
    );
    assert!(actions.is_empty());

    // Exactly one full window after the refresh it is delivered again.
    let actions = peers.update(
        PeersRequest::MessageSend(a, Message::UnconfirmedBlock(block)),
        1000 + RADIO_SILENCE_IN_SECS - 1 + RADIO_SILENCE_IN_SECS,
    );
    assert_eq!(1, actions.len());
}

#[test]
fn test_propagate_excludes_the_sender() {
    let mut peers = new_peers();
    let a = addr(1);
    let b = addr(2);
    let c = addr(3);
    peers.update(PeersRequest::PeerConnected(a, 1), 0);
    peers.update(PeersRequest::PeerConnected(b, 2), 0);
    peers.update(PeersRequest::PeerConnected(c, 3), 0);

    let block = mined_block(1);
    let actions = peers.update(
        PeersRequest::MessagePropagate(b, Message::UnconfirmedBlock(block)),
        1000,
    );
    assert_eq!(1, actions.len());
    match &actions[0] {
        PeerAction::Deliver(targets, Message::UnconfirmedBlock(_)) => {
            assert_eq!(vec![a, c], *targets)
        }
        other => panic!("unexpected action: {:?}", other),
    }
}

#[test]
fn test_max_peers_convergence() {
    let mut peers = new_peers();
    let over_budget = MAXIMUM_NUMBER_OF_PEERS + 2;
    for n in 0..over_budget {
        peers.update(PeersRequest::PeerConnected(addr(n as u16), 10000 + n as u64), 0);
    }
    assert_eq!(over_budget, peers.num_connected_peers());

    // The heartbeat orders a disconnect for exactly the excess peers...
    let actions = peers.update(PeersRequest::Heartbeat, 100);
    assert_eq!(1, actions.len());
    let targets = match &actions[0] {
        PeerAction::Deliver(targets, Message::Disconnect) => targets.clone(),
        other => panic!("unexpected action: {:?}", other),
    };
    assert_eq!(2, targets.len());

    // ...and once those disconnects are observed, the census is at the cap.
    for t in targets {
        peers.update(PeersRequest::PeerDisconnected(t), 101);
    }
    assert_eq!(MAXIMUM_NUMBER_OF_PEERS, peers.num_connected_peers());
}

#[test]
fn test_candidate_and_connected_stay_disjoint() {
    let mut peers = new_peers();
    let a = addr(1);
    let b = addr(2);

    peers.update(PeersRequest::ReceivePeerResponse(vec![a, b]), 0);
    assert_eq!(2, peers.num_candidate_peers());

    // Connecting a candidate removes it from the candidates.
    peers.update(PeersRequest::PeerConnected(a, 1), 1);
    assert!(peers.is_connected_to(a));
    assert!(!peers.candidate_peers().contains(&a));
    assert!(peers.candidate_peers().contains(&b));

    // An offered address that is already connected is not re-admitted.
    peers.update(PeersRequest::ReceivePeerResponse(vec![a, b]), 2);
    assert!(!peers.candidate_peers().contains(&a));

    // Disconnecting moves the peer back to the candidates.
    peers.update(PeersRequest::PeerDisconnected(a), 3);
    assert!(!peers.is_connected_to(a));
    assert!(peers.candidate_peers().contains(&a));
}

#[test]
fn test_candidate_flood_is_rejected_wholesale() {
    let mut peers = new_peers();
    let flood: Vec<Addr> = (0..20000u32).map(|n| Addr::new(0x0b000000 + n, 1)).collect();
    peers.update(PeersRequest::ReceivePeerResponse(flood), 0);
    assert_eq!(0, peers.num_candidate_peers());
}

#[test]
fn test_connect_respects_the_silence_window() {
    let mut peers = new_peers();
    let a = addr(1);

    // A fresh address is dialed.
    let actions = peers.update(PeersRequest::Connect(a), 1000);
    assert!(matches!(actions.as_slice(), [PeerAction::Dial(d)] if *d == a));

    // Dialing again inside the radio-silence window is skipped.
    let actions = peers.update(PeersRequest::Connect(a), 1000 + RADIO_SILENCE_IN_SECS - 1);
    assert!(actions.is_empty());

    // After the window the address is dialed again.
    let actions = peers.update(PeersRequest::Connect(a), 1000 + RADIO_SILENCE_IN_SECS);
    assert!(matches!(actions.as_slice(), [PeerAction::Dial(d)] if *d == a));

    // A self-connection is never dialed.
    let actions = peers.update(PeersRequest::Connect(peers.local_ip), 9999);
    assert!(actions.is_empty());
    let loopback_self = Addr::new(0x7f000001, peers.local_ip.port);
    let actions = peers.update(PeersRequest::Connect(loopback_self), 9999);
    assert!(actions.is_empty());
}

#[test]
fn test_inbound_attempt_cap() {
    let mut peers = new_peers();
    // A remote host retrying from rising ephemeral ports: the sanitized key
    // collapses the ports, and the attempt cap drops the flood.
    let mut dropped = 0;
    for n in 0..6u16 {
        let source = Addr::new(0x0c000001, 30000 + n);
        let actions = peers.update(PeersRequest::PeerConnecting(source), 50);
        if actions.is_empty() {
            dropped += 1;
        } else {
            assert!(matches!(actions.as_slice(), [PeerAction::AcceptConnection(p)] if *p == source));
        }
    }
    assert_eq!(2, dropped);

    // Loopback addresses keep their real port and are tracked separately.
    for n in 0..6u16 {
        let source = Addr::new(0x7f000001, 31000 + n);
        let actions = peers.update(PeersRequest::PeerConnecting(source), 50);
        assert_eq!(1, actions.len());
    }
}

#[test]
fn test_heartbeat_seeds_and_dials_candidates() {
    let sync_node = addr(900);
    let peer_node = addr(901);
    let mut peers = Peers::new(
        Addr::new(0x7f000001, 4130),
        Some(7777),
        NodeType::Client,
        vec![sync_node],
        vec![peer_node],
    );
    let actions = peers.update(PeersRequest::Heartbeat, 5);
    // Both allowlisted nodes become candidates, some are picked for
    // connection requests, and a peer request goes to every connected peer.
    assert_eq!(2, peers.num_candidate_peers());
    let mut request_connects = 0;
    let mut peer_requests = 0;
    for action in &actions {
        match action {
            PeerAction::RequestConnect(a) => {
                assert!(peers.candidate_peers().contains(a));
                request_connects += 1;
            }
            PeerAction::Deliver(targets, Message::PeerRequest) => {
                assert!(targets.is_empty());
                peer_requests += 1;
            }
            other => panic!("unexpected action: {:?}", other),
        }
    }
    assert_eq!(2, request_connects);
    assert_eq!(1, peer_requests);
}

#[test]
fn test_send_peer_response_lists_connected_peers() {
    let mut peers = new_peers();
    let a = addr(1);
    let b = addr(2);
    peers.update(PeersRequest::PeerConnected(a, 1), 0);
    peers.update(PeersRequest::PeerConnected(b, 2), 0);

    let actions = peers.update(PeersRequest::SendPeerResponse(a), 1);
    assert_eq!(1, actions.len());
    match &actions[0] {
        PeerAction::Deliver(targets, Message::PeerResponse(list)) => {
            assert_eq!(vec![a], *targets);
            assert_eq!(vec![a, b], *list);
        }
        other => panic!("unexpected action: {:?}", other),
    }

    // A stranger gets nothing.
    let actions = peers.update(PeersRequest::SendPeerResponse(addr(9)), 1);
    assert!(actions.is_empty());
}

#[test]
fn test_peer_silence_tears_down() {
    let a = addr(1);
    let mut peer = Peer::new(a, 0);
    assert!(peer.ready_for_outbound(RADIO_SILENCE_IN_SECS));
    assert!(!peer.ready_for_outbound(RADIO_SILENCE_IN_SECS + 1));

    // An inbound frame after a silent window is not processed.
    let d = peer.on_inbound_message(Message::PeerRequest, RADIO_SILENCE_IN_SECS + 1);
    assert!(d.disconnect);
    assert!(d.routes.is_empty());
}

#[test]
fn test_inbound_dispatch_routes() {
    let a = addr(1);
    let mut peer = Peer::new(a, 0);

    let d = peer.on_inbound_message(Message::BlockRequest(3, 9), 1);
    assert!(matches!(
        d.routes.as_slice(),
        [Route::ToLedger(LedgerRequest::BlockRequest(ip, 3, 9))] if *ip == a
    ));
    assert!(!d.disconnect);

    // An outdated ping disconnects; a current one updates the version.
    let d = peer.on_inbound_message(Message::Ping(MESSAGE_VERSION - 1, 0, 0), 2);
    assert!(d.disconnect);
    let d = peer.on_inbound_message(Message::Ping(MESSAGE_VERSION, 7, 99), 3);
    assert!(!d.disconnect);
    assert_eq!(MESSAGE_VERSION, peer.version);
    assert!(matches!(
        d.routes.as_slice(),
        [Route::ToLedger(LedgerRequest::Ping(ip, 7, 99))] if *ip == a
    ));

    // Handshake messages after the handshake are protocol violations.
    let d = peer.on_inbound_message(Message::ChallengeRequest(MESSAGE_VERSION, 1, 2, 0), 4);
    assert!(d.disconnect);
    let d = peer.on_inbound_message(Message::Unused, 5);
    assert!(d.disconnect);

    // A disconnect message is forwarded to the ledger and ends the loop.
    let d = peer.on_inbound_message(Message::Disconnect, 6);
    assert!(d.disconnect);
    assert!(matches!(
        d.routes.as_slice(),
        [Route::ToLedger(LedgerRequest::Disconnect(ip))] if *ip == a
    ));
    assert!(matches!(peer.on_disconnect(), LedgerRequest::Disconnect(ip) if ip == a));
}

#[test]
fn test_handshake_rejects_wrong_genesis_and_misphased_messages() {
    let peer = addr(1);
    let state = HandshakeState::AwaitingResponse { peer_ip: peer, peer_nonce: 1234 };

    // A challenge response with a tampered genesis header is rejected.
    let mut header = genesis_block().header();
    header.nonce += 1;
    assert!(matches!(
        handshake_step(
            state,
            HandshakeEvent::Received(Message::ChallengeResponse(header)),
            peer,
            7777,
            &Vec::new(),
        ),
        Err(HandshakeError::InvalidChallengeResponse)
    ));

    // A message out of phase is rejected.
    assert!(matches!(
        handshake_step(
            HandshakeState::AwaitingRequest,
            HandshakeEvent::Received(Message::PeerRequest),
            peer,
            7777,
            &Vec::new(),
        ),
        Err(HandshakeError::UnexpectedMessage)
    ));
}

#[test]
fn test_transaction_spam_restriction() {
    let a = addr(1);
    let t0 = 1_000_000;
    let mut peer = Peer::new(a, t0);
    for n in 0..TRANSACTION_SPAM_THRESHOLD as u64 {
        let tx = Transaction {
            transaction_id: n,
            transition_id: n,
            ciphertext_id: n,
            ciphertext: n,
        };
        let d = peer.on_inbound_message(Message::UnconfirmedTransaction(tx), t0 + 1);
        assert!(!d.disconnect);
    }
    // One more distinct transaction inside the window restricts the peer.
    let tx = Transaction {
        transaction_id: 99999,
        transition_id: 99999,
        ciphertext_id: 99999,
        ciphertext: 99999,
    };
    let d = peer.on_inbound_message(Message::UnconfirmedTransaction(tx), t0 + 2);
    assert!(d.disconnect);
    assert!(matches!(
        d.routes.as_slice(),
        [Route::ToPeers(PeersRequest::PeerRestricted(ip))] if *ip == a
    ));
}

#[test]
fn test_on_connected_registers_and_pings() {
    let a = addr(1);
    let (to_peers, to_ledger) = Peer::on_connected(a, 1234);
    assert!(matches!(to_peers, PeersRequest::PeerConnected(ip, 1234) if ip == a));
    assert!(matches!(to_ledger, LedgerRequest::SendPing(ip) if ip == a));
}
