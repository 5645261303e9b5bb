use chain_node::address::Addr;
use chain_node::block::{genesis_block, Transaction};
use chain_node::codec::{decode_frame, encode_frame, CodecError};
use chain_node::config::{NodeType, MAXIMUM_BLOCK_REQUEST};
use chain_node::ledger::{LedgerError, LedgerState};
use chain_node::message::{LedgerRequest, Origin};
use chain_node::peers::{Peers, PeersRequest};
use chain_node::rpc::{HexError, RpcCredentials, RpcError, RpcImpl};

const ADDRESS: u64 = 0xfee1_600d;

fn sample_transaction() -> Transaction {
    Transaction {
        transaction_id: 0x0102030405060708,
        transition_id: 0x1112131415161718,
        ciphertext_id: 0x2122232425262728,
        ciphertext: 0x3132333435363738,
    }
}

fn new_rpc(blocks: i64) -> RpcImpl {
    let mut ledger = LedgerState::open();
    for t in 1..=blocks {
        let b = ledger.mine_next_block(ADDRESS, &Vec::new(), t).expect("Failed to mine");
        ledger.add_next_block(&b).expect("Failed to add next block to ledger");
    }
    let peers = Peers::new(
        Addr::new(0x7f000001, 4130),
        Some(7777),
        NodeType::Client,
        Vec::new(),
        Vec::new(),
    );
    let credentials = RpcCredentials {
        username: String::from("root"),
        password: String::from("insecure-test-password"),
    };
    RpcImpl::new(credentials, peers, ledger)
}

#[test]
fn test_transaction_codec_round_trip() {
    let t = sample_transaction();
    let bytes = t.to_bytes();
    assert_eq!(32, bytes.len());
    // Little-endian layout: the least significant byte of each field first.
    assert_eq!(0x08, bytes[0]);
    assert_eq!(0x01, bytes[7]);
    assert_eq!(0x18, bytes[8]);
    assert_eq!(t, Transaction::from_bytes(&bytes).expect("Failed to decode"));

    let short = vec![0u8; 31];
    assert_eq!(Err(CodecError::InvalidLength(31)), Transaction::from_bytes(&short));
}

#[test]
fn test_frame_codec_round_trip() {
    let payload = vec![9u8, 8, 7, 6, 5];
    let mut framed = encode_frame(&payload);
    assert_eq!(vec![5u8, 0, 0, 0, 9, 8, 7, 6, 5], framed);

    // Decoding with trailing bytes consumes exactly the frame.
    framed.push(0xaa);
    let (decoded, consumed) = decode_frame(&framed).expect("Failed to decode frame");
    assert_eq!(payload, decoded);
    assert_eq!(9, consumed);

    // An incomplete frame yields nothing.
    assert!(decode_frame(&vec![5u8, 0, 0, 0, 9]).is_none());
    assert!(decode_frame(&vec![1u8, 0]).is_none());
}

#[test]
fn test_send_transaction_round_trip() {
    let rpc = new_rpc(0);
    let t = sample_transaction();
    let tx_hex = hex::encode(t.to_bytes());
    let (id, request) = rpc.send_transaction(&tx_hex).expect("Failed to submit");
    assert_eq!(t.transaction_id, id);
    match request {
        LedgerRequest::UnconfirmedTransaction(Origin::Local, decoded) => assert_eq!(t, decoded),
        other => panic!("unexpected request: {:?}", other),
    }

    // Uppercase hex decodes the same way.
    let (id_upper, _) = rpc.send_transaction(&tx_hex.to_uppercase()).expect("Failed to submit");
    assert_eq!(t.transaction_id, id_upper);
}

#[test]
fn test_send_transaction_rejections() {
    let rpc = new_rpc(0);

    assert_eq!(
        Err(RpcError::FromHexError(HexError::OddLength)),
        rpc.send_transaction("abc")
    );
    assert_eq!(
        Err(RpcError::FromHexError(HexError::InvalidHexCharacter { c: 'z', index: 2 })),
        rpc.send_transaction("abzz")
    );
    assert_eq!(
        Err(RpcError::Codec(CodecError::InvalidLength(2))),
        rpc.send_transaction("abcd")
    );
}

#[test]
fn test_rpc_latest_endpoints() {
    let rpc = new_rpc(2);
    let tip = rpc.0.ledger.latest_block();

    assert_eq!(2, rpc.latest_block_height().unwrap());
    assert_eq!(tip, rpc.latest_block().unwrap());
    assert_eq!(tip.hash(), rpc.latest_block_hash().unwrap());
    assert_eq!(tip.header(), rpc.latest_block_header().unwrap());
    assert_eq!(tip.transactions, rpc.latest_block_transactions().unwrap());
    assert_eq!(rpc.0.ledger.latest_ledger_root(), rpc.latest_ledger_root().unwrap());
    assert!(rpc.get_connected_peers().unwrap().is_empty());
}

#[test]
fn test_rpc_block_queries() {
    let rpc = new_rpc(3);
    let genesis = genesis_block();

    assert_eq!(genesis, rpc.get_block(0).unwrap());
    assert_eq!(genesis.hash(), rpc.get_block_hash(0).unwrap());
    assert_eq!(genesis.header(), rpc.get_block_header(0).unwrap());
    assert_eq!(0, rpc.get_block_height(genesis.hash()).unwrap());
    assert!(rpc.get_block_transactions(0).unwrap().is_empty());

    let blocks = rpc.get_blocks(0, 3).unwrap();
    assert_eq!(4, blocks.len());
    assert_eq!(genesis, blocks[0]);
    let hashes = rpc.get_block_hashes(1, 2).unwrap();
    assert_eq!(vec![blocks[1].hash(), blocks[2].hash()], hashes);

    assert_eq!(
        Err(RpcError::Upstream(LedgerError::InvalidBlockHeight(9))),
        rpc.get_block(9)
    );
    assert_eq!(
        Err(RpcError::Upstream(LedgerError::UnknownBlockHash(5))),
        rpc.get_block_height(5)
    );
}

#[test]
fn test_rpc_get_blocks_is_clipped() {
    // Build a chain longer than one block request may serve.
    let extra = 10;
    let total = MAXIMUM_BLOCK_REQUEST + extra;
    let rpc = new_rpc(total as i64);

    let blocks = rpc.get_blocks(0, total).unwrap();
    assert_eq!(MAXIMUM_BLOCK_REQUEST as usize, blocks.len());
    // The start is clipped up to serve exactly the newest range.
    assert_eq!(extra + 1, blocks[0].height());
    assert_eq!(total, blocks.last().unwrap().height());

    let hashes = rpc.get_block_hashes(0, total).unwrap();
    assert_eq!(MAXIMUM_BLOCK_REQUEST as usize, hashes.len());
    assert_eq!(rpc.0.ledger.latest_block_hash(), *hashes.last().unwrap());
}

#[test]
fn test_rpc_transaction_queries() {
    let rpc = new_rpc(1);
    let coinbase = rpc.0.ledger.latest_block().transactions[0];

    let (t, metadata) = rpc.get_transaction(coinbase.transaction_id).unwrap();
    assert_eq!(coinbase, t);
    assert_eq!(1, metadata.block_height);
    assert_eq!(0, metadata.transaction_index);

    assert_eq!(coinbase, rpc.get_transition(coinbase.transition_id).unwrap());
    assert_eq!(coinbase.ciphertext, rpc.get_ciphertext(coinbase.ciphertext_id).unwrap());

    assert_eq!(
        Err(RpcError::Upstream(LedgerError::UnknownTransaction(3))),
        rpc.get_transaction(3)
    );
}

#[test]
fn test_rpc_propagates_submitted_transactions() {
    // The submit path is fire-and-forget: the returned request is what the
    // node's event loop hands to the ledger, which then asks the peer
    // manager to propagate.
    let rpc = new_rpc(0);
    let t = sample_transaction();
    let tx_hex = hex::encode(t.to_bytes());
    let (_id, request) = rpc.send_transaction(&tx_hex).expect("Failed to submit");

    let mut peers = Peers::new(
        Addr::new(0x7f000001, 4130),
        Some(7777),
        NodeType::Client,
        Vec::new(),
        Vec::new(),
    );
    let a = Addr::new(0x0a000002, 4131);
    peers.update(PeersRequest::PeerConnected(a, 1), 0);
    if let LedgerRequest::UnconfirmedTransaction(Origin::Local, tx) = request {
        let actions = peers.update(
            PeersRequest::MessagePropagate(
                peers.local_ip,
                chain_node::message::Message::UnconfirmedTransaction(tx),
            ),
            1000,
        );
        assert_eq!(1, actions.len());
    } else {
        panic!("unexpected request");
    }
}
