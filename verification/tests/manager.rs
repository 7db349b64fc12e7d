use p2p_gossip::addr::PeerAddr;
use p2p_gossip::codec::{deserialize_addresses, serialize_addresses, CodecError};
use p2p_gossip::error::{AppError, CloseKind, CloseReason};
use p2p_gossip::manager::{
    accept_report, admit_inbound, attempt_report, conclude_connection, conclude_dial, discover,
    finish_bootstrap, next_attempt, receiver_stopped, AcceptOutcome, Attempt, DialVerdict,
    Disconnect, FailedPeers, InboundDecision, ReceiverVerdict, BROADCAST_CAPACITY,
    MESSAGE_LIMIT, PEER_LIST_LIMIT,
};
use p2p_gossip::table::PeerTable;

fn peer(port: u16) -> PeerAddr {
    PeerAddr::V4([127, 0, 0, 1], port)
}

fn timed_out() -> CloseReason {
    CloseReason {
        kind: CloseKind::TimedOut,
        text: b"timed out".to_vec(),
    }
}

#[test]
fn limits() {
    assert_eq!(PEER_LIST_LIMIT, 10_000);
    assert_eq!(MESSAGE_LIMIT, 1024);
    assert_eq!(BROADCAST_CAPACITY, 16);
}

#[test]
fn admitted_peer_is_sent_every_known_address() {
    let mut peers = PeerTable::new();
    peers.promote(peer(8081));
    peers.insert_if_absent(peer(8083));
    let decision = admit_inbound(&mut peers, peer(8082));
    let known = vec![peer(8081), peer(8083), peer(8082)];
    assert_eq!(decision, InboundDecision::Advertise(serialize_addresses(&known)));
    assert_eq!(peers.known(), known);
    assert!(!peers.is_finalized(peer(8082)));
    // the peer reads back what the table held
    if let InboundDecision::Advertise(bytes) = decision {
        assert_eq!(bytes.len(), 30);
        assert_eq!(deserialize_addresses(&bytes).collect(), Ok(known));
    }
}

#[test]
fn advertised_bytes_are_the_finalized_membership_when_all_are_finalized() {
    let mut peers = PeerTable::new();
    peers.promote(peer(8081));
    let decision = admit_inbound(&mut peers, peer(8082));
    peers.promote(peer(8082));
    assert_eq!(
        decision,
        InboundDecision::Advertise(serialize_addresses(&peers.snapshot_finalized()))
    );
}

#[test]
fn inbound_connection_from_a_finalized_peer_is_a_duplicate() {
    let mut peers = PeerTable::new();
    peers.promote(peer(8081));
    assert_eq!(
        admit_inbound(&mut peers, peer(8081)),
        InboundDecision::RejectDuplicate
    );
    assert_eq!(peers.known(), vec![peer(8081)]);
    assert!(peers.is_finalized(peer(8081)));
    // a peer that is known but not finalized is admitted
    peers.demote(peer(8081));
    assert_eq!(
        admit_inbound(&mut peers, peer(8081)),
        InboundDecision::Advertise(serialize_addresses(&[peer(8081)]))
    );
    assert_eq!(peers.len(), 1);
}

#[test]
fn accepting_is_reported_unless_benign() {
    assert_eq!(
        accept_report(&peer(8081), &AcceptOutcome::Accepted).unwrap(),
        b"Accepted a connection from 127.0.0.1:8081"
    );
    assert_eq!(accept_report(&peer(8081), &AcceptOutcome::Duplicate), None);
    let benign = AppError::ConnectionError(CloseReason {
        kind: CloseKind::ApplicationClosed(1),
        text: b"closed by peer: already connected (code 1)".to_vec(),
    });
    assert_eq!(
        accept_report(&peer(8081), &AcceptOutcome::Failed(benign)),
        None
    );
    let failed = AppError::ConnectionError(timed_out());
    assert_eq!(
        accept_report(&peer(8081), &AcceptOutcome::Failed(failed)).unwrap(),
        b"Failed to accept a connection from 127.0.0.1:8081, error: connection error: timed out"
    );
}

#[test]
fn discovery_takes_in_new_addresses_only() {
    let local = peer(8082);
    let mut peers = PeerTable::seeded(peer(8080));
    let mut failed = FailedPeers::new();
    failed.insert(peer(8085));
    let listed = [
        peer(8080),
        peer(8081),
        local,
        peer(8083),
        peer(8081),
        peer(8085),
    ];
    let dial = discover(&mut peers, &failed, local, &serialize_addresses(&listed));
    assert_eq!(dial, Ok(vec![peer(8081), peer(8083)]));
    assert_eq!(peers.known(), vec![peer(8080), peer(8081), peer(8083)]);
    assert_eq!(peers.snapshot_finalized(), vec![]);
    assert!(!peers.contains(local));
    // the same list a second time brings nothing new
    let dial = discover(&mut peers, &failed, local, &serialize_addresses(&listed));
    assert_eq!(dial, Ok(vec![]));
    assert_eq!(peers.len(), 3);
    assert_eq!(discover(&mut peers, &failed, local, &[]), Ok(vec![]));
}

#[test]
fn malformed_peer_list_leaves_the_table_alone() {
    let mut peers = PeerTable::seeded(peer(8080));
    let mut data = serialize_addresses(&[peer(8081)]);
    data.extend_from_slice(&[1, 0, 0, 0, 9, 9, 9, 9, 9, 9, 9]);
    assert_eq!(
        discover(&mut peers, &FailedPeers::new(), peer(8082), &data),
        Err(AppError::AddressCodec(CodecError::MalformedAddressRecord))
    );
    assert_eq!(peers.known(), vec![peer(8080)]);
}

#[test]
fn dial_that_connects_finalizes_the_peer() {
    let mut peers = PeerTable::seeded(peer(8080));
    let mut failed = FailedPeers::new();
    let verdict = conclude_dial(&mut peers, &mut failed, peer(8081), peer(8080), &Ok(()));
    assert_eq!(
        verdict,
        DialVerdict {
            line: None,
            close_duplicate: false
        }
    );
    assert!(peers.is_finalized(peer(8080)));
    assert!(!failed.contains(peer(8080)));
}

#[test]
fn cross_dial_is_closed_by_the_node_whose_address_comes_first() {
    let (a, b) = (peer(8080), peer(8081));
    let mut failed = FailedPeers::new();
    // at a: b is finalized already, a dialled b, a < b
    let mut at_a = PeerTable::new();
    at_a.promote(b);
    let verdict = conclude_dial(&mut at_a, &mut failed, a, b, &Ok(()));
    assert!(verdict.close_duplicate);
    assert_eq!(verdict.line, None);
    // at b: a is finalized already, b dialled a, b > a
    let mut at_b = PeerTable::new();
    at_b.promote(a);
    let verdict = conclude_dial(&mut at_b, &mut failed, b, a, &Ok(()));
    assert!(!verdict.close_duplicate);
    assert!(at_a.is_finalized(b));
    assert!(at_b.is_finalized(a));
    assert_eq!(at_a.len(), 1);
}

#[test]
fn failed_dial_is_logged_and_remembered_unless_benign() {
    let mut peers = PeerTable::seeded(peer(8080));
    let mut failed = FailedPeers::new();
    let error = AppError::ConnectionError(timed_out());
    let verdict = conclude_dial(&mut peers, &mut failed, peer(8081), peer(8080), &Err(error));
    assert_eq!(
        verdict.line.unwrap(),
        b"Failed to connect to 127.0.0.1:8080, error: connection error: timed out"
    );
    assert!(!verdict.close_duplicate);
    assert!(failed.contains(peer(8080)));
    assert!(!peers.is_finalized(peer(8080)));
    assert!(peers.contains(peer(8080)));

    let mut failed = FailedPeers::new();
    for kind in [CloseKind::ApplicationClosed(1), CloseKind::LocallyClosed] {
        let error = AppError::ConnectionError(CloseReason {
            kind,
            text: b"closed".to_vec(),
        });
        let verdict =
            conclude_dial(&mut peers, &mut failed, peer(8081), peer(8080), &Err(error));
        assert_eq!(
            verdict,
            DialVerdict {
                line: None,
                close_duplicate: false
            }
        );
        assert!(!failed.contains(peer(8080)));
    }
    let error = AppError::Dns(b"no such host".to_vec());
    let verdict = conclude_dial(&mut peers, &mut failed, peer(8081), peer(8083), &Err(error));
    assert_eq!(
        verdict.line.unwrap(),
        b"Failed to connect to 127.0.0.1:8083, error: DNS error: no such host"
    );
    assert!(failed.contains(peer(8083)));
    assert!(!peers.contains(peer(8083)));
}

#[test]
fn benign_close_is_silent() {
    for (kind, text) in [
        (CloseKind::ApplicationClosed(1), "closed by peer: already connected (code 1)"),
        (CloseKind::LocallyClosed, "closed"),
    ] {
        let mut peers = PeerTable::new();
        peers.promote(peer(8081));
        let reason = CloseReason {
            kind,
            text: text.as_bytes().to_vec(),
        };
        assert_eq!(
            conclude_connection(&mut peers, peer(8081), &reason),
            Disconnect {
                line: None,
                reconnect: false
            }
        );
        assert!(!peers.is_finalized(peer(8081)));
        assert!(peers.contains(peer(8081)));
    }
}

#[test]
fn timeout_is_logged_and_asks_for_a_reconnect() {
    let mut peers = PeerTable::new();
    peers.promote(peer(8081));
    let verdict = conclude_connection(&mut peers, peer(8081), &timed_out());
    assert_eq!(
        verdict.line.unwrap(),
        b"Closed connection to 127.0.0.1:8081, reason: timed out"
    );
    assert!(verdict.reconnect);
    assert!(!peers.is_finalized(peer(8081)));
}

#[test]
fn other_close_reasons_are_logged_and_final() {
    for (kind, text) in [
        (CloseKind::ApplicationClosed(2), "closed by peer: shutdown (code 2)"),
        (CloseKind::Other, "reset by peer"),
    ] {
        let mut peers = PeerTable::new();
        peers.promote(peer(8081));
        let reason = CloseReason {
            kind,
            text: text.as_bytes().to_vec(),
        };
        let verdict = conclude_connection(&mut peers, peer(8081), &reason);
        assert_eq!(
            verdict.line.unwrap(),
            format!("Closed connection to 127.0.0.1:8081, reason: {text}").as_bytes()
        );
        assert!(!verdict.reconnect);
        assert!(!peers.is_finalized(peer(8081)));
    }
}

#[test]
fn reconnect_stops_when_the_peer_came_back_by_itself() {
    let mut peers = PeerTable::new();
    peers.demote(peer(8081));
    assert_eq!(next_attempt(&peers, peer(8081)), Attempt::Dial);
    assert_eq!(next_attempt(&peers, peer(8085)), Attempt::Dial);
    peers.promote(peer(8081));
    assert_eq!(next_attempt(&peers, peer(8081)), Attempt::Superseded);
    assert_eq!(
        attempt_report(&peer(8081), &Ok(())).unwrap(),
        b"Reconnected to 127.0.0.1:8081"
    );
    assert_eq!(
        attempt_report(&peer(8081), &Err(AppError::ConnectionError(timed_out()))),
        None
    );
}

#[test]
fn receiver_stops_only_when_the_connection_is_closed() {
    let error = AppError::ReadToEndError(b"stream reset".to_vec());
    assert_eq!(
        receiver_stopped(&peer(8081), Some(timed_out()), &error),
        ReceiverVerdict::Closed(timed_out())
    );
    assert_eq!(
        receiver_stopped(&peer(8081), None, &error),
        ReceiverVerdict::Resume(
            b"Failed to receive from 127.0.0.1:8081, error: read error: stream reset".to_vec()
        )
    );
}

#[test]
fn bootstrap_ends_with_the_finalized_peers() {
    let mut peers = PeerTable::seeded(peer(8080));
    let failed = FailedPeers::new();
    let listed = serialize_addresses(&[peer(8080), peer(8081), peer(8083)]);
    let dial = discover(&mut peers, &failed, peer(8082), &listed).unwrap();
    assert_eq!(dial, vec![peer(8081), peer(8083)]);
    peers.promote(peer(8080));
    peers.promote(peer(8081));
    // 8083 never finalizes
    assert_eq!(
        finish_bootstrap(&mut peers),
        b"Connected to the peers at [\"127.0.0.1:8080\", \"127.0.0.1:8081\"]"
    );
    assert_eq!(peers.known(), vec![peer(8080), peer(8081)]);
    let mut alone = PeerTable::seeded(peer(8080));
    assert_eq!(finish_bootstrap(&mut alone), b"Connected to the peers at []");
    assert!(alone.is_empty());
}

#[test]
fn local_address_stays_out_of_the_table() {
    let local = peer(8080);
    let mut peers = PeerTable::seeded(peer(8081));
    let mut failed = FailedPeers::new();
    admit_inbound(&mut peers, peer(8082));
    peers.promote(peer(8082));
    discover(
        &mut peers,
        &failed,
        local,
        &serialize_addresses(&[local, peer(8083), local]),
    )
    .unwrap();
    conclude_dial(&mut peers, &mut failed, local, peer(8083), &Ok(()));
    conclude_connection(&mut peers, peer(8084), &timed_out());
    assert!(!peers.contains(local));
    finish_bootstrap(&mut peers);
    assert!(!peers.contains(local));
    assert_eq!(peers.known(), vec![peer(8082), peer(8083)]);
}

#[test]
fn failed_peers_is_a_set() {
    let mut failed = FailedPeers::new();
    assert!(!failed.contains(peer(1)));
    failed.insert(peer(1));
    failed.insert(peer(1));
    failed.insert(peer(2));
    assert!(failed.contains(peer(1)));
    assert!(failed.contains(peer(2)));
    assert!(!failed.contains(peer(3)));
}
