use p2p_gossip::addr::PeerAddr;
use p2p_gossip::error::{AppError, CloseKind, CloseReason};
use p2p_gossip::lines::{
    accept_failed, accepted, closed, connect_failed, connected, format_addresses, format_peers,
    my_address, receive_failed, received, reconnected, sending, shutting_down,
};
use p2p_gossip::log::format_line;
use p2p_gossip::table::PeerTable;

fn local(port: u16) -> PeerAddr {
    PeerAddr::V4([127, 0, 0, 1], port)
}

fn line(elapsed: u64, payload: Vec<u8>) -> String {
    String::from_utf8(format_line(elapsed, &[&payload])).unwrap()
}

#[test]
fn node_8080_first_line_is_its_address() {
    assert_eq!(
        line(0, my_address(&local(8080))),
        "00:00:00 - My address is \"127.0.0.1:8080\"\n"
    );
}

#[test]
fn node_8080_announces_the_connections_it_accepts() {
    assert_eq!(
        line(0, accepted(&local(8081))),
        "00:00:00 - Accepted a connection from 127.0.0.1:8081\n"
    );
    assert_eq!(
        line(0, accepted(&local(8082))),
        "00:00:00 - Accepted a connection from 127.0.0.1:8082\n"
    );
}

#[test]
fn node_8081_is_connected_to_8080() {
    let mut peers = PeerTable::seeded(local(8080));
    peers.promote(local(8080));
    assert_eq!(
        line(0, connected(&format_peers(&peers))),
        "00:00:00 - Connected to the peers at [\"127.0.0.1:8080\"]\n"
    );
}

#[test]
fn node_8082_is_connected_to_8080_and_8081() {
    let mut peers = PeerTable::seeded(local(8080));
    peers.insert_if_absent(local(8081));
    peers.promote(local(8080));
    peers.promote(local(8081));
    assert_eq!(
        line(0, connected(&format_peers(&peers))),
        "00:00:00 - Connected to the peers at [\"127.0.0.1:8080\", \"127.0.0.1:8081\"]\n"
    );
}

#[test]
fn gossip_lines_at_their_seconds() {
    let peers = format_addresses(&[local(8081), local(8082)]);
    for t in [5, 10, 15] {
        assert_eq!(
            line(t, sending(b"X", &peers)),
            format!(
                "00:00:{t:02} - Sending message [X] to [\"127.0.0.1:8081\", \"127.0.0.1:8082\"]\n"
            )
        );
        assert_eq!(
            line(t, received(b"X", &local(8080))),
            format!("00:00:{t:02} - Received message [X] from 127.0.0.1:8080\n")
        );
    }
    let peers = format_addresses(&[local(8080), local(8082)]);
    for t in [6, 12] {
        assert_eq!(
            line(t, sending(b"Y", &peers)),
            format!(
                "00:00:{t:02} - Sending message [Y] to [\"127.0.0.1:8080\", \"127.0.0.1:8082\"]\n"
            )
        );
        assert_eq!(
            line(t, received(b"Y", &local(8081))),
            format!("00:00:{t:02} - Received message [Y] from 127.0.0.1:8081\n")
        );
    }
    let peers = format_addresses(&[local(8080), local(8081)]);
    for t in [7, 14] {
        assert_eq!(
            line(t, sending(b"Z", &peers)),
            format!(
                "00:00:{t:02} - Sending message [Z] to [\"127.0.0.1:8080\", \"127.0.0.1:8081\"]\n"
            )
        );
        assert_eq!(
            line(t, received(b"Z", &local(8082))),
            format!("00:00:{t:02} - Received message [Z] from 127.0.0.1:8082\n")
        );
    }
}

#[test]
fn shutdown_lines() {
    assert_eq!(line(16, shutting_down()), "00:00:16 - Shutting down\n");
    let reason = CloseReason {
        kind: CloseKind::ApplicationClosed(2),
        text: b"closed by peer: shutdown (code 2)".to_vec(),
    };
    assert_eq!(
        line(16, closed(&local(8081), &reason)),
        "00:00:16 - Closed connection to 127.0.0.1:8081, reason: closed by peer: shutdown (code 2)\n"
    );
}

#[test]
fn the_other_lines() {
    assert_eq!(reconnected(&local(9)), b"Reconnected to 127.0.0.1:9");
    let error = AppError::ConnectError(b"invalid remote address".to_vec());
    assert_eq!(
        connect_failed(&local(9), &error),
        b"Failed to connect to 127.0.0.1:9, error: connect error: invalid remote address"
    );
    let error = AppError::WriteError(b"stopped".to_vec());
    assert_eq!(
        accept_failed(&local(9), &error),
        b"Failed to accept a connection from 127.0.0.1:9, error: write error: stopped"
    );
    let error = AppError::ReadToEndError(b"too long".to_vec());
    assert_eq!(
        receive_failed(&local(9), &error),
        b"Failed to receive from 127.0.0.1:9, error: read error: too long"
    );
    // a message is logged byte for byte
    assert_eq!(
        received(&[0xff, b']', 0], &local(9)),
        b"Received message [\xff]\x00] from 127.0.0.1:9"
    );
}

#[test]
fn peers_are_quoted_and_separated() {
    assert_eq!(format_addresses(&[]), b"");
    assert_eq!(format_addresses(&[local(1)]), b"\"127.0.0.1:1\"");
    assert_eq!(
        format_addresses(&[
            local(1),
            PeerAddr::V6([0, 0, 0, 0, 0, 0, 0, 0, 0, 0, 0, 0, 0, 0, 0, 1], 2),
            local(3)
        ]),
        b"\"127.0.0.1:1\", \"[::1]:2\", \"127.0.0.1:3\""
    );
    assert_eq!(connected(b""), b"Connected to the peers at []");
}

#[test]
fn a_peer_that_never_finalizes_is_not_listed() {
    let mut peers = PeerTable::seeded(local(8080));
    peers.insert_if_absent(local(8081));
    peers.insert_if_absent(local(8082));
    peers.promote(local(8082));
    assert_eq!(format_peers(&peers), b"\"127.0.0.1:8082\"");
    let mut nobody = PeerTable::seeded(local(8080));
    nobody.demote(local(8080));
    assert_eq!(format_peers(&nobody), b"");
}
