use p2p_gossip::addr::PeerAddr;
use p2p_gossip::codec::{
    deserialize_addresses, serialize_addresses, CodecError, IPV4_SERIALIZED_LEN,
    IPV6_SERIALIZED_LEN,
};
use rand::{Rng, SeedableRng};
use rand_pcg::Pcg64Mcg;

fn written_by_bincode(addr: &PeerAddr) -> Vec<u8> {
    match *addr {
        PeerAddr::V4(ip, port) => bincode::serialize(&(0u32, ip, port)).unwrap(),
        PeerAddr::V6(ip, port) => bincode::serialize(&(1u32, ip, port)).unwrap(),
    }
}

#[test]
fn test_ipv4_serialized_len() {
    let addr = PeerAddr::V4([127, 0, 0, 1], 8080);
    assert_eq!(IPV4_SERIALIZED_LEN, written_by_bincode(&addr).len());
    assert_eq!(IPV4_SERIALIZED_LEN, addr.to_record().len());
    assert_eq!(IPV4_SERIALIZED_LEN, addr.record_len());
}

#[test]
fn test_ipv6_serialized_len() {
    let addr = PeerAddr::V6(
        [0, 0, 0, 0, 0, 0, 0, 0, 0, 0, 0xff, 0xff, 0xc0, 0x0a, 0x02, 0xff],
        8080,
    );
    assert_eq!(IPV6_SERIALIZED_LEN, written_by_bincode(&addr).len());
    assert_eq!(IPV6_SERIALIZED_LEN, addr.to_record().len());
    assert_eq!(IPV6_SERIALIZED_LEN, addr.record_len());
}

#[test]
fn test_deserialize_addresses() {
    let mut rng = Pcg64Mcg::from_entropy();
    for _ in 0..10 {
        let len = rng.gen_range(0..100);
        let addresses: Vec<_> = (0..len)
            .map(|_| {
                if rng.gen() {
                    PeerAddr::V4(rng.gen::<u32>().to_be_bytes(), rng.gen())
                } else {
                    PeerAddr::V6(rng.gen::<u128>().to_be_bytes(), rng.gen())
                }
            })
            .collect();

        let mut data = Vec::new();
        for addr in &addresses {
            data.extend_from_slice(&written_by_bincode(addr));
        }

        let mut cursor = deserialize_addresses(&data);
        let mut i = 0;
        while let Some(found) = cursor.next().unwrap() {
            assert_eq!(found, addresses[i]);
            i += 1;
        }
        assert_eq!(i, addresses.len());
    }
}

#[test]
fn ipv4_record_layout() {
    assert_eq!(
        PeerAddr::V4([127, 0, 0, 1], 8080).to_record(),
        vec![0, 0, 0, 0, 127, 0, 0, 1, 0x90, 0x1f]
    );
}

#[test]
fn ipv6_record_layout() {
    let ip = [
        0x20, 0x01, 0x0d, 0xb8, 0, 0, 0, 0, 0, 0, 0, 0, 0, 0, 0, 0x01,
    ];
    let mut expected = vec![1, 0, 0, 0];
    expected.extend_from_slice(&ip);
    expected.extend_from_slice(&[0xbb, 0x01]);
    assert_eq!(PeerAddr::V6(ip, 443).to_record(), expected);
}

#[test]
fn records_are_what_bincode_writes() {
    let addrs = [
        PeerAddr::V4([192, 168, 7, 9], 65535),
        PeerAddr::V6([0xfe, 0x80, 0, 0, 0, 0, 0, 0, 0, 1, 0, 2, 0, 3, 0, 4], 1),
    ];
    for addr in addrs {
        assert_eq!(addr.to_record(), written_by_bincode(&addr));
    }
}

#[test]
fn next_yields_records_in_order() {
    let data = [
        0, 0, 0, 0, 10, 0, 0, 1, 0x50, 0x00, // 10.0.0.1:80
        0, 0, 0, 0, 10, 0, 0, 2, 0x00, 0x01, // 10.0.0.2:256
    ];
    let mut cursor = deserialize_addresses(&data);
    assert_eq!(cursor.next(), Ok(Some(PeerAddr::V4([10, 0, 0, 1], 80))));
    assert_eq!(cursor.next(), Ok(Some(PeerAddr::V4([10, 0, 0, 2], 256))));
    assert_eq!(cursor.next(), Ok(None));
    assert_eq!(cursor.next(), Ok(None));
}

#[test]
fn decoder_halts_on_fewer_than_ten_bytes() {
    let data = [0u8, 0, 0, 0, 127, 0, 0, 1, 0x90];
    assert_eq!(deserialize_addresses(&data).next(), Ok(None));
    assert_eq!(deserialize_addresses(&[]).collect(), Ok(vec![]));
    // nine bytes that start like an IPv6 record are the end of the list too
    let data = [1u8, 0, 0, 0, 1, 2, 3, 4, 5];
    assert_eq!(deserialize_addresses(&data).next(), Ok(None));
}

#[test]
fn decoder_ignores_what_follows_the_last_record() {
    let mut data = PeerAddr::V4([1, 2, 3, 4], 5).to_record();
    data.extend_from_slice(&[0, 0, 0]);
    assert_eq!(
        deserialize_addresses(&data).collect(),
        Ok(vec![PeerAddr::V4([1, 2, 3, 4], 5)])
    );
}

#[test]
fn decoder_halts_on_unknown_family() {
    let data = [2u8, 0, 0, 0, 1, 2, 3, 4, 5, 6, 7, 8];
    assert_eq!(deserialize_addresses(&data).next(), Ok(None));
    let data = [0u8, 1, 0, 0, 1, 2, 3, 4, 5, 6, 7, 8];
    assert_eq!(deserialize_addresses(&data).collect(), Ok(vec![]));
}

#[test]
fn truncated_ipv6_record_is_malformed() {
    let data = [1u8, 0, 0, 0, 1, 2, 3, 4, 5, 6, 7, 8];
    let mut cursor = deserialize_addresses(&data);
    assert_eq!(cursor.next(), Err(CodecError::MalformedAddressRecord));
    // the cursor has not moved
    assert_eq!(cursor.next(), Err(CodecError::MalformedAddressRecord));

    let mut data = PeerAddr::V4([1, 2, 3, 4], 5).to_record();
    data.extend_from_slice(&[1u8; 1]);
    data.extend_from_slice(&[0u8; 20]);
    assert_eq!(data.len(), 31);
    assert_eq!(
        deserialize_addresses(&data).collect(),
        Err(CodecError::MalformedAddressRecord)
    );
}

#[test]
fn round_trip_two_families() {
    let addrs = vec![
        PeerAddr::V4([10, 0, 0, 7], 65535),
        PeerAddr::V6([0x20, 1, 0xd, 0xb8, 0, 0, 0, 0, 0, 0, 0, 0, 0, 0, 0, 1], 443),
        PeerAddr::V4([192, 168, 1, 1], 0),
    ];
    let data = serialize_addresses(&addrs);
    assert_eq!(data.len(), 10 + 22 + 10);
    assert_eq!(deserialize_addresses(&data).collect(), Ok(addrs));
}

#[test]
fn serialize_nothing_is_empty() {
    assert_eq!(serialize_addresses(&[]), Vec::<u8>::new());
}
