use opus_voip_traffic::relay::{classify, PacketType, PeerAddr, RelayServer, RoomConfigError};

fn peer(n: u16) -> PeerAddr {
    PeerAddr { ip: 0xffff_0a00_0000 + n as u128, port: 40000 + n }
}

fn voice(ssrc: u32) -> Vec<u8> {
    let mut v = vec![0x80u8; 40];
    v[8..12].copy_from_slice(&ssrc.to_be_bytes());
    v
}

#[test]
fn rooms_split_at_capacity() {
    let (a, b, c) = (peer(1), peer(2), peer(3));
    let mut relay = RelayServer::new(2, 2, true).unwrap();
    assert_eq!(relay.handle_datagram(a, &voice(1)), vec![]);
    assert_eq!(relay.handle_datagram(b, &voice(2)), vec![a]);
    assert_eq!(relay.handle_datagram(c, &voice(3)), vec![]);
    assert_eq!(relay.room_of(a), Some(0));
    assert_eq!(relay.room_of(b), Some(0));
    assert_eq!(relay.room_of(c), Some(1));
    assert_eq!(relay.room(0), vec![a, b]);
    assert_eq!(relay.room(1), vec![c]);
    assert_eq!(relay.handle_datagram(a, &voice(1)), vec![b]);
    assert_eq!(relay.handle_datagram(b, &voice(2)), vec![a]);
}

#[test]
fn keepalive_is_echoed_without_state_change() {
    let (a, b) = (peer(1), peer(2));
    let mut relay = RelayServer::new(2, 8, true).unwrap();
    let ka = 7u64.to_le_bytes();
    assert_eq!(relay.handle_datagram(a, &ka), vec![a]);
    assert_eq!(relay.room_of(a), None);
    assert_eq!(relay.room_count(), 1);
    relay.handle_datagram(b, &voice(9));
    assert_eq!(relay.handle_datagram(b, &ka), vec![b]);
    assert_eq!(relay.room(0), vec![b]);
}

#[test]
fn single_room_never_splits() {
    let mut relay = RelayServer::new(2, 2, false).unwrap();
    for n in 1..=5 {
        relay.handle_datagram(peer(n), &voice(n as u32));
    }
    assert_eq!(relay.room_count(), 1);
    assert_eq!(relay.handle_datagram(peer(3), &voice(3)), vec![peer(1), peer(2), peer(4), peer(5)]);
}

#[test]
fn drawn_capacity_decides_next_split() {
    let mut relay = RelayServer::with_capacity(1, 3, true, 1);
    relay.route_datagram(peer(1), &voice(1), 3);
    assert_eq!(relay.room_count(), 2);
    relay.route_datagram(peer(2), &voice(2), 1);
    relay.route_datagram(peer(3), &voice(3), 1);
    assert_eq!(relay.room_count(), 2);
    relay.route_datagram(peer(4), &voice(4), 1);
    assert_eq!(relay.room_count(), 3);
    assert_eq!(relay.room(1), vec![peer(2), peer(3), peer(4)]);
}

#[test]
fn short_datagrams_are_voice() {
    let mut relay = RelayServer::new(4, 4, true).unwrap();
    relay.handle_datagram(peer(1), &[1, 2, 3]);
    assert_eq!(relay.handle_datagram(peer(2), &[]), vec![peer(1)]);
    assert_eq!(classify(&[0; 8]), PacketType::KeepAlive);
    assert_eq!(classify(&[0; 9]), PacketType::Rtp);
    assert_eq!(classify(&[0; 7]), PacketType::Rtp);
}

#[test]
fn empty_room_range_is_refused() {
    assert_eq!(RelayServer::new(5, 4, true).err(), Some(RoomConfigError::EmptyRoomRange));
}
