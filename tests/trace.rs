use opus_voip_traffic::trace::upgrade_trace;
use opus_voip_traffic::{largest_packet, NonZeroSize, OldPacketChainLink, PacketChainLink};

#[test]
fn largest_packet_picks_maximum() {
    let trace = [
        PacketChainLink::Packet(40),
        PacketChainLink::Missing(900),
        PacketChainLink::Packet(120),
        PacketChainLink::Silence(5000),
        PacketChainLink::Packet(80),
    ];
    assert_eq!(largest_packet(&trace), Some(120));
}

#[test]
fn largest_packet_none_without_packets() {
    assert_eq!(largest_packet(&[]), None);
    assert_eq!(largest_packet(&[PacketChainLink::Missing(10), PacketChainLink::Silence(3)]), None);
    assert_eq!(largest_packet(&[PacketChainLink::Packet(0)]), Some(0));
}

#[test]
fn non_zero_size_refuses_zero() {
    assert!(NonZeroSize::new(0).is_none());
    assert_eq!(NonZeroSize::new(9).unwrap().get(), 9);
}

#[test]
fn legacy_links_upgrade() {
    let old = [
        OldPacketChainLink::Packet(NonZeroSize::new(33).unwrap()),
        OldPacketChainLink::Missing(4),
        OldPacketChainLink::Silence(250),
    ];
    assert_eq!(
        upgrade_trace(&old),
        vec![PacketChainLink::Packet(33), PacketChainLink::Missing(4), PacketChainLink::Silence(250)]
    );
    assert_eq!(PacketChainLink::from(old[0]), PacketChainLink::Packet(33));
}
