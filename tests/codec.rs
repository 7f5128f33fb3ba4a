use opus_voip_traffic::codec::{decode_trace, encode_trace};
use opus_voip_traffic::PacketChainLink;
use speedy::{Endianness, Writable};

fn le(value: &impl Writable<Endianness>) -> Vec<u8> {
    value.write_to_vec_with_ctx(Endianness::LittleEndian).unwrap()
}

#[test]
fn round_trip_all_variants() {
    let trace = vec![
        PacketChainLink::Packet(1),
        PacketChainLink::Silence(0),
        PacketChainLink::Missing(7),
        PacketChainLink::Packet(65535),
        PacketChainLink::Silence(u32::MAX),
        PacketChainLink::Packet(0),
    ];
    let bytes = encode_trace(&trace);
    assert_eq!(decode_trace(&bytes), Some(trace));
}

#[test]
fn round_trip_empty() {
    let bytes = encode_trace(&[]);
    assert_eq!(bytes, vec![0, 0, 0, 0]);
    assert_eq!(decode_trace(&bytes), Some(vec![]));
}

#[test]
fn exact_layout() {
    let bytes = encode_trace(&[PacketChainLink::Packet(0x0102), PacketChainLink::Silence(0x0a0b0c0d)]);
    assert_eq!(
        bytes,
        vec![2, 0, 0, 0, 0, 0, 0, 0, 0x02, 0x01, 2, 0, 0, 0, 0x0d, 0x0c, 0x0b, 0x0a]
    );
}

#[test]
fn layout_matches_speedy_little_endian() {
    let trace = [
        PacketChainLink::Packet(100),
        PacketChainLink::Missing(7),
        PacketChainLink::Silence(3000),
    ];
    let mut expected = le(&3u32);
    expected.extend(le(&(0u32, 100u16)));
    expected.extend(le(&(1u32, 7u16)));
    expected.extend(le(&(2u32, 3000u32)));
    assert_eq!(encode_trace(&trace), expected);
}

#[test]
fn rejects_malformed() {
    let good = encode_trace(&[PacketChainLink::Missing(3)]);
    let mut trailing = good.clone();
    trailing.push(0);
    assert_eq!(decode_trace(&trailing), None);
    assert_eq!(decode_trace(&good[..good.len() - 1]), None);
    assert_eq!(decode_trace(&[1, 0, 0]), None);
    assert_eq!(decode_trace(&[1, 0, 0, 0, 3, 0, 0, 0, 0, 0]), None);
    assert_eq!(decode_trace(&[2, 0, 0, 0, 0, 0, 0, 0, 5, 0]), None);
}

#[test]
fn decoded_bytes_encode_back() {
    let bytes = vec![3, 0, 0, 0, 2, 0, 0, 0, 0, 0, 0, 0, 1, 0, 0, 0, 9, 1, 0, 0, 0, 0, 1, 0];
    let trace = decode_trace(&bytes).unwrap();
    assert_eq!(
        trace,
        vec![PacketChainLink::Silence(0), PacketChainLink::Missing(265), PacketChainLink::Packet(1)]
    );
    assert_eq!(encode_trace(&trace), bytes);
}
